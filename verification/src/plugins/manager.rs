//! The set of plugins in use.
use vstd::prelude::*;
use crate::models::plugin::PluginDefinition;

verus! {

/// The plugins in use, in the order they were loaded.
pub struct PluginManager {
    pub plugins: Vec<PluginDefinition>,
}

/// The definitions that parsed, in order.
pub open spec fn parsed_plugins(v: Seq<Option<PluginDefinition>>) -> Seq<PluginDefinition>
    decreases v.len(),
{
    if v.len() == 0 {
        seq![]
    } else {
        let r = parsed_plugins(v.drop_last());
        match v.last() {
            Some(p) => r.push(p),
            None => r,
        }
    }
}

impl PluginManager {
    /// No plugins.
    pub fn new() -> (r: Self)
        ensures
            r.plugins@ == Seq::<PluginDefinition>::empty(),
    {
        Self { plugins: Vec::new() }
    }

    fn add_parsed(&mut self, parsed: Vec<Option<PluginDefinition>>)
        ensures
            final(self).plugins@ == old(self).plugins@ + parsed_plugins(parsed@),
    {
        let ghost start = self.plugins@;
        let ghost all = parsed@;
        let mut rest = parsed;
        let mut k: usize = 0;
        let n = rest.len();
        while k < n
            invariant
                n == all.len(),
                k <= n,
                rest@ == all.skip(k as int),
                self.plugins@ == start + parsed_plugins(all.take(k as int)),
            decreases n - k,
        {
            assert(all.take(k + 1).drop_last() =~= all.take(k as int));
            assert(rest@[0] == all[k as int]);
            let ghost before = rest@;
            let p = rest.remove(0);
            assert(rest@ =~= all.skip(k + 1));
            match p {
                Some(def) => {
                    self.plugins.push(def);
                },
                None => {},
            }
            assert(self.plugins@ =~= start + parsed_plugins(all.take(k + 1)));
            k = k + 1;
        }
        assert(all.take(n as int) =~= all);
    }

    /// Adds the bundled plugins that parsed (`parsed` holds one entry per
    /// bundled definition, `None` for one that did not parse), in order.
    pub fn load_bundled(&mut self, parsed: Vec<Option<PluginDefinition>>)
        ensures
            final(self).plugins@ == old(self).plugins@ + parsed_plugins(parsed@),
    {
        self.add_parsed(parsed);
    }

    /// Adds the plugins of a plugin directory that parsed (`parsed` holds one
    /// entry per `.yaml` file, in listing order, `None` for one that could
    /// not be read or parsed).
    pub fn load_directory(&mut self, parsed: Vec<Option<PluginDefinition>>)
        ensures
            final(self).plugins@ == old(self).plugins@ + parsed_plugins(parsed@),
    {
        self.add_parsed(parsed);
    }
}

} // verus!
