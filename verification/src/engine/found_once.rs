//! A location found in a project directory is reported as found once, however
//! many matching plugins name it.
use vstd::prelude::*;
use crate::engine::scanner::PathStats;
use crate::engine::walk::{contains_path, rec_item, rec_plugin, rec_projects, rec_step, RecState};
use crate::models::plugin::{PluginDefinition, PluginItem};
use crate::models::scan::{CacheItemView, ItemStatus, ProjectReportView};
use crate::utils::paths::{join_of, same_path};

verus! {

/// The items of `ps`, project after project.
pub open spec fn all_items(ps: Seq<ProjectReportView>) -> Seq<CacheItemView>
    decreases ps.len(),
{
    if ps.len() == 0 {
        seq![]
    } else {
        all_items(ps.drop_last()) + ps.last().items
    }
}

/// No two found items of `xs` are at the same path.
pub open spec fn found_distinct(xs: Seq<CacheItemView>) -> bool {
    forall|i: int, j: int|
        0 <= i < j < xs.len() && (#[trigger] xs[i]).status == ItemStatus::Found && (#[trigger] xs[j]).status
            == ItemStatus::Found ==> !same_path(xs[i].path, xs[j].path)
}

/// Every found item of `xs` is at a path of `seen`.
pub open spec fn found_in(xs: Seq<CacheItemView>, seen: Seq<Seq<char>>) -> bool {
    forall|i: int|
        0 <= i < xs.len() && (#[trigger] xs[i]).status == ItemStatus::Found ==> contains_path(seen, xs[i].path)
}

pub proof fn lemma_rec_step_once(
    dir: Seq<char>,
    cands: Seq<Seq<char>>,
    stats: Seq<Option<PathStats>>,
    item: PluginItem,
    rel: Seq<char>,
    st: RecState,
    pre: Seq<CacheItemView>,
)
    requires
        found_distinct(pre + st.items),
        found_in(pre + st.items, st.seen),
    ensures
        found_distinct(pre + rec_step(dir, cands, stats, item, rel, st).items),
        found_in(pre + rec_step(dir, cands, stats, item, rel, st).items, rec_step(dir, cands, stats, item, rel, st).seen),
{
    let full = join_of(dir, rel);
    let st2 = rec_step(dir, cands, stats, item, rel, st);
    if !contains_path(st.seen, full) {
        let xs = pre + st.items;
        let x = st2.items.last();
        assert(st2.items == st.items.push(x));
        let xs2 = pre + st2.items;
        assert(xs2 =~= xs.push(x));
        assert(x.path == full);
        assert forall|i: int| 0 <= i < xs2.len() && (#[trigger] xs2[i]).status == ItemStatus::Found implies contains_path(
            st2.seen,
            xs2[i].path,
        ) by {
            if i < xs.len() {
                assert(xs2[i] == xs[i]);
                assert(contains_path(st.seen, xs[i].path));
                let k = choose|k: int| 0 <= k < st.seen.len() && same_path(#[trigger] st.seen[k], xs[i].path);
                assert(st2.seen[k] == st.seen[k]);
            } else {
                assert(st2.seen == st.seen.push(full));
                assert(same_path(st2.seen[st.seen.len() as int], full));
            }
        }
        assert forall|i: int, j: int|
            0 <= i < j < xs2.len() && (#[trigger] xs2[i]).status == ItemStatus::Found && (#[trigger] xs2[j]).status
                == ItemStatus::Found implies !same_path(xs2[i].path, xs2[j].path) by {
            assert(xs2[i] == xs[i]);
            if j < xs.len() {
                assert(xs2[j] == xs[j]);
            } else {
                assert(xs2[j] == x);
                assert(contains_path(st.seen, xs[i].path));
                let k = choose|k: int| 0 <= k < st.seen.len() && same_path(#[trigger] st.seen[k], xs[i].path);
                if same_path(xs[i].path, full) {
                    assert(same_path(st.seen[k], full));
                    assert(contains_path(st.seen, full));
                }
            }
        }
    }
}

pub proof fn lemma_rec_item_once(
    dir: Seq<char>,
    cands: Seq<Seq<char>>,
    stats: Seq<Option<PathStats>>,
    item: PluginItem,
    n: int,
    st: RecState,
    pre: Seq<CacheItemView>,
)
    requires
        found_distinct(pre + st.items),
        found_in(pre + st.items, st.seen),
    ensures
        found_distinct(pre + rec_item(dir, cands, stats, item, n, st).items),
        found_in(pre + rec_item(dir, cands, stats, item, n, st).items, rec_item(dir, cands, stats, item, n, st).seen),
    decreases n,
{
    if n > 0 {
        lemma_rec_item_once(dir, cands, stats, item, n - 1, st, pre);
        lemma_rec_step_once(
            dir,
            cands,
            stats,
            item,
            item.paths@[n - 1]@,
            rec_item(dir, cands, stats, item, n - 1, st),
            pre,
        );
    }
}

pub proof fn lemma_rec_plugin_once(
    dir: Seq<char>,
    cands: Seq<Seq<char>>,
    stats: Seq<Option<PathStats>>,
    plugin: PluginDefinition,
    n: int,
    st: RecState,
    pre: Seq<CacheItemView>,
)
    requires
        found_distinct(pre + st.items),
        found_in(pre + st.items, st.seen),
    ensures
        found_distinct(pre + rec_plugin(dir, cands, stats, plugin, n, st).items),
        found_in(
            pre + rec_plugin(dir, cands, stats, plugin, n, st).items,
            rec_plugin(dir, cands, stats, plugin, n, st).seen,
        ),
    decreases n,
{
    if n > 0 {
        lemma_rec_plugin_once(dir, cands, stats, plugin, n - 1, st, pre);
        let item = plugin.project_items@[n - 1];
        lemma_rec_item_once(
            dir,
            cands,
            stats,
            item,
            item.paths@.len() as int,
            rec_plugin(dir, cands, stats, plugin, n - 1, st),
            pre,
        );
    }
}

pub proof fn lemma_rec_projects_once(
    dir: Seq<char>,
    name: Seq<char>,
    last_modified: Option<u64>,
    cands: Seq<Seq<char>>,
    stats: Seq<Option<PathStats>>,
    plugins: Seq<PluginDefinition>,
    matching: Seq<usize>,
    n: int,
)
    ensures
        found_distinct(all_items(rec_projects(dir, name, last_modified, cands, stats, plugins, matching, n).0)),
        found_in(
            all_items(rec_projects(dir, name, last_modified, cands, stats, plugins, matching, n).0),
            rec_projects(dir, name, last_modified, cands, stats, plugins, matching, n).1,
        ),
    decreases n,
{
    if n > 0 {
        lemma_rec_projects_once(dir, name, last_modified, cands, stats, plugins, matching, n - 1);
        let prev = rec_projects(dir, name, last_modified, cands, stats, plugins, matching, n - 1);
        let plugin = plugins[matching[n - 1] as int];
        let start = RecState { items: seq![], seen: prev.1 };
        let pre = all_items(prev.0);
        assert(pre + start.items =~= pre);
        lemma_rec_plugin_once(dir, cands, stats, plugin, plugin.project_items@.len() as int, start, pre);
        let r = rec_projects(dir, name, last_modified, cands, stats, plugins, matching, n);
        assert(r.0.drop_last() =~= prev.0);
    } else {
        assert(all_items(rec_projects(dir, name, last_modified, cands, stats, plugins, matching, n).0) =~= Seq::<
            CacheItemView,
        >::empty());
    }
}

/// However many matching plugins name it, a location inside a project
/// directory is reported as found at most once among all the projects
/// recorded for that directory: no two found items are at the same path.
pub proof fn law_found_once_per_directory(
    dir: Seq<char>,
    name: Seq<char>,
    last_modified: Option<u64>,
    cands: Seq<Seq<char>>,
    stats: Seq<Option<PathStats>>,
    plugins: Seq<PluginDefinition>,
    matching: Seq<usize>,
)
    ensures
        found_distinct(
            all_items(
                rec_projects(dir, name, last_modified, cands, stats, plugins, matching, matching.len() as int).0,
            ),
        ),
{
    lemma_rec_projects_once(dir, name, last_modified, cands, stats, plugins, matching, matching.len() as int);
}

} // verus!
