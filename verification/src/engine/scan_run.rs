//! A whole scan as a sequence of steps: first each plugin's global items,
//! then the project walk, each listed directory recorded before the walk
//! descends from it, and at last the report. The caller observes the file
//! system between the steps and hands the observations in.
use vstd::prelude::*;
use crate::engine::report::{report_fits, report_of};
use crate::engine::scanner::{
    global_category, global_paths, insert_category, probes_fit, GlobalProbe, PathStats, ScanState,
    Scanner, MAX_WALK_DEPTH,
};
use crate::engine::walk::{
    all_occ, apply_projects, categories_fit, dedup_paths, entry_names, initial_pending,
    matching_spec, projects_fit, pushed_children, rec_projects, DirEntry, Walker,
};
use crate::models::plugin::PluginDefinition;
use crate::models::scan::{opt_view, CategoryReportView, ScanReport};
use crate::utils::paths::expand_tilde_of;
use crate::utils::text::{opt_str, strings_view};

verus! {

/// The indices of the plugins that recognise a directory with entries `es`.
pub open spec fn visit_matching(plugins: Seq<PluginDefinition>, es: Seq<DirEntry>) -> Seq<usize> {
    matching_spec(plugins, entry_names(es), plugins.len() as int)
}

/// The paths to observe in directory `dir`, listed with entries `es`.
pub open spec fn visit_candidates(
    plugins: Seq<PluginDefinition>,
    dir: Seq<char>,
    es: Seq<DirEntry>,
) -> Seq<Seq<char>> {
    let m = visit_matching(plugins, es);
    dedup_paths(all_occ(dir, plugins, m, m.len() as int))
}

/// The pending directories after `dir`, listed at `depth` with entries `es`,
/// has been walked.
pub open spec fn descended(
    pending: Seq<(Seq<char>, int)>,
    dir: Seq<char>,
    depth: int,
    es: Seq<DirEntry>,
) -> Seq<(Seq<char>, int)> {
    if depth < MAX_WALK_DEPTH {
        pending + pushed_children(dir, depth, es)
    } else {
        pending
    }
}

fn as_str_opt(o: &Option<String>) -> (r: Option<&str>)
    ensures
        opt_str(r) == opt_view(*o),
{
    match o {
        Some(h) => Some(h.as_str()),
        None => None,
    }
}

/// A scan under way.
pub struct ScanRun {
    scanner: Scanner,
    state: ScanState,
    walker: Walker,
    home: Option<String>,
    next_global: usize,
}

impl ScanRun {
    /// The plugins of the scan.
    pub closed spec fn plugins(&self) -> Seq<PluginDefinition> {
        self.scanner.plugins@
    }

    /// The categories gathered so far.
    pub closed spec fn categories(&self) -> Seq<CategoryReportView> {
        self.state.view()
    }

    /// The directories still to be walked, the next one last.
    pub closed spec fn pending(&self) -> Seq<(Seq<char>, int)> {
        self.walker.view()
    }

    /// The home directory that `~` is expanded against.
    pub closed spec fn home(&self) -> Option<Seq<char>> {
        opt_view(self.home)
    }

    /// How many plugins have had their global items added.
    pub closed spec fn globals_added(&self) -> int {
        self.next_global as int
    }

    pub closed spec fn wf(&self) -> bool {
        &&& self.state.wf()
        &&& self.walker.wf()
        &&& self.next_global <= self.scanner.plugins@.len()
    }

    /// Every plugin's global items have been added: the walk may start.
    pub open spec fn globals_done(&self) -> bool {
        self.globals_added() == self.plugins().len()
    }

    /// A scan with `plugins` of the scan roots `roots`, `~`-expanded against
    /// `home`: nothing gathered yet, and the roots waiting to be walked.
    pub fn new(plugins: Vec<PluginDefinition>, roots: &Vec<String>, home: Option<String>) -> (r:
        ScanRun)
        ensures
            r.wf(),
            r.plugins() == plugins@,
            r.categories() == Seq::<CategoryReportView>::empty(),
            r.pending() == initial_pending(roots@, opt_view(home)),
            r.home() == opt_view(home),
            r.globals_added() == 0,
    {
        let walker = Walker::new(roots, as_str_opt(&home));
        ScanRun { scanner: Scanner::new(plugins), state: ScanState::new(), walker, home, next_global: 0 }
    }

    /// Where the global items of the next plugin are to be observed (path
    /// `j` of item `i` at `[i][j]`, `~`-expanded against the scan's home);
    /// `None` once every plugin's global items have been added.
    pub fn global_targets(&self) -> (r: Option<Vec<Vec<String>>>)
        requires
            self.wf(),
        ensures
            r is None <==> self.globals_done(),
            r matches Some(t) ==> {
                let p = self.plugins()[self.globals_added()];
                &&& t@.len() == p.global_items@.len()
                &&& forall|i: int|
                    0 <= i < t@.len() ==> (#[trigger] t@[i])@.len() == p.global_items@[i].paths@.len()
                &&& forall|i: int, j: int|
                    0 <= i < t@.len() && 0 <= j < t@[i]@.len() ==> (#[trigger] t@[i]@[j])@
                        == expand_tilde_of(p.global_items@[i].paths@[j]@, self.home())
            },
    {
        if self.next_global == self.scanner.plugins.len() {
            None
        } else {
            Some(global_paths(&self.scanner.plugins[self.next_global], as_str_opt(&self.home)))
        }
    }

    /// Adds the category of the next plugin from what was observed at its
    /// global paths; `false`, with nothing changed, when its found sizes do
    /// not add up within a `u64`.
    pub fn add_global(&mut self, probes: &Vec<Vec<GlobalProbe>>) -> (ok: bool)
        requires
            old(self).wf(),
            !old(self).globals_done(),
            probes_fit(old(self).plugins()[old(self).globals_added()], probes@),
        ensures
            final(self).wf(),
            final(self).plugins() == old(self).plugins(),
            final(self).pending() == old(self).pending(),
            final(self).home() == old(self).home(),
            ({
                let c = global_category(
                    old(self).plugins()[old(self).globals_added()],
                    old(self).home(),
                    probes@,
                );
                &&& ok == (c.total_size <= u64::MAX)
                &&& ok ==> final(self).categories() == insert_category(old(self).categories(), c)
                    && final(self).globals_added() == old(self).globals_added() + 1
                &&& !ok ==> final(self).categories() == old(self).categories()
                    && final(self).globals_added() == old(self).globals_added()
            }),
    {
        let count = self.scanner.plugins.len();
        let ok = self.state.add_global(
            &self.scanner.plugins[self.next_global],
            as_str_opt(&self.home),
            probes,
        );
        if ok {
            assert(self.next_global < count);
            self.next_global = self.next_global + 1;
        }
        ok
    }

    /// The next directory of the walk, and its depth below its scan root;
    /// `None` when the walk is over.
    pub fn next_dir(&mut self) -> (r: Option<(String, usize)>)
        requires
            old(self).wf(),
            old(self).globals_done(),
        ensures
            final(self).wf(),
            final(self).globals_done(),
            final(self).plugins() == old(self).plugins(),
            final(self).categories() == old(self).categories(),
            final(self).home() == old(self).home(),
            old(self).pending().len() == 0 ==> r is None,
            old(self).pending().len() == 0 ==> final(self).pending() == old(self).pending(),
            old(self).pending().len() > 0 ==> (r matches Some(d) && (d.0@, d.1 as int)
                == old(self).pending().last() && d.1 <= MAX_WALK_DEPTH),
            old(self).pending().len() > 0 ==> final(self).pending() == old(self).pending().drop_last(),
    {
        self.walker.next_dir()
    }

    /// The paths to observe in `dir`, listed with `entries`, for the
    /// projects found there; `None` when no plugin recognises it.
    pub fn visit_targets(&self, dir: &str, entries: &Vec<DirEntry>) -> (r: Option<Vec<String>>)
        ensures
            r is None <==> visit_matching(self.plugins(), entries@).len() == 0,
            r matches Some(c) ==> strings_view(c@) == visit_candidates(
                self.plugins(),
                dir@,
                entries@,
            ),
    {
        let matching = self.scanner.matching_plugins(entries);
        if matching.len() == 0 {
            None
        } else {
            Some(self.scanner.candidate_paths(dir, &matching))
        }
    }

    /// Walks `dir`, listed at `depth` with `entries`: first the projects that
    /// the matching plugins find there are recorded (named `name`, last
    /// modified at `last_modified`, from the observations `stats` at the
    /// paths of `visit_targets`), then its subdirectories are scheduled.
    /// `false`, with nothing changed, when a total would not fit in a `u64`.
    pub fn visit(
        &mut self,
        dir: &str,
        depth: usize,
        entries: &Vec<DirEntry>,
        name: &str,
        last_modified: Option<u64>,
        stats: &Vec<Option<PathStats>>,
    ) -> (ok: bool)
        requires
            old(self).wf(),
            old(self).globals_done(),
        ensures
            final(self).wf(),
            final(self).globals_done(),
            final(self).plugins() == old(self).plugins(),
            final(self).home() == old(self).home(),
            ({
                let plugins = old(self).plugins();
                let m = visit_matching(plugins, entries@);
                let projs = rec_projects(
                    dir@,
                    name@,
                    last_modified,
                    visit_candidates(plugins, dir@, entries@),
                    stats@,
                    plugins,
                    m,
                    m.len() as int,
                ).0;
                let after = apply_projects(old(self).categories(), plugins, m, projs, m.len() as int);
                &&& m.len() == 0 ==> ok && final(self).categories() == old(self).categories()
                &&& m.len() > 0 ==> ok == (projects_fit(projs) && categories_fit(after))
                &&& m.len() > 0 && ok ==> final(self).categories() == after
                &&& ok ==> final(self).pending() == descended(
                    old(self).pending(),
                    dir@,
                    depth as int,
                    entries@,
                )
                &&& !ok ==> final(self).categories() == old(self).categories()
                &&& !ok ==> final(self).pending() == old(self).pending()
            }),
    {
        let matching = self.scanner.matching_plugins(entries);
        if matching.len() > 0 {
            let candidates = self.scanner.candidate_paths(dir, &matching);
            let ok = self.state.record_projects(
                &self.scanner.plugins,
                dir,
                name,
                last_modified,
                &matching,
                &candidates,
                stats,
            );
            if !ok {
                return false;
            }
        }
        self.walker.descend(dir, depth, entries);
        true
    }

    /// The report of a scan whose walk is over; `None` when a total would
    /// not fit in a `u64`.
    pub fn finish(self) -> (r: Option<ScanReport>)
        requires
            self.wf(),
            self.globals_done(),
            self.pending().len() == 0,
        ensures
            r is Some <==> report_fits(self.categories()),
            r matches Some(rep) ==> rep@ == report_of(self.categories()),
    {
        self.state.finish()
    }
}

} // verus!
