//! The project walk: which directories under the scan roots are listed, and
//! which plugins recognise a listed directory as one of their projects.
use vstd::prelude::*;
use crate::engine::scanner::{
    find_category, item_view, lemma_find_category, lemma_found_total_nonneg, make_item, measure_path,
    measured, sum_found, PathStats, ScanState, Scanner, MAX_WALK_DEPTH,
};
use crate::models::plugin::PluginItem;
use crate::models::scan::{category_consistent, found_total, items_view, opt_view, project_consistent, projects_view, CacheItem, CacheItemView, CategoryReportView, ItemStatus, ProjectReport, ProjectReportView};
use crate::utils::text::clone_opt;
use crate::models::plugin::{names_of, PluginDefinition};
use crate::utils::paths::{expand_tilde_of, expand_tilde_with, join, join_of, same_path, paths_equal};
use crate::utils::text::{chars_of, opt_str, str_eq, strings_view};

verus! {

/// An entry of a directory listing.
#[derive(Debug, Clone)]
pub struct DirEntry {
    pub name: String,
    pub is_dir: bool,
}

/// Directory names the walk never descends into.
pub open spec fn is_skipped_name(n: Seq<char>) -> bool {
    ||| n == "node_modules"@
    ||| n == ".git"@
    ||| n == "Pods"@
    ||| n == "build"@
    ||| n == ".next"@
    ||| n == "dist"@
    ||| n == "target"@
    ||| n == ".gradle"@
    ||| n == ".expo"@
    ||| n == "__pycache__"@
    ||| n == "venv"@
    ||| n == ".venv"@
    ||| n == "DerivedData"@
    ||| n == ".build"@
    ||| n == "out"@
    ||| n == ".dart_tool"@
}

/// Whether the walk never descends into a directory of this name.
pub fn skips_descent(n: &str) -> (r: bool)
    ensures
        r == is_skipped_name(n@),
{
    str_eq(n, "node_modules") || str_eq(n, ".git") || str_eq(n, "Pods") || str_eq(n, "build")
        || str_eq(n, ".next") || str_eq(n, "dist") || str_eq(n, "target") || str_eq(n, ".gradle")
        || str_eq(n, ".expo") || str_eq(n, "__pycache__") || str_eq(n, "venv") || str_eq(
        n,
        ".venv",
    ) || str_eq(n, "DerivedData") || str_eq(n, ".build") || str_eq(n, "out") || str_eq(
        n,
        ".dart_tool",
    )
}

/// Whether the walk goes into a listed entry of a directory at `depth`:
/// directories only, not hidden ones directly under a scan root, and not
/// those it always skips.
pub open spec fn descends(name: Seq<char>, is_dir: bool, depth: int) -> bool {
    &&& is_dir
    &&& !(depth == 0 && name.len() > 0 && name[0] == '.')
    &&& !is_skipped_name(name)
}

/// Whether the walk goes into a listed entry of a directory at `depth`.
pub fn descends_into(name: &str, is_dir: bool, depth: usize) -> (r: bool)
    ensures
        r == descends(name@, is_dir, depth as int),
{
    if !is_dir {
        return false;
    }
    if depth == 0 {
        let v = chars_of(name);
        if v.len() > 0 && v[0] == '.' {
            return false;
        }
    }
    !skips_descent(name)
}

/// The directories pushed for the entries `es` of `dir`, listed at `depth`,
/// in the order they go on the stack (last entry first, so that the first
/// entry is walked first).
pub open spec fn pushed_children(dir: Seq<char>, depth: int, es: Seq<DirEntry>) -> Seq<
    (Seq<char>, int),
>
    decreases es.len(),
{
    if es.len() == 0 {
        seq![]
    } else {
        let rest = pushed_children(dir, depth, es.drop_first());
        if descends(es[0].name@, es[0].is_dir, depth) {
            rest.push((join_of(dir, es[0].name@), depth + 1))
        } else {
            rest
        }
    }
}

/// The directories still to be walked, as a stack: the last one is next.
pub struct Walker {
    pub pending: Vec<(String, usize)>,
}

pub open spec fn pending_view(p: Seq<(String, usize)>) -> Seq<(Seq<char>, int)> {
    p.map_values(|e: (String, usize)| (e.0@, e.1 as int))
}

/// The stack a walk starts with: the scan roots, `~`-expanded, first root on top.
pub open spec fn initial_pending(roots: Seq<String>, home: Option<Seq<char>>) -> Seq<
    (Seq<char>, int),
>
    decreases roots.len(),
{
    if roots.len() == 0 {
        seq![]
    } else {
        initial_pending(roots.drop_first(), home).push(
            (expand_tilde_of(roots[0]@, home), 0int),
        )
    }
}

impl Walker {
    pub open spec fn view(&self) -> Seq<(Seq<char>, int)> {
        pending_view(self.pending@)
    }

    /// No pending directory lies below the depth limit.
    pub open spec fn wf(&self) -> bool {
        forall|k: int| 0 <= k < self.pending@.len() ==> #[trigger] self.pending@[k].1 <= MAX_WALK_DEPTH
    }

    /// A walk of the given scan roots, which are `~`-expanded against `home`.
    pub fn new(roots: &Vec<String>, home: Option<&str>) -> (r: Walker)
        ensures
            r.view() == initial_pending(roots@, opt_str(home)),
            r.wf(),
    {
        let mut pending: Vec<(String, usize)> = Vec::new();
        let mut k = roots.len();
        assert(roots@.skip(k as int) =~= Seq::<String>::empty());
        while k > 0
            invariant
                k <= roots.len(),
                pending_view(pending@) == initial_pending(roots@.skip(k as int), opt_str(home)),
                forall|j: int| 0 <= j < pending@.len() ==> #[trigger] pending@[j].1 == 0,
            decreases k,
        {
            let ghost before = pending@;
            let path = expand_tilde_with(roots[k - 1].as_str(), home);
            pending.push((path, 0));
            assert(roots@.skip(k - 1).drop_first() =~= roots@.skip(k as int));
            assert(roots@.skip(k - 1)[0] == roots@[k - 1]);
            assert(pending_view(pending@) =~= pending_view(before).push(
                (expand_tilde_of(roots@[k - 1]@, opt_str(home)), 0int),
            ));
            k = k - 1;
        }
        assert(roots@.skip(0) =~= roots@);
        Walker { pending }
    }

    /// The next directory to walk, and its depth below its scan root.
    pub fn next_dir(&mut self) -> (r: Option<(String, usize)>)
        requires
            old(self).wf(),
        ensures
            final(self).wf(),
            old(self).view().len() == 0 ==> r is None && final(self).view() == old(self).view(),
            old(self).view().len() > 0 ==> (r matches Some(d) && (d.0@, d.1 as int) == old(
                self,
            ).view().last() && final(self).view() == old(self).view().drop_last() && d.1
                <= MAX_WALK_DEPTH),
    {
        let ghost before = self.pending@;
        let r = self.pending.pop();
        proof {
            if before.len() > 0 {
                assert(pending_view(self.pending@) =~= pending_view(before).drop_last());
            }
        }
        r
    }

    /// Schedules the subdirectories of `dir`, which was listed at `depth`
    /// with entries `entries`: those the walk descends into, when they are
    /// within the depth limit.
    pub fn descend(&mut self, dir: &str, depth: usize, entries: &Vec<DirEntry>)
        requires
            old(self).wf(),
        ensures
            final(self).wf(),
            depth < MAX_WALK_DEPTH ==> final(self).view() == old(self).view() + pushed_children(
                dir@,
                depth as int,
                entries@,
            ),
            depth >= MAX_WALK_DEPTH ==> final(self).view() == old(self).view(),
    {
        if depth >= MAX_WALK_DEPTH {
            return;
        }
        let ghost start = self.view();
        let mut k = entries.len();
        assert(entries@.skip(k as int) =~= Seq::<DirEntry>::empty());
        while k > 0
            invariant
                k <= entries.len(),
                depth < MAX_WALK_DEPTH,
                self.wf(),
                self.view() == start + pushed_children(dir@, depth as int, entries@.skip(k as int)),
            decreases k,
        {
            let e = &entries[k - 1];
            assert(entries@.skip(k - 1).drop_first() =~= entries@.skip(k as int));
            assert(entries@.skip(k - 1)[0] == entries@[k - 1]);
            if descends_into(e.name.as_str(), e.is_dir, depth) {
                let ghost before = self.pending@;
                let path = join(dir, e.name.as_str());
                self.pending.push((path, depth + 1));
                assert(pending_view(self.pending@) =~= pending_view(before).push(
                    (join_of(dir@, e.name@), depth + 1),
                ));
            }
            k = k - 1;
        }
        assert(entries@.skip(0) =~= entries@);
    }
}

/// Indices, in order, of the first `n` plugins that recognise a directory
/// with entries `names`.
pub open spec fn matching_spec(plugins: Seq<PluginDefinition>, names: Seq<Seq<char>>, n: int) -> Seq<
    usize,
>
    decreases n,
{
    if n <= 0 {
        seq![]
    } else if plugins[n - 1].spec_matches(names) {
        matching_spec(plugins, names, n - 1).push((n - 1) as usize)
    } else {
        matching_spec(plugins, names, n - 1)
    }
}

pub open spec fn entry_names(es: Seq<DirEntry>) -> Seq<Seq<char>> {
    es.map_values(|e: DirEntry| e.name@)
}

impl Scanner {
    /// The plugins that recognise a directory with the listed entries, by index.
    pub fn matching_plugins(&self, entries: &Vec<DirEntry>) -> (r: Vec<usize>)
        ensures
            r@ == matching_spec(self.plugins@, entry_names(entries@), self.plugins@.len() as int),
            forall|k: int| 0 <= k < r@.len() ==> #[trigger] r@[k] < self.plugins@.len(),
    {
        let mut names: Vec<String> = Vec::new();
        for k in 0..entries.len()
            invariant
                names@.len() == k,
                forall|j: int| 0 <= j < k ==> #[trigger] names@[j]@ == entries@[j].name@,
        {
            names.push(entries[k].name.clone());
        }
        assert(names_of(names@) =~= entry_names(entries@));
        let mut r: Vec<usize> = Vec::new();
        for p in 0..self.plugins.len()
            invariant
                names_of(names@) == entry_names(entries@),
                r@ == matching_spec(self.plugins@, entry_names(entries@), p as int),
                forall|k: int| 0 <= k < r@.len() ==> #[trigger] r@[k] < p,
        {
            if self.plugins[p].matches_directory(names.as_slice()) {
                r.push(p);
            }
        }
        r
    }
}


/// Whether `s` holds a path equal to `p`.
pub open spec fn contains_path(s: Seq<Seq<char>>, p: Seq<char>) -> bool {
    exists|k: int| 0 <= k < s.len() && same_path(#[trigger] s[k], p)
}

/// `s` with every path equal to an earlier one left out.
pub open spec fn dedup_paths(s: Seq<Seq<char>>) -> Seq<Seq<char>>
    decreases s.len(),
{
    if s.len() == 0 {
        seq![]
    } else {
        let r = dedup_paths(s.drop_last());
        if contains_path(r, s.last()) {
            r
        } else {
            r.push(s.last())
        }
    }
}

/// Index of the first path of `s` equal to `p`, or -1.
pub open spec fn find_path(s: Seq<Seq<char>>, p: Seq<char>) -> int
    decreases s.len(),
{
    if s.len() == 0 {
        -1
    } else {
        let k = find_path(s.drop_last(), p);
        if k >= 0 {
            k
        } else if same_path(s.last(), p) {
            s.len() - 1
        } else {
            -1
        }
    }
}

/// The paths the first `n` paths of a project item name inside `dir`.
pub open spec fn item_occ(dir: Seq<char>, item: PluginItem, n: int) -> Seq<Seq<char>>
    decreases n,
{
    if n <= 0 {
        seq![]
    } else {
        item_occ(dir, item, n - 1).push(join_of(dir, item.paths@[n - 1]@))
    }
}

/// The paths the first `n` project items of a plugin name inside `dir`.
pub open spec fn plugin_occ(dir: Seq<char>, plugin: PluginDefinition, n: int) -> Seq<Seq<char>>
    decreases n,
{
    if n <= 0 {
        seq![]
    } else {
        let item = plugin.project_items@[n - 1];
        plugin_occ(dir, plugin, n - 1) + item_occ(dir, item, item.paths@.len() as int)
    }
}

/// The paths the project items of the first `n` matching plugins name inside `dir`.
pub open spec fn all_occ(
    dir: Seq<char>,
    plugins: Seq<PluginDefinition>,
    matching: Seq<usize>,
    n: int,
) -> Seq<Seq<char>>
    decreases n,
{
    if n <= 0 {
        seq![]
    } else {
        let plugin = plugins[matching[n - 1] as int];
        all_occ(dir, plugins, matching, n - 1) + plugin_occ(
            dir,
            plugin,
            plugin.project_items@.len() as int,
        )
    }
}

/// Whether `p` equals a path of `v`.
pub fn has_path(v: &Vec<String>, p: &str) -> (r: bool)
    ensures
        r == contains_path(strings_view(v@), p@),
{
    for k in 0..v.len()
        invariant
            forall|j: int| 0 <= j < k ==> !same_path(#[trigger] strings_view(v@)[j], p@),
    {
        if paths_equal(v[k].as_str(), p) {
            assert(same_path(strings_view(v@)[k as int], p@));
            return true;
        }
    }
    false
}

/// Index of the first path of `v` equal to `p`.
fn index_of_path(v: &Vec<String>, p: &str) -> (r: Option<usize>)
    ensures
        match r {
            Some(k) => k as int == find_path(strings_view(v@), p@) && k < v.len(),
            None => find_path(strings_view(v@), p@) == -1,
        },
{
    let ghost sv = strings_view(v@);
    for k in 0..v.len()
        invariant
            sv == strings_view(v@),
            find_path(sv.take(k as int), p@) == -1,
    {
        assert(sv.take(k + 1).drop_last() =~= sv.take(k as int));
        if paths_equal(v[k].as_str(), p) {
            proof {
                lemma_find_path_prefix(sv, p@, k + 1);
            }
            return Some(k);
        }
    }
    assert(sv.take(v.len() as int) =~= sv);
    None
}

pub proof fn lemma_find_path_prefix(s: Seq<Seq<char>>, p: Seq<char>, n: int)
    requires
        0 <= n <= s.len(),
        find_path(s.take(n), p) >= 0,
    ensures
        find_path(s, p) == find_path(s.take(n), p),
    decreases s.len() - n,
{
    if n < s.len() {
        assert(s.take(n + 1).drop_last() =~= s.take(n));
        lemma_find_path_prefix(s, p, n + 1);
    } else {
        assert(s.take(n) =~= s);
    }
}

/// Adds `p` to `out` unless an equal path is already there.
fn push_unique(out: &mut Vec<String>, p: String)
    ensures
        strings_view(final(out)@) == if contains_path(strings_view(old(out)@), p@) {
            strings_view(old(out)@)
        } else {
            strings_view(old(out)@).push(p@)
        },
{
    if !has_path(out, p.as_str()) {
        let ghost before = out@;
        out.push(p);
        assert(strings_view(out@) =~= strings_view(before).push(out@.last()@));
    }
}

/// What a project visit has produced so far: the items of the current
/// project, and the paths already found in this directory.
pub struct RecState {
    pub items: Seq<CacheItemView>,
    pub seen: Seq<Seq<char>>,
}

/// The measurement of `p` taken from the candidate paths and what was
/// observed at each.
pub open spec fn lookup(
    cands: Seq<Seq<char>>,
    stats: Seq<Option<PathStats>>,
    p: Seq<char>,
) -> Option<PathStats> {
    let k = find_path(cands, p);
    if 0 <= k < stats.len() {
        stats[k]
    } else {
        None
    }
}

/// One path of a project item: skipped when an equal path was already
/// found in this directory (by any matching plugin), otherwise reported.
pub open spec fn rec_step(
    dir: Seq<char>,
    cands: Seq<Seq<char>>,
    stats: Seq<Option<PathStats>>,
    item: PluginItem,
    rel: Seq<char>,
    st: RecState,
) -> RecState {
    let full = join_of(dir, rel);
    if contains_path(st.seen, full) {
        st
    } else {
        let m = measured(lookup(cands, stats, full));
        RecState {
            items: st.items.push(
                item_view(item.name@, full, m, item.safe, opt_view(item.explanation)),
            ),
            seen: if m.status == ItemStatus::Found {
                st.seen.push(full)
            } else {
                st.seen
            },
        }
    }
}

pub open spec fn rec_item(
    dir: Seq<char>,
    cands: Seq<Seq<char>>,
    stats: Seq<Option<PathStats>>,
    item: PluginItem,
    n: int,
    st: RecState,
) -> RecState
    decreases n,
{
    if n <= 0 {
        st
    } else {
        rec_step(dir, cands, stats, item, item.paths@[n - 1]@, rec_item(dir, cands, stats, item, n - 1, st))
    }
}

pub open spec fn rec_plugin(
    dir: Seq<char>,
    cands: Seq<Seq<char>>,
    stats: Seq<Option<PathStats>>,
    plugin: PluginDefinition,
    n: int,
    st: RecState,
) -> RecState
    decreases n,
{
    if n <= 0 {
        st
    } else {
        let item = plugin.project_items@[n - 1];
        rec_item(
            dir,
            cands,
            stats,
            item,
            item.paths@.len() as int,
            rec_plugin(dir, cands, stats, plugin, n - 1, st),
        )
    }
}

/// The project reports of the first `n` matching plugins for directory
/// `dir`, and the paths found in it so far.
pub open spec fn rec_projects(
    dir: Seq<char>,
    name: Seq<char>,
    last_modified: Option<u64>,
    cands: Seq<Seq<char>>,
    stats: Seq<Option<PathStats>>,
    plugins: Seq<PluginDefinition>,
    matching: Seq<usize>,
    n: int,
) -> (Seq<ProjectReportView>, Seq<Seq<char>>)
    decreases n,
{
    if n <= 0 {
        (seq![], seq![])
    } else {
        let prev = rec_projects(dir, name, last_modified, cands, stats, plugins, matching, n - 1);
        let plugin = plugins[matching[n - 1] as int];
        let st = rec_plugin(
            dir,
            cands,
            stats,
            plugin,
            plugin.project_items@.len() as int,
            RecState { items: seq![], seen: prev.1 },
        );
        (
            prev.0.push(
                ProjectReportView {
                    name,
                    path: dir,
                    items: st.items,
                    total_size: found_total(st.items),
                    last_modified,
                },
            ),
            st.seen,
        )
    }
}

/// A project goes to the category of its plugin's name, which is then detected.
pub open spec fn apply_project(
    cats: Seq<CategoryReportView>,
    cat_name: Seq<char>,
    p: ProjectReportView,
) -> Seq<CategoryReportView> {
    let k = find_category(cats, cat_name);
    if k >= 0 {
        cats.update(
            k,
            CategoryReportView {
                is_detected: true,
                total_size: cats[k].total_size + p.total_size,
                projects: cats[k].projects.push(p),
                ..cats[k]
            },
        )
    } else {
        cats
    }
}

pub open spec fn apply_projects(
    cats: Seq<CategoryReportView>,
    plugins: Seq<PluginDefinition>,
    matching: Seq<usize>,
    projs: Seq<ProjectReportView>,
    n: int,
) -> Seq<CategoryReportView>
    decreases n,
{
    if n <= 0 {
        cats
    } else {
        apply_project(
            apply_projects(cats, plugins, matching, projs, n - 1),
            plugins[matching[n - 1] as int].name@,
            projs[n - 1],
        )
    }
}

/// Whether every total stays within a `u64`.
pub open spec fn projects_fit(projs: Seq<ProjectReportView>) -> bool {
    forall|k: int| 0 <= k < projs.len() ==> #[trigger] projs[k].total_size <= u64::MAX
}

pub open spec fn categories_fit(cats: Seq<CategoryReportView>) -> bool {
    forall|k: int| 0 <= k < cats.len() ==> #[trigger] cats[k].total_size <= u64::MAX
}

impl Scanner {
    /// The distinct paths (by `Path` equality, first occurrence first) that the
    /// project items of the matching plugins name inside `dir`: what must be
    /// measured to record the projects found there.
    pub fn candidate_paths(&self, dir: &str, matching: &Vec<usize>) -> (r: Vec<String>)
        requires
            forall|k: int| 0 <= k < matching@.len() ==> #[trigger] matching@[k] < self.plugins@.len(),
        ensures
            strings_view(r@) == dedup_paths(
                all_occ(dir@, self.plugins@, matching@, matching@.len() as int),
            ),
    {
        let ghost plugins = self.plugins@;
        let mut out: Vec<String> = Vec::new();
        for mi in 0..matching.len()
            invariant
                plugins == self.plugins@,
                forall|k: int| 0 <= k < matching@.len() ==> #[trigger] matching@[k] < plugins.len(),
                strings_view(out@) == dedup_paths(all_occ(dir@, plugins, matching@, mi as int)),
        {
            let plugin = &self.plugins[matching[mi]];
            let ghost base = all_occ(dir@, plugins, matching@, mi as int);
            for ii in 0..plugin.project_items.len()
                invariant
                    strings_view(out@) == dedup_paths(
                        base + plugin_occ(dir@, *plugin, ii as int),
                    ),
            {
                let item = &plugin.project_items[ii];
                let ghost base2 = base + plugin_occ(dir@, *plugin, ii as int);
                for ri in 0..item.paths.len()
                    invariant
                        strings_view(out@) == dedup_paths(
                            base2 + item_occ(dir@, *item, ri as int),
                        ),
                {
                    let full = join(dir, item.paths[ri].as_str());
                    let ghost prev = base2 + item_occ(dir@, *item, ri as int);
                    push_unique(&mut out, full);
                    assert((base2 + item_occ(dir@, *item, ri + 1)).drop_last() =~= prev);
                }
                assert(base2 + item_occ(dir@, *item, item.paths@.len() as int)
                    =~= base + plugin_occ(dir@, *plugin, ii + 1));
            }
            assert(base + plugin_occ(dir@, *plugin, plugin.project_items@.len() as int)
                =~= all_occ(dir@, plugins, matching@, mi + 1));
        }
        out
    }
}


pub proof fn lemma_rec_projects_len(
    dir: Seq<char>,
    name: Seq<char>,
    lm: Option<u64>,
    cands: Seq<Seq<char>>,
    stats: Seq<Option<PathStats>>,
    plugins: Seq<PluginDefinition>,
    matching: Seq<usize>,
    m: int,
)
    requires
        0 <= m,
    ensures
        rec_projects(dir, name, lm, cands, stats, plugins, matching, m).0.len() == m,
        forall|i: int|
            0 <= i < m ==> #[trigger] rec_projects(dir, name, lm, cands, stats, plugins, matching, m).0[i]
                == rec_projects(dir, name, lm, cands, stats, plugins, matching, i + 1).0[i],
        forall|i: int|
            0 <= i < m ==> project_consistent(
                #[trigger] rec_projects(dir, name, lm, cands, stats, plugins, matching, m).0[i],
            ),
        forall|i: int|
            0 <= i < m ==> #[trigger] rec_projects(
                dir,
                name,
                lm,
                cands,
                stats,
                plugins,
                matching,
                m,
            ).0[i].total_size >= 0,
    decreases m,
{
    if m > 0 {
        lemma_rec_projects_len(dir, name, lm, cands, stats, plugins, matching, m - 1);
        let r = rec_projects(dir, name, lm, cands, stats, plugins, matching, m);
        let prev = rec_projects(dir, name, lm, cands, stats, plugins, matching, m - 1);
        assert forall|i: int| 0 <= i < m implies #[trigger] r.0[i] == rec_projects(
            dir,
            name,
            lm,
            cands,
            stats,
            plugins,
            matching,
            i + 1,
        ).0[i] by {
            if i < m - 1 {
                assert(r.0[i] == prev.0[i]);
            }
        }
        lemma_found_total_nonneg(r.0[m - 1].items);
    }
}

pub proof fn lemma_apply_shape(
    cats: Seq<CategoryReportView>,
    plugins: Seq<PluginDefinition>,
    matching: Seq<usize>,
    projs: Seq<ProjectReportView>,
    n: int,
)
    ensures
        apply_projects(cats, plugins, matching, projs, n).len() == cats.len(),
        forall|k: int|
            0 <= k < cats.len() ==> #[trigger] apply_projects(
                cats,
                plugins,
                matching,
                projs,
                n,
            )[k].category == cats[k].category,
    decreases n,
{
    if n > 0 {
        lemma_apply_shape(cats, plugins, matching, projs, n - 1);
        let a = apply_projects(cats, plugins, matching, projs, n - 1);
        lemma_find_category(a, plugins[matching[n - 1] as int].name@);
    }
}

pub proof fn lemma_find_category_names(
    a: Seq<CategoryReportView>,
    b: Seq<CategoryReportView>,
    name: Seq<char>,
)
    requires
        a.len() == b.len(),
        forall|k: int| 0 <= k < a.len() ==> #[trigger] a[k].category == b[k].category,
    ensures
        find_category(a, name) == find_category(b, name),
    decreases a.len(),
{
    if a.len() > 0 {
        lemma_find_category_names(a.drop_last(), b.drop_last(), name);
    }
}

pub proof fn lemma_apply_monotone(
    cats: Seq<CategoryReportView>,
    plugins: Seq<PluginDefinition>,
    matching: Seq<usize>,
    projs: Seq<ProjectReportView>,
    n: int,
    m: int,
)
    requires
        0 <= n <= m,
        forall|k: int| 0 <= k < projs.len() ==> #[trigger] projs[k].total_size >= 0,
        m <= projs.len(),
    ensures
        forall|k: int|
            0 <= k < cats.len() ==> #[trigger] apply_projects(
                cats,
                plugins,
                matching,
                projs,
                m,
            )[k].total_size >= apply_projects(cats, plugins, matching, projs, n)[k].total_size,
    decreases m - n,
{
    if n < m {
        lemma_apply_monotone(cats, plugins, matching, projs, n, m - 1);
        let a = apply_projects(cats, plugins, matching, projs, m - 1);
        lemma_find_category(a, plugins[matching[m - 1] as int].name@);
        lemma_apply_shape(cats, plugins, matching, projs, m - 1);
        assert forall|k: int| 0 <= k < cats.len() implies #[trigger] apply_projects(
            cats,
            plugins,
            matching,
            projs,
            m,
        )[k].total_size >= a[k].total_size by {}
    }
}

/// Adding a consistent project to a consistent category keeps it consistent.
pub proof fn lemma_apply_project_wf(
    cats: Seq<CategoryReportView>,
    cat_name: Seq<char>,
    p: ProjectReportView,
)
    requires
        forall|k: int| 0 <= k < cats.len() ==> category_consistent(#[trigger] cats[k]),
        project_consistent(p),
    ensures
        forall|k: int|
            0 <= k < apply_project(cats, cat_name, p).len() ==> category_consistent(
                #[trigger] apply_project(cats, cat_name, p)[k],
            ),
{
    lemma_find_category(cats, cat_name);
    let k = find_category(cats, cat_name);
    if k >= 0 {
        let c = cats[k];
        let projects = c.projects.push(p);
        assert(projects.drop_last() =~= c.projects);
        assert forall|j: int| 0 <= j < projects.len() implies project_consistent(
            #[trigger] projects[j],
        ) by {
            if j < c.projects.len() {
                assert(projects[j] == c.projects[j]);
            }
        }
    }
}

/// The project reports of the matching plugins for directory `dir`, when
/// every one of their totals fits in a `u64`.
fn build_projects(
    plugins: &Vec<PluginDefinition>,
    dir: &str,
    name: &str,
    last_modified: Option<u64>,
    matching: &Vec<usize>,
    candidates: &Vec<String>,
    stats: &Vec<Option<PathStats>>,
) -> (r: Option<Vec<ProjectReport>>)
    requires
        forall|k: int| 0 <= k < matching@.len() ==> #[trigger] matching@[k] < plugins@.len(),
    ensures
        ({
            let projs = rec_projects(
                dir@,
                name@,
                last_modified,
                strings_view(candidates@),
                stats@,
                plugins@,
                matching@,
                matching@.len() as int,
            ).0;
            &&& r is Some <==> projects_fit(projs)
            &&& r matches Some(v) ==> projects_view(v@) == projs
        }),
{
    let ghost cands = strings_view(candidates@);
    let ghost nm = matching@.len() as int;
    let mut seen: Vec<String> = Vec::new();
    let mut projs: Vec<ProjectReport> = Vec::new();
    for mi in 0..matching.len()
        invariant
            cands == strings_view(candidates@),
            nm == matching@.len(),
            forall|k: int| 0 <= k < matching@.len() ==> #[trigger] matching@[k] < plugins@.len(),
            projects_view(projs@) == rec_projects(
                dir@,
                name@,
                last_modified,
                cands,
                stats@,
                plugins@,
                matching@,
                mi as int,
            ).0,
            strings_view(seen@) == rec_projects(
                dir@,
                name@,
                last_modified,
                cands,
                stats@,
                plugins@,
                matching@,
                mi as int,
            ).1,
    {
        let plugin = &plugins[matching[mi]];
        let mut items: Vec<CacheItem> = Vec::new();
        let ghost st0 = RecState { items: seq![], seen: strings_view(seen@) };
        assert(items_view(items@) =~= Seq::<CacheItemView>::empty());
        for ii in 0..plugin.project_items.len()
            invariant
                cands == strings_view(candidates@),
                (RecState { items: items_view(items@), seen: strings_view(seen@) }) == rec_plugin(
                    dir@,
                    cands,
                    stats@,
                    *plugin,
                    ii as int,
                    st0,
                ),
        {
            let item = &plugin.project_items[ii];
            let ghost st1 = rec_plugin(dir@, cands, stats@, *plugin, ii as int, st0);
            for ri in 0..item.paths.len()
                invariant
                    cands == strings_view(candidates@),
                    (RecState { items: items_view(items@), seen: strings_view(seen@) })
                        == rec_item(dir@, cands, stats@, *item, ri as int, st1),
            {
                let full = join(dir, item.paths[ri].as_str());
                if !has_path(&seen, full.as_str()) {
                    let st = match index_of_path(candidates, full.as_str()) {
                        Some(k) => if k < stats.len() {
                            stats[k]
                        } else {
                            None
                        },
                        None => None,
                    };
                    assert(st == lookup(cands, stats@, full@));
                    let m = measure_path(st);
                    if m.status == ItemStatus::Found {
                        let ghost sb = seen@;
                        seen.push(full.clone());
                        assert(strings_view(seen@) =~= strings_view(sb).push(full@));
                    }
                    let ghost ib = items@;
                    items.push(
                        make_item(item.name.clone(), full, m, item.safe, clone_opt(&item.explanation)),
                    );
                    assert(items_view(items@) =~= items_view(ib).push(items@.last()@));
                }
            }
        }
        let ghost stf = rec_plugin(
            dir@,
            cands,
            stats@,
            *plugin,
            plugin.project_items@.len() as int,
            st0,
        );
        let ghost prev = rec_projects(
            dir@,
            name@,
            last_modified,
            cands,
            stats@,
            plugins@,
            matching@,
            mi as int,
        );
        let ghost next = rec_projects(
            dir@,
            name@,
            last_modified,
            cands,
            stats@,
            plugins@,
            matching@,
            mi + 1,
        );
        let ghost pr = ProjectReportView {
            name: name@,
            path: dir@,
            items: stf.items,
            total_size: found_total(stf.items),
            last_modified,
        };
        assert(items_view(items@) == stf.items);
        assert(strings_view(seen@) == stf.seen);
        assert(next.1 == stf.seen);
        assert(next.0 == prev.0.push(pr));
        match sum_found(&items) {
            None => {
                proof {
                    lemma_rec_projects_len(
                        dir@,
                        name@,
                        last_modified,
                        cands,
                        stats@,
                        plugins@,
                        matching@,
                        nm,
                    );
                    lemma_rec_projects_len(
                        dir@,
                        name@,
                        last_modified,
                        cands,
                        stats@,
                        plugins@,
                        matching@,
                        mi as int,
                    );
                    let all = rec_projects(
                        dir@,
                        name@,
                        last_modified,
                        cands,
                        stats@,
                        plugins@,
                        matching@,
                        nm,
                    ).0;
                    assert(all[mi as int] == next.0[mi as int]);
                    assert(next.0[mi as int] == pr);
                    assert(all[mi as int].total_size > u64::MAX);
                    assert(!projects_fit(all));
                }
                return None;
            },
            Some(t) => {
                let ghost pb = projs@;
                projs.push(
                    ProjectReport {
                        name: String::from_str(name),
                        path: String::from_str(dir),
                        items,
                        total_size: t,
                        last_modified,
                    },
                );
                assert(projects_view(projs@) =~= projects_view(pb).push(pr));
            },
        }
    }
    proof {
        let pv = projects_view(projs@);
        assert forall|k: int| 0 <= k < pv.len() implies #[trigger] pv[k].total_size
            <= u64::MAX by {
            assert(pv[k] == projs@[k]@);
        }
    }
    Some(projs)
}

impl ScanState {
    /// Whether the category totals stay within a `u64` once the projects go
    /// to the categories of their plugins' names.
    fn totals_fit(
        &self,
        plugins: &Vec<PluginDefinition>,
        matching: &Vec<usize>,
        projs: &Vec<ProjectReport>,
    ) -> (r: bool)
        requires
            forall|k: int| 0 <= k < matching@.len() ==> #[trigger] matching@[k] < plugins@.len(),
            projs@.len() == matching@.len(),
        ensures
            r == categories_fit(
                apply_projects(
                    self.view(),
                    plugins@,
                    matching@,
                    projects_view(projs@),
                    matching@.len() as int,
                ),
            ),
    {
        let ghost before = self.view();
        let ghost pv = projects_view(projs@);
        let ghost nm = matching@.len() as int;
        let ghost after = apply_projects(before, plugins@, matching@, pv, nm);
        proof {
            assert forall|k: int| 0 <= k < pv.len() implies #[trigger] pv[k].total_size >= 0 by {
                assert(pv[k] == projs@[k]@);
            }
            lemma_apply_shape(before, plugins@, matching@, pv, nm);
        }
        let mut totals: Vec<u64> = Vec::new();
        for k in 0..self.categories.len()
            invariant
                before == self.view(),
                totals@.len() == k,
                forall|j: int| 0 <= j < k ==> #[trigger] totals@[j] as int == before[j].total_size,
        {
            totals.push(self.categories[k].total_size);
        }
        for n in 0..matching.len()
            invariant
                before == self.view(),
                pv == projects_view(projs@),
                nm == matching@.len(),
                after == apply_projects(before, plugins@, matching@, pv, nm),
                forall|k: int| 0 <= k < matching@.len() ==> #[trigger] matching@[k] < plugins@.len(),
                forall|k: int| 0 <= k < pv.len() ==> #[trigger] pv[k].total_size >= 0,
                pv.len() == nm,
                totals@.len() == before.len(),
                forall|j: int|
                    0 <= j < before.len() ==> #[trigger] totals@[j] as int == apply_projects(
                        before,
                        plugins@,
                        matching@,
                        pv,
                        n as int,
                    )[j].total_size,
        {
            let cat_name = &plugins[matching[n]].name;
            let ghost an = apply_projects(before, plugins@, matching@, pv, n as int);
            let ghost an1 = apply_projects(before, plugins@, matching@, pv, n + 1);
            proof {
                lemma_apply_shape(before, plugins@, matching@, pv, n as int);
                lemma_apply_shape(before, plugins@, matching@, pv, n + 1);
                lemma_find_category_names(before, an, cat_name@);
                lemma_find_category(an, cat_name@);
                assert(an1 == apply_project(an, cat_name@, pv[n as int]));
            }
            match self.find(cat_name) {
                Some(k) => {
                    assert(pv[n as int] == projs@[n as int]@);
                    assert(totals@[k as int] as int == an[k as int].total_size);
                    assert(an1[k as int].total_size == an[k as int].total_size
                        + pv[n as int].total_size);
                    match totals[k].checked_add(projs[n].total_size) {
                        Some(t) => {
                            totals.set(k, t);
                            assert forall|j: int| 0 <= j < before.len() implies #[trigger] totals@[j]
                                as int == an1[j].total_size by {
                                if j != k {
                                    assert(an1[j] == an[j]);
                                }
                            }
                        },
                        None => {
                            proof {
                                lemma_apply_monotone(before, plugins@, matching@, pv, n + 1, nm);
                                assert(after[k as int].total_size >= an1[k as int].total_size);
                                assert(after[k as int].total_size > u64::MAX);
                                lemma_apply_shape(before, plugins@, matching@, pv, nm);
                                assert(k < after.len());
                                assert(!categories_fit(after));
                            }
                            return false;
                        },
                    }
                },
                None => {
                    assert(an1 == an);
                },
            }
        }
        assert forall|j: int| 0 <= j < after.len() implies #[trigger] after[j].total_size
            <= u64::MAX by {
            assert(totals@[j] as int == after[j].total_size);
        }
        true
    }

    /// Puts each project into the category of its plugin's name.
    fn apply_all(
        &mut self,
        plugins: &Vec<PluginDefinition>,
        matching: &Vec<usize>,
        projs: Vec<ProjectReport>,
    )
        requires
            old(self).wf(),
            forall|k: int| 0 <= k < matching@.len() ==> #[trigger] matching@[k] < plugins@.len(),
            projs@.len() == matching@.len(),
            forall|k: int| 0 <= k < projs@.len() ==> project_consistent(#[trigger] projs@[k]@),
            categories_fit(
                apply_projects(
                    old(self).view(),
                    plugins@,
                    matching@,
                    projects_view(projs@),
                    matching@.len() as int,
                ),
            ),
        ensures
            final(self).view() == apply_projects(
                old(self).view(),
                plugins@,
                matching@,
                projects_view(projs@),
                matching@.len() as int,
            ),
            final(self).wf(),
    {
        let ghost before = self.view();
        let ghost pv = projects_view(projs@);
        let ghost nm = matching@.len() as int;
        let ghost after = apply_projects(before, plugins@, matching@, pv, nm);
        proof {
            assert forall|k: int| 0 <= k < pv.len() implies #[trigger] pv[k].total_size >= 0
                && project_consistent(pv[k]) by {
                assert(pv[k] == projs@[k]@);
                lemma_found_total_nonneg(pv[k].items);
            }
        }
        let mut projs = projs;
        let mut n: usize = 0;
        while n < matching.len()
            invariant
                self.wf(),
                n <= matching@.len(),
                nm == matching@.len(),
                pv.len() == nm,
                forall|k: int| 0 <= k < matching@.len() ==> #[trigger] matching@[k] < plugins@.len(),
                forall|k: int| 0 <= k < pv.len() ==> #[trigger] pv[k].total_size >= 0,
                forall|k: int| 0 <= k < pv.len() ==> project_consistent(#[trigger] pv[k]),
                projects_view(projs@) == pv.skip(n as int),
                self.view() == apply_projects(before, plugins@, matching@, pv, n as int),
                after == apply_projects(before, plugins@, matching@, pv, nm),
                categories_fit(after),
            decreases matching@.len() - n,
        {
            assert(projects_view(projs@).len() == projs@.len());
            assert(projects_view(projs@)[0] == pv[n as int]);
            let p = projs.remove(0);
            let cat_name = &plugins[matching[n]].name;
            let ghost cur = self.view();
            proof {
                lemma_apply_shape(before, plugins@, matching@, pv, n as int);
                lemma_apply_shape(before, plugins@, matching@, pv, nm);
                lemma_apply_monotone(before, plugins@, matching@, pv, n + 1, nm);
                lemma_find_category(cur, cat_name@);
                lemma_apply_project_wf(cur, cat_name@, p@);
                assert(apply_projects(before, plugins@, matching@, pv, n + 1) == apply_project(
                    cur,
                    cat_name@,
                    pv[n as int],
                ));
            }
            match self.find(cat_name) {
                Some(k) => {
                    let mut c = self.categories.remove(k);
                    assert(c@ == cur[k as int]);
                    assert(apply_projects(before, plugins@, matching@, pv, n + 1)[k as int].total_size
                        <= after[k as int].total_size);
                    c.is_detected = true;
                    c.total_size = c.total_size + p.total_size;
                    let ghost cps = c.projects@;
                    c.projects.push(p);
                    assert(projects_view(c.projects@) =~= projects_view(cps).push(pv[n as int]));
                    self.categories.insert(k, c);
                    assert(self.view() =~= apply_project(cur, cat_name@, pv[n as int]));
                },
                None => {},
            }
            assert(pv.skip(n + 1) =~= pv.skip(n as int).drop_first());
            n = n + 1;
        }
    }

    /// Records the projects that the matching plugins (by index into
    /// `plugins`) find in directory `dir`, named `name`: each plugin's project
    /// items are measured from `candidates` and the observation `stats` at
    /// each, a path is reported at most once as found in a directory however
    /// many plugins name it, and each project joins the category of its
    /// plugin's name. `false`, with the scan unchanged, when a total would not
    /// fit in a `u64`.
    pub fn record_projects(
        &mut self,
        plugins: &Vec<PluginDefinition>,
        dir: &str,
        name: &str,
        last_modified: Option<u64>,
        matching: &Vec<usize>,
        candidates: &Vec<String>,
        stats: &Vec<Option<PathStats>>,
    ) -> (ok: bool)
        requires
            old(self).wf(),
            forall|k: int| 0 <= k < matching@.len() ==> #[trigger] matching@[k] < plugins@.len(),
        ensures
            ({
                let projs = rec_projects(
                    dir@,
                    name@,
                    last_modified,
                    strings_view(candidates@),
                    stats@,
                    plugins@,
                    matching@,
                    matching@.len() as int,
                ).0;
                let after = apply_projects(
                    old(self).view(),
                    plugins@,
                    matching@,
                    projs,
                    matching@.len() as int,
                );
                &&& ok == (projects_fit(projs) && categories_fit(after))
                &&& ok ==> final(self).view() == after
                &&& !ok ==> final(self).view() == old(self).view()
            }),
            final(self).wf(),
    {
        let ghost projs_spec = rec_projects(
            dir@,
            name@,
            last_modified,
            strings_view(candidates@),
            stats@,
            plugins@,
            matching@,
            matching@.len() as int,
        ).0;
        proof {
            lemma_rec_projects_len(
                dir@,
                name@,
                last_modified,
                strings_view(candidates@),
                stats@,
                plugins@,
                matching@,
                matching@.len() as int,
            );
        }
        match build_projects(plugins, dir, name, last_modified, matching, candidates, stats) {
            None => false,
            Some(projs) => {
                assert(projects_view(projs@) == projs_spec);
                assert(projs@.len() == projects_view(projs@).len());
                if !self.totals_fit(plugins, matching, &projs) {
                    return false;
                }
                assert forall|k: int| 0 <= k < projs@.len() implies project_consistent(
                    #[trigger] projs@[k]@,
                ) by {
                    assert(projs@[k]@ == projs_spec[k]);
                }
                self.apply_all(plugins, matching, projs);
                true
            },
        }
    }
}

} // verus!
