//! The scan: which cache locations each plugin finds on this computer and
//! in the project directories under the scan roots, and the report built
//! from them.
//!
//! Looking at the file system is left to the caller. The scan runs as a
//! protocol: the caller asks which paths to look at, probes them, and hands
//! the observations back; every decision (what counts, what is skipped, where
//! the walk descends, how totals add up) is taken here.
use vstd::prelude::*;
use crate::models::plugin::{CommandItem, PluginDefinition, PluginItem};
use crate::models::scan::{
    categories_view, category_consistent, found_total, items_view, opt_view, projects_total,
    commands_view, CacheItem, CacheItemView, CategoryReport, CategoryReportView, CommandCacheItem,
    CommandCacheItemView, ItemStatus,
};
use crate::utils::paths::{expand_tilde_of, expand_tilde_with, file_name, file_name_of, join, join_of};
use crate::utils::text::{clone_opt, concat3, opt_str};

verus! {

/// Deepest directory level, below a scan root, that the project walk lists.
pub const MAX_WALK_DEPTH: usize = 5;

/// What the file system showed of an existing path: its total size, the
/// number of files and directories under it, and its modification time in
/// seconds since the Unix epoch.
#[derive(Debug, Clone, Copy)]
pub struct PathStats {
    pub size_bytes: u64,
    pub file_count: usize,
    pub dir_count: usize,
    pub last_modified: Option<u64>,
}

/// The measurement of one location.
#[derive(Debug, Clone, Copy)]
pub struct Measurement {
    pub status: ItemStatus,
    pub size_bytes: u64,
    pub file_count: usize,
    pub dir_count: usize,
    pub last_modified: Option<u64>,
}

/// A missing path measures as `Missing` with nothing in it; an existing one
/// as `Found` with what was counted under it.
pub open spec fn measured(stats: Option<PathStats>) -> Measurement {
    match stats {
        None => Measurement {
            status: ItemStatus::Missing,
            size_bytes: 0,
            file_count: 0,
            dir_count: 0,
            last_modified: None,
        },
        Some(s) => Measurement {
            status: ItemStatus::Found,
            size_bytes: s.size_bytes,
            file_count: s.file_count,
            dir_count: s.dir_count,
            last_modified: s.last_modified,
        },
    }
}

/// Measures a location from what the file system showed of it (`None` when
/// it does not exist).
pub fn measure_path(stats: Option<PathStats>) -> (m: Measurement)
    ensures
        m == measured(stats),
{
    match stats {
        None => Measurement {
            status: ItemStatus::Missing,
            size_bytes: 0,
            file_count: 0,
            dir_count: 0,
            last_modified: None,
        },
        Some(s) => Measurement {
            status: ItemStatus::Found,
            size_bytes: s.size_bytes,
            file_count: s.file_count,
            dir_count: s.dir_count,
            last_modified: s.last_modified,
        },
    }
}

/// The name of a project directory: its last component; failing that, the
/// last component of where it really leads (`resolved`); failing that, the
/// path as given.
pub open spec fn project_name_of(dir: Seq<char>, resolved: Option<Seq<char>>) -> Seq<char> {
    match file_name_of(dir) {
        Some(n) => n,
        None => match resolved {
            Some(r) => match file_name_of(r) {
                Some(n) => n,
                None => dir,
            },
            None => dir,
        },
    }
}

/// The name of a project directory (`project_name_of`).
pub fn project_name(dir: &str, resolved: Option<&str>) -> (r: String)
    ensures
        r@ == project_name_of(
            dir@,
            match resolved {
                Some(x) => Some(x@),
                None => None,
            },
        ),
{
    match file_name(dir) {
        Some(n) => n,
        None => match resolved {
            Some(x) => match file_name(x) {
                Some(n) => n,
                None => String::from_str(dir),
            },
            None => String::from_str(dir),
        },
    }
}

/// The directory's modification time, given what its metadata showed.
pub fn dir_last_modified(stats: Option<PathStats>) -> (r: Option<u64>)
    ensures
        r == match stats {
            Some(s) => s.last_modified,
            None => None,
        },
{
    match stats {
        Some(s) => s.last_modified,
        None => None,
    }
}

pub open spec fn item_view(
    name: Seq<char>,
    path: Seq<char>,
    m: Measurement,
    safe: bool,
    explanation: Option<Seq<char>>,
) -> CacheItemView {
    CacheItemView {
        name,
        path,
        size_bytes: m.size_bytes,
        file_count: m.file_count,
        dir_count: m.dir_count,
        safe,
        explanation,
        status: m.status,
        last_modified: m.last_modified,
    }
}

pub(crate) fn make_item(
    name: String,
    path: String,
    m: Measurement,
    safe: bool,
    explanation: Option<String>,
) -> (r: CacheItem)
    ensures
        r@ == item_view(name@, path@, m, safe, opt_view(explanation)),
{
    CacheItem {
        name,
        path,
        size_bytes: m.size_bytes,
        file_count: m.file_count,
        dir_count: m.dir_count,
        safe,
        explanation,
        status: m.status,
        last_modified: m.last_modified,
    }
}

/// An immediate child of a listed directory.
#[derive(Debug, Clone)]
pub struct ListedEntry {
    pub name: String,
    /// What the file system showed of the child when it was measured;
    /// `None` when it had gone.
    pub stats: Option<PathStats>,
}

/// What was observed at one path of a global item.
#[derive(Debug, Clone)]
pub enum GlobalProbe {
    /// The item lists its children and the path exists: the entries of the
    /// directory in listing order (none when it could not be read).
    Listed(Vec<ListedEntry>),
    /// Any other case: the path measured as one location (`None` when missing).
    Single(Option<PathStats>),
}

/// Whether a path of a global item is observed by listing its children (the
/// item asks for it and the path exists) rather than measured as a whole.
pub fn lists_children(item: &PluginItem, exists: bool) -> (r: bool)
    ensures
        r == (item.scan_children && exists),
{
    item.scan_children && exists
}

/// The items of a listed global path: one for each immediate child, in
/// listing order.
pub open spec fn listed_views(item: PluginItem, base: Seq<char>, es: Seq<ListedEntry>) -> Seq<
    CacheItemView,
>
    decreases es.len(),
{
    if es.len() == 0 {
        seq![]
    } else {
        let r = listed_views(item, base, es.drop_last());
        let e = es.last();
        r.push(
            item_view(
                item.name@ + " / "@ + e.name@,
                join_of(base, e.name@),
                measured(e.stats),
                item.safe,
                opt_view(item.explanation),
            ),
        )
    }
}

/// Every immediate child of a listed global path is reported as an item of
/// its own, in listing order: named after the item and the child, at the
/// child's path, measured from what was observed of it.
pub proof fn law_every_listed_child_reported(item: PluginItem, base: Seq<char>, es: Seq<ListedEntry>)
    ensures
        listed_views(item, base, es).len() == es.len(),
        forall|k: int|
            0 <= k < es.len() ==> #[trigger] listed_views(item, base, es)[k] == item_view(
                item.name@ + " / "@ + es[k].name@,
                join_of(base, es[k].name@),
                measured(es[k].stats),
                item.safe,
                opt_view(item.explanation),
            ),
    decreases es.len(),
{
    if es.len() > 0 {
        law_every_listed_child_reported(item, base, es.drop_last());
        let r = listed_views(item, base, es);
        assert forall|k: int| 0 <= k < es.len() implies #[trigger] r[k] == item_view(
            item.name@ + " / "@ + es[k].name@,
            join_of(base, es[k].name@),
            measured(es[k].stats),
            item.safe,
            opt_view(item.explanation),
        ) by {
            if k < es.len() - 1 {
                assert(es.drop_last()[k] == es[k]);
            }
        }
    }
}

/// The items reported for one path of a global item.
pub open spec fn probe_views(
    item: PluginItem,
    raw: Seq<char>,
    home: Option<Seq<char>>,
    probe: GlobalProbe,
) -> Seq<CacheItemView> {
    let full = expand_tilde_of(raw, home);
    match probe {
        GlobalProbe::Listed(es) => listed_views(item, full, es@),
        GlobalProbe::Single(st) => seq![
            item_view(item.name@, full, measured(st), item.safe, opt_view(item.explanation)),
        ],
    }
}

/// Whether one path shows that the ecosystem is present: a listed directory,
/// or a location that was found.
pub open spec fn probe_detects(probe: GlobalProbe) -> bool {
    match probe {
        GlobalProbe::Listed(_) => true,
        GlobalProbe::Single(st) => st is Some,
    }
}

/// The items reported for the first `n` paths of a global item.
pub open spec fn item_views(
    item: PluginItem,
    home: Option<Seq<char>>,
    probes: Seq<GlobalProbe>,
    n: int,
) -> Seq<CacheItemView>
    decreases n,
{
    if n <= 0 {
        seq![]
    } else {
        item_views(item, home, probes, n - 1) + probe_views(
            item,
            item.paths@[n - 1]@,
            home,
            probes[n - 1],
        )
    }
}

pub open spec fn item_detects(probes: Seq<GlobalProbe>, n: int) -> bool
    decreases n,
{
    if n <= 0 {
        false
    } else {
        item_detects(probes, n - 1) || probe_detects(probes[n - 1])
    }
}

/// The items reported for the first `n` global items of a plugin.
pub open spec fn plugin_global_views(
    plugin: PluginDefinition,
    home: Option<Seq<char>>,
    probes: Seq<Vec<GlobalProbe>>,
    n: int,
) -> Seq<CacheItemView>
    decreases n,
{
    if n <= 0 {
        seq![]
    } else {
        let item = plugin.global_items@[n - 1];
        plugin_global_views(plugin, home, probes, n - 1) + item_views(
            item,
            home,
            probes[n - 1]@,
            item.paths@.len() as int,
        )
    }
}

pub open spec fn plugin_global_detects(
    plugin: PluginDefinition,
    probes: Seq<Vec<GlobalProbe>>,
    n: int,
) -> bool
    decreases n,
{
    if n <= 0 {
        false
    } else {
        plugin_global_detects(plugin, probes, n - 1) || item_detects(
            probes[n - 1]@,
            plugin.global_items@[n - 1].paths@.len() as int,
        )
    }
}

pub open spec fn command_view(c: CommandItem) -> CommandCacheItemView {
    CommandCacheItemView {
        name: c.name@,
        command: c.command@,
        description: c.description@,
        safe: c.safe,
        explanation: opt_view(c.explanation),
    }
}

/// The category a plugin starts the scan with: what its global items found,
/// and its command items.
pub open spec fn global_category(
    plugin: PluginDefinition,
    home: Option<Seq<char>>,
    probes: Seq<Vec<GlobalProbe>>,
) -> CategoryReportView {
    let items = plugin_global_views(plugin, home, probes, plugin.global_items@.len() as int);
    CategoryReportView {
        category: plugin.name@,
        global_items: items,
        projects: seq![],
        command_items: plugin.command_items@.map_values(|c: CommandItem| command_view(c)),
        total_size: found_total(items),
        is_detected: plugin_global_detects(plugin, probes, plugin.global_items@.len() as int)
            || plugin.command_items@.len() > 0,
    }
}

/// Whether `probes` has one probe per path of each global item of `plugin`.
pub open spec fn probes_fit(plugin: PluginDefinition, probes: Seq<Vec<GlobalProbe>>) -> bool {
    &&& probes.len() == plugin.global_items@.len()
    &&& forall|i: int|
        0 <= i < probes.len() ==> #[trigger] probes[i]@.len()
            == plugin.global_items@[i].paths@.len()
}

/// Where each path of each global item of `plugin` is, `~` expanded against
/// `home`: the locations to observe, in the shape `global_category` takes
/// its observations in.
pub fn global_paths(plugin: &PluginDefinition, home: Option<&str>) -> (r: Vec<Vec<String>>)
    ensures
        r@.len() == plugin.global_items@.len(),
        forall|i: int|
            0 <= i < r@.len() ==> (#[trigger] r@[i])@.len() == plugin.global_items@[i].paths@.len(),
        forall|i: int, j: int|
            0 <= i < r@.len() && 0 <= j < r@[i]@.len() ==> (#[trigger] r@[i]@[j])@ == expand_tilde_of(
                plugin.global_items@[i].paths@[j]@,
                opt_str(home),
            ),
{
    let mut r: Vec<Vec<String>> = Vec::new();
    for i in 0..plugin.global_items.len()
        invariant
            r@.len() == i,
            forall|a: int| 0 <= a < i ==> (#[trigger] r@[a])@.len() == plugin.global_items@[a].paths@.len(),
            forall|a: int, b: int|
                0 <= a < i && 0 <= b < r@[a]@.len() ==> (#[trigger] r@[a]@[b])@ == expand_tilde_of(
                    plugin.global_items@[a].paths@[b]@,
                    opt_str(home),
                ),
    {
        let item = &plugin.global_items[i];
        let mut ps: Vec<String> = Vec::new();
        for j in 0..item.paths.len()
            invariant
                ps@.len() == j,
                forall|b: int|
                    0 <= b < j ==> (#[trigger] ps@[b])@ == expand_tilde_of(item.paths@[b]@, opt_str(home)),
        {
            ps.push(expand_tilde_with(item.paths[j].as_str(), home));
        }
        r.push(ps);
    }
    r
}

/// Index of the first category named `name`, or -1.
pub open spec fn find_category(cats: Seq<CategoryReportView>, name: Seq<char>) -> int
    decreases cats.len(),
{
    if cats.len() == 0 {
        -1
    } else {
        let k = find_category(cats.drop_last(), name);
        if k >= 0 {
            k
        } else if cats.last().category == name {
            cats.len() - 1
        } else {
            -1
        }
    }
}

/// Keyed insertion: a category replaces the one of the same name, or is added.
pub open spec fn insert_category(cats: Seq<CategoryReportView>, c: CategoryReportView) -> Seq<
    CategoryReportView,
> {
    let k = find_category(cats, c.category);
    if k >= 0 {
        cats.update(k, c)
    } else {
        cats.push(c)
    }
}

pub proof fn lemma_find_category(cats: Seq<CategoryReportView>, name: Seq<char>)
    ensures
        -1 <= find_category(cats, name) < cats.len(),
        find_category(cats, name) >= 0 ==> cats[find_category(cats, name)].category == name,
        find_category(cats, name) >= 0 ==> forall|j: int|
            0 <= j < find_category(cats, name) ==> #[trigger] cats[j].category != name,
        find_category(cats, name) < 0 ==> forall|j: int|
            0 <= j < cats.len() ==> #[trigger] cats[j].category != name,
    decreases cats.len(),
{
    if cats.len() > 0 {
        lemma_find_category(cats.drop_last(), name);
        assert forall|j: int| 0 <= j < cats.len() - 1 implies #[trigger] cats[j]
            == cats.drop_last()[j] by {}
    }
}

/// Found sizes add up over concatenation.
pub proof fn lemma_found_total_concat(a: Seq<CacheItemView>, b: Seq<CacheItemView>)
    ensures
        found_total(a + b) == found_total(a) + found_total(b),
    decreases b.len(),
{
    if b.len() == 0 {
        assert(a + b =~= a);
    } else {
        lemma_found_total_concat(a, b.drop_last());
        assert((a + b).drop_last() =~= a + b.drop_last());
    }
}

pub proof fn lemma_found_total_nonneg(a: Seq<CacheItemView>)
    ensures
        found_total(a) >= 0,
    decreases a.len(),
{
    if a.len() > 0 {
        lemma_found_total_nonneg(a.drop_last());
    }
}

/// Sum of the sizes of the found items, when it fits in a `u64`.
pub fn sum_found(items: &Vec<CacheItem>) -> (r: Option<u64>)
    ensures
        r is Some <==> found_total(items_view(items@)) <= u64::MAX,
        r matches Some(t) ==> t == found_total(items_view(items@)),
{
    let mut t: u64 = 0;
    for i in 0..items.len()
        invariant
            t == found_total(items_view(items@.take(i as int))),
    {
        let ghost pre = items_view(items@.take(i as int));
        assert(items_view(items@.take(i + 1)).drop_last() =~= pre);
        if items[i].status == ItemStatus::Found {
            match t.checked_add(items[i].size_bytes) {
                Some(u) => {
                    t = u;
                },
                None => {
                    proof {
                        let rest = items_view(items@.skip(i + 1));
                        assert(items_view(items@) =~= items_view(items@.take(i + 1)) + rest);
                        lemma_found_total_concat(items_view(items@.take(i + 1)), rest);
                        lemma_found_total_nonneg(rest);
                    }
                    return None;
                },
            }
        }
    }
    assert(items@.take(items.len() as int) =~= items@);
    Some(t)
}

/// The scanner: the plugins whose caches it looks for.
pub struct Scanner {
    pub plugins: Vec<PluginDefinition>,
}

fn command_cache_item(c: &CommandItem) -> (r: CommandCacheItem)
    ensures
        r@ == command_view(*c),
{
    CommandCacheItem {
        name: c.name.clone(),
        command: c.command.clone(),
        description: c.description.clone(),
        safe: c.safe,
        explanation: clone_opt(&c.explanation),
    }
}

/// The items one global path reports.
fn probe_items(
    item: &PluginItem,
    home: Option<&str>,
    raw: &String,
    probe: &GlobalProbe,
    items: &mut Vec<CacheItem>,
)
    ensures
        items_view(final(items)@) == items_view(old(items)@) + probe_views(
            *item,
            raw@,
            opt_str(home),
            *probe,
        ),
{
    let full = expand_tilde_with(raw.as_str(), home);
    let ghost before = items_view(items@);
    match probe {
        GlobalProbe::Listed(es) => {
            for k in 0..es.len()
                invariant
                    full@ == expand_tilde_of(raw@, opt_str(home)),
                    items_view(items@) == before + listed_views(*item, full@, es@.take(k as int)),
            {
                let e = &es[k];
                assert(es@.take(k + 1).drop_last() =~= es@.take(k as int));
                let name = concat3(item.name.as_str(), " / ", e.name.as_str());
                let path = join(full.as_str(), e.name.as_str());
                let m = measure_path(e.stats);
                let ghost mid = items@;
                items.push(make_item(name, path, m, item.safe, clone_opt(&item.explanation)));
                assert(items_view(items@) =~= items_view(mid).push(items@.last()@));
                assert(items_view(items@) =~= before + listed_views(*item, full@, es@.take(k + 1)));
            }
            assert(es@.take(es@.len() as int) =~= es@);
        },
        GlobalProbe::Single(st) => {
            let m = measure_path(*st);
            items.push(make_item(item.name.clone(), full, m, item.safe, clone_opt(&item.explanation)));
            assert(items_view(items@) =~= before + probe_views(*item, raw@, opt_str(home), *probe));
        },
    }
}

impl Scanner {
    /// A scanner for the given plugins.
    pub fn new(plugins: Vec<PluginDefinition>) -> (r: Self)
        ensures
            r.plugins@ == plugins@,
    {
        Self { plugins }
    }

    /// The category `plugin` starts the scan with, built from what was
    /// observed at each path of its global items (`probes[i][j]` for path `j`
    /// of item `i`); `None` when its found sizes do not add up within a `u64`.
    pub fn global_category(
        plugin: &PluginDefinition,
        home: Option<&str>,
        probes: &Vec<Vec<GlobalProbe>>,
    ) -> (r: Option<CategoryReport>)
        requires
            probes_fit(*plugin, probes@),
        ensures
            r is Some <==> global_category(*plugin, opt_str(home), probes@).total_size
                <= u64::MAX,
            r matches Some(c) ==> c@ == global_category(*plugin, opt_str(home), probes@),
    {
        let ghost hv = opt_str(home);
        let mut items: Vec<CacheItem> = Vec::new();
        let mut detected = false;
        for i in 0..plugin.global_items.len()
            invariant
                probes_fit(*plugin, probes@),
                hv == opt_str(home),
                items_view(items@) == plugin_global_views(*plugin, hv, probes@, i as int),
                detected == plugin_global_detects(*plugin, probes@, i as int),
        {
            let item = &plugin.global_items[i];
            let ps = &probes[i];
            assert(ps@.len() == item.paths@.len());
            let ghost at_item = items_view(items@);
            let ghost det_item = detected;
            for j in 0..item.paths.len()
                invariant
                    ps@.len() == item.paths@.len(),
                    hv == opt_str(home),
                    items_view(items@) == at_item + item_views(*item, hv, ps@, j as int),
                    detected == (det_item || item_detects(ps@, j as int)),
            {
                let ghost mid = items_view(items@);
                probe_items(item, home, &item.paths[j], &ps[j], &mut items);
                assert(items_view(items@) =~= at_item + item_views(*item, hv, ps@, j + 1));
                match &ps[j] {
                    GlobalProbe::Listed(_) => {
                        detected = true;
                    },
                    GlobalProbe::Single(st) => {
                        if st.is_some() {
                            detected = true;
                        }
                    },
                }
            }
            assert(items_view(items@) =~= plugin_global_views(*plugin, hv, probes@, i + 1));
        }
        let mut commands: Vec<CommandCacheItem> = Vec::new();
        for k in 0..plugin.command_items.len()
            invariant
                commands_view(commands@) == plugin.command_items@.take(k as int).map_values(
                    |c: CommandItem| command_view(c),
                ),
        {
            let ghost mid = commands@;
            commands.push(command_cache_item(&plugin.command_items[k]));
            assert(commands_view(commands@) =~= commands_view(mid).push(
                command_view(plugin.command_items@[k as int]),
            ));
            assert(commands_view(commands@) =~= plugin.command_items@.take(k + 1).map_values(
                |c: CommandItem| command_view(c),
            ));
        }
        assert(plugin.command_items@.take(plugin.command_items@.len() as int)
            =~= plugin.command_items@);
        if plugin.command_items.len() > 0 {
            detected = true;
        }
        match sum_found(&items) {
            None => None,
            Some(total) => {
                let c = CategoryReport {
                    category: plugin.name.clone(),
                    global_items: items,
                    projects: Vec::new(),
                    command_items: commands,
                    total_size: total,
                    is_detected: detected,
                };
                assert(c@.projects =~= Seq::<crate::models::scan::ProjectReportView>::empty());
                assert(c@ =~= global_category(*plugin, hv, probes@));
                Some(c)
            },
        }
    }
}

/// The state of a scan: one category per plugin name.
pub struct ScanState {
    pub categories: Vec<CategoryReport>,
}

impl ScanState {
    pub open spec fn view(&self) -> Seq<CategoryReportView> {
        categories_view(self.categories@)
    }

    /// Every category's total adds up.
    pub open spec fn wf(&self) -> bool {
        forall|k: int| 0 <= k < self.view().len() ==> category_consistent(#[trigger] self.view()[k])
    }

    /// An empty scan.
    pub fn new() -> (r: ScanState)
        ensures
            r.view() == Seq::<CategoryReportView>::empty(),
            r.wf(),
    {
        ScanState { categories: Vec::new() }
    }

    /// Index of the first category named `name`, if any.
    pub(crate) fn find(&self, name: &String) -> (r: Option<usize>)
        ensures
            match r {
                Some(k) => find_category(self.view(), name@) == k as int,
                None => find_category(self.view(), name@) == -1,
            },
    {
        proof {
            lemma_find_category(self.view(), name@);
        }
        for i in 0..self.categories.len()
            invariant
                forall|j: int| 0 <= j < i ==> #[trigger] self.view()[j].category != name@,
                -1 <= find_category(self.view(), name@) < self.view().len(),
                find_category(self.view(), name@) >= 0 ==> self.view()[find_category(
                    self.view(),
                    name@,
                )].category == name@,
                find_category(self.view(), name@) >= 0 ==> forall|j: int|
                    0 <= j < find_category(self.view(), name@) ==> #[trigger] self.view()[j].category
                        != name@,
                find_category(self.view(), name@) < 0 ==> forall|j: int|
                    0 <= j < self.view().len() ==> #[trigger] self.view()[j].category != name@,
        {
            assert(self.view()[i as int].category == self.categories@[i as int].category@);
            if self.categories[i].category == *name {
                return Some(i);
            }
        }
        None
    }

    /// Adds a category, replacing the one of the same name.
    fn insert(&mut self, c: CategoryReport)
        ensures
            final(self).view() == insert_category(old(self).view(), c@),
    {
        let ghost before = self.view();
        proof {
            lemma_find_category(before, c.category@);
        }
        match self.find(&c.category) {
            Some(k) => {
                self.categories.set(k, c);
                assert(self.view() =~= before.update(k as int, c@));
            },
            None => {
                self.categories.push(c);
                assert(self.view() =~= before.push(c@));
            },
        }
    }

    /// Starts `plugin`'s category from what its global items found
    /// (replacing any category of the same name); `false`, with the scan
    /// unchanged, when its found sizes do not add up within a `u64`.
    pub fn add_global(
        &mut self,
        plugin: &PluginDefinition,
        home: Option<&str>,
        probes: &Vec<Vec<GlobalProbe>>,
    ) -> (ok: bool)
        requires
            probes_fit(*plugin, probes@),
            old(self).wf(),
        ensures
            ok == (global_category(*plugin, opt_str(home), probes@).total_size <= u64::MAX),
            ok ==> final(self).view() == insert_category(
                old(self).view(),
                global_category(*plugin, opt_str(home), probes@),
            ),
            !ok ==> final(self).view() == old(self).view(),
            final(self).wf(),
    {
        match Scanner::global_category(plugin, home, probes) {
            None => false,
            Some(c) => {
                let ghost before = self.view();
                proof {
                    lemma_find_category(before, c@.category);
                    assert(projects_total(c@.projects) == 0);
                    assert(category_consistent(c@));
                }
                self.insert(c);
                assert(self.wf());
                true
            },
        }
    }
}

} // verus!
