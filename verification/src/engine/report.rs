//! The end of a scan: the per-project view across ecosystems, the ordering
//! of categories and projects, and the grand total.
use vstd::prelude::*;
use crate::engine::scanner::ScanState;
use crate::models::scan::{
    categories_total, categories_view, category_consistent, items_view, size_total,
    summaries_view, CacheItem, CacheItemView, CategoryReport, CategoryReportView, ItemStatus,
    ProjectReport, ProjectReportView, ProjectSummary, ProjectSummaryView, ScanReport,
    ScanReportView,
};
use crate::utils::paths::{paths_equal, same_path};
use crate::utils::sorting::{
    lemma_sort_by_size_map, lemma_sort_by_size_permutation, lemma_sort_by_size_sorted,
    sort_by_size, sort_by_size_desc, sorted_by_size, SizeKey, SpecSize,
};
use crate::utils::text::clone_opt;

verus! {

impl SpecSize for CategoryReport {
    open spec fn size_key(&self) -> int {
        self.total_size as int
    }
}

impl SizeKey for CategoryReport {
    fn size_of(&self) -> (r: u64) {
        self.total_size
    }
}

impl SpecSize for CategoryReportView {
    open spec fn size_key(&self) -> int {
        self.total_size
    }
}

impl SpecSize for ProjectSummary {
    open spec fn size_key(&self) -> int {
        self.total_size as int
    }
}

impl SizeKey for ProjectSummary {
    fn size_of(&self) -> (r: u64) {
        self.total_size
    }
}

impl SpecSize for ProjectSummaryView {
    open spec fn size_key(&self) -> int {
        self.total_size
    }
}

/// A project's entry in the cross-ecosystem view while it is being gathered.
pub struct SummaryDraft {
    pub name: Seq<char>,
    pub path: Seq<char>,
    pub ecosystem: Seq<char>,
    pub items: Seq<CacheItemView>,
    pub last_modified: Option<u64>,
}

/// The items of a project report that count in the cross-ecosystem view:
/// found, and not empty.
pub open spec fn summary_items(items: Seq<CacheItemView>) -> Seq<CacheItemView>
    decreases items.len(),
{
    if items.len() == 0 {
        seq![]
    } else {
        let r = summary_items(items.drop_last());
        let x = items.last();
        if x.status == ItemStatus::Found && x.size_bytes > 0 {
            r.push(x)
        } else {
            r
        }
    }
}

/// Index of the first draft for a path equal to `path`, or -1.
pub open spec fn find_draft(ds: Seq<SummaryDraft>, path: Seq<char>) -> int
    decreases ds.len(),
{
    if ds.len() == 0 {
        -1
    } else {
        let k = find_draft(ds.drop_last(), path);
        if k >= 0 {
            k
        } else if same_path(ds.last().path, path) {
            ds.len() - 1
        } else {
            -1
        }
    }
}

/// A project report joins the entry of its directory: the first ecosystem
/// seen for a directory names it; later ones add their counted items.
pub open spec fn add_to_drafts(ds: Seq<SummaryDraft>, eco: Seq<char>, p: ProjectReportView) -> Seq<
    SummaryDraft,
> {
    let k = find_draft(ds, p.path);
    let extra = summary_items(p.items);
    if k >= 0 {
        ds.update(k, SummaryDraft { items: ds[k].items + extra, ..ds[k] })
    } else {
        ds.push(
            SummaryDraft {
                name: p.name,
                path: p.path,
                ecosystem: eco,
                items: extra,
                last_modified: p.last_modified,
            },
        )
    }
}

pub open spec fn drafts_of_projects(
    ds: Seq<SummaryDraft>,
    eco: Seq<char>,
    ps: Seq<ProjectReportView>,
) -> Seq<SummaryDraft>
    decreases ps.len(),
{
    if ps.len() == 0 {
        ds
    } else {
        add_to_drafts(drafts_of_projects(ds, eco, ps.drop_last()), eco, ps.last())
    }
}

/// The cross-ecosystem entries of the projects of `cats`, taken category by
/// category in order.
pub open spec fn drafts_of(cats: Seq<CategoryReportView>) -> Seq<SummaryDraft>
    decreases cats.len(),
{
    if cats.len() == 0 {
        seq![]
    } else {
        let c = cats.last();
        drafts_of_projects(drafts_of(cats.drop_last()), c.category, c.projects)
    }
}

/// An entry of the cross-ecosystem view: its total is the size of its items.
pub open spec fn summary_of(d: SummaryDraft) -> ProjectSummaryView {
    ProjectSummaryView {
        name: d.name,
        path: d.path,
        ecosystem: d.ecosystem,
        items: d.items,
        total_size: size_total(d.items),
        last_modified: d.last_modified,
    }
}

/// The report a scan ends with: categories and projects largest first,
/// and the grand total of the categories.
pub open spec fn report_of(cats: Seq<CategoryReportView>) -> ScanReportView {
    ScanReportView {
        categories: sort_by_size(cats),
        total_size: categories_total(cats),
        projects: sort_by_size(drafts_of(cats).map_values(|d: SummaryDraft| summary_of(d))),
    }
}

/// Whether every total of the report fits in a `u64`.
pub open spec fn report_fits(cats: Seq<CategoryReportView>) -> bool {
    &&& categories_total(cats) <= u64::MAX
    &&& forall|k: int|
        0 <= k < drafts_of(cats).len() ==> size_total(#[trigger] drafts_of(cats)[k].items)
            <= u64::MAX
}

struct Draft {
    name: String,
    path: String,
    ecosystem: String,
    items: Vec<CacheItem>,
    last_modified: Option<u64>,
}

impl Draft {
    spec fn view(&self) -> SummaryDraft {
        SummaryDraft {
            name: self.name@,
            path: self.path@,
            ecosystem: self.ecosystem@,
            items: items_view(self.items@),
            last_modified: self.last_modified,
        }
    }
}

spec fn drafts_view(v: Seq<Draft>) -> Seq<SummaryDraft> {
    v.map_values(|d: Draft| d.view())
}

/// A copy of an item.
pub fn copy_item(x: &CacheItem) -> (r: CacheItem)
    ensures
        r@ == x@,
{
    CacheItem {
        name: x.name.clone(),
        path: x.path.clone(),
        size_bytes: x.size_bytes,
        file_count: x.file_count,
        dir_count: x.dir_count,
        safe: x.safe,
        explanation: clone_opt(&x.explanation),
        status: x.status,
        last_modified: x.last_modified,
    }
}

/// Appends the counted items of `items` to `out`.
pub(crate) fn push_kept_items(out: &mut Vec<CacheItem>, items: &Vec<CacheItem>)
    ensures
        items_view(final(out)@) == items_view(old(out)@) + summary_items(items_view(items@)),
{
    let ghost start = items_view(out@);
    for i in 0..items.len()
        invariant
            items_view(out@) == start + summary_items(items_view(items@.take(i as int))),
    {
        assert(items_view(items@.take(i + 1)).drop_last() =~= items_view(items@.take(i as int)));
        let x = &items[i];
        if x.status == ItemStatus::Found && x.size_bytes > 0 {
            let ghost b = out@;
            out.push(copy_item(x));
            assert(items_view(out@) =~= items_view(b).push(x@));
        }
        assert(items_view(out@) =~= start + summary_items(items_view(items@.take(i + 1))));
    }
    assert(items@.take(items.len() as int) =~= items@);
}

fn find_draft_exec(ds: &Vec<Draft>, path: &String) -> (r: Option<usize>)
    ensures
        match r {
            Some(k) => k as int == find_draft(drafts_view(ds@), path@) && k < ds.len(),
            None => find_draft(drafts_view(ds@), path@) == -1,
        },
{
    let ghost dv = drafts_view(ds@);
    for k in 0..ds.len()
        invariant
            dv == drafts_view(ds@),
            find_draft(dv.take(k as int), path@) == -1,
    {
        assert(dv.take(k + 1).drop_last() =~= dv.take(k as int));
        if paths_equal(ds[k].path.as_str(), path.as_str()) {
            proof {
                lemma_find_draft_prefix(dv, path@, k + 1);
            }
            return Some(k);
        }
    }
    assert(dv.take(ds.len() as int) =~= dv);
    None
}

pub proof fn lemma_find_draft_prefix(s: Seq<SummaryDraft>, p: Seq<char>, n: int)
    requires
        0 <= n <= s.len(),
        find_draft(s.take(n), p) >= 0,
    ensures
        find_draft(s, p) == find_draft(s.take(n), p),
    decreases s.len() - n,
{
    if n < s.len() {
        assert(s.take(n + 1).drop_last() =~= s.take(n));
        lemma_find_draft_prefix(s, p, n + 1);
    } else {
        assert(s.take(n) =~= s);
    }
}

/// Adds one project report of ecosystem `eco` to the drafts.
fn add_project(ds: &mut Vec<Draft>, eco: &String, p: &ProjectReport)
    ensures
        drafts_view(final(ds)@) == add_to_drafts(drafts_view(old(ds)@), eco@, p@),
{
    let ghost before = drafts_view(ds@);
    match find_draft_exec(ds, &p.path) {
        Some(k) => {
            let mut d = ds.remove(k);
            assert(d.view() == before[k as int]);
            push_kept_items(&mut d.items, &p.items);
            ds.insert(k, d);
            assert(drafts_view(ds@) =~= add_to_drafts(before, eco@, p@));
        },
        None => {
            let mut items: Vec<CacheItem> = Vec::new();
            push_kept_items(&mut items, &p.items);
            assert(items_view(items@) =~= Seq::<CacheItemView>::empty() + summary_items(
                items_view(p.items@),
            ));
            let d = Draft {
                name: p.name.clone(),
                path: p.path.clone(),
                ecosystem: eco.clone(),
                items,
                last_modified: p.last_modified,
            };
            ds.push(d);
            assert(drafts_view(ds@) =~= add_to_drafts(before, eco@, p@));
        },
    }
}

/// Sum of the sizes of all items, when it fits in a `u64`.
pub(crate) fn sum_item_sizes(items: &Vec<CacheItem>) -> (r: Option<u64>)
    ensures
        r is Some <==> size_total(items_view(items@)) <= u64::MAX,
        r matches Some(t) ==> t == size_total(items_view(items@)),
{
    let mut t: u64 = 0;
    for i in 0..items.len()
        invariant
            t == size_total(items_view(items@.take(i as int))),
    {
        assert(items_view(items@.take(i + 1)).drop_last() =~= items_view(items@.take(i as int)));
        match t.checked_add(items[i].size_bytes) {
            Some(u) => {
                t = u;
            },
            None => {
                proof {
                    let rest = items_view(items@.skip(i + 1));
                    assert(items_view(items@) =~= items_view(items@.take(i + 1)) + rest);
                    lemma_size_total_concat(items_view(items@.take(i + 1)), rest);
                    lemma_size_total_nonneg(rest);
                }
                return None;
            },
        }
    }
    assert(items@.take(items.len() as int) =~= items@);
    Some(t)
}

pub proof fn lemma_size_total_concat(a: Seq<CacheItemView>, b: Seq<CacheItemView>)
    ensures
        size_total(a + b) == size_total(a) + size_total(b),
    decreases b.len(),
{
    if b.len() == 0 {
        assert(a + b =~= a);
    } else {
        lemma_size_total_concat(a, b.drop_last());
        assert((a + b).drop_last() =~= a + b.drop_last());
    }
}

pub proof fn lemma_size_total_nonneg(a: Seq<CacheItemView>)
    ensures
        size_total(a) >= 0,
    decreases a.len(),
{
    if a.len() > 0 {
        lemma_size_total_nonneg(a.drop_last());
    }
}

pub proof fn lemma_categories_total_concat(a: Seq<CategoryReportView>, b: Seq<CategoryReportView>)
    ensures
        categories_total(a + b) == categories_total(a) + categories_total(b),
    decreases b.len(),
{
    if b.len() == 0 {
        assert(a + b =~= a);
    } else {
        lemma_categories_total_concat(a, b.drop_last());
        assert((a + b).drop_last() =~= a + b.drop_last());
    }
}

/// Sum of the category totals, when it fits in a `u64`.
fn sum_categories(cats: &Vec<CategoryReport>) -> (r: Option<u64>)
    ensures
        r is Some <==> categories_total(categories_view(cats@)) <= u64::MAX,
        r matches Some(t) ==> t == categories_total(categories_view(cats@)),
{
    let mut t: u64 = 0;
    for i in 0..cats.len()
        invariant
            t == categories_total(categories_view(cats@.take(i as int))),
    {
        assert(categories_view(cats@.take(i + 1)).drop_last() =~= categories_view(
            cats@.take(i as int),
        ));
        match t.checked_add(cats[i].total_size) {
            Some(u) => {
                t = u;
            },
            None => {
                proof {
                    let rest = categories_view(cats@.skip(i + 1));
                    assert(categories_view(cats@) =~= categories_view(cats@.take(i + 1)) + rest);
                    lemma_categories_total_concat(categories_view(cats@.take(i + 1)), rest);
                    lemma_categories_total_nonneg(rest);
                }
                return None;
            },
        }
    }
    assert(cats@.take(cats.len() as int) =~= cats@);
    Some(t)
}

pub proof fn lemma_categories_total_nonneg(a: Seq<CategoryReportView>)
    requires
        forall|k: int| 0 <= k < a.len() ==> #[trigger] a[k].total_size >= 0,
    ensures
        categories_total(a) >= 0,
    decreases a.len(),
{
    if a.len() > 0 {
        lemma_categories_total_nonneg(a.drop_last());
    }
}


/// The cross-ecosystem drafts of the projects of `cats`.
fn gather_drafts(cats: &Vec<CategoryReport>) -> (r: Vec<Draft>)
    ensures
        drafts_view(r@) == drafts_of(categories_view(cats@)),
{
    let ghost cv = categories_view(cats@);
    let mut ds: Vec<Draft> = Vec::new();
    for i in 0..cats.len()
        invariant
            cv == categories_view(cats@),
            drafts_view(ds@) == drafts_of(cv.take(i as int)),
    {
        let c = &cats[i];
        assert(cv.take(i + 1).drop_last() =~= cv.take(i as int));
        assert(cv.take(i + 1).last() == c@);
        let ghost start = drafts_view(ds@);
        for j in 0..c.projects.len()
            invariant
                drafts_view(ds@) == drafts_of_projects(
                    start,
                    c.category@,
                    c@.projects.take(j as int),
                ),
        {
            assert(c@.projects.take(j + 1).drop_last() =~= c@.projects.take(j as int));
            assert(c@.projects.take(j + 1).last() == c.projects@[j as int]@);
            add_project(&mut ds, &c.category, &c.projects[j]);
        }
        assert(c@.projects.take(c@.projects.len() as int) =~= c@.projects);
    }
    assert(cv.take(cats.len() as int) =~= cv);
    ds
}

/// The cross-ecosystem entries, each with the total of its items, when
/// every total fits in a `u64`.
fn finish_drafts(ds: Vec<Draft>) -> (r: Option<Vec<ProjectSummary>>)
    ensures
        r is Some <==> forall|k: int|
            0 <= k < ds@.len() ==> size_total(#[trigger] drafts_view(ds@)[k].items) <= u64::MAX,
        r matches Some(v) ==> summaries_view(v@) == drafts_view(ds@).map_values(
            |d: SummaryDraft| summary_of(d),
        ),
{
    let ghost dv = drafts_view(ds@);
    let mut rest = ds;
    let mut out: Vec<ProjectSummary> = Vec::new();
    let mut k: usize = 0;
    let n = rest.len();
    while k < n
        invariant
            dv == drafts_view(ds@),
            n == dv.len(),
            k <= n,
            drafts_view(rest@) == dv.skip(k as int),
            summaries_view(out@) == dv.take(k as int).map_values(|d: SummaryDraft| summary_of(d)),
            forall|j: int| 0 <= j < k ==> size_total(#[trigger] dv[j].items) <= u64::MAX,
        decreases n - k,
    {
        assert(drafts_view(rest@).len() == rest@.len());
        assert(drafts_view(rest@)[0] == dv[k as int]);
        let ghost old_rest = rest@;
        let d = rest.remove(0);
        assert(rest@ == old_rest.remove(0));
        assert forall|i: int| 0 <= i < rest@.len() implies #[trigger] drafts_view(rest@)[i] == dv.skip(
            k + 1,
        )[i] by {
            assert(rest@[i] == old_rest[i + 1]);
            assert(drafts_view(old_rest)[i + 1] == dv.skip(k as int)[i + 1]);
        }
        assert(drafts_view(rest@) =~= dv.skip(k + 1));
        match sum_item_sizes(&d.items) {
            None => {
                assert(d.view() == dv[k as int]);
                assert(size_total(drafts_view(ds@)[k as int].items) > u64::MAX);
                return None;
            },
            Some(t) => {
                let ghost b = out@;
                out.push(
                    ProjectSummary {
                        name: d.name,
                        path: d.path,
                        ecosystem: d.ecosystem,
                        items: d.items,
                        total_size: t,
                        last_modified: d.last_modified,
                    },
                );
                assert(summaries_view(out@) =~= summaries_view(b).push(summary_of(dv[k as int])));
                assert(dv.take(k + 1).map_values(|d: SummaryDraft| summary_of(d)) =~= dv.take(
                    k as int,
                ).map_values(|d: SummaryDraft| summary_of(d)).push(summary_of(dv[k as int])));
            },
        }
        k = k + 1;
    }
    assert(dv.take(n as int) =~= dv);
    Some(out)
}

impl ScanState {
    /// The report the scan ends with: every category, largest total first;
    /// the total of all categories; and the project directories across
    /// ecosystems (each named and labelled by the first ecosystem that found
    /// it, holding every found, non-empty item), largest first. `None` when a
    /// total would not fit in a `u64`.
    pub fn finish(self) -> (r: Option<ScanReport>)
        requires
            self.wf(),
        ensures
            r is Some <==> report_fits(self.view()),
            r matches Some(rep) ==> rep@ == report_of(self.view()),
            r matches Some(rep) ==> sorted_by_size(rep@.categories) && sorted_by_size(
                rep@.projects,
            ),
            r matches Some(rep) ==> rep@.categories.to_multiset() == self.view().to_multiset(),
            r matches Some(rep) ==> forall|k: int|
                0 <= k < rep@.categories.len() ==> category_consistent(
                    #[trigger] rep@.categories[k],
                ),
            r matches Some(rep) ==> forall|k: int|
                0 <= k < rep@.projects.len() ==> (#[trigger] rep@.projects[k]).total_size
                    == size_total(rep@.projects[k].items),
    {
        let ghost cv = self.view();
        let ds = gather_drafts(&self.categories);
        let ghost dv = drafts_view(ds@);
        let summaries = match finish_drafts(ds) {
            None => return None,
            Some(v) => v,
        };
        let total = match sum_categories(&self.categories) {
            None => return None,
            Some(t) => t,
        };
        let ghost cats_exec = self.categories@;
        let ghost sums_exec = summaries@;
        let categories = sort_by_size_desc(self.categories);
        let projects = sort_by_size_desc(summaries);
        let rep = ScanReport { categories, total_size: total, projects };
        proof {
            let fc = |c: CategoryReport| c@;
            let fs = |p: ProjectSummary| p@;
            lemma_sort_by_size_map(cats_exec, fc);
            lemma_sort_by_size_map(sums_exec, fs);
            assert(cats_exec.map_values(fc) =~= cv);
            assert(sort_by_size(cats_exec).map_values(fc) =~= rep@.categories);
            assert(sums_exec.map_values(fs) =~= summaries_view(sums_exec));
            assert(sort_by_size(sums_exec).map_values(fs) =~= rep@.projects);
            let ps = dv.map_values(|d: SummaryDraft| summary_of(d));
            assert(rep@ == report_of(cv));
            lemma_sort_by_size_sorted(cv);
            lemma_sort_by_size_sorted(ps);
            lemma_sort_by_size_permutation(cv);
            lemma_sort_by_size_permutation(ps);
            assert forall|k: int| 0 <= k < rep@.categories.len() implies category_consistent(
                #[trigger] rep@.categories[k],
            ) by {
                broadcast use vstd::seq_lib::group_to_multiset_ensures;

                let x = rep@.categories[k];
                assert(rep@.categories.contains(x));
                assert(cv.to_multiset().count(x) > 0);
                assert(cv.contains(x));
                let w = choose|w: int| 0 <= w < cv.len() && cv[w] == x;
                assert(category_consistent(cv[w]));
            }
            assert forall|k: int| 0 <= k < rep@.projects.len() implies (
            #[trigger] rep@.projects[k]).total_size == size_total(rep@.projects[k].items) by {
                broadcast use vstd::seq_lib::group_to_multiset_ensures;

                let x = rep@.projects[k];
                assert(rep@.projects.contains(x));
                assert(ps.to_multiset().count(x) > 0);
                assert(ps.contains(x));
                let w = choose|w: int| 0 <= w < ps.len() && ps[w] == x;
                assert(ps[w] == summary_of(dv[w]));
            }
        }
        Some(rep)
    }
}

} // verus!
