//! What holds of a scan as a whole: where the walk goes, and what the
//! cross-ecosystem view of a project holds.
use vstd::prelude::*;
use vstd::multiset::Multiset;
use crate::engine::report::{
    add_to_drafts, drafts_of, drafts_of_projects, find_draft, lemma_size_total_concat, report_of,
    summary_items, summary_of, SummaryDraft,
};
use crate::engine::scan_run::descended;
use crate::engine::walk::{descends, is_skipped_name, pushed_children, DirEntry};
use crate::models::scan::{
    size_total, CacheItemView, CategoryReportView, ItemStatus, ProjectReportView,
    ProjectSummaryView,
};
use crate::utils::paths::{join_of, same_path};
use crate::utils::sorting::{lemma_sort_by_size_permutation, sort_by_size};

verus! {

/// The names of the directories that the walk never goes into.
pub open spec fn never_walked() -> Set<Seq<char>> {
    set![
        "node_modules"@,
        ".git"@,
        "Pods"@,
        "build"@,
        ".next"@,
        "dist"@,
        "target"@,
        ".gradle"@,
        ".expo"@,
        "__pycache__"@,
        "venv"@,
        ".venv"@,
        "DerivedData"@,
        ".build"@,
        "out"@,
        ".dart_tool"@,
    ]
}

/// Whether the walk goes into an entry named `name` of a directory at
/// `depth`: a directory whose name is not on the skip list and that is not
/// hidden directly under a scan root.
pub open spec fn walked_into(name: Seq<char>, is_dir: bool, depth: int) -> bool {
    &&& is_dir
    &&& !never_walked().contains(name)
    &&& !(depth == 0 && name.len() > 0 && name[0] == '.')
}

/// Entry `j` of `es` is one the walk goes into, and `x` is where the walk
/// goes for it from `dir` at `depth`.
pub open spec fn walked_entry(
    dir: Seq<char>,
    depth: int,
    es: Seq<DirEntry>,
    x: (Seq<char>, int),
    j: int,
) -> bool {
    &&& 0 <= j < es.len()
    &&& walked_into(es[j].name@, es[j].is_dir, depth)
    &&& x == (join_of(dir, es[j].name@), depth + 1)
}

/// The walk never goes into a directory named `node_modules`, `.git`,
/// `Pods`, `build`, `.next`, `dist`, `target`, `.gradle`, `.expo`,
/// `__pycache__`, `venv`, `.venv`, `DerivedData`, `.build`, `out` or
/// `.dart_tool`, nor into a hidden one directly under a scan root, nor into
/// an entry that is not a directory: each directory it schedules from
/// `dir`, listed at `depth` with `es`, is the path of an entry it goes into,
/// one level deeper, and every such entry is scheduled.
pub proof fn law_walk_skips_build_folders(dir: Seq<char>, depth: int, es: Seq<DirEntry>)
    ensures
        forall|n: Seq<char>| #[trigger] is_skipped_name(n) <==> never_walked().contains(n),
        forall|n: Seq<char>, d: bool, k: int| #[trigger] descends(n, d, k) == walked_into(n, d, k),
        forall|j: int|
            0 <= j < es.len() && walked_into(#[trigger] es[j].name@, es[j].is_dir, depth)
                ==> pushed_children(dir, depth, es).contains((join_of(dir, es[j].name@), depth + 1)),
        forall|x: (Seq<char>, int)|
            #[trigger] pushed_children(dir, depth, es).contains(x) ==> exists|j: int|
                #[trigger] walked_entry(dir, depth, es, x, j),
    decreases es.len(),
{
    if es.len() > 0 {
        law_walk_skips_build_folders(dir, depth, es.drop_first());
        assert forall|k: int|
            #![trigger pushed_children(dir, depth, es)[k]]
            0 <= k < pushed_children(dir, depth, es).len() implies exists|j: int|
                #[trigger] walked_entry(dir, depth, es, pushed_children(dir, depth, es)[k], j) by {
            let rest = pushed_children(dir, depth, es.drop_first());
            let p = pushed_children(dir, depth, es);
            if k < rest.len() {
                assert(p[k] == rest[k]);
                assert(rest.contains(rest[k]));
                let j = choose|j: int| #[trigger] walked_entry(dir, depth, es.drop_first(), rest[k], j);
                assert(es.drop_first()[j] == es[j + 1]);
                assert(walked_entry(dir, depth, es, p[k], j + 1));
            } else {
                assert(walked_entry(dir, depth, es, p[k], 0));
            }
        }
        assert forall|j: int|
            0 <= j < es.len() && walked_into(#[trigger] es[j].name@, es[j].is_dir, depth)
                implies pushed_children(dir, depth, es).contains(
            (join_of(dir, es[j].name@), depth + 1),
        ) by {
            let rest = pushed_children(dir, depth, es.drop_first());
            let p = pushed_children(dir, depth, es);
            let x = (join_of(dir, es[j].name@), depth + 1);
            if j == 0 {
                assert(p[p.len() - 1] == x);
            } else {
                assert(es.drop_first()[j - 1] == es[j]);
                assert(rest.contains(x));
                let k = choose|k: int| 0 <= k < rest.len() && rest[k] == x;
                assert(p[k] == rest[k]);
            }
        }
        assert forall|x: (Seq<char>, int)|
            #[trigger] pushed_children(dir, depth, es).contains(x) implies exists|j: int|
                #[trigger] walked_entry(dir, depth, es, x, j) by {
            let k = choose|k: int|
                0 <= k < pushed_children(dir, depth, es).len() && pushed_children(dir, depth, es)[k]
                    == x;
            assert(pushed_children(dir, depth, es)[k] == x);
        }
    }
}

/// The walk goes at most five levels below a scan root: walking `dir`,
/// listed at `depth` with `es`, keeps the directories already pending and
/// adds only directories one level deeper, never deeper than five; below
/// five levels it adds every entry it goes into, and at five it adds none.
pub proof fn law_walk_depth_limit(
    pending: Seq<(Seq<char>, int)>,
    dir: Seq<char>,
    depth: int,
    es: Seq<DirEntry>,
)
    requires
        0 <= depth,
    ensures
        descended(pending, dir, depth, es).subrange(0, pending.len() as int) == pending,
        forall|k: int|
            pending.len() <= k < descended(pending, dir, depth, es).len() ==> #[trigger] descended(
                pending,
                dir,
                depth,
                es,
            )[k].1 == depth + 1 && depth + 1 <= 5,
        depth >= 5 ==> descended(pending, dir, depth, es) == pending,
        depth < 5 ==> forall|j: int|
            0 <= j < es.len() && walked_into(#[trigger] es[j].name@, es[j].is_dir, depth)
                ==> descended(pending, dir, depth, es).contains((join_of(dir, es[j].name@), depth + 1)),
{
    law_walk_skips_build_folders(dir, depth, es);
    let d = descended(pending, dir, depth, es);
    let pc = pushed_children(dir, depth, es);
    if depth < 5 {
        assert(d == pending + pc);
        assert(d.subrange(0, pending.len() as int) =~= pending);
        assert forall|k: int| pending.len() <= k < d.len() implies #[trigger] d[k].1 == depth + 1
            && depth + 1 <= 5 by {
            assert(d[k] == pc[k - pending.len()]);
            assert(pc.contains(pc[k - pending.len()]));
            let j = choose|j: int| #[trigger] walked_entry(dir, depth, es, pc[k - pending.len()], j);
        }
        assert forall|j: int|
            0 <= j < es.len() && walked_into(#[trigger] es[j].name@, es[j].is_dir, depth)
                implies d.contains((join_of(dir, es[j].name@), depth + 1)) by {
            let x = (join_of(dir, es[j].name@), depth + 1);
            assert(pc.contains(x));
            let k = choose|k: int| 0 <= k < pc.len() && pc[k] == x;
            assert(d[pending.len() + k] == x);
        }
    } else {
        assert(d.subrange(0, pending.len() as int) =~= pending);
    }
}

/// An item that the cross-ecosystem view of a project counts: found, and
/// not empty.
pub open spec fn counts(x: CacheItemView) -> bool {
    x.status == ItemStatus::Found && x.size_bytes > 0
}

/// The items of `items` that the cross-ecosystem view counts, in order.
pub open spec fn counted_items(items: Seq<CacheItemView>) -> Seq<CacheItemView> {
    items.filter(|x: CacheItemView| counts(x))
}

/// What the project reports among `ps` for the directory `path` count.
pub open spec fn counted_in(ps: Seq<ProjectReportView>, path: Seq<char>) -> Multiset<
    CacheItemView,
>
    decreases ps.len(),
{
    if ps.len() == 0 {
        Multiset::empty()
    } else {
        counted_in(ps.drop_last(), path).add(
            if same_path(ps.last().path, path) {
                counted_items(ps.last().items).to_multiset()
            } else {
                Multiset::empty()
            },
        )
    }
}

/// The size of what the project reports among `ps` for `path` count.
pub open spec fn counted_bytes_in(ps: Seq<ProjectReportView>, path: Seq<char>) -> int
    decreases ps.len(),
{
    if ps.len() == 0 {
        0
    } else {
        counted_bytes_in(ps.drop_last(), path) + if same_path(ps.last().path, path) {
            size_total(counted_items(ps.last().items))
        } else {
            0
        }
    }
}

/// What the project reports of every category in `cats` for `path` count.
pub open spec fn counted_at(cats: Seq<CategoryReportView>, path: Seq<char>) -> Multiset<
    CacheItemView,
>
    decreases cats.len(),
{
    if cats.len() == 0 {
        Multiset::empty()
    } else {
        counted_at(cats.drop_last(), path).add(counted_in(cats.last().projects, path))
    }
}

/// The size of what the project reports of every category for `path` count.
pub open spec fn counted_bytes_at(cats: Seq<CategoryReportView>, path: Seq<char>) -> int
    decreases cats.len(),
{
    if cats.len() == 0 {
        0
    } else {
        counted_bytes_at(cats.drop_last(), path) + counted_bytes_in(cats.last().projects, path)
    }
}

/// The first project report among `ps` (of ecosystem `eco`) for the
/// directory `path`, with its ecosystem.
pub open spec fn first_in(ps: Seq<ProjectReportView>, eco: Seq<char>, path: Seq<char>) -> Option<
    (Seq<char>, ProjectReportView),
>
    decreases ps.len(),
{
    if ps.len() == 0 {
        None
    } else {
        match first_in(ps.drop_last(), eco, path) {
            Some(f) => Some(f),
            None => if same_path(ps.last().path, path) {
                Some((eco, ps.last()))
            } else {
                None
            },
        }
    }
}

/// The first project report for the directory `path`, categories taken in
/// order, with the ecosystem of its category.
pub open spec fn first_at(cats: Seq<CategoryReportView>, path: Seq<char>) -> Option<
    (Seq<char>, ProjectReportView),
>
    decreases cats.len(),
{
    if cats.len() == 0 {
        None
    } else {
        match first_at(cats.drop_last(), path) {
            Some(f) => Some(f),
            None => first_in(cats.last().projects, cats.last().category, path),
        }
    }
}

/// The draft for `q` in `ds` holds `m`, of size `b`, and is named after
/// `first`; there is one exactly when there is a `first`.
spec fn holds(
    ds: Seq<SummaryDraft>,
    q: Seq<char>,
    m: Multiset<CacheItemView>,
    b: int,
    first: Option<(Seq<char>, ProjectReportView)>,
) -> bool {
    let k = find_draft(ds, q);
    &&& -1 <= k < ds.len()
    &&& (k >= 0) == (first is Some)
    &&& k >= 0 ==> ds[k].items.to_multiset() == m && size_total(ds[k].items) == b
    &&& first matches Some(f) ==> ds[k].name == f.1.name && ds[k].ecosystem == f.0
        && ds[k].last_modified == f.1.last_modified
    &&& k < 0 ==> m == Multiset::<CacheItemView>::empty() && b == 0
}

/// No two drafts are for the same directory.
spec fn distinct(ds: Seq<SummaryDraft>) -> bool {
    forall|i: int| 0 <= i < ds.len() ==> find_draft(ds, #[trigger] ds[i].path) == i
}

proof fn lemma_summary_items(items: Seq<CacheItemView>)
    ensures
        summary_items(items) == counted_items(items),
    decreases items.len(),
{
    reveal(Seq::filter);
    if items.len() > 0 {
        lemma_summary_items(items.drop_last());
    }
}

proof fn lemma_find_draft(ds: Seq<SummaryDraft>, q: Seq<char>)
    ensures
        -1 <= find_draft(ds, q) < ds.len(),
        find_draft(ds, q) >= 0 ==> same_path(ds[find_draft(ds, q)].path, q),
        forall|j: int| 0 <= j < ds.len() && same_path(#[trigger] ds[j].path, q) ==> find_draft(ds, q)
            >= 0 && find_draft(ds, q) <= j,
    decreases ds.len(),
{
    if ds.len() > 0 {
        lemma_find_draft(ds.drop_last(), q);
        assert forall|j: int| 0 <= j < ds.len() && same_path(#[trigger] ds[j].path, q) implies find_draft(
            ds,
            q,
        ) >= 0 && find_draft(ds, q) <= j by {
            if j < ds.len() - 1 {
                assert(ds.drop_last()[j] == ds[j]);
            }
        }
    }
}

/// `k` is the first draft for `q`.
proof fn lemma_find_first(ds: Seq<SummaryDraft>, q: Seq<char>, k: int)
    requires
        0 <= k < ds.len(),
        same_path(ds[k].path, q),
        forall|j: int| 0 <= j < k ==> !same_path(#[trigger] ds[j].path, q),
    ensures
        find_draft(ds, q) == k,
{
    lemma_find_draft(ds, q);
    let f = find_draft(ds, q);
    if f < k {
        assert(same_path(ds[f].path, q));
    }
}

proof fn lemma_find_none(ds: Seq<SummaryDraft>, q: Seq<char>)
    requires
        forall|j: int| 0 <= j < ds.len() ==> !same_path(#[trigger] ds[j].path, q),
    ensures
        find_draft(ds, q) == -1,
{
    lemma_find_draft(ds, q);
    if find_draft(ds, q) >= 0 {
        assert(same_path(ds[find_draft(ds, q)].path, q));
    }
}

proof fn lemma_add_step(
    ds: Seq<SummaryDraft>,
    eco: Seq<char>,
    p: ProjectReportView,
    q: Seq<char>,
    m: Multiset<CacheItemView>,
    b: int,
    r: Option<(Seq<char>, ProjectReportView)>,
)
    requires
        holds(ds, q, m, b, r),
    ensures
        holds(
            add_to_drafts(ds, eco, p),
            q,
            m.add(
                if same_path(p.path, q) {
                    counted_items(p.items).to_multiset()
                } else {
                    Multiset::empty()
                },
            ),
            b + if same_path(p.path, q) {
                size_total(counted_items(p.items))
            } else {
                0
            },
            match r {
                Some(f) => Some(f),
                None => if same_path(p.path, q) {
                    Some((eco, p))
                } else {
                    None
                },
            },
        ),
{
    broadcast use vstd::multiset::group_multiset_axioms;

    lemma_summary_items(p.items);
    lemma_find_draft(ds, q);
    lemma_find_draft(ds, p.path);
    let k = find_draft(ds, p.path);
    let f = find_draft(ds, q);
    let extra = counted_items(p.items);
    let d2 = add_to_drafts(ds, eco, p);
    let hit = same_path(p.path, q);
    let m2 = m.add(
        if hit {
            extra.to_multiset()
        } else {
            Multiset::empty()
        },
    );
    if k >= 0 {
        assert(d2 == ds.update(k, SummaryDraft { items: ds[k].items + extra, ..ds[k] }));
        assert forall|j: int| 0 <= j < ds.len() implies (#[trigger] d2[j]).path == ds[j].path by {}
        if f >= 0 {
            lemma_find_first(d2, q, f);
            if hit {
                assert(same_path(ds[k].path, q));
                assert forall|j: int| 0 <= j < k implies !same_path(#[trigger] ds[j].path, q) by {
                    if same_path(ds[j].path, q) {
                        assert(same_path(ds[j].path, p.path));
                    }
                }
                lemma_find_first(ds, q, k);
                vstd::seq_lib::lemma_multiset_commutative(ds[k].items, extra);
                lemma_size_total_concat(ds[k].items, extra);
            } else {
                assert(f != k);
                assert(m2 =~= m);
            }
        } else {
            lemma_find_none(d2, q);
            assert(!hit);
            assert(m2 =~= m);
        }
    } else {
        let nd = SummaryDraft {
            name: p.name,
            path: p.path,
            ecosystem: eco,
            items: extra,
            last_modified: p.last_modified,
        };
        assert(d2 == ds.push(nd));
        if f >= 0 {
            assert(forall|j: int| 0 <= j < f ==> !same_path(#[trigger] ds[j].path, q));
            assert(forall|j: int| 0 <= j < f ==> #[trigger] d2[j] == ds[j]);
            lemma_find_first(d2, q, f);
            assert(!hit);
            assert(m2 =~= m);
        } else if hit {
            assert(forall|j: int| 0 <= j < ds.len() ==> #[trigger] d2[j] == ds[j]);
            lemma_find_first(d2, q, ds.len() as int);
            assert(m2 =~= extra.to_multiset());
        } else {
            assert(forall|j: int| 0 <= j < ds.len() ==> #[trigger] d2[j] == ds[j]);
            lemma_find_none(d2, q);
            assert(m2 =~= m);
        }
    }
}

proof fn lemma_add_distinct(ds: Seq<SummaryDraft>, eco: Seq<char>, p: ProjectReportView)
    requires
        distinct(ds),
    ensures
        distinct(add_to_drafts(ds, eco, p)),
{
    lemma_find_draft(ds, p.path);
    let k = find_draft(ds, p.path);
    let d2 = add_to_drafts(ds, eco, p);
    assert forall|i: int| 0 <= i < d2.len() implies find_draft(d2, #[trigger] d2[i].path) == i by {
        if i < ds.len() {
            lemma_find_draft(ds, ds[i].path);
            assert(d2[i].path == ds[i].path);
            assert forall|j: int| 0 <= j < i implies !same_path(#[trigger] d2[j].path, d2[i].path) by {
                assert(d2[j].path == ds[j].path);
            }
            lemma_find_first(d2, d2[i].path, i);
        } else {
            assert forall|j: int| 0 <= j < i implies !same_path(#[trigger] d2[j].path, d2[i].path) by {
                assert(d2[j] == ds[j]);
            }
            lemma_find_first(d2, d2[i].path, i);
        }
    }
}

proof fn lemma_projects(
    ds: Seq<SummaryDraft>,
    eco: Seq<char>,
    ps: Seq<ProjectReportView>,
    q: Seq<char>,
    m: Multiset<CacheItemView>,
    b: int,
    r: Option<(Seq<char>, ProjectReportView)>,
)
    requires
        holds(ds, q, m, b, r),
        distinct(ds),
    ensures
        holds(
            drafts_of_projects(ds, eco, ps),
            q,
            m.add(counted_in(ps, q)),
            b + counted_bytes_in(ps, q),
            match r {
                Some(f) => Some(f),
                None => first_in(ps, eco, q),
            },
        ),
        distinct(drafts_of_projects(ds, eco, ps)),
    decreases ps.len(),
{
    broadcast use vstd::multiset::group_multiset_axioms;

    if ps.len() == 0 {
        assert(m.add(counted_in(ps, q)) =~= m);
    } else {
        lemma_projects(ds, eco, ps.drop_last(), q, m, b, r);
        let prev = drafts_of_projects(ds, eco, ps.drop_last());
        lemma_add_step(
            prev,
            eco,
            ps.last(),
            q,
            m.add(counted_in(ps.drop_last(), q)),
            b + counted_bytes_in(ps.drop_last(), q),
            match r {
                Some(f) => Some(f),
                None => first_in(ps.drop_last(), eco, q),
            },
        );
        lemma_add_distinct(prev, eco, ps.last());
        let here = if same_path(ps.last().path, q) {
            counted_items(ps.last().items).to_multiset()
        } else {
            Multiset::empty()
        };
        assert(m.add(counted_in(ps.drop_last(), q)).add(here) =~= m.add(counted_in(ps, q)));
    }
}

proof fn lemma_cats(cats: Seq<CategoryReportView>, q: Seq<char>)
    ensures
        holds(drafts_of(cats), q, counted_at(cats, q), counted_bytes_at(cats, q), first_at(cats, q)),
        distinct(drafts_of(cats)),
    decreases cats.len(),
{
    if cats.len() == 0 {
        assert(find_draft(drafts_of(cats), q) == -1);
    } else {
        lemma_cats(cats.drop_last(), q);
        lemma_projects(
            drafts_of(cats.drop_last()),
            cats.last().category,
            cats.last().projects,
            q,
            counted_at(cats.drop_last(), q),
            counted_bytes_at(cats.drop_last(), q),
            first_at(cats.drop_last(), q),
        );
    }
}

proof fn lemma_first_in(ps: Seq<ProjectReportView>, eco: Seq<char>, i: int, q: Seq<char>)
    requires
        0 <= i < ps.len(),
        same_path(ps[i].path, q),
    ensures
        first_in(ps, eco, q) is Some,
    decreases ps.len(),
{
    if i < ps.len() - 1 {
        assert(ps.drop_last()[i] == ps[i]);
        lemma_first_in(ps.drop_last(), eco, i, q);
    }
}

proof fn lemma_first_at(cats: Seq<CategoryReportView>, c: int, i: int)
    requires
        0 <= c < cats.len(),
        0 <= i < cats[c].projects.len(),
    ensures
        first_at(cats, cats[c].projects[i].path) is Some,
    decreases cats.len(),
{
    if c < cats.len() - 1 {
        assert(cats.drop_last()[c] == cats[c]);
        lemma_first_at(cats.drop_last(), c, i);
    } else {
        lemma_first_in(cats[c].projects, cats[c].category, i, cats[c].projects[i].path);
    }
}

/// Whether `projects` has an entry for the directory `path`.
pub open spec fn has_entry_for(projects: Seq<ProjectSummaryView>, path: Seq<char>) -> bool {
    exists|s: ProjectSummaryView| #[trigger] projects.contains(s) && same_path(s.path, path)
}

/// The cross-ecosystem view of the projects gathers, for each directory,
/// what every ecosystem found there: each project's entry holds exactly the
/// found, non-empty items of the project reports of all categories for its
/// directory, and its total is their size; it takes its name, ecosystem and
/// last change from the first report for the directory; every directory
/// with a project report has an entry, and no two entries are for the same
/// directory.
pub proof fn law_project_summary_gathers_every_ecosystem(cats: Seq<CategoryReportView>)
    ensures
        forall|s: ProjectSummaryView|
            #[trigger] report_of(cats).projects.contains(s) ==> s.items.to_multiset() == counted_at(
                cats,
                s.path,
            ) && s.total_size == counted_bytes_at(cats, s.path) && (first_at(cats, s.path) matches Some(
                f,
            ) && s.name == f.1.name && s.ecosystem == f.0 && s.last_modified == f.1.last_modified),
        forall|c: int, i: int|
            0 <= c < cats.len() && 0 <= i < cats[c].projects.len() ==> #[trigger] has_entry_for(
                report_of(cats).projects,
                cats[c].projects[i].path,
            ),
        forall|a: int, b: int|
            0 <= a < b < report_of(cats).projects.len() ==> !same_path(
                #[trigger] report_of(cats).projects[a].path,
                #[trigger] report_of(cats).projects[b].path,
            ),
{
    broadcast use vstd::seq_lib::group_to_multiset_ensures;

    let ds = drafts_of(cats);
    let sums = ds.map_values(|d: SummaryDraft| summary_of(d));
    let rep = report_of(cats).projects;
    assert(rep == sort_by_size(sums));
    lemma_sort_by_size_permutation(sums);
    lemma_cats(cats, Seq::<char>::empty());
    assert forall|s: ProjectSummaryView| #[trigger] rep.contains(s) implies s.items.to_multiset()
        == counted_at(cats, s.path) && s.total_size == counted_bytes_at(cats, s.path) && (first_at(
        cats,
        s.path,
    ) matches Some(f) && s.name == f.1.name && s.ecosystem == f.0 && s.last_modified
        == f.1.last_modified) by {
        assert(rep.to_multiset().count(s) > 0);
        assert(sums.contains(s));
        let i = choose|i: int| 0 <= i < sums.len() && sums[i] == s;
        lemma_cats(cats, ds[i].path);
    }
    assert forall|c: int, i: int| 0 <= c < cats.len() && 0 <= i < cats[c].projects.len() implies #[trigger] has_entry_for(
        rep,
        cats[c].projects[i].path,
    ) by {
        let q = cats[c].projects[i].path;
        lemma_first_at(cats, c, i);
        lemma_cats(cats, q);
        lemma_find_draft(ds, q);
        let k = find_draft(ds, q);
        let s = sums[k];
        assert(sums.contains(s));
        assert(sums.to_multiset().count(s) > 0);
        assert(rep.to_multiset().count(s) > 0);
        assert(rep.contains(s));
    }
    assert forall|x: ProjectSummaryView| sums.to_multiset().contains(x) implies sums.to_multiset().count(
        x,
    ) == 1 by {
        assert(sums.no_duplicates()) by {
            assert forall|i: int, j: int| 0 <= i < sums.len() && 0 <= j < sums.len() && i != j implies sums[i]
                != sums[j] by {
                assert(find_draft(ds, ds[i].path) == i);
                assert(find_draft(ds, ds[j].path) == j);
                if sums[i] == sums[j] {
                    assert(ds[i].path == ds[j].path);
                }
            }
        }
        sums.lemma_multiset_has_no_duplicates();
    }
    assert forall|x: ProjectSummaryView| rep.to_multiset().contains(x) implies rep.to_multiset().count(x)
        == 1 by {
        assert(sums.to_multiset().contains(x));
    }
    rep.lemma_multiset_has_no_duplicates_conv();
    assert forall|a: int, b: int| 0 <= a < b < rep.len() implies !same_path(
        #[trigger] rep[a].path,
        #[trigger] rep[b].path,
    ) by {
        assert(rep.contains(rep[a]));
        assert(rep.contains(rep[b]));
        assert(rep.to_multiset().count(rep[a]) > 0);
        assert(rep.to_multiset().count(rep[b]) > 0);
        assert(sums.contains(rep[a]));
        assert(sums.contains(rep[b]));
        let i = choose|i: int| 0 <= i < sums.len() && sums[i] == rep[a];
        let j = choose|j: int| 0 <= j < sums.len() && sums[j] == rep[b];
        if same_path(rep[a].path, rep[b].path) {
            lemma_find_draft(ds, ds[i].path);
            assert(find_draft(ds, ds[i].path) == i);
            assert(find_draft(ds, ds[j].path) == j);
            assert(same_path(ds[i].path, ds[j].path));
            lemma_find_first(ds, ds[j].path, i);
            assert(rep[a] == rep[b]);
        }
    }
}

} // verus!
