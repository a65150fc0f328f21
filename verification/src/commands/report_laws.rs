//! What the printed report shows of the items that a scan found.
use vstd::prelude::*;
use crate::commands::scan::{
    category_lines, global_lines, project_item_lines, project_lines, report_lines_of,
    ReportLine,
};
use crate::models::scan::{
    found_total, size_total, CacheItemView, CategoryReportView, ItemStatus, ProjectReportView,
};

verus! {

proof fn lemma_concat_contains<T>(a: Seq<T>, b: Seq<T>, x: T)
    ensures
        (a + b).contains(x) <==> a.contains(x) || b.contains(x),
{
    if (a + b).contains(x) {
        let k = choose|k: int| 0 <= k < (a + b).len() && (a + b)[k] == x;
        if k < a.len() {
            assert(a[k] == x);
        } else {
            assert(b[k - a.len()] == x);
        }
    }
    if a.contains(x) {
        let k = choose|k: int| 0 <= k < a.len() && a[k] == x;
        assert((a + b)[k] == x);
    }
    if b.contains(x) {
        let k = choose|k: int| 0 <= k < b.len() && b[k] == x;
        assert((a + b)[k + a.len()] == x);
    }
}

proof fn lemma_global_lines(c: int, items: Seq<CacheItemView>, n: int)
    requires
        0 <= c <= usize::MAX,
        0 <= n <= items.len() <= usize::MAX,
    ensures
        forall|l: ReportLine|
            #[trigger] global_lines(c, items, n).contains(l) ==> (l matches ReportLine::GlobalItem(
                d,
                i,
            ) && d == c && i < n && items[i as int].status == ItemStatus::Found),
        forall|i: int|
            0 <= i < n && #[trigger] items[i].status == ItemStatus::Found ==> global_lines(
                c,
                items,
                n,
            ).contains(ReportLine::GlobalItem(c as usize, i as usize)),
    decreases n,
{
    if n > 0 {
        lemma_global_lines(c, items, n - 1);
        let prev = global_lines(c, items, n - 1);
        let x = ReportLine::GlobalItem(c as usize, (n - 1) as usize);
        if items[n - 1].status == ItemStatus::Found {
            assert forall|l: ReportLine| #[trigger] global_lines(c, items, n).contains(l) implies (
            l matches ReportLine::GlobalItem(d, i) && d == c && i < n && items[i as int].status
                == ItemStatus::Found) by {
                lemma_concat_contains(prev, seq![x], l);
                assert(prev + seq![x] == prev.push(x));
                if !prev.contains(l) {
                    assert(seq![x][0] == x);
                    assert(l == x);
                }
            }
            assert forall|i: int|
                0 <= i < n && #[trigger] items[i].status == ItemStatus::Found implies global_lines(
                c,
                items,
                n,
            ).contains(ReportLine::GlobalItem(c as usize, i as usize)) by {
                assert(prev + seq![x] == prev.push(x));
                if i < n - 1 {
                    lemma_concat_contains(prev, seq![x], ReportLine::GlobalItem(c as usize, i as usize));
                } else {
                    assert(prev.push(x)[prev.len() as int] == x);
                }
            }
        } else {
            assert forall|i: int|
                0 <= i < n && #[trigger] items[i].status == ItemStatus::Found implies global_lines(
                c,
                items,
                n,
            ).contains(ReportLine::GlobalItem(c as usize, i as usize)) by {
                assert(i < n - 1);
            }
        }
    }
}

proof fn lemma_project_item_lines(c: int, p: int, items: Seq<CacheItemView>, n: int)
    requires
        0 <= c <= usize::MAX,
        0 <= p <= usize::MAX,
        0 <= n <= items.len() <= usize::MAX,
    ensures
        forall|l: ReportLine|
            #[trigger] project_item_lines(c, p, items, n).contains(l) ==> (
            l matches ReportLine::ProjectItem(d, q, i) && d == c && q == p && i < n && items[i as int].status
                == ItemStatus::Found && items[i as int].size_bytes != 0),
        forall|i: int|
            0 <= i < n && #[trigger] items[i].status == ItemStatus::Found && items[i].size_bytes != 0
                ==> project_item_lines(c, p, items, n).contains(
                ReportLine::ProjectItem(c as usize, p as usize, i as usize),
            ),
    decreases n,
{
    if n > 0 {
        lemma_project_item_lines(c, p, items, n - 1);
        let prev = project_item_lines(c, p, items, n - 1);
        let x = ReportLine::ProjectItem(c as usize, p as usize, (n - 1) as usize);
        if items[n - 1].status == ItemStatus::Found && items[n - 1].size_bytes != 0 {
            assert(prev + seq![x] == prev.push(x));
            assert forall|l: ReportLine| #[trigger] project_item_lines(c, p, items, n).contains(
                l,
            ) implies (l matches ReportLine::ProjectItem(d, q, i) && d == c && q == p && i < n
                && items[i as int].status == ItemStatus::Found && items[i as int].size_bytes != 0) by {
                lemma_concat_contains(prev, seq![x], l);
                if !prev.contains(l) {
                    assert(seq![x][0] == x);
                    assert(l == x);
                }
            }
            assert forall|i: int|
                0 <= i < n && #[trigger] items[i].status == ItemStatus::Found && items[i].size_bytes
                    != 0 implies project_item_lines(c, p, items, n).contains(
                ReportLine::ProjectItem(c as usize, p as usize, i as usize),
            ) by {
                if i < n - 1 {
                    lemma_concat_contains(
                        prev,
                        seq![x],
                        ReportLine::ProjectItem(c as usize, p as usize, i as usize),
                    );
                } else {
                    assert(prev.push(x)[prev.len() as int] == x);
                }
            }
        } else {
            assert forall|i: int|
                0 <= i < n && #[trigger] items[i].status == ItemStatus::Found && items[i].size_bytes
                    != 0 implies project_item_lines(c, p, items, n).contains(
                ReportLine::ProjectItem(c as usize, p as usize, i as usize),
            ) by {
                assert(i < n - 1);
            }
        }
    }
}

/// What a line of a category's project part says of project report `ps`.
pub open spec fn project_line_ok(c: int, ps: Seq<ProjectReportView>, n: int, l: ReportLine) -> bool {
    match l {
        ReportLine::Project(d, p) => d == c && p < n && ps[p as int].total_size != 0,
        ReportLine::ProjectItem(d, p, i) => d == c && p < n && ps[p as int].total_size != 0 && i
            < ps[p as int].items.len() && ps[p as int].items[i as int].status == ItemStatus::Found
            && ps[p as int].items[i as int].size_bytes != 0,
        ReportLine::ProjectSubtotal(d, p) => d == c && p < n && ps[p as int].total_size != 0,
        _ => false,
    }
}

proof fn lemma_project_lines(c: int, ps: Seq<ProjectReportView>, n: int)
    requires
        0 <= c <= usize::MAX,
        0 <= n <= ps.len() <= usize::MAX,
        forall|p: int| 0 <= p < ps.len() ==> (#[trigger] ps[p]).items.len() <= usize::MAX,
    ensures
        forall|l: ReportLine| #[trigger] project_lines(c, ps, n).contains(l) ==> project_line_ok(c, ps, n, l),
        forall|p: int|
            0 <= p < n && (#[trigger] ps[p]).total_size != 0 ==> project_lines(c, ps, n).contains(
                ReportLine::Project(c as usize, p as usize),
            ),
        forall|p: int, i: int|
            0 <= p < n && ps[p].total_size != 0 && 0 <= i < ps[p].items.len()
                && #[trigger] ps[p].items[i].status == ItemStatus::Found && ps[p].items[i].size_bytes != 0
                ==> project_lines(c, ps, n).contains(
                ReportLine::ProjectItem(c as usize, p as usize, i as usize),
            ),
    decreases n,
{
    if n > 0 {
        lemma_project_lines(c, ps, n - 1);
        let p0 = n - 1;
        let prev = project_lines(c, ps, n - 1);
        let cur = project_lines(c, ps, n);
        assert forall|l: ReportLine| #[trigger] prev.contains(l) implies project_line_ok(c, ps, n, l) by {
            assert(project_line_ok(c, ps, n - 1, l));
        }
        if ps[p0].total_size != 0 {
            assert(ps[p0].items.len() <= usize::MAX);
            let head = seq![ReportLine::Project(c as usize, p0 as usize)];
            let items = project_item_lines(c, p0, ps[p0].items, ps[p0].items.len() as int);
            let tail = seq![ReportLine::ProjectSubtotal(c as usize, p0 as usize)];
            assert(cur == prev + head + items + tail);
            lemma_project_item_lines(c, p0, ps[p0].items, ps[p0].items.len() as int);
            assert forall|l: ReportLine| #[trigger] cur.contains(l) implies project_line_ok(c, ps, n, l) by {
                lemma_concat_contains(prev + head + items, tail, l);
                lemma_concat_contains(prev + head, items, l);
                lemma_concat_contains(prev, head, l);
                if head.contains(l) {
                    assert(head[0] == l);
                }
                if tail.contains(l) {
                    assert(tail[0] == l);
                }
            }
            assert forall|p: int| 0 <= p < n && (#[trigger] ps[p]).total_size != 0 implies cur.contains(
                ReportLine::Project(c as usize, p as usize),
            ) by {
                let x = ReportLine::Project(c as usize, p as usize);
                lemma_concat_contains(prev + head + items, tail, x);
                lemma_concat_contains(prev + head, items, x);
                lemma_concat_contains(prev, head, x);
                if p == p0 {
                    assert(head[0] == x);
                }
            }
            assert forall|p: int, i: int|
                0 <= p < n && ps[p].total_size != 0 && 0 <= i < ps[p].items.len()
                    && #[trigger] ps[p].items[i].status == ItemStatus::Found && ps[p].items[i].size_bytes
                    != 0 implies cur.contains(ReportLine::ProjectItem(c as usize, p as usize, i as usize)) by {
                let x = ReportLine::ProjectItem(c as usize, p as usize, i as usize);
                lemma_concat_contains(prev + head + items, tail, x);
                lemma_concat_contains(prev + head, items, x);
                lemma_concat_contains(prev, head, x);
            }
        } else {
            assert(cur == prev);
        }
    }
}

/// The found items among `items`, in order.
pub open spec fn found_items(items: Seq<CacheItemView>) -> Seq<CacheItemView> {
    items.filter(|x: CacheItemView| x.status == ItemStatus::Found)
}

proof fn lemma_found_total(items: Seq<CacheItemView>)
    ensures
        found_total(items) == size_total(found_items(items)),
    decreases items.len(),
{
    reveal(Seq::filter);
    if items.len() > 0 {
        lemma_found_total(items.drop_last());
        let f = found_items(items.drop_last());
        if items.last().status == ItemStatus::Found {
            assert(found_items(items) == f.push(items.last()));
            assert(f.push(items.last()).drop_last() =~= f);
        } else {
            assert(found_items(items) == f);
        }
    }
}

/// What a line of the printed report says of the categories `cats`: a
/// heading is of a category; "not detected" of one that was not detected;
/// the other lines of one that was: an item line of a found item (a
/// project's, of a non-empty project, and not empty itself), and the global
/// subtotal, shown only when a global item was found, the size of the found
/// global items.
pub open spec fn report_line_ok(cats: Seq<CategoryReportView>, l: ReportLine) -> bool {
    match l {
        ReportLine::Category(c) => c < cats.len(),
        ReportLine::NotDetected(c) => c < cats.len() && !cats[c as int].is_detected,
        ReportLine::GlobalItem(c, i) => c < cats.len() && cats[c as int].is_detected && i
            < cats[c as int].global_items.len() && cats[c as int].global_items[i as int].status
            == ItemStatus::Found,
        ReportLine::GlobalSubtotal(c, t) => c < cats.len() && cats[c as int].is_detected && (exists|
            i: int,
        |
            0 <= i < cats[c as int].global_items.len() && #[trigger] cats[c as int].global_items[i].status
                == ItemStatus::Found) && t == size_total(found_items(cats[c as int].global_items)) as u64,
        ReportLine::Project(c, p) => c < cats.len() && cats[c as int].is_detected && p
            < cats[c as int].projects.len() && cats[c as int].projects[p as int].total_size != 0,
        ReportLine::ProjectItem(c, p, i) => c < cats.len() && cats[c as int].is_detected && p
            < cats[c as int].projects.len() && cats[c as int].projects[p as int].total_size != 0 && i
            < cats[c as int].projects[p as int].items.len()
            && cats[c as int].projects[p as int].items[i as int].status == ItemStatus::Found
            && cats[c as int].projects[p as int].items[i as int].size_bytes != 0,
        ReportLine::ProjectSubtotal(c, p) => c < cats.len() && cats[c as int].is_detected && p
            < cats[c as int].projects.len() && cats[c as int].projects[p as int].total_size != 0,
    }
}

/// The sizes of the report's parts fit the indices of its lines.
pub open spec fn indexable(cats: Seq<CategoryReportView>) -> bool {
    &&& cats.len() <= usize::MAX
    &&& forall|c: int|
        0 <= c < cats.len() ==> (#[trigger] cats[c]).global_items.len() <= usize::MAX
            && cats[c].projects.len() <= usize::MAX
    &&& forall|c: int, p: int|
        0 <= c < cats.len() && 0 <= p < cats[c].projects.len() ==> (#[trigger] cats[c].projects[p]).items.len()
            <= usize::MAX
}

/// The printed report shows exactly what a scan found in the detected
/// categories: each line is as `report_line_ok` says, so no item that was
/// not found is listed (nor a project item that is empty, nor an empty
/// project); and every found global item of a detected category, every
/// non-empty project of one, and every found, non-empty item of such a
/// project has its line, as has every category's heading, "not detected"
/// for each category that was not, and the global subtotal of each detected
/// category with a found global item.
pub proof fn law_report_lists_what_was_found(cats: Seq<CategoryReportView>)
    requires
        indexable(cats),
    ensures
        forall|l: ReportLine|
            #[trigger] report_lines_of(cats, cats.len() as int).contains(l) ==> report_line_ok(cats, l),
        forall|c: int, i: int|
            0 <= c < cats.len() && 0 <= i < cats[c].global_items.len() && cats[c].is_detected
                && #[trigger] cats[c].global_items[i].status == ItemStatus::Found
                ==> report_lines_of(cats, cats.len() as int).contains(
                ReportLine::GlobalItem(c as usize, i as usize),
            ),
        forall|c: int, p: int|
            0 <= c < cats.len() && 0 <= p < cats[c].projects.len() && cats[c].is_detected
                && (#[trigger] cats[c].projects[p]).total_size != 0 ==> report_lines_of(
                cats,
                cats.len() as int,
            ).contains(ReportLine::Project(c as usize, p as usize)),
        forall|c: int, p: int, i: int|
            0 <= c < cats.len() && 0 <= p < cats[c].projects.len() && cats[c].is_detected
                && cats[c].projects[p].total_size != 0 && 0 <= i < cats[c].projects[p].items.len()
                && #[trigger] cats[c].projects[p].items[i].status == ItemStatus::Found
                && cats[c].projects[p].items[i].size_bytes != 0 ==> report_lines_of(
                cats,
                cats.len() as int,
            ).contains(ReportLine::ProjectItem(c as usize, p as usize, i as usize)),
        forall|c: int| 0 <= c < cats.len() ==> #[trigger] report_lines_of(cats, cats.len() as int).contains(
            ReportLine::Category(c as usize),
        ),
        forall|c: int|
            0 <= c < cats.len() && !(#[trigger] cats[c]).is_detected ==> report_lines_of(cats, cats.len() as int).contains(
                ReportLine::NotDetected(c as usize),
            ),
        forall|c: int, i: int|
            0 <= c < cats.len() && (#[trigger] cats[c]).is_detected && 0 <= i < cats[c].global_items.len()
                && #[trigger] cats[c].global_items[i].status == ItemStatus::Found ==> report_lines_of(
                cats,
                cats.len() as int,
            ).contains(
                ReportLine::GlobalSubtotal(
                    c as usize,
                    size_total(found_items(cats[c].global_items)) as u64,
                ),
            ),
{
    lemma_report(cats, cats.len() as int);
}

proof fn lemma_report(cats: Seq<CategoryReportView>, n: int)
    requires
        0 <= n <= cats.len(),
        indexable(cats),
    ensures
        forall|l: ReportLine|
            #[trigger] report_lines_of(cats, n).contains(l) ==> report_line_ok(cats, l),
        forall|c: int, i: int|
            0 <= c < n && 0 <= i < cats[c].global_items.len() && cats[c].is_detected
                && #[trigger] cats[c].global_items[i].status == ItemStatus::Found
                ==> report_lines_of(cats, n).contains(ReportLine::GlobalItem(c as usize, i as usize)),
        forall|c: int, p: int|
            0 <= c < n && 0 <= p < cats[c].projects.len() && cats[c].is_detected
                && (#[trigger] cats[c].projects[p]).total_size != 0 ==> report_lines_of(
                cats,
                n,
            ).contains(ReportLine::Project(c as usize, p as usize)),
        forall|c: int, p: int, i: int|
            0 <= c < n && 0 <= p < cats[c].projects.len() && cats[c].is_detected
                && cats[c].projects[p].total_size != 0 && 0 <= i < cats[c].projects[p].items.len()
                && #[trigger] cats[c].projects[p].items[i].status == ItemStatus::Found
                && cats[c].projects[p].items[i].size_bytes != 0 ==> report_lines_of(
                cats,
                n,
            ).contains(ReportLine::ProjectItem(c as usize, p as usize, i as usize)),
        forall|c: int| 0 <= c < n ==> #[trigger] report_lines_of(cats, n).contains(
            ReportLine::Category(c as usize),
        ),
        forall|c: int|
            0 <= c < n && !(#[trigger] cats[c]).is_detected ==> report_lines_of(cats, n).contains(
                ReportLine::NotDetected(c as usize),
            ),
        forall|c: int, i: int|
            0 <= c < n && (#[trigger] cats[c]).is_detected && 0 <= i < cats[c].global_items.len()
                && #[trigger] cats[c].global_items[i].status == ItemStatus::Found ==> report_lines_of(
                cats,
                n,
            ).contains(
                ReportLine::GlobalSubtotal(
                    c as usize,
                    size_total(found_items(cats[c].global_items)) as u64,
                ),
            ),
    decreases n,
{
    if n > 0 {
        lemma_report(cats, n - 1);
        let c0 = n - 1;
        let cat = cats[c0];
        let prev = report_lines_of(cats, n - 1);
        let here = category_lines(c0, cat);
        let gi = cat.global_items;
        let ps = cat.projects;
        let gl = global_lines(c0, gi, gi.len() as int);
        let sub = if crate::commands::scan::has_found(gi) {
            seq![
                ReportLine::GlobalSubtotal(
                    c0 as usize,
                    found_total(gi) as u64,
                ),
            ]
        } else {
            seq![]
        };
        let pl = project_lines(c0, ps, ps.len() as int);
        let head = seq![ReportLine::Category(c0 as usize)];
        assert(cats[c0] == cat);
        assert(forall|p: int| 0 <= p < ps.len() ==> #[trigger] ps[p] == cats[c0].projects[p]);
        lemma_global_lines(c0, gi, gi.len() as int);
        lemma_project_lines(c0, ps, ps.len() as int);
        lemma_found_total(gi);
        assert(report_lines_of(cats, n) == prev + here);
        if cat.is_detected {
            assert(here == head + gl + sub + pl);
        }
        assert forall|l: ReportLine| #[trigger] report_lines_of(cats, n).contains(l) implies report_line_ok(
            cats,
            l,
        ) by {
            lemma_concat_contains(prev, here, l);
            if here.contains(l) {
                if cat.is_detected {
                    lemma_concat_contains(head + gl + sub, pl, l);
                    lemma_concat_contains(head + gl, sub, l);
                    lemma_concat_contains(head, gl, l);
                    if head.contains(l) {
                        assert(head[0] == l);
                    }
                    if sub.contains(l) {
                        assert(sub[0] == l);
                    }
                    if pl.contains(l) {
                        assert(project_line_ok(c0, ps, ps.len() as int, l));
                    }
                } else {
                    let k = choose|k: int| 0 <= k < here.len() && here[k] == l;
                    assert(k == 0 || k == 1);
                }
            }
        }
        assert forall|c: int, i: int|
            0 <= c < n && 0 <= i < cats[c].global_items.len() && cats[c].is_detected
                && #[trigger] cats[c].global_items[i].status == ItemStatus::Found
                implies report_lines_of(cats, n).contains(
            ReportLine::GlobalItem(c as usize, i as usize),
        ) by {
            let x = ReportLine::GlobalItem(c as usize, i as usize);
            lemma_concat_contains(prev, here, x);
            if c == c0 {
                lemma_concat_contains(head + gl + sub, pl, x);
                lemma_concat_contains(head + gl, sub, x);
                lemma_concat_contains(head, gl, x);
            }
        }
        assert forall|c: int, p: int|
            0 <= c < n && 0 <= p < cats[c].projects.len() && cats[c].is_detected
                && (#[trigger] cats[c].projects[p]).total_size != 0 implies report_lines_of(
            cats,
            n,
        ).contains(ReportLine::Project(c as usize, p as usize)) by {
            let x = ReportLine::Project(c as usize, p as usize);
            lemma_concat_contains(prev, here, x);
            if c == c0 {
                assert(ps[p] == cats[c].projects[p]);
                lemma_concat_contains(head + gl + sub, pl, x);
            }
        }
        assert forall|c: int, p: int, i: int|
            0 <= c < n && 0 <= p < cats[c].projects.len() && cats[c].is_detected
                && cats[c].projects[p].total_size != 0 && 0 <= i < cats[c].projects[p].items.len()
                && #[trigger] cats[c].projects[p].items[i].status == ItemStatus::Found
                && cats[c].projects[p].items[i].size_bytes != 0 implies report_lines_of(
            cats,
            n,
        ).contains(ReportLine::ProjectItem(c as usize, p as usize, i as usize)) by {
            let x = ReportLine::ProjectItem(c as usize, p as usize, i as usize);
            lemma_concat_contains(prev, here, x);
            if c == c0 {
                assert(ps[p] == cats[c].projects[p]);
                assert(ps[p].items[i] == cats[c].projects[p].items[i]);
                lemma_concat_contains(head + gl + sub, pl, x);
            }
        }
        assert forall|c: int| 0 <= c < n implies #[trigger] report_lines_of(cats, n).contains(
            ReportLine::Category(c as usize),
        ) by {
            let x = ReportLine::Category(c as usize);
            lemma_concat_contains(prev, here, x);
            if c == c0 {
                assert(here[0] == x);
            }
        }
        assert forall|c: int|
            0 <= c < n && !(#[trigger] cats[c]).is_detected implies report_lines_of(cats, n).contains(
            ReportLine::NotDetected(c as usize),
        ) by {
            let x = ReportLine::NotDetected(c as usize);
            lemma_concat_contains(prev, here, x);
            if c == c0 {
                assert(here[1] == x);
            }
        }
        assert forall|c: int, i: int|
            0 <= c < n && (#[trigger] cats[c]).is_detected && 0 <= i < cats[c].global_items.len()
                && #[trigger] cats[c].global_items[i].status == ItemStatus::Found implies report_lines_of(
            cats,
            n,
        ).contains(
            ReportLine::GlobalSubtotal(c as usize, size_total(found_items(cats[c].global_items)) as u64),
        ) by {
            let x = ReportLine::GlobalSubtotal(
                c as usize,
                size_total(found_items(cats[c].global_items)) as u64,
            );
            lemma_concat_contains(prev, here, x);
            if c == c0 {
                assert(crate::commands::scan::has_found(gi));
                assert(sub[0] == x);
                lemma_concat_contains(head + gl + sub, pl, x);
                lemma_concat_contains(head + gl, sub, x);
            }
        }
    }
}

} // verus!
