//! The printed scan report: which roots are scanned, and which lines the
//! report has.
use vstd::prelude::*;
use crate::engine::config::Config;
use crate::engine::scanner::sum_found;
use crate::models::scan::{
    categories_view, found_total, CacheItemView, CategoryReportView, ItemStatus,
    ProjectReportView, ScanReport,
};
use crate::utils::text::{clone_strings, strings_view};

verus! {

/// The roots a scan covers: the paths given, or else the configured roots.
pub fn scan_roots(paths: Vec<String>, config: &Config) -> (r: Vec<String>)
    ensures
        paths@.len() > 0 ==> r@ == paths@,
        paths@.len() == 0 ==> strings_view(r@) == strings_view(config.project_roots@),
{
    if paths.len() > 0 {
        paths
    } else {
        clone_strings(&config.project_roots)
    }
}

/// One line of the printed report, by position in the report.
#[derive(Debug, Clone, Copy, PartialEq, Eq, Structural)]
pub enum ReportLine {
    /// Category `c`'s heading.
    Category(usize),
    /// Category `c` was not detected.
    NotDetected(usize),
    /// Global item `i` of category `c`.
    GlobalItem(usize, usize),
    /// The size of category `c`'s found global items.
    GlobalSubtotal(usize, u64),
    /// Project `p` of category `c`.
    Project(usize, usize),
    /// Item `i` of project `p` of category `c`.
    ProjectItem(usize, usize, usize),
    /// The total of project `p` of category `c`.
    ProjectSubtotal(usize, usize),
}

/// Lines for the found global items among the first `n`.
pub open spec fn global_lines(c: int, items: Seq<CacheItemView>, n: int) -> Seq<ReportLine>
    decreases n,
{
    if n <= 0 {
        seq![]
    } else if items[n - 1].status == ItemStatus::Found {
        global_lines(c, items, n - 1).push(ReportLine::GlobalItem(c as usize, (n - 1) as usize))
    } else {
        global_lines(c, items, n - 1)
    }
}

/// Lines for the found, non-empty items among the first `n` of a project.
pub open spec fn project_item_lines(c: int, p: int, items: Seq<CacheItemView>, n: int) -> Seq<
    ReportLine,
>
    decreases n,
{
    if n <= 0 {
        seq![]
    } else if items[n - 1].status == ItemStatus::Found && items[n - 1].size_bytes != 0 {
        project_item_lines(c, p, items, n - 1).push(
            ReportLine::ProjectItem(c as usize, p as usize, (n - 1) as usize),
        )
    } else {
        project_item_lines(c, p, items, n - 1)
    }
}

/// Lines for the first `n` projects: a project of total 0 is left out.
pub open spec fn project_lines(c: int, ps: Seq<ProjectReportView>, n: int) -> Seq<ReportLine>
    decreases n,
{
    if n <= 0 {
        seq![]
    } else if ps[n - 1].total_size == 0 {
        project_lines(c, ps, n - 1)
    } else {
        let p = n - 1;
        project_lines(c, ps, n - 1) + seq![ReportLine::Project(c as usize, p as usize)]
            + project_item_lines(c, p, ps[p].items, ps[p].items.len() as int) + seq![
            ReportLine::ProjectSubtotal(c as usize, p as usize),
        ]
    }
}

pub open spec fn has_found(items: Seq<CacheItemView>) -> bool {
    exists|k: int| 0 <= k < items.len() && #[trigger] items[k].status == ItemStatus::Found
}

/// The lines of one category.
pub open spec fn category_lines(c: int, cat: CategoryReportView) -> Seq<ReportLine> {
    if !cat.is_detected {
        seq![ReportLine::Category(c as usize), ReportLine::NotDetected(c as usize)]
    } else {
        seq![ReportLine::Category(c as usize)] + global_lines(
            c,
            cat.global_items,
            cat.global_items.len() as int,
        ) + (if has_found(cat.global_items) {
            seq![ReportLine::GlobalSubtotal(c as usize, found_total(cat.global_items) as u64)]
        } else {
            seq![]
        }) + project_lines(c, cat.projects, cat.projects.len() as int)
    }
}

/// The lines of the first `n` categories.
pub open spec fn report_lines_of(cats: Seq<CategoryReportView>, n: int) -> Seq<ReportLine>
    decreases n,
{
    if n <= 0 {
        seq![]
    } else {
        report_lines_of(cats, n - 1) + category_lines(n - 1, cats[n - 1])
    }
}

/// Whether every detected category's found global items add up within a `u64`.
pub open spec fn subtotals_fit(cats: Seq<CategoryReportView>) -> bool {
    forall|k: int|
        0 <= k < cats.len() && (#[trigger] cats[k]).is_detected ==> found_total(cats[k].global_items)
            <= u64::MAX
}

fn push_all(out: &mut Vec<ReportLine>, more: Vec<ReportLine>)
    ensures
        final(out)@ == old(out)@ + more@,
{
    let mut more = more;
    out.append(&mut more);
}

/// The lines of the printed report, in order: for each category its
/// heading, then either "not detected" or its found global items with their
/// subtotal (when there is one) and each non-empty project with its found,
/// non-empty items and its total. `None` when a subtotal would not fit in a
/// `u64`.
pub fn report_lines(report: &ScanReport) -> (r: Option<Vec<ReportLine>>)
    ensures
        r is Some <==> subtotals_fit(categories_view(report.categories@)),
        r matches Some(v) ==> v@ == report_lines_of(
            categories_view(report.categories@),
            report.categories@.len() as int,
        ),
{
    let ghost cv = categories_view(report.categories@);
    let mut out: Vec<ReportLine> = Vec::new();
    for c in 0..report.categories.len()
        invariant
            cv == categories_view(report.categories@),
            out@ == report_lines_of(cv, c as int),
            forall|k: int|
                0 <= k < c && (#[trigger] cv[k]).is_detected ==> found_total(cv[k].global_items)
                    <= u64::MAX,
    {
        let cat = &report.categories[c];
        assert(cv[c as int] == cat@);
        let mut lines: Vec<ReportLine> = Vec::new();
        lines.push(ReportLine::Category(c));
        if !cat.is_detected {
            lines.push(ReportLine::NotDetected(c));
            assert(lines@ =~= category_lines(c as int, cat@));
        } else {
            let subtotal = sum_found(&cat.global_items);
            if subtotal.is_none() {
                assert(!subtotals_fit(cv));
                return None;
            }
            let mut any = false;
            for i in 0..cat.global_items.len()
                invariant
                    lines@ == seq![ReportLine::Category(c)] + global_lines(
                        c as int,
                        cat@.global_items,
                        i as int,
                    ),
                    any == exists|k: int|
                        0 <= k < i && #[trigger] cat@.global_items[k].status == ItemStatus::Found,
            {
                assert(cat@.global_items[i as int] == cat.global_items@[i as int]@);
                if cat.global_items[i].status == ItemStatus::Found {
                    lines.push(ReportLine::GlobalItem(c, i));
                    any = true;
                }
                assert(lines@ =~= seq![ReportLine::Category(c)] + global_lines(
                    c as int,
                    cat@.global_items,
                    i + 1,
                ));
            }
            if any {
                match subtotal {
                    Some(t) => {
                        lines.push(ReportLine::GlobalSubtotal(c, t));
                    },
                    None => {},
                }
            }
            let ghost head = lines@;
            for p in 0..cat.projects.len()
                invariant
                    lines@ == head + project_lines(c as int, cat@.projects, p as int),
            {
                let proj = &cat.projects[p];
                assert(cat@.projects[p as int] == proj@);
                if proj.total_size != 0 {
                    let mut block: Vec<ReportLine> = Vec::new();
                    block.push(ReportLine::Project(c, p));
                    for i in 0..proj.items.len()
                        invariant
                            block@ == seq![ReportLine::Project(c, p)] + project_item_lines(
                                c as int,
                                p as int,
                                proj@.items,
                                i as int,
                            ),
                    {
                        assert(proj@.items[i as int] == proj.items@[i as int]@);
                        if proj.items[i].status == ItemStatus::Found && proj.items[i].size_bytes != 0 {
                            block.push(ReportLine::ProjectItem(c, p, i));
                        }
                        assert(block@ =~= seq![ReportLine::Project(c, p)] + project_item_lines(
                            c as int,
                            p as int,
                            proj@.items,
                            i + 1,
                        ));
                    }
                    block.push(ReportLine::ProjectSubtotal(c, p));
                    push_all(&mut lines, block);
                }
                assert(lines@ =~= head + project_lines(c as int, cat@.projects, p + 1));
            }
            assert(lines@ =~= category_lines(c as int, cat@));
        }
        push_all(&mut out, lines);
    }
    Some(out)
}

} // verus!
