//! The rows of the dashboard's two lists, built from a scan report.
use vstd::prelude::*;
use crate::engine::report::{push_kept_items, sum_item_sizes, summary_items};
use crate::models::scan::{
    categories_view, items_view, size_total, summaries_view, CacheItem, CacheItemView,
    CategoryReportView, CommandCacheItemView, ItemStatus, ProjectSummaryView, ScanReport,
};
use crate::utils::paths::{file_name, file_name_of, parent, parent_of};
use crate::utils::text::{clone_opt, concat, concat3, opt_chars, str_eq};

verus! {

/// What a row of the cache list shows.
#[derive(Clone, Copy, Debug, PartialEq, Eq, Structural)]
pub enum RowKind {
    EcoHeader { cat_idx: usize },
    GlobalItem { cat_idx: usize, item_idx: usize },
    CommandItem { cat_idx: usize, cmd_idx: usize },
}

/// What choosing a row does.
#[derive(Clone, Debug)]
pub enum RowAction {
    Delete,
    RunCommand(String),
    Nothing,
}

/// A row of the cache list.
#[derive(Clone, Debug)]
pub struct Row {
    pub kind: RowKind,
    pub selectable: bool,
    pub label: String,
    pub size_bytes: u64,
    pub safe: bool,
    pub last_modified: Option<u64>,
    pub path: String,
    pub action: RowAction,
    pub explanation: Option<String>,
    pub command_desc: Option<String>,
}

/// What a row of the project list shows.
#[derive(Clone, Copy, Debug, PartialEq, Eq, Structural)]
pub enum ProjRowKind {
    Header { proj_idx: usize },
    Item { proj_idx: usize, item_idx: usize },
}

/// A row of the project list.
#[derive(Clone, Debug)]
pub struct ProjRow {
    pub kind: ProjRowKind,
    pub selectable: bool,
    pub label: String,
    pub size_bytes: u64,
    pub safe: bool,
    pub last_modified: Option<u64>,
    pub path: String,
    pub explanation: Option<String>,
}

pub enum ActionView {
    Delete,
    RunCommand(Seq<char>),
    Nothing,
}

/// Mathematical view of a [`Row`].
pub struct RowView {
    pub kind: RowKind,
    pub selectable: bool,
    pub label: Seq<char>,
    pub size_bytes: u64,
    pub safe: bool,
    pub last_modified: Option<u64>,
    pub path: Seq<char>,
    pub action: ActionView,
    pub explanation: Option<Seq<char>>,
    pub command_desc: Option<Seq<char>>,
}

/// Mathematical view of a [`ProjRow`].
pub struct ProjRowView {
    pub kind: ProjRowKind,
    pub selectable: bool,
    pub label: Seq<char>,
    pub size_bytes: u64,
    pub safe: bool,
    pub last_modified: Option<u64>,
    pub path: Seq<char>,
    pub explanation: Option<Seq<char>>,
}

impl View for Row {
    type V = RowView;

    open spec fn view(&self) -> RowView {
        RowView {
            kind: self.kind,
            selectable: self.selectable,
            label: self.label@,
            size_bytes: self.size_bytes,
            safe: self.safe,
            last_modified: self.last_modified,
            path: self.path@,
            action: match self.action {
                RowAction::Delete => ActionView::Delete,
                RowAction::RunCommand(c) => ActionView::RunCommand(c@),
                RowAction::Nothing => ActionView::Nothing,
            },
            explanation: opt_chars(self.explanation),
            command_desc: opt_chars(self.command_desc),
        }
    }
}

impl View for ProjRow {
    type V = ProjRowView;

    open spec fn view(&self) -> ProjRowView {
        ProjRowView {
            kind: self.kind,
            selectable: self.selectable,
            label: self.label@,
            size_bytes: self.size_bytes,
            safe: self.safe,
            last_modified: self.last_modified,
            path: self.path@,
            explanation: opt_chars(self.explanation),
        }
    }
}

pub open spec fn rows_view(v: Seq<Row>) -> Seq<RowView> {
    v.map_values(|r: Row| r@)
}

pub open spec fn proj_rows_view(v: Seq<ProjRow>) -> Seq<ProjRowView> {
    v.map_values(|r: ProjRow| r@)
}

/// The size of a category's found, non-empty global items.
pub open spec fn global_size(c: CategoryReportView) -> int {
    size_total(summary_items(c.global_items))
}

pub open spec fn item_row_view(ci: int, k: int, it: CacheItemView) -> RowView {
    RowView {
        kind: RowKind::GlobalItem { cat_idx: ci as usize, item_idx: k as usize },
        selectable: true,
        label: "   "@ + it.name,
        size_bytes: it.size_bytes,
        safe: it.safe,
        last_modified: it.last_modified,
        path: it.path,
        action: ActionView::Delete,
        explanation: it.explanation,
        command_desc: None,
    }
}

pub open spec fn command_row_view(ci: int, k: int, c: CommandCacheItemView) -> RowView {
    RowView {
        kind: RowKind::CommandItem { cat_idx: ci as usize, cmd_idx: k as usize },
        selectable: true,
        label: "   ⚡ "@ + c.name,
        size_bytes: 0,
        safe: c.safe,
        last_modified: None,
        path: Seq::<char>::empty(),
        action: ActionView::RunCommand(c.command),
        explanation: c.explanation,
        command_desc: Some(c.description),
    }
}

pub open spec fn header_row_view(ci: int, c: CategoryReportView) -> RowView {
    RowView {
        kind: RowKind::EcoHeader { cat_idx: ci as usize },
        selectable: false,
        label: c.category,
        size_bytes: global_size(c) as u64,
        safe: true,
        last_modified: None,
        path: Seq::<char>::empty(),
        action: ActionView::Nothing,
        explanation: None,
        command_desc: None,
    }
}

/// The item rows of a category, for its first `n` global items.
pub open spec fn item_rows(ci: int, items: Seq<CacheItemView>, n: int) -> Seq<RowView>
    decreases n,
{
    if n <= 0 {
        seq![]
    } else {
        let it = items[n - 1];
        let prev = item_rows(ci, items, n - 1);
        if it.status == ItemStatus::Found && it.size_bytes > 0 {
            prev.push(item_row_view(ci, n - 1, it))
        } else {
            prev
        }
    }
}

/// The command rows of a category, for its first `n` command items.
pub open spec fn command_rows(ci: int, cmds: Seq<CommandCacheItemView>, n: int) -> Seq<RowView>
    decreases n,
{
    if n <= 0 {
        seq![]
    } else {
        command_rows(ci, cmds, n - 1).push(command_row_view(ci, n - 1, cmds[n - 1]))
    }
}

/// The rows of one category: none when it has neither found global items
/// nor commands; otherwise a header, its found, non-empty global items, and
/// its commands.
pub open spec fn category_rows(ci: int, c: CategoryReportView) -> Seq<RowView> {
    if global_size(c) == 0 && c.command_items.len() == 0 {
        seq![]
    } else {
        seq![header_row_view(ci, c)] + item_rows(ci, c.global_items, c.global_items.len() as int) + command_rows(
            ci,
            c.command_items,
            c.command_items.len() as int,
        )
    }
}

/// The cache rows of the first `n` categories.
pub open spec fn cache_rows(cats: Seq<CategoryReportView>, n: int) -> Seq<RowView>
    decreases n,
{
    if n <= 0 {
        seq![]
    } else {
        cache_rows(cats, n - 1) + category_rows(n - 1, cats[n - 1])
    }
}

/// Whether every category's found, non-empty global items add up within a `u64`.
pub open spec fn global_sizes_fit(cats: Seq<CategoryReportView>) -> bool {
    forall|k: int| 0 <= k < cats.len() ==> global_size(#[trigger] cats[k]) <= u64::MAX
}

/// The name of a path's parent directory, or empty when there is none.
pub open spec fn parent_name_of(p: Seq<char>) -> Seq<char> {
    match parent_of(p) {
        Some(q) => match file_name_of(q) {
            Some(n) => n,
            None => Seq::<char>::empty(),
        },
        None => Seq::<char>::empty(),
    }
}

/// A project's heading: `parent / name` when the directory's own name is the
/// project's name, otherwise the project's name.
pub open spec fn project_label(p: ProjectSummaryView) -> Seq<char> {
    if file_name_of(p.path) == Some(p.name) {
        parent_name_of(p.path) + " / "@ + p.name
    } else {
        p.name
    }
}

pub open spec fn proj_item_row_view(pi: int, k: int, it: CacheItemView) -> ProjRowView {
    ProjRowView {
        kind: ProjRowKind::Item { proj_idx: pi as usize, item_idx: k as usize },
        selectable: true,
        label: "   "@ + it.name,
        size_bytes: it.size_bytes,
        safe: it.safe,
        last_modified: it.last_modified,
        path: it.path,
        explanation: it.explanation,
    }
}

pub open spec fn proj_header_view(pi: int, p: ProjectSummaryView) -> ProjRowView {
    ProjRowView {
        kind: ProjRowKind::Header { proj_idx: pi as usize },
        selectable: false,
        label: project_label(p),
        size_bytes: p.total_size as u64,
        safe: true,
        last_modified: p.last_modified,
        path: p.path,
        explanation: None,
    }
}

/// The item rows of project `pi`, for its first `n` items.
pub open spec fn proj_item_rows(pi: int, items: Seq<CacheItemView>, n: int) -> Seq<ProjRowView>
    decreases n,
{
    if n <= 0 {
        seq![]
    } else {
        proj_item_rows(pi, items, n - 1).push(proj_item_row_view(pi, n - 1, items[n - 1]))
    }
}

/// The rows of one project: none when its total is 0; otherwise a heading
/// and every one of its items.
pub open spec fn project_rows(pi: int, p: ProjectSummaryView) -> Seq<ProjRowView> {
    if p.total_size == 0 {
        seq![]
    } else {
        seq![proj_header_view(pi, p)] + proj_item_rows(pi, p.items, p.items.len() as int)
    }
}

/// The project rows of the first `n` projects.
pub open spec fn proj_rows_of(ps: Seq<ProjectSummaryView>, n: int) -> Seq<ProjRowView>
    decreases n,
{
    if n <= 0 {
        seq![]
    } else {
        proj_rows_of(ps, n - 1) + project_rows(n - 1, ps[n - 1])
    }
}

/// The name of a path's parent directory, or empty when there is none.
pub fn parent_name(p: &str) -> (r: String)
    ensures
        r@ == parent_name_of(p@),
{
    match parent(p) {
        Some(q) => match file_name(q.as_str()) {
            Some(n) => n,
            None => String::new(),
        },
        None => String::new(),
    }
}

/// The size of a category's found, non-empty global items, when it fits in a `u64`.
fn global_size_exec(items: &Vec<CacheItem>) -> (r: Option<u64>)
    ensures
        r is Some <==> size_total(summary_items(items_view(items@))) <= u64::MAX,
        r matches Some(t) ==> t == size_total(summary_items(items_view(items@))),
{
    let mut kept: Vec<CacheItem> = Vec::new();
    push_kept_items(&mut kept, items);
    assert(items_view(kept@) =~= summary_items(items_view(items@)));
    sum_item_sizes(&kept)
}

/// Whether every category's found, non-empty global items add up within a
/// `u64`, as building the cache rows needs.
pub fn cache_rows_fit(report: &ScanReport) -> (r: bool)
    ensures
        r == global_sizes_fit(categories_view(report.categories@)),
{
    let ghost cv = categories_view(report.categories@);
    for k in 0..report.categories.len()
        invariant
            cv == categories_view(report.categories@),
            forall|j: int| 0 <= j < k ==> global_size(#[trigger] cv[j]) <= u64::MAX,
    {
        assert(cv[k as int] == report.categories@[k as int]@);
        if global_size_exec(&report.categories[k].global_items).is_none() {
            return false;
        }
    }
    true
}

/// The rows of the cache list: for each category that has found, non-empty
/// global items or commands, a header with the size of those items, then a
/// selectable row for each of them, then a row for each command.
pub fn build_cache_rows(report: &ScanReport) -> (rows: Vec<Row>)
    requires
        global_sizes_fit(categories_view(report.categories@)),
    ensures
        rows_view(rows@) == cache_rows(
            categories_view(report.categories@),
            report.categories@.len() as int,
        ),
{
    let ghost cv = categories_view(report.categories@);
    let mut rows: Vec<Row> = Vec::new();
    for ci in 0..report.categories.len()
        invariant
            cv == categories_view(report.categories@),
            global_sizes_fit(cv),
            rows_view(rows@) == cache_rows(cv, ci as int),
    {
        let cat = &report.categories[ci];
        assert(cv[ci as int] == cat@);
        let gs = match global_size_exec(&cat.global_items) {
            Some(t) => t,
            None => {
                assert(global_size(cv[ci as int]) <= u64::MAX);
                0
            },
        };
        if gs == 0 && cat.command_items.len() == 0 {
            assert(rows_view(rows@) =~= cache_rows(cv, ci + 1));
        } else {
            let ghost start = rows_view(rows@);
            rows.push(
                Row {
                    kind: RowKind::EcoHeader { cat_idx: ci },
                    selectable: false,
                    label: cat.category.clone(),
                    size_bytes: gs,
                    safe: true,
                    last_modified: None,
                    path: String::new(),
                    action: RowAction::Nothing,
                    explanation: None,
                    command_desc: None,
                },
            );
            assert(rows_view(rows@) =~= start.push(header_row_view(ci as int, cat@)));
            let ghost after_header = rows_view(rows@);
            for k in 0..cat.global_items.len()
                invariant
                    rows_view(rows@) == after_header + item_rows(ci as int, cat@.global_items, k as int),
            {
                let item = &cat.global_items[k];
                assert(cat@.global_items[k as int] == item@);
                if item.status == ItemStatus::Found && item.size_bytes > 0 {
                    let ghost b = rows_view(rows@);
                    rows.push(
                        Row {
                            kind: RowKind::GlobalItem { cat_idx: ci, item_idx: k },
                            selectable: true,
                            label: concat("   ", item.name.as_str()),
                            size_bytes: item.size_bytes,
                            safe: item.safe,
                            last_modified: item.last_modified,
                            path: item.path.clone(),
                            action: RowAction::Delete,
                            explanation: clone_opt(&item.explanation),
                            command_desc: None,
                        },
                    );
                    assert(rows_view(rows@) =~= b.push(item_row_view(ci as int, k as int, item@)));
                }
                assert(rows_view(rows@) =~= after_header + item_rows(
                    ci as int,
                    cat@.global_items,
                    k + 1,
                ));
            }
            let ghost after_items = rows_view(rows@);
            for k in 0..cat.command_items.len()
                invariant
                    rows_view(rows@) == after_items + command_rows(
                        ci as int,
                        cat@.command_items,
                        k as int,
                    ),
            {
                let c = &cat.command_items[k];
                assert(cat@.command_items[k as int] == c@);
                let ghost b = rows_view(rows@);
                rows.push(
                    Row {
                        kind: RowKind::CommandItem { cat_idx: ci, cmd_idx: k },
                        selectable: true,
                        label: concat("   ⚡ ", c.name.as_str()),
                        size_bytes: 0,
                        safe: c.safe,
                        last_modified: None,
                        path: String::new(),
                        action: RowAction::RunCommand(c.command.clone()),
                        explanation: clone_opt(&c.explanation),
                        command_desc: Some(c.description.clone()),
                    },
                );
                assert(rows_view(rows@) =~= b.push(command_row_view(ci as int, k as int, c@)));
                assert(rows_view(rows@) =~= after_items + command_rows(
                    ci as int,
                    cat@.command_items,
                    k + 1,
                ));
            }
            assert(rows_view(rows@) =~= cache_rows(cv, ci + 1));
        }
    }
    rows
}

/// A project's heading (`project_label`).
fn project_heading(name: &String, path: &String) -> (r: String)
    ensures
        r@ == project_label(
            ProjectSummaryView {
                name: name@,
                path: path@,
                ecosystem: Seq::<char>::empty(),
                items: seq![],
                total_size: 0,
                last_modified: None,
            },
        ),
{
    let own = file_name(path.as_str());
    let same = match &own {
        Some(n) => str_eq(n.as_str(), name.as_str()),
        None => false,
    };
    if same {
        let p = parent_name(path.as_str());
        concat3(p.as_str(), " / ", name.as_str())
    } else {
        name.clone()
    }
}

/// The rows of the project list: for each project of non-zero total, a
/// heading with its total, then a selectable row for each of its items.
pub fn build_proj_rows(report: &ScanReport) -> (rows: Vec<ProjRow>)
    ensures
        proj_rows_view(rows@) == proj_rows_of(
            summaries_view(report.projects@),
            report.projects@.len() as int,
        ),
{
    let ghost pv = summaries_view(report.projects@);
    let mut rows: Vec<ProjRow> = Vec::new();
    for pi in 0..report.projects.len()
        invariant
            pv == summaries_view(report.projects@),
            proj_rows_view(rows@) == proj_rows_of(pv, pi as int),
    {
        let proj = &report.projects[pi];
        assert(pv[pi as int] == proj@);
        if proj.total_size == 0 {
            assert(proj_rows_view(rows@) =~= proj_rows_of(pv, pi + 1));
        } else {
            let ghost start = proj_rows_view(rows@);
            let label = project_heading(&proj.name, &proj.path);
            assert(label@ == project_label(proj@));
            rows.push(
                ProjRow {
                    kind: ProjRowKind::Header { proj_idx: pi },
                    selectable: false,
                    label,
                    size_bytes: proj.total_size,
                    safe: true,
                    last_modified: proj.last_modified,
                    path: proj.path.clone(),
                    explanation: None,
                },
            );
            assert(proj_rows_view(rows@) =~= start.push(proj_header_view(pi as int, proj@)));
            let ghost after_header = proj_rows_view(rows@);
            for k in 0..proj.items.len()
                invariant
                    proj_rows_view(rows@) == after_header + proj_item_rows(
                        pi as int,
                        proj@.items,
                        k as int,
                    ),
            {
                let item = &proj.items[k];
                assert(proj@.items[k as int] == item@);
                let ghost b = proj_rows_view(rows@);
                rows.push(
                    ProjRow {
                        kind: ProjRowKind::Item { proj_idx: pi, item_idx: k },
                        selectable: true,
                        label: concat("   ", item.name.as_str()),
                        size_bytes: item.size_bytes,
                        safe: item.safe,
                        last_modified: item.last_modified,
                        path: item.path.clone(),
                        explanation: clone_opt(&item.explanation),
                    },
                );
                assert(proj_rows_view(rows@) =~= b.push(proj_item_row_view(pi as int, k as int, item@)));
                assert(proj_rows_view(rows@) =~= after_header + proj_item_rows(
                    pi as int,
                    proj@.items,
                    k + 1,
                ));
            }
            assert(proj_rows_view(rows@) =~= proj_rows_of(pv, pi + 1));
        }
    }
    rows
}

} // verus!
