//! The dashboard's state: the two lists, their cursors and selections, the
//! active tab and the dialog being shown.
use vstd::prelude::*;
use crate::models::scan::{ScanReport, ScanReportView};
use crate::ui::rows::{
    build_cache_rows, build_proj_rows, cache_rows, global_sizes_fit, proj_rows_of,
    proj_rows_view, rows_view, ActionView, ProjRow, ProjRowView, Row, RowAction, RowView,
};
use crate::utils::text::strings_view;

verus! {

/// Which list the dashboard shows.
#[derive(Clone, Copy, Debug, PartialEq, Eq, Structural)]
pub enum ActiveTab {
    Caches,
    Projects,
}

/// The dialog on top of the lists, if any.
#[derive(Clone, Debug, PartialEq, Eq)]
pub enum AppMode {
    Browse,
    Confirm,
    RunCommand { command: String, description: String },
    CommandOutput { output: String, success: bool },
    Deleting { current: String, done: usize, total: usize, permanent: bool },
    Done,
}

/// Mathematical view of an [`AppMode`].
pub enum ModeView {
    Browse,
    Confirm,
    RunCommand { command: Seq<char>, description: Seq<char> },
    CommandOutput { output: Seq<char>, success: bool },
    Deleting { current: Seq<char>, done: usize, total: usize, permanent: bool },
    Done,
}

impl View for AppMode {
    type V = ModeView;

    open spec fn view(&self) -> ModeView {
        match self {
            AppMode::Browse => ModeView::Browse,
            AppMode::Confirm => ModeView::Confirm,
            AppMode::RunCommand { command, description } => ModeView::RunCommand {
                command: command@,
                description: description@,
            },
            AppMode::CommandOutput { output, success } => ModeView::CommandOutput {
                output: output@,
                success: *success,
            },
            AppMode::Deleting { current, done, total, permanent } => ModeView::Deleting {
                current: current@,
                done: *done,
                total: *total,
                permanent: *permanent,
            },
            AppMode::Done => ModeView::Done,
        }
    }
}

/// One line of the receipt printed on exit: what was removed, its size, and
/// whether it was deleted for good rather than moved to the Trash.
#[derive(Clone, Debug)]
pub struct ReceiptEntry {
    pub label: String,
    pub size: u64,
    pub permanent: bool,
}

pub open spec fn receipt_view(v: Seq<ReceiptEntry>) -> Seq<(Seq<char>, u64, bool)> {
    v.map_values(|e: ReceiptEntry| (e.label@, e.size, e.permanent))
}

/// The dashboard. `selected[i]` says whether cache row `i` is marked for
/// deletion, `proj_selected[i]` the same of project row `i`.
pub struct App {
    pub report: ScanReport,
    pub rows: Vec<Row>,
    pub cursor: Option<usize>,
    pub selected: Vec<bool>,
    pub total_selected_bytes: u64,
    pub proj_rows: Vec<ProjRow>,
    pub proj_cursor: Option<usize>,
    pub proj_selected: Vec<bool>,
    pub proj_total_selected: u64,
    pub tab: ActiveTab,
    pub mode: AppMode,
    pub delete_log: Vec<String>,
    pub receipt: Vec<ReceiptEntry>,
}

/// Mathematical view of an [`App`].
pub struct AppView {
    pub report: ScanReportView,
    pub rows: Seq<RowView>,
    pub cursor: Option<usize>,
    pub selected: Seq<bool>,
    pub total_selected: u64,
    pub proj_rows: Seq<ProjRowView>,
    pub proj_cursor: Option<usize>,
    pub proj_selected: Seq<bool>,
    pub proj_total: u64,
    pub tab: ActiveTab,
    pub mode: ModeView,
    pub delete_log: Seq<Seq<char>>,
    pub receipt: Seq<(Seq<char>, u64, bool)>,
}

impl View for App {
    type V = AppView;

    open spec fn view(&self) -> AppView {
        AppView {
            report: self.report@,
            rows: rows_view(self.rows@),
            cursor: self.cursor,
            selected: self.selected@,
            total_selected: self.total_selected_bytes,
            proj_rows: proj_rows_view(self.proj_rows@),
            proj_cursor: self.proj_cursor,
            proj_selected: self.proj_selected@,
            proj_total: self.proj_total_selected,
            tab: self.tab,
            mode: self.mode@,
            delete_log: strings_view(self.delete_log@),
            receipt: receipt_view(self.receipt@),
        }
    }
}

// ── Sizes of marked rows ──────────────────────────────────────────────────────

/// The sum of `sizes[i]` over the `i < n` that `mask` marks.
pub open spec fn masked_sum(sizes: Seq<u64>, mask: Seq<bool>, n: int) -> int
    decreases n,
{
    if n <= 0 {
        0
    } else {
        masked_sum(sizes, mask, n - 1) + if mask[n - 1] {
            sizes[n - 1] as int
        } else {
            0
        }
    }
}

pub open spec fn row_sizes(rows: Seq<RowView>) -> Seq<u64> {
    rows.map_values(|r: RowView| r.size_bytes)
}

/// The cache rows that can be marked for deletion: selectable rows that do
/// not run a command.
pub open spec fn row_deletable(rows: Seq<RowView>) -> Seq<bool> {
    rows.map_values(|r: RowView| r.selectable && !(r.action is RunCommand))
}

pub open spec fn proj_sizes(rows: Seq<ProjRowView>) -> Seq<u64> {
    rows.map_values(|r: ProjRowView| r.size_bytes)
}

pub open spec fn proj_deletable(rows: Seq<ProjRowView>) -> Seq<bool> {
    rows.map_values(|r: ProjRowView| r.selectable)
}

pub proof fn lemma_masked_sum_bounds(sizes: Seq<u64>, mask: Seq<bool>, a: int, b: int)
    requires
        0 <= a <= b,
    ensures
        0 <= masked_sum(sizes, mask, a) <= masked_sum(sizes, mask, b),
    decreases b,
{
    if a < b {
        lemma_masked_sum_bounds(sizes, mask, a, b - 1);
    } else if a > 0 {
        lemma_masked_sum_bounds(sizes, mask, 0, a - 1);
    }
}

// ── Well-formedness ───────────────────────────────────────────────────────────

/// The marks line up with the rows, and only deletable rows are marked.
pub open spec fn app_wf(s: AppView) -> bool {
    &&& s.selected.len() == s.rows.len()
    &&& forall|i: int| 0 <= i < s.rows.len() && #[trigger] s.selected[i] ==> row_deletable(s.rows)[i]
    &&& s.proj_selected.len() == s.proj_rows.len()
    &&& forall|i: int|
        0 <= i < s.proj_rows.len() && #[trigger] s.proj_selected[i] ==> proj_deletable(s.proj_rows)[i]
}

/// Each tab's selected total is the sum of the sizes of its marked rows.
pub open spec fn totals_match(s: AppView) -> bool {
    &&& s.total_selected == masked_sum(row_sizes(s.rows), s.selected, s.rows.len() as int)
    &&& s.proj_total == masked_sum(proj_sizes(s.proj_rows), s.proj_selected, s.proj_rows.len() as int)
}

/// Whether the dashboard can be built for `report`: each category's found,
/// non-empty global items add up within a `u64`, as its heading shows.
pub open spec fn report_fits_app(report: ScanReportView) -> bool {
    global_sizes_fit(report.categories)
}

/// The dashboard as first shown for `report`.
pub open spec fn initial_app(report: ScanReportView) -> AppView {
    let rows = cache_rows(report.categories, report.categories.len() as int);
    let prows = proj_rows_of(report.projects, report.projects.len() as int);
    AppView {
        report: report,
        rows: rows,
        cursor: if rows.len() > 0 { Some(0usize) } else { None },
        selected: Seq::new(rows.len(), |i: int| false),
        total_selected: 0,
        proj_rows: prows,
        proj_cursor: if prows.len() > 0 { Some(0usize) } else { None },
        proj_selected: Seq::new(prows.len(), |i: int| false),
        proj_total: 0,
        tab: ActiveTab::Caches,
        mode: ModeView::Browse,
        delete_log: seq![],
        receipt: seq![],
    }
}

/// `n` marks, none of them set.
pub(crate) fn no_marks(n: usize) -> (v: Vec<bool>)
    ensures
        v@ == Seq::new(n as nat, |i: int| false),
{
    let mut v: Vec<bool> = Vec::new();
    for k in 0..n
        invariant
            v@ == Seq::new(k as nat, |i: int| false),
    {
        v.push(false);
        assert(v@ =~= Seq::new((k + 1) as nat, |i: int| false));
    }
    v
}

pub proof fn lemma_no_marks_sum(sizes: Seq<u64>, mask: Seq<bool>, n: int)
    requires
        forall|i: int| 0 <= i < n ==> !#[trigger] mask[i],
    ensures
        masked_sum(sizes, mask, n) == 0,
    decreases n,
{
    if n > 0 {
        lemma_no_marks_sum(sizes, mask, n - 1);
    }
}

impl App {
    /// The dashboard for `report`: both lists built, the cursor on the first
    /// row of each, nothing selected, the cache list shown. `None` when a
    /// category heading's size would overflow a `u64`.
    pub fn new(report: ScanReport) -> (r: Option<App>)
        ensures
            r is Some <==> report_fits_app(report@),
            r matches Some(app) ==> app@ == initial_app(report@) && app_wf(app@) && totals_match(app@),
    {
        let ghost rv = report@;
        if !crate::ui::rows::cache_rows_fit(&report) {
            return None;
        }
        let rows = build_cache_rows(&report);
        let proj_rows = build_proj_rows(&report);
        let cursor = if rows.len() > 0 { Some(0usize) } else { None };
        let proj_cursor = if proj_rows.len() > 0 { Some(0usize) } else { None };
        let selected = no_marks(rows.len());
        let proj_selected = no_marks(proj_rows.len());
        let app = App {
            report,
            rows,
            cursor,
            selected,
            total_selected_bytes: 0,
            proj_rows,
            proj_cursor,
            proj_selected,
            proj_total_selected: 0,
            tab: ActiveTab::Caches,
            mode: AppMode::Browse,
            delete_log: Vec::new(),
            receipt: Vec::new(),
        };
        proof {
            lemma_no_marks_sum(row_sizes(app@.rows), app@.selected, app@.rows.len() as int);
            lemma_no_marks_sum(
                proj_sizes(app@.proj_rows),
                app@.proj_selected,
                app@.proj_rows.len() as int,
            );
            assert(app@.delete_log =~= Seq::<Seq<char>>::empty());
            assert(app@.receipt =~= Seq::<(Seq<char>, u64, bool)>::empty());
            assert(app@ == initial_app(rv));
        }
        Some(app)
    }
}


// ── Cursor and selection ──────────────────────────────────────────────────────

/// The active list's cursor (the first row when none is set).
pub open spec fn active_cursor(s: AppView) -> int {
    match s.tab {
        ActiveTab::Caches => match s.cursor {
            Some(c) => c as int,
            None => 0,
        },
        ActiveTab::Projects => match s.proj_cursor {
            Some(c) => c as int,
            None => 0,
        },
    }
}

/// The number of rows of the active list.
pub open spec fn active_len(s: AppView) -> int {
    match s.tab {
        ActiveTab::Caches => s.rows.len() as int,
        ActiveTab::Projects => s.proj_rows.len() as int,
    }
}

/// `s` with the active list's cursor on row `c`.
pub open spec fn with_cursor(s: AppView, c: int) -> AppView {
    match s.tab {
        ActiveTab::Caches => AppView { cursor: Some(c as usize), ..s },
        ActiveTab::Projects => AppView { proj_cursor: Some(c as usize), ..s },
    }
}

/// One row up; from the first row to the last.
pub open spec fn moved_up(s: AppView) -> AppView {
    let i = active_cursor(s);
    let n = active_len(s);
    with_cursor(
        s,
        if i == 0 {
            if n == 0 {
                0
            } else {
                n - 1
            }
        } else {
            i - 1
        },
    )
}

/// One row down; from the last row to the first.
pub open spec fn moved_down(s: AppView) -> AppView {
    let i = active_cursor(s);
    let n = active_len(s);
    with_cursor(
        s,
        if i >= (if n == 0 {
            0
        } else {
            n - 1
        }) {
            0
        } else {
            i + 1
        },
    )
}

/// The description of a command row, or empty.
pub open spec fn desc_or_empty(d: Option<Seq<char>>) -> Seq<char> {
    match d {
        Some(t) => t,
        None => Seq::<char>::empty(),
    }
}

/// Space or Enter on the active list. On a command row: open its dialog. On
/// another selectable row: mark it or unmark it, and recompute that list's
/// selected total. Elsewhere: nothing.
pub open spec fn toggled(s: AppView) -> AppView {
    let i = active_cursor(s);
    match s.tab {
        ActiveTab::Caches => if 0 <= i < s.rows.len() && s.rows[i].selectable {
            match s.rows[i].action {
                ActionView::RunCommand(cmd) => AppView {
                    mode: ModeView::RunCommand {
                        command: cmd,
                        description: desc_or_empty(s.rows[i].command_desc),
                    },
                    ..s
                },
                _ => {
                    let sel = s.selected.update(i, !s.selected[i]);
                    AppView {
                        selected: sel,
                        total_selected: masked_sum(row_sizes(s.rows), sel, s.rows.len() as int) as u64,
                        ..s
                    }
                },
            }
        } else {
            s
        },
        ActiveTab::Projects => if 0 <= i < s.proj_rows.len() && s.proj_rows[i].selectable {
            let sel = s.proj_selected.update(i, !s.proj_selected[i]);
            AppView {
                proj_selected: sel,
                proj_total: masked_sum(proj_sizes(s.proj_rows), sel, s.proj_rows.len() as int) as u64,
                ..s
            }
        } else {
            s
        },
    }
}

/// Tab: the other list.
pub open spec fn switched(s: AppView) -> AppView {
    AppView {
        tab: match s.tab {
            ActiveTab::Caches => ActiveTab::Projects,
            ActiveTab::Projects => ActiveTab::Caches,
        },
        ..s
    }
}

/// `c`: nothing selected in either list.
pub open spec fn cleared(s: AppView) -> AppView {
    AppView {
        selected: Seq::new(s.selected.len(), |i: int| false),
        total_selected: 0,
        proj_selected: Seq::new(s.proj_selected.len(), |i: int| false),
        proj_total: 0,
        ..s
    }
}

/// The number of marks set among the first `n`.
pub open spec fn mark_count(mask: Seq<bool>, n: int) -> int
    decreases n,
{
    if n <= 0 {
        0
    } else {
        mark_count(mask, n - 1) + if mask[n - 1] {
            1int
        } else {
            0
        }
    }
}

/// The marks of the active list.
pub open spec fn active_marks(s: AppView) -> Seq<bool> {
    match s.tab {
        ActiveTab::Caches => s.selected,
        ActiveTab::Projects => s.proj_selected,
    }
}

/// The selected total of the active list.
pub open spec fn active_total(s: AppView) -> u64 {
    match s.tab {
        ActiveTab::Caches => s.total_selected,
        ActiveTab::Projects => s.proj_total,
    }
}

pub proof fn lemma_mark_count_bounds(mask: Seq<bool>, n: int)
    requires
        0 <= n,
    ensures
        0 <= mark_count(mask, n) <= n,
        mark_count(mask, n) == 0 <==> forall|i: int| 0 <= i < n ==> !#[trigger] mask[i],
    decreases n,
{
    if n > 0 {
        lemma_mark_count_bounds(mask, n - 1);
        if mark_count(mask, n) == 0 {
            assert forall|i: int| 0 <= i < n implies !#[trigger] mask[i] by {
                if i < n - 1 {
                } else {
                }
            }
        }
    }
}

/// The sum of the marked sizes, when it fits in a `u64`.
fn marked_total(sizes: &Vec<u64>, mask: &Vec<bool>) -> (r: u64)
    requires
        sizes@.len() == mask@.len(),
        masked_sum(sizes@, mask@, mask@.len() as int) <= u64::MAX,
    ensures
        r == masked_sum(sizes@, mask@, mask@.len() as int),
{
    let mut total: u64 = 0;
    for k in 0..mask.len()
        invariant
            sizes@.len() == mask@.len(),
            masked_sum(sizes@, mask@, mask@.len() as int) <= u64::MAX,
            total == masked_sum(sizes@, mask@, k as int),
    {
        proof {
            lemma_masked_sum_bounds(sizes@, mask@, k + 1, mask@.len() as int);
        }
        if mask[k] {
            total = total + sizes[k];
        }
    }
    total
}

/// Whether the sum of the sizes marked by `mask` with mark `i` flipped fits
/// in a `u64`.
fn fits_with_flip(sizes: &Vec<u64>, mask: &Vec<bool>, i: usize) -> (r: bool)
    requires
        sizes@.len() == mask@.len(),
        i < mask@.len(),
    ensures
        r == (masked_sum(sizes@, mask@.update(i as int, !mask@[i as int]), mask@.len() as int) <= u64::MAX),
{
    let ghost m2 = mask@.update(i as int, !mask@[i as int]);
    let mut total: u64 = 0;
    for k in 0..mask.len()
        invariant
            sizes@.len() == mask@.len(),
            i < mask@.len(),
            m2 == mask@.update(i as int, !mask@[i as int]),
            total == masked_sum(sizes@, m2, k as int),
    {
        let marked = if k == i {
            !mask[k]
        } else {
            mask[k]
        };
        assert(marked == m2[k as int]);
        if marked {
            match total.checked_add(sizes[k]) {
                Some(t) => total = t,
                None => {
                    proof {
                        lemma_masked_sum_bounds(sizes@, m2, k + 1, mask@.len() as int);
                    }
                    return false;
                },
            }
        }
    }
    true
}

/// Whether toggling keeps the total of the list it changes within a `u64`
/// (it always does where the toggle changes no mark).
pub open spec fn toggle_fits(s: AppView) -> bool {
    let i = active_cursor(s);
    match s.tab {
        ActiveTab::Caches => (0 <= i < s.rows.len() && row_deletable(s.rows)[i]) ==> masked_sum(
            row_sizes(s.rows),
            s.selected.update(i, !s.selected[i]),
            s.rows.len() as int,
        ) <= u64::MAX,
        ActiveTab::Projects => (0 <= i < s.proj_rows.len() && s.proj_rows[i].selectable) ==> masked_sum(
            proj_sizes(s.proj_rows),
            s.proj_selected.update(i, !s.proj_selected[i]),
            s.proj_rows.len() as int,
        ) <= u64::MAX,
    }
}

/// `s` with the cache list's total recomputed from its marks.
pub open spec fn recounted_caches(s: AppView) -> AppView {
    AppView {
        total_selected: masked_sum(row_sizes(s.rows), s.selected, s.rows.len() as int) as u64,
        ..s
    }
}

/// `s` with the project list's total recomputed from its marks.
pub open spec fn recounted_projects(s: AppView) -> AppView {
    AppView {
        proj_total: masked_sum(proj_sizes(s.proj_rows), s.proj_selected, s.proj_rows.len() as int) as u64,
        ..s
    }
}

impl App {
    /// The active list's cursor (the first row when none is set).
    pub fn cursor(&self) -> (r: usize)
        ensures
            r == active_cursor(self@),
    {
        match self.tab {
            ActiveTab::Caches => match self.cursor {
                Some(c) => c,
                None => 0,
            },
            ActiveTab::Projects => match self.proj_cursor {
                Some(c) => c,
                None => 0,
            },
        }
    }

    /// The number of rows of the active list.
    pub fn list_len(&self) -> (r: usize)
        ensures
            r == active_len(self@),
    {
        match self.tab {
            ActiveTab::Caches => self.rows.len(),
            ActiveTab::Projects => self.proj_rows.len(),
        }
    }

    fn set_cursor(&mut self, c: usize)
        ensures
            final(self)@ == with_cursor(old(self)@, c as int),
    {
        match self.tab {
            ActiveTab::Caches => self.cursor = Some(c),
            ActiveTab::Projects => self.proj_cursor = Some(c),
        }
    }

    /// Moves the cursor one row up, from the first row to the last.
    pub fn move_up(&mut self)
        ensures
            final(self)@ == moved_up(old(self)@),
    {
        let i = self.cursor();
        let n = self.list_len();
        let new = if i == 0 {
            n.saturating_sub(1)
        } else {
            i - 1
        };
        self.set_cursor(new);
    }

    /// Moves the cursor one row down, from the last row to the first.
    pub fn move_down(&mut self)
        ensures
            final(self)@ == moved_down(old(self)@),
    {
        let i = self.cursor();
        let n = self.list_len();
        let new = if i >= n.saturating_sub(1) {
            0
        } else {
            i + 1
        };
        self.set_cursor(new);
    }

    fn cache_sizes(&self) -> (v: Vec<u64>)
        ensures
            v@ == row_sizes(self@.rows),
    {
        let mut v: Vec<u64> = Vec::new();
        for k in 0..self.rows.len()
            invariant
                v@ == row_sizes(rows_view(self.rows@)).subrange(0, k as int),
        {
            v.push(self.rows[k].size_bytes);
            assert(v@ =~= row_sizes(rows_view(self.rows@)).subrange(0, k + 1));
        }
        assert(v@ =~= row_sizes(self@.rows));
        v
    }

    fn project_sizes(&self) -> (v: Vec<u64>)
        ensures
            v@ == proj_sizes(self@.proj_rows),
    {
        let mut v: Vec<u64> = Vec::new();
        for k in 0..self.proj_rows.len()
            invariant
                v@ == proj_sizes(proj_rows_view(self.proj_rows@)).subrange(0, k as int),
        {
            v.push(self.proj_rows[k].size_bytes);
            assert(v@ =~= proj_sizes(proj_rows_view(self.proj_rows@)).subrange(0, k + 1));
        }
        assert(v@ =~= proj_sizes(self@.proj_rows));
        v
    }

    /// Recomputes the selected total of one list from its marks.
    fn recalc(&mut self, proj_tab: bool)
        requires
            app_wf(old(self)@),
            proj_tab ==> masked_sum(
                proj_sizes(old(self)@.proj_rows),
                old(self)@.proj_selected,
                old(self)@.proj_rows.len() as int,
            ) <= u64::MAX,
            !proj_tab ==> masked_sum(row_sizes(old(self)@.rows), old(self)@.selected, old(self)@.rows.len() as int)
                <= u64::MAX,
        ensures
            proj_tab ==> final(self)@ == recounted_projects(old(self)@),
            !proj_tab ==> final(self)@ == recounted_caches(old(self)@),
    {
        if proj_tab {
            let sizes = self.project_sizes();
            let t = marked_total(&sizes, &self.proj_selected);
            self.proj_total_selected = t;
        } else {
            let sizes = self.cache_sizes();
            let t = marked_total(&sizes, &self.selected);
            self.total_selected_bytes = t;
        }
    }

    /// Whether toggling now keeps the changed list's total within a `u64`
    /// (`toggle_fits`).
    pub fn toggle_fits(&self) -> (r: bool)
        requires
            app_wf(self@),
        ensures
            r == toggle_fits(self@),
    {
        let i = self.cursor();
        match self.tab {
            ActiveTab::Caches => {
                if i < self.rows.len() && self.rows[i].selectable && !matches!(self.rows[i].action, RowAction::RunCommand(_)) {
                    let sizes = self.cache_sizes();
                    fits_with_flip(&sizes, &self.selected, i)
                } else {
                    true
                }
            },
            ActiveTab::Projects => {
                if i < self.proj_rows.len() && self.proj_rows[i].selectable {
                    let sizes = self.project_sizes();
                    fits_with_flip(&sizes, &self.proj_selected, i)
                } else {
                    true
                }
            },
        }
    }

    /// Space or Enter on the active list (`toggled`).
    pub fn toggle(&mut self)
        requires
            app_wf(old(self)@),
            toggle_fits(old(self)@),
        ensures
            final(self)@ == toggled(old(self)@),
    {
        let i = self.cursor();
        match self.tab {
            ActiveTab::Caches => {
                if i < self.rows.len() && self.rows[i].selectable {
                    match &self.rows[i].action {
                        RowAction::RunCommand(cmd) => {
                            let command = cmd.clone();
                            let description = match &self.rows[i].command_desc {
                                Some(d) => d.clone(),
                                None => String::new(),
                            };
                            self.mode = AppMode::RunCommand { command, description };
                            return;
                        },
                        _ => {},
                    }
                    let ghost before = self@;
                    let cur = self.selected[i];
                    self.selected.set(i, !cur);
                    proof {
                        assert forall|j: int|
                            0 <= j < self@.rows.len() && #[trigger] self@.selected[j] implies row_deletable(
                            self@.rows,
                        )[j] by {
                            if j != i {
                                assert(before.selected[j]);
                            }
                        }
                    }
                    self.recalc(false);
                }
            },
            ActiveTab::Projects => {
                if i < self.proj_rows.len() && self.proj_rows[i].selectable {
                    let ghost before = self@;
                    let cur = self.proj_selected[i];
                    self.proj_selected.set(i, !cur);
                    proof {
                        assert forall|j: int|
                            0 <= j < self@.proj_rows.len() && #[trigger] self@.proj_selected[j] implies proj_deletable(
                            self@.proj_rows,
                        )[j] by {
                            if j != i {
                                assert(before.proj_selected[j]);
                            }
                        }
                    }
                    self.recalc(true);
                }
            },
        }
    }

    /// Tab: shows the other list.
    pub fn switch_tab(&mut self)
        ensures
            final(self)@ == switched(old(self)@),
    {
        self.tab = match self.tab {
            ActiveTab::Caches => ActiveTab::Projects,
            ActiveTab::Projects => ActiveTab::Caches,
        };
    }

    /// `c`: unmarks every row of both lists.
    pub fn clear_selection(&mut self)
        ensures
            final(self)@ == cleared(old(self)@),
    {
        self.selected = no_marks(self.selected.len());
        self.proj_selected = no_marks(self.proj_selected.len());
        self.total_selected_bytes = 0;
        self.proj_total_selected = 0;
    }

    /// Whether the active list has a row marked for deletion.
    pub fn can_delete(&self) -> (r: bool)
        ensures
            r == (mark_count(active_marks(self@), active_marks(self@).len() as int) > 0),
    {
        self.selected_count() > 0
    }

    /// The number of rows marked in the active list.
    pub fn selected_count(&self) -> (r: usize)
        ensures
            r == mark_count(active_marks(self@), active_marks(self@).len() as int),
    {
        let marks = match self.tab {
            ActiveTab::Caches => &self.selected,
            ActiveTab::Projects => &self.proj_selected,
        };
        let mut count: usize = 0;
        for k in 0..marks.len()
            invariant
                marks@ == active_marks(self@),
                count == mark_count(marks@, k as int),
        {
            proof {
                lemma_mark_count_bounds(marks@, k as int);
            }
            if marks[k] {
                count = count + 1;
            }
        }
        count
    }

    /// The selected total of the active list.
    pub fn selected_bytes(&self) -> (r: u64)
        ensures
            r == active_total(self@),
    {
        match self.tab {
            ActiveTab::Caches => self.total_selected_bytes,
            ActiveTab::Projects => self.proj_total_selected,
        }
    }
}

} // verus!
