//! The dashboard's bookkeeping around a deletion run: which paths go, in what
//! order, what each outcome does to the lists, the log and the receipt.
use vstd::prelude::*;
use crate::models::scan::ScanReportView;
use crate::ui::app::{ActiveTab, App, AppMode, AppView, ModeView, ReceiptEntry};
use crate::ui::removal::{entries_view, size_after_removal, sizes_after_removal, EntryView, Role, SizedEntry};
use crate::ui::rows::{proj_rows_view, rows_view, ProjRowKind, ProjRowView, RowKind, RowView};
use crate::utils::paths::{file_name, file_name_of};
use crate::utils::text::{concat, concat3};

verus! {

/// A path to remove, its size, and the name the progress dialog shows for it.
#[derive(Clone, Debug)]
pub struct DeleteTarget {
    pub path: String,
    pub size: u64,
    pub label: String,
}

pub struct TargetView {
    pub path: Seq<char>,
    pub size: u64,
    pub label: Seq<char>,
}

impl View for DeleteTarget {
    type V = TargetView;

    open spec fn view(&self) -> TargetView {
        TargetView { path: self.path@, size: self.size, label: self.label@ }
    }
}

pub open spec fn targets_view(v: Seq<DeleteTarget>) -> Seq<TargetView> {
    v.map_values(|t: DeleteTarget| t@)
}

/// The name shown for a path: its last component, or the whole path.
pub open spec fn delete_label_of(p: Seq<char>) -> Seq<char> {
    match file_name_of(p) {
        Some(n) => n,
        None => p,
    }
}

pub open spec fn target_of(path: Seq<char>, size: u64) -> TargetView {
    TargetView { path: path, size: size, label: delete_label_of(path) }
}

/// The marked cache rows among the first `n`, in list order.
pub open spec fn cache_targets(rows: Seq<RowView>, marks: Seq<bool>, n: int) -> Seq<TargetView>
    decreases n,
{
    if n <= 0 {
        seq![]
    } else {
        let prev = cache_targets(rows, marks, n - 1);
        if marks[n - 1] {
            prev.push(target_of(rows[n - 1].path, rows[n - 1].size_bytes))
        } else {
            prev
        }
    }
}

/// The marked project rows among the first `n`, in list order.
pub open spec fn proj_targets(rows: Seq<ProjRowView>, marks: Seq<bool>, n: int) -> Seq<TargetView>
    decreases n,
{
    if n <= 0 {
        seq![]
    } else {
        let prev = proj_targets(rows, marks, n - 1);
        if marks[n - 1] {
            prev.push(target_of(rows[n - 1].path, rows[n - 1].size_bytes))
        } else {
            prev
        }
    }
}

/// What a deletion run of the active list removes.
pub open spec fn delete_targets_of(s: AppView) -> Seq<TargetView> {
    match s.tab {
        ActiveTab::Caches => cache_targets(s.rows, s.selected, s.rows.len() as int),
        ActiveTab::Projects => proj_targets(s.proj_rows, s.proj_selected, s.proj_rows.len() as int),
    }
}

pub open spec fn row_role(k: RowKind) -> Role {
    match k {
        RowKind::EcoHeader { cat_idx } => Role::Heading(cat_idx),
        RowKind::GlobalItem { cat_idx, .. } => Role::Member(cat_idx),
        RowKind::CommandItem { .. } => Role::Plain,
    }
}

pub open spec fn proj_role(k: ProjRowKind) -> Role {
    match k {
        ProjRowKind::Header { proj_idx } => Role::Heading(proj_idx),
        ProjRowKind::Item { proj_idx, .. } => Role::Member(proj_idx),
    }
}

pub open spec fn cache_entries(rows: Seq<RowView>) -> Seq<EntryView> {
    rows.map_values(|r: RowView| EntryView { path: r.path, size: r.size_bytes, role: row_role(r.kind) })
}

pub open spec fn proj_entries(rows: Seq<ProjRowView>) -> Seq<EntryView> {
    rows.map_values(
        |r: ProjRowView| EntryView { path: r.path, size: r.size_bytes, role: proj_role(r.kind) },
    )
}

/// The cache rows once `p`, of size `size`, is gone.
pub open spec fn rows_after_removal(rows: Seq<RowView>, p: Seq<char>, size: u64) -> Seq<RowView> {
    Seq::new(
        rows.len(),
        |j: int| RowView { size_bytes: size_after_removal(cache_entries(rows), p, size, j), ..rows[j] },
    )
}

/// The project rows once `p`, of size `size`, is gone.
pub open spec fn proj_rows_after_removal(rows: Seq<ProjRowView>, p: Seq<char>, size: u64) -> Seq<
    ProjRowView,
> {
    Seq::new(
        rows.len(),
        |j: int| ProjRowView { size_bytes: size_after_removal(proj_entries(rows), p, size, j), ..rows[j] },
    )
}

/// The log line of a removal.
pub open spec fn removed_line(label: Seq<char>, permanent: bool) -> Seq<char> {
    "✓ "@ + (if permanent {
        "Permanently deleted"@
    } else {
        "Moved to Trash"@
    }) + ": "@ + label
}

/// The log line of a failed removal.
pub open spec fn failed_line(label: Seq<char>, error: Seq<char>) -> Seq<char> {
    "✗ Failed "@ + label + ": "@ + error
}

/// The dashboard once target `t` has been removed: its rows show what is
/// left, the report's total drops by its size (never below 0), and the log
/// and the receipt each gain a line.
pub open spec fn after_removed(s: AppView, t: TargetView, permanent: bool) -> AppView {
    AppView {
        report: ScanReportView {
            total_size: if s.report.total_size >= t.size {
                s.report.total_size - t.size
            } else {
                0
            },
            ..s.report
        },
        rows: rows_after_removal(s.rows, t.path, t.size),
        proj_rows: proj_rows_after_removal(s.proj_rows, t.path, t.size),
        delete_log: s.delete_log.push(removed_line(t.label, permanent)),
        receipt: s.receipt.push((t.label, t.size, permanent)),
        ..s
    }
}

/// The dashboard once removing a target failed: the log gains a line.
pub open spec fn after_failed(s: AppView, label: Seq<char>, error: Seq<char>) -> AppView {
    AppView { delete_log: s.delete_log.push(failed_line(label, error)), ..s }
}

/// The progress dialog: `done` of `total` targets handled, `label` the current one.
pub open spec fn with_progress(s: AppView, label: Seq<char>, done: usize, total: usize, permanent: bool) -> AppView {
    AppView { mode: ModeView::Deleting { current: label, done, total, permanent }, ..s }
}

/// The end of a run: nothing marked in the active list, its total 0, and
/// the results dialog shown.
pub open spec fn after_run(s: AppView) -> AppView {
    match s.tab {
        ActiveTab::Caches => AppView {
            selected: Seq::new(s.selected.len(), |i: int| false),
            total_selected: 0,
            mode: ModeView::Done,
            ..s
        },
        ActiveTab::Projects => AppView {
            proj_selected: Seq::new(s.proj_selected.len(), |i: int| false),
            proj_total: 0,
            mode: ModeView::Done,
            ..s
        },
    }
}

/// The name shown for a path: its last component, or the whole path.
pub fn delete_label(p: &str) -> (r: String)
    ensures
        r@ == delete_label_of(p@),
{
    match file_name(p) {
        Some(n) => n,
        None => String::from_str(p),
    }
}

fn cache_entries_exec(rows: &Vec<crate::ui::rows::Row>) -> (v: Vec<SizedEntry>)
    ensures
        entries_view(v@) == cache_entries(rows_view(rows@)),
{
    let mut v: Vec<SizedEntry> = Vec::new();
    for k in 0..rows.len()
        invariant
            entries_view(v@) == cache_entries(rows_view(rows@)).subrange(0, k as int),
    {
        let r = &rows[k];
        let role = match r.kind {
            RowKind::EcoHeader { cat_idx } => Role::Heading(cat_idx),
            RowKind::GlobalItem { cat_idx, .. } => Role::Member(cat_idx),
            RowKind::CommandItem { .. } => Role::Plain,
        };
        assert(role == row_role(r.kind));
        let ghost before = entries_view(v@);
        let e = SizedEntry { path: r.path.clone(), size: r.size_bytes, role };
        assert(e@ == cache_entries(rows_view(rows@))[k as int]);
        v.push(e);
        assert(entries_view(v@) =~= before.push(e@));
        assert(entries_view(v@) =~= cache_entries(rows_view(rows@)).subrange(0, k + 1));
    }
    assert(cache_entries(rows_view(rows@)).subrange(0, rows@.len() as int) =~= cache_entries(
        rows_view(rows@),
    ));
    v
}

fn proj_entries_exec(rows: &Vec<crate::ui::rows::ProjRow>) -> (v: Vec<SizedEntry>)
    ensures
        entries_view(v@) == proj_entries(proj_rows_view(rows@)),
{
    let mut v: Vec<SizedEntry> = Vec::new();
    for k in 0..rows.len()
        invariant
            entries_view(v@) == proj_entries(proj_rows_view(rows@)).subrange(0, k as int),
    {
        let r = &rows[k];
        let role = match r.kind {
            ProjRowKind::Header { proj_idx } => Role::Heading(proj_idx),
            ProjRowKind::Item { proj_idx, .. } => Role::Member(proj_idx),
        };
        assert(role == proj_role(r.kind));
        let ghost before = entries_view(v@);
        let e = SizedEntry { path: r.path.clone(), size: r.size_bytes, role };
        assert(e@ == proj_entries(proj_rows_view(rows@))[k as int]);
        v.push(e);
        assert(entries_view(v@) =~= before.push(e@));
        assert(entries_view(v@) =~= proj_entries(proj_rows_view(rows@)).subrange(0, k + 1));
    }
    assert(proj_entries(proj_rows_view(rows@)).subrange(0, rows@.len() as int) =~= proj_entries(
        proj_rows_view(rows@),
    ));
    v
}

/// Sets the size of each row to the matching entry of `sizes`.
fn set_row_sizes(rows: &mut Vec<crate::ui::rows::Row>, sizes: &Vec<u64>)
    requires
        sizes@.len() == old(rows)@.len(),
    ensures
        final(rows)@.len() == old(rows)@.len(),
        forall|k: int|
            0 <= k < old(rows)@.len() ==> #[trigger] rows_view(final(rows)@)[k] == (RowView {
                size_bytes: sizes@[k],
                ..rows_view(old(rows)@)[k]
            }),
{
    let ghost rows0 = rows_view(rows@);
    let n = rows.len();
    for j in 0..n
        invariant
            n == rows@.len(),
            sizes@.len() == n,
            rows0.len() == n,
            forall|k: int| j <= k < n ==> #[trigger] rows_view(rows@)[k] == rows0[k],
            forall|k: int|
                0 <= k < j ==> #[trigger] rows_view(rows@)[k] == (RowView { size_bytes: sizes@[k], ..rows0[k] }),
    {
        let ghost prev = rows@;
        rows[j].size_bytes = sizes[j];
        proof {
            assert forall|k: int| 0 <= k < n && k != j implies rows@[k] == prev[k] by {}
            assert forall|k: int| j < k < n implies #[trigger] rows_view(rows@)[k] == rows0[k] by {
                assert(rows@[k] == prev[k]);
                assert(rows_view(prev)[k] == rows0[k]);
            }
            assert forall|k: int|
                0 <= k <= j implies #[trigger] rows_view(rows@)[k] == (RowView {
                size_bytes: sizes@[k],
                ..rows0[k]
            }) by {
                if k < j {
                    assert(rows@[k] == prev[k]);
                    assert(rows_view(prev)[k] == rows_view(rows@)[k]);
                } else {
                    assert(rows_view(prev)[k] == rows0[k]);
                    assert(rows@[k].size_bytes == sizes@[k]);
                    assert(rows@[k].path == prev[k].path);
                    assert(rows@[k].label == prev[k].label);
                    assert(rows@[k].explanation == prev[k].explanation);
                }
            }
        }
    }
}

/// Sets the size of each project row to the matching entry of `sizes`.
fn set_proj_row_sizes(rows: &mut Vec<crate::ui::rows::ProjRow>, sizes: &Vec<u64>)
    requires
        sizes@.len() == old(rows)@.len(),
    ensures
        final(rows)@.len() == old(rows)@.len(),
        forall|k: int|
            0 <= k < old(rows)@.len() ==> #[trigger] proj_rows_view(final(rows)@)[k] == (ProjRowView {
                size_bytes: sizes@[k],
                ..proj_rows_view(old(rows)@)[k]
            }),
{
    let ghost rows0 = proj_rows_view(rows@);
    let n = rows.len();
    for j in 0..n
        invariant
            n == rows@.len(),
            sizes@.len() == n,
            rows0.len() == n,
            forall|k: int| j <= k < n ==> #[trigger] proj_rows_view(rows@)[k] == rows0[k],
            forall|k: int|
                0 <= k < j ==> #[trigger] proj_rows_view(rows@)[k] == (ProjRowView {
                    size_bytes: sizes@[k],
                    ..rows0[k]
                }),
    {
        let ghost prev = rows@;
        rows[j].size_bytes = sizes[j];
        proof {
            assert forall|k: int| j < k < n implies #[trigger] proj_rows_view(rows@)[k] == rows0[k] by {
                assert(rows@[k] == prev[k]);
                assert(proj_rows_view(prev)[k] == rows0[k]);
            }
            assert forall|k: int|
                0 <= k <= j implies #[trigger] proj_rows_view(rows@)[k] == (ProjRowView {
                size_bytes: sizes@[k],
                ..rows0[k]
            }) by {
                if k < j {
                    assert(rows@[k] == prev[k]);
                    assert(proj_rows_view(prev)[k] == proj_rows_view(rows@)[k]);
                } else {
                    assert(proj_rows_view(prev)[k] == rows0[k]);
                    assert(rows@[k].size_bytes == sizes@[k]);
                    assert(rows@[k].path == prev[k].path);
                    assert(rows@[k].label == prev[k].label);
                    assert(rows@[k].explanation == prev[k].explanation);
                }
            }
        }
    }
}

impl App {
    /// What a deletion run of the active list removes: each marked row's
    /// path and size, in list order.
    pub fn delete_targets(&self) -> (r: Vec<DeleteTarget>)
        requires
            self@.selected.len() == self@.rows.len(),
            self@.proj_selected.len() == self@.proj_rows.len(),
        ensures
            targets_view(r@) == delete_targets_of(self@),
    {
        let mut r: Vec<DeleteTarget> = Vec::new();
        match self.tab {
            ActiveTab::Caches => {
                for k in 0..self.rows.len()
                    invariant
                        self@.selected.len() == self@.rows.len(),
                        targets_view(r@) == cache_targets(self@.rows, self@.selected, k as int),
                {
                    if self.selected[k] {
                        let row = &self.rows[k];
                        let ghost before = targets_view(r@);
                        r.push(
                            DeleteTarget {
                                path: row.path.clone(),
                                size: row.size_bytes,
                                label: delete_label(row.path.as_str()),
                            },
                        );
                        assert(targets_view(r@) =~= before.push(target_of(row.path@, row.size_bytes)));
                    }
                }
            },
            ActiveTab::Projects => {
                for k in 0..self.proj_rows.len()
                    invariant
                        self@.proj_selected.len() == self@.proj_rows.len(),
                        targets_view(r@) == proj_targets(self@.proj_rows, self@.proj_selected, k as int),
                {
                    if self.proj_selected[k] {
                        let row = &self.proj_rows[k];
                        let ghost before = targets_view(r@);
                        r.push(
                            DeleteTarget {
                                path: row.path.clone(),
                                size: row.size_bytes,
                                label: delete_label(row.path.as_str()),
                            },
                        );
                        assert(targets_view(r@) =~= before.push(target_of(row.path@, row.size_bytes)));
                    }
                }
            },
        }
        r
    }

    /// Shows the progress dialog.
    pub fn show_progress(&mut self, label: String, done: usize, total: usize, permanent: bool)
        ensures
            final(self)@ == with_progress(old(self)@, label@, done, total, permanent),
    {
        self.mode = AppMode::Deleting { current: label, done, total, permanent };
    }

    /// Records that target `t` was removed (`after_removed`).
    pub fn record_removed(&mut self, t: &DeleteTarget, permanent: bool)
        ensures
            final(self)@ == after_removed(old(self)@, t@, permanent),
    {
        let ghost old_view = self@;
        let action = if permanent {
            "Permanently deleted"
        } else {
            "Moved to Trash"
        };
        proof {
            reveal_strlit("Permanently deleted");
            reveal_strlit("Moved to Trash");
        }
        let head = concat3("✓ ", action, ": ");
        let line = concat(head.as_str(), t.label.as_str());
        assert(line@ == removed_line(t.label@, permanent));
        self.delete_log.push(line);
        self.receipt.push(ReceiptEntry { label: t.label.clone(), size: t.size, permanent });
        self.report.total_size = self.report.total_size.saturating_sub(t.size);

        let entries = cache_entries_exec(&self.rows);
        let sizes = sizes_after_removal(&entries, t.path.as_str(), t.size);
        let ghost rows0 = rows_view(self.rows@);
        assert(entries_view(entries@).len() == entries@.len());
        set_row_sizes(&mut self.rows, &sizes);
        assert(rows_view(self.rows@) =~= rows_after_removal(rows0, t.path@, t.size));

        let pentries = proj_entries_exec(&self.proj_rows);
        let psizes = sizes_after_removal(&pentries, t.path.as_str(), t.size);
        let ghost prows0 = proj_rows_view(self.proj_rows@);
        assert(entries_view(pentries@).len() == pentries@.len());
        set_proj_row_sizes(&mut self.proj_rows, &psizes);
        assert(proj_rows_view(self.proj_rows@) =~= proj_rows_after_removal(prows0, t.path@, t.size));
        assert(self@.delete_log =~= old_view.delete_log.push(removed_line(t.label@, permanent)));
        assert(self@.receipt =~= old_view.receipt.push((t.label@, t.size, permanent)));
    }

    /// Records that removing a target failed (`after_failed`).
    pub fn record_failure(&mut self, label: &str, error: &str)
        ensures
            final(self)@ == after_failed(old(self)@, label@, error@),
    {
        let ghost old_view = self@;
        let head = concat3("✗ Failed ", label, ": ");
        let line = concat(head.as_str(), error);
        self.delete_log.push(line);
        assert(self@.delete_log =~= old_view.delete_log.push(failed_line(label@, error@)));
    }

    /// Ends a run (`after_run`).
    pub fn finish_delete(&mut self)
        ensures
            final(self)@ == after_run(old(self)@),
    {
        match self.tab {
            ActiveTab::Caches => {
                self.selected = crate::ui::app::no_marks(self.selected.len());
                self.total_selected_bytes = 0;
            },
            ActiveTab::Projects => {
                self.proj_selected = crate::ui::app::no_marks(self.proj_selected.len());
                self.proj_total_selected = 0;
            },
        }
        self.mode = AppMode::Done;
    }
}


// ── A deletion run, step by step ──────────────────────────────────────────────

/// A deletion run in progress: the targets fixed when it began, how many have
/// been handled, and whether they go for good rather than to the Trash.
pub struct DeleteRun {
    pub targets: Vec<DeleteTarget>,
    pub next: usize,
    pub permanent: bool,
}

/// The dashboard once a removal had `outcome` (the error's text when it failed).
pub open spec fn after_outcome(s: AppView, t: TargetView, permanent: bool, outcome: Result<(), Seq<char>>) -> AppView {
    match outcome {
        Ok(_) => after_removed(s, t, permanent),
        Err(e) => after_failed(s, t.label, e),
    }
}

pub open spec fn outcome_view(o: Result<(), String>) -> Result<(), Seq<char>> {
    match o {
        Ok(_) => Ok(()),
        Err(e) => Err(e@),
    }
}

impl App {
    /// Begins a run over the active list's marked rows (`delete_targets_of`),
    /// none handled yet.
    pub fn begin_delete(&self, permanent: bool) -> (r: DeleteRun)
        requires
            self@.selected.len() == self@.rows.len(),
            self@.proj_selected.len() == self@.proj_rows.len(),
        ensures
            targets_view(r.targets@) == delete_targets_of(self@),
            r.next == 0,
            r.permanent == permanent,
    {
        DeleteRun { targets: self.delete_targets(), next: 0, permanent }
    }
}

impl DeleteRun {
    /// The next target, if any is left: before it is removed the progress
    /// dialog names it and counts the targets handled so far out of all of
    /// them. With none left, nothing changes.
    pub fn step_start(&self, app: &mut App) -> (r: Option<DeleteTarget>)
        ensures
            r is None <==> self.next >= self.targets@.len(),
            r is None ==> final(app)@ == old(app)@,
            r matches Some(t) ==> t@ == self.targets@[self.next as int]@ && final(app)@ == with_progress(
                old(app)@,
                t.label@,
                self.next,
                self.targets@.len() as usize,
                self.permanent,
            ),
    {
        if self.next >= self.targets.len() {
            return None;
        }
        let cur = &self.targets[self.next];
        let t = DeleteTarget { path: cur.path.clone(), size: cur.size, label: cur.label.clone() };
        app.show_progress(t.label.clone(), self.next, self.targets.len(), self.permanent);
        Some(t)
    }

    /// Records what removing the current target gave, and counts it as
    /// handled: the progress dialog then shows one more done.
    pub fn step_end(&mut self, app: &mut App, outcome: Result<(), String>)
        requires
            old(self).next < old(self).targets@.len(),
        ensures
            final(self).next == old(self).next + 1,
            final(self).targets@ == old(self).targets@,
            final(self).permanent == old(self).permanent,
            final(app)@ == with_progress(
                after_outcome(
                    old(app)@,
                    old(self).targets@[old(self).next as int]@,
                    old(self).permanent,
                    outcome_view(outcome),
                ),
                old(self).targets@[old(self).next as int]@.label,
                (old(self).next + 1) as usize,
                old(self).targets@.len() as usize,
                old(self).permanent,
            ),
    {
        let n = self.targets.len();
        let t = &self.targets[self.next];
        match &outcome {
            Ok(()) => app.record_removed(t, self.permanent),
            Err(e) => app.record_failure(t.label.as_str(), e.as_str()),
        }
        app.show_progress(t.label.clone(), self.next + 1, n, self.permanent);
        self.next = self.next + 1;
    }

    /// Ends the run (`after_run`).
    pub fn finish(self, app: &mut App)
        ensures
            final(app)@ == after_run(old(app)@),
    {
        app.finish_delete();
    }
}

} // verus!
