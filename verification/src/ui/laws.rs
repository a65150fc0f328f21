//! What holds of the dashboard across its operations.
use vstd::prelude::*;
use crate::ui::app::{
    active_cursor, active_len, active_marks, app_wf, cleared, lemma_mark_count_bounds,
    lemma_masked_sum_bounds, mark_count,
    moved_down, moved_up, proj_deletable, proj_sizes, row_deletable, row_sizes, switched, toggled,
    toggle_fits, totals_match, ActiveTab, AppView, ModeView,
};
use crate::ui::deleting::{
    after_removed, after_run, cache_entries, cache_targets, delete_targets_of, proj_entries,
    proj_targets, target_of, TargetView,
};
use crate::ui::keys::{after_key, is_char, key_fits, key_outcome, with_mode, Key, OutcomeView};
use crate::ui::removal::lemma_size_after_removal_le;
use crate::ui::roots::{common_dirs, is_common_dir_name, parent_root, root_candidates_of};
use crate::utils::paths::expand_tilde_of;
use crate::utils::paths::join_of;
use crate::utils::text::lower;
use crate::utils::paths::same_path;
use crate::ui::rows::{ProjRowView, RowView};

verus! {

/// The active list's cursor is set and on one of its rows.
pub open spec fn cursor_on_row(s: AppView) -> bool {
    &&& s.rows.len() <= usize::MAX
    &&& s.proj_rows.len() <= usize::MAX
    &&& match s.tab {
        ActiveTab::Caches => s.cursor matches Some(c) && c < s.rows.len(),
        ActiveTab::Projects => s.proj_cursor matches Some(c) && c < s.proj_rows.len(),
    }
}

/// Moving down and then up, or up and then down, leaves the dashboard as it
/// was.
pub proof fn law_down_then_up(s: AppView)
    requires
        cursor_on_row(s),
    ensures
        moved_up(moved_down(s)) == s,
        moved_down(moved_up(s)) == s,
{
    let d = moved_down(s);
    let u = moved_up(s);
    match s.tab {
        ActiveTab::Caches => {
            assert(moved_up(d).cursor == s.cursor);
            assert(moved_down(u).cursor == s.cursor);
        },
        ActiveTab::Projects => {
            assert(moved_up(d).proj_cursor == s.proj_cursor);
            assert(moved_down(u).proj_cursor == s.proj_cursor);
        },
    }
}

/// From the last row, down goes to the first; from the first, up goes to the
/// last; and a cursor on a row stays on a row.
pub proof fn law_moves_wrap(s: AppView)
    requires
        cursor_on_row(s),
    ensures
        active_cursor(s) == active_len(s) - 1 ==> active_cursor(moved_down(s)) == 0,
        active_cursor(s) == 0 ==> active_cursor(moved_up(s)) == active_len(s) - 1,
        cursor_on_row(moved_down(s)),
        cursor_on_row(moved_up(s)),
{
}

/// Toggling keeps the dashboard well formed and, when the changed list's
/// total fits in a `u64`, keeps each list's selected total equal to the sum
/// of the sizes of its marked rows.
pub proof fn law_toggle_keeps_totals(s: AppView)
    requires
        app_wf(s),
    ensures
        app_wf(toggled(s)),
        totals_match(s) && toggle_fits(s) ==> totals_match(toggled(s)),
{
    let i = active_cursor(s);
    match s.tab {
        ActiveTab::Caches => {
            if 0 <= i < s.rows.len() && s.rows[i].selectable && !(s.rows[i].action is RunCommand) {
                let t = toggled(s);
                let n = s.rows.len() as int;
                assert(t.selected == s.selected.update(i, !s.selected[i]));
                assert forall|j: int| 0 <= j < n && #[trigger] t.selected[j] implies row_deletable(
                    t.rows,
                )[j] by {
                    if j != i {
                        assert(s.selected[j]);
                    }
                }
                lemma_masked_sum_bounds(row_sizes(s.rows), t.selected, 0, n);
            }
        },
        ActiveTab::Projects => {
            if 0 <= i < s.proj_rows.len() && s.proj_rows[i].selectable {
                let t = toggled(s);
                let n = s.proj_rows.len() as int;
                assert forall|j: int| 0 <= j < n && #[trigger] t.proj_selected[j] implies proj_deletable(
                    t.proj_rows,
                )[j] by {
                    if j != i {
                        assert(s.proj_selected[j]);
                    }
                }
                lemma_masked_sum_bounds(proj_sizes(s.proj_rows), t.proj_selected, 0, n);
            }
        },
    }
}

/// Toggling the same row twice leaves the dashboard as it was (on any row but
/// a command row, whose toggle opens its dialog).
pub proof fn law_toggle_twice(s: AppView)
    requires
        app_wf(s),
        totals_match(s),
        s.tab == ActiveTab::Caches && 0 <= active_cursor(s) < s.rows.len() ==> !(s.rows[active_cursor(
            s,
        )].action is RunCommand),
    ensures
        toggled(toggled(s)) == s,
{
    let i = active_cursor(s);
    match s.tab {
        ActiveTab::Caches => {
            if 0 <= i < s.rows.len() && s.rows[i].selectable {
                let t = toggled(s);
                assert(t.selected.update(i, !t.selected[i]) =~= s.selected);
                lemma_masked_sum_bounds(row_sizes(s.rows), s.selected, 0, s.rows.len() as int);
            }
        },
        ActiveTab::Projects => {
            if 0 <= i < s.proj_rows.len() && s.proj_rows[i].selectable {
                let t = toggled(s);
                assert(t.proj_selected.update(i, !t.proj_selected[i]) =~= s.proj_selected);
                lemma_masked_sum_bounds(proj_sizes(s.proj_rows), s.proj_selected, 0, s.proj_rows.len() as int);
            }
        },
    }
}

/// Switching tabs twice leaves the dashboard as it was, and switching keeps
/// each list's cursor and marks.
pub proof fn law_switch_twice(s: AppView)
    ensures
        switched(switched(s)) == s,
        switched(s).cursor == s.cursor && switched(s).proj_cursor == s.proj_cursor,
        switched(s).selected == s.selected && switched(s).proj_selected == s.proj_selected,
{
}


/// Every key keeps the dashboard well formed.
pub proof fn law_keys_keep_wf(s: AppView, k: Key)
    requires
        app_wf(s),
    ensures
        app_wf(after_key(s, k)),
{
    law_toggle_keeps_totals(s);
    let c = cleared(s);
    assert forall|i: int| 0 <= i < c.rows.len() implies !#[trigger] c.selected[i] by {}
    assert forall|i: int| 0 <= i < c.proj_rows.len() implies !#[trigger] c.proj_selected[i] by {}
}

/// Every key that keeps the totals within a `u64` keeps each list's
/// selected total equal to the sum of the sizes of its marked rows.
pub proof fn law_keys_keep_totals(s: AppView, k: Key)
    requires
        app_wf(s),
        totals_match(s),
        key_fits(s, k),
    ensures
        totals_match(after_key(s, k)),
{
    law_toggle_keeps_totals(s);
    let c = cleared(s);
    crate::ui::app::lemma_no_marks_sum(row_sizes(c.rows), c.selected, c.rows.len() as int);
    crate::ui::app::lemma_no_marks_sum(proj_sizes(c.proj_rows), c.proj_selected, c.proj_rows.len() as int);
}

/// Both lists' cursors are set and on one of their rows.
pub open spec fn cursors_on_rows(s: AppView) -> bool {
    &&& cursor_on_row(AppView { tab: ActiveTab::Caches, ..s })
    &&& cursor_on_row(AppView { tab: ActiveTab::Projects, ..s })
}

/// Cursors on rows stay on rows whatever key is pressed.
pub proof fn law_keys_keep_cursors_on_rows(s: AppView, k: Key)
    requires
        cursors_on_rows(s),
    ensures
        cursors_on_rows(after_key(s, k)),
{
    law_moves_wrap(s);
    let a = after_key(s, k);
    assert(cursor_on_row(AppView { tab: ActiveTab::Caches, ..a }));
    assert(cursor_on_row(AppView { tab: ActiveTab::Projects, ..a }));
}

/// Only `q` or `Q`, and only while browsing, leaves the dashboard, and it
/// changes nothing on the way out.
pub proof fn law_quit_only_from_browse(s: AppView, k: Key)
    ensures
        key_outcome(s, k) is Quit <==> (s.mode is Browse && is_char(k, 'q', 'Q')),
        key_outcome(s, k) is Quit ==> after_key(s, k) == s,
{
}

/// Deletion moves to the Trash unless `p` is pressed: from the confirmation
/// dialog, `y` trashes, `p` deletes for good, and no other key or dialog
/// deletes anything.
pub proof fn law_trash_by_default(s: AppView, k: Key)
    ensures
        (s.mode is Confirm && is_char(k, 'y', 'Y')) ==> key_outcome(s, k) == (OutcomeView::Delete {
            permanent: false,
        }),
        key_outcome(s, k) == (OutcomeView::Delete { permanent: true }) <==> (s.mode is Confirm
            && is_char(k, 'p', 'P')),
        key_outcome(s, k) is Delete ==> s.mode is Confirm && after_key(s, k) == s,
{
}

/// The confirmation dialog opens only when the active list has a marked row,
/// and cancelling it (`n`, `N` or Esc) only closes it.
pub proof fn law_confirm_needs_selection(s: AppView, k: Key)
    ensures
        (s.mode is Browse && after_key(s, k).mode is Confirm) ==> mark_count(
            active_marks(s),
            active_marks(s).len() as int,
        ) > 0,
        (s.mode is Confirm && (is_char(k, 'n', 'N') || k == Key::Esc)) ==> after_key(s, k)
            == with_mode(s, ModeView::Browse),
{
}

/// `tv` is what removing one of the first `n` rows, a marked one, looks like.
pub open spec fn from_marked_row(rows: Seq<RowView>, marks: Seq<bool>, n: int, tv: TargetView) -> bool {
    exists|k: int| 0 <= k < n && marks[k] && tv == target_of(rows[k].path, rows[k].size_bytes)
}

/// `tv` is what removing one of the first `n` project rows, a marked one, looks like.
pub open spec fn from_marked_proj_row(rows: Seq<ProjRowView>, marks: Seq<bool>, n: int, tv: TargetView) -> bool {
    exists|k: int| 0 <= k < n && marks[k] && tv == target_of(rows[k].path, rows[k].size_bytes)
}

/// `tv` comes from a marked cache row that can be marked: a selectable row
/// that does not run a command.
pub open spec fn from_deletable_row(s: AppView, tv: TargetView) -> bool {
    exists|k: int|
        0 <= k < s.rows.len() && s.selected[k] && s.rows[k].selectable && !(s.rows[k].action is RunCommand)
            && tv == target_of(s.rows[k].path, s.rows[k].size_bytes)
}

/// `tv` comes from a marked, selectable project row.
pub open spec fn from_deletable_proj_row(s: AppView, tv: TargetView) -> bool {
    exists|k: int|
        0 <= k < s.proj_rows.len() && s.proj_selected[k] && s.proj_rows[k].selectable && tv == target_of(
            s.proj_rows[k].path,
            s.proj_rows[k].size_bytes,
        )
}

/// A deletion run removes exactly the marked rows of the active list, one
/// target per marked row, in list order; each is a row that can be marked,
/// never a heading (such as a project's own directory).
pub proof fn law_targets_are_marked_rows(s: AppView)
    requires
        app_wf(s),
    ensures
        delete_targets_of(s).len() == mark_count(active_marks(s), active_marks(s).len() as int),
        s.tab == ActiveTab::Caches ==> forall|t: int|
            0 <= t < delete_targets_of(s).len() ==> from_deletable_row(s, #[trigger] delete_targets_of(s)[t]),
        s.tab == ActiveTab::Projects ==> forall|t: int|
            0 <= t < delete_targets_of(s).len() ==> from_deletable_proj_row(
                s,
                #[trigger] delete_targets_of(s)[t],
            ),
{
    let ts = delete_targets_of(s);
    if s.tab == ActiveTab::Caches {
        lemma_cache_targets(s.rows, s.selected, s.rows.len() as int);
        assert forall|t: int| 0 <= t < ts.len() implies from_deletable_row(s, #[trigger] ts[t]) by {
            assert(from_marked_row(s.rows, s.selected, s.rows.len() as int, ts[t]));
            let k = choose|k: int| 0 <= k < s.rows.len() && s.selected[k] && ts[t] == target_of(
                s.rows[k].path,
                s.rows[k].size_bytes,
            );
            assert(row_deletable(s.rows)[k]);
        }
    } else {
        lemma_proj_targets(s.proj_rows, s.proj_selected, s.proj_rows.len() as int);
        assert forall|t: int| 0 <= t < ts.len() implies from_deletable_proj_row(s, #[trigger] ts[t]) by {
            assert(from_marked_proj_row(s.proj_rows, s.proj_selected, s.proj_rows.len() as int, ts[t]));
            let k = choose|k: int| 0 <= k < s.proj_rows.len() && s.proj_selected[k] && ts[t] == target_of(
                s.proj_rows[k].path,
                s.proj_rows[k].size_bytes,
            );
            assert(proj_deletable(s.proj_rows)[k]);
        }
    }
}

pub proof fn lemma_cache_targets(rows: Seq<RowView>, marks: Seq<bool>, n: int)
    requires
        0 <= n <= rows.len(),
        n <= marks.len(),
    ensures
        cache_targets(rows, marks, n).len() == mark_count(marks, n),
        forall|t: int|
            0 <= t < cache_targets(rows, marks, n).len() ==> from_marked_row(
                rows,
                marks,
                n,
                #[trigger] cache_targets(rows, marks, n)[t],
            ),
    decreases n,
{
    if n > 0 {
        lemma_cache_targets(rows, marks, n - 1);
        let prev = cache_targets(rows, marks, n - 1);
        let cur = cache_targets(rows, marks, n);
        assert forall|t: int| 0 <= t < cur.len() implies from_marked_row(rows, marks, n, #[trigger] cur[t]) by {
            if t < prev.len() {
                assert(cur[t] == prev[t]);
                assert(from_marked_row(rows, marks, n - 1, prev[t]));
                let k = choose|k: int| 0 <= k < n - 1 && marks[k] && prev[t] == target_of(
                    rows[k].path,
                    rows[k].size_bytes,
                );
                assert(0 <= k < n && marks[k] && cur[t] == target_of(rows[k].path, rows[k].size_bytes));
            } else {
                assert(marks[n - 1] && cur[t] == target_of(rows[n - 1].path, rows[n - 1].size_bytes));
            }
        }
    }
}

pub proof fn lemma_proj_targets(rows: Seq<ProjRowView>, marks: Seq<bool>, n: int)
    requires
        0 <= n <= rows.len(),
        n <= marks.len(),
    ensures
        proj_targets(rows, marks, n).len() == mark_count(marks, n),
        forall|t: int|
            0 <= t < proj_targets(rows, marks, n).len() ==> from_marked_proj_row(
                rows,
                marks,
                n,
                #[trigger] proj_targets(rows, marks, n)[t],
            ),
    decreases n,
{
    if n > 0 {
        lemma_proj_targets(rows, marks, n - 1);
        let prev = proj_targets(rows, marks, n - 1);
        let cur = proj_targets(rows, marks, n);
        assert forall|t: int| 0 <= t < cur.len() implies from_marked_proj_row(rows, marks, n, #[trigger] cur[t]) by {
            if t < prev.len() {
                assert(cur[t] == prev[t]);
                assert(from_marked_proj_row(rows, marks, n - 1, prev[t]));
                let k = choose|k: int| 0 <= k < n - 1 && marks[k] && prev[t] == target_of(
                    rows[k].path,
                    rows[k].size_bytes,
                );
                assert(0 <= k < n && marks[k] && cur[t] == target_of(rows[k].path, rows[k].size_bytes));
            } else {
                assert(marks[n - 1] && cur[t] == target_of(rows[n - 1].path, rows[n - 1].size_bytes));
            }
        }
    }
}

/// A removal keeps the dashboard well formed and never makes a row's size
/// grow; every row that is not a heading and is at the removed path now
/// shows 0, and every other such row is left as it was.
pub proof fn law_removal_shrinks(s: AppView, t: TargetView, permanent: bool)
    requires
        app_wf(s),
    ensures
        app_wf(after_removed(s, t, permanent)),
        forall|k: int|
            0 <= k < s.rows.len() ==> #[trigger] after_removed(s, t, permanent).rows[k].size_bytes
                <= s.rows[k].size_bytes,
        forall|k: int|
            0 <= k < s.proj_rows.len() ==> #[trigger] after_removed(s, t, permanent).proj_rows[k].size_bytes
                <= s.proj_rows[k].size_bytes,
        forall|k: int|
            0 <= k < s.rows.len() && same_path(s.rows[k].path, t.path) && !(s.rows[k].kind is EcoHeader)
                ==> #[trigger] after_removed(s, t, permanent).rows[k].size_bytes == 0,
        forall|k: int|
            0 <= k < s.proj_rows.len() && same_path(s.proj_rows[k].path, t.path) && s.proj_rows[k].kind is Item
                ==> #[trigger] after_removed(s, t, permanent).proj_rows[k].size_bytes == 0,
        forall|k: int|
            0 <= k < s.rows.len() && !same_path(s.rows[k].path, t.path) && !(s.rows[k].kind is EcoHeader)
                ==> #[trigger] after_removed(s, t, permanent).rows[k] == s.rows[k],
        forall|k: int|
            0 <= k < s.proj_rows.len() && !same_path(s.proj_rows[k].path, t.path) && s.proj_rows[k].kind is Item
                ==> #[trigger] after_removed(s, t, permanent).proj_rows[k] == s.proj_rows[k],
{
    let a = after_removed(s, t, permanent);
    assert forall|k: int|
        0 <= k < s.rows.len() && same_path(s.rows[k].path, t.path) && !(s.rows[k].kind is EcoHeader) implies #[trigger] a.rows[k].size_bytes == 0 by {
        assert(cache_entries(s.rows)[k].role !is Heading);
    }
    assert forall|k: int|
        0 <= k < s.proj_rows.len() && same_path(s.proj_rows[k].path, t.path) && s.proj_rows[k].kind is Item implies #[trigger] a.proj_rows[k].size_bytes == 0 by {
        assert(proj_entries(s.proj_rows)[k].role !is Heading);
    }
    assert forall|k: int|
        0 <= k < s.rows.len() && !same_path(s.rows[k].path, t.path) && !(s.rows[k].kind is EcoHeader) implies #[trigger] a.rows[k] == s.rows[k] by {
        assert(cache_entries(s.rows)[k].role !is Heading);
    }
    assert forall|k: int|
        0 <= k < s.proj_rows.len() && !same_path(s.proj_rows[k].path, t.path) && s.proj_rows[k].kind is Item implies #[trigger] a.proj_rows[k] == s.proj_rows[k] by {
        assert(proj_entries(s.proj_rows)[k].role !is Heading);
    }
    assert forall|k: int| 0 <= k < s.rows.len() implies #[trigger] a.rows[k].size_bytes <= s.rows[k].size_bytes by {
        lemma_size_after_removal_le(cache_entries(s.rows), t.path, t.size, k);
    }
    assert forall|k: int| 0 <= k < s.proj_rows.len() implies #[trigger] a.proj_rows[k].size_bytes
        <= s.proj_rows[k].size_bytes by {
        lemma_size_after_removal_le(proj_entries(s.proj_rows), t.path, t.size, k);
    }
    assert(row_deletable(a.rows) =~= row_deletable(s.rows));
    assert(proj_deletable(a.proj_rows) =~= proj_deletable(s.proj_rows));
    assert forall|i: int| 0 <= i < a.rows.len() && #[trigger] a.selected[i] implies row_deletable(a.rows)[i] by {
        assert(row_deletable(s.rows)[i]);
    }
    assert forall|i: int| 0 <= i < a.proj_rows.len() && #[trigger] a.proj_selected[i] implies proj_deletable(
        a.proj_rows,
    )[i] by {
        assert(proj_deletable(s.proj_rows)[i]);
    }
}

/// At the end of a run nothing is marked in the active list, its total is
/// 0, and the results dialog is shown; the other list is untouched.
pub proof fn law_run_end(s: AppView)
    requires
        app_wf(s),
    ensures
        mark_count(active_marks(after_run(s)), active_marks(after_run(s)).len() as int) == 0,
        after_run(s).mode is Done,
        after_run(s).tab == s.tab,
        app_wf(after_run(s)),
        s.tab == ActiveTab::Caches ==> after_run(s).total_selected == 0 && after_run(s).proj_selected
            == s.proj_selected && after_run(s).proj_total == s.proj_total,
        s.tab == ActiveTab::Projects ==> after_run(s).proj_total == 0 && after_run(s).selected
            == s.selected && after_run(s).total_selected == s.total_selected,
{
    let a = after_run(s);
    lemma_mark_count_bounds(active_marks(a), active_marks(a).len() as int);
}

/// While browsing, each documented key alias acts as the key it stands
/// for: `k` as Up (the cursor moves up), `j` as Down (it moves down),
/// Enter as Space (the row under the cursor is toggled), and the upper-case
/// `Q`, `D`, `C` as `q`, `d`, `c`. In the confirmation and command
/// questions, `N` and Esc act as `n`, and `Y`, `P` as `y`, `p`. (On a result
/// screen only the lower-case `q` dismisses it.)
pub proof fn law_key_aliases(s: AppView)
    ensures
        s.mode is Browse ==> after_key(s, Key::Char('k')) == moved_up(s) && after_key(s, Key::Up)
            == moved_up(s),
        s.mode is Browse ==> after_key(s, Key::Char('j')) == moved_down(s) && after_key(s, Key::Down)
            == moved_down(s),
        s.mode is Browse ==> after_key(s, Key::Enter) == toggled(s) && after_key(s, Key::Char(' '))
            == toggled(s),
        s.mode is Browse ==> key_outcome(s, Key::Char('k')) == key_outcome(s, Key::Up)
            && key_outcome(s, Key::Char('j')) == key_outcome(s, Key::Down) && key_outcome(
            s,
            Key::Enter,
        ) == key_outcome(s, Key::Char(' ')),
        s.mode is Browse ==> after_key(s, Key::Char('Q')) == after_key(s, Key::Char('q')),
        key_outcome(s, Key::Char('Q')) == key_outcome(s, Key::Char('q')),
        after_key(s, Key::Char('D')) == after_key(s, Key::Char('d')),
        key_outcome(s, Key::Char('D')) == key_outcome(s, Key::Char('d')),
        after_key(s, Key::Char('C')) == after_key(s, Key::Char('c')),
        key_outcome(s, Key::Char('C')) == key_outcome(s, Key::Char('c')),
        after_key(s, Key::Char('N')) == after_key(s, Key::Char('n')),
        key_outcome(s, Key::Char('N')) == key_outcome(s, Key::Char('n')),
        after_key(s, Key::Char('Y')) == after_key(s, Key::Char('y')),
        key_outcome(s, Key::Char('Y')) == key_outcome(s, Key::Char('y')),
        after_key(s, Key::Char('P')) == after_key(s, Key::Char('p')),
        key_outcome(s, Key::Char('P')) == key_outcome(s, Key::Char('p')),
        (s.mode is Confirm || s.mode is RunCommand) ==> after_key(s, Key::Esc) == after_key(s, Key::Char('n'))
            && key_outcome(s, Key::Esc) == key_outcome(s, Key::Char('n')),
{
}

/// The other documented controls while browsing: `c` clears the selection
/// of both lists (no row marked, both totals zero) and changes nothing else;
/// Tab switches between the two lists and changes nothing else; a key that
/// is not a control changes nothing and keeps the dashboard open.
pub proof fn law_browse_controls(s: AppView)
    requires
        s.mode is Browse,
    ensures
        ({
            let t = after_key(s, Key::Char('c'));
            &&& t.selected.len() == s.selected.len()
            &&& t.proj_selected.len() == s.proj_selected.len()
            &&& forall|i: int| 0 <= i < t.selected.len() ==> !#[trigger] t.selected[i]
            &&& forall|i: int| 0 <= i < t.proj_selected.len() ==> !#[trigger] t.proj_selected[i]
            &&& t.total_selected == 0 && t.proj_total == 0
            &&& t.rows == s.rows && t.proj_rows == s.proj_rows && t.cursor == s.cursor
                && t.proj_cursor == s.proj_cursor && t.tab == s.tab && t.mode == s.mode
                && t.report == s.report
        }),
        key_outcome(s, Key::Char('c')) is Continue,
        ({
            let t = after_key(s, Key::Tab);
            &&& t.tab != s.tab
            &&& t == AppView { tab: t.tab, ..s }
        }),
        key_outcome(s, Key::Tab) is Continue,
        after_key(s, Key::Other) == s && key_outcome(s, Key::Other) is Continue,
        after_key(s, Key::Esc) == s && key_outcome(s, Key::Esc) is Continue,
        after_key(s, Key::Char('x')) == s && key_outcome(s, Key::Char('x')) is Continue,
{
}

/// A home folder is suggested as a place of projects exactly when its name,
/// lower-cased, is one of `code`, `projects`, `developer`, `development`,
/// `workspace`, `workspaces`, `repos`, `src`, `github`: the suggestions are
/// the folders among `names` with such a name, in order, under `home`.
pub proof fn law_common_dirs(home: Seq<char>, names: Seq<Seq<char>>)
    ensures
        forall|l: Seq<char>|
            #[trigger] is_common_dir_name(l) <==> set![
                "code"@,
                "projects"@,
                "developer"@,
                "development"@,
                "workspace"@,
                "workspaces"@,
                "repos"@,
                "src"@,
                "github"@,
            ].contains(l),
        common_dirs(home, names, names.len() as int) == names.filter(
            |x: Seq<char>| set![
                "code"@,
                "projects"@,
                "developer"@,
                "development"@,
                "workspace"@,
                "workspaces"@,
                "repos"@,
                "src"@,
                "github"@,
            ].contains(lower(x)),
        ).map_values(|x: Seq<char>| join_of(home, x)),
{
    let pred = |x: Seq<char>| set![
                "code"@,
                "projects"@,
                "developer"@,
                "development"@,
                "workspace"@,
                "workspaces"@,
                "repos"@,
                "src"@,
                "github"@,
            ].contains(lower(x));
    assert forall|x: Seq<char>| #[trigger] pred(x) == is_common_dir_name(lower(x)) by {}
    lemma_common_dirs(home, names, pred, names.len() as int);
    assert(names.take(names.len() as int) =~= names);
}

/// The directories suggested for a scan, before missing or repeated ones
/// are dropped: first the configured roots, `~`-expanded, in order; then
/// the home folders whose lower-cased name is one of the nine common ones,
/// in listing order, under `home`; then the parent of the current directory
/// when that looks like a project.
pub proof fn law_suggested_roots(
    roots: Seq<Seq<char>>,
    tilde_home: Option<Seq<char>>,
    home: Seq<char>,
    names: Seq<Seq<char>>,
    cwd: Seq<char>,
    has_marker: bool,
)
    ensures
        root_candidates_of(roots, tilde_home, home, names, cwd, has_marker) == roots.map_values(
            |p: Seq<char>| expand_tilde_of(p, tilde_home),
        ) + names.filter(|x: Seq<char>| set![
                "code"@,
                "projects"@,
                "developer"@,
                "development"@,
                "workspace"@,
                "workspaces"@,
                "repos"@,
                "src"@,
                "github"@,
            ].contains(lower(x))).map_values(
            |x: Seq<char>| join_of(home, x),
        ) + parent_root(cwd, home, has_marker),
{
    law_common_dirs(home, names);
    assert(root_candidates_of(roots, tilde_home, home, names, cwd, has_marker) =~= roots.map_values(
        |p: Seq<char>| expand_tilde_of(p, tilde_home),
    ) + names.filter(|x: Seq<char>| set![
                "code"@,
                "projects"@,
                "developer"@,
                "development"@,
                "workspace"@,
                "workspaces"@,
                "repos"@,
                "src"@,
                "github"@,
            ].contains(lower(x))).map_values(
        |x: Seq<char>| join_of(home, x),
    ) + parent_root(cwd, home, has_marker));
}

proof fn lemma_common_dirs(
    home: Seq<char>,
    names: Seq<Seq<char>>,
    pred: spec_fn(Seq<char>) -> bool,
    n: int,
)
    requires
        0 <= n <= names.len(),
        forall|x: Seq<char>| #[trigger] pred(x) == is_common_dir_name(lower(x)),
    ensures
        common_dirs(home, names, n) == names.take(n).filter(pred).map_values(
            |x: Seq<char>| join_of(home, x),
        ),
    decreases n,
{
    reveal(Seq::filter);
    if n == 0 {
        assert(names.take(0).filter(pred) =~= Seq::<Seq<char>>::empty());
        assert(common_dirs(home, names, n) =~= names.take(n).filter(pred).map_values(
            |x: Seq<char>| join_of(home, x),
        ));
    } else {
        lemma_common_dirs(home, names, pred, n - 1);
        assert(names.take(n).drop_last() =~= names.take(n - 1));
        assert(names.take(n).last() == names[n - 1]);
        assert(common_dirs(home, names, n) =~= names.take(n).filter(pred).map_values(
            |x: Seq<char>| join_of(home, x),
        ));
    }
}

} // verus!
