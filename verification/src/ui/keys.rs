//! What a key press does to the dashboard, and what it asks the terminal
//! loop to do next.
use vstd::prelude::*;
use crate::ui::app::{toggle_fits, app_wf, cleared, mark_count, active_marks, moved_down, moved_up, switched, toggled, App, AppMode, AppView, ModeView};
use crate::utils::text::{concat, concat3, trim, trim_ws};

verus! {

/// A key as the dashboard reads it.
#[derive(Clone, Copy, Debug, PartialEq, Eq, Structural)]
pub enum Key {
    Char(char),
    Up,
    Down,
    Enter,
    Esc,
    Tab,
    Other,
}

/// What the terminal loop does after a key.
#[derive(Clone, Debug, PartialEq, Eq)]
pub enum KeyOutcome {
    /// Draw again and wait for the next key.
    Continue,
    /// Leave the dashboard.
    Quit,
    /// Remove the active list's marked rows, to the Trash or for good.
    Delete { permanent: bool },
    /// Run this shell command and report its output.
    RunCommand(String),
}

pub enum OutcomeView {
    Continue,
    Quit,
    Delete { permanent: bool },
    RunCommand(Seq<char>),
}

impl View for KeyOutcome {
    type V = OutcomeView;

    open spec fn view(&self) -> OutcomeView {
        match self {
            KeyOutcome::Continue => OutcomeView::Continue,
            KeyOutcome::Quit => OutcomeView::Quit,
            KeyOutcome::Delete { permanent } => OutcomeView::Delete { permanent: *permanent },
            KeyOutcome::RunCommand(c) => OutcomeView::RunCommand(c@),
        }
    }
}

pub open spec fn is_char(k: Key, lower: char, upper: char) -> bool {
    k == Key::Char(lower) || k == Key::Char(upper)
}

pub open spec fn with_mode(s: AppView, m: ModeView) -> AppView {
    AppView { mode: m, ..s }
}

/// The dashboard after `k`.
pub open spec fn after_key(s: AppView, k: Key) -> AppView {
    match s.mode {
        ModeView::Browse => if is_char(k, 'q', 'Q') {
            s
        } else if k == Key::Down || k == Key::Char('j') {
            moved_down(s)
        } else if k == Key::Up || k == Key::Char('k') {
            moved_up(s)
        } else if k == Key::Char(' ') || k == Key::Enter {
            toggled(s)
        } else if k == Key::Tab {
            switched(s)
        } else if is_char(k, 'd', 'D') {
            if mark_count(active_marks(s), active_marks(s).len() as int) > 0 {
                with_mode(s, ModeView::Confirm)
            } else {
                s
            }
        } else if is_char(k, 'c', 'C') {
            cleared(s)
        } else {
            s
        },
        ModeView::Confirm => if is_char(k, 'n', 'N') || k == Key::Esc {
            with_mode(s, ModeView::Browse)
        } else {
            s
        },
        ModeView::RunCommand { .. } => if is_char(k, 'n', 'N') || k == Key::Esc {
            with_mode(s, ModeView::Browse)
        } else {
            s
        },
        ModeView::CommandOutput { .. } | ModeView::Done => if k == Key::Enter || k == Key::Esc || k
            == Key::Char('q') {
            AppView { mode: ModeView::Browse, delete_log: seq![], ..s }
        } else {
            s
        },
        ModeView::Deleting { .. } => s,
    }
}

/// What the terminal loop does after `k`.
pub open spec fn key_outcome(s: AppView, k: Key) -> OutcomeView {
    match s.mode {
        ModeView::Browse => if is_char(k, 'q', 'Q') {
            OutcomeView::Quit
        } else {
            OutcomeView::Continue
        },
        ModeView::Confirm => if is_char(k, 'y', 'Y') {
            OutcomeView::Delete { permanent: false }
        } else if is_char(k, 'p', 'P') {
            OutcomeView::Delete { permanent: true }
        } else {
            OutcomeView::Continue
        },
        ModeView::RunCommand { command, .. } => if is_char(k, 'y', 'Y') {
            OutcomeView::RunCommand(command)
        } else {
            OutcomeView::Continue
        },
        _ => OutcomeView::Continue,
    }
}

/// The output shown for a command: its standard output, then its error
/// output on a line of its own when there is any, trimmed.
pub open spec fn command_output_of(stdout: Seq<char>, stderr: Seq<char>) -> Seq<char> {
    trim_ws(
        if stderr.len() == 0 {
            stdout
        } else {
            stdout + "\n"@ + stderr
        },
    )
}

/// A key that cancels a scan in progress: Esc, `q`, `Q`, or Ctrl-C.
pub open spec fn cancels_scan(k: Key, ctrl: bool) -> bool {
    k == Key::Esc || is_char(k, 'q', 'Q') || (k == Key::Char('c') && ctrl)
}

fn key_is(k: Key, lower: char, upper: char) -> (r: bool)
    ensures
        r == is_char(k, lower, upper),
{
    k == Key::Char(lower) || k == Key::Char(upper)
}

/// Whether `k` (with Ctrl held when `ctrl`) cancels a scan in progress.
pub fn is_cancel_key(k: Key, ctrl: bool) -> (r: bool)
    ensures
        r == cancels_scan(k, ctrl),
{
    k == Key::Esc || key_is(k, 'q', 'Q') || (k == Key::Char('c') && ctrl)
}

/// The spinner's frame for tick `tick`.
pub fn spinner_frame(tick: usize) -> (r: String)
    ensures
        r@ == (if tick % 4 == 0 {
            "◐"@
        } else if tick % 4 == 1 {
            "◓"@
        } else if tick % 4 == 2 {
            "◑"@
        } else {
            "◒"@
        }),
{
    let k = tick % 4;
    if k == 0 {
        String::from_str("◐")
    } else if k == 1 {
        String::from_str("◓")
    } else if k == 2 {
        String::from_str("◑")
    } else {
        String::from_str("◒")
    }
}

/// Whether key `k` keeps every selected total within a `u64`: only a toggle
/// while browsing can make one grow.
pub open spec fn key_fits(s: AppView, k: Key) -> bool {
    (s.mode is Browse && (k == Key::Char(' ') || k == Key::Enter)) ==> toggle_fits(s)
}

impl App {
    /// Whether key `k` keeps every selected total within a `u64` (`key_fits`).
    pub fn key_fits(&self, k: Key) -> (r: bool)
        requires
            app_wf(self@),
        ensures
            r == key_fits(self@, k),
    {
        match self.mode {
            AppMode::Browse => {
                if k == Key::Char(' ') || k == Key::Enter {
                    self.toggle_fits()
                } else {
                    true
                }
            },
            _ => true,
        }
    }

    fn set_mode(&mut self, m: AppMode)
        ensures
            final(self)@ == with_mode(old(self)@, m@),
    {
        self.mode = m;
    }

    /// Handles a key (`after_key`), and says what the terminal loop does next
    /// (`key_outcome`).
    pub fn handle_key(&mut self, k: Key) -> (r: KeyOutcome)
        requires
            app_wf(old(self)@),
            key_fits(old(self)@, k),
        ensures
            final(self)@ == after_key(old(self)@, k),
            r@ == key_outcome(old(self)@, k),
    {
        match &self.mode {
            AppMode::Browse => {
                if key_is(k, 'q', 'Q') {
                    return KeyOutcome::Quit;
                } else if k == Key::Down || k == Key::Char('j') {
                    self.move_down();
                } else if k == Key::Up || k == Key::Char('k') {
                    self.move_up();
                } else if k == Key::Char(' ') || k == Key::Enter {
                    self.toggle();
                } else if k == Key::Tab {
                    self.switch_tab();
                } else if key_is(k, 'd', 'D') {
                    if self.can_delete() {
                        self.set_mode(AppMode::Confirm);
                    }
                } else if key_is(k, 'c', 'C') {
                    self.clear_selection();
                }
                KeyOutcome::Continue
            },
            AppMode::Confirm => {
                if key_is(k, 'y', 'Y') {
                    KeyOutcome::Delete { permanent: false }
                } else if key_is(k, 'p', 'P') {
                    KeyOutcome::Delete { permanent: true }
                } else {
                    if key_is(k, 'n', 'N') || k == Key::Esc {
                        self.set_mode(AppMode::Browse);
                    }
                    KeyOutcome::Continue
                }
            },
            AppMode::RunCommand { command, .. } => {
                if key_is(k, 'y', 'Y') {
                    KeyOutcome::RunCommand(command.clone())
                } else {
                    if key_is(k, 'n', 'N') || k == Key::Esc {
                        self.set_mode(AppMode::Browse);
                    }
                    KeyOutcome::Continue
                }
            },
            AppMode::CommandOutput { .. } | AppMode::Done => {
                if k == Key::Enter || k == Key::Esc || k == Key::Char('q') {
                    self.mode = AppMode::Browse;
                    self.delete_log = Vec::new();
                    assert(self@.delete_log =~= Seq::<Seq<char>>::empty());
                }
                KeyOutcome::Continue
            },
            AppMode::Deleting { .. } => KeyOutcome::Continue,
        }
    }

    /// Shows what a finished command printed (`command_output_of`), and
    /// whether it succeeded.
    pub fn command_finished(&mut self, stdout: &str, stderr: &str, success: bool)
        ensures
            final(self)@ == with_mode(
                old(self)@,
                ModeView::CommandOutput { output: command_output_of(stdout@, stderr@), success },
            ),
    {
        let combined = if stderr.unicode_len() == 0 {
            String::from_str(stdout)
        } else {
            concat3(stdout, "\n", stderr)
        };
        proof {
            reveal_strlit("\n");
        }
        let output = trim(combined.as_str());
        self.mode = AppMode::CommandOutput { output, success };
    }

    /// Shows that a command could not be started.
    pub fn command_failed(&mut self, error: &str)
        ensures
            final(self)@ == with_mode(
                old(self)@,
                ModeView::CommandOutput { output: "Failed to run command: "@ + error@, success: false },
            ),
    {
        let output = concat("Failed to run command: ", error);
        self.mode = AppMode::CommandOutput { output, success: false };
    }
}

} // verus!
