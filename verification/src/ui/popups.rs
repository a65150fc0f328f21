//! The header, tabs and footer, the scanning screen, the dialogs, and the
//! receipt's totals.
use vstd::prelude::*;
use crate::models::scan::ProjectSummaryView;
use crate::ui::app::{mark_count, receipt_view, App, ReceiptEntry};
use crate::ui::panes::indented;
use crate::ui::rows::{parent_name, parent_name_of};
use crate::ui::screen::{lines_view, pieces_view, plain, sp, strong, tp, Color, Look, Piece, PieceText, PieceView};
use crate::utils::paths::{file_name, file_name_of};
use crate::utils::text::{concat, concat3, decimal, lines_of, split_lines, starts_with, strings_view, to_decimal};

verus! {

// ── Footer, header, tabs ──────────────────────────────────────────────────────

/// The key hint of a footer `width` columns wide: the widest that fits.
pub open spec fn footer_hint_of(width: u16) -> Seq<char> {
    if width >= 68 {
        " Space Select  d Delete  c Clear  Tab Views  q Quit"@
    } else if width >= 48 {
        " Space Select  d Delete  Tab Views  q Quit"@
    } else {
        " Space Select  d Delete  q Quit"@
    }
}

/// The key hint of a footer `width` columns wide (`footer_hint_of`).
pub fn footer_hint(width: u16) -> (r: String)
    ensures
        r@ == footer_hint_of(width),
{
    if width >= 68 {
        String::from_str(" Space Select  d Delete  c Clear  Tab Views  q Quit")
    } else if width >= 48 {
        String::from_str(" Space Select  d Delete  Tab Views  q Quit")
    } else {
        String::from_str(" Space Select  d Delete  q Quit")
    }
}

/// The footer is yellow while something is marked, grey otherwise.
pub fn footer_look(selected_count: usize) -> (l: Look)
    ensures
        l == (if selected_count > 0 {
            plain(Color::Yellow)
        } else {
            plain(Color::DarkGray)
        }),
{
    if selected_count > 0 {
        Look { color: Color::Yellow, bold: false, italic: false }
    } else {
        Look { color: Color::DarkGray, bold: false, italic: false }
    }
}

/// The header: the total found, and the active list's selected total when
/// something is selected.
pub open spec fn header_pieces_of(total: u64, selected: u64) -> Seq<PieceView> {
    seq![
        tp(" 🧹 Scrub  "@, strong(Color::Cyan)),
        sp(""@, total, 0, strong(Color::Green)),
        tp(" found in cache locations"@, plain(Color::DarkGray)),
    ] + if selected > 0 {
        seq![sp("  ·  "@, selected, 0, strong(Color::Yellow)), tp(" selected"@, strong(Color::Yellow))]
    } else {
        seq![tp(""@, strong(Color::Yellow))]
    }
}

/// The title of a tab: its name, and how many of its rows are marked when any are.
pub open spec fn tab_title_of(name: Seq<char>, count: nat) -> Seq<char> {
    "  "@ + name + (if count == 0 {
        ""@
    } else {
        " ("@ + decimal(count) + ")"@
    }) + "  "@
}

/// The number of projects with a non-zero total among the first `n`.
pub open spec fn nonempty_projects(ps: Seq<ProjectSummaryView>, n: int) -> nat
    decreases n,
{
    if n <= 0 {
        0
    } else {
        nonempty_projects(ps, n - 1) + if ps[n - 1].total_size > 0 {
            1nat
        } else {
            0
        }
    }
}

/// The project list's title.
pub open spec fn proj_title_of(count: nat) -> Seq<char> {
    " Project caches ("@ + decimal(count) + " "@ + (if count == 1 {
        "project"@
    } else {
        "projects"@
    }) + ") "@
}

fn count_marks(v: &Vec<bool>) -> (r: usize)
    ensures
        r == mark_count(v@, v@.len() as int),
{
    let mut c: usize = 0;
    for k in 0..v.len()
        invariant
            c == mark_count(v@, k as int),
    {
        proof {
            crate::ui::app::lemma_mark_count_bounds(v@, k as int);
        }
        if v[k] {
            c = c + 1;
        }
    }
    c
}

fn tab_title(name: &str, count: usize) -> (r: String)
    ensures
        r@ == tab_title_of(name@, count as nat),
{
    let mut r = concat("  ", name);
    if count > 0 {
        let d = to_decimal(count as u64);
        r.append(" (");
        r.append(d.as_str());
        r.append(")");
    }
    r.append("  ");
    proof {
        reveal_strlit("");
    }
    assert(r@ =~= tab_title_of(name@, count as nat));
    r
}

impl App {
    /// The header's pieces (`header_pieces_of` of the report's total and the
    /// active list's selected total).
    pub fn header_pieces(&self) -> (r: Vec<Piece>)
        ensures
            pieces_view(r@) == header_pieces_of(self.report.total_size, crate::ui::app::active_total(self@)),
    {
        let selected = self.selected_bytes();
        let mut r: Vec<Piece> = Vec::new();
        r.push(Piece { text: PieceText::Text(String::from_str(" 🧹 Scrub  ")), look: Look { color: Color::Cyan, bold: true, italic: false } });
        r.push(
            Piece {
                text: PieceText::Size { prefix: String::from_str(""), bytes: self.report.total_size, width: 0 },
                look: Look { color: Color::Green, bold: true, italic: false },
            },
        );
        r.push(
            Piece {
                text: PieceText::Text(String::from_str(" found in cache locations")),
                look: Look { color: Color::DarkGray, bold: false, italic: false },
            },
        );
        if selected > 0 {
            r.push(
                Piece {
                    text: PieceText::Size { prefix: String::from_str("  ·  "), bytes: selected, width: 0 },
                    look: Look { color: Color::Yellow, bold: true, italic: false },
                },
            );
            r.push(Piece { text: PieceText::Text(String::from_str(" selected")), look: Look { color: Color::Yellow, bold: true, italic: false } });
        } else {
            r.push(Piece { text: PieceText::Text(String::from_str("")), look: Look { color: Color::Yellow, bold: true, italic: false } });
        }
        assert(pieces_view(r@) =~= header_pieces_of(self.report.total_size, selected));
        r
    }

    /// The titles of the two tabs (`tab_title_of` with each list's count of
    /// marked rows).
    pub fn tab_titles(&self) -> (r: (String, String))
        ensures
            r.0@ == tab_title_of("Computer caches"@, mark_count(self@.selected, self@.selected.len() as int) as nat),
            r.1@ == tab_title_of(
                "Project caches"@,
                mark_count(self@.proj_selected, self@.proj_selected.len() as int) as nat,
            ),
    {
        let a = count_marks(&self.selected);
        let b = count_marks(&self.proj_selected);
        (tab_title("Computer caches", a), tab_title("Project caches", b))
    }

    /// The project list's title, counting the projects with a non-zero total.
    pub fn proj_list_title(&self) -> (r: String)
        ensures
            r@ == proj_title_of(nonempty_projects(self@.report.projects, self@.report.projects.len() as int)),
    {
        let ghost ps = self@.report.projects;
        let mut count: usize = 0;
        for k in 0..self.report.projects.len()
            invariant
                ps == self@.report.projects,
                ps.len() == self.report.projects@.len(),
                count == nonempty_projects(ps, k as int),
                count <= k,
        {
            assert(ps[k as int] == self.report.projects@[k as int]@);
            if self.report.projects[k].total_size > 0 {
                count = count + 1;
            }
        }
        let word = if count == 1 {
            "project"
        } else {
            "projects"
        };
        let d = to_decimal(count as u64);
        let mut r = concat3(" Project caches (", d.as_str(), " ");
        r.append(word);
        r.append(") ");
        assert(r@ =~= proj_title_of(count as nat));
        r
    }
}

// ── Scanning screen ───────────────────────────────────────────────────────────

/// The scanning screen's title line.
pub open spec fn scanning_title_of(spinner: Seq<char>) -> Seq<char> {
    spinner + "  Scanning caches"@
}

/// The last component of `p`, or empty.
pub open spec fn name_or_empty(p: Seq<char>) -> Seq<char> {
    match file_name_of(p) {
        Some(n) => n,
        None => Seq::<char>::empty(),
    }
}

/// What the scanning screen says of the folder being scanned: its parent's
/// name and its own, or that the scan is starting.
pub open spec fn scanning_label_of(p: Seq<char>) -> Seq<char> {
    if p.len() == 0 {
        "Looking for caches"@
    } else {
        parent_name_of(p) + " / "@ + name_or_empty(p)
    }
}

/// The scanning screen's title line (`scanning_title_of`).
pub fn scanning_title(spinner: &str) -> (r: String)
    ensures
        r@ == scanning_title_of(spinner@),
{
    concat(spinner, "  Scanning caches")
}

/// What the scanning screen says of folder `p` (`scanning_label_of`).
pub fn scanning_label(p: &str) -> (r: String)
    ensures
        r@ == scanning_label_of(p@),
{
    if p.unicode_len() == 0 {
        return String::from_str("Looking for caches");
    }
    let parent = parent_name(p);
    let name = match file_name(p) {
        Some(n) => n,
        None => String::new(),
    };
    concat3(parent.as_str(), " / ", name.as_str())
}

// ── Dialogs ───────────────────────────────────────────────────────────────────

/// The confirmation dialog for `items` (name and size of each marked row)
/// of `total` bytes.
pub open spec fn confirm_lines_of(items: Seq<(Seq<char>, u64)>, total: u64) -> Seq<Seq<PieceView>> {
    let n = items.len();
    seq![
        seq![],
        seq![
            tp("  Remove "@ + decimal(n) + " item"@ + (if n == 1 {
                ""@
            } else {
                "s"@
            }) + " ("@, strong(Color::White)),
            sp(""@, total, 0, strong(Color::White)),
            tp(")?"@, strong(Color::White)),
        ],
        seq![],
    ] + Seq::new(
        if n > 3 {
            3
        } else {
            n
        },
        |i: int|
            seq![
                tp("  • "@, plain(Color::Yellow)),
                tp(items[i].0, plain(Color::Gray)),
                sp("  ("@, items[i].1, 0, plain(Color::White)),
                tp(")"@, plain(Color::White)),
            ],
    ) + (if n > 3 {
        seq![seq![tp("  ... and "@ + decimal((n - 3) as nat) + " more"@, plain(Color::DarkGray))]]
    } else {
        seq![]
    }) + seq![
        seq![],
        seq![tp("  Trash is recoverable; permanent deletion is not."@, plain(Color::DarkGray))],
        seq![],
        seq![tp("  [Y] Move to Trash   "@, strong(Color::Green)), tp("[P] Delete Permanently"@, strong(Color::Red))],
        seq![tp("  [N/Esc] Cancel"@, strong(Color::DarkGray))],
    ]
}

pub open spec fn pairs_view(v: Seq<(String, u64)>) -> Seq<(Seq<char>, u64)> {
    v.map_values(|p: (String, u64)| (p.0@, p.1))
}

fn text(t: &str, color: Color, bold: bool) -> (p: Piece)
    ensures
        p@ == tp(t@, Look { color, bold, italic: false }),
{
    Piece { text: PieceText::Text(String::from_str(t)), look: Look { color, bold, italic: false } }
}

fn owned(t: String, color: Color, bold: bool) -> (p: Piece)
    ensures
        p@ == tp(t@, Look { color, bold, italic: false }),
{
    Piece { text: PieceText::Text(t), look: Look { color, bold, italic: false } }
}

fn size(prefix: &str, bytes: u64, color: Color, bold: bool) -> (p: Piece)
    ensures
        p@ == sp(prefix@, bytes, 0, Look { color, bold, italic: false }),
{
    Piece { text: PieceText::Size { prefix: String::from_str(prefix), bytes, width: 0 }, look: Look { color, bold, italic: false } }
}

fn push_line(out: &mut Vec<Vec<Piece>>, l: Vec<Piece>)
    ensures
        lines_view(final(out)@) == lines_view(old(out)@).push(pieces_view(l@)),
{
    out.push(l);
    assert(lines_view(out@) =~= lines_view(old(out)@).push(pieces_view(l@)));
}

fn line1(a: Piece) -> (l: Vec<Piece>)
    ensures
        pieces_view(l@) == seq![a@],
{
    let mut l: Vec<Piece> = Vec::new();
    l.push(a);
    assert(pieces_view(l@) =~= seq![a@]);
    l
}

fn line2(a: Piece, b: Piece) -> (l: Vec<Piece>)
    ensures
        pieces_view(l@) == seq![a@, b@],
{
    let mut l: Vec<Piece> = Vec::new();
    l.push(a);
    l.push(b);
    assert(pieces_view(l@) =~= seq![a@, b@]);
    l
}

fn empty_line() -> (l: Vec<Piece>)
    ensures
        pieces_view(l@) == Seq::<PieceView>::empty(),
{
    let l: Vec<Piece> = Vec::new();
    assert(pieces_view(l@) =~= Seq::<PieceView>::empty());
    l
}

/// The confirmation dialog (`confirm_lines_of`).
pub fn confirm_lines(items: &Vec<(String, u64)>, total: u64) -> (r: Vec<Vec<Piece>>)
    ensures
        lines_view(r@) == confirm_lines_of(pairs_view(items@), total),
{
    let ghost iv = pairs_view(items@);
    let n = items.len();
    let mut out: Vec<Vec<Piece>> = Vec::new();
    push_line(&mut out, empty_line());
    let mut head = concat3("  Remove ", to_decimal(n as u64).as_str(), " item");
    if n != 1 {
        head.append("s");
    } else {
        head.append("");
    }
    head.append(" (");
    proof {
        reveal_strlit("");
        reveal_strlit("s");
    }
    assert(head@ =~= "  Remove "@ + decimal(n as nat) + " item"@ + (if n == 1 {
        ""@
    } else {
        "s"@
    }) + " ("@);
    let mut l: Vec<Piece> = Vec::new();
    l.push(owned(head, Color::White, true));
    l.push(size("", total, Color::White, true));
    l.push(text(")?", Color::White, true));
    assert(pieces_view(l@) =~= seq![
        tp("  Remove "@ + decimal(n as nat) + " item"@ + (if n == 1 {
            ""@
        } else {
            "s"@
        }) + " ("@, strong(Color::White)),
        sp(""@, total, 0, strong(Color::White)),
        tp(")?"@, strong(Color::White)),
    ]);
    push_line(&mut out, l);
    push_line(&mut out, empty_line());
    proof {
        reveal_strlit("");
        reveal_strlit("s");
    }
    let ghost start = lines_view(out@);
    assert(start =~= seq![
        seq![],
        seq![
            tp("  Remove "@ + decimal(n as nat) + " item"@ + (if n == 1 {
                ""@
            } else {
                "s"@
            }) + " ("@, strong(Color::White)),
            sp(""@, total, 0, strong(Color::White)),
            tp(")?"@, strong(Color::White)),
        ],
        seq![],
    ]);
    let shown = if n > 3 {
        3
    } else {
        n
    };
    for k in 0..shown
        invariant
            iv == pairs_view(items@),
            shown <= n == items@.len(),
            lines_view(out@) == start + Seq::new(
                k as nat,
                |i: int|
                    seq![
                        tp("  • "@, plain(Color::Yellow)),
                        tp(iv[i].0, plain(Color::Gray)),
                        sp("  ("@, iv[i].1, 0, plain(Color::White)),
                        tp(")"@, plain(Color::White)),
                    ],
            ),
    {
        let mut l: Vec<Piece> = Vec::new();
        l.push(text("  • ", Color::Yellow, false));
        l.push(owned(items[k].0.clone(), Color::Gray, false));
        l.push(size("  (", items[k].1, Color::White, false));
        l.push(text(")", Color::White, false));
        assert(iv[k as int] == (items@[k as int].0@, items@[k as int].1));
        assert(pieces_view(l@) =~= seq![
            tp("  • "@, plain(Color::Yellow)),
            tp(iv[k as int].0, plain(Color::Gray)),
            sp("  ("@, iv[k as int].1, 0, plain(Color::White)),
            tp(")"@, plain(Color::White)),
        ]);
        let ghost before = lines_view(out@);
        push_line(&mut out, l);
        assert(lines_view(out@) =~= start + Seq::new(
            (k + 1) as nat,
            |i: int|
                seq![
                    tp("  • "@, plain(Color::Yellow)),
                    tp(iv[i].0, plain(Color::Gray)),
                    sp("  ("@, iv[i].1, 0, plain(Color::White)),
                    tp(")"@, plain(Color::White)),
                ],
        ));
    }
    let ghost mid = lines_view(out@);
    if n > 3 {
        let more = concat3("  ... and ", to_decimal((n - 3) as u64).as_str(), " more");
        push_line(&mut out, line1(owned(more, Color::DarkGray, false)));
    }
    let ghost after_more = lines_view(out@);
    push_line(&mut out, empty_line());
    push_line(&mut out, line1(text("  Trash is recoverable; permanent deletion is not.", Color::DarkGray, false)));
    push_line(&mut out, empty_line());
    push_line(
        &mut out,
        line2(text("  [Y] Move to Trash   ", Color::Green, true), text("[P] Delete Permanently", Color::Red, true)),
    );
    push_line(&mut out, line1(text("  [N/Esc] Cancel", Color::DarkGray, true)));
    proof {
        reveal_strlit("");
        reveal_strlit("s");
    }
    assert(lines_view(out@) =~= confirm_lines_of(iv, total));
    out
}

/// The dialog before running `command`.
pub open spec fn run_command_lines_of(command: Seq<char>, description: Seq<char>) -> Seq<Seq<PieceView>> {
    seq![
        seq![],
        seq![tp("  "@ + description, plain(Color::White))],
        seq![],
        seq![tp("  Command:"@, plain(Color::DarkGray))],
        seq![tp("  $ "@ + command, strong(Color::Cyan))],
        seq![],
        seq![tp("  [Y] Run it   "@, strong(Color::Green)), tp("[N/Esc] Cancel"@, strong(Color::Red))],
    ]
}

/// The dialog before running `command` (`run_command_lines_of`).
pub fn run_command_lines(command: &str, description: &str) -> (r: Vec<Vec<Piece>>)
    ensures
        lines_view(r@) == run_command_lines_of(command@, description@),
{
    let mut out: Vec<Vec<Piece>> = Vec::new();
    push_line(&mut out, empty_line());
    push_line(&mut out, line1(owned(concat("  ", description), Color::White, false)));
    push_line(&mut out, empty_line());
    push_line(&mut out, line1(text("  Command:", Color::DarkGray, false)));
    push_line(&mut out, line1(owned(concat("  $ ", command), Color::Cyan, true)));
    push_line(&mut out, empty_line());
    push_line(&mut out, line2(text("  [Y] Run it   ", Color::Green, true), text("[N/Esc] Cancel", Color::Red, true)));
    assert(lines_view(out@) =~= run_command_lines_of(command@, description@));
    out
}

/// The title of the command-output dialog.
pub fn output_title(success: bool) -> (r: String)
    ensures
        r@ == (if success {
            " ✓ Command Output "@
        } else {
            " ✗ Command Failed "@
        }),
{
    if success {
        String::from_str(" ✓ Command Output ")
    } else {
        String::from_str(" ✗ Command Failed ")
    }
}

/// The command-output dialog: the first 20 lines of the output, a mark when
/// there were more, and the dismiss hint.
pub open spec fn output_lines_of(output: Seq<char>) -> Seq<Seq<PieceView>> {
    let ls = lines_of(output);
    seq![seq![]] + indented(ls.take(if ls.len() > 20 {
        20
    } else {
        ls.len() as int
    }), plain(Color::Gray)) + (if ls.len() > 20 {
        seq![seq![tp("  ..."@, plain(Color::DarkGray))]]
    } else {
        seq![]
    }) + seq![seq![], seq![tp("  [Enter/Esc] Dismiss"@, plain(Color::DarkGray))]]
}

/// The command-output dialog (`output_lines_of`).
pub fn output_lines(output: &str) -> (r: Vec<Vec<Piece>>)
    ensures
        lines_view(r@) == output_lines_of(output@),
{
    let ls = split_lines(output);
    let ghost lv = strings_view(ls@);
    let mut out: Vec<Vec<Piece>> = Vec::new();
    push_line(&mut out, empty_line());
    let ghost start = lines_view(out@);
    let shown = if ls.len() > 20 {
        20
    } else {
        ls.len()
    };
    for k in 0..shown
        invariant
            lv == strings_view(ls@),
            shown <= ls@.len(),
            lines_view(out@) == start + indented(lv.take(k as int), plain(Color::Gray)),
    {
        push_line(&mut out, line1(owned(concat("  ", ls[k].as_str()), Color::Gray, false)));
        assert(lv.take(k + 1) =~= lv.take(k as int).push(lv[k as int]));
        assert(lines_view(out@) =~= start + indented(lv.take(k + 1), plain(Color::Gray)));
    }
    if ls.len() > 20 {
        push_line(&mut out, line1(text("  ...", Color::DarkGray, false)));
    }
    let ghost b = lines_view(out@);
    push_line(&mut out, empty_line());
    push_line(&mut out, line1(text("  [Enter/Esc] Dismiss", Color::DarkGray, false)));
    assert(lines_view(out@) =~= output_lines_of(output@));
    out
}

/// The progress dialog's text.
pub open spec fn deleting_text_of(current: Seq<char>, done: nat, total: nat, permanent: bool) -> Seq<char> {
    "\n  "@ + (if permanent {
        "Permanently deleting"@
    } else {
        "Moving to Trash"@
    }) + " ("@ + decimal(done) + " of "@ + decimal(total) + ")\n  "@ + current
}

/// The progress dialog's text (`deleting_text_of`).
pub fn deleting_text(current: &str, done: usize, total: usize, permanent: bool) -> (r: String)
    ensures
        r@ == deleting_text_of(current@, done as nat, total as nat, permanent),
{
    let mut r = String::from_str("\n  ");
    if permanent {
        r.append("Permanently deleting");
    } else {
        r.append("Moving to Trash");
    }
    r.append(" (");
    r.append(to_decimal(done as u64).as_str());
    r.append(" of ");
    r.append(to_decimal(total as u64).as_str());
    r.append(")\n  ");
    r.append(current);
    assert(r@ =~= deleting_text_of(current@, done as nat, total as nat, permanent));
    r
}

/// The results dialog for a log of `log`, in an area `height` lines high:
/// as many entries as fit (3 lines are taken), green for a removal and red
/// for a failure, then how many more there were.
pub open spec fn done_lines_of(log: Seq<Seq<char>>, height: u16) -> Seq<Seq<PieceView>> {
    let room: int = if height >= 3 {
        height - 3
    } else {
        0
    };
    let visible: int = if log.len() < room {
        log.len() as int
    } else {
        room
    };
    seq![seq![tp("  Results:"@, plain(Color::Default))], seq![]] + Seq::new(
        visible as nat,
        |i: int|
            seq![
                tp("  "@ + log[i], if starts_with(log[i], seq!['✓']) {
                    plain(Color::Green)
                } else {
                    plain(Color::Red)
                }),
            ],
    ) + (if log.len() > visible {
        seq![seq![tp("  ... and "@ + decimal((log.len() - visible) as nat) + " more"@, plain(Color::DarkGray))]]
    } else {
        seq![]
    })
}

/// The results dialog (`done_lines_of`).
pub fn done_lines(log: &Vec<String>, height: u16) -> (r: Vec<Vec<Piece>>)
    ensures
        lines_view(r@) == done_lines_of(strings_view(log@), height),
{
    let ghost lv = strings_view(log@);
    let room: usize = (height as usize).saturating_sub(3);
    let visible: usize = if log.len() < room {
        log.len()
    } else {
        room
    };
    let mut out: Vec<Vec<Piece>> = Vec::new();
    push_line(&mut out, line1(text("  Results:", Color::Default, false)));
    push_line(&mut out, empty_line());
    let ghost start = lines_view(out@);
    for k in 0..visible
        invariant
            lv == strings_view(log@),
            visible <= log@.len(),
            lines_view(out@) == start + Seq::new(
                k as nat,
                |i: int|
                    seq![
                        tp("  "@ + lv[i], if starts_with(lv[i], seq!['✓']) {
                            plain(Color::Green)
                        } else {
                            plain(Color::Red)
                        }),
                    ],
            ),
    {
        let entry = &log[k];
        assert(lv[k as int] == entry@);
        let v = crate::utils::text::chars_of(entry.as_str());
        let ok = v.len() > 0 && v[0] == '✓';
        proof {
            if v@.len() > 0 {
                assert(v@.subrange(0, 1) =~= seq![v@[0]]);
                if v@[0] != '✓' {
                    assert(v@.subrange(0, 1)[0] != seq!['✓'][0]);
                }
            }
        }
        assert(ok == starts_with(lv[k as int], seq!['✓']));
        let color = if ok {
            Color::Green
        } else {
            Color::Red
        };
        push_line(&mut out, line1(owned(concat("  ", entry.as_str()), color, false)));
        assert(lines_view(out@) =~= start + Seq::new(
            (k + 1) as nat,
            |i: int|
                seq![
                    tp("  "@ + lv[i], if starts_with(lv[i], seq!['✓']) {
                        plain(Color::Green)
                    } else {
                        plain(Color::Red)
                    }),
                ],
        ));
    }
    let ghost b = lines_view(out@);
    if log.len() > visible {
        let more = concat3("  ... and ", to_decimal((log.len() - visible) as u64).as_str(), " more");
        push_line(&mut out, line1(owned(more, Color::DarkGray, false)));
    }
    assert(lines_view(out@) =~= done_lines_of(lv, height));
    out
}

/// The line below the results that says how to close them.
pub fn dismiss_hint() -> (r: String)
    ensures
        r@ == "  [Enter] Dismiss"@,
{
    String::from_str("  [Enter] Dismiss")
}

// ── Receipt ───────────────────────────────────────────────────────────────────

/// The sizes of the first `n` receipt entries that were deleted for good
/// (`permanent`) or moved to the Trash (`!permanent`).
pub open spec fn receipt_sum(r: Seq<(Seq<char>, u64, bool)>, permanent: bool, n: int) -> int
    decreases n,
{
    if n <= 0 {
        0
    } else {
        receipt_sum(r, permanent, n - 1) + if r[n - 1].2 == permanent {
            r[n - 1].1 as int
        } else {
            0
        }
    }
}

pub proof fn lemma_receipt_sum_mono(r: Seq<(Seq<char>, u64, bool)>, permanent: bool, a: int, b: int)
    requires
        0 <= a <= b,
    ensures
        0 <= receipt_sum(r, permanent, a) <= receipt_sum(r, permanent, b),
    decreases b,
{
    if a < b {
        lemma_receipt_sum_mono(r, permanent, a, b - 1);
    } else if a > 0 {
        lemma_receipt_sum_mono(r, permanent, 0, a - 1);
    }
}

/// The receipt's totals: what was deleted for good, and what was moved to
/// the Trash; `None` when either overflows a `u64`.
pub fn receipt_totals(receipt: &Vec<ReceiptEntry>) -> (r: Option<(u64, u64)>)
    ensures
        r is Some <==> (receipt_sum(receipt_view(receipt@), true, receipt@.len() as int) <= u64::MAX
            && receipt_sum(receipt_view(receipt@), false, receipt@.len() as int) <= u64::MAX),
        r matches Some(t) ==> t.0 == receipt_sum(receipt_view(receipt@), true, receipt@.len() as int)
            && t.1 == receipt_sum(receipt_view(receipt@), false, receipt@.len() as int),
{
    let ghost rv = receipt_view(receipt@);
    let mut deleted: u64 = 0;
    let mut trashed: u64 = 0;
    for k in 0..receipt.len()
        invariant
            rv == receipt_view(receipt@),
            deleted == receipt_sum(rv, true, k as int),
            trashed == receipt_sum(rv, false, k as int),
    {
        let e = &receipt[k];
        assert(rv[k as int] == (e.label@, e.size, e.permanent));
        proof {
            lemma_receipt_sum_mono(rv, true, k + 1, receipt@.len() as int);
            lemma_receipt_sum_mono(rv, false, k + 1, receipt@.len() as int);
        }
        if e.permanent {
            match deleted.checked_add(e.size) {
                Some(t) => deleted = t,
                None => return None,
            }
        } else {
            match trashed.checked_add(e.size) {
                Some(t) => trashed = t,
                None => return None,
            }
        }
    }
    Some((deleted, trashed))
}

} // verus!
