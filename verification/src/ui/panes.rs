//! The lines of the details pane.
use vstd::prelude::*;
use crate::ui::detail::{DetailInfo, DetailView};
use crate::ui::screen::{lines_view, pieces_view, plain, strong, sp, tp, Color, Look, Piece, PieceText, PieceView};
use crate::utils::age::{age_text, format_age_at, unix_now};
use crate::utils::text::{concat, lines_of, split_lines, str_eq, strings_view, trim, trim_ws};

verus! {

/// Whether the pane shows a path: a non-empty one other than `.`.
pub open spec fn shows_path(p: Seq<char>) -> bool {
    p.len() > 0 && p != seq!['.']
}

/// Each of `ls` on a line of its own, indented by two spaces.
pub open spec fn indented(ls: Seq<Seq<char>>, look: Look) -> Seq<Seq<PieceView>> {
    ls.map_values(|l: Seq<char>| seq![tp("  "@ + l, look)])
}

pub open spec fn detail_head(d: DetailView) -> Seq<Seq<PieceView>> {
    seq![seq![tp(d.name, strong(Color::Cyan))], seq![]]
}

/// The pane for a row that cannot be selected (a heading).
pub open spec fn heading_block(d: DetailView) -> Seq<Seq<PieceView>> {
    (if d.size_bytes > 0 {
        seq![seq![sp("Measured size  "@, d.size_bytes, 0, plain(Color::Default))]]
    } else {
        seq![]
    }) + (if shows_path(d.path_str) {
        seq![seq![], seq![tp("Project directory"@, plain(Color::Default))], seq![tp(d.path_str, plain(Color::Default))]]
    } else {
        seq![]
    }) + seq![seq![], seq![tp("Choose a cache below to see what can be removed."@, plain(Color::Default))]]
}

/// The pane for a command row.
pub open spec fn command_block(d: DetailView) -> Seq<Seq<PieceView>> {
    seq![seq![tp("⚡ Command Action"@, strong(Color::Blue))]] + (match d.command_desc {
        Some(desc) => seq![seq![]] + indented(lines_of(desc), plain(Color::Gray)),
        None => seq![],
    }) + seq![seq![], seq![tp("  [Space/Enter] Run this command"@, strong(Color::Blue))]]
}

/// How long ago `t` was at `now`, or a dash when unknown.
pub open spec fn age_or_dash(t: Option<u64>, now: u64) -> Seq<char> {
    match t {
        Some(x) => age_text(x, now),
        None => "—"@,
    }
}

/// The pane for a row that can be marked for deletion.
pub open spec fn item_block(d: DetailView, now: u64) -> Seq<Seq<PieceView>> {
    (if d.size_bytes > 0 {
        seq![seq![tp("Size     "@, plain(Color::DarkGray)), sp(""@, d.size_bytes, 0, strong(Color::White))]]
    } else {
        seq![]
    }) + seq![
        seq![tp("Modified "@, plain(Color::DarkGray)), tp(age_or_dash(d.last_modified, now), plain(Color::White))],
        seq![
            tp("Safe     "@, plain(Color::DarkGray)),
            if d.safe {
                tp("Yes — safe to delete"@, plain(Color::Green))
            } else {
                tp("⚠ Caution — review first"@, plain(Color::Yellow))
            },
        ],
    ] + (match d.explanation {
        Some(e) => seq![
            seq![],
            seq![
                if d.safe {
                    tp("Why it's safe"@, plain(Color::Green))
                } else {
                    tp("⚠ Important — read before deleting"@, plain(Color::Yellow))
                },
            ],
        ] + indented(lines_of(trim_ws(e)), plain(Color::Gray)),
        None => seq![],
    }) + (if d.selectable {
        seq![
            seq![],
            seq![
                tp(
                    if d.selected {
                        "  [Space] Deselect"@
                    } else {
                        "  [Space] Select for deletion"@
                    },
                    strong(Color::Blue),
                ),
            ],
        ]
    } else {
        seq![]
    }) + (if shows_path(d.path_str) {
        seq![
            seq![],
            seq![tp("Path"@, plain(Color::DarkGray))],
            seq![tp(d.path_str, Look { color: Color::DarkGray, bold: false, italic: true })],
        ]
    } else {
        seq![]
    })
}

/// The lines of the details pane for `d`, ages measured at `now`.
pub open spec fn detail_lines_of(d: DetailView, now: u64) -> Seq<Seq<PieceView>> {
    detail_head(d) + if !d.selectable {
        heading_block(d)
    } else if d.is_command {
        command_block(d)
    } else {
        item_block(d, now)
    }
}

fn look(color: Color, bold: bool, italic: bool) -> (l: Look)
    ensures
        l == (Look { color, bold, italic }),
{
    Look { color, bold, italic }
}

fn one(t: &str, l: Look) -> (r: Vec<Piece>)
    ensures
        pieces_view(r@) == seq![tp(t@, l)],
{
    let mut r: Vec<Piece> = Vec::new();
    r.push(Piece { text: PieceText::Text(String::from_str(t)), look: l });
    assert(pieces_view(r@) =~= seq![tp(t@, l)]);
    r
}

fn blank() -> (r: Vec<Piece>)
    ensures
        pieces_view(r@) == Seq::<PieceView>::empty(),
{
    let r: Vec<Piece> = Vec::new();
    assert(pieces_view(r@) =~= Seq::<PieceView>::empty());
    r
}

/// Appends line `l` to `out`.
fn add_line(out: &mut Vec<Vec<Piece>>, l: Vec<Piece>)
    ensures
        lines_view(final(out)@) == lines_view(old(out)@).push(pieces_view(l@)),
{
    out.push(l);
    assert(lines_view(out@) =~= lines_view(old(out)@).push(pieces_view(l@)));
}

/// Appends each of `ls`, indented, in look `l`.
fn add_indented(out: &mut Vec<Vec<Piece>>, ls: &Vec<String>, l: Look)
    ensures
        lines_view(final(out)@) == lines_view(old(out)@) + indented(strings_view(ls@), l),
{
    let ghost start = lines_view(out@);
    for k in 0..ls.len()
        invariant
            lines_view(out@) == start + indented(strings_view(ls@), l).subrange(0, k as int),
    {
        let text = concat("  ", ls[k].as_str());
        let mut line: Vec<Piece> = Vec::new();
        line.push(Piece { text: PieceText::Text(text), look: l });
        assert(pieces_view(line@) =~= indented(strings_view(ls@), l)[k as int]);
        add_line(out, line);
        assert(lines_view(out@) =~= start + indented(strings_view(ls@), l).subrange(0, k + 1));
    }
    assert(indented(strings_view(ls@), l).subrange(0, ls.len() as int) =~= indented(strings_view(ls@), l));
}

fn shows_path_exec(p: &str) -> (r: bool)
    ensures
        r == shows_path(p@),
{
    proof {
        reveal_strlit(".");
        assert("."@ =~= seq!['.']);
    }
    p.unicode_len() > 0 && !str_eq(p, ".")
}

fn heading_block_exec(d: &DetailInfo) -> (out: Vec<Vec<Piece>>)
    ensures
        lines_view(out@) == heading_block(d@),
{
    let mut out: Vec<Vec<Piece>> = Vec::new();
    if d.size_bytes > 0 {
        let mut line: Vec<Piece> = Vec::new();
        line.push(
            Piece {
                text: PieceText::Size { prefix: String::from_str("Measured size  "), bytes: d.size_bytes, width: 0 },
                look: look(Color::Default, false, false),
            },
        );
        assert(pieces_view(line@) =~= seq![sp("Measured size  "@, d.size_bytes, 0, plain(Color::Default))]);
        add_line(&mut out, line);
    }
    let ghost a = lines_view(out@);
    if shows_path_exec(d.path_str.as_str()) {
        add_line(&mut out, blank());
        add_line(&mut out, one("Project directory", look(Color::Default, false, false)));
        add_line(&mut out, one(d.path_str.as_str(), look(Color::Default, false, false)));
    }
    let ghost b = lines_view(out@);
    add_line(&mut out, blank());
    add_line(&mut out, one("Choose a cache below to see what can be removed.", look(Color::Default, false, false)));
    assert(lines_view(out@) =~= heading_block(d@));
    out
}

fn command_block_exec(d: &DetailInfo) -> (out: Vec<Vec<Piece>>)
    ensures
        lines_view(out@) == command_block(d@),
{
    let mut out: Vec<Vec<Piece>> = Vec::new();
    add_line(&mut out, one("⚡ Command Action", look(Color::Blue, true, false)));
    let ghost a = lines_view(out@);
    match &d.command_desc {
        Some(desc) => {
            add_line(&mut out, blank());
            let ls = split_lines(desc.as_str());
            add_indented(&mut out, &ls, look(Color::Gray, false, false));
        },
        None => {},
    }
    let ghost b = lines_view(out@);
    add_line(&mut out, blank());
    add_line(&mut out, one("  [Space/Enter] Run this command", look(Color::Blue, true, false)));
    assert(lines_view(out@) =~= command_block(d@));
    out
}

/// The size, age and safety lines of an item's pane.
fn facts_exec(d: &DetailInfo, now: u64) -> (out: Vec<Vec<Piece>>)
    ensures
        lines_view(out@) == (if d@.size_bytes > 0 {
            seq![seq![tp("Size     "@, plain(Color::DarkGray)), sp(""@, d@.size_bytes, 0, strong(Color::White))]]
        } else {
            seq![]
        }) + seq![
            seq![tp("Modified "@, plain(Color::DarkGray)), tp(age_or_dash(d@.last_modified, now), plain(Color::White))],
            seq![
                tp("Safe     "@, plain(Color::DarkGray)),
                if d@.safe {
                    tp("Yes — safe to delete"@, plain(Color::Green))
                } else {
                    tp("⚠ Caution — review first"@, plain(Color::Yellow))
                },
            ],
        ],
{
    let mut out: Vec<Vec<Piece>> = Vec::new();
    if d.size_bytes > 0 {
        let mut line: Vec<Piece> = Vec::new();
        line.push(Piece { text: PieceText::Text(String::from_str("Size     ")), look: look(Color::DarkGray, false, false) });
        line.push(
            Piece {
                text: PieceText::Size { prefix: String::from_str(""), bytes: d.size_bytes, width: 0 },
                look: look(Color::White, true, false),
            },
        );
        assert(pieces_view(line@) =~= seq![
            tp("Size     "@, plain(Color::DarkGray)),
            sp(""@, d.size_bytes, 0, strong(Color::White)),
        ]);
        add_line(&mut out, line);
    }
    let ghost a = lines_view(out@);
    let age = match d.last_modified {
        Some(t) => format_age_at(t, now),
        None => String::from_str("—"),
    };
    let mut line: Vec<Piece> = Vec::new();
    line.push(Piece { text: PieceText::Text(String::from_str("Modified ")), look: look(Color::DarkGray, false, false) });
    line.push(Piece { text: PieceText::Text(age), look: look(Color::White, false, false) });
    assert(pieces_view(line@) =~= seq![
        tp("Modified "@, plain(Color::DarkGray)),
        tp(age_or_dash(d@.last_modified, now), plain(Color::White)),
    ]);
    add_line(&mut out, line);
    let mut line: Vec<Piece> = Vec::new();
    line.push(Piece { text: PieceText::Text(String::from_str("Safe     ")), look: look(Color::DarkGray, false, false) });
    if d.safe {
        line.push(Piece { text: PieceText::Text(String::from_str("Yes — safe to delete")), look: look(Color::Green, false, false) });
    } else {
        line.push(
            Piece { text: PieceText::Text(String::from_str("⚠ Caution — review first")), look: look(Color::Yellow, false, false) },
        );
    }
    assert(pieces_view(line@) =~= seq![
        tp("Safe     "@, plain(Color::DarkGray)),
        if d.safe {
            tp("Yes — safe to delete"@, plain(Color::Green))
        } else {
            tp("⚠ Caution — review first"@, plain(Color::Yellow))
        },
    ]);
    add_line(&mut out, line);
    assert(lines_view(out@) =~= a + seq![
        seq![tp("Modified "@, plain(Color::DarkGray)), tp(age_or_dash(d@.last_modified, now), plain(Color::White))],
        seq![
            tp("Safe     "@, plain(Color::DarkGray)),
            if d@.safe {
                tp("Yes — safe to delete"@, plain(Color::Green))
            } else {
                tp("⚠ Caution — review first"@, plain(Color::Yellow))
            },
        ],
    ]);
    out
}

/// The explanation, selection hint and path lines of an item's pane.
fn notes_exec(d: &DetailInfo) -> (out: Vec<Vec<Piece>>)
    ensures
        lines_view(out@) == (match d@.explanation {
            Some(e) => seq![
                seq![],
                seq![
                    if d@.safe {
                        tp("Why it's safe"@, plain(Color::Green))
                    } else {
                        tp("⚠ Important — read before deleting"@, plain(Color::Yellow))
                    },
                ],
            ] + indented(lines_of(trim_ws(e)), plain(Color::Gray)),
            None => seq![],
        }) + (if d@.selectable {
            seq![
                seq![],
                seq![
                    tp(
                        if d@.selected {
                            "  [Space] Deselect"@
                        } else {
                            "  [Space] Select for deletion"@
                        },
                        strong(Color::Blue),
                    ),
                ],
            ]
        } else {
            seq![]
        }) + (if shows_path(d@.path_str) {
            seq![
                seq![],
                seq![tp("Path"@, plain(Color::DarkGray))],
                seq![tp(d@.path_str, Look { color: Color::DarkGray, bold: false, italic: true })],
            ]
        } else {
            seq![]
        }),
{
    let mut out: Vec<Vec<Piece>> = Vec::new();
    match &d.explanation {
        Some(e) => {
            add_line(&mut out, blank());
            if d.safe {
                add_line(&mut out, one("Why it's safe", look(Color::Green, false, false)));
            } else {
                add_line(&mut out, one("⚠ Important — read before deleting", look(Color::Yellow, false, false)));
            }
            let t = trim(e.as_str());
            let ls = split_lines(t.as_str());
            add_indented(&mut out, &ls, look(Color::Gray, false, false));
        },
        None => {},
    }
    let ghost c = lines_view(out@);
    if d.selectable {
        add_line(&mut out, blank());
        if d.selected {
            add_line(&mut out, one("  [Space] Deselect", look(Color::Blue, true, false)));
        } else {
            add_line(&mut out, one("  [Space] Select for deletion", look(Color::Blue, true, false)));
        }
    }
    let ghost e = lines_view(out@);
    if shows_path_exec(d.path_str.as_str()) {
        add_line(&mut out, blank());
        add_line(&mut out, one("Path", look(Color::DarkGray, false, false)));
        add_line(&mut out, one(d.path_str.as_str(), look(Color::DarkGray, false, true)));
    }
    assert(lines_view(out@) =~= (match d@.explanation {
        Some(e) => seq![
            seq![],
            seq![
                if d@.safe {
                    tp("Why it's safe"@, plain(Color::Green))
                } else {
                    tp("⚠ Important — read before deleting"@, plain(Color::Yellow))
                },
            ],
        ] + indented(lines_of(trim_ws(e)), plain(Color::Gray)),
        None => seq![],
    }) + (if d@.selectable {
        seq![
            seq![],
            seq![
                tp(
                    if d@.selected {
                        "  [Space] Deselect"@
                    } else {
                        "  [Space] Select for deletion"@
                    },
                    strong(Color::Blue),
                ),
            ],
        ]
    } else {
        seq![]
    }) + (if shows_path(d@.path_str) {
        seq![
            seq![],
            seq![tp("Path"@, plain(Color::DarkGray))],
            seq![tp(d@.path_str, Look { color: Color::DarkGray, bold: false, italic: true })],
        ]
    } else {
        seq![]
    }));
    out
}

/// Appends every line of `more` to `out`.
fn add_all(out: &mut Vec<Vec<Piece>>, more: Vec<Vec<Piece>>)
    ensures
        lines_view(final(out)@) == lines_view(old(out)@) + lines_view(more@),
{
    let ghost m = more@;
    let mut more = more;
    out.append(&mut more);
    assert(lines_view(out@) =~= lines_view(old(out)@) + lines_view(m));
}

/// The lines of the details pane for `d`, ages measured at `now`
/// (`detail_lines_of`).
pub fn detail_lines_at(d: &DetailInfo, now: u64) -> (r: Vec<Vec<Piece>>)
    ensures
        lines_view(r@) == detail_lines_of(d@, now),
{
    let mut out: Vec<Vec<Piece>> = Vec::new();
    add_line(&mut out, one(d.name.as_str(), look(Color::Cyan, true, false)));
    add_line(&mut out, blank());
    assert(lines_view(out@) =~= detail_head(d@));
    if !d.selectable {
        add_all(&mut out, heading_block_exec(d));
    } else if d.is_command {
        add_all(&mut out, command_block_exec(d));
    } else {
        let facts = facts_exec(d, now);
        let notes = notes_exec(d);
        add_all(&mut out, facts);
        add_all(&mut out, notes);
        assert(lines_view(out@) =~= detail_head(d@) + item_block(d@, now));
    }
    out
}

/// The lines of the details pane for `d`, ages measured from the current
/// time.
pub fn detail_lines(d: &DetailInfo) -> (r: Vec<Vec<Piece>>)
    ensures
        exists|now: u64| lines_view(r@) == detail_lines_of(d@, now),
{
    let now = unix_now();
    detail_lines_at(d, now)
}

} // verus!
