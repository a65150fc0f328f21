//! What the dashboard's screens say, piece by piece, and how each piece
//! looks. Sizes are left as numbers for the terminal side to write in
//! human units.
use vstd::prelude::*;
use crate::ui::app::App;
use crate::ui::detail::{fit_name, fitted_name};
use crate::ui::rows::{ProjRow, ProjRowKind, ProjRowView, Row, RowKind, RowView};

use crate::utils::text::{chars_of, starts_with, trim, trim_start_seq, trim_ws};

verus! {

/// A colour of the terminal palette.
#[derive(Clone, Copy, Debug, PartialEq, Eq, Structural)]
pub enum Color {
    Default,
    Cyan,
    Green,
    Yellow,
    Blue,
    Magenta,
    Gray,
    DarkGray,
    White,
    Red,
}

/// How a piece of text is drawn.
#[derive(Clone, Copy, Debug, PartialEq, Eq, Structural)]
pub struct Look {
    pub color: Color,
    pub bold: bool,
    pub italic: bool,
}

/// The text of a piece: literal text, or a size in bytes written in human
/// units after `prefix`, right-aligned to `width` characters (0: not aligned).
#[derive(Clone, Debug)]
pub enum PieceText {
    Text(String),
    Size { prefix: String, bytes: u64, width: usize },
}

/// A piece of a line.
#[derive(Clone, Debug)]
pub struct Piece {
    pub text: PieceText,
    pub look: Look,
}

pub enum PieceTextView {
    Text(Seq<char>),
    Size { prefix: Seq<char>, bytes: u64, width: usize },
}

pub struct PieceView {
    pub text: PieceTextView,
    pub look: Look,
}

impl View for Piece {
    type V = PieceView;

    open spec fn view(&self) -> PieceView {
        PieceView {
            text: match self.text {
                PieceText::Text(t) => PieceTextView::Text(t@),
                PieceText::Size { prefix, bytes, width } => PieceTextView::Size { prefix: prefix@, bytes, width },
            },
            look: self.look,
        }
    }
}

pub open spec fn pieces_view(v: Seq<Piece>) -> Seq<PieceView> {
    v.map_values(|p: Piece| p@)
}

pub open spec fn lines_view(v: Seq<Vec<Piece>>) -> Seq<Seq<PieceView>> {
    v.map_values(|l: Vec<Piece>| pieces_view(l@))
}

pub open spec fn plain(c: Color) -> Look {
    Look { color: c, bold: false, italic: false }
}

pub open spec fn strong(c: Color) -> Look {
    Look { color: c, bold: true, italic: false }
}

/// A piece of literal text.
pub open spec fn tp(t: Seq<char>, look: Look) -> PieceView {
    PieceView { text: PieceTextView::Text(t), look }
}

/// A piece holding a size.
pub open spec fn sp(prefix: Seq<char>, bytes: u64, width: usize, look: Look) -> PieceView {
    PieceView { text: PieceTextView::Size { prefix, bytes, width }, look }
}

fn plain_look(c: Color) -> (l: Look)
    ensures
        l == plain(c),
{
    Look { color: c, bold: false, italic: false }
}

fn strong_look(c: Color) -> (l: Look)
    ensures
        l == strong(c),
{
    Look { color: c, bold: true, italic: false }
}

fn text_piece(t: &str, look: Look) -> (p: Piece)
    ensures
        p@ == tp(t@, look),
{
    Piece { text: PieceText::Text(String::from_str(t)), look }
}

fn owned_piece(t: String, look: Look) -> (p: Piece)
    ensures
        p@ == tp(t@, look),
{
    Piece { text: PieceText::Text(t), look }
}

fn size_piece(prefix: &str, bytes: u64, width: usize, look: Look) -> (p: Piece)
    ensures
        p@ == sp(prefix@, bytes, width, look),
{
    Piece { text: PieceText::Size { prefix: String::from_str(prefix), bytes, width }, look }
}

// ── The two lists ─────────────────────────────────────────────────────────────

/// The width left for names in a list `area_width` wide, `taken` of it used
/// by the other columns; at least 1.
pub open spec fn name_width_of(area_width: u16, taken: int) -> nat {
    if area_width - taken >= 1 {
        (area_width - taken) as nat
    } else {
        1
    }
}

fn name_width(area_width: u16, taken: u16) -> (r: usize)
    ensures
        r as nat == name_width_of(area_width, taken as int),
{
    let w = (area_width as usize).saturating_sub(taken as usize);
    if w >= 1 {
        w
    } else {
        1
    }
}

/// A command row's name: its label, trimmed, without the leading lightning marks.
pub open spec fn command_name(label: Seq<char>) -> Seq<char> {
    trim_start_seq(trim_ws(label), seq!['⚡', ' '])
}

/// The pieces of a cache row `w` characters wide for names.
pub open spec fn cache_row_pieces(r: RowView, selected: bool, w: nat) -> Seq<PieceView> {
    match r.kind {
        RowKind::EcoHeader { .. } => seq![
            tp("  ▸ "@, plain(Color::Cyan)),
            tp(r.label, strong(Color::Default)),
            if r.size_bytes > 0 {
                sp("  "@, r.size_bytes, 0, plain(Color::DarkGray))
            } else {
                tp(""@, plain(Color::DarkGray))
            },
        ],
        RowKind::CommandItem { .. } => seq![
            tp("  [run] "@, plain(Color::Blue)),
            tp(fitted_name(command_name(r.label), w), plain(Color::Blue)),
            if r.safe {
                tp(""@, plain(Color::Green))
            } else {
                tp(" ⚠ caution"@, plain(Color::Yellow))
            },
        ],
        RowKind::GlobalItem { .. } => seq![
            if selected {
                tp("  [✓] "@, plain(Color::Yellow))
            } else {
                tp("  [ ] "@, plain(Color::DarkGray))
            },
            tp(fitted_name(trim_ws(r.label), w), plain(Color::Default)),
            sp(""@, r.size_bytes, 10, strong(Color::White)),
            tp(if r.safe {
                ""@
            } else {
                " ⚠"@
            }, plain(Color::Yellow)),
        ],
    }
}

/// The pieces of a project row `w` characters wide for names.
pub open spec fn proj_row_pieces(r: ProjRowView, selected: bool, w: nat) -> Seq<PieceView> {
    match r.kind {
        ProjRowKind::Header { .. } => seq![
            tp(" ◈ "@, strong(Color::Magenta)),
            tp(fitted_name(trim_ws(r.label), w + 4), strong(Color::Default)),
            sp("  "@, r.size_bytes, 0, plain(Color::Yellow)),
        ],
        ProjRowKind::Item { .. } => seq![
            if selected {
                tp("   [✓] "@, plain(Color::Yellow))
            } else {
                tp("   [ ] "@, plain(Color::DarkGray))
            },
            tp(fitted_name(trim_ws(r.label), w), plain(Color::Default)),
            sp(""@, r.size_bytes, 10, strong(Color::White)),
            tp(if r.safe {
                ""@
            } else {
                " ⚠"@
            }, plain(Color::Yellow)),
        ],
    }
}

/// Where the text of `v` starts once every leading `⚡ ` is taken off.
fn skip_bolts(v: &Vec<char>) -> (m: usize)
    ensures
        m <= v.len(),
        v@.subrange(m as int, v.len() as int) == trim_start_seq(v@, seq!['⚡', ' ']),
{
    let mut m: usize = 0;
    assert(v@.subrange(0, v.len() as int) =~= v@);
    while v.len() - m >= 2 && v[m] == '⚡' && v[m + 1] == ' '
        invariant
            m <= v.len(),
            trim_start_seq(v@, seq!['⚡', ' ']) == trim_start_seq(
                v@.subrange(m as int, v.len() as int),
                seq!['⚡', ' '],
            ),
        decreases v.len() - m,
    {
        let ghost t = v@.subrange(m as int, v.len() as int);
        assert(t.subrange(0, 2) =~= seq!['⚡', ' ']);
        assert(t.subrange(2, t.len() as int) =~= v@.subrange(m + 2, v.len() as int));
        m = m + 2;
    }
    proof {
        let t = v@.subrange(m as int, v.len() as int);
        if t.len() >= 2 {
            assert(t.subrange(0, 2)[0] == t[0] && t.subrange(0, 2)[1] == t[1]);
            assert(t[0] == v@[m as int] && t[1] == v@[m + 1]);
        }
        assert(!starts_with(t, seq!['⚡', ' ']));
    }
    m
}

/// A command row's name (`command_name`).
fn command_name_exec(label: &str) -> (r: String)
    ensures
        r@ == command_name(label@),
{
    let t = trim(label);
    let v = chars_of(t.as_str());
    let m = skip_bolts(&v);
    String::from_str(t.as_str().substring_char(m, v.len()))
}

/// The pieces of a cache row in a list `area_width` wide (`cache_row_pieces`).
pub fn cache_row_line(r: &Row, selected: bool, area_width: u16) -> (p: Vec<Piece>)
    ensures
        pieces_view(p@) == cache_row_pieces(r@, selected, name_width_of(area_width, 28)),
{
    let w = name_width(area_width, 28);
    let mut p: Vec<Piece> = Vec::new();
    match r.kind {
        RowKind::EcoHeader { .. } => {
            p.push(text_piece("  ▸ ", plain_look(Color::Cyan)));
            p.push(owned_piece(r.label.clone(), strong_look(Color::Default)));
            if r.size_bytes > 0 {
                p.push(size_piece("  ", r.size_bytes, 0, plain_look(Color::DarkGray)));
            } else {
                p.push(text_piece("", plain_look(Color::DarkGray)));
            }
        },
        RowKind::CommandItem { .. } => {
            p.push(text_piece("  [run] ", plain_look(Color::Blue)));
            let name = command_name_exec(r.label.as_str());
            p.push(owned_piece(fit_name(name.as_str(), w), plain_look(Color::Blue)));
            if r.safe {
                p.push(text_piece("", plain_look(Color::Green)));
            } else {
                p.push(text_piece(" ⚠ caution", plain_look(Color::Yellow)));
            }
        },
        RowKind::GlobalItem { .. } => {
            if selected {
                p.push(text_piece("  [✓] ", plain_look(Color::Yellow)));
            } else {
                p.push(text_piece("  [ ] ", plain_look(Color::DarkGray)));
            }
            let name = trim(r.label.as_str());
            p.push(owned_piece(fit_name(name.as_str(), w), plain_look(Color::Default)));
            p.push(size_piece("", r.size_bytes, 10, strong_look(Color::White)));
            p.push(text_piece(if r.safe { "" } else { " ⚠" }, plain_look(Color::Yellow)));
        },
    }
    assert(pieces_view(p@) =~= cache_row_pieces(r@, selected, name_width_of(area_width, 28)));
    p
}

/// The pieces of a project row in a list `area_width` wide (`proj_row_pieces`).
pub fn proj_row_line(r: &ProjRow, selected: bool, area_width: u16) -> (p: Vec<Piece>)
    ensures
        pieces_view(p@) == proj_row_pieces(r@, selected, name_width_of(area_width, 29)),
{
    let w = name_width(area_width, 29);
    let mut p: Vec<Piece> = Vec::new();
    let name = trim(r.label.as_str());
    match r.kind {
        ProjRowKind::Header { .. } => {
            p.push(text_piece(" ◈ ", strong_look(Color::Magenta)));
            p.push(owned_piece(fit_name(name.as_str(), w + 4), strong_look(Color::Default)));
            p.push(size_piece("  ", r.size_bytes, 0, plain_look(Color::Yellow)));
        },
        ProjRowKind::Item { .. } => {
            if selected {
                p.push(text_piece("   [✓] ", plain_look(Color::Yellow)));
            } else {
                p.push(text_piece("   [ ] ", plain_look(Color::DarkGray)));
            }
            p.push(owned_piece(fit_name(name.as_str(), w), plain_look(Color::Default)));
            p.push(size_piece("", r.size_bytes, 10, strong_look(Color::White)));
            p.push(text_piece(if r.safe { "" } else { " ⚠" }, plain_look(Color::Yellow)));
        },
    }
    assert(pieces_view(p@) =~= proj_row_pieces(r@, selected, name_width_of(area_width, 29)));
    p
}

impl App {
    /// The lines of the cache list in an area `area_width` wide.
    pub fn cache_list_lines(&self, area_width: u16) -> (r: Vec<Vec<Piece>>)
        requires
            self@.selected.len() == self@.rows.len(),
        ensures
            lines_view(r@) == Seq::new(
                self@.rows.len(),
                |i: int| cache_row_pieces(self@.rows[i], self@.selected[i], name_width_of(area_width, 28)),
            ),
    {
        let mut r: Vec<Vec<Piece>> = Vec::new();
        for k in 0..self.rows.len()
            invariant
                self@.selected.len() == self@.rows.len(),
                lines_view(r@) == Seq::new(
                    k as nat,
                    |i: int| cache_row_pieces(self@.rows[i], self@.selected[i], name_width_of(area_width, 28)),
                ),
        {
            let ghost before = lines_view(r@);
            let line = cache_row_line(&self.rows[k], self.selected[k], area_width);
            assert(self@.rows[k as int] == self.rows@[k as int]@);
            r.push(line);
            assert(lines_view(r@) =~= before.push(pieces_view(line@)));
            assert(lines_view(r@) =~= Seq::new(
                (k + 1) as nat,
                |i: int| cache_row_pieces(self@.rows[i], self@.selected[i], name_width_of(area_width, 28)),
            ));
        }
        r
    }

    /// The lines of the project list in an area `area_width` wide.
    pub fn proj_list_lines(&self, area_width: u16) -> (r: Vec<Vec<Piece>>)
        requires
            self@.proj_selected.len() == self@.proj_rows.len(),
        ensures
            lines_view(r@) == Seq::new(
                self@.proj_rows.len(),
                |i: int| proj_row_pieces(self@.proj_rows[i], self@.proj_selected[i], name_width_of(area_width, 29)),
            ),
    {
        let mut r: Vec<Vec<Piece>> = Vec::new();
        for k in 0..self.proj_rows.len()
            invariant
                self@.proj_selected.len() == self@.proj_rows.len(),
                lines_view(r@) == Seq::new(
                    k as nat,
                    |i: int| proj_row_pieces(self@.proj_rows[i], self@.proj_selected[i], name_width_of(area_width, 29)),
                ),
        {
            let ghost before = lines_view(r@);
            let line = proj_row_line(&self.proj_rows[k], self.proj_selected[k], area_width);
            assert(self@.proj_rows[k as int] == self.proj_rows@[k as int]@);
            r.push(line);
            assert(lines_view(r@) =~= before.push(pieces_view(line@)));
            assert(lines_view(r@) =~= Seq::new(
                (k + 1) as nat,
                |i: int| proj_row_pieces(self@.proj_rows[i], self@.proj_selected[i], name_width_of(area_width, 29)),
            ));
        }
        r
    }
}

} // verus!
