//! What the details pane and the confirmation dialog show about rows.
use vstd::prelude::*;
use crate::ui::app::{active_cursor, ActiveTab, App, AppView};
use crate::ui::rows::{proj_rows_view, rows_view, ProjRowView, RowAction, RowView};
use crate::utils::paths::{home_dir, strip_prefix, strip_prefix_of};
use crate::utils::text::{clone_opt, concat, trim, trim_ws};

verus! {

/// A path as the dashboard shows it: under the home directory, as `~/` and
/// the rest; elsewhere, as it is.
pub open spec fn shown_path(p: Seq<char>, home: Option<Seq<char>>) -> Seq<char> {
    match home {
        Some(h) => match strip_prefix_of(p, h) {
            Some(rel) => "~/"@ + rel,
            None => p,
        },
        None => p,
    }
}

/// A path as the dashboard shows it, for home directory `home` (`shown_path`).
pub fn display_path_with(p: &str, home: Option<&str>) -> (r: String)
    ensures
        r@ == shown_path(
            p@,
            match home {
                Some(h) => Some(h@),
                None => None,
            },
        ),
{
    match home {
        Some(h) => match strip_prefix(p, h) {
            Some(rel) => concat("~/", rel.as_str()),
            None => String::from_str(p),
        },
        None => String::from_str(p),
    }
}

/// A path as the dashboard shows it, for the current user's home directory.
pub fn display_path(p: &str) -> (r: String)
    ensures
        exists|home: Option<Seq<char>>| r@ == shown_path(p@, home),
{
    match home_dir() {
        Some(h) => {
            let r = display_path_with(p, Some(h.as_str()));
            assert(r@ == shown_path(p@, Some(h@)));
            r
        },
        None => {
            let r = display_path_with(p, None);
            assert(r@ == shown_path(p@, None));
            r
        },
    }
}

/// What the details pane shows of the row under the cursor.
#[derive(Clone, Debug)]
pub struct DetailInfo {
    pub name: String,
    pub path_str: String,
    pub size_bytes: u64,
    pub safe: bool,
    pub last_modified: Option<u64>,
    pub explanation: Option<String>,
    pub is_command: bool,
    pub command_desc: Option<String>,
    pub selectable: bool,
    pub selected: bool,
}

pub struct DetailView {
    pub name: Seq<char>,
    pub path_str: Seq<char>,
    pub size_bytes: u64,
    pub safe: bool,
    pub last_modified: Option<u64>,
    pub explanation: Option<Seq<char>>,
    pub is_command: bool,
    pub command_desc: Option<Seq<char>>,
    pub selectable: bool,
    pub selected: bool,
}

impl View for DetailInfo {
    type V = DetailView;

    open spec fn view(&self) -> DetailView {
        DetailView {
            name: self.name@,
            path_str: self.path_str@,
            size_bytes: self.size_bytes,
            safe: self.safe,
            last_modified: self.last_modified,
            explanation: crate::utils::text::opt_chars(self.explanation),
            is_command: self.is_command,
            command_desc: crate::utils::text::opt_chars(self.command_desc),
            selectable: self.selectable,
            selected: self.selected,
        }
    }
}

pub open spec fn row_detail(r: RowView, selected: bool, home: Option<Seq<char>>) -> DetailView {
    DetailView {
        name: trim_ws(r.label),
        path_str: shown_path(r.path, home),
        size_bytes: r.size_bytes,
        safe: r.safe,
        last_modified: r.last_modified,
        explanation: r.explanation,
        is_command: r.action is RunCommand,
        command_desc: r.command_desc,
        selectable: r.selectable,
        selected: selected,
    }
}

pub open spec fn proj_row_detail(r: ProjRowView, selected: bool, home: Option<Seq<char>>) -> DetailView {
    DetailView {
        name: trim_ws(r.label),
        path_str: shown_path(r.path, home),
        size_bytes: r.size_bytes,
        safe: r.safe,
        last_modified: r.last_modified,
        explanation: r.explanation,
        is_command: false,
        command_desc: None,
        selectable: r.selectable,
        selected: selected,
    }
}

/// The details of the row under the active list's cursor, if it is on a row.
pub open spec fn detail_of(s: AppView, home: Option<Seq<char>>) -> Option<DetailView> {
    let i = active_cursor(s);
    match s.tab {
        ActiveTab::Caches => if 0 <= i < s.rows.len() {
            Some(row_detail(s.rows[i], s.selected[i], home))
        } else {
            None
        },
        ActiveTab::Projects => if 0 <= i < s.proj_rows.len() {
            Some(proj_row_detail(s.proj_rows[i], s.proj_selected[i], home))
        } else {
            None
        },
    }
}

pub open spec fn opt_detail_view(d: Option<DetailInfo>) -> Option<DetailView> {
    match d {
        Some(x) => Some(x@),
        None => None,
    }
}

/// One line of the confirmation dialog: a marked row's name and size.
pub open spec fn confirm_item(label: Seq<char>, size: u64) -> (Seq<char>, u64) {
    (trim_ws(label), size)
}

/// The marked cache rows among the first `n`, as the dialog lists them.
pub open spec fn cache_confirm_items(rows: Seq<RowView>, marks: Seq<bool>, n: int) -> Seq<(Seq<char>, u64)>
    decreases n,
{
    if n <= 0 {
        seq![]
    } else {
        let prev = cache_confirm_items(rows, marks, n - 1);
        if marks[n - 1] {
            prev.push(confirm_item(rows[n - 1].label, rows[n - 1].size_bytes))
        } else {
            prev
        }
    }
}

/// The marked project rows among the first `n`, as the dialog lists them.
pub open spec fn proj_confirm_items(rows: Seq<ProjRowView>, marks: Seq<bool>, n: int) -> Seq<
    (Seq<char>, u64),
>
    decreases n,
{
    if n <= 0 {
        seq![]
    } else {
        let prev = proj_confirm_items(rows, marks, n - 1);
        if marks[n - 1] {
            prev.push(confirm_item(rows[n - 1].label, rows[n - 1].size_bytes))
        } else {
            prev
        }
    }
}

/// What the confirmation dialog lists: the active list's marked rows, in order.
pub open spec fn confirm_items_of(s: AppView) -> Seq<(Seq<char>, u64)> {
    match s.tab {
        ActiveTab::Caches => cache_confirm_items(s.rows, s.selected, s.rows.len() as int),
        ActiveTab::Projects => proj_confirm_items(s.proj_rows, s.proj_selected, s.proj_rows.len() as int),
    }
}

pub open spec fn pairs_view(v: Seq<(String, u64)>) -> Seq<(Seq<char>, u64)> {
    v.map_values(|p: (String, u64)| (p.0@, p.1))
}

impl App {
    /// The details of the row under the cursor, paths shown against home
    /// directory `home` (`detail_of`).
    pub fn current_detail_with(&self, home: Option<&str>) -> (r: Option<DetailInfo>)
        requires
            self@.selected.len() == self@.rows.len(),
            self@.proj_selected.len() == self@.proj_rows.len(),
        ensures
            opt_detail_view(r) == detail_of(
                self@,
                match home {
                    Some(h) => Some(h@),
                    None => None,
                },
            ),
    {
        let i = self.cursor();
        match self.tab {
            ActiveTab::Caches => {
                if i >= self.rows.len() {
                    return None;
                }
                let row = &self.rows[i];
                assert(rows_view(self.rows@)[i as int] == row@);
                let is_command = match row.action {
                    RowAction::RunCommand(_) => true,
                    _ => false,
                };
                Some(
                    DetailInfo {
                        name: trim(row.label.as_str()),
                        path_str: display_path_with(row.path.as_str(), home),
                        size_bytes: row.size_bytes,
                        safe: row.safe,
                        last_modified: row.last_modified,
                        explanation: clone_opt(&row.explanation),
                        is_command,
                        command_desc: clone_opt(&row.command_desc),
                        selectable: row.selectable,
                        selected: self.selected[i],
                    },
                )
            },
            ActiveTab::Projects => {
                if i >= self.proj_rows.len() {
                    return None;
                }
                let row = &self.proj_rows[i];
                assert(proj_rows_view(self.proj_rows@)[i as int] == row@);
                Some(
                    DetailInfo {
                        name: trim(row.label.as_str()),
                        path_str: display_path_with(row.path.as_str(), home),
                        size_bytes: row.size_bytes,
                        safe: row.safe,
                        last_modified: row.last_modified,
                        explanation: clone_opt(&row.explanation),
                        is_command: false,
                        command_desc: None,
                        selectable: row.selectable,
                        selected: self.proj_selected[i],
                    },
                )
            },
        }
    }

    /// The details of the row under the cursor, paths shown against the
    /// current user's home directory.
    pub fn current_detail(&self) -> (r: Option<DetailInfo>)
        requires
            self@.selected.len() == self@.rows.len(),
            self@.proj_selected.len() == self@.proj_rows.len(),
        ensures
            exists|home: Option<Seq<char>>| opt_detail_view(r) == detail_of(self@, home),
    {
        match home_dir() {
            Some(h) => {
                let r = self.current_detail_with(Some(h.as_str()));
                assert(opt_detail_view(r) == detail_of(self@, Some(h@)));
                r
            },
            None => {
                let r = self.current_detail_with(None);
                assert(opt_detail_view(r) == detail_of(self@, None));
                r
            },
        }
    }

    /// What the confirmation dialog lists (`confirm_items_of`).
    pub fn confirm_items(&self) -> (r: Vec<(String, u64)>)
        requires
            self@.selected.len() == self@.rows.len(),
            self@.proj_selected.len() == self@.proj_rows.len(),
        ensures
            pairs_view(r@) == confirm_items_of(self@),
    {
        let mut r: Vec<(String, u64)> = Vec::new();
        match self.tab {
            ActiveTab::Caches => {
                for k in 0..self.rows.len()
                    invariant
                        self@.selected.len() == self@.rows.len(),
                        pairs_view(r@) == cache_confirm_items(self@.rows, self@.selected, k as int),
                {
                    if self.selected[k] {
                        let row = &self.rows[k];
                        let ghost before = pairs_view(r@);
                        r.push((trim(row.label.as_str()), row.size_bytes));
                        assert(pairs_view(r@) =~= before.push(confirm_item(row.label@, row.size_bytes)));
                    }
                }
            },
            ActiveTab::Projects => {
                for k in 0..self.proj_rows.len()
                    invariant
                        self@.proj_selected.len() == self@.proj_rows.len(),
                        pairs_view(r@) == proj_confirm_items(self@.proj_rows, self@.proj_selected, k as int),
                {
                    if self.proj_selected[k] {
                        let row = &self.proj_rows[k];
                        let ghost before = pairs_view(r@);
                        r.push((trim(row.label.as_str()), row.size_bytes));
                        assert(pairs_view(r@) =~= before.push(confirm_item(row.label@, row.size_bytes)));
                    }
                }
            },
        }
        r
    }
}

/// `name` fitted to `width` characters: cut to `width - 1` characters and an
/// ellipsis when longer, padded with spaces when shorter.
pub open spec fn fitted_name(name: Seq<char>, width: nat) -> Seq<char> {
    if name.len() > width {
        name.subrange(0, if width == 0 {
            0
        } else {
            width - 1
        }) + seq!['…']
    } else {
        name + Seq::new((width - name.len()) as nat, |i: int| ' ')
    }
}

/// `name` fitted to `width` characters (`fitted_name`).
pub fn fit_name(name: &str, width: usize) -> (r: String)
    ensures
        r@ == fitted_name(name@, width as nat),
{
    let n = name.unicode_len();
    if n > width {
        let keep = width.saturating_sub(1);
        let mut r = String::from_str(name.substring_char(0, keep));
        r.append("…");
        proof {
            reveal_strlit("…");
        }
        assert(r@ =~= fitted_name(name@, width as nat));
        r
    } else {
        let mut r = String::from_str(name);
        let mut k: usize = n;
        proof {
            reveal_strlit(" ");
        }
        while k < width
            invariant
                n == name@.len(),
                n <= k <= width,
                r@ == name@ + Seq::new((k - n) as nat, |i: int| ' '),
            decreases width - k,
        {
            r.append(" ");
            proof {
                reveal_strlit(" ");
            }
            assert(r@ =~= name@ + Seq::new((k + 1 - n) as nat, |i: int| ' '));
            k = k + 1;
        }
        assert(r@ =~= fitted_name(name@, width as nat));
        r
    }
}

} // verus!
