//! How the sizes shown in a list change once a path has been removed: rows at
//! that path drop to zero, and each group heading loses the removed size once
//! for each of its rows that did.
use vstd::prelude::*;
use crate::utils::paths::{paths_equal, same_path};

verus! {

/// The part a row plays in the list's size bookkeeping.
#[derive(Clone, Copy, Debug, PartialEq, Eq, Structural)]
pub enum Role {
    /// The heading of group `g`, whose size is the sum of its members'.
    Heading(usize),
    /// A member of group `g`.
    Member(usize),
    /// Neither.
    Plain,
}

/// A row as the bookkeeping sees it: its path, its shown size, its role.
#[derive(Clone, Debug)]
pub struct SizedEntry {
    pub path: String,
    pub size: u64,
    pub role: Role,
}

pub struct EntryView {
    pub path: Seq<char>,
    pub size: u64,
    pub role: Role,
}

impl View for SizedEntry {
    type V = EntryView;

    open spec fn view(&self) -> EntryView {
        EntryView { path: self.path@, size: self.size, role: self.role }
    }
}

pub open spec fn entries_view(v: Seq<SizedEntry>) -> Seq<EntryView> {
    v.map_values(|e: SizedEntry| e@)
}

/// `x - y`, or 0 when `y` is larger.
pub open spec fn sat_sub(x: u64, y: u64) -> u64 {
    if x >= y {
        (x - y) as u64
    } else {
        0
    }
}

/// `y` taken from `x`, `k` times, never going below 0.
pub open spec fn sat_rep(x: u64, y: u64, k: nat) -> u64
    decreases k,
{
    if k == 0 {
        x
    } else {
        sat_sub(sat_rep(x, y, (k - 1) as nat), y)
    }
}

/// A row is at path `p` and still shows a size.
pub open spec fn at_path(e: EntryView, p: Seq<char>) -> bool {
    same_path(e.path, p) && e.size > 0
}

/// The number of members of group `g` among entries `a..b` that are at `p`.
pub open spec fn member_hits(es: Seq<EntryView>, p: Seq<char>, g: usize, a: int, b: int) -> nat
    decreases b - a,
{
    if b <= a {
        0
    } else {
        member_hits(es, p, g, a, b - 1) + if es[b - 1].role == Role::Member(g) && at_path(es[b - 1], p) {
            1nat
        } else {
            0
        }
    }
}

/// The size entry `j` shows once the path `p`, of size `size`, is gone: a
/// row at `p` shows 0; the heading of group `g` loses `size` for each member
/// of `g` at `p` (never going below 0), and shows 0 if it is itself at `p`
/// once the members before it are counted.
pub open spec fn size_after_removal(es: Seq<EntryView>, p: Seq<char>, size: u64, j: int) -> u64 {
    let e = es[j];
    match e.role {
        Role::Heading(g) => {
            let mid = sat_rep(e.size, size, member_hits(es, p, g, 0, j));
            if same_path(e.path, p) && mid > 0 {
                0
            } else {
                sat_rep(mid, size, member_hits(es, p, g, j + 1, es.len() as int))
            }
        },
        _ => if at_path(e, p) {
            0
        } else {
            e.size
        },
    }
}

/// The size of entry `j` once entries `0..i` have been looked at.
pub open spec fn size_part_way(es: Seq<EntryView>, p: Seq<char>, size: u64, j: int, i: int) -> u64 {
    let e = es[j];
    match e.role {
        Role::Heading(g) => if j < i {
            let mid = sat_rep(e.size, size, member_hits(es, p, g, 0, j));
            if same_path(e.path, p) && mid > 0 {
                0
            } else {
                sat_rep(mid, size, member_hits(es, p, g, j + 1, i))
            }
        } else {
            sat_rep(e.size, size, member_hits(es, p, g, 0, i))
        },
        _ => if j < i && at_path(e, p) {
            0
        } else {
            e.size
        },
    }
}

pub proof fn lemma_sat_rep_zero(y: u64, k: nat)
    ensures
        sat_rep(0, y, k) == 0,
    decreases k,
{
    if k > 0 {
        lemma_sat_rep_zero(y, (k - 1) as nat);
    }
}

pub proof fn lemma_sat_rep_le(x: u64, y: u64, k: nat)
    ensures
        sat_rep(x, y, k) <= x,
    decreases k,
{
    if k > 0 {
        lemma_sat_rep_le(x, y, (k - 1) as nat);
    }
}

/// No size grows.
pub proof fn lemma_size_after_removal_le(es: Seq<EntryView>, p: Seq<char>, size: u64, j: int)
    requires
        0 <= j < es.len(),
    ensures
        size_after_removal(es, p, size, j) <= es[j].size,
{
    let e = es[j];
    match e.role {
        Role::Heading(g) => {
            let mid = sat_rep(e.size, size, member_hits(es, p, g, 0, j));
            lemma_sat_rep_le(e.size, size, member_hits(es, p, g, 0, j));
            lemma_sat_rep_le(mid, size, member_hits(es, p, g, j + 1, es.len() as int));
        },
        _ => {},
    }
}

/// The sizes shown once path `p`, of size `size`, is gone
/// (`size_after_removal` for each entry).
pub fn sizes_after_removal(entries: &Vec<SizedEntry>, p: &str, size: u64) -> (r: Vec<u64>)
    ensures
        r@.len() == entries@.len(),
        forall|j: int|
            0 <= j < entries@.len() ==> #[trigger] r@[j] == size_after_removal(
                entries_view(entries@),
                p@,
                size,
                j,
            ),
{
    let ghost es = entries_view(entries@);
    let n = entries.len();
    let mut sizes: Vec<u64> = Vec::new();
    for k in 0..n
        invariant
            n == entries@.len(),
            es == entries_view(entries@),
            sizes@.len() == k,
            forall|j: int| 0 <= j < k ==> #[trigger] sizes@[j] == es[j].size,
    {
        sizes.push(entries[k].size);
    }
    assert forall|j: int| 0 <= j < n implies #[trigger] sizes@[j] == size_part_way(es, p@, size, j, 0) by {
        assert(sizes@[j] == es[j].size);
    }
    for i in 0..n
        invariant
            n == entries@.len(),
            es == entries_view(entries@),
            sizes@.len() == n,
            forall|j: int| 0 <= j < n ==> #[trigger] sizes@[j] == size_part_way(es, p@, size, j, i as int),
    {
        let e = &entries[i];
        assert(es[i as int] == e@);
        assert(sizes@[i as int] == size_part_way(es, p@, size, i as int, i as int));
        let ghost before = sizes@;
        let hit = sizes[i] > 0 && paths_equal(e.path.as_str(), p);
        if hit {
            sizes.set(i, 0);
            match e.role {
                Role::Member(g) => {
                    let ghost mid = sizes@;
                    for j in 0..n
                        invariant
                            n == entries@.len(),
                            es == entries_view(entries@),
                            sizes@.len() == n,
                            es[i as int].role == Role::Member(g),
                            forall|k: int|
                                j <= k < n ==> #[trigger] sizes@[k] == mid[k],
                            forall|k: int|
                                0 <= k < j ==> #[trigger] sizes@[k] == if es[k].role == Role::Heading(g) {
                                    sat_sub(mid[k], size)
                                } else {
                                    mid[k]
                                },
                    {
                        assert(es[j as int] == entries@[j as int]@);
                        if entries[j].role == Role::Heading(g) {
                            let v = sizes[j].saturating_sub(size);
                            sizes.set(j, v);
                        }
                    }
                },
                _ => {},
            }
        }
        proof {
            assert forall|j: int| 0 <= j < n implies #[trigger] sizes@[j] == size_part_way(
                es,
                p@,
                size,
                j,
                i + 1,
            ) by {
                let ej = es[j];
                match ej.role {
                    Role::Heading(gj) => {
                        assert(member_hits(es, p@, gj, 0, i + 1) == member_hits(es, p@, gj, 0, i as int) + if es[i as int].role
                            == Role::Member(gj) && at_path(es[i as int], p@) {
                            1nat
                        } else {
                            0
                        });
                        assert(member_hits(es, p@, gj, j + 1, i + 1) == member_hits(es, p@, gj, j + 1, i as int) + if j + 1 <= i
                            && es[i as int].role == Role::Member(gj) && at_path(es[i as int], p@) {
                            1nat
                        } else {
                            0
                        });
                        if j == i {
                            assert(member_hits(es, p@, gj, j + 1, i + 1) == 0);
                        }
                        if j < i {
                            let mid = sat_rep(ej.size, size, member_hits(es, p@, gj, 0, j));
                            if same_path(ej.path, p@) && mid > 0 {
                                lemma_sat_rep_zero(size, member_hits(es, p@, gj, j + 1, i as int));
                            }
                        }
                    },
                    _ => {},
                }
            }
        }
    }
    assert forall|j: int| 0 <= j < n implies #[trigger] sizes@[j] == size_after_removal(
        es,
        p@,
        size,
        j,
    ) by {
        assert(sizes@[j] == size_part_way(es, p@, size, j, n as int));
    }
    sizes
}

} // verus!
