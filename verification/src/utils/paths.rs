//! Unix path handling over strings: components, `join`, `file_name`,
//! `parent`, `strip_prefix`, and `~` expansion.
//!
//! A path is split into components as `std::path::Path::components` does on
//! Unix: a leading `/` is the root, empty segments are dropped, `.` is kept
//! only as the very first segment of a relative path, and every other segment
//! is a component. Two paths are equal when their components are.
use vstd::prelude::*;
use crate::utils::text::{chars_of, concat, concat3, opt_chars};

verus! {

/// End of the segment that starts at `i`: the next `/` at or after `i`, or the end.
pub open spec fn seg_end(s: Seq<char>, i: int) -> int
    decreases s.len() - i,
{
    if i < 0 || i >= s.len() || s[i] == '/' {
        i
    } else {
        seg_end(s, i + 1)
    }
}

pub proof fn lemma_seg_end(s: Seq<char>, i: int)
    requires
        0 <= i <= s.len(),
    ensures
        i <= seg_end(s, i) <= s.len(),
        seg_end(s, i) < s.len() ==> s[seg_end(s, i)] == '/',
        forall|k: int| i <= k < seg_end(s, i) ==> s[k] != '/',
    decreases s.len() - i,
{
    if i < s.len() && s[i] != '/' {
        lemma_seg_end(s, i + 1);
    }
}

/// Spans `(start, end)` of the components found from position `i` on,
/// for a position that is not the start of an absolute path.
pub open spec fn spans_from(s: Seq<char>, i: int) -> Seq<(int, int)>
    decreases s.len() - i,
{
    if i < 0 || i >= s.len() {
        seq![]
    } else if s[i] == '/' {
        spans_from(s, i + 1)
    } else {
        let j = seg_end(s, i);
        if j <= i || j > s.len() {
            seq![]
        } else if j == i + 1 && s[i] == '.' && i != 0 {
            spans_from(s, j)
        } else {
            seq![(i, j)] + spans_from(s, j)
        }
    }
}

/// Spans of the components of `s`; a root `/` is the span `(0, 1)`.
pub open spec fn spans(s: Seq<char>) -> Seq<(int, int)> {
    if s.len() > 0 && s[0] == '/' {
        seq![(0int, 1int)] + spans_from(s, 1)
    } else {
        spans_from(s, 0)
    }
}

/// The text of each component of `s` (`/` for the root).
pub open spec fn components(s: Seq<char>) -> Seq<Seq<char>> {
    spans(s).map_values(|p: (int, int)| s.subrange(p.0, p.1))
}

/// Whether a component is a name (not the root, `.` or `..`).
pub open spec fn is_name(c: Seq<char>) -> bool {
    c != seq!['/'] && c != seq!['.'] && c != seq!['.', '.']
}

/// `Path::eq`.
pub open spec fn same_path(a: Seq<char>, b: Seq<char>) -> bool {
    components(a) == components(b)
}

/// `Path::file_name`: the last component, when it is a name.
pub open spec fn file_name_of(s: Seq<char>) -> Option<Seq<char>> {
    let c = components(s);
    if c.len() > 0 && is_name(c.last()) {
        Some(c.last())
    } else {
        None
    }
}

/// `Path::parent`: the path up to the end of the component before the last,
/// when there is a last component other than the root.
pub open spec fn parent_of(s: Seq<char>) -> Option<Seq<char>> {
    let p = spans(s);
    let n = p.len();
    if n == 0 || components(s).last() == seq!['/'] {
        None
    } else if n == 1 {
        Some(Seq::<char>::empty())
    } else {
        Some(s.subrange(0, p[n - 2].1))
    }
}

/// `PathBuf::push`: an absolute `rel` replaces `base`; otherwise a `/` is put
/// between them when `base` is non-empty and does not end with one.
pub open spec fn join_of(base: Seq<char>, rel: Seq<char>) -> Seq<char> {
    if rel.len() > 0 && rel[0] == '/' {
        rel
    } else if base.len() > 0 && base.last() != '/' {
        base + seq!['/'] + rel
    } else {
        base + rel
    }
}

/// The text from the start of component `k` to the end of the last component
/// (empty when there is no component `k`): what is left of a path once its
/// first `k` components are taken off.
pub open spec fn rest_after(s: Seq<char>, k: int) -> Seq<char> {
    let p = spans(s);
    if 0 <= k < p.len() {
        s.subrange(p[k].0, p[p.len() - 1].1)
    } else {
        Seq::<char>::empty()
    }
}

/// `Path::strip_prefix`: defined when the components of `base` begin those of `s`.
pub open spec fn strip_prefix_of(s: Seq<char>, base: Seq<char>) -> Option<Seq<char>> {
    let c = components(s);
    let b = components(base);
    if b.len() <= c.len() && c.subrange(0, b.len() as int) == b {
        Some(rest_after(s, b.len() as int))
    } else {
        None
    }
}

/// `~` expansion against the home directory `home`: a path whose first
/// component is `~` has it replaced by `home`; any other path, or any path
/// when there is no home directory, is left as it is.
pub open spec fn expand_tilde_of(s: Seq<char>, home: Option<Seq<char>>) -> Seq<char> {
    let c = components(s);
    if c.len() == 0 || c[0] != seq!['~'] {
        s
    } else {
        match home {
            None => s,
            Some(h) => if c.len() == 1 {
                h
            } else {
                join_of(h, rest_after(s, 1))
            },
        }
    }
}

pub proof fn lemma_spans_from_bounds(s: Seq<char>, i: int)
    requires
        0 <= i,
    ensures
        forall|k: int|
            0 <= k < spans_from(s, i).len() ==> i <= #[trigger] spans_from(s, i)[k].0
                < spans_from(s, i)[k].1 <= s.len(),
        forall|k: int, l: int|
            0 <= k < l < spans_from(s, i).len() ==> #[trigger] spans_from(s, i)[k].1
                <= #[trigger] spans_from(s, i)[l].0,
    decreases s.len() - i,
{
    if i < s.len() {
        if s[i] == '/' {
            lemma_spans_from_bounds(s, i + 1);
            assert(spans_from(s, i) == spans_from(s, i + 1));
        } else {
            lemma_seg_end(s, i);
            let j = seg_end(s, i);
            lemma_spans_from_bounds(s, j);
            if j == i + 1 && s[i] == '.' && i != 0 {
                assert(spans_from(s, i) == spans_from(s, j));
            } else {
                let r = spans_from(s, j);
                let t = seq![(i, j)] + r;
                assert(spans_from(s, i) == t);
                assert forall|k: int| 0 <= k < t.len() implies i <= #[trigger] t[k].0 < t[k].1
                    <= s.len() by {
                    if k > 0 {
                        assert(t[k] == r[k - 1]);
                    }
                }
                assert forall|k: int, l: int| 0 <= k < l < t.len() implies #[trigger] t[k].1
                    <= #[trigger] t[l].0 by {
                    assert(t[l] == r[l - 1]);
                    if k > 0 {
                        assert(t[k] == r[k - 1]);
                    }
                }
            }
        }
    }
}

/// Spans are ordered and lie within the string.
pub proof fn lemma_spans_bounds(s: Seq<char>)
    ensures
        forall|k: int|
            0 <= k < spans(s).len() ==> 0 <= #[trigger] spans(s)[k].0 < spans(s)[k].1
                <= s.len(),
        forall|k: int, l: int|
            0 <= k < l < spans(s).len() ==> #[trigger] spans(s)[k].1 <= #[trigger] spans(
                s,
            )[l].0,
{
    if s.len() > 0 && s[0] == '/' {
        lemma_spans_from_bounds(s, 1);
        let r = spans_from(s, 1);
        let t = seq![(0int, 1int)] + r;
        assert forall|k: int| 0 <= k < t.len() implies 0 <= #[trigger] t[k].0 < t[k].1
            <= s.len() by {
            if k > 0 {
                assert(t[k] == r[k - 1]);
            }
        }
        assert forall|k: int, l: int| 0 <= k < l < t.len() implies #[trigger] t[k].1
            <= #[trigger] t[l].0 by {
            assert(t[l] == r[l - 1]);
            if k > 0 {
                assert(t[k] == r[k - 1]);
            }
        }
    } else {
        lemma_spans_from_bounds(s, 0);
    }
}

/// End of the segment starting at `i`.
fn segment_end(v: &Vec<char>, i: usize) -> (j: usize)
    requires
        i <= v.len(),
    ensures
        j == seg_end(v@, i as int),
        i <= j <= v.len(),
{
    let mut j = i;
    while j < v.len() && v[j] != '/'
        invariant
            i <= j <= v.len(),
            seg_end(v@, i as int) == seg_end(v@, j as int),
        decreases v.len() - j,
    {
        j = j + 1;
    }
    j
}

pub open spec fn spans_view(v: Seq<(usize, usize)>) -> Seq<(int, int)> {
    v.map_values(|p: (usize, usize)| (p.0 as int, p.1 as int))
}

/// The component spans of the path held in `v`.
pub fn spans_of(v: &Vec<char>) -> (r: Vec<(usize, usize)>)
    ensures
        spans_view(r@) == spans(v@),
{
    let n = v.len();
    let mut out: Vec<(usize, usize)> = Vec::new();
    let mut i: usize = 0;
    if n > 0 && v[0] == '/' {
        out.push((0, 1));
        i = 1;
    }
    assert(spans(v@) == spans_view(out@) + spans_from(v@, i as int));
    while i < n
        invariant
            n == v@.len(),
            i <= n,
            spans(v@) == spans_view(out@) + spans_from(v@, i as int),
        decreases n - i,
    {
        if v[i] == '/' {
            i = i + 1;
        } else {
            let j = segment_end(v, i);
            proof {
                lemma_seg_end(v@, i as int);
            }
            if j == i + 1 && v[i] == '.' && i != 0 {
            } else {
                let ghost before = out@;
                out.push((i, j));
                assert(spans_view(out@) =~= spans_view(before) + seq![(i as int, j as int)]);
            }
            i = j;
        }
    }
    assert(spans_view(out@) =~= spans(v@));
    out
}

/// Whether `v[a.0..a.1]` and `w[b.0..b.1]` are the same text.
fn same_text(v: &Vec<char>, a: (usize, usize), w: &Vec<char>, b: (usize, usize)) -> (r: bool)
    requires
        a.0 <= a.1 <= v.len(),
        b.0 <= b.1 <= w.len(),
    ensures
        r == (v@.subrange(a.0 as int, a.1 as int) == w@.subrange(b.0 as int, b.1 as int)),
{
    if a.1 - a.0 != b.1 - b.0 {
        assert(v@.subrange(a.0 as int, a.1 as int).len() != w@.subrange(b.0 as int, b.1 as int).len());
        return false;
    }
    let len = a.1 - a.0;
    let ghost sa = v@.subrange(a.0 as int, a.1 as int);
    let ghost sb = w@.subrange(b.0 as int, b.1 as int);
    let mut k: usize = 0;
    while k < len
        invariant
            len == a.1 - a.0,
            len == b.1 - b.0,
            a.0 <= a.1 <= v.len(),
            b.0 <= b.1 <= w.len(),
            sa == v@.subrange(a.0 as int, a.1 as int),
            sb == w@.subrange(b.0 as int, b.1 as int),
            k <= len,
            forall|t: int| 0 <= t < k ==> #[trigger] sa[t] == sb[t],
        decreases len - k,
    {
        assert(sa[k as int] == v@[a.0 + k]);
        assert(sb[k as int] == w@[b.0 + k]);
        if v[a.0 + k] != w[b.0 + k] {
            return false;
        }
        k = k + 1;
    }
    assert(sa =~= sb);
    true
}

/// Whether the first `count` components of two paths are equal.
fn same_components_prefix(
    v: &Vec<char>,
    sv: &Vec<(usize, usize)>,
    w: &Vec<char>,
    sw: &Vec<(usize, usize)>,
    count: usize,
) -> (r: bool)
    requires
        spans_view(sv@) == spans(v@),
        spans_view(sw@) == spans(w@),
        count <= sv.len(),
        count <= sw.len(),
    ensures
        r == (components(v@).subrange(0, count as int) == components(w@).subrange(
            0,
            count as int,
        )),
{
    proof {
        lemma_spans_bounds(v@);
        lemma_spans_bounds(w@);
    }
    let mut k: usize = 0;
    while k < count
        invariant
            spans_view(sv@) == spans(v@),
            spans_view(sw@) == spans(w@),
            count <= sv.len(),
            count <= sw.len(),
            k <= count,
            forall|t: int| 0 <= t < k ==> components(v@)[t] == components(w@)[t],
        decreases count - k,
    {
        proof {
            lemma_spans_bounds(v@);
            lemma_spans_bounds(w@);
        }
        let a = sv[k];
        let b = sw[k];
        assert(spans_view(sv@)[k as int] == (a.0 as int, a.1 as int));
        assert(spans_view(sw@)[k as int] == (b.0 as int, b.1 as int));
        if !same_text(v, a, w, b) {
            assert(components(v@).subrange(0, count as int)[k as int] != components(
                w@,
            ).subrange(0, count as int)[k as int]);
            return false;
        }
        k = k + 1;
    }
    assert(components(v@).subrange(0, count as int) =~= components(w@).subrange(
        0,
        count as int,
    ));
    true
}

/// `Path::eq`: whether two paths have the same components.
pub fn paths_equal(a: &str, b: &str) -> (r: bool)
    ensures
        r == same_path(a@, b@),
{
    let v = chars_of(a);
    let w = chars_of(b);
    let sv = spans_of(&v);
    let sw = spans_of(&w);
    if sv.len() != sw.len() {
        assert(components(a@).len() != components(b@).len());
        return false;
    }
    let r = same_components_prefix(&v, &sv, &w, &sw, sv.len());
    assert(components(a@).subrange(0, sv.len() as int) =~= components(a@));
    assert(components(b@).subrange(0, sv.len() as int) =~= components(b@));
    r
}

/// Whether the span `p` of `v` is a name component.
fn span_is_name(v: &Vec<char>, p: (usize, usize)) -> (r: bool)
    requires
        p.0 < p.1 <= v.len(),
    ensures
        r == is_name(v@.subrange(p.0 as int, p.1 as int)),
{
    let ghost t = v@.subrange(p.0 as int, p.1 as int);
    if p.1 - p.0 == 1 {
        let c = v[p.0];
        assert(t.len() == 1 && t[0] == c);
        if c == '/' {
            assert(t =~= seq!['/']);
            false
        } else if c == '.' {
            assert(t =~= seq!['.']);
            false
        } else {
            assert(t != seq!['/'] && t != seq!['.']);
            assert(t.len() != 2);
            true
        }
    } else if p.1 - p.0 == 2 && v[p.0] == '.' && v[p.0 + 1] == '.' {
        assert(t =~= seq!['.', '.']);
        false
    } else {
        assert(t.len() != 1);
        assert(t != seq!['.', '.']);
        true
    }
}

/// `Path::file_name`.
pub fn file_name(s: &str) -> (r: Option<String>)
    ensures
        opt_chars(r) == file_name_of(s@),
{
    let v = chars_of(s);
    let sp = spans_of(&v);
    proof {
        lemma_spans_bounds(v@);
    }
    if sp.len() == 0 {
        return None;
    }
    let last = sp[sp.len() - 1];
    assert(spans_view(sp@)[sp.len() - 1] == (last.0 as int, last.1 as int));
    assert(components(s@).last() == v@.subrange(last.0 as int, last.1 as int));
    if span_is_name(&v, last) {
        Some(String::from_str(s.substring_char(last.0, last.1)))
    } else {
        None
    }
}

/// `Path::parent`.
pub fn parent(s: &str) -> (r: Option<String>)
    ensures
        opt_chars(r) == parent_of(s@),
{
    let v = chars_of(s);
    let sp = spans_of(&v);
    proof {
        lemma_spans_bounds(v@);
    }
    let n = sp.len();
    if n == 0 {
        return None;
    }
    let last = sp[n - 1];
    assert(spans_view(sp@)[n - 1] == (last.0 as int, last.1 as int));
    assert(components(s@).last() == v@.subrange(last.0 as int, last.1 as int));
    if last.1 - last.0 == 1 && v[last.0] == '/' {
        assert(v@.subrange(last.0 as int, last.1 as int) =~= seq!['/']);
        return None;
    }
    if last.1 - last.0 == 1 {
        assert(v@.subrange(last.0 as int, last.1 as int)[0] == v@[last.0 as int]);
        assert(v@.subrange(last.0 as int, last.1 as int) != seq!['/']);
    } else {
        assert(v@.subrange(last.0 as int, last.1 as int).len() != 1);
    }
    if n == 1 {
        return Some(String::new());
    }
    let prev = sp[n - 2];
    assert(spans_view(sp@)[n - 2] == (prev.0 as int, prev.1 as int));
    Some(String::from_str(s.substring_char(0, prev.1)))
}

/// `Path::join` / `PathBuf::push`.
pub fn join(base: &str, rel: &str) -> (r: String)
    ensures
        r@ == join_of(base@, rel@),
{
    let bv = chars_of(base);
    let rv = chars_of(rel);
    if rv.len() > 0 && rv[0] == '/' {
        String::from_str(rel)
    } else if bv.len() > 0 && bv[bv.len() - 1] != '/' {
        proof {
            reveal_strlit("/");
        }
        let r = concat3(base, "/", rel);
        assert("/"@ =~= seq!['/']);
        r
    } else {
        concat(base, rel)
    }
}

/// What is left of `s` once its first `k` components are taken off.
fn rest_after_exec(s: &str, v: &Vec<char>, sp: &Vec<(usize, usize)>, k: usize) -> (r: String)
    requires
        v@ == s@,
        spans_view(sp@) == spans(v@),
    ensures
        r@ == rest_after(s@, k as int),
{
    proof {
        lemma_spans_bounds(v@);
    }
    if k < sp.len() {
        let first = sp[k];
        let last = sp[sp.len() - 1];
        assert(spans_view(sp@)[k as int] == (first.0 as int, first.1 as int));
        assert(spans_view(sp@)[sp.len() - 1] == (last.0 as int, last.1 as int));
        if k < sp.len() - 1 {
            assert(spans(v@)[k as int].1 <= spans(v@)[sp.len() - 1].0);
        }
        String::from_str(s.substring_char(first.0, last.1))
    } else {
        String::new()
    }
}

/// `Path::strip_prefix`.
pub fn strip_prefix(s: &str, base: &str) -> (r: Option<String>)
    ensures
        opt_chars(r) == strip_prefix_of(s@, base@),
{
    let v = chars_of(s);
    let w = chars_of(base);
    let sv = spans_of(&v);
    let sw = spans_of(&w);
    if sw.len() > sv.len() {
        return None;
    }
    let same = same_components_prefix(&v, &sv, &w, &sw, sw.len());
    assert(components(base@).subrange(0, sw.len() as int) =~= components(base@));
    if same {
        Some(rest_after_exec(s, &v, &sv, sw.len()))
    } else {
        None
    }
}

/// `~` expansion against a given home directory.
pub fn expand_tilde_with(s: &str, home: Option<&str>) -> (r: String)
    ensures
        r@ == expand_tilde_of(
            s@,
            match home {
                Some(h) => Some(h@),
                None => None,
            },
        ),
{
    let v = chars_of(s);
    let sp = spans_of(&v);
    proof {
        lemma_spans_bounds(v@);
    }
    if sp.len() == 0 {
        return String::from_str(s);
    }
    let first = sp[0];
    assert(spans_view(sp@)[0] == (first.0 as int, first.1 as int));
    assert(components(s@)[0] == v@.subrange(first.0 as int, first.1 as int));
    let is_tilde = first.1 - first.0 == 1 && v[first.0] == '~';
    if is_tilde {
        assert(components(s@)[0] =~= seq!['~']);
    } else if first.1 - first.0 == 1 {
        assert(v@.subrange(first.0 as int, first.1 as int)[0] == v@[first.0 as int]);
        assert(components(s@)[0] != seq!['~']);
    } else {
        assert(components(s@)[0].len() != 1);
    }
    if !is_tilde {
        return String::from_str(s);
    }
    match home {
        None => String::from_str(s),
        Some(h) => {
            if sp.len() == 1 {
                String::from_str(h)
            } else {
                let rest = rest_after_exec(s, &v, &sp, 1);
                join(h, rest.as_str())
            }
        },
    }
}

/// The user's home directory (`dirs::home_dir`), as a string.
///
/// Trusted: `dirs::home_dir` reads `$HOME` and falls back to the password
/// database; the contract claims only that a home directory it returns is not
/// empty, which its documentation states for Linux and macOS. Which directory
/// comes back depends on the environment and is left open.
#[verifier::external_body]
pub(crate) fn home_dir() -> (r: Option<String>)
    ensures
        r matches Some(h) ==> h@.len() > 0,
{
    dirs::home_dir().map(|p| p.to_string_lossy().into_owned())
}

/// `~` expansion against the current user's home directory.
pub fn expand_tilde(s: &str) -> (r: String)
    ensures
        exists|home: Option<Seq<char>>| r@ == expand_tilde_of(s@, home),
{
    let home = home_dir();
    match home {
        Some(h) => {
            let r = expand_tilde_with(s, Some(h.as_str()));
            assert(r@ == expand_tilde_of(s@, Some(h@)));
            r
        },
        None => {
            let r = expand_tilde_with(s, None);
            assert(r@ == expand_tilde_of(s@, None));
            r
        },
    }
}

} // verus!
