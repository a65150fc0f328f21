use vstd::prelude::*;
use crate::utils::text::{
    chars_of, chars_ends_with, chars_eq, chars_starts_with, ends_with, starts_with,
    trim_end_char, trim_start_seq,
};

verus! {

/// A plugin: how to recognise one ecosystem's projects and which cache
/// locations belong to it.
#[derive(Debug, Clone)]
pub struct PluginDefinition {
    pub name: String,
    pub description: String,
    /// ALL of these must exist in the directory
    pub detectors: Vec<String>,
    /// At least ONE of these must exist (combined with detectors above)
    pub detectors_any: Vec<String>,
    pub global_items: Vec<PluginItem>,
    pub project_items: Vec<PluginItem>,
    pub command_items: Vec<CommandItem>,
}

/// A cache location of a plugin.
#[derive(Debug, Clone)]
pub struct PluginItem {
    pub name: String,
    pub paths: Vec<String>,
    pub safe: bool,
    pub delete: String,
    pub explanation: Option<String>,
    /// If true, each immediate child of the path is listed as a separate item
    pub scan_children: bool,
}

/// A command-type item that runs a shell command instead of deleting a path.
/// Shown as a separate action in the TUI.
#[derive(Debug, Clone)]
pub struct CommandItem {
    pub name: String,
    pub command: String,
    pub description: String,
    pub safe: bool,
    pub explanation: Option<String>,
}

/// The names in a listing, as character sequences.
pub open spec fn names_of(children: Seq<String>) -> Seq<Seq<char>> {
    children.map_values(|s: String| s@)
}

/// Whether one detector pattern matches a directory whose entries are `children`.
/// Trailing `/` are ignored; `*.ext` matches an entry ending in `ext` (after
/// every leading `*.` is removed); a pattern ending in `.` matches an entry
/// that starts with it; any other pattern must equal an entry.
pub open spec fn detector_matches(detector: Seq<char>, children: Seq<Seq<char>>) -> bool {
    let det = trim_end_char(detector, '/');
    if starts_with(det, seq!['*', '.']) {
        let ext = trim_start_seq(det, seq!['*', '.']);
        exists|i: int| 0 <= i < children.len() && ends_with(#[trigger] children[i], ext)
    } else if det.len() > 0 && det.last() == '.' {
        exists|i: int| 0 <= i < children.len() && starts_with(#[trigger] children[i], det)
    } else {
        exists|i: int| 0 <= i < children.len() && #[trigger] children[i] == det
    }
}

/// Whether a plugin recognises a directory whose entries are `children`:
/// it has at least one detector, every entry of `detectors` matches, and, when
/// `detectors_any` is not empty, one of its entries matches.
pub open spec fn plugin_matches(
    detectors: Seq<String>,
    detectors_any: Seq<String>,
    children: Seq<Seq<char>>,
) -> bool {
    &&& !(detectors.len() == 0 && detectors_any.len() == 0)
    &&& forall|i: int|
        0 <= i < detectors.len() ==> detector_matches(#[trigger] detectors[i]@, children)
    &&& (detectors_any.len() == 0 || exists|i: int|
        0 <= i < detectors_any.len() && detector_matches(#[trigger] detectors_any[i]@, children))
}

impl PluginDefinition {
    pub open spec fn spec_matches(&self, children: Seq<Seq<char>>) -> bool {
        plugin_matches(self.detectors@, self.detectors_any@, children)
    }

    /// Check if a directory (represented by its children filenames) matches this plugin
    pub fn matches_directory(&self, children: &[String]) -> (r: bool)
        ensures
            r == self.spec_matches(names_of(children@)),
    {
        if self.detectors.len() == 0 && self.detectors_any.len() == 0 {
            return false;
        }
        // ALL required detectors must match
        for k in 0..self.detectors.len()
            invariant
                forall|i: int|
                    0 <= i < k ==> detector_matches(
                        #[trigger] self.detectors@[i]@,
                        names_of(children@),
                    ),
        {
            if !matches_detector(self.detectors[k].as_str(), children) {
                return false;
            }
        }
        // If detectors_any is non-empty, at least ONE must match
        if self.detectors_any.len() > 0 {
            let mut any_match = false;
            for k in 0..self.detectors_any.len()
                invariant
                    !any_match ==> forall|i: int|
                        0 <= i < k ==> !detector_matches(
                            #[trigger] self.detectors_any@[i]@,
                            names_of(children@),
                        ),
                    any_match ==> exists|i: int|
                        0 <= i < self.detectors_any@.len() && detector_matches(
                            #[trigger] self.detectors_any@[i]@,
                            names_of(children@),
                        ),
            {
                if !any_match && matches_detector(self.detectors_any[k].as_str(), children) {
                    any_match = true;
                }
            }
            if !any_match {
                return false;
            }
        }
        true
    }
}

/// Number of characters left once trailing `c` are removed.
fn trim_end_char_len(v: &Vec<char>, c: char) -> (k: usize)
    ensures
        k <= v.len(),
        v@.subrange(0, k as int) == trim_end_char(v@, c),
{
    let mut k = v.len();
    assert(v@.subrange(0, k as int) =~= v@);
    while k > 0 && v[k - 1] == c
        invariant
            k <= v.len(),
            trim_end_char(v@, c) == trim_end_char(v@.subrange(0, k as int), c),
        decreases k,
    {
        assert(v@.subrange(0, k as int).drop_last() =~= v@.subrange(0, k - 1));
        k = k - 1;
    }
    k
}

/// `v[from..to]` as its own vector.
fn slice_chars(v: &Vec<char>, from: usize, to: usize) -> (r: Vec<char>)
    requires
        from <= to <= v.len(),
    ensures
        r@ == v@.subrange(from as int, to as int),
{
    let mut r: Vec<char> = Vec::new();
    let mut i = from;
    while i < to
        invariant
            from <= i <= to <= v.len(),
            r@ == v@.subrange(from as int, i as int),
        decreases to - i,
    {
        r.push(v[i]);
        assert(r@ =~= v@.subrange(from as int, i + 1));
        i = i + 1;
    }
    r
}

/// Start of what is left of `v` once every leading `*.` is removed.
fn skip_star_dot(v: &Vec<char>) -> (m: usize)
    ensures
        m <= v.len(),
        v@.subrange(m as int, v.len() as int) == trim_start_seq(v@, seq!['*', '.']),
{
    let mut m: usize = 0;
    assert(v@.subrange(0, v.len() as int) =~= v@);
    while v.len() - m >= 2 && v[m] == '*' && v[m + 1] == '.'
        invariant
            m <= v.len(),
            trim_start_seq(v@, seq!['*', '.']) == trim_start_seq(
                v@.subrange(m as int, v.len() as int),
                seq!['*', '.'],
            ),
        decreases v.len() - m,
    {
        let ghost t = v@.subrange(m as int, v.len() as int);
        assert(t.subrange(0, 2) =~= seq!['*', '.']);
        assert(t.subrange(2, t.len() as int) =~= v@.subrange(m + 2, v.len() as int));
        m = m + 2;
    }
    proof {
        let t = v@.subrange(m as int, v.len() as int);
        if t.len() >= 2 {
            assert(t.subrange(0, 2)[0] == t[0] && t.subrange(0, 2)[1] == t[1]);
            assert(t[0] == v@[m as int] && t[1] == v@[m + 1]);
        }
        assert(!starts_with(t, seq!['*', '.']));
    }
    m
}

/// Whether a detector pattern matches a directory whose entries are `children`.
#[verifier::loop_isolation(false)]
pub fn matches_detector(detector: &str, children: &[String]) -> (r: bool)
    ensures
        r == detector_matches(detector@, names_of(children@)),
{
    let raw = chars_of(detector);
    let k = trim_end_char_len(&raw, '/');
    let det = slice_chars(&raw, 0, k);
    let ghost names = names_of(children@);
    let star_dot: Vec<char> = vec!['*', '.'];
    assert(star_dot@ =~= seq!['*', '.']);
    if chars_starts_with(&det, &star_dot) {
        let m = skip_star_dot(&det);
        let ext = slice_chars(&det, m, det.len());
        for i in 0..children.len()
            invariant
                ext@ == trim_start_seq(det@, seq!['*', '.']),
                names == names_of(children@),
                forall|j: int| 0 <= j < i ==> !ends_with(#[trigger] names[j], ext@),
        {
            let name = chars_of(children[i].as_str());
            assert(names[i as int] == children@[i as int]@);
            if chars_ends_with(&name, &ext) {
                assert(ends_with(names[i as int], ext@));
                return true;
            }
        }
        false
    } else if det.len() > 0 && det[det.len() - 1] == '.' {
        for i in 0..children.len()
            invariant
                names == names_of(children@),
                forall|j: int| 0 <= j < i ==> !starts_with(#[trigger] names[j], det@),
        {
            let name = chars_of(children[i].as_str());
            assert(names[i as int] == children@[i as int]@);
            if chars_starts_with(&name, &det) {
                assert(starts_with(names[i as int], det@));
                return true;
            }
        }
        false
    } else {
        for i in 0..children.len()
            invariant
                names == names_of(children@),
                forall|j: int| 0 <= j < i ==> #[trigger] names[j] != det@,
        {
            let name = chars_of(children[i].as_str());
            assert(names[i as int] == children@[i as int]@);
            if chars_eq(&name, &det) {
                assert(names[i as int] == det@);
                return true;
            }
        }
        false
    }
}

/// The deletion strategy of an item whose definition names none.
pub fn default_delete_strategy() -> (r: String)
    ensures
        r@ == "directory"@,
{
    String::from_str("directory")
}

} // verus!
