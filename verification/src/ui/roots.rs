//! Choosing the project directories to scan: the suggestions, and the
//! answer to the question whether they are right.
use vstd::prelude::*;
use crate::utils::paths::{
    expand_tilde_of, expand_tilde_with, home_dir, join, join_of, parent, parent_of, paths_equal,
    same_path,
};
use crate::utils::text::{chars_of, lower, lower_eq, strings_view, trim, trim_ws};

verus! {

/// Names of home folders that usually hold projects (compared lower-cased).
pub open spec fn is_common_dir_name(l: Seq<char>) -> bool {
    l == "code"@ || l == "projects"@ || l == "developer"@ || l == "development"@ || l == "workspace"@ || l
        == "workspaces"@ || l == "repos"@ || l == "src"@ || l == "github"@
}

/// The home folders among the first `n` of `names` that usually hold
/// projects, as paths under `home`.
pub open spec fn common_dirs(home: Seq<char>, names: Seq<Seq<char>>, n: int) -> Seq<Seq<char>>
    decreases n,
{
    if n <= 0 {
        seq![]
    } else {
        let prev = common_dirs(home, names, n - 1);
        if is_common_dir_name(lower(names[n - 1])) {
            prev.push(join_of(home, names[n - 1]))
        } else {
            prev
        }
    }
}

/// The parent of the current directory, when the current directory looks
/// like a project and its parent is not the home directory.
pub open spec fn parent_root(cwd: Seq<char>, home: Seq<char>, has_marker: bool) -> Seq<Seq<char>> {
    if has_marker {
        match parent_of(cwd) {
            Some(p) => if same_path(p, home) {
                seq![]
            } else {
                seq![p]
            },
            None => seq![],
        }
    } else {
        seq![]
    }
}

/// Each of `paths` with `~` expanded against `tilde_home`.
pub open spec fn expanded(paths: Seq<Seq<char>>, tilde_home: Option<Seq<char>>) -> Seq<Seq<char>> {
    paths.map_values(|p: Seq<char>| expand_tilde_of(p, tilde_home))
}

/// The suggested directories, before those that are missing or repeated are
/// dropped: the configured roots, the home folders that usually hold
/// projects (`names` are the entries of the home directory), and the parent
/// of the current directory when it looks like a project.
pub open spec fn root_candidates_of(
    roots: Seq<Seq<char>>,
    tilde_home: Option<Seq<char>>,
    home: Seq<char>,
    names: Seq<Seq<char>>,
    cwd: Seq<char>,
    has_marker: bool,
) -> Seq<Seq<char>> {
    expanded(roots, tilde_home) + common_dirs(home, names, names.len() as int) + parent_root(cwd, home, has_marker)
}

/// The files whose presence makes the current directory look like a project.
pub fn root_markers() -> (r: Vec<String>)
    ensures
        strings_view(r@) == seq!["Cargo.toml"@, "package.json"@, "pyproject.toml"@, ".git"@],
{
    let mut r: Vec<String> = Vec::new();
    r.push(String::from_str("Cargo.toml"));
    r.push(String::from_str("package.json"));
    r.push(String::from_str("pyproject.toml"));
    r.push(String::from_str(".git"));
    assert(strings_view(r@) =~= seq!["Cargo.toml"@, "package.json"@, "pyproject.toml"@, ".git"@]);
    r
}

fn is_named(v: &Vec<char>, name: &str) -> (r: bool)
    ensures
        r == (lower(v@) == name@),
{
    let w = chars_of(name);
    lower_eq(v, &w)
}

/// Whether a home folder of this name usually holds projects.
pub fn is_common_dir(name: &str) -> (r: bool)
    ensures
        r == is_common_dir_name(lower(name@)),
{
    let v = chars_of(name);
    is_named(&v, "code") || is_named(&v, "projects") || is_named(&v, "developer") || is_named(
        &v,
        "development",
    ) || is_named(&v, "workspace") || is_named(&v, "workspaces") || is_named(&v, "repos") || is_named(
        &v,
        "src",
    ) || is_named(&v, "github")
}

/// Each of `paths` with `~` expanded against `tilde_home`.
pub fn expand_all_with(paths: &Vec<String>, tilde_home: Option<&str>) -> (r: Vec<String>)
    ensures
        strings_view(r@) == expanded(
            strings_view(paths@),
            match tilde_home {
                Some(h) => Some(h@),
                None => None,
            },
        ),
{
    let ghost th = match tilde_home {
        Some(h) => Some(h@),
        None => None,
    };
    let mut r: Vec<String> = Vec::new();
    for k in 0..paths.len()
        invariant
            th == (match tilde_home {
                Some(h) => Some(h@),
                None => None::<Seq<char>>,
            }),
            strings_view(r@) == expanded(strings_view(paths@), th).subrange(0, k as int),
    {
        let e = expand_tilde_with(paths[k].as_str(), tilde_home);
        assert(strings_view(paths@)[k as int] == paths@[k as int]@);
        assert(e@ == expanded(strings_view(paths@), th)[k as int]);
        let ghost before = strings_view(r@);
        r.push(e);
        assert(strings_view(r@) =~= before.push(e@));
        assert(strings_view(r@) =~= expanded(strings_view(paths@), th).subrange(0, k + 1));
    }
    assert(expanded(strings_view(paths@), th).subrange(0, paths.len() as int) =~= expanded(
        strings_view(paths@),
        th,
    ));
    r
}

/// Each of `paths` with `~` expanded against the current user's home directory.
pub fn expand_all(paths: &Vec<String>) -> (r: Vec<String>)
    ensures
        exists|h: Option<Seq<char>>| strings_view(r@) == expanded(strings_view(paths@), h),
{
    match home_dir() {
        Some(h) => {
            let r = expand_all_with(paths, Some(h.as_str()));
            assert(strings_view(r@) == expanded(strings_view(paths@), Some(h@)));
            r
        },
        None => {
            let r = expand_all_with(paths, None);
            assert(strings_view(r@) == expanded(strings_view(paths@), None));
            r
        },
    }
}

/// The suggested directories (`root_candidates_of`), `~` expanded against
/// `tilde_home`.
pub fn root_candidates_with(
    roots: &Vec<String>,
    tilde_home: Option<&str>,
    home: &str,
    names: &Vec<String>,
    cwd: &str,
    has_marker: bool,
) -> (r: Vec<String>)
    ensures
        strings_view(r@) == root_candidates_of(
            strings_view(roots@),
            match tilde_home {
                Some(h) => Some(h@),
                None => None,
            },
            home@,
            strings_view(names@),
            cwd@,
            has_marker,
        ),
{
    let mut r = expand_all_with(roots, tilde_home);
    let ghost first = strings_view(r@);
    let ghost nv = strings_view(names@);
    for k in 0..names.len()
        invariant
            nv == strings_view(names@),
            strings_view(r@) == first + common_dirs(home@, nv, k as int),
    {
        assert(nv[k as int] == names@[k as int]@);
        if is_common_dir(names[k].as_str()) {
            let ghost before = strings_view(r@);
            r.push(join(home, names[k].as_str()));
            assert(strings_view(r@) =~= before.push(join_of(home@, nv[k as int])));
        }
    }
    let ghost second = strings_view(r@);
    if has_marker {
        match parent(cwd) {
            Some(p) => {
                if !paths_equal(p.as_str(), home) {
                    r.push(p);
                }
            },
            None => {},
        }
    }
    assert(strings_view(r@) =~= first + common_dirs(home@, nv, names.len() as int) + parent_root(
        cwd@,
        home@,
        has_marker,
    ));
    r
}

/// The suggested directories, `~` expanded against the current user's home
/// directory.
pub fn root_candidates(roots: &Vec<String>, home: &str, names: &Vec<String>, cwd: &str, has_marker: bool) -> (r: Vec<
    String,
>)
    ensures
        exists|h: Option<Seq<char>>|
            strings_view(r@) == root_candidates_of(
                strings_view(roots@),
                h,
                home@,
                strings_view(names@),
                cwd@,
                has_marker,
            ),
{
    match home_dir() {
        Some(h) => {
            let r = root_candidates_with(roots, Some(h.as_str()), home, names, cwd, has_marker);
            assert(strings_view(r@) == root_candidates_of(
                strings_view(roots@),
                Some(h@),
                home@,
                strings_view(names@),
                cwd@,
                has_marker,
            ));
            r
        },
        None => {
            let r = root_candidates_with(roots, None, home, names, cwd, has_marker);
            assert(strings_view(r@) == root_candidates_of(
                strings_view(roots@),
                None,
                home@,
                strings_view(names@),
                cwd@,
                has_marker,
            ));
            r
        },
    }
}

/// Whether no key before position `i` names the same path as key `i`.
pub open spec fn first_key(keys: Seq<Seq<char>>, i: int) -> bool {
    forall|j: int| 0 <= j < i ==> !same_path(#[trigger] keys[j], keys[i])
}

/// The first `n` of `paths`, each kept only when its key (where it really
/// leads) names a path that no earlier key names.
pub open spec fn first_of_each_of(paths: Seq<Seq<char>>, keys: Seq<Seq<char>>, n: int) -> Seq<Seq<char>>
    decreases n,
{
    if n <= 0 {
        seq![]
    } else {
        let prev = first_of_each_of(paths, keys, n - 1);
        if first_key(keys, n - 1) {
            prev.push(paths[n - 1])
        } else {
            prev
        }
    }
}

/// Keeps each of `paths` whose key (where it really leads) no earlier key
/// names (`first_of_each_of`).
pub fn first_of_each(paths: &Vec<String>, keys: &Vec<String>) -> (r: Vec<String>)
    requires
        paths@.len() == keys@.len(),
    ensures
        strings_view(r@) == first_of_each_of(strings_view(paths@), strings_view(keys@), paths@.len() as int),
{
    let ghost pv = strings_view(paths@);
    let ghost kv = strings_view(keys@);
    let mut r: Vec<String> = Vec::new();
    for i in 0..paths.len()
        invariant
            paths@.len() == keys@.len(),
            pv == strings_view(paths@),
            kv == strings_view(keys@),
            strings_view(r@) == first_of_each_of(pv, kv, i as int),
    {
        let mut fresh = true;
        let mut j: usize = 0;
        while j < i
            invariant
                i < keys@.len(),
                kv == strings_view(keys@),
                j <= i,
                fresh == (forall|m: int| 0 <= m < j ==> !same_path(#[trigger] kv[m], kv[i as int])),
            decreases i - j,
        {
            assert(kv[j as int] == keys@[j as int]@ && kv[i as int] == keys@[i as int]@);
            if paths_equal(keys[j].as_str(), keys[i].as_str()) {
                fresh = false;
            }
            j = j + 1;
        }
        assert(fresh == first_key(kv, i as int));
        if fresh {
            let ghost before = strings_view(r@);
            r.push(paths[i].clone());
            assert(strings_view(r@) =~= before.push(pv[i as int]));
        }
    }
    r
}

/// A reply to "are these your project directories?".
#[derive(Clone, Copy, Debug, PartialEq, Eq, Structural)]
pub enum Answer {
    Yes,
    No,
    Unclear,
}

/// Empty, `y` or `yes` is yes; `n` or `no` is no (trimmed, any case).
pub open spec fn answer_of(line: Seq<char>) -> Answer {
    let a = lower(trim_ws(line));
    if a.len() == 0 || a == "y"@ || a == "yes"@ {
        Answer::Yes
    } else if a == "n"@ || a == "no"@ {
        Answer::No
    } else {
        Answer::Unclear
    }
}

/// Reads a reply (`answer_of`).
pub fn parse_answer(line: &str) -> (r: Answer)
    ensures
        r == answer_of(line@),
{
    let t = trim(line);
    let v = chars_of(t.as_str());
    proof {
        reveal_strlit("");
    }
    if v.len() == 0 || is_named(&v, "y") || is_named(&v, "yes") {
        assert(v.len() == 0 ==> lower(v@).len() == 0);
        Answer::Yes
    } else if is_named(&v, "n") || is_named(&v, "no") {
        Answer::No
    } else {
        assert(lower(v@).len() == v@.len());
        Answer::Unclear
    }
}

/// The question asked about `count` suggested directories.
pub fn confirm_prompt(count: usize) -> (r: String)
    ensures
        r@ == (if count == 1 {
            "Is this your project directory? [Y/n]: "@
        } else {
            "Are these your project directories? [Y/n]: "@
        }),
{
    if count == 1 {
        String::from_str("Is this your project directory? [Y/n]: ")
    } else {
        String::from_str("Are these your project directories? [Y/n]: ")
    }
}


/// What follows an answer to the question about the suggested directories.
#[derive(Clone, Debug, PartialEq, Eq)]
pub enum ConfirmReply {
    /// Scan the suggested directories.
    Accept,
    /// Ask for one directory instead, after printing `note` when there is one.
    AskForPath { note: Option<String> },
    /// Print `note` and ask the same question again.
    AskAgain { note: String },
}

pub enum ConfirmReplyView {
    Accept,
    AskForPath { note: Option<Seq<char>> },
    AskAgain { note: Seq<char> },
}

impl View for ConfirmReply {
    type V = ConfirmReplyView;

    open spec fn view(&self) -> ConfirmReplyView {
        match self {
            ConfirmReply::Accept => ConfirmReplyView::Accept,
            ConfirmReply::AskForPath { note } => ConfirmReplyView::AskForPath {
                note: match note {
                    Some(n) => Some(n@),
                    None => None,
                },
            },
            ConfirmReply::AskAgain { note } => ConfirmReplyView::AskAgain { note: note@ },
        }
    }
}

/// Yes scans the suggestions when they all exist, and otherwise asks for a
/// directory, saying why; no asks for a directory; anything else asks again.
pub open spec fn confirm_reply_of(line: Seq<char>, all_exist: bool) -> ConfirmReplyView {
    match answer_of(line) {
        Answer::Yes => if all_exist {
            ConfirmReplyView::Accept
        } else {
            ConfirmReplyView::AskForPath {
                note: Some("One or more directories do not exist. Enter a directory to scan."@),
            }
        },
        Answer::No => ConfirmReplyView::AskForPath { note: None },
        Answer::Unclear => ConfirmReplyView::AskAgain { note: "Please enter y or n."@ },
    }
}

/// What follows the answer `line`, given whether every suggested directory
/// exists (`confirm_reply_of`).
pub fn confirm_reply(line: &str, all_exist: bool) -> (r: ConfirmReply)
    ensures
        r@ == confirm_reply_of(line@, all_exist),
{
    match parse_answer(line) {
        Answer::Yes => if all_exist {
            ConfirmReply::Accept
        } else {
            ConfirmReply::AskForPath {
                note: Some(String::from_str("One or more directories do not exist. Enter a directory to scan.")),
            }
        },
        Answer::No => ConfirmReply::AskForPath { note: None },
        Answer::Unclear => ConfirmReply::AskAgain { note: String::from_str("Please enter y or n.") },
    }
}

/// The directory typed in answer to "Project directory to scan": trimmed,
/// with `~` expanded against `tilde_home`.
pub fn typed_root_with(line: &str, tilde_home: Option<&str>) -> (r: String)
    ensures
        r@ == expand_tilde_of(
            trim_ws(line@),
            match tilde_home {
                Some(h) => Some(h@),
                None => None,
            },
        ),
{
    let t = trim(line);
    expand_tilde_with(t.as_str(), tilde_home)
}

/// The directory typed in answer to "Project directory to scan", with `~`
/// expanded against the current user's home directory.
pub fn typed_root(line: &str) -> (r: String)
    ensures
        exists|h: Option<Seq<char>>| r@ == expand_tilde_of(trim_ws(line@), h),
{
    match home_dir() {
        Some(h) => {
            let r = typed_root_with(line, Some(h.as_str()));
            assert(r@ == expand_tilde_of(trim_ws(line@), Some(h@)));
            r
        },
        None => {
            let r = typed_root_with(line, None);
            assert(r@ == expand_tilde_of(trim_ws(line@), None));
            r
        },
    }
}

} // verus!
