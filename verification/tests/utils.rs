use std::path::Path;

use scrub::utils::age::format_age_at;
use scrub::utils::paths::{expand_tilde, expand_tilde_with, file_name, join, parent, paths_equal, strip_prefix};
use scrub::utils::text::{split_lines, to_decimal, trim};

const SAMPLES: &[&str] = &[
    "", "/", "//", "a", "a/", "a//b", "/a/b", "/a/b/", "./a", "a/./b", "a/..", "..", ".", "/.",
    "~/Code", "~", "a/b/c.txt", "/home/u/.cache/x", "./", "a/b/.", "ééé/ü",
];

#[test]
fn file_name_and_parent_agree_with_std() {
    for s in SAMPLES {
        let p = Path::new(s);
        let want_name = p.file_name().map(|n| n.to_string_lossy().into_owned());
        assert_eq!(file_name(s), want_name, "file_name of {:?}", s);
        let want_parent = p.parent().map(|q| q.to_string_lossy().into_owned());
        let got_parent = parent(s);
        match (&got_parent, &want_parent) {
            (Some(g), Some(w)) => assert_eq!(Path::new(g), Path::new(w), "parent of {:?}", s),
            _ => assert_eq!(got_parent, want_parent, "parent of {:?}", s),
        }
    }
}

#[test]
fn equality_join_and_strip_prefix_agree_with_std() {
    for a in SAMPLES {
        for b in SAMPLES {
            assert_eq!(paths_equal(a, b), Path::new(a) == Path::new(b), "{:?} == {:?}", a, b);
            let joined = join(a, b);
            assert_eq!(joined, Path::new(a).join(b).to_string_lossy(), "join {:?} {:?}", a, b);
            let want = Path::new(a).strip_prefix(b).ok().map(|r| r.to_string_lossy().into_owned());
            assert_eq!(strip_prefix(a, b), want, "strip_prefix {:?} {:?}", a, b);
        }
    }
}

#[test]
fn tilde_expands_against_the_home_directory() {
    assert_eq!(expand_tilde_with("~", Some("/home/u")), "/home/u");
    assert_eq!(expand_tilde_with("~/", Some("/home/u")), "/home/u");
    assert_eq!(expand_tilde_with("~/Code", Some("/home/u")), "/home/u/Code");
    assert_eq!(expand_tilde_with("~/Code", None), "~/Code");
    assert_eq!(expand_tilde_with("~user/x", Some("/home/u")), "~user/x");
    assert_eq!(expand_tilde_with("/opt/~", Some("/home/u")), "/opt/~");
    assert_eq!(expand_tilde("/abs/path"), "/abs/path");
}

#[test]
fn trim_lines_and_decimals_agree_with_std() {
    for s in ["", "  x  ", "\t\na b\r\n", "\u{3000}y\u{a0}", "a\r\nb\n\nc\r", "\n", "x\ry\n"] {
        assert_eq!(trim(s), s.trim());
        let want: Vec<String> = s.lines().map(|l| l.to_string()).collect();
        assert_eq!(split_lines(s), want, "lines of {:?}", s);
    }
    for n in [0u64, 7, 10, 99, 100, 12345, u64::MAX] {
        assert_eq!(to_decimal(n), n.to_string());
    }
}

#[test]
fn ages_use_the_largest_unit_that_fits() {
    let now = 1_700_000_000;
    assert_eq!(format_age_at(now + 5, now), "just now");
    assert_eq!(format_age_at(now - 59, now), "just now");
    assert_eq!(format_age_at(now - 60, now), "1 min ago");
    assert_eq!(format_age_at(now - 3599, now), "59 min ago");
    assert_eq!(format_age_at(now - 3600, now), "1 hr ago");
    assert_eq!(format_age_at(now - 86_400, now), "1 day ago");
    assert_eq!(format_age_at(now - 6 * 86_400, now), "6 days ago");
    assert_eq!(format_age_at(now - 7 * 86_400, now), "1 week ago");
    assert_eq!(format_age_at(now - 29 * 86_400, now), "4 weeks ago");
    assert_eq!(format_age_at(now - 30 * 86_400, now), "1 month ago");
    assert_eq!(format_age_at(now - 364 * 86_400, now), "12 months ago");
    assert_eq!(format_age_at(now - 365 * 86_400, now), "1 year ago");
    assert_eq!(format_age_at(now - 800 * 86_400, now), "2 years ago");
}

#[test]
fn clock_and_home_dependent_helpers_still_follow_their_rules() {
    assert_eq!(scrub::utils::age::format_age(u64::MAX), "just now");
    assert!(scrub::engine::config::Config::path().ends_with(".config/scrub/config.toml"));
    assert_eq!(scrub::ui::roots::root_candidates(&vec![], "/h", &vec![], "/w/a", true), vec!["/w".to_string()]);
    assert_eq!(scrub::ui::roots::expand_all(&vec!["/abs".to_string()]), vec!["/abs".to_string()]);
}
