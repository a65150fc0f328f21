use scrub::ui::roots::{confirm_reply, typed_root_with, ConfirmReply};
use scrub::ui::roots::{
    confirm_prompt, expand_all_with, first_of_each, is_common_dir, parse_answer, root_candidates_with,
    root_markers, Answer,
};

#[test]
fn discovers_common_and_current_project_roots() {
    let root = "/tmp/scrub-roots-1";
    let home = format!("{root}/home");
    let project_root = format!("{root}/grapevine");
    let cwd = format!("{project_root}/scrub");
    // The home directory holds `Projects` and `Documents`; the current
    // directory holds a `Cargo.toml`.
    let names = vec!["Projects".to_string(), "Documents".to_string()];
    let found = root_candidates_with(&vec![], Some("/home/u"), &home, &names, &cwd, true);
    let keys = found.clone();
    let found = first_of_each(&found, &keys);
    assert_eq!(found.len(), 2);
    assert!(found.contains(&format!("{home}/Projects")));
    assert!(found.contains(&project_root));
}

#[test]
fn configured_roots_come_first_with_tilde_expanded() {
    let found = root_candidates_with(
        &vec!["~/Code".to_string(), "/srv/repos".to_string()],
        Some("/home/u"),
        "/home/u",
        &vec!["code".to_string(), "GitHub".to_string(), "notes".to_string()],
        "/home/u/scrub",
        true,
    );
    assert_eq!(
        found,
        vec![
            "/home/u/Code".to_string(),
            "/srv/repos".to_string(),
            "/home/u/code".to_string(),
            "/home/u/GitHub".to_string(),
        ]
    );
    let no_marker = root_candidates_with(&vec![], None, "/home/u", &vec![], "/work/app", false);
    assert!(no_marker.is_empty());
    let marker = root_candidates_with(&vec![], None, "/home/u", &vec![], "/work/app", true);
    assert_eq!(marker, vec!["/work".to_string()]);
}

#[test]
fn repeated_directories_are_kept_once() {
    let paths = vec!["/a".to_string(), "/b".to_string(), "/a/".to_string(), "/c".to_string()];
    let keys = vec!["/real/a".to_string(), "/real/b".to_string(), "/real/a".to_string(), "/real/b/".to_string()];
    assert_eq!(first_of_each(&paths, &keys), vec!["/a".to_string(), "/b".to_string()]);
}

#[test]
fn common_folder_names_match_in_any_case() {
    assert!(is_common_dir("Projects"));
    assert!(is_common_dir("DEVELOPER"));
    assert!(is_common_dir("src"));
    assert!(!is_common_dir("Documents"));
    assert!(!is_common_dir("codes"));
    assert_eq!(root_markers(), vec!["Cargo.toml", "package.json", "pyproject.toml", ".git"]);
}

#[test]
fn answers_are_read_leniently() {
    assert_eq!(parse_answer("\n"), Answer::Yes);
    assert_eq!(parse_answer(" Y \n"), Answer::Yes);
    assert_eq!(parse_answer("YES"), Answer::Yes);
    assert_eq!(parse_answer("n"), Answer::No);
    assert_eq!(parse_answer("No\n"), Answer::No);
    assert_eq!(parse_answer("maybe"), Answer::Unclear);
    assert_eq!(parse_answer("yess"), Answer::Unclear);
    assert_eq!(confirm_prompt(1), "Is this your project directory? [Y/n]: ");
    assert_eq!(confirm_prompt(3), "Are these your project directories? [Y/n]: ");
}

#[test]
fn given_paths_are_expanded() {
    assert_eq!(
        expand_all_with(&vec!["~".to_string(), "~/x".to_string(), "/y".to_string(), "~z".to_string()], Some("/h")),
        vec!["/h".to_string(), "/h/x".to_string(), "/y".to_string(), "~z".to_string()]
    );
}

#[test]
fn replies_accept_ask_for_a_path_or_ask_again() {
    assert_eq!(confirm_reply("y\n", true), ConfirmReply::Accept);
    assert_eq!(confirm_reply("\n", true), ConfirmReply::Accept);
    assert_eq!(
        confirm_reply("yes", false),
        ConfirmReply::AskForPath { note: Some("One or more directories do not exist. Enter a directory to scan.".into()) }
    );
    assert_eq!(confirm_reply("N", true), ConfirmReply::AskForPath { note: None });
    assert_eq!(confirm_reply("what", true), ConfirmReply::AskAgain { note: "Please enter y or n.".into() });
    assert_eq!(typed_root_with("  ~/Code \n", Some("/home/u")), "/home/u/Code");
    assert_eq!(typed_root_with("/srv\n", None), "/srv");
}
