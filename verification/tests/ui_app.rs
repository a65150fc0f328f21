use scrub::models::scan::{
    CacheItem, CategoryReport, CommandCacheItem, ItemStatus, ProjectSummary, ScanReport,
};
use scrub::ui::app::{ActiveTab, App, AppMode};
use scrub::ui::keys::{is_cancel_key, spinner_frame, Key, KeyOutcome};

fn item(name: &str, path: &str, size: u64) -> CacheItem {
    CacheItem {
        name: name.into(),
        path: path.into(),
        size_bytes: size,
        file_count: 1,
        dir_count: 0,
        safe: true,
        explanation: Some("Rebuilt on the next build.".into()),
        status: ItemStatus::Found,
        last_modified: None,
    }
}

/// Cache rows: header(Xcode), DerivedData (10), Archives (4), header(Docker), prune command.
/// Project rows: header(web), node_modules (6), .next (2).
fn sample_report() -> ScanReport {
    ScanReport {
        categories: vec![
            CategoryReport {
                category: "Xcode".into(),
                global_items: vec![item("DerivedData", "/home/u/Library/DerivedData", 10), item("Archives", "/home/u/Library/Archives", 4)],
                projects: vec![],
                command_items: vec![],
                total_size: 14,
                is_detected: true,
            },
            CategoryReport {
                category: "Docker".into(),
                global_items: vec![],
                projects: vec![],
                command_items: vec![CommandCacheItem {
                    name: "Prune".into(),
                    command: "docker system prune -f".into(),
                    description: "Removes stopped containers".into(),
                    safe: false,
                    explanation: None,
                }],
                total_size: 0,
                is_detected: true,
            },
        ],
        total_size: 22,
        projects: vec![ProjectSummary {
            name: "web".into(),
            path: "/home/u/code/web".into(),
            ecosystem: "Node".into(),
            items: vec![item("node_modules", "/home/u/code/web/node_modules", 6), item(".next", "/home/u/code/web/.next", 2)],
            total_size: 8,
            last_modified: None,
        }],
    }
}

fn empty_report() -> ScanReport {
    ScanReport { categories: vec![], total_size: 0, projects: vec![] }
}

#[test]
fn new_dashboard_starts_on_the_first_row_with_nothing_selected() {
    let app = App::new(sample_report()).unwrap();
    assert_eq!(app.rows.len(), 5);
    assert_eq!(app.proj_rows.len(), 3);
    assert_eq!(app.cursor, Some(0));
    assert_eq!(app.proj_cursor, Some(0));
    assert_eq!(app.tab, ActiveTab::Caches);
    assert_eq!(app.mode, AppMode::Browse);
    assert_eq!(app.selected_count(), 0);
    assert_eq!(app.selected_bytes(), 0);
    assert!(!app.can_delete());
    let empty = App::new(empty_report()).unwrap();
    assert_eq!(empty.cursor, None);
    assert_eq!(empty.list_len(), 0);
}

#[test]
fn only_a_selection_whose_total_overflows_is_refused() {
    let mut report = empty_report();
    report.projects = vec![ProjectSummary {
        name: "big".into(),
        path: "/big".into(),
        ecosystem: "Node".into(),
        items: vec![item("a", "/big/a", u64::MAX), item("b", "/big/b", 1)],
        total_size: 1,
        last_modified: None,
    }];
    let mut app = App::new(report).unwrap();
    app.switch_tab();
    app.move_down();
    assert!(app.toggle_fits());
    assert!(app.key_fits(Key::Char(' ')));
    app.toggle();
    assert_eq!(app.selected_bytes(), u64::MAX);
    app.move_down();
    assert!(!app.toggle_fits());
    assert!(!app.key_fits(Key::Enter));
    assert!(app.key_fits(Key::Down));
    app.move_up();
    assert!(app.toggle_fits());
    app.toggle();
    assert_eq!(app.selected_bytes(), 0);
}

#[test]
fn cursor_wraps_at_both_ends_and_down_then_up_returns() {
    let mut app = App::new(sample_report()).unwrap();
    app.move_up();
    assert_eq!(app.cursor(), 4);
    app.move_down();
    assert_eq!(app.cursor(), 0);
    app.move_down();
    app.move_down();
    assert_eq!(app.cursor(), 2);
    app.move_up();
    assert_eq!(app.cursor(), 1);
    let mut empty = App::new(empty_report()).unwrap();
    empty.move_down();
    assert_eq!(empty.cursor, Some(0));
    empty.move_up();
    assert_eq!(empty.cursor, Some(0));
}

#[test]
fn toggling_a_row_twice_restores_the_selection() {
    let mut app = App::new(sample_report()).unwrap();
    app.move_down();
    app.toggle();
    assert_eq!(app.selected, vec![false, true, false, false, false]);
    assert_eq!(app.selected_bytes(), 10);
    assert!(app.can_delete());
    app.move_down();
    app.toggle();
    assert_eq!(app.selected_bytes(), 14);
    assert_eq!(app.selected_count(), 2);
    app.toggle();
    app.toggle();
    assert_eq!(app.selected_bytes(), 14);
    app.move_up();
    app.toggle();
    assert_eq!(app.selected_bytes(), 4);
    assert_eq!(app.selected, vec![false, false, true, false, false]);
}

#[test]
fn toggling_a_heading_does_nothing_and_a_command_opens_its_dialog() {
    let mut app = App::new(sample_report()).unwrap();
    app.toggle();
    assert_eq!(app.selected_count(), 0);
    assert_eq!(app.mode, AppMode::Browse);
    app.move_up();
    app.toggle();
    assert_eq!(
        app.mode,
        AppMode::RunCommand { command: "docker system prune -f".into(), description: "Removes stopped containers".into() }
    );
    assert_eq!(app.selected_count(), 0);
}

#[test]
fn tabs_keep_their_own_cursor_and_selection() {
    let mut app = App::new(sample_report()).unwrap();
    app.move_down();
    app.toggle();
    app.switch_tab();
    assert_eq!(app.tab, ActiveTab::Projects);
    assert_eq!(app.cursor(), 0);
    assert_eq!(app.selected_count(), 0);
    app.move_down();
    app.toggle();
    app.move_down();
    app.toggle();
    assert_eq!(app.selected_bytes(), 8);
    app.switch_tab();
    assert_eq!(app.cursor(), 1);
    assert_eq!(app.selected_bytes(), 10);
    app.clear_selection();
    assert_eq!(app.selected_bytes(), 0);
    app.switch_tab();
    assert_eq!(app.selected_bytes(), 0);
    assert_eq!(app.selected_count(), 0);
}

#[test]
fn keys_drive_the_dashboard() {
    let mut app = App::new(sample_report()).unwrap();
    assert_eq!(app.handle_key(Key::Char('d')), KeyOutcome::Continue);
    assert_eq!(app.mode, AppMode::Browse);
    app.handle_key(Key::Char('j'));
    app.handle_key(Key::Char(' '));
    assert_eq!(app.selected_bytes(), 10);
    app.handle_key(Key::Char('D'));
    assert_eq!(app.mode, AppMode::Confirm);
    assert_eq!(app.handle_key(Key::Char('q')), KeyOutcome::Continue);
    assert_eq!(app.handle_key(Key::Esc), KeyOutcome::Continue);
    assert_eq!(app.mode, AppMode::Browse);
    assert_eq!(app.selected_bytes(), 10);
    app.handle_key(Key::Char('d'));
    assert_eq!(app.handle_key(Key::Char('y')), KeyOutcome::Delete { permanent: false });
    assert_eq!(app.handle_key(Key::Char('P')), KeyOutcome::Delete { permanent: true });
    app.handle_key(Key::Char('n'));
    assert_eq!(app.mode, AppMode::Browse);
    app.handle_key(Key::Tab);
    assert_eq!(app.tab, ActiveTab::Projects);
    app.handle_key(Key::Tab);
    app.handle_key(Key::Char('c'));
    assert_eq!(app.selected_bytes(), 0);
    app.handle_key(Key::Up);
    app.handle_key(Key::Up);
    assert_eq!(app.cursor(), 4);
    app.handle_key(Key::Enter);
    assert_eq!(app.handle_key(Key::Char('Y')), KeyOutcome::RunCommand("docker system prune -f".into()));
    app.command_finished("Total reclaimed space: 0B\n", "", true);
    assert_eq!(app.mode, AppMode::CommandOutput { output: "Total reclaimed space: 0B".into(), success: true });
    app.handle_key(Key::Enter);
    assert_eq!(app.mode, AppMode::Browse);
    assert_eq!(app.handle_key(Key::Char('Q')), KeyOutcome::Quit);
    assert_eq!(app.handle_key(Key::Other), KeyOutcome::Continue);
}

#[test]
fn command_output_joins_both_streams_and_failures_are_reported() {
    let mut app = App::new(empty_report()).unwrap();
    app.command_finished("  out\n", "warn\n", false);
    assert_eq!(app.mode, AppMode::CommandOutput { output: "out\n\nwarn".into(), success: false });
    app.command_failed("No such file or directory (os error 2)");
    assert_eq!(
        app.mode,
        AppMode::CommandOutput { output: "Failed to run command: No such file or directory (os error 2)".into(), success: false }
    );
}

#[test]
fn scan_can_be_cancelled_with_escape_q_or_ctrl_c() {
    assert!(is_cancel_key(Key::Esc, false));
    assert!(is_cancel_key(Key::Char('q'), false));
    assert!(is_cancel_key(Key::Char('Q'), true));
    assert!(is_cancel_key(Key::Char('c'), true));
    assert!(!is_cancel_key(Key::Char('c'), false));
    assert!(!is_cancel_key(Key::Enter, true));
}

#[test]
fn spinner_cycles_through_four_frames() {
    assert_eq!(spinner_frame(0), "◐");
    assert_eq!(spinner_frame(1), "◓");
    assert_eq!(spinner_frame(2), "◑");
    assert_eq!(spinner_frame(3), "◒");
    assert_eq!(spinner_frame(4), "◐");
}
