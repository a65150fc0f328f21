use scrub::models::scan::{CacheItem, CategoryReport, ItemStatus, ProjectSummary, ScanReport};
use scrub::ui::app::{ActiveTab, App, AppMode};
use scrub::ui::deleting::{delete_label, DeleteTarget};
use scrub::ui::removal::{sizes_after_removal, Role, SizedEntry};

fn item(name: &str, path: &str, size: u64) -> CacheItem {
    CacheItem {
        name: name.into(),
        path: path.into(),
        size_bytes: size,
        file_count: 1,
        dir_count: 0,
        safe: true,
        explanation: None,
        status: ItemStatus::Found,
        last_modified: None,
    }
}

fn report() -> ScanReport {
    ScanReport {
        categories: vec![CategoryReport {
            category: "Xcode".into(),
            global_items: vec![item("DerivedData", "/home/u/DerivedData", 10), item("Archives", "/home/u/Archives", 4)],
            projects: vec![],
            command_items: vec![],
            total_size: 14,
            is_detected: true,
        }],
        total_size: 20,
        projects: vec![ProjectSummary {
            name: "web".into(),
            path: "/home/u/code/web".into(),
            ecosystem: "Node".into(),
            items: vec![item("node_modules", "/home/u/code/web/node_modules", 6)],
            total_size: 6,
            last_modified: None,
        }],
    }
}

#[test]
fn deletion_reports_progress_before_and_after_the_file_is_removed() {
    let report = ScanReport {
        categories: vec![],
        total_size: 1,
        projects: vec![ProjectSummary {
            name: "project".into(),
            path: "/tmp/scrub-delete".into(),
            ecosystem: "test".into(),
            items: vec![item("cache", "/tmp/scrub-delete/cache", 1)],
            total_size: 1,
            last_modified: None,
        }],
    };
    let mut app = App::new(report).unwrap();
    app.tab = ActiveTab::Projects;
    app.move_down();
    app.toggle();
    let mut run = app.begin_delete(true);
    assert_eq!(run.targets.len(), 1);
    let mut updates = Vec::new();
    while let Some(t) = run.step_start(&mut app) {
        if let AppMode::Deleting { done, current, total, permanent } = &app.mode {
            updates.push(*done);
            assert_eq!(current, "cache");
            assert_eq!(*total, 1);
            assert!(*permanent);
        }
        assert_eq!(t.path, "/tmp/scrub-delete/cache");
        run.step_end(&mut app, Ok(()));
        if let AppMode::Deleting { done, .. } = &app.mode {
            updates.push(*done);
        }
    }
    run.finish(&mut app);
    assert_eq!(updates, vec![0, 1]);
    assert_eq!(app.mode, AppMode::Done);
    assert_eq!(app.proj_rows[1].size_bytes, 0);
    assert_eq!(app.proj_rows[0].size_bytes, 0);
    assert_eq!(app.report.total_size, 0);
}

#[test]
fn targets_are_the_marked_rows_in_list_order() {
    let mut app = App::new(report()).unwrap();
    app.move_up();
    app.toggle();
    app.move_up();
    app.toggle();
    let targets = app.delete_targets();
    assert_eq!(targets.len(), 2);
    assert_eq!(targets[0].path, "/home/u/DerivedData");
    assert_eq!(targets[0].label, "DerivedData");
    assert_eq!(targets[0].size, 10);
    assert_eq!(targets[1].path, "/home/u/Archives");
    assert_eq!(targets[1].size, 4);
    let items = app.confirm_items();
    assert_eq!(items, vec![("DerivedData".to_string(), 10), ("Archives".to_string(), 4)]);
}

#[test]
fn a_removal_zeroes_its_rows_and_shrinks_the_heading_and_total() {
    let mut app = App::new(report()).unwrap();
    app.move_down();
    app.toggle();
    let targets = app.delete_targets();
    app.record_removed(&targets[0], false);
    assert_eq!(app.rows[1].size_bytes, 0);
    assert_eq!(app.rows[0].size_bytes, 4);
    assert_eq!(app.rows[2].size_bytes, 4);
    assert_eq!(app.report.total_size, 10);
    assert_eq!(app.delete_log, vec!["✓ Moved to Trash: DerivedData".to_string()]);
    assert_eq!(app.receipt.len(), 1);
    assert_eq!(app.receipt[0].label, "DerivedData");
    assert_eq!(app.receipt[0].size, 10);
    assert!(!app.receipt[0].permanent);
    app.finish_delete();
    assert_eq!(app.mode, AppMode::Done);
    assert_eq!(app.selected_count(), 0);
    assert_eq!(app.selected_bytes(), 0);
}

#[test]
fn a_failed_removal_only_adds_to_the_log() {
    let mut app = App::new(report()).unwrap();
    app.record_removed(
        &DeleteTarget { path: "/home/u/Archives".into(), size: 4, label: "Archives".into() },
        true,
    );
    app.record_failure("DerivedData", "Permission denied (os error 13)");
    assert_eq!(
        app.delete_log,
        vec![
            "✓ Permanently deleted: Archives".to_string(),
            "✗ Failed DerivedData: Permission denied (os error 13)".to_string()
        ]
    );
    assert_eq!(app.rows[1].size_bytes, 10);
    assert_eq!(app.rows[0].size_bytes, 10);
    assert_eq!(app.report.total_size, 16);
    app.finish_delete();
    app.handle_key(scrub::ui::keys::Key::Esc);
    assert_eq!(app.mode, AppMode::Browse);
    assert!(app.delete_log.is_empty());
}

#[test]
fn total_never_drops_below_zero() {
    let mut app = App::new(report()).unwrap();
    app.record_removed(&DeleteTarget { path: "/elsewhere".into(), size: 50, label: "elsewhere".into() }, true);
    assert_eq!(app.report.total_size, 0);
    assert_eq!(app.rows[0].size_bytes, 14);
}

#[test]
fn heading_sizes_follow_their_members() {
    let entries = vec![
        SizedEntry { path: "".into(), size: 9, role: Role::Heading(0) },
        SizedEntry { path: "/a".into(), size: 5, role: Role::Member(0) },
        SizedEntry { path: "/a/".into(), size: 4, role: Role::Member(0) },
        SizedEntry { path: "".into(), size: 3, role: Role::Heading(1) },
        SizedEntry { path: "/b".into(), size: 3, role: Role::Member(1) },
        SizedEntry { path: "/a".into(), size: 2, role: Role::Plain },
    ];
    assert_eq!(sizes_after_removal(&entries, "/a", 5), vec![0, 0, 0, 3, 3, 0]);
    assert_eq!(sizes_after_removal(&entries, "/b", 3), vec![9, 5, 4, 0, 0, 2]);
    assert_eq!(sizes_after_removal(&entries, "/c", 3), vec![9, 5, 4, 3, 3, 2]);
}

#[test]
fn labels_are_the_last_path_component() {
    assert_eq!(delete_label("/home/u/Library/Caches/Homebrew"), "Homebrew");
    assert_eq!(delete_label("/home/u/x/"), "x");
    assert_eq!(delete_label("/"), "/");
    assert_eq!(delete_label(".."), "..");
}

#[test]
fn a_run_logs_each_outcome_and_ends_with_nothing_marked() {
    let mut app = App::new(report()).unwrap();
    app.move_down();
    app.toggle();
    app.move_down();
    app.toggle();
    let mut run = app.begin_delete(false);
    let first = run.step_start(&mut app).unwrap();
    assert_eq!(first.label, "DerivedData");
    run.step_end(&mut app, Err("Permission denied".to_string()));
    assert_eq!(app.mode, AppMode::Deleting { current: "DerivedData".into(), done: 1, total: 2, permanent: false });
    let second = run.step_start(&mut app).unwrap();
    assert_eq!(second.label, "Archives");
    run.step_end(&mut app, Ok(()));
    assert!(run.step_start(&mut app).is_none());
    run.finish(&mut app);
    assert_eq!(
        app.delete_log,
        vec!["✗ Failed DerivedData: Permission denied".to_string(), "✓ Moved to Trash: Archives".to_string()]
    );
    assert_eq!(app.rows[1].size_bytes, 10);
    assert_eq!(app.rows[2].size_bytes, 0);
    assert_eq!(app.mode, AppMode::Done);
    assert_eq!(app.selected_count(), 0);
}
