use scrub::models::scan::{
    CacheItem, CategoryReport, CommandCacheItem, ItemStatus, ProjectReport, ProjectSummary, ScanReport,
};
use scrub::ui::rows::{build_cache_rows, build_proj_rows, cache_rows_fit, parent_name, ProjRowKind, RowAction, RowKind};

fn cache(name: &str, path: &str, size: u64) -> CacheItem {
    CacheItem {
        name: name.into(),
        path: path.into(),
        size_bytes: size,
        file_count: 1,
        dir_count: 0,
        safe: true,
        explanation: None,
        status: ItemStatus::Found,
        last_modified: None,
    }
}

#[test]
fn shows_only_nonempty_caches_in_their_respective_tabs() {
    let cache = CacheItem {
        name: "DerivedData".into(),
        path: "DerivedData".into(),
        size_bytes: 10,
        file_count: 1,
        dir_count: 0,
        safe: true,
        explanation: None,
        status: ItemStatus::Found,
        last_modified: None,
    };
    let project_item = CacheItem { name: "Pods".into(), size_bytes: 5, ..cache.clone() };
    let project = ProjectReport {
        name: "tal-app".into(),
        path: "grapevine/tal-app".into(),
        items: vec![project_item.clone()],
        total_size: 5,
        last_modified: None,
    };
    let report = ScanReport {
        categories: vec![CategoryReport {
            category: "Xcode".into(),
            global_items: vec![cache],
            projects: vec![project],
            command_items: vec![],
            total_size: 15,
            is_detected: true,
        }],
        total_size: 15,
        projects: vec![
            ProjectSummary {
                name: "empty".into(),
                path: "grapevine/empty".into(),
                ecosystem: "Xcode".into(),
                items: vec![],
                total_size: 0,
                last_modified: None,
            },
            ProjectSummary {
                name: "tal-app".into(),
                path: "grapevine/tal-app".into(),
                ecosystem: "Xcode".into(),
                items: vec![project_item.clone()],
                total_size: 5,
                last_modified: None,
            },
            ProjectSummary {
                name: "paperboy (app)".into(),
                path: "grapevine/paperboy/app".into(),
                ecosystem: "Expo".into(),
                items: vec![project_item],
                total_size: 5,
                last_modified: None,
            },
        ],
    };

    let caches = build_cache_rows(&report);
    assert_eq!(caches.len(), 2);
    assert_eq!(caches[0].size_bytes, 10);
    assert!(matches!(caches[1].kind, RowKind::GlobalItem { .. }));
    let projects = build_proj_rows(&report);
    assert_eq!(projects.len(), 4);
    assert_eq!(projects[0].label, "grapevine / tal-app");
    assert_eq!(projects[2].label, "paperboy (app)");
}

#[test]
fn cache_rows_skip_missing_and_empty_items_and_list_commands() {
    let missing = CacheItem { status: ItemStatus::Missing, ..cache("Gone", "/gone", 7) };
    let empty = cache("Empty", "/empty", 0);
    let found = cache("Index", "/index", 3);
    let command = CommandCacheItem {
        name: "Prune".into(),
        command: "docker system prune".into(),
        description: "Removes unused data".into(),
        safe: false,
        explanation: None,
    };
    let report = ScanReport {
        categories: vec![
            CategoryReport {
                category: "Nothing".into(),
                global_items: vec![missing.clone(), empty.clone()],
                projects: vec![],
                command_items: vec![],
                total_size: 0,
                is_detected: false,
            },
            CategoryReport {
                category: "Docker".into(),
                global_items: vec![missing, found, empty],
                projects: vec![],
                command_items: vec![command],
                total_size: 3,
                is_detected: true,
            },
        ],
        total_size: 3,
        projects: vec![],
    };
    assert!(cache_rows_fit(&report));
    let rows = build_cache_rows(&report);
    assert_eq!(rows.len(), 3);
    assert!(matches!(rows[0].kind, RowKind::EcoHeader { cat_idx: 1 }));
    assert_eq!(rows[0].label, "Docker");
    assert_eq!(rows[0].size_bytes, 3);
    assert!(!rows[0].selectable);
    assert!(matches!(rows[1].kind, RowKind::GlobalItem { cat_idx: 1, item_idx: 1 }));
    assert_eq!(rows[1].label, "   Index");
    assert!(matches!(rows[1].action, RowAction::Delete));
    assert!(matches!(rows[2].kind, RowKind::CommandItem { cat_idx: 1, cmd_idx: 0 }));
    assert_eq!(rows[2].label, "   ⚡ Prune");
    assert_eq!(rows[2].size_bytes, 0);
    assert_eq!(rows[2].command_desc.as_deref(), Some("Removes unused data"));
    match &rows[2].action {
        RowAction::RunCommand(c) => assert_eq!(c, "docker system prune"),
        _ => panic!("command row without its command"),
    }
}

#[test]
fn cache_rows_refuse_sizes_that_overflow() {
    let big = cache("Big", "/big", u64::MAX);
    let report = ScanReport {
        categories: vec![CategoryReport {
            category: "Huge".into(),
            global_items: vec![big.clone(), big],
            projects: vec![],
            command_items: vec![],
            total_size: 0,
            is_detected: true,
        }],
        total_size: 0,
        projects: vec![],
    };
    assert!(!cache_rows_fit(&report));
}

#[test]
fn project_rows_list_every_item_under_a_heading() {
    let report = ScanReport {
        categories: vec![],
        total_size: 9,
        projects: vec![ProjectSummary {
            name: "web".into(),
            path: "/home/u/code/web".into(),
            ecosystem: "Node".into(),
            items: vec![cache("node_modules", "/home/u/code/web/node_modules", 9), cache(".next", "/home/u/code/web/.next", 0)],
            total_size: 9,
            last_modified: Some(4),
        }],
    };
    let rows = build_proj_rows(&report);
    assert_eq!(rows.len(), 3);
    assert!(matches!(rows[0].kind, ProjRowKind::Header { proj_idx: 0 }));
    assert_eq!(rows[0].label, "code / web");
    assert_eq!(rows[0].last_modified, Some(4));
    assert_eq!(rows[0].path, "/home/u/code/web");
    assert!(matches!(rows[2].kind, ProjRowKind::Item { proj_idx: 0, item_idx: 1 }));
    assert_eq!(rows[2].label, "   .next");
    assert_eq!(rows[2].size_bytes, 0);
}

#[test]
fn parent_name_is_the_name_of_the_enclosing_folder() {
    assert_eq!(parent_name("grapevine/tal-app"), "grapevine");
    assert_eq!(parent_name("/code/tal-app/.next"), "tal-app");
    assert_eq!(parent_name("tal-app"), "");
    assert_eq!(parent_name("/"), "");
}
