use scrub::cli::{Cli, Commands, MainAction, PluginCommands};
use scrub::commands::scan::{report_lines, scan_roots, ReportLine};
use scrub::engine::config::{default_project_roots, Config, ConfigRead};
use scrub::engine::scanner::{
    dir_last_modified, global_paths, lists_children, measure_path, project_name, GlobalProbe, ListedEntry, PathStats,
    ScanState, Scanner,
};
use scrub::engine::scan_run::ScanRun;
use scrub::engine::size::SizeTally;
use scrub::engine::walk::{skips_descent, DirEntry, Walker};
use scrub::models::plugin::{default_delete_strategy, matches_detector, CommandItem, PluginDefinition, PluginItem};
use scrub::models::scan::ItemStatus;
use scrub::plugins::manager::PluginManager;

fn names(v: &[&str]) -> Vec<String> {
    v.iter().map(|s| s.to_string()).collect()
}

fn item(name: &str, paths: &[&str], scan_children: bool) -> PluginItem {
    PluginItem {
        name: name.into(),
        paths: names(paths),
        safe: true,
        delete: "directory".into(),
        explanation: None,
        scan_children,
    }
}

fn plugin(name: &str, detectors: &[&str], any: &[&str], globals: Vec<PluginItem>, projects: Vec<PluginItem>) -> PluginDefinition {
    PluginDefinition {
        name: name.into(),
        description: String::new(),
        detectors: names(detectors),
        detectors_any: names(any),
        global_items: globals,
        project_items: projects,
        command_items: vec![],
    }
}

fn stats(size: u64) -> PathStats {
    PathStats { size_bytes: size, file_count: 1, dir_count: 0, last_modified: Some(100) }
}

fn entry(name: &str, is_dir: bool) -> DirEntry {
    DirEntry { name: name.into(), is_dir }
}

#[test]
fn detectors_match_names_extensions_and_prefixes() {
    let children = names(&["package.json", "App.xcodeproj", "app.config.js", "src"]);
    assert!(matches_detector("package.json", &children));
    assert!(matches_detector("src/", &children));
    assert!(matches_detector("*.xcodeproj", &children));
    assert!(matches_detector("*.*.xcodeproj", &children));
    assert!(matches_detector("app.", &children));
    assert!(!matches_detector("Podfile", &children));
    assert!(!matches_detector("*.gradle", &children));
    assert!(!matches_detector("app", &children));

    let node = plugin("Node", &["package.json"], &[], vec![], vec![]);
    assert!(node.matches_directory(&children));
    let expo = plugin("Expo", &["package.json"], &["app.json", "app."], vec![], vec![]);
    assert!(expo.matches_directory(&children));
    let rn = plugin("React Native", &["package.json"], &["ios", "android"], vec![], vec![]);
    assert!(!rn.matches_directory(&children));
    let nothing = plugin("Empty", &[], &[], vec![], vec![]);
    assert!(!nothing.matches_directory(&children));
    assert_eq!(default_delete_strategy(), "directory");
}

#[test]
fn measurements_follow_what_the_file_system_showed() {
    let m = measure_path(None);
    assert_eq!(m.status, ItemStatus::Missing);
    assert_eq!(m.size_bytes, 0);
    let m = measure_path(Some(stats(42)));
    assert_eq!(m.status, ItemStatus::Found);
    assert_eq!(m.size_bytes, 42);
    assert_eq!(m.last_modified, Some(100));
    assert_eq!(dir_last_modified(Some(stats(1))), Some(100));
    assert_eq!(dir_last_modified(None), None);
    assert!(lists_children(&item("Sims", &["~/Sims"], true), true));
    assert!(!lists_children(&item("Sims", &["~/Sims"], true), false));
    assert!(!lists_children(&item("Cache", &["~/Cache"], false), true));
    assert_eq!(project_name("/code/web", None), "web");
    assert_eq!(project_name("/code/web/..", Some("/code")), "code");
    assert_eq!(project_name("..", None), "..");
}

#[test]
fn global_items_are_measured_and_listed() {
    let xcode = PluginDefinition {
        command_items: vec![],
        ..plugin(
            "Xcode",
            &[],
            &[],
            vec![item("DerivedData", &["~/Library/DerivedData"], false), item("Simulators", &["~/Sims"], true)],
            vec![],
        )
    };
    let probes = vec![
        vec![GlobalProbe::Single(Some(stats(10)))],
        vec![GlobalProbe::Listed(vec![
            ListedEntry { name: "iPhone".into(), stats: Some(stats(5)) },
            ListedEntry { name: "device.ini".into(), stats: Some(stats(9)) },
            ListedEntry { name: "gone".into(), stats: None },
        ])],
    ];
    let cat = Scanner::global_category(&xcode, Some("/home/u"), &probes).unwrap();
    assert_eq!(cat.category, "Xcode");
    assert!(cat.is_detected);
    assert_eq!(cat.total_size, 24);
    assert_eq!(cat.global_items.len(), 4);
    assert_eq!(cat.global_items[0].path, "/home/u/Library/DerivedData");
    assert_eq!(cat.global_items[1].name, "Simulators / iPhone");
    assert_eq!(cat.global_items[1].path, "/home/u/Sims/iPhone");
    assert_eq!(cat.global_items[2].name, "Simulators / device.ini");
    assert_eq!(cat.global_items[2].status, ItemStatus::Found);
    assert_eq!(cat.global_items[3].status, ItemStatus::Missing);

    let missing = vec![vec![GlobalProbe::Single(None)], vec![GlobalProbe::Single(None)]];
    let cat = Scanner::global_category(&xcode, Some("/home/u"), &missing).unwrap();
    assert!(!cat.is_detected);
    assert_eq!(cat.total_size, 0);

    let docker = PluginDefinition {
        command_items: vec![CommandItem {
            name: "Prune".into(),
            command: "docker system prune".into(),
            description: "d".into(),
            safe: false,
            explanation: None,
        }],
        ..plugin("Docker", &[], &[], vec![], vec![])
    };
    let cat = Scanner::global_category(&docker, None, &vec![]).unwrap();
    assert!(cat.is_detected);
    assert_eq!(cat.command_items.len(), 1);
    assert_eq!(cat.command_items[0].command, "docker system prune");
}

#[test]
fn walk_lists_directories_depth_first_skipping_hidden_roots_and_build_folders() {
    let mut w = Walker::new(&names(&["~/Code", "/srv"]), Some("/home/u"));
    assert_eq!(w.next_dir(), Some(("/home/u/Code".to_string(), 0)));
    w.descend(
        "/home/u/Code",
        0,
        &vec![entry("web", true), entry(".cache", true), entry("node_modules", true), entry("README.md", false), entry("api", true)],
    );
    assert_eq!(w.next_dir(), Some(("/home/u/Code/web".to_string(), 1)));
    w.descend("/home/u/Code/web", 1, &vec![entry(".git", true), entry(".config", true)]);
    assert_eq!(w.next_dir(), Some(("/home/u/Code/web/.config".to_string(), 2)));
    assert_eq!(w.next_dir(), Some(("/home/u/Code/api".to_string(), 1)));
    assert_eq!(w.next_dir(), Some(("/srv".to_string(), 0)));
    w.descend("/deep", 5, &vec![entry("x", true)]);
    assert_eq!(w.next_dir(), None);
    assert!(skips_descent("target"));
    assert!(skips_descent("DerivedData"));
    assert!(!skips_descent("src"));
}

#[test]
fn a_scan_merges_projects_across_ecosystems_and_sorts_by_size() {
    let node = plugin("Node", &["package.json"], &[], vec![], vec![item("node_modules", &["node_modules"], false)]);
    let next = plugin("Next.js", &["package.json"], &["next.config.js"], vec![], vec![item("node_modules", &["node_modules"], false), item(".next", &[".next"], false)]);
    let cache = plugin("Homebrew", &[], &[], vec![item("Cache", &["~/Library/Caches/Homebrew"], false)], vec![]);
    let plugins = vec![node, next, cache];
    let scanner = Scanner::new(plugins.clone());
    let mut state = ScanState::new();
    assert!(state.add_global(&plugins[0], Some("/h"), &vec![]));
    assert!(state.add_global(&plugins[1], Some("/h"), &vec![]));
    assert!(state.add_global(&plugins[2], Some("/h"), &vec![vec![GlobalProbe::Single(Some(stats(3)))]]));

    let entries = vec![entry("package.json", false), entry("next.config.js", false), entry("node_modules", true)];
    let matching = scanner.matching_plugins(&entries);
    assert_eq!(matching, vec![0, 1]);
    let candidates = scanner.candidate_paths("/code/site", &matching);
    assert_eq!(candidates, names(&["/code/site/node_modules", "/code/site/.next"]));
    let observed = vec![Some(stats(50)), None];
    assert!(state.record_projects(&plugins, "/code/site", "site", Some(7), &matching, &candidates, &observed));

    let report = state.finish().unwrap();
    assert_eq!(report.total_size, 53);
    assert_eq!(report.categories[0].category, "Node");
    assert_eq!(report.categories[0].total_size, 50);
    assert_eq!(report.categories[1].category, "Homebrew");
    assert_eq!(report.categories[2].category, "Next.js");
    assert_eq!(report.categories[2].total_size, 0);
    assert_eq!(report.projects.len(), 1);
    assert_eq!(report.projects[0].name, "site");
    assert_eq!(report.projects[0].ecosystem, "Node");
    assert_eq!(report.projects[0].total_size, 50);
    assert_eq!(report.projects[0].items.len(), 1);
    assert_eq!(report.projects[0].last_modified, Some(7));

    let lines = report_lines(&report).unwrap();
    assert_eq!(lines[0], ReportLine::Category(0));
    assert_eq!(lines[1], ReportLine::Project(0, 0));
    assert_eq!(lines[2], ReportLine::ProjectItem(0, 0, 0));
    assert_eq!(lines[3], ReportLine::ProjectSubtotal(0, 0));
    assert_eq!(lines[4], ReportLine::Category(1));
    assert_eq!(lines[5], ReportLine::GlobalItem(1, 0));
    assert_eq!(lines[6], ReportLine::GlobalSubtotal(1, 3));
    assert_eq!(lines[7], ReportLine::Category(2));
}

#[test]
fn configuration_falls_back_to_defaults() {
    let d = Config::default();
    assert!(d.trash && d.parallel);
    assert_eq!(d.max_threads, 8);
    assert_eq!(d.project_roots, default_project_roots());
    assert_eq!(default_project_roots(), names(&["~/Projects", "~/Code", "~/Developer"]));
    let load = Config::from_read(ConfigRead::Unreadable);
    assert!(load.write_default);
    assert_eq!(load.config.max_threads, 8);
    let load = Config::from_read(ConfigRead::Invalid);
    assert!(!load.write_default);
    let mine = Config { trash: false, parallel: false, max_threads: 2, project_roots: names(&["/w"]) };
    let load = Config::from_read(ConfigRead::Parsed(mine));
    assert!(!load.write_default);
    assert_eq!(load.config.project_roots, names(&["/w"]));
    assert_eq!(Config::path_for(Some("/home/u")), "/home/u/.config/scrub/config.toml");
    assert_eq!(Config::path_for(None), ".config/scrub/config.toml");
    assert_eq!(scan_roots(vec![], &d), default_project_roots());
    assert_eq!(scan_roots(names(&["/x"]), &d), names(&["/x"]));
}

#[test]
fn command_line_picks_the_action() {
    assert!(matches!(Cli { command: None }.action(), MainAction::Dashboard { paths } if paths.is_empty()));
    assert!(matches!(
        Cli { command: Some(Commands::Scan { json: true, paths: names(&["/a"]) }) }.action(),
        MainAction::Scan { json: true, paths } if paths == names(&["/a"])
    ));
    assert!(matches!(
        Cli { command: Some(Commands::Clean { target: "node".into() }) }.action(),
        MainAction::Clean { target } if target == "node"
    ));
    assert!(matches!(Cli { command: Some(Commands::Doctor) }.action(), MainAction::Unimplemented));
    assert!(matches!(
        Cli { command: Some(Commands::Plugin { cmd: PluginCommands::List }) }.action(),
        MainAction::Unimplemented
    ));
}

#[test]
fn plugin_manager_keeps_the_definitions_that_parsed() {
    let mut m = PluginManager::new();
    assert!(m.plugins.is_empty());
    m.load_bundled(vec![Some(plugin("A", &["a"], &[], vec![], vec![])), None, Some(plugin("B", &["b"], &[], vec![], vec![]))]);
    assert_eq!(m.plugins.len(), 2);
    assert_eq!(m.plugins[1].name, "B");
    m.load_directory(vec![None, Some(plugin("C", &["c"], &[], vec![], vec![]))]);
    assert_eq!(m.plugins.len(), 3);
    assert_eq!(m.plugins[2].name, "C");
}

#[test]
fn totals_that_overflow_are_refused() {
    let big = plugin("Big", &[], &[], vec![item("A", &["/a"], false), item("B", &["/b"], false)], vec![]);
    let probes = vec![vec![GlobalProbe::Single(Some(stats(u64::MAX)))], vec![GlobalProbe::Single(Some(stats(1)))]];
    assert!(Scanner::global_category(&big, None, &probes).is_none());
    let mut state = ScanState::new();
    assert!(!state.add_global(&big, None, &probes));
    assert!(state.categories.is_empty());

    let found = |name: &str| scrub::models::scan::CacheItem {
        name: name.into(),
        path: format!("/{name}"),
        size_bytes: u64::MAX,
        file_count: 0,
        dir_count: 0,
        safe: true,
        explanation: None,
        status: ItemStatus::Found,
        last_modified: None,
    };
    let report = scrub::models::scan::ScanReport {
        categories: vec![scrub::models::scan::CategoryReport {
            category: "Big".into(),
            global_items: vec![found("a"), found("b")],
            projects: vec![],
            command_items: vec![],
            total_size: 0,
            is_detected: true,
        }],
        total_size: 0,
        projects: vec![],
    };
    assert!(report_lines(&report).is_none());
    let mut quiet = report.clone();
    quiet.categories[0].is_detected = false;
    assert_eq!(report_lines(&quiet).unwrap(), vec![ReportLine::Category(0), ReportLine::NotDetected(0)]);
}

#[test]
fn sizes_add_up_files_and_count_directories() {
    let mut t = SizeTally::new();
    assert!(t.add_file(Some(10)));
    assert!(t.add_file(None));
    assert!(t.add_dir());
    assert!(t.add_file(Some(5)));
    assert_eq!((t.size_bytes, t.file_count, t.dir_count), (15, 3, 1));
    assert!(!t.add_file(Some(u64::MAX)));
    assert_eq!((t.size_bytes, t.file_count, t.dir_count), (15, 3, 1));
}

#[test]
fn global_locations_are_expanded_against_the_given_home() {
    let p = plugin("Xcode", &[], &[], vec![item("A", &["~/Library/A", "/opt/a"], false), item("B", &[], true)], vec![]);
    assert_eq!(
        global_paths(&p, Some("/home/u")),
        vec![vec!["/home/u/Library/A".to_string(), "/opt/a".to_string()], vec![]]
    );
    assert_eq!(global_paths(&p, None)[0][0], "~/Library/A");
}

#[test]
fn a_scan_run_adds_globals_then_records_each_directory_before_descending() {
    let node = plugin("Node", &["package.json"], &[], vec![], vec![item("node_modules", &["node_modules"], false)]);
    let cache = plugin("Homebrew", &[], &[], vec![item("Cache", &["~/Library/Caches/Homebrew"], false)], vec![]);
    let mut run = ScanRun::new(vec![node, cache], &names(&["~/code"]), Some("/h".to_string()));

    assert_eq!(run.global_targets(), Some(vec![]));
    assert!(run.add_global(&vec![]));
    assert_eq!(run.global_targets(), Some(vec![names(&["/h/Library/Caches/Homebrew"])]));
    assert!(run.add_global(&vec![vec![GlobalProbe::Single(Some(stats(3)))]]));
    assert_eq!(run.global_targets(), None);

    assert_eq!(run.next_dir(), Some(("/h/code".to_string(), 0)));
    let top = vec![entry("site", true), entry("notes.txt", false)];
    assert_eq!(run.visit_targets("/h/code", &top), None);
    assert!(run.visit("/h/code", 0, &top, "", None, &vec![]));

    assert_eq!(run.next_dir(), Some(("/h/code/site".to_string(), 1)));
    let site = vec![entry("package.json", false), entry("node_modules", true)];
    assert_eq!(run.visit_targets("/h/code/site", &site), Some(names(&["/h/code/site/node_modules"])));
    assert!(run.visit("/h/code/site", 1, &site, "site", Some(7), &vec![Some(stats(50))]));

    // node_modules is recorded as a project item and never walked into.
    assert_eq!(run.next_dir(), None);
    let report = run.finish().unwrap();
    assert_eq!(report.total_size, 53);
    assert_eq!(report.categories[0].category, "Node");
    assert_eq!(report.categories[0].total_size, 50);
    assert_eq!(report.categories[1].category, "Homebrew");
    assert_eq!(report.categories[1].total_size, 3);
    assert_eq!(report.projects.len(), 1);
    assert_eq!(report.projects[0].path, "/h/code/site");
}
