use scrub::models::scan::{CacheItem, CategoryReport, ItemStatus, ProjectSummary, ScanReport};
use scrub::ui::app::App;
use scrub::ui::detail::{display_path_with, fit_name, DetailInfo};
use scrub::ui::panes::detail_lines_at;
use scrub::ui::popups::{
    confirm_lines, deleting_text, dismiss_hint, done_lines, footer_hint, footer_look, output_lines, output_title,
    receipt_totals, run_command_lines, scanning_label, scanning_title,
};
use scrub::ui::screen::{Color, Look, Piece, PieceText};
use scrub::ui::app::ReceiptEntry;

fn text_of(line: &[Piece]) -> String {
    let mut s = String::new();
    for p in line {
        match &p.text {
            PieceText::Text(t) => s.push_str(t),
            PieceText::Size { prefix, bytes, width } => s.push_str(&format!("{}<{} bytes/{}>", prefix, bytes, width)),
        }
    }
    s
}

fn screen(lines: &[Vec<Piece>]) -> Vec<String> {
    lines.iter().map(|l| text_of(l)).collect()
}

fn item(name: &str, path: &str, size: u64) -> CacheItem {
    CacheItem {
        name: name.into(),
        path: path.into(),
        size_bytes: size,
        file_count: 1,
        dir_count: 0,
        safe: false,
        explanation: Some("Holds signed builds.\nKeep the ones you ship.".into()),
        status: ItemStatus::Found,
        last_modified: Some(1_000),
    }
}

#[test]
fn scanning_screen_shows_spinner_and_current_folder() {
    let title = scanning_title("◐");
    let label = scanning_label("/code/tal-app/.next");
    assert!(title.contains("◐  Scanning caches"));
    assert!(label.contains("tal-app / .next"));
    assert!(!title.contains("entries") && !label.contains("entries"));
    assert_eq!(scanning_label(""), "Looking for caches");
}

#[test]
fn deletion_result_keeps_dismiss_visible_when_log_is_long() {
    let log: Vec<String> = (0..20).map(|i| format!("✓ Deleted cache {i}")).collect();
    // An 80x24 screen gives the results list 9 lines above its "[Enter] Dismiss" line.
    let lines = screen(&done_lines(&log, 9));
    assert!(lines.len() <= 9);
    assert!(dismiss_hint().contains("[Enter] Dismiss"));
    assert_eq!(lines[0], "  Results:");
    assert_eq!(lines[2], "  ✓ Deleted cache 0");
    assert!(lines.last().unwrap().contains("... and "));
    assert_eq!(lines.last().unwrap(), "  ... and 14 more");
    let failed = done_lines(&vec!["✗ Failed x: denied".to_string()], 9);
    assert_eq!(failed[2][0].look.color, Color::Red);
    assert_eq!(failed.len(), 3);
}

#[test]
fn footer_keeps_quit_hint_at_narrow_width() {
    assert!(footer_hint(40).contains("q Quit"));
    assert_eq!(footer_hint(68), " Space Select  d Delete  c Clear  Tab Views  q Quit");
    assert_eq!(footer_hint(50), " Space Select  d Delete  Tab Views  q Quit");
    assert_eq!(footer_look(1).color, Color::Yellow);
    assert_eq!(footer_look(0).color, Color::DarkGray);
}

#[test]
fn names_are_cut_or_padded_to_fit() {
    assert_eq!(fit_name("DerivedData", 6), "Deriv…");
    assert_eq!(fit_name("Pods", 6), "Pods  ");
    assert_eq!(fit_name("Pods", 4), "Pods");
    assert_eq!(fit_name("Pods", 0), "…");
    assert_eq!(fit_name("ééé", 2), "é…");
}

#[test]
fn paths_under_home_are_shown_with_a_tilde() {
    assert_eq!(display_path_with("/home/u/Library/Caches", Some("/home/u")), "~/Library/Caches");
    assert_eq!(display_path_with("/home/u", Some("/home/u")), "~/");
    assert_eq!(display_path_with("/opt/cache", Some("/home/u")), "/opt/cache");
    assert_eq!(display_path_with("/home/user2/x", Some("/home/u")), "/home/user2/x");
    assert_eq!(display_path_with("/opt/cache", None), "/opt/cache");
}

#[test]
fn details_describe_the_row_under_the_cursor() {
    let report = ScanReport {
        categories: vec![CategoryReport {
            category: "Xcode".into(),
            global_items: vec![item("Archives", "/home/u/Library/Archives", 4096)],
            projects: vec![],
            command_items: vec![],
            total_size: 4096,
            is_detected: true,
        }],
        total_size: 4096,
        projects: vec![ProjectSummary {
            name: "web".into(),
            path: "/home/u/code/web".into(),
            ecosystem: "Node".into(),
            items: vec![],
            total_size: 1,
            last_modified: None,
        }],
    };
    let mut app = App::new(report).unwrap();
    let heading = app.current_detail_with(Some("/home/u")).unwrap();
    assert_eq!(heading.name, "Xcode");
    assert!(!heading.selectable);
    assert_eq!(
        screen(&detail_lines_at(&heading, 0)),
        vec![
            "Xcode".to_string(),
            "".to_string(),
            "Measured size  <4096 bytes/0>".to_string(),
            "".to_string(),
            "Choose a cache below to see what can be removed.".to_string(),
        ]
    );
    app.move_down();
    app.toggle();
    let d = app.current_detail_with(Some("/home/u")).unwrap();
    assert_eq!(d.name, "Archives");
    assert_eq!(d.path_str, "~/Library/Archives");
    assert!(d.selected && d.selectable && !d.is_command && !d.safe);
    assert_eq!(
        screen(&detail_lines_at(&d, 1_000 + 2 * 86_400)),
        vec![
            "Archives".to_string(),
            "".to_string(),
            "Size     <4096 bytes/0>".to_string(),
            "Modified 2 days ago".to_string(),
            "Safe     ⚠ Caution — review first".to_string(),
            "".to_string(),
            "⚠ Important — read before deleting".to_string(),
            "  Holds signed builds.".to_string(),
            "  Keep the ones you ship.".to_string(),
            "".to_string(),
            "  [Space] Deselect".to_string(),
            "".to_string(),
            "Path".to_string(),
            "~/Library/Archives".to_string(),
        ]
    );
    app.switch_tab();
    let p = app.current_detail_with(Some("/home/u")).unwrap();
    assert_eq!(p.name, "code / web");
    assert_eq!(p.path_str, "~/code/web");
}

#[test]
fn command_details_list_the_description() {
    let d = DetailInfo {
        name: "⚡ Prune".into(),
        path_str: "".into(),
        size_bytes: 0,
        safe: false,
        last_modified: None,
        explanation: None,
        is_command: true,
        command_desc: Some("Removes stopped containers\r\nand dangling images\n".into()),
        selectable: true,
        selected: false,
    };
    assert_eq!(
        screen(&detail_lines_at(&d, 0)),
        vec![
            "⚡ Prune".to_string(),
            "".to_string(),
            "⚡ Command Action".to_string(),
            "".to_string(),
            "  Removes stopped containers".to_string(),
            "  and dangling images".to_string(),
            "".to_string(),
            "  [Space/Enter] Run this command".to_string(),
        ]
    );
}

#[test]
fn confirmation_lists_three_items_and_counts_the_rest() {
    let items: Vec<(String, u64)> = (1..=5).map(|i| (format!("cache{i}"), i)).collect();
    let lines = screen(&confirm_lines(&items, 15));
    assert_eq!(lines[1], "  Remove 5 items (<15 bytes/0>)?");
    assert_eq!(lines[3], "  • cache1  (<1 bytes/0>)");
    assert_eq!(lines[5], "  • cache3  (<3 bytes/0>)");
    assert_eq!(lines[6], "  ... and 2 more");
    assert_eq!(lines[10], "  [Y] Move to Trash   [P] Delete Permanently");
    let one = screen(&confirm_lines(&vec![("Pods".to_string(), 7)], 7));
    assert_eq!(one[1], "  Remove 1 item (<7 bytes/0>)?");
    assert_eq!(one.len(), 9);
}

#[test]
fn command_dialogs_show_the_command_and_at_most_twenty_lines() {
    let lines = screen(&run_command_lines("docker system prune -f", "Removes stopped containers"));
    assert_eq!(lines[1], "  Removes stopped containers");
    assert_eq!(lines[4], "  $ docker system prune -f");
    let long: String = (0..25).map(|i| format!("line {i}\n")).collect();
    let out = screen(&output_lines(&long));
    assert_eq!(out.len(), 1 + 20 + 1 + 2);
    assert_eq!(out[1], "  line 0");
    assert_eq!(out[20], "  line 19");
    assert_eq!(out[21], "  ...");
    assert_eq!(out[23], "  [Enter/Esc] Dismiss");
    assert_eq!(screen(&output_lines("done")).len(), 4);
    assert_eq!(output_title(true), " ✓ Command Output ");
    assert_eq!(output_title(false), " ✗ Command Failed ");
}

#[test]
fn progress_text_counts_what_is_done() {
    assert_eq!(deleting_text("node_modules", 1, 3, false), "\n  Moving to Trash (1 of 3)\n  node_modules");
    assert_eq!(deleting_text("Pods", 0, 1, true), "\n  Permanently deleting (0 of 1)\n  Pods");
}

#[test]
fn receipt_totals_split_trash_from_permanent() {
    let receipt = vec![
        ReceiptEntry { label: "a".into(), size: 5, permanent: true },
        ReceiptEntry { label: "b".into(), size: 7, permanent: false },
        ReceiptEntry { label: "c".into(), size: 1, permanent: true },
    ];
    assert_eq!(receipt_totals(&receipt), Some((6, 7)));
    assert_eq!(receipt_totals(&vec![]), Some((0, 0)));
    let huge = vec![
        ReceiptEntry { label: "a".into(), size: u64::MAX, permanent: false },
        ReceiptEntry { label: "b".into(), size: 1, permanent: false },
    ];
    assert_eq!(receipt_totals(&huge), None);
}

#[test]
fn header_tabs_and_list_lines_reflect_the_selection() {
    let report = ScanReport {
        categories: vec![CategoryReport {
            category: "Xcode".into(),
            global_items: vec![item("Archives", "/home/u/Library/Archives", 4096)],
            projects: vec![],
            command_items: vec![],
            total_size: 4096,
            is_detected: true,
        }],
        total_size: 4096,
        projects: vec![],
    };
    let mut app = App::new(report).unwrap();
    assert_eq!(text_of(&app.header_pieces()), " 🧹 Scrub  <4096 bytes/0> found in cache locations");
    assert_eq!(app.tab_titles(), ("  Computer caches  ".to_string(), "  Project caches  ".to_string()));
    assert_eq!(app.proj_list_title(), " Project caches (0 projects) ");
    app.move_down();
    app.toggle();
    assert_eq!(
        text_of(&app.header_pieces()),
        " 🧹 Scrub  <4096 bytes/0> found in cache locations  ·  <4096 bytes/0> selected"
    );
    assert_eq!(app.tab_titles().0, "  Computer caches (1)  ");
    let lines = screen(&app.cache_list_lines(36));
    assert_eq!(lines[0], "  ▸ Xcode  <4096 bytes/0>");
    assert_eq!(lines[1], "  [✓] Archives<4096 bytes/10> ⚠");
    let wide = app.cache_list_lines(40);
    assert_eq!(text_of(&wide[1]), "  [✓] Archives    <4096 bytes/10> ⚠");
    assert_eq!(wide[1][0].look, Look { color: Color::Yellow, bold: false, italic: false });
}

#[test]
fn relative_paths_are_shown_as_they_are() {
    assert_eq!(scrub::ui::detail::display_path("relative/cache"), "relative/cache");
}
