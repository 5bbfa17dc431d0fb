//! Tests for the interactive state model and the cleaners' detectors.

use devsweep::cleaners::{MiscCleaner, SystemCleaner, TestBrowsersCleaner};
use devsweep::kind::ProjectKind;
use devsweep::project::Project;
use devsweep::scanner::ScanResult;
use devsweep::tui::{
    Action, App, AppState, CleanerEntry, Key, KeyInput, MouseInput, ScanMessage, ScanMode,
    StatusNote,
};

fn sized_project(root: &str, kind: ProjectKind, cleanable: u64) -> Project {
    let mut p = Project::new(kind, root.to_string());
    p.cleanable_size = cleanable;
    p.total_size = cleanable;
    p
}

fn app_with_results(sizes: &[u64]) -> App {
    let mut app = App::new(vec![]);
    let projects: Vec<Project> = sizes
        .iter()
        .enumerate()
        .map(|(i, s)| sized_project(&format!("/p{}", i), ProjectKind::Rust, *s))
        .collect();
    let total = sizes.iter().sum();
    app.apply_message(ScanMessage::CompleteProjects(ScanResult {
        projects,
        directories_scanned: 5,
        total_cleanable: total,
        elapsed_ms: 0,
    }));
    app
}

#[test]
fn app_initial_state() {
    let app = App::new(vec!["/x".to_string()]);
    assert_eq!(app.state, AppState::Ready);
    assert_eq!(app.scan_mode, ScanMode::All);
    assert!(matches!(
        app.status_message,
        Some(StatusNote::SelectScanPrompt)
    ));
    assert_eq!(app.scan_paths, vec!["/x".to_string()]);
}

#[test]
fn menu_navigation_wraps() {
    let mut app = App::new(vec![]);
    app.menu_up();
    assert_eq!(app.menu_index, 6);
    assert_eq!(app.scan_mode, ScanMode::MLCaches);
    app.menu_down();
    assert_eq!(app.menu_index, 0);
    assert_eq!(app.scan_mode, ScanMode::All);
    app.menu_down();
    assert_eq!(app.scan_mode, ScanMode::Projects);
}

#[test]
fn scan_modes_have_names() {
    let modes = ScanMode::all_modes();
    assert_eq!(modes.len(), 7);
    for m in &modes {
        assert!(!m.name().is_empty());
        assert!(!m.description().is_empty());
        assert!(!m.icon().is_empty());
    }
    assert_eq!(ScanMode::Projects.name(), "Projects");
}

#[test]
fn display_names_and_icons_are_fixed() {
    assert_eq!(ProjectKind::Rust.display_name(), "Rust (Cargo)");
    assert_eq!(ProjectKind::NodeNpm.display_name(), "Node.js (npm)");
    assert_eq!(ProjectKind::PythonUv.display_name(), "Python (uv)");
    assert_eq!(ProjectKind::Custom(5).display_name(), "Custom");
    assert_eq!(ProjectKind::Custom(99).display_name(), "Custom");
    assert_eq!(ProjectKind::Rust.icon(), "[rs]");
    assert_eq!(ProjectKind::NodeYarn.icon(), "[js]");
    assert_eq!(ProjectKind::Kotlin.icon(), "[jvm]");
    assert_eq!(ProjectKind::Custom(3).icon(), "[dir]");
}

#[test]
fn scan_mode_names_are_fixed() {
    assert_eq!(ScanMode::All.name(), "Scan All");
    assert_eq!(ScanMode::Projects.name(), "Projects");
    assert_eq!(ScanMode::Projects.icon(), "[box]");
    assert_eq!(
        ScanMode::Caches.description(),
        "npm, pip, cargo, brew, CocoaPods cache"
    );
}

#[test]
fn project_results_are_sorted_desc() {
    let app = app_with_results(&[100, 5000, 70]);
    assert_eq!(app.state, AppState::Results);
    let sizes: Vec<u64> = app
        .projects
        .iter()
        .map(|e| e.project.cleanable_size)
        .collect();
    assert_eq!(sizes, vec![5000, 100, 70]);
    assert_eq!(app.total_size, 5170);
    assert_eq!(app.dirs_scanned, 5);
}

#[test]
fn selection_navigation() {
    let mut app = app_with_results(&[3, 2, 1]);
    assert_eq!(app.selected, 0);
    app.select_down();
    assert_eq!(app.selected, 1);
    app.select_down();
    app.select_down();
    assert_eq!(app.selected, 0);
    app.select_up();
    assert_eq!(app.selected, 2);
    app.go_top();
    assert_eq!(app.selected, 0);
    app.go_bottom();
    assert_eq!(app.selected, 2);
    app.page_up(10);
    assert_eq!(app.selected, 0);
    app.page_down(2);
    assert_eq!(app.selected, 2);
}

#[test]
fn toggle_and_count_selection() {
    let mut app = app_with_results(&[300, 200, 100]);
    app.toggle_select();
    assert_eq!(app.selected_count(), 1);
    assert_eq!(app.selected_size(), 300);
    assert!(matches!(
        app.status_message,
        Some(StatusNote::Selected { count: 1, size: 300 })
    ));
    app.toggle_select();
    assert_eq!(app.selected_count(), 0);
    app.select_all();
    assert_eq!(app.selected_count(), 3);
    assert_eq!(app.selected_size(), 600);
    app.deselect_all();
    assert_eq!(app.selected_count(), 0);
}

#[test]
fn filter_by_tab_kinds() {
    let mut app = App::new(vec![]);
    app.apply_message(ScanMessage::CompleteProjects(ScanResult {
        projects: vec![
            sized_project("/a", ProjectKind::Rust, 10),
            sized_project("/b", ProjectKind::NodeNpm, 20),
            sized_project("/c", ProjectKind::Go, 30),
        ],
        directories_scanned: 3,
        total_cleanable: 60,
        elapsed_ms: 0,
    }));
    assert_eq!(app.visible_count(), 3);
    // Tab order: All, Node, Rust, Python, Java, Other.
    app.next_tab();
    assert_eq!(app.visible_count(), 1);
    assert!(app.visible_projects()[0].project.kind.is_node());
    app.next_tab();
    assert_eq!(app.visible_count(), 1);
    assert!(app.visible_projects()[0].project.kind.is_rust());
    app.next_tab(); // Python
    assert_eq!(app.visible_count(), 0);
    app.next_tab(); // Java
    app.next_tab(); // Other
    assert_eq!(app.visible_count(), 1);
    assert_eq!(app.visible_projects()[0].project.kind, ProjectKind::Go);
    app.prev_tab();
    app.prev_tab();
    app.prev_tab();
    app.prev_tab();
    app.prev_tab();
    assert_eq!(app.visible_count(), 3);
}

#[test]
fn search_filters_by_name() {
    let mut app = App::new(vec![]);
    app.apply_message(ScanMessage::CompleteProjects(ScanResult {
        projects: vec![
            sized_project("/work/Alpha", ProjectKind::Rust, 10),
            sized_project("/work/beta", ProjectKind::Rust, 20),
        ],
        directories_scanned: 2,
        total_cleanable: 30,
        elapsed_ms: 0,
    }));
    app.start_search();
    app.search_push('a');
    app.search_push('l');
    assert_eq!(app.visible_count(), 1);
    assert_eq!(app.visible_projects()[0].project.name, "Alpha");
    app.search_pop();
    app.search_pop();
    assert_eq!(app.visible_count(), 2);
    app.end_search();
    assert!(!app.is_searching);
}

#[test]
fn expand_and_collapse() {
    let mut app = app_with_results(&[3, 2]);
    assert!(!app.is_expanded(0));
    app.expand();
    assert!(app.is_expanded(0));
    app.toggle_expand();
    assert!(!app.is_expanded(0));
    app.toggle_expand();
    assert!(app.is_expanded(0));
    app.collapse();
    assert!(!app.is_expanded(0));
}

#[test]
fn delete_flow() {
    let mut app = app_with_results(&[3, 2]);
    app.request_delete();
    assert!(matches!(app.status_message, Some(StatusNote::NoSelection)));
    assert_eq!(app.state, AppState::Results);
    app.toggle_select();
    app.request_delete();
    assert_eq!(app.state, AppState::Confirming);
    app.cancel_delete();
    assert_eq!(app.state, AppState::Results);
    app.request_delete();
    let paths = app.confirm_delete();
    assert_eq!(app.state, AppState::Cleaning);
    // The selected project has no artifacts, so nothing to delete.
    assert!(paths.is_empty());
    app.deletion_complete(1, 0, 3);
    assert!(matches!(
        app.status_message,
        Some(StatusNote::Deleted { ok: 1, failed: 0, freed: 3 })
    ));
    assert_eq!(app.projects.len(), 1);
    assert_eq!(app.state, AppState::Results);
}

#[test]
fn confirm_delete_collects_paths() {
    let mut app = App::new(vec![]);
    let mut p = sized_project("/a", ProjectKind::Rust, 10);
    p.artifacts.push(devsweep::project::Artifact {
        name: "target".to_string(),
        path: "/a/target".to_string(),
        size: 10,
        file_count: 1,
        partial: false,
    });
    app.apply_message(ScanMessage::CompleteProjects(ScanResult {
        projects: vec![p],
        directories_scanned: 1,
        total_cleanable: 10,
        elapsed_ms: 0,
    }));
    app.toggle_select();
    let paths = app.confirm_delete();
    assert_eq!(paths, vec!["/a/target".to_string()]);
}

#[test]
fn cleaner_results_sorted_and_deleted() {
    let mut app = App::new(vec![]);
    let entry = |name: &str, size: u64| CleanerEntry {
        name: name.to_string(),
        path: format!("/c/{}", name),
        size,
        icon: "[x]".to_string(),
        category: "Cache".to_string(),
        selected: false,
        visible: true,
    };
    app.apply_message(ScanMessage::CompleteCleaners(vec![
        entry("small", 10),
        entry("large", 1000),
    ]));
    assert_eq!(app.state, AppState::CleanerResults);
    assert_eq!(app.cleaners[0].name, "large");
    app.toggle_select();
    let paths = app.confirm_delete();
    assert_eq!(paths, vec!["/c/large".to_string()]);
    app.deletion_complete(1, 0, 1000);
    assert_eq!(app.cleaners.len(), 1);
    assert_eq!(app.cleaners[0].name, "small");
}

#[test]
fn error_message_sets_error_state() {
    let mut app = App::new(vec![]);
    app.apply_message(ScanMessage::Error("boom".to_string()));
    assert_eq!(app.state, AppState::Error("boom".to_string()));
}

#[test]
fn progress_updates_counters() {
    let mut app = App::new(vec![]);
    app.begin_scan();
    assert_eq!(app.state, AppState::Scanning);
    app.apply_message(ScanMessage::Progress {
        dirs_scanned: 42,
        message: "walking".to_string(),
    });
    assert_eq!(app.dirs_scanned, 42);
    assert_eq!(app.scan_message, "walking");
    app.go_back();
    assert_eq!(app.state, AppState::Ready);
}

#[test]
fn key_bindings() {
    let k = |key: Key| KeyInput { key, ctrl: false };
    let c = |key: Key| KeyInput { key, ctrl: true };
    assert_eq!(Action::from_key(k(Key::Char('q'))), Action::Quit);
    assert_eq!(Action::from_key(c(Key::Char('c'))), Action::Quit);
    assert_eq!(Action::from_key(k(Key::Char('j'))), Action::Down);
    assert_eq!(Action::from_key(k(Key::Up)), Action::Up);
    assert_eq!(Action::from_key(c(Key::Char('d'))), Action::PageDown);
    assert_eq!(Action::from_key(k(Key::Char('d'))), Action::Delete);
    assert_eq!(Action::from_key(k(Key::Char(' '))), Action::ToggleSelect);
    assert_eq!(Action::from_key(k(Key::Enter)), Action::ToggleExpand);
    assert_eq!(Action::from_key(k(Key::Char('u'))), Action::DeselectAll);
    assert_eq!(Action::from_key(c(Key::Char('u'))), Action::PageUp);
    assert_eq!(Action::from_key(k(Key::Tab)), Action::NextTab);
    assert_eq!(Action::from_key(k(Key::F(5))), Action::Refresh);
    assert_eq!(Action::from_key(k(Key::F(2))), Action::NoOp);
    assert_eq!(Action::from_key(k(Key::Char('?'))), Action::Help);
    assert_eq!(Action::from_mouse(MouseInput::ScrollUp), Action::ScrollUp);
    assert_eq!(Action::from_mouse(MouseInput::Other), Action::NoOp);
}

#[test]
fn cleaners_on_missing_home_find_nothing() {
    let browsers = TestBrowsersCleaner::with_home("/no_such_home_dir_xyz".to_string());
    assert!(browsers.detect().is_empty());
    let misc = MiscCleaner::with_home("/no_such_home_dir_xyz".to_string());
    assert!(misc.detect().is_empty());
    let mut system = SystemCleaner::with_home("/no_such_home_dir_xyz".to_string());
    system.downloads_dir = Some("/no_such_home_dir_xyz/Downloads".to_string());
    assert!(system.detect_trash().is_empty());
    assert!(system.detect_downloads(1_000_000_000).is_empty());
}
