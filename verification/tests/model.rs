//! Tests for the data model: identities, markers, safety verdicts,
//! totals and formatting.

use devsweep::kind::ProjectKind;
use devsweep::marker::{DirListing, MarkerKind};
use devsweep::probe::FsEntry;
use devsweep::project::{Artifact, CleanSafety, CleanWarning, GitStatus, Project, ProjectId};
use devsweep::text::{fmt_u64, format_size, truncate};
use devsweep::tui::format_age;

fn file_entry(name: &str) -> FsEntry {
    FsEntry::of(name.to_string(), false, true, false, 0, 1, 0)
}

fn dir_entry(name: &str, identity: u64) -> FsEntry {
    FsEntry::of(name.to_string(), true, false, false, 0, identity, 0)
}

#[test]
fn test_project_id_from_path() {
    let path1 = "/home/user/project1";
    let path2 = "/home/user/project2";

    let id1 = ProjectId::from_path(path1);
    let id2 = ProjectId::from_path(path2);
    let id1_again = ProjectId::from_path(path1);

    assert_eq!(id1, id1_again);
    assert_ne!(id1, id2);
}

#[test]
fn test_marker_kind_matches() {
    let listing = DirListing {
        name: "proj".to_string(),
        entries: vec![file_entry("package.json")],
    };

    let marker = MarkerKind::File("package.json");
    assert!(marker.matches(&listing));

    let marker = MarkerKind::File("cargo.toml");
    assert!(!marker.matches(&listing));
}

#[test]
fn test_project_safety_check() {
    let mut project = Project::new(ProjectKind::NodeNpm, "/test".to_string());

    // No git status = warning
    assert!(matches!(
        project.safety_check(),
        CleanSafety::Warning(CleanWarning::NotGitRepo)
    ));

    // Clean git status = safe
    project.git_status = Some(GitStatus {
        is_repo: true,
        has_uncommitted: false,
        has_untracked: false,
        ..Default::default()
    });
    // Would be safe if not recently modified
}

#[test]
fn marker_directory_and_extension() {
    let listing = DirListing {
        name: "proj".to_string(),
        entries: vec![
            dir_entry("node_modules", 7),
            file_entry("readme.md"),
            file_entry("archive.tar.gz"),
        ],
    };
    assert!(MarkerKind::Directory("node_modules").matches(&listing));
    assert!(!MarkerKind::Directory("readme.md").matches(&listing));
    assert!(MarkerKind::Extension("md").matches(&listing));
    assert!(MarkerKind::Extension("gz").matches(&listing));
    assert!(!MarkerKind::Extension("tar").matches(&listing));
    assert!(!MarkerKind::Extension("zip").matches(&listing));
    // A directory whose own name carries the extension is not a file
    // with that extension.
    let dirs_only = DirListing {
        name: "proj".to_string(),
        entries: vec![dir_entry("Thing.xcodeproj", 9)],
    };
    assert!(!MarkerKind::Extension("xcodeproj").matches(&dirs_only));
}

#[test]
fn marker_all_of_and_any_of() {
    let listing = DirListing {
        name: "app".to_string(),
        entries: vec![file_entry("Gemfile"), file_entry("config.ru")],
    };
    assert!(MarkerKind::AllOf(vec!["Gemfile", "config.ru"]).matches(&listing));
    assert!(!MarkerKind::AllOf(vec!["Gemfile", "artisan"]).matches(&listing));
    assert!(MarkerKind::AnyOf(vec!["artisan", "config.ru"]).matches(&listing));
    assert!(!MarkerKind::AnyOf(vec!["artisan", "composer.json"]).matches(&listing));
}

#[test]
fn safety_uncommitted_outranks_untracked() {
    let mut project = Project::new(ProjectKind::Rust, "/r".to_string());
    project.git_status = Some(GitStatus {
        is_repo: true,
        has_uncommitted: true,
        has_untracked: true,
        dirty_paths: vec!["src/lib.rs".to_string()],
        ..Default::default()
    });
    match project.safety_check() {
        CleanSafety::Warning(CleanWarning::UncommittedChanges { paths }) => {
            assert_eq!(paths, vec!["src/lib.rs".to_string()]);
        }
        other => panic!("expected an uncommitted-changes warning, got {:?}", other),
    }
}

#[test]
fn safety_untracked_when_committed() {
    let mut project = Project::new(ProjectKind::Rust, "/r".to_string());
    project.git_status = Some(GitStatus {
        is_repo: true,
        has_uncommitted: false,
        has_untracked: true,
        ..Default::default()
    });
    assert!(matches!(
        project.safety_check(),
        CleanSafety::Warning(CleanWarning::UntrackedFiles)
    ));
}

#[test]
fn safety_recently_modified() {
    let mut project = Project::new(ProjectKind::Rust, "/r".to_string());
    project.git_status = Some(GitStatus {
        is_repo: true,
        ..Default::default()
    });
    let now = 10_000_000u64;
    project.last_modified = Some(now - 3 * 86400);
    assert!(matches!(
        project.safety_check_at(now),
        CleanSafety::Warning(CleanWarning::RecentlyModified { age_days: 3 })
    ));
    project.last_modified = Some(now - 10 * 86400);
    assert!(matches!(project.safety_check_at(now), CleanSafety::Safe));
}

#[test]
fn totals_are_artifact_sums() {
    let mut project = Project::new(ProjectKind::Rust, "/r".to_string());
    project.artifacts.push(Artifact {
        name: "target".to_string(),
        path: "/r/target".to_string(),
        size: 1000,
        file_count: 3,
        partial: false,
    });
    project.artifacts.push(Artifact {
        name: "vendor".to_string(),
        path: "/r/vendor".to_string(),
        size: 234,
        file_count: 2,
        partial: false,
    });
    project.calculate_totals();
    assert_eq!(project.total_size, 1234);
    assert_eq!(project.cleanable_size, 1234);
    assert_eq!(project.artifact_count(), 2);
}

#[test]
fn project_new_fields() {
    let project = Project::new(ProjectKind::Go, "/home/user/svc".to_string());
    assert_eq!(project.name, "svc");
    assert_eq!(project.root, "/home/user/svc");
    assert_eq!(project.total_size, 0);
    assert!(project.git_status.is_none());
    let nameless = Project::new(ProjectKind::Go, "/".to_string());
    assert_eq!(nameless.name, "unknown");
}

#[test]
fn kind_predicates() {
    assert!(ProjectKind::NodeYarn.is_node());
    assert!(!ProjectKind::Rust.is_node());
    assert!(ProjectKind::Rust.is_rust());
    assert!(ProjectKind::PythonPoetry.is_python());
    assert!(ProjectKind::Kotlin.is_java());
    assert!(ProjectKind::Go.is_go());
    assert!(ProjectKind::SwiftXcode.is_swift());
    assert!(ProjectKind::FSharp.is_dotnet());
    assert_eq!(ProjectKind::Rust.display_name(), "Rust (Cargo)");
    assert_eq!(ProjectKind::Custom(3).display_name(), "Custom");
    assert!(!ProjectKind::Rust.icon().is_empty());
}

#[test]
fn git_status_is_clean() {
    let mut st = GitStatus::default();
    assert!(!st.is_clean());
    st.is_repo = true;
    assert!(st.is_clean());
    st.has_untracked = true;
    assert!(!st.is_clean());
}

#[test]
fn format_size_values() {
    assert_eq!(format_size(0), "0 B");
    assert_eq!(format_size(500), "500 B");
    assert_eq!(format_size(1024), "1.00 KB");
    assert_eq!(format_size(1536), "1.50 KB");
    assert_eq!(format_size(1048576), "1.00 MB");
    assert_eq!(format_size(2_000_000_000), "1.86 GB");
}

#[test]
fn fmt_u64_digits() {
    assert_eq!(fmt_u64(0), "0");
    assert_eq!(fmt_u64(7), "7");
    assert_eq!(fmt_u64(12345), "12345");
    assert_eq!(fmt_u64(1000000), "1000000");
}

#[test]
fn truncate_text() {
    assert_eq!(truncate("short", 10), "short");
    assert_eq!(truncate("a-rather-long-name", 10), "a-rathe...");
    assert_eq!(truncate("abcd", 2), "...");
}

#[test]
fn format_age_values() {
    let mut project = Project::new(ProjectKind::Rust, "/r".to_string());
    let now = 100_000_000u64;
    assert_eq!(format_age(&project, now), "unknown");
    project.last_modified = Some(now - 3600);
    assert_eq!(format_age(&project, now), "today");
    project.last_modified = Some(now - 86400);
    assert_eq!(format_age(&project, now), "1 day");
    project.last_modified = Some(now - 5 * 86400);
    assert_eq!(format_age(&project, now), "5 days");
    project.last_modified = Some(now - 90 * 86400);
    assert_eq!(format_age(&project, now), "3 months");
    project.last_modified = Some(now - 800 * 86400);
    assert_eq!(format_age(&project, now), "2 years");
}
