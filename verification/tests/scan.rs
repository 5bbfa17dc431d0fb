//! Tests for marker resolution, the scan engine and the git prober
//! decisions, driven with synthetic directory listings.

use devsweep::git::{status_from_probe, GitProbe};
use devsweep::kind::ProjectKind;
use devsweep::marker::{DirListing, MarkerKind};
use devsweep::probe::FsEntry;
use devsweep::registry::{PluginRegistry, ProjectMarker};
use devsweep::scanner::{
    run_scan, tally_listing, ParallelScanner, RootSeed, ScanConfig, ScanEngine, ScanError,
};

fn file_entry(name: &str) -> FsEntry {
    FsEntry::of(name.to_string(), false, true, false, 0, 1, 0)
}

fn sized_file(name: &str, size: u64, identity: u64) -> FsEntry {
    FsEntry::of(name.to_string(), false, true, false, size, identity, 0)
}

fn dir_entry(name: &str, identity: u64) -> FsEntry {
    FsEntry::of(name.to_string(), true, false, false, 0, identity, 0)
}

fn listing(name: &str, entries: Vec<FsEntry>) -> DirListing {
    DirListing {
        name: name.to_string(),
        entries,
    }
}

/// Scenario: a directory matches both the Rust manifest marker
/// (priority 10) and the Node manifest marker (priority 8) — the
/// resolved kind is Rust.
#[test]
fn resolve_prefers_higher_priority() {
    let registry = PluginRegistry::with_builtins();
    let both = listing(
        "repo",
        vec![file_entry("Cargo.toml"), file_entry("package.json")],
    );
    assert_eq!(registry.resolve(&both), Some(ProjectKind::Rust));
}

#[test]
fn resolve_priority_wins_regardless_of_order() {
    let mk = |ind: MarkerKind, kind: ProjectKind, priority: u8| ProjectMarker {
        indicator: ind,
        kind,
        priority,
    };
    let entries = vec![file_entry("a"), file_entry("b")];

    let mut forward = PluginRegistry::new();
    forward.register(mk(MarkerKind::File("a"), ProjectKind::Go, 9));
    forward.register(mk(MarkerKind::File("b"), ProjectKind::Zig, 4));
    assert_eq!(
        forward.resolve(&listing("d", entries.clone())),
        Some(ProjectKind::Go)
    );

    let mut backward = PluginRegistry::new();
    backward.register(mk(MarkerKind::File("b"), ProjectKind::Zig, 4));
    backward.register(mk(MarkerKind::File("a"), ProjectKind::Go, 9));
    assert_eq!(
        backward.resolve(&listing("d", entries)),
        Some(ProjectKind::Go)
    );
}

#[test]
fn resolve_tie_goes_to_first_registered() {
    let mut registry = PluginRegistry::new();
    registry.register(ProjectMarker {
        indicator: MarkerKind::File("x"),
        kind: ProjectKind::Lua,
        priority: 5,
    });
    registry.register(ProjectMarker {
        indicator: MarkerKind::File("x"),
        kind: ProjectKind::Perl,
        priority: 5,
    });
    let l = listing("d", vec![file_entry("x")]);
    assert_eq!(registry.resolve(&l), Some(ProjectKind::Lua));
}

#[test]
fn resolve_none_without_match() {
    let registry = PluginRegistry::with_builtins();
    let l = listing("d", vec![file_entry("notes.txt")]);
    assert_eq!(registry.resolve(&l), None);
}

#[test]
fn registry_artifact_dirs_extension() {
    let mut registry = PluginRegistry::with_builtins();
    let base = registry.artifact_dirs(ProjectKind::Rust);
    assert_eq!(base, vec!["target".to_string()]);
    registry.register_artifact_dir(ProjectKind::Rust, "extra-out".to_string());
    let extended = registry.artifact_dirs(ProjectKind::Rust);
    assert_eq!(extended, vec!["target".to_string(), "extra-out".to_string()]);
}

/// Scenario: `repo/` contains a version-control directory, the Rust
/// manifest, and a 2 GB build-output directory — scanning yields one
/// Rust project with one artifact named `target` of that size, and an
/// equal cleanable size.
#[test]
fn scan_repo_with_target() {
    let registry = PluginRegistry::with_builtins();
    let config = ScanConfig::default();
    let mut engine = ScanEngine::new(
        config,
        vec![RootSeed {
            path: "repo".to_string(),
            identity: 1,
            mtime: 0,
        }],
    );

    while let Some(path) = engine.next_path() {
        let entries = match path.as_str() {
            "repo" => vec![
                dir_entry(".git", 2),
                file_entry("Cargo.toml"),
                dir_entry("target", 3),
            ],
            "repo/target" => vec![sized_file("big.bin", 2_000_000_000, 4)],
            other => panic!("unexpected probe of {}", other),
        };
        engine.step(&registry, entries, true);
    }
    let result = engine.finish();

    assert_eq!(result.projects.len(), 1);
    let p = &result.projects[0];
    assert_eq!(p.kind, ProjectKind::Rust);
    assert_eq!(p.root, "repo");
    assert_eq!(p.artifacts.len(), 1);
    assert_eq!(p.artifacts[0].name, "target");
    assert_eq!(p.artifacts[0].size, 2_000_000_000);
    assert_eq!(p.cleanable_size, 2_000_000_000);
    assert_eq!(result.total_cleanable, 2_000_000_000);
    // Only classification visits count; measuring the artifact does not.
    assert_eq!(result.directories_scanned, 1);
}

/// Scenario: `app/` holds a Node manifest and a 50 MB dependency
/// directory, with a nested `app/packages/sub/` holding its own
/// manifest and a 10 MB dependency directory — scanning yields two
/// distinct projects, because the nested package sits outside the
/// parent's pruned artifact.
#[test]
fn scan_monorepo_two_projects() {
    let registry = PluginRegistry::with_builtins();
    let config = ScanConfig::default();
    let mut engine = ScanEngine::new(
        config,
        vec![RootSeed {
            path: "app".to_string(),
            identity: 1,
            mtime: 0,
        }],
    );

    while let Some(path) = engine.next_path() {
        let entries = match path.as_str() {
            "app" => vec![
                file_entry("package.json"),
                dir_entry("node_modules", 10),
                dir_entry("packages", 11),
            ],
            "app/packages" => vec![dir_entry("sub", 12)],
            "app/packages/sub" => vec![
                file_entry("package.json"),
                dir_entry("node_modules", 13),
            ],
            "app/node_modules" => vec![sized_file("dep.js", 50_000_000, 20)],
            "app/packages/sub/node_modules" => vec![sized_file("dep.js", 10_000_000, 21)],
            other => panic!("unexpected probe of {}", other),
        };
        engine.step(&registry, entries, true);
    }
    let result = engine.finish();

    assert_eq!(result.projects.len(), 2);
    let roots: Vec<&str> = result.projects.iter().map(|p| p.root.as_str()).collect();
    assert!(roots.contains(&"app"));
    assert!(roots.contains(&"app/packages/sub"));
    let total: u64 = result.projects.iter().map(|p| p.cleanable_size).sum();
    assert_eq!(total, 60_000_000);
    for p in &result.projects {
        assert_eq!(p.kind, ProjectKind::NodeNpm);
    }
}

/// The artifact walk never recurses into an already-measured identity:
/// a symlink cycle back into the artifact ends after one pass.
#[test]
fn scan_symlink_cycle_terminates() {
    let registry = PluginRegistry::with_builtins();
    let config = ScanConfig::default();
    let mut engine = ScanEngine::new(
        config,
        vec![RootSeed {
            path: "repo".to_string(),
            identity: 1,
            mtime: 0,
        }],
    );

    while let Some(path) = engine.next_path() {
        let entries = match path.as_str() {
            "repo" => vec![file_entry("Cargo.toml"), dir_entry("target", 3)],
            // A subdirectory whose identity is the artifact itself: a
            // symlink cycle.  Its listing repeats the artifact's, but the
            // visited-identity set stops the walk after one pass.
            "repo/target" | "repo/target/loop" => vec![
                sized_file("a.bin", 1000, 4),
                dir_entry("loop", 3),
            ],
            other => panic!("unexpected probe of {}", other),
        };
        engine.step(&registry, entries, true);
    }
    let result = engine.finish();
    assert_eq!(result.projects.len(), 1);
    assert_eq!(result.projects[0].artifacts[0].size, 1000);
}

/// The budget bounds every scan: after `max_steps` steps the engine
/// reports no more work, whatever remains queued.
#[test]
fn tally_listing_sums_and_saturates() {
    let entries = vec![
        sized_file("a.bin", 100, 1),
        dir_entry("sub", 2),
        sized_file("b.bin", 23, 3),
    ];
    let (size, files) = tally_listing(10, 1, &entries);
    assert_eq!(size, 133);
    assert_eq!(files, 3);

    let big = vec![sized_file("huge", u64::MAX, 4), sized_file("more", 7, 5)];
    let (size, files) = tally_listing(1, 0, &big);
    assert_eq!(size, u64::MAX);
    assert_eq!(files, 2);
}

#[test]
fn scan_budget_bounds_steps() {
    let registry = PluginRegistry::with_builtins();
    let mut config = ScanConfig::default();
    config.max_steps = 3;
    let mut engine = ScanEngine::new(
        config,
        vec![RootSeed {
            path: "wide".to_string(),
            identity: 1,
            mtime: 0,
        }],
    );

    let mut steps = 0;
    while let Some(path) = engine.next_path() {
        steps += 1;
        assert!(steps <= 3);
        let entries = match path.as_str() {
            "wide" => (0..10)
                .map(|i| dir_entry(&format!("d{}", i), 100 + i))
                .collect(),
            _ => vec![dir_entry("deeper", 200 + steps)],
        };
        engine.step(&registry, entries, true);
    }
    assert_eq!(steps, 3);
    assert!(!engine.has_work());
}

#[test]
fn scan_skips_excluded_and_revisited() {
    let registry = PluginRegistry::with_builtins();
    let config = ScanConfig::default();
    let mut engine = ScanEngine::new(
        config,
        vec![RootSeed {
            path: "r".to_string(),
            identity: 1,
            mtime: 0,
        }],
    );
    while let Some(path) = engine.next_path() {
        let entries = match path.as_str() {
            "r" => vec![
                dir_entry(".git", 2),
                dir_entry("a", 3),
                // Same identity as "a": must not be classified twice.
                dir_entry("b", 3),
            ],
            "r/a" | "r/b" => vec![],
            other => panic!("unexpected probe of {}", other),
        };
        engine.step(&registry, entries, true);
    }
    let result = engine.finish();
    assert_eq!(result.projects.len(), 0);
    // The root and exactly one of the two same-identity children.
    assert_eq!(result.directories_scanned, 2);
}

#[test]
fn empty_projects_are_filtered_unless_asked() {
    let registry = PluginRegistry::with_builtins();
    let drive = |include_empty: bool| {
        let mut config = ScanConfig::default();
        config.include_empty = include_empty;
        let mut engine = ScanEngine::new(
            config,
            vec![RootSeed {
                path: "repo".to_string(),
                identity: 1,
                mtime: 0,
            }],
        );
        while let Some(path) = engine.next_path() {
            let entries = match path.as_str() {
                // A Rust project root with no build output yet.
                "repo" => vec![file_entry("Cargo.toml")],
                other => panic!("unexpected probe of {}", other),
            };
            engine.step(&registry, entries, true);
        }
        engine.finish()
    };

    let filtered = drive(false);
    assert!(filtered.projects.is_empty());

    let unfiltered = drive(true);
    assert_eq!(unfiltered.projects.len(), 1);
    assert_eq!(unfiltered.projects[0].total_size, 0);
    assert!(unfiltered.projects[0].artifacts.is_empty());
}

#[test]
fn run_scan_rejects_bad_configs() {
    let registry = PluginRegistry::with_builtins();
    let empty = ScanConfig::default();
    assert!(matches!(run_scan(&registry, &empty), Err(ScanError::NoRoots)));

    let mut missing = ScanConfig::default();
    missing
        .roots
        .push("surely_this_directory_is_not_here_xyz".to_string());
    match run_scan(&registry, &missing) {
        Err(ScanError::RootUnreadable(p)) => {
            assert_eq!(p, "surely_this_directory_is_not_here_xyz");
        }
        other => panic!("expected an unreadable-root error, got {:?}", other),
    }

    // This path exists on the platform the suite runs on, but is no
    // directory.
    let mut not_dir = ScanConfig::default();
    not_dir.roots.push("/proc/self/status".to_string());
    match run_scan(&registry, &not_dir) {
        Err(ScanError::RootNotDirectory(p)) => assert_eq!(p, "/proc/self/status"),
        other => panic!("expected a not-a-directory error, got {:?}", other),
    }

    let scanner = ParallelScanner::new(PluginRegistry::with_builtins());
    assert!(matches!(
        scanner.scan(&ScanConfig::default()),
        Err(ScanError::NoRoots)
    ));
}

/// Scenario: probing git status where the query found no repository
/// yields the default status, never an error.
#[test]
fn git_probe_failure_yields_default() {
    let st = status_from_probe(GitProbe {
        porcelain: None,
        branch: Some("main".to_string()),
        remote: None,
        last_commit: Some(5),
        stash_count: 2,
    });
    assert!(!st.is_repo);
    assert!(!st.has_uncommitted);
    assert!(!st.has_untracked);
    assert!(!st.has_stashed);
    assert!(st.branch.is_none());
    assert!(st.last_commit.is_none());
    assert!(st.dirty_paths.is_empty());
}

#[test]
fn git_porcelain_parsing() {
    let st = status_from_probe(GitProbe {
        porcelain: Some(" M src/main.rs\n?? new.txt\nA  added.rs\n".to_string()),
        branch: Some("main".to_string()),
        remote: Some("origin".to_string()),
        last_commit: Some(123),
        stash_count: 1,
    });
    assert!(st.is_repo);
    assert!(st.has_uncommitted);
    assert!(st.has_untracked);
    assert!(st.has_stashed);
    assert_eq!(st.branch.as_deref(), Some("main"));
    assert_eq!(
        st.dirty_paths,
        vec!["src/main.rs".to_string(), "added.rs".to_string()]
    );
}

#[test]
fn git_clean_porcelain() {
    let st = status_from_probe(GitProbe {
        porcelain: Some("".to_string()),
        branch: None,
        remote: None,
        last_commit: None,
        stash_count: 0,
    });
    assert!(st.is_repo);
    assert!(!st.has_uncommitted);
    assert!(!st.has_untracked);
    assert!(st.is_clean());
}

#[test]
fn git_dirty_paths_are_capped() {
    let mut porcelain = String::new();
    for i in 0..30 {
        porcelain.push_str(&format!(" M file{}.rs\n", i));
    }
    let st = status_from_probe(GitProbe {
        porcelain: Some(porcelain),
        branch: None,
        remote: None,
        last_commit: None,
        stash_count: 0,
    });
    assert!(st.has_uncommitted);
    assert_eq!(st.dirty_paths.len(), 20);
}
