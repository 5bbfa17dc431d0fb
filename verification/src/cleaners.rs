//! Global cache detectors: well-known cleanable locations outside any
//! single project.
//!
//! Each detector probes a fixed set of candidate paths, measures what it
//! finds with the bounded directory walk, and reports an item only above
//! its size threshold.  What stands in each returned item — threshold,
//! category, safety level — is verified; what the disk holds is not.

use vstd::prelude::*;

use crate::paths::join_under;
use crate::probe::{probe_dir, probe_path, FsEntry};
use crate::scanner::{contains_u64, sat_add, tally_listing};
use crate::text::{contains_ci, fmt_u64, has_suffix_ci};
use vstd::string::StringExecFns;

verus! {

/// How safe deleting an item is.
#[derive(Debug, Clone, Copy, PartialEq, Eq, Structural)]
pub enum SafetyLevel {
    /// Nothing is lost.
    Safe,
    /// Safe, but something will be rebuilt or re-downloaded.
    SafeWithCost,
    /// May hold data in use; the user should look first.
    Caution,
}

/// Any disk-space-occupying entity eligible for deletion.
#[derive(Debug, Clone)]
pub struct CleanableItem {
    /// Display name.
    pub name: String,
    /// Top-level grouping.
    pub category: String,
    /// Finer grouping inside the category.
    pub subcategory: String,
    /// Display icon.
    pub icon: &'static str,
    /// Where it lives.
    pub path: String,
    /// Measured size in bytes.
    pub size: u64,
    /// How many files were counted, where known.
    pub file_count: Option<u64>,
    /// Last-modified time in seconds since the epoch, where known.
    pub last_modified: Option<u64>,
    /// What deleting it costs.
    pub description: &'static str,
    /// How safe deleting it is.
    pub safe_to_delete: SafetyLevel,
    /// A tool-native cleanup command, where one exists; executed only by
    /// the caller, never by the library.
    pub clean_command: Option<String>,
}

/// Budget of directory visits for one measurement.
pub const MEASURE_BUDGET: u64 = 100000;

/// Measure a directory tree: total file bytes, file count, and whether
/// everything was read.  Each listing is folded in by `tally_listing`;
/// the walk never follows symlinked directories, tracks visited
/// identities so one directory is never counted twice, and visits at
/// most `budget` directories, so it terminates on any filesystem.  What
/// the totals are depends on the disk; with no budget nothing is
/// measured and the result is marked incomplete.
pub fn measure_dir(path: &str, budget: u64) -> (r: (u64, u64, bool))
    ensures
        budget == 0 ==> r == (0u64, 0u64, false),
{
    let mut queue: Vec<String> = Vec::new();
    queue.push(path.to_owned());
    let mut visited: Vec<u64> = Vec::new();
    let mut size: u64 = 0;
    let mut files: u64 = 0;
    let mut complete = true;
    let mut steps = budget;
    while queue.len() > 0 && steps > 0
        invariant
            steps == budget ==> size == 0 && files == 0 && complete && queue@.len() == 1,
            steps <= budget,
        decreases steps,
    {
        steps = steps - 1;
        let p = match queue.pop() {
            Some(p) => p,
            None => {
                proof {
                    assert(false);
                }
                return (0, 0, false);
            },
        };
        let probed = probe_dir(p.as_str());
        if !probed.1 {
            complete = false;
        }
        let entries = probed.0;
        let tallied = tally_listing(size, files, &entries);
        size = tallied.0;
        files = tallied.1;
        let n = entries.len();
        let mut i: usize = 0;
        while i < n
            invariant
                i <= n,
                n == entries@.len(),
            decreases n - i,
        {
            if entries[i].is_dir && !entries[i].is_symlink {
                if !contains_u64(&visited, entries[i].identity) {
                    visited.push(entries[i].identity);
                    queue.push(join_under(p.as_str(), entries[i].name.as_str()));
                }
            }
            i = i + 1;
        }
    }
    if queue.len() > 0 {
        complete = false;
    }
    (size, files, complete)
}

/// An override where one was injected, else the suffix under home.
fn override_or(opt: &Option<String>, home: &str, suffix: &str) -> (r: String)
    ensures
        match opt {
            Some(o) => r@ == o@,
            None => r@ == home@ + "/"@ + suffix@,
        },
{
    match opt {
        Some(o) => o.clone(),
        None => join_under(home, suffix),
    }
}

/// Testing browsers cleaner: browser binaries kept only for test
/// runners.
#[derive(Debug)]
pub struct TestBrowsersCleaner {
    /// The home directory all candidate paths hang under.
    pub home: String,
}

impl TestBrowsersCleaner {
    /// Create a new test browsers cleaner over the platform's home
    /// directory, where one is reported.
    pub fn new() -> Option<Self> {
        match crate::probe::home_dir_path() {
            Some(home) => Some(TestBrowsersCleaner { home }),
            None => None,
        }
    }

    /// A cleaner over an explicit home directory.
    pub fn with_home(home: String) -> (r: Self)
        ensures
            r.home == home,
    {
        TestBrowsersCleaner { home }
    }

    /// Detect all cleanable items: every reported item is in the Testing
    /// category, at least 50 MB, and safe to delete at a rebuild cost.
    pub fn detect(&self) -> (r: Vec<CleanableItem>)
        ensures
            forall|i: int|
                0 <= i < r@.len() ==> (#[trigger] r@[i]).size >= 50000000 && r@[i].category@
                    == "Testing"@ && r@[i].safe_to_delete == SafetyLevel::SafeWithCost,
    {
        let mut items = self.detect_playwright();
        append_items(&mut items, self.detect_cypress());
        append_items(&mut items, self.detect_puppeteer());
        append_items(&mut items, self.detect_selenium());
        append_items(&mut items, self.detect_chrome_testing());
        items
    }

    /// Detect Playwright browsers: 50 MB or more per browser directory.
    #[verifier::loop_isolation(false)]
    pub fn detect_playwright(&self) -> (r: Vec<CleanableItem>)
        ensures
            forall|i: int|
                0 <= i < r@.len() ==> (#[trigger] r@[i]).size >= 50000000 && r@[i].category@
                    == "Testing"@ && r@[i].safe_to_delete == SafetyLevel::SafeWithCost,
    {
        let mut items: Vec<CleanableItem> = Vec::new();
        let mut ci: usize = 0;
        while ci < 4
            invariant
                ci <= 4,
                forall|i: int|
                    0 <= i < items@.len() ==> (#[trigger] items@[i]).size >= 50000000
                        && items@[i].category@ == "Testing"@ && items@[i].safe_to_delete
                        == SafetyLevel::SafeWithCost,
            decreases 4 - ci,
        {
            let base = if ci == 0 {
                join_under(self.home.as_str(), "Library/Caches/ms-playwright")
            } else if ci == 1 {
                join_under(self.home.as_str(), ".cache/ms-playwright")
            } else if ci == 2 {
                join_under(self.home.as_str(), "AppData/Local/ms-playwright")
            } else {
                join_under(self.home.as_str(), ".local/share/ms-playwright")
            };
            let probed = probe_dir(base.as_str());
            let entries = probed.0;
            let n = entries.len();
            let mut i: usize = 0;
            while i < n
                invariant
                    i <= n,
                    n == entries@.len(),
                    forall|j: int|
                        0 <= j < items@.len() ==> (#[trigger] items@[j]).size >= 50000000
                            && items@[j].category@ == "Testing"@ && items@[j].safe_to_delete
                            == SafetyLevel::SafeWithCost,
                decreases n - i,
            {
                if entries[i].is_dir {
                    let browser = if contains_ci(entries[i].name.as_str(), "chromium") {
                        Some(("Playwright Chromium", "[web]"))
                    } else if contains_ci(entries[i].name.as_str(), "firefox") {
                        Some(("Playwright Firefox", "[fox]"))
                    } else if contains_ci(entries[i].name.as_str(), "webkit") {
                        Some(("Playwright WebKit", "[wk]"))
                    } else {
                        None
                    };
                    match browser {
                        Some((bname, icon)) => {
                            let p = join_under(base.as_str(), entries[i].name.as_str());
                            let m = measure_dir(p.as_str(), MEASURE_BUDGET);
                            if m.0 >= 50000000 {
                                items.push(
                                    CleanableItem {
                                        name: bname.to_owned(),
                                        category: "Testing".to_owned(),
                                        subcategory: "Playwright".to_owned(),
                                        icon,
                                        path: p,
                                        size: m.0,
                                        file_count: Some(m.1),
                                        last_modified: Some(entries[i].mtime_secs),
                                        description: "Browser binary for Playwright testing. Will be re-downloaded.",
                                        safe_to_delete: SafetyLevel::SafeWithCost,
                                        clean_command: Some(
                                            "npx playwright install --clean".to_owned(),
                                        ),
                                    },
                                );
                            }
                        },
                        None => {},
                    }
                }
                i = i + 1;
            }
            ci = ci + 1;
        }
        items
    }

    /// Detect Cypress caches: 100 MB or more per cached version.
    #[verifier::loop_isolation(false)]
    pub fn detect_cypress(&self) -> (r: Vec<CleanableItem>)
        ensures
            forall|i: int|
                0 <= i < r@.len() ==> (#[trigger] r@[i]).size >= 100000000 && r@[i].category@
                    == "Testing"@ && r@[i].safe_to_delete == SafetyLevel::SafeWithCost,
    {
        let mut items: Vec<CleanableItem> = Vec::new();
        let mut ci: usize = 0;
        while ci < 3
            invariant
                ci <= 3,
                forall|i: int|
                    0 <= i < items@.len() ==> (#[trigger] items@[i]).size >= 100000000
                        && items@[i].category@ == "Testing"@ && items@[i].safe_to_delete
                        == SafetyLevel::SafeWithCost,
            decreases 3 - ci,
        {
            let base = if ci == 0 {
                join_under(self.home.as_str(), ".cache/Cypress")
            } else if ci == 1 {
                join_under(self.home.as_str(), "AppData/Local/Cypress/Cache")
            } else {
                join_under(self.home.as_str(), "Library/Caches/Cypress")
            };
            let probed = probe_dir(base.as_str());
            let entries = probed.0;
            let n = entries.len();
            let mut i: usize = 0;
            while i < n
                invariant
                    i <= n,
                    n == entries@.len(),
                    forall|j: int|
                        0 <= j < items@.len() ==> (#[trigger] items@[j]).size >= 100000000
                            && items@[j].category@ == "Testing"@ && items@[j].safe_to_delete
                            == SafetyLevel::SafeWithCost,
                decreases n - i,
            {
                if entries[i].is_dir {
                    let p = join_under(base.as_str(), entries[i].name.as_str());
                    let m = measure_dir(p.as_str(), MEASURE_BUDGET);
                    if m.0 >= 100000000 {
                        items.push(
                            CleanableItem {
                                name: "Cypress v".to_owned().concat(entries[i].name.as_str()),
                                category: "Testing".to_owned(),
                                subcategory: "Cypress".to_owned(),
                                icon: "[tree]",
                                path: p,
                                size: m.0,
                                file_count: Some(m.1),
                                last_modified: Some(entries[i].mtime_secs),
                                description: "Cypress test runner. Will be re-downloaded when needed.",
                                safe_to_delete: SafetyLevel::SafeWithCost,
                                clean_command: Some("npx cypress cache clear".to_owned()),
                            },
                        );
                    }
                }
                i = i + 1;
            }
            ci = ci + 1;
        }
        items
    }

    /// Detect Puppeteer browsers: 100 MB or more.
    pub fn detect_puppeteer(&self) -> (r: Vec<CleanableItem>)
        ensures
            forall|i: int|
                0 <= i < r@.len() ==> (#[trigger] r@[i]).size >= 100000000 && r@[i].category@
                    == "Testing"@ && r@[i].safe_to_delete == SafetyLevel::SafeWithCost,
    {
        let mut items: Vec<CleanableItem> = Vec::new();
        push_measured(
            &mut items,
            join_under(self.home.as_str(), ".cache/puppeteer"),
            100000000,
            ItemMeta {
                name: "Puppeteer Browsers",
                category: "Testing",
                subcategory: "Puppeteer",
                icon: "[mask]",
                description: "Puppeteer Chrome/Chromium binary. Will be re-downloaded.",
                safe_to_delete: SafetyLevel::SafeWithCost,
                clean_command: None,
            },
        );
        push_measured(
            &mut items,
            join_under(self.home.as_str(), "AppData/Local/puppeteer"),
            100000000,
            ItemMeta {
                name: "Puppeteer Browsers",
                category: "Testing",
                subcategory: "Puppeteer",
                icon: "[mask]",
                description: "Puppeteer Chrome/Chromium binary. Will be re-downloaded.",
                safe_to_delete: SafetyLevel::SafeWithCost,
                clean_command: None,
            },
        );
        push_measured(
            &mut items,
            join_under(self.home.as_str(), "Library/Caches/puppeteer"),
            100000000,
            ItemMeta {
                name: "Puppeteer Browsers",
                category: "Testing",
                subcategory: "Puppeteer",
                icon: "[mask]",
                description: "Puppeteer Chrome/Chromium binary. Will be re-downloaded.",
                safe_to_delete: SafetyLevel::SafeWithCost,
                clean_command: None,
            },
        );
        items
    }

    /// Detect Selenium driver caches: 50 MB or more.
    pub fn detect_selenium(&self) -> (r: Vec<CleanableItem>)
        ensures
            forall|i: int|
                0 <= i < r@.len() ==> (#[trigger] r@[i]).size >= 50000000 && r@[i].category@
                    == "Testing"@ && r@[i].safe_to_delete == SafetyLevel::SafeWithCost,
    {
        let mut items: Vec<CleanableItem> = Vec::new();
        push_measured(
            &mut items,
            join_under(self.home.as_str(), ".cache/selenium"),
            50000000,
            ItemMeta {
                name: "Selenium WebDriver",
                category: "Testing",
                subcategory: "Selenium",
                icon: "[tool]",
                description: "Selenium browser drivers. Will be re-downloaded.",
                safe_to_delete: SafetyLevel::SafeWithCost,
                clean_command: None,
            },
        );
        push_measured(
            &mut items,
            join_under(self.home.as_str(), ".wdm"),
            50000000,
            ItemMeta {
                name: "Selenium WebDriver",
                category: "Testing",
                subcategory: "Selenium",
                icon: "[tool]",
                description: "Selenium browser drivers. Will be re-downloaded.",
                safe_to_delete: SafetyLevel::SafeWithCost,
                clean_command: None,
            },
        );
        push_measured(
            &mut items,
            join_under(self.home.as_str(), "AppData/Local/selenium"),
            50000000,
            ItemMeta {
                name: "Selenium WebDriver",
                category: "Testing",
                subcategory: "Selenium",
                icon: "[tool]",
                description: "Selenium browser drivers. Will be re-downloaded.",
                safe_to_delete: SafetyLevel::SafeWithCost,
                clean_command: None,
            },
        );
        items
    }

    /// Detect Chrome for Testing binaries: 100 MB or more.
    pub fn detect_chrome_testing(&self) -> (r: Vec<CleanableItem>)
        ensures
            forall|i: int|
                0 <= i < r@.len() ==> (#[trigger] r@[i]).size >= 100000000 && r@[i].category@
                    == "Testing"@ && r@[i].safe_to_delete == SafetyLevel::SafeWithCost,
    {
        let mut items: Vec<CleanableItem> = Vec::new();
        push_measured(
            &mut items,
            join_under(self.home.as_str(), ".cache/chrome-for-testing"),
            100000000,
            ItemMeta {
                name: "Chrome for Testing",
                category: "Testing",
                subcategory: "Chrome",
                icon: "[web]",
                description: "Chrome for Testing binaries. Will be re-downloaded.",
                safe_to_delete: SafetyLevel::SafeWithCost,
                clean_command: None,
            },
        );
        push_measured(
            &mut items,
            join_under(self.home.as_str(), "AppData/Local/chrome-for-testing"),
            100000000,
            ItemMeta {
                name: "Chrome for Testing",
                category: "Testing",
                subcategory: "Chrome",
                icon: "[web]",
                description: "Chrome for Testing binaries. Will be re-downloaded.",
                safe_to_delete: SafetyLevel::SafeWithCost,
                clean_command: None,
            },
        );
        items
    }
}

/// Miscellaneous development tools cleaner: Vagrant, Git LFS, Go, Ruby,
/// NuGet, Composer, Coursier, Gradle, Maven and SBT caches.
#[derive(Debug)]
pub struct MiscCleaner {
    /// The home directory candidate paths hang under.
    pub home: String,
    /// Injected Vagrant home, in place of the default under home.
    pub vagrant_home: Option<String>,
    /// Injected Go path, in place of the default under home.
    pub gopath: Option<String>,
    /// Injected Go build cache, in place of the default under home.
    pub gocache: Option<String>,
    /// Injected Gradle home, in place of the default under home.
    pub gradle_home: Option<String>,
}

impl MiscCleaner {
    /// Create a new misc cleaner over the platform's home directory,
    /// where one is reported.
    pub fn new() -> Option<Self> {
        match crate::probe::home_dir_path() {
            Some(home) => Some(MiscCleaner::with_home(home)),
            None => None,
        }
    }

    /// A cleaner over an explicit home directory.
    pub fn with_home(home: String) -> (r: Self)
        ensures
            r.home == home,
            r.vagrant_home is None,
            r.gopath is None,
            r.gocache is None,
            r.gradle_home is None,
    {
        MiscCleaner {
            home,
            vagrant_home: None,
            gopath: None,
            gocache: None,
            gradle_home: None,
        }
    }

    /// Detect all cleanable items: every reported item is at least
    /// 50 MB.
    pub fn detect(&self) -> (r: Vec<CleanableItem>)
        ensures
            forall|i: int| 0 <= i < r@.len() ==> (#[trigger] r@[i]).size >= 50000000,
    {
        let mut items = self.detect_vagrant();
        append_items(&mut items, self.detect_git_lfs());
        append_items(&mut items, self.detect_go());
        append_items(&mut items, self.detect_ruby());
        append_items(&mut items, self.detect_nuget());
        append_items(&mut items, self.detect_composer());
        append_items(&mut items, self.detect_coursier());
        append_items(&mut items, self.detect_gradle());
        append_items(&mut items, self.detect_maven());
        append_items(&mut items, self.detect_sbt());
        items
    }

    /// Detect Vagrant boxes (100 MB or more each) and temp files (50 MB
    /// or more).
    #[verifier::loop_isolation(false)]
    pub fn detect_vagrant(&self) -> (r: Vec<CleanableItem>)
        ensures
            forall|i: int|
                0 <= i < r@.len() ==> (#[trigger] r@[i]).size >= 50000000 && r@[i].category@
                    == "Vagrant"@,
    {
        let mut items: Vec<CleanableItem> = Vec::new();
        let vh = override_or(&self.vagrant_home, self.home.as_str(), ".vagrant.d");
        let boxes = join_under(vh.as_str(), "boxes");
        let probed = probe_dir(boxes.as_str());
        let entries = probed.0;
        let n = entries.len();
        let mut i: usize = 0;
        while i < n
            invariant
                i <= n,
                n == entries@.len(),
                forall|j: int|
                    0 <= j < items@.len() ==> (#[trigger] items@[j]).size >= 50000000
                        && items@[j].category@ == "Vagrant"@,
            decreases n - i,
        {
            if entries[i].is_dir {
                let p = join_under(boxes.as_str(), entries[i].name.as_str());
                let m = measure_dir(p.as_str(), MEASURE_BUDGET);
                if m.0 >= 100000000 {
                    items.push(
                        CleanableItem {
                            name: "Vagrant Box: ".to_owned().concat(entries[i].name.as_str()),
                            category: "Vagrant".to_owned(),
                            subcategory: "Boxes".to_owned(),
                            icon: "[box]",
                            path: p,
                            size: m.0,
                            file_count: Some(m.1),
                            last_modified: Some(entries[i].mtime_secs),
                            description: "Vagrant base box. Can be re-downloaded if needed.",
                            safe_to_delete: SafetyLevel::SafeWithCost,
                            clean_command: Some(
                                "vagrant box remove ".to_owned().concat(entries[i].name.as_str()),
                            ),
                        },
                    );
                }
            }
            i = i + 1;
        }
        push_measured(
            &mut items,
            join_under(vh.as_str(), "tmp"),
            50000000,
            ItemMeta {
                name: "Vagrant Temp Files",
                category: "Vagrant",
                subcategory: "Cache",
                icon: "[box]",
                description: "Temporary Vagrant files. Safe to delete.",
                safe_to_delete: SafetyLevel::Safe,
                clean_command: None,
            },
        );
        items
    }

    /// Detect the Git LFS cache: 100 MB or more.
    pub fn detect_git_lfs(&self) -> (r: Vec<CleanableItem>)
        ensures
            forall|i: int|
                0 <= i < r@.len() ==> (#[trigger] r@[i]).size >= 100000000 && r@[i].category@
                    == "Git"@,
    {
        let mut items: Vec<CleanableItem> = Vec::new();
        push_measured(
            &mut items,
            join_under(self.home.as_str(), ".git-lfs"),
            100000000,
            ItemMeta {
                name: "Git LFS Cache",
                category: "Git",
                subcategory: "LFS",
                icon: "[dir]",
                description: "Git Large File Storage cache. Will be re-downloaded when needed.",
                safe_to_delete: SafetyLevel::SafeWithCost,
                clean_command: Some("git lfs prune"),
            },
        );
        push_measured(
            &mut items,
            join_under(self.home.as_str(), "AppData/Local/git-lfs"),
            100000000,
            ItemMeta {
                name: "Git LFS Cache",
                category: "Git",
                subcategory: "LFS",
                icon: "[dir]",
                description: "Git Large File Storage cache. Will be re-downloaded when needed.",
                safe_to_delete: SafetyLevel::SafeWithCost,
                clean_command: Some("git lfs prune"),
            },
        );
        items
    }

    /// Detect the Go module cache (100 MB or more) and build cache
    /// (500 MB or more).
    pub fn detect_go(&self) -> (r: Vec<CleanableItem>)
        ensures
            forall|i: int|
                0 <= i < r@.len() ==> (#[trigger] r@[i]).size >= 100000000 && r@[i].category@
                    == "Go"@,
    {
        let mut items: Vec<CleanableItem> = Vec::new();
        let gopath = override_or(&self.gopath, self.home.as_str(), "go");
        push_measured(
            &mut items,
            join_under(gopath.as_str(), "pkg/mod/cache"),
            100000000,
            ItemMeta {
                name: "Go Module Cache",
                category: "Go",
                subcategory: "Modules",
                icon: "[go]",
                description: "Downloaded Go modules. Will be re-downloaded when needed.",
                safe_to_delete: SafetyLevel::SafeWithCost,
                clean_command: Some("go clean -modcache"),
            },
        );
        let gocache = override_or(&self.gocache, self.home.as_str(), ".cache/go-build");
        push_measured(
            &mut items,
            gocache,
            500000000,
            ItemMeta {
                name: "Go Build Cache",
                category: "Go",
                subcategory: "Build",
                icon: "[go]",
                description: "Go build cache. Will slow down first build after deletion.",
                safe_to_delete: SafetyLevel::SafeWithCost,
                clean_command: Some("go clean -cache"),
            },
        );
        items
    }

    /// Detect Ruby gems (100 MB or more), the Bundler cache (50 MB or
    /// more), and rbenv-installed versions (100 MB or more each).
    #[verifier::loop_isolation(false)]
    pub fn detect_ruby(&self) -> (r: Vec<CleanableItem>)
        ensures
            forall|i: int|
                0 <= i < r@.len() ==> (#[trigger] r@[i]).size >= 50000000 && r@[i].category@
                    == "Ruby"@,
    {
        let mut items: Vec<CleanableItem> = Vec::new();
        let mut ci: usize = 0;
        while ci < 3
            invariant
                ci <= 3,
                forall|j: int|
                    0 <= j < items@.len() ==> (#[trigger] items@[j]).size >= 50000000
                        && items@[j].category@ == "Ruby"@,
            decreases 3 - ci,
        {
            let p = if ci == 0 {
                join_under(self.home.as_str(), ".gem")
            } else if ci == 1 {
                join_under(self.home.as_str(), ".local/share/gem")
            } else {
                join_under(self.home.as_str(), "AppData/Local/gem")
            };
            push_measured(
                &mut items,
                p,
                100000000,
                ItemMeta {
                    name: "Ruby Gems",
                    category: "Ruby",
                    subcategory: "Gems",
                    icon: "[gem]",
                    description: "Installed Ruby gems. Will be reinstalled when needed.",
                    safe_to_delete: SafetyLevel::SafeWithCost,
                    clean_command: Some("gem cleanup"),
                },
            );
            ci = ci + 1;
        }
        push_measured(
            &mut items,
            join_under(self.home.as_str(), ".bundle/cache"),
            50000000,
            ItemMeta {
                name: "Bundler Cache",
                category: "Ruby",
                subcategory: "Bundler",
                icon: "[gem]",
                description: "Bundler download cache. Safe to delete.",
                safe_to_delete: SafetyLevel::Safe,
                clean_command: Some("bundle clean --force"),
            },
        );
        let rbenv = join_under(self.home.as_str(), ".rbenv/versions");
        let probed = probe_dir(rbenv.as_str());
        let entries = probed.0;
        let n = entries.len();
        let mut i: usize = 0;
        while i < n
            invariant
                i <= n,
                n == entries@.len(),
                forall|j: int|
                    0 <= j < items@.len() ==> (#[trigger] items@[j]).size >= 50000000
                        && items@[j].category@ == "Ruby"@,
            decreases n - i,
        {
            if entries[i].is_dir {
                let p = join_under(rbenv.as_str(), entries[i].name.as_str());
                let m = measure_dir(p.as_str(), MEASURE_BUDGET);
                if m.0 >= 100000000 {
                    items.push(
                        CleanableItem {
                            name: "Ruby ".to_owned().concat(entries[i].name.as_str()),
                            category: "Ruby".to_owned(),
                            subcategory: "rbenv".to_owned(),
                            icon: "[gem]",
                            path: p,
                            size: m.0,
                            file_count: Some(m.1),
                            last_modified: Some(entries[i].mtime_secs),
                            description: "Installed Ruby version via rbenv.",
                            safe_to_delete: SafetyLevel::Caution,
                            clean_command: Some(
                                "rbenv uninstall ".to_owned().concat(entries[i].name.as_str()),
                            ),
                        },
                    );
                }
            }
            i = i + 1;
        }
        items
    }

    /// Detect NuGet package and .NET workload caches: 500 MB or more.
    pub fn detect_nuget(&self) -> (r: Vec<CleanableItem>)
        ensures
            forall|i: int|
                0 <= i < r@.len() ==> (#[trigger] r@[i]).size >= 500000000 && r@[i].category@
                    == ".NET"@,
    {
        let mut items: Vec<CleanableItem> = Vec::new();
        push_measured(
            &mut items,
            join_under(self.home.as_str(), ".nuget/packages"),
            500000000,
            ItemMeta {
                name: "NuGet Global Packages",
                category: ".NET",
                subcategory: "NuGet",
                icon: "[net]",
                description: "NuGet package cache. Will be re-downloaded when needed.",
                safe_to_delete: SafetyLevel::SafeWithCost,
                clean_command: Some("dotnet nuget locals all --clear"),
            },
        );
        push_measured(
            &mut items,
            join_under(self.home.as_str(), "AppData/Local/NuGet/Cache"),
            500000000,
            ItemMeta {
                name: "NuGet Global Packages",
                category: ".NET",
                subcategory: "NuGet",
                icon: "[net]",
                description: "NuGet package cache. Will be re-downloaded when needed.",
                safe_to_delete: SafetyLevel::SafeWithCost,
                clean_command: Some("dotnet nuget locals all --clear"),
            },
        );
        push_measured(
            &mut items,
            "/usr/local/share/dotnet/metadata".to_owned(),
            500000000,
            ItemMeta {
                name: ".NET Workloads/SDK",
                category: ".NET",
                subcategory: "SDK",
                icon: "[net]",
                description: ".NET SDK workloads. May affect installed SDKs.",
                safe_to_delete: SafetyLevel::Caution,
                clean_command: None,
            },
        );
        push_measured(
            &mut items,
            join_under(self.home.as_str(), "AppData/Local/Microsoft/dotnet"),
            500000000,
            ItemMeta {
                name: ".NET Workloads/SDK",
                category: ".NET",
                subcategory: "SDK",
                icon: "[net]",
                description: ".NET SDK workloads. May affect installed SDKs.",
                safe_to_delete: SafetyLevel::Caution,
                clean_command: None,
            },
        );
        items
    }

    /// Detect the Composer cache: 100 MB or more.
    #[verifier::loop_isolation(false)]
    pub fn detect_composer(&self) -> (r: Vec<CleanableItem>)
        ensures
            forall|i: int|
                0 <= i < r@.len() ==> (#[trigger] r@[i]).size >= 100000000 && r@[i].category@
                    == "PHP"@,
    {
        let mut items: Vec<CleanableItem> = Vec::new();
        let mut ci: usize = 0;
        while ci < 3
            invariant
                ci <= 3,
                forall|j: int|
                    0 <= j < items@.len() ==> (#[trigger] items@[j]).size >= 100000000
                        && items@[j].category@ == "PHP"@,
            decreases 3 - ci,
        {
            let p = if ci == 0 {
                join_under(self.home.as_str(), ".composer/cache")
            } else if ci == 1 {
                join_under(self.home.as_str(), ".cache/composer")
            } else {
                join_under(self.home.as_str(), "AppData/Local/Composer/cache")
            };
            push_measured(
                &mut items,
                p,
                100000000,
                ItemMeta {
                    name: "Composer Cache",
                    category: "PHP",
                    subcategory: "Composer",
                    icon: "[php]",
                    description: "PHP Composer package cache. Will be re-downloaded when needed.",
                    safe_to_delete: SafetyLevel::Safe,
                    clean_command: Some("composer clear-cache"),
                },
            );
            ci = ci + 1;
        }
        items
    }

    /// Detect the Coursier cache: 500 MB or more.
    #[verifier::loop_isolation(false)]
    pub fn detect_coursier(&self) -> (r: Vec<CleanableItem>)
        ensures
            forall|i: int|
                0 <= i < r@.len() ==> (#[trigger] r@[i]).size >= 500000000 && r@[i].category@
                    == "Scala"@,
    {
        let mut items: Vec<CleanableItem> = Vec::new();
        let mut ci: usize = 0;
        while ci < 3
            invariant
                ci <= 3,
                forall|j: int|
                    0 <= j < items@.len() ==> (#[trigger] items@[j]).size >= 500000000
                        && items@[j].category@ == "Scala"@,
            decreases 3 - ci,
        {
            let p = if ci == 0 {
                join_under(self.home.as_str(), ".cache/coursier")
            } else if ci == 1 {
                join_under(self.home.as_str(), "Library/Caches/Coursier")
            } else {
                join_under(self.home.as_str(), "AppData/Local/Coursier/Cache")
            };
            push_measured(
                &mut items,
                p,
                500000000,
                ItemMeta {
                    name: "Coursier Cache",
                    category: "Scala",
                    subcategory: "Coursier",
                    icon: "[zap]",
                    description: "Scala dependency cache. Will be re-downloaded when needed.",
                    safe_to_delete: SafetyLevel::SafeWithCost,
                    clean_command: None,
                },
            );
            ci = ci + 1;
        }
        items
    }

    /// Detect the Gradle dependency cache (1 GB or more), wrapper
    /// distributions (500 MB or more) and daemon files (100 MB or more).
    pub fn detect_gradle(&self) -> (r: Vec<CleanableItem>)
        ensures
            forall|i: int|
                0 <= i < r@.len() ==> (#[trigger] r@[i]).size >= 100000000 && r@[i].category@
                    == "Java/Kotlin"@,
    {
        let mut items: Vec<CleanableItem> = Vec::new();
        let gh = override_or(&self.gradle_home, self.home.as_str(), ".gradle");
        push_measured(
            &mut items,
            join_under(gh.as_str(), "caches"),
            1000000000,
            ItemMeta {
                name: "Gradle Cache",
                category: "Java/Kotlin",
                subcategory: "Gradle",
                icon: "[jvm]",
                description: "Gradle dependency cache. Will be re-downloaded when needed.",
                safe_to_delete: SafetyLevel::SafeWithCost,
                clean_command: Some("gradle --stop && rm -rf ~/.gradle/caches"),
            },
        );
        push_measured(
            &mut items,
            join_under(gh.as_str(), "wrapper/dists"),
            500000000,
            ItemMeta {
                name: "Gradle Wrapper Distributions",
                category: "Java/Kotlin",
                subcategory: "Gradle",
                icon: "[jvm]",
                description: "Downloaded Gradle distributions. Will be re-downloaded when needed.",
                safe_to_delete: SafetyLevel::SafeWithCost,
                clean_command: None,
            },
        );
        push_measured(
            &mut items,
            join_under(gh.as_str(), "daemon"),
            100000000,
            ItemMeta {
                name: "Gradle Daemon Files",
                category: "Java/Kotlin",
                subcategory: "Gradle",
                icon: "[jvm]",
                description: "Gradle daemon logs and state. Safe to delete.",
                safe_to_delete: SafetyLevel::Safe,
                clean_command: Some("gradle --stop"),
            },
        );
        items
    }

    /// Detect the Maven local repository: 1 GB or more.
    pub fn detect_maven(&self) -> (r: Vec<CleanableItem>)
        ensures
            forall|i: int|
                0 <= i < r@.len() ==> (#[trigger] r@[i]).size >= 1000000000 && r@[i].category@
                    == "Java/Kotlin"@,
    {
        let mut items: Vec<CleanableItem> = Vec::new();
        push_measured(
            &mut items,
            join_under(self.home.as_str(), ".m2/repository"),
            1000000000,
            ItemMeta {
                name: "Maven Repository",
                category: "Java/Kotlin",
                subcategory: "Maven",
                icon: "[jvm]",
                description: "Maven local repository. Dependencies will be re-downloaded.",
                safe_to_delete: SafetyLevel::SafeWithCost,
                clean_command: Some("mvn dependency:purge-local-repository"),
            },
        );
        items
    }

    /// Detect the SBT and Ivy caches: 500 MB or more.
    pub fn detect_sbt(&self) -> (r: Vec<CleanableItem>)
        ensures
            forall|i: int|
                0 <= i < r@.len() ==> (#[trigger] r@[i]).size >= 500000000 && r@[i].category@
                    == "Scala"@,
    {
        let mut items: Vec<CleanableItem> = Vec::new();
        push_measured(
            &mut items,
            join_under(self.home.as_str(), ".sbt"),
            500000000,
            ItemMeta {
                name: "SBT Cache",
                category: "Scala",
                subcategory: "SBT",
                icon: "[zap]",
                description: "SBT cache and plugins. Will slow down first build after deletion.",
                safe_to_delete: SafetyLevel::SafeWithCost,
                clean_command: None,
            },
        );
        push_measured(
            &mut items,
            join_under(self.home.as_str(), ".ivy2/cache"),
            500000000,
            ItemMeta {
                name: "Ivy Cache",
                category: "Scala",
                subcategory: "Ivy",
                icon: "[zap]",
                description: "Ivy dependency cache (used by SBT). Will be re-downloaded.",
                safe_to_delete: SafetyLevel::SafeWithCost,
                clean_command: None,
            },
        );
        items
    }
}

/// A name that looks like a downloaded archive or installer.
pub open spec fn spec_is_archive_name(n: Seq<char>) -> bool {
    ||| crate::text::spec_has_suffix_ci(n, ".zip"@)
    ||| crate::text::spec_has_suffix_ci(n, ".tar"@)
    ||| crate::text::spec_has_suffix_ci(n, ".tgz"@)
    ||| crate::text::spec_has_suffix_ci(n, ".tar.gz"@)
    ||| crate::text::spec_has_suffix_ci(n, ".tar.bz2"@)
    ||| crate::text::spec_has_suffix_ci(n, ".tar.xz"@)
    ||| crate::text::spec_has_suffix_ci(n, ".7z"@)
    ||| crate::text::spec_has_suffix_ci(n, ".rar"@)
    ||| crate::text::spec_has_suffix_ci(n, ".dmg"@)
    ||| crate::text::spec_has_suffix_ci(n, ".iso"@)
    ||| crate::text::spec_has_suffix_ci(n, ".pkg"@)
    ||| crate::text::spec_has_suffix_ci(n, ".deb"@)
    ||| crate::text::spec_has_suffix_ci(n, ".rpm"@)
    ||| crate::text::spec_has_suffix_ci(n, ".msi"@)
    ||| crate::text::spec_has_suffix_ci(n, ".exe"@)
}

/// Whether a file name looks like a downloaded archive or installer.
pub fn is_archive_name(name: &str) -> (r: bool)
    ensures
        r == spec_is_archive_name(name@),
{
    has_suffix_ci(name, ".zip") || has_suffix_ci(name, ".tar") || has_suffix_ci(name, ".tgz")
        || has_suffix_ci(name, ".tar.gz") || has_suffix_ci(name, ".tar.bz2") || has_suffix_ci(
        name,
        ".tar.xz",
    ) || has_suffix_ci(name, ".7z") || has_suffix_ci(name, ".rar") || has_suffix_ci(name, ".dmg")
        || has_suffix_ci(name, ".iso") || has_suffix_ci(name, ".pkg") || has_suffix_ci(
        name,
        ".deb",
    ) || has_suffix_ci(name, ".rpm") || has_suffix_ci(name, ".msi") || has_suffix_ci(name, ".exe")
}

/// Age in seconds past which a downloaded archive counts as old.
pub const OLD_DOWNLOAD_SECS: u64 = 2592000;

/// System-level cleaner: trash, old downloads, temp files and system
/// caches.
#[derive(Debug)]
pub struct SystemCleaner {
    /// The home directory candidate paths hang under.
    pub home: String,
    /// Injected downloads directory, in place of the default under home.
    pub downloads_dir: Option<String>,
}

impl SystemCleaner {
    /// Create a new system cleaner over the platform's home directory,
    /// where one is reported.
    pub fn new() -> Option<Self> {
        match crate::probe::home_dir_path() {
            Some(home) => Some(SystemCleaner::with_home(home)),
            None => None,
        }
    }

    /// A cleaner over an explicit home directory.
    pub fn with_home(home: String) -> (r: Self)
        ensures
            r.home == home,
            r.downloads_dir is None,
    {
        SystemCleaner { home, downloads_dir: None }
    }

    /// Detect all cleanable items: every reported item is in the System
    /// category and at least 1 MB.
    pub fn detect(&self) -> (r: Vec<CleanableItem>)
        ensures
            forall|i: int|
                0 <= i < r@.len() ==> (#[trigger] r@[i]).size >= 1000000 && r@[i].category@
                    == "System"@,
    {
        let now_secs = crate::probe::now_millis() / 1000;
        let mut items = self.detect_trash();
        append_items(&mut items, self.detect_downloads(now_secs));
        append_items(&mut items, self.detect_temp());
        append_items(&mut items, self.detect_system_caches());
        items
    }

    /// Detect trash contents: 1 MB or more.
    pub fn detect_trash(&self) -> (r: Vec<CleanableItem>)
        ensures
            forall|i: int|
                0 <= i < r@.len() ==> (#[trigger] r@[i]).size >= 1000000 && r@[i].category@
                    == "System"@,
    {
        let mut items: Vec<CleanableItem> = Vec::new();
        push_measured(
            &mut items,
            join_under(self.home.as_str(), ".local/share/Trash/files"),
            1000000,
            ItemMeta {
                name: "Trash",
                category: "System",
                subcategory: "Trash",
                icon: "[bin]",
                description: "Files in trash. Permanently deleted when cleaned.",
                safe_to_delete: SafetyLevel::Caution,
                clean_command: Some("trash-empty"),
            },
        );
        push_measured(
            &mut items,
            join_under(self.home.as_str(), ".Trash"),
            1000000,
            ItemMeta {
                name: "Trash",
                category: "System",
                subcategory: "Trash",
                icon: "[bin]",
                description: "Files in trash. Permanently deleted when cleaned.",
                safe_to_delete: SafetyLevel::Caution,
                clean_command: Some("trash-empty"),
            },
        );
        items
    }

    /// Detect archives in the downloads directory older than thirty
    /// days, judged at `now_secs`; reported only when 100 MB or more of
    /// them have piled up.
    #[verifier::loop_isolation(false)]
    pub fn detect_downloads(&self, now_secs: u64) -> (r: Vec<CleanableItem>)
        ensures
            forall|i: int|
                0 <= i < r@.len() ==> (#[trigger] r@[i]).size >= 100000000 && r@[i].category@
                    == "System"@,
    {
        let mut items: Vec<CleanableItem> = Vec::new();
        let downloads = override_or(&self.downloads_dir, self.home.as_str(), "Downloads");
        let probed = probe_dir(downloads.as_str());
        let entries = probed.0;
        let n = entries.len();
        let mut total: u64 = 0;
        let mut count: u64 = 0;
        let mut i: usize = 0;
        while i < n
            invariant
                i <= n,
                n == entries@.len(),
            decreases n - i,
        {
            let e = &entries[i];
            if e.is_file && e.mtime_secs > 0 && is_archive_name(e.name.as_str()) {
                if now_secs >= OLD_DOWNLOAD_SECS && e.mtime_secs < now_secs - OLD_DOWNLOAD_SECS {
                    total = sat_add(total, e.size);
                    count = sat_add(count, 1);
                }
            }
            i = i + 1;
        }
        if total >= 100000000 && count > 0 {
            items.push(
                CleanableItem {
                    name: "Old Downloads (".to_owned().concat(fmt_u64(count).as_str()).concat(
                        " files)",
                    ),
                    category: "System".to_owned(),
                    subcategory: "Downloads".to_owned(),
                    icon: "[down]",
                    path: downloads,
                    size: total,
                    file_count: Some(count),
                    last_modified: None,
                    description: "Archive files older than 30 days in Downloads folder.",
                    safe_to_delete: SafetyLevel::Caution,
                    clean_command: None,
                },
            );
        }
        items
    }

    /// Detect temporary files: 500 MB or more per location.
    pub fn detect_temp(&self) -> (r: Vec<CleanableItem>)
        ensures
            forall|i: int|
                0 <= i < r@.len() ==> (#[trigger] r@[i]).size >= 500000000 && r@[i].category@
                    == "System"@,
    {
        let mut items: Vec<CleanableItem> = Vec::new();
        push_measured(
            &mut items,
            "/tmp".to_owned(),
            500000000,
            ItemMeta {
                name: "Temp Files (tmp)",
                category: "System",
                subcategory: "Temp",
                icon: "[fire]",
                description: "Temporary files. May contain files in use.",
                safe_to_delete: SafetyLevel::Caution,
                clean_command: None,
            },
        );
        push_measured(
            &mut items,
            "/var/tmp".to_owned(),
            500000000,
            ItemMeta {
                name: "Temp Files (var tmp)",
                category: "System",
                subcategory: "Temp",
                icon: "[fire]",
                description: "Temporary files. May contain files in use.",
                safe_to_delete: SafetyLevel::Caution,
                clean_command: None,
            },
        );
        items
    }

    /// Detect system caches: the thumbnail cache at 500 MB or more, and
    /// journal logs at 1 GB or more.
    pub fn detect_system_caches(&self) -> (r: Vec<CleanableItem>)
        ensures
            forall|i: int|
                0 <= i < r@.len() ==> (#[trigger] r@[i]).category@ == "System"@ && ((
                r@[i].subcategory@ == "Thumbnails"@ && r@[i].size >= 500000000
                    && r@[i].safe_to_delete == SafetyLevel::Safe) || (r@[i].subcategory@
                    == "Logs"@ && r@[i].size >= 1000000000 && r@[i].safe_to_delete
                    == SafetyLevel::SafeWithCost)),
    {
        let mut items: Vec<CleanableItem> = Vec::new();
        push_measured(
            &mut items,
            join_under(self.home.as_str(), ".cache/thumbnails"),
            500000000,
            ItemMeta {
                name: "Thumbnail Cache",
                category: "System",
                subcategory: "Thumbnails",
                icon: "[img]",
                description: "Image thumbnails. Will be regenerated when needed.",
                safe_to_delete: SafetyLevel::Safe,
                clean_command: None,
            },
        );
        push_measured(
            &mut items,
            "/var/log/journal".to_owned(),
            1000000000,
            ItemMeta {
                name: "Journal Logs",
                category: "System",
                subcategory: "Logs",
                icon: "[log]",
                description: "Systemd journal logs. Can be vacuumed.",
                safe_to_delete: SafetyLevel::SafeWithCost,
                clean_command: Some("sudo journalctl --vacuum-size=500M"),
            },
        );
        items
    }
}

/// The byte floor for a requested floor in megabytes, saturated at
/// u64::MAX.
pub open spec fn spec_mb_floor(mb: u64) -> int {
    if mb * 1000000 <= u64::MAX as int {
        mb * 1000000
    } else {
        u64::MAX as int
    }
}

/// Sort items by size, largest first, keeping exactly the same items.
#[verifier::loop_isolation(false)]
fn sort_items_desc(v: Vec<CleanableItem>) -> (r: Vec<CleanableItem>)
    ensures
        r@.to_multiset() == v@.to_multiset(),
        r@.len() == v@.len(),
        forall|i: int, j: int|
            0 <= i <= j < r@.len() ==> (#[trigger] r@[i]).size >= (#[trigger] r@[j]).size,
{
    broadcast use vstd::seq_lib::group_to_multiset_ensures;

    let mut rest = v;
    let mut out: Vec<CleanableItem> = Vec::new();
    while rest.len() > 0
        invariant
            out@.to_multiset().add(rest@.to_multiset()) == v@.to_multiset(),
            out@.len() + rest@.len() == v@.len(),
            forall|i: int, j: int|
                0 <= i <= j < out@.len() ==> (#[trigger] out@[i]).size >= (#[trigger] out@[j]).size,
            forall|i: int, j: int|
                0 <= i < out@.len() && 0 <= j < rest@.len() ==> (#[trigger] out@[i]).size
                    >= (#[trigger] rest@[j]).size,
        decreases rest@.len(),
    {
        let mut best: usize = 0;
        let mut bi: usize = 1;
        while bi < rest.len()
            invariant
                best < bi <= rest@.len(),
                forall|k: int|
                    0 <= k < bi ==> (#[trigger] rest@[k]).size <= rest@[best as int].size,
            decreases rest@.len() - bi,
        {
            if rest[bi].size > rest[best].size {
                best = bi;
            }
            bi = bi + 1;
        }
        let ghost rest0 = rest@;
        let ghost out0 = out@;
        let x = rest.remove(best);
        out.push(x);
        proof {
            assert(rest@ == rest0.remove(best as int));
            assert(rest@.to_multiset() =~= rest0.to_multiset().remove(x));
            assert(out@ == out0.push(x));
            assert(out@.to_multiset() =~= out0.to_multiset().insert(x));
            assert(out@.to_multiset().add(rest@.to_multiset()) =~= out0.to_multiset().add(
                rest0.to_multiset(),
            )) by {
                assert(rest0.to_multiset().contains(x)) by {
                    assert(rest0[best as int] == x);
                    assert(rest0.contains(x));
                }
            }
            assert forall|i: int, j: int|
                0 <= i < out@.len() && 0 <= j < rest@.len() implies (#[trigger] out@[i]).size
                >= (#[trigger] rest@[j]).size by {
                assert(rest@[j] == if j < best as int {
                    rest0[j]
                } else {
                    rest0[j + 1]
                });
                if i < out0.len() {
                    assert(out@[i] == out0[i]);
                } else {
                    assert(out@[i] == x);
                }
            }
            assert forall|i: int, j: int| 0 <= i <= j < out@.len() implies (#[trigger] out@[i]).size
                >= (#[trigger] out@[j]).size by {
                if j < out0.len() {
                    assert(out@[i] == out0[i] && out@[j] == out0[j]);
                } else if i < out0.len() {
                    assert(out@[i] == out0[i] && out@[j] == x);
                    assert(rest0.to_multiset().contains(x));
                }
            }
        }
    }
    out
}

/// Whether a big-file item carries everything `find_big_files` promises
/// of each entry it reports.
pub open spec fn spec_big_file_item(it: CleanableItem, mb: u64) -> bool {
    &&& it.size >= spec_mb_floor(mb)
    &&& it.category@ == "Big Files"@
    &&& it.subcategory@ == "Files"@
    &&& it.safe_to_delete == SafetyLevel::Caution
    &&& it.file_count == Some(1u64)
}

/// Find large files under one root: walk up to five directory levels,
/// never through a symlink and never into version-control, dependency or
/// cache directories, and report every regular file of at least
/// `min_size_mb` megabytes as a caution item — largest first, at most
/// fifty, within the measuring budget of directory visits.
#[verifier::loop_isolation(false)]
pub fn find_big_files_under(root: &str, min_size_mb: u64) -> (r: Vec<CleanableItem>)
    ensures
        r@.len() <= 50,
        forall|i: int| 0 <= i < r@.len() ==> spec_big_file_item(#[trigger] r@[i], min_size_mb),
        forall|i: int, j: int|
            0 <= i <= j < r@.len() ==> (#[trigger] r@[i]).size >= (#[trigger] r@[j]).size,
{
    broadcast use vstd::seq_lib::group_to_multiset_ensures;

    let floor: u64 = if min_size_mb <= u64::MAX / 1000000 {
        min_size_mb * 1000000
    } else {
        u64::MAX
    };
    proof {
        assert(floor == spec_mb_floor(min_size_mb));
    }
    let mut skip: Vec<String> = Vec::new();
    skip.push(".git".to_owned());
    skip.push("node_modules".to_owned());
    skip.push("target".to_owned());
    skip.push(".cargo".to_owned());
    skip.push(".npm".to_owned());
    skip.push(".gradle".to_owned());
    skip.push("venv".to_owned());
    skip.push(".venv".to_owned());
    skip.push("__pycache__".to_owned());
    skip.push(".cache".to_owned());
    skip.push("Caches".to_owned());
    skip.push("AppData".to_owned());
    let mut items: Vec<CleanableItem> = Vec::new();
    let mut queue: Vec<(String, u64)> = Vec::new();
    queue.push((root.to_owned(), 0));
    let mut steps: u64 = MEASURE_BUDGET;
    while queue.len() > 0 && steps > 0
        invariant
            forall|i: int|
                0 <= i < items@.len() ==> spec_big_file_item(#[trigger] items@[i], min_size_mb),
        decreases steps,
    {
        steps = steps - 1;
        let (p, depth) = match queue.pop() {
            Some(pd) => pd,
            None => {
                proof {
                    assert(false);
                }
                return Vec::new();
            },
        };
        let probed = probe_dir(p.as_str());
        let entries = probed.0;
        let n = entries.len();
        let mut i: usize = 0;
        while i < n
            invariant
                i <= n,
                n == entries@.len(),
                forall|j: int|
                    0 <= j < items@.len() ==> spec_big_file_item(
                        #[trigger] items@[j],
                        min_size_mb,
                    ),
            decreases n - i,
        {
            let e = &entries[i];
            if e.is_file && e.size >= floor {
                items.push(
                    CleanableItem {
                        name: e.name.clone(),
                        category: "Big Files".to_owned(),
                        subcategory: "Files".to_owned(),
                        icon: "[doc]",
                        path: join_under(p.as_str(), e.name.as_str()),
                        size: e.size,
                        file_count: Some(1),
                        last_modified: Some(e.mtime_secs),
                        description: "Large file found under the home directory.",
                        safe_to_delete: SafetyLevel::Caution,
                        clean_command: None,
                    },
                );
            } else if e.is_dir && !e.is_symlink && depth < 5 {
                if !name_in(&skip, e.name.as_str()) {
                    queue.push((join_under(p.as_str(), e.name.as_str()), depth + 1));
                }
            }
            i = i + 1;
        }
    }
    let ghost unsorted = items@;
    let mut sorted = sort_items_desc(items);
    proof {
        assert forall|i: int| 0 <= i < sorted@.len() implies spec_big_file_item(
            #[trigger] sorted@[i],
            min_size_mb,
        ) by {
            assert(sorted@.to_multiset().contains(sorted@[i])) by {
                assert(sorted@.contains(sorted@[i]));
            }
            assert(unsorted.to_multiset().contains(sorted@[i]));
            assert(unsorted.contains(sorted@[i]));
        }
    }
    while sorted.len() > 50
        invariant
            forall|i: int|
                0 <= i < sorted@.len() ==> spec_big_file_item(#[trigger] sorted@[i], min_size_mb),
            forall|i: int, j: int|
                0 <= i <= j < sorted@.len() ==> (#[trigger] sorted@[i]).size
                    >= (#[trigger] sorted@[j]).size,
        decreases sorted@.len(),
    {
        let ghost before = sorted@;
        let popped = sorted.pop();
        proof {
            assert(sorted@ =~= before.drop_last());
            assert forall|i: int| 0 <= i < sorted@.len() implies spec_big_file_item(
                #[trigger] sorted@[i],
                min_size_mb,
            ) by {
                assert(sorted@[i] == before[i]);
            }
        }
    }
    sorted
}

/// Find large files under the home directory, where the platform reports
/// one: the walk, floor, ordering and cap of `find_big_files_under`.
pub fn find_big_files(min_size_mb: u64) -> (r: Option<Vec<CleanableItem>>)
    ensures
        r matches Some(v) ==> {
            &&& v@.len() <= 50
            &&& forall|i: int|
                0 <= i < v@.len() ==> spec_big_file_item(#[trigger] v@[i], min_size_mb)
            &&& forall|i: int, j: int|
                0 <= i <= j < v@.len() ==> (#[trigger] v@[i]).size >= (#[trigger] v@[j]).size
        },
{
    match crate::probe::home_dir_path() {
        Some(home) => Some(find_big_files_under(home.as_str(), min_size_mb)),
        None => None,
    }
}

/// Whether a name stands in the list, compared by characters.
fn name_in(v: &Vec<String>, x: &str) -> (r: bool)
    ensures
        r == v.deep_view().contains(x@),
{
    let n = v.len();
    let mut i: usize = 0;
    while i < n
        invariant
            i <= n,
            n == v@.len(),
            forall|j: int| 0 <= j < i ==> v.deep_view()[j] != x@,
        decreases n - i,
    {
        proof {
            assert(v.deep_view()[i as int] == v@[i as int]@);
        }
        if crate::marker::str_eq(v[i].as_str(), x) {
            proof {
                assert(v.deep_view()[i as int] == x@);
            }
            return true;
        }
        i = i + 1;
    }
    proof {
        if v.deep_view().contains(x@) {
            let j = choose|j: int| 0 <= j < v.deep_view().len() && v.deep_view()[j] == x@;
            assert(v.deep_view()[j] != x@);
        }
    }
    false
}

/// The fixed metadata of one detectable item.
struct ItemMeta {
    name: &'static str,
    category: &'static str,
    subcategory: &'static str,
    icon: &'static str,
    description: &'static str,
    safe_to_delete: SafetyLevel,
    clean_command: Option<&'static str>,
}

/// Measure one path and report it as an item exactly when its size
/// reaches the threshold.
fn push_measured(items: &mut Vec<CleanableItem>, path: String, min_size: u64, meta: ItemMeta)
    ensures
        final(items)@.len() >= old(items)@.len(),
        forall|i: int|
            0 <= i < old(items)@.len() ==> #[trigger] final(items)@[i] == old(items)@[i],
        forall|i: int|
            old(items)@.len() <= i < final(items)@.len() ==> (#[trigger] final(items)@[i]).size
                >= min_size && final(items)@[i].category@ == meta.category@
                && final(items)@[i].subcategory@ == meta.subcategory@
                && final(items)@[i].safe_to_delete == meta.safe_to_delete,
{
    let m = measure_dir(path.as_str(), MEASURE_BUDGET);
    if m.0 >= min_size {
        let ghost before = items@;
        items.push(
            CleanableItem {
                name: meta.name.to_owned(),
                category: meta.category.to_owned(),
                subcategory: meta.subcategory.to_owned(),
                icon: meta.icon,
                path,
                size: m.0,
                file_count: Some(m.1),
                last_modified: None,
                description: meta.description,
                safe_to_delete: meta.safe_to_delete,
                clean_command: match meta.clean_command {
                    Some(c) => Some(c.to_owned()),
                    None => None,
                },
            },
        );
    }
}

/// Move every item of `more` onto the end of `items`, keeping what was
/// there.
fn append_items(items: &mut Vec<CleanableItem>, more: Vec<CleanableItem>)
    ensures
        final(items)@ == old(items)@ + more@,
{
    let mut more = more;
    let ghost all = more@;
    let ghost base = old(items)@;
    let ml = more.len();
    proof {
        assert(all.len() == ml);
    }
    let mut taken: usize = 0;
    while more.len() > 0
        invariant
            all.len() <= usize::MAX,
            taken + more@.len() == all.len(),
            more@ == all.skip(taken as int),
            items@ == base + all.take(taken as int),
        decreases more@.len(),
    {
        let x = more.remove(0);
        proof {
            assert(x == all.skip(taken as int)[0]);
            assert(all.skip(taken as int)[0] == all[taken as int]);
            assert(more@ =~= all.skip(taken as int + 1));
        }
        items.push(x);
        proof {
            assert(items@ =~= base + all.take(taken as int + 1));
        }
        taken = taken + 1;
    }
    proof {
        assert(all.take(all.len() as int) =~= all);
        assert(items@ =~= base + all);
    }
}

} // verus!
