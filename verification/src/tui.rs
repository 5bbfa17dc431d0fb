//! The interactive application's state: everything the terminal
//! front-end decides is modeled and verified here.  Rendering, the
//! terminal, threads and channels stay with the caller; they hand plain
//! key and message values in and read the state out.

use vstd::multiset::Multiset;
use vstd::prelude::*;
use vstd::string::StringExecFns;

use crate::project::Project;
use crate::scanner::{sat_add, ScanResult};
use crate::text::{contains_ci_chars, fmt_u64, spec_digits};

verus! {

/// Message sent from a scan worker to the state.
pub enum ScanMessage {
    /// Progress update.
    Progress { dirs_scanned: usize, message: String },
    /// Scan completed for projects.
    CompleteProjects(ScanResult),
    /// Scan completed for caches.
    CompleteCaches(Vec<CacheEntry>),
    /// Scan completed for cleaners.
    CompleteCleaners(Vec<CleanerEntry>),
    /// Scan error.
    Error(String),
}

/// Scan mode - what type of scan to perform.
#[derive(Debug, Clone, Copy, PartialEq, Eq, Structural)]
pub enum ScanMode {
    /// Scan everything at once.
    All,
    /// Scan for development projects.
    Projects,
    /// Scan global caches.
    Caches,
    /// Scan Xcode artifacts.
    Xcode,
    /// Scan Docker resources.
    Docker,
    /// Scan IDE caches.
    IDECaches,
    /// Scan ML/AI caches.
    MLCaches,
}

/// The scan mode at one menu position.
pub open spec fn spec_mode_at(i: int) -> ScanMode {
    if i == 0 {
        ScanMode::All
    } else if i == 1 {
        ScanMode::Projects
    } else if i == 2 {
        ScanMode::Caches
    } else if i == 3 {
        ScanMode::Xcode
    } else if i == 4 {
        ScanMode::Docker
    } else if i == 5 {
        ScanMode::IDECaches
    } else {
        ScanMode::MLCaches
    }
}

impl ScanMode {
    /// Get all scan modes, in menu order.
    pub fn all_modes() -> (r: Vec<ScanMode>)
        ensures
            r@.len() == 7,
            forall|i: int| 0 <= i < 7 ==> #[trigger] r@[i] == spec_mode_at(i),
    {
        let r = vec![
            ScanMode::All,
            ScanMode::Projects,
            ScanMode::Caches,
            ScanMode::Xcode,
            ScanMode::Docker,
            ScanMode::IDECaches,
            ScanMode::MLCaches,
        ];
        proof {
            assert(r@[0] == spec_mode_at(0));
            assert(r@[1] == spec_mode_at(1));
            assert(r@[2] == spec_mode_at(2));
            assert(r@[3] == spec_mode_at(3));
            assert(r@[4] == spec_mode_at(4));
            assert(r@[5] == spec_mode_at(5));
            assert(r@[6] == spec_mode_at(6));
        }
        r
    }

    /// The menu name of each mode.
    pub open spec fn spec_name(self) -> Seq<char> {
        match self {
            ScanMode::All => "Scan All"@,
            ScanMode::Projects => "Projects"@,
            ScanMode::Caches => "Global Caches"@,
            ScanMode::Xcode => "Xcode"@,
            ScanMode::Docker => "Docker"@,
            ScanMode::IDECaches => "IDE Caches"@,
            ScanMode::MLCaches => "ML/AI Models"@,
        }
    }

    /// The menu description of each mode.
    pub open spec fn spec_description(self) -> Seq<char> {
        match self {
            ScanMode::All => "Everything - projects, caches, Docker, Xcode, IDEs, ML"@,
            ScanMode::Projects => "node_modules, target, venv, .gradle, vendor"@,
            ScanMode::Caches => "npm, pip, cargo, brew, CocoaPods cache"@,
            ScanMode::Xcode => "DerivedData, Archives, Simulators"@,
            ScanMode::Docker => "Images, Containers, Volumes, Build Cache"@,
            ScanMode::IDECaches => "JetBrains, VS Code, Cursor caches"@,
            ScanMode::MLCaches => "Huggingface, Ollama, PyTorch models"@,
        }
    }

    /// The menu icon of each mode.
    pub open spec fn spec_icon(self) -> Seq<char> {
        match self {
            ScanMode::All => "[all]"@,
            ScanMode::Projects => "[box]"@,
            ScanMode::Caches => "[db]"@,
            ScanMode::Xcode => "[apple]"@,
            ScanMode::Docker => "[docker]"@,
            ScanMode::IDECaches => "[ide]"@,
            ScanMode::MLCaches => "[ml]"@,
        }
    }

    /// Get display name.
    pub fn name(&self) -> (r: &'static str)
        ensures
            r@ == self.spec_name(),
    {
        match self {
            ScanMode::All => "Scan All",
            ScanMode::Projects => "Projects",
            ScanMode::Caches => "Global Caches",
            ScanMode::Xcode => "Xcode",
            ScanMode::Docker => "Docker",
            ScanMode::IDECaches => "IDE Caches",
            ScanMode::MLCaches => "ML/AI Models",
        }
    }

    /// Get description.
    pub fn description(&self) -> (r: &'static str)
        ensures
            r@ == self.spec_description(),
    {
        match self {
            ScanMode::All => "Everything - projects, caches, Docker, Xcode, IDEs, ML",
            ScanMode::Projects => "node_modules, target, venv, .gradle, vendor",
            ScanMode::Caches => "npm, pip, cargo, brew, CocoaPods cache",
            ScanMode::Xcode => "DerivedData, Archives, Simulators",
            ScanMode::Docker => "Images, Containers, Volumes, Build Cache",
            ScanMode::IDECaches => "JetBrains, VS Code, Cursor caches",
            ScanMode::MLCaches => "Huggingface, Ollama, PyTorch models",
        }
    }

    /// Get icon.
    pub fn icon(&self) -> (r: &'static str)
        ensures
            r@ == self.spec_icon(),
    {
        match self {
            ScanMode::All => "[all]",
            ScanMode::Projects => "[box]",
            ScanMode::Caches => "[db]",
            ScanMode::Xcode => "[apple]",
            ScanMode::Docker => "[docker]",
            ScanMode::IDECaches => "[ide]",
            ScanMode::MLCaches => "[ml]",
        }
    }
}

/// Cache entry for display.
#[derive(Debug, Clone)]
pub struct CacheEntry {
    /// Display name.
    pub name: String,
    /// Where it lives.
    pub path: String,
    /// Measured size in bytes.
    pub size: u64,
    /// Display icon.
    pub icon: String,
    /// What deleting it costs.
    pub description: String,
    /// Marked for deletion.
    pub selected: bool,
    /// Passes the current filter.
    pub visible: bool,
}

/// Cleaner entry for display.
#[derive(Debug, Clone)]
pub struct CleanerEntry {
    /// Display name.
    pub name: String,
    /// Where it lives.
    pub path: String,
    /// Measured size in bytes.
    pub size: u64,
    /// Display icon.
    pub icon: String,
    /// Top-level grouping.
    pub category: String,
    /// Marked for deletion.
    pub selected: bool,
    /// Passes the current filter.
    pub visible: bool,
}

/// A project entry in the list.
#[derive(Debug, Clone)]
pub struct ProjectEntry {
    /// The project data.
    pub project: Project,
    /// Is this entry selected for deletion.
    pub selected: bool,
    /// Is this entry visible (after filtering).
    pub visible: bool,
}

/// Application state/screen.
#[derive(Debug, Clone, PartialEq, Eq)]
pub enum AppState {
    /// Initial state, showing menu.
    Ready,
    /// Currently scanning.
    Scanning,
    /// Showing project results.
    Results,
    /// Showing cache results.
    CacheResults,
    /// Showing cleaner results.
    CleanerResults,
    /// Confirming deletion.
    Confirming,
    /// Cleaning in progress.
    Cleaning,
    /// Error state.
    Error(String),
}

/// A structured status line; the front-end renders it to text.
#[derive(Debug, Clone)]
pub enum StatusNote {
    /// Prompt to pick a scan mode.
    SelectScanPrompt,
    /// How much a scan found.
    Found { count: usize, size: u64 },
    /// How much is selected for deletion.
    Selected { count: usize, size: u64 },
    /// A deletion request with nothing selected.
    NoSelection,
    /// The outcome of a deletion batch.
    Deleted { ok: usize, failed: usize, freed: u64 },
    /// A scan error.
    ErrorNote(String),
}

/// A key, as the terminal reports it, reduced to what the bindings
/// distinguish.
#[derive(Debug, Clone, Copy, PartialEq, Eq)]
pub enum Key {
    /// A printable character.
    Char(char),
    Up,
    Down,
    Left,
    Right,
    PageUp,
    PageDown,
    Home,
    End,
    Enter,
    Esc,
    Backspace,
    Delete,
    Tab,
    BackTab,
    /// A function key.
    F(u8),
    /// Anything else.
    Other,
}

/// One key press with its control modifier.
#[derive(Debug, Clone, Copy, PartialEq, Eq)]
pub struct KeyInput {
    /// Which key.
    pub key: Key,
    /// Whether control was held.
    pub ctrl: bool,
}

/// One mouse event, reduced to what the bindings distinguish.
#[derive(Debug, Clone, Copy, PartialEq, Eq, Structural)]
pub enum MouseInput {
    ScrollUp,
    ScrollDown,
    Other,
}

/// Key bindings for the interactive session.
#[derive(Debug, Clone, Copy, PartialEq, Eq, Structural)]
pub enum Action {
    /// Quit the application.
    Quit,
    /// Move selection up.
    Up,
    /// Move selection down.
    Down,
    /// Toggle selection of current item.
    ToggleSelect,
    /// Expand/collapse current item.
    ToggleExpand,
    /// Expand current item.
    Expand,
    /// Collapse current item.
    Collapse,
    /// Select all items.
    SelectAll,
    /// Deselect all items.
    DeselectAll,
    /// Delete selected items.
    Delete,
    /// Confirm action.
    Confirm,
    /// Cancel action.
    Cancel,
    /// Show help.
    Help,
    /// Start scanning.
    Scan,
    /// Page up.
    PageUp,
    /// Page down.
    PageDown,
    /// Go to top.
    Top,
    /// Go to bottom.
    Bottom,
    /// Search/filter.
    Search,
    /// Tab to next category.
    NextTab,
    /// Tab to previous category.
    PrevTab,
    /// Refresh.
    Refresh,
    /// Scroll up (mouse).
    ScrollUp,
    /// Scroll down (mouse).
    ScrollDown,
    /// Go back to menu.
    Back,
    /// No action.
    NoOp,
}

/// The binding table as a pure function of the key press.
pub open spec fn spec_action_of(k: KeyInput) -> Action {
    match k.key {
        Key::Char(c) => if c == 'q' {
            Action::Quit
        } else if c == 'c' && k.ctrl {
            Action::Quit
        } else if c == 'k' {
            Action::Up
        } else if c == 'j' {
            Action::Down
        } else if c == 'u' && k.ctrl {
            Action::PageUp
        } else if c == 'd' && k.ctrl {
            Action::PageDown
        } else if c == 'g' && !k.ctrl {
            Action::Top
        } else if c == 'G' {
            Action::Bottom
        } else if c == 'l' {
            Action::Expand
        } else if c == 'h' {
            Action::Collapse
        } else if c == ' ' {
            Action::ToggleSelect
        } else if c == 'a' {
            Action::SelectAll
        } else if c == 'A' {
            Action::DeselectAll
        } else if c == 'u' {
            Action::DeselectAll
        } else if c == 'd' {
            Action::Delete
        } else if c == 'y' {
            Action::Confirm
        } else if c == 'n' {
            Action::Cancel
        } else if c == '?' {
            Action::Help
        } else if c == 's' {
            Action::Scan
        } else if c == '/' {
            Action::Search
        } else if c == 'r' {
            Action::Refresh
        } else if c == 'b' {
            Action::Back
        } else {
            Action::NoOp
        },
        Key::Esc => Action::Cancel,
        Key::Up => Action::Up,
        Key::Down => Action::Down,
        Key::PageUp => Action::PageUp,
        Key::PageDown => Action::PageDown,
        Key::Home => Action::Top,
        Key::End => Action::Bottom,
        Key::Right => Action::Expand,
        Key::Left => Action::Collapse,
        Key::Enter => Action::ToggleExpand,
        Key::Delete => Action::Delete,
        Key::F(n) => if n == 5 {
            Action::Refresh
        } else {
            Action::NoOp
        },
        Key::Backspace => Action::Back,
        Key::Tab => Action::NextTab,
        Key::BackTab => Action::PrevTab,
        Key::Other => Action::NoOp,
    }
}

impl Action {
    /// Convert a key press to an action.
    pub fn from_key(k: KeyInput) -> (r: Self)
        ensures
            r == spec_action_of(k),
    {
        match k.key {
            Key::Char(c) => if c == 'q' {
                Action::Quit
            } else if c == 'c' && k.ctrl {
                Action::Quit
            } else if c == 'k' {
                Action::Up
            } else if c == 'j' {
                Action::Down
            } else if c == 'u' && k.ctrl {
                Action::PageUp
            } else if c == 'd' && k.ctrl {
                Action::PageDown
            } else if c == 'g' && !k.ctrl {
                Action::Top
            } else if c == 'G' {
                Action::Bottom
            } else if c == 'l' {
                Action::Expand
            } else if c == 'h' {
                Action::Collapse
            } else if c == ' ' {
                Action::ToggleSelect
            } else if c == 'a' {
                Action::SelectAll
            } else if c == 'A' {
                Action::DeselectAll
            } else if c == 'u' {
                Action::DeselectAll
            } else if c == 'd' {
                Action::Delete
            } else if c == 'y' {
                Action::Confirm
            } else if c == 'n' {
                Action::Cancel
            } else if c == '?' {
                Action::Help
            } else if c == 's' {
                Action::Scan
            } else if c == '/' {
                Action::Search
            } else if c == 'r' {
                Action::Refresh
            } else if c == 'b' {
                Action::Back
            } else {
                Action::NoOp
            },
            Key::Esc => Action::Cancel,
            Key::Up => Action::Up,
            Key::Down => Action::Down,
            Key::PageUp => Action::PageUp,
            Key::PageDown => Action::PageDown,
            Key::Home => Action::Top,
            Key::End => Action::Bottom,
            Key::Right => Action::Expand,
            Key::Left => Action::Collapse,
            Key::Enter => Action::ToggleExpand,
            Key::Delete => Action::Delete,
            Key::F(n) => if n == 5 {
                Action::Refresh
            } else {
                Action::NoOp
            },
            Key::Backspace => Action::Back,
            Key::Tab => Action::NextTab,
            Key::BackTab => Action::PrevTab,
            Key::Other => Action::NoOp,
        }
    }

    /// Convert a mouse event to an action.
    pub fn from_mouse(m: MouseInput) -> (r: Self)
        ensures
            r == match m {
                MouseInput::ScrollUp => Action::ScrollUp,
                MouseInput::ScrollDown => Action::ScrollDown,
                MouseInput::Other => Action::NoOp,
            },
    {
        match m {
            MouseInput::ScrollUp => Action::ScrollUp,
            MouseInput::ScrollDown => Action::ScrollDown,
            MouseInput::Other => Action::NoOp,
        }
    }
}

/// What `format_age` yields for a last-modified time judged at `now`.
pub open spec fn spec_format_age(lm: Option<u64>, now: u64) -> Seq<char> {
    match lm {
        None => "unknown"@,
        Some(m) => if m > now {
            "unknown"@
        } else {
            let days = (now - m) / 86400;
            if days == 0 {
                "today"@
            } else if days == 1 {
                "1 day"@
            } else if days < 30 {
                spec_digits(days as int) + " days"@
            } else if days < 365 {
                spec_digits(days as int / 30) + " months"@
            } else {
                spec_digits(days as int / 365) + " years"@
            }
        },
    }
}

/// Format the age of a project, judged at `now_secs`.
pub fn format_age(project: &Project, now_secs: u64) -> (r: String)
    ensures
        r@ == spec_format_age(project.last_modified, now_secs),
{
    match &project.last_modified {
        None => "unknown".to_owned(),
        Some(m) => {
            let m = *m;
            if m > now_secs {
                "unknown".to_owned()
            } else {
                let days = (now_secs - m) / 86400;
                if days == 0 {
                    "today".to_owned()
                } else if days == 1 {
                    "1 day".to_owned()
                } else if days < 30 {
                    fmt_u64(days).concat(" days")
                } else if days < 365 {
                    fmt_u64(days / 30).concat(" months")
                } else {
                    fmt_u64(days / 365).concat(" years")
                }
            }
        },
    }
}

/// Project entries ordered by cleanable size, largest first.
/// The entries a finished project scan turns into: each project wrapped
/// unselected and visible, in scan order.
pub open spec fn spec_fresh_entries(ps: Seq<Project>) -> Seq<ProjectEntry> {
    ps.map_values(|p: Project| ProjectEntry { project: p, selected: false, visible: true })
}

pub open spec fn spec_projects_sorted_desc(s: Seq<ProjectEntry>) -> bool {
    forall|i: int, j: int|
        0 <= i <= j < s.len() ==> (#[trigger] s[i]).project.cleanable_size
            >= (#[trigger] s[j]).project.cleanable_size
}

/// Sort project entries by cleanable size, largest first, keeping
/// exactly the same entries.
#[verifier::loop_isolation(false)]
fn sort_projects_desc(v: Vec<ProjectEntry>) -> (r: Vec<ProjectEntry>)
    ensures
        r@.to_multiset() == v@.to_multiset(),
        spec_projects_sorted_desc(r@),
        r@.len() == v@.len(),
{
    broadcast use vstd::seq_lib::group_to_multiset_ensures;

    let mut rest = v;
    let mut out: Vec<ProjectEntry> = Vec::new();
    while rest.len() > 0
        invariant
            out@.to_multiset().add(rest@.to_multiset()) == v@.to_multiset(),
            out@.len() + rest@.len() == v@.len(),
            spec_projects_sorted_desc(out@),
            forall|i: int, j: int|
                0 <= i < out@.len() && 0 <= j < rest@.len() ==> (#[trigger] out@[i]).project.cleanable_size
                    >= (#[trigger] rest@[j]).project.cleanable_size,
        decreases rest@.len(),
    {
        let mut best: usize = 0;
        let mut bi: usize = 1;
        while bi < rest.len()
            invariant
                best < bi <= rest@.len(),
                forall|k: int|
                    0 <= k < bi ==> (#[trigger] rest@[k]).project.cleanable_size
                        <= rest@[best as int].project.cleanable_size,
            decreases rest@.len() - bi,
        {
            if rest[bi].project.cleanable_size > rest[best].project.cleanable_size {
                best = bi;
            }
            bi = bi + 1;
        }
        let ghost rest0 = rest@;
        let ghost out0 = out@;
        let x = rest.remove(best);
        out.push(x);
        proof {
            assert(rest@ == rest0.remove(best as int));
            assert(rest@.to_multiset() =~= rest0.to_multiset().remove(x));
            assert(out@ == out0.push(x));
            assert(out@.to_multiset() =~= out0.to_multiset().insert(x));
            assert(out@.to_multiset().add(rest@.to_multiset()) =~= out0.to_multiset().add(
                rest0.to_multiset(),
            )) by {
                assert(rest0.to_multiset().contains(x)) by {
                    assert(rest0[best as int] == x);
                    assert(rest0.contains(x));
                }
            }
            assert forall|i: int, j: int|
                0 <= i < out@.len() && 0 <= j < rest@.len() implies (#[trigger] out@[i]).project.cleanable_size
                >= (#[trigger] rest@[j]).project.cleanable_size by {
                assert(rest@[j] == if j < best as int {
                    rest0[j]
                } else {
                    rest0[j + 1]
                });
                if i < out0.len() {
                    assert(out@[i] == out0[i]);
                } else {
                    assert(out@[i] == x);
                }
            }
            assert forall|i: int, j: int|
                0 <= i <= j < out@.len() implies (#[trigger] out@[i]).project.cleanable_size
                >= (#[trigger] out@[j]).project.cleanable_size by {
                if j < out0.len() {
                    assert(out@[i] == out0[i] && out@[j] == out0[j]);
                } else if i < out0.len() {
                    assert(out@[i] == out0[i] && out@[j] == x);
                    assert(rest0.to_multiset().contains(x));
                }
            }
        }
    }
    out
}

/// How many project entries pass the current filter.
pub open spec fn spec_vis_projects(s: Seq<ProjectEntry>) -> int
    decreases s.len(),
{
    if s.len() == 0 {
        0
    } else {
        spec_vis_projects(s.drop_last()) + if s.last().visible {
            1int
        } else {
            0int
        }
    }
}

/// A prefix never holds more visible entries than the whole list.
pub proof fn lemma_vis_projects_prefix(s: Seq<ProjectEntry>, m: int)
    requires
        0 <= m <= s.len(),
    ensures
        spec_vis_projects(s.take(m)) <= spec_vis_projects(s),
        spec_vis_projects(s) >= 0,
    decreases s.len(),
{
    if s.len() == 0 {
        assert(s.take(m) =~= s);
    } else if m == s.len() {
        assert(s.take(m) =~= s);
        lemma_vis_projects_prefix(s.drop_last(), s.len() - 1);
    } else {
        assert(s.take(m) =~= s.drop_last().take(m));
        lemma_vis_projects_prefix(s.drop_last(), m);
    }
}

/// How many cache entries pass the current filter.
pub open spec fn spec_vis_caches(s: Seq<CacheEntry>) -> int
    decreases s.len(),
{
    if s.len() == 0 {
        0
    } else {
        spec_vis_caches(s.drop_last()) + if s.last().visible {
            1int
        } else {
            0int
        }
    }
}

/// How many cleaner entries pass the current filter.
pub open spec fn spec_vis_cleaners(s: Seq<CleanerEntry>) -> int
    decreases s.len(),
{
    if s.len() == 0 {
        0
    } else {
        spec_vis_cleaners(s.drop_last()) + if s.last().visible {
            1int
        } else {
            0int
        }
    }
}

/// How many project entries are selected.
pub open spec fn spec_sel_projects(s: Seq<ProjectEntry>) -> int
    decreases s.len(),
{
    if s.len() == 0 {
        0
    } else {
        spec_sel_projects(s.drop_last()) + if s.last().selected {
            1int
        } else {
            0int
        }
    }
}

/// How many cache entries are selected.
pub open spec fn spec_sel_caches(s: Seq<CacheEntry>) -> int
    decreases s.len(),
{
    if s.len() == 0 {
        0
    } else {
        spec_sel_caches(s.drop_last()) + if s.last().selected {
            1int
        } else {
            0int
        }
    }
}

/// How many cleaner entries are selected.
pub open spec fn spec_sel_cleaners(s: Seq<CleanerEntry>) -> int
    decreases s.len(),
{
    if s.len() == 0 {
        0
    } else {
        spec_sel_cleaners(s.drop_last()) + if s.last().selected {
            1int
        } else {
            0int
        }
    }
}

/// Entries ordered by size, largest first.
pub open spec fn spec_caches_sorted_desc(s: Seq<CacheEntry>) -> bool {
    forall|i: int, j: int|
        0 <= i <= j < s.len() ==> (#[trigger] s[i]).size >= (#[trigger] s[j]).size
}

/// Sort cache entries by size, largest first, keeping exactly the same
/// entries.
#[verifier::loop_isolation(false)]
fn sort_caches_desc(v: Vec<CacheEntry>) -> (r: Vec<CacheEntry>)
    ensures
        r@.to_multiset() == v@.to_multiset(),
        spec_caches_sorted_desc(r@),
        r@.len() == v@.len(),
{
    broadcast use vstd::seq_lib::group_to_multiset_ensures;

    let mut rest = v;
    let mut out: Vec<CacheEntry> = Vec::new();
    while rest.len() > 0
        invariant
            out@.to_multiset().add(rest@.to_multiset()) == v@.to_multiset(),
            out@.len() + rest@.len() == v@.len(),
            spec_caches_sorted_desc(out@),
            forall|i: int, j: int|
                0 <= i < out@.len() && 0 <= j < rest@.len() ==> (#[trigger] out@[i]).size
                    >= (#[trigger] rest@[j]).size,
        decreases rest@.len(),
    {
        let mut best: usize = 0;
        let mut bi: usize = 1;
        while bi < rest.len()
            invariant
                best < bi <= rest@.len(),
                forall|k: int| 0 <= k < bi ==> (#[trigger] rest@[k]).size <= rest@[best as int].size,
            decreases rest@.len() - bi,
        {
            if rest[bi].size > rest[best].size {
                best = bi;
            }
            bi = bi + 1;
        }
        let ghost rest0 = rest@;
        let ghost out0 = out@;
        let x = rest.remove(best);
        out.push(x);
        proof {
            assert(rest@.to_multiset() =~= rest0.to_multiset().remove(x));
            assert(out@.to_multiset() =~= out0.to_multiset().insert(x));
            assert(out@.to_multiset().add(rest@.to_multiset()) =~= out0.to_multiset().add(
                rest0.to_multiset(),
            )) by {
                assert(rest0.to_multiset().contains(x)) by {
                    assert(rest0[best as int] == x);
                    assert(rest0.contains(x));
                }
            }
            assert forall|i: int, j: int|
                0 <= i < out@.len() && 0 <= j < rest@.len() implies (#[trigger] out@[i]).size
                >= (#[trigger] rest@[j]).size by {
                assert(rest@[j] == if j < best as int {
                    rest0[j]
                } else {
                    rest0[j + 1]
                });
                if i < out0.len() {
                    assert(out@[i] == out0[i]);
                } else {
                    assert(out@[i] == x);
                }
            }
            assert forall|i: int, j: int|
                0 <= i <= j < out@.len() implies (#[trigger] out@[i]).size
                >= (#[trigger] out@[j]).size by {
                if j < out0.len() {
                    assert(out@[i] == out0[i] && out@[j] == out0[j]);
                } else if i < out0.len() {
                    assert(out@[i] == out0[i] && out@[j] == x);
                }
            }
        }
    }
    out
}

/// Entries ordered by size, largest first.
pub open spec fn spec_cleaners_sorted_desc(s: Seq<CleanerEntry>) -> bool {
    forall|i: int, j: int|
        0 <= i <= j < s.len() ==> (#[trigger] s[i]).size >= (#[trigger] s[j]).size
}

/// Sort cleaner entries by size, largest first, keeping exactly the
/// same entries.
#[verifier::loop_isolation(false)]
fn sort_cleaners_desc(v: Vec<CleanerEntry>) -> (r: Vec<CleanerEntry>)
    ensures
        r@.to_multiset() == v@.to_multiset(),
        spec_cleaners_sorted_desc(r@),
        r@.len() == v@.len(),
{
    broadcast use vstd::seq_lib::group_to_multiset_ensures;

    let mut rest = v;
    let mut out: Vec<CleanerEntry> = Vec::new();
    while rest.len() > 0
        invariant
            out@.to_multiset().add(rest@.to_multiset()) == v@.to_multiset(),
            out@.len() + rest@.len() == v@.len(),
            spec_cleaners_sorted_desc(out@),
            forall|i: int, j: int|
                0 <= i < out@.len() && 0 <= j < rest@.len() ==> (#[trigger] out@[i]).size
                    >= (#[trigger] rest@[j]).size,
        decreases rest@.len(),
    {
        let mut best: usize = 0;
        let mut bi: usize = 1;
        while bi < rest.len()
            invariant
                best < bi <= rest@.len(),
                forall|k: int| 0 <= k < bi ==> (#[trigger] rest@[k]).size <= rest@[best as int].size,
            decreases rest@.len() - bi,
        {
            if rest[bi].size > rest[best].size {
                best = bi;
            }
            bi = bi + 1;
        }
        let ghost rest0 = rest@;
        let ghost out0 = out@;
        let x = rest.remove(best);
        out.push(x);
        proof {
            assert(rest@.to_multiset() =~= rest0.to_multiset().remove(x));
            assert(out@.to_multiset() =~= out0.to_multiset().insert(x));
            assert(out@.to_multiset().add(rest@.to_multiset()) =~= out0.to_multiset().add(
                rest0.to_multiset(),
            )) by {
                assert(rest0.to_multiset().contains(x)) by {
                    assert(rest0[best as int] == x);
                    assert(rest0.contains(x));
                }
            }
            assert forall|i: int, j: int|
                0 <= i < out@.len() && 0 <= j < rest@.len() implies (#[trigger] out@[i]).size
                >= (#[trigger] rest@[j]).size by {
                assert(rest@[j] == if j < best as int {
                    rest0[j]
                } else {
                    rest0[j + 1]
                });
                if i < out0.len() {
                    assert(out@[i] == out0[i]);
                } else {
                    assert(out@[i] == x);
                }
            }
            assert forall|i: int, j: int|
                0 <= i <= j < out@.len() implies (#[trigger] out@[i]).size
                >= (#[trigger] out@[j]).size by {
                if j < out0.len() {
                    assert(out@[i] == out0[i] && out@[j] == out0[j]);
                } else if i < out0.len() {
                    assert(out@[i] == out0[i] && out@[j] == x);
                }
            }
        }
    }
    out
}

/// Search a list of expanded indices.
fn contains_usize(v: &Vec<usize>, x: usize) -> (r: bool)
    ensures
        r == v@.contains(x),
{
    let n = v.len();
    let mut i: usize = 0;
    while i < n
        invariant
            i <= n,
            n == v@.len(),
            forall|j: int| 0 <= j < i ==> v@[j] != x,
        decreases n - i,
    {
        if v[i] == x {
            proof {
                assert(v@[i as int] == x);
            }
            return true;
        }
        i = i + 1;
    }
    proof {
        if v@.contains(x) {
            let j = choose|j: int| 0 <= j < v@.len() && v@[j] == x;
            assert(v@[j] != x);
        }
    }
    false
}

/// Remove one expanded index wherever it stands.
fn remove_usize(v: &mut Vec<usize>, x: usize)
    ensures
        !final(v)@.contains(x),
        forall|y: usize| y != x ==> (final(v)@.contains(y) <==> old(v)@.contains(y)),
{
    let mut out: Vec<usize> = Vec::new();
    let n = v.len();
    let mut i: usize = 0;
    while i < n
        invariant
            i <= n,
            n == v@.len(),
            *v == *old(v),
            !out@.contains(x),
            forall|y: usize| #[trigger] out@.contains(y) ==> y != x && old(v)@.contains(y),
            forall|j: int|
                0 <= j < i && old(v)@[j] != x ==> out@.contains(#[trigger] old(v)@[j]),
        decreases n - i,
    {
        if v[i] != x {
            let ghost o0 = out@;
            out.push(v[i]);
            proof {
                assert forall|y: usize| #[trigger] out@.contains(y) implies y != x
                    && old(v)@.contains(y) by {
                    let j = choose|j: int| 0 <= j < out@.len() && out@[j] == y;
                    if j < o0.len() {
                        assert(o0[j] == y);
                        assert(o0.contains(y));
                    } else {
                        assert(y == old(v)@[i as int]);
                        assert(old(v)@.contains(y));
                    }
                }
                assert forall|j: int|
                    0 <= j < i + 1 && old(v)@[j] != x implies out@.contains(
                    #[trigger] old(v)@[j],
                ) by {
                    if j < i as int {
                        assert(o0.contains(old(v)@[j]));
                        let k = choose|k: int| 0 <= k < o0.len() && o0[k] == old(v)@[j];
                        assert(out@[k] == old(v)@[j]);
                    } else {
                        assert(out@[o0.len() as int] == old(v)@[j]);
                    }
                }
            }
        }
        i = i + 1;
    }
    proof {
        assert forall|y: usize| y != x implies (out@.contains(y) <==> old(v)@.contains(y)) by {
            if old(v)@.contains(y) {
                let j = choose|j: int| 0 <= j < old(v)@.len() && old(v)@[j] == y;
                assert(out@.contains(old(v)@[j]));
            }
        }
    }
    *v = out;
}

/// The index of the `n`-th entry that passes the filter.
fn nth_visible_project(v: &Vec<ProjectEntry>, n: usize) -> (r: Option<usize>)
    ensures
        r matches Some(ix) ==> ix < v@.len() && v@[ix as int].visible && spec_vis_projects(
            v@.take(ix as int),
        ) == n,
        r is None ==> spec_vis_projects(v@) <= n,
{
    let len = v.len();
    let mut i: usize = 0;
    let mut seen: usize = 0;
    proof {
        assert(v@.take(0int) =~= Seq::<ProjectEntry>::empty());
    }
    while i < len
        invariant
            i <= len,
            len == v@.len(),
            seen <= n,
            seen == spec_vis_projects(v@.take(i as int)),
        decreases len - i,
    {
        proof {
            assert(v@.take(i as int + 1).drop_last() =~= v@.take(i as int));
            assert(v@.take(i as int + 1).last() == v@[i as int]);
        }
        if v[i].visible {
            if seen == n {
                return Some(i);
            }
            seen = seen + 1;
        }
        i = i + 1;
    }
    proof {
        assert(v@.take(len as int) =~= v@);
    }
    None
}

/// Count the project entries that pass the filter.
fn count_visible_projects(v: &Vec<ProjectEntry>) -> (r: usize)
    ensures
        r == spec_vis_projects(v@),
{
    let len = v.len();
    let mut i: usize = 0;
    let mut seen: usize = 0;
    proof {
        assert(v@.take(0int) =~= Seq::<ProjectEntry>::empty());
    }
    while i < len
        invariant
            i <= len,
            len == v@.len(),
            seen <= i,
            seen == spec_vis_projects(v@.take(i as int)),
        decreases len - i,
    {
        proof {
            assert(v@.take(i as int + 1).drop_last() =~= v@.take(i as int));
            assert(v@.take(i as int + 1).last() == v@[i as int]);
        }
        if v[i].visible {
            seen = seen + 1;
        }
        i = i + 1;
    }
    proof {
        assert(v@.take(len as int) =~= v@);
    }
    seen
}

/// Count the cache entries that pass the filter.
fn count_visible_caches(v: &Vec<CacheEntry>) -> (r: usize)
    ensures
        r == spec_vis_caches(v@),
{
    let len = v.len();
    let mut i: usize = 0;
    let mut seen: usize = 0;
    proof {
        assert(v@.take(0int) =~= Seq::<CacheEntry>::empty());
    }
    while i < len
        invariant
            i <= len,
            len == v@.len(),
            seen <= i,
            seen == spec_vis_caches(v@.take(i as int)),
        decreases len - i,
    {
        proof {
            assert(v@.take(i as int + 1).drop_last() =~= v@.take(i as int));
            assert(v@.take(i as int + 1).last() == v@[i as int]);
        }
        if v[i].visible {
            seen = seen + 1;
        }
        i = i + 1;
    }
    proof {
        assert(v@.take(len as int) =~= v@);
    }
    seen
}

/// Count the cleaner entries that pass the filter.
fn count_visible_cleaners(v: &Vec<CleanerEntry>) -> (r: usize)
    ensures
        r == spec_vis_cleaners(v@),
{
    let len = v.len();
    let mut i: usize = 0;
    let mut seen: usize = 0;
    proof {
        assert(v@.take(0int) =~= Seq::<CleanerEntry>::empty());
    }
    while i < len
        invariant
            i <= len,
            len == v@.len(),
            seen <= i,
            seen == spec_vis_cleaners(v@.take(i as int)),
        decreases len - i,
    {
        proof {
            assert(v@.take(i as int + 1).drop_last() =~= v@.take(i as int));
            assert(v@.take(i as int + 1).last() == v@[i as int]);
        }
        if v[i].visible {
            seen = seen + 1;
        }
        i = i + 1;
    }
    proof {
        assert(v@.take(len as int) =~= v@);
    }
    seen
}

/// Main interactive application state.  The front-end renders it and
/// hands every decision here.
#[derive(Debug)]
pub struct App {
    /// Current screen/state.
    pub state: AppState,
    /// Selected scan mode.
    pub scan_mode: ScanMode,
    /// Menu selection index (for ready screen).
    pub menu_index: usize,
    /// Projects to display.
    pub projects: Vec<ProjectEntry>,
    /// Caches to display.
    pub caches: Vec<CacheEntry>,
    /// Cleaner items to display.
    pub cleaners: Vec<CleanerEntry>,
    /// Currently selected index among the visible entries.
    pub selected: usize,
    /// Scroll offset for the list.
    pub scroll_offset: usize,
    /// Expanded project indices.
    pub expanded: Vec<usize>,
    /// Status line, as a structured note.
    pub status_message: Option<StatusNote>,
    /// Should quit.
    pub should_quit: bool,
    /// Show help popup.
    pub show_help: bool,
    /// Current tab/category.
    pub current_tab: usize,
    /// Available tabs.
    pub tabs: Vec<String>,
    /// Search query, one character per key press.
    pub search_query: Vec<char>,
    /// Is searching.
    pub is_searching: bool,
    /// Scan paths.
    pub scan_paths: Vec<String>,
    /// Scan progress message.
    pub scan_message: String,
    /// Directories scanned.
    pub dirs_scanned: u64,
    /// Total size found.
    pub total_size: u64,
    /// Animation frame counter.
    pub anim_frame: usize,
}

impl App {
    /// The tab table is well formed: at least one tab, and the cursor on
    /// one of them.
    pub open spec fn tabs_ok(self) -> bool {
        self.tabs@.len() > 0 && (self.current_tab as int) < self.tabs@.len()
    }

    /// How many entries the current screen lists.
    pub open spec fn spec_item_count(self) -> int {
        match self.state {
            AppState::Results => spec_vis_projects(self.projects@),
            AppState::CacheResults => spec_vis_caches(self.caches@),
            AppState::CleanerResults => spec_vis_cleaners(self.cleaners@),
            _ => 0,
        }
    }

    /// Create a new app with scan paths.
    pub fn new(paths: Vec<String>) -> (r: Self)
        ensures
            r.state == AppState::Ready,
            r.scan_mode == ScanMode::All,
            r.menu_index == 0,
            r.projects@.len() == 0,
            r.caches@.len() == 0,
            r.cleaners@.len() == 0,
            r.selected == 0,
            r.scroll_offset == 0,
            r.expanded@.len() == 0,
            r.status_message matches Some(StatusNote::SelectScanPrompt),
            !r.should_quit,
            !r.show_help,
            r.current_tab == 0,
            r.tabs_ok(),
            r.tabs@.len() == 6,
            r.search_query@.len() == 0,
            !r.is_searching,
            r.scan_paths == paths,
            r.dirs_scanned == 0,
            r.total_size == 0,
            r.anim_frame == 0,
    {
        let tabs: Vec<String> = vec![
            "All".to_owned(),
            "Node".to_owned(),
            "Rust".to_owned(),
            "Python".to_owned(),
            "Java".to_owned(),
            "Other".to_owned(),
        ];
        App {
            state: AppState::Ready,
            scan_mode: ScanMode::All,
            menu_index: 0,
            projects: Vec::new(),
            caches: Vec::new(),
            cleaners: Vec::new(),
            selected: 0,
            scroll_offset: 0,
            expanded: Vec::new(),
            status_message: Some(StatusNote::SelectScanPrompt),
            should_quit: false,
            show_help: false,
            current_tab: 0,
            tabs,
            search_query: Vec::new(),
            is_searching: false,
            scan_paths: paths,
            scan_message: String::new(),
            dirs_scanned: 0,
            total_size: 0,
            anim_frame: 0,
        }
    }

    /// Move menu selection up, wrapping at the top.
    pub fn menu_up(&mut self)
        requires
            old(self).menu_index <= 6,
        ensures
            final(self).menu_index == if old(self).menu_index > 0 {
                old(self).menu_index - 1
            } else {
                6int
            },
            final(self).scan_mode == spec_mode_at(final(self).menu_index as int),
            *final(self) == (App {
                menu_index: final(self).menu_index,
                scan_mode: final(self).scan_mode,
                ..*old(self)
            }),
    {
        let modes = ScanMode::all_modes();
        if self.menu_index > 0 {
            self.menu_index = self.menu_index - 1;
        } else {
            self.menu_index = modes.len() - 1;
        }
        self.scan_mode = modes[self.menu_index];
    }

    /// Move menu selection down, wrapping at the bottom.
    pub fn menu_down(&mut self)
        requires
            old(self).menu_index <= 6,
        ensures
            final(self).menu_index == if old(self).menu_index < 6 {
                old(self).menu_index + 1
            } else {
                0int
            },
            final(self).scan_mode == spec_mode_at(final(self).menu_index as int),
            *final(self) == (App {
                menu_index: final(self).menu_index,
                scan_mode: final(self).scan_mode,
                ..*old(self)
            }),
    {
        let modes = ScanMode::all_modes();
        if self.menu_index < modes.len() - 1 {
            self.menu_index = self.menu_index + 1;
        } else {
            self.menu_index = 0;
        }
        self.scan_mode = modes[self.menu_index];
    }

    /// Reset the state for a scan that is about to start.  Spawning the
    /// workers and wiring the channel is the caller's part.
    pub fn begin_scan(&mut self)
        ensures
            *final(self) == (App {
                state: AppState::Scanning,
                projects: final(self).projects,
                caches: final(self).caches,
                cleaners: final(self).cleaners,
                scan_message: final(self).scan_message,
                dirs_scanned: 0,
                anim_frame: 0,
                selected: 0,
                scroll_offset: 0,
                ..*old(self)
            }),
            final(self).projects@.len() == 0,
            final(self).caches@.len() == 0,
            final(self).cleaners@.len() == 0,
    {
        self.state = AppState::Scanning;
        self.projects = Vec::new();
        self.caches = Vec::new();
        self.cleaners = Vec::new();
        self.scan_message = "Initializing ".to_owned().concat(self.scan_mode.name()).concat(
            " scan...",
        );
        self.dirs_scanned = 0;
        self.anim_frame = 0;
        self.selected = 0;
        self.scroll_offset = 0;
    }

    /// Advance the animation counter by one frame, wrapping around.
    pub fn tick_animation(&mut self)
        ensures
            *final(self) == (App { anim_frame: final(self).anim_frame, ..*old(self) }),
    {
        if self.anim_frame < usize::MAX {
            self.anim_frame = self.anim_frame + 1;
        } else {
            self.anim_frame = 0;
        }
    }

    /// Fold one worker message into the state.
    pub fn apply_message(&mut self, msg: ScanMessage)
        ensures
            msg matches ScanMessage::Progress { dirs_scanned, message } ==> *final(self) == (App {
                dirs_scanned: dirs_scanned as u64,
                scan_message: message,
                ..*old(self)
            }),
            msg matches ScanMessage::CompleteProjects(res) ==> final(self).state
                == AppState::Results && spec_projects_sorted_desc(final(self).projects@)
                && final(self).projects@.len() == res.projects@.len()
                && final(self).projects@.to_multiset() == spec_fresh_entries(
                res.projects@,
            ).to_multiset(),
            msg matches ScanMessage::CompleteCaches(c) ==> final(self).state
                == AppState::CacheResults && spec_caches_sorted_desc(final(self).caches@)
                && final(self).caches@.to_multiset() == c@.to_multiset()
                && final(self).caches@.len() == c@.len(),
            msg matches ScanMessage::CompleteCleaners(c) ==> final(self).state
                == AppState::CleanerResults && spec_cleaners_sorted_desc(final(self).cleaners@)
                && final(self).cleaners@.to_multiset() == c@.to_multiset()
                && final(self).cleaners@.len() == c@.len(),
            msg matches ScanMessage::Error(e) ==> final(self).state == AppState::Error(e),
    {
        match msg {
            ScanMessage::Progress { dirs_scanned, message } => {
                self.dirs_scanned = dirs_scanned as u64;
                self.scan_message = message;
            },
            ScanMessage::CompleteProjects(res) => {
                self.handle_project_scan_complete(res);
            },
            ScanMessage::CompleteCaches(caches) => {
                self.handle_cache_scan_complete(caches);
            },
            ScanMessage::CompleteCleaners(cleaners) => {
                self.handle_cleaner_scan_complete(cleaners);
            },
            ScanMessage::Error(err) => {
                self.status_message = Some(StatusNote::ErrorNote(err.clone()));
                self.state = AppState::Error(err);
            },
        }
    }

    /// Take a finished project scan: entries sorted by cleanable size,
    /// largest first, nothing selected, everything visible.
    fn handle_project_scan_complete(&mut self, scan_result: ScanResult)
        ensures
            final(self).state == AppState::Results,
            spec_projects_sorted_desc(final(self).projects@),
            final(self).projects@.len() == scan_result.projects@.len(),
            forall|i: int|
                0 <= i < final(self).projects@.len() ==> !(#[trigger] final(self).projects@[i]).selected
                    && final(self).projects@[i].visible,
            forall|i: int|
                0 <= i < final(self).projects@.len() ==> exists|j: int|
                    0 <= j < scan_result.projects@.len() && (#[trigger] final(self).projects@[i]).project
                        == scan_result.projects@[j],
            final(self).projects@.to_multiset() == spec_fresh_entries(
                scan_result.projects@,
            ).to_multiset(),
            final(self).total_size == scan_result.total_cleanable,
            final(self).dirs_scanned == scan_result.directories_scanned,
            final(self).selected == 0,
            final(self).scroll_offset == 0,
    {
        let mut source = scan_result.projects;
        let mut entries: Vec<ProjectEntry> = Vec::new();
        proof {
            broadcast use vstd::seq_lib::group_to_multiset_ensures;

            assert(spec_fresh_entries(source@).to_multiset() == spec_fresh_entries(
                scan_result.projects@,
            ).to_multiset());
            assert(entries@.to_multiset() =~= Multiset::<ProjectEntry>::empty());
            assert(entries@.to_multiset().add(spec_fresh_entries(source@).to_multiset())
                =~= spec_fresh_entries(scan_result.projects@).to_multiset());
        }
        while source.len() > 0
            invariant
                entries@.len() + source@.len() == scan_result.projects@.len(),
                source@ == scan_result.projects@.take(source@.len() as int),
                entries@.to_multiset().add(spec_fresh_entries(source@).to_multiset())
                    == spec_fresh_entries(scan_result.projects@).to_multiset(),
                forall|i: int|
                    0 <= i < entries@.len() ==> !(#[trigger] entries@[i]).selected
                        && entries@[i].visible,
                forall|i: int|
                    0 <= i < entries@.len() ==> exists|j: int|
                        0 <= j < scan_result.projects@.len() && (#[trigger] entries@[i]).project
                            == scan_result.projects@[j],
            decreases source@.len(),
        {
            let ghost slen = source@.len() as int;
            let p = match source.pop() {
                Some(p) => p,
                None => {
                    proof {
                        assert(false);
                    }
                    return ;
                },
            };
            proof {
                assert(p == scan_result.projects@.take(slen)[slen - 1]);
                assert(scan_result.projects@.take(slen)[slen - 1] == scan_result.projects@[slen
                    - 1]);
                assert(source@ =~= scan_result.projects@.take(slen - 1));
            }
            let ghost e0 = entries@;
            entries.push(ProjectEntry { project: p, selected: false, visible: true });
            proof {
                broadcast use vstd::seq_lib::group_to_multiset_ensures;

                let x = ProjectEntry { project: p, selected: false, visible: true };
                let so = scan_result.projects@.take(slen);
                assert(spec_fresh_entries(so).drop_last() =~= spec_fresh_entries(source@));
                assert(spec_fresh_entries(so).last() == x);
                assert(spec_fresh_entries(so) =~= spec_fresh_entries(source@).push(x));
                assert(spec_fresh_entries(so).to_multiset() == spec_fresh_entries(
                    source@,
                ).to_multiset().insert(x));
                assert(entries@ == e0.push(x));
                assert(entries@.to_multiset() == e0.to_multiset().insert(x));
                assert(entries@.to_multiset().add(spec_fresh_entries(source@).to_multiset())
                    =~= e0.to_multiset().add(spec_fresh_entries(so).to_multiset()));
                assert forall|i: int| 0 <= i < entries@.len() implies exists|j: int|
                    0 <= j < scan_result.projects@.len() && (#[trigger] entries@[i]).project
                        == scan_result.projects@[j] by {
                    if i < e0.len() {
                        assert(entries@[i] == e0[i]);
                    } else {
                        assert(entries@[i].project == scan_result.projects@[slen - 1]);
                    }
                }
            }
        }
        proof {
            broadcast use vstd::seq_lib::group_to_multiset_ensures;

            assert(spec_fresh_entries(source@) =~= Seq::<ProjectEntry>::empty());
            assert(spec_fresh_entries(source@).to_multiset() =~= Multiset::<ProjectEntry>::empty());
            assert(entries@.to_multiset().add(Multiset::<ProjectEntry>::empty())
                =~= entries@.to_multiset());
            assert(entries@.to_multiset() == spec_fresh_entries(
                scan_result.projects@,
            ).to_multiset());
        }
        let ghost built = entries@;
        let sorted = sort_projects_desc(entries);
        proof {
            broadcast use vstd::seq_lib::group_to_multiset_ensures;

            assert forall|i: int| 0 <= i < sorted@.len() implies !(#[trigger] sorted@[i]).selected
                && sorted@[i].visible && (exists|j: int|
                0 <= j < scan_result.projects@.len() && sorted@[i].project
                    == scan_result.projects@[j]) by {
                assert(sorted@.to_multiset().contains(sorted@[i])) by {
                    assert(sorted@.contains(sorted@[i]));
                }
                assert(built.to_multiset().contains(sorted@[i]));
                assert(built.contains(sorted@[i]));
                let j = choose|j: int| 0 <= j < built.len() && built[j] == sorted@[i];
                assert(!built[j].selected && built[j].visible);
            }
        }
        self.projects = sorted;
        self.total_size = scan_result.total_cleanable;
        self.dirs_scanned = scan_result.directories_scanned;
        self.state = AppState::Results;
        let count = count_visible_projects(&self.projects);
        self.status_message = Some(StatusNote::Found { count, size: self.total_size });
        self.selected = 0;
        self.scroll_offset = 0;
    }

    /// Take a finished cache scan: entries sorted by size, largest
    /// first.
    fn handle_cache_scan_complete(&mut self, caches: Vec<CacheEntry>)
        ensures
            final(self).state == AppState::CacheResults,
            spec_caches_sorted_desc(final(self).caches@),
            final(self).caches@.to_multiset() == caches@.to_multiset(),
            final(self).caches@.len() == caches@.len(),
            final(self).selected == 0,
            final(self).scroll_offset == 0,
    {
        let sorted = sort_caches_desc(caches);
        let mut total: u64 = 0;
        let n = sorted.len();
        let mut i: usize = 0;
        while i < n
            invariant
                i <= n,
                n == sorted@.len(),
            decreases n - i,
        {
            total = sat_add(total, sorted[i].size);
            i = i + 1;
        }
        self.caches = sorted;
        self.total_size = total;
        self.state = AppState::CacheResults;
        let count = count_visible_caches(&self.caches);
        self.status_message = Some(StatusNote::Found { count, size: self.total_size });
        self.selected = 0;
        self.scroll_offset = 0;
    }

    /// Take a finished cleaner scan: entries sorted by size, largest
    /// first.
    fn handle_cleaner_scan_complete(&mut self, cleaners: Vec<CleanerEntry>)
        ensures
            final(self).state == AppState::CleanerResults,
            spec_cleaners_sorted_desc(final(self).cleaners@),
            final(self).cleaners@.to_multiset() == cleaners@.to_multiset(),
            final(self).cleaners@.len() == cleaners@.len(),
            final(self).selected == 0,
            final(self).scroll_offset == 0,
    {
        let sorted = sort_cleaners_desc(cleaners);
        let mut total: u64 = 0;
        let n = sorted.len();
        let mut i: usize = 0;
        while i < n
            invariant
                i <= n,
                n == sorted@.len(),
            decreases n - i,
        {
            total = sat_add(total, sorted[i].size);
            i = i + 1;
        }
        self.cleaners = sorted;
        self.total_size = total;
        self.state = AppState::CleanerResults;
        let count = count_visible_cleaners(&self.cleaners);
        self.status_message = Some(StatusNote::Found { count, size: self.total_size });
        self.selected = 0;
        self.scroll_offset = 0;
    }

    /// Get total item count based on current state.
    fn item_count(&self) -> (r: usize)
        ensures
            r == self.spec_item_count(),
    {
        match &self.state {
            AppState::Results => count_visible_projects(&self.projects),
            AppState::CacheResults => count_visible_caches(&self.caches),
            AppState::CleanerResults => count_visible_cleaners(&self.cleaners),
            _ => 0,
        }
    }

    /// Move selection up, wrapping at the top.
    pub fn select_up(&mut self)
        ensures
            final(self).selected == if old(self).spec_item_count() == 0 {
                old(self).selected as int
            } else if old(self).selected > 0 {
                old(self).selected - 1
            } else {
                old(self).spec_item_count() - 1
            },
            *final(self) == (App { selected: final(self).selected, ..*old(self) }),
    {
        let count = self.item_count();
        if count == 0 {
            return ;
        }
        if self.selected > 0 {
            self.selected = self.selected - 1;
        } else {
            self.selected = count - 1;
        }
    }

    /// Move selection down, wrapping at the bottom.
    pub fn select_down(&mut self)
        ensures
            final(self).selected == if old(self).spec_item_count() == 0 {
                old(self).selected as int
            } else if (old(self).selected as int) < old(self).spec_item_count() - 1 {
                old(self).selected + 1
            } else {
                0int
            },
            *final(self) == (App { selected: final(self).selected, ..*old(self) }),
    {
        let count = self.item_count();
        if count == 0 {
            return ;
        }
        if self.selected < count - 1 {
            self.selected = self.selected + 1;
        } else {
            self.selected = 0;
        }
    }

    /// Page up by `page_size` entries.
    pub fn page_up(&mut self, page_size: usize)
        ensures
            final(self).selected == if old(self).selected >= page_size {
                old(self).selected - page_size
            } else {
                0int
            },
            *final(self) == (App { selected: final(self).selected, ..*old(self) }),
    {
        if self.selected >= page_size {
            self.selected = self.selected - page_size;
        } else {
            self.selected = 0;
        }
    }

    /// Page down by `page_size` entries.
    pub fn page_down(&mut self, page_size: usize)
        ensures
            final(self).selected == if old(self).spec_item_count() == 0 {
                old(self).selected as int
            } else if old(self).selected + page_size < old(self).spec_item_count() {
                old(self).selected + page_size
            } else {
                old(self).spec_item_count() - 1
            },
            *final(self) == (App { selected: final(self).selected, ..*old(self) }),
    {
        let count = self.item_count();
        if count == 0 {
            return ;
        }
        if self.selected <= usize::MAX - page_size && self.selected + page_size < count {
            self.selected = self.selected + page_size;
        } else {
            self.selected = count - 1;
        }
    }

    /// Go to the first entry.
    pub fn go_top(&mut self)
        ensures
            *final(self) == (App { selected: 0, scroll_offset: 0, ..*old(self) }),
    {
        self.selected = 0;
        self.scroll_offset = 0;
    }

    /// Go to the last entry.
    pub fn go_bottom(&mut self)
        ensures
            final(self).selected == if old(self).spec_item_count() > 0 {
                old(self).spec_item_count() - 1
            } else {
                old(self).selected as int
            },
            *final(self) == (App { selected: final(self).selected, ..*old(self) }),
    {
        let count = self.item_count();
        if count > 0 {
            self.selected = count - 1;
        }
    }

    /// Keep the selected entry inside a viewport of the given height.
    pub fn ensure_visible_with_height(&mut self, viewport_height: usize)
        ensures
            final(self).scroll_offset == if viewport_height == 0 {
                old(self).scroll_offset as int
            } else if old(self).selected < old(self).scroll_offset {
                old(self).selected as int
            } else if old(self).selected >= old(self).scroll_offset + viewport_height {
                old(self).selected - viewport_height + 1
            } else {
                old(self).scroll_offset as int
            },
            *final(self) == (App { scroll_offset: final(self).scroll_offset, ..*old(self) }),
    {
        if viewport_height == 0 {
            return ;
        }
        if self.selected < self.scroll_offset {
            self.scroll_offset = self.selected;
        } else if self.scroll_offset <= usize::MAX - viewport_height && self.selected
            >= self.scroll_offset + viewport_height {
            self.scroll_offset = self.selected - viewport_height + 1;
        }
    }

    /// Scroll up by one entry, dragging the selection along.
    pub fn scroll_up(&mut self)
        ensures
            *final(self) == (App {
                scroll_offset: final(self).scroll_offset,
                selected: final(self).selected,
                ..*old(self)
            }),
    {
        if self.scroll_offset > 0 {
            self.scroll_offset = self.scroll_offset - 1;
            if self.scroll_offset <= usize::MAX - 20 && self.selected > self.scroll_offset + 20 {
                self.selected = self.scroll_offset + 20;
            }
        }
    }

    /// Scroll down by one entry, dragging the selection along.
    pub fn scroll_down(&mut self)
        ensures
            *final(self) == (App {
                scroll_offset: final(self).scroll_offset,
                selected: final(self).selected,
                ..*old(self)
            }),
    {
        let count = self.item_count();
        if count > 0 && self.scroll_offset < count - 1 {
            self.scroll_offset = self.scroll_offset + 1;
            if self.selected < self.scroll_offset {
                self.selected = self.scroll_offset;
            }
        }
    }

    /// Toggle the help popup.
    pub fn toggle_help(&mut self)
        ensures
            *final(self) == (App { show_help: !old(self).show_help, ..*old(self) }),
    {
        self.show_help = !self.show_help;
    }

    /// Enter search mode with an empty query.
    pub fn start_search(&mut self)
        ensures
            final(self).search_query@.len() == 0,
            *final(self) == (App {
                is_searching: true,
                search_query: final(self).search_query,
                ..*old(self)
            }),
    {
        self.is_searching = true;
        self.search_query = Vec::new();
    }

    /// Leave search mode, keeping the query as the filter.
    pub fn end_search(&mut self)
        ensures
            *final(self) == (App { is_searching: false, ..*old(self) }),
    {
        self.is_searching = false;
    }

    /// Get the number of visible project entries.
    pub fn visible_count(&self) -> (r: usize)
        ensures
            r == spec_vis_projects(self.projects@),
    {
        count_visible_projects(&self.projects)
    }

    /// Get the visible project entries, in display order.
    pub fn visible_projects(&self) -> (r: Vec<&ProjectEntry>)
        ensures
            r@.len() == spec_vis_projects(self.projects@),
            forall|i: int| 0 <= i < r@.len() ==> (#[trigger] r@[i]).visible,
    {
        let len = self.projects.len();
        let mut r: Vec<&ProjectEntry> = Vec::new();
        let mut i: usize = 0;
        proof {
            assert(self.projects@.take(0int) =~= Seq::<ProjectEntry>::empty());
        }
        while i < len
            invariant
                i <= len,
                len == self.projects@.len(),
                r@.len() == spec_vis_projects(self.projects@.take(i as int)),
                forall|j: int| 0 <= j < r@.len() ==> (#[trigger] r@[j]).visible,
            decreases len - i,
        {
            proof {
                assert(self.projects@.take(i as int + 1).drop_last() =~= self.projects@.take(
                    i as int,
                ));
                assert(self.projects@.take(i as int + 1).last() == self.projects@[i as int]);
            }
            if self.projects[i].visible {
                r.push(&self.projects[i]);
            }
            i = i + 1;
        }
        proof {
            assert(self.projects@.take(len as int) =~= self.projects@);
        }
        r
    }

    /// Get the selected project entries.
    pub fn selected_projects(&self) -> (r: Vec<&ProjectEntry>)
        ensures
            r@.len() == spec_sel_projects(self.projects@),
            forall|i: int| 0 <= i < r@.len() ==> (#[trigger] r@[i]).selected,
    {
        let len = self.projects.len();
        let mut r: Vec<&ProjectEntry> = Vec::new();
        let mut i: usize = 0;
        proof {
            assert(self.projects@.take(0int) =~= Seq::<ProjectEntry>::empty());
        }
        while i < len
            invariant
                i <= len,
                len == self.projects@.len(),
                r@.len() == spec_sel_projects(self.projects@.take(i as int)),
                forall|j: int| 0 <= j < r@.len() ==> (#[trigger] r@[j]).selected,
            decreases len - i,
        {
            proof {
                assert(self.projects@.take(i as int + 1).drop_last() =~= self.projects@.take(
                    i as int,
                ));
                assert(self.projects@.take(i as int + 1).last() == self.projects@[i as int]);
            }
            if self.projects[i].selected {
                r.push(&self.projects[i]);
            }
            i = i + 1;
        }
        proof {
            assert(self.projects@.take(len as int) =~= self.projects@);
        }
        r
    }

    /// Get the currently selected visible project, if any.
    pub fn current_project(&self) -> (r: Option<&ProjectEntry>)
        ensures
            r matches Some(e) ==> exists|ix: int|
                0 <= ix < self.projects@.len() && *e == self.projects@[ix]
                    && self.projects@[ix].visible,
    {
        match nth_visible_project(&self.projects, self.selected) {
            Some(ix) => {
                proof {
                    let ixi = ix as int;
                    assert(0 <= ixi < self.projects@.len() && self.projects@[ixi]
                        == self.projects@[ixi] && self.projects@[ixi].visible);
                }
                Some(&self.projects[ix])
            },
            None => None,
        }
    }

    /// Is the project at this visible position expanded?
    pub fn is_expanded(&self, visible_index: usize) -> (r: bool)
        ensures
            r ==> exists|ix: int|
                0 <= ix < self.projects@.len() && self.projects@[ix].visible
                    && spec_vis_projects(self.projects@.take(ix)) == visible_index
                    && self.expanded@.contains(ix as usize),
    {
        match nth_visible_project(&self.projects, visible_index) {
            Some(ix) => {
                let c = contains_usize(&self.expanded, ix);
                proof {
                    if c {
                        let ixi = ix as int;
                        assert(0 <= ixi < self.projects@.len() && self.projects@[ixi].visible
                            && spec_vis_projects(self.projects@.take(ixi)) == visible_index
                            && self.expanded@.contains(ixi as usize));
                    }
                }
                c
            },
            None => false,
        }
    }

    /// Expand the currently selected project.
    pub fn expand(&mut self)
        ensures
            *final(self) == (App { expanded: final(self).expanded, ..*old(self) }),
    {
        match nth_visible_project(&self.projects, self.selected) {
            Some(ix) => {
                if !contains_usize(&self.expanded, ix) {
                    self.expanded.push(ix);
                }
            },
            None => {},
        }
    }

    /// Collapse the currently selected project.
    pub fn collapse(&mut self)
        ensures
            *final(self) == (App { expanded: final(self).expanded, ..*old(self) }),
    {
        match nth_visible_project(&self.projects, self.selected) {
            Some(ix) => {
                remove_usize(&mut self.expanded, ix);
            },
            None => {},
        }
    }

    /// Toggle the expanded state of the currently selected project.
    pub fn toggle_expand(&mut self)
        ensures
            *final(self) == (App { expanded: final(self).expanded, ..*old(self) }),
    {
        match nth_visible_project(&self.projects, self.selected) {
            Some(ix) => {
                if contains_usize(&self.expanded, ix) {
                    remove_usize(&mut self.expanded, ix);
                } else {
                    self.expanded.push(ix);
                }
            },
            None => {},
        }
    }
}

/// Sum of the cleanable sizes of the selected project entries.
pub open spec fn spec_sel_size_projects(s: Seq<ProjectEntry>) -> int
    decreases s.len(),
{
    if s.len() == 0 {
        0
    } else {
        spec_sel_size_projects(s.drop_last()) + if s.last().selected {
            s.last().project.cleanable_size as int
        } else {
            0
        }
    }
}

/// Sum of the sizes of the selected cache entries.
pub open spec fn spec_sel_size_caches(s: Seq<CacheEntry>) -> int
    decreases s.len(),
{
    if s.len() == 0 {
        0
    } else {
        spec_sel_size_caches(s.drop_last()) + if s.last().selected {
            s.last().size as int
        } else {
            0
        }
    }
}

/// Sum of the sizes of the selected cleaner entries.
pub open spec fn spec_sel_size_cleaners(s: Seq<CleanerEntry>) -> int
    decreases s.len(),
{
    if s.len() == 0 {
        0
    } else {
        spec_sel_size_cleaners(s.drop_last()) + if s.last().selected {
            s.last().size as int
        } else {
            0
        }
    }
}

/// Which kinds one tab shows.
pub open spec fn spec_tab_allows(tab: Seq<char>, kind: crate::kind::ProjectKind) -> bool {
    if tab == "All"@ {
        true
    } else if tab == "Node"@ {
        kind.spec_is_node()
    } else if tab == "Rust"@ {
        kind is Rust
    } else if tab == "Python"@ {
        kind.spec_is_python()
    } else if tab == "Java"@ {
        kind.spec_is_java()
    } else if tab == "Other"@ {
        !kind.spec_is_node() && !(kind is Rust) && !kind.spec_is_python() && !kind.spec_is_java()
    } else {
        true
    }
}

/// Whether one entry passes the tab and search filters.
pub open spec fn spec_entry_visible(e: ProjectEntry, tab: Seq<char>, q: Seq<char>) -> bool {
    spec_tab_allows(tab, e.project.kind) && (q.len() == 0 || crate::text::spec_contains_ci(
        e.project.name@,
        q,
    ) || crate::text::spec_contains_ci(e.project.root@, q))
}

/// The artifact paths of one project, in order.
pub open spec fn spec_artifact_paths(arts: Seq<crate::project::Artifact>) -> Seq<Seq<char>>
    decreases arts.len(),
{
    if arts.len() == 0 {
        Seq::empty()
    } else {
        spec_artifact_paths(arts.drop_last()).push(arts.last().path@)
    }
}

/// The artifact paths of the selected project entries, in order.
pub open spec fn spec_sel_project_paths(s: Seq<ProjectEntry>) -> Seq<Seq<char>>
    decreases s.len(),
{
    if s.len() == 0 {
        Seq::empty()
    } else {
        spec_sel_project_paths(s.drop_last()) + if s.last().selected {
            spec_artifact_paths(s.last().project.artifacts@)
        } else {
            Seq::empty()
        }
    }
}

/// The paths of the selected cache entries, in order.
pub open spec fn spec_sel_cache_paths(s: Seq<CacheEntry>) -> Seq<Seq<char>>
    decreases s.len(),
{
    if s.len() == 0 {
        Seq::empty()
    } else {
        spec_sel_cache_paths(s.drop_last()) + if s.last().selected {
            seq![s.last().path@]
        } else {
            Seq::empty()
        }
    }
}

/// The paths of the selected cleaner entries, in order.
pub open spec fn spec_sel_cleaner_paths(s: Seq<CleanerEntry>) -> Seq<Seq<char>>
    decreases s.len(),
{
    if s.len() == 0 {
        Seq::empty()
    } else {
        spec_sel_cleaner_paths(s.drop_last()) + if s.last().selected {
            seq![s.last().path@]
        } else {
            Seq::empty()
        }
    }
}

/// The unselected project entries, in order.
pub open spec fn spec_keep_projects(s: Seq<ProjectEntry>) -> Seq<ProjectEntry>
    decreases s.len(),
{
    if s.len() == 0 {
        Seq::empty()
    } else {
        spec_keep_projects(s.drop_last()) + if !s.last().selected {
            seq![s.last()]
        } else {
            Seq::empty()
        }
    }
}

/// The unselected cache entries, in order.
pub open spec fn spec_keep_caches(s: Seq<CacheEntry>) -> Seq<CacheEntry>
    decreases s.len(),
{
    if s.len() == 0 {
        Seq::empty()
    } else {
        spec_keep_caches(s.drop_last()) + if !s.last().selected {
            seq![s.last()]
        } else {
            Seq::empty()
        }
    }
}

/// The unselected cleaner entries, in order.
pub open spec fn spec_keep_cleaners(s: Seq<CleanerEntry>) -> Seq<CleanerEntry>
    decreases s.len(),
{
    if s.len() == 0 {
        Seq::empty()
    } else {
        spec_keep_cleaners(s.drop_last()) + if !s.last().selected {
            seq![s.last()]
        } else {
            Seq::empty()
        }
    }
}

/// Add two counts, saturating at the machine limit.
fn sat_add_usize(a: usize, b: usize) -> (r: usize)
    ensures
        r == if a + b <= usize::MAX as int {
            a + b
        } else {
            usize::MAX as int
        },
{
    if a <= usize::MAX - b {
        a + b
    } else {
        usize::MAX
    }
}

/// Count the selected project entries.
#[verifier::loop_isolation(false)]
fn count_selected_projects(v: &Vec<ProjectEntry>) -> (r: usize)
    ensures
        r == spec_sel_projects(v@),
{
    let len = v.len();
    let mut i: usize = 0;
    let mut seen: usize = 0;
    proof {
        assert(v@.take(0int) =~= Seq::<ProjectEntry>::empty());
    }
    while i < len
        invariant
            i <= len,
            len == v@.len(),
            seen <= i,
            seen == spec_sel_projects(v@.take(i as int)),
        decreases len - i,
    {
        proof {
            assert(v@.take(i as int + 1).drop_last() =~= v@.take(i as int));
            assert(v@.take(i as int + 1).last() == v@[i as int]);
        }
        if v[i].selected {
            seen = seen + 1;
        }
        i = i + 1;
    }
    proof {
        assert(v@.take(len as int) =~= v@);
    }
    seen
}

/// Count the selected cache entries.
#[verifier::loop_isolation(false)]
fn count_selected_caches(v: &Vec<CacheEntry>) -> (r: usize)
    ensures
        r == spec_sel_caches(v@),
{
    let len = v.len();
    let mut i: usize = 0;
    let mut seen: usize = 0;
    proof {
        assert(v@.take(0int) =~= Seq::<CacheEntry>::empty());
    }
    while i < len
        invariant
            i <= len,
            len == v@.len(),
            seen <= i,
            seen == spec_sel_caches(v@.take(i as int)),
        decreases len - i,
    {
        proof {
            assert(v@.take(i as int + 1).drop_last() =~= v@.take(i as int));
            assert(v@.take(i as int + 1).last() == v@[i as int]);
        }
        if v[i].selected {
            seen = seen + 1;
        }
        i = i + 1;
    }
    proof {
        assert(v@.take(len as int) =~= v@);
    }
    seen
}

/// Count the selected cleaner entries.
#[verifier::loop_isolation(false)]
fn count_selected_cleaners(v: &Vec<CleanerEntry>) -> (r: usize)
    ensures
        r == spec_sel_cleaners(v@),
{
    let len = v.len();
    let mut i: usize = 0;
    let mut seen: usize = 0;
    proof {
        assert(v@.take(0int) =~= Seq::<CleanerEntry>::empty());
    }
    while i < len
        invariant
            i <= len,
            len == v@.len(),
            seen <= i,
            seen == spec_sel_cleaners(v@.take(i as int)),
        decreases len - i,
    {
        proof {
            assert(v@.take(i as int + 1).drop_last() =~= v@.take(i as int));
            assert(v@.take(i as int + 1).last() == v@[i as int]);
        }
        if v[i].selected {
            seen = seen + 1;
        }
        i = i + 1;
    }
    proof {
        assert(v@.take(len as int) =~= v@);
    }
    seen
}

impl App {
    /// Total bytes selected for deletion, across all three lists.
    pub open spec fn spec_selected_size(self) -> int {
        spec_sel_size_projects(self.projects@) + spec_sel_size_caches(self.caches@)
            + spec_sel_size_cleaners(self.cleaners@)
    }

    /// How many entries are selected for deletion, across all three
    /// lists.
    pub open spec fn spec_selected_count(self) -> int {
        spec_sel_projects(self.projects@) + spec_sel_caches(self.caches@) + spec_sel_cleaners(
            self.cleaners@,
        )
    }

    /// Get the total selected size, saturated at u64::MAX.
    #[verifier::loop_isolation(false)]
    pub fn selected_size(&self) -> (r: u64)
        ensures
            r == if self.spec_selected_size() <= u64::MAX as int {
                self.spec_selected_size()
            } else {
                u64::MAX as int
            },
    {
        let mut total: u64 = 0;
        let n = self.projects.len();
        let mut i: usize = 0;
        proof {
            assert(self.projects@.take(0int) =~= Seq::<ProjectEntry>::empty());
        }
        while i < n
            invariant
                i <= n,
                n == self.projects@.len(),
                total == if spec_sel_size_projects(self.projects@.take(i as int)) <= u64::MAX as int {
                    spec_sel_size_projects(self.projects@.take(i as int))
                } else {
                    u64::MAX as int
                },
            decreases n - i,
        {
            proof {
                assert(self.projects@.take(i as int + 1).drop_last() =~= self.projects@.take(
                    i as int,
                ));
                assert(self.projects@.take(i as int + 1).last() == self.projects@[i as int]);
            }
            if self.projects[i].selected {
                total = sat_add(total, self.projects[i].project.cleanable_size);
            }
            i = i + 1;
        }
        proof {
            assert(self.projects@.take(n as int) =~= self.projects@);
        }
        let cn = self.caches.len();
        let mut j: usize = 0;
        proof {
            assert(self.caches@.take(0int) =~= Seq::<CacheEntry>::empty());
        }
        while j < cn
            invariant
                j <= cn,
                cn == self.caches@.len(),
                total == if spec_sel_size_projects(self.projects@) + spec_sel_size_caches(
                    self.caches@.take(j as int),
                ) <= u64::MAX as int {
                    spec_sel_size_projects(self.projects@) + spec_sel_size_caches(
                        self.caches@.take(j as int),
                    )
                } else {
                    u64::MAX as int
                },
            decreases cn - j,
        {
            proof {
                assert(self.caches@.take(j as int + 1).drop_last() =~= self.caches@.take(
                    j as int,
                ));
                assert(self.caches@.take(j as int + 1).last() == self.caches@[j as int]);
            }
            if self.caches[j].selected {
                total = sat_add(total, self.caches[j].size);
            }
            j = j + 1;
        }
        proof {
            assert(self.caches@.take(cn as int) =~= self.caches@);
        }
        let ln = self.cleaners.len();
        let mut k: usize = 0;
        proof {
            assert(self.cleaners@.take(0int) =~= Seq::<CleanerEntry>::empty());
        }
        while k < ln
            invariant
                k <= ln,
                ln == self.cleaners@.len(),
                total == if spec_sel_size_projects(self.projects@) + spec_sel_size_caches(
                    self.caches@,
                ) + spec_sel_size_cleaners(self.cleaners@.take(k as int)) <= u64::MAX as int {
                    spec_sel_size_projects(self.projects@) + spec_sel_size_caches(self.caches@)
                        + spec_sel_size_cleaners(self.cleaners@.take(k as int))
                } else {
                    u64::MAX as int
                },
            decreases ln - k,
        {
            proof {
                assert(self.cleaners@.take(k as int + 1).drop_last() =~= self.cleaners@.take(
                    k as int,
                ));
                assert(self.cleaners@.take(k as int + 1).last() == self.cleaners@[k as int]);
            }
            if self.cleaners[k].selected {
                total = sat_add(total, self.cleaners[k].size);
            }
            k = k + 1;
        }
        proof {
            assert(self.cleaners@.take(ln as int) =~= self.cleaners@);
        }
        total
    }

    /// Get the number of selected entries, saturated at the machine
    /// limit.
    pub fn selected_count(&self) -> (r: usize)
        ensures
            r == if self.spec_selected_count() <= usize::MAX as int {
                self.spec_selected_count()
            } else {
                usize::MAX as int
            },
    {
        let p = count_selected_projects(&self.projects);
        let c = count_selected_caches(&self.caches);
        let l = count_selected_cleaners(&self.cleaners);
        sat_add_usize(sat_add_usize(p, c), l)
    }

    /// Refresh the status line from the current selection.
    fn update_status(&mut self)
        ensures
            *final(self) == (App { status_message: final(self).status_message, ..*old(self) }),
            old(self).spec_selected_count() > 0 ==> final(self).status_message matches Some(
                StatusNote::Selected { count, size },
            ),
            old(self).spec_selected_count() == 0 ==> final(self).status_message matches Some(
                StatusNote::Found { count, size },
            ),
    {
        let selected = self.selected_count();
        if selected > 0 {
            let size = self.selected_size();
            self.status_message = Some(StatusNote::Selected { count: selected, size });
        } else {
            let count = self.item_count();
            self.status_message = Some(
                StatusNote::Found { count, size: self.total_size },
            );
        }
    }

    /// Toggle selection of the current entry of the current screen: on a
    /// results screen the entry the cursor points at flips its selected
    /// flag (a no-op where the cursor points past the list), the two
    /// inactive lists keep every flag, and on any other screen only the
    /// status message changes.
    pub fn toggle_select(&mut self)
        ensures
            final(self).projects@.len() == old(self).projects@.len(),
            final(self).caches@.len() == old(self).caches@.len(),
            final(self).cleaners@.len() == old(self).cleaners@.len(),
            final(self).state == old(self).state,
            old(self).state == AppState::Results ==> {
                &&& *final(self) == (App {
                    projects: final(self).projects,
                    status_message: final(self).status_message,
                    ..*old(self)
                })
                &&& ((old(self).selected as int) < spec_vis_projects(old(self).projects@)
                    ==> (exists|ix: int|
                    0 <= ix < old(self).projects@.len() && old(self).projects@[ix].visible
                        && spec_vis_projects(old(self).projects@.take(ix)) == old(
                        self,
                    ).selected as int && final(self).projects@ == old(self).projects@.update(
                        ix,
                        (ProjectEntry {
                            selected: !old(self).projects@[ix].selected,
                            ..old(self).projects@[ix]
                        }),
                    )))
                &&& ((old(self).selected as int) >= spec_vis_projects(old(self).projects@)
                    ==> final(self).projects == old(self).projects)
            },
            old(self).state == AppState::CacheResults ==> {
                &&& *final(self) == (App {
                    caches: final(self).caches,
                    status_message: final(self).status_message,
                    ..*old(self)
                })
                &&& ((old(self).selected as int) < old(self).caches@.len() ==> final(self).caches@
                    == old(self).caches@.update(
                    old(self).selected as int,
                    (CacheEntry {
                        selected: !old(self).caches@[old(self).selected as int].selected,
                        ..old(self).caches@[old(self).selected as int]
                    }),
                ))
                &&& ((old(self).selected as int) >= old(self).caches@.len() ==> final(self).caches
                    == old(self).caches)
            },
            old(self).state == AppState::CleanerResults ==> {
                &&& *final(self) == (App {
                    cleaners: final(self).cleaners,
                    status_message: final(self).status_message,
                    ..*old(self)
                })
                &&& ((old(self).selected as int) < old(self).cleaners@.len()
                    ==> final(self).cleaners@ == old(self).cleaners@.update(
                    old(self).selected as int,
                    (CleanerEntry {
                        selected: !old(self).cleaners@[old(self).selected as int].selected,
                        ..old(self).cleaners@[old(self).selected as int]
                    }),
                ))
                &&& ((old(self).selected as int) >= old(self).cleaners@.len()
                    ==> final(self).cleaners == old(self).cleaners)
            },
            !(old(self).state == AppState::Results || old(self).state == AppState::CacheResults
                || old(self).state == AppState::CleanerResults) ==> *final(self) == (App {
                status_message: final(self).status_message,
                ..*old(self)
            }),
    {
        match &self.state {
            AppState::Results => self.toggle_select_project(),
            AppState::CacheResults => self.toggle_select_cache(),
            AppState::CleanerResults => self.toggle_select_cleaner(),
            _ => {},
        }
        self.update_status();
    }

    /// Toggle selection of the current visible project entry: the entry
    /// the cursor points at flips, everything else stays.
    fn toggle_select_project(&mut self)
        ensures
            final(self).projects@.len() == old(self).projects@.len(),
            *final(self) == (App { projects: final(self).projects, ..*old(self) }),
            (old(self).selected as int) < spec_vis_projects(old(self).projects@) ==> (exists|ix: int|
                0 <= ix < old(self).projects@.len() && old(self).projects@[ix].visible
                    && spec_vis_projects(old(self).projects@.take(ix)) == old(self).selected as int
                    && final(self).projects@ == old(self).projects@.update(
                    ix,
                    (ProjectEntry {
                        selected: !old(self).projects@[ix].selected,
                        ..old(self).projects@[ix]
                    }),
                )),
            (old(self).selected as int) >= spec_vis_projects(old(self).projects@)
                ==> final(self).projects == old(self).projects,
    {
        match nth_visible_project(&self.projects, self.selected) {
            Some(ix) => {
                proof {
                    lemma_vis_projects_prefix(self.projects@, ix as int + 1);
                    assert(self.projects@.take(ix as int + 1).drop_last() =~= self.projects@.take(
                        ix as int,
                    ));
                    assert(self.projects@.take(ix as int + 1).last() == self.projects@[ix as int]);
                    assert(spec_vis_projects(self.projects@.take(ix as int + 1))
                        == self.selected as int + 1);
                }
                let cur = self.projects[ix].selected;
                self.projects[ix].selected = !cur;
                proof {
                    let ixi = ix as int;
                    assert(0 <= ixi < old(self).projects@.len() && old(
                        self,
                    ).projects@[ixi].visible && spec_vis_projects(old(self).projects@.take(ixi))
                        == old(self).selected as int && self.projects@ == old(
                        self,
                    ).projects@.update(
                        ixi,
                        (ProjectEntry {
                            selected: !old(self).projects@[ixi].selected,
                            ..old(self).projects@[ixi]
                        }),
                    ));
                }
            },
            None => {},
        }
    }

    /// Toggle selection of the current cache entry.
    fn toggle_select_cache(&mut self)
        ensures
            final(self).caches@.len() == old(self).caches@.len(),
            *final(self) == (App { caches: final(self).caches, ..*old(self) }),
            (old(self).selected as int) < old(self).caches@.len() ==> final(self).caches@ == old(
                self,
            ).caches@.update(
                old(self).selected as int,
                (CacheEntry {
                    selected: !old(self).caches@[old(self).selected as int].selected,
                    ..old(self).caches@[old(self).selected as int]
                }),
            ),
            old(self).selected as int >= old(self).caches@.len() ==> final(self).caches == old(
                self,
            ).caches,
    {
        if self.selected < self.caches.len() {
            let cur = self.caches[self.selected].selected;
            let ix = self.selected;
            self.caches[ix].selected = !cur;
        }
    }

    /// Toggle selection of the current cleaner entry.
    fn toggle_select_cleaner(&mut self)
        ensures
            final(self).cleaners@.len() == old(self).cleaners@.len(),
            *final(self) == (App { cleaners: final(self).cleaners, ..*old(self) }),
            (old(self).selected as int) < old(self).cleaners@.len() ==> final(self).cleaners@
                == old(self).cleaners@.update(
                old(self).selected as int,
                (CleanerEntry {
                    selected: !old(self).cleaners@[old(self).selected as int].selected,
                    ..old(self).cleaners@[old(self).selected as int]
                }),
            ),
            old(self).selected as int >= old(self).cleaners@.len() ==> final(self).cleaners == old(
                self,
            ).cleaners,
    {
        if self.selected < self.cleaners.len() {
            let cur = self.cleaners[self.selected].selected;
            let ix = self.selected;
            self.cleaners[ix].selected = !cur;
        }
    }

    /// Select every visible entry of the current screen: invisible
    /// entries, the two inactive lists and everything else but the
    /// status message keep their state; on any other screen no flag
    /// changes at all.
    #[verifier::loop_isolation(false)]
    pub fn select_all(&mut self)
        ensures
            final(self).projects@.len() == old(self).projects@.len(),
            final(self).caches@.len() == old(self).caches@.len(),
            final(self).cleaners@.len() == old(self).cleaners@.len(),
            old(self).state == AppState::Results ==> *final(self) == (App {
                projects: final(self).projects,
                status_message: final(self).status_message,
                ..*old(self)
            }),
            old(self).state == AppState::CacheResults ==> *final(self) == (App {
                caches: final(self).caches,
                status_message: final(self).status_message,
                ..*old(self)
            }),
            old(self).state == AppState::CleanerResults ==> *final(self) == (App {
                cleaners: final(self).cleaners,
                status_message: final(self).status_message,
                ..*old(self)
            }),
            !(old(self).state == AppState::Results || old(self).state == AppState::CacheResults
                || old(self).state == AppState::CleanerResults) ==> *final(self) == (App {
                status_message: final(self).status_message,
                ..*old(self)
            }),
            old(self).state == AppState::Results ==> forall|i: int|
                0 <= i < old(self).projects@.len() ==> #[trigger] final(self).projects@[i] == (ProjectEntry {
                    selected: old(self).projects@[i].selected || old(self).projects@[i].visible,
                    ..old(self).projects@[i]
                }),
            old(self).state == AppState::CacheResults ==> forall|i: int|
                0 <= i < old(self).caches@.len() ==> #[trigger] final(self).caches@[i] == (CacheEntry {
                    selected: old(self).caches@[i].selected || old(self).caches@[i].visible,
                    ..old(self).caches@[i]
                }),
            old(self).state == AppState::CleanerResults ==> forall|i: int|
                0 <= i < old(self).cleaners@.len() ==> #[trigger] final(self).cleaners@[i] == (CleanerEntry {
                    selected: old(self).cleaners@[i].selected || old(self).cleaners@[i].visible,
                    ..old(self).cleaners@[i]
                }),
    {
        match &self.state {
            AppState::Results => {
                let n = self.projects.len();
                let mut i: usize = 0;
                while i < n
                    invariant
                        i <= n,
                        n == self.projects@.len(),
                        *self == (App { projects: self.projects, ..*old(self) }),
                        forall|j: int|
                            0 <= j < i ==> #[trigger] self.projects@[j] == (ProjectEntry {
                                selected: old(self).projects@[j].selected || old(
                                    self,
                                ).projects@[j].visible,
                                ..old(self).projects@[j]
                            }),
                        forall|j: int|
                            i <= j < n ==> #[trigger] self.projects@[j] == old(self).projects@[j],
                    decreases n - i,
                {
                    if self.projects[i].visible {
                        self.projects[i].selected = true;
                    }
                    i = i + 1;
                }
            },
            AppState::CacheResults => {
                let n = self.caches.len();
                let mut i: usize = 0;
                while i < n
                    invariant
                        i <= n,
                        n == self.caches@.len(),
                        *self == (App { caches: self.caches, ..*old(self) }),
                        forall|j: int|
                            0 <= j < i ==> #[trigger] self.caches@[j] == (CacheEntry {
                                selected: old(self).caches@[j].selected || old(
                                    self,
                                ).caches@[j].visible,
                                ..old(self).caches@[j]
                            }),
                        forall|j: int|
                            i <= j < n ==> #[trigger] self.caches@[j] == old(self).caches@[j],
                    decreases n - i,
                {
                    if self.caches[i].visible {
                        self.caches[i].selected = true;
                    }
                    i = i + 1;
                }
            },
            AppState::CleanerResults => {
                let n = self.cleaners.len();
                let mut i: usize = 0;
                while i < n
                    invariant
                        i <= n,
                        n == self.cleaners@.len(),
                        *self == (App { cleaners: self.cleaners, ..*old(self) }),
                        forall|j: int|
                            0 <= j < i ==> #[trigger] self.cleaners@[j] == (CleanerEntry {
                                selected: old(self).cleaners@[j].selected || old(
                                    self,
                                ).cleaners@[j].visible,
                                ..old(self).cleaners@[j]
                            }),
                        forall|j: int|
                            i <= j < n ==> #[trigger] self.cleaners@[j] == old(self).cleaners@[j],
                    decreases n - i,
                {
                    if self.cleaners[i].visible {
                        self.cleaners[i].selected = true;
                    }
                    i = i + 1;
                }
            },
            _ => {},
        }
        self.update_status();
    }

    /// Deselect everything, on every screen.
    #[verifier::loop_isolation(false)]
    pub fn deselect_all(&mut self)
        ensures
            final(self).projects@.len() == old(self).projects@.len(),
            final(self).caches@.len() == old(self).caches@.len(),
            final(self).cleaners@.len() == old(self).cleaners@.len(),
            forall|i: int|
                0 <= i < final(self).projects@.len() ==> !(#[trigger] final(self).projects@[i]).selected,
            forall|i: int|
                0 <= i < final(self).caches@.len() ==> !(#[trigger] final(self).caches@[i]).selected,
            forall|i: int|
                0 <= i < final(self).cleaners@.len() ==> !(#[trigger] final(self).cleaners@[i]).selected,
    {
        let n = self.projects.len();
        let mut i: usize = 0;
        while i < n
            invariant
                i <= n,
                n == self.projects@.len(),
                *self == (App { projects: self.projects, ..*old(self) }),
                forall|j: int| 0 <= j < i ==> !(#[trigger] self.projects@[j]).selected,
            decreases n - i,
        {
            self.projects[i].selected = false;
            i = i + 1;
        }
        let cn = self.caches.len();
        let mut j: usize = 0;
        while j < cn
            invariant
                j <= cn,
                cn == self.caches@.len(),
                self.projects@.len() == old(self).projects@.len(),
                *self == (App { projects: self.projects, caches: self.caches, ..*old(self) }),
                forall|k: int| 0 <= k < self.projects@.len() ==> !(#[trigger] self.projects@[k]).selected,
                forall|k: int| 0 <= k < j ==> !(#[trigger] self.caches@[k]).selected,
            decreases cn - j,
        {
            self.caches[j].selected = false;
            j = j + 1;
        }
        let ln = self.cleaners.len();
        let mut k: usize = 0;
        while k < ln
            invariant
                k <= ln,
                ln == self.cleaners@.len(),
                self.projects@.len() == old(self).projects@.len(),
                self.caches@.len() == old(self).caches@.len(),
                *self == (App {
                    projects: self.projects,
                    caches: self.caches,
                    cleaners: self.cleaners,
                    ..*old(self)
                }),
                forall|m: int|
                    0 <= m < self.projects@.len() ==> !(#[trigger] self.projects@[m]).selected,
                forall|m: int| 0 <= m < self.caches@.len() ==> !(#[trigger] self.caches@[m]).selected,
                forall|m: int| 0 <= m < k ==> !(#[trigger] self.cleaners@[m]).selected,
            decreases ln - k,
        {
            self.cleaners[k].selected = false;
            k = k + 1;
        }
        self.update_status();
    }

    /// Apply the tab and search filters to the project entries, and keep
    /// the cursor on a visible entry.
    #[verifier::loop_isolation(false)]
    pub fn filter_by_tab(&mut self)
        requires
            old(self).tabs_ok(),
        ensures
            final(self).projects@.len() == old(self).projects@.len(),
            forall|i: int|
                0 <= i < old(self).projects@.len() ==> #[trigger] final(self).projects@[i] == (ProjectEntry {
                    visible: spec_entry_visible(
                        old(self).projects@[i],
                        old(self).tabs@[old(self).current_tab as int]@,
                        old(self).search_query@,
                    ),
                    ..old(self).projects@[i]
                }),
            final(self).scroll_offset == 0,
            final(self).tabs == old(self).tabs,
            final(self).current_tab == old(self).current_tab,
            final(self).search_query == old(self).search_query,
            final(self).state == old(self).state,
            final(self).selected as int == (if old(self).selected as int >= spec_vis_projects(
                final(self).projects@,
            ) {
                0int
            } else {
                old(self).selected as int
            }),
            *final(self) == (App {
                projects: final(self).projects,
                selected: final(self).selected,
                scroll_offset: final(self).scroll_offset,
                ..*old(self)
            }),
    {
        let ghost tab_view = self.tabs@[self.current_tab as int]@;
        let is_all = crate::marker::str_eq(self.tabs[self.current_tab].as_str(), "All");
        let is_node_tab = crate::marker::str_eq(self.tabs[self.current_tab].as_str(), "Node");
        let is_rust_tab = crate::marker::str_eq(self.tabs[self.current_tab].as_str(), "Rust");
        let is_python_tab = crate::marker::str_eq(self.tabs[self.current_tab].as_str(), "Python");
        let is_java_tab = crate::marker::str_eq(self.tabs[self.current_tab].as_str(), "Java");
        let is_other_tab = crate::marker::str_eq(self.tabs[self.current_tab].as_str(), "Other");
        let n = self.projects.len();
        let mut i: usize = 0;
        while i < n
            invariant
                i <= n,
                n == self.projects@.len(),
                *self == (App { projects: self.projects, ..*old(self) }),
                forall|j: int|
                    0 <= j < i ==> #[trigger] self.projects@[j] == (ProjectEntry {
                        visible: spec_entry_visible(
                            old(self).projects@[j],
                            tab_view,
                            old(self).search_query@,
                        ),
                        ..old(self).projects@[j]
                    }),
                forall|j: int|
                    i <= j < n ==> #[trigger] self.projects@[j] == old(self).projects@[j],
            decreases n - i,
        {
            let kind = self.projects[i].project.kind;
            let tab_vis = if is_all {
                true
            } else if is_node_tab {
                kind.is_node()
            } else if is_rust_tab {
                kind.is_rust()
            } else if is_python_tab {
                kind.is_python()
            } else if is_java_tab {
                kind.is_java()
            } else if is_other_tab {
                !kind.is_node() && !kind.is_rust() && !kind.is_python() && !kind.is_java()
            } else {
                true
            };
            let vis = if tab_vis && self.search_query.len() > 0 {
                contains_ci_chars(self.projects[i].project.name.as_str(), &self.search_query)
                    || contains_ci_chars(
                    self.projects[i].project.root.as_str(),
                    &self.search_query,
                )
            } else {
                tab_vis
            };
            proof {
                assert(vis == spec_entry_visible(
                    old(self).projects@[i as int],
                    tab_view,
                    old(self).search_query@,
                ));
            }
            self.projects[i].visible = vis;
            i = i + 1;
        }
        let count = count_visible_projects(&self.projects);
        if self.selected >= count {
            self.selected = 0;
        }
        self.scroll_offset = 0;
    }

    /// Switch to the next tab.
    pub fn next_tab(&mut self)
        requires
            old(self).tabs_ok(),
        ensures
            final(self).tabs_ok(),
            final(self).current_tab as int == (old(self).current_tab + 1) % old(
                self,
            ).tabs@.len() as int,
    {
        let len = self.tabs.len();
        if self.current_tab + 1 < len {
            self.current_tab = self.current_tab + 1;
        } else {
            self.current_tab = 0;
        }
        proof {
            let c0 = old(self).current_tab as int;
            let tl = old(self).tabs@.len() as int;
            if c0 + 1 < tl {
                assert((c0 + 1) % tl == c0 + 1) by (nonlinear_arith)
                    requires
                        0 <= c0 + 1 < tl,
                {
                }
            } else {
                assert(c0 + 1 == tl);
                assert(tl % tl == 0) by (nonlinear_arith)
                    requires
                        tl > 0,
                {
                }
            }
            assert(self.current_tab as int == (old(self).current_tab + 1) % old(
                self,
            ).tabs@.len() as int);
        }
        self.filter_by_tab();
    }

    /// Switch to the previous tab.
    pub fn prev_tab(&mut self)
        requires
            old(self).tabs_ok(),
        ensures
            final(self).tabs_ok(),
            final(self).current_tab as int == if old(self).current_tab > 0 {
                old(self).current_tab - 1
            } else {
                old(self).tabs@.len() - 1
            },
    {
        if self.current_tab > 0 {
            self.current_tab = self.current_tab - 1;
        } else {
            self.current_tab = self.tabs.len() - 1;
        }
        self.filter_by_tab();
    }

    /// Add one character to the search query and filter.
    pub fn search_push(&mut self, c: char)
        requires
            old(self).tabs_ok(),
        ensures
            final(self).search_query@ == old(self).search_query@.push(c),
            forall|i: int|
                0 <= i < old(self).projects@.len() ==> #[trigger] final(self).projects@[i] == (ProjectEntry {
                    visible: spec_entry_visible(
                        old(self).projects@[i],
                        old(self).tabs@[old(self).current_tab as int]@,
                        old(self).search_query@.push(c),
                    ),
                    ..old(self).projects@[i]
                }),
    {
        self.search_query.push(c);
        self.filter_by_tab();
    }

    /// Drop the last character of the search query and filter.
    pub fn search_pop(&mut self)
        requires
            old(self).tabs_ok(),
        ensures
            final(self).search_query@ == if old(self).search_query@.len() > 0 {
                old(self).search_query@.drop_last()
            } else {
                old(self).search_query@
            },
    {
        if self.search_query.len() > 0 {
            self.search_query.pop();
        }
        self.filter_by_tab();
    }

    /// Ask to delete the selection: confirm when something is selected,
    /// else say so.
    pub fn request_delete(&mut self)
        ensures
            old(self).spec_selected_count() > 0 ==> *final(self) == (App {
                state: AppState::Confirming,
                ..*old(self)
            }),
            old(self).spec_selected_count() == 0 ==> *final(self) == (App {
                status_message: Some(StatusNote::NoSelection),
                ..*old(self)
            }),
    {
        if self.selected_count() > 0 {
            self.state = AppState::Confirming;
        } else {
            self.status_message = Some(StatusNote::NoSelection);
        }
    }

    /// Cancel a requested deletion, returning to the fitting screen.
    pub fn cancel_delete(&mut self)
        ensures
            final(self).state == if old(self).projects@.len() > 0 {
                AppState::Results
            } else if old(self).caches@.len() > 0 {
                AppState::CacheResults
            } else if old(self).cleaners@.len() > 0 {
                AppState::CleanerResults
            } else {
                AppState::Ready
            },
    {
        if self.projects.len() > 0 {
            self.state = AppState::Results;
        } else if self.caches.len() > 0 {
            self.state = AppState::CacheResults;
        } else if self.cleaners.len() > 0 {
            self.state = AppState::CleanerResults;
        } else {
            self.state = AppState::Ready;
        }
        self.update_status();
    }

    /// Confirm the deletion: enter the cleaning state and hand back the
    /// paths to delete — each selected project's artifacts, then the
    /// selected caches, then the selected cleaner items, in order.
    #[verifier::loop_isolation(false)]
    pub fn confirm_delete(&mut self) -> (r: Vec<String>)
        ensures
            r.deep_view() == spec_sel_project_paths(old(self).projects@) + spec_sel_cache_paths(
                old(self).caches@,
            ) + spec_sel_cleaner_paths(old(self).cleaners@),
            *final(self) == (App { state: AppState::Cleaning, ..*old(self) }),
    {
        self.state = AppState::Cleaning;
        let mut paths: Vec<String> = Vec::new();
        let n = self.projects.len();
        let mut i: usize = 0;
        proof {
            assert(self.projects@.take(0int) =~= Seq::<ProjectEntry>::empty());
            assert(paths.deep_view() =~= spec_sel_project_paths(self.projects@.take(0int)));
        }
        while i < n
            invariant
                i <= n,
                n == self.projects@.len(),
                *self == (App { state: AppState::Cleaning, ..*old(self) }),
                paths.deep_view() == spec_sel_project_paths(self.projects@.take(i as int)),
            decreases n - i,
        {
            proof {
                assert(self.projects@.take(i as int + 1).drop_last() =~= self.projects@.take(
                    i as int,
                ));
                assert(self.projects@.take(i as int + 1).last() == self.projects@[i as int]);
            }
            if self.projects[i].selected {
                let arts = &self.projects[i].project.artifacts;
                let an = arts.len();
                let mut k: usize = 0;
                proof {
                    assert(arts@.take(0int) =~= Seq::<crate::project::Artifact>::empty());
                    assert(paths.deep_view() + spec_artifact_paths(arts@.take(0int))
                        =~= paths.deep_view());
                }
                while k < an
                    invariant
                        k <= an,
                        an == arts@.len(),
                        arts == &self.projects@[i as int].project.artifacts,
                        i < n == self.projects@.len(),
                        *self == (App { state: AppState::Cleaning, ..*old(self) }),
                        paths.deep_view() == spec_sel_project_paths(
                            self.projects@.take(i as int),
                        ) + spec_artifact_paths(arts@.take(k as int)),
                    decreases an - k,
                {
                    proof {
                        assert(arts@.take(k as int + 1).drop_last() =~= arts@.take(k as int));
                        assert(arts@.take(k as int + 1).last() == arts@[k as int]);
                    }
                    let ghost before = paths.deep_view();
                    paths.push(arts[k].path.clone());
                    proof {
                        assert(paths.deep_view() =~= before.push(arts@[k as int].path@));
                        assert(paths.deep_view() =~= spec_sel_project_paths(
                            self.projects@.take(i as int),
                        ) + spec_artifact_paths(arts@.take(k as int + 1)));
                    }
                    k = k + 1;
                }
                proof {
                    assert(arts@.take(an as int) =~= arts@);
                }
            }
            proof {
                assert(paths.deep_view() =~= spec_sel_project_paths(
                    self.projects@.take(i as int + 1),
                ));
            }
            i = i + 1;
        }
        proof {
            assert(self.projects@.take(n as int) =~= self.projects@);
        }
        let cn = self.caches.len();
        let mut j: usize = 0;
        proof {
            assert(self.caches@.take(0int) =~= Seq::<CacheEntry>::empty());
            assert(paths.deep_view() =~= spec_sel_project_paths(self.projects@)
                + spec_sel_cache_paths(self.caches@.take(0int)));
        }
        while j < cn
            invariant
                j <= cn,
                cn == self.caches@.len(),
                *self == (App { state: AppState::Cleaning, ..*old(self) }),
                paths.deep_view() == spec_sel_project_paths(self.projects@)
                    + spec_sel_cache_paths(self.caches@.take(j as int)),
            decreases cn - j,
        {
            proof {
                assert(self.caches@.take(j as int + 1).drop_last() =~= self.caches@.take(
                    j as int,
                ));
                assert(self.caches@.take(j as int + 1).last() == self.caches@[j as int]);
            }
            if self.caches[j].selected {
                let ghost before = paths.deep_view();
                paths.push(self.caches[j].path.clone());
                proof {
                    assert(paths.deep_view() =~= before.push(self.caches@[j as int].path@));
                }
            }
            proof {
                assert(paths.deep_view() =~= spec_sel_project_paths(self.projects@)
                    + spec_sel_cache_paths(self.caches@.take(j as int + 1)));
            }
            j = j + 1;
        }
        proof {
            assert(self.caches@.take(cn as int) =~= self.caches@);
        }
        let ln = self.cleaners.len();
        let mut k: usize = 0;
        proof {
            assert(self.cleaners@.take(0int) =~= Seq::<CleanerEntry>::empty());
            assert(paths.deep_view() =~= spec_sel_project_paths(self.projects@)
                + spec_sel_cache_paths(self.caches@) + spec_sel_cleaner_paths(
                self.cleaners@.take(0int),
            ));
        }
        while k < ln
            invariant
                k <= ln,
                ln == self.cleaners@.len(),
                *self == (App { state: AppState::Cleaning, ..*old(self) }),
                paths.deep_view() == spec_sel_project_paths(self.projects@)
                    + spec_sel_cache_paths(self.caches@) + spec_sel_cleaner_paths(
                    self.cleaners@.take(k as int),
                ),
            decreases ln - k,
        {
            proof {
                assert(self.cleaners@.take(k as int + 1).drop_last() =~= self.cleaners@.take(
                    k as int,
                ));
                assert(self.cleaners@.take(k as int + 1).last() == self.cleaners@[k as int]);
            }
            if self.cleaners[k].selected {
                let ghost before = paths.deep_view();
                paths.push(self.cleaners[k].path.clone());
                proof {
                    assert(paths.deep_view() =~= before.push(self.cleaners@[k as int].path@));
                }
            }
            proof {
                assert(paths.deep_view() =~= spec_sel_project_paths(self.projects@)
                    + spec_sel_cache_paths(self.caches@) + spec_sel_cleaner_paths(
                    self.cleaners@.take(k as int + 1),
                ));
            }
            k = k + 1;
        }
        proof {
            assert(self.cleaners@.take(ln as int) =~= self.cleaners@);
        }
        paths
    }

    /// Take the outcome of a deletion batch: drop what was selected,
    /// return to the fitting screen, and report successes, failures and
    /// bytes freed.
    #[verifier::loop_isolation(false)]
    pub fn deletion_complete(&mut self, success_count: usize, fail_count: usize, freed: u64)
        ensures
            final(self).projects@ == spec_keep_projects(old(self).projects@),
            final(self).caches@ == spec_keep_caches(old(self).caches@),
            final(self).cleaners@ == spec_keep_cleaners(old(self).cleaners@),
            final(self).status_message == Some(
                StatusNote::Deleted { ok: success_count, failed: fail_count, freed },
            ),
            final(self).state == if spec_keep_projects(old(self).projects@).len() > 0 {
                AppState::Results
            } else if spec_keep_caches(old(self).caches@).len() > 0 {
                AppState::CacheResults
            } else if spec_keep_cleaners(old(self).cleaners@).len() > 0 {
                AppState::CleanerResults
            } else {
                AppState::Ready
            },
    {
        let ghost p0 = self.projects@;
        let ghost c0 = self.caches@;
        let ghost l0 = self.cleaners@;
        let mut source_p: Vec<ProjectEntry> = Vec::new();
        core::mem::swap(&mut source_p, &mut self.projects);
        let pl = source_p.len();
        let mut kept_p: Vec<ProjectEntry> = Vec::new();
        let mut taken: usize = 0;
        proof {
            assert(p0.len() == pl);
            assert(p0.take(0int) =~= Seq::<ProjectEntry>::empty());
            assert(kept_p@ =~= spec_keep_projects(p0.take(0int)));
            assert(source_p@ =~= p0.skip(0int));
        }
        while source_p.len() > 0
            invariant
                taken + source_p@.len() == p0.len(),
                source_p@ == p0.skip(taken as int),
                kept_p@ == spec_keep_projects(p0.take(taken as int)),
                p0.len() <= usize::MAX,
            decreases source_p@.len(),
        {
            let x = source_p.remove(0);
            proof {
                assert(x == p0.skip(taken as int)[0]);
                assert(p0.skip(taken as int)[0] == p0[taken as int]);
                assert(source_p@ =~= p0.skip(taken as int + 1));
                assert(p0.take(taken as int + 1).drop_last() =~= p0.take(taken as int));
                assert(p0.take(taken as int + 1).last() == p0[taken as int]);
            }
            if !x.selected {
                kept_p.push(x);
            }
            proof {
                assert(kept_p@ =~= spec_keep_projects(p0.take(taken as int + 1)));
            }
            taken = taken + 1;
        }
        proof {
            assert(p0.take(p0.len() as int) =~= p0);
        }
        self.projects = kept_p;
        let mut source_c: Vec<CacheEntry> = Vec::new();
        core::mem::swap(&mut source_c, &mut self.caches);
        let cl = source_c.len();
        let mut kept_c: Vec<CacheEntry> = Vec::new();
        let mut taken_c: usize = 0;
        proof {
            assert(c0.len() == cl);
            assert(c0.take(0int) =~= Seq::<CacheEntry>::empty());
            assert(kept_c@ =~= spec_keep_caches(c0.take(0int)));
            assert(source_c@ =~= c0.skip(0int));
        }
        while source_c.len() > 0
            invariant
                taken_c + source_c@.len() == c0.len(),
                source_c@ == c0.skip(taken_c as int),
                kept_c@ == spec_keep_caches(c0.take(taken_c as int)),
                c0.len() <= usize::MAX,
            decreases source_c@.len(),
        {
            let x = source_c.remove(0);
            proof {
                assert(x == c0.skip(taken_c as int)[0]);
                assert(c0.skip(taken_c as int)[0] == c0[taken_c as int]);
                assert(source_c@ =~= c0.skip(taken_c as int + 1));
                assert(c0.take(taken_c as int + 1).drop_last() =~= c0.take(taken_c as int));
                assert(c0.take(taken_c as int + 1).last() == c0[taken_c as int]);
            }
            if !x.selected {
                kept_c.push(x);
            }
            proof {
                assert(kept_c@ =~= spec_keep_caches(c0.take(taken_c as int + 1)));
            }
            taken_c = taken_c + 1;
        }
        proof {
            assert(c0.take(c0.len() as int) =~= c0);
        }
        self.caches = kept_c;
        let mut source_l: Vec<CleanerEntry> = Vec::new();
        core::mem::swap(&mut source_l, &mut self.cleaners);
        let ll = source_l.len();
        let mut kept_l: Vec<CleanerEntry> = Vec::new();
        let mut taken_l: usize = 0;
        proof {
            assert(l0.len() == ll);
            assert(l0.take(0int) =~= Seq::<CleanerEntry>::empty());
            assert(kept_l@ =~= spec_keep_cleaners(l0.take(0int)));
            assert(source_l@ =~= l0.skip(0int));
        }
        while source_l.len() > 0
            invariant
                taken_l + source_l@.len() == l0.len(),
                source_l@ == l0.skip(taken_l as int),
                kept_l@ == spec_keep_cleaners(l0.take(taken_l as int)),
                l0.len() <= usize::MAX,
            decreases source_l@.len(),
        {
            let x = source_l.remove(0);
            proof {
                assert(x == l0.skip(taken_l as int)[0]);
                assert(l0.skip(taken_l as int)[0] == l0[taken_l as int]);
                assert(source_l@ =~= l0.skip(taken_l as int + 1));
                assert(l0.take(taken_l as int + 1).drop_last() =~= l0.take(taken_l as int));
                assert(l0.take(taken_l as int + 1).last() == l0[taken_l as int]);
            }
            if !x.selected {
                kept_l.push(x);
            }
            proof {
                assert(kept_l@ =~= spec_keep_cleaners(l0.take(taken_l as int + 1)));
            }
            taken_l = taken_l + 1;
        }
        proof {
            assert(l0.take(l0.len() as int) =~= l0);
        }
        self.cleaners = kept_l;
        if self.projects.len() > 0 {
            self.state = AppState::Results;
        } else if self.caches.len() > 0 {
            self.state = AppState::CacheResults;
        } else if self.cleaners.len() > 0 {
            self.state = AppState::CleanerResults;
        } else {
            self.state = AppState::Ready;
        }
        self.status_message = Some(
            StatusNote::Deleted { ok: success_count, failed: fail_count, freed },
        );
        let count = self.item_count();
        if self.selected >= count && count > 0 {
            self.selected = count - 1;
        }
    }

    /// Go back to the menu, dropping every result.
    pub fn go_back(&mut self)
        ensures
            final(self).state == AppState::Ready,
            final(self).projects@.len() == 0,
            final(self).caches@.len() == 0,
            final(self).cleaners@.len() == 0,
            final(self).selected == 0,
            final(self).scroll_offset == 0,
            final(self).total_size == 0,
            final(self).status_message matches Some(StatusNote::SelectScanPrompt),
    {
        self.state = AppState::Ready;
        self.projects = Vec::new();
        self.caches = Vec::new();
        self.cleaners = Vec::new();
        self.selected = 0;
        self.scroll_offset = 0;
        self.total_size = 0;
        self.status_message = Some(StatusNote::SelectScanPrompt);
    }
}

} // verus!
