//! The plugin registry: the ordered marker catalog and, per project kind,
//! the cleanable artifact directories.
//!
//! Resolution evaluates every marker against a directory snapshot; among
//! the matches the highest priority wins, and a tie goes to the marker
//! registered first.

use vstd::prelude::*;
use vstd::string::StringExecFns;

use crate::kind::ProjectKind;
use crate::marker::{DirListing, MarkerKind, MarkerShape};
use crate::probe::FsEntry;

verus! {

/// Binds a marker rule to a project kind with a priority.
#[derive(Debug, Clone)]
pub struct ProjectMarker {
    /// What to look for.
    pub indicator: MarkerKind,
    /// The project kind this marker identifies.
    pub kind: ProjectKind,
    /// Priority when multiple markers match (higher = preferred).
    pub priority: u8,
}

/// Whether one marker matches a directory snapshot.
pub open spec fn spec_marker_matches(
    m: ProjectMarker,
    dir_name: Seq<char>,
    entries: Seq<FsEntry>,
) -> bool {
    m.indicator.spec_matches(dir_name, entries)
}

/// The index resolution picks: among all matching markers, the first one
/// of maximal priority, in catalog order.
pub open spec fn spec_best_marker(
    markers: Seq<ProjectMarker>,
    dir_name: Seq<char>,
    entries: Seq<FsEntry>,
) -> Option<int>
    decreases markers.len(),
{
    if markers.len() == 0 {
        None
    } else {
        let prev = spec_best_marker(markers.drop_last(), dir_name, entries);
        let k = markers.len() - 1;
        if spec_marker_matches(markers[k], dir_name, entries) {
            match prev {
                None => Some(k),
                Some(b) => if markers[k].priority > markers[b].priority {
                    Some(k)
                } else {
                    Some(b)
                },
            }
        } else {
            prev
        }
    }
}

/// The kind resolution yields, if any marker matches.
pub open spec fn spec_resolved_kind(
    markers: Seq<ProjectMarker>,
    dir_name: Seq<char>,
    entries: Seq<FsEntry>,
) -> Option<ProjectKind> {
    match spec_best_marker(markers, dir_name, entries) {
        None => None,
        Some(b) => Some(markers[b].kind),
    }
}

/// What `spec_best_marker` picks: a matching marker whose priority no
/// match exceeds, and that no earlier match ties.
pub proof fn lemma_best_marker_props(
    markers: Seq<ProjectMarker>,
    dir_name: Seq<char>,
    entries: Seq<FsEntry>,
)
    ensures
        spec_best_marker(markers, dir_name, entries) is None ==> forall|j: int|
            0 <= j < markers.len() ==> !spec_marker_matches(markers[j], dir_name, entries),
        spec_best_marker(markers, dir_name, entries) matches Some(b) ==> {
            &&& 0 <= b < markers.len()
            &&& spec_marker_matches(markers[b], dir_name, entries)
            &&& forall|j: int|
                0 <= j < markers.len() && spec_marker_matches(markers[j], dir_name, entries)
                    ==> markers[j].priority <= markers[b].priority
            &&& forall|j: int|
                0 <= j < b && spec_marker_matches(markers[j], dir_name, entries) ==> markers[j].priority
                    < markers[b].priority
        },
    decreases markers.len(),
{
    if markers.len() > 0 {
        let head = markers.drop_last();
        lemma_best_marker_props(head, dir_name, entries);
        assert(forall|j: int| 0 <= j < head.len() ==> head[j] == markers[j]);
    }
}

/// Marker resolution is priority-monotonic: where two markers of
/// different priority both match a directory, and nothing matching
/// outranks the stronger one, the resolved kind is that of a marker with
/// the stronger priority — never the weaker one's priority — regardless
/// of where the two stand in the catalog.
pub proof fn lemma_priority_monotonic(
    markers: Seq<ProjectMarker>,
    dir_name: Seq<char>,
    entries: Seq<FsEntry>,
    hi: int,
    lo: int,
)
    requires
        0 <= hi < markers.len(),
        0 <= lo < markers.len(),
        spec_marker_matches(markers[hi], dir_name, entries),
        spec_marker_matches(markers[lo], dir_name, entries),
        markers[hi].priority > markers[lo].priority,
        forall|j: int|
            0 <= j < markers.len() && spec_marker_matches(markers[j], dir_name, entries)
                ==> markers[j].priority <= markers[hi].priority,
    ensures
        spec_best_marker(markers, dir_name, entries) matches Some(b) && markers[b].priority
            == markers[hi].priority && b != lo,
        spec_resolved_kind(markers, dir_name, entries) matches Some(k) && (exists|i: int|
            0 <= i < markers.len() && spec_marker_matches(markers[i], dir_name, entries)
                && markers[i].priority == markers[hi].priority && markers[i].kind == k),
{
    lemma_best_marker_props(markers, dir_name, entries);
    match spec_best_marker(markers, dir_name, entries) {
        Some(b) => {
            assert(markers[hi].priority <= markers[b].priority);
            assert(markers[b].priority <= markers[hi].priority);
            assert(0 <= b < markers.len() && spec_marker_matches(markers[b], dir_name, entries)
                && markers[b].priority == markers[hi].priority && markers[b].kind
                == spec_resolved_kind(markers, dir_name, entries)->0);
        },
        None => {
            assert(false);
        },
    }
}

/// The built-in marker catalog: each rule's shape, the kind it
/// identifies and its priority, in catalog order.
pub open spec fn spec_builtin_catalog() -> Seq<(MarkerShape, ProjectKind, u8)> {
    seq![
        (MarkerShape::File("Cargo.toml"@), ProjectKind::Rust, 10u8),
        (MarkerShape::File("package.json"@), ProjectKind::NodeNpm, 8u8),
        (MarkerShape::File("yarn.lock"@), ProjectKind::NodeYarn, 9u8),
        (MarkerShape::File("pnpm-lock.yaml"@), ProjectKind::NodePnpm, 9u8),
        (MarkerShape::File("bun.lockb"@), ProjectKind::NodeBun, 9u8),
        (MarkerShape::AnyOf(seq!["deno.json"@, "deno.jsonc"@]), ProjectKind::Deno, 9u8),
        (MarkerShape::Directory("node_modules"@), ProjectKind::NodeNpm, 2u8),
        (MarkerShape::File("go.mod"@), ProjectKind::Go, 10u8),
        (MarkerShape::File("CMakeLists.txt"@), ProjectKind::Cpp, 7u8),
        (MarkerShape::File("Makefile"@), ProjectKind::C, 4u8),
        (MarkerShape::File("build.zig"@), ProjectKind::Zig, 10u8),
        (MarkerShape::File("pom.xml"@), ProjectKind::JavaMaven, 10u8),
        (MarkerShape::AnyOf(seq!["build.gradle"@, "build.gradle.kts"@]), ProjectKind::JavaGradle, 9u8),
        (MarkerShape::File("build.sbt"@), ProjectKind::Scala, 10u8),
        (MarkerShape::File("project.clj"@), ProjectKind::Clojure, 10u8),
        (MarkerShape::AnyOf(seq!["global.json"@, "Directory.Build.props"@]), ProjectKind::DotNet, 8u8),
        (MarkerShape::File("requirements.txt"@), ProjectKind::PythonPip, 7u8),
        (MarkerShape::File("pyproject.toml"@), ProjectKind::PythonPip, 6u8),
        (MarkerShape::File("poetry.lock"@), ProjectKind::PythonPoetry, 9u8),
        (MarkerShape::File("Pipfile"@), ProjectKind::PythonPipenv, 9u8),
        (MarkerShape::File("environment.yml"@), ProjectKind::PythonConda, 8u8),
        (MarkerShape::File("uv.lock"@), ProjectKind::PythonUv, 9u8),
        (MarkerShape::File("Gemfile"@), ProjectKind::RubyBundler, 8u8),
        (MarkerShape::AllOf(seq!["Gemfile"@, "config.ru"@]), ProjectKind::RubyRails, 9u8),
        (MarkerShape::File("composer.json"@), ProjectKind::PhpComposer, 8u8),
        (MarkerShape::AllOf(seq!["composer.json"@, "artisan"@]), ProjectKind::PhpLaravel, 9u8),
        (MarkerShape::File("Package.swift"@), ProjectKind::SwiftSpm, 10u8),
        (MarkerShape::Extension("xcodeproj"@), ProjectKind::SwiftXcode, 9u8),
        (MarkerShape::File("pubspec.yaml"@), ProjectKind::Flutter, 10u8),
        (MarkerShape::AllOf(seq!["package.json"@, "app.json"@]), ProjectKind::ReactNative, 9u8),
        (MarkerShape::File("mix.exs"@), ProjectKind::Elixir, 10u8),
        (MarkerShape::AnyOf(seq!["stack.yaml"@, "cabal.project"@]), ProjectKind::Haskell, 9u8),
        (MarkerShape::File("dune-project"@), ProjectKind::OCaml, 10u8),
        (MarkerShape::File("Project.toml"@), ProjectKind::Julia, 9u8),
        (MarkerShape::File("DESCRIPTION"@), ProjectKind::R, 3u8),
        (MarkerShape::File("Makefile.PL"@), ProjectKind::Perl, 7u8),
        (MarkerShape::AnyOf(seq!["main.tf"@, "terraform.tf"@]), ProjectKind::Terraform, 8u8),
        (MarkerShape::File("Pulumi.yaml"@), ProjectKind::Pulumi, 9u8),
        (MarkerShape::File("Dockerfile"@), ProjectKind::Docker, 3u8),
    ]
}

/// Whether a marker list carries exactly a catalog of shapes, kinds and
/// priorities, in order.
pub open spec fn spec_markers_match_catalog(
    markers: Seq<ProjectMarker>,
    cat: Seq<(MarkerShape, ProjectKind, u8)>,
) -> bool {
    &&& markers.len() == cat.len()
    &&& forall|i: int|
        0 <= i < markers.len() ==> {
            &&& (#[trigger] markers[i]).indicator.shape() == cat[i].0
            &&& markers[i].kind == cat[i].1
            &&& markers[i].priority == cat[i].2
        }
}

/// Owns the ordered marker catalog and the per-kind artifact directories.
#[derive(Debug, Clone)]
pub struct PluginRegistry {
    /// The ordered marker catalog; earlier markers win priority ties.
    pub markers: Vec<ProjectMarker>,
    /// Caller-registered artifact directories, each for one kind, on top
    /// of the built-in table.
    pub extra_artifacts: Vec<(ProjectKind, String)>,
}

/// The artifact directories registered for one kind, in registration
/// order.
pub open spec fn spec_registered_artifacts(
    extras: Seq<(ProjectKind, String)>,
    kind: ProjectKind,
) -> Seq<Seq<char>>
    decreases extras.len(),
{
    if extras.len() == 0 {
        Seq::empty()
    } else {
        spec_registered_artifacts(extras.drop_last(), kind) + if extras.last().0 == kind {
            seq![extras.last().1@]
        } else {
            Seq::empty()
        }
    }
}

/// The built-in artifact directories of one kind.
pub open spec fn spec_builtin_artifacts(kind: ProjectKind) -> Seq<Seq<char>> {
    match kind {
        ProjectKind::NodeNpm | ProjectKind::NodeYarn | ProjectKind::NodePnpm
        | ProjectKind::NodeBun | ProjectKind::Deno | ProjectKind::ReactNative => seq![
            "node_modules"@,
        ],
        ProjectKind::Rust | ProjectKind::JavaMaven | ProjectKind::Scala | ProjectKind::Clojure => seq![
            "target"@,
        ],
        ProjectKind::Go | ProjectKind::PhpComposer | ProjectKind::PhpLaravel
        | ProjectKind::RubyBundler | ProjectKind::RubyRails => seq!["vendor"@],
        ProjectKind::Cpp | ProjectKind::C => seq!["build"@],
        ProjectKind::Zig => seq!["zig-cache"@, "zig-out"@],
        ProjectKind::JavaGradle | ProjectKind::Kotlin | ProjectKind::Android => seq![
            "build"@,
            ".gradle"@,
        ],
        ProjectKind::DotNet | ProjectKind::FSharp => seq!["bin"@, "obj"@],
        ProjectKind::PythonPip | ProjectKind::PythonPoetry | ProjectKind::PythonPipenv
        | ProjectKind::PythonConda | ProjectKind::PythonUv => seq![
            "venv"@,
            ".venv"@,
            "__pycache__"@,
        ],
        ProjectKind::SwiftSpm => seq![".build"@],
        ProjectKind::SwiftXcode => seq!["build"@, "DerivedData"@],
        ProjectKind::Flutter => seq!["build"@, ".dart_tool"@],
        ProjectKind::Elixir => seq!["_build"@, "deps"@],
        ProjectKind::Haskell => seq!["dist-newstyle"@, ".stack-work"@],
        ProjectKind::OCaml => seq!["_build"@],
        ProjectKind::Lua => seq!["lua_modules"@],
        ProjectKind::Terraform => seq![".terraform"@],
        _ => Seq::empty(),
    }
}

impl PluginRegistry {
    /// An empty registry: no markers, no artifact directories beyond the
    /// built-in table.
    pub fn new() -> (r: Self)
        ensures
            r.markers@.len() == 0,
            r.extra_artifacts@.len() == 0,
    {
        PluginRegistry { markers: Vec::new(), extra_artifacts: Vec::new() }
    }

    /// Append a caller-supplied marker to the catalog.  Markers appended
    /// later lose priority ties against everything already present.
    pub fn register(&mut self, marker: ProjectMarker)
        ensures
            final(self).markers@ == old(self).markers@.push(marker),
            final(self).extra_artifacts == old(self).extra_artifacts,
    {
        self.markers.push(marker);
    }

    /// Register one more artifact directory for a kind.
    pub fn register_artifact_dir(&mut self, kind: ProjectKind, dir: String)
        ensures
            final(self).extra_artifacts@ == old(self).extra_artifacts@.push((kind, dir)),
            final(self).markers == old(self).markers,
    {
        self.extra_artifacts.push((kind, dir));
    }

    /// Seed the default catalog of built-in markers: exactly the rules of
    /// `spec_builtin_catalog`, in that order, and no extra artifact
    /// directories.
    pub fn with_builtins() -> (r: Self)
        ensures
            spec_markers_match_catalog(r.markers@, spec_builtin_catalog()),
            r.markers@.len() > 0,
            r.extra_artifacts@.len() == 0,
    {
        let mut m: Vec<ProjectMarker> = Vec::new();
        m.push(ProjectMarker {
            indicator: MarkerKind::File("Cargo.toml"),
            kind: ProjectKind::Rust,
            priority: 10,
        });
        m.push(ProjectMarker {
            indicator: MarkerKind::File("package.json"),
            kind: ProjectKind::NodeNpm,
            priority: 8,
        });
        m.push(ProjectMarker {
            indicator: MarkerKind::File("yarn.lock"),
            kind: ProjectKind::NodeYarn,
            priority: 9,
        });
        m.push(ProjectMarker {
            indicator: MarkerKind::File("pnpm-lock.yaml"),
            kind: ProjectKind::NodePnpm,
            priority: 9,
        });
        m.push(ProjectMarker {
            indicator: MarkerKind::File("bun.lockb"),
            kind: ProjectKind::NodeBun,
            priority: 9,
        });
        m.push(ProjectMarker {
            indicator: MarkerKind::AnyOf(vec!["deno.json", "deno.jsonc"]),
            kind: ProjectKind::Deno,
            priority: 9,
        });
        m.push(ProjectMarker {
            indicator: MarkerKind::Directory("node_modules"),
            kind: ProjectKind::NodeNpm,
            priority: 2,
        });
        m.push(ProjectMarker {
            indicator: MarkerKind::File("go.mod"),
            kind: ProjectKind::Go,
            priority: 10,
        });
        m.push(ProjectMarker {
            indicator: MarkerKind::File("CMakeLists.txt"),
            kind: ProjectKind::Cpp,
            priority: 7,
        });
        m.push(ProjectMarker {
            indicator: MarkerKind::File("Makefile"),
            kind: ProjectKind::C,
            priority: 4,
        });
        m.push(ProjectMarker {
            indicator: MarkerKind::File("build.zig"),
            kind: ProjectKind::Zig,
            priority: 10,
        });
        m.push(ProjectMarker {
            indicator: MarkerKind::File("pom.xml"),
            kind: ProjectKind::JavaMaven,
            priority: 10,
        });
        m.push(ProjectMarker {
            indicator: MarkerKind::AnyOf(vec!["build.gradle", "build.gradle.kts"]),
            kind: ProjectKind::JavaGradle,
            priority: 9,
        });
        m.push(ProjectMarker {
            indicator: MarkerKind::File("build.sbt"),
            kind: ProjectKind::Scala,
            priority: 10,
        });
        m.push(ProjectMarker {
            indicator: MarkerKind::File("project.clj"),
            kind: ProjectKind::Clojure,
            priority: 10,
        });
        m.push(ProjectMarker {
            indicator: MarkerKind::AnyOf(vec!["global.json", "Directory.Build.props"]),
            kind: ProjectKind::DotNet,
            priority: 8,
        });
        m.push(ProjectMarker {
            indicator: MarkerKind::File("requirements.txt"),
            kind: ProjectKind::PythonPip,
            priority: 7,
        });
        m.push(ProjectMarker {
            indicator: MarkerKind::File("pyproject.toml"),
            kind: ProjectKind::PythonPip,
            priority: 6,
        });
        m.push(ProjectMarker {
            indicator: MarkerKind::File("poetry.lock"),
            kind: ProjectKind::PythonPoetry,
            priority: 9,
        });
        m.push(ProjectMarker {
            indicator: MarkerKind::File("Pipfile"),
            kind: ProjectKind::PythonPipenv,
            priority: 9,
        });
        m.push(ProjectMarker {
            indicator: MarkerKind::File("environment.yml"),
            kind: ProjectKind::PythonConda,
            priority: 8,
        });
        m.push(ProjectMarker {
            indicator: MarkerKind::File("uv.lock"),
            kind: ProjectKind::PythonUv,
            priority: 9,
        });
        m.push(ProjectMarker {
            indicator: MarkerKind::File("Gemfile"),
            kind: ProjectKind::RubyBundler,
            priority: 8,
        });
        m.push(ProjectMarker {
            indicator: MarkerKind::AllOf(vec!["Gemfile", "config.ru"]),
            kind: ProjectKind::RubyRails,
            priority: 9,
        });
        m.push(ProjectMarker {
            indicator: MarkerKind::File("composer.json"),
            kind: ProjectKind::PhpComposer,
            priority: 8,
        });
        m.push(ProjectMarker {
            indicator: MarkerKind::AllOf(vec!["composer.json", "artisan"]),
            kind: ProjectKind::PhpLaravel,
            priority: 9,
        });
        m.push(ProjectMarker {
            indicator: MarkerKind::File("Package.swift"),
            kind: ProjectKind::SwiftSpm,
            priority: 10,
        });
        m.push(ProjectMarker {
            indicator: MarkerKind::Extension("xcodeproj"),
            kind: ProjectKind::SwiftXcode,
            priority: 9,
        });
        m.push(ProjectMarker {
            indicator: MarkerKind::File("pubspec.yaml"),
            kind: ProjectKind::Flutter,
            priority: 10,
        });
        m.push(ProjectMarker {
            indicator: MarkerKind::AllOf(vec!["package.json", "app.json"]),
            kind: ProjectKind::ReactNative,
            priority: 9,
        });
        m.push(ProjectMarker {
            indicator: MarkerKind::File("mix.exs"),
            kind: ProjectKind::Elixir,
            priority: 10,
        });
        m.push(ProjectMarker {
            indicator: MarkerKind::AnyOf(vec!["stack.yaml", "cabal.project"]),
            kind: ProjectKind::Haskell,
            priority: 9,
        });
        m.push(ProjectMarker {
            indicator: MarkerKind::File("dune-project"),
            kind: ProjectKind::OCaml,
            priority: 10,
        });
        m.push(ProjectMarker {
            indicator: MarkerKind::File("Project.toml"),
            kind: ProjectKind::Julia,
            priority: 9,
        });
        m.push(ProjectMarker {
            indicator: MarkerKind::File("DESCRIPTION"),
            kind: ProjectKind::R,
            priority: 3,
        });
        m.push(ProjectMarker {
            indicator: MarkerKind::File("Makefile.PL"),
            kind: ProjectKind::Perl,
            priority: 7,
        });
        m.push(ProjectMarker {
            indicator: MarkerKind::AnyOf(vec!["main.tf", "terraform.tf"]),
            kind: ProjectKind::Terraform,
            priority: 8,
        });
        m.push(ProjectMarker {
            indicator: MarkerKind::File("Pulumi.yaml"),
            kind: ProjectKind::Pulumi,
            priority: 9,
        });
        m.push(ProjectMarker {
            indicator: MarkerKind::File("Dockerfile"),
            kind: ProjectKind::Docker,
            priority: 3,
        });
        proof {
            let cat = spec_builtin_catalog();
            assert(m@.len() == 39 && cat.len() == 39);
            assert(m@[0].indicator.shape() == cat[0].0 && m@[0].kind == cat[0].1 && m@[0].priority == cat[0].2);
            assert(m@[1].indicator.shape() == cat[1].0 && m@[1].kind == cat[1].1 && m@[1].priority == cat[1].2);
            assert(m@[2].indicator.shape() == cat[2].0 && m@[2].kind == cat[2].1 && m@[2].priority == cat[2].2);
            assert(m@[3].indicator.shape() == cat[3].0 && m@[3].kind == cat[3].1 && m@[3].priority == cat[3].2);
            assert(m@[4].indicator.shape() == cat[4].0 && m@[4].kind == cat[4].1 && m@[4].priority == cat[4].2);
            assert(m@[5].indicator.shape()->AnyOf_0 =~= seq!["deno.json"@, "deno.jsonc"@]);
            assert(m@[5].indicator.shape() == cat[5].0 && m@[5].kind == cat[5].1 && m@[5].priority == cat[5].2);
            assert(m@[6].indicator.shape() == cat[6].0 && m@[6].kind == cat[6].1 && m@[6].priority == cat[6].2);
            assert(m@[7].indicator.shape() == cat[7].0 && m@[7].kind == cat[7].1 && m@[7].priority == cat[7].2);
            assert(m@[8].indicator.shape() == cat[8].0 && m@[8].kind == cat[8].1 && m@[8].priority == cat[8].2);
            assert(m@[9].indicator.shape() == cat[9].0 && m@[9].kind == cat[9].1 && m@[9].priority == cat[9].2);
            assert(m@[10].indicator.shape() == cat[10].0 && m@[10].kind == cat[10].1 && m@[10].priority == cat[10].2);
            assert(m@[11].indicator.shape() == cat[11].0 && m@[11].kind == cat[11].1 && m@[11].priority == cat[11].2);
            assert(m@[12].indicator.shape()->AnyOf_0 =~= seq!["build.gradle"@, "build.gradle.kts"@]);
            assert(m@[12].indicator.shape() == cat[12].0 && m@[12].kind == cat[12].1 && m@[12].priority == cat[12].2);
            assert(m@[13].indicator.shape() == cat[13].0 && m@[13].kind == cat[13].1 && m@[13].priority == cat[13].2);
            assert(m@[14].indicator.shape() == cat[14].0 && m@[14].kind == cat[14].1 && m@[14].priority == cat[14].2);
            assert(m@[15].indicator.shape()->AnyOf_0 =~= seq!["global.json"@, "Directory.Build.props"@]);
            assert(m@[15].indicator.shape() == cat[15].0 && m@[15].kind == cat[15].1 && m@[15].priority == cat[15].2);
            assert(m@[16].indicator.shape() == cat[16].0 && m@[16].kind == cat[16].1 && m@[16].priority == cat[16].2);
            assert(m@[17].indicator.shape() == cat[17].0 && m@[17].kind == cat[17].1 && m@[17].priority == cat[17].2);
            assert(m@[18].indicator.shape() == cat[18].0 && m@[18].kind == cat[18].1 && m@[18].priority == cat[18].2);
            assert(m@[19].indicator.shape() == cat[19].0 && m@[19].kind == cat[19].1 && m@[19].priority == cat[19].2);
            assert(m@[20].indicator.shape() == cat[20].0 && m@[20].kind == cat[20].1 && m@[20].priority == cat[20].2);
            assert(m@[21].indicator.shape() == cat[21].0 && m@[21].kind == cat[21].1 && m@[21].priority == cat[21].2);
            assert(m@[22].indicator.shape() == cat[22].0 && m@[22].kind == cat[22].1 && m@[22].priority == cat[22].2);
            assert(m@[23].indicator.shape()->AllOf_0 =~= seq!["Gemfile"@, "config.ru"@]);
            assert(m@[23].indicator.shape() == cat[23].0 && m@[23].kind == cat[23].1 && m@[23].priority == cat[23].2);
            assert(m@[24].indicator.shape() == cat[24].0 && m@[24].kind == cat[24].1 && m@[24].priority == cat[24].2);
            assert(m@[25].indicator.shape()->AllOf_0 =~= seq!["composer.json"@, "artisan"@]);
            assert(m@[25].indicator.shape() == cat[25].0 && m@[25].kind == cat[25].1 && m@[25].priority == cat[25].2);
            assert(m@[26].indicator.shape() == cat[26].0 && m@[26].kind == cat[26].1 && m@[26].priority == cat[26].2);
            assert(m@[27].indicator.shape() == cat[27].0 && m@[27].kind == cat[27].1 && m@[27].priority == cat[27].2);
            assert(m@[28].indicator.shape() == cat[28].0 && m@[28].kind == cat[28].1 && m@[28].priority == cat[28].2);
            assert(m@[29].indicator.shape()->AllOf_0 =~= seq!["package.json"@, "app.json"@]);
            assert(m@[29].indicator.shape() == cat[29].0 && m@[29].kind == cat[29].1 && m@[29].priority == cat[29].2);
            assert(m@[30].indicator.shape() == cat[30].0 && m@[30].kind == cat[30].1 && m@[30].priority == cat[30].2);
            assert(m@[31].indicator.shape()->AnyOf_0 =~= seq!["stack.yaml"@, "cabal.project"@]);
            assert(m@[31].indicator.shape() == cat[31].0 && m@[31].kind == cat[31].1 && m@[31].priority == cat[31].2);
            assert(m@[32].indicator.shape() == cat[32].0 && m@[32].kind == cat[32].1 && m@[32].priority == cat[32].2);
            assert(m@[33].indicator.shape() == cat[33].0 && m@[33].kind == cat[33].1 && m@[33].priority == cat[33].2);
            assert(m@[34].indicator.shape() == cat[34].0 && m@[34].kind == cat[34].1 && m@[34].priority == cat[34].2);
            assert(m@[35].indicator.shape() == cat[35].0 && m@[35].kind == cat[35].1 && m@[35].priority == cat[35].2);
            assert(m@[36].indicator.shape()->AnyOf_0 =~= seq!["main.tf"@, "terraform.tf"@]);
            assert(m@[36].indicator.shape() == cat[36].0 && m@[36].kind == cat[36].1 && m@[36].priority == cat[36].2);
            assert(m@[37].indicator.shape() == cat[37].0 && m@[37].kind == cat[37].1 && m@[37].priority == cat[37].2);
            assert(m@[38].indicator.shape() == cat[38].0 && m@[38].kind == cat[38].1 && m@[38].priority == cat[38].2);
            assert(spec_markers_match_catalog(m@, cat)) by {
                assert forall|i: int| 0 <= i < m@.len() implies {
                    &&& (#[trigger] m@[i]).indicator.shape() == cat[i].0
                    &&& m@[i].kind == cat[i].1
                    &&& m@[i].priority == cat[i].2
                } by {}
            }
        }
        PluginRegistry { markers: m, extra_artifacts: Vec::new() }
    }

    /// The cleanable artifact directories for a kind: the built-in table,
    /// then everything registered for that kind, in registration order.
    pub fn artifact_dirs(&self, kind: ProjectKind) -> (r: Vec<String>)
        ensures
            r.deep_view() == spec_builtin_artifacts(kind) + spec_registered_artifacts(
                self.extra_artifacts@,
                kind,
            ),
    {
        let mut r = builtin_artifact_dirs(kind);
        let n = self.extra_artifacts.len();
        let mut i: usize = 0;
        proof {
            assert(self.extra_artifacts@.take(0int) =~= Seq::<(ProjectKind, String)>::empty());
            assert(r.deep_view() =~= spec_builtin_artifacts(kind) + spec_registered_artifacts(
                self.extra_artifacts@.take(0int),
                kind,
            ));
        }
        while i < n
            invariant
                i <= n,
                n == self.extra_artifacts@.len(),
                r.deep_view() == spec_builtin_artifacts(kind) + spec_registered_artifacts(
                    self.extra_artifacts@.take(i as int),
                    kind,
                ),
            decreases n - i,
        {
            proof {
                assert(self.extra_artifacts@.take(i as int + 1).drop_last()
                    =~= self.extra_artifacts@.take(i as int));
                assert(self.extra_artifacts@.take(i as int + 1).last()
                    == self.extra_artifacts@[i as int]);
            }
            if self.extra_artifacts[i].0 == kind {
                let ghost before = r.deep_view();
                r.push(self.extra_artifacts[i].1.clone());
                proof {
                    assert(r.deep_view() =~= before.push(self.extra_artifacts@[i as int].1@));
                    assert(r.deep_view() =~= spec_builtin_artifacts(kind)
                        + spec_registered_artifacts(
                        self.extra_artifacts@.take(i as int + 1),
                        kind,
                    ));
                }
            } else {
                proof {
                    assert(r.deep_view() =~= spec_builtin_artifacts(kind)
                        + spec_registered_artifacts(
                        self.extra_artifacts@.take(i as int + 1),
                        kind,
                    ));
                }
            }
            i = i + 1;
        }
        proof {
            assert(self.extra_artifacts@.take(n as int) =~= self.extra_artifacts@);
        }
        r
    }

    /// Resolve the winning marker's index, as `resolve` picks it.
    pub fn resolve_index(&self, dir: &DirListing) -> (r: Option<usize>)
        ensures
            match r {
                None => spec_best_marker(self.markers@, dir.name@, dir.entries@) is None,
                Some(b) => b < self.markers@.len() && spec_best_marker(
                    self.markers@,
                    dir.name@,
                    dir.entries@,
                ) == Some(b as int),
            },
    {
        let n = self.markers.len();
        let mut best: Option<usize> = None;
        let mut i: usize = 0;
        proof {
            assert(self.markers@.take(0int) =~= Seq::<ProjectMarker>::empty());
        }
        while i < n
            invariant
                i <= n,
                n == self.markers@.len(),
                match best {
                    None => spec_best_marker(self.markers@.take(i as int), dir.name@, dir.entries@)
                        is None,
                    Some(b) => b < i && spec_best_marker(
                        self.markers@.take(i as int),
                        dir.name@,
                        dir.entries@,
                    ) == Some(b as int),
                },
            decreases n - i,
        {
            proof {
                assert(self.markers@.take(i as int + 1).drop_last() =~= self.markers@.take(
                    i as int,
                ));
                assert(self.markers@.take(i as int + 1).last() == self.markers@[i as int]);
            }
            if self.markers[i].indicator.matches(dir) {
                best = match best {
                    None => Some(i),
                    Some(b) => if self.markers[i].priority > self.markers[b].priority {
                        Some(i)
                    } else {
                        Some(b)
                    },
                };
            }
            i = i + 1;
        }
        proof {
            assert(self.markers@.take(n as int) =~= self.markers@);
        }
        best
    }

    /// Resolve the kind of a directory: evaluate every marker, pick the
    /// highest priority among the matches, ties broken by catalog order
    /// (first wins).  None where no marker matches.
    pub fn resolve(&self, dir: &DirListing) -> (r: Option<ProjectKind>)
        ensures
            r == spec_resolved_kind(self.markers@, dir.name@, dir.entries@),
    {
        let n = self.markers.len();
        let mut best: Option<usize> = None;
        let mut i: usize = 0;
        proof {
            assert(self.markers@.take(0int) =~= Seq::<ProjectMarker>::empty());
        }
        while i < n
            invariant
                i <= n,
                n == self.markers@.len(),
                match best {
                    None => spec_best_marker(self.markers@.take(i as int), dir.name@, dir.entries@)
                        is None,
                    Some(b) => b < i && spec_best_marker(
                        self.markers@.take(i as int),
                        dir.name@,
                        dir.entries@,
                    ) == Some(b as int),
                },
            decreases n - i,
        {
            proof {
                assert(self.markers@.take(i as int + 1).drop_last() =~= self.markers@.take(
                    i as int,
                ));
                assert(self.markers@.take(i as int + 1).last() == self.markers@[i as int]);
            }
            if self.markers[i].indicator.matches(dir) {
                best = match best {
                    None => Some(i),
                    Some(b) => if self.markers[i].priority > self.markers[b].priority {
                        Some(i)
                    } else {
                        Some(b)
                    },
                };
            }
            i = i + 1;
        }
        proof {
            assert(self.markers@.take(n as int) =~= self.markers@);
        }
        match best {
            None => None,
            Some(b) => Some(self.markers[b].kind),
        }
    }
}

/// The built-in artifact directories of one kind, as owned strings.
fn builtin_artifact_dirs(kind: ProjectKind) -> (r: Vec<String>)
    ensures
        r.deep_view() == spec_builtin_artifacts(kind),
{
    let r: Vec<String> = match kind {
        ProjectKind::NodeNpm | ProjectKind::NodeYarn | ProjectKind::NodePnpm
        | ProjectKind::NodeBun | ProjectKind::Deno | ProjectKind::ReactNative => vec![
            "node_modules".to_owned(),
        ],
        ProjectKind::Rust | ProjectKind::JavaMaven | ProjectKind::Scala | ProjectKind::Clojure => vec![
            "target".to_owned(),
        ],
        ProjectKind::Go | ProjectKind::PhpComposer | ProjectKind::PhpLaravel
        | ProjectKind::RubyBundler | ProjectKind::RubyRails => vec!["vendor".to_owned()],
        ProjectKind::Cpp | ProjectKind::C => vec!["build".to_owned()],
        ProjectKind::Zig => vec!["zig-cache".to_owned(), "zig-out".to_owned()],
        ProjectKind::JavaGradle | ProjectKind::Kotlin | ProjectKind::Android => vec![
            "build".to_owned(),
            ".gradle".to_owned(),
        ],
        ProjectKind::DotNet | ProjectKind::FSharp => vec!["bin".to_owned(), "obj".to_owned()],
        ProjectKind::PythonPip | ProjectKind::PythonPoetry | ProjectKind::PythonPipenv
        | ProjectKind::PythonConda | ProjectKind::PythonUv => vec![
            "venv".to_owned(),
            ".venv".to_owned(),
            "__pycache__".to_owned(),
        ],
        ProjectKind::SwiftSpm => vec![".build".to_owned()],
        ProjectKind::SwiftXcode => vec!["build".to_owned(), "DerivedData".to_owned()],
        ProjectKind::Flutter => vec!["build".to_owned(), ".dart_tool".to_owned()],
        ProjectKind::Elixir => vec!["_build".to_owned(), "deps".to_owned()],
        ProjectKind::Haskell => vec!["dist-newstyle".to_owned(), ".stack-work".to_owned()],
        ProjectKind::OCaml => vec!["_build".to_owned()],
        ProjectKind::Lua => vec!["lua_modules".to_owned()],
        ProjectKind::Terraform => vec![".terraform".to_owned()],
        _ => Vec::new(),
    };
    proof {
        assert(r.deep_view() =~= spec_builtin_artifacts(kind));
    }
    r
}

} // verus!
