//! Project ecosystem kinds.

use vstd::prelude::*;

verus! {

/// The type/ecosystem of a detected project.
#[derive(Debug, Clone, Copy, PartialEq, Eq, Hash, Structural)]
#[non_exhaustive]
pub enum ProjectKind {
    NodeNpm,
    NodeYarn,
    NodePnpm,
    NodeBun,
    Deno,
    Rust,
    Go,
    Cpp,
    C,
    Zig,
    JavaMaven,
    JavaGradle,
    Kotlin,
    Scala,
    Clojure,
    DotNet,
    FSharp,
    PythonPip,
    PythonPoetry,
    PythonPipenv,
    PythonConda,
    PythonUv,
    RubyBundler,
    RubyRails,
    PhpComposer,
    PhpLaravel,
    SwiftSpm,
    SwiftXcode,
    Flutter,
    ReactNative,
    Android,
    Elixir,
    Haskell,
    OCaml,
    Julia,
    R,
    Lua,
    Perl,
    Terraform,
    Pulumi,
    Docker,
    /// Custom plugin-defined project type.
    Custom(u32),
}

impl ProjectKind {
    /// Whether this kind belongs to the Node.js/JavaScript family.
    pub open spec fn spec_is_node(self) -> bool {
        self is NodeNpm || self is NodeYarn || self is NodePnpm || self is NodeBun || self is Deno
    }

    /// Whether this kind belongs to the Python family.
    pub open spec fn spec_is_python(self) -> bool {
        self is PythonPip || self is PythonPoetry || self is PythonPipenv || self is PythonConda
            || self is PythonUv
    }

    /// Whether this kind belongs to the JVM family.
    pub open spec fn spec_is_java(self) -> bool {
        self is JavaMaven || self is JavaGradle || self is Kotlin || self is Scala
            || self is Clojure
    }

    /// The human-readable name of each kind.
    pub open spec fn spec_display_name(self) -> Seq<char> {
        match self {
            ProjectKind::NodeNpm => "Node.js (npm)"@,
            ProjectKind::NodeYarn => "Node.js (Yarn)"@,
            ProjectKind::NodePnpm => "Node.js (pnpm)"@,
            ProjectKind::NodeBun => "Bun"@,
            ProjectKind::Deno => "Deno"@,
            ProjectKind::Rust => "Rust (Cargo)"@,
            ProjectKind::Go => "Go"@,
            ProjectKind::Cpp => "C++"@,
            ProjectKind::C => "C"@,
            ProjectKind::Zig => "Zig"@,
            ProjectKind::JavaMaven => "Java (Maven)"@,
            ProjectKind::JavaGradle => "Java (Gradle)"@,
            ProjectKind::Kotlin => "Kotlin"@,
            ProjectKind::Scala => "Scala"@,
            ProjectKind::Clojure => "Clojure"@,
            ProjectKind::DotNet => ".NET"@,
            ProjectKind::FSharp => "F#"@,
            ProjectKind::PythonPip => "Python (pip)"@,
            ProjectKind::PythonPoetry => "Python (Poetry)"@,
            ProjectKind::PythonPipenv => "Python (Pipenv)"@,
            ProjectKind::PythonConda => "Python (Conda)"@,
            ProjectKind::PythonUv => "Python (uv)"@,
            ProjectKind::RubyBundler => "Ruby (Bundler)"@,
            ProjectKind::RubyRails => "Ruby on Rails"@,
            ProjectKind::PhpComposer => "PHP (Composer)"@,
            ProjectKind::PhpLaravel => "PHP (Laravel)"@,
            ProjectKind::SwiftSpm => "Swift (SPM)"@,
            ProjectKind::SwiftXcode => "Swift (Xcode)"@,
            ProjectKind::Flutter => "Flutter"@,
            ProjectKind::ReactNative => "React Native"@,
            ProjectKind::Android => "Android"@,
            ProjectKind::Elixir => "Elixir"@,
            ProjectKind::Haskell => "Haskell"@,
            ProjectKind::OCaml => "OCaml"@,
            ProjectKind::Julia => "Julia"@,
            ProjectKind::R => "R"@,
            ProjectKind::Lua => "Lua"@,
            ProjectKind::Perl => "Perl"@,
            ProjectKind::Terraform => "Terraform"@,
            ProjectKind::Pulumi => "Pulumi"@,
            ProjectKind::Docker => "Docker"@,
            ProjectKind::Custom(_) => "Custom"@,
        }
    }

    /// The display icon of each kind.
    pub open spec fn spec_icon(self) -> Seq<char> {
        if self.spec_is_node() {
            "[js]"@
        } else if self.spec_is_python() {
            "[py]"@
        } else if self.spec_is_java() {
            "[jvm]"@
        } else {
            match self {
                ProjectKind::Rust => "[rs]"@,
                ProjectKind::Go => "[go]"@,
                ProjectKind::Cpp | ProjectKind::C => "[c]"@,
                ProjectKind::Zig => "[zig]"@,
                ProjectKind::DotNet | ProjectKind::FSharp => "[net]"@,
                ProjectKind::RubyBundler | ProjectKind::RubyRails => "[rb]"@,
                ProjectKind::PhpComposer | ProjectKind::PhpLaravel => "[php]"@,
                ProjectKind::SwiftSpm | ProjectKind::SwiftXcode => "[swift]"@,
                ProjectKind::Flutter => "[flutter]"@,
                ProjectKind::ReactNative => "[rn]"@,
                ProjectKind::Android => "[android]"@,
                ProjectKind::Elixir => "[ex]"@,
                ProjectKind::Haskell => "[hs]"@,
                ProjectKind::OCaml => "[ml]"@,
                ProjectKind::Julia => "[jl]"@,
                ProjectKind::R => "[r]"@,
                ProjectKind::Lua => "[lua]"@,
                ProjectKind::Perl => "[pl]"@,
                ProjectKind::Terraform | ProjectKind::Pulumi => "[infra]"@,
                ProjectKind::Docker => "[docker]"@,
                _ => "[dir]"@,
            }
        }
    }

    /// Get a human-readable name for this project kind.
    pub fn display_name(&self) -> (r: &'static str)
        ensures
            r@ == self.spec_display_name(),
    {
        match self {
            Self::NodeNpm => "Node.js (npm)",
            Self::NodeYarn => "Node.js (Yarn)",
            Self::NodePnpm => "Node.js (pnpm)",
            Self::NodeBun => "Bun",
            Self::Deno => "Deno",
            Self::Rust => "Rust (Cargo)",
            Self::Go => "Go",
            Self::Cpp => "C++",
            Self::C => "C",
            Self::Zig => "Zig",
            Self::JavaMaven => "Java (Maven)",
            Self::JavaGradle => "Java (Gradle)",
            Self::Kotlin => "Kotlin",
            Self::Scala => "Scala",
            Self::Clojure => "Clojure",
            Self::DotNet => ".NET",
            Self::FSharp => "F#",
            Self::PythonPip => "Python (pip)",
            Self::PythonPoetry => "Python (Poetry)",
            Self::PythonPipenv => "Python (Pipenv)",
            Self::PythonConda => "Python (Conda)",
            Self::PythonUv => "Python (uv)",
            Self::RubyBundler => "Ruby (Bundler)",
            Self::RubyRails => "Ruby on Rails",
            Self::PhpComposer => "PHP (Composer)",
            Self::PhpLaravel => "PHP (Laravel)",
            Self::SwiftSpm => "Swift (SPM)",
            Self::SwiftXcode => "Swift (Xcode)",
            Self::Flutter => "Flutter",
            Self::ReactNative => "React Native",
            Self::Android => "Android",
            Self::Elixir => "Elixir",
            Self::Haskell => "Haskell",
            Self::OCaml => "OCaml",
            Self::Julia => "Julia",
            Self::R => "R",
            Self::Lua => "Lua",
            Self::Perl => "Perl",
            Self::Terraform => "Terraform",
            Self::Pulumi => "Pulumi",
            Self::Docker => "Docker",
            Self::Custom(_) => "Custom",
        }
    }

    /// Get the icon for this project kind.
    pub fn icon(&self) -> (r: &'static str)
        ensures
            r@ == self.spec_icon(),
    {
        match self {
            Self::NodeNpm | Self::NodeYarn | Self::NodePnpm | Self::NodeBun | Self::Deno => "[js]",
            Self::Rust => "[rs]",
            Self::Go => "[go]",
            Self::Cpp | Self::C => "[c]",
            Self::Zig => "[zig]",
            Self::JavaMaven | Self::JavaGradle | Self::Kotlin | Self::Scala | Self::Clojure => {
                "[jvm]"
            },
            Self::DotNet | Self::FSharp => "[net]",
            Self::PythonPip | Self::PythonPoetry | Self::PythonPipenv | Self::PythonConda
            | Self::PythonUv => "[py]",
            Self::RubyBundler | Self::RubyRails => "[rb]",
            Self::PhpComposer | Self::PhpLaravel => "[php]",
            Self::SwiftSpm | Self::SwiftXcode => "[swift]",
            Self::Flutter => "[flutter]",
            Self::ReactNative => "[rn]",
            Self::Android => "[android]",
            Self::Elixir => "[ex]",
            Self::Haskell => "[hs]",
            Self::OCaml => "[ml]",
            Self::Julia => "[jl]",
            Self::R => "[r]",
            Self::Lua => "[lua]",
            Self::Perl => "[pl]",
            Self::Terraform | Self::Pulumi => "[infra]",
            Self::Docker => "[docker]",
            Self::Custom(_) => "[dir]",
        }
    }

    /// Check if this is a Node.js/JavaScript project.
    pub fn is_node(&self) -> (r: bool)
        ensures
            r == self.spec_is_node(),
    {
        matches!(
            self,
            Self::NodeNpm | Self::NodeYarn | Self::NodePnpm | Self::NodeBun | Self::Deno
        )
    }

    /// Check if this is a Rust project.
    pub fn is_rust(&self) -> (r: bool)
        ensures
            r == (*self is Rust),
    {
        matches!(self, Self::Rust)
    }

    /// Check if this is a Python project.
    pub fn is_python(&self) -> (r: bool)
        ensures
            r == self.spec_is_python(),
    {
        matches!(
            self,
            Self::PythonPip | Self::PythonPoetry | Self::PythonPipenv | Self::PythonConda
            | Self::PythonUv
        )
    }

    /// Check if this is a Java/JVM project.
    pub fn is_java(&self) -> (r: bool)
        ensures
            r == self.spec_is_java(),
    {
        matches!(
            self,
            Self::JavaMaven | Self::JavaGradle | Self::Kotlin | Self::Scala | Self::Clojure
        )
    }

    /// Check if this is a Go project.
    pub fn is_go(&self) -> (r: bool)
        ensures
            r == (*self is Go),
    {
        matches!(self, Self::Go)
    }

    /// Check if this is a Swift/iOS project.
    pub fn is_swift(&self) -> (r: bool)
        ensures
            r == (*self is SwiftSpm || *self is SwiftXcode),
    {
        matches!(self, Self::SwiftSpm | Self::SwiftXcode)
    }

    /// Check if this is a .NET project.
    pub fn is_dotnet(&self) -> (r: bool)
        ensures
            r == (*self is DotNet || *self is FSharp),
    {
        matches!(self, Self::DotNet | Self::FSharp)
    }
}

} // verus!
