//! Detecting the kind of project in a directory from the files at its root.
use crate::lang::str_views;
use crate::text::{chars_equal, chars_of, dedup, ends_with, extend_unique, lemma_dedup, string_views};
use vstd::prelude::*;

verus! {

/// What a scan of a detected project counts and leaves out.
#[derive(Debug)]
pub struct ProjectProfile {
    pub name: &'static str,
    pub extensions: Vec<String>,
    pub excludes: Vec<String>,
}

/// One entry of the project's root directory: its name, whether it exists
/// (following symbolic links) and whether it is a directory.
#[derive(Debug, Clone)]
pub struct RootEntry {
    pub name: String,
    pub exists: bool,
    pub is_dir: bool,
}

/// The model of a `ProjectProfile`.
#[verifier::ext_equal]
pub struct ProfileSpec {
    pub name: Seq<char>,
    pub extensions: Seq<Seq<char>>,
    pub excludes: Seq<Seq<char>>,
}

impl View for ProjectProfile {
    type V = ProfileSpec;

    open spec fn view(&self) -> ProfileSpec {
        ProfileSpec {
            name: self.name@,
            extensions: string_views(self.extensions@),
            excludes: string_views(self.excludes@),
        }
    }
}

/// The model of an optional profile.
pub open spec fn opt_profile_view(p: Option<ProjectProfile>) -> Option<ProfileSpec> {
    match p {
        Some(x) => Some(x@),
        None => None,
    }
}

/// A kind of project: the files or directories at the root that mark it,
/// the extensions it counts and the paths it leaves out.
#[derive(Clone, Copy)]
struct ProjectSignature {
    name: &'static str,
    marker_files: &'static [&'static str],
    marker_dirs: &'static [&'static str],
    extensions: &'static [&'static str],
    excludes: &'static [&'static str],
}

/// The model of a project signature.
#[verifier::ext_equal]
pub struct SignatureSpec {
    pub name: Seq<char>,
    pub marker_files: Seq<Seq<char>>,
    pub marker_dirs: Seq<Seq<char>>,
    pub extensions: Seq<Seq<char>>,
    pub excludes: Seq<Seq<char>>,
}

impl ProjectSignature {
    spec fn model(self) -> SignatureSpec {
        SignatureSpec {
            name: self.name@,
            marker_files: str_views(self.marker_files@),
            marker_dirs: str_views(self.marker_dirs@),
            extensions: str_views(self.extensions@),
            excludes: str_views(self.excludes@),
        }
    }
}

/// The known kinds of project, ordered so that where two overlap the more
/// specific one comes first (TypeScript before plain Node.js, CMake before
/// Make). Where several kinds match, the profile takes the name of the
/// first.
pub open spec fn signature_table() -> Seq<SignatureSpec> {
    seq![
        SignatureSpec {
            name: "Rust"@,
            marker_files: seq!["Cargo.toml"@],
            marker_dirs: seq![],
            extensions: seq!["rs"@, "toml"@],
            excludes: seq!["target"@],
        },
        SignatureSpec {
            name: "TypeScript"@,
            marker_files: seq!["tsconfig.json"@],
            marker_dirs: seq![],
            extensions: seq!["ts"@, "tsx"@, "mts"@, "cts"@, "js"@, "jsx"@, "json"@],
            excludes: seq!["node_modules"@, "dist"@, ".next"@, "build"@, "coverage"@, ".nuxt"@],
        },
        SignatureSpec {
            name: "Node.js"@,
            marker_files: seq!["package.json"@],
            marker_dirs: seq!["node_modules"@],
            extensions: seq!["js"@, "mjs"@, "cjs"@, "json"@],
            excludes: seq!["node_modules"@, "dist"@, ".next"@, "build"@, "coverage"@, ".nuxt"@],
        },
        SignatureSpec {
            name: "React"@,
            marker_files: seq!["next.config.js"@, "next.config.mjs"@, "next.config.ts"@],
            marker_dirs: seq![".next"@],
            extensions: seq!["tsx"@, "ts"@, "jsx"@, "js"@, "css"@, "scss"@, "json"@],
            excludes: seq!["node_modules"@, ".next"@, "dist"@, "build"@, "coverage"@, "out"@],
        },
        SignatureSpec {
            name: "Vue"@,
            marker_files: seq!["vue.config.js"@, "nuxt.config.ts"@, "nuxt.config.js"@],
            marker_dirs: seq![],
            extensions: seq!["vue"@, "ts"@, "js"@, "css"@, "scss"@, "json"@],
            excludes: seq!["node_modules"@, "dist"@, ".nuxt"@, "build"@, "coverage"@],
        },
        SignatureSpec {
            name: "Svelte"@,
            marker_files: seq!["svelte.config.js"@],
            marker_dirs: seq![],
            extensions: seq!["svelte"@, "ts"@, "js"@, "css"@, "json"@],
            excludes: seq!["node_modules"@, ".svelte-kit"@, "dist"@, "build"@],
        },
        SignatureSpec {
            name: "Python"@,
            marker_files: seq!["pyproject.toml"@, "setup.py"@, "setup.cfg"@, "Pipfile"@, "requirements.txt"@],
            marker_dirs: seq![],
            extensions: seq!["py"@, "pyi"@],
            excludes: seq!["__pycache__"@, ".venv"@, "venv"@, ".env"@, "dist"@, "build"@, ".eggs"@, "*.egg-info"@],
        },
        SignatureSpec {
            name: "Go"@,
            marker_files: seq!["go.mod"@],
            marker_dirs: seq![],
            extensions: seq!["go"@],
            excludes: seq!["vendor"@],
        },
        SignatureSpec {
            name: "Java (Maven)"@,
            marker_files: seq!["pom.xml"@],
            marker_dirs: seq![],
            extensions: seq!["java"@, "xml"@],
            excludes: seq!["target"@, ".gradle"@, "build"@],
        },
        SignatureSpec {
            name: "Java (Gradle)"@,
            marker_files: seq!["build.gradle"@, "build.gradle.kts"@],
            marker_dirs: seq![],
            extensions: seq!["java"@, "kt"@, "kts"@, "xml"@, "gradle"@],
            excludes: seq![".gradle"@, "build"@, "target"@],
        },
        SignatureSpec {
            name: ".NET"@,
            marker_files: seq![],
            marker_dirs: seq![],
            extensions: seq!["cs"@, "csproj"@, "sln"@, "xml"@],
            excludes: seq!["bin"@, "obj"@, ".vs"@],
        },
        SignatureSpec {
            name: "Ruby"@,
            marker_files: seq!["Gemfile"@],
            marker_dirs: seq![],
            extensions: seq!["rb"@, "erb"@, "yml"@],
            excludes: seq!["vendor"@, ".bundle"@, "tmp"@, "log"@],
        },
        SignatureSpec {
            name: "PHP"@,
            marker_files: seq!["composer.json"@],
            marker_dirs: seq![],
            extensions: seq!["php"@, "blade.php"@, "json"@],
            excludes: seq!["vendor"@, "node_modules"@, "storage"@],
        },
        SignatureSpec {
            name: "Swift"@,
            marker_files: seq!["Package.swift"@],
            marker_dirs: seq![],
            extensions: seq!["swift"@],
            excludes: seq![".build"@, "Pods"@, "DerivedData"@],
        },
        SignatureSpec {
            name: "Flutter"@,
            marker_files: seq!["pubspec.yaml"@],
            marker_dirs: seq![],
            extensions: seq!["dart"@, "yaml"@],
            excludes: seq![".dart_tool"@, "build"@, ".flutter-plugins"@],
        },
        SignatureSpec {
            name: "Elixir"@,
            marker_files: seq!["mix.exs"@],
            marker_dirs: seq![],
            extensions: seq!["ex"@, "exs"@, "eex"@, "heex"@],
            excludes: seq!["_build"@, "deps"@, ".elixir_ls"@],
        },
        SignatureSpec {
            name: "Zig"@,
            marker_files: seq!["build.zig"@],
            marker_dirs: seq![],
            extensions: seq!["zig"@],
            excludes: seq!["zig-cache"@, "zig-out"@],
        },
        SignatureSpec {
            name: "Haskell"@,
            marker_files: seq!["stack.yaml"@, "cabal.project"@],
            marker_dirs: seq![],
            extensions: seq!["hs"@, "cabal"@],
            excludes: seq![".stack-work"@, "dist-newstyle"@],
        },
        SignatureSpec {
            name: "Scala"@,
            marker_files: seq!["build.sbt"@],
            marker_dirs: seq![],
            extensions: seq!["scala"@, "sbt"@],
            excludes: seq!["target"@, ".bsp"@, ".metals"@],
        },
        SignatureSpec {
            name: "C/C++ (CMake)"@,
            marker_files: seq!["CMakeLists.txt"@],
            marker_dirs: seq![],
            extensions: seq!["c"@, "h"@, "cpp"@, "cxx"@, "cc"@, "hpp"@, "hxx"@],
            excludes: seq!["build"@, "cmake-build-debug"@, "cmake-build-release"@, "cmake-build-*"@],
        },
        SignatureSpec {
            name: "C/C++ (Make)"@,
            marker_files: seq!["Makefile"@],
            marker_dirs: seq![],
            extensions: seq!["c"@, "h"@, "cpp"@, "cxx"@, "cc"@, "hpp"@, "hxx"@],
            excludes: seq!["build"@],
        },
    ]
}

/// Where the .NET kind stands in the table; it has no marker of its own and
/// is recognised by the extensions of the root's entries.
pub open spec fn dotnet_index() -> int {
    10
}

/// An entry named `f` exists at the root.
pub open spec fn file_present(entries: Seq<RootEntry>, f: Seq<char>) -> bool {
    exists|i: int| 0 <= i < entries.len() && #[trigger] entries[i].name@ == f && entries[i].exists
}

/// A directory named `d` is at the root.
pub open spec fn dir_present(entries: Seq<RootEntry>, d: Seq<char>) -> bool {
    exists|i: int| 0 <= i < entries.len() && #[trigger] entries[i].name@ == d && entries[i].is_dir
}

/// One of the marker files or marker directories of `sig` is at the root.
pub open spec fn signature_found(sig: SignatureSpec, entries: Seq<RootEntry>) -> bool {
    ||| exists|k: int|
        0 <= k < sig.marker_files.len() && file_present(entries, #[trigger] sig.marker_files[k])
    ||| exists|k: int|
        0 <= k < sig.marker_dirs.len() && dir_present(entries, #[trigger] sig.marker_dirs[k])
}

/// An entry of the root has a name ending in `.sln` or `.csproj`.
pub open spec fn has_dotnet_marker(entries: Seq<RootEntry>) -> bool {
    exists|i: int|
        0 <= i < entries.len() && (ends_with(#[trigger] entries[i].name@, ".sln"@) || ends_with(
            entries[i].name@,
            ".csproj"@,
        ))
}

/// The kinds found at the root, in table order, followed by .NET where the
/// root has a .NET marker and .NET is not among them yet.
pub open spec fn matched_signatures(entries: Seq<RootEntry>) -> Seq<SignatureSpec> {
    let found = signature_table().filter(|s: SignatureSpec| signature_found(s, entries));
    if has_dotnet_marker(entries) && !(exists|k: int|
        0 <= k < found.len() && #[trigger] found[k].name == ".NET"@) {
        found.push(signature_table()[dotnet_index()])
    } else {
        found
    }
}

/// The extensions of the given kinds, one after another.
pub open spec fn all_extensions(sigs: Seq<SignatureSpec>) -> Seq<Seq<char>> {
    sigs.map_values(|s: SignatureSpec| s.extensions).flatten()
}

/// The excluded paths of the given kinds, one after another.
pub open spec fn all_excludes(sigs: Seq<SignatureSpec>) -> Seq<Seq<char>> {
    sigs.map_values(|s: SignatureSpec| s.excludes).flatten()
}

/// The profile detected at a root: none where no kind matches; otherwise the
/// name of the first kind that matched, and the extensions and the excluded
/// paths of all kinds that matched, each kept once, in order of first
/// occurrence.
pub open spec fn detected_profile(entries: Seq<RootEntry>) -> Option<ProfileSpec> {
    let m = matched_signatures(entries);
    if m.len() == 0 {
        None
    } else {
        Some(
            ProfileSpec {
                name: m[0].name,
                extensions: dedup(all_extensions(m)),
                excludes: dedup(all_excludes(m)),
            },
        )
    }
}

/// An item stands in the concatenation of sequences exactly where it stands
/// in one of them.
pub proof fn lemma_flatten_contains(ss: Seq<Seq<Seq<char>>>, e: Seq<char>)
    ensures
        ss.flatten().contains(e) <==> exists|k: int| 0 <= k < ss.len() && #[trigger] ss[k].contains(e),
    decreases ss.len(),
{
    if ss.len() > 0 {
        let rest = ss.drop_first();
        lemma_flatten_contains(rest, e);
        let f = ss.flatten();
        assert(f == ss[0] + rest.flatten());
        if f.contains(e) {
            let i = choose|i: int| 0 <= i < f.len() && f[i] == e;
            if i < ss[0].len() {
                assert(ss[0][i] == e);
                assert(ss[0].contains(e));
            } else {
                assert(rest.flatten()[i - ss[0].len()] == e);
                assert(rest.flatten().contains(e));
                let k = choose|k: int| 0 <= k < rest.len() && #[trigger] rest[k].contains(e);
                assert(ss[k + 1] == rest[k]);
            }
        }
        if exists|k: int| 0 <= k < ss.len() && #[trigger] ss[k].contains(e) {
            let k = choose|k: int| 0 <= k < ss.len() && #[trigger] ss[k].contains(e);
            if k == 0 {
                let i = choose|i: int| 0 <= i < ss[0].len() && ss[0][i] == e;
                assert(f[i] == e);
            } else {
                assert(rest[k - 1] == ss[k]);
                assert(rest.flatten().contains(e));
                let i = choose|i: int| 0 <= i < rest.flatten().len() && rest.flatten()[i] == e;
                assert(f[i + ss[0].len()] == e);
            }
        }
    }
}

/// A detected profile names the first kind that matched, holds every
/// extension and every excluded path of all kinds that matched, each only
/// once, and nothing else; no profile is detected where no kind matched.
pub proof fn lemma_profile_merges_matches(entries: Seq<RootEntry>)
    ensures
        detected_profile(entries) is None <==> matched_signatures(entries).len() == 0,
        detected_profile(entries) matches Some(p) ==> {
            let m = matched_signatures(entries);
            &&& p.name == m[0].name
            &&& forall|i: int, j: int|
                0 <= i < j < p.extensions.len() ==> p.extensions[i] != p.extensions[j]
            &&& forall|i: int, j: int|
                0 <= i < j < p.excludes.len() ==> p.excludes[i] != p.excludes[j]
            &&& forall|e: Seq<char>|
                #[trigger] p.extensions.contains(e) <==> exists|k: int|
                    0 <= k < m.len() && #[trigger] m[k].extensions.contains(e)
            &&& forall|e: Seq<char>|
                #[trigger] p.excludes.contains(e) <==> exists|k: int|
                    0 <= k < m.len() && #[trigger] m[k].excludes.contains(e)
        },
{
    let m = matched_signatures(entries);
    if m.len() > 0 {
        let xs = m.map_values(|s: SignatureSpec| s.extensions);
        let es = m.map_values(|s: SignatureSpec| s.excludes);
        lemma_dedup(xs.flatten());
        lemma_dedup(es.flatten());
        assert forall|e: Seq<char>|
            #[trigger] dedup(xs.flatten()).contains(e) <==> exists|k: int|
                0 <= k < m.len() && #[trigger] m[k].extensions.contains(e) by {
            lemma_flatten_contains(xs, e);
            if exists|k: int| 0 <= k < m.len() && #[trigger] m[k].extensions.contains(e) {
                let k = choose|k: int| 0 <= k < m.len() && #[trigger] m[k].extensions.contains(e);
                assert(xs[k] == m[k].extensions);
            }
            if exists|k: int| 0 <= k < xs.len() && #[trigger] xs[k].contains(e) {
                let k = choose|k: int| 0 <= k < xs.len() && #[trigger] xs[k].contains(e);
                assert(xs[k] == m[k].extensions);
            }
        }
        assert forall|e: Seq<char>|
            #[trigger] dedup(es.flatten()).contains(e) <==> exists|k: int|
                0 <= k < m.len() && #[trigger] m[k].excludes.contains(e) by {
            lemma_flatten_contains(es, e);
            if exists|k: int| 0 <= k < m.len() && #[trigger] m[k].excludes.contains(e) {
                let k = choose|k: int| 0 <= k < m.len() && #[trigger] m[k].excludes.contains(e);
                assert(es[k] == m[k].excludes);
            }
            if exists|k: int| 0 <= k < es.len() && #[trigger] es[k].contains(e) {
                let k = choose|k: int| 0 <= k < es.len() && #[trigger] es[k].contains(e);
                assert(es[k] == m[k].excludes);
            }
        }
    }
}

fn signatures() -> (r: Vec<ProjectSignature>)
    ensures
        r@.map_values(|s: ProjectSignature| s.model()) == signature_table(),
{
    let r = vec![
        ProjectSignature {
            name: "Rust",
            marker_files: &["Cargo.toml"],
            marker_dirs: &[],
            extensions: &["rs", "toml"],
            excludes: &["target"],
        },
        ProjectSignature {
            name: "TypeScript",
            marker_files: &["tsconfig.json"],
            marker_dirs: &[],
            extensions: &["ts", "tsx", "mts", "cts", "js", "jsx", "json"],
            excludes: &["node_modules", "dist", ".next", "build", "coverage", ".nuxt"],
        },
        ProjectSignature {
            name: "Node.js",
            marker_files: &["package.json"],
            marker_dirs: &["node_modules"],
            extensions: &["js", "mjs", "cjs", "json"],
            excludes: &["node_modules", "dist", ".next", "build", "coverage", ".nuxt"],
        },
        ProjectSignature {
            name: "React",
            marker_files: &["next.config.js", "next.config.mjs", "next.config.ts"],
            marker_dirs: &[".next"],
            extensions: &["tsx", "ts", "jsx", "js", "css", "scss", "json"],
            excludes: &["node_modules", ".next", "dist", "build", "coverage", "out"],
        },
        ProjectSignature {
            name: "Vue",
            marker_files: &["vue.config.js", "nuxt.config.ts", "nuxt.config.js"],
            marker_dirs: &[],
            extensions: &["vue", "ts", "js", "css", "scss", "json"],
            excludes: &["node_modules", "dist", ".nuxt", "build", "coverage"],
        },
        ProjectSignature {
            name: "Svelte",
            marker_files: &["svelte.config.js"],
            marker_dirs: &[],
            extensions: &["svelte", "ts", "js", "css", "json"],
            excludes: &["node_modules", ".svelte-kit", "dist", "build"],
        },
        ProjectSignature {
            name: "Python",
            marker_files: &["pyproject.toml", "setup.py", "setup.cfg", "Pipfile", "requirements.txt"],
            marker_dirs: &[],
            extensions: &["py", "pyi"],
            excludes: &["__pycache__", ".venv", "venv", ".env", "dist", "build", ".eggs", "*.egg-info"],
        },
        ProjectSignature {
            name: "Go",
            marker_files: &["go.mod"],
            marker_dirs: &[],
            extensions: &["go"],
            excludes: &["vendor"],
        },
        ProjectSignature {
            name: "Java (Maven)",
            marker_files: &["pom.xml"],
            marker_dirs: &[],
            extensions: &["java", "xml"],
            excludes: &["target", ".gradle", "build"],
        },
        ProjectSignature {
            name: "Java (Gradle)",
            marker_files: &["build.gradle", "build.gradle.kts"],
            marker_dirs: &[],
            extensions: &["java", "kt", "kts", "xml", "gradle"],
            excludes: &[".gradle", "build", "target"],
        },
        ProjectSignature {
            name: ".NET",
            marker_files: &[],
            marker_dirs: &[],
            extensions: &["cs", "csproj", "sln", "xml"],
            excludes: &["bin", "obj", ".vs"],
        },
        ProjectSignature {
            name: "Ruby",
            marker_files: &["Gemfile"],
            marker_dirs: &[],
            extensions: &["rb", "erb", "yml"],
            excludes: &["vendor", ".bundle", "tmp", "log"],
        },
        ProjectSignature {
            name: "PHP",
            marker_files: &["composer.json"],
            marker_dirs: &[],
            extensions: &["php", "blade.php", "json"],
            excludes: &["vendor", "node_modules", "storage"],
        },
        ProjectSignature {
            name: "Swift",
            marker_files: &["Package.swift"],
            marker_dirs: &[],
            extensions: &["swift"],
            excludes: &[".build", "Pods", "DerivedData"],
        },
        ProjectSignature {
            name: "Flutter",
            marker_files: &["pubspec.yaml"],
            marker_dirs: &[],
            extensions: &["dart", "yaml"],
            excludes: &[".dart_tool", "build", ".flutter-plugins"],
        },
        ProjectSignature {
            name: "Elixir",
            marker_files: &["mix.exs"],
            marker_dirs: &[],
            extensions: &["ex", "exs", "eex", "heex"],
            excludes: &["_build", "deps", ".elixir_ls"],
        },
        ProjectSignature {
            name: "Zig",
            marker_files: &["build.zig"],
            marker_dirs: &[],
            extensions: &["zig"],
            excludes: &["zig-cache", "zig-out"],
        },
        ProjectSignature {
            name: "Haskell",
            marker_files: &["stack.yaml", "cabal.project"],
            marker_dirs: &[],
            extensions: &["hs", "cabal"],
            excludes: &[".stack-work", "dist-newstyle"],
        },
        ProjectSignature {
            name: "Scala",
            marker_files: &["build.sbt"],
            marker_dirs: &[],
            extensions: &["scala", "sbt"],
            excludes: &["target", ".bsp", ".metals"],
        },
        ProjectSignature {
            name: "C/C++ (CMake)",
            marker_files: &["CMakeLists.txt"],
            marker_dirs: &[],
            extensions: &["c", "h", "cpp", "cxx", "cc", "hpp", "hxx"],
            excludes: &["build", "cmake-build-debug", "cmake-build-release", "cmake-build-*"],
        },
        ProjectSignature {
            name: "C/C++ (Make)",
            marker_files: &["Makefile"],
            marker_dirs: &[],
            extensions: &["c", "h", "cpp", "cxx", "cc", "hpp", "hxx"],
            excludes: &["build"],
        },
    ];
    assert(r@.map_values(|s: ProjectSignature| s.model()) =~~= signature_table());
    r
}

/// The names of the entries, as character vectors.
fn names_of(entries: &Vec<RootEntry>) -> (r: Vec<Vec<char>>)
    ensures
        r@.len() == entries@.len(),
        forall|i: int| 0 <= i < r@.len() ==> #[trigger] r@[i]@ == entries@[i].name@,
{
    let mut r: Vec<Vec<char>> = Vec::new();
    let mut i: usize = 0;
    while i < entries.len()
        invariant
            i <= entries@.len(),
            r@.len() == i,
            forall|m: int| 0 <= m < i ==> #[trigger] r@[m]@ == entries@[m].name@,
        decreases entries@.len() - i,
    {
        r.push(chars_of(entries[i].name.as_str()));
        i = i + 1;
    }
    r
}

/// Whether an entry named `want` is at the root and exists (or, with
/// `dir`, is a directory).
fn entry_present(entries: &Vec<RootEntry>, names: &Vec<Vec<char>>, want: &str, dir: bool) -> (r:
    bool)
    requires
        names@.len() == entries@.len(),
        forall|i: int| 0 <= i < names@.len() ==> #[trigger] names@[i]@ == entries@[i].name@,
    ensures
        dir ==> r == dir_present(entries@, want@),
        !dir ==> r == file_present(entries@, want@),
{
    let w = chars_of(want);
    let mut i: usize = 0;
    while i < entries.len()
        invariant
            i <= entries@.len(),
            names@.len() == entries@.len(),
            forall|m: int| 0 <= m < names@.len() ==> #[trigger] names@[m]@ == entries@[m].name@,
            w@ == want@,
            forall|m: int|
                0 <= m < i ==> !(#[trigger] entries@[m].name@ == want@ && (if dir {
                    entries@[m].is_dir
                } else {
                    entries@[m].exists
                })),
        decreases entries@.len() - i,
    {
        let flag = if dir {
            entries[i].is_dir
        } else {
            entries[i].exists
        };
        if flag && chars_equal(&names[i], &w) {
            return true;
        }
        i = i + 1;
    }
    false
}

/// Whether one of `markers` is at the root (as a directory, with `dir`).
fn any_marker_present(
    entries: &Vec<RootEntry>,
    names: &Vec<Vec<char>>,
    markers: &[&'static str],
    dir: bool,
) -> (r: bool)
    requires
        names@.len() == entries@.len(),
        forall|i: int| 0 <= i < names@.len() ==> #[trigger] names@[i]@ == entries@[i].name@,
    ensures
        dir ==> r == exists|k: int|
            0 <= k < markers@.len() && dir_present(entries@, #[trigger] str_views(markers@)[k]),
        !dir ==> r == exists|k: int|
            0 <= k < markers@.len() && file_present(entries@, #[trigger] str_views(markers@)[k]),
{
    let mut k: usize = 0;
    while k < markers.len()
        invariant
            k <= markers@.len(),
            names@.len() == entries@.len(),
            forall|i: int| 0 <= i < names@.len() ==> #[trigger] names@[i]@ == entries@[i].name@,
            forall|m: int|
                0 <= m < k ==> !(if dir {
                    dir_present(entries@, #[trigger] str_views(markers@)[m])
                } else {
                    file_present(entries@, str_views(markers@)[m])
                }),
        decreases markers@.len() - k,
    {
        let present = entry_present(entries, names, markers[k], dir);
        assert(str_views(markers@)[k as int] == markers@[k as int]@);
        if present {
            return true;
        }
        k = k + 1;
    }
    false
}

/// Whether an entry of the root has a name ending in `.sln` or `.csproj`.
fn has_dotnet_markers(entries: &Vec<RootEntry>, names: &Vec<Vec<char>>) -> (r: bool)
    requires
        names@.len() == entries@.len(),
        forall|i: int| 0 <= i < names@.len() ==> #[trigger] names@[i]@ == entries@[i].name@,
    ensures
        r == has_dotnet_marker(entries@),
{
    let sln = chars_of(".sln");
    let csproj = chars_of(".csproj");
    let mut i: usize = 0;
    while i < names.len()
        invariant
            i <= names@.len(),
            names@.len() == entries@.len(),
            forall|m: int| 0 <= m < names@.len() ==> #[trigger] names@[m]@ == entries@[m].name@,
            sln@ == ".sln"@,
            csproj@ == ".csproj"@,
            forall|m: int|
                0 <= m < i ==> !(ends_with(#[trigger] entries@[m].name@, ".sln"@) || ends_with(
                    entries@[m].name@,
                    ".csproj"@,
                )),
        decreases names@.len() - i,
    {
        let n = names[i].len();
        let hit = crate::text::window_ends_with(&names[i], 0, n, &sln)
            || crate::text::window_ends_with(&names[i], 0, n, &csproj);
        assert(names@[i as int]@.subrange(0, n as int) =~= names@[i as int]@);
        if hit {
            return true;
        }
        i = i + 1;
    }
    false
}

/// The kind of project found at a root, from the entries of the root, with
/// the extensions to count and the paths to leave out; `None` where no kind
/// is recognised.
pub fn detect_project(entries: &Vec<RootEntry>) -> (r: Option<ProjectProfile>)
    ensures
        opt_profile_view(r) == detected_profile(entries@),
{
    let names = names_of(entries);
    let table = signatures();
    let ghost tab = signature_table();
    let ghost pred = |s: SignatureSpec| signature_found(s, entries@);
    let mut matched: Vec<usize> = Vec::new();
    let mut i: usize = 0;
    proof {
        reveal(Seq::filter);
        assert(tab.take(0).filter(pred) =~= Seq::<SignatureSpec>::empty());
    }
    while i < table.len()
        invariant
            i <= table@.len(),
            table@.map_values(|s: ProjectSignature| s.model()) == tab,
            tab == signature_table(),
            pred == (|s: SignatureSpec| signature_found(s, entries@)),
            names@.len() == entries@.len(),
            forall|m: int| 0 <= m < names@.len() ==> #[trigger] names@[m]@ == entries@[m].name@,
            forall|m: int| 0 <= m < matched@.len() ==> #[trigger] matched@[m] < tab.len(),
            matched@.map_values(|k: usize| tab[k as int]) == tab.take(i as int).filter(pred),
        decreases table@.len() - i,
    {
        let sig = table[i];
        assert(sig.model() == tab[i as int]);
        let by_file = any_marker_present(entries, &names, sig.marker_files, false);
        let by_dir = any_marker_present(entries, &names, sig.marker_dirs, true);
        let found = by_file || by_dir;
        proof {
            let ts = tab[i as int];
            assert(str_views(sig.marker_files@) == ts.marker_files);
            assert(str_views(sig.marker_dirs@) == ts.marker_dirs);
            if by_file {
                let k = choose|k: int|
                    0 <= k < sig.marker_files@.len() && file_present(entries@, #[trigger] str_views(sig.marker_files@)[k]);
                assert(file_present(entries@, ts.marker_files[k]));
            }
            if by_dir {
                let k = choose|k: int|
                    0 <= k < sig.marker_dirs@.len() && dir_present(entries@, #[trigger] str_views(sig.marker_dirs@)[k]);
                assert(dir_present(entries@, ts.marker_dirs[k]));
            }
            if signature_found(ts, entries@) {
                if exists|k: int| 0 <= k < ts.marker_files.len() && file_present(entries@, #[trigger] ts.marker_files[k]) {
                    let k = choose|k: int| 0 <= k < ts.marker_files.len() && file_present(entries@, #[trigger] ts.marker_files[k]);
                    assert(file_present(entries@, str_views(sig.marker_files@)[k]));
                } else {
                    let k = choose|k: int| 0 <= k < ts.marker_dirs.len() && dir_present(entries@, #[trigger] ts.marker_dirs[k]);
                    assert(dir_present(entries@, str_views(sig.marker_dirs@)[k]));
                }
            }
        }
        proof {
            reveal(Seq::filter);
            let t1 = tab.take(i + 1);
            assert(t1.drop_last() =~= tab.take(i as int));
            assert(t1.last() == tab[i as int]);
            assert(sig.marker_files@.map_values(|e: &str| e@) == tab[i as int].marker_files);
            assert(found == signature_found(tab[i as int], entries@));
            assert(found == pred(tab[i as int]));
        }
        let ghost before = matched@;
        if found {
            matched.push(i);
            assert(matched@.map_values(|k: usize| tab[k as int]) =~= before.map_values(
                |k: usize| tab[k as int],
            ).push(tab[i as int]));
        }
        i = i + 1;
    }
    assert(tab.take(table@.len() as int) =~= tab);
    let ghost found_sigs = tab.filter(pred);
    if has_dotnet_markers(entries, &names) {
        let dotnet = chars_of(".NET");
        let mut already = false;
        let mut k: usize = 0;
        while k < matched.len()
            invariant
                k <= matched@.len(),
                table@.map_values(|s: ProjectSignature| s.model()) == tab,
                forall|m: int| 0 <= m < matched@.len() ==> #[trigger] matched@[m] < tab.len(),
                matched@.map_values(|k: usize| tab[k as int]) == found_sigs,
                dotnet@ == ".NET"@,
                already == exists|m: int| 0 <= m < k && #[trigger] found_sigs[m].name == ".NET"@,
            decreases matched@.len() - k,
        {
            let name = chars_of(table[matched[k]].name);
            assert(found_sigs[k as int] == tab[matched@[k as int] as int]);
            assert(table@[matched@[k as int] as int].model() == tab[matched@[k as int] as int]);
            let same = chars_equal(&name, &dotnet);
            assert(name@ == found_sigs[k as int].name);
            if same {
                already = true;
            }
            k = k + 1;
        }
        if !already {
            matched.push(10);
            assert(matched@.map_values(|k: usize| tab[k as int]) =~= found_sigs.push(tab[10]));
        }
    }
    let ghost msigs = matched_signatures(entries@);
    assert(matched@.map_values(|k: usize| tab[k as int]) == msigs);
    if matched.len() == 0 {
        return None;
    }
    let mut extensions: Vec<String> = Vec::new();
    let mut excludes: Vec<String> = Vec::new();
    let mut j: usize = 0;
    assert(msigs.take(0).map_values(|s: SignatureSpec| s.extensions) =~= Seq::<
        Seq<Seq<char>>,
    >::empty());
    assert(msigs.take(0).map_values(|s: SignatureSpec| s.excludes) =~= Seq::<
        Seq<Seq<char>>,
    >::empty());
    assert(string_views(extensions@) =~= dedup(all_extensions(msigs.take(0))));
    assert(string_views(excludes@) =~= dedup(all_excludes(msigs.take(0))));
    while j < matched.len()
        invariant
            j <= matched@.len(),
            table@.map_values(|s: ProjectSignature| s.model()) == tab,
            forall|m: int| 0 <= m < matched@.len() ==> #[trigger] matched@[m] < tab.len(),
            matched@.map_values(|k: usize| tab[k as int]) == msigs,
            string_views(extensions@) == dedup(all_extensions(msigs.take(j as int))),
            string_views(excludes@) == dedup(all_excludes(msigs.take(j as int))),
        decreases matched@.len() - j,
    {
        let sig = table[matched[j]];
        proof {
            assert(sig.model() == msigs[j as int]);
            let t1 = msigs.take(j + 1);
            assert(t1 =~= msigs.take(j as int).push(msigs[j as int]));
            let fe = |s: SignatureSpec| s.extensions;
            let fx = |s: SignatureSpec| s.excludes;
            assert(t1.map_values(fe) =~= msigs.take(j as int).map_values(fe).push(
                msigs[j as int].extensions,
            ));
            assert(t1.map_values(fx) =~= msigs.take(j as int).map_values(fx).push(
                msigs[j as int].excludes,
            ));
            msigs.take(j as int).map_values(fe).lemma_flatten_push(msigs[j as int].extensions);
            msigs.take(j as int).map_values(fx).lemma_flatten_push(msigs[j as int].excludes);
        }
        extend_unique(&mut extensions, sig.extensions, Ghost(all_extensions(msigs.take(j as int))));
        extend_unique(&mut excludes, sig.excludes, Ghost(all_excludes(msigs.take(j as int))));
        j = j + 1;
    }
    assert(msigs.take(matched@.len() as int) =~= msigs);
    let first = table[matched[0]];
    assert(first.model() == msigs[0]);
    Some(ProjectProfile { name: first.name, extensions, excludes })
}

} // verus!
