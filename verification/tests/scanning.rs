use line_counter::counter::{FileResult, LineCounts};
use line_counter::detect::{detect_project, RootEntry};
use line_counter::scanner::{
    collect_files, keep_path, keep_path_given, parts_below_root, scan_one, scan_relative, summarize, file_totals_fit, summary_counts_fit, ScanConfig,
};

fn file(name: &str) -> RootEntry {
    RootEntry { name: name.to_string(), exists: true, is_dir: false }
}

fn dir(name: &str) -> RootEntry {
    RootEntry { name: name.to_string(), exists: true, is_dir: true }
}

fn strings(v: &[&str]) -> Vec<String> {
    v.iter().map(|s| s.to_string()).collect()
}

#[test]
fn no_markers_no_profile() {
    assert!(detect_project(&vec![file("README.md"), dir("src")]).is_none());
    assert!(detect_project(&vec![]).is_none());
}

#[test]
fn rust_project_detected() {
    let p = detect_project(&vec![file("Cargo.toml"), dir("src")]).unwrap();
    assert_eq!(p.name, "Rust");
    assert_eq!(p.extensions, strings(&["rs", "toml"]));
    assert_eq!(p.excludes, strings(&["target"]));
}

#[test]
fn marker_directory_detects_node() {
    let p = detect_project(&vec![dir("node_modules")]).unwrap();
    assert_eq!(p.name, "Node.js");
}

#[test]
fn marker_file_must_exist() {
    let broken = RootEntry { name: "Cargo.toml".to_string(), exists: false, is_dir: false };
    assert!(detect_project(&vec![broken]).is_none());
}

#[test]
fn marker_dir_must_be_directory() {
    // A file named like a marker directory does not mark the project.
    assert!(detect_project(&vec![file("node_modules")]).is_none());
}

#[test]
fn monorepo_profiles_merge() {
    let p = detect_project(&vec![file("package.json"), file("tsconfig.json"), file("Cargo.toml")]).unwrap();
    assert_eq!(p.name, "Rust");
    assert_eq!(
        p.extensions,
        strings(&["rs", "toml", "ts", "tsx", "mts", "cts", "js", "jsx", "json", "mjs", "cjs"])
    );
    assert_eq!(
        p.excludes,
        strings(&["target", "node_modules", "dist", ".next", "build", "coverage", ".nuxt"])
    );
}

#[test]
fn typescript_preferred_over_node() {
    let p = detect_project(&vec![file("package.json"), file("tsconfig.json")]).unwrap();
    assert_eq!(p.name, "TypeScript");
    assert_eq!(p.extensions, strings(&["ts", "tsx", "mts", "cts", "js", "jsx", "json", "mjs", "cjs"]));
    assert_eq!(p.excludes, strings(&["node_modules", "dist", ".next", "build", "coverage", ".nuxt"]));
}

#[test]
fn first_matching_kind_names_the_profile() {
    let p = detect_project(&vec![file("tsconfig.json"), file("next.config.js")]).unwrap();
    assert_eq!(p.name, "TypeScript");
    let q = detect_project(&vec![file("package.json"), file("next.config.js")]).unwrap();
    assert_eq!(q.name, "Node.js");
    let r = detect_project(&vec![file("next.config.js")]).unwrap();
    assert_eq!(r.name, "React");
}

#[test]
fn cmake_excludes_build_directories() {
    let p = detect_project(&vec![file("CMakeLists.txt")]).unwrap();
    assert_eq!(p.excludes, strings(&["build", "cmake-build-debug", "cmake-build-release", "cmake-build-*"]));
}

#[test]
fn makefile_project_named_make() {
    let p = detect_project(&vec![file("Makefile")]).unwrap();
    assert_eq!(p.name, "C/C++ (Make)");
    assert_eq!(p.excludes, strings(&["build"]));
    let q = detect_project(&vec![file("CMakeLists.txt"), file("Makefile")]).unwrap();
    assert_eq!(q.name, "C/C++ (CMake)");
}

#[test]
fn dotnet_detected_by_solution_file() {
    let p = detect_project(&vec![file("App.sln")]).unwrap();
    assert_eq!(p.name, ".NET");
    assert_eq!(p.extensions, strings(&["cs", "csproj", "sln", "xml"]));
    assert_eq!(p.excludes, strings(&["bin", "obj", ".vs"]));
    let q = detect_project(&vec![file("Makefile"), file("Lib.csproj")]).unwrap();
    assert_eq!(q.name, "C/C++ (Make)");
    assert_eq!(q.excludes, strings(&["build", "bin", "obj", ".vs"]));
}

#[test]
fn python_markers() {
    let p = detect_project(&vec![file("requirements.txt")]).unwrap();
    assert_eq!(p.name, "Python");
    assert_eq!(p.extensions, strings(&["py", "pyi"]));
}

fn config(includes: &[&str], excludes: &[&str], count_all: bool) -> ScanConfig {
    ScanConfig {
        root: "/r".to_string(),
        include_exts: strings(includes),
        exclude_patterns: strings(excludes),
        count_all,
    }
}

#[test]
fn keep_path_excludes_directories_by_name() {
    let c = config(&[], &["node_modules", ".git", "target"], false);
    assert!(!keep_path(&c, "/r/node_modules/x.js"));
    assert!(!keep_path(&c, "/r/a/node_modules/b/x.js"));
    assert!(!keep_path(&c, "/r/.git/hooks/x.sh"));
    assert!(keep_path(&c, "/r/src/main.rs"));
    assert!(keep_path(&c, "/r/src/target_utils.rs"));
    assert!(keep_path(&c, "/r/src/my_target/x.rs"));
}

#[test]
fn keep_path_ignores_the_root_itself() {
    let c = ScanConfig {
        root: "/home/target/proj".to_string(),
        include_exts: vec![],
        exclude_patterns: strings(&["target"]),
        count_all: false,
    };
    assert!(keep_path(&c, "/home/target/proj/src/a.rs"));
    assert!(!keep_path(&c, "/home/target/proj/target/a.rs"));
}

#[test]
fn keep_path_excludes_directories_by_glob() {
    let c = config(&[], &["cmake-build-*"], false);
    assert!(!keep_path(&c, "/r/cmake-build-debug/main.c"));
    assert!(!keep_path(&c, "/r/cmake-build-relwithdebinfo/gen/main.c"));
    assert!(keep_path(&c, "/r/src/main.c"));
    let d = config(&[], &["*.egg-info"], false);
    assert!(!keep_path(&d, "/r/pkg.egg-info/setup.py"));
    assert!(keep_path(&d, "/r/pkg/setup.py"));
}

#[test]
fn keep_path_excludes_files_by_name_and_glob() {
    let c = config(&[], &["generated.rs"], false);
    assert!(!keep_path(&c, "/r/src/generated.rs"));
    assert!(keep_path(&c, "/r/src/not_generated.rs"));
    let d = config(&[], &["*.min.js"], false);
    assert!(!keep_path(&d, "/r/dist/app.min.js"));
    assert!(keep_path(&d, "/r/dist/app.js"));
}

#[test]
fn keep_path_excludes_runs_of_parts() {
    let c = config(&[], &["src/legacy"], false);
    assert!(!keep_path(&c, "/r/src/legacy/old.rs"));
    assert!(keep_path(&c, "/r/src/legacy_new/x.rs"));
    assert!(keep_path(&c, "/r/lib/src/legacyx.rs"));
}

#[test]
fn keep_path_glob_over_whole_path() {
    let c = config(&[], &["*/gen/*"], false);
    assert!(!keep_path(&c, "/r/a/gen/x.rs"));
    assert!(keep_path(&c, "/r/a/general/x.rs"));
}

#[test]
fn keep_path_without_list_needs_known_language() {
    let c = config(&[], &[], false);
    assert!(keep_path(&c, "/r/src/lib.rs"));
    assert!(!keep_path(&c, "/r/notes.txt"));
    assert!(!keep_path(&c, "/r/Makefile"));
    assert!(!keep_path(&c, "/r/src/Main.RS"));
    let all = config(&[], &[], true);
    assert!(keep_path(&all, "/r/notes.txt"));
    assert!(keep_path(&all, "/r/Makefile"));
}

#[test]
fn keep_path_checks_extensions() {
    let c = config(&["rs", "toml"], &[], false);
    assert!(keep_path(&c, "/r/src/lib.rs"));
    assert!(keep_path(&c, "/r/Cargo.TOML"));
    assert!(!keep_path(&c, "/r/README.md"));
    assert!(!keep_path(&c, "/r/Makefile"));
    let txt = config(&["txt"], &[], false);
    assert!(keep_path(&txt, "/r/notes.txt"));
    let all = config(&["rs"], &[], true);
    assert!(keep_path(&all, "/r/README.md"));
}

#[test]
fn parts_below_root_lists_parts() {
    assert_eq!(parts_below_root("/r", "/r/a/b/c.rs"), strings(&["", "a", "b", "c.rs"]));
    assert_eq!(parts_below_root("/r", "/r/c.rs"), strings(&["", "c.rs"]));
    assert_eq!(parts_below_root("/r/", "/r/a/c.rs"), strings(&["a", "c.rs"]));
    assert_eq!(parts_below_root("/q", "x\\y/z.rs"), strings(&["x", "y", "z.rs"]));
}

#[test]
fn collect_files_keeps_order() {
    let c = config(&["rs"], &["target"], false);
    let walked = strings(&["/r/a.rs", "/r/target/b.rs", "/r/c.md", "/r/d.rs"]);
    assert_eq!(collect_files(&c, &walked), strings(&["/r/a.rs", "/r/d.rs"]));
}

#[test]
fn scan_relative_builds_result() {
    let r = scan_relative("/r/src/Main.RS", "src\\Main.RS", "// hi\nfn x() {}\n");
    assert_eq!(r.path, "src/Main.RS");
    assert_eq!(r.language, "Other");
    assert_eq!(r.extension, "rs");
    assert_eq!((r.counts.code, r.counts.comments, r.counts.blank), (2, 0, 0));
    let s = scan_relative("/r/src/main.rs", "src/main.rs", "// hi\nfn x() {}\n\n");
    assert_eq!(s.language, "Rust");
    assert_eq!((s.counts.code, s.counts.comments, s.counts.blank), (1, 1, 1));
    let t = scan_relative("/r/Makefile", "Makefile", "all:\n");
    assert_eq!(t.extension, "");
    assert_eq!(t.language, "Other");
}

#[test]
fn scan_one_shows_path_below_root() {
    let r = scan_one("/r/src/main.rs", "/r", "fn x() {}\n");
    assert_eq!(r.path, "src/main.rs");
    assert_eq!(r.language, "Rust");
    let s = scan_one("/r/src\\a.rs", "/r/", "");
    assert_eq!(s.path, "src/a.rs");
    let t = scan_one("/other/b.rs", "/r", "");
    assert_eq!(t.path, "/other/b.rs");
    let u = scan_one("/rx/b.rs", "/r", "");
    assert_eq!(u.path, "/rx/b.rs");
}

fn result(path: &str, lang: &str, code: usize, comments: usize, blank: usize) -> FileResult {
    FileResult {
        path: path.to_string(),
        language: lang.to_string(),
        extension: String::new(),
        counts: LineCounts { code, comments, blank },
    }
}

#[test]
fn summarize_groups_and_sorts() {
    let results = vec![
        result("a.rs", "Rust", 10, 2, 1),
        result("b.py", "Python", 50, 0, 0),
        result("c.rs", "Rust", 5, 5, 5),
        result("d.md", "Markdown", 1, 0, 0),
    ];
    let s = summarize(&results);
    assert_eq!(s.total_files, 4);
    assert_eq!((s.total_counts.code, s.total_counts.comments, s.total_counts.blank), (66, 7, 6));
    let langs: Vec<&str> = s.by_language.iter().map(|l| l.language.as_str()).collect();
    assert_eq!(langs, vec!["Python", "Rust", "Markdown"]);
    let rust = &s.by_language[1];
    assert_eq!(rust.files, 2);
    assert_eq!((rust.counts.code, rust.counts.comments, rust.counts.blank), (15, 7, 6));
    let files: usize = s.by_language.iter().map(|l| l.files).sum();
    assert_eq!(files, s.total_files);
}

#[test]
fn summarize_empty() {
    let s = summarize(&vec![]);
    assert_eq!(s.total_files, 0);
    assert_eq!(s.total_counts.total(), 0);
    assert!(s.by_language.is_empty());
}

#[test]
fn line_totals_checked() {
    assert!(summary_counts_fit(&vec![result("a", "Rust", 1, 2, 3)]));
    assert!(summary_counts_fit(&vec![]));
    assert!(!summary_counts_fit(&vec![result("a", "Rust", usize::MAX, 0, 0), result("b", "Go", 1, 0, 0)]));
    assert!(!summary_counts_fit(&vec![result("a", "Rust", usize::MAX, 1, 0)]));
    let big = vec![result("a", "Rust", usize::MAX - 1, 0, 0), result("b", "Go", 0, 2, 0)];
    assert!(summary_counts_fit(&big));
    let s = summarize(&big);
    assert_eq!(s.total_counts.code, usize::MAX - 1);
    assert_eq!(s.total_counts.comments, 2);
    assert_eq!(s.by_language[0].language, "Rust");
    assert!(!summary_counts_fit(&vec![result("a", "Rust", usize::MAX - 1, 0, 0), result("b", "Rust", 0, 2, 0)]));
    assert!(file_totals_fit(&vec![result("a", "Rust", usize::MAX - 1, 1, 0)]));
    assert!(!file_totals_fit(&vec![result("a", "Rust", usize::MAX, 0, 1)]));
}

#[test]
fn keep_path_given_uses_glob_results() {
    let c = config(&[], &["*.min"], false);
    let y = Some("js");
    assert!(!keep_path_given(&c, "/r/a.min/x.js", &vec![vec![false, true, false]], &vec![false], y, y));
    assert!(!keep_path_given(&c, "/r/a.min/x.js", &vec![vec![false, false, false]], &vec![true], y, y));
    assert!(keep_path_given(&c, "/r/a.min/x.js", &vec![vec![false, false, false]], &vec![false], y, y));
}

#[test]
fn keep_path_given_checks_named_parts() {
    let c = config(&[], &["vendor"], false);
    let g = Some("go");
    assert!(!keep_path_given(&c, "/r/vendor/a.go", &vec![vec![false, false, false]], &vec![false], g, g));
    assert!(keep_path_given(&c, "/r/vendor.go", &vec![vec![false, false]], &vec![false], g, g));
    assert!(keep_path_given(&c, "/r/my_vendor/a.go", &vec![vec![false, false, false]], &vec![false], g, g));
}

#[test]
fn keep_path_given_uses_extension() {
    let c = config(&["rs", "toml"], &[], false);
    assert!(keep_path_given(&c, "/r/x", &vec![], &vec![], Some("TOML"), Some("toml")));
    assert!(!keep_path_given(&c, "/r/x", &vec![], &vec![], Some("md"), Some("md")));
    assert!(!keep_path_given(&c, "/r/x", &vec![], &vec![], None, None));
    let known = config(&[], &[], false);
    assert!(keep_path_given(&known, "/r/x", &vec![], &vec![], Some("rs"), Some("rs")));
    assert!(!keep_path_given(&known, "/r/x", &vec![], &vec![], Some("RS"), Some("rs")));
    assert!(!keep_path_given(&known, "/r/x", &vec![], &vec![], Some("txt"), Some("txt")));
    let all = config(&["rs"], &[], true);
    assert!(keep_path_given(&all, "/r/x", &vec![], &vec![], None, None));
}
