//! The command-line options, and the rules that turn them into a scan.
use crate::detect::{ProfileSpec, ProjectProfile};
use crate::outside::{lowercase, lowercase_of, string_from_chars};
use crate::scanner::ScanConfig;
use crate::text::{chars_of, string_views};
use vstd::prelude::*;

verus! {

/// The options of a run.
#[derive(Debug, Clone)]
pub struct Cli {
    /// Root directory to scan.
    pub path: String,
    /// File extensions to count.
    pub include_exts: Vec<String>,
    /// Patterns to exclude.
    pub exclude: Vec<String>,
    /// Do not detect the kind of project.
    pub no_detect: bool,
    /// Count all file types, not just known languages.
    pub all: bool,
    /// Show only the summary.
    pub summary_only: bool,
    /// Show the per-file breakdown.
    pub per_file: bool,
    /// Output format: table, json, csv.
    pub format: String,
    /// Show the N largest files.
    pub top: Option<usize>,
    /// Export the summary to a JSON file.
    pub export_json: Option<String>,
    /// Export the summary to a CSV file.
    pub export_csv: Option<String>,
    /// Show a progress bar during the scan.
    pub progress: bool,
    /// Launch the interactive interface.
    pub tui: bool,
    /// Save the scan to the history.
    pub save: bool,
    /// A subcommand.
    pub command: Option<Commands>,
}

/// The subcommands.
#[derive(Debug, Clone)]
pub enum Commands {
    /// Show the scan history of a directory.
    History { path: String },
}

/// Whether the kind of project is detected: not where detection is turned
/// off, extensions are given by hand, or all files count.
pub fn detection_enabled(args: &Cli) -> (r: bool)
    ensures
        r == (!args.no_detect && args.include_exts@.len() == 0 && !args.all),
{
    !args.no_detect && args.include_exts.len() == 0 && !args.all
}

/// The paths left out where no kind of project is detected.
pub open spec fn fallback_excludes() -> Seq<Seq<char>> {
    seq![
        "node_modules"@,
        ".next"@,
        "target"@,
        "dist"@,
        "build"@,
        "__pycache__"@,
        ".venv"@,
        "vendor"@,
    ]
}

fn fallback_exclude_list() -> (r: Vec<&'static str>)
    ensures
        r@.map_values(|e: &str| e@) == fallback_excludes(),
{
    let r = vec!["node_modules", ".next", "target", "dist", "build", "__pycache__", ".venv", "vendor"];
    assert(r@.map_values(|e: &str| e@) =~= fallback_excludes());
    r
}

/// Number of `.` characters at the start of `s`.
pub open spec fn leading_dots(s: Seq<char>) -> nat
    decreases s.len(),
{
    if s.len() > 0 && s[0] == '.' {
        1 + leading_dots(s.drop_first())
    } else {
        0
    }
}

/// An extension as given on the command line, normalised: without leading
/// dots, lowercased.
pub open spec fn normalized_extension(e: Seq<char>) -> Seq<char> {
    lowercase_of(e.skip(leading_dots(e) as int))
}

/// The names (or glob patterns) of the directories whose files a scan
/// leaves out: `.git`, then those of the detected project (or the fallback
/// list where none is detected), then those given by hand.
pub open spec fn planned_excludes(args: Cli, profile: Option<ProfileSpec>) -> Seq<Seq<char>> {
    seq![".git"@] + match profile {
        Some(p) => p.excludes,
        None => fallback_excludes(),
    } + string_views(args.exclude@)
}

/// The exclude patterns do not depend on `--all` or on any other option but
/// the patterns given by hand: two sets of options with the same hand-given
/// patterns, and the same detected project, exclude the same.
pub proof fn lemma_excludes_ignore_other_options(a: Cli, b: Cli, profile: Option<ProfileSpec>)
    requires
        string_views(a.exclude@) == string_views(b.exclude@),
    ensures
        planned_excludes(a, profile) == planned_excludes(b, profile),
{
}

/// Where no project is detected, `.git` comes first, then every fallback
/// pattern, then the hand-given patterns in order; in particular the build
/// and dependency directories are left out, with or without `--all`.
pub proof fn lemma_fallback_excludes_kept(args: Cli)
    ensures
        planned_excludes(args, None).len() == 1 + fallback_excludes().len() + args.exclude@.len(),
        planned_excludes(args, None)[0] == ".git"@,
        forall|k: int|
            0 <= k < fallback_excludes().len() ==> #[trigger] planned_excludes(args, None)[1 + k]
                == fallback_excludes()[k],
        forall|k: int|
            0 <= k < args.exclude@.len() ==> #[trigger] planned_excludes(args, None)[1
                + fallback_excludes().len() + k] == args.exclude@[k]@,
        planned_excludes(args, None).contains("node_modules"@),
        planned_excludes(args, None).contains("target"@),
        planned_excludes(args, None).contains("dist"@),
        planned_excludes(args, None).contains("vendor"@),
{
    let p = planned_excludes(args, None);
    let f = fallback_excludes();
    assert(p[1] == f[0] && f[0] == "node_modules"@);
    assert(p[3] == f[2] && f[2] == "target"@);
    assert(p[4] == f[3] && f[3] == "dist"@);
    assert(p[8] == f[7] && f[7] == "vendor"@);
}

/// Where a project is detected, `.git` comes first, then every pattern of
/// the project, then the hand-given patterns in order.
pub proof fn lemma_profile_excludes_kept(args: Cli, p: ProfileSpec)
    ensures
        planned_excludes(args, Some(p)).len() == 1 + p.excludes.len() + args.exclude@.len(),
        planned_excludes(args, Some(p))[0] == ".git"@,
        forall|k: int|
            0 <= k < p.excludes.len() ==> #[trigger] planned_excludes(args, Some(p))[1 + k]
                == p.excludes[k],
        forall|k: int|
            0 <= k < args.exclude@.len() ==> #[trigger] planned_excludes(args, Some(p))[1
                + p.excludes.len() + k] == args.exclude@[k]@,
{
}

/// The extensions a scan counts: those given by hand, normalised, where
/// there are any; else those of the detected project; else none (all known
/// languages).
pub open spec fn planned_includes(args: Cli, profile: Option<ProfileSpec>) -> Seq<Seq<char>> {
    if args.include_exts@.len() > 0 {
        string_views(args.include_exts@).map_values(|e: Seq<char>| normalized_extension(e))
    } else {
        match profile {
            Some(p) => p.extensions,
            None => Seq::empty(),
        }
    }
}

/// The model of an optional reference to a profile.
pub open spec fn opt_profile_ref_view(p: Option<&ProjectProfile>) -> Option<ProfileSpec> {
    match p {
        Some(x) => Some(x@),
        None => None,
    }
}

/// `e` without the `.` characters at its start.
pub fn strip_leading_dots(e: &str) -> (r: String)
    ensures
        r@ == e@.skip(leading_dots(e@) as int),
{
    let c = chars_of(e);
    let mut i: usize = 0;
    assert(e@.skip(0) =~= e@);
    while i < c.len() && c[i] == '.'
        invariant
            i <= c@.len(),
            c@ == e@,
            leading_dots(e@) == i + leading_dots(e@.skip(i as int)),
        decreases c@.len() - i,
    {
        assert(e@.skip(i as int).drop_first() =~= e@.skip(i + 1));
        i = i + 1;
    }
    proof {
        let t = e@.skip(i as int);
        if i < c@.len() {
            assert(t[0] == c@[i as int]);
        }
        assert(leading_dots(t) == 0);
    }
    let mut rest: Vec<char> = Vec::new();
    let mut j = i;
    while j < c.len()
        invariant
            i <= j <= c@.len(),
            rest@ == c@.subrange(i as int, j as int),
        decreases c@.len() - j,
    {
        rest.push(c[j]);
        assert(rest@ =~= c@.subrange(i as int, j + 1));
        j = j + 1;
    }
    assert(rest@ =~= e@.skip(i as int));
    string_from_chars(&rest)
}

/// An extension given on the command line, without leading dots, lowercased.
pub fn normalize_extension(e: &str) -> (r: String)
    ensures
        r@ == normalized_extension(e@),
{
    let stripped = strip_leading_dots(e);
    lowercase(stripped.as_str())
}

/// Appends copies of `items` to `out`.
fn append_strings(out: &mut Vec<String>, items: &Vec<String>)
    ensures
        string_views(final(out)@) == string_views(old(out)@) + string_views(items@),
{
    let ghost start = string_views(out@);
    let mut i: usize = 0;
    while i < items.len()
        invariant
            i <= items@.len(),
            string_views(out@) == start + string_views(items@).take(i as int),
        decreases items@.len() - i,
    {
        let ghost before = string_views(out@);
        out.push(items[i].clone());
        assert(string_views(out@) =~= before.push(items@[i as int]@));
        assert(string_views(items@).take(i + 1) =~= string_views(items@).take(i as int).push(
            items@[i as int]@,
        ));
        assert(string_views(out@) =~= start + string_views(items@).take(i + 1));
        i = i + 1;
    }
    assert(string_views(items@).take(items@.len() as int) =~= string_views(items@));
}

/// The scan that the options and the detected project (if any) call for,
/// rooted at `root`.
pub fn scan_config(args: &Cli, root: String, profile: Option<&ProjectProfile>) -> (r: ScanConfig)
    ensures
        r.root == root,
        r.count_all == args.all,
        string_views(r.exclude_patterns@) == planned_excludes(*args, opt_profile_ref_view(profile)),
        string_views(r.include_exts@) == planned_includes(*args, opt_profile_ref_view(profile)),
{
    let mut excludes: Vec<String> = Vec::new();
    excludes.push(".git".to_owned());
    match profile {
        Some(p) => append_strings(&mut excludes, &p.excludes),
        None => {
            let fallback = fallback_exclude_list();
            let mut k: usize = 0;
            let ghost start = string_views(excludes@);
            while k < fallback.len()
                invariant
                    k <= fallback@.len(),
                    fallback@.map_values(|e: &str| e@) == fallback_excludes(),
                    string_views(excludes@) == start + fallback_excludes().take(k as int),
                decreases fallback@.len() - k,
            {
                let ghost before = string_views(excludes@);
                excludes.push(fallback[k].to_owned());
                assert(fallback_excludes()[k as int] == fallback@[k as int]@);
                assert(string_views(excludes@) =~= before.push(fallback@[k as int]@));
                assert(fallback_excludes().take(k + 1) =~= fallback_excludes().take(k as int).push(
                    fallback@[k as int]@,
                ));
                assert(string_views(excludes@) =~= start + fallback_excludes().take(k + 1));
                k = k + 1;
            }
            assert(fallback_excludes().take(fallback@.len() as int) =~= fallback_excludes());
        },
    }
    append_strings(&mut excludes, &args.exclude);
    proof {
        reveal_strlit(".git");
    }
    assert(string_views(excludes@) =~= planned_excludes(*args, opt_profile_ref_view(profile)));
    let mut includes: Vec<String> = Vec::new();
    if args.include_exts.len() > 0 {
        let mut i: usize = 0;
        while i < args.include_exts.len()
            invariant
                i <= args.include_exts@.len(),
                string_views(includes@) == string_views(args.include_exts@).map_values(
                    |e: Seq<char>| normalized_extension(e),
                ).take(i as int),
            decreases args.include_exts@.len() - i,
        {
            let ghost before = string_views(includes@);
            let ghost all = string_views(args.include_exts@).map_values(
                |e: Seq<char>| normalized_extension(e),
            );
            includes.push(normalize_extension(args.include_exts[i].as_str()));
            assert(all[i as int] == normalized_extension(args.include_exts@[i as int]@));
            assert(string_views(includes@) =~= before.push(all[i as int]));
            assert(all.take(i + 1) =~= all.take(i as int).push(all[i as int]));
            assert(string_views(includes@) =~= string_views(args.include_exts@).map_values(
                |e: Seq<char>| normalized_extension(e),
            ).take(i + 1));
            i = i + 1;
        }
        assert(string_views(includes@) =~= planned_includes(*args, opt_profile_ref_view(profile)));
    } else {
        match profile {
            Some(p) => append_strings(&mut includes, &p.extensions),
            None => {},
        }
        assert(string_views(includes@) =~= planned_includes(*args, opt_profile_ref_view(profile)));
    }
    ScanConfig { root, include_exts: includes, exclude_patterns: excludes, count_all: args.all }
}

} // verus!
