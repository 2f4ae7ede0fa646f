//! Choosing the files of a scan, counting each file, and summarising the
//! counts by language.
use crate::counter::{count_lines, text_tally, FileResult, LineCounts};
use crate::lang::{
    detect_language, find_language, get_extension, language_for_extension, language_of_path,
    language_table, lowercase_extension_of, opt_str_view,
};
use crate::outside::{
    glob_compiles, glob_matches_of, path_below, path_below_of, path_extension, path_extension_of,
    string_from_chars,
    GlobPattern,
};
use crate::ranking::{
    is_stable_descending, lemma_sum_bounds, lemma_sum_permuted, lemma_sum_push,
    lemma_sum_update, permuted, stable_descending_order, sum_of,
};
use crate::text::{
    chars_equal, chars_of, occurs_at, starts_with, string_views, window_starts_with,
};
use vstd::prelude::*;

verus! {

/// What a scan looks at: the root, the extensions to count (where empty,
/// the files of every known language), the patterns that leave files out,
/// and whether every file counts whatever its extension.
#[derive(Debug, Clone)]
pub struct ScanConfig {
    pub root: String,
    pub include_exts: Vec<String>,
    pub exclude_patterns: Vec<String>,
    pub count_all: bool,
}

/// A character that separates the parts of a path.
pub open spec fn is_separator(c: char) -> bool {
    c == '/' || c == '\\'
}

/// The parts of `t` between separators: one more part than there are
/// separators.
pub open spec fn path_parts(t: Seq<char>) -> Seq<Seq<char>>
    decreases t.len(),
{
    if t.len() == 0 {
        seq![Seq::<char>::empty()]
    } else if is_separator(t.last()) {
        path_parts(t.drop_last()).push(Seq::<char>::empty())
    } else {
        let s = path_parts(t.drop_last());
        s.update(s.len() - 1, s.last().push(t.last()))
    }
}

/// What follows `root` in `path`, where `path` starts with it.
pub open spec fn below_root(root: Seq<char>, path: Seq<char>) -> Seq<char> {
    if starts_with(path, root) {
        path.skip(root.len() as int)
    } else {
        path
    }
}

/// The parts of the path below `root`: the names of the directories
/// between the root and the file, then the file's own name (empty names,
/// where separators follow each other, included).
pub open spec fn parts_below(root: Seq<char>, path: Seq<char>) -> Seq<Seq<char>> {
    path_parts(below_root(root, path))
}

/// `p` occurs in `s` at position `i` as whole parts: a separator or the
/// start of `s` comes before it, and a separator or the end of `s` after it.
pub open spec fn names_parts_at(s: Seq<char>, p: Seq<char>, i: int) -> bool {
    &&& occurs_at(s, p, i)
    &&& (i == 0 || is_separator(s[i - 1]))
    &&& (i + p.len() == s.len() || is_separator(s[i + p.len()]))
}

/// `p` names one or more consecutive parts of `s`: a directory, the file, or
/// a run of them such as `src/legacy`.
pub open spec fn names_parts(s: Seq<char>, p: Seq<char>) -> bool {
    exists|i: int| #[trigger] names_parts_at(s, p, i)
}

/// Whether the glob pattern `pattern` is valid and matches `name`.
pub open spec fn glob_hit(pattern: Seq<char>, name: Seq<char>) -> bool {
    glob_compiles(pattern) && glob_matches_of(pattern, name)
}

/// For each exclude pattern of `config` and each part of the path below the
/// root, whether the pattern is a valid glob pattern that matches the part.
pub open spec fn part_glob_hits(config: ScanConfig, path: Seq<char>) -> Seq<Seq<bool>> {
    let parts = parts_below(config.root@, path);
    Seq::new(
        config.exclude_patterns@.len(),
        |k: int| Seq::new(parts.len(), |j: int| glob_hit(config.exclude_patterns[k]@, parts[j])),
    )
}

/// For each exclude pattern of `config`, whether it is a valid glob pattern
/// that matches the whole path.
pub open spec fn path_glob_hits(config: ScanConfig, path: Seq<char>) -> Seq<bool> {
    Seq::new(config.exclude_patterns@.len(), |k: int| glob_hit(config.exclude_patterns[k]@, path))
}

/// The exclude pattern `patterns[k]` names no parts of the path below the
/// root (`below`), and does not match the whole path as a glob
/// (`path_hits[k]`).
pub open spec fn pattern_clear(
    patterns: Seq<String>,
    below: Seq<char>,
    path_hits: Seq<bool>,
    k: int,
) -> bool {
    !names_parts(below, patterns[k]@) && !path_hits[k]
}

/// The exclude pattern `k` does not match part `j` as a glob (`hits[k][j]`).
pub open spec fn part_clear(hits: Seq<Seq<bool>>, k: int, j: int) -> bool {
    !hits[k][j]
}

/// Whether the extension `ext`, as it is, selects a known language.
pub open spec fn known_extension(ext: Option<Seq<char>>) -> bool {
    ext matches Some(e) && find_language(language_table(), e) is Some
}

/// Whether a scan with `config` counts the file at `path`, given for each
/// exclude pattern and each part of the path below the root whether the
/// pattern matches the part as a glob (`part_hits`), for each exclude
/// pattern whether it matches the whole path as a glob (`path_hits`), the
/// extension of the path (`ext`) and that extension lowercased
/// (`ext_lower`). No exclude pattern names a directory, the file, or a run
/// of parts below the root, matches one of those parts as a glob, or
/// matches the whole path as a glob; and either every file counts, or no
/// extension list is given and the extension selects a known language, or
/// the lowercased extension is in the list.
pub open spec fn kept_given(
    config: ScanConfig,
    path: Seq<char>,
    part_hits: Seq<Seq<bool>>,
    path_hits: Seq<bool>,
    ext: Option<Seq<char>>,
    ext_lower: Option<Seq<char>>,
) -> bool {
    let below = below_root(config.root@, path);
    let parts = path_parts(below);
    &&& forall|k: int|
        0 <= k < config.exclude_patterns.len() ==> #[trigger] pattern_clear(
            config.exclude_patterns@,
            below,
            path_hits,
            k,
        )
    &&& forall|k: int, j: int|
        0 <= k < config.exclude_patterns.len() && 0 <= j < parts.len() ==> #[trigger] part_clear(
            part_hits,
            k,
            j,
        )
    &&& if config.count_all {
        true
    } else if config.include_exts.len() == 0 {
        known_extension(ext)
    } else {
        ext_lower matches Some(e) && string_views(config.include_exts@).contains(e)
    }
}

/// Whether a scan with `config` counts the file at `path`.
pub open spec fn path_selected(config: ScanConfig, path: Seq<char>) -> bool {
    kept_given(
        config,
        path,
        part_glob_hits(config, path),
        path_glob_hits(config, path),
        path_extension_of(path),
        lowercase_extension_of(path),
    )
}

/// A file is never counted, whatever the extensions asked for, where an
/// exclude pattern names a directory between the root and the file, the
/// file itself, or a run of such parts.
pub proof fn lemma_named_parts_dropped(config: ScanConfig, path: Seq<char>, k: int, i: int)
    requires
        0 <= k < config.exclude_patterns.len(),
        names_parts_at(below_root(config.root@, path), config.exclude_patterns[k]@, i),
    ensures
        !path_selected(config, path),
{
    assert(!pattern_clear(
        config.exclude_patterns@,
        below_root(config.root@, path),
        path_glob_hits(config, path),
        k,
    ));
}

/// A file is never counted where an exclude pattern matches, as a glob, the
/// name of a directory between the root and the file, or the file's name.
pub proof fn lemma_glob_matched_parts_dropped(config: ScanConfig, path: Seq<char>, k: int, j: int)
    requires
        0 <= k < config.exclude_patterns.len(),
        0 <= j < parts_below(config.root@, path).len(),
        glob_hit(config.exclude_patterns[k]@, parts_below(config.root@, path)[j]),
    ensures
        !path_selected(config, path),
{
    assert(!part_clear(part_glob_hits(config, path), k, j));
}

/// A file is never counted where an exclude pattern matches its whole path
/// as a glob.
pub proof fn lemma_glob_matched_paths_dropped(config: ScanConfig, path: Seq<char>, k: int)
    requires
        0 <= k < config.exclude_patterns.len(),
        glob_hit(config.exclude_patterns[k]@, path),
    ensures
        !path_selected(config, path),
{
    assert(!pattern_clear(
        config.exclude_patterns@,
        below_root(config.root@, path),
        path_glob_hits(config, path),
        k,
    ));
}

/// With every file counted and nothing excluded, every path is counted.
pub proof fn lemma_count_all_keeps_everything(config: ScanConfig, path: Seq<char>)
    requires
        config.count_all,
        config.exclude_patterns.len() == 0,
    ensures
        path_selected(config, path),
{
}

/// Without counting every file and without an extension list, only files of
/// a known language are counted.
pub proof fn lemma_only_known_languages_without_all(config: ScanConfig, path: Seq<char>)
    requires
        !config.count_all,
        config.include_exts.len() == 0,
        path_selected(config, path),
    ensures
        language_of_path(path) is Some,
{
}

/// Without counting every file, where extensions are listed, a counted
/// file has a lowercased extension equal to one of them.
pub proof fn lemma_listed_extension_required(config: ScanConfig, path: Seq<char>)
    requires
        path_selected(config, path),
        !config.count_all,
        config.include_exts.len() > 0,
    ensures
        lowercase_extension_of(path) matches Some(e) && exists|k: int|
            0 <= k < config.include_exts@.len() && #[trigger] config.include_exts@[k]@ == e,
{
    let e = lowercase_extension_of(path)->0;
    let k = choose|k: int|
        0 <= k < string_views(config.include_exts@).len() && string_views(config.include_exts@)[k]
            == e;
    assert(config.include_exts@[k]@ == e);
}

/// With nothing excluded and extensions listed, a file whose lowercased
/// extension equals one of them is counted.
pub proof fn lemma_listed_extension_kept(config: ScanConfig, path: Seq<char>, k: int)
    requires
        config.exclude_patterns.len() == 0,
        0 <= k < config.include_exts@.len(),
        lowercase_extension_of(path) == Some(config.include_exts@[k]@),
    ensures
        path_selected(config, path),
{
    assert(string_views(config.include_exts@)[k] == config.include_exts@[k]@);
}

/// With nothing excluded and no extension list, a file of a known language
/// is counted.
pub proof fn lemma_known_language_kept(config: ScanConfig, path: Seq<char>)
    requires
        config.exclude_patterns.len() == 0,
        config.include_exts.len() == 0,
        language_of_path(path) is Some,
    ensures
        path_selected(config, path),
{
}

/// The characters of `path` below `root`.
fn below_root_chars(root: &str, path: &str) -> (r: Vec<char>)
    ensures
        r@ == below_root(root@, path@),
{
    let p = chars_of(path);
    let rc = chars_of(root);
    let n = p.len();
    assert(p@.subrange(0, n as int) =~= p@);
    if !window_starts_with(&p, 0, n, &rc) {
        return p;
    }
    let mut r: Vec<char> = Vec::new();
    let mut i: usize = rc.len();
    while i < n
        invariant
            rc@.len() <= i <= n,
            n == p@.len(),
            r@ == p@.subrange(rc@.len() as int, i as int),
        decreases n - i,
    {
        r.push(p[i]);
        assert(r@ =~= p@.subrange(rc@.len() as int, i + 1));
        i = i + 1;
    }
    assert(r@ =~= p@.skip(rc@.len() as int));
    r
}

/// The parts of the path below `root`: the names of the directories
/// between the root and the file, then the file's own name.
pub fn parts_below_root(root: &str, path: &str) -> (r: Vec<String>)
    ensures
        string_views(r@) == parts_below(root@, path@),
{
    let b = below_root_chars(root, path);
    let n = b.len();
    let mut r: Vec<String> = Vec::new();
    let mut cur: Vec<char> = Vec::new();
    let mut i: usize = 0;
    assert(b@.take(0) =~= Seq::<char>::empty());
    while i < n
        invariant
            i <= n,
            n == b@.len(),
            string_views(r@).push(cur@) == path_parts(b@.take(i as int)),
        decreases n - i,
    {
        let c = b[i];
        let ghost t = b@.take(i + 1);
        assert(t.drop_last() =~= b@.take(i as int));
        assert(t.last() == c);
        let ghost before = string_views(r@);
        if c == '/' || c == '\\' {
            r.push(string_from_chars(&cur));
            assert(string_views(r@) =~= before.push(cur@));
            cur = Vec::new();
        } else {
            cur.push(c);
        }
        assert(string_views(r@).push(cur@) =~= path_parts(t));
        i = i + 1;
    }
    assert(b@.take(n as int) =~= b@);
    let ghost before = string_views(r@);
    r.push(string_from_chars(&cur));
    assert(string_views(r@) =~= before.push(cur@));
    r
}

/// Whether `p` names one or more consecutive parts of `s`.
fn names_parts_in(s: &Vec<char>, p: &Vec<char>) -> (r: bool)
    ensures
        r == names_parts(s@, p@),
{
    let n = s.len();
    let m = p.len();
    if m > n {
        assert forall|i: int| !#[trigger] names_parts_at(s@, p@, i) by {}
        return false;
    }
    let last = n - m;
    let mut i: usize = 0;
    while i <= last
        invariant
            m <= n,
            n == s@.len(),
            m == p@.len(),
            last == n - m,
            i <= last,
            forall|j: int| 0 <= j < i ==> !#[trigger] names_parts_at(s@, p@, j),
        decreases last - i,
    {
        let before_ok = i == 0 || s[i - 1] == '/' || s[i - 1] == '\\';
        let after_ok = i + m == n || s[i + m] == '/' || s[i + m] == '\\';
        assert(s@.subrange(i as int, n as int).take(m as int) =~= s@.subrange(i as int, i + m));
        if before_ok && after_ok && window_starts_with(s, i, n, p) {
            assert(names_parts_at(s@, p@, i as int));
            return true;
        }
        if i == last {
            assert forall|j: int| !#[trigger] names_parts_at(s@, p@, j) by {
                if 0 <= j < i {
                }
            }
            return false;
        }
        i = i + 1;
    }
    false
}

/// Whether a scan with `config` counts the file at `path`, given for each
/// exclude pattern and each part of the path below the root whether the
/// pattern matches the part as a glob, for each exclude pattern whether it
/// matches the whole path as a glob, the extension of the path, and that
/// extension lowercased.
pub fn keep_path_given(
    config: &ScanConfig,
    path: &str,
    part_hits: &Vec<Vec<bool>>,
    path_hits: &Vec<bool>,
    ext: Option<&str>,
    ext_lower: Option<&str>,
) -> (r: bool)
    requires
        part_hits@.len() == config.exclude_patterns@.len(),
        path_hits@.len() == config.exclude_patterns@.len(),
        forall|k: int|
            0 <= k < part_hits@.len() ==> #[trigger] part_hits@[k]@.len() == parts_below(
                config.root@,
                path@,
            ).len(),
    ensures
        r == kept_given(
            *config,
            path@,
            part_hits@.map_values(|v: Vec<bool>| v@),
            path_hits@,
            opt_str_view(ext),
            opt_str_view(ext_lower),
        ),
{
    let ghost hits = part_hits@.map_values(|v: Vec<bool>| v@);
    let below = below_root_chars(config.root.as_str(), path);
    let n_parts = parts_below_root(config.root.as_str(), path).len();
    let ghost parts = parts_below(config.root@, path@);
    let np = config.exclude_patterns.len();
    let mut k: usize = 0;
    while k < np
        invariant
            k <= np,
            np == config.exclude_patterns@.len(),
            part_hits@.len() == np,
            path_hits@.len() == np,
            forall|m: int| 0 <= m < np ==> #[trigger] part_hits@[m]@.len() == parts.len(),
            hits == part_hits@.map_values(|v: Vec<bool>| v@),
            parts == parts_below(config.root@, path@),
            n_parts == parts.len(),
            below@ == below_root(config.root@, path@),
            forall|m: int|
                0 <= m < k ==> #[trigger] pattern_clear(
                    config.exclude_patterns@,
                    below@,
                    path_hits@,
                    m,
                ),
            forall|m: int, j: int|
                0 <= m < k && 0 <= j < parts.len() ==> #[trigger] part_clear(hits, m, j),
        decreases np - k,
    {
        let pat = chars_of(config.exclude_patterns[k].as_str());
        if names_parts_in(&below, &pat) || path_hits[k] {
            assert(!pattern_clear(config.exclude_patterns@, below@, path_hits@, k as int));
            return false;
        }
        let mut j: usize = 0;
        while j < n_parts
            invariant
                k < np,
                np == config.exclude_patterns@.len(),
                part_hits@.len() == np,
                forall|m: int| 0 <= m < np ==> #[trigger] part_hits@[m]@.len() == parts.len(),
                hits == part_hits@.map_values(|v: Vec<bool>| v@),
                parts == parts_below(config.root@, path@),
                n_parts == parts.len(),
                j <= n_parts,
                forall|m: int, i: int|
                    0 <= m <= k && 0 <= i < parts.len() && (m < k || i < j) ==> #[trigger] part_clear(
                        hits,
                        m,
                        i,
                    ),
            decreases n_parts - j,
        {
            assert(part_hits@[k as int]@.len() == parts.len());
            assert(hits[k as int][j as int] == part_hits@[k as int]@[j as int]);
            if part_hits[k][j] {
                assert(!part_clear(hits, k as int, j as int));
                return false;
            }
            j = j + 1;
        }
        k = k + 1;
    }
    if config.count_all {
        return true;
    }
    if config.include_exts.len() == 0 {
        return match ext {
            Some(e) => language_for_extension(e).is_some(),
            None => false,
        };
    }
    match ext_lower {
        Some(e) => {
            let e_chars = chars_of(e);
            let mut i: usize = 0;
            while i < config.include_exts.len()
                invariant
                    i <= config.include_exts@.len(),
                    e_chars@ == e@,
                    opt_str_view(ext_lower) == Some(e@),
                    !config.count_all,
                    config.include_exts@.len() != 0,
                    hits == part_hits@.map_values(|v: Vec<bool>| v@),
                    parts == parts_below(config.root@, path@),
                    below@ == below_root(config.root@, path@),
                    forall|m: int|
                        0 <= m < config.exclude_patterns@.len() ==> #[trigger] pattern_clear(
                            config.exclude_patterns@,
                            below@,
                            path_hits@,
                            m,
                        ),
                    forall|m: int, j: int|
                        0 <= m < config.exclude_patterns@.len() && 0 <= j < parts.len()
                            ==> #[trigger] part_clear(hits, m, j),
                    forall|m: int| 0 <= m < i ==> #[trigger] config.include_exts@[m]@ != e@,
                decreases config.include_exts@.len() - i,
            {
                let inc = chars_of(config.include_exts[i].as_str());
                if chars_equal(&inc, &e_chars) {
                    assert(string_views(config.include_exts@)[i as int] == e@);
                    return true;
                }
                i = i + 1;
            }
            assert(!string_views(config.include_exts@).contains(e@));
            false
        },
        None => false,
    }
}

/// Whether a scan with `config` counts the file at `path`.
pub fn keep_path(config: &ScanConfig, path: &str) -> (r: bool)
    ensures
        r == path_selected(*config, path@),
{
    let parts = parts_below_root(config.root.as_str(), path);
    let ghost ps = parts_below(config.root@, path@);
    let ghost want = part_glob_hits(*config, path@);
    let ghost want_path = path_glob_hits(*config, path@);
    let mut hits: Vec<Vec<bool>> = Vec::new();
    let mut path_hits: Vec<bool> = Vec::new();
    let mut k: usize = 0;
    while k < config.exclude_patterns.len()
        invariant
            k <= config.exclude_patterns@.len(),
            string_views(parts@) == ps,
            ps == parts_below(config.root@, path@),
            want == part_glob_hits(*config, path@),
            want_path == path_glob_hits(*config, path@),
            hits@.len() == k,
            path_hits@ == want_path.take(k as int),
            forall|m: int| 0 <= m < k ==> #[trigger] hits@[m]@ == want[m],
        decreases config.exclude_patterns@.len() - k,
    {
        let glob = GlobPattern::new(config.exclude_patterns[k].as_str());
        let mut row: Vec<bool> = Vec::new();
        let mut j: usize = 0;
        while j < parts.len()
            invariant
                k < config.exclude_patterns@.len(),
                string_views(parts@) == ps,
                ps == parts_below(config.root@, path@),
                want == part_glob_hits(*config, path@),
                j <= ps.len(),
                glob matches Some(g) ==> g@ == config.exclude_patterns@[k as int]@,
                glob is Some <==> glob_compiles(config.exclude_patterns@[k as int]@),
                row@ == want[k as int].take(j as int),
            decreases ps.len() - j,
        {
            let hit = match &glob {
                Some(g) => g.matches(parts[j].as_str()),
                None => false,
            };
            row.push(hit);
            assert(row@ =~= want[k as int].take(j + 1));
            j = j + 1;
        }
        assert(row@ =~= want[k as int]);
        hits.push(row);
        let whole = match &glob {
            Some(g) => g.matches(path),
            None => false,
        };
        path_hits.push(whole);
        assert(path_hits@ =~= want_path.take(k + 1));
        k = k + 1;
    }
    assert(hits@.map_values(|v: Vec<bool>| v@) =~= want);
    assert(path_hits@ =~= want_path);
    let raw = path_extension(path);
    let lower = get_extension(path);
    let raw_ref: Option<&str> = match &raw {
        Some(e) => Some(e.as_str()),
        None => None,
    };
    let lower_ref: Option<&str> = match &lower {
        Some(e) => Some(e.as_str()),
        None => None,
    };
    keep_path_given(config, path, &hits, &path_hits, raw_ref, lower_ref)
}

/// The paths among `walked` that a scan with `config` counts, in order.
pub fn collect_files(config: &ScanConfig, walked: &Vec<String>) -> (r: Vec<String>)
    ensures
        string_views(r@) == string_views(walked@).filter(|p: Seq<char>| path_selected(*config, p)),
{
    let ghost pred = |p: Seq<char>| path_selected(*config, p);
    let mut r: Vec<String> = Vec::new();
    let mut i: usize = 0;
    proof {
        reveal(Seq::filter);
        assert(string_views(walked@).take(0).filter(pred) =~= Seq::<Seq<char>>::empty());
    }
    while i < walked.len()
        invariant
            i <= walked@.len(),
            pred == (|p: Seq<char>| path_selected(*config, p)),
            string_views(r@) == string_views(walked@).take(i as int).filter(pred),
        decreases walked@.len() - i,
    {
        let keep = keep_path(config, walked[i].as_str());
        proof {
            reveal(Seq::filter);
            let t = string_views(walked@).take(i + 1);
            assert(t.drop_last() =~= string_views(walked@).take(i as int));
            assert(t.last() == walked@[i as int]@);
        }
        if keep {
            let ghost before = string_views(r@);
            r.push(walked[i].clone());
            assert(string_views(r@) =~= before.push(walked@[i as int]@));
        }
        i = i + 1;
    }
    assert(string_views(walked@).take(walked@.len() as int) =~= string_views(walked@));
    r
}

/// A relative path as it is shown: backslashes become slashes.
pub open spec fn display_path(rel: Seq<char>) -> Seq<char> {
    rel.map_values(|c: char| if c == '\\' { '/' } else { c })
}

/// The name under which a file's language is reported.
pub open spec fn language_name_of(path: Seq<char>) -> Seq<char> {
    match language_of_path(path) {
        Some(l) => l.name,
        None => "Other"@,
    }
}

/// The path of a file as a scan shows it: below the root where the root is a
/// prefix of it, else the whole path.
pub open spec fn shown_path(path: Seq<char>, root: Seq<char>) -> Seq<char> {
    display_path(
        match path_below_of(path, root) {
            Some(rel) => rel,
            None => path,
        },
    )
}

/// The result of counting the file at `path` below `root`, whose text is
/// `content`.
pub fn scan_one(path: &str, root: &str, content: &str) -> (r: FileResult)
    ensures
        r.path@ == shown_path(path@, root@),
        r.language@ == language_name_of(path@),
        r.extension@ == (match lowercase_extension_of(path@) {
            Some(e) => e,
            None => Seq::<char>::empty(),
        }),
        language_of_path(path@) matches Some(l) ==> l.extensions.contains(r.extension@),
        ({
            let t = text_tally(language_of_path(path@), content@);
            r.counts.code == t.code && r.counts.comments == t.comments && r.counts.blank == t.blank
        }),
{
    match path_below(path, root) {
        Some(rel) => scan_relative(path, rel.as_str(), content),
        None => scan_relative(path, path, content),
    }
}

/// The result of counting the file at `path`, shown as `rel_path`, whose
/// text is `content`.
pub fn scan_relative(path: &str, rel_path: &str, content: &str) -> (r: FileResult)
    ensures
        r.path@ == display_path(rel_path@),
        r.language@ == language_name_of(path@),
        r.extension@ == (match lowercase_extension_of(path@) {
            Some(e) => e,
            None => Seq::<char>::empty(),
        }),
        language_of_path(path@) matches Some(l) ==> l.extensions.contains(r.extension@),
        ({
            let t = text_tally(language_of_path(path@), content@);
            r.counts.code == t.code && r.counts.comments == t.comments && r.counts.blank == t.blank
        }),
{
    let lang = detect_language(path);
    let extension = match get_extension(path) {
        Some(e) => e,
        None => String::new(),
    };
    let language = match lang {
        Some(l) => l.name.to_owned(),
        None => "Other".to_owned(),
    };
    let counts = count_lines(content, lang.as_ref());
    let rel = chars_of(rel_path);
    let mut shown: Vec<char> = Vec::new();
    let mut i: usize = 0;
    while i < rel.len()
        invariant
            i <= rel@.len(),
            rel@ == rel_path@,
            shown@ == display_path(rel@.take(i as int)),
        decreases rel@.len() - i,
    {
        let c = rel[i];
        shown.push(if c == '\\' { '/' } else { c });
        assert(display_path(rel@.take(i + 1)) =~= display_path(rel@.take(i as int)).push(
            if c == '\\' { '/' } else { c },
        ));
        i = i + 1;
    }
    assert(rel@.take(rel@.len() as int) =~= rel@);
    FileResult { path: string_from_chars(&shown), language, extension, counts }
}

/// The counts of one language over a scan.
#[derive(Debug, Clone)]
pub struct LanguageSummary {
    pub language: String,
    pub files: usize,
    pub counts: LineCounts,
}

/// The counts of a whole scan: all files, and one row per language.
#[derive(Debug, Clone)]
pub struct ScanSummary {
    pub total_files: usize,
    pub total_counts: LineCounts,
    pub by_language: Vec<LanguageSummary>,
}

/// The code lines of a file.
pub open spec fn file_code(r: FileResult) -> int {
    r.counts.code as int
}

/// The comment lines of a file.
pub open spec fn file_comments(r: FileResult) -> int {
    r.counts.comments as int
}

/// The blank lines of a file.
pub open spec fn file_blank(r: FileResult) -> int {
    r.counts.blank as int
}

/// All lines of a file.
pub open spec fn file_lines(r: FileResult) -> int {
    r.counts.spec_total()
}

/// The files of a row.
pub open spec fn row_files(r: LanguageSummary) -> int {
    r.files as int
}

/// The code lines of a row.
pub open spec fn row_code(r: LanguageSummary) -> int {
    r.counts.code as int
}

/// The comment lines of a row.
pub open spec fn row_comments(r: LanguageSummary) -> int {
    r.counts.comments as int
}

/// The blank lines of a row.
pub open spec fn row_blank(r: LanguageSummary) -> int {
    r.counts.blank as int
}

/// All lines of a row.
pub open spec fn row_lines(r: LanguageSummary) -> int {
    r.counts.spec_total()
}

/// The results whose language is `lang`.
pub open spec fn with_language(rs: Seq<FileResult>, lang: Seq<char>) -> Seq<FileResult> {
    rs.filter(|r: FileResult| r.language@ == lang)
}

/// The row of `lang` holds the number of its files and the sums of their
/// counts.
pub open spec fn row_matches(rs: Seq<FileResult>, row: LanguageSummary) -> bool {
    let own = with_language(rs, row.language@);
    &&& row.files == own.len()
    &&& row.counts.code == sum_of(own, |r: FileResult| file_code(r))
    &&& row.counts.comments == sum_of(own, |r: FileResult| file_comments(r))
    &&& row.counts.blank == sum_of(own, |r: FileResult| file_blank(r))
}

/// Some file has language `lang`.
pub open spec fn has_file(rs: Seq<FileResult>, lang: Seq<char>) -> bool {
    exists|k: int| 0 <= k < rs.len() && #[trigger] rs[k].language@ == lang
}

/// A file of language `a` comes before every file of language `b`.
pub open spec fn appears_before(rs: Seq<FileResult>, a: Seq<char>, b: Seq<char>) -> bool {
    exists|k: int|
        0 <= k < rs.len() && #[trigger] rs[k].language@ == a && forall|j: int|
            0 <= j <= k ==> #[trigger] rs[j].language@ != b
}

/// Some row is that of `lang`.
pub open spec fn has_row(rows: Seq<LanguageSummary>, lang: Seq<char>) -> bool {
    exists|g: int| 0 <= g < rows.len() && #[trigger] rows[g].language@ == lang
}

/// The rows of a summary of `rs`: one row per language of the results, no
/// language twice, no row without a file, each row with the number and the
/// counts of the files of its language.
pub open spec fn rows_describe(rs: Seq<FileResult>, rows: Seq<LanguageSummary>) -> bool {
    &&& forall|g: int| 0 <= g < rows.len() ==> row_matches(rs, #[trigger] rows[g])
    &&& forall|g: int| 0 <= g < rows.len() ==> #[trigger] rows[g].files >= 1
    &&& forall|g: int, h: int| 0 <= g < h < rows.len() ==> rows[g].language@ != rows[h].language@
    &&& forall|k: int| 0 <= k < rs.len() ==> has_row(rows, #[trigger] rs[k].language@)
}

proof fn lemma_counts_nonneg(rs: Seq<FileResult>)
    ensures
        forall|i: int| 0 <= i < rs.len() ==> file_code(#[trigger] rs[i]) >= 0,
        forall|i: int| 0 <= i < rs.len() ==> file_comments(#[trigger] rs[i]) >= 0,
        forall|i: int| 0 <= i < rs.len() ==> file_blank(#[trigger] rs[i]) >= 0,
        forall|i: int| 0 <= i < rs.len() ==> file_lines(#[trigger] rs[i]) >= 0,
{
}

proof fn lemma_file_lines_split(rs: Seq<FileResult>)
    ensures
        sum_of(rs, |r: FileResult| file_lines(r)) == sum_of(rs, |r: FileResult| file_code(r))
            + sum_of(rs, |r: FileResult| file_comments(r)) + sum_of(
            rs,
            |r: FileResult| file_blank(r),
        ),
    decreases rs.len(),
{
    if rs.len() > 0 {
        lemma_file_lines_split(rs.drop_last());
    }
}

proof fn lemma_row_lines_split(rows: Seq<LanguageSummary>)
    ensures
        sum_of(rows, |r: LanguageSummary| row_lines(r)) == sum_of(
            rows,
            |r: LanguageSummary| row_code(r),
        ) + sum_of(rows, |r: LanguageSummary| row_comments(r)) + sum_of(
            rows,
            |r: LanguageSummary| row_blank(r),
        ),
    decreases rows.len(),
{
    if rows.len() > 0 {
        lemma_row_lines_split(rows.drop_last());
    }
}

/// The lines of the files of `lang` among the first `j + 1` results are
/// those among the first `j`, and those of result `j` where it is of `lang`.
proof fn lemma_language_prefix(rs: Seq<FileResult>, lang: Seq<char>, j: int)
    requires
        0 <= j < rs.len(),
    ensures
        language_lines(rs.take(j + 1), lang) == language_lines(rs.take(j), lang) + (if rs[j].language@
            == lang {
            file_lines(rs[j])
        } else {
            0
        }),
{
    assert(rs.take(j + 1) =~= rs.take(j).push(rs[j]));
    lemma_filter_step(rs.take(j), rs[j], lang);
    if rs[j].language@ == lang {
        lemma_sum_push(with_language(rs.take(j), lang), rs[j], |r: FileResult| file_lines(r));
    }
}

/// The lines of a language among the first results are at most those among
/// all results.
proof fn lemma_language_prefix_mono(rs: Seq<FileResult>, lang: Seq<char>, j: int)
    requires
        0 <= j <= rs.len(),
    ensures
        language_lines(rs.take(j), lang) <= language_lines(rs, lang),
    decreases rs.len() - j,
{
    if j < rs.len() {
        lemma_language_prefix(rs, lang, j);
        lemma_language_prefix_mono(rs, lang, j + 1);
    } else {
        assert(rs.take(j) =~= rs);
    }
}

/// Whether the sum of `f` over `results` fits in a `usize`, where `f` is
/// the count that `pick` names: 0 the code, 1 the comment, 2 the blank
/// lines of a file.
fn field_sum_fits(
    results: &[FileResult],
    Ghost(f): Ghost<spec_fn(FileResult) -> int>,
    pick: u8,
) -> (r: bool)
    requires
        pick < 3,
        f == (if pick == 0 {
            |r: FileResult| file_code(r)
        } else if pick == 1 {
            |r: FileResult| file_comments(r)
        } else {
            |r: FileResult| file_blank(r)
        }),
    ensures
        r == (sum_of(results@, f) <= usize::MAX),
{
    let mut sum: usize = 0;
    let mut i: usize = 0;
    proof {
        lemma_counts_nonneg(results@);
        assert(results@.take(0) =~= Seq::<FileResult>::empty());
    }
    while i < results.len()
        invariant
            i <= results@.len(),
            pick < 3,
            f == (if pick == 0 {
                |r: FileResult| file_code(r)
            } else if pick == 1 {
                |r: FileResult| file_comments(r)
            } else {
                |r: FileResult| file_blank(r)
            }),
            forall|m: int| 0 <= m < results@.len() ==> #[trigger] f(results@[m]) >= 0,
            sum == sum_of(results@.take(i as int), f),
        decreases results@.len() - i,
    {
        let c = results[i].counts;
        let v = if pick == 0 {
            c.code
        } else if pick == 1 {
            c.comments
        } else {
            c.blank
        };
        proof {
            assert(results@.take(i + 1) =~= results@.take(i as int).push(results@[i as int]));
            lemma_sum_push(results@.take(i as int), results@[i as int], f);
        }
        match sum.checked_add(v) {
            Some(n) => {
                sum = n;
            },
            None => {
                proof {
                    lemma_sum_bounds(results@, f, 0, i + 1);
                }
                return false;
            },
        }
        i = i + 1;
    }
    assert(results@.take(results@.len() as int) =~= results@);
    true
}

/// Whether the counts of a summary of `results` fit in a `usize` (what
/// `summarize` asks): the code, comment and blank lines of all files, and
/// all lines of each language.
pub fn summary_counts_fit(results: &[FileResult]) -> (r: bool)
    ensures
        r == summary_fits(results@),
{
    if !field_sum_fits(results, Ghost(|r: FileResult| file_code(r)), 0) {
        return false;
    }
    if !field_sum_fits(results, Ghost(|r: FileResult| file_comments(r)), 1) {
        return false;
    }
    if !field_sum_fits(results, Ghost(|r: FileResult| file_blank(r)), 2) {
        return false;
    }
    let n = results.len();
    let mut k: usize = 0;
    while k < n
        invariant
            k <= n,
            n == results@.len(),
            forall|m: int|
                0 <= m < k ==> language_lines(results@, #[trigger] results@[m].language@)
                    <= usize::MAX,
        decreases n - k,
    {
        let ghost lang = results@[k as int].language@;
        let mut s: usize = 0;
        let mut j: usize = 0;
        assert(results@.take(0) =~= Seq::<FileResult>::empty());
        assert(with_language(Seq::<FileResult>::empty(), lang) =~= Seq::<FileResult>::empty()) by {
            reveal(Seq::filter);
        }
        while j < n
            invariant
                j <= n,
                k < n,
                n == results@.len(),
                lang == results@[k as int].language@,
                s == language_lines(results@.take(j as int), lang),
            decreases n - j,
        {
            proof {
                lemma_language_prefix(results@, lang, j as int);
            }
            if results[j].language == results[k].language {
                let c = results[j].counts;
                let t = match c.code.checked_add(c.comments) {
                    Some(x) => x.checked_add(c.blank),
                    None => None,
                };
                let next = match t {
                    Some(x) => s.checked_add(x),
                    None => None,
                };
                match next {
                    Some(x) => {
                        s = x;
                    },
                    None => {
                        proof {
                            lemma_language_prefix_mono(results@, lang, j + 1);
                        }
                        return false;
                    },
                }
            }
            j = j + 1;
        }
        assert(results@.take(n as int) =~= results@);
        k = k + 1;
    }
    true
}

/// Whether the line total of every file fits in a `usize`.
pub fn file_totals_fit(results: &[FileResult]) -> (r: bool)
    ensures
        r == (forall|i: int| 0 <= i < results@.len() ==> #[trigger] results@[i].counts.spec_total() <= usize::MAX),
{
    let mut i: usize = 0;
    while i < results.len()
        invariant
            i <= results@.len(),
            forall|m: int| 0 <= m < i ==> #[trigger] results@[m].counts.spec_total() <= usize::MAX,
        decreases results@.len() - i,
    {
        let c = results[i].counts;
        let t = match c.code.checked_add(c.comments) {
            Some(x) => x.checked_add(c.blank),
            None => None,
        };
        if t.is_none() {
            assert(results@[i as int].counts.spec_total() > usize::MAX);
            return false;
        }
        i = i + 1;
    }
    true
}

/// Where the row of `lang` stands among `rows`, if there is one.
fn find_row(rows: &Vec<LanguageSummary>, lang: &String) -> (r: Option<usize>)
    ensures
        match r {
            Some(g) => g < rows@.len() && rows@[g as int].language@ == lang@,
            None => !has_row(rows@, lang@),
        },
{
    let mut g: usize = 0;
    while g < rows.len()
        invariant
            g <= rows@.len(),
            forall|m: int| 0 <= m < g ==> #[trigger] rows@[m].language@ != lang@,
        decreases rows@.len() - g,
    {
        if rows[g].language == *lang {
            return Some(g);
        }
        g = g + 1;
    }
    None
}

/// A copy of a row.
fn copy_row(row: &LanguageSummary) -> (r: LanguageSummary)
    ensures
        r == *row,
{
    LanguageSummary { language: row.language.clone(), files: row.files, counts: row.counts }
}

proof fn lemma_filter_step(pre: Seq<FileResult>, r: FileResult, lang: Seq<char>)
    ensures
        with_language(pre.push(r), lang) == (if r.language@ == lang {
            with_language(pre, lang).push(r)
        } else {
            with_language(pre, lang)
        }),
{
    reveal(Seq::filter);
    assert(pre.push(r).drop_last() =~= pre);
}

proof fn lemma_filter_none(pre: Seq<FileResult>, lang: Seq<char>)
    requires
        forall|k: int| 0 <= k < pre.len() ==> #[trigger] pre[k].language@ != lang,
    ensures
        with_language(pre, lang) =~= Seq::<FileResult>::empty(),
    decreases pre.len(),
{
    if pre.len() > 0 {
        let d = pre.drop_last();
        assert(d.push(pre.last()) =~= pre);
        lemma_filter_step(d, pre.last(), lang);
        assert forall|k: int| 0 <= k < d.len() implies #[trigger] d[k].language@ != lang by {
            assert(d[k] == pre[k]);
        }
        lemma_filter_none(d, lang);
    } else {
        reveal(Seq::filter);
    }
}

/// Groups the results by language, rows in order of first appearance.
fn group_by_language(results: &[FileResult]) -> (r: (LineCounts, Vec<LanguageSummary>))
    requires
        sum_of(results@, |r: FileResult| file_code(r)) <= usize::MAX,
        sum_of(results@, |r: FileResult| file_comments(r)) <= usize::MAX,
        sum_of(results@, |r: FileResult| file_blank(r)) <= usize::MAX,
    ensures
        forall|a: int| 0 <= a < r.1@.len() ==> has_file(results@, #[trigger] r.1@[a].language@),
        r.0.code == sum_of(results@, |r: FileResult| file_code(r)),
        r.0.comments == sum_of(results@, |r: FileResult| file_comments(r)),
        r.0.blank == sum_of(results@, |r: FileResult| file_blank(r)),
        rows_describe(results@, r.1@),
        forall|a: int, b: int|
            0 <= a < b < r.1@.len() ==> appears_before(results@, r.1@[a].language@, r.1@[b].language@),
        sum_of(r.1@, |r: LanguageSummary| row_files(r)) == results@.len(),
        sum_of(r.1@, |r: LanguageSummary| row_code(r)) == r.0.code,
        sum_of(r.1@, |r: LanguageSummary| row_comments(r)) == r.0.comments,
        sum_of(r.1@, |r: LanguageSummary| row_blank(r)) == r.0.blank,
{
    let ghost fc = |r: FileResult| file_code(r);
    let ghost fm = |r: FileResult| file_comments(r);
    let ghost fb = |r: FileResult| file_blank(r);
    let ghost fl = |r: FileResult| file_lines(r);
    let ghost gf = |r: LanguageSummary| row_files(r);
    let ghost gc = |r: LanguageSummary| row_code(r);
    let ghost gm = |r: LanguageSummary| row_comments(r);
    let ghost gb = |r: LanguageSummary| row_blank(r);
    let mut total = LineCounts::new();
    let mut rows: Vec<LanguageSummary> = Vec::new();
    let mut i: usize = 0;
    assert(results@.take(0) =~= Seq::<FileResult>::empty());
    while i < results.len()
        invariant
            i <= results@.len(),
            fc == (|r: FileResult| file_code(r)),
            fm == (|r: FileResult| file_comments(r)),
            fb == (|r: FileResult| file_blank(r)),
            fl == (|r: FileResult| file_lines(r)),
            gf == (|r: LanguageSummary| row_files(r)),
            gc == (|r: LanguageSummary| row_code(r)),
            gm == (|r: LanguageSummary| row_comments(r)),
            gb == (|r: LanguageSummary| row_blank(r)),
            sum_of(results@, fc) <= usize::MAX,
            sum_of(results@, fm) <= usize::MAX,
            sum_of(results@, fb) <= usize::MAX,
            total.code == sum_of(results@.take(i as int), fc),
            total.comments == sum_of(results@.take(i as int), fm),
            total.blank == sum_of(results@.take(i as int), fb),
            rows_describe(results@.take(i as int), rows@),
            forall|a: int| 0 <= a < rows@.len() ==> has_file(results@.take(i as int), #[trigger] rows@[a].language@),
            forall|a: int, b: int|
                0 <= a < b < rows@.len() ==> appears_before(results@.take(i as int), rows@[a].language@, rows@[b].language@),
            sum_of(rows@, gf) == i,
            sum_of(rows@, gc) == total.code,
            sum_of(rows@, gm) == total.comments,
            sum_of(rows@, gb) == total.blank,
        decreases results@.len() - i,
    {
        let ghost pre = results@.take(i as int);
        let ghost next = results@.take(i + 1);
        let ghost r = results@[i as int];
        let ghost old_rows = rows@;
        proof {
            assert(next =~= pre.push(r));
            lemma_sum_push(pre, r, fc);
            lemma_sum_push(pre, r, fm);
            lemma_sum_push(pre, r, fb);
            lemma_file_lines_split(next);
            lemma_counts_nonneg(results@);
            lemma_sum_bounds(results@, fc, 0, i + 1);
            lemma_sum_bounds(results@, fm, 0, i + 1);
            lemma_sum_bounds(results@, fb, 0, i + 1);
            assert forall|g: int| 0 <= g < rows@.len() implies #[trigger] gf(rows@[g]) >= 0
                && gc(rows@[g]) >= 0 && gm(rows@[g]) >= 0 && gb(rows@[g]) >= 0 by {}
        }
        total.merge(&results[i].counts);
        let lang = &results[i].language;
        match find_row(&rows, lang) {
            Some(g) => {
                proof {
                    lemma_sum_bounds(rows@, gf, g as int, 0);
                    lemma_sum_bounds(rows@, gc, g as int, 0);
                    lemma_sum_bounds(rows@, gm, g as int, 0);
                    lemma_sum_bounds(rows@, gb, g as int, 0);
                }
                let mut counts = rows[g].counts;
                counts.merge(&results[i].counts);
                let row = LanguageSummary {
                    language: rows[g].language.clone(),
                    files: rows[g].files + 1,
                    counts,
                };
                rows.set(g, row);
                proof {
                    lemma_sum_update(old_rows, g as int, row, gf);
                    lemma_sum_update(old_rows, g as int, row, gc);
                    lemma_sum_update(old_rows, g as int, row, gm);
                    lemma_sum_update(old_rows, g as int, row, gb);
                    assert forall|h: int| 0 <= h < rows@.len() implies row_matches(
                        next,
                        #[trigger] rows@[h],
                    ) by {
                        lemma_filter_step(pre, r, rows@[h].language@);
                        let own = with_language(pre, rows@[h].language@);
                        if h == g {
                            lemma_sum_push(own, r, fc);
                            lemma_sum_push(own, r, fm);
                            lemma_sum_push(own, r, fb);
                        }
                    }
                    assert forall|k: int| 0 <= k < next.len() implies has_row(
                        rows@,
                        #[trigger] next[k].language@,
                    ) by {
                        if k < i {
                            assert(pre[k] == next[k]);
                            assert(has_row(old_rows, pre[k].language@));
                            let w = choose|w: int|
                                0 <= w < old_rows.len() && #[trigger] old_rows[w].language@
                                    == pre[k].language@;
                            assert(rows@[w].language@ == old_rows[w].language@);
                        } else {
                            assert(rows@[g as int].language@ == next[k].language@);
                        }
                    }
                    assert forall|a: int, b: int| 0 <= a < b < rows@.len() implies rows@[a].language@
                        != rows@[b].language@ by {
                        assert(rows@[a].language@ == old_rows[a].language@);
                        assert(rows@[b].language@ == old_rows[b].language@);
                    }
                    assert forall|a: int| 0 <= a < rows@.len() implies has_file(
                        next,
                        #[trigger] rows@[a].language@,
                    ) by {
                        assert(rows@[a].language@ == old_rows[a].language@);
                        assert(has_file(pre, old_rows[a].language@));
                        let k = choose|k: int| 0 <= k < pre.len() && #[trigger] pre[k].language@ == old_rows[a].language@;
                        assert(next[k] == pre[k]);
                    }
                    assert forall|a: int, b: int| 0 <= a < b < rows@.len() implies appears_before(
                        next,
                        rows@[a].language@,
                        rows@[b].language@,
                    ) by {
                        assert(rows@[a].language@ == old_rows[a].language@);
                        assert(rows@[b].language@ == old_rows[b].language@);
                        assert(appears_before(pre, old_rows[a].language@, old_rows[b].language@));
                        let k = choose|k: int|
                            0 <= k < pre.len() && #[trigger] pre[k].language@ == old_rows[a].language@
                                && forall|j: int| 0 <= j <= k ==> #[trigger] pre[j].language@ != old_rows[b].language@;
                        assert(next[k] == pre[k]);
                        assert forall|j: int| 0 <= j <= k implies #[trigger] next[j].language@ != old_rows[b].language@ by {
                            assert(next[j] == pre[j]);
                        }
                    }
                }
            },
            None => {
                let row = LanguageSummary {
                    language: lang.clone(),
                    files: 1,
                    counts: results[i].counts,
                };
                rows.push(row);
                proof {
                    lemma_sum_push(old_rows, row, gf);
                    lemma_sum_push(old_rows, row, gc);
                    lemma_sum_push(old_rows, row, gm);
                    lemma_sum_push(old_rows, row, gb);
                    assert forall|k: int| 0 <= k < pre.len() implies #[trigger] pre[k].language@
                        != r.language@ by {
                        if pre[k].language@ == r.language@ {
                            assert(has_row(old_rows, pre[k].language@));
                        }
                    }
                    lemma_filter_none(pre, r.language@);
                    assert forall|h: int| 0 <= h < rows@.len() implies row_matches(
                        next,
                        #[trigger] rows@[h],
                    ) by {
                        lemma_filter_step(pre, r, rows@[h].language@);
                        if h == old_rows.len() {
                            let e = Seq::<FileResult>::empty();
                            lemma_sum_push(e, r, fc);
                            lemma_sum_push(e, r, fm);
                            lemma_sum_push(e, r, fb);
                            assert(e.push(r) =~= with_language(next, r.language@));
                        } else {
                            assert(rows@[h] == old_rows[h]);
                            assert(old_rows[h].language@ != r.language@);
                        }
                    }
                    assert forall|k: int| 0 <= k < next.len() implies has_row(
                        rows@,
                        #[trigger] next[k].language@,
                    ) by {
                        if k < i {
                            assert(pre[k] == next[k]);
                            assert(has_row(old_rows, pre[k].language@));
                            let w = choose|w: int|
                                0 <= w < old_rows.len() && #[trigger] old_rows[w].language@
                                    == pre[k].language@;
                            assert(rows@[w] == old_rows[w]);
                        } else {
                            assert(rows@[old_rows.len() as int].language@ == next[k].language@);
                        }
                    }
                    assert forall|a: int, b: int| 0 <= a < b < rows@.len() implies rows@[a].language@
                        != rows@[b].language@ by {
                        if b == old_rows.len() {
                            assert(rows@[a] == old_rows[a]);
                        }
                    }
                    assert forall|a: int| 0 <= a < rows@.len() implies has_file(
                        next,
                        #[trigger] rows@[a].language@,
                    ) by {
                        if a == old_rows.len() {
                            assert(next[i as int].language@ == rows@[a].language@);
                        } else {
                            assert(rows@[a] == old_rows[a]);
                            assert(has_file(pre, old_rows[a].language@));
                            let k = choose|k: int| 0 <= k < pre.len() && #[trigger] pre[k].language@ == old_rows[a].language@;
                            assert(next[k] == pre[k]);
                        }
                    }
                    assert forall|a: int, b: int| 0 <= a < b < rows@.len() implies appears_before(
                        next,
                        rows@[a].language@,
                        rows@[b].language@,
                    ) by {
                        assert(rows@[a] == old_rows[a]);
                        if b == old_rows.len() {
                            assert(has_file(pre, old_rows[a].language@));
                            let k = choose|k: int| 0 <= k < pre.len() && #[trigger] pre[k].language@ == old_rows[a].language@;
                            assert(next[k] == pre[k]);
                            assert forall|j: int| 0 <= j <= k implies #[trigger] next[j].language@ != r.language@ by {
                                assert(next[j] == pre[j]);
                            }
                            assert(rows@[b].language@ == r.language@);
                        } else {
                            assert(rows@[b] == old_rows[b]);
                            assert(appears_before(pre, old_rows[a].language@, old_rows[b].language@));
                            let k = choose|k: int|
                                0 <= k < pre.len() && #[trigger] pre[k].language@ == old_rows[a].language@
                                    && forall|j: int| 0 <= j <= k ==> #[trigger] pre[j].language@ != old_rows[b].language@;
                            assert(next[k] == pre[k]);
                            assert forall|j: int| 0 <= j <= k implies #[trigger] next[j].language@ != old_rows[b].language@ by {
                                assert(next[j] == pre[j]);
                            }
                        }
                    }
                }
            },
        }
        i = i + 1;
    }
    assert(results@.take(results@.len() as int) =~= results@);
    (total, rows)
}

/// All lines of the files of language `lang`.
pub open spec fn language_lines(rs: Seq<FileResult>, lang: Seq<char>) -> int {
    sum_of(with_language(rs, lang), |r: FileResult| file_lines(r))
}

/// Whether the counts of a summary of `rs` fit in a `usize`: the code,
/// comment and blank lines of all files, and all lines of each language.
pub open spec fn summary_fits(rs: Seq<FileResult>) -> bool {
    &&& sum_of(rs, |r: FileResult| file_code(r)) <= usize::MAX
    &&& sum_of(rs, |r: FileResult| file_comments(r)) <= usize::MAX
    &&& sum_of(rs, |r: FileResult| file_blank(r)) <= usize::MAX
    &&& forall|k: int| 0 <= k < rs.len() ==> language_lines(rs, #[trigger] rs[k].language@) <= usize::MAX
}

/// The summary of a scan's results: the number of files, the total counts,
/// and one row per language, with the largest line total first.
pub fn summarize(results: &[FileResult]) -> (r: ScanSummary)
    requires
        summary_fits(results@),
    ensures
        r.total_files == results@.len(),
        r.total_counts.code == sum_of(results@, |r: FileResult| file_code(r)),
        r.total_counts.comments == sum_of(results@, |r: FileResult| file_comments(r)),
        r.total_counts.blank == sum_of(results@, |r: FileResult| file_blank(r)),
        rows_describe(results@, r.by_language@),
        forall|g: int, h: int|
            0 <= g < h < r.by_language@.len() ==> row_lines(r.by_language@[g]) >= row_lines(
                r.by_language@[h],
            ),
        forall|g: int, h: int|
            0 <= g < h < r.by_language@.len() && row_lines(r.by_language@[g]) == row_lines(
                r.by_language@[h],
            ) ==> appears_before(results@, r.by_language@[g].language@, r.by_language@[h].language@),
        sum_of(r.by_language@, |r: LanguageSummary| row_files(r)) == r.total_files,
        sum_of(r.by_language@, |r: LanguageSummary| row_code(r)) == r.total_counts.code,
        sum_of(r.by_language@, |r: LanguageSummary| row_comments(r)) == r.total_counts.comments,
        sum_of(r.by_language@, |r: LanguageSummary| row_blank(r)) == r.total_counts.blank,
{
    let (total, rows) = group_by_language(results);
    let ghost gl = |r: LanguageSummary| row_lines(r);
    proof {
        assert forall|g: int| 0 <= g < rows@.len() implies 0 <= #[trigger] gl(rows@[g])
            <= usize::MAX by {
            let row = rows@[g];
            assert(has_file(results@, row.language@));
            let k = choose|k: int| 0 <= k < results@.len() && #[trigger] results@[k].language@
                == row.language@;
            assert(language_lines(results@, results@[k].language@) <= usize::MAX);
            assert(row_matches(results@, row));
            lemma_file_lines_split(with_language(results@, row.language@));
        }
    }
    let mut keys: Vec<usize> = Vec::new();
    let mut g: usize = 0;
    while g < rows.len()
        invariant
            g <= rows@.len(),
            gl == (|r: LanguageSummary| row_lines(r)),
            forall|m: int| 0 <= m < rows@.len() ==> 0 <= #[trigger] gl(rows@[m]) <= usize::MAX,
            keys@.len() == g,
            forall|m: int| 0 <= m < g ==> #[trigger] keys@[m] == row_lines(rows@[m]),
        decreases rows@.len() - g,
    {
        assert(gl(rows@[g as int]) <= usize::MAX);
        keys.push(rows[g].counts.total());
        g = g + 1;
    }
    let order = stable_descending_order(&keys);
    let mut by_language: Vec<LanguageSummary> = Vec::new();
    let mut k: usize = 0;
    while k < order.len()
        invariant
            k <= order@.len(),
            is_stable_descending(keys@, order@),
            keys@.len() == rows@.len(),
            by_language@ == permuted(rows@, order@).take(k as int),
        decreases order@.len() - k,
    {
        let row = copy_row(&rows[order[k]]);
        by_language.push(row);
        assert(by_language@ =~= permuted(rows@, order@).take(k + 1));
        k = k + 1;
    }
    let ghost sorted = permuted(rows@, order@);
    assert(by_language@ =~= sorted);
    proof {
        lemma_sum_permuted(rows@, order@, |r: LanguageSummary| row_files(r));
        lemma_sum_permuted(rows@, order@, |r: LanguageSummary| row_code(r));
        lemma_sum_permuted(rows@, order@, |r: LanguageSummary| row_comments(r));
        lemma_sum_permuted(rows@, order@, |r: LanguageSummary| row_blank(r));
        let n = rows@.len() as int;
        assert forall|a: int, b: int| 0 <= a < b < n implies sorted[a].language@
            != sorted[b].language@ by {
            let x = order@[a] as int;
            let y = order@[b] as int;
            if x < y {
                assert(rows@[x].language@ != rows@[y].language@);
            } else {
                assert(rows@[y].language@ != rows@[x].language@);
            }
        }
        assert forall|q: int| 0 <= q < results@.len() implies has_row(
            sorted,
            #[trigger] results@[q].language@,
        ) by {
            assert(has_row(rows@, results@[q].language@));
            let w = choose|w: int|
                0 <= w < rows@.len() && #[trigger] rows@[w].language@ == results@[q].language@;
            assert(crate::ranking::lists(order@, w));
            let p = choose|p: int| 0 <= p < order@.len() && #[trigger] order@[p] == w;
            assert(sorted[p] == rows@[w]);
        }
        assert forall|a: int| 0 <= a < n implies row_matches(results@, #[trigger] sorted[a])
            && sorted[a].files >= 1 by {
            assert(sorted[a] == rows@[order@[a] as int]);
        }
        assert forall|a: int, b: int| 0 <= a < b < n implies row_lines(sorted[a]) >= row_lines(
            sorted[b],
        ) by {
            assert(keys@[order@[a] as int] >= keys@[order@[b] as int]);
        }
        assert forall|a: int, b: int|
            0 <= a < b < n && row_lines(sorted[a]) == row_lines(sorted[b]) implies appears_before(
            results@,
            sorted[a].language@,
            sorted[b].language@,
        ) by {
            assert(keys@[order@[a] as int] == keys@[order@[b] as int]);
            assert(order@[a] < order@[b]);
        }
    }
    ScanSummary { total_files: results.len(), total_counts: total, by_language }
}

} // verus!
