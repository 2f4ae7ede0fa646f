//! The languages the counter knows, with their comment markers.
use crate::outside::{
    ascii_lowercase, is_ascii_text, lowercase, lowercase_of, opt_string_view, path_extension,
    path_extension_of,
};
use crate::text::{chars_equal, chars_of};
use vstd::prelude::*;

verus! {

/// A language: its name, the file extensions that select it, the prefixes
/// that start a line comment, and the markers of a block comment.
#[derive(Debug, Clone, Copy)]
pub struct LangConfig {
    pub name: &'static str,
    pub extensions: &'static [&'static str],
    pub line_comments: &'static [&'static str],
    pub block_comment_start: Option<&'static str>,
    pub block_comment_end: Option<&'static str>,
}

/// The model of a `LangConfig`: its strings as character sequences.
#[verifier::ext_equal]
pub struct LangSpec {
    pub name: Seq<char>,
    pub extensions: Seq<Seq<char>>,
    pub line_comments: Seq<Seq<char>>,
    pub block_comment_start: Option<Seq<char>>,
    pub block_comment_end: Option<Seq<char>>,
}

/// The character sequences of a sequence of string slices.
pub open spec fn str_views(s: Seq<&str>) -> Seq<Seq<char>> {
    s.map_values(|e: &str| e@)
}

/// The character sequence of an optional string slice.
pub open spec fn opt_str_view(s: Option<&str>) -> Option<Seq<char>> {
    match s {
        Some(x) => Some(x@),
        None => None,
    }
}

impl View for LangConfig {
    type V = LangSpec;

    open spec fn view(&self) -> LangSpec {
        LangSpec {
            name: self.name@,
            extensions: str_views(self.extensions@),
            line_comments: str_views(self.line_comments@),
            block_comment_start: opt_str_view(self.block_comment_start),
            block_comment_end: opt_str_view(self.block_comment_end),
        }
    }
}

/// The model of an optional language.
pub open spec fn opt_lang_view(l: Option<LangConfig>) -> Option<LangSpec> {
    match l {
        Some(x) => Some(x@),
        None => None,
    }
}

/// The model of an optional reference to a language.
pub open spec fn opt_lang_ref_view(l: Option<&LangConfig>) -> Option<LangSpec> {
    match l {
        Some(x) => Some(x@),
        None => None,
    }
}

/// The table of known languages, in the order in which they are searched.
pub open spec fn language_table() -> Seq<LangSpec> {
    seq![
        LangSpec {
            name: "Rust"@,
            extensions: seq!["rs"@],
            line_comments: seq!["//"@],
            block_comment_start: Some("/*"@),
            block_comment_end: Some("*/"@),
        },
        LangSpec {
            name: "JavaScript"@,
            extensions: seq!["js"@, "mjs"@, "cjs"@],
            line_comments: seq!["//"@],
            block_comment_start: Some("/*"@),
            block_comment_end: Some("*/"@),
        },
        LangSpec {
            name: "TypeScript"@,
            extensions: seq!["ts"@, "mts"@, "cts"@],
            line_comments: seq!["//"@],
            block_comment_start: Some("/*"@),
            block_comment_end: Some("*/"@),
        },
        LangSpec {
            name: "TSX"@,
            extensions: seq!["tsx"@],
            line_comments: seq!["//"@],
            block_comment_start: Some("/*"@),
            block_comment_end: Some("*/"@),
        },
        LangSpec {
            name: "JSX"@,
            extensions: seq!["jsx"@],
            line_comments: seq!["//"@],
            block_comment_start: Some("/*"@),
            block_comment_end: Some("*/"@),
        },
        LangSpec {
            name: "Python"@,
            extensions: seq!["py"@, "pyi"@],
            line_comments: seq!["#"@],
            block_comment_start: Some("\"\"\""@),
            block_comment_end: Some("\"\"\""@),
        },
        LangSpec {
            name: "Java"@,
            extensions: seq!["java"@],
            line_comments: seq!["//"@],
            block_comment_start: Some("/*"@),
            block_comment_end: Some("*/"@),
        },
        LangSpec {
            name: "C"@,
            extensions: seq!["c"@, "h"@],
            line_comments: seq!["//"@],
            block_comment_start: Some("/*"@),
            block_comment_end: Some("*/"@),
        },
        LangSpec {
            name: "C++"@,
            extensions: seq!["cpp"@, "cxx"@, "cc"@, "hpp"@, "hxx"@],
            line_comments: seq!["//"@],
            block_comment_start: Some("/*"@),
            block_comment_end: Some("*/"@),
        },
        LangSpec {
            name: "C#"@,
            extensions: seq!["cs"@],
            line_comments: seq!["//"@],
            block_comment_start: Some("/*"@),
            block_comment_end: Some("*/"@),
        },
        LangSpec {
            name: "Go"@,
            extensions: seq!["go"@],
            line_comments: seq!["//"@],
            block_comment_start: Some("/*"@),
            block_comment_end: Some("*/"@),
        },
        LangSpec {
            name: "Ruby"@,
            extensions: seq!["rb"@],
            line_comments: seq!["#"@],
            block_comment_start: Some("=begin"@),
            block_comment_end: Some("=end"@),
        },
        LangSpec {
            name: "PHP"@,
            extensions: seq!["php"@],
            line_comments: seq!["//"@, "#"@],
            block_comment_start: Some("/*"@),
            block_comment_end: Some("*/"@),
        },
        LangSpec {
            name: "Swift"@,
            extensions: seq!["swift"@],
            line_comments: seq!["//"@],
            block_comment_start: Some("/*"@),
            block_comment_end: Some("*/"@),
        },
        LangSpec {
            name: "Kotlin"@,
            extensions: seq!["kt"@, "kts"@],
            line_comments: seq!["//"@],
            block_comment_start: Some("/*"@),
            block_comment_end: Some("*/"@),
        },
        LangSpec {
            name: "CSS"@,
            extensions: seq!["css"@],
            line_comments: seq![],
            block_comment_start: Some("/*"@),
            block_comment_end: Some("*/"@),
        },
        LangSpec {
            name: "SCSS"@,
            extensions: seq!["scss"@, "sass"@],
            line_comments: seq!["//"@],
            block_comment_start: Some("/*"@),
            block_comment_end: Some("*/"@),
        },
        LangSpec {
            name: "HTML"@,
            extensions: seq!["html"@, "htm"@],
            line_comments: seq![],
            block_comment_start: Some("<!--"@),
            block_comment_end: Some("-->"@),
        },
        LangSpec {
            name: "XML"@,
            extensions: seq!["xml"@, "xsl"@, "xsd"@],
            line_comments: seq![],
            block_comment_start: Some("<!--"@),
            block_comment_end: Some("-->"@),
        },
        LangSpec {
            name: "Vue"@,
            extensions: seq!["vue"@],
            line_comments: seq!["//"@],
            block_comment_start: Some("<!--"@),
            block_comment_end: Some("-->"@),
        },
        LangSpec {
            name: "Svelte"@,
            extensions: seq!["svelte"@],
            line_comments: seq!["//"@],
            block_comment_start: Some("<!--"@),
            block_comment_end: Some("-->"@),
        },
        LangSpec {
            name: "Shell"@,
            extensions: seq!["sh"@, "bash"@, "zsh"@],
            line_comments: seq!["#"@],
            block_comment_start: None,
            block_comment_end: None,
        },
        LangSpec {
            name: "YAML"@,
            extensions: seq!["yml"@, "yaml"@],
            line_comments: seq!["#"@],
            block_comment_start: None,
            block_comment_end: None,
        },
        LangSpec {
            name: "TOML"@,
            extensions: seq!["toml"@],
            line_comments: seq!["#"@],
            block_comment_start: None,
            block_comment_end: None,
        },
        LangSpec {
            name: "JSON"@,
            extensions: seq!["json"@, "jsonc"@],
            line_comments: seq![],
            block_comment_start: None,
            block_comment_end: None,
        },
        LangSpec {
            name: "Markdown"@,
            extensions: seq!["md"@, "mdx"@],
            line_comments: seq![],
            block_comment_start: None,
            block_comment_end: None,
        },
        LangSpec {
            name: "SQL"@,
            extensions: seq!["sql"@],
            line_comments: seq!["--"@],
            block_comment_start: Some("/*"@),
            block_comment_end: Some("*/"@),
        },
        LangSpec {
            name: "Lua"@,
            extensions: seq!["lua"@],
            line_comments: seq!["--"@],
            block_comment_start: Some("--[["@),
            block_comment_end: Some("]]"@),
        },
        LangSpec {
            name: "Dart"@,
            extensions: seq!["dart"@],
            line_comments: seq!["//"@],
            block_comment_start: Some("/*"@),
            block_comment_end: Some("*/"@),
        },
        LangSpec {
            name: "Scala"@,
            extensions: seq!["scala"@],
            line_comments: seq!["//"@],
            block_comment_start: Some("/*"@),
            block_comment_end: Some("*/"@),
        },
        LangSpec {
            name: "Elixir"@,
            extensions: seq!["ex"@, "exs"@],
            line_comments: seq!["#"@],
            block_comment_start: None,
            block_comment_end: None,
        },
        LangSpec {
            name: "Haskell"@,
            extensions: seq!["hs"@],
            line_comments: seq!["--"@],
            block_comment_start: Some("{-"@),
            block_comment_end: Some("-}"@),
        },
        LangSpec {
            name: "Zig"@,
            extensions: seq!["zig"@],
            line_comments: seq!["//"@],
            block_comment_start: None,
            block_comment_end: None,
        },
    ]
}

/// The first language of `table` that lists `ext` among its extensions.
pub open spec fn find_language(table: Seq<LangSpec>, ext: Seq<char>) -> Option<LangSpec>
    decreases table.len(),
{
    if table.len() == 0 {
        None
    } else if table[0].extensions.contains(ext) {
        Some(table[0])
    } else {
        find_language(table.drop_first(), ext)
    }
}

/// The language that a path selects: the first of the table whose extensions
/// hold the path's extension, compared as it is (case-sensitively).
pub open spec fn language_of_path(path: Seq<char>) -> Option<LangSpec> {
    match path_extension_of(path) {
        Some(e) => find_language(language_table(), e),
        None => None,
    }
}

/// The lowercased extension of a path.
pub open spec fn lowercase_extension_of(path: Seq<char>) -> Option<Seq<char>> {
    match path_extension_of(path) {
        Some(e) => Some(lowercase_of(e)),
        None => None,
    }
}

/// A word of lowercase ASCII letters.
pub open spec fn is_lower_word(e: Seq<char>) -> bool {
    forall|k: int| 0 <= k < e.len() ==> 97 <= #[trigger] (e[k] as u32) <= 122
}

/// A word of lowercase ASCII letters is ASCII, and ASCII lowercasing leaves
/// it unchanged.
proof fn lemma_lower_word_unchanged(e: Seq<char>)
    requires
        is_lower_word(e),
    ensures
        is_ascii_text(e),
        ascii_lowercase(e) == e,
{
    assert(ascii_lowercase(e) =~= e);
}

/// Every extension of a language holds lowercase ASCII letters only.
pub open spec fn extensions_lower(l: LangSpec) -> bool {
    forall|j: int| 0 <= j < l.extensions.len() ==> is_lower_word(#[trigger] l.extensions[j])
}

/// The extensions of the language table are words of lowercase ASCII
/// letters.
proof fn lemma_table_extensions_lower()
    ensures
        forall|i: int|
            0 <= i < language_table().len() ==> #[trigger] extensions_lower(language_table()[i]),
{
    reveal_strlit("rs");
    reveal_strlit("js");
    reveal_strlit("mjs");
    reveal_strlit("cjs");
    reveal_strlit("ts");
    reveal_strlit("mts");
    reveal_strlit("cts");
    reveal_strlit("tsx");
    reveal_strlit("jsx");
    reveal_strlit("py");
    reveal_strlit("pyi");
    reveal_strlit("java");
    reveal_strlit("c");
    reveal_strlit("h");
    reveal_strlit("cpp");
    reveal_strlit("cxx");
    reveal_strlit("cc");
    reveal_strlit("hpp");
    reveal_strlit("hxx");
    reveal_strlit("cs");
    reveal_strlit("go");
    reveal_strlit("rb");
    reveal_strlit("php");
    reveal_strlit("swift");
    reveal_strlit("kt");
    reveal_strlit("kts");
    reveal_strlit("css");
    reveal_strlit("scss");
    reveal_strlit("sass");
    reveal_strlit("html");
    reveal_strlit("htm");
    reveal_strlit("xml");
    reveal_strlit("xsl");
    reveal_strlit("xsd");
    reveal_strlit("vue");
    reveal_strlit("svelte");
    reveal_strlit("sh");
    reveal_strlit("bash");
    reveal_strlit("zsh");
    reveal_strlit("yml");
    reveal_strlit("yaml");
    reveal_strlit("toml");
    reveal_strlit("json");
    reveal_strlit("jsonc");
    reveal_strlit("md");
    reveal_strlit("mdx");
    reveal_strlit("sql");
    reveal_strlit("lua");
    reveal_strlit("dart");
    reveal_strlit("scala");
    reveal_strlit("ex");
    reveal_strlit("exs");
    reveal_strlit("hs");
    reveal_strlit("zig");
    let t = language_table();
    assert forall|i: int| 0 <= i < t.len() implies #[trigger] extensions_lower(t[i]) by {
        if i == 0 {
        } else         if i == 1 {
        } else         if i == 2 {
        } else         if i == 3 {
        } else         if i == 4 {
        } else         if i == 5 {
        } else         if i == 6 {
        } else         if i == 7 {
        } else         if i == 8 {
        } else         if i == 9 {
        } else         if i == 10 {
        } else         if i == 11 {
        } else         if i == 12 {
        } else         if i == 13 {
        } else         if i == 14 {
        } else         if i == 15 {
        } else         if i == 16 {
        } else         if i == 17 {
        } else         if i == 18 {
        } else         if i == 19 {
        } else         if i == 20 {
        } else         if i == 21 {
        } else         if i == 22 {
        } else         if i == 23 {
        } else         if i == 24 {
        } else         if i == 25 {
        } else         if i == 26 {
        } else         if i == 27 {
        } else         if i == 28 {
        } else         if i == 29 {
        } else         if i == 30 {
        } else         if i == 31 {
        } else         if i == 32 {
        } else {
        }
    }
}

/// Where the table yields a language for `ext`, that language is one of the
/// table's and lists `ext`.
proof fn lemma_find_language(table: Seq<LangSpec>, ext: Seq<char>)
    ensures
        find_language(table, ext) matches Some(l) ==> exists|i: int|
            0 <= i < table.len() && #[trigger] table[i] == l && l.extensions.contains(ext),
    decreases table.len(),
{
    if table.len() > 0 && !table[0].extensions.contains(ext) {
        lemma_find_language(table.drop_first(), ext);
        if let Some(l) = find_language(table, ext) {
            let i = choose|i: int|
                0 <= i < table.drop_first().len() && #[trigger] table.drop_first()[i] == l
                    && l.extensions.contains(ext);
            assert(table[i + 1] == l);
        }
    } else if table.len() > 0 {
        assert(table[0] == table[0]);
    }
}

/// The language found for an extension is the first of the table that
/// lists it; where none lists it, none is found.
pub proof fn lemma_first_listing_language(table: Seq<LangSpec>, ext: Seq<char>)
    ensures
        find_language(table, ext) is None <==> forall|i: int|
            0 <= i < table.len() ==> !(#[trigger] table[i]).extensions.contains(ext),
        find_language(table, ext) matches Some(l) ==> exists|i: int|
            0 <= i < table.len() && #[trigger] table[i] == l && l.extensions.contains(ext)
                && forall|j: int| 0 <= j < i ==> !table[j].extensions.contains(ext),
    decreases table.len(),
{
    if table.len() > 0 {
        let rest = table.drop_first();
        lemma_first_listing_language(rest, ext);
        if !table[0].extensions.contains(ext) {
            assert forall|i: int| 1 <= i < table.len() implies #[trigger] table[i] == rest[i - 1] by {}
            if let Some(l) = find_language(table, ext) {
                let i = choose|i: int|
                    0 <= i < rest.len() && #[trigger] rest[i] == l && l.extensions.contains(ext)
                        && forall|j: int| 0 <= j < i ==> !rest[j].extensions.contains(ext);
                assert(table[i + 1] == l);
                assert forall|j: int| 0 <= j < i + 1 implies !table[j].extensions.contains(ext) by {
                    if j > 0 {
                        assert(table[j] == rest[j - 1]);
                    }
                }
            } else {
                assert forall|i: int| 0 <= i < table.len() implies !(
                #[trigger] table[i]).extensions.contains(ext) by {
                    if i > 0 {
                        assert(table[i] == rest[i - 1]);
                    }
                }
            }
        } else {
            assert(table[0] == table[0]);
        }
    }
}

/// The table of known languages.
pub fn languages() -> (r: Vec<LangConfig>)
    ensures
        r@.map_values(|l: LangConfig| l@) == language_table(),
{
    let r = vec![
        LangConfig {
            name: "Rust",
            extensions: &["rs"],
            line_comments: &["//"],
            block_comment_start: Some("/*"),
            block_comment_end: Some("*/"),
        },
        LangConfig {
            name: "JavaScript",
            extensions: &["js", "mjs", "cjs"],
            line_comments: &["//"],
            block_comment_start: Some("/*"),
            block_comment_end: Some("*/"),
        },
        LangConfig {
            name: "TypeScript",
            extensions: &["ts", "mts", "cts"],
            line_comments: &["//"],
            block_comment_start: Some("/*"),
            block_comment_end: Some("*/"),
        },
        LangConfig {
            name: "TSX",
            extensions: &["tsx"],
            line_comments: &["//"],
            block_comment_start: Some("/*"),
            block_comment_end: Some("*/"),
        },
        LangConfig {
            name: "JSX",
            extensions: &["jsx"],
            line_comments: &["//"],
            block_comment_start: Some("/*"),
            block_comment_end: Some("*/"),
        },
        LangConfig {
            name: "Python",
            extensions: &["py", "pyi"],
            line_comments: &["#"],
            block_comment_start: Some("\"\"\""),
            block_comment_end: Some("\"\"\""),
        },
        LangConfig {
            name: "Java",
            extensions: &["java"],
            line_comments: &["//"],
            block_comment_start: Some("/*"),
            block_comment_end: Some("*/"),
        },
        LangConfig {
            name: "C",
            extensions: &["c", "h"],
            line_comments: &["//"],
            block_comment_start: Some("/*"),
            block_comment_end: Some("*/"),
        },
        LangConfig {
            name: "C++",
            extensions: &["cpp", "cxx", "cc", "hpp", "hxx"],
            line_comments: &["//"],
            block_comment_start: Some("/*"),
            block_comment_end: Some("*/"),
        },
        LangConfig {
            name: "C#",
            extensions: &["cs"],
            line_comments: &["//"],
            block_comment_start: Some("/*"),
            block_comment_end: Some("*/"),
        },
        LangConfig {
            name: "Go",
            extensions: &["go"],
            line_comments: &["//"],
            block_comment_start: Some("/*"),
            block_comment_end: Some("*/"),
        },
        LangConfig {
            name: "Ruby",
            extensions: &["rb"],
            line_comments: &["#"],
            block_comment_start: Some("=begin"),
            block_comment_end: Some("=end"),
        },
        LangConfig {
            name: "PHP",
            extensions: &["php"],
            line_comments: &["//", "#"],
            block_comment_start: Some("/*"),
            block_comment_end: Some("*/"),
        },
        LangConfig {
            name: "Swift",
            extensions: &["swift"],
            line_comments: &["//"],
            block_comment_start: Some("/*"),
            block_comment_end: Some("*/"),
        },
        LangConfig {
            name: "Kotlin",
            extensions: &["kt", "kts"],
            line_comments: &["//"],
            block_comment_start: Some("/*"),
            block_comment_end: Some("*/"),
        },
        LangConfig {
            name: "CSS",
            extensions: &["css"],
            line_comments: &[],
            block_comment_start: Some("/*"),
            block_comment_end: Some("*/"),
        },
        LangConfig {
            name: "SCSS",
            extensions: &["scss", "sass"],
            line_comments: &["//"],
            block_comment_start: Some("/*"),
            block_comment_end: Some("*/"),
        },
        LangConfig {
            name: "HTML",
            extensions: &["html", "htm"],
            line_comments: &[],
            block_comment_start: Some("<!--"),
            block_comment_end: Some("-->"),
        },
        LangConfig {
            name: "XML",
            extensions: &["xml", "xsl", "xsd"],
            line_comments: &[],
            block_comment_start: Some("<!--"),
            block_comment_end: Some("-->"),
        },
        LangConfig {
            name: "Vue",
            extensions: &["vue"],
            line_comments: &["//"],
            block_comment_start: Some("<!--"),
            block_comment_end: Some("-->"),
        },
        LangConfig {
            name: "Svelte",
            extensions: &["svelte"],
            line_comments: &["//"],
            block_comment_start: Some("<!--"),
            block_comment_end: Some("-->"),
        },
        LangConfig {
            name: "Shell",
            extensions: &["sh", "bash", "zsh"],
            line_comments: &["#"],
            block_comment_start: None,
            block_comment_end: None,
        },
        LangConfig {
            name: "YAML",
            extensions: &["yml", "yaml"],
            line_comments: &["#"],
            block_comment_start: None,
            block_comment_end: None,
        },
        LangConfig {
            name: "TOML",
            extensions: &["toml"],
            line_comments: &["#"],
            block_comment_start: None,
            block_comment_end: None,
        },
        LangConfig {
            name: "JSON",
            extensions: &["json", "jsonc"],
            line_comments: &[],
            block_comment_start: None,
            block_comment_end: None,
        },
        LangConfig {
            name: "Markdown",
            extensions: &["md", "mdx"],
            line_comments: &[],
            block_comment_start: None,
            block_comment_end: None,
        },
        LangConfig {
            name: "SQL",
            extensions: &["sql"],
            line_comments: &["--"],
            block_comment_start: Some("/*"),
            block_comment_end: Some("*/"),
        },
        LangConfig {
            name: "Lua",
            extensions: &["lua"],
            line_comments: &["--"],
            block_comment_start: Some("--[["),
            block_comment_end: Some("]]"),
        },
        LangConfig {
            name: "Dart",
            extensions: &["dart"],
            line_comments: &["//"],
            block_comment_start: Some("/*"),
            block_comment_end: Some("*/"),
        },
        LangConfig {
            name: "Scala",
            extensions: &["scala"],
            line_comments: &["//"],
            block_comment_start: Some("/*"),
            block_comment_end: Some("*/"),
        },
        LangConfig {
            name: "Elixir",
            extensions: &["ex", "exs"],
            line_comments: &["#"],
            block_comment_start: None,
            block_comment_end: None,
        },
        LangConfig {
            name: "Haskell",
            extensions: &["hs"],
            line_comments: &["--"],
            block_comment_start: Some("{-"),
            block_comment_end: Some("-}"),
        },
        LangConfig {
            name: "Zig",
            extensions: &["zig"],
            line_comments: &["//"],
            block_comment_start: None,
            block_comment_end: None,
        },
    ];
    assert(r@.map_values(|l: LangConfig| l@) =~~= language_table());
    r
}

/// Whether `ext` is one of `exts`.
fn has_extension(exts: &[&'static str], ext: &Vec<char>) -> (r: bool)
    ensures
        r == str_views(exts@).contains(ext@),
{
    let mut k: usize = 0;
    while k < exts.len()
        invariant
            k <= exts@.len(),
            forall|m: int| 0 <= m < k ==> exts@[m]@ != ext@,
        decreases exts@.len() - k,
    {
        let cand = chars_of(exts[k]);
        if chars_equal(&cand, ext) {
            assert(str_views(exts@)[k as int] == ext@);
            return true;
        }
        k = k + 1;
    }
    assert(!str_views(exts@).contains(ext@));
    false
}

/// The first language of the table that lists `ext` among its extensions
/// (compared as it is, case-sensitively).
pub fn language_for_extension(ext: &str) -> (r: Option<LangConfig>)
    ensures
        opt_lang_view(r) == find_language(language_table(), ext@),
{
    let ext_chars = chars_of(ext);
    let table = languages();
    let ghost spec_table = language_table();
    let mut i: usize = 0;
    assert(spec_table.skip(0) =~= spec_table);
    while i < table.len()
        invariant
            i <= table@.len(),
            table@.map_values(|l: LangConfig| l@) == spec_table,
            spec_table == language_table(),
            ext_chars@ == ext@,
            find_language(spec_table, ext@) == find_language(spec_table.skip(i as int), ext@),
        decreases table@.len() - i,
    {
        let ghost rest = spec_table.skip(i as int);
        assert(rest[0] == table@[i as int]@);
        if has_extension(table[i].extensions, &ext_chars) {
            assert(find_language(rest, ext@) == Some(rest[0]));
            return Some(table[i]);
        }
        assert(rest.drop_first() =~= spec_table.skip(i + 1));
        i = i + 1;
    }
    None
}

/// The language that the extension of `path` selects, if any.
pub fn detect_language(path: &str) -> (r: Option<LangConfig>)
    ensures
        opt_lang_view(r) == language_of_path(path@),
        !path@.contains('.') ==> r is None,
{
    match path_extension(path) {
        Some(ext) => language_for_extension(ext.as_str()),
        None => None,
    }
}

/// The extension of `path`, lowercased. Where the extension selects a
/// language, the language lists the extension reported here.
pub fn get_extension(path: &str) -> (r: Option<String>)
    ensures
        opt_string_view(r) == lowercase_extension_of(path@),
        !path@.contains('.') ==> r is None,
        language_of_path(path@) matches Some(l) ==> r matches Some(e) && l.extensions.contains(e@),
{
    match path_extension(path) {
        Some(e) => {
            let lower = lowercase(e.as_str());
            proof {
                lemma_find_language(language_table(), e@);
                if let Some(l) = find_language(language_table(), e@) {
                    lemma_table_extensions_lower();
                    let i = choose|i: int|
                        0 <= i < language_table().len() && #[trigger] language_table()[i] == l
                            && l.extensions.contains(e@);
                    assert(extensions_lower(language_table()[i]));
                    let j = choose|j: int| 0 <= j < l.extensions.len() && l.extensions[j] == e@;
                    assert(is_lower_word(l.extensions[j]));
                    lemma_lower_word_unchanged(e@);
                }
            }
            Some(lower)
        },
        None => None,
    }
}

} // verus!
