use line_counter::counter::{count_lines, LineCounts};
use line_counter::lang::{
    detect_language, get_extension, language_for_extension, languages, LangConfig,
};

fn lang(name: &str) -> LangConfig {
    languages().into_iter().find(|l| l.name == name).unwrap()
}

fn counts(text: &str, name: Option<&str>) -> (usize, usize, usize) {
    let l = name.map(lang);
    let c = count_lines(text, l.as_ref());
    (c.code, c.comments, c.blank)
}

#[test]
fn empty_text_has_no_lines() {
    assert_eq!(counts("", Some("Rust")), (0, 0, 0));
}

#[test]
fn rust_line_comments_code_and_blanks() {
    let text = "// header\nfn main() {\n\n    let x = 1; // trailing\n}\n";
    assert_eq!(counts(text, Some("Rust")), (3, 1, 1));
}

#[test]
fn block_comment_spans_lines() {
    let text = "/* start\n still comment\n end */\nlet a = 1;\n";
    assert_eq!(counts(text, Some("Rust")), (1, 3, 0));
}

#[test]
fn block_comment_closed_on_same_line() {
    let text = "/* one line */\ncode();\n";
    assert_eq!(counts(text, Some("Rust")), (1, 1, 0));
}

#[test]
fn blank_line_inside_block_comment_is_blank() {
    let text = "/*\n\n*/\nx\n";
    assert_eq!(counts(text, Some("C")), (1, 2, 1));
}

#[test]
fn python_docstring_same_markers() {
    let text = "\"\"\"\nDoc\n\"\"\"\nx = 1\n\"\"\"one line\"\"\"\n# note\n";
    assert_eq!(counts(text, Some("Python")), (1, 5, 0));
}

#[test]
fn python_docstring_open_after_text() {
    // The opening marker followed by text and no closing marker keeps the block open.
    let text = "\"\"\"Summary\nmore\n\"\"\"\ncode\n";
    assert_eq!(counts(text, Some("Python")), (1, 3, 0));
}

#[test]
fn php_has_two_line_comment_prefixes() {
    let text = "<?php\n// a\n# b\necho 1;\n";
    assert_eq!(counts(text, Some("PHP")), (2, 2, 0));
}

#[test]
fn css_has_no_line_comments() {
    let text = "// not a comment in css\n/* c */\n";
    assert_eq!(counts(text, Some("CSS")), (1, 1, 0));
}

#[test]
fn shell_has_no_block_comments() {
    let text = "#!/bin/sh\n/* x */\necho hi\n";
    assert_eq!(counts(text, Some("Shell")), (2, 1, 0));
}

#[test]
fn unknown_language_counts_code_and_blank_only() {
    let text = "// comment?\n\n# also?\nplain\n";
    assert_eq!(counts(text, None), (3, 0, 1));
}

#[test]
fn last_line_without_newline_counts() {
    assert_eq!(counts("a\nb", None), (2, 0, 0));
}

#[test]
fn crlf_line_endings() {
    let text = "// c\r\ncode\r\n\r\n";
    assert_eq!(counts(text, Some("Rust")), (1, 1, 1));
}

#[test]
fn whitespace_only_lines_are_blank() {
    let text = "  \t \n\u{a0}\ncode\n";
    assert_eq!(counts(text, Some("Go")), (1, 0, 2));
}

#[test]
fn indented_comment_is_comment() {
    let text = "    // indented\n\t-- not rust\n";
    assert_eq!(counts(text, Some("Rust")), (1, 1, 0));
}

#[test]
fn haskell_block_and_line_comments() {
    let text = "{- block\n-}\n-- line\nmain = pure ()\n";
    assert_eq!(counts(text, Some("Haskell")), (1, 3, 0));
}

#[test]
fn ruby_begin_end() {
    let text = "=begin\nnotes\n=end\nputs 1\n";
    assert_eq!(counts(text, Some("Ruby")), (1, 3, 0));
}

#[test]
fn lua_block_comment() {
    let text = "--[[ long\ncomment ]]\n-- short\nprint(1)\n";
    assert_eq!(counts(text, Some("Lua")), (1, 3, 0));
}

#[test]
fn html_comment() {
    let text = "<!-- a -->\n<p>x</p>\n<!--\nb\n-->\n";
    assert_eq!(counts(text, Some("HTML")), (1, 4, 0));
}

#[test]
fn counts_add_up_to_lines() {
    let text = "a\n\n// b\n/*\nc\n*/\nd";
    let c = count_lines(text, Some(&lang("Rust")));
    assert_eq!(c.total(), 7);
}

#[test]
fn line_counts_total_and_merge() {
    let mut a = LineCounts { code: 3, comments: 2, blank: 1 };
    let b = LineCounts { code: 10, comments: 20, blank: 30 };
    assert_eq!(a.total(), 6);
    a.merge(&b);
    assert_eq!((a.code, a.comments, a.blank), (13, 22, 31));
    assert_eq!(a.total(), 66);
    let d = LineCounts::default();
    assert_eq!(d.total(), 0);
}

#[test]
fn detect_language_by_extension() {
    assert_eq!(detect_language("src/main.rs").map(|l| l.name), Some("Rust"));
    assert_eq!(detect_language("a/b/c.tsx").map(|l| l.name), Some("TSX"));
    assert_eq!(detect_language("lib.mjs").map(|l| l.name), Some("JavaScript"));
    assert_eq!(detect_language("x.hpp").map(|l| l.name), Some("C++"));
    assert_eq!(detect_language("x.h").map(|l| l.name), Some("C"));
    assert_eq!(detect_language("Makefile").map(|l| l.name), None);
    assert_eq!(detect_language("notes.txt").map(|l| l.name), None);
}

#[test]
fn detect_language_is_case_sensitive() {
    assert_eq!(detect_language("MAIN.RS").map(|l| l.name), None);
}

#[test]
fn get_extension_lowercases() {
    assert_eq!(get_extension("MAIN.RS"), Some("rs".to_string()));
    assert_eq!(get_extension("a/b.Tar.GZ"), Some("gz".to_string()));
    assert_eq!(get_extension("README"), None);
    assert_eq!(get_extension(".bashrc"), None);
}

#[test]
fn language_table_has_all_languages() {
    let names: Vec<&str> = languages().iter().map(|l| l.name).collect();
    assert_eq!(names.len(), 33);
    assert_eq!(names[0], "Rust");
    assert_eq!(names[32], "Zig");
    let py = lang("Python");
    assert_eq!(py.extensions, ["py", "pyi"].as_slice());
    assert_eq!(py.block_comment_start, Some("\"\"\""));
}

#[test]
fn language_for_extension_is_exact() {
    assert_eq!(language_for_extension("rs").unwrap().name, "Rust");
    assert_eq!(language_for_extension("h").unwrap().name, "C");
    assert!(language_for_extension("RS").is_none());
    assert!(language_for_extension("").is_none());
    assert!(language_for_extension("xyz").is_none());
}

#[test]
fn counting_concatenated_texts_adds_counts() {
    let a = "// head\nfn a() {}\n\n";
    let b = "/* x\n y */\nlet z = 1;\n";
    let (ca, ma, ba) = counts(a, Some("Rust"));
    let (cb, mb, bb) = counts(b, Some("Rust"));
    let joined = format!("{a}{b}");
    assert_eq!(counts(&joined, Some("Rust")), (ca + cb, ma + mb, ba + bb));
    assert_eq!(counts(&joined, None), (5, 0, 1));
}

#[test]
fn detected_language_lists_reported_extension() {
    for path in ["src/main.rs", "a/b.tsx", "x.JSON", "lib.hpp", "run.sh"] {
        if let Some(l) = detect_language(path) {
            let e = get_extension(path).unwrap();
            assert!(l.extensions.contains(&e.as_str()));
        }
    }
    assert!(detect_language("x.JSON").is_none());
    assert_eq!(get_extension("x.JSON").unwrap(), "json");
}
