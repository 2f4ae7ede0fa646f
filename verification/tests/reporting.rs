use line_counter::cli::{
    detection_enabled, normalize_extension, scan_config, strip_leading_dots, Cli, Commands,
};
use line_counter::counter::{FileResult, LineCounts};
use line_counter::detect::ProjectProfile;
use line_counter::history::{
    history_change, history_for_root, history_totals_fit, record_entry, HistoryEntry, Timestamp,
    HISTORY_LIMIT,
};
use line_counter::output::{
    can_truncate, decimal, file_csv_records, files_by_size, language_csv_records, header_padding, language_bar_width, language_flag, output_format,
    overview_bar_width, per_file_path_width, top_files_path_width, truncate_path, OutputFormat,
};
use line_counter::scanner::{LanguageSummary, ScanSummary};

fn result(path: &str, code: usize) -> FileResult {
    FileResult {
        path: path.to_string(),
        language: "Rust".to_string(),
        extension: "rs".to_string(),
        counts: LineCounts { code, comments: 0, blank: 0 },
    }
}

#[test]
fn output_format_names() {
    assert_eq!(output_format("json"), OutputFormat::Json);
    assert_eq!(output_format("csv"), OutputFormat::Csv);
    assert_eq!(output_format("table"), OutputFormat::Table);
    assert_eq!(output_format("JSON"), OutputFormat::Table);
    assert_eq!(output_format(""), OutputFormat::Table);
}

#[test]
fn files_by_size_is_stable_descending() {
    let rs = vec![result("a", 5), result("b", 9), result("c", 5), result("d", 1), result("e", 9)];
    assert_eq!(files_by_size(&rs), vec![1, 4, 0, 2, 3]);
    assert_eq!(files_by_size(&vec![]), Vec::<usize>::new());
}

#[test]
fn truncate_path_short_unchanged() {
    assert_eq!(truncate_path("src/main.rs", 20), "src/main.rs");
    assert_eq!(truncate_path("abc", 3), "abc");
}

#[test]
fn truncate_path_long_keeps_tail() {
    assert_eq!(truncate_path("very/long/path/file.rs", 10), "...file.rs");
    assert_eq!(truncate_path("very/long/path/file.rs", 10).len(), 10);
    assert_eq!(truncate_path("abcdef", 3), "...");
}

#[test]
fn truncate_path_multibyte_tail() {
    // "\u{e9}" takes two bytes; the last 5 bytes are "\u{e9}.rs".
    let p = "dossier/caf\u{e9}.rs";
    let t = truncate_path(p, 8);
    assert_eq!(t, "...\u{e9}.rs");
    assert_eq!(t.len(), 8);
}

#[test]
fn language_flags() {
    assert_eq!(language_flag("Rust"), "\u{1f980} ");
    assert_eq!(language_flag("C"), "\u{2699}\u{fe0f} ");
    assert_eq!(language_flag("C++"), "\u{2699}\u{fe0f} ");
    assert_eq!(language_flag("Zig"), "\u{26a1} ");
    assert_eq!(language_flag("Other"), "\u{1f4c1} ");
    assert_eq!(language_flag("rust"), "\u{1f4c1} ");
}

fn summary(code: usize, comments: usize, blank: usize) -> ScanSummary {
    ScanSummary {
        total_files: 1,
        total_counts: LineCounts { code, comments, blank },
        by_language: vec![],
    }
}

fn entry(root: &str, secs: i64, code: usize, total_extra: usize) -> HistoryEntry {
    HistoryEntry {
        timestamp: Timestamp { secs, nanos: 0 },
        root: root.to_string(),
        summary: summary(code, total_extra, 0),
    }
}

#[test]
fn record_entry_appends() {
    let mut h = vec![entry("/a", 1, 1, 0)];
    record_entry(&mut h, entry("/b", 2, 2, 0));
    assert_eq!(h.len(), 2);
    assert_eq!(h[1].root, "/b");
}

#[test]
fn record_entry_keeps_last_hundred() {
    let mut h: Vec<HistoryEntry> = (0..HISTORY_LIMIT as i64).map(|i| entry("/a", i, 0, 0)).collect();
    record_entry(&mut h, entry("/a", 1000, 0, 0));
    assert_eq!(h.len(), HISTORY_LIMIT);
    assert_eq!(h[0].timestamp.secs, 1);
    assert_eq!(h[HISTORY_LIMIT - 1].timestamp.secs, 1000);
}

#[test]
fn history_filters_by_root() {
    let h = vec![entry("/a", 1, 1, 0), entry("/b", 2, 2, 0), entry("/a", 3, 3, 0)];
    assert_eq!(history_for_root(&h, "/a"), vec![0, 2]);
    assert_eq!(history_for_root(&h, "/c"), Vec::<usize>::new());
}

#[test]
fn history_change_between_last_two() {
    let h = vec![
        entry("/a", 1, 100, 50),
        entry("/b", 2, 7, 0),
        entry("/a", 3, 120, 10),
        entry("/a", 4, 90, 20),
    ];
    let c = history_change(&h, "/a").unwrap();
    assert_eq!(c.total, 110 - 130);
    assert_eq!(c.code, 90 - 120);
    assert!(history_change(&h, "/b").is_none());
    assert!(history_change(&h, "/z").is_none());
}

fn cli(includes: &[&str], excludes: &[&str], no_detect: bool, all: bool) -> Cli {
    Cli {
        path: ".".to_string(),
        include_exts: includes.iter().map(|s| s.to_string()).collect(),
        exclude: excludes.iter().map(|s| s.to_string()).collect(),
        no_detect,
        all,
        summary_only: false,
        per_file: false,
        format: "table".to_string(),
        top: None,
        export_json: None,
        export_csv: None,
        progress: false,
        tui: false,
        save: false,
        command: None,
    }
}

#[test]
fn detection_switch() {
    assert!(detection_enabled(&cli(&[], &[], false, false)));
    assert!(!detection_enabled(&cli(&[], &[], true, false)));
    assert!(!detection_enabled(&cli(&["rs"], &[], false, false)));
    assert!(!detection_enabled(&cli(&[], &[], false, true)));
}

#[test]
fn extensions_normalized() {
    assert_eq!(normalize_extension(".RS"), "rs");
    assert_eq!(normalize_extension("..Js"), "js");
    assert_eq!(normalize_extension("toml"), "toml");
    assert_eq!(normalize_extension("..."), "");
}

#[test]
fn scan_config_without_profile() {
    let c = scan_config(&cli(&[".RS", "toml"], &["tests"], false, false), "/root".to_string(), None);
    assert_eq!(c.root, "/root");
    assert_eq!(c.include_exts, vec!["rs".to_string(), "toml".to_string()]);
    assert_eq!(
        c.exclude_patterns,
        [".git", "node_modules", ".next", "target", "dist", "build", "__pycache__", ".venv", "vendor", "tests"]
            .iter()
            .map(|s| s.to_string())
            .collect::<Vec<_>>()
    );
    assert!(!c.count_all);
}

#[test]
fn scan_config_with_profile() {
    let p = ProjectProfile {
        name: "Rust",
        extensions: vec!["rs".to_string(), "toml".to_string()],
        excludes: vec!["target".to_string()],
    };
    let c = scan_config(&cli(&[], &["fixtures"], false, false), "/r".to_string(), Some(&p));
    assert_eq!(c.include_exts, vec!["rs".to_string(), "toml".to_string()]);
    assert_eq!(
        c.exclude_patterns,
        vec![".git".to_string(), "target".to_string(), "fixtures".to_string()]
    );
    let all = scan_config(&cli(&[], &[], false, true), "/r".to_string(), None);
    assert!(all.count_all);
    assert!(all.include_exts.is_empty());
}

#[test]
fn history_command_holds_path() {
    let mut c = cli(&[], &[], false, false);
    c.command = Some(Commands::History { path: "/x".to_string() });
    match c.command {
        Some(Commands::History { path }) => assert_eq!(path, "/x"),
        None => panic!("no command"),
    }
}

#[test]
fn header_padding_centres_title() {
    assert_eq!(header_padding(80, 14), (31, 31));
    assert_eq!(header_padding(81, 14), (31, 32));
    assert_eq!(header_padding(10, 20), (0, 0));
    assert_eq!(header_padding(2, 0), (0, 0));
}

#[test]
fn column_widths() {
    assert_eq!(top_files_path_width(80), 37);
    assert_eq!(top_files_path_width(50), 20);
    assert_eq!(per_file_path_width(120), 60);
    assert_eq!(per_file_path_width(60), 16);
    assert_eq!(language_bar_width(100), 32);
    assert_eq!(language_bar_width(40), 6);
    assert_eq!(overview_bar_width(80), 50);
    assert_eq!(overview_bar_width(20), 10);
}

#[test]
fn truncation_checks() {
    assert!(can_truncate("short", 10));
    assert!(can_truncate("abcdef", 3));
    assert!(!can_truncate("abcdef", 2));
    assert!(!can_truncate("caf\u{e9}s", 5));
    assert!(can_truncate("caf\u{e9}s", 4));
}

#[test]
fn history_totals_checked() {
    let ok = vec![entry("/a", 1, 10, 0)];
    assert!(history_totals_fit(&ok, "/a"));
    let big = vec![entry("/a", 1, usize::MAX, 1), entry("/b", 1, 1, 0)];
    assert!(!history_totals_fit(&big, "/a"));
    assert!(history_totals_fit(&big, "/b"));
}

#[test]
fn strip_leading_dots_keeps_the_rest() {
    assert_eq!(strip_leading_dots("..Rs"), "Rs");
    assert_eq!(strip_leading_dots("a.b"), "a.b");
    assert_eq!(strip_leading_dots("..."), "");
    assert_eq!(strip_leading_dots(""), "");
}

#[test]
fn decimal_writes_digits() {
    assert_eq!(decimal(0), "0");
    assert_eq!(decimal(7), "7");
    assert_eq!(decimal(10), "10");
    assert_eq!(decimal(1204), "1204");
    assert_eq!(decimal(u128::MAX), u128::MAX.to_string());
}

#[test]
fn language_csv_has_header_and_rows() {
    let summary = ScanSummary {
        total_files: 3,
        total_counts: LineCounts { code: 12, comments: 3, blank: 2 },
        by_language: vec![
            LanguageSummary {
                language: "Rust".to_string(),
                files: 2,
                counts: LineCounts { code: 10, comments: 3, blank: 1 },
            },
            LanguageSummary {
                language: "TOML".to_string(),
                files: 1,
                counts: LineCounts { code: 2, comments: 0, blank: 1 },
            },
        ],
    };
    let records = language_csv_records(&summary);
    assert_eq!(records.len(), 3);
    assert_eq!(records[0], vec!["Language", "Files", "Total", "Code", "Comment", "Blank"]);
    assert_eq!(records[1], vec!["Rust", "2", "14", "10", "3", "1"]);
    assert_eq!(records[2], vec!["TOML", "1", "3", "2", "0", "1"]);
}

#[test]
fn language_csv_of_empty_summary_is_header_only() {
    let summary = ScanSummary {
        total_files: 0,
        total_counts: LineCounts { code: 0, comments: 0, blank: 0 },
        by_language: vec![],
    };
    assert_eq!(language_csv_records(&summary).len(), 1);
}

#[test]
fn file_csv_keeps_given_order() {
    let rs = vec![result("b.rs", 1), result("a.rs", 30)];
    let records = file_csv_records(&rs);
    assert_eq!(
        records[0],
        vec!["File", "Language", "Extension", "Total", "Code", "Comment", "Blank"]
    );
    assert_eq!(records[1], vec!["b.rs", "Rust", "rs", "1", "1", "0", "0"]);
    assert_eq!(records[2], vec!["a.rs", "Rust", "rs", "30", "30", "0", "0"]);
}

#[test]
fn history_change_wraps_like_a_cast() {
    let huge = i64::MAX as usize + 10;
    let h = vec![entry("/a", 1, huge, 0), entry("/a", 2, huge, 3)];
    assert!(history_totals_fit(&h, "/a"));
    let c = history_change(&h, "/a").unwrap();
    assert_eq!(c.total, 3);
    assert_eq!(c.code, 0);
    let far = vec![entry("/a", 1, 10, 0), entry("/a", 2, huge, 0)];
    assert!(!history_totals_fit(&far, "/a"));
}
