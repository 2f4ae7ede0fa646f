use line_counter::counter::{FileResult, LineCounts};
use line_counter::scanner::{LanguageSummary, ScanSummary};
use line_counter::tui::{action_for, help_text, tab_index, Action, App, KeyInput, Tab};

fn file(path: &str, lang: &str, ext: &str) -> FileResult {
    FileResult {
        path: path.to_string(),
        language: lang.to_string(),
        extension: ext.to_string(),
        counts: LineCounts { code: 1, comments: 0, blank: 0 },
    }
}

fn row(lang: &str, files: usize) -> LanguageSummary {
    LanguageSummary {
        language: lang.to_string(),
        files,
        counts: LineCounts { code: files, comments: 0, blank: 0 },
    }
}

fn app() -> App {
    let files = vec![
        file("src/main.rs", "Rust", "rs"),
        file("setup.py", "Python", "py"),
        file("src/lib.rs", "Rust", "rs"),
    ];
    let summary = ScanSummary {
        total_files: 3,
        total_counts: LineCounts { code: 3, comments: 0, blank: 0 },
        by_language: vec![row("Rust", 2), row("Python", 1)],
    };
    App::new(summary, files)
}

#[test]
fn new_app_starts_on_summary() {
    let a = app();
    assert_eq!(a.current_tab, Tab::Summary);
    assert_eq!(a.lang_selected, Some(0));
    assert_eq!(a.file_selected, Some(0));
    assert_eq!(a.filtered_files, vec![0, 1, 2]);
    assert!(!a.should_quit);
}

#[test]
fn empty_app_selects_nothing() {
    let a = App::new(
        ScanSummary { total_files: 0, total_counts: LineCounts { code: 0, comments: 0, blank: 0 }, by_language: vec![] },
        vec![],
    );
    assert_eq!(a.lang_selected, None);
    assert_eq!(a.file_selected, None);
}

#[test]
fn tabs_cycle() {
    let mut a = app();
    a.next_tab();
    assert_eq!(a.current_tab, Tab::ByLanguage);
    a.next_tab();
    assert_eq!(a.current_tab, Tab::Files);
    a.next_tab();
    assert_eq!(a.current_tab, Tab::Summary);
    a.prev_tab();
    assert_eq!(a.current_tab, Tab::Files);
}

#[test]
fn key_bindings() {
    assert_eq!(action_for(KeyInput::Char('q'), true), Action::Quit);
    assert_eq!(action_for(KeyInput::Esc, true), Action::Quit);
    assert_eq!(action_for(KeyInput::Right, true), Action::NextTab);
    assert_eq!(action_for(KeyInput::BackTab, true), Action::PrevTab);
    assert_eq!(action_for(KeyInput::Char('k'), true), Action::Up);
    assert_eq!(action_for(KeyInput::Char('j'), true), Action::Down);
    assert_eq!(action_for(KeyInput::Enter, true), Action::Select);
    assert_eq!(action_for(KeyInput::Char('c'), true), Action::ClearFilter);
    assert_eq!(action_for(KeyInput::Char('x'), true), Action::Nothing);
    assert_eq!(action_for(KeyInput::Char('q'), false), Action::Nothing);
}

#[test]
fn scrolling_stays_in_bounds() {
    let mut a = app();
    a.handle_key(KeyInput::Tab, true);
    a.handle_key(KeyInput::Up, true);
    assert_eq!(a.lang_selected, Some(0));
    a.handle_key(KeyInput::Down, true);
    assert_eq!(a.lang_selected, Some(1));
    a.handle_key(KeyInput::Down, true);
    assert_eq!(a.lang_selected, Some(1));
}

#[test]
fn enter_filters_by_language() {
    let mut a = app();
    a.handle_key(KeyInput::Tab, true);
    a.handle_key(KeyInput::Down, true);
    a.handle_key(KeyInput::Enter, true);
    assert_eq!(a.current_tab, Tab::Files);
    assert_eq!(a.file_filter.as_deref(), Some("Python"));
    assert_eq!(a.filtered_files, vec![1]);
    assert_eq!(a.file_selected, Some(0));
    a.handle_key(KeyInput::Char('c'), true);
    assert_eq!(a.file_filter, None);
    assert_eq!(a.filtered_files, vec![0, 1, 2]);
}

#[test]
fn enter_outside_language_tab_does_nothing() {
    let mut a = app();
    a.handle_key(KeyInput::Enter, true);
    assert_eq!(a.current_tab, Tab::Summary);
    assert_eq!(a.file_filter, None);
}

#[test]
fn filter_keeps_exactly_that_language() {
    let mut a = app();
    a.file_filter = Some("Rust".to_string());
    a.apply_filter();
    assert_eq!(a.filtered_files, vec![0, 2]);
    a.file_filter = Some("rust".to_string());
    a.apply_filter();
    assert!(a.filtered_files.is_empty());
    a.file_filter = Some("src".to_string());
    a.apply_filter();
    assert!(a.filtered_files.is_empty());
    a.file_filter = Some("zzz".to_string());
    a.apply_filter();
    assert!(a.filtered_files.is_empty());
    assert_eq!(a.file_selected, None);
}

#[test]
fn quit_keys() {
    let mut a = app();
    a.handle_key(KeyInput::Char('q'), false);
    assert!(!a.should_quit);
    a.handle_key(KeyInput::Char('q'), true);
    assert!(a.should_quit);
}

#[test]
fn tab_positions_and_help() {
    assert_eq!(tab_index(Tab::Summary), 0);
    assert_eq!(tab_index(Tab::ByLanguage), 1);
    assert_eq!(tab_index(Tab::Files), 2);
    assert_eq!(help_text(Tab::Summary), "Tab/\u{2192}: Next tab  |  q: Quit");
    assert!(help_text(Tab::Files).contains("c: Clear filter"));
    assert!(help_text(Tab::ByLanguage).contains("Enter: Filter files"));
}

#[test]
fn enter_ignores_paths_named_like_the_language() {
    let files = vec![file("Python", "Other", ""), file("b.py", "Python", "py")];
    let summary = ScanSummary {
        total_files: 2,
        total_counts: LineCounts { code: 2, comments: 0, blank: 0 },
        by_language: vec![row("Python", 1), row("Other", 1)],
    };
    let mut a = App::new(summary, files);
    a.handle_key(KeyInput::Tab, true);
    a.handle_key(KeyInput::Enter, true);
    assert_eq!(a.file_filter.as_deref(), Some("Python"));
    assert_eq!(a.filtered_files, vec![1]);
}
