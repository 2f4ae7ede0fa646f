//! The state of the interactive view and how keys change it. Drawing the
//! state and reading keys happen outside the library.
use crate::counter::FileResult;
use crate::outside::opt_string_view;
use crate::scanner::ScanSummary;
use crate::text::{chars_equal, chars_of};
use vstd::prelude::*;

verus! {

/// The tabs of the view.
#[derive(Debug, Clone, Copy, PartialEq, Eq, Structural)]
pub enum Tab {
    Summary,
    ByLanguage,
    Files,
}

/// The tab after `t`, wrapping around.
pub open spec fn next_tab_of(t: Tab) -> Tab {
    match t {
        Tab::Summary => Tab::ByLanguage,
        Tab::ByLanguage => Tab::Files,
        Tab::Files => Tab::Summary,
    }
}

/// The tab before `t`, wrapping around.
pub open spec fn prev_tab_of(t: Tab) -> Tab {
    match t {
        Tab::Summary => Tab::Files,
        Tab::ByLanguage => Tab::Summary,
        Tab::Files => Tab::ByLanguage,
    }
}

/// Going to the next tab and back, or back and to the next, returns to the
/// same tab; going to the next tab three times returns to the start.
pub proof fn lemma_tab_cycle(t: Tab)
    ensures
        prev_tab_of(next_tab_of(t)) == t,
        next_tab_of(prev_tab_of(t)) == t,
        next_tab_of(next_tab_of(next_tab_of(t))) == t,
{
}

/// Where a tab stands in the tab bar.
pub open spec fn tab_position(t: Tab) -> usize {
    match t {
        Tab::Summary => 0,
        Tab::ByLanguage => 1,
        Tab::Files => 2,
    }
}

/// Where a tab stands in the tab bar.
pub fn tab_index(t: Tab) -> (r: usize)
    ensures
        r == tab_position(t),
{
    match t {
        Tab::Summary => 0,
        Tab::ByLanguage => 1,
        Tab::Files => 2,
    }
}

/// The help line of a tab: the keys that work there.
pub open spec fn help_of(t: Tab) -> Seq<char> {
    match t {
        Tab::Summary => "Tab/\u{2192}: Next tab  |  q: Quit"@,
        Tab::ByLanguage => "\u{2191}\u{2193}/jk: Navigate  |  Enter: Filter files  |  Tab/\u{2192}: Next tab  |  q: Quit"@,
        Tab::Files => "\u{2191}\u{2193}/jk: Navigate  |  c: Clear filter  |  Tab/\u{2192}: Next tab  |  q: Quit"@,
    }
}

/// The help line of a tab.
pub fn help_text(t: Tab) -> (r: &'static str)
    ensures
        r@ == help_of(t),
{
    match t {
        Tab::Summary => "Tab/\u{2192}: Next tab  |  q: Quit",
        Tab::ByLanguage => "\u{2191}\u{2193}/jk: Navigate  |  Enter: Filter files  |  Tab/\u{2192}: Next tab  |  q: Quit",
        Tab::Files => "\u{2191}\u{2193}/jk: Navigate  |  c: Clear filter  |  Tab/\u{2192}: Next tab  |  q: Quit",
    }
}

/// A key as the view sees it.
#[derive(Debug, Clone, Copy, PartialEq, Eq, Structural)]
pub enum KeyInput {
    Char(char),
    Esc,
    Tab,
    BackTab,
    Left,
    Right,
    Up,
    Down,
    Enter,
    Other,
}

/// What a key asks of the view.
#[derive(Debug, Clone, Copy, PartialEq, Eq, Structural)]
pub enum Action {
    Quit,
    NextTab,
    PrevTab,
    Up,
    Down,
    Select,
    ClearFilter,
    Nothing,
}

/// The key bindings: `q` and Esc quit; Tab and Right go to the next tab,
/// Shift+Tab and Left to the previous one; Up and `k`, Down and `j` move the
/// selection; Enter filters the files by the selected language; `c` clears
/// the filter. Other keys, and keys that are not presses, do nothing.
pub open spec fn action_of(key: KeyInput, is_press: bool) -> Action {
    if !is_press {
        Action::Nothing
    } else {
        match key {
            KeyInput::Char(c) => if c == 'q' {
                Action::Quit
            } else if c == 'k' {
                Action::Up
            } else if c == 'j' {
                Action::Down
            } else if c == 'c' {
                Action::ClearFilter
            } else {
                Action::Nothing
            },
            KeyInput::Esc => Action::Quit,
            KeyInput::Tab => Action::NextTab,
            KeyInput::Right => Action::NextTab,
            KeyInput::BackTab => Action::PrevTab,
            KeyInput::Left => Action::PrevTab,
            KeyInput::Up => Action::Up,
            KeyInput::Down => Action::Down,
            KeyInput::Enter => Action::Select,
            KeyInput::Other => Action::Nothing,
        }
    }
}

/// What a key asks of the view.
pub fn action_for(key: KeyInput, is_press: bool) -> (r: Action)
    ensures
        r == action_of(key, is_press),
{
    if !is_press {
        return Action::Nothing;
    }
    match key {
        KeyInput::Char(c) => if c == 'q' {
            Action::Quit
        } else if c == 'k' {
            Action::Up
        } else if c == 'j' {
            Action::Down
        } else if c == 'c' {
            Action::ClearFilter
        } else {
            Action::Nothing
        },
        KeyInput::Esc => Action::Quit,
        KeyInput::Tab => Action::NextTab,
        KeyInput::Right => Action::NextTab,
        KeyInput::BackTab => Action::PrevTab,
        KeyInput::Left => Action::PrevTab,
        KeyInput::Up => Action::Up,
        KeyInput::Down => Action::Down,
        KeyInput::Enter => Action::Select,
        KeyInput::Other => Action::Nothing,
    }
}

/// A file passes a filter, the name of a language, where it is of that
/// language.
pub open spec fn file_matches(f: FileResult, filter: Seq<char>) -> bool {
    f.language@ == filter
}

/// The positions among the first `n` files that pass the filter (all of
/// them without a filter), in order.
pub open spec fn matching_files(files: Seq<FileResult>, filter: Option<Seq<char>>, n: int) -> Seq<
    usize,
>
    decreases n,
{
    if n <= 0 {
        Seq::empty()
    } else {
        let prev = matching_files(files, filter, n - 1);
        if filter is None || file_matches(files[n - 1], filter->0) {
            prev.push((n - 1) as usize)
        } else {
            prev
        }
    }
}

/// A selection after moving up: one row up, unless at the top.
pub open spec fn moved_up(sel: Option<usize>) -> Option<usize> {
    match sel {
        Some(s) => if s > 0 {
            Some((s - 1) as usize)
        } else {
            Some(s)
        },
        None => None,
    }
}

/// A selection after moving down in a table of `len` rows: one row down,
/// unless at the bottom.
pub open spec fn moved_down(sel: Option<usize>, len: int) -> Option<usize> {
    match sel {
        Some(s) => if s + 1 < len {
            Some((s + 1) as usize)
        } else {
            Some(s)
        },
        None => None,
    }
}

/// The first row of a table of `len` rows, if it has any.
pub open spec fn first_row(len: int) -> Option<usize> {
    if len > 0 {
        Some(0)
    } else {
        None
    }
}

/// The interactive view: the scan, the current tab, the selected rows, the
/// file filter and the files it lets through, and whether to quit.
#[derive(Debug)]
pub struct App {
    pub summary: ScanSummary,
    pub files: Vec<FileResult>,
    pub current_tab: Tab,
    pub lang_selected: Option<usize>,
    pub file_selected: Option<usize>,
    pub file_filter: Option<String>,
    pub filtered_files: Vec<usize>,
    pub should_quit: bool,
}

/// Everything but the tab, the selections, the filter and the quit flag is
/// the same: the scan itself never changes.
pub open spec fn same_scan(before: App, after: App) -> bool {
    after.summary == before.summary && after.files == before.files
}

/// Quitting: the quit flag is set, nothing else changes.
pub open spec fn quit_step(before: App, after: App) -> bool {
    &&& same_scan(before, after)
    &&& after.should_quit
    &&& after.current_tab == before.current_tab
    &&& after.lang_selected == before.lang_selected
    &&& after.file_selected == before.file_selected
    &&& after.file_filter == before.file_filter
    &&& after.filtered_files == before.filtered_files
}

/// Changing to tab `tab`, nothing else.
pub open spec fn tab_step(before: App, after: App, tab: Tab) -> bool {
    &&& same_scan(before, after)
    &&& after.current_tab == tab
    &&& after.should_quit == before.should_quit
    &&& after.lang_selected == before.lang_selected
    &&& after.file_selected == before.file_selected
    &&& after.file_filter == before.file_filter
    &&& after.filtered_files == before.filtered_files
}

/// Moving the selection of the current table to `lang` and `file`, nothing
/// else.
pub open spec fn selection_step(
    before: App,
    after: App,
    lang: Option<usize>,
    file: Option<usize>,
) -> bool {
    &&& same_scan(before, after)
    &&& after.current_tab == before.current_tab
    &&& after.should_quit == before.should_quit
    &&& after.lang_selected == lang
    &&& after.file_selected == file
    &&& after.file_filter == before.file_filter
    &&& after.filtered_files == before.filtered_files
}

/// Moving up in the current table (the language table or the file table).
pub open spec fn scroll_up_step(before: App, after: App) -> bool {
    selection_step(
        before,
        after,
        if before.current_tab == Tab::ByLanguage {
            moved_up(before.lang_selected)
        } else {
            before.lang_selected
        },
        if before.current_tab == Tab::Files {
            moved_up(before.file_selected)
        } else {
            before.file_selected
        },
    )
}

/// Moving down in the current table (the language table or the file table).
pub open spec fn scroll_down_step(before: App, after: App) -> bool {
    selection_step(
        before,
        after,
        if before.current_tab == Tab::ByLanguage {
            moved_down(before.lang_selected, before.summary.by_language@.len() as int)
        } else {
            before.lang_selected
        },
        if before.current_tab == Tab::Files {
            moved_down(before.file_selected, before.filtered_files@.len() as int)
        } else {
            before.file_selected
        },
    )
}

/// Setting the filter to `filter` and showing what passes it, first file
/// selected, on tab `tab`.
pub open spec fn filter_step(before: App, after: App, filter: Option<Seq<char>>, tab: Tab) -> bool {
    &&& same_scan(before, after)
    &&& after.should_quit == before.should_quit
    &&& after.lang_selected == before.lang_selected
    &&& opt_string_view(after.file_filter) == filter
    &&& after.filtered_files@ == matching_files(after.files@, filter, after.files@.len() as int)
    &&& after.file_selected == first_row(after.filtered_files@.len() as int)
    &&& after.current_tab == tab
}

/// Enter: on the language tab with a language selected, filter the files by
/// that language and show them; otherwise nothing.
pub open spec fn select_step(before: App, after: App) -> bool {
    if before.current_tab == Tab::ByLanguage && before.lang_selected is Some {
        filter_step(
            before,
            after,
            Some(before.summary.by_language@[before.lang_selected->0 as int].language@),
            Tab::Files,
        )
    } else {
        after == before
    }
}

/// What carrying out `action` does to the view.
pub open spec fn action_step(before: App, after: App, action: Action) -> bool {
    match action {
        Action::Quit => quit_step(before, after),
        Action::NextTab => tab_step(before, after, next_tab_of(before.current_tab)),
        Action::PrevTab => tab_step(before, after, prev_tab_of(before.current_tab)),
        Action::Up => scroll_up_step(before, after),
        Action::Down => scroll_down_step(before, after),
        Action::Select => select_step(before, after),
        Action::ClearFilter => filter_step(before, after, None, before.current_tab),
        Action::Nothing => after == before,
    }
}

/// Left and Shift+Tab, pressed, move to the tab before the current one in
/// the tab bar (from the first to the last), and change nothing else.
pub proof fn lemma_back_keys_go_to_previous_tab(before: App, after: App, key: KeyInput)
    requires
        key == KeyInput::Left || key == KeyInput::BackTab,
        action_step(before, after, action_of(key, true)),
    ensures
        tab_position(after.current_tab) == (tab_position(before.current_tab) + 2) % 3,
        after.lang_selected == before.lang_selected,
        after.file_selected == before.file_selected,
        after.file_filter == before.file_filter,
        after.should_quit == before.should_quit,
{
}

/// Right and Tab, pressed, move to the tab after the current one in the tab
/// bar (from the last to the first), and change nothing else.
pub proof fn lemma_forward_keys_go_to_next_tab(before: App, after: App, key: KeyInput)
    requires
        key == KeyInput::Right || key == KeyInput::Tab,
        action_step(before, after, action_of(key, true)),
    ensures
        tab_position(after.current_tab) == (tab_position(before.current_tab) + 1) % 3,
        after.lang_selected == before.lang_selected,
        after.file_selected == before.file_selected,
        after.file_filter == before.file_filter,
        after.should_quit == before.should_quit,
{
}

/// Pressing Left and then Right, or Right and then Left, comes back to the
/// tab where the view started.
pub proof fn lemma_left_right_return(a: App, b: App, c: App, first: KeyInput, second: KeyInput)
    requires
        (first == KeyInput::Left && second == KeyInput::Right) || (first == KeyInput::Right
            && second == KeyInput::Left),
        action_step(a, b, action_of(first, true)),
        action_step(b, c, action_of(second, true)),
    ensures
        c.current_tab == a.current_tab,
{
}

/// `q` and Esc, pressed, quit and change nothing else.
pub proof fn lemma_quit_keys(before: App, after: App, key: KeyInput)
    requires
        key == KeyInput::Esc || key == KeyInput::Char('q'),
        action_step(before, after, action_of(key, true)),
    ensures
        after.should_quit,
        after.current_tab == before.current_tab,
        after.file_filter == before.file_filter,
{
}

/// A key that is released, not pressed, changes nothing.
pub proof fn lemma_releases_do_nothing(before: App, after: App, key: KeyInput)
    requires
        action_step(before, after, action_of(key, false)),
    ensures
        after == before,
{
}

impl App {
    /// Selections point at rows that exist; the filtered files are files.
    pub open spec fn well_formed(&self) -> bool {
        &&& (self.lang_selected matches Some(s) ==> s < self.summary.by_language@.len())
        &&& (self.file_selected matches Some(s) ==> s < self.filtered_files@.len())
        &&& forall|k: int|
            0 <= k < self.filtered_files@.len() ==> #[trigger] self.filtered_files@[k]
                < self.files@.len()
    }

    /// A view of the scan, on the summary tab, without a filter, with the
    /// first row of each table selected.
    pub fn new(summary: ScanSummary, files: Vec<FileResult>) -> (r: App)
        ensures
            r.well_formed(),
            r.summary == summary,
            r.files == files,
            r.current_tab == Tab::Summary,
            r.lang_selected == first_row(summary.by_language@.len() as int),
            r.file_selected == first_row(files@.len() as int),
            r.file_filter is None,
            r.filtered_files@ == matching_files(files@, None, files@.len() as int),
            !r.should_quit,
    {
        let n = files.len();
        let mut all: Vec<usize> = Vec::new();
        let mut i: usize = 0;
        while i < n
            invariant
                i <= n,
                n == files@.len(),
                all@ == matching_files(files@, None, i as int),
                forall|k: int| 0 <= k < all@.len() ==> #[trigger] all@[k] < i,
            decreases n - i,
        {
            all.push(i);
            i = i + 1;
        }
        let lang_selected = if summary.by_language.len() > 0 {
            Some(0)
        } else {
            None
        };
        let file_selected = if n > 0 {
            Some(0)
        } else {
            None
        };
        proof {
            lemma_matching_len(files@, None, n as int);
        }
        App {
            summary,
            files,
            current_tab: Tab::Summary,
            lang_selected,
            file_selected,
            file_filter: None,
            filtered_files: all,
            should_quit: false,
        }
    }

    /// Recomputes the files that the filter lets through, and selects the
    /// first of them.
    pub fn apply_filter(&mut self)
        requires
            old(self).well_formed(),
        ensures
            final(self).well_formed(),
            filter_step(
                *old(self),
                *final(self),
                opt_string_view(old(self).file_filter),
                old(self).current_tab,
            ),
    {
        let n = self.files.len();
        let ghost filter = opt_string_view(self.file_filter);
        let needle: Option<Vec<char>> = match &self.file_filter {
            Some(f) => Some(chars_of(f.as_str())),
            None => None,
        };
        let mut kept: Vec<usize> = Vec::new();
        let mut i: usize = 0;
        while i < n
            invariant
                i <= n,
                n == self.files@.len(),
                filter == opt_string_view(self.file_filter),
                match needle {
                    Some(v) => filter is Some && v@ == filter->0,
                    None => filter is None,
                },
                kept@ == matching_files(self.files@, filter, i as int),
                forall|k: int| 0 <= k < kept@.len() ==> #[trigger] kept@[k] < i,
            decreases n - i,
        {
            let pass = match &needle {
                Some(v) => {
                    let lang = chars_of(self.files[i].language.as_str());
                    chars_equal(&lang, v)
                },
                None => true,
            };
            if pass {
                kept.push(i);
            }
            i = i + 1;
        }
        proof {
            lemma_matching_len(self.files@, filter, n as int);
        }
        self.file_selected = if kept.len() > 0 {
            Some(0)
        } else {
            None
        };
        self.filtered_files = kept;
    }

    /// Goes to the next tab.
    pub fn next_tab(&mut self)
        ensures
            tab_step(*old(self), *final(self), next_tab_of(old(self).current_tab)),
    {
        self.current_tab = match self.current_tab {
            Tab::Summary => Tab::ByLanguage,
            Tab::ByLanguage => Tab::Files,
            Tab::Files => Tab::Summary,
        };
    }

    /// Goes to the previous tab.
    pub fn prev_tab(&mut self)
        ensures
            tab_step(*old(self), *final(self), prev_tab_of(old(self).current_tab)),
    {
        self.current_tab = match self.current_tab {
            Tab::Summary => Tab::Files,
            Tab::ByLanguage => Tab::Summary,
            Tab::Files => Tab::ByLanguage,
        };
    }

    /// Moves the selection of the current table one row up.
    pub fn scroll_up(&mut self)
        requires
            old(self).well_formed(),
        ensures
            final(self).well_formed(),
            scroll_up_step(*old(self), *final(self)),
    {
        match self.current_tab {
            Tab::ByLanguage => {
                if let Some(sel) = self.lang_selected {
                    if sel > 0 {
                        self.lang_selected = Some(sel - 1);
                    }
                }
            },
            Tab::Files => {
                if let Some(sel) = self.file_selected {
                    if sel > 0 {
                        self.file_selected = Some(sel - 1);
                    }
                }
            },
            _ => {},
        }
    }

    /// Moves the selection of the current table one row down.
    pub fn scroll_down(&mut self)
        requires
            old(self).well_formed(),
        ensures
            final(self).well_formed(),
            scroll_down_step(*old(self), *final(self)),
    {
        match self.current_tab {
            Tab::ByLanguage => {
                if let Some(sel) = self.lang_selected {
                    let len = self.summary.by_language.len();
                    assert(sel < len);
                    if sel + 1 < len {
                        self.lang_selected = Some(sel + 1);
                    }
                }
            },
            Tab::Files => {
                if let Some(sel) = self.file_selected {
                    let len = self.filtered_files.len();
                    assert(sel < len);
                    if sel + 1 < len {
                        self.file_selected = Some(sel + 1);
                    }
                }
            },
            _ => {},
        }
    }

    /// On the language tab, filters the files by the selected language and
    /// shows them; elsewhere, or without a selection, does nothing.
    pub fn filter_by_selected_language(&mut self)
        requires
            old(self).well_formed(),
        ensures
            final(self).well_formed(),
            select_step(*old(self), *final(self)),
    {
        if self.current_tab != Tab::ByLanguage {
            return;
        }
        if let Some(sel) = self.lang_selected {
            let lang = self.summary.by_language[sel].language.clone();
            self.file_filter = Some(lang);
            self.apply_filter();
            self.current_tab = Tab::Files;
        }
    }

    /// Removes the file filter: all files show again.
    pub fn clear_filter(&mut self)
        requires
            old(self).well_formed(),
        ensures
            final(self).well_formed(),
            filter_step(*old(self), *final(self), None, old(self).current_tab),
    {
        self.file_filter = None;
        self.apply_filter();
    }

    /// Carries out what a key asks.
    pub fn handle_key(&mut self, key: KeyInput, is_press: bool)
        requires
            old(self).well_formed(),
        ensures
            final(self).well_formed(),
            action_step(*old(self), *final(self), action_of(key, is_press)),
    {
        match action_for(key, is_press) {
            Action::Quit => {
                self.should_quit = true;
            },
            Action::NextTab => self.next_tab(),
            Action::PrevTab => self.prev_tab(),
            Action::Up => self.scroll_up(),
            Action::Down => self.scroll_down(),
            Action::Select => self.filter_by_selected_language(),
            Action::ClearFilter => self.clear_filter(),
            Action::Nothing => {},
        }
    }
}

/// Clearing the filter shows every file, in order, and selects the first.
pub proof fn lemma_clear_shows_all(before: App, after: App)
    requires
        filter_step(before, after, None, before.current_tab),
        after.files@.len() <= usize::MAX,
    ensures
        after.filtered_files@.len() == after.files@.len(),
        forall|k: int| 0 <= k < after.filtered_files@.len() ==> after.filtered_files@[k] == k,
        after.file_selected == first_row(after.files@.len() as int),
{
    lemma_matching_len(after.files@, None, after.files@.len() as int);
}

/// The filtered positions are in range and in increasing order.
pub proof fn lemma_matching_len(files: Seq<FileResult>, filter: Option<Seq<char>>, n: int)
    requires
        0 <= n <= usize::MAX,
    ensures
        matching_files(files, filter, n).len() <= n,
        forall|k: int|
            0 <= k < matching_files(files, filter, n).len() ==> #[trigger] matching_files(
                files,
                filter,
                n,
            )[k] < n,
        forall|a: int, b: int|
            0 <= a < b < matching_files(files, filter, n).len() ==> matching_files(
                files,
                filter,
                n,
            )[a] < matching_files(files, filter, n)[b],
        filter is None ==> forall|k: int|
            0 <= k < matching_files(files, filter, n).len() ==> matching_files(files, filter, n)[k]
                == k,
        filter is None ==> matching_files(files, filter, n).len() == n,
    decreases n,
{
    if n > 0 {
        lemma_matching_len(files, filter, n - 1);
    }
}

} // verus!
