use vstd::prelude::*;
use crate::files::any_file::AnyFile;
use crate::files::file_base::FileBase;
use crate::files::runnable_file::RunnableFile;
use crate::filtered_list::{higher_scores, page_len, ranking, scored_files, FilteredList, PAGE_SIZE};
use crate::matcher::SearchMatcher;
use crate::search::search_type::{SearchMode, SearchType};
use crate::text::{pop_char, push_char, split_at_first_space, split_first_space};

verus! {

/// The file that the user picked.
pub enum FileTypes {
    RunnableFile(RunnableFile),
    AnyFile(AnyFile),
}

/// A key that the selection screen reacts to, or passes over.
#[derive(Clone, Copy, Debug, PartialEq, Eq, Structural)]
pub enum KeyInput {
    Char(char),
    Backspace,
    Enter,
    Left,
    Right,
    Up,
    Down,
    Home,
    End,
    PageUp,
    PageDown,
    Tab,
    BackTab,
    Delete,
    Insert,
    F(u8),
    Null,
    Esc,
}

/// An event of the terminal: a key, or anything else (mouse, resize).
#[derive(Clone, Copy, Debug, PartialEq, Eq, Structural)]
pub enum InputEvent {
    Key(KeyInput),
    Other,
}

/// What the selection screen does after an event.
#[derive(Clone, Copy, Debug, PartialEq, Eq, Structural)]
pub enum SelectRet {
    MakeSelection,
    Rerender,
    Norerender,
}

/// Why no file could be picked.
#[derive(Clone, Copy, Debug, PartialEq, Eq, Structural)]
pub enum SelectionError {
    /// The cursor does not stand on a result of the current page.
    NoSearchMatch,
}

/// The element limit of the matcher that the selection screen uses.
pub const ELEMENT_LIMIT: usize = 2000;

/// The state of the selection screen.
pub struct State {
    pub matcher: SearchMatcher,
    /// What the user typed: a command, a space, and the search text.
    pub input_search_str: String,
    /// The row of the current page that is marked; rows count from 1.
    pub cursor: usize,
    pub page: usize,
    pub items_displayed_on_current_page: usize,
    pub need_rerender: bool,
    /// The terminal row on which the input line stands.
    pub start_row: u16,
}

/// The state of the selection screen, with the input by its view.
pub struct StateView {
    pub element_limit: usize,
    pub input: Seq<char>,
    pub cursor: usize,
    pub page: usize,
    pub items_displayed: usize,
    pub need_rerender: bool,
    pub start_row: u16,
}

impl View for State {
    type V = StateView;

    open spec fn view(&self) -> StateView {
        StateView {
            element_limit: self.matcher.element_limit,
            input: self.input_search_str@,
            cursor: self.cursor,
            page: self.page,
            items_displayed: self.items_displayed_on_current_page,
            need_rerender: self.need_rerender,
            start_row: self.start_row,
        }
    }
}

/// The cursor after the key Up: one row up, but not above the first row.
pub open spec fn cursor_up(cursor: usize) -> usize {
    if cursor <= 1 {
        1
    } else {
        (cursor - 1) as usize
    }
}

/// The cursor after the key Down: one row down, but not below the last
/// row counted on the page.
pub open spec fn cursor_down(cursor: usize, list_size: usize) -> usize {
    if cursor < list_size {
        (cursor + 1) as usize
    } else {
        list_size
    }
}

/// The state after `key`.
pub open spec fn after_key(s: StateView, key: KeyInput) -> StateView {
    match key {
        KeyInput::Char(c) => StateView { input: s.input.push(c), ..s },
        KeyInput::Backspace => StateView {
            input: if s.input.len() > 0 {
                s.input.drop_last()
            } else {
                s.input
            },
            ..s
        },
        KeyInput::Up => StateView { cursor: cursor_up(s.cursor), ..s },
        KeyInput::Down => StateView { cursor: cursor_down(s.cursor, s.items_displayed), ..s },
        KeyInput::PageUp => StateView { page: (s.page - 1) as usize, ..s },
        KeyInput::PageDown => StateView { page: (s.page + 1) as usize, ..s },
        _ => s,
    }
}

/// The state after an event; `None` is a wait that ran out.
pub open spec fn after_event(s: StateView, event: Option<InputEvent>) -> StateView {
    match event {
        Some(InputEvent::Key(key)) => after_key(s, key),
        _ => s,
    }
}

/// What the screen does after an event: Enter picks, a wait that ran out
/// changes nothing, any other event redraws.
pub open spec fn select_result(event: Option<InputEvent>) -> SelectRet {
    match event {
        None => SelectRet::Norerender,
        Some(InputEvent::Key(KeyInput::Enter)) => SelectRet::MakeSelection,
        Some(_) => SelectRet::Rerender,
    }
}

/// Every key but Enter makes the screen redraw, so that the input, the
/// cursor's marker and the page on screen follow the key (Up and Down
/// included); Enter picks the marked file; only a wait for an event that ran
/// out leaves the screen as it is.
pub proof fn law_every_key_but_enter_redraws(key: KeyInput)
    ensures
        key != KeyInput::Enter ==> select_result(Some(InputEvent::Key(key))) == SelectRet::Rerender,
        key == KeyInput::Enter ==> select_result(Some(InputEvent::Key(key))) == SelectRet::MakeSelection,
        select_result(Some(InputEvent::Other)) == SelectRet::Rerender,
        select_result(None) == SelectRet::Norerender,
{
}

/// The search text of an input: what follows its first space, or nothing.
pub open spec fn search_part(input: Seq<char>) -> Seq<char> {
    match split_at_first_space(input).1 {
        Some(t) => t,
        None => Seq::empty(),
    }
}

/// The command of an input: what precedes its first space.
pub open spec fn command_part(input: Seq<char>) -> Seq<char> {
    split_at_first_space(input).0
}

impl State {
    /// The state at start: nothing typed, no row marked, first page, and a
    /// first drawing pending.
    pub fn new(start_row: u16) -> (r: Self)
        ensures
            r@.element_limit == ELEMENT_LIMIT,
            r@.input == Seq::<char>::empty(),
            r@.cursor == 0,
            r@.page == 0,
            r@.items_displayed == 0,
            r@.need_rerender,
            r@.start_row == start_row,
    {
        State {
            matcher: SearchMatcher::new(ELEMENT_LIMIT),
            input_search_str: String::new(),
            cursor: 0,
            page: 0,
            items_displayed_on_current_page: 0,
            need_rerender: true,
            start_row: start_row,
        }
    }

    /// The command and the search text of the input.
    pub fn split_input(&self) -> (r: (&str, &str))
        ensures
            r.0@ == command_part(self@.input),
            r.1@ == search_part(self@.input),
    {
        let (command, search) = split_first_space(self.input_search_str.as_str());
        match search {
            Some(t) => (command, t),
            None => {
                let empty = "";
                proof {
                    reveal_strlit("");
                }
                (command, empty)
            },
        }
    }

    /// Notes whether the screen must be drawn again after `r`.
    pub fn after_select(&mut self, r: SelectRet)
        ensures
            final(self)@ == (StateView {
                need_rerender: match r {
                    SelectRet::Rerender => true,
                    SelectRet::Norerender => false,
                    SelectRet::MakeSelection => old(self)@.need_rerender,
                },
                ..old(self)@
            }),
    {
        match r {
            SelectRet::Rerender => self.need_rerender = true,
            SelectRet::Norerender => self.need_rerender = false,
            SelectRet::MakeSelection => {},
        }
    }

    /// Notes how many rows the drawing of the current page counted.
    pub fn set_items_displayed(&mut self, n: usize)
        ensures
            final(self)@ == (StateView { items_displayed: n, ..old(self)@ }),
    {
        self.items_displayed_on_current_page = n;
    }
}

/// Applies an event to the state: typing, deleting, moving the cursor and
/// turning pages.
pub fn select_internal(state: &mut State, event: Option<InputEvent>) -> (r: SelectRet)
    requires
        event == Some(InputEvent::Key(KeyInput::PageUp)) ==> old(state).page > 0,
        event == Some(InputEvent::Key(KeyInput::PageDown)) ==> old(state).page < usize::MAX,
    ensures
        final(state)@ == after_event(old(state)@, event),
        r == select_result(event),
{
    match event {
        None => SelectRet::Norerender,
        Some(InputEvent::Other) => SelectRet::Rerender,
        Some(InputEvent::Key(key)) => {
            match key {
                KeyInput::Char(c) => {
                    push_char(&mut state.input_search_str, c);
                },
                KeyInput::Backspace => {
                    pop_char(&mut state.input_search_str);
                },
                KeyInput::Enter => {
                    return SelectRet::MakeSelection;
                },
                KeyInput::Up => {
                    state.cursor = if state.cursor <= 1 {
                        1
                    } else {
                        state.cursor - 1
                    };
                },
                KeyInput::Down => {
                    let list_size = state.items_displayed_on_current_page;
                    state.cursor = if state.cursor < list_size {
                        state.cursor + 1
                    } else {
                        list_size
                    };
                },
                KeyInput::PageUp => {
                    state.page = state.page - 1;
                },
                KeyInput::PageDown => {
                    state.page = state.page + 1;
                },
                _ => {},
            }
            SelectRet::Rerender
        },
    }
}

/// Whether an event is one of the page keys.
pub open spec fn is_page_key(event: Option<InputEvent>) -> bool {
    event == Some(InputEvent::Key(KeyInput::PageUp)) || event == Some(InputEvent::Key(KeyInput::PageDown))
}

/// What the plain picker does after an event: it shows a single page, so
/// the page keys change nothing; every other event acts as on the selection
/// screen.
pub fn select_on_one_page(state: &mut State, event: Option<InputEvent>) -> (r: SelectRet)
    ensures
        is_page_key(event) ==> final(state)@ == old(state)@ && r == SelectRet::Norerender,
        !is_page_key(event) ==> final(state)@ == after_event(old(state)@, event) && r == select_result(event),
{
    match event {
        Some(InputEvent::Key(KeyInput::PageUp)) => SelectRet::Norerender,
        Some(InputEvent::Key(KeyInput::PageDown)) => SelectRet::Norerender,
        _ => select_internal(state, event),
    }
}

/// Deleting undoes typing: a character typed and then deleted leaves the
/// state as it was.
pub proof fn law_backspace_undoes_char(s: StateView, c: char)
    ensures
        after_key(after_key(s, KeyInput::Char(c)), KeyInput::Backspace) == s,
{
    assert(s.input.push(c).drop_last() =~= s.input);
}

/// Turning a page down and then up again comes back to the same page.
pub proof fn law_page_down_then_up(s: StateView)
    requires
        s.page < usize::MAX,
    ensures
        after_key(after_key(s, KeyInput::PageDown), KeyInput::PageUp) == s,
{
}

/// The cursor never leaves the rows of the page: Up never goes above the
/// first row, and Down never goes below the last row counted on the page
/// (nor moves down at all when the cursor is already below it).
pub proof fn law_cursor_stays_on_page(s: StateView)
    ensures
        after_key(s, KeyInput::Up).cursor >= 1,
        after_key(s, KeyInput::Down).cursor <= s.items_displayed,
        s.cursor < s.items_displayed ==> after_key(s, KeyInput::Down).cursor == s.cursor + 1,
        s.cursor > 1 ==> after_key(s, KeyInput::Up).cursor == s.cursor - 1,
{
}

/// Only the keys that edit, move or turn change the state; Enter picks
/// without changing it, and other events leave it as it was.
pub proof fn law_other_events_keep_state(s: StateView, event: Option<InputEvent>)
    requires
        match event {
            Some(InputEvent::Key(k)) => !(k is Char || k is Backspace || k is Up || k is Down
                || k is PageUp || k is PageDown),
            _ => true,
        },
    ensures
        after_event(s, event) == s,
{
}

/// Which search a command asks for.
#[derive(Clone, Copy, Debug, PartialEq, Eq, Structural)]
pub enum ModeRequest {
    /// Keep the current search.
    Keep,
    /// Start the search over runnable files.
    StartAppSearch,
    /// Start the search over all files below the current directory.
    StartFileSearch,
}

/// The request for a command: `a` starts the search over runnable files and
/// `f` the search over files, unless that search already runs.
pub open spec fn mode_request_spec(app_running: bool, file_running: bool, command: Seq<char>) -> ModeRequest {
    if command == seq!['a'] && !app_running {
        ModeRequest::StartAppSearch
    } else if command == seq!['f'] && !file_running {
        ModeRequest::StartFileSearch
    } else {
        ModeRequest::Keep
    }
}

/// Decides whether the command `command` starts another search.
pub fn mode_request(mode: &SearchMode, command: &str) -> (r: ModeRequest)
    ensures
        r == mode_request_spec(mode is AppSerach, mode is FileSearch, command@),
{
    let one = command.unicode_len() == 1;
    if one && command.get_char(0) == 'a' {
        assert(command@ =~= seq!['a']);
        match mode {
            SearchMode::AppSerach(_) => ModeRequest::Keep,
            _ => ModeRequest::StartAppSearch,
        }
    } else if one && command.get_char(0) == 'f' {
        assert(command@ =~= seq!['f']);
        match mode {
            SearchMode::FileSearch(_) => ModeRequest::Keep,
            _ => ModeRequest::StartFileSearch,
        }
    } else {
        proof {
            if command@ == seq!['a'] || command@ == seq!['f'] {
                assert(command@[0] == command@.index(0));
            }
        }
        ModeRequest::Keep
    }
}

/// Which search the selection screen runs, without the search itself.
#[derive(Clone, Copy, Debug, PartialEq, Eq, Structural)]
pub enum SearchKind {
    NoSearch,
    Apps,
    Files,
}

/// The kind of a search mode.
pub open spec fn search_kind(mode: SearchMode) -> SearchKind {
    match mode {
        SearchMode::NoSearch => SearchKind::NoSearch,
        SearchMode::AppSerach(_) => SearchKind::Apps,
        SearchMode::FileSearch(_) => SearchKind::Files,
    }
}

/// The kind of search that runs after the screen has looked at the command
/// `command` while `kind` ran.
pub open spec fn kind_after(kind: SearchKind, command: Seq<char>) -> SearchKind {
    match mode_request_spec(kind == SearchKind::Apps, kind == SearchKind::Files, command) {
        ModeRequest::StartAppSearch => SearchKind::Apps,
        ModeRequest::StartFileSearch => SearchKind::Files,
        ModeRequest::Keep => kind,
    }
}

/// The kind of search that runs after the screen has looked at each of
/// `commands` in turn, starting from `kind`.
pub open spec fn kind_after_all(kind: SearchKind, commands: Seq<Seq<char>>) -> SearchKind
    decreases commands.len(),
{
    if commands.len() == 0 {
        kind
    } else {
        kind_after(kind_after_all(kind, commands.drop_last()), commands.last())
    }
}

/// The search changes only on the command `a`, to the search over runnable
/// files when another one ran, and on the command `f`, to the search over
/// files when another one ran.
pub proof fn law_search_changes_only_on_a_or_f(kind: SearchKind, command: Seq<char>)
    ensures
        kind_after(kind, command) != kind ==> {
            ||| command == seq!['a'] && kind != SearchKind::Apps && kind_after(kind, command) == SearchKind::Apps
            ||| command == seq!['f'] && kind != SearchKind::Files && kind_after(kind, command) == SearchKind::Files
        },
        kind_after(kind, command) == SearchKind::NoSearch ==> kind == SearchKind::NoSearch,
{
}

/// Once a search runs, some search runs for good: whatever commands follow,
/// the screen never goes back to running none. It starts with none and
/// runs one as soon as a command was `a` or `f`.
pub proof fn law_a_search_once_started_stays(kind: SearchKind, commands: Seq<Seq<char>>)
    ensures
        kind != SearchKind::NoSearch ==> kind_after_all(kind, commands) != SearchKind::NoSearch,
        kind_after_all(kind, commands) == SearchKind::NoSearch <==> kind == SearchKind::NoSearch && forall|i: int|
            0 <= i < commands.len() ==> #[trigger] commands[i] != seq!['a'] && commands[i] != seq!['f'],
    decreases commands.len(),
{
    if commands.len() > 0 {
        let rest = commands.drop_last();
        law_a_search_once_started_stays(kind, rest);
        law_search_changes_only_on_a_or_f(kind_after_all(kind, rest), commands.last());
        if kind_after_all(kind, commands) == SearchKind::NoSearch {
            assert forall|i: int| 0 <= i < commands.len() implies #[trigger] commands[i] != seq!['a'] && commands[i] != seq!['f'] by {
                if i < rest.len() {
                    assert(rest[i] == commands[i]);
                }
            }
        } else if kind == SearchKind::NoSearch && kind_after_all(kind, rest) == SearchKind::NoSearch {
            assert(commands[commands.len() - 1] == commands.last());
        } else if kind == SearchKind::NoSearch {
            let i = choose|i: int| 0 <= i < rest.len() && !(#[trigger] rest[i] != seq!['a'] && rest[i] != seq!['f']);
            assert(commands[i] == rest[i]);
        }
    }
}

/// How many results the running search has for the search text of the
/// input.
pub open spec fn result_count(mode: SearchMode, state: StateView) -> nat {
    match mode {
        SearchMode::NoSearch => 0,
        SearchMode::AppSerach(m) => ranking(scored_files(state.element_limit, m.cache_view(), search_part(state.input))).dom().len(),
        SearchMode::FileSearch(m) => ranking(scored_files(state.element_limit, m.cache_view(), search_part(state.input))).dom().len(),
    }
}

/// Whether `picked` is a copy of the file at the cursor's row of the current
/// page, among the results of the running search for the search text of the
/// input, and of that search's kind of file.
pub open spec fn is_pick_of(mode: SearchMode, state: StateView, picked: FileTypes) -> bool {
    match mode {
        SearchMode::NoSearch => false,
        SearchMode::AppSerach(m) => {
            let ranked = ranking(scored_files(state.element_limit, m.cache_view(), search_part(state.input)));
            match picked {
                FileTypes::RunnableFile(g) => exists|score: i64|
                    #[trigger] is_selected(ranked, state.page as nat, state.cursor as nat, score)
                        && cloned(ranked[score].1, g),
                FileTypes::AnyFile(_) => false,
            }
        },
        SearchMode::FileSearch(m) => {
            let ranked = ranking(scored_files(state.element_limit, m.cache_view(), search_part(state.input)));
            match picked {
                FileTypes::AnyFile(g) => exists|score: i64|
                    #[trigger] is_selected(ranked, state.page as nat, state.cursor as nat, score)
                        && cloned(ranked[score].1, g),
                FileTypes::RunnableFile(_) => false,
            }
        },
    }
}

/// The file picked with Enter: a copy of the file on the cursor's row of the
/// current page, of the kind that the running search finds (a runnable file
/// from the search over runnable files, any file from the search over
/// files). Fails when the cursor is below the results of the current page.
pub fn selected_file(mode: &SearchMode, state: &State) -> (r: Result<FileTypes, SelectionError>)
    requires
        !(mode is NoSearch),
        state.cursor >= 1,
        state.page * PAGE_SIZE <= usize::MAX,
    ensures
        r is Err <==> state.cursor - 1 >= page_len(result_count(*mode, state@), state.page as nat),
        r matches Ok(f) ==> (f is RunnableFile <==> mode is AppSerach),
        r matches Ok(f) ==> (f is AnyFile <==> mode is FileSearch),
        r matches Ok(f) ==> is_pick_of(*mode, state@, f),
{
    match mode {
        SearchMode::NoSearch => Err(SelectionError::NoSearchMatch),
        SearchMode::AppSerach(m) => match make_selection(m, state) {
            Ok(f) => {
                let g = f.clone();
                proof {
                    let ranked = ranking(scored_files(state@.element_limit, m.cache_view(), search_part(state@.input)));
                    let score = choose|score: i64|
                        #[trigger] is_selected(ranked, state.page as nat, state.cursor as nat, score)
                            && ranked[score].1 == *f;
                    assert(is_selected(ranked, state@.page as nat, state@.cursor as nat, score)
                        && cloned(ranked[score].1, g));
                    assert(is_pick_of(*mode, state@, FileTypes::RunnableFile(g)));
                }
                Ok(FileTypes::RunnableFile(g))
            },
            Err(e) => Err(e),
        },
        SearchMode::FileSearch(m) => match make_selection(m, state) {
            Ok(f) => {
                let g = f.clone();
                proof {
                    let ranked = ranking(scored_files(state@.element_limit, m.cache_view(), search_part(state@.input)));
                    let score = choose|score: i64|
                        #[trigger] is_selected(ranked, state.page as nat, state.cursor as nat, score)
                            && ranked[score].1 == *f;
                    assert(is_selected(ranked, state@.page as nat, state@.cursor as nat, score)
                        && cloned(ranked[score].1, g));
                    assert(is_pick_of(*mode, state@, FileTypes::AnyFile(g)));
                }
                Ok(FileTypes::AnyFile(g))
            },
            Err(e) => Err(e),
        },
    }
}

/// Takes in the files that have arrived, unless a drawing is pending
/// anyway; tells whether the screen must be drawn.
pub fn refresh<FT: FileBase, T: SearchType<FT>>(mode: &mut T, state: &mut State) -> (r: bool)
    ensures
        r == final(state).need_rerender,
        final(state)@ == (StateView { need_rerender: r, ..old(state)@ }),
        old(state).need_rerender ==> r && *final(mode) == *old(mode),
        !old(state).need_rerender ==> {
            &&& final(mode).cache_view().len() >= old(mode).cache_view().len()
            &&& final(mode).cache_view().subrange(0, old(mode).cache_view().len() as int)
                == old(mode).cache_view()
            &&& r == (final(mode).cache_view().len() > old(mode).cache_view().len())
        },
{
    state.need_rerender = state.need_rerender || mode.check_for_updates();
    state.need_rerender
}

/// The file on page `page` at row `cursor` (rows count from 1) of the
/// results in `ranked`: the one whose score has exactly
/// `page * PAGE_SIZE + cursor - 1` higher scores above it.
pub open spec fn is_selected<T>(ranked: Map<i64, (Seq<usize>, T)>, page: nat, cursor: nat, score: i64) -> bool {
    &&& ranked.contains_key(score)
    &&& higher_scores(ranked.dom(), score) == page * PAGE_SIZE + cursor - 1
}

/// What is picked is what is drawn at the cursor: the result that
/// `make_selection` picks at row `cursor` of page `page` is the result that
/// `FilteredList::iter` lists at position `cursor - 1` of that page, since
/// no two results share a row.
pub proof fn law_pick_is_drawn_row<T>(ranked: Map<i64, (Seq<usize>, T)>, page: nat, cursor: nat, picked: i64, drawn: i64)
    requires
        ranked.dom().finite(),
        is_selected(ranked, page, cursor, picked),
        ranked.contains_key(drawn),
        higher_scores(ranked.dom(), drawn) == page * PAGE_SIZE + (cursor - 1),
    ensures
        picked == drawn,
{
    crate::filtered_list::law_each_result_has_its_own_row(ranked.dom(), picked, drawn);
}

/// Picks the file that the cursor marks: ranks the files of the search by
/// the search text of the input, and takes the cursor's row of the current
/// page.
pub fn make_selection<'a, FT: FileBase, ST: SearchType<FT>>(search_mode: &'a ST, state: &State) -> (r: Result<&'a FT, SelectionError>)
    requires
        state.cursor >= 1,
        state.page * PAGE_SIZE <= usize::MAX,
    ensures
        ({
            let ranked = ranking(scored_files(state.matcher.element_limit, search_mode.cache_view(), search_part(state@.input)));
            match r {
                Ok(file) => state.cursor - 1 < page_len(ranked.dom().len(), state.page as nat)
                    && exists|score: i64| #[trigger] is_selected(ranked, state.page as nat, state.cursor as nat, score)
                        && ranked[score].1 == *file,
                Err(_) => state.cursor - 1 >= page_len(ranked.dom().len(), state.page as nat),
            }
        }),
{
    let cache = search_mode.get_cache();
    let (_, search_str) = state.split_input();
    let list: FilteredList<FT> = FilteredList::new(cache, search_str, &state.matcher);
    let a = list.iter(state.page);
    let k = state.cursor - 1;
    if k < a.len() {
        let m = a[k];
        let file: &'a FT = m.file;
        proof {
            assert(is_selected(list.view(), state.page as nat, state.cursor as nat, m.score));
        }
        Ok(file)
    } else {
        Err(SelectionError::NoSearchMatch)
    }
}

} // verus!
