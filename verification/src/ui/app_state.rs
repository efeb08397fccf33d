//! The state of the interactive view and how inputs change it.
use vstd::prelude::*;
use vstd::string::*;
use crate::config::{Config, ConfigView, Order, flipped};
use crate::parser::{Summary, SummaryView, Timing, TimingView, clone_timings, timings_view};
use crate::sorting::{selected_timings, sort_timings};
use crate::ui::buffer_manager::{
    cluster_offset, grapheme_clusters, grapheme_count, graphemes_of, insert_char_at,
    remove_char_at,
};
use crate::ui::input_handler::Input;

verus! {

#[verifier::external_type_specification]
#[verifier::external_body]
pub struct ExLineBuffer(line_buffer::LineBuffer);

/// The text held by a `line_buffer::LineBuffer`.
pub uninterp spec fn line_text(b: line_buffer::LineBuffer) -> Seq<char>;

/// The cursor of a `line_buffer::LineBuffer`, as a number of grapheme clusters.
pub uninterp spec fn line_cursor(b: line_buffer::LineBuffer) -> nat;

/// `s` with `t` inserted at position `i`.
pub open spec fn insert_text_at(s: Seq<char>, i: int, t: Seq<char>) -> Seq<char> {
    s.take(i) + t + s.skip(i)
}

/// An empty line buffer (`LineBuffer::new`).
///
/// Trusted: claims that the text is empty and the cursor at 0, as the source sets them.
#[verifier::external_body]
fn line_new() -> (r: line_buffer::LineBuffer)
    ensures
        line_text(r) == Seq::<char>::empty(),
        line_cursor(r) == 0,
{
    line_buffer::LineBuffer::new()
}

/// `LineBuffer::insert_str`: inserts `s` where the cursor's grapheme cluster starts
/// (or at the end) and moves the cursor on by the number of clusters of `s`.
///
/// Trusted: claims what the source does, with the clusters as unicode-segmentation
/// gives them.
#[verifier::external_body]
fn line_insert_str(b: &mut line_buffer::LineBuffer, s: &str)
    requires
        line_cursor(*old(b)) + grapheme_count(s@) <= usize::MAX,
    ensures
        line_text(*final(b)) == insert_text_at(
            line_text(*old(b)),
            cluster_offset(line_text(*old(b)), line_cursor(*old(b))) as int,
            s@,
        ),
        line_cursor(*final(b)) == line_cursor(*old(b)) + grapheme_count(s@),
{
    b.insert_str(s)
}

/// `LineBuffer::insert_char`: inserts `c` where the cursor's grapheme cluster
/// starts (or at the end) and moves the cursor on by one.
///
/// Trusted: claims what the source does.
#[verifier::external_body]
fn line_insert_char(b: &mut line_buffer::LineBuffer, c: char)
    requires
        line_cursor(*old(b)) < usize::MAX,
    ensures
        line_text(*final(b)) == insert_char_at(
            line_text(*old(b)),
            cluster_offset(line_text(*old(b)), line_cursor(*old(b))) as int,
            c,
        ),
        line_cursor(*final(b)) == line_cursor(*old(b)) + 1,
{
    b.insert_char(c)
}

/// `LineBuffer::backspace`: at a cursor above 0, moves the cursor back by one and
/// removes the character where the cluster it reaches starts.  The source panics
/// where that cluster does not exist, which `requires` leaves out.
///
/// Trusted: claims what the source does.
#[verifier::external_body]
fn line_backspace(b: &mut line_buffer::LineBuffer)
    requires
        line_cursor(*old(b)) == 0 || line_cursor(*old(b)) - 1 < grapheme_count(line_text(*old(b))),
    ensures
        line_cursor(*old(b)) == 0 ==> line_text(*final(b)) == line_text(*old(b)) && line_cursor(
            *final(b),
        ) == 0,
        line_cursor(*old(b)) > 0 ==> line_cursor(*final(b)) == line_cursor(*old(b)) - 1
            && line_text(*final(b)) == remove_char_at(
            line_text(*old(b)),
            cluster_offset(line_text(*old(b)), (line_cursor(*old(b)) - 1) as nat) as int,
        ),
{
    b.backspace()
}

/// `LineBuffer::delete`: below the number of clusters, removes the character where
/// the cursor's cluster starts; otherwise does nothing.
///
/// Trusted: claims what the source does.
#[verifier::external_body]
fn line_delete(b: &mut line_buffer::LineBuffer)
    ensures
        line_cursor(*final(b)) == line_cursor(*old(b)),
        line_cursor(*old(b)) < grapheme_count(line_text(*old(b))) ==> line_text(*final(b))
            == remove_char_at(
            line_text(*old(b)),
            cluster_offset(line_text(*old(b)), line_cursor(*old(b))) as int,
        ),
        line_cursor(*old(b)) >= grapheme_count(line_text(*old(b))) ==> line_text(*final(b))
            == line_text(*old(b)),
{
    b.delete()
}

/// `LineBuffer::move_left`: the cursor moves back by one, staying at 0.
///
/// Trusted: claims what the source does.
#[verifier::external_body]
fn line_move_left(b: &mut line_buffer::LineBuffer)
    ensures
        line_text(*final(b)) == line_text(*old(b)),
        line_cursor(*final(b)) == if line_cursor(*old(b)) == 0 {
            0
        } else {
            (line_cursor(*old(b)) - 1) as nat
        },
{
    b.move_left()
}

/// `LineBuffer::move_right`: below the number of clusters, the cursor moves on by one.
///
/// Trusted: claims what the source does.
#[verifier::external_body]
fn line_move_right(b: &mut line_buffer::LineBuffer)
    ensures
        line_text(*final(b)) == line_text(*old(b)),
        line_cursor(*final(b)) == if line_cursor(*old(b)) < grapheme_count(line_text(*old(b))) {
            line_cursor(*old(b)) + 1
        } else {
            line_cursor(*old(b))
        },
{
    b.move_right()
}

/// `LineBuffer::as_str`: the text.
///
/// Trusted: claims that the result is the text.
#[verifier::external_body]
fn line_as_str(b: &line_buffer::LineBuffer) -> (r: &str)
    ensures
        r@ == line_text(*b),
{
    b.as_str()
}

/// `LineBuffer::cursor_position`: the cursor.
///
/// Trusted: claims that the result is the cursor.
#[verifier::external_body]
fn line_cursor_position(b: &line_buffer::LineBuffer) -> (r: usize)
    ensures
        r == line_cursor(*b),
{
    b.cursor_position()
}

/// Which part of the view takes the keys.
#[derive(Debug, Clone, Copy, PartialEq, Eq, Structural)]
pub enum FocusElement {
    TimingTable,
    SearchInput,
}

/// The selection and scroll offset of the units table, as ratatui's `TableState`
/// keeps them (`select_next`, `select_previous` and `select_first` as its source has
/// them; the number of rows is only known, and the selection corrected, when drawing).
#[derive(Debug, Clone, Copy, PartialEq, Eq, Structural)]
pub struct TableSelection {
    pub offset: usize,
    pub selected: Option<usize>,
}

impl TableSelection {
    /// No row selected, no scrolling.
    pub fn new() -> (r: Self)
        ensures
            r.offset == 0,
            r.selected is None,
    {
        TableSelection { offset: 0, selected: None }
    }

    /// Selects the first row.
    pub fn select_first(&mut self)
        ensures
            *final(self) == (TableSelection { offset: old(self).offset, selected: Some(0) }),
    {
        self.selected = Some(0);
    }

    /// Selects the next row, or the first where none is selected.
    pub fn select_next(&mut self)
        ensures
            final(self).offset == old(self).offset,
            final(self).selected == Some(
                match old(self).selected {
                    Some(i) => if i == usize::MAX {
                        i
                    } else {
                        (i + 1) as usize
                    },
                    None => 0usize,
                },
            ),
    {
        let next = match self.selected {
            Some(i) => i.saturating_add(1),
            None => 0,
        };
        self.selected = Some(next);
    }

    /// Selects the previous row, or the last (`usize::MAX`, corrected when drawn)
    /// where none is selected.
    pub fn select_previous(&mut self)
        ensures
            final(self).offset == old(self).offset,
            final(self).selected == Some(
                match old(self).selected {
                    Some(i) => if i == 0 {
                        0
                    } else {
                        (i - 1) as usize
                    },
                    None => usize::MAX,
                },
            ),
    {
        let previous = match self.selected {
            Some(i) => i.saturating_sub(1),
            None => usize::MAX,
        };
        self.selected = Some(previous);
    }
}

/// The state of the interactive view.
pub struct AppState {
    pub summary: Summary,
    pub config: Config,
    pub search_term: line_buffer::LineBuffer,
    pub focus: FocusElement,
    pub should_quit: bool,
    pub timing_table_state: TableSelection,
    pub sorted_timings: Option<Vec<Timing>>,
}

/// The state as mathematical values.
pub struct AppStateView {
    pub summary: SummaryView,
    pub config: ConfigView,
    pub search: Seq<char>,
    pub search_cursor: nat,
    pub focus: FocusElement,
    pub should_quit: bool,
    pub table: TableSelection,
    pub sorted: Option<Seq<TimingView>>,
}

impl View for AppState {
    type V = AppStateView;

    open spec fn view(&self) -> AppStateView {
        AppStateView {
            summary: self.summary@,
            config: self.config@,
            search: line_text(self.search_term),
            search_cursor: line_cursor(self.search_term),
            focus: self.focus,
            should_quit: self.should_quit,
            table: self.timing_table_state,
            sorted: match self.sorted_timings {
                Some(v) => Some(timings_view(v@)),
                None => None,
            },
        }
    }
}

/// Whether the view can take `input` in state `s` (the line buffer panics otherwise:
/// a character typed at the largest cursor, or a backspace whose grapheme cluster
/// does not exist).
pub open spec fn input_allowed(s: AppStateView, input: Input) -> bool {
    s.focus == FocusElement::SearchInput ==> match input {
        Input::Char(_) => s.search_cursor < usize::MAX,
        Input::BackSpace => s.search_cursor == 0 || s.search_cursor - 1 < grapheme_count(s.search),
        _ => true,
    }
}

/// The state after `input` in state `s`.
///
/// On the units table: `q` and Quit quit, `f` moves to the search line, `S` and
/// `s` step through the orders, and the up and down arrows move the selection.
/// On the search line: Escape and Enter go back to the table, characters are
/// typed, Delete, Backspace and the left and right arrows edit, and Quit quits.
/// Other inputs change nothing.
pub open spec fn after_input(s: AppStateView, input: Input) -> AppStateView {
    match s.focus {
        FocusElement::TimingTable => match input {
            Input::Char('q') | Input::Quit => AppStateView { should_quit: true, ..s },
            Input::Char('f') => AppStateView { focus: FocusElement::SearchInput, ..s },
            Input::Char('S') | Input::Char('s') => AppStateView {
                config: ConfigView { order: flipped(s.config.order), ..s.config },
                ..s
            },
            Input::Up => AppStateView {
                table: TableSelection {
                    offset: s.table.offset,
                    selected: Some(
                        match s.table.selected {
                            Some(i) => if i == 0 {
                                0
                            } else {
                                (i - 1) as usize
                            },
                            None => usize::MAX,
                        },
                    ),
                },
                ..s
            },
            Input::Down => AppStateView {
                table: TableSelection {
                    offset: s.table.offset,
                    selected: Some(
                        match s.table.selected {
                            Some(i) => if i == usize::MAX {
                                i
                            } else {
                                (i + 1) as usize
                            },
                            None => 0usize,
                        },
                    ),
                },
                ..s
            },
            _ => s,
        },
        FocusElement::SearchInput => match input {
            Input::Esc | Input::Enter => AppStateView { focus: FocusElement::TimingTable, ..s },
            Input::Char(c) => AppStateView {
                search: insert_char_at(s.search, cluster_offset(s.search, s.search_cursor) as int, c),
                search_cursor: s.search_cursor + 1,
                ..s
            },
            Input::Delete => AppStateView {
                search: if s.search_cursor < grapheme_count(s.search) {
                    remove_char_at(s.search, cluster_offset(s.search, s.search_cursor) as int)
                } else {
                    s.search
                },
                ..s
            },
            Input::BackSpace => if s.search_cursor == 0 {
                s
            } else {
                AppStateView {
                    search: remove_char_at(
                        s.search,
                        cluster_offset(s.search, (s.search_cursor - 1) as nat) as int,
                    ),
                    search_cursor: (s.search_cursor - 1) as nat,
                    ..s
                }
            },
            Input::Left => AppStateView {
                search_cursor: if s.search_cursor == 0 {
                    0
                } else {
                    (s.search_cursor - 1) as nat
                },
                ..s
            },
            Input::Right => AppStateView {
                search_cursor: if s.search_cursor < grapheme_count(s.search) {
                    s.search_cursor + 1
                } else {
                    s.search_cursor
                },
                ..s
            },
            Input::Quit => AppStateView { should_quit: true, ..s },
            _ => s,
        },
    }
}

/// Once the view is told to quit, no input takes that back.
pub proof fn lemma_quit_is_final(s: AppStateView, input: Input)
    requires
        s.should_quit,
    ensures
        after_input(s, input).should_quit,
{
}

/// Inputs change neither the report nor the listed units; only sorting lists units.
pub proof fn lemma_input_keeps_report(s: AppStateView, input: Input)
    ensures
        after_input(s, input).summary == s.summary,
        after_input(s, input).sorted == s.sorted,
{
}

/// On the table, `S` and then `s` give back the order that was asked for.
pub proof fn lemma_sort_keys_undo(s: AppStateView)
    requires
        s.focus == FocusElement::TimingTable,
    ensures
        after_input(after_input(s, Input::Char('S')), Input::Char('s')).config.order == s.config.order,
{
}

/// On the search line, moving left and then right returns the cursor to where it
/// was, when it was inside the text.
pub proof fn lemma_left_right_undo(s: AppStateView)
    requires
        s.focus == FocusElement::SearchInput,
        0 < s.search_cursor <= grapheme_count(s.search),
    ensures
        after_input(after_input(s, Input::Left), Input::Right).search_cursor == s.search_cursor,
        after_input(after_input(s, Input::Left), Input::Right).search == s.search,
{
}

/// The state after the search line is taken as the search text and the units are
/// listed as the options ask (filtered, ordered, truncated).
pub open spec fn resorted(s: AppStateView) -> AppStateView {
    let c = ConfigView { search: s.search, ..s.config };
    AppStateView { config: c, sorted: Some(selected_timings(s.summary.timings, c)), ..s }
}

/// One turn of the view on `input`: whether the view goes on, and the state after
/// it.  With no input nothing changes; an input changes the state, and then
/// either the view stops (it was told to quit) or the units are listed again.
pub open spec fn after_turn(s: AppStateView, input: Option<Input>) -> (bool, AppStateView) {
    match input {
        None => (true, s),
        Some(i) => {
            let t = after_input(s, i);
            if t.should_quit {
                (false, t)
            } else {
                (true, resorted(t))
            }
        },
    }
}

/// Over a turn, whatever the input: once told to quit the view stays so, and the
/// report, the path, limit, minimum time and level of detail stay as they were.
/// (A refused input changes nothing at all: see `handle_input_checked`.)
pub proof fn lemma_turn_keeps_quit_and_report(s: AppStateView, input: Option<Input>)
    ensures
        s.should_quit ==> after_turn(s, input).1.should_quit,
        after_turn(s, input).1.summary == s.summary,
        after_turn(s, input).1.config.path == s.config.path,
        after_turn(s, input).1.config.top == s.config.top,
        after_turn(s, input).1.config.min_time == s.config.min_time,
        after_turn(s, input).1.config.detail_level == s.config.detail_level,
{
}

/// After a turn that goes on, the listed units are those that the view's own
/// options select, as they stand after the input: the search text is the search
/// line, and the units are `selected_timings` of the report under the options of
/// the new state (its order, limit, minimum time and search text).
pub proof fn lemma_turn_lists_current_options(s: AppStateView, i: Input)
    ensures
        after_turn(s, Some(i)).0 ==> {
            let t = after_turn(s, Some(i)).1;
            &&& t.config.search == t.search
            &&& t.sorted == Some(selected_timings(t.summary.timings, t.config))
        },
{
}

/// Only typing, Delete and Backspace change the search line, and only typing,
/// Backspace and the left and right arrows move its cursor; leaving the search
/// line with Enter or Escape keeps both and only moves the focus to the table.
pub proof fn lemma_search_line_changes_only_by_editing(s: AppStateView, i: Input)
    ensures
        !(i is Char || i is Delete || i is BackSpace) ==> after_input(s, i).search == s.search,
        !(i is Char || i is BackSpace || i is Left || i is Right) ==> after_input(s, i).search_cursor
            == s.search_cursor,
        s.focus == FocusElement::SearchInput && (i is Enter || i is Esc) ==> after_input(s, i) == (
        AppStateView { focus: FocusElement::TimingTable, ..s }),
        s.focus == FocusElement::TimingTable ==> after_input(s, i).search == s.search
            && after_input(s, i).search_cursor == s.search_cursor,
{
}

/// The unit that the selected row of the listed units shows, if any.
pub open spec fn selected_unit(s: AppStateView) -> Option<TimingView> {
    match (s.sorted, s.table.selected) {
        (Some(ts), Some(i)) => if i < ts.len() {
            Some(ts[i as int])
        } else {
            None
        },
        _ => None,
    }
}

proof fn lemma_cluster_count_bound(s: Seq<char>, cl: Seq<Seq<char>>)
    requires
        cl.flatten() == s,
        forall|i: int| 0 <= i < cl.len() ==> #[trigger] cl[i].len() > 0,
    ensures
        cl.len() <= s.len(),
    decreases cl.len(),
{
    if cl.len() > 0 {
        let rest = cl.drop_first();
        assert(cl.flatten() == cl[0] + rest.flatten());
        assert forall|i: int| 0 <= i < rest.len() implies #[trigger] rest[i].len() > 0 by {
            assert(rest[i] == cl[i + 1]);
        }
        lemma_cluster_count_bound(rest.flatten(), rest);
    }
}

impl AppState {
    /// The starting state: the search line holds the configured search text with
    /// the cursor after it, the table is focused with its first row selected, and
    /// nothing is sorted yet.
    pub fn init(summary: Summary, config: Config) -> (r: Self)
        ensures
            r@.summary == summary@,
            r@.config == config@,
            r@.search == config@.search,
            r@.search_cursor == grapheme_count(config@.search),
            r@.focus == FocusElement::TimingTable,
            !r@.should_quit,
            r@.table == (TableSelection { offset: 0, selected: Some(0) }),
            r@.sorted is None,
    {
        let mut search_term = line_new();
        let clusters = graphemes_of(config.search.as_str());
        let n = config.search.as_str().unicode_len();
        proof {
            let cl = clusters@.map_values(|g: &str| g@);
            assert forall|i: int| 0 <= i < cl.len() implies #[trigger] cl[i].len() > 0 by {
                assert(cl[i] == clusters@[i]@);
            }
            lemma_cluster_count_bound(config.search@, cl);
        }
        line_insert_str(&mut search_term, config.search.as_str());
        assert(insert_text_at(Seq::<char>::empty(), 0, config.search@) =~= config.search@);
        let mut tstate = TableSelection::new();
        tstate.select_first();
        AppState {
            summary,
            config,
            search_term,
            focus: FocusElement::TimingTable,
            should_quit: false,
            timing_table_state: tstate,
            sorted_timings: None,
        }
    }

    /// The cursor of the search line.
    pub fn search_cursor(&self) -> (r: usize)
        ensures
            r == self@.search_cursor,
    {
        line_cursor_position(&self.search_term)
    }

    /// The text of the search line.
    pub fn search_text(&self) -> (r: &str)
        ensures
            r@ == self@.search,
    {
        line_as_str(&self.search_term)
    }

    /// Whether the view can take `input` now.
    pub fn accepts(&self, input: Input) -> (r: bool)
        ensures
            r == input_allowed(self@, input),
    {
        match self.focus {
            FocusElement::TimingTable => true,
            FocusElement::SearchInput => match input {
                Input::Char(_) => line_cursor_position(&self.search_term) < usize::MAX,
                Input::BackSpace => {
                    let cursor = line_cursor_position(&self.search_term);
                    if cursor == 0 {
                        true
                    } else {
                        let text = line_as_str(&self.search_term);
                        let clusters = graphemes_of(text);
                        cursor - 1 < clusters.len()
                    }
                },
                _ => true,
            },
        }
    }

    /// Changes the state as `input` asks.
    pub fn process_input(&mut self, input: Input)
        requires
            input_allowed(old(self)@, input),
        ensures
            final(self)@ == after_input(old(self)@, input),
    {
        match self.focus {
            FocusElement::TimingTable => match input {
                Input::Char('q') => self.should_quit = true,
                Input::Char('f') => self.focus = FocusElement::SearchInput,
                Input::Char('S') => self.config.order.toggle_next(),
                Input::Char('s') => self.config.order.toggle_prev(),
                Input::Up => self.timing_table_state.select_previous(),
                Input::Down => self.timing_table_state.select_next(),
                Input::Quit => self.should_quit = true,
                _ => {},
            },
            FocusElement::SearchInput => match input {
                Input::Esc | Input::Enter => self.focus = FocusElement::TimingTable,
                Input::Char(c) => line_insert_char(&mut self.search_term, c),
                Input::Delete => line_delete(&mut self.search_term),
                Input::BackSpace => line_backspace(&mut self.search_term),
                Input::Left => line_move_left(&mut self.search_term),
                Input::Right => line_move_right(&mut self.search_term),
                Input::Quit => self.should_quit = true,
                _ => {},
            },
        }
    }

    /// Takes the search line as the search text and lists the units as the options
    /// ask (filtered, ordered, truncated).
    pub fn sort_timings(&mut self)
        ensures
            final(self)@ == resorted(old(self)@),
    {
        let text = line_as_str(&self.search_term);
        self.config.search = text.to_string();
        let mut timings = clone_timings(&self.summary.timings);
        sort_timings(&mut timings, &self.config);
        self.sorted_timings = Some(timings);
    }

    /// One turn of the interactive view (`after_turn`): with no input nothing
    /// changes and the view goes on; an input changes the state, and then either
    /// the view stops (it was told to quit) or the units are listed again and the
    /// view goes on.
    pub fn handle_input(&mut self, input: Option<Input>) -> (go_on: bool)
        requires
            match input {
                Some(i) => input_allowed(old(self)@, i),
                None => true,
            },
        ensures
            (go_on, final(self)@) == after_turn(old(self)@, input),
    {
        match input {
            None => true,
            Some(i) => {
                self.process_input(i);
                if self.should_quit {
                    false
                } else {
                    self.sort_timings();
                    true
                }
            },
        }
    }

    /// One turn of the interactive view on an input that is checked first: where
    /// the search line cannot take the input (`input_allowed` fails), nothing
    /// changes and the result is `None`; otherwise the turn is taken and the result
    /// is whether the view goes on.
    pub fn handle_input_checked(&mut self, input: Option<Input>) -> (r: Option<bool>)
        ensures
            r is None <==> (input matches Some(i) && !input_allowed(old(self)@, i)),
            r is None ==> final(self)@ == old(self)@,
            r matches Some(go_on) ==> (go_on, final(self)@) == after_turn(old(self)@, input),
    {
        if let Some(i) = input {
            if !self.accepts(i) {
                return None;
            }
        }
        Some(self.handle_input(input))
    }

    /// The unit in the selected row of the listed units, if any.
    pub fn selected_timing(&self) -> (r: Option<&Timing>)
        ensures
            match r {
                Some(t) => selected_unit(self@) == Some(t@),
                None => selected_unit(self@) is None,
            },
    {
        match (&self.sorted_timings, self.timing_table_state.selected) {
            (Some(ts), Some(i)) => {
                if i < ts.len() {
                    proof {
                        assert(timings_view(ts@)[i as int] == ts@[i as int]@);
                    }
                    Some(&ts[i])
                } else {
                    None
                }
            },
            _ => None,
        }
    }
}

} // verus!
