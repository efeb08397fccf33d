use cargo_timings::config::{Config, Detail, Order};
use cargo_timings::parser::{Summary, Timing};
use cargo_timings::ui::app_state::{AppState, FocusElement, TableSelection};
use cargo_timings::ui::buffer_manager::SingleLineBufferManager;
use cargo_timings::ui::input_handler::{input_from_key, Input, InputHandler, Key, KeyPress};
use cargo_timings::ui::widgets::column_ranges;
use cargo_timings::ui::renderer::{union, view_areas, Area};
use cargo_timings::ui::renderer::{
    left_panel_width, search_cursor_column, status_line, summary_rows, timing_details, timing_rows,
    unit_column_width,
};

fn unit(id: u32, name: &str, total: u128) -> Timing {
    Timing { id, unit: name.to_string(), total, frontend: None, codegen: None, features: vec![] }
}

fn config(search: &str) -> Config {
    Config {
        path: "report.html".to_string(),
        top: None,
        detail_level: Detail::Default,
        order: Order::Descending,
        search: search.to_string(),
        min_time: 0,
        interactive: true,
    }
}

fn summary(timings: Vec<Timing>) -> Summary {
    Summary {
        targets: vec!["app 0.1.0 (lib)".to_string(), "app 0.1.0 (bin \"app\")".to_string()],
        profile: "dev".to_string(),
        fresh_units: 1,
        dirty_units: 2,
        total_units: 3,
        max_concurency: 4,
        concurency_details: "(jobs=4 ncpu=8)".to_string(),
        build_start: "2024-05-01 08:00:00 UTC".to_string(),
        total_time: 215_100_000_000,
        rustc: vec!["rustc 1.90.0".to_string(), "Host: x86_64".to_string()],
        timings,
    }
}

fn press(code: Key) -> KeyPress {
    KeyPress { code, control: false }
}

// Line buffer of the search field.

#[test]
fn buffer_inserts_at_the_cursor() {
    let mut b = SingleLineBufferManager::init_empty();
    b.insert('a');
    b.insert('c');
    b.left();
    b.insert('b');
    assert_eq!(b.peek(), "abc");
    assert_eq!(b.cursor_position(), 2);
    assert_eq!(b.len(), 3);
}

#[test]
fn buffer_counts_grapheme_clusters() {
    // "e" with a combining acute accent is one cluster of two characters.
    let mut b = SingleLineBufferManager::init_with("e\u{301}x".to_string(), 1);
    assert_eq!(b.len(), 2);
    b.insert('y');
    assert_eq!(b.peek(), "e\u{301}yx");
    assert_eq!(b.cursor_position(), 2);
    let flag = SingleLineBufferManager::init_with("\u{1f1eb}\u{1f1f7}".to_string(), 0);
    assert_eq!(flag.len(), 1);
}

#[test]
fn buffer_backspace_and_delete() {
    let mut b = SingleLineBufferManager::init_with("abc".to_string(), 2);
    b.backspace();
    assert_eq!(b.peek(), "ac");
    assert_eq!(b.cursor_position(), 1);
    b.delete();
    assert_eq!(b.peek(), "a");
    assert_eq!(b.cursor_position(), 1);
    b.delete();
    assert_eq!(b.peek(), "a");
    let mut start = SingleLineBufferManager::init_with("xy".to_string(), 0);
    start.backspace();
    assert_eq!(start.peek(), "xy");
    assert_eq!(start.cursor_position(), 0);
}

#[test]
fn buffer_backspace_removes_the_first_character_of_a_cluster() {
    let mut b = SingleLineBufferManager::init_with("e\u{301}".to_string(), 1);
    b.backspace();
    assert_eq!(b.peek(), "\u{301}");
    assert_eq!(b.cursor_position(), 0);
}

#[test]
fn buffer_moves_within_its_text() {
    let mut b = SingleLineBufferManager::init_with("ab".to_string(), 0);
    b.left();
    assert_eq!(b.cursor_position(), 0);
    b.right();
    b.right();
    b.right();
    assert_eq!(b.cursor_position(), 2);
    b.left();
    assert_eq!(b.cursor_position(), 1);
}

#[test]
fn buffer_flush_empties_it() {
    let mut b = SingleLineBufferManager::init_with("serde".to_string(), 3);
    assert!(!b.is_empty());
    let text = b.flush();
    assert_eq!(text, "serde");
    assert!(b.is_empty());
    assert_eq!(b.len(), 0);
    assert_eq!(b.cursor_position(), 0);
    let d = SingleLineBufferManager::default();
    assert!(d.is_empty());
    assert_eq!(d.cursor_position(), 0);
}

// Keys.

#[test]
fn keys_give_inputs() {
    assert_eq!(input_from_key(press(Key::Up)), Some(Input::Up));
    assert_eq!(input_from_key(press(Key::Down)), Some(Input::Down));
    assert_eq!(input_from_key(press(Key::Left)), Some(Input::Left));
    assert_eq!(input_from_key(press(Key::Right)), Some(Input::Right));
    assert_eq!(input_from_key(press(Key::Esc)), Some(Input::Esc));
    assert_eq!(input_from_key(press(Key::Enter)), Some(Input::Enter));
    assert_eq!(input_from_key(press(Key::Backspace)), Some(Input::BackSpace));
    assert_eq!(input_from_key(press(Key::Delete)), Some(Input::Delete));
    assert_eq!(input_from_key(press(Key::Char('x'))), Some(Input::Char('x')));
    assert_eq!(input_from_key(press(Key::Other)), None);
}

#[test]
fn control_c_quits() {
    assert_eq!(input_from_key(KeyPress { code: Key::Char('c'), control: true }), Some(Input::Quit));
    assert_eq!(input_from_key(KeyPress { code: Key::Char('C'), control: true }), Some(Input::Quit));
    assert_eq!(input_from_key(KeyPress { code: Key::Char('x'), control: true }), Some(Input::Char('x')));
}

#[test]
fn input_handler_keeps_its_poll_duration() {
    let h = InputHandler::new(std::time::Duration::from_millis(150));
    assert_eq!(h.poll_duration, std::time::Duration::from_millis(150));
}

// Table selection.

#[test]
fn table_selection_steps() {
    let mut t = TableSelection::new();
    assert_eq!(t.selected, None);
    t.select_next();
    assert_eq!(t.selected, Some(0));
    t.select_next();
    assert_eq!(t.selected, Some(1));
    t.select_previous();
    t.select_previous();
    assert_eq!(t.selected, Some(0));
    let mut none = TableSelection::new();
    none.select_previous();
    assert_eq!(none.selected, Some(usize::MAX));
    none.select_next();
    assert_eq!(none.selected, Some(usize::MAX));
    none.select_first();
    assert_eq!(none.selected, Some(0));
    assert_eq!(none.offset, 0);
}

// State of the view.

#[test]
fn init_state() {
    let s = AppState::init(summary(vec![unit(1, "a", 1)]), config("se"));
    assert_eq!(s.search_text(), "se");
    assert_eq!(s.search_cursor(), 2);
    assert_eq!(s.focus, FocusElement::TimingTable);
    assert!(!s.should_quit);
    assert_eq!(s.timing_table_state, TableSelection { offset: 0, selected: Some(0) });
    assert!(s.sorted_timings.is_none());
}

#[test]
fn table_keys() {
    let mut s = AppState::init(summary(vec![]), config(""));
    s.process_input(Input::Down);
    assert_eq!(s.timing_table_state.selected, Some(1));
    s.process_input(Input::Up);
    s.process_input(Input::Up);
    assert_eq!(s.timing_table_state.selected, Some(0));
    s.process_input(Input::Char('S'));
    assert_eq!(s.config.order, Order::Ascending);
    s.process_input(Input::Char('s'));
    assert_eq!(s.config.order, Order::Descending);
    s.process_input(Input::Char('x'));
    assert_eq!(s.focus, FocusElement::TimingTable);
    s.process_input(Input::Char('q'));
    assert!(s.should_quit);
}

#[test]
fn quit_from_the_table() {
    let mut s = AppState::init(summary(vec![]), config(""));
    s.process_input(Input::Quit);
    assert!(s.should_quit);
}

#[test]
fn search_line_editing() {
    let mut s = AppState::init(summary(vec![]), config(""));
    s.process_input(Input::Char('f'));
    assert_eq!(s.focus, FocusElement::SearchInput);
    for c in "syn".chars() {
        assert!(s.accepts(Input::Char(c)));
        s.process_input(Input::Char(c));
    }
    assert_eq!(s.search_text(), "syn");
    s.process_input(Input::Char('q'));
    assert!(!s.should_quit);
    assert_eq!(s.search_text(), "synq");
    assert!(s.accepts(Input::BackSpace));
    s.process_input(Input::BackSpace);
    s.process_input(Input::Left);
    s.process_input(Input::Left);
    s.process_input(Input::Delete);
    assert_eq!(s.search_text(), "sn");
    assert_eq!(s.search_cursor(), 1);
    s.process_input(Input::Right);
    s.process_input(Input::Right);
    assert_eq!(s.search_cursor(), 2);
    s.process_input(Input::Enter);
    assert_eq!(s.focus, FocusElement::TimingTable);
    s.process_input(Input::Char('f'));
    s.process_input(Input::Esc);
    assert_eq!(s.focus, FocusElement::TimingTable);
    s.process_input(Input::Char('f'));
    s.process_input(Input::Quit);
    assert!(s.should_quit);
}

#[test]
fn sorting_takes_the_search_line() {
    let mut s = AppState::init(
        summary(vec![unit(1, "syn", 10), unit(2, "serde", 30), unit(3, "syn-derive", 20)]),
        config(""),
    );
    s.process_input(Input::Char('f'));
    s.process_input(Input::Char('s'));
    s.process_input(Input::Char('y'));
    s.sort_timings();
    assert_eq!(s.config.search, "sy");
    let ids: Vec<u32> = s.sorted_timings.as_ref().unwrap().iter().map(|t| t.id).collect();
    assert_eq!(ids, vec![3, 1]);
    s.process_input(Input::Esc);
    s.process_input(Input::Char('S'));
    s.sort_timings();
    let ids: Vec<u32> = s.sorted_timings.as_ref().unwrap().iter().map(|t| t.id).collect();
    assert_eq!(ids, vec![1, 3]);
}

// What is drawn.

#[test]
fn panel_and_column_widths() {
    let ts = vec![unit(1, "a", 1_000_000_000), unit(2, "serde v1.0.0", 31_700_000_000)];
    // "serde v1.0.0" is 12 bytes, "31.7s" is 5, and 5 more.
    assert_eq!(left_panel_width(&ts), 22);
    assert_eq!(unit_column_width(&ts), 12);
    assert_eq!(left_panel_width(&vec![]), 15);
    assert_eq!(unit_column_width(&vec![unit(1, "ab", 0)]), 4);
    // Widths count bytes: "é" is two.
    assert_eq!(unit_column_width(&vec![unit(1, "\u{e9}\u{e9}\u{e9}", 0)]), 6);
}

#[test]
fn rows_of_the_units_table() {
    let rows = timing_rows(&vec![unit(1, "syn", 2_500_000_000), unit(2, "serde", 140_000_000)]);
    assert_eq!(
        rows,
        vec![
            ("syn".to_string(), "2.5s".to_string()),
            ("serde".to_string(), "0.1s".to_string())
        ]
    );
}

#[test]
fn rows_of_the_summary_panel() {
    let rows = summary_rows(&summary(vec![]));
    let expected: Vec<(String, String)> = vec![
        ("TARGETS:", "app 0.1.0 (lib), app 0.1.0 (bin \"app\")"),
        ("PROFILE:", "dev"),
        ("FRESH UNITS:", "1"),
        ("DIRTY UNITS:", "2"),
        ("TOTAL UNITS:", "3"),
        ("MAX CONCURRENCY:", "4 (jobs=4 ncpu=8)"),
        ("BUILD START:", "2024-05-01 08:00:00 UTC"),
        ("TOTAL TIME:", "215.1s"),
        ("RUSTC:", "rustc 1.90.0, Host: x86_64"),
    ]
    .into_iter()
    .map(|(a, b)| (a.to_string(), b.to_string()))
    .collect();
    assert_eq!(rows, expected);
}

#[test]
fn status_lines() {
    let mut s = AppState::init(summary(vec![]), config("syn"));
    assert_eq!(
        status_line(&s),
        "Q: Quit  |  \u{25b2}/\u{25bc}: Scroll  |  S: Sort (Descending)  |  F: Find (syn)"
    );
    s.process_input(Input::Char('f'));
    assert_eq!(status_line(&s), "Type to filter... <ESC/Enter> to return: syn");
}

#[test]
fn details_of_a_unit() {
    let t = Timing {
        id: 7,
        unit: "serde v1.0.0".to_string(),
        total: 3_000_000_000,
        frontend: Some(1_200_000_000),
        codegen: None,
        features: vec!["default".to_string(), "std".to_string()],
    };
    let (title, lines) = timing_details(&t);
    assert_eq!(title, "serde v1.0.0 details");
    assert_eq!(
        lines,
        vec!["FRONTEND: 1.2s\n".to_string(), "CODEGEN: \n".to_string(), "FEATURES: default, std\n".to_string()]
    );
}

#[test]
fn cursor_column_on_the_status_line() {
    assert_eq!(search_cursor_column(0, 0), 41);
    assert_eq!(search_cursor_column(3, 5), 49);
}

#[test]
fn one_turn_of_the_view() {
    let mut s = AppState::init(summary(vec![unit(1, "syn", 10), unit(2, "serde", 30)]), config(""));
    assert!(s.handle_input(None));
    assert!(s.sorted_timings.is_none());
    assert!(s.handle_input(Some(Input::Down)));
    let ids: Vec<u32> = s.sorted_timings.as_ref().unwrap().iter().map(|t| t.id).collect();
    assert_eq!(ids, vec![2, 1]);
    assert_eq!(s.selected_timing().map(|t| t.id), Some(1));
    assert!(!s.handle_input(Some(Input::Char('q'))));
    assert!(s.should_quit);
}

#[test]
fn selected_unit_needs_a_listed_row() {
    let mut s = AppState::init(summary(vec![unit(1, "syn", 10)]), config(""));
    assert!(s.selected_timing().is_none());
    s.sort_timings();
    assert_eq!(s.selected_timing().map(|t| t.id), Some(1));
    s.process_input(Input::Down);
    assert!(s.selected_timing().is_none());
}

#[test]
fn columns_of_a_wrapping_list() {
    assert_eq!(column_ranges(7, 3, 20, 5), vec![(0, 3), (3, 6), (6, 7)]);
    assert_eq!(column_ranges(7, 3, 10, 5), vec![(0, 3), (3, 6)]);
    assert_eq!(column_ranges(6, 3, 20, 5), vec![(0, 3), (3, 6)]);
    assert_eq!(column_ranges(7, 3, 4, 5), vec![]);
    assert_eq!(column_ranges(0, 3, 20, 5), vec![]);
    assert_eq!(column_ranges(4, 0, 20, 5), vec![]);
    assert_eq!(column_ranges(4, 3, 0, 0), vec![]);
}

#[test]
fn checked_turns_refuse_what_the_search_line_cannot_take() {
    let mut s = AppState::init(summary(vec![unit(1, "syn", 10)]), config(""));
    assert_eq!(s.handle_input_checked(Some(Input::Char('f'))), Some(true));
    assert_eq!(s.focus, FocusElement::SearchInput);
    assert_eq!(s.handle_input_checked(Some(Input::Char('s'))), Some(true));
    assert_eq!(s.search_text(), "s");
    assert_eq!(s.handle_input_checked(None), Some(true));
    // A combining accent typed after "e" joins its cluster, leaving the cursor
    // past the last cluster: the line buffer cannot backspace from there.
    assert_eq!(s.handle_input_checked(Some(Input::Char('e'))), Some(true));
    assert_eq!(s.handle_input_checked(Some(Input::Char('\u{301}'))), Some(true));
    assert_eq!(s.search_cursor(), 3);
    assert_eq!(s.handle_input_checked(Some(Input::BackSpace)), None);
    assert_eq!(s.search_text(), "se\u{301}");
    assert_eq!(s.search_cursor(), 3);
    assert_eq!(s.handle_input_checked(Some(Input::Quit)), Some(false));
    assert!(s.should_quit);
}

#[test]
fn inserts_into_an_empty_buffer_append() {
    let mut b = SingleLineBufferManager::init_empty();
    for c in ['e', '\u{301}', 'x', '\u{1f1eb}', '\u{1f1f7}'] {
        b.insert(c);
    }
    assert_eq!(b.peek(), "e\u{301}x\u{1f1eb}\u{1f1f7}");
    assert_eq!(b.cursor_position(), 5);
}

#[test]
fn backspace_undoes_an_ascii_insert() {
    let mut b = SingleLineBufferManager::init_with("abc".to_string(), 1);
    b.insert('z');
    assert_eq!(b.peek(), "azbc");
    b.backspace();
    assert_eq!(b.peek(), "abc");
    assert_eq!(b.cursor_position(), 1);
}

#[test]
fn areas_of_the_view() {
    let a = |x, y, width, height| Area { x, y, width, height };
    let v = view_areas(a(0, 0, 100, 30), 20);
    assert_eq!(v.timings, a(0, 0, 20, 29));
    assert_eq!(v.summary, a(20, 0, 80, 11));
    assert_eq!(v.details, a(20, 11, 80, 18));
    assert_eq!(v.status, a(0, 29, 100, 1));
    assert_eq!(union(a(2, 3, 4, 5), a(10, 1, 1, 1)), a(2, 1, 9, 7));
    assert_eq!(union(a(65530, 0, 10, 1), a(0, 0, 1, 1)), a(0, 0, 65535, 1));
}

#[test]
fn ascii_buffers_edit_at_the_cursor() {
    let mut b = SingleLineBufferManager::init_with("abc".to_string(), 2);
    b.delete();
    assert_eq!(b.peek(), "ab");
    b.insert('x');
    assert_eq!(b.peek(), "abx");
    b.backspace();
    assert_eq!(b.peek(), "ab");
    assert_eq!(b.cursor_position(), 2);
}
