//! What the interactive view shows: the texts and sizes it draws.
use vstd::prelude::*;
use ratatui::layout::{Constraint, Direction, Layout, Rect};
use crate::cli::output::max_nat;
use crate::config::order_name;
use crate::formaters::{duration_text, fmt_dur};
use crate::parser::{Summary, SummaryView, Timing, TimingView, timings_view};
use crate::text::{
    byte_len, byte_len_of, chars_of, decimal, join, join_strings, push_all, push_decimal,
    push_str, string_from_chars,
};
use crate::cli::output::optional_duration_text;
use crate::ui::app_state::{AppState, AppStateView, FocusElement};

verus! {

/// Width of the left panel: at least 15, and wide enough for each unit's name (in
/// bytes), its total time and five more.
pub open spec fn panel_width(ts: Seq<TimingView>) -> nat
    decreases ts.len(),
{
    if ts.len() == 0 {
        15
    } else {
        let t = ts.last();
        max_nat(
            panel_width(ts.drop_last()),
            byte_len(t.unit) as nat + duration_text(t.total as nat).len() + 5,
        )
    }
}

/// Whether the sizes of the units fit the arithmetic of the view.
pub open spec fn sizes_fit(ts: Seq<TimingView>) -> bool {
    forall|i: int|
        0 <= i < ts.len() ==> byte_len((#[trigger] ts[i]).unit) + duration_text(ts[i].total as nat).len()
            + 5 <= usize::MAX
}

/// Width of the left panel of the view.
pub fn left_panel_width(timings: &Vec<Timing>) -> (r: usize)
    requires
        sizes_fit(timings_view(timings@)),
    ensures
        r == panel_width(timings_view(timings@)),
{
    let ghost ts = timings_view(timings@);
    let mut max_len: usize = 15;
    let mut i: usize = 0;
    assert(ts.take(0) =~= Seq::<TimingView>::empty());
    while i < timings.len()
        invariant
            i <= timings@.len(),
            ts == timings_view(timings@),
            sizes_fit(ts),
            max_len as nat == panel_width(ts.take(i as int)),
        decreases timings@.len() - i,
    {
        let t = &timings[i];
        assert(ts[i as int] == t@);
        assert(ts.take(i + 1).drop_last() =~= ts.take(i as int));
        let total = fmt_dur(t.total);
        let line_len = byte_len_of(&t.unit) + total.as_str().unicode_len() + 5;
        if max_len < line_len {
            max_len = line_len;
        }
        i = i + 1;
    }
    assert(ts.take(timings@.len() as int) =~= ts);
    max_len
}

/// Width of the unit column: at least 4, and the widest unit name in bytes.
pub open spec fn unit_width(ts: Seq<TimingView>) -> nat
    decreases ts.len(),
{
    if ts.len() == 0 {
        4
    } else {
        max_nat(unit_width(ts.drop_last()), byte_len(ts.last().unit) as nat)
    }
}

/// Width of the unit column of the units table.
pub fn unit_column_width(timings: &Vec<Timing>) -> (r: usize)
    ensures
        r == unit_width(timings_view(timings@)),
{
    let ghost ts = timings_view(timings@);
    let mut longest: usize = 4;
    let mut i: usize = 0;
    assert(ts.take(0) =~= Seq::<TimingView>::empty());
    while i < timings.len()
        invariant
            i <= timings@.len(),
            ts == timings_view(timings@),
            longest as nat == unit_width(ts.take(i as int)),
        decreases timings@.len() - i,
    {
        let t = &timings[i];
        assert(ts[i as int] == t@);
        assert(ts.take(i + 1).drop_last() =~= ts.take(i as int));
        let n = byte_len_of(&t.unit);
        if n > longest {
            longest = n;
        }
        i = i + 1;
    }
    assert(ts.take(timings@.len() as int) =~= ts);
    longest
}

/// The rows of the units table: each unit's name and total time.
pub open spec fn table_rows(ts: Seq<TimingView>) -> Seq<(Seq<char>, Seq<char>)> {
    ts.map_values(|t: TimingView| (t.unit, duration_text(t.total as nat)))
}

/// Pairs of strings as mathematical values.
pub open spec fn pairs_view(v: Seq<(String, String)>) -> Seq<(Seq<char>, Seq<char>)> {
    v.map_values(|p: (String, String)| (p.0@, p.1@))
}

/// The rows of the units table.
pub fn timing_rows(timings: &Vec<Timing>) -> (r: Vec<(String, String)>)
    ensures
        pairs_view(r@) == table_rows(timings_view(timings@)),
{
    let ghost ts = timings_view(timings@);
    let mut rows: Vec<(String, String)> = Vec::new();
    let mut i: usize = 0;
    while i < timings.len()
        invariant
            i <= timings@.len(),
            ts == timings_view(timings@),
            pairs_view(rows@) == table_rows(ts.take(i as int)),
        decreases timings@.len() - i,
    {
        let t = &timings[i];
        assert(ts[i as int] == t@);
        let row = (t.unit.clone(), fmt_dur(t.total));
        let ghost rv = (row.0@, row.1@);
        let ghost before = rows@;
        rows.push(row);
        assert(pairs_view(rows@) =~= pairs_view(before).push(rv));
        assert(table_rows(ts.take(i + 1)) =~= table_rows(ts.take(i as int)).push(rv));
        i = i + 1;
    }
    assert(ts.take(timings@.len() as int) =~= ts);
    rows
}

fn pair(label: &str, value: Vec<char>) -> (r: (String, String))
    ensures
        r.0@ == label@,
        r.1@ == value@,
{
    (string_from_chars(chars_of(label).as_slice()), string_from_chars(value.as_slice()))
}

/// The rows of the summary panel: a label and a value each.
pub open spec fn summary_rows_of(s: SummaryView) -> Seq<(Seq<char>, Seq<char>)> {
    seq![
        ("TARGETS:"@, join(s.targets, ", "@)),
        ("PROFILE:"@, s.profile),
        ("FRESH UNITS:"@, decimal(s.fresh_units as nat)),
        ("DIRTY UNITS:"@, decimal(s.dirty_units as nat)),
        ("TOTAL UNITS:"@, decimal(s.total_units as nat)),
        ("MAX CONCURRENCY:"@, decimal(s.max_concurency as nat) + " "@ + s.concurency_details),
        ("BUILD START:"@, s.build_start),
        ("TOTAL TIME:"@, duration_text(s.total_time as nat)),
        ("RUSTC:"@, join(s.rustc, ", "@)),
    ]
}

fn decimal_chars(n: u32) -> (r: Vec<char>)
    ensures
        r@ == decimal(n as nat),
{
    let mut v: Vec<char> = Vec::new();
    push_decimal(&mut v, n as u128);
    assert(v@ =~= decimal(n as nat));
    v
}

/// The rows of the summary panel.
pub fn summary_rows(summary: &Summary) -> (r: Vec<(String, String)>)
    ensures
        pairs_view(r@) == summary_rows_of(summary@),
{
    let mut rows: Vec<(String, String)> = Vec::new();
    rows.push(pair("TARGETS:", join_strings(&summary.targets, ", ")));
    rows.push(pair("PROFILE:", chars_of(summary.profile.as_str())));
    rows.push(pair("FRESH UNITS:", decimal_chars(summary.fresh_units)));
    rows.push(pair("DIRTY UNITS:", decimal_chars(summary.dirty_units)));
    rows.push(pair("TOTAL UNITS:", decimal_chars(summary.total_units)));
    let mut conc = decimal_chars(summary.max_concurency);
    push_str(&mut conc, " ");
    push_str(&mut conc, summary.concurency_details.as_str());
    rows.push(pair("MAX CONCURRENCY:", conc));
    rows.push(pair("BUILD START:", chars_of(summary.build_start.as_str())));
    let total = fmt_dur(summary.total_time);
    rows.push(pair("TOTAL TIME:", chars_of(total.as_str())));
    rows.push(pair("RUSTC:", join_strings(&summary.rustc, ", ")));
    assert(pairs_view(rows@) =~= summary_rows_of(summary@));
    rows
}

/// The status line at the bottom of the view.
pub open spec fn status_line_of(s: AppStateView) -> Seq<char> {
    match s.focus {
        FocusElement::TimingTable => join(
            seq![
                "Q: Quit"@,
                "\u{25b2}/\u{25bc}: Scroll"@,
                "S: Sort ("@ + order_name(s.config.order) + ")"@,
                "F: Find ("@ + s.search + ")"@,
            ],
            "  |  "@,
        ),
        FocusElement::SearchInput => "Type to filter... <ESC/Enter> to return: "@ + s.search,
    }
}

/// The status line at the bottom of the view: the keys of the table, or the prompt
/// of the search line.
pub fn status_line(state: &AppState) -> (r: String)
    ensures
        r@ == status_line_of(state@),
{
    let search = state.search_text();
    match state.focus {
        FocusElement::TimingTable => {
            let mut parts: Vec<String> = Vec::new();
            parts.push(string_from_chars(chars_of("Q: Quit").as_slice()));
            parts.push(string_from_chars(chars_of("\u{25b2}/\u{25bc}: Scroll").as_slice()));
            let mut sort = chars_of("S: Sort (");
            push_str(&mut sort, state.config.order.to_str());
            push_str(&mut sort, ")");
            parts.push(string_from_chars(sort.as_slice()));
            let mut find = chars_of("F: Find (");
            push_str(&mut find, search);
            push_str(&mut find, ")");
            parts.push(string_from_chars(find.as_slice()));
            let line = join_strings(&parts, "  |  ");
            assert(parts.deep_view() =~= seq![
                "Q: Quit"@,
                "\u{25b2}/\u{25bc}: Scroll"@,
                "S: Sort ("@ + order_name(state@.config.order) + ")"@,
                "F: Find ("@ + state@.search + ")"@,
            ]);
            string_from_chars(line.as_slice())
        },
        FocusElement::SearchInput => {
            let mut line = chars_of("Type to filter... <ESC/Enter> to return: ");
            push_str(&mut line, search);
            string_from_chars(line.as_slice())
        },
    }
}

/// The title and lines of the details panel for a unit.
pub open spec fn details_of(t: TimingView) -> (Seq<char>, Seq<Seq<char>>) {
    (
        t.unit + " details"@,
        seq![
            "FRONTEND: "@ + optional_duration_text(t.frontend) + "\n"@,
            "CODEGEN: "@ + optional_duration_text(t.codegen) + "\n"@,
            "FEATURES: "@ + join(t.features, ", "@) + "\n"@,
        ],
    )
}

fn optional_duration_chars(d: Option<u128>) -> (r: Vec<char>)
    ensures
        r@ == optional_duration_text(d),
{
    match d {
        Some(n) => {
            let s = fmt_dur(n);
            chars_of(s.as_str())
        },
        None => Vec::new(),
    }
}

/// The title and lines of the details panel for a unit: its front-end and
/// code-generation times and its features.
pub fn timing_details(t: &Timing) -> (r: (String, Vec<String>))
    ensures
        r.0@ == details_of(t@).0,
        r.1.deep_view() == details_of(t@).1,
{
    let mut title = chars_of(t.unit.as_str());
    push_str(&mut title, " details");
    let mut front = chars_of("FRONTEND: ");
    push_all(&mut front, optional_duration_chars(t.frontend).as_slice());
    push_str(&mut front, "\n");
    let mut code = chars_of("CODEGEN: ");
    push_all(&mut code, optional_duration_chars(t.codegen).as_slice());
    push_str(&mut code, "\n");
    let mut feats = chars_of("FEATURES: ");
    push_all(&mut feats, join_strings(&t.features, ", ").as_slice());
    push_str(&mut feats, "\n");
    let mut lines: Vec<String> = Vec::new();
    lines.push(string_from_chars(front.as_slice()));
    lines.push(string_from_chars(code.as_slice()));
    lines.push(string_from_chars(feats.as_slice()));
    assert(lines.deep_view() =~= details_of(t@).1);
    (string_from_chars(title.as_slice()), lines)
}

/// Column of the text cursor on the status line: after the 41 characters of the
/// prompt, at the cursor of the search line (the cursor truncated to 16 bits).
pub fn search_cursor_column(area_x: u16, cursor: usize) -> (r: u16)
    requires
        area_x + 41 + (cursor as u16) <= u16::MAX,
    ensures
        r == area_x + 41 + (cursor as u16),
{
    area_x + 41 + (cursor as u16)
}

/// A rectangle of the terminal: its left column, top row, width and height.
#[derive(Debug, Clone, Copy, PartialEq, Eq, Structural)]
pub struct Area {
    pub x: u16,
    pub y: u16,
    pub width: u16,
    pub height: u16,
}

/// The direction in which a layout splits an area.
#[derive(Debug, Clone, Copy, PartialEq, Eq, Structural)]
pub enum Axis {
    Horizontal,
    Vertical,
}

/// A size constraint of one part of a layout, as ratatui's `Constraint` has it.
#[derive(Debug, Clone, Copy, PartialEq, Eq, Structural)]
pub enum Size {
    Max(u16),
    Fill(u16),
    Length(u16),
}

/// The parts into which ratatui's `Layout` splits `area` along `axis` under the
/// constraints `sizes`, in order.
pub uninterp spec fn layout_split(area: Area, axis: Axis, sizes: Seq<Size>) -> Seq<Area>;

/// Splits `area` with ratatui (`Layout::new(direction, constraints).split`).
///
/// Trusted: the contract claims that the parts are a function of the area, the
/// direction and the constraints (named `layout_split`), one part for each
/// constraint, as the source builds one segment per constraint; the sizes that
/// its constraint solver gives are not stated.
#[verifier::external_body]
fn split_area(area: Area, axis: Axis, sizes: &Vec<Size>) -> (r: Vec<Area>)
    ensures
        r@ == layout_split(area, axis, sizes@),
        r@.len() == sizes@.len(),
{
    let direction = match axis {
        Axis::Horizontal => Direction::Horizontal,
        Axis::Vertical => Direction::Vertical,
    };
    let constraints: Vec<Constraint> = sizes.iter().map(|s| match *s {
        Size::Max(n) => Constraint::Max(n),
        Size::Fill(n) => Constraint::Fill(n),
        Size::Length(n) => Constraint::Length(n),
    }).collect();
    let parts = Layout::new(direction, constraints).split(Rect::new(area.x, area.y, area.width, area.height));
    parts.iter().map(|p| Area { x: p.x, y: p.y, width: p.width, height: p.height }).collect()
}

/// The smallest area holding both `a` and `b` (ratatui's `Rect::union`, with its
/// right and bottom edges saturating at the largest `u16`).
pub open spec fn union_area(a: Area, b: Area) -> Area {
    let x1 = if a.x <= b.x { a.x } else { b.x };
    let y1 = if a.y <= b.y { a.y } else { b.y };
    let ra = if a.x + a.width <= u16::MAX { (a.x + a.width) as u16 } else { u16::MAX };
    let rb = if b.x + b.width <= u16::MAX { (b.x + b.width) as u16 } else { u16::MAX };
    let ba = if a.y + a.height <= u16::MAX { (a.y + a.height) as u16 } else { u16::MAX };
    let bb = if b.y + b.height <= u16::MAX { (b.y + b.height) as u16 } else { u16::MAX };
    let x2 = if ra >= rb { ra } else { rb };
    let y2 = if ba >= bb { ba } else { bb };
    Area {
        x: x1,
        y: y1,
        width: if x2 >= x1 { (x2 - x1) as u16 } else { 0 },
        height: if y2 >= y1 { (y2 - y1) as u16 } else { 0 },
    }
}

/// The smallest area holding both `a` and `b`.
pub fn union(a: Area, b: Area) -> (r: Area)
    ensures
        r == union_area(a, b),
{
    let x1 = if a.x <= b.x { a.x } else { b.x };
    let y1 = if a.y <= b.y { a.y } else { b.y };
    let ra = a.x.saturating_add(a.width);
    let rb = b.x.saturating_add(b.width);
    let ba = a.y.saturating_add(a.height);
    let bb = b.y.saturating_add(b.height);
    let x2 = if ra >= rb { ra } else { rb };
    let y2 = if ba >= bb { ba } else { bb };
    Area { x: x1, y: y1, width: x2.saturating_sub(x1), height: y2.saturating_sub(y1) }
}

/// The areas of the interactive view.
#[derive(Debug, Clone, Copy, PartialEq, Eq, Structural)]
pub struct ViewAreas {
    /// The units table, on the left.
    pub timings: Area,
    /// The summary panel, top right.
    pub summary: Area,
    /// The details panel, right.
    pub details: Area,
    /// The status line along the bottom.
    pub status: Area,
}

/// How the view lays out `frame`: a left column at most `panel_width` wide (cut to
/// 16 bits) beside the rest; on the left the table above a one-row line; on the
/// right an eleven-row summary, the details, and a one-row line; the two one-row
/// lines together make the status line.
pub open spec fn view_areas_of(frame: Area, panel_width: usize) -> ViewAreas {
    let columns = layout_split(frame, Axis::Horizontal, seq![Size::Max(panel_width as u16), Size::Fill(1)]);
    let left = layout_split(columns[0], Axis::Vertical, seq![Size::Fill(1), Size::Length(1)]);
    let right = layout_split(columns[1], Axis::Vertical, seq![Size::Length(11), Size::Fill(1), Size::Length(1)]);
    ViewAreas { timings: left[0], summary: right[0], details: right[1], status: union_area(left[1], right[2]) }
}

/// The areas of the interactive view in `frame`, with the left column at most
/// `panel_width` wide.
pub fn view_areas(frame: Area, panel_width: usize) -> (r: ViewAreas)
    ensures
        r == view_areas_of(frame, panel_width),
{
    let column_sizes = vec![Size::Max(panel_width as u16), Size::Fill(1)];
    assert(column_sizes@ =~= seq![Size::Max(panel_width as u16), Size::Fill(1)]);
    let columns = split_area(frame, Axis::Horizontal, &column_sizes);
    let left_sizes = vec![Size::Fill(1), Size::Length(1)];
    assert(left_sizes@ =~= seq![Size::Fill(1), Size::Length(1)]);
    let left = split_area(columns[0], Axis::Vertical, &left_sizes);
    let right_sizes = vec![Size::Length(11), Size::Fill(1), Size::Length(1)];
    assert(right_sizes@ =~= seq![Size::Length(11), Size::Fill(1), Size::Length(1)]);
    let right = split_area(columns[1], Axis::Vertical, &right_sizes);
    ViewAreas { timings: left[0], summary: right[0], details: right[1], status: union(left[1], right[2]) }
}

} // verus!
