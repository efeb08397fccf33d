//! The timing report: its model, and how it is read from the report's tables.
use vstd::prelude::*;
use crate::text::{
    chars_of, clone_strings, concat_strings,
    find_char, find_char_from, join, join_strings, lines, lines_chars, parse_unsigned,
    parse_unsigned_chars, push_decimal, push_str, slice_chars, split, split_chars,
    string_from_chars, strings_from, trim, trim_chars, trim_end_matches, trim_end_matches_chars,
    ends_with, ends_with_chars, push_piece, decimal,
};

verus! {

/// The report: the summary table and the units.
#[derive(Debug)]
pub struct Summary {
    /// Build targets.
    pub targets: Vec<String>,
    /// Build profile.
    pub profile: String,
    /// Number of fresh units.
    pub fresh_units: u32,
    /// Number of dirty units.
    pub dirty_units: u32,
    /// Number of units.
    pub total_units: u32,
    /// Largest number of units built at once.
    pub max_concurency: u32,
    /// What follows that number in the report.
    pub concurency_details: String,
    /// Start of the build, as UTC date and time text.
    pub build_start: String,
    /// Total build time, in nanoseconds.
    pub total_time: u128,
    /// Compiler version lines.
    pub rustc: Vec<String>,
    /// The units.
    pub timings: Vec<Timing>,
}

/// A report as mathematical values.
pub struct SummaryView {
    pub targets: Seq<Seq<char>>,
    pub profile: Seq<char>,
    pub fresh_units: u32,
    pub dirty_units: u32,
    pub total_units: u32,
    pub max_concurency: u32,
    pub concurency_details: Seq<char>,
    pub build_start: Seq<char>,
    pub total_time: u128,
    pub rustc: Seq<Seq<char>>,
    pub timings: Seq<TimingView>,
}

impl View for Summary {
    type V = SummaryView;

    open spec fn view(&self) -> SummaryView {
        SummaryView {
            targets: self.targets.deep_view(),
            profile: self.profile@,
            fresh_units: self.fresh_units,
            dirty_units: self.dirty_units,
            total_units: self.total_units,
            max_concurency: self.max_concurency,
            concurency_details: self.concurency_details@,
            build_start: self.build_start@,
            total_time: self.total_time,
            rustc: self.rustc.deep_view(),
            timings: timings_view(self.timings@),
        }
    }
}

/// One compilation unit of the report.
#[derive(Debug)]
pub struct Timing {
    /// Its number in the report.
    pub id: u32,
    /// Name of the unit, such as `syn v2.0.118`.
    pub unit: String,
    /// Total compilation time, in nanoseconds.
    pub total: u128,
    /// Front-end time, in nanoseconds, where the report gives one.
    pub frontend: Option<u128>,
    /// Code-generation time, in nanoseconds, where the report gives one.
    pub codegen: Option<u128>,
    /// Enabled features.
    pub features: Vec<String>,
}

/// A unit as mathematical values.
pub struct TimingView {
    pub id: u32,
    pub unit: Seq<char>,
    pub total: u128,
    pub frontend: Option<u128>,
    pub codegen: Option<u128>,
    pub features: Seq<Seq<char>>,
}

impl View for Timing {
    type V = TimingView;

    open spec fn view(&self) -> TimingView {
        TimingView {
            id: self.id,
            unit: self.unit@,
            total: self.total,
            frontend: self.frontend,
            codegen: self.codegen,
            features: self.features.deep_view(),
        }
    }
}

impl Timing {
    /// A copy of this unit.
    pub fn duplicate(&self) -> (r: Timing)
        ensures
            r@ == self@,
    {
        Timing {
            id: self.id,
            unit: self.unit.clone(),
            total: self.total,
            frontend: self.frontend,
            codegen: self.codegen,
            features: clone_strings(&self.features),
        }
    }
}

impl Clone for Timing {
    fn clone(&self) -> (r: Timing)
        ensures
            r@ == self@,
    {
        self.duplicate()
    }
}

/// The views of a list of units.
pub open spec fn timings_view(v: Seq<Timing>) -> Seq<TimingView> {
    v.map_values(|t: Timing| t@)
}

/// Copies of a list of units.
pub fn clone_timings(v: &Vec<Timing>) -> (r: Vec<Timing>)
    ensures
        timings_view(r@) == timings_view(v@),
{
    let mut r: Vec<Timing> = Vec::new();
    let mut i: usize = 0;
    while i < v.len()
        invariant
            i <= v@.len(),
            timings_view(r@) == timings_view(v@).take(i as int),
        decreases v@.len() - i,
    {
        let t = v[i].duplicate();
        let ghost before = r@;
        let ghost tv = t@;
        r.push(t);
        assert(r@ == before.push(r@.last()));
        assert(timings_view(r@) =~= timings_view(before).push(tv));
        assert(timings_view(r@) =~= timings_view(v@).take(i + 1));
        i = i + 1;
    }
    assert(timings_view(v@).take(v@.len() as int) =~= timings_view(v@));
    r
}


/// Why a report could not be read.
#[derive(Debug)]
pub enum ReportError {
    /// A CSS selector of the reader did not parse.
    InvalidSelector,
    /// The document has fewer than three tables; the number found.
    TooFewTables(usize),
    /// The summary table has fewer than nine values.
    SummaryTooShort,
    /// A time cell holds no `s`; the cell.
    InvalidValue(String),
    /// The seconds of a time cell are not a number; the text before the `s`.
    NotANumber(String),
    /// The seconds of a time are a number that gives no duration (negative, not
    /// finite, or too large); the text of the seconds.
    OutOfRange(String),
}

/// A reading error as mathematical values.
pub enum ReportErrorView {
    InvalidSelector,
    TooFewTables(usize),
    SummaryTooShort,
    InvalidValue(Seq<char>),
    NotANumber(Seq<char>),
    OutOfRange(Seq<char>),
}

impl View for ReportError {
    type V = ReportErrorView;

    open spec fn view(&self) -> ReportErrorView {
        match self {
            ReportError::InvalidSelector => ReportErrorView::InvalidSelector,
            ReportError::TooFewTables(n) => ReportErrorView::TooFewTables(*n),
            ReportError::SummaryTooShort => ReportErrorView::SummaryTooShort,
            ReportError::InvalidValue(s) => ReportErrorView::InvalidValue(s@),
            ReportError::NotANumber(s) => ReportErrorView::NotANumber(s@),
            ReportError::OutOfRange(s) => ReportErrorView::OutOfRange(s@),
        }
    }
}

/// The message shown for a reading error.
pub open spec fn report_error_message(e: ReportErrorView) -> Seq<char> {
    match e {
        ReportErrorView::InvalidSelector => "invalid selector"@,
        ReportErrorView::TooFewTables(n) => "Provided invalid timings report: Expected at least 3 tables, found "@
            + decimal(n as nat),
        ReportErrorView::SummaryTooShort => "Summary table has insufficient data fields."@,
        ReportErrorView::InvalidValue(s) => "invalid value "@ + s,
        ReportErrorView::NotANumber(s) => "could not parse "@ + s + " into f32"@,
        ReportErrorView::OutOfRange(s) => "cannot convert float seconds to Duration: "@ + s,
    }
}

impl ReportError {
    /// The message shown for this error.
    pub fn message(&self) -> (r: String)
        ensures
            r@ == report_error_message(self@),
    {
        let mut v: Vec<char> = Vec::new();
        match self {
            ReportError::InvalidSelector => push_str(&mut v, "invalid selector"),
            ReportError::TooFewTables(n) => {
                push_str(&mut v, "Provided invalid timings report: Expected at least 3 tables, found ");
                push_decimal(&mut v, *n as u128);
            },
            ReportError::SummaryTooShort => push_str(
                &mut v,
                "Summary table has insufficient data fields.",
            ),
            ReportError::InvalidValue(s) => {
                push_str(&mut v, "invalid value ");
                push_str(&mut v, s.as_str());
            },
            ReportError::NotANumber(s) => {
                push_str(&mut v, "could not parse ");
                push_str(&mut v, s.as_str());
                push_str(&mut v, " into f32");
            },
            ReportError::OutOfRange(s) => {
                push_str(&mut v, "cannot convert float seconds to Duration: ");
                push_str(&mut v, s.as_str());
            },
        }
        string_from_chars(v.as_slice())
    }
}

/// How the text of some seconds reads as a duration, as std reads it: the text
/// parsed as an `f32` (`str::parse`), then turned into a `Duration`
/// (`Duration::try_from_secs_f32`).  The floating-point reading is done outside
/// this library, which takes its outcome.
#[derive(Debug, Clone, Copy, PartialEq, Eq, Structural)]
pub enum TimeReading {
    /// The duration, in nanoseconds.
    Nanos(u128),
    /// The text does not parse as an `f32`.
    NotANumber,
    /// The number gives no duration: negative, not finite, or too large (where
    /// `Duration::from_secs_f32` panics).
    OutOfRange,
}

/// The reading that `rs` gives for the text `t`: that of the first pair whose
/// text is `t`; a text with none reads as no number.
pub open spec fn reading_of(rs: Seq<(Seq<char>, TimeReading)>, t: Seq<char>) -> TimeReading
    decreases rs.len(),
{
    if rs.len() == 0 {
        TimeReading::NotANumber
    } else if rs[0].0 == t {
        rs[0].1
    } else {
        reading_of(rs.drop_first(), t)
    }
}

/// Readings as mathematical values.
pub open spec fn readings_view(v: Seq<(String, TimeReading)>) -> Seq<(Seq<char>, TimeReading)> {
    v.map_values(|p: (String, TimeReading)| (p.0@, p.1))
}

/// The reading that `rs` gives for the text `t`.
pub fn read_seconds(rs: &Vec<(String, TimeReading)>, t: &[char]) -> (r: TimeReading)
    ensures
        r == reading_of(readings_view(rs@), t@),
{
    let ghost v = readings_view(rs@);
    let mut i: usize = 0;
    assert(v.skip(0) =~= v);
    while i < rs.len()
        invariant
            i <= rs@.len(),
            v == readings_view(rs@),
            reading_of(v, t@) == reading_of(v.skip(i as int), t@),
        decreases rs@.len() - i,
    {
        let ghost rest = v.skip(i as int);
        assert(rest[0] == (rs@[i as int].0@, rs@[i as int].1));
        assert(rest.drop_first() =~= v.skip(i + 1));
        let text = chars_of(rs[i].0.as_str());
        if crate::text::chars_equal(text.as_slice(), t) {
            return rs[i].1;
        }
        i = i + 1;
    }
    assert(v.skip(i as int) =~= Seq::<(Seq<char>, TimeReading)>::empty());
    TimeReading::NotANumber
}

/// The text of the seconds of a time cell: what comes before its first `s`.
pub open spec fn seconds_text(cell: Seq<char>) -> Option<Seq<char>> {
    match find_char(cell, 's') {
        Some(k) => Some(cell.take(k)),
        None => None,
    }
}

/// The time that a time cell such as `12.3s` gives, in nanoseconds: the cell must
/// hold an `s`, and the text before the first `s` must read as a duration.
pub open spec fn time_value(cell: Seq<char>, rs: Seq<(Seq<char>, TimeReading)>) -> Result<u128, ReportErrorView> {
    match seconds_text(cell) {
        None => Err(ReportErrorView::InvalidValue(cell)),
        Some(clean) => match reading_of(rs, clean) {
            TimeReading::Nanos(n) => Ok(n),
            TimeReading::NotANumber => Err(ReportErrorView::NotANumber(clean)),
            TimeReading::OutOfRange => Err(ReportErrorView::OutOfRange(clean)),
        },
    }
}

/// A time result as mathematical values.
pub open spec fn time_result_view(r: Result<u128, ReportError>) -> Result<u128, ReportErrorView> {
    match r {
        Ok(n) => Ok(n),
        Err(e) => Err(e@),
    }
}

/// Reads a time cell such as `12.3s` as nanoseconds, with the readings `rs` of
/// the seconds.
pub fn parse_time(cell: &[char], rs: &Vec<(String, TimeReading)>) -> (r: Result<u128, ReportError>)
    ensures
        time_result_view(r) == time_value(cell@, readings_view(rs@)),
{
    match find_char_from(cell, 0, 's') {
        None => {
            assert(cell@.subrange(0, cell@.len() as int) =~= cell@);
            Err(ReportError::InvalidValue(string_from_chars(cell)))
        },
        Some(k) => {
            assert(cell@.subrange(0, cell@.len() as int) =~= cell@);
            let clean = slice_chars(cell, 0, k);
            match read_seconds(rs, clean.as_slice()) {
                TimeReading::Nanos(n) => Ok(n),
                TimeReading::NotANumber => Err(ReportError::NotANumber(string_from_chars(clean.as_slice()))),
                TimeReading::OutOfRange => Err(ReportError::OutOfRange(string_from_chars(clean.as_slice()))),
            }
        },
    }
}

/// The cells of one row of the units table: each cell's text pieces joined and trimmed.
pub open spec fn row_cells(row: Seq<Seq<Seq<char>>>) -> Seq<Seq<char>> {
    row.map_values(|pieces: Seq<Seq<char>>| trim(pieces.flatten()))
}

/// An optional time column of a row: absent when the cell is missing or empty,
/// and when it does not read as a time; an error where its seconds are a number
/// that gives no duration.
pub open spec fn optional_time(cells: Seq<Seq<char>>, i: int, rs: Seq<(Seq<char>, TimeReading)>) -> Result<Option<u128>, ReportErrorView> {
    if i < cells.len() && cells[i].len() > 0 {
        match time_value(cells[i], rs) {
            Ok(n) => Ok(Some(n)),
            Err(ReportErrorView::OutOfRange(t)) => Err(ReportErrorView::OutOfRange(t)),
            Err(_) => Ok(None),
        }
    } else {
        Ok(None)
    }
}

/// What a row of the units table gives.
pub enum RowOutcome {
    /// The row is a heading or has no time: it gives no unit.
    Skipped,
    /// The row gives a unit.
    Unit(TimingView),
    /// The row's total time does not read as a time, or one of its times is a
    /// number that gives no duration.
    Failed(ReportErrorView),
}

/// What a row of the units table, given by its cell texts, gives, with the
/// readings `rs` of the seconds: rows with no cells, heading rows (first cell
/// ending in `Unit`) and rows with fewer than three cells are skipped; the first
/// cell gives the number (0 unless it reads as one after dropping trailing dots),
/// the second the name, the third the total time, the fourth and fifth the
/// optional front-end and code-generation times, and the sixth the features, split
/// at commas and trimmed.  The times are read in that order, and the first that
/// fails decides the error.
pub open spec fn row_outcome(cells: Seq<Seq<char>>, rs: Seq<(Seq<char>, TimeReading)>) -> RowOutcome {
    if cells.len() == 0 || ends_with(cells[0], "Unit"@) || cells.len() < 3 {
        RowOutcome::Skipped
    } else {
        match time_value(cells[2], rs) {
            Err(e) => RowOutcome::Failed(e),
            Ok(total) => match optional_time(cells, 3, rs) {
                Err(e) => RowOutcome::Failed(e),
                Ok(frontend) => match optional_time(cells, 4, rs) {
                    Err(e) => RowOutcome::Failed(e),
                    Ok(codegen) => RowOutcome::Unit(
                        TimingView {
                            id: match parse_unsigned(trim_end_matches(cells[0], '.'), u32::MAX as nat) {
                                Some(n) => n as u32,
                                None => 0,
                            },
                            unit: cells[1],
                            total,
                            frontend,
                            codegen,
                            features: if cells.len() > 5 {
                                split(cells[5], ',').map_values(|f: Seq<char>| trim(f))
                            } else {
                                Seq::empty()
                            },
                        },
                    ),
                },
            },
        }
    }
}

/// The units that the rows of the units table give, in order, or the error of
/// the first row that fails.
pub open spec fn units_of_rows(rows: Seq<Seq<Seq<Seq<char>>>>, rs: Seq<(Seq<char>, TimeReading)>) -> Result<Seq<TimingView>, ReportErrorView>
    decreases rows.len(),
{
    if rows.len() == 0 {
        Ok(Seq::empty())
    } else {
        match row_outcome(row_cells(rows[0]), rs) {
            RowOutcome::Skipped => units_of_rows(rows.drop_first(), rs),
            RowOutcome::Failed(e) => Err(e),
            RowOutcome::Unit(t) => match units_of_rows(rows.drop_first(), rs) {
                Ok(ts) => Ok(seq![t] + ts),
                Err(e) => Err(e),
            },
        }
    }
}

/// A row result as mathematical values.
pub open spec fn row_result_view(r: Option<Result<Timing, ReportError>>) -> RowOutcome {
    match r {
        None => RowOutcome::Skipped,
        Some(Ok(t)) => RowOutcome::Unit(t@),
        Some(Err(e)) => RowOutcome::Failed(e@),
    }
}

/// An optional-time result as mathematical values.
pub open spec fn optional_result_view(r: Result<Option<u128>, ReportError>) -> Result<Option<u128>, ReportErrorView> {
    match r {
        Ok(o) => Ok(o),
        Err(e) => Err(e@),
    }
}

fn optional_time_of(cells: &Vec<Vec<char>>, i: usize, rs: &Vec<(String, TimeReading)>) -> (r: Result<Option<u128>, ReportError>)
    ensures
        optional_result_view(r) == optional_time(cells.deep_view(), i as int, readings_view(rs@)),
{
    let ghost cv = cells.deep_view();
    if i < cells.len() && cells[i].len() > 0 {
        assert(cv[i as int] == cells@[i as int]@);
        match parse_time(cells[i].as_slice(), rs) {
            Ok(n) => Ok(Some(n)),
            Err(ReportError::OutOfRange(t)) => Err(ReportError::OutOfRange(t)),
            Err(_) => Ok(None),
        }
    } else {
        Ok(None)
    }
}

/// The features of a features cell: split at commas, each trimmed.
pub fn features_of(cell: &[char]) -> (r: Vec<String>)
    ensures
        r.deep_view() == split(cell@, ',').map_values(|f: Seq<char>| trim(f)),
{
    let pieces = split_chars(cell, ',');
    let ghost pv = pieces.deep_view();
    let mut trimmed: Vec<Vec<char>> = Vec::new();
    let mut i: usize = 0;
    while i < pieces.len()
        invariant
            i <= pieces@.len(),
            pv == pieces.deep_view(),
            trimmed.deep_view() == pv.take(i as int).map_values(|f: Seq<char>| trim(f)),
        decreases pieces@.len() - i,
    {
        let t = trim_chars(pieces[i].as_slice());
        assert(pv[i as int] == pieces@[i as int]@);
        push_piece(&mut trimmed, t);
        assert(pv.take(i + 1).map_values(|f: Seq<char>| trim(f)) =~= pv.take(i as int).map_values(
            |f: Seq<char>| trim(f),
        ).push(trim(pv[i as int])));
        i = i + 1;
    }
    assert(pv.take(pieces@.len() as int) =~= pv);
    strings_from(&trimmed)
}

/// What a row of the units table, given by its cell texts, gives: `None` for a
/// skipped row, else the unit or the error.
pub fn timing_of_row(cells: &Vec<Vec<char>>, rs: &Vec<(String, TimeReading)>) -> (r: Option<Result<Timing, ReportError>>)
    ensures
        row_result_view(r) == row_outcome(cells.deep_view(), readings_view(rs@)),
{
    let ghost cv = cells.deep_view();
    if cells.len() == 0 {
        return None;
    }
    assert(cv[0] == cells@[0]@);
    let unit_heading = chars_of("Unit");
    if ends_with_chars(cells[0].as_slice(), unit_heading.as_slice()) || cells.len() < 3 {
        return None;
    }
    assert(cv[1] == cells@[1]@);
    assert(cv[2] == cells@[2]@);
    let total = match parse_time(cells[2].as_slice(), rs) {
        Ok(n) => n,
        Err(e) => {
            return Some(Err(e));
        },
    };
    let frontend = match optional_time_of(cells, 3, rs) {
        Ok(o) => o,
        Err(e) => {
            return Some(Err(e));
        },
    };
    let codegen = match optional_time_of(cells, 4, rs) {
        Ok(o) => o,
        Err(e) => {
            return Some(Err(e));
        },
    };
    let id_text = trim_end_matches_chars(cells[0].as_slice(), '.');
    let id: u32 = match parse_unsigned_chars(id_text.as_slice(), 4294967295u64) {
        Some(n) => n as u32,
        None => 0,
    };
    let unit = string_from_chars(cells[1].as_slice());
    let features = if cells.len() > 5 {
        assert(cv[5] == cells@[5]@);
        features_of(cells[5].as_slice())
    } else {
        let v: Vec<String> = Vec::new();
        assert(v.deep_view() =~= Seq::<Seq<char>>::empty());
        v
    };
    let t = Timing { id, unit, total, frontend, codegen, features };
    Some(Ok(t))
}

/// The cell texts of a row: each cell's text pieces joined and trimmed.
pub fn cells_of_row(row: &Vec<Vec<String>>) -> (r: Vec<Vec<char>>)
    ensures
        r.deep_view() == row_cells(row.deep_view()),
{
    let ghost rv = row.deep_view();
    let mut r: Vec<Vec<char>> = Vec::new();
    let mut i: usize = 0;
    while i < row.len()
        invariant
            i <= row@.len(),
            rv == row.deep_view(),
            r.deep_view() == row_cells(rv.take(i as int)),
        decreases row@.len() - i,
    {
        let joined = concat_strings(&row[i]);
        let t = trim_chars(joined.as_slice());
        assert(rv[i as int] == row@[i as int].deep_view());
        push_piece(&mut r, t);
        assert(row_cells(rv.take(i + 1)) =~= row_cells(rv.take(i as int)).push(
            trim(rv[i as int].flatten()),
        ));
        i = i + 1;
    }
    assert(rv.take(row@.len() as int) =~= rv);
    r
}

/// Units and error, prefixed by units already read.
pub open spec fn after_units(
    done: Seq<TimingView>,
    rest: Result<Seq<TimingView>, ReportErrorView>,
) -> Result<Seq<TimingView>, ReportErrorView> {
    match rest {
        Ok(ts) => Ok(done + ts),
        Err(e) => Err(e),
    }
}

/// A units result as mathematical values.
pub open spec fn units_result_view(r: Result<Vec<Timing>, ReportError>) -> Result<Seq<TimingView>, ReportErrorView> {
    match r {
        Ok(v) => Ok(timings_view(v@)),
        Err(e) => Err(e@),
    }
}

/// The units that the rows of the units table give, in order, or the error of
/// the first row that fails.
pub fn units_from_rows(rows: &Vec<Vec<Vec<String>>>, rs: &Vec<(String, TimeReading)>) -> (r: Result<Vec<Timing>, ReportError>)
    ensures
        units_result_view(r) == units_of_rows(rows.deep_view(), readings_view(rs@)),
{
    let ghost rv = rows.deep_view();
    let ghost rdv = readings_view(rs@);
    let mut done: Vec<Timing> = Vec::new();
    let mut i: usize = 0;
    assert(rv.skip(0) =~= rv);
    assert(timings_view(done@) =~= Seq::<TimingView>::empty());
    while i < rows.len()
        invariant
            i <= rows@.len(),
            rv == rows.deep_view(),
            rdv == readings_view(rs@),
            units_of_rows(rv, rdv) == after_units(timings_view(done@), units_of_rows(rv.skip(i as int), rdv)),
        decreases rows@.len() - i,
    {
        let cells = cells_of_row(&rows[i]);
        assert(rv[i as int] == rows@[i as int].deep_view());
        assert(rv.skip(i as int).drop_first() =~= rv.skip(i + 1));
        assert(rv.skip(i as int)[0] == rv[i as int]);
        match timing_of_row(&cells, rs) {
            None => {},
            Some(Err(e)) => {
                return Err(e);
            },
            Some(Ok(t)) => {
                let ghost before = timings_view(done@);
                let ghost tv = t@;
                done.push(t);
                assert(timings_view(done@) =~= before.push(tv));
                assert(before.push(tv) =~= before + seq![tv]);
                proof {
                    match units_of_rows(rv.skip(i + 1), rdv) {
                        Ok(ts) => {
                            assert(before + (seq![tv] + ts) =~= before.push(tv) + ts);
                        },
                        Err(_) => {},
                    }
                }
            },
        }
        i = i + 1;
    }
    assert(rv.skip(rows@.len() as int) =~= Seq::<Seq<Seq<Seq<char>>>>::empty());
    assert(timings_view(done@) + Seq::<TimingView>::empty() =~= timings_view(done@));
    Ok(done)
}

/// The values of the summary table: its cells in order, row by row, taking every
/// second cell (the first of each pair is a label), each cell's text pieces joined
/// with line breaks.
pub open spec fn summary_values(tables: Seq<Seq<Seq<Seq<Seq<char>>>>>) -> Seq<Seq<char>> {
    let cells = tables[0].flatten();
    Seq::new(cells.len() / 2, |i: int| join(cells[2 * i + 1], "\n"@))
}

/// Every second cell of `cells`, joined with line breaks.
pub open spec fn odd_cells(cells: Seq<Seq<Seq<char>>>) -> Seq<Seq<char>> {
    Seq::new(cells.len() / 2, |i: int| join(cells[2 * i + 1], "\n"@))
}

/// The values of the summary table.
pub fn summary_values_of(tables: &Vec<Vec<Vec<Vec<String>>>>) -> (r: Vec<String>)
    requires
        tables@.len() > 0,
    ensures
        r.deep_view() == summary_values(tables.deep_view()),
{
    let ghost rows = tables.deep_view()[0];
    let table = &tables[0];
    assert(rows == table.deep_view());
    let mut values: Vec<Vec<char>> = Vec::new();
    let mut odd: bool = false;
    let ghost mut done: Seq<Seq<Seq<char>>> = Seq::empty();
    let mut r: usize = 0;
    assert(rows.take(0).flatten() =~= Seq::<Seq<Seq<char>>>::empty());
    assert(values.deep_view() =~= odd_cells(done));
    while r < table.len()
        invariant
            r <= rows.len(),
            rows == table.deep_view(),
            done == rows.take(r as int).flatten(),
            odd == (done.len() % 2 == 1),
            values.deep_view() == odd_cells(done),
        decreases rows.len() - r,
    {
        let row = &table[r];
        let ghost cells = rows[r as int];
        assert(cells == row.deep_view());
        let ghost start = done;
        let mut c: usize = 0;
        assert(cells.take(0) =~= Seq::<Seq<Seq<char>>>::empty());
        assert(start + cells.take(0) =~= start);
        while c < row.len()
            invariant
                c <= cells.len(),
                cells == row.deep_view(),
                done == start + cells.take(c as int),
                odd == (done.len() % 2 == 1),
                values.deep_view() == odd_cells(done),
            decreases cells.len() - c,
        {
            let ghost before = done;
            proof {
                done = done.push(cells[c as int]);
            }
            assert(start + cells.take(c + 1) =~= done);
            assert(cells[c as int] == row@[c as int].deep_view());
            if odd {
                let v = join_strings(&row[c], "\n");
                push_piece(&mut values, v);
                assert(odd_cells(done) =~= odd_cells(before).push(join(cells[c as int], "\n"@)));
            } else {
                assert(odd_cells(done) =~= odd_cells(before));
            }
            odd = !odd;
            c = c + 1;
        }
        assert(cells.take(cells.len() as int) =~= cells);
        assert(rows.take(r + 1) =~= rows.take(r as int).push(cells));
        proof {
            rows.take(r as int).lemma_flatten_push(cells);
        }
        r = r + 1;
    }
    assert(rows.take(rows.len() as int) =~= rows);
    strings_from(&values)
}

/// An unsigned 32-bit number read as std's `FromStr` reads it, or 0.
pub open spec fn number_or_zero(s: Seq<char>) -> u32 {
    match parse_unsigned(s, u32::MAX as nat) {
        Some(n) => n as u32,
        None => 0,
    }
}

fn number_or_zero_of(s: &[char]) -> (r: u32)
    ensures
        r == number_or_zero(s@),
{
    match parse_unsigned_chars(s, 4294967295u64) {
        Some(n) => n as u32,
        None => 0,
    }
}

/// The seconds text of the summary's total-time value: its first word (or the
/// whole value, where it has no space, as in `10.5s`) without trailing `s`.
pub open spec fn total_seconds_text(s: Seq<char>) -> Seq<char> {
    trim_end_matches(before_space(s), 's')
}

/// The total time that the summary's total-time value gives: the reading of its
/// seconds text, 0 where that is not a number, and an error where it is a number
/// that gives no duration.
pub open spec fn total_time_value(s: Seq<char>, rs: Seq<(Seq<char>, TimeReading)>) -> Result<u128, ReportErrorView> {
    match reading_of(rs, total_seconds_text(s)) {
        TimeReading::Nanos(n) => Ok(n),
        TimeReading::NotANumber => Ok(0),
        TimeReading::OutOfRange => Err(ReportErrorView::OutOfRange(total_seconds_text(s))),
    }
}

/// The text before the first space, or all of `s`.
pub open spec fn before_space(s: Seq<char>) -> Seq<char> {
    match find_char(s, ' ') {
        Some(k) => s.take(k),
        None => s,
    }
}

/// The text after the first space, or nothing.
pub open spec fn after_space(s: Seq<char>) -> Seq<char> {
    match find_char(s, ' ') {
        Some(k) => s.skip(k + 1),
        None => Seq::empty(),
    }
}

/// The report that the tables of the document give, with `build_start` as the
/// start of the build and `rs` as the readings of the seconds: at least three
/// tables, at least nine summary values (targets, profile, fresh, dirty and total
/// units, concurrency, build start, total time, compiler), then the total time,
/// then the units of the third table.
pub open spec fn report_from_tables(
    tables: Seq<Seq<Seq<Seq<Seq<char>>>>>,
    build_start: Seq<char>,
    rs: Seq<(Seq<char>, TimeReading)>,
) -> Result<SummaryView, ReportErrorView> {
    if tables.len() < 3 {
        Err(ReportErrorView::TooFewTables(tables.len() as usize))
    } else if summary_values(tables).len() < 9 {
        Err(ReportErrorView::SummaryTooShort)
    } else {
        let v = summary_values(tables);
        match total_time_value(v[7], rs) {
            Err(e) => Err(e),
            Ok(total_time) => match units_of_rows(tables[2], rs) {
                Err(e) => Err(e),
                Ok(ts) => Ok(
                    SummaryView {
                        targets: lines(v[0]),
                        profile: v[1],
                        fresh_units: number_or_zero(v[2]),
                        dirty_units: number_or_zero(v[3]),
                        total_units: number_or_zero(v[4]),
                        max_concurency: number_or_zero(before_space(v[5])),
                        concurency_details: after_space(v[5]),
                        build_start,
                        total_time,
                        rustc: lines(v[8]),
                        timings: ts,
                    },
                ),
            },
        }
    }
}

/// A report result as mathematical values.
pub open spec fn report_result_view(r: Result<Summary, ReportError>) -> Result<SummaryView, ReportErrorView> {
    match r {
        Ok(s) => Ok(s@),
        Err(e) => Err(e@),
    }
}

/// The report that the tables of the document give, with `build_start` as the
/// start of the build and `rs` as the readings of the seconds.
pub fn summary_from_tables(
    tables: &Vec<Vec<Vec<Vec<String>>>>,
    build_start: String,
    rs: &Vec<(String, TimeReading)>,
) -> (r: Result<Summary, ReportError>)
    ensures
        report_result_view(r) == report_from_tables(tables.deep_view(), build_start@, readings_view(rs@)),
{
    let ghost tv = tables.deep_view();
    if tables.len() < 3 {
        return Err(ReportError::TooFewTables(tables.len()));
    }
    let values = summary_values_of(tables);
    if values.len() < 9 {
        return Err(ReportError::SummaryTooShort);
    }
    let ghost v = summary_values(tv);
    assert(tv[2] == tables@[2].deep_view());
    let mut value_chars: Vec<Vec<char>> = Vec::new();
    let mut i: usize = 0;
    while i < 9
        invariant
            i <= 9,
            values@.len() >= 9,
            v == values.deep_view(),
            value_chars@.len() == i,
            forall|k: int| 0 <= k < i ==> (#[trigger] value_chars@[k])@ == v[k],
        decreases 9 - i,
    {
        let c = chars_of(values[i].as_str());
        assert(v[i as int] == values@[i as int]@);
        value_chars.push(c);
        i = i + 1;
    }
    let targets = strings_from(&lines_chars(value_chars[0].as_slice()));
    let profile = string_from_chars(value_chars[1].as_slice());
    let fresh_units = number_or_zero_of(value_chars[2].as_slice());
    let dirty_units = number_or_zero_of(value_chars[3].as_slice());
    let total_units = number_or_zero_of(value_chars[4].as_slice());
    let conc = &value_chars[5];
    let conc_len = conc.len();
    assert(conc@.subrange(0, conc@.len() as int) =~= conc@);
    proof {
        crate::text::lemma_find_char_found(conc@, ' ');
    }
    let (max_text, details_text) = match find_char_from(conc.as_slice(), 0, ' ') {
        Some(k) => (slice_chars(conc.as_slice(), 0, k), slice_chars(conc.as_slice(), k + 1, conc.len())),
        None => (conc.clone(), Vec::new()),
    };
    assert(max_text@ =~= before_space(v[5]));
    assert(details_text@ =~= after_space(v[5]));
    let max_concurency = number_or_zero_of(max_text.as_slice());
    let concurency_details = string_from_chars(details_text.as_slice());
    let total_text = &value_chars[7];
    assert(total_text@.subrange(0, total_text@.len() as int) =~= total_text@);
    proof {
        crate::text::lemma_find_char_found(total_text@, ' ');
    }
    let word = match find_char_from(total_text.as_slice(), 0, ' ') {
        Some(k) => slice_chars(total_text.as_slice(), 0, k),
        None => total_text.clone(),
    };
    assert(word@ =~= before_space(v[7]));
    let clean = trim_end_matches_chars(word.as_slice(), 's');
    let total_time: u128 = match read_seconds(rs, clean.as_slice()) {
        TimeReading::Nanos(n) => n,
        TimeReading::NotANumber => 0,
        TimeReading::OutOfRange => {
            return Err(ReportError::OutOfRange(string_from_chars(clean.as_slice())));
        },
    };
    let timings = match units_from_rows(&tables[2], rs) {
        Ok(t) => t,
        Err(e) => {
            return Err(e);
        },
    };
    let rustc = strings_from(&lines_chars(value_chars[8].as_slice()));
    Ok(
        Summary {
            targets,
            profile,
            fresh_units,
            dirty_units,
            total_units,
            max_concurency,
            concurency_details,
            build_start,
            total_time,
            rustc,
            timings,
        },
    )
}

/// The text pieces of the cells of an HTML document as scraper gives them: for
/// each element matching the `table` selector, for each descendant matching the
/// `row` selector, for each descendant of that matching the `cell` selector, its
/// text nodes in document order; `None` where a selector does not parse.
pub uninterp spec fn html_cell_texts(
    html: Seq<char>,
    table: Seq<char>,
    row: Seq<char>,
    cell: Seq<char>,
) -> Option<Seq<Seq<Seq<Seq<Seq<char>>>>>>;

/// Parses `html` with scraper (`Html::parse_document`, `Selector::parse`,
/// `select`, `ElementRef::text`) and collects the text pieces of the cells.
///
/// Trusted: the contract claims only that the result is a function of the four
/// texts (named `html_cell_texts`); HTML parsing and selector matching are
/// scraper's and are not stated.
#[verifier::external_body]
fn select_cell_texts(html: &str, table: &str, row: &str, cell: &str) -> (r: Option<Vec<Vec<Vec<Vec<String>>>>>)
    ensures
        match r {
            Some(v) => html_cell_texts(html@, table@, row@, cell@) == Some(v.deep_view()),
            None => html_cell_texts(html@, table@, row@, cell@) is None,
        },
{
    let (Ok(t), Ok(rw), Ok(c)) = (
        scraper::Selector::parse(table),
        scraper::Selector::parse(row),
        scraper::Selector::parse(cell),
    ) else {
        return None;
    };
    let doc = scraper::Html::parse_document(html);
    Some(doc.select(&t).map(|x| x.select(&rw).map(|y| y.select(&c).map(|z| z.text().map(String::from).collect()).collect()).collect()).collect())
}

/// The UTC date and time text (chrono's `Display` of a `DateTime<Utc>`, such as
/// `2024-05-01 10:00:00 UTC`) of an RFC 3339 timestamp, or `None` where the text
/// is not one.
pub uninterp spec fn rfc3339_as_utc_text(s: Seq<char>) -> Option<Seq<char>>;

/// Whether `t` reads as chrono's `Display` of a `DateTime<Utc>`: some date and time
/// text, a space, and `UTC`.
pub open spec fn is_utc_text(t: Seq<char>) -> bool {
    t.len() > 4 && ends_with(t, " UTC"@)
}

/// Reads an RFC 3339 timestamp with chrono (`DateTime::parse_from_rfc3339`) and
/// gives it as UTC date and time text (`with_timezone(&Utc)`, `to_string`).
///
/// Trusted: the contract claims that the result is a function of the text (named
/// `rfc3339_as_utc_text`) and that it ends with ` UTC` after the date and time:
/// chrono's `Display` of a `DateTime` writes the local date and time, a space, and
/// the offset, which `Utc` writes as `UTC`.  The date and time text itself is not
/// stated.
#[verifier::external_body]
fn utc_text_of_rfc3339(s: &str) -> (r: Option<String>)
    ensures
        match r {
            Some(t) => rfc3339_as_utc_text(s@) == Some(t@) && is_utc_text(t@),
            None => rfc3339_as_utc_text(s@) is None,
        },
{
    match chrono::DateTime::parse_from_rfc3339(s) {
        Ok(dt) => Some(dt.with_timezone(&chrono::Utc).to_string()),
        Err(_) => None,
    }
}

/// The current time as UTC date and time text (chrono's `Utc::now`, `to_string`).
///
/// Trusted: the result depends on the clock, so only its form is claimed: date
/// and time text, a space, and `UTC`, as chrono's `Display` of a `DateTime<Utc>`
/// writes it.
#[verifier::external_body]
fn utc_now_text() -> (r: String)
    ensures
        is_utc_text(r@),
{
    chrono::Utc::now().to_string()
}

/// The summary value that gives the start of the build, where the tables have one.
pub open spec fn build_start_value(tables: Seq<Seq<Seq<Seq<Seq<char>>>>>) -> Option<Seq<char>> {
    if tables.len() >= 3 && summary_values(tables).len() >= 9 {
        Some(summary_values(tables)[6])
    } else {
        None
    }
}

/// The UTC text of the build-start value, where there is one and it reads as an
/// RFC 3339 timestamp.
pub open spec fn stated_start(tables: Seq<Seq<Seq<Seq<Seq<char>>>>>) -> Option<Seq<char>> {
    match build_start_value(tables) {
        Some(v) => rfc3339_as_utc_text(v),
        None => None,
    }
}

/// The start of the build: the UTC text of the build-start value where that
/// value reads as an RFC 3339 timestamp, else the current time; empty where the
/// tables give no build-start value.
fn build_start_text(tables: &Vec<Vec<Vec<Vec<String>>>>) -> (r: String)
    ensures
        stated_start(tables.deep_view()) is Some ==> r@ == stated_start(tables.deep_view()).unwrap(),
        build_start_value(tables.deep_view()) is Some ==> is_utc_text(r@),
{
    if tables.len() < 3 {
        return String::new();
    }
    let values = summary_values_of(tables);
    if values.len() < 9 {
        return String::new();
    }
    assert(values.deep_view()[6] == values@[6]@);
    match utc_text_of_rfc3339(values[6].as_str()) {
        Some(t) => t,
        None => utc_now_text(),
    }
}

/// The start of the build that a reading result holds (nothing for an error).
pub open spec fn start_of(r: Result<SummaryView, ReportErrorView>) -> Seq<char> {
    match r {
        Ok(s) => s.build_start,
        Err(_) => Seq::empty(),
    }
}

/// Whether `r` is what reading the report gives from the cell texts `tables`, with
/// the readings `rs` of the seconds: the report that the tables give with the
/// build start that `r` holds, and that start is UTC date and time text, the
/// stated one where the report states a readable one.
pub open spec fn report_from_cells(
    r: Result<SummaryView, ReportErrorView>,
    tables: Seq<Seq<Seq<Seq<Seq<char>>>>>,
    rs: Seq<(Seq<char>, TimeReading)>,
) -> bool {
    &&& r == report_from_tables(tables, start_of(r), rs)
    &&& (r is Ok && stated_start(tables) is Some ==> start_of(r) == stated_start(tables).unwrap())
    &&& (r is Ok ==> is_utc_text(start_of(r)))
}

/// Cell texts of tables as mathematical values.
pub open spec fn tables_result_view(r: Result<Vec<Vec<Vec<Vec<String>>>>, ReportError>) -> Result<
    Seq<Seq<Seq<Seq<Seq<char>>>>>,
    ReportErrorView,
> {
    match r {
        Ok(t) => Ok(t.deep_view()),
        Err(e) => Err(e@),
    }
}

/// The text pieces of the cells of the report's tables, taken from its HTML text
/// with scraper by the selectors `table`, `tr` and `td`.
pub fn report_tables(html: &str) -> (r: Result<Vec<Vec<Vec<Vec<String>>>>, ReportError>)
    ensures
        tables_result_view(r) == match html_cell_texts(html@, "table"@, "tr"@, "td"@) {
            Some(t) => Ok::<Seq<Seq<Seq<Seq<Seq<char>>>>>, ReportErrorView>(t),
            None => Err(ReportErrorView::InvalidSelector),
        },
{
    match select_cell_texts(html, "table", "tr", "td") {
        Some(t) => Ok(t),
        None => Err(ReportError::InvalidSelector),
    }
}

/// The seconds texts of the cells, in order (cells without an `s` give none).
pub open spec fn cells_seconds_texts(cells: Seq<Seq<char>>) -> Seq<Seq<char>>
    decreases cells.len(),
{
    if cells.len() == 0 {
        Seq::empty()
    } else {
        cells_seconds_texts(cells.drop_last()) + match seconds_text(cells.last()) {
            Some(t) => seq![t],
            None => Seq::empty(),
        }
    }
}

/// The seconds texts of the cells of the rows, row by row.
pub open spec fn rows_seconds_texts(rows: Seq<Seq<Seq<Seq<char>>>>) -> Seq<Seq<char>>
    decreases rows.len(),
{
    if rows.len() == 0 {
        Seq::empty()
    } else {
        rows_seconds_texts(rows.drop_last()) + cells_seconds_texts(row_cells(rows.last()))
    }
}

/// The texts that the report may read as seconds: the seconds text of the
/// summary's total-time value, then that of every cell of the units table that
/// holds an `s`, row by row.
pub open spec fn time_texts_of(tables: Seq<Seq<Seq<Seq<Seq<char>>>>>) -> Seq<Seq<char>> {
    if tables.len() < 3 {
        Seq::empty()
    } else {
        (if summary_values(tables).len() >= 9 {
            seq![total_seconds_text(summary_values(tables)[7])]
        } else {
            Seq::empty()
        }) + rows_seconds_texts(tables[2])
    }
}

/// The texts that the report may read as seconds (`time_texts_of`), each to be
/// read as std reads it and handed to `parse_report` with its reading.
pub fn time_texts(tables: &Vec<Vec<Vec<Vec<String>>>>) -> (r: Vec<String>)
    ensures
        r.deep_view() == time_texts_of(tables.deep_view()),
{
    let ghost tv = tables.deep_view();
    let mut out: Vec<String> = Vec::new();
    if tables.len() < 3 {
        assert(out.deep_view() =~= Seq::<Seq<char>>::empty());
        return out;
    }
    let values = summary_values_of(tables);
    if values.len() >= 9 {
        let v7 = chars_of(values[7].as_str());
        assert(values.deep_view()[7] == values@[7]@);
        proof {
            crate::text::lemma_find_char_found(v7@, ' ');
        }
        assert(v7@.subrange(0, v7@.len() as int) =~= v7@);
        let word = match find_char_from(v7.as_slice(), 0, ' ') {
            Some(k) => slice_chars(v7.as_slice(), 0, k),
            None => v7.clone(),
        };
        assert(word@ =~= before_space(summary_values(tv)[7]));
        let clean = trim_end_matches_chars(word.as_slice(), 's');
        out.push(string_from_chars(clean.as_slice()));
    }
    let ghost head = out.deep_view();
    assert(head =~= (if summary_values(tv).len() >= 9 {
        seq![total_seconds_text(summary_values(tv)[7])]
    } else {
        Seq::<Seq<char>>::empty()
    }));
    assert(tv[2] == tables@[2].deep_view());
    let rows = &tables[2];
    let ghost rv = rows.deep_view();
    let mut i: usize = 0;
    assert(rv.take(0) =~= Seq::<Seq<Seq<Seq<char>>>>::empty());
    assert(out.deep_view() =~= head + rows_seconds_texts(rv.take(0)));
    while i < rows.len()
        invariant
            rv == rows.deep_view(),
            i <= rv.len(),
            out.deep_view() == head + rows_seconds_texts(rv.take(i as int)),
        decreases rv.len() - i,
    {
        let cells = cells_of_row(&rows[i]);
        assert(rv[i as int] == rows@[i as int].deep_view());
        let ghost cv = cells.deep_view();
        let ghost before = out.deep_view();
        let mut j: usize = 0;
        assert(cv.take(0) =~= Seq::<Seq<char>>::empty());
        assert(out.deep_view() =~= before + cells_seconds_texts(cv.take(0)));
        while j < cells.len()
            invariant
                cv == cells.deep_view(),
                j <= cv.len(),
                out.deep_view() == before + cells_seconds_texts(cv.take(j as int)),
            decreases cv.len() - j,
        {
            assert(cv[j as int] == cells@[j as int]@);
            let c = &cells[j];
            assert(c@.subrange(0, c@.len() as int) =~= c@);
            assert(cv.take(j + 1).drop_last() =~= cv.take(j as int));
            let ghost old_out = out.deep_view();
            match find_char_from(c.as_slice(), 0, 's') {
                Some(k) => {
                    let text = slice_chars(c.as_slice(), 0, k);
                    out.push(string_from_chars(text.as_slice()));
                    assert(out.deep_view() =~= old_out.push(text@));
                    assert(out.deep_view() =~= before + cells_seconds_texts(cv.take(j + 1)));
                },
                None => {
                    assert(cells_seconds_texts(cv.take(j + 1)) =~= cells_seconds_texts(cv.take(j as int)));
                },
            }
            j = j + 1;
        }
        assert(cv.take(cv.len() as int) =~= cv);
        assert(rv.take(i + 1).drop_last() =~= rv.take(i as int));
        assert(out.deep_view() =~= head + rows_seconds_texts(rv.take(i + 1)));
        i = i + 1;
    }
    assert(rv.take(rv.len() as int) =~= rv);
    out
}

/// Reads a cargo timing report from the text pieces of its tables' cells (as
/// `report_tables` gives them), with `rs` as the readings of the seconds texts
/// (see `time_texts`): the start of the build is the seventh summary value read
/// as an RFC 3339 timestamp, or the current time where it is not one, and the rest
/// is `report_from_tables`.
pub fn parse_report(tables: &Vec<Vec<Vec<Vec<String>>>>, rs: &Vec<(String, TimeReading)>) -> (r: Result<Summary, ReportError>)
    ensures
        report_from_cells(report_result_view(r), tables.deep_view(), readings_view(rs@)),
{
    let start = build_start_text(tables);
    let r = summary_from_tables(tables, start, rs);
    assert(report_result_view(r) == report_from_tables(
        tables.deep_view(),
        start_of(report_result_view(r)),
        readings_view(rs@),
    ));
    r
}

} // verus!
