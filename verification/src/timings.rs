//! A reader of the report that finds its tables with regular expressions and
//! keeps every value as text.
use vstd::prelude::*;
use crate::text::{string_from_chars, chars_of, push_str, clone_strings};

verus! {

/// The texts of the matches of `pattern` in `text`, in order, as regex's
/// `Regex::find_iter` gives them; `None` where the pattern does not compile.
pub uninterp spec fn regex_matches(pattern: Seq<char>, text: Seq<char>) -> Option<Seq<Seq<char>>>;

/// For each match of `pattern` in `text`, in order, the text of its first capture
/// group where that group took part, as regex's `Regex::captures_iter` gives them;
/// `None` where the pattern does not compile.
pub uninterp spec fn regex_first_groups(pattern: Seq<char>, text: Seq<char>) -> Option<Seq<Option<Seq<char>>>>;

/// The pieces of `text` between matches of `pattern`, as regex's `Regex::split`
/// gives them; `None` where the pattern does not compile.
pub uninterp spec fn regex_pieces(pattern: Seq<char>, text: Seq<char>) -> Option<Seq<Seq<char>>>;

/// Compiles `pattern` with regex (`Regex::new`) and collects the texts of its
/// matches in `text` (`find_iter`).
///
/// Trusted: claims only that the result is a function of the two texts (named
/// `regex_matches`); regular-expression matching is regex's and is not stated.
#[verifier::external_body]
fn find_all(pattern: &str, text: &str) -> (r: Option<Vec<String>>)
    ensures
        match r {
            Some(v) => regex_matches(pattern@, text@) == Some(v.deep_view()),
            None => regex_matches(pattern@, text@) is None,
        },
{
    let Ok(re) = regex::Regex::new(pattern) else {
        return None;
    };
    Some(re.find_iter(text).map(|m| m.as_str().to_string()).collect())
}

/// Compiles `pattern` with regex (`Regex::new`) and collects, for each match in
/// `text` (`captures_iter`), the text of the first capture group (`get(1)`).
///
/// Trusted: claims only that the result is a function of the two texts (named
/// `regex_first_groups`).
#[verifier::external_body]
fn first_groups(pattern: &str, text: &str) -> (r: Option<Vec<Option<String>>>)
    ensures
        match r {
            Some(v) => regex_first_groups(pattern@, text@) == Some(
                v@.map_values(|g: Option<String>| optional_text(g)),
            ),
            None => regex_first_groups(pattern@, text@) is None,
        },
{
    let Ok(re) = regex::Regex::new(pattern) else {
        return None;
    };
    Some(re.captures_iter(text).map(|c| c.get(1).map(|m| m.as_str().to_string())).collect())
}

/// Compiles `pattern` with regex (`Regex::new`) and collects the pieces of `text`
/// between its matches (`split`).
///
/// Trusted: claims only that the result is a function of the two texts (named
/// `regex_pieces`).
#[verifier::external_body]
fn split_all(pattern: &str, text: &str) -> (r: Option<Vec<String>>)
    ensures
        match r {
            Some(v) => regex_pieces(pattern@, text@) == Some(v.deep_view()),
            None => regex_pieces(pattern@, text@) is None,
        },
{
    let Ok(re) = regex::Regex::new(pattern) else {
        return None;
    };
    Some(re.split(text).map(|s| s.to_string()).collect())
}

/// An optional string as mathematical values.
pub open spec fn optional_text(g: Option<String>) -> Option<Seq<char>> {
    match g {
        Some(s) => Some(s@),
        None => None,
    }
}

/// The pattern of a table.
pub open spec fn table_pattern() -> Seq<char> {
    "<table[\\s\\S]*?<\\/table>"@
}

/// The pattern of a table cell, capturing its contents.
pub open spec fn cell_pattern() -> Seq<char> {
    "<td>(.*?)<\\/td>"@
}

/// The pattern of a table row.
pub open spec fn row_pattern() -> Seq<char> {
    "<tr>[\\s\\S]*?<\\/tr>"@
}

/// The pattern of a line break.
pub open spec fn break_pattern() -> Seq<char> {
    "<br>"@
}

/// One unit of the report, every value as its text.
#[derive(Debug)]
pub struct Timing {
    pub id: String,
    pub unit: String,
    pub total: String,
    pub frontend: String,
    pub codegen: String,
    pub features: String,
}

/// A unit as mathematical values.
pub struct TimingView {
    pub id: Seq<char>,
    pub unit: Seq<char>,
    pub total: Seq<char>,
    pub frontend: Seq<char>,
    pub codegen: Seq<char>,
    pub features: Seq<char>,
}

impl View for Timing {
    type V = TimingView;

    open spec fn view(&self) -> TimingView {
        TimingView {
            id: self.id@,
            unit: self.unit@,
            total: self.total@,
            frontend: self.frontend@,
            codegen: self.codegen@,
            features: self.features@,
        }
    }
}

/// The report, every value as its text.
#[derive(Debug)]
pub struct Summary {
    pub targets: Vec<String>,
    pub profile: String,
    pub fresh_units: String,
    pub dirty_units: String,
    pub total_units: String,
    pub max_concurency: String,
    pub build_start: String,
    pub total_time: String,
    pub rustc: Vec<String>,
    pub timings: Vec<Timing>,
}

/// A report as mathematical values.
pub struct SummaryView {
    pub targets: Seq<Seq<char>>,
    pub profile: Seq<char>,
    pub fresh_units: Seq<char>,
    pub dirty_units: Seq<char>,
    pub total_units: Seq<char>,
    pub max_concurency: Seq<char>,
    pub build_start: Seq<char>,
    pub total_time: Seq<char>,
    pub rustc: Seq<Seq<char>>,
    pub timings: Seq<TimingView>,
}

impl View for Summary {
    type V = SummaryView;

    open spec fn view(&self) -> SummaryView {
        SummaryView {
            targets: self.targets.deep_view(),
            profile: self.profile@,
            fresh_units: self.fresh_units@,
            dirty_units: self.dirty_units@,
            total_units: self.total_units@,
            max_concurency: self.max_concurency@,
            build_start: self.build_start@,
            total_time: self.total_time@,
            rustc: self.rustc.deep_view(),
            timings: self.timings@.map_values(|t: Timing| t@),
        }
    }
}

/// The text of a capture group that may not have taken part.
pub open spec fn group_text(g: Option<Seq<char>>) -> Seq<char> {
    match g {
        Some(s) => s,
        None => Seq::empty(),
    }
}

/// Every second cell (the values, after their labels), in order.
pub open spec fn second_cells(cells: Seq<Option<Seq<char>>>) -> Seq<Seq<char>> {
    Seq::new(cells.len() / 2, |i: int| group_text(cells[2 * i + 1]))
}

/// The `i`-th value, or nothing where there are fewer.
pub open spec fn value_at(v: Seq<Seq<char>>, i: int) -> Seq<char> {
    if i < v.len() {
        v[i]
    } else {
        Seq::empty()
    }
}

/// The `i`-th cell of a row, or `<NOT FOUND>` where there are fewer.
pub open spec fn field_at(cells: Seq<Option<Seq<char>>>, i: int) -> Seq<char> {
    if i < cells.len() {
        group_text(cells[i])
    } else {
        "<NOT FOUND>"@
    }
}

/// The unit that the cells of a row give: number, name, total, front end, code
/// generation and features, in that order.
pub open spec fn unit_of_cells(cells: Seq<Option<Seq<char>>>) -> TimingView {
    TimingView {
        id: field_at(cells, 0),
        unit: field_at(cells, 1),
        total: field_at(cells, 2),
        frontend: field_at(cells, 3),
        codegen: field_at(cells, 4),
        features: field_at(cells, 5),
    }
}

/// Message for a pattern that does not compile.
pub open spec fn pattern_error() -> Seq<char> {
    "invalid regular expression"@
}

/// Message for a document with fewer than three tables.
pub open spec fn not_a_report() -> Seq<char> {
    "Provided file is not a valid cargo-timing HTML report."@
}

/// The first groups of the cell matches of each row, in order (`None` where the
/// cell pattern does not compile).
pub open spec fn row_groups(rows: Seq<Seq<char>>) -> Option<Seq<Seq<Option<Seq<char>>>>>
    decreases rows.len(),
{
    if rows.len() == 0 {
        Some(Seq::empty())
    } else {
        match regex_first_groups(cell_pattern(), rows[0]) {
            None => None,
            Some(cells) => match row_groups(rows.drop_first()) {
                Some(gs) => Some(seq![cells] + gs),
                None => None,
            },
        }
    }
}

/// The report that the regular-expression matches give: the values of the first
/// table are every second cell of `cells`; `targets` and `rustc` are the pieces of
/// the first and ninth values; each unit comes from the cells of one row of
/// `units`.
pub open spec fn summary_of_parts(
    cells: Seq<Option<Seq<char>>>,
    targets: Seq<Seq<char>>,
    rustc: Seq<Seq<char>>,
    units: Seq<Seq<Option<Seq<char>>>>,
) -> SummaryView {
    let v = second_cells(cells);
    SummaryView {
        targets,
        profile: value_at(v, 1),
        fresh_units: value_at(v, 2),
        dirty_units: value_at(v, 3),
        total_units: value_at(v, 4),
        max_concurency: value_at(v, 5),
        build_start: value_at(v, 6),
        total_time: value_at(v, 7),
        rustc,
        timings: units.map_values(|c: Seq<Option<Seq<char>>>| unit_of_cells(c)),
    }
}

/// The rows after the heading row.
pub open spec fn after_heading(rows: Seq<Seq<char>>) -> Seq<Seq<char>> {
    if rows.len() == 0 {
        rows
    } else {
        rows.drop_first()
    }
}

/// What the report `html` gives: its tables are the matches of the table pattern;
/// the values of the first table are every second cell; the targets and compiler
/// are split at line breaks; the units are the rows of the third table after the
/// heading row.
pub open spec fn report_of(html: Seq<char>) -> Result<SummaryView, Seq<char>> {
    match regex_matches(table_pattern(), html) {
        None => Err(pattern_error()),
        Some(tables) => if tables.len() < 3 {
            Err(not_a_report())
        } else {
            match regex_first_groups(cell_pattern(), tables[0]) {
                None => Err(pattern_error()),
                Some(cells) => {
                    let v = second_cells(cells);
                    match (
                        regex_pieces(break_pattern(), value_at(v, 0)),
                        regex_pieces(break_pattern(), value_at(v, 8)),
                        regex_matches(row_pattern(), tables[2]),
                    ) {
                        (Some(targets), Some(rustc), Some(rows)) => match row_groups(
                            after_heading(rows),
                        ) {
                            Some(units) => Ok(summary_of_parts(cells, targets, rustc, units)),
                            None => Err(pattern_error()),
                        },
                        _ => Err(pattern_error()),
                    }
                },
            }
        },
    }
}

fn text_of(s: &str) -> (r: String)
    ensures
        r@ == s@,
{
    string_from_chars(chars_of(s).as_slice())
}

fn group_string(g: &Option<String>) -> (r: String)
    ensures
        r@ == group_text(optional_text(*g)),
{
    match g {
        Some(s) => s.clone(),
        None => String::new(),
    }
}

fn field_of(cells: &Vec<Option<String>>, i: usize) -> (r: String)
    ensures
        r@ == field_at(cells@.map_values(|g: Option<String>| optional_text(g)), i as int),
{
    if i < cells.len() {
        group_string(&cells[i])
    } else {
        text_of("<NOT FOUND>")
    }
}

fn value_of(values: &Vec<String>, i: usize) -> (r: String)
    ensures
        r@ == value_at(values.deep_view(), i as int),
{
    if i < values.len() {
        values[i].clone()
    } else {
        String::new()
    }
}

/// A report result as mathematical values.
pub open spec fn report_result_view(r: Result<Summary, String>) -> Result<SummaryView, Seq<char>> {
    match r {
        Ok(s) => Ok(s@),
        Err(e) => Err(e@),
    }
}

/// Optional strings as mathematical values.
pub open spec fn groups_view(g: Seq<Option<String>>) -> Seq<Option<Seq<char>>> {
    g.map_values(|x: Option<String>| optional_text(x))
}

/// The report that the regular-expression matches give (`summary_of_parts`):
/// `cells` are the first groups of the cell matches of the first table,
/// `targets` and `rustc` the pieces of its first and ninth values, and `units` the
/// first groups of the cell matches of each unit row.
pub fn summary_from_matches(
    cells: &Vec<Option<String>>,
    targets: Vec<String>,
    rustc: Vec<String>,
    units: &Vec<Vec<Option<String>>>,
) -> (r: Summary)
    ensures
        r@ == summary_of_parts(
            groups_view(cells@),
            targets.deep_view(),
            rustc.deep_view(),
            units@.map_values(|c: Vec<Option<String>>| groups_view(c@)),
        ),
{
    let ghost cv = groups_view(cells@);
    let values = values_of(cells);
    let ghost uv = units@.map_values(|c: Vec<Option<String>>| groups_view(c@));
    let mut timings: Vec<Timing> = Vec::new();
    let mut k: usize = 0;
    while k < units.len()
        invariant
            k <= units@.len(),
            uv == units@.map_values(|c: Vec<Option<String>>| groups_view(c@)),
            timings@.map_values(|t: Timing| t@) == uv.take(k as int).map_values(
                |c: Seq<Option<Seq<char>>>| unit_of_cells(c),
            ),
        decreases units@.len() - k,
    {
        let row = &units[k];
        assert(uv[k as int] == groups_view(row@));
        let t = Timing {
            id: field_of(row, 0),
            unit: field_of(row, 1),
            total: field_of(row, 2),
            frontend: field_of(row, 3),
            codegen: field_of(row, 4),
            features: field_of(row, 5),
        };
        let ghost before = timings@.map_values(|t: Timing| t@);
        let ghost tview = t@;
        timings.push(t);
        assert(timings@.map_values(|t: Timing| t@) =~= before.push(tview));
        assert(uv.take(k + 1).map_values(|c: Seq<Option<Seq<char>>>| unit_of_cells(c)) =~= uv.take(
            k as int,
        ).map_values(|c: Seq<Option<Seq<char>>>| unit_of_cells(c)).push(unit_of_cells(uv[k as int])));
        k = k + 1;
    }
    assert(uv.take(units@.len() as int) =~= uv);
    Summary {
        targets,
        profile: value_of(&values, 1),
        fresh_units: value_of(&values, 2),
        dirty_units: value_of(&values, 3),
        total_units: value_of(&values, 4),
        max_concurency: value_of(&values, 5),
        build_start: value_of(&values, 6),
        total_time: value_of(&values, 7),
        rustc,
        timings,
    }
}

/// Every second cell of `cells` (the values, after their labels).
fn values_of(cells: &Vec<Option<String>>) -> (r: Vec<String>)
    ensures
        r.deep_view() == second_cells(groups_view(cells@)),
{
    let ghost cv = groups_view(cells@);
    let mut values: Vec<String> = Vec::new();
    let n = cells.len();
    let half = n / 2;
    let mut j: usize = 0;
    while j < half
        invariant
            n == cells@.len(),
            j <= half,
            half == cells@.len() / 2,
            cv == groups_view(cells@),
            values.deep_view() == second_cells(cv).take(j as int),
        decreases half - j,
    {
        assert(2 * j + 1 < cells@.len()) by (nonlinear_arith)
            requires
                j < half,
                half == cells@.len() / 2,
        ;
        let v = group_string(&cells[2 * j + 1]);
        let ghost before = values.deep_view();
        let ghost vv = v@;
        values.push(v);
        assert(values.deep_view() =~= before.push(vv));
        assert(second_cells(cv).take(j + 1) =~= second_cells(cv).take(j as int).push(vv));
        j = j + 1;
    }
    assert(values.deep_view() =~= second_cells(cv));
    values
}

/// Reads the report `html` with regular expressions, keeping every value as text:
/// the tables, the cells of the first, the pieces of its targets and compiler
/// values, and the cells of the unit rows are found with regex, and the report is
/// `summary_from_matches` of them.
#[verifier::loop_isolation(false)]
pub fn parse_report(html: &str) -> (r: Result<Summary, String>)
    ensures
        report_result_view(r) == report_of(html@),
{
    let tables = match find_all("<table[\\s\\S]*?<\\/table>", html) {
        Some(t) => t,
        None => {
            return Err(text_of("invalid regular expression"));
        },
    };
    if tables.len() < 3 {
        return Err(text_of("Provided file is not a valid cargo-timing HTML report."));
    }
    let ghost tv = tables.deep_view();
    assert(tv[0] == tables@[0]@ && tv[2] == tables@[2]@);
    let cells = match first_groups("<td>(.*?)<\\/td>", tables[0].as_str()) {
        Some(c) => c,
        None => {
            return Err(text_of("invalid regular expression"));
        },
    };
    let values = values_of(&cells);
    let target_text = value_of(&values, 0);
    let rustc_text = value_of(&values, 8);
    let targets = split_all("<br>", target_text.as_str());
    let rustc = split_all("<br>", rustc_text.as_str());
    let rows = find_all("<tr>[\\s\\S]*?<\\/tr>", tables[2].as_str());
    let (targets, rustc, rows) = match (targets, rustc, rows) {
        (Some(t), Some(r), Some(w)) => (t, r, w),
        _ => {
            return Err(text_of("invalid regular expression"));
        },
    };
    let ghost rv = rows.deep_view();
    let mut units: Vec<Vec<Option<String>>> = Vec::new();
    let mut k: usize = 1;
    if rows.len() == 0 {
        k = 0;
    }
    assert(after_heading(rv) =~= rv.skip(k as int));
    assert(units@.map_values(|c: Vec<Option<String>>| groups_view(c@)) =~= Seq::<Seq<Option<Seq<char>>>>::empty());
    proof {
        match row_groups(rv.skip(k as int)) {
            Some(gs) => {
                assert(Seq::<Seq<Option<Seq<char>>>>::empty() + gs =~= gs);
            },
            None => {},
        }
    }
    while k < rows.len()
        invariant
            k <= rows@.len(),
            rows@.len() > 0 ==> k >= 1,
            rv == rows.deep_view(),
            row_groups(after_heading(rv)) == (match row_groups(rv.skip(k as int)) {
                Some(gs) => Some(units@.map_values(|c: Vec<Option<String>>| groups_view(c@)) + gs),
                None => None,
            }),
        decreases rows@.len() - k,
    {
        assert(rv[k as int] == rows@[k as int]@);
        assert(rv.skip(k as int)[0] == rv[k as int]);
        assert(rv.skip(k as int).drop_first() =~= rv.skip(k + 1));
        let row_cells = match first_groups("<td>(.*?)<\\/td>", rows[k].as_str()) {
            Some(c) => c,
            None => {
                return Err(text_of("invalid regular expression"));
            },
        };
        let ghost gview = groups_view(row_cells@);
        let ghost before = units@.map_values(|c: Vec<Option<String>>| groups_view(c@));
        units.push(row_cells);
        assert(units@.map_values(|c: Vec<Option<String>>| groups_view(c@)) =~= before.push(gview));
        proof {
            match row_groups(rv.skip(k + 1)) {
                Some(gs) => {
                    assert(before + (seq![gview] + gs) =~= before.push(gview) + gs);
                },
                None => {},
            }
        }
        k = k + 1;
    }
    assert(rv.skip(k as int) =~= Seq::<Seq<char>>::empty());
    assert(units@.map_values(|c: Vec<Option<String>>| groups_view(c@)) + Seq::<Seq<Option<Seq<char>>>>::empty()
        =~= units@.map_values(|c: Vec<Option<String>>| groups_view(c@)));
    Ok(summary_from_matches(&cells, targets, rustc, &units))
}

} // verus!
