use std::time::Duration;

use cargo_timings::parser::{
    parse_report, parse_time, report_tables, summary_from_tables, time_texts, ReportError, Summary, TimeReading,
};
use cargo_timings::text::chars_of;

/// Reads seconds as std does: an `f32`, then `Duration::try_from_secs_f32`.
fn read(text: &str) -> TimeReading {
    match text.parse::<f32>() {
        Err(_) => TimeReading::NotANumber,
        Ok(x) => match Duration::try_from_secs_f32(x) {
            Ok(d) => TimeReading::Nanos(d.as_nanos()),
            Err(_) => TimeReading::OutOfRange,
        },
    }
}

fn nanos(secs: f32) -> u128 {
    Duration::from_secs_f32(secs).as_nanos()
}

fn readings(texts: Vec<String>) -> Vec<(String, TimeReading)> {
    texts.into_iter().map(|t| { let r = read(&t); (t, r) }).collect()
}

fn parse_html(html: &str) -> Result<Summary, ReportError> {
    let tables = report_tables(html)?;
    let rs = readings(time_texts(&tables));
    parse_report(&tables, &rs)
}

fn report_html(total_time: &str, build_start: &str, units: &str) -> String {
    format!(
        "<html><body>\
<table class=\"my-table summary-table\">\
<tr><td>Targets:</td><td>cargo-timings 0.2.0 (lib)<br>cargo-timings 0.2.0 (bin \"cargo-timings\")</td></tr>\
<tr><td>Profile:</td><td>dev</td></tr>\
<tr><td>Fresh units:</td><td>3</td></tr>\
<tr><td>Dirty units:</td><td>12</td></tr>\
<tr><td>Total units:</td><td>15</td></tr>\
<tr><td>Max concurrency:</td><td>8 (jobs=8 ncpu=8)</td></tr>\
<tr><td>Build start:</td><td>{build_start}</td></tr>\
<tr><td>Total time:</td><td>{total_time}</td></tr>\
<tr><td>rustc:</td><td>rustc 1.90.0<br>Host: x86_64-unknown-linux-gnu</td></tr>\
</table>\
<table><tr><td>input</td></tr></table>\
<table class=\"my-table\">\
<thead><tr><th></th><th>Unit</th><th>Total</th><th>Frontend</th><th>Codegen</th><th>Features</th></tr></thead>\
<tbody>{units}</tbody>\
</table></body></html>"
    )
}

const UNITS: &str = "<tr><td>1.</td><td>syn v2.0.118</td><td>24.4s</td><td>14.2s</td><td>10.2s</td><td>default, full , parsing</td></tr>\
<tr><td>2.</td><td>scraper v0.27.0</td><td>31.7s</td><td></td><td>bad</td><td></td></tr>\
<tr><td>3.</td><td> clap_builder v4.6.0 </td><td>50.9s</td></tr>";

fn parse(html: &str) -> Summary {
    match parse_html(html) {
        Ok(s) => s,
        Err(e) => panic!("{}", e.message()),
    }
}

#[test]
fn reads_the_summary_table() {
    let s = parse(&report_html("215.1s (3m 35.1s)", "2024-05-01T10:00:00+02:00", UNITS));
    assert_eq!(
        s.targets,
        vec!["cargo-timings 0.2.0 (lib)".to_string(), "cargo-timings 0.2.0 (bin \"cargo-timings\")".to_string()]
    );
    assert_eq!(s.profile, "dev");
    assert_eq!(s.fresh_units, 3);
    assert_eq!(s.dirty_units, 12);
    assert_eq!(s.total_units, 15);
    assert_eq!(s.max_concurency, 8);
    assert_eq!(s.concurency_details, "(jobs=8 ncpu=8)");
    assert_eq!(s.build_start, "2024-05-01 08:00:00 UTC");
    assert_eq!(s.total_time, nanos(215.1));
    assert_eq!(s.rustc, vec!["rustc 1.90.0".to_string(), "Host: x86_64-unknown-linux-gnu".to_string()]);
}

#[test]
fn reads_the_units_table() {
    let s = parse(&report_html("215.1s (3m 35.1s)", "2024-05-01T10:00:00Z", UNITS));
    assert_eq!(s.timings.len(), 3);
    let t = &s.timings[0];
    assert_eq!(t.id, 1);
    assert_eq!(t.unit, "syn v2.0.118");
    assert_eq!(t.total, nanos(24.4));
    assert_eq!(t.frontend, Some(nanos(14.2)));
    assert_eq!(t.codegen, Some(nanos(10.2)));
    assert_eq!(t.features, vec!["default".to_string(), "full".to_string(), "parsing".to_string()]);
    let t = &s.timings[1];
    assert_eq!(t.id, 2);
    assert_eq!(t.frontend, None);
    assert_eq!(t.codegen, None);
    assert_eq!(t.features, vec!["".to_string()]);
    let t = &s.timings[2];
    assert_eq!(t.unit, "clap_builder v4.6.0");
    assert_eq!(t.total, nanos(50.9));
    assert_eq!(t.frontend, None);
    assert!(t.features.is_empty());
}

#[test]
fn total_time_without_a_space_is_the_whole_value() {
    let s = parse(&report_html("12.3s", "2024-05-01T10:00:00Z", UNITS));
    assert_eq!(s.total_time, nanos(12.3));
    let s = parse(&report_html("many", "2024-05-01T10:00:00Z", UNITS));
    assert_eq!(s.total_time, 0);
}

#[test]
fn unreadable_build_start_takes_the_current_time() {
    let s = parse(&report_html("1.0s (1.0s)", "yesterday", UNITS));
    assert!(s.build_start.ends_with(" UTC"));
}

#[test]
fn too_few_tables_is_an_error() {
    let r = parse_html("<table><tr><td>a</td></tr></table><table></table>");
    match r {
        Err(ReportError::TooFewTables(n)) => assert_eq!(n, 2),
        other => panic!("unexpected {:?}", other.map(|s| s.profile)),
    }
    let e = ReportError::TooFewTables(2);
    assert_eq!(e.message(), "Provided invalid timings report: Expected at least 3 tables, found 2");
}

#[test]
fn short_summary_is_an_error() {
    let r = parse_html("<table><tr><td>Targets:</td><td>x</td></tr></table><table></table><table></table>");
    assert!(matches!(r, Err(ReportError::SummaryTooShort)));
    assert_eq!(ReportError::SummaryTooShort.message(), "Summary table has insufficient data fields.");
}

#[test]
fn bad_total_time_of_a_unit_is_an_error() {
    let units = "<tr><td>1.</td><td>a</td><td>12</td></tr>";
    let r = parse_html(&report_html("1.0s (1.0s)", "2024-05-01T10:00:00Z", units));
    match r {
        Err(e) => assert_eq!(e.message(), "invalid value 12"),
        Ok(_) => panic!("expected an error"),
    }
    let units = "<tr><td>1.</td><td>a</td><td>x.5s</td></tr>";
    let r = parse_html(&report_html("1.0s (1.0s)", "2024-05-01T10:00:00Z", units));
    match r {
        Err(e) => assert_eq!(e.message(), "could not parse x.5 into f32"),
        Ok(_) => panic!("expected an error"),
    }
}

#[test]
fn heading_rows_are_skipped() {
    let units = "<tr><td>#</td><td>Unit</td></tr><tr><td>Unit</td><td>x</td><td>1s</td></tr><tr><td>7.</td><td>x</td><td>1s</td></tr>";
    let s = parse(&report_html("1.0s (1.0s)", "2024-05-01T10:00:00Z", units));
    assert_eq!(s.timings.len(), 1);
    assert_eq!(s.timings[0].id, 7);
}

#[test]
fn time_cells() {
    let rs = readings(vec!["24.4".to_string(), "+.5".to_string(), "1e3".to_string(), ".".to_string(), "-1".to_string(), "inf".to_string()]);
    assert_eq!(parse_time(&chars_of("24.4s"), &rs).ok(), Some(nanos(24.4)));
    assert_eq!(parse_time(&chars_of("+.5s (x)"), &rs).ok(), Some(500_000_000));
    assert_eq!(parse_time(&chars_of("1e3s"), &rs).ok(), Some(1_000_000_000_000));
    assert!(matches!(parse_time(&chars_of("24.4"), &rs), Err(ReportError::InvalidValue(_))));
    assert!(matches!(parse_time(&chars_of(".s"), &rs), Err(ReportError::NotANumber(_))));
    assert!(matches!(parse_time(&chars_of("-1s"), &rs), Err(ReportError::OutOfRange(_))));
    assert!(matches!(parse_time(&chars_of("infs"), &rs), Err(ReportError::OutOfRange(_))));
    // A text with no reading reads as no number.
    assert!(matches!(parse_time(&chars_of("7s"), &rs), Err(ReportError::NotANumber(_))));
    assert_eq!(nanos(2.7), 2_700_000_048);
}

#[test]
fn times_read_as_f32_seconds() {
    let units = "<tr><td>1.</td><td>a</td><td>1e3s</td><td>2.7s</td><td>-1s</td></tr>";
    let r = parse_html(&report_html("1.0s (1.0s)", "2024-05-01T10:00:00Z", units));
    match r {
        Err(e) => assert_eq!(e.message(), "cannot convert float seconds to Duration: -1"),
        Ok(_) => panic!("expected an error"),
    }
    let units = "<tr><td>1.</td><td>a</td><td>1e3s</td><td>2.7s</td><td>x</td></tr>";
    let s = parse(&report_html("10.5s", "2024-05-01T10:00:00Z", units));
    assert_eq!(s.timings[0].total, 1_000_000_000_000);
    assert_eq!(s.timings[0].frontend, Some(2_700_000_048));
    assert_eq!(s.timings[0].codegen, None);
    assert_eq!(s.total_time, 10_500_000_000);
}

#[test]
fn the_texts_to_read() {
    let tables = report_tables(&report_html("215.1s (3m 35.1s)", "2024-05-01T10:00:00Z", UNITS)).ok().unwrap();
    assert_eq!(
        time_texts(&tables),
        vec!["215.1", "", "24.4", "14.2", "10.2", "default, full , par", "", "31.7", "50.9"].into_iter().map(String::from).collect::<Vec<_>>()
    );
}

#[test]
fn tables_given_directly() {
    let cell = |s: &str| vec![s.to_string()];
    let row = |a: &str, b: &str| vec![cell(a), cell(b)];
    let summary = vec![
        row("Targets:", "t"),
        row("Profile:", "release"),
        row("Fresh units:", "+4"),
        row("Dirty units:", "x"),
        row("Total units:", "4294967296"),
        row("Max concurrency:", "2"),
        row("Build start:", "b"),
        row("Total time:", "3.25s (x)"),
        row("rustc:", "r\r\nq\n"),
    ];
    let units = vec![vec![cell(" 5. "), cell("u"), cell(" 2.0s ")]];
    let tables = vec![summary, vec![], units];
    let rs = vec![("3.25".to_string(), TimeReading::Nanos(3_250_000_000)), (" 2.0".to_string(), TimeReading::Nanos(1)), ("2.0".to_string(), TimeReading::Nanos(2_000_000_000))];
    let s = summary_from_tables(&tables, "start".to_string(), &rs).ok().unwrap();
    assert_eq!(s.fresh_units, 4);
    assert_eq!(s.dirty_units, 0);
    assert_eq!(s.total_units, 0);
    assert_eq!(s.max_concurency, 2);
    assert_eq!(s.concurency_details, "");
    assert_eq!(s.build_start, "start");
    assert_eq!(s.total_time, 3_250_000_000);
    assert_eq!(s.rustc, vec!["r".to_string(), "q".to_string()]);
    assert_eq!(s.timings[0].id, 5);
    assert_eq!(s.timings[0].total, 2_000_000_000);
}
