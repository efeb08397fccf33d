use cargo_timings::timings::{parse_report, summary_from_matches};

fn document(units: &str) -> String {
    format!(
        "<html><body>\n\
<table class=\"my-table summary-table\">\n\
<tr><td>Targets:</td><td>app 0.1.0 (lib)<br>app 0.1.0 (bin)</td></tr>\n\
<tr><td>Profile:</td><td>dev</td></tr>\n\
<tr><td>Fresh units:</td><td>10</td></tr>\n\
<tr><td>Dirty units:</td><td>5</td></tr>\n\
<tr><td>Total units:</td><td>15</td></tr>\n\
<tr><td>Max concurrency:</td><td>8 (jobs=8 ncpu=8)</td></tr>\n\
<tr><td>Build start:</td><td>2024-05-01T08:00:00Z</td></tr>\n\
<tr><td>Total time:</td><td>31.7s</td></tr>\n\
<tr><td>rustc:</td><td>rustc 1.90.0<br>Host: x86_64</td></tr>\n\
</table>\n\
<table><tr><td>input</td></tr></table>\n\
<table>\n\
<thead>\n<tr>\n<th></th><th>Unit</th><th>Total</th>\n</tr>\n</thead>\n\
<tbody>\n{units}</tbody>\n\
</table>\n\
</body></html>\n"
    )
}

#[test]
fn regex_reader_reads_the_summary() {
    let s = parse_report(&document("")).unwrap();
    assert_eq!(s.targets, vec!["app 0.1.0 (lib)".to_string(), "app 0.1.0 (bin)".to_string()]);
    assert_eq!(s.profile, "dev");
    assert_eq!(s.fresh_units, "10");
    assert_eq!(s.dirty_units, "5");
    assert_eq!(s.total_units, "15");
    assert_eq!(s.max_concurency, "8 (jobs=8 ncpu=8)");
    assert_eq!(s.build_start, "2024-05-01T08:00:00Z");
    assert_eq!(s.total_time, "31.7s");
    assert_eq!(s.rustc, vec!["rustc 1.90.0".to_string(), "Host: x86_64".to_string()]);
    assert!(s.timings.is_empty());
}

#[test]
fn regex_reader_reads_the_units() {
    let units = "<tr>\n<td>1.</td><td>syn v2.0.0</td><td>2.5s</td><td>1.0s</td><td>1.5s</td><td>default, full</td>\n</tr>\n\
<tr>\n<td>2.</td><td>app v0.1.0</td><td>0.4s</td>\n</tr>\n";
    let s = parse_report(&document(units)).unwrap();
    assert_eq!(s.timings.len(), 2);
    let t = &s.timings[0];
    assert_eq!(t.id, "1.");
    assert_eq!(t.unit, "syn v2.0.0");
    assert_eq!(t.total, "2.5s");
    assert_eq!(t.frontend, "1.0s");
    assert_eq!(t.codegen, "1.5s");
    assert_eq!(t.features, "default, full");
    let u = &s.timings[1];
    assert_eq!(u.unit, "app v0.1.0");
    assert_eq!(u.frontend, "<NOT FOUND>");
    assert_eq!(u.features, "<NOT FOUND>");
}

#[test]
fn regex_reader_needs_three_tables() {
    let err = parse_report("<table></table><table></table>").unwrap_err();
    assert_eq!(err, "Provided file is not a valid cargo-timing HTML report.");
}

#[test]
fn regex_reader_with_a_short_summary() {
    let s = parse_report("<table><tr><td>Targets:</td><td>a</td></tr></table><table></table><table></table>").unwrap();
    assert_eq!(s.targets, vec!["a".to_string()]);
    assert_eq!(s.profile, "");
    assert_eq!(s.rustc, vec!["".to_string()]);
}

#[test]
fn summary_from_the_matches() {
    let g = |x: &str| Some(x.to_string());
    let cells = vec![g("Targets:"), g("t"), g("Profile:"), g("dev"), None, None];
    let units = vec![vec![g("1."), g("syn"), g("2.5s")]];
    let s = summary_from_matches(&cells, vec!["t".to_string()], vec![], &units);
    assert_eq!(s.profile, "dev");
    assert_eq!(s.fresh_units, "");
    assert_eq!(s.timings.len(), 1);
    assert_eq!(s.timings[0].total, "2.5s");
    assert_eq!(s.timings[0].codegen, "<NOT FOUND>");
}
