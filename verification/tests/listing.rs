use cargo_timings::cli::output::summary_lines;
use cargo_timings::config::{Config, Detail, Order};
use cargo_timings::parser::{Summary, Timing};
use cargo_timings::sorting::{sort_by_total, sort_timings};

fn unit(id: u32, name: &str, total: u128) -> Timing {
    Timing { id, unit: name.to_string(), total, frontend: None, codegen: None, features: vec![] }
}

fn config(order: Order, top: Option<usize>, search: &str, min_time: u128, detail: Detail) -> Config {
    Config {
        path: "report.html".to_string(),
        top,
        detail_level: detail,
        order,
        search: search.to_string(),
        min_time,
        interactive: false,
    }
}

fn ids(v: &[Timing]) -> Vec<u32> {
    v.iter().map(|t| t.id).collect()
}

#[test]
fn ordering_is_stable_both_ways() {
    let mut v = vec![unit(1, "a", 5), unit(2, "b", 3), unit(3, "c", 5), unit(4, "d", 1), unit(5, "e", 3)];
    sort_by_total(&mut v, Order::Ascending);
    assert_eq!(ids(&v), vec![4, 2, 5, 1, 3]);
    let mut v = vec![unit(1, "a", 5), unit(2, "b", 3), unit(3, "c", 5), unit(4, "d", 1), unit(5, "e", 3)];
    sort_by_total(&mut v, Order::Descending);
    assert_eq!(ids(&v), vec![1, 3, 2, 5, 4]);
}

#[test]
fn sort_timings_filters_then_orders_then_truncates() {
    let mut v = vec![
        unit(1, "syn", 10),
        unit(2, "serde", 30),
        unit(3, "syn-derive", 20),
        unit(4, "quote", 40),
        unit(5, "synstructure", 5),
    ];
    sort_timings(&mut v, &config(Order::Descending, Some(2), "syn", 6, Detail::Default));
    assert_eq!(ids(&v), vec![3, 1]);
    let mut v = vec![unit(1, "a", 1_000_000_000), unit(2, "b", 3_000_000_000), unit(3, "c", 2_000_000_000)];
    sort_timings(&mut v, &config(Order::Descending, Some(1), "", 0, Detail::Default));
    assert_eq!(ids(&v), vec![2]);
    let mut v = vec![unit(1, "a", 1_000_000_000), unit(2, "b", 3_000_000_000), unit(3, "c", 2_000_000_000)];
    sort_timings(&mut v, &config(Order::Ascending, Some(2), "", 0, Detail::Default));
    assert_eq!(ids(&v), vec![1, 3]);
    let mut v = vec![unit(1, "a", 1), unit(2, "b", 2)];
    sort_timings(&mut v, &config(Order::Ascending, Some(5), "", 0, Detail::Default));
    assert_eq!(ids(&v), vec![1, 2]);
    let mut v = vec![unit(1, "a", 1), unit(2, "b", 2)];
    sort_timings(&mut v, &config(Order::Ascending, Some(0), "", 0, Detail::Default));
    assert!(v.is_empty());
}

fn summary(timings: Vec<Timing>) -> Summary {
    Summary {
        targets: vec!["app 0.1.0 (lib)".to_string()],
        profile: "dev".to_string(),
        fresh_units: 1,
        dirty_units: 2,
        total_units: 3,
        max_concurency: 4,
        concurency_details: "(jobs=4)".to_string(),
        build_start: "2024-05-01 08:00:00 UTC".to_string(),
        total_time: 215_100_000_000,
        rustc: vec!["rustc 1.90.0".to_string()],
        timings,
    }
}

#[test]
fn default_listing() {
    let lines = summary_lines(
        summary(vec![unit(1, "syn v2.0.118", 24_400_000_000), unit(2, "clap", 50_900_000_000), unit(3, "x", 1_000_000_000)]),
        &config(Order::Descending, Some(2), "", 0, Detail::Default),
    );
    assert_eq!(
        lines,
        vec![
            "TARGETS: [\"app 0.1.0 (lib)\"]".to_string(),
            "TOTAL TIME: 215.1s".to_string(),
            "UNIT........ TOTAL".to_string(),
            "clap         50.9s".to_string(),
            "syn v2.0.118 24.4s".to_string(),
        ]
    );
}

#[test]
fn listing_filters_after_ordering() {
    let lines = summary_lines(
        summary(vec![unit(1, "ab", 3), unit(2, "b", 2), unit(3, "abc", 1)]),
        &config(Order::Ascending, Some(1), "ab", 0, Detail::Default),
    );
    assert_eq!(lines[2], "UNIT TOTAL");
    assert_eq!(lines[3], "abc  0.0s ");
    assert_eq!(lines.len(), 4);
}

#[test]
fn listing_keeps_units_of_at_least_the_minimum_time() {
    let lines = summary_lines(
        summary(vec![unit(1, "fast", 1_000_000_000), unit(2, "slow", 3_000_000_000), unit(3, "edge", 2_000_000_000)]),
        &config(Order::Descending, None, "", 2_000_000_000, Detail::Default),
    );
    assert_eq!(lines[3], "slow 3.0s ");
    assert_eq!(lines[4], "edge 2.0s ");
    assert_eq!(lines.len(), 5);
}

#[test]
fn extended_and_full_listings() {
    let t = Timing {
        id: 1,
        unit: "serde".to_string(),
        total: 12_300_000_000,
        frontend: Some(4_000_000_000),
        codegen: None,
        features: vec!["derive".to_string(), "std".to_string()],
    };
    let lines = summary_lines(summary(vec![t]), &config(Order::Descending, None, "", 0, Detail::Extended));
    assert_eq!(lines[2], "UNIT. TOTAL FRONTEND CODEGEN");
    assert_eq!(lines[3], "serde 12.3s 4.0s            ");
    let t = Timing {
        id: 1,
        unit: "serde".to_string(),
        total: 12_300_000_000,
        frontend: None,
        codegen: Some(8_000_000_000),
        features: vec!["derive".to_string()],
    };
    let lines = summary_lines(summary(vec![t]), &config(Order::Descending, None, "", 0, Detail::Full));
    assert_eq!(
        lines,
        vec![
            "TARGETS: [\"app 0.1.0 (lib)\"]".to_string(),
            "PROFILE: dev".to_string(),
            "FRESH UNITS: 1".to_string(),
            "DIRTY UNITS: 2".to_string(),
            "TOTAL UNITS: 3".to_string(),
            "MAX COUNCURENCY: 4".to_string(),
            "CONCURENCY DETAIS: (jobs=4)".to_string(),
            "BUILD START: 2024-05-01 08:00:00 UTC".to_string(),
            "TOTAL TIME: 215.1s".to_string(),
            "RUSTC: [\"rustc 1.90.0\"]".to_string(),
            "UNIT. TOTAL FRONTEND CODEGEN FEATURES".to_string(),
            "serde 12.3s          8.0s    [\"derive\"]".to_string(),
        ]
    );
}

#[test]
fn unit_column_counts_bytes() {
    let lines = summary_lines(
        summary(vec![unit(1, "dé", 1_000_000_000)]),
        &config(Order::Descending, None, "", 0, Detail::Default),
    );
    assert_eq!(lines[2], "UNIT TOTAL");
    assert_eq!(lines[3], "dé   1.0s ");
}

#[test]
fn sorting_twice_changes_nothing() {
    let c = config(Order::Descending, Some(2), "s", 2, Detail::Default);
    let mut v = vec![unit(1, "syn", 10), unit(2, "serde", 30), unit(3, "quote", 40), unit(4, "s", 1)];
    sort_timings(&mut v, &c);
    let once = ids(&v);
    sort_timings(&mut v, &c);
    assert_eq!(ids(&v), once);
    assert_eq!(once, vec![2, 1]);
}
