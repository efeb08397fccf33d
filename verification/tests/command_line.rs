use cargo_timings::args::{arg_scheme, parse_arg_list, Command, Detail};
use cargo_timings::utils::help_text;

fn args(v: &[&str]) -> Vec<String> {
    v.iter().map(|s| s.to_string()).collect()
}

fn run(v: &[&str]) -> (String, Option<u16>, Detail, bool) {
    match parse_arg_list(&args(v)) {
        Ok(Command::Run(c)) => (c.path, c.top, c.detail_level, c.reverse),
        other => panic!("unexpected {:?}", other),
    }
}

#[test]
fn plain_run_uses_the_default_path() {
    let (path, top, detail, reverse) = run(&["cargo-timings"]);
    assert_eq!(path, "target/cargo-timings/cargo-timing.html");
    assert_eq!(top, None);
    assert_eq!(detail, Detail::Default);
    assert!(!reverse);
}

#[test]
fn options_after_the_subcommand() {
    let (path, top, detail, reverse) =
        run(&["cargo", "timings", "--top", "5", "-r", "--detail", "full", "my/report.html"]);
    assert_eq!(path, "my/report.html");
    assert_eq!(top, Some(5));
    assert_eq!(detail, Detail::Full);
    assert!(reverse);
    let (_, _, detail, reverse) = run(&["x", "timings", "--detail", "extended", "--reverse"]);
    assert_eq!(detail, Detail::Extended);
    assert!(reverse);
}

#[test]
fn help_wins_over_version() {
    assert!(matches!(parse_arg_list(&args(&["timings", "-V", "--help"])), Ok(Command::Help)));
    assert!(matches!(parse_arg_list(&args(&["timings", "--version"])), Ok(Command::Version)));
    assert!(matches!(parse_arg_list(&args(&["timings", "-h", "--bogus"])), Err(_)));
}

#[test]
fn argument_errors() {
    let err = |v: &[&str]| match parse_arg_list(&args(v)) {
        Err(e) => e,
        Ok(c) => panic!("unexpected {:?}", c),
    };
    assert_eq!(err(&["cargo", "build"]), "invalid arguments");
    assert_eq!(err(&["timings", "--top"]), "'--top' requires a value");
    assert_eq!(err(&["timings", "--top", "70000"]), "--top: invalid value '70000'");
    assert_eq!(err(&["timings", "--top", "-1"]), "--top: invalid value '-1'");
    assert_eq!(err(&["timings", "--detail"]), "'--detail' requires a value");
    assert_eq!(err(&["timings", "--detail", "all"]), "--detail: invalid value 'all'");
    assert_eq!(err(&["timings", "a", "b"]), "unknown argument 'b'. Use '--help' to see more");
    assert_eq!(err(&["timings", "-x"]), "unknown argument '-x'. Use '--help' to see more");
}

#[test]
fn detail_levels() {
    assert_eq!(Detail::parse_level("default"), Ok(Detail::Default));
    assert_eq!(Detail::parse_level("extended"), Ok(Detail::Extended));
    assert_eq!(Detail::parse_level("full"), Ok(Detail::Full));
    assert_eq!(Detail::parse_level("Full"), Err("invalid value 'Full'".to_string()));
    let d: Detail = "full".parse().unwrap();
    assert_eq!(d, Detail::Full);
}

#[test]
fn the_option_table() {
    let s = arg_scheme();
    assert_eq!(s.len(), 5);
    assert_eq!(s[2].long, "--top");
    assert_eq!(s[2].vname, "<NUM>");
    assert_eq!(s[4].desc, "Amount of data in summary. values [default, extended, full]");
}

#[test]
fn help_text_aligns_the_options() {
    let text = help_text("cargo-timings", "Terminal-based visualizer.");
    let expected = "Usage: cargo-timings [OPTIONS] <PATH>\n\n\
Terminal-based visualizer.\n\n\
Options:\n\
\x20 -h --help             Print help.\n\
\x20 -V --version          Print version info.\n\
\x20    --top  <NUM>       Show top slowest dependencies.\n\
\x20 -r --reverse          Reverse output into ascending order.\n\
\x20    --detail  <LEVEL>  Amount of data in summary. values [default, extended, full]\n";
    assert_eq!(text, expected);
}
