//! The command line: its options and how an argument list is read.
use vstd::prelude::*;
use crate::text::{
    chars_equal_str, chars_of, parse_unsigned, parse_unsigned_chars, push_all, push_str,
    starts_with, starts_with_chars, string_from_chars,
};

verus! {

/// One option of the command line, for the help text.
pub struct ArgDef {
    pub short: &'static str,
    pub long: &'static str,
    pub vname: &'static str,
    pub desc: &'static str,
}

impl ArgDef {
    /// An option with its short and long names, value name and description.
    pub fn new(short: &'static str, long: &'static str, vname: &'static str, desc: &'static str) -> (r: Self)
        ensures
            r.short == short,
            r.long == long,
            r.vname == vname,
            r.desc == desc,
    {
        Self { short, long, vname, desc }
    }
}

/// The options of the command line as (short name, long name, value name,
/// description), in the order the help text lists them.
pub open spec fn option_table() -> Seq<(Seq<char>, Seq<char>, Seq<char>, Seq<char>)> {
    seq![
        ("-h"@, "--help"@, ""@, "Print help."@),
        ("-V"@, "--version"@, ""@, "Print version info."@),
        (""@, "--top"@, "<NUM>"@, "Show top slowest dependencies."@),
        ("-r"@, "--reverse"@, ""@, "Reverse output into ascending order."@),
        (""@, "--detail"@, "<LEVEL>"@, "Amount of data in summary. values [default, extended, full]"@),
    ]
}

/// An option as mathematical values.
pub open spec fn arg_def_view(a: ArgDef) -> (Seq<char>, Seq<char>, Seq<char>, Seq<char>) {
    (a.short@, a.long@, a.vname@, a.desc@)
}

/// The options of the command line, in the order the help text lists them.
pub fn arg_scheme() -> (r: Vec<ArgDef>)
    ensures
        r@.map_values(|a: ArgDef| arg_def_view(a)) == option_table(),
{
    let mut v: Vec<ArgDef> = Vec::new();
    v.push(ArgDef::new("-h", "--help", "", "Print help."));
    v.push(ArgDef::new("-V", "--version", "", "Print version info."));
    v.push(ArgDef::new("", "--top", "<NUM>", "Show top slowest dependencies."));
    v.push(ArgDef::new("-r", "--reverse", "", "Reverse output into ascending order."));
    v.push(
        ArgDef::new(
            "",
            "--detail",
            "<LEVEL>",
            "Amount of data in summary. values [default, extended, full]",
        ),
    );
    assert(v@.map_values(|a: ArgDef| arg_def_view(a)) =~= option_table());
    v
}

/// How much of the report is shown.
#[derive(Debug, Clone, Copy, PartialEq, Eq, Structural)]
pub enum Detail {
    Default,
    Extended,
    Full,
}

/// The level of detail that a `--detail` value names, or the error text.
pub open spec fn detail_level(s: Seq<char>) -> Result<Detail, Seq<char>> {
    if s == "default"@ {
        Ok(Detail::Default)
    } else if s == "extended"@ {
        Ok(Detail::Extended)
    } else if s == "full"@ {
        Ok(Detail::Full)
    } else {
        Err("invalid value '"@ + s + "'"@)
    }
}

/// A level result as mathematical values.
pub open spec fn detail_result_view(r: Result<Detail, String>) -> Result<Detail, Seq<char>> {
    match r {
        Ok(d) => Ok(d),
        Err(e) => Err(e@),
    }
}

impl Detail {
    /// The level of detail that a `--detail` value names.
    pub fn parse_level(s: &str) -> (r: Result<Detail, String>)
        ensures
            detail_result_view(r) == detail_level(s@),
    {
        let c = chars_of(s);
        if chars_equal_str(c.as_slice(), "default") {
            Ok(Detail::Default)
        } else if chars_equal_str(c.as_slice(), "extended") {
            Ok(Detail::Extended)
        } else if chars_equal_str(c.as_slice(), "full") {
            Ok(Detail::Full)
        } else {
            let mut m: Vec<char> = Vec::new();
            push_str(&mut m, "invalid value '");
            push_all(&mut m, c.as_slice());
            push_str(&mut m, "'");
            Err(string_from_chars(m.as_slice()))
        }
    }
}

impl std::str::FromStr for Detail {
    type Err = String;

    fn from_str(s: &str) -> (r: Result<Self, Self::Err>)
        ensures
            detail_result_view(r) == detail_level(s@),
    {
        Detail::parse_level(s)
    }
}

/// Options of a plain run.
#[derive(Debug)]
pub struct Config {
    pub path: String,
    pub top: Option<u16>,
    pub detail_level: Detail,
    pub reverse: bool,
}

/// What the command line asks for.
#[derive(Debug)]
pub enum Command {
    /// Print the help text.
    Help,
    /// Print the version.
    Version,
    /// Show the report with these options.
    Run(Config),
}

/// The options read so far.
pub struct ArgState {
    pub help: bool,
    pub version: bool,
    pub path: Seq<char>,
    pub top: Option<u16>,
    pub detail: Detail,
    pub reverse: bool,
}

/// The position of the first `timings` or `cargo-timings` argument.
pub open spec fn command_position(args: Seq<Seq<char>>) -> Option<int>
    decreases args.len(),
{
    if args.len() == 0 {
        None
    } else if args[0] == "timings"@ || args[0] == "cargo-timings"@ {
        Some(0)
    } else {
        match command_position(args.drop_first()) {
            Some(k) => Some(k + 1),
            None => None,
        }
    }
}

/// Reads the arguments `rest` into the state `st`, one option at a time; the first
/// bad argument gives its error text.
pub open spec fn read_options(rest: Seq<Seq<char>>, st: ArgState) -> Result<ArgState, Seq<char>>
    decreases rest.len(),
{
    if rest.len() == 0 {
        Ok(st)
    } else {
        let a = rest[0];
        if a == "-h"@ || a == "--help"@ {
            read_options(rest.drop_first(), ArgState { help: true, ..st })
        } else if a == "-V"@ || a == "--version"@ {
            read_options(rest.drop_first(), ArgState { version: true, ..st })
        } else if a == "-r"@ || a == "--reverse"@ {
            read_options(rest.drop_first(), ArgState { reverse: true, ..st })
        } else if a == "--top"@ {
            if rest.len() < 2 {
                Err("'"@ + a + "' requires a value"@)
            } else {
                match parse_unsigned(rest[1], 65535) {
                    Some(n) => read_options(rest.skip(2), ArgState { top: Some(n as u16), ..st }),
                    None => Err(a + ": invalid value '"@ + rest[1] + "'"@),
                }
            }
        } else if a == "--detail"@ {
            if rest.len() < 2 {
                Err("'"@ + a + "' requires a value"@)
            } else {
                match detail_level(rest[1]) {
                    Ok(d) => read_options(rest.skip(2), ArgState { detail: d, ..st }),
                    Err(e) => Err(a + ": "@ + e),
                }
            }
        } else if !starts_with(a, "-"@) && st.path.len() == 0 {
            read_options(rest.drop_first(), ArgState { path: a, ..st })
        } else {
            Err("unknown argument '"@ + a + "'. Use '--help' to see more"@)
        }
    }
}

/// The options before any argument is read.
pub open spec fn initial_options() -> ArgState {
    ArgState {
        help: false,
        version: false,
        path: Seq::empty(),
        top: None,
        detail: Detail::Default,
        reverse: false,
    }
}

/// Path of the report where none is given.
pub open spec fn default_report_path() -> Seq<char> {
    "target/cargo-timings/cargo-timing.html"@
}

/// What the command line `args` asks for: the options are the arguments after the
/// first `timings` or `cargo-timings`; help wins over version, and version over a run.
pub open spec fn command_of(args: Seq<Seq<char>>) -> Result<CommandView, Seq<char>> {
    match command_position(args) {
        None => Err("invalid arguments"@),
        Some(k) => {
            match read_options(args.skip(k + 1), initial_options()) {
                Err(e) => Err(e),
                Ok(st) => if st.help {
                    Ok(CommandView::Help)
                } else if st.version {
                    Ok(CommandView::Version)
                } else {
                    Ok(
                        CommandView::Run(
                            if st.path.len() == 0 {
                                default_report_path()
                            } else {
                                st.path
                            },
                            st.top,
                            st.detail,
                            st.reverse,
                        ),
                    )
                },
            }
        },
    }
}

/// A command as mathematical values (for a run: the path, the limit, the level of
/// detail and whether to reverse).
pub enum CommandView {
    Help,
    Version,
    Run(Seq<char>, Option<u16>, Detail, bool),
}

/// A command result as mathematical values.
pub open spec fn command_result_view(r: Result<Command, String>) -> Result<CommandView, Seq<char>> {
    match r {
        Ok(Command::Help) => Ok(CommandView::Help),
        Ok(Command::Version) => Ok(CommandView::Version),
        Ok(Command::Run(c)) => Ok(
            CommandView::Run(c.path@, c.top, c.detail_level, c.reverse),
        ),
        Err(e) => Err(e@),
    }
}


fn is_one_of(a: &[char], x: &str, y: &str) -> (r: bool)
    ensures
        r == (a@ == x@ || a@ == y@),
{
    chars_equal_str(a, x) || chars_equal_str(a, y)
}

fn message3(a: &str, b: &[char], c: &str) -> (r: String)
    ensures
        r@ == a@ + b@ + c@,
{
    let mut m: Vec<char> = Vec::new();
    push_str(&mut m, a);
    push_all(&mut m, b);
    push_str(&mut m, c);
    string_from_chars(m.as_slice())
}

/// The position of the first `timings` or `cargo-timings` argument.
pub fn find_command(args: &Vec<String>) -> (r: Option<usize>)
    ensures
        match r {
            Some(k) => command_position(args.deep_view()) == Some(k as int),
            None => command_position(args.deep_view()) is None,
        },
        r matches Some(k) ==> k < args@.len(),
{
    let ghost av = args.deep_view();
    let mut i: usize = 0;
    while i < args.len()
        invariant
            i <= args@.len(),
            av == args.deep_view(),
            forall|j: int| 0 <= j < i ==> !(av[j] == "timings"@ || av[j] == "cargo-timings"@),
        decreases args@.len() - i,
    {
        let a = chars_of(args[i].as_str());
        assert(av[i as int] == args@[i as int]@);
        if is_one_of(a.as_slice(), "timings", "cargo-timings") {
            proof {
                lemma_command_position(av, i as int);
            }
            return Some(i);
        }
        i = i + 1;
    }
    proof {
        lemma_command_position(av, i as int);
    }
    None
}

proof fn lemma_command_position(args: Seq<Seq<char>>, i: int)
    requires
        0 <= i <= args.len(),
        forall|j: int| 0 <= j < i ==> !(args[j] == "timings"@ || args[j] == "cargo-timings"@),
    ensures
        i < args.len() && (args[i] == "timings"@ || args[i] == "cargo-timings"@) ==> command_position(
            args,
        ) == Some(i),
        i == args.len() ==> command_position(args) is None,
    decreases i,
{
    if i > 0 {
        let t = args.drop_first();
        assert forall|j: int| 0 <= j < i - 1 implies !(t[j] == "timings"@ || t[j] == "cargo-timings"@) by {
            assert(t[j] == args[j + 1]);
        }
        lemma_command_position(t, i - 1);
    }
}

/// The two names of an option in the option table (the one the help text shows)
/// are read alike: wherever an option is read, its short name has the same effect
/// as its long name, for whatever follows and whatever was read before.
pub proof fn lemma_short_and_long_names_agree(i: int, rest: Seq<Seq<char>>, st: ArgState)
    requires
        0 <= i < option_table().len(),
        option_table()[i].0.len() > 0,
    ensures
        read_options(seq![option_table()[i].0] + rest, st) == read_options(
            seq![option_table()[i].1] + rest,
            st,
        ),
{
    reveal_option_names();
    reveal_strlit("");
    assert((seq![option_table()[i].0] + rest).drop_first() =~= rest);
    assert((seq![option_table()[i].1] + rest).drop_first() =~= rest);
}

/// Help and version, once asked for, stay asked for: reading more arguments
/// never clears them.
pub proof fn lemma_requests_stay(rest: Seq<Seq<char>>, st: ArgState)
    ensures
        read_options(rest, st) matches Ok(end) ==> (st.help ==> end.help) && (st.version ==> end.version),
    decreases rest.len(),
{
    if rest.len() > 0 {
        lemma_requests_stay(rest.drop_first(), ArgState { help: true, ..st });
        lemma_requests_stay(rest.drop_first(), ArgState { version: true, ..st });
        lemma_requests_stay(rest.drop_first(), ArgState { reverse: true, ..st });
        lemma_requests_stay(rest.drop_first(), ArgState { path: rest[0], ..st });
        if rest.len() >= 2 {
            match parse_unsigned(rest[1], 65535) {
                Some(n) => lemma_requests_stay(rest.skip(2), ArgState { top: Some(n as u16), ..st }),
                None => {},
            }
            match detail_level(rest[1]) {
                Ok(d) => lemma_requests_stay(rest.skip(2), ArgState { detail: d, ..st }),
                Err(_) => {},
            }
        }
    }
}

/// Asking for help with either name, anywhere among the options, gives the help
/// where the command line is otherwise valid: after the subcommand, the options
/// `before`, `-h` or `--help`, then `after` give `Help` whenever they read
/// without error.
pub proof fn lemma_help_anywhere(args: Seq<Seq<char>>, before: Seq<Seq<char>>, name: Seq<char>, after: Seq<Seq<char>>)
    requires
        command_position(args) is Some,
        args.skip(command_position(args).unwrap() + 1) == before + seq![name] + after,
        name == "-h"@ || name == "--help"@,
        read_options(before, initial_options()) is Ok,
    ensures
        command_of(args) is Ok ==> command_of(args) == Ok::<CommandView, Seq<char>>(CommandView::Help),
{
    lemma_read_concat(before, seq![name] + after, initial_options());
    let mid = read_options(before, initial_options())->Ok_0;
    assert((seq![name] + after).drop_first() =~= after);
    assert(before + seq![name] + after =~= before + (seq![name] + after));
    lemma_requests_stay(after, ArgState { help: true, ..mid });
}

/// Reading `a + b` reads `a` first, then `b` from where `a` left off, where `a`
/// reads without error and ends on an option boundary.
proof fn lemma_read_concat(a: Seq<Seq<char>>, b: Seq<Seq<char>>, st: ArgState)
    requires
        read_options(a, st) is Ok,
    ensures
        read_options(a + b, st) == read_options(b, read_options(a, st)->Ok_0),
    decreases a.len(),
{
    reveal_option_names();
    if a.len() > 0 {
        assert((a + b)[0] == a[0]);
        assert((a + b).drop_first() =~= a.drop_first() + b);
        let x = a[0];
        if x == "-h"@ || x == "--help"@ {
            lemma_read_concat(a.drop_first(), b, ArgState { help: true, ..st });
        } else if x == "-V"@ || x == "--version"@ {
            lemma_read_concat(a.drop_first(), b, ArgState { version: true, ..st });
        } else if x == "-r"@ || x == "--reverse"@ {
            lemma_read_concat(a.drop_first(), b, ArgState { reverse: true, ..st });
        } else if x == "--top"@ {
            assert(a.len() >= 2);
            assert((a + b)[1] == a[1]);
            assert((a + b).skip(2) =~= a.skip(2) + b);
            let n = parse_unsigned(a[1], 65535)->Some_0;
            lemma_read_concat(a.skip(2), b, ArgState { top: Some(n as u16), ..st });
        } else if x == "--detail"@ {
            assert(a.len() >= 2);
            assert((a + b)[1] == a[1]);
            assert((a + b).skip(2) =~= a.skip(2) + b);
            let d = detail_level(a[1])->Ok_0;
            lemma_read_concat(a.skip(2), b, ArgState { detail: d, ..st });
        } else {
            lemma_read_concat(a.drop_first(), b, ArgState { path: x, ..st });
        }
    } else {
        assert(a + b =~= b);
    }
}

proof fn reveal_option_names()
    ensures
        "-h"@ == seq!['-', 'h'],
        "--help"@ == seq!['-', '-', 'h', 'e', 'l', 'p'],
        "-V"@ == seq!['-', 'V'],
        "--version"@ == seq!['-', '-', 'v', 'e', 'r', 's', 'i', 'o', 'n'],
        "-r"@ == seq!['-', 'r'],
        "--reverse"@ == seq!['-', '-', 'r', 'e', 'v', 'e', 'r', 's', 'e'],
        "--top"@ == seq!['-', '-', 't', 'o', 'p'],
        "--detail"@ == seq!['-', '-', 'd', 'e', 't', 'a', 'i', 'l'],
        "-"@ == seq!['-'],
{
    reveal_strlit("-h");
    reveal_strlit("--help");
    reveal_strlit("-V");
    reveal_strlit("--version");
    reveal_strlit("-r");
    reveal_strlit("--reverse");
    reveal_strlit("--top");
    reveal_strlit("--detail");
    reveal_strlit("-");
    assert("-h"@ =~= seq!['-', 'h']);
    assert("--help"@ =~= seq!['-', '-', 'h', 'e', 'l', 'p']);
    assert("-V"@ =~= seq!['-', 'V']);
    assert("--version"@ =~= seq!['-', '-', 'v', 'e', 'r', 's', 'i', 'o', 'n']);
    assert("-r"@ =~= seq!['-', 'r']);
    assert("--reverse"@ =~= seq!['-', '-', 'r', 'e', 'v', 'e', 'r', 's', 'e']);
    assert("--top"@ =~= seq!['-', '-', 't', 'o', 'p']);
    assert("--detail"@ =~= seq!['-', '-', 'd', 'e', 't', 'a', 'i', 'l']);
    assert("-"@ =~= seq!['-']);
}

/// What the command line `args` asks for: the options after the first `timings`
/// or `cargo-timings` argument, read one at a time; the first bad argument gives
/// the error text.
pub fn parse_arg_list(args: &Vec<String>) -> (r: Result<Command, String>)
    ensures
        command_result_view(r) == command_of(args.deep_view()),
{
    let ghost av = args.deep_view();
    let k = match find_command(args) {
        Some(k) => k,
        None => {
            return Err(string_from_chars(chars_of("invalid arguments").as_slice()));
        },
    };
    let mut help = false;
    let mut version = false;
    let mut path: Vec<char> = Vec::new();
    let mut top: Option<u16> = None;
    let mut detail = Detail::Default;
    let mut reverse = false;
    let n = args.len();
    let mut i: usize = k + 1;
    assert(path@ =~= Seq::<char>::empty());
    while i < n
        invariant
            k < i <= n,
            n == args@.len(),
            av == args.deep_view(),
            command_position(av) == Some(k as int),
            read_options(av.skip(k + 1), initial_options()) == read_options(
                av.skip(i as int),
                ArgState { help, version, path: path@, top, detail, reverse },
            ),
        decreases args@.len() + 1 - i,
    {
        proof {
            reveal_option_names();
        }
        let ghost rest = av.skip(i as int);
        assert(rest[0] == av[i as int]);
        assert(av[i as int] == args@[i as int]@);
        assert(rest.drop_first() =~= av.skip(i + 1));
        let a = chars_of(args[i].as_str());
        if is_one_of(a.as_slice(), "-h", "--help") {
            help = true;
            i = i + 1;
        } else if is_one_of(a.as_slice(), "-V", "--version") {
            version = true;
            i = i + 1;
        } else if is_one_of(a.as_slice(), "-r", "--reverse") {
            reverse = true;
            i = i + 1;
        } else if chars_equal_str(a.as_slice(), "--top") {
            if i + 1 >= args.len() {
                return Err(message3("'", a.as_slice(), "' requires a value"));
            }
            assert(rest[1] == av[i + 1]);
            assert(av[i + 1] == args@[i + 1]@);
            assert(rest.skip(2) =~= av.skip(i + 2));
            let v = chars_of(args[i + 1].as_str());
            match parse_unsigned_chars(v.as_slice(), 65535) {
                Some(n) => {
                    top = Some(n as u16);
                    i = i + 2;
                },
                None => {
                    let mut m: Vec<char> = Vec::new();
                    push_all(&mut m, a.as_slice());
                    push_str(&mut m, ": invalid value '");
                    push_all(&mut m, v.as_slice());
                    push_str(&mut m, "'");
                    return Err(string_from_chars(m.as_slice()));
                },
            }
        } else if chars_equal_str(a.as_slice(), "--detail") {
            if i + 1 >= args.len() {
                return Err(message3("'", a.as_slice(), "' requires a value"));
            }
            assert(rest[1] == av[i + 1]);
            assert(av[i + 1] == args@[i + 1]@);
            assert(rest.skip(2) =~= av.skip(i + 2));
            match Detail::parse_level(args[i + 1].as_str()) {
                Ok(d) => {
                    detail = d;
                    i = i + 2;
                },
                Err(e) => {
                    let ec = chars_of(e.as_str());
                    let mut m: Vec<char> = Vec::new();
                    push_all(&mut m, a.as_slice());
                    push_str(&mut m, ": ");
                    push_all(&mut m, ec.as_slice());
                    return Err(string_from_chars(m.as_slice()));
                },
            }
        } else if !starts_with_chars(a.as_slice(), chars_of("-").as_slice()) && path.len() == 0 {
            path = a;
            i = i + 1;
        } else {
            return Err(message3("unknown argument '", a.as_slice(), "'. Use '--help' to see more"));
        }
    }
    assert(av.skip(i as int) =~= Seq::<Seq<char>>::empty());
    if help {
        return Ok(Command::Help);
    }
    if version {
        return Ok(Command::Version);
    }
    let path_text = if path.len() == 0 {
        string_from_chars(chars_of("target/cargo-timings/cargo-timing.html").as_slice())
    } else {
        string_from_chars(path.as_slice())
    };
    Ok(Command::Run(Config { path: path_text, top, detail_level: detail, reverse }))
}

} // verus!
