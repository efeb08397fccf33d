//! The plain-text report.
use vstd::prelude::*;
use crate::config::{Config, ConfigView, Detail};
use crate::formaters::{duration_text, fmt_dur};
use crate::parser::{Summary, SummaryView, TimingView, timings_view};
use crate::sorting::{first_at_most, kept, passes, retain_passing, sort_by_total, sorted_by_total};
use crate::text::{
    byte_len, byte_len_of, chars_of, debug_list, debug_list_text, decimal, pad_right,
    push_all, push_decimal, push_padded, push_str, string_from_chars,
};

verus! {

/// The units that the report lists: all units ordered by total time, then those
/// that took at least the minimum time and whose name contains the search text,
/// then at most `top` of them from the front.
pub open spec fn listed_units(s: Seq<TimingView>, c: ConfigView) -> Seq<TimingView> {
    first_at_most(sorted_by_total(s, c.order).filter(|t: TimingView| kept(t, c)), c.top)
}

/// Text of an optional duration: the duration, or nothing.
pub open spec fn optional_duration_text(d: Option<u128>) -> Seq<char> {
    match d {
        Some(n) => duration_text(n as nat),
        None => Seq::empty(),
    }
}

/// Larger of two numbers.
pub open spec fn max_nat(a: nat, b: nat) -> nat {
    if a >= b {
        a
    } else {
        b
    }
}

/// Column widths (unit, total, front end, code generation) of the listing: each
/// is the width of its heading or of its widest entry, the unit column counting
/// bytes of the name.
pub open spec fn column_widths(ts: Seq<TimingView>) -> (nat, nat, nat, nat)
    decreases ts.len(),
{
    if ts.len() == 0 {
        (4, 5, 8, 7)
    } else {
        let w = column_widths(ts.drop_last());
        let t = ts.last();
        (
            max_nat(w.0, byte_len(t.unit) as nat),
            max_nat(w.1, duration_text(t.total as nat).len()),
            max_nat(w.2, optional_duration_text(t.frontend).len()),
            max_nat(w.3, optional_duration_text(t.codegen).len()),
        )
    }
}

/// Heading of the listing for a level of detail.
pub open spec fn heading(d: Detail, w: (nat, nat, nat, nat)) -> Seq<char> {
    let base = pad_right("UNIT"@, w.0, '.') + " "@ + pad_right("TOTAL"@, w.1, ' ');
    let extended = base + " "@ + pad_right("FRONTEND"@, w.2, ' ') + " "@ + pad_right(
        "CODEGEN"@,
        w.3,
        ' ',
    );
    match d {
        Detail::Default => base,
        Detail::Extended => extended,
        Detail::Full => extended + " FEATURES"@,
    }
}

/// Line of the listing for one unit.
pub open spec fn unit_row(d: Detail, w: (nat, nat, nat, nat), t: TimingView) -> Seq<char> {
    let base = pad_right(t.unit, w.0, ' ') + " "@ + pad_right(
        duration_text(t.total as nat),
        w.1,
        ' ',
    );
    let extended = base + " "@ + pad_right(optional_duration_text(t.frontend), w.2, ' ') + " "@
        + pad_right(optional_duration_text(t.codegen), w.3, ' ');
    match d {
        Detail::Default => base,
        Detail::Extended => extended,
        Detail::Full => extended + " "@ + debug_list_text(t.features),
    }
}

/// Lines about the whole build, before the listing.
pub open spec fn head_lines(d: Detail, s: SummaryView) -> Seq<Seq<char>> {
    let targets = "TARGETS: "@ + debug_list_text(s.targets);
    let total = "TOTAL TIME: "@ + duration_text(s.total_time as nat);
    match d {
        Detail::Full => seq![
            targets,
            "PROFILE: "@ + s.profile,
            "FRESH UNITS: "@ + decimal(s.fresh_units as nat),
            "DIRTY UNITS: "@ + decimal(s.dirty_units as nat),
            "TOTAL UNITS: "@ + decimal(s.total_units as nat),
            "MAX COUNCURENCY: "@ + decimal(s.max_concurency as nat),
            "CONCURENCY DETAIS: "@ + s.concurency_details,
            "BUILD START: "@ + s.build_start,
            total,
            "RUSTC: "@ + debug_list_text(s.rustc),
        ],
        _ => seq![targets, total],
    }
}

/// The lines of the plain-text report of `s` under the options `c`.
pub open spec fn summary_text(s: SummaryView, c: ConfigView) -> Seq<Seq<char>> {
    let units = listed_units(s.timings, c);
    let w = column_widths(units);
    head_lines(c.detail_level, s) + seq![heading(c.detail_level, w)] + units.map_values(
        |t: TimingView| unit_row(c.detail_level, w, t),
    )
}

/// The units that the report lists all took at least the minimum time and have
/// the search text in their name, there are at most `top` of them, they are in
/// the order asked for, and each is a unit of the report.
pub proof fn lemma_listed_units(s: Seq<TimingView>, c: ConfigView)
    ensures
        forall|i: int| 0 <= i < listed_units(s, c).len() ==> kept(#[trigger] listed_units(s, c)[i], c),
        forall|i: int| 0 <= i < listed_units(s, c).len() ==> s.contains(#[trigger] listed_units(s, c)[i]),
        c.top matches Some(n) ==> listed_units(s, c).len() <= n,
        crate::sorting::is_ordered(listed_units(s, c), c.order),
{
    broadcast use vstd::seq_lib::group_to_multiset_ensures;

    let p = |t: TimingView| kept(t, c);
    let o = sorted_by_total(s, c.order);
    crate::sorting::lemma_sorted_is_ordered(s, c.order);
    crate::sorting::lemma_sorted_is_permutation(s, c.order);
    crate::sorting::lemma_filter_keeps_order(o, c.order, p);
    let f = o.filter(p);
    let l = listed_units(s, c);
    assert forall|i: int| 0 <= i < l.len() implies kept(#[trigger] l[i], c) && s.contains(l[i]) by {
        assert(l[i] == f[i]);
        assert(o.contains(f[i]));
        let k = choose|k: int| 0 <= k < o.len() && o[k] == f[i];
        assert(o.to_multiset().count(o[k]) > 0);
    }
    assert(crate::sorting::is_ordered(l, c.order)) by {
        assert forall|i: int, j: int| 0 <= i < j < l.len() implies crate::sorting::in_order(
            #[trigger] l[i],
            #[trigger] l[j],
            c.order,
        ) by {
            assert(l[i] == f[i] && l[j] == f[j]);
        }
    }
}

/// The listing leaves out no unit it should list, except for the limit: a unit of
/// the report that took at least the minimum time and has the search text in its
/// name, but is not listed, is left out only because `top` units are already
/// listed, each of which may come before it in the order asked for.  So the
/// search and time filters are applied before the limit, not after.
pub proof fn lemma_listed_units_complete(s: Seq<TimingView>, c: ConfigView, t: TimingView)
    requires
        s.contains(t),
        kept(t, c),
        !listed_units(s, c).contains(t),
    ensures
        c.top matches Some(n) && listed_units(s, c).len() == n,
        forall|j: int|
            0 <= j < listed_units(s, c).len() ==> crate::sorting::in_order(
                #[trigger] listed_units(s, c)[j],
                t,
                c.order,
            ),
{
    broadcast use vstd::seq_lib::group_to_multiset_ensures;

    let p = |x: TimingView| kept(x, c);
    let o = sorted_by_total(s, c.order);
    crate::sorting::lemma_sorted_is_ordered(s, c.order);
    crate::sorting::lemma_sorted_is_permutation(s, c.order);
    assert(s.to_multiset().count(t) > 0);
    assert(o.contains(t));
    let k = choose|k: int| 0 <= k < o.len() && o[k] == t;
    o.filter_lemma(p);
    assert(o.filter(p).contains(o[k]));
    crate::sorting::lemma_filter_keeps_order(o, c.order, p);
    crate::sorting::lemma_prefix_leaves_out_later(o.filter(p), c.top, c.order, t);
}

proof fn lemma_column_widths_bound(ts: Seq<TimingView>)
    requires
        forall|i: int| 0 <= i < ts.len() ==> vstd::utf8::encode_utf8((#[trigger] ts[i]).unit).len() <= usize::MAX,
    ensures
        column_widths(ts).0 >= 4,
        column_widths(ts).1 >= 5,
        column_widths(ts).2 >= 8,
        column_widths(ts).3 >= 7,
        forall|i: int| 0 <= i < ts.len() ==> {
            &&& (#[trigger] ts[i]).unit.len() <= column_widths(ts).0
            &&& duration_text(ts[i].total as nat).len() <= column_widths(ts).1
            &&& optional_duration_text(ts[i].frontend).len() <= column_widths(ts).2
            &&& optional_duration_text(ts[i].codegen).len() <= column_widths(ts).3
        },
    decreases ts.len(),
{
    if ts.len() > 0 {
        let t = ts.drop_last();
        assert forall|i: int| 0 <= i < t.len() implies vstd::utf8::encode_utf8((#[trigger] t[i]).unit).len()
            <= usize::MAX by {
            assert(t[i] == ts[i]);
        }
        lemma_column_widths_bound(t);
        crate::text::lemma_chars_within_bytes(ts.last().unit);
        assert(vstd::utf8::encode_utf8(ts[ts.len() - 1].unit).len() <= usize::MAX);
        assert forall|i: int| 0 <= i < ts.len() implies {
            &&& (#[trigger] ts[i]).unit.len() <= column_widths(ts).0
            &&& duration_text(ts[i].total as nat).len() <= column_widths(ts).1
            &&& optional_duration_text(ts[i].frontend).len() <= column_widths(ts).2
            &&& optional_duration_text(ts[i].codegen).len() <= column_widths(ts).3
        } by {
            if i < t.len() {
                assert(t[i] == ts[i]);
            }
        }
    }
}

/// The columns of the listing line up: every column is padded to its widest
/// entry (the unit column counting bytes, which is never fewer than characters),
/// so at the default and extended levels each unit's line is exactly as long as
/// the heading, and at the full level each unit's features start where the
/// heading's `FEATURES` does.  Holds where each name's UTF-8 length fits in a
/// `usize`, as that of any `String` does.
pub proof fn lemma_listing_columns_align(s: Seq<TimingView>, c: ConfigView)
    requires
        forall|i: int| 0 <= i < s.len() ==> vstd::utf8::encode_utf8((#[trigger] s[i]).unit).len() <= usize::MAX,
    ensures
        forall|i: int|
            0 <= i < listed_units(s, c).len() ==> {
                let w = column_widths(listed_units(s, c));
                let t = #[trigger] listed_units(s, c)[i];
                &&& unit_row(Detail::Default, w, t).len() == heading(Detail::Default, w).len()
                &&& unit_row(Detail::Extended, w, t).len() == heading(Detail::Extended, w).len()
                &&& unit_row(Detail::Full, w, t).len() - debug_list_text(t.features).len() == heading(
                    Detail::Full,
                    w,
                ).len() - "FEATURES"@.len()
            },
{
    let l = listed_units(s, c);
    let w = column_widths(l);
    lemma_listed_units(s, c);
    assert forall|i: int| 0 <= i < l.len() implies vstd::utf8::encode_utf8((#[trigger] l[i]).unit).len()
        <= usize::MAX by {
        let k = choose|k: int| 0 <= k < s.len() && s[k] == l[i];
        assert(vstd::utf8::encode_utf8(s[k].unit).len() <= usize::MAX);
    }
    lemma_column_widths_bound(l);
    reveal_strlit("UNIT");
    reveal_strlit("TOTAL");
    reveal_strlit("FRONTEND");
    reveal_strlit("CODEGEN");
    reveal_strlit(" ");
    reveal_strlit(" FEATURES");
    reveal_strlit("FEATURES");
    assert forall|i: int| 0 <= i < l.len() implies {
        let t = #[trigger] l[i];
        &&& unit_row(Detail::Default, w, t).len() == heading(Detail::Default, w).len()
        &&& unit_row(Detail::Extended, w, t).len() == heading(Detail::Extended, w).len()
        &&& unit_row(Detail::Full, w, t).len() - debug_list_text(t.features).len() == heading(
            Detail::Full,
            w,
        ).len() - "FEATURES"@.len()
    } by {
        let t = l[i];
        crate::text::lemma_pad_right_len(t.unit, w.0, ' ');
        crate::text::lemma_pad_right_len("UNIT"@, w.0, '.');
        crate::text::lemma_pad_right_len(duration_text(t.total as nat), w.1, ' ');
        crate::text::lemma_pad_right_len("TOTAL"@, w.1, ' ');
        crate::text::lemma_pad_right_len(optional_duration_text(t.frontend), w.2, ' ');
        crate::text::lemma_pad_right_len("FRONTEND"@, w.2, ' ');
        crate::text::lemma_pad_right_len(optional_duration_text(t.codegen), w.3, ' ');
        crate::text::lemma_pad_right_len("CODEGEN"@, w.3, ' ');
    }
}

fn optional_duration(d: Option<u128>) -> (r: Vec<char>)
    ensures
        r@ == optional_duration_text(d),
{
    match d {
        Some(n) => {
            let s = fmt_dur(n);
            chars_of(s.as_str())
        },
        None => Vec::new(),
    }
}

fn max_usize(a: usize, b: usize) -> (r: usize)
    ensures
        r as nat == max_nat(a as nat, b as nat),
{
    if a >= b {
        a
    } else {
        b
    }
}

fn labelled(label: &str, value: &[char]) -> (r: String)
    ensures
        r@ == label@ + value@,
{
    let mut v: Vec<char> = Vec::new();
    push_str(&mut v, label);
    push_all(&mut v, value);
    string_from_chars(v.as_slice())
}

fn labelled_number(label: &str, n: u32) -> (r: String)
    ensures
        r@ == label@ + decimal(n as nat),
{
    let mut v: Vec<char> = Vec::new();
    push_str(&mut v, label);
    push_decimal(&mut v, n as u128);
    string_from_chars(v.as_slice())
}

fn push_string(lines: &mut Vec<String>, s: String)
    ensures
        final(lines).deep_view() == old(lines).deep_view().push(s@),
{
    let ghost before = lines.deep_view();
    let ghost sv = s@;
    lines.push(s);
    assert(lines.deep_view() =~= before.push(sv));
}

/// The lines of the plain-text report: the build lines the level of detail asks for,
/// a heading, and one line per listed unit, with columns padded to the widest entry.
pub fn summary_lines(summary: Summary, config: &Config) -> (r: Vec<String>)
    ensures
        r.deep_view() == summary_text(summary@, config@),
{
    let ghost sv = summary@;
    let ghost c = config@;
    let Summary {
        targets,
        profile,
        fresh_units,
        dirty_units,
        total_units,
        max_concurency,
        concurency_details,
        build_start,
        total_time,
        rustc,
        timings,
    } = summary;
    let mut timings = timings;
    sort_by_total(&mut timings, config.order);
    retain_passing(&mut timings, config.min_time, &config.search);
    assert((|t: TimingView| passes(t, c.min_time, c.search)) =~= (|t: TimingView| kept(t, c)));
    let ghost filtered = timings_view(timings@);
    if let Some(n) = config.top {
        timings.truncate(n);
        assert(timings_view(timings@) =~= first_at_most(filtered, config.top));
    }
    assert(timings_view(timings@) =~= first_at_most(filtered, config.top));
    let ghost units = timings_view(timings@);
    assert(units == listed_units(sv.timings, c));
    // Column widths.
    let mut wu: usize = 4;
    let mut wt: usize = 5;
    let mut wf: usize = 8;
    let mut wc: usize = 7;
    let mut i: usize = 0;
    assert(units.take(0) =~= Seq::<TimingView>::empty());
    while i < timings.len()
        invariant
            i <= timings@.len(),
            units == timings_view(timings@),
            column_widths(units.take(i as int)) == (wu as nat, wt as nat, wf as nat, wc as nat),
        decreases timings@.len() - i,
    {
        let t = &timings[i];
        assert(units.take(i + 1).drop_last() =~= units.take(i as int));
        assert(units.take(i + 1).last() == t@);
        let total_text = fmt_dur(t.total);
        let front_text = optional_duration(t.frontend);
        let code_text = optional_duration(t.codegen);
        wu = max_usize(wu, byte_len_of(&t.unit));
        wt = max_usize(wt, total_text.as_str().unicode_len());
        wf = max_usize(wf, front_text.len());
        wc = max_usize(wc, code_text.len());
        i = i + 1;
    }
    assert(units.take(timings@.len() as int) =~= units);
    let ghost w = column_widths(units);
    let detail = config.detail_level;
    // Lines about the whole build.
    let mut lines: Vec<String> = Vec::new();
    let targets_text = debug_list(&targets);
    let total_text = fmt_dur(total_time);
    push_string(&mut lines, labelled("TARGETS: ", chars_of(targets_text.as_str()).as_slice()));
    match detail {
        Detail::Full => {
            push_string(&mut lines, labelled("PROFILE: ", chars_of(profile.as_str()).as_slice()));
            push_string(&mut lines, labelled_number("FRESH UNITS: ", fresh_units));
            push_string(&mut lines, labelled_number("DIRTY UNITS: ", dirty_units));
            push_string(&mut lines, labelled_number("TOTAL UNITS: ", total_units));
            push_string(&mut lines, labelled_number("MAX COUNCURENCY: ", max_concurency));
            push_string(
                &mut lines,
                labelled("CONCURENCY DETAIS: ", chars_of(concurency_details.as_str()).as_slice()),
            );
            push_string(
                &mut lines,
                labelled("BUILD START: ", chars_of(build_start.as_str()).as_slice()),
            );
            push_string(&mut lines, labelled("TOTAL TIME: ", chars_of(total_text.as_str()).as_slice()));
            let rustc_text = debug_list(&rustc);
            push_string(&mut lines, labelled("RUSTC: ", chars_of(rustc_text.as_str()).as_slice()));
        },
        _ => {
            push_string(&mut lines, labelled("TOTAL TIME: ", chars_of(total_text.as_str()).as_slice()));
        },
    }
    assert(lines.deep_view() =~= head_lines(detail, sv));
    // Heading.
    let mut h: Vec<char> = Vec::new();
    push_padded(&mut h, chars_of("UNIT").as_slice(), wu, '.');
    h.push(' ');
    push_padded(&mut h, chars_of("TOTAL").as_slice(), wt, ' ');
    match detail {
        Detail::Default => {},
        _ => {
            h.push(' ');
            push_padded(&mut h, chars_of("FRONTEND").as_slice(), wf, ' ');
            h.push(' ');
            push_padded(&mut h, chars_of("CODEGEN").as_slice(), wc, ' ');
            if let Detail::Full = detail {
                push_str(&mut h, " FEATURES");
            }
        },
    }
    proof {
        reveal_strlit(" ");
        reveal_strlit(" FEATURES");
    }
    assert(h@ =~= heading(detail, w));
    push_string(&mut lines, string_from_chars(h.as_slice()));
    // One line per unit.
    let ghost head = lines.deep_view();
    let mut k: usize = 0;
    while k < timings.len()
        invariant
            k <= timings@.len(),
            units == timings_view(timings@),
            w == (wu as nat, wt as nat, wf as nat, wc as nat),
            lines.deep_view() == head + units.take(k as int).map_values(
                |t: TimingView| unit_row(detail, w, t),
            ),
        decreases timings@.len() - k,
    {
        let t = &timings[k];
        assert(units[k as int] == t@);
        let mut row: Vec<char> = Vec::new();
        push_padded(&mut row, chars_of(t.unit.as_str()).as_slice(), wu, ' ');
        row.push(' ');
        let total_text = fmt_dur(t.total);
        push_padded(&mut row, chars_of(total_text.as_str()).as_slice(), wt, ' ');
        match detail {
            Detail::Default => {},
            _ => {
                row.push(' ');
                push_padded(&mut row, optional_duration(t.frontend).as_slice(), wf, ' ');
                row.push(' ');
                push_padded(&mut row, optional_duration(t.codegen).as_slice(), wc, ' ');
                if let Detail::Full = detail {
                    row.push(' ');
                    let features_text = debug_list(&t.features);
                    push_all(&mut row, chars_of(features_text.as_str()).as_slice());
                }
            },
        }
        proof {
            reveal_strlit(" ");
        }
        assert(row@ =~= unit_row(detail, w, t@));
        push_string(&mut lines, string_from_chars(row.as_slice()));
        assert(units.take(k + 1).map_values(|t: TimingView| unit_row(detail, w, t)) =~= units.take(
            k as int,
        ).map_values(|t: TimingView| unit_row(detail, w, t)).push(unit_row(detail, w, t@)));
        k = k + 1;
    }
    assert(units.take(timings@.len() as int) =~= units);
    lines
}

} // verus!
