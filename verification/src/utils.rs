//! The help text.
use vstd::prelude::*;
use crate::args::{ArgDef, arg_def_view, arg_scheme, option_table};
use crate::cli::output::max_nat;
use crate::text::{byte_len, pad_right, push_padded, push_str, string_from_chars, chars_of, push_all};

verus! {

/// Widths of the option columns (short name, long name, value name): the largest
/// length in bytes of each.
pub open spec fn option_widths(t: Seq<(Seq<char>, Seq<char>, Seq<char>, Seq<char>)>) -> (nat, nat, nat)
    decreases t.len(),
{
    if t.len() == 0 {
        (0, 0, 0)
    } else {
        let w = option_widths(t.drop_last());
        let o = t.last();
        (
            max_nat(w.0, byte_len(o.0) as nat),
            max_nat(w.1, byte_len(o.1) as nat),
            max_nat(w.2, byte_len(o.2) as nat),
        )
    }
}

proof fn lemma_ascii_len(s: Seq<char>)
    requires
        vstd::utf8::is_ascii_chars(s),
        s.len() <= 100,
    ensures
        byte_len(s) as nat == s.len(),
{
    vstd::utf8::is_ascii_chars_encode_utf8(s);
}

proof fn lemma_option_widths()
    ensures
        option_widths(option_table()) == (2nat, 9nat, 7nat),
{
    reveal_strlit("-h");
    reveal_strlit("-V");
    reveal_strlit("-r");
    reveal_strlit("");
    reveal_strlit("--help");
    reveal_strlit("--version");
    reveal_strlit("--top");
    reveal_strlit("--reverse");
    reveal_strlit("--detail");
    reveal_strlit("<NUM>");
    reveal_strlit("<LEVEL>");
    lemma_ascii_len("-h"@);
    lemma_ascii_len("-V"@);
    lemma_ascii_len("-r"@);
    lemma_ascii_len(""@);
    lemma_ascii_len("--help"@);
    lemma_ascii_len("--version"@);
    lemma_ascii_len("--top"@);
    lemma_ascii_len("--reverse"@);
    lemma_ascii_len("--detail"@);
    lemma_ascii_len("<NUM>"@);
    lemma_ascii_len("<LEVEL>"@);
    let t = option_table();
    assert(t.drop_last().drop_last().drop_last().drop_last().drop_last() =~= Seq::<(Seq<char>, Seq<char>, Seq<char>, Seq<char>)>::empty());
    reveal_with_fuel(option_widths, 6);
}

/// The help line of one option: the short name padded to the short-name column,
/// the long and value names padded to the long-name and value-name columns and
/// three more, then the description.
pub open spec fn option_line(o: (Seq<char>, Seq<char>, Seq<char>, Seq<char>), w: (nat, nat, nat)) -> Seq<char> {
    "  "@ + pad_right(o.0, w.0, ' ') + " "@ + pad_right(o.1 + "  "@ + o.2, w.1 + w.2 + 3, ' ')
        + o.3 + "\n"@
}

proof fn lemma_option_widths_bound(t: Seq<(Seq<char>, Seq<char>, Seq<char>, Seq<char>)>)
    requires
        forall|i: int|
            0 <= i < t.len() ==> {
                &&& vstd::utf8::encode_utf8((#[trigger] t[i]).0).len() <= usize::MAX
                &&& vstd::utf8::encode_utf8(t[i].1).len() <= usize::MAX
                &&& vstd::utf8::encode_utf8(t[i].2).len() <= usize::MAX
            },
    ensures
        forall|i: int|
            0 <= i < t.len() ==> {
                &&& (#[trigger] t[i]).0.len() <= option_widths(t).0
                &&& t[i].1.len() <= option_widths(t).1
                &&& t[i].2.len() <= option_widths(t).2
            },
    decreases t.len(),
{
    if t.len() > 0 {
        let u = t.drop_last();
        assert forall|i: int| 0 <= i < u.len() implies {
            &&& vstd::utf8::encode_utf8((#[trigger] u[i]).0).len() <= usize::MAX
            &&& vstd::utf8::encode_utf8(u[i].1).len() <= usize::MAX
            &&& vstd::utf8::encode_utf8(u[i].2).len() <= usize::MAX
        } by {
            assert(u[i] == t[i]);
        }
        lemma_option_widths_bound(u);
        let o = t[t.len() - 1];
        crate::text::lemma_chars_within_bytes(o.0);
        crate::text::lemma_chars_within_bytes(o.1);
        crate::text::lemma_chars_within_bytes(o.2);
        assert forall|i: int| 0 <= i < t.len() implies {
            &&& (#[trigger] t[i]).0.len() <= option_widths(t).0
            &&& t[i].1.len() <= option_widths(t).1
            &&& t[i].2.len() <= option_widths(t).2
        } by {
            if i < u.len() {
                assert(u[i] == t[i]);
            }
        }
    }
}

/// The column at which option descriptions start for column widths `w`: after
/// two spaces, the short-name column, a space, and the long-and-value column
/// (three wider than the widest long name and the widest value name together).
pub open spec fn description_column(w: (nat, nat, nat)) -> int {
    (6 + w.0 + w.1 + w.2) as int
}

/// The descriptions in the help text line up: in every option's line the
/// description starts at the same column, `description_column` of the widths.
/// Holds where each name's UTF-8 length fits in a `usize`, as that of any `str`
/// does.
pub proof fn lemma_help_columns_align(t: Seq<(Seq<char>, Seq<char>, Seq<char>, Seq<char>)>)
    requires
        forall|i: int|
            0 <= i < t.len() ==> {
                &&& vstd::utf8::encode_utf8((#[trigger] t[i]).0).len() <= usize::MAX
                &&& vstd::utf8::encode_utf8(t[i].1).len() <= usize::MAX
                &&& vstd::utf8::encode_utf8(t[i].2).len() <= usize::MAX
            },
    ensures
        forall|i: int|
            0 <= i < t.len() ==> (#[trigger] option_line(t[i], option_widths(t))).subrange(
                description_column(option_widths(t)),
                description_column(option_widths(t)) + t[i].3.len(),
            ) == t[i].3,
{
    let w = option_widths(t);
    let col = description_column(w);
    lemma_option_widths_bound(t);
    reveal_strlit("  ");
    reveal_strlit(" ");
    reveal_strlit("\n");
    assert forall|i: int| 0 <= i < t.len() implies (#[trigger] option_line(t[i], option_widths(t))).subrange(
        col,
        col + t[i].3.len(),
    ) == t[i].3 by {
        let o = t[i];
        crate::text::lemma_pad_right_len(o.0, w.0, ' ');
        crate::text::lemma_pad_right_len(o.1 + "  "@ + o.2, w.1 + w.2 + 3, ' ');
        let head = "  "@ + pad_right(o.0, w.0, ' ') + " "@ + pad_right(o.1 + "  "@ + o.2, w.1 + w.2 + 3, ' ');
        assert(head.len() == col);
        assert(option_line(o, w) == head + o.3 + "\n"@);
        assert((head + o.3 + "\n"@).subrange(col, col + o.3.len()) =~= o.3);
    }
}

/// The help lines of the options in `t`.
pub open spec fn option_lines(t: Seq<(Seq<char>, Seq<char>, Seq<char>, Seq<char>)>, w: (nat, nat, nat)) -> Seq<char>
    decreases t.len(),
{
    if t.len() == 0 {
        Seq::empty()
    } else {
        option_lines(t.drop_last(), w) + option_line(t.last(), w)
    }
}

/// The help text for the program `bin` described by `description`.
pub open spec fn help_text_of(bin: Seq<char>, description: Seq<char>) -> Seq<char> {
    "Usage: "@ + bin + " [OPTIONS] <PATH>\n\n"@ + description + "\n\n"@ + "Options:\n"@
        + option_lines(option_table(), option_widths(option_table()))
}

/// The help text for the program `bin` described by `description`: usage,
/// description, and one aligned line per option.
pub fn help_text(bin: &str, description: &str) -> (r: String)
    ensures
        r@ == help_text_of(bin@, description@),
{
    let scheme = arg_scheme();
    let ghost t = option_table();
    assert(forall|i: int| 0 <= i < scheme@.len() ==> arg_def_view(#[trigger] scheme@[i]) == t[i]);
    let mut ws: usize = 0;
    let mut wl: usize = 0;
    let mut wv: usize = 0;
    let mut i: usize = 0;
    assert(t.take(0) =~= Seq::<(Seq<char>, Seq<char>, Seq<char>, Seq<char>)>::empty());
    while i < scheme.len()
        invariant
            i <= scheme@.len(),
            scheme@.len() == t.len(),
            t == option_table(),
            forall|j: int| 0 <= j < scheme@.len() ==> arg_def_view(#[trigger] scheme@[j]) == t[j],
            option_widths(t.take(i as int)) == (ws as nat, wl as nat, wv as nat),
        decreases scheme@.len() - i,
    {
        let o = &scheme[i];
        assert(arg_def_view(*o) == t[i as int]);
        assert(t.take(i + 1).drop_last() =~= t.take(i as int));
        ws = if o.short.len() > ws { o.short.len() } else { ws };
        wl = if o.long.len() > wl { o.long.len() } else { wl };
        wv = if o.vname.len() > wv { o.vname.len() } else { wv };
        i = i + 1;
    }
    assert(t.take(t.len() as int) =~= t);
    let ghost w = option_widths(t);
    proof {
        lemma_option_widths();
    }
    let width = wl + wv + 3;
    let mut out: Vec<char> = Vec::new();
    push_str(&mut out, "Usage: ");
    push_str(&mut out, bin);
    push_str(&mut out, " [OPTIONS] <PATH>\n\n");
    push_str(&mut out, description);
    push_str(&mut out, "\n\n");
    push_str(&mut out, "Options:\n");
    let ghost head = out@;
    let mut k: usize = 0;
    assert(t.take(0) =~= Seq::<(Seq<char>, Seq<char>, Seq<char>, Seq<char>)>::empty());
    while k < scheme.len()
        invariant
            k <= scheme@.len(),
            scheme@.len() == t.len(),
            forall|j: int| 0 <= j < scheme@.len() ==> arg_def_view(#[trigger] scheme@[j]) == t[j],
            w == (ws as nat, wl as nat, wv as nat),
            width == wl + wv + 3,
            out@ == head + option_lines(t.take(k as int), w),
        decreases scheme@.len() - k,
    {
        let o = &scheme[k];
        assert(arg_def_view(*o) == t[k as int]);
        assert(t.take(k + 1).drop_last() =~= t.take(k as int));
        push_str(&mut out, "  ");
        push_padded(&mut out, chars_of(o.short).as_slice(), ws, ' ');
        push_str(&mut out, " ");
        let mut name: Vec<char> = chars_of(o.long);
        push_str(&mut name, "  ");
        push_str(&mut name, o.vname);
        push_padded(&mut out, name.as_slice(), width, ' ');
        push_str(&mut out, o.desc);
        push_str(&mut out, "\n");
        assert(out@ =~= head + option_lines(t.take(k + 1), w));
        k = k + 1;
    }
    assert(t.take(t.len() as int) =~= t);
    string_from_chars(out.as_slice())
}

} // verus!
