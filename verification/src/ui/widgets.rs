//! A list that wraps into side-by-side columns: which items each visible column
//! holds.
use vstd::prelude::*;

verus! {

/// The number of columns needed for `n` items, `h` to a column.
pub open spec fn columns_needed(n: nat, h: nat) -> nat
    recommends
        h > 0,
{
    ((n + h - 1) / (h as int)) as nat
}

/// The number of visible columns for `n` items in an area `h` rows high and `w`
/// cells wide, with columns `cw` cells wide: as many as the items need, but no
/// more than fit.
pub open spec fn visible_columns(n: nat, h: nat, w: nat, cw: nat) -> nat
    recommends
        cw > 0,
        h > 0,
{
    let need = columns_needed(n, h);
    let fit = w / cw;
    if need <= fit {
        need
    } else {
        fit
    }
}

/// The items of each visible column, as ranges of positions: column `i` holds the
/// items from `i * h` up to `(i + 1) * h` or the end.  Nothing is shown without
/// items or in an empty area.
pub open spec fn column_ranges_of(n: nat, h: nat, w: nat, cw: nat) -> Seq<(nat, nat)> {
    if n == 0 || h == 0 || w == 0 {
        Seq::empty()
    } else {
        Seq::new(
            visible_columns(n, h, w, cw),
            |i: int| ((i * h) as nat, if (i + 1) * h <= n { ((i + 1) * h) as nat } else { n }),
        )
    }
}

/// Ranges as mathematical values.
pub open spec fn ranges_view(v: Seq<(usize, usize)>) -> Seq<(nat, nat)> {
    v.map_values(|p: (usize, usize)| (p.0 as nat, p.1 as nat))
}

proof fn lemma_columns_needed(n: nat, h: nat, k: nat)
    requires
        h > 0,
        k * h >= n,
        k == 0 || (k - 1) * h < n,
    ensures
        columns_needed(n, h) == k,
{
    if k == 0 {
        assert(n == 0);
        assert((h - 1) / (h as int) == 0) by (nonlinear_arith)
            requires
                h > 0,
        ;
    } else {
        assert((n + h - 1) / (h as int) == k) by (nonlinear_arith)
            requires
                h > 0,
                k > 0,
                k * h >= n,
                (k - 1) * h < n,
        {
            assert(k * h <= n + h - 1);
            assert(n + h - 1 < (k + 1) * h);
            vstd::arithmetic::div_mod::lemma_fundamental_div_mod_converse(
                n + h - 1,
                h as int,
                k as int,
                n + h - 1 - k * h,
            );
        }
    }
}

/// The items of each visible column of a list of `n_items` items drawn in an area
/// `height` rows high and `width` cells wide, with columns `column_width` cells
/// wide.  The widget divides by the column width, so it must not be 0 where
/// anything is drawn.
pub fn column_ranges(n_items: usize, height: u16, width: u16, column_width: u16) -> (r: Vec<(usize, usize)>)
    requires
        n_items == 0 || height == 0 || width == 0 || column_width > 0,
    ensures
        ranges_view(r@) == column_ranges_of(n_items as nat, height as nat, width as nat, column_width as nat),
{
    let mut r: Vec<(usize, usize)> = Vec::new();
    if n_items == 0 || height == 0 || width == 0 {
        assert(ranges_view(r@) =~= Seq::<(nat, nat)>::empty());
        return r;
    }
    let h = height as usize;
    let max_columns = (width / column_width) as usize;
    let ghost n = n_items as nat;
    let ghost hn = h as nat;
    let ghost target = column_ranges_of(n, hn, width as nat, column_width as nat);
    let mut start: usize = 0;
    let mut i: usize = 0;
    while i < max_columns && start < n_items
        invariant
            h > 0,
            n == n_items,
            hn == h,
            max_columns == width / column_width,
            i <= max_columns,
            start <= n_items,
            start < n_items ==> start == i * h,
            start == n_items ==> i * h >= n_items,
            i == 0 || (i - 1) * h < n_items,
            r@.len() == i,
            forall|j: int|
                0 <= j < i ==> ranges_view(r@)[j] == ((j * hn) as nat, if (j + 1) * hn <= n {
                    ((j + 1) * hn) as nat
                } else {
                    n
                }),
        decreases max_columns - i,
    {
        let end = if n_items - start < h {
            n_items
        } else {
            start + h
        };
        assert((i + 1) * h == i * h + h) by (nonlinear_arith);
        let ghost before = r@;
        r.push((start, end));
        assert forall|j: int| 0 <= j < i + 1 implies ranges_view(r@)[j] == ((j * hn) as nat, if (j + 1)
            * hn <= n {
            ((j + 1) * hn) as nat
        } else {
            n
        }) by {
            if j < i {
                assert(r@[j] == before[j]);
                assert(ranges_view(before)[j] == (before[j].0 as nat, before[j].1 as nat));
            } else {
                assert(r@[j] == (start, end));
                assert(j * hn == start);
                assert((j + 1) * hn == start + h);
            }
        }
        start = end;
        i = i + 1;
    }
    proof {
        if start == n_items {
            lemma_columns_needed(n, hn, i as nat);
        } else {
            assert(i == max_columns);
            assert(columns_needed(n, hn) >= i) by (nonlinear_arith)
                requires
                    hn > 0,
                    i * hn < n,
                    columns_needed(n, hn) == (n + hn - 1) / (hn as int),
            ;
        }
    }
    assert(ranges_view(r@) =~= target);
    r
}

} // verus!
