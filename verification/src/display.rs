//! Column layout for the plain (non-interactive) template listing: how
//! many columns of which width fit the terminal, and how many rows the
//! list then needs. The host paints; the geometry is decided here.

use vstd::prelude::*;

verus! {

/// Geometry of the plain columnar listing.
#[derive(Clone, Copy, PartialEq, Eq, Structural, Debug)]
pub struct ColumnLayout {
    pub columns: usize,
    pub column_width: usize,
    pub rows: usize,
}

/// Width of the widest of the first `n` items, in characters.
pub open spec fn max_item_width(items: Seq<Seq<char>>, n: int) -> int
    decreases n,
{
    if n <= 0 {
        0
    } else {
        let prev = max_item_width(items, n - 1);
        let w = items[n - 1].len() as int;
        if w > prev {
            w
        } else {
            prev
        }
    }
}

/// The listing geometry for a terminal `w` cells wide: columns two cells
/// wider than the widest item, as many as fit but at least one, and as
/// many rows as the item count then needs.
pub open spec fn spec_column_layout(w: int, items: Seq<Seq<char>>) -> ColumnLayout {
    let maxw = max_item_width(items, items.len() as int);
    let column_width = if maxw + 2 <= usize::MAX {
        maxw + 2
    } else {
        usize::MAX as int
    };
    let cols_fit = if w / column_width >= 1 {
        w / column_width
    } else {
        1
    };
    let rows = if items.len() == 0 {
        0int
    } else if items.len() as int % cols_fit == 0 {
        items.len() as int / cols_fit
    } else {
        items.len() as int / cols_fit + 1
    };
    ColumnLayout {
        columns: cols_fit as usize,
        column_width: column_width as usize,
        rows: rows as usize,
    }
}

/// Compute the listing geometry for a terminal of the given width.
pub fn column_layout_for_width(items: &Vec<String>, term_width: usize) -> (r: ColumnLayout)
    requires
        term_width <= 0xffff,
    ensures
        r == spec_column_layout(term_width as int, items.deep_view()),
{
    let n = items.len();
    let mut widest: usize = 0;
    let mut i: usize = 0;
    while i < n
        invariant
            i <= n,
            n == items@.len(),
            widest as int == max_item_width(items.deep_view(), i as int),
        decreases n - i,
    {
        let w = items[i].as_str().unicode_len();
        if w > widest {
            widest = w;
        }
        i += 1;
    }
    let column_width: usize = if widest <= usize::MAX - 2 {
        widest + 2
    } else {
        usize::MAX
    };
    let mut columns: usize = term_width / column_width;
    if columns < 1 {
        columns = 1;
    }
    let rows: usize = if n == 0 {
        0
    } else if n % columns == 0 {
        n / columns
    } else {
        proof {
            assert(n as int % 1int == 0);
            assert(columns >= 2);
            vstd::arithmetic::div_mod::lemma_div_is_ordered_by_denominator(n as int, 2, columns as int);
            vstd::arithmetic::div_mod::lemma_div_decreases(n as int, 2);
        }
        n / columns + 1
    };
    ColumnLayout { columns, column_width, rows }
}

/// Compute the listing geometry from the terminal's reported width, or
/// from the conservative 80-column assumption when no terminal answers.
pub fn calculate_column_layout(items: &Vec<String>) -> (r: ColumnLayout)
    ensures
        exists|w: int| 0 <= w <= 0xffff && r == spec_column_layout(w, items.deep_view()),
{
    let width: usize = match crate::selection::query_terminal_size() {
        Some((w, _)) => w as usize,
        None => 80,
    };
    let r = column_layout_for_width(items, width);
    proof {
        assert(0 <= width as int <= 0xffff && r == spec_column_layout(
            width as int,
            items.deep_view(),
        ));
    }
    r
}

} // verus!
