//! Drawing of the selection rectangle over a dimmed screenshot.

use vstd::arithmetic::mul::{lemma_mul_inequality, lemma_mul_is_distributive_add_other_way};
use vstd::prelude::*;

verus! {

/// The colour of the selection frame, as `0x00RRGGBB`.
pub const RED: u32 = 0x00FF0000;

/// A selection as `(x1, y1, x2, y2)`: two opposite corners, both of them inside.
pub type Selection = (usize, usize, usize, usize);

/// Whether buffer position `i` lies in the columns `x1..=x2` of row `row`.
pub open spec fn on_row(width: int, row: int, x1: int, x2: int, i: int) -> bool {
    row * width + x1 <= i <= row * width + x2
}

/// Whether buffer position `i` is column `col` of one of the rows `y1..=y2`.
pub open spec fn on_column(width: int, col: int, y1: int, y2: int, i: int) -> bool {
    exists|y: int| y1 <= y <= y2 && i == #[trigger] (y * width) + col
}

/// Whether buffer position `i` lies in the columns `x1..=x2` of one of the rows `y1..=y2`.
pub open spec fn on_rows(width: int, x1: int, x2: int, y1: int, y2: int, i: int) -> bool {
    exists|y: int| y1 <= y <= y2 && #[trigger] on_row(width, y, x1, x2, i)
}

/// Whether buffer position `i` lies in the selected rows and columns.
pub open spec fn inside(width: int, sel: Selection, i: int) -> bool {
    on_rows(width, sel.0 as int, sel.2 as int, sel.1 as int, sel.3 as int, i)
}

/// `n - 1`, or zero where there is no such number.
pub open spec fn before(n: int) -> int {
    if n > 0 { n - 1 } else { 0 }
}

/// Whether buffer position `i` is part of the red frame of `sel`: two rows at
/// the top and at the bottom, two columns at the left and at the right.
pub open spec fn on_frame(width: int, sel: Selection, i: int) -> bool {
    let (x1, y1, x2, y2) = (sel.0 as int, sel.1 as int, sel.2 as int, sel.3 as int);
    ||| on_row(width, y1, x1, x2, i)
    ||| on_row(width, y1 + 1, x1, x2, i)
    ||| on_row(width, y2, x1, x2, i)
    ||| on_row(width, before(y2), x1, x2, i)
    ||| on_column(width, x1, y1, y2, i)
    ||| on_column(width, x1 + 1, y1, y2, i)
    ||| on_column(width, x2, y1, y2, i)
    ||| on_column(width, before(x2), y1, y2, i)
}

/// The picture that is shown: red on the frame of the selection, the original
/// inside it, dimmed everywhere else.
pub open spec fn overlaid(
    original: Seq<u32>,
    dimmed: Seq<u32>,
    width: int,
    sel: Option<Selection>,
) -> Seq<u32> {
    match sel {
        None => dimmed,
        Some(s) => Seq::new(
            dimmed.len(),
            |i: int|
                if on_frame(width, s, i) {
                    RED
                } else if inside(width, s, i) {
                    original[i]
                } else {
                    dimmed[i]
                },
        ),
    }
}

/// Whether every position that drawing `sel` touches exists, in a picture of
/// `len` positions and an original of `original_len`.
pub open spec fn fits(len: int, original_len: int, width: int, sel: Option<Selection>) -> bool {
    match sel {
        None => true,
        Some((x1, y1, x2, y2)) => {
            &&& y1 <= y2 ==> {
                &&& x1 <= x2 + 1
                &&& y2 * width + x2 + 1 <= len
                &&& y2 * width + x2 + 1 <= original_len
                &&& y2 * width + x1 + 1 < len
            }
            &&& x1 <= x2 ==> {
                &&& y1 < usize::MAX
                &&& (y1 + 1) * width + x2 < len
                &&& y2 * width + x2 < len
            }
        },
    }
}

/// Paints the columns `x1..=x2` of row `row` red.
fn paint_row(display: &mut [u32], width: usize, row: usize, x1: usize, x2: usize)
    requires
        x1 <= x2 ==> row * width + x2 < old(display)@.len(),
    ensures
        final(display)@.len() == old(display)@.len(),
        forall|i: int|
            0 <= i < old(display)@.len() ==> #[trigger] final(display)@[i] == (if on_row(
                width as int,
                row as int,
                x1 as int,
                x2 as int,
                i,
            ) {
                RED
            } else {
                old(display)@[i]
            }),
{
    let len: usize = display.len();
    if x1 <= x2 {
        assert(0 <= row * width) by (nonlinear_arith)
            requires
                0 <= row,
                0 <= width,
        ;
        let base: usize = row * width;
        let mut x: usize = x1;
        while x <= x2
            invariant
                len == display@.len(),
                x1 <= x <= x2 + 1,
                base == row * width,
                base + x2 < display@.len(),
                display@.len() == old(display)@.len(),
                forall|i: int|
                    0 <= i < display@.len() ==> #[trigger] display@[i] == (if base + x1 <= i < base
                        + x {
                        RED
                    } else {
                        old(display)@[i]
                    }),
            decreases x2 + 1 - x,
        {
            display[base + x] = RED;
            x = x + 1;
        }
    }
}

/// Paints column `col` of the rows `y1..=y2` red.
fn paint_column(display: &mut [u32], width: usize, col: usize, y1: usize, y2: usize)
    requires
        y1 <= y2 ==> y2 * width + col < old(display)@.len(),
    ensures
        final(display)@.len() == old(display)@.len(),
        forall|i: int|
            0 <= i < old(display)@.len() ==> #[trigger] final(display)@[i] == (if on_column(
                width as int,
                col as int,
                y1 as int,
                y2 as int,
                i,
            ) {
                RED
            } else {
                old(display)@[i]
            }),
{
    let len: usize = display.len();
    if y1 <= y2 {
        let mut y: usize = y1;
        loop
            invariant_except_break
                y1 <= y <= y2,
                forall|i: int|
                    0 <= i < display@.len() ==> #[trigger] display@[i] == (if on_column(
                        width as int,
                        col as int,
                        y1 as int,
                        y - 1,
                        i,
                    ) {
                        RED
                    } else {
                        old(display)@[i]
                    }),
            invariant
                len == display@.len(),
                y2 * width + col < len,
                display@.len() == old(display)@.len(),
            ensures
                forall|i: int|
                    0 <= i < display@.len() ==> #[trigger] display@[i] == (if on_column(
                        width as int,
                        col as int,
                        y1 as int,
                        y2 as int,
                        i,
                    ) {
                        RED
                    } else {
                        old(display)@[i]
                    }),
            decreases y2 - y,
        {
            proof {
                lemma_mul_inequality(y as int, y2 as int, width as int);
                lemma_mul_inequality(0, y as int, width as int);
            }
            let ghost prev = display@;
            display[y * width + col] = RED;
            assert forall|i: int| 0 <= i < display@.len() implies #[trigger] display@[i] == (
            if on_column(width as int, col as int, y1 as int, y as int, i) {
                RED
            } else {
                old(display)@[i]
            }) by {
                assert(prev[i] == prev[i]);
                if i == y * width + col {
                    assert(i == (y as int * width as int) + col);
                } else if on_column(width as int, col as int, y1 as int, y as int, i) {
                    let w = choose|w: int|
                        y1 <= w <= y && i == #[trigger] (w * width) + col;
                    assert(w != y);
                    assert(i == (w * width) + col);
                }
            }
            if y == y2 {
                break;
            }
            y = y + 1;
        }
    }
}

/// Copies the rows and columns of `sel` from `original`.
fn restore_rows(display: &mut [u32], original: &[u32], width: usize, sel: Selection)
    requires
        sel.1 <= sel.3 ==> {
            &&& sel.0 <= sel.2 + 1
            &&& sel.3 * width + sel.2 + 1 <= old(display)@.len()
            &&& sel.3 * width + sel.2 + 1 <= original@.len()
        },
    ensures
        final(display)@.len() == old(display)@.len(),
        forall|i: int|
            0 <= i < old(display)@.len() ==> #[trigger] final(display)@[i] == (if inside(
                width as int,
                sel,
                i,
            ) {
                original@[i]
            } else {
                old(display)@[i]
            }),
{
    let (x1, y1, x2, y2) = sel;
    let len: usize = display.len();
    if y1 <= y2 {
        let mut y: usize = y1;
        loop
            invariant_except_break
                y1 <= y <= y2,
                forall|i: int|
                    0 <= i < display@.len() ==> #[trigger] display@[i] == (if on_rows(
                        width as int,
                        x1 as int,
                        x2 as int,
                        y1 as int,
                        y - 1,
                        i,
                    ) {
                        original@[i]
                    } else {
                        old(display)@[i]
                    }),
            invariant
                sel == (x1, y1, x2, y2),
                len == display@.len(),
                x1 <= x2 + 1,
                y2 * width + x2 + 1 <= len,
                y2 * width + x2 + 1 <= original@.len(),
                display@.len() == old(display)@.len(),
            ensures
                forall|i: int|
                    0 <= i < display@.len() ==> #[trigger] display@[i] == (if inside(
                        width as int,
                        sel,
                        i,
                    ) {
                        original@[i]
                    } else {
                        old(display)@[i]
                    }),
            decreases y2 - y,
        {
            proof {
                lemma_mul_inequality(y as int, y2 as int, width as int);
                lemma_mul_inequality(0, y as int, width as int);
            }
            let start: usize = y * width + x1;
            let end: usize = y * width + x2 + 1;
            let ghost prev = display@;
            let mut k: usize = start;
            while k < end
                invariant
                    start <= k <= end,
                    end <= display@.len(),
                    end <= original@.len(),
                    display@.len() == prev.len(),
                    forall|i: int|
                        0 <= i < display@.len() ==> #[trigger] display@[i] == (if start <= i < k {
                            original@[i]
                        } else {
                            prev[i]
                        }),
                decreases end - k,
            {
                display[k] = original[k];
                k = k + 1;
            }
            assert forall|i: int| 0 <= i < display@.len() implies #[trigger] display@[i] == (
            if on_rows(width as int, x1 as int, x2 as int, y1 as int, y as int, i) {
                original@[i]
            } else {
                old(display)@[i]
            }) by {
                assert(prev[i] == prev[i]);
                if start <= i < end {
                    assert(on_row(width as int, y as int, x1 as int, x2 as int, i));
                } else if on_rows(width as int, x1 as int, x2 as int, y1 as int, y as int, i) {
                    let w = choose|w: int|
                        y1 <= w <= y && #[trigger] on_row(width as int, w, x1 as int, x2 as int, i);
                    assert(w != y);
                    assert(on_row(width as int, w, x1 as int, x2 as int, i));
                }
            }
            if y == y2 {
                break;
            }
            y = y + 1;
        }
    }
}

/// The last position that is reached in row `row` at column `col`, one past it
/// when `past` is set; `None` where no buffer is that long.
fn position(row: usize, width: usize, col: usize, past: usize) -> (at: Option<usize>)
    ensures
        at == (if row * width + col + past <= usize::MAX {
            Some((row * width + col + past) as usize)
        } else {
            None
        }),
{
    assert(0 <= row * width) by (nonlinear_arith)
        requires
            0 <= row,
            0 <= width,
    ;
    match row.checked_mul(width) {
        None => None,
        Some(start) => match start.checked_add(col) {
            None => None,
            Some(at) => at.checked_add(past),
        },
    }
}

/// Tells whether `sel` can be drawn on a picture of `len` positions from an
/// original of `original_len` positions, both `width` wide.
pub fn overlay_fits(len: usize, original_len: usize, width: usize, sel: Option<Selection>) -> (r:
    bool)
    ensures
        r == fits(len as int, original_len as int, width as int, sel),
{
    match sel {
        None => true,
        Some((x1, y1, x2, y2)) => {
            if y1 <= y2 {
                if x1 > x2 && x1 - x2 > 1 {
                    return false;
                }
                match position(y2, width, x2, 1) {
                    None => {
                        return false;
                    },
                    Some(end) => {
                        if end > len || end > original_len {
                            return false;
                        }
                    },
                }
                match position(y2, width, x1, 1) {
                    None => {
                        return false;
                    },
                    Some(at) => {
                        if at >= len {
                            return false;
                        }
                    },
                }
            }
            if x1 <= x2 {
                if y1 == usize::MAX {
                    return false;
                }
                match position(y1 + 1, width, x2, 0) {
                    None => {
                        return false;
                    },
                    Some(at) => {
                        if at >= len {
                            return false;
                        }
                    },
                }
                match position(y2, width, x2, 0) {
                    None => {
                        return false;
                    },
                    Some(at) => {
                        if at >= len {
                            return false;
                        }
                    },
                }
            }
            true
        },
    }
}

/// Draws the selection: `display` becomes `dimmed`, with the selected rows and
/// columns of `original` and a red frame over it.
pub fn draw_overlay(
    display: &mut [u32],
    original: &[u32],
    dimmed: &[u32],
    width: usize,
    sel: Option<Selection>,
)
    requires
        old(display)@.len() == dimmed@.len(),
        fits(dimmed@.len() as int, original@.len() as int, width as int, sel),
    ensures
        final(display)@ == overlaid(original@, dimmed@, width as int, sel),
{
    let len: usize = dimmed.len();
    let mut k: usize = 0;
    while k < len
        invariant
            k <= len,
            len == dimmed@.len(),
            display@.len() == len,
            forall|i: int| 0 <= i < k ==> #[trigger] display@[i] == dimmed@[i],
        decreases len - k,
    {
        display[k] = dimmed[k];
        k = k + 1;
    }
    assert(display@ == dimmed@);
    if let Some((x1, y1, x2, y2)) = sel {
        restore_rows(display, original, width, (x1, y1, x2, y2));
        if x1 <= x2 {
            proof {
                lemma_mul_inequality(y1 as int, y1 + 1, width as int);
                lemma_mul_inequality(before(y2 as int), y2 as int, width as int);
            }
            paint_row(display, width, y1, x1, x2);
            paint_row(display, width, y1 + 1, x1, x2);
            paint_row(display, width, y2, x1, x2);
            paint_row(display, width, y2.saturating_sub(1), x1, x2);
        }
        if y1 <= y2 {
            paint_column(display, width, x1, y1, y2);
            paint_column(display, width, x1 + 1, y1, y2);
            paint_column(display, width, x2, y1, y2);
            paint_column(display, width, x2.saturating_sub(1), y1, y2);
        }
        assert(display@ =~= overlaid(original@, dimmed@, width as int, sel));
    }
}

/// A position in row `y` at column `x` lies on row `row` only if it is that row.
proof fn lemma_row_of_position(width: int, row: int, c1: int, c2: int, x: int, y: int)
    requires
        0 <= c1,
        c2 < width,
        0 <= x < width,
    ensures
        on_row(width, row, c1, c2, y * width + x) <==> row == y && c1 <= x <= c2,
{
    if row < y {
        lemma_mul_inequality(row + 1, y, width);
        lemma_mul_is_distributive_add_other_way(width, row, 1);
    } else if row > y {
        lemma_mul_inequality(y + 1, row, width);
        lemma_mul_is_distributive_add_other_way(width, y, 1);
    }
}

/// A position in row `y` at column `x` lies on column `col` of the rows
/// `y1..=y2` exactly if it is that column and one of those rows.
proof fn lemma_column_of_position(width: int, col: int, y1: int, y2: int, x: int, y: int)
    requires
        0 <= col < width,
        0 <= x < width,
    ensures
        on_column(width, col, y1, y2, y * width + x) <==> col == x && y1 <= y <= y2,
{
    if on_column(width, col, y1, y2, y * width + x) {
        let w = choose|w: int| y1 <= w <= y2 && y * width + x == #[trigger] (w * width) + col;
        lemma_row_of_position(width, w, col, col, x, y);
    }
}

/// What the drawing shows at column `x` of row `y`, for a selection of at least
/// two rows and two columns inside the picture: nothing outside the selection
/// changes, a frame two pixels wide runs along its inner edge, and what the
/// frame encloses is the original.
pub proof fn law_overlay_pixel(
    original: Seq<u32>,
    dimmed: Seq<u32>,
    width: int,
    height: int,
    sel: Selection,
    x: int,
    y: int,
)
    requires
        dimmed.len() == width * height,
        sel.0 < sel.2 < width,
        sel.1 < sel.3 < height,
        0 <= x < width,
        0 <= y < height,
    ensures
        0 <= y * width + x < dimmed.len(),
        overlaid(original, dimmed, width, Some(sel))[y * width + x] == (if sel.0 <= x <= sel.2
            && sel.1 <= y <= sel.3 {
            if x <= sel.0 + 1 || x >= sel.2 - 1 || y <= sel.1 + 1 || y >= sel.3 - 1 {
                RED
            } else {
                original[y * width + x]
            }
        } else {
            dimmed[y * width + x]
        }),
{
    let (x1, y1, x2, y2) = (sel.0 as int, sel.1 as int, sel.2 as int, sel.3 as int);
    let i = y * width + x;
    lemma_mul_inequality(0, y, width);
    lemma_mul_inequality(y + 1, height, width);
    lemma_mul_is_distributive_add_other_way(width, y, 1);
    assert(width * height == height * width) by (nonlinear_arith);
    lemma_row_of_position(width, y1, x1, x2, x, y);
    lemma_row_of_position(width, y1 + 1, x1, x2, x, y);
    lemma_row_of_position(width, y2, x1, x2, x, y);
    lemma_row_of_position(width, before(y2), x1, x2, x, y);
    lemma_column_of_position(width, x1, y1, y2, x, y);
    lemma_column_of_position(width, x1 + 1, y1, y2, x, y);
    lemma_column_of_position(width, x2, y1, y2, x, y);
    lemma_column_of_position(width, before(x2), y1, y2, x, y);
    lemma_row_of_position(width, y, x1, x2, x, y);
    if inside(width, sel, i) {
        let w = choose|w: int| y1 <= w <= y2 && #[trigger] on_row(width, w, x1, x2, i);
        lemma_row_of_position(width, w, x1, x2, x, y);
    }
}

/// A selection inside a picture can be drawn unless it lies in the last row
/// alone, or in the last column alone and reaches the last row.
pub proof fn law_selection_in_picture_fits(width: usize, height: usize, sel: Selection)
    requires
        sel.0 <= sel.2 < width,
        sel.1 <= sel.3 < height,
        width * height <= usize::MAX,
    ensures
        fits(width * height, width * height, width as int, Some(sel)) <==> !(sel.1 == height - 1
            || (sel.0 == width - 1 && sel.3 == height - 1)),
{
    let (x1, y1, x2, y2) = (sel.0 as int, sel.1 as int, sel.2 as int, sel.3 as int);
    let (w, h) = (width as int, height as int);
    assert(w * h == h * w) by (nonlinear_arith);
    lemma_mul_is_distributive_add_other_way(w, h - 1, 1);
    lemma_mul_is_distributive_add_other_way(w, y1, 1);
    lemma_mul_is_distributive_add_other_way(w, y2, 1);
    lemma_mul_inequality(y2 + 1, h, w);
    if y1 + 2 <= h {
        lemma_mul_inequality(y1 + 2, h, w);
        lemma_mul_is_distributive_add_other_way(w, y1 + 1, 1);
    }
    if y2 + 2 <= h {
        lemma_mul_inequality(y2 + 2, h, w);
        lemma_mul_is_distributive_add_other_way(w, y2 + 1, 1);
    }
}

/// The column past the last one is the first column of the rows below.
proof fn lemma_column_past_the_edge(width: int, y1: int, y2: int, i: int)
    ensures
        on_column(width, width, y1, y2, i) <==> on_column(width, 0, y1 + 1, y2 + 1, i),
{
    if on_column(width, width, y1, y2, i) {
        let w = choose|w: int| y1 <= w <= y2 && i == #[trigger] (w * width) + width;
        lemma_mul_is_distributive_add_other_way(width, w, 1);
        assert(i == ((w + 1) * width) + 0);
    }
    if on_column(width, 0, y1 + 1, y2 + 1, i) {
        let w = choose|w: int| y1 + 1 <= w <= y2 + 1 && i == #[trigger] (w * width) + 0;
        lemma_mul_is_distributive_add_other_way(width, w - 1, 1);
        assert(i == ((w - 1) * width) + width);
    }
}

/// What the drawing shows at column `x` of row `y`, for every selection inside
/// the picture, however thin. Red are the columns of the selection in its first
/// and its last row, the row after the first and the row before the last, and
/// its rows in the first and the last column, the column after the first and the
/// column before the last; past the right edge, the column after the first is
/// the start of the next row. What is selected and not red is the original, and
/// the rest is dimmed; without a selection all of it is.
pub proof fn law_overlay_pixel_written_out(
    original: Seq<u32>,
    dimmed: Seq<u32>,
    width: int,
    height: int,
    sel: Selection,
    x: int,
    y: int,
)
    requires
        dimmed.len() == width * height,
        sel.0 <= sel.2 < width,
        sel.1 <= sel.3 < height,
        0 <= x < width,
        0 <= y < height,
    ensures
        overlaid(original, dimmed, width, None) == dimmed,
        overlaid(original, dimmed, width, Some(sel)).len() == width * height,
        ({
            let (x1, y1, x2, y2) = (sel.0 as int, sel.1 as int, sel.2 as int, sel.3 as int);
            let red = {
                ||| x1 <= x <= x2 && (y == y1 || y == y1 + 1 || y == y2 || y == y2 - 1)
                ||| y1 <= y <= y2 && (x == x1 || x == x1 + 1 || x == x2 || x == x2 - 1)
                ||| x1 == width - 1 && x == 0 && y1 + 1 <= y <= y2 + 1
            };
            overlaid(original, dimmed, width, Some(sel))[y * width + x] == (if red {
                0x00FF0000u32
            } else if x1 <= x <= x2 && y1 <= y <= y2 {
                original[y * width + x]
            } else {
                dimmed[y * width + x]
            })
        }),
{
    let (x1, y1, x2, y2) = (sel.0 as int, sel.1 as int, sel.2 as int, sel.3 as int);
    let i = y * width + x;
    lemma_mul_inequality(0, y, width);
    lemma_mul_inequality(y + 1, height, width);
    lemma_mul_is_distributive_add_other_way(width, y, 1);
    assert(width * height == height * width) by (nonlinear_arith);
    lemma_row_of_position(width, y1, x1, x2, x, y);
    lemma_row_of_position(width, y1 + 1, x1, x2, x, y);
    lemma_row_of_position(width, y2, x1, x2, x, y);
    lemma_row_of_position(width, before(y2), x1, x2, x, y);
    lemma_column_of_position(width, x1, y1, y2, x, y);
    if x1 + 1 < width {
        lemma_column_of_position(width, x1 + 1, y1, y2, x, y);
    } else {
        lemma_column_past_the_edge(width, y1, y2, i);
        lemma_column_of_position(width, 0, y1 + 1, y2 + 1, x, y);
    }
    lemma_column_of_position(width, x2, y1, y2, x, y);
    lemma_column_of_position(width, before(x2), y1, y2, x, y);
    lemma_row_of_position(width, y, x1, x2, x, y);
    if inside(width, sel, i) {
        let w = choose|w: int| y1 <= w <= y2 && #[trigger] on_row(width, w, x1, x2, i);
        lemma_row_of_position(width, w, x1, x2, x, y);
    }
}

/// The same for every selection, also one that is turned round or reaches beyond
/// the picture, by the position `i` in the buffer: red are the four rows from the
/// first to the second column, where the second is no smaller, and the four
/// columns from the first to the second row, where the second is no smaller.
pub proof fn law_overlay_position_written_out(
    original: Seq<u32>,
    dimmed: Seq<u32>,
    width: int,
    sel: Selection,
    i: int,
)
    requires
        0 <= i < dimmed.len(),
    ensures
        ({
            let (x1, y1, x2, y2) = (sel.0 as int, sel.1 as int, sel.2 as int, sel.3 as int);
            let up = if y2 == 0 {
                0
            } else {
                y2 - 1
            };
            let left = if x2 == 0 {
                0
            } else {
                x2 - 1
            };
            let red = {
                ||| y1 * width + x1 <= i <= y1 * width + x2
                ||| (y1 + 1) * width + x1 <= i <= (y1 + 1) * width + x2
                ||| y2 * width + x1 <= i <= y2 * width + x2
                ||| up * width + x1 <= i <= up * width + x2
                ||| exists|y: int|
                    y1 <= y <= y2 && {
                        ||| i == #[trigger] (y * width) + x1
                        ||| i == y * width + x1 + 1
                        ||| i == y * width + x2
                        ||| i == y * width + left
                    }
            };
            let selected = exists|y: int|
                y1 <= y <= y2 && #[trigger] (y * width) + x1 <= i <= y * width + x2;
            overlaid(original, dimmed, width, Some(sel))[i] == (if red {
                0x00FF0000u32
            } else if selected {
                original[i]
            } else {
                dimmed[i]
            })
        }),
{
    let (x1, y1, x2, y2) = (sel.0 as int, sel.1 as int, sel.2 as int, sel.3 as int);
    let left = before(x2);
    if exists|y: int|
        y1 <= y <= y2 && {
            ||| i == #[trigger] (y * width) + x1
            ||| i == y * width + x1 + 1
            ||| i == y * width + x2
            ||| i == y * width + left
        } {
        let y = choose|y: int|
            y1 <= y <= y2 && {
                ||| i == #[trigger] (y * width) + x1
                ||| i == y * width + x1 + 1
                ||| i == y * width + x2
                ||| i == y * width + left
            };
        assert(i == (y * width) + x1 || i == (y * width) + (x1 + 1) || i == (y * width) + x2 || i
            == (y * width) + left);
        assert(on_frame(width, sel, i));
    }
    if exists|y: int| y1 <= y <= y2 && #[trigger] (y * width) + x1 <= i <= y * width + x2 {
        let y = choose|y: int|
            y1 <= y <= y2 && #[trigger] (y * width) + x1 <= i <= y * width + x2;
        assert(on_row(width, y, x1, x2, i));
        assert(inside(width, sel, i));
    }
    if inside(width, sel, i) {
        let y = choose|y: int| y1 <= y <= y2 && #[trigger] on_row(width, y, x1, x2, i);
        assert(y1 <= y <= y2 && (y * width) + x1 <= i <= y * width + x2);
    }
}

/// Nothing can always be drawn, and a selection where the last position of each
/// row and of each column that is painted, or copied, exists.
pub proof fn law_fits_written_out(len: int, original_len: int, width: int, sel: Selection)
    ensures
        fits(len, original_len, width, None),
        ({
            let (x1, y1, x2, y2) = (sel.0 as int, sel.1 as int, sel.2 as int, sel.3 as int);
            let rows = {
                &&& y1 < usize::MAX
                &&& (y1 + 1) * width + x2 < len
                &&& y2 * width + x2 < len
            };
            let columns = {
                &&& y2 * width + x2 < len
                &&& y2 * width + x2 < original_len
                &&& y2 * width + x1 + 1 < len
            };
            &&& x1 <= x2 && y1 <= y2 ==> (fits(len, original_len, width, Some(sel)) <==> rows
                && columns)
            &&& x1 <= x2 && y1 > y2 ==> (fits(len, original_len, width, Some(sel)) <==> rows)
            &&& x1 == x2 + 1 && y1 <= y2 ==> (fits(len, original_len, width, Some(sel))
                <==> columns)
            &&& x1 > x2 + 1 && y1 <= y2 ==> !fits(len, original_len, width, Some(sel))
            &&& x1 > x2 && y1 > y2 ==> fits(len, original_len, width, Some(sel))
        }),
{
}

} // verus!
