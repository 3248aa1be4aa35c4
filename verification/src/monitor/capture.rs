//! Looks at the watched area, and how far two of them differ.

use crate::frame::{resizable, triangle_resized, Frame};
use crate::monitor::config::CaptureArea;
use vstd::prelude::*;

verus! {

/// How far two bytes differ.
pub open spec fn byte_diff(a: u8, b: u8) -> nat {
    if a >= b {
        (a - b) as nat
    } else {
        (b - a) as nat
    }
}

/// How far the first `n` bytes of two looks differ in all.
pub open spec fn diff_to(a: Seq<u8>, b: Seq<u8>, n: nat) -> nat
    decreases n,
{
    if n == 0 {
        0
    } else {
        diff_to(a, b, (n - 1) as nat) + byte_diff(a[n - 1], b[n - 1])
    }
}

/// How many bytes two looks have in common.
pub open spec fn shared(a: Seq<u8>, b: Seq<u8>) -> nat {
    if a.len() <= b.len() {
        a.len()
    } else {
        b.len()
    }
}

/// How far two looks differ: the sum over the bytes that both have.
pub open spec fn difference(a: Seq<u8>, b: Seq<u8>) -> nat {
    diff_to(a, b, shared(a, b))
}

/// A side of the small picture that a look is reduced to.
pub open spec fn small_side(side: u32) -> u32 {
    if side / 4 > 0 {
        side / 4
    } else {
        1
    }
}

/// How many bytes a look at an area of the given sides has: four to a pixel of
/// the small picture.
pub open spec fn look_len(width: u32, height: u32) -> nat {
    (4 * (small_side(width) * small_side(height))) as nat
}

/// A sum over fewer bytes is no larger.
proof fn lemma_diff_grows(a: Seq<u8>, b: Seq<u8>, n: nat, m: nat)
    requires
        n <= m,
    ensures
        diff_to(a, b, n) <= diff_to(a, b, m),
    decreases m,
{
    if n < m {
        lemma_diff_grows(a, b, n, (m - 1) as nat);
    }
}

/// How far two looks differ: the sum, over the bytes that both have, of how far
/// these differ.
pub fn pixel_diff(a: &[u8], b: &[u8]) -> (d: u64)
    requires
        difference(a@, b@) <= u64::MAX,
    ensures
        d == difference(a@, b@),
{
    let n: usize = if a.len() <= b.len() {
        a.len()
    } else {
        b.len()
    };
    let mut d: u64 = 0;
    let mut i: usize = 0;
    while i < n
        invariant
            i <= n,
            n == shared(a@, b@),
            difference(a@, b@) <= u64::MAX,
            d == diff_to(a@, b@, i as nat),
        decreases n - i,
    {
        proof {
            lemma_diff_grows(a@, b@, (i + 1) as nat, n as nat);
        }
        let x: u8 = a[i];
        let y: u8 = b[i];
        let step: u8 = if x >= y {
            x - y
        } else {
            y - x
        };
        d = d + step as u64;
        i = i + 1;
    }
    d
}

/// A side of the small picture that a look is reduced to.
pub fn reduced_side(side: u32) -> (r: u32)
    ensures
        r == small_side(side),
{
    let quarter: u32 = side / 4;
    if quarter > 0 {
        quarter
    } else {
        1
    }
}

/// Reduces a look at the area to a quarter of its sides and takes its bytes.
/// There is nothing to reduce where the screen could not be read.
pub fn capture_region(region: Option<Frame>, area: &CaptureArea) -> (look: Option<Vec<u8>>)
    requires
        region matches Some(frame) ==> resizable(
            frame@.width as int,
            frame@.height as int,
            small_side(area.width) as int,
            small_side(area.height) as int,
        ),
    ensures
        look is Some <==> region is Some,
        look matches Some(bytes) ==> {
            &&& bytes@ == triangle_resized(
                region->0@.bytes,
                region->0@.width as u32,
                region->0@.height as u32,
                small_side(area.width),
                small_side(area.height),
            )
            &&& bytes@.len() == look_len(area.width, area.height)
            &&& region->0@.width == small_side(area.width) && region->0@.height == small_side(
                area.height,
            ) ==> bytes@ == region->0@.bytes
        },
{
    match region {
        None => None,
        Some(frame) => Some(
            frame.resized(reduced_side(area.width), reduced_side(area.height)).into_raw(),
        ),
    }
}

/// A look has at least one pixel, and two looks at areas of one size have one
/// length, so that their difference takes in every byte of both.
pub proof fn law_looks_are_compared_in_full(width: u32, height: u32, a: Seq<u8>, b: Seq<u8>)
    requires
        a.len() == look_len(width, height),
        b.len() == look_len(width, height),
    ensures
        a.len() >= 4,
        shared(a, b) == a.len(),
        shared(a, b) == b.len(),
        difference(a, b) == diff_to(a, b, look_len(width, height)),
{
    assert(small_side(width) * small_side(height) >= 1) by (nonlinear_arith)
        requires
            small_side(width) >= 1,
            small_side(height) >= 1,
    ;
}

/// The difference is the same in both directions.
pub proof fn law_difference_symmetric(a: Seq<u8>, b: Seq<u8>)
    ensures
        difference(a, b) == difference(b, a),
{
    lemma_diff_symmetric(a, b, shared(a, b));
}

proof fn lemma_diff_symmetric(a: Seq<u8>, b: Seq<u8>, n: nat)
    ensures
        diff_to(a, b, n) == diff_to(b, a, n),
    decreases n,
{
    if n > 0 {
        lemma_diff_symmetric(a, b, (n - 1) as nat);
    }
}

/// Two looks of one length differ by nothing exactly if they are equal.
pub proof fn law_no_difference_means_equal(a: Seq<u8>, b: Seq<u8>)
    requires
        a.len() == b.len(),
    ensures
        difference(a, b) == 0 <==> a == b,
{
    lemma_no_diff(a, b, a.len());
    if difference(a, b) == 0 {
        assert(a =~= b);
    }
}

proof fn lemma_no_diff(a: Seq<u8>, b: Seq<u8>, n: nat)
    ensures
        diff_to(a, b, n) == 0 <==> (forall|i: int| 0 <= i < n ==> #[trigger] a[i] == b[i]),
    decreases n,
{
    if n > 0 {
        lemma_no_diff(a, b, (n - 1) as nat);
        if diff_to(a, b, n) == 0 {
            assert forall|i: int| 0 <= i < n implies #[trigger] a[i] == b[i] by {
                if i < n - 1 {
                    assert(a[i] == b[i]);
                }
            }
        } else {
            if forall|i: int| 0 <= i < n ==> #[trigger] a[i] == b[i] {
                assert(a[n - 1] == b[n - 1]);
                assert(diff_to(a, b, (n - 1) as nat) == 0);
            }
        }
    }
}

/// A change in two stages is no larger than its stages together.
pub proof fn law_difference_triangle(a: Seq<u8>, b: Seq<u8>, c: Seq<u8>)
    requires
        a.len() == b.len(),
        b.len() == c.len(),
    ensures
        difference(a, c) <= difference(a, b) + difference(b, c),
{
    lemma_diff_triangle(a, b, c, a.len());
}

proof fn lemma_diff_triangle(a: Seq<u8>, b: Seq<u8>, c: Seq<u8>, n: nat)
    ensures
        diff_to(a, c, n) <= diff_to(a, b, n) + diff_to(b, c, n),
    decreases n,
{
    if n > 0 {
        lemma_diff_triangle(a, b, c, (n - 1) as nat);
    }
}

/// No byte adds more than 255, so the difference of two looks of at most 2^56
/// bytes is in range.
pub proof fn law_difference_bound(a: Seq<u8>, b: Seq<u8>)
    ensures
        difference(a, b) <= 255 * shared(a, b),
        shared(a, b) <= 0x100_0000_0000_0000 ==> difference(a, b) <= u64::MAX,
{
    lemma_diff_bound(a, b, shared(a, b));
}

proof fn lemma_diff_bound(a: Seq<u8>, b: Seq<u8>, n: nat)
    ensures
        diff_to(a, b, n) <= 255 * n,
    decreases n,
{
    if n > 0 {
        lemma_diff_bound(a, b, (n - 1) as nat);
    }
}

/// The sums of two pairs that agree in their first `n` bytes are the same.
proof fn lemma_diff_depends_on_prefix(
    a: Seq<u8>,
    b: Seq<u8>,
    c: Seq<u8>,
    d: Seq<u8>,
    n: nat,
)
    requires
        forall|i: int| 0 <= i < n ==> #[trigger] a[i] == c[i],
        forall|i: int| 0 <= i < n ==> #[trigger] b[i] == d[i],
    ensures
        diff_to(a, b, n) == diff_to(c, d, n),
    decreases n,
{
    if n > 0 {
        lemma_diff_depends_on_prefix(a, b, c, d, (n - 1) as nat);
        assert(a[n - 1] == c[n - 1] && b[n - 1] == d[n - 1]);
    }
}

/// Changing one byte of a look, wherever it is, takes away how far it was from
/// the byte of the other look and adds how far it is now.
pub proof fn law_changed_byte_counts_in_full(a: Seq<u8>, b: Seq<u8>, i: int, v: u8)
    requires
        0 <= i < a.len(),
        i < b.len(),
    ensures
        difference(a.update(i, v), b) + (if a[i] >= b[i] {
            a[i] - b[i]
        } else {
            b[i] - a[i]
        }) == difference(a, b) + (if v >= b[i] {
            v - b[i]
        } else {
            b[i] - v
        }),
{
    lemma_changed_byte(a, b, i, v, shared(a, b));
}

proof fn lemma_changed_byte(a: Seq<u8>, b: Seq<u8>, i: int, v: u8, n: nat)
    requires
        0 <= i < a.len(),
        n <= a.len(),
    ensures
        i < n ==> diff_to(a.update(i, v), b, n) + byte_diff(a[i], b[i]) == diff_to(a, b, n)
            + byte_diff(v, b[i]),
        n <= i ==> diff_to(a.update(i, v), b, n) == diff_to(a, b, n),
    decreases n,
{
    if n > 0 {
        lemma_changed_byte(a, b, i, v, (n - 1) as nat);
    }
}

/// Two looks that differ in one byte only, wherever it is, differ by as much as
/// that byte.
pub proof fn law_one_byte_difference(a: Seq<u8>, b: Seq<u8>, i: int)
    requires
        a.len() == b.len(),
        0 <= i < a.len(),
        forall|j: int| 0 <= j < a.len() && j != i ==> #[trigger] a[j] == b[j],
    ensures
        a[i] >= b[i] ==> difference(a, b) == a[i] - b[i],
        a[i] <= b[i] ==> difference(a, b) == b[i] - a[i],
{
    law_changed_byte_counts_in_full(a, b, i, b[i]);
    assert(a.update(i, b[i]) =~= b);
    law_no_difference_means_equal(b, b);
}

/// The difference of looks put together is the sum of the differences of their
/// parts.
pub proof fn law_difference_of_parts(a1: Seq<u8>, a2: Seq<u8>, b1: Seq<u8>, b2: Seq<u8>)
    requires
        a1.len() == b1.len(),
        a2.len() == b2.len(),
    ensures
        difference(a1 + a2, b1 + b2) == difference(a1, b1) + difference(a2, b2),
{
    lemma_diff_of_parts(a1, a2, b1, b2, a2.len());
}

proof fn lemma_diff_of_parts(
    a1: Seq<u8>,
    a2: Seq<u8>,
    b1: Seq<u8>,
    b2: Seq<u8>,
    n: nat,
)
    requires
        a1.len() == b1.len(),
        a2.len() == b2.len(),
        n <= a2.len(),
    ensures
        diff_to(a1 + a2, b1 + b2, a1.len() + n) == diff_to(a1, b1, a1.len()) + diff_to(a2, b2, n),
    decreases n,
{
    if n == 0 {
        lemma_diff_depends_on_prefix(a1 + a2, b1 + b2, a1, b1, a1.len());
    } else {
        lemma_diff_of_parts(a1, a2, b1, b2, (n - 1) as nat);
    }
}

/// Bytes that only one of the looks has do not count.
pub proof fn law_surplus_bytes_do_not_count(a: Seq<u8>, b: Seq<u8>)
    requires
        a.len() <= b.len(),
    ensures
        difference(a, b) == difference(a, b.take(a.len() as int)),
        difference(b, a) == difference(b.take(a.len() as int), a),
{
    lemma_diff_depends_on_prefix(a, b, a, b.take(a.len() as int), a.len());
    lemma_diff_depends_on_prefix(b, a, b.take(a.len() as int), a, a.len());
}

/// A look has a quarter of the sides of the area, rounded down, and never less
/// than one pixel; four bytes to a pixel.
pub proof fn law_size_of_a_look(width: u32, height: u32)
    ensures
        width >= 4 ==> 4 * small_side(width) <= width < 4 * small_side(width) + 4,
        width < 4 ==> small_side(width) == 1,
        look_len(width, height) == 4 * (small_side(width) * small_side(height)),
        look_len(width, height) == look_len(height, width),
{
    assert(small_side(width) * small_side(height) == small_side(height) * small_side(width))
        by (nonlinear_arith);
    assert(small_side(width) * small_side(height) >= 0) by (nonlinear_arith)
        requires
            small_side(width) >= 0,
            small_side(height) >= 0,
    ;
}

} // verus!
