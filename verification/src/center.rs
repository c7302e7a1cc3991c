//! The middle of a tile as a single-precision number: its column or row and a half.

use vstd::arithmetic::power2::{
    lemma2_to64, lemma_pow2_pos, lemma_pow2_strictly_increases,
    lemma_pow2_unfold, pow2,
};
use vstd::prelude::*;

use crate::scalar::{magnitude, Scalar};

verus! {

/// The bits of the number `q × 2^(e - 150)`, for a `q` of at most 25 bits: `q` is doubled
/// until its leading bit is in place.
pub open spec fn normalized(q: int, e: int) -> int
    decreases 0x100_0000 - q,
{
    if q <= 0 || q >= 0x80_0000 {
        e * 0x80_0000 + (q - 0x80_0000)
    } else {
        normalized(2 * q, e - 1)
    }
}

/// How far numbers that are 24 bits long or more are apart, for numbers as large as `x`:
/// the exponent of that power of two.
pub open spec fn spacing(x: int) -> int {
    if x < 0x200_0000 {
        1
    } else if x < 0x400_0000 {
        2
    } else if x < 0x800_0000 {
        3
    } else if x < 0x1000_0000 {
        4
    } else if x < 0x2000_0000 {
        5
    } else if x < 0x4000_0000 {
        6
    } else if x < 0x8000_0000 {
        7
    } else {
        8
    }
}

/// `x` in units, rounded to the nearest whole one, to the even one from halfway.
pub open spec fn rounded(x: int, unit: int) -> int {
    let q = x / unit;
    let r = x % unit;
    if 2 * r < unit || (2 * r == unit && q % 2 == 0) {
        q
    } else {
        q + 1
    }
}

/// The middle of a tile. Up to 2^23 it is exact; beyond that it is the nearest number
/// there is.
pub open spec fn center(x: u32) -> Scalar {
    Scalar {
        bits: (if x < 0x80_0000 {
            normalized(2 * x + 1, 149)
        } else if x < 0x100_0000 {
            normalized(x + x % 2, 150)
        } else {
            normalized(
                rounded(x as int, pow2(spacing(x as int) as nat) as int),
                150 + spacing(x as int),
            )
        }) as u32,
    }
}

/// A normalized number has the value that it was made from.
proof fn lemma_normalized(q: int, e: int)
    requires
        0 < q <= 0x100_0000,
        e <= 253,
        q >= 0x80_0000 ==> e >= 1,
        q < 0x80_0000 ==> e <= 149 && pow2((149 - e) as nat) <= q,
    ensures
        0 < normalized(q, e) < 0x7f80_0000,
        magnitude(normalized(q, e)) == q * pow2((e - 1) as nat),
    decreases 0x100_0000 - q,
{
    if q < 0x80_0000 {
        lemma2_to64();
        if e <= 126 {
            if e < 126 {
                lemma_pow2_strictly_increases(23, (149 - e) as nat);
            }
            assert(false);
        }
        lemma_pow2_unfold((150 - e) as nat);
        lemma_normalized(2 * q, e - 1);
        lemma_pow2_unfold((e - 1) as nat);
        let p = pow2((e - 2) as nat) as int;
        assert((2 * q) * p == q * (2 * p)) by (nonlinear_arith);
    } else if q < 0x100_0000 {
        let body = e * 0x80_0000 + (q - 0x80_0000);
        assert(body / 0x80_0000 == e);
        assert(body % 0x80_0000 == q - 0x80_0000);
    } else {
        let body = e * 0x80_0000 + 0x80_0000;
        let fraction = body % 0x80_0000;
        assert(body / 0x80_0000 == e + 1);
        assert(fraction == 0);
        lemma_pow2_unfold(e as nat);
        let p = pow2((e - 1) as nat) as int;
        assert((fraction + 0x80_0000) * (2 * p) == q * p) by (nonlinear_arith)
            requires
                fraction == 0,
                q == 0x100_0000,
        ;
    }
}

/// The middle of a tile lies halfway between the tile's column or row and the next.
pub proof fn law_centers_are_halfway(x: u32)
    requires
        x < 0x80_0000,
    ensures
        !center(x).is_nan(),
        !center(x).is_negative(),
        center(x).value() == (2 * x + 1) * pow2(148),
        center(x).whole_part() == x,
{
    lemma2_to64();
    lemma_normalized(2 * x + 1, 149);
    lemma_pow2_pos(148);
    lemma_pow2_unfold(149);
    let p = pow2(148) as int;
    let v = (2 * x + 1) * p;
    assert(v == x * (2 * p) + p) by (nonlinear_arith)
        requires
            v == (2 * x + 1) * p,
    ;
    vstd::arithmetic::div_mod::lemma_fundamental_div_mod_converse(v, 2 * p, x as int, p);
}

/// The power of two with a small exponent.
fn small_pow2(s: u32) -> (p: u32)
    requires
        1 <= s <= 8,
    ensures
        p == pow2(s as nat),
{
    proof {
        lemma2_to64();
    }
    if s == 1 {
        2
    } else if s == 2 {
        4
    } else if s == 3 {
        8
    } else if s == 4 {
        16
    } else if s == 5 {
        32
    } else if s == 6 {
        64
    } else if s == 7 {
        128
    } else {
        256
    }
}

fn spacing_of(x: u32) -> (s: u32)
    requires
        x >= 0x100_0000,
    ensures
        s == spacing(x as int),
        1 <= s <= 8,
        0x80_0000 * pow2(s as nat) <= x < 0x100_0000 * pow2(s as nat),
{
    proof {
        lemma2_to64();
    }
    if x < 0x200_0000 {
        1
    } else if x < 0x400_0000 {
        2
    } else if x < 0x800_0000 {
        3
    } else if x < 0x1000_0000 {
        4
    } else if x < 0x2000_0000 {
        5
    } else if x < 0x4000_0000 {
        6
    } else if x < 0x8000_0000 {
        7
    } else {
        8
    }
}

/// The bits of the number `q × 2^(e - 150)`.
fn normalize(q: u32, e: u32) -> (bits: u32)
    requires
        0 < q <= 0x100_0000,
        e <= 200,
        q >= 0x80_0000 ==> e >= 1,
        q < 0x80_0000 ==> e <= 149 && pow2((149 - e) as nat) <= q,
    ensures
        bits == normalized(q as int, e as int),
{
    proof {
        lemma_normalized(q as int, e as int);
    }
    let ghost want = normalized(q as int, e as int);
    let mut q: u32 = q;
    let mut e: u32 = e;
    while q < 0x80_0000
        invariant
            0 < q <= 0x100_0000,
            e <= 200,
            q >= 0x80_0000 ==> e >= 1,
            q < 0x80_0000 ==> e <= 149 && pow2((149 - e) as nat) <= q,
            want == normalized(q as int, e as int),
        decreases 0x100_0000 - q,
    {
        proof {
            lemma2_to64();
            if e <= 126 {
                if e < 126 {
                    lemma_pow2_strictly_increases(23, (149 - e) as nat);
                }
                assert(false);
            }
            lemma_pow2_unfold((150 - e) as nat);
        }
        q = 2 * q;
        e = e - 1;
    }
    e * 0x80_0000 + (q - 0x80_0000)
}

/// The middle of a tile.
pub fn center_of(x: u32) -> (s: Scalar)
    ensures
        s == center(x),
{
    proof {
        lemma2_to64();
    }
    let bits: u32 = if x < 0x80_0000 {
        normalize(2 * x + 1, 149)
    } else if x < 0x100_0000 {
        normalize(x + x % 2, 150)
    } else {
        let s: u32 = spacing_of(x);
        let unit: u32 = small_pow2(s);
        let q: u32 = x / unit;
        let r: u32 = x % unit;
        assert(0x80_0000 <= q < 0x100_0000) by (nonlinear_arith)
            requires
                0x80_0000 * unit <= x < 0x100_0000 * unit,
                unit > 0,
                q == x / unit,
        ;
        let n: u32 = if 2 * r < unit || (2 * r == unit && q % 2 == 0) {
            q
        } else {
            q + 1
        };
        normalize(n, 150 + s)
    };
    Scalar { bits }
}

} // verus!
