//! Integer arithmetic: sums and division without the division operator.

use vstd::prelude::*;

verus! {

/// The sum of two sizes.
pub fn add(left: usize, right: usize) -> (r: usize)
    requires
        left + right <= usize::MAX,
    ensures
        r == left + right,
{
    left + right
}

/// The absolute value.
pub open spec fn magnitude(a: int) -> int {
    if a < 0 {
        -a
    } else {
        a
    }
}

/// Division of integers rounded toward zero, as Rust's `/` on `i32` does.
pub open spec fn trunc_div(a: int, b: int) -> int
    recommends
        b != 0,
{
    let q = magnitude(a) / magnitude(b);
    if (a < 0) == (b < 0) {
        q
    } else {
        -q
    }
}

/// `a / b` rounded toward zero, computed by repeated subtraction on
/// non-positive values (so that `i32::MIN` needs no negation). The one
/// quotient that does not fit, `i32::MIN / -1`, saturates to `i32::MAX`.
pub fn divide(a: i32, b: i32) -> (r: i32)
    requires
        b != 0,
    ensures
        a == i32::MIN && b == -1 ==> r == i32::MAX,
        !(a == i32::MIN && b == -1) ==> r == trunc_div(a as int, b as int),
{
    let mut a = a;
    let mut b = b;
    if b == 1 {
        assert(magnitude(a as int) / 1 == magnitude(a as int));
        return a;
    }
    if a == i32::MIN && b == -1 {
        return i32::MAX;
    }
    let ghost (a0, b0) = (a as int, b as int);
    let sign: bool = (a > 0 && b > 0) || (a < 0 && b < 0);

    a = if a > 0 {
        -a
    } else {
        a
    };
    b = if b > 0 {
        -b
    } else {
        b
    };
    let ghost na = a as int;
    assert(na == -magnitude(a0) && b == -magnitude(b0));
    assert(i32::MAX >> 1u32 == 0x3FFF_FFFFi32) by (bit_vector);

    let mut ans: i32 = 0;
    while a <= b
        invariant
            b < 0,
            b0 != 1,
            b == -magnitude(b0),
            na == -magnitude(a0),
            !(a0 == i32::MIN && b0 == -1),
            a <= 0,
            ans >= 0,
            na == a + ans * b,
            -na <= 0x8000_0000,
            b == -1 ==> -na <= 0x7FFF_FFFF,
            i32::MAX >> 1u32 == 0x3FFF_FFFFi32,
        decreases -a,
    {
        let mut x: i32 = b;
        let mut cnt: i32 = 1;
        while x >= (i32::MAX >> 1u32) && a <= (x << 1u32)
            invariant
                x == b,
                cnt == 1,
                b < 0,
                i32::MAX >> 1u32 == 0x3FFF_FFFFi32,
            decreases x,
        {
            x <<= 1u32;
            cnt <<= 1u32;
        }
        assert((ans + 1) * (-(b as int)) <= -na) by (nonlinear_arith)
            requires
                na == a + ans * b,
                a <= b,
                b < 0,
        ;
        assert(ans + 1 <= i32::MAX) by (nonlinear_arith)
            requires
                (ans + 1) * (-(b as int)) <= -na,
                -na <= 0x8000_0000,
                b < 0,
                b == -1 ==> -na <= 0x7FFF_FFFF,
        ;
        ans += cnt;
        a -= x;
        assert(na == a + ans * b) by (nonlinear_arith)
            requires
                na == (a + b) + (ans - 1) * b,
        ;
    }
    proof {
        let q = magnitude(a0) / magnitude(b0);
        assert(-na == ans * (-(b as int)) + (-a as int)) by (nonlinear_arith)
            requires
                na == a + ans * b,
        ;
        vstd::arithmetic::div_mod::lemma_fundamental_div_mod_converse(
            -na,
            -(b as int),
            ans as int,
            -a as int,
        );
        assert(ans == q);
    }
    if sign {
        ans
    } else {
        -ans
    }
}

} // verus!
