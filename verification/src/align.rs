//! Alignment of addresses and sizes to powers of two, through `align_ext`.

use vstd::prelude::*;

use align_ext::AlignExt;

verus! {

/// `a` is a power of two of at least 2, as `align_ext` demands.
pub open spec fn is_align(a: usize) -> bool {
    &&& a >= 2
    &&& a & ((a - 1) as usize) == 0
}

/// The smallest multiple of `a` that is at least `x`.
pub open spec fn align_up_spec(x: int, a: int) -> int {
    ((x + a - 1) / a) * a
}

/// The greatest multiple of `a` that is at most `x`.
pub open spec fn align_down_spec(x: int, a: int) -> int {
    (x / a) * a
}

/// `AlignExt::align_up` on `usize`: the smallest multiple of the power of
/// two `a` that is at least `x`. The crate asserts that `a` is a power of
/// two of at least 2 and unwraps the addition `x + (a - 1)`, so both are
/// required here.
#[verifier::external_body]
pub(crate) fn align_up(x: usize, a: usize) -> (r: usize)
    requires
        is_align(a),
        x + a - 1 <= usize::MAX,
    ensures
        r == align_up_spec(x as int, a as int),
{
    x.align_up(a)
}

/// `AlignExt::align_down` on `usize`: the greatest multiple of the power
/// of two `a` that is at most `x`. The crate asserts that `a` is a power of
/// two of at least 2.
#[verifier::external_body]
pub(crate) fn align_down(x: usize, a: usize) -> (r: usize)
    requires
        is_align(a),
    ensures
        r == align_down_spec(x as int, a as int),
{
    x.align_down(a)
}

/// Page alignment is a valid alignment.
pub proof fn lemma_page_align()
    ensures
        is_align(4096),
{
    assert(4096usize & 4095usize == 0) by (bit_vector);
}

/// Facts about rounding to a positive multiple.
pub proof fn lemma_align_bounds(x: int, a: int)
    requires
        x >= 0,
        a > 0,
    ensures
        align_down_spec(x, a) <= x < align_down_spec(x, a) + a,
        x <= align_up_spec(x, a) < x + a,
        align_down_spec(x, a) % a == 0,
        align_up_spec(x, a) % a == 0,
        align_down_spec(x, a) >= 0,
{
    vstd::arithmetic::div_mod::lemma_fundamental_div_mod(x, a);
    vstd::arithmetic::div_mod::lemma_fundamental_div_mod(x + a - 1, a);
    vstd::arithmetic::div_mod::lemma_mod_multiples_basic(x / a, a);
    vstd::arithmetic::div_mod::lemma_mod_multiples_basic((x + a - 1) / a, a);
    assert(0 <= x / a) by {
        vstd::arithmetic::div_mod::lemma_div_pos_is_pos(x, a);
    }
    assert((x / a) * a >= 0) by (nonlinear_arith)
        requires
            x / a >= 0,
            a > 0,
    ;
}

} // verus!
