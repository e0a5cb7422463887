use vstd::prelude::*;
use bit_field::BitField;

verus! {

/// Whether bit `i` of `x` is set, in the form `bit_field` computes it.
pub open spec fn bit_of(x: usize, i: usize) -> bool {
    x & (1usize << i) != 0usize
}

/// The word `x` with bit `i` set to `v`, in the form `bit_field` computes it.
pub open spec fn with_bit(x: usize, i: usize, v: bool) -> usize {
    if v {
        x | (1usize << i)
    } else {
        x & !(1usize << i)
    }
}

/// `<usize as bit_field::BitField>::get_bit`: the crate asserts `bit < BIT_LENGTH`
/// and returns `(x & (1 << bit)) != 0`.
#[verifier::external_body]
pub(crate) fn usize_get_bit(x: usize, bit: usize) -> (r: bool)
    requires
        bit < usize::BITS,
    ensures
        r == bit_of(x, bit),
{
    x.get_bit(bit)
}

/// `<usize as bit_field::BitField>::set_bit`: the crate asserts `bit < BIT_LENGTH`,
/// then ors in `1 << bit` when `value` holds and masks it out otherwise.
#[verifier::external_body]
pub(crate) fn usize_set_bit(x: usize, bit: usize, value: bool) -> (r: usize)
    requires
        bit < usize::BITS,
    ensures
        r == with_bit(x, bit, value),
{
    let mut y = x;
    y.set_bit(bit, value);
    y
}

/// Setting bit `i` to `v` makes bit `i` read `v` and leaves every other bit alone.
pub proof fn lemma_with_bit(x: usize, i: usize, v: bool, j: usize)
    requires
        i < usize::BITS,
        j < usize::BITS,
    ensures
        bit_of(with_bit(x, i, v), j) == (if j == i { v } else { bit_of(x, j) }),
{
    if v {
        assert((x | (1usize << i)) & (1usize << j) != 0usize <==> (if j == i { true } else { x & (1usize << j) != 0usize })) by (bit_vector)
            requires i < usize::BITS, j < usize::BITS;
    } else {
        assert((x & !(1usize << i)) & (1usize << j) != 0usize <==> (if j == i { false } else { x & (1usize << j) != 0usize })) by (bit_vector)
            requires i < usize::BITS, j < usize::BITS;
    }
}

/// No bit of zero is set.
pub proof fn lemma_zero_bits(j: usize)
    requires
        j < usize::BITS,
    ensures
        !bit_of(0usize, j),
{
    assert(0usize & (1usize << j) == 0usize) by (bit_vector);
}

} // verus!
