use vstd::prelude::*;

verus! {

/// Whether bit `i` (counted from the least significant end) of `x` is set.
pub open spec fn bit(x: u8, i: u8) -> bool {
    (x >> i) & 1u8 == 1u8
}

/// Two bytes that agree on all eight bits are equal.
pub proof fn lemma_bits_determine_byte(a: u8, b: u8)
    requires
        forall|i: u8| i < 8 ==> #[trigger] bit(a, i) == bit(b, i),
    ensures
        a == b,
{
    assert(bit(a, 0) == bit(b, 0));
    assert(bit(a, 1) == bit(b, 1));
    assert(bit(a, 2) == bit(b, 2));
    assert(bit(a, 3) == bit(b, 3));
    assert(bit(a, 4) == bit(b, 4));
    assert(bit(a, 5) == bit(b, 5));
    assert(bit(a, 6) == bit(b, 6));
    assert(bit(a, 7) == bit(b, 7));
    assert(a == b) by (bit_vector)
        requires
            ((a >> 0u8) & 1u8 == 1u8) == ((b >> 0u8) & 1u8 == 1u8),
            ((a >> 1u8) & 1u8 == 1u8) == ((b >> 1u8) & 1u8 == 1u8),
            ((a >> 2u8) & 1u8 == 1u8) == ((b >> 2u8) & 1u8 == 1u8),
            ((a >> 3u8) & 1u8 == 1u8) == ((b >> 3u8) & 1u8 == 1u8),
            ((a >> 4u8) & 1u8 == 1u8) == ((b >> 4u8) & 1u8 == 1u8),
            ((a >> 5u8) & 1u8 == 1u8) == ((b >> 5u8) & 1u8 == 1u8),
            ((a >> 6u8) & 1u8 == 1u8) == ((b >> 6u8) & 1u8 == 1u8),
            ((a >> 7u8) & 1u8 == 1u8) == ((b >> 7u8) & 1u8 == 1u8),
    ;
}

/// Reads bit `index` of `source`.
pub fn get_bit(source: u8, index: u8) -> (r: bool)
    requires
        index < 8,
    ensures
        r == bit(source, index),
{
    ((source >> index) & 1) == 1
}

/// Returns `source` with bit `index` forced to `value`, all other bits kept.
pub fn set_bit(source: u8, index: u8, value: bool) -> (r: u8)
    requires
        index < 8,
    ensures
        bit(r, index) == value,
        forall|j: u8| j < 8 && j != index ==> #[trigger] bit(r, j) == bit(source, j),
{
    if value {
        let r = source | (1u8 << index);
        assert(bit(r, index)) by (bit_vector)
            requires
                r == source | (1u8 << index),
                index < 8,
        ;
        assert forall|j: u8| j < 8 && j != index implies #[trigger] bit(r, j) == bit(source, j) by {
            assert((r >> j) & 1u8 == (source >> j) & 1u8) by (bit_vector)
                requires
                    r == source | (1u8 << index),
                    index < 8,
                    j < 8,
                    j != index,
            ;
        }
        r
    } else {
        let r = source & !(1u8 << index);
        assert(!bit(r, index)) by (bit_vector)
            requires
                r == source & !(1u8 << index),
                index < 8,
        ;
        assert forall|j: u8| j < 8 && j != index implies #[trigger] bit(r, j) == bit(source, j) by {
            assert((r >> j) & 1u8 == (source >> j) & 1u8) by (bit_vector)
                requires
                    r == source & !(1u8 << index),
                    index < 8,
                    j < 8,
                    j != index,
            ;
        }
        r
    }
}

} // verus!
