use vstd::arithmetic::div_mod::lemma_fundamental_div_mod_converse;
use crate::bits::bit;
use crate::parity::{is_odd, parity_fixed};
use vstd::prelude::*;

verus! {

/// Which channels of a pixel carry payload bits.
#[derive(Clone, Copy, PartialEq, Eq, Structural)]
pub enum Spread {
    /// One bit per pixel, in its last channel (alpha, or the second channel of
    /// a grayscale+alpha pixel).
    LastChannel,
    /// One bit per channel, every channel of every pixel, in row-major pixel
    /// then channel order.
    AllChannels,
}

/// How many channel slots of a buffer of `pixels` pixels can carry a bit.
pub open spec fn slot_count(spread: Spread, channels: nat, pixels: nat) -> nat {
    match spread {
        Spread::LastChannel => pixels,
        Spread::AllChannels => pixels * channels,
    }
}

/// How many consecutive pixels make one group: the fewest whole pixels whose
/// carrying channels split evenly into bytes.
pub open spec fn group_pixels(spread: Spread, channels: nat) -> nat {
    match spread {
        Spread::LastChannel => 8,
        Spread::AllChannels => if channels % 8 == 0 {
            1
        } else if channels % 4 == 0 {
            2
        } else if channels % 2 == 0 {
            4
        } else {
            8
        },
    }
}

/// How many payload bytes one group of pixels carries.
pub open spec fn group_bytes(spread: Spread, channels: nat) -> nat {
    match spread {
        Spread::LastChannel => 1,
        Spread::AllChannels => if channels % 8 == 0 {
            channels / 8
        } else if channels % 4 == 0 {
            channels / 4
        } else if channels % 2 == 0 {
            channels / 2
        } else {
            channels
        },
    }
}

/// How many payload bytes fit: those of the whole pixel groups; the pixels
/// of a trailing partial group carry nothing.
pub open spec fn capacity(spread: Spread, channels: nat, pixels: nat) -> nat {
    (pixels / group_pixels(spread, channels)) * group_bytes(spread, channels)
}

/// A group's bytes use no more than its slots, so the bytes that fit have
/// all their slots inside the buffer.
pub proof fn lemma_capacity_fits(spread: Spread, channels: nat, pixels: nat)
    requires
        channels >= 1,
    ensures
        8 * capacity(spread, channels, pixels) <= slot_count(spread, channels, pixels),
        capacity(spread, channels, pixels) <= slot_count(spread, channels, pixels),
{
    let g = group_pixels(spread, channels) as int;
    let y = group_bytes(spread, channels) as int;
    let q = pixels as int / g;
    let per = if spread == Spread::LastChannel {
        1int
    } else {
        channels as int
    };
    assert(8 * y <= g * per);
    assert(q * g <= pixels) by {
        vstd::arithmetic::div_mod::lemma_fundamental_div_mod(pixels as int, g);
    }
    assert(8 * (q * y) <= pixels * per) by (nonlinear_arith)
        requires
            8 * y <= g * per,
            q * g <= pixels,
            q >= 0,
            per >= 1,
            g >= 1,
    ;
    assert(slot_count(spread, channels, pixels) == pixels * per);
}

/// The index, in the flat channel sequence, of the channel that carries bit
/// `i` of payload byte `b`.
pub open spec fn slot(spread: Spread, channels: nat, b: int, i: int) -> int {
    match spread {
        Spread::LastChannel => (8 * b + i) * channels + (channels - 1),
        Spread::AllChannels => 8 * b + i,
    }
}

/// Whether the channel at flat index `k` is one that `spread` writes to.
pub open spec fn is_slot(spread: Spread, channels: nat, k: int) -> bool {
    match spread {
        Spread::LastChannel => k % (channels as int) == channels - 1,
        Spread::AllChannels => true,
    }
}

/// The running bit number (`8 * byte + bit`) carried by the slot at `k`.
pub open spec fn bit_number(spread: Spread, channels: nat, k: int) -> int {
    match spread {
        Spread::LastChannel => k / (channels as int),
        Spread::AllChannels => k,
    }
}

/// Whether the channel at `k` carries one of the first `bits` payload bits.
pub open spec fn carries(spread: Spread, channels: nat, k: int, bits: int) -> bool {
    is_slot(spread, channels, k) && bit_number(spread, channels, k) < bits
}

/// The slot of bit `i` of byte `b` is a slot, carries bit number `8 * b + i`,
/// and lies inside a buffer whose slots reach past it.
pub proof fn lemma_slot(spread: Spread, channels: nat, pixels: nat, b: int, i: int)
    requires
        channels >= 1,
        0 <= b,
        0 <= i < 8,
        8 * b + i < slot_count(spread, channels, pixels),
    ensures
        is_slot(spread, channels, slot(spread, channels, b, i)),
        bit_number(spread, channels, slot(spread, channels, b, i)) == 8 * b + i,
        0 <= slot(spread, channels, b, i) < pixels * channels,
{
    let j = 8 * b + i;
    match spread {
        Spread::LastChannel => {
            let k = j * channels + (channels - 1);
            lemma_fundamental_div_mod_converse(k, channels as int, j, channels - 1);
            assert(0 <= k < pixels * channels) by (nonlinear_arith)
                requires
                    k == j * channels + (channels - 1),
                    0 <= j < pixels,
                    channels >= 1,
            ;
        },
        Spread::AllChannels => {},
    }
}

/// Exec form of `slot`.
pub fn slot_index(spread: Spread, channels: usize, pixels: usize, b: usize, i: u8) -> (k: usize)
    requires
        channels >= 1,
        i < 8,
        pixels * channels <= usize::MAX,
        8 * b + i < slot_count(spread, channels as nat, pixels as nat),
    ensures
        k == slot(spread, channels as nat, b as int, i as int),
{
    proof {
        lemma_slot(spread, channels as nat, pixels as nat, b as int, i as int);
    }
    let j: usize = 8 * b + i as usize;
    match spread {
        Spread::LastChannel => j * channels + (channels - 1),
        Spread::AllChannels => j,
    }
}

} // verus!

verus! {

/// The smaller of two counts.
pub open spec fn at_most(a: nat, b: nat) -> nat {
    if a < b {
        a
    } else {
        b
    }
}

/// How many payload bytes an encode writes: the whole payload, or as many of
/// its bytes as fit.
pub open spec fn written(spread: Spread, channels: nat, pixels: nat, payload_len: nat) -> nat {
    at_most(payload_len, capacity(spread, channels, pixels))
}

/// `after` is what encoding `payload` into the channel sequence `before` may
/// give: each slot of a written byte carries its bit by a legal parity
/// adjustment, and every other channel is unchanged.
pub open spec fn encoded(
    spread: Spread,
    channels: nat,
    pixels: nat,
    before: Seq<u8>,
    payload: Seq<u8>,
    after: Seq<u8>,
) -> bool {
    let n = written(spread, channels, pixels, payload.len());
    &&& after.len() == before.len()
    &&& forall|b: int, i: int|
        0 <= b < n && 0 <= i < 8 ==> parity_fixed(
            before[#[trigger] slot(spread, channels, b, i)],
            bit(payload[b], i as u8),
            after[slot(spread, channels, b, i)],
        )
    &&& forall|k: int|
        0 <= k < before.len() && !carries(spread, channels, k, 8 * n as int) ==> #[trigger] after[k]
            == before[k]
}

/// `after` is the output buffer `before` once `len` bytes have been decoded
/// from the channel sequence `samples`: each byte that fits is made of the
/// parities of its slots, and all other output bytes are left as they were.
pub open spec fn decoded(
    spread: Spread,
    channels: nat,
    pixels: nat,
    samples: Seq<u8>,
    len: nat,
    before: Seq<u8>,
    after: Seq<u8>,
) -> bool {
    let m = at_most(len, capacity(spread, channels, pixels));
    &&& after.len() == before.len()
    &&& forall|b: int, i: int|
        0 <= b < m && 0 <= i < 8 ==> bit(after[b], i as u8) == is_odd(
            samples[#[trigger] slot(spread, channels, b, i)],
        )
    &&& forall|b: int| m <= b < after.len() ==> #[trigger] after[b] == before[b]
}

} // verus!
