use crate::bits::{bit, lemma_bits_determine_byte};
use crate::gray_alpha::GrayAlphaMode;
use crate::layout::{
    bit_number, capacity, carries, decoded, encoded, is_slot, slot, written, Spread,
};
use crate::parity::{is_odd, parity_fixed};
use crate::rgb::RgbMode;
use crate::rgba::RgbaMode;
use vstd::arithmetic::div_mod::lemma_fundamental_div_mod;
use vstd::prelude::*;

verus! {

/// A legal parity adjustment always leaves the value carrying the target bit.
pub proof fn lemma_fixed_carries_bit(old: u8, value: bool, new: u8)
    requires
        parity_fixed(old, value, new),
    ensures
        is_odd(new) == value,
{
}

/// After an encode, every slot of every written byte holds the parity of the
/// payload bit it carries: odd for a one, even for a zero.
pub proof fn lemma_parity_correct(
    spread: Spread,
    channels: nat,
    pixels: nat,
    before: Seq<u8>,
    payload: Seq<u8>,
    after: Seq<u8>,
)
    requires
        encoded(spread, channels, pixels, before, payload, after),
    ensures
        forall|b: int, i: int|
            0 <= b < written(spread, channels, pixels, payload.len()) && 0 <= i < 8 ==> is_odd(
                after[#[trigger] slot(spread, channels, b, i)],
            ) == bit(payload[b], i as u8),
{
    assert forall|b: int, i: int|
        0 <= b < written(spread, channels, pixels, payload.len()) && 0 <= i
            < 8 implies is_odd(after[#[trigger] slot(spread, channels, b, i)]) == bit(
        payload[b],
        i as u8,
    ) by {
        lemma_fixed_carries_bit(
            before[slot(spread, channels, b, i)],
            bit(payload[b], i as u8),
            after[slot(spread, channels, b, i)],
        );
    }
}

/// Decoding, from the buffer an encode produced, as many bytes as the
/// payload holds gives back the payload, whatever coins the encode drew,
/// provided the payload fits.
pub proof fn lemma_round_trip(
    spread: Spread,
    channels: nat,
    pixels: nat,
    before: Seq<u8>,
    payload: Seq<u8>,
    after: Seq<u8>,
    out_before: Seq<u8>,
    out_after: Seq<u8>,
)
    requires
        payload.len() <= capacity(spread, channels, pixels),
        payload.len() <= out_before.len(),
        encoded(spread, channels, pixels, before, payload, after),
        decoded(spread, channels, pixels, after, payload.len(), out_before, out_after),
    ensures
        out_after.subrange(0, payload.len() as int) == payload,
{
    lemma_parity_correct(spread, channels, pixels, before, payload, after);
    assert forall|b: int| 0 <= b < payload.len() implies #[trigger] out_after[b] == payload[b] by {
        assert forall|i: u8| i < 8 implies #[trigger] bit(out_after[b], i) == bit(payload[b], i) by {
            let ii = i as int;
            assert(ii as u8 == i);
            assert(0 <= b < written(spread, channels, pixels, payload.len()));
            assert(is_odd(after[slot(spread, channels, b, ii)]) == bit(payload[b], ii as u8));
            assert(bit(out_after[b], ii as u8) == is_odd(after[slot(spread, channels, b, ii)]));
        }
        lemma_bits_determine_byte(out_after[b], payload[b]);
    }
    assert(out_after.subrange(0, payload.len() as int) =~= payload);
}

/// The slot at `k` is the slot of the bit its bit number names.
pub proof fn lemma_slot_of_bit_number(spread: Spread, channels: nat, k: int)
    requires
        channels >= 1,
        k >= 0,
        is_slot(spread, channels, k),
    ensures
        bit_number(spread, channels, k) >= 0,
        slot(
            spread,
            channels,
            bit_number(spread, channels, k) / 8,
            bit_number(spread, channels, k) % 8,
        ) == k,
{
    let j = bit_number(spread, channels, k);
    let c = channels as int;
    match spread {
        Spread::LastChannel => {
            lemma_fundamental_div_mod(k, c);
            assert(j >= 0) by (nonlinear_arith)
                requires
                    j == k / c,
                    k >= 0,
                    c >= 1,
            ;
            lemma_fundamental_div_mod(j, 8);
            assert((8 * (j / 8) + j % 8) * c + (c - 1) == k) by (nonlinear_arith)
                requires
                    k == c * j + (c - 1),
                    j == 8 * (j / 8) + j % 8,
            ;
        },
        Spread::AllChannels => {
            lemma_fundamental_div_mod(j, 8);
        },
    }
}

/// Encoding moves no channel by more than one.
pub proof fn lemma_bounded_perturbation(
    spread: Spread,
    channels: nat,
    pixels: nat,
    before: Seq<u8>,
    payload: Seq<u8>,
    after: Seq<u8>,
)
    requires
        channels >= 1,
        encoded(spread, channels, pixels, before, payload, after),
    ensures
        after.len() == before.len(),
        forall|k: int|
            0 <= k < before.len() ==> -1 <= #[trigger] after[k] - before[k] <= 1,
{
    let n = written(spread, channels, pixels, payload.len());
    assert forall|k: int| 0 <= k < before.len() implies -1 <= #[trigger] after[k] - before[k] <= 1 by {
        if carries(spread, channels, k, 8 * n as int) {
            lemma_slot_of_bit_number(spread, channels, k);
            let j = bit_number(spread, channels, k);
            let b = j / 8;
            let i = j % 8;
            assert(0 <= b < n);
            assert(slot(spread, channels, b, i) == k);
        }
    }
}

/// Encoding never wraps at the ends of the range: a channel at 0 that must
/// carry a one becomes 1, and one at 255 that must carry a zero becomes 254.
pub proof fn lemma_boundary(
    spread: Spread,
    channels: nat,
    pixels: nat,
    before: Seq<u8>,
    payload: Seq<u8>,
    after: Seq<u8>,
    b: int,
    i: int,
)
    requires
        encoded(spread, channels, pixels, before, payload, after),
        0 <= b < written(spread, channels, pixels, payload.len()),
        0 <= i < 8,
    ensures
        before[slot(spread, channels, b, i)] == 0 && bit(payload[b], i as u8) ==> after[slot(
            spread,
            channels,
            b,
            i,
        )] == 1,
        before[slot(spread, channels, b, i)] == 255 && !bit(payload[b], i as u8) ==> after[slot(
            spread,
            channels,
            b,
            i,
        )] == 254,
{
    assert(parity_fixed(
        before[slot(spread, channels, b, i)],
        bit(payload[b], i as u8),
        after[slot(spread, channels, b, i)],
    ));
}

/// The capacity that grayscale+alpha reports is exactly what encode can hold.
pub proof fn lemma_gray_alpha_estimate_exact(mode: GrayAlphaMode, pixels: nat)
    ensures
        mode.estimate_for(pixels) == capacity(mode.spread(), 2, pixels),
{
    assert((pixels / 8) * 1 == pixels / 8);
    assert((pixels / 4) * 1 == pixels / 4);
}

/// The capacity that color+alpha reports is exactly what encode can hold.
pub proof fn lemma_rgba_estimate_exact(mode: RgbaMode, pixels: nat)
    ensures
        mode.estimate_for(pixels) == capacity(mode.spread(), 4, pixels),
{
    assert((pixels / 8) * 1 == pixels / 8);
    assert((pixels / 2) * 1 == pixels / 2);
}

/// Grayscale+alpha: decoding as many bytes as the payload holds, from the buffer that
/// encoding a payload no longer than the reported capacity produced, gives
/// back the payload, whatever coins were drawn.
pub proof fn lemma_gray_alpha_round_trip(
    mode: GrayAlphaMode,
    pixels: nat,
    before: Seq<u8>,
    payload: Seq<u8>,
    after: Seq<u8>,
    out_before: Seq<u8>,
    out_after: Seq<u8>,
)
    requires
        payload.len() <= mode.estimate_for(pixels),
        payload.len() <= out_before.len(),
        encoded(mode.spread(), 2, pixels, before, payload, after),
        decoded(mode.spread(), 2, pixels, after, payload.len(), out_before, out_after),
    ensures
        out_after.subrange(0, payload.len() as int) == payload,
{
    lemma_gray_alpha_estimate_exact(mode, pixels);
    lemma_round_trip(mode.spread(), 2, pixels, before, payload, after, out_before, out_after);
}

/// Grayscale+alpha: handed one byte more than the reported capacity, encode writes
/// exactly that capacity and leaves the slots of the excess byte untouched.
pub proof fn lemma_gray_alpha_estimate_consistent(
    mode: GrayAlphaMode,
    pixels: nat,
    before: Seq<u8>,
    payload: Seq<u8>,
    after: Seq<u8>,
)
    requires
        payload.len() == mode.estimate_for(pixels) + 1,
        encoded(mode.spread(), 2, pixels, before, payload, after),
    ensures
        written(mode.spread(), 2, pixels, payload.len()) == mode.estimate_for(pixels),
        forall|k: int|
            0 <= k < before.len() && !carries(mode.spread(), 2, k, 8 * mode.estimate_for(pixels) as int)
                ==> #[trigger] after[k] == before[k],
{
    lemma_gray_alpha_estimate_exact(mode, pixels);
}

/// Color: decoding as many bytes as the payload holds, from the buffer that
/// encoding the payload produced, gives back the payload, whatever coins were
/// drawn, for a payload within both the reported capacity (a byte per three
/// pixels) and what whole eight-pixel groups hold (three bytes each). Neither
/// bound implies the other: at seven pixels the first is two bytes and the
/// second none, at sixteen pixels they are five and six. Which of the two a
/// caller may rely on alone is left open by the format's description.
pub proof fn lemma_rgb_round_trip(
    mode: RgbMode,
    pixels: nat,
    before: Seq<u8>,
    payload: Seq<u8>,
    after: Seq<u8>,
    out_before: Seq<u8>,
    out_after: Seq<u8>,
)
    requires
        payload.len() <= mode.estimate_for(pixels),
        payload.len() <= capacity(mode.spread(), 3, pixels),
        payload.len() <= out_before.len(),
        encoded(mode.spread(), 3, pixels, before, payload, after),
        decoded(mode.spread(), 3, pixels, after, payload.len(), out_before, out_after),
    ensures
        out_after.subrange(0, payload.len() as int) == payload,
{
    lemma_round_trip(mode.spread(), 3, pixels, before, payload, after, out_before, out_after);
}

/// Color: handed one byte more than the reported capacity, encode writes
/// exactly that capacity and leaves the slots of the excess byte untouched.
/// This holds only where the reported capacity, a byte per three pixels,
/// equals what whole eight-pixel groups hold; elsewhere the two differ.
pub proof fn lemma_rgb_estimate_consistent(
    mode: RgbMode,
    pixels: nat,
    before: Seq<u8>,
    payload: Seq<u8>,
    after: Seq<u8>,
)
    requires
        mode.estimate_for(pixels) == capacity(mode.spread(), 3, pixels),
        payload.len() == mode.estimate_for(pixels) + 1,
        encoded(mode.spread(), 3, pixels, before, payload, after),
    ensures
        written(mode.spread(), 3, pixels, payload.len()) == mode.estimate_for(pixels),
        forall|k: int|
            0 <= k < before.len() && !carries(mode.spread(), 3, k, 8 * mode.estimate_for(pixels) as int)
                ==> #[trigger] after[k] == before[k],
{
}

/// Color+alpha: decoding as many bytes as the payload holds, from the buffer that
/// encoding a payload no longer than the reported capacity produced, gives
/// back the payload, whatever coins were drawn.
pub proof fn lemma_rgba_round_trip(
    mode: RgbaMode,
    pixels: nat,
    before: Seq<u8>,
    payload: Seq<u8>,
    after: Seq<u8>,
    out_before: Seq<u8>,
    out_after: Seq<u8>,
)
    requires
        payload.len() <= mode.estimate_for(pixels),
        payload.len() <= out_before.len(),
        encoded(mode.spread(), 4, pixels, before, payload, after),
        decoded(mode.spread(), 4, pixels, after, payload.len(), out_before, out_after),
    ensures
        out_after.subrange(0, payload.len() as int) == payload,
{
    lemma_rgba_estimate_exact(mode, pixels);
    lemma_round_trip(mode.spread(), 4, pixels, before, payload, after, out_before, out_after);
}

/// Color+alpha: handed one byte more than the reported capacity, encode writes
/// exactly that capacity and leaves the slots of the excess byte untouched.
pub proof fn lemma_rgba_estimate_consistent(
    mode: RgbaMode,
    pixels: nat,
    before: Seq<u8>,
    payload: Seq<u8>,
    after: Seq<u8>,
)
    requires
        payload.len() == mode.estimate_for(pixels) + 1,
        encoded(mode.spread(), 4, pixels, before, payload, after),
    ensures
        written(mode.spread(), 4, pixels, payload.len()) == mode.estimate_for(pixels),
        forall|k: int|
            0 <= k < before.len() && !carries(mode.spread(), 4, k, 8 * mode.estimate_for(pixels) as int)
                ==> #[trigger] after[k] == before[k],
{
    lemma_rgba_estimate_exact(mode, pixels);
}

} // verus!
