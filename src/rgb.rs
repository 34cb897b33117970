use crate::buffer::PixelBuffer;
use crate::codec::Codec;
use crate::layout::{decoded, encoded, Spread};
use crate::parity::RandomBit;
use crate::token::token_is;
use vstd::prelude::*;

verus! {

/// Codec for three-channel color pixels.
pub struct RgbCodec;

/// Which channels of a color pixel carry the payload; there is one choice.
#[derive(Clone, Copy, PartialEq, Eq, Structural)]
pub enum RgbMode {
    /// Every channel: eight pixels hold three bytes, the 24 channels taken in
    /// pixel then channel order and cut into three runs of eight bits.
    All,
}

impl RgbMode {
    /// The channel selection of this mode.
    pub open spec fn spread(self) -> Spread {
        Spread::AllChannels
    }

    /// The capacity this mode reports for a buffer of `pixels` pixels.
    pub open spec fn estimate_for(self, pixels: nat) -> nat {
        pixels / 3
    }

    fn to_spread(self) -> (r: Spread)
        ensures
            r == self.spread(),
    {
        Spread::AllChannels
    }

    /// Parses a mode token: `"all"`.
    pub fn from_str(s: &str) -> (r: Result<RgbMode, ()>)
        ensures
            r == (if s@ == "all"@ {
                Ok(RgbMode::All)
            } else {
                Err(())
            }),
    {
        if token_is(s, "all") {
            Ok(RgbMode::All)
        } else {
            Err(())
        }
    }
}

impl Default for RgbMode {
    fn default() -> (r: RgbMode)
        ensures
            r == RgbMode::All,
    {
        RgbMode::All
    }
}

impl Codec for RgbCodec {
    type Input = PixelBuffer;
    type Mode = RgbMode;

    open spec fn accepts(source: &PixelBuffer) -> bool {
        source.wf() && source.spec_channels() == 3
    }

    open spec fn encodes(
        mode: RgbMode,
        before: &PixelBuffer,
        payload: Seq<u8>,
        after: &PixelBuffer,
    ) -> bool {
        &&& after.same_shape(before)
        &&& encoded(mode.spread(), 3, before.pixels(), before@, payload, after@)
    }

    open spec fn decodes(
        mode: RgbMode,
        source: &PixelBuffer,
        len: nat,
        before: Seq<u8>,
        after: Seq<u8>,
    ) -> bool {
        decoded(mode.spread(), 3, source.pixels(), source@, len, before, after)
    }

    open spec fn estimates(mode: RgbMode, source: &PixelBuffer) -> Option<usize> {
        Some(mode.estimate_for(source.pixels()) as usize)
    }

    /// Hides `payload` in `source`, byte after byte, three bytes per whole
    /// group of eight pixels; pixels of a trailing partial group are left as
    /// they are and the rest of the payload is dropped.
    fn encode<R: RandomBit>(source: &mut PixelBuffer, payload: &[u8], mode: RgbMode, rng: R) {
        let mut rng = rng;
        source.encode_bits(mode.to_spread(), payload, &mut rng);
    }

    /// Recovers `len` bytes into the front of `payload`, or as many as whole
    /// groups of eight pixels hold; the output bytes past those are left
    /// untouched.
    fn decode(source: &PixelBuffer, payload: &mut [u8], len: usize, mode: RgbMode) {
        source.decode_bits(mode.to_spread(), payload, len);
    }

    /// The reported capacity: one byte per three pixels. This differs from the
    /// three bytes per whole group of eight pixels that `encode` holds, above
    /// it for some sizes and below for others; the format's description gives
    /// both and leaves open which a caller should rely on.
    fn estimate(source: &PixelBuffer, mode: RgbMode) -> (r: Option<usize>) {
        Some(source.pixel_count() / 3)
    }
}

} // verus!
