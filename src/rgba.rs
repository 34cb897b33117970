use crate::buffer::PixelBuffer;
use crate::codec::Codec;
use crate::layout::{decoded, encoded, Spread};
use crate::parity::RandomBit;
use crate::token::token_is;
use vstd::prelude::*;

verus! {

/// Codec for four-channel pixels: color plus alpha.
pub struct RgbaCodec;

/// Which channels of a color+alpha pixel carry the payload.
#[derive(Clone, Copy, PartialEq, Eq, Structural)]
pub enum RgbaMode {
    /// Alpha only: eight pixels per byte.
    Alpha,
    /// All four channels: two pixels per byte.
    All,
}

impl RgbaMode {
    /// The channel selection of this mode.
    pub open spec fn spread(self) -> Spread {
        match self {
            RgbaMode::Alpha => Spread::LastChannel,
            RgbaMode::All => Spread::AllChannels,
        }
    }

    /// The capacity this mode reports for a buffer of `pixels` pixels.
    pub open spec fn estimate_for(self, pixels: nat) -> nat {
        match self {
            RgbaMode::Alpha => pixels / 8,
            RgbaMode::All => pixels / 2,
        }
    }

    fn to_spread(self) -> (r: Spread)
        ensures
            r == self.spread(),
    {
        match self {
            RgbaMode::Alpha => Spread::LastChannel,
            RgbaMode::All => Spread::AllChannels,
        }
    }

    /// Parses a mode token: `"alpha"`, or `"all"` (also spelled `"each"`).
    pub fn from_str(s: &str) -> (r: Result<RgbaMode, ()>)
        ensures
            r == (if s@ == "alpha"@ {
                Ok(RgbaMode::Alpha)
            } else if s@ == "all"@ || s@ == "each"@ {
                Ok(RgbaMode::All)
            } else {
                Err(())
            }),
    {
        if token_is(s, "alpha") {
            Ok(RgbaMode::Alpha)
        } else if token_is(s, "all") || token_is(s, "each") {
            Ok(RgbaMode::All)
        } else {
            Err(())
        }
    }
}

impl Default for RgbaMode {
    /// Alpha only, the least visible choice.
    fn default() -> (r: RgbaMode)
        ensures
            r == RgbaMode::Alpha,
    {
        RgbaMode::Alpha
    }
}

impl Codec for RgbaCodec {
    type Input = PixelBuffer;
    type Mode = RgbaMode;

    open spec fn accepts(source: &PixelBuffer) -> bool {
        source.wf() && source.spec_channels() == 4
    }

    open spec fn encodes(
        mode: RgbaMode,
        before: &PixelBuffer,
        payload: Seq<u8>,
        after: &PixelBuffer,
    ) -> bool {
        &&& after.same_shape(before)
        &&& encoded(mode.spread(), 4, before.pixels(), before@, payload, after@)
    }

    open spec fn decodes(
        mode: RgbaMode,
        source: &PixelBuffer,
        len: nat,
        before: Seq<u8>,
        after: Seq<u8>,
    ) -> bool {
        decoded(mode.spread(), 4, source.pixels(), source@, len, before, after)
    }

    open spec fn estimates(mode: RgbaMode, source: &PixelBuffer) -> Option<usize> {
        Some(mode.estimate_for(source.pixels()) as usize)
    }

    /// Hides `payload` in `source`, byte after byte, for as many bytes as
    /// whole pixel groups remain; the rest of the payload is dropped.
    fn encode<R: RandomBit>(source: &mut PixelBuffer, payload: &[u8], mode: RgbaMode, rng: R) {
        let mut rng = rng;
        source.encode_bits(mode.to_spread(), payload, &mut rng);
    }

    /// Recovers `len` bytes into the front of `buffer`, or as many as whole
    /// pixel groups hold; the output bytes past those are left untouched.
    fn decode(source: &PixelBuffer, buffer: &mut [u8], len: usize, mode: RgbaMode) {
        source.decode_bits(mode.to_spread(), buffer, len);
    }

    /// The number of payload bytes that fit: one per group of eight pixels in
    /// alpha mode, one per pair of pixels with all channels.
    fn estimate(source: &PixelBuffer, mode: RgbaMode) -> (r: Option<usize>) {
        let pixels = source.pixel_count();
        match mode {
            RgbaMode::Alpha => Some(pixels / 8),
            RgbaMode::All => Some(pixels / 2),
        }
    }
}

} // verus!
