use crate::buffer::PixelBuffer;
use crate::codec::Codec;
use crate::layout::{decoded, encoded, Spread};
use crate::parity::RandomBit;
use crate::token::token_is;
use vstd::prelude::*;

verus! {

/// Codec for two-channel pixels: a gray value followed by alpha.
pub struct GrayAlphaCodec;

/// Which channels of a grayscale+alpha pixel carry the payload.
#[derive(Clone, Copy, PartialEq, Eq, Structural)]
pub enum GrayAlphaMode {
    /// Alpha only: eight pixels per byte.
    Alpha,
    /// Both channels: four pixels per byte.
    All,
}

impl GrayAlphaMode {
    /// The channel selection of this mode.
    pub open spec fn spread(self) -> Spread {
        match self {
            GrayAlphaMode::Alpha => Spread::LastChannel,
            GrayAlphaMode::All => Spread::AllChannels,
        }
    }

    /// The capacity this mode reports for a buffer of `pixels` pixels.
    pub open spec fn estimate_for(self, pixels: nat) -> nat {
        match self {
            GrayAlphaMode::Alpha => pixels / 8,
            GrayAlphaMode::All => pixels / 4,
        }
    }

    fn to_spread(self) -> (r: Spread)
        ensures
            r == self.spread(),
    {
        match self {
            GrayAlphaMode::Alpha => Spread::LastChannel,
            GrayAlphaMode::All => Spread::AllChannels,
        }
    }

    /// Parses a mode token: `"alpha"` or `"all"`.
    pub fn from_str(s: &str) -> (r: Result<GrayAlphaMode, ()>)
        ensures
            r == (if s@ == "alpha"@ {
                Ok(GrayAlphaMode::Alpha)
            } else if s@ == "all"@ {
                Ok(GrayAlphaMode::All)
            } else {
                Err(())
            }),
    {
        if token_is(s, "alpha") {
            Ok(GrayAlphaMode::Alpha)
        } else if token_is(s, "all") {
            Ok(GrayAlphaMode::All)
        } else {
            Err(())
        }
    }
}

impl Default for GrayAlphaMode {
    /// Alpha only, the least visible choice.
    fn default() -> (r: GrayAlphaMode)
        ensures
            r == GrayAlphaMode::Alpha,
    {
        GrayAlphaMode::Alpha
    }
}

impl Codec for GrayAlphaCodec {
    type Input = PixelBuffer;
    type Mode = GrayAlphaMode;

    open spec fn accepts(source: &PixelBuffer) -> bool {
        source.wf() && source.spec_channels() == 2
    }

    open spec fn encodes(
        mode: GrayAlphaMode,
        before: &PixelBuffer,
        payload: Seq<u8>,
        after: &PixelBuffer,
    ) -> bool {
        &&& after.same_shape(before)
        &&& encoded(mode.spread(), 2, before.pixels(), before@, payload, after@)
    }

    open spec fn decodes(
        mode: GrayAlphaMode,
        source: &PixelBuffer,
        len: nat,
        before: Seq<u8>,
        after: Seq<u8>,
    ) -> bool {
        decoded(mode.spread(), 2, source.pixels(), source@, len, before, after)
    }

    open spec fn estimates(mode: GrayAlphaMode, source: &PixelBuffer) -> Option<usize> {
        Some(mode.estimate_for(source.pixels()) as usize)
    }

    /// Hides `payload` in `source`, byte after byte, for as many bytes as
    /// whole pixel groups remain; the rest of the payload is dropped.
    fn encode<R: RandomBit>(source: &mut PixelBuffer, payload: &[u8], mode: GrayAlphaMode, rng: R) {
        let mut rng = rng;
        source.encode_bits(mode.to_spread(), payload, &mut rng);
    }

    /// Recovers `len` bytes into the front of `payload`, or as many as whole
    /// pixel groups hold; the output bytes past those are left untouched.
    fn decode(source: &PixelBuffer, payload: &mut [u8], len: usize, mode: GrayAlphaMode) {
        source.decode_bits(mode.to_spread(), payload, len);
    }

    /// The number of payload bytes that fit: one per group of eight pixels in
    /// alpha mode, one per group of four with both channels.
    fn estimate(source: &PixelBuffer, mode: GrayAlphaMode) -> (r: Option<usize>) {
        let pixels = source.pixel_count();
        match mode {
            GrayAlphaMode::Alpha => Some(pixels / 8),
            GrayAlphaMode::All => Some(pixels / 4),
        }
    }
}

} // verus!
