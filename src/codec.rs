use crate::parity::RandomBit;
use vstd::prelude::*;

verus! {

/// A pixel format's codec: it hides a payload in a pixel buffer, reads it
/// back, and reports how much fits.
pub trait Codec {
    /// The pixel buffer the codec works on.
    type Input;

    /// The choices of which channels carry the payload.
    type Mode;

    /// Whether `source` has the shape this codec works on.
    spec fn accepts(source: &Self::Input) -> bool;

    /// `after` is what encoding `payload` into `before` under `mode` may give.
    spec fn encodes(
        mode: Self::Mode,
        before: &Self::Input,
        payload: Seq<u8>,
        after: &Self::Input,
    ) -> bool;

    /// `after` is the output buffer `before` once `len` bytes have been
    /// decoded from `source` under `mode`.
    spec fn decodes(
        mode: Self::Mode,
        source: &Self::Input,
        len: nat,
        before: Seq<u8>,
        after: Seq<u8>,
    ) -> bool;

    /// The capacity reported for `source` under `mode`, if there is one.
    spec fn estimates(mode: Self::Mode, source: &Self::Input) -> Option<usize>;

    /// Hides as many bytes of `payload` as fit in `source`, drawing from
    /// `rng` the directions of the parity adjustments.
    fn encode<R: RandomBit>(source: &mut Self::Input, payload: &[u8], mode: Self::Mode, rng: R)
        requires
            Self::accepts(old(source)),
        ensures
            Self::accepts(final(source)),
            Self::encodes(mode, old(source), payload@, final(source)),
    ;

    /// Recovers up to `len` bytes into the front of `buffer`.
    fn decode(source: &Self::Input, buffer: &mut [u8], len: usize, mode: Self::Mode)
        requires
            Self::accepts(source),
            len <= old(buffer)@.len(),
        ensures
            Self::decodes(mode, source, len as nat, old(buffer)@, final(buffer)@),
    ;

    /// How many payload bytes `source` is reported to hold under `mode`.
    fn estimate(source: &Self::Input, mode: Self::Mode) -> (r: Option<usize>)
        requires
            Self::accepts(source),
        ensures
            r == Self::estimates(mode, source),
    ;
}

} // verus!
