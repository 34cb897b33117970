use crate::bits::{bit, get_bit, set_bit};
use crate::layout::{
    capacity, carries, decoded, encoded, group_bytes, group_pixels, lemma_capacity_fits, lemma_slot, slot, slot_count, slot_index, written,
    Spread,
};
use crate::parity::{fix_u8, is_odd, parity_fixed, RandomBit};
use vstd::arithmetic::div_mod::lemma_fundamental_div_mod_converse;
use vstd::prelude::*;

verus! {

/// A row-major grid of pixels with a fixed number of 8-bit channels per
/// pixel, held as one flat sequence of channel values.
pub struct PixelBuffer {
    width: u32,
    height: u32,
    channels: usize,
    data: Vec<u8>,
}

impl View for PixelBuffer {
    type V = Seq<u8>;

    /// The channel values, pixel after pixel.
    closed spec fn view(&self) -> Seq<u8> {
        self.data@
    }
}

impl PixelBuffer {
    pub closed spec fn spec_width(&self) -> nat {
        self.width as nat
    }

    pub closed spec fn spec_height(&self) -> nat {
        self.height as nat
    }

    pub closed spec fn spec_channels(&self) -> nat {
        self.channels as nat
    }

    /// The number of pixels.
    pub open spec fn pixels(&self) -> nat {
        self.spec_width() * self.spec_height()
    }

    /// At least one channel per pixel, and exactly one value per channel of
    /// every pixel.
    pub open spec fn wf(&self) -> bool {
        &&& self.spec_channels() >= 1
        &&& self@.len() == self.pixels() * self.spec_channels()
    }

    /// `other` has the same dimensions and channel count.
    pub open spec fn same_shape(&self, other: &PixelBuffer) -> bool {
        &&& self.spec_width() == other.spec_width()
        &&& self.spec_height() == other.spec_height()
        &&& self.spec_channels() == other.spec_channels()
    }

    /// Wraps `data` as a `width` by `height` grid of `channels`-channel pixels;
    /// `None` when there are no channels or the length does not match.
    pub fn from_raw(width: u32, height: u32, channels: usize, data: Vec<u8>) -> (r: Option<
        PixelBuffer,
    >)
        ensures
            r is Some <==> channels >= 1 && data@.len() == width * height * channels,
            r matches Some(p) ==> {
                &&& p.wf()
                &&& p@ == data@
                &&& p.spec_width() == width
                &&& p.spec_height() == height
                &&& p.spec_channels() == channels
            },
    {
        if channels == 0 {
            return None;
        }
        let len = data.len();
        let wh = (width as usize).checked_mul(height as usize);
        match wh {
            None => {
                proof {
                    assert(width * height * channels >= width * height) by (nonlinear_arith)
                        requires
                            channels >= 1,
                    ;
                }
                None
            },
            Some(wh) => match wh.checked_mul(channels) {
                None => None,
                Some(total) => {
                    if total == len {
                        Some(PixelBuffer { width, height, channels, data })
                    } else {
                        None
                    }
                },
            },
        }
    }

    /// A `width` by `height` grid in which every pixel holds the channel
    /// values of `pixel`.
    pub fn from_pixel(width: u32, height: u32, pixel: &[u8]) -> (r: PixelBuffer)
        requires
            pixel@.len() >= 1,
            width * height * pixel@.len() <= usize::MAX,
        ensures
            r.wf(),
            r.spec_width() == width,
            r.spec_height() == height,
            r.spec_channels() == pixel@.len(),
            forall|k: int|
                0 <= k < r@.len() ==> #[trigger] r@[k] == pixel@[k % (pixel@.len() as int)],
    {
        let channels = pixel.len();
        proof {
            assert(width * height <= width * height * channels) by (nonlinear_arith)
                requires
                    channels >= 1,
            ;
        }
        let count: usize = (width as usize) * (height as usize);
        let mut data: Vec<u8> = Vec::new();
        let mut p: usize = 0;
        while p < count
            invariant
                count == width * height,
                count * channels <= usize::MAX,
                channels == pixel@.len(),
                channels >= 1,
                p <= count,
                data@.len() == p * channels,
                forall|k: int|
                    0 <= k < data@.len() ==> #[trigger] data@[k] == pixel@[k % (channels as int)],
            decreases count - p,
        {
            proof {
                assert((p + 1) * channels <= count * channels) by (nonlinear_arith)
                    requires
                        p < count,
                ;
                assert((p + 1) * channels == p * channels + channels) by (nonlinear_arith);
            }
            let mut c: usize = 0;
            while c < channels
                invariant
                    channels == pixel@.len(),
                    channels >= 1,
                    c <= channels,
                    (p + 1) * channels <= usize::MAX,
                    data@.len() == p * channels + c,
                    forall|k: int|
                        0 <= k < data@.len() ==> #[trigger] data@[k] == pixel@[k % (
                        channels as int)],
                decreases channels - c,
            {
                proof {
                    lemma_fundamental_div_mod_converse(
                        (p * channels + c) as int,
                        channels as int,
                        p as int,
                        c as int,
                    );
                }
                data.push(pixel[c]);
                c += 1;
            }
            p += 1;
        }
        PixelBuffer { width, height, channels, data }
    }

    pub fn width(&self) -> (r: u32)
        ensures
            r == self.spec_width(),
    {
        self.width
    }

    pub fn height(&self) -> (r: u32)
        ensures
            r == self.spec_height(),
    {
        self.height
    }

    pub fn channels(&self) -> (r: usize)
        ensures
            r == self.spec_channels(),
    {
        self.channels
    }

    /// The channel values, pixel after pixel.
    pub fn as_raw(&self) -> (r: &[u8])
        ensures
            r@ == self@,
    {
        self.data.as_slice()
    }

    /// Gives up the grid, keeping its channel values.
    pub fn into_raw(self) -> (r: Vec<u8>)
        ensures
            r@ == self@,
    {
        self.data
    }

    /// The number of pixels, `width * height`.
    pub fn pixel_count(&self) -> (r: usize)
        requires
            self.wf(),
        ensures
            r == self.pixels(),
    {
        proof {
            lemma_fundamental_div_mod_converse(
                self@.len() as int,
                self.channels as int,
                self.pixels() as int,
                0,
            );
        }
        self.data.len() / self.channels
    }

    /// How many whole payload bytes `spread` can place in this buffer.
    pub fn capacity(&self, spread: Spread) -> (r: usize)
        requires
            self.wf(),
        ensures
            r == capacity(spread, self.spec_channels(), self.pixels()),
    {
        let pixels = self.pixel_count();
        let channels = self.channels;
        let total = self.data.len();
        let (g, y): (usize, usize) = match spread {
            Spread::LastChannel => (8, 1),
            Spread::AllChannels => {
                if channels % 8 == 0 {
                    (1, channels / 8)
                } else if channels % 4 == 0 {
                    (2, channels / 4)
                } else if channels % 2 == 0 {
                    (4, channels / 2)
                } else {
                    (8, channels)
                }
            },
        };
        proof {
            let ch = self.spec_channels();
            let pix = self.pixels();
            lemma_capacity_fits(spread, ch, pix);
            assert(g == group_pixels(spread, ch));
            assert(y == group_bytes(spread, ch));
            assert(pix <= pix * ch) by (nonlinear_arith)
                requires
                    ch >= 1,
            ;
            assert(slot_count(spread, ch, pix) <= total);
        }
        (pixels / g) * y
    }

    /// Writes the bits of `payload` into the slots that `spread` picks, one
    /// byte per eight slots, and stops silently once the whole pixel groups
    /// are used up. Coins are drawn from `rng` in slot order.
    pub fn encode_bits<R: RandomBit>(&mut self, spread: Spread, payload: &[u8], rng: &mut R)
        requires
            old(self).wf(),
        ensures
            final(self).wf(),
            final(self).same_shape(old(self)),
            encoded(
                spread,
                old(self).spec_channels(),
                old(self).pixels(),
                old(self)@,
                payload@,
                final(self)@,
            ),
    {
        let ghost before = self.data@;
        let ghost ch = self.channels as nat;
        let ghost pix = self.pixels();
        let channels = self.channels;
        let pixels = self.pixel_count();
        let cap = self.capacity(spread);
        let n = if payload.len() < cap {
            payload.len()
        } else {
            cap
        };
        assert(n == written(spread, ch, pix, payload@.len()));
        proof {
            lemma_capacity_fits(spread, ch, pix);
        }
        assert(8 * n <= slot_count(spread, ch, pix));
        assert(pixels * channels == before.len());
        let total = self.data.len();
        assert(pixels * channels == total);
        let mut b: usize = 0;
        while b < n
            invariant
                self.wf(),
                self.width == old(self).width,
                self.height == old(self).height,
                self.channels == channels,
                channels == ch,
                ch >= 1,
                pixels == pix,
                pixels * channels == before.len(),
                pixels * channels <= usize::MAX,
                before == old(self)@,
                n == written(spread, ch, pix, payload@.len()),
                8 * n <= slot_count(spread, ch, pix),
                n <= payload@.len(),
                b <= n,
                self.data@.len() == before.len(),
                forall|b2: int, i2: int|
                    0 <= b2 < b && 0 <= i2 < 8 ==> parity_fixed(
                        before[#[trigger] slot(spread, ch, b2, i2)],
                        bit(payload@[b2], i2 as u8),
                        self.data@[slot(spread, ch, b2, i2)],
                    ),
                forall|k: int|
                    0 <= k < before.len() && !carries(spread, ch, k, 8 * b) ==> #[trigger] self.data@[k]
                        == before[k],
            decreases n - b,
        {
            let byte = payload[b];
            let mut i: u8 = 0;
            while i < 8
                invariant
                    self.wf(),
                    self.width == old(self).width,
                    self.height == old(self).height,
                    self.channels == channels,
                    channels == ch,
                    ch >= 1,
                    pixels == pix,
                    pixels * channels == before.len(),
                    pixels * channels <= usize::MAX,
                    before == old(self)@,
                    8 * n <= slot_count(spread, ch, pix),
                    n <= payload@.len(),
                    b < n,
                    i <= 8,
                    byte == payload@[b as int],
                    self.data@.len() == before.len(),
                    forall|b2: int, i2: int|
                        0 <= b2 && 0 <= i2 < 8 && 8 * b2 + i2 < 8 * b + i ==> parity_fixed(
                            before[#[trigger] slot(spread, ch, b2, i2)],
                            bit(payload@[b2], i2 as u8),
                            self.data@[slot(spread, ch, b2, i2)],
                        ),
                    forall|k: int|
                        0 <= k < before.len() && !carries(spread, ch, k, 8 * b + i)
                            ==> #[trigger] self.data@[k] == before[k],
                decreases 8 - i,
            {
                proof {
                    lemma_slot(spread, ch, pix, b as int, i as int);
                }
                let k = slot_index(spread, channels, pixels, b, i);
                let ghost mid = self.data@;
                let mut v = self.data[k];
                fix_u8(&mut v, get_bit(byte, i), rng);
                self.data.set(k, v);
                proof {
                    assert forall|b2: int, i2: int|
                        0 <= b2 && 0 <= i2 < 8 && 8 * b2 + i2 < 8 * b + i + 1 implies parity_fixed(
                        before[#[trigger] slot(spread, ch, b2, i2)],
                        bit(payload@[b2], i2 as u8),
                        self.data@[slot(spread, ch, b2, i2)],
                    ) by {
                        lemma_slot(spread, ch, pix, b2, i2);
                        if 8 * b2 + i2 < 8 * b + i {
                            assert(slot(spread, ch, b2, i2) != k);
                        } else {
                            assert(b2 == b && i2 == i);
                        }
                    }
                }
                i += 1;
            }
            b += 1;
        }
    }

    /// Reads `len` bytes, or as many as fit, into the front of `out`, each
    /// byte made of the parities of its eight slots; the rest of `out` is left
    /// as it was.
    pub fn decode_bits(&self, spread: Spread, out: &mut [u8], len: usize)
        requires
            self.wf(),
            len <= old(out)@.len(),
        ensures
            decoded(spread, self.spec_channels(), self.pixels(), self@, len as nat, old(out)@, final(out)@),
    {
        let ghost ch = self.channels as nat;
        let ghost pix = self.pixels();
        let channels = self.channels;
        let pixels = self.pixel_count();
        let cap = self.capacity(spread);
        let m = if len < cap {
            len
        } else {
            cap
        };
        proof {
            lemma_capacity_fits(spread, ch, pix);
        }
        assert(8 * m <= slot_count(spread, ch, pix));
        let total = self.data.len();
        assert(pixels * channels == total);
        let mut b: usize = 0;
        while b < m
            invariant
                self.wf(),
                channels == ch,
                self.channels == channels,
                ch >= 1,
                pixels == pix,
                pixels * channels == self@.len(),
                pixels * channels <= usize::MAX,
                m <= len,
                len <= old(out)@.len(),
                8 * m <= slot_count(spread, ch, pix),
                b <= m,
                out@.len() == old(out)@.len(),
                forall|b2: int, i2: int|
                    0 <= b2 < b && 0 <= i2 < 8 ==> bit(out@[b2], i2 as u8) == is_odd(
                        self@[#[trigger] slot(spread, ch, b2, i2)],
                    ),
                forall|b2: int| b <= b2 < out@.len() ==> #[trigger] out@[b2] == old(out)@[b2],
            decreases m - b,
        {
            let mut byte: u8 = 0;
            let mut i: u8 = 0;
            while i < 8
                invariant
                    self.wf(),
                    channels == ch,
                    self.channels == channels,
                    ch >= 1,
                    pixels == pix,
                    pixels * channels == self@.len(),
                    pixels * channels <= usize::MAX,
                    8 * m <= slot_count(spread, ch, pix),
                    b < m,
                    i <= 8,
                    forall|i2: int|
                        0 <= i2 < i ==> bit(byte, i2 as u8) == is_odd(
                            self@[#[trigger] slot(spread, ch, b as int, i2)],
                        ),
                decreases 8 - i,
            {
                proof {
                    lemma_slot(spread, ch, pix, b as int, i as int);
                }
                let k = slot_index(spread, channels, pixels, b, i);
                let ghost prev = byte;
                byte = set_bit(byte, i, self.data[k] % 2 == 1);
                proof {
                    assert forall|i2: int| 0 <= i2 < i + 1 implies bit(byte, i2 as u8) == is_odd(
                        self@[#[trigger] slot(spread, ch, b as int, i2)],
                    ) by {
                        if i2 < i {
                            assert(bit(byte, i2 as u8) == bit(prev, i2 as u8));
                        }
                    }
                }
                i += 1;
            }
            out[b] = byte;
            b += 1;
        }
    }
}

} // verus!
