//! The carrier: the red, green and blue samples of an image's pixels, whose
//! least significant bits hold the hidden stream.

use vstd::arithmetic::div_mod::{lemma_fundamental_div_mod, lemma_mod_bound};
use vstd::prelude::*;

verus! {

/// The least significant bit of a sample.
pub open spec fn lsb(sample: u8) -> bool {
    sample & 1u8 == 1u8
}

/// `sample` with its least significant bit replaced by `bit`.
pub open spec fn with_lsb(sample: u8, bit: bool) -> u8 {
    (sample & 0xFEu8) | (if bit {
        1u8
    } else {
        0u8
    })
}

/// Replacing the least significant bit stores the bit and keeps the other seven.
pub proof fn lemma_with_lsb(sample: u8, bit: bool)
    ensures
        lsb(with_lsb(sample, bit)) == bit,
        with_lsb(sample, bit) >> 1u8 == sample >> 1u8,
        lsb(sample) == bit ==> with_lsb(sample, bit) == sample,
{
    let b: u8 = if bit {
        1u8
    } else {
        0u8
    };
    assert((((sample & 0xFEu8) | b) & 1u8 == 1u8) == (b == 1u8) && ((sample & 0xFEu8) | b) >> 1u8
        == sample >> 1u8 && ((sample & 1u8 == 1u8) == (b == 1u8) ==> ((sample & 0xFEu8) | b)
        == sample)) by (bit_vector)
        requires
            b == 0u8 || b == 1u8,
    ;
}

/// What a carrier is to the embedding: its size in pixels and, in raster order
/// (row by row from the top, each row from the left), the red, green and blue
/// sample of every pixel. Other channels of the image take no part.
pub struct Carrier {
    pub width: nat,
    pub height: nat,
    pub samples: Seq<u8>,
}

impl Carrier {
    /// Every pixel has its three samples.
    pub open spec fn wf(self) -> bool {
        self.samples.len() == 3 * (self.width * self.height)
    }

    /// The number of bits the carrier can hold: one per sample, which is
    /// three per pixel.
    pub open spec fn capacity(self) -> nat {
        self.samples.len()
    }

    /// Where, among the samples, channel `channel` of the pixel in column `x`
    /// of row `y` stands: rows follow each other from the top, the pixels of
    /// a row from the left, the three channels of a pixel in their order.
    pub open spec fn sample_index(self, x: int, y: int, channel: int) -> int {
        3 * (y * self.width + x) + channel
    }

    /// The stream the carrier holds: the least significant bit of each sample.
    pub open spec fn lsb_stream(self) -> Seq<bool> {
        Seq::new(self.samples.len(), |i: int| lsb(self.samples[i]))
    }

    /// The carrier after `bits` were written over the least significant bits of
    /// its first samples; samples behind the last bit stay as they are.
    pub open spec fn with_bits(self, bits: Seq<bool>) -> Carrier {
        Carrier {
            samples: Seq::new(
                self.samples.len(),
                |i: int|
                    if i < bits.len() {
                        with_lsb(self.samples[i], bits[i])
                    } else {
                        self.samples[i]
                    },
            ),
            ..self
        }
    }
}

/// Writing a stream that fits and reading the carrier's stream gives the
/// written bits, followed by what the carrier held behind them.
pub proof fn lemma_stream_after_write(carrier: Carrier, bits: Seq<bool>)
    requires
        bits.len() <= carrier.capacity(),
    ensures
        carrier.with_bits(bits).lsb_stream() == bits + carrier.lsb_stream().skip(
            bits.len() as int,
        ),
        carrier.with_bits(bits).wf() == carrier.wf(),
        carrier.with_bits(bits).capacity() == carrier.capacity(),
{
    let written = carrier.with_bits(bits);
    assert forall|i: int| 0 <= i < bits.len() implies written.lsb_stream()[i] == bits[i] by {
        lemma_with_lsb(carrier.samples[i], bits[i]);
    }
    assert(written.lsb_stream() =~= bits + carrier.lsb_stream().skip(bits.len() as int));
}

/// Every channel of every pixel has its place among the samples.
pub proof fn lemma_sample_index_in_range(carrier: Carrier, x: int, y: int, channel: int)
    requires
        carrier.wf(),
        0 <= x < carrier.width,
        0 <= y < carrier.height,
        0 <= channel < 3,
    ensures
        0 <= carrier.sample_index(x, y, channel) < carrier.samples.len(),
{
    let w = carrier.width as int;
    let h = carrier.height as int;
    assert(0 <= y * w && y * w + x < w * h) by (nonlinear_arith)
        requires
            0 <= x < w,
            0 <= y < h,
    ;
}

/// The stream runs over the pixels in raster order: bit `i` stands in channel
/// `i % 3` of pixel `i / 3`, which is the pixel in column `(i / 3) % width` of
/// row `(i / 3) / width`.
pub proof fn lemma_stream_in_raster_order(carrier: Carrier, i: int)
    requires
        carrier.wf(),
        0 <= i < carrier.capacity(),
    ensures
        carrier.width > 0,
        0 <= (i / 3) % (carrier.width as int) < carrier.width,
        0 <= (i / 3) / (carrier.width as int) < carrier.height,
        carrier.sample_index((i / 3) % (carrier.width as int), (i / 3) / (carrier.width as int), i % 3)
            == i,
{
    let w = carrier.width as int;
    let h = carrier.height as int;
    let p = i / 3;
    assert(w > 0) by (nonlinear_arith)
        requires
            0 <= p < w * h,
            0 <= w,
            0 <= h,
    ;
    lemma_fundamental_div_mod(p, w);
    lemma_mod_bound(p, w);
    let row = p / w;
    assert(0 <= row < h) by (nonlinear_arith)
        requires
            0 <= p < w * h,
            p == w * row + p % w,
            0 <= p % w < w,
            0 < w,
    ;
    assert(w * row == row * w) by (nonlinear_arith);
}

/// The samples of an image's pixels, held in memory for embedding and
/// extracting.
pub struct CarrierImage {
    width: u32,
    height: u32,
    samples: Vec<u8>,
}

impl View for CarrierImage {
    type V = Carrier;

    closed spec fn view(&self) -> Carrier {
        Carrier {
            width: self.width as nat,
            height: self.height as nat,
            samples: self.samples@,
        }
    }
}

impl CarrierImage {
    /// Every pixel has its three samples.
    pub open spec fn wf(&self) -> bool {
        self@.wf()
    }

    /// A carrier of `width` by `height` pixels from their samples in raster
    /// order, three per pixel; `None` if `samples` has another length.
    pub fn new(width: u32, height: u32, samples: Vec<u8>) -> (carrier: Option<CarrierImage>)
        ensures
            samples@.len() == 3 * (width as nat * height as nat) <==> carrier is Some,
            carrier matches Some(c) ==> c.wf() && c@ == (Carrier {
                width: width as nat,
                height: height as nat,
                samples: samples@,
            }),
    {
        assert(width * height <= 0xFFFF_FFFF * 0xFFFF_FFFF) by (nonlinear_arith)
            requires
                width <= 0xFFFF_FFFF,
                height <= 0xFFFF_FFFF,
        ;
        let pixels: u64 = (width as u64) * (height as u64);
        let needed: u128 = 3 * (pixels as u128);
        if samples.len() as u128 == needed {
            Some(CarrierImage { width, height, samples })
        } else {
            None
        }
    }

    /// The width in pixels.
    pub fn width(&self) -> (w: u32)
        ensures
            w == self@.width,
    {
        self.width
    }

    /// The height in pixels.
    pub fn height(&self) -> (h: u32)
        ensures
            h == self@.height,
    {
        self.height
    }

    /// The number of bits the carrier can hold.
    pub fn capacity(&self) -> (n: usize)
        ensures
            n == self@.capacity(),
    {
        self.samples.len()
    }

    /// The samples in raster order, three per pixel.
    pub fn samples(&self) -> (samples: &[u8])
        ensures
            samples@ == self@.samples,
    {
        self.samples.as_slice()
    }

    /// Gives the samples back, in raster order, three per pixel.
    pub fn into_samples(self) -> (samples: Vec<u8>)
        ensures
            samples@ == self@.samples,
    {
        self.samples
    }

    /// The red, green and blue sample of the pixel in column `x` of row `y`.
    pub fn pixel(&self, x: u32, y: u32) -> (rgb: [u8; 3])
        requires
            self.wf(),
            x < self@.width,
            y < self@.height,
        ensures
            forall|channel: int|
                0 <= channel < 3 ==> rgb@[channel] == self@.samples[self@.sample_index(
                    x as int,
                    y as int,
                    channel,
                )],
    {
        let len = self.samples.len();
        proof {
            lemma_sample_index_in_range(self@, x as int, y as int, 2);
            assert(self@.sample_index(x as int, y as int, 2) == 3 * ((y as int) * (self.width as int)
                + x) + 2);
            assert(0 <= (y as int) * (self.width as int)) by (nonlinear_arith);
            assert(3 * ((y as int) * (self.width as int) + x) + 2 < len);
        }
        let row: usize = (y as usize) * (self.width as usize);
        let at: usize = 3 * (row + x as usize);
        [self.samples[at], self.samples[at + 1], self.samples[at + 2]]
    }

    /// Bit `i` of the stream the carrier holds.
    pub fn lsb(&self, i: usize) -> (bit: bool)
        requires
            i < self@.capacity(),
        ensures
            bit == self@.lsb_stream()[i as int],
    {
        self.samples[i] & 1 == 1
    }

    /// Stores `bit` as bit `i` of the stream the carrier holds.
    pub fn set_lsb(&mut self, i: usize, bit: bool)
        requires
            i < old(self)@.capacity(),
        ensures
            final(self)@ == (Carrier {
                samples: old(self)@.samples.update(
                    i as int,
                    with_lsb(old(self)@.samples[i as int], bit),
                ),
                ..old(self)@
            }),
            final(self).wf() == old(self).wf(),
    {
        let low: u8 = if bit {
            1
        } else {
            0
        };
        let sample: u8 = (self.samples[i] & 0xFE) | low;
        self.samples.set(i, sample);
    }
}

} // verus!
