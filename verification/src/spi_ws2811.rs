//! WS2811 bit encoder and double-buffered transfer state machine.
//!
//! Each color bit becomes one SPI byte whose high-order bits shape the
//! "long high, short low" (logical 1) or "short high, long low" (logical 0)
//! pulse the LED chip expects at the fixed SPI clock rate. Channel order on
//! the wire is G, R, B — a constraint of the LED chip's datasheet, not a
//! choice. A frame is preceded by one LED worth of zero bytes (a clean low
//! period before the first bit) and followed by seven LEDs worth of zero
//! bytes (the chip's minimum latch time).
//!
//! The driver alternates between two states: idle, when the buffer belongs
//! to the CPU and may be rewritten, and in flight, when the transfer
//! hardware is reading it. While a transfer is in flight, [`Ws2811SpiDmaDriver::prepare`]
//! leaves the buffer untouched — the single most important invariant here.
//! The hardware itself lives outside this crate; its completion report is
//! fed back through [`Ws2811SpiDmaDriver::complete_transfer`].

use vstd::prelude::*;

use crate::gamma::Gamma;
use crate::types::RGB;

verus! {

/// SPI byte pattern of a logical 0 bit.
pub const WS2811_0BIT: u8 = 0xC0;

/// SPI byte pattern of a logical 1 bit.
pub const WS2811_1BIT: u8 = 0xFC;

/// The SPI byte for one color bit.
pub open spec fn bit_byte(set: bool) -> u8 {
    if set {
        WS2811_1BIT
    } else {
        WS2811_0BIT
    }
}

/// The eight SPI bytes of one channel byte, most significant bit first.
pub open spec fn channel_bits(b: u8) -> Seq<u8> {
    Seq::new(8, |i: int| bit_byte((b >> ((7 - i) as u8)) & 1 == 1))
}

/// The 24 SPI bytes of one LED, in the chip's G, R, B channel order.
pub open spec fn led_bytes(c: RGB) -> Seq<u8> {
    channel_bits(c.g) + channel_bits(c.r) + channel_bits(c.b)
}

/// The SPI bytes of a whole color sequence, 24 per LED.
pub open spec fn colors_encoding(s: Seq<RGB>) -> Seq<u8>
    decreases s.len(),
{
    if s.len() == 0 {
        Seq::empty()
    } else {
        led_bytes(s[0]) + colors_encoding(s.drop_first())
    }
}

/// Encoding a color sequence gives 24 bytes per LED.
pub proof fn lemma_colors_encoding_len(s: Seq<RGB>)
    ensures
        colors_encoding(s).len() == 24 * s.len(),
    decreases s.len(),
{
    if s.len() > 0 {
        lemma_colors_encoding_len(s.drop_first());
    }
}

/// The bytes of LED `i` sit at positions `24 * i` through `24 * i + 23`.
pub proof fn lemma_colors_encoding_index(s: Seq<RGB>, i: int)
    requires
        0 <= i < s.len(),
    ensures
        colors_encoding(s).len() == 24 * s.len(),
        forall|k: int| 0 <= k < 24 ==> colors_encoding(s)[24 * i + k] == led_bytes(s[i])[k],
    decreases i,
{
    lemma_colors_encoding_len(s);
    lemma_colors_encoding_len(s.drop_first());
    if i > 0 {
        lemma_colors_encoding_index(s.drop_first(), i - 1);
        assert forall|k: int| 0 <= k < 24 implies colors_encoding(s)[24 * i + k] == led_bytes(
            s[i],
        )[k] by {
            assert(led_bytes(s[0]).len() == 24);
            assert(colors_encoding(s)[24 * i + k] == colors_encoding(s.drop_first())[24 * i + k
                - 24]);
            assert(24 * i + k - 24 == 24 * (i - 1) + k);
            assert(colors_encoding(s.drop_first())[24 * (i - 1) + k] == led_bytes(
                s.drop_first()[i - 1],
            )[k]);
            assert(s.drop_first()[i - 1] == s[i]);
        }
    }
}

/// `s` with every color run through the gamma tables.
pub open spec fn gamma_mapped(gamma: Gamma, s: Seq<RGB>) -> Seq<RGB> {
    Seq::new(s.len(), |i: int| gamma.apply_spec(s[i]))
}

/// A sequence of `n` copies of one color.
pub open spec fn repeated(c: RGB, n: nat) -> Seq<RGB> {
    Seq::new(n, |i: int| c)
}

/// Encoding all-black LEDs produces only the 0-bit SPI pattern.
pub proof fn lemma_encode_black(n: nat)
    ensures
        colors_encoding(repeated(RGB { r: 0, g: 0, b: 0 }, n)).len() == 24 * n,
        forall|j: int|
            0 <= j < 24 * n ==> colors_encoding(repeated(RGB { r: 0, g: 0, b: 0 }, n))[j]
                == WS2811_0BIT,
{
    let s = repeated(RGB { r: 0, g: 0, b: 0 }, n);
    lemma_colors_encoding_len(s);
    assert forall|sh: u8| sh < 8 implies (0u8 >> sh) & 1 == 0 by {
        assert(sh < 8 ==> (0u8 >> sh) & 1 == 0) by (bit_vector);
    }
    assert forall|j: int| 0 <= j < 24 * n implies colors_encoding(s)[j] == WS2811_0BIT by {
        let i = j / 24;
        let k = j % 24;
        assert(j == 24 * i + k && 0 <= i < n && 0 <= k < 24);
        lemma_colors_encoding_index(s, i);
        assert(colors_encoding(s)[24 * i + k] == led_bytes(s[i])[k]);
    }
}

/// Encoding all-white LEDs (every channel 255) produces only the 1-bit SPI
/// pattern.
pub proof fn lemma_encode_white(n: nat)
    ensures
        colors_encoding(repeated(RGB { r: 255, g: 255, b: 255 }, n)).len() == 24 * n,
        forall|j: int|
            0 <= j < 24 * n ==> colors_encoding(repeated(RGB { r: 255, g: 255, b: 255 }, n))[j]
                == WS2811_1BIT,
{
    let s = repeated(RGB { r: 255, g: 255, b: 255 }, n);
    lemma_colors_encoding_len(s);
    assert forall|sh: u8| sh < 8 implies (255u8 >> sh) & 1 == 1 by {
        assert(sh < 8 ==> (255u8 >> sh) & 1 == 1) by (bit_vector);
    }
    assert forall|j: int| 0 <= j < 24 * n implies colors_encoding(s)[j] == WS2811_1BIT by {
        let i = j / 24;
        let k = j % 24;
        assert(j == 24 * i + k && 0 <= i < n && 0 <= k < 24);
        lemma_colors_encoding_index(s, i);
        assert(colors_encoding(s)[24 * i + k] == led_bytes(s[i])[k]);
    }
}

/// Write the eight SPI bytes of channel byte `b` at `at`.
fn write_channel(buffer: &mut Vec<u8>, at: usize, b: u8)
    requires
        at + 8 <= old(buffer)@.len(),
    ensures
        final(buffer)@.len() == old(buffer)@.len(),
        forall|j: int|
            0 <= j < old(buffer)@.len() && !(at <= j < at + 8) ==> final(buffer)@[j] == old(buffer)@[j],
        forall|k: int| 0 <= k < 8 ==> final(buffer)@[at + k] == channel_bits(b)[k],
{
    let n = buffer.len();
    let mut k: usize = 0;
    while k < 8
        invariant
            k <= 8,
            at + 8 <= n,
            n == buffer@.len(),
            buffer@.len() == old(buffer)@.len(),
            forall|j: int|
                0 <= j < buffer@.len() && !(at <= j < at + k) ==> buffer@[j] == old(buffer)@[j],
            forall|j: int| 0 <= j < k ==> buffer@[at + j] == channel_bits(b)[j],
        decreases 8 - k,
    {
        let bit_set = ((b >> ((7 - k) as u8)) & 1) == 1;
        buffer[at + k] = if bit_set {
            WS2811_1BIT
        } else {
            WS2811_0BIT
        };
        k += 1;
    }
}

/// Write the SPI encoding of `colors` at `base`, leaving all other bytes
/// alone.
fn encode_into(buffer: &mut Vec<u8>, base: usize, colors: &[RGB])
    requires
        base + 24 * colors@.len() <= old(buffer)@.len(),
    ensures
        final(buffer)@.len() == old(buffer)@.len(),
        forall|j: int|
            0 <= j < old(buffer)@.len() && !(base <= j < base + 24 * colors@.len()) ==> final(buffer)@[j] == old(buffer)@[j],
        forall|k: int|
            0 <= k < 24 * colors@.len() ==> final(buffer)@[base + k] == colors_encoding(
                colors@,
            )[k],
{
    proof {
        lemma_colors_encoding_len(colors@);
    }
    let n = buffer.len();
    let mut i: usize = 0;
    while i < colors.len()
        invariant
            i <= colors@.len(),
            base + 24 * colors@.len() <= n,
            n == buffer@.len(),
            buffer@.len() == old(buffer)@.len(),
            forall|j: int|
                0 <= j < buffer@.len() && !(base <= j < base + 24 * i) ==> buffer@[j] == old(buffer)@[j],
            forall|k: int|
                0 <= k < 24 * i ==> buffer@[base + k] == colors_encoding(colors@)[k],
        decreases colors@.len() - i,
    {
        let c = colors[i];
        write_channel(buffer, base + 24 * i, c.g);
        write_channel(buffer, base + 24 * i + 8, c.r);
        write_channel(buffer, base + 24 * i + 16, c.b);
        proof {
            lemma_colors_encoding_index(colors@, i as int);
            assert forall|k: int|
                0 <= k < 24 * (i + 1) implies buffer@[base + k] == colors_encoding(
                colors@,
            )[k] by {
                if k >= 24 * i {
                    let m = k - 24 * i;
                    assert(colors_encoding(colors@)[24 * i + m] == led_bytes(colors@[i as int])[m]);
                }
            }
        }
        i += 1;
    }
}

/// Expand colors into SPI bytes, filling `buffer` entirely.
pub fn convert_color_to_buffer(colors: &[RGB], buffer: &mut Vec<u8>)
    requires
        old(buffer)@.len() == 24 * colors@.len(),
    ensures
        final(buffer)@ == colors_encoding(colors@),
{
    encode_into(buffer, 0, colors);
    proof {
        lemma_colors_encoding_len(colors@);
        assert(final(buffer)@ =~= colors_encoding(colors@));
    }
}

/// Double-buffered WS2811 driver: an SPI byte buffer that alternates between
/// being writable by the CPU and being read by the transfer hardware.
pub struct Ws2811SpiDmaDriver {
    buffer: Vec<u8>,
    led_count: usize,
    in_flight: bool,
}

impl Ws2811SpiDmaDriver {
    /// Zero LEDs worth of preamble before the first real bit.
    pub const PREAMBLE_COUNT: usize = 1;

    /// Zero LEDs worth of latch time after the last real bit.
    pub const POST_COUNT: usize = 7;

    /// Three channels of eight bits, one SPI byte per bit.
    pub const BYTES_PER_LED: usize = 24;

    /// The buffer is sized for the LED count plus preamble and latch
    /// padding.
    pub closed spec fn wf(&self) -> bool {
        &&& (self.led_count + 8) * 24 <= usize::MAX
        &&& self.buffer@.len() == (self.led_count + 8) * 24
    }

    /// The SPI byte buffer.
    pub closed spec fn buffer_view(&self) -> Seq<u8> {
        self.buffer@
    }

    /// How many LEDs one frame drives.
    pub closed spec fn led_count_spec(&self) -> int {
        self.led_count as int
    }

    /// Whether the transfer hardware currently owns the buffer.
    pub closed spec fn is_in_flight(&self) -> bool {
        self.in_flight
    }

    /// The buffer size needed to drive `led_count` LEDs: the LEDs plus the
    /// preamble and latch padding, 24 bytes each. Callers size hardware
    /// buffers with this instead of hand-computed constants.
    pub fn calculate_buffer_size(led_count: usize) -> (r: usize)
        requires
            (led_count + 8) * 24 <= usize::MAX,
        ensures
            r == (led_count + 8) * 24,
    {
        (led_count + Self::PREAMBLE_COUNT + Self::POST_COUNT) * Self::BYTES_PER_LED
    }

    /// An idle driver for `led_count` LEDs with an all-zero buffer: until
    /// the first [`Ws2811SpiDmaDriver::prepare`], a transfer drives every
    /// LED black.
    pub fn new(led_count: usize) -> (r: Ws2811SpiDmaDriver)
        requires
            (led_count + 8) * 24 <= usize::MAX,
        ensures
            r.wf(),
            !r.is_in_flight(),
            r.led_count_spec() == led_count,
            r.buffer_view().len() == (led_count + 8) * 24,
            forall|j: int| 0 <= j < r.buffer_view().len() ==> r.buffer_view()[j] == 0u8,
    {
        let size = Self::calculate_buffer_size(led_count);
        let mut buffer: Vec<u8> = Vec::new();
        let mut i: usize = 0;
        while i < size
            invariant
                i <= size,
                buffer@.len() == i,
                forall|j: int| 0 <= j < i ==> buffer@[j] == 0u8,
            decreases size - i,
        {
            buffer.push(0);
            i += 1;
        }
        Ws2811SpiDmaDriver { buffer, led_count, in_flight: false }
    }

    /// The frame buffer as it stands, preamble and latch padding included.
    pub fn buffer(&self) -> (r: &Vec<u8>)
        ensures
            r@ == self.buffer_view(),
    {
        &self.buffer
    }

    /// True when the buffer belongs to the CPU and may be rewritten.
    pub fn is_ready(&self) -> (r: bool)
        ensures
            r == !self.is_in_flight(),
    {
        !self.in_flight
    }

    /// Hand the buffer to the transfer hardware. A driver already in flight
    /// stays as it is.
    pub fn update(&mut self)
        requires
            old(self).wf(),
        ensures
            final(self).wf(),
            final(self).is_in_flight(),
            final(self).buffer_view() == old(self).buffer_view(),
            final(self).led_count_spec() == old(self).led_count_spec(),
    {
        self.in_flight = true;
    }

    /// Record that the hardware reported the transfer done: the buffer
    /// belongs to the CPU again. The surrounding program calls this when it
    /// observes completion.
    pub fn complete_transfer(&mut self)
        requires
            old(self).wf(),
        ensures
            final(self).wf(),
            !final(self).is_in_flight(),
            final(self).buffer_view() == old(self).buffer_view(),
            final(self).led_count_spec() == old(self).led_count_spec(),
    {
        self.in_flight = false;
    }

    /// Encode `colors` into the frame buffer, after the preamble. While a
    /// transfer is in flight this is a no-op: the CPU never writes into a
    /// buffer the hardware is reading.
    pub fn prepare(&mut self, colors: &[RGB])
        requires
            old(self).wf(),
            colors@.len() <= old(self).led_count_spec(),
        ensures
            final(self).wf(),
            final(self).is_in_flight() == old(self).is_in_flight(),
            final(self).led_count_spec() == old(self).led_count_spec(),
            old(self).is_in_flight() ==> *final(self) == *old(self),
            !old(self).is_in_flight() ==> {
                &&& final(self).buffer_view().len() == old(self).buffer_view().len()
                &&& forall|k: int|
                    0 <= k < 24 * colors@.len() ==> final(self).buffer_view()[24 + k]
                        == colors_encoding(colors@)[k]
                &&& forall|j: int|
                    0 <= j < old(self).buffer_view().len() && !(24 <= j < 24 + 24 * colors@.len())
                        ==> final(self).buffer_view()[j] == old(self).buffer_view()[j]
            },
    {
        if self.in_flight {
            return ;
        }
        encode_into(&mut self.buffer, Self::BYTES_PER_LED * Self::PREAMBLE_COUNT, colors);
    }

    /// Like [`Ws2811SpiDmaDriver::prepare`], but runs every color through
    /// the gamma tables while encoding, so correction and bit expansion
    /// happen in one traversal.
    pub fn prepare_filter(&mut self, colors: &[RGB], gamma: &Gamma)
        requires
            old(self).wf(),
            gamma.wf(),
            colors@.len() <= old(self).led_count_spec(),
        ensures
            final(self).wf(),
            final(self).is_in_flight() == old(self).is_in_flight(),
            final(self).led_count_spec() == old(self).led_count_spec(),
            old(self).is_in_flight() ==> *final(self) == *old(self),
            !old(self).is_in_flight() ==> {
                &&& final(self).buffer_view().len() == old(self).buffer_view().len()
                &&& forall|k: int|
                    0 <= k < 24 * colors@.len() ==> final(self).buffer_view()[24 + k]
                        == colors_encoding(gamma_mapped(*gamma, colors@))[k]
                &&& forall|j: int|
                    0 <= j < old(self).buffer_view().len() && !(24 <= j < 24 + 24 * colors@.len())
                        ==> final(self).buffer_view()[j] == old(self).buffer_view()[j]
            },
    {
        if self.in_flight {
            return ;
        }
        let filtered_spec = Ghost(gamma_mapped(*gamma, colors@));
        proof {
            lemma_colors_encoding_len(filtered_spec@);
        }
        let mut i: usize = 0;
        while i < colors.len()
            invariant
                i <= colors@.len(),
                gamma.wf(),
                !self.in_flight,
                self.led_count == old(self).led_count,
                self.wf(),
                colors@.len() <= self.led_count,
                self.buffer@.len() == old(self).buffer@.len(),
                filtered_spec@ == gamma_mapped(*gamma, colors@),
                forall|k: int|
                    0 <= k < 24 * i ==> self.buffer@[24 + k] == colors_encoding(filtered_spec@)[k],
                forall|j: int|
                    0 <= j < self.buffer@.len() && !(24 <= j < 24 + 24 * i) ==> self.buffer@[j]
                        == old(self).buffer@[j],
            decreases colors@.len() - i,
        {
            let fc = gamma.apply_one(colors[i]);
            let base = Self::BYTES_PER_LED * (Self::PREAMBLE_COUNT + i);
            write_channel(&mut self.buffer, base, fc.g);
            write_channel(&mut self.buffer, base + 8, fc.r);
            write_channel(&mut self.buffer, base + 16, fc.b);
            proof {
                lemma_colors_encoding_index(filtered_spec@, i as int);
                assert forall|k: int|
                    0 <= k < 24 * (i + 1) implies self.buffer@[24 + k] == colors_encoding(
                    filtered_spec@,
                )[k] by {
                    if k >= 24 * i {
                        let m = k - 24 * i;
                        assert(colors_encoding(filtered_spec@)[24 * i + m] == led_bytes(
                            filtered_spec@[i as int],
                        )[m]);
                    }
                }
            }
            i += 1;
        }
    }
}

} // verus!
