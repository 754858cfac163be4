//! The fixed 64-byte wire protocol between the host and the LED controller.
//!
//! Every message is exactly one USB full-speed packet: a discriminant byte,
//! three padding bytes, and a 60-byte payload interpreted per discriminant.
//! All numeric fields are little-endian; the format is sent verbatim over the
//! wire, so the layout here is a compatibility contract with the device.

use vstd::prelude::*;

pub use crate::types::RGB;

verus! {

/// The number of LED colors carried by a single Color message.
pub const LEDS_PER_MESSAGE: usize = 19;

/// Message discriminant values as they appear in the first wire byte.
pub struct MsgType {}

impl MsgType {
    /// Discriminant of a message without content.
    pub const NOP: u8 = 0;

    /// Discriminant of a configuration update.
    pub const CONFIG: u8 = 1;

    /// Discriminant of a color-data chunk.
    pub const COLOR: u8 = 2;
}

/// Decay and gamma configuration of the controller.
///
/// The gamma exponents travel on the wire as 32-bit IEEE-754 values; this
/// crate stores and compares them by their bit patterns, which keeps the
/// round trip over the wire exact.
#[derive(Clone, Copy, Debug, PartialEq, Eq, Structural)]
pub struct Config {
    /// After activity, decay is held off for this many milliseconds.
    pub decay_time_delay_ms: u32,
    /// Once decaying, a decay step runs every this many microseconds.
    pub decay_interval_us: u32,
    /// How much every channel is reduced per decay step.
    pub decay_amount: u32,
    /// Bit pattern of the red channel's gamma exponent.
    pub gamma_r: u32,
    /// Bit pattern of the green channel's gamma exponent.
    pub gamma_g: u32,
    /// Bit pattern of the blue channel's gamma exponent.
    pub gamma_b: u32,
}

/// Bit pattern of the 32-bit float 1.0, the default red gamma exponent.
pub const GAMMA_BITS_1_0: u32 = 0x3F80_0000;

/// Bit pattern of the 32-bit float 1.3, the default green gamma exponent.
pub const GAMMA_BITS_1_3: u32 = 0x3FA6_6666;

/// Bit pattern of the 32-bit float 1.6, the default blue gamma exponent.
pub const GAMMA_BITS_1_6: u32 = 0x3FCC_CCCD;

impl Default for Config {
    /// Decay after one second of inactivity, fading every millisecond by one,
    /// with per-channel gamma 1.0 / 1.3 / 1.6.
    fn default() -> (r: Config)
        ensures
            r == Config::default_spec(),
    {
        Config {
            decay_time_delay_ms: 1000,
            decay_interval_us: 1000,
            decay_amount: 1,
            gamma_r: GAMMA_BITS_1_0,
            gamma_g: GAMMA_BITS_1_3,
            gamma_b: GAMMA_BITS_1_6,
        }
    }
}

impl Config {
    /// The configuration the controller starts with.
    pub open spec fn default_spec() -> Config {
        Config {
            decay_time_delay_ms: 1000,
            decay_interval_us: 1000,
            decay_amount: 1,
            gamma_r: GAMMA_BITS_1_0,
            gamma_g: GAMMA_BITS_1_3,
            gamma_b: GAMMA_BITS_1_6,
        }
    }
}

/// One chunk of LED colors: the index of the first LED it addresses, a
/// settings bitfield and [`LEDS_PER_MESSAGE`] colors.
#[derive(Clone, Debug)]
pub struct ColorData {
    /// Index of the first LED this chunk updates.
    pub offset: u16,
    /// Bitfield of [`ColorData::SETTINGS_SHOW_AFTER`] and
    /// [`ColorData::SETTINGS_SET_ALL`].
    pub settings: u8,
    /// The colors; always [`LEDS_PER_MESSAGE`] entries.
    pub color: Vec<RGB>,
}

/// Mathematical model of a [`ColorData`] value.
#[verifier::ext_equal]
pub struct ColorDataView {
    /// Index of the first LED this chunk updates.
    pub offset: u16,
    /// Settings bitfield.
    pub settings: u8,
    /// The colors.
    pub color: Seq<RGB>,
}

impl View for ColorData {
    type V = ColorDataView;

    open spec fn view(&self) -> ColorDataView {
        ColorDataView { offset: self.offset, settings: self.settings, color: self.color@ }
    }
}

impl ColorData {
    /// If set, the strip is redrawn after this message is processed.
    pub const SETTINGS_SHOW_AFTER: u8 = 1;

    /// If set, every LED is set to the first color of this message.
    pub const SETTINGS_SET_ALL: u8 = 2;

    /// The number of LED colors carried by a single message.
    pub const LEDS_PER_MESSAGE: usize = 19;

    /// A chunk always carries exactly [`LEDS_PER_MESSAGE`] colors.
    pub open spec fn wf(&self) -> bool {
        self.color@.len() == 19
    }

    /// A chunk addressing `offset`, with all colors black and no settings.
    pub fn new(offset: u16, settings: u8) -> (r: ColorData)
        ensures
            r.wf(),
            r@.offset == offset,
            r@.settings == settings,
            forall|i: int| 0 <= i < 19 ==> r.color@[i] == RGB::black_spec(),
    {
        let mut color: Vec<RGB> = Vec::new();
        let mut i: usize = 0;
        while i < 19
            invariant
                i <= 19,
                color@.len() == i,
                forall|j: int| 0 <= j < i ==> color@[j] == RGB::black_spec(),
            decreases 19 - i,
        {
            color.push(RGB { r: 0, g: 0, b: 0 });
            i += 1;
        }
        ColorData { offset, settings, color }
    }
}

impl PartialEq for ColorData {
    /// Two chunks are equal when all fields are.
    fn eq(&self, other: &ColorData) -> (r: bool) {
        if self.offset != other.offset || self.settings != other.settings {
            return false;
        }
        if self.color.len() != other.color.len() {
            return false;
        }
        let mut i: usize = 0;
        while i < self.color.len()
            invariant
                i <= self.color@.len(),
                self.color@.len() == other.color@.len(),
                self.offset == other.offset,
                self.settings == other.settings,
                forall|j: int| 0 <= j < i ==> self.color@[j] == other.color@[j],
            decreases self.color@.len() - i,
        {
            if self.color[i] != other.color[i] {
                assert(self.color@[i as int] != other.color@[i as int]);
                return false;
            }
            i += 1;
        }
        proof {
            assert(self.color@ =~= other.color@);
        }
        true
    }
}

impl vstd::std_specs::cmp::PartialEqSpecImpl for ColorData {
    open spec fn obeys_eq_spec() -> bool {
        true
    }

    open spec fn eq_spec(&self, other: &ColorData) -> bool {
        self.offset == other.offset && self.settings == other.settings
            && self.color@ == other.color@
    }
}

/// A decoded wire message.
#[derive(Clone, Debug)]
pub enum Message {
    /// No content; useful as a keep-alive.
    Nop,
    /// Replace the controller configuration.
    Config(Config),
    /// Update a chunk of LED colors.
    Color(ColorData),
}

/// Mathematical model of a [`Message`].
#[verifier::ext_equal]
pub enum MessageView {
    /// No content.
    Nop,
    /// Replace the controller configuration.
    Config(Config),
    /// Update a chunk of LED colors.
    Color(ColorDataView),
}

impl View for Message {
    type V = MessageView;

    open spec fn view(&self) -> MessageView {
        match self {
            Message::Nop => MessageView::Nop,
            Message::Config(c) => MessageView::Config(*c),
            Message::Color(cd) => MessageView::Color(cd@),
        }
    }
}

impl MessageView {
    /// A Color message always carries exactly [`LEDS_PER_MESSAGE`] colors.
    pub open spec fn wf(&self) -> bool {
        match self {
            MessageView::Color(cd) => cd.color.len() == 19,
            _ => true,
        }
    }
}

impl PartialEq for Message {
    /// Two messages are equal when the variants and their payloads are.
    fn eq(&self, other: &Message) -> (r: bool) {
        match (self, other) {
            (Message::Nop, Message::Nop) => true,
            (Message::Config(a), Message::Config(b)) => a == b,
            (Message::Color(a), Message::Color(b)) => a == b,
            _ => false,
        }
    }
}

impl vstd::std_specs::cmp::PartialEqSpecImpl for Message {
    open spec fn obeys_eq_spec() -> bool {
        true
    }

    open spec fn eq_spec(&self, other: &Message) -> bool {
        match (self, other) {
            (Message::Nop, Message::Nop) => true,
            (Message::Config(a), Message::Config(b)) => a == b,
            (Message::Color(a), Message::Color(b)) => a@ == b@,
            _ => false,
        }
    }
}

/// The two bytes of `v` in little-endian order.
pub open spec fn u16_le(v: u16) -> Seq<u8> {
    seq![(v & 0xff) as u8, ((v >> 8) & 0xff) as u8]
}

/// The four bytes of `v` in little-endian order.
pub open spec fn u32_le(v: u32) -> Seq<u8> {
    seq![
        (v & 0xff) as u8,
        ((v >> 8) & 0xff) as u8,
        ((v >> 16) & 0xff) as u8,
        ((v >> 24) & 0xff) as u8,
    ]
}

/// The value whose little-endian bytes are `b0`, `b1`.
pub open spec fn u16_from_le(b0: u8, b1: u8) -> u16 {
    (b0 as u16) | ((b1 as u16) << 8)
}

/// The value whose little-endian bytes are `b0` through `b3`.
pub open spec fn u32_from_le(b0: u8, b1: u8, b2: u8, b3: u8) -> u32 {
    (b0 as u32) | ((b1 as u32) << 8) | ((b2 as u32) << 16) | ((b3 as u32) << 24)
}

/// Reading back the little-endian bytes of a 16-bit value gives the value.
pub proof fn lemma_u16_le_roundtrip(v: u16)
    ensures
        u16_from_le(u16_le(v)[0], u16_le(v)[1]) == v,
{
    assert((((v & 0xff) as u8) as u16) | (((((v >> 8) & 0xff) as u8) as u16) << 8) == v)
        by (bit_vector);
}

/// Reading back the little-endian bytes of a 32-bit value gives the value.
pub proof fn lemma_u32_le_roundtrip(v: u32)
    ensures
        u32_from_le(u32_le(v)[0], u32_le(v)[1], u32_le(v)[2], u32_le(v)[3]) == v,
{
    assert((((v & 0xff) as u8) as u32) | (((((v >> 8) & 0xff) as u8) as u32) << 8) | (((((v
        >> 16) & 0xff) as u8) as u32) << 16) | (((((v >> 24) & 0xff) as u8) as u32) << 24) == v)
        by (bit_vector);
}

/// `n` zero bytes.
pub open spec fn zeros(n: nat) -> Seq<u8> {
    Seq::new(n, |i: int| 0u8)
}

/// The colors of `s` flattened to bytes, three per color, in r, g, b order.
pub open spec fn colors_bytes(s: Seq<RGB>) -> Seq<u8>
    decreases s.len(),
{
    if s.len() == 0 {
        Seq::empty()
    } else {
        seq![s[0].r, s[0].g, s[0].b] + colors_bytes(s.drop_first())
    }
}

/// Flattening colors to bytes gives three bytes per color.
pub proof fn lemma_colors_bytes_len(s: Seq<RGB>)
    ensures
        colors_bytes(s).len() == 3 * s.len(),
    decreases s.len(),
{
    if s.len() > 0 {
        lemma_colors_bytes_len(s.drop_first());
    }
}

/// The bytes of color `i` sit at positions `3 * i` through `3 * i + 2`.
pub proof fn lemma_colors_bytes_index(s: Seq<RGB>, i: int)
    requires
        0 <= i < s.len(),
    ensures
        colors_bytes(s).len() == 3 * s.len(),
        colors_bytes(s)[3 * i] == s[i].r,
        colors_bytes(s)[3 * i + 1] == s[i].g,
        colors_bytes(s)[3 * i + 2] == s[i].b,
    decreases i,
{
    lemma_colors_bytes_len(s);
    lemma_colors_bytes_len(s.drop_first());
    if i > 0 {
        lemma_colors_bytes_index(s.drop_first(), i - 1);
    }
}

/// Appending a color appends its three bytes.
pub proof fn lemma_colors_bytes_push(s: Seq<RGB>, c: RGB)
    ensures
        colors_bytes(s.push(c)) == colors_bytes(s) + seq![c.r, c.g, c.b],
    decreases s.len(),
{
    if s.len() == 0 {
        assert(s.push(c).drop_first() =~= s);
        assert(colors_bytes(s.push(c)) =~= colors_bytes(s) + seq![c.r, c.g, c.b]);
    } else {
        assert(s.push(c).drop_first() =~= s.drop_first().push(c));
        lemma_colors_bytes_push(s.drop_first(), c);
        assert(colors_bytes(s.push(c)) =~= colors_bytes(s) + seq![c.r, c.g, c.b]);
    }
}

/// The 64 bytes that a message occupies on the wire.
pub open spec fn encode_bytes(m: MessageView) -> Seq<u8> {
    match m {
        MessageView::Nop => seq![MsgType::NOP] + zeros(63),
        MessageView::Config(c) => seq![MsgType::CONFIG] + zeros(3) + u32_le(
            c.decay_time_delay_ms,
        ) + u32_le(c.decay_interval_us) + u32_le(c.decay_amount) + u32_le(c.gamma_r) + u32_le(
            c.gamma_g,
        ) + u32_le(c.gamma_b) + zeros(36),
        MessageView::Color(cd) => seq![MsgType::COLOR] + zeros(3) + u16_le(cd.offset) + seq![
            cd.settings,
        ] + colors_bytes(cd.color),
    }
}

/// The message described by 64 wire bytes, or `None` for an unknown
/// discriminant.
pub open spec fn decode_bytes(b: Seq<u8>) -> Option<MessageView> {
    if b[0] == MsgType::NOP {
        Some(MessageView::Nop)
    } else if b[0] == MsgType::CONFIG {
        Some(
            MessageView::Config(
                Config {
                    decay_time_delay_ms: u32_from_le(b[4], b[5], b[6], b[7]),
                    decay_interval_us: u32_from_le(b[8], b[9], b[10], b[11]),
                    decay_amount: u32_from_le(b[12], b[13], b[14], b[15]),
                    gamma_r: u32_from_le(b[16], b[17], b[18], b[19]),
                    gamma_g: u32_from_le(b[20], b[21], b[22], b[23]),
                    gamma_b: u32_from_le(b[24], b[25], b[26], b[27]),
                },
            ),
        )
    } else if b[0] == MsgType::COLOR {
        Some(
            MessageView::Color(
                ColorDataView {
                    offset: u16_from_le(b[4], b[5]),
                    settings: b[6],
                    color: Seq::new(
                        19,
                        |i: int| RGB { r: b[7 + 3 * i], g: b[8 + 3 * i], b: b[9 + 3 * i] },
                    ),
                },
            ),
        )
    } else {
        None
    }
}

/// Decoding the encoding of any well-formed message gives the message back.
///
/// This is the lossless half of the wire round trip; it holds for every
/// constructible message variant.
pub proof fn lemma_round_trip(m: MessageView)
    requires
        m.wf(),
    ensures
        decode_bytes(encode_bytes(m)) == Some(m),
{
    let b = encode_bytes(m);
    match m {
        MessageView::Nop => {
            assert(b[0] == 0);
        },
        MessageView::Config(c) => {
            assert(b[0] == 1);
            assert(b[4] == u32_le(c.decay_time_delay_ms)[0]);
            assert(b[5] == u32_le(c.decay_time_delay_ms)[1]);
            assert(b[6] == u32_le(c.decay_time_delay_ms)[2]);
            assert(b[7] == u32_le(c.decay_time_delay_ms)[3]);
            assert(b[8] == u32_le(c.decay_interval_us)[0]);
            assert(b[9] == u32_le(c.decay_interval_us)[1]);
            assert(b[10] == u32_le(c.decay_interval_us)[2]);
            assert(b[11] == u32_le(c.decay_interval_us)[3]);
            assert(b[12] == u32_le(c.decay_amount)[0]);
            assert(b[13] == u32_le(c.decay_amount)[1]);
            assert(b[14] == u32_le(c.decay_amount)[2]);
            assert(b[15] == u32_le(c.decay_amount)[3]);
            assert(b[16] == u32_le(c.gamma_r)[0]);
            assert(b[17] == u32_le(c.gamma_r)[1]);
            assert(b[18] == u32_le(c.gamma_r)[2]);
            assert(b[19] == u32_le(c.gamma_r)[3]);
            assert(b[20] == u32_le(c.gamma_g)[0]);
            assert(b[21] == u32_le(c.gamma_g)[1]);
            assert(b[22] == u32_le(c.gamma_g)[2]);
            assert(b[23] == u32_le(c.gamma_g)[3]);
            assert(b[24] == u32_le(c.gamma_b)[0]);
            assert(b[25] == u32_le(c.gamma_b)[1]);
            assert(b[26] == u32_le(c.gamma_b)[2]);
            assert(b[27] == u32_le(c.gamma_b)[3]);
            lemma_u32_le_roundtrip(c.decay_time_delay_ms);
            lemma_u32_le_roundtrip(c.decay_interval_us);
            lemma_u32_le_roundtrip(c.decay_amount);
            lemma_u32_le_roundtrip(c.gamma_r);
            lemma_u32_le_roundtrip(c.gamma_g);
            lemma_u32_le_roundtrip(c.gamma_b);
        },
        MessageView::Color(cd) => {
            assert(b[0] == 2);
            lemma_colors_bytes_len(cd.color);
            assert(b[4] == u16_le(cd.offset)[0]);
            assert(b[5] == u16_le(cd.offset)[1]);
            assert(b[6] == cd.settings);
            lemma_u16_le_roundtrip(cd.offset);
            let decoded_colors = Seq::new(
                19,
                |i: int| RGB { r: b[7 + 3 * i], g: b[8 + 3 * i], b: b[9 + 3 * i] },
            );
            assert forall|i: int| 0 <= i < 19 implies decoded_colors[i] == cd.color[i] by {
                lemma_colors_bytes_index(cd.color, i);
                assert(b[7 + 3 * i] == colors_bytes(cd.color)[3 * i]);
                assert(b[8 + 3 * i] == colors_bytes(cd.color)[3 * i + 1]);
                assert(b[9 + 3 * i] == colors_bytes(cd.color)[3 * i + 2]);
            }
            assert(decoded_colors =~= cd.color);
        },
    }
}

impl Message {
    /// A message occupies exactly this many bytes on the wire: one USB
    /// full-speed packet.
    pub const LENGTH: usize = 64;

    /// A Color message always carries exactly [`LEDS_PER_MESSAGE`] colors.
    pub open spec fn wf(&self) -> bool {
        self@.wf()
    }

    /// Parse one wire block. An unrecognized discriminant gives `None`;
    /// callers drop such blocks, they never panic on untrusted input.
    pub fn decode(bytes: &[u8]) -> (r: Option<Message>)
        requires
            bytes@.len() == 64,
        ensures
            match r {
                Some(m) => decode_bytes(bytes@) == Some(m@) && m.wf(),
                None => decode_bytes(bytes@) is None,
            },
    {
        let discriminant = bytes[0];
        if discriminant == MsgType::NOP {
            Some(Message::Nop)
        } else if discriminant == MsgType::CONFIG {
            let c = Config {
                decay_time_delay_ms: read_u32_le(bytes, 4),
                decay_interval_us: read_u32_le(bytes, 8),
                decay_amount: read_u32_le(bytes, 12),
                gamma_r: read_u32_le(bytes, 16),
                gamma_g: read_u32_le(bytes, 20),
                gamma_b: read_u32_le(bytes, 24),
            };
            Some(Message::Config(c))
        } else if discriminant == MsgType::COLOR {
            let offset = (bytes[4] as u16) | ((bytes[5] as u16) << 8);
            let settings = bytes[6];
            let mut color: Vec<RGB> = Vec::new();
            let mut i: usize = 0;
            while i < 19
                invariant
                    i <= 19,
                    bytes@.len() == 64,
                    color@.len() == i,
                    forall|j: int|
                        0 <= j < i ==> color@[j] == (RGB {
                            r: bytes@[7 + 3 * j],
                            g: bytes@[8 + 3 * j],
                            b: bytes@[9 + 3 * j],
                        }),
                decreases 19 - i,
            {
                color.push(
                    RGB { r: bytes[7 + 3 * i], g: bytes[8 + 3 * i], b: bytes[9 + 3 * i] },
                );
                i += 1;
            }
            let cd = ColorData { offset, settings, color };
            proof {
                let dv = decode_bytes(bytes@)->Some_0->Color_0;
                assert(dv.color =~= cd@.color);
                assert(dv =~= cd@);
            }
            Some(Message::Color(cd))
        } else {
            None
        }
    }

    /// Serialize this message to its 64 wire bytes.
    pub fn encode(&self) -> (r: Vec<u8>)
        requires
            self.wf(),
        ensures
            r@ == encode_bytes(self@),
            r@.len() == 64,
    {
        let mut out: Vec<u8> = Vec::new();
        match self {
            Message::Nop => {
                out.push(MsgType::NOP);
                push_zeros(&mut out, 63);
                proof {
                    assert(out@ =~= encode_bytes(self@));
                }
            },
            Message::Config(c) => {
                out.push(MsgType::CONFIG);
                push_zeros(&mut out, 3);
                push_u32_le(&mut out, c.decay_time_delay_ms);
                push_u32_le(&mut out, c.decay_interval_us);
                push_u32_le(&mut out, c.decay_amount);
                push_u32_le(&mut out, c.gamma_r);
                push_u32_le(&mut out, c.gamma_g);
                push_u32_le(&mut out, c.gamma_b);
                push_zeros(&mut out, 36);
                proof {
                    assert(out@ =~= encode_bytes(self@));
                }
            },
            Message::Color(cd) => {
                out.push(MsgType::COLOR);
                push_zeros(&mut out, 3);
                out.push((cd.offset & 0xff) as u8);
                out.push(((cd.offset >> 8) & 0xff) as u8);
                out.push(cd.settings);
                let prefix = Ghost(out@);
                let mut i: usize = 0;
                while i < cd.color.len()
                    invariant
                        i <= cd.color@.len(),
                        cd.color@.len() == 19,
                        out@ == prefix@ + colors_bytes(cd.color@.subrange(0, i as int)),
                    decreases cd.color@.len() - i,
                {
                    let c = cd.color[i];
                    out.push(c.r);
                    out.push(c.g);
                    out.push(c.b);
                    proof {
                        let sub = cd.color@.subrange(0, i as int);
                        lemma_colors_bytes_push(sub, c);
                        assert(cd.color@.subrange(0, i + 1) =~= sub.push(c));
                    }
                    i += 1;
                }
                proof {
                    assert(cd.color@.subrange(0, cd.color@.len() as int) =~= cd.color@);
                    lemma_colors_bytes_len(cd.color@);
                    assert(out@ =~= encode_bytes(self@));
                }
            },
        }
        proof {
            match self@ {
                MessageView::Nop => {},
                MessageView::Config(c) => {},
                MessageView::Color(cd) => {
                    lemma_colors_bytes_len(cd.color);
                },
            }
        }
        out
    }

    /// The wire bytes of this message; an alias for [`Message::encode`].
    pub fn as_bytes(&self) -> (r: Vec<u8>)
        requires
            self.wf(),
        ensures
            r@ == encode_bytes(self@),
            r@.len() == 64,
    {
        self.encode()
    }
}

/// Append `n` zero bytes.
fn push_zeros(out: &mut Vec<u8>, n: usize)
    requires
        old(out)@.len() + n <= usize::MAX,
    ensures
        final(out)@ == old(out)@ + zeros(n as nat),
{
    let mut i: usize = 0;
    while i < n
        invariant
            i <= n,
            out@ == old(out)@ + zeros(i as nat),
            out@.len() == old(out)@.len() + i,
        decreases n - i,
    {
        out.push(0);
        proof {
            assert(old(out)@ + zeros(i as nat) + seq![0u8] =~= old(out)@ + zeros((i + 1) as nat));
        }
        i += 1;
    }
}

/// Append the four little-endian bytes of `v`.
fn push_u32_le(out: &mut Vec<u8>, v: u32)
    requires
        old(out)@.len() + 4 <= usize::MAX,
    ensures
        final(out)@ == old(out)@ + u32_le(v),
{
    out.push((v & 0xff) as u8);
    out.push(((v >> 8) & 0xff) as u8);
    out.push(((v >> 16) & 0xff) as u8);
    out.push(((v >> 24) & 0xff) as u8);
    proof {
        assert(final(out)@ =~= old(out)@ + u32_le(v));
    }
}

/// Read the little-endian 32-bit value at `at`.
fn read_u32_le(bytes: &[u8], at: usize) -> (r: u32)
    requires
        at + 4 <= bytes@.len(),
    ensures
        r == u32_from_le(bytes@[at as int], bytes@[at + 1], bytes@[at + 2], bytes@[at + 3]),
{
    (bytes[at] as u32) | ((bytes[at + 1] as u32) << 8) | ((bytes[at + 2] as u32) << 16) | ((bytes[at
        + 3] as u32) << 24)
}

} // verus!
