//! The light-state controller.
//!
//! [`Lights`] owns the authoritative LED color buffer. It consumes decoded
//! wire messages, applies inactivity decay on a clock that the surrounding
//! program advances explicitly (which keeps the controller deterministic),
//! and, when an update is pending and the transfer hardware is idle, encodes
//! the buffer — gamma-corrected — into the WS2811 driver and starts a
//! transfer.

use vstd::prelude::*;

use crate::gamma::{table_for_bits, Gamma};
use crate::messages::{decode_bytes, ColorData, ColorDataView, Config, Message, MessageView};
use crate::spi_ws2811::{colors_encoding, gamma_mapped, Ws2811SpiDmaDriver};
use crate::types::RGB;

verus! {

/// Fill every LED with one color.
pub fn set_color(leds: &mut Vec<RGB>, color: &RGB)
    ensures
        final(leds)@.len() == old(leds)@.len(),
        forall|i: int| 0 <= i < old(leds)@.len() ==> final(leds)@[i] == *color,
{
    let mut i: usize = 0;
    while i < leds.len()
        invariant
            i <= leds@.len(),
            leds@.len() == old(leds)@.len(),
            forall|j: int| 0 <= j < i ==> leds@[j] == *color,
        decreases leds@.len() - i,
    {
        leds[i] = *color;
        i += 1;
    }
}

/// `c` with every channel capped at `limit`.
pub open spec fn limited_rgb(c: RGB, limit: u8) -> RGB {
    RGB {
        r: if c.r < limit { c.r } else { limit },
        g: if c.g < limit { c.g } else { limit },
        b: if c.b < limit { c.b } else { limit },
    }
}

/// Cap every channel of every LED at `value`.
pub fn set_limit(leds: &mut Vec<RGB>, value: u8)
    ensures
        final(leds)@.len() == old(leds)@.len(),
        forall|i: int|
            0 <= i < old(leds)@.len() ==> final(leds)@[i] == limited_rgb(old(leds)@[i], value),
{
    let mut i: usize = 0;
    while i < leds.len()
        invariant
            i <= leds@.len(),
            leds@.len() == old(leds)@.len(),
            forall|j: int| i <= j < leds@.len() ==> leds@[j] == old(leds)@[j],
            forall|j: int| 0 <= j < i ==> leds@[j] == limited_rgb(old(leds)@[j], value),
        decreases leds@.len() - i,
    {
        let mut c = leds[i];
        c.limit(value);
        leds[i] = c;
        i += 1;
    }
}

/// The test-pattern color for position `k` of the four-color cycle.
pub open spec fn rgbw_color(k: int) -> RGB {
    if k == 0 {
        RGB { r: 255, g: 0, b: 0 }
    } else if k == 1 {
        RGB { r: 0, g: 255, b: 0 }
    } else if k == 2 {
        RGB { r: 0, g: 0, b: 255 }
    } else {
        RGB { r: 255, g: 255, b: 255 }
    }
}

/// Paint a repeating red, green, blue, white test pattern, phase-shifted by
/// `offset`.
pub fn set_rgbw(leds: &mut Vec<RGB>, offset: usize)
    requires
        old(leds)@.len() + offset <= usize::MAX,
    ensures
        final(leds)@.len() == old(leds)@.len(),
        forall|i: int|
            0 <= i < old(leds)@.len() ==> final(leds)@[i] == rgbw_color((i + offset) % 4),
{
    let mut i: usize = 0;
    while i < leds.len()
        invariant
            i <= leds@.len(),
            leds@.len() == old(leds)@.len(),
            leds@.len() + offset <= usize::MAX,
            forall|j: int| 0 <= j < i ==> leds@[j] == rgbw_color((j + offset) % 4),
        decreases leds@.len() - i,
    {
        let v = (i + offset) % 4;
        leds[i] = if v == 0 {
            RGB { r: 255, g: 0, b: 0 }
        } else if v == 1 {
            RGB { r: 0, g: 255, b: 0 }
        } else if v == 2 {
            RGB { r: 0, g: 0, b: 255 }
        } else {
            RGB { r: 255, g: 255, b: 255 }
        };
        i += 1;
    }
}

/// `leds` with every LED from `led_offset` on set to `c`.
pub open spec fn set_all_leds(leds: Seq<RGB>, led_offset: int, c: RGB) -> Seq<RGB> {
    Seq::new(
        leds.len(),
        |i: int|
            if i >= led_offset {
                c
            } else {
                leds[i]
            },
    )
}

/// `leds` with positions `start` up to `end` replaced by the head of
/// `colors`.
pub open spec fn copy_chunk(leds: Seq<RGB>, start: int, end: int, colors: Seq<RGB>) -> Seq<RGB> {
    Seq::new(
        leds.len(),
        |i: int|
            if start <= i < end {
                colors[i - start]
            } else {
                leds[i]
            },
    )
}

/// Where a chunk for wire offset `offset` starts in a strip of `leds_len`
/// LEDs whose first `led_offset` LEDs are reserved: clipped to the buffer.
pub open spec fn chunk_start(leds_len: int, led_offset: int, offset: u16) -> int {
    if offset + led_offset < leds_len {
        offset + led_offset
    } else {
        leds_len
    }
}

/// Where that chunk ends, clipped to the buffer.
pub open spec fn chunk_end(leds_len: int, led_offset: int, offset: u16) -> int {
    if offset + led_offset + 19 < leds_len {
        offset + led_offset + 19
    } else {
        leds_len
    }
}

/// What a Color message does to the LED buffer: fill everything addressable
/// with the first color under `SETTINGS_SET_ALL`, otherwise copy the chunk
/// into its clipped range. Out-of-range offsets never write out of bounds.
pub open spec fn applied_color(leds: Seq<RGB>, led_offset: int, cd: ColorDataView) -> Seq<RGB> {
    if cd.settings & ColorData::SETTINGS_SET_ALL != 0 {
        set_all_leds(leds, led_offset, cd.color[0])
    } else {
        copy_chunk(
            leds,
            chunk_start(leds.len() as int, led_offset, cd.offset),
            chunk_end(leds.len() as int, led_offset, cd.offset),
            cd.color,
        )
    }
}

/// `c` with `amount` subtracted from every channel, stopping at zero.
pub open spec fn decayed_rgb(c: RGB, amount: u8) -> RGB {
    RGB {
        r: if c.r >= amount { (c.r - amount) as u8 } else { 0 },
        g: if c.g >= amount { (c.g - amount) as u8 } else { 0 },
        b: if c.b >= amount { (c.b - amount) as u8 } else { 0 },
    }
}

/// Every LED decayed by `amount`.
pub open spec fn decayed_leds(leds: Seq<RGB>, amount: u8) -> Seq<RGB> {
    Seq::new(leds.len(), |i: int| decayed_rgb(leds[i], amount))
}

/// The light-state controller: configuration, clock, gamma tables and the
/// authoritative LED buffer.
pub struct Lights {
    config: Config,
    current_time: u64,
    last_msg: u64,
    last_decay: u64,
    gamma: Gamma,
    leds: Vec<RGB>,
    led_offset: usize,
    needs_update: bool,
}

impl Lights {
    /// The controller's invariant: the reserved-LED offset stays inside the
    /// buffer, the buffer leaves headroom for wire offsets, the clock never
    /// runs behind the recorded events, and the gamma tables are the ones
    /// the stored configuration selects.
    pub closed spec fn wf(&self) -> bool {
        &&& self.led_offset <= self.leds@.len()
        &&& self.leds@.len() + 0x1_0013 <= usize::MAX
        &&& self.last_msg <= self.current_time
        &&& self.last_decay <= self.current_time
        &&& self.gamma.wf()
        &&& self.gamma.table_r() == table_for_bits(self.config.gamma_r)
        &&& self.gamma.table_g() == table_for_bits(self.config.gamma_g)
        &&& self.gamma.table_b() == table_for_bits(self.config.gamma_b)
    }

    /// The LED buffer.
    pub closed spec fn spec_leds(&self) -> Seq<RGB> {
        self.leds@
    }

    /// The stored configuration.
    pub closed spec fn spec_config(&self) -> Config {
        self.config
    }

    /// The controller's clock, in microseconds.
    pub closed spec fn spec_time(&self) -> u64 {
        self.current_time
    }

    /// When the last message arrived.
    pub closed spec fn spec_last_msg(&self) -> u64 {
        self.last_msg
    }

    /// When decay last ran.
    pub closed spec fn spec_last_decay(&self) -> u64 {
        self.last_decay
    }

    /// How many reserved LEDs precede the addressable range.
    pub closed spec fn spec_led_offset(&self) -> int {
        self.led_offset as int
    }

    /// Whether a frame is waiting to be rendered.
    pub closed spec fn spec_needs_update(&self) -> bool {
        self.needs_update
    }

    /// The gamma tables in use.
    pub closed spec fn spec_gamma(&self) -> Gamma {
        self.gamma
    }

    /// Whether enough time has passed since the last message and since the
    /// last decay step for another step to run.
    pub open spec fn should_decay(&self) -> bool {
        &&& self.spec_time() - self.spec_last_msg() > self.spec_config().decay_time_delay_ms
            * 1000
        &&& self.spec_time() - self.spec_last_decay() > self.spec_config().decay_interval_us
    }

    /// A controller owning `leds`, whose first `led_offset` entries are
    /// reserved (a sacrificial voltage-conditioning LED), with the default
    /// configuration and its gamma tables, and nothing pending.
    pub fn new(leds: Vec<RGB>, led_offset: usize) -> (r: Lights)
        requires
            led_offset <= leds@.len(),
            leds@.len() + 0x1_0013 <= usize::MAX,
        ensures
            r.wf(),
            r.spec_leds() == leds@,
            r.spec_led_offset() == led_offset,
            r.spec_config() == Config::default_spec(),
            r.spec_time() == 0,
            r.spec_last_msg() == 0,
            r.spec_last_decay() == 0,
            !r.spec_needs_update(),
    {
        let config = Config::default();
        let gamma = Gamma::generate(config.gamma_r, config.gamma_g, config.gamma_b);
        Lights {
            config,
            current_time: 0,
            last_msg: 0,
            last_decay: 0,
            gamma,
            leds,
            led_offset,
            needs_update: false,
        }
    }

    /// The LED buffer, reserved LEDs included.
    pub fn get_leds(&self) -> (r: &Vec<RGB>)
        ensures
            r@ == self.spec_leds(),
    {
        &self.leds
    }

    /// Whether a frame is waiting to be rendered.
    pub fn needs_update(&self) -> (r: bool)
        ensures
            r == self.spec_needs_update(),
    {
        self.needs_update
    }

    /// Interpret one wire block. A block that does not decode is discarded
    /// without any state change; a decoded message records the arrival time
    /// and takes effect as its variant prescribes.
    pub fn incoming(&mut self, data: &[u8])
        requires
            old(self).wf(),
            data@.len() == 64,
        ensures
            final(self).wf(),
            final(self).spec_led_offset() == old(self).spec_led_offset(),
            final(self).spec_time() == old(self).spec_time(),
            final(self).spec_last_decay() == old(self).spec_last_decay(),
            match decode_bytes(data@) {
                None => *final(self) == *old(self),
                Some(MessageView::Nop) => {
                    &&& final(self).spec_last_msg() == old(self).spec_time()
                    &&& final(self).spec_leds() == old(self).spec_leds()
                    &&& final(self).spec_config() == old(self).spec_config()
                    &&& final(self).spec_gamma() == old(self).spec_gamma()
                    &&& final(self).spec_needs_update() == old(self).spec_needs_update()
                },
                Some(MessageView::Config(c)) => {
                    &&& final(self).spec_last_msg() == old(self).spec_time()
                    &&& final(self).spec_leds() == old(self).spec_leds()
                    &&& final(self).spec_config() == c
                    &&& final(self).spec_gamma().table_r() == table_for_bits(c.gamma_r)
                    &&& final(self).spec_gamma().table_g() == table_for_bits(c.gamma_g)
                    &&& final(self).spec_gamma().table_b() == table_for_bits(c.gamma_b)
                    &&& final(self).spec_needs_update() == (old(self).spec_needs_update() || old(
                        self,
                    ).spec_config().gamma_r != c.gamma_r || old(self).spec_config().gamma_g
                        != c.gamma_g || old(self).spec_config().gamma_b != c.gamma_b)
                },
                Some(MessageView::Color(cd)) => {
                    &&& final(self).spec_last_msg() == old(self).spec_time()
                    &&& final(self).spec_leds() == applied_color(
                        old(self).spec_leds(),
                        old(self).spec_led_offset(),
                        cd,
                    )
                    &&& final(self).spec_config() == old(self).spec_config()
                    &&& final(self).spec_gamma() == old(self).spec_gamma()
                    &&& final(self).spec_needs_update() == (old(self).spec_needs_update()
                        || cd.settings & ColorData::SETTINGS_SHOW_AFTER != 0)
                },
            },
    {
        let msg = Message::decode(data);
        if msg.is_none() {
            return ;
        }
        let msg = msg.unwrap();

        self.last_msg = self.current_time;

        match msg {
            Message::Nop => {},
            Message::Color(color_data) => {
                if color_data.settings & ColorData::SETTINGS_SET_ALL != 0 {
                    let c0 = color_data.color[0];
                    let mut i = self.led_offset;
                    while i < self.leds.len()
                        invariant
                            old(self).led_offset <= i <= self.leds@.len(),
                            self.leds@.len() == old(self).leds@.len(),
                            forall|j: int|
                                0 <= j < old(self).led_offset || i <= j < self.leds@.len()
                                    ==> self.leds@[j] == old(self).leds@[j],
                            forall|j: int|
                                old(self).led_offset <= j < i ==> self.leds@[j] == c0,
                            self.led_offset == old(self).led_offset,
                            self.config == old(self).config,
                            self.gamma == old(self).gamma,
                            self.current_time == old(self).current_time,
                            self.last_decay == old(self).last_decay,
                            self.needs_update == old(self).needs_update,
                            self.last_msg == old(self).current_time,
                        decreases self.leds@.len() - i,
                    {
                        self.leds[i] = c0;
                        i += 1;
                    }
                    proof {
                        assert(self.leds@ =~= set_all_leds(
                            old(self).leds@,
                            old(self).led_offset as int,
                            c0,
                        ));
                    }
                } else {
                    let len = self.leds.len();
                    let total = color_data.offset as usize + self.led_offset;
                    let start = if total < len {
                        total
                    } else {
                        len
                    };
                    let end = if total + 19 < len {
                        total + 19
                    } else {
                        len
                    };
                    let mut k: usize = 0;
                    while k < end - start
                        invariant
                            k <= end - start,
                            start <= end <= self.leds@.len(),
                            end - start <= 19,
                            color_data.color@.len() == 19,
                            self.leds@.len() == old(self).leds@.len(),
                            forall|j: int|
                                0 <= j < self.leds@.len() && !(start <= j < start + k)
                                    ==> self.leds@[j] == old(self).leds@[j],
                            forall|j: int|
                                0 <= j < k ==> self.leds@[start + j] == color_data.color@[j],
                            self.led_offset == old(self).led_offset,
                            self.config == old(self).config,
                            self.gamma == old(self).gamma,
                            self.current_time == old(self).current_time,
                            self.last_decay == old(self).last_decay,
                            self.needs_update == old(self).needs_update,
                            self.last_msg == old(self).current_time,
                        decreases end - start - k,
                    {
                        self.leds[start + k] = color_data.color[k];
                        k += 1;
                    }
                    proof {
                        assert(self.leds@ =~= copy_chunk(
                            old(self).leds@,
                            start as int,
                            end as int,
                            color_data.color@,
                        ));
                    }
                }
                if color_data.settings & ColorData::SETTINGS_SHOW_AFTER != 0 {
                    self.needs_update = true;
                }
            },
            Message::Config(config) => {
                if self.config.gamma_r != config.gamma_r || self.config.gamma_g != config.gamma_g
                    || self.config.gamma_b != config.gamma_b {
                    self.gamma = Gamma::generate(config.gamma_r, config.gamma_g, config.gamma_b);
                    self.needs_update = true;
                }
                self.config = config;
            },
        }
    }

    /// Advance the controller's clock by an externally measured delta. The
    /// controller never reads hardware timers itself.
    pub fn clock_update(&mut self, dt: u64)
        requires
            old(self).wf(),
            old(self).spec_time() + dt <= u64::MAX,
        ensures
            final(self).wf(),
            final(self).spec_time() == old(self).spec_time() + dt,
            final(self).spec_leds() == old(self).spec_leds(),
            final(self).spec_config() == old(self).spec_config(),
            final(self).spec_gamma() == old(self).spec_gamma(),
            final(self).spec_last_msg() == old(self).spec_last_msg(),
            final(self).spec_last_decay() == old(self).spec_last_decay(),
            final(self).spec_led_offset() == old(self).spec_led_offset(),
            final(self).spec_needs_update() == old(self).spec_needs_update(),
    {
        self.current_time = dt + self.current_time;
    }

    /// Run one decay step if the strip has been inactive long enough and
    /// the decay interval has passed: subtract the configured amount from
    /// every channel of every LED, saturating at zero, and mark an update
    /// pending. The fail-safe fade-to-black on loss of the host.
    pub fn update_decay(&mut self)
        requires
            old(self).wf(),
        ensures
            final(self).wf(),
            final(self).spec_time() == old(self).spec_time(),
            final(self).spec_last_msg() == old(self).spec_last_msg(),
            final(self).spec_config() == old(self).spec_config(),
            final(self).spec_gamma() == old(self).spec_gamma(),
            final(self).spec_led_offset() == old(self).spec_led_offset(),
            !old(self).should_decay() ==> *final(self) == *old(self),
            old(self).should_decay() ==> {
                &&& final(self).spec_last_decay() == old(self).spec_time()
                &&& final(self).spec_needs_update()
                &&& final(self).spec_leds() == decayed_leds(
                    old(self).spec_leds(),
                    old(self).spec_config().decay_amount as u8,
                )
            },
    {
        let delay_us: u64 = (self.config.decay_time_delay_ms as u64) * 1000;
        if self.current_time - self.last_msg > delay_us {
            if self.current_time - self.last_decay > self.config.decay_interval_us as u64 {
                self.last_decay = self.current_time;
                self.needs_update = true;
                let sub_value = (self.config.decay_amount & 0xff) as u8;
                proof {
                    let amount = self.config.decay_amount;
                    assert((amount & 0xff) as u8 == amount as u8) by (bit_vector);
                }
                let mut i: usize = 0;
                while i < self.leds.len()
                    invariant
                        i <= self.leds@.len(),
                        self.leds@.len() == old(self).leds@.len(),
                        forall|j: int|
                            i <= j < self.leds@.len() ==> self.leds@[j] == old(self).leds@[j],
                        forall|j: int|
                            0 <= j < i ==> self.leds@[j] == decayed_rgb(
                                old(self).leds@[j],
                                sub_value,
                            ),
                        self.led_offset == old(self).led_offset,
                        self.config == old(self).config,
                        self.gamma == old(self).gamma,
                        self.current_time == old(self).current_time,
                        self.last_msg == old(self).last_msg,
                        self.last_decay == old(self).current_time,
                        self.needs_update,
                    decreases self.leds@.len() - i,
                {
                    let c = self.leds[i];
                    self.leds[i] = RGB {
                        r: if c.r >= sub_value {
                            c.r - sub_value
                        } else {
                            0
                        },
                        g: if c.g >= sub_value {
                            c.g - sub_value
                        } else {
                            0
                        },
                        b: if c.b >= sub_value {
                            c.b - sub_value
                        } else {
                            0
                        },
                    };
                    i += 1;
                }
                proof {
                    assert(self.leds@ =~= decayed_leds(old(self).leds@, sub_value));
                }
            }
        }
    }

    /// Run decay, then — only if the driver is idle and an update is
    /// pending — encode the gamma-corrected buffer and start a transfer.
    /// This couples "is there new data" with "can the hardware accept it",
    /// so frames are neither dropped silently nor torn; a busy driver is
    /// simply retried on the next loop iteration.
    pub fn perform_update(&mut self, ws2811: &mut Ws2811SpiDmaDriver)
        requires
            old(self).wf(),
            old(ws2811).wf(),
            old(self).spec_leds().len() <= old(ws2811).led_count_spec(),
        ensures
            final(self).wf(),
            final(ws2811).wf(),
            final(self).spec_time() == old(self).spec_time(),
            final(self).spec_last_msg() == old(self).spec_last_msg(),
            final(self).spec_config() == old(self).spec_config(),
            final(self).spec_gamma() == old(self).spec_gamma(),
            final(self).spec_led_offset() == old(self).spec_led_offset(),
            final(self).spec_leds() == (if old(self).should_decay() {
                decayed_leds(old(self).spec_leds(), old(self).spec_config().decay_amount as u8)
            } else {
                old(self).spec_leds()
            }),
            final(ws2811).led_count_spec() == old(ws2811).led_count_spec(),
            ({
                let pending = old(self).spec_needs_update() || old(self).should_decay();
                let leds_after = if old(self).should_decay() {
                    decayed_leds(old(self).spec_leds(), old(self).spec_config().decay_amount as u8)
                } else {
                    old(self).spec_leds()
                };
                if !old(ws2811).is_in_flight() && pending {
                    &&& !final(self).spec_needs_update()
                    &&& final(ws2811).is_in_flight()
                    &&& final(ws2811).buffer_view().len() == old(ws2811).buffer_view().len()
                    &&& forall|k: int|
                        0 <= k < 24 * leds_after.len() ==> final(ws2811).buffer_view()[24 + k]
                            == colors_encoding(
                            gamma_mapped(old(self).spec_gamma(), leds_after),
                        )[k]
                    &&& forall|j: int|
                        0 <= j < old(ws2811).buffer_view().len() && !(24 <= j < 24 + 24
                            * leds_after.len()) ==> final(ws2811).buffer_view()[j] == old(
                            ws2811,
                        ).buffer_view()[j]
                } else {
                    &&& final(self).spec_needs_update() == pending
                    &&& *final(ws2811) == *old(ws2811)
                }
            }),
    {
        self.update_decay();
        if ws2811.is_ready() && self.needs_update {
            ws2811.prepare_filter(self.leds.as_slice(), &self.gamma);
            self.needs_update = false;
            ws2811.update();
        }
    }
}

} // verus!
