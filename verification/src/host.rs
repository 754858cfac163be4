//! Host-side construction of wire messages.
//!
//! The host drives a whole strip by chunking its pixel buffer into Color
//! messages of [`LEDS_PER_MESSAGE`] LEDs each, marking only the final chunk
//! "show after" so the device renders the frame exactly once, when it is
//! complete. Sending the bytes over the serial port — and any brightness
//! scaling beforehand — is the surrounding program's business.

use vstd::prelude::*;

use crate::messages::{ColorData, Config, Message, MessageView, LEDS_PER_MESSAGE};
use crate::types::RGB;

verus! {

/// The Config message that replaces the device configuration with `config`.
pub fn set_config(config: &Config) -> (m: Message)
    ensures
        m.wf(),
        m@ == MessageView::Config(*config),
{
    Message::Config(*config)
}

/// The single message that sets the whole strip to one color: offset zero,
/// both the set-all and the show-after bits, the color in the first slot.
pub fn fill(r: u8, g: u8, b: u8) -> (m: Message)
    ensures
        m.wf(),
        m@ matches MessageView::Color(cd) && cd.offset == 0 && cd.settings == (
        ColorData::SETTINGS_SET_ALL | ColorData::SETTINGS_SHOW_AFTER) && cd.color[0] == (RGB {
            r,
            g,
            b,
        }),
{
    let mut cd = ColorData::new(0, ColorData::SETTINGS_SET_ALL | ColorData::SETTINGS_SHOW_AFTER);
    cd.color[0] = RGB { r, g, b };
    Message::Color(cd)
}

/// How many messages a strip of `n` pixels takes.
pub open spec fn chunk_count(n: int) -> int {
    (n + 18) / 19
}

/// The messages that set a whole strip of pixels: one Color chunk per
/// [`LEDS_PER_MESSAGE`] LEDs, each addressing its own offset, with unused
/// color slots black and only the last chunk carrying the show-after bit.
pub fn set_leds(pixels: &[RGB]) -> (r: Vec<Message>)
    requires
        pixels@.len() <= 0xFFFF,
    ensures
        r@.len() == chunk_count(pixels@.len() as int),
        forall|i: int| #![trigger r@[i]]
            0 <= i < r@.len() ==> (r@[i].wf() && (r@[i]@ matches MessageView::Color(cd)
                && cd.offset == 19 * i && cd.settings == (if i == r@.len() - 1 {
                ColorData::SETTINGS_SHOW_AFTER as u8
            } else {
                0u8
            }) && (forall|k: int|
                0 <= k < 19 ==> cd.color[k] == (if 19 * i + k < pixels@.len() {
                    pixels@[19 * i + k]
                } else {
                    RGB { r: 0, g: 0, b: 0 }
                })))),
{
    let n = (pixels.len() + LEDS_PER_MESSAGE - 1) / LEDS_PER_MESSAGE;
    let mut out: Vec<Message> = Vec::new();
    let mut i: usize = 0;
    while i < n
        invariant
            pixels@.len() <= 0xFFFF,
            n == chunk_count(pixels@.len() as int),
            i <= n,
            out@.len() == i,
            forall|m: int| #![trigger out@[m]]
                0 <= m < i ==> (out@[m].wf() && (out@[m]@ matches
                    MessageView::Color(cd) && cd.offset == 19 * m && cd.settings == (if m == n
                    - 1 {
                    ColorData::SETTINGS_SHOW_AFTER as u8
                } else {
                    0u8
                }) && (forall|k: int|
                    0 <= k < 19 ==> cd.color[k] == (if 19 * m + k < pixels@.len() {
                        pixels@[19 * m + k]
                    } else {
                        RGB { r: 0, g: 0, b: 0 }
                    })))),
        decreases n - i,
    {
        let settings = if i + 1 == n {
            ColorData::SETTINGS_SHOW_AFTER
        } else {
            0
        };
        let base = i * LEDS_PER_MESSAGE;
        let mut cd = ColorData::new(base as u16, settings);
        let mut k: usize = 0;
        while k < LEDS_PER_MESSAGE
            invariant
                k <= 19,
                base == 19 * i,
                base <= 0xFFFF,
                pixels@.len() <= 0xFFFF,
                cd.color@.len() == 19,
                cd.offset == base as u16,
                cd.settings == settings,
                forall|j: int|
                    0 <= j < k ==> cd.color@[j] == (if 19 * i + j < pixels@.len() {
                        pixels@[19 * i + j]
                    } else {
                        RGB { r: 0, g: 0, b: 0 }
                    }),
                forall|j: int| k <= j < 19 ==> cd.color@[j] == RGB::black_spec(),
            decreases 19 - k,
        {
            if base + k < pixels.len() {
                cd.color[k] = pixels[base + k];
            }
            k += 1;
        }
        out.push(Message::Color(cd));
        i += 1;
    }
    out
}

} // verus!
