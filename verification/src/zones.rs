//! The mapping between physical LEDs and regions on the screen.
//!
//! The strip runs around the monitor: LEDs 0–41 up the left side (starting
//! at the top), 42–113 along the bottom (starting left), 114–155 up the
//! right side (starting at the bottom) and 156–227 along the top (starting
//! right). Each LED gets a rectangular zone of the captured region to
//! average its color from.

use vstd::prelude::*;

use crate::rectangle::Rectangle;

verus! {

/// How many LEDs the strip has.
pub const ZONE_LEDS: u32 = 228;

/// How many LEDs run along the bottom and along the top.
pub const ZONE_HORIZONTAL: u32 = 73;

/// How many LEDs run up each side.
pub const ZONE_VERTICAL: u32 = 42;

/// Namespace for the zone layout.
pub struct Zones {}

/// The zone of LED `led` within `r`, for the given cell depths.
pub open spec fn zone_spec(r: Rectangle, horizontal_depth: u32, vertical_depth: u32, led: int)
    -> Rectangle {
    let width = r.x_max - r.x_min;
    let height = r.y_max - r.y_min;
    let vertical_step = height / 42;
    let horizontal_step = width / 73;
    if led < 42 {
        let pos = led;
        Rectangle {
            x_min: r.x_min,
            x_max: (r.x_min + horizontal_depth) as u32,
            y_min: (r.y_min + pos * vertical_step) as u32,
            y_max: (r.y_min + (pos + 1) * vertical_step) as u32,
        }
    } else if led < 114 {
        let pos = led - 42;
        Rectangle {
            x_min: (r.x_min + pos * horizontal_step) as u32,
            x_max: (r.x_min + (pos + 1) * horizontal_step) as u32,
            y_min: (r.y_min + height - vertical_depth) as u32,
            y_max: (r.y_min + height) as u32,
        }
    } else if led < 156 {
        let pos = led - 114;
        Rectangle {
            x_min: (r.x_min + width - horizontal_depth) as u32,
            x_max: (r.x_min + width) as u32,
            y_min: (r.y_min + height - (pos + 1) * vertical_step) as u32,
            y_max: (r.y_min + height - pos * vertical_step) as u32,
        }
    } else {
        let pos = led - 156;
        Rectangle {
            x_min: (r.x_min + width - (pos + 1) * horizontal_step) as u32,
            x_max: (r.x_min + width - pos * horizontal_step) as u32,
            y_min: r.y_min,
            y_max: (r.y_min + vertical_depth) as u32,
        }
    }
}

/// Taking at most `divisor` steps of size `total / divisor` stays within
/// `total`.
proof fn lemma_step_bound(k: int, total: int, divisor: int)
    requires
        0 <= total,
        1 <= divisor,
        0 <= k <= divisor,
    ensures
        0 <= k * (total / divisor) <= total,
{
    assert(0 <= k * (total / divisor) <= divisor * (total / divisor)) by (nonlinear_arith)
        requires
            0 <= k <= divisor,
            0 <= total / divisor,
    ;
    assert(divisor * (total / divisor) <= total) by (nonlinear_arith)
        requires
            0 <= total,
            1 <= divisor,
    ;
}

impl Zones {
    /// The zones for all [`ZONE_LEDS`] LEDs within `rectangle`: side LEDs
    /// get cells `horizontal_depth` pixels deep, top and bottom LEDs cells
    /// `vertical_depth` pixels deep, each side divided evenly among its
    /// LEDs.
    pub fn make_zones(rectangle: &Rectangle, horizontal_depth: u32, vertical_depth: u32) -> (r:
        Vec<Rectangle>)
        requires
            rectangle.x_min <= rectangle.x_max,
            rectangle.y_min <= rectangle.y_max,
            horizontal_depth <= rectangle.x_max - rectangle.x_min,
            vertical_depth <= rectangle.y_max - rectangle.y_min,
        ensures
            r@.len() == 228,
            forall|led: int|
                0 <= led < 228 ==> r@[led] == zone_spec(
                    *rectangle,
                    horizontal_depth,
                    vertical_depth,
                    led,
                ),
    {
        let mut res: Vec<Rectangle> = Vec::new();
        let width = rectangle.x_max - rectangle.x_min;
        let height = rectangle.y_max - rectangle.y_min;
        let vertical_step: u32 = height / 42;
        let horizontal_step: u32 = width / 73;

        let mut led: u32 = 0;
        while led < 228
            invariant
                led <= 228,
                res@.len() == led,
                width == rectangle.x_max - rectangle.x_min,
                height == rectangle.y_max - rectangle.y_min,
                vertical_step == height / 42,
                horizontal_step == width / 73,
                horizontal_depth <= width,
                vertical_depth <= height,
                forall|j: int|
                    0 <= j < led ==> res@[j] == zone_spec(
                        *rectangle,
                        horizontal_depth,
                        vertical_depth,
                        j,
                    ),
            decreases 228 - led,
        {
            let zone: Rectangle;
            if led < 42 {
                let pos = led;
                proof {
                    lemma_step_bound(pos as int, height as int, 42);
                    lemma_step_bound(pos + 1, height as int, 42);
                }
                zone = Rectangle {
                    x_min: rectangle.x_min,
                    x_max: rectangle.x_min + horizontal_depth,
                    y_min: rectangle.y_min + pos * vertical_step,
                    y_max: rectangle.y_min + (pos + 1) * vertical_step,
                };
            } else if led < 114 {
                let pos = led - 42;
                proof {
                    lemma_step_bound(pos as int, width as int, 73);
                    lemma_step_bound(pos + 1, width as int, 73);
                }
                zone = Rectangle {
                    x_min: rectangle.x_min + pos * horizontal_step,
                    x_max: rectangle.x_min + (pos + 1) * horizontal_step,
                    y_min: rectangle.y_min + height - vertical_depth,
                    y_max: rectangle.y_min + height,
                };
            } else if led < 156 {
                let pos = led - 114;
                proof {
                    lemma_step_bound(pos as int, height as int, 42);
                    lemma_step_bound(pos + 1, height as int, 42);
                }
                zone = Rectangle {
                    x_min: rectangle.x_min + width - horizontal_depth,
                    x_max: rectangle.x_min + width,
                    y_min: rectangle.y_min + height - (pos + 1) * vertical_step,
                    y_max: rectangle.y_min + height - pos * vertical_step,
                };
            } else {
                let pos = led - 156;
                proof {
                    lemma_step_bound(pos as int, width as int, 73);
                    lemma_step_bound(pos + 1, width as int, 73);
                }
                zone = Rectangle {
                    x_min: rectangle.x_min + width - (pos + 1) * horizontal_step,
                    x_max: rectangle.x_min + width - pos * horizontal_step,
                    y_min: rectangle.y_min,
                    y_max: rectangle.y_min + vertical_depth,
                };
            }
            res.push(zone);
            led += 1;
        }
        res
    }
}

} // verus!
