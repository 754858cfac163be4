//! Finding the borders that bound the non-black region of an image.
//!
//! A letterboxed or pillarboxed frame has black bars the LEDs should
//! ignore. Border detection probes pixel rows and columns for the single
//! transition between black border and content, by bisection, several times
//! per side, and widens the result to cover all probes.

use vstd::prelude::*;

use crate::interface::{Image, RGB};
use crate::rectangle::Rectangle;

verus! {

/// Find the presumably single transition of `f` over `[min, max]` by
/// bisection.
///
/// The search assumes `f` changes value at most once on the range; it bails
/// out once the endpoints agree, so if `f` is constant on the range it
/// returns `max` when `f(max)` held and `min` otherwise. The result always
/// lies within the given bounds.
pub fn bisect<F: Fn(u32) -> bool>(f: F, min: u32, max: u32) -> (r: u32)
    requires
        min <= max,
        forall|x: u32| min <= x <= max ==> call_requires(f, (x,)),
    ensures
        min <= r <= max,
{
    let lo = min;
    let hi = max;
    let mut min = min;
    let mut max = max;
    let mut upper = f(min);
    let mut lower = f(max);
    while (max - min) > 1 && upper != lower
        invariant
            lo <= min <= max <= hi,
            forall|x: u32| lo <= x <= hi ==> call_requires(f, (x,)),
        decreases max - min,
    {
        upper = f(max);
        lower = f(min);
        let midpoint = min + (max - min) / 2;
        let center = f(midpoint);
        if center != lower {
            max = midpoint;
        } else {
            min = midpoint;
        }
    }

    if upper {
        return max;
    }

    min
}

/// Find the rectangle bounding the non-black region of `image`.
///
/// Each side is probed `bisections_per_side` times at evenly spaced rows
/// and columns, and the most extreme transitions win, so the rectangle
/// covers every probe's content. With `only_rectangular` set, probes that
/// disagree four or more times on any side mean the content is not a
/// rectangle, and the result is `None`; otherwise there is always a result,
/// and it lies within the image with ordered bounds.
pub fn find_borders<I: Image>(image: &I, bisections_per_side: u32, only_rectangular: bool) -> (r:
    Option<Rectangle>)
    requires
        image.inv(),
        image.spec_width() >= 1,
        image.spec_height() >= 1,
        1 <= bisections_per_side < u32::MAX,
    ensures
        !only_rectangular ==> r is Some,
        r matches Some(b) ==> b.x_min <= b.x_max < image.spec_width() && b.y_min <= b.y_max
            < image.spec_height(),
{
    let max_x = image.get_width() - 1;
    let max_y = image.get_height() - 1;
    let center_x = max_x / 2;
    let center_y = max_y / 2;

    // The most extreme transition seen so far on each side, and how often a
    // probe disagreed with the extremes accumulated before it.
    let mut x_low: u32 = 0;
    let mut x_high: u32 = 0;
    let mut y_low: u32 = 0;
    let mut y_high: u32 = 0;
    let mut transitions: [u32; 4] = [0, 0, 0, 0];

    let mut i: u32 = 0;
    while i < bisections_per_side
        invariant
            image.inv(),
            image.spec_width() >= 1,
            image.spec_height() >= 1,
            1 <= bisections_per_side < u32::MAX,
            max_x == image.spec_width() - 1,
            max_y == image.spec_height() - 1,
            center_x == max_x / 2,
            center_y == max_y / 2,
            i <= bisections_per_side,
            transitions@[0] <= i && transitions@[1] <= i && transitions@[2] <= i
                && transitions@[3] <= i,
            i > 0 ==> x_low <= center_x && center_x <= x_high <= max_x,
            i > 0 ==> y_low <= center_y && center_y <= y_high <= max_y,
        decreases bisections_per_side - i,
    {
        proof {
            let per = bisections_per_side as int + 1;
            let q_x = max_x as int / per;
            let q_y = max_y as int / per;
            assert(q_x * (i + 1) <= q_x * per) by (nonlinear_arith)
                requires
                    0 <= q_x,
                    0 <= i as int + 1 <= per,
            ;
            assert(q_x * per <= max_x as int) by (nonlinear_arith)
                requires
                    max_x as int >= 0,
                    per >= 1,
                    q_x == max_x as int / per,
            ;
            assert(q_y * (i + 1) <= q_y * per) by (nonlinear_arith)
                requires
                    0 <= q_y,
                    0 <= i as int + 1 <= per,
            ;
            assert(q_y * per <= max_y as int) by (nonlinear_arith)
                requires
                    max_y as int >= 0,
                    per >= 1,
                    q_y == max_y as int / per,
            ;
        }

        let mid_x = max_x / (bisections_per_side + 1) * (i + 1);
        let mid_y = max_y / (bisections_per_side + 1) * (i + 1);

        let row_is_black = |x: u32| -> (res: bool)
            requires
                x <= max_x,
            {
                image.get_pixel(x, mid_y) == (RGB { r: 0, g: 0, b: 0 })
            };
        let row_is_content = |x: u32| -> (res: bool)
            requires
                x <= max_x,
            {
                image.get_pixel(x, mid_y) != (RGB { r: 0, g: 0, b: 0 })
            };
        let column_is_black = |y: u32| -> (res: bool)
            requires
                y <= max_y,
            {
                image.get_pixel(mid_x, y) == (RGB { r: 0, g: 0, b: 0 })
            };
        let column_is_content = |y: u32| -> (res: bool)
            requires
                y <= max_y,
            {
                image.get_pixel(mid_x, y) != (RGB { r: 0, g: 0, b: 0 })
            };

        // Left bound: where the row stops being black.
        let r0 = bisect(row_is_black, 0, center_x);

        // Right bound: where the row becomes black again.
        let r1 = bisect(row_is_content, center_x, max_x);

        // Lower bound: where the column stops being black.
        let r2 = bisect(column_is_black, 0, center_y);

        // Upper bound: where the column becomes black again.
        let r3 = bisect(column_is_content, center_y, max_y);

        if i == 0 {
            x_low = r0;
            x_high = r1;
            y_low = r2;
            y_high = r3;
        } else {
            if x_low != r0 {
                transitions[0] = transitions[0] + 1;
            }
            if x_high != r1 {
                transitions[1] = transitions[1] + 1;
            }
            if y_low != r2 {
                transitions[2] = transitions[2] + 1;
            }
            if y_high != r3 {
                transitions[3] = transitions[3] + 1;
            }
            if r0 < x_low {
                x_low = r0;
            }
            if r1 > x_high {
                x_high = r1;
            }
            if r2 < y_low {
                y_low = r2;
            }
            if r3 > y_high {
                y_high = r3;
            }
        }
        i += 1;
    }

    // Any side disagreeing four or more times means the content is not
    // rectangular.
    if only_rectangular && (transitions[0] >= 4 || transitions[1] >= 4 || transitions[2] >= 4
        || transitions[3] >= 4) {
        return None;
    }

    // Step just inside the border for the minima, so the rectangle starts
    // on the first non-black pixel, then restore order for an all-black
    // image, where the minimum would overshoot the maximum.
    let mut b = Rectangle { x_min: 0, x_max: x_high, y_min: 0, y_max: y_high };
    b.x_min = if x_low != 0 {
        x_low + 1
    } else {
        x_low
    };
    b.y_min = if y_low != 0 {
        y_low + 1
    } else {
        y_low
    };
    if b.x_min > b.x_max {
        b.x_min = b.x_max;
    }
    if b.y_min > b.y_max {
        b.y_min = b.y_max;
    }

    Some(b)
}

} // verus!
