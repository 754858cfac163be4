//! Selection of a capture set-up for the current desktop resolution.
//!
//! A configuration holds a list of capture specifications; the first one
//! whose `match_*` fields agree with the resolution wins, and its zero
//! width or height is filled in from the resolution. This lets one
//! configuration file serve a multi-monitor set-up.

use vstd::prelude::*;

verus! {

/// One candidate capture set-up. If the populated `match_*` fields equal
/// the resolution's values the specification applies, with zero `width` or
/// `height` meaning "the rest of the screen".
#[derive(Debug, Default, PartialEq, Copy, Clone)]
pub struct CaptureSpecification {
    /// The resolution's width to match, if any.
    pub match_width: Option<u32>,
    /// The resolution's height to match, if any.
    pub match_height: Option<u32>,
    /// The x offset of the captured region.
    pub x: u32,
    /// The y offset of the captured region.
    pub y: u32,
    /// The width of the captured region; zero means the width minus `x`.
    pub width: u32,
    /// The height of the captured region; zero means the height minus `y`.
    pub height: u32,
    /// Which display to capture.
    pub display: u32,
}

/// Whether `s` applies to a `w` by `h` resolution.
pub open spec fn spec_matches(s: CaptureSpecification, w: u32, h: u32) -> bool {
    &&& match s.match_width {
        Some(mw) => mw == w,
        None => true,
    }
    &&& match s.match_height {
        Some(mh) => mh == h,
        None => true,
    }
}

/// `s` with a zero width or height filled in from the resolution.
pub open spec fn populated(s: CaptureSpecification, w: u32, h: u32) -> CaptureSpecification {
    CaptureSpecification {
        width: if s.width == 0 {
            (w - s.x) as u32
        } else {
            s.width
        },
        height: if s.height == 0 {
            (h - s.y) as u32
        } else {
            s.height
        },
        ..s
    }
}

/// The set-up that `get_config` picks: the first matching specification,
/// populated, or a whole-screen default when none matches.
pub open spec fn get_config_spec(w: u32, h: u32, specs: Seq<CaptureSpecification>)
    -> CaptureSpecification
    decreases specs.len(),
{
    if specs.len() == 0 {
        CaptureSpecification {
            match_width: None,
            match_height: None,
            x: 0,
            y: 0,
            width: w,
            height: h,
            display: 0,
        }
    } else if spec_matches(specs[0], w, h) {
        populated(specs[0], w, h)
    } else {
        get_config_spec(w, h, specs.drop_first())
    }
}

/// The first matching specification, if any, keeps its offsets on screen,
/// so that filling in a zero width or height cannot underflow.
pub open spec fn get_config_ok(w: u32, h: u32, specs: Seq<CaptureSpecification>) -> bool
    decreases specs.len(),
{
    if specs.len() == 0 {
        true
    } else if spec_matches(specs[0], w, h) {
        (specs[0].width == 0 ==> specs[0].x <= w) && (specs[0].height == 0 ==> specs[0].y <= h)
    } else {
        get_config_ok(w, h, specs.drop_first())
    }
}

/// Pick the capture set-up for a `width` by `height` desktop: the first
/// specification whose `match_*` fields agree, with zero extents filled in
/// from the resolution, or a whole-screen default when none matches.
pub fn get_config(width: u32, height: u32, specs: &[CaptureSpecification]) -> (r:
    CaptureSpecification)
    requires
        get_config_ok(width, height, specs@),
    ensures
        r == get_config_spec(width, height, specs@),
{
    proof {
        assert(specs@.skip(0) =~= specs@);
    }
    let mut i: usize = 0;
    while i < specs.len()
        invariant
            i <= specs@.len(),
            get_config_spec(width, height, specs@.skip(i as int)) == get_config_spec(
                width,
                height,
                specs@,
            ),
            get_config_ok(width, height, specs@.skip(i as int)),
        decreases specs@.len() - i,
    {
        proof {
            assert(specs@.skip(i as int)[0] == specs@[i as int]);
        }
        let candidate = specs[i];
        let mut is_match = true;
        match candidate.match_width {
            Some(match_width) => {
                if match_width != width {
                    is_match = false;
                }
            },
            None => {},
        }
        match candidate.match_height {
            Some(match_height) => {
                if match_height != height {
                    is_match = false;
                }
            },
            None => {},
        }
        if is_match {
            let populated_width = if candidate.width == 0 {
                width - candidate.x
            } else {
                candidate.width
            };
            let populated_height = if candidate.height == 0 {
                height - candidate.y
            } else {
                candidate.height
            };
            return CaptureSpecification {
                width: populated_width,
                height: populated_height,
                ..candidate
            };
        }
        proof {
            assert(specs@.skip(i as int).drop_first() =~= specs@.skip(i + 1));
        }
        i += 1;
    }
    CaptureSpecification {
        match_width: None,
        match_height: None,
        x: 0,
        y: 0,
        width,
        height,
        display: 0,
    }
}

} // verus!
