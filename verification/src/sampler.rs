//! Precomputed sample points and zone-average colors.
//!
//! For every LED zone the sampler precomputes which pixels to probe — an
//! equidistant grid, optionally diagonalized so the probes do not line up
//! across zones — and then averages the probed pixels into one color per
//! zone.

use vstd::prelude::*;

use vstd::arithmetic::div_mod::lemma_fundamental_div_mod;

use crate::interface::Image;
use crate::rectangle::Rectangle;
use crate::types::RGB;

verus! {

/// One precomputed sample coordinate.
#[derive(Copy, Clone, Debug, PartialEq, Eq, Structural)]
pub struct Index {
    /// Pixel column.
    pub x: u32,
    /// Pixel row.
    pub y: u32,
}

/// How many grid steps of size `d` fit in `[lo, hi)`.
pub open spec fn axis_count(lo: u32, hi: u32, d: u32) -> int {
    if hi <= lo {
        0
    } else {
        ((hi - lo) + d - 1) / (d as int)
    }
}

/// Sample point `(ix, iy)` of the grid over `zone`: plain grid coordinates,
/// or — diagonalized — shifted by half a step per row and column (plus the
/// zone's index) and wrapped within the zone, so probes do not form
/// horizontal or vertical lines across zones.
pub open spec fn point_spec(
    zone: Rectangle,
    zone_idx: int,
    d: u32,
    diagonalize: bool,
    ix: int,
    iy: int,
) -> Index {
    if !diagonalize {
        Index { x: (zone.x_min + ix * d) as u32, y: (zone.y_min + iy * d) as u32 }
    } else {
        let w = zone.x_max - zone.x_min;
        let h = zone.y_max - zone.y_min;
        let dx = iy * d / 2;
        let dy = ix * d / 2 + zone_idx;
        Index {
            x: ((ix * d + dx) % w + zone.x_min) as u32,
            y: ((iy * d + dy) % h + zone.y_min) as u32,
        }
    }
}

/// Grid step `k` lies before `hi` exactly when the axis has more than `k`
/// points.
proof fn lemma_axis_count(lo: u32, hi: u32, d: u32, k: int)
    requires
        d >= 1,
        lo <= hi,
        0 <= k,
    ensures
        (k < axis_count(lo, hi, d)) <==> (lo + k * d < hi),
{
    if hi <= lo {
    } else {
        let span = hi - lo;
        assert((k < (span + d - 1) / (d as int)) <==> (k * d < span)) by (nonlinear_arith)
            requires
                d >= 1,
                span >= 1,
                0 <= k,
        ;
    }
}

/// The channel-wise sums of the probed pixels.
pub open spec fn zone_sum<I: Image>(img: I, pts: Seq<Index>) -> (int, int, int)
    decreases pts.len(),
{
    if pts.len() == 0 {
        (0, 0, 0)
    } else {
        let rest = zone_sum(img, pts.drop_first());
        let p = img.spec_pixel(pts[0].x as int, pts[0].y as int);
        (rest.0 + p.r, rest.1 + p.g, rest.2 + p.b)
    }
}

/// Probing one more point adds its channels to the sums.
proof fn lemma_zone_sum_push<I: Image>(img: I, pts: Seq<Index>, p: Index)
    ensures
        zone_sum(img, pts.push(p)).0 == zone_sum(img, pts).0 + img.spec_pixel(
            p.x as int,
            p.y as int,
        ).r,
        zone_sum(img, pts.push(p)).1 == zone_sum(img, pts).1 + img.spec_pixel(
            p.x as int,
            p.y as int,
        ).g,
        zone_sum(img, pts.push(p)).2 == zone_sum(img, pts).2 + img.spec_pixel(
            p.x as int,
            p.y as int,
        ).b,
    decreases pts.len(),
{
    if pts.len() == 0 {
        assert(pts.push(p).drop_first() =~= pts);
    } else {
        assert(pts.push(p).drop_first() =~= pts.drop_first().push(p));
        lemma_zone_sum_push(img, pts.drop_first(), p);
    }
}

/// Each channel sum stays within 255 per probed point.
proof fn lemma_zone_sum_bound<I: Image>(img: I, pts: Seq<Index>)
    ensures
        0 <= zone_sum(img, pts).0 <= 255 * pts.len(),
        0 <= zone_sum(img, pts).1 <= 255 * pts.len(),
        0 <= zone_sum(img, pts).2 <= 255 * pts.len(),
    decreases pts.len(),
{
    if pts.len() > 0 {
        lemma_zone_sum_bound(img, pts.drop_first());
    }
}

/// The average color of the probed pixels, channel by channel; black for a
/// zone with no probes.
pub open spec fn zone_average<I: Image>(img: I, pts: Seq<Index>) -> RGB {
    if pts.len() == 0 {
        RGB { r: 0, g: 0, b: 0 }
    } else {
        let sums = zone_sum(img, pts);
        RGB {
            r: (sums.0 / pts.len() as int) as u8,
            g: (sums.1 / pts.len() as int) as u8,
            b: (sums.2 / pts.len() as int) as u8,
        }
    }
}

/// Precomputed sample points, one list per zone.
pub struct Sampler {
    indices: Vec<Vec<Index>>,
}

impl Sampler {
    /// The per-zone sample point lists.
    pub closed spec fn spec_indices(&self) -> Seq<Seq<Index>> {
        Seq::new(self.indices@.len(), |i: int| self.indices@[i]@)
    }

    /// Precompute the sample grid for every zone: points every
    /// `distance_between_samples` pixels, row-major, optionally
    /// diagonalized.
    pub fn make_sampler(
        zones: &[Rectangle],
        distance_between_samples: u32,
        diagonalize_samples: bool,
    ) -> (r: Sampler)
        requires
            distance_between_samples >= 1,
            zones@.len() <= 0xFFFF_FFFF,
            forall|i: int|
                0 <= i < zones@.len() ==> (#[trigger] zones@[i]).x_min <= zones@[i].x_max
                    && zones@[i].y_min <= zones@[i].y_max,
        ensures
            r.spec_indices().len() == zones@.len(),
            forall|i: int|
                0 <= i < zones@.len() ==> (#[trigger] r.spec_indices()[i]).len() == axis_count(
                    zones@[i].y_min,
                    zones@[i].y_max,
                    distance_between_samples,
                ) * axis_count(
                    zones@[i].x_min,
                    zones@[i].x_max,
                    distance_between_samples,
                ),
            forall|i: int, j: int|
                0 <= i < zones@.len() && 0 <= j < r.spec_indices()[i].len() ==> (#[trigger] r.spec_indices()[i][j])
                    == point_spec(
                    zones@[i],
                    i,
                    distance_between_samples,
                    diagonalize_samples,
                    j % axis_count(zones@[i].x_min, zones@[i].x_max, distance_between_samples),
                    j / axis_count(zones@[i].x_min, zones@[i].x_max, distance_between_samples),
                ),
    {
        let d = distance_between_samples;
        let mut indices: Vec<Vec<Index>> = Vec::new();
        let mut i: usize = 0;
        while i < zones.len()
            invariant
                d == distance_between_samples,
                d >= 1,
                zones@.len() <= 0xFFFF_FFFF,
                forall|z: int|
                    0 <= z < zones@.len() ==> (#[trigger] zones@[z]).x_min <= zones@[z].x_max
                        && zones@[z].y_min <= zones@[z].y_max,
                i <= zones@.len(),
                indices@.len() == i,
                forall|z: int|
                    0 <= z < i ==> (#[trigger] indices@[z])@.len() == axis_count(
                        zones@[z].y_min,
                        zones@[z].y_max,
                        d,
                    ) * axis_count(zones@[z].x_min, zones@[z].x_max, d),
                forall|z: int, j: int|
                    0 <= z < i && 0 <= j < indices@[z]@.len() ==> (#[trigger] indices@[z]@[j])
                        == point_spec(
                        zones@[z],
                        z,
                        d,
                        diagonalize_samples,
                        j % axis_count(zones@[z].x_min, zones@[z].x_max, d),
                        j / axis_count(zones@[z].x_min, zones@[z].x_max, d),
                    ),
            decreases zones@.len() - i,
        {
            let zone = zones[i];
            let ghost xcount = axis_count(zone.x_min, zone.x_max, d);
            let ghost ycount = axis_count(zone.y_min, zone.y_max, d);
            let mut pts: Vec<Index> = Vec::new();
            let mut iy: u32 = 0;
            let mut vy: u64 = zone.y_min as u64;
            while vy < zone.y_max as u64
                invariant
                    d >= 1,
                    zone.x_min <= zone.x_max,
                    zone.y_min <= zone.y_max,
                    xcount == axis_count(zone.x_min, zone.x_max, d),
                    ycount == axis_count(zone.y_min, zone.y_max, d),
                    vy == zone.y_min + iy * d,
                    iy <= ycount,
                    i < zones@.len(),
                    zones@.len() <= 0xFFFF_FFFF,
                    zone == zones@[i as int],
                    pts@.len() == iy * xcount,
                    forall|jy: int, jx: int|
                        0 <= jy < iy && 0 <= jx < xcount ==> pts@[jy * xcount + jx] == point_spec(
                            zone,
                            i as int,
                            d,
                            diagonalize_samples,
                            jx,
                            jy,
                        ),
                decreases zone.y_max as int + d - vy,
            {
                proof {
                    lemma_axis_count(zone.y_min, zone.y_max, d, iy as int);
                }
                let mut ix: u32 = 0;
                let mut vx: u64 = zone.x_min as u64;
                while vx < zone.x_max as u64
                    invariant
                        d >= 1,
                        zone.x_min <= zone.x_max,
                        zone.y_min <= zone.y_max,
                        xcount == axis_count(zone.x_min, zone.x_max, d),
                        ycount == axis_count(zone.y_min, zone.y_max, d),
                        vy == zone.y_min + iy * d,
                        iy < ycount,
                        vy < zone.y_max,
                        vx == zone.x_min + ix * d,
                        ix <= xcount,
                        i < zones@.len(),
                        zones@.len() <= 0xFFFF_FFFF,
                        zone == zones@[i as int],
                        pts@.len() == iy * xcount + ix,
                        forall|jy: int, jx: int|
                            0 <= jy < iy && 0 <= jx < xcount ==> pts@[jy * xcount + jx]
                                == point_spec(zone, i as int, d, diagonalize_samples, jx, jy),
                        forall|jx: int|
                            0 <= jx < ix ==> pts@[iy * xcount + jx] == point_spec(
                                zone,
                                i as int,
                                d,
                                diagonalize_samples,
                                jx,
                                iy as int,
                            ),
                    decreases zone.x_max as int + d - vx,
                {
                    proof {
                        lemma_axis_count(zone.x_min, zone.x_max, d, ix as int);
                    }
                    let p: Index;
                    if diagonalize_samples {
                        let w = (zone.x_max - zone.x_min) as u64;
                        let h = (zone.y_max - zone.y_min) as u64;
                        let x0 = (ix as u64) * (d as u64);
                        let y0 = (iy as u64) * (d as u64);
                        let dx = (iy as u64) * (d as u64) / 2;
                        let dy = (ix as u64) * (d as u64) / 2 + (i as u64);
                        let px = ((x0 + dx) % w + zone.x_min as u64) as u32;
                        let py = ((y0 + dy) % h + zone.y_min as u64) as u32;
                        p = Index { x: px, y: py };
                    } else {
                        p = Index { x: vx as u32, y: vy as u32 };
                    }
                    pts.push(p);
                    proof {
                        assert(p == point_spec(
                            zone,
                            i as int,
                            d,
                            diagonalize_samples,
                            ix as int,
                            iy as int,
                        ));
                        assert forall|jy: int, jx: int|
                            0 <= jy < iy && 0 <= jx < xcount implies pts@[jy * xcount + jx]
                            == point_spec(zone, i as int, d, diagonalize_samples, jx, jy) by {
                            assert(0 <= jy * xcount + jx < iy * xcount) by (nonlinear_arith)
                                requires
                                    0 <= jx < xcount,
                                    0 <= jy < iy,
                            ;
                        }
                    }
                    proof {
                        assert((ix + 1) * d == ix * d + d) by (nonlinear_arith);
                        assert(ix <= ix * d) by (nonlinear_arith)
                            requires
                                d >= 1,
                                0 <= ix,
                        ;
                    }
                    ix += 1;
                    vx += d as u64;
                }
                proof {
                    lemma_axis_count(zone.x_min, zone.x_max, d, ix as int);
                    assert(ix == xcount);
                    assert(iy * xcount + xcount == (iy + 1) * xcount) by (nonlinear_arith);
                }
                proof {
                    assert((iy + 1) * d == iy * d + d) by (nonlinear_arith);
                    assert(iy <= iy * d) by (nonlinear_arith)
                        requires
                            d >= 1,
                            0 <= iy,
                    ;
                }
                iy += 1;
                vy += d as u64;
            }
            proof {
                lemma_axis_count(zone.y_min, zone.y_max, d, iy as int);
                assert(iy == ycount);
            }
            indices.push(pts);
            proof {
                assert forall|j: int| 0 <= j < pts@.len() implies pts@[j] == point_spec(
                    zone,
                    i as int,
                    d,
                    diagonalize_samples,
                    j % xcount,
                    j / xcount,
                ) by {
                    assert(xcount > 0) by (nonlinear_arith)
                        requires
                            0 <= j < ycount * xcount,
                            0 <= xcount,
                            0 <= ycount,
                    ;
                    lemma_fundamental_div_mod(j, xcount);
                    let jy = j / xcount;
                    let jx = j % xcount;
                    assert(0 <= jy < ycount) by (nonlinear_arith)
                        requires
                            0 <= j < ycount * xcount,
                            xcount > 0,
                            j == xcount * jy + jx,
                            0 <= jx < xcount,
                    ;
                    assert(pts@[jy * xcount + jx] == point_spec(
                        zone,
                        i as int,
                        d,
                        diagonalize_samples,
                        jx,
                        jy,
                    ));
                }
            }
            i += 1;
        }
        Sampler { indices }
    }

    /// Average every zone's probed pixels into `res`: entry `i` becomes the
    /// zone-`i` average (black for a zone without probes); entries past the
    /// zone count keep their old values.
    pub fn sample_into<I: Image>(&self, image: &I, res: &mut Vec<RGB>)
        requires
            image.inv(),
            old(res)@.len() >= self.spec_indices().len(),
            forall|i: int, j: int|
                0 <= i < self.spec_indices().len() && 0 <= j < self.spec_indices()[i].len()
                    ==> (#[trigger] self.spec_indices()[i][j]).x < image.spec_width()
                    && self.spec_indices()[i][j].y < image.spec_height(),
            forall|i: int|
                0 <= i < self.spec_indices().len() ==> (#[trigger] self.spec_indices()[i]).len()
                    <= 0xFFFF_FFFF,
        ensures
            final(res)@.len() == old(res)@.len(),
            forall|i: int|
                0 <= i < self.spec_indices().len() ==> final(res)@[i] == zone_average(
                    *image,
                    self.spec_indices()[i],
                ),
            forall|i: int|
                self.spec_indices().len() <= i < old(res)@.len() ==> final(res)@[i] == old(
                    res,
                )@[i],
    {
        let mut i: usize = 0;
        while i < self.indices.len()
            invariant
                image.inv(),
                res@.len() == old(res)@.len(),
                res@.len() >= self.spec_indices().len(),
                i <= self.spec_indices().len(),
                forall|z: int, j: int|
                    0 <= z < self.spec_indices().len() && 0 <= j < self.spec_indices()[z].len()
                        ==> (#[trigger] self.spec_indices()[z][j]).x < image.spec_width()
                        && self.spec_indices()[z][j].y < image.spec_height(),
                forall|z: int|
                    0 <= z < self.spec_indices().len() ==> (#[trigger] self.spec_indices()[z]).len()
                        <= 0xFFFF_FFFF,
                forall|z: int|
                    0 <= z < i ==> res@[z] == zone_average(*image, self.spec_indices()[z]),
                forall|z: int| i <= z < res@.len() ==> res@[z] == old(res)@[z],
            decreases self.spec_indices().len() - i,
        {
            let pts = &self.indices[i];
            proof {
                assert(self.spec_indices()[i as int].len() <= 0xFFFF_FFFF);
            }
            let mut sum_red: u64 = 0;
            let mut sum_green: u64 = 0;
            let mut sum_blue: u64 = 0;
            let mut t: u64 = 0;
            let mut j: usize = 0;
            while j < pts.len()
                invariant
                    image.inv(),
                    i < self.spec_indices().len(),
                    pts@ == self.spec_indices()[i as int],
                    j <= pts@.len(),
                    pts@.len() <= 0xFFFF_FFFF,
                    forall|z: int, jj: int|
                        0 <= z < self.spec_indices().len() && 0 <= jj < self.spec_indices()[z].len()
                            ==> (#[trigger] self.spec_indices()[z][jj]).x < image.spec_width()
                            && self.spec_indices()[z][jj].y < image.spec_height(),
                    t == j,
                    sum_red == zone_sum(*image, pts@.subrange(0, j as int)).0,
                    sum_green == zone_sum(*image, pts@.subrange(0, j as int)).1,
                    sum_blue == zone_sum(*image, pts@.subrange(0, j as int)).2,
                    sum_red <= 255 * j,
                    sum_green <= 255 * j,
                    sum_blue <= 255 * j,
                decreases pts@.len() - j,
            {
                let point = pts[j];
                let pixel = image.get_pixel(point.x, point.y);
                sum_red = sum_red + pixel.r as u64;
                sum_green = sum_green + pixel.g as u64;
                sum_blue = sum_blue + pixel.b as u64;
                t = t + 1;
                proof {
                    let sub = pts@.subrange(0, j as int);
                    lemma_zone_sum_push(*image, sub, pts@[j as int]);
                    assert(pts@.subrange(0, j + 1) =~= sub.push(pts@[j as int]));
                }
                j += 1;
            }
            proof {
                assert(pts@.subrange(0, pts@.len() as int) =~= pts@);
            }
            if t == 0 {
                res[i] = RGB { r: 0, g: 0, b: 0 };
            } else {
                proof {
                    assert(sum_red / t <= 255 && sum_green / t <= 255 && sum_blue / t <= 255)
                        by (nonlinear_arith)
                        requires
                            t >= 1,
                            sum_red <= 255 * t,
                            sum_green <= 255 * t,
                            sum_blue <= 255 * t,
                    ;
                }
                res[i] = RGB {
                    r: (sum_red / t) as u8,
                    g: (sum_green / t) as u8,
                    b: (sum_blue / t) as u8,
                };
            }
            i += 1;
        }
    }

    /// The zone averages as a fresh vector, one color per zone.
    pub fn sample<I: Image>(&self, image: &I) -> (r: Vec<RGB>)
        requires
            image.inv(),
            forall|i: int, j: int|
                0 <= i < self.spec_indices().len() && 0 <= j < self.spec_indices()[i].len()
                    ==> (#[trigger] self.spec_indices()[i][j]).x < image.spec_width()
                    && self.spec_indices()[i][j].y < image.spec_height(),
            forall|i: int|
                0 <= i < self.spec_indices().len() ==> (#[trigger] self.spec_indices()[i]).len()
                    <= 0xFFFF_FFFF,
        ensures
            r@.len() == self.spec_indices().len(),
            forall|i: int|
                0 <= i < self.spec_indices().len() ==> r@[i] == zone_average(
                    *image,
                    self.spec_indices()[i],
                ),
    {
        let mut res: Vec<RGB> = Vec::new();
        let mut i: usize = 0;
        let count = self.indices.len();
        while i < count
            invariant
                count == self.spec_indices().len(),
                i <= count,
                res@.len() == i,
            decreases count - i,
        {
            res.push(RGB { r: 0, g: 0, b: 0 });
            i += 1;
        }
        self.sample_into(image, &mut res);
        res
    }
}

} // verus!
