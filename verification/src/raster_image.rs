//! An image owning all of its pixels.

use vstd::prelude::*;

use crate::interface::{Image, RGB};

verus! {

/// A row-major pixel buffer with its dimensions.
#[derive(Default)]
pub struct RasterImage {
    width: u32,
    height: u32,
    data: Vec<RGB>,
}

impl RasterImage {
    /// The buffer holds exactly one pixel per coordinate.
    pub closed spec fn wf(&self) -> bool {
        self.data@.len() == self.width * self.height
    }

    /// Where `(x, y)` lives in the row-major buffer.
    pub closed spec fn spec_index(&self, x: int, y: int) -> int {
        y * self.width + x
    }

    /// Position of `(x, y)` in the row-major pixel buffer.
    fn index(&self, x: u32, y: u32) -> (r: usize)
        requires
            self.wf(),
            x < self.width_spec(),
            y < self.height_spec(),
        ensures
            r == self.spec_index(x as int, y as int),
            r < self.data@.len(),
    {
        let n = self.data.len();
        proof {
            assert(y * self.width + x < self.width * self.height) by (nonlinear_arith)
                requires
                    x < self.width,
                    y < self.height,
            ;
        }
        (y as usize) * (self.width as usize) + (x as usize)
    }

    /// The width, as the specification sees it.
    pub closed spec fn width_spec(&self) -> u32 {
        self.width
    }

    /// The height, as the specification sees it.
    pub closed spec fn height_spec(&self) -> u32 {
        self.height
    }

    /// The pixel at `(x, y)`, as the specification sees it.
    pub open spec fn pixel_spec(&self, x: int, y: int) -> RGB {
        self.data_view()[self.spec_index(x, y)]
    }

    /// The backing buffer.
    pub closed spec fn data_view(&self) -> Seq<RGB> {
        self.data@
    }

    /// An image of the given size with every pixel set to `color`.
    pub fn filled(width: u32, height: u32, color: RGB) -> (r: RasterImage)
        requires
            width * height <= usize::MAX,
        ensures
            r.wf(),
            r.width_spec() == width,
            r.height_spec() == height,
            forall|x: int, y: int|
                0 <= x < width && 0 <= y < height ==> r.pixel_spec(x, y) == color,
    {
        let total = (width as usize) * (height as usize);
        let mut data: Vec<RGB> = Vec::new();
        let mut i: usize = 0;
        while i < total
            invariant
                i <= total,
                data@.len() == i,
                forall|j: int| 0 <= j < i ==> data@[j] == color,
            decreases total - i,
        {
            data.push(color);
            i += 1;
        }
        let r = RasterImage { width, height, data };
        proof {
            assert forall|x: int, y: int|
                0 <= x < width && 0 <= y < height implies r.pixel_spec(x, y) == color by {
                assert(0 <= y * width + x < width * height) by (nonlinear_arith)
                    requires
                        0 <= x < width,
                        0 <= y < height,
                ;
            }
        }
        r
    }

    /// Copy any image into an owned buffer.
    pub fn new<I: Image>(img: &I) -> (r: RasterImage)
        requires
            img.inv(),
            img.spec_width() * img.spec_height() <= usize::MAX,
        ensures
            r.wf(),
            r.width_spec() == img.spec_width(),
            r.height_spec() == img.spec_height(),
            forall|x: int, y: int|
                0 <= x < img.spec_width() && 0 <= y < img.spec_height() ==> r.pixel_spec(x, y)
                    == img.spec_pixel(x, y),
    {
        let width = img.get_width();
        let height = img.get_height();
        let mut data: Vec<RGB> = Vec::new();
        let mut y: u32 = 0;
        while y < height
            invariant
                img.inv(),
                width == img.spec_width(),
                height == img.spec_height(),
                width * height <= usize::MAX,
                y <= height,
                data@.len() == y * width,
                forall|px: int, py: int|
                    0 <= px < width && 0 <= py < y ==> data@[py * width + px] == img.spec_pixel(
                        px,
                        py,
                    ),
            decreases height - y,
        {
            let mut x: u32 = 0;
            while x < width
                invariant
                    img.inv(),
                    width == img.spec_width(),
                    height == img.spec_height(),
                    width * height <= usize::MAX,
                    y < height,
                    x <= width,
                    data@.len() == y * width + x,
                    forall|px: int, py: int|
                        0 <= px < width && 0 <= py < y ==> data@[py * width + px]
                            == img.spec_pixel(px, py),
                    forall|px: int| 0 <= px < x ==> data@[y * width + px] == img.spec_pixel(px, y as int),
                decreases width - x,
            {
                proof {
                    assert(y * width + x < width * height) by (nonlinear_arith)
                        requires
                            x < width,
                            y < height,
                    ;
                }
                data.push(img.get_pixel(x, y));
                proof {
                    assert forall|px: int, py: int|
                        0 <= px < width && 0 <= py < y implies data@[py * width + px]
                        == img.spec_pixel(px, py) by {
                        assert(0 <= py * width + px < y * width) by (nonlinear_arith)
                            requires
                                0 <= px < width,
                                0 <= py < y,
                        ;
                    }
                }
                x += 1;
            }
            proof {
                assert(y * width + width == (y + 1) * width) by (nonlinear_arith);
            }
            y += 1;
        }
        let r = RasterImage { width, height, data };
        proof {
            assert(height * width == width * height) by (nonlinear_arith);
        }
        r
    }

    /// Set one pixel; the coordinate must lie inside the image.
    pub fn set_pixel(&mut self, x: u32, y: u32, color: RGB)
        requires
            old(self).wf(),
            x < old(self).width_spec(),
            y < old(self).height_spec(),
        ensures
            final(self).wf(),
            final(self).width_spec() == old(self).width_spec(),
            final(self).height_spec() == old(self).height_spec(),
            final(self).data_view() == old(self).data_view().update(
                old(self).spec_index(x as int, y as int),
                color,
            ),
            final(self).pixel_spec(x as int, y as int) == color,
            forall|px: int, py: int|
                0 <= px < old(self).width_spec() && 0 <= py < old(self).height_spec() && !(px == x
                    && py == y) ==> final(self).pixel_spec(px, py) == old(self).pixel_spec(px, py),
    {
        let index = self.index(x, y);
        self.data[index] = color;
        proof {
            assert forall|px: int, py: int|
                0 <= px < self.width && 0 <= py < self.height && !(px == x && py == y) implies
                self.pixel_spec(px, py) == old(self).pixel_spec(px, py) by {
                assert(py * self.width + px != y * self.width + x && 0 <= py * self.width + px
                    < self.width * self.height) by (nonlinear_arith)
                    requires
                        0 <= px < self.width,
                        0 <= py < self.height,
                        !(px == x && py == y),
                        x < self.width,
                        y < self.height,
                ;
            }
        }
    }

    /// Fill the rectangle `[x_min, x_max) × [y_min, y_max)` with `color`.
    pub fn fill_rectangle(&mut self, x_min: u32, x_max: u32, y_min: u32, y_max: u32, color: RGB)
        requires
            old(self).wf(),
            x_min <= x_max <= old(self).width_spec(),
            y_min <= y_max <= old(self).height_spec(),
        ensures
            final(self).wf(),
            final(self).width_spec() == old(self).width_spec(),
            final(self).height_spec() == old(self).height_spec(),
            forall|px: int, py: int|
                0 <= px < old(self).width_spec() && 0 <= py < old(self).height_spec() ==> final(self).pixel_spec(px, py) == (if x_min <= px < x_max && y_min <= py < y_max {
                    color
                } else {
                    old(self).pixel_spec(px, py)
                }),
    {
        let mut y = y_min;
        while y < y_max
            invariant
                self.wf(),
                x_min <= x_max <= self.width_spec(),
                y_min <= y <= y_max <= self.height_spec(),
                self.width_spec() == old(self).width_spec(),
                self.height_spec() == old(self).height_spec(),
                forall|px: int, py: int|
                    0 <= px < self.width_spec() && 0 <= py < self.height_spec()
                        ==> self.pixel_spec(px, py) == (if x_min <= px < x_max && y_min <= py < y {
                        color
                    } else {
                        old(self).pixel_spec(px, py)
                    }),
            decreases y_max - y,
        {
            let mut x = x_min;
            while x < x_max
                invariant
                    self.wf(),
                    x_min <= x <= x_max <= self.width_spec(),
                    y_min <= y < y_max <= self.height_spec(),
                    self.width_spec() == old(self).width_spec(),
                    self.height_spec() == old(self).height_spec(),
                    forall|px: int, py: int|
                        0 <= px < self.width_spec() && 0 <= py < self.height_spec()
                            ==> self.pixel_spec(px, py) == (if (x_min <= px < x_max && y_min <= py
                            < y) || (x_min <= px < x && py == y) {
                            color
                        } else {
                            old(self).pixel_spec(px, py)
                        }),
                decreases x_max - x,
            {
                self.set_pixel(x, y, color);
                x += 1;
            }
            y += 1;
        }
    }

    /// An image built from rows of pixels; every row must be as long as the
    /// first.
    pub fn from_2d_vec(data: &Vec<Vec<RGB>>) -> (r: RasterImage)
        requires
            data@.len() > 0,
            data@.len() * data@[0]@.len() <= usize::MAX,
            data@[0]@.len() <= u32::MAX,
            data@.len() <= u32::MAX,
            forall|y: int| 0 <= y < data@.len() ==> (#[trigger] data@[y])@.len() == data@[0]@.len(),
        ensures
            r.wf(),
            r.width_spec() == data@[0]@.len(),
            r.height_spec() == data@.len(),
            forall|x: int, y: int|
                0 <= x < r.width_spec() && 0 <= y < r.height_spec() ==> r.pixel_spec(x, y)
                    == data@[y]@[x],
    {
        let height = data.len() as u32;
        let width = data[0].len() as u32;
        proof {
            assert(width * height == height * width) by (nonlinear_arith);
        }
        let mut pixels: Vec<RGB> = Vec::new();
        let mut y: u32 = 0;
        while y < height
            invariant
                height == data@.len(),
                width == data@[0]@.len(),
                width * height <= usize::MAX,
                forall|j: int| 0 <= j < data@.len() ==> (#[trigger] data@[j])@.len() == width,
                y <= height,
                pixels@.len() == y * width,
                forall|px: int, py: int|
                    0 <= px < width && 0 <= py < y ==> pixels@[py * width + px] == data@[py]@[px],
            decreases height - y,
        {
            let row = &data[y as usize];
            let mut x: u32 = 0;
            while x < width
                invariant
                    height == data@.len(),
                    width == data@[0]@.len(),
                    width * height <= usize::MAX,
                    forall|j: int| 0 <= j < data@.len() ==> (#[trigger] data@[j])@.len() == width,
                    y < height,
                    row == &data@[y as int],
                    x <= width,
                    pixels@.len() == y * width + x,
                    forall|px: int, py: int|
                        0 <= px < width && 0 <= py < y ==> pixels@[py * width + px]
                            == data@[py]@[px],
                    forall|px: int| 0 <= px < x ==> pixels@[y * width + px] == data@[y as int]@[px],
                decreases width - x,
            {
                proof {
                    assert(y * width + x < width * height) by (nonlinear_arith)
                        requires
                            x < width,
                            y < height,
                    ;
                }
                pixels.push(row[x as usize]);
                proof {
                    assert forall|px: int, py: int|
                        0 <= px < width && 0 <= py < y implies pixels@[py * width + px]
                        == data@[py]@[px] by {
                        assert(0 <= py * width + px < y * width) by (nonlinear_arith)
                            requires
                                0 <= px < width,
                                0 <= py < y,
                        ;
                    }
                }
                x += 1;
            }
            proof {
                assert(y * width + width == (y + 1) * width) by (nonlinear_arith);
            }
            y += 1;
        }
        let r = RasterImage { width, height, data: pixels };
        proof {
            assert(height * width == width * height) by (nonlinear_arith);
        }
        r
    }
}

impl Image for RasterImage {
    open spec fn inv(&self) -> bool {
        self.wf()
    }

    open spec fn spec_width(&self) -> u32 {
        self.width_spec()
    }

    open spec fn spec_height(&self) -> u32 {
        self.height_spec()
    }

    open spec fn spec_pixel(&self, x: int, y: int) -> RGB {
        self.pixel_spec(x, y)
    }

    fn get_width(&self) -> (r: u32) {
        self.width
    }

    fn get_height(&self) -> (r: u32) {
        self.height
    }

    fn get_pixel(&self, x: u32, y: u32) -> (r: RGB) {
        let index = self.index(x, y);
        self.data[index]
    }
}

} // verus!
