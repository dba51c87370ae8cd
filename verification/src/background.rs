//! Cleaning up scanned card pictures: finding the green table cloth in the
//! corners of a picture and painting it white.

use vstd::prelude::*;

verus! {

/// Largest difference in a channel between two colours that count as close.
pub const CLOSE_BY: u8 = 25;

/// Whether a colour is a green of the table cloth: strong in green, weak in
/// red and blue.
pub open spec fn greenish(r: u8, g: u8, b: u8) -> bool {
    g > 120 && r < 100 && b < 100
}

/// Whether two channel values differ by 25 at most.
pub open spec fn channel_close(a: u8, b: u8) -> bool {
    a - b <= 25 && b - a <= 25
}

/// Whether two colours are close in each of their three channels.
pub open spec fn close_colors(a: Seq<u8>, b: Seq<u8>) -> bool {
    channel_close(a[0], b[0]) && channel_close(a[1], b[1]) && channel_close(a[2], b[2])
}

/// Tells whether a colour, given as red, green and blue, is a green of the
/// table cloth.
pub fn is_greenish(rgb: [u8; 3]) -> (r: bool)
    ensures
        r == greenish(rgb@[0], rgb@[1], rgb@[2]),
{
    rgb[1] > 120 && rgb[0] < 100 && rgb[2] < 100
}

/// Tells whether two channel values differ by 25 at most.
fn near(a: u8, b: u8) -> (r: bool)
    ensures
        r == channel_close(a, b),
{
    if a >= b {
        a - b <= 25
    } else {
        b - a <= 25
    }
}

/// Tells whether two colours differ by 25 at most in each of red, green and
/// blue.
pub fn color_close(a: [u8; 3], b: [u8; 3]) -> (r: bool)
    ensures
        r == close_colors(a@, b@),
{
    near(a[0], b[0]) && near(a[1], b[1]) && near(a[2], b[2])
}

/// A picture as rows of pixels, each pixel four bytes: red, green, blue and
/// alpha.
#[derive(Debug)]
pub struct Raster {
    width: u32,
    height: u32,
    data: Vec<u8>,
}

/// A picture as a mathematical value.
#[verifier::ext_equal]
pub struct RasterView {
    pub width: int,
    pub height: int,
    /// The bytes of the pixels, row after row.
    pub data: Seq<u8>,
}

impl RasterView {
    /// Number of pixels.
    pub open spec fn count(self) -> int {
        self.width * self.height
    }

    /// The data hold four bytes for each pixel.
    pub open spec fn well_formed(self) -> bool {
        self.data.len() == 4 * self.count()
    }

    /// The four bytes of pixel number `i`, counting along the rows.
    pub open spec fn pixel(self, i: int) -> Seq<u8> {
        self.data.subrange(4 * i, 4 * i + 4)
    }

    /// The number of the pixel in column `x` of row `y`.
    pub open spec fn index_of(self, x: int, y: int) -> int {
        y * self.width + x
    }

    /// The red, green and blue of pixel number `i`.
    pub open spec fn rgb(self, i: int) -> Seq<u8> {
        self.data.subrange(4 * i, 4 * i + 3)
    }

    /// Whether pixel number `i` is a green of the table cloth.
    pub open spec fn green_at(self, i: int) -> bool {
        greenish(self.data[4 * i], self.data[4 * i + 1], self.data[4 * i + 2])
    }

    /// The numbers of the four corner pixels: top left, top right, bottom
    /// left, bottom right.
    pub open spec fn corners(self) -> Seq<int> {
        seq![
            0int,
            self.width - 1,
            (self.height - 1) * self.width,
            self.count() - 1,
        ]
    }

    /// The colour of the first corner that is green, from corner number
    /// `from` on.
    pub open spec fn green_corner_from(self, from: int) -> Option<Seq<u8>>
        decreases 4 - from,
    {
        if from < 0 || from >= 4 {
            None
        } else if self.green_at(self.corners()[from]) {
            Some(self.rgb(self.corners()[from]))
        } else {
            self.green_corner_from(from + 1)
        }
    }

    /// The colour of the background: that of the first green corner, if the
    /// picture has pixels and a green corner.
    pub open spec fn background(self) -> Option<Seq<u8>> {
        if self.count() == 0 {
            None
        } else {
            self.green_corner_from(0)
        }
    }

    /// The picture with every pixel that is close to `bg` painted white and
    /// opaque.
    pub open spec fn whitened(self, bg: Seq<u8>) -> RasterView {
        RasterView {
            data: Seq::new(
                self.data.len(),
                |k: int|
                    if close_colors(self.rgb(k / 4), bg) {
                        255u8
                    } else {
                        self.data[k]
                    },
            ),
            ..self
        }
    }
}

impl View for Raster {
    type V = RasterView;

    closed spec fn view(&self) -> RasterView {
        RasterView { width: self.width as int, height: self.height as int, data: self.data@ }
    }
}

impl Raster {
    #[verifier::type_invariant]
    spec fn holds_its_pixels(self) -> bool {
        self.data@.len() == 4 * (self.width * self.height)
    }

    /// Makes a picture of the given size from the bytes of its pixels, row
    /// after row, four bytes a pixel. `None` unless there are exactly four
    /// bytes for each pixel.
    pub fn from_raw(width: u32, height: u32, data: Vec<u8>) -> (r: Option<Raster>)
        ensures
            r is Some <==> data@.len() == 4 * (width * height),
            r matches Some(image) ==> image@ == (RasterView {
                width: width as int,
                height: height as int,
                data: data@,
            }) && image@.well_formed(),
    {
        assert(width * height <= 0xFFFF_FFFF * 0xFFFF_FFFF) by (nonlinear_arith)
            requires
                0 <= width <= 0xFFFF_FFFF,
                0 <= height <= 0xFFFF_FFFF,
        ;
        let wanted: u128 = 4 * ((width as u128) * (height as u128));
        if (data.len() as u128) != wanted {
            return None;
        }
        Some(Raster { width, height, data })
    }

    /// Gives the bytes of the pixels back.
    pub fn into_raw(self) -> (data: Vec<u8>)
        ensures
            data@ == self@.data,
    {
        self.data
    }

    /// Width in pixels.
    pub fn width(&self) -> (w: u32)
        ensures
            w == self@.width,
    {
        self.width
    }

    /// Height in pixels.
    pub fn height(&self) -> (h: u32)
        ensures
            h == self@.height,
    {
        self.height
    }

    /// The place in the data of the pixel in column `x` of row `y`.
    fn offset_of(&self, x: u32, y: u32) -> (at: usize)
        requires
            x < self@.width,
            y < self@.height,
        ensures
            at == 4 * self@.index_of(x as int, y as int),
            at + 4 <= self@.data.len(),
            self@.well_formed(),
    {
        proof {
            use_type_invariant(self);
            assert(y * self.width + x + 1 <= self.width * self.height && 0 <= y * self.width)
                by (nonlinear_arith)
                requires
                    0 <= x < self.width,
                    0 <= y < self.height,
            ;
        }
        let len = self.data.len();
        assert(4 * (y * self.width + x) + 4 <= len);
        let row: usize = (y as usize) * (self.width as usize);
        4 * (row + (x as usize))
    }

    /// The pixel in column `x` of row `y`, if the picture has one there.
    pub fn get_pixel(&self, x: u32, y: u32) -> (r: Option<[u8; 4]>)
        ensures
            r is Some <==> x < self@.width && y < self@.height,
            r matches Some(px) ==> px@ == self@.pixel(self@.index_of(x as int, y as int)),
    {
        if x >= self.width || y >= self.height {
            return None;
        }
        let at = self.offset_of(x, y);
        let px = [self.data[at], self.data[at + 1], self.data[at + 2], self.data[at + 3]];
        assert(px@ =~= self@.pixel(self@.index_of(x as int, y as int)));
        Some(px)
    }

    /// Sets the pixel in column `x` of row `y`; tells whether the picture
    /// has a pixel there.
    pub fn put_pixel(&mut self, x: u32, y: u32, px: [u8; 4]) -> (done: bool)
        ensures
            done == (x < old(self)@.width && y < old(self)@.height),
            !done ==> final(self)@ == old(self)@,
            done ==> final(self)@ == (RasterView {
                data: Seq::new(
                    old(self)@.data.len(),
                    |k: int|
                        if k / 4 == old(self)@.index_of(x as int, y as int) {
                            px@[k % 4]
                        } else {
                            old(self)@.data[k]
                        },
                ),
                ..old(self)@
            }),
    {
        if x >= self.width || y >= self.height {
            return false;
        }
        let at = self.offset_of(x, y);
        let ghost before = self@;
        self.data[at] = px[0];
        self.data[at + 1] = px[1];
        self.data[at + 2] = px[2];
        self.data[at + 3] = px[3];
        proof {
            assert(self.data@ =~= Seq::new(
                before.data.len(),
                |k: int|
                    if k / 4 == before.index_of(x as int, y as int) {
                        px@[k % 4]
                    } else {
                        before.data[k]
                    },
            ));
        }
        true
    }
}

/// Reads the colour of the pixel in column `x` of row `y`.
fn color_at(image: &Raster, x: u32, y: u32) -> (c: [u8; 3])
    requires
        x < image@.width,
        y < image@.height,
    ensures
        c@ == image@.rgb(image@.index_of(x as int, y as int)),
        greenish(c@[0], c@[1], c@[2]) == image@.green_at(image@.index_of(x as int, y as int)),
        image@.well_formed(),
{
    let at = image.offset_of(x, y);
    let c = [image.data[at], image.data[at + 1], image.data[at + 2]];
    assert(c@ =~= image@.rgb(image@.index_of(x as int, y as int)));
    c
}

/// Looks for the green of the table cloth in the corners of the picture:
/// top left, top right, bottom left, bottom right, in this order. Returns
/// the colour of the first corner that is green; `None` where no corner is
/// green, and for a picture without pixels.
pub fn detect_green_background(image: &Raster) -> (r: Option<[u8; 3]>)
    ensures
        r is Some <==> image@.background() is Some,
        r matches Some(c) ==> image@.background() == Some(c@),
{
    let w = image.width();
    let h = image.height();
    if w == 0 || h == 0 {
        assert(image@.count() == 0) by (nonlinear_arith)
            requires
                image@.count() == w * h,
                w == 0 || h == 0,
        ;
        return None;
    }
    proof {
        assert(image@.count() > 0 && (h - 1) * w + (w - 1) == image@.count() - 1)
            by (nonlinear_arith)
            requires
                image@.count() == w * h,
                w > 0,
                h > 0,
        ;
        reveal_with_fuel(RasterView::green_corner_from, 5);
        assert(image@.corners()[0] == image@.index_of(0, 0));
        assert(image@.corners()[1] == image@.index_of(w - 1, 0));
        assert(image@.corners()[2] == image@.index_of(0, h - 1));
        assert(image@.corners()[3] == image@.index_of(w - 1, h - 1));
    }
    let top_left = color_at(image, 0, 0);
    if is_greenish(top_left) {
        return Some(top_left);
    }
    let top_right = color_at(image, w - 1, 0);
    if is_greenish(top_right) {
        return Some(top_right);
    }
    let bottom_left = color_at(image, 0, h - 1);
    if is_greenish(bottom_left) {
        return Some(bottom_left);
    }
    let bottom_right = color_at(image, w - 1, h - 1);
    if is_greenish(bottom_right) {
        return Some(bottom_right);
    }
    None
}

/// Paints every pixel white and opaque whose colour is close to `bg` (see
/// `color_close`), and leaves the others as they are.
pub fn whiten_background(image: &mut Raster, bg: [u8; 3])
    ensures
        final(image)@ == old(image)@.whitened(bg@),
{
    let ghost before = image@;
    proof {
        use_type_invariant(&*image);
    }
    let n = image.data.len();
    let mut k: usize = 0;
    while k < n
        invariant
            n == before.data.len(),
            n == 4 * before.count(),
            k <= n,
            k % 4 == 0,
            image@.width == before.width,
            image@.height == before.height,
            image@.data.len() == n,
            forall|j: int| 0 <= j < k ==> image@.data[j] == before.whitened(bg@).data[j],
            forall|j: int| k <= j < n ==> image@.data[j] == before.data[j],
        decreases n - k,
    {
        let here = [image.data[k], image.data[k + 1], image.data[k + 2]];
        let ghost i = k as int / 4;
        assert(before.rgb(i)[0] == here@[0] && before.rgb(i)[1] == here@[1] && before.rgb(i)[2]
            == here@[2]);
        if color_close(here, bg) {
            image.data[k] = 255;
            image.data[k + 1] = 255;
            image.data[k + 2] = 255;
            image.data[k + 3] = 255;
        }
        assert forall|j: int| k <= j < k + 4 implies image@.data[j] == before.whitened(
            bg@,
        ).data[j] by {
            assert(j / 4 == i);
        }
        k += 4;
    }
    assert(image@ =~= before.whitened(bg@));
}

} // verus!
