//! The pixel buffer that is carved.

use vstd::prelude::*;
use crate::pixel_colors::PixelColors;

verus! {

/// The mathematical model of an image: its extent and its pixels, row by
/// row from the top, each row from the left.
pub struct ImageView {
    pub width: nat,
    pub height: nat,
    pub pixels: Seq<Seq<PixelColors>>,
}

impl ImageView {
    /// The pixels fill the extent: there are `height` rows of `width`
    /// pixels each.
    pub open spec fn wf(self) -> bool {
        &&& self.pixels.len() == self.height
        &&& forall|y: int| 0 <= y < self.height ==> (#[trigger] self.pixels[y]).len() == self.width
    }

    /// Whether `(x, y)` is a coordinate of the image.
    pub open spec fn contains(self, x: int, y: int) -> bool {
        0 <= x < self.width && 0 <= y < self.height
    }

    /// The pixel at column `x` of row `y`.
    pub open spec fn pixel(self, x: int, y: int) -> PixelColors {
        self.pixels[y][x]
    }

    /// The image mirrored at its main diagonal: rows become columns.
    pub open spec fn transposed(self) -> ImageView {
        ImageView {
            width: self.height,
            height: self.width,
            pixels: Seq::new(
                self.width,
                |y: int| Seq::new(self.height, |x: int| self.pixels[x][y]),
            ),
        }
    }

    /// The image that a row-major buffer of four-channel samples holds.
    pub open spec fn from_raw(width: nat, height: nat, data: Seq<u8>) -> ImageView {
        ImageView {
            width,
            height,
            pixels: Seq::new(
                height,
                |y: int| Seq::new(width, |x: int| raw_pixel(data, width as int, x, y)),
            ),
        }
    }
}

/// The number of samples in a row-major buffer of four-channel pixels.
pub open spec fn raw_len(width: int, height: int) -> int {
    4 * (height * width)
}

/// The place in a row-major buffer of the first sample of the pixel at
/// column `x` of row `y`.
pub open spec fn raw_offset(width: int, x: int, y: int) -> int {
    4 * (y * width + x)
}

/// The pixel that a row-major buffer holds at column `x` of row `y`.
pub open spec fn raw_pixel(data: Seq<u8>, width: int, x: int, y: int) -> PixelColors {
    PixelColors::from_channels(
        data.subrange(raw_offset(width, x, y), raw_offset(width, x, y) + 4),
    )
}

/// A rectangular buffer of RGBA pixels with eight bits per channel.
///
/// Either dimension may be zero; such an image holds no pixel.
#[derive(Debug)]
pub struct Image {
    width: u32,
    height: u32,
    rows: Vec<Vec<PixelColors>>,
}

/// The pixels of a list of rows.
pub open spec fn rows_view(rows: Seq<Vec<PixelColors>>) -> Seq<Seq<PixelColors>> {
    Seq::new(rows.len(), |y: int| rows[y]@)
}

/// The four samples of a pixel lie inside the buffer, behind those of
/// every pixel of an earlier row, and each row starts where the one before
/// it ends.
pub proof fn lemma_raw_offset(width: int, height: int, x: int, y: int)
    requires
        0 <= x < width,
        0 <= y < height,
    ensures
        0 <= raw_offset(width, x, y),
        raw_offset(width, x, y) + 4 <= raw_offset(width, 0, y + 1),
        raw_offset(width, 0, y + 1) <= raw_len(width, height),
        raw_offset(width, 0, y + 1) == raw_offset(width, 0, y) + 4 * width,
{
    assert(0 <= y * width) by (nonlinear_arith)
        requires
            0 <= y,
            0 <= width,
    ;
    assert((y + 1) * width == y * width + width) by (nonlinear_arith);
    assert((y + 1) * width <= height * width) by (nonlinear_arith)
        requires
            y + 1 <= height,
            0 <= width,
    ;
}

impl View for Image {
    type V = ImageView;

    closed spec fn view(&self) -> ImageView {
        ImageView {
            width: self.width as nat,
            height: self.height as nat,
            pixels: rows_view(self.rows@),
        }
    }
}

impl Image {
    #[verifier::type_invariant]
    spec fn rectangular(self) -> bool {
        &&& self.rows.len() == self.height
        &&& forall|y: int| 0 <= y < self.rows.len() ==> (#[trigger] self.rows[y]).len() == self.width
    }

    /// Both dimensions of an image fit in 32 bits.
    pub proof fn lemma_extent_fits(self)
        ensures
            self@.width <= u32::MAX,
            self@.height <= u32::MAX,
    {
    }

    /// Builds an image from its rows.
    pub(crate) fn from_rows(width: u32, height: u32, rows: Vec<Vec<PixelColors>>) -> (image: Image)
        requires
            rows.len() == height,
            forall|y: int| 0 <= y < rows.len() ==> (#[trigger] rows[y]).len() == width,
        ensures
            image@ == (ImageView {
                width: width as nat,
                height: height as nat,
                pixels: rows_view(rows@),
            }),
            image@.wf(),
    {
        Image { width, height, rows }
    }

    /// Builds an image of the given extent from a row-major buffer that
    /// holds four samples per pixel, in the order red, green, blue, alpha.
    ///
    /// Returns `None` unless the buffer holds exactly four samples for each
    /// of the `width * height` pixels.
    pub fn from_raw(width: u32, height: u32, data: &[u8]) -> (image: Option<Image>)
        ensures
            image is Some <==> data@.len() == raw_len(width as int, height as int),
            image matches Some(img) ==> img@ == ImageView::from_raw(
                width as nat,
                height as nat,
                data@,
            ) && img@.wf(),
    {
        assert(height * width <= 0xffff_ffff * 0xffff_ffff) by (nonlinear_arith)
            requires
                0 <= width <= 0xffff_ffff,
                0 <= height <= 0xffff_ffff,
        ;
        let pixels: u64 = (height as u64) * (width as u64);
        let samples: u128 = 4 * (pixels as u128);
        if data.len() as u128 != samples {
            return None;
        }
        let ghost w = width as int;
        let ghost h = height as int;
        let mut rows: Vec<Vec<PixelColors>> = Vec::new();
        let mut at: usize = 0;
        let mut y: u32 = 0;
        while y < height
            invariant
                w == width,
                h == height,
                data@.len() == raw_len(w, h),
                y <= height,
                at == raw_offset(w, 0, y as int),
                rows.len() == y,
                forall|j: int| 0 <= j < y ==> (#[trigger] rows[j]).len() == width,
                forall|j: int, i: int|
                    0 <= j < y && 0 <= i < width ==> (#[trigger] rows[j]@[i]) == raw_pixel(
                        data@,
                        w,
                        i,
                        j,
                    ),
            decreases height - y,
        {
            let mut row: Vec<PixelColors> = Vec::new();
            let mut x: u32 = 0;
            while x < width
                invariant
                    w == width,
                    h == height,
                    data@.len() == raw_len(w, h),
                    y < height,
                    x <= width,
                    at == raw_offset(w, x as int, y as int),
                    row.len() == x,
                    forall|i: int|
                        0 <= i < x ==> (#[trigger] row@[i]) == raw_pixel(data@, w, i, y as int),
                decreases width - x,
            {
                proof {
                    lemma_raw_offset(w, h, x as int, y as int);
                }
                let sample: [u8; 4] = [data[at], data[at + 1], data[at + 2], data[at + 3]];
                row.push(PixelColors::new(&sample));
                at += 4;
                x += 1;
            }
            proof {
                if width > 0 {
                    lemma_raw_offset(w, h, 0, y as int);
                } else {
                    assert(y * w == 0 && (y + 1) * w == 0) by (nonlinear_arith)
                        requires
                            w == 0,
                    ;
                }
            }
            rows.push(row);
            y += 1;
        }
        let image = Image::from_rows(width, height, rows);
        assert(image@.pixels =~~= ImageView::from_raw(
            width as nat,
            height as nat,
            data@,
        ).pixels);
        Some(image)
    }

    /// Writes the image out as a row-major buffer that holds four samples
    /// per pixel, in the order red, green, blue, alpha.
    pub fn to_raw(&self) -> (data: Vec<u8>)
        ensures
            data@.len() == raw_len(self@.width as int, self@.height as int),
            ImageView::from_raw(self@.width, self@.height, data@) == self@,
    {
        proof {
            use_type_invariant(self);
        }
        let ghost w = self.width as int;
        let ghost h = self.height as int;
        let mut data: Vec<u8> = Vec::new();
        let mut y: usize = 0;
        while y < self.rows.len()
            invariant
                self.rows.len() == h,
                forall|j: int| 0 <= j < h ==> (#[trigger] self.rows[j]).len() == w,
                0 <= w,
                y <= h,
                data@.len() == raw_offset(w, 0, y as int),
                forall|j: int, i: int|
                    0 <= j < y && 0 <= i < w ==> raw_pixel(data@, w, i, j)
                        == #[trigger] self.rows[j]@[i],
            decreases self.rows.len() - y,
        {
            let row: &Vec<PixelColors> = &self.rows[y];
            let mut x: usize = 0;
            while x < row.len()
                invariant
                    row == self.rows[y as int],
                    self.rows.len() == h,
                    row.len() == w,
                    y < h,
                    x <= w,
                    data@.len() == raw_offset(w, x as int, y as int),
                    forall|j: int, i: int|
                        0 <= j < y && 0 <= i < w ==> raw_pixel(data@, w, i, j)
                            == #[trigger] self.rows[j]@[i],
                    forall|i: int|
                        0 <= i < x ==> raw_pixel(data@, w, i, y as int) == #[trigger] row@[i],
                decreases row.len() - x,
            {
                let ghost before = data@;
                let pixel: PixelColors = row[x];
                data.push(pixel.red);
                data.push(pixel.green);
                data.push(pixel.blue);
                data.push(pixel.alpha);
                proof {
                    assert forall|j: int, i: int| 0 <= j < y && 0 <= i < w implies raw_pixel(
                        data@,
                        w,
                        i,
                        j,
                    ) == #[trigger] self.rows[j]@[i] by {
                        lemma_raw_offset(w, y as int, i, j);
                        assert(raw_pixel(data@, w, i, j) == raw_pixel(before, w, i, j));
                    }
                    assert forall|i: int| 0 <= i < x implies raw_pixel(data@, w, i, y as int)
                        == #[trigger] row@[i] by {
                        assert(raw_pixel(data@, w, i, y as int) == raw_pixel(before, w, i, y as int));
                    }
                }
                x += 1;
            }
            proof {
                assert((y + 1) * w == y * w + w) by (nonlinear_arith);
            }
            y += 1;
        }
        assert(ImageView::from_raw(self@.width, self@.height, data@).pixels =~~= self@.pixels);
        data
    }

    /// The number of columns.
    pub fn width(&self) -> (width: u32)
        ensures
            width == self@.width,
            self@.wf(),
    {
        proof {
            use_type_invariant(self);
        }
        self.width
    }

    /// The number of rows.
    pub fn height(&self) -> (height: u32)
        ensures
            height == self@.height,
            self@.wf(),
    {
        proof {
            use_type_invariant(self);
        }
        self.height
    }

    /// The pixel at column `x` of row `y`.
    pub fn get(&self, x: u32, y: u32) -> (pixel: PixelColors)
        requires
            self@.contains(x as int, y as int),
        ensures
            pixel == self@.pixel(x as int, y as int),
    {
        proof {
            use_type_invariant(self);
        }
        self.rows[y as usize][x as usize]
    }
}

impl Clone for Image {
    /// Copies the image, pixel by pixel.
    fn clone(&self) -> (copy: Image)
        ensures
            copy@ == self@,
            copy@.wf(),
    {
        proof {
            use_type_invariant(self);
        }
        let mut rows: Vec<Vec<PixelColors>> = Vec::new();
        let mut y: usize = 0;
        while y < self.rows.len()
            invariant
                y <= self.rows.len(),
                rows.len() == y,
                forall|j: int| 0 <= j < y ==> (#[trigger] rows[j])@ == self.rows[j]@,
            decreases self.rows.len() - y,
        {
            let source: &Vec<PixelColors> = &self.rows[y];
            let mut row: Vec<PixelColors> = Vec::new();
            let mut x: usize = 0;
            while x < source.len()
                invariant
                    x <= source.len(),
                    row.len() == x,
                    forall|i: int| 0 <= i < x ==> #[trigger] row[i] == source[i],
                decreases source.len() - x,
            {
                row.push(source[x]);
                x += 1;
            }
            rows.push(row);
            y += 1;
        }
        assert(rows_view(rows@) =~= rows_view(self.rows@));
        Image::from_rows(self.width, self.height, rows)
    }
}

} // verus!
