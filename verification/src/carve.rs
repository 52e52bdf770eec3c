//! Cutting a seam out of an image.

use vstd::prelude::*;
use crate::axis::Axis;
use crate::pixel_colors::PixelColors;
use crate::raster::{Image, ImageView};
use crate::seam::seam_indices;

verus! {

/// The number of entries a seam along `axis` needs to cross `img`: one per
/// row for a vertical seam, one per column for a horizontal one.
pub open spec fn lines_across(img: ImageView, axis: Axis) -> nat {
    match axis {
        Axis::Vertical => img.height,
        Axis::Horizontal => img.width,
    }
}

/// The extent of `img` in the direction that removing a seam along `axis`
/// shrinks: the width for a vertical seam, the height for a horizontal one.
pub open spec fn extent_across(img: ImageView, axis: Axis) -> nat {
    match axis {
        Axis::Vertical => img.width,
        Axis::Horizontal => img.height,
    }
}

/// The image without the pixels of `seam`.
///
/// For a vertical seam, the pixels of row `y` from column `seam[y] + 1` on
/// move one column to the left and the last column goes.  For a horizontal
/// seam, the pixels of column `x` from row `seam[x] + 1` on move one row up
/// and the last row goes.
pub open spec fn without_seam(img: ImageView, seam: Seq<int>, axis: Axis) -> ImageView {
    match axis {
        Axis::Vertical => ImageView {
            width: (img.width - 1) as nat,
            height: img.height,
            pixels: Seq::new(
                img.height,
                |y: int|
                    Seq::new(
                        (img.width - 1) as nat,
                        |x: int|
                            if x < seam[y] {
                                img.pixels[y][x]
                            } else {
                                img.pixels[y][x + 1]
                            },
                    ),
            ),
        },
        Axis::Horizontal => ImageView {
            width: img.width,
            height: (img.height - 1) as nat,
            pixels: Seq::new(
                (img.height - 1) as nat,
                |y: int|
                    Seq::new(
                        img.width,
                        |x: int|
                            if y < seam[x] {
                                img.pixels[y][x]
                            } else {
                                img.pixels[y + 1][x]
                            },
                    ),
            ),
        },
    }
}

/// Removing a seam makes the image one pixel smaller across the seam and
/// leaves its other dimension as it was.
pub proof fn lemma_without_seam_extent(img: ImageView, seam: Seq<int>, axis: Axis)
    requires
        extent_across(img, axis) >= 1,
    ensures
        without_seam(img, seam, axis).wf(),
        extent_across(without_seam(img, seam, axis), axis) == extent_across(img, axis) - 1,
        lines_across(without_seam(img, seam, axis), axis) == lines_across(img, axis),
{
}

/// Picks the pixel that ends up at `(x, y)` once `seam` is gone.
fn pixel_after(image: &Image, seam: &Vec<usize>, axis: Axis, x: u32, y: u32) -> (pixel:
    PixelColors)
    requires
        extent_across(image@, axis) >= 1,
        seam.len() >= lines_across(image@, axis),
        without_seam(image@, seam_indices(seam@), axis).contains(x as int, y as int),
    ensures
        pixel == without_seam(image@, seam_indices(seam@), axis).pixel(x as int, y as int),
{
    proof {
        image.lemma_extent_fits();
    }
    match axis {
        Axis::Vertical => {
            if (x as usize) < seam[y as usize] {
                image.get(x, y)
            } else {
                image.get(x + 1, y)
            }
        },
        Axis::Horizontal => {
            if (y as usize) < seam[x as usize] {
                image.get(x, y)
            } else {
                image.get(x, y + 1)
            }
        },
    }
}

impl Image {
    /// Builds the image that is left when `seam` is cut out of this one.
    ///
    /// The seam needs one entry for every row (vertical) or column
    /// (horizontal); more are ignored.  An entry beyond the image removes
    /// the last pixel of its line.
    pub fn without_seam(&self, seam: &Vec<usize>, axis: Axis) -> (carved: Image)
        requires
            extent_across(self@, axis) >= 1,
            seam.len() >= lines_across(self@, axis),
        ensures
            carved@ == without_seam(self@, seam_indices(seam@), axis),
            carved@.wf(),
            extent_across(carved@, axis) == extent_across(self@, axis) - 1,
            lines_across(carved@, axis) == lines_across(self@, axis),
    {
        let ghost target = without_seam(self@, seam_indices(seam@), axis);
        let width: u32 = match axis {
            Axis::Vertical => self.width() - 1,
            Axis::Horizontal => self.width(),
        };
        let height: u32 = match axis {
            Axis::Vertical => self.height(),
            Axis::Horizontal => self.height() - 1,
        };
        let mut rows: Vec<Vec<PixelColors>> = Vec::new();
        let mut y: u32 = 0;
        while y < height
            invariant
                extent_across(self@, axis) >= 1,
                seam.len() >= lines_across(self@, axis),
                target == without_seam(self@, seam_indices(seam@), axis),
                width == target.width,
                height == target.height,
                y <= height,
                rows.len() == y,
                forall|j: int| 0 <= j < y ==> (#[trigger] rows[j])@ == target.pixels[j],
            decreases height - y,
        {
            let mut row: Vec<PixelColors> = Vec::new();
            let mut x: u32 = 0;
            while x < width
                invariant
                    extent_across(self@, axis) >= 1,
                    seam.len() >= lines_across(self@, axis),
                    target == without_seam(self@, seam_indices(seam@), axis),
                    width == target.width,
                    height == target.height,
                    y < height,
                    x <= width,
                    row.len() == x,
                    forall|i: int| 0 <= i < x ==> #[trigger] row[i] == target.pixels[y as int][i],
                decreases width - x,
            {
                row.push(pixel_after(self, seam, axis, x, y));
                x += 1;
            }
            rows.push(row);
            y += 1;
        }
        let carved = Image::from_rows(width, height, rows);
        assert(carved@.pixels =~= target.pixels);
        carved
    }

    /// Cuts `seam` out of the image in place.
    pub fn remove_seam(&mut self, seam: &Vec<usize>, axis: Axis)
        requires
            extent_across(old(self)@, axis) >= 1,
            seam.len() >= lines_across(old(self)@, axis),
        ensures
            final(self)@ == without_seam(old(self)@, seam_indices(seam@), axis),
            final(self)@.wf(),
            extent_across(final(self)@, axis) == extent_across(old(self)@, axis) - 1,
            lines_across(final(self)@, axis) == lines_across(old(self)@, axis),
    {
        let carved = self.without_seam(seam, axis);
        *self = carved;
    }
}

/// Removes a vertical seam: in every row `h` the pixel at column `seam[h]`
/// goes, and the image becomes one pixel narrower.
pub fn delete_seam_width(img: Image, seam: &Vec<usize>) -> (carved: Image)
    requires
        img@.width >= 1,
        seam.len() >= img@.height,
    ensures
        carved@ == without_seam(img@, seam_indices(seam@), Axis::Vertical),
        carved@.wf(),
        carved@.width == img@.width - 1,
        carved@.height == img@.height,
{
    img.without_seam(seam, Axis::Vertical)
}

/// Removes a horizontal seam: in every column `w` the pixel at row
/// `seam[w]` goes, and the image becomes one pixel lower.
pub fn delete_seam_height(img: Image, seam: &Vec<usize>) -> (carved: Image)
    requires
        img@.height >= 1,
        seam.len() >= img@.width,
    ensures
        carved@ == without_seam(img@, seam_indices(seam@), Axis::Horizontal),
        carved@.wf(),
        carved@.width == img@.width,
        carved@.height == img@.height - 1,
{
    img.without_seam(seam, Axis::Horizontal)
}

} // verus!
