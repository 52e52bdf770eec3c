//! The energy of a pixel and the energy map of an image.
//!
//! The energy of a pixel measures how much it differs from its two
//! neighbours across the seam: left and right for a vertical seam, above
//! and below for a horizontal one.  Pixels that are transparent enough get
//! a sentinel energy below every real one, so that seams pass through them
//! first.

use vstd::prelude::*;
use crate::axis::Axis;
use crate::pixel_colors::PixelColors;
use crate::raster::{Image, ImageView};

verus! {

/// A pixel whose alpha is at most this value is treated as transparent.
pub const ALPHA_DELETE_THRESHOLD: u8 = 244;

/// The energy of a transparent pixel.
pub const PIXEL_DELETE_ENERGY: i32 = -1;

/// The greatest energy a pixel can have: two neighbours, three channels
/// each, every channel as far apart as eight bits allow.
pub const MAX_PIXEL_ENERGY: i32 = 390150;

/// The squared difference of one channel of two pixels.
pub open spec fn channel_distance(a: u8, b: u8) -> int {
    (a - b) * (a - b)
}

/// The squared differences of the red, green and blue channels of two
/// pixels, added up.  Alpha does not count.
pub open spec fn color_distance(a: PixelColors, b: PixelColors) -> int {
    channel_distance(a.red, b.red) + channel_distance(a.green, b.green) + channel_distance(
        a.blue,
        b.blue,
    )
}

/// What one neighbour adds to the energy of the pixel `middle`: its colour
/// distance, or nothing where the image ends.
pub open spec fn neighbor_energy(neighbor: Option<PixelColors>, middle: PixelColors) -> int {
    match neighbor {
        None => 0,
        Some(colors) => color_distance(colors, middle),
    }
}

/// The energy of the pixel `middle` between two neighbours: the sentinel
/// if it is transparent, else what the two neighbours add.
pub open spec fn pixel_energy_between(
    before: Option<PixelColors>,
    middle: PixelColors,
    after: Option<PixelColors>,
) -> int {
    if middle.alpha > ALPHA_DELETE_THRESHOLD {
        neighbor_energy(before, middle) + neighbor_energy(after, middle)
    } else {
        PIXEL_DELETE_ENERGY as int
    }
}

/// The pixel at `(x, y)`, if the image has one there.
pub open spec fn pixel_if_present(img: ImageView, x: int, y: int) -> Option<PixelColors> {
    if img.contains(x, y) {
        Some(img.pixel(x, y))
    } else {
        None
    }
}

/// The energy of the pixel at `(x, y)` for seams along `axis`.
pub open spec fn energy_at(img: ImageView, axis: Axis, x: int, y: int) -> int {
    match axis {
        Axis::Vertical => pixel_energy_between(
            pixel_if_present(img, x - 1, y),
            img.pixel(x, y),
            pixel_if_present(img, x + 1, y),
        ),
        Axis::Horizontal => pixel_energy_between(
            pixel_if_present(img, x, y - 1),
            img.pixel(x, y),
            pixel_if_present(img, x, y + 1),
        ),
    }
}

/// The energy map of an image for seams along `axis`: one energy per
/// pixel, laid out as the image is.
pub open spec fn energy_grid(img: ImageView, axis: Axis) -> Seq<Seq<i32>> {
    Seq::new(
        img.height,
        |y: int| Seq::new(img.width, |x: int| energy_at(img, axis, x, y) as i32),
    )
}

/// A squared channel difference is at most 255 squared.
pub proof fn lemma_channel_distance_bounds(a: u8, b: u8)
    ensures
        0 <= channel_distance(a, b) <= 65025,
{
    assert(0 <= (a - b) * (a - b) <= 65025) by (nonlinear_arith)
        requires
            -255 <= a - b <= 255,
    ;
}

/// An energy is the sentinel or lies between zero and the greatest energy.
pub proof fn lemma_pixel_energy_bounds(
    before: Option<PixelColors>,
    middle: PixelColors,
    after: Option<PixelColors>,
)
    ensures
        PIXEL_DELETE_ENERGY <= pixel_energy_between(before, middle, after) <= MAX_PIXEL_ENERGY,
        middle.alpha > ALPHA_DELETE_THRESHOLD ==> 0 <= pixel_energy_between(before, middle, after),
{
    if let Some(colors) = before {
        lemma_channel_distance_bounds(colors.red, middle.red);
        lemma_channel_distance_bounds(colors.green, middle.green);
        lemma_channel_distance_bounds(colors.blue, middle.blue);
    }
    if let Some(colors) = after {
        lemma_channel_distance_bounds(colors.red, middle.red);
        lemma_channel_distance_bounds(colors.green, middle.green);
        lemma_channel_distance_bounds(colors.blue, middle.blue);
    }
}

/// A pixel whose alpha is at most the threshold has the sentinel energy,
/// whatever its neighbours are, along either axis.
pub proof fn lemma_transparent_pixel_energy(img: ImageView, axis: Axis, x: int, y: int)
    requires
        img.wf(),
        img.contains(x, y),
        img.pixel(x, y).alpha <= ALPHA_DELETE_THRESHOLD,
    ensures
        energy_at(img, axis, x, y) == -1,
        energy_grid(img, axis)[y][x] == -1,
{
}

/// The energy map has the extent of the image, and each of its entries is
/// the energy of the pixel at the same place.
pub proof fn lemma_energy_grid_shape(img: ImageView, axis: Axis)
    ensures
        energy_grid(img, axis).len() == img.height,
        forall|y: int|
            0 <= y < img.height ==> (#[trigger] energy_grid(img, axis)[y]).len() == img.width,
        forall|x: int, y: int|
            img.contains(x, y) ==> (#[trigger] energy_grid(img, axis)[y][x]) == energy_at(
                img,
                axis,
                x,
                y,
            ),
{
    assert forall|x: int, y: int| img.contains(x, y) implies (#[trigger] energy_grid(
        img,
        axis,
    )[y][x]) == energy_at(img, axis, x, y) by {
        match axis {
            Axis::Vertical => lemma_pixel_energy_bounds(
                pixel_if_present(img, x - 1, y),
                img.pixel(x, y),
                pixel_if_present(img, x + 1, y),
            ),
            Axis::Horizontal => lemma_pixel_energy_bounds(
                pixel_if_present(img, x, y - 1),
                img.pixel(x, y),
                pixel_if_present(img, x, y + 1),
            ),
        }
    }
}

/// Squares the difference of one channel.
fn channel_energy(a: u8, b: u8) -> (e: i32)
    ensures
        e == channel_distance(a, b),
        0 <= e <= 65025,
{
    let difference: i32 = a as i32 - b as i32;
    proof {
        lemma_channel_distance_bounds(a, b);
    }
    difference * difference
}

/// Computes what one neighbour adds to the energy of a pixel: the squared
/// differences of the red, green and blue channels, added up, or zero for a
/// neighbour that is missing.
pub fn energy(neighbor: &Option<PixelColors>, middle_colors: &PixelColors) -> (e: i32)
    ensures
        e == neighbor_energy(*neighbor, *middle_colors),
        0 <= e <= 195075,
{
    match neighbor {
        None => 0,
        Some(neighbor_colors) => {
            channel_energy(neighbor_colors.red, middle_colors.red) + channel_energy(
                neighbor_colors.green,
                middle_colors.green,
            ) + channel_energy(neighbor_colors.blue, middle_colors.blue)
        },
    }
}

/// Computes the energy of the pixel `middle` between its two neighbours
/// across the seam.
///
/// A pixel whose alpha is at most `ALPHA_DELETE_THRESHOLD` gets
/// `PIXEL_DELETE_ENERGY`, whatever its neighbours are.
pub fn pixel_energy(
    left: &Option<PixelColors>,
    middle: &PixelColors,
    right: &Option<PixelColors>,
) -> (e: i32)
    ensures
        e == pixel_energy_between(*left, *middle, *right),
        middle.alpha <= ALPHA_DELETE_THRESHOLD ==> e == PIXEL_DELETE_ENERGY,
        middle.alpha > ALPHA_DELETE_THRESHOLD ==> 0 <= e <= MAX_PIXEL_ENERGY,
{
    let left_energy: i32 = energy(left, middle);
    let right_energy: i32 = energy(right, middle);
    if middle.alpha > ALPHA_DELETE_THRESHOLD {
        left_energy + right_energy
    } else {
        PIXEL_DELETE_ENERGY
    }
}

/// Computes the energy of the pixel at `(x, y)` for seams along `axis`.
fn energy_of_pixel(img: &Image, axis: Axis, x: u32, y: u32) -> (e: i32)
    requires
        img@.contains(x as int, y as int),
    ensures
        e == energy_at(img@, axis, x as int, y as int),
{
    let width: u32 = img.width();
    let height: u32 = img.height();
    let middle: PixelColors = img.get(x, y);
    match axis {
        Axis::Vertical => {
            let left: Option<PixelColors> = if x == 0 {
                None
            } else {
                Some(img.get(x - 1, y))
            };
            let right: Option<PixelColors> = if x == width - 1 {
                None
            } else {
                Some(img.get(x + 1, y))
            };
            pixel_energy(&left, &middle, &right)
        },
        Axis::Horizontal => {
            let up: Option<PixelColors> = if y == 0 {
                None
            } else {
                Some(img.get(x, y - 1))
            };
            let down: Option<PixelColors> = if y == height - 1 {
                None
            } else {
                Some(img.get(x, y + 1))
            };
            pixel_energy(&up, &middle, &down)
        },
    }
}

/// Computes the energy map of `img` for seams along `axis`.
///
/// The map has one row per row of the image and one entry per pixel.  An
/// entry is `PIXEL_DELETE_ENERGY` where the pixel is transparent, and
/// otherwise the colour distances to the two neighbours across the seam,
/// added up.
pub fn energy_map(img: &Image, axis: Axis) -> (map: Vec<Vec<i32>>)
    ensures
        map.deep_view() == energy_grid(img@, axis),
        map.len() == img@.height,
        forall|y: int| 0 <= y < map.len() ==> (#[trigger] map[y]).len() == img@.width,
        forall|x: int, y: int|
            img@.contains(x, y) ==> (#[trigger] map[y][x]) == energy_at(img@, axis, x, y),
        forall|x: int, y: int|
            img@.contains(x, y) && img@.pixel(x, y).alpha <= ALPHA_DELETE_THRESHOLD ==> (
            #[trigger] map[y][x]) == PIXEL_DELETE_ENERGY,
{
    let width: u32 = img.width();
    let height: u32 = img.height();
    let mut map: Vec<Vec<i32>> = Vec::new();
    let mut y: u32 = 0;
    while y < height
        invariant
            width == img@.width,
            height == img@.height,
            y <= height,
            map.len() == y,
            forall|j: int| 0 <= j < y ==> (#[trigger] map[j]).len() == width,
            forall|i: int, j: int|
                0 <= j < y && 0 <= i < width ==> (#[trigger] map[j][i]) == energy_at(
                    img@,
                    axis,
                    i,
                    j,
                ),
        decreases height - y,
    {
        let mut row: Vec<i32> = Vec::new();
        let mut x: u32 = 0;
        while x < width
            invariant
                width == img@.width,
                height == img@.height,
                y < height,
                x <= width,
                row.len() == x,
                forall|i: int|
                    0 <= i < x ==> (#[trigger] row[i]) == energy_at(img@, axis, i, y as int),
            decreases width - x,
        {
            row.push(energy_of_pixel(img, axis, x, y));
            x += 1;
        }
        map.push(row);
        y += 1;
    }
    proof {
        lemma_energy_grid_shape(img@, axis);
        assert(map.deep_view() =~~= energy_grid(img@, axis));
    }
    map
}

/// Computes the energy map for vertical seams: every pixel is compared
/// with its left and right neighbours.
pub fn calculate_energy_map_width(img: &Image) -> (map: Vec<Vec<i32>>)
    ensures
        map.deep_view() == energy_grid(img@, Axis::Vertical),
        map.len() == img@.height,
        forall|y: int| 0 <= y < map.len() ==> (#[trigger] map[y]).len() == img@.width,
        forall|x: int, y: int|
            img@.contains(x, y) ==> (#[trigger] map[y][x]) == energy_at(
                img@,
                Axis::Vertical,
                x,
                y,
            ),
{
    energy_map(img, Axis::Vertical)
}

/// Computes the energy map for horizontal seams: every pixel is compared
/// with its upper and lower neighbours.
pub fn calculate_energy_map_height(img: &Image) -> (map: Vec<Vec<i32>>)
    ensures
        map.deep_view() == energy_grid(img@, Axis::Horizontal),
        map.len() == img@.height,
        forall|y: int| 0 <= y < map.len() ==> (#[trigger] map[y]).len() == img@.width,
        forall|x: int, y: int|
            img@.contains(x, y) ==> (#[trigger] map[y][x]) == energy_at(
                img@,
                Axis::Horizontal,
                x,
                y,
            ),
{
    energy_map(img, Axis::Horizontal)
}

} // verus!
