//! Helpers for showing an energy map with a seam drawn over it.
//!
//! An energy map is shown as a greyscale frame whose luminance grows with
//! the energy, relative to the greatest energy of the map.  The pixels of
//! the seam are drawn in white.

use vstd::prelude::*;
use crate::axis::Axis;
use crate::seam::seam_indices;

verus! {

/// The luminance in which a seam is drawn: white.
pub const SEAM_LUMINANCE: u8 = 255;

/// Whether the seam passes through the pixel at column `x` of row `y`.
pub open spec fn is_on_seam(seam: Seq<int>, axis: Axis, x: int, y: int) -> bool {
    match axis {
        Axis::Vertical => 0 <= y < seam.len() && seam[y] == x,
        Axis::Horizontal => 0 <= x < seam.len() && seam[x] == y,
    }
}

/// Finds the greatest energy of the map, or zero if no energy is above
/// zero.
pub fn max_energy(energy_map: &Vec<Vec<i32>>) -> (greatest: i32)
    ensures
        greatest >= 0,
        forall|x: int, y: int|
            0 <= y < energy_map.len() && 0 <= x < energy_map[y].len() ==> (
            #[trigger] energy_map[y][x]) <= greatest,
        greatest == 0 || exists|x: int, y: int|
            0 <= y < energy_map.len() && 0 <= x < energy_map[y].len() && (
            #[trigger] energy_map[y][x]) == greatest,
{
    let mut greatest: i32 = 0;
    let mut y: usize = 0;
    while y < energy_map.len()
        invariant
            y <= energy_map.len(),
            greatest >= 0,
            forall|i: int, j: int|
                0 <= j < y && 0 <= i < energy_map[j].len() ==> (#[trigger] energy_map[j][i])
                    <= greatest,
            greatest == 0 || exists|i: int, j: int|
                0 <= j < energy_map.len() && 0 <= i < energy_map[j].len() && (
                #[trigger] energy_map[j][i]) == greatest,
        decreases energy_map.len() - y,
    {
        let row: &Vec<i32> = &energy_map[y];
        let mut x: usize = 0;
        while x < row.len()
            invariant
                y < energy_map.len(),
                row == energy_map[y as int],
                x <= row.len(),
                greatest >= 0,
                forall|i: int, j: int|
                    0 <= j < y && 0 <= i < energy_map[j].len() ==> (#[trigger] energy_map[j][i])
                        <= greatest,
                forall|i: int| 0 <= i < x ==> (#[trigger] energy_map[y as int][i]) <= greatest,
                greatest == 0 || exists|i: int, j: int|
                    0 <= j < energy_map.len() && 0 <= i < energy_map[j].len() && (
                    #[trigger] energy_map[j][i]) == greatest,
            decreases row.len() - x,
        {
            if row[x] > greatest {
                greatest = row[x];
            }
            x += 1;
        }
        y += 1;
    }
    greatest
}

/// Draws a seam over a greyscale frame: every pixel that the seam passes
/// through becomes white, every other pixel stays as it is.
pub fn overlay_seam(frame: &Vec<Vec<u8>>, seam: &Vec<usize>, axis: Axis) -> (marked: Vec<Vec<u8>>)
    ensures
        marked.len() == frame.len(),
        forall|y: int| 0 <= y < frame.len() ==> (#[trigger] marked[y]).len() == frame[y].len(),
        forall|x: int, y: int|
            0 <= y < frame.len() && 0 <= x < frame[y].len() ==> (#[trigger] marked[y][x]) == (
            if is_on_seam(seam_indices(seam@), axis, x, y) {
                SEAM_LUMINANCE
            } else {
                frame[y][x]
            }),
{
    let mut marked: Vec<Vec<u8>> = Vec::new();
    let mut y: usize = 0;
    while y < frame.len()
        invariant
            y <= frame.len(),
            marked.len() == y,
            forall|j: int| 0 <= j < y ==> (#[trigger] marked[j]).len() == frame[j].len(),
            forall|i: int, j: int|
                0 <= j < y && 0 <= i < frame[j].len() ==> (#[trigger] marked[j][i]) == (
                if is_on_seam(seam_indices(seam@), axis, i, j) {
                    SEAM_LUMINANCE
                } else {
                    frame[j][i]
                }),
        decreases frame.len() - y,
    {
        let row: &Vec<u8> = &frame[y];
        let mut line: Vec<u8> = Vec::new();
        let mut x: usize = 0;
        while x < row.len()
            invariant
                y < frame.len(),
                row == frame[y as int],
                x <= row.len(),
                line.len() == x,
                forall|i: int|
                    0 <= i < x ==> (#[trigger] line[i]) == (if is_on_seam(
                        seam_indices(seam@),
                        axis,
                        i,
                        y as int,
                    ) {
                        SEAM_LUMINANCE
                    } else {
                        row[i]
                    }),
            decreases row.len() - x,
        {
            let on_seam: bool = match axis {
                Axis::Vertical => y < seam.len() && seam[y] == x,
                Axis::Horizontal => x < seam.len() && seam[x] == y,
            };
            if on_seam {
                line.push(SEAM_LUMINANCE);
            } else {
                line.push(row[x]);
            }
            x += 1;
        }
        marked.push(line);
        y += 1;
    }
    marked
}

} // verus!
