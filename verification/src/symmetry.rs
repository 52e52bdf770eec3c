//! Carving commutes with transposition.
//!
//! Mirroring an image at its main diagonal turns rows into columns and
//! vertical seams into horizontal ones.  Every step of carving, computed on
//! the mirrored image along the other axis, gives the mirror image of what
//! it gives on the image itself.

use vstd::prelude::*;
use crate::axis::Axis;
use crate::carve::{extent_across, lines_across, without_seam};
use crate::energy::{energy_grid, lemma_energy_grid_shape};
use crate::raster::ImageView;
use crate::resize::{
    carved_once, is_percentage, lemma_carved_once_extent, lemma_scaled_dimension,
    lemma_shrunk_extent, next_seam, resized, scaled_dimension, shrunk,
};
use crate::seam::{cell, cumulative, is_grid, min_seam, seam_length, seam_position, seam_span};

verus! {

/// The energy map mirrored at its main diagonal: rows become columns.
pub open spec fn transposed_grid(grid: Seq<Seq<i32>>) -> Seq<Seq<i32>> {
    Seq::new(grid[0].len(), |y: int| Seq::new(grid.len(), |x: int| grid[x][y]))
}

/// The mirror image of a rectangular map is rectangular, and its lines and
/// positions along the other axis are those of the map itself.
pub proof fn lemma_transposed_grid(grid: Seq<Seq<i32>>, axis: Axis)
    requires
        is_grid(grid),
    ensures
        is_grid(transposed_grid(grid)),
        seam_length(transposed_grid(grid), axis.flipped()) == seam_length(grid, axis),
        seam_span(transposed_grid(grid), axis.flipped()) == seam_span(grid, axis),
        forall|line: int, pos: int|
            0 <= line < seam_length(grid, axis) && 0 <= pos < seam_span(grid, axis) ==> cell(
                transposed_grid(grid),
                axis.flipped(),
                line,
                pos,
            ) == #[trigger] cell(grid, axis, line, pos),
{
}

/// The energy map of the mirror image along the other axis is the mirror
/// image of the energy map.
pub proof fn lemma_energy_grid_transposed(img: ImageView, axis: Axis)
    requires
        img.wf(),
        img.width >= 1,
        img.height >= 1,
    ensures
        energy_grid(img.transposed(), axis.flipped()) == transposed_grid(energy_grid(img, axis)),
{
    let mirrored = img.transposed();
    let left = energy_grid(mirrored, axis.flipped());
    let right = transposed_grid(energy_grid(img, axis));
    lemma_energy_grid_shape(img, axis);
    lemma_energy_grid_shape(mirrored, axis.flipped());
    assert(left =~~= right);
}

/// The cumulative energies of the mirrored map along the other axis are
/// those of the map itself.
pub proof fn lemma_cumulative_transposed(grid: Seq<Seq<i32>>, axis: Axis, line: int)
    requires
        is_grid(grid),
        0 <= line < seam_length(grid, axis),
    ensures
        cumulative(transposed_grid(grid), axis.flipped(), line) == cumulative(grid, axis, line),
    decreases line,
{
    lemma_transposed_grid(grid, axis);
    if line > 0 {
        lemma_cumulative_transposed(grid, axis, line - 1);
    }
    let mirrored = cumulative(transposed_grid(grid), axis.flipped(), line);
    let upright = cumulative(grid, axis, line);
    assert forall|pos: int| 0 <= pos < upright.len() implies mirrored[pos] == upright[pos] by {
        assert(cell(transposed_grid(grid), axis.flipped(), line, pos) == cell(
            grid,
            axis,
            line,
            pos,
        ));
    }
}

/// The minimum-energy seam of the mirrored map along the other axis passes
/// through the same positions as that of the map itself.
pub proof fn lemma_seam_position_transposed(grid: Seq<Seq<i32>>, axis: Axis, line: int)
    requires
        is_grid(grid),
        0 <= line < seam_length(grid, axis),
    ensures
        seam_position(transposed_grid(grid), axis.flipped(), line) == seam_position(
            grid,
            axis,
            line,
        ),
    decreases seam_length(grid, axis) - line,
{
    lemma_transposed_grid(grid, axis);
    lemma_cumulative_transposed(grid, axis, line);
    if line < seam_length(grid, axis) - 1 {
        lemma_seam_position_transposed(grid, axis, line + 1);
    }
}

/// The minimum-energy seam of the mirrored map along the other axis is the
/// minimum-energy seam of the map itself.
pub proof fn lemma_min_seam_transposed(grid: Seq<Seq<i32>>, axis: Axis)
    requires
        is_grid(grid),
    ensures
        min_seam(transposed_grid(grid), axis.flipped()) == min_seam(grid, axis),
{
    lemma_transposed_grid(grid, axis);
    let mirrored = min_seam(transposed_grid(grid), axis.flipped());
    let upright = min_seam(grid, axis);
    assert forall|line: int| 0 <= line < upright.len() implies mirrored[line]
        == upright[line] by {
        lemma_seam_position_transposed(grid, axis, line);
    }
}

/// Cutting a seam out of the mirror image along the other axis gives the
/// mirror image of what cutting it out of the image itself gives.
pub proof fn lemma_without_seam_transposed(img: ImageView, seam: Seq<int>, axis: Axis)
    requires
        img.wf(),
        extent_across(img, axis) >= 1,
    ensures
        without_seam(img.transposed(), seam, axis.flipped()) == without_seam(
            img,
            seam,
            axis,
        ).transposed(),
{
    let left = without_seam(img.transposed(), seam, axis.flipped());
    let right = without_seam(img, seam, axis).transposed();
    assert(left.pixels =~~= right.pixels);
}

/// One step of carving the mirror image along the other axis gives the
/// mirror image of one step of carving the image itself.
pub proof fn lemma_carved_once_transposed(img: ImageView, axis: Axis)
    requires
        img.wf(),
        img.width >= 1,
        img.height >= 1,
    ensures
        next_seam(img.transposed(), axis.flipped()) == next_seam(img, axis),
        carved_once(img.transposed(), axis.flipped()) == carved_once(img, axis).transposed(),
{
    lemma_energy_grid_shape(img, axis);
    lemma_energy_grid_transposed(img, axis);
    lemma_min_seam_transposed(energy_grid(img, axis), axis);
    lemma_without_seam_transposed(img, next_seam(img, axis), axis);
}

/// Carving the transpose of an image along the other axis gives the
/// transpose of what carving the image gives, for any number of seams that
/// the image has room for.
pub proof fn lemma_shrunk_transposed(img: ImageView, axis: Axis, count: nat)
    requires
        img.wf(),
        lines_across(img, axis) >= 1,
        count < extent_across(img, axis),
    ensures
        shrunk(img.transposed(), axis.flipped(), count) == shrunk(img, axis, count).transposed(),
    decreases count,
{
    if count > 0 {
        lemma_carved_once_transposed(img, axis);
        lemma_carved_once_extent(img, axis);
        lemma_shrunk_transposed(carved_once(img, axis), axis, (count - 1) as nat);
    }
}

/// Resizing one dimension of the transpose of an image gives the
/// transpose of what resizing the other dimension of the image gives.
pub proof fn lemma_resized_transposed(img: ImageView, width_pct: int, height_pct: int)
    requires
        img.wf(),
        img.width >= 1,
        img.height >= 1,
        is_percentage(width_pct),
        is_percentage(height_pct),
        width_pct == 100 || height_pct == 100,
    ensures
        resized(img.transposed(), height_pct, width_pct) == resized(
            img,
            width_pct,
            height_pct,
        ).transposed(),
{
    let mirrored = img.transposed();
    lemma_scaled_dimension(img.width as int, width_pct);
    lemma_scaled_dimension(img.height as int, height_pct);
    let across = (img.width - scaled_dimension(img.width as int, width_pct)) as nat;
    let down = (img.height - scaled_dimension(img.height as int, height_pct)) as nat;
    if height_pct == 100 {
        lemma_shrunk_transposed(img, Axis::Vertical, across);
        assert(shrunk(shrunk(img, Axis::Vertical, across), Axis::Horizontal, 0) == shrunk(
            img,
            Axis::Vertical,
            across,
        ));
    } else {
        lemma_shrunk_transposed(img, Axis::Horizontal, down);
        lemma_shrunk_extent(mirrored, Axis::Vertical, down);
    }
}

} // verus!
