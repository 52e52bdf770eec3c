//! The resizing loop: seam after seam, first across the width, then across
//! the height.

use vstd::prelude::*;
use crate::axis::Axis;
use crate::carve::{extent_across, lines_across, without_seam};
use crate::energy::{energy_grid, energy_map, lemma_energy_grid_shape};
use crate::raster::{Image, ImageView};
use crate::seam::{find_min_seam, min_seam, seam_indices};

verus! {

/// Why a resize was refused or could not be shown.
#[derive(Clone, Copy, Debug, PartialEq, Eq, Structural)]
pub enum ResizeError {
    /// A percentage is not a whole number from 1 to 100.
    InvalidArgument,
    /// The image has no column or no row.
    InvalidImage,
    /// The render sink reported that it could not show a frame.  The
    /// image is carved all the same.
    RenderFailed,
}

/// What one step of carving did: the energy map it computed and the seam
/// it removed, both in the coordinates of the image before the step.
#[derive(Debug)]
pub struct CarvedSeam {
    pub axis: Axis,
    pub energy_map: Vec<Vec<i32>>,
    pub seam: Vec<usize>,
}

/// Whether `pct` is a percentage that a dimension can be resized to.
pub open spec fn is_percentage(pct: int) -> bool {
    1 <= pct <= 100
}

/// The size that `dimension` has at `pct` percent: the percentage of it,
/// rounded down, but at least one pixel.
pub open spec fn scaled_dimension(dimension: int, pct: int) -> int {
    if dimension * pct / 100 < 1 {
        1
    } else {
        dimension * pct / 100
    }
}

/// Why `img` cannot be resized to the given percentages, if it cannot: a
/// percentage out of range comes before an image without pixels.
pub open spec fn refusal(img: ImageView, width_pct: int, height_pct: int) -> Option<ResizeError> {
    if !is_percentage(width_pct) || !is_percentage(height_pct) {
        Some(ResizeError::InvalidArgument)
    } else if img.width == 0 || img.height == 0 {
        Some(ResizeError::InvalidImage)
    } else {
        None
    }
}

/// The seam that one step of carving removes from `img`.
pub open spec fn next_seam(img: ImageView, axis: Axis) -> Seq<int> {
    min_seam(energy_grid(img, axis), axis)
}

/// The image after one step of carving along `axis`: without its
/// minimum-energy seam.
pub open spec fn carved_once(img: ImageView, axis: Axis) -> ImageView {
    without_seam(img, next_seam(img, axis), axis)
}

/// The image after `count` steps of carving along `axis`.
pub open spec fn shrunk(img: ImageView, axis: Axis, count: nat) -> ImageView
    decreases count,
{
    if count == 0 {
        img
    } else {
        shrunk(carved_once(img, axis), axis, (count - 1) as nat)
    }
}

/// The image resized to the given percentages of its width and height:
/// carved down to the target width first, and to the target height after
/// that.
pub open spec fn resized(img: ImageView, width_pct: int, height_pct: int) -> ImageView {
    let narrowed = shrunk(
        img,
        Axis::Vertical,
        (img.width - scaled_dimension(img.width as int, width_pct)) as nat,
    );
    shrunk(
        narrowed,
        Axis::Horizontal,
        (img.height - scaled_dimension(img.height as int, height_pct)) as nat,
    )
}

/// A valid percentage of a dimension of at least one pixel lies between one
/// pixel and the dimension, and all of it is the dimension itself.
pub proof fn lemma_scaled_dimension(dimension: int, pct: int)
    requires
        dimension >= 1,
        is_percentage(pct),
    ensures
        1 <= scaled_dimension(dimension, pct) <= dimension,
        scaled_dimension(dimension, 100) == dimension,
{
    assert(dimension * pct <= dimension * 100) by (nonlinear_arith)
        requires
            dimension >= 1,
            pct <= 100,
    ;
}

/// One step of carving makes the image one pixel smaller across the seam
/// and leaves its other dimension as it was.
pub proof fn lemma_carved_once_extent(img: ImageView, axis: Axis)
    requires
        extent_across(img, axis) >= 1,
    ensures
        carved_once(img, axis).wf(),
        extent_across(carved_once(img, axis), axis) == extent_across(img, axis) - 1,
        lines_across(carved_once(img, axis), axis) == lines_across(img, axis),
{
}

/// Carving `count` seams makes the image `count` pixels smaller across the
/// seams and leaves its other dimension as it was.
pub proof fn lemma_shrunk_extent(img: ImageView, axis: Axis, count: nat)
    requires
        img.wf(),
        count <= extent_across(img, axis),
    ensures
        shrunk(img, axis, count).wf(),
        extent_across(shrunk(img, axis, count), axis) == extent_across(img, axis) - count,
        lines_across(shrunk(img, axis, count), axis) == lines_across(img, axis),
    decreases count,
{
    if count > 0 {
        lemma_carved_once_extent(img, axis);
        lemma_shrunk_extent(carved_once(img, axis), axis, (count - 1) as nat);
    }
}

/// A resized image has exactly the target extent: each dimension is its
/// percentage of what it was, rounded down, and at least one pixel.
pub proof fn lemma_resized_extent(img: ImageView, width_pct: int, height_pct: int)
    requires
        img.wf(),
        img.width >= 1,
        img.height >= 1,
        is_percentage(width_pct),
        is_percentage(height_pct),
    ensures
        resized(img, width_pct, height_pct).wf(),
        resized(img, width_pct, height_pct).width == scaled_dimension(img.width as int, width_pct),
        resized(img, width_pct, height_pct).height == scaled_dimension(
            img.height as int,
            height_pct,
        ),
{
    lemma_scaled_dimension(img.width as int, width_pct);
    lemma_scaled_dimension(img.height as int, height_pct);
    let across = (img.width - scaled_dimension(img.width as int, width_pct)) as nat;
    lemma_shrunk_extent(img, Axis::Vertical, across);
    let narrowed = shrunk(img, Axis::Vertical, across);
    let down = (img.height - scaled_dimension(img.height as int, height_pct)) as nat;
    lemma_shrunk_extent(narrowed, Axis::Horizontal, down);
}

/// Resizing both dimensions at once is resizing the width alone and then,
/// on the image that this gives, the height alone.
pub proof fn lemma_resized_width_first(img: ImageView, width_pct: int, height_pct: int)
    requires
        img.wf(),
        img.width >= 1,
        img.height >= 1,
        is_percentage(width_pct),
        is_percentage(height_pct),
    ensures
        resized(img, width_pct, height_pct) == resized(
            resized(img, width_pct, 100),
            100,
            height_pct,
        ),
{
    lemma_scaled_dimension(img.width as int, width_pct);
    lemma_scaled_dimension(img.height as int, height_pct);
    let across = (img.width - scaled_dimension(img.width as int, width_pct)) as nat;
    let narrowed = shrunk(img, Axis::Vertical, across);
    lemma_shrunk_extent(img, Axis::Vertical, across);
    lemma_scaled_dimension(narrowed.width as int, 100);
}

/// At 100 percent of both dimensions nothing is carved.
pub proof fn lemma_resized_identity(img: ImageView)
    requires
        img.width >= 1,
        img.height >= 1,
    ensures
        resized(img, 100, 100) == img,
{
    lemma_scaled_dimension(img.width as int, 100);
    lemma_scaled_dimension(img.height as int, 100);
}

/// Computes the size that `dimension` has at `pct` percent: the percentage
/// of it, rounded down, but at least one pixel.
pub fn target_dimension(dimension: u32, pct: u32) -> (target: u32)
    requires
        pct <= 100,
    ensures
        target == scaled_dimension(dimension as int, pct as int),
        dimension >= 1 ==> 1 <= target <= dimension,
{
    assert(dimension * pct <= dimension * 100 <= 0xffff_ffff * 100) by (nonlinear_arith)
        requires
            0 <= dimension <= 0xffff_ffff,
            0 <= pct <= 100,
    ;
    let scaled: u64 = (dimension as u64) * (pct as u64) / 100;
    if scaled < 1 {
        1
    } else {
        scaled as u32
    }
}

/// Removes the minimum-energy seam along `axis` from the image and reports
/// the energy map and the seam, both in the coordinates of the image as it
/// was.
///
/// The image becomes one pixel narrower (vertical) or lower (horizontal);
/// its other dimension stays.
pub fn carve_once(image: &mut Image, axis: Axis) -> (step: CarvedSeam)
    requires
        old(image)@.width >= 1,
        old(image)@.height >= 1,
    ensures
        final(image)@ == carved_once(old(image)@, axis),
        final(image)@.wf(),
        extent_across(final(image)@, axis) == extent_across(old(image)@, axis) - 1,
        lines_across(final(image)@, axis) == lines_across(old(image)@, axis),
        step.axis == axis,
        step.energy_map.deep_view() == energy_grid(old(image)@, axis),
        seam_indices(step.seam@) == next_seam(old(image)@, axis),
{
    proof {
        image.lemma_extent_fits();
        lemma_energy_grid_shape(image@, axis);
    }
    let map: Vec<Vec<i32>> = energy_map(image, axis);
    let seam: Vec<usize> = find_min_seam(&map, axis);
    image.remove_seam(&seam, axis);
    CarvedSeam { axis, energy_map: map, seam }
}

/// Whether the sink accepts every frame.
pub open spec fn sink_takes_any_frame<F: Fn(&Image, &CarvedSeam) -> bool>(sink: F) -> bool {
    forall|frame: &Image, step: &CarvedSeam| call_requires(sink, (frame, step))
}

/// Whether `frame` and `step` are what the sink is handed after the step
/// that carves `before` along `axis`: the image as carved, and the energy
/// map and the seam of the image as it was.
pub open spec fn is_frame_of(
    frame: &Image,
    step: &CarvedSeam,
    before: ImageView,
    axis: Axis,
) -> bool {
    &&& frame@ == carved_once(before, axis)
    &&& step.axis == axis
    &&& step.energy_map.deep_view() == energy_grid(before, axis)
    &&& seam_indices(step.seam@) == next_seam(before, axis)
}

/// Whether the sink, handed the frame of the step that carves `before`
/// along `axis`, can answer `shown`.
pub open spec fn sink_answers<F: Fn(&Image, &CarvedSeam) -> bool>(
    sink: F,
    before: ImageView,
    axis: Axis,
    shown: bool,
) -> bool {
    exists|frame: &Image, step: &CarvedSeam|
        is_frame_of(frame, step, before, axis) && #[trigger] call_ensures(
            sink,
            (frame, step),
            shown,
        )
}

/// The number of seams that resizing to `pct` percent removes from a
/// dimension.
pub open spec fn seams_to_remove(dimension: int, pct: int) -> int {
    dimension - scaled_dimension(dimension, pct)
}

/// The axis of step `index` of a resize: the steps across the width come
/// first.
pub open spec fn step_axis(img: ImageView, width_pct: int, index: int) -> Axis {
    if index < seams_to_remove(img.width as int, width_pct) {
        Axis::Vertical
    } else {
        Axis::Horizontal
    }
}

/// The image before step `index` of a resize.
pub open spec fn image_before_step(img: ImageView, width_pct: int, index: int) -> ImageView {
    let across = seams_to_remove(img.width as int, width_pct);
    if index < across {
        shrunk(img, Axis::Vertical, index as nat)
    } else {
        shrunk(shrunk(img, Axis::Vertical, across as nat), Axis::Horizontal, (index - across) as nat)
    }
}

/// Carving one seam more is carving once what the seams before left.
pub proof fn lemma_shrunk_once_more(img: ImageView, axis: Axis, count: nat)
    ensures
        shrunk(img, axis, count + 1) == carved_once(shrunk(img, axis, count), axis),
    decreases count,
{
    if count > 0 {
        lemma_shrunk_once_more(carved_once(img, axis), axis, (count - 1) as nat);
    } else {
        assert(shrunk(carved_once(img, axis), axis, 0) == carved_once(img, axis));
    }
}

/// Carves seams along `axis` until the image is `target` pixels across,
/// handing the image and the step to `sink` after every removal.  Returns
/// whether the sink showed every frame.
fn shrink<F: Fn(&Image, &CarvedSeam) -> bool>(
    image: &mut Image,
    axis: Axis,
    target: u32,
    sink: &F,
) -> (shown: bool)
    requires
        old(image)@.width >= 1,
        old(image)@.height >= 1,
        1 <= target <= extent_across(old(image)@, axis),
        sink_takes_any_frame(*sink),
    ensures
        final(image)@ == shrunk(
            old(image)@,
            axis,
            (extent_across(old(image)@, axis) - target) as nat,
        ),
        final(image)@.wf(),
        extent_across(final(image)@, axis) == target,
        lines_across(final(image)@, axis) == lines_across(old(image)@, axis),
        shown ==> forall|index: int|
            0 <= index < extent_across(old(image)@, axis) - target ==> #[trigger] sink_answers(
                *sink,
                shrunk(old(image)@, axis, index as nat),
                axis,
                true,
            ),
        !shown ==> exists|index: int|
            0 <= index < extent_across(old(image)@, axis) - target && #[trigger] sink_answers(
                *sink,
                shrunk(old(image)@, axis, index as nat),
                axis,
                false,
            ),
{
    let mut shown: bool = true;
    let mut across: u32 = match axis {
        Axis::Vertical => image.width(),
        Axis::Horizontal => image.height(),
    };
    let ghost start = image@;
    while across > target
        invariant
            image@.wf(),
            across == extent_across(image@, axis),
            1 <= target <= across <= extent_across(start, axis),
            lines_across(image@, axis) == lines_across(start, axis),
            lines_across(start, axis) >= 1,
            image@ == shrunk(start, axis, (extent_across(start, axis) - across) as nat),
            sink_takes_any_frame(*sink),
            shown ==> forall|index: int|
                0 <= index < extent_across(start, axis) - across ==> #[trigger] sink_answers(
                    *sink,
                    shrunk(start, axis, index as nat),
                    axis,
                    true,
                ),
            !shown ==> exists|index: int|
                0 <= index < extent_across(start, axis) - across && #[trigger] sink_answers(
                    *sink,
                    shrunk(start, axis, index as nat),
                    axis,
                    false,
                ),
        decreases across - target,
    {
        let ghost done = extent_across(start, axis) - across;
        let ghost before = image@;
        let step: CarvedSeam = carve_once(image, axis);
        let frame_shown: bool = sink(&*image, &step);
        proof {
            lemma_shrunk_once_more(start, axis, done as nat);
            assert(is_frame_of(&*image, &step, before, axis));
            assert(sink_answers(*sink, shrunk(start, axis, done as nat), axis, frame_shown));
        }
        shown = shown && frame_shown;
        across -= 1;
    }
    shown
}

/// Carves the image down to `width_pct` percent of its width, rounded down
/// but at least one pixel, and hands every step to `sink`.
///
/// After each removal the sink gets the image as it now is and the step
/// that led to it.  The result says whether the sink showed every frame;
/// the image is carved whether it did or not.  The height stays as it is.
pub fn adjust_width<F: Fn(&Image, &CarvedSeam) -> bool>(
    width_pct: u32,
    image: &mut Image,
    sink: &F,
) -> (shown: bool)
    requires
        is_percentage(width_pct as int),
        old(image)@.width >= 1,
        old(image)@.height >= 1,
        sink_takes_any_frame(*sink),
    ensures
        final(image)@ == resized(old(image)@, width_pct as int, 100),
        final(image)@.wf(),
        final(image)@.width == scaled_dimension(old(image)@.width as int, width_pct as int),
        final(image)@.height == old(image)@.height,
        shown ==> forall|index: int|
            0 <= index < seams_to_remove(old(image)@.width as int, width_pct as int)
                ==> #[trigger] sink_answers(
                *sink,
                shrunk(old(image)@, Axis::Vertical, index as nat),
                Axis::Vertical,
                true,
            ),
        !shown ==> exists|index: int|
            0 <= index < seams_to_remove(old(image)@.width as int, width_pct as int)
                && #[trigger] sink_answers(
                *sink,
                shrunk(old(image)@, Axis::Vertical, index as nat),
                Axis::Vertical,
                false,
            ),
{
    proof {
        lemma_scaled_dimension(image@.height as int, 100);
    }
    let width: u32 = image.width();
    let target: u32 = target_dimension(width, width_pct);
    shrink(image, Axis::Vertical, target, sink)
}

/// Carves the image down to `height_pct` percent of its height, rounded
/// down but at least one pixel, and hands every step to `sink`.
///
/// After each removal the sink gets the image as it now is and the step
/// that led to it.  The result says whether the sink showed every frame;
/// the image is carved whether it did or not.  The width stays as it is.
pub fn adjust_height<F: Fn(&Image, &CarvedSeam) -> bool>(
    height_pct: u32,
    image: &mut Image,
    sink: &F,
) -> (shown: bool)
    requires
        is_percentage(height_pct as int),
        old(image)@.width >= 1,
        old(image)@.height >= 1,
        sink_takes_any_frame(*sink),
    ensures
        final(image)@ == resized(old(image)@, 100, height_pct as int),
        final(image)@.wf(),
        final(image)@.width == old(image)@.width,
        final(image)@.height == scaled_dimension(old(image)@.height as int, height_pct as int),
        shown ==> forall|index: int|
            0 <= index < seams_to_remove(old(image)@.height as int, height_pct as int)
                ==> #[trigger] sink_answers(
                *sink,
                shrunk(old(image)@, Axis::Horizontal, index as nat),
                Axis::Horizontal,
                true,
            ),
        !shown ==> exists|index: int|
            0 <= index < seams_to_remove(old(image)@.height as int, height_pct as int)
                && #[trigger] sink_answers(
                *sink,
                shrunk(old(image)@, Axis::Horizontal, index as nat),
                Axis::Horizontal,
                false,
            ),
{
    proof {
        lemma_scaled_dimension(image@.width as int, 100);
    }
    let height: u32 = image.height();
    let target: u32 = target_dimension(height, height_pct);
    shrink(image, Axis::Horizontal, target, sink)
}

/// Says what a resize reports once the image is carved: success if the
/// sink showed every frame, `RenderFailed` if it did not.
pub fn render_verdict(shown: bool) -> (result: Result<(), ResizeError>)
    ensures
        shown ==> result is Ok,
        !shown ==> result == Err::<(), ResizeError>(ResizeError::RenderFailed),
{
    if shown {
        Ok(())
    } else {
        Err(ResizeError::RenderFailed)
    }
}

/// A sink that shows nothing and never fails.
pub fn render_nothing(frame: &Image, step: &CarvedSeam) -> (shown: bool)
    ensures
        shown,
{
    true
}

/// Resizes the image to the given percentages of its width and height and
/// hands every step to `sink`.
///
/// Seams are removed across the width first, until the width is
/// `width_pct` percent of what it was, rounded down but at least one
/// pixel; then across the height in the same way.  After each removal the
/// sink gets the image as it now is and the step that led to it.
///
/// Nothing is carved, and the image stays as it is, if a percentage is not
/// between 1 and 100 (`InvalidArgument`) or, failing that, if the image has
/// no column or no row (`InvalidImage`).  Otherwise the image is carved to
/// its target extent, and the result is `RenderFailed` if the sink
/// reported a failure for some frame.
pub fn resize_with_sink<F: Fn(&Image, &CarvedSeam) -> bool>(
    image: &mut Image,
    width_pct: u32,
    height_pct: u32,
    sink: &F,
) -> (result: Result<(), ResizeError>)
    requires
        sink_takes_any_frame(*sink),
    ensures
        refusal(old(image)@, width_pct as int, height_pct as int) matches Some(error) ==> result
            == Err::<(), ResizeError>(error) && final(image)@ == old(image)@,
        refusal(old(image)@, width_pct as int, height_pct as int) is None ==> final(image)@
            == resized(old(image)@, width_pct as int, height_pct as int),
        refusal(old(image)@, width_pct as int, height_pct as int) is None ==> final(image)@.width
            == scaled_dimension(old(image)@.width as int, width_pct as int),
        refusal(old(image)@, width_pct as int, height_pct as int) is None ==> final(image)@.height
            == scaled_dimension(old(image)@.height as int, height_pct as int),
        refusal(old(image)@, width_pct as int, height_pct as int) is None ==> result is Ok
            || result == Err::<(), ResizeError>(ResizeError::RenderFailed),
        refusal(old(image)@, width_pct as int, height_pct as int) is None && result is Ok
            ==> forall|index: int|
            0 <= index < seams_to_remove(old(image)@.width as int, width_pct as int)
                + seams_to_remove(old(image)@.height as int, height_pct as int)
                ==> #[trigger] sink_answers(
                *sink,
                image_before_step(old(image)@, width_pct as int, index),
                step_axis(old(image)@, width_pct as int, index),
                true,
            ),
        refusal(old(image)@, width_pct as int, height_pct as int) is None && result is Err
            ==> exists|index: int|
            0 <= index < seams_to_remove(old(image)@.width as int, width_pct as int)
                + seams_to_remove(old(image)@.height as int, height_pct as int)
                && #[trigger] sink_answers(
                *sink,
                image_before_step(old(image)@, width_pct as int, index),
                step_axis(old(image)@, width_pct as int, index),
                false,
            ),
        final(image)@.wf(),
{
    let width: u32 = image.width();
    let height: u32 = image.height();
    if width_pct < 1 || width_pct > 100 || height_pct < 1 || height_pct > 100 {
        return Err(ResizeError::InvalidArgument);
    }
    if width == 0 || height == 0 {
        return Err(ResizeError::InvalidImage);
    }
    let ghost start = image@;
    let ghost across = seams_to_remove(start.width as int, width_pct as int);
    let ghost down = seams_to_remove(start.height as int, height_pct as int);
    proof {
        lemma_resized_width_first(start, width_pct as int, height_pct as int);
        lemma_scaled_dimension(start.width as int, width_pct as int);
        lemma_scaled_dimension(start.height as int, height_pct as int);
    }
    let shown_across: bool = adjust_width(width_pct, image, sink);
    let ghost narrowed = image@;
    let shown_down: bool = adjust_height(height_pct, image, sink);
    proof {
        assert(narrowed == shrunk(start, Axis::Vertical, across as nat));
        if shown_across && shown_down {
            assert forall|index: int| 0 <= index < across + down implies #[trigger] sink_answers(
                *sink,
                image_before_step(start, width_pct as int, index),
                step_axis(start, width_pct as int, index),
                true,
            ) by {
                if index < across {
                    assert(sink_answers(
                        *sink,
                        shrunk(start, Axis::Vertical, index as nat),
                        Axis::Vertical,
                        true,
                    ));
                } else {
                    assert(sink_answers(
                        *sink,
                        shrunk(narrowed, Axis::Horizontal, (index - across) as nat),
                        Axis::Horizontal,
                        true,
                    ));
                }
            }
        } else if !shown_across {
            let index = choose|index: int|
                0 <= index < across && #[trigger] sink_answers(
                    *sink,
                    shrunk(start, Axis::Vertical, index as nat),
                    Axis::Vertical,
                    false,
                );
            assert(sink_answers(
                *sink,
                image_before_step(start, width_pct as int, index),
                step_axis(start, width_pct as int, index),
                false,
            ));
        } else {
            let index = choose|index: int|
                0 <= index < down && #[trigger] sink_answers(
                    *sink,
                    shrunk(narrowed, Axis::Horizontal, index as nat),
                    Axis::Horizontal,
                    false,
                );
            assert(sink_answers(
                *sink,
                image_before_step(start, width_pct as int, index + across),
                step_axis(start, width_pct as int, index + across),
                false,
            ));
        }
    }
    render_verdict(shown_across && shown_down)
}

/// Resizes the image to the given percentages of its width and height.
///
/// Seams are removed across the width first, until the width is
/// `width_pct` percent of what it was, rounded down but at least one
/// pixel; then across the height in the same way.
///
/// Nothing is carved, and the image stays as it is, if a percentage is not
/// between 1 and 100 (`InvalidArgument`) or, failing that, if the image has
/// no column or no row (`InvalidImage`).
pub fn resize(image: &mut Image, width_pct: u32, height_pct: u32) -> (result: Result<
    (),
    ResizeError,
>)
    ensures
        refusal(old(image)@, width_pct as int, height_pct as int) matches Some(error) ==> result
            == Err::<(), ResizeError>(error) && final(image)@ == old(image)@,
        refusal(old(image)@, width_pct as int, height_pct as int) is None ==> result is Ok,
        refusal(old(image)@, width_pct as int, height_pct as int) is None ==> final(image)@
            == resized(old(image)@, width_pct as int, height_pct as int),
        refusal(old(image)@, width_pct as int, height_pct as int) is None ==> final(image)@.width
            == scaled_dimension(old(image)@.width as int, width_pct as int),
        refusal(old(image)@, width_pct as int, height_pct as int) is None ==> final(image)@.height
            == scaled_dimension(old(image)@.height as int, height_pct as int),
        final(image)@.wf(),
{
    resize_with_sink(image, width_pct, height_pct, &render_nothing)
}

} // verus!
