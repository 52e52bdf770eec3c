use seam_carving::resize::{render_nothing, render_verdict, target_dimension};
use seam_carving::{
    adjust_height, adjust_width, calculate_energy_map_height, calculate_energy_map_width,
    carve_once, delete_seam_height, delete_seam_width, find_low_energy_seam_height,
    find_low_energy_seam_width, resize, resize_with_sink, Axis, CarvedSeam, Image, ResizeError,
};
use std::cell::RefCell;

fn gradient_image(width: u32, height: u32) -> Image {
    let mut samples: Vec<u8> = Vec::new();
    for y in 0..height {
        for x in 0..width {
            samples.push(((x * 25) % 256) as u8);
            samples.push(((y * 25) % 256) as u8);
            samples.push((((x + y) * 12) % 256) as u8);
            samples.push(255);
        }
    }
    Image::from_raw(width, height, &samples).unwrap()
}

fn noise_image(width: u32, height: u32, seed: u64, opaque: bool) -> Image {
    let mut state = seed;
    let mut samples: Vec<u8> = Vec::new();
    for _ in 0..(width * height) {
        for channel in 0..4 {
            state = (state * 1103515245 + 12345) % (1 << 31);
            let sample = ((state >> 16) & 0xff) as u8;
            samples.push(if opaque && channel == 3 { 255 } else { sample });
        }
    }
    Image::from_raw(width, height, &samples).unwrap()
}

fn transposed_image(image: &Image) -> Image {
    let mut samples: Vec<u8> = Vec::new();
    for x in 0..image.width() {
        for y in 0..image.height() {
            let pixel = image.get(x, y);
            samples.extend_from_slice(&[pixel.red, pixel.green, pixel.blue, pixel.alpha]);
        }
    }
    Image::from_raw(image.height(), image.width(), &samples).unwrap()
}

fn transparent_column_image() -> Image {
    Image::from_raw(
        4,
        2,
        &[
            10, 20, 30, 255, 200, 100, 50, 0, 40, 50, 60, 255, 70, 80, 90, 255, //
            15, 25, 35, 255, 1, 2, 3, 0, 45, 55, 65, 255, 75, 85, 95, 255,
        ],
    )
    .unwrap()
}

#[test]
fn the_target_is_the_percentage_rounded_down() {
    assert_eq!(target_dimension(7, 50), 3);
    assert_eq!(target_dimension(3, 67), 2);
    assert_eq!(target_dimension(100, 33), 33);
    assert_eq!(target_dimension(10, 99), 9);
    assert_eq!(target_dimension(200, 1), 2);
    assert_eq!(target_dimension(10, 100), 10);
    assert_eq!(target_dimension(1, 100), 1);
}

#[test]
fn the_target_is_at_least_one_pixel() {
    assert_eq!(target_dimension(10, 1), 1);
    assert_eq!(target_dimension(3, 34), 1);
    assert_eq!(target_dimension(199, 1), 1);
    assert_eq!(target_dimension(150, 1), 1);
    assert_eq!(target_dimension(1, 1), 1);
    assert_eq!(target_dimension(0, 50), 1);
    assert_eq!(target_dimension(10, 0), 1);
}

#[test]
fn the_target_of_the_widest_image_does_not_overflow() {
    assert_eq!(target_dimension(u32::MAX, 100), u32::MAX);
    assert_eq!(target_dimension(u32::MAX, 99), 4252017622);
    assert_eq!(target_dimension(u32::MAX, 1), 42949672);
}

#[test]
fn at_100_percent_nothing_is_carved() {
    let mut image = gradient_image(10, 10);
    let before = image.to_raw();
    let frames = RefCell::new(0u32);
    let sink = |_frame: &Image, _step: &CarvedSeam| -> bool {
        *frames.borrow_mut() += 1;
        true
    };
    assert_eq!(resize_with_sink(&mut image, 100, 100, &sink), Ok(()));
    assert_eq!(*frames.borrow(), 0);
    assert_eq!((image.width(), image.height()), (10, 10));
    assert_eq!(image.to_raw(), before);
}

#[test]
fn a_single_vertical_seam_makes_the_image_one_pixel_narrower() {
    let map = vec![vec![1, 9, 1], vec![1, 9, 1]];
    let seam = find_low_energy_seam_width(&map);
    assert_eq!(seam, vec![0, 0]);
    let image = Image::from_raw(3, 2, &[0; 24]).unwrap();
    let carved = delete_seam_width(image, &seam);
    assert_eq!(carved.width(), 2);
    assert_eq!(carved.height(), 2);
}

#[test]
fn a_transparent_column_is_carved_out_first() {
    let mut image = transparent_column_image();
    assert_eq!(
        calculate_energy_map_width(&image),
        vec![vec![42900, -1, 30900, 2700], vec![1749, -1, 11289, 2700]]
    );
    let seams: RefCell<Vec<Vec<usize>>> = RefCell::new(Vec::new());
    let sink = |_frame: &Image, step: &CarvedSeam| -> bool {
        seams.borrow_mut().push(step.seam.clone());
        true
    };
    assert_eq!(resize_with_sink(&mut image, 75, 100, &sink), Ok(()));
    assert_eq!(*seams.borrow(), vec![vec![1, 1]]);
    assert_eq!((image.width(), image.height()), (3, 2));
    assert_eq!(
        image.to_raw(),
        vec![
            10, 20, 30, 255, 40, 50, 60, 255, 70, 80, 90, 255, //
            15, 25, 35, 255, 45, 55, 65, 255, 75, 85, 95, 255,
        ]
    );
}

#[test]
fn one_percent_of_a_small_width_is_clamped_to_one_pixel() {
    let mut image = gradient_image(10, 10);
    let frames: RefCell<Vec<(Axis, u32, u32)>> = RefCell::new(Vec::new());
    let sink = |frame: &Image, step: &CarvedSeam| -> bool {
        frames.borrow_mut().push((step.axis, frame.width(), frame.height()));
        true
    };
    assert_eq!(resize_with_sink(&mut image, 1, 100, &sink), Ok(()));
    assert_eq!((image.width(), image.height()), (1, 10));
    let expected: Vec<(Axis, u32, u32)> =
        (1..=9u32).rev().map(|width| (Axis::Vertical, width, 10)).collect();
    assert_eq!(*frames.borrow(), expected);
    assert_eq!(
        image.to_raw(),
        vec![
            225, 0, 108, 255, 225, 25, 120, 255, 225, 50, 132, 255, 225, 75, 144, 255, 225, 100,
            156, 255, 225, 125, 168, 255, 225, 150, 180, 255, 225, 175, 192, 255, 225, 200, 204,
            255, 225, 225, 216, 255,
        ]
    );
}

#[test]
fn one_percent_of_a_small_height_is_clamped_to_one_pixel() {
    let mut image = gradient_image(10, 10);
    assert_eq!(resize(&mut image, 100, 1), Ok(()));
    assert_eq!((image.width(), image.height()), (10, 1));
    assert_eq!(
        image.to_raw(),
        vec![
            0, 225, 108, 255, 25, 225, 120, 255, 50, 225, 132, 255, 75, 225, 144, 255, 100, 225,
            156, 255, 125, 225, 168, 255, 150, 225, 180, 255, 175, 225, 192, 255, 200, 225, 204,
            255, 225, 225, 216, 255,
        ]
    );
}

#[test]
fn the_resized_image_has_the_target_extent() {
    for (width, height, width_pct, height_pct) in
        [(7u32, 5u32, 50u32, 50u32), (9, 4, 34, 80), (3, 8, 1, 99), (6, 6, 100, 17), (1, 1, 1, 1)]
    {
        let mut image = noise_image(width, height, 11, false);
        assert_eq!(resize(&mut image, width_pct, height_pct), Ok(()));
        assert_eq!(image.width(), (width * width_pct / 100).max(1));
        assert_eq!(image.height(), (height * height_pct / 100).max(1));
        assert_eq!(image.to_raw().len() as u32, 4 * image.width() * image.height());
    }
}

#[test]
fn an_opaque_image_resized_in_both_dimensions() {
    let mut image = noise_image(5, 4, 7, true);
    let steps: RefCell<Vec<(Axis, Vec<usize>, u32, u32)>> = RefCell::new(Vec::new());
    let sink = |frame: &Image, step: &CarvedSeam| -> bool {
        steps.borrow_mut().push((step.axis, step.seam.clone(), frame.width(), frame.height()));
        true
    };
    assert_eq!(resize_with_sink(&mut image, 60, 50, &sink), Ok(()));
    assert_eq!(
        *steps.borrow(),
        vec![
            (Axis::Vertical, vec![0, 0, 0, 0], 4, 4),
            (Axis::Vertical, vec![0, 0, 0, 0], 3, 4),
            (Axis::Horizontal, vec![3, 3, 3], 3, 3),
            (Axis::Horizontal, vec![0, 0, 0], 3, 2),
        ]
    );
    assert_eq!(
        image.to_raw(),
        vec![
            106, 6, 149, 255, 194, 138, 212, 255, 19, 104, 40, 255, //
            74, 145, 17, 255, 93, 59, 81, 255, 194, 83, 164, 255,
        ]
    );
}

#[test]
fn an_image_with_transparency_resized_in_both_dimensions() {
    let mut image = noise_image(6, 5, 99, false);
    let steps: RefCell<Vec<(Axis, Vec<usize>, u32, u32)>> = RefCell::new(Vec::new());
    let sink = |frame: &Image, step: &CarvedSeam| -> bool {
        steps.borrow_mut().push((step.axis, step.seam.clone(), frame.width(), frame.height()));
        true
    };
    assert_eq!(resize_with_sink(&mut image, 50, 60, &sink), Ok(()));
    assert_eq!(
        *steps.borrow(),
        vec![
            (Axis::Vertical, vec![0, 0, 0, 0, 0], 5, 5),
            (Axis::Vertical, vec![1, 1, 0, 0, 0], 4, 5),
            (Axis::Vertical, vec![1, 1, 1, 1, 0], 3, 5),
            (Axis::Horizontal, vec![0, 1, 0], 3, 4),
            (Axis::Horizontal, vec![1, 1, 0], 3, 3),
        ]
    );
    assert_eq!(
        image.to_raw(),
        vec![
            154, 73, 63, 253, 157, 191, 138, 246, 110, 107, 39, 82, //
            219, 11, 232, 250, 253, 66, 236, 66, 15, 162, 125, 154, //
            150, 9, 158, 216, 86, 208, 166, 237, 49, 99, 254, 190,
        ]
    );
}

#[test]
fn the_width_is_carved_before_the_height() {
    for seed in 0..12u64 {
        let source = noise_image(7, 6, seed, seed % 2 == 0);
        let mut at_once = source.clone();
        assert_eq!(resize(&mut at_once, 50, 50), Ok(()));
        let mut in_turn = source.clone();
        assert_eq!(resize(&mut in_turn, 50, 100), Ok(()));
        assert_eq!((in_turn.width(), in_turn.height()), (3, 6));
        assert_eq!(resize(&mut in_turn, 100, 50), Ok(()));
        assert_eq!((in_turn.width(), in_turn.height()), (3, 3));
        assert_eq!(at_once.to_raw(), in_turn.to_raw());
    }
}

#[test]
fn every_step_shrinks_one_dimension_by_one_and_keeps_the_other() {
    let mut image = noise_image(8, 7, 5, false);
    let extents: RefCell<Vec<(Axis, u32, u32)>> = RefCell::new(Vec::new());
    let sink = |frame: &Image, step: &CarvedSeam| -> bool {
        extents.borrow_mut().push((step.axis, frame.width(), frame.height()));
        true
    };
    assert_eq!(resize_with_sink(&mut image, 40, 60, &sink), Ok(()));
    let mut expected: Vec<(Axis, u32, u32)> = Vec::new();
    for width in (3..8u32).rev() {
        expected.push((Axis::Vertical, width, 7));
    }
    for height in (4..7u32).rev() {
        expected.push((Axis::Horizontal, 3, height));
    }
    assert_eq!(*extents.borrow(), expected);
}

#[test]
fn one_step_removes_the_seam_of_least_energy() {
    let source = noise_image(6, 5, 99, false);
    let mut image = source.clone();
    let step = carve_once(&mut image, Axis::Vertical);
    assert_eq!(step.axis, Axis::Vertical);
    assert_eq!(step.energy_map, calculate_energy_map_width(&source));
    assert_eq!(step.seam, find_low_energy_seam_width(&step.energy_map));
    assert_eq!(step.seam, vec![0, 0, 0, 0, 0]);
    assert_eq!((image.width(), image.height()), (5, 5));
    assert_eq!(image.to_raw(), delete_seam_width(source.clone(), &step.seam).to_raw());

    let mut lower = source.clone();
    let step = carve_once(&mut lower, Axis::Horizontal);
    assert_eq!(step.axis, Axis::Horizontal);
    assert_eq!(step.energy_map, calculate_energy_map_height(&source));
    assert_eq!(step.seam, find_low_energy_seam_height(&step.energy_map));
    assert_eq!(step.seam, vec![0, 0, 1, 1, 1, 0]);
    assert_eq!((lower.width(), lower.height()), (6, 4));
    assert_eq!(lower.to_raw(), delete_seam_height(source, &step.seam).to_raw());
}

#[test]
fn the_sink_gets_the_carved_image_and_the_seam_that_went() {
    let mut image = transparent_column_image();
    let seen: RefCell<Vec<(Vec<u8>, Vec<Vec<i32>>, Vec<usize>)>> = RefCell::new(Vec::new());
    let sink = |frame: &Image, step: &CarvedSeam| -> bool {
        seen.borrow_mut().push((frame.to_raw(), step.energy_map.clone(), step.seam.clone()));
        true
    };
    assert_eq!(resize_with_sink(&mut image, 75, 100, &sink), Ok(()));
    let seen = seen.into_inner();
    assert_eq!(seen.len(), 1);
    assert_eq!(seen[0].0, image.to_raw());
    assert_eq!(seen[0].1, vec![vec![42900, -1, 30900, 2700], vec![1749, -1, 11289, 2700]]);
    assert_eq!(seen[0].2, vec![1, 1]);
}

#[test]
fn a_percentage_out_of_range_is_refused() {
    for (width_pct, height_pct) in
        [(0u32, 50u32), (50, 0), (101, 50), (50, 101), (0, 0), (u32::MAX, 100), (100, 1000)]
    {
        let mut image = gradient_image(4, 4);
        let before = image.to_raw();
        assert_eq!(resize(&mut image, width_pct, height_pct), Err(ResizeError::InvalidArgument));
        assert_eq!((image.width(), image.height()), (4, 4));
        assert_eq!(image.to_raw(), before);
    }
}

#[test]
fn an_image_without_pixels_is_refused() {
    for (width, height) in [(0u32, 5u32), (5, 0), (0, 0)] {
        let mut image = Image::from_raw(width, height, &[]).unwrap();
        assert_eq!(resize(&mut image, 50, 50), Err(ResizeError::InvalidImage));
        assert_eq!(resize(&mut image, 100, 100), Err(ResizeError::InvalidImage));
        assert_eq!((image.width(), image.height()), (width, height));
    }
}

#[test]
fn a_bad_percentage_is_reported_before_a_bad_image() {
    let mut image = Image::from_raw(0, 0, &[]).unwrap();
    assert_eq!(resize(&mut image, 0, 50), Err(ResizeError::InvalidArgument));
    assert_eq!(resize(&mut image, 50, 101), Err(ResizeError::InvalidArgument));
}

#[test]
fn a_failing_sink_is_reported_and_the_image_is_carved_all_the_same() {
    let mut image = noise_image(5, 4, 7, true);
    let frames = RefCell::new(0u32);
    let sink = |_frame: &Image, _step: &CarvedSeam| -> bool {
        *frames.borrow_mut() += 1;
        false
    };
    assert_eq!(resize_with_sink(&mut image, 60, 50, &sink), Err(ResizeError::RenderFailed));
    assert_eq!(*frames.borrow(), 4);
    assert_eq!((image.width(), image.height()), (3, 2));
    let mut quiet = noise_image(5, 4, 7, true);
    assert_eq!(resize(&mut quiet, 60, 50), Ok(()));
    assert_eq!(image.to_raw(), quiet.to_raw());
}

#[test]
fn one_failed_frame_is_enough_to_report_a_failure() {
    for failing in 0..4u32 {
        let mut image = noise_image(5, 4, 7, true);
        let frames = RefCell::new(0u32);
        let sink = |_frame: &Image, _step: &CarvedSeam| -> bool {
            let shown = *frames.borrow() != failing;
            *frames.borrow_mut() += 1;
            shown
        };
        assert_eq!(resize_with_sink(&mut image, 60, 50, &sink), Err(ResizeError::RenderFailed));
        assert_eq!(*frames.borrow(), 4);
        assert_eq!((image.width(), image.height()), (3, 2));
    }
}

#[test]
fn a_failing_sink_that_is_never_called_reports_nothing() {
    let mut image = gradient_image(3, 3);
    let sink = |_frame: &Image, _step: &CarvedSeam| -> bool { false };
    assert_eq!(resize_with_sink(&mut image, 100, 100, &sink), Ok(()));
    assert_eq!(resize_with_sink(&mut image, 0, 100, &sink), Err(ResizeError::InvalidArgument));
}

#[test]
fn the_verdict_follows_the_sink() {
    assert_eq!(render_verdict(true), Ok(()));
    assert_eq!(render_verdict(false), Err(ResizeError::RenderFailed));
}

#[test]
fn the_quiet_sink_shows_every_frame() {
    let image = gradient_image(2, 2);
    let step = CarvedSeam { axis: Axis::Vertical, energy_map: vec![vec![0]], seam: vec![0] };
    assert!(render_nothing(&image, &step));
}

#[test]
fn adjusting_the_width_leaves_the_height() {
    let mut image = noise_image(6, 5, 99, false);
    assert!(adjust_width(50, &mut image, &render_nothing));
    assert_eq!((image.width(), image.height()), (3, 5));
    assert_eq!(
        image.to_raw(),
        vec![
            9, 85, 76, 235, 157, 191, 138, 246, 65, 99, 120, 159, //
            154, 73, 63, 253, 255, 142, 185, 212, 55, 144, 167, 193, //
            216, 240, 120, 61, 49, 18, 189, 67, 110, 107, 39, 82, //
            219, 11, 232, 250, 253, 66, 236, 66, 15, 162, 125, 154, //
            150, 9, 158, 216, 86, 208, 166, 237, 49, 99, 254, 190,
        ]
    );
}

#[test]
fn adjusting_the_height_leaves_the_width() {
    let mut image = noise_image(6, 5, 99, false);
    let seams: RefCell<Vec<Vec<usize>>> = RefCell::new(Vec::new());
    let sink = |_frame: &Image, step: &CarvedSeam| -> bool {
        seams.borrow_mut().push(step.seam.clone());
        false
    };
    assert!(!adjust_height(60, &mut image, &sink));
    assert_eq!(*seams.borrow(), vec![vec![0, 0, 1, 1, 1, 0], vec![1, 1, 1, 1, 1, 0]]);
    assert_eq!((image.width(), image.height()), (6, 3));
    assert_eq!(
        image.to_raw(),
        vec![
            220, 145, 148, 60, 154, 73, 63, 253, 14, 211, 108, 120, 104, 112, 170, 33, 157, 191,
            138, 246, 110, 107, 39, 82, //
            140, 159, 42, 56, 191, 134, 219, 129, 219, 11, 232, 250, 126, 239, 170, 198, 253, 66,
            236, 66, 15, 162, 125, 154, //
            60, 50, 120, 40, 3, 90, 78, 144, 206, 64, 152, 156, 150, 9, 158, 216, 86, 208, 166,
            237, 49, 99, 254, 190,
        ]
    );
}

#[test]
fn carving_the_transposed_image_gives_the_transposed_result() {
    for seed in 0..12u64 {
        let source = noise_image(6, 5, seed, seed % 3 != 0);
        let mut upright = source.clone();
        let mut mirrored = transposed_image(&source);
        let step = carve_once(&mut upright, Axis::Vertical);
        let mirrored_step = carve_once(&mut mirrored, Axis::Horizontal);
        assert_eq!(step.seam, mirrored_step.seam);
        assert_eq!(mirrored.to_raw(), transposed_image(&upright).to_raw());

        let mut narrowed = source.clone();
        assert_eq!(resize(&mut narrowed, 50, 100), Ok(()));
        let mut lowered = transposed_image(&source);
        assert_eq!(resize(&mut lowered, 100, 50), Ok(()));
        assert_eq!(lowered.to_raw(), transposed_image(&narrowed).to_raw());

        let mut flattened = source.clone();
        assert_eq!(resize(&mut flattened, 100, 40), Ok(()));
        let mut squeezed = transposed_image(&source);
        assert_eq!(resize(&mut squeezed, 40, 100), Ok(()));
        assert_eq!(squeezed.to_raw(), transposed_image(&flattened).to_raw());
    }
}

#[test]
fn a_single_pixel_stays() {
    let mut image = Image::from_raw(1, 1, &[1, 2, 3, 4]).unwrap();
    assert_eq!(resize(&mut image, 1, 1), Ok(()));
    assert_eq!(image.to_raw(), vec![1, 2, 3, 4]);
}

#[test]
fn a_larger_image_with_transparency() {
    let mut image = noise_image(40, 30, 2024, false);
    assert_eq!(resize(&mut image, 45, 70), Ok(()));
    assert_eq!((image.width(), image.height()), (18, 21));
    let samples = image.to_raw();
    assert_eq!(samples.len(), 1512);
    assert_eq!(samples[..8], [44, 191, 71, 246, 21, 152, 36, 252]);
    assert_eq!(samples[1504..], [73, 52, 176, 8, 10, 7, 107, 62]);
    assert_eq!(samples.iter().map(|&sample| sample as u64).sum::<u64>(), 194363);
    let digest = samples.iter().fold(0u64, |digest, &sample| (digest * 31 + sample as u64) % 1000000007);
    assert_eq!(digest, 222578267);
}

#[test]
fn resizing_both_dimensions_of_the_transposed_image_may_differ() {
    // The top-left and bottom-right pixels are transparent.
    let samples = [1, 0, 0, 0, 2, 0, 0, 255, 3, 0, 0, 255, 4, 0, 0, 0];
    let mut upright = Image::from_raw(2, 2, &samples).unwrap();
    let mut mirrored = transposed_image(&upright);
    assert_eq!(resize(&mut upright, 50, 50), Ok(()));
    assert_eq!(resize(&mut mirrored, 50, 50), Ok(()));
    assert_eq!(upright.to_raw(), vec![3, 0, 0, 255]);
    assert_eq!(mirrored.to_raw(), vec![2, 0, 0, 255]);
}
