use seam_carving::{delete_seam_height, delete_seam_width, Axis, Image};

fn numbered_image(width: u32, height: u32) -> Image {
    let mut samples: Vec<u8> = Vec::new();
    for y in 0..height {
        for x in 0..width {
            samples.push((10 * y + x) as u8);
            samples.push(x as u8);
            samples.push(y as u8);
            samples.push(255);
        }
    }
    Image::from_raw(width, height, &samples).unwrap()
}

fn red_rows(image: &Image) -> Vec<Vec<u8>> {
    (0..image.height())
        .map(|y| (0..image.width()).map(|x| image.get(x, y).red).collect())
        .collect()
}

#[test]
fn a_vertical_seam_takes_one_pixel_from_every_row() {
    let carved = delete_seam_width(numbered_image(4, 3), &vec![0, 2, 3]);
    assert_eq!(carved.width(), 3);
    assert_eq!(carved.height(), 3);
    assert_eq!(red_rows(&carved), vec![vec![1, 2, 3], vec![10, 11, 13], vec![20, 21, 22]]);
}

#[test]
fn a_horizontal_seam_takes_one_pixel_from_every_column() {
    let carved = delete_seam_height(numbered_image(4, 3), &vec![0, 1, 2, 1]);
    assert_eq!(carved.width(), 4);
    assert_eq!(carved.height(), 2);
    assert_eq!(red_rows(&carved), vec![vec![10, 1, 2, 3], vec![20, 21, 12, 23]]);
}

#[test]
fn the_pixels_that_stay_keep_all_their_channels() {
    let carved = delete_seam_width(numbered_image(3, 2), &vec![1, 0]);
    assert_eq!(
        carved.to_raw(),
        vec![0, 0, 0, 255, 2, 2, 0, 255, 11, 1, 1, 255, 12, 2, 1, 255]
    );
}

#[test]
fn removing_a_seam_in_place_shrinks_one_dimension_by_one() {
    let mut image = numbered_image(4, 3);
    image.remove_seam(&vec![1, 1, 1], Axis::Vertical);
    assert_eq!((image.width(), image.height()), (3, 3));
    assert_eq!(red_rows(&image), vec![vec![0, 2, 3], vec![10, 12, 13], vec![20, 22, 23]]);
    image.remove_seam(&vec![2, 0, 1], Axis::Horizontal);
    assert_eq!((image.width(), image.height()), (3, 2));
    assert_eq!(red_rows(&image), vec![vec![0, 12, 3], vec![10, 22, 23]]);
}

#[test]
fn without_seam_leaves_the_image_as_it_is() {
    let image = numbered_image(3, 2);
    let carved = image.without_seam(&vec![2, 2], Axis::Vertical);
    assert_eq!(red_rows(&image), vec![vec![0, 1, 2], vec![10, 11, 12]]);
    assert_eq!(red_rows(&carved), vec![vec![0, 1], vec![10, 11]]);
}

#[test]
fn a_seam_need_not_be_connected_to_be_removed() {
    let carved = delete_seam_width(numbered_image(4, 3), &vec![0, 3, 0]);
    assert_eq!(red_rows(&carved), vec![vec![1, 2, 3], vec![10, 11, 12], vec![21, 22, 23]]);
}

#[test]
fn an_entry_beyond_the_image_removes_the_last_pixel_of_its_line() {
    let carved = delete_seam_width(numbered_image(3, 2), &vec![3, 700]);
    assert_eq!(red_rows(&carved), vec![vec![0, 1], vec![10, 11]]);
    let lower = delete_seam_height(numbered_image(2, 3), &vec![usize::MAX, 1]);
    assert_eq!(red_rows(&lower), vec![vec![0, 1], vec![10, 21]]);
}

#[test]
fn entries_beyond_the_last_line_are_ignored() {
    let carved = delete_seam_width(numbered_image(3, 2), &vec![1, 1, 0, 2, 9]);
    assert_eq!(red_rows(&carved), vec![vec![0, 2], vec![10, 12]]);
}

#[test]
fn the_last_column_and_the_last_row_can_go() {
    let column = delete_seam_width(numbered_image(1, 3), &vec![0, 0, 0]);
    assert_eq!((column.width(), column.height()), (0, 3));
    assert!(column.to_raw().is_empty());
    let row = delete_seam_height(numbered_image(3, 1), &vec![0, 0, 0]);
    assert_eq!((row.width(), row.height()), (3, 0));
    assert!(row.to_raw().is_empty());
}

#[test]
fn an_image_without_rows_loses_a_column_all_the_same() {
    let image = Image::from_raw(3, 0, &[]).unwrap();
    let carved = delete_seam_width(image, &vec![]);
    assert_eq!((carved.width(), carved.height()), (2, 0));
}
