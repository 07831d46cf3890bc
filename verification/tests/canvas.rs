use naqshsmit::image_canvas::{Canvas, ImageError};

#[test]
fn new_canvas_holds_the_initial_value() {
    let canvas = Canvas::new(4, 3, 20);
    assert_eq!(canvas.get_size(), (4, 3));
    for y in 0..3 {
        for x in 0..4 {
            assert_eq!(canvas.get_pixel_impl(x, y), 20);
        }
    }
}

#[test]
fn canvas_without_rows_has_no_size() {
    let canvas = Canvas::new(5, 0, 1);
    assert_eq!(canvas.get_size(), (0, 0));
    assert!(canvas.get_map().is_empty());
}

#[test]
fn set_pixel_reports_row_before_column() {
    let mut canvas = Canvas::new(4, 3, 0);
    assert_eq!(canvas.set_pixel(9, 9, 1), Err(ImageError::ErrorGettingRow));
    assert_eq!(canvas.set_pixel(9, 1, 1), Err(ImageError::ErrorGettingPixel));
    assert_eq!(canvas.set_pixel(1, 3, 1), Err(ImageError::ErrorGettingRow));
    assert_eq!(canvas.set_pixel(4, 2, 1), Err(ImageError::ErrorGettingPixel));
    assert_eq!(canvas.get_map(), vec![vec![0u8; 4]; 3]);
}

#[test]
fn set_pixel_writes_one_cell() {
    let mut canvas = Canvas::new(4, 3, 0);
    assert_eq!(canvas.set_pixel(1, 2, 7), Ok(()));
    assert_eq!(canvas.get_pixel_impl(1, 2), 7);
    let mut expected = vec![vec![0u8; 4]; 3];
    expected[2][1] = 7;
    assert_eq!(canvas.get_map(), expected);
}

#[test]
fn set_pixel_takes_the_magnitude_of_a_negative_coordinate() {
    let mut canvas = Canvas::new(4, 3, 0);
    assert_eq!(canvas.set_pixel(-3, -1, 9), Ok(()));
    assert_eq!(canvas.get_pixel_impl(3, 1), 9);
    assert_eq!(canvas.set_pixel(i32::MIN, 0, 9), Err(ImageError::ErrorGettingPixel));
    assert_eq!(canvas.set_pixel(0, i32::MIN, 9), Err(ImageError::ErrorGettingRow));
}

#[test]
fn get_map_is_a_copy() {
    let mut canvas = Canvas::new(2, 2, 5);
    let snapshot = canvas.get_map();
    canvas.set_pixel(0, 0, 6).unwrap();
    assert_eq!(snapshot, vec![vec![5u8, 5], vec![5, 5]]);
    assert_eq!(canvas.get_map(), vec![vec![6u8, 5], vec![5, 5]]);
}

#[test]
fn clone_holds_the_same_pixels() {
    let mut canvas = Canvas::new(3, 2, 1);
    canvas.set_pixel(2, 1, 8).unwrap();
    let copy = canvas.clone();
    canvas.set_pixel(0, 0, 9).unwrap();
    assert_eq!(copy.get_map(), vec![vec![1u8, 1, 1], vec![1, 1, 8]]);
    assert_eq!(copy.get_size(), (3, 2));
}

#[test]
fn sizes_that_a_canvas_can_hold() {
    assert!(Canvas::can_hold(800, 800));
    assert!(Canvas::can_hold(0, usize::MAX));
    assert!(Canvas::can_hold(usize::MAX, 0));
    assert!(Canvas::can_hold(isize::MAX as usize / 8, 1));
    assert!(!Canvas::can_hold(isize::MAX as usize / 8 + 1, 1));
    assert!(!Canvas::can_hold(usize::MAX, usize::MAX));
    assert!(!Canvas::can_hold(1 << 40, 1 << 40));
}
