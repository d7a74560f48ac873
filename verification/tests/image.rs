use sstv::grid::IntensityGrid;
use sstv::img::{Image, RGB};

#[test]
fn a_new_picture_is_black() {
    let image = Image::new(2, 3);
    assert_eq!((image.height(), image.width()), (2, 3));
    assert_eq!(image.buffer_size(), 18);
    assert_eq!(image.data(), &vec![0u8; 18]);
    assert_eq!(image.get_pixel(2, 1), Some(RGB { r: 0, g: 0, b: 0 }));
}

#[test]
fn an_empty_picture() {
    let mut image = Image::new(0, 5);
    assert_eq!(image.buffer_size(), 0);
    assert_eq!(image.get_pixel(0, 0), None);
    assert!(!image.set_pixel_usize(0, 0, (1, 2, 3)));
    let image = Image::new(5, 0);
    assert_eq!(image.buffer_size(), 0);
    assert_eq!(image.get_offset(0, 0), None);
}

#[test]
fn a_pixel_is_set_and_read_back() {
    let mut image = Image::new(2, 3);
    assert!(image.set_pixel_usize(1, 1, (10, 20, 30)));
    assert_eq!(image.get_pixel(1, 1), Some(RGB { r: 10, g: 20, b: 30 }));
    assert_eq!(image.get_offset(1, 1), Some(12));
    assert_eq!(&image.data()[12..15], &[10, 20, 30]);
    assert_eq!(image.data().iter().filter(|byte| **byte != 0).count(), 3);
}

#[test]
fn only_the_low_byte_of_a_component_is_kept() {
    let mut image = Image::new(1, 1);
    assert!(image.set_pixel_usize(0, 0, (256, 511, 1000)));
    assert_eq!(image.get_pixel(0, 0), Some(RGB { r: 0, g: 255, b: 232 }));
    assert!(image.set_pixel_usize(0, 0, (usize::MAX, 255, 0)));
    assert_eq!(image.get_pixel(0, 0), Some(RGB { r: 255, g: 255, b: 0 }));
}

#[test]
fn offsets_run_on_into_the_next_row() {
    let mut image = Image::new(2, 3);
    assert_eq!(image.get_offset(0, 0), Some(0));
    assert_eq!(image.get_offset(2, 1), Some(15));
    // beyond the width the offset lies in the next row
    assert_eq!(image.get_offset(3, 0), Some(9));
    assert!(image.set_pixel_usize(3, 0, (1, 2, 3)));
    assert_eq!(image.get_pixel(0, 1), Some(RGB { r: 1, g: 2, b: 3 }));
}

#[test]
fn beyond_the_buffer_there_is_no_pixel() {
    let mut image = Image::new(2, 3);
    assert_eq!(image.get_offset(0, 2), None);
    assert_eq!(image.get_offset(3, 1), None);
    assert_eq!(image.get_pixel(6, 0), None);
    assert_eq!(image.get_pixel(u32::MAX, u32::MAX), None);
    assert!(!image.set_pixel_usize(0, 2, (9, 9, 9)));
    assert!(!image.set_pixel_usize(u32::MAX, 0, (9, 9, 9)));
    assert_eq!(image.data(), &vec![0u8; 18]);
}

#[test]
fn a_picture_from_its_bytes() {
    let image = Image::from_data(1, 2, vec![1, 2, 3, 4, 5, 6]).expect("a picture");
    assert_eq!((image.height(), image.width()), (1, 2));
    assert_eq!(image.get_pixel(1, 0), Some(RGB { r: 4, g: 5, b: 6 }));
    assert!(Image::from_data(1, 2, vec![1, 2, 3, 4, 5]).is_none());
    assert!(Image::from_data(2, 2, vec![0; 6]).is_none());
    assert!(Image::from_data(0, 0, vec![]).is_some());
    assert!(Image::from_data(u32::MAX, u32::MAX, vec![]).is_none());
    assert!(Image::from_data(0x10000, 0x10000, vec![]).is_none());
}

#[test]
fn a_new_grid_is_zero() {
    let grid = IntensityGrid::new(2, 3, 4);
    assert_eq!((grid.lines(), grid.channels(), grid.columns()), (2, 3, 4));
    assert_eq!(grid.len(), 24);
    for index in 0..24 {
        assert_eq!(grid.cell(index), 0);
    }
    assert_eq!(IntensityGrid::new(0, 3, 4).len(), 0);
}

#[test]
fn cells_lie_in_the_order_of_the_scan() {
    let mut grid = IntensityGrid::new(2, 3, 4);
    grid.set(1, 2, 3, 99);
    assert_eq!(grid.get(1, 2, 3), 99);
    assert_eq!(grid.cell(23), 99);
    grid.set(0, 1, 2, 7);
    assert_eq!(grid.cell(6), 7);
    grid.set(1, 0, 0, 8);
    assert_eq!(grid.cell(12), 8);
    grid.put(5, 42);
    assert_eq!(grid.get(0, 1, 1), 42);
    let mut set = 0;
    for index in 0..24 {
        if grid.cell(index) != 0 {
            set += 1;
        }
    }
    assert_eq!(set, 4);
}
