use dog_monitor::frame::GrayFrame;

fn frame(width: usize, height: usize, data: Vec<u8>) -> GrayFrame {
    GrayFrame::from_pixels(width, height, data).expect("pixel count matches the size")
}

#[test]
fn from_pixels_checks_the_pixel_count() {
    assert!(GrayFrame::from_pixels(2, 2, vec![0u8; 3]).is_none());
    assert!(GrayFrame::from_pixels(2, 2, vec![0u8; 5]).is_none());
    assert!(GrayFrame::from_pixels(usize::MAX, 2, vec![]).is_none());
    let f = frame(3, 2, vec![1, 2, 3, 4, 5, 6]);
    assert_eq!(f.width(), 3);
    assert_eq!(f.height(), 2);
    assert_eq!(f.pixels(), &[1u8, 2, 3, 4, 5, 6][..]);
    assert!(!f.is_empty());
}

#[test]
fn empty_and_default_frames() {
    let e = GrayFrame::empty();
    assert!(e.is_empty());
    assert_eq!(e.width(), 0);
    assert_eq!(e.height(), 0);
    let d = GrayFrame::default();
    assert!(d.is_empty());
    assert!(d.same_size(&e));
}

#[test]
fn abs_diff_per_pixel() {
    let a = frame(2, 2, vec![10, 200, 0, 255]);
    let b = frame(2, 2, vec![30, 50, 0, 0]);
    let d = a.abs_diff(&b);
    assert_eq!(d.pixels(), &[20u8, 150, 0, 255][..]);
    assert_eq!(d.width(), 2);
    assert_eq!(d.height(), 2);
}

#[test]
fn binarized_at_cutoff() {
    let f = frame(4, 1, vec![50, 51, 0, 255]);
    let m = f.binarized(50);
    assert_eq!(m.pixels(), &[0u8, 255, 0, 255][..]);
}

#[test]
fn erosion_takes_window_minimum() {
    let mut data = vec![255u8; 25];
    data[12] = 0;
    let f = frame(5, 5, data);
    let e = f.morphed(false);
    assert_eq!(e.pixels(), &[0u8; 25][..]);

    let g = frame(7, 1, vec![9, 8, 7, 6, 5, 4, 3]);
    assert_eq!(g.morphed(false).pixels(), &[7u8, 6, 5, 4, 3, 3, 3][..]);
}

#[test]
fn dilation_takes_window_maximum() {
    let f = frame(6, 1, vec![255, 0, 0, 0, 0, 0]);
    assert_eq!(f.morphed(true).pixels(), &[255u8, 255, 255, 0, 0, 0][..]);

    let mut data = vec![0u8; 36];
    data[0] = 100;
    let g = frame(6, 6, data);
    let d = g.morphed(true);
    for y in 0..6 {
        for x in 0..6 {
            let expected = if x <= 2 && y <= 2 { 100 } else { 0 };
            assert_eq!(d.pixels()[y * 6 + x], expected, "pixel ({}, {})", x, y);
        }
    }
}

#[test]
fn pixel_sum_adds_all_intensities() {
    assert_eq!(frame(3, 1, vec![1, 2, 3]).pixel_sum(), 6);
    assert_eq!(GrayFrame::empty().pixel_sum(), 0);
    assert_eq!(frame(10, 10, vec![255u8; 100]).pixel_sum(), 25500);
}
