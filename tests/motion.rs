use dog_monitor::frame::GrayFrame;
use dog_monitor::motion::{
    motion_score_of, CaptureError, MotionPipeline, RegionOfInterest, Stage, MOTION_THRESHOLD,
};

fn frame(width: usize, height: usize, data: Vec<u8>) -> GrayFrame {
    GrayFrame::from_pixels(width, height, data).expect("pixel count matches the size")
}

fn filled(width: usize, height: usize, value: u8) -> GrayFrame {
    frame(width, height, vec![value; width * height])
}

fn roi() -> RegionOfInterest {
    RegionOfInterest { x: 0, y: 0, width: 640, height: 480 }
}

/// A blank 100x100 frame with a bright 50x50 square at (25, 25).
fn with_square() -> GrayFrame {
    let mut data = vec![0u8; 100 * 100];
    for y in 25..75 {
        for x in 25..75 {
            data[y * 100 + x] = 255;
        }
    }
    frame(100, 100, data)
}

#[test]
fn first_frame_bootstraps() {
    let mut p = MotionPipeline::new(roi());
    assert!(p.reference().is_none());
    assert_eq!(p.observe(filled(8, 8, 255)), Ok(false));
    let r = p.reference().expect("the first frame becomes the reference");
    assert_eq!(r.pixels(), &[255u8; 64][..]);
    assert_eq!(p.region_of_interest(), roi());
}

#[test]
fn identical_frame_twice_is_still() {
    let mut p = MotionPipeline::new(roi());
    assert_eq!(p.observe(filled(10, 10, 0)), Ok(false));
    assert_eq!(p.observe(filled(10, 10, 255)), Ok(true));
    assert_eq!(p.observe(filled(10, 10, 255)), Ok(false));
    assert_eq!(p.reference().unwrap().pixels(), &[255u8; 100][..]);
    assert_eq!(p.observe(filled(10, 10, 255)), Ok(false));
    assert_eq!(p.reference().unwrap().pixels(), &[255u8; 100][..]);
}

#[test]
fn small_square_is_eroded_away() {
    // An 8x8 square in a 10x10 frame does not survive three erosion passes.
    let mut data = vec![0u8; 100];
    for y in 1..9 {
        for x in 1..9 {
            data[y * 10 + x] = 200;
        }
    }
    let square = frame(10, 10, data);
    assert_eq!(motion_score_of(&square, &filled(10, 10, 0)), 0);
}

#[test]
fn still_frame_keeps_reference() {
    let mut p = MotionPipeline::new(roi());
    assert_eq!(p.observe(filled(10, 10, 40)), Ok(false));
    // A uniform change of 30 stays under the cutoff: no motion, reference kept.
    assert_eq!(p.observe(filled(10, 10, 70)), Ok(false));
    assert_eq!(p.reference().unwrap().pixels(), &[40u8; 100][..]);
}

#[test]
fn full_contrast_is_detected() {
    let reference = filled(10, 10, 0);
    let bright = filled(10, 10, 255);
    assert_eq!(motion_score_of(&bright, &reference), 25500);
    assert!(motion_score_of(&bright, &reference) > MOTION_THRESHOLD);
    let mut p = MotionPipeline::new(roi());
    assert_eq!(p.observe(filled(10, 10, 0)), Ok(false));
    assert_eq!(p.observe(filled(10, 10, 255)), Ok(true));
    assert_eq!(p.reference().unwrap().pixels(), &[255u8; 100][..]);
}

#[test]
fn detection_promotes_reference() {
    let mut p = MotionPipeline::new(roi());
    assert_eq!(p.observe(filled(10, 10, 0)), Ok(false));
    assert_eq!(p.observe(filled(10, 10, 255)), Ok(true));
    assert_eq!(p.observe(filled(10, 10, 255)), Ok(false));
    // Back to the old scene is motion again, against the promoted reference.
    assert_eq!(p.observe(filled(10, 10, 0)), Ok(true));
}

#[test]
fn end_to_end_square_scenario() {
    let mut p = MotionPipeline::new(roi());
    let blank = filled(100, 100, 0);
    assert_eq!(p.observe(blank), Ok(false));
    assert_eq!(p.reference().unwrap().pixels(), &vec![0u8; 10000][..]);
    assert_eq!(motion_score_of(&with_square(), &filled(100, 100, 0)), 2500 * 255);
    assert_eq!(p.observe(with_square()), Ok(true));
    assert_eq!(p.reference().unwrap().pixels(), with_square().pixels());
    assert_eq!(p.observe(with_square()), Ok(false));
}

#[test]
fn isolated_noise_is_cleaned_away() {
    let reference = filled(20, 20, 0);
    let mut data = vec![0u8; 400];
    data[5 * 20 + 5] = 255;
    data[15 * 20 + 12] = 255;
    let noisy = frame(20, 20, data);
    assert_eq!(motion_score_of(&noisy, &reference), 0);
    let mut p = MotionPipeline::new(roi());
    assert_eq!(p.observe(filled(20, 20, 0)), Ok(false));
    assert_eq!(p.observe(frame(20, 20, noisy.pixels().to_vec())), Ok(false));
}

#[test]
fn small_frame_stays_under_threshold() {
    // 36 pixels at full contrast sum to 9180, not above the threshold.
    assert_eq!(motion_score_of(&filled(6, 6, 255), &filled(6, 6, 0)), 9180);
    let mut p = MotionPipeline::new(roi());
    assert_eq!(p.observe(filled(6, 6, 0)), Ok(false));
    assert_eq!(p.observe(filled(6, 6, 255)), Ok(false));
    assert_eq!(p.reference().unwrap().pixels(), &[0u8; 36][..]);
}

#[test]
fn size_mismatch_fails_at_difference() {
    let mut p = MotionPipeline::new(roi());
    assert_eq!(p.observe(filled(2, 2, 0)), Ok(false));
    assert_eq!(
        p.observe(filled(3, 3, 255)),
        Err(CaptureError::ProcessingFailed(Stage::Difference))
    );
    let r = p.reference().unwrap();
    assert_eq!(r.width(), 2);
    assert_eq!(r.height(), 2);
}
