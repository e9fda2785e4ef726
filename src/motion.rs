//! The frame-to-frame comparison: a reference frame, the motion score of a
//! processed frame against it, and the decision that promotes a frame to
//! reference when it shows motion.
//!
//! Policy: the difference is binarised before the morphological cleanup, and
//! the reference changes only on the first frame and on a detection.

use vstd::prelude::*;
use crate::double_buffer::DoubleBuffer;
use crate::frame::{
    abs_diff_seq, all_equal, binarize_seq, lemma_morph_n_uniform, lemma_sum_uniform, morph_n, morph_pass,
    seq_sum, FrameView, GrayFrame, MASK_ON,
};

verus! {

/// Differences strictly above this intensity count as motion pixels.
pub const DIFF_CUTOFF: u8 = 50;

/// Erosion passes applied to the binary mask.
pub const ERODE_PASSES: usize = 3;

/// Dilation passes applied after erosion.
pub const DILATE_PASSES: usize = 3;

/// A mask whose intensities sum to more than this is a sighting.
pub const MOTION_THRESHOLD: u128 = 10000;

/// The step of a tick that failed.
#[derive(Clone, Copy, Debug, PartialEq, Eq, Structural)]
pub enum Stage {
    Grayscale,
    Blur,
    Difference,
}

/// Why a tick produced no decision.
#[derive(Clone, Copy, Debug, PartialEq, Eq, Structural)]
pub enum CaptureError {
    /// The camera reported a failed read.
    ReadFailed,
    /// A transform of the given stage could not be applied.
    ProcessingFailed(Stage),
    /// The frame that showed motion could not be encoded.
    EncodingFailed,
}

/// A sub-rectangle of the frame; part of the configuration, not applied.
#[derive(Clone, Copy, Debug, PartialEq, Eq, Structural)]
pub struct RegionOfInterest {
    pub x: i32,
    pub y: i32,
    pub width: i32,
    pub height: i32,
}

/// The cleaned binary motion mask of `cur` against `reference`: absolute
/// difference, binarised at `DIFF_CUTOFF`, eroded then dilated.
pub open spec fn motion_mask(cur: FrameView, reference: FrameView) -> Seq<u8> {
    let w = cur.width as int;
    let h = cur.height as int;
    let mask = binarize_seq(abs_diff_seq(cur.pixels, reference.pixels), DIFF_CUTOFF);
    morph_n(morph_n(mask, w, h, false, ERODE_PASSES as nat), w, h, true, DILATE_PASSES as nat)
}

/// Sum of the intensities of the motion mask.
pub open spec fn motion_score(cur: FrameView, reference: FrameView) -> int {
    seq_sum(motion_mask(cur, reference))
}

/// Result and next reference when `frame` is observed with `reference` in place.
pub open spec fn observe_spec(reference: Option<FrameView>, frame: FrameView) -> (
    Result<bool, CaptureError>,
    Option<FrameView>,
) {
    match reference {
        None => (Ok(false), Some(frame)),
        Some(r) => if !frame.same_size(r) {
            (Err(CaptureError::ProcessingFailed(Stage::Difference)), reference)
        } else if motion_score(frame, r) > MOTION_THRESHOLD {
            (Ok(true), Some(frame))
        } else {
            (Ok(false), reference)
        },
    }
}

/// The motion score of `frame` against a reference of the same size.
pub fn motion_score_of(frame: &GrayFrame, reference: &GrayFrame) -> (r: u128)
    requires
        frame@.same_size(reference@),
    ensures
        r == motion_score(frame@, reference@),
{
    let ghost w = frame@.width as int;
    let ghost h = frame@.height as int;
    let ghost mask = binarize_seq(abs_diff_seq(frame@.pixels, reference@.pixels), DIFF_CUTOFF);
    let mut work = DoubleBuffer::new(frame.abs_diff(reference), GrayFrame::empty());
    {
        let (front, back) = work.buffers();
        *back = front.binarized(DIFF_CUTOFF);
    }
    work.swap();
    let mut i: usize = 0;
    while i < ERODE_PASSES
        invariant
            i <= ERODE_PASSES,
            w == frame@.width,
            h == frame@.height,
            work.front_view()@ == (FrameView { width: w as nat, height: h as nat, pixels: morph_n(mask, w, h, false, i as nat) }),
        decreases ERODE_PASSES - i,
    {
        {
            let (front, back) = work.buffers();
            *back = front.morphed(false);
        }
        work.swap();
        i += 1;
        assert(morph_n(mask, w, h, false, i as nat) == morph_pass(morph_n(mask, w, h, false, (i - 1) as nat), w, h, false));
    }
    let ghost eroded = morph_n(mask, w, h, false, ERODE_PASSES as nat);
    let mut j: usize = 0;
    while j < DILATE_PASSES
        invariant
            j <= DILATE_PASSES,
            w == frame@.width,
            h == frame@.height,
            work.front_view()@ == (FrameView { width: w as nat, height: h as nat, pixels: morph_n(eroded, w, h, true, j as nat) }),
        decreases DILATE_PASSES - j,
    {
        {
            let (front, back) = work.buffers();
            *back = front.morphed(true);
        }
        work.swap();
        j += 1;
        assert(morph_n(eroded, w, h, true, j as nat) == morph_pass(morph_n(eroded, w, h, true, (j - 1) as nat), w, h, true));
    }
    work.front().pixel_sum()
}

/// Owns the reference frame and decides, frame by frame, whether the scene moved.
pub struct MotionPipeline {
    reference: Option<GrayFrame>,
    region_of_interest: RegionOfInterest,
}

impl MotionPipeline {
    /// The reference frame as a value, `None` before the first frame.
    pub closed spec fn reference_view(&self) -> Option<FrameView> {
        match self.reference {
            Some(f) => Some(f@),
            None => None,
        }
    }

    /// The configured region of interest.
    pub closed spec fn roi(&self) -> RegionOfInterest {
        self.region_of_interest
    }

    /// A pipeline with no reference frame yet.
    pub fn new(region_of_interest: RegionOfInterest) -> (r: MotionPipeline)
        ensures
            r.reference_view() is None,
            r.roi() == region_of_interest,
    {
        MotionPipeline { reference: None, region_of_interest }
    }

    /// Observes one processed (grayscale, blurred) frame.
    ///
    /// With no reference yet the frame becomes the reference and the answer
    /// is `Ok(false)`. A frame of another size than the reference fails at
    /// the difference stage. Otherwise the answer is whether the motion score
    /// exceeds `MOTION_THRESHOLD`, and on `true` the frame becomes the new
    /// reference; on `false` the reference is kept.
    pub fn observe(&mut self, frame: GrayFrame) -> (r: Result<bool, CaptureError>)
        ensures
            (r, final(self).reference_view()) == observe_spec(old(self).reference_view(), frame@),
            final(self).roi() == old(self).roi(),
    {
        let detected = match &self.reference {
            None => None,
            Some(reference) => {
                if !frame.same_size(reference) {
                    return Err(CaptureError::ProcessingFailed(Stage::Difference));
                }
                Some(motion_score_of(&frame, reference) > MOTION_THRESHOLD)
            },
        };
        match detected {
            None => {
                self.reference = Some(frame);
                Ok(false)
            },
            Some(true) => {
                self.reference = Some(frame);
                Ok(true)
            },
            Some(false) => Ok(false),
        }
    }

    /// The current reference frame, if any.
    pub fn reference(&self) -> (r: Option<&GrayFrame>)
        ensures
            match r {
                Some(f) => self.reference_view() == Some(f@),
                None => self.reference_view() is None,
            },
    {
        match &self.reference {
            Some(f) => Some(f),
            None => None,
        }
    }

    /// The configured region of interest.
    pub fn region_of_interest(&self) -> (r: RegionOfInterest)
        ensures
            r == self.roi(),
    {
        self.region_of_interest
    }
}

/// A frame compared with itself scores zero.
pub proof fn lemma_identical_frames_score_zero(f: FrameView)
    requires
        f.wf(),
    ensures
        motion_score(f, f) == 0,
{
    let w = f.width as int;
    let h = f.height as int;
    let diff = abs_diff_seq(f.pixels, f.pixels);
    assert(all_equal(diff, 0));
    let mask = binarize_seq(diff, DIFF_CUTOFF);
    assert(all_equal(mask, 0));
    lemma_morph_n_uniform(mask, w, h, 0, false, ERODE_PASSES as nat);
    let eroded = morph_n(mask, w, h, false, ERODE_PASSES as nat);
    lemma_morph_n_uniform(eroded, w, h, 0, true, DILATE_PASSES as nat);
    lemma_sum_uniform(motion_mask(f, f), 0);
}

/// An all-`MASK_ON` frame against an all-zero reference of the same size
/// scores `MASK_ON` for every pixel.
pub proof fn lemma_full_contrast_score(cur: FrameView, reference: FrameView)
    requires
        cur.wf(),
        reference.wf(),
        cur.same_size(reference),
        all_equal(reference.pixels, 0),
        all_equal(cur.pixels, MASK_ON),
    ensures
        motion_score(cur, reference) == MASK_ON * cur.pixels.len(),
{
    let w = cur.width as int;
    let h = cur.height as int;
    let diff = abs_diff_seq(cur.pixels, reference.pixels);
    assert(all_equal(diff, MASK_ON));
    let mask = binarize_seq(diff, DIFF_CUTOFF);
    assert(all_equal(mask, MASK_ON));
    lemma_morph_n_uniform(mask, w, h, MASK_ON, false, ERODE_PASSES as nat);
    let eroded = morph_n(mask, w, h, false, ERODE_PASSES as nat);
    lemma_morph_n_uniform(eroded, w, h, MASK_ON, true, DILATE_PASSES as nat);
    lemma_sum_uniform(motion_mask(cur, reference), MASK_ON);
}

/// The first frame after construction never yields a sighting, whatever it
/// holds, and becomes the reference.
pub proof fn lemma_first_frame_bootstraps(frame: FrameView)
    ensures
        observe_spec(None, frame) == (Ok::<bool, CaptureError>(false), Some(frame)),
{
}

/// Observing the same frame twice in a row: if the first observation
/// succeeded, the second yields no sighting and leaves the reference as the
/// first one left it.
pub proof fn lemma_repeated_frame_is_still(reference: Option<FrameView>, frame: FrameView)
    requires
        frame.wf(),
        observe_spec(reference, frame).0 is Ok,
    ensures
        observe_spec(observe_spec(reference, frame).1, frame) == (
            Ok::<bool, CaptureError>(false),
            observe_spec(reference, frame).1,
        ),
{
    lemma_identical_frames_score_zero(frame);
}

/// An all-zero reference and an all-`MASK_ON` frame of the same size, large
/// enough for its score to pass `MOTION_THRESHOLD`, give a sighting, and the
/// frame becomes the reference.
pub proof fn lemma_full_contrast_detects(reference: FrameView, frame: FrameView)
    requires
        frame.wf(),
        reference.wf(),
        frame.same_size(reference),
        all_equal(reference.pixels, 0),
        all_equal(frame.pixels, MASK_ON),
        MASK_ON * frame.pixels.len() > MOTION_THRESHOLD,
    ensures
        motion_score(frame, reference) > MOTION_THRESHOLD,
        observe_spec(Some(reference), frame) == (Ok::<bool, CaptureError>(true), Some(frame)),
{
    lemma_full_contrast_score(frame, reference);
}

/// After a detection the detecting frame is the reference, so observing that
/// same frame next yields no sighting.
pub proof fn lemma_detection_promotes_reference(reference: Option<FrameView>, frame: FrameView)
    requires
        frame.wf(),
        observe_spec(reference, frame).0 == Ok::<bool, CaptureError>(true),
    ensures
        observe_spec(reference, frame).1 == Some(frame),
        observe_spec(Some(frame), frame) == (Ok::<bool, CaptureError>(false), Some(frame)),
{
    lemma_repeated_frame_is_still(reference, frame);
}

} // verus!
