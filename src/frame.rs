//! Single-channel frames and the pixel operations of the motion pipeline:
//! absolute difference, binarisation, rectangular erosion/dilation and the
//! sum of all intensities.

use vstd::prelude::*;

verus! {

/// Half the side of the square structuring element (a 5x5 rectangle).
pub const MORPH_RADIUS: usize = 2;

/// The value given to pixels above the binarisation cutoff.
pub const MASK_ON: u8 = 255;

/// A frame as a mathematical value: its size and its pixels in row-major order.
pub struct FrameView {
    pub width: nat,
    pub height: nat,
    pub pixels: Seq<u8>,
}

impl FrameView {
    /// One pixel per position of the grid.
    pub open spec fn wf(self) -> bool {
        self.pixels.len() == self.width * self.height
    }

    /// Same grid size as `other`.
    pub open spec fn same_size(self, other: FrameView) -> bool {
        self.width == other.width && self.height == other.height
    }
}

/// Per-pixel absolute difference of two sequences of equal length.
pub open spec fn abs_diff_seq(a: Seq<u8>, b: Seq<u8>) -> Seq<u8> {
    Seq::new(a.len(), |i: int| (if a[i] >= b[i] { a[i] - b[i] } else { b[i] - a[i] }) as u8)
}

/// Pixels strictly above `cutoff` become `MASK_ON`, the others zero.
pub open spec fn binarize_seq(s: Seq<u8>, cutoff: u8) -> Seq<u8> {
    Seq::new(s.len(), |i: int| if s[i] > cutoff { MASK_ON } else { 0u8 })
}

impl Default for GrayFrame {
    /// The frame with no pixels.
    fn default() -> (r: GrayFrame)
        ensures
            r@ == (FrameView { width: 0, height: 0, pixels: Seq::empty() }),
    {
        GrayFrame::empty()
    }
}

/// The larger (`is_max`) or the smaller of two values.
pub open spec fn pick(is_max: bool, a: u8, b: u8) -> u8 {
    if is_max {
        if a >= b { a } else { b }
    } else {
        if a <= b { a } else { b }
    }
}

/// Max or min of the pixels `x0..=x1` of row `y`.
pub open spec fn row_fold(s: Seq<u8>, w: int, y: int, x0: int, x1: int, is_max: bool) -> u8
    decreases x1 - x0,
{
    if x1 <= x0 {
        s[y * w + x0]
    } else {
        pick(is_max, row_fold(s, w, y, x0, x1 - 1, is_max), s[y * w + x1])
    }
}

/// Max or min of the pixels in columns `x0..=x1` of rows `y0..=y1`.
pub open spec fn rect_fold(s: Seq<u8>, w: int, x0: int, x1: int, y0: int, y1: int, is_max: bool) -> u8
    decreases y1 - y0,
{
    if y1 <= y0 {
        row_fold(s, w, y0, x0, x1, is_max)
    } else {
        pick(is_max, rect_fold(s, w, x0, x1, y0, y1 - 1, is_max), row_fold(s, w, y1, x0, x1, is_max))
    }
}

/// Lower end of the window around `c`, clipped to the grid.
pub open spec fn win_lo(c: int) -> int {
    if c >= MORPH_RADIUS { c - MORPH_RADIUS } else { 0 }
}

/// Upper end of the window around `c`, clipped to a side of length `n`.
pub open spec fn win_hi(c: int, n: int) -> int {
    if c + MORPH_RADIUS < n { c + MORPH_RADIUS } else { n - 1 }
}

/// Max or min over the 5x5 window centred on `(x, y)`, clipped to the grid.
pub open spec fn window_at(s: Seq<u8>, w: int, h: int, x: int, y: int, is_max: bool) -> u8 {
    rect_fold(s, w, win_lo(x), win_hi(x, w), win_lo(y), win_hi(y, h), is_max)
}

/// One dilation (`is_max`) or erosion pass with the 5x5 rectangle.
pub open spec fn morph_pass(s: Seq<u8>, w: int, h: int, is_max: bool) -> Seq<u8> {
    Seq::new(s.len(), |k: int| window_at(s, w, h, k % w, k / w, is_max))
}

/// `n` passes of dilation (`is_max`) or erosion.
pub open spec fn morph_n(s: Seq<u8>, w: int, h: int, is_max: bool, n: nat) -> Seq<u8>
    decreases n,
{
    if n == 0 {
        s
    } else {
        morph_pass(morph_n(s, w, h, is_max, (n - 1) as nat), w, h, is_max)
    }
}

/// Sum of all values.
pub open spec fn seq_sum(s: Seq<u8>) -> int
    decreases s.len(),
{
    if s.len() == 0 {
        0
    } else {
        seq_sum(s.drop_last()) + s.last()
    }
}

/// Position `(x, y)` of a `w` by `h` grid lies inside its row-major storage.
pub proof fn lemma_index_in_grid(x: int, y: int, w: int, h: int)
    requires
        0 <= x < w,
        0 <= y < h,
    ensures
        0 <= y * w + x < w * h,
{
    assert(0 <= y * w + x < w * h) by (nonlinear_arith)
        requires
            0 <= x < w,
            0 <= y < h,
    ;
}

/// Index `k` of a `w` by `h` grid's storage is column `k % w` of row `k / w`.
pub proof fn lemma_grid_of_index(k: int, w: int, h: int)
    requires
        0 <= w,
        0 <= h,
        0 <= k < w * h,
    ensures
        w > 0,
        0 <= k % w < w,
        0 <= k / w < h,
{
    assert(w > 0) by (nonlinear_arith)
        requires
            0 <= k < w * h,
            0 <= w,
            0 <= h,
    ;
    vstd::arithmetic::div_mod::lemma_fundamental_div_mod(k, w);
    assert(0 <= k / w < h) by (nonlinear_arith)
        requires
            k == w * (k / w) + (k % w),
            0 <= k % w < w,
            0 <= k < w * h,
    ;
}

/// A frame of single-channel 8-bit pixels in row-major order.
pub struct GrayFrame {
    width: usize,
    height: usize,
    data: Vec<u8>,
}

impl View for GrayFrame {
    type V = FrameView;

    closed spec fn view(&self) -> FrameView {
        FrameView { width: self.width as nat, height: self.height as nat, pixels: self.data@ }
    }
}

impl GrayFrame {
    #[verifier::type_invariant]
    spec fn inv(self) -> bool {
        self.data@.len() == self.width * self.height
    }

    /// A frame of the given size from row-major pixels; `None` when the
    /// number of pixels is not `width * height`.
    pub fn from_pixels(width: usize, height: usize, data: Vec<u8>) -> (r: Option<GrayFrame>)
        ensures
            r is Some <==> data@.len() == width * height,
            r is Some ==> r->0@ == (FrameView { width: width as nat, height: height as nat, pixels: data@ }),
    {
        let len = data.len();
        match width.checked_mul(height) {
            Some(n) => {
                if len == n {
                    Some(GrayFrame { width, height, data })
                } else {
                    None
                }
            },
            None => None,
        }
    }

    /// The frame with no pixels.
    pub fn empty() -> (r: GrayFrame)
        ensures
            r@ == (FrameView { width: 0, height: 0, pixels: Seq::empty() }),
    {
        GrayFrame { width: 0, height: 0, data: Vec::new() }
    }

    /// The width; every frame holds one pixel per grid position.
    pub fn width(&self) -> (r: usize)
        ensures
            r == self@.width,
            self@.wf(),
    {
        proof {
            use_type_invariant(self);
        }
        self.width
    }

    /// The height; every frame holds one pixel per grid position.
    pub fn height(&self) -> (r: usize)
        ensures
            r == self@.height,
            self@.wf(),
    {
        proof {
            use_type_invariant(self);
        }
        self.height
    }

    /// The pixels, row by row.
    pub fn pixels(&self) -> (r: &[u8])
        ensures
            r@ == self@.pixels,
    {
        self.data.as_slice()
    }

    /// Whether the frame has no pixels.
    pub fn is_empty(&self) -> (r: bool)
        ensures
            r == (self@.pixels.len() == 0),
            self@.wf(),
    {
        proof {
            use_type_invariant(self);
        }
        self.data.len() == 0
    }

    /// Whether both frames have the same width and height.
    pub fn same_size(&self, other: &GrayFrame) -> (r: bool)
        ensures
            r == self@.same_size(other@),
            self@.wf(),
            other@.wf(),
    {
        proof {
            use_type_invariant(self);
            use_type_invariant(other);
        }
        self.width == other.width && self.height == other.height
    }

    /// Per-pixel absolute difference with a frame of the same size.
    pub fn abs_diff(&self, other: &GrayFrame) -> (r: GrayFrame)
        requires
            self@.same_size(other@),
        ensures
            r@ == (FrameView { width: self@.width, height: self@.height, pixels: abs_diff_seq(self@.pixels, other@.pixels) }),
    {
        proof {
            use_type_invariant(self);
            use_type_invariant(other);
        }
        let n = self.data.len();
        let mut out: Vec<u8> = Vec::with_capacity(n);
        let mut i: usize = 0;
        while i < n
            invariant
                n == self.data@.len() == other.data@.len(),
                i <= n,
                out@ =~= abs_diff_seq(self.data@, other.data@).subrange(0, i as int),
            decreases n - i,
        {
            let a = self.data[i];
            let b = other.data[i];
            let d: u8 = if a >= b { a - b } else { b - a };
            out.push(d);
            i += 1;
        }
        assert(out@ =~= abs_diff_seq(self.data@, other.data@));
        GrayFrame { width: self.width, height: self.height, data: out }
    }

    /// Binary mask: pixels strictly above `cutoff` become `MASK_ON`, the rest zero.
    pub fn binarized(&self, cutoff: u8) -> (r: GrayFrame)
        ensures
            r@ == (FrameView { width: self@.width, height: self@.height, pixels: binarize_seq(self@.pixels, cutoff) }),
    {
        proof {
            use_type_invariant(self);
        }
        let n = self.data.len();
        let mut out: Vec<u8> = Vec::with_capacity(n);
        let mut i: usize = 0;
        while i < n
            invariant
                n == self.data@.len(),
                i <= n,
                out@ =~= binarize_seq(self.data@, cutoff).subrange(0, i as int),
            decreases n - i,
        {
            let v: u8 = if self.data[i] > cutoff { MASK_ON } else { 0 };
            out.push(v);
            i += 1;
        }
        assert(out@ =~= binarize_seq(self.data@, cutoff));
        GrayFrame { width: self.width, height: self.height, data: out }
    }
    /// Max or min of the pixels `x0..=x1` of row `y`.
    fn row_fold_exec(&self, y: usize, x0: usize, x1: usize, is_max: bool) -> (r: u8)
        requires
            x0 <= x1 < self@.width,
            y < self@.height,
        ensures
            r == row_fold(self@.pixels, self@.width as int, y as int, x0 as int, x1 as int, is_max),
    {
        proof {
            use_type_invariant(self);
            lemma_index_in_grid(x0 as int, y as int, self.width as int, self.height as int);
        }
        let n = self.data.len();
        let w = self.width;
        let base = y * w;
        let mut acc = self.data[base + x0];
        let mut x = x0;
        while x < x1
            invariant
                x0 <= x <= x1 < w,
                w == self.width,
                y < self.height,
                base == y * w,
                n == self.data@.len() == self.width * self.height,
                acc == row_fold(self.data@, w as int, y as int, x0 as int, x as int, is_max),
            decreases x1 - x,
        {
            x += 1;
            proof {
                lemma_index_in_grid(x as int, y as int, w as int, self.height as int);
            }
            let v = self.data[base + x];
            acc = pick_exec(is_max, acc, v);
        }
        acc
    }

    /// Max or min over columns `x0..=x1` of rows `y0..=y1`.
    fn rect_fold_exec(&self, x0: usize, x1: usize, y0: usize, y1: usize, is_max: bool) -> (r: u8)
        requires
            x0 <= x1 < self@.width,
            y0 <= y1 < self@.height,
        ensures
            r == rect_fold(self@.pixels, self@.width as int, x0 as int, x1 as int, y0 as int, y1 as int, is_max),
    {
        let mut acc = self.row_fold_exec(y0, x0, x1, is_max);
        let mut y = y0;
        while y < y1
            invariant
                y0 <= y <= y1 < self@.height,
                x0 <= x1 < self@.width,
                acc == rect_fold(self@.pixels, self@.width as int, x0 as int, x1 as int, y0 as int, y as int, is_max),
            decreases y1 - y,
        {
            y += 1;
            let v = self.row_fold_exec(y, x0, x1, is_max);
            acc = pick_exec(is_max, acc, v);
        }
        acc
    }

    /// One pass of dilation (`is_max`) or erosion with the 5x5 rectangle:
    /// each pixel becomes the max (or min) of its window, clipped to the grid.
    pub fn morphed(&self, is_max: bool) -> (r: GrayFrame)
        ensures
            r@ == (FrameView {
                width: self@.width,
                height: self@.height,
                pixels: morph_pass(self@.pixels, self@.width as int, self@.height as int, is_max),
            }),
    {
        proof {
            use_type_invariant(self);
        }
        let w = self.width;
        let h = self.height;
        let n = self.data.len();
        let ghost spec_out = morph_pass(self.data@, w as int, h as int, is_max);
        let mut out: Vec<u8> = Vec::with_capacity(n);
        let mut k: usize = 0;
        while k < n
            invariant
                n == self.data@.len() == w * h,
                w == self.width,
                h == self.height,
                k <= n,
                spec_out == morph_pass(self.data@, w as int, h as int, is_max),
                out@ =~= spec_out.subrange(0, k as int),
            decreases n - k,
        {
            proof {
                lemma_grid_of_index(k as int, w as int, h as int);
            }
            let x = k % w;
            let y = k / w;
            let x0 = if x >= MORPH_RADIUS { x - MORPH_RADIUS } else { 0 };
            let x1 = if w - x > MORPH_RADIUS { x + MORPH_RADIUS } else { w - 1 };
            let y0 = if y >= MORPH_RADIUS { y - MORPH_RADIUS } else { 0 };
            let y1 = if h - y > MORPH_RADIUS { y + MORPH_RADIUS } else { h - 1 };
            let v = self.rect_fold_exec(x0, x1, y0, y1, is_max);
            out.push(v);
            k += 1;
        }
        assert(out@ =~= spec_out);
        GrayFrame { width: w, height: h, data: out }
    }

    /// Sum of all pixel intensities.
    pub fn pixel_sum(&self) -> (r: u128)
        ensures
            r == seq_sum(self@.pixels),
    {
        let n = self.data.len();
        let mut acc: u128 = 0;
        let mut i: usize = 0;
        while i < n
            invariant
                n == self.data@.len(),
                i <= n,
                acc == seq_sum(self.data@.subrange(0, i as int)),
                acc <= 255 * i,
            decreases n - i,
        {
            proof {
                let t = self.data@.subrange(0, i as int + 1);
                assert(t.drop_last() =~= self.data@.subrange(0, i as int));
            }
            acc = acc + self.data[i] as u128;
            i += 1;
        }
        assert(self.data@.subrange(0, n as int) =~= self.data@);
        acc
    }
}

/// The larger (`is_max`) or the smaller of two values.
fn pick_exec(is_max: bool, a: u8, b: u8) -> (r: u8)
    ensures
        r == pick(is_max, a, b),
{
    if is_max {
        if a >= b { a } else { b }
    } else {
        if a <= b { a } else { b }
    }
}

/// Every value of `s` is `c`.
pub open spec fn all_equal(s: Seq<u8>, c: u8) -> bool {
    forall|i: int| 0 <= i < s.len() ==> s[i] == c
}

proof fn lemma_row_fold_uniform(s: Seq<u8>, w: int, h: int, y: int, x0: int, x1: int, c: u8, is_max: bool)
    requires
        s.len() == w * h,
        0 <= x0 <= x1 < w,
        0 <= y < h,
        all_equal(s, c),
    ensures
        row_fold(s, w, y, x0, x1, is_max) == c,
    decreases x1 - x0,
{
    lemma_index_in_grid(x0, y, w, h);
    lemma_index_in_grid(x1, y, w, h);
    if x1 > x0 {
        lemma_row_fold_uniform(s, w, h, y, x0, x1 - 1, c, is_max);
    }
}

proof fn lemma_rect_fold_uniform(s: Seq<u8>, w: int, h: int, x0: int, x1: int, y0: int, y1: int, c: u8, is_max: bool)
    requires
        s.len() == w * h,
        0 <= x0 <= x1 < w,
        0 <= y0 <= y1 < h,
        all_equal(s, c),
    ensures
        rect_fold(s, w, x0, x1, y0, y1, is_max) == c,
    decreases y1 - y0,
{
    lemma_row_fold_uniform(s, w, h, y1, x0, x1, c, is_max);
    lemma_row_fold_uniform(s, w, h, y0, x0, x1, c, is_max);
    if y1 > y0 {
        lemma_rect_fold_uniform(s, w, h, x0, x1, y0, y1 - 1, c, is_max);
    }
}

/// Erosion and dilation leave a frame of one value as it is.
pub proof fn lemma_morph_n_uniform(s: Seq<u8>, w: int, h: int, c: u8, is_max: bool, n: nat)
    requires
        0 <= w,
        0 <= h,
        s.len() == w * h,
        all_equal(s, c),
    ensures
        morph_n(s, w, h, is_max, n).len() == s.len(),
        all_equal(morph_n(s, w, h, is_max, n), c),
    decreases n,
{
    if n > 0 {
        lemma_morph_n_uniform(s, w, h, c, is_max, (n - 1) as nat);
        let prev = morph_n(s, w, h, is_max, (n - 1) as nat);
        assert forall|k: int| 0 <= k < prev.len() implies #[trigger] morph_pass(prev, w, h, is_max)[k] == c by {
            lemma_grid_of_index(k, w, h);
            lemma_rect_fold_uniform(prev, w, h, win_lo(k % w), win_hi(k % w, w), win_lo(k / w), win_hi(k / w, h), c, is_max);
        }
    }
}

/// The sum of `n` copies of `c` is `c * n`.
pub proof fn lemma_sum_uniform(s: Seq<u8>, c: u8)
    requires
        all_equal(s, c),
    ensures
        seq_sum(s) == c * s.len(),
    decreases s.len(),
{
    if s.len() > 0 {
        lemma_sum_uniform(s.drop_last(), c);
        assert(c * (s.len() - 1) + c == c * s.len()) by (nonlinear_arith);
    }
}

} // verus!
