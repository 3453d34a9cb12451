//! Binary-mask metrics over single-channel luminance buffers.

use vstd::prelude::*;

verus! {

/// A luminance value strictly above this counts as foreground.
pub const FOREGROUND_THRESHOLD: u8 = 128;

pub open spec fn is_foreground(v: u8) -> bool {
    v > FOREGROUND_THRESHOLD
}

/// Positions below `n` where both masks are foreground.
pub open spec fn count_both(a: Seq<u8>, b: Seq<u8>, n: int) -> nat
    decreases n,
{
    if n <= 0 {
        0
    } else {
        count_both(a, b, n - 1) + if is_foreground(a[n - 1]) && is_foreground(b[n - 1]) {
            1nat
        } else {
            0nat
        }
    }
}

/// Positions below `n` where at least one mask is foreground.
pub open spec fn count_either(a: Seq<u8>, b: Seq<u8>, n: int) -> nat
    decreases n,
{
    if n <= 0 {
        0
    } else {
        count_either(a, b, n - 1) + if is_foreground(a[n - 1]) || is_foreground(b[n - 1]) {
            1nat
        } else {
            0nat
        }
    }
}

/// Positions below `n` where the two masks classify the pixel alike.
pub open spec fn count_agree(a: Seq<u8>, b: Seq<u8>, n: int) -> nat
    decreases n,
{
    if n <= 0 {
        0
    } else {
        count_agree(a, b, n - 1) + if is_foreground(a[n - 1]) == is_foreground(b[n - 1]) {
            1nat
        } else {
            0nat
        }
    }
}

/// Numerator of the intersection-over-union of two equal-length masks;
/// two all-background masks score one.
pub open spec fn iou_num(a: Seq<u8>, b: Seq<u8>) -> nat {
    if count_either(a, b, a.len() as int) == 0 {
        1
    } else {
        count_both(a, b, a.len() as int)
    }
}

pub open spec fn iou_den(a: Seq<u8>, b: Seq<u8>) -> nat {
    if count_either(a, b, a.len() as int) == 0 {
        1
    } else {
        count_either(a, b, a.len() as int)
    }
}

/// Numerator of the pixel accuracy: positions where the masks agree.
pub open spec fn accuracy_num(a: Seq<u8>, b: Seq<u8>) -> nat {
    count_agree(a, b, a.len() as int)
}

/// Denominator of the pixel accuracy: the total pixel count.
pub open spec fn accuracy_den(a: Seq<u8>, b: Seq<u8>) -> nat {
    a.len()
}

/// A score kept exact as `num / den`.
#[derive(Clone, Copy, Debug, PartialEq, Eq, Structural)]
pub struct Ratio {
    pub num: u64,
    pub den: u64,
}

impl View for Ratio {
    type V = Ratio;

    open spec fn view(&self) -> Ratio {
        *self
    }
}

impl Ratio {
    /// The score recorded when a pair could not be scored.
    pub fn zero() -> (r: Ratio)
        ensures
            r.num == 0,
            r.den == 1,
    {
        Ratio { num: 0, den: 1 }
    }
}

#[derive(Clone, Copy, Debug, PartialEq, Eq, Structural)]
pub struct Dimensions {
    pub width: u32,
    pub height: u32,
}

/// A single-channel 8-bit image, row by row.
#[derive(Clone, Debug)]
pub struct GrayMask {
    pub width: u32,
    pub height: u32,
    pub pixels: Vec<u8>,
}

impl GrayMask {
    pub open spec fn wf(&self) -> bool {
        self.pixels@.len() == self.width as nat * self.height as nat
    }

    pub open spec fn dims(&self) -> Dimensions {
        Dimensions { width: self.width, height: self.height }
    }

    pub fn dimensions(&self) -> (r: Dimensions)
        ensures
            r == self.dims(),
    {
        Dimensions { width: self.width, height: self.height }
    }
}

/// Both metrics of one pair of masks.
#[derive(Clone, Copy, Debug, PartialEq, Eq, Structural)]
pub struct MaskScores {
    pub iou: Ratio,
    pub accuracy: Ratio,
}

#[derive(Clone, Copy, Debug, PartialEq, Eq, Structural)]
pub struct DimensionMismatch {
    pub first: Dimensions,
    pub second: Dimensions,
}

pub open spec fn scores_of(a: Seq<u8>, b: Seq<u8>, s: MaskScores) -> bool {
    &&& s.iou.num == iou_num(a, b)
    &&& s.iou.den == iou_den(a, b)
    &&& s.accuracy.num == accuracy_num(a, b)
    &&& s.accuracy.den == accuracy_den(a, b)
}

/// Scores `b` against `a`: intersection-over-union and pixel accuracy of the
/// thresholded masks; masks of different sizes are refused.
pub fn score_masks(a: &GrayMask, b: &GrayMask) -> (r: Result<MaskScores, DimensionMismatch>)
    requires
        a.wf(),
        b.wf(),
    ensures
        r is Ok <==> a.dims() == b.dims(),
        r matches Ok(s) ==> scores_of(a.pixels@, b.pixels@, s),
        r matches Err(e) ==> e.first == a.dims() && e.second == b.dims(),
{
    if a.width != b.width || a.height != b.height {
        return Err(DimensionMismatch { first: a.dimensions(), second: b.dimensions() });
    }
    let n = a.pixels.len();
    let mut both: u64 = 0;
    let mut either: u64 = 0;
    let mut agree: u64 = 0;
    let mut i: usize = 0;
    while i < n
        invariant
            n == a.pixels@.len(),
            n == b.pixels@.len(),
            i <= n,
            both == count_both(a.pixels@, b.pixels@, i as int),
            either == count_either(a.pixels@, b.pixels@, i as int),
            agree == count_agree(a.pixels@, b.pixels@, i as int),
            both <= i,
            either <= i,
            agree <= i,
        decreases n - i,
    {
        let fa = a.pixels[i] > FOREGROUND_THRESHOLD;
        let fb = b.pixels[i] > FOREGROUND_THRESHOLD;
        if fa && fb {
            both = both + 1;
        }
        if fa || fb {
            either = either + 1;
        }
        if fa == fb {
            agree = agree + 1;
        }
        i = i + 1;
    }
    let iou = if either == 0 {
        Ratio { num: 1, den: 1 }
    } else {
        Ratio { num: both, den: either }
    };
    Ok(MaskScores { iou, accuracy: Ratio { num: agree, den: n as u64 } })
}

proof fn lemma_counts_self(a: Seq<u8>, n: int)
    requires
        0 <= n <= a.len(),
    ensures
        count_both(a, a, n) == count_either(a, a, n),
        count_agree(a, a, n) == n,
    decreases n,
{
    if n > 0 {
        lemma_counts_self(a, n - 1);
    }
}

proof fn lemma_counts_swap(a: Seq<u8>, b: Seq<u8>, n: int)
    ensures
        count_both(a, b, n) == count_both(b, a, n),
        count_either(a, b, n) == count_either(b, a, n),
        count_agree(a, b, n) == count_agree(b, a, n),
    decreases n,
{
    if n > 0 {
        lemma_counts_swap(a, b, n - 1);
    }
}

proof fn lemma_counts_background(a: Seq<u8>, b: Seq<u8>, n: int)
    requires
        0 <= n <= a.len(),
        n <= b.len(),
        forall|i: int| 0 <= i < n ==> !is_foreground(#[trigger] a[i]) && !is_foreground(b[i]),
    ensures
        count_either(a, b, n) == 0,
        count_agree(a, b, n) == n,
    decreases n,
{
    if n > 0 {
        lemma_counts_background(a, b, n - 1);
    }
}

proof fn lemma_counts_complement(a: Seq<u8>, b: Seq<u8>, n: int)
    requires
        0 <= n <= a.len(),
        n <= b.len(),
        forall|i: int| 0 <= i < n ==> is_foreground(#[trigger] a[i]) != is_foreground(b[i]),
    ensures
        count_both(a, b, n) == 0,
        count_either(a, b, n) == n,
    decreases n,
{
    if n > 0 {
        lemma_counts_complement(a, b, n - 1);
    }
}

proof fn lemma_counts_bounded(a: Seq<u8>, b: Seq<u8>, n: int)
    requires
        0 <= n,
    ensures
        count_both(a, b, n) <= count_either(a, b, n) <= n,
        count_agree(a, b, n) <= n,
    decreases n,
{
    if n > 0 {
        lemma_counts_bounded(a, b, n - 1);
    }
}

/// Every score lies between zero and one, and the intersection-over-union
/// never divides by zero.
pub proof fn lemma_scores_bounded(a: Seq<u8>, b: Seq<u8>)
    ensures
        iou_num(a, b) <= iou_den(a, b),
        iou_den(a, b) > 0,
        accuracy_num(a, b) <= accuracy_den(a, b),
{
    lemma_counts_bounded(a, b, a.len() as int);
}

/// A mask compared with itself has an intersection-over-union of one.
pub proof fn lemma_iou_identity(a: Seq<u8>)
    ensures
        iou_num(a, a) == iou_den(a, a),
        iou_den(a, a) > 0,
{
    lemma_counts_self(a, a.len() as int);
}

/// A mask compared with itself agrees on every pixel: its accuracy is one
/// whenever it has a pixel at all.
pub proof fn lemma_accuracy_identity(a: Seq<u8>)
    ensures
        accuracy_num(a, a) == accuracy_den(a, a),
{
    lemma_counts_self(a, a.len() as int);
}

/// Two all-background masks of equal size score one on both metrics.
pub proof fn lemma_all_background(a: Seq<u8>, b: Seq<u8>)
    requires
        a.len() == b.len(),
        forall|i: int| 0 <= i < a.len() ==> !is_foreground(#[trigger] a[i]) && !is_foreground(b[i]),
    ensures
        iou_num(a, b) == 1,
        iou_den(a, b) == 1,
        accuracy_num(a, b) == accuracy_den(a, b),
{
    lemma_counts_background(a, b, a.len() as int);
}

/// Two complementary masks with at least one pixel have an
/// intersection-over-union of zero.
pub proof fn lemma_complement_iou(a: Seq<u8>, b: Seq<u8>)
    requires
        a.len() == b.len(),
        a.len() > 0,
        forall|i: int| 0 <= i < a.len() ==> is_foreground(#[trigger] a[i]) != is_foreground(b[i]),
    ensures
        iou_num(a, b) == 0,
        iou_den(a, b) == a.len(),
{
    lemma_counts_complement(a, b, a.len() as int);
}

/// Both metrics are symmetric in their two masks.
pub proof fn lemma_metrics_symmetric(a: Seq<u8>, b: Seq<u8>)
    requires
        a.len() == b.len(),
    ensures
        iou_num(a, b) == iou_num(b, a),
        iou_den(a, b) == iou_den(b, a),
        accuracy_num(a, b) == accuracy_num(b, a),
        accuracy_den(a, b) == accuracy_den(b, a),
{
    lemma_counts_swap(a, b, a.len() as int);
}

} // verus!
