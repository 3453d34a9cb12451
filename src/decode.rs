//! Metrics between two encoded images: decoding, luminance conversion and
//! the dimension check in front of the mask metrics.

use vstd::prelude::*;
use crate::export::push_char;
use crate::scan::{extension_of, last_dot};
use crate::mask::{
    accuracy_den, accuracy_num, iou_den, iou_num, lemma_scores_bounded, score_masks, scores_of,
    Dimensions, GrayMask, MaskScores, Ratio,
};

verus! {

/// Index of the last `'/'` before position `i`, or -1.
pub open spec fn last_slash(s: Seq<char>, i: int) -> int
    decreases i,
{
    if i <= 0 {
        -1
    } else if s[i - 1] == '/' {
        i - 1
    } else {
        last_slash(s, i - 1)
    }
}

/// The last component of a `/`-separated path.
pub open spec fn file_name_part(p: Seq<char>) -> Seq<char> {
    p.subrange(last_slash(p, p.len() as int) + 1, p.len() as int)
}

/// The extension of the last component of a path, which picks the decoder.
pub open spec fn path_extension(p: Seq<char>) -> Option<Seq<char>> {
    extension_of(file_name_part(p))
}

/// The extension of the last component of `path`.
pub fn extension_of_path(path: &String) -> (r: Option<String>)
    ensures
        match r {
            Some(e) => path_extension(path@) == Some(e@),
            None => path_extension(path@) is None,
        },
{
    let s = path.as_str();
    let n = s.unicode_len();
    let mut i: usize = n;
    while i > 0 && s.get_char(i - 1) != '/'
        invariant
            i <= n,
            n == s@.len(),
            last_slash(s@, i as int) == last_slash(s@, n as int),
        decreases i,
    {
        i = i - 1;
    }
    let start = i;
    proof {
        if start > 0 {
            assert(last_slash(s@, start as int) == start - 1);
        }
    }
    let ghost name = s@.subrange(start as int, n as int);
    proof {
        assert(name == file_name_part(path@));
    }
    let mut j: usize = n;
    while j > start && s.get_char(j - 1) != '.'
        invariant
            start <= j <= n,
            n == s@.len(),
            name == s@.subrange(start as int, n as int),
            last_dot(name, j - start) == last_dot(name, n - start),
        decreases j,
    {
        proof {
            assert(name[j - start - 1] == s@[j - 1]);
        }
        j = j - 1;
    }
    proof {
        if j > start {
            assert(name[j - start - 1] == s@[j - 1]);
            assert(last_dot(name, j - start) == j - start - 1);
        }
    }
    if j <= start || j - start < 2 {
        return None;
    }
    let mut ext = String::new();
    let mut k: usize = j;
    while k < n
        invariant
            j <= k <= n,
            n == s@.len(),
            ext@ == s@.subrange(j as int, k as int),
        decreases n - k,
    {
        push_char(&mut ext, s.get_char(k));
        proof {
            assert(ext@ =~= s@.subrange(j as int, k + 1));
        }
        k = k + 1;
    }
    proof {
        assert(ext@ =~= name.subrange(j - start, name.len() as int));
    }
    Some(ext)
}

/// Whether the image crate decodes these bytes in the format that the
/// extension `ext` names.
pub uninterp spec fn decodes(ext: Seq<char>, bytes: Seq<u8>) -> bool;

/// The luminance image the image crate decodes from these bytes in the
/// format that `ext` names: width, height, and raw samples row by row.
pub uninterp spec fn luma_of(ext: Seq<char>, bytes: Seq<u8>) -> (u32, u32, Seq<u8>);

/// Relies on `image::ImageFormat::from_extension`, which maps an extension
/// to a built-in format; on `image::load_from_memory_with_format`, which
/// decodes with that built-in decoder and consults no registered hook; and
/// on `DynamicImage::to_luma8`, which converts to one byte per pixel. So the
/// result depends on the extension and the bytes alone, and the raw samples
/// of an `ImageBuffer` hold at least width × height bytes.
#[verifier::external_body]
fn decode_luma(ext: &str, bytes: &[u8]) -> (r: Option<(u32, u32, Vec<u8>)>)
    ensures
        r is Some <==> decodes(ext@, bytes@),
        r matches Some(t) ==> {
            &&& (t.0, t.1, t.2@) == luma_of(ext@, bytes@)
            &&& t.2@.len() >= t.0 as nat * t.1 as nat
        },
{
    let format = image::ImageFormat::from_extension(ext)?;
    match image::load_from_memory_with_format(bytes, format) {
        Ok(img) => {
            let gray = img.to_luma8();
            let (width, height) = gray.dimensions();
            Some((width, height, gray.into_raw()))
        },
        Err(_) => None,
    }
}

/// The size of the image decoded from `bytes`.
pub open spec fn decoded_dims(ext: Seq<char>, bytes: Seq<u8>) -> Dimensions {
    Dimensions { width: luma_of(ext, bytes).0, height: luma_of(ext, bytes).1 }
}

/// The pixels of the image decoded from `bytes`: the first width × height
/// samples.
pub open spec fn decoded_pixels(ext: Seq<char>, bytes: Seq<u8>) -> Seq<u8> {
    luma_of(ext, bytes).2.take(luma_of(ext, bytes).0 as int * luma_of(ext, bytes).1 as int)
}

/// `m` is the mask decoded from `bytes`.
pub open spec fn mask_of(m: GrayMask, ext: Seq<char>, bytes: Seq<u8>) -> bool {
    &&& m.dims() == decoded_dims(ext, bytes)
    &&& m.pixels@ == decoded_pixels(ext, bytes)
}

/// Decodes an encoded image, in the format its extension `ext` names, into
/// its luminance mask.
pub fn decode_mask(ext: &str, bytes: &[u8]) -> (r: Option<GrayMask>)
    ensures
        r is Some <==> decodes(ext@, bytes@),
        r matches Some(m) ==> m.wf() && mask_of(m, ext@, bytes@),
{
    match decode_luma(ext, bytes) {
        None => None,
        Some((width, height, mut pixels)) => {
            let len = pixels.len();
            proof {
                assert(width as int * height as int <= len as int);
            }
            let n: u64 = width as u64 * height as u64;
            let ghost raw = pixels@;
            pixels.truncate(n as usize);
            proof {
                assert(pixels@ =~= raw.take(width as int * height as int));
            }
            Some(GrayMask { width, height, pixels })
        },
    }
}

/// The mask of a file at `path` with the given contents: `None` when it was
/// not read, has no extension, or does not decode.
pub open spec fn file_mask(m: Option<GrayMask>, path: Seq<char>, contents: Option<Vec<u8>>) -> bool {
    &&& (m is Some <==> (path_extension(path) matches Some(e) && contents matches Some(c)
        && decodes(e, c@)))
    &&& (m matches Some(x) ==> x.wf() && mask_of(x, path_extension(path)->Some_0, contents->Some_0@))
}

/// Decodes the contents of the file at `path`, choosing the decoder by the
/// path's extension.
pub fn decode_file(path: &String, contents: &Option<Vec<u8>>) -> (r: Option<GrayMask>)
    ensures
        file_mask(r, path@, *contents),
{
    match contents {
        None => None,
        Some(bytes) => match extension_of_path(path) {
            None => None,
            Some(ext) => decode_mask(ext.as_str(), bytes.as_slice()),
        },
    }
}

/// An image file as read by the caller: its path, and its bytes when the
/// file could be read.
#[derive(Clone, Debug)]
pub struct ImageSource {
    pub path: String,
    pub contents: Option<Vec<u8>>,
}

impl ImageSource {
    pub open spec fn readable(&self) -> bool {
        path_extension(self.path@) matches Some(e) && self.contents matches Some(c) && decodes(
            e,
            c@,
        )
    }
}

#[derive(Clone, Copy, Debug, PartialEq, Eq, Structural)]
pub enum Side {
    First,
    Second,
}

#[derive(Clone, Debug)]
pub enum MetricError {
    /// The image on `side` could not be read or decoded.
    Decode { side: Side, path: String },
    /// The two images differ in size.
    DimensionMismatch {
        first: Dimensions,
        second: Dimensions,
        first_path: String,
        second_path: String,
    },
}

/// The bytes of a source that was read.
pub open spec fn source_bytes(src: ImageSource) -> Seq<u8> {
    src.contents->Some_0@
}

/// The extension of a source's path.
pub open spec fn source_ext(src: ImageSource) -> Seq<char> {
    path_extension(src.path@)->Some_0
}

/// The size of a readable source.
pub open spec fn dims_of(src: ImageSource) -> Dimensions {
    decoded_dims(source_ext(src), source_bytes(src))
}

/// What every metric between two image files promises of its outcome:
/// which decode error comes when, and that two decoded images are scored
/// exactly when their sizes match.
pub open spec fn pair_outcome<T>(
    first: ImageSource,
    second: ImageSource,
    r: Result<T, MetricError>,
) -> bool {
    &&& !first.readable() ==> (r matches Err(MetricError::Decode { side, path }) && side
        == Side::First && path@ == first.path@)
    &&& first.readable() && !second.readable() ==> (r matches Err(MetricError::Decode { side, path })
        && side == Side::Second && path@ == second.path@)
    &&& first.readable() && second.readable() ==> {
        &&& (r is Ok <==> dims_of(first) == dims_of(second))
        &&& (r is Ok || (r matches Err(
            MetricError::DimensionMismatch { first: d1, second: d2, first_path, second_path },
        ) && d1 == dims_of(first) && d2 == dims_of(second)
            && first_path@ == first.path@ && second_path@ == second.path@))
    }
}

/// The pixels of the first and second source, once both are readable.
pub open spec fn pixels_of(src: ImageSource) -> Seq<u8> {
    decoded_pixels(source_ext(src), source_bytes(src))
}

fn decode_source(src: &ImageSource) -> (r: Option<GrayMask>)
    ensures
        r is Some <==> src.readable(),
        r matches Some(m) ==> m.wf() && mask_of(m, source_ext(*src), source_bytes(*src)),
{
    decode_file(&src.path, &src.contents)
}

/// Decodes both images once and scores the second against the first.
pub fn score_pair(first: &ImageSource, second: &ImageSource) -> (r: Result<MaskScores, MetricError>)
    ensures
        pair_outcome(*first, *second, r),
        r matches Ok(s) ==> scores_of(pixels_of(*first), pixels_of(*second), s),
        r matches Ok(s) ==> s.iou.num <= s.iou.den && s.iou.den > 0 && s.accuracy.num
            <= s.accuracy.den,
{
    let a = match decode_source(first) {
        None => {
            return Err(MetricError::Decode { side: Side::First, path: first.path.clone() });
        },
        Some(m) => m,
    };
    let b = match decode_source(second) {
        None => {
            return Err(MetricError::Decode { side: Side::Second, path: second.path.clone() });
        },
        Some(m) => m,
    };
    match score_masks(&a, &b) {
        Ok(s) => {
            proof {
                lemma_scores_bounded(a.pixels@, b.pixels@);
            }
            Ok(s)
        },
        Err(e) => Err(
            MetricError::DimensionMismatch {
                first: e.first,
                second: e.second,
                first_path: first.path.clone(),
                second_path: second.path.clone(),
            },
        ),
    }
}

/// A readable file scored against itself scores one on intersection-over-
/// union, and agrees on every pixel.
pub proof fn lemma_same_file_scores_one(src: ImageSource)
    requires
        src.readable(),
    ensures
        iou_num(pixels_of(src), pixels_of(src)) == iou_den(pixels_of(src), pixels_of(src)),
        iou_den(pixels_of(src), pixels_of(src)) > 0,
        accuracy_num(pixels_of(src), pixels_of(src)) == accuracy_den(pixels_of(src), pixels_of(src)),
{
    crate::mask::lemma_iou_identity(pixels_of(src));
    crate::mask::lemma_accuracy_identity(pixels_of(src));
}

/// Intersection-over-union of two image files.
pub fn iou(first: &ImageSource, second: &ImageSource) -> (r: Result<Ratio, MetricError>)
    ensures
        pair_outcome(*first, *second, r),
        r matches Ok(v) ==> v.num == iou_num(pixels_of(*first), pixels_of(*second)) && v.den
            == iou_den(pixels_of(*first), pixels_of(*second)),
        r matches Ok(v) ==> v.num <= v.den && v.den > 0,
{
    match score_pair(first, second) {
        Ok(s) => Ok(s.iou),
        Err(e) => Err(e),
    }
}

/// Pixel accuracy of two image files.
pub fn accuracy(first: &ImageSource, second: &ImageSource) -> (r: Result<Ratio, MetricError>)
    ensures
        pair_outcome(*first, *second, r),
        r matches Ok(v) ==> v.num == accuracy_num(pixels_of(*first), pixels_of(*second)) && v.den
            == accuracy_den(pixels_of(*first), pixels_of(*second)),
        r matches Ok(v) ==> v.num <= v.den,
{
    match score_pair(first, second) {
        Ok(s) => Ok(s.accuracy),
        Err(e) => Err(e),
    }
}

} // verus!
