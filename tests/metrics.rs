use std::io::Cursor;

use mask_compare::decode::{
    accuracy, decode_file, decode_mask, extension_of_path, iou, score_pair, ImageSource, MetricError, Side,
};
use mask_compare::mask::{score_masks, Dimensions, GrayMask, Ratio};

fn mask(width: u32, height: u32, pixels: Vec<u8>) -> GrayMask {
    GrayMask { width, height, pixels }
}

fn png_gray(width: u32, height: u32, pixels: Vec<u8>) -> Vec<u8> {
    let img = image::GrayImage::from_raw(width, height, pixels).unwrap();
    let mut out = Cursor::new(Vec::new());
    image::DynamicImage::ImageLuma8(img).write_to(&mut out, image::ImageFormat::Png).unwrap();
    out.into_inner()
}

fn png_rgb(width: u32, height: u32, pixels: Vec<u8>) -> Vec<u8> {
    let img = image::RgbImage::from_raw(width, height, pixels).unwrap();
    let mut out = Cursor::new(Vec::new());
    image::DynamicImage::ImageRgb8(img).write_to(&mut out, image::ImageFormat::Png).unwrap();
    out.into_inner()
}

fn source(path: &str, contents: Option<Vec<u8>>) -> ImageSource {
    ImageSource { path: path.to_string(), contents }
}

fn value(r: Ratio) -> f64 {
    r.num as f64 / r.den as f64
}

#[test]
fn iou_of_mask_with_itself_is_one() {
    let a = mask(3, 2, vec![0, 255, 130, 128, 0, 200]);
    let s = score_masks(&a, &a).unwrap();
    assert_eq!(value(s.iou), 1.0);
    assert_eq!(s.iou, Ratio { num: 3, den: 3 });
}

#[test]
fn accuracy_of_mask_with_itself_is_one() {
    let a = mask(2, 2, vec![10, 255, 250, 3]);
    let s = score_masks(&a, &a).unwrap();
    assert_eq!(value(s.accuracy), 1.0);
}

#[test]
fn all_background_scores_one() {
    let a = mask(2, 2, vec![0, 10, 128, 100]);
    let b = mask(2, 2, vec![128, 0, 0, 5]);
    let s = score_masks(&a, &b).unwrap();
    assert_eq!(s.iou, Ratio { num: 1, den: 1 });
    assert_eq!(s.accuracy, Ratio { num: 4, den: 4 });
}

#[test]
fn complementary_masks_score_zero_iou() {
    let a = mask(2, 2, vec![255, 0, 255, 0]);
    let b = mask(2, 2, vec![0, 255, 0, 255]);
    let s = score_masks(&a, &b).unwrap();
    assert_eq!(s.iou, Ratio { num: 0, den: 4 });
    assert_eq!(value(s.iou), 0.0);
    assert_eq!(s.accuracy.num, 0);
}

#[test]
fn metrics_are_symmetric() {
    let a = mask(3, 1, vec![255, 255, 0]);
    let b = mask(3, 1, vec![255, 0, 0]);
    assert_eq!(score_masks(&a, &b).unwrap(), score_masks(&b, &a).unwrap());
}

#[test]
fn exact_scores_of_a_partial_overlap() {
    let a = mask(2, 2, vec![200, 200, 0, 0]);
    let b = mask(2, 2, vec![200, 0, 200, 0]);
    let s = score_masks(&a, &b).unwrap();
    assert_eq!(s.iou, Ratio { num: 1, den: 3 });
    assert_eq!(s.accuracy, Ratio { num: 2, den: 4 });
}

#[test]
fn threshold_is_strictly_above_128() {
    let a = mask(2, 1, vec![128, 129]);
    let b = mask(2, 1, vec![0, 0]);
    let s = score_masks(&a, &b).unwrap();
    assert_eq!(s.iou, Ratio { num: 0, den: 1 });
    assert_eq!(s.accuracy, Ratio { num: 1, den: 2 });
}

#[test]
fn mask_dimension_mismatch_is_refused() {
    let a = mask(10, 10, vec![0; 100]);
    let b = mask(20, 20, vec![0; 400]);
    let e = score_masks(&a, &b).unwrap_err();
    assert_eq!(e.first, Dimensions { width: 10, height: 10 });
    assert_eq!(e.second, Dimensions { width: 20, height: 20 });
}

#[test]
fn decode_mask_reads_a_gray_png() {
    let bytes = png_gray(3, 2, vec![1, 2, 3, 4, 5, 6]);
    let m = decode_mask("png", &bytes).unwrap();
    assert_eq!((m.width, m.height), (3, 2));
    assert_eq!(m.pixels, vec![1, 2, 3, 4, 5, 6]);
}

#[test]
fn decode_mask_converts_color_to_luminance() {
    let bytes = png_rgb(2, 1, vec![255, 255, 255, 0, 0, 0]);
    let m = decode_mask("png", &bytes).unwrap();
    assert_eq!(m.pixels, vec![255, 0]);
}

#[test]
fn decode_mask_refuses_garbage() {
    assert!(decode_mask("png", &[1, 2, 3, 4]).is_none());
}

#[test]
fn file_iou_and_accuracy() {
    let a = source("gt/a.png", Some(png_gray(2, 2, vec![200, 200, 0, 0])));
    let b = source("mine/a.png", Some(png_gray(2, 2, vec![200, 0, 200, 0])));
    assert_eq!(iou(&a, &b).unwrap(), Ratio { num: 1, den: 3 });
    assert_eq!(accuracy(&a, &b).unwrap(), Ratio { num: 2, den: 4 });
    assert_eq!(iou(&a, &a).unwrap(), Ratio { num: 2, den: 2 });
}

#[test]
fn file_dimension_mismatch() {
    let a = source("gt/a.png", Some(png_gray(10, 10, vec![0; 100])));
    let b = source("mine/a.png", Some(png_gray(20, 20, vec![0; 400])));
    match iou(&a, &b) {
        Err(MetricError::DimensionMismatch { first, second, first_path, second_path }) => {
            assert_eq!(first, Dimensions { width: 10, height: 10 });
            assert_eq!(second, Dimensions { width: 20, height: 20 });
            assert_eq!(first_path, "gt/a.png");
            assert_eq!(second_path, "mine/a.png");
        }
        other => panic!("unexpected {:?}", other),
    }
    assert!(matches!(accuracy(&a, &b), Err(MetricError::DimensionMismatch { .. })));
}

#[test]
fn decode_error_names_the_side() {
    let good = source("gt/a.png", Some(png_gray(1, 1, vec![0])));
    let bad = source("mine/a.png", Some(vec![9, 9, 9]));
    let absent = source("other/a.png", None);
    match score_pair(&bad, &good) {
        Err(MetricError::Decode { side, path }) => {
            assert_eq!(side, Side::First);
            assert_eq!(path, "mine/a.png");
        }
        other => panic!("unexpected {:?}", other),
    }
    match score_pair(&good, &absent) {
        Err(MetricError::Decode { side, path }) => {
            assert_eq!(side, Side::Second);
            assert_eq!(path, "other/a.png");
        }
        other => panic!("unexpected {:?}", other),
    }
}

#[test]
fn decoder_is_chosen_by_extension() {
    let bytes = png_gray(1, 1, vec![7]);
    assert!(decode_mask("PNG", &bytes).is_some());
    assert!(decode_mask("jpg", &bytes).is_none());
    assert!(decode_mask("txt", &bytes).is_none());
    assert!(decode_file(&"dir/a.png".to_string(), &Some(bytes.clone())).is_some());
    assert!(decode_file(&"dir.png/a".to_string(), &Some(bytes.clone())).is_none());
    assert!(decode_file(&"dir/a.png".to_string(), &None).is_none());
}

#[test]
fn mislabelled_file_is_a_decode_error() {
    let gt = source("gt/a.png", Some(png_gray(1, 1, vec![0])));
    let wrong = source("mine/a.jpg", Some(png_gray(1, 1, vec![0])));
    assert!(matches!(iou(&gt, &wrong), Err(MetricError::Decode { side: Side::Second, .. })));
}

#[test]
fn extension_of_the_last_component() {
    let ext = |p: &str| extension_of_path(&p.to_string());
    assert_eq!(ext("a/b/c.png").as_deref(), Some("png"));
    assert_eq!(ext("a.b/c").as_deref(), None);
    assert_eq!(ext("a/.png").as_deref(), None);
    assert_eq!(ext("x.tar.GZ").as_deref(), Some("GZ"));
    assert_eq!(ext("a/b.").as_deref(), Some(""));
    assert_eq!(ext("").as_deref(), None);
}
