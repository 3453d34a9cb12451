use std::io::Cursor;

use mask_compare::batch::{
    join, BatchRun, ComparisonSource, FileImages, Percentage, COMPLETE_LABEL, GROUND_TRUTH_LABEL,
    ORIGINAL_LABEL, PRIMARY_LABEL, ScoreFailure,
};
use mask_compare::mask::Dimensions;
use mask_compare::labels::LabelMap;
use mask_compare::mask::Ratio;

fn png_gray(width: u32, height: u32, pixels: Vec<u8>) -> Vec<u8> {
    let img = image::GrayImage::from_raw(width, height, pixels).unwrap();
    let mut out = Cursor::new(Vec::new());
    image::DynamicImage::ImageLuma8(img).write_to(&mut out, image::ImageFormat::Png).unwrap();
    out.into_inner()
}

fn src(label: &str, folder: &str) -> ComparisonSource {
    ComparisonSource { label: label.to_string(), folder: folder.to_string() }
}

fn names(v: &[&str]) -> Vec<String> {
    v.iter().map(|s| s.to_string()).collect()
}

#[test]
fn join_puts_a_slash_between() {
    assert_eq!(join(&"gt".to_string(), &"a.png".to_string()), "gt/a.png");
}

#[test]
fn three_files_two_sources_emit_four_progress_events() {
    let mut run = BatchRun::new(
        None,
        "gt".to_string(),
        "mine".to_string(),
        vec![src("A", "a"), src("B", "b")],
        names(&["x.png", "y.png", "z.png"]),
    );
    let mut events = Vec::new();
    while !run.is_finished() {
        events.push(run.progress());
        run.record(FileImages { ground_truth: None, primary: None, sources: vec![None, None] });
    }
    events.push(run.progress());
    assert_eq!(events.len(), 4);
    for w in events.windows(2) {
        assert!(w[0].current <= w[1].current);
    }
    let labels: Vec<&str> = events.iter().map(|e| e.label.as_str()).collect();
    assert_eq!(labels, vec!["x.png", "y.png", "z.png", COMPLETE_LABEL]);
    assert_eq!(events[1].percentage, Percentage { num: 100, den: 3 });
    let last = &events[3];
    assert_eq!(last.current, last.total);
    assert_eq!(last.total, 3);
    assert_eq!(last.percentage, Percentage { num: 100, den: 1 });
    assert_eq!(run.into_results().len(), 3);
}

#[test]
fn empty_batch_only_completes() {
    let run = BatchRun::new(None, "gt".to_string(), "mine".to_string(), vec![], vec![]);
    assert!(run.is_finished());
    let e = run.progress();
    assert_eq!((e.current, e.total), (0, 0));
    assert_eq!(e.percentage, Percentage { num: 100, den: 1 });
}

#[test]
fn pending_paths_join_every_folder() {
    let run = BatchRun::new(
        Some("orig".to_string()),
        "gt".to_string(),
        "mine".to_string(),
        vec![src("A", "/data/a")],
        names(&["img1.png"]),
    );
    let p = run.pending_paths();
    assert_eq!(p.original.as_deref(), Some("orig/img1.png"));
    assert_eq!(p.ground_truth, "gt/img1.png");
    assert_eq!(p.primary, "mine/img1.png");
    assert_eq!(p.sources, vec!["/data/a/img1.png".to_string()]);
}

#[test]
fn records_scores_paths_and_zero_on_failure() {
    let gt = png_gray(2, 2, vec![200, 200, 0, 0]);
    let mine = png_gray(2, 2, vec![200, 0, 200, 0]);
    let wrong_size = png_gray(3, 3, vec![0; 9]);
    let mut run = BatchRun::new(
        Some("orig".to_string()),
        "gt".to_string(),
        "mine".to_string(),
        vec![src("A", "a"), src("B", "b"), src("C", "c")],
        names(&["f.png"]),
    );
    run.record(FileImages {
        ground_truth: Some(gt.clone()),
        primary: Some(mine),
        sources: vec![Some(gt), Some(wrong_size), None],
    });
    let results = run.into_results();
    assert_eq!(results.len(), 1);
    let r = &results[0];
    assert_eq!(r.filename, "f.png");
    assert_eq!(r.iou_scores.get(PRIMARY_LABEL), Some(&Ratio { num: 1, den: 3 }));
    assert_eq!(r.accuracy_scores.get(PRIMARY_LABEL), Some(&Ratio { num: 2, den: 4 }));
    assert_eq!(r.iou_scores.get("A"), Some(&Ratio { num: 2, den: 2 }));
    assert_eq!(r.iou_scores.get("B"), Some(&Ratio { num: 0, den: 1 }));
    assert_eq!(r.accuracy_scores.get("C"), Some(&Ratio { num: 0, den: 1 }));
    assert_eq!(r.iou_scores.len(), 4);
    assert_eq!(r.paths.get(ORIGINAL_LABEL).map(|s| s.as_str()), Some("orig/f.png"));
    assert_eq!(r.paths.get(GROUND_TRUTH_LABEL).map(|s| s.as_str()), Some("gt/f.png"));
    assert_eq!(r.paths.get(PRIMARY_LABEL).map(|s| s.as_str()), Some("mine/f.png"));
    assert_eq!(r.paths.get("C").map(|s| s.as_str()), Some("c/f.png"));
    let failed: Vec<(&str, ScoreFailure)> =
        r.failures.iter().map(|f| (f.label.as_str(), f.failure)).collect();
    assert_eq!(
        failed,
        vec![
            (
                "B",
                ScoreFailure::DimensionMismatch {
                    ground_truth: Dimensions { width: 2, height: 2 },
                    image: Dimensions { width: 3, height: 3 },
                }
            ),
            ("C", ScoreFailure::ImageUnreadable),
        ]
    );
    let order: Vec<&str> = (0..r.paths.len()).map(|i| r.paths.label_at(i).as_str()).collect();
    assert_eq!(order, vec![ORIGINAL_LABEL, GROUND_TRUTH_LABEL, PRIMARY_LABEL, "A", "B", "C"]);
}

#[test]
fn results_follow_the_file_order() {
    let mut run = BatchRun::new(
        None,
        "gt".to_string(),
        "mine".to_string(),
        vec![],
        names(&["b.png", "a.png"]),
    );
    while !run.is_finished() {
        run.record(FileImages { ground_truth: None, primary: None, sources: vec![] });
    }
    let files: Vec<String> = run.into_results().into_iter().map(|r| r.filename).collect();
    assert_eq!(files, names(&["b.png", "a.png"]));
}

#[test]
fn label_map_replaces_in_place() {
    let mut m: LabelMap<Ratio> = LabelMap::new();
    m.insert("x".to_string(), Ratio { num: 1, den: 2 });
    m.insert("y".to_string(), Ratio { num: 1, den: 3 });
    m.insert("x".to_string(), Ratio { num: 1, den: 4 });
    assert_eq!(m.len(), 2);
    assert_eq!(m.label_at(0), "x");
    assert_eq!(m.value_at(0), &Ratio { num: 1, den: 4 });
    assert_eq!(m.get("y"), Some(&Ratio { num: 1, den: 3 }));
    assert_eq!(m.get("z"), None);
}

#[test]
fn unreadable_ground_truth_fails_every_pair() {
    let mut run = BatchRun::new(None, "gt".to_string(), "mine".to_string(), vec![src("A", "a")], names(&["f.png"]));
    run.record(FileImages { ground_truth: None, primary: Some(png_gray(1, 1, vec![0])), sources: vec![None] });
    let r = &run.into_results()[0];
    assert_eq!(r.failures.len(), 2);
    assert!(r.failures.iter().all(|f| f.failure == ScoreFailure::GroundTruthUnreadable));
    assert_eq!(r.iou_scores.get(PRIMARY_LABEL), Some(&Ratio { num: 0, den: 1 }));
}
