use mask_compare::export::{
    export_file_name, finish_export, image_folder_name, plan_export, safe_label, CopyOutcome,
    ExportError, ExportFailure, ExportSelection, TaskOutcome,
};
use mask_compare::labels::LabelMap;

fn selection(filename: &str, sources: &[(&str, &str)]) -> ExportSelection {
    let mut m = LabelMap::new();
    for (label, path) in sources {
        m.insert(label.to_string(), path.to_string());
    }
    ExportSelection { filename: filename.to_string(), sources: m }
}

#[test]
fn names_of_folders_and_copies() {
    assert_eq!(image_folder_name(&"a.b.png".to_string()), "a_b_png");
    assert_eq!(safe_label(&"x/y\\z:w".to_string()), "x_y_z_w");
    assert_eq!(export_file_name(&"run:1/v2".to_string(), &"img.png".to_string()), "run_1_v2_img.png");
}

#[test]
fn absent_destination_is_fatal() {
    let sels = vec![selection("a.png", &[("GT", "/gt/a.png")])];
    assert!(matches!(plan_export(false, &sels), Err(ExportError::DestinationNotFound)));
}

#[test]
fn plan_lists_one_copy_per_source() {
    let sels = vec![selection("a.png", &[("GT", "/gt/a.png"), ("m/1", "/m/a.png")])];
    let tasks = plan_export(true, &sels).unwrap();
    assert_eq!(tasks.len(), 1);
    assert_eq!(tasks[0].folder_name, "a_png");
    assert_eq!(tasks[0].copies.len(), 2);
    assert_eq!(tasks[0].copies[1].source_path, "/m/a.png");
    assert_eq!(tasks[0].copies[1].dest_name, "m_1_a.png");
}

#[test]
fn missing_source_still_counts_the_selection() {
    let sels = vec![selection("a.png", &[("GT", "/nowhere/a.png")])];
    let tasks = plan_export(true, &sels).unwrap();
    let outcomes = vec![TaskOutcome::Done { copies: vec![CopyOutcome::SourceMissing] }];
    let o = finish_export("/out".to_string(), &tasks, &outcomes).unwrap();
    assert_eq!(o.exported, 1);
    assert_eq!(o.copied, 0);
    assert_eq!(o.total, 1);
    assert_eq!(o.destination, "/out");
    assert_eq!(o.failures.len(), 1);
    match &o.failures[0] {
        ExportFailure::SourceMissing { source_path } => assert_eq!(source_path, "/nowhere/a.png"),
        other => panic!("unexpected {:?}", other),
    }
}

#[test]
fn no_folder_created_is_an_overall_failure() {
    let sels = vec![selection("a.png", &[("GT", "/gt/a.png")])];
    let tasks = plan_export(true, &sels).unwrap();
    let outcomes = vec![TaskOutcome::FolderFailed { error: "denied".to_string() }];
    match finish_export("/out".to_string(), &tasks, &outcomes) {
        Err(ExportError::NothingExported { outcome }) => {
            assert_eq!(outcome.exported, 0);
            assert_eq!(outcome.failures.len(), 1);
            assert!(matches!(
                &outcome.failures[0],
                ExportFailure::CreateFolder { filename, error } if filename == "a.png" && error == "denied"
            ));
        }
        other => panic!("unexpected {:?}", other),
    }
}

#[test]
fn partial_success_uses_the_success_channel() {
    let sels = vec![
        selection("a.png", &[("GT", "/gt/a.png"), ("M", "/m/a.png")]),
        selection("b.png", &[("GT", "/gt/b.png")]),
    ];
    let tasks = plan_export(true, &sels).unwrap();
    let outcomes = vec![
        TaskOutcome::Done {
            copies: vec![
                CopyOutcome::Copied,
                CopyOutcome::CopyFailed { dest_path: "/out/a_png/M_a.png".to_string(), error: "full".to_string() },
            ],
        },
        TaskOutcome::FolderFailed { error: "denied".to_string() },
    ];
    let o = finish_export("/out".to_string(), &tasks, &outcomes).unwrap();
    assert_eq!(o.exported, 1);
    assert_eq!(o.copied, 1);
    assert_eq!(o.total, 2);
    assert_eq!(o.failures.len(), 2);
    assert!(matches!(&o.failures[0], ExportFailure::CopyFailed { source_path, .. } if source_path == "/m/a.png"));
    assert!(matches!(&o.failures[1], ExportFailure::CreateFolder { .. }));
}

#[test]
fn full_success_has_no_failures() {
    let sels = vec![selection("a.png", &[("GT", "/gt/a.png")])];
    let tasks = plan_export(true, &sels).unwrap();
    let outcomes = vec![TaskOutcome::Done { copies: vec![CopyOutcome::Copied] }];
    let o = finish_export("/out".to_string(), &tasks, &outcomes).unwrap();
    assert_eq!((o.exported, o.copied), (1, 1));
    assert!(o.failures.is_empty());
}

#[test]
fn empty_export_succeeds() {
    let tasks = plan_export(true, &vec![]).unwrap();
    let o = finish_export("/out".to_string(), &tasks, &vec![]).unwrap();
    assert_eq!((o.exported, o.total), (0, 0));
}

#[test]
fn missing_source_beside_a_full_selection_succeeds() {
    let sels = vec![
        selection("a.png", &[("l", "/nowhere/a.png")]),
        selection("b.png", &[("GT", "/gt/b.png"), ("M", "/m/b.png")]),
    ];
    let tasks = plan_export(true, &sels).unwrap();
    let outcomes = vec![
        TaskOutcome::Done { copies: vec![CopyOutcome::SourceMissing] },
        TaskOutcome::Done { copies: vec![CopyOutcome::Copied, CopyOutcome::Copied] },
    ];
    let o = finish_export("/out".to_string(), &tasks, &outcomes).unwrap();
    assert_eq!((o.exported, o.copied, o.total), (2, 2, 2));
    assert_eq!(o.failures.len(), 1);
    assert!(matches!(&o.failures[0], ExportFailure::SourceMissing { source_path } if source_path == "/nowhere/a.png"));
    assert_eq!(tasks[1].folder_name, "b_png");
}
