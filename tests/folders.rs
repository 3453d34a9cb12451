use mask_compare::scan::{
    has_image_extension, is_image_file_name, name_less_or_equal, select_image_files, DirEntryInfo,
};
use mask_compare::validate::{
    check_folder_count, contains_name, folder_role, missing_files_of, validate_folders, FolderListing, FolderRole,
    ValidationError,
};

fn names(v: &[&str]) -> Vec<String> {
    v.iter().map(|s| s.to_string()).collect()
}

fn folder(path: &str, files: Option<&[&str]>) -> FolderListing {
    FolderListing {
        path: path.to_string(),
        name: path.rsplit('/').next().unwrap().to_string(),
        files: files.map(names),
    }
}

fn entry(name: &str, is_file: bool) -> DirEntryInfo {
    DirEntryInfo { name: name.to_string(), is_file }
}

#[test]
fn intersection_excludes_a_file_one_folder_lacks() {
    let folders = vec![
        folder("/d/GT", Some(&["a.png", "b.png"])),
        folder("/d/MINE", Some(&["a.png"])),
        folder("/d/OTHER", Some(&["a.png", "b.png"])),
    ];
    let report = validate_folders(&folders).unwrap();
    assert_eq!(report.common_files, names(&["a.png"]));
    assert!(report.is_valid);
    assert!(report.missing_files.is_empty());
}

#[test]
fn common_set_is_the_intersection_in_any_order() {
    let a = folder("/d/A", Some(&["1.png", "2.png", "3.png"]));
    let b = folder("/d/B", Some(&["1.png", "2.png", "3.png"]));
    let c = folder("/d/C", Some(&["2.png", "3.png", "4.png"]));
    let forward = validate_folders(&vec![a.clone(), b.clone(), c.clone()]).unwrap();
    let backward = validate_folders(&vec![c, b, a]).unwrap();
    assert_eq!(forward.common_files, names(&["2.png", "3.png"]));
    let mut x = forward.common_files.clone();
    let mut y = backward.common_files.clone();
    x.sort();
    y.sort();
    assert_eq!(x, y);
}

#[test]
fn common_files_keep_the_first_folder_order() {
    let folders = vec![
        folder("/d/A", Some(&["c.png", "a.png", "b.png"])),
        folder("/d/B", Some(&["a.png", "b.png", "c.png"])),
        folder("/d/C", Some(&["b.png", "c.png"])),
    ];
    let report = validate_folders(&folders).unwrap();
    assert_eq!(report.common_files, names(&["c.png", "b.png"]));
}

#[test]
fn disjoint_folders_are_invalid_with_nothing_missing() {
    let folders = vec![
        folder("/d/A", Some(&["a.png"])),
        folder("/d/B", Some(&["b.png"])),
        folder("/d/C", Some(&["a.png", "b.png"])),
    ];
    let report = validate_folders(&folders).unwrap();
    assert!(report.common_files.is_empty());
    assert!(!report.is_valid);
    assert!(report.missing_files.is_empty());
}

#[test]
fn fewer_than_three_folders_are_refused() {
    let folders = vec![folder("/d/A", Some(&["a.png"])), folder("/d/B", Some(&["a.png"]))];
    match validate_folders(&folders) {
        Err(ValidationError::InsufficientFolders { count }) => assert_eq!(count, 2),
        other => panic!("unexpected {:?}", other),
    }
}

#[test]
fn absent_folder_is_named_by_role() {
    let folders = vec![
        folder("/d/A", Some(&["a.png"])),
        folder("/d/B", Some(&["a.png"])),
        folder("/d/C", Some(&["a.png"])),
        folder("/d/D", None),
        folder("/d/E", None),
    ];
    match validate_folders(&folders) {
        Err(ValidationError::FolderNotFound { role, path }) => {
            assert_eq!(role, FolderRole::Comparison { number: 1 });
            assert_eq!(path, "/d/D");
        }
        other => panic!("unexpected {:?}", other),
    }
    let folders = vec![
        folder("/d/A", Some(&["a.png"])),
        folder("/d/B", None),
        folder("/d/C", Some(&["a.png"])),
    ];
    assert!(matches!(
        validate_folders(&folders),
        Err(ValidationError::FolderNotFound { role: FolderRole::GroundTruth, .. })
    ));
}

#[test]
fn roles_by_position() {
    assert_eq!(folder_role(0), FolderRole::SourceImages);
    assert_eq!(folder_role(1), FolderRole::GroundTruth);
    assert_eq!(folder_role(2), FolderRole::PrimaryResult);
    assert_eq!(folder_role(5), FolderRole::Comparison { number: 3 });
}

#[test]
fn missing_files_keep_order() {
    let common = names(&["a.png", "b.png", "c.png"]);
    let files = names(&["b.png"]);
    assert_eq!(missing_files_of(&common, &files), names(&["a.png", "c.png"]));
    assert!(contains_name(&files, &"b.png".to_string()));
    assert!(!contains_name(&files, &"a.png".to_string()));
}

#[test]
fn image_names_by_extension() {
    assert!(is_image_file_name(&"a.png".to_string()));
    assert!(is_image_file_name(&"A.JPEG".to_string()));
    assert!(is_image_file_name(&"x.y.TiFf".to_string()));
    assert!(is_image_file_name(&"..png".to_string()));
    assert!(!is_image_file_name(&".png".to_string()));
    assert!(!is_image_file_name(&"png".to_string()));
    assert!(!is_image_file_name(&"a.png.txt".to_string()));
    assert!(!is_image_file_name(&"a.gif".to_string()));
    assert!(!is_image_file_name(&"a.".to_string()));
    assert!(has_image_extension(&vec!['W', 'e', 'B', 'p']));
    assert!(!has_image_extension(&vec!['j', 'p']));
}

#[test]
fn scan_keeps_sorted_image_files_only() {
    let entries = vec![
        entry("b.png", true),
        entry("notes.txt", true),
        entry("A.BMP", true),
        entry("dir.png", false),
        entry("README", true),
        entry("a.jpg", true),
        entry("c.webp", true),
    ];
    assert_eq!(select_image_files(&entries), names(&["A.BMP", "a.jpg", "b.png", "c.webp"]));
    assert!(select_image_files(&vec![]).is_empty());
}

#[test]
fn name_order_is_by_character() {
    let le = |a: &str, b: &str| name_less_or_equal(&a.to_string(), &b.to_string());
    assert!(le("B.png", "a.png"));
    assert!(!le("a.png", "B.png"));
    assert!(le("a.png", "a.png"));
    assert!(le("a", "ab"));
    assert!(!le("ab", "a"));
    assert!(le("", ""));
}

#[test]
fn folder_count_is_checked_first() {
    assert!(matches!(check_folder_count(2), Err(ValidationError::InsufficientFolders { count: 2 })));
    assert!(check_folder_count(3).is_ok());
}
