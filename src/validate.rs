//! Folder-set validation: the files common to every selected folder, and
//! what each folder misses of them.

use vstd::prelude::*;

verus! {

/// The names held by a list of strings.
pub open spec fn names(v: Seq<String>) -> Seq<Seq<char>> {
    v.map_values(|s: String| s@)
}

/// One selected folder: its path, its display name, and the image files it
/// lists (`None` when the folder does not exist).
#[derive(Clone, Debug)]
pub struct FolderListing {
    pub path: String,
    pub name: String,
    pub files: Option<Vec<String>>,
}

pub open spec fn listed(f: FolderListing) -> Seq<Seq<char>> {
    match f.files {
        Some(v) => names(v@),
        None => Seq::empty(),
    }
}

pub open spec fn listings(folders: Seq<FolderListing>) -> Seq<Seq<Seq<char>>> {
    folders.map_values(|f: FolderListing| listed(f))
}

/// `f` is listed by every folder.
pub open spec fn in_every(lists: Seq<Seq<Seq<char>>>, f: Seq<char>) -> bool {
    forall|j: int| 0 <= j < lists.len() ==> #[trigger] lists[j].contains(f)
}

/// The files of the first folder that every folder lists, in the first
/// folder's order.
pub open spec fn common_of(lists: Seq<Seq<Seq<char>>>) -> Seq<Seq<char>> {
    lists[0].filter(|f: Seq<char>| in_every(lists, f))
}

/// The files of `common` that `files` lacks.
pub open spec fn missing_of(common: Seq<Seq<char>>, files: Seq<Seq<char>>) -> Seq<Seq<char>> {
    common.filter(|f: Seq<char>| !files.contains(f))
}

/// Index of the first folder at or after `i` that does not exist, or -1.
pub open spec fn first_absent(folders: Seq<FolderListing>, i: int) -> int
    decreases folders.len() - i,
{
    if i < 0 || i >= folders.len() {
        -1
    } else if folders[i].files is None {
        i
    } else {
        first_absent(folders, i + 1)
    }
}

/// The role of a folder, by its position in the selection.
#[derive(Clone, Copy, Debug, PartialEq, Eq, Structural)]
pub enum FolderRole {
    SourceImages,
    GroundTruth,
    PrimaryResult,
    Comparison { number: usize },
}

pub open spec fn role_of(index: usize) -> FolderRole {
    if index == 0 {
        FolderRole::SourceImages
    } else if index == 1 {
        FolderRole::GroundTruth
    } else if index == 2 {
        FolderRole::PrimaryResult
    } else {
        FolderRole::Comparison { number: (index - 2) as usize }
    }
}

pub fn folder_role(index: usize) -> (r: FolderRole)
    ensures
        r == role_of(index),
{
    if index == 0 {
        FolderRole::SourceImages
    } else if index == 1 {
        FolderRole::GroundTruth
    } else if index == 2 {
        FolderRole::PrimaryResult
    } else {
        FolderRole::Comparison { number: index - 2 }
    }
}

/// The smallest selection that can be validated.
pub const MIN_FOLDERS: usize = 3;

#[derive(Clone, Debug)]
pub enum ValidationError {
    InsufficientFolders { count: usize },
    FolderNotFound { role: FolderRole, path: String },
}

/// The files of the common set that one folder lacks.
#[derive(Clone, Debug)]
pub struct MissingFiles {
    pub folder: String,
    pub files: Vec<String>,
}

#[derive(Clone, Debug)]
pub struct ValidationReport {
    pub is_valid: bool,
    pub common_files: Vec<String>,
    pub missing_files: Vec<MissingFiles>,
}

/// Refuses a selection of fewer than three folders, before any is read.
pub fn check_folder_count(count: usize) -> (r: Result<(), ValidationError>)
    ensures
        r is Ok <==> count >= MIN_FOLDERS,
        r matches Err(e) ==> (e matches ValidationError::InsufficientFolders { count: c } && c == count),
{
    if count < MIN_FOLDERS {
        Err(ValidationError::InsufficientFolders { count })
    } else {
        Ok(())
    }
}

/// Whether `v` holds the name `f`.
pub fn contains_name(v: &Vec<String>, f: &String) -> (r: bool)
    ensures
        r == names(v@).contains(f@),
{
    let mut i: usize = 0;
    while i < v.len()
        invariant
            i <= v@.len(),
            forall|k: int| 0 <= k < i ==> v@[k]@ != f@,
        decreases v@.len() - i,
    {
        if v[i] == *f {
            proof {
                assert(names(v@)[i as int] == f@);
            }
            return true;
        }
        i = i + 1;
    }
    proof {
        if names(v@).contains(f@) {
            let k = choose|k: int| 0 <= k < names(v@).len() && names(v@)[k] == f@;
            assert(v@[k]@ == f@);
        }
    }
    false
}

/// The files of `common` that `files` lacks, in the order of `common`.
pub fn missing_files_of(common: &Vec<String>, files: &Vec<String>) -> (r: Vec<String>)
    ensures
        names(r@) == missing_of(names(common@), names(files@)),
{
    let ghost pred = |f: Seq<char>| !names(files@).contains(f);
    let mut r: Vec<String> = Vec::new();
    let mut i: usize = 0;
    while i < common.len()
        invariant
            i <= common@.len(),
            pred == (|f: Seq<char>| !names(files@).contains(f)),
            names(r@) == names(common@).take(i as int).filter(pred),
        decreases common@.len() - i,
    {
        let f = &common[i];
        proof {
            assert(names(common@).take(i + 1) =~= names(common@).take(i as int).push(f@));
            names(common@).take(i as int).lemma_filter_push(f@, pred);
        }
        if !contains_name(files, f) {
            r.push(f.clone());
            proof {
                assert(names(r@) =~= names(common@).take(i as int).filter(pred).push(f@));
            }
        }
        i = i + 1;
    }
    proof {
        assert(names(common@).take(common@.len() as int) =~= names(common@));
    }
    r
}

/// Whether every listing in `folders` holds `f`.
fn listed_everywhere(folders: &Vec<FolderListing>, f: &String) -> (r: bool)
    requires
        first_absent(folders@, 0) == -1,
    ensures
        r == in_every(listings(folders@), f@),
{
    let ghost lists = listings(folders@);
    let mut j: usize = 0;
    while j < folders.len()
        invariant
            j <= folders@.len(),
            lists == listings(folders@),
            first_absent(folders@, 0) == -1,
            forall|k: int| 0 <= k < j ==> #[trigger] lists[k].contains(f@),
        decreases folders@.len() - j,
    {
        proof {
            lemma_all_present(folders@, j as int);
        }
        match &folders[j].files {
            Some(v) => {
                proof {
                    assert(lists[j as int] == names(v@));
                }
                if !contains_name(v, f) {
                    return false;
                }
            },
            None => {},
        }
        j = j + 1;
    }
    true
}

proof fn lemma_all_present(folders: Seq<FolderListing>, j: int)
    requires
        first_absent(folders, 0) == -1,
        0 <= j < folders.len(),
    ensures
        folders[j].files is Some,
{
    lemma_absent_from(folders, 0, j);
}

proof fn lemma_absent_from(folders: Seq<FolderListing>, i: int, j: int)
    requires
        0 <= i <= j < folders.len(),
        first_absent(folders, i) == -1,
    ensures
        folders[j].files is Some,
    decreases j - i,
{
    if i < j {
        lemma_absent_from(folders, i + 1, j);
    }
}

/// Every common file is listed by every folder, so no folder misses any of
/// them.
pub proof fn lemma_nothing_missing(lists: Seq<Seq<Seq<char>>>, j: int)
    requires
        lists.len() > 0,
        0 <= j < lists.len(),
    ensures
        missing_of(common_of(lists), lists[j]).len() == 0,
{
    let common = common_of(lists);
    let pred = |f: Seq<char>| in_every(lists, f);
    lists[0].filter_lemma(pred);
    let not_in = |f: Seq<char>| !lists[j].contains(f);
    common.filter_lemma(not_in);
    if missing_of(common, lists[j]).len() > 0 {
        let m = missing_of(common, lists[j]);
        assert(not_in(m[0]));
        assert(m.contains(m[0]));
        common.lemma_filter_contains_rev(not_in, m[0]);
        assert(common.contains(m[0]));
        let k = choose|k: int| 0 <= k < common.len() && common[k] == m[0];
        assert(pred(common[k]));
        assert(lists[j].contains(m[0]));
    }
}

/// The common files of the folders, in the order of the first folder, and
/// what each folder misses of them. Fails on fewer than three folders, and
/// on the first folder that does not exist.
pub fn validate_folders(folders: &Vec<FolderListing>) -> (r: Result<ValidationReport, ValidationError>)
    ensures
        folders@.len() < MIN_FOLDERS ==> (r matches Err(ValidationError::InsufficientFolders { count })
            && count == folders@.len()),
        folders@.len() >= MIN_FOLDERS && first_absent(folders@, 0) >= 0 ==> (r matches Err(
            ValidationError::FolderNotFound { role, path },
        ) && role == role_of(first_absent(folders@, 0) as usize) && path@ == folders@[first_absent(
            folders@,
            0,
        )].path@),
        folders@.len() >= MIN_FOLDERS && first_absent(folders@, 0) == -1 ==> (r matches Ok(report)
            && names(report.common_files@) == common_of(listings(folders@))
            && report.missing_files@.len() == 0 && report.is_valid == (
        report.common_files@.len() > 0)),
{
    if let Err(e) = check_folder_count(folders.len()) {
        return Err(e);
    }
    let mut i: usize = 0;
    while i < folders.len()
        invariant
            i <= folders@.len(),
            folders@.len() >= MIN_FOLDERS,
            first_absent(folders@, i as int) == first_absent(folders@, 0),
        decreases folders@.len() - i,
    {
        if folders[i].files.is_none() {
            return Err(
                ValidationError::FolderNotFound { role: folder_role(i), path: folders[i].path.clone() },
            );
        }
        i = i + 1;
    }
    let ghost lists = listings(folders@);
    let ghost pred = |f: Seq<char>| in_every(lists, f);
    proof {
        lemma_all_present(folders@, 0);
    }
    let first = match &folders[0].files {
        Some(v) => v,
        None => {
            return Err(ValidationError::FolderNotFound { role: folder_role(0), path: folders[0].path.clone() });
        },
    };
    let mut common: Vec<String> = Vec::new();
    let mut a: usize = 0;
    while a < first.len()
        invariant
            a <= first@.len(),
            first_absent(folders@, 0) == -1,
            lists == listings(folders@),
            lists.len() == folders@.len(),
            folders@.len() >= MIN_FOLDERS,
            names(first@) == lists[0],
            pred == (|f: Seq<char>| in_every(lists, f)),
            names(common@) == names(first@).take(a as int).filter(pred),
        decreases first@.len() - a,
    {
        let f = &first[a];
        proof {
            assert(names(first@).take(a + 1) =~= names(first@).take(a as int).push(f@));
            names(first@).take(a as int).lemma_filter_push(f@, pred);
        }
        if listed_everywhere(folders, f) {
            common.push(f.clone());
            proof {
                assert(names(common@) =~= names(first@).take(a as int).filter(pred).push(f@));
            }
        }
        a = a + 1;
    }
    proof {
        assert(names(first@).take(first@.len() as int) =~= names(first@));
    }
    let mut missing_files: Vec<MissingFiles> = Vec::new();
    let mut j: usize = 0;
    while j < folders.len()
        invariant
            j <= folders@.len(),
            first_absent(folders@, 0) == -1,
            lists == listings(folders@),
            names(common@) == common_of(lists),
            lists.len() == folders@.len(),
            folders@.len() >= MIN_FOLDERS,
            missing_files@.len() == 0,
        decreases folders@.len() - j,
    {
        proof {
            lemma_all_present(folders@, j as int);
            lemma_nothing_missing(lists, j as int);
        }
        match &folders[j].files {
            Some(v) => {
                let missing = missing_files_of(&common, v);
                if missing.len() > 0 {
                    missing_files.push(MissingFiles { folder: folders[j].name.clone(), files: missing });
                }
            },
            None => {},
        }
        j = j + 1;
    }
    let is_valid = missing_files.len() == 0 && common.len() > 0;
    Ok(ValidationReport { is_valid, common_files: common, missing_files })
}

/// A file is common exactly when every folder lists it.
pub proof fn lemma_common_members(lists: Seq<Seq<Seq<char>>>, f: Seq<char>)
    requires
        lists.len() > 0,
    ensures
        common_of(lists).contains(f) <==> in_every(lists, f),
{
    let pred = |x: Seq<char>| in_every(lists, x);
    lists[0].filter_lemma(pred);
    if common_of(lists).contains(f) {
        let k = choose|k: int| 0 <= k < common_of(lists).len() && common_of(lists)[k] == f;
        assert(pred(common_of(lists)[k]));
    }
    if in_every(lists, f) {
        assert(lists[0].contains(f));
        let k = choose|k: int| 0 <= k < lists[0].len() && lists[0][k] == f;
        lists[0].lemma_filter_contains(pred, k);
    }
}

/// The set of common files does not depend on the order of the folders:
/// two selections that hold the same listings, in any order, share the
/// same common files.
pub proof fn lemma_common_order_independent(a: Seq<Seq<Seq<char>>>, b: Seq<Seq<Seq<char>>>)
    requires
        a.len() > 0,
        b.len() > 0,
        forall|i: int| 0 <= i < a.len() ==> b.contains(#[trigger] a[i]),
        forall|j: int| 0 <= j < b.len() ==> a.contains(#[trigger] b[j]),
    ensures
        common_of(a).to_set() == common_of(b).to_set(),
{
    assert forall|f: Seq<char>| common_of(a).to_set().contains(f) <==> common_of(
        b,
    ).to_set().contains(f) by {
        lemma_common_members(a, f);
        lemma_common_members(b, f);
        if in_every(a, f) {
            assert forall|j: int| 0 <= j < b.len() implies #[trigger] b[j].contains(f) by {
                assert(a.contains(b[j]));
                let i = choose|i: int| 0 <= i < a.len() && a[i] == b[j];
                assert(a[i].contains(f));
            }
        }
        if in_every(b, f) {
            assert forall|i: int| 0 <= i < a.len() implies #[trigger] a[i].contains(f) by {
                assert(b.contains(a[i]));
                let j = choose|j: int| 0 <= j < b.len() && b[j] == a[i];
                assert(b[j].contains(f));
            }
        }
    }
    assert(common_of(a).to_set() =~= common_of(b).to_set());
}

} // verus!
