//! Grouped export of selected results: one folder per image, one copy per
//! source, and the accounting of what failed.

use vstd::prelude::*;
use crate::labels::LabelMap;

verus! {

/// Relies on `String::push`: appends one character.
#[verifier::external_body]
pub(crate) fn push_char(s: &mut String, c: char)
    ensures
        final(s)@ == old(s)@.push(c),
{
    s.push(c);
}

/// `s` with every character that `hit` accepts replaced by `'_'`.
pub open spec fn underscored(s: Seq<char>, hit: spec_fn(char) -> bool) -> Seq<char> {
    Seq::new(s.len(), |i: int| if hit(s[i]) { '_' } else { s[i] })
}

pub open spec fn is_dot(c: char) -> bool {
    c == '.'
}

pub open spec fn is_path_char(c: char) -> bool {
    c == '/' || c == '\\' || c == ':'
}

/// The folder that groups the exports of one image: its file name with
/// every dot made an underscore.
pub open spec fn folder_name_of(filename: Seq<char>) -> Seq<char> {
    underscored(filename, |c: char| is_dot(c))
}

/// A source label made safe for a file name: path separators and colons
/// become underscores.
pub open spec fn safe_label_of(label: Seq<char>) -> Seq<char> {
    underscored(label, |c: char| is_path_char(c))
}

/// The name of an exported copy: `{safe label}_{file name}`.
pub open spec fn export_name_of(label: Seq<char>, filename: Seq<char>) -> Seq<char> {
    safe_label_of(label) + seq!['_'] + filename
}

fn replace_with_underscore(s: &String, dots: bool) -> (r: String)
    ensures
        dots ==> r@ == folder_name_of(s@),
        !dots ==> r@ == safe_label_of(s@),
{
    let ghost hit = if dots {
        |c: char| is_dot(c)
    } else {
        |c: char| is_path_char(c)
    };
    let src = s.as_str();
    let n = src.unicode_len();
    let mut r = String::new();
    let mut i: usize = 0;
    while i < n
        invariant
            n == src@.len(),
            src@ == s@,
            i <= n,
            hit == (if dots {
                |c: char| is_dot(c)
            } else {
                |c: char| is_path_char(c)
            }),
            r@ == underscored(s@, hit).take(i as int),
        decreases n - i,
    {
        let c = src.get_char(i);
        let replace = if dots {
            c == '.'
        } else {
            c == '/' || c == '\\' || c == ':'
        };
        if replace {
            push_char(&mut r, '_');
        } else {
            push_char(&mut r, c);
        }
        proof {
            assert(r@ =~= underscored(s@, hit).take(i + 1));
        }
        i = i + 1;
    }
    proof {
        assert(r@ =~= underscored(s@, hit));
        if dots {
            assert(underscored(s@, hit) =~= folder_name_of(s@));
        } else {
            assert(underscored(s@, hit) =~= safe_label_of(s@));
        }
    }
    r
}

/// The folder that groups the exports of `filename`.
pub fn image_folder_name(filename: &String) -> (r: String)
    ensures
        r@ == folder_name_of(filename@),
{
    replace_with_underscore(filename, true)
}

/// `label` with path separators and colons made underscores.
pub fn safe_label(label: &String) -> (r: String)
    ensures
        r@ == safe_label_of(label@),
{
    replace_with_underscore(label, false)
}

/// The file name of the copy of `filename` exported for `label`.
pub fn export_file_name(label: &String, filename: &String) -> (r: String)
    ensures
        r@ == export_name_of(label@, filename@),
{
    let mut r = safe_label(label);
    push_char(&mut r, '_');
    let name = filename.as_str();
    let n = name.unicode_len();
    let ghost start = r@;
    let mut i: usize = 0;
    while i < n
        invariant
            n == name@.len(),
            name@ == filename@,
            i <= n,
            start == safe_label_of(label@) + seq!['_'],
            r@ == start + filename@.take(i as int),
        decreases n - i,
    {
        push_char(&mut r, name.get_char(i));
        proof {
            assert(r@ =~= start + filename@.take(i + 1));
        }
        i = i + 1;
    }
    proof {
        assert(filename@.take(n as int) =~= filename@);
    }
    r
}

/// One selected image: its file name, and the path of its image under each
/// source label.
#[derive(Clone, Debug)]
pub struct ExportSelection {
    pub filename: String,
    pub sources: LabelMap<String>,
}

/// One file to copy into an image's folder.
#[derive(Clone, Debug)]
pub struct CopyTask {
    pub label: String,
    pub source_path: String,
    pub dest_name: String,
}

/// The folder to create for one selection, and the copies to make in it.
#[derive(Clone, Debug)]
pub struct ExportTask {
    pub filename: String,
    pub folder_name: String,
    pub copies: Vec<CopyTask>,
}

/// `t` is the task of the selection `s`.
pub open spec fn task_of(s: ExportSelection, t: ExportTask) -> bool {
    &&& t.filename@ == s.filename@
    &&& t.folder_name@ == folder_name_of(s.filename@)
    &&& t.copies@.len() == s.sources.view().len()
    &&& forall|k: int|
        0 <= k < t.copies@.len() ==> {
            &&& (#[trigger] t.copies@[k]).label@ == s.sources.view()[k].0
            &&& t.copies@[k].source_path@ == s.sources.view()[k].1
            &&& t.copies@[k].dest_name@ == export_name_of(s.sources.view()[k].0, s.filename@)
        }
}

#[derive(Clone, Debug)]
pub enum ExportError {
    /// The destination folder does not exist; nothing was done.
    DestinationNotFound,
    /// No selection was exported.
    NothingExported { outcome: ExportOutcome },
}

fn task_for(s: &ExportSelection) -> (r: ExportTask)
    ensures
        task_of(*s, r),
{
    let mut copies: Vec<CopyTask> = Vec::new();
    let mut k: usize = 0;
    while k < s.sources.len()
        invariant
            k <= s.sources.view().len(),
            copies@.len() == k,
            forall|j: int|
                0 <= j < k ==> {
                    &&& (#[trigger] copies@[j]).label@ == s.sources.view()[j].0
                    &&& copies@[j].source_path@ == s.sources.view()[j].1
                    &&& copies@[j].dest_name@ == export_name_of(s.sources.view()[j].0, s.filename@)
                },
        decreases s.sources.view().len() - k,
    {
        let label = s.sources.label_at(k);
        let path = s.sources.value_at(k);
        copies.push(
            CopyTask {
                label: label.clone(),
                source_path: path.clone(),
                dest_name: export_file_name(label, &s.filename),
            },
        );
        k = k + 1;
    }
    ExportTask {
        filename: s.filename.clone(),
        folder_name: image_folder_name(&s.filename),
        copies,
    }
}

/// The folders and copies to make for `selections`, one task per
/// selection in order; refused when the destination does not exist.
pub fn plan_export(destination_exists: bool, selections: &Vec<ExportSelection>) -> (r: Result<
    Vec<ExportTask>,
    ExportError,
>)
    ensures
        !destination_exists <==> r matches Err(ExportError::DestinationNotFound),
        destination_exists ==> (r matches Ok(tasks) && tasks@.len() == selections@.len() && forall|
            i: int,
        |
            0 <= i < tasks@.len() ==> task_of(selections@[i], #[trigger] tasks@[i])),
{
    if !destination_exists {
        return Err(ExportError::DestinationNotFound);
    }
    let mut tasks: Vec<ExportTask> = Vec::new();
    let mut i: usize = 0;
    while i < selections.len()
        invariant
            i <= selections@.len(),
            tasks@.len() == i,
            forall|j: int| 0 <= j < i ==> task_of(selections@[j], #[trigger] tasks@[j]),
        decreases selections@.len() - i,
    {
        tasks.push(task_for(&selections[i]));
        i = i + 1;
    }
    Ok(tasks)
}

/// What became of one copy.
#[derive(Clone, Debug)]
pub enum CopyOutcome {
    Copied,
    SourceMissing,
    CopyFailed { dest_path: String, error: String },
}

/// What became of one task: its folder could not be created, or it was
/// created and each copy was tried.
#[derive(Clone, Debug)]
pub enum TaskOutcome {
    FolderFailed { error: String },
    Done { copies: Vec<CopyOutcome> },
}

/// One failure, in the order met.
#[derive(Clone, Debug)]
pub enum ExportFailure {
    CreateFolder { filename: String, error: String },
    SourceMissing { source_path: String },
    CopyFailed { source_path: String, dest_path: String, error: String },
}

pub enum FailureView {
    CreateFolder { filename: Seq<char>, error: Seq<char> },
    SourceMissing { source_path: Seq<char> },
    CopyFailed { source_path: Seq<char>, dest_path: Seq<char>, error: Seq<char> },
}

impl ExportFailure {
    pub open spec fn view(&self) -> FailureView {
        match self {
            ExportFailure::CreateFolder { filename, error } => FailureView::CreateFolder {
                filename: filename@,
                error: error@,
            },
            ExportFailure::SourceMissing { source_path } => FailureView::SourceMissing {
                source_path: source_path@,
            },
            ExportFailure::CopyFailed { source_path, dest_path, error } => FailureView::CopyFailed {
                source_path: source_path@,
                dest_path: dest_path@,
                error: error@,
            },
        }
    }
}

pub open spec fn failure_views(v: Seq<ExportFailure>) -> Seq<FailureView> {
    v.map_values(|f: ExportFailure| f.view())
}

/// The failures of the first `n` copies of a task.
pub open spec fn copy_failures(task: ExportTask, copies: Seq<CopyOutcome>, n: int) -> Seq<FailureView>
    decreases n,
{
    if n <= 0 {
        Seq::empty()
    } else {
        copy_failures(task, copies, n - 1) + match copies[n - 1] {
            CopyOutcome::Copied => Seq::empty(),
            CopyOutcome::SourceMissing => seq![
                FailureView::SourceMissing { source_path: task.copies@[n - 1].source_path@ },
            ],
            CopyOutcome::CopyFailed { dest_path, error } => seq![
                FailureView::CopyFailed {
                    source_path: task.copies@[n - 1].source_path@,
                    dest_path: dest_path@,
                    error: error@,
                },
            ],
        }
    }
}

/// The copies of a task that succeeded, among the first `n`.
pub open spec fn copied_count(copies: Seq<CopyOutcome>, n: int) -> nat
    decreases n,
{
    if n <= 0 {
        0
    } else {
        copied_count(copies, n - 1) + if copies[n - 1] is Copied {
            1nat
        } else {
            0nat
        }
    }
}

pub open spec fn task_failures(task: ExportTask, outcome: TaskOutcome) -> Seq<FailureView> {
    match outcome {
        TaskOutcome::FolderFailed { error } => seq![
            FailureView::CreateFolder { filename: task.filename@, error: error@ },
        ],
        TaskOutcome::Done { copies } => copy_failures(task, copies@, copies@.len() as int),
    }
}

pub open spec fn task_copied(outcome: TaskOutcome) -> nat {
    match outcome {
        TaskOutcome::FolderFailed { .. } => 0,
        TaskOutcome::Done { copies } => copied_count(copies@, copies@.len() as int),
    }
}

/// The failures of the first `n` tasks, in order.
pub open spec fn all_failures(tasks: Seq<ExportTask>, outcomes: Seq<TaskOutcome>, n: int) -> Seq<
    FailureView,
>
    decreases n,
{
    if n <= 0 {
        Seq::empty()
    } else {
        all_failures(tasks, outcomes, n - 1) + task_failures(tasks[n - 1], outcomes[n - 1])
    }
}

/// The selections among the first `n` whose folder was created: each
/// counts as exported, whatever became of its copies.
pub open spec fn exported_count(outcomes: Seq<TaskOutcome>, n: int) -> nat
    decreases n,
{
    if n <= 0 {
        0
    } else {
        exported_count(outcomes, n - 1) + if outcomes[n - 1] is Done {
            1nat
        } else {
            0nat
        }
    }
}

pub open spec fn total_copied(outcomes: Seq<TaskOutcome>, n: int) -> nat
    decreases n,
{
    if n <= 0 {
        0
    } else {
        total_copied(outcomes, n - 1) + task_copied(outcomes[n - 1])
    }
}

/// The summary of an export.
#[derive(Clone, Debug)]
pub struct ExportOutcome {
    /// Selections whose folder was created.
    pub exported: usize,
    /// Files copied.
    pub copied: usize,
    /// Selections asked for.
    pub total: usize,
    pub failures: Vec<ExportFailure>,
    pub destination: String,
}

pub open spec fn outcome_of(
    o: ExportOutcome,
    destination: Seq<char>,
    tasks: Seq<ExportTask>,
    outcomes: Seq<TaskOutcome>,
) -> bool {
    &&& o.exported == exported_count(outcomes, outcomes.len() as int)
    &&& o.copied == total_copied(outcomes, outcomes.len() as int)
    &&& o.total == tasks.len()
    &&& failure_views(o.failures@) == all_failures(tasks, outcomes, outcomes.len() as int)
    &&& o.destination@ == destination
}

pub open spec fn outcome_fits(tasks: Seq<ExportTask>, outcomes: Seq<TaskOutcome>) -> bool {
    &&& tasks.len() == outcomes.len()
    &&& forall|i: int|
        0 <= i < outcomes.len() ==> (#[trigger] outcomes[i] matches TaskOutcome::Done { copies }
            ==> copies@.len() == tasks[i].copies@.len())
}

/// How many copies the first `n` outcomes report on.
pub open spec fn copy_slots(outcomes: Seq<TaskOutcome>, n: int) -> nat
    decreases n,
{
    if n <= 0 {
        0
    } else {
        copy_slots(outcomes, n - 1) + match outcomes[n - 1] {
            TaskOutcome::Done { copies } => copies@.len(),
            TaskOutcome::FolderFailed { .. } => 0,
        }
    }
}

proof fn lemma_copied_bounded(copies: Seq<CopyOutcome>, n: int)
    requires
        0 <= n,
    ensures
        copied_count(copies, n) <= n,
    decreases n,
{
    if n > 0 {
        lemma_copied_bounded(copies, n - 1);
    }
}

proof fn lemma_counts_bounded(outcomes: Seq<TaskOutcome>, n: int)
    requires
        0 <= n <= outcomes.len(),
    ensures
        exported_count(outcomes, n) <= n,
        total_copied(outcomes, n) <= copy_slots(outcomes, n),
        copy_slots(outcomes, n) <= copy_slots(outcomes, outcomes.len() as int),
    decreases outcomes.len() - n,
{
    if n < outcomes.len() {
        lemma_counts_bounded(outcomes, n + 1);
    }
    lemma_counts_low(outcomes, n);
}

proof fn lemma_counts_low(outcomes: Seq<TaskOutcome>, n: int)
    requires
        0 <= n <= outcomes.len(),
    ensures
        exported_count(outcomes, n) <= n,
        total_copied(outcomes, n) <= copy_slots(outcomes, n),
    decreases n,
{
    if n > 0 {
        lemma_counts_low(outcomes, n - 1);
        if let TaskOutcome::Done { copies } = outcomes[n - 1] {
            lemma_copied_bounded(copies@, copies@.len() as int);
        }
    }
}

/// A selection counts as exported exactly when its folder was created, so
/// the export takes the success channel as soon as one folder was created,
/// whatever became of the copies.
pub proof fn lemma_exported_iff_folder_created(outcomes: Seq<TaskOutcome>, n: int)
    requires
        0 <= n <= outcomes.len(),
    ensures
        exported_count(outcomes, n) > 0 <==> exists|i: int| 0 <= i < n && (#[trigger] outcomes[i]) is Done,
    decreases n,
{
    if n > 0 {
        lemma_exported_iff_folder_created(outcomes, n - 1);
        if outcomes[n - 1] is Done {
            assert(exists|i: int| 0 <= i < n && (#[trigger] outcomes[i]) is Done);
        } else if exists|i: int| 0 <= i < n && (#[trigger] outcomes[i]) is Done {
            let i = choose|i: int| 0 <= i < n && (#[trigger] outcomes[i]) is Done;
            assert(i < n - 1);
        }
    }
}

/// Collects what became of every task. Succeeds when nothing failed, or
/// when at least one selection was exported; fails with the same summary
/// when none was.
pub fn finish_export(destination: String, tasks: &Vec<ExportTask>, outcomes: &Vec<TaskOutcome>) -> (r:
    Result<ExportOutcome, ExportError>)
    requires
        outcome_fits(tasks@, outcomes@),
        copy_slots(outcomes@, outcomes@.len() as int) <= usize::MAX,
    ensures
        match r {
            Ok(o) => outcome_of(o, destination@, tasks@, outcomes@) && (o.failures@.len() == 0
                || o.exported > 0),
            Err(ExportError::NothingExported { outcome }) => outcome_of(
                outcome,
                destination@,
                tasks@,
                outcomes@,
            ) && outcome.failures@.len() > 0 && outcome.exported == 0,
            Err(ExportError::DestinationNotFound) => false,
        },
{
    let mut exported: usize = 0;
    let mut copied: usize = 0;
    let mut failures: Vec<ExportFailure> = Vec::new();
    let mut i: usize = 0;
    while i < outcomes.len()
        invariant
            outcome_fits(tasks@, outcomes@),
            copy_slots(outcomes@, outcomes@.len() as int) <= usize::MAX,
            i <= outcomes@.len(),
            exported == exported_count(outcomes@, i as int),
            copied == total_copied(outcomes@, i as int),
            failure_views(failures@) == all_failures(tasks@, outcomes@, i as int),
        decreases outcomes@.len() - i,
    {
        proof {
            lemma_counts_bounded(outcomes@, i as int);
            lemma_counts_bounded(outcomes@, i + 1);
        }
        let task = &tasks[i];
        match &outcomes[i] {
            TaskOutcome::FolderFailed { error } => {
                failures.push(
                    ExportFailure::CreateFolder { filename: task.filename.clone(), error: error.clone() },
                );
                proof {
                    assert(failure_views(failures@) =~= all_failures(tasks@, outcomes@, i + 1));
                }
            },
            TaskOutcome::Done { copies } => {
                let ghost before = failures@;
                let mut k: usize = 0;
                while k < copies.len()
                    invariant
                        outcome_fits(tasks@, outcomes@),
                        i < outcomes@.len(),
                        outcomes@[i as int] == (TaskOutcome::Done { copies: *copies }),
                        *task == tasks@[i as int],
                        k <= copies@.len(),
                        copies@.len() == task.copies@.len(),
                        failure_views(failures@) == failure_views(before) + copy_failures(
                            *task,
                            copies@,
                            k as int,
                        ),
                        copied == total_copied(outcomes@, i as int) + copied_count(copies@, k as int),
                        copy_slots(outcomes@, outcomes@.len() as int) <= usize::MAX,
                        total_copied(outcomes@, i as int) <= copy_slots(outcomes@, i as int),
                        copy_slots(outcomes@, i + 1) <= copy_slots(outcomes@, outcomes@.len() as int),
                        copy_slots(outcomes@, i + 1) == copy_slots(outcomes@, i as int) + copies@.len(),
                        copied_count(copies@, k as int) <= k,
                    decreases copies@.len() - k,
                {
                    proof {
                        lemma_copied_bounded(copies@, k + 1);
                    }
                    let ghost prev = failures@;
                    match &copies[k] {
                        CopyOutcome::Copied => {
                            copied = copied + 1;
                        },
                        CopyOutcome::SourceMissing => {
                            failures.push(
                                ExportFailure::SourceMissing {
                                    source_path: task.copies[k].source_path.clone(),
                                },
                            );
                        },
                        CopyOutcome::CopyFailed { dest_path, error } => {
                            failures.push(
                                ExportFailure::CopyFailed {
                                    source_path: task.copies[k].source_path.clone(),
                                    dest_path: dest_path.clone(),
                                    error: error.clone(),
                                },
                            );
                        },
                    }
                    proof {
                        let piece = failure_views(failures@).subrange(
                            failure_views(prev).len() as int,
                            failure_views(failures@).len() as int,
                        );
                        assert(failure_views(failures@) =~= failure_views(prev) + piece);
                        assert(copy_failures(*task, copies@, k + 1) =~= copy_failures(
                            *task,
                            copies@,
                            k as int,
                        ) + piece);
                        assert(failure_views(failures@) =~= failure_views(before) + copy_failures(
                            *task,
                            copies@,
                            k + 1,
                        ));
                    }
                    k = k + 1;
                }
                exported = exported + 1;
                proof {
                    assert(failure_views(failures@) =~= all_failures(tasks@, outcomes@, i + 1));
                }
            },
        }
        i = i + 1;
    }
    let outcome = ExportOutcome { exported, copied, total: tasks.len(), failures, destination };
    if outcome.failures.len() == 0 || outcome.exported > 0 {
        Ok(outcome)
    } else {
        Err(ExportError::NothingExported { outcome })
    }
}

} // verus!
