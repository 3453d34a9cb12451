//! Batch scoring of every common file against ground truth, driven one file
//! at a time by the caller, who reads the files and relays progress.

use vstd::prelude::*;
use vstd::string::StringExecFns;
use crate::decode::{decode_file, file_mask};
use crate::labels::{insert_all, LabelMap};
use crate::mask::{
    accuracy_den, accuracy_num, iou_den, iou_num, lemma_scores_bounded, score_masks, Dimensions,
    GrayMask, MaskScores, Ratio,
};

verus! {

/// Path label of the original input images.
pub const ORIGINAL_LABEL: &'static str = "原始图片";

/// Path label of the ground truth.
pub const GROUND_TRUTH_LABEL: &'static str = "GT";

/// Label of the primary result, for its path and its scores.
pub const PRIMARY_LABEL: &'static str = "我的结果";

/// Label of the final progress event.
pub const COMPLETE_LABEL: &'static str = "计算完成";

/// `folder/name`.
pub open spec fn join_path(folder: Seq<char>, name: Seq<char>) -> Seq<char> {
    folder + seq!['/'] + name
}

pub fn join(folder: &String, name: &String) -> (r: String)
    ensures
        r@ == join_path(folder@, name@),
{
    let sep = "/";
    proof {
        reveal_strlit("/");
    }
    let r = folder.clone().concat(sep).concat(name.as_str());
    proof {
        assert(r@ =~= join_path(folder@, name@));
    }
    r
}

/// A named comparison source and the folder that holds its masks.
#[derive(Clone, Debug)]
pub struct ComparisonSource {
    pub label: String,
    pub folder: String,
}

pub open spec fn source_labels(sources: Seq<ComparisonSource>) -> Seq<Seq<char>> {
    sources.map_values(|s: ComparisonSource| s.label@)
}

/// The scores recorded for one pair: the metrics when both masks decoded and
/// have one size, zero on both otherwise.
pub open spec fn recorded_scores(gt: Option<GrayMask>, m: Option<GrayMask>) -> MaskScores {
    match (gt, m) {
        (Some(a), Some(b)) => if a.dims() == b.dims() {
            MaskScores {
                iou: Ratio {
                    num: iou_num(a.pixels@, b.pixels@) as u64,
                    den: iou_den(a.pixels@, b.pixels@) as u64,
                },
                accuracy: Ratio {
                    num: accuracy_num(a.pixels@, b.pixels@) as u64,
                    den: accuracy_den(a.pixels@, b.pixels@) as u64,
                },
            }
        } else {
            zero_scores()
        },
        _ => zero_scores(),
    }
}

pub open spec fn zero_scores() -> MaskScores {
    MaskScores { iou: Ratio { num: 0, den: 1 }, accuracy: Ratio { num: 0, den: 1 } }
}

pub open spec fn mask_ok(m: Option<GrayMask>) -> bool {
    m matches Some(x) ==> x.wf()
}

/// Scores a decoded pair, falling back to zero when either is missing or the
/// sizes differ.
pub fn score_or_zero(gt: &Option<GrayMask>, m: &Option<GrayMask>) -> (r: MaskScores)
    requires
        mask_ok(*gt),
        mask_ok(*m),
    ensures
        r == recorded_scores(*gt, *m),
{
    match (gt, m) {
        (Some(a), Some(b)) => match score_masks(a, b) {
            Ok(s) => {
                proof {
                    lemma_scores_bounded(a.pixels@, b.pixels@);
                }
                s
            },
            Err(_) => MaskScores { iou: Ratio::zero(), accuracy: Ratio::zero() },
        },
        _ => MaskScores { iou: Ratio::zero(), accuracy: Ratio::zero() },
    }
}

/// The paths of one file in every folder of a batch.
#[derive(Clone, Debug)]
pub struct FilePaths {
    pub original: Option<String>,
    pub ground_truth: String,
    pub primary: String,
    pub sources: Vec<String>,
}

/// Labels of the path mapping: original (when given), ground truth,
/// primary, then each source.
pub open spec fn path_keys(has_original: bool, labels: Seq<Seq<char>>) -> Seq<Seq<char>> {
    if has_original {
        seq![ORIGINAL_LABEL@, GROUND_TRUTH_LABEL@, PRIMARY_LABEL@] + labels
    } else {
        seq![GROUND_TRUTH_LABEL@, PRIMARY_LABEL@] + labels
    }
}

pub open spec fn path_values(p: FilePaths) -> Seq<Seq<char>> {
    let tail = seq![p.ground_truth@, p.primary@] + p.sources@.map_values(|s: String| s@);
    match p.original {
        Some(o) => seq![o@] + tail,
        None => tail,
    }
}

/// Labels of the score mappings: primary, then each source.
pub open spec fn score_keys(labels: Seq<Seq<char>>) -> Seq<Seq<char>> {
    seq![PRIMARY_LABEL@] + labels
}

pub open spec fn score_values(
    gt: Option<GrayMask>,
    primary: Option<GrayMask>,
    masks: Seq<Option<GrayMask>>,
) -> Seq<MaskScores> {
    seq![recorded_scores(gt, primary)] + Seq::new(
        masks.len(),
        |k: int| recorded_scores(gt, masks[k]),
    )
}

pub open spec fn ious(s: Seq<MaskScores>) -> Seq<Ratio> {
    s.map_values(|x: MaskScores| x.iou)
}

pub open spec fn accuracies(s: Seq<MaskScores>) -> Seq<Ratio> {
    s.map_values(|x: MaskScores| x.accuracy)
}

/// Why one pair was scored zero.
#[derive(Clone, Copy, Debug, PartialEq, Eq, Structural)]
pub enum ScoreFailure {
    /// The ground truth could not be read or decoded.
    GroundTruthUnreadable,
    /// The scored image could not be read or decoded.
    ImageUnreadable,
    /// The two images differ in size.
    DimensionMismatch { ground_truth: Dimensions, image: Dimensions },
}

/// The failure, if any, that scoring `m` against `gt` meets: the ground
/// truth is decoded first.
pub open spec fn failure_of(gt: Option<GrayMask>, m: Option<GrayMask>) -> Option<ScoreFailure> {
    match gt {
        None => Some(ScoreFailure::GroundTruthUnreadable),
        Some(a) => match m {
            None => Some(ScoreFailure::ImageUnreadable),
            Some(b) => if a.dims() == b.dims() {
                None
            } else {
                Some(ScoreFailure::DimensionMismatch { ground_truth: a.dims(), image: b.dims() })
            },
        },
    }
}

/// A pair that met a failure is recorded as zero on both metrics; any other
/// pair is recorded with its metrics.
pub proof fn lemma_failure_scores_zero(gt: Option<GrayMask>, m: Option<GrayMask>)
    ensures
        failure_of(gt, m) is Some ==> recorded_scores(gt, m) == zero_scores(),
        failure_of(gt, m) is None ==> (gt matches Some(a) && m matches Some(b) && recorded_scores(
            gt,
            m,
        ).iou.num == iou_num(a.pixels@, b.pixels@) as u64),
{
}

pub fn pair_failure(gt: &Option<GrayMask>, m: &Option<GrayMask>) -> (r: Option<ScoreFailure>)
    ensures
        r == failure_of(*gt, *m),
{
    match gt {
        None => Some(ScoreFailure::GroundTruthUnreadable),
        Some(a) => match m {
            None => Some(ScoreFailure::ImageUnreadable),
            Some(b) => if a.width == b.width && a.height == b.height {
                None
            } else {
                Some(
                    ScoreFailure::DimensionMismatch {
                        ground_truth: a.dimensions(),
                        image: b.dimensions(),
                    },
                )
            },
        },
    }
}

/// A failed pair and the label it was scored under.
#[derive(Clone, Debug)]
pub struct LabelledFailure {
    pub label: String,
    pub failure: ScoreFailure,
}

pub open spec fn labelled_failures(v: Seq<LabelledFailure>) -> Seq<(Seq<char>, ScoreFailure)> {
    v.map_values(|f: LabelledFailure| (f.label@, f.failure))
}

/// The labels of `keys` whose outcome in `fails` is a failure, with it, in
/// order.
pub open spec fn failure_entries(keys: Seq<Seq<char>>, fails: Seq<Option<ScoreFailure>>) -> Seq<
    (Seq<char>, ScoreFailure),
>
    decreases keys.len(),
{
    if keys.len() == 0 {
        Seq::empty()
    } else {
        let rest = failure_entries(keys.drop_last(), fails.take(keys.len() - 1));
        match fails[keys.len() - 1] {
            Some(f) => rest.push((keys.last(), f)),
            None => rest,
        }
    }
}

pub open spec fn pair_failures(
    gt: Option<GrayMask>,
    primary: Option<GrayMask>,
    masks: Seq<Option<GrayMask>>,
) -> Seq<Option<ScoreFailure>> {
    seq![failure_of(gt, primary)] + Seq::new(masks.len(), |k: int| failure_of(gt, masks[k]))
}

fn note_failure(
    v: &mut Vec<LabelledFailure>,
    label: &String,
    f: Option<ScoreFailure>,
    Ghost(keys): Ghost<Seq<Seq<char>>>,
    Ghost(fails): Ghost<Seq<Option<ScoreFailure>>>,
)
    requires
        keys.len() == fails.len(),
        labelled_failures(old(v)@) == failure_entries(keys, fails),
    ensures
        labelled_failures(final(v)@) == failure_entries(keys.push(label@), fails.push(f)),
{
    proof {
        assert(keys.push(label@).drop_last() =~= keys);
        assert(fails.push(f).take(keys.len() as int) =~= fails);
    }
    match f {
        Some(x) => {
            v.push(LabelledFailure { label: label.clone(), failure: x });
            proof {
                assert(labelled_failures(v@) =~= failure_entries(keys, fails).push((label@, x)));
            }
        },
        None => {},
    }
}

/// The record of one common file.
#[derive(Clone, Debug)]
pub struct ComparisonResult {
    pub filename: String,
    pub iou_scores: LabelMap<Ratio>,
    pub accuracy_scores: LabelMap<Ratio>,
    pub paths: LabelMap<String>,
    /// The pairs scored zero because they could not be scored, with why.
    pub failures: Vec<LabelledFailure>,
}

impl ComparisonResult {
    /// This record lists `paths` under their labels and holds the scores of
    /// the decoded masks against the ground truth.
    pub open spec fn records(
        &self,
        filename: Seq<char>,
        labels: Seq<Seq<char>>,
        paths: FilePaths,
        gt: Option<GrayMask>,
        primary: Option<GrayMask>,
        masks: Seq<Option<GrayMask>>,
    ) -> bool {
        &&& self.filename@ == filename
        &&& self.paths.view() == insert_all(path_keys(paths.original is Some, labels), path_values(paths))
        &&& self.iou_scores.view() == insert_all(score_keys(labels), ious(score_values(gt, primary, masks)))
        &&& self.accuracy_scores.view() == insert_all(
            score_keys(labels),
            accuracies(score_values(gt, primary, masks)),
        )
        &&& labelled_failures(self.failures@) == failure_entries(
            score_keys(labels),
            pair_failures(gt, primary, masks),
        )
    }
}

proof fn lemma_insert_all_push<V>(keys: Seq<Seq<char>>, vals: Seq<V>, k: Seq<char>, v: V)
    requires
        keys.len() == vals.len(),
    ensures
        insert_all(keys.push(k), vals.push(v)) == crate::labels::label_insert(insert_all(keys, vals), k, v),
{
    assert(keys.push(k).drop_last() =~= keys);
    assert(vals.push(v).take(keys.len() as int) =~= vals);
}

fn insert_label<V: View>(
    m: &mut LabelMap<V>,
    label: String,
    value: V,
    Ghost(keys): Ghost<Seq<Seq<char>>>,
    Ghost(vals): Ghost<Seq<V::V>>,
)
    requires
        keys.len() == vals.len(),
        old(m).view() == insert_all(keys, vals),
    ensures
        final(m).view() == insert_all(keys.push(label@), vals.push(value@)),
{
    proof {
        lemma_insert_all_push(keys, vals, label@, value@);
    }
    m.insert(label, value);
}

/// Builds the record of one file from its paths and its decoded masks.
pub fn compare_decoded(
    filename: &String,
    sources: &Vec<ComparisonSource>,
    paths: &FilePaths,
    gt: &Option<GrayMask>,
    primary: &Option<GrayMask>,
    masks: &Vec<Option<GrayMask>>,
) -> (r: ComparisonResult)
    requires
        paths.sources@.len() == sources@.len(),
        masks@.len() == sources@.len(),
        mask_ok(*gt),
        mask_ok(*primary),
        forall|k: int| 0 <= k < masks@.len() ==> mask_ok(#[trigger] masks@[k]),
    ensures
        r.records(filename@, source_labels(sources@), *paths, *gt, *primary, masks@),
{
    let ghost labels = source_labels(sources@);
    let ghost all = score_values(*gt, *primary, masks@);
    let mut path_map: LabelMap<String> = LabelMap::new();
    let mut iou_map: LabelMap<Ratio> = LabelMap::new();
    let mut acc_map: LabelMap<Ratio> = LabelMap::new();
    let ghost mut pkeys: Seq<Seq<char>> = Seq::empty();
    let ghost mut pvals: Seq<Seq<char>> = Seq::empty();
    let ghost mut skeys: Seq<Seq<char>> = Seq::empty();
    let ghost mut ivals: Seq<Ratio> = Seq::empty();
    let ghost mut avals: Seq<Ratio> = Seq::empty();
    match &paths.original {
        Some(o) => {
            insert_label(&mut path_map, String::from_str(ORIGINAL_LABEL), o.clone(), Ghost(pkeys), Ghost(pvals));
            proof {
                pkeys = pkeys.push(ORIGINAL_LABEL@);
                pvals = pvals.push(o@);
            }
        },
        None => {},
    }
    insert_label(&mut path_map, String::from_str(GROUND_TRUTH_LABEL), paths.ground_truth.clone(), Ghost(pkeys), Ghost(pvals));
    proof {
        pkeys = pkeys.push(GROUND_TRUTH_LABEL@);
        pvals = pvals.push(paths.ground_truth@);
    }
    insert_label(&mut path_map, String::from_str(PRIMARY_LABEL), paths.primary.clone(), Ghost(pkeys), Ghost(pvals));
    proof {
        pkeys = pkeys.push(PRIMARY_LABEL@);
        pvals = pvals.push(paths.primary@);
    }
    let ghost fails_all = pair_failures(*gt, *primary, masks@);
    let mut failures: Vec<LabelledFailure> = Vec::new();
    let ghost mut fvals: Seq<Option<ScoreFailure>> = Seq::empty();
    let first = score_or_zero(gt, primary);
    insert_label(&mut iou_map, String::from_str(PRIMARY_LABEL), first.iou, Ghost(skeys), Ghost(ivals));
    insert_label(&mut acc_map, String::from_str(PRIMARY_LABEL), first.accuracy, Ghost(skeys), Ghost(avals));
    let first_failure = pair_failure(gt, primary);
    proof {
        assert(labelled_failures(failures@) =~= failure_entries(skeys, fvals));
    }
    note_failure(&mut failures, &String::from_str(PRIMARY_LABEL), first_failure, Ghost(skeys), Ghost(fvals));
    proof {
        fvals = fvals.push(first_failure);
        skeys = skeys.push(PRIMARY_LABEL@);
        ivals = ivals.push(first.iou);
        avals = avals.push(first.accuracy);
    }
    let ghost fixed = pkeys.len();
    let mut k: usize = 0;
    while k < sources.len()
        invariant
            k <= sources@.len(),
            paths.sources@.len() == sources@.len(),
            masks@.len() == sources@.len(),
            mask_ok(*gt),
            forall|j: int| 0 <= j < masks@.len() ==> mask_ok(#[trigger] masks@[j]),
            labels == source_labels(sources@),
            all == score_values(*gt, *primary, masks@),
            pkeys.len() == pvals.len(),
            pkeys.len() == fixed + k,
            pkeys =~= path_keys(paths.original is Some, labels).take(fixed + k),
            pvals =~= path_values(*paths).take(fixed + k),
            path_map.view() == insert_all(pkeys, pvals),
            skeys.len() == k + 1,
            ivals.len() == k + 1,
            avals.len() == k + 1,
            skeys =~= score_keys(labels).take(k + 1),
            ivals =~= ious(all).take(k + 1),
            avals =~= accuracies(all).take(k + 1),
            iou_map.view() == insert_all(skeys, ivals),
            acc_map.view() == insert_all(skeys, avals),
            fails_all == pair_failures(*gt, *primary, masks@),
            fvals.len() == k + 1,
            fvals =~= fails_all.take(k + 1),
            labelled_failures(failures@) == failure_entries(skeys, fvals),
            fixed == if paths.original is Some { 3int } else { 2int },
        decreases sources@.len() - k,
    {
        let label = &sources[k].label;
        insert_label(&mut path_map, label.clone(), paths.sources[k].clone(), Ghost(pkeys), Ghost(pvals));
        proof {
            pkeys = pkeys.push(label@);
            pvals = pvals.push(paths.sources@[k as int]@);
        }
        let s = score_or_zero(gt, &masks[k]);
        insert_label(&mut iou_map, label.clone(), s.iou, Ghost(skeys), Ghost(ivals));
        insert_label(&mut acc_map, label.clone(), s.accuracy, Ghost(skeys), Ghost(avals));
        let f = pair_failure(gt, &masks[k]);
        note_failure(&mut failures, label, f, Ghost(skeys), Ghost(fvals));
        proof {
            fvals = fvals.push(f);
            skeys = skeys.push(label@);
            ivals = ivals.push(s.iou);
            avals = avals.push(s.accuracy);
        }
        k = k + 1;
    }
    proof {
        assert(pkeys =~= path_keys(paths.original is Some, labels));
        assert(pvals =~= path_values(*paths));
        assert(skeys =~= score_keys(labels));
        assert(ivals =~= ious(all));
        assert(avals =~= accuracies(all));
        assert(fvals =~= fails_all);
    }
    ComparisonResult {
        filename: filename.clone(),
        iou_scores: iou_map,
        accuracy_scores: acc_map,
        paths: path_map,
        failures,
    }
}

/// The paths that `p` must hold for `file` in the given folders.
pub open spec fn paths_for(
    p: FilePaths,
    original: Option<Seq<char>>,
    ground_truth: Seq<char>,
    primary: Seq<char>,
    sources: Seq<ComparisonSource>,
    file: Seq<char>,
) -> bool {
    &&& (p.original is Some <==> original is Some)
    &&& (p.original matches Some(o) ==> o@ == join_path(original->Some_0, file))
    &&& p.ground_truth@ == join_path(ground_truth, file)
    &&& p.primary@ == join_path(primary, file)
    &&& p.sources@.len() == sources.len()
    &&& forall|k: int|
        0 <= k < sources.len() ==> (#[trigger] p.sources@[k])@ == join_path(sources[k].folder@, file)
}

/// The contents of one file in every folder of a batch, as read by the
/// caller (`None` where a file could not be read).
#[derive(Clone, Debug)]
pub struct FileImages {
    pub ground_truth: Option<Vec<u8>>,
    pub primary: Option<Vec<u8>>,
    pub sources: Vec<Option<Vec<u8>>>,
}

/// Percent done, kept exact as `num / den`.
#[derive(Clone, Copy, Debug, PartialEq, Eq, Structural)]
pub struct Percentage {
    pub num: u128,
    pub den: u128,
}

/// One progress notification.
#[derive(Clone, Debug)]
pub struct ProgressEvent {
    pub current: usize,
    pub total: usize,
    pub percentage: Percentage,
    pub label: String,
}

pub struct ProgressView {
    pub current: nat,
    pub total: nat,
    pub percent_num: nat,
    pub percent_den: nat,
    pub label: Seq<char>,
}

impl ProgressEvent {
    pub open spec fn view(&self) -> ProgressView {
        ProgressView {
            current: self.current as nat,
            total: self.total as nat,
            percent_num: self.percentage.num as nat,
            percent_den: self.percentage.den as nat,
            label: self.label@,
        }
    }
}

/// The event announced once `i` of `files` are done: the next file while
/// any is left, then the completion event at one hundred percent.
pub open spec fn progress_at(i: nat, files: Seq<Seq<char>>) -> ProgressView {
    if i < files.len() {
        ProgressView {
            current: i,
            total: files.len(),
            percent_num: 100 * i,
            percent_den: files.len(),
            label: files[i as int],
        }
    } else {
        ProgressView {
            current: files.len(),
            total: files.len(),
            percent_num: 100,
            percent_den: 1,
            label: COMPLETE_LABEL@,
        }
    }
}

/// Every event of a run over `files`, one per state from none done to all
/// done.
pub open spec fn progress_schedule(files: Seq<Seq<char>>) -> Seq<ProgressView> {
    Seq::new(files.len() + 1, |i: int| progress_at(i as nat, files))
}

/// A run over `n` files announces `n + 1` events: one before each file, in
/// order, with `current` never decreasing, then one completion event with
/// `current == total` at one hundred percent.
pub proof fn lemma_progress_schedule(files: Seq<Seq<char>>)
    ensures
        progress_schedule(files).len() == files.len() + 1,
        forall|i: int|
            0 <= i < files.len() ==> (#[trigger] progress_schedule(files)[i]).label == files[i]
                && progress_schedule(files)[i].current == i && progress_schedule(files)[i].total
                == files.len(),
        forall|i: int, j: int|
            0 <= i <= j <= files.len() ==> (#[trigger] progress_schedule(files)[i]).current
                <= (#[trigger] progress_schedule(files)[j]).current,
        progress_schedule(files).last().current == files.len(),
        progress_schedule(files).last().total == files.len(),
        progress_schedule(files).last().percent_num == 100,
        progress_schedule(files).last().percent_den == 1,
        progress_schedule(files).last().label == COMPLETE_LABEL@,
{
}

/// The state of a batch: the folders, the common files, and the records of
/// the files scored so far.
pub struct BatchRun {
    original_folder: Option<String>,
    ground_truth_folder: String,
    primary_folder: String,
    sources: Vec<ComparisonSource>,
    files: Vec<String>,
    results: Vec<ComparisonResult>,
}

impl BatchRun {
    pub closed spec fn original(&self) -> Option<Seq<char>> {
        match self.original_folder {
            Some(o) => Some(o@),
            None => None,
        }
    }

    pub closed spec fn ground_truth(&self) -> Seq<char> {
        self.ground_truth_folder@
    }

    pub closed spec fn primary(&self) -> Seq<char> {
        self.primary_folder@
    }

    pub closed spec fn sources(&self) -> Seq<ComparisonSource> {
        self.sources@
    }

    pub closed spec fn file_names(&self) -> Seq<Seq<char>> {
        self.files@.map_values(|f: String| f@)
    }

    pub closed spec fn results(&self) -> Seq<ComparisonResult> {
        self.results@
    }

    pub open spec fn wf(&self) -> bool {
        self.results().len() <= self.file_names().len()
    }

    /// Starts a batch over `common_files` in the given order.
    pub fn new(
        original_folder: Option<String>,
        ground_truth_folder: String,
        primary_folder: String,
        sources: Vec<ComparisonSource>,
        common_files: Vec<String>,
    ) -> (r: Self)
        ensures
            r.wf(),
            r.original() == (match original_folder {
                Some(o) => Some(o@),
                None => None,
            }),
            r.ground_truth() == ground_truth_folder@,
            r.primary() == primary_folder@,
            r.sources() == sources@,
            r.file_names() == common_files@.map_values(|f: String| f@),
            r.results().len() == 0,
    {
        BatchRun {
            original_folder,
            ground_truth_folder,
            primary_folder,
            sources,
            files: common_files,
            results: Vec::new(),
        }
    }

    /// How many files are scored.
    pub fn completed(&self) -> (r: usize)
        ensures
            r == self.results().len(),
    {
        self.results.len()
    }

    pub fn is_finished(&self) -> (r: bool)
        requires
            self.wf(),
        ensures
            r == (self.results().len() == self.file_names().len()),
    {
        self.results.len() == self.files.len()
    }

    /// The event to announce now: the next file, or completion.
    pub fn progress(&self) -> (r: ProgressEvent)
        requires
            self.wf(),
        ensures
            r.view() == progress_at(self.results().len(), self.file_names()),
            r.view() == progress_schedule(self.file_names())[self.results().len() as int],
    {
        let i = self.results.len();
        let total = self.files.len();
        if i < total {
            ProgressEvent {
                current: i,
                total,
                percentage: Percentage { num: i as u128 * 100, den: total as u128 },
                label: self.files[i].clone(),
            }
        } else {
            let label = String::from_str(COMPLETE_LABEL);
            ProgressEvent {
                current: total,
                total,
                percentage: Percentage { num: 100, den: 1 },
                label,
            }
        }
    }

    /// The files to read for the next common file.
    pub fn pending_paths(&self) -> (r: FilePaths)
        requires
            self.wf(),
            self.results().len() < self.file_names().len(),
        ensures
            paths_for(
                r,
                self.original(),
                self.ground_truth(),
                self.primary(),
                self.sources(),
                self.file_names()[self.results().len() as int],
            ),
    {
        let name = &self.files[self.results.len()];
        let original = match &self.original_folder {
            Some(o) => Some(join(o, name)),
            None => None,
        };
        let mut sources: Vec<String> = Vec::new();
        let mut k: usize = 0;
        while k < self.sources.len()
            invariant
                k <= self.sources@.len(),
                sources@.len() == k,
                forall|j: int|
                    0 <= j < k ==> (#[trigger] sources@[j])@ == join_path(
                        self.sources@[j].folder@,
                        name@,
                    ),
            decreases self.sources@.len() - k,
        {
            sources.push(join(&self.sources[k].folder, name));
            k = k + 1;
        }
        FilePaths {
            original,
            ground_truth: join(&self.ground_truth_folder, name),
            primary: join(&self.primary_folder, name),
            sources,
        }
    }

    /// Scores the next common file from the contents the caller read for
    /// it, and records the result. A file that cannot be read or decoded,
    /// or whose size differs from the ground truth, scores zero.
    pub fn record(&mut self, images: FileImages)
        requires
            old(self).wf(),
            old(self).results().len() < old(self).file_names().len(),
            images.sources@.len() == old(self).sources().len(),
        ensures
            final(self).wf(),
            final(self).original() == old(self).original(),
            final(self).ground_truth() == old(self).ground_truth(),
            final(self).primary() == old(self).primary(),
            final(self).sources() == old(self).sources(),
            final(self).file_names() == old(self).file_names(),
            final(self).results().len() == old(self).results().len() + 1,
            final(self).results().take(old(self).results().len() as int) == old(self).results(),
            exists|
                paths: FilePaths,
                gt: Option<GrayMask>,
                primary: Option<GrayMask>,
                masks: Seq<Option<GrayMask>>,
            |
                {
                    &&& paths_for(
                        paths,
                        old(self).original(),
                        old(self).ground_truth(),
                        old(self).primary(),
                        old(self).sources(),
                        old(self).file_names()[old(self).results().len() as int],
                    )
                    &&& file_mask(gt, paths.ground_truth@, images.ground_truth)
                    &&& file_mask(primary, paths.primary@, images.primary)
                    &&& masks.len() == images.sources@.len()
                    &&& forall|k: int|
                        0 <= k < masks.len() ==> file_mask(
                            #[trigger] masks[k],
                            paths.sources@[k]@,
                            images.sources@[k],
                        )
                    &&& final(self).results()[old(self).results().len() as int].records(
                        old(self).file_names()[old(self).results().len() as int],
                        source_labels(old(self).sources()),
                        paths,
                        gt,
                        primary,
                        masks,
                    )
                },
    {
        let paths = self.pending_paths();
        let gt = decode_file(&paths.ground_truth, &images.ground_truth);
        let primary = decode_file(&paths.primary, &images.primary);
        let mut masks: Vec<Option<GrayMask>> = Vec::new();
        let mut k: usize = 0;
        while k < images.sources.len()
            invariant
                k <= images.sources@.len(),
                masks@.len() == k,
                paths.sources@.len() == images.sources@.len(),
                forall|j: int|
                    0 <= j < k ==> file_mask(#[trigger] masks@[j], paths.sources@[j]@, images.sources@[j]),
            decreases images.sources@.len() - k,
        {
            masks.push(decode_file(&paths.sources[k], &images.sources[k]));
            k = k + 1;
        }
        let i = self.results.len();
        let result = compare_decoded(&self.files[i], &self.sources, &paths, &gt, &primary, &masks);
        proof {
            assert(self.file_names()[i as int] == self.files@[i as int]@);
        }
        self.results.push(result);
        proof {
            assert(self.results@.take(i as int) =~= old(self).results@);
            assert(self.results()[i as int].records(
                old(self).file_names()[i as int],
                source_labels(old(self).sources()),
                paths,
                gt,
                primary,
                masks@,
            ));
            assert(paths_for(
                paths,
                old(self).original(),
                old(self).ground_truth(),
                old(self).primary(),
                old(self).sources(),
                old(self).file_names()[i as int],
            ));
        }
    }

    /// Ends the batch and hands over the records, in the order of the
    /// common files.
    pub fn into_results(self) -> (r: Vec<ComparisonResult>)
        ensures
            r@ == self.results(),
    {
        self.results
    }
}

} // verus!
