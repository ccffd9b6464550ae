use vstd::prelude::*;

use crate::content::{
    file_names, folder_names, index_of_name, FileV, Folder, FolderV, RepositoryContent,
    RepositoryContentV,
};
use crate::error::SummarizeError;
use crate::prompts::{
    file_prompt_text, folder_prompt_text, repository_prompt_text, FileSummaryPrompt,
    FileSummaryResponse, FolderWideSummaryPrompt, FolderWideSummaryResponse,
    RepositorySummaryPrompt, RepositorySummaryResponse,
};
use crate::response::{parse_summary, summary_field};
use crate::strings::{join_space, join_with_space};
use crate::tokens::{eligible, is_eligible, DEFAULT_TOKEN_LIMIT};

verus! {

/// The granularity of one completion request.
#[derive(Debug, Clone, Copy, PartialEq, Eq, Structural)]
pub enum SummaryKind {
    File,
    Folder,
    Repository,
}

/// Mathematical model of one completion request.
pub struct ModelCallV {
    pub kind: SummaryKind,
    pub prompt: Seq<char>,
}

/// One completion request the caller must perform: the prompt to send, and
/// the granularity it summarizes.
#[derive(Debug)]
pub struct ModelCall {
    pub kind: SummaryKind,
    pub prompt: String,
}

impl View for ModelCall {
    type V = ModelCallV;

    open spec fn view(&self) -> ModelCallV {
        ModelCallV { kind: self.kind, prompt: self.prompt@ }
    }
}

/// The file-level request over the given file content.
pub open spec fn spec_file_call(content: Seq<char>) -> ModelCallV {
    ModelCallV { kind: SummaryKind::File, prompt: file_prompt_text(content) }
}

/// The folder-level request over the given context.
pub open spec fn spec_folder_call(context: Seq<char>) -> ModelCallV {
    ModelCallV { kind: SummaryKind::Folder, prompt: folder_prompt_text(context) }
}

/// The repository-level request over the given context.
pub open spec fn spec_repository_call(context: Seq<char>) -> ModelCallV {
    ModelCallV { kind: SummaryKind::Repository, prompt: repository_prompt_text(context) }
}

/// Whether a file passes the token gate at the default limit.
pub open spec fn eligible_file(f: FileV) -> bool {
    eligible(f.content, DEFAULT_TOKEN_LIMIT as nat)
}

/// How many of the first `upto` files pass the token gate.
pub open spec fn eligible_count(files: Seq<FileV>, upto: int) -> nat
    decreases upto,
{
    if upto <= 0 {
        0
    } else {
        eligible_count(files, upto - 1) + if eligible_file(files[upto - 1]) {
            1nat
        } else {
            0nat
        }
    }
}

/// The eligible-file count never shrinks as the prefix grows.
pub proof fn lemma_eligible_count_monotonic(files: Seq<FileV>, a: int, b: int)
    requires
        a <= b,
    ensures
        eligible_count(files, a) <= eligible_count(files, b),
    decreases b - a,
{
    if a < b {
        lemma_eligible_count_monotonic(files, a, b - 1);
    }
}

/// The first position at or after `i` whose file passes the token gate, or
/// the number of files when none does.
pub open spec fn first_eligible_from(files: Seq<FileV>, i: int) -> int
    decreases files.len() - i,
{
    if i < 0 || i >= files.len() {
        files.len() as int
    } else if eligible_file(files[i]) {
        i
    } else {
        first_eligible_from(files, i + 1)
    }
}

/// `first_eligible_from` lands on an eligible file, skips only ineligible
/// ones, and leaves the eligible-file count unchanged over what it skipped.
pub proof fn lemma_first_eligible_from(files: Seq<FileV>, i: int)
    requires
        0 <= i <= files.len(),
    ensures
        ({
            let j = first_eligible_from(files, i);
            &&& i <= j <= files.len()
            &&& j < files.len() ==> eligible_file(files[j])
            &&& forall|k: int| i <= k < j ==> !eligible_file(files[k])
            &&& eligible_count(files, j) == eligible_count(files, i)
        }),
    decreases files.len() - i,
{
    if i < files.len() && !eligible_file(files[i]) {
        lemma_first_eligible_from(files, i + 1);
    }
}

/// The names of the files that fail the token gate, in order.
pub open spec fn oversized_names(files: Seq<FileV>) -> Seq<Seq<char>>
    decreases files.len(),
{
    if files.len() == 0 {
        Seq::empty()
    } else {
        let rest = oversized_names(files.drop_first());
        if eligible_file(files[0]) {
            rest
        } else {
            seq![files[0].name] + rest
        }
    }
}

/// The names of the folder's files whose content is over the token budget:
/// the files a summarization pass skips, which the caller reports as too
/// large before going on.
pub fn oversized_files(folder: &Folder) -> (r: Vec<String>)
    ensures
        r.deep_view() == oversized_names(folder@.files),
{
    let ghost fv = folder@.files;
    let mut r: Vec<String> = Vec::new();
    proof {
        assert(fv.skip(0) =~= fv);
        assert(r.deep_view() =~= Seq::<Seq<char>>::empty());
        assert(r.deep_view() + oversized_names(fv) =~= oversized_names(fv));
    }
    let mut i: usize = 0;
    while i < folder.files.len()
        invariant
            0 <= i <= folder.files.len(),
            fv == folder@.files,
            fv.len() == folder.files.len(),
            r.deep_view() + oversized_names(fv.skip(i as int)) == oversized_names(fv),
        decreases folder.files.len() - i,
    {
        proof {
            assert(fv[i as int] == folder.files@[i as int].deep_view());
            assert(fv.skip(i as int)[0] == fv[i as int]);
            assert(fv.skip(i as int).drop_first() =~= fv.skip(i + 1));
        }
        if !is_eligible(folder.files[i].content.as_str(), DEFAULT_TOKEN_LIMIT) {
            r.push(folder.files[i].name.clone());
        }
        proof {
            assert(r.deep_view() + oversized_names(fv.skip(i + 1)) =~= oversized_names(fv));
        }
        i = i + 1;
    }
    proof {
        assert(fv.skip(folder.files.len() as int) =~= Seq::<FileV>::empty());
        assert(r.deep_view() =~= oversized_names(fv));
    }
    r
}

/// Where a folder pass stands: waiting for a file-level response, waiting
/// for the folder-level response, or finished.
#[derive(Debug, Clone, Copy, PartialEq, Eq, Structural)]
pub enum FolderPhase {
    AwaitFile,
    AwaitFolder,
    Done,
}

/// Mathematical model of a folder pass.
pub struct FolderRunV {
    pub folder: FolderV,
    pub next_file: int,
    pub file_summaries: Seq<Seq<char>>,
    pub phase: FolderPhase,
    pub calls: nat,
}

/// A folder pass in progress: summarizes each eligible file of one folder,
/// then the folder itself over the joined file summaries. The caller performs
/// one completion request at a time and hands the raw response back through
/// `step` until the pass completes.
pub struct FolderRun {
    pub folder: Folder,
    pub next_file: usize,
    pub file_summaries: Vec<String>,
    pub phase: FolderPhase,
    pub calls: Ghost<nat>,
}

impl View for FolderRun {
    type V = FolderRunV;

    open spec fn view(&self) -> FolderRunV {
        FolderRunV {
            folder: self.folder@,
            next_file: self.next_file as int,
            file_summaries: self.file_summaries.deep_view(),
            phase: self.phase,
            calls: self.calls@,
        }
    }
}

impl FolderRunV {
    /// Internal consistency of a folder pass: the cursor is in range and on
    /// an eligible file while files are pending, every eligible file before
    /// the cursor has produced exactly one summary, and the number of
    /// requests made so far is pinned by the progress.
    pub open spec fn wf(self) -> bool {
        let files = self.folder.files;
        &&& 0 <= self.next_file <= files.len()
        &&& match self.phase {
            FolderPhase::AwaitFile => {
                &&& self.next_file < files.len()
                &&& eligible_file(files[self.next_file])
                &&& self.file_summaries.len() == eligible_count(files, self.next_file)
                &&& self.calls == eligible_count(files, self.next_file) + 1
            },
            FolderPhase::AwaitFolder => {
                &&& self.next_file == files.len()
                &&& self.file_summaries.len() == eligible_count(files, files.len() as int)
                &&& self.calls == eligible_count(files, files.len() as int) + 1
            },
            FolderPhase::Done => {
                &&& self.next_file == files.len()
                &&& self.file_summaries.len() == eligible_count(files, files.len() as int)
                &&& self.calls == eligible_count(files, files.len() as int) + 1
            },
        }
    }
}

/// Mathematical model of what one folder-pass step hands back.
pub enum FolderStepV {
    Next { file_name: Seq<char>, file_summary: Seq<char>, call: ModelCallV },
    Complete { folder_name: Seq<char>, folder_summary: Seq<char>, file_summaries: Seq<Seq<char>> },
}

/// What one folder-pass step hands back: either the summary of the file just
/// completed together with the next request to perform, or, once the
/// folder-level response is in, the folder's summary with the retained file
/// summaries.
#[derive(Debug)]
pub enum FolderStep {
    Next { file_name: String, file_summary: FileSummaryResponse, call: ModelCall },
    Complete {
        folder_name: String,
        folder_summary: FolderWideSummaryResponse,
        file_summaries: Vec<FileSummaryResponse>,
    },
}

impl View for FolderStep {
    type V = FolderStepV;

    open spec fn view(&self) -> FolderStepV {
        match self {
            FolderStep::Next { file_name, file_summary, call } => (FolderStepV::Next {
                file_name: file_name@,
                file_summary: file_summary.summary@,
                call: call@,
            }),
            FolderStep::Complete { folder_name, folder_summary, file_summaries } => (
            FolderStepV::Complete {
                folder_name: folder_name@,
                folder_summary: folder_summary.summary@,
                file_summaries: file_summaries.deep_view(),
            }),
        }
    }
}

/// Opening a folder pass: the cursor moves to the first eligible file and its
/// file-level request goes out; when no file is eligible the folder-level
/// request goes out at once, over the empty context.
pub open spec fn spec_folder_start(folder: FolderV) -> (FolderRunV, ModelCallV) {
    let j = first_eligible_from(folder.files, 0);
    if j < folder.files.len() {
        (
            FolderRunV {
                folder,
                next_file: j,
                file_summaries: Seq::empty(),
                phase: FolderPhase::AwaitFile,
                calls: 1,
            },
            spec_file_call(folder.files[j].content),
        )
    } else {
        (
            FolderRunV {
                folder,
                next_file: folder.files.len() as int,
                file_summaries: Seq::empty(),
                phase: FolderPhase::AwaitFolder,
                calls: 1,
            },
            spec_folder_call(join_space(Seq::empty())),
        )
    }
}

/// One step of a folder pass, on the raw response to the outstanding
/// request. A response that fails the schema stops the pass with the raw
/// text; otherwise the summary is retained and either the next file-level
/// request, the folder-level request over the joined summaries, or the
/// completed folder summary comes back.
pub open spec fn spec_folder_step(r: FolderRunV, raw: Seq<char>) -> Result<
    (FolderRunV, FolderStepV),
    Seq<char>,
> {
    match summary_field(raw) {
        Option::None => Err(raw),
        Option::Some(s) => match r.phase {
            FolderPhase::AwaitFile => {
                let sums = r.file_summaries.push(s);
                let j = first_eligible_from(r.folder.files, r.next_file + 1);
                if j < r.folder.files.len() {
                    Ok(
                        (
                            FolderRunV { next_file: j, file_summaries: sums, calls: r.calls + 1, ..r },
                            FolderStepV::Next {
                                file_name: r.folder.files[r.next_file].name,
                                file_summary: s,
                                call: spec_file_call(r.folder.files[j].content),
                            },
                        ),
                    )
                } else {
                    Ok(
                        (
                            FolderRunV {
                                next_file: r.folder.files.len() as int,
                                file_summaries: sums,
                                phase: FolderPhase::AwaitFolder,
                                calls: r.calls + 1,
                                ..r
                            },
                            FolderStepV::Next {
                                file_name: r.folder.files[r.next_file].name,
                                file_summary: s,
                                call: spec_folder_call(join_space(sums)),
                            },
                        ),
                    )
                }
            },
            FolderPhase::AwaitFolder => Ok(
                (
                    FolderRunV { phase: FolderPhase::Done, ..r },
                    FolderStepV::Complete {
                        folder_name: r.folder.name,
                        folder_summary: s,
                        file_summaries: r.file_summaries,
                    },
                ),
            ),
            FolderPhase::Done => Err(raw),
        },
    }
}

/// A step on a schema-abiding response keeps the pass well formed.
pub proof fn lemma_folder_step_preserves_wf(r: FolderRunV, raw: Seq<char>)
    requires
        r.wf(),
        r.phase != FolderPhase::Done,
    ensures
        spec_folder_step(r, raw) matches Ok(p) ==> p.0.wf(),
{
    if summary_field(raw) is Some && r.phase == FolderPhase::AwaitFile {
        let files = r.folder.files;
        lemma_first_eligible_from(files, r.next_file + 1);
    }
}

/// Wraps retained file summaries in their response records.
fn wrap_file_summaries(summaries: &Vec<String>) -> (r: Vec<FileSummaryResponse>)
    ensures
        r.deep_view() == summaries.deep_view(),
{
    let mut r: Vec<FileSummaryResponse> = Vec::new();
    let mut k: usize = 0;
    while k < summaries.len()
        invariant
            0 <= k <= summaries.len(),
            r@.len() == k,
            forall|i: int| 0 <= i < k ==> r.deep_view()[i] == summaries.deep_view()[i],
        decreases summaries.len() - k,
    {
        r.push(FileSummaryResponse { summary: summaries[k].clone() });
        k = k + 1;
    }
    proof {
        assert(r.deep_view() =~= summaries.deep_view());
    }
    r
}

/// The position of the first file at or after `from` that passes the token
/// gate, or the number of files when none does.
fn next_eligible(folder: &Folder, from: usize) -> (r: usize)
    requires
        from <= folder@.files.len(),
    ensures
        r as int == first_eligible_from(folder@.files, from as int),
        from <= r <= folder@.files.len(),
{
    let ghost files = folder@.files;
    let n = folder.files.len();
    let mut j: usize = from;
    while j < n
        invariant
            from <= j <= n,
            files == folder@.files,
            n == files.len(),
            forall|k: int| from <= k < j ==> !eligible_file(files[k]),
        decreases n - j,
    {
        if is_eligible(folder.files[j].content.as_str(), DEFAULT_TOKEN_LIMIT) {
            proof {
                assert(eligible_file(files[j as int]));
                lemma_first_eligible_from(files, from as int);
                let j0 = first_eligible_from(files, from as int);
                if j0 < j {
                    assert(!eligible_file(files[j0]));
                }
                if j0 > j {
                    assert(!eligible_file(files[j as int]));
                }
            }
            return j;
        }
        j = j + 1;
    }
    proof {
        lemma_first_eligible_from(files, from as int);
        let j0 = first_eligible_from(files, from as int);
        if j0 < files.len() {
            assert(!eligible_file(files[j0]));
        }
    }
    n
}

impl FolderRun {
    /// Opens a pass over `folder` and hands out the first request: the
    /// file-level call of the first eligible file, or, when no file passes
    /// the token gate, the folder-level call over the empty context.
    pub fn start(folder: Folder) -> (r: (FolderRun, ModelCall))
        ensures
            (r.0@, r.1@) == spec_folder_start(folder@),
            r.0@.wf(),
    {
        let ghost fv = folder@;
        proof {
            lemma_first_eligible_from(fv.files, 0);
        }
        let j = next_eligible(&folder, 0);
        if j < folder.files.len() {
            let prompt = FileSummaryPrompt::new(folder.files[j].content.as_str());
            let call = ModelCall { kind: SummaryKind::File, prompt: prompt.prompt };
            let run = FolderRun {
                folder,
                next_file: j,
                file_summaries: Vec::new(),
                phase: FolderPhase::AwaitFile,
                calls: Ghost(1),
            };
            proof {
                assert(run@.file_summaries =~= Seq::<Seq<char>>::empty());
                assert(run@ == spec_folder_start(fv).0);
                assert(call@ == spec_folder_start(fv).1);
            }
            (run, call)
        } else {
            let n = folder.files.len();
            let prompt = FolderWideSummaryPrompt::new("");
            let call = ModelCall { kind: SummaryKind::Folder, prompt: prompt.prompt };
            let run = FolderRun {
                folder,
                next_file: n,
                file_summaries: Vec::new(),
                phase: FolderPhase::AwaitFolder,
                calls: Ghost(1),
            };
            proof {
                reveal_strlit("");
                assert(""@ =~= Seq::<char>::empty());
                assert(join_space(Seq::<Seq<char>>::empty()) =~= Seq::<char>::empty());
                assert(run@.file_summaries =~= Seq::<Seq<char>>::empty());
                assert(run@ == spec_folder_start(fv).0);
                assert(call@ == spec_folder_start(fv).1);
            }
            (run, call)
        }
    }

    /// Whether the pass still has an outstanding request.
    pub fn in_progress(&self) -> (r: bool)
        ensures
            r == (self@.phase != FolderPhase::Done),
    {
        match self.phase {
            FolderPhase::Done => false,
            _ => true,
        }
    }

    /// Consumes the raw response to the outstanding request and moves the
    /// pass forward, handing out the next request or the completed folder
    /// summary. A response that fails the `{ "summary": string }` schema
    /// stops the pass and is kept in the error, and the pass is unchanged.
    pub fn step(&mut self, raw: &str) -> (r: Result<FolderStep, SummarizeError>)
        requires
            old(self)@.wf(),
            old(self)@.phase != FolderPhase::Done,
        ensures
            ({
                match r {
                    Ok(step) => spec_folder_step(old(self)@, raw@) == Ok::<_, Seq<char>>(
                        (final(self)@, step@),
                    ) && final(self)@.wf(),
                    Err(e) => spec_folder_step(old(self)@, raw@) == Err::<
                        (FolderRunV, FolderStepV),
                        _,
                    >(raw@) && final(self)@ == old(self)@ && (e matches
                        SummarizeError::InvalidResponse { raw: kept, .. } && kept@ == raw@),
                }
            }),
    {
        proof {
            lemma_folder_step_preserves_wf(old(self)@, raw@);
        }
        let summary = match parse_summary(raw) {
            Ok(s) => s,
            Err(e) => {
                return Err(e);
            },
        };
        let ghost pre = self@;
        match self.phase {
            FolderPhase::AwaitFile => {
                let file_name = self.folder.files[self.next_file].name.clone();
                let file_summary = FileSummaryResponse { summary: summary.clone() };
                self.file_summaries.push(summary);
                let ghost sums = pre.file_summaries.push(summary_field(raw@)->0);
                proof {
                    assert(self@.file_summaries =~= sums);
                }
                let n = self.folder.files.len();
                proof {
                    assert(self.next_file < n);
                }
                let from = self.next_file + 1;
                let j = next_eligible(&self.folder, from);
                if j < self.folder.files.len() {
                    let prompt = FileSummaryPrompt::new(self.folder.files[j].content.as_str());
                    let call = ModelCall { kind: SummaryKind::File, prompt: prompt.prompt };
                    self.next_file = j;
                    proof {
                        self.calls@ = pre.calls + 1;
                    }
                    let step = FolderStep::Next { file_name, file_summary, call };
                    proof {
                        assert(self@ == spec_folder_step(pre, raw@)->Ok_0.0);
                        assert(step@ == spec_folder_step(pre, raw@)->Ok_0.1);
                    }
                    Ok(step)
                } else {
                    let context = join_with_space(&self.file_summaries);
                    let prompt = FolderWideSummaryPrompt::new(context.as_str());
                    let call = ModelCall { kind: SummaryKind::Folder, prompt: prompt.prompt };
                    self.next_file = self.folder.files.len();
                    self.phase = FolderPhase::AwaitFolder;
                    proof {
                        self.calls@ = pre.calls + 1;
                    }
                    let step = FolderStep::Next { file_name, file_summary, call };
                    proof {
                        assert(self@ == spec_folder_step(pre, raw@)->Ok_0.0);
                        assert(step@ == spec_folder_step(pre, raw@)->Ok_0.1);
                    }
                    Ok(step)
                }
            },
            FolderPhase::AwaitFolder => {
                let file_summaries = wrap_file_summaries(&self.file_summaries);
                self.phase = FolderPhase::Done;
                let step = FolderStep::Complete {
                    folder_name: self.folder.name.clone(),
                    folder_summary: FolderWideSummaryResponse { summary },
                    file_summaries,
                };
                proof {
                    assert(self@ == spec_folder_step(pre, raw@)->Ok_0.0);
                    assert(step@ == spec_folder_step(pre, raw@)->Ok_0.1);
                }
                Ok(step)
            },
            FolderPhase::Done => {
                proof {
                    assert(false);
                }
                Err(SummarizeError::FolderNotFound)
            },
        }
    }
}

/// Law: the pipeline is deterministic. Equal folder-pass states fed equal
/// responses step to equal states and hand back equal requests and results,
/// so running the same pass twice over the same responses gives identical
/// output and identical requests.
pub proof fn lemma_folder_step_deterministic(
    a: FolderRunV,
    b: FolderRunV,
    raw_a: Seq<char>,
    raw_b: Seq<char>,
)
    requires
        a == b,
        raw_a == raw_b,
    ensures
        spec_folder_step(a, raw_a) == spec_folder_step(b, raw_b),
{
}

/// Law: a completed folder pass issued exactly one completion request per
/// eligible file of the folder, plus exactly one folder-level request —
/// ineligible files cost no request, and every folder is summarized exactly
/// once per pass.
pub proof fn lemma_folder_run_call_count(r: FolderRunV)
    requires
        r.wf(),
        r.phase == FolderPhase::Done,
    ensures
        r.calls == eligible_count(r.folder.files, r.folder.files.len() as int) + 1,
{
}

/// Opening a folder pass establishes its consistency: the pass owns the
/// folder, one request is out, and the pass is not finished.
pub proof fn lemma_folder_start_wf(folder: FolderV)
    ensures
        ({
            let (run, call) = spec_folder_start(folder);
            &&& run.wf()
            &&& run.folder == folder
            &&& run.calls == 1
            &&& run.phase != FolderPhase::Done
        }),
{
    lemma_first_eligible_from(folder.files, 0);
}

/// Law: a folder with no eligible files is still summarized. Its pass opens
/// with the folder-level request itself, over the empty context, and any
/// schema-abiding response completes the pass after that single request.
pub proof fn lemma_folder_without_eligible_files(folder: FolderV, raw: Seq<char>)
    requires
        eligible_count(folder.files, folder.files.len() as int) == 0,
    ensures
        ({
            let (run, call) = spec_folder_start(folder);
            &&& call.kind == SummaryKind::Folder
            &&& call.prompt == folder_prompt_text(Seq::<char>::empty())
            &&& run.wf()
            &&& summary_field(raw) is Some ==> (spec_folder_step(run, raw) matches Ok(p)
                && p.0.phase == FolderPhase::Done && p.0.calls == 1)
        }),
{
    lemma_first_eligible_from(folder.files, 0);
    let j = first_eligible_from(folder.files, 0);
    if j < folder.files.len() {
        lemma_eligible_count_monotonic(folder.files, j + 1, folder.files.len() as int);
    }
    assert(join_space(Seq::<Seq<char>>::empty()) =~= Seq::<char>::empty());
}

/// Where a full-repository run stands: inside some folder's pass, waiting
/// for the repository-level response, or finished.
#[derive(Debug, Clone, Copy, PartialEq, Eq, Structural)]
pub enum RepoPhase {
    InFolder,
    AwaitRepository,
    Done,
}

/// How many completion requests the first `upto` folders cost in a full
/// run: one per eligible file of each, plus one folder-level request each.
pub open spec fn total_calls(folders: Seq<FolderV>, upto: int) -> nat
    decreases upto,
{
    if upto <= 0 {
        0
    } else {
        total_calls(folders, upto - 1) + eligible_count(
            folders[upto - 1].files,
            folders[upto - 1].files.len() as int,
        ) + 1
    }
}

/// Mathematical model of a full-repository run.
pub struct RepoRunV {
    pub all: Seq<FolderV>,
    pub fi: int,
    pub remaining: Seq<FolderV>,
    pub inner: FolderRunV,
    pub folder_summaries: Seq<Seq<char>>,
    pub phase: RepoPhase,
    pub calls: nat,
}

/// A full-repository run in progress: every folder is passed bottom-up in
/// discovery order, each folder's summary is retained, and one final
/// repository-level request is made over the joined folder summaries —
/// joined after the empty leading element the accumulator starts with.
pub struct RepoRun {
    pub all: Ghost<Seq<FolderV>>,
    pub fi: Ghost<int>,
    pub remaining: Vec<Folder>,
    pub inner: FolderRun,
    pub folder_summaries: Vec<String>,
    pub phase: RepoPhase,
    pub calls: Ghost<nat>,
}

impl View for RepoRun {
    type V = RepoRunV;

    open spec fn view(&self) -> RepoRunV {
        RepoRunV {
            all: self.all@,
            fi: self.fi@,
            remaining: self.remaining.deep_view(),
            inner: self.inner@,
            folder_summaries: self.folder_summaries.deep_view(),
            phase: self.phase,
            calls: self.calls@,
        }
    }
}

impl RepoRunV {
    /// Internal consistency of a full-repository run: the folders not yet
    /// begun are exactly those after the current one, the current folder's
    /// pass is consistent and owns that folder, the summary accumulator
    /// holds its empty leading element plus one summary per completed
    /// folder, and the number of requests made so far is pinned by the
    /// progress.
    pub open spec fn wf(self) -> bool {
        &&& self.all.len() > 0
        &&& self.folder_summaries.len() > 0
        &&& self.folder_summaries[0] == Seq::<char>::empty()
        &&& match self.phase {
            RepoPhase::InFolder => {
                &&& 0 <= self.fi < self.all.len()
                &&& self.remaining == self.all.skip(self.fi + 1)
                &&& self.inner.folder == self.all[self.fi]
                &&& self.inner.wf()
                &&& self.inner.phase != FolderPhase::Done
                &&& self.folder_summaries.len() == self.fi + 1
                &&& self.calls == total_calls(self.all, self.fi) + self.inner.calls
            },
            RepoPhase::AwaitRepository => {
                &&& self.fi == self.all.len()
                &&& self.remaining.len() == 0
                &&& self.folder_summaries.len() == self.all.len() + 1
                &&& self.calls == total_calls(self.all, self.all.len() as int) + 1
            },
            RepoPhase::Done => {
                &&& self.fi == self.all.len()
                &&& self.remaining.len() == 0
                &&& self.folder_summaries.len() == self.all.len() + 1
                &&& self.calls == total_calls(self.all, self.all.len() as int) + 1
            },
        }
    }
}

/// Mathematical model of what one full-run step hands back.
pub enum RepoStepV {
    Next { file_name: Seq<char>, file_summary: Seq<char>, call: ModelCallV },
    FolderDone {
        folder_name: Seq<char>,
        folder_summary: Seq<char>,
        file_summaries: Seq<Seq<char>>,
        call: ModelCallV,
    },
    Finished { summary: Seq<char> },
}

/// What one full-run step hands back: the summary of the file just
/// completed with the next request; or a completed folder's summary with the
/// next request (the next folder's first call, or the repository-level
/// call); or the final repository summary.
#[derive(Debug)]
pub enum RepoStep {
    Next { file_name: String, file_summary: FileSummaryResponse, call: ModelCall },
    FolderDone {
        folder_name: String,
        folder_summary: FolderWideSummaryResponse,
        file_summaries: Vec<FileSummaryResponse>,
        call: ModelCall,
    },
    Finished { summary: RepositorySummaryResponse },
}

impl View for RepoStep {
    type V = RepoStepV;

    open spec fn view(&self) -> RepoStepV {
        match self {
            RepoStep::Next { file_name, file_summary, call } => (RepoStepV::Next {
                file_name: file_name@,
                file_summary: file_summary.summary@,
                call: call@,
            }),
            RepoStep::FolderDone { folder_name, folder_summary, file_summaries, call } => (
            RepoStepV::FolderDone {
                folder_name: folder_name@,
                folder_summary: folder_summary.summary@,
                file_summaries: file_summaries.deep_view(),
                call: call@,
            }),
            RepoStep::Finished { summary } => (RepoStepV::Finished { summary: summary.summary@ }),
        }
    }
}

/// Opening a full-repository run: the first folder's pass opens, and the
/// summary accumulator starts with its single empty element.
pub open spec fn spec_repo_start(content: RepositoryContentV) -> (RepoRunV, ModelCallV)
    recommends
        content.folders.len() > 0,
{
    let (inner, call) = spec_folder_start(content.folders[0]);
    (
        RepoRunV {
            all: content.folders,
            fi: 0,
            remaining: content.folders.drop_first(),
            inner,
            folder_summaries: seq![Seq::<char>::empty()],
            phase: RepoPhase::InFolder,
            calls: 1,
        },
        call,
    )
}

/// One step of a full-repository run, on the raw response to the
/// outstanding request. The current folder's pass advances; when it
/// completes, its summary joins the accumulator and either the next
/// folder's pass opens or the repository-level request goes out; the
/// repository-level response finishes the run.
pub open spec fn spec_repo_step(r: RepoRunV, raw: Seq<char>) -> Result<
    (RepoRunV, RepoStepV),
    Seq<char>,
> {
    match r.phase {
        RepoPhase::InFolder => match spec_folder_step(r.inner, raw) {
            Err(t) => Err(t),
            Ok(p) => match p.1 {
                FolderStepV::Next { file_name, file_summary, call } => Ok(
                    (
                        RepoRunV { inner: p.0, calls: r.calls + 1, ..r },
                        RepoStepV::Next { file_name, file_summary, call },
                    ),
                ),
                FolderStepV::Complete { folder_name, folder_summary, file_summaries } => {
                    let sums = r.folder_summaries.push(folder_summary);
                    if r.fi + 1 < r.all.len() {
                        let (inner3, call) = spec_folder_start(r.remaining[0]);
                        Ok(
                            (
                                RepoRunV {
                                    fi: r.fi + 1,
                                    remaining: r.remaining.drop_first(),
                                    inner: inner3,
                                    folder_summaries: sums,
                                    calls: r.calls + 1,
                                    ..r
                                },
                                RepoStepV::FolderDone {
                                    folder_name,
                                    folder_summary,
                                    file_summaries,
                                    call,
                                },
                            ),
                        )
                    } else {
                        let call = spec_repository_call(join_space(sums));
                        Ok(
                            (
                                RepoRunV {
                                    fi: r.fi + 1,
                                    inner: p.0,
                                    folder_summaries: sums,
                                    phase: RepoPhase::AwaitRepository,
                                    calls: r.calls + 1,
                                    ..r
                                },
                                RepoStepV::FolderDone {
                                    folder_name,
                                    folder_summary,
                                    file_summaries,
                                    call,
                                },
                            ),
                        )
                    }
                },
            },
        },
        RepoPhase::AwaitRepository => match summary_field(raw) {
            Option::None => Err(raw),
            Option::Some(s) => Ok(
                (RepoRunV { phase: RepoPhase::Done, ..r }, RepoStepV::Finished { summary: s }),
            ),
        },
        RepoPhase::Done => Err(raw),
    }
}

/// A step on a schema-abiding response keeps the run well formed.
pub proof fn lemma_repo_step_preserves_wf(r: RepoRunV, raw: Seq<char>)
    requires
        r.wf(),
        r.phase != RepoPhase::Done,
    ensures
        spec_repo_step(r, raw) matches Ok(p) ==> p.0.wf(),
{
    if r.phase == RepoPhase::InFolder {
        lemma_folder_step_preserves_wf(r.inner, raw);
        match spec_folder_step(r.inner, raw) {
            Ok(p) => match p.1 {
                FolderStepV::Next { .. } => {
                },
                FolderStepV::Complete { folder_summary, .. } => {
                    let sums = r.folder_summaries.push(folder_summary);
                    assert(sums[0] == r.folder_summaries[0]);
                    if r.fi + 1 < r.all.len() {
                        assert(r.remaining[0] == r.all[r.fi + 1]);
                        lemma_folder_start_wf(r.remaining[0]);
                        assert(r.remaining.drop_first() =~= r.all.skip(r.fi + 2));
                    } else {
                        assert(r.remaining.len() == 0);
                    }
                },
            },
            Err(_) => {
            },
        }
    }
}

impl RepoRun {
    /// Whether the run still has an outstanding request.
    pub fn in_progress(&self) -> (r: bool)
        ensures
            r == (self@.phase != RepoPhase::Done),
    {
        match self.phase {
            RepoPhase::Done => false,
            _ => true,
        }
    }

    /// Consumes the raw response to the outstanding request and moves the
    /// run forward, handing out the next request, a completed folder's
    /// summary with the next request, or the final repository summary. A
    /// response that fails the `{ "summary": string }` schema stops the run
    /// and is kept in the error, and the run is unchanged.
    pub fn step(&mut self, raw: &str) -> (r: Result<RepoStep, SummarizeError>)
        requires
            old(self)@.wf(),
            old(self)@.phase != RepoPhase::Done,
        ensures
            ({
                match r {
                    Ok(step) => spec_repo_step(old(self)@, raw@) == Ok::<_, Seq<char>>(
                        (final(self)@, step@),
                    ) && final(self)@.wf(),
                    Err(e) => spec_repo_step(old(self)@, raw@) == Err::<
                        (RepoRunV, RepoStepV),
                        _,
                    >(raw@) && final(self)@ == old(self)@ && (e matches
                        SummarizeError::InvalidResponse { raw: kept, .. } && kept@ == raw@),
                }
            }),
    {
        proof {
            lemma_repo_step_preserves_wf(old(self)@, raw@);
        }
        let ghost pre = self@;
        match self.phase {
            RepoPhase::InFolder => {
                let step = match self.inner.step(raw) {
                    Ok(s) => s,
                    Err(e) => {
                        return Err(e);
                    },
                };
                match step {
                    FolderStep::Next { file_name, file_summary, call } => {
                        proof {
                            self.calls@ = pre.calls + 1;
                        }
                        let out = RepoStep::Next { file_name, file_summary, call };
                        proof {
                            assert(self@ == spec_repo_step(pre, raw@)->Ok_0.0);
                            assert(out@ == spec_repo_step(pre, raw@)->Ok_0.1);
                        }
                        Ok(out)
                    },
                    FolderStep::Complete { folder_name, folder_summary, file_summaries } => {
                        let text = folder_summary.summary.clone();
                        self.folder_summaries.push(text);
                        let ghost sums = pre.folder_summaries.push(
                            folder_summary.summary@,
                        );
                        proof {
                            assert(self@.folder_summaries =~= sums);
                        }
                        if self.remaining.len() > 0 {
                            let f = self.remaining.remove(0);
                            proof {
                                assert(f@ == pre.remaining[0]);
                                assert(self@.remaining =~= pre.remaining.drop_first());
                            }
                            let (inner3, call) = FolderRun::start(f);
                            self.inner = inner3;
                            proof {
                                self.fi@ = pre.fi + 1;
                                self.calls@ = pre.calls + 1;
                            }
                            let out = RepoStep::FolderDone {
                                folder_name,
                                folder_summary,
                                file_summaries,
                                call,
                            };
                            proof {
                                assert(self@ == spec_repo_step(pre, raw@)->Ok_0.0);
                                assert(out@ == spec_repo_step(pre, raw@)->Ok_0.1);
                            }
                            Ok(out)
                        } else {
                            let context = join_with_space(&self.folder_summaries);
                            let prompt = RepositorySummaryPrompt::new(context.as_str());
                            let call = ModelCall {
                                kind: SummaryKind::Repository,
                                prompt: prompt.prompt,
                            };
                            self.phase = RepoPhase::AwaitRepository;
                            proof {
                                self.fi@ = pre.fi + 1;
                                self.calls@ = pre.calls + 1;
                            }
                            let out = RepoStep::FolderDone {
                                folder_name,
                                folder_summary,
                                file_summaries,
                                call,
                            };
                            proof {
                                assert(pre.fi + 1 == pre.all.len());
                                assert(self@ == spec_repo_step(pre, raw@)->Ok_0.0);
                                assert(out@ == spec_repo_step(pre, raw@)->Ok_0.1);
                            }
                            Ok(out)
                        }
                    },
                }
            },
            RepoPhase::AwaitRepository => {
                match parse_summary(raw) {
                    Err(e) => Err(e),
                    Ok(s) => {
                        self.phase = RepoPhase::Done;
                        let out = RepoStep::Finished {
                            summary: RepositorySummaryResponse { summary: s },
                        };
                        proof {
                            assert(self@ == spec_repo_step(pre, raw@)->Ok_0.0);
                            assert(out@ == spec_repo_step(pre, raw@)->Ok_0.1);
                        }
                        Ok(out)
                    },
                }
            },
            RepoPhase::Done => {
                proof {
                    assert(false);
                }
                Err(SummarizeError::NoFolders)
            },
        }
    }
}

/// Law: the pipeline is deterministic at the repository level too: equal
/// run states fed equal responses step to equal states, requests and
/// results.
pub proof fn lemma_repo_step_deterministic(
    a: RepoRunV,
    b: RepoRunV,
    raw_a: Seq<char>,
    raw_b: Seq<char>,
)
    requires
        a == b,
        raw_a == raw_b,
    ensures
        spec_repo_step(a, raw_a) == spec_repo_step(b, raw_b),
{
}

/// How many files of the first `upto` folders pass the token gate.
pub open spec fn total_eligible(folders: Seq<FolderV>, upto: int) -> nat
    decreases upto,
{
    if upto <= 0 {
        0
    } else {
        total_eligible(folders, upto - 1) + eligible_count(
            folders[upto - 1].files,
            folders[upto - 1].files.len() as int,
        )
    }
}

/// The request count of a run's folder passes splits into one request per
/// eligible file plus one folder-level request per folder.
pub proof fn lemma_total_calls_split(folders: Seq<FolderV>, upto: int)
    requires
        0 <= upto,
    ensures
        total_calls(folders, upto) == total_eligible(folders, upto) + upto,
    decreases upto,
{
    if upto > 0 {
        lemma_total_calls_split(folders, upto - 1);
    }
}

/// Law: a finished full-repository run issued exactly one completion
/// request per eligible file, one per folder — eligible files or not — and
/// one for the repository itself.
pub proof fn lemma_repository_run_call_count(r: RepoRunV)
    requires
        r.wf(),
        r.phase == RepoPhase::Done,
    ensures
        r.calls == total_calls(r.all, r.all.len() as int) + 1,
        r.calls == total_eligible(r.all, r.all.len() as int) + r.all.len() + 1,
{
    lemma_total_calls_split(r.all, r.all.len() as int);
}

/// Mathematical model of a configured run.
pub struct GitV {
    pub git_key: Seq<char>,
    pub branch: Seq<char>,
    pub open_ai_key: Seq<char>,
    pub repository_username: Seq<char>,
    pub repository_name: Seq<char>,
    pub repository_content: RepositoryContentV,
}

/// A configured run: the repository's identity and branch, the credentials,
/// and the loaded content.
#[derive(Debug)]
pub struct Git {
    pub git_key: String,
    pub branch: String,
    pub open_ai_key: String,
    pub repository_username: String,
    pub repository_name: String,
    pub repository_content: RepositoryContent,
}

impl View for Git {
    type V = GitV;

    open spec fn view(&self) -> GitV {
        GitV {
            git_key: self.git_key@,
            branch: self.branch@,
            open_ai_key: self.open_ai_key@,
            repository_username: self.repository_username@,
            repository_name: self.repository_name@,
            repository_content: self.repository_content@,
        }
    }
}

impl Git {
    /// Builds a run configuration over an empty content model; the loader
    /// fills the model afterwards.
    pub fn new(git_key: &str, open_ai_key: &str, username: &str, repo: &str, branch: &str) -> (g:
        Git)
        ensures
            g@.git_key == git_key@,
            g@.open_ai_key == open_ai_key@,
            g@.branch == branch@,
            g@.repository_username == username@,
            g@.repository_name == repo@,
            g@.repository_content.folders == Seq::<FolderV>::empty(),
            g@.repository_content.readme == Seq::<char>::empty(),
    {
        Git {
            git_key: git_key.to_owned(),
            open_ai_key: open_ai_key.to_owned(),
            branch: branch.to_owned(),
            repository_username: username.to_owned(),
            repository_name: repo.to_owned(),
            repository_content: RepositoryContent::default(),
        }
    }

    /// Validates the run's configuration and opens the full-repository
    /// pass. The repository identity and the model credential must be
    /// non-empty, and the loaded model must hold at least one folder —
    /// checked in that order, before any completion request is prepared.
    pub fn start_repository_run(self) -> (r: Result<(RepoRun, ModelCall), SummarizeError>)
        ensures
            ({
                let c = self@.repository_content;
                if self@.repository_username.len() == 0 {
                    r matches Err(e) && e == SummarizeError::MissingUsername
                } else if self@.repository_name.len() == 0 {
                    r matches Err(e) && e == SummarizeError::MissingRepoName
                } else if self@.open_ai_key.len() == 0 {
                    r matches Err(e) && e == SummarizeError::MissingKey
                } else if c.folders.len() == 0 {
                    r matches Err(e) && e == SummarizeError::NoFolders
                } else {
                    r matches Ok(p) && (p.0@, p.1@) == spec_repo_start(c) && p.0@.wf()
                }
            }),
    {
        let ghost g = self@;
        if self.repository_username.as_str().is_empty() {
            return Err(SummarizeError::MissingUsername);
        }
        if self.repository_name.as_str().is_empty() {
            return Err(SummarizeError::MissingRepoName);
        }
        if self.open_ai_key.as_str().is_empty() {
            return Err(SummarizeError::MissingKey);
        }
        let mut folders = self.repository_content.folders;
        if folders.len() == 0 {
            return Err(SummarizeError::NoFolders);
        }
        let ghost all = g.repository_content.folders;
        let first = folders.remove(0);
        proof {
            assert(first@ == all[0]);
            assert(folders.deep_view() =~= all.drop_first());
            lemma_folder_start_wf(all[0]);
        }
        let (inner, call) = FolderRun::start(first);
        let mut folder_summaries: Vec<String> = Vec::new();
        folder_summaries.push(String::new());
        let run = RepoRun {
            all: Ghost(all),
            fi: Ghost(0),
            remaining: folders,
            inner,
            folder_summaries,
            phase: RepoPhase::InFolder,
            calls: Ghost(1),
        };
        proof {
            assert(run@.folder_summaries =~= seq![Seq::<char>::empty()]);
            assert(run@ == spec_repo_start(g.repository_content).0);
            assert(call@ == spec_repo_start(g.repository_content).1);
            assert(run@.wf());
        }
        Ok((run, call))
    }

    /// Opens a pass over one named folder, as when that folder alone is to
    /// be summarized. Fails when the model holds no folders at all, or no
    /// folder of that name.
    pub fn start_folder_run(self, folder: &str) -> (r: Result<
        (FolderRun, ModelCall),
        SummarizeError,
    >)
        ensures
            ({
                let folders = self@.repository_content.folders;
                let i = index_of_name(folder_names(folders), folder@);
                if folders.len() == 0 {
                    r matches Err(e) && e == SummarizeError::NoFolders
                } else if i == -1 {
                    r matches Err(e) && e == SummarizeError::FolderNotFound
                } else {
                    r matches Ok(p) && (p.0@, p.1@) == spec_folder_start(folders[i]) && p.0@.wf()
                }
            }),
    {
        if self.repository_content.folders.len() == 0 {
            return Err(SummarizeError::NoFolders);
        }
        let position = self.repository_content.folder_position(folder);
        match position {
            None => Err(SummarizeError::FolderNotFound),
            Some(k) => {
                let ghost folders = self@.repository_content.folders;
                let mut content = self.repository_content;
                let f = content.folders.remove(k);
                proof {
                    assert(f@ == folders[k as int]);
                }
                Ok(FolderRun::start(f))
            },
        }
    }

    /// Prepares the summarization of one named file, as when that file
    /// alone is to be summarized. Fails when the model holds no folders,
    /// when folder or file is absent, or — before any request is prepared —
    /// when the file's content is over the token budget.
    pub fn file_summary_request(&self, folder: &str, file: &str) -> (r: Result<
        ModelCall,
        SummarizeError,
    >)
        ensures
            ({
                let folders = self@.repository_content.folders;
                let i = index_of_name(folder_names(folders), folder@);
                if folders.len() == 0 {
                    r matches Err(e) && e == SummarizeError::NoFolders
                } else if i == -1 {
                    r matches Err(e) && e == SummarizeError::FolderNotFound
                } else {
                    let k = index_of_name(file_names(folders[i].files), file@);
                    if k == -1 {
                        r matches Err(e) && e == SummarizeError::FileNotFound
                    } else if !eligible_file(folders[i].files[k]) {
                        r matches Err(e) && e == SummarizeError::TokenBudgetExceeded
                    } else {
                        r matches Ok(call) && call@ == spec_file_call(folders[i].files[k].content)
                    }
                }
            }),
    {
        if self.repository_content.folders.len() == 0 {
            return Err(SummarizeError::NoFolders);
        }
        let found = match self.repository_content.find_folder(folder) {
            Some(f) => f,
            None => {
                return Err(SummarizeError::FolderNotFound);
            },
        };
        let target = match found.find_file(file) {
            Some(f) => f,
            None => {
                return Err(SummarizeError::FileNotFound);
            },
        };
        if !is_eligible(target.content.as_str(), DEFAULT_TOKEN_LIMIT) {
            return Err(SummarizeError::TokenBudgetExceeded);
        }
        let prompt = FileSummaryPrompt::new(target.content.as_str());
        Ok(ModelCall { kind: SummaryKind::File, prompt: prompt.prompt })
    }
}

/// The credential a run uses: an explicitly supplied non-empty value wins;
/// otherwise the environment's value, if the environment holds one.
pub fn resolve_credential(supplied: Option<String>, environment: Option<String>) -> (r: Option<
    String,
>)
    ensures
        ({
            match supplied {
                Some(k) => if k@.len() > 0 {
                    r == Some(k)
                } else {
                    r == environment
                },
                None => r == environment,
            }
        }),
{
    match supplied {
        Some(k) => {
            if k.as_str().is_empty() {
                environment
            } else {
                Some(k)
            }
        },
        None => environment,
    }
}

} // verus!
