//! Indexing a workbook from the GUI: one job at a time, and each job a
//! fixed sequence of stages (load, build, profile, store, index by word,
//! index by meaning, reopen the engine), every stage's outcome deciding
//! the next. The work of each stage is done by the caller; this module
//! decides what comes next and what is said about it.

use vstd::prelude::*;
use crate::api::{ApiError, Status, index_busy};
use crate::events::WsEvent;
use crate::text::{u64_to_decimal, decimal, joined};

verus! {

/// What the browser asks to index.
pub struct IndexBody {
    /// The workbook to index, as the user named it.
    pub path: String,
    /// Skip the embedding model; index by word only.
    pub lexical_only: bool,
    /// Profile the columns. On by default.
    pub profiles: bool,
}

/// The default of `IndexBody::profiles`.
pub fn default_true() -> (r: bool)
    ensures
        r,
{
    true
}

/// The job in flight, if there is one. One at a time: concurrent jobs would
/// spend their time fighting over the manifest's and the index's locks.
pub struct IndexSlot {
    pub running: Option<String>,
}

impl IndexSlot {
    pub fn new() -> (r: IndexSlot)
        ensures
            r.running is None,
    {
        IndexSlot { running: None }
    }

    /// Claims the slot for `path`. With a job already running the slot is
    /// left as it was and the request is refused with a conflict naming
    /// the running job.
    pub fn try_begin(&mut self, path: &String) -> (r: Result<(), ApiError>)
        ensures
            final(self).running == claimed(old(self).running, *path),
            r is Ok <==> old(self).running is None,
            old(self).running matches Some(p) ==> (r matches Err(e) && {
                &&& e.status == Status::Conflict
                &&& e.body.error@ == "already indexing "@ + p@ + " — one at a time"@
            }),
    {
        match &self.running {
            Some(p) => Err(index_busy(p.as_str())),
            None => {
                self.running = Some(path.clone());
                Ok(())
            },
        }
    }

    /// The job ended, one way or the other: the slot is free.
    pub fn finish(&mut self)
        ensures
            final(self).running is None,
    {
        self.running = None;
    }
}

/// The slot after a claim for `path`: taken by it if it was free,
/// unchanged otherwise.
pub open spec fn claimed(running: Option<String>, path: String) -> Option<String> {
    if running is None {
        Some(path)
    } else {
        running
    }
}

/// One job at a time: after any claim the slot is taken, so a second claim
/// before `finish` is refused and leaves the first job's path in place.
pub proof fn law_one_job_at_a_time(running: Option<String>, first: String, second: String)
    ensures
        claimed(running, first) is Some,
        claimed(claimed(running, first), second) == claimed(running, first),
        running is None ==> claimed(claimed(running, first), second) == Some(first),
{
}

/// The event that reports a finished job.
pub fn index_done(path: String, result: Result<(), String>) -> (r: WsEvent)
    ensures
        r == (match result {
            Ok(()) => WsEvent::IndexDone { path, ok: true, error: None },
            Err(m) => WsEvent::IndexDone { path, ok: false, error: Some(m) },
        }),
{
    match result {
        Ok(()) => WsEvent::IndexDone { path, ok: true, error: None },
        Err(m) => WsEvent::IndexDone { path, ok: false, error: Some(m) },
    }
}

/// Where a job is: which stage's outcome it waits for.
pub enum Stage {
    Loading,
    Building,
    Finalizing,
    Profiling,
    StoringGraph,
    StoringProfiles,
    ForgettingProfiles,
    ReadingBack,
    OpeningText,
    CheckingText,
    IndexingText,
    OpeningEmbedder,
    Embedding,
    StoringVectors,
    Rotating,
    Finished,
}

/// The stages in the order a job passes through them.
pub open spec fn rank(s: Stage) -> int {
    match s {
        Stage::Loading => 0,
        Stage::Building => 1,
        Stage::Finalizing => 2,
        Stage::Profiling => 3,
        Stage::StoringGraph => 4,
        Stage::StoringProfiles => 5,
        Stage::ForgettingProfiles => 5,
        Stage::ReadingBack => 6,
        Stage::OpeningText => 7,
        Stage::CheckingText => 8,
        Stage::IndexingText => 9,
        Stage::OpeningEmbedder => 10,
        Stage::Embedding => 11,
        Stage::StoringVectors => 12,
        Stage::Rotating => 13,
        Stage::Finished => 14,
    }
}

/// The work the caller does next.
pub enum Action {
    /// Read the workbook, with no cap on cells.
    Load { path: String },
    /// Build its graph, formula groups included.
    Build,
    /// Drop the formula-group nodes, or keep them.
    Finalize { drop_formula_groups: bool },
    /// Profile every table's columns, keeping values or only their kinds.
    Profile { values: bool },
    /// Store the graph in the corpus.
    StoreGraph { formula_groups_stored: bool },
    /// Store the profiles beside it.
    StoreProfiles,
    /// Remove any profiles an earlier run stored: their absence is
    /// authoritative.
    ForgetProfiles,
    /// Read the graph and profiles back through the store.
    ReadBack,
    /// Open (or reset) the lexical index.
    OpenText,
    /// Ask whether it already holds the workbook.
    CheckText,
    /// Index the workbook by word.
    IndexText,
    /// Open the embedder and the vector index, and ask whether the latter
    /// holds the workbook.
    OpenEmbedder,
    /// Embed the workbook's documents.
    Embed,
    /// Store the vectors.
    StoreVectors,
    /// Reopen the engine, so reads see the new workbook.
    Rotate,
    /// The job is over.
    Finish { result: Result<(), String> },
}

/// A line of progress. The timed ones are written by the caller, which
/// holds the clock and the workbook.
pub enum LogLine {
    Text(String),
    /// `{path}: {sheets} sheet(s), {cells} cell(s) read in {secs}s`
    Loaded,
    /// `graph built: {nodes} node(s), {edges} edge(s) in {secs}s`
    Built,
    /// `done in {secs}s — {path} now searchable`
    Searchable,
}

/// The outcome of the action the job asked for.
pub enum JobEvent {
    /// The workbook was read, with these warnings.
    Loaded { warnings: Vec<String> },
    /// The graph was built with this many formula-group nodes.
    Built { formula_groups: u64 },
    /// The action succeeded.
    Done,
    /// The action succeeded and added this many documents or vectors.
    Counted { count: u64 },
    /// The index asked already holds the workbook, or not.
    Holds { present: bool },
    /// The graph was not there to read back.
    Missing,
    /// The profiles could not be read back.
    ProfilesFailed { reason: String },
    /// The action failed.
    Failed { reason: String },
}

pub struct JobStep {
    pub logs: Vec<LogLine>,
    pub action: Action,
}

/// One index job.
pub struct IndexJob {
    pub path: String,
    pub lexical_only: bool,
    pub profiles: bool,
    pub redact_values: bool,
    pub max_stored_formula_groups: u64,
    pub formula_groups_stored: bool,
    pub stage: Stage,
}

/// Whether `event` answers the action a job at `stage` asked for.
pub open spec fn answers(stage: Stage, event: JobEvent) -> bool {
    match stage {
        Stage::Loading => event is Loaded || event is Failed,
        Stage::Building => event is Built,
        Stage::Finalizing => event is Done,
        Stage::Profiling => event is Done,
        Stage::StoringGraph => event is Done || event is Failed,
        Stage::StoringProfiles => event is Done || event is Failed,
        Stage::ForgettingProfiles => event is Done || event is Failed,
        Stage::ReadingBack => event is Done || event is Failed || event is Missing || event is ProfilesFailed,
        Stage::OpeningText => event is Done || event is Failed,
        Stage::CheckingText => event is Holds || event is Failed,
        Stage::IndexingText => event is Counted || event is Failed,
        Stage::OpeningEmbedder => event is Holds || event is Failed,
        Stage::Embedding => event is Done || event is Failed,
        Stage::StoringVectors => event is Counted || event is Failed,
        Stage::Rotating => event is Done || event is Failed,
        Stage::Finished => false,
    }
}

/// `prefix`, the path, `: ` and the reason.
pub open spec fn failure(prefix: Seq<char>, path: Seq<char>, reason: Seq<char>) -> Seq<char> {
    prefix + path + ": "@ + reason
}

/// The step ends the job with `message`.
pub open spec fn ends_with_error(job: IndexJob, step: JobStep, message: Seq<char>) -> bool {
    &&& job.stage == Stage::Finished
    &&& step.logs.len() == 0
    &&& step.action matches Action::Finish { result: Err(m) } && m@ == message
}

/// The step moves the job to `stage` with `action` and says nothing.
pub open spec fn moves_to(job: IndexJob, step: JobStep, stage: Stage, action: Action) -> bool {
    &&& job.stage == stage
    &&& step.action == action
    &&& step.logs.len() == 0
}

/// The step says `line` alone.
pub open spec fn says(step: JobStep, line: Seq<char>) -> bool {
    &&& step.logs.len() == 1
    &&& step.logs[0] matches LogLine::Text(t) && t@ == line
}

/// After the lexical index: by meaning, unless the job is by word only.
pub open spec fn after_text(job: IndexJob) -> Stage {
    if job.lexical_only {
        Stage::Rotating
    } else {
        Stage::OpeningEmbedder
    }
}

/// The stage a job moves to when `event` answers its action at `stage`;
/// an outcome that ends the job, or answers out of turn, finishes it.
pub open spec fn next_stage(stage: Stage, profiles: bool, lexical_only: bool, event: JobEvent) -> Stage {
    let text_done = if lexical_only {
        Stage::Rotating
    } else {
        Stage::OpeningEmbedder
    };
    match (stage, event) {
        (Stage::Loading, JobEvent::Loaded { .. }) => Stage::Building,
        (Stage::Building, JobEvent::Built { .. }) => Stage::Finalizing,
        (Stage::Finalizing, JobEvent::Done) => if profiles {
            Stage::Profiling
        } else {
            Stage::StoringGraph
        },
        (Stage::Profiling, JobEvent::Done) => Stage::StoringGraph,
        (Stage::StoringGraph, JobEvent::Done) => if profiles {
            Stage::StoringProfiles
        } else {
            Stage::ForgettingProfiles
        },
        (Stage::StoringProfiles, JobEvent::Done) => Stage::ReadingBack,
        (Stage::ForgettingProfiles, JobEvent::Done) => Stage::ReadingBack,
        (Stage::ReadingBack, JobEvent::Done) => Stage::OpeningText,
        (Stage::OpeningText, JobEvent::Done) => Stage::CheckingText,
        (Stage::CheckingText, JobEvent::Holds { present }) => if present {
            text_done
        } else {
            Stage::IndexingText
        },
        (Stage::IndexingText, JobEvent::Counted { .. }) => text_done,
        (Stage::OpeningEmbedder, JobEvent::Holds { present }) => if present {
            Stage::Rotating
        } else {
            Stage::Embedding
        },
        (Stage::OpeningEmbedder, JobEvent::Failed { .. }) => Stage::Rotating,
        (Stage::Embedding, JobEvent::Done) => Stage::StoringVectors,
        (Stage::StoringVectors, JobEvent::Counted { .. }) => Stage::Rotating,
        _ => Stage::Finished,
    }
}

/// The stage a job that starts at `start` has reached after the first `k`
/// of `events`.
pub open spec fn stage_after(
    start: Stage,
    profiles: bool,
    lexical_only: bool,
    events: Seq<JobEvent>,
    k: int,
) -> Stage
    decreases k,
{
    if k <= 0 {
        start
    } else {
        next_stage(
            stage_after(start, profiles, lexical_only, events, k - 1),
            profiles,
            lexical_only,
            events[k - 1],
        )
    }
}

proof fn lemma_held_workbook_adds_nothing(
    profiles: bool,
    lexical_only: bool,
    events: Seq<JobEvent>,
    k: int,
)
    requires
        0 <= k <= events.len(),
        forall|j: int|
            0 <= j < events.len() && #[trigger] stage_after(Stage::Loading, profiles, lexical_only, events, j)
                == Stage::CheckingText ==> events[j] != (JobEvent::Holds { present: false }),
        forall|j: int|
            0 <= j < events.len() && #[trigger] stage_after(Stage::Loading, profiles, lexical_only, events, j)
                == Stage::OpeningEmbedder ==> events[j] != (JobEvent::Holds { present: false }),
    ensures
        stage_after(Stage::Loading, profiles, lexical_only, events, k) != Stage::IndexingText,
        stage_after(Stage::Loading, profiles, lexical_only, events, k) != Stage::Embedding,
        stage_after(Stage::Loading, profiles, lexical_only, events, k) != Stage::StoringVectors,
    decreases k,
{
    if k > 0 {
        lemma_held_workbook_adds_nothing(profiles, lexical_only, events, k - 1);
        let before = stage_after(Stage::Loading, profiles, lexical_only, events, k - 1);
        if before == Stage::CheckingText {
            assert(events[k - 1] != (JobEvent::Holds { present: false }));
        }
        if before == Stage::OpeningEmbedder {
            assert(events[k - 1] != (JobEvent::Holds { present: false }));
        }
    }
}

/// Indexing a workbook that both indexes already hold adds nothing to them:
/// when, in a run from the start, every check of the lexical index and of
/// the vector index answers that the workbook is there (or fails), the run
/// never reaches the stages that index by word, embed or store vectors. By
/// `IndexJob::step`, those stages are exactly the ones entered with an
/// `IndexText`, `Embed` or `StoreVectors` action, the only actions that add
/// documents or vectors.
pub proof fn law_held_workbook_adds_nothing(profiles: bool, lexical_only: bool, events: Seq<JobEvent>)
    requires
        forall|j: int|
            0 <= j < events.len() && #[trigger] stage_after(Stage::Loading, profiles, lexical_only, events, j)
                == Stage::CheckingText ==> events[j] != (JobEvent::Holds { present: false }),
        forall|j: int|
            0 <= j < events.len() && #[trigger] stage_after(Stage::Loading, profiles, lexical_only, events, j)
                == Stage::OpeningEmbedder ==> events[j] != (JobEvent::Holds { present: false }),
    ensures
        forall|k: int|
            0 <= k <= events.len() ==> {
                let s = #[trigger] stage_after(Stage::Loading, profiles, lexical_only, events, k);
                &&& s != Stage::IndexingText
                &&& s != Stage::Embedding
                &&& s != Stage::StoringVectors
            },
{
    assert forall|k: int| 0 <= k <= events.len() implies {
        let s = #[trigger] stage_after(Stage::Loading, profiles, lexical_only, events, k);
        &&& s != Stage::IndexingText
        &&& s != Stage::Embedding
        &&& s != Stage::StoringVectors
    } by {
        lemma_held_workbook_adds_nothing(profiles, lexical_only, events, k);
    }
}

pub open spec fn action_for(stage: Stage) -> Action {
    match stage {
        Stage::Rotating => Action::Rotate,
        _ => Action::OpenEmbedder,
    }
}

/// After the lexical index a job by word only reopens the engine, and any
/// other job opens the embedder.
pub proof fn law_after_text(job: IndexJob)
    ensures
        job.lexical_only ==> after_text(job) == Stage::Rotating && action_for(after_text(job)) == Action::Rotate,
        !job.lexical_only ==> after_text(job) == Stage::OpeningEmbedder && action_for(after_text(job))
            == Action::OpenEmbedder,
{
}

/// The settings a job never changes.
pub open spec fn same_job(a: IndexJob, b: IndexJob) -> bool {
    &&& a.path == b.path
    &&& a.lexical_only == b.lexical_only
    &&& a.profiles == b.profiles
    &&& a.redact_values == b.redact_values
    &&& a.max_stored_formula_groups == b.max_stored_formula_groups
}

fn failure_text(prefix: &str, path: &str, reason: &str) -> (r: String)
    ensures
        r@ == failure(prefix@, path@, reason@),
{
    let mut s = String::from_str(prefix);
    s.append(path);
    s.append(": ");
    s.append(reason);
    s
}

fn count_line(n: u64, suffix: &str) -> (r: String)
    ensures
        r@ == decimal(n as nat) + suffix@,
{
    let mut s = u64_to_decimal(n);
    s.append(suffix);
    s
}

impl IndexJob {
    /// A job never waits on the embedder when it indexes by word only.
    pub open spec fn wf(&self) -> bool {
        self.lexical_only ==> !(self.stage is OpeningEmbedder || self.stage is Embedding
            || self.stage is StoringVectors)
    }

    /// Starts a job for `body`: the first thing it does is load the
    /// workbook. `redact_values` is the server's policy on cell values and
    /// `max_stored_formula_groups` the most formula groups a stored graph
    /// keeps.
    pub fn start(body: &IndexBody, redact_values: bool, max_stored_formula_groups: u64) -> (r: (
        IndexJob,
        JobStep,
    ))
        ensures
            r.0.wf(),
            r.0.stage == Stage::Loading,
            r.0.path == body.path,
            r.0.lexical_only == body.lexical_only,
            r.0.profiles == body.profiles,
            r.0.redact_values == redact_values,
            r.0.max_stored_formula_groups == max_stored_formula_groups,
            r.1.logs.len() == 0,
            r.1.action matches Action::Load { path } && path == body.path,
    {
        let job = IndexJob {
            path: body.path.clone(),
            lexical_only: body.lexical_only,
            profiles: body.profiles,
            redact_values,
            max_stored_formula_groups,
            formula_groups_stored: true,
            stage: Stage::Loading,
        };
        let step = JobStep { logs: Vec::new(), action: Action::Load { path: body.path.clone() } };
        (job, step)
    }

    /// Whether `event` answers the action this job asked for.
    pub fn accepts(&self, event: &JobEvent) -> (r: bool)
        ensures
            r == answers(self.stage, *event),
    {
        match self.stage {
            Stage::Loading => event.is_loaded() || event.is_failed(),
            Stage::Building => event.is_built(),
            Stage::Finalizing | Stage::Profiling => event.is_done(),
            Stage::StoringGraph | Stage::StoringProfiles | Stage::ForgettingProfiles | Stage::OpeningText
            | Stage::Embedding | Stage::Rotating => event.is_done() || event.is_failed(),
            Stage::ReadingBack => event.is_done() || event.is_failed() || event.is_missing()
                || event.is_profiles_failed(),
            Stage::CheckingText | Stage::OpeningEmbedder => event.is_holds() || event.is_failed(),
            Stage::IndexingText | Stage::StoringVectors => event.is_counted() || event.is_failed(),
            Stage::Finished => false,
        }
    }

    fn go(&mut self, stage: Stage, action: Action, logs: Vec<LogLine>) -> (r: JobStep)
        ensures
            final(self).stage == stage,
            same_job(*old(self), *final(self)),
            final(self).formula_groups_stored == old(self).formula_groups_stored,
            r.action == action,
            r.logs == logs,
    {
        self.stage = stage;
        JobStep { logs, action }
    }

    fn fail(&mut self, message: String) -> (r: JobStep)
        ensures
            final(self).stage == Stage::Finished,
            same_job(*old(self), *final(self)),
            final(self).formula_groups_stored == old(self).formula_groups_stored,
            r.logs.len() == 0,
            r.action == (Action::Finish { result: Err(message) }),
    {
        self.go(Stage::Finished, Action::Finish { result: Err(message) }, Vec::new())
    }

    fn after_text_exec(&mut self, logs: Vec<LogLine>) -> (r: JobStep)
        ensures
            final(self).stage == after_text(*old(self)),
            same_job(*old(self), *final(self)),
            final(self).formula_groups_stored == old(self).formula_groups_stored,
            r.action == action_for(after_text(*old(self))),
            r.logs == logs,
    {
        if self.lexical_only {
            self.go(Stage::Rotating, Action::Rotate, logs)
        } else {
            self.go(Stage::OpeningEmbedder, Action::OpenEmbedder, logs)
        }
    }

    /// Takes the outcome of the action the job asked for, and says what
    /// comes next: each stage in turn, each failure ending the job with a
    /// message that names what failed. Only the embedder may be missing:
    /// without it the workbook is indexed by word only.
    pub fn step(&mut self, event: JobEvent) -> (r: JobStep)
        requires
            old(self).wf(),
            answers(old(self).stage, event),
        ensures
            final(self).wf(),
            same_job(*old(self), *final(self)),
            rank(final(self).stage) > rank(old(self).stage),
            !(old(self).stage is Building) ==> final(self).formula_groups_stored
                == old(self).formula_groups_stored,
            (r.action is Finish) <==> (final(self).stage is Finished),
            final(self).stage == next_stage(old(self).stage, old(self).profiles, old(self).lexical_only, event),
            (r.action is IndexText) <==> (final(self).stage is IndexingText),
            (r.action is Embed) <==> (final(self).stage is Embedding),
            (r.action is StoreVectors) <==> (final(self).stage is StoringVectors),
            final(self).lexical_only ==> !(r.action is OpenEmbedder || r.action is Embed
                || r.action is StoreVectors),
            match (old(self).stage, event) {
                (Stage::Loading, JobEvent::Loaded { warnings }) => {
                    &&& final(self).stage == Stage::Building
                    &&& r.action == Action::Build
                    &&& r.logs.len() == warnings.len() + 1
                    &&& r.logs[0] == LogLine::Loaded
                    &&& forall|i: int| 0 <= i < warnings.len() ==> (#[trigger] r.logs[i + 1] matches LogLine::Text(t)
                        && t@ == "  warning: "@ + warnings[i]@)
                },
                (Stage::Loading, JobEvent::Failed { reason }) => ends_with_error(
                    *final(self),
                    r,
                    failure("could not load "@, old(self).path@, reason@),
                ),
                (Stage::Building, JobEvent::Built { formula_groups }) => {
                    &&& moves_to(*final(self), r, Stage::Finalizing, Action::Finalize {
                        drop_formula_groups: formula_groups > old(self).max_stored_formula_groups,
                    })
                    &&& final(self).formula_groups_stored == (formula_groups <= old(self).max_stored_formula_groups)
                },
                (Stage::Finalizing, JobEvent::Done) => {
                    &&& r.logs.len() == 1
                    &&& r.logs[0] == LogLine::Built
                    &&& old(self).profiles ==> (final(self).stage == Stage::Profiling && r.action
                        == Action::Profile { values: !old(self).redact_values })
                    &&& !old(self).profiles ==> (final(self).stage == Stage::StoringGraph && r.action
                        == Action::StoreGraph { formula_groups_stored: old(self).formula_groups_stored })
                },
                (Stage::Profiling, JobEvent::Done) => moves_to(*final(self), r, Stage::StoringGraph,
                    Action::StoreGraph { formula_groups_stored: old(self).formula_groups_stored }),
                (Stage::StoringGraph, JobEvent::Done) => if old(self).profiles {
                    moves_to(*final(self), r, Stage::StoringProfiles, Action::StoreProfiles)
                } else {
                    moves_to(*final(self), r, Stage::ForgettingProfiles, Action::ForgetProfiles)
                },
                (Stage::StoringGraph, JobEvent::Failed { reason }) => ends_with_error(
                    *final(self),
                    r,
                    failure("could not store "@, old(self).path@, reason@),
                ),
                (Stage::StoringProfiles, JobEvent::Done) => {
                    &&& final(self).stage == Stage::ReadingBack
                    &&& r.action == Action::ReadBack
                    &&& says(r, "graph stored"@)
                },
                (Stage::StoringProfiles, JobEvent::Failed { reason }) => ends_with_error(
                    *final(self),
                    r,
                    failure("could not store the profiles for "@, old(self).path@, reason@),
                ),
                (Stage::ForgettingProfiles, JobEvent::Done) => {
                    &&& final(self).stage == Stage::ReadingBack
                    &&& r.action == Action::ReadBack
                    &&& says(r, "graph stored"@)
                },
                (Stage::ForgettingProfiles, JobEvent::Failed { reason }) => ends_with_error(
                    *final(self),
                    r,
                    failure("could not clear stale profiles for "@, old(self).path@, reason@),
                ),
                (Stage::ReadingBack, JobEvent::Done) => moves_to(*final(self), r, Stage::OpeningText,
                    Action::OpenText),
                (Stage::ReadingBack, JobEvent::Failed { reason }) => ends_with_error(
                    *final(self),
                    r,
                    "could not read back the stored graph: "@ + reason@,
                ),
                (Stage::ReadingBack, JobEvent::Missing) => ends_with_error(
                    *final(self),
                    r,
                    "the graph vanished between storing and indexing it"@,
                ),
                (Stage::ReadingBack, JobEvent::ProfilesFailed { reason }) => ends_with_error(
                    *final(self),
                    r,
                    "could not read back the profiles: "@ + reason@,
                ),
                (Stage::OpeningText, JobEvent::Done) => moves_to(*final(self), r, Stage::CheckingText,
                    Action::CheckText),
                (Stage::OpeningText, JobEvent::Failed { reason }) => ends_with_error(
                    *final(self),
                    r,
                    "could not open the lexical index: "@ + reason@,
                ),
                (Stage::CheckingText, JobEvent::Holds { present }) => if present {
                    moves_to(*final(self), r, after_text(*old(self)), action_for(after_text(*old(self))))
                } else {
                    moves_to(*final(self), r, Stage::IndexingText, Action::IndexText)
                },
                (Stage::CheckingText, JobEvent::Failed { reason }) => ends_with_error(
                    *final(self),
                    r,
                    "could not read the lexical index: "@ + reason@,
                ),
                (Stage::IndexingText, JobEvent::Counted { count }) => {
                    &&& final(self).stage == after_text(*old(self))
                    &&& r.action == action_for(after_text(*old(self)))
                    &&& says(r, decimal(count as nat) + " lexical document(s) added"@)
                },
                (Stage::IndexingText, JobEvent::Failed { reason }) => ends_with_error(
                    *final(self),
                    r,
                    failure("could not index "@, old(self).path@, reason@),
                ),
                (Stage::OpeningEmbedder, JobEvent::Holds { present }) => if present {
                    moves_to(*final(self), r, Stage::Rotating, Action::Rotate)
                } else {
                    moves_to(*final(self), r, Stage::Embedding, Action::Embed)
                },
                (Stage::OpeningEmbedder, JobEvent::Failed { reason }) => {
                    &&& final(self).stage == Stage::Rotating
                    &&& r.action == Action::Rotate
                    &&& says(r, "no semantic half ("@ + reason@ + "); indexed by word only"@)
                },
                (Stage::Embedding, JobEvent::Done) => moves_to(*final(self), r, Stage::StoringVectors,
                    Action::StoreVectors),
                (Stage::Embedding, JobEvent::Failed { reason }) => ends_with_error(
                    *final(self),
                    r,
                    failure("could not embed "@, old(self).path@, reason@),
                ),
                (Stage::StoringVectors, JobEvent::Counted { count }) => {
                    &&& final(self).stage == Stage::Rotating
                    &&& r.action == Action::Rotate
                    &&& says(r, decimal(count as nat) + " vector(s) added"@)
                },
                (Stage::StoringVectors, JobEvent::Failed { reason }) => ends_with_error(
                    *final(self),
                    r,
                    failure("could not store the vectors for "@, old(self).path@, reason@),
                ),
                (Stage::Rotating, JobEvent::Done) => {
                    &&& final(self).stage == Stage::Finished
                    &&& r.action == (Action::Finish { result: Ok(()) })
                    &&& r.logs.len() == 1
                    &&& r.logs[0] == LogLine::Searchable
                },
                (Stage::Rotating, JobEvent::Failed { reason }) => ends_with_error(*final(self), r, reason@),
                _ => true,
            },
    {
        match self.stage {
            Stage::Loading => match event {
                JobEvent::Loaded { warnings } => {
                    let mut logs: Vec<LogLine> = Vec::new();
                    logs.push(LogLine::Loaded);
                    let mut i: usize = 0;
                    while i < warnings.len()
                        invariant
                            i <= warnings.len(),
                            logs.len() == i + 1,
                            logs[0] == LogLine::Loaded,
                            forall|j: int| 0 <= j < i ==> (#[trigger] logs[j + 1] matches LogLine::Text(t)
                                && t@ == "  warning: "@ + warnings[j]@),
                        decreases warnings.len() - i,
                    {
                        logs.push(LogLine::Text(joined("  warning: ", warnings[i].as_str())));
                        i = i + 1;
                    }
                    self.go(Stage::Building, Action::Build, logs)
                },
                JobEvent::Failed { reason } => {
                    self.fail(failure_text("could not load ", self.path.as_str(), reason.as_str()))
                },
                _ => self.fail(String::new()),
            },
            Stage::Building => match event {
                JobEvent::Built { formula_groups } => {
                    let keep = formula_groups <= self.max_stored_formula_groups;
                    self.formula_groups_stored = keep;
                    self.go(Stage::Finalizing, Action::Finalize { drop_formula_groups: !keep }, Vec::new())
                },
                _ => self.fail(String::new()),
            },
            Stage::Finalizing => {
                let mut logs: Vec<LogLine> = Vec::new();
                logs.push(LogLine::Built);
                if self.profiles {
                    let values = !self.redact_values;
                    self.go(Stage::Profiling, Action::Profile { values }, logs)
                } else {
                    let stored = self.formula_groups_stored;
                    self.go(Stage::StoringGraph, Action::StoreGraph { formula_groups_stored: stored }, logs)
                }
            },
            Stage::Profiling => {
                let stored = self.formula_groups_stored;
                self.go(Stage::StoringGraph, Action::StoreGraph { formula_groups_stored: stored }, Vec::new())
            },
            Stage::StoringGraph => match event {
                JobEvent::Failed { reason } => {
                    self.fail(failure_text("could not store ", self.path.as_str(), reason.as_str()))
                },
                _ => if self.profiles {
                    self.go(Stage::StoringProfiles, Action::StoreProfiles, Vec::new())
                } else {
                    self.go(Stage::ForgettingProfiles, Action::ForgetProfiles, Vec::new())
                },
            },
            Stage::StoringProfiles => match event {
                JobEvent::Failed { reason } => {
                    self.fail(failure_text("could not store the profiles for ", self.path.as_str(), reason.as_str()))
                },
                _ => self.stored(),
            },
            Stage::ForgettingProfiles => match event {
                JobEvent::Failed { reason } => {
                    self.fail(failure_text("could not clear stale profiles for ", self.path.as_str(), reason.as_str()))
                },
                _ => self.stored(),
            },
            Stage::ReadingBack => match event {
                JobEvent::Failed { reason } => {
                    self.fail(joined("could not read back the stored graph: ", reason.as_str()))
                },
                JobEvent::Missing => {
                    self.fail(String::from_str("the graph vanished between storing and indexing it"))
                },
                JobEvent::ProfilesFailed { reason } => {
                    self.fail(joined("could not read back the profiles: ", reason.as_str()))
                },
                _ => self.go(Stage::OpeningText, Action::OpenText, Vec::new()),
            },
            Stage::OpeningText => match event {
                JobEvent::Failed { reason } => {
                    self.fail(joined("could not open the lexical index: ", reason.as_str()))
                },
                _ => self.go(Stage::CheckingText, Action::CheckText, Vec::new()),
            },
            Stage::CheckingText => match event {
                JobEvent::Holds { present } => {
                    if present {
                        self.after_text_exec(Vec::new())
                    } else {
                        self.go(Stage::IndexingText, Action::IndexText, Vec::new())
                    }
                },
                JobEvent::Failed { reason } => {
                    self.fail(joined("could not read the lexical index: ", reason.as_str()))
                },
                _ => self.fail(String::new()),
            },
            Stage::IndexingText => match event {
                JobEvent::Counted { count } => {
                    let mut logs: Vec<LogLine> = Vec::new();
                    logs.push(LogLine::Text(count_line(count, " lexical document(s) added")));
                    self.after_text_exec(logs)
                },
                JobEvent::Failed { reason } => {
                    self.fail(failure_text("could not index ", self.path.as_str(), reason.as_str()))
                },
                _ => self.fail(String::new()),
            },
            Stage::OpeningEmbedder => match event {
                JobEvent::Holds { present } => {
                    if present {
                        self.go(Stage::Rotating, Action::Rotate, Vec::new())
                    } else {
                        self.go(Stage::Embedding, Action::Embed, Vec::new())
                    }
                },
                JobEvent::Failed { reason } => {
                    let mut line = joined("no semantic half (", reason.as_str());
                    line.append("); indexed by word only");
                    let mut logs: Vec<LogLine> = Vec::new();
                    logs.push(LogLine::Text(line));
                    self.go(Stage::Rotating, Action::Rotate, logs)
                },
                _ => self.fail(String::new()),
            },
            Stage::Embedding => match event {
                JobEvent::Failed { reason } => {
                    self.fail(failure_text("could not embed ", self.path.as_str(), reason.as_str()))
                },
                _ => self.go(Stage::StoringVectors, Action::StoreVectors, Vec::new()),
            },
            Stage::StoringVectors => match event {
                JobEvent::Counted { count } => {
                    let mut logs: Vec<LogLine> = Vec::new();
                    logs.push(LogLine::Text(count_line(count, " vector(s) added")));
                    self.go(Stage::Rotating, Action::Rotate, logs)
                },
                JobEvent::Failed { reason } => {
                    self.fail(failure_text("could not store the vectors for ", self.path.as_str(), reason.as_str()))
                },
                _ => self.fail(String::new()),
            },
            Stage::Rotating => match event {
                JobEvent::Failed { reason } => self.fail(reason),
                _ => {
                    let mut logs: Vec<LogLine> = Vec::new();
                    logs.push(LogLine::Searchable);
                    self.go(Stage::Finished, Action::Finish { result: Ok(()) }, logs)
                },
            },
            Stage::Finished => self.fail(String::new()),
        }
    }

    fn stored(&mut self) -> (r: JobStep)
        ensures
            final(self).stage == Stage::ReadingBack,
            same_job(*old(self), *final(self)),
            final(self).formula_groups_stored == old(self).formula_groups_stored,
            r.action == Action::ReadBack,
            says(r, "graph stored"@),
    {
        let mut logs: Vec<LogLine> = Vec::new();
        logs.push(LogLine::Text(String::from_str("graph stored")));
        self.go(Stage::ReadingBack, Action::ReadBack, logs)
    }

    /// Whether the job is over.
    pub fn finished(&self) -> (r: bool)
        ensures
            r == (self.stage is Finished),
    {
        match self.stage {
            Stage::Finished => true,
            _ => false,
        }
    }
}

impl JobEvent {
    pub fn is_loaded(&self) -> (r: bool)
        ensures
            r == (*self is Loaded),
    {
        match self {
            JobEvent::Loaded { .. } => true,
            _ => false,
        }
    }

    pub fn is_built(&self) -> (r: bool)
        ensures
            r == (*self is Built),
    {
        match self {
            JobEvent::Built { .. } => true,
            _ => false,
        }
    }

    pub fn is_done(&self) -> (r: bool)
        ensures
            r == (*self is Done),
    {
        match self {
            JobEvent::Done => true,
            _ => false,
        }
    }

    pub fn is_counted(&self) -> (r: bool)
        ensures
            r == (*self is Counted),
    {
        match self {
            JobEvent::Counted { .. } => true,
            _ => false,
        }
    }

    pub fn is_holds(&self) -> (r: bool)
        ensures
            r == (*self is Holds),
    {
        match self {
            JobEvent::Holds { .. } => true,
            _ => false,
        }
    }

    pub fn is_missing(&self) -> (r: bool)
        ensures
            r == (*self is Missing),
    {
        match self {
            JobEvent::Missing => true,
            _ => false,
        }
    }

    pub fn is_profiles_failed(&self) -> (r: bool)
        ensures
            r == (*self is ProfilesFailed),
    {
        match self {
            JobEvent::ProfilesFailed { .. } => true,
            _ => false,
        }
    }

    pub fn is_failed(&self) -> (r: bool)
        ensures
            r == (*self is Failed),
    {
        match self {
            JobEvent::Failed { .. } => true,
            _ => false,
        }
    }
}

} // verus!
