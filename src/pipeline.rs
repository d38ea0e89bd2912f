//! The run orchestrator: a state machine from the current phase and the
//! outcome of the work just done to the next phase and the work to do next.
//! It never retries; a failure ends the run and leaves the previously
//! published result as it was.
use vstd::prelude::*;
use crate::environment::RunPlan;
use crate::locate::{find_bbox_image_path, locate, opt_view};
use crate::log::{bounded_append, RunLog};
use crate::results::JudgmentRecord;
use crate::text::{decimal, push_decimal};
use crate::workspace::DirEntry;

verus! {

#[derive(PartialEq, Eq, Structural, Clone, Copy, Debug)]
pub enum Phase {
    /// No run has started yet.
    Idle,
    ResolvingEnvironment,
    StagingInput,
    RunningDetection,
    RunningJudgment,
    IngestingResults,
    Done,
    Aborted,
}

#[derive(PartialEq, Eq, Structural, Clone, Copy, Debug)]
pub enum ErrorKind {
    /// The root, the interpreter, an entry point or the weights are missing.
    Config,
    /// The staging directory could not be read or cleared.
    Io,
    /// A stage's program could not be started.
    Spawn,
    /// A stage's program ran and exited unsuccessfully.
    StageFailure,
    /// The results file is missing, unreadable or malformed.
    Ingest,
}

pub struct PipelineError {
    pub kind: ErrorKind,
    pub message: String,
}

/// How a stage's process ended, with what it printed.
pub struct ProcessOutcome {
    /// `None` when the process was ended by a signal.
    pub exit_code: Option<i32>,
    pub stdout: String,
    pub stderr: String,
}

/// What the work of the current phase came to.
pub enum Event {
    /// The environment was resolved into the plan of the run.
    Resolved(RunPlan),
    /// The input was staged; the number of files copied.
    Staged(usize),
    /// The current stage's process ran to its end.
    Exited(ProcessOutcome),
    /// The results file was read, and the output directory listed.
    Parsed { records: Vec<JudgmentRecord>, listing: Vec<DirEntry> },
    /// The work of the current phase failed, for the reason given.
    Failed(String),
}

/// The work to do next.
#[derive(PartialEq, Eq, Structural, Clone, Copy, Debug)]
pub enum Action {
    StageInput,
    RunDetection,
    RunJudgment,
    IngestResults,
    /// The run is complete and its result published.
    Publish,
    /// The run was aborted.
    Stop,
    /// The event does not belong to the current phase; nothing changed.
    Ignore,
}

/// The outcome of a completed run.
pub struct RunResult {
    pub records: Vec<JudgmentRecord>,
    pub output_dir: String,
    pub results_file: String,
}

pub open spec fn is_active(p: Phase) -> bool {
    ||| p == Phase::ResolvingEnvironment
    ||| p == Phase::StagingInput
    ||| p == Phase::RunningDetection
    ||| p == Phase::RunningJudgment
    ||| p == Phase::IngestingResults
}

pub open spec fn succeeded(o: ProcessOutcome) -> bool {
    o.exit_code == Some(0i32)
}

pub open spec fn next_phase(p: Phase, e: Event) -> Phase {
    match e {
        Event::Resolved(_) => if p == Phase::ResolvingEnvironment {
            Phase::StagingInput
        } else {
            p
        },
        Event::Staged(_) => if p == Phase::StagingInput {
            Phase::RunningDetection
        } else {
            p
        },
        Event::Exited(o) => if p == Phase::RunningDetection {
            if succeeded(o) {
                Phase::RunningJudgment
            } else {
                Phase::Aborted
            }
        } else if p == Phase::RunningJudgment {
            if succeeded(o) {
                Phase::IngestingResults
            } else {
                Phase::Aborted
            }
        } else {
            p
        },
        Event::Parsed { .. } => if p == Phase::IngestingResults {
            Phase::Done
        } else {
            p
        },
        Event::Failed(_) => if is_active(p) {
            Phase::Aborted
        } else {
            p
        },
    }
}

pub open spec fn next_action(p: Phase, e: Event) -> Action {
    if next_phase(p, e) == p {
        Action::Ignore
    } else {
        match next_phase(p, e) {
            Phase::StagingInput => Action::StageInput,
            Phase::RunningDetection => Action::RunDetection,
            Phase::RunningJudgment => Action::RunJudgment,
            Phase::IngestingResults => Action::IngestResults,
            Phase::Done => Action::Publish,
            _ => Action::Stop,
        }
    }
}

/// The kind of error when the work of phase `p` fails.
pub open spec fn failure_kind(p: Phase) -> ErrorKind {
    if p == Phase::ResolvingEnvironment {
        ErrorKind::Config
    } else if p == Phase::StagingInput {
        ErrorKind::Io
    } else if p == Phase::IngestingResults {
        ErrorKind::Ingest
    } else {
        ErrorKind::Spawn
    }
}

pub open spec fn int_text(n: int) -> Seq<char> {
    if n >= 0 {
        decimal(n as nat)
    } else {
        seq!['-'] + decimal((-n) as nat)
    }
}

pub open spec fn exit_text(code: Option<i32>) -> Seq<char> {
    match code {
        Some(c) => "exit code "@ + int_text(c as int),
        None => "no exit code"@,
    }
}

pub open spec fn stage_label(p: Phase) -> Seq<char> {
    if p == Phase::RunningDetection {
        "detection"@
    } else {
        "judgment"@
    }
}

pub open spec fn stage_failure(p: Phase, o: ProcessOutcome) -> Seq<char> {
    stage_label(p) + " stage failed with "@ + exit_text(o.exit_code)
}

/// The error with which the run ends, when `e` aborts it in phase `p`.
pub open spec fn abort_error(p: Phase, e: Event) -> (ErrorKind, Seq<char>) {
    match e {
        Event::Exited(o) => (ErrorKind::StageFailure, stage_failure(p, o)),
        Event::Failed(m) => (failure_kind(p), m@),
        _ => (ErrorKind::Config, seq![]),
    }
}

pub open spec fn stage_prefix(p: Phase) -> Seq<char> {
    if p == Phase::RunningDetection {
        "[DETECT] "@
    } else {
        "[JUDGE] "@
    }
}

/// What a stage printed, each stream under the stage's prefix.
pub open spec fn output_note(prefix: Seq<char>, o: ProcessOutcome) -> Seq<char> {
    (if o.stdout@.len() > 0 {
        prefix + o.stdout@
    } else {
        seq![]
    }) + (if o.stderr@.len() > 0 {
        prefix + "[stderr] "@ + o.stderr@
    } else {
        seq![]
    })
}

/// The text that the transition on `e` in phase `p` adds to the log.
pub open spec fn note(p: Phase, e: Event) -> Seq<char> {
    if next_phase(p, e) == p {
        seq![]
    } else {
        match e {
            Event::Resolved(plan) => "[INFO] project root: "@ + plan.root@ + "\n[INFO] interpreter: "@
                + plan.interpreter@ + "\n[STEP] staging input...\n"@,
            Event::Staged(n) => "[INFO] staged "@ + decimal(n as nat)
                + " file(s)\n[STEP] running detection...\n"@,
            Event::Exited(o) => output_note(stage_prefix(p), o) + if !succeeded(o) {
                "[ERROR] "@ + stage_failure(p, o) + "\n"@
            } else if p == Phase::RunningDetection {
                "[STEP] running judgment...\n"@
            } else {
                "[STEP] loading results...\n"@
            },
            Event::Parsed { records, .. } => "[DONE] "@ + decimal(records@.len())
                + " result(s)\n"@,
            Event::Failed(m) => "[ERROR] "@ + m@ + "\n"@,
        }
    }
}

/// Resolved image paths of the published run, keyed by image name and
/// whether that name exists as given under the output directory.
pub struct PreviewCache {
    pub listing: Vec<DirEntry>,
    pub found: Vec<(String, bool, Option<String>)>,
}

impl PreviewCache {
    /// Every cached path is what the lookup gives on the listing.
    pub open spec fn wf(&self) -> bool {
        forall|i: int|
            0 <= i < self.found@.len() ==> opt_view(#[trigger] self.found@[i].2) == locate(
                self.found@[i].0@,
                self.listing@,
                self.found@[i].1,
            )
    }

    /// An empty cache over the listing of a run's output directory.
    pub fn new(listing: Vec<DirEntry>) -> (r: Self)
        ensures
            r.wf(),
            r.listing == listing,
            r.found@.len() == 0,
    {
        PreviewCache { listing, found: Vec::new() }
    }

    /// The file that shows the image `name`, looked up once and then cached;
    /// `nested_found` is as for `find_bbox_image_path`.
    pub fn lookup(&mut self, name: &String, nested_found: bool) -> (r: Option<String>)
        requires
            old(self).wf(),
        ensures
            final(self).wf(),
            final(self).listing == old(self).listing,
            opt_view(r) == locate(name@, old(self).listing@, nested_found),
    {
        let mut i: usize = 0;
        while i < self.found.len()
            invariant
                self.wf(),
                i <= self.found@.len(),
            decreases self.found@.len() - i,
        {
            if self.found[i].0 == *name && self.found[i].1 == nested_found {
                let hit = match &self.found[i].2 {
                    Some(p) => Some(p.clone()),
                    None => None,
                };
                return hit;
            }
            i = i + 1;
        }
        let r = find_bbox_image_path(name, &self.listing, nested_found);
        let copy = match &r {
            Some(p) => Some(p.clone()),
            None => None,
        };
        self.found.push((name.clone(), nested_found, copy));
        r
    }
}

/// The orchestrator of runs: the phase of the current run, its plan, how it
/// ended, the result of the last completed run and the progress log.
pub struct Orchestrator {
    pub phase: Phase,
    pub plan: Option<RunPlan>,
    pub error: Option<PipelineError>,
    pub published: Option<RunResult>,
    pub previews: PreviewCache,
    pub log: RunLog,
}

impl Orchestrator {
    pub open spec fn wf(&self) -> bool {
        &&& self.log.wf()
        &&& self.previews.wf()
        &&& is_active(self.phase) && self.phase != Phase::ResolvingEnvironment ==> self.plan is Some
    }

    pub fn new() -> (r: Self)
        ensures
            r.wf(),
            r.phase == Phase::Idle,
            r.plan is None,
            r.error is None,
            r.published is None,
            r.previews.listing@.len() == 0,
            r.previews.found@.len() == 0,
            r.log@ == Seq::<char>::empty(),
    {
        Orchestrator {
            phase: Phase::Idle,
            plan: None,
            error: None,
            published: None,
            previews: PreviewCache::new(Vec::new()),
            log: RunLog::new(),
        }
    }

    /// Starts a run, unless one is in progress.
    pub fn start_run(&mut self) -> (started: bool)
        requires
            old(self).wf(),
        ensures
            final(self).wf(),
            started == !is_active(old(self).phase),
            final(self).published == old(self).published,
            final(self).previews == old(self).previews,
            started ==> final(self).phase == Phase::ResolvingEnvironment && final(self).plan is None
                && final(self).error is None && final(self).log@ == bounded_append(
                old(self).log@,
                "[STEP] resolving environment...\n"@,
            ),
            !started ==> final(self).phase == old(self).phase && final(self).plan == old(self).plan
                && final(self).error == old(self).error && final(self).log@ == old(self).log@,
    {
        if self.phase == Phase::ResolvingEnvironment || self.phase == Phase::StagingInput
            || self.phase == Phase::RunningDetection || self.phase == Phase::RunningJudgment
            || self.phase == Phase::IngestingResults {
            return false;
        }
        self.phase = Phase::ResolvingEnvironment;
        self.plan = None;
        self.error = None;
        self.log.append_log("[STEP] resolving environment...\n");
        true
    }

    /// Takes the outcome of the current phase's work and moves the run on.
    pub fn step(&mut self, event: Event) -> (action: Action)
        requires
            old(self).wf(),
        ensures
            final(self).wf(),
            action == next_action(old(self).phase, event),
            final(self).phase == next_phase(old(self).phase, event),
            final(self).log@ == bounded_append(old(self).log@, note(old(self).phase, event)),
            action == Action::StageInput ==> final(self).plan == Some(event->Resolved_0),
            action != Action::StageInput ==> final(self).plan == old(self).plan,
            action == Action::Publish ==> final(self).published == Some(
                (RunResult {
                    records: event->Parsed_records,
                    output_dir: old(self).plan->0.output_dir,
                    results_file: old(self).plan->0.results_file,
                }),
            ) && final(self).previews.listing == event->Parsed_listing
                && final(self).previews.found@.len() == 0,
            action != Action::Publish ==> final(self).published == old(self).published
                && final(self).previews == old(self).previews,
            action == Action::Stop ==> (final(self).error matches Some(err) && (err.kind, err.message@)
                == abort_error(old(self).phase, event)),
            action != Action::Stop ==> final(self).error == old(self).error,
    {
        let p = self.phase;
        proof {
            self.log.lemma_append_nothing();
        }
        match event {
            Event::Resolved(plan) => {
                if p != Phase::ResolvingEnvironment {
                    return Action::Ignore;
                }
                let mut n = String::from_str("[INFO] project root: ");
                n.append(plan.root.as_str());
                n.append("\n[INFO] interpreter: ");
                n.append(plan.interpreter.as_str());
                n.append("\n[STEP] staging input...\n");
                proof {
                    assert(n@ =~= note(p, Event::Resolved(plan)));
                }
                self.log.append_log(n.as_str());
                self.plan = Some(plan);
                self.phase = Phase::StagingInput;
                Action::StageInput
            },
            Event::Staged(count) => {
                if p != Phase::StagingInput {
                    return Action::Ignore;
                }
                let mut n = String::from_str("[INFO] staged ");
                push_decimal(&mut n, count as u128);
                n.append(" file(s)\n[STEP] running detection...\n");
                proof {
                    assert(n@ =~= note(p, Event::Staged(count)));
                }
                self.log.append_log(n.as_str());
                self.phase = Phase::RunningDetection;
                Action::RunDetection
            },
            Event::Exited(o) => {
                if p != Phase::RunningDetection && p != Phase::RunningJudgment {
                    return Action::Ignore;
                }
                let ghost ev = Event::Exited(o);
                let mut n = output_text(p, &o);
                let ok = match o.exit_code {
                    Some(c) => c == 0,
                    None => false,
                };
                if !ok {
                    let msg = failure_text(p, &o);
                    n.append("[ERROR] ");
                    n.append(msg.as_str());
                    n.append("\n");
                    proof {
                        assert(n@ =~= note(p, ev));
                    }
                    self.log.append_log(n.as_str());
                    self.error = Some(PipelineError { kind: ErrorKind::StageFailure, message: msg });
                    self.phase = Phase::Aborted;
                    return Action::Stop;
                }
                if p == Phase::RunningDetection {
                    n.append("[STEP] running judgment...\n");
                    proof {
                        assert(n@ =~= note(p, ev));
                    }
                    self.log.append_log(n.as_str());
                    self.phase = Phase::RunningJudgment;
                    Action::RunJudgment
                } else {
                    n.append("[STEP] loading results...\n");
                    proof {
                        assert(n@ =~= note(p, ev));
                    }
                    self.log.append_log(n.as_str());
                    self.phase = Phase::IngestingResults;
                    Action::IngestResults
                }
            },
            Event::Parsed { records, listing } => {
                if p != Phase::IngestingResults {
                    return Action::Ignore;
                }
                let mut n = String::from_str("[DONE] ");
                push_decimal(&mut n, records.len() as u128);
                n.append(" result(s)\n");
                proof {
                    assert(n@ =~= note(p, Event::Parsed { records, listing }));
                }
                self.log.append_log(n.as_str());
                let plan = self.plan.as_ref().unwrap();
                let result = RunResult {
                    records,
                    output_dir: plan.output_dir.clone(),
                    results_file: plan.results_file.clone(),
                };
                self.published = Some(result);
                self.previews = PreviewCache::new(listing);
                self.phase = Phase::Done;
                Action::Publish
            },
            Event::Failed(m) => {
                if !(p == Phase::ResolvingEnvironment || p == Phase::StagingInput || p
                    == Phase::RunningDetection || p == Phase::RunningJudgment || p
                    == Phase::IngestingResults) {
                    return Action::Ignore;
                }
                let mut n = String::from_str("[ERROR] ");
                n.append(m.as_str());
                n.append("\n");
                proof {
                    assert(n@ =~= note(p, Event::Failed(m)));
                }
                self.log.append_log(n.as_str());
                let kind = if p == Phase::ResolvingEnvironment {
                    ErrorKind::Config
                } else if p == Phase::StagingInput {
                    ErrorKind::Io
                } else if p == Phase::IngestingResults {
                    ErrorKind::Ingest
                } else {
                    ErrorKind::Spawn
                };
                self.error = Some(PipelineError { kind, message: m });
                self.phase = Phase::Aborted;
                Action::Stop
            },
        }
    }
}

fn output_text(p: Phase, o: &ProcessOutcome) -> (r: String)
    ensures
        r@ == output_note(stage_prefix(p), *o),
{
    let prefix = if p == Phase::RunningDetection {
        String::from_str("[DETECT] ")
    } else {
        String::from_str("[JUDGE] ")
    };
    let mut r = String::new();
    if o.stdout.as_str().unicode_len() > 0 {
        r.append(prefix.as_str());
        r.append(o.stdout.as_str());
    }
    let ghost first = r@;
    if o.stderr.as_str().unicode_len() > 0 {
        r.append(prefix.as_str());
        r.append("[stderr] ");
        r.append(o.stderr.as_str());
    }
    assert(r@ =~= output_note(stage_prefix(p), *o));
    r
}

fn failure_text(p: Phase, o: &ProcessOutcome) -> (r: String)
    ensures
        r@ == stage_failure(p, *o),
{
    let mut r = if p == Phase::RunningDetection {
        String::from_str("detection")
    } else {
        String::from_str("judgment")
    };
    r.append(" stage failed with ");
    match o.exit_code {
        Some(c) => {
            r.append("exit code ");
            if c >= 0 {
                push_decimal(&mut r, c as u128);
            } else {
                crate::text::push_char(&mut r, '-');
                let magnitude: i64 = -(c as i64);
                push_decimal(&mut r, magnitude as u128);
            }
        },
        None => {
            r.append("no exit code");
        },
    }
    assert(r@ =~= stage_failure(p, *o));
    r
}

/// The phase reached from `p` through the events `evs`, in order.
pub open spec fn phase_after(p: Phase, evs: Seq<Event>) -> Phase
    decreases evs.len(),
{
    if evs.len() == 0 {
        p
    } else {
        phase_after(next_phase(p, evs[0]), evs.drop_first())
    }
}

/// An aborted run stays aborted, whatever events follow, and asks for no
/// more work: no stage runs and nothing is published.
pub proof fn lemma_aborted_is_final(evs: Seq<Event>)
    ensures
        phase_after(Phase::Aborted, evs) == Phase::Aborted,
        forall|k: int|
            0 <= k < evs.len() ==> next_action(
                phase_after(Phase::Aborted, evs.take(k)),
                #[trigger] evs[k],
            ) == Action::Ignore,
    decreases evs.len(),
{
    if evs.len() > 0 {
        lemma_aborted_is_final(evs.drop_first());
        assert forall|k: int| 0 <= k < evs.len() implies next_action(
            phase_after(Phase::Aborted, evs.take(k)),
            #[trigger] evs[k],
        ) == Action::Ignore by {
            lemma_aborted_prefix(evs.take(k));
        }
    }
}

proof fn lemma_aborted_prefix(evs: Seq<Event>)
    ensures
        phase_after(Phase::Aborted, evs) == Phase::Aborted,
    decreases evs.len(),
{
    if evs.len() > 0 {
        lemma_aborted_prefix(evs.drop_first());
    }
}

/// A detection stage that exits unsuccessfully aborts the run with a stage
/// failure: the judgment stage is never started, whatever events follow, and
/// no result is published.
pub proof fn lemma_failed_detection_stops(o: ProcessOutcome, later: Seq<Event>)
    requires
        !succeeded(o),
    ensures
        next_phase(Phase::RunningDetection, Event::Exited(o)) == Phase::Aborted,
        next_action(Phase::RunningDetection, Event::Exited(o)) == Action::Stop,
        abort_error(Phase::RunningDetection, Event::Exited(o)).0 == ErrorKind::StageFailure,
        phase_after(Phase::Aborted, later) == Phase::Aborted,
        forall|k: int|
            0 <= k < later.len() ==> next_action(
                phase_after(Phase::Aborted, later.take(k)),
                #[trigger] later[k],
            ) != Action::RunJudgment && next_action(
                phase_after(Phase::Aborted, later.take(k)),
                later[k],
            ) != Action::Publish,
{
    lemma_aborted_is_final(later);
}

/// Staging asks for no minimum: whatever number of files was staged, zero
/// included, the detection stage runs next; and a results file with no
/// records completes the run.
pub proof fn lemma_no_minimum_of_sources(
    count: usize,
    records: Vec<JudgmentRecord>,
    listing: Vec<DirEntry>,
)
    ensures
        next_phase(Phase::StagingInput, Event::Staged(count)) == Phase::RunningDetection,
        next_action(Phase::StagingInput, Event::Staged(count)) == Action::RunDetection,
        next_phase(Phase::IngestingResults, Event::Parsed { records, listing }) == Phase::Done,
        next_action(Phase::IngestingResults, Event::Parsed { records, listing }) == Action::Publish,
{
}

} // verus!
