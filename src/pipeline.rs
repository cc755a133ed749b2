//! The per-repository pipeline: pull, then optionally detect and run the
//! dependency managers, then signal completion exactly once.
//!
//! The pipeline makes decisions only. Its driver performs each directive
//! (runs a command, probes the marker files) and feeds back the event.
use vstd::prelude::*;
use crate::manager::{DependencyManager, Markers, detect, lemma_detect_selects, spec_detect};

verus! {

/// What to do for every repository; chosen once for the whole run.
#[derive(Clone, Copy, Debug, PartialEq, Eq, Structural)]
pub enum Action {
    PullOnly,
    PullAndUpdateDependencies,
}

impl Action {
    /// The action for an optional subcommand: without one, pull and update.
    pub fn or_default(choice: Option<Action>) -> (r: Action)
        ensures
            r == match choice {
                Some(a) => a,
                None => Action::PullAndUpdateDependencies,
            },
    {
        match choice {
            Some(a) => a,
            None => Action::PullAndUpdateDependencies,
        }
    }
}

/// An external command that a pipeline runs in the repository.
#[derive(Clone, Copy, Debug, PartialEq, Eq, Structural)]
pub enum Command {
    Pull,
    Update(DependencyManager),
}

pub open spec fn spec_program(c: Command) -> Seq<char> {
    match c {
        Command::Pull => "git"@,
        Command::Update(DependencyManager::Npm) => "npm"@,
        Command::Update(DependencyManager::Yarn) => "yarn"@,
        Command::Update(DependencyManager::Pnpm) => "pnpm"@,
        Command::Update(DependencyManager::Cargo) => "cargo"@,
        Command::Update(DependencyManager::Pipenv) => "pipenv"@,
        Command::Update(DependencyManager::Poetry) => "poetry"@,
        Command::Update(DependencyManager::Pip) => "pip"@,
    }
}

pub open spec fn spec_prefix(c: Command) -> Seq<char> {
    match c {
        Command::Pull => "Git"@,
        Command::Update(DependencyManager::Npm) => "npm"@,
        Command::Update(DependencyManager::Yarn) => "Yarn"@,
        Command::Update(DependencyManager::Pnpm) => "pnpm"@,
        Command::Update(DependencyManager::Cargo) => "Cargo"@,
        Command::Update(DependencyManager::Pipenv) => "Pipenv"@,
        Command::Update(DependencyManager::Poetry) => "Poetry"@,
        Command::Update(DependencyManager::Pip) => "pip"@,
    }
}

pub open spec fn spec_args(c: Command) -> Seq<Seq<char>> {
    match c {
        Command::Pull => seq!["pull"@],
        Command::Update(DependencyManager::Cargo) => seq!["update"@],
        Command::Update(DependencyManager::Poetry) => seq!["update"@],
        Command::Update(DependencyManager::Pip) => seq!["install"@, "-r"@, "requirements.txt"@],
        Command::Update(_) => seq!["install"@],
    }
}

impl Command {
    /// The executable to launch.
    pub fn program(&self) -> (r: &'static str)
        ensures
            r@ == spec_program(*self),
    {
        match self {
            Command::Pull => "git",
            Command::Update(DependencyManager::Npm) => "npm",
            Command::Update(DependencyManager::Yarn) => "yarn",
            Command::Update(DependencyManager::Pnpm) => "pnpm",
            Command::Update(DependencyManager::Cargo) => "cargo",
            Command::Update(DependencyManager::Pipenv) => "pipenv",
            Command::Update(DependencyManager::Poetry) => "poetry",
            Command::Update(DependencyManager::Pip) => "pip",
        }
    }

    /// The logical prefix shown in the tag of each output line.
    pub fn prefix(&self) -> (r: &'static str)
        ensures
            r@ == spec_prefix(*self),
    {
        match self {
            Command::Pull => "Git",
            Command::Update(DependencyManager::Npm) => "npm",
            Command::Update(DependencyManager::Yarn) => "Yarn",
            Command::Update(DependencyManager::Pnpm) => "pnpm",
            Command::Update(DependencyManager::Cargo) => "Cargo",
            Command::Update(DependencyManager::Pipenv) => "Pipenv",
            Command::Update(DependencyManager::Poetry) => "Poetry",
            Command::Update(DependencyManager::Pip) => "pip",
        }
    }

    /// The argument list passed to the executable.
    pub fn args(&self) -> (r: Vec<&'static str>)
        ensures
            r@.len() == spec_args(*self).len(),
            forall|i: int| 0 <= i < r@.len() ==> r@[i]@ == spec_args(*self)[i],
    {
        match self {
            Command::Pull => vec!["pull"],
            Command::Update(DependencyManager::Cargo) => vec!["update"],
            Command::Update(DependencyManager::Poetry) => vec!["update"],
            Command::Update(DependencyManager::Pip) => vec!["install", "-r", "requirements.txt"],
            Command::Update(_) => vec!["install"],
        }
    }
}

/// Where a pipeline stands.
#[derive(Clone, Copy, Debug, PartialEq, Eq, Structural)]
pub enum Stage {
    /// Nothing has run yet.
    Start,
    /// The pull command is running.
    Pulling,
    /// The pull has finished; the marker files are being probed.
    Pulled,
    /// Dependency managers are running one after another.
    Updating,
    /// Every step was attempted; completion has been signalled.
    Done,
}

/// What the driver reports back to the pipeline.
#[derive(Clone, Copy, Debug, PartialEq, Eq, Structural)]
pub enum Event {
    /// The pipeline may start.
    Begin,
    /// The last command that was asked for has ended, successfully or not.
    CommandFinished(bool),
    /// The marker files present in the repository.
    MarkersProbed(Markers),
}

/// What the pipeline asks its driver to do next.
#[derive(Clone, Copy, Debug, PartialEq, Eq, Structural)]
pub enum Directive {
    /// Run this command in the repository and report when it ends.
    Run(Command),
    /// Probe which marker files are present and report them.
    ProbeMarkers,
    /// Send the completion token; where `no_manager` holds, first report
    /// that no dependency manager was recognised.
    Finish { no_manager: bool },
    /// The event does not apply in the current stage; nothing to do.
    Ignore,
}

/// The abstract state of a pipeline.
pub struct PipelineModel {
    pub stage: Stage,
    pub action: Action,
    /// The managers detected for the repository.
    pub queue: Seq<DependencyManager>,
    /// How many of `queue` have been started.
    pub next: nat,
}

impl PipelineModel {
    pub open spec fn wf(self) -> bool {
        &&& self.queue.len() <= 3
        &&& self.next <= self.queue.len()
        &&& self.stage == Stage::Updating ==> 1 <= self.next
    }
}

pub open spec fn initial_model(action: Action) -> PipelineModel {
    PipelineModel { stage: Stage::Start, action, queue: Seq::empty(), next: 0 }
}

/// The transition function: the next state and the directive for an event.
pub open spec fn spec_step(s: PipelineModel, e: Event) -> (PipelineModel, Directive) {
    match (s.stage, e) {
        (Stage::Start, Event::Begin) => (
            PipelineModel { stage: Stage::Pulling, ..s },
            Directive::Run(Command::Pull),
        ),
        (Stage::Pulling, Event::CommandFinished(_)) => if s.action == Action::PullOnly {
            (PipelineModel { stage: Stage::Done, ..s }, Directive::Finish { no_manager: false })
        } else {
            (PipelineModel { stage: Stage::Pulled, ..s }, Directive::ProbeMarkers)
        },
        (Stage::Pulled, Event::MarkersProbed(k)) => {
            let q = spec_detect(k);
            if q.len() == 0 {
                (
                    PipelineModel { stage: Stage::Done, queue: q, next: 0, ..s },
                    Directive::Finish { no_manager: true },
                )
            } else {
                (
                    PipelineModel { stage: Stage::Updating, queue: q, next: 1, ..s },
                    Directive::Run(Command::Update(q[0])),
                )
            }
        },
        (Stage::Updating, Event::CommandFinished(_)) => if s.next < s.queue.len() {
            (
                PipelineModel { next: s.next + 1, ..s },
                Directive::Run(Command::Update(s.queue[s.next as int])),
            )
        } else {
            (PipelineModel { stage: Stage::Done, ..s }, Directive::Finish { no_manager: false })
        },
        _ => (s, Directive::Ignore),
    }
}

/// The pipeline of one repository.
pub struct Pipeline {
    stage: Stage,
    action: Action,
    queue: Vec<DependencyManager>,
    next: usize,
}

impl View for Pipeline {
    type V = PipelineModel;

    closed spec fn view(&self) -> PipelineModel {
        PipelineModel {
            stage: self.stage,
            action: self.action,
            queue: self.queue@,
            next: self.next as nat,
        }
    }
}

impl Pipeline {
    /// A pipeline that has not started.
    pub fn new(action: Action) -> (r: Pipeline)
        ensures
            r@ == initial_model(action),
            r@.wf(),
    {
        let r = Pipeline { stage: Stage::Start, action, queue: Vec::new(), next: 0 };
        assert(r@.queue =~= Seq::<DependencyManager>::empty());
        r
    }

    pub fn stage(&self) -> (r: Stage)
        ensures
            r == self@.stage,
    {
        self.stage
    }

    pub fn action(&self) -> (r: Action)
        ensures
            r == self@.action,
    {
        self.action
    }

    /// Takes one event and returns what to do next.
    pub fn step(&mut self, e: Event) -> (r: Directive)
        requires
            old(self)@.wf(),
        ensures
            final(self)@.wf(),
            (final(self)@, r) == spec_step(old(self)@, e),
    {
        match (self.stage, e) {
            (Stage::Start, Event::Begin) => {
                self.stage = Stage::Pulling;
                Directive::Run(Command::Pull)
            },
            (Stage::Pulling, Event::CommandFinished(_)) => {
                match self.action {
                    Action::PullOnly => {
                        self.stage = Stage::Done;
                        Directive::Finish { no_manager: false }
                    },
                    Action::PullAndUpdateDependencies => {
                        self.stage = Stage::Pulled;
                        Directive::ProbeMarkers
                    },
                }
            },
            (Stage::Pulled, Event::MarkersProbed(k)) => {
                let q = detect(&k);
                if q.len() == 0 {
                    self.queue = q;
                    self.next = 0;
                    self.stage = Stage::Done;
                    Directive::Finish { no_manager: true }
                } else {
                    let m = q[0];
                    self.queue = q;
                    self.next = 1;
                    self.stage = Stage::Updating;
                    Directive::Run(Command::Update(m))
                }
            },
            (Stage::Updating, Event::CommandFinished(_)) => {
                if self.next < self.queue.len() {
                    let m = self.queue[self.next];
                    self.next = self.next + 1;
                    Directive::Run(Command::Update(m))
                } else {
                    self.stage = Stage::Done;
                    Directive::Finish { no_manager: false }
                }
            },
            _ => Directive::Ignore,
        }
    }
}


/// The event that a faithful driver reports for a directive, given the
/// repository's markers and the outcome of the command it ran.
pub open spec fn respond(d: Directive, k: Markers, ok: bool) -> Event {
    match d {
        Directive::ProbeMarkers => Event::MarkersProbed(k),
        _ => Event::CommandFinished(ok),
    }
}

pub open spec fn measure(s: PipelineModel) -> nat {
    match s.stage {
        Stage::Start => 7,
        Stage::Pulling => 6,
        Stage::Pulled => 5,
        Stage::Updating => (s.queue.len() - s.next + 1) as nat,
        Stage::Done => 0,
    }
}

/// The directives a pipeline in state `s` gives when its driver answers each
/// one faithfully, starting with event `e`: commands end with the outcomes
/// taken in turn from `outcomes` (success once they run out).
pub open spec fn drive(s: PipelineModel, e: Event, k: Markers, outcomes: Seq<bool>) -> Seq<Directive>
    decreases measure(s),
{
    if !s.wf() {
        Seq::empty()
    } else {
        let (s2, d) = spec_step(s, e);
        if d is Run || d is ProbeMarkers {
            let ok = if outcomes.len() > 0 { outcomes[0] } else { true };
            let rest = if outcomes.len() > 0 { outcomes.drop_first() } else { outcomes };
            seq![d].add(drive(s2, respond(d, k, ok), k, rest))
        } else {
            seq![d]
        }
    }
}

/// The directives of a whole pipeline run, from a fresh pipeline.
pub open spec fn trace(action: Action, k: Markers, outcomes: Seq<bool>) -> Seq<Directive> {
    drive(initial_model(action), Event::Begin, k, outcomes)
}

pub open spec fn update_directives(q: Seq<DependencyManager>) -> Seq<Directive> {
    q.map_values(|m: DependencyManager| Directive::Run(Command::Update(m)))
}

/// The run that the action and the markers call for: the pull, then (when
/// updating) the probe and one update per detected manager, then completion.
pub open spec fn expected_trace(action: Action, k: Markers) -> Seq<Directive> {
    match action {
        Action::PullOnly => seq![Directive::Run(Command::Pull), Directive::Finish { no_manager: false }],
        Action::PullAndUpdateDependencies => seq![
            Directive::Run(Command::Pull),
            Directive::ProbeMarkers,
        ] + update_directives(spec_detect(k)) + seq![
            Directive::Finish { no_manager: spec_detect(k).len() == 0 },
        ],
    }
}

proof fn lemma_drive_updating(s: PipelineModel, ok: bool, k: Markers, outcomes: Seq<bool>)
    requires
        s.wf(),
        s.stage == Stage::Updating,
    ensures
        drive(s, Event::CommandFinished(ok), k, outcomes) == update_directives(
            s.queue.subrange(s.next as int, s.queue.len() as int),
        ) + seq![Directive::Finish { no_manager: false }],
    decreases s.queue.len() - s.next,
{
    let rest_q = s.queue.subrange(s.next as int, s.queue.len() as int);
    if s.next < s.queue.len() {
        let (s2, d) = spec_step(s, Event::CommandFinished(ok));
        let ok2 = if outcomes.len() > 0 { outcomes[0] } else { true };
        let rest = if outcomes.len() > 0 { outcomes.drop_first() } else { outcomes };
        lemma_drive_updating(s2, ok2, k, rest);
        assert(rest_q =~= seq![s.queue[s.next as int]] + s2.queue.subrange(
            s2.next as int,
            s2.queue.len() as int,
        ));
        assert(update_directives(rest_q) =~= seq![d] + update_directives(
            s2.queue.subrange(s2.next as int, s2.queue.len() as int),
        ));
        assert(drive(s, Event::CommandFinished(ok), k, outcomes) =~= update_directives(rest_q) + seq![
            Directive::Finish { no_manager: false },
        ]);
    } else {
        assert(update_directives(rest_q) =~= Seq::<Directive>::empty());
        assert(drive(s, Event::CommandFinished(ok), k, outcomes) =~= update_directives(rest_q) + seq![
            Directive::Finish { no_manager: false },
        ]);
    }
}

/// A pipeline run gives exactly the directives that the action and the
/// markers call for, whatever the outcomes of its commands: a failed pull
/// does not keep the dependency managers from running.
pub proof fn lemma_trace_exact(action: Action, k: Markers, outcomes: Seq<bool>)
    ensures
        trace(action, k, outcomes) == expected_trace(action, k),
{
    let s0 = initial_model(action);
    let (s1, d1) = spec_step(s0, Event::Begin);
    let o1 = if outcomes.len() > 0 { outcomes[0] } else { true };
    let r1 = if outcomes.len() > 0 { outcomes.drop_first() } else { outcomes };
    let (s2, d2) = spec_step(s1, Event::CommandFinished(o1));
    assert(trace(action, k, outcomes) == seq![d1] + drive(s1, Event::CommandFinished(o1), k, r1));
    if action == Action::PullOnly {
        assert(drive(s1, Event::CommandFinished(o1), k, r1) == seq![d2]);
        assert(trace(action, k, outcomes) =~= expected_trace(action, k));
    } else {
        let o2 = if r1.len() > 0 { r1[0] } else { true };
        let r2 = if r1.len() > 0 { r1.drop_first() } else { r1 };
        assert(drive(s1, Event::CommandFinished(o1), k, r1) == seq![d2] + drive(
            s2,
            Event::MarkersProbed(k),
            k,
            r2,
        ));
        let q = spec_detect(k);
        let (s3, d3) = spec_step(s2, Event::MarkersProbed(k));
        if q.len() == 0 {
            assert(drive(s2, Event::MarkersProbed(k), k, r2) == seq![d3]);
            assert(update_directives(q) =~= Seq::<Directive>::empty());
            assert(trace(action, k, outcomes) =~= expected_trace(action, k));
        } else {
            let o3 = if r2.len() > 0 { r2[0] } else { true };
            let r3 = if r2.len() > 0 { r2.drop_first() } else { r2 };
            assert(drive(s2, Event::MarkersProbed(k), k, r2) == seq![d3] + drive(
                s3,
                Event::CommandFinished(o3),
                k,
                r3,
            ));
            lemma_drive_updating(s3, o3, k, r3);
            assert(update_directives(q) =~= seq![d3] + update_directives(
                s3.queue.subrange(s3.next as int, s3.queue.len() as int),
            ));
            assert(trace(action, k, outcomes) =~= expected_trace(action, k));
        }
    }
}

/// Whatever its commands' outcomes, a pipeline signals completion exactly
/// once, as its last directive, and asks for nothing to be ignored.
pub proof fn lemma_exactly_one_completion(action: Action, k: Markers, outcomes: Seq<bool>)
    ensures
        trace(action, k, outcomes).len() > 0,
        trace(action, k, outcomes).last() is Finish,
        forall|i: int|
            0 <= i < trace(action, k, outcomes).len() - 1 ==> !(trace(action, k, outcomes)[i] is Finish)
                && !(trace(action, k, outcomes)[i] is Ignore),
{
    lemma_trace_exact(action, k, outcomes);
    let t = trace(action, k, outcomes);
    let q = spec_detect(k);
    if action == Action::PullAndUpdateDependencies {
        assert forall|i: int| 0 <= i < t.len() - 1 implies !(t[i] is Finish) && !(t[i] is Ignore) by {
            if i >= 2 {
                assert(t[i] == update_directives(q)[i - 2]);
            }
        }
    }
}

/// Running the pipeline again on a repository with the same markers asks for
/// the same commands in the same order: what runs depends on the action and
/// the markers present, not on earlier runs or on how their commands ended.
pub proof fn lemma_rerun_same_commands(action: Action, k: Markers, first: Seq<bool>, second: Seq<bool>)
    ensures
        trace(action, k, first) == trace(action, k, second),
{
    lemma_trace_exact(action, k, first);
    lemma_trace_exact(action, k, second);
}


/// With the update action, the update command of a manager runs exactly when
/// the markers select it, and never twice: managers of different families all
/// run, and of one family only the first one present does.
pub proof fn lemma_updates_run_once(k: Markers, outcomes: Seq<bool>, m: DependencyManager)
    ensures
        (exists|i: int|
            0 <= i < trace(Action::PullAndUpdateDependencies, k, outcomes).len()
                && trace(Action::PullAndUpdateDependencies, k, outcomes)[i] == Directive::Run(
                Command::Update(m),
            )) <==> k.spec_selects(m),
        forall|i: int, j: int|
            0 <= i < j < trace(Action::PullAndUpdateDependencies, k, outcomes).len()
                && trace(Action::PullAndUpdateDependencies, k, outcomes)[i] == Directive::Run(
                Command::Update(m),
            ) ==> trace(Action::PullAndUpdateDependencies, k, outcomes)[j] != Directive::Run(
                Command::Update(m),
            ),
{
    let a = Action::PullAndUpdateDependencies;
    lemma_trace_exact(a, k, outcomes);
    lemma_detect_selects(k);
    let t = trace(a, k, outcomes);
    let q = spec_detect(k);
    let target = Directive::Run(Command::Update(m));
    assert forall|i: int| 0 <= i < t.len() && t[i] == target implies 2 <= i < t.len() - 1
        && q[i - 2] == m by {
        if 2 <= i < t.len() - 1 {
            assert(t[i] == update_directives(q)[i - 2]);
        }
    }
    if k.spec_selects(m) {
        let j = choose|j: int| 0 <= j < q.len() && q[j] == m;
        assert(t[j + 2] == update_directives(q)[j]);
    }
    if exists|i: int| 0 <= i < t.len() && t[i] == target {
        let i = choose|i: int| 0 <= i < t.len() && t[i] == target;
        assert(q.contains(q[i - 2]));
    }
    assert forall|i: int, j: int| 0 <= i < j < t.len() && t[i] == target implies t[j] != target by {
        if t[j] == target {
            assert(q[i - 2].spec_family() == q[j - 2].spec_family());
        }
    }
}

} // verus!
