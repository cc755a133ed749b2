use mpr::manager::{DependencyManager, Markers};
use mpr::orchestrator::CompletionTracker;
use mpr::pipeline::{Action, Command, Directive, Event, Pipeline, Stage};

/// Drives a pipeline to its end, answering each command with the next
/// outcome (success once they run out), and returns every directive given.
fn run(action: Action, k: Markers, outcomes: &[bool]) -> Vec<Directive> {
    let mut p = Pipeline::new(action);
    let mut out = Vec::new();
    let mut event = Event::Begin;
    let mut next_outcome = 0;
    loop {
        let d = p.step(event);
        out.push(d);
        event = match d {
            Directive::Run(_) => {
                let ok = outcomes.get(next_outcome).copied().unwrap_or(true);
                next_outcome += 1;
                Event::CommandFinished(ok)
            }
            Directive::ProbeMarkers => Event::MarkersProbed(k),
            Directive::Finish { .. } | Directive::Ignore => break,
        };
        assert!(out.len() < 20);
    }
    out
}

fn markers_of(present: &[DependencyManager]) -> Markers {
    let mut k = Markers::none();
    for m in present {
        k.insert(*m);
    }
    k
}

fn runs(trace: &[Directive]) -> Vec<Command> {
    trace
        .iter()
        .filter_map(|d| match d {
            Directive::Run(c) => Some(*c),
            _ => None,
        })
        .collect()
}

fn finishes(trace: &[Directive]) -> usize {
    trace.iter().filter(|d| matches!(d, Directive::Finish { .. })).count()
}

#[test]
fn pull_only_runs_pull_then_finishes() {
    let k = markers_of(&[DependencyManager::Npm]);
    let t = run(Action::PullOnly, k, &[true]);
    assert_eq!(
        t,
        vec![Directive::Run(Command::Pull), Directive::Finish { no_manager: false }]
    );
}

#[test]
fn failed_pull_still_updates_dependencies() {
    let k = markers_of(&[DependencyManager::Cargo]);
    let t = run(Action::PullAndUpdateDependencies, k, &[false, false]);
    assert_eq!(
        t,
        vec![
            Directive::Run(Command::Pull),
            Directive::ProbeMarkers,
            Directive::Run(Command::Update(DependencyManager::Cargo)),
            Directive::Finish { no_manager: false },
        ]
    );
}

#[test]
fn no_manager_is_reported() {
    let t = run(Action::PullAndUpdateDependencies, Markers::none(), &[]);
    assert_eq!(
        t,
        vec![
            Directive::Run(Command::Pull),
            Directive::ProbeMarkers,
            Directive::Finish { no_manager: true },
        ]
    );
}

#[test]
fn exactly_one_completion_whatever_the_outcomes() {
    let all = markers_of(&DependencyManager::all());
    for outcomes in [vec![], vec![false; 5], vec![true, false, true, false]] {
        for action in [Action::PullOnly, Action::PullAndUpdateDependencies] {
            for k in [Markers::none(), all] {
                let t = run(action, k, &outcomes);
                assert_eq!(finishes(&t), 1);
                assert!(matches!(t.last(), Some(Directive::Finish { .. })));
            }
        }
    }
}

#[test]
fn npm_and_cargo_each_updated_once() {
    let k = markers_of(&[DependencyManager::Npm, DependencyManager::Cargo]);
    let t = run(Action::PullAndUpdateDependencies, k, &[]);
    assert_eq!(
        runs(&t),
        vec![
            Command::Pull,
            Command::Update(DependencyManager::Npm),
            Command::Update(DependencyManager::Cargo)
        ]
    );
}

#[test]
fn yarn_and_pnpm_only_yarn_updated() {
    let k = markers_of(&[DependencyManager::Yarn, DependencyManager::Pnpm]);
    let t = run(Action::PullAndUpdateDependencies, k, &[]);
    assert_eq!(runs(&t), vec![Command::Pull, Command::Update(DependencyManager::Yarn)]);
}

#[test]
fn rerun_gives_same_commands() {
    let k = markers_of(&[DependencyManager::Pnpm, DependencyManager::Pip]);
    let first = run(Action::PullAndUpdateDependencies, k, &[true, true, true]);
    let second = run(Action::PullAndUpdateDependencies, k, &[false, true, false]);
    assert_eq!(first, second);
}

#[test]
fn events_out_of_stage_are_ignored() {
    let mut p = Pipeline::new(Action::PullAndUpdateDependencies);
    assert_eq!(p.step(Event::CommandFinished(true)), Directive::Ignore);
    assert_eq!(p.stage(), Stage::Start);
    assert_eq!(p.step(Event::Begin), Directive::Run(Command::Pull));
    assert_eq!(p.step(Event::MarkersProbed(Markers::none())), Directive::Ignore);
    assert_eq!(p.stage(), Stage::Pulling);
    assert_eq!(p.step(Event::CommandFinished(true)), Directive::ProbeMarkers);
    assert_eq!(p.step(Event::MarkersProbed(Markers::none())), Directive::Finish { no_manager: true });
    assert_eq!(p.stage(), Stage::Done);
    assert_eq!(p.step(Event::Begin), Directive::Ignore);
    assert_eq!(p.step(Event::CommandFinished(false)), Directive::Ignore);
}

#[test]
fn default_action_is_update() {
    assert_eq!(Action::or_default(None), Action::PullAndUpdateDependencies);
    assert_eq!(Action::or_default(Some(Action::PullOnly)), Action::PullOnly);
    assert_eq!(Action::or_default(Some(Action::PullAndUpdateDependencies)), Action::PullAndUpdateDependencies);
}

#[test]
fn command_invocations() {
    assert_eq!(Command::Pull.program(), "git");
    assert_eq!(Command::Pull.args(), vec!["pull"]);
    assert_eq!(Command::Pull.prefix(), "Git");
    let npm = Command::Update(DependencyManager::Npm);
    assert_eq!((npm.program(), npm.args(), npm.prefix()), ("npm", vec!["install"], "npm"));
    let yarn = Command::Update(DependencyManager::Yarn);
    assert_eq!((yarn.program(), yarn.args(), yarn.prefix()), ("yarn", vec!["install"], "Yarn"));
    let pnpm = Command::Update(DependencyManager::Pnpm);
    assert_eq!((pnpm.program(), pnpm.args(), pnpm.prefix()), ("pnpm", vec!["install"], "pnpm"));
    let cargo = Command::Update(DependencyManager::Cargo);
    assert_eq!((cargo.program(), cargo.args(), cargo.prefix()), ("cargo", vec!["update"], "Cargo"));
    let pipenv = Command::Update(DependencyManager::Pipenv);
    assert_eq!((pipenv.program(), pipenv.args(), pipenv.prefix()), ("pipenv", vec!["install"], "Pipenv"));
    let poetry = Command::Update(DependencyManager::Poetry);
    assert_eq!((poetry.program(), poetry.args(), poetry.prefix()), ("poetry", vec!["update"], "Poetry"));
    let pip = Command::Update(DependencyManager::Pip);
    assert_eq!(
        (pip.program(), pip.args(), pip.prefix()),
        ("pip", vec!["install", "-r", "requirements.txt"], "pip")
    );
}

#[test]
fn two_repositories_scenario() {
    let a = markers_of(&[DependencyManager::Npm]);
    let b = markers_of(&[DependencyManager::Cargo, DependencyManager::Poetry]);
    let mut tracker = CompletionTracker::new();
    tracker.launch();
    tracker.launch();
    tracker.close();
    assert!(!tracker.is_finished());

    // One of B's commands fails; B still completes.
    let tb = run(Action::PullAndUpdateDependencies, b, &[true, false, true]);
    assert_eq!(
        runs(&tb),
        vec![
            Command::Pull,
            Command::Update(DependencyManager::Cargo),
            Command::Update(DependencyManager::Poetry)
        ]
    );
    assert_eq!(finishes(&tb), 1);
    tracker.record_completion();
    assert!(!tracker.is_finished());

    let ta = run(Action::PullAndUpdateDependencies, a, &[]);
    assert_eq!(runs(&ta), vec![Command::Pull, Command::Update(DependencyManager::Npm)]);
    assert_eq!(finishes(&ta), 1);
    tracker.record_completion();
    assert!(tracker.is_finished());
}
