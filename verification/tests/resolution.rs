use bridge_lifecycle::candidate::SpawnCandidate;
use bridge_lifecycle::locator::Attempt;
use bridge_lifecycle::resolver::{Action, Resolver};

fn checked_attempt(path: &[u8], program: &[u8]) -> Attempt {
    Attempt {
        check: Some(path.to_vec()),
        resolve: false,
        candidate: SpawnCandidate { program: program.to_vec(), args: Vec::new() },
    }
}

fn unchecked_attempt(program: &[u8]) -> Attempt {
    Attempt {
        check: None,
        resolve: false,
        candidate: SpawnCandidate { program: program.to_vec(), args: Vec::new() },
    }
}

fn resolved_attempt(path: &[u8]) -> Attempt {
    Attempt {
        check: Some(path.to_vec()),
        resolve: true,
        candidate: SpawnCandidate { program: b"node".to_vec(), args: Vec::new() },
    }
}

#[test]
fn first_existing_and_spawnable_strategy_wins() {
    let plan = vec![
        checked_attempt(b"/a", b"pa"),
        checked_attempt(b"/b", b"pb"),
        checked_attempt(b"/c", b"pc"),
    ];
    let mut r = Resolver::new(plan);
    // strategy 0: artifact missing
    assert_eq!(r.next_action(), Action::Probe(0));
    r.note_artifact(false);
    // strategy 1: artifact present, spawn succeeds
    assert_eq!(r.next_action(), Action::Probe(1));
    r.note_artifact(true);
    assert_eq!(r.next_action(), Action::Spawn(1));
    r.note_spawn(true);
    // resolution is over; strategy 2 was never asked about
    assert_eq!(r.next_action(), Action::Done(1));
    assert_eq!(r.attempt(1).candidate.program, b"pb".to_vec());
}

#[test]
fn failed_spawn_falls_through_to_the_next_strategy() {
    let plan = vec![checked_attempt(b"/a", b"pa"), checked_attempt(b"/b", b"pb")];
    let mut r = Resolver::new(plan);
    assert_eq!(r.next_action(), Action::Probe(0));
    r.note_artifact(true);
    assert_eq!(r.next_action(), Action::Spawn(0));
    // artifact existed, but the spawn failed: resolution must continue
    r.note_spawn(false);
    assert_eq!(r.next_action(), Action::Probe(1));
    r.note_artifact(true);
    assert_eq!(r.next_action(), Action::Spawn(1));
    r.note_spawn(true);
    assert_eq!(r.next_action(), Action::Done(1));
}

#[test]
fn unchecked_attempts_spawn_without_probing() {
    let plan = vec![unchecked_attempt(b"echo"), checked_attempt(b"/b", b"pb")];
    let mut r = Resolver::new(plan);
    assert_eq!(r.next_action(), Action::Spawn(0));
    r.note_spawn(true);
    assert_eq!(r.next_action(), Action::Done(0));
    assert_eq!(r.attempt(0).candidate.program, b"echo".to_vec());
}

#[test]
fn exhausted_plan_gives_up() {
    let plan = vec![checked_attempt(b"/a", b"pa"), unchecked_attempt(b"pb")];
    let mut r = Resolver::new(plan);
    assert_eq!(r.next_action(), Action::Probe(0));
    r.note_artifact(false);
    assert_eq!(r.next_action(), Action::Spawn(1));
    r.note_spawn(false);
    assert_eq!(r.next_action(), Action::GiveUp);
}

#[test]
fn spawned_candidate_matches_the_attempt() {
    let plan = vec![checked_attempt(b"/a", b"pa")];
    let mut r = Resolver::new(plan);
    r.note_artifact(true);
    assert_eq!(r.next_action(), Action::Spawn(0));
    let c = r.to_spawn();
    assert_eq!(c.program, b"pa".to_vec());
    assert!(c.args.is_empty());
}

#[test]
fn resolved_artifact_hands_the_interpreter_the_resolved_path() {
    let plan = vec![resolved_attempt(b"bridge/dist/index.cjs")];
    let mut r = Resolver::new(plan);
    assert_eq!(r.next_action(), Action::Resolve(0));
    r.note_resolved(Some(b"/home/dev/bridge/dist/index.cjs".to_vec()));
    assert_eq!(r.next_action(), Action::Spawn(0));
    let c = r.to_spawn();
    assert_eq!(c.program, b"node".to_vec());
    assert_eq!(c.args, vec![b"/home/dev/bridge/dist/index.cjs".to_vec()]);
    r.note_spawn(true);
    assert_eq!(r.next_action(), Action::Done(0));
}

#[test]
fn unresolvable_artifact_falls_through() {
    let plan = vec![resolved_attempt(b"bridge/dist/index.cjs"), unchecked_attempt(b"pb")];
    let mut r = Resolver::new(plan);
    assert_eq!(r.next_action(), Action::Resolve(0));
    r.note_resolved(None);
    assert_eq!(r.next_action(), Action::Spawn(1));
    let c = r.to_spawn();
    assert_eq!(c.program, b"pb".to_vec());
    assert!(c.args.is_empty());
}

#[test]
fn empty_plan_gives_up_at_once() {
    let mut r = Resolver::new(Vec::new());
    assert_eq!(r.next_action(), Action::GiveUp);
    let _ = &mut r;
}
