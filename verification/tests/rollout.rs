use kurumi_deploy::backend::BackendPlan;
use kurumi_deploy::config::CopyMode;
use kurumi_deploy::rollout::{health_step, rollout_start, rollout_step, HealthStep, RolloutAction, RolloutEvent, RolloutPhase, RolloutState};

fn plan(servers: Vec<usize>, projects: Vec<usize>) -> BackendPlan {
    BackendPlan { group: 0, projects, release_name: "r".into(), copy_mode: CopyMode::Smb, servers }
}

fn replace_of(a: &RolloutAction) -> (usize, usize, usize) {
    match a {
        RolloutAction::Replace { position, server, project } => (*position, *server, *project),
        _ => panic!("expected a replacement"),
    }
}

#[test]
fn servers_one_after_another() {
    let p = plan(vec![4, 7], vec![1, 0]);
    let (mut state, mut action) = rollout_start(&p);
    let mut seen = vec![];
    while let RolloutAction::Replace { .. } = action {
        seen.push(replace_of(&action));
        let (s, a) = rollout_step(&p, state, RolloutEvent::Replaced);
        state = s;
        action = a;
    }
    assert_eq!(seen, vec![(0, 4, 1), (0, 4, 0), (1, 7, 1), (1, 7, 0)]);
    match &action {
        RolloutAction::Record { servers } => assert_eq!(servers, &vec![4, 7]),
        _ => panic!("expected the release to be recorded"),
    }
    assert_eq!(state.phase, RolloutPhase::Finished);
    assert_eq!(state.deployed, vec![4, 7]);
    let (state, action) = rollout_step(&p, state, RolloutEvent::Replaced);
    assert!(matches!(action, RolloutAction::Idle));
    assert_eq!(state.phase, RolloutPhase::Finished);
}

#[test]
fn a_failure_stops_without_recording() {
    let p = plan(vec![4, 7], vec![1, 0]);
    let (state, _) = rollout_start(&p);
    let (state, _) = rollout_step(&p, state, RolloutEvent::Replaced);
    let (state, action) = rollout_step(&p, state, RolloutEvent::Replaced);
    assert_eq!(replace_of(&action), (1, 7, 1));
    assert_eq!(state.deployed, vec![4]);
    let (state, action) = rollout_step(&p, state, RolloutEvent::Failed);
    assert!(matches!(action, RolloutAction::Stop));
    assert_eq!(state.phase, RolloutPhase::Stopped);
    assert_eq!(state.deployed, vec![4]);
    for event in [RolloutEvent::Replaced, RolloutEvent::Failed, RolloutEvent::Cancelled] {
        let (again, action) = rollout_step(&p, copy(&state), event);
        assert!(matches!(action, RolloutAction::Idle));
        assert_eq!(again.phase, RolloutPhase::Stopped);
    }
}

#[test]
fn cancelling_on_the_first_project_stops_at_once() {
    let p = plan(vec![3], vec![0, 1, 2]);
    let (state, action) = rollout_start(&p);
    assert_eq!(replace_of(&action), (0, 3, 0));
    let (state, action) = rollout_step(&p, state, RolloutEvent::Cancelled);
    assert!(matches!(action, RolloutAction::Stop));
    assert!(state.deployed.is_empty());
}

#[test]
fn a_plan_without_projects_records_at_once() {
    let p = plan(vec![2, 5], vec![]);
    let (state, action) = rollout_start(&p);
    match action {
        RolloutAction::Record { servers } => assert_eq!(servers, vec![2, 5]),
        _ => panic!("expected the release to be recorded"),
    }
    assert_eq!(state.phase, RolloutPhase::Finished);
}

#[test]
fn health_attempt_outcomes() {
    assert_eq!(health_step(1, 10, true), HealthStep::Passed);
    assert_eq!(health_step(10, 10, true), HealthStep::Passed);
    assert_eq!(health_step(1, 10, false), HealthStep::Retry);
    assert_eq!(health_step(9, 10, false), HealthStep::Retry);
    assert_eq!(health_step(10, 10, false), HealthStep::Failed);
    assert_eq!(health_step(1, 1, false), HealthStep::Failed);
}

fn copy(s: &RolloutState) -> RolloutState {
    RolloutState { phase: s.phase, deployed: s.deployed.clone() }
}
