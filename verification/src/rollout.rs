//! Rolling replacement of a backend release: the servers of a group one
//! after another, every project of a server replaced and health-checked
//! before the next server is touched, the first failure or cancellation
//! ending the run with nothing recorded.
//!
//! The caller performs each action (connecting, running the replacement
//! script, checking health, writing the history) and hands back what came
//! of it; the decisions are taken here.

use vstd::prelude::*;
use crate::backend::BackendPlan;

verus! {

/// Where a rolling replacement stands.
#[derive(Clone, Copy, Debug, PartialEq, Eq, Structural)]
pub enum RolloutPhase {
    /// The `project`-th project of the plan is being replaced on the
    /// `server`-th server of the plan.
    Replacing { server: usize, project: usize },
    /// Every server is done and the release is to be recorded.
    Finished,
    /// A failure or a cancellation ended the run.
    Stopped,
}

/// A rolling replacement: its phase and the servers (indices into the
/// configuration) on which every project is done, in the order they were done.
pub struct RolloutState {
    pub phase: RolloutPhase,
    pub deployed: Vec<usize>,
}

/// What the last action came to.
#[derive(Clone, Copy, Debug, PartialEq, Eq, Structural)]
pub enum RolloutEvent {
    /// The project was replaced and passed its health check.
    Replaced,
    /// Its connection, its script or its health check failed.
    Failed,
    /// The task was cancelled.
    Cancelled,
}

/// What the caller does next.
pub enum RolloutAction {
    /// Replace project `project` (an index into the group's projects) on
    /// server `server` (an index into the configuration), the
    /// `position`-th server of the run.
    Replace { position: usize, server: usize, project: usize },
    /// Record the release as deployed on these servers, in this order.
    Record { servers: Vec<usize> },
    /// End the run without recording anything.
    Stop,
    /// The run is already over.
    Idle,
}

/// An action as a mathematical value.
pub enum RolloutStep {
    Replace { position: usize, server: usize, project: usize },
    Record { servers: Seq<usize> },
    Stop,
    Idle,
}

impl View for RolloutAction {
    type V = RolloutStep;

    open spec fn view(&self) -> RolloutStep {
        match self {
            RolloutAction::Replace { position, server, project } => RolloutStep::Replace {
                position: *position,
                server: *server,
                project: *project,
            },
            RolloutAction::Record { servers } => RolloutStep::Record { servers: servers@ },
            RolloutAction::Stop => RolloutStep::Stop,
            RolloutAction::Idle => RolloutStep::Idle,
        }
    }
}

/// The action that replaces the `project`-th project of the plan on its
/// `position`-th server.
pub open spec fn replace_step(servers: Seq<usize>, projects: Seq<usize>, position: int, project: int) -> RolloutStep {
    RolloutStep::Replace { position: position as usize, server: servers[position], project: projects[project] }
}

/// How a run starts: with the first project on the first server; a plan
/// without servers or without projects has nothing to replace and records
/// its servers at once.
pub open spec fn spec_rollout_start(servers: Seq<usize>, projects: Seq<usize>) -> (RolloutPhase, Seq<usize>, RolloutStep) {
    if servers.len() == 0 || projects.len() == 0 {
        (RolloutPhase::Finished, servers, RolloutStep::Record { servers })
    } else {
        (RolloutPhase::Replacing { server: 0, project: 0 }, Seq::empty(), replace_step(servers, projects, 0, 0))
    }
}

/// One step of a run. After a replaced project comes the next project on
/// the same server; after the last project of a server, that server counts
/// as deployed and the next server starts with the first project; after the
/// last server the deployed servers are recorded. A failure or a
/// cancellation stops the run and records nothing. Once the run is over
/// nothing more happens. (A phase that names no project of the plan stops.)
pub open spec fn spec_rollout_step(
    servers: Seq<usize>,
    projects: Seq<usize>,
    phase: RolloutPhase,
    deployed: Seq<usize>,
    event: RolloutEvent,
) -> (RolloutPhase, Seq<usize>, RolloutStep) {
    match phase {
        RolloutPhase::Replacing { server, project } => {
            if server >= servers.len() || project >= projects.len() || event != RolloutEvent::Replaced {
                (RolloutPhase::Stopped, deployed, RolloutStep::Stop)
            } else if project + 1 < projects.len() {
                (
                    RolloutPhase::Replacing { server, project: (project + 1) as usize },
                    deployed,
                    replace_step(servers, projects, server as int, project + 1),
                )
            } else {
                let done = deployed.push(servers[server as int]);
                if server + 1 < servers.len() {
                    (
                        RolloutPhase::Replacing { server: (server + 1) as usize, project: 0 },
                        done,
                        replace_step(servers, projects, server + 1, 0),
                    )
                } else {
                    (RolloutPhase::Finished, done, RolloutStep::Record { servers: done })
                }
            }
        },
        _ => (phase, deployed, RolloutStep::Idle),
    }
}

/// A state that a run can reach: while replacing, the servers before the
/// current one are deployed; when finished, all of them; when stopped, the
/// servers before the one that failed.
pub open spec fn rollout_wf(servers: Seq<usize>, projects: Seq<usize>, phase: RolloutPhase, deployed: Seq<usize>) -> bool {
    &&& servers.len() <= usize::MAX
    &&& projects.len() <= usize::MAX
    &&& match phase {
        RolloutPhase::Replacing { server, project } => {
            &&& server < servers.len()
            &&& project < projects.len()
            &&& deployed == servers.take(server as int)
        },
        RolloutPhase::Finished => deployed == servers,
        RolloutPhase::Stopped => deployed.len() <= servers.len() && deployed == servers.take(deployed.len() as int),
    }
}

impl RolloutState {
    /// The state is one that a run of `plan` can reach.
    pub open spec fn wf(&self, plan: &BackendPlan) -> bool {
        rollout_wf(plan.servers@, plan.projects@, self.phase, self.deployed@)
    }
}

fn copy_indices(v: &Vec<usize>) -> (r: Vec<usize>)
    ensures
        r@ == v@,
{
    let mut out: Vec<usize> = Vec::new();
    let mut i: usize = 0;
    while i < v.len()
        invariant
            i <= v@.len(),
            out@ == v@.take(i as int),
        decreases v.len() - i,
    {
        out.push(v[i]);
        i = i + 1;
        assert(out@ =~= v@.take(i as int));
    }
    assert(v@.take(v@.len() as int) =~= v@);
    out
}

/// Starts the rolling replacement of a plan.
pub fn rollout_start(plan: &BackendPlan) -> (r: (RolloutState, RolloutAction))
    ensures
        (r.0.phase, r.0.deployed@, r.1@) == spec_rollout_start(plan.servers@, plan.projects@),
        r.0.wf(plan),
{
    let ns = plan.servers.len();
    let np = plan.projects.len();
    if ns == 0 || np == 0 {
        let state = RolloutState { phase: RolloutPhase::Finished, deployed: copy_indices(&plan.servers) };
        let action = RolloutAction::Record { servers: copy_indices(&plan.servers) };
        (state, action)
    } else {
        let state = RolloutState { phase: RolloutPhase::Replacing { server: 0, project: 0 }, deployed: Vec::new() };
        assert(state.deployed@ =~= plan.servers@.take(0));
        let action = RolloutAction::Replace { position: 0, server: plan.servers[0], project: plan.projects[0] };
        (state, action)
    }
}

/// Takes the next decision of a run from what the last action came to.
pub fn rollout_step(plan: &BackendPlan, state: RolloutState, event: RolloutEvent) -> (r: (RolloutState, RolloutAction))
    ensures
        (r.0.phase, r.0.deployed@, r.1@) == spec_rollout_step(plan.servers@, plan.projects@, state.phase, state.deployed@, event),
        state.wf(plan) ==> r.0.wf(plan),
{
    let ns = plan.servers.len();
    let np = plan.projects.len();
    match state.phase {
        RolloutPhase::Replacing { server, project } => {
            if server >= ns || project >= np || event != RolloutEvent::Replaced {
                (RolloutState { phase: RolloutPhase::Stopped, deployed: state.deployed }, RolloutAction::Stop)
            } else if project + 1 < np {
                let next = project + 1;
                let action = RolloutAction::Replace { position: server, server: plan.servers[server], project: plan.projects[next] };
                (RolloutState { phase: RolloutPhase::Replacing { server, project: next }, deployed: state.deployed }, action)
            } else {
                let mut done = state.deployed;
                done.push(plan.servers[server]);
                proof {
                    if state.wf(plan) {
                        assert(done@ =~= plan.servers@.take(server + 1));
                    }
                }
                if server + 1 < ns {
                    let next = server + 1;
                    let action = RolloutAction::Replace { position: next, server: plan.servers[next], project: plan.projects[0] };
                    (RolloutState { phase: RolloutPhase::Replacing { server: next, project: 0 }, deployed: done }, action)
                } else {
                    proof {
                        if state.wf(plan) {
                            assert(plan.servers@.take(server + 1) =~= plan.servers@);
                        }
                    }
                    let action = RolloutAction::Record { servers: copy_indices(&done) };
                    (RolloutState { phase: RolloutPhase::Finished, deployed: done }, action)
                }
            }
        },
        _ => (state, RolloutAction::Idle),
    }
}

// ---------------------------------------------------------------------
// What every run keeps
// ---------------------------------------------------------------------

/// A run starts in a state that a run can reach.
pub proof fn lemma_rollout_start_wf(servers: Seq<usize>, projects: Seq<usize>)
    requires
        servers.len() <= usize::MAX,
        projects.len() <= usize::MAX,
    ensures
        rollout_wf(servers, projects, spec_rollout_start(servers, projects).0, spec_rollout_start(servers, projects).1),
{
    assert(servers.take(0) =~= Seq::<usize>::empty());
}

/// Every step leads from a reachable state to a reachable state.
pub proof fn lemma_rollout_step_wf(
    servers: Seq<usize>,
    projects: Seq<usize>,
    phase: RolloutPhase,
    deployed: Seq<usize>,
    event: RolloutEvent,
)
    requires
        rollout_wf(servers, projects, phase, deployed),
    ensures
        ({
            let next = spec_rollout_step(servers, projects, phase, deployed, event);
            rollout_wf(servers, projects, next.0, next.1)
        }),
{
    if let RolloutPhase::Replacing { server, project } = phase {
        if event == RolloutEvent::Replaced && project + 1 >= projects.len() {
            assert(deployed.push(servers[server as int]) =~= servers.take(server + 1));
            if server + 1 >= servers.len() {
                assert(servers.take(server + 1) =~= servers);
            }
        }
    }
}

/// A server is touched only once every project on the server before it has
/// been replaced and health-checked: an action on another server than the
/// current one follows the last project of the current server, and every
/// server before the new one counts as deployed.
pub proof fn lemma_next_server_only_after_all_projects(
    servers: Seq<usize>,
    projects: Seq<usize>,
    phase: RolloutPhase,
    deployed: Seq<usize>,
    event: RolloutEvent,
)
    requires
        rollout_wf(servers, projects, phase, deployed),
    ensures
        ({
            let next = spec_rollout_step(servers, projects, phase, deployed, event);
            next.2 matches RolloutStep::Replace { position, .. } ==> {
                &&& event == RolloutEvent::Replaced
                &&& phase matches RolloutPhase::Replacing { server, project }
                &&& (position == server && project + 1 < projects.len()) || (position == server + 1
                    && project + 1 == projects.len() && next.1 == servers.take(position as int))
            }
        }),
{
    lemma_rollout_step_wf(servers, projects, phase, deployed, event);
}

/// A failure or a cancellation stops the run where it is: the servers done
/// so far stay as they were and nothing is recorded.
pub proof fn lemma_failure_stops(
    servers: Seq<usize>,
    projects: Seq<usize>,
    server: usize,
    project: usize,
    deployed: Seq<usize>,
    event: RolloutEvent,
)
    requires
        event != RolloutEvent::Replaced,
    ensures
        spec_rollout_step(servers, projects, RolloutPhase::Replacing { server, project }, deployed, event) == (
            RolloutPhase::Stopped,
            deployed,
            RolloutStep::Stop,
        ),
{
}

/// Once a run is over, whether finished or stopped, it stays over and
/// neither replaces nor records anything more.
pub proof fn lemma_over_stays_over(
    servers: Seq<usize>,
    projects: Seq<usize>,
    phase: RolloutPhase,
    deployed: Seq<usize>,
    event: RolloutEvent,
)
    requires
        phase == RolloutPhase::Finished || phase == RolloutPhase::Stopped,
    ensures
        spec_rollout_step(servers, projects, phase, deployed, event) == (phase, deployed, RolloutStep::Idle),
{
}

/// What a run records is every server of the plan, in the plan's order.
pub proof fn lemma_record_lists_every_server(
    servers: Seq<usize>,
    projects: Seq<usize>,
    phase: RolloutPhase,
    deployed: Seq<usize>,
    event: RolloutEvent,
)
    requires
        rollout_wf(servers, projects, phase, deployed),
    ensures
        spec_rollout_start(servers, projects).2 matches RolloutStep::Record { servers: s } ==> s == servers,
        spec_rollout_step(servers, projects, phase, deployed, event).2 matches RolloutStep::Record { servers: s } ==> s
            == servers,
{
    lemma_rollout_step_wf(servers, projects, phase, deployed, event);
}

/// A run in which every project is replaced: the state after `n` steps.
pub open spec fn rollout_after(servers: Seq<usize>, projects: Seq<usize>, n: nat) -> (RolloutPhase, Seq<usize>, RolloutStep)
    decreases n,
{
    if n == 0 {
        spec_rollout_start(servers, projects)
    } else {
        let before = rollout_after(servers, projects, (n - 1) as nat);
        spec_rollout_step(servers, projects, before.0, before.1, RolloutEvent::Replaced)
    }
}

/// When nothing fails, the `p`-th project of the `s`-th server is replaced
/// at step `s * projects + p`, the servers before it all deployed.
pub proof fn lemma_run_position(servers: Seq<usize>, projects: Seq<usize>, s: nat, p: nat)
    requires
        servers.len() <= usize::MAX,
        projects.len() <= usize::MAX,
        s < servers.len(),
        p < projects.len(),
    ensures
        rollout_after(servers, projects, s * projects.len() + p) == (
            RolloutPhase::Replacing { server: s as usize, project: p as usize },
            servers.take(s as int),
            replace_step(servers, projects, s as int, p as int),
        ),
    decreases s, p,
{
    let np = projects.len();
    if p > 0 {
        lemma_run_position(servers, projects, s, (p - 1) as nat);
        assert(s * np + p == (s * np + (p - 1)) + 1);
    } else if s > 0 {
        lemma_run_position(servers, projects, (s - 1) as nat, (np - 1) as nat);
        assert((s - 1) * np + (np - 1) + 1 == s * np) by (nonlinear_arith)
            requires
                s > 0,
                np > 0,
        ;
        assert(servers.take(s - 1).push(servers[s - 1]) =~= servers.take(s as int));
    } else {
        assert(s * np + p == 0) by (nonlinear_arith)
            requires
                s == 0,
                p == 0,
        ;
        assert(servers.take(0) =~= Seq::<usize>::empty());
    }
}

/// When nothing fails, every project is replaced on every server, one
/// server after another, and the run then records every server of the plan
/// in order.
pub proof fn lemma_run_records_every_server(servers: Seq<usize>, projects: Seq<usize>)
    requires
        servers.len() <= usize::MAX,
        projects.len() <= usize::MAX,
        servers.len() > 0,
        projects.len() > 0,
    ensures
        rollout_after(servers, projects, servers.len() * projects.len()) == (
            RolloutPhase::Finished,
            servers,
            RolloutStep::Record { servers },
        ),
{
    let ns = servers.len();
    let np = projects.len();
    lemma_run_position(servers, projects, (ns - 1) as nat, (np - 1) as nat);
    assert((ns - 1) * np + (np - 1) + 1 == ns * np) by (nonlinear_arith)
        requires
            ns > 0,
            np > 0,
    ;
    assert(servers.take(ns - 1).push(servers[ns - 1]) =~= servers);
}

// ---------------------------------------------------------------------
// Health checks
// ---------------------------------------------------------------------

/// What follows a health check attempt.
#[derive(Clone, Copy, Debug, PartialEq, Eq, Structural)]
pub enum HealthStep {
    /// The site answered: the project is done.
    Passed,
    /// Wait and try again.
    Retry,
    /// The last attempt failed: the project failed.
    Failed,
}

/// Decides after the `attempt`-th of `attempts` health checks (counted from 1).
pub fn health_step(attempt: u32, attempts: u32, passed: bool) -> (r: HealthStep)
    ensures
        passed ==> r == HealthStep::Passed,
        !passed && attempt < attempts ==> r == HealthStep::Retry,
        !passed && attempt >= attempts ==> r == HealthStep::Failed,
{
    if passed {
        HealthStep::Passed
    } else if attempt < attempts {
        HealthStep::Retry
    } else {
        HealthStep::Failed
    }
}

} // verus!
