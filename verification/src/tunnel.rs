//! Local port-forwarding tunnels: the checks made before a tunnel starts,
//! and the supervisor that reconnects a dropped session with exponential
//! back-off (capped at 30 seconds) and reports its status.

use vstd::prelude::*;
use crate::config::{
    check_hosts, spec_is_placeholder_host, is_placeholder_host, validate_server_hosts, AppConfig,
    TunnelConfig,
};
use crate::text::{decimal, owned, push_decimal, str_eq, str_trim, string_of, trim};
use vstd::arithmetic::power2::{lemma2_to64, lemma_pow2_strictly_increases, pow2};

verus! {

/// Status of a tunnel as shown to the user.
#[derive(Clone, Debug)]
pub struct TunnelStatusInfo {
    pub id: String,
    /// connecting / active / reconnecting / stopped / error
    pub state: String,
    pub message: String,
    pub active_connections: u64,
    pub total_reconnects: u64,
}

/// The status of a configured tunnel that is not running.
pub fn stopped_status(id: &str) -> (r: TunnelStatusInfo)
    ensures
        r.id@ == id@,
        r.state@ == "stopped"@,
        r.message@.len() == 0,
        r.active_connections == 0,
        r.total_reconnects == 0,
{
    TunnelStatusInfo { id: owned(id), state: owned("stopped"), message: String::new(), active_connections: 0, total_reconnects: 0 }
}

// ---------------------------------------------------------------------
// Before starting
// ---------------------------------------------------------------------

/// Index of the tunnel with the given id; its absence is reported as
/// "找不到隧道配置: <id>".
pub fn find_tunnel(tunnels: &Vec<TunnelConfig>, id: &str) -> (r: Result<usize, String>)
    ensures
        match r {
            Ok(i) => i < tunnels@.len() && tunnels@[i as int].id@ == id@
                && forall|j: int| 0 <= j < i ==> tunnels@[j].id@ != id@,
            Err(e) => e@ == "找不到隧道配置: "@ + id@ && forall|j: int| 0 <= j < tunnels@.len() ==> tunnels@[j].id@ != id@,
        },
{
    let mut i: usize = 0;
    while i < tunnels.len()
        invariant
            i <= tunnels@.len(),
            forall|j: int| 0 <= j < i ==> tunnels@[j].id@ != id@,
        decreases tunnels.len() - i,
    {
        if str_eq(tunnels[i].id.as_str(), id) {
            return Ok(i);
        }
        i = i + 1;
    }
    let mut msg = owned("找不到隧道配置: ");
    msg.append(id);
    Err(msg)
}

/// Why a tunnel is not started: the hosts on the way to its server are not
/// configured, or its remote host is a placeholder.
pub open spec fn tunnel_precheck_error(config: AppConfig, tunnel: TunnelConfig) -> Option<Seq<char>> {
    match check_hosts(config, tunnel.via_server_id@, 0) {
        Err(reason) => Some(reason),
        Ok(()) => if spec_is_placeholder_host(tunnel.remote_host@) {
            Some("远端地址未配置（"@ + trim(tunnel.remote_host@) + "）"@)
        } else {
            None
        },
    }
}

/// Checks a tunnel's configuration before it binds its local port.
pub fn tunnel_precheck(config: &AppConfig, tunnel: &TunnelConfig) -> (r: Result<(), String>)
    ensures
        match r {
            Ok(()) => tunnel_precheck_error(*config, *tunnel) is None,
            Err(e) => tunnel_precheck_error(*config, *tunnel) == Some(e@),
        },
{
    match validate_server_hosts(config, tunnel.via_server_id.as_str()) {
        Ok(()) => {},
        Err(e) => return Err(e),
    }
    if is_placeholder_host(tunnel.remote_host.as_str()) {
        let t = str_trim(tunnel.remote_host.as_str());
        let mut msg = owned("远端地址未配置（");
        let ts = string_of(t.as_slice());
        msg.append(ts.as_str());
        msg.append("）");
        return Err(msg);
    }
    Ok(())
}

// ---------------------------------------------------------------------
// Supervision
// ---------------------------------------------------------------------

/// Seconds to wait after the first failed connection.
pub const INITIAL_BACKOFF_SECS: u64 = 2;
/// Longest wait between connection attempts.
pub const MAX_BACKOFF_SECS: u64 = 30;

/// The wait after a failure: double the previous one, at most 30 seconds.
pub open spec fn spec_next_backoff(secs: u64) -> u64 {
    if secs * 2 <= 30 { (secs * 2) as u64 } else { 30 }
}

pub fn next_backoff(secs: u64) -> (r: u64)
    ensures
        r == spec_next_backoff(secs),
{
    if secs <= 15 {
        secs * 2
    } else {
        MAX_BACKOFF_SECS
    }
}

/// What the supervisor reports to the user.
#[derive(Clone, Debug)]
pub struct TunnelReport {
    pub state: String,
    pub message: String,
    pub active_connections: u64,
    pub total_reconnects: u64,
}

/// State of a tunnel's supervisor.
pub struct TunnelSupervisor {
    pub reconnects: u64,
    pub backoff_secs: u64,
    /// Active connection count last reported while the session is up.
    pub last_reported_active: Option<u64>,
}

/// What to do after a periodic check of an established session.
pub enum HealthOutcome {
    /// The session closed: report and connect again.
    Reconnect(TunnelReport),
    /// The number of forwarded connections changed: report it.
    Report(TunnelReport),
    /// Nothing to report.
    Quiet,
}

pub open spec fn forward_text(local_port: u16, remote_host: Seq<char>, remote_port: u16) -> Seq<char> {
    "127.0.0.1:"@ + decimal(local_port as nat) + " -> "@ + remote_host + ":"@ + decimal(remote_port as nat)
}

fn forward_text_exec(local_port: u16, remote_host: &str, remote_port: u16) -> (r: String)
    ensures
        r@ == forward_text(local_port, remote_host@, remote_port),
{
    let mut s = owned("127.0.0.1:");
    push_decimal(&mut s, local_port as u64);
    s.append(" -> ");
    s.append(remote_host);
    s.append(":");
    push_decimal(&mut s, remote_port as u64);
    s
}

pub open spec fn saturating_inc(n: u64) -> u64 {
    if n < u64::MAX { (n + 1) as u64 } else { n }
}

impl TunnelSupervisor {
    pub open spec fn wf(&self) -> bool {
        INITIAL_BACKOFF_SECS <= self.backoff_secs <= MAX_BACKOFF_SECS
    }

    /// A supervisor that has not tried to connect yet.
    pub fn new() -> (r: TunnelSupervisor)
        ensures
            r.wf(),
            r.reconnects == 0,
            r.backoff_secs == INITIAL_BACKOFF_SECS,
            r.last_reported_active is None,
    {
        TunnelSupervisor { reconnects: 0, backoff_secs: INITIAL_BACKOFF_SECS, last_reported_active: None }
    }

    /// Report made before each connection attempt.
    pub fn connecting_report(&self, via_server_id: &str, active: u64) -> (r: TunnelReport)
        ensures
            r.state@ == "connecting"@,
            r.message@ == "正在连接经由服务器 "@ + via_server_id@,
            r.active_connections == active,
            r.total_reconnects == self.reconnects,
    {
        let mut message = owned("正在连接经由服务器 ");
        message.append(via_server_id);
        TunnelReport { state: owned("connecting"), message, active_connections: active, total_reconnects: self.reconnects }
    }

    /// A connection attempt failed: one more reconnect is counted, the
    /// report names the error and the wait, and the next wait doubles (at
    /// most 30 s). Returns the report and the seconds to wait now.
    pub fn on_connect_failed(&mut self, error: &str, active: u64) -> (r: (TunnelReport, u64))
        requires
            old(self).wf(),
        ensures
            final(self).wf(),
            final(self).reconnects == saturating_inc(old(self).reconnects),
            final(self).backoff_secs == spec_next_backoff(old(self).backoff_secs),
            final(self).last_reported_active == old(self).last_reported_active,
            r.1 == old(self).backoff_secs,
            r.0.state@ == "reconnecting"@,
            r.0.message@ == "连接失败: "@ + error@ + "，"@ + decimal(old(self).backoff_secs as nat) + " 秒后重试"@,
            r.0.active_connections == active,
            r.0.total_reconnects == final(self).reconnects,
    {
        self.reconnects = self.reconnects.saturating_add(1);
        let wait = self.backoff_secs;
        let mut message = owned("连接失败: ");
        message.append(error);
        message.append("，");
        push_decimal(&mut message, wait);
        message.append(" 秒后重试");
        self.backoff_secs = next_backoff(wait);
        (TunnelReport { state: owned("reconnecting"), message, active_connections: active, total_reconnects: self.reconnects }, wait)
    }

    /// The session is up: the back-off starts over and the forwarding is
    /// reported active.
    pub fn on_connected(&mut self, tunnel: &TunnelConfig, active: u64) -> (r: TunnelReport)
        requires
            old(self).wf(),
        ensures
            final(self).wf(),
            final(self).reconnects == old(self).reconnects,
            final(self).backoff_secs == INITIAL_BACKOFF_SECS,
            final(self).last_reported_active is None,
            r.state@ == "active"@,
            r.message@ == forward_text(tunnel.local_port, tunnel.remote_host@, tunnel.remote_port),
            r.active_connections == active,
            r.total_reconnects == old(self).reconnects,
    {
        self.backoff_secs = INITIAL_BACKOFF_SECS;
        self.last_reported_active = None;
        let message = forward_text_exec(tunnel.local_port, tunnel.remote_host.as_str(), tunnel.remote_port);
        TunnelReport { state: owned("active"), message, active_connections: active, total_reconnects: self.reconnects }
    }

    /// A periodic check of the session: a closed session counts a reconnect;
    /// otherwise a change in the number of forwarded connections is reported.
    pub fn on_health_check(&mut self, closed: bool, tunnel: &TunnelConfig, active: u64) -> (r: HealthOutcome)
        requires
            old(self).wf(),
        ensures
            final(self).wf(),
            final(self).backoff_secs == old(self).backoff_secs,
            closed ==> final(self).reconnects == saturating_inc(old(self).reconnects) && match r {
                HealthOutcome::Reconnect(report) => report.state@ == "reconnecting"@
                    && report.message@ == "SSH 会话断开，准备重连"@
                    && report.active_connections == active
                    && report.total_reconnects == final(self).reconnects,
                _ => false,
            },
            !closed ==> final(self).reconnects == old(self).reconnects && final(self).last_reported_active == Some(active) && if old(self).last_reported_active != Some(active) {
                match r {
                    HealthOutcome::Report(report) => report.state@ == "active"@
                        && report.message@ == forward_text(tunnel.local_port, tunnel.remote_host@, tunnel.remote_port)
                        && report.active_connections == active
                        && report.total_reconnects == old(self).reconnects,
                    _ => false,
                }
            } else {
                r is Quiet
            },
    {
        if closed {
            self.reconnects = self.reconnects.saturating_add(1);
            return HealthOutcome::Reconnect(TunnelReport {
                state: owned("reconnecting"),
                message: owned("SSH 会话断开，准备重连"),
                active_connections: active,
                total_reconnects: self.reconnects,
            });
        }
        let changed = match self.last_reported_active {
            Some(last) => last != active,
            None => true,
        };
        self.last_reported_active = Some(active);
        if changed {
            let message = forward_text_exec(tunnel.local_port, tunnel.remote_host.as_str(), tunnel.remote_port);
            HealthOutcome::Report(TunnelReport { state: owned("active"), message, active_connections: active, total_reconnects: self.reconnects })
        } else {
            HealthOutcome::Quiet
        }
    }

    /// The report made when the supervisor stops.
    pub fn stopped_report(&self) -> (r: TunnelReport)
        ensures
            r.state@ == "stopped"@,
            r.message@ == "已停止"@,
            r.active_connections == 0,
            r.total_reconnects == self.reconnects,
    {
        TunnelReport { state: owned("stopped"), message: owned("已停止"), active_connections: 0, total_reconnects: self.reconnects }
    }
}

/// However many failures come in a row, the wait between attempts stays
/// between 2 and 30 seconds, and never shrinks until a connection succeeds.
pub proof fn lemma_backoff_bounded(secs: u64)
    requires
        INITIAL_BACKOFF_SECS <= secs <= MAX_BACKOFF_SECS,
    ensures
        INITIAL_BACKOFF_SECS <= spec_next_backoff(secs) <= MAX_BACKOFF_SECS,
        secs <= spec_next_backoff(secs),
        secs >= 15 ==> spec_next_backoff(secs) == MAX_BACKOFF_SECS,
{
}

/// The wait reported by the `k+1`-th failed attempt in a row, counted from a
/// new supervisor or from the last successful connection.
pub open spec fn backoff_after(k: nat) -> u64
    decreases k,
{
    if k == 0 {
        INITIAL_BACKOFF_SECS
    } else {
        spec_next_backoff(backoff_after((k - 1) as nat))
    }
}

/// Failed attempts in a row wait 2, 4, 8, 16 and then 30 seconds each
/// time: the `k+1`-th waits 2^(k+1) seconds, at most 30.
pub proof fn lemma_backoff_sequence(k: nat)
    ensures
        backoff_after(k) == (if pow2(k + 1) <= 30 { pow2(k + 1) } else { 30 }),
    decreases k,
{
    lemma2_to64();
    if k > 4 {
        lemma_pow2_strictly_increases(5, k + 1);
    }
    if k > 0 {
        lemma_backoff_sequence((k - 1) as nat);
        if k > 5 {
            lemma_pow2_strictly_increases(5, k);
        }
    }
}

/// Positions, in configuration order, of the tunnels that start with the
/// application.
pub open spec fn auto_start_positions(tunnels: Seq<TunnelConfig>) -> Seq<int>
    decreases tunnels.len(),
{
    if tunnels.len() == 0 {
        Seq::empty()
    } else {
        let rest = auto_start_positions(tunnels.drop_last());
        if tunnels.last().auto_start { rest.push(tunnels.len() - 1) } else { rest }
    }
}

pub fn auto_start_tunnels(tunnels: &Vec<TunnelConfig>) -> (r: Vec<usize>)
    ensures
        crate::backend::as_ints(r@) == auto_start_positions(tunnels@),
        forall|k: int| 0 <= k < r@.len() ==> r@[k] < tunnels@.len(),
{
    let mut out: Vec<usize> = Vec::new();
    let mut i: usize = 0;
    while i < tunnels.len()
        invariant
            i <= tunnels@.len(),
            crate::backend::as_ints(out@) == auto_start_positions(tunnels@.take(i as int)),
            forall|k: int| 0 <= k < out@.len() ==> out@[k] < i,
        decreases tunnels.len() - i,
    {
        assert(tunnels@.take(i + 1).drop_last() =~= tunnels@.take(i as int));
        if tunnels[i].auto_start {
            let ghost before = out@;
            out.push(i);
            assert(crate::backend::as_ints(out@) =~= crate::backend::as_ints(before).push(i as int));
        }
        i = i + 1;
    }
    assert(tunnels@.take(tunnels@.len() as int) =~= tunnels@);
    out
}

// ---------------------------------------------------------------------
// Waiting for a tunnel
// ---------------------------------------------------------------------

/// What a caller waiting for a tunnel does next.
pub enum WaitStep {
    Ready,
    Fail(String),
    KeepWaiting,
}

/// Decides a wait for a tunnel from its state: active is ready; stopped or
/// error fails; past the deadline fails; otherwise keep waiting.
pub fn wait_step(state: &str, past_deadline: bool) -> (r: WaitStep)
    ensures
        state@ == "active"@ ==> r is Ready,
        state@ != "active"@ && (state@ == "stopped"@ || state@ == "error"@) ==> match r {
            WaitStep::Fail(m) => m@ == "隧道启动失败（状态: "@ + state@ + "）"@,
            _ => false,
        },
        state@ != "active"@ && state@ != "stopped"@ && state@ != "error"@ && past_deadline ==> match r {
            WaitStep::Fail(m) => m@ == "等待隧道连接超时，请检查跳板机连通性"@,
            _ => false,
        },
        state@ != "active"@ && state@ != "stopped"@ && state@ != "error"@ && !past_deadline ==> r is KeepWaiting,
{
    if str_eq(state, "active") {
        return WaitStep::Ready;
    }
    if str_eq(state, "stopped") || str_eq(state, "error") {
        let mut msg = owned("隧道启动失败（状态: ");
        msg.append(state);
        msg.append("）");
        return WaitStep::Fail(msg);
    }
    if past_deadline {
        return WaitStep::Fail(owned("等待隧道连接超时，请检查跳板机连通性"));
    }
    WaitStep::KeepWaiting
}

} // verus!
