use kurumi_deploy::config::{AppConfig, AuthConfig, OsType, ServerConfig, TunnelConfig};
use kurumi_deploy::tunnel::{
    find_tunnel, next_backoff, stopped_status, tunnel_precheck, wait_step, HealthOutcome, TunnelSupervisor, WaitStep,
};

fn tunnel(remote: &str) -> TunnelConfig {
    TunnelConfig {
        id: "tn".into(),
        name: "数据库".into(),
        via_server_id: "jump".into(),
        local_port: 13306,
        remote_host: remote.into(),
        remote_port: 3306,
        auto_start: false,
        group: None,
    }
}

fn jump(host: &str) -> ServerConfig {
    ServerConfig {
        id: "jump".into(),
        name: "跳板".into(),
        os: OsType::Linux,
        host: host.into(),
        port: 22,
        username: "root".into(),
        auth: AuthConfig::Password { password: "x".into() },
        jump_server_id: None,
        group: None,
        detected_os: None,
        rdp_preset: None,
        sftp_remote_shortcuts: vec![],
        sftp_local_shortcuts: vec![],
    }
}

#[test]
fn backoff_doubles_up_to_thirty() {
    let mut waits = vec![];
    let mut b = 2;
    for _ in 0..6 {
        waits.push(b);
        b = next_backoff(b);
    }
    assert_eq!(waits, vec![2, 4, 8, 16, 30, 30]);
}

#[test]
fn failures_in_a_row_wait_longer_up_to_thirty() {
    let t = tunnel("10.0.0.5");
    let mut s = TunnelSupervisor::new();
    let waits: Vec<u64> = (0..7).map(|_| s.on_connect_failed("x", 0).1).collect();
    assert_eq!(waits, vec![2, 4, 8, 16, 30, 30, 30]);
    assert_eq!(s.reconnects, 7);
    s.on_connected(&t, 0);
    assert_eq!(s.on_connect_failed("x", 0).1, 2);
    assert_eq!(s.on_connect_failed("x", 0).1, 4);
}

#[test]
fn supervisor_reports() {
    let t = tunnel("10.0.0.5");
    let mut s = TunnelSupervisor::new();
    let c = s.connecting_report("jump", 0);
    assert_eq!(c.message, "正在连接经由服务器 jump");
    let (r, wait) = s.on_connect_failed("timeout", 0);
    assert_eq!(wait, 2);
    assert_eq!(r.state, "reconnecting");
    assert_eq!(r.message, "连接失败: timeout，2 秒后重试");
    assert_eq!(r.total_reconnects, 1);
    let (_, wait) = s.on_connect_failed("again", 0);
    assert_eq!(wait, 4);
    let up = s.on_connected(&t, 0);
    assert_eq!(up.state, "active");
    assert_eq!(up.message, "127.0.0.1:13306 -> 10.0.0.5:3306");
    assert_eq!(s.backoff_secs, 2);
    assert!(matches!(s.on_health_check(false, &t, 0), HealthOutcome::Report(_)));
    assert!(matches!(s.on_health_check(false, &t, 0), HealthOutcome::Quiet));
    match s.on_health_check(false, &t, 3) {
        HealthOutcome::Report(r) => assert_eq!(r.active_connections, 3),
        _ => panic!(),
    }
    match s.on_health_check(true, &t, 3) {
        HealthOutcome::Reconnect(r) => {
            assert_eq!(r.message, "SSH 会话断开，准备重连");
            assert_eq!(r.total_reconnects, 3);
        }
        _ => panic!(),
    }
    let stop = s.stopped_report();
    assert_eq!((stop.state.as_str(), stop.message.as_str(), stop.active_connections), ("stopped", "已停止", 0));
}

#[test]
fn precheck_and_lookup() {
    let mut c = AppConfig::default();
    c.servers.push(jump("1.2.3.4"));
    c.tunnels.push(tunnel("10.0.0.5"));
    assert!(tunnel_precheck(&c, &tunnel("10.0.0.5")).is_ok());
    assert_eq!(tunnel_precheck(&c, &tunnel("  改成数据库地址 ")).err().unwrap(), "远端地址未配置（改成数据库地址）");
    let mut bad = AppConfig::default();
    bad.servers.push(jump("your-ip"));
    assert_eq!(
        tunnel_precheck(&bad, &tunnel("10.0.0.5")).err().unwrap(),
        "服务器「跳板」主机地址未配置（your-ip）"
    );
    assert_eq!(find_tunnel(&c.tunnels, "tn").unwrap(), 0);
    assert_eq!(find_tunnel(&c.tunnels, "x").err().unwrap(), "找不到隧道配置: x");
    let s = stopped_status("tn");
    assert_eq!((s.state.as_str(), s.message.as_str()), ("stopped", ""));
}

#[test]
fn waiting_for_a_tunnel() {
    assert!(matches!(wait_step("active", true), WaitStep::Ready));
    match wait_step("error", false) {
        WaitStep::Fail(m) => assert_eq!(m, "隧道启动失败（状态: error）"),
        _ => panic!(),
    }
    match wait_step("connecting", true) {
        WaitStep::Fail(m) => assert_eq!(m, "等待隧道连接超时，请检查跳板机连通性"),
        _ => panic!(),
    }
    assert!(matches!(wait_step("reconnecting", false), WaitStep::KeepWaiting));
}

#[test]
fn tunnels_started_with_the_application() {
    let mut a = tunnel("10.0.0.5");
    let mut b = tunnel("10.0.0.6");
    let c = tunnel("10.0.0.7");
    a.auto_start = true;
    b.auto_start = false;
    let mut d = c.clone();
    d.auto_start = true;
    assert_eq!(kurumi_deploy::tunnel::auto_start_tunnels(&vec![a, b, c, d]), vec![0, 3]);
    assert!(kurumi_deploy::tunnel::auto_start_tunnels(&vec![]).is_empty());
}
