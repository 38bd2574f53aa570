use kurumi_deploy::config::{AuthConfig, OsType, ServerConfig};
use kurumi_deploy::rdp::{
    desired_title, direct_rdp_address, is_our_rdp_window, mstsc_args, rdp_file_content, rdp_file_name,
    rdp_tunnel_config, rgb_to_colorref, tunnel_rdp_address, ChildPoll, TitleWatch,
};

#[test]
fn addresses_and_arguments() {
    assert_eq!(direct_rdp_address("10.0.0.8"), "10.0.0.8:3389");
    assert_eq!(tunnel_rdp_address(50123), "127.0.0.1:50123");
    assert_eq!(mstsc_args("a:1", Some(1280), Some(720), false), vec!["/v:a:1", "/w:1280", "/h:720"]);
    assert_eq!(mstsc_args("a:1", Some(1280), Some(720), true), vec!["/v:a:1", "/f"]);
    assert_eq!(mstsc_args("a:1", Some(1280), None, false), vec!["/v:a:1"]);
    assert_eq!(
        rdp_file_content("127.0.0.1:5000", Some(800), Some(600), false),
        "full address:s:127.0.0.1:5000\nprompt for credentials:i:1\nscreen mode id:i:1\ndesktopwidth:i:800\ndesktopheight:i:600\n"
    );
    assert_eq!(
        rdp_file_content("h:1", None, None, true),
        "full address:s:h:1\nprompt for credentials:i:1\nscreen mode id:i:2\n"
    );
    assert_eq!(rdp_file_name("127.0.0.1:5000"), "shhd-deploy-127-0-0-1-5000.rdp");
}

#[test]
fn rdp_tunnel() {
    let server = ServerConfig {
        id: "w1".into(),
        name: "财务".into(),
        os: OsType::Windows,
        host: "192.168.1.9".into(),
        port: 22,
        username: "u".into(),
        auth: AuthConfig::Password { password: "p".into() },
        jump_server_id: Some("j".into()),
        group: None,
        detected_os: None,
        rdp_preset: None,
        sftp_remote_shortcuts: vec![],
        sftp_local_shortcuts: vec![],
    };
    let t = rdp_tunnel_config(&server, 40000);
    assert_eq!(t.id, "rdp-auto-w1");
    assert_eq!(t.name, "远程桌面-财务");
    assert_eq!(t.via_server_id, "j");
    assert_eq!((t.local_port, t.remote_port, t.auto_start), (40000, 3389, false));
    assert_eq!(t.remote_host, "192.168.1.9");
}

#[test]
fn window_titles() {
    assert_eq!(desired_title("h:1", "  "), "h:1 - 远程桌面连接");
    assert_eq!(desired_title("h:1", " 财务 "), "h:1 - 财务");
    assert!(is_our_rdp_window("h:1 - 财务", "h:1", "h:1 - 财务"));
    assert!(is_our_rdp_window("h:1 - Remote Desktop Connection", "h:1", "x"));
    assert!(is_our_rdp_window("h:1 - anything", "h:1", "x"));
    assert!(!is_our_rdp_window("Remote Desktop Connection", "h:1", "x"));
    assert!(!is_our_rdp_window("notes about h:1", "h:1", "x"));
}

#[test]
fn title_watch_ends() {
    let mut w = TitleWatch::new();
    assert!(w.step(true, 400, ChildPoll::Running));
    assert!(w.step(false, 800, ChildPoll::Running));
    assert!(w.step(false, 1500, ChildPoll::Running));
    assert!(!w.step(false, 1700, ChildPoll::Running));
    let mut never = TitleWatch::new();
    assert!(never.step(false, 1000, ChildPoll::Exited));
    assert!(never.step(false, 20000, ChildPoll::Exited));
    assert!(!never.step(false, 20400, ChildPoll::Exited));
    let mut slow = TitleWatch::new();
    assert!(slow.step(false, 89000, ChildPoll::Running));
    assert!(!slow.step(false, 90400, ChildPoll::Running));
    let mut broken = TitleWatch::new();
    assert!(!broken.step(true, 0, ChildPoll::Unknown));
}

#[test]
fn colorref() {
    assert_eq!(rgb_to_colorref(15, 18, 24), 0x0018120F);
    assert_eq!(rgb_to_colorref(255, 0, 0), 0x000000FF);
}
