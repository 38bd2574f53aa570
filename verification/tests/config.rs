use kurumi_deploy::config::{
    config_dir, config_file_path, default_copy_mode, default_health_delay, default_health_retries, default_log_level,
    default_mcp_permission, default_mcp_port, default_sftp_shortcuts, default_template, default_true,
    frontend_releases_file_path, is_placeholder_host, join_path, known_hosts_file_path, log_dir, releases_file_path,
    validate_server_hosts, AppConfig, BackendGroup, CopyMode, McpPermission, OsType,
};

#[test]
fn defaults() {
    assert_eq!(default_health_retries(), 10);
    assert_eq!(default_health_delay(), 3);
    assert!(default_true());
    assert_eq!(default_copy_mode(), CopyMode::Upload);
    assert_eq!(default_mcp_port(), 17423);
    assert_eq!(default_mcp_permission(), McpPermission::Stage);
    assert_eq!(default_log_level(), "info");
    assert!(!default_sftp_shortcuts().is_empty());
    let c = AppConfig::default();
    assert!(c.servers.is_empty());
    assert!(!c.mcp.enabled);
    assert_eq!(c.mcp.port, 17423);
}

#[test]
fn placeholders() {
    for host in ["", "   ", "改成公网IP", "PLACEHOLDER", "changeme.local", "www.example.com", "your-ip", "YOUR_IP"] {
        assert!(is_placeholder_host(host), "{}", host);
    }
    for host in ["10.0.0.1", "db.internal", "example.net"] {
        assert!(!is_placeholder_host(host), "{}", host);
    }
}

#[test]
fn template_is_consistent() {
    let t = default_template();
    assert_eq!(t.servers.len(), 6);
    assert_eq!(t.tunnels.len(), 3);
    assert_eq!(t.backend_groups.len(), 1);
    for tunnel in &t.tunnels {
        assert!(t.find_server(&tunnel.via_server_id).is_ok());
    }
    for server in &t.servers {
        if let Some(j) = &server.jump_server_id {
            assert!(t.find_server(j).is_ok());
        }
    }
    assert_eq!(
        validate_server_hosts(&t, "win-48-5").err().unwrap(),
        "服务器「Linux-大带宽代理(跳板机)」主机地址未配置（改成公网IP）"
    );
    assert_eq!(validate_server_hosts(&t, "nope").err().unwrap(), "找不到服务器配置: nope");
}

#[test]
fn template_windows_servers_sit_behind_the_jump_server() {
    let t = default_template();
    for (id, host) in [
        ("win-48-5", "172.16.48.5"),
        ("win-48-16", "172.16.48.16"),
        ("win-0-10", "172.16.0.10"),
        ("win-16-8", "172.16.16.8"),
    ] {
        let s = t.find_server(id).unwrap();
        assert_eq!(s.os, OsType::Windows);
        assert_eq!(s.host, host);
        assert_eq!(s.jump_server_id.as_deref(), Some("linux-proxy"));
        assert!(!is_placeholder_host(&s.host));
    }
    let proxy = t.find_server("linux-proxy").unwrap();
    assert_eq!(proxy.os, OsType::Linux);
    assert_eq!(proxy.jump_server_id, None);
    assert_eq!(proxy.host, "改成公网IP");
    assert_eq!(t.backend_groups[0].server_ids, vec!["win-48-5".to_string(), "win-48-16".to_string()]);
    assert_eq!(t.backend_groups[0].projects[1].health_check_url.as_deref(), Some("http://localhost:8083/swagger"));
    assert_eq!(t.docker_targets[0].commands, vec!["docker compose pull", "docker compose up -d", "docker compose ps"]);
    assert_eq!(t.tunnels[0].remote_host, "172.16.48.5");
}

#[test]
fn jump_chains_are_bounded() {
    let mut t = default_template();
    for s in t.servers.iter_mut() {
        s.host = "10.0.0.9".into();
    }
    assert!(validate_server_hosts(&t, "win-48-5").is_ok());
    t.servers[0].jump_server_id = Some("win-48-5".into());
    assert_eq!(validate_server_hosts(&t, "win-48-5").err().unwrap(), "跳板机链过深或存在循环引用");
}

#[test]
fn group_servers() {
    let mut g = BackendGroup {
        id: "g".into(),
        name: "g".into(),
        server_ids: vec![],
        primary_server_id: Some("p".into()),
        secondary_server_id: Some("s".into()),
        staging_dir: String::new(),
        backup_dir: String::new(),
        copy_mode: CopyMode::Upload,
        projects: vec![],
    };
    assert_eq!(g.effective_server_ids(), vec!["p".to_string(), "s".to_string()]);
    g.server_ids = vec!["x".into()];
    assert_eq!(g.effective_server_ids(), vec!["x".to_string()]);
}

#[test]
fn file_locations() {
    let dir = config_dir();
    assert!(dir.ends_with("shhd-deploy"));
    let sep = std::path::MAIN_SEPARATOR;
    assert_eq!(config_file_path(), format!("{}{}config.json", dir, sep));
    assert_eq!(releases_file_path(), format!("{}{}releases.json", dir, sep));
    assert_eq!(frontend_releases_file_path(), format!("{}{}frontend_releases.json", dir, sep));
    assert_eq!(known_hosts_file_path(), format!("{}{}known_hosts.json", dir, sep));
    assert_eq!(log_dir(), format!("{}{}logs", dir, sep));
}

#[test]
fn path_joining() {
    assert_eq!(join_path("/home/u/.config", "shhd-deploy", '/'), "/home/u/.config/shhd-deploy");
    assert_eq!(join_path("/home/u/.config/", "shhd-deploy", '/'), "/home/u/.config/shhd-deploy");
    assert_eq!(join_path("C:\\Users\\u", "x", '\\'), "C:\\Users\\u\\x");
    assert_eq!(join_path("C:\\Users\\u/", "x", '\\'), "C:\\Users\\u/x");
    assert_eq!(join_path("", "x", '/'), "x");
}
