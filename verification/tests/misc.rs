use kurumi_deploy::config::{
    put_draft_server, record_detected_os, strip_bom, AppConfig, AuthConfig, DockerTarget, FrontendTarget, OsType,
    ServerConfig,
};
use kurumi_deploy::deploy::archive_entry_name;
use kurumi_deploy::docker::{command_failure_message, docker_command, find_docker_target};
use kurumi_deploy::events::{probe_report, sftp_error_log_line, task_outcome};
use kurumi_deploy::frontend::{group_label, select_targets};
use kurumi_deploy::mcp::{mcp_apply, summary_selection, McpApply};
use kurumi_deploy::ssh::os_command;
use kurumi_deploy::sysinfo::{json_fragment, keep_disk, memory_used, process_name, section_lines};

fn server(id: &str, os_detected: Option<&str>) -> ServerConfig {
    ServerConfig {
        id: id.into(),
        name: id.into(),
        os: OsType::Linux,
        host: "h".into(),
        port: 22,
        username: "u".into(),
        auth: AuthConfig::Password { password: "p".into() },
        jump_server_id: None,
        group: None,
        detected_os: os_detected.map(String::from),
        rdp_preset: None,
        sftp_remote_shortcuts: vec![],
        sftp_local_shortcuts: vec![],
    }
}

fn fe(id: &str, group: Option<&str>) -> FrontendTarget {
    FrontendTarget {
        id: id.into(),
        name: id.into(),
        server_ids: vec![],
        local_dir: String::new(),
        remote_dir: "/w".into(),
        staging_dir: None,
        delete_extraneous: false,
        group: group.map(String::from),
        pack_command: None,
        pack_work_dir: None,
    }
}

#[test]
fn draft_servers_and_detected_os() {
    let mut c = AppConfig::default();
    c.servers = vec![server("a", None), server("b", Some("ubuntu"))];
    let mut draft = server("a", None);
    draft.host = "new".into();
    assert!(put_draft_server(&mut c, draft));
    assert_eq!(c.servers[0].host, "new");
    assert!(!put_draft_server(&mut c, server("z", None)));
    assert_eq!(c.servers.len(), 3);
    assert!(record_detected_os(&mut c, "a", "centos"));
    assert_eq!(c.servers[0].detected_os.as_deref(), Some("centos"));
    assert!(!record_detected_os(&mut c, "b", "ubuntu"));
    assert!(!record_detected_os(&mut c, "nope", "x"));
    assert_eq!(strip_bom("\u{feff}{\"a\":1}"), "{\"a\":1}");
    assert_eq!(strip_bom("x"), "x");
}

#[test]
fn docker_commands() {
    let targets = vec![DockerTarget {
        id: "d1".into(),
        name: "app".into(),
        server_id: "s".into(),
        work_dir: "/opt/it's".into(),
        commands: vec!["docker compose up -d".into()],
        group: None,
    }];
    assert_eq!(find_docker_target(&targets, "d1").unwrap(), 0);
    assert_eq!(find_docker_target(&targets, "d2").err().unwrap(), "找不到 Docker 部署目标: d2");
    assert_eq!(
        docker_command("/opt/it's", "docker compose up -d"),
        "sh -lc 'cd '\\''/opt/it'\\''\\'\\'''\\''s'\\'' && docker compose up -d'"
    );
    assert_eq!(command_failure_message(1, "boom"), "命令执行失败(退出码 1): boom");
}

#[test]
fn tasks_and_reports() {
    let ok = task_outcome(None, false);
    assert_eq!((ok.state, ok.message.as_str(), ok.level), ("success", "任务完成", "success"));
    let c = task_outcome(Some("x"), true);
    assert_eq!((c.state, c.message.as_str(), c.level), ("cancelled", "任务已取消", "warn"));
    let f = task_outcome(Some("bad"), false);
    assert_eq!((f.state, f.message.as_str(), f.level), ("failed", "bad", "error"));
    assert_eq!(probe_report(12, None, "raw"), "连接成功，耗时 12 ms\n探测系统: 未知\nraw");
    assert_eq!(probe_report(5, Some("ubuntu"), ""), "连接成功，耗时 5 ms\n探测系统: ubuntu\n");
    assert_eq!(sftp_error_log_line("list", "s1", "/x", "denied"), "sftp list 错误 [s1:/x]: denied");
    assert_eq!(os_command(OsType::Linux, "ls"), "sh -lc 'ls'");
    assert!(os_command(OsType::Windows, "ls").starts_with("powershell -NoLogo"));
    assert_eq!(archive_entry_name("bin\\a.dll"), Some("bin/a.dll".to_string()));
    assert_eq!(archive_entry_name(""), None);
}

#[test]
fn mcp_service_and_summary() {
    assert_eq!(mcp_apply(Some(17423), true, 17423), McpApply::Keep);
    assert_eq!(mcp_apply(Some(1), true, 17423), McpApply::Start);
    assert_eq!(mcp_apply(None, true, 17423), McpApply::Start);
    assert_eq!(mcp_apply(Some(1), false, 17423), McpApply::Stop);
    assert_eq!(mcp_apply(None, false, 17423), McpApply::Idle);
    let mut c = AppConfig::default();
    c.frontend_targets = vec![fe("a", None), fe("b", None), fe("c", None)];
    c.mcp.allowed_frontend_target_ids = Some(vec!["c".into(), "a".into()]);
    let sel = summary_selection(&c);
    assert_eq!(sel.frontend_targets, vec![0, 2]);
    assert!(sel.backend_groups.is_empty());
}

#[test]
fn release_group_label() {
    let targets = vec![fe("a", Some("测试")), fe("b", None), fe("c", Some("测试")), fe("d", Some("Beta"))];
    let chosen = select_targets(&targets, &vec!["a".into(), "b".into(), "c".into(), "d".into()]);
    assert_eq!(group_label(&targets, &chosen), "Beta、未分组、测试");
    assert_eq!(group_label(&targets, &vec![]), "");
}

#[test]
fn linux_collection_output() {
    let raw = "noise\n===UPTIME===\n7344000.50 1\n===MEMINFO===\nMemTotal: 1 kB\n  ===PS===  \n 1 2 3 java -jar x\n===MEMINFO===\nSwapFree: 2 kB\n===END===\n";
    assert_eq!(section_lines(raw, "UPTIME"), vec!["7344000.50 1".to_string()]);
    assert_eq!(section_lines(raw, "MEMINFO"), vec!["MemTotal: 1 kB".to_string(), "SwapFree: 2 kB".to_string()]);
    assert_eq!(section_lines(raw, "PS"), vec![" 1 2 3 java -jar x".to_string()]);
    assert!(section_lines(raw, "END").is_empty());
    assert!(section_lines(raw, "").is_empty());
    assert_eq!(memory_used(100, 10, 30, 5, 5), 70);
    assert_eq!(memory_used(100, 10, 0, 5, 5), 80);
    assert_eq!(memory_used(10, 10, 0, 5, 5), 0);
    assert!(keep_disk(1, "/"));
    assert!(!keep_disk(0, "/"));
    assert!(!keep_disk(1, "/snap/core"));
    let fields: Vec<Vec<char>> = ["1", "2.0", "3", "java", "-jar"].iter().map(|s| s.chars().collect()).collect();
    assert_eq!(process_name(&fields), "java -jar");
    assert_eq!(json_fragment("xx{\"a\":{}}yy").unwrap(), "{\"a\":{}}");
    assert_eq!(json_fragment("none").err().unwrap(), "找不到有效的 JSON 输出");
    assert_eq!(json_fragment("} {").err().unwrap(), "找不到有效的 JSON 输出");
}
