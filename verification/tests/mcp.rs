use kurumi_deploy::backend::BackendDeployRequest;
use kurumi_deploy::config::{
    AppConfig, AuthConfig, BackendGroup, BackendProject, CopyMode, McpPermission, OsType, ServerConfig,
};
use kurumi_deploy::deploy::DeployMode;
use kurumi_deploy::mcp::{
    config_summary, is_allowed, plan_tool_call, protocol_version, route_method, tool_definitions, McpMethod, McpTool, ModeArg,
    RpcError, ToolAction, ToolArgs,
};

fn project(id: &str) -> BackendProject {
    BackendProject {
        id: id.to_string(),
        name: format!("项目{}", id),
        local_bin_dir: format!("D:\\build\\{}", id),
        remote_app_dir: format!("D:\\code\\sites\\{}", id),
        health_check_url: None,
        health_check_retries: 10,
        health_check_delay_secs: 3,
        stop_script: String::new(),
        start_script: String::new(),
        stop_iis_before_replace: true,
        ignore_rules: String::new(),
        whitelist_rules: String::new(),
        newer_than: None,
    }
}

fn config(permission: McpPermission) -> AppConfig {
    let mut c = AppConfig::default();
    c.mcp.permission = permission;
    c.backend_groups.push(BackendGroup {
        id: "g1".into(),
        name: "测试组".into(),
        server_ids: vec!["s1".into()],
        primary_server_id: None,
        secondary_server_id: None,
        staging_dir: "D:\\staging".into(),
        backup_dir: "D:\\backup".into(),
        copy_mode: CopyMode::Upload,
        projects: vec![project("a"), project("b")],
    });
    c.servers.push(ServerConfig {
        id: "s1".into(),
        name: "服务器1".into(),
        os: OsType::Windows,
        host: "10.0.0.1".into(),
        port: 22,
        username: "admin".into(),
        auth: AuthConfig::Password { password: "pw".into() },
        jump_server_id: None,
        group: None,
        detected_os: None,
        rdp_preset: None,
        sftp_remote_shortcuts: vec![],
        sftp_local_shortcuts: vec![],
    });
    c
}

fn args() -> ToolArgs {
    ToolArgs {
        task_id: None,
        wait_seconds: None,
        group_id: None,
        release_name: None,
        project_ids: vec![],
        target_ids: vec![],
        mode: ModeArg::Absent,
        backup_sibling: None,
        release_id: None,
        target_id: None,
        tunnel_id: None,
        action: None,
    }
}

fn err(name: &str, c: &AppConfig, a: &ToolArgs) -> String {
    match plan_tool_call(name, c, a) {
        Err(e) => e,
        Ok(_) => panic!("expected an error for {}", name),
    }
}

#[test]
fn methods_are_routed() {
    assert_eq!(route_method("initialize").ok(), Some(McpMethod::Initialize));
    assert_eq!(route_method("ping").ok(), Some(McpMethod::Ping));
    assert_eq!(route_method("tools/list").ok(), Some(McpMethod::ToolsList));
    assert_eq!(route_method("tools/call").ok(), Some(McpMethod::ToolsCall));
    let e: RpcError = route_method("resources/list").err().unwrap();
    assert_eq!(e.code, -32601);
    assert_eq!(e.message, "不支持的方法: resources/list");
    assert_eq!(protocol_version(None), "2025-03-26");
    assert_eq!(protocol_version(Some("2024-11-05")), "2024-11-05");
}

#[test]
fn tool_lists_per_permission() {
    let names = |p: McpPermission| -> Vec<&'static str> { tool_definitions(p).iter().map(|d| d.tool.name()).collect() };
    assert_eq!(
        names(McpPermission::Readonly),
        vec!["list_config", "list_releases", "get_task_status", "list_tunnels"]
    );
    assert_eq!(
        names(McpPermission::Stage),
        vec![
            "list_config", "list_releases", "list_frontend_releases", "get_task_status", "list_tunnels",
            "backend_deploy", "frontend_deploy",
        ]
    );
    assert_eq!(names(McpPermission::Stage).len(), 7);
    assert_eq!(names(McpPermission::Full).len(), 11);
    for p in [McpPermission::Readonly, McpPermission::Stage, McpPermission::Full] {
        for t in names(p) {
            assert!(names(McpPermission::Full).contains(&t));
            assert_eq!(McpTool::parse(t).unwrap().name(), t);
        }
    }
    let stage = tool_definitions(McpPermission::Stage);
    let backend = stage.iter().find(|d| d.tool == McpTool::BackendDeploy).unwrap();
    assert_eq!(
        backend.description,
        "后端部署：把本地发布产物部署到 Windows 负载组。当前权限为「仅中转」，mode 只能是 stage（上传到中转目录，不影响线上）。"
    );
    let schema: serde_json::Value = serde_json::from_str(backend.input_schema).unwrap();
    assert_eq!(schema["required"][0], "groupId");
    for d in tool_definitions(McpPermission::Full) {
        let parsed: serde_json::Value = serde_json::from_str(d.input_schema).unwrap();
        assert_eq!(parsed["type"], "object");
    }
}

#[test]
fn listed_tools_are_exactly_the_permitted_ones() {
    let all = [
        "list_config", "list_releases", "list_frontend_releases", "get_task_status", "list_tunnels",
        "backend_deploy", "frontend_deploy", "rollback", "frontend_rollback", "docker_deploy", "tunnel_control",
    ];
    for p in [McpPermission::Readonly, McpPermission::Stage, McpPermission::Full] {
        let c = config(p);
        let listed: Vec<&str> = tool_definitions(p).iter().map(|d| d.tool.name()).collect();
        for name in all {
            let refused = match plan_tool_call(name, &c, &args()) {
                Err(e) => e.contains("权限"),
                Ok(_) => false,
            };
            assert_eq!(listed.contains(&name), !refused, "{} under {:?}", name, p);
        }
    }
}

#[test]
fn readonly_refuses_changes() {
    let c = config(McpPermission::Readonly);
    assert_eq!(err("backend_deploy", &c, &args()), "当前 MCP 权限为只读，不允许发起部署");
    assert_eq!(err("frontend_deploy", &c, &args()), "当前 MCP 权限为只读，不允许发起部署");
    assert_eq!(err("rollback", &c, &args()), "回滚需要 MCP「完全访问」权限");
    assert_eq!(err("docker_deploy", &c, &args()), "Docker 部署需要 MCP「完全访问」权限");
    assert_eq!(err("tunnel_control", &c, &args()), "隧道控制需要 MCP「完全访问」权限");
    assert_eq!(err("nope", &c, &args()), "未知工具: nope");
    assert_eq!(err("list_frontend_releases", &c, &args()), "当前 MCP 权限为只读，不允许查看前端发布历史");
    assert!(matches!(plan_tool_call("list_config", &c, &args()), Ok(ToolAction::ListConfig)));
    assert!(matches!(plan_tool_call("list_releases", &c, &args()), Ok(ToolAction::ListReleases)));
    assert!(matches!(plan_tool_call("list_tunnels", &c, &args()), Ok(ToolAction::ListTunnels)));
    let stage = config(McpPermission::Stage);
    assert!(matches!(plan_tool_call("list_frontend_releases", &stage, &args()), Ok(ToolAction::ListFrontendReleases)));
}

#[test]
fn stage_permission_only_stages() {
    let c = config(McpPermission::Stage);
    let mut a = args();
    a.group_id = Some("g1".into());
    a.release_name = Some("20260812-优惠券功能".into());
    a.mode = ModeArg::Given(DeployMode::Full);
    assert_eq!(
        err("backend_deploy", &c, &a),
        "当前 MCP 权限为「仅中转」，mode 只能是 stage；替换线上请在软件界面操作或调整权限"
    );
    a.mode = ModeArg::Absent;
    match plan_tool_call("backend_deploy", &c, &a) {
        Ok(ToolAction::BackendDeploy(BackendDeployRequest { group_id, project_ids, release_name, copy_mode, mode, backup_sibling })) => {
            assert_eq!(group_id, "g1");
            assert_eq!(project_ids, vec!["a".to_string(), "b".to_string()]);
            assert_eq!(release_name, "20260812-优惠券功能");
            assert!(copy_mode.is_none());
            assert_eq!(mode, DeployMode::Stage);
            assert!(backup_sibling);
        }
        _ => panic!("expected a backend deployment"),
    }
    a.mode = ModeArg::Invalid;
    assert_eq!(err("backend_deploy", &c, &a), "mode 参数无效，可选 full/stage/replace");
}

#[test]
fn backend_call_checks_in_order() {
    let mut c = config(McpPermission::Full);
    let mut a = args();
    assert_eq!(err("backend_deploy", &c, &a), "缺少参数 groupId");
    a.group_id = Some("g9".into());
    assert_eq!(err("backend_deploy", &c, &a), "缺少参数 releaseName");
    a.release_name = Some("r".into());
    assert_eq!(err("backend_deploy", &c, &a), "找不到负载组: g9");
    c.mcp.allowed_backend_group_ids = Some(vec!["g1".into()]);
    assert_eq!(err("backend_deploy", &c, &a), "负载组 g9 不在 MCP 允许访问的范围内");
    a.group_id = Some("g1".into());
    a.project_ids = vec!["b".into()];
    a.backup_sibling = Some(false);
    a.mode = ModeArg::Given(DeployMode::Replace);
    match plan_tool_call("backend_deploy", &c, &a) {
        Ok(ToolAction::BackendDeploy(r)) => {
            assert_eq!(r.project_ids, vec!["b".to_string()]);
            assert_eq!(r.mode, DeployMode::Replace);
            assert!(!r.backup_sibling);
        }
        _ => panic!("expected a backend deployment"),
    }
}

#[test]
fn other_tool_calls() {
    let mut c = config(McpPermission::Full);
    let mut a = args();
    assert_eq!(err("get_task_status", &c, &a), "缺少参数 taskId");
    a.task_id = Some("t1".into());
    a.wait_seconds = Some(1000);
    match plan_tool_call("get_task_status", &c, &a) {
        Ok(ToolAction::TaskStatus { task_id, wait_seconds }) => {
            assert_eq!(task_id, "t1");
            assert_eq!(wait_seconds, 300);
        }
        _ => panic!(),
    }
    assert_eq!(err("frontend_deploy", &c, &a), "缺少参数 targetIds");
    a.target_ids = vec!["fe1".into(), "fe2".into()];
    c.mcp.allowed_frontend_target_ids = Some(vec!["fe1".into()]);
    assert_eq!(err("frontend_deploy", &c, &a), "前端目标 fe2 不在 MCP 允许访问的范围内");
    c.mcp.allowed_frontend_target_ids = None;
    match plan_tool_call("frontend_deploy", &c, &a) {
        Ok(ToolAction::FrontendDeploy { target_ids, options }) => {
            assert_eq!(target_ids.len(), 2);
            assert_eq!(options.mode, DeployMode::Stage);
            assert!(options.backup_sibling);
        }
        _ => panic!(),
    }
    assert_eq!(err("rollback", &c, &args()), "缺少参数 releaseId");
    assert_eq!(err("docker_deploy", &c, &args()), "缺少参数 targetId");
    a.target_id = Some("d1".into());
    c.mcp.allowed_docker_target_ids = Some(vec![]);
    assert_eq!(err("docker_deploy", &c, &a), "Docker 目标 d1 不在 MCP 允许访问的范围内");
    assert_eq!(err("tunnel_control", &c, &args()), "缺少参数 tunnelId");
    let mut t = args();
    t.tunnel_id = Some("tn".into());
    assert_eq!(err("tunnel_control", &c, &t), "缺少参数 action");
    t.action = Some("restart".into());
    assert_eq!(err("tunnel_control", &c, &t), "action 只能是 start 或 stop");
    t.action = Some("stop".into());
    assert!(matches!(plan_tool_call("tunnel_control", &c, &t), Ok(ToolAction::TunnelStop { .. })));
}

#[test]
fn allow_lists() {
    assert!(is_allowed(&None, "x"));
    assert!(is_allowed(&Some(vec!["x".into()]), "x"));
    assert!(!is_allowed(&Some(vec!["y".into()]), "x"));
    assert!(!is_allowed(&Some(vec![]), "x"));
}

#[test]
fn config_summary_follows_allow_lists_without_credentials() {
    let mut c = config(McpPermission::Stage);
    c.backend_groups.push(BackendGroup {
        id: "g2".into(),
        name: "隐藏组".into(),
        server_ids: vec![],
        primary_server_id: Some("s1".into()),
        secondary_server_id: None,
        staging_dir: "D:\\s2".into(),
        backup_dir: "D:\\b2".into(),
        copy_mode: CopyMode::Smb,
        projects: vec![],
    });
    c.mcp.allowed_backend_group_ids = Some(vec!["g2".into()]);
    let summary = config_summary(&c);
    assert_eq!(summary.permission, McpPermission::Stage);
    assert_eq!(summary.servers.len(), 1);
    assert_eq!(summary.servers[0].server_id, "s1");
    assert_eq!(summary.servers[0].host, "10.0.0.1");
    assert_eq!(summary.backend_groups.len(), 1);
    assert_eq!(summary.backend_groups[0].group_id, "g2");
    assert_eq!(summary.backend_groups[0].server_ids, vec!["s1".to_string()]);
    c.mcp.allowed_backend_group_ids = None;
    let all = config_summary(&c);
    assert_eq!(all.backend_groups.len(), 2);
    assert_eq!(all.backend_groups[0].projects.len(), 2);
    assert_eq!(all.backend_groups[0].projects[1].local_bin_dir, "D:\\build\\b");
}

#[test]
fn task_status_waits_while_running() {
    assert!(!kurumi_deploy::mcp::task_wait_over("running", false));
    assert!(kurumi_deploy::mcp::task_wait_over("running", true));
    assert!(kurumi_deploy::mcp::task_wait_over("success", false));
    assert!(kurumi_deploy::mcp::task_wait_over("failed", false));
}
