use kurumi_deploy::backend::{
    artifact_report, find_group, plan_backend_deploy, plan_rollback, resolve_servers, select_projects, BackendDeployRequest,
};
use kurumi_deploy::config::{
    AppConfig, AuthConfig, BackendGroup, BackendProject, CopyMode, OsType, ServerConfig,
};
use kurumi_deploy::deploy::DeployMode;
use kurumi_deploy::history::ReleaseRecord;

fn project(id: &str) -> BackendProject {
    BackendProject {
        id: id.to_string(),
        name: id.to_uppercase(),
        local_bin_dir: String::new(),
        remote_app_dir: format!("D:\\code\\sites\\{}", id),
        health_check_url: None,
        health_check_retries: 10,
        health_check_delay_secs: 3,
        stop_script: String::new(),
        start_script: String::new(),
        stop_iis_before_replace: true,
        ignore_rules: String::new(),
        whitelist_rules: String::new(),
        newer_than: None,
    }
}

fn server(id: &str) -> ServerConfig {
    ServerConfig {
        id: id.into(),
        name: format!("服务器{}", id),
        os: OsType::Windows,
        host: "10.0.0.1".into(),
        port: 22,
        username: "admin".into(),
        auth: AuthConfig::Password { password: "pw".into() },
        jump_server_id: None,
        group: None,
        detected_os: None,
        rdp_preset: None,
        sftp_remote_shortcuts: vec![],
        sftp_local_shortcuts: vec![],
    }
}

fn group(server_ids: Vec<&str>) -> BackendGroup {
    BackendGroup {
        id: "g1".into(),
        name: "生产".into(),
        server_ids: server_ids.into_iter().map(String::from).collect(),
        primary_server_id: None,
        secondary_server_id: None,
        staging_dir: "D:\\staging".into(),
        backup_dir: "D:\\backup".into(),
        copy_mode: CopyMode::Smb,
        projects: vec![project("a"), project("b"), project("c")],
    }
}

fn request(projects: Vec<&str>, name: &str) -> BackendDeployRequest {
    BackendDeployRequest {
        group_id: "g1".into(),
        project_ids: projects.into_iter().map(String::from).collect(),
        release_name: name.into(),
        copy_mode: None,
        mode: DeployMode::Full,
        backup_sibling: true,
    }
}

fn cfg(servers: Vec<&str>, group_servers: Vec<&str>) -> AppConfig {
    let mut c = AppConfig::default();
    c.servers = servers.into_iter().map(server).collect();
    c.backend_groups.push(group(group_servers));
    c
}

#[test]
fn plan_resolves_group_projects_and_servers() {
    let c = cfg(vec!["s1", "s2"], vec!["s2", "s1"]);
    let plan = plan_backend_deploy(&c, &request(vec!["c", "a", "zz"], "  20260812-发布  ")).unwrap();
    assert_eq!(plan.group, 0);
    assert_eq!(plan.projects, vec![0, 2]);
    assert_eq!(plan.release_name, "20260812-发布");
    assert_eq!(plan.copy_mode, CopyMode::Smb);
    assert_eq!(plan.servers, vec![1, 0]);
    let mut r = request(vec!["a"], "x");
    r.copy_mode = Some(CopyMode::Upload);
    assert_eq!(plan_backend_deploy(&c, &r).unwrap().copy_mode, CopyMode::Upload);
}

#[test]
fn plan_errors() {
    let c = cfg(vec!["s1"], vec!["s1", "s9"]);
    let mut r = request(vec!["a"], "x");
    r.group_id = "nope".into();
    assert_eq!(plan_backend_deploy(&c, &r).err().unwrap(), "找不到负载组: nope");
    assert_eq!(plan_backend_deploy(&c, &request(vec!["q"], "x")).err().unwrap(), "未选择任何项目");
    assert_eq!(plan_backend_deploy(&c, &request(vec!["a"], "  ")).err().unwrap(), "发布名称不能为空");
    assert_eq!(plan_backend_deploy(&c, &request(vec!["a"], "x")).err().unwrap(), "找不到服务器配置: s9");
    let empty = cfg(vec!["s1"], vec![]);
    assert_eq!(
        plan_backend_deploy(&empty, &request(vec!["a"], "x")).err().unwrap(),
        "负载组 生产 未配置任何服务器"
    );
}

#[test]
fn legacy_primary_secondary_servers() {
    let mut c = cfg(vec!["p", "s"], vec![]);
    c.backend_groups[0].primary_server_id = Some("p".into());
    c.backend_groups[0].secondary_server_id = Some("".into());
    assert_eq!(plan_backend_deploy(&c, &request(vec!["b"], "x")).unwrap().servers, vec![0]);
}

#[test]
fn lookups() {
    let c = cfg(vec!["s1", "s2"], vec![]);
    assert_eq!(find_group(&c.backend_groups, "g1"), Some(0));
    assert_eq!(find_group(&c.backend_groups, "g2"), None);
    assert_eq!(select_projects(&c.backend_groups[0].projects, &vec!["b".into(), "b".into()]), vec![1]);
    assert_eq!(resolve_servers(&c.servers, &vec!["s2".into(), "s1".into()]).unwrap(), vec![1, 0]);
    assert_eq!(resolve_servers(&c.servers, &vec!["s3".into()]).err().unwrap(), "找不到服务器配置: s3");
}

fn record(id: &str, group_id: &str, projects: Vec<&str>) -> ReleaseRecord {
    ReleaseRecord {
        id: id.into(),
        release_name: "r".into(),
        group_id: group_id.into(),
        group_name: "生产".into(),
        project_ids: projects.into_iter().map(String::from).collect(),
        server_ids: vec!["s1".into()],
        created_at: "2026-08-12 10:00:00".into(),
        status: "success".into(),
    }
}

#[test]
fn rollback_plan() {
    let c = cfg(vec!["s1"], vec!["s1"]);
    let records = vec![record("r1", "g1", vec!["c"]), record("r2", "gone", vec!["a"]), record("r3", "g1", vec!["x"])];
    let plan = plan_rollback(&c, &records, "r1").unwrap();
    assert_eq!((plan.record, plan.group, plan.projects), (0, 0, vec![2]));
    assert_eq!(plan_rollback(&c, &records, "r0").err().unwrap(), "找不到该发布记录");
    assert_eq!(plan_rollback(&c, &records, "r2").err().unwrap(), "找不到负载组: gone（配置可能已修改）");
    assert_eq!(plan_rollback(&c, &records, "r3").err().unwrap(), "发布记录中的项目在当前配置中不存在");
}

#[test]
fn rollback_refuses_releases_that_did_not_succeed() {
    let c = cfg(vec!["s1"], vec!["s1"]);
    for status in ["staged", "failed", "rolled_back", "rollback"] {
        let mut r = record("r1", "g1", vec!["a"]);
        r.status = status.into();
        let err = plan_rollback(&c, &vec![r], "r1").err().unwrap();
        assert_eq!(err, format!("只有成功的发布才能回滚（当前状态: {}）", status));
    }
    // the status is checked before the group
    let mut r = record("r1", "gone", vec!["a"]);
    r.status = "staged".into();
    assert_eq!(plan_rollback(&c, &vec![r], "r1").err().unwrap(), "只有成功的发布才能回滚（当前状态: staged）");
}

#[test]
fn artifact_age_is_reported() {
    let fresh = artifact_report("API", 12, "2026-01-02 03:04:05", 24 * 60);
    assert!(!fresh.stale);
    assert_eq!(fresh.message, "API: 12 个文件，最新文件时间 2026-01-02 03:04:05");
    let stale = artifact_report("API", 12, "2026-01-02 03:04:05", 24 * 60 + 1);
    assert!(stale.stale);
    assert_eq!(stale.message, "注意: API 产物最新文件时间 2026-01-02 03:04:05（24 小时前），请确认不是旧包！");
    let old = artifact_report("Web", 1, "t", 3 * 24 * 60 + 59);
    assert_eq!(old.message, "注意: Web 产物最新文件时间 t（72 小时前），请确认不是旧包！");
}
