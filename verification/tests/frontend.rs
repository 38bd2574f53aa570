use kurumi_deploy::config::{AppConfig, AuthConfig, FrontendTarget, OsType, ServerConfig};
use kurumi_deploy::deploy::DeployMode;
use kurumi_deploy::frontend::{
    backup_suffix, plan_frontend_rollback, release_message, release_servers, release_status, select_targets,
    server_steps, FrontendStep,
};
use kurumi_deploy::history::FrontendReleaseRecord;

fn target(id: &str, servers: Vec<&str>) -> FrontendTarget {
    FrontendTarget {
        id: id.into(),
        name: format!("站点{}", id),
        server_ids: servers.into_iter().map(String::from).collect(),
        local_dir: "dist".into(),
        remote_dir: "/var/www/site/".into(),
        staging_dir: None,
        delete_extraneous: false,
        group: None,
        pack_command: None,
        pack_work_dir: None,
    }
}

fn server(id: &str, name: &str) -> ServerConfig {
    ServerConfig {
        id: id.into(),
        name: name.into(),
        os: OsType::Linux,
        host: "10.1.1.1".into(),
        port: 22,
        username: "root".into(),
        auth: AuthConfig::Key { key_path: "~/.ssh/id".into(), passphrase: None },
        jump_server_id: None,
        group: None,
        detected_os: None,
        rdp_preset: None,
        sftp_remote_shortcuts: vec![],
        sftp_local_shortcuts: vec![],
    }
}

#[test]
fn targets_and_servers() {
    let mut c = AppConfig::default();
    c.frontend_targets = vec![target("t1", vec!["w1", "w2"]), target("t2", vec!["w2", "w3", "w1"]), target("t3", vec![])];
    c.servers = vec![server("w1", "web1"), server("w3", "web3")];
    let chosen = select_targets(&c.frontend_targets, &vec!["t2".into(), "t1".into()]);
    assert_eq!(chosen, vec![0, 1]);
    let s = release_servers(&c, &chosen);
    assert_eq!(s.ids, vec!["w1".to_string(), "w2".to_string(), "w3".to_string()]);
    assert_eq!(s.names, vec!["web1".to_string(), "web3".to_string()]);
    assert!(select_targets(&c.frontend_targets, &vec!["zz".into()]).is_empty());
}

#[test]
fn snapshot_suffix() {
    let id = "67e55044-10b1-426f-9247-bb680e5fe0c8";
    assert_eq!(backup_suffix(DeployMode::Full, true, "20260812101010", id), Some("20260812101010-67e55044".to_string()));
    assert_eq!(backup_suffix(DeployMode::Replace, true, "s", "ab-cd-ef-gh-ij"), Some("s-abcdefgh".to_string()));
    assert_eq!(backup_suffix(DeployMode::Stage, true, "s", id), None);
    assert_eq!(backup_suffix(DeployMode::Full, false, "s", id), None);
}

fn entry(path: &str, size: u64, hash: &str) -> (String, u64, String) {
    (path.to_string(), size, hash.to_string())
}

#[test]
fn stage_steps_touch_staging_only() {
    let t = target("t1", vec!["w1"]);
    let local = vec![entry("index.html", 10, "aa"), entry("app.js", 20, "bb")];
    let remote = vec![entry("index.html", 10, "aa"), entry("old.js", 5, "cc")];
    let steps = server_steps(OsType::Linux, &t, DeployMode::Stage, Some("sfx"), "abc", &local, &remote);
    assert_eq!(steps.len(), 3);
    match &steps[0] {
        FrontendStep::Upload { remote_zip, files } => {
            assert_eq!(remote_zip, "/var/www/.shhd-fe-abc.zip");
            assert_eq!(files, &vec!["app.js".to_string()]);
        }
        _ => panic!(),
    }
    match &steps[1] {
        FrontendStep::Extract { remote_zip, dest } => {
            assert_eq!(remote_zip, "/var/www/.shhd-fe-abc.zip");
            assert_eq!(dest, "/var/www/site-staging");
        }
        _ => panic!(),
    }
    match &steps[2] {
        FrontendStep::Remove { dir, files } => {
            assert_eq!(dir, "/var/www/site-staging");
            assert_eq!(files, &vec!["old.js".to_string()]);
        }
        _ => panic!(),
    }
}

#[test]
fn unchanged_files_are_not_sent() {
    let t = target("t1", vec!["w1"]);
    let local = vec![entry("index.html", 10, "aa"), entry("app.js", 20, "bb")];
    let same = local.clone();
    assert!(server_steps(OsType::Linux, &t, DeployMode::Full, None, "x", &local, &same).is_empty());
    // without delete_extraneous a full deployment keeps extra server files
    let remote = vec![entry("index.html", 10, "aa"), entry("app.js", 20, "bb"), entry("extra.txt", 1, "dd")];
    assert!(server_steps(OsType::Linux, &t, DeployMode::Full, None, "x", &local, &remote).is_empty());
}

#[test]
fn full_and_replace_steps() {
    let mut t = target("t1", vec!["w1"]);
    t.remote_dir = "D:\\www\\site".into();
    t.delete_extraneous = true;
    let local = vec![entry("a.js", 1, "11"), entry("b.js", 2, "22")];
    let remote = vec![entry("a.js", 1, "11"), entry("b.js", 3, "22"), entry("c.js", 4, "44")];
    let steps = server_steps(OsType::Windows, &t, DeployMode::Full, Some("sfx"), "id9", &local, &remote);
    assert_eq!(steps.len(), 4);
    match &steps[0] {
        FrontendStep::Snapshot { live, backup } => {
            assert_eq!(live, "D:\\www\\site");
            assert_eq!(backup, "D:\\www\\site.rollback-sfx");
        }
        _ => panic!(),
    }
    match &steps[1] {
        FrontendStep::Upload { remote_zip, files } => {
            assert_eq!(remote_zip, "D:\\www\\.shhd-fe-id9.zip");
            assert_eq!(files, &vec!["b.js".to_string()]);
        }
        _ => panic!(),
    }
    match &steps[3] {
        FrontendStep::Remove { dir, files } => {
            assert_eq!(dir, "D:\\www\\site");
            assert_eq!(files, &vec!["c.js".to_string()]);
        }
        _ => panic!(),
    }
    let plain = server_steps(OsType::Windows, &t, DeployMode::Full, None, "id9", &local, &vec![]);
    assert_eq!(plain.len(), 2);
    let replace = server_steps(OsType::Linux, &t, DeployMode::Replace, None, "x", &local, &remote);
    assert_eq!(replace.len(), 1);
    match &replace[0] {
        FrontendStep::ReplaceFromStaging { staging, live, delete_extraneous } => {
            assert_eq!(staging, "D:\\www\\site-staging");
            assert_eq!(live, "D:\\www\\site");
            assert!(*delete_extraneous);
        }
        _ => panic!(),
    }
}

#[test]
fn release_outcome() {
    assert_eq!(release_status(true, DeployMode::Stage), "staged");
    assert_eq!(release_status(true, DeployMode::Full), "success");
    assert_eq!(release_status(false, DeployMode::Stage), "failed");
    assert_eq!(release_message(None, "直接替换"), "前端部署完成（直接替换）");
    let long = "错".repeat(600);
    assert_eq!(release_message(Some(&long), "x").chars().count(), 500);
    assert_eq!(release_message(Some("boom"), "x"), "boom");
}

fn record(id: &str, status: &str, suffix: Option<&str>, targets: Vec<&str>) -> FrontendReleaseRecord {
    FrontendReleaseRecord {
        id: id.into(),
        created_at: "t".into(),
        mode: "直接替换".into(),
        group_name: "g".into(),
        target_ids: targets.into_iter().map(String::from).collect(),
        target_names: vec![],
        server_names: vec![],
        server_ids: vec![],
        backup_suffix: suffix.map(String::from),
        status: status.into(),
        message: String::new(),
    }
}

#[test]
fn frontend_rollback_checks() {
    let mut c = AppConfig::default();
    c.frontend_targets = vec![target("t1", vec!["w1"]), target("t2", vec![])];
    let records = vec![
        record("ok", "success", Some("sfx"), vec!["t2", "t1"]),
        record("staged", "staged", Some("sfx"), vec!["t1"]),
        record("broken", "failed", Some("sfx"), vec!["t1"]),
        record("nobackup", "success", Some(""), vec!["t1"]),
        record("gone", "success", Some("sfx"), vec!["t9"]),
    ];
    let plan = plan_frontend_rollback(&c, &records, "ok").unwrap();
    assert_eq!((plan.record, plan.suffix.as_str(), plan.targets), (0, "sfx", vec![0, 1]));
    assert_eq!(plan_frontend_rollback(&c, &records, "none").err().unwrap(), "找不到该前端发布记录");
    assert_eq!(
        plan_frontend_rollback(&c, &records, "staged").err().unwrap(),
        "只有带备份的成功发布才能回滚（当前状态: staged）"
    );
    assert_eq!(
        plan_frontend_rollback(&c, &records, "broken").err().unwrap(),
        "只有带备份的成功发布才能回滚（当前状态: failed）"
    );
    assert_eq!(
        plan_frontend_rollback(&c, &records, "nobackup").err().unwrap(),
        "该记录没有发布前备份，无法回滚（请勾选「替换前备份」后再发布）"
    );
    assert_eq!(
        plan_frontend_rollback(&c, &records, "gone").err().unwrap(),
        "发布记录中的项目在当前配置中不存在，无法回滚"
    );
}
