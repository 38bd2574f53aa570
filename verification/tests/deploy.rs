use kurumi_deploy::config::{BackendGroup, BackendProject, CopyMode, FrontendTarget, OsType};
use kurumi_deploy::deploy::{
    backend_mode_text, backend_paths, default_deploy_mode, default_mode, escape_ps, escape_sh, join_native,
    mode_label, native_path, parent_dir, ps_single_quote, relative_site_path, rollback_backup_dir, staging_dir_of,
    trim_dir, win_join, wrap_project_scripts, DeployMode,
};

fn project(dir: &str) -> BackendProject {
    BackendProject {
        id: "svc".into(),
        name: "服务".into(),
        local_bin_dir: String::new(),
        remote_app_dir: dir.into(),
        health_check_url: None,
        health_check_retries: 10,
        health_check_delay_secs: 3,
        stop_script: String::new(),
        start_script: String::new(),
        stop_iis_before_replace: false,
        ignore_rules: String::new(),
        whitelist_rules: String::new(),
        newer_than: None,
    }
}

#[test]
fn backend_paths_and_joins() {
    assert_eq!(relative_site_path("D:\\code\\sites\\to\\service\\rest", "x"), "to\\service\\rest");
    assert_eq!(relative_site_path("D:\\Code\\SITES\\api", "x"), "api");
    assert_eq!(relative_site_path("D:\\apps\\api", "fallback"), "fallback");
    assert_eq!(win_join("D:/staging/", "\\rel/x"), "D:\\staging\\rel\\x");
    assert_eq!(ps_single_quote("it's"), "it''s");
    let g = BackendGroup {
        id: "g".into(),
        name: "g".into(),
        server_ids: vec![],
        primary_server_id: None,
        secondary_server_id: None,
        staging_dir: "D:\\staging".into(),
        backup_dir: "D:\\backup".into(),
        copy_mode: CopyMode::Smb,
        projects: vec![],
    };
    let p = project("D:\\code\\sites\\api\\");
    let paths = backend_paths(&g, &p, "20260812-x", "20260812");
    assert_eq!(paths.rel_path, "api\\");
    assert_eq!(paths.app_bin, "D:\\code\\sites\\api\\bin");
    assert_eq!(paths.staging_bin, "D:\\staging\\20260812-x\\api\\bin");
    assert_eq!(paths.backup_bin, "D:\\backup\\20260812-x\\api\\bin");
    assert_eq!(paths.sibling_dir, "D:\\code\\sites\\api-20260812");
}

#[test]
fn modes() {
    assert_eq!(default_deploy_mode(), DeployMode::Full);
    assert_eq!(default_mode(), DeployMode::Full);
    assert_eq!(mode_label(DeployMode::Stage), "仅上传到中转");
    assert_eq!(mode_label(DeployMode::Full), "直接替换");
    assert_eq!(backend_mode_text(DeployMode::Full), "上传并替换");
    assert_eq!(backend_mode_text(DeployMode::Replace), "从中转替换");
}

#[test]
fn frontend_paths() {
    assert_eq!(trim_dir("/var/www/\\/"), "/var/www");
    assert_eq!(escape_ps("a'b"), "a''b");
    assert_eq!(escape_sh("a'b"), "a'\\''b");
    assert_eq!(native_path(OsType::Windows, "D:/a/b"), "D:\\a\\b");
    assert_eq!(native_path(OsType::Linux, "a\\b"), "a/b");
    assert_eq!(parent_dir("/var/www/site/"), "/var/www");
    assert_eq!(parent_dir("site"), "site");
    assert_eq!(join_native(OsType::Linux, "/var/www/", "x.zip"), "/var/www/x.zip");
    assert_eq!(join_native(OsType::Windows, "D:/www", "x.zip"), "D:\\www\\x.zip");
    assert_eq!(rollback_backup_dir("/var/www/site/", "s1"), "/var/www/site.rollback-s1");
    let mut t = FrontendTarget {
        id: "t".into(),
        name: "t".into(),
        server_ids: vec![],
        local_dir: String::new(),
        remote_dir: "/var/www/site".into(),
        staging_dir: Some("  ".into()),
        delete_extraneous: false,
        group: None,
        pack_command: None,
        pack_work_dir: None,
    };
    assert_eq!(staging_dir_of(&t), "/var/www/site-staging");
    t.staging_dir = Some(" /data/stage/ ".into());
    assert_eq!(staging_dir_of(&t), "/data/stage");
}

#[test]
fn project_scripts_wrap_the_replacement() {
    let mut p = project("D:\\sites\\api");
    assert_eq!(
        wrap_project_scripts(&p, "robocopy"),
        "$ErrorActionPreference = 'Continue'\n$actionExit = 0\nrobocopy\nif ($null -eq $actionExit) { $actionExit = 0 }\nexit $actionExit\n"
    );
    p.stop_script = "Stop-Service '{projectName}'".into();
    assert_eq!(
        wrap_project_scripts(&p, "robocopy"),
        "$ErrorActionPreference = 'Continue'\n$actionExit = 0\ntry {\nStop-Service '服务'\nrobocopy\n} finally {\n}\nif ($null -eq $actionExit) { $actionExit = 0 }\nexit $actionExit\n"
    );
}
