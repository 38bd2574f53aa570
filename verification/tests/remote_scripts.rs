use kurumi_deploy::backend::{
    cleanup_script, deploy_script, expand_plan, health_attempts, health_check_command_script, rollback_script,
    script_failure_message, smb_copy,
};
use kurumi_deploy::config::{AuthConfig, BackendGroup, BackendProject, CopyMode, OsType, ServerConfig};
use kurumi_deploy::frontend::{
    extract_script, remove_script, replace_script, restore_script, snapshot_script, step_script, FrontendStep,
};

fn project() -> BackendProject {
    BackendProject {
        id: "api".into(),
        name: "接口".into(),
        local_bin_dir: String::new(),
        remote_app_dir: "D:\\code\\sites\\api".into(),
        health_check_url: None,
        health_check_retries: 0,
        health_check_delay_secs: 3,
        stop_script: String::new(),
        start_script: String::new(),
        stop_iis_before_replace: false,
        ignore_rules: String::new(),
        whitelist_rules: String::new(),
        newer_than: None,
    }
}

fn group(staging: &str) -> BackendGroup {
    BackendGroup {
        id: "g".into(),
        name: "g".into(),
        server_ids: vec![],
        primary_server_id: None,
        secondary_server_id: None,
        staging_dir: staging.into(),
        backup_dir: "D:\\backup".into(),
        copy_mode: CopyMode::Smb,
        projects: vec![],
    }
}

fn target(auth: AuthConfig, user: &str) -> ServerConfig {
    ServerConfig {
        id: "b".into(),
        name: "备机".into(),
        os: OsType::Windows,
        host: "172.16.0.9".into(),
        port: 22,
        username: user.into(),
        auth,
        jump_server_id: None,
        group: None,
        detected_os: None,
        rdp_preset: None,
        sftp_remote_shortcuts: vec![],
        sftp_local_shortcuts: vec![],
    }
}

#[test]
fn deploy_and_rollback_scripts() {
    let g = group("D:\\staging");
    let s = deploy_script(&g, &project(), "r1", true, "20260812");
    assert!(s.starts_with("$ErrorActionPreference = 'Continue'\n$actionExit = 0\n\nif ($actionExit -eq 0) {\n  $targetDir = 'D:\\code\\sites\\api'\n  $siblingDir = 'D:\\code\\sites\\api-20260812'\n"));
    assert!(s.contains("robocopy 'D:\\staging\\r1\\api\\bin' 'D:\\code\\sites\\api\\bin' /MIR /R:5 /W:2 /NP /NFL /NDL"));
    assert!(s.contains("robocopy 'D:\\code\\sites\\api\\bin' 'D:\\backup\\r1\\api\\bin' /E"));
    let plain = deploy_script(&g, &project(), "r1", false, "20260812");
    assert!(!plain.contains("$siblingDir"));
    let rb = rollback_script(&g, &project(), "r1");
    assert!(rb.contains("if (-not (Test-Path -LiteralPath 'D:\\backup\\r1\\api\\bin')) { Write-Output '备份目录不存在: D:\\backup\\r1\\api\\bin'; $actionExit = 4 }"));
    assert!(rb.ends_with("exit $actionExit\n"));
}

#[test]
fn upload_expand_and_cleanup() {
    let plan = expand_plan("D:\\staging\\r1", &project());
    assert_eq!(plan.remote_zip, "D:\\staging\\r1\\_upload\\api.zip");
    assert_eq!(
        plan.script,
        "$ErrorActionPreference = 'Stop'\nif (Test-Path 'D:\\staging\\r1\\api\\bin') { Remove-Item -LiteralPath 'D:\\staging\\r1\\api\\bin' -Recurse -Force }\nExpand-Archive -LiteralPath 'D:\\staging\\r1\\_upload\\api.zip' -DestinationPath 'D:\\staging\\r1\\api\\bin' -Force\nWrite-Output '解压完成 -> D:\\staging\\r1\\api\\bin'"
    );
    assert_eq!(
        cleanup_script("D:\\staging\\r1"),
        "$uploadDir = 'D:\\staging\\r1\\_upload'\nif (Test-Path $uploadDir) { Remove-Item -LiteralPath $uploadDir -Recurse -Force }"
    );
}

#[test]
fn health_checks() {
    let s = health_check_command_script("http://h/a'b");
    assert!(s.starts_with("try { Invoke-WebRequest -Uri 'http://h/a''b' -UseBasicParsing -TimeoutSec 10"));
    assert_eq!(health_attempts(0), 1);
    assert_eq!(health_attempts(5), 5);
    let long = "x".repeat(2500);
    let m = script_failure_message("s1", 3, &long);
    assert_eq!(m.chars().count(), "服务器 s1 执行脚本失败(退出码 3): ".chars().count() + 2000);
}

#[test]
fn smb_copy_checks() {
    let t = target(AuthConfig::Password { password: "p'w".into() }, "administrator");
    let plan = smb_copy(&t, &group("D:/staging"), "r1").unwrap();
    assert_eq!(plan.staging_release, "D:\\staging\\r1");
    assert_eq!(plan.share_root, "\\\\172.16.0.9\\D$");
    assert_eq!(plan.remote_share_path, "\\\\172.16.0.9\\D$\\staging\\r1");
    assert!(plan.script.contains("$password = 'p''w'\n"));
    assert!(plan.script.contains("$users = @('administrator')\nif ('172.16.0.9\\administrator' -ne 'administrator')"));
    let domain = target(AuthConfig::Password { password: "x".into() }, "CORP\\ops");
    let plan = smb_copy(&domain, &group("E:\\s"), "r").unwrap();
    assert!(plan.script.contains("if ('CORP\\ops' -ne 'CORP\\ops')"));
    let key = target(AuthConfig::Key { key_path: "k".into(), passphrase: None }, "u");
    assert_eq!(
        smb_copy(&key, &group("D:\\s"), "r").err().unwrap(),
        "服务器 备机 使用密钥认证，无法走 SMB 复制，请把该组复制方式改为 upload"
    );
    assert_eq!(smb_copy(&t, &group(""), "r").err().unwrap(), "暂存目录配置为空");
    assert_eq!(
        smb_copy(&t, &group("\\\\nas\\share"), "r").err().unwrap(),
        "暂存目录必须是带盘符的 Windows 路径（如 D:\\code\\sites\\devlop），当前: \\\\nas\\share"
    );
    assert_eq!(smb_copy(&t, &group("D"), "").err().unwrap(), "暂存目录无效，无法拼出管理共享路径: D");
}

#[test]
fn frontend_scripts() {
    let s = extract_script(OsType::Linux, "/var/www/.shhd-fe-1.zip", "/var/www/site", false);
    assert!(s.starts_with("zip='/var/www/.shhd-fe-1.zip'\ndest='/var/www/site'\n"));
    let m = extract_script(OsType::Linux, "/a.zip", "/b", true);
    assert!(m.contains("extract=\"${dest}.extract-tmp\""));
    let w = extract_script(OsType::Windows, "D:/w/a.zip", "D:/w/site", true);
    assert!(w.contains("$zip = 'D:\\w\\a.zip'\n$dest = 'D:\\w\\site'\n$extract = if ($true) { 'D:\\w\\site.extract-tmp' } else { $dest }"));
    assert!(w.contains("robocopy $extract $dest /MIR"));
    let snap = snapshot_script(OsType::Linux, "/var/www/it's/", "/var/www/it's.rollback-1");
    assert!(snap.contains("cp -a '/var/www/it'\\''s' '/var/www/it'\\''s.rollback-1'"));
    let restore = restore_script(OsType::Windows, "D:\\w.rollback-1", "D:\\w\\");
    assert!(restore.contains("robocopy 'D:\\w.rollback-1' 'D:\\w' /MIR"));
    let rep = replace_script(OsType::Windows, "D:/s", "D:/w", true);
    assert!(rep.contains("robocopy 'D:\\s' 'D:\\w' /MIR /R:5") && rep.contains("已同步中转内容到 D:\\w（含删除多余文件）"));
    let rep2 = replace_script(OsType::Linux, "/s/", "/w", false);
    assert!(rep2.contains("cp -af '/s/.' '/w/'"));
    assert!(step_script(OsType::Linux, &FrontendStep::Upload { remote_zip: "x".into(), files: vec![] }).is_none());
    let ex = step_script(OsType::Linux, &FrontendStep::Extract { remote_zip: "/a.zip".into(), dest: "/b".into() }).unwrap();
    assert_eq!(ex, extract_script(OsType::Linux, "/a.zip", "/b", false));
    let files = vec!["js/old.js".to_string(), "it's.txt".to_string()];
    assert_eq!(
        remove_script(OsType::Linux, "/var/www/site/", &files),
        "cd '/var/www/site' || exit 3\nrm -f -- 'js/old.js' 'it'\\''s.txt'\necho '已删除多余文件'"
    );
    let w = remove_script(OsType::Windows, "D:/w", &files);
    assert!(w.contains("$dir = 'D:\\w'\nforeach ($f in @('js/old.js', 'it''s.txt')) { Remove-Item"));
    let st = step_script(OsType::Linux, &FrontendStep::Snapshot { live: "/a".into(), backup: "/b".into() }).unwrap();
    assert_eq!(st, snapshot_script(OsType::Linux, "/a", "/b"));
}
