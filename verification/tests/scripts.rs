use kurumi_deploy::config::BackendProject;
use kurumi_deploy::scripts::{fill_placeholders, resolve_scripts, wrap_with_service_scripts, IIS_START_SCRIPT, IIS_STOP_SCRIPT};

fn project(stop: &str, start: &str, iis: bool) -> BackendProject {
    BackendProject {
        id: "p".into(),
        name: "O'Brien".into(),
        local_bin_dir: String::new(),
        remote_app_dir: "D:\\sites\\app\\".into(),
        health_check_url: None,
        health_check_retries: 10,
        health_check_delay_secs: 3,
        stop_script: stop.into(),
        start_script: start.into(),
        stop_iis_before_replace: iis,
        ignore_rules: String::new(),
        whitelist_rules: String::new(),
        newer_than: None,
    }
}

#[test]
fn placeholders_are_filled_escaped() {
    assert_eq!(
        fill_placeholders("'{appDir}' '{appBin}' '{projectName}' {appDir}", "D:\\a\\", "D:\\a", "it's"),
        "'D:\\a' 'D:\\a' 'it''s' D:\\a"
    );
}

#[test]
fn scripts_chosen_per_project() {
    let (stop, start) = resolve_scripts(&project("stop {projectName}", "", false));
    assert_eq!(stop, "stop O''Brien");
    assert_eq!(start, "");
    let (stop, start) = resolve_scripts(&project(" ", "\n", true));
    assert_eq!(stop, fill_placeholders(IIS_STOP_SCRIPT, "D:\\sites\\app\\", "D:\\sites\\app", "O'Brien"));
    assert_eq!(start, fill_placeholders(IIS_START_SCRIPT, "D:\\sites\\app\\", "D:\\sites\\app", "O'Brien"));
    assert!(!stop.contains("{appDir}"));
    let (stop, start) = resolve_scripts(&project("", "", false));
    assert_eq!((stop.as_str(), start.as_str()), ("", ""));
}

#[test]
fn start_script_runs_in_finally() {
    assert_eq!(
        wrap_with_service_scripts("stop", "start", "work"),
        "$ErrorActionPreference = 'Continue'\n$actionExit = 0\ntry {\nstop\nwork\n} finally {\nstart\n}\nif ($null -eq $actionExit) { $actionExit = 0 }\nexit $actionExit\n"
    );
}
