use kurumi_deploy::events::{
    init, is_enabled, log_entry, log_file_name, log_tail, push_task_log, recent_lines, register_task, set_enabled,
    task_log_line, LogSwitch, TaskLogPayload, TaskStatePayload,
};

#[test]
fn task_logs_are_bounded() {
    let mut logs: Vec<String> = Vec::new();
    for i in 0..501 {
        push_task_log(&mut logs, format!("line {}", i));
    }
    assert_eq!(logs.len(), 401);
    assert_eq!(logs[0], "line 100");
    assert_eq!(task_log_line("10:00:00", "info", "开始"), "[10:00:00][info] 开始");
    let tail = log_tail(&logs, 80);
    assert_eq!(tail.len(), 80);
    assert_eq!(tail[79], "line 500");
    assert_eq!(log_tail(&vec!["a".to_string()], 80), vec!["a".to_string()]);
}

#[test]
fn recent_tasks_are_kept() {
    let mut order: Vec<String> = Vec::new();
    for i in 0..50 {
        assert!(register_task(&mut order, &format!("t{}", i)).is_empty());
    }
    let dropped = register_task(&mut order, "t50");
    assert_eq!(dropped, vec!["t0".to_string()]);
    assert_eq!(order.len(), 50);
    assert_eq!(order[0], "t1");
}

#[test]
fn diagnostic_log() {
    let mut switch = LogSwitch { enabled: false };
    init(&mut switch, true);
    assert!(is_enabled(&switch));
    set_enabled(&mut switch, false);
    assert!(!is_enabled(&switch));
    assert_eq!(log_file_name("20260812"), "app-20260812.log");
    assert_eq!(log_entry("2026-08-12 10:00:00", "x"), "[2026-08-12 10:00:00] x\n");
    assert_eq!(recent_lines("a\nb\nc\n", 2), "b\nc");
    assert_eq!(recent_lines("a\r\nb", 5), "a\r\nb");
    let p = TaskLogPayload { task_id: "t".into(), level: "info".into(), message: "m".into(), ts: "1".into() };
    let s = TaskStatePayload { task_id: p.task_id.clone(), state: "running".into(), message: String::new() };
    assert_eq!(s.task_id, "t");
}
