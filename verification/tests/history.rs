use kurumi_deploy::deploy::DeployMode;
use kurumi_deploy::history::{
    finish_backend_release, find_release, mark_release_success, record_frontend_rollback, record_rollback,
    save_frontend_release, save_release, FrontendReleaseRecord, ReleaseRecord,
};

fn rec(id: &str, name: &str, status: &str) -> ReleaseRecord {
    ReleaseRecord {
        id: id.into(),
        release_name: name.into(),
        group_id: "g1".into(),
        group_name: "生产".into(),
        project_ids: vec!["a".into()],
        server_ids: vec!["s1".into(), "s2".into()],
        created_at: "2026-01-01 00:00:00".into(),
        status: status.into(),
    }
}

fn fe(id: &str, status: &str) -> FrontendReleaseRecord {
    FrontendReleaseRecord {
        id: id.into(),
        created_at: "2026-02-02 02:02:02".into(),
        mode: "直接替换".into(),
        group_name: "测试".into(),
        target_ids: vec!["t1".into()],
        target_names: vec!["官网".into()],
        server_names: vec!["web1".into()],
        server_ids: vec!["w1".into()],
        backup_suffix: Some("20260202020202-abcdef12".into()),
        status: status.into(),
        message: "前端部署完成（直接替换）".into(),
    }
}

#[test]
fn history_is_newest_first_and_bounded() {
    let mut records = Vec::new();
    for i in 0..105 {
        records = save_release(records, rec(&format!("id{}", i), "r", "success"));
        assert!(records.len() <= 100);
        assert_eq!(records[0].id, format!("id{}", i));
    }
    assert_eq!(records.len(), 100);
    assert_eq!(records[99].id, "id5");
    let fronts = save_frontend_release(vec![fe("old", "success")], fe("new", "staged"));
    assert_eq!(fronts.iter().map(|r| r.id.as_str()).collect::<Vec<_>>(), vec!["new", "old"]);
}

#[test]
fn staged_release_is_promoted_once() {
    let mut records = vec![rec("1", "r1", "success"), rec("2", "r1", "staged"), rec("3", "r1", "staged")];
    assert!(mark_release_success(&mut records, "g1", "r1", "2026-08-12 12:00:00"));
    assert_eq!(records[1].status, "success");
    assert_eq!(records[1].created_at, "2026-08-12 12:00:00");
    assert_eq!(records[2].status, "staged");
    assert!(!mark_release_success(&mut records, "g2", "r1", "now"));
    assert!(!mark_release_success(&mut records, "g1", "r9", "now"));
}

#[test]
fn finishing_a_backend_release() {
    let mut records = vec![rec("1", "r1", "staged")];
    let promoted = finish_backend_release(
        &mut records, DeployMode::Replace, "g1", "生产", "r1", &vec!["a".into()], &vec!["s1".into()], "new", "now",
    );
    assert!(promoted);
    assert_eq!(records.len(), 1);
    assert_eq!(records[0].status, "success");
    let promoted = finish_backend_release(
        &mut records, DeployMode::Replace, "g1", "生产", "r2", &vec!["a".into()], &vec!["s1".into()], "n2", "t2",
    );
    assert!(!promoted);
    assert_eq!(records[0].id, "n2");
    assert_eq!(records[0].status, "success");
    finish_backend_release(&mut records, DeployMode::Stage, "g1", "生产", "r3", &vec![], &vec![], "n3", "t3");
    assert_eq!(records[0].status, "staged");
    assert_eq!(records[0].release_name, "r3");
    assert_eq!(records.len(), 3);
}

#[test]
fn backend_rollback_record() {
    let records = vec![rec("a", "r1", "success"), rec("b", "r0", "success"), rec("a", "r1", "failed")];
    let out = record_rollback(records, &rec("a", "r1", "success"), "rb", "2026-03-03 03:03:03");
    assert_eq!(out.len(), 4);
    assert_eq!(out[0].id, "rb");
    assert_eq!(out[0].release_name, "回滚 r1");
    assert_eq!(out[0].status, "rollback");
    assert_eq!(out[0].server_ids, vec!["s1".to_string(), "s2".to_string()]);
    assert_eq!(out[1].status, "rolled_back");
    assert_eq!(out[2].status, "success");
    assert_eq!(out[3].status, "failed");
    assert_eq!(find_release(&out, "b"), Some(2));
    assert_eq!(find_release(&out, "zz"), None);
}

#[test]
fn frontend_rollback_record() {
    let records = vec![fe("x", "failed"), fe("x", "staged"), fe("y", "success")];
    let out = record_frontend_rollback(records, &fe("x", "failed"), "new", "2026-04-04 04:04:04");
    assert_eq!(out[0].mode, "回滚");
    assert_eq!(out[0].backup_suffix, None);
    assert_eq!(out[0].message, "已回滚到 2026-02-02 02:02:02 发布前的备份");
    assert_eq!(out[0].status, "rollback");
    assert_eq!(out[1].status, "rolled_back");
    assert_eq!(out[2].status, "staged");
    assert_eq!(out[3].status, "success");
}
