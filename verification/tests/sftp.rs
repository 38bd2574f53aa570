use kurumi_deploy::sftp::{
    after_failure, check_rename, clear_cancel, is_cancelled, is_hidden_name, is_listed_name, join_remote,
    remote_parent, request_cancel, should_skip_upload_name, size_mismatch, take_cancel, upload_relative_path,
    AfterFailure, TransferCancels,
};

#[test]
fn joining_remote_paths() {
    assert_eq!(join_remote("", "/etc"), "/etc");
    assert_eq!(join_remote("/", "//x"), "/x");
    assert_eq!(join_remote("\\", "a"), "/a");
    assert_eq!(join_remote("/home/", "a"), "/home/a");
    assert_eq!(join_remote("D:\\data", "f.txt"), "D:/data/f.txt");
    assert_eq!(remote_parent("/a/b/c.txt"), Some("/a/b".to_string()));
    assert_eq!(remote_parent("/c.txt"), Some("".to_string()));
    assert_eq!(remote_parent("c.txt"), None);
}

#[test]
fn names() {
    assert!(!is_listed_name("."));
    assert!(!is_listed_name(".."));
    assert!(is_listed_name("..."));
    assert!(is_hidden_name(".env"));
    assert!(!is_hidden_name("env"));
    assert_eq!(upload_relative_path(Some("dist"), "js\\app.js"), "dist/js/app.js");
    assert_eq!(upload_relative_path(None, "a\\b"), "a/b");
}

#[test]
fn skipped_upload_names() {
    for name in [
        "NTUSER.DAT", "ntuser.dat.LOG1", "UsrClass.dat", "x.regtrans-ms", "y.BLF", "pagefile.sys", "Thumbs.db",
        "desktop.ini", "$Recycle.Bin", "System Volume Information", "hiberfil.sys", "swapfile.sys",
        "DumpStack.log.tmp",
    ] {
        assert!(should_skip_upload_name(name), "{}", name);
    }
    for name in ["app.js", "blf", "my ntuser.dat", "pagefile.sys.bak"] {
        assert!(!should_skip_upload_name(name), "{}", name);
    }
}

#[test]
fn cancellations() {
    let mut c = TransferCancels::new();
    assert!(!is_cancelled(&c, "t1"));
    request_cancel(&mut c, "t1");
    request_cancel(&mut c, "t1");
    request_cancel(&mut c, "t2");
    assert!(is_cancelled(&c, "t1"));
    clear_cancel(&mut c, "t1");
    assert!(!is_cancelled(&c, "t1"));
    assert!(is_cancelled(&c, "t2"));
}

#[test]
fn retry_rule_and_checks() {
    assert_eq!(after_failure(0, true), AfterFailure::StopCancelled);
    assert_eq!(after_failure(0, false), AfterFailure::Retry);
    assert_eq!(after_failure(1, false), AfterFailure::GiveUp);
    assert_eq!(size_mismatch("/x", 10, 10), None);
    assert_eq!(size_mismatch("/x", 10, 7), Some("远端文件大小不符: /x 期望 10 实际 7".to_string()));
    assert_eq!(check_rename("a\\b", "a/b").err().unwrap(), "源路径与目标路径相同");
    assert_eq!(check_rename("a\\b", "a/c").unwrap(), ("a/b".to_string(), "a/c".to_string()));
}

#[test]
fn a_cancellation_stops_one_upload() {
    let mut c = TransferCancels::new();
    request_cancel(&mut c, "t1");
    request_cancel(&mut c, "t2");
    assert!(take_cancel(&mut c, "t1"));
    assert!(!take_cancel(&mut c, "t1"));
    assert!(!is_cancelled(&c, "t1"));
    assert!(is_cancelled(&c, "t2"));
    assert!(!take_cancel(&mut c, "t3"));
    assert!(take_cancel(&mut c, "t2"));
}
