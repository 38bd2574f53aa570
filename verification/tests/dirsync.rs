use kurumi_deploy::config::OsType;
use kurumi_deploy::dirsync::{files_to_remove, files_to_upload, find_entry, listing_script, parse_file_listing, paths_of};

fn entry(path: &str, size: u64, hash: &str) -> (String, u64, String) {
    (path.to_string(), size, hash.to_string())
}

#[test]
fn only_new_or_changed_files_are_uploaded() {
    let local = vec![
        entry("index.html", 100, "aaa"),
        entry("js/app.js", 200, "bbb"),
        entry("css/site.css", 50, "ccc"),
        entry("img/new.png", 10, "ddd"),
    ];
    let remote = vec![
        entry("index.html", 100, "aaa"),
        entry("js/app.js", 200, "xxx"),
        entry("css/site.css", 51, "ccc"),
        entry("old.txt", 1, "eee"),
    ];
    assert_eq!(files_to_upload(&local, &remote), vec![1, 2, 3]);
    assert_eq!(files_to_remove(&local, &remote), vec![3]);
    assert!(files_to_upload(&local, &local).is_empty());
    assert!(files_to_remove(&local, &local).is_empty());
    assert_eq!(files_to_upload(&local, &vec![]), vec![0, 1, 2, 3]);
    let picks = files_to_upload(&local, &remote);
    assert_eq!(paths_of(&local, &picks), vec!["js/app.js", "css/site.css", "img/new.png"]);
}

#[test]
fn the_first_server_entry_of_a_path_counts() {
    let remote = vec![entry("a", 1, "h1"), entry("a", 2, "h2")];
    assert_eq!(find_entry(&remote, &"a".to_string()), Some(0));
    assert_eq!(find_entry(&remote, &"b".to_string()), None);
    assert!(files_to_upload(&vec![entry("a", 1, "h1")], &remote).is_empty());
    assert_eq!(files_to_upload(&vec![entry("a", 2, "h2")], &remote), vec![0]);
}

#[test]
fn reading_a_server_listing() {
    let out = "120\t0CC175B9C0F1B6A831C399E269772661\tindex.html\r\n7\td41d8cd98f00b204e9800998ecf8427e\tjs/a b.js\nnot a line\n\tx\ty\nabc\th\tp\n";
    let entries = parse_file_listing(out);
    assert_eq!(
        entries,
        vec![
            entry("index.html", 120, "0cc175b9c0f1b6a831c399e269772661"),
            entry("js/a b.js", 7, "d41d8cd98f00b204e9800998ecf8427e"),
        ]
    );
    assert!(parse_file_listing("").is_empty());
}

#[test]
fn listing_scripts() {
    let l = listing_script(OsType::Linux, "/usr/share/nginx/html");
    assert!(l.starts_with("cd '/usr/share/nginx/html' 2>/dev/null || exit 0\nfind . -type f"));
    assert!(l.contains("md5sum"));
    let w = listing_script(OsType::Windows, "D:\\www");
    assert!(w.starts_with("$dir = 'D:\\www'\n"));
    assert!(w.contains("Get-FileHash -LiteralPath $_.FullName -Algorithm MD5"));
}
