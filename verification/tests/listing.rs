use kurumi_deploy::listing::{drive_entries, sort_local_entries, sort_sftp_entries, sort_upload_files, LocalDirEntry};
use kurumi_deploy::sftp::{LocalFileEntry, SftpEntry};

fn local(name: &str, is_dir: bool) -> LocalDirEntry {
    LocalDirEntry { name: name.into(), path: format!("/x/{}", name), is_dir, size: 0, mtime: 0, hidden: false }
}

#[test]
fn local_listing_order() {
    let entries = vec![local("b.txt", false), local("Zeta", true), local("A.txt", false), local("alpha", true), local("a.txt", false)];
    let sorted = sort_local_entries(entries);
    let names: Vec<&str> = sorted.iter().map(|e| e.name.as_str()).collect();
    assert_eq!(names, vec!["alpha", "Zeta", "A.txt", "a.txt", "b.txt"]);
}

#[test]
fn remote_listing_order() {
    let e = |name: &str, is_dir: bool| SftpEntry { name: name.into(), path: String::new(), is_dir, size: 1, mtime: 2, hidden: false };
    let sorted = sort_sftp_entries(vec![e("Éclair", false), e("eclair", false), e("dir", true), e("Dir", true)]);
    let names: Vec<&str> = sorted.iter().map(|x| x.name.as_str()).collect();
    assert_eq!(names, vec!["dir", "Dir", "eclair", "Éclair"]);
}

#[test]
fn upload_files_by_relative_path() {
    let f = |p: &str| LocalFileEntry { local_path: format!("C:\\{}", p), relative_path: p.into() };
    let sorted = sort_upload_files(vec![f("dist/b.js"), f("dist/a/z.js"), f("dist/B.js"), f("dist/a.js")]);
    let paths: Vec<&str> = sorted.iter().map(|x| x.relative_path.as_str()).collect();
    assert_eq!(paths, vec!["dist/B.js", "dist/a.js", "dist/a/z.js", "dist/b.js"]);
}

#[test]
fn drives_from_mask() {
    let drives = drive_entries(0b1100).unwrap();
    assert_eq!(drives.len(), 2);
    assert_eq!(drives[0].name, "C:");
    assert_eq!(drives[0].path, "C:\\");
    assert_eq!(drives[1].name, "D:");
    assert!(drives[1].is_dir);
    assert_eq!(drive_entries(0).err().unwrap(), "没有找到可用磁盘");
    assert_eq!(drive_entries(1 << 26).err().unwrap(), "没有找到可用磁盘");
    assert_eq!(drive_entries(1 << 25).unwrap()[0].name, "Z:");
}
