//! File browsing over SFTP: remote path joining, the names never uploaded,
//! the set of transfers the user cancelled, and the retry rule shared by
//! the remote file operations.

use vstd::prelude::*;
use crate::ssh::{spec_to_sftp_path, to_sftp_path};
use crate::text::{
    ascii_lower, ascii_lower_exec, chars_of, ends_with, ends_with_exec, owned, push_char, rfind_char,
    starts_with, starts_with_exec, str_eq, string_of, take_exec, trim_start_char, trim_start_char_exec,
    views,
};

verus! {

/// An entry of a remote directory.
#[derive(Clone, Debug)]
pub struct SftpEntry {
    pub name: String,
    pub path: String,
    pub is_dir: bool,
    pub size: u64,
    pub mtime: u32,
    /// Names starting with '.'.
    pub hidden: bool,
}

/// A local file to upload, with the path it keeps below the target.
#[derive(Clone, Debug)]
pub struct LocalFileEntry {
    pub local_path: String,
    pub relative_path: String,
}

/// Upload progress as reported to the user.
#[derive(Clone, Debug)]
pub struct SftpProgressPayload {
    pub transfer_id: String,
    pub file_name: String,
    pub transferred: u64,
    pub total: u64,
    pub done: bool,
    /// Position of the file in its batch, from 1.
    pub file_index: u32,
    pub file_count: u32,
}

// ---------------------------------------------------------------------
// Remote paths
// ---------------------------------------------------------------------

/// `name` inside the remote directory `parent` (normalised for SFTP): at
/// the root a single leading '/' is used; otherwise one '/' between them.
pub open spec fn spec_join_remote(parent: Seq<char>, name: Seq<char>) -> Seq<char> {
    let base = spec_to_sftp_path(parent);
    if base.len() == 0 || base == "/"@ {
        seq!['/'] + trim_start_char(name, '/')
    } else if base.last() == '/' {
        base + name
    } else {
        base + seq!['/'] + name
    }
}

pub fn join_remote(parent: &str, name: &str) -> (r: String)
    ensures
        r@ == spec_join_remote(parent@, name@),
{
    let base = to_sftp_path(parent);
    if base.as_str().is_empty() || str_eq(base.as_str(), "/") {
        let v = chars_of(name);
        let t = trim_start_char_exec(v.as_slice(), '/');
        let mut out = owned("/");
        proof {
            reveal_strlit("/");
        }
        let rest = string_of(t.as_slice());
        out.append(rest.as_str());
        assert(out@ =~= seq!['/'] + trim_start_char(name@, '/'));
        return out;
    }
    let b = chars_of(base.as_str());
    let mut out = base;
    if b[b.len() - 1] != '/' {
        push_char(&mut out, '/');
    }
    out.append(name);
    out
}

/// Directory part of a remote file path: everything before its last '/',
/// when it has one.
pub open spec fn spec_remote_parent(path: Seq<char>) -> Option<Seq<char>> {
    if exists|j: int| 0 <= j < path.len() && path[j] == '/' {
        let pos = choose|j: int| 0 <= j < path.len() && path[j] == '/' && forall|k: int| j < k < path.len() ==> path[k] != '/';
        Some(path.take(pos))
    } else {
        None
    }
}

pub fn remote_parent(path: &str) -> (r: Option<String>)
    ensures
        match (r, spec_remote_parent(path@)) {
            (Some(a), Some(b)) => a@ == b,
            (None, None) => true,
            _ => false,
        },
{
    let v = chars_of(path);
    match rfind_char(v.as_slice(), '/') {
        Some(pos) => {
            proof {
                let p = choose|j: int| 0 <= j < v@.len() && v@[j] == '/' && forall|k: int| j < k < v@.len() ==> v@[k] != '/';
                assert(p == pos as int) by {
                    if p < pos {
                    } else if p > pos {
                    }
                }
            }
            let t = take_exec(v.as_slice(), pos);
            Some(string_of(t.as_slice()))
        },
        None => None,
    }
}

/// Whether a listed name is shown: "." and ".." are not.
pub fn is_listed_name(name: &str) -> (r: bool)
    ensures
        r == (name@ != "."@ && name@ != ".."@),
{
    !str_eq(name, ".") && !str_eq(name, "..")
}

/// Whether a listed name is hidden (starts with '.').
pub fn is_hidden_name(name: &str) -> (r: bool)
    ensures
        r == (name@.len() > 0 && name@[0] == '.'),
{
    let v = chars_of(name);
    v.len() > 0 && v[0] == '.'
}

/// Where a local file goes below the upload target: inside the dropped
/// folder's name when there is one, with '\' turned into '/'.
pub open spec fn spec_upload_relative_path(folder: Option<Seq<char>>, stripped: Seq<char>) -> Seq<char> {
    let rel = crate::text::replace_char(stripped, '\\', '/');
    match folder {
        Some(name) => name + seq!['/'] + rel,
        None => rel,
    }
}

pub fn upload_relative_path(folder: Option<&str>, stripped: &str) -> (r: String)
    ensures
        r@ == spec_upload_relative_path(
            match folder {
                Some(f) => Some(f@),
                None => None,
            },
            stripped@,
        ),
{
    let v = chars_of(stripped);
    let rel = crate::text::replace_char_exec(v.as_slice(), '\\', '/');
    let rel_s = string_of(rel.as_slice());
    match folder {
        Some(name) => {
            let mut out = owned(name);
            push_char(&mut out, '/');
            out.append(rel_s.as_str());
            out
        },
        None => rel_s,
    }
}

// ---------------------------------------------------------------------
// Files never uploaded
// ---------------------------------------------------------------------

/// Windows files that cannot be copied reliably: registry transaction logs,
/// user hives, page and hibernation files and a few system folders
/// (compared without ASCII case).
pub open spec fn spec_should_skip_upload_name(name: Seq<char>) -> bool {
    let lower = ascii_lower(name);
    ||| ends_with(lower, ".regtrans-ms"@)
    ||| ends_with(lower, ".blf"@)
    ||| starts_with(lower, "ntuser.dat"@)
    ||| starts_with(lower, "usrclass.dat"@)
    ||| lower == "pagefile.sys"@
    ||| lower == "hiberfil.sys"@
    ||| lower == "swapfile.sys"@
    ||| lower == "dumpstack.log.tmp"@
    ||| lower == "thumbs.db"@
    ||| lower == "desktop.ini"@
    ||| lower == "$recycle.bin"@
    ||| lower == "system volume information"@
}

pub fn should_skip_upload_name(name: &str) -> (r: bool)
    ensures
        r == spec_should_skip_upload_name(name@),
{
    let v = chars_of(name);
    let lower_v = ascii_lower_exec(v.as_slice());
    let lower = string_of(lower_v.as_slice());
    let l = lower.as_str();
    let a = chars_of(".regtrans-ms");
    let b = chars_of(".blf");
    let c = chars_of("ntuser.dat");
    let d = chars_of("usrclass.dat");
    ends_with_exec(lower_v.as_slice(), a.as_slice()) || ends_with_exec(lower_v.as_slice(), b.as_slice())
        || starts_with_exec(lower_v.as_slice(), c.as_slice()) || starts_with_exec(lower_v.as_slice(), d.as_slice())
        || str_eq(l, "pagefile.sys") || str_eq(l, "hiberfil.sys") || str_eq(l, "swapfile.sys")
        || str_eq(l, "dumpstack.log.tmp") || str_eq(l, "thumbs.db") || str_eq(l, "desktop.ini")
        || str_eq(l, "$recycle.bin") || str_eq(l, "system volume information")
}

// ---------------------------------------------------------------------
// Cancelled transfers
// ---------------------------------------------------------------------

/// Transfers the user asked to stop; each id at most once.
pub struct TransferCancels {
    ids: Vec<String>,
}

impl TransferCancels {
    /// The ids currently cancelled.
    pub closed spec fn view(&self) -> Set<Seq<char>> {
        views(self.ids@).to_set()
    }

    pub closed spec fn wf(&self) -> bool {
        views(self.ids@).no_duplicates()
    }

    pub fn new() -> (r: TransferCancels)
        ensures
            r.wf(),
            r.view() == Set::<Seq<char>>::empty(),
    {
        let r = TransferCancels { ids: Vec::new() };
        assert(views(r.ids@).to_set() =~= Set::<Seq<char>>::empty());
        r
    }
}

/// Whether the transfer was cancelled.
pub fn is_cancelled(cancels: &TransferCancels, transfer_id: &str) -> (r: bool)
    ensures
        r == cancels.view().contains(transfer_id@),
{
    crate::text::strings_contain(&cancels.ids, transfer_id)
}

/// Marks a transfer cancelled; the file being written stops at its next chunk.
pub fn request_cancel(cancels: &mut TransferCancels, transfer_id: &str)
    requires
        old(cancels).wf(),
    ensures
        final(cancels).wf(),
        final(cancels).view() == old(cancels).view().insert(transfer_id@),
{
    if !crate::text::strings_contain(&cancels.ids, transfer_id) {
        let ghost before = views(cancels.ids@);
        cancels.ids.push(owned(transfer_id));
        assert(views(cancels.ids@) =~= before.push(transfer_id@));
        assert(views(cancels.ids@).to_set() =~= before.to_set().insert(transfer_id@)) by {
            assert forall|x: Seq<char>| #[trigger] views(cancels.ids@).to_set().contains(x) <==> before.to_set().insert(transfer_id@).contains(x) by {
                if before.contains(x) {
                    let k = choose|k: int| 0 <= k < before.len() && before[k] == x;
                    assert(views(cancels.ids@)[k] == x);
                }
                if x == transfer_id@ {
                    assert(views(cancels.ids@)[before.len() as int] == x);
                }
                if views(cancels.ids@).contains(x) && x != transfer_id@ {
                    let k = choose|k: int| 0 <= k < views(cancels.ids@).len() && views(cancels.ids@)[k] == x;
                    assert(k < before.len());
                    assert(before[k] == x);
                }
            }
        }
        assert(views(cancels.ids@).no_duplicates()) by {
            assert forall|i: int, j: int| 0 <= i < views(cancels.ids@).len() && 0 <= j < views(cancels.ids@).len() && i != j
                implies views(cancels.ids@)[i] != views(cancels.ids@)[j] by {
                if i == before.len() as int {
                    assert(before[j] == views(cancels.ids@)[j]);
                } else if j == before.len() as int {
                    assert(before[i] == views(cancels.ids@)[i]);
                }
            }
        }
    } else {
        proof {
            assert(cancels.view() =~= cancels.view().insert(transfer_id@));
        }
    }
}

/// Forgets a transfer's cancellation.
pub fn clear_cancel(cancels: &mut TransferCancels, transfer_id: &str)
    requires
        old(cancels).wf(),
    ensures
        final(cancels).wf(),
        final(cancels).view() == old(cancels).view().remove(transfer_id@),
{
    let ghost before = views(cancels.ids@);
    let mut kept: Vec<String> = Vec::new();
    let mut i: usize = 0;
    while i < cancels.ids.len()
        invariant
            i <= cancels.ids@.len(),
            before == views(cancels.ids@),
            before.no_duplicates(),
            views(kept@).no_duplicates(),
            forall|x: Seq<char>| #[trigger] views(kept@).contains(x) <==> (before.take(i as int).contains(x) && x != transfer_id@),
        decreases cancels.ids.len() - i,
    {
        let ghost old_kept = views(kept@);
        if !str_eq(cancels.ids[i].as_str(), transfer_id) {
            let s = owned(cancels.ids[i].as_str());
            kept.push(s);
            assert(views(kept@) =~= old_kept.push(before[i as int]));
            assert(!old_kept.contains(before[i as int])) by {
                if old_kept.contains(before[i as int]) {
                    assert(before.take(i as int).contains(before[i as int]));
                    let k = choose|k: int| 0 <= k < i && before.take(i as int)[k] == before[i as int];
                    assert(before[k] == before[i as int]);
                }
            }
            assert(views(kept@).no_duplicates()) by {
                assert forall|a: int, b: int| 0 <= a < views(kept@).len() && 0 <= b < views(kept@).len() && a != b
                    implies views(kept@)[a] != views(kept@)[b] by {
                    if a == old_kept.len() as int {
                        assert(old_kept.contains(old_kept[b]));
                    } else if b == old_kept.len() as int {
                        assert(old_kept.contains(old_kept[a]));
                    }
                }
            }
        }
        assert forall|x: Seq<char>| #[trigger] views(kept@).contains(x) <==> (before.take(i + 1).contains(x) && x != transfer_id@) by {
            let t1 = before.take(i + 1);
            assert(t1 =~= before.take(i as int).push(before[i as int]));
            if views(kept@).contains(x) {
                let k = choose|k: int| 0 <= k < views(kept@).len() && views(kept@)[k] == x;
                if k < old_kept.len() {
                    assert(old_kept[k] == x);
                    assert(old_kept.contains(x));
                    let k2 = choose|k2: int| 0 <= k2 < i && #[trigger] before.take(i as int)[k2] == x;
                    assert(t1[k2] == x);
                } else {
                    assert(x == before[i as int]);
                    assert(t1[i as int] == x);
                    assert(x != transfer_id@);
                }
            }
            if t1.contains(x) && x != transfer_id@ {
                let k = choose|k: int| 0 <= k < i + 1 && #[trigger] t1[k] == x;
                if k < i {
                    assert(before.take(i as int)[k] == x);
                    assert(old_kept.contains(x));
                    let k3 = choose|k3: int| 0 <= k3 < old_kept.len() && old_kept[k3] == x;
                    assert(views(kept@)[k3] == x);
                } else {
                    assert(views(kept@)[views(kept@).len() - 1] == x);
                }
            }
        }
        i = i + 1;
    }
    assert(before.take(before.len() as int) =~= before);
    cancels.ids = kept;
    assert(cancels.view() =~= old(cancels).view().remove(transfer_id@)) by {
        assert forall|x: Seq<char>| #[trigger] cancels.view().contains(x) <==> old(cancels).view().remove(transfer_id@).contains(x) by {
        }
    }
}

/// Whether the transfer was cancelled; either way it is no longer marked,
/// so the cancellation stops one upload and no later one.
pub fn take_cancel(cancels: &mut TransferCancels, transfer_id: &str) -> (r: bool)
    requires
        old(cancels).wf(),
    ensures
        final(cancels).wf(),
        r == old(cancels).view().contains(transfer_id@),
        final(cancels).view() == old(cancels).view().remove(transfer_id@),
{
    let r = is_cancelled(cancels, transfer_id);
    if r {
        clear_cancel(cancels, transfer_id);
    } else {
        assert(cancels.view() =~= cancels.view().remove(transfer_id@));
    }
    r
}

/// A cancellation is seen by exactly one upload: once `request_cancel`
/// marked a transfer, taking the mark reports it and clears it, taking it
/// again reports nothing, and the other transfers' marks are untouched.
pub proof fn lemma_cancel_is_taken_once(marked: Set<Seq<char>>, transfer_id: Seq<char>)
    ensures
        marked.insert(transfer_id).contains(transfer_id),
        !marked.insert(transfer_id).remove(transfer_id).contains(transfer_id),
        forall|other: Seq<char>|
            other != transfer_id ==> (#[trigger] marked.insert(transfer_id).remove(transfer_id).contains(other)
                <==> marked.contains(other)),
{
}

/// A cancellation is seen until it is cleared, and concerns its transfer
/// only: after `request_cancel(a)` then `clear_cancel(b)`, `a` is still
/// cancelled exactly when it differs from `b`, and any other id is as before.
pub proof fn lemma_cancel_then_clear(before: Set<Seq<char>>, a: Seq<char>, b: Seq<char>, other: Seq<char>)
    requires
        other != a,
        other != b,
    ensures
        before.insert(a).contains(a),
        before.insert(a).remove(b).contains(a) <==> a != b,
        before.insert(a).remove(a).contains(a) == false,
        before.insert(a).remove(b).contains(other) == before.contains(other),
{
}

// ---------------------------------------------------------------------
// Retrying remote operations
// ---------------------------------------------------------------------

/// What to do after a remote file operation failed on a cached session.
#[derive(Clone, Copy, Debug, PartialEq, Eq, Structural)]
pub enum AfterFailure {
    /// The user cancelled it: report the error, clear the cancellation.
    StopCancelled,
    /// Drop the cached session and try once more on a new one.
    Retry,
    /// Drop the cached session and report the error.
    GiveUp,
}

/// Remote operations get two attempts; a cancelled upload is not retried.
pub fn after_failure(attempt: u32, cancelled: bool) -> (r: AfterFailure)
    ensures
        cancelled ==> r == AfterFailure::StopCancelled,
        !cancelled && attempt == 0 ==> r == AfterFailure::Retry,
        !cancelled && attempt != 0 ==> r == AfterFailure::GiveUp,
{
    if cancelled {
        AfterFailure::StopCancelled
    } else if attempt == 0 {
        AfterFailure::Retry
    } else {
        AfterFailure::GiveUp
    }
}

/// The message of a size check after an upload, when the remote size
/// differs from the local one.
pub fn size_mismatch(remote: &str, expected: u64, actual: u64) -> (r: Option<String>)
    ensures
        expected == actual ==> r is None,
        expected != actual ==> match r {
            Some(m) => m@ == "远端文件大小不符: "@ + remote@ + " 期望 "@ + crate::text::decimal(expected as nat) + " 实际 "@ + crate::text::decimal(actual as nat),
            None => false,
        },
{
    if expected == actual {
        return None;
    }
    let mut m = owned("远端文件大小不符: ");
    m.append(remote);
    m.append(" 期望 ");
    crate::text::push_decimal(&mut m, expected);
    m.append(" 实际 ");
    crate::text::push_decimal(&mut m, actual);
    Some(m)
}

/// Renaming onto the same path is refused.
pub fn check_rename(from: &str, to: &str) -> (r: Result<(String, String), String>)
    ensures
        match r {
            Ok((a, b)) => spec_to_sftp_path(from@) != spec_to_sftp_path(to@) && a@ == spec_to_sftp_path(from@) && b@ == spec_to_sftp_path(to@),
            Err(e) => spec_to_sftp_path(from@) == spec_to_sftp_path(to@) && e@ == "源路径与目标路径相同"@,
        },
{
    let a = to_sftp_path(from);
    let b = to_sftp_path(to);
    if str_eq(a.as_str(), b.as_str()) {
        return Err(owned("源路径与目标路径相同"));
    }
    Ok((a, b))
}

} // verus!
