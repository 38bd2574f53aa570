//! Release history kept for rollback: newest first, bounded in length,
//! with staged releases promoted on replacement and rolled-back releases
//! marked when their rollback completes.

use vstd::prelude::*;
use crate::deploy::DeployMode;
use crate::text::{clone_strings, owned, str_eq, views};

verus! {

/// Number of releases kept in each history.
pub const RELEASE_HISTORY_LIMIT: usize = 100;

/// A backend release.
#[derive(Clone, Debug)]
pub struct ReleaseRecord {
    pub id: String,
    pub release_name: String,
    pub group_id: String,
    pub group_name: String,
    pub project_ids: Vec<String>,
    pub server_ids: Vec<String>,
    pub created_at: String,
    /// staged / success / rolled_back / rollback / failed
    pub status: String,
}

/// A front-end release.
#[derive(Clone, Debug)]
pub struct FrontendReleaseRecord {
    pub id: String,
    pub created_at: String,
    pub mode: String,
    pub group_name: String,
    pub target_ids: Vec<String>,
    pub target_names: Vec<String>,
    pub server_names: Vec<String>,
    pub server_ids: Vec<String>,
    /// Suffix of the live snapshot `{remoteDir}.rollback-{suffix}`; none: no rollback.
    pub backup_suffix: Option<String>,
    pub status: String,
    pub message: String,
}

/// The record in front of the history, which keeps at most 100 entries.
pub open spec fn bounded_prepend<T>(records: Seq<T>, record: T) -> Seq<T> {
    let all = seq![record] + records;
    if all.len() <= 100 { all } else { all.take(100) }
}

fn prepend_bounded<T>(records: Vec<T>, record: T) -> (r: Vec<T>)
    ensures
        r@ == bounded_prepend(records@, record),
{
    let ghost before = records@;
    let mut records = records;
    records.insert(0, record);
    records.truncate(RELEASE_HISTORY_LIMIT);
    assert(records@ =~= bounded_prepend(before, record)) by {
        let all = seq![record] + before;
        assert(all =~= before.insert(0, record));
    }
    records
}

/// The history after recording a backend release.
pub fn save_release(records: Vec<ReleaseRecord>, record: ReleaseRecord) -> (r: Vec<ReleaseRecord>)
    ensures
        r@ == bounded_prepend(records@, record),
{
    prepend_bounded(records, record)
}

/// The history after recording a front-end release.
pub fn save_frontend_release(records: Vec<FrontendReleaseRecord>, record: FrontendReleaseRecord) -> (r: Vec<FrontendReleaseRecord>)
    ensures
        r@ == bounded_prepend(records@, record),
{
    prepend_bounded(records, record)
}

/// Index of the first element satisfying `p`.
pub open spec fn first_index<T>(s: Seq<T>, p: spec_fn(T) -> bool) -> Option<int>
    decreases s.len(),
{
    if s.len() == 0 {
        None
    } else if p(s[0]) {
        Some(0)
    } else {
        match first_index(s.drop_first(), p) {
            Some(i) => Some(i + 1),
            None => None,
        }
    }
}

pub proof fn lemma_first_index<T>(s: Seq<T>, p: spec_fn(T) -> bool, i: int)
    requires
        0 <= i <= s.len(),
        forall|j: int| 0 <= j < i ==> !p(s[j]),
    ensures
        i < s.len() && p(s[i]) ==> first_index(s, p) == Some(i),
        i == s.len() ==> first_index(s, p) is None,
    decreases i,
{
    if i > 0 {
        lemma_first_index(s.drop_first(), p, i - 1);
    } else if s.len() > 0 {
    }
}

pub open spec fn staged_match(group_id: Seq<char>, release_name: Seq<char>) -> spec_fn(ReleaseRecord) -> bool {
    |r: ReleaseRecord| r.group_id@ == group_id && r.release_name@ == release_name && r.status@ == "staged"@
}

/// `new` is `old` with only its status and creation time changed.
pub open spec fn restamped(new: ReleaseRecord, old: ReleaseRecord, status: Seq<char>, created_at: Seq<char>) -> bool {
    &&& new.id == old.id
    &&& new.release_name == old.release_name
    &&& new.group_id == old.group_id
    &&& new.group_name == old.group_name
    &&& new.project_ids == old.project_ids
    &&& new.server_ids == old.server_ids
    &&& new.created_at@ == created_at
    &&& new.status@ == status
}

/// After a staged release is replaced: its first staged record for the
/// group and name becomes "success" stamped `now`; returns whether one was found.
pub fn mark_release_success(records: &mut Vec<ReleaseRecord>, group_id: &str, release_name: &str, now: &str) -> (found: bool)
    ensures
        found == first_index(old(records)@, staged_match(group_id@, release_name@)) is Some,
        match first_index(old(records)@, staged_match(group_id@, release_name@)) {
            Some(k) => {
                &&& final(records)@.len() == old(records)@.len()
                &&& forall|j: int| 0 <= j < old(records)@.len() && j != k ==> final(records)@[j] == old(records)@[j]
                &&& restamped(final(records)@[k], old(records)@[k], "success"@, now@)
            },
            None => final(records)@ == old(records)@,
        },
{
    let ghost p = staged_match(group_id@, release_name@);
    let mut i: usize = 0;
    while i < records.len()
        invariant
            i <= records@.len(),
            records@ == old(records)@,
            p == staged_match(group_id@, release_name@),
            forall|j: int| 0 <= j < i ==> !p(records@[j]),
        decreases records.len() - i,
    {
        let hit = str_eq(records[i].group_id.as_str(), group_id) && str_eq(records[i].release_name.as_str(), release_name)
            && str_eq(records[i].status.as_str(), "staged");
        if hit {
            proof {
                lemma_first_index(records@, p, i as int);
            }
            let mut record = records.remove(i);
            record.status = owned("success");
            record.created_at = owned(now);
            records.insert(i, record);
            assert forall|j: int| 0 <= j < old(records)@.len() && j != i implies records@[j] == old(records)@[j] by {
                if j < i {
                } else {
                }
            }
            return true;
        }
        i = i + 1;
    }
    proof {
        lemma_first_index(records@, p, i as int);
    }
    false
}

/// Whether a record is the successful release being rolled back.
pub open spec fn rolled_back_match(r: ReleaseRecord, source_id: Seq<char>) -> bool {
    r.id@ == source_id && r.status@ == "success"@
}

/// `new` is `old`, marked "rolled_back" when it is the rolled-back release.
pub open spec fn marked_after_rollback(new: ReleaseRecord, old: ReleaseRecord, source_id: Seq<char>) -> bool {
    &&& new.id == old.id
    &&& new.release_name == old.release_name
    &&& new.group_id == old.group_id
    &&& new.group_name == old.group_name
    &&& new.project_ids == old.project_ids
    &&& new.server_ids == old.server_ids
    &&& new.created_at == old.created_at
    &&& if rolled_back_match(old, source_id) { new.status@ == "rolled_back"@ } else { new.status == old.status }
}

/// The record of a completed rollback.
pub open spec fn is_rollback_record(r: ReleaseRecord, source: ReleaseRecord, new_id: Seq<char>, now: Seq<char>) -> bool {
    &&& r.id@ == new_id
    &&& r.release_name@ == "回滚 "@ + source.release_name@
    &&& r.group_id@ == source.group_id@
    &&& r.group_name@ == source.group_name@
    &&& views(r.project_ids@) == views(source.project_ids@)
    &&& views(r.server_ids@) == views(source.server_ids@)
    &&& r.created_at@ == now
    &&& r.status@ == "rollback"@
}

/// After a rollback: the source release (when successful) is marked
/// "rolled_back" and a "rollback" record is put in front; at most 100 kept.
pub fn record_rollback(records: Vec<ReleaseRecord>, source: &ReleaseRecord, new_id: &str, now: &str) -> (r: Vec<ReleaseRecord>)
    ensures
        r@.len() == if records@.len() + 1 <= 100 { records@.len() + 1 } else { 100 },
        is_rollback_record(r@[0], *source, new_id@, now@),
        forall|j: int| 1 <= j < r@.len() ==> marked_after_rollback(#[trigger] r@[j], records@[j - 1], source.id@),
{
    let ghost orig = records@;
    let mut records = records;
    let mut i: usize = 0;
    while i < records.len()
        invariant
            i <= records@.len(),
            records@.len() == orig.len(),
            forall|j: int| 0 <= j < i ==> marked_after_rollback(#[trigger] records@[j], orig[j], source.id@),
            forall|j: int| i <= j < records@.len() ==> #[trigger] records@[j] == orig[j],
        decreases records.len() - i,
    {
        if str_eq(records[i].id.as_str(), source.id.as_str()) && str_eq(records[i].status.as_str(), "success") {
            let ghost before = records@;
            let mut record = records.remove(i);
            record.status = owned("rolled_back");
            records.insert(i, record);
            assert forall|j: int| 0 <= j < records@.len() && j != i implies records@[j] == before[j] by {}
        }
        assert(marked_after_rollback(records@[i as int], orig[i as int], source.id@));
        i = i + 1;
    }
    let mut name = owned("回滚 ");
    name.append(source.release_name.as_str());
    let entry = ReleaseRecord {
        id: owned(new_id),
        release_name: name,
        group_id: source.group_id.clone(),
        group_name: source.group_name.clone(),
        project_ids: clone_strings(&source.project_ids),
        server_ids: clone_strings(&source.server_ids),
        created_at: owned(now),
        status: owned("rollback"),
    };
    let ghost marked = records@;
    let r = prepend_bounded(records, entry);
    assert forall|j: int| 1 <= j < r@.len() implies marked_after_rollback(#[trigger] r@[j], orig[j - 1], source.id@) by {
        assert(r@[j] == marked[j - 1]);
    }
    r
}

/// Index of the first release with the given id.
pub fn find_release(records: &Vec<ReleaseRecord>, release_id: &str) -> (r: Option<usize>)
    ensures
        match r {
            Some(i) => first_index(records@, |x: ReleaseRecord| x.id@ == release_id@) == Some(i as int),
            None => first_index(records@, |x: ReleaseRecord| x.id@ == release_id@) is None,
        },
{
    let ghost p = |x: ReleaseRecord| x.id@ == release_id@;
    let mut i: usize = 0;
    while i < records.len()
        invariant
            i <= records@.len(),
            p == (|x: ReleaseRecord| x.id@ == release_id@),
            forall|j: int| 0 <= j < i ==> !p(records@[j]),
        decreases records.len() - i,
    {
        if str_eq(records[i].id.as_str(), release_id) {
            proof {
                lemma_first_index(records@, p, i as int);
            }
            return Some(i);
        }
        i = i + 1;
    }
    proof {
        lemma_first_index(records@, p, i as int);
    }
    None
}

/// A new backend release record.
pub open spec fn is_new_release(
    r: ReleaseRecord,
    id: Seq<char>,
    release_name: Seq<char>,
    group_id: Seq<char>,
    group_name: Seq<char>,
    project_ids: Seq<Seq<char>>,
    server_ids: Seq<Seq<char>>,
    created_at: Seq<char>,
    status: Seq<char>,
) -> bool {
    &&& r.id@ == id
    &&& r.release_name@ == release_name
    &&& r.group_id@ == group_id
    &&& r.group_name@ == group_name
    &&& views(r.project_ids@) == project_ids
    &&& views(r.server_ids@) == server_ids
    &&& r.created_at@ == created_at
    &&& r.status@ == status
}

/// Records a finished backend deployment: a stage deployment adds a
/// "staged" record; a replacement from staging marks the staged record of
/// the release as successful when there is one; otherwise a "success"
/// record is added. Returns whether a staged record was promoted.
pub fn finish_backend_release(
    records: &mut Vec<ReleaseRecord>,
    mode: DeployMode,
    group_id: &str,
    group_name: &str,
    release_name: &str,
    project_ids: &Vec<String>,
    server_ids: &Vec<String>,
    new_id: &str,
    now: &str,
) -> (promoted: bool)
    ensures
        promoted == (mode == DeployMode::Replace && first_index(old(records)@, staged_match(group_id@, release_name@)) is Some),
        !promoted ==> {
            let status = if mode == DeployMode::Stage { "staged"@ } else { "success"@ };
            &&& final(records)@.len() == bounded_prepend(old(records)@, final(records)@[0]).len()
            &&& final(records)@ == bounded_prepend(old(records)@, final(records)@[0])
            &&& is_new_release(final(records)@[0], new_id@, release_name@, group_id@, group_name@, views(project_ids@), views(server_ids@), now@, status)
        },
        promoted ==> match first_index(old(records)@, staged_match(group_id@, release_name@)) {
            Some(k) => {
                &&& final(records)@.len() == old(records)@.len()
                &&& forall|j: int| 0 <= j < old(records)@.len() && j != k ==> final(records)@[j] == old(records)@[j]
                &&& restamped(final(records)@[k], old(records)@[k], "success"@, now@)
            },
            None => false,
        },
{
    if mode == DeployMode::Replace {
        if mark_release_success(records, group_id, release_name, now) {
            return true;
        }
    }
    let status = if mode == DeployMode::Stage { owned("staged") } else { owned("success") };
    let entry = ReleaseRecord {
        id: owned(new_id),
        release_name: owned(release_name),
        group_id: owned(group_id),
        group_name: owned(group_name),
        project_ids: clone_strings(project_ids),
        server_ids: clone_strings(server_ids),
        created_at: owned(now),
        status,
    };
    let ghost before = records@;
    let mut taken: Vec<ReleaseRecord> = Vec::new();
    std::mem::swap(&mut taken, records);
    let updated = prepend_bounded(taken, entry);
    *records = updated;
    assert(records@ == bounded_prepend(before, entry));
    false
}

/// Whether a front-end record is the release being rolled back.
pub open spec fn frontend_rolled_back_match(r: FrontendReleaseRecord, source_id: Seq<char>) -> bool {
    r.id@ == source_id && (r.status@ == "success"@ || r.status@ == "failed"@)
}

/// `new` is `old`, marked "rolled_back" when it is the rolled-back release.
pub open spec fn frontend_marked(new: FrontendReleaseRecord, old: FrontendReleaseRecord, source_id: Seq<char>) -> bool {
    &&& new.id == old.id
    &&& new.created_at == old.created_at
    &&& new.mode == old.mode
    &&& new.group_name == old.group_name
    &&& new.target_ids == old.target_ids
    &&& new.target_names == old.target_names
    &&& new.server_names == old.server_names
    &&& new.server_ids == old.server_ids
    &&& new.backup_suffix == old.backup_suffix
    &&& new.message == old.message
    &&& if frontend_rolled_back_match(old, source_id) { new.status@ == "rolled_back"@ } else { new.status == old.status }
}

/// The record of a completed front-end rollback.
pub open spec fn is_frontend_rollback_record(r: FrontendReleaseRecord, source: FrontendReleaseRecord, new_id: Seq<char>, now: Seq<char>) -> bool {
    &&& r.id@ == new_id
    &&& r.created_at@ == now
    &&& r.mode@ == "回滚"@
    &&& r.group_name@ == source.group_name@
    &&& views(r.target_ids@) == views(source.target_ids@)
    &&& views(r.target_names@) == views(source.target_names@)
    &&& views(r.server_names@) == views(source.server_names@)
    &&& views(r.server_ids@) == views(source.server_ids@)
    &&& r.backup_suffix is None
    &&& r.status@ == "rollback"@
    &&& r.message@ == "已回滚到 "@ + source.created_at@ + " 发布前的备份"@
}

/// After a front-end rollback: the source release (successful or failed)
/// is marked "rolled_back" and a "rollback" record, with no snapshot of its
/// own, is put in front; at most 100 kept.
pub fn record_frontend_rollback(
    records: Vec<FrontendReleaseRecord>,
    source: &FrontendReleaseRecord,
    new_id: &str,
    now: &str,
) -> (r: Vec<FrontendReleaseRecord>)
    ensures
        r@.len() == if records@.len() + 1 <= 100 { records@.len() + 1 } else { 100 },
        is_frontend_rollback_record(r@[0], *source, new_id@, now@),
        forall|j: int| 1 <= j < r@.len() ==> frontend_marked(#[trigger] r@[j], records@[j - 1], source.id@),
{
    let ghost orig = records@;
    let mut records = records;
    let mut i: usize = 0;
    while i < records.len()
        invariant
            i <= records@.len(),
            records@.len() == orig.len(),
            forall|j: int| 0 <= j < i ==> frontend_marked(#[trigger] records@[j], orig[j], source.id@),
            forall|j: int| i <= j < records@.len() ==> #[trigger] records@[j] == orig[j],
        decreases records.len() - i,
    {
        let hit = str_eq(records[i].id.as_str(), source.id.as_str())
            && (str_eq(records[i].status.as_str(), "success") || str_eq(records[i].status.as_str(), "failed"));
        if hit {
            let ghost before = records@;
            let mut record = records.remove(i);
            record.status = owned("rolled_back");
            records.insert(i, record);
            assert forall|j: int| 0 <= j < records@.len() && j != i implies records@[j] == before[j] by {}
        }
        assert(frontend_marked(records@[i as int], orig[i as int], source.id@));
        i = i + 1;
    }
    let mut message = owned("已回滚到 ");
    message.append(source.created_at.as_str());
    message.append(" 发布前的备份");
    let entry = FrontendReleaseRecord {
        id: owned(new_id),
        created_at: owned(now),
        mode: owned("回滚"),
        group_name: source.group_name.clone(),
        target_ids: clone_strings(&source.target_ids),
        target_names: clone_strings(&source.target_names),
        server_names: clone_strings(&source.server_names),
        server_ids: clone_strings(&source.server_ids),
        backup_suffix: None,
        status: owned("rollback"),
        message,
    };
    let ghost marked = records@;
    let r = prepend_bounded(records, entry);
    assert forall|j: int| 1 <= j < r@.len() implies frontend_marked(#[trigger] r@[j], orig[j - 1], source.id@) by {
        assert(r@[j] == marked[j - 1]);
    }
    r
}

} // verus!
