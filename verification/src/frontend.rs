//! Front-end deployments: which targets and servers take part, the steps
//! run on each server for each mode, the release record and the checks of
//! a rollback.

use vstd::prelude::*;
use crate::backend::as_ints;
use crate::config::{find_in, AppConfig, FrontendTarget, OsType};
use crate::deploy::{
    spec_join_native, spec_parent_dir, spec_rollback_backup_dir, spec_staging_dir_of, join_native,
    parent_dir, rollback_backup_dir, staging_dir_of, DeployMode,
};
use crate::history::{first_index, lemma_first_index, FrontendReleaseRecord};
use crate::deploy::{escape_ps, escape_sh, native_path, spec_native_path, spec_ps_single_quote, spec_trim_dir, trim_dir};
use crate::remote_scripts::{
    extract_linux_mirror_script, extract_linux_script, extract_windows_script, replace_linux_mirror_script,
    replace_linux_script, replace_windows_script, restore_linux_script, restore_windows_script,
    snapshot_linux_script, snapshot_windows_script, spec_extract_linux_mirror_script, spec_extract_linux_script,
    spec_extract_windows_script, spec_replace_linux_mirror_script, spec_replace_linux_script,
    spec_replace_windows_script, spec_restore_linux_script, spec_restore_windows_script,
    spec_snapshot_linux_script, spec_snapshot_windows_script,
};
use crate::ssh::sh_escape;
use crate::text::{clone_strings, join, lemma_join_push, owned, str_eq, strings_contain, views};
use crate::dirsync::{
    entry_views, files_to_remove, files_to_upload, listing_script, paths_at, paths_of, spec_files_to_remove,
    spec_files_to_upload, spec_listing_script, EntryView,
};

verus! {

/// Options of a front-end deployment.
#[derive(Clone, Debug)]
pub struct FrontendDeployOptions {
    pub mode: DeployMode,
    /// Snapshot the live directory before replacing, for rollback.
    pub backup_sibling: bool,
}

// ---------------------------------------------------------------------
// Targets and servers
// ---------------------------------------------------------------------

/// Positions, in configuration order, of the targets whose id is in `ids`.
pub open spec fn selected_targets(targets: Seq<FrontendTarget>, ids: Seq<Seq<char>>) -> Seq<int>
    decreases targets.len(),
{
    if targets.len() == 0 {
        Seq::empty()
    } else {
        let rest = selected_targets(targets.drop_last(), ids);
        if ids.contains(targets.last().id@) {
            rest.push(targets.len() - 1)
        } else {
            rest
        }
    }
}

/// The configured targets chosen by id, in configuration order.
pub fn select_targets(targets: &Vec<FrontendTarget>, ids: &Vec<String>) -> (r: Vec<usize>)
    ensures
        as_ints(r@) == selected_targets(targets@, views(ids@)),
        forall|k: int| 0 <= k < r@.len() ==> r@[k] < targets@.len(),
{
    let mut out: Vec<usize> = Vec::new();
    let mut i: usize = 0;
    while i < targets.len()
        invariant
            i <= targets@.len(),
            as_ints(out@) == selected_targets(targets@.take(i as int), views(ids@)),
            forall|k: int| 0 <= k < out@.len() ==> out@[k] < i,
        decreases targets.len() - i,
    {
        let ghost before = out@;
        assert(targets@.take(i + 1).drop_last() =~= targets@.take(i as int));
        if strings_contain(ids, targets[i].id.as_str()) {
            out.push(i);
            assert(as_ints(out@) =~= as_ints(before).push(i as int));
        }
        i = i + 1;
    }
    assert(targets@.take(targets@.len() as int) =~= targets@);
    out
}

/// The ids of `ids` without repeats, each where it first appears.
pub open spec fn distinct(ids: Seq<Seq<char>>) -> Seq<Seq<char>>
    decreases ids.len(),
{
    if ids.len() == 0 {
        Seq::empty()
    } else {
        let rest = distinct(ids.drop_last());
        if rest.contains(ids.last()) {
            rest
        } else {
            rest.push(ids.last())
        }
    }
}

/// The server ids of the chosen targets, target by target, in order.
pub open spec fn target_server_ids(targets: Seq<FrontendTarget>, chosen: Seq<int>) -> Seq<Seq<char>>
    decreases chosen.len(),
{
    if chosen.len() == 0 {
        Seq::empty()
    } else {
        target_server_ids(targets, chosen.drop_last()) + views(targets[chosen.last()].server_ids@)
    }
}

/// Names of the configured servers among `ids`, in order; ids without a
/// server are passed over.
pub open spec fn known_server_names(servers: Seq<crate::config::ServerConfig>, ids: Seq<Seq<char>>) -> Seq<Seq<char>>
    decreases ids.len(),
{
    if ids.len() == 0 {
        Seq::empty()
    } else {
        let rest = known_server_names(servers, ids.drop_last());
        match find_in(servers, ids.last()) {
            Some(s) => rest.push(s.name@),
            None => rest,
        }
    }
}

/// Servers a front-end release touches: their ids without repeats, and the
/// names of those that are configured.
pub struct ReleaseServers {
    pub ids: Vec<String>,
    pub names: Vec<String>,
}

/// Collects the servers of the chosen targets.
pub fn release_servers(config: &AppConfig, chosen: &Vec<usize>) -> (r: ReleaseServers)
    requires
        forall|k: int| 0 <= k < chosen@.len() ==> chosen@[k] < config.frontend_targets@.len(),
    ensures
        views(r.ids@) == distinct(target_server_ids(config.frontend_targets@, as_ints(chosen@))),
        views(r.names@) == known_server_names(config.servers@, distinct(target_server_ids(config.frontend_targets@, as_ints(chosen@)))),
{
    let ghost targets = config.frontend_targets@;
    let mut ids: Vec<String> = Vec::new();
    let mut names: Vec<String> = Vec::new();
    let mut t: usize = 0;
    while t < chosen.len()
        invariant
            t <= chosen@.len(),
            targets == config.frontend_targets@,
            forall|k: int| 0 <= k < chosen@.len() ==> chosen@[k] < targets.len(),
            views(ids@) == distinct(target_server_ids(targets, as_ints(chosen@).take(t as int))),
            views(names@) == known_server_names(config.servers@, views(ids@)),
        decreases chosen.len() - t,
    {
        let target = &config.frontend_targets[chosen[t]];
        let ghost prefix = target_server_ids(targets, as_ints(chosen@).take(t as int));
        assert(as_ints(chosen@).take(t + 1).drop_last() =~= as_ints(chosen@).take(t as int));
        assert(as_ints(chosen@).take(t + 1).last() == chosen@[t as int] as int);
        let mut j: usize = 0;
        while j < target.server_ids.len()
            invariant
                j <= target.server_ids@.len(),
                views(ids@) == distinct(prefix + views(target.server_ids@).take(j as int)),
                views(names@) == known_server_names(config.servers@, views(ids@)),
            decreases target.server_ids.len() - j,
        {
            let id = &target.server_ids[j];
            let ghost all = prefix + views(target.server_ids@).take(j + 1);
            assert(all.drop_last() =~= prefix + views(target.server_ids@).take(j as int));
            assert(all.last() == id@);
            if !strings_contain(&ids, id.as_str()) {
                let ghost old_ids = views(ids@);
                ids.push(id.clone());
                assert(views(ids@) =~= old_ids.push(id@));
                assert(views(ids@).drop_last() =~= old_ids);
                match config.find_server(id.as_str()) {
                    Ok(server) => {
                        let ghost old_names = views(names@);
                        names.push(server.name.clone());
                        assert(views(names@) =~= old_names.push(server.name@));
                    },
                    Err(_) => {},
                }
            }
            j = j + 1;
        }
        assert(views(target.server_ids@).take(target.server_ids@.len() as int) =~= views(target.server_ids@));
        t = t + 1;
    }
    assert(as_ints(chosen@).take(chosen@.len() as int) =~= as_ints(chosen@));
    ReleaseServers { ids, names }
}

// ---------------------------------------------------------------------
// Rollback snapshot suffix
// ---------------------------------------------------------------------

/// The snapshot suffix of a release: taken only when the mode writes to
/// the live directory and a backup was asked for; the time stamp, a
/// hyphen and the first eight characters of the id without its hyphens.
pub open spec fn spec_backup_suffix(mode: DeployMode, backup: bool, stamp: Seq<char>, id: Seq<char>) -> Option<Seq<char>> {
    if mode != DeployMode::Stage && backup {
        Some(stamp + "-"@ + without_hyphens(id).take(8))
    } else {
        None
    }
}

/// `s` without its hyphens.
pub open spec fn without_hyphens(s: Seq<char>) -> Seq<char>
    decreases s.len(),
{
    if s.len() == 0 {
        s
    } else {
        let rest = without_hyphens(s.drop_last());
        if s.last() == '-' {
            rest
        } else {
            rest.push(s.last())
        }
    }
}

proof fn lemma_without_hyphens_prefix(s: Seq<char>, i: int)
    requires
        0 <= i <= s.len(),
    ensures
        without_hyphens(s.take(i)).len() <= without_hyphens(s).len(),
        without_hyphens(s).take(without_hyphens(s.take(i)).len() as int) == without_hyphens(s.take(i)),
    decreases s.len(),
{
    if i == s.len() {
        assert(s.take(i) =~= s);
        assert(without_hyphens(s).take(without_hyphens(s).len() as int) =~= without_hyphens(s));
    } else {
        let d = s.drop_last();
        assert(d.take(i) =~= s.take(i));
        lemma_without_hyphens_prefix(d, i);
        let a = without_hyphens(s.take(i));
        let b = without_hyphens(d);
        assert(without_hyphens(s).take(a.len() as int) =~= b.take(a.len() as int));
    }
}

/// Builds the snapshot suffix from a time stamp and a random id.
pub fn backup_suffix(mode: DeployMode, backup: bool, stamp: &str, id: &str) -> (r: Option<String>)
    requires
        without_hyphens(id@).len() >= 8,
    ensures
        match (r, spec_backup_suffix(mode, backup, stamp@, id@)) {
            (Some(a), Some(b)) => a@ == b,
            (None, None) => true,
            _ => false,
        },
{
    if mode == DeployMode::Stage || !backup {
        return None;
    }
    let chars = crate::text::chars_of(id);
    let mut out = owned(stamp);
    out.append("-");
    let ghost base = out@;
    let mut taken: usize = 0;
    let mut i: usize = 0;
    while i < chars.len() && taken < 8
        invariant
            i <= chars@.len(),
            chars@ == id@,
            taken <= 8,
            taken == without_hyphens(chars@.take(i as int)).len(),
            out@ == base + without_hyphens(chars@.take(i as int)),
            without_hyphens(id@).len() >= 8,
        decreases chars.len() - i,
    {
        let c = chars[i];
        proof {
            assert(chars@.take(i + 1).drop_last() =~= chars@.take(i as int));
        }
        if c != '-' {
            crate::text::push_char(&mut out, c);
            taken = taken + 1;
        }
        i = i + 1;
        assert(out@ =~= base + without_hyphens(chars@.take(i as int)));
    }
    proof {
        lemma_without_hyphens_prefix(chars@, i as int);
        if i == chars.len() {
            assert(chars@.take(i as int) =~= chars@);
        }
    }
    Some(out)
}

// ---------------------------------------------------------------------
// Steps on each server
// ---------------------------------------------------------------------

/// One remote step of a front-end deployment on one server.
pub enum FrontendStep {
    /// Copy the live directory to its rollback snapshot.
    Snapshot { live: String, backup: String },
    /// Pack these local files (paths below the local directory) and upload
    /// the archive to this path.
    Upload { remote_zip: String, files: Vec<String> },
    /// Extract the archive into `dest`, overwriting the files it holds.
    Extract { remote_zip: String, dest: String },
    /// Delete these files (paths below `dir`) from the server.
    Remove { dir: String, files: Vec<String> },
    /// Copy the staging directory over the live one.
    ReplaceFromStaging { staging: String, live: String, delete_extraneous: bool },
}

/// A step by its values.
pub enum StepView {
    Snapshot(Seq<char>, Seq<char>),
    Upload(Seq<char>, Seq<Seq<char>>),
    Extract(Seq<char>, Seq<char>),
    Remove(Seq<char>, Seq<Seq<char>>),
    ReplaceFromStaging(Seq<char>, Seq<char>, bool),
}

pub open spec fn step_view(s: FrontendStep) -> StepView {
    match s {
        FrontendStep::Snapshot { live, backup } => StepView::Snapshot(live@, backup@),
        FrontendStep::Upload { remote_zip, files } => StepView::Upload(remote_zip@, views(files@)),
        FrontendStep::Extract { remote_zip, dest } => StepView::Extract(remote_zip@, dest@),
        FrontendStep::Remove { dir, files } => StepView::Remove(dir@, views(files@)),
        FrontendStep::ReplaceFromStaging { staging, live, delete_extraneous } => StepView::ReplaceFromStaging(staging@, live@, delete_extraneous),
    }
}

pub open spec fn step_views(steps: Seq<FrontendStep>) -> Seq<StepView> {
    steps.map_values(|s: FrontendStep| step_view(s))
}

/// Remote name of the uploaded archive next to `dir`.
pub open spec fn archive_path(os: OsType, dir: Seq<char>, archive_id: Seq<char>) -> Seq<char> {
    spec_join_native(os, spec_parent_dir(dir), ".shhd-fe-"@ + archive_id + ".zip"@)
}

/// The live directory is first copied to its snapshot when a suffix was taken.
pub open spec fn snapshot_steps(target: FrontendTarget, suffix: Option<Seq<char>>) -> Seq<StepView> {
    match suffix {
        Some(x) => seq![StepView::Snapshot(target.remote_dir@, spec_rollback_backup_dir(target.remote_dir@, x))],
        None => Seq::empty(),
    }
}

/// The server directory a mode uploads into: the staging directory for
/// stage, the live directory for full; none for replace.
pub open spec fn spec_upload_dir(target: FrontendTarget, mode: DeployMode) -> Option<Seq<char>> {
    match mode {
        DeployMode::Stage => Some(spec_staging_dir_of(target)),
        DeployMode::Full => Some(target.remote_dir@),
        DeployMode::Replace => None,
    }
}

pub fn upload_dir(target: &FrontendTarget, mode: DeployMode) -> (r: Option<String>)
    ensures
        match (r, spec_upload_dir(*target, mode)) {
            (Some(a), Some(b)) => a@ == b,
            (None, None) => true,
            _ => false,
        },
{
    match mode {
        DeployMode::Stage => Some(staging_dir_of(target)),
        DeployMode::Full => Some(target.remote_dir.clone()),
        DeployMode::Replace => None,
    }
}

/// Whether the server directory is made to mirror the local one (files
/// the local side lacks are deleted): always for staging, for full when
/// the target asks for it.
pub open spec fn mirrors(target: FrontendTarget, mode: DeployMode) -> bool {
    mode == DeployMode::Stage || target.delete_extraneous
}

/// The transfer into `dest`: the new or changed local files packed,
/// uploaded next to `dest` and extracted over it, then, for a mirror, the
/// server files the local side lacks deleted. Nothing is uploaded when no
/// file changed, and nothing deleted when nothing is extra.
pub open spec fn transfer_steps(
    os: OsType,
    dest: Seq<char>,
    archive_id: Seq<char>,
    upload: Seq<Seq<char>>,
    remove: Seq<Seq<char>>,
) -> Seq<StepView> {
    let zip = archive_path(os, dest, archive_id);
    let sent = if upload.len() > 0 { seq![StepView::Upload(zip, upload), StepView::Extract(zip, dest)] } else { Seq::empty() };
    let removed = if remove.len() > 0 { seq![StepView::Remove(dest, remove)] } else { Seq::empty() };
    sent + removed
}

/// Paths of the local files to upload.
pub open spec fn upload_paths(local: Seq<EntryView>, remote: Seq<EntryView>) -> Seq<Seq<char>> {
    paths_at(local, spec_files_to_upload(local, remote))
}

/// Paths of the server files to delete.
pub open spec fn remove_paths(target: FrontendTarget, mode: DeployMode, local: Seq<EntryView>, remote: Seq<EntryView>) -> Seq<Seq<char>> {
    if mirrors(target, mode) { paths_at(remote, spec_files_to_remove(local, remote)) } else { Seq::empty() }
}

/// The steps on one server of a target, given the local listing and the
/// listing of the server directory the mode uploads into:
/// stage: transfer into the staging directory, mirroring it;
/// full: snapshot, then transfer into the live directory;
/// replace: snapshot, then copy staging over live.
pub open spec fn spec_server_steps(
    os: OsType,
    target: FrontendTarget,
    mode: DeployMode,
    suffix: Option<Seq<char>>,
    archive_id: Seq<char>,
    local: Seq<EntryView>,
    remote: Seq<EntryView>,
) -> Seq<StepView> {
    let up = upload_paths(local, remote);
    let rm = remove_paths(target, mode, local, remote);
    match mode {
        DeployMode::Stage => transfer_steps(os, spec_staging_dir_of(target), archive_id, up, rm),
        DeployMode::Full => snapshot_steps(target, suffix) + transfer_steps(os, target.remote_dir@, archive_id, up, rm),
        DeployMode::Replace => snapshot_steps(target, suffix) + seq![
            StepView::ReplaceFromStaging(spec_staging_dir_of(target), target.remote_dir@, target.delete_extraneous),
        ],
    }
}

pub open spec fn opt_view(o: Option<&str>) -> Option<Seq<char>> {
    match o {
        Some(s) => Some(s@),
        None => None,
    }
}

fn archive_path_exec(os: OsType, dir: &str, archive_id: &str) -> (r: String)
    ensures
        r@ == archive_path(os, dir@, archive_id@),
{
    let parent = parent_dir(dir);
    let mut name = owned(".shhd-fe-");
    name.append(archive_id);
    name.append(".zip");
    join_native(os, parent.as_str(), name.as_str())
}

fn push_transfer(
    steps: &mut Vec<FrontendStep>,
    os: OsType,
    dest: String,
    archive_id: &str,
    upload: Vec<String>,
    remove: Vec<String>,
)
    ensures
        step_views(final(steps)@) == step_views(old(steps)@) + transfer_steps(os, dest@, archive_id@, views(upload@), views(remove@)),
{
    let ghost before = step_views(steps@);
    let ghost up = views(upload@);
    let ghost rm = views(remove@);
    let ghost d = dest@;
    let zip = archive_path_exec(os, dest.as_str(), archive_id);
    if upload.len() > 0 {
        steps.push(FrontendStep::Upload { remote_zip: zip.clone(), files: upload });
        steps.push(FrontendStep::Extract { remote_zip: zip, dest: dest.clone() });
    }
    if remove.len() > 0 {
        steps.push(FrontendStep::Remove { dir: dest, files: remove });
    }
    assert(step_views(steps@) =~= before + transfer_steps(os, d, archive_id@, up, rm));
}

/// The steps to run on one server of a target. `local` lists the local
/// directory and `remote` the server directory of `upload_dir`; only the
/// new or changed local files are sent.
pub fn server_steps(
    os: OsType,
    target: &FrontendTarget,
    mode: DeployMode,
    suffix: Option<&str>,
    archive_id: &str,
    local: &Vec<(String, u64, String)>,
    remote: &Vec<(String, u64, String)>,
) -> (r: Vec<FrontendStep>)
    ensures
        step_views(r@) == spec_server_steps(
            os,
            *target,
            mode,
            opt_view(suffix),
            archive_id@,
            entry_views(local@),
            entry_views(remote@),
        ),
{
    let mut steps: Vec<FrontendStep> = Vec::new();
    if mode != DeployMode::Stage {
        if let Some(x) = suffix {
            let backup = rollback_backup_dir(target.remote_dir.as_str(), x);
            steps.push(FrontendStep::Snapshot { live: target.remote_dir.clone(), backup });
        }
    }
    assert(step_views(steps@) =~= if mode == DeployMode::Stage { Seq::empty() } else { snapshot_steps(*target, opt_view(suffix)) });
    if mode == DeployMode::Replace {
        let ghost before = step_views(steps@);
        steps.push(FrontendStep::ReplaceFromStaging {
            staging: staging_dir_of(target),
            live: target.remote_dir.clone(),
            delete_extraneous: target.delete_extraneous,
        });
        assert(step_views(steps@) =~= before.push(
            StepView::ReplaceFromStaging(spec_staging_dir_of(*target), target.remote_dir@, target.delete_extraneous),
        ));
    } else {
        let picks = files_to_upload(local, remote);
        let upload = paths_of(local, &picks);
        let remove = if mode == DeployMode::Stage || target.delete_extraneous {
            let extra = files_to_remove(local, remote);
            paths_of(remote, &extra)
        } else {
            Vec::new()
        };
        assert(views(remove@) =~= remove_paths(*target, mode, entry_views(local@), entry_views(remote@)));
        let dest = if mode == DeployMode::Stage { staging_dir_of(target) } else { target.remote_dir.clone() };
        let ghost before = step_views(steps@);
        push_transfer(&mut steps, os, dest, archive_id, upload, remove);
        assert(step_views(steps@) =~= spec_server_steps(
            os,
            *target,
            mode,
            opt_view(suffix),
            archive_id@,
            entry_views(local@),
            entry_views(remote@),
        ));
    }
    steps
}

/// Whether a step writes to the directory `dir` (its destination, or the
/// snapshot it creates).
pub open spec fn writes_to(step: StepView, dir: Seq<char>) -> bool {
    match step {
        StepView::Snapshot(_, backup) => backup == dir,
        StepView::Upload(_, _) => false,
        StepView::Extract(_, dest) => dest == dir,
        StepView::Remove(d, _) => d == dir,
        StepView::ReplaceFromStaging(_, live, _) => live == dir,
    }
}

/// Staging never touches the live directory: every step of a stage
/// deployment uploads, or extracts into or deletes from the target's
/// staging directory, and none writes to any directory other than the
/// staging one.
pub proof fn lemma_stage_leaves_live_alone(
    os: OsType,
    target: FrontendTarget,
    suffix: Option<Seq<char>>,
    archive_id: Seq<char>,
    local: Seq<EntryView>,
    remote: Seq<EntryView>,
)
    ensures
        ({
            let steps = spec_server_steps(os, target, DeployMode::Stage, suffix, archive_id, local, remote);
            forall|k: int| 0 <= k < steps.len() ==> match #[trigger] steps[k] {
                StepView::Upload(_, _) => true,
                StepView::Extract(_, dest) => dest == spec_staging_dir_of(target),
                StepView::Remove(dir, _) => dir == spec_staging_dir_of(target),
                _ => false,
            }
        }),
        forall|dir: Seq<char>, k: int|
            dir != spec_staging_dir_of(target) && 0 <= k < spec_server_steps(os, target, DeployMode::Stage, suffix, archive_id, local, remote).len()
            ==> !#[trigger] writes_to(spec_server_steps(os, target, DeployMode::Stage, suffix, archive_id, local, remote)[k], dir),
{
}

/// With a snapshot suffix, a deployment that writes to the live directory
/// first copies it to its snapshot: the first step is that copy.
pub proof fn lemma_snapshot_first(
    os: OsType,
    target: FrontendTarget,
    mode: DeployMode,
    suffix: Seq<char>,
    archive_id: Seq<char>,
    local: Seq<EntryView>,
    remote: Seq<EntryView>,
)
    requires
        mode != DeployMode::Stage,
    ensures
        spec_server_steps(os, target, mode, Some(suffix), archive_id, local, remote)[0]
            == StepView::Snapshot(target.remote_dir@, spec_rollback_backup_dir(target.remote_dir@, suffix)),
        forall|k: int| 0 < k < spec_server_steps(os, target, mode, Some(suffix), archive_id, local, remote).len()
            ==> !(#[trigger] spec_server_steps(os, target, mode, Some(suffix), archive_id, local, remote)[k] is Snapshot),
{
}

// ---------------------------------------------------------------------
// Release record and rollback
// ---------------------------------------------------------------------

pub open spec fn spec_release_status(ok: bool, mode: DeployMode) -> Seq<char> {
    if ok && mode == DeployMode::Stage {
        "staged"@
    } else if ok {
        "success"@
    } else {
        "failed"@
    }
}

/// Status recorded for a finished front-end deployment.
pub fn release_status(ok: bool, mode: DeployMode) -> (r: &'static str)
    ensures
        r@ == spec_release_status(ok, mode),
{
    if ok && mode == DeployMode::Stage {
        "staged"
    } else if ok {
        "success"
    } else {
        "failed"
    }
}

/// Message recorded for a finished front-end deployment: a completion note
/// naming the mode, or the first 500 characters of the error.
pub open spec fn spec_release_message(error: Option<Seq<char>>, mode_text: Seq<char>) -> Seq<char> {
    match error {
        None => "前端部署完成（"@ + mode_text + "）"@,
        Some(e) => if e.len() <= 500 { e } else { e.take(500) },
    }
}

pub fn release_message(error: Option<&str>, mode_text: &str) -> (r: String)
    ensures
        r@ == spec_release_message(opt_view(error), mode_text@),
{
    match error {
        None => {
            let mut out = owned("前端部署完成（");
            out.append(mode_text);
            out.append("）");
            out
        },
        Some(e) => {
            let v = crate::text::chars_of(e);
            if v.len() <= 500 {
                crate::text::string_of(v.as_slice())
            } else {
                let t = crate::text::take_exec(v.as_slice(), 500);
                crate::text::string_of(t.as_slice())
            }
        },
    }
}

pub open spec fn frontend_release_index(records: Seq<FrontendReleaseRecord>, id: Seq<char>) -> Option<int> {
    first_index(records, |r: FrontendReleaseRecord| r.id@ == id)
}

/// What a front-end rollback works on: the record, the snapshot suffix and
/// the configured targets of the record.
pub struct FrontendRollbackPlan {
    pub record: usize,
    pub suffix: String,
    pub targets: Vec<usize>,
}

/// Why a front-end rollback cannot start: unknown release; a status other
/// than success; no snapshot; none of its targets configured.
pub open spec fn frontend_rollback_error(
    config: AppConfig,
    records: Seq<FrontendReleaseRecord>,
    release_id: Seq<char>,
) -> Option<Seq<char>> {
    match frontend_release_index(records, release_id) {
        None => Some("找不到该前端发布记录"@),
        Some(k) => {
            let record = records[k];
            if record.status@ != "success"@ {
                Some("只有带备份的成功发布才能回滚（当前状态: "@ + record.status@ + "）"@)
            } else if match record.backup_suffix { Some(x) => x@.len() == 0, None => true } {
                Some("该记录没有发布前备份，无法回滚（请勾选「替换前备份」后再发布）"@)
            } else if selected_targets(config.frontend_targets@, views(record.target_ids@)).len() == 0 {
                Some("发布记录中的项目在当前配置中不存在，无法回滚"@)
            } else {
                None
            }
        },
    }
}

/// Checks a front-end rollback and finds what it works on.
pub fn plan_frontend_rollback(config: &AppConfig, records: &Vec<FrontendReleaseRecord>, release_id: &str) -> (r: Result<FrontendRollbackPlan, String>)
    ensures
        match r {
            Ok(plan) => {
                &&& frontend_rollback_error(*config, records@, release_id@) is None
                &&& frontend_release_index(records@, release_id@) == Some(plan.record as int)
                &&& records@[plan.record as int].backup_suffix matches Some(x) && x@ == plan.suffix@
                &&& as_ints(plan.targets@) == selected_targets(config.frontend_targets@, views(records@[plan.record as int].target_ids@))
            },
            Err(e) => frontend_rollback_error(*config, records@, release_id@) == Some(e@),
        },
{
    let ghost p = |x: FrontendReleaseRecord| x.id@ == release_id@;
    let mut k: usize = 0;
    let mut found = false;
    while k < records.len()
        invariant
            k <= records@.len(),
            p == (|x: FrontendReleaseRecord| x.id@ == release_id@),
            forall|j: int| 0 <= j < k ==> !p(records@[j]),
            found ==> k < records@.len() && p(records@[k as int]),
        ensures
            found ==> k < records@.len() && p(records@[k as int]),
            forall|j: int| 0 <= j < k ==> !p(records@[j]),
            !found ==> k == records@.len(),
        decreases records.len() - k,
    {
        if str_eq(records[k].id.as_str(), release_id) {
            found = true;
            break;
        }
        k = k + 1;
    }
    proof {
        lemma_first_index(records@, p, k as int);
    }
    if !found {
        return Err(owned("找不到该前端发布记录"));
    }
    let record = &records[k];
    if !str_eq(record.status.as_str(), "success") {
        let mut msg = owned("只有带备份的成功发布才能回滚（当前状态: ");
        msg.append(record.status.as_str());
        msg.append("）");
        return Err(msg);
    }
    let suffix = match &record.backup_suffix {
        Some(x) => {
            if x.as_str().is_empty() {
                return Err(owned("该记录没有发布前备份，无法回滚（请勾选「替换前备份」后再发布）"));
            }
            x.clone()
        },
        None => {
            return Err(owned("该记录没有发布前备份，无法回滚（请勾选「替换前备份」后再发布）"));
        },
    };
    let targets = select_targets(&config.frontend_targets, &record.target_ids);
    if targets.len() == 0 {
        return Err(owned("发布记录中的项目在当前配置中不存在，无法回滚"));
    }
    Ok(FrontendRollbackPlan { record: k, suffix, targets })
}

// ---------------------------------------------------------------------
// Scripts run on each server
// ---------------------------------------------------------------------

/// The value of a path inside a quoted script string of the server's shell.
pub open spec fn quoted_path(os: OsType, path: Seq<char>) -> Seq<char> {
    match os {
        OsType::Windows => spec_ps_single_quote(path),
        OsType::Linux => sh_escape(path),
    }
}

fn quoted_path_exec(os: OsType, path: &str) -> (r: String)
    ensures
        r@ == quoted_path(os, path@),
{
    match os {
        OsType::Windows => escape_ps(path),
        OsType::Linux => escape_sh(path),
    }
}

/// A directory as the server writes it: trailing separators removed, the
/// system's separators, quoted for its shell.
pub open spec fn server_dir(os: OsType, dir: Seq<char>) -> Seq<char> {
    quoted_path(os, spec_native_path(os, spec_trim_dir(dir)))
}

fn server_dir_exec(os: OsType, dir: &str) -> (r: String)
    ensures
        r@ == server_dir(os, dir@),
{
    let t = trim_dir(dir);
    let n = native_path(os, t.as_str());
    quoted_path_exec(os, n.as_str())
}

/// Extracts an uploaded archive into `dest_dir`; with `delete_extraneous`
/// the result mirrors the archive exactly.
pub open spec fn spec_extract_script(os: OsType, zip_path: Seq<char>, dest_dir: Seq<char>, delete_extraneous: bool) -> Seq<char> {
    let zip = quoted_path(os, spec_native_path(os, zip_path));
    let dest = quoted_path(os, spec_native_path(os, dest_dir));
    match os {
        OsType::Windows => spec_extract_windows_script(
            zip,
            dest,
            if delete_extraneous { "$true"@ } else { "$false"@ },
            if delete_extraneous { "/MIR"@ } else { "/E"@ },
        ),
        OsType::Linux => if delete_extraneous {
            spec_extract_linux_mirror_script(zip, dest)
        } else {
            spec_extract_linux_script(zip, dest)
        },
    }
}

pub fn extract_script(os: OsType, zip_path: &str, dest_dir: &str, delete_extraneous: bool) -> (r: String)
    ensures
        r@ == spec_extract_script(os, zip_path@, dest_dir@, delete_extraneous),
{
    let zn = native_path(os, zip_path);
    let dn = native_path(os, dest_dir);
    let zip = quoted_path_exec(os, zn.as_str());
    let dest = quoted_path_exec(os, dn.as_str());
    match os {
        OsType::Windows => extract_windows_script(
            zip.as_str(),
            dest.as_str(),
            if delete_extraneous { "$true" } else { "$false" },
            if delete_extraneous { "/MIR" } else { "/E" },
        ),
        OsType::Linux => if delete_extraneous {
            extract_linux_mirror_script(zip.as_str(), dest.as_str())
        } else {
            extract_linux_script(zip.as_str(), dest.as_str())
        },
    }
}

/// Copies the live directory to its snapshot before it is replaced.
pub open spec fn spec_snapshot_script(os: OsType, live_dir: Seq<char>, backup_dir: Seq<char>) -> Seq<char> {
    match os {
        OsType::Windows => spec_snapshot_windows_script(server_dir(os, live_dir), server_dir(os, backup_dir)),
        OsType::Linux => spec_snapshot_linux_script(server_dir(os, live_dir), server_dir(os, backup_dir)),
    }
}

pub fn snapshot_script(os: OsType, live_dir: &str, backup_dir: &str) -> (r: String)
    ensures
        r@ == spec_snapshot_script(os, live_dir@, backup_dir@),
{
    let live = server_dir_exec(os, live_dir);
    let backup = server_dir_exec(os, backup_dir);
    match os {
        OsType::Windows => snapshot_windows_script(live.as_str(), backup.as_str()),
        OsType::Linux => snapshot_linux_script(live.as_str(), backup.as_str()),
    }
}

/// Restores the live directory from its snapshot.
pub open spec fn spec_restore_script(os: OsType, backup_dir: Seq<char>, live_dir: Seq<char>) -> Seq<char> {
    match os {
        OsType::Windows => spec_restore_windows_script(server_dir(os, backup_dir), server_dir(os, live_dir)),
        OsType::Linux => spec_restore_linux_script(server_dir(os, backup_dir), server_dir(os, live_dir)),
    }
}

/// A rollback copies the snapshot (source) back over the live directory
/// (destination): with rsync, or else with `cp` on Linux; with a robocopy
/// mirror on Windows.
pub proof fn lemma_restore_copies_snapshot_over_live(os: OsType, backup_dir: Seq<char>, live_dir: Seq<char>)
    ensures
        os == OsType::Linux ==> crate::text::contains(
            spec_restore_script(os, backup_dir, live_dir),
            "rsync -a --delete '"@ + server_dir(os, backup_dir) + "/' '"@ + server_dir(os, live_dir) + "/'"@,
        ),
        os == OsType::Linux ==> crate::text::contains(
            spec_restore_script(os, backup_dir, live_dir),
            "cp -a '"@ + server_dir(os, backup_dir) + "' '"@ + server_dir(os, live_dir) + "'"@,
        ),
        os == OsType::Windows ==> crate::text::contains(
            spec_restore_script(os, backup_dir, live_dir),
            "robocopy '"@ + server_dir(os, backup_dir) + "' '"@ + server_dir(os, live_dir) + "' /MIR"@,
        ),
{
    let b = server_dir(os, backup_dir);
    let l = server_dir(os, live_dir);
    crate::remote_scripts::lemma_linux_restore_syncs_backup_over_live(b, l);
    crate::remote_scripts::lemma_linux_restore_copies_backup_over_live(b, l);
    crate::remote_scripts::lemma_windows_restore_copies_backup_over_live(b, l);
}

/// A snapshot copies the live directory (source) to the snapshot directory
/// (destination).
pub proof fn lemma_snapshot_copies_live_to_backup(os: OsType, live_dir: Seq<char>, backup_dir: Seq<char>)
    ensures
        os == OsType::Linux ==> crate::text::contains(
            spec_snapshot_script(os, live_dir, backup_dir),
            "cp -a '"@ + server_dir(os, live_dir) + "' '"@ + server_dir(os, backup_dir) + "'"@,
        ),
        os == OsType::Windows ==> crate::text::contains(
            spec_snapshot_script(os, live_dir, backup_dir),
            "robocopy '"@ + server_dir(os, live_dir) + "' '"@ + server_dir(os, backup_dir) + "' /E"@,
        ),
{
    let l = server_dir(os, live_dir);
    let b = server_dir(os, backup_dir);
    crate::remote_scripts::lemma_linux_snapshot_copies_live_to_backup(l, b);
    crate::remote_scripts::lemma_windows_snapshot_copies_live_to_backup(l, b);
}

pub fn restore_script(os: OsType, backup_dir: &str, live_dir: &str) -> (r: String)
    ensures
        r@ == spec_restore_script(os, backup_dir@, live_dir@),
{
    let backup = server_dir_exec(os, backup_dir);
    let live = server_dir_exec(os, live_dir);
    match os {
        OsType::Windows => restore_windows_script(backup.as_str(), live.as_str()),
        OsType::Linux => restore_linux_script(backup.as_str(), live.as_str()),
    }
}

/// Copies the staging directory over the live one; with
/// `delete_extraneous` files missing from staging are removed.
pub open spec fn spec_replace_script(os: OsType, staging_dir: Seq<char>, live_dir: Seq<char>, delete_extraneous: bool) -> Seq<char> {
    let staging = server_dir(os, staging_dir);
    let live = server_dir(os, live_dir);
    match os {
        OsType::Windows => spec_replace_windows_script(
            staging,
            live,
            if delete_extraneous { "/MIR"@ } else { "/E"@ },
            if delete_extraneous { "（含删除多余文件）"@ } else { Seq::empty() },
        ),
        OsType::Linux => if delete_extraneous {
            spec_replace_linux_mirror_script(staging, live)
        } else {
            spec_replace_linux_script(staging, live)
        },
    }
}

/// A replacement publishes the staging directory: it copies from the
/// staging directory (source) to the live directory (destination), with
/// rsync `--delete` when extra files go, with `cp` otherwise on Linux, and
/// with robocopy on Windows.
pub proof fn lemma_replace_copies_staging_over_live(os: OsType, staging_dir: Seq<char>, live_dir: Seq<char>, delete_extraneous: bool)
    ensures
        os == OsType::Linux && delete_extraneous ==> crate::text::contains(
            spec_replace_script(os, staging_dir, live_dir, delete_extraneous),
            "rsync -a --delete '"@ + server_dir(os, staging_dir) + "/' '"@ + server_dir(os, live_dir) + "/'"@,
        ),
        os == OsType::Linux && !delete_extraneous ==> crate::text::contains(
            spec_replace_script(os, staging_dir, live_dir, delete_extraneous),
            "cp -af '"@ + server_dir(os, staging_dir) + "/.' '"@ + server_dir(os, live_dir) + "/'"@,
        ),
        os == OsType::Windows ==> crate::text::contains(
            spec_replace_script(os, staging_dir, live_dir, delete_extraneous),
            "robocopy '"@ + server_dir(os, staging_dir) + "' '"@ + server_dir(os, live_dir) + "' "@,
        ),
{
    let s = server_dir(os, staging_dir);
    let l = server_dir(os, live_dir);
    crate::remote_scripts::lemma_linux_mirror_replace_syncs_staging_over_live(s, l);
    crate::remote_scripts::lemma_linux_replace_copies_staging_over_live(s, l);
    crate::remote_scripts::lemma_windows_replace_copies_staging_over_live(
        s,
        l,
        if delete_extraneous { "/MIR"@ } else { "/E"@ },
        if delete_extraneous { "（含删除多余文件）"@ } else { Seq::empty() },
    );
}

pub fn replace_script(os: OsType, staging_dir: &str, live_dir: &str, delete_extraneous: bool) -> (r: String)
    ensures
        r@ == spec_replace_script(os, staging_dir@, live_dir@, delete_extraneous),
{
    let staging = server_dir_exec(os, staging_dir);
    let live = server_dir_exec(os, live_dir);
    match os {
        OsType::Windows => {
            let hint = if delete_extraneous { owned("（含删除多余文件）") } else { String::new() };
            replace_windows_script(staging.as_str(), live.as_str(), if delete_extraneous { "/MIR" } else { "/E" }, hint.as_str())
        },
        OsType::Linux => if delete_extraneous {
            replace_linux_mirror_script(staging.as_str(), live.as_str())
        } else {
            replace_linux_script(staging.as_str(), live.as_str())
        },
    }
}

/// The command that lists the server directory a mode uploads into (none
/// for replace, which uploads nothing).
pub open spec fn spec_listing_command(os: OsType, target: FrontendTarget, mode: DeployMode) -> Option<Seq<char>> {
    match spec_upload_dir(target, mode) {
        Some(d) => Some(spec_listing_script(os, server_dir(os, d))),
        None => None,
    }
}

pub fn listing_command(os: OsType, target: &FrontendTarget, mode: DeployMode) -> (r: Option<String>)
    ensures
        match (r, spec_listing_command(os, *target, mode)) {
            (Some(a), Some(b)) => a@ == b,
            (None, None) => true,
            _ => false,
        },
{
    match upload_dir(target, mode) {
        Some(d) => {
            let q = server_dir_exec(os, d.as_str());
            Some(listing_script(os, q.as_str()))
        },
        None => None,
    }
}

/// File paths quoted for the server's shell: `'a' 'b'` for `sh`,
/// `'a', 'b'` for PowerShell.
pub open spec fn quoted_list(os: OsType, files: Seq<Seq<char>>) -> Seq<char> {
    join(
        files.map_values(|f: Seq<char>| "'"@ + quoted_path(os, f) + "'"@),
        match os {
            OsType::Windows => ", "@,
            OsType::Linux => " "@,
        },
    )
}

fn quoted_list_exec(os: OsType, files: &Vec<String>) -> (r: String)
    ensures
        r@ == quoted_list(os, views(files@)),
{
    let sep = match os {
        OsType::Windows => ", ",
        OsType::Linux => " ",
    };
    let ghost parts = views(files@).map_values(|f: Seq<char>| "'"@ + quoted_path(os, f) + "'"@);
    let mut out = String::new();
    let mut i: usize = 0;
    while i < files.len()
        invariant
            i <= files@.len(),
            parts == views(files@).map_values(|f: Seq<char>| "'"@ + quoted_path(os, f) + "'"@),
            sep@ == (match os {
                OsType::Windows => ", "@,
                OsType::Linux => " "@,
            }),
            out@ == join(parts.take(i as int), sep@),
        decreases files.len() - i,
    {
        let q = quoted_path_exec(os, files[i].as_str());
        proof {
            lemma_join_push(parts.take(i as int), sep@, parts[i as int]);
            assert(parts.take(i + 1) =~= parts.take(i as int).push(parts[i as int]));
        }
        if i > 0 {
            out.append(sep);
        }
        out.append("'");
        out.append(q.as_str());
        out.append("'");
        i = i + 1;
    }
    assert(parts.take(files@.len() as int) =~= parts);
    out
}

/// Deletes files below a server directory (paths with '/' separators).
pub open spec fn spec_remove_script(os: OsType, dir: Seq<char>, files: Seq<Seq<char>>) -> Seq<char> {
    let d = server_dir(os, dir);
    let list = quoted_list(os, files);
    match os {
        OsType::Windows => "$ErrorActionPreference = 'Continue'\n$dir = '"@ + d + "'\nforeach ($f in @("@ + list
            + ")) { Remove-Item -LiteralPath (Join-Path $dir $f) -Force -ErrorAction SilentlyContinue }\nWrite-Output '已删除多余文件'\nexit 0"@,
        OsType::Linux => "cd '"@ + d + "' || exit 3\nrm -f -- "@ + list + "\necho '已删除多余文件'"@,
    }
}

pub fn remove_script(os: OsType, dir: &str, files: &Vec<String>) -> (r: String)
    ensures
        r@ == spec_remove_script(os, dir@, views(files@)),
{
    let d = server_dir_exec(os, dir);
    let list = quoted_list_exec(os, files);
    match os {
        OsType::Windows => {
            let mut s = owned("$ErrorActionPreference = 'Continue'\n$dir = '");
            s.append(d.as_str());
            s.append("'\nforeach ($f in @(");
            s.append(list.as_str());
            s.append(")) { Remove-Item -LiteralPath (Join-Path $dir $f) -Force -ErrorAction SilentlyContinue }\nWrite-Output '已删除多余文件'\nexit 0");
            s
        },
        OsType::Linux => {
            let mut s = owned("cd '");
            s.append(d.as_str());
            s.append("' || exit 3\nrm -f -- ");
            s.append(list.as_str());
            s.append("\necho '已删除多余文件'");
            s
        },
    }
}

/// The script of a step on a server of the given system.
pub open spec fn spec_step_script(os: OsType, step: StepView) -> Seq<char> {
    match step {
        StepView::Snapshot(live, backup) => spec_snapshot_script(os, live, backup),
        StepView::Upload(_, _) => Seq::empty(),
        StepView::Extract(zip, dest) => spec_extract_script(os, zip, dest, false),
        StepView::Remove(dir, files) => spec_remove_script(os, dir, files),
        StepView::ReplaceFromStaging(staging, live, delete) => spec_replace_script(os, staging, live, delete),
    }
}

/// The script that carries out a step (none for an upload, which is a
/// file transfer).
pub fn step_script(os: OsType, step: &FrontendStep) -> (r: Option<String>)
    ensures
        match r {
            Some(s) => !(step_view(*step) is Upload) && s@ == spec_step_script(os, step_view(*step)),
            None => step_view(*step) is Upload,
        },
{
    match step {
        FrontendStep::Snapshot { live, backup } => Some(snapshot_script(os, live.as_str(), backup.as_str())),
        FrontendStep::Upload { .. } => None,
        FrontendStep::Extract { remote_zip, dest } => Some(extract_script(os, remote_zip.as_str(), dest.as_str(), false)),
        FrontendStep::Remove { dir, files } => Some(remove_script(os, dir.as_str(), files)),
        FrontendStep::ReplaceFromStaging { staging, live, delete_extraneous } => Some(replace_script(os, staging.as_str(), live.as_str(), *delete_extraneous)),
    }
}

// ---------------------------------------------------------------------
// Environment label of a release
// ---------------------------------------------------------------------

/// The group of each chosen target ("未分组" when it has none).
pub open spec fn target_groups(targets: Seq<FrontendTarget>, chosen: Seq<int>) -> Seq<Seq<char>> {
    chosen.map_values(|k: int| match targets[k].group {
        Some(g) => g@,
        None => "未分组"@,
    })
}

/// Strictly increasing in the order of `str`.
pub open spec fn strictly_sorted(s: Seq<Seq<char>>) -> bool {
    forall|k: int| 0 <= k < s.len() - 1 ==> crate::listing::lex_lt(#[trigger] s[k], s[k + 1])
}

proof fn lemma_lex_total(a: Seq<char>, b: Seq<char>)
    ensures
        a != b ==> crate::listing::lex_lt(a, b) || crate::listing::lex_lt(b, a),
    decreases a.len(),
{
    if a.len() > 0 && b.len() > 0 && a[0] == b[0] {
        lemma_lex_total(a.drop_first(), b.drop_first());
        if a != b {
            assert(a.drop_first() != b.drop_first()) by {
                if a.drop_first() == b.drop_first() {
                    assert(a =~= seq![a[0]] + a.drop_first());
                    assert(b =~= seq![b[0]] + b.drop_first());
                }
            }
        }
    } else if a.len() > 0 && b.len() > 0 && a[0] != b[0] {
        assert(a[0] < b[0] || b[0] < a[0]);
    } else if a.len() == 0 && b.len() == 0 {
        assert(a =~= b);
    }
}

/// The distinct groups of the chosen targets, sorted and joined with "、".
pub fn group_label(targets: &Vec<FrontendTarget>, chosen: &Vec<usize>) -> (r: String)
    requires
        forall|k: int| 0 <= k < chosen@.len() ==> chosen@[k] < targets@.len(),
    ensures
        exists|names: Seq<Seq<char>>| #[trigger] strictly_sorted(names)
            && names.to_set() == target_groups(targets@, as_ints(chosen@)).to_set()
            && r@ == crate::text::join(names, "、"@),
{
    let ghost groups = target_groups(targets@, as_ints(chosen@));
    let mut keys: Vec<Vec<char>> = Vec::new();
    let mut dirs: Vec<bool> = Vec::new();
    let mut i: usize = 0;
    while i < chosen.len()
        invariant
            i <= chosen@.len(),
            forall|k: int| 0 <= k < chosen@.len() ==> chosen@[k] < targets@.len(),
            groups == target_groups(targets@, as_ints(chosen@)),
            dirs@ == crate::listing::no_dirs(i as nat),
            crate::listing::key_views(keys@) == groups.take(i as int),
        decreases chosen.len() - i,
    {
        let t = &targets[chosen[i]];
        let k = match &t.group {
            Some(g) => crate::text::chars_of(g.as_str()),
            None => crate::text::chars_of("未分组"),
        };
        let ghost before = keys@;
        keys.push(k);
        dirs.push(false);
        assert(crate::listing::key_views(keys@) =~= crate::listing::key_views(before).push(groups[i as int]));
        assert(groups.take(i + 1) =~= groups.take(i as int).push(groups[i as int]));
        i = i + 1;
        assert(dirs@ =~= crate::listing::no_dirs(i as nat));
    }
    assert(groups.take(groups.len() as int) =~= groups);
    let ord = crate::listing::listing_order(&dirs, &keys);
    let ghost ks = crate::listing::key_views(keys@);
    let ghost n = groups.len();
    // Walk in order, keeping a key only when it differs from the last kept.
    let mut names: Vec<Vec<char>> = Vec::new();
    let mut j: usize = 0;
    while j < ord.len()
        invariant
            crate::listing::is_listing_order(ord@, dirs@, ks),
            dirs@ == crate::listing::no_dirs(keys@.len() as nat),
            ks == crate::listing::key_views(keys@),
            ks == groups,
            forall|g: int| 0 <= g < n ==> #[trigger] ord@.contains(g as usize),
            n == groups.len(),
            j <= ord@.len(),
            strictly_sorted(crate::text::views_of_vecs(names@)),
            j > 0 ==> names@.len() > 0 && crate::text::views_of_vecs(names@).last() == ks[ord@[j - 1] as int],
            j == 0 ==> names@.len() == 0,
            forall|x: Seq<char>| #[trigger] crate::text::views_of_vecs(names@).contains(x) <==> exists|m: int| 0 <= m < j && ks[ord@[m] as int] == x,
        decreases ord.len() - j,
    {
        let key = &keys[ord[j]];
        let ghost kv = ks[ord@[j as int] as int];
        assert(key@ == kv);
        let same = if names.len() > 0 { crate::text::chars_eq(&names[names.len() - 1], key) } else { false };
        let ghost old_names = crate::text::views_of_vecs(names@);
        if !same {
            proof {
                if j > 0 {
                    let a = ord@[j - 1] as int;
                    let b = ord@[j as int] as int;
                    assert(ord@[(j - 1) as int] as int == a);
                    assert(!crate::listing::listed_before(dirs@[b], ks[b], dirs@[a], ks[a]));
                    lemma_lex_total(ks[a], ks[b]);
                }
            }
            names.push(crate::text::copy_chars(key.as_slice()));
            assert(crate::text::views_of_vecs(names@) =~= old_names.push(kv));
        }
        proof {
            assert forall|x: Seq<char>| #[trigger] crate::text::views_of_vecs(names@).contains(x) <==> exists|m: int| 0 <= m < j + 1 && ks[ord@[m] as int] == x by {
                if crate::text::views_of_vecs(names@).contains(x) {
                    if old_names.contains(x) {
                        let m = choose|m: int| 0 <= m < j && ks[ord@[m] as int] == x;
                        assert(0 <= m < j + 1 && ks[ord@[m] as int] == x);
                    } else {
                        assert(x == kv);
                        assert(ks[ord@[j as int] as int] == x);
                    }
                }
                if exists|m: int| 0 <= m < j + 1 && ks[ord@[m] as int] == x {
                    let m = choose|m: int| 0 <= m < j + 1 && ks[ord@[m] as int] == x;
                    if m < j {
                        assert(old_names.contains(x));
                        let q = choose|q: int| 0 <= q < old_names.len() && old_names[q] == x;
                        assert(crate::text::views_of_vecs(names@)[q] == x);
                    } else if same {
                        assert(old_names.last() == x);
                        assert(crate::text::views_of_vecs(names@)[old_names.len() - 1] == x);
                    } else {
                        assert(crate::text::views_of_vecs(names@).last() == x);
                    }
                }
            }
        }
        j = j + 1;
    }
    let sep = crate::text::chars_of("、");
    let joined = crate::text::join_exec(&names, sep.as_slice());
    proof {
        let nv = crate::text::views_of_vecs(names@);
        assert(nv.to_set() =~= groups.to_set()) by {
            assert forall|x: Seq<char>| nv.to_set().contains(x) <==> groups.to_set().contains(x) by {
                if nv.contains(x) {
                    let m = choose|m: int| 0 <= m < ord@.len() && ks[ord@[m] as int] == x;
                    assert(groups[ord@[m] as int] == x);
                }
                if groups.contains(x) {
                    let g = choose|g: int| 0 <= g < groups.len() && groups[g] == x;
                    assert(ord@.contains(g as usize));
                    let m = choose|m: int| 0 <= m < ord@.len() && ord@[m] == g as usize;
                    assert(ks[ord@[m] as int] == x);
                }
            }
        }
        assert(strictly_sorted(nv));
    }
    crate::text::string_of(joined.as_slice())
}

} // verus!
