//! Deployment decisions shared by backend, front-end and Docker tasks:
//! modes, remote paths, request resolution, per-server step plans and the
//! release history kept for rollback.

use vstd::prelude::*;
use crate::config::{
    find_in, AppConfig, BackendGroup, BackendProject, CopyMode, FrontendTarget, OsType,
    ServerConfig,
};
use crate::scripts::{resolve_scripts, spec_resolve_scripts, spec_wrap_with_service_scripts, wrap_with_service_scripts};
use crate::ssh::sh_escape;
use crate::text::{
    ascii_lower, ascii_lower_exec, chars_of, first_occurrence, find_exec, owned, push_chars,
    replace_all, replace_all_exec, replace_char, replace_char_exec, rfind_char, skip_exec,
    string_of, take_exec, trim, trim_end_char, trim_end_char_exec, trim_end_either,
    trim_end_either_exec, trim_exec, trim_start_char, trim_start_char_exec,
};

verus! {

/// How a deployment proceeds.
#[derive(Debug, Clone, Copy, PartialEq, Eq, Structural)]
pub enum DeployMode {
    /// Upload to staging and replace at once.
    Full,
    /// Upload to staging only; replace later.
    Stage,
    /// Replace from what was staged earlier, without uploading.
    Replace,
}

pub fn default_deploy_mode() -> (r: DeployMode)
    ensures
        r == DeployMode::Full,
{
    DeployMode::Full
}

pub fn default_mode() -> (r: DeployMode)
    ensures
        r == DeployMode::Full,
{
    DeployMode::Full
}

pub open spec fn spec_mode_label(mode: DeployMode) -> Seq<char> {
    match mode {
        DeployMode::Full => "直接替换"@,
        DeployMode::Stage => "仅上传到中转"@,
        DeployMode::Replace => "从中转替换"@,
    }
}

/// Label of a front-end deployment mode.
pub fn mode_label(mode: DeployMode) -> (r: &'static str)
    ensures
        r@ == spec_mode_label(mode),
{
    match mode {
        DeployMode::Full => "直接替换",
        DeployMode::Stage => "仅上传到中转",
        DeployMode::Replace => "从中转替换",
    }
}

pub open spec fn spec_backend_mode_text(mode: DeployMode) -> Seq<char> {
    match mode {
        DeployMode::Full => "上传并替换"@,
        DeployMode::Stage => "仅上传到中转"@,
        DeployMode::Replace => "从中转替换"@,
    }
}

/// Label of a backend deployment mode.
pub fn backend_mode_text(mode: DeployMode) -> (r: &'static str)
    ensures
        r@ == spec_backend_mode_text(mode),
{
    match mode {
        DeployMode::Full => "上传并替换",
        DeployMode::Stage => "仅上传到中转",
        DeployMode::Replace => "从中转替换",
    }
}

// ---------------------------------------------------------------------
// Windows paths of backend deployments
// ---------------------------------------------------------------------

/// The part of an application directory after its `\sites\` segment
/// (found without regard to ASCII case), or the fallback id when there is
/// none: `D:\code\sites\to\service\rest` gives `to\service\rest`.
pub open spec fn spec_relative_site_path(remote_app_dir: Seq<char>, fallback_id: Seq<char>) -> Seq<
    char,
> {
    match first_occurrence(ascii_lower(remote_app_dir), "\\sites\\"@) {
        Some(i) => remote_app_dir.skip(i + 7),
        None => fallback_id,
    }
}

pub fn relative_site_path(remote_app_dir: &str, fallback_id: &str) -> (r: String)
    ensures
        r@ == spec_relative_site_path(remote_app_dir@, fallback_id@),
{
    let dir = chars_of(remote_app_dir);
    let lower = ascii_lower_exec(dir.as_slice());
    let marker = chars_of("\\sites\\");
    proof {
        reveal_strlit("\\sites\\");
        crate::text::lemma_first_occurrence(lower@, marker@);
    }
    match find_exec(lower.as_slice(), marker.as_slice()) {
        Some(position) => {
            assert(crate::text::occurs_at(lower@, marker@, position as int));
            assert(marker@.len() == 7);
            assert(lower@.len() == dir@.len());
            let dir_len = dir.len();
            assert(position + 7 <= dir_len);
            let rest = skip_exec(dir.as_slice(), position + 7);
            string_of(rest.as_slice())
        },
        None => owned(fallback_id),
    }
}

/// Windows join: both sides with backslashes, one backslash between them.
pub open spec fn spec_win_join(base: Seq<char>, sub: Seq<char>) -> Seq<char> {
    trim_end_char(replace_char(base, '/', '\\'), '\\') + seq!['\\'] + trim_start_char(
        replace_char(sub, '/', '\\'),
        '\\',
    )
}

pub fn win_join(base: &str, sub: &str) -> (r: String)
    ensures
        r@ == spec_win_join(base@, sub@),
{
    let b = chars_of(base);
    let s = chars_of(sub);
    let b2 = replace_char_exec(b.as_slice(), '/', '\\');
    let s2 = replace_char_exec(s.as_slice(), '/', '\\');
    let b3 = trim_end_char_exec(b2.as_slice(), '\\');
    let s3 = trim_start_char_exec(s2.as_slice(), '\\');
    let mut out = string_of(b3.as_slice());
    crate::text::push_char(&mut out, '\\');
    push_chars(&mut out, s3.as_slice());
    assert(out@ =~= spec_win_join(base@, sub@));
    out
}

/// A value for a PowerShell single-quoted string: quotes doubled.
pub open spec fn spec_ps_single_quote(value: Seq<char>) -> Seq<char> {
    replace_all(value, "'"@, "''"@)
}

pub fn ps_single_quote(value: &str) -> (r: String)
    ensures
        r@ == spec_ps_single_quote(value@),
{
    proof {
        reveal_strlit("'");
    }
    let v = chars_of(value);
    let q = chars_of("'");
    let d = chars_of("''");
    let out = replace_all_exec(v.as_slice(), q.as_slice(), d.as_slice());
    string_of(out.as_slice())
}

/// The replacement script between the project's stop and start scripts.
pub fn wrap_project_scripts(project: &BackendProject, inner_script: &str) -> (r: String)
    ensures
        r@ == spec_wrap_with_service_scripts(
            spec_resolve_scripts(*project).0,
            spec_resolve_scripts(*project).1,
            inner_script@,
        ),
{
    let (stop_script, start_script) = resolve_scripts(project);
    wrap_with_service_scripts(stop_script.as_str(), start_script.as_str(), inner_script)
}

/// Remote paths used when deploying one project of a group.
pub struct BackendPaths {
    /// Path of the project below the sites root.
    pub rel_path: String,
    /// Live `bin` directory.
    pub app_bin: String,
    /// `bin` directory of the release in the staging directory.
    pub staging_bin: String,
    /// Where the live `bin` is backed up before replacement.
    pub backup_bin: String,
    /// Dated copy of the application directory (`<dir>-yyyyMMdd`).
    pub sibling_dir: String,
}

pub open spec fn spec_release_bin(root: Seq<char>, release: Seq<char>, rel: Seq<char>) -> Seq<char> {
    spec_win_join(spec_win_join(spec_win_join(root, release), rel), "bin"@)
}

fn release_bin(root: &str, release: &str, rel: &str) -> (r: String)
    ensures
        r@ == spec_release_bin(root@, release@, rel@),
{
    let a = win_join(root, release);
    let b = win_join(a.as_str(), rel);
    win_join(b.as_str(), "bin")
}

/// Paths of a project: live bin, the release's staging and backup bins
/// under the group's directories, and the dated sibling copy.
pub fn backend_paths(
    group: &BackendGroup,
    project: &BackendProject,
    release_name: &str,
    date_suffix: &str,
) -> (r: BackendPaths)
    ensures
        r.rel_path@ == spec_relative_site_path(project.remote_app_dir@, project.id@),
        r.app_bin@ == spec_win_join(project.remote_app_dir@, "bin"@),
        r.staging_bin@ == spec_release_bin(group.staging_dir@, release_name@, r.rel_path@),
        r.backup_bin@ == spec_release_bin(group.backup_dir@, release_name@, r.rel_path@),
        r.sibling_dir@ == trim_end_char(project.remote_app_dir@, '\\') + "-"@ + date_suffix@,
{
    let rel_path = relative_site_path(project.remote_app_dir.as_str(), project.id.as_str());
    let app_bin = win_join(project.remote_app_dir.as_str(), "bin");
    let staging_bin = release_bin(group.staging_dir.as_str(), release_name, rel_path.as_str());
    let backup_bin = release_bin(group.backup_dir.as_str(), release_name, rel_path.as_str());
    let dir = chars_of(project.remote_app_dir.as_str());
    let trimmed = trim_end_char_exec(dir.as_slice(), '\\');
    let mut sibling_dir = string_of(trimmed.as_slice());
    sibling_dir.append("-");
    sibling_dir.append(date_suffix);
    BackendPaths { rel_path, app_bin, staging_bin, backup_bin, sibling_dir }
}

// ---------------------------------------------------------------------
// Front-end paths
// ---------------------------------------------------------------------

/// A directory without trailing slashes or backslashes.
pub open spec fn spec_trim_dir(path: Seq<char>) -> Seq<char> {
    trim_end_either(path, '/', '\\')
}

pub fn trim_dir(path: &str) -> (r: String)
    ensures
        r@ == spec_trim_dir(path@),
{
    let v = chars_of(path);
    let t = trim_end_either_exec(v.as_slice(), '/', '\\');
    string_of(t.as_slice())
}

/// A value for a PowerShell single-quoted string: quotes doubled.
pub fn escape_ps(value: &str) -> (r: String)
    ensures
        r@ == spec_ps_single_quote(value@),
{
    ps_single_quote(value)
}

/// A value for a shell single-quoted string: `'` becomes `'\''`.
pub fn escape_sh(value: &str) -> (r: String)
    ensures
        r@ == sh_escape(value@),
{
    proof {
        reveal_strlit("'");
    }
    let v = chars_of(value);
    let q = chars_of("'");
    let e = chars_of("'\\''");
    let out = replace_all_exec(v.as_slice(), q.as_slice(), e.as_slice());
    string_of(out.as_slice())
}

/// A path with the separators of the target system.
pub open spec fn spec_native_path(os: OsType, path: Seq<char>) -> Seq<char> {
    match os {
        OsType::Windows => replace_char(path, '/', '\\'),
        OsType::Linux => replace_char(path, '\\', '/'),
    }
}

pub fn native_path(os: OsType, path: &str) -> (r: String)
    ensures
        r@ == spec_native_path(os, path@),
{
    let v = chars_of(path);
    let out = match os {
        OsType::Windows => replace_char_exec(v.as_slice(), '/', '\\'),
        OsType::Linux => replace_char_exec(v.as_slice(), '\\', '/'),
    };
    string_of(out.as_slice())
}

/// Everything before the last '/' of the trimmed, slash-normalised path;
/// the whole of it when it has no '/'.
pub open spec fn spec_parent_dir(path: Seq<char>) -> Seq<char> {
    let normalized = replace_char(spec_trim_dir(path), '\\', '/');
    if exists|j: int| 0 <= j < normalized.len() && normalized[j] == '/' {
        let pos = choose|j: int|
            0 <= j < normalized.len() && normalized[j] == '/' && forall|k: int|
                j < k < normalized.len() ==> normalized[k] != '/';
        normalized.take(pos)
    } else {
        normalized
    }
}

pub fn parent_dir(path: &str) -> (r: String)
    ensures
        r@ == spec_parent_dir(path@),
{
    let v = chars_of(path);
    let t = trim_end_either_exec(v.as_slice(), '/', '\\');
    let normalized = replace_char_exec(t.as_slice(), '\\', '/');
    let ghost n = normalized@;
    match rfind_char(normalized.as_slice(), '/') {
        Some(pos) => {
            proof {
                let p = choose|j: int|
                    0 <= j < n.len() && n[j] == '/' && forall|k: int| j < k < n.len() ==> n[k] != '/';
                assert(p == pos as int) by {
                    if p < pos {
                    } else if p > pos {
                    }
                }
            }
            let out = take_exec(normalized.as_slice(), pos);
            string_of(out.as_slice())
        },
        None => string_of(normalized.as_slice()),
    }
}

/// `parent` joined with `name` by the target system's separator.
pub open spec fn spec_join_native(os: OsType, parent: Seq<char>, name: Seq<char>) -> Seq<char> {
    match os {
        OsType::Windows => trim_end_char(spec_native_path(os, parent), '\\') + seq!['\\'] + name,
        OsType::Linux => trim_end_char(spec_native_path(os, parent), '/') + seq!['/'] + name,
    }
}

pub fn join_native(os: OsType, parent: &str, name: &str) -> (r: String)
    ensures
        r@ == spec_join_native(os, parent@, name@),
{
    let native = native_path(os, parent);
    let v = chars_of(native.as_str());
    let sep = match os {
        OsType::Windows => '\\',
        OsType::Linux => '/',
    };
    let t = trim_end_char_exec(v.as_slice(), sep);
    let mut out = string_of(t.as_slice());
    crate::text::push_char(&mut out, sep);
    out.append(name);
    assert(out@ =~= spec_join_native(os, parent@, name@));
    out
}

/// Snapshot of a live directory kept for rollback: `<dir>.rollback-<suffix>`.
pub open spec fn spec_rollback_backup_dir(live_dir: Seq<char>, suffix: Seq<char>) -> Seq<char> {
    spec_trim_dir(live_dir) + ".rollback-"@ + suffix
}

pub fn rollback_backup_dir(live_dir: &str, suffix: &str) -> (r: String)
    ensures
        r@ == spec_rollback_backup_dir(live_dir@, suffix@),
{
    let mut out = trim_dir(live_dir);
    out.append(".rollback-");
    out.append(suffix);
    out
}

/// The staging directory of a front-end target: the custom one when it is
/// not blank (trimmed, without trailing separators), else `<remote_dir>-staging`.
pub open spec fn spec_staging_dir_of(target: FrontendTarget) -> Seq<char> {
    match target.staging_dir {
        Some(dir) => if trim(dir@).len() != 0 {
            spec_trim_dir(trim(dir@))
        } else {
            spec_trim_dir(target.remote_dir@) + "-staging"@
        },
        None => spec_trim_dir(target.remote_dir@) + "-staging"@,
    }
}

pub fn staging_dir_of(target: &FrontendTarget) -> (r: String)
    ensures
        r@ == spec_staging_dir_of(*target),
{
    match &target.staging_dir {
        Some(dir) => {
            let t = crate::text::str_trim(dir.as_str());
            if t.len() != 0 {
                let d = trim_end_either_exec(t.as_slice(), '/', '\\');
                return string_of(d.as_slice());
            }
        },
        None => {},
    }
    let mut out = trim_dir(target.remote_dir.as_str());
    out.append("-staging");
    out
}

/// Name of a file inside a deployment archive: its path below the packed
/// directory with '/' separators; the directory itself has none.
pub fn archive_entry_name(relative: &str) -> (r: Option<String>)
    ensures
        relative@.len() == 0 ==> r is None,
        relative@.len() > 0 ==> (r matches Some(n) && n@ == replace_char(relative@, '\\', '/')),
{
    let v = chars_of(relative);
    if v.len() == 0 {
        return None;
    }
    let out = replace_char_exec(v.as_slice(), '\\', '/');
    Some(string_of(out.as_slice()))
}

} // verus!
