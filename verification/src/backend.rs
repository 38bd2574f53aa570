//! Checks and choices a backend deployment or rollback makes before any
//! server is touched: which group, projects and servers take part, and the
//! administrative share a release is copied through.

use vstd::prelude::*;
use crate::config::{AppConfig, AuthConfig, BackendGroup, BackendProject, CopyMode, ServerConfig, server_not_found_msg};
use crate::deploy::{
    backend_paths, spec_relative_site_path, spec_release_bin, relative_site_path, wrap_project_scripts,
    DeployMode, spec_ps_single_quote, ps_single_quote, spec_win_join, win_join,
};
use crate::remote_scripts::{
    cleanup_upload_script, expand_archive_script, health_check_script, replace_bin_block, restore_bin_block,
    sibling_backup_block, smb_copy_script, spec_cleanup_upload_script, spec_expand_archive_script,
    spec_health_check_script, spec_replace_bin_block, spec_restore_bin_block, spec_sibling_backup_block,
    spec_smb_copy_script,
};
use crate::scripts::{spec_resolve_scripts, spec_wrap_with_service_scripts};
use crate::history::{first_index, lemma_first_index, ReleaseRecord};
use crate::text::{
    chars_of, contains, owned, push_char, replace_char, skip_exec, str_eq, str_trim, string_of,
    strings_contain, trim, trim_start_char, trim_start_char_exec, views,
};

verus! {

/// A request to deploy projects of a backend group.
#[derive(Clone, Debug)]
pub struct BackendDeployRequest {
    pub group_id: String,
    pub project_ids: Vec<String>,
    /// Release name, such as `20260812-优惠券功能`.
    pub release_name: String,
    /// Overrides the group's copy mode.
    pub copy_mode: Option<CopyMode>,
    pub mode: DeployMode,
    /// Copy the application directory to `<dir>-yyyyMMdd` before replacing.
    pub backup_sibling: bool,
}

// ---------------------------------------------------------------------
// Lookups
// ---------------------------------------------------------------------

pub open spec fn group_index(groups: Seq<BackendGroup>, id: Seq<char>) -> Option<int> {
    first_index(groups, |g: BackendGroup| g.id@ == id)
}

pub open spec fn server_index(servers: Seq<ServerConfig>, id: Seq<char>) -> Option<int> {
    first_index(servers, |s: ServerConfig| s.id@ == id)
}

pub open spec fn release_index(records: Seq<ReleaseRecord>, id: Seq<char>) -> Option<int> {
    first_index(records, |r: ReleaseRecord| r.id@ == id)
}

/// Index of the first group with the given id.
pub fn find_group(groups: &Vec<BackendGroup>, id: &str) -> (r: Option<usize>)
    ensures
        match r {
            Some(i) => group_index(groups@, id@) == Some(i as int) && i < groups@.len(),
            None => group_index(groups@, id@) is None,
        },
{
    let ghost p = |g: BackendGroup| g.id@ == id@;
    let mut i: usize = 0;
    while i < groups.len()
        invariant
            i <= groups@.len(),
            p == (|g: BackendGroup| g.id@ == id@),
            forall|j: int| 0 <= j < i ==> !p(groups@[j]),
        decreases groups.len() - i,
    {
        if str_eq(groups[i].id.as_str(), id) {
            proof {
                lemma_first_index(groups@, p, i as int);
            }
            return Some(i);
        }
        i = i + 1;
    }
    proof {
        lemma_first_index(groups@, p, i as int);
    }
    None
}

/// Index of the first server with the given id.
pub fn find_server_index(servers: &Vec<ServerConfig>, id: &str) -> (r: Option<usize>)
    ensures
        match r {
            Some(i) => server_index(servers@, id@) == Some(i as int) && i < servers@.len(),
            None => server_index(servers@, id@) is None,
        },
{
    let ghost p = |s: ServerConfig| s.id@ == id@;
    let mut i: usize = 0;
    while i < servers.len()
        invariant
            i <= servers@.len(),
            p == (|s: ServerConfig| s.id@ == id@),
            forall|j: int| 0 <= j < i ==> !p(servers@[j]),
        decreases servers.len() - i,
    {
        if str_eq(servers[i].id.as_str(), id) {
            proof {
                lemma_first_index(servers@, p, i as int);
            }
            return Some(i);
        }
        i = i + 1;
    }
    proof {
        lemma_first_index(servers@, p, i as int);
    }
    None
}

/// Positions, in group order, of the projects whose id is in `ids`.
pub open spec fn selected_projects(projects: Seq<BackendProject>, ids: Seq<Seq<char>>) -> Seq<int>
    decreases projects.len(),
{
    if projects.len() == 0 {
        Seq::empty()
    } else {
        let rest = selected_projects(projects.drop_last(), ids);
        if ids.contains(projects.last().id@) {
            rest.push(projects.len() - 1)
        } else {
            rest
        }
    }
}

pub open spec fn as_ints(v: Seq<usize>) -> Seq<int> {
    v.map_values(|i: usize| i as int)
}

/// The projects of a group chosen by id, in the group's order.
pub fn select_projects(projects: &Vec<BackendProject>, ids: &Vec<String>) -> (r: Vec<usize>)
    ensures
        as_ints(r@) == selected_projects(projects@, views(ids@)),
        forall|k: int| 0 <= k < r@.len() ==> r@[k] < projects@.len(),
{
    let mut out: Vec<usize> = Vec::new();
    let mut i: usize = 0;
    while i < projects.len()
        invariant
            i <= projects@.len(),
            as_ints(out@) == selected_projects(projects@.take(i as int), views(ids@)),
            forall|k: int| 0 <= k < out@.len() ==> out@[k] < i,
        decreases projects.len() - i,
    {
        let ghost before = out@;
        assert(projects@.take(i + 1).drop_last() =~= projects@.take(i as int));
        if strings_contain(ids, projects[i].id.as_str()) {
            out.push(i);
            assert(as_ints(out@) =~= as_ints(before).push(i as int));
        }
        i = i + 1;
    }
    assert(projects@.take(projects@.len() as int) =~= projects@);
    out
}

/// The first id in `ids` that names no configured server.
pub open spec fn first_missing(servers: Seq<ServerConfig>, ids: Seq<Seq<char>>) -> Option<Seq<char>>
    decreases ids.len(),
{
    if ids.len() == 0 {
        None
    } else if server_index(servers, ids[0]) is None {
        Some(ids[0])
    } else {
        first_missing(servers, ids.drop_first())
    }
}

/// The configured server of each id, in order; the first id without one
/// is an error.
pub fn resolve_servers(servers: &Vec<ServerConfig>, ids: &Vec<String>) -> (r: Result<Vec<usize>, String>)
    ensures
        match r {
            Ok(found) => {
                &&& first_missing(servers@, views(ids@)) is None
                &&& found@.len() == ids@.len()
                &&& forall|k: int| 0 <= k < found@.len() ==> server_index(servers@, ids@[k]@) == Some(#[trigger] found@[k] as int)
            },
            Err(e) => match first_missing(servers@, views(ids@)) {
                Some(id) => e@ == server_not_found_msg(id),
                None => false,
            },
        },
{
    let ghost all = views(ids@);
    let mut found: Vec<usize> = Vec::new();
    let mut i: usize = 0;
    assert(all.skip(0) =~= all);
    while i < ids.len()
        invariant
            i <= ids@.len(),
            all == views(ids@),
            found@.len() == i,
            forall|k: int| 0 <= k < i ==> server_index(servers@, ids@[k]@) == Some(#[trigger] found@[k] as int),
            first_missing(servers@, all) == first_missing(servers@, all.skip(i as int)),
        decreases ids.len() - i,
    {
        let ghost rest = all.skip(i as int);
        assert(rest[0] == ids@[i as int]@);
        match find_server_index(servers, ids[i].as_str()) {
            Some(k) => {
                assert(rest.drop_first() =~= all.skip(i + 1));
                found.push(k);
            },
            None => {
                let mut msg = owned("找不到服务器配置: ");
                msg.append(ids[i].as_str());
                return Err(msg);
            },
        }
        i = i + 1;
    }
    Ok(found)
}

// ---------------------------------------------------------------------
// Deployment plan
// ---------------------------------------------------------------------

/// What a backend deployment works on: positions of the group, its chosen
/// projects and servers in the configuration, the trimmed release name and
/// the copy mode in force.
pub struct BackendPlan {
    pub group: usize,
    pub projects: Vec<usize>,
    pub release_name: String,
    pub copy_mode: CopyMode,
    pub servers: Vec<usize>,
}

/// Why a deployment request cannot start, checked in this order: unknown
/// group, no project chosen, blank release name, a group without servers, a
/// group server missing from the configuration.
pub open spec fn backend_plan_error(config: AppConfig, request: BackendDeployRequest) -> Option<Seq<char>> {
    match group_index(config.backend_groups@, request.group_id@) {
        None => Some("找不到负载组: "@ + request.group_id@),
        Some(g) => {
            let group = config.backend_groups@[g];
            let ids = group.spec_effective_server_ids();
            if selected_projects(group.projects@, views(request.project_ids@)).len() == 0 {
                Some("未选择任何项目"@)
            } else if trim(request.release_name@).len() == 0 {
                Some("发布名称不能为空"@)
            } else if ids.len() == 0 {
                Some("负载组 "@ + group.name@ + " 未配置任何服务器"@)
            } else {
                match first_missing(config.servers@, ids) {
                    Some(id) => Some(server_not_found_msg(id)),
                    None => None,
                }
            }
        },
    }
}

/// The plan a valid request leads to.
pub open spec fn plan_fits(plan: BackendPlan, config: AppConfig, request: BackendDeployRequest) -> bool {
    &&& group_index(config.backend_groups@, request.group_id@) == Some(plan.group as int)
    &&& {
        let group = config.backend_groups@[plan.group as int];
        let ids = group.spec_effective_server_ids();
        &&& as_ints(plan.projects@) == selected_projects(group.projects@, views(request.project_ids@))
        &&& plan.release_name@ == trim(request.release_name@)
        &&& plan.copy_mode == match request.copy_mode { Some(m) => m, None => group.copy_mode }
        &&& plan.servers@.len() == ids.len()
        &&& forall|k: int| 0 <= k < ids.len() ==> server_index(config.servers@, ids[k]) == Some(#[trigger] plan.servers@[k] as int)
    }
}

/// Checks a deployment request against the configuration and resolves
/// what it works on.
pub fn plan_backend_deploy(config: &AppConfig, request: &BackendDeployRequest) -> (r: Result<BackendPlan, String>)
    ensures
        match r {
            Ok(plan) => backend_plan_error(*config, *request) is None && plan_fits(plan, *config, *request),
            Err(e) => backend_plan_error(*config, *request) == Some(e@),
        },
{
    let g = match find_group(&config.backend_groups, request.group_id.as_str()) {
        Some(g) => g,
        None => {
            let mut msg = owned("找不到负载组: ");
            msg.append(request.group_id.as_str());
            return Err(msg);
        },
    };
    let group = &config.backend_groups[g];
    let projects = select_projects(&group.projects, &request.project_ids);
    if projects.len() == 0 {
        return Err(owned("未选择任何项目"));
    }
    let name = str_trim(request.release_name.as_str());
    if name.len() == 0 {
        return Err(owned("发布名称不能为空"));
    }
    let ids = group.effective_server_ids();
    if ids.len() == 0 {
        let mut msg = owned("负载组 ");
        msg.append(group.name.as_str());
        msg.append(" 未配置任何服务器");
        return Err(msg);
    }
    let servers = match resolve_servers(&config.servers, &ids) {
        Ok(found) => found,
        Err(e) => return Err(e),
    };
    let copy_mode = match request.copy_mode {
        Some(m) => m,
        None => group.copy_mode,
    };
    let plan = BackendPlan { group: g, projects, release_name: string_of(name.as_slice()), copy_mode, servers };
    Ok(plan)
}

// ---------------------------------------------------------------------
// Rollback plan
// ---------------------------------------------------------------------

/// What a rollback works on: the release record, its group and the
/// projects of the record that the group still has.
pub struct RollbackPlan {
    pub record: usize,
    pub group: usize,
    pub projects: Vec<usize>,
}

/// Why a rollback cannot start: unknown release, a release that did not
/// end in `success` (only those have a backup of the replaced `bin`), its
/// group gone from the configuration, none of its projects left in the group.
pub open spec fn rollback_plan_error(config: AppConfig, records: Seq<ReleaseRecord>, release_id: Seq<char>) -> Option<Seq<char>> {
    match release_index(records, release_id) {
        None => Some("找不到该发布记录"@),
        Some(k) => {
            let record = records[k];
            if record.status@ != "success"@ {
                Some("只有成功的发布才能回滚（当前状态: "@ + record.status@ + "）"@)
            } else {
            match group_index(config.backend_groups@, record.group_id@) {
                None => Some("找不到负载组: "@ + record.group_id@ + "（配置可能已修改）"@),
                Some(g) => if selected_projects(config.backend_groups@[g].projects@, views(record.project_ids@)).len() == 0 {
                    Some("发布记录中的项目在当前配置中不存在"@)
                } else {
                    None
                },
            }
            }
        },
    }
}

/// Finds the release to roll back and what of it the configuration still has.
pub fn plan_rollback(config: &AppConfig, records: &Vec<ReleaseRecord>, release_id: &str) -> (r: Result<RollbackPlan, String>)
    ensures
        match r {
            Ok(plan) => {
                &&& rollback_plan_error(*config, records@, release_id@) is None
                &&& release_index(records@, release_id@) == Some(plan.record as int)
                &&& group_index(config.backend_groups@, records@[plan.record as int].group_id@) == Some(plan.group as int)
                &&& as_ints(plan.projects@) == selected_projects(
                    config.backend_groups@[plan.group as int].projects@,
                    views(records@[plan.record as int].project_ids@),
                )
            },
            Err(e) => rollback_plan_error(*config, records@, release_id@) == Some(e@),
        },
{
    let ghost p = |x: ReleaseRecord| x.id@ == release_id@;
    let mut k: usize = 0;
    let mut found = false;
    while k < records.len()
        invariant
            k <= records@.len(),
            p == (|x: ReleaseRecord| x.id@ == release_id@),
            forall|j: int| 0 <= j < k ==> !p(records@[j]),
            found ==> k < records@.len() && p(records@[k as int]),
        ensures
            found ==> k < records@.len() && p(records@[k as int]),
            forall|j: int| 0 <= j < k ==> !p(records@[j]),
            !found ==> k == records@.len(),
        decreases records.len() - k,
    {
        if str_eq(records[k].id.as_str(), release_id) {
            found = true;
            break;
        }
        k = k + 1;
    }
    proof {
        lemma_first_index(records@, p, k as int);
    }
    if !found {
        return Err(owned("找不到该发布记录"));
    }
    let record = &records[k];
    if !str_eq(record.status.as_str(), "success") {
        let mut msg = owned("只有成功的发布才能回滚（当前状态: ");
        msg.append(record.status.as_str());
        msg.append("）");
        return Err(msg);
    }
    let g = match find_group(&config.backend_groups, record.group_id.as_str()) {
        Some(g) => g,
        None => {
            let mut msg = owned("找不到负载组: ");
            msg.append(record.group_id.as_str());
            msg.append("（配置可能已修改）");
            return Err(msg);
        },
    };
    let projects = select_projects(&config.backend_groups[g].projects, &record.project_ids);
    if projects.len() == 0 {
        return Err(owned("发布记录中的项目在当前配置中不存在"));
    }
    Ok(RollbackPlan { record: k, group: g, projects })
}

// ---------------------------------------------------------------------
// Scripts run on the servers
// ---------------------------------------------------------------------

/// The replacement script of a project on one server: optionally a dated
/// copy of the application directory, then backup of the live `bin` and
/// mirror of the staged one, between the project's stop and start scripts.
pub open spec fn spec_deploy_script(
    group: BackendGroup,
    project: BackendProject,
    release_name: Seq<char>,
    backup_sibling: bool,
    date_suffix: Seq<char>,
) -> Seq<char> {
    let rel = spec_relative_site_path(project.remote_app_dir@, project.id@);
    let app_bin = spec_win_join(project.remote_app_dir@, "bin"@);
    let staging_bin = spec_release_bin(group.staging_dir@, release_name, rel);
    let backup_bin = spec_release_bin(group.backup_dir@, release_name, rel);
    let sibling_dir = crate::text::trim_end_char(project.remote_app_dir@, '\\') + "-"@ + date_suffix;
    let sibling = if backup_sibling {
        spec_sibling_backup_block(spec_ps_single_quote(project.remote_app_dir@), spec_ps_single_quote(sibling_dir))
    } else {
        Seq::empty()
    };
    let inner = spec_replace_bin_block(sibling, spec_ps_single_quote(staging_bin), spec_ps_single_quote(app_bin), spec_ps_single_quote(backup_bin));
    spec_wrap_with_service_scripts(spec_resolve_scripts(project).0, spec_resolve_scripts(project).1, inner)
}

pub fn deploy_script(
    group: &BackendGroup,
    project: &BackendProject,
    release_name: &str,
    backup_sibling: bool,
    date_suffix: &str,
) -> (r: String)
    ensures
        r@ == spec_deploy_script(*group, *project, release_name@, backup_sibling, date_suffix@),
{
    let paths = backend_paths(group, project, release_name, date_suffix);
    let sibling = if backup_sibling {
        let a = ps_single_quote(project.remote_app_dir.as_str());
        let b = ps_single_quote(paths.sibling_dir.as_str());
        sibling_backup_block(a.as_str(), b.as_str())
    } else {
        String::new()
    };
    let staging_bin = ps_single_quote(paths.staging_bin.as_str());
    let app_bin = ps_single_quote(paths.app_bin.as_str());
    let backup_bin = ps_single_quote(paths.backup_bin.as_str());
    let inner = replace_bin_block(sibling.as_str(), staging_bin.as_str(), app_bin.as_str(), backup_bin.as_str());
    wrap_project_scripts(project, inner.as_str())
}

/// The rollback script of a project on one server: the release's backup
/// of `bin` mirrored back over the live one, between the project's stop and
/// start scripts.
pub open spec fn spec_rollback_script(group: BackendGroup, project: BackendProject, release_name: Seq<char>) -> Seq<char> {
    let rel = spec_relative_site_path(project.remote_app_dir@, project.id@);
    let app_bin = spec_win_join(project.remote_app_dir@, "bin"@);
    let backup_bin = spec_release_bin(group.backup_dir@, release_name, rel);
    let inner = spec_restore_bin_block(spec_ps_single_quote(backup_bin), spec_ps_single_quote(app_bin));
    spec_wrap_with_service_scripts(spec_resolve_scripts(project).0, spec_resolve_scripts(project).1, inner)
}

/// A rollback restores the release's backup: the script mirrors the
/// backed-up `bin` of the release (source) over the application's `bin`
/// (destination), whatever stop and start scripts surround it.
pub proof fn lemma_rollback_restores_backup(group: BackendGroup, project: BackendProject, release_name: Seq<char>)
    ensures
        crate::text::contains(
            spec_rollback_script(group, project, release_name),
            "robocopy '"@ + spec_ps_single_quote(
                spec_release_bin(group.backup_dir@, release_name, spec_relative_site_path(project.remote_app_dir@, project.id@)),
            ) + "' '"@ + spec_ps_single_quote(spec_win_join(project.remote_app_dir@, "bin"@)) + "' /MIR"@,
        ),
{
    let rel = spec_relative_site_path(project.remote_app_dir@, project.id@);
    let app_bin = spec_ps_single_quote(spec_win_join(project.remote_app_dir@, "bin"@));
    let backup_bin = spec_ps_single_quote(spec_release_bin(group.backup_dir@, release_name, rel));
    crate::remote_scripts::lemma_restore_copies_backup_over_bin(backup_bin, app_bin);
    crate::scripts::lemma_wrap_keeps_inner(
        spec_resolve_scripts(project).0,
        spec_resolve_scripts(project).1,
        spec_restore_bin_block(backup_bin, app_bin),
        "robocopy '"@ + backup_bin + "' '"@ + app_bin + "' /MIR"@,
    );
}

/// A deployment first copies the live `bin` into the release's backup
/// (source the application's `bin`), then mirrors the staged `bin` of the
/// release (source) over the application's `bin` (destination).
pub proof fn lemma_deploy_backs_up_then_replaces(
    group: BackendGroup,
    project: BackendProject,
    release_name: Seq<char>,
    backup_sibling: bool,
    date_suffix: Seq<char>,
)
    ensures
        ({
            let rel = spec_relative_site_path(project.remote_app_dir@, project.id@);
            let app_bin = spec_ps_single_quote(spec_win_join(project.remote_app_dir@, "bin"@));
            let staging_bin = spec_ps_single_quote(spec_release_bin(group.staging_dir@, release_name, rel));
            let backup_bin = spec_ps_single_quote(spec_release_bin(group.backup_dir@, release_name, rel));
            let script = spec_deploy_script(group, project, release_name, backup_sibling, date_suffix);
            &&& crate::text::contains(script, "robocopy '"@ + app_bin + "' '"@ + backup_bin + "' /E"@)
            &&& crate::text::contains(script, "robocopy '"@ + staging_bin + "' '"@ + app_bin + "' /MIR"@)
        }),
{
    let rel = spec_relative_site_path(project.remote_app_dir@, project.id@);
    let app_bin = spec_ps_single_quote(spec_win_join(project.remote_app_dir@, "bin"@));
    let staging_bin = spec_ps_single_quote(spec_release_bin(group.staging_dir@, release_name, rel));
    let backup_bin = spec_ps_single_quote(spec_release_bin(group.backup_dir@, release_name, rel));
    let sibling_dir = crate::text::trim_end_char(project.remote_app_dir@, '\\') + "-"@ + date_suffix;
    let sibling = if backup_sibling {
        spec_sibling_backup_block(spec_ps_single_quote(project.remote_app_dir@), spec_ps_single_quote(sibling_dir))
    } else {
        Seq::empty()
    };
    let inner = spec_replace_bin_block(sibling, staging_bin, app_bin, backup_bin);
    crate::remote_scripts::lemma_replace_backs_up_bin_first(sibling, staging_bin, app_bin, backup_bin);
    crate::remote_scripts::lemma_replace_copies_staging_over_bin(sibling, staging_bin, app_bin, backup_bin);
    crate::scripts::lemma_wrap_keeps_inner(
        spec_resolve_scripts(project).0,
        spec_resolve_scripts(project).1,
        inner,
        "robocopy '"@ + app_bin + "' '"@ + backup_bin + "' /E"@,
    );
    crate::scripts::lemma_wrap_keeps_inner(
        spec_resolve_scripts(project).0,
        spec_resolve_scripts(project).1,
        inner,
        "robocopy '"@ + staging_bin + "' '"@ + app_bin + "' /MIR"@,
    );
}

/// The health check of a project counts its site alive exactly when the
/// HTTP status is between 0 and 500: a 404 is alive, a 500 fails.
pub proof fn lemma_project_health_alive_below_500(url: Seq<char>)
    ensures
        crate::text::contains(
            spec_health_check_script(spec_ps_single_quote(url)),
            crate::remote_scripts::status_between_test(0, 500),
        ),
{
    crate::remote_scripts::lemma_health_alive_below_500(spec_ps_single_quote(url));
}

pub fn rollback_script(group: &BackendGroup, project: &BackendProject, release_name: &str) -> (r: String)
    ensures
        r@ == spec_rollback_script(*group, *project, release_name@),
{
    let paths = backend_paths(group, project, release_name, "");
    let backup_bin = ps_single_quote(paths.backup_bin.as_str());
    let app_bin = ps_single_quote(paths.app_bin.as_str());
    let inner = restore_bin_block(backup_bin.as_str(), app_bin.as_str());
    wrap_project_scripts(project, inner.as_str())
}

/// Where a project's archive is uploaded in a release's staging directory,
/// and the script that expands it into the release's `bin` for the project.
pub struct ExpandPlan {
    pub remote_zip: String,
    pub script: String,
}

pub fn expand_plan(staging_release: &str, project: &BackendProject) -> (r: ExpandPlan)
    ensures
        r.remote_zip@ == spec_win_join(spec_win_join(staging_release@, "_upload"@), project.id@ + ".zip"@),
        r.script@ == spec_expand_archive_script(
            spec_win_join(
                spec_win_join(staging_release@, spec_relative_site_path(project.remote_app_dir@, project.id@)),
                "bin"@,
            ),
            r.remote_zip@,
        ),
{
    let upload = win_join(staging_release, "_upload");
    let mut zip_name = crate::text::owned(project.id.as_str());
    zip_name.append(".zip");
    let remote_zip = win_join(upload.as_str(), zip_name.as_str());
    let rel = relative_site_path(project.remote_app_dir.as_str(), project.id.as_str());
    let dir = win_join(staging_release, rel.as_str());
    let staging_bin = win_join(dir.as_str(), "bin");
    let script = expand_archive_script(staging_bin.as_str(), remote_zip.as_str());
    ExpandPlan { remote_zip, script }
}

/// Removes a release's upload directory once every archive is expanded.
pub fn cleanup_script(staging_release: &str) -> (r: String)
    ensures
        r@ == spec_cleanup_upload_script(spec_win_join(staging_release@, "_upload"@)),
{
    let dir = win_join(staging_release, "_upload");
    cleanup_upload_script(dir.as_str())
}

/// The health check request of a project (its URL with quotes doubled).
pub fn health_check_command_script(url: &str) -> (r: String)
    ensures
        r@ == spec_health_check_script(spec_ps_single_quote(url@)),
{
    let escaped = ps_single_quote(url);
    health_check_script(escaped.as_str())
}

/// Number of health check attempts: the configured retries, at least one.
pub fn health_attempts(retries: u32) -> (r: u32)
    ensures
        r == if retries >= 1 { retries } else { 1 },
{
    if retries >= 1 { retries } else { 1 }
}

/// What is reported of a project's local artifacts: a warning when the
/// newest file is more than a day old (with its age in whole hours),
/// otherwise the file count and the newest file's time.
pub struct ArtifactReport {
    pub stale: bool,
    pub message: String,
}

pub fn artifact_report(project_name: &str, file_count: u64, newest_text: &str, age_minutes: u64) -> (r: ArtifactReport)
    ensures
        r.stale == (age_minutes > 24 * 60),
        r.stale ==> r.message@ == "注意: "@ + project_name@ + " 产物最新文件时间 "@ + newest_text@ + "（"@
            + crate::text::decimal((age_minutes / 60) as nat) + " 小时前），请确认不是旧包！"@,
        !r.stale ==> r.message@ == project_name@ + ": "@ + crate::text::decimal(file_count as nat) + " 个文件，最新文件时间 "@
            + newest_text@,
{
    if age_minutes > 24 * 60 {
        let mut m = owned("注意: ");
        m.append(project_name);
        m.append(" 产物最新文件时间 ");
        m.append(newest_text);
        m.append("（");
        crate::text::push_decimal(&mut m, age_minutes / 60);
        m.append(" 小时前），请确认不是旧包！");
        ArtifactReport { stale: true, message: m }
    } else {
        let mut m = owned(project_name);
        m.append(": ");
        crate::text::push_decimal(&mut m, file_count);
        m.append(" 个文件，最新文件时间 ");
        m.append(newest_text);
        ArtifactReport { stale: false, message: m }
    }
}

/// The first `n` characters of a text.
pub open spec fn prefix_chars(text: Seq<char>, n: nat) -> Seq<char> {
    if text.len() <= n { text } else { text.take(n as int) }
}

pub(crate) fn take_chars(text: &str, n: usize) -> (r: String)
    ensures
        r@ == prefix_chars(text@, n as nat),
{
    let v = crate::text::chars_of(text);
    if v.len() <= n {
        crate::text::string_of(v.as_slice())
    } else {
        let t = crate::text::take_exec(v.as_slice(), n);
        crate::text::string_of(t.as_slice())
    }
}

/// Failure of a script on a server: its name, exit code and the first 2000
/// characters of its output.
pub fn script_failure_message(server_name: &str, exit_code: u32, combined: &str) -> (r: String)
    ensures
        r@ == "服务器 "@ + server_name@ + " 执行脚本失败(退出码 "@ + crate::text::decimal(exit_code as nat) + "): "@
            + prefix_chars(combined@, 2000),
{
    let mut m = crate::text::owned("服务器 ");
    m.append(server_name);
    m.append(" 执行脚本失败(退出码 ");
    crate::text::push_decimal(&mut m, exit_code as u64);
    m.append("): ");
    let t = take_chars(combined, 2000);
    m.append(t.as_str());
    m
}

// ---------------------------------------------------------------------
// Copying a release over the administrative share
// ---------------------------------------------------------------------

/// What the first server needs to copy a release to another server.
pub struct SmbCopy {
    pub staging_release: String,
    pub share_root: String,
    pub remote_share_path: String,
    pub script: String,
}

/// The path of the release below the drive: everything after the drive
/// letter and its colon, without leading backslashes (empty when the second
/// character is not ASCII).
pub open spec fn path_after_drive(staging_release: Seq<char>) -> Seq<char> {
    if staging_release.len() >= 2 && (staging_release[1] as u32) < 128 {
        crate::text::trim_start_char(staging_release.skip(2), '\\')
    } else {
        Seq::empty()
    }
}

pub open spec fn is_ascii_alpha(c: char) -> bool {
    ('a' <= c && c <= 'z') || ('A' <= c && c <= 'Z')
}

/// Why a release cannot be copied over the share: key authentication on
/// the target; a blank staging directory; one without a drive letter; or
/// nothing left of it after the drive.
pub open spec fn smb_error(target: ServerConfig, group: BackendGroup, release_name: Seq<char>) -> Option<Seq<char>> {
    let staging_release = spec_win_join(group.staging_dir@, release_name);
    let dir = crate::text::replace_char(group.staging_dir@, '/', '\\');
    if !(target.auth is Password) {
        Some("服务器 "@ + target.name@ + " 使用密钥认证，无法走 SMB 复制，请把该组复制方式改为 upload"@)
    } else if dir.len() == 0 {
        Some("暂存目录配置为空"@)
    } else if !is_ascii_alpha(dir[0]) {
        Some("暂存目录必须是带盘符的 Windows 路径（如 D:\\code\\sites\\devlop），当前: "@ + group.staging_dir@)
    } else if path_after_drive(staging_release).len() == 0 {
        Some("暂存目录无效，无法拼出管理共享路径: "@ + group.staging_dir@)
    } else {
        None
    }
}

/// The account names tried on the share: the configured user, and
/// `host\user` unless the user already names a domain.
pub open spec fn host_user(target: ServerConfig) -> Seq<char> {
    if crate::text::contains(target.username@, seq!['\\']) {
        spec_ps_single_quote(target.username@)
    } else {
        spec_ps_single_quote(target.host@ + seq!['\\'] + target.username@)
    }
}

fn path_after_drive_exec(staging_release: &str) -> (r: Vec<char>)
    ensures
        r@ == path_after_drive(staging_release@),
{
    let v = crate::text::chars_of(staging_release);
    if v.len() >= 2 && (v[1] as u32) < 128 {
        let rest = crate::text::skip_exec(v.as_slice(), 2);
        trim_start_char_exec(rest.as_slice(), '\\')
    } else {
        Vec::new()
    }
}

/// Checks and builds the copy of a release to `target` over its
/// administrative share (`\\host\D$`).
pub fn smb_copy(target: &ServerConfig, group: &BackendGroup, release_name: &str) -> (r: Result<SmbCopy, String>)
    ensures
        match r {
            Ok(plan) => {
                let staging_release = spec_win_join(group.staging_dir@, release_name@);
                let drive = crate::text::replace_char(group.staging_dir@, '/', '\\')[0];
                let share_root = "\\\\"@ + target.host@ + seq!['\\', drive, '$'];
                let remote = share_root + seq!['\\'] + path_after_drive(staging_release);
                &&& smb_error(*target, *group, release_name@) is None
                &&& plan.staging_release@ == staging_release
                &&& plan.share_root@ == share_root
                &&& plan.remote_share_path@ == remote
                &&& target.auth matches AuthConfig::Password { password } && plan.script@ == spec_smb_copy_script(
                    spec_ps_single_quote(share_root),
                    spec_ps_single_quote(password@),
                    spec_ps_single_quote(staging_release),
                    spec_ps_single_quote(remote),
                    spec_ps_single_quote(target.username@),
                    host_user(*target),
                )
            },
            Err(e) => smb_error(*target, *group, release_name@) == Some(e@),
        },
{
    let password = match &target.auth {
        AuthConfig::Password { password } => password,
        _ => {
            let mut m = crate::text::owned("服务器 ");
            m.append(target.name.as_str());
            m.append(" 使用密钥认证，无法走 SMB 复制，请把该组复制方式改为 upload");
            return Err(m);
        },
    };
    let staging_release = win_join(group.staging_dir.as_str(), release_name);
    let dir_v = crate::text::chars_of(group.staging_dir.as_str());
    let dir = crate::text::replace_char_exec(dir_v.as_slice(), '/', '\\');
    if dir.len() == 0 {
        return Err(crate::text::owned("暂存目录配置为空"));
    }
    let drive = dir[0];
    if !(('a' <= drive && drive <= 'z') || ('A' <= drive && drive <= 'Z')) {
        let mut m = crate::text::owned("暂存目录必须是带盘符的 Windows 路径（如 D:\\code\\sites\\devlop），当前: ");
        m.append(group.staging_dir.as_str());
        return Err(m);
    }
    let after = path_after_drive_exec(staging_release.as_str());
    if after.len() == 0 {
        let mut m = crate::text::owned("暂存目录无效，无法拼出管理共享路径: ");
        m.append(group.staging_dir.as_str());
        return Err(m);
    }
    let mut share_root = crate::text::owned("\\\\");
    share_root.append(target.host.as_str());
    crate::text::push_char(&mut share_root, '\\');
    crate::text::push_char(&mut share_root, drive);
    crate::text::push_char(&mut share_root, '$');
    let mut remote = crate::text::owned(share_root.as_str());
    crate::text::push_char(&mut remote, '\\');
    let after_s = crate::text::string_of(after.as_slice());
    remote.append(after_s.as_str());
    assert(share_root@ =~= "\\\\"@ + target.host@ + seq!['\\', drive, '$']);
    let user = ps_single_quote(target.username.as_str());
    proof {
        reveal_strlit("\\");
        assert("\\"@ =~= seq!['\\']);
    }
    let host_user_s = if crate::text::str_contains(target.username.as_str(), "\\") {
        proof {
            reveal_strlit("\\");
        }
        ps_single_quote(target.username.as_str())
    } else {
        proof {
            reveal_strlit("\\");
        }
        let mut hu = crate::text::owned(target.host.as_str());
        crate::text::push_char(&mut hu, '\\');
        hu.append(target.username.as_str());
        assert(hu@ =~= target.host@ + seq!['\\'] + target.username@);
        ps_single_quote(hu.as_str())
    };
    let q_root = ps_single_quote(share_root.as_str());
    let q_password = ps_single_quote(password.as_str());
    let q_release = ps_single_quote(staging_release.as_str());
    let q_remote = ps_single_quote(remote.as_str());
    let script = smb_copy_script(q_root.as_str(), q_password.as_str(), q_release.as_str(), q_remote.as_str(), user.as_str(), host_user_s.as_str());
    assert(remote@ =~= share_root@ + seq!['\\'] + path_after_drive(staging_release@));
    Ok(SmbCopy { staging_release, share_root, remote_share_path: remote, script })
}

} // verus!
