//! Rules of the MCP service: which methods and tools exist, which tools a
//! permission level offers, and how a tool call is checked and turned into
//! the task it starts.

use vstd::prelude::*;
use crate::backend::{find_group, group_index, BackendDeployRequest};
use crate::config::{
    AppConfig, BackendGroup, BackendProject, DockerTarget, FrontendTarget, McpPermission, OsType, ServerConfig,
};
use crate::deploy::DeployMode;
use crate::frontend::FrontendDeployOptions;
use crate::text::{clone_strings, owned, str_eq, strings_contain, views};

verus! {

// ---------------------------------------------------------------------
// JSON-RPC methods
// ---------------------------------------------------------------------

/// A JSON-RPC error answer.
pub struct RpcError {
    pub code: i64,
    pub message: String,
}

impl RpcError {
    pub fn new(code: i64, message: String) -> (r: RpcError)
        ensures
            r.code == code,
            r.message == message,
    {
        RpcError { code, message }
    }
}

/// The JSON-RPC methods served.
#[derive(Clone, Copy, Debug, PartialEq, Eq, Structural)]
pub enum McpMethod {
    Initialize,
    Ping,
    ToolsList,
    ToolsCall,
}

pub open spec fn spec_route_method(method: Seq<char>) -> Option<McpMethod> {
    if method == "initialize"@ {
        Some(McpMethod::Initialize)
    } else if method == "ping"@ {
        Some(McpMethod::Ping)
    } else if method == "tools/list"@ {
        Some(McpMethod::ToolsList)
    } else if method == "tools/call"@ {
        Some(McpMethod::ToolsCall)
    } else {
        None
    }
}

/// The method a request names; any other is answered with error -32601.
pub fn route_method(method: &str) -> (r: Result<McpMethod, RpcError>)
    ensures
        match r {
            Ok(m) => spec_route_method(method@) == Some(m),
            Err(e) => spec_route_method(method@) is None && e.code == -32601 && e.message@ == "不支持的方法: "@ + method@,
        },
{
    if str_eq(method, "initialize") {
        Ok(McpMethod::Initialize)
    } else if str_eq(method, "ping") {
        Ok(McpMethod::Ping)
    } else if str_eq(method, "tools/list") {
        Ok(McpMethod::ToolsList)
    } else if str_eq(method, "tools/call") {
        Ok(McpMethod::ToolsCall)
    } else {
        let mut msg = owned("不支持的方法: ");
        msg.append(method);
        Err(RpcError::new(-32601, msg))
    }
}

/// The protocol version answered to `initialize`: the client's, or
/// "2025-03-26" when it names none.
pub fn protocol_version(requested: Option<&str>) -> (r: String)
    ensures
        match requested {
            Some(v) => r@ == v@,
            None => r@ == "2025-03-26"@,
        },
{
    match requested {
        Some(v) => owned(v),
        None => owned("2025-03-26"),
    }
}

// ---------------------------------------------------------------------
// Tools and permissions
// ---------------------------------------------------------------------

/// The tools of the service.
#[derive(Clone, Copy, Debug, PartialEq, Eq, Structural)]
pub enum McpTool {
    ListConfig,
    ListReleases,
    ListFrontendReleases,
    GetTaskStatus,
    ListTunnels,
    BackendDeploy,
    FrontendDeploy,
    Rollback,
    FrontendRollback,
    DockerDeploy,
    TunnelControl,
}

pub open spec fn spec_tool_name(t: McpTool) -> Seq<char> {
    match t {
        McpTool::ListConfig => "list_config"@,
        McpTool::ListReleases => "list_releases"@,
        McpTool::ListFrontendReleases => "list_frontend_releases"@,
        McpTool::GetTaskStatus => "get_task_status"@,
        McpTool::ListTunnels => "list_tunnels"@,
        McpTool::BackendDeploy => "backend_deploy"@,
        McpTool::FrontendDeploy => "frontend_deploy"@,
        McpTool::Rollback => "rollback"@,
        McpTool::FrontendRollback => "frontend_rollback"@,
        McpTool::DockerDeploy => "docker_deploy"@,
        McpTool::TunnelControl => "tunnel_control"@,
    }
}

pub open spec fn spec_parse_tool(name: Seq<char>) -> Option<McpTool> {
    if name == "list_config"@ {
        Some(McpTool::ListConfig)
    } else if name == "list_releases"@ {
        Some(McpTool::ListReleases)
    } else if name == "list_frontend_releases"@ {
        Some(McpTool::ListFrontendReleases)
    } else if name == "get_task_status"@ {
        Some(McpTool::GetTaskStatus)
    } else if name == "list_tunnels"@ {
        Some(McpTool::ListTunnels)
    } else if name == "backend_deploy"@ {
        Some(McpTool::BackendDeploy)
    } else if name == "frontend_deploy"@ {
        Some(McpTool::FrontendDeploy)
    } else if name == "rollback"@ {
        Some(McpTool::Rollback)
    } else if name == "frontend_rollback"@ {
        Some(McpTool::FrontendRollback)
    } else if name == "docker_deploy"@ {
        Some(McpTool::DockerDeploy)
    } else if name == "tunnel_control"@ {
        Some(McpTool::TunnelControl)
    } else {
        None
    }
}

impl McpTool {
    /// The name clients call the tool by.
    pub fn name(&self) -> (r: &'static str)
        ensures
            r@ == spec_tool_name(*self),
    {
        match self {
            McpTool::ListConfig => "list_config",
            McpTool::ListReleases => "list_releases",
            McpTool::ListFrontendReleases => "list_frontend_releases",
            McpTool::GetTaskStatus => "get_task_status",
            McpTool::ListTunnels => "list_tunnels",
            McpTool::BackendDeploy => "backend_deploy",
            McpTool::FrontendDeploy => "frontend_deploy",
            McpTool::Rollback => "rollback",
            McpTool::FrontendRollback => "frontend_rollback",
            McpTool::DockerDeploy => "docker_deploy",
            McpTool::TunnelControl => "tunnel_control",
        }
    }

    /// The tool a name calls, if any.
    pub fn parse(name: &str) -> (r: Option<McpTool>)
        ensures
            r == spec_parse_tool(name@),
    {
        if str_eq(name, "list_config") {
            Some(McpTool::ListConfig)
        } else if str_eq(name, "list_releases") {
            Some(McpTool::ListReleases)
        } else if str_eq(name, "list_frontend_releases") {
            Some(McpTool::ListFrontendReleases)
        } else if str_eq(name, "get_task_status") {
            Some(McpTool::GetTaskStatus)
        } else if str_eq(name, "list_tunnels") {
            Some(McpTool::ListTunnels)
        } else if str_eq(name, "backend_deploy") {
            Some(McpTool::BackendDeploy)
        } else if str_eq(name, "frontend_deploy") {
            Some(McpTool::FrontendDeploy)
        } else if str_eq(name, "rollback") {
            Some(McpTool::Rollback)
        } else if str_eq(name, "frontend_rollback") {
            Some(McpTool::FrontendRollback)
        } else if str_eq(name, "docker_deploy") {
            Some(McpTool::DockerDeploy)
        } else if str_eq(name, "tunnel_control") {
            Some(McpTool::TunnelControl)
        } else {
            None
        }
    }
}

/// The tools offered at a permission level, in the order they are listed:
/// the configuration, backend releases, task status and tunnels always; the
/// front-end release history and the two deployments unless read-only;
/// rollback, front-end rollback, Docker and tunnel control only with full
/// access.
pub open spec fn listed_tools(p: McpPermission) -> Seq<McpTool> {
    let queries = if p != McpPermission::Readonly {
        seq![
            McpTool::ListConfig,
            McpTool::ListReleases,
            McpTool::ListFrontendReleases,
            McpTool::GetTaskStatus,
            McpTool::ListTunnels,
        ]
    } else {
        seq![McpTool::ListConfig, McpTool::ListReleases, McpTool::GetTaskStatus, McpTool::ListTunnels]
    };
    let deploys = if p != McpPermission::Readonly {
        seq![McpTool::BackendDeploy, McpTool::FrontendDeploy]
    } else {
        Seq::empty()
    };
    let full = if p == McpPermission::Full {
        seq![McpTool::Rollback, McpTool::FrontendRollback, McpTool::DockerDeploy, McpTool::TunnelControl]
    } else {
        Seq::empty()
    };
    queries + deploys + full
}

/// The answer to a call that the permission level forbids.
pub open spec fn refusal(t: McpTool, p: McpPermission) -> Option<Seq<char>> {
    match t {
        McpTool::ListFrontendReleases => if p == McpPermission::Readonly {
            Some("当前 MCP 权限为只读，不允许查看前端发布历史"@)
        } else {
            None
        },
        McpTool::BackendDeploy | McpTool::FrontendDeploy => if p == McpPermission::Readonly {
            Some("当前 MCP 权限为只读，不允许发起部署"@)
        } else {
            None
        },
        McpTool::Rollback | McpTool::FrontendRollback => if p != McpPermission::Full {
            Some("回滚需要 MCP「完全访问」权限"@)
        } else {
            None
        },
        McpTool::DockerDeploy => if p != McpPermission::Full {
            Some("Docker 部署需要 MCP「完全访问」权限"@)
        } else {
            None
        },
        McpTool::TunnelControl => if p != McpPermission::Full {
            Some("隧道控制需要 MCP「完全访问」权限"@)
        } else {
            None
        },
        _ => None,
    }
}

/// Hint on deployment modes for the permission level.
pub open spec fn spec_mode_hint(p: McpPermission) -> Seq<char> {
    if p == McpPermission::Stage {
        "当前权限为「仅中转」，mode 只能是 stage（上传到中转目录，不影响线上）。"@
    } else {
        "mode 可选 full(上传并立即替换)/stage(仅上传中转)/replace(用已中转内容替换线上)。"@
    }
}

pub open spec fn spec_tool_description(t: McpTool, p: McpPermission) -> Seq<char> {
    match t {
        McpTool::ListConfig => "查看可部署目标：后端负载组及项目、前端部署目标、Docker 目标、隧道（不含任何密码凭据）。发起部署前先调用它获取 id。"@,
        McpTool::ListReleases => "查看最近的后端发布历史，包含待替换(staged)、成功(success)、已回滚(rolled_back)、回滚完成(rollback)、失败(failed)状态。"@,
        McpTool::ListFrontendReleases => "查看最近的前端发布历史。status 为 success 且带 backupSuffix 的记录可回滚。"@,
        McpTool::GetTaskStatus => "查询部署任务状态与日志。waitSeconds>0 时会阻塞等待任务结束或超时（最长 300 秒），建议部署后用 waitSeconds=60 轮询。"@,
        McpTool::ListTunnels => "查看所有隧道配置与当前运行状态。"@,
        McpTool::BackendDeploy => "后端部署：把本地发布产物部署到 Windows 负载组。"@ + spec_mode_hint(p),
        McpTool::FrontendDeploy => "前端部署：把本地构建产物打包上传到 nginx 服务器后解压。"@ + spec_mode_hint(p),
        McpTool::Rollback => "回滚一次后端发布：停止 IIS 后恢复替换前备份的 bin 并做健康检查。releaseId 从 list_releases 获取（仅 success 状态可回滚）。"@,
        McpTool::FrontendRollback => "回滚一次前端发布：把线上静态目录恢复为该次发布前的快照。releaseId 从 list_frontend_releases 获取（仅 success 且带 backupSuffix 可回滚）。"@,
        McpTool::DockerDeploy => "在 Linux 服务器上按顺序执行 Docker 目标配置的命令（如 compose pull/up）。"@,
        McpTool::TunnelControl => "启动或停止一条隧道。"@,
    }
}

pub open spec fn spec_tool_schema(t: McpTool) -> Seq<char> {
    match t {
        McpTool::GetTaskStatus => "{\"type\":\"object\",\"properties\":{\"taskId\":{\"type\":\"string\",\"description\":\"部署工具返回的任务 ID\"},\"waitSeconds\":{\"type\":\"integer\",\"description\":\"等待秒数，0 表示立即返回\",\"default\":0}},\"required\":[\"taskId\"]}"@,
        McpTool::BackendDeploy => "{\"type\":\"object\",\"properties\":{\"groupId\":{\"type\":\"string\",\"description\":\"负载组 id（list_config 获取）\"},\"projectIds\":{\"type\":\"array\",\"items\":{\"type\":\"string\"},\"description\":\"项目 id 列表，缺省为组内全部项目\"},\"releaseName\":{\"type\":\"string\",\"description\":\"发布名称，格式 yyyyMMdd-功能名，如 20260812-优惠券功能；replace 模式填已中转的发布名\"},\"mode\":{\"type\":\"string\",\"enum\":[\"full\",\"stage\",\"replace\"],\"default\":\"stage\"},\"backupSibling\":{\"type\":\"boolean\",\"description\":\"替换前把应用目录备份为 目录名-日期\",\"default\":true}},\"required\":[\"groupId\",\"releaseName\"]}"@,
        McpTool::FrontendDeploy => "{\"type\":\"object\",\"properties\":{\"targetIds\":{\"type\":\"array\",\"items\":{\"type\":\"string\"},\"description\":\"前端目标 id 列表（list_config 获取）\"},\"mode\":{\"type\":\"string\",\"enum\":[\"full\",\"stage\",\"replace\"],\"default\":\"stage\"},\"backupSibling\":{\"type\":\"boolean\",\"description\":\"替换前备份线上目录，供回滚\",\"default\":true}},\"required\":[\"targetIds\"]}"@,
        McpTool::Rollback | McpTool::FrontendRollback => "{\"type\":\"object\",\"properties\":{\"releaseId\":{\"type\":\"string\"}},\"required\":[\"releaseId\"]}"@,
        McpTool::DockerDeploy => "{\"type\":\"object\",\"properties\":{\"targetId\":{\"type\":\"string\"}},\"required\":[\"targetId\"]}"@,
        McpTool::TunnelControl => "{\"type\":\"object\",\"properties\":{\"tunnelId\":{\"type\":\"string\"},\"action\":{\"type\":\"string\",\"enum\":[\"start\",\"stop\"]}},\"required\":[\"tunnelId\",\"action\"]}"@,
        _ => "{\"type\":\"object\",\"properties\":{}}"@,
    }
}

/// A tool as it is listed: its name, description and input schema (JSON text).
pub struct ToolDef {
    pub tool: McpTool,
    pub description: String,
    pub input_schema: &'static str,
}

fn mode_hint(p: McpPermission) -> (r: &'static str)
    ensures
        r@ == spec_mode_hint(p),
{
    if p == McpPermission::Stage {
        "当前权限为「仅中转」，mode 只能是 stage（上传到中转目录，不影响线上）。"
    } else {
        "mode 可选 full(上传并立即替换)/stage(仅上传中转)/replace(用已中转内容替换线上)。"
    }
}

fn tool_def(t: McpTool, p: McpPermission) -> (r: ToolDef)
    ensures
        r.tool == t,
        r.description@ == spec_tool_description(t, p),
        r.input_schema@ == spec_tool_schema(t),
{
    let (description, input_schema) = match t {
        McpTool::ListConfig => (owned("查看可部署目标：后端负载组及项目、前端部署目标、Docker 目标、隧道（不含任何密码凭据）。发起部署前先调用它获取 id。"), "{\"type\":\"object\",\"properties\":{}}"),
        McpTool::ListReleases => (owned("查看最近的后端发布历史，包含待替换(staged)、成功(success)、已回滚(rolled_back)、回滚完成(rollback)、失败(failed)状态。"), "{\"type\":\"object\",\"properties\":{}}"),
        McpTool::ListFrontendReleases => (owned("查看最近的前端发布历史。status 为 success 且带 backupSuffix 的记录可回滚。"), "{\"type\":\"object\",\"properties\":{}}"),
        McpTool::GetTaskStatus => (owned("查询部署任务状态与日志。waitSeconds>0 时会阻塞等待任务结束或超时（最长 300 秒），建议部署后用 waitSeconds=60 轮询。"), "{\"type\":\"object\",\"properties\":{\"taskId\":{\"type\":\"string\",\"description\":\"部署工具返回的任务 ID\"},\"waitSeconds\":{\"type\":\"integer\",\"description\":\"等待秒数，0 表示立即返回\",\"default\":0}},\"required\":[\"taskId\"]}"),
        McpTool::ListTunnels => (owned("查看所有隧道配置与当前运行状态。"), "{\"type\":\"object\",\"properties\":{}}"),
        McpTool::BackendDeploy => {
            let mut d = owned("后端部署：把本地发布产物部署到 Windows 负载组。");
            d.append(mode_hint(p));
            (d, "{\"type\":\"object\",\"properties\":{\"groupId\":{\"type\":\"string\",\"description\":\"负载组 id（list_config 获取）\"},\"projectIds\":{\"type\":\"array\",\"items\":{\"type\":\"string\"},\"description\":\"项目 id 列表，缺省为组内全部项目\"},\"releaseName\":{\"type\":\"string\",\"description\":\"发布名称，格式 yyyyMMdd-功能名，如 20260812-优惠券功能；replace 模式填已中转的发布名\"},\"mode\":{\"type\":\"string\",\"enum\":[\"full\",\"stage\",\"replace\"],\"default\":\"stage\"},\"backupSibling\":{\"type\":\"boolean\",\"description\":\"替换前把应用目录备份为 目录名-日期\",\"default\":true}},\"required\":[\"groupId\",\"releaseName\"]}")
        },
        McpTool::FrontendDeploy => {
            let mut d = owned("前端部署：把本地构建产物打包上传到 nginx 服务器后解压。");
            d.append(mode_hint(p));
            (d, "{\"type\":\"object\",\"properties\":{\"targetIds\":{\"type\":\"array\",\"items\":{\"type\":\"string\"},\"description\":\"前端目标 id 列表（list_config 获取）\"},\"mode\":{\"type\":\"string\",\"enum\":[\"full\",\"stage\",\"replace\"],\"default\":\"stage\"},\"backupSibling\":{\"type\":\"boolean\",\"description\":\"替换前备份线上目录，供回滚\",\"default\":true}},\"required\":[\"targetIds\"]}")
        },
        McpTool::Rollback => (owned("回滚一次后端发布：停止 IIS 后恢复替换前备份的 bin 并做健康检查。releaseId 从 list_releases 获取（仅 success 状态可回滚）。"), "{\"type\":\"object\",\"properties\":{\"releaseId\":{\"type\":\"string\"}},\"required\":[\"releaseId\"]}"),
        McpTool::FrontendRollback => (owned("回滚一次前端发布：把线上静态目录恢复为该次发布前的快照。releaseId 从 list_frontend_releases 获取（仅 success 且带 backupSuffix 可回滚）。"), "{\"type\":\"object\",\"properties\":{\"releaseId\":{\"type\":\"string\"}},\"required\":[\"releaseId\"]}"),
        McpTool::DockerDeploy => (owned("在 Linux 服务器上按顺序执行 Docker 目标配置的命令（如 compose pull/up）。"), "{\"type\":\"object\",\"properties\":{\"targetId\":{\"type\":\"string\"}},\"required\":[\"targetId\"]}"),
        McpTool::TunnelControl => (owned("启动或停止一条隧道。"), "{\"type\":\"object\",\"properties\":{\"tunnelId\":{\"type\":\"string\"},\"action\":{\"type\":\"string\",\"enum\":[\"start\",\"stop\"]}},\"required\":[\"tunnelId\",\"action\"]}"),
    };
    ToolDef { tool: t, description, input_schema }
}

pub open spec fn def_tools(defs: Seq<ToolDef>) -> Seq<McpTool> {
    defs.map_values(|d: ToolDef| d.tool)
}

/// The tool list for a permission level.
pub fn tool_definitions(p: McpPermission) -> (r: Vec<ToolDef>)
    ensures
        def_tools(r@) == listed_tools(p),
        forall|k: int| 0 <= k < r@.len() ==> (#[trigger] r@[k]).description@ == spec_tool_description(r@[k].tool, p)
            && r@[k].input_schema@ == spec_tool_schema(r@[k].tool),
{
    let mut tools: Vec<McpTool> = Vec::new();
    tools.push(McpTool::ListConfig);
    tools.push(McpTool::ListReleases);
    if p != McpPermission::Readonly {
        tools.push(McpTool::ListFrontendReleases);
    }
    tools.push(McpTool::GetTaskStatus);
    tools.push(McpTool::ListTunnels);
    if p != McpPermission::Readonly {
        tools.push(McpTool::BackendDeploy);
        tools.push(McpTool::FrontendDeploy);
    }
    if p == McpPermission::Full {
        tools.push(McpTool::Rollback);
        tools.push(McpTool::FrontendRollback);
        tools.push(McpTool::DockerDeploy);
        tools.push(McpTool::TunnelControl);
    }
    assert(tools@ =~= listed_tools(p));
    let mut defs: Vec<ToolDef> = Vec::new();
    let mut i: usize = 0;
    while i < tools.len()
        invariant
            i <= tools@.len(),
            def_tools(defs@) == tools@.take(i as int),
            forall|k: int| 0 <= k < defs@.len() ==> (#[trigger] defs@[k]).description@ == spec_tool_description(defs@[k].tool, p)
                && defs@[k].input_schema@ == spec_tool_schema(defs@[k].tool),
        decreases tools.len() - i,
    {
        let ghost before = defs@;
        let d = tool_def(tools[i], p);
        defs.push(d);
        assert(def_tools(defs@) =~= def_tools(before).push(tools@[i as int]));
        assert(tools@.take(i + 1) =~= tools@.take(i as int).push(tools@[i as int]));
        i = i + 1;
    }
    assert(tools@.take(tools@.len() as int) =~= tools@);
    defs
}

/// A tool is offered exactly when the permission level does not refuse it.
pub proof fn lemma_listed_iff_permitted(t: McpTool, p: McpPermission)
    ensures
        listed_tools(p).contains(t) <==> refusal(t, p) is None,
{
    let l = listed_tools(p);
    if refusal(t, p) is None {
        let shift: int = if p == McpPermission::Readonly { 1 } else { 0 };
        let k: int = match t {
            McpTool::ListConfig => 0,
            McpTool::ListReleases => 1,
            McpTool::ListFrontendReleases => 2,
            McpTool::GetTaskStatus => 3 - shift,
            McpTool::ListTunnels => 4 - shift,
            McpTool::BackendDeploy => 5,
            McpTool::FrontendDeploy => 6,
            McpTool::Rollback => 7,
            McpTool::FrontendRollback => 8,
            McpTool::DockerDeploy => 9,
            McpTool::TunnelControl => 10,
        };
        assert(l[k] == t);
    } else {
        assert forall|k: int| 0 <= k < l.len() implies l[k] != t by {}
    }
}

/// More permission never offers fewer tools: what read-only offers, stage
/// offers, and what stage offers, full access offers.
pub proof fn lemma_tools_grow_with_permission(t: McpTool)
    ensures
        listed_tools(McpPermission::Readonly).contains(t) ==> listed_tools(McpPermission::Stage).contains(t),
        listed_tools(McpPermission::Stage).contains(t) ==> listed_tools(McpPermission::Full).contains(t),
{
    lemma_listed_iff_permitted(t, McpPermission::Readonly);
    lemma_listed_iff_permitted(t, McpPermission::Stage);
    lemma_listed_iff_permitted(t, McpPermission::Full);
}

// ---------------------------------------------------------------------
// Tool calls
// ---------------------------------------------------------------------

/// The `mode` argument of a deployment call: absent, one of
/// full/stage/replace, or something else.
#[derive(Clone, Copy, Debug, PartialEq, Eq, Structural)]
pub enum ModeArg {
    Absent,
    Given(DeployMode),
    Invalid,
}

/// The arguments of a tool call, as read from its JSON object: a string
/// argument that is missing or not a string is `None`; a list keeps its
/// string items.
pub struct ToolArgs {
    pub task_id: Option<String>,
    pub wait_seconds: Option<u64>,
    pub group_id: Option<String>,
    pub release_name: Option<String>,
    pub project_ids: Vec<String>,
    pub target_ids: Vec<String>,
    pub mode: ModeArg,
    pub backup_sibling: Option<bool>,
    pub release_id: Option<String>,
    pub target_id: Option<String>,
    pub tunnel_id: Option<String>,
    pub action: Option<String>,
}

/// What an accepted tool call does.
pub enum ToolAction {
    ListConfig,
    ListReleases,
    ListFrontendReleases,
    /// Report a task, waiting up to `wait_seconds` for it to end.
    TaskStatus { task_id: String, wait_seconds: u64 },
    ListTunnels,
    BackendDeploy(BackendDeployRequest),
    FrontendDeploy { target_ids: Vec<String>, options: FrontendDeployOptions },
    Rollback { release_id: String },
    FrontendRollback { release_id: String },
    DockerDeploy { target_id: String },
    TunnelStart { tunnel_id: String },
    TunnelStop { tunnel_id: String },
}

/// Whether an allow-list admits an id (no list: every id).
pub open spec fn spec_is_allowed(allowlist: Option<Vec<String>>, id: Seq<char>) -> bool {
    match allowlist {
        None => true,
        Some(ids) => views(ids@).contains(id),
    }
}

/// Whether a target is in an allow-list (`None`: all are).
pub fn is_allowed(allowlist: &Option<Vec<String>>, id: &str) -> (r: bool)
    ensures
        r == spec_is_allowed(*allowlist, id@),
{
    match allowlist {
        None => true,
        Some(ids) => strings_contain(ids, id),
    }
}

/// The first id an allow-list refuses.
pub open spec fn first_disallowed(allowlist: Option<Vec<String>>, ids: Seq<Seq<char>>) -> Option<Seq<char>>
    decreases ids.len(),
{
    if ids.len() == 0 {
        None
    } else if !spec_is_allowed(allowlist, ids[0]) {
        Some(ids[0])
    } else {
        first_disallowed(allowlist, ids.drop_first())
    }
}

/// The mode a deployment call asks for; stage when it names none.
pub open spec fn requested_mode(mode: ModeArg) -> DeployMode {
    match mode {
        ModeArg::Given(m) => m,
        _ => DeployMode::Stage,
    }
}

/// The mode argument is invalid, or asks for more than the stage-only
/// permission allows.
pub open spec fn mode_error(mode: ModeArg, p: McpPermission) -> Option<Seq<char>> {
    if mode == ModeArg::Invalid {
        Some("mode 参数无效，可选 full/stage/replace"@)
    } else if p == McpPermission::Stage && requested_mode(mode) != DeployMode::Stage {
        Some("当前 MCP 权限为「仅中转」，mode 只能是 stage；替换线上请在软件界面操作或调整权限"@)
    } else {
        None
    }
}

/// Why a tool call is refused, checked in this order: unknown tool,
/// permission level, then the tool's own arguments.
pub open spec fn tool_call_error(name: Seq<char>, config: AppConfig, args: ToolArgs) -> Option<Seq<char>> {
    let p = config.mcp.permission;
    match spec_parse_tool(name) {
        None => Some("未知工具: "@ + name),
        Some(t) => match refusal(t, p) {
            Some(m) => Some(m),
            None => match t {
                McpTool::GetTaskStatus => if args.task_id is None {
                    Some("缺少参数 taskId"@)
                } else {
                    None
                },
                McpTool::BackendDeploy => match args.group_id {
                    None => Some("缺少参数 groupId"@),
                    Some(g) => if args.release_name is None {
                        Some("缺少参数 releaseName"@)
                    } else if !spec_is_allowed(config.mcp.allowed_backend_group_ids, g@) {
                        Some("负载组 "@ + g@ + " 不在 MCP 允许访问的范围内"@)
                    } else if group_index(config.backend_groups@, g@) is None {
                        Some("找不到负载组: "@ + g@)
                    } else {
                        mode_error(args.mode, p)
                    },
                },
                McpTool::FrontendDeploy => if args.target_ids@.len() == 0 {
                    Some("缺少参数 targetIds"@)
                } else {
                    match first_disallowed(config.mcp.allowed_frontend_target_ids, views(args.target_ids@)) {
                        Some(id) => Some("前端目标 "@ + id + " 不在 MCP 允许访问的范围内"@),
                        None => mode_error(args.mode, p),
                    }
                },
                McpTool::Rollback | McpTool::FrontendRollback => if args.release_id is None {
                    Some("缺少参数 releaseId"@)
                } else {
                    None
                },
                McpTool::DockerDeploy => match args.target_id {
                    None => Some("缺少参数 targetId"@),
                    Some(id) => if !spec_is_allowed(config.mcp.allowed_docker_target_ids, id@) {
                        Some("Docker 目标 "@ + id@ + " 不在 MCP 允许访问的范围内"@)
                    } else {
                        None
                    },
                },
                McpTool::TunnelControl => if args.tunnel_id is None {
                    Some("缺少参数 tunnelId"@)
                } else {
                    match args.action {
                        None => Some("缺少参数 action"@),
                        Some(a) => if a@ == "start"@ || a@ == "stop"@ {
                            None
                        } else {
                            Some("action 只能是 start 或 stop"@)
                        },
                    }
                },
                _ => None,
            },
        },
    }
}

pub open spec fn project_ids_of(projects: Seq<BackendProject>) -> Seq<Seq<char>> {
    projects.map_values(|p: BackendProject| p.id@)
}

pub open spec fn opt_string_is(o: Option<String>, s: Seq<char>) -> bool {
    match o {
        Some(x) => x@ == s,
        None => false,
    }
}

pub open spec fn min_u64(a: u64, b: u64) -> u64 {
    if a <= b { a } else { b }
}

/// The task an accepted call starts, with the defaults filled in: up to 300
/// seconds of waiting (none by default); every project of the group when
/// none is named; stage mode and a backup by default.
pub open spec fn action_fits(action: ToolAction, name: Seq<char>, config: AppConfig, args: ToolArgs) -> bool {
    match spec_parse_tool(name) {
        None => false,
        Some(t) => match action {
            ToolAction::ListConfig => t == McpTool::ListConfig,
            ToolAction::ListReleases => t == McpTool::ListReleases,
            ToolAction::ListFrontendReleases => t == McpTool::ListFrontendReleases,
            ToolAction::ListTunnels => t == McpTool::ListTunnels,
            ToolAction::TaskStatus { task_id, wait_seconds } => {
                &&& t == McpTool::GetTaskStatus
                &&& opt_string_is(args.task_id, task_id@)
                &&& wait_seconds == min_u64(match args.wait_seconds { Some(w) => w, None => 0 }, 300)
            },
            ToolAction::BackendDeploy(request) => {
                &&& t == McpTool::BackendDeploy
                &&& opt_string_is(args.group_id, request.group_id@)
                &&& opt_string_is(args.release_name, request.release_name@)
                &&& views(request.project_ids@) == if args.project_ids@.len() == 0 {
                    project_ids_of(config.backend_groups@[group_index(config.backend_groups@, request.group_id@)->0].projects@)
                } else {
                    views(args.project_ids@)
                }
                &&& request.copy_mode is None
                &&& request.mode == requested_mode(args.mode)
                &&& request.backup_sibling == match args.backup_sibling { Some(b) => b, None => true }
            },
            ToolAction::FrontendDeploy { target_ids, options } => {
                &&& t == McpTool::FrontendDeploy
                &&& views(target_ids@) == views(args.target_ids@)
                &&& options.mode == requested_mode(args.mode)
                &&& options.backup_sibling == match args.backup_sibling { Some(b) => b, None => true }
            },
            ToolAction::Rollback { release_id } => t == McpTool::Rollback && opt_string_is(args.release_id, release_id@),
            ToolAction::FrontendRollback { release_id } => t == McpTool::FrontendRollback && opt_string_is(args.release_id, release_id@),
            ToolAction::DockerDeploy { target_id } => t == McpTool::DockerDeploy && opt_string_is(args.target_id, target_id@),
            ToolAction::TunnelStart { tunnel_id } => {
                &&& t == McpTool::TunnelControl
                &&& opt_string_is(args.tunnel_id, tunnel_id@)
                &&& opt_string_is(args.action, "start"@)
            },
            ToolAction::TunnelStop { tunnel_id } => {
                &&& t == McpTool::TunnelControl
                &&& opt_string_is(args.tunnel_id, tunnel_id@)
                &&& opt_string_is(args.action, "stop"@)
            },
        },
    }
}

fn copy_opt(o: &Option<String>) -> (r: Option<String>)
    ensures
        match (r, *o) {
            (Some(a), Some(b)) => a@ == b@,
            (None, None) => true,
            _ => false,
        },
{
    match o {
        Some(x) => Some(owned(x.as_str())),
        None => None,
    }
}

fn check_mode(mode: ModeArg, p: McpPermission) -> (r: Result<DeployMode, String>)
    ensures
        match r {
            Ok(m) => mode_error(mode, p) is None && m == requested_mode(mode),
            Err(e) => mode_error(mode, p) == Some(e@),
        },
{
    let m = match mode {
        ModeArg::Invalid => return Err(owned("mode 参数无效，可选 full/stage/replace")),
        ModeArg::Given(m) => m,
        ModeArg::Absent => DeployMode::Stage,
    };
    if p == McpPermission::Stage && m != DeployMode::Stage {
        return Err(owned("当前 MCP 权限为「仅中转」，mode 只能是 stage；替换线上请在软件界面操作或调整权限"));
    }
    Ok(m)
}

fn check_targets(allowlist: &Option<Vec<String>>, ids: &Vec<String>) -> (r: Option<String>)
    ensures
        match (r, first_disallowed(*allowlist, views(ids@))) {
            (Some(a), Some(b)) => a@ == b,
            (None, None) => true,
            _ => false,
        },
{
    let ghost all = views(ids@);
    let mut i: usize = 0;
    assert(all.skip(0) =~= all);
    while i < ids.len()
        invariant
            i <= ids@.len(),
            all == views(ids@),
            first_disallowed(*allowlist, all) == first_disallowed(*allowlist, all.skip(i as int)),
        decreases ids.len() - i,
    {
        let ghost rest = all.skip(i as int);
        assert(rest[0] == ids@[i as int]@);
        if !is_allowed(allowlist, ids[i].as_str()) {
            return Some(owned(ids[i].as_str()));
        }
        assert(rest.drop_first() =~= all.skip(i + 1));
        i = i + 1;
    }
    None
}

fn group_project_ids(projects: &Vec<BackendProject>) -> (r: Vec<String>)
    ensures
        views(r@) == project_ids_of(projects@),
{
    let mut out: Vec<String> = Vec::new();
    let mut i: usize = 0;
    while i < projects.len()
        invariant
            i <= projects@.len(),
            views(out@) == project_ids_of(projects@.take(i as int)),
        decreases projects.len() - i,
    {
        let ghost before = out@;
        let id = projects[i].id.clone();
        out.push(id);
        assert(views(out@) =~= views(before).push(projects@[i as int].id@));
        assert(project_ids_of(projects@.take(i + 1)) =~= project_ids_of(projects@.take(i as int)).push(projects@[i as int].id@));
        i = i + 1;
    }
    assert(projects@.take(projects@.len() as int) =~= projects@);
    out
}

/// Checks a tool call against the permission level, the allow-lists and
/// the configuration, and decides the task it starts.
pub fn plan_tool_call(name: &str, config: &AppConfig, args: &ToolArgs) -> (r: Result<ToolAction, String>)
    ensures
        match r {
            Ok(action) => tool_call_error(name@, *config, *args) is None && action_fits(action, name@, *config, *args),
            Err(e) => tool_call_error(name@, *config, *args) == Some(e@),
        },
{
    let p = config.mcp.permission;
    let tool = match McpTool::parse(name) {
        Some(t) => t,
        None => {
            let mut msg = owned("未知工具: ");
            msg.append(name);
            return Err(msg);
        },
    };
    match tool {
        McpTool::ListFrontendReleases => {
            if p == McpPermission::Readonly {
                return Err(owned("当前 MCP 权限为只读，不允许查看前端发布历史"));
            }
        },
        McpTool::BackendDeploy | McpTool::FrontendDeploy => {
            if p == McpPermission::Readonly {
                return Err(owned("当前 MCP 权限为只读，不允许发起部署"));
            }
        },
        McpTool::Rollback | McpTool::FrontendRollback => {
            if p != McpPermission::Full {
                return Err(owned("回滚需要 MCP「完全访问」权限"));
            }
        },
        McpTool::DockerDeploy => {
            if p != McpPermission::Full {
                return Err(owned("Docker 部署需要 MCP「完全访问」权限"));
            }
        },
        McpTool::TunnelControl => {
            if p != McpPermission::Full {
                return Err(owned("隧道控制需要 MCP「完全访问」权限"));
            }
        },
        _ => {},
    }
    match tool {
        McpTool::ListConfig => Ok(ToolAction::ListConfig),
        McpTool::ListReleases => Ok(ToolAction::ListReleases),
        McpTool::ListFrontendReleases => Ok(ToolAction::ListFrontendReleases),
        McpTool::ListTunnels => Ok(ToolAction::ListTunnels),
        McpTool::GetTaskStatus => {
            let task_id = match &args.task_id {
                Some(x) => owned(x.as_str()),
                None => return Err(owned("缺少参数 taskId")),
            };
            let requested = match args.wait_seconds {
                Some(w) => w,
                None => 0,
            };
            let wait_seconds = if requested <= 300 { requested } else { 300 };
            Ok(ToolAction::TaskStatus { task_id, wait_seconds })
        },
        McpTool::BackendDeploy => {
            let group_id = match &args.group_id {
                Some(g) => owned(g.as_str()),
                None => return Err(owned("缺少参数 groupId")),
            };
            let release_name = match &args.release_name {
                Some(x) => owned(x.as_str()),
                None => return Err(owned("缺少参数 releaseName")),
            };
            if !is_allowed(&config.mcp.allowed_backend_group_ids, group_id.as_str()) {
                let mut msg = owned("负载组 ");
                msg.append(group_id.as_str());
                msg.append(" 不在 MCP 允许访问的范围内");
                return Err(msg);
            }
            let g = match find_group(&config.backend_groups, group_id.as_str()) {
                Some(g) => g,
                None => {
                    let mut msg = owned("找不到负载组: ");
                    msg.append(group_id.as_str());
                    return Err(msg);
                },
            };
            let mode = match check_mode(args.mode, p) {
                Ok(m) => m,
                Err(e) => return Err(e),
            };
            let project_ids = if args.project_ids.len() == 0 {
                group_project_ids(&config.backend_groups[g].projects)
            } else {
                clone_strings(&args.project_ids)
            };
            let backup_sibling = match args.backup_sibling {
                Some(b) => b,
                None => true,
            };
            Ok(ToolAction::BackendDeploy(BackendDeployRequest {
                group_id,
                project_ids,
                release_name,
                copy_mode: None,
                mode,
                backup_sibling,
            }))
        },
        McpTool::FrontendDeploy => {
            if args.target_ids.len() == 0 {
                return Err(owned("缺少参数 targetIds"));
            }
            match check_targets(&config.mcp.allowed_frontend_target_ids, &args.target_ids) {
                Some(id) => {
                    let mut msg = owned("前端目标 ");
                    msg.append(id.as_str());
                    msg.append(" 不在 MCP 允许访问的范围内");
                    return Err(msg);
                },
                None => {},
            }
            let mode = match check_mode(args.mode, p) {
                Ok(m) => m,
                Err(e) => return Err(e),
            };
            let backup_sibling = match args.backup_sibling {
                Some(b) => b,
                None => true,
            };
            Ok(ToolAction::FrontendDeploy {
                target_ids: clone_strings(&args.target_ids),
                options: FrontendDeployOptions { mode, backup_sibling },
            })
        },
        McpTool::Rollback => match &args.release_id {
            Some(x) => Ok(ToolAction::Rollback { release_id: owned(x.as_str()) }),
            None => Err(owned("缺少参数 releaseId")),
        },
        McpTool::FrontendRollback => match &args.release_id {
            Some(x) => Ok(ToolAction::FrontendRollback { release_id: owned(x.as_str()) }),
            None => Err(owned("缺少参数 releaseId")),
        },
        McpTool::DockerDeploy => {
            let target_id = match &args.target_id {
                Some(x) => owned(x.as_str()),
                None => return Err(owned("缺少参数 targetId")),
            };
            if !is_allowed(&config.mcp.allowed_docker_target_ids, target_id.as_str()) {
                let mut msg = owned("Docker 目标 ");
                msg.append(target_id.as_str());
                msg.append(" 不在 MCP 允许访问的范围内");
                return Err(msg);
            }
            Ok(ToolAction::DockerDeploy { target_id })
        },
        McpTool::TunnelControl => {
            let tunnel_id = match &args.tunnel_id {
                Some(x) => owned(x.as_str()),
                None => return Err(owned("缺少参数 tunnelId")),
            };
            let action = match &args.action {
                Some(a) => a,
                None => return Err(owned("缺少参数 action")),
            };
            if str_eq(action.as_str(), "start") {
                Ok(ToolAction::TunnelStart { tunnel_id })
            } else if str_eq(action.as_str(), "stop") {
                Ok(ToolAction::TunnelStop { tunnel_id })
            } else {
                Err(owned("action 只能是 start 或 stop"))
            }
        },
    }
}

/// Whether an action changes anything on a server.
pub open spec fn changes_servers(a: ToolAction) -> bool {
    match a {
        ToolAction::BackendDeploy(_) | ToolAction::FrontendDeploy { .. } | ToolAction::Rollback { .. }
        | ToolAction::FrontendRollback { .. } | ToolAction::DockerDeploy { .. } | ToolAction::TunnelStart { .. }
        | ToolAction::TunnelStop { .. } => true,
        _ => false,
    }
}

/// A read-only client can only query the configuration, the backend
/// releases, a task's status and the tunnels: no accepted call changes a
/// server.
pub proof fn lemma_readonly_only_queries(name: Seq<char>, config: AppConfig, args: ToolArgs, action: ToolAction)
    requires
        config.mcp.permission == McpPermission::Readonly,
        tool_call_error(name, config, args) is None,
        action_fits(action, name, config, args),
    ensures
        !changes_servers(action),
        action is ListConfig || action is ListReleases || action is TaskStatus || action is ListTunnels,
{
}

/// A stage-only client can only upload to staging: its accepted calls are
/// queries or deployments in stage mode.
pub proof fn lemma_stage_permission_only_stages(name: Seq<char>, config: AppConfig, args: ToolArgs, action: ToolAction)
    requires
        config.mcp.permission == McpPermission::Stage,
        tool_call_error(name, config, args) is None,
        action_fits(action, name, config, args),
    ensures
        match action {
            ToolAction::BackendDeploy(request) => request.mode == DeployMode::Stage,
            ToolAction::FrontendDeploy { options, .. } => options.mode == DeployMode::Stage,
            _ => !changes_servers(action),
        },
{
}

// ---------------------------------------------------------------------
// Service lifetime and configuration summary
// ---------------------------------------------------------------------

/// What to do with the MCP service after the settings changed.
#[derive(Clone, Copy, Debug, PartialEq, Eq, Structural)]
pub enum McpApply {
    /// Already serving on the configured port.
    Keep,
    /// Stop the running service (disabled).
    Stop,
    /// Start on the configured port (stopping a service on another port first).
    Start,
    /// Nothing runs and nothing should.
    Idle,
}

/// A port change restarts the service; permission changes need no restart.
pub fn mcp_apply(running_port: Option<u16>, enabled: bool, port: u16) -> (r: McpApply)
    ensures
        enabled && running_port == Some(port) ==> r == McpApply::Keep,
        enabled && running_port != Some(port) ==> r == McpApply::Start,
        !enabled && running_port is Some ==> r == McpApply::Stop,
        !enabled && running_port is None ==> r == McpApply::Idle,
{
    if enabled {
        match running_port {
            Some(p) => if p == port { McpApply::Keep } else { McpApply::Start },
            None => McpApply::Start,
        }
    } else {
        match running_port {
            Some(_) => McpApply::Stop,
            None => McpApply::Idle,
        }
    }
}

/// Positions of the ids an allow-list admits, in order.
pub open spec fn admitted(allowlist: Option<Vec<String>>, ids: Seq<Seq<char>>) -> Seq<int>
    decreases ids.len(),
{
    if ids.len() == 0 {
        Seq::empty()
    } else {
        let rest = admitted(allowlist, ids.drop_last());
        if spec_is_allowed(allowlist, ids.last()) {
            rest.push(ids.len() - 1)
        } else {
            rest
        }
    }
}

/// Positions of the ids an allow-list admits.
pub fn admitted_indices(allowlist: &Option<Vec<String>>, ids: &Vec<String>) -> (r: Vec<usize>)
    ensures
        crate::backend::as_ints(r@) == admitted(*allowlist, views(ids@)),
{
    let mut out: Vec<usize> = Vec::new();
    let mut i: usize = 0;
    while i < ids.len()
        invariant
            i <= ids@.len(),
            crate::backend::as_ints(out@) == admitted(*allowlist, views(ids@).take(i as int)),
        decreases ids.len() - i,
    {
        let ghost before = out@;
        assert(views(ids@).take(i + 1).drop_last() =~= views(ids@).take(i as int));
        if is_allowed(allowlist, ids[i].as_str()) {
            out.push(i);
            assert(crate::backend::as_ints(out@) =~= crate::backend::as_ints(before).push(i as int));
        }
        i = i + 1;
    }
    assert(views(ids@).take(ids@.len() as int) =~= views(ids@));
    out
}

pub open spec fn group_ids(groups: Seq<crate::config::BackendGroup>) -> Seq<Seq<char>> {
    groups.map_values(|g: crate::config::BackendGroup| g.id@)
}

pub open spec fn frontend_ids(targets: Seq<crate::config::FrontendTarget>) -> Seq<Seq<char>> {
    targets.map_values(|t: crate::config::FrontendTarget| t.id@)
}

pub open spec fn docker_ids(targets: Seq<crate::config::DockerTarget>) -> Seq<Seq<char>> {
    targets.map_values(|t: crate::config::DockerTarget| t.id@)
}

/// What the configuration summary shows to MCP clients: the backend
/// groups, front-end targets and Docker targets their allow-lists admit
/// (servers are all shown, without credentials).
pub struct SummarySelection {
    pub backend_groups: Vec<usize>,
    pub frontend_targets: Vec<usize>,
    pub docker_targets: Vec<usize>,
}

pub fn summary_selection(config: &AppConfig) -> (r: SummarySelection)
    ensures
        crate::backend::as_ints(r.backend_groups@) == admitted(config.mcp.allowed_backend_group_ids, group_ids(config.backend_groups@)),
        crate::backend::as_ints(r.frontend_targets@) == admitted(config.mcp.allowed_frontend_target_ids, frontend_ids(config.frontend_targets@)),
        crate::backend::as_ints(r.docker_targets@) == admitted(config.mcp.allowed_docker_target_ids, docker_ids(config.docker_targets@)),
{
    let mut g: Vec<String> = Vec::new();
    let mut i: usize = 0;
    while i < config.backend_groups.len()
        invariant
            i <= config.backend_groups@.len(),
            views(g@) == group_ids(config.backend_groups@).take(i as int),
        decreases config.backend_groups.len() - i,
    {
        let ghost before = g@;
        g.push(config.backend_groups[i].id.clone());
        assert(views(g@) =~= views(before).push(config.backend_groups@[i as int].id@));
        assert(group_ids(config.backend_groups@).take(i + 1) =~= group_ids(config.backend_groups@).take(i as int).push(config.backend_groups@[i as int].id@));
        i = i + 1;
    }
    assert(group_ids(config.backend_groups@).take(config.backend_groups@.len() as int) =~= group_ids(config.backend_groups@));
    let mut f: Vec<String> = Vec::new();
    let mut j: usize = 0;
    while j < config.frontend_targets.len()
        invariant
            j <= config.frontend_targets@.len(),
            views(f@) == frontend_ids(config.frontend_targets@).take(j as int),
        decreases config.frontend_targets.len() - j,
    {
        let ghost before = f@;
        f.push(config.frontend_targets[j].id.clone());
        assert(views(f@) =~= views(before).push(config.frontend_targets@[j as int].id@));
        assert(frontend_ids(config.frontend_targets@).take(j + 1) =~= frontend_ids(config.frontend_targets@).take(j as int).push(config.frontend_targets@[j as int].id@));
        j = j + 1;
    }
    assert(frontend_ids(config.frontend_targets@).take(config.frontend_targets@.len() as int) =~= frontend_ids(config.frontend_targets@));
    let mut d: Vec<String> = Vec::new();
    let mut k: usize = 0;
    while k < config.docker_targets.len()
        invariant
            k <= config.docker_targets@.len(),
            views(d@) == docker_ids(config.docker_targets@).take(k as int),
        decreases config.docker_targets.len() - k,
    {
        let ghost before = d@;
        d.push(config.docker_targets[k].id.clone());
        assert(views(d@) =~= views(before).push(config.docker_targets@[k as int].id@));
        assert(docker_ids(config.docker_targets@).take(k + 1) =~= docker_ids(config.docker_targets@).take(k as int).push(config.docker_targets@[k as int].id@));
        k = k + 1;
    }
    assert(docker_ids(config.docker_targets@).take(config.docker_targets@.len() as int) =~= docker_ids(config.docker_targets@));
    SummarySelection {
        backend_groups: admitted_indices(&config.mcp.allowed_backend_group_ids, &g),
        frontend_targets: admitted_indices(&config.mcp.allowed_frontend_target_ids, &f),
        docker_targets: admitted_indices(&config.mcp.allowed_docker_target_ids, &d),
    }
}

// ---------------------------------------------------------------------
// Configuration summary
// ---------------------------------------------------------------------

pub open spec fn same_opt(a: Option<String>, b: Option<String>) -> bool {
    match (a, b) {
        (Some(x), Some(y)) => x@ == y@,
        (None, None) => true,
        _ => false,
    }
}

/// A server as the summary shows it; credentials have no place here.
pub struct ServerSummary {
    pub server_id: String,
    pub name: String,
    pub os: OsType,
    pub host: String,
    pub group: Option<String>,
}

pub struct ProjectSummary {
    pub project_id: String,
    pub name: String,
    pub local_bin_dir: String,
    pub remote_app_dir: String,
    pub newer_than: Option<String>,
}

pub struct GroupSummary {
    pub group_id: String,
    pub name: String,
    pub server_ids: Vec<String>,
    pub staging_dir: String,
    pub projects: Vec<ProjectSummary>,
}

pub struct FrontendSummary {
    pub target_id: String,
    pub name: String,
    pub local_dir: String,
    pub remote_dir: String,
    pub server_ids: Vec<String>,
}

pub struct DockerSummary {
    pub target_id: String,
    pub name: String,
    pub server_id: String,
    pub work_dir: String,
    pub commands: Vec<String>,
}

/// What MCP clients see of the configuration: the permission level, every
/// server without its credentials, and the groups and targets the
/// allow-lists admit.
pub struct ConfigSummary {
    pub permission: McpPermission,
    pub servers: Vec<ServerSummary>,
    pub backend_groups: Vec<GroupSummary>,
    pub frontend_targets: Vec<FrontendSummary>,
    pub docker_targets: Vec<DockerSummary>,
}

pub open spec fn server_summary_of(s: ServerSummary, c: ServerConfig) -> bool {
    &&& s.server_id@ == c.id@
    &&& s.name@ == c.name@
    &&& s.os == c.os
    &&& s.host@ == c.host@
    &&& same_opt(s.group, c.group)
}

pub open spec fn project_summary_of(s: ProjectSummary, p: BackendProject) -> bool {
    &&& s.project_id@ == p.id@
    &&& s.name@ == p.name@
    &&& s.local_bin_dir@ == p.local_bin_dir@
    &&& s.remote_app_dir@ == p.remote_app_dir@
    &&& same_opt(s.newer_than, p.newer_than)
}

pub open spec fn group_summary_of(s: GroupSummary, g: BackendGroup) -> bool {
    &&& s.group_id@ == g.id@
    &&& s.name@ == g.name@
    &&& views(s.server_ids@) == g.spec_effective_server_ids()
    &&& s.staging_dir@ == g.staging_dir@
    &&& s.projects@.len() == g.projects@.len()
    &&& forall|k: int| 0 <= k < s.projects@.len() ==> project_summary_of(#[trigger] s.projects@[k], g.projects@[k])
}

pub open spec fn frontend_summary_of(s: FrontendSummary, t: FrontendTarget) -> bool {
    &&& s.target_id@ == t.id@
    &&& s.name@ == t.name@
    &&& s.local_dir@ == t.local_dir@
    &&& s.remote_dir@ == t.remote_dir@
    &&& s.server_ids@ == t.server_ids@
}

pub open spec fn docker_summary_of(s: DockerSummary, t: DockerTarget) -> bool {
    &&& s.target_id@ == t.id@
    &&& s.name@ == t.name@
    &&& s.server_id@ == t.server_id@
    &&& s.work_dir@ == t.work_dir@
    &&& s.commands@ == t.commands@
}

fn server_summary(c: &ServerConfig) -> (r: ServerSummary)
    ensures
        server_summary_of(r, *c),
{
    ServerSummary { server_id: owned(c.id.as_str()), name: owned(c.name.as_str()), os: c.os, host: owned(c.host.as_str()), group: copy_opt(&c.group) }
}

fn group_summary(g: &BackendGroup) -> (r: GroupSummary)
    ensures
        group_summary_of(r, *g),
{
    let mut projects: Vec<ProjectSummary> = Vec::new();
    let mut i: usize = 0;
    while i < g.projects.len()
        invariant
            i <= g.projects@.len(),
            projects@.len() == i,
            forall|k: int| 0 <= k < i ==> project_summary_of(#[trigger] projects@[k], g.projects@[k]),
        decreases g.projects.len() - i,
    {
        let p = &g.projects[i];
        projects.push(ProjectSummary {
            project_id: owned(p.id.as_str()),
            name: owned(p.name.as_str()),
            local_bin_dir: owned(p.local_bin_dir.as_str()),
            remote_app_dir: owned(p.remote_app_dir.as_str()),
            newer_than: copy_opt(&p.newer_than),
        });
        i = i + 1;
    }
    GroupSummary {
        group_id: owned(g.id.as_str()),
        name: owned(g.name.as_str()),
        server_ids: g.effective_server_ids(),
        staging_dir: owned(g.staging_dir.as_str()),
        projects,
    }
}

/// The configuration summary offered to MCP clients.
pub fn config_summary(config: &AppConfig) -> (r: ConfigSummary)
    ensures
        r.permission == config.mcp.permission,
        r.servers@.len() == config.servers@.len(),
        forall|k: int| 0 <= k < r.servers@.len() ==> server_summary_of(#[trigger] r.servers@[k], config.servers@[k]),
        ({
            let sel = admitted(config.mcp.allowed_backend_group_ids, group_ids(config.backend_groups@));
            &&& r.backend_groups@.len() == sel.len()
            &&& forall|k: int| 0 <= k < sel.len() ==> group_summary_of(#[trigger] r.backend_groups@[k], config.backend_groups@[sel[k]])
        }),
        ({
            let sel = admitted(config.mcp.allowed_frontend_target_ids, frontend_ids(config.frontend_targets@));
            &&& r.frontend_targets@.len() == sel.len()
            &&& forall|k: int| 0 <= k < sel.len() ==> frontend_summary_of(#[trigger] r.frontend_targets@[k], config.frontend_targets@[sel[k]])
        }),
        ({
            let sel = admitted(config.mcp.allowed_docker_target_ids, docker_ids(config.docker_targets@));
            &&& r.docker_targets@.len() == sel.len()
            &&& forall|k: int| 0 <= k < sel.len() ==> docker_summary_of(#[trigger] r.docker_targets@[k], config.docker_targets@[sel[k]])
        }),
{
    let selection = summary_selection(config);
    let mut servers: Vec<ServerSummary> = Vec::new();
    let mut i: usize = 0;
    while i < config.servers.len()
        invariant
            i <= config.servers@.len(),
            servers@.len() == i,
            forall|k: int| 0 <= k < i ==> server_summary_of(#[trigger] servers@[k], config.servers@[k]),
        decreases config.servers.len() - i,
    {
        servers.push(server_summary(&config.servers[i]));
        i = i + 1;
    }
    let ghost gsel = admitted(config.mcp.allowed_backend_group_ids, group_ids(config.backend_groups@));
    proof {
        lemma_admitted_in_range(config.mcp.allowed_backend_group_ids, group_ids(config.backend_groups@));
    }
    let mut groups: Vec<GroupSummary> = Vec::new();
    let mut j: usize = 0;
    while j < selection.backend_groups.len()
        invariant
            j <= selection.backend_groups@.len(),
            crate::backend::as_ints(selection.backend_groups@) == gsel,
            forall|k: int| 0 <= k < gsel.len() ==> 0 <= #[trigger] gsel[k] < config.backend_groups@.len(),
            groups@.len() == j,
            forall|k: int| 0 <= k < j ==> group_summary_of(#[trigger] groups@[k], config.backend_groups@[gsel[k]]),
        decreases selection.backend_groups.len() - j,
    {
        let g = selection.backend_groups[j];
        assert(gsel[j as int] == g as int);
        groups.push(group_summary(&config.backend_groups[g]));
        j = j + 1;
    }
    let ghost fsel = admitted(config.mcp.allowed_frontend_target_ids, frontend_ids(config.frontend_targets@));
    proof {
        lemma_admitted_in_range(config.mcp.allowed_frontend_target_ids, frontend_ids(config.frontend_targets@));
    }
    let mut fronts: Vec<FrontendSummary> = Vec::new();
    let mut m: usize = 0;
    while m < selection.frontend_targets.len()
        invariant
            m <= selection.frontend_targets@.len(),
            crate::backend::as_ints(selection.frontend_targets@) == fsel,
            forall|k: int| 0 <= k < fsel.len() ==> 0 <= #[trigger] fsel[k] < config.frontend_targets@.len(),
            fronts@.len() == m,
            forall|k: int| 0 <= k < m ==> frontend_summary_of(#[trigger] fronts@[k], config.frontend_targets@[fsel[k]]),
        decreases selection.frontend_targets.len() - m,
    {
        let f = selection.frontend_targets[m];
        assert(fsel[m as int] == f as int);
        let t = &config.frontend_targets[f];
        fronts.push(FrontendSummary {
            target_id: owned(t.id.as_str()),
            name: owned(t.name.as_str()),
            local_dir: owned(t.local_dir.as_str()),
            remote_dir: owned(t.remote_dir.as_str()),
            server_ids: clone_strings(&t.server_ids),
        });
        m = m + 1;
    }
    let ghost dsel = admitted(config.mcp.allowed_docker_target_ids, docker_ids(config.docker_targets@));
    proof {
        lemma_admitted_in_range(config.mcp.allowed_docker_target_ids, docker_ids(config.docker_targets@));
    }
    let mut dockers: Vec<DockerSummary> = Vec::new();
    let mut n: usize = 0;
    while n < selection.docker_targets.len()
        invariant
            n <= selection.docker_targets@.len(),
            crate::backend::as_ints(selection.docker_targets@) == dsel,
            forall|k: int| 0 <= k < dsel.len() ==> 0 <= #[trigger] dsel[k] < config.docker_targets@.len(),
            dockers@.len() == n,
            forall|k: int| 0 <= k < n ==> docker_summary_of(#[trigger] dockers@[k], config.docker_targets@[dsel[k]]),
        decreases selection.docker_targets.len() - n,
    {
        let d = selection.docker_targets[n];
        assert(dsel[n as int] == d as int);
        let t = &config.docker_targets[d];
        dockers.push(DockerSummary {
            target_id: owned(t.id.as_str()),
            name: owned(t.name.as_str()),
            server_id: owned(t.server_id.as_str()),
            work_dir: owned(t.work_dir.as_str()),
            commands: clone_strings(&t.commands),
        });
        n = n + 1;
    }
    ConfigSummary {
        permission: config.mcp.permission,
        servers,
        backend_groups: groups,
        frontend_targets: fronts,
        docker_targets: dockers,
    }
}

/// Every admitted position is a position of the list.
proof fn lemma_admitted_in_range(allowlist: Option<Vec<String>>, ids: Seq<Seq<char>>)
    ensures
        forall|k: int| 0 <= k < admitted(allowlist, ids).len() ==> 0 <= #[trigger] admitted(allowlist, ids)[k] < ids.len(),
    decreases ids.len(),
{
    if ids.len() > 0 {
        let rest = admitted(allowlist, ids.drop_last());
        lemma_admitted_in_range(allowlist, ids.drop_last());
        assert forall|k: int| 0 <= k < admitted(allowlist, ids).len() implies 0 <= #[trigger] admitted(allowlist, ids)[k] < ids.len() by {
            if k < rest.len() {
                assert(admitted(allowlist, ids)[k] == rest[k]);
            }
        }
    }
}

// ---------------------------------------------------------------------
// Waiting on a task
// ---------------------------------------------------------------------

/// `get_task_status` answers once the task has left the running state, or
/// when the wait the caller allowed is over; until then it polls again.
pub fn task_wait_over(state: &str, past_deadline: bool) -> (r: bool)
    ensures
        r == (state@ != "running"@ || past_deadline),
{
    !str_eq(state, "running") || past_deadline
}

} // verus!
