//! Configuration model: servers, tunnels, deployment targets, MCP access and
//! logging, together with the lookups and host checks done on it.

use vstd::prelude::*;
use crate::text::{
    occurs_at, is_ws, trim_start, trim_end, chars_of, clone_strings, contains, contains_exec, owned, str_contains, str_eq, str_trim,
    string_of, to_lowercase, trim, unicode_lowercase, views,
};

verus! {

/// Operating system of a server.
#[derive(Debug, Clone, Copy, PartialEq, Eq, Structural)]
pub enum OsType {
    Linux,
    Windows,
}

/// SSH authentication method.
#[derive(Debug, Clone)]
pub enum AuthConfig {
    /// Password authentication.
    Password { password: String },
    /// Private-key authentication.
    Key { key_path: String, passphrase: Option<String> },
}

/// A server reachable over SSH, possibly through a jump server.
#[derive(Debug, Clone)]
pub struct ServerConfig {
    pub id: String,
    pub name: String,
    pub os: OsType,
    pub host: String,
    pub port: u16,
    pub username: String,
    pub auth: AuthConfig,
    /// The jump server used to reach this one (`None`: direct connection).
    pub jump_server_id: Option<String>,
    pub group: Option<String>,
    /// System detected over SSH (windows / ubuntu / centos / linux).
    pub detected_os: Option<String>,
    pub rdp_preset: Option<String>,
    pub sftp_remote_shortcuts: Vec<String>,
    pub sftp_local_shortcuts: Vec<String>,
}

/// Local port forwarded through a server to a remote address.
#[derive(Debug, Clone)]
pub struct TunnelConfig {
    pub id: String,
    pub name: String,
    pub via_server_id: String,
    pub local_port: u16,
    pub remote_host: String,
    pub remote_port: u16,
    pub auto_start: bool,
    pub group: Option<String>,
}

/// A backend project (an IIS site or application directory).
#[derive(Debug, Clone)]
pub struct BackendProject {
    pub id: String,
    pub name: String,
    pub local_bin_dir: String,
    pub remote_app_dir: String,
    pub health_check_url: Option<String>,
    pub health_check_retries: u32,
    pub health_check_delay_secs: u32,
    pub stop_script: String,
    pub start_script: String,
    pub stop_iis_before_replace: bool,
    pub ignore_rules: String,
    pub whitelist_rules: String,
    pub newer_than: Option<String>,
}

/// How a release directory reaches the other servers of a group.
#[derive(Debug, Clone, Copy, PartialEq, Eq, Structural)]
pub enum CopyMode {
    /// The first server copies over the internal SMB admin share.
    Smb,
    /// Every server receives its own upload.
    Upload,
}

/// A group of equivalent Windows servers deployed one after another.
#[derive(Debug, Clone)]
pub struct BackendGroup {
    pub id: String,
    pub name: String,
    /// Servers of the group; the first one receives the upload.
    pub server_ids: Vec<String>,
    /// Older configurations: primary server.
    pub primary_server_id: Option<String>,
    /// Older configurations: secondary server.
    pub secondary_server_id: Option<String>,
    pub staging_dir: String,
    pub backup_dir: String,
    pub copy_mode: CopyMode,
    pub projects: Vec<BackendProject>,
}

/// A static front-end deployed from a local directory to server directories.
#[derive(Debug, Clone)]
pub struct FrontendTarget {
    pub id: String,
    pub name: String,
    pub server_ids: Vec<String>,
    pub local_dir: String,
    pub remote_dir: String,
    /// Custom staging directory (default `<remote_dir>-staging`).
    pub staging_dir: Option<String>,
    pub delete_extraneous: bool,
    pub group: Option<String>,
    pub pack_command: Option<String>,
    pub pack_work_dir: Option<String>,
}

/// Commands run in order in a directory of a Linux server.
#[derive(Debug, Clone)]
pub struct DockerTarget {
    pub id: String,
    pub name: String,
    pub server_id: String,
    pub work_dir: String,
    pub commands: Vec<String>,
    pub group: Option<String>,
}

/// Access level granted to MCP clients.
#[derive(Debug, Clone, Copy, PartialEq, Eq, Structural)]
pub enum McpPermission {
    /// Queries only.
    Readonly,
    /// Uploads to staging directories, never touches live directories.
    Stage,
    /// Everything, including replacement, rollback, Docker and tunnels.
    Full,
}

/// MCP service settings.
#[derive(Debug, Clone)]
pub struct McpConfig {
    pub enabled: bool,
    pub port: u16,
    pub permission: McpPermission,
    /// Backend groups open to MCP (`None`: all).
    pub allowed_backend_group_ids: Option<Vec<String>>,
    /// Front-end targets open to MCP (`None`: all).
    pub allowed_frontend_target_ids: Option<Vec<String>>,
    /// Docker targets open to MCP (`None`: all).
    pub allowed_docker_target_ids: Option<Vec<String>>,
}

/// Diagnostic log settings (off by default).
#[derive(Debug, Clone)]
pub struct LoggingConfig {
    pub enabled: bool,
    pub level: String,
}

/// A saved terminal command.
#[derive(Debug, Clone)]
pub struct QuickCommand {
    pub id: String,
    pub name: String,
    pub command: String,
    pub group: Option<String>,
}

/// The whole application configuration.
#[derive(Debug, Clone)]
pub struct AppConfig {
    pub servers: Vec<ServerConfig>,
    pub tunnels: Vec<TunnelConfig>,
    pub backend_groups: Vec<BackendGroup>,
    pub frontend_targets: Vec<FrontendTarget>,
    pub docker_targets: Vec<DockerTarget>,
    pub mcp: McpConfig,
    pub quick_commands: Vec<QuickCommand>,
    pub logging: LoggingConfig,
    pub sftp_shortcuts: Vec<String>,
    pub sftp_local_shortcuts: Vec<String>,
}

// ---------------------------------------------------------------------
// Defaults of optional fields
// ---------------------------------------------------------------------

pub fn default_health_retries() -> (r: u32)
    ensures
        r == 10,
{
    10
}

pub fn default_health_delay() -> (r: u32)
    ensures
        r == 3,
{
    3
}

pub fn default_true() -> (r: bool)
    ensures
        r,
{
    true
}

pub fn default_copy_mode() -> (r: CopyMode)
    ensures
        r == CopyMode::Upload,
{
    CopyMode::Upload
}

pub fn default_mcp_port() -> (r: u16)
    ensures
        r == 17423,
{
    17423
}

pub fn default_mcp_permission() -> (r: McpPermission)
    ensures
        r == McpPermission::Stage,
{
    McpPermission::Stage
}

pub fn default_log_level() -> (r: String)
    ensures
        r@ == "info"@,
{
    owned("info")
}

pub open spec fn spec_default_sftp_shortcuts() -> Seq<Seq<char>> {
    seq!["/usr/share/nginx/html"@, "/etc/nginx"@, "/var/log"@]
}

pub fn default_sftp_shortcuts() -> (r: Vec<String>)
    ensures
        views(r@) == spec_default_sftp_shortcuts(),
{
    let mut v: Vec<String> = Vec::new();
    v.push(owned("/usr/share/nginx/html"));
    v.push(owned("/etc/nginx"));
    v.push(owned("/var/log"));
    assert(views(v@) =~= spec_default_sftp_shortcuts());
    v
}

impl McpConfig {
    /// The default MCP settings: disabled, port 17423, stage permission, no allow-lists.
    pub open spec fn is_default(self) -> bool {
        &&& !self.enabled
        &&& self.port == 17423
        &&& self.permission == McpPermission::Stage
        &&& self.allowed_backend_group_ids is None
        &&& self.allowed_frontend_target_ids is None
        &&& self.allowed_docker_target_ids is None
    }
}

impl Default for McpConfig {
    fn default() -> (r: Self)
        ensures
            r.is_default(),
    {
        McpConfig {
            enabled: false,
            port: default_mcp_port(),
            permission: default_mcp_permission(),
            allowed_backend_group_ids: None,
            allowed_frontend_target_ids: None,
            allowed_docker_target_ids: None,
        }
    }
}

impl LoggingConfig {
    pub open spec fn is_default(self) -> bool {
        !self.enabled && self.level@ == "info"@
    }
}

impl Default for LoggingConfig {
    fn default() -> (r: Self)
        ensures
            r.is_default(),
    {
        LoggingConfig { enabled: false, level: default_log_level() }
    }
}

impl AppConfig {
    pub open spec fn is_empty_default(self) -> bool {
        &&& self.servers@.len() == 0
        &&& self.tunnels@.len() == 0
        &&& self.backend_groups@.len() == 0
        &&& self.frontend_targets@.len() == 0
        &&& self.docker_targets@.len() == 0
        &&& self.mcp.is_default()
        &&& self.quick_commands@.len() == 0
        &&& self.logging.is_default()
        &&& self.sftp_shortcuts@.len() == 0
        &&& self.sftp_local_shortcuts@.len() == 0
    }
}

impl Default for AppConfig {
    fn default() -> (r: Self)
        ensures
            r.is_empty_default(),
    {
        AppConfig {
            servers: Vec::new(),
            tunnels: Vec::new(),
            backend_groups: Vec::new(),
            frontend_targets: Vec::new(),
            docker_targets: Vec::new(),
            mcp: McpConfig::default(),
            quick_commands: Vec::new(),
            logging: LoggingConfig::default(),
            sftp_shortcuts: Vec::new(),
            sftp_local_shortcuts: Vec::new(),
        }
    }
}

// ---------------------------------------------------------------------
// Group servers and server lookup
// ---------------------------------------------------------------------

/// A one-element list for a present, non-empty id; empty otherwise.
pub open spec fn nonempty_id(id: Option<String>) -> Seq<Seq<char>> {
    match id {
        Some(s) => if s@.len() > 0 { seq![s@] } else { Seq::empty() },
        None => Seq::empty(),
    }
}

impl BackendGroup {
    /// The servers of a group: `server_ids` when it is non-empty, otherwise
    /// the non-empty ones of the primary and secondary fields, in that order.
    pub open spec fn spec_effective_server_ids(self) -> Seq<Seq<char>> {
        if self.server_ids@.len() > 0 {
            views(self.server_ids@)
        } else {
            nonempty_id(self.primary_server_id) + nonempty_id(self.secondary_server_id)
        }
    }

    pub fn effective_server_ids(&self) -> (r: Vec<String>)
        ensures
            views(r@) == self.spec_effective_server_ids(),
    {
        if self.server_ids.len() > 0 {
            return clone_strings(&self.server_ids);
        }
        let mut ids: Vec<String> = Vec::new();
        if let Some(primary) = &self.primary_server_id {
            if !primary.as_str().is_empty() {
                ids.push(primary.clone());
            }
        }
        if let Some(secondary) = &self.secondary_server_id {
            if !secondary.as_str().is_empty() {
                ids.push(secondary.clone());
            }
        }
        assert(views(ids@) =~= self.spec_effective_server_ids());
        ids
    }
}

/// The first server with the given id.
pub open spec fn find_in(servers: Seq<ServerConfig>, id: Seq<char>) -> Option<ServerConfig>
    decreases servers.len(),
{
    if servers.len() == 0 {
        None
    } else if servers[0].id@ == id {
        Some(servers[0])
    } else {
        find_in(servers.drop_first(), id)
    }
}

/// Message for a missing server.
pub open spec fn server_not_found_msg(id: Seq<char>) -> Seq<char> {
    "找不到服务器配置: "@ + id
}

proof fn lemma_find_in_none(servers: Seq<ServerConfig>, id: Seq<char>)
    ensures
        find_in(servers, id) is None <==> forall|j: int|
            0 <= j < servers.len() ==> servers[j].id@ != id,
    decreases servers.len(),
{
    if servers.len() > 0 {
        lemma_find_in_none(servers.drop_first(), id);
        assert forall|j: int| 1 <= j < servers.len() implies servers[j] == servers.drop_first()[j
            - 1] by {}
        if find_in(servers, id) is None {
            assert forall|j: int| 0 <= j < servers.len() implies servers[j].id@ != id by {
                if j > 0 {
                    assert(servers[j] == servers.drop_first()[j - 1]);
                }
            }
        }
    }
}

impl AppConfig {
    /// The first server whose id is `server_id`.
    pub fn find_server(&self, server_id: &str) -> (r: Result<&ServerConfig, String>)
        ensures
            match r {
                Ok(s) => find_in(self.servers@, server_id@) == Some(*s),
                Err(e) => find_in(self.servers@, server_id@) is None && e@
                    == server_not_found_msg(server_id@),
            },
    {
        let mut i: usize = 0;
        assert(self.servers@.skip(0) =~= self.servers@);
        while i < self.servers.len()
            invariant
                i <= self.servers@.len(),
                find_in(self.servers@, server_id@) == find_in(
                    self.servers@.skip(i as int),
                    server_id@,
                ),
            decreases self.servers.len() - i,
        {
            let ghost rest = self.servers@.skip(i as int);
            assert(rest[0] == self.servers@[i as int]);
            if str_eq(self.servers[i].id.as_str(), server_id) {
                return Ok(&self.servers[i]);
            }
            assert(rest.drop_first() =~= self.servers@.skip(i + 1));
            i = i + 1;
        }
        let mut msg = owned("找不到服务器配置: ");
        msg.append(server_id);
        Err(msg)
    }
}

// ---------------------------------------------------------------------
// Host checks
// ---------------------------------------------------------------------

/// A host is a template placeholder: blank after trimming, holding "改成",
/// or whose lowercase form holds one of the placeholder keywords.
pub open spec fn spec_is_placeholder_host(host: Seq<char>) -> bool {
    let t = trim(host);
    let lower = unicode_lowercase(t);
    ||| t.len() == 0
    ||| contains(t, "改成"@)
    ||| contains(lower, "placeholder"@)
    ||| contains(lower, "changeme"@)
    ||| contains(lower, "example.com"@)
    ||| contains(lower, "example.org"@)
    ||| contains(lower, "your-ip"@)
    ||| contains(lower, "your_ip"@)
    ||| contains(lower, "todo"@)
    ||| contains(lower, "xxx"@)
}

/// Whether a host address is still a template placeholder.
pub fn is_placeholder_host(host: &str) -> (r: bool)
    ensures
        r == spec_is_placeholder_host(host@),
{
    let trimmed = str_trim(host);
    if trimmed.len() == 0 {
        return true;
    }
    let marker = chars_of("改成");
    if contains_exec(trimmed.as_slice(), marker.as_slice()) {
        return true;
    }
    let trimmed_str = string_of(trimmed.as_slice());
    let lower_string = to_lowercase(trimmed_str.as_str());
    let lower = lower_string.as_str();
    str_contains(lower, "placeholder") || str_contains(lower, "changeme") || str_contains(
        lower,
        "example.com",
    ) || str_contains(lower, "example.org") || str_contains(lower, "your-ip") || str_contains(
        lower,
        "your_ip",
    ) || str_contains(lower, "todo") || str_contains(lower, "xxx")
}

pub open spec fn jump_chain_too_deep_msg() -> Seq<char> {
    "跳板机链过深或存在循环引用"@
}

pub open spec fn host_not_configured_msg(name: Seq<char>, host: Seq<char>) -> Seq<char> {
    "服务器「"@ + name + "」主机地址未配置（"@ + host + "）"@
}

/// The host check along a jump chain, starting at the given depth: more
/// than four hops is refused, each server must exist and have a real host.
pub open spec fn check_hosts(config: AppConfig, id: Seq<char>, depth: int) -> Result<(), Seq<char>>
    decreases 5 - depth,
{
    if depth > 4 || depth < 0 {
        Err(jump_chain_too_deep_msg())
    } else {
        match find_in(config.servers@, id) {
            None => Err(server_not_found_msg(id)),
            Some(server) => {
                if spec_is_placeholder_host(server.host@) {
                    Err(host_not_configured_msg(server.name@, server.host@))
                } else {
                    match server.jump_server_id {
                        Some(jump) => check_hosts(config, jump@, depth + 1),
                        None => Ok(()),
                    }
                }
            },
        }
    }
}

fn check_hosts_from(config: &AppConfig, server_id: &str, depth: u8) -> (r: Result<(), String>)
    requires
        depth <= 5,
    ensures
        match r {
            Ok(()) => check_hosts(*config, server_id@, depth as int) is Ok,
            Err(e) => check_hosts(*config, server_id@, depth as int) == Err::<(), Seq<char>>(e@),
        },
    decreases 5 - depth,
{
    if depth > 4 {
        return Err(owned("跳板机链过深或存在循环引用"));
    }
    let server = match config.find_server(server_id) {
        Ok(s) => s,
        Err(e) => {
            return Err(e);
        },
    };
    if is_placeholder_host(server.host.as_str()) {
        let mut msg = owned("服务器「");
        msg.append(server.name.as_str());
        msg.append("」主机地址未配置（");
        msg.append(server.host.as_str());
        msg.append("）");
        return Err(msg);
    }
    match &server.jump_server_id {
        Some(jump_id) => check_hosts_from(config, jump_id.as_str(), depth + 1),
        None => Ok(()),
    }
}

/// Checks that a server and every jump server on its chain exist and have
/// a real host; more than four jumps (or a cycle) is refused.
pub fn validate_server_hosts(config: &AppConfig, server_id: &str) -> (r: Result<(), String>)
    ensures
        match r {
            Ok(()) => check_hosts(*config, server_id@, 0) is Ok,
            Err(e) => check_hosts(*config, server_id@, 0) == Err::<(), Seq<char>>(e@),
        },
{
    check_hosts_from(config, server_id, 0)
}

} // verus!

verus! {

// ---------------------------------------------------------------------
// File locations
// ---------------------------------------------------------------------

/// Calls `dirs::config_dir`: the user's configuration directory from the
/// environment (`$XDG_CONFIG_HOME`, `~/.config`, `%APPDATA%`, ...), as a
/// string. What it returns depends on the machine; nothing is claimed of it.
#[verifier::external_body]
fn os_config_dir() -> (r: Option<String>) {
    dirs::config_dir().map(|path| path.to_string_lossy().into_owned())
}

/// `std::path::MAIN_SEPARATOR`: '/' on Unix, '\\' on Windows.
#[verifier::external_body]
fn main_separator() -> (c: char)
    ensures
        c == '/' || c == '\\',
{
    std::path::MAIN_SEPARATOR
}

/// A path separator on a platform whose main separator is `sep`.
pub open spec fn is_separator(c: char, sep: char) -> bool {
    c == '/' || c == sep
}

/// `PathBuf::join` of a relative component: a separator is added unless the
/// base is empty or already ends in one.
pub open spec fn path_join(base: Seq<char>, name: Seq<char>, sep: char) -> Seq<char> {
    if base.len() == 0 || is_separator(base.last(), sep) {
        base + name
    } else {
        base + seq![sep] + name
    }
}

/// Joins a relative component to a directory, as `PathBuf::join` does.
pub fn join_path(base: &str, name: &str, sep: char) -> (r: String)
    ensures
        r@ == path_join(base@, name@, sep),
{
    let b = chars_of(base);
    let mut out = string_of(b.as_slice());
    if b.len() == 0 || b[b.len() - 1] == '/' || b[b.len() - 1] == sep {
        assert(base@.len() > 0 ==> base@.last() == b@[b@.len() - 1]);
        out.append(name);
    } else {
        assert(base@.len() > 0 ==> base@.last() == b@[b@.len() - 1]);
        crate::text::push_char(&mut out, sep);
        out.append(name);
        assert(out@ =~= base@ + seq![sep] + name@);
    }
    out
}

/// The directory holding the configuration, given the platform's
/// configuration directory (`"."` when there is none) and separator.
pub open spec fn config_dir_of(base: Option<String>, sep: char) -> Seq<char> {
    let b = match base {
        Some(s) => s@,
        None => "."@,
    };
    path_join(b, "shhd-deploy"@, sep)
}

/// A directory of the form `<platform config dir>/shhd-deploy`.
pub open spec fn is_config_dir(dir: Seq<char>) -> bool {
    exists|base: Option<String>, sep: char|
        (sep == '/' || sep == '\\') && dir == #[trigger] config_dir_of(base, sep)
}

/// `<platform config dir>/shhd-deploy/<name>`.
pub open spec fn is_config_file(path: Seq<char>, name: Seq<char>) -> bool {
    exists|base: Option<String>, sep: char|
        (sep == '/' || sep == '\\') && path == path_join(#[trigger] config_dir_of(base, sep), name, sep)
}

/// Directory of the configuration files (`<config dir>/shhd-deploy`).
pub fn config_dir() -> (r: String)
    ensures
        is_config_dir(r@),
{
    let base = os_config_dir();
    let sep = main_separator();
    let dir = match &base {
        Some(b) => join_path(b.as_str(), "shhd-deploy", sep),
        None => join_path(".", "shhd-deploy", sep),
    };
    assert(dir@ == config_dir_of(base, sep));
    dir
}

fn config_file(name: &str) -> (r: String)
    ensures
        is_config_file(r@, name@),
{
    let base = os_config_dir();
    let sep = main_separator();
    let dir = match &base {
        Some(b) => join_path(b.as_str(), "shhd-deploy", sep),
        None => join_path(".", "shhd-deploy", sep),
    };
    assert(dir@ == config_dir_of(base, sep));
    join_path(dir.as_str(), name, sep)
}

/// The main configuration file.
pub fn config_file_path() -> (r: String)
    ensures
        is_config_file(r@, "config.json"@),
{
    config_file("config.json")
}

/// Backend release history.
pub fn releases_file_path() -> (r: String)
    ensures
        is_config_file(r@, "releases.json"@),
{
    config_file("releases.json")
}

/// Front-end release history.
pub fn frontend_releases_file_path() -> (r: String)
    ensures
        is_config_file(r@, "frontend_releases.json"@),
{
    config_file("frontend_releases.json")
}

/// Host key fingerprints trusted on first use.
pub fn known_hosts_file_path() -> (r: String)
    ensures
        is_config_file(r@, "known_hosts.json"@),
{
    config_file("known_hosts.json")
}

/// Directory of the diagnostic logs (`<config dir>/shhd-deploy/logs`).
pub fn log_dir() -> (r: String)
    ensures
        is_config_file(r@, "logs"@),
{
    config_file("logs")
}

} // verus!

verus! {

// ---------------------------------------------------------------------
// Default template
// ---------------------------------------------------------------------

impl AppConfig {
    /// Every server id that the configuration refers to names a configured
    /// server, and every backend group has at least one server.
    pub open spec fn references_resolve(self) -> bool {
        &&& forall|i: int|
            0 <= i < self.servers@.len() ==> ((#[trigger] self.servers@[i]).jump_server_id matches Some(j)
                ==> find_in(self.servers@, j@) is Some)
        &&& forall|i: int|
            0 <= i < self.tunnels@.len() ==> find_in(
                self.servers@,
                (#[trigger] self.tunnels@[i]).via_server_id@,
            ) is Some
        &&& forall|i: int|
            0 <= i < self.backend_groups@.len() ==> {
                let ids = (#[trigger] self.backend_groups@[i]).spec_effective_server_ids();
                &&& ids.len() > 0
                &&& forall|k: int| 0 <= k < ids.len() ==> find_in(self.servers@, #[trigger] ids[k]) is Some
            }
        &&& forall|i: int|
            0 <= i < self.frontend_targets@.len() ==> forall|k: int|
                0 <= k < (#[trigger] self.frontend_targets@[i]).server_ids@.len() ==> find_in(
                    self.servers@,
                    #[trigger] self.frontend_targets@[i].server_ids@[k]@,
                ) is Some
        &&& forall|i: int|
            0 <= i < self.docker_targets@.len() ==> find_in(
                self.servers@,
                (#[trigger] self.docker_targets@[i]).server_id@,
            ) is Some
    }
}

fn template_server(
    id: &str,
    name: &str,
    os: OsType,
    host: &str,
    username: &str,
    jump: Option<&str>,
    group: &str,
) -> (r: ServerConfig)
    ensures
        r.id@ == id@,
        r.name@ == name@,
        r.os == os,
        r.host@ == host@,
        r.port == 22,
        r.username@ == username@,
        match jump {
            Some(j) => r.jump_server_id matches Some(k) && k@ == j@,
            None => r.jump_server_id is None,
        },
        r.group matches Some(g) && g@ == group@,
        r.auth matches AuthConfig::Password { password } && password@ == "改成密码"@,
        r.detected_os is None,
        r.rdp_preset is None,
        r.sftp_remote_shortcuts@.len() == 0,
        r.sftp_local_shortcuts@.len() == 0,
{
    ServerConfig {
        id: owned(id),
        name: owned(name),
        os,
        host: owned(host),
        port: 22,
        username: owned(username),
        auth: AuthConfig::Password { password: owned("改成密码") },
        jump_server_id: match jump {
            Some(j) => Some(owned(j)),
            None => None,
        },
        group: Some(owned(group)),
        detected_os: None,
        rdp_preset: None,
        sftp_remote_shortcuts: Vec::new(),
        sftp_local_shortcuts: Vec::new(),
    }
}

fn template_tunnel(
    id: &str,
    name: &str,
    local_port: u16,
    remote_host: &str,
    remote_port: u16,
    group: &str,
) -> (r: TunnelConfig)
    ensures
        r.id@ == id@,
        r.name@ == name@,
        r.via_server_id@ == "linux-proxy"@,
        r.local_port == local_port,
        r.remote_host@ == remote_host@,
        r.remote_port == remote_port,
        !r.auto_start,
        r.group matches Some(g) && g@ == group@,
{
    TunnelConfig {
        id: owned(id),
        name: owned(name),
        via_server_id: owned("linux-proxy"),
        local_port,
        remote_host: owned(remote_host),
        remote_port,
        auto_start: false,
        group: Some(owned(group)),
    }
}

fn template_project(
    id: &str,
    name: &str,
    local_bin_dir: &str,
    remote_app_dir: &str,
    health_check_url: &str,
    ignore_rules: &str,
) -> (r: BackendProject)
    ensures
        r.id@ == id@,
        r.name@ == name@,
        r.local_bin_dir@ == local_bin_dir@,
        r.remote_app_dir@ == remote_app_dir@,
        r.health_check_url matches Some(u) && u@ == health_check_url@,
        r.health_check_retries == 10,
        r.health_check_delay_secs == 3,
        r.stop_script@.len() == 0,
        r.start_script@.len() == 0,
        r.stop_iis_before_replace,
        r.ignore_rules@ == ignore_rules@,
        r.whitelist_rules@.len() == 0,
        r.newer_than is None,
{
    BackendProject {
        id: owned(id),
        name: owned(name),
        local_bin_dir: owned(local_bin_dir),
        remote_app_dir: owned(remote_app_dir),
        health_check_url: Some(owned(health_check_url)),
        health_check_retries: 10,
        health_check_delay_secs: 3,
        stop_script: String::new(),
        start_script: String::new(),
        stop_iis_before_replace: true,
        ignore_rules: owned(ignore_rules),
        whitelist_rules: String::new(),
        newer_than: None,
    }
}

fn template_command(id: &str, name: &str, command: &str, group: &str) -> (r: QuickCommand)
    ensures
        r.id@ == id@,
        r.name@ == name@,
        r.command@ == command@,
        r.group matches Some(g) && g@ == group@,
{
    QuickCommand {
        id: owned(id),
        name: owned(name),
        command: owned(command),
        group: Some(owned(group)),
    }
}

/// Optional text taken by its characters.
pub open spec fn opt_chars(o: Option<String>) -> Option<Seq<char>> {
    match o {
        Some(x) => Some(x@),
        None => None,
    }
}

/// A server of the template: SSH on port 22, the password left as the
/// placeholder 改成密码, nothing detected yet and no shortcuts.
pub open spec fn is_template_server(
    s: ServerConfig,
    id: Seq<char>,
    name: Seq<char>,
    os: OsType,
    host: Seq<char>,
    username: Seq<char>,
    jump: Option<Seq<char>>,
    group: Seq<char>,
) -> bool {
    &&& s.id@ == id
    &&& s.name@ == name
    &&& s.os == os
    &&& s.host@ == host
    &&& s.port == 22
    &&& s.username@ == username
    &&& s.auth matches AuthConfig::Password { password } && password@ == "改成密码"@
    &&& opt_chars(s.jump_server_id) == jump
    &&& opt_chars(s.group) == Some(group)
    &&& s.detected_os is None
    &&& s.rdp_preset is None
    &&& s.sftp_remote_shortcuts@.len() == 0
    &&& s.sftp_local_shortcuts@.len() == 0
}

/// A tunnel of the template: through the jump server, not started on its own.
pub open spec fn is_template_tunnel(
    t: TunnelConfig,
    id: Seq<char>,
    name: Seq<char>,
    local_port: u16,
    remote_host: Seq<char>,
    remote_port: u16,
    group: Seq<char>,
) -> bool {
    &&& t.id@ == id
    &&& t.name@ == name
    &&& t.via_server_id@ == "linux-proxy"@
    &&& t.local_port == local_port
    &&& t.remote_host@ == remote_host
    &&& t.remote_port == remote_port
    &&& !t.auto_start
    &&& opt_chars(t.group) == Some(group)
}

/// A backend project of the template: ten health checks three seconds
/// apart, IIS stopped before the replacement, no scripts, no whitelist.
pub open spec fn is_template_project(
    p: BackendProject,
    id: Seq<char>,
    name: Seq<char>,
    local_bin_dir: Seq<char>,
    remote_app_dir: Seq<char>,
    health_check_url: Seq<char>,
    ignore_rules: Seq<char>,
) -> bool {
    &&& p.id@ == id
    &&& p.name@ == name
    &&& p.local_bin_dir@ == local_bin_dir
    &&& p.remote_app_dir@ == remote_app_dir
    &&& opt_chars(p.health_check_url) == Some(health_check_url)
    &&& p.health_check_retries == 10
    &&& p.health_check_delay_secs == 3
    &&& p.stop_script@.len() == 0
    &&& p.start_script@.len() == 0
    &&& p.stop_iis_before_replace
    &&& p.ignore_rules@ == ignore_rules
    &&& p.whitelist_rules@.len() == 0
    &&& p.newer_than is None
}

/// A saved command of the template.
pub open spec fn is_template_command(q: QuickCommand, id: Seq<char>, name: Seq<char>, command: Seq<char>, group: Seq<char>) -> bool {
    &&& q.id@ == id
    &&& q.name@ == name
    &&& q.command@ == command
    &&& opt_chars(q.group) == Some(group)
}

/// The servers of the template: the Linux jump server `linux-proxy` (its
/// public address left to fill in), the four Windows servers behind it
/// with their internal addresses, and a Docker host.
pub open spec fn template_servers(s: Seq<ServerConfig>) -> bool {
    &&& s.len() == 6
    &&& is_template_server(s[0], "linux-proxy"@, "Linux-大带宽代理(跳板机)"@, OsType::Linux, "改成公网IP"@, "root"@, None, "Linux"@)
    &&& is_template_server(s[1], "win-48-5"@, "Windows-A(172.16.48.5)"@, OsType::Windows, "172.16.48.5"@, "administrator"@, Some("linux-proxy"@), "Windows-service组"@)
    &&& is_template_server(s[2], "win-48-16"@, "Windows-B(172.16.48.16)"@, OsType::Windows, "172.16.48.16"@, "administrator"@, Some("linux-proxy"@), "Windows-service组"@)
    &&& is_template_server(s[3], "win-0-10"@, "Windows-C(172.16.0.10)"@, OsType::Windows, "172.16.0.10"@, "administrator"@, Some("linux-proxy"@), "Windows-www组"@)
    &&& is_template_server(s[4], "win-16-8"@, "Windows-D(172.16.16.8)"@, OsType::Windows, "172.16.16.8"@, "administrator"@, Some("linux-proxy"@), "Windows-www组"@)
    &&& is_template_server(s[5], "linux-docker"@, "Linux-Docker(新项目)"@, OsType::Linux, "改成IP"@, "root"@, None, "Linux"@)
}

/// The tunnels of the template: remote desktop of the first Windows
/// server, MySQL and Redis.
pub open spec fn template_tunnels(t: Seq<TunnelConfig>) -> bool {
    &&& t.len() == 3
    &&& is_template_tunnel(t[0], "rdp-win-a"@, "RDP-WindowsA"@, 13389, "172.16.48.5"@, 3389, "远程桌面"@)
    &&& is_template_tunnel(t[1], "mysql"@, "生产MySQL"@, 13306, "改成MySQL内网地址"@, 3306, "数据库"@)
    &&& is_template_tunnel(t[2], "redis"@, "生产Redis"@, 16379, "改成Redis内网地址"@, 6379, "数据库"@)
}

/// The backend group of the template: two projects on the two service servers.
pub open spec fn template_backend_groups(g: Seq<BackendGroup>) -> bool {
    &&& g.len() == 1
    &&& g[0].id@ == "group-service"@
    &&& g[0].name@ == "service组(48.5 / 48.16)"@
    &&& views(g[0].server_ids@) == seq!["win-48-5"@, "win-48-16"@]
    &&& g[0].primary_server_id is None
    &&& g[0].secondary_server_id is None
    &&& g[0].staging_dir@ == "D:\\code\\sites\\devlop"@
    &&& g[0].backup_dir@ == "D:\\code\\sites\\backup"@
    &&& g[0].copy_mode == CopyMode::Upload
    &&& g[0].projects@.len() == 2
    &&& is_template_project(
        g[0].projects@[0],
        "brand-service-admin"@,
        "brand-service/admin"@,
        "D:\\Code\\JianYue\\build-info\\to-backend\\admin"@,
        "D:\\code\\sites\\to\\brand-service\\admin"@,
        "http://localhost:8081/admin/swagger"@,
        "Configs/\nTemplate/\nfavicon.ico\nGlobal.asax\nLog4net.config\nApplicationInsights.config\nWeb.config"@,
    )
    &&& is_template_project(
        g[0].projects@[1],
        "service-rest"@,
        "service/rest"@,
        "D:\\Code\\JianYue\\build-info\\to-backend\\client"@,
        "D:\\code\\sites\\to\\service\\rest"@,
        "http://localhost:8083/swagger"@,
        ""@,
    )
}

/// The front-end target of the template, served from the jump server.
pub open spec fn template_frontend_targets(f: Seq<FrontendTarget>) -> bool {
    &&& f.len() == 1
    &&& f[0].id@ == "mch-web"@
    &&& f[0].name@ == "商户后台 Mch-Web"@
    &&& views(f[0].server_ids@) == seq!["linux-proxy"@]
    &&& f[0].local_dir@ == "D:\\Code\\JianYue\\Pages\\to-frontend\\Mch-Web\\dist"@
    &&& f[0].remote_dir@ == "/usr/share/nginx/html/to/brand"@
    &&& f[0].staging_dir is None
    &&& !f[0].delete_extraneous
    &&& opt_chars(f[0].group) == Some("开发环境"@)
    &&& f[0].pack_command is None
    &&& f[0].pack_work_dir is None
}

/// The Docker target of the template: pull, start and list on the Docker host.
pub open spec fn template_docker_targets(d: Seq<DockerTarget>) -> bool {
    &&& d.len() == 1
    &&& d[0].id@ == "zx-infra"@
    &&& d[0].name@ == "zx-infra 集群"@
    &&& d[0].server_id@ == "linux-docker"@
    &&& d[0].work_dir@ == "/opt/zx"@
    &&& views(d[0].commands@) == seq!["docker compose pull"@, "docker compose up -d"@, "docker compose ps"@]
    &&& opt_chars(d[0].group) == Some("默认"@)
}

/// The saved commands of the template.
pub open spec fn template_quick_commands(q: Seq<QuickCommand>) -> bool {
    &&& q.len() == 3
    &&& is_template_command(q[0], "qc-ll"@, "详细列表"@, "ls -lah"@, "常用"@)
    &&& is_template_command(q[1], "qc-df"@, "磁盘空间"@, "df -h"@, "常用"@)
    &&& is_template_command(q[2], "qc-docker-ps"@, "Docker 容器"@, "docker ps"@, "Docker"@)
}

/// The whole template, field by field.
pub open spec fn is_default_template(c: AppConfig) -> bool {
    &&& template_servers(c.servers@)
    &&& template_tunnels(c.tunnels@)
    &&& template_backend_groups(c.backend_groups@)
    &&& template_frontend_targets(c.frontend_targets@)
    &&& template_docker_targets(c.docker_targets@)
    &&& template_quick_commands(c.quick_commands@)
    &&& c.mcp.is_default()
    &&& c.logging.is_default()
    &&& views(c.sftp_shortcuts@) == spec_default_sftp_shortcuts()
    &&& c.sftp_local_shortcuts@.len() == 0
}

/// The template written on first start, filled in with the user's hosts:
/// a Linux jump server, four Windows servers behind it, a Docker host,
/// three tunnels, one backend group of two projects, one front-end target,
/// one Docker target and three quick commands. Hosts and passwords are
/// placeholders to complete in the interface.
pub fn default_template() -> (r: AppConfig)
    ensures
        is_default_template(r),
        r.references_resolve(),
        spec_is_placeholder_host(r.servers@[0].host@),
        spec_is_placeholder_host(r.servers@[5].host@),
{
    let mut servers: Vec<ServerConfig> = Vec::new();
    servers.push(
        template_server(
            "linux-proxy",
            "Linux-大带宽代理(跳板机)",
            OsType::Linux,
            "改成公网IP",
            "root",
            None,
            "Linux",
        ),
    );
    servers.push(
        template_server(
            "win-48-5",
            "Windows-A(172.16.48.5)",
            OsType::Windows,
            "172.16.48.5",
            "administrator",
            Some("linux-proxy"),
            "Windows-service组",
        ),
    );
    servers.push(
        template_server(
            "win-48-16",
            "Windows-B(172.16.48.16)",
            OsType::Windows,
            "172.16.48.16",
            "administrator",
            Some("linux-proxy"),
            "Windows-service组",
        ),
    );
    servers.push(
        template_server(
            "win-0-10",
            "Windows-C(172.16.0.10)",
            OsType::Windows,
            "172.16.0.10",
            "administrator",
            Some("linux-proxy"),
            "Windows-www组",
        ),
    );
    servers.push(
        template_server(
            "win-16-8",
            "Windows-D(172.16.16.8)",
            OsType::Windows,
            "172.16.16.8",
            "administrator",
            Some("linux-proxy"),
            "Windows-www组",
        ),
    );
    servers.push(
        template_server(
            "linux-docker",
            "Linux-Docker(新项目)",
            OsType::Linux,
            "改成IP",
            "root",
            None,
            "Linux",
        ),
    );

    let mut tunnels: Vec<TunnelConfig> = Vec::new();
    tunnels.push(template_tunnel("rdp-win-a", "RDP-WindowsA", 13389, "172.16.48.5", 3389, "远程桌面"));
    tunnels.push(template_tunnel("mysql", "生产MySQL", 13306, "改成MySQL内网地址", 3306, "数据库"));
    tunnels.push(template_tunnel("redis", "生产Redis", 16379, "改成Redis内网地址", 6379, "数据库"));

    let mut projects: Vec<BackendProject> = Vec::new();
    projects.push(
        template_project(
            "brand-service-admin",
            "brand-service/admin",
            "D:\\Code\\JianYue\\build-info\\to-backend\\admin",
            "D:\\code\\sites\\to\\brand-service\\admin",
            "http://localhost:8081/admin/swagger",
            "Configs/\nTemplate/\nfavicon.ico\nGlobal.asax\nLog4net.config\nApplicationInsights.config\nWeb.config",
        ),
    );
    projects.push(
        template_project(
            "service-rest",
            "service/rest",
            "D:\\Code\\JianYue\\build-info\\to-backend\\client",
            "D:\\code\\sites\\to\\service\\rest",
            "http://localhost:8083/swagger",
            "",
        ),
    );
    let mut group_servers: Vec<String> = Vec::new();
    group_servers.push(owned("win-48-5"));
    group_servers.push(owned("win-48-16"));
    assert(views(group_servers@) =~= seq!["win-48-5"@, "win-48-16"@]);
    let mut backend_groups: Vec<BackendGroup> = Vec::new();
    backend_groups.push(
        BackendGroup {
            id: owned("group-service"),
            name: owned("service组(48.5 / 48.16)"),
            server_ids: group_servers,
            primary_server_id: None,
            secondary_server_id: None,
            staging_dir: owned("D:\\code\\sites\\devlop"),
            backup_dir: owned("D:\\code\\sites\\backup"),
            copy_mode: CopyMode::Upload,
            projects,
        },
    );

    let mut frontend_servers: Vec<String> = Vec::new();
    frontend_servers.push(owned("linux-proxy"));
    assert(views(frontend_servers@) =~= seq!["linux-proxy"@]);
    let mut frontend_targets: Vec<FrontendTarget> = Vec::new();
    frontend_targets.push(
        FrontendTarget {
            id: owned("mch-web"),
            name: owned("商户后台 Mch-Web"),
            server_ids: frontend_servers,
            local_dir: owned("D:\\Code\\JianYue\\Pages\\to-frontend\\Mch-Web\\dist"),
            remote_dir: owned("/usr/share/nginx/html/to/brand"),
            staging_dir: None,
            delete_extraneous: false,
            group: Some(owned("开发环境")),
            pack_command: None,
            pack_work_dir: None,
        },
    );

    let mut commands: Vec<String> = Vec::new();
    commands.push(owned("docker compose pull"));
    commands.push(owned("docker compose up -d"));
    commands.push(owned("docker compose ps"));
    assert(views(commands@) =~= seq!["docker compose pull"@, "docker compose up -d"@, "docker compose ps"@]);
    let mut docker_targets: Vec<DockerTarget> = Vec::new();
    docker_targets.push(
        DockerTarget {
            id: owned("zx-infra"),
            name: owned("zx-infra 集群"),
            server_id: owned("linux-docker"),
            work_dir: owned("/opt/zx"),
            commands,
            group: Some(owned("默认")),
        },
    );

    let mut quick_commands: Vec<QuickCommand> = Vec::new();
    quick_commands.push(template_command("qc-ll", "详细列表", "ls -lah", "常用"));
    quick_commands.push(template_command("qc-df", "磁盘空间", "df -h", "常用"));
    quick_commands.push(template_command("qc-docker-ps", "Docker 容器", "docker ps", "Docker"));

    let config = AppConfig {
        servers,
        tunnels,
        backend_groups,
        frontend_targets,
        docker_targets,
        mcp: McpConfig::default(),
        quick_commands,
        logging: LoggingConfig::default(),
        sftp_shortcuts: default_sftp_shortcuts(),
        sftp_local_shortcuts: Vec::new(),
    };
    proof {
        lemma_template_resolves(config);
        lemma_marker_is_placeholder(config.servers@[0].host@, "改成公网IP"@);
        lemma_marker_is_placeholder(config.servers@[5].host@, "改成IP"@);
    }
    config
}

proof fn lemma_marker_is_placeholder(h: Seq<char>, lit: Seq<char>)
    requires
        h == lit,
        lit == "改成公网IP"@ || lit == "改成IP"@,
    ensures
        spec_is_placeholder_host(h),
{
    reveal_strlit("改成公网IP");
    reveal_strlit("改成IP");
    reveal_strlit("改成");
    assert(!is_ws(h[0]));
    assert(!is_ws(h.last()));
    assert(trim_start(h) == h);
    assert(trim_end(h) == h);
    assert(trim(h) == h);
    assert(h.subrange(0, 2) =~= "改成"@);
    assert(occurs_at(h, "改成"@, 0));
}

proof fn lemma_template_resolves(c: AppConfig)
    requires
        c.servers@.len() == 6,
        c.servers@[0].id@ == "linux-proxy"@,
        c.servers@[1].id@ == "win-48-5"@,
        c.servers@[2].id@ == "win-48-16"@,
        c.servers@[3].id@ == "win-0-10"@,
        c.servers@[4].id@ == "win-16-8"@,
        c.servers@[5].id@ == "linux-docker"@,
        forall|i: int|
            0 <= i < 6 ==> ((#[trigger] c.servers@[i]).jump_server_id matches Some(j) ==> j@
                == "linux-proxy"@),
        forall|i: int| 0 <= i < c.tunnels@.len() ==> (#[trigger] c.tunnels@[i]).via_server_id@ == "linux-proxy"@,
        c.backend_groups@.len() == 1,
        views(c.backend_groups@[0].server_ids@) == seq!["win-48-5"@, "win-48-16"@],
        c.frontend_targets@.len() == 1,
        views(c.frontend_targets@[0].server_ids@) == seq!["linux-proxy"@],
        c.docker_targets@.len() == 1,
        c.docker_targets@[0].server_id@ == "linux-docker"@,
    ensures
        c.references_resolve(),
{
    reveal_strlit("linux-proxy");
    reveal_strlit("win-48-5");
    reveal_strlit("win-48-16");
    reveal_strlit("win-0-10");
    reveal_strlit("win-16-8");
    reveal_strlit("linux-docker");
    reveal_with_fuel(find_in, 7);
    let s = c.servers@;
    assert(find_in(s, "linux-proxy"@) is Some);
    assert(find_in(s, "win-48-5"@) is Some) by {
        assert(s.drop_first()[0] == s[1]);
    }
    assert(find_in(s, "win-48-16"@) is Some) by {
        assert(s.drop_first().drop_first()[0] == s[2]);
        assert(s.drop_first()[0] == s[1]);
    }
    assert(find_in(s, "linux-docker"@) is Some) by {
        let s1 = s.drop_first();
        let s2 = s1.drop_first();
        let s3 = s2.drop_first();
        let s4 = s3.drop_first();
        let s5 = s4.drop_first();
        assert(s1[0] == s[1]);
        assert(s2[0] == s[2]);
        assert(s3[0] == s[3]);
        assert(s4[0] == s[4]);
        assert(s5[0] == s[5]);
    }
    let g = c.backend_groups@[0];
    assert(g.spec_effective_server_ids() == seq!["win-48-5"@, "win-48-16"@]);
    assert forall|k: int|
        0 <= k < c.frontend_targets@[0].server_ids@.len() implies find_in(
        s,
        #[trigger] c.frontend_targets@[0].server_ids@[k]@,
    ) is Some by {
        assert(views(c.frontend_targets@[0].server_ids@).len() == 1);
        assert(k == 0);
        assert(views(c.frontend_targets@[0].server_ids@)[k] == c.frontend_targets@[0].server_ids@[k]@);
        assert(c.frontend_targets@[0].server_ids@[k]@ == "linux-proxy"@);
    }
}

/// A configuration file's text without its leading byte-order marks.
pub fn strip_bom(content: &str) -> (r: String)
    ensures
        r@ == crate::text::trim_start_char(content@, '\u{feff}'),
{
    let v = chars_of(content);
    let t = crate::text::trim_start_char_exec(v.as_slice(), '\u{feff}');
    string_of(t.as_slice())
}

/// Every field but the servers is unchanged.
pub open spec fn same_but_servers(a: AppConfig, b: AppConfig) -> bool {
    &&& a.tunnels == b.tunnels
    &&& a.backend_groups == b.backend_groups
    &&& a.frontend_targets == b.frontend_targets
    &&& a.docker_targets == b.docker_targets
    &&& a.mcp == b.mcp
    &&& a.quick_commands == b.quick_commands
    &&& a.logging == b.logging
    &&& a.sftp_shortcuts == b.sftp_shortcuts
    &&& a.sftp_local_shortcuts == b.sftp_local_shortcuts
}

pub open spec fn server_position(servers: Seq<ServerConfig>, id: Seq<char>) -> Option<int> {
    crate::history::first_index(servers, |s: ServerConfig| s.id@ == id)
}

/// Puts a server being edited into a configuration to test it: it replaces
/// the first saved server with its id, or is added at the end. Returns
/// whether such a server was saved.
pub fn put_draft_server(config: &mut AppConfig, draft: ServerConfig) -> (existed: bool)
    ensures
        same_but_servers(*final(config), *old(config)),
        existed == server_position(old(config).servers@, draft.id@) is Some,
        match server_position(old(config).servers@, draft.id@) {
            Some(p) => final(config).servers@ == old(config).servers@.update(p, draft),
            None => final(config).servers@ == old(config).servers@.push(draft),
        },
{
    let ghost p = |s: ServerConfig| s.id@ == draft.id@;
    let mut i: usize = 0;
    while i < config.servers.len()
        invariant
            i <= config.servers@.len(),
            config.servers@ == old(config).servers@,
            *config == *old(config),
            p == (|s: ServerConfig| s.id@ == draft.id@),
            forall|j: int| 0 <= j < i ==> !p(config.servers@[j]),
        decreases config.servers.len() - i,
    {
        if str_eq(config.servers[i].id.as_str(), draft.id.as_str()) {
            proof {
                crate::history::lemma_first_index(config.servers@, p, i as int);
            }
            config.servers.set(i, draft);
            return true;
        }
        i = i + 1;
    }
    proof {
        crate::history::lemma_first_index(config.servers@, p, i as int);
    }
    config.servers.push(draft);
    false
}

/// Records the system detected on a server. Returns whether the
/// configuration changed (the server exists and had another value).
pub fn record_detected_os(config: &mut AppConfig, server_id: &str, detected: &str) -> (changed: bool)
    ensures
        same_but_servers(*final(config), *old(config)),
        match server_position(old(config).servers@, server_id@) {
            None => !changed && final(config).servers@ == old(config).servers@,
            Some(p) => {
                let s = old(config).servers@[p];
                if s.detected_os matches Some(d) && d@ == detected@ {
                    !changed && final(config).servers@ == old(config).servers@
                } else {
                    &&& changed
                    &&& final(config).servers@.len() == old(config).servers@.len()
                    &&& forall|j: int| 0 <= j < old(config).servers@.len() && j != p ==> final(config).servers@[j] == old(config).servers@[j]
                    &&& final(config).servers@[p].detected_os matches Some(d) && d@ == detected@
                    &&& final(config).servers@[p].id == s.id
                    &&& final(config).servers@[p].host == s.host
                    &&& final(config).servers@[p].port == s.port
                    &&& final(config).servers@[p].name == s.name
                }
            },
        },
{
    let ghost p = |s: ServerConfig| s.id@ == server_id@;
    let mut i: usize = 0;
    while i < config.servers.len()
        invariant
            i <= config.servers@.len(),
            *config == *old(config),
            p == (|s: ServerConfig| s.id@ == server_id@),
            forall|j: int| 0 <= j < i ==> !p(config.servers@[j]),
        decreases config.servers.len() - i,
    {
        if str_eq(config.servers[i].id.as_str(), server_id) {
            proof {
                crate::history::lemma_first_index(config.servers@, p, i as int);
            }
            let same = match &config.servers[i].detected_os {
                Some(d) => str_eq(d.as_str(), detected),
                None => false,
            };
            if same {
                return false;
            }
            let mut server = config.servers.remove(i);
            server.detected_os = Some(owned(detected));
            config.servers.insert(i, server);
            assert forall|j: int| 0 <= j < old(config).servers@.len() && j != i implies config.servers@[j] == old(config).servers@[j] by {}
            return true;
        }
        i = i + 1;
    }
    proof {
        crate::history::lemma_first_index(config.servers@, p, i as int);
    }
    false
}

} // verus!
