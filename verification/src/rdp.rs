//! One-click remote desktop: the address to open, the client's arguments
//! or connection file, the tunnel used behind a jump server, and the rule
//! that recognises and renames the client's window while the session lasts.

use vstd::prelude::*;
use crate::config::{ServerConfig, TunnelConfig};
use crate::text::{contains, decimal, owned, push_char, push_decimal, replace_char, starts_with, str_contains, str_eq, str_trim, string_of, trim};

verus! {

/// Port of the remote desktop service.
pub const RDP_PORT: u16 = 3389;

/// Address of a server reached directly: `<host>:3389`.
pub fn direct_rdp_address(host: &str) -> (r: String)
    ensures
        r@ == host@ + ":3389"@,
{
    let mut s = owned(host);
    s.append(":3389");
    s
}

/// Address of a server reached through a local tunnel: `127.0.0.1:<port>`.
pub fn tunnel_rdp_address(local_port: u16) -> (r: String)
    ensures
        r@ == "127.0.0.1:"@ + decimal(local_port as nat),
{
    let mut s = owned("127.0.0.1:");
    push_decimal(&mut s, local_port as u64);
    s
}

/// Id of the tunnel kept for a server's remote desktop.
pub fn rdp_tunnel_id(server_id: &str) -> (r: String)
    ensures
        r@ == "rdp-auto-"@ + server_id@,
{
    let mut s = owned("rdp-auto-");
    s.append(server_id);
    s
}

/// The temporary tunnel to a server's remote desktop port through its jump
/// server.
pub fn rdp_tunnel_config(server: &ServerConfig, local_port: u16) -> (r: TunnelConfig)
    ensures
        r.id@ == "rdp-auto-"@ + server.id@,
        r.name@ == "远程桌面-"@ + server.name@,
        r.via_server_id@ == match server.jump_server_id { Some(j) => j@, None => Seq::<char>::empty() },
        r.local_port == local_port,
        r.remote_host@ == server.host@,
        r.remote_port == RDP_PORT,
        !r.auto_start,
        r.group is None,
{
    let mut name = owned("远程桌面-");
    name.append(server.name.as_str());
    let via = match &server.jump_server_id {
        Some(j) => owned(j.as_str()),
        None => String::new(),
    };
    TunnelConfig {
        id: rdp_tunnel_id(server.id.as_str()),
        name,
        via_server_id: via,
        local_port,
        remote_host: owned(server.host.as_str()),
        remote_port: RDP_PORT,
        auto_start: false,
        group: None,
    }
}

/// Arguments of `mstsc`: the address; full screen, or a size when both
/// dimensions are given.
pub open spec fn spec_mstsc_args(address: Seq<char>, width: Option<u32>, height: Option<u32>, fullscreen: bool) -> Seq<Seq<char>> {
    let first = seq!["/v:"@ + address];
    if fullscreen {
        first.push("/f"@)
    } else {
        match (width, height) {
            (Some(w), Some(h)) => first.push("/w:"@ + decimal(w as nat)).push("/h:"@ + decimal(h as nat)),
            _ => first,
        }
    }
}

pub fn mstsc_args(address: &str, width: Option<u32>, height: Option<u32>, fullscreen: bool) -> (r: Vec<String>)
    ensures
        crate::text::views(r@) == spec_mstsc_args(address@, width, height, fullscreen),
{
    let mut args: Vec<String> = Vec::new();
    let mut v = owned("/v:");
    v.append(address);
    args.push(v);
    if fullscreen {
        args.push(owned("/f"));
    } else {
        match (width, height) {
            (Some(w), Some(h)) => {
                let mut ws = owned("/w:");
                push_decimal(&mut ws, w as u64);
                let mut hs = owned("/h:");
                push_decimal(&mut hs, h as u64);
                args.push(ws);
                args.push(hs);
            },
            _ => {},
        }
    }
    assert(crate::text::views(args@) =~= spec_mstsc_args(address@, width, height, fullscreen));
    args
}

/// Contents of the `.rdp` file opened on macOS.
pub open spec fn spec_rdp_file_content(address: Seq<char>, width: Option<u32>, height: Option<u32>, fullscreen: bool) -> Seq<char> {
    let mode = if fullscreen { "2"@ } else { "1"@ };
    let size = if fullscreen {
        Seq::empty()
    } else {
        match (width, height) {
            (Some(w), Some(h)) => "desktopwidth:i:"@ + decimal(w as nat) + "\n"@ + "desktopheight:i:"@ + decimal(h as nat) + "\n"@,
            _ => Seq::empty(),
        }
    };
    "full address:s:"@ + address + "\nprompt for credentials:i:1\nscreen mode id:i:"@ + mode + "\n"@ + size
}

pub fn rdp_file_content(address: &str, width: Option<u32>, height: Option<u32>, fullscreen: bool) -> (r: String)
    ensures
        r@ == spec_rdp_file_content(address@, width, height, fullscreen),
{
    let mut s = owned("full address:s:");
    s.append(address);
    s.append("\nprompt for credentials:i:1\nscreen mode id:i:");
    s.append(if fullscreen { "2" } else { "1" });
    s.append("\n");
    if !fullscreen {
        match (width, height) {
            (Some(w), Some(h)) => {
                s.append("desktopwidth:i:");
                push_decimal(&mut s, w as u64);
                s.append("\n");
                s.append("desktopheight:i:");
                push_decimal(&mut s, h as u64);
                s.append("\n");
            },
            _ => {},
        }
    }
    assert(s@ =~= spec_rdp_file_content(address@, width, height, fullscreen));
    s
}

/// Name of the `.rdp` file: `shhd-deploy-<address with ':' and '.' as '-'>.rdp`.
pub open spec fn spec_rdp_file_name(address: Seq<char>) -> Seq<char> {
    "shhd-deploy-"@ + replace_char(replace_char(address, ':', '-'), '.', '-') + ".rdp"@
}

pub fn rdp_file_name(address: &str) -> (r: String)
    ensures
        r@ == spec_rdp_file_name(address@),
{
    let v = crate::text::chars_of(address);
    let a = crate::text::replace_char_exec(v.as_slice(), ':', '-');
    let b = crate::text::replace_char_exec(a.as_slice(), '.', '-');
    let mut s = owned("shhd-deploy-");
    let mid = string_of(b.as_slice());
    s.append(mid.as_str());
    s.append(".rdp");
    s
}

// ---------------------------------------------------------------------
// The client's window
// ---------------------------------------------------------------------

/// Title given to the session's window: `<address> - <server name>`, or
/// the generic suffix when the name is blank.
pub open spec fn spec_desired_title(address: Seq<char>, server_name: Seq<char>) -> Seq<char> {
    let name = trim(server_name);
    if name.len() == 0 {
        address + " - 远程桌面连接"@
    } else {
        address + " - "@ + name
    }
}

pub fn desired_title(address: &str, server_name: &str) -> (r: String)
    ensures
        r@ == spec_desired_title(address@, server_name@),
{
    let name = str_trim(server_name);
    let mut s = owned(address);
    if name.len() == 0 {
        s.append(" - 远程桌面连接");
    } else {
        s.append(" - ");
        let n = string_of(name.as_slice());
        s.append(n.as_str());
    }
    s
}

/// A window belongs to the session when it already has the desired title,
/// or its title names the address together with a remote desktop client
/// suffix or begins with `<address> - `.
pub open spec fn spec_is_our_rdp_window(title: Seq<char>, address: Seq<char>, desired: Seq<char>) -> bool {
    ||| title == desired
    ||| contains(title, address) && (
        contains(title, "远程桌面连接"@) || contains(title, "遠端桌面連線"@)
            || contains(title, "Remote Desktop Connection"@) || starts_with(title, address + " - "@)
    )
}

pub fn is_our_rdp_window(title: &str, address: &str, desired_title: &str) -> (r: bool)
    ensures
        r == spec_is_our_rdp_window(title@, address@, desired_title@),
{
    if str_eq(title, desired_title) {
        return true;
    }
    if !str_contains(title, address) {
        return false;
    }
    let mut prefix = owned(address);
    prefix.append(" - ");
    let t = crate::text::chars_of(title);
    let p = crate::text::chars_of(prefix.as_str());
    str_contains(title, "远程桌面连接") || str_contains(title, "遠端桌面連線")
        || str_contains(title, "Remote Desktop Connection") || crate::text::starts_with_exec(t.as_slice(), p.as_slice())
}

/// How the client process stands at a check.
#[derive(Clone, Copy, Debug, PartialEq, Eq, Structural)]
pub enum ChildPoll {
    Running,
    Exited,
    /// Its state could not be read.
    Unknown,
}

/// Watching a session's window to keep its title; times are milliseconds
/// since the client was started.
pub struct TitleWatch {
    pub seen_window: bool,
    pub missing_since_ms: Option<u64>,
    pub child_lived_ms: Option<u64>,
}

impl TitleWatch {
    pub fn new() -> (r: TitleWatch)
        ensures
            !r.seen_window,
            r.missing_since_ms is None,
            r.child_lived_ms is None,
    {
        TitleWatch { seen_window: false, missing_since_ms: None, child_lived_ms: None }
    }

    /// One check (every 400 ms). Returns whether to keep watching. The watch
    /// ends once the window has been gone for more than 800 ms after it was
    /// seen; when the process state cannot be read; when the client ran at
    /// least 2 s, exited, and no window is found; and, while no window was
    /// ever seen, after 20 s when only a short-lived launcher ran, or after 90 s.
    pub fn step(&mut self, found: bool, elapsed_ms: u64, child: ChildPoll) -> (keep: bool)
        ensures
            found ==> final(self).seen_window && final(self).missing_since_ms is None,
            !found && old(self).seen_window ==> final(self).missing_since_ms == Some(
                match old(self).missing_since_ms { Some(t) => t, None => elapsed_ms },
            ),
            !found && old(self).seen_window && elapsed_ms - final(self).missing_since_ms->0 > 800 ==> !keep,
            old(self).child_lived_ms is None && child == ChildPoll::Unknown
                && (found || !old(self).seen_window || elapsed_ms - final(self).missing_since_ms->0 <= 800) ==> !keep,
            old(self).child_lived_ms is Some ==> final(self).child_lived_ms == old(self).child_lived_ms,
            old(self).child_lived_ms is None && child == ChildPoll::Exited
                && (found || !old(self).seen_window || elapsed_ms - final(self).missing_since_ms->0 <= 800)
                ==> final(self).child_lived_ms == Some(elapsed_ms),
            old(self).child_lived_ms is None && !(child == ChildPoll::Exited
                && (found || !old(self).seen_window || elapsed_ms - final(self).missing_since_ms->0 <= 800))
                ==> final(self).child_lived_ms is None,
            keep ==> {
                &&& !(final(self).child_lived_ms matches Some(l) && l >= 2000 && !found)
                &&& !final(self).seen_window ==> elapsed_ms <= 90000
                &&& !final(self).seen_window && (final(self).child_lived_ms matches Some(l) && l < 2000) ==> elapsed_ms <= 20000
            },
            !keep ==> {
                ||| (!found && old(self).seen_window && elapsed_ms - final(self).missing_since_ms->0 > 800)
                ||| (old(self).child_lived_ms is None && child == ChildPoll::Unknown)
                ||| (final(self).child_lived_ms matches Some(l) && l >= 2000 && !found)
                ||| (!final(self).seen_window && elapsed_ms > 90000)
                ||| (!final(self).seen_window && (final(self).child_lived_ms matches Some(l) && l < 2000) && elapsed_ms > 20000)
            },
    {
        if found {
            self.seen_window = true;
            self.missing_since_ms = None;
        } else if self.seen_window {
            let gone_at = match self.missing_since_ms {
                Some(t) => t,
                None => elapsed_ms,
            };
            self.missing_since_ms = Some(gone_at);
            if elapsed_ms >= gone_at && elapsed_ms - gone_at > 800 {
                return false;
            }
        }
        if self.child_lived_ms.is_none() {
            match child {
                ChildPoll::Exited => {
                    self.child_lived_ms = Some(elapsed_ms);
                },
                ChildPoll::Running => {},
                ChildPoll::Unknown => {
                    return false;
                },
            }
        }
        if let Some(lived) = self.child_lived_ms {
            if lived >= 2000 && !found {
                return false;
            }
        }
        if !self.seen_window {
            let launcher_only = match self.child_lived_ms {
                Some(lived) => lived < 2000,
                None => false,
            };
            if launcher_only && elapsed_ms > 20000 {
                return false;
            }
            if elapsed_ms > 90000 {
                return false;
            }
        }
        true
    }
}

// ---------------------------------------------------------------------
// Window colours
// ---------------------------------------------------------------------

/// A Windows COLORREF: `0x00BBGGRR`.
pub fn rgb_to_colorref(red: u8, green: u8, blue: u8) -> (r: u32)
    ensures
        r == red as u32 + 256 * (green as u32) + 65536 * (blue as u32),
{
    (red as u32) + 256 * (green as u32) + 65536 * (blue as u32)
}

} // verus!
