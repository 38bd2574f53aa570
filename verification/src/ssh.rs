//! Pure parts of the SSH layer: route descriptions, error explanations,
//! command wrapping, output cleaning and decoding, SFTP paths and the
//! trust-on-first-use host key rule.

use vstd::prelude::*;
use vstd::utf8::{decode_utf8, valid_utf8};
use base64::Engine;
use crate::config::{find_in, jump_chain_too_deep_msg, server_not_found_msg, AppConfig, OsType, ServerConfig};
use crate::backend::{as_ints, find_server_index, prefix_chars, server_index, take_chars};
use crate::config::AuthConfig;
use crate::text::{
    ascii_lower, ascii_lower_exec, chars_of, contains, contains_exec, decimal, ends_with_exec,
    is_blank, join, join_exec, lines, lines_exec, owned, push_char, push_chars, push_decimal,
    replace_all, replace_all_exec, replace_char, replace_char_exec, split_char, split_char_exec,
    starts_with, starts_with_exec, str_contains, string_of, to_lowercase, trim, trim_exec,
    unicode_lowercase, views_of_vecs, lemma_join_push, copy_chars, is_ws, trim_start, trim_end, strip_cr,
    ltrim_lines, rtrim_lines, lemma_trim_start_facts, lemma_trim_end_facts, lemma_trim_of_trimmed,
    lemma_split_join, lemma_split_pieces, lemma_split_nonempty, lemma_trim_start_join, lemma_trim_end_join,
};

verus! {

// ---------------------------------------------------------------------
// Route descriptions
// ---------------------------------------------------------------------

/// "(host:port)".
pub open spec fn host_port(server: ServerConfig) -> Seq<char> {
    " ("@ + server.host@ + ":"@ + decimal(server.port as nat) + ")"@
}

/// How this machine reaches a server: through its jump server (named by
/// the jump server's name when it is configured, else by its id) or directly.
pub open spec fn spec_describe_route(config: AppConfig, server: ServerConfig) -> Seq<char> {
    match server.jump_server_id {
        Some(jump_id) => {
            let jump_name = match find_in(config.servers@, jump_id@) {
                Some(jump) => jump.name@,
                None => jump_id@,
            };
            "经跳板机 "@ + jump_name + " → "@ + server.name@ + host_port(server)
        },
        None => "直连 "@ + server.name@ + host_port(server),
    }
}

fn push_host_port(s: &mut String, server: &ServerConfig)
    ensures
        final(s)@ == old(s)@ + host_port(*server),
{
    s.append(" (");
    s.append(server.host.as_str());
    s.append(":");
    push_decimal(s, server.port as u64);
    s.append(")");
    assert(final(s)@ =~= old(s)@ + host_port(*server));
}

pub fn describe_route(config: &AppConfig, server: &ServerConfig) -> (r: String)
    ensures
        r@ == spec_describe_route(*config, *server),
{
    match &server.jump_server_id {
        Some(jump_id) => {
            let mut text = owned("经跳板机 ");
            match config.find_server(jump_id.as_str()) {
                Ok(jump) => text.append(jump.name.as_str()),
                Err(_) => text.append(jump_id.as_str()),
            }
            text.append(" → ");
            text.append(server.name.as_str());
            push_host_port(&mut text, server);
            text
        },
        None => {
            let mut text = owned("直连 ");
            text.append(server.name.as_str());
            push_host_port(&mut text, server);
            text
        },
    }
}

/// Path of an established connection: through the given jump server or direct.
pub open spec fn spec_describe_connection(jump: Option<ServerConfig>, server: ServerConfig) -> Seq<
    char,
> {
    match jump {
        Some(j) => "经跳板机 "@ + j.name@ + " ("@ + j.host@ + ") → "@ + server.name@ + host_port(
            server,
        ),
        None => "直连 "@ + server.name@ + host_port(server),
    }
}

pub fn describe_connection(jump: Option<&ServerConfig>, server: &ServerConfig) -> (r: String)
    ensures
        r@ == spec_describe_connection(
            match jump {
                Some(j) => Some(*j),
                None => None,
            },
            *server,
        ),
{
    match jump {
        Some(j) => {
            let mut text = owned("经跳板机 ");
            text.append(j.name.as_str());
            text.append(" (");
            text.append(j.host.as_str());
            text.append(") → ");
            text.append(server.name.as_str());
            push_host_port(&mut text, server);
            text
        },
        None => {
            let mut text = owned("直连 ");
            text.append(server.name.as_str());
            push_host_port(&mut text, server);
            text
        },
    }
}

// ---------------------------------------------------------------------
// Connection error explanations
// ---------------------------------------------------------------------

pub open spec fn rdp_hint(server: ServerConfig) -> Seq<char> {
    if server.port == 3389 {
        " 端口 3389 通常是 RDP，本工具测试连接走 SSH 协议；请改为 OpenSSH 端口（默认 22），并确认已安装/启用 OpenSSH Server。"@
    } else if server.os == OsType::Windows {
        " Windows 请确认已开启 OpenSSH Server，端口一般为 22（不是 RDP 的 3389）。"@
    } else {
        Seq::empty()
    }
}

pub open spec fn is_refused(lower: Seq<char>) -> bool {
    ||| contains(lower, "connection refused"@)
    ||| contains(lower, "actively refused"@)
    ||| contains(lower, "拒绝"@)
    ||| (contains(lower, "wsaconnect"@) && contains(lower, "10061"@))
}

pub open spec fn is_timeout(lower: Seq<char>) -> bool {
    ||| contains(lower, "timed out"@)
    ||| contains(lower, "timeout"@)
    ||| contains(lower, "time out"@)
    ||| contains(lower, "10060"@)
}

pub open spec fn is_handshake(lower: Seq<char>) -> bool {
    ||| contains(lower, "handshake"@)
    ||| contains(lower, "protocol"@)
    ||| (contains(lower, "ssh"@) && (contains(lower, "banner"@) || contains(lower, "version"@)))
    ||| contains(lower, "reset by peer"@)
    ||| contains(lower, "forcibly closed"@)
    ||| contains(lower, "10054"@)
}

pub open spec fn is_unreachable(lower: Seq<char>) -> bool {
    ||| contains(lower, "no route"@)
    ||| contains(lower, "network unreachable"@)
    ||| contains(lower, "11001"@)
}

/// A plain-language explanation of a connection failure whose full error
/// text is `raw`, chosen by the first matching class (refused, timeout,
/// handshake, unreachable) of its ASCII-lowercased form.
pub open spec fn spec_explain_connect_error(raw: Seq<char>, server: ServerConfig) -> Seq<char> {
    let lower = ascii_lower(raw);
    let address = server.host@ + ":"@ + decimal(server.port as nat);
    let hint = rdp_hint(server);
    if is_refused(lower) {
        "连接被拒绝（"@ + address + "）。目标未在该端口监听 SSH，或防火墙拦截。"@ + hint
    } else if is_timeout(lower) {
        "连接超时（"@ + address + "）。请检查主机地址、网络与防火墙。"@ + hint
    } else if is_handshake(lower) {
        "SSH 协议握手失败（"@ + address
            + "）。端口可达但对方不是 SSH 服务（例如填了 RDP 3389），或 OpenSSH 未正常工作。"@ + hint
    } else if is_unreachable(lower) {
        "无法到达主机（"@ + address + "）。请检查地址与网络。"@
    } else {
        "连接服务器 "@ + server.name@ + "（"@ + address + "）失败："@ + raw + hint
    }
}

fn has(lower: &[char], pat: &str) -> (b: bool)
    ensures
        b == contains(lower@, pat@),
{
    let p = chars_of(pat);
    contains_exec(lower, p.as_slice())
}

/// Explains a connection error given its full text (`{:#}` of the error).
pub fn explain_connect_error(raw: &str, server: &ServerConfig) -> (r: String)
    ensures
        r@ == spec_explain_connect_error(raw@, *server),
{
    let raw_chars = chars_of(raw);
    let lower_vec = ascii_lower_exec(raw_chars.as_slice());
    let lower = lower_vec.as_slice();
    let mut address = owned(server.host.as_str());
    address.append(":");
    push_decimal(&mut address, server.port as u64);
    let hint = if server.port == 3389 {
        " 端口 3389 通常是 RDP，本工具测试连接走 SSH 协议；请改为 OpenSSH 端口（默认 22），并确认已安装/启用 OpenSSH Server。"
    } else if server.os == OsType::Windows {
        " Windows 请确认已开启 OpenSSH Server，端口一般为 22（不是 RDP 的 3389）。"
    } else {
        ""
    };
    proof {
        reveal_strlit("");
    }
    assert(hint@ == rdp_hint(*server));
    let refused = has(lower, "connection refused") || has(lower, "actively refused") || has(
        lower,
        "拒绝",
    ) || (has(lower, "wsaconnect") && has(lower, "10061"));
    if refused {
        let mut text = owned("连接被拒绝（");
        text.append(address.as_str());
        text.append("）。目标未在该端口监听 SSH，或防火墙拦截。");
        text.append(hint);
        return text;
    }
    let timeout = has(lower, "timed out") || has(lower, "timeout") || has(lower, "time out") || has(
        lower,
        "10060",
    );
    if timeout {
        let mut text = owned("连接超时（");
        text.append(address.as_str());
        text.append("）。请检查主机地址、网络与防火墙。");
        text.append(hint);
        return text;
    }
    let handshake = has(lower, "handshake") || has(lower, "protocol") || (has(lower, "ssh") && (has(
        lower,
        "banner",
    ) || has(lower, "version"))) || has(lower, "reset by peer") || has(lower, "forcibly closed")
        || has(lower, "10054");
    if handshake {
        let mut text = owned("SSH 协议握手失败（");
        text.append(address.as_str());
        text.append(
            "）。端口可达但对方不是 SSH 服务（例如填了 RDP 3389），或 OpenSSH 未正常工作。",
        );
        text.append(hint);
        return text;
    }
    let unreachable = has(lower, "no route") || has(lower, "network unreachable") || has(
        lower,
        "11001",
    );
    if unreachable {
        let mut text = owned("无法到达主机（");
        text.append(address.as_str());
        text.append("）。请检查地址与网络。");
        return text;
    }
    let mut text = owned("连接服务器 ");
    text.append(server.name.as_str());
    text.append("（");
    text.append(address.as_str());
    text.append("）失败：");
    text.append(raw);
    text.append(hint);
    text
}

} // verus!

verus! {

// ---------------------------------------------------------------------
// Command output
// ---------------------------------------------------------------------

/// PowerShell progress records serialised as CLIXML, which a
/// non-interactive session prints and which carry no real output.
pub open spec fn spec_is_clixml_noise(line: Seq<char>) -> bool {
    let t = trim(line);
    starts_with(t, "#< CLIXML"@) || contains(t, "http://schemas.microsoft.com/powershell/2004"@)
}

pub fn is_clixml_noise(line: &str) -> (b: bool)
    ensures
        b == spec_is_clixml_noise(line@),
{
    let chars = chars_of(line);
    noise_chars(chars.as_slice())
}

fn noise_chars(line: &[char]) -> (b: bool)
    ensures
        b == spec_is_clixml_noise(line@),
{
    let t = trim_exec(line);
    let marker = chars_of("#< CLIXML");
    let schema = chars_of("http://schemas.microsoft.com/powershell/2004");
    starts_with_exec(t.as_slice(), marker.as_slice()) || contains_exec(
        t.as_slice(),
        schema.as_slice(),
    )
}

/// The lines that are not CLIXML noise.
pub open spec fn kept_lines(ls: Seq<Seq<char>>) -> Seq<Seq<char>>
    decreases ls.len(),
{
    if ls.len() == 0 {
        Seq::empty()
    } else if spec_is_clixml_noise(ls.last()) {
        kept_lines(ls.drop_last())
    } else {
        kept_lines(ls.drop_last()).push(ls.last())
    }
}

/// The text without CLIXML noise lines, lines joined by '\n', trimmed.
pub open spec fn spec_strip_clixml(text: Seq<char>) -> Seq<char> {
    trim(join(kept_lines(lines(text)), "\n"@))
}

/// A line that `str::lines` leaves ending in a carriage return: one that
/// ended in "\r\r\n", or a last line ending in '\r'.
pub open spec fn ends_in_cr(line: Seq<char>) -> bool {
    line.len() > 0 && line.last() == '\r'
}

/// Lines as cleaning leaves them: none holds a line break or is noise.
spec fn clean_lines(k: Seq<Seq<char>>) -> bool {
    forall|i: int| 0 <= i < k.len() ==> !(#[trigger] k[i]).contains('\n') && !spec_is_clixml_noise(k[i])
}

/// The lines of the cleaned output: the lines that are not noise, with the
/// blank ones at either end dropped and the first and last trimmed.
pub open spec fn clixml_output_lines(text: Seq<char>) -> Seq<Seq<char>> {
    rtrim_lines(ltrim_lines(kept_lines(lines(text))))
}

/// The first line starts and the last line ends with a character that is
/// not whitespace.
spec fn edges_trimmed(k: Seq<Seq<char>>) -> bool {
    k.len() > 0 ==> {
        &&& k[0].len() > 0
        &&& !is_ws(k[0][0])
        &&& k.last().len() > 0
        &&& !is_ws(k.last().last())
    }
}

proof fn lemma_lines_hold_no_break(text: Seq<char>)
    ensures
        forall|i: int| 0 <= i < lines(text).len() ==> !(#[trigger] lines(text)[i]).contains('\n'),
{
    lemma_split_pieces(text, '\n');
    lemma_split_nonempty(text, '\n');
    let p = split_char(text, '\n');
    assert forall|i: int| 0 <= i < lines(text).len() implies !(#[trigger] lines(text)[i]).contains('\n') by {
        assert(!p[i].contains('\n'));
        if i < p.len() - 1 {
            assert(lines(text)[i] == strip_cr(p[i]));
            if strip_cr(p[i]).contains('\n') {
                let k = choose|k: int| 0 <= k < strip_cr(p[i]).len() && strip_cr(p[i])[k] == '\n';
                assert(p[i][k] == '\n');
            }
        } else {
            assert(lines(text)[i] == p.last());
        }
    }
}

proof fn lemma_kept_lines_clean(ls: Seq<Seq<char>>)
    requires
        forall|i: int| 0 <= i < ls.len() ==> !(#[trigger] ls[i]).contains('\n'),
    ensures
        clean_lines(kept_lines(ls)),
    decreases ls.len(),
{
    if ls.len() > 0 {
        let front = ls.drop_last();
        assert forall|i: int| 0 <= i < front.len() implies !(#[trigger] front[i]).contains('\n') by {
            assert(front[i] == ls[i]);
        }
        lemma_kept_lines_clean(front);
        let k = kept_lines(front);
        if !spec_is_clixml_noise(ls.last()) {
            assert forall|i: int| 0 <= i < k.push(ls.last()).len() implies {
                &&& !(#[trigger] k.push(ls.last())[i]).contains('\n')
                &&& !spec_is_clixml_noise(k.push(ls.last())[i])
            } by {
                if i < k.len() {
                    assert(k.push(ls.last())[i] == k[i]);
                } else {
                    assert(k.push(ls.last())[i] == ls[ls.len() - 1]);
                }
            }
        }
    }
}

proof fn lemma_kept_lines_all(k: Seq<Seq<char>>)
    requires
        forall|i: int| 0 <= i < k.len() ==> !spec_is_clixml_noise(#[trigger] k[i]),
    ensures
        kept_lines(k) == k,
    decreases k.len(),
{
    if k.len() > 0 {
        let front = k.drop_last();
        assert forall|i: int| 0 <= i < front.len() implies !spec_is_clixml_noise(#[trigger] front[i]) by {
            assert(front[i] == k[i]);
        }
        lemma_kept_lines_all(front);
        assert(!spec_is_clixml_noise(k[k.len() - 1]));
        assert(front.push(k.last()) =~= k);
    }
}

proof fn lemma_ltrim_lines_clean(k: Seq<Seq<char>>)
    requires
        clean_lines(k),
    ensures
        clean_lines(ltrim_lines(k)),
        ltrim_lines(k).len() > 0 ==> ltrim_lines(k)[0].len() > 0 && !is_ws(ltrim_lines(k)[0][0]),
    decreases k.len(),
{
    if k.len() > 0 {
        let t = trim_start(k[0]);
        if t.len() == 0 {
            let rest = k.drop_first();
            assert forall|i: int| 0 <= i < rest.len() implies {
                &&& !(#[trigger] rest[i]).contains('\n')
                &&& !spec_is_clixml_noise(rest[i])
            } by {
                assert(rest[i] == k[i + 1]);
            }
            lemma_ltrim_lines_clean(rest);
        } else {
            lemma_trim_start_facts(k[0]);
            lemma_trim_of_trimmed(k[0]);
            let m = k[0].len() - t.len();
            assert(!t.contains('\n')) by {
                if t.contains('\n') {
                    let j = choose|j: int| 0 <= j < t.len() && t[j] == '\n';
                    assert(k[0][m + j] == '\n');
                    assert(k[0].contains('\n'));
                }
            }
            assert(t.last() == k[0].last());
            let u = k.update(0, t);
            assert forall|i: int| 0 <= i < u.len() implies {
                &&& !(#[trigger] u[i]).contains('\n')
                &&& !spec_is_clixml_noise(u[i])
            } by {
                if i > 0 {
                    assert(u[i] == k[i]);
                }
            }
        }
    }
}

proof fn lemma_rtrim_lines_clean(k: Seq<Seq<char>>)
    requires
        clean_lines(k),
        k.len() > 0 ==> k[0].len() > 0 && !is_ws(k[0][0]),
    ensures
        clean_lines(rtrim_lines(k)),
        edges_trimmed(rtrim_lines(k)),
    decreases k.len(),
{
    if k.len() > 0 {
        let n = k.len() - 1;
        let t = trim_end(k.last());
        lemma_trim_end_facts(k.last());
        lemma_trim_end_facts(k[0]);
        if t.len() == 0 {
            assert(k.len() > 1) by {
                if k.len() == 1 {
                    assert(k.last() == k[0]);
                }
            }
            let front = k.drop_last();
            assert forall|i: int| 0 <= i < front.len() implies {
                &&& !(#[trigger] front[i]).contains('\n')
                &&& !spec_is_clixml_noise(front[i])
            } by {
                assert(front[i] == k[i]);
            }
            assert(front[0] == k[0]);
            lemma_rtrim_lines_clean(front);
        } else {
            lemma_trim_of_trimmed(k.last());
            assert(!t.contains('\n')) by {
                if t.contains('\n') {
                    let j = choose|j: int| 0 <= j < t.len() && t[j] == '\n';
                    assert(k.last()[j] == '\n');
                    assert(k[n].contains('\n'));
                }
            }
            assert(is_ws('\r'));
            let u = k.update(n, t);
            assert forall|i: int| 0 <= i < u.len() implies {
                &&& !(#[trigger] u[i]).contains('\n')
                &&& !spec_is_clixml_noise(u[i])
            } by {
                if i < n {
                    assert(u[i] == k[i]);
                }
            }
            if n == 0 {
                assert(t[0] == k[0][0]);
            } else {
                assert(u[0] == k[0]);
            }
        }
    }
}

/// Lines already clean, joined and trimmed, come out of cleaning unchanged.
proof fn lemma_clean_lines_fixed(k: Seq<Seq<char>>)
    requires
        clean_lines(k),
        edges_trimmed(k),
        forall|i: int| 0 <= i < k.len() - 1 ==> !ends_in_cr(#[trigger] k[i]),
    ensures
        spec_strip_clixml(join(k, seq!['\n'])) == join(k, seq!['\n']),
{
    reveal_strlit("\n");
    let nl = seq!['\n'];
    assert("\n"@ =~= nl);
    let t = join(k, nl);
    if k.len() == 0 {
        assert(split_char(t, '\n') =~= seq![Seq::<char>::empty()]);
        assert(lines(t) =~= Seq::<Seq<char>>::empty());
        assert(trim_start(t) == t);
        assert(trim_end(t) == t);
    } else {
        lemma_split_join(k, '\n');
        let ended = k.drop_last().map_values(|l: Seq<char>| strip_cr(l));
        assert(ended =~= k.drop_last()) by {
            assert forall|i: int| 0 <= i < ended.len() implies ended[i] == k.drop_last()[i] by {
                assert(!ends_in_cr(k[i]));
            }
            assert(is_ws('\r'));
            assert(!ends_in_cr(k.last()));
        }
        assert(lines(t) =~= k);
        assert forall|i: int| 0 <= i < k.len() implies !spec_is_clixml_noise(#[trigger] k[i]) by {}
        lemma_kept_lines_all(k);
        lemma_trim_start_join(k);
        assert(trim_start(k[0]) == k[0]);
        assert(k.update(0, k[0]) =~= k);
        lemma_trim_end_join(k);
        assert(trim_end(k.last()) == k.last());
        assert(k.update(k.len() - 1, k.last()) =~= k);
    }
}

/// Cleaning output twice gives what cleaning it once gives, unless a line
/// of the cleaned output other than the last ends in a carriage return
/// (it came from a line ending in "\r\r\n", or from a blank line ending
/// in '\r' between two others): the second pass would take that carriage
/// return away (see `lemma_strip_clixml_changes_on_inner_cr`).
pub proof fn lemma_strip_clixml_idempotent(text: Seq<char>)
    requires
        forall|i: int| 0 <= i < clixml_output_lines(text).len() - 1 ==> !ends_in_cr(#[trigger] clixml_output_lines(text)[i]),
    ensures
        spec_strip_clixml(spec_strip_clixml(text)) == spec_strip_clixml(text),
{
    lemma_strip_clixml_output_lines(text);
    lemma_clean_lines_fixed(clixml_output_lines(text));
}

proof fn lemma_join_len_push(parts: Seq<Seq<char>>, x: Seq<char>)
    ensures
        join(parts.push(x), seq!['\n']).len() == join(parts, seq!['\n']).len() + (if parts.len() == 0 { 0int } else { 1int }) + x.len(),
{
    lemma_join_push(parts, seq!['\n'], x);
}

/// Joining shorter lines gives a shorter text.
proof fn lemma_join_shorter(a: Seq<Seq<char>>, b: Seq<Seq<char>>, i: int)
    requires
        a.len() == b.len(),
        forall|k: int| 0 <= k < a.len() ==> (#[trigger] a[k]).len() <= b[k].len(),
    ensures
        join(a, seq!['\n']).len() <= join(b, seq!['\n']).len(),
        0 <= i < a.len() && a[i].len() < b[i].len() ==> join(a, seq!['\n']).len() < join(b, seq!['\n']).len(),
    decreases a.len(),
{
    if a.len() > 0 {
        let ad = a.drop_last();
        let bd = b.drop_last();
        assert forall|k: int| 0 <= k < ad.len() implies (#[trigger] ad[k]).len() <= bd[k].len() by {
            assert(ad[k] == a[k]);
            assert(bd[k] == b[k]);
        }
        lemma_join_shorter(ad, bd, i);
        assert(ad.push(a.last()) =~= a);
        assert(bd.push(b.last()) =~= b);
        lemma_join_len_push(ad, a.last());
        lemma_join_len_push(bd, b.last());
        if 0 <= i < ad.len() {
            assert(ad[i] == a[i]);
            assert(bd[i] == b[i]);
        }
    }
}

/// Dropping noise lines never makes the joined text longer.
proof fn lemma_kept_join_shorter(ls: Seq<Seq<char>>)
    ensures
        kept_lines(ls).len() <= ls.len(),
        join(kept_lines(ls), seq!['\n']).len() <= join(ls, seq!['\n']).len(),
    decreases ls.len(),
{
    if ls.len() > 0 {
        let front = ls.drop_last();
        lemma_kept_join_shorter(front);
        assert(front.push(ls.last()) =~= ls);
        lemma_join_len_push(front, ls.last());
        lemma_join_len_push(kept_lines(front), ls.last());
    }
}

/// The restriction above is exact: when a line of the cleaned output other
/// than the last ends in a carriage return, cleaning the output again
/// removes that carriage return and so changes the output.
pub proof fn lemma_strip_clixml_changes_on_inner_cr(text: Seq<char>, i: int)
    requires
        0 <= i < clixml_output_lines(text).len() - 1,
        ends_in_cr(clixml_output_lines(text)[i]),
    ensures
        spec_strip_clixml(spec_strip_clixml(text)) != spec_strip_clixml(text),
{
    reveal_strlit("\n");
    let nl = seq!['\n'];
    assert("\n"@ =~= nl);
    lemma_strip_clixml_output_lines(text);
    let k = clixml_output_lines(text);
    let t = join(k, nl);
    lemma_split_join(k, '\n');
    let ended = k.drop_last().map_values(|l: Seq<char>| strip_cr(l));
    let l2 = ended.push(k.last());
    assert(lines(t) == l2);
    assert forall|j: int| 0 <= j < l2.len() implies (#[trigger] l2[j]).len() <= k[j].len() by {
        if j < k.len() - 1 {
            assert(l2[j] == strip_cr(k[j]));
        }
    }
    assert(l2[i] == strip_cr(k[i]));
    lemma_join_shorter(l2, k, i);
    lemma_kept_join_shorter(l2);
    let j2 = join(kept_lines(l2), nl);
    lemma_trim_start_facts(j2);
    lemma_trim_end_facts(trim_start(j2));
    assert(spec_strip_clixml(t) == trim(j2));
    assert(spec_strip_clixml(t).len() < t.len());
}

/// The cleaned output is its lines joined by '\n'; they hold no line break,
/// none is noise, and the first starts and the last ends with a character
/// that is not whitespace.
proof fn lemma_strip_clixml_output_lines(text: Seq<char>)
    ensures
        spec_strip_clixml(text) == join(clixml_output_lines(text), seq!['\n']),
        clean_lines(clixml_output_lines(text)),
        edges_trimmed(clixml_output_lines(text)),
{
    reveal_strlit("\n");
    let nl = seq!['\n'];
    assert("\n"@ =~= nl);
    let ls = lines(text);
    lemma_lines_hold_no_break(text);
    lemma_kept_lines_clean(ls);
    let k = kept_lines(ls);
    lemma_ltrim_lines_clean(k);
    let k1 = ltrim_lines(k);
    lemma_rtrim_lines_clean(k1);
    lemma_trim_start_join(k);
    lemma_trim_end_join(k1);
}

pub fn strip_clixml(text: &str) -> (r: String)
    ensures
        r@ == spec_strip_clixml(text@),
{
    let chars = chars_of(text);
    let ls = lines_exec(chars.as_slice());
    let mut kept: Vec<Vec<char>> = Vec::new();
    let mut i: usize = 0;
    while i < ls.len()
        invariant
            i <= ls@.len(),
            views_of_vecs(kept@) == kept_lines(views_of_vecs(ls@).take(i as int)),
        decreases ls.len() - i,
    {
        let ghost before = views_of_vecs(ls@).take(i as int);
        assert(views_of_vecs(ls@).take(i + 1).drop_last() =~= before);
        assert(views_of_vecs(ls@).take(i + 1).last() == ls@[i as int]@);
        if !noise_chars(ls[i].as_slice()) {
            let line = string_of(ls[i].as_slice());
            let line_chars = chars_of(line.as_str());
            let ghost kept_before = views_of_vecs(kept@);
            kept.push(line_chars);
            assert(views_of_vecs(kept@) =~= kept_before.push(ls@[i as int]@));
        }
        i = i + 1;
    }
    assert(views_of_vecs(ls@).take(ls@.len() as int) =~= views_of_vecs(ls@));
    let nl = chars_of("\n");
    let joined = join_exec(&kept, nl.as_slice());
    let trimmed = trim_exec(joined.as_slice());
    string_of(trimmed.as_slice())
}

/// Lines of a byte stream that are complete, each with its ending '\n'
/// (byte 10), and the bytes after the last '\n', which wait for more output.
pub open spec fn complete_lines(b: Seq<u8>) -> (Seq<Seq<u8>>, Seq<u8>)
    decreases b.len(),
{
    if b.len() == 0 {
        (Seq::empty(), Seq::empty())
    } else {
        let before = complete_lines(b.drop_last());
        if b.last() == 10 {
            (before.0.push(before.1.push(10u8)), Seq::empty())
        } else {
            (before.0, before.1.push(b.last()))
        }
    }
}

pub open spec fn byte_views(v: Seq<Vec<u8>>) -> Seq<Seq<u8>> {
    v.map_values(|x: Vec<u8>| x@)
}

/// Splits buffered output into its complete lines and the rest.
pub fn split_complete_lines(buf: &[u8]) -> (r: (Vec<Vec<u8>>, Vec<u8>))
    ensures
        (byte_views(r.0@), r.1@) == complete_lines(buf@),
{
    let mut done: Vec<Vec<u8>> = Vec::new();
    let mut cur: Vec<u8> = Vec::new();
    let mut i: usize = 0;
    assert(buf@.take(0) =~= Seq::<u8>::empty());
    assert(byte_views(done@) =~= Seq::<Seq<u8>>::empty());
    while i < buf.len()
        invariant
            i <= buf@.len(),
            (byte_views(done@), cur@) == complete_lines(buf@.take(i as int)),
        decreases buf.len() - i,
    {
        let b = buf[i];
        assert(buf@.take(i + 1).drop_last() =~= buf@.take(i as int));
        assert(buf@.take(i + 1).last() == b);
        cur.push(b);
        if b == 10 {
            let ghost before = byte_views(done@);
            let line = cur;
            cur = Vec::new();
            done.push(line);
            assert(byte_views(done@) =~= before.push(line@));
            assert(cur@ =~= Seq::<u8>::empty());
        }
        i = i + 1;
    }
    assert(buf@.take(buf@.len() as int) =~= buf@);
    (done, cur)
}

/// Whether extended data of an SSH channel is the command's standard error
/// (data type 1).
pub fn is_stderr_stream(data_type: u32) -> (r: bool)
    ensures
        r == (data_type == 1),
{
    data_type == 1
}

/// Result of a remote command.
#[derive(Clone, Debug)]
pub struct ExecOutput {
    pub exit_code: u32,
    pub stdout: String,
    pub stderr: String,
}

/// Cleaned standard output, then cleaned standard error on its own line
/// when there is any.
pub open spec fn spec_combined(stdout: Seq<char>, stderr: Seq<char>) -> Seq<char> {
    let text = spec_strip_clixml(stdout);
    let err = spec_strip_clixml(stderr);
    if err.len() == 0 {
        text
    } else if text.len() == 0 {
        err
    } else {
        text + "\n"@ + err
    }
}

impl ExecOutput {
    pub fn success(&self) -> (b: bool)
        ensures
            b == (self.exit_code == 0),
    {
        self.exit_code == 0
    }

    pub fn combined(&self) -> (r: String)
        ensures
            r@ == spec_combined(self.stdout@, self.stderr@),
    {
        let mut text = strip_clixml(self.stdout.as_str());
        let stderr = strip_clixml(self.stderr.as_str());
        if !stderr.as_str().is_empty() {
            if !text.as_str().is_empty() {
                push_char(&mut text, '\n');
                proof {
                    reveal_strlit("\n");
                }
            }
            text.append(stderr.as_str());
        }
        text
    }
}

// ---------------------------------------------------------------------
// Shell and PowerShell command lines
// ---------------------------------------------------------------------

/// Single quotes closed, escaped and reopened: `'` becomes `'\''`.
pub open spec fn sh_escape(value: Seq<char>) -> Seq<char> {
    replace_all(value, "'"@, "'\\''"@)
}

fn sh_escape_exec(value: &str) -> (r: Vec<char>)
    ensures
        r@ == sh_escape(value@),
{
    proof {
        reveal_strlit("'");
    }
    let v = chars_of(value);
    let q = chars_of("'");
    let e = chars_of("'\\''");
    replace_all_exec(v.as_slice(), q.as_slice(), e.as_slice())
}

/// `sh -lc '<script>'` with the script's single quotes escaped.
pub open spec fn spec_shell_command(script: Seq<char>) -> Seq<char> {
    "sh -lc '"@ + sh_escape(script) + "'"@
}

pub fn shell_command(script: &str) -> (r: String)
    ensures
        r@ == spec_shell_command(script@),
{
    let escaped = sh_escape_exec(script);
    let mut out = owned("sh -lc '");
    push_chars(&mut out, escaped.as_slice());
    out.append("'");
    out
}

/// A value in single quotes for `sh`.
pub open spec fn spec_sh_single_quote(value: Seq<char>) -> Seq<char> {
    "'"@ + sh_escape(value) + "'"@
}

/// How `sh` reads a word built of single-quoted runs and backslash escapes
/// (`quoted` tells whether a single quote is open): inside quotes every
/// character but `'` stands for itself and `'` closes the run; outside,
/// `'` opens a run and a backslash stands for the character after it. A
/// word that ends inside quotes, ends in a lone backslash or holds any other
/// unquoted character is not of this form (`None`).
pub open spec fn sh_read(word: Seq<char>, quoted: bool) -> Option<Seq<char>>
    decreases word.len(),
{
    if word.len() == 0 {
        if quoted { None } else { Some(Seq::empty()) }
    } else if quoted {
        if word[0] == '\'' {
            sh_read(word.drop_first(), false)
        } else {
            match sh_read(word.drop_first(), true) {
                Some(rest) => Some(seq![word[0]] + rest),
                None => None,
            }
        }
    } else if word[0] == '\'' {
        sh_read(word.drop_first(), true)
    } else if word[0] == '\\' && word.len() >= 2 {
        match sh_read(word.skip(2), false) {
            Some(rest) => Some(seq![word[1]] + rest),
            None => None,
        }
    } else {
        None
    }
}

proof fn lemma_sh_read_escaped(value: Seq<char>)
    ensures
        sh_read(sh_escape(value) + "'"@, true) == Some(value),
    decreases value.len(),
{
    reveal_strlit("'");
    reveal_strlit("'\\''");
    let q = "'"@;
    let e = "'\\''"@;
    let w = sh_escape(value) + q;
    if value.len() == 0 {
        assert(sh_escape(value) =~= Seq::<char>::empty());
        assert(w =~= q);
        assert(w[0] == '\'');
        assert(w.drop_first() =~= Seq::<char>::empty());
        assert(value =~= Seq::<char>::empty());
        assert(sh_read(w, true) == sh_read(w.drop_first(), false));
    } else if starts_with(value, q) {
        let rest = sh_escape(value.skip(1)) + q;
        lemma_sh_read_escaped(value.skip(1));
        assert(sh_escape(value) == e + sh_escape(value.skip(1)));
        assert(w =~= e + rest);
        let x = seq!['\\', '\''] + q + rest;
        assert(w[0] == '\'');
        assert(w.drop_first() =~= x);
        assert(x.skip(2) =~= q + rest);
        assert((q + rest)[0] == '\'');
        assert((q + rest).drop_first() =~= rest);
        assert(sh_read(q + rest, false) == Some(value.skip(1)));
        assert(sh_read(x, false) == Some(seq!['\''] + value.skip(1)));
        assert(value.subrange(0, 1)[0] == value[0]);
        assert(value[0] == '\'');
        assert(seq!['\''] + value.skip(1) =~= value);
        assert(sh_read(w, true) == sh_read(x, false));
    } else {
        let rest = sh_escape(value.skip(1)) + q;
        lemma_sh_read_escaped(value.skip(1));
        assert(sh_escape(value) == seq![value[0]] + sh_escape(value.skip(1)));
        assert(w =~= seq![value[0]] + rest);
        assert(w[0] == value[0]);
        assert(w.drop_first() =~= rest);
        assert(value[0] != '\'') by {
            if value[0] == '\'' {
                assert(value.subrange(0, 1) =~= q);
            }
        }
        assert(seq![value[0]] + value.skip(1) =~= value);
        assert(sh_read(w, true) == Some(seq![w[0]] + value.skip(1)));
    }
}

/// `sh` reads a single-quoted value back as the value itself, whatever
/// quotes it holds; so the script of `shell_command` reaches `sh -lc` as
/// written.
pub proof fn lemma_sh_quote_round_trip(value: Seq<char>)
    ensures
        sh_read(spec_sh_single_quote(value), false) == Some(value),
        spec_shell_command(value) == "sh -lc "@ + spec_sh_single_quote(value),
{
    reveal_strlit("'");
    reveal_strlit("sh -lc '");
    reveal_strlit("sh -lc ");
    lemma_sh_read_escaped(value);
    let w = spec_sh_single_quote(value);
    assert(w =~= "'"@ + (sh_escape(value) + "'"@));
    assert(w.drop_first() =~= sh_escape(value) + "'"@);
    assert(spec_shell_command(value) =~= "sh -lc "@ + w);
}

pub fn sh_single_quote(value: &str) -> (r: String)
    ensures
        r@ == spec_sh_single_quote(value@),
{
    let escaped = sh_escape_exec(value);
    let mut out = owned("'");
    push_chars(&mut out, escaped.as_slice());
    out.append("'");
    out
}

/// The character of a 6-bit value in the standard Base64 alphabet
/// (`A`-`Z`, `a`-`z`, `0`-`9`, `+`, `/`).
pub open spec fn base64_digit(v: int) -> char {
    if v < 26 {
        ('A' as int + v) as char
    } else if v < 52 {
        ('a' as int + (v - 26)) as char
    } else if v < 62 {
        ('0' as int + (v - 52)) as char
    } else if v == 62 {
        '+'
    } else {
        '/'
    }
}

/// Standard Base64 with padding (RFC 4648): every three bytes become four
/// characters of six bits each; a final one or two bytes become two or
/// three characters followed by `=` padding to four.
pub open spec fn base64_standard(bytes: Seq<u8>) -> Seq<char>
    decreases bytes.len(),
{
    if bytes.len() == 0 {
        Seq::empty()
    } else if bytes.len() == 1 {
        let a = bytes[0] as int;
        seq![base64_digit(a / 4), base64_digit((a % 4) * 16), '=', '=']
    } else if bytes.len() == 2 {
        let a = bytes[0] as int;
        let b = bytes[1] as int;
        seq![base64_digit(a / 4), base64_digit((a % 4) * 16 + b / 16), base64_digit((b % 16) * 4), '=']
    } else {
        let a = bytes[0] as int;
        let b = bytes[1] as int;
        let c = bytes[2] as int;
        seq![base64_digit(a / 4), base64_digit((a % 4) * 16 + b / 16), base64_digit((b % 16) * 4 + c / 64), base64_digit(c % 64)]
            + base64_standard(bytes.skip(3))
    }
}

/// Calls `base64::engine::general_purpose::STANDARD.encode`, the standard
/// alphabet with `=` padding, stated as `base64_standard` of the input. The
/// crate panics when the encoded length overflows `usize`, which the bound
/// on the input rules out.
#[verifier::external_body]
fn base64_encode(bytes: &[u8]) -> (r: String)
    requires
        bytes@.len() <= usize::MAX / 2,
    ensures
        r@ == base64_standard(bytes@),
{
    base64::engine::general_purpose::STANDARD.encode(bytes)
}

/// UTF-16 code units of a character.
pub open spec fn utf16_units(c: char) -> Seq<u16> {
    let v = c as u32;
    if v < 0x10000 {
        seq![v as u16]
    } else {
        let u = (v - 0x10000) as u32;
        seq![(0xD800 + u / 0x400) as u16, (0xDC00 + u % 0x400) as u16]
    }
}

/// Little-endian bytes of a code unit.
pub open spec fn le_bytes(u: u16) -> Seq<u8> {
    seq![(u % 256) as u8, (u / 256) as u8]
}

/// UTF-16LE encoding of a character sequence.
pub open spec fn utf16le(s: Seq<char>) -> Seq<u8>
    decreases s.len(),
{
    if s.len() == 0 {
        Seq::empty()
    } else {
        let units = utf16_units(s.last());
        let tail = if units.len() == 1 {
            le_bytes(units[0])
        } else {
            le_bytes(units[0]) + le_bytes(units[1])
        };
        utf16le(s.drop_last()) + tail
    }
}

fn push_le(out: &mut Vec<u8>, u: u16)
    ensures
        final(out)@ == old(out)@ + le_bytes(u),
{
    out.push((u % 256) as u8);
    out.push((u / 256) as u8);
    assert(final(out)@ =~= old(out)@ + le_bytes(u));
}

/// UTF-16LE bytes of a string (`encode_utf16` then `to_le_bytes`).
pub fn utf16le_exec(s: &[char]) -> (r: Vec<u8>)
    requires
        s@.len() <= usize::MAX / 8,
    ensures
        r@ == utf16le(s@),
        r@.len() <= 4 * s@.len(),
{
    let mut out: Vec<u8> = Vec::new();
    let mut i: usize = 0;
    assert(s@.take(0) =~= Seq::<char>::empty());
    while i < s.len()
        invariant
            i <= s@.len(),
            out@ == utf16le(s@.take(i as int)),
            out@.len() <= 4 * i,
        decreases s.len() - i,
    {
        let c = s[i];
        let v: u32 = c as u32;
        let ghost before = out@;
        if v < 0x10000 {
            push_le(&mut out, v as u16);
        } else {
            let u: u32 = v - 0x10000;
            push_le(&mut out, (0xD800 + u / 0x400) as u16);
            push_le(&mut out, (0xDC00 + u % 0x400) as u16);
        }
        assert(s@.take(i + 1).drop_last() =~= s@.take(i as int));
        assert(s@.take(i + 1).last() == c);
        i = i + 1;
        assert(out@ =~= utf16le(s@.take(i as int)));
    }
    assert(s@.take(s@.len() as int) =~= s@);
    out
}

pub open spec fn powershell_prefix() -> Seq<char> {
    "$ProgressPreference = 'SilentlyContinue'\n"@
}

/// A PowerShell command line running the script through `-EncodedCommand`
/// (Base64 of its UTF-16LE text), with the progress stream switched off.
pub open spec fn spec_powershell_command(script: Seq<char>) -> Seq<char> {
    "powershell -NoLogo -NoProfile -NonInteractive -ExecutionPolicy Bypass -EncodedCommand "@
        + base64_standard(utf16le(powershell_prefix() + script))
}

pub fn powershell_command(script: &str) -> (r: String)
    requires
        script@.len() <= usize::MAX / 16,
    ensures
        r@ == spec_powershell_command(script@),
{
    let mut wrapped = owned("$ProgressPreference = 'SilentlyContinue'\n");
    wrapped.append(script);
    let chars = chars_of(wrapped.as_str());
    proof {
        reveal_strlit("$ProgressPreference = 'SilentlyContinue'\n");
    }
    let bytes = utf16le_exec(chars.as_slice());
    let encoded = base64_encode(bytes.as_slice());
    let mut out = owned(
        "powershell -NoLogo -NoProfile -NonInteractive -ExecutionPolicy Bypass -EncodedCommand ",
    );
    out.append(encoded.as_str());
    out
}

// ---------------------------------------------------------------------
// Decoding remote output
// ---------------------------------------------------------------------

/// Name for what `encoding_rs::GBK.decode` returns for a byte sequence
/// (GBK decoding with BOM sniffing, malformed sequences replaced).
pub uninterp spec fn gbk_decoded(bytes: Seq<u8>) -> Seq<char>;

/// Calls `std::str::from_utf8`: text exactly when the bytes are valid
/// UTF-8, and then the decoded characters.
#[verifier::external_body]
fn utf8_text(bytes: &[u8]) -> (r: Option<String>)
    ensures
        r is Some <==> valid_utf8(bytes@),
        r matches Some(s) ==> s@ == decode_utf8(bytes@),
{
    std::str::from_utf8(bytes).ok().map(|text| text.to_owned())
}

/// Calls `encoding_rs::GBK.decode` and keeps the text; named `gbk_decoded`.
/// The crate panics when the output buffer size overflows `usize` (about
/// three times the input), which the bound on the input rules out.
#[verifier::external_body]
fn gbk_decode(bytes: &[u8]) -> (r: String)
    requires
        bytes@.len() <= usize::MAX / 8,
    ensures
        r@ == gbk_decoded(bytes@),
{
    encoding_rs::GBK.decode(bytes).0.into_owned()
}

/// UTF-8 text when the bytes are valid UTF-8, otherwise GBK (the default
/// code page of a Chinese Windows console).
pub open spec fn spec_decode_output(bytes: Seq<u8>) -> Seq<char> {
    if valid_utf8(bytes) { decode_utf8(bytes) } else { gbk_decoded(bytes) }
}

pub fn decode_output(bytes: &[u8]) -> (r: String)
    requires
        bytes@.len() <= usize::MAX / 8,
    ensures
        r@ == spec_decode_output(bytes@),
{
    match utf8_text(bytes) {
        Some(text) => text,
        None => gbk_decode(bytes),
    }
}

// ---------------------------------------------------------------------
// Operating-system probe
// ---------------------------------------------------------------------

/// The system named in a probe's output, tested on its Unicode lowercase
/// form in the order windows, ubuntu, centos family, linux.
pub open spec fn spec_parse_detected_os(output: Seq<char>) -> Option<Seq<char>> {
    let lower = unicode_lowercase(output);
    if contains(lower, "windows"@) {
        Some("windows"@)
    } else if contains(lower, "ubuntu"@) {
        Some("ubuntu"@)
    } else if contains(lower, "centos"@) || contains(lower, "rhel"@) || contains(lower, "rocky"@)
        || contains(lower, "almalinux"@) {
        Some("centos"@)
    } else if contains(lower, "linux"@) {
        Some("linux"@)
    } else {
        None
    }
}

/// What a probe output is taken for, by the markers in its lowercase form:
/// Windows wins; a distribution is recognised even though the `uname` line
/// of every Linux server also says "linux" ("ubuntu" gives ubuntu, the
/// Red Hat family gives centos); plain "linux" is the answer only when no
/// distribution is named; with no marker at all nothing is detected.
pub proof fn lemma_detected_os_prefers_distribution(output: Seq<char>)
    ensures
        ({
            let lower = unicode_lowercase(output);
            let windows = contains(lower, "windows"@);
            let ubuntu = contains(lower, "ubuntu"@);
            let redhat = contains(lower, "centos"@) || contains(lower, "rhel"@) || contains(lower, "rocky"@)
                || contains(lower, "almalinux"@);
            let linux = contains(lower, "linux"@);
            let r = spec_parse_detected_os(output);
            &&& windows ==> r == Some("windows"@)
            &&& !windows && ubuntu ==> r == Some("ubuntu"@)
            &&& !windows && !ubuntu && redhat ==> r == Some("centos"@)
            &&& r == Some("linux"@) <==> (!windows && !ubuntu && !redhat && linux)
            &&& r is None <==> (!windows && !ubuntu && !redhat && !linux)
        }),
{
    reveal_strlit("windows");
    reveal_strlit("ubuntu");
    reveal_strlit("centos");
    reveal_strlit("linux");
    assert("linux"@ != "windows"@) by {
        assert("linux"@[0] != "windows"@[0]);
    }
    assert("linux"@ != "ubuntu"@) by {
        assert("linux"@[0] != "ubuntu"@[0]);
    }
    assert("linux"@ != "centos"@) by {
        assert("linux"@[0] != "centos"@[0]);
    }
}

pub fn parse_detected_os(output: &str) -> (r: Option<String>)
    ensures
        match r {
            Some(s) => spec_parse_detected_os(output@) == Some(s@),
            None => spec_parse_detected_os(output@) is None,
        },
{
    let lower_string = to_lowercase(output);
    let lower = lower_string.as_str();
    if str_contains(lower, "windows") {
        return Some(owned("windows"));
    }
    if str_contains(lower, "ubuntu") {
        return Some(owned("ubuntu"));
    }
    if str_contains(lower, "centos") || str_contains(lower, "rhel") || str_contains(lower, "rocky")
        || str_contains(lower, "almalinux") {
        return Some(owned("centos"));
    }
    if str_contains(lower, "linux") {
        return Some(owned("linux"));
    }
    None
}

/// The probe command for a system: `uname` and os-release on Linux,
/// `cmd /c ver` on Windows.
pub open spec fn spec_probe_command(os: OsType) -> Seq<char> {
    match os {
        OsType::Linux => spec_shell_command(
            "uname -srm; [ -f /etc/os-release ] && grep -iE '^(ID|ID_LIKE|NAME)=' /etc/os-release"@,
        ),
        OsType::Windows => "cmd /c ver"@,
    }
}

pub fn probe_command(os: OsType) -> (r: String)
    ensures
        r@ == spec_probe_command(os),
{
    match os {
        OsType::Linux => shell_command(
            "uname -srm; [ -f /etc/os-release ] && grep -iE '^(ID|ID_LIKE|NAME)=' /etc/os-release",
        ),
        OsType::Windows => owned("cmd /c ver"),
    }
}

// ---------------------------------------------------------------------
// SFTP sizes and paths
// ---------------------------------------------------------------------

/// SFTP write size for Windows OpenSSH, which is unstable with large packets.
pub const SFTP_WRITE_CHUNK: usize = 32 * 1024;

/// SFTP write size for a target system.
pub fn sftp_write_chunk(os: OsType) -> (r: usize)
    ensures
        r == match os {
            OsType::Windows => 32 * 1024,
            OsType::Linux => 128 * 1024,
        },
{
    match os {
        OsType::Windows => SFTP_WRITE_CHUNK,
        OsType::Linux => 128 * 1024,
    }
}

/// Writes kept in flight per SFTP session.
pub fn sftp_concurrent_writes(os: OsType) -> (r: usize)
    ensures
        r == 4,
{
    match os {
        OsType::Windows => 4,
        OsType::Linux => 4,
    }
}

/// Remote paths use forward slashes.
pub open spec fn spec_to_sftp_path(path: Seq<char>) -> Seq<char> {
    replace_char(path, '\\', '/')
}

pub fn to_sftp_path(path: &str) -> (r: String)
    ensures
        r@ == spec_to_sftp_path(path@),
{
    let chars = chars_of(path);
    let replaced = replace_char_exec(chars.as_slice(), '\\', '/');
    string_of(replaced.as_slice())
}

/// A Windows path as an absolute SFTP path (`/D:/...`).
pub open spec fn spec_windows_sftp_abs(path: Seq<char>) -> Seq<char> {
    let normalized = spec_to_sftp_path(path);
    if normalized.len() > 0 && normalized[0] == '/' { normalized } else { seq!['/'] + normalized }
}

pub fn windows_sftp_abs(path: &str) -> (r: String)
    ensures
        r@ == spec_windows_sftp_abs(path@),
{
    let normalized = to_sftp_path(path);
    let chars = chars_of(normalized.as_str());
    if chars.len() > 0 && chars[0] == '/' {
        normalized
    } else {
        let mut out = owned("/");
        out.append(normalized.as_str());
        proof {
            reveal_strlit("/");
        }
        assert(out@ =~= seq!['/'] + normalized@);
        out
    }
}

} // verus!

verus! {

/// The non-empty pieces.
pub open spec fn nonempty_pieces(ps: Seq<Seq<char>>) -> Seq<Seq<char>>
    decreases ps.len(),
{
    if ps.len() == 0 {
        Seq::empty()
    } else if ps.last().len() == 0 {
        nonempty_pieces(ps.drop_last())
    } else {
        nonempty_pieces(ps.drop_last()).push(ps.last())
    }
}

/// The first `k` segments joined by '/', after a leading '/' for rooted paths.
pub open spec fn prefix_path(segs: Seq<Seq<char>>, k: int, rooted: bool) -> Seq<char>
    decreases k,
{
    if k <= 1 {
        if rooted { seq!['/'] + segs[0] } else { segs[0] }
    } else {
        prefix_path(segs, k - 1, rooted) + seq!['/'] + segs[k - 1]
    }
}

/// The directories that creating `path` recursively visits, shortest first:
/// every prefix of its non-empty segments, except a leading drive segment
/// such as `D:` of an unrooted path.
pub open spec fn spec_mkdir_steps(path: Seq<char>) -> Seq<Seq<char>> {
    let normalized = spec_to_sftp_path(path);
    let segs = nonempty_pieces(split_char(normalized, '/'));
    let rooted = normalized.len() > 0 && normalized[0] == '/';
    let all = Seq::new(segs.len(), |k: int| prefix_path(segs, k + 1, rooted));
    if segs.len() > 0 && !rooted && segs[0].len() > 0 && segs[0].last() == ':' {
        all.drop_first()
    } else {
        all
    }
}


/// The directories to create, in order, for `sftp_mkdir_all(path)`.
pub fn mkdir_steps(path: &str) -> (r: Vec<String>)
    ensures
        crate::text::views(r@) == spec_mkdir_steps(path@),
{
    let normalized = to_sftp_path(path);
    let chars = chars_of(normalized.as_str());
    let rooted = chars.len() > 0 && chars[0] == '/';
    let pieces = split_char_exec(chars.as_slice(), '/');
    let ghost ps = split_char(normalized@, '/');
    let mut segs: Vec<Vec<char>> = Vec::new();
    let mut i: usize = 0;
    while i < pieces.len()
        invariant
            i <= pieces@.len(),
            views_of_vecs(pieces@) == ps,
            views_of_vecs(segs@) == nonempty_pieces(ps.take(i as int)),
        decreases pieces.len() - i,
    {
        assert(ps.take(i + 1).drop_last() =~= ps.take(i as int));
        assert(ps.take(i + 1).last() == pieces@[i as int]@);
        if pieces[i].len() > 0 {
            let ghost before = views_of_vecs(segs@);
            let piece = copy_chars(pieces[i].as_slice());
            segs.push(piece);
            assert(views_of_vecs(segs@) =~= before.push(pieces@[i as int]@));
        }
        i = i + 1;
    }
    assert(ps.take(ps.len() as int) =~= ps);
    let ghost sv = views_of_vecs(segs@);
    let ghost all = Seq::new(sv.len(), |k: int| prefix_path(sv, k + 1, rooted));
    let skip_drive = segs.len() > 0 && !rooted && segs[0].len() > 0 && segs[0][segs[0].len() - 1]
        == ':';
    proof {
        if segs@.len() > 0 {
            assert(sv[0] == segs@[0]@);
            if segs@[0]@.len() > 0 {
                assert(sv[0].last() == segs@[0]@[segs@[0]@.len() - 1]);
            }
        }
    }
    let mut out: Vec<String> = Vec::new();
    let mut cur: Vec<char> = Vec::new();
    let mut j: usize = 0;
    while j < segs.len()
        invariant
            j <= segs@.len(),
            sv == views_of_vecs(segs@),
            all == Seq::new(sv.len(), |k: int| prefix_path(sv, k + 1, rooted)),
            j > 0 ==> cur@ == prefix_path(sv, j as int, rooted),
            skip_drive == (sv.len() > 0 && !rooted && sv[0].len() > 0 && sv[0].last() == ':'),
            crate::text::views(out@) == if skip_drive {
                all.take(j as int).skip(if j > 0 { 1int } else { 0int })
            } else {
                all.take(j as int)
            },
        decreases segs.len() - j,
    {
        let seg = &segs[j];
        assert(sv[j as int] == seg@);
        let ghost before = crate::text::views(out@);
        if j == 0 {
            if rooted {
                let mut c: Vec<char> = Vec::new();
                c.push('/');
                let mut k: usize = 0;
                while k < seg.len()
                    invariant
                        k <= seg@.len(),
                        c@ == seq!['/'] + seg@.take(k as int),
                    decreases seg.len() - k,
                {
                    c.push(seg[k]);
                    k = k + 1;
                    assert(c@ =~= seq!['/'] + seg@.take(k as int));
                }
                assert(seg@.take(seg@.len() as int) =~= seg@);
                cur = c;
            } else {
                cur = copy_chars(seg.as_slice());
            }
        } else {
            cur.push('/');
            let mut k: usize = 0;
            let ghost base = cur@;
            while k < seg.len()
                invariant
                    k <= seg@.len(),
                    cur@ == base + seg@.take(k as int),
                decreases seg.len() - k,
            {
                cur.push(seg[k]);
                k = k + 1;
                assert(cur@ =~= base + seg@.take(k as int));
            }
            assert(seg@.take(seg@.len() as int) =~= seg@);
        }
        assert(cur@ == prefix_path(sv, j + 1, rooted));
        assert(all[j as int] == cur@);
        if !(j == 0 && skip_drive) {
            let s = string_of(cur.as_slice());
            out.push(s);
            assert(crate::text::views(out@) =~= before.push(all[j as int]));
        }
        let ghost jo = j as int;
        j = j + 1;
        proof {
            if skip_drive {
                if j == 1 {
                    assert(crate::text::views(out@) =~= all.take(1).skip(1));
                } else {
                    assert(before =~= all.take(jo).skip(1));
                    assert(all.take(jo).skip(1).push(all[jo]) =~= all.take(jo + 1).skip(1));
                }
            } else {
                assert(before =~= all.take(jo));
                assert(all.take(jo).push(all[jo]) =~= all.take(jo + 1));
            }
        }
    }
    proof {
        assert(all.take(sv.len() as int) =~= all);
        if skip_drive {
            assert(all.take(sv.len() as int).skip(1) =~= all.drop_first());
        }
        assert(normalized@.len() > 0 ==> normalized@[0] == chars@[0]);
    }
    out
}

// ---------------------------------------------------------------------
// Jump chains
// ---------------------------------------------------------------------

/// The servers a connection goes through, by position in `servers`: the
/// first hop first and the target last, each server preceded by its jump
/// server. A missing server is refused, and so is a chain of more than
/// four jumps (which a cycle always is).
pub open spec fn spec_jump_chain(servers: Seq<ServerConfig>, id: Seq<char>, depth: int) -> Result<Seq<int>, Seq<char>>
    decreases 5 - depth,
{
    if depth > 4 || depth < 0 {
        Err(jump_chain_too_deep_msg())
    } else {
        match server_index(servers, id) {
            None => Err(server_not_found_msg(id)),
            Some(i) => match servers[i].jump_server_id {
                None => Ok(seq![i]),
                Some(jump) => match spec_jump_chain(servers, jump@, depth + 1) {
                    Ok(chain) => Ok(chain.push(i)),
                    Err(e) => Err(e),
                },
            },
        }
    }
}

fn jump_chain_from(servers: &Vec<ServerConfig>, id: &str, depth: u8) -> (r: Result<Vec<usize>, String>)
    requires
        depth <= 5,
    ensures
        match r {
            Ok(v) => spec_jump_chain(servers@, id@, depth as int) == Ok::<Seq<int>, Seq<char>>(as_ints(v@)),
            Err(e) => spec_jump_chain(servers@, id@, depth as int) == Err::<Seq<int>, Seq<char>>(e@),
        },
    decreases 5 - depth,
{
    if depth > 4 {
        return Err(owned("跳板机链过深或存在循环引用"));
    }
    match find_server_index(servers, id) {
        None => {
            let mut msg = owned("找不到服务器配置: ");
            msg.append(id);
            Err(msg)
        },
        Some(i) => match &servers[i].jump_server_id {
            None => {
                let mut v: Vec<usize> = Vec::new();
                v.push(i);
                assert(as_ints(v@) =~= seq![i as int]);
                Ok(v)
            },
            Some(jump) => match jump_chain_from(servers, jump.as_str(), depth + 1) {
                Ok(v) => {
                    let mut v = v;
                    let ghost before = v@;
                    v.push(i);
                    assert(as_ints(v@) =~= as_ints(before).push(i as int));
                    Ok(v)
                },
                Err(e) => Err(e),
            },
        },
    }
}

/// The order in which a connection to `server_id` is built: the server
/// positions from the first hop to the target.
pub fn jump_chain(config: &AppConfig, server_id: &str) -> (r: Result<Vec<usize>, String>)
    ensures
        match r {
            Ok(v) => spec_jump_chain(config.servers@, server_id@, 0) == Ok::<Seq<int>, Seq<char>>(as_ints(v@)),
            Err(e) => spec_jump_chain(config.servers@, server_id@, 0) == Err::<Seq<int>, Seq<char>>(e@),
        },
{
    jump_chain_from(&config.servers, server_id, 0)
}

// ---------------------------------------------------------------------
// Host keys: trust on first use
// ---------------------------------------------------------------------

/// What to do with a server's host key fingerprint.
#[derive(Debug, Clone, PartialEq, Eq)]
pub enum HostKeyDecision {
    /// First connection: trust the key and record its fingerprint.
    TrustAndRecord,
    /// The recorded fingerprint matches.
    Trust,
    /// The fingerprint changed; the connection is refused with this message.
    Reject(String),
}

pub open spec fn host_key_changed_msg(host_key_id: Seq<char>, saved: Seq<char>, current: Seq<char>) -> Seq<char> {
    "主机 "@ + host_key_id
        + " 的密钥指纹发生变化！可能存在中间人攻击。\n已保存: "@ + saved + "\n当前: "@ + current
        + "\n如确认服务器已重装，请删除 known_hosts.json 中对应记录"@
}

/// Trust on first use: an unknown host is trusted and recorded, a known
/// host is trusted only with the fingerprint recorded for it.
pub fn host_key_decision(host_key_id: &str, saved: Option<&str>, current: &str) -> (r:
    HostKeyDecision)
    ensures
        match saved {
            None => r == HostKeyDecision::TrustAndRecord,
            Some(s) => if s@ == current@ {
                r == HostKeyDecision::Trust
            } else {
                r matches HostKeyDecision::Reject(msg) && msg@ == host_key_changed_msg(
                    host_key_id@,
                    s@,
                    current@,
                )
            },
        },
{
    match saved {
        None => HostKeyDecision::TrustAndRecord,
        Some(s) => {
            if crate::text::str_eq(s, current) {
                HostKeyDecision::Trust
            } else {
                let mut msg = owned("主机 ");
                msg.append(host_key_id);
                msg.append(" 的密钥指纹发生变化！可能存在中间人攻击。\n已保存: ");
                msg.append(s);
                msg.append("\n当前: ");
                msg.append(current);
                msg.append("\n如确认服务器已重装，请删除 known_hosts.json 中对应记录");
                HostKeyDecision::Reject(msg)
            }
        },
    }
}

/// Key under which a server's fingerprint is recorded: `host:port`.
pub open spec fn spec_host_key_id(server: ServerConfig) -> Seq<char> {
    server.host@ + ":"@ + decimal(server.port as nat)
}

pub fn host_key_id(server: &ServerConfig) -> (r: String)
    ensures
        r@ == spec_host_key_id(*server),
{
    let mut id = owned(server.host.as_str());
    id.append(":");
    push_decimal(&mut id, server.port as u64);
    id
}

// ---------------------------------------------------------------------
// Host key handler state
// ---------------------------------------------------------------------

/// What the SSH client keeps to check a server's host key.
pub struct SshHandler {
    /// `host:port`, the key of the known-hosts record.
    pub host_key_id: String,
}

impl SshHandler {
    pub fn for_server(server: &ServerConfig) -> (r: SshHandler)
        ensures
            r.host_key_id@ == spec_host_key_id(*server),
    {
        SshHandler { host_key_id: host_key_id(server) }
    }

    /// The decision for the fingerprint a server presents, given the one
    /// recorded for it (if any).
    pub fn check_key(&self, saved: Option<&str>, current: &str) -> (r: HostKeyDecision)
        ensures
            match saved {
                None => r == HostKeyDecision::TrustAndRecord,
                Some(s) => if s@ == current@ {
                    r == HostKeyDecision::Trust
                } else {
                    r matches HostKeyDecision::Reject(msg) && msg@ == host_key_changed_msg(self.host_key_id@, s@, current@)
                },
            },
    {
        host_key_decision(self.host_key_id.as_str(), saved, current)
    }
}

// ---------------------------------------------------------------------
// Copying through a Linux jump server
// ---------------------------------------------------------------------

/// A payload left in a temporary directory of the jump server.
pub struct JumpStagedPayload {
    pub work_dir: String,
    pub payload_path: String,
}

/// Where a payload is staged on the jump server: `/tmp/shhd-deploy-<stamp>`
/// and its `payload.bin`.
pub fn jump_staged_payload(stamp: &str) -> (r: JumpStagedPayload)
    ensures
        r.work_dir@ == "/tmp/shhd-deploy-"@ + stamp@,
        r.payload_path@ == "/tmp/shhd-deploy-"@ + stamp@ + "/payload.bin"@,
{
    let mut work_dir = owned("/tmp/shhd-deploy-");
    work_dir.append(stamp);
    let mut payload_path = owned(work_dir.as_str());
    payload_path.append("/payload.bin");
    JumpStagedPayload { work_dir, payload_path }
}

/// The jump server used for staging must run Linux.
pub fn check_jump_server(jump: Option<&ServerConfig>) -> (r: Result<(), String>)
    ensures
        match jump {
            None => r matches Err(e) && e@ == "没有跳板机配置，无法中转上传"@,
            Some(j) => if j.os == OsType::Linux {
                r is Ok
            } else {
                r matches Err(e) && e@ == "跳板机 "@ + j.name@ + " 不是 Linux，无法用内网拷贝中转"@
            },
        },
{
    match jump {
        None => Err(owned("没有跳板机配置，无法中转上传")),
        Some(j) => {
            if j.os == OsType::Linux {
                Ok(())
            } else {
                let mut msg = owned("跳板机 ");
                msg.append(j.name.as_str());
                msg.append(" 不是 Linux，无法用内网拷贝中转");
                Err(msg)
            }
        },
    }
}

/// Files and command that copy a staged payload from the jump server to a
/// Windows server with `scp`, falling back to `sftp` with a password.
pub struct JumpCopyPlan {
    pub askpass_path: String,
    pub batch_path: String,
    pub run_path: String,
    pub askpass: String,
    pub batch: String,
    pub run_script: String,
    pub copy_cmd: String,
}

pub open spec fn spec_run_script(src: Seq<char>, askpass: Seq<char>, batch: Seq<char>, user_host: Seq<char>, remote: Seq<char>) -> Seq<char> {
    "#!/bin/sh\nset -e\nSRC="@ + spec_sh_single_quote(src)
        + "\nASKPASS="@ + spec_sh_single_quote(askpass)
        + "\nBATCH="@ + spec_sh_single_quote(batch)
        + "\nUSERHOST="@ + spec_sh_single_quote(user_host)
        + "\nREMOTE="@ + spec_sh_single_quote(remote)
        + "\nif command -v scp >/dev/null 2>&1; then\n  if scp -o BatchMode=yes -o StrictHostKeyChecking=no -o UserKnownHostsFile=/dev/null \"$SRC\" \"$USERHOST:$REMOTE\"; then\n    exit 0\n  fi\nfi\nif ! command -v sftp >/dev/null 2>&1; then\n  echo \"跳板机缺少 scp/sftp，无法内网拷贝到 Windows\" >&2\n  exit 1\nfi\nexport DISPLAY=\"${DISPLAY:-:0}\"\nexport SSH_ASKPASS=\"$ASKPASS\"\nexport SSH_ASKPASS_REQUIRE=force\nsftp -oPreferredAuthentications=password -oPubkeyAuthentication=no \\\n  -oStrictHostKeyChecking=no -oUserKnownHostsFile=/dev/null \\\n  -b \"$BATCH\" \"$USERHOST\" </dev/null\n"@
}

/// The copy of a staged payload to `windows_remote_path` on a Windows
/// server (user `username` at `host`, with `password`); `tag` makes the
/// helper file names unique.
pub fn jump_copy_plan(
    staging: &JumpStagedPayload,
    tag: &str,
    password: &str,
    username: &str,
    host: &str,
    windows_remote_path: &str,
) -> (r: JumpCopyPlan)
    ensures
        r.askpass_path@ == staging.work_dir@ + "/askpass-"@ + tag@ + ".sh"@,
        r.batch_path@ == staging.work_dir@ + "/batch-"@ + tag@ + ".txt"@,
        r.run_path@ == staging.work_dir@ + "/run-"@ + tag@ + ".sh"@,
        r.askpass@ == "#!/bin/sh\nprintf '%s\\n' "@ + spec_sh_single_quote(password@) + "\n"@,
        r.batch@ == "put "@ + staging.payload_path@ + " "@ + spec_windows_sftp_abs(windows_remote_path@) + "\n"@,
        r.run_script@ == spec_run_script(
            staging.payload_path@,
            r.askpass_path@,
            r.batch_path@,
            username@ + "@"@ + host@,
            spec_windows_sftp_abs(windows_remote_path@),
        ),
        r.copy_cmd@ == "chmod 700 "@ + spec_sh_single_quote(r.askpass_path@) + " "@ + spec_sh_single_quote(r.run_path@)
            + " && sh "@ + spec_sh_single_quote(r.run_path@),
{
    let dest_abs = windows_sftp_abs(windows_remote_path);
    let mut user_host = owned(username);
    user_host.append("@");
    user_host.append(host);
    let mut askpass_path = owned(staging.work_dir.as_str());
    askpass_path.append("/askpass-");
    askpass_path.append(tag);
    askpass_path.append(".sh");
    let mut batch_path = owned(staging.work_dir.as_str());
    batch_path.append("/batch-");
    batch_path.append(tag);
    batch_path.append(".txt");
    let mut run_path = owned(staging.work_dir.as_str());
    run_path.append("/run-");
    run_path.append(tag);
    run_path.append(".sh");
    let mut askpass = owned("#!/bin/sh\nprintf '%s\\n' ");
    let quoted_password = sh_single_quote(password);
    askpass.append(quoted_password.as_str());
    askpass.append("\n");
    let mut batch = owned("put ");
    batch.append(staging.payload_path.as_str());
    batch.append(" ");
    batch.append(dest_abs.as_str());
    batch.append("\n");
    let mut run_script = owned("#!/bin/sh\nset -e\nSRC=");
    let q_src = sh_single_quote(staging.payload_path.as_str());
    run_script.append(q_src.as_str());
    run_script.append("\nASKPASS=");
    let q_askpass = sh_single_quote(askpass_path.as_str());
    run_script.append(q_askpass.as_str());
    run_script.append("\nBATCH=");
    let q_batch = sh_single_quote(batch_path.as_str());
    run_script.append(q_batch.as_str());
    run_script.append("\nUSERHOST=");
    let q_user_host = sh_single_quote(user_host.as_str());
    run_script.append(q_user_host.as_str());
    run_script.append("\nREMOTE=");
    let q_remote = sh_single_quote(dest_abs.as_str());
    run_script.append(q_remote.as_str());
    run_script.append("\nif command -v scp >/dev/null 2>&1; then\n  if scp -o BatchMode=yes -o StrictHostKeyChecking=no -o UserKnownHostsFile=/dev/null \"$SRC\" \"$USERHOST:$REMOTE\"; then\n    exit 0\n  fi\nfi\nif ! command -v sftp >/dev/null 2>&1; then\n  echo \"跳板机缺少 scp/sftp，无法内网拷贝到 Windows\" >&2\n  exit 1\nfi\nexport DISPLAY=\"${DISPLAY:-:0}\"\nexport SSH_ASKPASS=\"$ASKPASS\"\nexport SSH_ASKPASS_REQUIRE=force\nsftp -oPreferredAuthentications=password -oPubkeyAuthentication=no \\\n  -oStrictHostKeyChecking=no -oUserKnownHostsFile=/dev/null \\\n  -b \"$BATCH\" \"$USERHOST\" </dev/null\n");
    let mut copy_cmd = owned("chmod 700 ");
    copy_cmd.append(q_askpass.as_str());
    copy_cmd.append(" ");
    let q_run = sh_single_quote(run_path.as_str());
    copy_cmd.append(q_run.as_str());
    copy_cmd.append(" && sh ");
    copy_cmd.append(q_run.as_str());
    JumpCopyPlan { askpass_path, batch_path, run_path, askpass, batch, run_script, copy_cmd }
}

/// The password a Windows server is reached with from the jump server; the
/// copy needs password authentication.
pub fn jump_copy_password(target: &ServerConfig) -> (r: Result<String, String>)
    ensures
        match target.auth {
            AuthConfig::Password { password } => r matches Ok(p) && p@ == password@,
            AuthConfig::Key { .. } => r matches Err(e) && e@ == "经跳板机中转需要目标 Windows 使用密码认证"@,
        },
{
    match &target.auth {
        AuthConfig::Password { password } => Ok(owned(password.as_str())),
        AuthConfig::Key { .. } => Err(owned("经跳板机中转需要目标 Windows 使用密码认证")),
    }
}

/// Failure of the copy from the jump server: the target's name, the exit
/// code and the first 1500 characters of the output.
pub fn jump_copy_failure_message(server_name: &str, exit_code: u32, combined: &str) -> (r: String)
    ensures
        r@ == "跳板机内网拷贝到 "@ + server_name@ + " 失败(退出码 "@ + decimal(exit_code as nat) + "): "@
            + prefix_chars(combined@, 1500),
{
    let mut m = owned("跳板机内网拷贝到 ");
    m.append(server_name);
    m.append(" 失败(退出码 ");
    push_decimal(&mut m, exit_code as u64);
    m.append("): ");
    let t = take_chars(combined, 1500);
    m.append(t.as_str());
    m
}

/// Removes the jump server's temporary directory: `rm -rf '<dir>'`.
pub fn cleanup_command(staging: &JumpStagedPayload) -> (r: String)
    ensures
        r@ == "rm -rf "@ + spec_sh_single_quote(staging.work_dir@),
{
    let mut cmd = owned("rm -rf ");
    let q = sh_single_quote(staging.work_dir.as_str());
    cmd.append(q.as_str());
    cmd
}

/// The command that runs a script with the server's shell: PowerShell
/// (encoded) on Windows, `sh -lc` on Linux.
pub fn os_command(os: OsType, script: &str) -> (r: String)
    requires
        script@.len() <= usize::MAX / 16,
    ensures
        r@ == match os {
            OsType::Windows => spec_powershell_command(script@),
            OsType::Linux => spec_shell_command(script@),
        },
{
    match os {
        OsType::Windows => powershell_command(script),
        OsType::Linux => shell_command(script),
    }
}

} // verus!
