use base64::Engine;
use kurumi_deploy::config::{AppConfig, AuthConfig, OsType, ServerConfig};
use kurumi_deploy::ssh::{
    check_jump_server, cleanup_command, decode_output, describe_connection, describe_route, explain_connect_error,
    host_key_decision, host_key_id, is_clixml_noise, jump_chain, jump_copy_failure_message, jump_copy_password, jump_copy_plan, jump_staged_payload, mkdir_steps,
    parse_detected_os, powershell_command, probe_command, sftp_concurrent_writes, sftp_write_chunk, sh_single_quote,
    shell_command, strip_clixml, to_sftp_path, windows_sftp_abs, ExecOutput, HostKeyDecision, SshHandler,
};

fn server(id: &str, name: &str, os: OsType, port: u16, jump: Option<&str>) -> ServerConfig {
    ServerConfig {
        id: id.into(),
        name: name.into(),
        os,
        host: "10.2.3.4".into(),
        port,
        username: "admin".into(),
        auth: AuthConfig::Password { password: "pw".into() },
        jump_server_id: jump.map(String::from),
        group: None,
        detected_os: None,
        rdp_preset: None,
        sftp_remote_shortcuts: vec![],
        sftp_local_shortcuts: vec![],
    }
}

#[test]
fn routes() {
    let mut c = AppConfig::default();
    let j = server("j", "跳板", OsType::Linux, 22, None);
    c.servers.push(j.clone());
    let t = server("t", "目标", OsType::Windows, 22, Some("j"));
    assert_eq!(describe_route(&c, &t), "经跳板机 跳板 → 目标 (10.2.3.4:22)");
    let lost = server("t", "目标", OsType::Windows, 2222, Some("zz"));
    assert_eq!(describe_route(&c, &lost), "经跳板机 zz → 目标 (10.2.3.4:2222)");
    assert_eq!(describe_route(&c, &j), "直连 跳板 (10.2.3.4:22)");
    assert_eq!(describe_connection(Some(&j), &t), "经跳板机 跳板 (10.2.3.4) → 目标 (10.2.3.4:22)");
    assert_eq!(describe_connection(None, &j), "直连 跳板 (10.2.3.4:22)");
}

#[test]
fn connect_errors_explained() {
    let rdp = server("w", "win", OsType::Windows, 3389, None);
    assert_eq!(
        explain_connect_error("Connection Refused (os error 111)", &rdp),
        "连接被拒绝（10.2.3.4:3389）。目标未在该端口监听 SSH，或防火墙拦截。 端口 3389 通常是 RDP，本工具测试连接走 SSH 协议；请改为 OpenSSH 端口（默认 22），并确认已安装/启用 OpenSSH Server。"
    );
    let win = server("w", "win", OsType::Windows, 22, None);
    assert_eq!(
        explain_connect_error("operation timed out", &win),
        "连接超时（10.2.3.4:22）。请检查主机地址、网络与防火墙。 Windows 请确认已开启 OpenSSH Server，端口一般为 22（不是 RDP 的 3389）。"
    );
    let lin = server("l", "lin", OsType::Linux, 22, None);
    assert_eq!(
        explain_connect_error("SSH banner mismatch", &lin),
        "SSH 协议握手失败（10.2.3.4:22）。端口可达但对方不是 SSH 服务（例如填了 RDP 3389），或 OpenSSH 未正常工作。"
    );
    assert_eq!(explain_connect_error("No route to host", &lin), "无法到达主机（10.2.3.4:22）。请检查地址与网络。");
    assert_eq!(explain_connect_error("weird", &lin), "连接服务器 lin（10.2.3.4:22）失败：weird");
}

#[test]
fn clixml_noise() {
    assert!(is_clixml_noise("  #< CLIXML"));
    assert!(is_clixml_noise("<Objs xmlns=\"http://schemas.microsoft.com/powershell/2004/04\">"));
    assert!(!is_clixml_noise("real error"));
    assert_eq!(strip_clixml("#< CLIXML\nreal error\n<Objs xmlns=\"http://schemas.microsoft.com/powershell/2004/04\">\n"), "real error");
    let out = ExecOutput { exit_code: 0, stdout: " ok \n".into(), stderr: "#< CLIXML\nwarn".into() };
    assert!(out.success());
    assert_eq!(out.combined(), "ok\nwarn");
    let failed = ExecOutput { exit_code: 2, stdout: String::new(), stderr: "e".into() };
    assert!(!failed.success());
    assert_eq!(failed.combined(), "e");
}

#[test]
fn commands() {
    assert_eq!(shell_command("echo 'hi'"), "sh -lc 'echo '\\''hi'\\'''");
    assert_eq!(sh_single_quote("a'b"), "'a'\\''b'");
    let cmd = powershell_command("Write-Output 1");
    let prefix = "powershell -NoLogo -NoProfile -NonInteractive -ExecutionPolicy Bypass -EncodedCommand ";
    assert!(cmd.starts_with(prefix));
    let bytes = base64::engine::general_purpose::STANDARD.decode(&cmd[prefix.len()..]).unwrap();
    let units: Vec<u16> = bytes.chunks(2).map(|p| u16::from_le_bytes([p[0], p[1]])).collect();
    assert_eq!(String::from_utf16(&units).unwrap(), "$ProgressPreference = 'SilentlyContinue'\nWrite-Output 1");
    assert_eq!(probe_command(OsType::Windows), "cmd /c ver");
    assert!(probe_command(OsType::Linux).starts_with("sh -lc 'uname -srm;"));
}

#[test]
fn output_decoding_and_detection() {
    assert_eq!(decode_output("中文".as_bytes()), "中文");
    assert_eq!(decode_output(&[0xD6, 0xD0, 0xCE, 0xC4]), "中文");
    assert_eq!(parse_detected_os("Microsoft Windows [版本 10.0]"), Some("windows".to_string()));
    assert_eq!(parse_detected_os("NAME=\"Ubuntu\""), Some("ubuntu".to_string()));
    assert_eq!(parse_detected_os("ID=rocky"), Some("centos".to_string()));
    assert_eq!(parse_detected_os("Linux 5.15"), Some("linux".to_string()));
    assert_eq!(parse_detected_os("FreeBSD"), None);
}

#[test]
fn sftp_paths_and_sizes() {
    assert_eq!(to_sftp_path("D:\\a\\b"), "D:/a/b");
    assert_eq!(windows_sftp_abs("D:\\a"), "/D:/a");
    assert_eq!(windows_sftp_abs("/x"), "/x");
    assert_eq!(sftp_write_chunk(OsType::Windows), 32 * 1024);
    assert_eq!(sftp_write_chunk(OsType::Linux), 128 * 1024);
    assert_eq!(sftp_concurrent_writes(OsType::Linux), 4);
    assert_eq!(mkdir_steps("/var/www/site"), vec!["/var", "/var/www", "/var/www/site"]);
    assert_eq!(mkdir_steps("D:\\data\\x"), vec!["D:/data", "D:/data/x"]);
    assert_eq!(mkdir_steps("rel/dir"), vec!["rel", "rel/dir"]);
}

#[test]
fn host_keys_trusted_on_first_use() {
    let s = server("a", "a", OsType::Linux, 2200, None);
    assert_eq!(host_key_id(&s), "10.2.3.4:2200");
    let handler = SshHandler::for_server(&s);
    assert_eq!(handler.host_key_id, "10.2.3.4:2200");
    assert_eq!(host_key_decision("h:22", None, "SHA256:abc"), HostKeyDecision::TrustAndRecord);
    assert_eq!(handler.check_key(Some("SHA256:abc"), "SHA256:abc"), HostKeyDecision::Trust);
    match handler.check_key(Some("SHA256:abc"), "SHA256:xyz") {
        HostKeyDecision::Reject(msg) => assert_eq!(
            msg,
            "主机 10.2.3.4:2200 的密钥指纹发生变化！可能存在中间人攻击。\n已保存: SHA256:abc\n当前: SHA256:xyz\n如确认服务器已重装，请删除 known_hosts.json 中对应记录"
        ),
        other => panic!("{:?}", other),
    }
}

#[test]
fn copying_through_a_jump_server() {
    let staged = jump_staged_payload("u1");
    assert_eq!(staged.work_dir, "/tmp/shhd-deploy-u1");
    assert_eq!(staged.payload_path, "/tmp/shhd-deploy-u1/payload.bin");
    let plan = jump_copy_plan(&staged, "t9", "p'w", "admin", "10.0.0.2", "D:\\site\\a.zip");
    assert_eq!(plan.askpass_path, "/tmp/shhd-deploy-u1/askpass-t9.sh");
    assert_eq!(plan.batch, "put /tmp/shhd-deploy-u1/payload.bin /D:/site/a.zip\n");
    assert_eq!(plan.askpass, "#!/bin/sh\nprintf '%s\\n' 'p'\\''w'\n");
    assert!(plan.run_script.starts_with("#!/bin/sh\nset -e\nSRC='/tmp/shhd-deploy-u1/payload.bin'\nASKPASS='/tmp/shhd-deploy-u1/askpass-t9.sh'\n"));
    assert!(plan.run_script.contains("USERHOST='admin@10.0.0.2'\nREMOTE='/D:/site/a.zip'\n"));
    assert!(plan.run_script.ends_with("  -b \"$BATCH\" \"$USERHOST\" </dev/null\n"));
    assert_eq!(
        plan.copy_cmd,
        "chmod 700 '/tmp/shhd-deploy-u1/askpass-t9.sh' '/tmp/shhd-deploy-u1/run-t9.sh' && sh '/tmp/shhd-deploy-u1/run-t9.sh'"
    );
    assert_eq!(cleanup_command(&staged), "rm -rf '/tmp/shhd-deploy-u1'");
    let win = server("w", "备机", OsType::Windows, 22, None);
    assert_eq!(check_jump_server(Some(&win)).err().unwrap(), "跳板机 备机 不是 Linux，无法用内网拷贝中转");
    assert_eq!(check_jump_server(None).err().unwrap(), "没有跳板机配置，无法中转上传");
    assert!(check_jump_server(Some(&server("l", "l", OsType::Linux, 22, None))).is_ok());
}

#[test]
fn jump_chains_run_from_first_hop_to_target() {
    let mut c = AppConfig::default();
    c.servers.push(server("a", "A", OsType::Linux, 22, None));
    c.servers.push(server("b", "B", OsType::Linux, 22, Some("a")));
    c.servers.push(server("c", "C", OsType::Windows, 22, Some("b")));
    assert_eq!(jump_chain(&c, "c"), Ok(vec![0, 1, 2]));
    assert_eq!(jump_chain(&c, "a"), Ok(vec![0]));
    assert_eq!(jump_chain(&c, "x"), Err("找不到服务器配置: x".to_string()));
    c.servers.push(server("d", "D", OsType::Linux, 22, Some("zz")));
    assert_eq!(jump_chain(&c, "d"), Err("找不到服务器配置: zz".to_string()));
}

#[test]
fn jump_chains_refuse_cycles_and_deep_chains() {
    let mut c = AppConfig::default();
    c.servers.push(server("p", "P", OsType::Linux, 22, Some("q")));
    c.servers.push(server("q", "Q", OsType::Linux, 22, Some("p")));
    assert_eq!(jump_chain(&c, "p"), Err("跳板机链过深或存在循环引用".to_string()));
    let mut d = AppConfig::default();
    d.servers.push(server("s0", "S0", OsType::Linux, 22, None));
    for k in 1..6 {
        let prev = format!("s{}", k - 1);
        d.servers.push(server(&format!("s{}", k), "S", OsType::Linux, 22, Some(&prev)));
    }
    assert_eq!(jump_chain(&d, "s4"), Ok(vec![0, 1, 2, 3, 4]));
    assert_eq!(jump_chain(&d, "s5"), Err("跳板机链过深或存在循环引用".to_string()));
}

#[test]
fn jump_copy_needs_password_and_reports_failures() {
    let win = server("w", "win", OsType::Windows, 22, Some("j"));
    assert_eq!(jump_copy_password(&win), Ok("pw".to_string()));
    let mut keyed = win.clone();
    keyed.auth = AuthConfig::Key { key_path: "k".into(), passphrase: None };
    assert_eq!(jump_copy_password(&keyed), Err("经跳板机中转需要目标 Windows 使用密码认证".to_string()));
    assert_eq!(jump_copy_failure_message("win", 255, "denied"), "跳板机内网拷贝到 win 失败(退出码 255): denied");
    let long = "x".repeat(1600);
    let message = jump_copy_failure_message("win", 1, &long);
    assert_eq!(message, format!("跳板机内网拷贝到 win 失败(退出码 1): {}", "x".repeat(1500)));
}

#[test]
fn cleaning_twice_changes_nothing() {
    let samples = [
        "#< CLIXML\r\nok\r\n<Objs xmlns=\"http://schemas.microsoft.com/powershell/2004/04\">\r\n  done  \r\n",
        "\n\n  a\n\n b \n",
        "  #< CLIXML\n",
        "",
    ];
    for s in samples {
        let once = strip_clixml(s);
        assert_eq!(strip_clixml(&once), once);
    }
    // a line that `lines` leaves ending in '\r' loses it on a second pass
    assert_eq!(strip_clixml("a\r\r\nb"), "a\r\nb");
    assert_eq!(strip_clixml("a\r\nb"), "a\nb");
}

#[test]
fn single_quoting_round_trips_through_sh() {
    assert_eq!(sh_single_quote("it's"), "'it'\\''s'");
    assert_eq!(sh_single_quote("''"), "''\\'''\\'''");
    assert_eq!(shell_command("a'b"), format!("sh -lc {}", sh_single_quote("a'b")));
}

#[test]
fn complete_output_lines() {
    let (lines, rest) = kurumi_deploy::ssh::split_complete_lines(b"one\r\ntwo\nthr");
    assert_eq!(lines, vec![b"one\r\n".to_vec(), b"two\n".to_vec()]);
    assert_eq!(rest, b"thr".to_vec());
    let (lines, rest) = kurumi_deploy::ssh::split_complete_lines(b"");
    assert!(lines.is_empty() && rest.is_empty());
    let (lines, rest) = kurumi_deploy::ssh::split_complete_lines(b"\n\n");
    assert_eq!(lines, vec![b"\n".to_vec(), b"\n".to_vec()]);
    assert!(rest.is_empty());
    assert!(kurumi_deploy::ssh::is_stderr_stream(1));
    assert!(!kurumi_deploy::ssh::is_stderr_stream(0));
    assert!(!kurumi_deploy::ssh::is_stderr_stream(2));
}
