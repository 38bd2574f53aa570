use kurumi_deploy::terminal::{
    detect_windows_prompt, is_powershell_prompt, last_nonempty_line, line_has_ascii, pty_size, WinBoot, WinBootPhase,
    WinInject, WinPrompt,
};

#[test]
fn detect_cmd_prompt() {
    assert_eq!(
        detect_windows_prompt(b"Microsoft Windows\r\nC:\\Users\\hyin>"),
        Some(WinPrompt::Cmd)
    );
    assert_eq!(
        detect_windows_prompt(b"yinheng@10_1_8_16@10_1_8_16 C:\\Users\\yinheng>"),
        Some(WinPrompt::Cmd)
    );
}

#[test]
fn detect_powershell_prompt() {
    assert_eq!(
        detect_windows_prompt(b"PS C:\\Users\\hyin>"),
        Some(WinPrompt::PowerShell)
    );
    assert_eq!(detect_windows_prompt(b"PS>"), Some(WinPrompt::PowerShell));
}

#[test]
fn ignore_echoed_inject() {
    assert_eq!(
        detect_windows_prompt(b"C:\\Users\\hyin>powershell -NoLogo -NoProfile -NoExit"),
        None
    );
    assert_eq!(
        detect_windows_prompt(b"PS C:\\Users\\hyin>Remove-Module PSReadLine -ErrorAction SilentlyContinue; cls"),
        None
    );
}

#[test]
fn last_line_skips_padding() {
    assert_eq!(last_nonempty_line(b"first\r\nsecond> \r\n\0 "), b"second>".to_vec());
    assert_eq!(last_nonempty_line(b"\r\n \n"), Vec::<u8>::new());
    assert_eq!(last_nonempty_line(b"only"), b"only".to_vec());
}

#[test]
fn prompt_rules() {
    assert!(is_powershell_prompt(b"user@host PS C:\\x>"));
    assert!(!is_powershell_prompt(b"PS C:\\x"));
    assert!(!is_powershell_prompt(b"C:\\PSX>"));
    assert!(line_has_ascii(b"xxPOWERSHELLyy", b"powershell"));
    assert!(!line_has_ascii(b"power shell", b"powershell"));
    assert_eq!(detect_windows_prompt(b"no prompt here"), None);
    assert_eq!(detect_windows_prompt(b""), None);
    assert_eq!(detect_windows_prompt(b"C:\\CLS>"), None);
}

#[test]
fn boot_from_cmd_to_powershell() {
    let mut boot = WinBoot::new(1000);
    assert_eq!(boot.deadline(), Some(6000));
    assert_eq!(boot.on_output(b"Microsoft Windows\r\n", 1100), None);
    assert_eq!(boot.phase, WinBootPhase::WaitPrompt);
    let inject = boot.on_output(b"C:\\Users\\a>", 1200);
    assert_eq!(inject, Some(WinInject::StartPowerShell));
    assert_eq!(inject.unwrap().bytes(), "powershell -NoLogo -NoProfile -NoExit\r");
    assert_eq!(boot.phase, WinBootPhase::WaitPowerShell);
    assert_eq!(boot.deadline(), Some(13200));
    assert_eq!(boot.on_output(b"C:\\Users\\a>powershell -NoLogo -NoProfile -NoExit\r\n", 1300), None);
    let ready = boot.on_output(b"PS C:\\Users\\a>", 1400);
    assert_eq!(ready, Some(WinInject::PreparePowerShell));
    assert_eq!(
        ready.unwrap().bytes(),
        "Remove-Module PSReadLine -ErrorAction SilentlyContinue; cls\r"
    );
    assert_eq!(boot.phase, WinBootPhase::Done);
    assert_eq!(boot.deadline(), None);
}

#[test]
fn boot_done_is_final() {
    let mut boot = WinBoot::new(0);
    assert_eq!(boot.on_output(b"PS C:\\>", 10), Some(WinInject::PreparePowerShell));
    assert_eq!(boot.on_output(b"C:\\>", 20), None);
    assert_eq!(boot.on_timeout(30), None);
    assert_eq!(boot.phase, WinBootPhase::Done);
    assert!(boot.buf.is_empty());
}

#[test]
fn boot_timeouts() {
    let mut boot = WinBoot::new(0);
    assert_eq!(boot.on_timeout(5000), Some(WinInject::StartPowerShell));
    assert_eq!(boot.deadline(), Some(17000));
    let clear = boot.on_timeout(17000);
    assert_eq!(clear, Some(WinInject::ClearScreen));
    assert_eq!(clear.unwrap().bytes(), "cls\r");
    assert_eq!(boot.phase, WinBootPhase::Done);
}

#[test]
fn boot_keeps_recent_output_only() {
    let mut boot = WinBoot::new(0);
    let chunk = vec![b'x'; 3000];
    assert_eq!(boot.on_output(&chunk, 1), None);
    assert_eq!(boot.buf.len(), 3000);
    assert_eq!(boot.on_output(&chunk, 2), None);
    assert_eq!(boot.buf.len(), 2048);
    let mut deadline_late = WinBoot::new(u64::MAX - 10);
    assert_eq!(deadline_late.deadline(), Some(u64::MAX));
    assert_eq!(deadline_late.on_timeout(u64::MAX), Some(WinInject::StartPowerShell));
    assert_eq!(deadline_late.deadline(), Some(u64::MAX));
}

#[test]
fn pty_size_has_a_floor() {
    assert_eq!(pty_size(0, 0), (20, 5));
    assert_eq!(pty_size(19, 4), (20, 5));
    assert_eq!(pty_size(20, 5), (20, 5));
    assert_eq!(pty_size(120, 40), (120, 40));
}

#[test]
fn onlcr_is_off_on_windows_only() {
    assert_eq!(kurumi_deploy::terminal::onlcr_mode(true), 0);
    assert_eq!(kurumi_deploy::terminal::onlcr_mode(false), 1);
}
