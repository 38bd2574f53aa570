//! Prompt detection for Windows terminals and the start-up state machine
//! that switches a cmd login shell over to PowerShell once the console is
//! ready.

use vstd::prelude::*;

verus! {

/// Which Windows shell is waiting at the prompt.
#[derive(Clone, Copy, Debug, PartialEq, Eq, Structural)]
pub enum WinPrompt {
    Cmd,
    PowerShell,
}

// ---------------------------------------------------------------------
// The last line of output
// ---------------------------------------------------------------------

/// Bytes skipped at the end of the output: line breaks, spaces and NUL.
pub open spec fn is_pad_byte(b: u8) -> bool {
    b == 10 || b == 13 || b == 32 || b == 0
}

pub open spec fn is_break_byte(b: u8) -> bool {
    b == 10 || b == 13
}

/// Length of `s` without its trailing pad bytes.
pub open spec fn unpadded_len(s: Seq<u8>) -> nat
    decreases s.len(),
{
    if s.len() > 0 && is_pad_byte(s.last()) {
        unpadded_len(s.drop_last())
    } else {
        s.len()
    }
}

/// Index just after the last line break of `s` (0 when there is none).
pub open spec fn line_start(s: Seq<u8>) -> nat
    decreases s.len(),
{
    if s.len() == 0 {
        0
    } else if is_break_byte(s.last()) {
        s.len()
    } else {
        line_start(s.drop_last())
    }
}

/// The last line of the output that is not blank, without trailing padding.
pub open spec fn last_line(buf: Seq<u8>) -> Seq<u8> {
    let t = buf.take(unpadded_len(buf) as int);
    t.skip(line_start(t) as int)
}

proof fn lemma_unpadded_len(s: Seq<u8>, e: int)
    requires
        0 <= e <= s.len(),
        forall|j: int| e <= j < s.len() ==> is_pad_byte(s[j]),
        e == 0 || !is_pad_byte(s[e - 1]),
    ensures
        unpadded_len(s) == e,
    decreases s.len(),
{
    if s.len() > e {
        lemma_unpadded_len(s.drop_last(), e);
    }
}

proof fn lemma_line_start(s: Seq<u8>, k: int)
    requires
        0 <= k <= s.len(),
        forall|j: int| k <= j < s.len() ==> !is_break_byte(s[j]),
        k == 0 || is_break_byte(s[k - 1]),
    ensures
        line_start(s) == k,
    decreases s.len(),
{
    if s.len() > k {
        lemma_line_start(s.drop_last(), k);
    }
}

/// The last non-blank line of terminal output.
pub fn last_nonempty_line(buf: &[u8]) -> (r: Vec<u8>)
    ensures
        r@ == last_line(buf@),
{
    let mut end: usize = buf.len();
    while end > 0
        invariant
            end <= buf@.len(),
            forall|j: int| end <= j < buf@.len() ==> is_pad_byte(buf@[j]),
        ensures
            end <= buf@.len(),
            forall|j: int| end <= j < buf@.len() ==> is_pad_byte(buf@[j]),
            end == 0 || !is_pad_byte(buf@[end - 1]),
        decreases end,
    {
        let byte = buf[end - 1];
        if byte == 10 || byte == 13 || byte == 32 || byte == 0 {
            end = end - 1;
        } else {
            break;
        }
    }
    proof {
        lemma_unpadded_len(buf@, end as int);
    }
    let ghost t = buf@.take(end as int);
    let mut start: usize = end;
    while start > 0
        invariant
            start <= end,
            end <= buf@.len(),
            t == buf@.take(end as int),
            forall|j: int| start <= j < end ==> !is_break_byte(buf@[j]),
        ensures
            start <= end,
            forall|j: int| start <= j < end ==> !is_break_byte(buf@[j]),
            start == 0 || is_break_byte(buf@[start - 1]),
        decreases start,
    {
        let byte = buf[start - 1];
        if byte == 10 || byte == 13 {
            break;
        }
        start = start - 1;
    }
    proof {
        lemma_line_start(t, start as int);
    }
    let mut out: Vec<u8> = Vec::new();
    let mut i: usize = start;
    while i < end
        invariant
            start <= i <= end,
            end <= buf@.len(),
            out@ == buf@.subrange(start as int, i as int),
        decreases end - i,
    {
        out.push(buf[i]);
        i = i + 1;
        assert(out@ =~= buf@.subrange(start as int, i as int));
    }
    assert(out@ =~= t.skip(start as int));
    out
}

// ---------------------------------------------------------------------
// Matching inside a line
// ---------------------------------------------------------------------

pub open spec fn lower_byte(b: u8) -> u8 {
    if 65 <= b <= 90 {
        (b + 32) as u8
    } else {
        b
    }
}

/// `<[u8]>::eq_ignore_ascii_case`.
pub open spec fn eq_ignore_case(a: Seq<u8>, b: Seq<u8>) -> bool {
    &&& a.len() == b.len()
    &&& forall|i: int| 0 <= i < a.len() ==> lower_byte(#[trigger] a[i]) == lower_byte(b[i])
}

/// Whether some window of `line` equals `needle`, ignoring ASCII case.
pub open spec fn has_ascii(line: Seq<u8>, needle: Seq<u8>) -> bool {
    exists|i: int| 0 <= i && i + needle.len() <= line.len() && #[trigger] eq_ignore_case(line.subrange(i, i + needle.len()), needle)
}

/// Whether some window of `line` equals `w` exactly.
pub open spec fn has_window(line: Seq<u8>, w: Seq<u8>) -> bool {
    exists|i: int| 0 <= i && i + w.len() <= line.len() && #[trigger] line.subrange(i, i + w.len()) == w
}

pub open spec fn bytes_start_with(s: Seq<u8>, p: Seq<u8>) -> bool {
    p.len() <= s.len() && s.take(p.len() as int) == p
}

fn lower_byte_exec(b: u8) -> (r: u8)
    ensures
        r == lower_byte(b),
{
    if 65 <= b && b <= 90 {
        b + 32
    } else {
        b
    }
}

fn window_matches(line: &[u8], at: usize, needle: &[u8], fold_case: bool) -> (r: bool)
    requires
        at + needle@.len() <= line@.len(),
    ensures
        fold_case ==> (r == eq_ignore_case(line@.subrange(at as int, at + needle@.len()), needle@)),
        !fold_case ==> (r == (line@.subrange(at as int, at + needle@.len()) == needle@)),
{
    let ghost w = line@.subrange(at as int, at + needle@.len());
    let mut k: usize = 0;
    while k < needle.len()
        invariant
            k <= needle@.len(),
            at + needle@.len() <= line@.len(),
            at + needle.len() <= line.len(),
            w == line@.subrange(at as int, at + needle@.len()),
            forall|j: int| 0 <= j < k ==> (if fold_case { lower_byte(#[trigger] w[j]) == lower_byte(needle@[j]) } else { w[j] == needle@[j] }),
        decreases needle.len() - k,
    {
        let a = line[at + k];
        let b = needle[k];
        let same = if fold_case { lower_byte_exec(a) == lower_byte_exec(b) } else { a == b };
        if !same {
            assert(w[k as int] == a);
            if !fold_case {
                assert(w[k as int] != needle@[k as int]);
            }
            return false;
        }
        k = k + 1;
    }
    assert(!fold_case ==> w =~= needle@);
    true
}

/// Whether `needle` occurs in `line`, ignoring ASCII case.
pub fn line_has_ascii(line: &[u8], needle: &[u8]) -> (r: bool)
    requires
        needle@.len() > 0,
    ensures
        r == has_ascii(line@, needle@),
{
    if needle.len() > line.len() {
        return false;
    }
    let count = line.len() - needle.len() + 1;
    let mut i: usize = 0;
    while i < count
        invariant
            count + needle@.len() == line@.len() + 1,
            forall|j: int| 0 <= j < i ==> !#[trigger] eq_ignore_case(line@.subrange(j, j + needle@.len()), needle@),
        decreases count - i,
    {
        if window_matches(line, i, needle, true) {
            return true;
        }
        i = i + 1;
    }
    false
}

fn line_has_window(line: &[u8], w: &[u8]) -> (r: bool)
    ensures
        r == has_window(line@, w@),
{
    if w.len() > line.len() {
        return false;
    }
    if w.len() == 0 {
        assert(line@.subrange(0int, 0int + w@.len()) =~= w@);
        return true;
    }
    let count = line.len() - w.len() + 1;
    let mut i: usize = 0;
    while i < count
        invariant
            count + w@.len() == line@.len() + 1,
            forall|j: int| 0 <= j < i ==> #[trigger] line@.subrange(j, j + w@.len()) != w@,
        decreases count - i,
    {
        if window_matches(line, i, w, false) {
            return true;
        }
        i = i + 1;
    }
    false
}

fn starts_with_bytes(s: &[u8], p: &[u8]) -> (r: bool)
    ensures
        r == bytes_start_with(s@, p@),
{
    if p.len() > s.len() {
        return false;
    }
    let r = window_matches(s, 0, p, false);
    assert(s@.subrange(0, p@.len() as int) =~= s@.take(p@.len() as int));
    r
}

pub open spec fn ps_gt() -> Seq<u8> {
    seq![80u8, 83u8, 62u8]
}

pub open spec fn ps_space() -> Seq<u8> {
    seq![80u8, 83u8, 32u8]
}

pub open spec fn space_ps_space() -> Seq<u8> {
    seq![32u8, 80u8, 83u8, 32u8]
}

/// "powershell"
pub open spec fn word_powershell() -> Seq<u8> {
    seq![112u8, 111u8, 119u8, 101u8, 114u8, 115u8, 104u8, 101u8, 108u8, 108u8]
}

/// "remove-module"
pub open spec fn word_remove_module() -> Seq<u8> {
    seq![114u8, 101u8, 109u8, 111u8, 118u8, 101u8, 45u8, 109u8, 111u8, 100u8, 117u8, 108u8, 101u8]
}

/// "cls"
pub open spec fn word_cls() -> Seq<u8> {
    seq![99u8, 108u8, 115u8]
}

/// A PowerShell prompt line: ends with '>' and starts with "PS>" or "PS ",
/// or holds " PS " (a prompt behind a user@host prefix).
pub open spec fn is_ps_prompt(line: Seq<u8>) -> bool {
    &&& line.len() > 0
    &&& line.last() == 62u8
    &&& (bytes_start_with(line, ps_gt()) || bytes_start_with(line, ps_space()) || has_window(line, space_ps_space()))
}

/// What the last output line says about the shell: nothing unless it ends
/// with '>'; nothing while it echoes one of the commands this module types
/// itself; PowerShell for a PowerShell prompt; cmd otherwise.
pub open spec fn detected_prompt(buf: Seq<u8>) -> Option<WinPrompt> {
    let line = last_line(buf);
    if line.len() == 0 || line.last() != 62u8 {
        None
    } else if has_ascii(line, word_powershell()) || has_ascii(line, word_remove_module()) || has_ascii(line, word_cls()) {
        None
    } else if is_ps_prompt(line) {
        Some(WinPrompt::PowerShell)
    } else {
        Some(WinPrompt::Cmd)
    }
}

/// Whether a line is a PowerShell prompt.
pub fn is_powershell_prompt(line: &[u8]) -> (r: bool)
    ensures
        r == is_ps_prompt(line@),
{
    if line.len() == 0 || line[line.len() - 1] != 62 {
        return false;
    }
    let ps_gt_bytes: Vec<u8> = vec![80u8, 83u8, 62u8];
    let ps_space_bytes: Vec<u8> = vec![80u8, 83u8, 32u8];
    let mid: Vec<u8> = vec![32u8, 80u8, 83u8, 32u8];
    assert(ps_gt_bytes@ =~= ps_gt());
    assert(ps_space_bytes@ =~= ps_space());
    assert(mid@ =~= space_ps_space());
    starts_with_bytes(line, ps_gt_bytes.as_slice()) || starts_with_bytes(line, ps_space_bytes.as_slice())
        || line_has_window(line, mid.as_slice())
}

/// Looks at the end of the output for a Windows prompt.
pub fn detect_windows_prompt(buf: &[u8]) -> (r: Option<WinPrompt>)
    ensures
        r == detected_prompt(buf@),
{
    let line = last_nonempty_line(buf);
    if line.len() == 0 || line[line.len() - 1] != 62 {
        return None;
    }
    let w1: Vec<u8> = vec![112u8, 111u8, 119u8, 101u8, 114u8, 115u8, 104u8, 101u8, 108u8, 108u8];
    let w2: Vec<u8> = vec![114u8, 101u8, 109u8, 111u8, 118u8, 101u8, 45u8, 109u8, 111u8, 100u8, 117u8, 108u8, 101u8];
    let w3: Vec<u8> = vec![99u8, 108u8, 115u8];
    assert(w1@ =~= word_powershell());
    assert(w2@ =~= word_remove_module());
    assert(w3@ =~= word_cls());
    if line_has_ascii(line.as_slice(), w1.as_slice()) || line_has_ascii(line.as_slice(), w2.as_slice())
        || line_has_ascii(line.as_slice(), w3.as_slice()) {
        return None;
    }
    if is_powershell_prompt(line.as_slice()) {
        return Some(WinPrompt::PowerShell);
    }
    Some(WinPrompt::Cmd)
}

// ---------------------------------------------------------------------
// Switching a Windows login shell to PowerShell
// ---------------------------------------------------------------------

/// Where the start-up of a Windows session stands.
#[derive(Clone, Copy, Debug, PartialEq, Eq, Structural)]
pub enum WinBootPhase {
    /// Waiting for the first prompt of the login shell.
    WaitPrompt,
    /// PowerShell was launched; waiting for its prompt.
    WaitPowerShell,
    /// Nothing more to do.
    Done,
}

/// A command typed into the session on the user's behalf.
#[derive(Clone, Copy, Debug, PartialEq, Eq, Structural)]
pub enum WinInject {
    /// `powershell -NoLogo -NoProfile -NoExit` and Enter.
    StartPowerShell,
    /// Unloads PSReadLine, then clears the screen.
    PreparePowerShell,
    /// `cls` and Enter.
    ClearScreen,
}

impl WinInject {
    /// The bytes typed for this command.
    pub fn bytes(&self) -> (r: &'static str)
        ensures
            *self == WinInject::StartPowerShell ==> r@ == "powershell -NoLogo -NoProfile -NoExit\r"@,
            *self == WinInject::PreparePowerShell ==> r@ == "Remove-Module PSReadLine -ErrorAction SilentlyContinue; cls\r"@,
            *self == WinInject::ClearScreen ==> r@ == "cls\r"@,
    {
        match self {
            WinInject::StartPowerShell => "powershell -NoLogo -NoProfile -NoExit\r",
            WinInject::PreparePowerShell => "Remove-Module PSReadLine -ErrorAction SilentlyContinue; cls\r",
            WinInject::ClearScreen => "cls\r",
        }
    }
}

/// Milliseconds allowed for the first prompt.
pub const PROMPT_WAIT_MS: u64 = 5000;
/// Milliseconds allowed for PowerShell to start.
pub const POWERSHELL_WAIT_MS: u64 = 12000;

/// Start-up state of a Windows session; times are milliseconds on a clock
/// chosen by the caller.
pub struct WinBoot {
    pub phase: WinBootPhase,
    /// Recent output, at most 4096 bytes.
    pub buf: Vec<u8>,
    pub deadline_ms: u64,
}

/// The output kept for prompt detection: everything, or the last 2048
/// bytes once more than 4096 have gathered.
pub open spec fn kept_output(buf: Seq<u8>) -> Seq<u8> {
    if buf.len() > 4096 {
        buf.skip(buf.len() - 2048)
    } else {
        buf
    }
}

pub open spec fn phase_rank(p: WinBootPhase) -> int {
    match p {
        WinBootPhase::WaitPrompt => 0,
        WinBootPhase::WaitPowerShell => 1,
        WinBootPhase::Done => 2,
    }
}

pub open spec fn later(now_ms: u64, wait_ms: u64) -> u64 {
    if now_ms + wait_ms <= u64::MAX { (now_ms + wait_ms) as u64 } else { u64::MAX }
}

impl WinBoot {
    pub open spec fn wf(&self) -> bool {
        &&& self.buf@.len() <= 4096
        &&& self.phase == WinBootPhase::Done ==> self.buf@.len() == 0
    }

    /// A session that has just opened.
    pub fn new(now_ms: u64) -> (r: WinBoot)
        ensures
            r.wf(),
            r.phase == WinBootPhase::WaitPrompt,
            r.buf@.len() == 0,
            r.deadline_ms == later(now_ms, PROMPT_WAIT_MS),
    {
        WinBoot { phase: WinBootPhase::WaitPrompt, buf: Vec::new(), deadline_ms: now_ms.saturating_add(PROMPT_WAIT_MS) }
    }

    /// When the current wait runs out; none once done.
    pub fn deadline(&self) -> (r: Option<u64>)
        ensures
            self.phase == WinBootPhase::Done ==> r is None,
            self.phase != WinBootPhase::Done ==> r == Some(self.deadline_ms),
    {
        match self.phase {
            WinBootPhase::Done => None,
            _ => Some(self.deadline_ms),
        }
    }

    fn launch_powershell(&mut self, now_ms: u64) -> (r: Option<WinInject>)
        ensures
            final(self).phase == WinBootPhase::WaitPowerShell,
            final(self).buf@.len() == 0,
            final(self).deadline_ms == later(now_ms, POWERSHELL_WAIT_MS),
            r == Some(WinInject::StartPowerShell),
    {
        self.phase = WinBootPhase::WaitPowerShell;
        self.deadline_ms = now_ms.saturating_add(POWERSHELL_WAIT_MS);
        self.buf.clear();
        Some(WinInject::StartPowerShell)
    }

    fn enter_powershell_ready(&mut self) -> (r: Option<WinInject>)
        ensures
            final(self).phase == WinBootPhase::Done,
            final(self).buf@.len() == 0,
            final(self).deadline_ms == old(self).deadline_ms,
            r == Some(WinInject::PreparePowerShell),
    {
        self.phase = WinBootPhase::Done;
        self.buf.clear();
        Some(WinInject::PreparePowerShell)
    }

    /// Feeds session output. Once done nothing changes and nothing is
    /// typed. Otherwise the output joins the kept bytes; a PowerShell prompt
    /// finishes the start-up (PowerShell is prepared), and a cmd prompt
    /// while waiting for the first prompt launches PowerShell.
    pub fn on_output(&mut self, data: &[u8], now_ms: u64) -> (r: Option<WinInject>)
        requires
            old(self).wf(),
        ensures
            final(self).wf(),
            phase_rank(old(self).phase) <= phase_rank(final(self).phase),
            old(self).phase == WinBootPhase::Done ==> r is None && final(self).phase == WinBootPhase::Done
                && final(self).buf@ == old(self).buf@ && final(self).deadline_ms == old(self).deadline_ms,
            old(self).phase != WinBootPhase::Done ==> ({
                let seen = kept_output(old(self).buf@ + data@);
                let found = detected_prompt(seen);
                if found == Some(WinPrompt::PowerShell) {
                    &&& r == Some(WinInject::PreparePowerShell)
                    &&& final(self).phase == WinBootPhase::Done
                    &&& final(self).buf@.len() == 0
                    &&& final(self).deadline_ms == old(self).deadline_ms
                } else if found == Some(WinPrompt::Cmd) && old(self).phase == WinBootPhase::WaitPrompt {
                    &&& r == Some(WinInject::StartPowerShell)
                    &&& final(self).phase == WinBootPhase::WaitPowerShell
                    &&& final(self).buf@.len() == 0
                    &&& final(self).deadline_ms == later(now_ms, POWERSHELL_WAIT_MS)
                } else {
                    &&& r is None
                    &&& final(self).phase == old(self).phase
                    &&& final(self).buf@ == seen
                    &&& final(self).deadline_ms == old(self).deadline_ms
                }
            }),
    {
        if self.phase == WinBootPhase::Done {
            return None;
        }
        self.buf.extend_from_slice(data);
        assert(self.buf@ =~= old(self).buf@ + data@);
        if self.buf.len() > 4096 {
            let cut = self.buf.len() - 2048;
            let tail = self.buf.split_off(cut);
            self.buf = tail;
        }
        assert(self.buf@ =~= kept_output(old(self).buf@ + data@));
        let found = detect_windows_prompt(self.buf.as_slice());
        match self.phase {
            WinBootPhase::WaitPrompt => match found {
                Some(WinPrompt::PowerShell) => self.enter_powershell_ready(),
                Some(WinPrompt::Cmd) => self.launch_powershell(now_ms),
                None => None,
            },
            _ => {
                if found == Some(WinPrompt::PowerShell) {
                    self.enter_powershell_ready()
                } else {
                    None
                }
            },
        }
    }

    /// The current wait ran out: without a first prompt PowerShell is
    /// launched anyway; without a PowerShell prompt the screen is cleared
    /// and the start-up ends. Once done nothing changes.
    pub fn on_timeout(&mut self, now_ms: u64) -> (r: Option<WinInject>)
        requires
            old(self).wf(),
        ensures
            final(self).wf(),
            phase_rank(old(self).phase) <= phase_rank(final(self).phase),
            old(self).phase == WinBootPhase::WaitPrompt ==> r == Some(WinInject::StartPowerShell)
                && final(self).phase == WinBootPhase::WaitPowerShell && final(self).buf@.len() == 0
                && final(self).deadline_ms == later(now_ms, POWERSHELL_WAIT_MS),
            old(self).phase == WinBootPhase::WaitPowerShell ==> r == Some(WinInject::ClearScreen)
                && final(self).phase == WinBootPhase::Done && final(self).buf@.len() == 0
                && final(self).deadline_ms == old(self).deadline_ms,
            old(self).phase == WinBootPhase::Done ==> r is None && final(self).phase == WinBootPhase::Done
                && final(self).buf@ == old(self).buf@ && final(self).deadline_ms == old(self).deadline_ms,
    {
        match self.phase {
            WinBootPhase::WaitPrompt => self.launch_powershell(now_ms),
            WinBootPhase::WaitPowerShell => {
                self.phase = WinBootPhase::Done;
                self.buf.clear();
                Some(WinInject::ClearScreen)
            },
            WinBootPhase::Done => None,
        }
    }
}

// ---------------------------------------------------------------------
// Terminal size
// ---------------------------------------------------------------------

/// The size asked for when a terminal opens: at least 20 columns and 5 rows.
pub fn pty_size(cols: u32, rows: u32) -> (r: (u32, u32))
    ensures
        r.0 == if cols < 20 { 20 } else { cols },
        r.1 == if rows < 5 { 5 } else { rows },
{
    let c: u32 = if cols < 20 { 20 } else { cols };
    let w: u32 = if rows < 5 { 5 } else { rows };
    (c, w)
}

/// The ONLCR terminal mode asked for: off on Windows, whose console
/// already sends "\r\n", on elsewhere.
pub fn onlcr_mode(windows: bool) -> (r: u32)
    ensures
        r == if windows { 0u32 } else { 1u32 },
{
    if windows { 0 } else { 1 }
}

} // verus!
