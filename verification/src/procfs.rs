//! Integer readings of the Linux status script's output: CPU counters,
//! memory, network counters, mounted file systems and processes, line by
//! line. Rates and percentages are left to the caller.

use vstd::prelude::*;
use crate::text::{
    chars_of, numbers, numbers_exec, parse_u64_chars, split_char, split_char_exec, split_words, spec_parse_u64,
    str_eq, string_of, trim, trim_exec, views, views_of_vecs, words, words_exec,
};

verus! {

// ---------------------------------------------------------------------
// CPU
// ---------------------------------------------------------------------

pub open spec fn seq_sum(v: Seq<u64>) -> nat
    decreases v.len(),
{
    if v.len() == 0 {
        0
    } else {
        seq_sum(v.drop_last()) + (v.last() as nat)
    }
}

proof fn lemma_sum_prefix_le(v: Seq<u64>, i: int)
    requires
        0 <= i <= v.len(),
    ensures
        seq_sum(v.take(i)) <= seq_sum(v),
    decreases v.len() - i,
{
    if i < v.len() {
        lemma_sum_prefix_le(v, i + 1);
        assert(v.take(i + 1).drop_last() =~= v.take(i));
    } else {
        assert(v.take(i) =~= v);
    }
}

/// The words after the first one (none when there is none).
pub open spec fn after_first(ws: Seq<Seq<char>>) -> Seq<Seq<char>> {
    if ws.len() > 0 { ws.skip(1) } else { ws }
}

/// The numbers of the `cpu` line after its label.
pub open spec fn cpu_numbers(line: Seq<char>) -> Seq<u64> {
    numbers(after_first(words(line)))
}

/// Time counters of the `cpu` line: the total of all its numbers, and idle
/// time (the fourth number plus the fifth, I/O wait, when present).
pub struct CpuCounters {
    pub total: u64,
    pub idle: u64,
}

pub open spec fn spec_cpu_idle(nums: Seq<u64>) -> nat {
    (nums[3] as nat) + if nums.len() > 4 { nums[4] as nat } else { 0 }
}

/// At least four numbers are needed; counters that do not fit in 64 bits
/// give no reading.
pub open spec fn cpu_reading_of(r: Option<CpuCounters>, line: Seq<char>) -> bool {
    let nums = cpu_numbers(line);
    match r {
        Some(c) => nums.len() >= 4 && c.total == seq_sum(nums) && c.idle == spec_cpu_idle(nums),
        None => nums.len() < 4 || seq_sum(nums) > u64::MAX || spec_cpu_idle(nums) > u64::MAX,
    }
}

pub fn cpu_counters(line: &str) -> (r: Option<CpuCounters>)
    ensures
        cpu_reading_of(r, line@),
{
    let ws = split_words(line);
    let from: usize = if ws.len() > 0 { 1 } else { 0 };
    let nums = numbers_exec(&ws, from);
    proof {
        assert(views_of_vecs(ws@).skip(from as int) == after_first(words(line@)));
    }
    if nums.len() < 4 {
        return None;
    }
    let extra: u64 = if nums.len() > 4 { nums[4] } else { 0 };
    let idle = match nums[3].checked_add(extra) {
        Some(v) => v,
        None => return None,
    };
    let mut total: u64 = 0;
    let mut i: usize = 0;
    assert(nums@.take(0) =~= Seq::<u64>::empty());
    while i < nums.len()
        invariant
            i <= nums@.len(),
            nums@ == cpu_numbers(line@),
            nums@.len() >= 4,
            extra == (if nums@.len() > 4 { nums@[4] } else { 0 }),
            total as nat == seq_sum(nums@.take(i as int)),
        decreases nums.len() - i,
    {
        assert(nums@.take(i + 1).drop_last() =~= nums@.take(i as int));
        assert(nums@.take(i + 1).last() == nums@[i as int]);
        match total.checked_add(nums[i]) {
            Some(v) => {
                total = v;
            },
            None => {
                proof {
                    lemma_sum_prefix_le(nums@, i + 1);
                }
                return None;
            },
        }
        i = i + 1;
    }
    assert(nums@.take(nums@.len() as int) =~= nums@);
    Some(CpuCounters { total, idle })
}

/// Busy and total time since the previous reading, when there was one and
/// the counters moved on: total is the growth of the total counter, busy
/// is that less the growth of idle time (neither below zero).
pub fn cpu_busy(prev: &CpuCounters, now: &CpuCounters) -> (r: Option<(u64, u64)>)
    ensures
        prev.total > 0 && now.total > prev.total ==> ({
            let total_delta = now.total - prev.total;
            let idle_delta = if now.idle >= prev.idle { now.idle - prev.idle } else { 0 };
            r == Some(((if total_delta >= idle_delta { total_delta - idle_delta } else { 0 }) as u64, total_delta as u64))
        }),
        !(prev.total > 0 && now.total > prev.total) ==> r is None,
{
    if prev.total > 0 && now.total > prev.total {
        let total_delta = now.total - prev.total;
        let idle_delta = now.idle.saturating_sub(prev.idle);
        Some((total_delta.saturating_sub(idle_delta), total_delta))
    } else {
        None
    }
}

// ---------------------------------------------------------------------
// Memory
// ---------------------------------------------------------------------

/// A number word, or 0 when it is not one.
pub open spec fn number_or_zero(w: Seq<char>) -> nat {
    match spec_parse_u64(w) {
        Some(v) => v as nat,
        None => 0,
    }
}

/// A `Key: N kB` line: the trimmed key and N × 1024 bytes (N is 0 when the
/// first word after the colon is not a number). A line without exactly one
/// colon, or a size beyond 64 bits, is no entry.
pub open spec fn spec_meminfo_entry(line: Seq<char>) -> Option<(Seq<char>, nat)> {
    let parts = split_char(line, ':');
    if parts.len() == 2 {
        let ws = words(parts[1]);
        let kb: nat = if ws.len() > 0 { number_or_zero(ws[0]) } else { 0 };
        if kb * 1024 <= u64::MAX { Some((trim(parts[0]), kb * 1024)) } else { None }
    } else {
        None
    }
}

fn number_or_zero_exec(w: &Vec<char>) -> (r: u64)
    ensures
        r as nat == number_or_zero(w@),
{
    match parse_u64_chars(w.as_slice()) {
        Some(v) => v,
        None => 0,
    }
}

pub fn meminfo_entry(line: &str) -> (r: Option<(String, u64)>)
    ensures
        match r {
            Some(e) => spec_meminfo_entry(line@) == Some((e.0@, e.1 as nat)),
            None => spec_meminfo_entry(line@) is None,
        },
{
    let v = chars_of(line);
    let parts = split_char_exec(v.as_slice(), ':');
    if parts.len() != 2 {
        return None;
    }
    assert(parts@[1]@ == split_char(line@, ':')[1]);
    assert(parts@[0]@ == split_char(line@, ':')[0]);
    let ws = words_exec(parts[1].as_slice());
    let kb: u64 = if ws.len() > 0 { number_or_zero_exec(&ws[0]) } else { 0 };
    if kb > u64::MAX / 1024 {
        return None;
    }
    let key = trim_exec(parts[0].as_slice());
    Some((string_of(key.as_slice()), kb * 1024))
}

/// The value of a key: from its last entry, 0 without one.
pub open spec fn mem_field(ls: Seq<Seq<char>>, key: Seq<char>) -> nat
    decreases ls.len(),
{
    if ls.len() == 0 {
        0
    } else {
        match spec_meminfo_entry(ls.last()) {
            Some(e) => if e.0 == key { e.1 } else { mem_field(ls.drop_last(), key) },
            None => mem_field(ls.drop_last(), key),
        }
    }
}

/// Memory and swap figures in bytes.
pub struct MemInfo {
    pub total: u64,
    pub free: u64,
    pub available: u64,
    pub buffers: u64,
    pub cached: u64,
    pub swap_total: u64,
    pub swap_free: u64,
}

pub open spec fn mem_info_of(m: MemInfo, ls: Seq<Seq<char>>) -> bool {
    &&& m.total == mem_field(ls, "MemTotal"@)
    &&& m.free == mem_field(ls, "MemFree"@)
    &&& m.available == mem_field(ls, "MemAvailable"@)
    &&& m.buffers == mem_field(ls, "Buffers"@)
    &&& m.cached == mem_field(ls, "Cached"@)
    &&& m.swap_total == mem_field(ls, "SwapTotal"@)
    &&& m.swap_free == mem_field(ls, "SwapFree"@)
}

fn update_field(field: &mut u64, key: &str, name: &str, value: u64)
    ensures
        *final(field) == if key@ == name@ { value } else { *old(field) },
{
    if str_eq(key, name) {
        *field = value;
    }
}

/// The memory figures of the MEMINFO section.
pub fn meminfo(lines: &Vec<String>) -> (r: MemInfo)
    ensures
        mem_info_of(r, views(lines@)),
{
    let mut m = MemInfo { total: 0, free: 0, available: 0, buffers: 0, cached: 0, swap_total: 0, swap_free: 0 };
    let mut i: usize = 0;
    assert(views(lines@).take(0) =~= Seq::<Seq<char>>::empty());
    while i < lines.len()
        invariant
            i <= lines@.len(),
            mem_info_of(m, views(lines@).take(i as int)),
        decreases lines.len() - i,
    {
        let ghost ls = views(lines@).take(i + 1);
        assert(ls.drop_last() =~= views(lines@).take(i as int));
        assert(ls.last() == lines@[i as int]@);
        match meminfo_entry(lines[i].as_str()) {
            Some((key, value)) => {
                let k = key.as_str();
                update_field(&mut m.total, k, "MemTotal", value);
                update_field(&mut m.free, k, "MemFree", value);
                update_field(&mut m.available, k, "MemAvailable", value);
                update_field(&mut m.buffers, k, "Buffers", value);
                update_field(&mut m.cached, k, "Cached", value);
                update_field(&mut m.swap_total, k, "SwapTotal", value);
                update_field(&mut m.swap_free, k, "SwapFree", value);
            },
            None => {},
        }
        i = i + 1;
    }
    assert(views(lines@).take(lines@.len() as int) =~= views(lines@));
    m
}

// ---------------------------------------------------------------------
// Network, disks, processes
// ---------------------------------------------------------------------

/// Byte counters of an interface line of /proc/net/dev (`name: rx … tx …`):
/// received is the first number after the colon, sent the ninth. The
/// loopback interface, and lines without exactly one colon or with fewer
/// than nine numbers, are skipped.
pub open spec fn spec_net_entry(line: Seq<char>) -> Option<(Seq<char>, u64, u64)> {
    let parts = split_char(line, ':');
    if parts.len() == 2 && trim(parts[0]) != "lo"@ {
        let f = numbers(words(parts[1]));
        if f.len() >= 9 { Some((trim(parts[0]), f[0], f[8])) } else { None }
    } else {
        None
    }
}

pub struct NetCounters {
    pub name: String,
    pub rx_bytes: u64,
    pub tx_bytes: u64,
}

pub fn net_entry(line: &str) -> (r: Option<NetCounters>)
    ensures
        match r {
            Some(n) => spec_net_entry(line@) == Some((n.name@, n.rx_bytes, n.tx_bytes)),
            None => spec_net_entry(line@) is None,
        },
{
    let v = chars_of(line);
    let parts = split_char_exec(v.as_slice(), ':');
    if parts.len() != 2 {
        return None;
    }
    assert(parts@[1]@ == split_char(line@, ':')[1]);
    assert(parts@[0]@ == split_char(line@, ':')[0]);
    let name_chars = trim_exec(parts[0].as_slice());
    let name = string_of(name_chars.as_slice());
    if str_eq(name.as_str(), "lo") {
        return None;
    }
    let ws = words_exec(parts[1].as_slice());
    let f = numbers_exec(&ws, 0);
    assert(views_of_vecs(ws@).skip(0) =~= views_of_vecs(ws@));
    if f.len() < 9 {
        return None;
    }
    Some(NetCounters { name, rx_bytes: f[0], tx_bytes: f[8] })
}

/// A line of `df -B1 -P`: file system, sizes in bytes (0 where not a
/// number) and mount point. Lines with fewer than six words, and file
/// systems the panel leaves out, give nothing.
pub open spec fn spec_disk_row(line: Seq<char>) -> Option<(Seq<char>, Seq<char>, nat, nat, nat)> {
    let ws = words(line);
    if ws.len() >= 6 {
        let total = number_or_zero(ws[1]);
        if total > 0 && !crate::text::starts_with(ws[5], "/sys/firmware"@) && !crate::text::starts_with(ws[5], "/snap"@) {
            Some((ws[0], ws[5], total, number_or_zero(ws[2]), number_or_zero(ws[3])))
        } else {
            None
        }
    } else {
        None
    }
}

pub struct DiskRow {
    pub filesystem: String,
    pub mount_point: String,
    pub total: u64,
    pub used: u64,
    pub free: u64,
}

pub fn disk_row(line: &str) -> (r: Option<DiskRow>)
    ensures
        match r {
            Some(d) => spec_disk_row(line@) == Some((d.filesystem@, d.mount_point@, d.total as nat, d.used as nat, d.free as nat)),
            None => spec_disk_row(line@) is None,
        },
{
    let ws = split_words(line);
    if ws.len() < 6 {
        return None;
    }
    let total = number_or_zero_exec(&ws[1]);
    let mount = string_of(ws[5].as_slice());
    if !crate::sysinfo::keep_disk(total, mount.as_str()) {
        return None;
    }
    Some(DiskRow {
        filesystem: string_of(ws[0].as_slice()),
        mount_point: mount,
        total,
        used: number_or_zero_exec(&ws[2]),
        free: number_or_zero_exec(&ws[3]),
    })
}

/// A line of `ps -eo pid,%cpu,rss,comm`: the process id (0 when not a
/// 32-bit number), the CPU share as written, resident memory in bytes
/// (kilobytes × 1024) and the command. Lines with fewer than four words, or
/// a size beyond 64 bits, give nothing.
pub open spec fn spec_process_row(line: Seq<char>) -> Option<(nat, Seq<char>, nat, Seq<char>)> {
    let ws = words(line);
    if ws.len() >= 4 {
        let pid = if number_or_zero(ws[0]) <= u32::MAX { number_or_zero(ws[0]) } else { 0 };
        let rss = number_or_zero(ws[2]);
        if rss * 1024 <= u64::MAX {
            Some((pid, ws[1], rss * 1024, crate::text::join(ws.skip(3), " "@)))
        } else {
            None
        }
    } else {
        None
    }
}

pub struct ProcessRow {
    pub pid: u32,
    pub cpu_text: String,
    pub memory_bytes: u64,
    pub name: String,
}

pub fn process_row(line: &str) -> (r: Option<ProcessRow>)
    ensures
        match r {
            Some(p) => spec_process_row(line@) == Some((p.pid as nat, p.cpu_text@, p.memory_bytes as nat, p.name@)),
            None => spec_process_row(line@) is None,
        },
{
    let ws = split_words(line);
    if ws.len() < 4 {
        return None;
    }
    let pid_value = number_or_zero_exec(&ws[0]);
    let pid: u32 = if pid_value <= u32::MAX as u64 { pid_value as u32 } else { 0 };
    let rss = number_or_zero_exec(&ws[2]);
    if rss > u64::MAX / 1024 {
        return None;
    }
    let name = crate::sysinfo::process_name(&ws);
    Some(ProcessRow { pid, cpu_text: string_of(ws[1].as_slice()), memory_bytes: rss * 1024, name })
}

// ---------------------------------------------------------------------
// The whole output
// ---------------------------------------------------------------------

pub open spec fn net_entries(ls: Seq<Seq<char>>) -> Seq<(Seq<char>, u64, u64)>
    decreases ls.len(),
{
    if ls.len() == 0 {
        Seq::empty()
    } else {
        match spec_net_entry(ls.last()) {
            Some(e) => net_entries(ls.drop_last()).push(e),
            None => net_entries(ls.drop_last()),
        }
    }
}

pub open spec fn disk_rows(ls: Seq<Seq<char>>) -> Seq<(Seq<char>, Seq<char>, nat, nat, nat)>
    decreases ls.len(),
{
    if ls.len() == 0 {
        Seq::empty()
    } else {
        match spec_disk_row(ls.last()) {
            Some(e) => disk_rows(ls.drop_last()).push(e),
            None => disk_rows(ls.drop_last()),
        }
    }
}

pub open spec fn process_rows(ls: Seq<Seq<char>>) -> Seq<(nat, Seq<char>, nat, Seq<char>)>
    decreases ls.len(),
{
    if ls.len() == 0 {
        Seq::empty()
    } else {
        match spec_process_row(ls.last()) {
            Some(e) => process_rows(ls.drop_last()).push(e),
            None => process_rows(ls.drop_last()),
        }
    }
}

pub open spec fn net_views(v: Seq<NetCounters>) -> Seq<(Seq<char>, u64, u64)> {
    v.map_values(|n: NetCounters| (n.name@, n.rx_bytes, n.tx_bytes))
}

pub open spec fn disk_views(v: Seq<DiskRow>) -> Seq<(Seq<char>, Seq<char>, nat, nat, nat)> {
    v.map_values(|d: DiskRow| (d.filesystem@, d.mount_point@, d.total as nat, d.used as nat, d.free as nat))
}

pub open spec fn process_views(v: Seq<ProcessRow>) -> Seq<(nat, Seq<char>, nat, Seq<char>)> {
    v.map_values(|p: ProcessRow| (p.pid as nat, p.cpu_text@, p.memory_bytes as nat, p.name@))
}

/// What the integer sections of the status script report.
pub struct LinuxReadings {
    pub cpu: Option<CpuCounters>,
    pub memory: MemInfo,
    pub networks: Vec<NetCounters>,
    pub disks: Vec<DiskRow>,
    pub processes: Vec<ProcessRow>,
}

fn net_entries_exec(ls: &Vec<String>) -> (r: Vec<NetCounters>)
    ensures
        net_views(r@) == net_entries(views(ls@)),
{
    let mut out: Vec<NetCounters> = Vec::new();
    let mut i: usize = 0;
    assert(views(ls@).take(0) =~= Seq::<Seq<char>>::empty());
    while i < ls.len()
        invariant
            i <= ls@.len(),
            net_views(out@) == net_entries(views(ls@).take(i as int)),
        decreases ls.len() - i,
    {
        let ghost before = net_views(out@);
        assert(views(ls@).take(i + 1).drop_last() =~= views(ls@).take(i as int));
        assert(views(ls@).take(i + 1).last() == ls@[i as int]@);
        match net_entry(ls[i].as_str()) {
            Some(n) => {
                out.push(n);
                assert(net_views(out@) =~= before.push(net_views(out@).last()));
            },
            None => {},
        }
        i = i + 1;
    }
    assert(views(ls@).take(ls@.len() as int) =~= views(ls@));
    out
}

fn disk_rows_exec(ls: &Vec<String>) -> (r: Vec<DiskRow>)
    ensures
        disk_views(r@) == disk_rows(views(ls@)),
{
    let mut out: Vec<DiskRow> = Vec::new();
    let mut i: usize = 0;
    assert(views(ls@).take(0) =~= Seq::<Seq<char>>::empty());
    while i < ls.len()
        invariant
            i <= ls@.len(),
            disk_views(out@) == disk_rows(views(ls@).take(i as int)),
        decreases ls.len() - i,
    {
        let ghost before = disk_views(out@);
        assert(views(ls@).take(i + 1).drop_last() =~= views(ls@).take(i as int));
        assert(views(ls@).take(i + 1).last() == ls@[i as int]@);
        match disk_row(ls[i].as_str()) {
            Some(d) => {
                out.push(d);
                assert(disk_views(out@) =~= before.push(disk_views(out@).last()));
            },
            None => {},
        }
        i = i + 1;
    }
    assert(views(ls@).take(ls@.len() as int) =~= views(ls@));
    out
}

fn process_rows_exec(ls: &Vec<String>) -> (r: Vec<ProcessRow>)
    ensures
        process_views(r@) == process_rows(views(ls@)),
{
    let mut out: Vec<ProcessRow> = Vec::new();
    let mut i: usize = 0;
    assert(views(ls@).take(0) =~= Seq::<Seq<char>>::empty());
    while i < ls.len()
        invariant
            i <= ls@.len(),
            process_views(out@) == process_rows(views(ls@).take(i as int)),
        decreases ls.len() - i,
    {
        let ghost before = process_views(out@);
        assert(views(ls@).take(i + 1).drop_last() =~= views(ls@).take(i as int));
        assert(views(ls@).take(i + 1).last() == ls@[i as int]@);
        match process_row(ls[i].as_str()) {
            Some(p) => {
                out.push(p);
                assert(process_views(out@) =~= before.push(process_views(out@).last()));
            },
            None => {},
        }
        i = i + 1;
    }
    assert(views(ls@).take(ls@.len() as int) =~= views(ls@));
    out
}

/// The integer readings of the status script's output: CPU counters from
/// the first STAT line, memory from MEMINFO, interfaces from NET, file
/// systems from DF and processes from PS.
pub fn linux_readings(raw: &str) -> (r: LinuxReadings)
    ensures
        ({
            let stat = crate::sysinfo::spec_section_lines(raw@, "STAT"@);
            if stat.len() > 0 { cpu_reading_of(r.cpu, stat[0]) } else { r.cpu is None }
        }),
        mem_info_of(r.memory, crate::sysinfo::spec_section_lines(raw@, "MEMINFO"@)),
        net_views(r.networks@) == net_entries(crate::sysinfo::spec_section_lines(raw@, "NET"@)),
        disk_views(r.disks@) == disk_rows(crate::sysinfo::spec_section_lines(raw@, "DF"@)),
        process_views(r.processes@) == process_rows(crate::sysinfo::spec_section_lines(raw@, "PS"@)),
{
    let stat = crate::sysinfo::section_lines(raw, "STAT");
    let cpu = if stat.len() > 0 { cpu_counters(stat[0].as_str()) } else { None };
    let mem_lines = crate::sysinfo::section_lines(raw, "MEMINFO");
    let net_lines = crate::sysinfo::section_lines(raw, "NET");
    let df_lines = crate::sysinfo::section_lines(raw, "DF");
    let ps_lines = crate::sysinfo::section_lines(raw, "PS");
    LinuxReadings {
        cpu,
        memory: meminfo(&mem_lines),
        networks: net_entries_exec(&net_lines),
        disks: disk_rows_exec(&df_lines),
        processes: process_rows_exec(&ps_lines),
    }
}

} // verus!
