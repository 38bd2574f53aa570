//! Directory listings shown side by side (local and remote): directories
//! first, then by lowercase name, keeping the order of equal names; the
//! local drive list; and the order of files to upload.

use vstd::prelude::*;
use crate::sftp::{LocalFileEntry, SftpEntry};
use crate::text::{chars_of, owned, push_char, to_lowercase, unicode_lowercase};

verus! {

/// An entry of a local directory (fields as in `SftpEntry`).
#[derive(Clone, Debug)]
pub struct LocalDirEntry {
    pub name: String,
    pub path: String,
    pub is_dir: bool,
    pub size: u64,
    pub mtime: u32,
    /// Dot files, and files with the hidden attribute on Windows.
    pub hidden: bool,
}

// ---------------------------------------------------------------------
// Order
// ---------------------------------------------------------------------

/// `a < b` in the order of `str` (code point by code point, a proper
/// prefix first).
pub open spec fn lex_lt(a: Seq<char>, b: Seq<char>) -> bool
    decreases a.len(),
{
    if a.len() == 0 {
        b.len() > 0
    } else if b.len() == 0 {
        false
    } else if a[0] != b[0] {
        a[0] < b[0]
    } else {
        lex_lt(a.drop_first(), b.drop_first())
    }
}

proof fn lemma_lex_lt_asym(a: Seq<char>, b: Seq<char>)
    ensures
        lex_lt(a, b) ==> !lex_lt(b, a),
    decreases a.len(),
{
    if a.len() > 0 && b.len() > 0 && a[0] == b[0] {
        lemma_lex_lt_asym(a.drop_first(), b.drop_first());
    }
}

/// Whether an entry sorts strictly before another: a directory before a
/// file, otherwise by key.
pub open spec fn listed_before(d1: bool, k1: Seq<char>, d2: bool, k2: Seq<char>) -> bool {
    (d1 && !d2) || (d1 == d2 && lex_lt(k1, k2))
}

/// `ord` lists every position of `0..n` once.
pub open spec fn is_permutation(ord: Seq<usize>, n: nat) -> bool {
    &&& ord.len() == n
    &&& ord.no_duplicates()
    &&& forall|k: int| 0 <= k < ord.len() ==> ord[k] < n
}

/// `ord` puts the entries in listing order, equal ones in the order they
/// came in (the result of a stable sort).
pub open spec fn is_listing_order(ord: Seq<usize>, dirs: Seq<bool>, keys: Seq<Seq<char>>) -> bool {
    &&& is_permutation(ord, dirs.len())
    &&& adjacent_sorted(ord, dirs, keys)
}

fn lex_lt_exec(a: &Vec<char>, b: &Vec<char>) -> (r: bool)
    ensures
        r == lex_lt(a@, b@),
{
    let mut i: usize = 0;
    assert(a@.skip(0) =~= a@);
    assert(b@.skip(0) =~= b@);
    while i < a.len() && i < b.len() && a[i] == b[i]
        invariant
            i <= a@.len(),
            i <= b@.len(),
            lex_lt(a@, b@) == lex_lt(a@.skip(i as int), b@.skip(i as int)),
        decreases a.len() - i,
    {
        assert(a@.skip(i as int).drop_first() =~= a@.skip(i + 1));
        assert(b@.skip(i as int).drop_first() =~= b@.skip(i + 1));
        i = i + 1;
    }
    let ghost sa = a@.skip(i as int);
    let ghost sb = b@.skip(i as int);
    if i == a.len() {
        assert(sa.len() == 0);
        i < b.len()
    } else if i == b.len() {
        assert(sb.len() == 0);
        false
    } else {
        assert(sa[0] == a@[i as int] && sb[0] == b@[i as int]);
        a[i] < b[i]
    }
}

fn before_exec(d1: bool, k1: &Vec<char>, d2: bool, k2: &Vec<char>) -> (r: bool)
    ensures
        r == listed_before(d1, k1@, d2, k2@),
{
    (d1 && !d2) || (d1 == d2 && lex_lt_exec(k1, k2))
}

pub open spec fn key_views(keys: Seq<Vec<char>>) -> Seq<Seq<char>> {
    keys.map_values(|k: Vec<char>| k@)
}

/// The listing order of entries given their directory flags and sort keys
/// (a stable insertion sort).
/// Neighbours in `ord` are in listing order, equal ones by position.
pub open spec fn adjacent_sorted(ord: Seq<usize>, dirs: Seq<bool>, ks: Seq<Seq<char>>) -> bool {
    forall|k: int| 0 <= k < ord.len() - 1 ==> {
        let a = #[trigger] ord[k] as int;
        let b = ord[k + 1] as int;
        &&& !listed_before(dirs[b], ks[b], dirs[a], ks[a])
        &&& !listed_before(dirs[a], ks[a], dirs[b], ks[b]) ==> a < b
    }
}

proof fn lemma_insert_keeps_order(before: Seq<usize>, p: int, i: usize, dirs: Seq<bool>, ks: Seq<Seq<char>>)
    requires
        i < dirs.len(),
        dirs.len() == ks.len(),
        is_permutation(before, i as nat),
        forall|j: usize| j < i ==> before.contains(j),
        adjacent_sorted(before, dirs, ks),
        0 <= p <= before.len(),
        p == 0 || !listed_before(dirs[i as int], ks[i as int], dirs[before[p - 1] as int], ks[before[p - 1] as int]),
        forall|k: int| p <= k < before.len() ==> listed_before(dirs[i as int], ks[i as int], dirs[before[k] as int], ks[before[k] as int]),
    ensures
        ({
            let ord = before.insert(p, i);
            &&& is_permutation(ord, (i + 1) as nat)
            &&& forall|j: usize| j < i + 1 ==> ord.contains(j)
            &&& adjacent_sorted(ord, dirs, ks)
        }),
{
    let ord = before.insert(p, i);
    assert forall|k: int| 0 <= k < ord.len() - 1 implies {
        let a = #[trigger] ord[k] as int;
        let b = ord[k + 1] as int;
        &&& !listed_before(dirs[b], ks[b], dirs[a], ks[a])
        &&& !listed_before(dirs[a], ks[a], dirs[b], ks[b]) ==> a < b
    } by {
        let a = ord[k] as int;
        let b = ord[k + 1] as int;
        if k + 1 < p {
            assert(a == before[k] as int && b == before[k + 1] as int);
        } else if k + 1 == p {
            assert(a == before[k] as int && b == i as int);
        } else if k == p {
            assert(a == i as int && b == before[k] as int);
            lemma_lex_lt_asym(ks[a], ks[b]);
        } else {
            assert(a == before[k - 1] as int && b == before[k] as int);
        }
    }
    assert(ord.no_duplicates()) by {
        assert forall|x: int, y: int| 0 <= x < ord.len() && 0 <= y < ord.len() && x != y implies ord[x] != ord[y] by {
            if x != p && y != p {
                let bx = if x < p { x } else { x - 1 };
                let by = if y < p { y } else { y - 1 };
                assert(ord[x] == before[bx] && ord[y] == before[by]);
            } else if x == p {
                let by = if y < p { y } else { y - 1 };
                assert(ord[y] == before[by]);
            } else {
                let bx = if x < p { x } else { x - 1 };
                assert(ord[x] == before[bx]);
            }
        }
    }
    assert forall|j: usize| j < i + 1 implies ord.contains(j) by {
        if j == i {
            assert(ord[p] == j);
        } else {
            assert(before.contains(j));
            let k = choose|k: int| 0 <= k < before.len() && before[k] == j;
            if k < p {
                assert(ord[k] == j);
            } else {
                assert(ord[k + 1] == j);
            }
        }
    }
    assert forall|k: int| 0 <= k < ord.len() implies ord[k] < i + 1 by {
        if k < p {
            assert(ord[k] == before[k]);
        } else if k > p {
            assert(ord[k] == before[k - 1]);
        }
    }
}

/// The listing order of entries given their directory flags and sort keys
/// (a stable insertion sort).
pub fn listing_order(dirs: &Vec<bool>, keys: &Vec<Vec<char>>) -> (ord: Vec<usize>)
    requires
        dirs@.len() == keys@.len(),
    ensures
        is_listing_order(ord@, dirs@, key_views(keys@)),
        forall|j: int| 0 <= j < dirs@.len() ==> #[trigger] ord@.contains(j as usize),
{
    let ghost ks = key_views(keys@);
    let mut ord: Vec<usize> = Vec::new();
    let mut i: usize = 0;
    while i < dirs.len()
        invariant
            dirs@.len() == keys@.len(),
            ks == key_views(keys@),
            i <= dirs@.len(),
            is_permutation(ord@, i as nat),
            forall|j: usize| j < i ==> ord@.contains(j),
            adjacent_sorted(ord@, dirs@, ks),
        decreases dirs.len() - i,
    {
        let mut p: usize = ord.len();
        while p > 0 && before_exec(dirs[i], &keys[i], dirs[ord[p - 1]], &keys[ord[p - 1]])
            invariant
                dirs@.len() == keys@.len(),
                ks == key_views(keys@),
                i < dirs@.len(),
                p <= ord@.len(),
                is_permutation(ord@, i as nat),
                forall|k: int| p <= k < ord@.len() ==> listed_before(dirs@[i as int], ks[i as int], dirs@[ord@[k] as int], ks[ord@[k] as int]),
            decreases p,
        {
            p = p - 1;
        }
        let ghost before = ord@;
        proof {
            assert(ks[i as int] == keys@[i as int]@);
            if p > 0 {
                assert(ks[before[p - 1] as int] == keys@[before[p - 1] as int]@);
            }
            lemma_insert_keeps_order(before, p as int, i, dirs@, ks);
        }
        ord.insert(p, i);
        i = i + 1;
    }
    assert forall|j: int| 0 <= j < dirs@.len() implies #[trigger] ord@.contains(j as usize) by {
        assert((j as usize) < i);
    }
    ord
}

/// The items in the given order.
pub fn apply_order<T>(items: Vec<T>, ord: &Vec<usize>) -> (r: Vec<T>)
    requires
        is_permutation(ord@, items@.len()),
    ensures
        r@.len() == items@.len(),
        forall|k: int| 0 <= k < r@.len() ==> r@[k] == items@[ord@[k] as int],
{
    let ghost orig = items@;
    let mut slots: Vec<Option<T>> = Vec::new();
    let mut items = items;
    let n = items.len();
    while items.len() > 0
        invariant
            slots@.len() + items@.len() == n,
            n == orig.len(),
            items@ == orig.take(items@.len() as int),
            forall|k: int| 0 <= k < slots@.len() ==> slots@[k] == Some(orig[n - 1 - k]),
        decreases items.len(),
    {
        let x = items.pop().unwrap();
        slots.push(Some(x));
        assert(items@ =~= orig.take(items@.len() as int));
    }
    let mut out: Vec<T> = Vec::new();
    let mut k: usize = 0;
    while k < ord.len()
        invariant
            is_permutation(ord@, n as nat),
            n == orig.len(),
            slots@.len() == n,
            k <= ord@.len(),
            out@.len() == k,
            forall|j: int| 0 <= j < k ==> out@[j] == orig[ord@[j] as int],
            forall|m: int| 0 <= m < n ==> (slots@[m] is Some <==> !ord@.take(k as int).contains((n - 1 - m) as usize)),
            forall|m: int| 0 <= m < n && slots@[m] is Some ==> slots@[m] == Some(orig[n - 1 - m]),
        decreases ord.len() - k,
    {
        let at = ord[k];
        let slot = n - 1 - at;
        assert(!ord@.take(k as int).contains(at)) by {
            if ord@.take(k as int).contains(at) {
                let j = choose|j: int| 0 <= j < k && ord@.take(k as int)[j] == at;
                assert(ord@[j] == ord@[k as int]);
            }
        }
        let ghost before_slots = slots@;
        let mut taken: Option<T> = None;
        std::mem::swap(&mut slots[slot], &mut taken);
        assert(slots@ == before_slots.update(slot as int, None));
        let x = taken.unwrap();
        out.push(x);
        proof {
            assert(ord@.take(k + 1) =~= ord@.take(k as int).push(at));
            assert(ord@.take(k + 1)[k as int] == at);
            assert forall|m: int| 0 <= m < n implies (slots@[m] is Some <==> !ord@.take(k + 1).contains((n - 1 - m) as usize)) by {
                if m != slot {
                    assert((n - 1 - m) as usize != at);
                    assert(slots@[m] == before_slots[m]);
                    if ord@.take(k + 1).contains((n - 1 - m) as usize) {
                        let j = choose|j: int| 0 <= j < k + 1 && #[trigger] ord@.take(k + 1)[j] == (n - 1 - m) as usize;
                        assert(j < k);
                        assert(ord@.take(k as int)[j] == (n - 1 - m) as usize);
                    }
                    if ord@.take(k as int).contains((n - 1 - m) as usize) {
                        let j = choose|j: int| 0 <= j < k && #[trigger] ord@.take(k as int)[j] == (n - 1 - m) as usize;
                        assert(ord@.take(k + 1)[j] == (n - 1 - m) as usize);
                    }
                } else {
                    assert((n - 1 - m) as usize == at);
                }
            }
        }
        k = k + 1;
    }
    out
}

// ---------------------------------------------------------------------
// Sorting entries
// ---------------------------------------------------------------------

fn lowercase_chars(name: &str) -> (r: Vec<char>)
    ensures
        r@ == unicode_lowercase(name@),
{
    let lower = to_lowercase(name);
    chars_of(lower.as_str())
}

pub open spec fn local_dirs(entries: Seq<LocalDirEntry>) -> Seq<bool> {
    entries.map_values(|e: LocalDirEntry| e.is_dir)
}

pub open spec fn local_keys(entries: Seq<LocalDirEntry>) -> Seq<Seq<char>> {
    entries.map_values(|e: LocalDirEntry| unicode_lowercase(e.name@))
}

/// A local listing in display order: directories first, then by lowercase
/// name, equal names as listed.
pub fn sort_local_entries(entries: Vec<LocalDirEntry>) -> (r: Vec<LocalDirEntry>)
    ensures
        exists|ord: Seq<usize>| #[trigger] is_listing_order(ord, local_dirs(entries@), local_keys(entries@))
            && r@.len() == entries@.len()
            && forall|k: int| 0 <= k < r@.len() ==> r@[k] == entries@[ord[k] as int],
{
    let mut dirs: Vec<bool> = Vec::new();
    let mut keys: Vec<Vec<char>> = Vec::new();
    let mut i: usize = 0;
    while i < entries.len()
        invariant
            i <= entries@.len(),
            dirs@ == local_dirs(entries@).take(i as int),
            key_views(keys@) == local_keys(entries@).take(i as int),
        decreases entries.len() - i,
    {
        dirs.push(entries[i].is_dir);
        let ghost before = keys@;
        let kk = lowercase_chars(entries[i].name.as_str());
        keys.push(kk);
        assert(key_views(keys@) =~= key_views(before).push(kk@));
        assert(local_keys(entries@).take(i + 1) =~= local_keys(entries@).take(i as int).push(unicode_lowercase(entries@[i as int].name@)));
        i = i + 1;
        assert(dirs@ =~= local_dirs(entries@).take(i as int));
    }
    assert(dirs@ =~= local_dirs(entries@));
    assert(key_views(keys@) =~= local_keys(entries@));
    let ord = listing_order(&dirs, &keys);
    let ghost e = entries@;
    let r = apply_order(entries, &ord);
    assert(is_listing_order(ord@, local_dirs(e), local_keys(e)));
    r
}

pub open spec fn remote_dirs(entries: Seq<SftpEntry>) -> Seq<bool> {
    entries.map_values(|e: SftpEntry| e.is_dir)
}

pub open spec fn remote_keys(entries: Seq<SftpEntry>) -> Seq<Seq<char>> {
    entries.map_values(|e: SftpEntry| unicode_lowercase(e.name@))
}

/// A remote listing in display order: directories first, then by lowercase
/// name, equal names as listed.
pub fn sort_sftp_entries(entries: Vec<SftpEntry>) -> (r: Vec<SftpEntry>)
    ensures
        exists|ord: Seq<usize>| #[trigger] is_listing_order(ord, remote_dirs(entries@), remote_keys(entries@))
            && r@.len() == entries@.len()
            && forall|k: int| 0 <= k < r@.len() ==> r@[k] == entries@[ord[k] as int],
{
    let mut dirs: Vec<bool> = Vec::new();
    let mut keys: Vec<Vec<char>> = Vec::new();
    let mut i: usize = 0;
    while i < entries.len()
        invariant
            i <= entries@.len(),
            dirs@ == remote_dirs(entries@).take(i as int),
            key_views(keys@) == remote_keys(entries@).take(i as int),
        decreases entries.len() - i,
    {
        dirs.push(entries[i].is_dir);
        let ghost before = keys@;
        let kk = lowercase_chars(entries[i].name.as_str());
        keys.push(kk);
        assert(key_views(keys@) =~= key_views(before).push(kk@));
        assert(remote_keys(entries@).take(i + 1) =~= remote_keys(entries@).take(i as int).push(unicode_lowercase(entries@[i as int].name@)));
        i = i + 1;
        assert(dirs@ =~= remote_dirs(entries@).take(i as int));
    }
    assert(dirs@ =~= remote_dirs(entries@));
    assert(key_views(keys@) =~= remote_keys(entries@));
    let ord = listing_order(&dirs, &keys);
    let ghost e = entries@;
    let r = apply_order(entries, &ord);
    assert(is_listing_order(ord@, remote_dirs(e), remote_keys(e)));
    r
}

/// No entry is a directory.
pub open spec fn no_dirs(n: nat) -> Seq<bool> {
    Seq::new(n, |k: int| false)
}

pub open spec fn upload_keys(files: Seq<LocalFileEntry>) -> Seq<Seq<char>> {
    files.map_values(|f: LocalFileEntry| f.relative_path@)
}

/// Files to upload ordered by relative path (equal paths as collected).
pub fn sort_upload_files(files: Vec<LocalFileEntry>) -> (r: Vec<LocalFileEntry>)
    ensures
        exists|ord: Seq<usize>| #[trigger] is_listing_order(ord, no_dirs(files@.len()), upload_keys(files@))
            && r@.len() == files@.len()
            && forall|k: int| 0 <= k < r@.len() ==> r@[k] == files@[ord[k] as int],
{
    let mut dirs: Vec<bool> = Vec::new();
    let mut keys: Vec<Vec<char>> = Vec::new();
    let mut i: usize = 0;
    while i < files.len()
        invariant
            i <= files@.len(),
            dirs@ == no_dirs(i as nat),
            key_views(keys@) == upload_keys(files@).take(i as int),
        decreases files.len() - i,
    {
        dirs.push(false);
        let ghost before = keys@;
        let kk = chars_of(files[i].relative_path.as_str());
        keys.push(kk);
        assert(key_views(keys@) =~= key_views(before).push(kk@));
        assert(upload_keys(files@).take(i + 1) =~= upload_keys(files@).take(i as int).push(files@[i as int].relative_path@));
        i = i + 1;
        assert(dirs@ =~= no_dirs(i as nat));
    }
    assert(key_views(keys@) =~= upload_keys(files@));
    let ord = listing_order(&dirs, &keys);
    let ghost f = files@;
    let r = apply_order(files, &ord);
    assert(is_listing_order(ord@, no_dirs(f.len()), upload_keys(f)));
    r
}

// ---------------------------------------------------------------------
// Drives
// ---------------------------------------------------------------------

/// Letters of the drives present in a logical-drive bit mask (bit 0 is A:).
pub open spec fn drive_letters(mask: u32, upto: nat) -> Seq<char>
    decreases upto,
{
    if upto == 0 {
        Seq::empty()
    } else {
        let rest = drive_letters(mask, (upto - 1) as nat);
        let index = (upto - 1) as nat;
        if (mask as nat / crate::sysinfo::two_pow(index)) % 2 == 1 {
            rest.push(((65 + index) as u8) as char)
        } else {
            rest
        }
    }
}

/// The drive list from a logical-drive mask: one directory entry `X:`
/// with path `X:\` per drive, or an error when there is none.
pub fn drive_entries(mask: u32) -> (r: Result<Vec<LocalDirEntry>, String>)
    ensures
        match r {
            Ok(v) => {
                &&& drive_letters(mask, 26).len() > 0
                &&& v@.len() == drive_letters(mask, 26).len()
                &&& forall|k: int| 0 <= k < v@.len() ==> {
                    &&& (#[trigger] v@[k]).name@ == seq![drive_letters(mask, 26)[k], ':']
                    &&& v@[k].path@ == seq![drive_letters(mask, 26)[k], ':', '\\']
                    &&& v@[k].is_dir && v@[k].size == 0 && v@[k].mtime == 0 && !v@[k].hidden
                }
            },
            Err(e) => drive_letters(mask, 26).len() == 0 && e@ == "没有找到可用磁盘"@,
        },
{
    let mut out: Vec<LocalDirEntry> = Vec::new();
    assert(crate::sysinfo::two_pow(0) == 1);
    assert(mask as nat / 1 == mask as nat);
    let mut rest: u32 = mask;
    let mut index: u32 = 0;
    while index < 26
        invariant
            index <= 26,
            rest as nat == mask as nat / crate::sysinfo::two_pow(index as nat),
            out@.len() == drive_letters(mask, index as nat).len(),
            forall|k: int| 0 <= k < out@.len() ==> {
                &&& (#[trigger] out@[k]).name@ == seq![drive_letters(mask, index as nat)[k], ':']
                &&& out@[k].path@ == seq![drive_letters(mask, index as nat)[k], ':', '\\']
                &&& out@[k].is_dir && out@[k].size == 0 && out@[k].mtime == 0 && !out@[k].hidden
            },
        decreases 26 - index,
    {
        let ghost prev = drive_letters(mask, index as nat);
        let ghost old_out = out@;
        if rest % 2 == 1 {
            let letter = ((65u8 + index as u8) as char);
            let mut name = String::new();
            push_char(&mut name, letter);
            push_char(&mut name, ':');
            let mut path = String::new();
            push_char(&mut path, letter);
            push_char(&mut path, ':');
            push_char(&mut path, '\\');
            out.push(LocalDirEntry { name, path, is_dir: true, size: 0, mtime: 0, hidden: false });
        }
        proof {
            let next = drive_letters(mask, (index + 1) as nat);
            assert(next == if (mask as nat / crate::sysinfo::two_pow(index as nat)) % 2 == 1 {
                prev.push(((65 + index) as u8) as char)
            } else {
                prev
            });
            crate::sysinfo::lemma_two_pow_mono(0, index as nat);
            vstd::arithmetic::div_mod::lemma_div_denominator(mask as int, crate::sysinfo::two_pow(index as nat) as int, 2);
            assert(crate::sysinfo::two_pow((index + 1) as nat) == 2 * crate::sysinfo::two_pow(index as nat));
            assert forall|k: int| 0 <= k < out@.len() implies {
                &&& (#[trigger] out@[k]).name@ == seq![next[k], ':']
                &&& out@[k].path@ == seq![next[k], ':', '\\']
                &&& out@[k].is_dir && out@[k].size == 0 && out@[k].mtime == 0 && !out@[k].hidden
            } by {
                if k < old_out.len() {
                    assert(next[k] == prev[k]);
                }
            }
        }
        rest = rest / 2;
        index = index + 1;
    }
    if out.len() == 0 {
        return Err(owned("没有找到可用磁盘"));
    }
    Ok(out)
}

} // verus!
