//! File-by-file comparison of a local directory with a server directory:
//! the listing each side gives (relative path, size, MD5), which local
//! files are new or changed, and which server files the local side lacks.

use vstd::prelude::*;
use crate::backend::as_ints;
use crate::config::OsType;
use crate::history::{first_index, lemma_first_index};
use crate::text::{
    ascii_lower, ascii_lower_exec, chars_of, lines, lines_exec, parse_u64_chars, spec_parse_u64, split_char,
    split_char_exec, string_of, views_of_vecs,
};

verus! {

/// A listed file by its values: path below the listed directory with '/'
/// separators, size in bytes, lower-case hexadecimal MD5 of its content.
pub type EntryView = (Seq<char>, u64, Seq<char>);

pub open spec fn entry_view(e: (String, u64, String)) -> EntryView {
    (e.0@, e.1, e.2@)
}

pub open spec fn entry_views(v: Seq<(String, u64, String)>) -> Seq<EntryView> {
    v.map_values(|e: (String, u64, String)| entry_view(e))
}

// ---------------------------------------------------------------------
// Comparison
// ---------------------------------------------------------------------

/// The first server entry with the given path.
pub open spec fn entry_for(remote: Seq<EntryView>, path: Seq<char>) -> Option<int> {
    first_index(remote, |e: EntryView| e.0 == path)
}

/// A local file is uploaded when the server has no file at its path, or
/// has one of another size or content.
pub open spec fn needs_upload(local: EntryView, remote: Seq<EntryView>) -> bool {
    match entry_for(remote, local.0) {
        None => true,
        Some(j) => remote[j].1 != local.1 || remote[j].2 != local.2,
    }
}

/// Positions, in local order, of the local files to upload.
pub open spec fn spec_files_to_upload(local: Seq<EntryView>, remote: Seq<EntryView>) -> Seq<int>
    decreases local.len(),
{
    if local.len() == 0 {
        Seq::empty()
    } else {
        let rest = spec_files_to_upload(local.drop_last(), remote);
        if needs_upload(local.last(), remote) {
            rest.push(local.len() - 1)
        } else {
            rest
        }
    }
}

/// Positions, in server order, of the server files whose path no local
/// file has.
pub open spec fn spec_files_to_remove(local: Seq<EntryView>, remote: Seq<EntryView>) -> Seq<int>
    decreases remote.len(),
{
    if remote.len() == 0 {
        Seq::empty()
    } else {
        let rest = spec_files_to_remove(local, remote.drop_last());
        if entry_for(local, remote.last().0) is None {
            rest.push(remote.len() - 1)
        } else {
            rest
        }
    }
}

/// Exactly the new or changed local files are uploaded, in local order: a
/// position is chosen if and only if the local file there has no server
/// file at its path or differs from it in size or MD5. In particular a
/// file the server already holds with the same size and MD5 is not sent.
pub proof fn lemma_upload_exactly_changed(local: Seq<EntryView>, remote: Seq<EntryView>)
    ensures
        forall|k: int|
            spec_files_to_upload(local, remote).contains(k) <==> 0 <= k < local.len() && needs_upload(local[k], remote),
        forall|a: int, b: int|
            0 <= a < b < spec_files_to_upload(local, remote).len() ==> spec_files_to_upload(local, remote)[a]
                < spec_files_to_upload(local, remote)[b],
    decreases local.len(),
{
    if local.len() > 0 {
        let front = local.drop_last();
        lemma_upload_exactly_changed(front, remote);
        let rest = spec_files_to_upload(front, remote);
        assert forall|k: int| 0 <= k < rest.len() implies rest[k] < front.len() by {
            assert(rest.contains(rest[k]));
        }
        assert forall|k: int| spec_files_to_upload(local, remote).contains(k) <==> 0 <= k < local.len() && needs_upload(local[k], remote) by {
            if 0 <= k < front.len() {
                assert(front[k] == local[k]);
            }
            if needs_upload(local.last(), remote) {
                assert(rest.push(local.len() - 1)[rest.len() as int] == local.len() - 1);
                let all = rest.push(local.len() - 1);
                if all.contains(k) && k != local.len() - 1 {
                    let i = choose|i: int| 0 <= i < all.len() && #[trigger] all[i] == k;
                    assert(rest[i] == k);
                }
                if rest.contains(k) {
                    let i = choose|i: int| 0 <= i < rest.len() && rest[i] == k;
                    assert(rest.push(local.len() - 1)[i] == k);
                }
            }
        }
    }
}

/// Exactly the server files whose path no local file has are deleted by a
/// mirror, in server order.
pub proof fn lemma_remove_exactly_extra(local: Seq<EntryView>, remote: Seq<EntryView>)
    ensures
        forall|j: int|
            spec_files_to_remove(local, remote).contains(j) <==> 0 <= j < remote.len() && entry_for(local, remote[j].0) is None,
    decreases remote.len(),
{
    if remote.len() > 0 {
        let front = remote.drop_last();
        lemma_remove_exactly_extra(local, front);
        let rest = spec_files_to_remove(local, front);
        assert forall|j: int| spec_files_to_remove(local, remote).contains(j) <==> 0 <= j < remote.len() && entry_for(local, remote[j].0) is None by {
            if 0 <= j < front.len() {
                assert(front[j] == remote[j]);
            }
            if entry_for(local, remote.last().0) is None {
                assert(rest.push(remote.len() - 1)[rest.len() as int] == remote.len() - 1);
                let all = rest.push(remote.len() - 1);
                if all.contains(j) && j != remote.len() - 1 {
                    let i = choose|i: int| 0 <= i < all.len() && #[trigger] all[i] == j;
                    assert(rest[i] == j);
                }
                if rest.contains(j) {
                    let i = choose|i: int| 0 <= i < rest.len() && rest[i] == j;
                    assert(rest.push(remote.len() - 1)[i] == j);
                }
            }
        }
    }
}

/// The first entry of `entries` with the given path.
pub fn find_entry(entries: &Vec<(String, u64, String)>, path: &String) -> (r: Option<usize>)
    ensures
        match r {
            Some(j) => entry_for(entry_views(entries@), path@) == Some(j as int),
            None => entry_for(entry_views(entries@), path@) is None,
        },
        r matches Some(j) ==> j < entries@.len(),
{
    let ghost v = entry_views(entries@);
    let ghost p = |e: EntryView| e.0 == path@;
    let mut j: usize = 0;
    while j < entries.len()
        invariant
            j <= entries@.len(),
            v == entry_views(entries@),
            p == (|e: EntryView| e.0 == path@),
            forall|k: int| 0 <= k < j ==> !p(v[k]),
        decreases entries.len() - j,
    {
        if crate::text::str_eq(entries[j].0.as_str(), path.as_str()) {
            proof {
                lemma_first_index(v, p, j as int);
            }
            return Some(j);
        }
        j = j + 1;
    }
    proof {
        lemma_first_index(v, p, j as int);
    }
    None
}

/// The local files that are new or changed on the server, by position in
/// `local`: those whose path the server listing lacks, or whose size or
/// MD5 differs from the server's file at that path.
pub fn files_to_upload(local: &Vec<(String, u64, String)>, remote: &Vec<(String, u64, String)>) -> (r: Vec<usize>)
    ensures
        as_ints(r@) == spec_files_to_upload(entry_views(local@), entry_views(remote@)),
        forall|k: int| 0 <= k < r@.len() ==> r@[k] < local@.len(),
{
    let ghost lv = entry_views(local@);
    let ghost rv = entry_views(remote@);
    let mut out: Vec<usize> = Vec::new();
    let mut i: usize = 0;
    while i < local.len()
        invariant
            i <= local@.len(),
            lv == entry_views(local@),
            rv == entry_views(remote@),
            as_ints(out@) == spec_files_to_upload(lv.take(i as int), rv),
            forall|k: int| 0 <= k < out@.len() ==> out@[k] < i,
        decreases local.len() - i,
    {
        assert(lv.take(i + 1).drop_last() =~= lv.take(i as int));
        assert(lv.take(i + 1).last() == lv[i as int]);
        let entry = &local[i];
        let changed = match find_entry(remote, &entry.0) {
            None => true,
            Some(j) => remote[j].1 != entry.1 || !crate::text::str_eq(remote[j].2.as_str(), entry.2.as_str()),
        };
        assert(changed == needs_upload(lv[i as int], rv));
        if changed {
            let ghost before = out@;
            out.push(i);
            assert(as_ints(out@) =~= as_ints(before).push(i as int));
        }
        i = i + 1;
    }
    assert(lv.take(local@.len() as int) =~= lv);
    out
}

/// The server files the local directory does not have, by position in
/// `remote`: what a mirror deletes.
pub fn files_to_remove(local: &Vec<(String, u64, String)>, remote: &Vec<(String, u64, String)>) -> (r: Vec<usize>)
    ensures
        as_ints(r@) == spec_files_to_remove(entry_views(local@), entry_views(remote@)),
        forall|k: int| 0 <= k < r@.len() ==> r@[k] < remote@.len(),
{
    let ghost lv = entry_views(local@);
    let ghost rv = entry_views(remote@);
    let mut out: Vec<usize> = Vec::new();
    let mut i: usize = 0;
    while i < remote.len()
        invariant
            i <= remote@.len(),
            lv == entry_views(local@),
            rv == entry_views(remote@),
            as_ints(out@) == spec_files_to_remove(lv, rv.take(i as int)),
            forall|k: int| 0 <= k < out@.len() ==> out@[k] < i,
        decreases remote.len() - i,
    {
        assert(rv.take(i + 1).drop_last() =~= rv.take(i as int));
        assert(rv.take(i + 1).last() == rv[i as int]);
        if find_entry(local, &remote[i].0).is_none() {
            let ghost before = out@;
            out.push(i);
            assert(as_ints(out@) =~= as_ints(before).push(i as int));
        }
        i = i + 1;
    }
    assert(rv.take(remote@.len() as int) =~= rv);
    out
}

/// The paths of the entries at the given positions, in that order.
pub open spec fn paths_at(entries: Seq<EntryView>, picks: Seq<int>) -> Seq<Seq<char>> {
    picks.map_values(|k: int| entries[k].0)
}

pub fn paths_of(entries: &Vec<(String, u64, String)>, picks: &Vec<usize>) -> (r: Vec<String>)
    requires
        forall|k: int| 0 <= k < picks@.len() ==> picks@[k] < entries@.len(),
    ensures
        crate::text::views(r@) == paths_at(entry_views(entries@), as_ints(picks@)),
{
    let mut out: Vec<String> = Vec::new();
    let mut i: usize = 0;
    while i < picks.len()
        invariant
            i <= picks@.len(),
            forall|k: int| 0 <= k < picks@.len() ==> picks@[k] < entries@.len(),
            crate::text::views(out@) == paths_at(entry_views(entries@), as_ints(picks@)).take(i as int),
        decreases picks.len() - i,
    {
        let ghost before = crate::text::views(out@);
        let path = entries[picks[i]].0.clone();
        out.push(path);
        assert(crate::text::views(out@) =~= before.push(path@));
        assert(paths_at(entry_views(entries@), as_ints(picks@))[i as int] == entries@[picks@[i as int] as int].0@);
        assert(crate::text::views(out@) =~= paths_at(entry_views(entries@), as_ints(picks@)).take(i + 1));
        i = i + 1;
    }
    assert(paths_at(entry_views(entries@), as_ints(picks@)).take(picks@.len() as int) =~= paths_at(
        entry_views(entries@),
        as_ints(picks@),
    ));
    out
}

// ---------------------------------------------------------------------
// Server listing
// ---------------------------------------------------------------------

/// One line of a listing: size, tab, MD5, tab, path; the MD5 is taken in
/// lower case. Lines of another shape are no entry.
pub open spec fn listing_entry(line: Seq<char>) -> Option<EntryView> {
    let f = split_char(line, '\t');
    if f.len() == 3 && f[1].len() > 0 && f[2].len() > 0 {
        match spec_parse_u64(f[0]) {
            Some(n) => Some((f[2], n, ascii_lower(f[1]))),
            None => None,
        }
    } else {
        None
    }
}

/// The entries of the listing's lines, in order.
pub open spec fn listing_entries(ls: Seq<Seq<char>>) -> Seq<EntryView>
    decreases ls.len(),
{
    if ls.len() == 0 {
        Seq::empty()
    } else {
        let rest = listing_entries(ls.drop_last());
        match listing_entry(ls.last()) {
            Some(e) => rest.push(e),
            None => rest,
        }
    }
}

fn listing_entry_exec(line: &[char]) -> (r: Option<(String, u64, String)>)
    ensures
        match (r, listing_entry(line@)) {
            (Some(e), Some(v)) => entry_view(e) == v,
            (None, None) => true,
            _ => false,
        },
{
    let f = split_char_exec(line, '\t');
    proof {
        assert(views_of_vecs(f@).len() == f@.len());
    }
    if f.len() != 3 || f[1].len() == 0 || f[2].len() == 0 {
        proof {
            if f@.len() == 3 {
                assert(views_of_vecs(f@)[1] == f@[1]@);
                assert(views_of_vecs(f@)[2] == f@[2]@);
            }
        }
        return None;
    }
    assert(views_of_vecs(f@)[0] == f@[0]@);
    assert(views_of_vecs(f@)[1] == f@[1]@);
    assert(views_of_vecs(f@)[2] == f@[2]@);
    match parse_u64_chars(f[0].as_slice()) {
        Some(n) => {
            let hash = ascii_lower_exec(f[1].as_slice());
            Some((string_of(f[2].as_slice()), n, string_of(hash.as_slice())))
        },
        None => None,
    }
}

/// Reads the output of `listing_script`.
pub fn parse_file_listing(output: &str) -> (r: Vec<(String, u64, String)>)
    ensures
        entry_views(r@) == listing_entries(lines(output@)),
{
    let chars = chars_of(output);
    let ls = lines_exec(chars.as_slice());
    let ghost lv = views_of_vecs(ls@);
    let mut out: Vec<(String, u64, String)> = Vec::new();
    let mut i: usize = 0;
    while i < ls.len()
        invariant
            i <= ls@.len(),
            lv == views_of_vecs(ls@),
            lv == lines(output@),
            entry_views(out@) == listing_entries(lv.take(i as int)),
        decreases ls.len() - i,
    {
        assert(lv.take(i + 1).drop_last() =~= lv.take(i as int));
        assert(lv.take(i + 1).last() == ls@[i as int]@);
        match listing_entry_exec(ls[i].as_slice()) {
            Some(e) => {
                let ghost before = entry_views(out@);
                out.push(e);
                assert(entry_views(out@) =~= before.push(entry_view(e)));
            },
            None => {},
        }
        i = i + 1;
    }
    assert(lv.take(ls@.len() as int) =~= lv);
    out
}

/// The script that lists the files below a server directory, one line per
/// file: size, tab, MD5, tab, path below the directory with '/'
/// separators. A missing directory lists nothing. `dir` is the directory
/// already quoted for the server's shell (without the surrounding quotes).
pub open spec fn spec_listing_script(os: OsType, dir: Seq<char>) -> Seq<char> {
    match os {
        OsType::Linux => "cd '"@ + dir + "' 2>/dev/null || exit 0\nfind . -type f | while IFS= read -r f; do\n  s=$(wc -c < \"$f\" | tr -d ' ')\n  h=$(md5sum < \"$f\" | cut -c1-32)\n  printf '%s\\t%s\\t%s\\n' \"$s\" \"$h\" \"${f#./}\"\ndone"@,
        OsType::Windows => "$dir = '"@ + dir + "'\nif (-not (Test-Path -LiteralPath $dir)) { exit 0 }\n$root = (Resolve-Path -LiteralPath $dir).Path.TrimEnd('\\') + '\\'\nGet-ChildItem -LiteralPath $dir -Recurse -File -Force | ForEach-Object {\n  $h = (Get-FileHash -LiteralPath $_.FullName -Algorithm MD5).Hash.ToLower()\n  $p = $_.FullName.Substring($root.Length).Replace('\\', '/')\n  Write-Output (\"{0}`t{1}`t{2}\" -f $_.Length, $h, $p)\n}\nexit 0"@,
    }
}

pub fn listing_script(os: OsType, dir: &str) -> (r: String)
    ensures
        r@ == spec_listing_script(os, dir@),
{
    match os {
        OsType::Linux => {
            let mut s = crate::text::owned("cd '");
            s.append(dir);
            s.append("' 2>/dev/null || exit 0\nfind . -type f | while IFS= read -r f; do\n  s=$(wc -c < \"$f\" | tr -d ' ')\n  h=$(md5sum < \"$f\" | cut -c1-32)\n  printf '%s\\t%s\\t%s\\n' \"$s\" \"$h\" \"${f#./}\"\ndone");
            s
        },
        OsType::Windows => {
            let mut s = crate::text::owned("$dir = '");
            s.append(dir);
            s.append("'\nif (-not (Test-Path -LiteralPath $dir)) { exit 0 }\n$root = (Resolve-Path -LiteralPath $dir).Path.TrimEnd('\\') + '\\'\nGet-ChildItem -LiteralPath $dir -Recurse -File -Force | ForEach-Object {\n  $h = (Get-FileHash -LiteralPath $_.FullName -Algorithm MD5).Hash.ToLower()\n  $p = $_.FullName.Substring($root.Length).Replace('\\', '/')\n  Write-Output (\"{0}`t{1}`t{2}\" -f $_.Length, $h, $p)\n}\nexit 0");
            s
        },
    }
}

} // verus!
