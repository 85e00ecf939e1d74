//! Browser roots: which mounted volumes are network shares, and the order in
//! which roots are offered to the user.
use vstd::prelude::*;

use crate::text::{
    ascii_lower_chars, ascii_lower_text, before_char, before_char_chars, chars_equal, chars_of,
    find_first, find_first_chars, find_last, find_last_chars, lemma_find_before_bounds,
    lemma_find_from_bounds, lines, matches_at, replace_all, replace_chars, scan_lines, scan_words, string_of,
    sub_chars, trim, trim_chars, trim_end_char, trim_end_char_chars, white_space, words,
};

verus! {

/// Names of the file systems that are treated as network shares.
pub open spec fn is_network_fs_name(name: Seq<char>) -> bool {
    ||| name == "smbfs"@
    ||| name == "cifs"@
    ||| name == "afpfs"@
    ||| name == "nfs"@
    ||| name == "nfs4"@
    ||| name == "webdav"@
    ||| name == "webdavfs"@
    ||| name == "davfs"@
    ||| name == "davfs2"@
    ||| name == "sshfs"@
    ||| name == "fuse.sshfs"@
    ||| name == "9p"@
}

/// Whether a file system type, compared without ASCII case, names a network share.
pub open spec fn is_network_fs(file_system: Seq<char>) -> bool {
    is_network_fs_name(ascii_lower_text(file_system))
}

/// The mount point that one line of the macOS `mount` listing names, when
/// its file system is a network share. The line has the shape
/// `<source> on <path> (<fs>, <options>)`: the path runs from the first
/// `" on "` to the last `" ("`.
pub open spec fn mac_mount_path(line: Seq<char>) -> Option<Seq<char>> {
    match find_first(line, " on "@) {
        None => None,
        Some(i) => {
            let mounted = line.skip(i + " on "@.len());
            match find_last(mounted, " ("@) {
                None => None,
                Some(j) => {
                    let options = mounted.skip(j + " ("@.len());
                    let file_system = trim(before_char(trim_end_char(options, ')'), ','));
                    if is_network_fs(file_system) {
                        Some(mounted.take(j))
                    } else {
                        None
                    }
                },
            }
        },
    }
}

/// The mount point that one line of Linux `/proc/self/mounts` names, when
/// its file system (third field) is a network share. The mount point is the
/// second field with each octal escape `\040` turned back into a space.
pub open spec fn linux_mount_path(line: Seq<char>) -> Option<Seq<char>> {
    let fields = words(line);
    if fields.len() < 3 {
        None
    } else if is_network_fs(fields[2]) {
        Some(replace_all(fields[1], "\\040"@, " "@))
    } else {
        None
    }
}

/// The mount point one line names, for either listing format.
pub open spec fn mount_line_path(line: Seq<char>, linux: bool) -> Option<Seq<char>> {
    if linux {
        linux_mount_path(line)
    } else {
        mac_mount_path(line)
    }
}

/// The network mount points named by `ls`, each once, in the order of the
/// line that first names it.
pub open spec fn network_paths(ls: Seq<Seq<char>>, linux: bool) -> Seq<Seq<char>>
    decreases ls.len(),
{
    if ls.len() == 0 {
        Seq::empty()
    } else {
        let rest = network_paths(ls.drop_last(), linux);
        match mount_line_path(ls.last(), linux) {
            Some(p) => if rest.contains(p) {
                rest
            } else {
                rest.push(p)
            },
            None => rest,
        }
    }
}

/// No mount point is listed twice.
pub proof fn lemma_network_paths_distinct(ls: Seq<Seq<char>>, linux: bool)
    ensures
        network_paths(ls, linux).no_duplicates(),
    decreases ls.len(),
{
    if ls.len() > 0 {
        lemma_network_paths_distinct(ls.drop_last(), linux);
        let rest = network_paths(ls.drop_last(), linux);
        match mount_line_path(ls.last(), linux) {
            Some(p) => {
                if !rest.contains(p) {
                    let pushed = rest.push(p);
                    assert forall|i: int, j: int| 0 <= i < pushed.len() && 0 <= j < pushed.len() && i != j implies pushed[i] != pushed[j] by {
                        if i == rest.len() as int {
                            assert(rest[j] == pushed[j]);
                        } else if j == rest.len() as int {
                            assert(rest[i] == pushed[i]);
                        }
                    }
                }
            },
            None => {},
        }
    }
}

/// The texts of a sequence of strings.
pub open spec fn string_views(v: Seq<String>) -> Seq<Seq<char>> {
    v.map_values(|p: String| p@)
}

/// Whether a file system type names a network share; the comparison ignores
/// ASCII case.
pub fn is_network_file_system(file_system: &str) -> (result: bool)
    ensures
        result == is_network_fs(file_system@),
{
    let chars = chars_of(file_system);
    network_fs_chars(&chars)
}

fn network_fs_chars(file_system: &Vec<char>) -> (result: bool)
    ensures
        result == is_network_fs(file_system@),
{
    let lower = ascii_lower_chars(file_system);
    chars_equal(&lower, &chars_of("smbfs")) || chars_equal(&lower, &chars_of("cifs"))
        || chars_equal(&lower, &chars_of("afpfs")) || chars_equal(&lower, &chars_of("nfs"))
        || chars_equal(&lower, &chars_of("nfs4")) || chars_equal(&lower, &chars_of("webdav"))
        || chars_equal(&lower, &chars_of("webdavfs")) || chars_equal(&lower, &chars_of("davfs"))
        || chars_equal(&lower, &chars_of("davfs2")) || chars_equal(&lower, &chars_of("sshfs"))
        || chars_equal(&lower, &chars_of("fuse.sshfs")) || chars_equal(&lower, &chars_of("9p"))
}

/// Parses one line of the macOS `mount` listing.
fn mac_line(line: &Vec<char>) -> (result: Option<Vec<char>>)
    ensures
        result matches Some(p) ==> mac_mount_path(line@) == Some(p@),
        result is None ==> mac_mount_path(line@) is None,
{
    let on = chars_of(" on ");
    let open = chars_of(" (");
    proof {
        reveal_strlit(" on ");
        reveal_strlit(" (");
    }
    match find_first_chars(line, &on) {
        None => None,
        Some(i) => {
            proof {
                lemma_find_from_bounds(line@, on@, 0);
                assert(matches_at(line@, on@, i as int));
            }
            assert(i + on.len() <= line.len());
            let mounted = sub_chars(line, i + on.len(), line.len());
            assert(mounted@ == line@.skip(i + " on "@.len()));
            match find_last_chars(&mounted, &open) {
                None => None,
                Some(j) => {
                    proof {
                        lemma_find_before_bounds(
                            mounted@,
                            open@,
                            mounted@.len() - open@.len() + 1,
                        );
                    }
                    let options = sub_chars(&mounted, j + open.len(), mounted.len());
                    assert(options@ == mounted@.skip(j + " ("@.len()));
                    let trimmed = trim_end_char_chars(&options, ')');
                    let first = before_char_chars(&trimmed, ',');
                    let file_system = trim_chars(&first);
                    if network_fs_chars(&file_system) {
                        let path = sub_chars(&mounted, 0, j);
                        assert(path@ == mounted@.take(j as int));
                        Some(path)
                    } else {
                        None
                    }
                },
            }
        },
    }
}

/// The White_Space-separated words of `line`.
fn split_words(line: &Vec<char>) -> (result: Vec<Vec<char>>)
    ensures
        result.deep_view() == words(line@),
{
    let mut done: Vec<Vec<char>> = Vec::new();
    let mut cur: Vec<char> = Vec::new();
    let mut i: usize = 0;
    while i < line.len()
        invariant
            i <= line.len(),
            (done.deep_view(), cur@) == scan_words(line@.take(i as int)),
        decreases line.len() - i,
    {
        let c = line[i];
        assert(line@.take(i + 1).drop_last() == line@.take(i as int));
        let ghost before = done.deep_view();
        if white_space(c) {
            if cur.len() > 0 {
                let word = cur;
                assert(word.deep_view() =~= word@);
                done.push(word);
                assert(done.deep_view() =~= before.push(word@));
                cur = Vec::new();
            }
        } else {
            cur.push(c);
        }
        i = i + 1;
    }
    assert(line@.take(line.len() as int) == line@);
    if cur.len() > 0 {
        let ghost before = done.deep_view();
        let word = cur;
        assert(word.deep_view() =~= word@);
        done.push(word);
        assert(done.deep_view() =~= before.push(word@));
    }
    done
}

/// Parses one line of Linux `/proc/self/mounts`.
fn linux_line(line: &Vec<char>) -> (result: Option<Vec<char>>)
    ensures
        result matches Some(p) ==> linux_mount_path(line@) == Some(p@),
        result is None ==> linux_mount_path(line@) is None,
{
    let fields = split_words(line);
    if fields.len() < 3 {
        return None;
    }
    assert(fields@[2]@ == words(line@)[2]);
    assert(fields@[1]@ == words(line@)[1]);
    if network_fs_chars(&fields[2]) {
        let escape = chars_of("\\040");
        let space = chars_of(" ");
        proof {
            reveal_strlit("\\040");
        }
        Some(replace_chars(&fields[1], &escape, &space))
    } else {
        None
    }
}

fn parse_line(line: &Vec<char>, linux: bool) -> (result: Option<Vec<char>>)
    ensures
        result matches Some(p) ==> mount_line_path(line@, linux) == Some(p@),
        result is None ==> mount_line_path(line@, linux) is None,
{
    if linux {
        linux_line(line)
    } else {
        mac_line(line)
    }
}

fn add_line_path(paths: &mut Vec<String>, line: &Vec<char>, linux: bool, Ghost(done): Ghost<
    Seq<Seq<char>>,
>)
    requires
        string_views(old(paths)@) == network_paths(done, linux),
    ensures
        string_views(final(paths)@) == network_paths(done.push(line@), linux),
{
    assert(done.push(line@).drop_last() == done);
    assert(done.push(line@).last() == line@);
    let ghost before = paths@;
    match parse_line(line, linux) {
        Some(p) => {
            let mut k: usize = 0;
            while k < paths.len()
                invariant
                    k <= paths@.len(),
                    paths@ == before,
                    forall|j: int| 0 <= j < k ==> string_views(before)[j] != p@,
                    mount_line_path(line@, linux) == Some(p@),
                    string_views(before) == network_paths(done, linux),
                    done.push(line@).drop_last() == done,
                    done.push(line@).last() == line@,
                decreases paths.len() - k,
            {
                if chars_equal(&chars_of(paths[k].as_str()), &p) {
                    assert(string_views(before)[k as int] == p@);
                    assert(string_views(before).contains(p@));
                    assert(mount_line_path(line@, linux) == Some(p@));
                    assert(network_paths(done.push(line@), linux) == network_paths(done, linux));
                    return;
                }
                k = k + 1;
            }
            assert(!string_views(before).contains(p@));
            let s = string_of(&p);
            paths.push(s);
            assert(string_views(paths@) == string_views(before).push(p@));
        },
        None => {},
    }
}

fn network_mounts(output: &str, linux: bool) -> (result: Vec<String>)
    ensures
        string_views(result@) == network_paths(lines(output@), linux),
{
    let text = chars_of(output);
    let mut paths: Vec<String> = Vec::new();
    let mut cur: Vec<char> = Vec::new();
    let ghost mut done: Seq<Seq<char>> = Seq::empty();
    let mut i: usize = 0;
    assert(string_views(paths@) =~= Seq::<Seq<char>>::empty());
    while i < text.len()
        invariant
            i <= text.len(),
            text@ == output@,
            (done, cur@) == scan_lines(text@.take(i as int)),
            string_views(paths@) == network_paths(done, linux),
        decreases text.len() - i,
    {
        let c = text[i];
        assert(text@.take(i + 1).drop_last() == text@.take(i as int));
        if c == '\n' {
            let line = if cur.len() > 0 && cur[cur.len() - 1] == '\r' {
                let l = sub_chars(&cur, 0, cur.len() - 1);
                assert(l@ == cur@.drop_last());
                l
            } else {
                cur
            };
            add_line_path(&mut paths, &line, linux, Ghost(done));
            proof {
                done = done.push(line@);
            }
            cur = Vec::new();
        } else {
            cur.push(c);
        }
        i = i + 1;
    }
    assert(text@.take(text.len() as int) == text@);
    if cur.len() > 0 {
        add_line_path(&mut paths, &cur, linux, Ghost(done));
    }
    paths
}

/// The mount points of network shares in the macOS `mount` listing, each
/// once, in line order.
pub fn parse_network_mount_paths(output: &str) -> (result: Vec<String>)
    ensures
        string_views(result@) == network_paths(lines(output@), false),
        string_views(result@).no_duplicates(),
{
    proof {
        lemma_network_paths_distinct(lines(output@), false);
    }
    network_mounts(output, false)
}

/// The mount points of network shares in Linux `/proc/self/mounts`, each
/// once, in line order.
pub fn parse_linux_network_mount_paths(output: &str) -> (result: Vec<String>)
    ensures
        string_views(result@) == network_paths(lines(output@), true),
        string_views(result@).no_duplicates(),
{
    proof {
        lemma_network_paths_distinct(lines(output@), true);
    }
    network_mounts(output, true)
}

} // verus!
