//! Paths as texts, of Windows and of other systems: what is absolute, and how paths are joined.

use crate::text::{chars_of, joined, slice_copy, text_of};
use vstd::prelude::*;
use vstd::string::*;

verus! {

/// Whether a character separates the names of a path.
pub open spec fn is_separator(character: char, windows: bool) -> bool {
    character == '/' || (windows && character == '\\')
}

/// The character that is put between names.
pub open spec fn separator(windows: bool) -> char {
    if windows {
        '\\'
    } else {
        '/'
    }
}

/// Whether a path of Windows begins with a drive.
pub open spec fn has_drive(path: Seq<char>) -> bool {
    path.len() >= 2 && path[1] == ':' && ('a' <= path[0] <= 'z' || 'A' <= path[0] <= 'Z')
}

/// Where the name that begins at a place of a path of Windows ends.
pub open spec fn name_end(path: Seq<char>, from: int) -> int
    decreases path.len() - from,
{
    if from < 0 || from >= path.len() || is_separator(path[from], true) {
        from
    } else {
        name_end(path, from + 1)
    }
}

/// How much of a path of Windows names a share: two separators, a server, a separator and a
/// share.
pub open spec fn share_len(path: Seq<char>) -> int {
    if path.len() < 2 || !is_separator(path[0], true) || !is_separator(path[1], true) {
        0
    } else {
        let server_end = name_end(path, 2);
        if server_end == 2 || server_end >= path.len() {
            0
        } else {
            let share_end = name_end(path, server_end + 1);
            if share_end == server_end + 1 {
                0
            } else {
                share_end
            }
        }
    }
}

/// How much of a path of Windows says on which drive or share it lies.
pub open spec fn prefix_len(path: Seq<char>) -> int {
    if has_drive(path) {
        2
    } else {
        share_len(path)
    }
}

/// Whether a path is absolute. On Windows that takes a drive and a separator behind it, or a
/// share.
pub open spec fn is_absolute_path(path: Seq<char>, windows: bool) -> bool {
    if windows {
        if has_drive(path) {
            path.len() > 2 && is_separator(path[2], true)
        } else {
            share_len(path) > 0
        }
    } else {
        path.len() > 0 && path[0] == '/'
    }
}

/// A name inside a directory. A directory that ends in a separator gets no second one, and a
/// bare drive gets none.
pub open spec fn inside_on(directory: Seq<char>, name: Seq<char>, windows: bool) -> Seq<char> {
    if directory.len() == 0 || is_separator(directory.last(), windows) || (windows && has_drive(
        directory,
    ) && directory.len() == 2) {
        directory + name
    } else {
        directory.push(separator(windows)) + name
    }
}

/// A path joined to a directory: an absolute one stands alone, and so does one of Windows
/// that names a drive; one that begins at the root keeps the drive or share of the directory.
pub open spec fn joined_path(directory: Seq<char>, rest: Seq<char>, windows: bool) -> Seq<char> {
    if is_absolute_path(rest, windows) || (windows && has_drive(rest)) {
        rest
    } else if windows && rest.len() > 0 && is_separator(rest[0], true) {
        directory.take(prefix_len(directory)) + rest
    } else {
        inside_on(directory, rest, windows)
    }
}

/// A path with each separator as a slash.
pub open spec fn slashed(path: Seq<char>, windows: bool) -> Seq<char> {
    path.map_values(
        |c: char|
            if is_separator(c, windows) {
                '/'
            } else {
                c
            },
    )
}

fn separates(character: char, windows: bool) -> (yes: bool)
    ensures
        yes == is_separator(character, windows),
{
    character == '/' || (windows && character == '\\')
}

fn names_drive(path: &Vec<char>) -> (yes: bool)
    ensures
        yes == has_drive(path@),
{
    path.len() >= 2 && path[1] == ':' && (('a' <= path[0] && path[0] <= 'z') || ('A' <= path[0]
        && path[0] <= 'Z'))
}

fn end_of_name(path: &Vec<char>, from: usize) -> (end: usize)
    requires
        from <= path@.len(),
    ensures
        end == name_end(path@, from as int),
        from <= end <= path@.len(),
{
    let mut end = from;
    while end < path.len() && !separates(path[end], true)
        invariant
            from <= end <= path@.len(),
            name_end(path@, from as int) == name_end(path@, end as int),
        decreases path@.len() - end,
    {
        end += 1;
    }
    end
}

fn length_of_share(path: &Vec<char>) -> (len: usize)
    ensures
        len == share_len(path@),
        len <= path@.len(),
{
    if path.len() < 2 || !separates(path[0], true) || !separates(path[1], true) {
        return 0;
    }
    let server_end = end_of_name(path, 2);
    if server_end == 2 || server_end >= path.len() {
        return 0;
    }
    let share_end = end_of_name(path, server_end + 1);
    if share_end == server_end + 1 {
        0
    } else {
        share_end
    }
}

/// Whether a path is absolute.
pub fn path_is_absolute(path: &str, windows: bool) -> (yes: bool)
    ensures
        yes == is_absolute_path(path@, windows),
{
    let chars = chars_of(path);
    if !windows {
        return chars.len() > 0 && chars[0] == '/';
    }
    if names_drive(&chars) {
        chars.len() > 2 && separates(chars[2], true)
    } else {
        length_of_share(&chars) > 0
    }
}

/// Whether a path of Windows begins with a drive.
pub fn begins_with_drive(path: &str) -> (yes: bool)
    ensures
        yes == has_drive(path@),
{
    names_drive(&chars_of(path))
}

/// A name inside a directory.
pub fn path_inside_on(directory: &str, name: &str, windows: bool) -> (path: String)
    ensures
        path@ == inside_on(directory@, name@, windows),
{
    let chars = chars_of(directory);
    let last = chars.len();
    if last == 0 || separates(chars[last - 1], windows) || (windows && last == 2 && names_drive(
        &chars,
    )) {
        return joined(directory, name);
    }
    let mut base: String = directory.to_owned();
    base.push(
        if windows {
            '\\'
        } else {
            '/'
        },
    );
    joined(base.as_str(), name)
}

/// A path joined to a directory.
pub fn join_path(directory: &str, rest: &str, windows: bool) -> (path: String)
    ensures
        path@ == joined_path(directory@, rest@, windows),
{
    let chars = chars_of(rest);
    if path_is_absolute(rest, windows) || (windows && names_drive(&chars)) {
        return rest.to_owned();
    }
    if windows && chars.len() > 0 && separates(chars[0], true) {
        let base = chars_of(directory);
        let kept = if names_drive(&base) {
            2
        } else {
            length_of_share(&base)
        };
        let prefix = slice_copy(base.as_slice(), 0, kept);
        assert(prefix@ =~= directory@.take(prefix_len(directory@)));
        return joined(text_of(prefix.as_slice()).as_str(), rest);
    }
    path_inside_on(directory, rest, windows)
}

/// A path with each separator as a slash.
pub fn with_slashes(path: &str, windows: bool) -> (text: String)
    ensures
        text@ == slashed(path@, windows),
{
    let chars = chars_of(path);
    let mut out: Vec<char> = Vec::new();
    let mut i: usize = 0;
    while i < chars.len()
        invariant
            i <= chars@.len(),
            out@.len() == i,
            forall|k: int| 0 <= k < i ==> #[trigger] out@[k] == slashed(chars@, windows)[k],
        decreases chars@.len() - i,
    {
        out.push(
            if separates(chars[i], windows) {
                '/'
            } else {
                chars[i]
            },
        );
        i += 1;
    }
    assert(out@ =~= slashed(path@, windows));
    text_of(out.as_slice())
}

/// A relative path of a plain kind stays below the directory that it is joined to: the joined
/// path begins with the directory.
pub proof fn plain_paths_stay_inside(directory: Seq<char>, rest: Seq<char>, windows: bool)
    requires
        !(rest.len() > 0 && is_separator(rest[0], windows)),
        !(windows && has_drive(rest)),
    ensures
        directory.is_prefix_of(joined_path(directory, rest, windows)),
{
    let path = joined_path(directory, rest, windows);
    assert(path == inside_on(directory, rest, windows));
    assert(path.subrange(0, directory.len() as int) =~= directory);
}

/// A name is put into a directory with one separator between them: that of the system, unless
/// the directory ends in one. A bare drive of Windows, and a directory of no name, get none.
pub proof fn names_follow_one_separator(directory: Seq<char>, name: Seq<char>)
    ensures
        directory.len() > 0 && directory.last() != '/' ==> inside_on(directory, name, false)
            == directory.push('/') + name,
        directory.len() > 0 && directory.last() == '/' ==> inside_on(directory, name, false)
            == directory + name,
        directory.len() == 0 ==> inside_on(directory, name, false) == name && inside_on(
            directory,
            name,
            true,
        ) == name,
        directory.len() > 2 && directory.last() != '/' && directory.last() != '\\' ==> inside_on(
            directory,
            name,
            true,
        ) == directory.push('\\') + name,
        directory.len() > 0 && (directory.last() == '/' || directory.last() == '\\')
            ==> inside_on(directory, name, true) == directory + name,
        directory.len() == 2 && directory[1] == ':' && 'A' <= directory[0] <= 'Z' ==> inside_on(
            directory,
            name,
            true,
        ) == directory + name,
{
    if directory.len() == 0 {
        assert(directory + name =~= name);
    }
}

/// What is joined to a directory: an absolute path stands alone, any other lies inside; on
/// Windows one with a drive of its own stands alone, and one that begins at the root keeps the
/// drive.
pub proof fn absolute_paths_stand_alone(directory: Seq<char>, rest: Seq<char>)
    ensures
        rest.len() > 0 && rest[0] == '/' ==> joined_path(directory, rest, false) == rest,
        rest.len() == 0 || rest[0] != '/' ==> joined_path(directory, rest, false) == inside_on(
            directory,
            rest,
            false,
        ),
        rest.len() >= 2 && rest[1] == ':' && ('a' <= rest[0] <= 'z' || 'A' <= rest[0] <= 'Z')
            ==> joined_path(directory, rest, true) == rest,
        rest.len() >= 1 && (rest[0] == '/' || rest[0] == '\\') && (rest.len() == 1 || (rest[1]
            != '/' && rest[1] != '\\')) && directory.len() >= 2 && directory[1] == ':' && 'A'
            <= directory[0] <= 'Z' ==> joined_path(directory, rest, true) == directory.take(2)
            + rest,
        rest.len() >= 2 && rest[1] != ':' && rest[0] != '/' && rest[0] != '\\' ==> joined_path(
            directory,
            rest,
            true,
        ) == inside_on(directory, rest, true),
{
}

proof fn names_end_at_separators(path: Seq<char>, from: int, end: int)
    requires
        0 <= from <= end <= path.len(),
        forall|k: int| from <= k < end ==> (#[trigger] path[k]) != '/' && path[k] != '\\',
        end < path.len() ==> path[end] == '/' || path[end] == '\\',
    ensures
        name_end(path, from) == end,
    decreases end - from,
{
    if from < end {
        assert(path[from] != '/' && path[from] != '\\');
        names_end_at_separators(path, from + 1, end);
    }
}

/// What makes a path absolute: a slash in front, or on Windows a drive and a separator, or two
/// separators, a server, a separator and a share, of which neither is empty.
pub proof fn absolute_paths_begin_at_a_root(
    path: Seq<char>,
    server: Seq<char>,
    share: Seq<char>,
    rest: Seq<char>,
)
    ensures
        is_absolute_path(path, false) <==> path.len() > 0 && path[0] == '/',
        path.len() >= 2 && path[1] == ':' && ('a' <= path[0] <= 'z' || 'A' <= path[0] <= 'Z')
            ==> (is_absolute_path(path, true) <==> path.len() > 2 && (path[2] == '/' || path[2]
            == '\\')),
        path.len() < 2 ==> !is_absolute_path(path, true),
        path.len() >= 2 && path[1] != ':' && !(path[0] == '\\' || path[0] == '/')
            ==> !is_absolute_path(path, true),
        path == seq!['\\', '\\'] + server + seq!['\\'] + share + rest && server.len() > 0
            && share.len() > 0 && (rest.len() == 0 || rest[0] == '\\') && (forall|k: int|
            0 <= k < server.len() ==> (#[trigger] server[k]) != '/' && server[k] != '\\' && server[k]
                != ':') && (forall|k: int|
            0 <= k < share.len() ==> (#[trigger] share[k]) != '/' && share[k] != '\\')
            ==> is_absolute_path(path, true) && prefix_len(path) == 3 + server.len()
            + share.len(),
{
    if path == seq!['\\', '\\'] + server + seq!['\\'] + share + rest && server.len() > 0
        && share.len() > 0 && (rest.len() == 0 || rest[0] == '\\') && (forall|k: int|
        0 <= k < server.len() ==> (#[trigger] server[k]) != '/' && server[k] != '\\' && server[k]
            != ':') && (forall|k: int|
        0 <= k < share.len() ==> (#[trigger] share[k]) != '/' && share[k] != '\\') {
        let a = 2 + server.len() as int;
        let b = a + 1 + share.len() as int;
        assert(path[0] == '\\' && path[1] == '\\');
        assert forall|k: int| 2 <= k < a implies (#[trigger] path[k]) != '/' && path[k] != '\\' by {
            assert(path[k] == server[k - 2]);
        }
        assert(path[a] == '\\');
        names_end_at_separators(path, 2, a);
        assert forall|k: int| a + 1 <= k < b implies (#[trigger] path[k]) != '/' && path[k]
            != '\\' by {
            assert(path[k] == share[k - a - 1]);
        }
        if b < path.len() {
            assert(path[b] == rest[0]);
        }
        names_end_at_separators(path, a + 1, b);
    }
}

/// A path with slashes has a slash for each separator of its system, and every other character
/// as it was.
pub proof fn separators_become_slashes(path: Seq<char>, windows: bool, i: int)
    requires
        0 <= i < path.len(),
    ensures
        slashed(path, windows).len() == path.len(),
        path[i] == '/' ==> slashed(path, windows)[i] == '/',
        path[i] == '\\' ==> slashed(path, windows)[i] == (if windows {
            '/'
        } else {
            '\\'
        }),
        path[i] != '/' && path[i] != '\\' ==> slashed(path, windows)[i] == path[i],
{
}

} // verus!
