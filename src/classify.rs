use vstd::prelude::*;

use crate::entry::{FileKind, FsEntry};
use crate::path::{FsPath, PartView, PathPart};

verus! {

/// The index of the last `.` in `name`, or -1 when there is none.
pub open spec fn last_dot(name: Seq<char>) -> int
    decreases name.len(),
{
    if name.len() == 0 {
        -1
    } else if name.last() == '.' {
        name.len() - 1
    } else {
        last_dot(name.drop_last())
    }
}

/// The extension of a file name: what follows its last `.`, provided that
/// dot is not the name's first character.
pub open spec fn extension_of(name: Seq<char>) -> Option<Seq<char>> {
    if last_dot(name) >= 1 {
        Some(name.subrange(last_dot(name) + 1, name.len() as int))
    } else {
        None
    }
}

/// The extension of a path's final name; none when the path does not end in a name.
pub open spec fn path_extension(p: Seq<PartView>) -> Option<Seq<char>> {
    if p.len() > 0 {
        match p.last() {
            PartView::Normal(name) => extension_of(name),
            _ => None,
        }
    } else {
        None
    }
}

/// The kind given to a path from what the filesystem reported of it.
pub open spec fn kind_of(is_dir: bool, is_symlink: bool, p: Seq<PartView>) -> FileKind {
    if is_dir {
        FileKind::Directory
    } else if is_symlink {
        FileKind::Symlink
    } else if path_extension(p) is Some {
        FileKind::File
    } else {
        FileKind::Other
    }
}

/// The extension of a file name.
pub fn name_extension(name: &str) -> (r: Option<String>)
    ensures
        r matches Some(e) ==> extension_of(name@) == Some(e@),
        r is None ==> extension_of(name@) is None,
{
    let n = name.unicode_len();
    let mut i: usize = n;
    assert(name@.subrange(0, n as int) =~= name@);
    while i > 0
        invariant
            i <= n == name@.len(),
            last_dot(name@) == last_dot(name@.subrange(0, i as int)),
        decreases i,
    {
        let ghost sub = name@.subrange(0, i as int);
        if name.get_char(i - 1) == '.' {
            assert(sub.last() == '.');
            if i - 1 >= 1 {
                let e = name.substring_char(i, n);
                return Some(e.to_owned());
            } else {
                return None;
            }
        }
        assert(sub.drop_last() =~= name@.subrange(0, i - 1));
        i -= 1;
    }
    assert(last_dot(name@.subrange(0, 0)) == -1);
    None
}

/// The extension of the final name of `path`.
pub fn path_extension_exec(path: &FsPath) -> (r: Option<String>)
    ensures
        r matches Some(e) ==> path_extension(path@) == Some(e@),
        r is None ==> path_extension(path@) is None,
{
    let n = path.parts.len();
    if n == 0 {
        return None;
    }
    assert(path@.last() == path.parts@[n - 1]@);
    match &path.parts[n - 1] {
        PathPart::Normal(name) => name_extension(name.as_str()),
        _ => None,
    }
}

/// Classifies a path: a directory, else a symlink, else a file when its
/// name has an extension, else something other.
pub fn classify(is_dir: bool, is_symlink: bool, path: &FsPath) -> (r: FileKind)
    ensures
        r == kind_of(is_dir, is_symlink, path@),
{
    if is_dir {
        FileKind::Directory
    } else if is_symlink {
        FileKind::Symlink
    } else {
        match path_extension_exec(path) {
            Some(_) => FileKind::File,
            None => FileKind::Other,
        }
    }
}

/// Sets the kind of `entry` from what the filesystem reported of its path.
pub fn set_entry_kind(entry: &mut FsEntry, is_dir: bool, is_symlink: bool)
    ensures
        final(entry).kind == kind_of(is_dir, is_symlink, old(entry).path@),
        final(entry).path == old(entry).path,
        final(entry).metadata == old(entry).metadata,
        final(entry).errors == old(entry).errors,
{
    entry.kind = classify(is_dir, is_symlink, &entry.path);
}

} // verus!
