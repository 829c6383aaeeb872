//! The mathematical model of the filesystem core: ghost views of the
//! directory-entry arena and the mount table, the meaning of a path's
//! components, and the meaning of each operation, including the full
//! resolution algorithm.

use vstd::prelude::*;
use crate::fs::{FileSystemError, FileType, LookupMode, MountPoint};

verus! {

/// The view of one directory entry: its mutable name and parent link,
/// its classification, the children its backend holds, and its bytes.
#[verifier::ext_equal]
pub struct EntryView {
    pub name: Seq<char>,
    pub parent: Option<usize>,
    pub file_type: FileType,
    pub children: Seq<usize>,
    pub contents: Seq<u8>,
}

/// The view of one registered mount: the key (the mounted-over
/// directory's identity and name) and the two entries of the mount point.
#[verifier::ext_equal]
pub struct MountView {
    pub id: usize,
    pub name: Seq<char>,
    pub root_entry: usize,
    pub origin_entry: usize,
}

/// The view of the whole filesystem state.
#[verifier::ext_equal]
pub struct VfsView {
    pub entries: Seq<EntryView>,
    pub mounts: Seq<MountView>,
    pub root: Option<usize>,
}

/// The component that stands for the current directory.
pub open spec fn dot_name() -> Seq<char> {
    seq!['.']
}

/// The component that stands for the parent directory.
pub open spec fn dotdot_name() -> Seq<char> {
    seq!['.', '.']
}

/// Whether a raw segment survives component derivation: empty segments
/// and "." are discarded.
pub open spec fn keep_component(c: Seq<char>) -> bool {
    c.len() > 0 && c != dot_name()
}

/// Splits `s` on the separator, discarding empty and "." segments;
/// `cur` is the segment read so far.
pub open spec fn components_from(s: Seq<char>, cur: Seq<char>) -> Seq<Seq<char>>
    decreases s.len(),
{
    if s.len() == 0 {
        if keep_component(cur) {
            seq![cur]
        } else {
            Seq::empty()
        }
    } else if s[0] == '/' {
        if keep_component(cur) {
            seq![cur] + components_from(s.drop_first(), Seq::empty())
        } else {
            components_from(s.drop_first(), Seq::empty())
        }
    } else {
        components_from(s.drop_first(), cur.push(s[0]))
    }
}

/// The components of the path text `s`.
pub open spec fn path_components(s: Seq<char>) -> Seq<Seq<char>> {
    components_from(s, Seq::empty())
}

/// Whether the path text `s` is absolute: it begins with the separator.
pub open spec fn spec_is_absolute(s: Seq<char>) -> bool {
    s.len() > 0 && s[0] == '/'
}

/// The position of the last separator in `s`, if any.
pub open spec fn spec_rfind_slash(s: Seq<char>) -> Option<int>
    decreases s.len(),
{
    if s.len() == 0 {
        None
    } else if s[s.len() - 1] == '/' {
        Some(s.len() - 1)
    } else {
        spec_rfind_slash(s.drop_last())
    }
}

/// Whether every child and parent link of every entry, every mount, and
/// the root point inside the arena.
pub open spec fn entry_wf(e: EntryView, n: int) -> bool {
    &&& match e.parent {
        Some(p) => (p as int) < n,
        None => true,
    }
    &&& forall|i: int| 0 <= i < e.children.len() ==> (e.children[i] as int) < n
}

pub open spec fn entries_wf(entries: Seq<EntryView>) -> bool {
    forall|i: int|
        0 <= i < entries.len() ==> entry_wf(#[trigger] entries[i], entries.len() as int)
}

pub open spec fn vfs_wf(v: VfsView) -> bool {
    &&& entries_wf(v.entries)
    &&& forall|i: int|
        0 <= i < v.mounts.len() ==> ((#[trigger] v.mounts[i]).root_entry as int) < v.entries.len()
            && (v.mounts[i].origin_entry as int) < v.entries.len()
    &&& match v.root {
        Some(r) => (r as int) < v.entries.len(),
        None => true,
    }
}

/// The first child among `children` whose entry carries `name`.
pub open spec fn spec_find_child(
    entries: Seq<EntryView>,
    children: Seq<usize>,
    name: Seq<char>,
) -> Option<usize>
    decreases children.len(),
{
    if children.len() == 0 {
        None
    } else if entries[children[0] as int].name == name {
        Some(children[0])
    } else {
        spec_find_child(entries, children.drop_first(), name)
    }
}

/// What looking a name up under a directory returns: the child, or
/// entry-not-found; on a non-directory, not-a-directory.
pub open spec fn spec_lookup(
    entries: Seq<EntryView>,
    dir: usize,
    name: Seq<char>,
) -> Result<usize, FileSystemError> {
    if entries[dir as int].file_type != FileType::Directory {
        Err(FileSystemError::NotDirectory)
    } else {
        match spec_find_child(entries, entries[dir as int].children, name) {
            Some(c) => Ok(c),
            None => Err(FileSystemError::EntryNotFound),
        }
    }
}

/// The first mount registered under the key `(id, name)`.
pub open spec fn spec_find_mount(
    mounts: Seq<MountView>,
    id: usize,
    name: Seq<char>,
) -> Option<MountPoint>
    decreases mounts.len(),
{
    if mounts.len() == 0 {
        None
    } else if mounts[0].id == id && mounts[0].name == name {
        Some(MountPoint { root_entry: mounts[0].root_entry, origin_entry: mounts[0].origin_entry })
    } else {
        spec_find_mount(mounts.drop_first(), id, name)
    }
}

/// Where resolution stands after descending into `e`: if `e` is a
/// directory with a mount registered at its identity, the mounted
/// filesystem's root; otherwise `e` itself.
pub open spec fn spec_descend(v: VfsView, e: usize) -> usize {
    if v.entries[e as int].file_type == FileType::Directory {
        match spec_find_mount(v.mounts, e, v.entries[e as int].name) {
            Some(mp) => mp.root_entry,
            None => e,
        }
    } else {
        e
    }
}

/// The arena after creating a node of type `ft` named `name` under
/// `dir`, and the identity of the new entry.
pub open spec fn spec_create(
    entries: Seq<EntryView>,
    dir: usize,
    name: Seq<char>,
    ft: FileType,
) -> (Seq<EntryView>, usize) {
    let id = entries.len() as usize;
    let dir_entry = entries[dir as int];
    let updated = EntryView { children: dir_entry.children.push(id), ..dir_entry };
    let fresh = EntryView {
        name: name,
        parent: Some(dir),
        file_type: ft,
        children: Seq::empty(),
        contents: Seq::empty(),
    };
    (entries.update(dir as int, updated).push(fresh), id)
}

/// What creating a node under a directory returns: not-a-directory on a
/// non-directory, entry-exists when the name is taken, else the grown
/// arena and the new entry.
pub open spec fn spec_create_checked(
    entries: Seq<EntryView>,
    dir: usize,
    name: Seq<char>,
    ft: FileType,
) -> Result<(Seq<EntryView>, usize), FileSystemError> {
    if entries[dir as int].file_type != FileType::Directory {
        Err(FileSystemError::NotDirectory)
    } else if spec_find_child(entries, entries[dir as int].children, name) is Some {
        Err(FileSystemError::EntryExists)
    } else {
        Ok(spec_create(entries, dir, name, ft))
    }
}

/// The bytes of a node after writing `data` at `offset`: the gap up to
/// `offset`, if any, reads as zero.
pub open spec fn spec_write_bytes(contents: Seq<u8>, offset: int, data: Seq<u8>) -> Seq<u8> {
    let end = if contents.len() > offset + data.len() {
        contents.len() as int
    } else {
        offset + data.len()
    };
    Seq::new(
        end as nat,
        |i: int|
            if offset <= i < offset + data.len() {
                data[i - offset]
            } else if i < contents.len() {
                contents[i]
            } else {
                0u8
            },
    )
}

/// What writing to a node returns: not-supported unless the node is a
/// regular file, else the arena with the node's bytes rewritten.
pub open spec fn spec_write_at(
    entries: Seq<EntryView>,
    id: usize,
    offset: int,
    data: Seq<u8>,
) -> Result<Seq<EntryView>, FileSystemError> {
    if entries[id as int].file_type != FileType::File {
        Err(FileSystemError::NotSupported)
    } else {
        let e = entries[id as int];
        Ok(
            entries.update(
                id as int,
                EntryView { contents: spec_write_bytes(e.contents, offset, data), ..e },
            ),
        )
    }
}

/// What reading `len` bytes at `offset` from a node returns: the bytes
/// that exist in that range, shortened at the end of the node.
pub open spec fn spec_read_at(
    entries: Seq<EntryView>,
    id: usize,
    offset: int,
    len: int,
) -> Result<Seq<u8>, FileSystemError> {
    if entries[id as int].file_type != FileType::File {
        Err(FileSystemError::NotSupported)
    } else {
        let c = entries[id as int].contents;
        let start = if offset > c.len() {
            c.len() as int
        } else {
            offset
        };
        let end = if offset + len > c.len() {
            c.len() as int
        } else {
            offset + len
        };
        Ok(c.subrange(start, end))
    }
}

/// What mounting a filesystem whose root is `fs_root` on `directory`
/// does: it fails with entry-exists if the key is taken; otherwise the
/// mounted root's name and parent are overwritten with the origin
/// directory's, so that the subtree reads as spliced into the outer
/// namespace, and the mount is registered.
pub open spec fn spec_mount(
    entries: Seq<EntryView>,
    mounts: Seq<MountView>,
    directory: usize,
    fs_root: usize,
) -> Result<(Seq<EntryView>, Seq<MountView>), FileSystemError> {
    let key_name = entries[directory as int].name;
    if spec_find_mount(mounts, directory, key_name) is Some {
        Err(FileSystemError::EntryExists)
    } else {
        let spliced = entries.update(
            fs_root as int,
            EntryView {
                name: key_name,
                parent: entries[directory as int].parent,
                ..entries[fs_root as int]
            },
        );
        let added = mounts.push(
            MountView {
                id: directory,
                name: key_name,
                root_entry: fs_root,
                origin_entry: directory,
            },
        );
        Ok((spliced, added))
    }
}

/// The resolution algorithm over a component sequence: "." is skipped,
/// ".." moves to the parent where one exists and stays in place at a
/// root, a named component is looked up under the current directory and,
/// after a descent into a mounted directory, replaced by the mounted
/// filesystem's root.  A missing final component is created as a regular
/// file under create-on-miss; any other failure aborts resolution.
pub open spec fn spec_resolve(
    v: VfsView,
    cwd: usize,
    comps: Seq<Seq<char>>,
    mode: LookupMode,
) -> Result<(VfsView, usize), FileSystemError>
    decreases comps.len(),
{
    if comps.len() == 0 {
        Ok((v, cwd))
    } else {
        let c = comps[0];
        if c == dot_name() {
            spec_resolve(v, cwd, comps.drop_first(), mode)
        } else if c == dotdot_name() {
            let up = match v.entries[cwd as int].parent {
                Some(p) => p,
                None => cwd,
            };
            spec_resolve(v, up, comps.drop_first(), mode)
        } else {
            match spec_lookup(v.entries, cwd, c) {
                Ok(e) => spec_resolve(v, spec_descend(v, e), comps.drop_first(), mode),
                Err(err) => {
                    if err == FileSystemError::EntryNotFound && comps.len() == 1 && mode
                        == LookupMode::Create {
                        let (entries2, id) = spec_create(v.entries, cwd, c, FileType::File);
                        Ok((VfsView { entries: entries2, ..v }, id))
                    } else {
                        Err(err)
                    }
                },
            }
        }
    }
}

/// What populating the boot-time files does, step by step: create the
/// "bin" and "lib" directories under the root, resolve "/bin", create
/// the file "sh" there, and write the shell image into it.  The pair
/// holds the result and the state when the first step failed, which
/// keeps the mutations of the steps already taken.
pub open spec fn spec_launch(v: VfsView, shell: Seq<u8>) -> (Result<(), FileSystemError>, VfsView) {
    let root = v.root->0;
    match spec_create_checked(v.entries, root, "bin"@, FileType::Directory) {
        Err(e) => (Err(e), v),
        Ok((e1, _)) => {
            let v1 = VfsView { entries: e1, ..v };
            match spec_create_checked(e1, root, "lib"@, FileType::Directory) {
                Err(e) => (Err(e), v1),
                Ok((e2, _)) => {
                    let v2 = VfsView { entries: e2, ..v };
                    match spec_resolve(v2, root, path_components("/bin"@), LookupMode::NoCreate) {
                        Err(e) => (Err(e), v2),
                        Ok((v3, bin)) => {
                            match spec_create_checked(v3.entries, bin, "sh"@, FileType::File) {
                                Err(e) => (Err(e), v3),
                                Ok((e4, sh)) => {
                                    let v4 = VfsView { entries: e4, ..v3 };
                                    match spec_write_at(e4, sh, 0, shell) {
                                        Err(e) => (Err(e), v4),
                                        Ok(e5) => (Ok(()), VfsView { entries: e5, ..v4 }),
                                    }
                                },
                            }
                        },
                    }
                },
            }
        },
    }
}

/// No child is found when no child link carries the name.
pub proof fn lemma_find_child_none(entries: Seq<EntryView>, children: Seq<usize>, name: Seq<char>)
    requires
        forall|j: int|
            0 <= j < children.len() ==> entries[(#[trigger] children[j]) as int].name != name,
    ensures
        spec_find_child(entries, children, name) is None,
    decreases children.len(),
{
    if children.len() == 0 {
    } else {
        lemma_find_child_none(entries, children.drop_first(), name);
    }
}

/// A child found by name lies inside the arena whenever every child
/// link does.
pub proof fn lemma_find_child_bound(
    entries: Seq<EntryView>,
    children: Seq<usize>,
    name: Seq<char>,
    n: int,
)
    requires
        forall|i: int| 0 <= i < children.len() ==> ((#[trigger] children[i]) as int) < n,
    ensures
        match spec_find_child(entries, children, name) {
            Some(c) => (c as int) < n,
            None => true,
        },
    decreases children.len(),
{
    if children.len() == 0 {
    } else if entries[children[0] as int].name == name {
    } else {
        lemma_find_child_bound(entries, children.drop_first(), name, n);
    }
}

/// Resolution without create-on-miss never changes the filesystem
/// state: the only mutation the resolver performs is the creation
/// fallback.
pub proof fn lemma_resolve_no_create_pure(v: VfsView, cwd: usize, comps: Seq<Seq<char>>)
    ensures
        match spec_resolve(v, cwd, comps, LookupMode::NoCreate) {
            Ok((v2, _)) => v2 == v,
            Err(_) => true,
        },
    decreases comps.len(),
{
    if comps.len() == 0 {
    } else {
        let c = comps[0];
        if c == dot_name() {
            lemma_resolve_no_create_pure(v, cwd, comps.drop_first());
        } else if c == dotdot_name() {
            let up = match v.entries[cwd as int].parent {
                Some(p) => p,
                None => cwd,
            };
            lemma_resolve_no_create_pure(v, up, comps.drop_first());
        } else {
            match spec_lookup(v.entries, cwd, c) {
                Ok(e) => lemma_resolve_no_create_pure(v, spec_descend(v, e), comps.drop_first()),
                Err(_) => {},
            }
        }
    }
}

/// A mount found by key points inside the arena whenever every mount
/// does.
pub proof fn lemma_find_mount_bound(mounts: Seq<MountView>, id: usize, name: Seq<char>, n: int)
    requires
        forall|i: int| 0 <= i < mounts.len() ==> ((#[trigger] mounts[i]).root_entry as int) < n,
    ensures
        match spec_find_mount(mounts, id, name) {
            Some(mp) => (mp.root_entry as int) < n,
            None => true,
        },
    decreases mounts.len(),
{
    if mounts.len() == 0 {
    } else if mounts[0].id == id && mounts[0].name == name {
    } else {
        lemma_find_mount_bound(mounts.drop_first(), id, name, n);
    }
}

} // verus!
