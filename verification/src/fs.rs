//! The virtual filesystem core: paths, the directory-entry arena, the
//! mount manager, and the path resolver.
//!
//! The kernel-wide singletons of a running system (the root filesystem,
//! the root directory, the mount table) appear here as one explicitly
//! constructed [`Vfs`] value, built once at boot by [`init`] and passed
//! by reference to every operation.

use vstd::prelude::*;

pub mod laws;
pub mod model;

verus! {

use crate::fs::model::{
    EntryView, MountView, VfsView, dot_name, dotdot_name, keep_component, components_from,
    path_components, spec_is_absolute, spec_rfind_slash, entries_wf, vfs_wf, spec_find_child,
    spec_lookup, spec_find_mount, spec_descend, spec_create, spec_create_checked,
    spec_write_bytes, spec_write_at, spec_read_at, spec_mount, spec_resolve, spec_launch,
};

/// An association between a mounted-over directory and the root entry of
/// the filesystem mounted there.  A filesystem instance is reached
/// through its root entry, so the mount point carries no further handle
/// to it.
#[derive(Debug, Clone, Copy, PartialEq, Eq, Structural)]
pub struct MountPoint {
    pub root_entry: usize,
    pub origin_entry: usize,
}

/// The errors surfaced by filesystem operations.
#[derive(Debug, Clone, Copy, PartialEq, Eq, Structural)]
pub enum FileSystemError {
    NotSupported,
    EntryExists,
    EntryNotFound,
    Busy,
    NotDirectory,
}

/// The error codes of the system-call boundary that filesystem errors
/// map to.
#[derive(Debug, Clone, Copy, PartialEq, Eq, Structural)]
pub enum SyscallError {
    EACCES,
    EEXIST,
    ENOENT,
    EBUSY,
    ENOTDIR,
}

impl From<FileSystemError> for SyscallError {
    /// The fixed mapping from filesystem errors to system-call error codes.
    fn from(error: FileSystemError) -> (r: Self) {
        match error {
            FileSystemError::NotSupported => SyscallError::EACCES,
            FileSystemError::EntryExists => SyscallError::EEXIST,
            FileSystemError::EntryNotFound => SyscallError::ENOENT,
            FileSystemError::Busy => SyscallError::EBUSY,
            FileSystemError::NotDirectory => SyscallError::ENOTDIR,
        }
    }
}

impl vstd::std_specs::convert::FromSpecImpl<FileSystemError> for SyscallError {
    open spec fn obeys_from_spec() -> bool {
        true
    }

    open spec fn from_spec(error: FileSystemError) -> Self {
        match error {
            FileSystemError::NotSupported => SyscallError::EACCES,
            FileSystemError::EntryExists => SyscallError::EEXIST,
            FileSystemError::EntryNotFound => SyscallError::ENOENT,
            FileSystemError::Busy => SyscallError::EBUSY,
            FileSystemError::NotDirectory => SyscallError::ENOTDIR,
        }
    }
}

/// The mode of a path resolution.
#[derive(Debug, Clone, Copy, PartialEq, Eq, Structural)]
pub enum LookupMode {
    NoCreate,
    /// Creates the file if it does not exist.
    Create,
}

/// The classification a backend reports for a node.
#[derive(Debug, Clone, Copy, PartialEq, Eq, Structural)]
pub enum FileType {
    Directory,
    File,
}

/// A textual path.  Its components are derived by splitting on the
/// separator and discarding empty and "." segments, so redundant and
/// trailing separators are absorbed.
#[derive(Debug)]
pub struct Path {
    pub text: String,
}

impl View for Path {
    type V = Seq<char>;

    open spec fn view(&self) -> Seq<char> {
        self.text@
    }
}

/// Whether this raw segment survives component derivation.
fn is_kept_component(s: &str) -> (r: bool)
    ensures
        r == keep_component(s@),
{
    let n = s.unicode_len();
    if n == 0 {
        false
    } else if n == 1 {
        let c = s.get_char(0);
        if c == '.' {
            proof {
                assert(s@ =~= dot_name());
            }
            false
        } else {
            proof {
                assert(dot_name()[0] == '.');
            }
            true
        }
    } else {
        proof {
            assert(dot_name().len() == 1);
        }
        true
    }
}

impl Path {
    /// Wraps path text.
    pub fn new(path: &str) -> (p: Path)
        ensures
            p@ == path@,
    {
        Path { text: path.to_owned() }
    }

    /// Returns `true` if the path is absolute.
    pub fn is_absolute(&self) -> (r: bool)
        ensures
            r == spec_is_absolute(self@),
    {
        let text = self.text.as_str();
        if text.unicode_len() == 0 {
            false
        } else {
            text.get_char(0) == '/'
        }
    }

    /// The text of the path.
    pub fn as_str(&self) -> (r: &str)
        ensures
            r@ == self@,
    {
        self.text.as_str()
    }

    /// The components of the path: its non-empty, non-"." segments, in
    /// order.  ".." is not special-cased here; that is left to the
    /// resolver.
    pub fn components(&self) -> (r: Vec<String>)
        ensures
            r.deep_view() == path_components(self@),
    {
        let text = self.text.as_str();
        let n = text.unicode_len();
        let mut out: Vec<String> = Vec::new();
        let mut start: usize = 0;
        let mut i: usize = 0;
        proof {
            assert(self@.skip(0) =~= self@);
            assert(self@.subrange(0, 0) =~= Seq::<char>::empty());
            assert(out.deep_view() =~= Seq::<Seq<char>>::empty());
        }
        while i < n
            invariant
                start <= i <= n,
                n == self@.len(),
                text@ == self@,
                path_components(self@) == out.deep_view() + components_from(
                    self@.skip(i as int),
                    self@.subrange(start as int, i as int),
                ),
            decreases n - i,
        {
            let ghost s = self@;
            let ghost cur = s.subrange(start as int, i as int);
            let ghost out0 = out.deep_view();
            let c = text.get_char(i);
            proof {
                assert(s.skip(i as int)[0] == s[i as int]);
                assert(s.skip(i as int).drop_first() =~= s.skip(i as int + 1));
            }
            if c == '/' {
                let seg = text.substring_char(start, i);
                if is_kept_component(seg) {
                    out.push(seg.to_owned());
                    proof {
                        assert(out.deep_view() =~= out0.push(cur));
                        assert(out0.push(cur) + components_from(s.skip(i as int + 1), Seq::empty())
                            =~= out0 + (seq![cur] + components_from(
                            s.skip(i as int + 1),
                            Seq::empty(),
                        )));
                    }
                }
                start = i + 1;
                proof {
                    assert(s.subrange(start as int, i as int + 1) =~= Seq::<char>::empty());
                }
            } else {
                proof {
                    assert(s.subrange(start as int, i as int + 1) =~= cur.push(s[i as int]));
                }
            }
            i = i + 1;
        }
        proof {
            assert(self@.skip(n as int) =~= Seq::<char>::empty());
        }
        let seg = text.substring_char(start, n);
        let ghost out0 = out.deep_view();
        let ghost cur = self@.subrange(start as int, n as int);
        if is_kept_component(seg) {
            out.push(seg.to_owned());
            proof {
                assert(out.deep_view() =~= out0.push(cur));
                assert(out0.push(cur) =~= out0 + seq![cur]);
            }
        } else {
            proof {
                assert(out0 + Seq::<Seq<char>>::empty() =~= out0);
            }
        }
        out
    }

    /// Splits at the last separator and returns the parent path and the
    /// base name: a separator at the front yields the root path as the
    /// parent, and a path without separators yields the empty parent.
    pub fn parent_and_basename(&self) -> (r: (Path, String))
        ensures
            match spec_rfind_slash(self@) {
                Some(j) => r.0@ == (if j == 0 {
                    seq!['/']
                } else {
                    self@.subrange(0, j)
                }) && r.1@ == self@.subrange(j + 1, self@.len() as int),
                None => r.0@ == Seq::<char>::empty() && r.1@ == self@,
            },
    {
        let text = self.text.as_str();
        let n = text.unicode_len();
        let mut j = n;
        proof {
            assert(self@.subrange(0, n as int) =~= self@);
        }
        while j > 0
            invariant
                j <= n,
                n == self@.len(),
                text@ == self@,
                spec_rfind_slash(self@) == spec_rfind_slash(self@.subrange(0, j as int)),
            decreases j,
        {
            let ghost s = self@;
            let ghost pre = s.subrange(0, j as int);
            let c = text.get_char(j - 1);
            proof {
                assert(pre[pre.len() - 1] == s[j - 1]);
            }
            if c == '/' {
                let parent = if j - 1 == 0 {
                    Path::new(text.substring_char(0, 1))
                } else {
                    Path::new(text.substring_char(0, j - 1))
                };
                let base = text.substring_char(j, n).to_owned();
                proof {
                    assert(spec_rfind_slash(pre) == Some(j - 1 as int));
                    if j == 1 {
                        assert(s.subrange(0, 1)[0] == '/');
                        assert(s.subrange(0, 1) =~= seq!['/']);
                    }
                }
                return (parent, base);
            }
            proof {
                assert(pre.drop_last() =~= s.subrange(0, j - 1 as int));
            }
            j = j - 1;
        }
        proof {
            assert(self@.subrange(0, 0).len() == 0);
        }
        (Path { text: String::new() }, text.to_owned())
    }
}

/// One directory entry of the cache arena.  Its position in the arena is
/// its stable cache identity, usable as a map key; the name and the
/// parent link are the mutable fields that a mount overwrites.
#[derive(Debug, Clone)]
pub struct EntryData {
    pub name: String,
    pub parent: Option<usize>,
    pub file_type: FileType,
    pub children: Vec<usize>,
    pub contents: Vec<u8>,
}

impl View for EntryData {
    type V = EntryView;

    open spec fn view(&self) -> EntryView {
        EntryView {
            name: self.name@,
            parent: self.parent,
            file_type: self.file_type,
            children: self.children@,
            contents: self.contents@,
        }
    }
}

/// The directory-entry cache: the arena holding every entry of every
/// filesystem instance.  In this model the cache holds the backing store
/// itself, so the cache probe and the backend lookup coincide.
pub struct DirCache {
    pub entries: Vec<EntryData>,
}

impl View for DirCache {
    type V = Seq<EntryView>;

    open spec fn view(&self) -> Seq<EntryView> {
        self.entries@.map_values(|e: EntryData| e@)
    }
}

impl DirCache {
    /// An empty cache.
    pub fn new() -> (r: DirCache)
        ensures
            r@ == Seq::<EntryView>::empty(),
    {
        let r = DirCache { entries: Vec::new() };
        proof {
            assert(r@ =~= Seq::<EntryView>::empty());
        }
        r
    }

    /// The number of entries in the cache.
    pub fn len(&self) -> (r: usize)
        ensures
            r == self@.len(),
    {
        self.entries.len()
    }

    /// The classification the entry's metadata reports.
    pub fn file_type(&self, id: usize) -> (r: FileType)
        requires
            (id as int) < self@.len(),
        ensures
            r == self@[id as int].file_type,
    {
        self.entries[id].file_type
    }

    /// Looks a name up among the children of a directory, as the
    /// directory's backend would: the probe of the cache and the lookup
    /// in the backing store coincide in this model.
    pub fn lookup(&self, dir: usize, name: &String) -> (r: Result<usize, FileSystemError>)
        requires
            entries_wf(self@),
            (dir as int) < self@.len(),
        ensures
            r == spec_lookup(self@, dir, name@),
            match r {
                Ok(c) => (c as int) < self@.len(),
                Err(_) => true,
            },
    {
        if !(self.entries[dir].file_type == FileType::Directory) {
            return Err(FileSystemError::NotDirectory);
        }
        let ghost all = self@[dir as int].children;
        let mut k: usize = 0;
        proof {
            assert(all.skip(0) =~= all);
        }
        while k < self.entries[dir].children.len()
            invariant
                entries_wf(self@),
                (dir as int) < self@.len(),
                self@[dir as int].file_type == FileType::Directory,
                k <= all.len(),
                all == self@[dir as int].children,
                spec_find_child(self@, all, name@) == spec_find_child(
                    self@,
                    all.skip(k as int),
                    name@,
                ),
            decreases all.len() - k,
        {
            proof {
                assert(all.skip(k as int)[0] == all[k as int]);
                assert(all.skip(k as int).drop_first() =~= all.skip(k as int + 1));
            }
            let child = self.entries[dir].children[k];
            if self.entries[child].name == *name {
                proof {
                    assert(crate::fs::model::entry_wf(self@[dir as int], self@.len() as int));
                    assert(all[k as int] == child);
                    assert(self@[child as int] == self.entries@[child as int]@);
                    assert(self@[child as int].name == name@);
                    assert(spec_find_child(self@, all.skip(k as int), name@) == Some(child));
                }
                return Ok(child);
            }
            k = k + 1;
        }
        proof {
            assert(all.skip(all.len() as int) =~= Seq::<usize>::empty());
        }
        Err(FileSystemError::EntryNotFound)
    }

    /// Creates a node of the given type under a directory; the shared
    /// body of `touch` and `mkdir`.
    fn create_node(&mut self, dir: usize, name: &String, ft: FileType) -> (r: Result<
        usize,
        FileSystemError,
    >)
        requires
            entries_wf(old(self)@),
            (dir as int) < old(self)@.len(),
        ensures
            entries_wf(final(self)@),
            match r {
                Ok(id) => spec_create_checked(old(self)@, dir, name@, ft) == Ok::<
                    _,
                    FileSystemError,
                >((final(self)@, id)),
                Err(e) => spec_create_checked(old(self)@, dir, name@, ft) == Err::<
                    (Seq<EntryView>, usize),
                    _,
                >(e) && final(self)@ == old(self)@,
            },
    {
        if !(self.entries[dir].file_type == FileType::Directory) {
            return Err(FileSystemError::NotDirectory);
        }
        match self.lookup(dir, name) {
            Ok(_) => Err(FileSystemError::EntryExists),
            Err(_) => {
                let ghost before = self@;
                let id = self.entries.len();
                self.entries[dir].children.push(id);
                self.entries.push(
                    EntryData {
                        name: name.clone(),
                        parent: Some(dir),
                        file_type: ft,
                        children: Vec::new(),
                        contents: Vec::new(),
                    },
                );
                proof {
                    let (spec_entries, spec_id) = spec_create(before, dir, name@, ft);
                    assert(self@ =~= spec_entries);
                    assert forall|i: int| 0 <= i < self@.len() implies crate::fs::model::entry_wf(
                        #[trigger] self@[i],
                        self@.len() as int,
                    ) by {
                        if i < before.len() && i != dir {
                            assert(crate::fs::model::entry_wf(before[i], before.len() as int));
                        }
                        if i == dir {
                            assert(crate::fs::model::entry_wf(before[i], before.len() as int));
                        }
                    }
                }
                Ok(id)
            },
        }
    }

    /// Creates a regular file named `name` under `dir`, as the
    /// directory's backend would.
    pub fn touch(&mut self, dir: usize, name: &String) -> (r: Result<usize, FileSystemError>)
        requires
            entries_wf(old(self)@),
            (dir as int) < old(self)@.len(),
        ensures
            entries_wf(final(self)@),
            match r {
                Ok(id) => spec_create_checked(old(self)@, dir, name@, FileType::File) == Ok::<
                    _,
                    FileSystemError,
                >((final(self)@, id)),
                Err(e) => spec_create_checked(old(self)@, dir, name@, FileType::File) == Err::<
                    (Seq<EntryView>, usize),
                    _,
                >(e) && final(self)@ == old(self)@,
            },
    {
        self.create_node(dir, name, FileType::File)
    }

    /// Creates a directory named `name` under `dir`.
    pub fn mkdir(&mut self, dir: usize, name: &String) -> (r: Result<usize, FileSystemError>)
        requires
            entries_wf(old(self)@),
            (dir as int) < old(self)@.len(),
        ensures
            entries_wf(final(self)@),
            match r {
                Ok(id) => spec_create_checked(old(self)@, dir, name@, FileType::Directory) == Ok::<
                    _,
                    FileSystemError,
                >((final(self)@, id)),
                Err(e) => spec_create_checked(old(self)@, dir, name@, FileType::Directory) == Err::<
                    (Seq<EntryView>, usize),
                    _,
                >(e) && final(self)@ == old(self)@,
            },
    {
        self.create_node(dir, name, FileType::Directory)
    }

    /// Writes `data` into the entry's bytes at `offset`; a gap up to
    /// `offset` reads as zero.  Only a regular file can be written.
    pub fn write_at(&mut self, id: usize, offset: usize, data: &[u8]) -> (r: Result<
        (),
        FileSystemError,
    >)
        requires
            (id as int) < old(self)@.len(),
            offset + data@.len() <= usize::MAX,
        ensures
            match r {
                Ok(_) => spec_write_at(old(self)@, id, offset as int, data@) == Ok::<
                    _,
                    FileSystemError,
                >(final(self)@),
                Err(e) => spec_write_at(old(self)@, id, offset as int, data@) == Err::<
                    Seq<EntryView>,
                    _,
                >(e) && final(self)@ == old(self)@,
            },
    {
        if !(self.entries[id].file_type == FileType::File) {
            return Err(FileSystemError::NotSupported);
        }
        let ghost before = self@;
        let ghost target = spec_write_bytes(before[id as int].contents, offset as int, data@);
        let clen = self.entries[id].contents.len();
        let dlen = data.len();
        let end = if clen > offset + dlen {
            clen
        } else {
            offset + dlen
        };
        let mut out: Vec<u8> = Vec::new();
        let mut i: usize = 0;
        while i < end
            invariant
                i <= end,
                end == target.len(),
                out@.len() == i,
                self@ == before,
                (id as int) < self@.len(),
                clen == before[id as int].contents.len(),
                dlen == data@.len(),
                end == if clen > offset + dlen { clen as int } else { offset + dlen },
                offset + dlen <= usize::MAX,
                target == spec_write_bytes(before[id as int].contents, offset as int, data@),
                forall|k: int| 0 <= k < i ==> out@[k] == target[k],
            decreases end - i,
        {
            let b = if offset <= i && i < offset + dlen {
                data[i - offset]
            } else if i < clen {
                self.entries[id].contents[i]
            } else {
                0
            };
            out.push(b);
            i = i + 1;
        }
        self.entries[id].contents = out;
        proof {
            assert(self@[id as int].contents =~= target);
            assert(self@ =~= before.update(
                id as int,
                EntryView { contents: target, ..before[id as int] },
            ));
        }
        Ok(())
    }

    /// Reads up to `len` bytes at `offset` from the entry's bytes,
    /// shortened at the end of the node.  Only a regular file can be
    /// read.
    pub fn read_at(&self, id: usize, offset: usize, len: usize) -> (r: Result<
        Vec<u8>,
        FileSystemError,
    >)
        requires
            (id as int) < self@.len(),
            offset + len <= usize::MAX,
        ensures
            match r {
                Ok(v) => spec_read_at(self@, id, offset as int, len as int) == Ok::<
                    _,
                    FileSystemError,
                >(v@),
                Err(e) => spec_read_at(self@, id, offset as int, len as int) == Err::<Seq<u8>, _>(
                    e,
                ),
            },
    {
        if !(self.entries[id].file_type == FileType::File) {
            return Err(FileSystemError::NotSupported);
        }
        let clen = self.entries[id].contents.len();
        let start = if offset > clen {
            clen
        } else {
            offset
        };
        let end = if offset + len > clen {
            clen
        } else {
            offset + len
        };
        let mut out: Vec<u8> = Vec::new();
        let mut i: usize = start;
        while i < end
            invariant
                start <= i <= end <= clen,
                (id as int) < self@.len(),
                clen == self@[id as int].contents.len(),
                out@.len() == i - start,
                forall|k: int| 0 <= k < out@.len() ==> out@[k] == self@[id as int].contents[
                    start + k
                ],
            decreases end - i,
        {
            let b = self.entries[id].contents[i];
            out.push(b);
            i = i + 1;
        }
        proof {
            assert(out@ =~= self@[id as int].contents.subrange(start as int, end as int));
        }
        Ok(out)
    }
}

/// The composite identity addressing a mounted-over directory: its cache
/// identity and its name.
#[derive(Debug, Clone)]
pub struct MountKey {
    pub id: usize,
    pub name: String,
}

/// One row of the mount table.
#[derive(Debug, Clone)]
pub struct MountEntry {
    pub key: MountKey,
    pub point: MountPoint,
}

impl View for MountEntry {
    type V = MountView;

    open spec fn view(&self) -> MountView {
        MountView {
            id: self.key.id,
            name: self.key.name@,
            root_entry: self.point.root_entry,
            origin_entry: self.point.origin_entry,
        }
    }
}

/// The process-wide registry mapping a directory's identity to the
/// filesystem mounted there.
pub struct MountManager {
    pub mounts: Vec<MountEntry>,
}

impl View for MountManager {
    type V = Seq<MountView>;

    open spec fn view(&self) -> Seq<MountView> {
        self.mounts@.map_values(|e: MountEntry| e@)
    }
}

impl MountManager {
    /// An empty mount table.
    pub fn new() -> (r: MountManager)
        ensures
            r@ == Seq::<MountView>::empty(),
    {
        let r = MountManager { mounts: Vec::new() };
        proof {
            assert(r@ =~= Seq::<MountView>::empty());
        }
        r
    }

    /// Looks the mount registered at `directory` up by its key and
    /// returns a clone of the mount point, sharing the underlying
    /// entries, so the caller can use it without reaching back into the
    /// table.  Fails with entry-not-found if nothing is mounted there.
    pub fn find_mount(&self, dcache: &DirCache, directory: usize) -> (r: Result<
        MountPoint,
        FileSystemError,
    >)
        requires
            (directory as int) < dcache@.len(),
        ensures
            match spec_find_mount(self@, directory, dcache@[directory as int].name) {
                Some(mp) => r == Ok::<_, FileSystemError>(mp),
                None => r == Err::<MountPoint, _>(FileSystemError::EntryNotFound),
            },
    {
        let name = &dcache.entries[directory].name;
        proof {
            assert(name@ == dcache@[directory as int].name);
            assert(self@.skip(0) =~= self@);
        }
        let mut k: usize = 0;
        while k < self.mounts.len()
            invariant
                k <= self@.len(),
                self@.len() == self.mounts@.len(),
                (directory as int) < dcache@.len(),
                name@ == dcache@[directory as int].name,
                spec_find_mount(self@, directory, name@) == spec_find_mount(
                    self@.skip(k as int),
                    directory,
                    name@,
                ),
            decreases self@.len() - k,
        {
            proof {
                assert(self@[k as int] == self.mounts@[k as int]@);
                assert(self@.skip(k as int)[0] == self@[k as int]);
                assert(self@.skip(k as int).drop_first() =~= self@.skip(k as int + 1));
            }
            let row = &self.mounts[k];
            if row.key.id == directory && row.key.name == *name {
                return Ok(row.point);
            }
            k = k + 1;
        }
        proof {
            assert(self@.skip(self@.len() as int) =~= Seq::<MountView>::empty());
        }
        Err(FileSystemError::EntryNotFound)
    }

    /// Mounts a filesystem on `directory`.  Fails with entry-exists if a
    /// mount is already registered at that key; otherwise the mounted
    /// root's name and parent link are overwritten with the origin
    /// directory's, so the subtree reads as spliced into the outer
    /// namespace, and the mount point is registered.
    pub fn mount<F: FileSystem>(
        &mut self,
        dcache: &mut DirCache,
        directory: usize,
        filesystem: &F,
    ) -> (r: Result<(), FileSystemError>)
        requires
            (directory as int) < old(dcache)@.len(),
            (filesystem.spec_root_dir() as int) < old(dcache)@.len(),
        ensures
            match r {
                Ok(_) => spec_mount(
                    old(dcache)@,
                    old(self)@,
                    directory,
                    filesystem.spec_root_dir(),
                ) == Ok::<_, FileSystemError>((final(dcache)@, final(self)@)),
                Err(e) => spec_mount(
                    old(dcache)@,
                    old(self)@,
                    directory,
                    filesystem.spec_root_dir(),
                ) == Err::<(Seq<EntryView>, Seq<MountView>), _>(e) && final(dcache)@ == old(
                    dcache,
                )@ && final(self)@ == old(self)@,
            },
    {
        match self.find_mount(dcache, directory) {
            Ok(_) => Err(FileSystemError::EntryExists),
            Err(_) => {
                let ghost entries0 = dcache@;
                let ghost mounts0 = self@;
                let root = filesystem.root_dir();
                let key_name = dcache.entries[directory].name.clone();
                let origin_name = dcache.entries[directory].name.clone();
                let origin_parent = dcache.entries[directory].parent;
                dcache.entries[root].name = origin_name;
                dcache.entries[root].parent = origin_parent;
                self.mounts.push(
                    MountEntry {
                        key: MountKey { id: directory, name: key_name },
                        point: MountPoint { root_entry: root, origin_entry: directory },
                    },
                );
                proof {
                    assert(dcache@ =~= entries0.update(
                        root as int,
                        EntryView {
                            name: entries0[directory as int].name,
                            parent: entries0[directory as int].parent,
                            ..entries0[root as int]
                        },
                    ));
                    assert(self@ =~= mounts0.push(
                        MountView {
                            id: directory,
                            name: entries0[directory as int].name,
                            root_entry: root,
                            origin_entry: directory,
                        },
                    ));
                }
                Ok(())
            },
        }
    }
}

/// The whole filesystem state, built once at boot: the entry arena, the
/// mount table, and the root directory singleton.
pub struct Vfs {
    pub dcache: DirCache,
    pub mount_manager: MountManager,
    pub root: Option<usize>,
}

impl View for Vfs {
    type V = VfsView;

    open spec fn view(&self) -> VfsView {
        VfsView { entries: self.dcache@, mounts: self.mount_manager@, root: self.root }
    }
}

/// A filesystem instance: it exposes the root directory entry under
/// which its nodes live.
pub trait FileSystem {
    /// The identity of this filesystem's root entry.
    spec fn spec_root_dir(&self) -> usize;

    /// Returns the root directory entry of this filesystem.
    fn root_dir(&self) -> (r: usize)
        ensures
            r == self.spec_root_dir(),
    ;
}

/// An in-memory filesystem: its nodes live directly in the directory
/// cache, under its root entry.
pub struct RamFs {
    pub root: usize,
}

impl RamFs {
    /// Creates a fresh in-memory filesystem: a new root directory entry,
    /// named "/" and without a parent, is added to the cache.
    pub fn new(dcache: &mut DirCache) -> (r: RamFs)
        ensures
            final(dcache)@ == old(dcache)@.push(
                EntryView {
                    name: "/"@,
                    parent: None,
                    file_type: FileType::Directory,
                    children: Seq::empty(),
                    contents: Seq::empty(),
                },
            ),
            r.spec_root_dir() == old(dcache)@.len(),
    {
        let id = dcache.entries.len();
        let root_entry = EntryData {
            name: "/".to_owned(),
            parent: None,
            file_type: FileType::Directory,
            children: Vec::new(),
            contents: Vec::new(),
        };
        dcache.entries.push(root_entry);
        proof {
            assert(dcache@ =~= old(dcache)@.push(
                EntryView {
                    name: "/"@,
                    parent: None,
                    file_type: FileType::Directory,
                    children: Seq::empty(),
                    contents: Seq::empty(),
                },
            ));
        }
        RamFs { root: id }
    }
}

impl FileSystem for RamFs {
    open spec fn spec_root_dir(&self) -> usize {
        self.root
    }

    fn root_dir(&self) -> (r: usize) {
        self.root
    }
}

/// Whether this component is ".".
fn is_dot(s: &String) -> (r: bool)
    ensures
        r == (s@ == dot_name()),
{
    let t = s.as_str();
    let n = t.unicode_len();
    if n == 1 {
        if t.get_char(0) == '.' {
            proof {
                assert(t@ =~= dot_name());
            }
            true
        } else {
            proof {
                assert(dot_name()[0] == '.');
            }
            false
        }
    } else {
        proof {
            assert(dot_name().len() == 1);
        }
        false
    }
}

/// Whether this component is "..".
fn is_dotdot(s: &String) -> (r: bool)
    ensures
        r == (s@ == dotdot_name()),
{
    let t = s.as_str();
    let n = t.unicode_len();
    if n == 2 {
        if t.get_char(0) == '.' && t.get_char(1) == '.' {
            proof {
                assert(t@ =~= dotdot_name());
            }
            true
        } else {
            proof {
                assert(dotdot_name()[0] == '.');
                assert(dotdot_name()[1] == '.');
            }
            false
        }
    } else {
        proof {
            assert(dotdot_name().len() == 2);
        }
        false
    }
}

/// Resolves `path` component by component, starting from the directory
/// `cwd`: "." is skipped, ".." moves to the parent where one exists and
/// stays in place at a root, and a named component is looked up under
/// the current directory; after a descent into a directory with a mount
/// registered at its identity, the mounted filesystem's root entry takes
/// its place.  Under create-on-miss, a final component that the backend
/// does not find is created as a regular file and returned.  Any other
/// failure aborts resolution at once with no partial result.
#[verifier::loop_isolation(false)]
pub fn lookup_path_with(vfs: &mut Vfs, cwd: usize, path: &Path, mode: LookupMode) -> (r: Result<
    usize,
    FileSystemError,
>)
    requires
        vfs_wf(old(vfs)@),
        (cwd as int) < old(vfs)@.entries.len(),
    ensures
        vfs_wf(final(vfs)@),
        match r {
            Ok(id) => spec_resolve(old(vfs)@, cwd, path_components(path@), mode) == Ok::<
                _,
                FileSystemError,
            >((final(vfs)@, id)) && (id as int) < final(vfs)@.entries.len(),
            Err(e) => spec_resolve(old(vfs)@, cwd, path_components(path@), mode) == Err::<
                (VfsView, usize),
                _,
            >(e) && final(vfs)@ == old(vfs)@,
        },
{
    let comps = path.components();
    let total = comps.len();
    let ghost all = path_components(path@);
    proof {
        assert(all.skip(0) =~= all);
    }
    let mut cur = cwd;
    let mut i: usize = 0;
    while i < total
        invariant
            i <= total,
            total == all.len(),
            vfs@ == old(vfs)@,
            (cur as int) < vfs@.entries.len(),
            spec_resolve(old(vfs)@, cwd, all, mode) == spec_resolve(
                vfs@,
                cur,
                all.skip(i as int),
                mode,
            ),
        decreases total - i,
    {
        let ghost v0 = vfs@;
        let ghost rest = all.skip(i as int);
        proof {
            assert(rest[0] == all[i as int]);
            assert(comps.deep_view()[i as int] == comps@[i as int]@);
            assert(rest.drop_first() =~= all.skip(i as int + 1));
        }
        let comp = &comps[i];
        if is_dot(comp) {
            // The current directory: nothing moves.
        } else if is_dotdot(comp) {
            proof {
                assert(crate::fs::model::entry_wf(
                    vfs@.entries[cur as int],
                    vfs@.entries.len() as int,
                ));
                assert(vfs@.entries[cur as int] == vfs.dcache.entries@[cur as int]@);
            }
            match vfs.dcache.entries[cur].parent {
                Some(p) => {
                    cur = p;
                },
                None => {},
            }
        } else {
            match vfs.dcache.lookup(cur, comp) {
                Ok(e) => {
                    let mut next = e;
                    if vfs.dcache.file_type(e) == FileType::Directory {
                        match vfs.mount_manager.find_mount(&vfs.dcache, e) {
                            Ok(mp) => {
                                proof {
                                    crate::fs::model::lemma_find_mount_bound(
                                        vfs@.mounts,
                                        e,
                                        vfs@.entries[e as int].name,
                                        vfs@.entries.len() as int,
                                    );
                                }
                                next = mp.root_entry;
                            },
                            Err(_) => {},
                        }
                    }
                    proof {
                        assert(next == spec_descend(v0, e));
                    }
                    cur = next;
                },
                Err(err) => {
                    if err == FileSystemError::EntryNotFound && i == total - 1 && mode
                        == LookupMode::Create {
                        match vfs.dcache.touch(cur, comp) {
                            Ok(id) => {
                                proof {
                                    assert(rest.len() == 1);
                                    let (entries2, spec_id) = spec_create(
                                        v0.entries,
                                        cur,
                                        comp@,
                                        FileType::File,
                                    );
                                    assert(vfs@ =~= (VfsView { entries: entries2, ..v0 }));
                                    assert(spec_resolve(old(vfs)@, cwd, all, mode) == Ok::<
                                        _,
                                        FileSystemError,
                                    >((vfs@, id)));
                                    assert(entries2.len() == v0.entries.len() + 1);
                                    assert(vfs_wf(vfs@));
                                }
                                return Ok(id);
                            },
                            Err(e2) => {
                                proof {
                                    assert(false);
                                }
                                return Err(e2);
                            },
                        }
                    } else {
                        proof {
                            assert(rest.len() == (total - i) as int);
                            assert(spec_resolve(v0, cur, rest, mode) == Err::<
                                (VfsView, usize),
                                _,
                            >(err));
                        }
                        return Err(err);
                    }
                },
            }
        }
        i = i + 1;
    }
    proof {
        assert(all.skip(total as int) =~= Seq::<Seq<char>>::empty());
    }
    Ok(cur)
}

/// Returns the root directory entry.  The filesystem must have been
/// initialized: using the root before `init` is a boot-sequencing bug,
/// not a recoverable error.
pub fn root_dir(vfs: &Vfs) -> (r: usize)
    requires
        vfs@.root is Some,
    ensures
        Some(r) == vfs@.root,
{
    match vfs.root {
        Some(r) => r,
        None => {
            proof {
                assert(false);
            }
            0
        },
    }
}

/// Resolves `path` without creating anything, starting from the global
/// root if the path is absolute and from `cwd`, the calling task's
/// working directory entry, if it is relative.
pub fn lookup_path(vfs: &mut Vfs, cwd: usize, path: &Path) -> (r: Result<usize, FileSystemError>)
    requires
        vfs_wf(old(vfs)@),
        old(vfs)@.root is Some,
        (cwd as int) < old(vfs)@.entries.len(),
    ensures
        vfs_wf(final(vfs)@),
        final(vfs)@ == old(vfs)@,
        ({
            let start = if spec_is_absolute(path@) {
                old(vfs)@.root->Some_0
            } else {
                cwd
            };
            match r {
                Ok(id) => spec_resolve(
                    old(vfs)@,
                    start,
                    path_components(path@),
                    LookupMode::NoCreate,
                ) == Ok::<_, FileSystemError>((old(vfs)@, id)) && (id as int)
                    < old(vfs)@.entries.len(),
                Err(e) => spec_resolve(
                    old(vfs)@,
                    start,
                    path_components(path@),
                    LookupMode::NoCreate,
                ) == Err::<(VfsView, usize), _>(e),
            }
        }),
{
    let start = if !path.is_absolute() {
        cwd
    } else {
        root_dir(vfs)
    };
    let r = lookup_path_with(vfs, start, path, LookupMode::NoCreate);
    proof {
        crate::fs::model::lemma_resolve_no_create_pure(
            old(vfs)@,
            start,
            path_components(path@),
        );
    }
    r
}

/// Builds the filesystem state of a freshly booted system: installs an
/// in-memory filesystem as the root filesystem, establishes its root
/// entry as the root directory singleton, and creates the standard
/// top-level directories "dev", "home" and "temp".  Collaborator
/// subsystems populate their own nodes afterwards.
pub fn init() -> (r: Result<Vfs, FileSystemError>)
    ensures
        match r {
            Ok(vfs) => {
                &&& vfs_wf(vfs@)
                &&& vfs@.root == Some(0usize)
                &&& vfs@.mounts == Seq::<MountView>::empty()
                &&& vfs@.entries.len() == 4
                &&& vfs@.entries[0] == EntryView {
                    name: "/"@,
                    parent: None,
                    file_type: FileType::Directory,
                    children: seq![1usize, 2usize, 3usize],
                    contents: Seq::empty(),
                }
                &&& vfs@.entries[1] == EntryView {
                    name: "dev"@,
                    parent: Some(0usize),
                    file_type: FileType::Directory,
                    children: Seq::empty(),
                    contents: Seq::empty(),
                }
                &&& vfs@.entries[2] == EntryView {
                    name: "home"@,
                    parent: Some(0usize),
                    file_type: FileType::Directory,
                    children: Seq::empty(),
                    contents: Seq::empty(),
                }
                &&& vfs@.entries[3] == EntryView {
                    name: "temp"@,
                    parent: Some(0usize),
                    file_type: FileType::Directory,
                    children: Seq::empty(),
                    contents: Seq::empty(),
                }
            },
            Err(_) => false,
        },
{
    proof {
        reveal_strlit("/");
        reveal_strlit("dev");
        reveal_strlit("home");
        reveal_strlit("temp");
    }
    let mut dcache = DirCache::new();
    let mount_manager = MountManager::new();
    let filesystem = RamFs::new(&mut dcache);
    let root = filesystem.root_dir();
    let name_dev = "dev".to_owned();
    match dcache.mkdir(root, &name_dev) {
        Ok(_) => {},
        Err(e) => {
            proof {
                assert(false);
            }
            return Err(e);
        },
    }
    proof {
        assert(dcache@[0].children =~= seq![1usize]);
        assert("dev"@.len() == 3);
        assert("home"@.len() == 4);
        crate::fs::model::lemma_find_child_none(dcache@, dcache@[0].children, "home"@);
    }
    let name_home = "home".to_owned();
    match dcache.mkdir(root, &name_home) {
        Ok(_) => {},
        Err(e) => {
            proof {
                assert(false);
            }
            return Err(e);
        },
    }
    proof {
        assert(dcache@[0].children =~= seq![1usize, 2usize]);
        assert("temp"@.len() == 4);
        assert("temp"@[0] == 't');
        assert("home"@[0] == 'h');
        crate::fs::model::lemma_find_child_none(dcache@, dcache@[0].children, "temp"@);
    }
    let name_temp = "temp".to_owned();
    match dcache.mkdir(root, &name_temp) {
        Ok(_) => {},
        Err(e) => {
            proof {
                assert(false);
            }
            return Err(e);
        },
    }
    let vfs = Vfs { dcache, mount_manager, root: Some(root) };
    proof {
        assert(vfs@.entries[0].children =~= seq![1usize, 2usize, 3usize]);
        assert(vfs@.entries[0] =~= EntryView {
            name: "/"@,
            parent: None,
            file_type: FileType::Directory,
            children: seq![1usize, 2usize, 3usize],
            contents: Seq::empty(),
        });
    }
    Ok(vfs)
}

/// Populates the boot-time files once initialization is done: creates
/// "/bin" and "/lib", and writes the shell image handed in by the boot
/// sequencing as the file "/bin/sh".
pub fn launch(vfs: &mut Vfs, shell: &[u8]) -> (r: Result<(), FileSystemError>)
    requires
        vfs_wf(old(vfs)@),
        old(vfs)@.root is Some,
    ensures
        vfs_wf(final(vfs)@),
        (r, final(vfs)@) == spec_launch(old(vfs)@, shell@),
{
    let shell_len = shell.len();
    let root = root_dir(vfs);
    let ghost v0 = vfs@;
    let name_bin = "bin".to_owned();
    match vfs.dcache.mkdir(root, &name_bin) {
        Ok(_) => {},
        Err(e) => {
            return Err(e);
        },
    }
    proof {
        assert(vfs@ =~= (VfsView { entries: vfs@.entries, ..v0 }));
        assert(vfs_wf(vfs@));
    }
    let name_lib = "lib".to_owned();
    match vfs.dcache.mkdir(root, &name_lib) {
        Ok(_) => {},
        Err(e) => {
            proof {
                assert(vfs@ =~= (VfsView { entries: vfs@.entries, ..v0 }));
            }
            return Err(e);
        },
    }
    proof {
        assert(vfs@ =~= (VfsView { entries: vfs@.entries, ..v0 }));
        assert(vfs_wf(vfs@));
    }
    let path = Path::new("/bin");
    let bin = match lookup_path(vfs, root, &path) {
        Ok(b) => b,
        Err(e) => {
            return Err(e);
        },
    };
    let name_sh = "sh".to_owned();
    let sh = match vfs.dcache.touch(bin, &name_sh) {
        Ok(s) => s,
        Err(e) => {
            proof {
                assert(vfs@ =~= (VfsView { entries: vfs@.entries, ..v0 }));
            }
            return Err(e);
        },
    };
    proof {
        assert(vfs@ =~= (VfsView { entries: vfs@.entries, ..v0 }));
        assert(vfs_wf(vfs@));
        assert((sh as int) < vfs@.entries.len());
    }
    match vfs.dcache.write_at(sh, 0, shell) {
        Ok(_) => {},
        Err(e) => {
            proof {
                assert(vfs@ =~= (VfsView { entries: vfs@.entries, ..v0 }));
            }
            return Err(e);
        },
    }
    proof {
        assert(vfs@ =~= (VfsView { entries: vfs@.entries, ..v0 }));
        assert(vfs_wf(vfs@));
    }
    Ok(())
}

} // verus!
