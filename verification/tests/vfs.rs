use aero_kernel::fs::{
    init, launch, lookup_path, lookup_path_with, root_dir, DirCache, FileSystem, FileSystemError,
    FileType, LookupMode, MountManager, Path, RamFs, SyscallError, Vfs,
};

fn booted() -> Vfs {
    init().unwrap()
}

fn resolve(vfs: &mut Vfs, text: &str) -> Result<usize, FileSystemError> {
    let root = root_dir(vfs);
    let path = Path::new(text);
    lookup_path(vfs, root, &path)
}

fn resolve_with(vfs: &mut Vfs, text: &str, mode: LookupMode) -> Result<usize, FileSystemError> {
    let root = root_dir(vfs);
    let path = Path::new(text);
    lookup_path_with(vfs, root, &path, mode)
}

#[test]
fn init_installs_the_standard_directories() {
    let mut vfs = booted();
    let root = root_dir(&vfs);
    assert_eq!(root, 0);
    assert_eq!(vfs.dcache.entries.len(), 4);
    assert_eq!(vfs.dcache.entries[root].name, "/");
    assert_eq!(vfs.dcache.entries[root].parent, None);
    let dev = resolve(&mut vfs, "/dev").unwrap();
    let home = resolve(&mut vfs, "/home").unwrap();
    let temp = resolve(&mut vfs, "/temp").unwrap();
    assert_eq!(vfs.dcache.entries[dev].name, "dev");
    assert_eq!(vfs.dcache.entries[home].name, "home");
    assert_eq!(vfs.dcache.entries[temp].name, "temp");
    assert_eq!(vfs.dcache.entries[home].file_type, FileType::Directory);
    assert_eq!(vfs.dcache.entries[home].parent, Some(root));
}

#[test]
fn resolving_home_and_missing_entries() {
    // Root has a child "home".  "/home" with no-create succeeds; the
    // entry is named "home" and its parent is the root.  "/missing"
    // with no-create fails; with create-on-miss it is created, and a
    // later no-create resolution returns the same entry.
    let mut vfs = booted();
    let root = root_dir(&vfs);
    let home = resolve(&mut vfs, "/home").unwrap();
    assert_eq!(vfs.dcache.entries[home].name, "home");
    assert_eq!(vfs.dcache.entries[home].parent, Some(root));

    assert_eq!(resolve(&mut vfs, "/missing"), Err(FileSystemError::EntryNotFound));

    let created = resolve_with(&mut vfs, "/missing", LookupMode::Create).unwrap();
    assert_eq!(vfs.dcache.entries[created].name, "missing");
    assert_eq!(vfs.dcache.entries[created].parent, Some(root));
    assert_eq!(vfs.dcache.entries[created].file_type, FileType::File);

    assert_eq!(resolve(&mut vfs, "/missing"), Ok(created));
}

#[test]
fn create_on_miss_under_temp() {
    // "/temp/newfile": temp exists, newfile does not.  No-create fails
    // with entry-not-found and creates nothing; create-on-miss creates
    // and returns a new file entry.
    let mut vfs = booted();
    let before = vfs.dcache.entries.len();
    assert_eq!(
        resolve_with(&mut vfs, "/temp/newfile", LookupMode::NoCreate),
        Err(FileSystemError::EntryNotFound)
    );
    assert_eq!(vfs.dcache.entries.len(), before);

    let temp = resolve(&mut vfs, "/temp").unwrap();
    let newfile = resolve_with(&mut vfs, "/temp/newfile", LookupMode::Create).unwrap();
    assert_eq!(vfs.dcache.entries.len(), before + 1);
    assert_eq!(vfs.dcache.entries[newfile].name, "newfile");
    assert_eq!(vfs.dcache.entries[newfile].parent, Some(temp));
    assert_eq!(vfs.dcache.entries[newfile].file_type, FileType::File);
}

#[test]
fn resolving_twice_is_idempotent() {
    let mut vfs = booted();
    let first = resolve(&mut vfs, "/home").unwrap();
    let second = resolve(&mut vfs, "/home").unwrap();
    assert_eq!(first, second);
}

#[test]
fn dotdot_at_the_root_is_a_no_op() {
    let mut vfs = booted();
    let root = root_dir(&vfs);
    assert_eq!(resolve(&mut vfs, "/.."), Ok(root));
    assert_eq!(resolve(&mut vfs, "/../.."), Ok(root));
    let home = resolve(&mut vfs, "/home").unwrap();
    assert_eq!(resolve(&mut vfs, "/../home"), Ok(home));
}

#[test]
fn dot_and_dotdot_walk_the_tree() {
    let mut vfs = booted();
    let root = root_dir(&vfs);
    let home = resolve(&mut vfs, "/home").unwrap();
    assert_eq!(resolve(&mut vfs, "/./home/."), Ok(home));
    assert_eq!(resolve(&mut vfs, "/home/.."), Ok(root));
    assert_eq!(resolve(&mut vfs, "/home/../dev"), resolve(&mut vfs, "/dev"));
}

#[test]
fn relative_paths_start_from_the_given_directory() {
    let mut vfs = booted();
    let root = root_dir(&vfs);
    let home = resolve(&mut vfs, "/home").unwrap();
    let path = Path::new("..");
    assert_eq!(lookup_path(&mut vfs, home, &path), Ok(root));
    let path = Path::new("dev");
    assert_eq!(lookup_path(&mut vfs, root, &path), resolve(&mut vfs, "/dev"));
}

#[test]
fn lookup_through_a_file_is_not_a_directory() {
    let mut vfs = booted();
    let file = resolve_with(&mut vfs, "/temp/f", LookupMode::Create).unwrap();
    assert_eq!(vfs.dcache.entries[file].file_type, FileType::File);
    assert_eq!(resolve(&mut vfs, "/temp/f/x"), Err(FileSystemError::NotDirectory));
}

#[test]
fn mounting_is_transparent() {
    // After mounting a filesystem F at "/home", a path that reaches
    // "/home" and continues resolves inside F, and ".." from F's root
    // yields the root of the outer tree.
    let mut vfs = booted();
    let root = root_dir(&vfs);
    let home = resolve(&mut vfs, "/home").unwrap();

    let inner_fs = RamFs::new(&mut vfs.dcache);
    let inner_root = inner_fs.root_dir();
    let data = vfs.dcache.mkdir(inner_root, &"data".to_owned()).unwrap();

    vfs.mount_manager
        .mount(&mut vfs.dcache, home, &inner_fs)
        .unwrap();

    // The mounted root was spliced: it now carries the origin
    // directory's name and parent.
    assert_eq!(vfs.dcache.entries[inner_root].name, "home");
    assert_eq!(vfs.dcache.entries[inner_root].parent, Some(root));

    // "/home" now lands on the mounted filesystem's root.
    assert_eq!(resolve(&mut vfs, "/home"), Ok(inner_root));
    // A path that continues yields entries inside the mounted
    // filesystem.
    assert_eq!(resolve(&mut vfs, "/home/data"), Ok(data));
    // ".." from the mounted root yields the outer parent.
    assert_eq!(resolve(&mut vfs, "/home/.."), Ok(root));
}

#[test]
fn a_duplicate_mount_fails_and_changes_nothing() {
    let mut vfs = booted();
    let home = resolve(&mut vfs, "/home").unwrap();

    let first_fs = RamFs::new(&mut vfs.dcache);
    let first_root = first_fs.root_dir();
    vfs.mount_manager
        .mount(&mut vfs.dcache, home, &first_fs)
        .unwrap();

    let second_fs = RamFs::new(&mut vfs.dcache);
    assert_eq!(
        vfs.mount_manager.mount(&mut vfs.dcache, home, &second_fs),
        Err(FileSystemError::EntryExists)
    );

    // The original mount point is unchanged and still taken.
    assert_eq!(vfs.mount_manager.mounts.len(), 1);
    let found = vfs.mount_manager.find_mount(&vfs.dcache, home).unwrap();
    assert_eq!(found.root_entry, first_root);
    assert_eq!(found.origin_entry, home);
    assert_eq!(resolve(&mut vfs, "/home"), Ok(first_root));
}

#[test]
fn find_mount_fails_where_nothing_is_mounted() {
    let mut vfs = booted();
    let home = resolve(&mut vfs, "/home").unwrap();
    assert_eq!(
        vfs.mount_manager.find_mount(&vfs.dcache, home),
        Err(FileSystemError::EntryNotFound)
    );
}

#[test]
fn plain_paths_resolve_as_direct_child_lookups() {
    // A path without ".." resolves exactly as looking each component
    // up in sequence, crossing a mount after a directory descent.
    let mut vfs = booted();
    let root = root_dir(&vfs);
    let home = resolve(&mut vfs, "/home").unwrap();
    let inner_fs = RamFs::new(&mut vfs.dcache);
    let inner_root = inner_fs.root_dir();
    vfs.dcache.mkdir(inner_root, &"data".to_owned()).unwrap();
    vfs.mount_manager
        .mount(&mut vfs.dcache, home, &inner_fs)
        .unwrap();

    // By direct child lookups:
    let step1 = vfs.dcache.lookup(root, &"home".to_owned()).unwrap();
    let step1 = match vfs.mount_manager.find_mount(&vfs.dcache, step1) {
        Ok(mp) => mp.root_entry,
        Err(_) => step1,
    };
    let step2 = vfs.dcache.lookup(step1, &"data".to_owned()).unwrap();

    assert_eq!(resolve(&mut vfs, "/home/data"), Ok(step2));
}

#[test]
fn launch_writes_the_shell_image() {
    let mut vfs = booted();
    let image = [0x7fu8, b'E', b'L', b'F', 9];
    launch(&mut vfs, &image).unwrap();

    let bin = resolve(&mut vfs, "/bin").unwrap();
    assert_eq!(vfs.dcache.entries[bin].file_type, FileType::Directory);
    resolve(&mut vfs, "/lib").unwrap();

    let sh = resolve(&mut vfs, "/bin/sh").unwrap();
    assert_eq!(vfs.dcache.entries[sh].file_type, FileType::File);
    assert_eq!(vfs.dcache.read_at(sh, 0, 16), Ok(vec![0x7f, b'E', b'L', b'F', 9]));

    // Running launch again finds "bin" taken.
    assert_eq!(launch(&mut vfs, &image), Err(FileSystemError::EntryExists));
}

#[test]
fn write_at_pads_a_gap_with_zeros() {
    let mut vfs = booted();
    let f = resolve_with(&mut vfs, "/temp/f", LookupMode::Create).unwrap();
    vfs.dcache.write_at(f, 2, &[9, 8]).unwrap();
    assert_eq!(vfs.dcache.entries[f].contents, vec![0, 0, 9, 8]);
    vfs.dcache.write_at(f, 1, &[7]).unwrap();
    assert_eq!(vfs.dcache.entries[f].contents, vec![0, 7, 9, 8]);
    assert_eq!(vfs.dcache.read_at(f, 1, 2), Ok(vec![7, 9]));
    assert_eq!(vfs.dcache.read_at(f, 3, 10), Ok(vec![8]));
    assert_eq!(vfs.dcache.read_at(f, 9, 10), Ok(vec![]));
}

#[test]
fn only_regular_files_are_read_or_written() {
    let mut vfs = booted();
    let home = resolve(&mut vfs, "/home").unwrap();
    assert_eq!(vfs.dcache.write_at(home, 0, &[1]), Err(FileSystemError::NotSupported));
    assert_eq!(vfs.dcache.read_at(home, 0, 1), Err(FileSystemError::NotSupported));
}

#[test]
fn mkdir_and_touch_reject_taken_names() {
    let mut vfs = booted();
    let root = root_dir(&vfs);
    assert_eq!(
        vfs.dcache.mkdir(root, &"home".to_owned()),
        Err(FileSystemError::EntryExists)
    );
    assert_eq!(
        vfs.dcache.touch(root, &"home".to_owned()),
        Err(FileSystemError::EntryExists)
    );
    let f = resolve_with(&mut vfs, "/temp/f", LookupMode::Create).unwrap();
    assert_eq!(
        vfs.dcache.mkdir(f, &"x".to_owned()),
        Err(FileSystemError::NotDirectory)
    );
}

#[test]
fn filesystem_errors_map_to_syscall_errors() {
    assert_eq!(SyscallError::from(FileSystemError::NotSupported), SyscallError::EACCES);
    assert_eq!(SyscallError::from(FileSystemError::EntryExists), SyscallError::EEXIST);
    assert_eq!(SyscallError::from(FileSystemError::EntryNotFound), SyscallError::ENOENT);
    assert_eq!(SyscallError::from(FileSystemError::Busy), SyscallError::EBUSY);
    assert_eq!(SyscallError::from(FileSystemError::NotDirectory), SyscallError::ENOTDIR);
}

#[test]
fn an_empty_cache_and_mount_table_start_empty() {
    let dcache = DirCache::new();
    assert_eq!(dcache.entries.len(), 0);
    assert_eq!(dcache.len(), 0);
    let mm = MountManager::new();
    assert_eq!(mm.mounts.len(), 0);
}
