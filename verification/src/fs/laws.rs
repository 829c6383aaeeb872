//! The laws of the resolver and the mount manager, stated and proved
//! over the model.

use vstd::prelude::*;
use crate::fs::model::{
    EntryView, MountView, VfsView, dot_name, dotdot_name, keep_component, components_from,
    path_components, spec_lookup, spec_find_mount, spec_descend, spec_mount, spec_resolve,
    lemma_resolve_no_create_pure,
};
use crate::fs::{FileSystemError, FileType, LookupMode, MountPoint};

verus! {

/// Every component a path derives is non-empty and none is ".".
pub proof fn lemma_components_kept(s: Seq<char>, cur: Seq<char>)
    ensures
        forall|i: int|
            0 <= i < components_from(s, cur).len() ==> keep_component(
                #[trigger] components_from(s, cur)[i],
            ),
    decreases s.len(),
{
    let out = components_from(s, cur);
    if s.len() == 0 {
        if keep_component(cur) {
            assert(out =~= seq![cur]);
            assert(out[0] == cur);
        }
    } else if s[0] == '/' {
        lemma_components_kept(s.drop_first(), Seq::empty());
        let rest = components_from(s.drop_first(), Seq::empty());
        if keep_component(cur) {
            assert(out == seq![cur] + rest);
            assert forall|i: int| 0 <= i < out.len() implies keep_component(
                #[trigger] out[i],
            ) by {
                if i == 0 {
                    assert(out[0] == cur);
                } else {
                    assert(out[i] == rest[i - 1]);
                    assert(keep_component(rest[i - 1]));
                }
            }
        } else {
            assert(out == rest);
            assert forall|i: int| 0 <= i < out.len() implies keep_component(
                #[trigger] out[i],
            ) by {
                assert(keep_component(rest[i]));
            }
        }
    } else {
        lemma_components_kept(s.drop_first(), cur.push(s[0]));
        let rest = components_from(s.drop_first(), cur.push(s[0]));
        assert(out == rest);
        assert forall|i: int| 0 <= i < out.len() implies keep_component(#[trigger] out[i]) by {
            assert(keep_component(rest[i]));
        }
    }
}

/// Resolution by direct child lookups alone: each component is looked
/// up under the current directory and, after a descent into a mounted
/// directory, the mounted filesystem's root takes its place; no
/// component is treated specially.
pub open spec fn spec_walk_children(v: VfsView, cwd: usize, comps: Seq<Seq<char>>) -> Result<
    (VfsView, usize),
    FileSystemError,
>
    decreases comps.len(),
{
    if comps.len() == 0 {
        Ok((v, cwd))
    } else {
        match spec_lookup(v.entries, cwd, comps[0]) {
            Ok(e) => spec_walk_children(v, spec_descend(v, e), comps.drop_first()),
            Err(e) => Err(e),
        }
    }
}

/// For components among which none is "." or "..", resolving without
/// create-on-miss is walking the components by direct child lookups in
/// sequence.
pub proof fn lemma_resolve_plain(v: VfsView, cwd: usize, comps: Seq<Seq<char>>)
    requires
        forall|i: int|
            0 <= i < comps.len() ==> keep_component(#[trigger] comps[i]) && comps[i]
                != dotdot_name(),
    ensures
        spec_resolve(v, cwd, comps, LookupMode::NoCreate) == spec_walk_children(v, cwd, comps),
    decreases comps.len(),
{
    if comps.len() == 0 {
    } else {
        assert(keep_component(comps[0]));
        match spec_lookup(v.entries, cwd, comps[0]) {
            Ok(e) => {
                assert(forall|i: int|
                    0 <= i < comps.drop_first().len() ==> keep_component(
                        #[trigger] comps.drop_first()[i],
                    ) && comps.drop_first()[i] != dotdot_name());
                lemma_resolve_plain(v, spec_descend(v, e), comps.drop_first());
            },
            Err(_) => {},
        }
    }
}

/// For any path whose components hold no "..", resolving it from a
/// directory — in particular from the root — without create-on-miss is
/// equivalent to resolving each component via direct child lookups in
/// sequence.
pub proof fn lemma_resolve_plain_path(v: VfsView, cwd: usize, s: Seq<char>)
    requires
        forall|i: int|
            0 <= i < path_components(s).len() ==> #[trigger] path_components(s)[i]
                != dotdot_name(),
    ensures
        spec_resolve(v, cwd, path_components(s), LookupMode::NoCreate) == spec_walk_children(
            v,
            cwd,
            path_components(s),
        ),
{
    lemma_components_kept(s, Seq::empty());
    lemma_resolve_plain(v, cwd, path_components(s));
}

/// Idempotence: an existing path resolves to an entry with the same
/// cache identity when resolved again, absent any intervening mutation;
/// resolution without create-on-miss leaves the state unchanged, so the
/// second run starts from the same state and takes the same steps.
pub proof fn lemma_resolve_idempotent(v: VfsView, cwd: usize, comps: Seq<Seq<char>>)
    requires
        spec_resolve(v, cwd, comps, LookupMode::NoCreate) is Ok,
    ensures
        ({
            let (v2, id) = spec_resolve(v, cwd, comps, LookupMode::NoCreate)->Ok_0;
            spec_resolve(v2, cwd, comps, LookupMode::NoCreate) == Ok::<_, FileSystemError>(
                (v2, id),
            )
        }),
{
    lemma_resolve_no_create_pure(v, cwd, comps);
}

/// Mount transparency, the descent: a path that reaches a mounted
/// directory and continues resolves on inside the mounted filesystem,
/// whose root entry silently takes the directory's place.
pub proof fn lemma_mount_transparency(
    v: VfsView,
    cwd: usize,
    comps: Seq<Seq<char>>,
    mode: LookupMode,
    d: usize,
    mp: MountPoint,
)
    requires
        comps.len() > 0,
        keep_component(comps[0]),
        comps[0] != dotdot_name(),
        spec_lookup(v.entries, cwd, comps[0]) == Ok::<usize, FileSystemError>(d),
        v.entries[d as int].file_type == FileType::Directory,
        spec_find_mount(v.mounts, d, v.entries[d as int].name) == Some(mp),
    ensures
        spec_resolve(v, cwd, comps, mode) == spec_resolve(
            v,
            mp.root_entry,
            comps.drop_first(),
            mode,
        ),
{
    assert(spec_descend(v, d) == mp.root_entry);
}

/// Mount transparency, "..": after a successful mount, ".." from the
/// mounted filesystem's root yields the origin directory's parent in
/// the outer tree, not the mounted filesystem's own absent parent.
pub proof fn lemma_mount_dotdot(
    v: VfsView,
    v2: VfsView,
    directory: usize,
    fs_root: usize,
    p: usize,
)
    requires
        (directory as int) < v.entries.len(),
        (fs_root as int) < v.entries.len(),
        spec_mount(v.entries, v.mounts, directory, fs_root) == Ok::<
            _,
            FileSystemError,
        >((v2.entries, v2.mounts)),
        v.entries[directory as int].parent == Some(p),
    ensures
        spec_resolve(v2, fs_root, seq![dotdot_name()], LookupMode::NoCreate) == Ok::<
            _,
            FileSystemError,
        >((v2, p)),
{
    assert(v2.entries[fs_root as int].parent == Some(p));
    assert(dot_name().len() == 1);
    assert(dotdot_name().len() == 2);
    assert(seq![dotdot_name()][0] == dotdot_name());
    assert(seq![dotdot_name()].drop_first() =~= Seq::<Seq<char>>::empty());
    assert(spec_resolve(v2, p, Seq::<Seq<char>>::empty(), LookupMode::NoCreate) == Ok::<
        _,
        FileSystemError,
    >((v2, p)));
}

/// A second mount at a directory whose key is already taken fails with
/// entry-exists and changes neither the entries nor the mount table, so
/// the original mount point stands unchanged.
pub proof fn lemma_duplicate_mount(
    entries: Seq<EntryView>,
    mounts: Seq<MountView>,
    directory: usize,
    fs_root: usize,
)
    requires
        spec_find_mount(mounts, directory, entries[directory as int].name) is Some,
    ensures
        spec_mount(entries, mounts, directory, fs_root) == Err::<
            (Seq<EntryView>, Seq<MountView>),
            _,
        >(FileSystemError::EntryExists),
{
}

/// ".." resolved at a root directory — an entry without a parent — is
/// a no-op, never an error: resolution stays in place and goes on.
pub proof fn lemma_dotdot_at_root(v: VfsView, cwd: usize, comps: Seq<Seq<char>>, mode: LookupMode)
    requires
        comps.len() > 0,
        comps[0] == dotdot_name(),
        v.entries[cwd as int].parent is None,
    ensures
        spec_resolve(v, cwd, comps, mode) == spec_resolve(v, cwd, comps.drop_first(), mode),
{
    assert(dot_name().len() == 1);
    assert(dotdot_name().len() == 2);
}

} // verus!
