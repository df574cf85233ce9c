use crate::entry::DirEntry;
use crate::error::{VfsError, VfsResult};
use crate::ops::{DirEntrySink, DirNode, DirNodeOps, NewNode, NodeOps};
use crate::path::{dot, dotdot, is_reserved_name, verify_entry_name};
use crate::steps::{
    answers_cacheable, answers_create, answers_link, answers_listing, answers_lookup,
    answers_rename, answers_unlink, children_of_listing, owner_update, rename_verdict, Looked,
    Told,
};
use crate::subtree::entry_at;
use crate::types::{MetadataUpdate, NodePermission, NodeType};
use crate::vfs::Vfs;
use vstd::prelude::*;

verus! {

impl<D: DirNodeOps> DirNode<D> {
    /// Drops the cache of `dir` and of every directory that hangs below it
    /// by cached links, so that the entries may be released.
    pub(crate) fn forget(vfs: &mut Vfs<D>, dir: &DirEntry)
        requires
            old(vfs).wf(),
            old(vfs)@.is_dir(*dir),
        ensures
            final(vfs).wf(),
            final(vfs)@ == old(vfs)@.forget(*dir),
        decreases old(vfs)@.entries.len() - dir.id,
    {
        let ghost s0 = vfs@;
        let kids = vfs.cache_take(*dir);
        proof {
            assert(kids@.take(0).len() == 0);
            assert forall|i: int| 0 <= i < s0.entries.len() implies #[trigger] vfs@.entries[i]
                == s0.forget_some(*dir, kids@.take(0)).entries[i] by {
                let e = DirEntry { id: i as usize };
                assert(s0.cleared(*dir, kids@.take(0), e) <==> e == *dir);
            }
            assert(vfs@.entries =~= s0.forget_some(*dir, kids@.take(0)).entries);
        }
        let mut k: usize = 0;
        while k < kids.len()
            invariant
                vfs.wf(),
                s0 == old(vfs)@,
                s0.wf(),
                s0.is_dir(*dir),
                k <= kids.len(),
                vfs@ == s0.forget_some(*dir, kids@.take(k as int)),
                forall|id: usize| #[trigger]
                    kids@.contains(id) <==> exists|name: Seq<char>|
                        s0.entry(*dir).cache.contains_key(name) && #[trigger] s0.entry(*dir).cache[name]
                            == entry_at(id),
            decreases kids.len() - k,
        {
            let child = DirEntry { id: kids[k] };
            let ghost done = kids@.take(k as int);
            proof {
                assert forall|j: int| 0 <= j < kids.len() implies s0.has_entry(
                    entry_at(#[trigger] kids@[j]),
                ) && s0.entry(entry_at(kids@[j])).parent == Some(*dir) && dir.id < kids@[j] by {
                    assert(kids@.contains(kids@[j]));
                    let name = choose|name: Seq<char>|
                        s0.entry(*dir).cache.contains_key(name) && #[trigger] s0.entry(
                            *dir,
                        ).cache[name] == entry_at(kids@[j]);
                    s0.lemma_child_under(*dir, name);
                }
                assert(child == entry_at(kids@[k as int]));
                assert forall|j: int| 0 <= j < done.len() implies s0.has_entry(
                    entry_at(#[trigger] done[j]),
                ) && s0.entry(entry_at(done[j])).parent == Some(*dir) by {
                    assert(done[j] == kids@[j]);
                }
                s0.lemma_forget_step(*dir, done, child);
                assert(kids@.take(k + 1) =~= done.push(child.id));
            }
            assert(vfs@.entries.len() == s0.entries.len());
            assert(dir.id < child.id < s0.entries.len());
            if child.is_dir(vfs) {
                Self::forget(vfs, &child);
            } else {
                proof {
                    assert(vfs@.entry_wf(child.id as int));
                    vfs@.lemma_forget_leaf(child);
                }
            }
            k = k + 1;
        }
        proof {
            assert(kids@.take(kids.len() as int) =~= kids@);
            s0.lemma_forget_all(*dir, kids@);
        }
    }

    /// Drops what `dir` caches under `name`; if that is a directory, it
    /// drops its caches as well.
    pub(crate) fn forget_entry(vfs: &mut Vfs<D>, dir: &DirEntry, name: &String)
        requires
            old(vfs).wf(),
            old(vfs)@.is_dir(*dir),
        ensures
            final(vfs).wf(),
            final(vfs)@ == old(vfs)@.forget_entry(*dir, name@),
    {
        proof {
            if vfs@.entry(*dir).cache.contains_key(name@) {
                vfs@.lemma_child_under(*dir, name@);
            }
        }
        match vfs.cache_remove(*dir, name) {
            Some(entry) => {
                if entry.is_dir(vfs) {
                    Self::forget(vfs, &entry);
                }
            },
            None => {
                assert(old(vfs)@.entry(*dir).cache.remove(name@) =~= old(vfs)@.entry(*dir).cache);
                assert(vfs@.entries =~= old(vfs)@.entries);
            },
        }
    }

    /// A lookup that goes by the cache first, for given answers of the
    /// backend: an entry that is cached is the answer, and the answers of
    /// the backend are dropped; otherwise what the backend found is entered,
    /// and cached if `cache_it` says so.
    pub fn settle_lookup_locked(
        vfs: &mut Vfs<D>,
        dir: &DirEntry,
        name: String,
        found: VfsResult<NewNode<D>>,
        cache_it: bool,
    ) -> (r: VfsResult<DirEntry>)
        requires
            old(vfs).wf(),
            old(vfs)@.is_dir(*dir),
        ensures
            final(vfs).wf(),
            (final(vfs)@, r) == old(vfs)@.lookup_locked_step(*dir, name@, (Looked { found, cache_it })),
    {
        if let Some(entry) = vfs.dir_node(*dir).cached(&name) {
            return Ok(entry);
        }
        match found {
            Err(e) => Err(e),
            Ok(node) => {
                let entry = vfs.enroll(Some(*dir), name.clone(), node);
                if cache_it {
                    vfs.cache_insert(*dir, name, entry);
                }
                Ok(entry)
            },
        }
    }

    /// A lookup that reads the cache first, whether or not the directory
    /// is cacheable: see [`crate::model::VfsView::lookup_locked_step`].
    pub(crate) fn lookup_locked(vfs: &mut Vfs<D>, dir: &DirEntry, name: &str) -> (r: VfsResult<
        DirEntry,
    >)
        requires
            old(vfs).wf(),
            old(vfs)@.is_dir(*dir),
        ensures
            final(vfs).wf(),
            exists|looked: Looked<D>|
                old(vfs)@.lookup_locked_told(*dir, name@, looked) && (final(vfs)@, r)
                    == #[trigger] old(vfs)@.lookup_locked_step(*dir, name@, looked),
    {
        let key = name.to_owned();
        let node = vfs.dir_node(*dir);
        match node.cached(&key) {
            Some(entry) => {
                let ghost looked = Looked::<D> { found: Err(VfsError::ENOENT), cache_it: false };
                assert((vfs@, Ok::<DirEntry, VfsError>(entry)) == old(vfs)@.lookup_locked_step(
                    *dir,
                    name@,
                    looked,
                ));
                Ok(entry)
            },
            None => {
                let found = node.inner().lookup(name);
                assert(D::lookup.ensures((&node.ops(), name), found));
                let mut cache_it = false;
                if found.is_ok() {
                    cache_it = node.inner().is_cacheable();
                    assert(D::is_cacheable.ensures((&node.ops(),), cache_it));
                }
                let ghost looked = Looked { found, cache_it };
                assert(answers_lookup(old(vfs)@.dir_ops(*dir), name@, found));
                let r = Self::settle_lookup_locked(vfs, dir, key, found, cache_it);
                assert(old(vfs)@.lookup_locked_told(*dir, name@, looked));
                assert((vfs@, r) == old(vfs)@.lookup_locked_step(*dir, name@, looked));
                r
            },
        }
    }

    /// A lookup for given answers of the backend: where the directory is
    /// `cacheable`, as [`Self::settle_lookup_locked`] says; where it is not,
    /// what the backend found is entered and not cached.
    pub fn settle_lookup(
        vfs: &mut Vfs<D>,
        dir: &DirEntry,
        name: String,
        cacheable: bool,
        found: VfsResult<NewNode<D>>,
        cache_it: bool,
    ) -> (r: VfsResult<DirEntry>)
        requires
            old(vfs).wf(),
            old(vfs)@.is_dir(*dir),
        ensures
            final(vfs).wf(),
            (final(vfs)@, r) == old(vfs)@.lookup_step(
                *dir,
                name@,
                (Told { cacheable, looked: Looked { found, cache_it } }),
            ),
    {
        if cacheable {
            return Self::settle_lookup_locked(vfs, dir, name, found, cache_it);
        }
        match found {
            Err(e) => Err(e),
            Ok(node) => Ok(vfs.enroll(Some(*dir), name, node)),
        }
    }

    /// Looks a name up in the directory `dir`: see
    /// [`crate::model::VfsView::lookup_step`].
    ///
    /// The directory is asked whether it is cacheable. If it is, an entry
    /// that is cached is the answer, and the backend is not asked for the
    /// name; what the backend finds otherwise is entered, and cached if the
    /// directory still says that it is cacheable. A directory that is not
    /// cacheable is asked for the name every time.
    pub fn lookup(vfs: &mut Vfs<D>, dir: &DirEntry, name: &str) -> (r: VfsResult<DirEntry>)
        requires
            old(vfs).wf(),
            old(vfs)@.is_dir(*dir),
        ensures
            final(vfs).wf(),
            exists|told: Told<D>|
                old(vfs)@.lookup_told(*dir, name@, told) && (final(vfs)@, r)
                    == #[trigger] old(vfs)@.lookup_step(*dir, name@, told),
    {
        let node = vfs.dir_node(*dir);
        let cacheable = node.inner().is_cacheable();
        assert(answers_cacheable(old(vfs)@.dir_ops(*dir), cacheable));
        if cacheable {
            let r = Self::lookup_locked(vfs, dir, name);
            proof {
                let looked = choose|looked: Looked<D>|
                    old(vfs)@.lookup_locked_told(*dir, name@, looked) && (vfs@, r)
                        == #[trigger] old(vfs)@.lookup_locked_step(*dir, name@, looked);
                let told = Told { cacheable, looked };
                assert(old(vfs)@.lookup_told(*dir, name@, told));
                assert((vfs@, r) == old(vfs)@.lookup_step(*dir, name@, told));
            }
            r
        } else {
            let found = node.inner().lookup(name);
            assert(D::lookup.ensures((&node.ops(), name), found));
            assert(answers_lookup(old(vfs)@.dir_ops(*dir), name@, found));
            let ghost told = Told { cacheable, looked: Looked { found, cache_it: false } };
            let r = Self::settle_lookup(vfs, dir, name.to_owned(), cacheable, found, false);
            assert(old(vfs)@.lookup_told(*dir, name@, told));
            assert((vfs@, r) == old(vfs)@.lookup_step(*dir, name@, told));
            r
        }
    }

    /// Puts `entry` into the cache of `dir` under `name`, and returns what
    /// was cached there before. The directory is asked whether it is
    /// cacheable; one that is not takes nothing in.
    pub fn insert_cache(vfs: &mut Vfs<D>, dir: &DirEntry, name: String, entry: DirEntry) -> (r:
        Option<DirEntry>)
        requires
            old(vfs).wf(),
            old(vfs)@.is_dir(*dir),
            old(vfs)@.has_entry(entry),
            old(vfs)@.entry(entry).parent == Some(*dir),
            old(vfs)@.entry(entry).name == name@,
        ensures
            final(vfs).wf(),
            exists|cacheable: bool| #[trigger]
                answers_cacheable(old(vfs)@.dir_ops(*dir), cacheable) && final(vfs)@ == (if cacheable {
                    old(vfs)@.cache_insert(*dir, name@, entry)
                } else {
                    old(vfs)@
                }) && r == (if cacheable && old(vfs)@.entry(*dir).cache.contains_key(name@) {
                    Some(old(vfs)@.entry(*dir).cache[name@])
                } else {
                    None
                }),
    {
        let cacheable = vfs.dir_node(*dir).inner().is_cacheable();
        assert(answers_cacheable(old(vfs)@.dir_ops(*dir), cacheable));
        if cacheable {
            vfs.cache_insert(*dir, name, entry)
        } else {
            None
        }
    }

    /// What becomes of a node that the backend made or linked in `dir`
    /// under `name`: it is entered and cached.
    pub fn create_locked(
        vfs: &mut Vfs<D>,
        dir: &DirEntry,
        name: String,
        made: VfsResult<NewNode<D>>,
    ) -> (r: VfsResult<DirEntry>)
        requires
            old(vfs).wf(),
            old(vfs)@.is_dir(*dir),
        ensures
            final(vfs).wf(),
            (final(vfs)@, r) == old(vfs)@.create_locked_step(*dir, name@, made),
    {
        match made {
            Err(e) => Err(e),
            Ok(node) => {
                let entry = vfs.enroll(Some(*dir), name.clone(), node);
                vfs.cache_insert(*dir, name, entry);
                Ok(entry)
            },
        }
    }

    /// Creates a node in `dir` under `name`: a valid name is handed to the
    /// backend with the type and the permission, and what the backend makes
    /// is entered and cached.
    pub fn create(
        vfs: &mut Vfs<D>,
        dir: &DirEntry,
        name: &str,
        node_type: NodeType,
        permission: NodePermission,
    ) -> (r: VfsResult<DirEntry>)
        requires
            old(vfs).wf(),
            old(vfs)@.is_dir(*dir),
        ensures
            final(vfs).wf(),
            exists|made: VfsResult<NewNode<D>>|
                old(vfs)@.create_told(*dir, name@, node_type, permission, made) && (final(vfs)@, r)
                    == #[trigger] old(vfs)@.create_step(*dir, name@, made),
            r is Err ==> final(vfs)@ == old(vfs)@,
    {
        if let Err(e) = verify_entry_name(name) {
            let ghost made: VfsResult<NewNode<D>> = Err(VfsError::EINVAL);
            assert((vfs@, Err::<DirEntry, VfsError>(e)) == old(vfs)@.create_step(*dir, name@, made));
            return Err(e);
        }
        let node = vfs.dir_node(*dir);
        let made = node.inner().create(name, node_type, permission);
        assert(D::create.ensures((&node.ops(), name, node_type, permission), made));
        assert(answers_create(old(vfs)@.dir_ops(*dir), name@, node_type, permission, made));
        let ghost answer = made;
        let r = Self::create_locked(vfs, dir, name.to_owned(), made);
        assert((vfs@, r) == old(vfs)@.create_step(*dir, name@, answer));
        r
    }

    /// Makes `name` in `dir` one more name of the node of `node`: a valid
    /// name is handed to the backend with that node, and what the backend
    /// answers is entered and cached.
    pub fn link(vfs: &mut Vfs<D>, dir: &DirEntry, name: &str, node: &DirEntry) -> (r: VfsResult<
        DirEntry,
    >)
        requires
            old(vfs).wf(),
            old(vfs)@.is_dir(*dir),
            old(vfs)@.has_entry(*node),
        ensures
            final(vfs).wf(),
            exists|made: VfsResult<NewNode<D>>|
                old(vfs)@.link_told(*dir, name@, *node, made) && (final(vfs)@, r)
                    == #[trigger] old(vfs)@.create_step(*dir, name@, made),
            r is Err ==> final(vfs)@ == old(vfs)@,
    {
        if let Err(e) = verify_entry_name(name) {
            let ghost made: VfsResult<NewNode<D>> = Err(VfsError::EINVAL);
            assert((vfs@, Err::<DirEntry, VfsError>(e)) == old(vfs)@.create_step(*dir, name@, made));
            return Err(e);
        }
        let ops = vfs.dir_node(*dir);
        let target = vfs.node(*node);
        let made = ops.inner().link(name, target);
        assert(D::link.ensures((&ops.ops(), name, target), made));
        assert(answers_link(
            old(vfs)@.dir_ops(*dir),
            name@,
            old(vfs)@.entry(*node).backing,
            made,
        ));
        let ghost answer = made;
        let r = Self::create_locked(vfs, dir, name.to_owned(), made);
        assert((vfs@, r) == old(vfs)@.create_step(*dir, name@, answer));
        r
    }

    /// Whether an entry may be removed as what the caller takes it for: a
    /// directory where none is asked for is refused with `EISDIR`, anything
    /// else where a directory is asked for with `ENOTDIR`.
    pub fn check_unlink(entry_is_dir: bool, is_dir: bool) -> (r: VfsResult<()>)
        ensures
            r == if entry_is_dir && !is_dir {
                Err::<(), VfsError>(VfsError::EISDIR)
            } else if !entry_is_dir && is_dir {
                Err::<(), VfsError>(VfsError::ENOTDIR)
            } else {
                Ok::<(), VfsError>(())
            },
    {
        if entry_is_dir && !is_dir {
            Err(VfsError::EISDIR)
        } else if !entry_is_dir && is_dir {
            Err(VfsError::ENOTDIR)
        } else {
            Ok(())
        }
    }

    /// What the removal of a name makes of the answer of the backend: if
    /// the backend removed the name, the entry leaves the cache, together
    /// with the caches below it; if not, nothing changes.
    pub fn settle_unlink(vfs: &mut Vfs<D>, dir: &DirEntry, name: &str, done: VfsResult<()>) -> (r:
        VfsResult<()>)
        requires
            old(vfs).wf(),
            old(vfs)@.is_dir(*dir),
        ensures
            final(vfs).wf(),
            r == done,
            final(vfs)@ == if done is Ok {
                old(vfs)@.forget_entry(*dir, name@)
            } else {
                old(vfs)@
            },
    {
        if done.is_ok() {
            let key = name.to_owned();
            Self::forget_entry(vfs, dir, &key);
        }
        done
    }

    /// Removes `name` from `dir`: see
    /// [`crate::model::VfsView::unlink_step`]. `is_dir` says whether the
    /// caller means to remove a directory.
    pub fn unlink(vfs: &mut Vfs<D>, dir: &DirEntry, name: &str, is_dir: bool) -> (r: VfsResult<()>)
        requires
            old(vfs).wf(),
            old(vfs)@.is_dir(*dir),
        ensures
            final(vfs).wf(),
            exists|looked: Looked<D>, done: VfsResult<()>|
                old(vfs)@.unlink_told(*dir, name@, is_dir, looked, done) && (final(vfs)@, r)
                    == #[trigger] old(vfs)@.unlink_step(*dir, name@, is_dir, looked, done),
    {
        let ghost s0 = vfs@;
        let ghost none = Looked::<D> { found: Err(VfsError::ENOENT), cache_it: false };
        if let Err(e) = verify_entry_name(name) {
            assert((vfs@, Err::<(), VfsError>(e)) == s0.unlink_step(*dir, name@, is_dir, none, Ok(())));
            return Err(e);
        }
        let found = Self::lookup_locked(vfs, dir, name);
        let ghost looked = choose|looked: Looked<D>|
            s0.lookup_locked_told(*dir, name@, looked) && (vfs@, found)
                == #[trigger] s0.lookup_locked_step(*dir, name@, looked);
        let entry = match found {
            Ok(entry) => entry,
            Err(e) => {
                assert((vfs@, Err::<(), VfsError>(e)) == s0.unlink_step(
                    *dir,
                    name@,
                    is_dir,
                    looked,
                    Ok(()),
                ));
                return Err(e);
            },
        };
        proof {
            if s0.entry(*dir).cache.contains_key(name@) {
                s0.lemma_child_under(*dir, name@);
            }
        }
        if let Err(e) = Self::check_unlink(entry.is_dir(vfs), is_dir) {
            assert((vfs@, Err::<(), VfsError>(e)) == s0.unlink_step(
                *dir,
                name@,
                is_dir,
                looked,
                Ok(()),
            ));
            return Err(e);
        }
        let node = vfs.dir_node(*dir);
        let done = node.inner().unlink(name);
        assert(D::unlink.ensures((&node.ops(), name), done));
        assert(answers_unlink(s0.dir_ops(*dir), name@, done));
        let r = Self::settle_unlink(vfs, dir, name, done);
        assert(s0.unlink_told(*dir, name@, is_dir, looked, done));
        assert((vfs@, r) == s0.unlink_step(*dir, name@, is_dir, looked, done));
        r
    }

    /// Hands the entries of the directory from `offset` on to `sink`: the
    /// result, and what becomes of the sink, are what the backend makes of
    /// this offset and this sink.
    pub fn read_dir<S: DirEntrySink>(&self, offset: u64, sink: &mut S) -> (r: VfsResult<usize>)
        ensures
            exists|handed: &mut S|
                *handed == *old(sink) && *final(handed) == *final(sink) && #[trigger] D::read_dir::<
                    S,
                >.ensures((&self.ops(), offset, handed), r),
    {
        self.inner().read_dir(offset, sink)
    }

    /// Whether the directory holds anything but `.` and `..`: the backend
    /// lists the directory from its start to a [`ChildProbe`] that has seen
    /// nothing. If the listing fails, its error is the answer; otherwise the
    /// answer is whether the probe has seen a child.
    pub fn has_children(&self) -> (r: VfsResult<bool>)
        ensures
            exists|handed: &mut ChildProbe, listed: VfsResult<usize>| #[trigger]
                answers_listing(self.ops(), handed, listed) && r == children_of_listing(
                    listed,
                    final(handed).seen(),
                ),
    {
        let mut probe = ChildProbe::new();
        let ghost before = probe;
        let listed = self.read_dir(0, &mut probe);
        proof {
            let handed = choose|handed: &mut ChildProbe|
                *handed == before && *final(handed) == probe && #[trigger] D::read_dir::<
                    ChildProbe,
                >.ensures((&self.ops(), 0u64, handed), listed);
            assert(answers_listing(self.ops(), handed, listed));
        }
        match listed {
            Ok(_) => Ok(probe.found()),
            Err(e) => Err(e),
        }
    }

    /// Whether what stands at the destination of a renaming may be
    /// replaced (see [`rename_verdict`]).
    pub fn check_rename(
        src_type: NodeType,
        dst_is_dir: bool,
        dst_type: NodeType,
        dst_children: VfsResult<bool>,
    ) -> (r: VfsResult<()>)
        ensures
            r == rename_verdict(src_type, dst_is_dir, dst_type, dst_children),
    {
        if src_type == NodeType::Directory {
            if dst_is_dir {
                match dst_children {
                    Err(e) => Err(e),
                    Ok(has_children) => if has_children {
                        Err(VfsError::ENOTEMPTY)
                    } else {
                        Ok(())
                    },
                }
            } else {
                Ok(())
            }
        } else if dst_type == NodeType::Directory {
            Err(VfsError::EISDIR)
        } else {
            Ok(())
        }
    }

    /// What a renaming makes of the answer of the backend: if the backend
    /// renamed, both names leave the caches, together with the caches below
    /// them; if not, nothing changes.
    pub fn settle_rename(
        vfs: &mut Vfs<D>,
        src_dir: &DirEntry,
        src_name: &str,
        dst_dir: &DirEntry,
        dst_name: &str,
        done: VfsResult<()>,
    ) -> (r: VfsResult<()>)
        requires
            old(vfs).wf(),
            old(vfs)@.is_dir(*src_dir),
            old(vfs)@.is_dir(*dst_dir),
        ensures
            final(vfs).wf(),
            r == done,
            final(vfs)@ == if done is Ok {
                old(vfs)@.forget_entry(*src_dir, src_name@).forget_entry(*dst_dir, dst_name@)
            } else {
                old(vfs)@
            },
    {
        if done.is_ok() {
            let src_key = src_name.to_owned();
            Self::forget_entry(vfs, src_dir, &src_key);
            let dst_key = dst_name.to_owned();
            Self::forget_entry(vfs, dst_dir, &dst_key);
        }
        done
    }

    /// Renames `src_name` of `src_dir` to `dst_name` of `dst_dir`: see
    /// [`crate::model::VfsView::rename_step`], without the guard.
    pub fn rename(
        vfs: &mut Vfs<D>,
        src_dir: &DirEntry,
        src_name: &str,
        dst_dir: &DirEntry,
        dst_name: &str,
    ) -> (r: VfsResult<()>)
        requires
            old(vfs).wf(),
            old(vfs)@.is_dir(*src_dir),
            old(vfs)@.is_dir(*dst_dir),
        ensures
            final(vfs).wf(),
            exists|
                src_looked: Looked<D>,
                dst_looked: Looked<D>,
                dst_children: VfsResult<bool>,
                done: VfsResult<()>,
            |
                old(vfs)@.rename_told(
                    *src_dir,
                    src_name@,
                    *dst_dir,
                    dst_name@,
                    false,
                    src_looked,
                    dst_looked,
                    dst_children,
                    done,
                ) && (old(vfs)@.rename_lists(
                    *src_dir,
                    src_name@,
                    *dst_dir,
                    dst_name@,
                    false,
                    src_looked,
                    dst_looked,
                ) matches Some(ops) ==> exists|handed: &mut ChildProbe, listed: VfsResult<usize>| #[trigger]
                    answers_listing(ops, handed, listed) && dst_children == children_of_listing(
                        listed,
                        final(handed).seen(),
                    )) && (final(vfs)@, r) == #[trigger] old(vfs)@.rename_step(
                    *src_dir,
                    src_name@,
                    *dst_dir,
                    dst_name@,
                    false,
                    src_looked,
                    dst_looked,
                    dst_children,
                    done,
                ),
    {
        Self::rename_guarded(vfs, src_dir, src_name, dst_dir, dst_name, false)
    }

    /// Renames as [`crate::model::VfsView::rename_step`] says, with or
    /// without the guard against moving a directory into itself or below
    /// itself.
    pub(crate) fn rename_guarded(
        vfs: &mut Vfs<D>,
        src_dir: &DirEntry,
        src_name: &str,
        dst_dir: &DirEntry,
        dst_name: &str,
        guard: bool,
    ) -> (r: VfsResult<()>)
        requires
            old(vfs).wf(),
            old(vfs)@.is_dir(*src_dir),
            old(vfs)@.is_dir(*dst_dir),
        ensures
            final(vfs).wf(),
            exists|
                src_looked: Looked<D>,
                dst_looked: Looked<D>,
                dst_children: VfsResult<bool>,
                done: VfsResult<()>,
            |
                old(vfs)@.rename_told(
                    *src_dir,
                    src_name@,
                    *dst_dir,
                    dst_name@,
                    guard,
                    src_looked,
                    dst_looked,
                    dst_children,
                    done,
                ) && (old(vfs)@.rename_lists(
                    *src_dir,
                    src_name@,
                    *dst_dir,
                    dst_name@,
                    guard,
                    src_looked,
                    dst_looked,
                ) matches Some(ops) ==> exists|handed: &mut ChildProbe, listed: VfsResult<usize>| #[trigger]
                    answers_listing(ops, handed, listed) && dst_children == children_of_listing(
                        listed,
                        final(handed).seen(),
                    )) && (final(vfs)@, r) == #[trigger] old(vfs)@.rename_step(
                    *src_dir,
                    src_name@,
                    *dst_dir,
                    dst_name@,
                    guard,
                    src_looked,
                    dst_looked,
                    dst_children,
                    done,
                ),
    {
        let ghost s0 = vfs@;
        let ghost none = Looked::<D> { found: Err(VfsError::ENOENT), cache_it: false };
        let ghost idle: VfsResult<bool> = Ok(false);
        let named = match verify_entry_name(src_name) {
            Ok(_) => verify_entry_name(dst_name),
            Err(e) => Err(e),
        };
        if let Err(e) = named {
            assert((vfs@, Err::<(), VfsError>(e)) == s0.rename_step(
                *src_dir,
                src_name@,
                *dst_dir,
                dst_name@,
                guard,
                none,
                none,
                idle,
                Ok(()),
            ));
            return Err(e);
        }
        let src_found = Self::lookup_locked(vfs, src_dir, src_name);
        let ghost src_looked = choose|looked: Looked<D>|
            s0.lookup_locked_told(*src_dir, src_name@, looked) && (vfs@, src_found)
                == #[trigger] s0.lookup_locked_step(*src_dir, src_name@, looked);
        let ghost s1 = vfs@;
        let src = match src_found {
            Ok(src) => src,
            Err(e) => {
                assert((vfs@, Err::<(), VfsError>(e)) == s0.rename_step(
                    *src_dir,
                    src_name@,
                    *dst_dir,
                    dst_name@,
                    guard,
                    src_looked,
                    none,
                    idle,
                    Ok(()),
                ));
                return Err(e);
            },
        };
        proof {
            if s0.entry(*src_dir).cache.contains_key(src_name@) {
                s0.lemma_child_under(*src_dir, src_name@);
            }
        }
        if guard && src.is_dir(vfs) {
            let above = match src.is_ancestor_of(vfs, dst_dir) {
                Ok(above) => above,
                Err(_) => false,
            };
            if above {
                assert((vfs@, Err::<(), VfsError>(VfsError::EINVAL)) == s0.rename_step(
                    *src_dir,
                    src_name@,
                    *dst_dir,
                    dst_name@,
                    guard,
                    src_looked,
                    none,
                    idle,
                    Ok(()),
                ));
                return Err(VfsError::EINVAL);
            }
        }
        let dst_found = Self::lookup_locked(vfs, dst_dir, dst_name);
        let ghost dst_looked = choose|looked: Looked<D>|
            s1.lookup_locked_told(*dst_dir, dst_name@, looked) && (vfs@, dst_found)
                == #[trigger] s1.lookup_locked_step(*dst_dir, dst_name@, looked);
        let ghost s2 = vfs@;
        let mut asked: VfsResult<bool> = Ok(false);
        let ghost mut was_asked = false;
        let verdict = match dst_found {
            Err(_) => Ok(()),
            Ok(dst) => {
                proof {
                    if s1.entry(*dst_dir).cache.contains_key(dst_name@) {
                        s1.lemma_child_under(*dst_dir, dst_name@);
                    }
                }
                let src_type = src.node_type(vfs);
                if src_type == NodeType::Directory {
                    if let Ok(node) = dst.as_dir(vfs) {
                        asked = node.has_children();
                        proof {
                            was_asked = true;
                        }
                        assert(exists|handed: &mut ChildProbe, listed: VfsResult<usize>| #[trigger]
                            answers_listing(s2.dir_ops(dst), handed, listed) && asked
                                == children_of_listing(listed, final(handed).seen()));
                    }
                }
                Self::check_rename(src_type, dst.is_dir(vfs), dst.node_type(vfs), asked)
            },
        };
        proof {
            let lists = s0.rename_lists(
                *src_dir,
                src_name@,
                *dst_dir,
                dst_name@,
                guard,
                src_looked,
                dst_looked,
            );
            assert(was_asked ==> exists|handed: &mut ChildProbe, listed: VfsResult<usize>| #[trigger]
                answers_listing(s2.dir_ops(dst_found->Ok_0), handed, listed) && asked
                    == children_of_listing(listed, final(handed).seen()));
            assert(lists is Some ==> was_asked && lists->0 == s2.dir_ops(dst_found->Ok_0));
        }
        if let Err(e) = verdict {
            assert(s0.rename_told(
                *src_dir,
                src_name@,
                *dst_dir,
                dst_name@,
                guard,
                src_looked,
                dst_looked,
                asked,
                Ok(()),
            ));
            assert((vfs@, Err::<(), VfsError>(e)) == s0.rename_step(
                *src_dir,
                src_name@,
                *dst_dir,
                dst_name@,
                guard,
                src_looked,
                dst_looked,
                asked,
                Ok(()),
            ));
            return Err(e);
        }
        let src_node = vfs.dir_node(*src_dir);
        let dst_node = vfs.dir_node(*dst_dir);
        let done = src_node.inner().rename(src_name, dst_node.inner(), dst_name);
        assert(D::rename.ensures((&src_node.ops(), src_name, &dst_node.ops(), dst_name), done));
        assert(answers_rename(s2.dir_ops(*src_dir), src_name@, s2.dir_ops(*dst_dir), dst_name@, done));
        let r = Self::settle_rename(vfs, src_dir, src_name, dst_dir, dst_name, done);
        assert(s0.rename_told(
            *src_dir,
            src_name@,
            *dst_dir,
            dst_name@,
            guard,
            src_looked,
            dst_looked,
            asked,
            done,
        ));
        assert((vfs@, r) == s0.rename_step(
            *src_dir,
            src_name@,
            *dst_dir,
            dst_name@,
            guard,
            src_looked,
            dst_looked,
            asked,
            done,
        ));
        r
    }

    /// Opens the entry `name` of `dir`, creating a regular file if the
    /// options say so: see [`crate::model::VfsView::open_file_step`].
    pub fn open_file(vfs: &mut Vfs<D>, dir: &DirEntry, name: &str, options: &OpenOptions) -> (r:
        VfsResult<DirEntry>)
        requires
            old(vfs).wf(),
            old(vfs)@.is_dir(*dir),
        ensures
            final(vfs).wf(),
            exists|looked: Looked<D>, made: VfsResult<NewNode<D>>, owned: VfsResult<()>|
                old(vfs)@.open_file_told(
                    *dir,
                    name@,
                    options.create,
                    options.permission,
                    options.user,
                    looked,
                    made,
                    owned,
                ) && (final(vfs)@, r) == #[trigger] old(vfs)@.open_file_step(
                    *dir,
                    name@,
                    options.create,
                    options.create_new,
                    options.user is Some,
                    looked,
                    made,
                    owned,
                ),
    {
        let ghost s0 = vfs@;
        let ghost none = Looked::<D> { found: Err(VfsError::ENOENT), cache_it: false };
        let ghost unmade: VfsResult<NewNode<D>> = Err(VfsError::ENOENT);
        if let Err(e) = verify_entry_name(name) {
            assert((vfs@, Err::<DirEntry, VfsError>(e)) == s0.open_file_step(
                *dir,
                name@,
                options.create,
                options.create_new,
                options.user is Some,
                none,
                unmade,
                Ok(()),
            ));
            return Err(e);
        }
        let found = Self::lookup_locked(vfs, dir, name);
        let ghost looked = choose|looked: Looked<D>|
            s0.lookup_locked_told(*dir, name@, looked) && (vfs@, found)
                == #[trigger] s0.lookup_locked_step(*dir, name@, looked);
        let stop: Option<VfsResult<DirEntry>> = match found {
            Ok(entry) => if options.create_new {
                Some(Err(VfsError::EEXIST))
            } else {
                Some(Ok(entry))
            },
            Err(err) => if err == VfsError::ENOENT && options.create {
                None
            } else {
                Some(Err(err))
            },
        };
        if let Some(r) = stop {
            assert(s0.open_file_told(
                *dir,
                name@,
                options.create,
                options.permission,
                options.user,
                looked,
                unmade,
                Ok(()),
            ));
            assert((vfs@, r) == s0.open_file_step(
                *dir,
                name@,
                options.create,
                options.create_new,
                options.user is Some,
                looked,
                unmade,
                Ok(()),
            ));
            return r;
        }
        let node = vfs.dir_node(*dir);
        let made = node.inner().create(name, NodeType::RegularFile, options.permission);
        assert(D::create.ensures(
            (&node.ops(), name, NodeType::RegularFile, options.permission),
            made,
        ));
        assert(answers_create(
            s0.dir_ops(*dir),
            name@,
            NodeType::RegularFile,
            options.permission,
            made,
        ));
        let ghost answer = made;
        let entry = match Self::create_locked(vfs, dir, name.to_owned(), made) {
            Ok(entry) => entry,
            Err(e) => {
                assert(s0.open_file_told(
                    *dir,
                    name@,
                    options.create,
                    options.permission,
                    options.user,
                    looked,
                    answer,
                    Ok(()),
                ));
                assert((vfs@, Err::<DirEntry, VfsError>(e)) == s0.open_file_step(
                    *dir,
                    name@,
                    options.create,
                    options.create_new,
                    options.user is Some,
                    looked,
                    answer,
                    Ok(()),
                ));
                return Err(e);
            },
        };
        let mut owned: VfsResult<()> = Ok(());
        if options.user.is_some() {
            owned =
            entry.update_metadata(
                vfs,
                MetadataUpdate { mode: None, owner: options.user, atime: None, mtime: None },
            );
        }
        let r = match owned {
            Ok(_) => Ok(entry),
            Err(e) => Err(e),
        };
        assert(s0.open_file_told(
            *dir,
            name@,
            options.create,
            options.permission,
            options.user,
            looked,
            answer,
            owned,
        ));
        assert((vfs@, r) == s0.open_file_step(
            *dir,
            name@,
            options.create,
            options.create_new,
            options.user is Some,
            looked,
            answer,
            owned,
        ));
        r
    }
}

/// How [`DirNode::open_file`] opens an entry, and whether it creates one.
#[derive(Default, Debug, Clone, Copy)]
pub struct OpenOptions {
    /// Create a regular file if the name is not found.
    pub create: bool,
    /// Fail with `EEXIST` if the name is found.
    pub create_new: bool,
    /// The permission of a file that is created.
    pub permission: NodePermission,
    /// The owner of a file that is created, as (user, group).
    pub user: Option<(u32, u32)>,
}

/// The sink that looks for a first entry other than `.` and `..`, and
/// wants no more once it has seen one.
pub struct ChildProbe {
    found: bool,
}

impl ChildProbe {
    /// Whether an entry other than `.` and `..` was seen.
    pub closed spec fn seen(&self) -> bool {
        self.found
    }

    /// A probe that has seen nothing.
    pub fn new() -> (r: ChildProbe)
        ensures
            !r.seen(),
    {
        ChildProbe { found: false }
    }

    /// Whether an entry other than `.` and `..` was seen.
    pub fn found(&self) -> (r: bool)
        ensures
            r == self.seen(),
    {
        self.found
    }
}

impl DirEntrySink for ChildProbe {
    /// Wants more after `.` and `..`; any other name is a child, and the
    /// last entry that the probe takes.
    fn accept(&mut self, name: &str, ino: u64, node_type: NodeType, offset: u64) -> (r: bool)
        ensures
            r == (name@ == dot() || name@ == dotdot()),
            final(self).seen() == (old(self).seen() || !r),
    {
        if is_reserved_name(name) {
            true
        } else {
            self.found = true;
            false
        }
    }
}

} // verus!
