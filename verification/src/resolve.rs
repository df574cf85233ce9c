use crate::error::{VfsError, VfsResult};
use crate::model::VfsView;
use crate::mount::Location;
use crate::ops::DirNodeOps;
use crate::path::{components, path_file_name, path_steps, steps_of, Component};
use crate::steps::{Looked, Told};
use crate::vfs::Vfs;
use crate::walk::Answers;
use vstd::prelude::*;

verus! {

/// Resolves paths against a root and a current directory.
///
/// The root is where absolute paths start and where `..` stops: a walk
/// never leaves it upwards.
#[derive(Clone, Copy, Debug, PartialEq, Eq, Structural)]
pub struct FsResolver {
    root_dir: Location,
    current_dir: Location,
}

/// The directory and the final name that the resolution of a path
/// returns, the name as its characters.
pub open spec fn tail_chars<'a>(r: VfsResult<(Location, Option<&'a str>)>) -> Result<
    (Location, Option<Seq<char>>),
    VfsError,
> {
    match r {
        Ok((dir, tail)) => Ok(
            (
                dir,
                match tail {
                    Some(name) => Some(name@),
                    None => None,
                },
            ),
        ),
        Err(e) => Err(e),
    }
}

/// A directory and a name, the name as its characters.
pub open spec fn name_chars(r: VfsResult<(Location, String)>) -> Result<
    (Location, Seq<char>),
    VfsError,
> {
    match r {
        Ok((dir, name)) => Ok((dir, name@)),
        Err(e) => Err(e),
    }
}

/// A directory and a borrowed name, the name as its characters.
pub open spec fn str_chars<'a>(r: VfsResult<(Location, &'a str)>) -> Result<
    (Location, Seq<char>),
    VfsError,
> {
    match r {
        Ok((dir, name)) => Ok((dir, name@)),
        Err(e) => Err(e),
    }
}

impl FsResolver {
    /// The root of the resolver.
    pub closed spec fn root(&self) -> Location {
        self.root_dir
    }

    /// The current directory of the resolver.
    pub closed spec fn cwd(&self) -> Location {
        self.current_dir
    }

    /// Both positions of the resolver are positions of the namespace.
    pub open spec fn wf<D: DirNodeOps>(&self, s: VfsView<D>) -> bool {
        s.has_location(self.root()) && s.has_location(self.cwd())
    }

    /// A resolver whose root and current directory are `root_dir`.
    pub fn new(root_dir: Location) -> (r: FsResolver)
        ensures
            r.root() == root_dir,
            r.cwd() == root_dir,
    {
        FsResolver { root_dir, current_dir: root_dir }
    }

    pub fn root_dir(&self) -> (r: &Location)
        ensures
            *r == self.root(),
    {
        &self.root_dir
    }

    pub fn current_dir(&self) -> (r: &Location)
        ensures
            *r == self.cwd(),
    {
        &self.current_dir
    }

    /// Makes `current_dir` the current directory, if it is a directory;
    /// `ENOTDIR` otherwise, and nothing changes.
    pub fn set_current_dir<D: DirNodeOps>(&mut self, vfs: &Vfs<D>, current_dir: Location) -> (r:
        VfsResult<()>)
        requires
            vfs.wf(),
            vfs@.has_location(current_dir),
        ensures
            final(self).root() == old(self).root(),
            vfs@.entry(current_dir.entry).is_dir ==> r is Ok && final(self).cwd() == current_dir,
            !vfs@.entry(current_dir.entry).is_dir ==> r == Err::<(), VfsError>(VfsError::ENOTDIR)
                && final(self).cwd() == old(self).cwd(),
    {
        if let Err(e) = current_dir.check_is_dir(vfs) {
            return Err(e);
        }
        self.current_dir = current_dir;
        Ok(())
    }

    /// A resolver with the same root whose current directory is
    /// `current_dir`, if that is a directory; `ENOTDIR` otherwise.
    pub fn with_current_dir<D: DirNodeOps>(&self, vfs: &Vfs<D>, current_dir: Location) -> (r:
        VfsResult<FsResolver>)
        requires
            vfs.wf(),
            vfs@.has_location(current_dir),
        ensures
            vfs@.entry(current_dir.entry).is_dir ==> (r matches Ok(next) && next.root()
                == self.root() && next.cwd() == current_dir),
            !vfs@.entry(current_dir.entry).is_dir ==> r is Err && r->Err_0 == VfsError::ENOTDIR,
    {
        if let Err(e) = current_dir.check_is_dir(vfs) {
            return Err(e);
        }
        Ok(FsResolver { root_dir: self.root_dir, current_dir })
    }

    /// One step of a walk that stands at `dir`: see
    /// [`VfsView::walk_one`].
    pub fn advance<D: DirNodeOps>(&self, vfs: &mut Vfs<D>, dir: Location, step: &Component<'_>) -> (r:
        VfsResult<Location>)
        requires
            old(vfs).wf(),
            self.wf(old(vfs)@),
            old(vfs)@.has_location(dir),
        ensures
            final(vfs).wf(),
            self.wf(final(vfs)@),
            exists|told: Told<D>|
                old(vfs)@.walk_one_told(dir, step@, told) && (final(vfs)@, r)
                    == #[trigger] old(vfs)@.walk_one(self.root(), dir, step@, told),
            r matches Ok(next) ==> final(vfs)@.has_location(next),
    {
        let ghost s0 = vfs@;
        let ghost none = Told::<D> {
            cacheable: false,
            looked: Looked { found: Err(VfsError::ENOENT), cache_it: false },
        };
        match step {
            Component::CurDir => {
                assert((vfs@, Ok::<Location, VfsError>(dir)) == s0.walk_one(
                    self.root(),
                    dir,
                    step@,
                    none,
                ));
                Ok(dir)
            },
            Component::ParentDir => {
                let up = if dir.ptr_eq(&self.root_dir) {
                    self.root_dir
                } else {
                    match dir.parent(vfs) {
                        Some(above) => above,
                        None => self.root_dir,
                    }
                };
                assert((vfs@, Ok::<Location, VfsError>(up)) == s0.walk_one(
                    self.root(),
                    dir,
                    step@,
                    none,
                ));
                Ok(up)
            },
            Component::RootDir => {
                assert((vfs@, Ok::<Location, VfsError>(self.root_dir)) == s0.walk_one(
                    self.root(),
                    dir,
                    step@,
                    none,
                ));
                Ok(self.root_dir)
            },
            Component::Normal(name) => {
                let r = dir.lookup_no_follow(vfs, name);
                proof {
                    let told = choose|told: Told<D>|
                        s0.location_lookup_told(dir, name@, told) && (vfs@, r)
                            == #[trigger] s0.location_lookup_step(dir, name@, told);
                    assert(s0.walk_one_told(dir, step@, told));
                    assert((vfs@, r) == s0.walk_one(self.root(), dir, step@, told));
                }
                r
            },
        }
    }

    /// The directory that `path` leads to, and the final name of the path
    /// if it ends in a name: see [`VfsView::resolve_inner_step`].
    pub fn resolve_inner<'a, D: DirNodeOps>(&self, vfs: &mut Vfs<D>, path: &'a str) -> (r:
        VfsResult<(Location, Option<&'a str>)>)
        requires
            old(vfs).wf(),
            self.wf(old(vfs)@),
        ensures
            final(vfs).wf(),
            self.wf(final(vfs)@),
            exists|answers: Answers<D>|
                old(vfs)@.resolve_inner_told(self.root(), self.cwd(), path@, answers) && (
                final(vfs)@, tail_chars(r)) == #[trigger] old(vfs)@.resolve_inner_step(
                    self.root(),
                    self.cwd(),
                    path@,
                    answers,
                ),
            r matches Ok((dir, _)) ==> final(vfs)@.has_location(dir),
    {
        let ghost s0 = vfs@;
        let ghost steps = path_steps(path@);
        let comps = components(path);
        let n: usize = comps.len();
        assert(steps.len() == n);
        let tail: Option<&'a str> = if n > 0 {
            assert(steps_of(comps@)[n - 1] == comps@[n - 1]@);
            match comps[n - 1] {
                Component::Normal(name) => Some(name),
                _ => None,
            }
        } else {
            None
        };
        assert(match path_file_name(path@) {
            Some(name) => tail matches Some(s) && s@ == name,
            None => tail is None,
        });
        let lead: usize = if tail.is_some() {
            n - 1
        } else {
            n
        };
        let mut dir = self.current_dir;
        let ghost none = Told::<D> {
            cacheable: false,
            looked: Looked { found: Err(VfsError::ENOENT), cache_it: false },
        };
        let ghost mut answers: Answers<D> = Seq::new(n as nat, |k: int| none);
        let mut i: usize = 0;
        while i < lead
            invariant
                vfs.wf(),
                s0 == old(vfs)@,
                self.wf(vfs@),
                vfs@.has_location(dir),
                i <= lead <= n,
                n == comps.len(),
                steps == steps_of(comps@),
                steps == path_steps(path@),
                steps.len() == n,
                answers.len() == n,
                lead == if path_file_name(path@) is Some {
                    n - 1
                } else {
                    n as int
                },
                (vfs@, Ok::<Location, VfsError>(dir)) == s0.walk(
                    self.root(),
                    self.cwd(),
                    steps,
                    answers,
                    i as nat,
                ),
                s0.walk_told(self.root(), self.cwd(), steps, answers, i as nat),
            decreases lead - i,
        {
            let ghost mid = vfs@;
            let ghost before = answers;
            assert(steps[i as int] == comps@[i as int]@);
            let stepped = self.advance(vfs, dir, &comps[i]);
            proof {
                let told = choose|told: Told<D>|
                    mid.walk_one_told(dir, steps[i as int], told) && (vfs@, stepped)
                        == #[trigger] mid.walk_one(self.root(), dir, steps[i as int], told);
                answers = before.update(i as int, told);
                s0.lemma_walk_answers(self.root(), self.cwd(), steps, before, answers, i as nat);
                assert(s0.walk_told(self.root(), self.cwd(), steps, answers, (i + 1) as nat));
                assert((vfs@, stepped) == s0.walk(
                    self.root(),
                    self.cwd(),
                    steps,
                    answers,
                    (i + 1) as nat,
                ));
            }
            match stepped {
                Ok(next) => {
                    dir = next;
                },
                Err(e) => {
                    proof {
                        s0.lemma_walk_failed(
                            self.root(),
                            self.cwd(),
                            steps,
                            answers,
                            (i + 1) as nat,
                            lead as nat,
                        );
                        assert((vfs@, Err::<(Location, Option<Seq<char>>), VfsError>(e))
                            == s0.resolve_inner_step(self.root(), self.cwd(), path@, answers));
                    }
                    return Err(e);
                },
            }
            i = i + 1;
        }
        if let Err(e) = dir.check_is_dir(vfs) {
            assert((vfs@, Err::<(Location, Option<Seq<char>>), VfsError>(e))
                == s0.resolve_inner_step(self.root(), self.cwd(), path@, answers));
            return Err(e);
        }
        let r = Ok((dir, tail));
        assert((vfs@, tail_chars(r)) == s0.resolve_inner_step(
            self.root(),
            self.cwd(),
            path@,
            answers,
        ));
        r
    }

    /// Resolves `path`, starting from the current directory: see
    /// [`VfsView::resolve_step`].
    pub fn resolve<D: DirNodeOps>(&self, vfs: &mut Vfs<D>, path: &str) -> (r: VfsResult<Location>)
        requires
            old(vfs).wf(),
            self.wf(old(vfs)@),
        ensures
            final(vfs).wf(),
            self.wf(final(vfs)@),
            exists|answers: Answers<D>, last: Told<D>|
                old(vfs)@.resolve_told(self.root(), self.cwd(), path@, answers, last) && (final(vfs)@, r)
                    == #[trigger] old(vfs)@.resolve_step(
                    self.root(),
                    self.cwd(),
                    path@,
                    answers,
                    last,
                ),
            r matches Ok(loc) ==> final(vfs)@.has_location(loc),
    {
        let ghost s0 = vfs@;
        let inner = self.resolve_inner(vfs, path);
        let ghost answers = choose|answers: Answers<D>|
            s0.resolve_inner_told(self.root(), self.cwd(), path@, answers) && (vfs@, tail_chars(inner))
                == #[trigger] s0.resolve_inner_step(self.root(), self.cwd(), path@, answers);
        let ghost none = Told::<D> {
            cacheable: false,
            looked: Looked { found: Err(VfsError::ENOENT), cache_it: false },
        };
        let ghost mid = vfs@;
        match inner {
            Err(e) => {
                assert((vfs@, Err::<Location, VfsError>(e)) == s0.resolve_step(
                    self.root(),
                    self.cwd(),
                    path@,
                    answers,
                    none,
                ));
                Err(e)
            },
            Ok((dir, tail)) => match tail {
                Some(name) => {
                    let r = dir.lookup_no_follow(vfs, name);
                    proof {
                        let last = choose|last: Told<D>|
                            mid.location_lookup_told(dir, name@, last) && (vfs@, r)
                                == #[trigger] mid.location_lookup_step(dir, name@, last);
                        assert(s0.resolve_told(self.root(), self.cwd(), path@, answers, last));
                        assert((vfs@, r) == s0.resolve_step(
                            self.root(),
                            self.cwd(),
                            path@,
                            answers,
                            last,
                        ));
                    }
                    r
                },
                None => {
                    assert((vfs@, Ok::<Location, VfsError>(dir)) == s0.resolve_step(
                        self.root(),
                        self.cwd(),
                        path@,
                        answers,
                        none,
                    ));
                    Ok(dir)
                },
            },
        }
    }

    /// Resolves `path` to the directory of its last entry and the name of
    /// that entry: see [`VfsView::resolve_parent_step`].
    pub fn resolve_parent<D: DirNodeOps>(&self, vfs: &mut Vfs<D>, path: &str) -> (r: VfsResult<
        (Location, String),
    >)
        requires
            old(vfs).wf(),
            self.wf(old(vfs)@),
        ensures
            final(vfs).wf(),
            self.wf(final(vfs)@),
            exists|answers: Answers<D>|
                old(vfs)@.resolve_inner_told(self.root(), self.cwd(), path@, answers) && (
                final(vfs)@, name_chars(r)) == #[trigger] old(vfs)@.resolve_parent_step(
                    self.root(),
                    self.cwd(),
                    path@,
                    answers,
                ),
            r matches Ok((dir, _)) ==> final(vfs)@.has_location(dir),
    {
        let ghost s0 = vfs@;
        let inner = self.resolve_inner(vfs, path);
        let ghost answers = choose|answers: Answers<D>|
            s0.resolve_inner_told(self.root(), self.cwd(), path@, answers) && (vfs@, tail_chars(inner))
                == #[trigger] s0.resolve_inner_step(self.root(), self.cwd(), path@, answers);
        let r = match inner {
            Err(e) => Err(e),
            Ok((dir, tail)) => match tail {
                Some(name) => Ok((dir, name.to_owned())),
                None => match dir.parent(vfs) {
                    Some(above) => Ok((above, dir.name(vfs).to_owned())),
                    None => Err(VfsError::EINVAL),
                },
            },
        };
        assert((vfs@, name_chars(r)) == s0.resolve_parent_step(
            self.root(),
            self.cwd(),
            path@,
            answers,
        ));
        r
    }

    /// Resolves the path of an entry that is yet to be made to its
    /// directory and its name: see [`VfsView::resolve_nonexistent_step`].
    ///
    /// The directory must exist. That the entry does not exist is not
    /// checked: the path only has to end in a name.
    pub fn resolve_nonexistent<'a, D: DirNodeOps>(&self, vfs: &mut Vfs<D>, path: &'a str) -> (r:
        VfsResult<(Location, &'a str)>)
        requires
            old(vfs).wf(),
            self.wf(old(vfs)@),
        ensures
            final(vfs).wf(),
            self.wf(final(vfs)@),
            exists|answers: Answers<D>|
                old(vfs)@.resolve_inner_told(self.root(), self.cwd(), path@, answers) && (
                final(vfs)@, str_chars(r)) == #[trigger] old(vfs)@.resolve_nonexistent_step(
                    self.root(),
                    self.cwd(),
                    path@,
                    answers,
                ),
            r matches Ok((dir, _)) ==> final(vfs)@.has_location(dir),
    {
        let ghost s0 = vfs@;
        let inner = self.resolve_inner(vfs, path);
        let ghost answers = choose|answers: Answers<D>|
            s0.resolve_inner_told(self.root(), self.cwd(), path@, answers) && (vfs@, tail_chars(inner))
                == #[trigger] s0.resolve_inner_step(self.root(), self.cwd(), path@, answers);
        let r = match inner {
            Err(e) => Err(e),
            Ok((dir, tail)) => match tail {
                Some(name) => Ok((dir, name)),
                None => Err(VfsError::EEXIST),
            },
        };
        assert((vfs@, str_chars(r)) == s0.resolve_nonexistent_step(
            self.root(),
            self.cwd(),
            path@,
            answers,
        ));
        r
    }
}

} // verus!
