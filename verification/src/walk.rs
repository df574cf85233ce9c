use crate::error::VfsError;
use crate::model::VfsView;
use crate::mount::Location;
use crate::ops::DirNodeOps;
use crate::path::{path_file_name, path_steps, Step};
use crate::steps::Told;
use vstd::prelude::*;

verus! {

/// What the backend answered to the lookups of a walk: one answer for
/// each step of the path, by the position of the step. The answer for a
/// step that asked nothing plays no part.
pub type Answers<D> = Seq<Told<D>>;

/// The walks over the namespace that resolve a path.
impl<D: DirNodeOps> VfsView<D> {
    /// Where `..` leads from `dir`: to the position above, but never out
    /// of `root`, and to `root` where there is nothing above.
    pub open spec fn step_up(self, root: Location, dir: Location) -> Location {
        if dir == root {
            root
        } else {
            match self.location_parent(dir) {
                Some(above) => above,
                None => root,
            }
        }
    }

    /// One step of a walk that stands at `dir`.
    pub open spec fn walk_one(self, root: Location, dir: Location, step: Step, told: Told<D>) -> (
        VfsView<D>,
        Result<Location, VfsError>,
    ) {
        match step {
            Step::CurDir => (self, Ok(dir)),
            Step::ParentDir => (self, Ok(self.step_up(root, dir))),
            Step::RootDir => (self, Ok(root)),
            Step::Normal(name) => self.location_lookup_step(dir, name, told),
        }
    }

    /// What the backend is asked by one step of a walk: a name is looked
    /// up as [`Self::location_lookup_told`] says; the other steps ask
    /// nothing.
    pub open spec fn walk_one_told(self, dir: Location, step: Step, told: Told<D>) -> bool {
        match step {
            Step::Normal(name) => self.location_lookup_told(dir, name, told),
            _ => true,
        }
    }

    /// The walk over the first `n` of `steps`, from `start`. The first
    /// step that fails ends the walk.
    pub open spec fn walk(
        self,
        root: Location,
        start: Location,
        steps: Seq<Step>,
        answers: Answers<D>,
        n: nat,
    ) -> (VfsView<D>, Result<Location, VfsError>)
        decreases n,
    {
        if n == 0 {
            (self, Ok(start))
        } else {
            let (mid, r) = self.walk(root, start, steps, answers, (n - 1) as nat);
            match r {
                Err(e) => (mid, Err(e)),
                Ok(dir) => mid.walk_one(root, dir, steps[n - 1], answers[n - 1]),
            }
        }
    }

    /// What the backend is asked by the first `n` steps of a walk: each
    /// step that the walk reaches asks, in the state and at the position
    /// that the walk has reached, what [`Self::walk_one_told`] says.
    pub open spec fn walk_told(
        self,
        root: Location,
        start: Location,
        steps: Seq<Step>,
        answers: Answers<D>,
        n: nat,
    ) -> bool
        decreases n,
    {
        if n == 0 {
            true
        } else {
            let (mid, r) = self.walk(root, start, steps, answers, (n - 1) as nat);
            self.walk_told(root, start, steps, answers, (n - 1) as nat) && match r {
                Err(_) => true,
                Ok(dir) => mid.walk_one_told(dir, steps[n - 1], answers[n - 1]),
            }
        }
    }

    /// The number of steps that lead to the directory of a path: all but
    /// a final name.
    pub open spec fn lead_of(path: Seq<char>) -> nat {
        if path_file_name(path) is Some {
            (path_steps(path).len() - 1) as nat
        } else {
            path_steps(path).len()
        }
    }

    /// The directory that a path leads to, and the final name of the path
    /// if it ends in a name. The walk goes over all steps but a final name,
    /// from `cwd`; where it ends there must be a directory (`ENOTDIR`).
    pub open spec fn resolve_inner_step(
        self,
        root: Location,
        cwd: Location,
        path: Seq<char>,
        answers: Answers<D>,
    ) -> (VfsView<D>, Result<(Location, Option<Seq<char>>), VfsError>) {
        let (post, r) = self.walk(root, cwd, path_steps(path), answers, Self::lead_of(path));
        match r {
            Err(e) => (post, Err(e)),
            Ok(dir) => if post.entry(dir.entry).is_dir {
                (post, Ok((dir, path_file_name(path))))
            } else {
                (post, Err(VfsError::ENOTDIR))
            },
        }
    }

    /// What the backend is asked by [`Self::resolve_inner_step`].
    pub open spec fn resolve_inner_told(
        self,
        root: Location,
        cwd: Location,
        path: Seq<char>,
        answers: Answers<D>,
    ) -> bool {
        self.walk_told(root, cwd, path_steps(path), answers, Self::lead_of(path))
    }

    /// The position that a path leads to: the final name, if there is one,
    /// is looked up in the directory that the rest of the path leads to.
    pub open spec fn resolve_step(
        self,
        root: Location,
        cwd: Location,
        path: Seq<char>,
        answers: Answers<D>,
        last: Told<D>,
    ) -> (VfsView<D>, Result<Location, VfsError>) {
        let (post, r) = self.resolve_inner_step(root, cwd, path, answers);
        match r {
            Err(e) => (post, Err(e)),
            Ok((dir, tail)) => match tail {
                Some(name) => post.location_lookup_step(dir, name, last),
                None => (post, Ok(dir)),
            },
        }
    }

    /// What the backend is asked by [`Self::resolve_step`]: what the walk
    /// to the directory asks, and then the lookup of the final name.
    pub open spec fn resolve_told(
        self,
        root: Location,
        cwd: Location,
        path: Seq<char>,
        answers: Answers<D>,
        last: Told<D>,
    ) -> bool {
        let (post, r) = self.resolve_inner_step(root, cwd, path, answers);
        &&& self.resolve_inner_told(root, cwd, path, answers)
        &&& match r {
            Ok((dir, Some(name))) => post.location_lookup_told(dir, name, last),
            _ => true,
        }
    }

    /// The directory and the name that a path leads to: the final name of
    /// the path and the directory that the rest leads to, or, for a path
    /// without a final name, the name of the directory that it leads to and
    /// the position above it; `EINVAL` where there is nothing above.
    pub open spec fn resolve_parent_step(
        self,
        root: Location,
        cwd: Location,
        path: Seq<char>,
        answers: Answers<D>,
    ) -> (VfsView<D>, Result<(Location, Seq<char>), VfsError>) {
        let (post, r) = self.resolve_inner_step(root, cwd, path, answers);
        match r {
            Err(e) => (post, Err(e)),
            Ok((dir, tail)) => match tail {
                Some(name) => (post, Ok((dir, name))),
                None => match post.location_parent(dir) {
                    Some(above) => (post, Ok((above, post.location_name(dir)))),
                    None => (post, Err(VfsError::EINVAL)),
                },
            },
        }
    }

    /// The directory and the name of an entry that is yet to be made: the
    /// path must end in a name (`EEXIST`). Whether the name is free is not
    /// looked at.
    pub open spec fn resolve_nonexistent_step(
        self,
        root: Location,
        cwd: Location,
        path: Seq<char>,
        answers: Answers<D>,
    ) -> (VfsView<D>, Result<(Location, Seq<char>), VfsError>) {
        let (post, r) = self.resolve_inner_step(root, cwd, path, answers);
        match r {
            Err(e) => (post, Err(e)),
            Ok((dir, tail)) => match tail {
                Some(name) => (post, Ok((dir, name))),
                None => (post, Err(VfsError::EEXIST)),
            },
        }
    }

    /// A walk goes by the answers to its own steps alone.
    pub proof fn lemma_walk_answers(
        self,
        root: Location,
        start: Location,
        steps: Seq<Step>,
        a: Answers<D>,
        b: Answers<D>,
        n: nat,
    )
        requires
            forall|k: int| 0 <= k < n ==> a[k] == b[k],
        ensures
            self.walk(root, start, steps, a, n) == self.walk(root, start, steps, b, n),
            self.walk_told(root, start, steps, a, n) == self.walk_told(root, start, steps, b, n),
        decreases n,
    {
        if n > 0 {
            self.lemma_walk_answers(root, start, steps, a, b, (n - 1) as nat);
        }
    }

    /// A walk that has failed stays failed, and asks nothing more.
    pub proof fn lemma_walk_failed(
        self,
        root: Location,
        start: Location,
        steps: Seq<Step>,
        answers: Answers<D>,
        n: nat,
        m: nat,
    )
        requires
            n <= m,
            self.walk(root, start, steps, answers, n).1 is Err,
        ensures
            self.walk(root, start, steps, answers, m) == self.walk(root, start, steps, answers, n),
            self.walk_told(root, start, steps, answers, m) == self.walk_told(
                root,
                start,
                steps,
                answers,
                n,
            ),
        decreases m,
    {
        if n < m {
            self.lemma_walk_failed(root, start, steps, answers, n, (m - 1) as nat);
        }
    }
}

} // verus!
