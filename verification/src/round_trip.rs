use crate::error::VfsError;
use crate::model::VfsView;
use crate::mount::Location;
use crate::path::{
    absolute_path_of, dot, dotdot, join_names, lemma_segment_reaches, path_file_name, path_steps,
    segment_end, segment_steps, steps_from, valid_entry_name, Step,
};
use crate::ops::DirNodeOps;
use crate::steps::Told;
use crate::walk::Answers;
use vstd::prelude::*;

verus! {

/// The steps that names stand for in a path.
pub open spec fn name_steps(names: Seq<Seq<char>>) -> Seq<Step> {
    Seq::new(names.len(), |i: int| Step::Normal(names[i]))
}

/// Valid names, joined by separators behind any beginning, are read back
/// from the path one by one.
proof fn lemma_steps_of_joined(before: Seq<char>, names: Seq<Seq<char>>)
    requires
        forall|i: int| 0 <= i < names.len() ==> valid_entry_name(#[trigger] names[i]),
    ensures
        steps_from(before + join_names(names), before.len() as int, false) == name_steps(names),
    decreases names.len(),
{
    let path = before + join_names(names);
    let from = before.len() as int;
    if names.len() == 0 {
        assert(path =~= before);
        assert(segment_end(path, from) == from);
        assert(path.subrange(from, from) =~= Seq::<char>::empty());
        assert(steps_from(path, from, false) =~= name_steps(names));
    } else {
        let name = names[0];
        let end = from + name.len();
        assert(valid_entry_name(name));
        assert forall|k: int| from <= k < end implies path[k] != '/' by {
            assert(path[k] == name[k - from]);
            if name[k - from] == '/' {
                assert(name.contains('/'));
            }
        }
        if names.len() == 1 {
            assert(path =~= before + name);
            lemma_segment_reaches(path, from, end);
            assert(path.subrange(from, end) =~= name);
            assert(steps_from(path, from, false) =~= name_steps(names));
        } else {
            let rest = names.drop_first();
            assert(join_names(names) == name + seq!['/'] + join_names(rest));
            assert(path[end] == '/');
            lemma_segment_reaches(path, from, end);
            assert(path.subrange(from, end) =~= name);
            let further = before + name + seq!['/'];
            assert(path =~= further + join_names(rest));
            assert forall|i: int| 0 <= i < rest.len() implies valid_entry_name(
                #[trigger] rest[i],
            ) by {
                assert(rest[i] == names[i + 1]);
            }
            lemma_steps_of_joined(further, rest);
            assert(further.len() == end + 1);
            assert(segment_steps(name, false) == seq![Step::Normal(name)]);
            assert(steps_from(path, from, false) == seq![Step::Normal(name)] + name_steps(rest));
            assert(seq![Step::Normal(name)] + name_steps(rest) =~= name_steps(names));
        }
    }
}

/// An absolute path that is written from valid names is read back as the
/// root and those names, and its final name is the last of them.
pub proof fn lemma_absolute_path_steps(names: Seq<Seq<char>>)
    requires
        forall|i: int| 0 <= i < names.len() ==> valid_entry_name(#[trigger] names[i]),
    ensures
        path_steps(absolute_path_of(names)) == seq![Step::RootDir] + name_steps(names),
        path_file_name(absolute_path_of(names)) == if names.len() > 0 {
            Some(names.last())
        } else {
            None
        },
{
    let path = absolute_path_of(names);
    lemma_steps_of_joined(seq!['/'], names);
    assert(path[0] == '/');
    assert(segment_end(path, 0) == 0);
    assert(path.subrange(0, 0) =~= Seq::<char>::empty());
    assert(steps_from(path, 0, true) =~= steps_from(path, 1, false));
    let steps = seq![Step::RootDir] + name_steps(names);
    if names.len() > 0 {
        assert(steps.last() == Step::Normal(names.last()));
    } else {
        assert(steps.last() == Step::RootDir);
    }
}

impl<D: DirNodeOps> VfsView<D> {
    /// The position that `names` lead to from `root` by what is cached
    /// alone: each name is a valid entry name that the directory reached so
    /// far caches, and the way goes on at the top of the mounts that are
    /// stacked on the cached entry.
    pub open spec fn trail(self, root: Location, names: Seq<Seq<char>>) -> Option<Location>
        decreases names.len(),
    {
        if names.len() == 0 {
            Some(root)
        } else {
            match self.trail(root, names.drop_last()) {
                None => None,
                Some(dir) => {
                    let name = names.last();
                    let here = self.entry(dir.entry);
                    if valid_entry_name(name) && here.is_dir && here.cache.contains_key(name) {
                        Some(
                            self.cross_mounts(
                                Location { mountpoint: dir.mountpoint, entry: here.cache[name] },
                            ),
                        )
                    } else {
                        None
                    }
                },
            }
        }
    }

    /// Where names lead somewhere, each beginning of them leads somewhere,
    /// and all of them are valid entry names.
    pub proof fn lemma_trail_prefix(self, root: Location, names: Seq<Seq<char>>, k: int)
        requires
            self.trail(root, names) is Some,
            0 <= k <= names.len(),
        ensures
            self.trail(root, names.take(k)) is Some,
            k < names.len() ==> valid_entry_name(names[k]),
        decreases names.len(),
    {
        if k == names.len() {
            assert(names.take(k) =~= names);
        } else {
            let shorter = names.drop_last();
            assert(shorter.take(k) =~= names.take(k));
            self.lemma_trail_prefix(root, shorter, k);
            if k < shorter.len() {
                assert(shorter[k] == names[k]);
            }
        }
    }

    /// A walk over the root and names that lead somewhere by what is
    /// cached, with a backend that says of every directory that it is
    /// cacheable, goes by the caches: after the root and the first `k` names
    /// it stands where those names lead, and nothing has changed.
    pub proof fn lemma_walk_trail(
        self,
        root: Location,
        cwd: Location,
        names: Seq<Seq<char>>,
        answers: Answers<D>,
        k: int,
    )
        requires
            self.trail(root, names) is Some,
            0 <= k <= names.len(),
            forall|j: int| (#[trigger] answers[j]).cacheable,
        ensures
            self.walk(
                root,
                cwd,
                seq![Step::RootDir] + name_steps(names),
                answers,
                (k + 1) as nat,
            ) == (self, Ok::<Location, VfsError>(self.trail(root, names.take(k))->0)),
        decreases k,
    {
        let steps = seq![Step::RootDir] + name_steps(names);
        if k == 0 {
            assert(steps[0] == Step::RootDir);
            assert(self.walk(root, cwd, steps, answers, 0) == (
                self,
                Ok::<Location, VfsError>(cwd),
            ));
            assert(names.take(0) =~= Seq::<Seq<char>>::empty());
        } else {
            self.lemma_walk_trail(root, cwd, names, answers, k - 1);
            self.lemma_trail_prefix(root, names, k);
            self.lemma_trail_prefix(root, names, k - 1);
            let upto = names.take(k);
            assert(upto.drop_last() =~= names.take(k - 1));
            assert(upto.last() == names[k - 1]);
            assert(steps[k] == Step::Normal(names[k - 1]));
            let name = names[k - 1];
            assert(name != dot() && name != dotdot());
        }
    }

    /// The way back: where the names of an absolute path lead from the
    /// root of a resolver to a position by what is cached, and the backend
    /// says of every directory that it is cacheable, resolving the path
    /// gives that position and changes nothing, wherever the current
    /// directory is.
    pub proof fn lemma_resolve_absolute(
        self,
        root: Location,
        cwd: Location,
        names: Seq<Seq<char>>,
        answers: Answers<D>,
        last: Told<D>,
    )
        requires
            self.entry(root.entry).is_dir,
            self.trail(root, names) is Some,
            forall|j: int| (#[trigger] answers[j]).cacheable,
            last.cacheable,
        ensures
            self.resolve_step(root, cwd, absolute_path_of(names), answers, last) == (
                self,
                Ok::<Location, VfsError>(self.trail(root, names)->0),
            ),
    {
        let n = names.len() as int;
        assert forall|i: int| 0 <= i < n implies valid_entry_name(#[trigger] names[i]) by {
            self.lemma_trail_prefix(root, names, i);
        }
        lemma_absolute_path_steps(names);
        let steps = seq![Step::RootDir] + name_steps(names);
        if n == 0 {
            self.lemma_walk_trail(root, cwd, names, answers, 0);
            assert(names.take(0) =~= names);
        } else {
            self.lemma_walk_trail(root, cwd, names, answers, n - 1);
            self.lemma_trail_prefix(root, names, n - 1);
            assert(names.take(n - 1) =~= names.drop_last());
            let name = names.last();
            assert(name != dot() && name != dotdot());
            assert(steps.len() == n + 1);
        }
    }

    /// Resolving the absolute path of a position gives the position back:
    /// where the names of its path lead from the root of the resolver to it
    /// by what is cached, and the backend says of every directory that it is
    /// cacheable, the path resolves to the position, whatever the backend
    /// would find and wherever the current directory is.
    pub proof fn lemma_round_trip(
        self,
        root: Location,
        cwd: Location,
        loc: Location,
        answers: Answers<D>,
        last: Told<D>,
    )
        requires
            self.entry(root.entry).is_dir,
            self.trail(root, self.location_names(loc).reverse()) == Some(loc),
            forall|j: int| (#[trigger] answers[j]).cacheable,
            last.cacheable,
        ensures
            self.resolve_step(root, cwd, self.location_path(loc), answers, last) == (
                self,
                Ok::<Location, VfsError>(loc),
            ),
    {
        self.lemma_resolve_absolute(root, cwd, self.location_names(loc).reverse(), answers, last);
    }
}

} // verus!
