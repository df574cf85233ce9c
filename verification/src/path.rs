use crate::error::{VfsError, VfsResult};
use vstd::prelude::*;
use vstd::string::StringExecFns;

verus! {

/// The name of a directory itself.
pub const DOT: &'static str = ".";

/// The name of the parent of a directory.
pub const DOTDOT: &'static str = "..";

/// The separator between the names of a path.
pub const SEPARATOR: char = '/';

/// The characters of [`DOT`].
pub open spec fn dot() -> Seq<char> {
    seq!['.']
}

/// The characters of [`DOTDOT`].
pub open spec fn dotdot() -> Seq<char> {
    seq!['.', '.']
}

/// The two reserved names are what their constants hold.
pub proof fn lemma_reserved_names()
    ensures
        DOT@ == dot(),
        DOTDOT@ == dotdot(),
{
    reveal_strlit(".");
    reveal_strlit("..");
    assert(DOT@ =~= dot());
    assert(DOTDOT@ =~= dotdot());
}

/// A name that an entry of a directory may bear: not empty, neither of
/// the reserved names, and without a separator.
pub open spec fn valid_entry_name(name: Seq<char>) -> bool {
    &&& name.len() > 0
    &&& name != dot()
    &&& name != dotdot()
    &&& !name.contains('/')
}

/// The characters of a string, one by one.
pub fn to_chars(s: &str) -> (r: Vec<char>)
    ensures
        r@ == s@,
{
    let mut out: Vec<char> = Vec::new();
    let n: usize = s.unicode_len();
    let mut i: usize = 0;
    while i < n
        invariant
            n == s@.len(),
            i <= n,
            out@ == s@.subrange(0, i as int),
        decreases n - i,
    {
        let c = s.get_char(i);
        out.push(c);
        i = i + 1;
        assert(out@ == s@.subrange(0, i as int));
    }
    assert(s@.subrange(0, n as int) == s@);
    out
}

/// Whether `chars[from..to]` is the name `.`.
fn range_is_dot(chars: &Vec<char>, from: usize, to: usize) -> (r: bool)
    requires
        from <= to <= chars.len(),
    ensures
        r == (chars@.subrange(from as int, to as int) == dot()),
{
    let r = to - from == 1 && chars[from] == '.';
    proof {
        let seg = chars@.subrange(from as int, to as int);
        if r {
            assert(seg =~= dot());
        } else if seg == dot() {
            assert(seg.len() == 1);
            assert(seg[0] == '.');
        }
    }
    r
}

/// Whether `chars[from..to]` is the name `..`.
fn range_is_dotdot(chars: &Vec<char>, from: usize, to: usize) -> (r: bool)
    requires
        from <= to <= chars.len(),
    ensures
        r == (chars@.subrange(from as int, to as int) == dotdot()),
{
    let r = to - from == 2 && chars[from] == '.' && chars[from + 1] == '.';
    proof {
        let seg = chars@.subrange(from as int, to as int);
        if r {
            assert(seg =~= dotdot());
        } else if seg == dotdot() {
            assert(seg.len() == 2);
            assert(seg[0] == '.');
            assert(seg[1] == '.');
        }
    }
    r
}

/// Whether `name` is one of the reserved names `.` and `..`.
pub fn is_reserved_name(name: &str) -> (r: bool)
    ensures
        r == (name@ == dot() || name@ == dotdot()),
{
    let chars = to_chars(name);
    let n: usize = chars.len();
    assert(chars@.subrange(0, n as int) == chars@);
    range_is_dot(&chars, 0, n) || range_is_dotdot(&chars, 0, n)
}

/// Checks that `name` may be the name of an entry: the empty name, `.`,
/// `..` and a name with a separator in it are refused with `EINVAL`.
pub fn verify_entry_name(name: &str) -> (r: VfsResult<()>)
    ensures
        valid_entry_name(name@) ==> r is Ok,
        !valid_entry_name(name@) ==> r == Err::<(), VfsError>(VfsError::EINVAL),
{
    let chars = to_chars(name);
    let n: usize = chars.len();
    if n == 0 || range_is_dot(&chars, 0, n) || range_is_dotdot(&chars, 0, n) {
        assert(chars@.subrange(0, n as int) == chars@);
        return Err(VfsError::EINVAL);
    }
    assert(chars@.subrange(0, n as int) == chars@);
    let mut i: usize = 0;
    while i < n
        invariant
            chars@ == name@,
            n == chars.len(),
            i <= n,
            forall|k: int| 0 <= k < i ==> chars@[k] != '/',
        decreases n - i,
    {
        if chars[i] == '/' {
            assert(name@[i as int] == '/');
            return Err(VfsError::EINVAL);
        }
        i = i + 1;
    }
    Ok(())
}

/// One step of a path, as the walk over the path sees it.
#[derive(Clone, Copy, Debug)]
pub enum Component<'a> {
    /// The root, at the start of an absolute path.
    RootDir,
    /// The directory itself: `.` at the start of a relative path.
    CurDir,
    /// The parent directory: `..`.
    ParentDir,
    /// A name.
    Normal(&'a str),
}

/// What a [`Component`] stands for.
pub enum Step {
    RootDir,
    CurDir,
    ParentDir,
    Normal(Seq<char>),
}

impl<'a> View for Component<'a> {
    type V = Step;

    open spec fn view(&self) -> Step {
        match self {
            Component::RootDir => Step::RootDir,
            Component::CurDir => Step::CurDir,
            Component::ParentDir => Step::ParentDir,
            Component::Normal(name) => Step::Normal(name@),
        }
    }
}

/// The steps that a list of components stands for.
pub open spec fn steps_of(components: Seq<Component<'_>>) -> Seq<Step> {
    Seq::new(components.len(), |i: int| components[i]@)
}

/// The first position at or after `from` that holds a separator, or the
/// length of `path` if there is none.
pub open spec fn segment_end(path: Seq<char>, from: int) -> int
    decreases path.len() - from,
{
    if from < 0 || from >= path.len() || path[from] == '/' {
        from
    } else {
        segment_end(path, from + 1)
    }
}

/// The step that one segment between separators contributes: none for an
/// empty segment, none for `.` unless it is the first segment.
pub open spec fn segment_steps(segment: Seq<char>, first: bool) -> Seq<Step> {
    if segment.len() == 0 {
        seq![]
    } else if segment == dot() {
        if first {
            seq![Step::CurDir]
        } else {
            seq![]
        }
    } else if segment == dotdot() {
        seq![Step::ParentDir]
    } else {
        seq![Step::Normal(segment)]
    }
}

/// The steps of the segments of `path` from position `from` on.
pub open spec fn steps_from(path: Seq<char>, from: int, first: bool) -> Seq<Step>
    decreases path.len() - from,
{
    if from < 0 || from > path.len() {
        seq![]
    } else {
        let end = segment_end(path, from);
        if end < from || end > path.len() {
            seq![]
        } else if end < path.len() {
            segment_steps(path.subrange(from, end), first) + steps_from(path, end + 1, false)
        } else {
            segment_steps(path.subrange(from, end), first)
        }
    }
}

/// The steps of a path: the root if the path starts with a separator,
/// then one step for each segment between separators, where empty
/// segments and every `.` but a leading one count for nothing.
pub open spec fn path_steps(path: Seq<char>) -> Seq<Step> {
    if path.len() > 0 && path[0] == '/' {
        seq![Step::RootDir] + steps_from(path, 0, true)
    } else {
        steps_from(path, 0, true)
    }
}

/// The final name of a path: its last step, if that is a name.
pub open spec fn path_file_name(path: Seq<char>) -> Option<Seq<char>> {
    let steps = path_steps(path);
    if steps.len() > 0 {
        match steps.last() {
            Step::Normal(name) => Some(name),
            _ => None,
        }
    } else {
        None
    }
}

/// A segment lies between its start and the length of the path, and holds
/// no separator.
pub proof fn lemma_segment_end(path: Seq<char>, from: int)
    requires
        0 <= from <= path.len(),
    ensures
        from <= segment_end(path, from) <= path.len(),
        segment_end(path, from) < path.len() ==> path[segment_end(path, from)] == '/',
        forall|k: int| from <= k < segment_end(path, from) ==> path[k] != '/',
    decreases path.len() - from,
{
    if from < path.len() && path[from] != '/' {
        lemma_segment_end(path, from + 1);
    }
}

/// A segment that starts at `from` ends at `end` if there is no separator
/// between the two and one at `end`, or the path ends there.
pub proof fn lemma_segment_reaches(path: Seq<char>, from: int, end: int)
    requires
        0 <= from <= end <= path.len(),
        forall|k: int| from <= k < end ==> path[k] != '/',
        end < path.len() ==> path[end] == '/',
    ensures
        segment_end(path, from) == end,
    decreases end - from,
{
    if from < end {
        lemma_segment_reaches(path, from + 1, end);
    }
}

/// Every name among the steps of a path is a valid entry name.
pub proof fn lemma_steps_from_valid(path: Seq<char>, from: int, first: bool)
    requires
        0 <= from <= path.len(),
    ensures
        forall|i: int|
            0 <= i < steps_from(path, from, first).len() ==> (#[trigger] steps_from(
                path,
                from,
                first,
            )[i] matches Step::Normal(name) ==> valid_entry_name(name)),
    decreases path.len() - from,
{
    let end = segment_end(path, from);
    lemma_segment_end(path, from);
    let segment = path.subrange(from, end);
    let here = segment_steps(segment, first);
    assert forall|i: int| 0 <= i < here.len() implies (#[trigger] here[i] matches Step::Normal(
        name,
    ) ==> valid_entry_name(name)) by {
        if here[i] is Normal {
            assert(here[i] == Step::Normal(segment));
            if segment.contains('/') {
                let k = choose|k: int| 0 <= k < segment.len() && segment[k] == '/';
                assert(path[from + k] == '/');
            }
        }
    }
    if end < path.len() {
        lemma_steps_from_valid(path, end + 1, false);
    }
}

/// Every name among the steps of a path is a valid entry name.
pub proof fn lemma_path_steps_valid(path: Seq<char>)
    ensures
        forall|i: int|
            0 <= i < path_steps(path).len() ==> (#[trigger] path_steps(path)[i] matches Step::Normal(
                name,
            ) ==> valid_entry_name(name)),
{
    lemma_steps_from_valid(path, 0, true);
}

/// Splits a path into its components.
pub fn components<'a>(path: &'a str) -> (r: Vec<Component<'a>>)
    ensures
        steps_of(r@) == path_steps(path@),
{
    let chars = to_chars(path);
    let n: usize = chars.len();
    let mut out: Vec<Component<'a>> = Vec::new();
    if n > 0 && chars[0] == '/' {
        out.push(Component::RootDir);
    }
    let ghost prefix = steps_of(out@);
    assert(path_steps(path@) =~= prefix + steps_from(path@, 0, true));
    let mut start: usize = 0;
    let mut first = true;
    loop
        invariant
            chars@ == path@,
            n == chars.len(),
            start <= n,
            path_steps(path@) == steps_of(out@) + steps_from(path@, start as int, first),
        decreases n - start,
    {
        let mut end: usize = start;
        while end < n && chars[end] != '/'
            invariant
                chars@ == path@,
                n == chars.len(),
                start <= end <= n,
                segment_end(path@, start as int) == segment_end(path@, end as int),
            decreases n - end,
        {
            end = end + 1;
        }
        let ghost before = steps_of(out@);
        let ghost segment = path@.subrange(start as int, end as int);
        assert(segment_end(path@, end as int) == end);
        proof {
            lemma_segment_end(path@, start as int);
        }
        if end > start {
            if range_is_dot(&chars, start, end) {
                if first {
                    out.push(Component::CurDir);
                }
            } else if range_is_dotdot(&chars, start, end) {
                out.push(Component::ParentDir);
            } else {
                let name: &'a str = path.substring_char(start, end);
                out.push(Component::Normal(name));
            }
        }
        assert(steps_of(out@) =~= before + segment_steps(segment, first));
        if end >= n {
            assert(steps_from(path@, start as int, first) == segment_steps(segment, first));
            assert(path_steps(path@) =~= steps_of(out@));
            return out;
        }
        assert(path_steps(path@) =~= steps_of(out@) + steps_from(path@, end + 1, false));
        start = end + 1;
        first = false;
    }
}

/// The final name of a path, if the path ends in a name.
pub fn file_name<'a>(path: &'a str) -> (r: Option<&'a str>)
    ensures
        match path_file_name(path@) {
            Some(name) => r matches Some(s) && s@ == name,
            None => r is None,
        },
{
    let comps = components(path);
    let n: usize = comps.len();
    if n == 0 {
        return None;
    }
    assert(steps_of(comps@)[n - 1] == comps@[n - 1]@);
    match comps[n - 1] {
        Component::Normal(name) => Some(name),
        _ => None,
    }
}

/// The names joined by separators.
pub open spec fn join_names(names: Seq<Seq<char>>) -> Seq<char>
    decreases names.len(),
{
    if names.len() == 0 {
        seq![]
    } else if names.len() == 1 {
        names[0]
    } else {
        names[0] + seq!['/'] + join_names(names.drop_first())
    }
}

/// The absolute path that leads through the given names, from the root
/// down: a separator, then the names joined by separators.
pub open spec fn absolute_path_of(names: Seq<Seq<char>>) -> Seq<char> {
    seq!['/'] + join_names(names)
}

/// Joining one more name to the end.
pub proof fn lemma_join_push(names: Seq<Seq<char>>, name: Seq<char>)
    ensures
        join_names(names.push(name)) == if names.len() == 0 {
            name
        } else {
            join_names(names) + seq!['/'] + name
        },
    decreases names.len(),
{
    let all = names.push(name);
    if names.len() == 0 {
        assert(all[0] == name);
    } else if names.len() == 1 {
        assert(all.drop_first() =~= seq![name]);
        assert(join_names(all.drop_first()) == name);
        assert(all[0] == names[0]);
    } else {
        lemma_join_push(names.drop_first(), name);
        assert(all.drop_first() =~= names.drop_first().push(name));
        assert(all[0] == names[0]);
        assert(join_names(all) =~= join_names(names) + seq!['/'] + name);
    }
}

/// The character sequences of a list of strings.
pub open spec fn names_of(names: Seq<String>) -> Seq<Seq<char>> {
    Seq::new(names.len(), |i: int| names[i]@)
}

/// Writes the absolute path that leads through `names`, which are given
/// from the innermost name outwards.
pub fn build_absolute_path(names: &Vec<String>) -> (r: String)
    ensures
        r@ == absolute_path_of(names_of(names@).reverse()),
{
    let n: usize = names.len();
    let ghost all = Seq::new(n as nat, |i: int| names@[n - 1 - i]@);
    let mut out = String::from_str("/");
    proof {
        reveal_strlit("/");
        assert(out@ =~= seq!['/']);
        assert(all.take(0) =~= Seq::<Seq<char>>::empty());
    }
    let mut k: usize = 0;
    while k < n
        invariant
            n == names.len(),
            k <= n,
            all == Seq::new(n as nat, |i: int| names@[n - 1 - i]@),
            out@ == absolute_path_of(all.take(k as int)),
        decreases n - k,
    {
        if k > 0 {
            out.append("/");
        }
        out.append(names[n - 1 - k].as_str());
        proof {
            reveal_strlit("/");
            lemma_join_push(all.take(k as int), all[k as int]);
            assert(all.take(k + 1) =~= all.take(k as int).push(all[k as int]));
            assert(out@ =~= absolute_path_of(all.take(k + 1)));
        }
        k = k + 1;
    }
    assert(all.take(n as int) =~= all);
    assert(all =~= names_of(names@).reverse());
    out
}

} // verus!
