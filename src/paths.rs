//! Names inside a collection and the paths they map to.

use vstd::prelude::*;
use crate::error::ErrorKind;
use crate::text::{chars_of, push_str_chars, string_of};

verus! {

/// A component of a filesystem path, as the platform splits it.
#[derive(Clone, Debug, PartialEq, Eq)]
pub enum PathComponent {
    /// A drive or UNC prefix.
    Prefix,
    /// The root directory.
    RootDir,
    /// `.`
    CurDir,
    /// `..`
    ParentDir,
    /// A plain name, when it is valid UTF-8.
    Normal(String),
    /// A plain name that is not valid UTF-8.
    Unreadable,
}

/// A single name component: non-empty, no separator or NUL, not `.` or `..`.
pub open spec fn valid_component(c: Seq<char>) -> bool {
    &&& c.len() > 0
    &&& !c.contains('/')
    &&& !c.contains('\\')
    &&& !c.contains('\0')
    &&& c != seq!['.']
    &&& c != seq!['.', '.']
}

/// The pieces of `s` between `/` separators, as `str::split('/')` yields them.
pub open spec fn split_slash(s: Seq<char>) -> Seq<Seq<char>>
    decreases s.len(),
{
    if s.len() == 0 {
        seq![Seq::<char>::empty()]
    } else {
        let p = split_slash(s.drop_last());
        if s.last() == '/' {
            p.push(Seq::<char>::empty())
        } else {
            p.update(p.len() - 1, p.last().push(s.last()))
        }
    }
}

/// A collection name: every `/`-separated component is valid.
pub open spec fn valid_name(s: Seq<char>) -> bool {
    forall|i: int| 0 <= i < split_slash(s).len() ==> valid_component(#[trigger] split_slash(s)[i])
}

/// `names` joined with `/` between neighbours.
pub open spec fn join_slash(names: Seq<Seq<char>>) -> Seq<char>
    decreases names.len(),
{
    if names.len() == 0 {
        Seq::<char>::empty()
    } else if names.len() == 1 {
        names[0]
    } else {
        join_slash(names.drop_last()).push('/') + names.last()
    }
}

/// Whether a path component may stand in a collection name.
pub open spec fn component_ok(p: PathComponent, must_be_relative: bool) -> bool {
    match p {
        PathComponent::RootDir => !must_be_relative,
        PathComponent::Normal(s) => valid_component(s@),
        _ => false,
    }
}

/// The plain names among `parts`, in order.
pub open spec fn normal_names(parts: Seq<PathComponent>) -> Seq<Seq<char>>
    decreases parts.len(),
{
    if parts.len() == 0 {
        Seq::<Seq<char>>::empty()
    } else {
        let rest = normal_names(parts.drop_last());
        match parts.last() {
            PathComponent::Normal(s) => rest.push(s@),
            _ => rest,
        }
    }
}

/// How many root components `parts` holds.
pub open spec fn root_count(parts: Seq<PathComponent>) -> nat
    decreases parts.len(),
{
    if parts.len() == 0 {
        0
    } else {
        root_count(parts.drop_last()) + if parts.last() is RootDir { 1nat } else { 0nat }
    }
}

/// The string form of a path: one `/` per root component, then the names joined by `/`.
pub open spec fn path_string(parts: Seq<PathComponent>) -> Seq<char> {
    Seq::new(root_count(parts), |i: int| '/') + join_slash(normal_names(parts))
}

/// The character sequences that the strings of `v` hold.
pub open spec fn views(v: Seq<String>) -> Seq<Seq<char>> {
    v.map_values(|s: String| s@)
}

proof fn lemma_split_append_plain(a: Seq<char>, b: Seq<char>)
    requires
        !b.contains('/'),
    ensures
        split_slash(a + b) == split_slash(a).update(split_slash(a).len() - 1, split_slash(a).last() + b),
        split_slash(a + b).len() == split_slash(a).len(),
    decreases b.len(),
{
    lemma_split_nonempty(a);
    if b.len() == 0 {
        assert(a + b =~= a);
        assert(split_slash(a).last() + b =~= split_slash(a).last());
        assert(split_slash(a).update(split_slash(a).len() - 1, split_slash(a).last()) =~= split_slash(a));
    } else {
        let b2 = b.drop_last();
        assert(!b2.contains('/')) by {
            if b2.contains('/') {
                let k = choose|k: int| 0 <= k < b2.len() && b2[k] == '/';
                assert(b[k] == '/');
            }
        }
        lemma_split_append_plain(a, b2);
        assert((a + b).drop_last() =~= a + b2);
        assert((a + b).last() == b.last());
        assert(b.last() != '/') by {
            assert(b[b.len() - 1] == b.last());
        }
        let p = split_slash(a + b2);
        assert(split_slash(a + b) == p.update(p.len() - 1, p.last().push(b.last())));
        assert((split_slash(a).last() + b2).push(b.last()) =~= split_slash(a).last() + b);
        assert(split_slash(a + b) =~= split_slash(a).update(split_slash(a).len() - 1, split_slash(a).last() + b));
    }
}

proof fn lemma_split_nonempty(s: Seq<char>)
    ensures
        split_slash(s).len() >= 1,
    decreases s.len(),
{
    if s.len() > 0 {
        lemma_split_nonempty(s.drop_last());
    }
}

/// Splitting names joined by `/` gives the names back, when none of them holds a `/`.
pub proof fn lemma_split_join(names: Seq<Seq<char>>)
    requires
        names.len() >= 1,
        forall|i: int| 0 <= i < names.len() ==> !(#[trigger] names[i]).contains('/'),
    ensures
        split_slash(join_slash(names)) == names,
    decreases names.len(),
{
    if names.len() == 1 {
        let e = Seq::<char>::empty();
        lemma_split_append_plain(e, names[0]);
        assert(e + names[0] =~= names[0]);
        assert(split_slash(e) == seq![e]);
        assert(e + names[0] =~= names[0]);
        assert(split_slash(names[0]) =~= names);
    } else {
        let rest = names.drop_last();
        lemma_split_join(rest);
        let j = join_slash(rest).push('/');
        assert(j.drop_last() =~= join_slash(rest));
        assert(split_slash(j) == rest.push(Seq::<char>::empty()));
        lemma_split_append_plain(j, names.last());
        assert(Seq::<char>::empty() + names.last() =~= names.last());
        assert(split_slash(j + names.last()) =~= names);
    }
}

proof fn lemma_relative_parts(parts: Seq<PathComponent>)
    requires
        forall|i: int| 0 <= i < parts.len() ==> component_ok(#[trigger] parts[i], true),
    ensures
        root_count(parts) == 0,
        forall|i: int| 0 <= i < normal_names(parts).len() ==> valid_component(#[trigger] normal_names(parts)[i]),
    decreases parts.len(),
{
    if parts.len() > 0 {
        let rest = parts.drop_last();
        assert forall|i: int| 0 <= i < rest.len() implies component_ok(#[trigger] rest[i], true) by {
            assert(rest[i] == parts[i]);
        }
        lemma_relative_parts(rest);
        assert(component_ok(parts[parts.len() - 1], true));
        let nr = normal_names(rest);
        let np = normal_names(parts);
        assert forall|i: int| 0 <= i < np.len() implies valid_component(#[trigger] np[i]) by {
            if i < nr.len() {
                match parts.last() {
                    PathComponent::Normal(t) => assert(np == nr.push(t@)),
                    _ => assert(np == nr),
                }
                assert(np[i] == nr[i]);
            } else {
                match parts.last() {
                    PathComponent::Normal(t) => {
                        assert(np == nr.push(t@));
                        assert(np[i] == t@);
                    },
                    _ => {},
                }
            }
        }
    }
}

/// A name made at import from a relative path with at least one plain component is a valid
/// collection name: export and loading accept every name that import produces.
pub proof fn lemma_import_names_are_valid(parts: Seq<PathComponent>)
    requires
        forall|i: int| 0 <= i < parts.len() ==> component_ok(#[trigger] parts[i], true),
        normal_names(parts).len() >= 1,
    ensures
        valid_name(path_string(parts)),
        split_slash(path_string(parts)) == normal_names(parts),
{
    lemma_relative_parts(parts);
    let ns = normal_names(parts);
    assert forall|i: int| 0 <= i < ns.len() implies !(#[trigger] ns[i]).contains('/') by {
        assert(valid_component(ns[i]));
    }
    lemma_split_join(ns);
    assert(path_string(parts) =~= join_slash(ns));
}

/// Whether `c` occurs in `v`.
fn contains_char(v: &Vec<char>, c: char) -> (r: bool)
    ensures
        r == v@.contains(c),
{
    let mut i: usize = 0;
    while i < v.len()
        invariant
            i <= v@.len(),
            forall|j: int| 0 <= j < i ==> v@[j] != c,
        decreases v@.len() - i,
    {
        if v[i] == c {
            return true;
        }
        i = i + 1;
    }
    false
}

/// Checks one name component against the collection naming rules.
pub fn validate_path_component(component: &str) -> (r: Result<(), ErrorKind>)
    ensures
        r is Ok <==> valid_component(component@),
        r is Err ==> r == Err::<(), ErrorKind>(ErrorKind::InvalidPath),
{
    let cs = chars_of(component);
    let ok = cs.len() > 0 && !contains_char(&cs, '/') && !contains_char(&cs, '\\')
        && !contains_char(&cs, '\0') && !(cs.len() == 1 && cs[0] == '.')
        && !(cs.len() == 2 && cs[0] == '.' && cs[1] == '.');
    proof {
        if cs@ == seq!['.'] {
            assert(cs@[0] == '.');
        }
        if cs@ == seq!['.', '.'] {
            assert(cs@[0] == '.' && cs@[1] == '.');
        }
        if cs@.len() == 1 && cs@[0] == '.' {
            assert(cs@ =~= seq!['.']);
        }
        if cs@.len() == 2 && cs@[0] == '.' && cs@[1] == '.' {
            assert(cs@ =~= seq!['.', '.']);
        }
    }
    if ok {
        Ok(())
    } else {
        Err(ErrorKind::InvalidPath)
    }
}

/// The collection name of a path: names joined by `/`, with a leading `/` for each root
/// component. Fails with `InvalidPath` on `.`, `..`, a prefix, a name that is not UTF-8
/// or breaks the naming rules, and on a root component when `must_be_relative` holds.
pub fn canonicalized_path_to_string(parts: &Vec<PathComponent>, must_be_relative: bool) -> (r:
    Result<String, ErrorKind>)
    ensures
        r is Ok <==> forall|i: int| 0 <= i < parts@.len() ==> component_ok(#[trigger] parts@[i], must_be_relative),
        r is Ok ==> r->Ok_0@ == path_string(parts@),
        r is Err ==> r == Err::<String, ErrorKind>(ErrorKind::InvalidPath),
{
    let mut roots: Vec<char> = Vec::new();
    let mut body: Vec<char> = Vec::new();
    let mut n_names: usize = 0;
    let mut i: usize = 0;
    while i < parts.len()
        invariant
            i <= parts@.len(),
            n_names <= i,
            n_names == normal_names(parts@.subrange(0, i as int)).len(),
            forall|j: int| 0 <= j < i ==> component_ok(#[trigger] parts@[j], must_be_relative),
            roots@ == Seq::new(root_count(parts@.subrange(0, i as int)), |k: int| '/'),
            body@ == join_slash(normal_names(parts@.subrange(0, i as int))),
        decreases parts@.len() - i,
    {
        let ghost pre = parts@.subrange(0, i as int);
        let ghost post = parts@.subrange(0, i as int + 1);
        assert(post.drop_last() == pre);
        assert(post.last() == parts@[i as int]);
        match &parts[i] {
            PathComponent::RootDir => {
                if must_be_relative {
                    return Err(ErrorKind::InvalidPath);
                }
                roots.push('/');
                assert(roots@ =~= Seq::new(root_count(post), |k: int| '/'));
            },
            PathComponent::Normal(s) => {
                if validate_path_component(s.as_str()).is_err() {
                    return Err(ErrorKind::InvalidPath);
                }
                let ghost names = normal_names(post);
                assert(names == normal_names(pre).push(s@));
                assert(names.drop_last() == normal_names(pre));
                if n_names > 0 {
                    body.push('/');
                } else {
                    assert(names.len() == 1);
                }
                push_str_chars(&mut body, s.as_str());
                n_names = n_names + 1;
            },
            _ => {
                return Err(ErrorKind::InvalidPath);
            },
        }
        i = i + 1;
    }
    assert(parts@.subrange(0, parts@.len() as int) == parts@);
    let mut all = roots;
    let mut k: usize = 0;
    while k < body.len()
        invariant
            k <= body@.len(),
            all@ == roots@ + body@.subrange(0, k as int),
        decreases body@.len() - k,
    {
        all.push(body[k]);
        k = k + 1;
    }
    assert(body@.subrange(0, body@.len() as int) == body@);
    Ok(string_of(&all))
}

/// The pieces of `name` between `/` separators.
pub fn split_name(name: &str) -> (r: Vec<String>)
    ensures
        views(r@) == split_slash(name@),
{
    let cs = chars_of(name);
    let mut parts: Vec<String> = Vec::new();
    let mut cur: Vec<char> = Vec::new();
    let mut i: usize = 0;
    while i < cs.len()
        invariant
            i <= cs@.len(),
            cs@ == name@,
            views(parts@).push(cur@) == split_slash(cs@.subrange(0, i as int)),
        decreases cs@.len() - i,
    {
        let ghost pre = cs@.subrange(0, i as int);
        let ghost post = cs@.subrange(0, i as int + 1);
        assert(post.drop_last() == pre);
        let ghost old_parts = views(parts@);
        let c = cs[i];
        if c == '/' {
            let piece = string_of(&cur);
            parts.push(piece);
            cur = Vec::new();
            assert(views(parts@) == old_parts.push(piece@));
            assert(views(parts@).push(cur@) =~= split_slash(post));
        } else {
            cur.push(c);
            assert(views(parts@).push(cur@) =~= split_slash(post));
        }
        i = i + 1;
    }
    assert(cs@.subrange(0, cs@.len() as int) == cs@);
    let ghost old_parts = views(parts@);
    let last = string_of(&cur);
    parts.push(last);
    assert(views(parts@) == old_parts.push(last@));
    parts
}

/// The path that a collection entry named `name` is exported to under `root`: the root's
/// components followed by the name's `/`-separated components. Fails with `InvalidPath`
/// when a component of the name breaks the naming rules.
pub fn get_export_path(root: &Vec<String>, name: &str) -> (r: Result<Vec<String>, ErrorKind>)
    ensures
        r is Ok <==> valid_name(name@),
        r is Ok ==> views(r->Ok_0@) == views(root@) + split_slash(name@),
        r is Err ==> r == Err::<Vec<String>, ErrorKind>(ErrorKind::InvalidPath),
{
    let pieces = split_name(name);
    let mut path: Vec<String> = root.clone();
    let mut i: usize = 0;
    while i < pieces.len()
        invariant
            i <= pieces@.len(),
            views(pieces@) == split_slash(name@),
            forall|j: int| 0 <= j < i ==> valid_component(#[trigger] split_slash(name@)[j]),
            views(path@) == views(root@) + views(pieces@).subrange(0, i as int),
        decreases pieces@.len() - i,
    {
        assert(views(pieces@)[i as int] == pieces@[i as int]@);
        if validate_path_component(pieces[i].as_str()).is_err() {
            return Err(ErrorKind::InvalidPath);
        }
        let ghost before = views(path@);
        path.push(pieces[i].clone());
        assert(views(path@) =~= before.push(pieces@[i as int]@));
        assert(views(pieces@).subrange(0, i as int + 1) =~= views(pieces@).subrange(0, i as int).push(
            pieces@[i as int]@));
        i = i + 1;
    }
    assert(views(pieces@).subrange(0, pieces@.len() as int) =~= views(pieces@));
    Ok(path)
}

/// Whether `name` is a valid collection name.
pub fn is_valid_name(name: &str) -> (r: bool)
    ensures
        r == valid_name(name@),
{
    let parts = split_name(name);
    let mut i: usize = 0;
    while i < parts.len()
        invariant
            i <= parts@.len(),
            views(parts@) == split_slash(name@),
            forall|k: int| 0 <= k < i ==> valid_component(#[trigger] split_slash(name@)[k]),
        decreases parts@.len() - i,
    {
        assert(views(parts@)[i as int] == parts@[i as int]@);
        if validate_path_component(parts[i].as_str()).is_err() {
            return false;
        }
        i = i + 1;
    }
    true
}

} // verus!
