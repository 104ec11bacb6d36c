//! Paths as text: slash-separated, as the tools around this crate print and
//! read them.

use vstd::prelude::*;
use crate::text::{
    append_chars, chars_of, rows, same_chars, split, split_chars, string_of, strings_of, texts,
};

verus! {

/// Whether `part` names something: it is neither empty nor the directory
/// itself, `.`.
pub open spec fn is_name(part: Seq<char>) -> bool {
    part.len() > 0 && part != seq!['.']
}

/// The components of `path`: the root where the path begins with a slash,
/// then what stands between slashes. Empty parts are passed over, and so is
/// every `.` but one that begins the path.
pub open spec fn components(path: Seq<char>) -> Seq<Seq<char>> {
    let parts = split(path, '/');
    let head = if path.len() > 0 && path[0] == '/' {
        seq![seq!['/']]
    } else if parts[0].len() > 0 {
        seq![parts[0]]
    } else {
        Seq::<Seq<char>>::empty()
    };
    head + parts.skip(1).filter(|p: Seq<char>| is_name(p))
}

/// `base` with `name` below it. A `name` that begins at the root stands for
/// itself.
pub open spec fn join(base: Seq<char>, name: Seq<char>) -> Seq<char> {
    if name.len() > 0 && name[0] == '/' {
        name
    } else if base.len() == 0 || base.last() == '/' {
        base + name
    } else {
        base + seq!['/'] + name
    }
}

/// The path made of the components `parts`, in order.
pub open spec fn rejoin(parts: Seq<Seq<char>>) -> Seq<char>
    decreases parts.len(),
{
    if parts.len() == 0 {
        Seq::empty()
    } else {
        join(rejoin(parts.drop_last()), parts.last())
    }
}

/// The directory that holds what `path` names: the path of all components
/// of `path` but the last. A path of no components has no parent.
pub open spec fn parent(path: Seq<char>) -> Seq<char> {
    let parts = components(path);
    if parts.len() == 0 {
        Seq::empty()
    } else {
        rejoin(parts.drop_last())
    }
}

/// Whether the last component of `path` is `name`.
pub open spec fn is_named(path: Seq<char>, name: Seq<char>) -> bool {
    components(path).len() > 0 && components(path).last() == name
}

/// Whether `part` can stand between two slashes as a name: it is not
/// empty, holds no slash and is not `.`.
pub open spec fn is_plain(part: Seq<char>) -> bool {
    is_name(part) && !part.contains('/')
}

/// The second component of a path that begins with two plain names is the
/// second of them, whatever follows.
#[verifier::rlimit(50)]
pub proof fn lemma_second_component(root: Seq<char>, name: Seq<char>, rest: Seq<char>)
    requires
        root.len() > 0,
        !root.contains('/'),
        is_plain(name),
        rest.len() > 0 ==> rest[0] == '/',
    ensures
        components(root + seq!['/'] + name + rest).len() > 1,
        components(root + seq!['/'] + name + rest)[1] == name,
{
    let path = root + seq!['/'] + name + rest;
    let keep = |p: Seq<char>| is_name(p);
    let tail = name + rest;
    assert(path == root + seq!['/'] + tail);
    crate::text::lemma_split_first(root, tail, '/');
    assert(path[0] == root[0]);
    assert(root.contains(root[0]));
    let parts = split(path, '/');
    assert(parts[0] == root);
    assert(parts.skip(1) == split(tail, '/'));
    if rest.len() == 0 {
        assert(tail == name);
        crate::text::lemma_split_none(name, '/');
        assert(split(tail, '/') == seq![name] + Seq::<Seq<char>>::empty());
        Seq::<Seq<char>>::empty().lemma_filter_prepend(name, keep);
    } else {
        let more = rest.skip(1);
        assert(rest == seq!['/'] + more);
        assert(tail == name + seq!['/'] + more);
        crate::text::lemma_split_first(name, more, '/');
        split(more, '/').lemma_filter_prepend(name, keep);
    }
}

/// The components of `path`.
#[verifier::rlimit(50)]
pub fn components_of(path: &Vec<char>) -> (out: Vec<Vec<char>>)
    ensures
        rows(out@) == components(path@),
{
    let parts = split_chars(path, '/');
    let ghost want = split(path@, '/');
    let ghost keep = |p: Seq<char>| is_name(p);
    proof {
        crate::text::lemma_split_len(path@, '/');
        assert(rows(parts@).len() == parts.len());
    }
    let mut out: Vec<Vec<char>> = Vec::new();
    if path.len() > 0 && path[0] == '/' {
        let mut root: Vec<char> = Vec::new();
        root.push('/');
        assert(root@ == seq!['/']);
        assert(rows(out@.push(root)) == rows(out@).push(root@));
        out.push(root);
    } else if parts[0].len() > 0 {
        let head = parts[0].clone();
        assert(rows(parts@)[0] == parts@[0]@);
        assert(rows(out@.push(head)) == rows(out@).push(head@));
        out.push(head);
    }
    let ghost head = rows(out@);
    let mut dot: Vec<char> = Vec::new();
    dot.push('.');
    assert(dot@ == seq!['.']);
    let mut i: usize = 1;
    assert(want.skip(1).take(0).filter(keep) == Seq::<Seq<char>>::empty());
    while i < parts.len()
        invariant
            1 <= i <= parts.len(),
            rows(parts@) == want,
            dot@ == seq!['.'],
            keep == |p: Seq<char>| is_name(p),
            rows(out@) == head + want.skip(1).take(i - 1).filter(keep),
        decreases parts.len() - i,
    {
        let part = &parts[i];
        proof {
            assert(rows(parts@)[i as int] == part@);
            let upto = want.skip(1).take(i as int);
            assert(upto.drop_last() == want.skip(1).take(i - 1));
            assert(upto.last() == part@);
            reveal(Seq::filter);
        }
        if part.len() > 0 && !same_chars(part, &dot) {
            let kept = part.clone();
            assert(rows(out@.push(kept)) == rows(out@).push(kept@));
            out.push(kept);
        }
        i += 1;
    }
    assert(want.skip(1).take(parts.len() - 1) == want.skip(1));
    out
}

/// `base` with `name` below it.
pub fn join_chars(base: &Vec<char>, name: &Vec<char>) -> (out: Vec<char>)
    ensures
        out@ == join(base@, name@),
{
    if name.len() > 0 && name[0] == '/' {
        return name.clone();
    }
    let mut out = base.clone();
    if base.len() > 0 && base[base.len() - 1] != '/' {
        out.push('/');
    }
    append_chars(&mut out, name);
    out
}

/// `base` with `name` below it.
pub fn join_path(base: &str, name: &str) -> (out: String)
    ensures
        out@ == join(base@, name@),
{
    string_of(&join_chars(&chars_of(base), &chars_of(name)))
}

/// The path made of the components `parts`, in order.
pub fn rejoin_chars(parts: &Vec<Vec<char>>, upto: usize) -> (out: Vec<char>)
    requires
        upto <= parts.len(),
    ensures
        out@ == rejoin(rows(parts@).take(upto as int)),
{
    let mut out: Vec<char> = Vec::new();
    let mut i: usize = 0;
    assert(rows(parts@).take(0) == Seq::<Seq<char>>::empty());
    while i < upto
        invariant
            i <= upto <= parts.len(),
            out@ == rejoin(rows(parts@).take(i as int)),
        decreases upto - i,
    {
        proof {
            let next = rows(parts@).take(i as int + 1);
            assert(next.drop_last() == rows(parts@).take(i as int));
            assert(next.last() == parts@[i as int]@);
        }
        out = join_chars(&out, &parts[i]);
        i += 1;
    }
    out
}

/// The components of `path`, each as a string.
pub fn path_components(path: &str) -> (out: Vec<String>)
    ensures
        texts(out@) == components(path@),
{
    strings_of(&components_of(&chars_of(path)))
}

/// The directory that holds what `path` names.
pub fn parent_dir(path: &str) -> (out: String)
    ensures
        out@ == parent(path@),
{
    let parts = components_of(&chars_of(path));
    if parts.len() == 0 {
        String::new()
    } else {
        assert(rows(parts@).take(parts.len() - 1) == rows(parts@).drop_last());
        string_of(&rejoin_chars(&parts, parts.len() - 1))
    }
}

/// Whether the last component of `path` is `name`.
pub fn has_name(path: &str, name: &str) -> (b: bool)
    ensures
        b == is_named(path@, name@),
{
    let parts = components_of(&chars_of(path));
    if parts.len() == 0 {
        false
    } else {
        let last = &parts[parts.len() - 1];
        assert(rows(parts@).last() == last@);
        same_chars(last, &chars_of(name))
    }
}

} // verus!
