//! Relative paths of module files, as text with `/` between the segments.
use vstd::prelude::*;
use vstd::string::*;
use crate::text::{followed_by, strings_model};

verus! {

/// `base` extended by `leaf`. A `leaf` that begins with `/` stands alone;
/// otherwise one `/` comes between the two, unless `base` is empty or already
/// ends with one.
pub open spec fn joined(base: Seq<char>, leaf: Seq<char>) -> Seq<char> {
    if leaf.len() > 0 && leaf[0] == '/' {
        leaf
    } else if base.len() == 0 || base.last() == '/' {
        base + leaf
    } else {
        base + seq!['/'] + leaf
    }
}

/// All of `dirs` joined, the first one outermost.
pub open spec fn joined_all(dirs: Seq<Seq<char>>) -> Seq<char>
    decreases dirs.len(),
{
    if dirs.len() == 0 {
        Seq::empty()
    } else {
        joined(joined_all(dirs.drop_last()), dirs.last())
    }
}

/// The path of `leaf` below the directories `dirs`.
pub open spec fn located(dirs: Seq<Seq<char>>, leaf: Seq<char>) -> Seq<char> {
    joined(joined_all(dirs), leaf)
}

/// How many characters at the front of `path` tell where it starts: one for
/// a leading `/`, one for a leading `.` that is a component of its own, none
/// otherwise. The components of the path come behind them.
pub open spec fn lead(path: Seq<char>) -> int {
    if path.len() > 0 && path[0] == '/' {
        1
    } else if path.len() > 0 && path[0] == '.' && (path.len() == 1 || path[1] == '/') {
        1
    } else {
        0
    }
}

/// Whether `path` ends, behind its first `b` characters, in something that is
/// no component: a `/`, or a `.` that stands alone between separators.
pub open spec fn ends_idle(path: Seq<char>, b: int) -> bool {
    &&& path.len() > b
    &&& path.len() > 0
    &&& (path.last() == '/' || (path.last() == '.' && (path.len() - 1 == b || path[path.len() - 2]
        == '/')))
}

/// `path` without what follows its last component: trailing `/` and trailing
/// `.` components are taken off, down to the first `b` characters at most.
pub open spec fn trimmed(path: Seq<char>, b: int) -> Seq<char>
    decreases path.len(),
{
    if ends_idle(path, b) {
        trimmed(path.drop_last(), b)
    } else {
        path
    }
}

/// `path` without its last component and the `/` in front of that component,
/// down to the first `b` characters at most.
pub open spec fn without_last(path: Seq<char>, b: int) -> Seq<char>
    decreases path.len(),
{
    if path.len() <= b || path.len() == 0 {
        path
    } else if path.last() == '/' {
        path.drop_last()
    } else {
        without_last(path.drop_last(), b)
    }
}

/// The directory that holds `path`, as `std::path::Path::parent` gives it
/// where `/` separates: the path without its last component, and without the
/// separators and `.` components around it. A path that is empty or only a
/// root has none. A path of one component has the empty one.
pub open spec fn parent_of(path: Seq<char>) -> Option<Seq<char>> {
    let b = lead(path);
    let kept = trimmed(path, b);
    if kept.len() > b {
        Some(trimmed(without_last(kept, b), b))
    } else if path.len() > 0 && path[0] == '/' {
        None
    } else if b == 1 {
        Some(Seq::empty())
    } else {
        None
    }
}

/// The directories in which the children of a module placed at `place` are
/// looked for: the directory that holds `place`, if it has one.
pub open spec fn holding_dirs(place: Seq<char>) -> Seq<Seq<char>> {
    match parent_of(place) {
        Some(dir) => seq![dir],
        None => Seq::empty(),
    }
}

/// The name of the file that holds module `name` beside its parent: `name.rs`.
pub open spec fn flat_file(name: Seq<char>) -> Seq<char> {
    name + seq!['.', 'r', 's']
}

/// The name of the file that holds a module in a directory of its own: `mod.rs`.
pub open spec fn index_file() -> Seq<char> {
    seq!['m', 'o', 'd', '.', 'r', 's']
}

/// `base` extended by `leaf`.
pub fn join(base: &String, leaf: &String) -> (r: String)
    ensures
        r@ == joined(base@, leaf@),
{
    let leaf_len = leaf.as_str().unicode_len();
    let base_len = base.as_str().unicode_len();
    if leaf_len > 0 && leaf.as_str().get_char(0) == '/' {
        leaf.clone()
    } else if base_len == 0 || base.as_str().get_char(base_len - 1) == '/' {
        followed_by(base, leaf.as_str())
    } else {
        let with_slash = followed_by(base, "/");
        proof {
            reveal_strlit("/");
            assert("/"@ =~= seq!['/']);
        }
        followed_by(&with_slash, leaf.as_str())
    }
}

/// All of `dirs` joined, the first one outermost.
pub fn join_all(dirs: &Vec<String>) -> (r: String)
    ensures
        r@ == joined_all(strings_model(dirs@)),
{
    let ghost model = strings_model(dirs@);
    let mut out = String::new();
    let mut i: usize = 0;
    while i < dirs.len()
        invariant
            i <= dirs.len(),
            model == strings_model(dirs@),
            out@ == joined_all(model.take(i as int)),
        decreases dirs.len() - i,
    {
        proof {
            assert(model.take(i + 1).drop_last() =~= model.take(i as int));
            assert(model.take(i + 1).last() == dirs@[i as int]@);
        }
        out = join(&out, &dirs[i]);
        i = i + 1;
    }
    proof {
        assert(model.take(dirs.len() as int) =~= model);
    }
    out
}

/// The path of `leaf` below the directories `dirs`.
pub fn locate(dirs: &Vec<String>, leaf: &String) -> (r: String)
    ensures
        r@ == located(strings_model(dirs@), leaf@),
{
    let base = join_all(dirs);
    join(&base, leaf)
}

/// How many characters at the front of `path` tell where it starts.
pub fn lead_of(path: &String) -> (r: usize)
    ensures
        r == lead(path@),
{
    let len = path.as_str().unicode_len();
    if len == 0 {
        0
    } else {
        let first = path.as_str().get_char(0);
        if first == '/' {
            1
        } else if first == '.' && (len == 1 || path.as_str().get_char(1) == '/') {
            1
        } else {
            0
        }
    }
}

/// The length of the first `end` characters of `path` once trimmed.
fn trim_end(path: &String, end: usize, b: usize) -> (r: usize)
    requires
        end <= path@.len(),
    ensures
        r <= end,
        path@.take(r as int) == trimmed(path@.take(end as int), b as int),
{
    let mut e: usize = end;
    loop
        invariant
            e <= end <= path@.len(),
            trimmed(path@.take(end as int), b as int) == trimmed(path@.take(e as int), b as int),
        decreases e,
    {
        let ghost now = path@.take(e as int);
        if e <= b {
            return e;
        }
        let last = path.as_str().get_char(e - 1);
        proof {
            assert(now.last() == last);
            assert(now.drop_last() =~= path@.take(e - 1));
            if e >= 2 {
                assert(now[e - 2] == path@[e - 2]);
            }
        }
        let idle = last == '/' || (last == '.' && (e - 1 == b || path.as_str().get_char(e - 2)
            == '/'));
        if !idle {
            return e;
        }
        e = e - 1;
    }
}

/// The length of the first `end` characters of `path` without their last component.
fn cut_end(path: &String, end: usize, b: usize) -> (r: usize)
    requires
        end <= path@.len(),
    ensures
        r <= end,
        path@.take(r as int) == without_last(path@.take(end as int), b as int),
{
    let mut e: usize = end;
    loop
        invariant
            e <= end <= path@.len(),
            without_last(path@.take(end as int), b as int) == without_last(
                path@.take(e as int),
                b as int,
            ),
        decreases e,
    {
        let ghost now = path@.take(e as int);
        if e <= b || e == 0 {
            return e;
        }
        let last = path.as_str().get_char(e - 1);
        proof {
            assert(now.last() == last);
            assert(now.drop_last() =~= path@.take(e - 1));
        }
        e = e - 1;
        if last == '/' {
            return e;
        }
    }
}

/// The directory that holds `path`, if it has one.
pub fn parent(path: &String) -> (r: Option<String>)
    ensures
        match r {
            Some(dir) => parent_of(path@) == Some(dir@),
            None => parent_of(path@) is None,
        },
{
    let len = path.as_str().unicode_len();
    let b = lead_of(path);
    proof {
        assert(path@.take(len as int) =~= path@);
    }
    let kept = trim_end(path, len, b);
    if kept > b {
        let cut = cut_end(path, kept, b);
        let end = trim_end(path, cut, b);
        Some(path.as_str().substring_char(0, end).to_owned())
    } else if len > 0 && path.as_str().get_char(0) == '/' {
        None
    } else if b == 1 {
        Some(String::new())
    } else {
        None
    }
}

} // verus!
