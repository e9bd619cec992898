use vstd::prelude::*;
use vstd::string::StrSliceExecFns;
use crate::text::{chars_of, concat2, concat3, copy_str, split_char, split_pieces, str_eq, string_views};

verus! {

/// `Path::join` of a relative file name onto `dir`, read the Unix way: the
/// name alone when `dir` is empty, else one `/` between the two.
pub open spec fn join_path(dir: Seq<char>, name: Seq<char>) -> Seq<char> {
    if dir.len() == 0 {
        name
    } else if dir.last() == '/' {
        dir + name
    } else {
        dir + "/"@ + name
    }
}

pub fn join_path_exec(dir: &str, name: &str) -> (r: String)
    ensures
        r@ == join_path(dir@, name@),
{
    let v = chars_of(dir);
    if v.len() == 0 {
        copy_str(name)
    } else if v[v.len() - 1] == '/' {
        concat2(dir, name)
    } else {
        concat3(dir, "/", name)
    }
}

} // verus!

verus! {

/// A piece of a path that names something: neither empty nor `.`.
pub open spec fn is_named_segment(p: Seq<char>) -> bool {
    p.len() > 0 && p != "."@
}

/// The last piece of `p` that names something.
pub open spec fn last_named(p: Seq<Seq<char>>) -> Option<Seq<char>>
    decreases p.len(),
{
    if p.len() == 0 {
        None
    } else if is_named_segment(p.last()) {
        Some(p.last())
    } else {
        last_named(p.drop_last())
    }
}

/// `Path::file_name`, read the Unix way: the last component, unless it is `..`
/// or the path has none.
pub open spec fn file_name(s: Seq<char>) -> Option<Seq<char>> {
    match last_named(split_char(s, '/')) {
        Some(n) => if n == ".."@ {
            None
        } else {
            Some(n)
        },
        None => None,
    }
}

pub fn file_name_exec(s: &str) -> (r: Option<String>)
    ensures
        opt_view(r) == file_name(s@),
{
    let parts = split_pieces(s, '/');
    let ghost p = split_char(s@, '/');
    let mut i: usize = parts.len();
    assert(p.subrange(0, p.len() as int) == p);
    while i > 0
        invariant
            i <= parts@.len(),
            string_views(parts@) == p,
            p == split_char(s@, '/'),
            last_named(p) == last_named(p.subrange(0, i as int)),
        decreases i,
    {
        let ghost q = p.subrange(0, i as int);
        assert(q.last() == parts@[i - 1]@);
        assert(q.drop_last() == p.subrange(0, i - 1));
        let part = parts[i - 1].as_str();
        if part.unicode_len() > 0 && !str_eq(part, ".") {
            if str_eq(part, "..") {
                return None;
            }
            return Some(copy_str(part));
        }
        i = i - 1;
    }
    None
}

pub open spec fn opt_view(o: Option<String>) -> Option<Seq<char>> {
    match o {
        Some(s) => Some(s@),
        None => None,
    }
}

} // verus!
