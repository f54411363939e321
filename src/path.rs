//! `/`-separated paths as text: last component, parent, extension, joining.
use vstd::prelude::*;
use vstd::string::*;
use crate::text::{lemma_rfind_bounds, rfind, rfind_before};

verus! {

/// The path without what ends it but names no component: trailing `/`
/// separators, and a trailing `.` component after a separator (`a/b/.` is
/// `a/b`).
pub open spec fn trim_path_end(p: Seq<char>) -> Seq<char>
    decreases p.len(),
{
    if p.len() > 0 && p.last() == '/' {
        trim_path_end(p.drop_last())
    } else if p.len() >= 2 && p.last() == '.' && p[p.len() - 2] == '/' {
        trim_path_end(p.drop_last())
    } else {
        p
    }
}

/// Last component of a path.
pub open spec fn file_name_of(p: Seq<char>) -> Seq<char> {
    let q = trim_path_end(p);
    q.subrange(rfind(q, '/') + 1, q.len() as int)
}

/// Everything before the last component: empty for a bare name, `/` for a
/// name at the root.
pub open spec fn parent_of(p: Seq<char>) -> Seq<char> {
    let q = trim_path_end(p);
    let i = rfind(q, '/');
    if i < 0 {
        Seq::empty()
    } else if i == 0 {
        seq!['/']
    } else {
        q.subrange(0, i)
    }
}

/// Text after the last `.` of a file name, unless that dot starts the name
/// or there is none.
pub open spec fn extension_of(name: Seq<char>) -> Option<Seq<char>> {
    let i = rfind(name, '.');
    if i > 0 {
        Some(name.subrange(i + 1, name.len() as int))
    } else {
        None
    }
}

/// A file name without its extension and the dot before it.
pub open spec fn stem_of(name: Seq<char>) -> Seq<char> {
    let i = rfind(name, '.');
    if i > 0 {
        name.subrange(0, i)
    } else {
        name
    }
}

/// `part` appended to `base` as one more component.
pub open spec fn join_of(base: Seq<char>, part: Seq<char>) -> Seq<char> {
    if base.len() == 0 {
        part
    } else if base.last() == '/' {
        base + part
    } else {
        base + seq!['/'] + part
    }
}

/// Length of `p` once its end is trimmed (see `trim_path_end`).
fn stripped_len(p: &str) -> (n: usize)
    ensures
        n <= p@.len(),
        trim_path_end(p@) == p@.subrange(0, n as int),
{
    let mut n: usize = p.unicode_len();
    assert(p@.subrange(0, n as int) =~= p@);
    while n > 0 && (p.get_char(n - 1) == '/' || (n >= 2 && p.get_char(n - 1) == '.'
        && p.get_char(n - 2) == '/'))
        invariant
            n <= p@.len(),
            trim_path_end(p@) == trim_path_end(p@.subrange(0, n as int)),
        decreases n,
    {
        assert(p@.subrange(0, n as int).drop_last() =~= p@.subrange(0, n - 1));
        n = n - 1;
    }
    n
}

pub fn file_name(p: &str) -> (r: &str)
    ensures
        r@ == file_name_of(p@),
{
    let n = stripped_len(p);
    let ghost q = p@.subrange(0, n as int);
    proof {
        lemma_rfind_bounds(q, '/');
    }
    let start: usize = match rfind_before(p, '/', n) {
        Some(i) => i + 1,
        None => 0,
    };
    let r = p.substring_char(start, n);
    assert(r@ =~= file_name_of(p@));
    r
}

pub fn parent(p: &str) -> (r: String)
    ensures
        r@ == parent_of(p@),
{
    let n = stripped_len(p);
    let ghost q = p@.subrange(0, n as int);
    proof {
        lemma_rfind_bounds(q, '/');
    }
    match rfind_before(p, '/', n) {
        None => {
            let r = String::new();
            assert(r@ =~= parent_of(p@));
            r
        },
        Some(i) => {
            if i == 0 {
                proof {
                    reveal_strlit("/");
                }
                let r = String::from_str("/");
                assert(r@ =~= parent_of(p@));
                r
            } else {
                let r = String::from_str(p.substring_char(0, i));
                assert(r@ =~= parent_of(p@));
                r
            }
        },
    }
}

pub fn extension(name: &str) -> (r: Option<&str>)
    ensures
        r matches Some(e) ==> extension_of(name@) == Some(e@),
        r is None ==> extension_of(name@) is None,
{
    let n = name.unicode_len();
    assert(name@.subrange(0, n as int) =~= name@);
    proof {
        lemma_rfind_bounds(name@, '.');
    }
    match rfind_before(name, '.', n) {
        Some(i) => {
            if i == 0 {
                None
            } else {
                Some(name.substring_char(i + 1, n))
            }
        },
        None => None,
    }
}

pub fn stem(name: &str) -> (r: &str)
    ensures
        r@ == stem_of(name@),
{
    let n = name.unicode_len();
    assert(name@.subrange(0, n as int) =~= name@);
    proof {
        lemma_rfind_bounds(name@, '.');
    }
    match rfind_before(name, '.', n) {
        Some(i) => {
            if i == 0 {
                name
            } else {
                name.substring_char(0, i)
            }
        },
        None => name,
    }
}

pub fn join(base: &str, part: &str) -> (r: String)
    ensures
        r@ == join_of(base@, part@),
{
    let n = base.unicode_len();
    let mut r = String::from_str(base);
    if n == 0 {
        let r = String::from_str(part);
        return r;
    }
    if base.get_char(n - 1) != '/' {
        proof {
            reveal_strlit("/");
        }
        r.append("/");
    }
    r.append(part);
    assert(r@ =~= join_of(base@, part@));
    r
}

} // verus!
