//! Unix paths as text: joining, and lexical cleaning.
use vstd::prelude::*;

use crate::text::{chars_of, push_all, string_of};

verus! {

/// A path is absolute when it starts at the root.
pub open spec fn is_absolute(p: Seq<char>) -> bool {
    p.len() > 0 && p[0] == '/'
}

/// `Path::join` on Unix: an absolute path replaces the base; otherwise
/// it is appended after a `/`, unless the base is empty or already ends
/// with one.
pub open spec fn join_path(base: Seq<char>, p: Seq<char>) -> Seq<char> {
    if is_absolute(p) {
        p
    } else if base.len() == 0 {
        p
    } else if base.last() == '/' {
        base + p
    } else {
        base + seq!['/'] + p
    }
}

/// The parts of a path that name something: neither empty nor `.`.
pub open spec fn path_names(p: Seq<Seq<char>>) -> Seq<Seq<char>>
    decreases p.len(),
{
    if p.len() == 0 {
        p
    } else if p.last().len() > 0 && p.last() != "."@ {
        path_names(p.drop_last()).push(p.last())
    } else {
        path_names(p.drop_last())
    }
}

/// The components of a Unix path, as `Path::components` gives them: the
/// root (`/`) of an absolute path, or a leading `.` of a relative one, then
/// every part that names something.
pub open spec fn path_components(p: Seq<char>) -> Seq<Seq<char>> {
    let parts = crate::text::split_on(p, '/');
    let head: Seq<Seq<char>> = if is_absolute(p) {
        seq!["/"@]
    } else if parts[0] == "."@ {
        seq!["."@]
    } else {
        Seq::empty()
    };
    head + path_names(parts)
}

/// `Path::starts_with`: the components of the base lead those of the path.
pub open spec fn path_starts_with(path: Seq<char>, base: Seq<char>) -> bool {
    let a = path_components(path);
    let b = path_components(base);
    b.len() <= a.len() && a.take(b.len() as int) == b
}

fn components(p: &[char]) -> (r: Vec<Vec<char>>)
    ensures
        r@.map_values(|c: Vec<char>| c@) == path_components(p@),
{
    let parts = crate::text::split_char(p, '/');
    let ghost all = crate::text::split_on(p@, '/');
    let mut r: Vec<Vec<char>> = Vec::new();
    proof {
        reveal_strlit("/");
        reveal_strlit(".");
    }
    if p.len() > 0 && p[0] == '/' {
        r.push(chars_of("/"));
    } else if crate::text::eq_str(&parts[0], ".") {
        r.push(chars_of("."));
    }
    let ghost head = r@.map_values(|c: Vec<char>| c@);
    assert(all.take(0) =~= Seq::<Seq<char>>::empty());
    assert(head + path_names(all.take(0)) =~= head);
    let mut i: usize = 0;
    while i < parts.len()
        invariant
            0 <= i <= parts@.len() == all.len(),
            all == crate::text::split_on(p@, '/'),
            forall|j: int| 0 <= j < parts@.len() ==> #[trigger] parts@[j]@ == all[j],
            r@.map_values(|c: Vec<char>| c@) == head + path_names(all.take(i as int)),
        decreases parts@.len() - i,
    {
        let ghost before = r@.map_values(|c: Vec<char>| c@);
        assert(all.take(i + 1).drop_last() =~= all.take(i as int));
        assert(all.take(i + 1).last() == parts@[i as int]@);
        if parts[i].len() > 0 && !crate::text::eq_str(&parts[i], ".") {
            let c = crate::text::slice_copy(&parts[i], 0, parts[i].len());
            assert(c@ =~= parts@[i as int]@);
            r.push(c);
            assert(r@.map_values(|c: Vec<char>| c@) =~= before.push(c@));
        }
        i = i + 1;
    }
    assert(all.take(all.len() as int) =~= all);
    r
}

/// `Path::starts_with`: whether the base's components lead the path's.
pub fn starts_with_path(path: &str, base: &str) -> (r: bool)
    ensures
        r == path_starts_with(path@, base@),
{
    let pc = chars_of(path);
    let bc = chars_of(base);
    let a = components(&pc);
    let b = components(&bc);
    let ghost av = a@.map_values(|c: Vec<char>| c@);
    let ghost bv = b@.map_values(|c: Vec<char>| c@);
    assert(av == path_components(path@));
    assert(bv == path_components(base@));
    if b.len() > a.len() {
        return false;
    }
    let mut i: usize = 0;
    while i < b.len()
        invariant
            0 <= i <= b@.len() <= a@.len(),
            av == a@.map_values(|c: Vec<char>| c@),
            bv == b@.map_values(|c: Vec<char>| c@),
            av == path_components(path@),
            bv == path_components(base@),
            forall|j: int| 0 <= j < i ==> av[j] == bv[j],
        decreases b@.len() - i,
    {
        if !crate::text::chars_eq(&a[i], &b[i]) {
            assert(av[i as int] == a@[i as int]@);
            assert(bv[i as int] == b@[i as int]@);
            assert(av.take(bv.len() as int)[i as int] != bv[i as int]);
            return false;
        }
        i = i + 1;
    }
    assert(av.take(bv.len() as int) =~= bv);
    true
}

/// Joins a path to a base.
pub fn join(base: &str, p: &str) -> (r: String)
    ensures
        r@ == join_path(base@, p@),
{
    let b = chars_of(base);
    let q = chars_of(p);
    if q.len() > 0 && q[0] == '/' {
        return string_of(&q);
    }
    if b.len() == 0 {
        return string_of(&q);
    }
    let mut t = b;
    if t[t.len() - 1] != '/' {
        t.push('/');
    }
    push_all(&mut t, &q);
    string_of(&t)
}

/// The components that `path_clean::clean` keeps, read first to last:
/// `.` is dropped; `..` is dropped right after the root, takes away a named
/// component before it, and is kept otherwise; anything else is kept.
pub open spec fn clean_components(c: Seq<Seq<char>>) -> Seq<Seq<char>>
    decreases c.len(),
{
    if c.len() == 0 {
        c
    } else {
        let out = clean_components(c.drop_last());
        let x = c.last();
        if x == "."@ {
            out
        } else if x == ".."@ {
            if out.len() > 0 && out.last() == "/"@ {
                out
            } else if out.len() > 0 && out.last() != ".."@ {
                out.drop_last()
            } else {
                out.push(x)
            }
        } else {
            out.push(x)
        }
    }
}

/// What `path_clean::clean` makes of a path: the kept components written
/// out, the root as a leading `/` and the others joined by `/`; `.` when
/// none is kept.
pub open spec fn cleaned_path(p: Seq<char>) -> Seq<char> {
    let out = clean_components(path_components(p));
    if out.len() == 0 {
        "."@
    } else if out[0] == "/"@ {
        "/"@ + crate::text::join_with(out.drop_first(), '/')
    } else {
        crate::text::join_with(out, '/')
    }
}

/// Cleans a path lexically with `path_clean::clean`, which walks the
/// path's components (`Path::components`) as `clean_components` says and
/// collects what it keeps into a path; the text of a path made from a
/// `str` is that path as it is.
#[verifier::external_body]
pub(crate) fn clean(p: &str) -> (r: String)
    ensures
        r@ == cleaned_path(p@),
        r@.len() > 0,
{
    path_clean::clean(p).to_string_lossy().into_owned()
}

} // verus!
