//! Slash-separated paths as plain strings.

use vstd::prelude::*;

verus! {

/// `rel` placed under `base`: an absolute `rel` stands alone, as with `Path::join`.
pub open spec fn spec_join(base: Seq<char>, rel: Seq<char>) -> Seq<char> {
    if rel.len() > 0 && rel[0] == '/' {
        rel
    } else if base.len() == 0 {
        rel
    } else if base.last() == '/' {
        base + rel
    } else {
        base + seq!['/'] + rel
    }
}

/// The characters after the last `/` of `p` (all of `p` when it has none).
pub open spec fn spec_file_name(p: Seq<char>) -> Seq<char>
    decreases p.len(),
{
    if p.len() == 0 {
        p
    } else if p.last() == '/' {
        Seq::empty()
    } else {
        spec_file_name(p.drop_last()).push(p.last())
    }
}

/// `p` without trailing separators and trailing `.` components, which a
/// path's last component does not count.
pub open spec fn spec_trim_tail(p: Seq<char>) -> Seq<char>
    decreases p.len(),
{
    if p.len() > 0 && p.last() == '/' {
        spec_trim_tail(p.drop_last())
    } else if p.len() >= 2 && p.last() == '.' && p[p.len() - 2] == '/' {
        spec_trim_tail(p.drop_last())
    } else {
        p
    }
}

/// The last component of the path `p`, as `Path::file_name` reads it.
pub open spec fn spec_last_component(p: Seq<char>) -> Seq<char> {
    spec_file_name(spec_trim_tail(p))
}

/// A last path component that names a file or a directory.
pub open spec fn is_normal_name(n: Seq<char>) -> bool {
    n.len() > 0 && n != seq!['.'] && n != seq!['.', '.']
}

/// Joins `rel` onto `base`.
pub fn join_path(base: &str, rel: &str) -> (r: String)
    ensures
        r@ == spec_join(base@, rel@),
{
    let rl = rel.unicode_len();
    let bl = base.unicode_len();
    if rl > 0 && rel.get_char(0) == '/' {
        return String::from_str(rel);
    }
    if bl == 0 {
        return String::from_str(rel);
    }
    let mut s = String::from_str(base);
    if base.get_char(bl - 1) != '/' {
        s.append("/");
        proof {
            reveal_strlit("/");
        }
    }
    s.append(rel);
    s
}

/// The last component of `p`, which must name a file or a directory;
/// trailing separators and `.` components are passed over.
pub fn file_name(p: &str) -> (r: String)
    requires
        is_normal_name(spec_last_component(p@)),
    ensures
        r@ == spec_last_component(p@),
{
    let n = p.unicode_len();
    let mut e: usize = n;
    assert(p@.subrange(0, n as int) =~= p@);
    while e > 0 && (p.get_char(e - 1) == '/' || (e >= 2 && p.get_char(e - 1) == '.' && p.get_char(
        e - 2,
    ) == '/'))
        invariant
            e <= n,
            n == p@.len(),
            spec_trim_tail(p@) == spec_trim_tail(p@.subrange(0, e as int)),
        decreases e,
    {
        let ghost q = p@.subrange(0, e as int);
        assert(q.drop_last() =~= p@.subrange(0, e - 1));
        e = e - 1;
    }
    let ghost t = p@.subrange(0, e as int);
    assert(spec_trim_tail(t) == t);
    let mut i: usize = e;
    assert(t.subrange(0, e as int) =~= t);
    assert(t.subrange(e as int, e as int) =~= Seq::<char>::empty());
    while i > 0 && p.get_char(i - 1) != '/'
        invariant
            i <= e <= n,
            n == p@.len(),
            t == p@.subrange(0, e as int),
            spec_file_name(t) == spec_file_name(t.subrange(0, i as int)) + t.subrange(
                i as int,
                e as int,
            ),
        decreases i,
    {
        let ghost q = t.subrange(0, i as int);
        assert(q.drop_last() =~= t.subrange(0, i - 1));
        assert(t.subrange(i - 1, e as int) =~= seq![q.last()] + t.subrange(i as int, e as int));
        i = i - 1;
    }
    proof {
        if i > 0 {
            let q = t.subrange(0, i as int);
            assert(spec_file_name(q) == Seq::<char>::empty());
        } else {
            assert(t.subrange(0, 0) =~= Seq::<char>::empty());
        }
        assert(spec_file_name(t) =~= p@.subrange(i as int, e as int));
    }
    String::from_str(p.substring_char(i, e))
}

} // verus!
