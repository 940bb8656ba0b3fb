use vstd::prelude::*;

use crate::text::{chars_of, find_from, index_from, string_of, trim, trimmed};

verus! {

/// The path without its query: everything before the first `?`.
pub open spec fn strip_query(p: Seq<char>) -> Seq<char> {
    p.subrange(0, index_from(p, '?', 0))
}

/// The path that names the file: the index page for a bare `/`, else the path
/// without its query.
pub open spec fn route(p: Seq<char>, index: Seq<char>) -> Seq<char> {
    let q = strip_query(p);
    if trim(q) == seq!['/'] {
        index
    } else {
        q
    }
}

/// The non-empty `/`-separated segments of `s` from index `i` on, where `cur`
/// holds the part of the current segment read so far.
pub open spec fn segments_from(s: Seq<char>, i: int, cur: Seq<char>) -> Seq<Seq<char>>
    decreases s.len() - i,
{
    if i < 0 || i >= s.len() {
        if cur.len() > 0 {
            seq![cur]
        } else {
            Seq::empty()
        }
    } else if s[i] == '/' {
        (if cur.len() > 0 {
            seq![cur]
        } else {
            Seq::empty()
        }) + segments_from(s, i + 1, Seq::empty())
    } else {
        segments_from(s, i + 1, cur.push(s[i]))
    }
}

pub open spec fn segments(s: Seq<char>) -> Seq<Seq<char>> {
    segments_from(s, 0, Seq::empty())
}

/// Joins one segment onto a path, with a `/` between them where the path does
/// not already end with one.
pub open spec fn join_one(p: Seq<char>, g: Seq<char>) -> Seq<char> {
    if p.len() == 0 || p.last() == '/' {
        p + g
    } else {
        p.push('/') + g
    }
}

pub open spec fn join_all(root: Seq<char>, segs: Seq<Seq<char>>) -> Seq<char>
    decreases segs.len(),
{
    if segs.len() == 0 {
        root
    } else {
        join_one(join_all(root, segs.drop_last()), segs.last())
    }
}

pub open spec fn views(v: Seq<String>) -> Seq<Seq<char>> {
    v.map_values(|x: String| x@)
}

/// The file that a decoded request path names under `root`.
pub open spec fn resolved(root: Seq<char>, p: Seq<char>, index: Seq<char>) -> Seq<char> {
    join_all(root, segments(route(p, index)))
}

/// The segments of the file that a decoded request path names, below the static root.
pub fn request_segments(path: &str, index_page: &str) -> (r: Vec<String>)
    ensures
        views(r@) == segments(route(path@, index_page@)),
{
    let v = chars_of(path);
    let q = find_from(v.as_slice(), '?', 0);
    let t = trimmed(v.as_slice(), 0, q);
    let tv = chars_of(t.as_str());
    let ghost stripped = v@.subrange(0, q as int);
    let s: Vec<char> = if tv.len() == 1 && tv[0] == '/' {
        assert(tv@ =~= seq!['/']);
        chars_of(index_page)
    } else {
        assert(tv@ != seq!['/']) by {
            if tv.len() == 1 {
                assert(tv@[0] != seq!['/'][0]);
            }
        }
        let mut w: Vec<char> = Vec::new();
        let mut k: usize = 0;
        while k < q
            invariant
                q <= v@.len(),
                k <= q,
                w@ == v@.subrange(0, k as int),
            decreases q - k,
        {
            w.push(v[k]);
            k += 1;
            assert(w@ =~= v@.subrange(0, k as int));
        }
        w
    };
    assert(s@ == route(path@, index_page@));
    let mut r: Vec<String> = Vec::new();
    let mut cur: Vec<char> = Vec::new();
    let mut i: usize = 0;
    while i < s.len()
        invariant
            i <= s@.len(),
            views(r@) + segments_from(s@, i as int, cur@) == segments(s@),
        decreases s@.len() - i,
    {
        if s[i] == '/' {
            if cur.len() > 0 {
                let g = string_of(cur.as_slice(), 0, cur.len());
                assert(cur@.subrange(0, cur@.len() as int) =~= cur@);
                r.push(g);
                assert(views(r@) =~= views(r@.drop_last()).push(cur@));
                assert(views(r@.drop_last()) + (seq![cur@] + segments_from(s@, i + 1, Seq::empty()))
                    =~= views(r@) + segments_from(s@, i + 1, Seq::empty()));
            } else {
                assert(Seq::<Seq<char>>::empty() + segments_from(s@, i + 1, Seq::empty())
                    =~= segments_from(s@, i + 1, Seq::empty()));
            }
            cur = Vec::new();
        } else {
            cur.push(s[i]);
        }
        i += 1;
    }
    if cur.len() > 0 {
        let g = string_of(cur.as_slice(), 0, cur.len());
        assert(cur@.subrange(0, cur@.len() as int) =~= cur@);
        r.push(g);
        assert(views(r@) =~= views(r@.drop_last()).push(cur@));
        assert(views(r@.drop_last()) + seq![cur@] =~= views(r@));
    } else {
        assert(views(r@) + Seq::<Seq<char>>::empty() =~= views(r@));
    }
    r
}

/// Joins the segments onto `root`, in order.
pub fn join_path(root: &str, segs: &Vec<String>) -> (r: String)
    ensures
        r@ == join_all(root@, views(segs@)),
{
    let mut p = chars_of(root);
    let mut i: usize = 0;
    while i < segs.len()
        invariant
            i <= segs@.len(),
            p@ == join_all(root@, views(segs@.subrange(0, i as int))),
        decreases segs@.len() - i,
    {
        let ghost before = p@;
        if p.len() > 0 && p[p.len() - 1] != '/' {
            p.push('/');
        }
        let ghost mid = p@;
        let g = chars_of(segs[i].as_str());
        let mut k: usize = 0;
        while k < g.len()
            invariant
                k <= g@.len(),
                p@ == mid + g@.subrange(0, k as int),
            decreases g@.len() - k,
        {
            p.push(g[k]);
            k += 1;
            assert(p@ =~= mid + g@.subrange(0, k as int));
        }
        assert(g@.subrange(0, g@.len() as int) =~= g@);
        assert(views(segs@.subrange(0, i + 1)).drop_last() =~= views(segs@.subrange(0, i as int)));
        assert(p@ =~= join_one(before, segs@[i as int]@));
        i += 1;
    }
    assert(segs@.subrange(0, segs@.len() as int) =~= segs@);
    string_of(p.as_slice(), 0, p.len())
}

/// The file that a decoded request path names under `root`: the query is dropped,
/// a bare `/` names the index page, and each non-empty segment is joined in order.
pub fn resolve(root: &str, path: &str, index_page: &str) -> (r: String)
    ensures
        r@ == resolved(root@, path@, index_page@),
{
    let segs = request_segments(path, index_page);
    let r = join_path(root, &segs);
    assert(r@ =~= resolved(root@, path@, index_page@));
    r
}

} // verus!
