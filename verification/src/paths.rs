//! Unix paths as texts: their components and the parts that callers ask for.
use crate::text::{chars_of, same, string_range};
use vstd::prelude::*;
use vstd::string::*;

verus! {

use crate::text::{index_from, lemma_views_push, opt_view, views};

/// Whether the path begins at the root.
pub open spec fn has_root(p: Seq<char>) -> bool {
    p.len() > 0 && p[0] == '/'
}

/// Whether the name between the positions `i` and `j` is a component: it is not empty,
/// and it is not the directory itself, unless the path begins with it.
pub open spec fn is_component(p: Seq<char>, i: int, j: int) -> bool {
    i < j && !(i > 0 && p.subrange(i, j) == seq!['.'])
}

/// Where the components from position `i` on begin and end, the root left out.
pub open spec fn spans(p: Seq<char>, i: int) -> Seq<(int, int)>
    decreases p.len() - i,
{
    if i < 0 || i > p.len() {
        Seq::empty()
    } else {
        let j = index_from(p, '/', i);
        let head = if is_component(p, i, j) {
            seq![(i, j)]
        } else {
            Seq::empty()
        };
        if i <= j < p.len() {
            head + spans(p, j + 1)
        } else {
            head
        }
    }
}

/// The texts of the given parts of a path.
pub open spec fn slices(p: Seq<char>, s: Seq<(int, int)>) -> Seq<Seq<char>> {
    Seq::new(s.len(), |k: int| p.subrange(s[k].0, s[k].1))
}

/// The components of a path, the root as `/`.
pub open spec fn components_of(p: Seq<char>) -> Seq<Seq<char>> {
    let body = slices(p, spans(p, 0));
    if has_root(p) {
        seq![seq!['/']] + body
    } else {
        body
    }
}

/// Whether a component is a name: neither the root nor `.` nor `..`.
pub open spec fn is_name(c: Seq<char>) -> bool {
    c != seq!['/'] && c != seq!['.'] && c != seq!['.', '.']
}

/// The last component, where it is a name.
pub open spec fn file_name_of(p: Seq<char>) -> Option<Seq<char>> {
    let c = components_of(p);
    if c.len() > 0 && is_name(c.last()) {
        Some(c.last())
    } else {
        None
    }
}

/// The path up to the last component but one.
pub open spec fn parent_of(p: Seq<char>) -> Option<Seq<char>> {
    let s = spans(p, 0);
    if s.len() == 0 {
        None
    } else if s.len() >= 2 {
        Some(p.take(s[s.len() - 2].1))
    } else if has_root(p) {
        Some(seq!['/'])
    } else {
        Some(Seq::empty())
    }
}

/// The last component of the parent, where it is a name.
pub open spec fn parent_name_of(p: Seq<char>) -> Option<Seq<char>> {
    let c = components_of(p);
    if spans(p, 0).len() > 0 && c.len() >= 2 && is_name(c[c.len() - 2]) {
        Some(c[c.len() - 2])
    } else {
        None
    }
}

/// The last position of `c` before `n`, or -1.
pub open spec fn last_index(s: Seq<char>, c: char, n: int) -> int
    decreases n,
{
    if n <= 0 {
        -1
    } else if s[n - 1] == c {
        n - 1
    } else {
        last_index(s, c, n - 1)
    }
}

/// What follows the last dot of the file name, unless that dot begins it.
pub open spec fn extension_of(p: Seq<char>) -> Option<Seq<char>> {
    match file_name_of(p) {
        Some(f) => {
            let i = last_index(f, '.', f.len() as int);
            if i > 0 {
                Some(f.skip(i + 1))
            } else {
                None
            }
        },
        None => None,
    }
}

/// The file name without its extension.
pub open spec fn file_stem_of(p: Seq<char>) -> Option<Seq<char>> {
    match file_name_of(p) {
        Some(f) => {
            let i = last_index(f, '.', f.len() as int);
            if i > 0 {
                Some(f.take(i))
            } else {
                Some(f)
            }
        },
        None => None,
    }
}

/// The path `p` below the directory `base`; `p` itself where it begins at the root.
pub open spec fn path_joined(base: Seq<char>, p: Seq<char>) -> Seq<char> {
    if has_root(p) {
        p
    } else if base.len() > 0 && base.last() != '/' {
        base + seq!['/'] + p
    } else {
        base + p
    }
}

/// The components of `p` that follow those of `root`; all of them where `p` is not below
/// `root`.
pub open spec fn below(root: Seq<char>, p: Seq<char>) -> Seq<Seq<char>> {
    let r = components_of(root);
    let c = components_of(p);
    if r.len() <= c.len() && c.take(r.len() as int) == r {
        c.skip(r.len() as int)
    } else {
        c
    }
}

proof fn lemma_index_from_bounds(s: Seq<char>, c: char, from: int)
    requires
        0 <= from <= s.len(),
    ensures
        from <= index_from(s, c, from) <= s.len(),
        index_from(s, c, from) < s.len() ==> s[index_from(s, c, from)] == c,
        forall|k: int| from <= k < index_from(s, c, from) ==> s[k] != c,
    decreases s.len() - from,
{
    if from < s.len() && s[from] != c {
        lemma_index_from_bounds(s, c, from + 1);
    }
}

/// The spans lie within the path, one after the other, are not empty, and hold no separator.
pub proof fn lemma_spans(p: Seq<char>, i: int)
    requires
        0 <= i <= p.len(),
    ensures
        forall|k: int|
            0 <= k < spans(p, i).len() ==> i <= (#[trigger] spans(p, i)[k]).0 < spans(p, i)[k].1
                <= p.len(),
        forall|k: int, m: int|
            0 <= k < spans(p, i).len() && (#[trigger] spans(p, i)[k]).0 <= m < spans(p, i)[k].1
                ==> (#[trigger] p[m]) != '/',
        forall|k: int, l: int|
            0 <= k < l < spans(p, i).len() ==> (#[trigger] spans(p, i)[k]).1 < (
            #[trigger] spans(p, i)[l]).0,
    decreases p.len() - i,
{
    let j = index_from(p, '/', i);
    lemma_index_from_bounds(p, '/', i);
    if j < p.len() {
        lemma_spans(p, j + 1);
        let rest = spans(p, j + 1);
        let all = spans(p, i);
        if is_component(p, i, j) {
            assert(all == seq![(i, j)] + rest);
            assert forall|k: int| 0 <= k < all.len() implies i <= (#[trigger] all[k]).0 < all[k].1
                <= p.len() by {
                if k > 0 {
                    assert(all[k] == rest[k - 1]);
                }
            }
            assert forall|k: int, m: int|
                0 <= k < all.len() && (#[trigger] all[k]).0 <= m < all[k].1 implies (#[trigger] p[m])
                != '/' by {
                if k > 0 {
                    assert(all[k] == rest[k - 1]);
                }
            }
            assert forall|k: int, l: int| 0 <= k < l < all.len() implies (#[trigger] all[k]).1 < (
            #[trigger] all[l]).0 by {
                assert(all[l] == rest[l - 1]);
                if k > 0 {
                    assert(all[k] == rest[k - 1]);
                }
            }
        } else {
            assert(all =~= rest);
        }
    }
}

/// The components of a path.
pub fn components(path: &str) -> (r: Vec<String>)
    ensures
        views(r@) == components_of(path@),
{
    let cs = chars_of(path);
    let mut out: Vec<String> = Vec::new();
    let sp = path_spans(&cs);
    let ghost p = path@;
    proof {
        lemma_spans(p, 0);
    }
    if cs.len() > 0 && cs[0] == '/' {
        let r = string_range(&cs, 0, 1);
        assert(r@ =~= seq!['/']);
        out.push(r);
    }
    let ghost head = views(out@);
    let mut k: usize = 0;
    assert(slices(p, spans(p, 0).take(0)) =~= Seq::<Seq<char>>::empty());
    while k < sp.len()
        invariant
            k <= sp@.len(),
            cs@ == p,
            spans_view(sp@) == spans(p, 0),
            forall|m: int|
                0 <= m < spans(p, 0).len() ==> 0 <= (#[trigger] spans(p, 0)[m]).0 < spans(p, 0)[m].1
                    <= p.len(),
            views(out@) =~= head + slices(p, spans(p, 0).take(k as int)),
        decreases sp.len() - k,
    {
        let (a, b) = sp[k];
        proof {
            assert(spans(p, 0)[k as int] == (a as int, b as int));
        }
        let ghost before = out@;
        out.push(string_range(&cs, a, b));
        proof {
            lemma_views_push(before, out@.last());
            assert(slices(p, spans(p, 0).take(k + 1)) =~= slices(
                p,
                spans(p, 0).take(k as int),
            ).push(p.subrange(a as int, b as int)));
        }
        k = k + 1;
    }
    assert(spans(p, 0).take(k as int) =~= spans(p, 0));
    assert(views(out@) =~= components_of(p));
    out
}

/// Spans held in machine integers, as mathematical ones.
pub open spec fn spans_view(v: Seq<(usize, usize)>) -> Seq<(int, int)> {
    Seq::new(v.len(), |k: int| (v[k].0 as int, v[k].1 as int))
}

/// Where the components begin and end, the root left out.
pub fn path_spans(p: &Vec<char>) -> (r: Vec<(usize, usize)>)
    ensures
        spans_view(r@) == spans(p@, 0),
{
    let mut out: Vec<(usize, usize)> = Vec::new();
    let mut i: usize = 0;
    let mut more = true;
    while more
        invariant
            more ==> i <= p@.len(),
            spans_view(out@) + (if more {
                spans(p@, i as int)
            } else {
                Seq::empty()
            }) =~= spans(p@, 0),
        decreases p@.len() + 1 - i, more as int,
    {
        let mut j: usize = i;
        while j < p.len() && p[j] != '/'
            invariant
                i <= j <= p@.len(),
                index_from(p@, '/', i as int) == index_from(p@, '/', j as int),
            decreases p.len() - j,
        {
            j = j + 1;
        }
        assert(j == index_from(p@, '/', i as int));
        let dot = i > 0 && j - i == 1 && p[i] == '.';
        proof {
            if j == i + 1 {
                assert(p@.subrange(i as int, j as int) =~= seq![p@[i as int]]);
            }
            if i > 0 && i < j && p@.subrange(i as int, j as int) == seq!['.'] {
                assert(p@.subrange(i as int, j as int).len() == 1);
                assert(seq!['.'][0] == '.');
            }
            if dot {
                assert(p@.subrange(i as int, j as int) =~= seq!['.']);
            }
        }
        let ghost before = out@;
        if i < j && !dot {
            out.push((i, j));
            assert(spans_view(out@) =~= spans_view(before).push((i as int, j as int)));
        }
        if j < p.len() {
            i = j + 1;
        } else {
            more = false;
        }
    }
    assert(spans_view(out@) =~= spans(p@, 0));
    out
}

/// Whether a component is a name.
fn name_like(c: &str) -> (r: bool)
    ensures
        r == is_name(c@),
{
    proof {
        reveal_strlit("/");
        reveal_strlit(".");
        reveal_strlit("..");
        assert("/"@ =~= seq!['/']);
        assert("."@ =~= seq!['.']);
        assert(".."@ =~= seq!['.', '.']);
    }
    !same(c, "/") && !same(c, ".") && !same(c, "..")
}

/// The last component, where it is a name.
pub fn file_name(path: &str) -> (r: Option<String>)
    ensures
        opt_view(r) == file_name_of(path@),
{
    let c = components(path);
    if c.len() > 0 {
        let last = c[c.len() - 1].clone();
        assert(last@ == components_of(path@).last());
        if name_like(last.as_str()) {
            return Some(last);
        }
    }
    None
}

/// The path up to the last component but one.
pub fn parent(path: &str) -> (r: Option<String>)
    ensures
        opt_view(r) == parent_of(path@),
{
    let cs = chars_of(path);
    let sp = path_spans(&cs);
    proof {
        lemma_spans(path@, 0);
    }
    if sp.len() == 0 {
        None
    } else if sp.len() >= 2 {
        let end = sp[sp.len() - 2].1;
        proof {
            assert(spans(path@, 0)[sp@.len() - 2].1 == end);
            assert(cs@.subrange(0, end as int) =~= path@.take(end as int));
        }
        Some(string_range(&cs, 0, end))
    } else if cs[0] == '/' {
        proof {
            assert(cs@.subrange(0, 1) =~= seq!['/']);
        }
        Some(string_range(&cs, 0, 1))
    } else {
        Some(String::new())
    }
}

/// The last component of the parent, where it is a name.
pub fn parent_name(path: &str) -> (r: Option<String>)
    ensures
        opt_view(r) == parent_name_of(path@),
{
    let cs = chars_of(path);
    let sp = path_spans(&cs);
    let c = components(path);
    if sp.len() > 0 && c.len() >= 2 {
        let name = c[c.len() - 2].clone();
        assert(name@ == components_of(path@)[c@.len() - 2]);
        if name_like(name.as_str()) {
            return Some(name);
        }
    }
    None
}

/// One more than the last position of `c`, or zero.
fn after_last(s: &Vec<char>, c: char) -> (r: usize)
    ensures
        r == last_index(s@, c, s@.len() as int) + 1,
        r <= s@.len(),
{
    let mut n: usize = s.len();
    while n > 0 && s[n - 1] != c
        invariant
            n <= s@.len(),
            last_index(s@, c, s@.len() as int) == last_index(s@, c, n as int),
        decreases n,
    {
        n = n - 1;
    }
    n
}

/// What follows the last dot of the file name, unless that dot begins it.
pub fn extension(path: &str) -> (r: Option<String>)
    ensures
        opt_view(r) == extension_of(path@),
{
    match file_name(path) {
        Some(f) => {
            let cs = chars_of(f.as_str());
            let n = after_last(&cs, '.');
            if n > 1 {
                assert(cs@.subrange(n as int, cs@.len() as int) =~= cs@.skip(n as int));
                Some(string_range(&cs, n, cs.len()))
            } else {
                None
            }
        },
        None => None,
    }
}

/// The file name without its extension.
pub fn file_stem(path: &str) -> (r: Option<String>)
    ensures
        opt_view(r) == file_stem_of(path@),
{
    match file_name(path) {
        Some(f) => {
            let cs = chars_of(f.as_str());
            let n = after_last(&cs, '.');
            if n > 1 {
                assert(cs@.subrange(0, n - 1) =~= cs@.take(n - 1));
                Some(string_range(&cs, 0, n - 1))
            } else {
                Some(f)
            }
        },
        None => None,
    }
}

/// The path `p` below the directory `base`; `p` itself where it begins at the root.
pub fn path_join(base: &str, p: &str) -> (r: String)
    ensures
        r@ == path_joined(base@, p@),
{
    let b = chars_of(base);
    let q = chars_of(p);
    let mut out = String::new();
    if q.len() > 0 && q[0] == '/' {
        out.append(p);
        assert(out@ =~= p@);
        return out;
    }
    out.append(base);
    if b.len() > 0 && b[b.len() - 1] != '/' {
        out.push('/');
        assert(out@ =~= base@ + seq!['/']);
    }
    out.append(p);
    assert(out@ =~= path_joined(base@, p@));
    out
}

/// The components of `path` that follow those of `root`; all of them where `path` is not
/// below `root`.
pub fn components_below(root: &str, path: &str) -> (r: Vec<String>)
    ensures
        views(r@) == below(root@, path@),
{
    let a = components(root);
    let c = components(path);
    let ghost av = components_of(root@);
    let ghost cv = components_of(path@);
    if a.len() > c.len() {
        return c;
    }
    for i in 0..a.len()
        invariant
            a@.len() <= c@.len(),
            views(a@) == av,
            views(c@) == cv,
            av == components_of(root@),
            cv == components_of(path@),
            forall|j: int| 0 <= j < i ==> av[j] == cv[j],
    {
        assert(a@[i as int]@ == av[i as int]);
        assert(c@[i as int]@ == cv[i as int]);
        if !same(a[i].as_str(), c[i].as_str()) {
            assert(cv.take(av.len() as int)[i as int] != av[i as int]);
            return c;
        }
    }
    assert(cv.take(av.len() as int) =~= av);
    let mut out: Vec<String> = Vec::new();
    let mut i: usize = a.len();
    while i < c.len()
        invariant
            a@.len() <= i <= c@.len(),
            views(c@) == cv,
            views(out@) =~= cv.subrange(a@.len() as int, i as int),
        decreases c.len() - i,
    {
        let ghost before = out@;
        out.push(c[i].clone());
        proof {
            lemma_views_push(before, out@.last());
            assert(c@[i as int]@ == cv[i as int]);
        }
        i = i + 1;
    }
    assert(views(out@) =~= cv.skip(av.len() as int));
    out
}

/// The parent has the components of the path but the last.
pub proof fn law_parent_components(p: Seq<char>)
    ensures
        parent_of(p) matches Some(q) ==> components_of(q) == components_of(p).drop_last(),
        parent_of(p) is None <==> spans(p, 0).len() == 0,
{
    let s = spans(p, 0);
    lemma_spans(p, 0);
    if s.len() >= 2 {
        let e = s[s.len() - 2].1;
        let q = p.take(e);
        lemma_spans_prefix(p, 0, s.len() - 2);
        assert(spans(q, 0) =~= s.take(s.len() - 1));
        assert(q.len() > 0 && q[0] == p[0]);
        assert(slices(q, spans(q, 0)) =~= slices(p, s).drop_last()) by {
            assert forall|k: int| 0 <= k < s.len() - 1 implies q.subrange(s[k].0, s[k].1)
                == p.subrange(s[k].0, s[k].1) by {
                assert(s[k].1 <= e) by {
                    if k < s.len() - 2 {
                        assert(s[k].1 < s[s.len() - 2].0);
                    }
                }
                assert(q.subrange(s[k].0, s[k].1) =~= p.subrange(s[k].0, s[k].1));
            }
        }
        assert(components_of(q) =~= components_of(p).drop_last());
    } else if s.len() == 1 {
        if has_root(p) {
            let q = seq!['/'];
            reveal_with_fuel(spans, 3);
            reveal_with_fuel(index_from, 3);
            assert(spans(q, 0) =~= Seq::<(int, int)>::empty());
            assert(components_of(q) =~= components_of(p).drop_last());
        } else {
            let q = Seq::<char>::empty();
            assert(spans(q, 0) =~= Seq::<(int, int)>::empty());
            assert(components_of(q) =~= components_of(p).drop_last());
        }
    }
}

/// Cutting a path after one of its components keeps the spans up to that component.
proof fn lemma_spans_prefix(p: Seq<char>, i: int, k: int)
    requires
        0 <= i <= p.len(),
        0 <= k < spans(p, i).len(),
    ensures
        spans(p.take(spans(p, i)[k].1), i) == spans(p, i).take(k + 1),
    decreases p.len() - i,
{
    let all = spans(p, i);
    let e = all[k].1;
    let q = p.take(e);
    lemma_spans(p, i);
    let j = index_from(p, '/', i);
    lemma_index_from_bounds(p, '/', i);
    if is_component(p, i, j) && k == 0 {
        assert(all[0] == (i, j));
        assert(e == j);
        lemma_index_same(p, q, i);
        assert(q.subrange(i, j) =~= p.subrange(i, j));
        assert(spans(q, i) =~= all.take(1));
    } else {
        let rest = spans(p, j + 1);
        let m = if is_component(p, i, j) {
            k - 1
        } else {
            k
        };
        assert(all[k] == rest[m]);
        lemma_spans(p, j + 1);
        lemma_spans_prefix(p, j + 1, m);
        lemma_index_same(p, q, i);
        assert(q.subrange(i, j) =~= p.subrange(i, j));
        assert(spans(q, j + 1) == rest.take(m + 1));
        assert(spans(q, i) =~= all.take(k + 1));
    }
}

proof fn lemma_index_same(p: Seq<char>, q: Seq<char>, i: int)
    requires
        0 <= i <= q.len() <= p.len(),
        q == p.take(q.len() as int),
        index_from(p, '/', i) <= q.len(),
    ensures
        index_from(q, '/', i) == index_from(p, '/', i),
    decreases p.len() - i,
{
    if i < q.len() {
        assert(q[i] == p[i]);
        if p[i] != '/' {
            lemma_index_same(p, q, i + 1);
        }
    } else {
        lemma_index_from_bounds(p, '/', i);
    }
}

/// A name that can stand between two separators of a path and is not left out of it.
pub open spec fn is_plain_name(n: Seq<char>) -> bool {
    n.len() > 0 && !n.contains('/') && n != seq!['.'] && n != seq!['.', '.']
}

/// A name below a directory is the last component of the path, and the directory's components
/// are all the others; a separator at the end makes no difference.
pub proof fn law_path_below(dir: Seq<char>, n: Seq<char>)
    requires
        dir.len() > 0,
        is_plain_name(n),
    ensures
        components_of(dir + seq!['/'] + n) == components_of(dir).push(n),
        file_name_of(dir + seq!['/'] + n) == Some(n),
        components_of(dir + seq!['/']) == components_of(dir),
{
    let p = dir + seq!['/'] + n;
    lemma_spans_below(dir, n, 0);
    lemma_spans(dir, 0);
    let s = spans(dir, 0);
    let d = dir.len() as int;
    assert(spans(p, 0) == s.push((d + 1, p.len() as int)));
    assert(slices(p, spans(p, 0)) =~= slices(dir, s).push(n)) by {
        assert forall|k: int| 0 <= k < s.len() implies p.subrange(s[k].0, s[k].1) == dir.subrange(
            s[k].0,
            s[k].1,
        ) by {
            assert(s[k].1 <= dir.len());
            assert(p.subrange(s[k].0, s[k].1) =~= dir.subrange(s[k].0, s[k].1));
        }
        assert(p.subrange(d + 1, p.len() as int) =~= n);
    }
    assert(p[0] == dir[0]);
    assert(components_of(p) =~= components_of(dir).push(n));
    assert(n != seq!['/']) by {
        assert(n.contains(n[0]));
        if n == seq!['/'] {
            assert(n[0] == '/');
        }
    }
    let q = dir + seq!['/'];
    lemma_spans_slash(dir, 0);
    assert(q[0] == dir[0]);
    assert(slices(q, s) =~= slices(dir, s)) by {
        assert forall|k: int| 0 <= k < s.len() implies q.subrange(s[k].0, s[k].1) == dir.subrange(
            s[k].0,
            s[k].1,
        ) by {
            assert(s[k].1 <= dir.len());
            assert(q.subrange(s[k].0, s[k].1) =~= dir.subrange(s[k].0, s[k].1));
        }
    }
}

proof fn lemma_spans_below(dir: Seq<char>, n: Seq<char>, i: int)
    requires
        0 <= i <= dir.len(),
        dir.len() > 0,
        n.len() > 0 && !n.contains('/') && n != seq!['.'],
    ensures
        spans(dir + seq!['/'] + n, i) == spans(dir, i).push(
            (dir.len() as int + 1, (dir + seq!['/'] + n).len() as int),
        ),
    decreases dir.len() - i,
{
    let p = dir + seq!['/'] + n;
    let d = dir.len() as int;
    let j = index_from(dir, '/', i);
    lemma_index_from_bounds(dir, '/', i);
    assert(p[d] == '/');
    assert forall|k: int| i <= k < j implies p[k] != '/' by {
        assert(p[k] == dir[k]);
    }
    if j < d {
        assert(p[j] == dir[j]);
    }
    crate::text::lemma_index_from_is(p, '/', i, j);
    assert(p.subrange(i, j) =~= dir.subrange(i, j));
    if j < d {
        lemma_spans_below(dir, n, j + 1);
        assert(spans(p, i) =~= spans(dir, i).push((d + 1, p.len() as int)));
    } else {
        let e = p.len() as int;
        assert forall|k: int| d + 1 <= k < e implies p[k] != '/' by {
            assert(n.contains(n[k - d - 1]));
        }
        crate::text::lemma_index_from_is(p, '/', d + 1, e);
        assert(p.subrange(d + 1, e) =~= n);
        assert(spans(p, d + 1) =~= seq![(d + 1, e)]);
        assert(spans(p, i) =~= spans(dir, i).push((d + 1, e)));
    }
}

proof fn lemma_spans_slash(dir: Seq<char>, i: int)
    requires
        0 <= i <= dir.len(),
    ensures
        spans(dir + seq!['/'], i) == spans(dir, i),
    decreases dir.len() - i,
{
    let p = dir + seq!['/'];
    let d = dir.len() as int;
    let j = index_from(dir, '/', i);
    lemma_index_from_bounds(dir, '/', i);
    assert(p[d] == '/');
    assert forall|k: int| i <= k < j implies p[k] != '/' by {
        assert(p[k] == dir[k]);
    }
    if j < d {
        assert(p[j] == dir[j]);
    }
    crate::text::lemma_index_from_is(p, '/', i, j);
    assert(p.subrange(i, j) =~= dir.subrange(i, j));
    if j < d {
        lemma_spans_slash(dir, j + 1);
        assert(spans(p, i) =~= spans(dir, i));
    } else {
        assert(index_from(p, '/', d + 1) == d + 1);
        assert(spans(p, d + 1) =~= Seq::empty());
        assert(spans(p, i) =~= spans(dir, i));
    }
}

/// Joining puts the name below the directory, with one separator between them; a path from the
/// root stands by itself.
pub proof fn law_joined_path(dir: Seq<char>, n: Seq<char>, p: Seq<char>)
    requires
        dir.len() > 0,
        is_plain_name(n),
    ensures
        components_of(path_joined(dir, n)) == components_of(dir).push(n),
        file_name_of(path_joined(dir, n)) == Some(n),
        path_joined(dir + seq!['/'], n) == dir + seq!['/'] + n,
        dir.last() != '/' ==> path_joined(dir, n) == dir + seq!['/'] + n,
        has_root(p) ==> path_joined(dir, p) == p,
        path_joined(Seq::empty(), p) == p,
{
    assert(n.contains(n[0]));
    assert(Seq::<char>::empty() + p =~= p);
    let e = dir + seq!['/'];
    assert(e.last() == '/');
    if dir.last() != '/' {
        law_path_below(dir, n);
    } else {
        let q = dir.drop_last();
        assert(dir =~= q + seq!['/']);
        if q.len() > 0 {
            law_path_below(q, n);
        } else {
            let r = seq!['/'] + n;
            assert(path_joined(dir, n) =~= r);
            lemma_spans_below_root(n);
            assert(r.subrange(1, r.len() as int) =~= n);
            assert(slices(r, spans(r, 0)) =~= seq![n]);
            assert(components_of(r) =~= seq![seq!['/']].push(n));
            assert(spans(dir, 0) =~= Seq::empty()) by {
                assert(index_from(dir, '/', 0) == 0);
                assert(index_from(dir, '/', 1) == 1);
                assert(spans(dir, 1) =~= Seq::empty());
            }
            assert(slices(dir, spans(dir, 0)) =~= Seq::empty());
            assert(components_of(dir) =~= seq![seq!['/']]);
            assert(n != seq!['/']) by {
                if n == seq!['/'] {
                    assert(n[0] == '/');
                }
            }
        }
    }
}

proof fn lemma_spans_below_root(n: Seq<char>)
    requires
        is_plain_name(n),
    ensures
        spans(seq!['/'] + n, 0) == seq![(1int, n.len() as int + 1)],
{
    let r = seq!['/'] + n;
    let e = r.len() as int;
    assert(r[0] == '/');
    assert(index_from(r, '/', 0) == 0);
    assert forall|k: int| 1 <= k < e implies r[k] != '/' by {
        assert(n.contains(n[k - 1]));
    }
    crate::text::lemma_index_from_is(r, '/', 1, e);
    assert(r.subrange(1, e) =~= n);
    assert(spans(r, 1) =~= seq![(1int, e)]);
    assert(spans(r, 0) =~= seq![(1int, e)]);
}

/// The parent of a path below a directory has the components of that directory, and its name is
/// that of the directory.
pub proof fn law_parent_of_joined(dir: Seq<char>, n: Seq<char>)
    requires
        dir.len() > 0,
        is_plain_name(n),
    ensures
        parent_of(path_joined(dir, n)) matches Some(q) && components_of(q) == components_of(dir),
        parent_name_of(path_joined(dir, n)) == file_name_of(dir),
{
    let p = path_joined(dir, n);
    law_joined_path(dir, n, Seq::empty());
    law_parent_components(p);
    let c = components_of(p);
    assert(c.drop_last() =~= components_of(dir));
    if spans(p, 0).len() == 0 {
        assert(slices(p, spans(p, 0)).len() == 0);
        assert(c.last() == n);
        if has_root(p) {
            assert(c =~= seq![seq!['/']]);
            assert(n == seq!['/']);
            assert(n.contains('/')) by {
                assert(n[0] == '/');
            }
        }
    }
    if c.len() >= 2 {
        assert(c[c.len() - 2] == components_of(dir).last());
    }
}

/// A file name is its stem and its extension with a dot between them, where it has an extension:
/// what follows its last dot, unless the dot is its first character. Else it is its own stem.
pub proof fn law_stem_and_extension(p: Seq<char>)
    ensures
        file_name_of(p) is None <==> file_stem_of(p) is None,
        file_name_of(p) is None ==> extension_of(p) is None,
        file_name_of(p) matches Some(f) ==> {
            &&& extension_of(p) matches Some(e) ==> f == file_stem_of(p)->0 + seq!['.'] + e
                && !e.contains('.') && file_stem_of(p)->0.len() > 0
            &&& extension_of(p) is None ==> file_stem_of(p) == Some(f) && forall|k: int|
                1 <= k < f.len() ==> f[k] != '.'
        },
{
    if file_name_of(p) is Some {
        let f = file_name_of(p)->0;
        let i = last_index(f, '.', f.len() as int);
        lemma_last_index(f, '.', f.len() as int);
        if i > 0 {
            assert(f =~= f.take(i) + seq!['.'] + f.skip(i + 1));
            let e = f.skip(i + 1);
            if e.contains('.') {
                let k = choose|k: int| 0 <= k < e.len() && e[k] == '.';
                assert(f[i + 1 + k] == '.');
            }
        }
    }
}

proof fn lemma_last_index(s: Seq<char>, c: char, n: int)
    requires
        0 <= n <= s.len(),
    ensures
        -1 <= last_index(s, c, n) < n || n == 0 && last_index(s, c, n) == -1,
        last_index(s, c, n) >= 0 ==> s[last_index(s, c, n)] == c,
        forall|k: int| 0 <= k < n && k > last_index(s, c, n) ==> s[k] != c,
    decreases n,
{
    if n > 0 && s[n - 1] != c {
        lemma_last_index(s, c, n - 1);
    }
}

/// What a path is below a root is what its components have beyond those of the root, where it
/// begins with them; a path elsewhere is whole.
pub proof fn law_below(root: Seq<char>, n: Seq<char>, p: Seq<char>)
    requires
        root.len() > 0,
        is_plain_name(n),
    ensures
        below(root, path_joined(root, n)) == seq![n],
        below(root, root).len() == 0,
        below(root, p) == components_of(p) || components_of(root) + below(root, p)
            == components_of(p),
{
    law_joined_path(root, n, p);
    let r = components_of(root);
    let c = components_of(p);
    assert(r.push(n).take(r.len() as int) =~= r);
    assert(r.push(n).skip(r.len() as int) =~= seq![n]);
    assert(r.take(r.len() as int) =~= r);
    if r.len() <= c.len() && c.take(r.len() as int) == r {
        assert(r + c.skip(r.len() as int) =~= c);
    }
}

/// A single dot below a directory is left out of the path, and two dots are a component that is
/// no file name.
pub proof fn law_dots(dir: Seq<char>)
    requires
        dir.len() > 0,
    ensures
        components_of(dir + seq!['/'] + seq!['.']) == components_of(dir),
        components_of(dir + seq!['/'] + seq!['.', '.']) == components_of(dir).push(seq!['.', '.']),
        file_name_of(dir + seq!['/'] + seq!['.', '.']) is None,
        file_name_of(Seq::empty()) is None,
{
    let dd = seq!['.', '.'];
    assert(!dd.contains('/'));
    assert(dd != seq!['.']) by {
        assert(dd.len() == 2);
    }
    lemma_spans_below(dir, dd, 0);
    lemma_spans(dir, 0);
    let s = spans(dir, 0);
    let p = dir + seq!['/'] + dd;
    let d = dir.len() as int;
    assert(slices(p, spans(p, 0)) =~= slices(dir, s).push(dd)) by {
        assert forall|k: int| 0 <= k < s.len() implies p.subrange(s[k].0, s[k].1) == dir.subrange(
            s[k].0,
            s[k].1,
        ) by {
            assert(s[k].1 <= dir.len());
            assert(p.subrange(s[k].0, s[k].1) =~= dir.subrange(s[k].0, s[k].1));
        }
        assert(p.subrange(d + 1, p.len() as int) =~= dd);
    }
    assert(p[0] == dir[0]);
    assert(components_of(p) =~= components_of(dir).push(dd));
    lemma_spans_dot(dir, 0);
    let q = dir + seq!['/'] + seq!['.'];
    assert(q[0] == dir[0]);
    assert(slices(q, s) =~= slices(dir, s)) by {
        assert forall|k: int| 0 <= k < s.len() implies q.subrange(s[k].0, s[k].1) == dir.subrange(
            s[k].0,
            s[k].1,
        ) by {
            assert(s[k].1 <= dir.len());
            assert(q.subrange(s[k].0, s[k].1) =~= dir.subrange(s[k].0, s[k].1));
        }
    }
    assert(components_of(q) =~= components_of(dir));
    let e = Seq::<char>::empty();
    assert(index_from(e, '/', 0) == 0);
    assert(spans(e, 0) =~= Seq::empty());
    assert(components_of(e).len() == 0);
}

proof fn lemma_spans_dot(dir: Seq<char>, i: int)
    requires
        0 <= i <= dir.len(),
        dir.len() > 0,
    ensures
        spans(dir + seq!['/'] + seq!['.'], i) == spans(dir, i),
    decreases dir.len() - i,
{
    let p = dir + seq!['/'] + seq!['.'];
    let d = dir.len() as int;
    let j = index_from(dir, '/', i);
    lemma_index_from_bounds(dir, '/', i);
    assert(p[d] == '/');
    assert forall|k: int| i <= k < j implies p[k] != '/' by {
        assert(p[k] == dir[k]);
    }
    if j < d {
        assert(p[j] == dir[j]);
    }
    crate::text::lemma_index_from_is(p, '/', i, j);
    assert(p.subrange(i, j) =~= dir.subrange(i, j));
    if j < d {
        lemma_spans_dot(dir, j + 1);
        assert(spans(p, i) =~= spans(dir, i));
    } else {
        let e = p.len() as int;
        assert(e == d + 2);
        assert(p[d + 1] == '.');
        crate::text::lemma_index_from_is(p, '/', d + 1, e);
        assert(p.subrange(d + 1, e) =~= seq!['.']);
        assert(spans(p, d + 1) =~= Seq::empty());
        assert(spans(p, i) =~= spans(dir, i));
    }
}

/// A name with a dot in it has as its extension what follows the last dot, whatever the directory.
pub proof fn law_extension(dir: Seq<char>, stem: Seq<char>, ext: Seq<char>)
    requires
        dir.len() > 0,
        stem.len() > 0,
        !stem.contains('/'),
        !ext.contains('/'),
        !ext.contains('.'),
        ext.len() > 0,
    ensures
        extension_of(path_joined(dir, stem + seq!['.'] + ext)) == Some(ext),
        file_stem_of(path_joined(dir, stem + seq!['.'] + ext)) == Some(stem),
{
    let n = stem + seq!['.'] + ext;
    assert(!n.contains('/')) by {
        if n.contains('/') {
            let k = choose|k: int| 0 <= k < n.len() && n[k] == '/';
            if k < stem.len() {
                assert(stem.contains(stem[k]));
            } else if k > stem.len() {
                assert(ext.contains(ext[k - stem.len() - 1]));
            }
        }
    }
    assert(n != seq!['.', '.']) by {
        if n == seq!['.', '.'] {
            assert(n.len() == 2);
        }
    }
    assert(n != seq!['.']) by {
        if n == seq!['.'] {
            assert(n.len() == 1);
        }
    }
    law_joined_path(dir, n, n);
    let i = stem.len() as int;
    lemma_last_index(n, '.', n.len() as int);
    let l = last_index(n, '.', n.len() as int);
    assert(n[i] == '.');
    assert(l == i) by {
        if l > i {
            assert(ext.contains(ext[l - i - 1]));
        }
    }
    assert(n.skip(i + 1) =~= ext);
    assert(n.take(i) =~= stem);
}

}
