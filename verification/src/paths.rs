//! Paths as text, with `/` between the components.
use vstd::prelude::*;
use vstd::string::*;
use crate::text::{
    ends_with, has_prefix, has_suffix, join as join_text, joined, lemma_pieces_concat,
    lemma_pieces_single, pieces, slice, split_char, starts_with, str_eq, to_chars, views,
};

verus! {

/// A piece of a path that names something: neither empty nor ".".
pub open spec fn names(piece: Seq<char>) -> bool {
    piece.len() > 0 && piece != "."@
}

/// The pieces among `ps` that name something, in order.
pub open spec fn named(ps: Seq<Seq<char>>) -> Seq<Seq<char>>
    decreases ps.len(),
{
    if ps.len() == 0 {
        seq![]
    } else if names(ps.last()) {
        named(ps.drop_last()).push(ps.last())
    } else {
        named(ps.drop_last())
    }
}

/// The components of a path: "/" first where the path is absolute, then the
/// pieces that name something.
pub open spec fn components(path: Seq<char>) -> Seq<Seq<char>> {
    let rest = named(pieces(path, '/'));
    if has_prefix(path, "/"@) {
        seq!["/"@] + rest
    } else {
        rest
    }
}

/// The components of a path.
pub fn split_path(path: &str) -> (r: Vec<String>)
    ensures
        views(r@) == components(path@),
{
    let ps = split_char(path, '/');
    let mut out: Vec<String> = Vec::new();
    if starts_with(path, "/") {
        out.push("/".to_owned());
    }
    let ghost head = views(out@);
    let ghost all = views(ps@);
    let mut i: usize = 0;
    assert(head + named(all.take(0)) =~= head);
    while i < ps.len()
        invariant
            i <= ps@.len(),
            all == views(ps@),
            views(out@) == head + named(all.take(i as int)),
        decreases ps@.len() - i,
    {
        assert(all.take(i + 1).drop_last() =~= all.take(i as int));
        assert(all[i as int] == ps@[i as int]@);
        let ghost before = views(out@);
        if !ps[i].as_str().is_empty() && !str_eq(ps[i].as_str(), ".") {
            out.push(ps[i].clone());
            assert(views(out@) =~= before.push(all[i as int]));
            assert(head + named(all.take(i as int)).push(all[i as int]) =~= before.push(
                all[i as int],
            ));
        }
        i += 1;
    }
    assert(all.take(i as int) =~= all);
    proof {
        if has_prefix(path@, "/"@) {
            assert(head =~= seq!["/"@]);
        } else {
            assert(head + named(all) =~= named(all));
        }
    }
    out
}

/// The last component of a path, unless the path ends in "..", or has none.
pub open spec fn last_name(path: Seq<char>) -> Option<Seq<char>> {
    let cs = named(pieces(path, '/'));
    if cs.len() == 0 || cs.last() == ".."@ {
        None
    } else {
        Some(cs.last())
    }
}

/// The last component of a path, unless the path ends in "..", or has none.
pub fn file_name(path: &str) -> (r: Option<String>)
    ensures
        r.deep_view() == last_name(path@),
{
    let cs = split_path(path);
    let ghost all = views(cs@);
    let ghost rest = named(pieces(path@, '/'));
    let from: usize = if starts_with(path, "/") {
        1
    } else {
        0
    };
    assert(all.len() == rest.len() + from);
    if cs.len() <= from {
        return None;
    }
    let last = &cs[cs.len() - 1];
    assert(rest.last() == all[all.len() - 1]);
    if str_eq(last.as_str(), "..") {
        None
    } else {
        Some(last.clone())
    }
}

/// The path that `rel` leads to from `base`: `rel` itself where it is absolute.
pub open spec fn joined_path(base: Seq<char>, rel: Seq<char>) -> Seq<char> {
    if has_prefix(rel, "/"@) {
        rel
    } else if base.len() == 0 || has_suffix(base, "/"@) {
        base + rel
    } else {
        base + "/"@ + rel
    }
}

/// The path that `rel` leads to from `base`.
pub fn join_path(base: &str, rel: &str) -> (r: String)
    ensures
        r@ == joined_path(base@, rel@),
{
    if starts_with(rel, "/") {
        return rel.to_owned();
    }
    let mut s = base.to_owned();
    if !base.is_empty() && !ends_with(base, "/") {
        s.append("/");
    }
    s.append(rel);
    s
}

/// Where the last piece that names something ends in the first `n` characters
/// of a path; a "." names something only where the path begins with it.
pub open spec fn body_end(path: Seq<char>, n: int) -> int
    decreases n,
{
    if n <= 0 {
        0
    } else if path[n - 1] == '/' || (n >= 2 && path[n - 1] == '.' && path[n - 2] == '/') {
        body_end(path, n - 1)
    } else {
        n
    }
}

/// Where the piece that ends after `n` characters of a path begins.
pub open spec fn piece_start(path: Seq<char>, n: int) -> int
    decreases n,
{
    if n <= 0 {
        0
    } else if path[n - 1] == '/' {
        n
    } else {
        piece_start(path, n - 1)
    }
}

/// A path without what stands after the first `n` characters: "/" where nothing
/// of an absolute path is left.
pub open spec fn path_up_to(path: Seq<char>, n: int) -> Seq<char> {
    if body_end(path, n) == 0 && has_prefix(path, "/"@) {
        "/"@
    } else {
        path.take(body_end(path, n))
    }
}

/// A path without its last component, if it has one.
pub open spec fn parent_path(path: Seq<char>) -> Option<Seq<char>> {
    let end = body_end(path, path.len() as int);
    if end == 0 {
        None
    } else {
        Some(path_up_to(path, piece_start(path, end)))
    }
}

fn find_body_end(v: &Vec<char>, from: usize) -> (r: usize)
    requires
        from <= v@.len(),
    ensures
        r == body_end(v@, from as int),
        r <= from,
{
    let mut n: usize = from;
    while n > 0 && (v[n - 1] == '/' || (n >= 2 && v[n - 1] == '.' && v[n - 2] == '/'))
        invariant
            n <= from <= v@.len(),
            body_end(v@, n as int) == body_end(v@, from as int),
        decreases n,
    {
        n -= 1;
    }
    n
}

/// A path without its last component, if it has one.
pub fn parent(path: &str) -> (r: Option<String>)
    ensures
        r.deep_view() == parent_path(path@),
{
    let v = to_chars(path);
    let end = find_body_end(&v, v.len());
    if end == 0 {
        return None;
    }
    let mut n: usize = end;
    while n > 0 && v[n - 1] != '/'
        invariant
            n <= end <= v@.len(),
            piece_start(v@, n as int) == piece_start(v@, end as int),
        decreases n,
    {
        n -= 1;
    }
    let kept = find_body_end(&v, n);
    if kept == 0 && starts_with(path, "/") {
        Some("/".to_owned())
    } else {
        assert(v@.subrange(0, kept as int) =~= v@.take(kept as int));
        Some(slice(&v, 0, kept))
    }
}

proof fn lemma_body_end_prefix(a: Seq<char>, b: Seq<char>, n: int)
    requires
        0 <= n <= a.len(),
        n <= b.len(),
        a.take(n) == b.take(n),
    ensures
        body_end(a, n) == body_end(b, n),
        0 <= body_end(a, n) <= n,
    decreases n,
{
    if n > 0 {
        assert(a[n - 1] == a.take(n)[n - 1]);
        assert(b[n - 1] == b.take(n)[n - 1]);
        if n >= 2 {
            assert(a[n - 2] == a.take(n)[n - 2]);
            assert(b[n - 2] == b.take(n)[n - 2]);
        }
        assert(a.take(n).take(n - 1) =~= a.take(n - 1));
        assert(b.take(n).take(n - 1) =~= b.take(n - 1));
        lemma_body_end_prefix(a, b, n - 1);
    }
}

proof fn lemma_piece_start(path: Seq<char>, from: int, to: int)
    requires
        0 <= from <= to <= path.len(),
        from == 0 || path[from - 1] == '/',
        forall|i: int| from <= i < to ==> path[i] != '/',
    ensures
        piece_start(path, to) == from,
    decreases to - from,
{
    if from < to {
        lemma_piece_start(path, from, to - 1);
    }
}

/// The parent of a path joined with a plain name is the path itself, without
/// slashes at its end.
pub proof fn lemma_parent_of_joined(base: Seq<char>, name: Seq<char>)
    requires
        base.len() > 0,
        plain_name(name),
        name.last() != '.',
    ensures
        parent_path(joined_path(base, name)) == Some(path_up_to(base, base.len() as int)),
{
    reveal_strlit("/");
    let p = joined_path(base, name);
    assert(!has_prefix(name, "/"@)) by {
        if has_prefix(name, "/"@) {
            assert(name.subrange(0, 1)[0] == '/');
            assert(name[0] == '/');
        }
    }
    let from = p.len() - name.len();
    assert forall|i: int| from <= i < p.len() implies p[i] != '/' by {
        assert(p[i] == name[i - from]);
    }
    assert(p.last() == name.last());
    if has_suffix(base, "/"@) {
        assert(base.subrange(base.len() - 1, base.len() as int)[0] == '/');
    }
    assert(p[from - 1] == '/');
    lemma_piece_start(p, from, p.len() as int);
    let n = base.len() as int;
    assert(p.take(n) =~= base.take(n));
    lemma_body_end_prefix(p, base, n);
    let k = body_end(p, n);
    assert(p.take(k) =~= base.take(k));
    assert(p.subrange(0, 1) =~= base.subrange(0, 1));
}

/// Components with each ".." taken together with the component before it; above
/// "/" there is only "/" itself, and a ".." that nothing stands before is kept.
pub open spec fn resolved(cs: Seq<Seq<char>>) -> Seq<Seq<char>>
    decreases cs.len(),
{
    if cs.len() == 0 {
        seq![]
    } else {
        let before = resolved(cs.drop_last());
        if cs.last() == ".."@ {
            if before.len() == 0 || before.last() == ".."@ {
                before.push(cs.last())
            } else if before.last() == "/"@ {
                before
            } else {
                before.drop_last()
            }
        } else {
            before.push(cs.last())
        }
    }
}

/// The components that a path comes down to without looking at any file.
pub open spec fn lexical(path: Seq<char>) -> Seq<Seq<char>> {
    resolved(components(path))
}

/// The path with the given components.
pub open spec fn path_text(cs: Seq<Seq<char>>) -> Seq<char> {
    if cs.len() > 0 && cs[0] == "/"@ {
        "/"@ + joined(cs.skip(1), "/"@)
    } else {
        joined(cs, "/"@)
    }
}

/// The components that a path comes down to without looking at any file.
pub fn lexical_components(path: &str) -> (r: Vec<String>)
    ensures
        views(r@) == lexical(path@),
{
    let cs = split_path(path);
    let mut out: Vec<String> = Vec::new();
    let ghost all = views(cs@);
    let mut i: usize = 0;
    assert(views(out@) =~= resolved(all.take(0)));
    while i < cs.len()
        invariant
            i <= cs@.len(),
            all == views(cs@),
            views(out@) == resolved(all.take(i as int)),
        decreases cs@.len() - i,
    {
        assert(all.take(i + 1).drop_last() =~= all.take(i as int));
        assert(all[i as int] == cs@[i as int]@);
        let ghost before = views(out@);
        if str_eq(cs[i].as_str(), "..") {
            let n = out.len();
            if n == 0 || str_eq(out[n - 1].as_str(), "..") {
                out.push(cs[i].clone());
                assert(views(out@) =~= before.push(all[i as int]));
            } else if !str_eq(out[n - 1].as_str(), "/") {
                let _ = out.pop();
                assert(views(out@) =~= before.drop_last());
            }
        } else {
            out.push(cs[i].clone());
            assert(views(out@) =~= before.push(all[i as int]));
        }
        i += 1;
    }
    assert(all.take(i as int) =~= all);
    out
}

/// Simple lexical path normalization (resolve `.` and `..` without touching the filesystem).
pub fn normalize_lexical(path: &str) -> (r: String)
    ensures
        r@ == path_text(lexical(path@)),
{
    let cs = lexical_components(path);
    let ghost all = views(cs@);
    if cs.len() > 0 && str_eq(cs[0].as_str(), "/") {
        let mut rest: Vec<String> = Vec::new();
        let mut i: usize = 1;
        while i < cs.len()
            invariant
                1 <= i <= cs@.len(),
                all == views(cs@),
                views(rest@) == all.subrange(1, i as int),
            decreases cs@.len() - i,
        {
            let ghost before = views(rest@);
            rest.push(cs[i].clone());
            assert(views(rest@) =~= before.push(all[i as int]));
            assert(all.subrange(1, i + 1) =~= before.push(all[i as int]));
            i += 1;
        }
        assert(all.subrange(1, i as int) =~= all.skip(1));
        let mut s = "/".to_owned();
        let t = join_text(&rest, "/");
        s.append(t.as_str());
        s
    } else {
        join_text(&cs, "/")
    }
}

/// The components of `inner` begin with those of `outer`.
pub open spec fn within(outer: Seq<Seq<char>>, inner: Seq<Seq<char>>) -> bool {
    outer.len() <= inner.len() && inner.take(outer.len() as int) == outer
}

/// Whether the components of `inner` begin with those of `outer`.
pub fn is_within(outer: &Vec<String>, inner: &Vec<String>) -> (r: bool)
    ensures
        r == within(views(outer@), views(inner@)),
{
    if outer.len() > inner.len() {
        return false;
    }
    let ghost o = views(outer@);
    let ghost n = views(inner@);
    let mut i: usize = 0;
    while i < outer.len()
        invariant
            i <= outer@.len() <= inner@.len(),
            o == views(outer@),
            n == views(inner@),
            forall|k: int| 0 <= k < i ==> #[trigger] o[k] == n[k],
        decreases outer@.len() - i,
    {
        if !str_eq(outer[i].as_str(), inner[i].as_str()) {
            assert(o[i as int] != n.take(o.len() as int)[i as int]);
            return false;
        }
        assert(o[i as int] == n[i as int]);
        i += 1;
    }
    assert(n.take(o.len() as int) =~= o);
    true
}

/// What `inner` has beyond the components of `outer` leads nowhere up.
pub open spec fn below(outer: Seq<Seq<char>>, inner: Seq<Seq<char>>) -> bool {
    &&& within(outer, inner)
    &&& forall|k: int| outer.len() <= k < inner.len() ==> #[trigger] inner[k] != ".."@
}

/// Whether `inner` has the components of `outer`, and beyond them leads nowhere
/// up.
pub fn is_below(outer: &Vec<String>, inner: &Vec<String>) -> (r: bool)
    ensures
        r == below(views(outer@), views(inner@)),
{
    if !is_within(outer, inner) {
        return false;
    }
    let ghost o = views(outer@);
    let ghost n = views(inner@);
    let mut i: usize = outer.len();
    while i < inner.len()
        invariant
            outer@.len() <= i <= inner@.len(),
            o == views(outer@),
            n == views(inner@),
            within(o, n),
            forall|k: int| o.len() <= k < i ==> #[trigger] n[k] != ".."@,
        decreases inner@.len() - i,
    {
        assert(n[i as int] == inner@[i as int]@);
        if str_eq(inner[i].as_str(), "..") {
            return false;
        }
        i += 1;
    }
    true
}

/// A name that can be one component of a path.
pub open spec fn plain_name(name: Seq<char>) -> bool {
    &&& names(name)
    &&& name != ".."@
    &&& !name.contains('/')
}

proof fn lemma_named_concat(a: Seq<Seq<char>>, b: Seq<Seq<char>>)
    ensures
        named(a + b) == named(a) + named(b),
    decreases b.len(),
{
    if b.len() == 0 {
        assert(a + b =~= a);
        assert(named(a) + named(b) =~= named(a));
    } else {
        lemma_named_concat(a, b.drop_last());
        assert((a + b).drop_last() =~= a + b.drop_last());
        assert((a + b).last() == b.last());
        assert(named(a + b) =~= named(a) + named(b));
    }
}

/// Joining a plain name to a path that is not empty adds that name to what the
/// path comes down to.
pub proof fn lemma_join_plain(base: Seq<char>, name: Seq<char>)
    requires
        base.len() > 0,
        plain_name(name),
    ensures
        lexical(joined_path(base, name)) == lexical(base).push(name),
{
    reveal_strlit("/");
    reveal_with_fuel(named, 2);
    let p = joined_path(base, name);
    assert(!has_prefix(name, "/"@)) by {
        if has_prefix(name, "/"@) {
            assert(name.subrange(0, 1)[0] == '/');
            assert(name[0] == '/');
        }
    }
    let stem = if has_suffix(base, "/"@) {
        base.drop_last()
    } else {
        base
    };
    if has_suffix(base, "/"@) {
        assert(base.subrange(base.len() - 1, base.len() as int)[0] == '/');
        assert(base.last() == '/');
        assert(base =~= stem + seq!['/'] + Seq::<char>::empty());
        assert(p =~= stem + seq!['/'] + name);
        lemma_pieces_concat(stem, Seq::<char>::empty(), '/');
        lemma_pieces_single(Seq::<char>::empty(), '/');
        lemma_named_concat(pieces(stem, '/'), seq![Seq::<char>::empty()]);
        let e = seq![Seq::<char>::empty()];
        assert(e.drop_last() =~= seq![]);
        assert(named(e) =~= seq![]);
        assert(named(pieces(base, '/')) =~= named(pieces(stem, '/')));
    } else {
        assert("/"@ =~= seq!['/']);
        assert(p =~= stem + seq!['/'] + name);
    }
    lemma_pieces_concat(stem, name, '/');
    lemma_pieces_single(name, '/');
    lemma_named_concat(pieces(stem, '/'), seq![name]);
    let one = seq![name];
    assert(one.drop_last() =~= seq![]);
    assert(named(one) =~= seq![name]);
    assert(named(pieces(p, '/')) =~= named(pieces(base, '/')).push(name));
    assert(has_prefix(p, "/"@) == has_prefix(base, "/"@)) by {
        assert(p[0] == base[0]);
        assert(p.subrange(0, 1) =~= base.subrange(0, 1));
    }
    assert(components(p) =~= components(base).push(name));
    assert(components(p).drop_last() =~= components(base));
}

/// Only pieces that are neither empty nor "." name something; they keep their order.
pub proof fn law_pieces_that_name(
    a: Seq<Seq<char>>,
    b: Seq<Seq<char>>,
)
    ensures
        named(a + b) == named(a) + named(b),
        a.len() == 1 ==> named(a) == (if a[0].len() > 0 && a[0] != "."@ {
            seq![a[0]]
        } else {
            seq![]
        }),
    decreases b.len(),
{
    if a.len() == 1 {
        assert(a.drop_last() =~= seq![]);
        reveal_with_fuel(named, 2);
        assert(a.last() == a[0]);
        assert(named(a) =~= (if a[0].len() > 0 && a[0] != "."@ {
            seq![a[0]]
        } else {
            seq![]
        }));
    }
    if b.len() > 0 {
        law_pieces_that_name(a, b.drop_last());
        assert((a + b).drop_last() =~= a + b.drop_last());
        assert(named(a + b) =~= named(a) + named(b));
    } else {
        assert(a + b =~= a);
        assert(named(a) + named(b) =~= named(a));
    }
}

/// An absolute path begins with "/", before what its pieces name.
pub proof fn law_components_of_a_path(path: Seq<char>)
    ensures
        path.len() > 0 && path[0] == '/' ==> components(path) == seq!["/"@] + named(
            pieces(path, '/'),
        ),
        path.len() == 0 || path[0] != '/' ==> components(path) == named(pieces(path, '/')),
{
    reveal_strlit("/");
    let slash = "/"@;
    assert(slash.len() == 1 && slash[0] == '/');
    if path.len() > 0 && path[0] == '/' {
        assert(path.subrange(0, 1) =~= slash);
    }
    if has_prefix(path, slash) {
        assert(path.subrange(0, 1)[0] == path[0]);
    }
}

/// A ".." takes back the component before it; above the root there is only the root,
/// and a ".." with nothing to take back stays. Any other component is added.
pub proof fn law_up_takes_back(cs: Seq<Seq<char>>, name: Seq<char>)
    requires
        name != ".."@,
    ensures
        resolved(seq![]).len() == 0,
        resolved(cs.push(name)) == resolved(cs).push(name),
        name != "/"@ ==> resolved(cs.push(name).push(".."@)) == resolved(cs),
        resolved(cs.push("/"@).push(".."@)) == resolved(cs.push("/"@)),
        resolved(cs).len() == 0 || resolved(cs).last() == ".."@ ==> resolved(cs.push(".."@))
            == resolved(cs).push(".."@),
{
    reveal_strlit("..");
    reveal_strlit("/");
    assert("/"@.len() == 1 && ".."@.len() == 2);
    assert(cs.push(name).drop_last() =~= cs);
    assert(cs.push("/"@).drop_last() =~= cs);
    assert(cs.push(".."@).drop_last() =~= cs);
    assert(cs.push(name).push(".."@).drop_last() =~= cs.push(name));
    assert(cs.push("/"@).push(".."@).drop_last() =~= cs.push("/"@));
    let r = resolved(cs.push(name));
    assert(r == resolved(cs).push(name));
    assert(r.last() == name);
    assert(r.drop_last() =~= resolved(cs));
    if name != "/"@ {
        let up = cs.push(name).push(".."@);
        assert(up.last() == ".."@);
        assert(resolved(up) == r.drop_last());
    }
}

/// An absolute path is joined as itself; a relative one stands behind the base and one
/// slash, which is not doubled.
pub proof fn law_joined_paths(base: Seq<char>, rel: Seq<char>)
    requires
        rel.len() > 0,
    ensures
        rel[0] == '/' ==> joined_path(base, rel) == rel,
        rel[0] != '/' && base.len() == 0 ==> joined_path(base, rel) == rel,
        rel[0] != '/' && base.len() > 0 && base.last() == '/' ==> joined_path(base, rel) == base
            + rel,
        rel[0] != '/' && base.len() > 0 && base.last() != '/' ==> joined_path(base, rel) == base
            + seq!['/'] + rel,
{
    reveal_strlit("/");
    let slash = "/"@;
    assert(slash =~= seq!['/']);
    if rel[0] == '/' {
        assert(rel.subrange(0, 1) =~= slash);
    }
    if has_prefix(rel, slash) {
        assert(rel.subrange(0, 1)[0] == rel[0]);
    }
    if base.len() > 0 {
        let n = base.len() as int;
        assert(base.subrange(n - 1, n - 1 + 1) =~= seq![base.last()]);
        if has_suffix(base, slash) {
            assert(base.subrange(n - 1, n)[0] == base.last());
        }
    } else {
        assert(base + rel =~= rel);
    }
}

/// The last name of a path is the name that was joined to it.
pub proof fn law_last_name_is_the_joined(base: Seq<char>, name: Seq<char>)
    requires
        name.len() > 0,
        name != "."@,
        name != ".."@,
        !name.contains('/'),
    ensures
        last_name(name) == Some(name),
        last_name(base + seq!['/'] + name) == Some(name),
        last_name(base + seq!['/'] + ".."@) is None,
{
    let one = seq![name];
    let up = seq![".."@];
    reveal_strlit("..");
    reveal_strlit(".");
    assert(".."@.len() == 2 && "."@.len() == 1);
    reveal_with_fuel(named, 2);
    assert(one.drop_last() =~= seq![]);
    assert(up.drop_last() =~= seq![]);
    assert(named(one) =~= seq![name]);
    assert(named(up) =~= seq![".."@]);
    assert(!".."@.contains('/'));
    lemma_pieces_single(name, '/');
    lemma_pieces_single(".."@, '/');
    lemma_pieces_concat(base, name, '/');
    lemma_pieces_concat(base, ".."@, '/');
    lemma_named_concat(pieces(base, '/'), one);
    lemma_named_concat(pieces(base, '/'), up);
}

/// A path written from its components has one slash between each two, and one before
/// them where it is absolute.
pub proof fn law_path_written(cs: Seq<Seq<char>>)
    ensures
        cs.len() > 0 && cs[0] != "/"@ ==> path_text(cs) == joined(cs, "/"@),
        path_text(seq!["/"@] + cs) == "/"@ + joined(cs, "/"@),
        path_text(seq![]).len() == 0,
{
    assert((seq!["/"@] + cs).skip(1) =~= cs);
}

/// The parent of a name in a directory is the directory.
pub proof fn law_parent_is_the_directory(base: Seq<char>, name: Seq<char>)
    requires
        base.len() > 0,
        base.last() != '/',
        base.last() != '.',
        plain_name(name),
        name.last() != '.',
    ensures
        parent_path(base + seq!['/'] + name) == Some(base),
{
    reveal_strlit("/");
    lemma_parent_of_joined(base, name);
    law_joined_paths(base, name);
    assert(name[0] != '/') by {
        if name[0] == '/' {
            assert(name.contains('/'));
        }
    }
    assert(body_end(base, base.len() as int) == base.len());
    assert(base.take(base.len() as int) =~= base);
}

} // verus!
