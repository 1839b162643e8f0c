//! Directory names and containment.
use vstd::prelude::*;
use vstd::string::*;
use crate::error::{Error, Result};
use crate::paths::{
    below, components, is_below, is_within, join_path, joined_path, lemma_join_plain, lexical,
    lexical_components, plain_name, split_path, within,
};
use crate::text::{joined, to_chars};

verus! {

/// A character that a directory name keeps as it is, other than the hyphen.
pub open spec fn is_solid(c: char) -> bool {
    ||| 'a' <= c <= 'z'
    ||| 'A' <= c <= 'Z'
    ||| '0' <= c <= '9'
    ||| c == '_'
}

/// The maximal runs of solid characters of `s`, in order.
pub open spec fn solid_runs(s: Seq<char>) -> Seq<Seq<char>>
    decreases s.len(),
{
    if s.len() == 0 {
        seq![]
    } else {
        let before = solid_runs(s.drop_last());
        if !is_solid(s.last()) {
            before
        } else if s.len() > 1 && is_solid(s[s.len() - 2]) {
            before.drop_last().push(before.last().push(s.last()))
        } else {
            before.push(seq![s.last()])
        }
    }
}

/// A key as a directory name: its runs of letters, digits and underscores,
/// with one hyphen between each two.
pub open spec fn sanitized(key: Seq<char>) -> Seq<char> {
    joined(solid_runs(key), "-"@)
}

fn solid(c: char) -> (r: bool)
    ensures
        r == is_solid(c),
{
    ('a' <= c && c <= 'z') || ('A' <= c && c <= 'Z') || ('0' <= c && c <= '9') || c == '_'
}

/// Each run holds solid characters only, and at least one.
proof fn lemma_runs(s: Seq<char>)
    ensures
        forall|i: int| #![trigger solid_runs(s)[i]]
            0 <= i < solid_runs(s).len() ==> solid_runs(s)[i].len() > 0 && forall|k: int|
                0 <= k < solid_runs(s)[i].len() ==> is_solid(#[trigger] solid_runs(s)[i][k]),
        s.len() > 0 && is_solid(s.last()) ==> solid_runs(s).len() > 0,
    decreases s.len(),
{
    if s.len() > 0 {
        lemma_runs(s.drop_last());
        let before = solid_runs(s.drop_last());
        let now = solid_runs(s);
        assert forall|i: int| #![trigger now[i]] 0 <= i < now.len() implies now[i].len() > 0
            && forall|k: int| 0 <= k < now[i].len() ==> is_solid(#[trigger] now[i][k]) by {
            if i < before.len() {
                let b = before[i];
                assert(forall|k: int| 0 <= k < b.len() ==> is_solid(#[trigger] b[k]));
            }
        }
    }
}

proof fn lemma_joined_extend(r: Seq<Seq<char>>, sep: Seq<char>, c: char)
    requires
        r.len() > 0,
    ensures
        joined(r.drop_last().push(r.last().push(c)), sep) == joined(r, sep).push(c),
{
    let t = r.drop_last().push(r.last().push(c));
    assert(t.drop_last() =~= r.drop_last());
    assert(joined(t, sep) =~= joined(r, sep).push(c));
}

/// Sanitize an issue key for use as a directory name.
/// Keeps alphanumeric, hyphens, underscores. Replaces everything else with '-'.
/// Collapses consecutive hyphens. Trims leading/trailing hyphens.
pub fn sanitize_key(key: &str) -> (r: String)
    ensures
        r@ == sanitized(key@),
{
    let v = to_chars(key);
    let mut out = String::new();
    let mut started = false;
    let mut inside = false;
    let mut i: usize = 0;
    while i < v.len()
        invariant
            i <= v@.len(),
            out@ == joined(solid_runs(v@.take(i as int)), "-"@),
            started == (solid_runs(v@.take(i as int)).len() > 0),
            inside == (i > 0 && is_solid(v@[i - 1])),
        decreases v@.len() - i,
    {
        let c = v[i];
        let ghost now = v@.take(i as int);
        let ghost next = v@.take(i + 1);
        let ghost runs = solid_runs(now);
        assert(next.drop_last() =~= now);
        assert(next.last() == c);
        if solid(c) {
            if inside {
                proof {
                    lemma_runs(now);
                    assert(now.last() == v@[i - 1]);
                    assert(next[next.len() - 2] == v@[i - 1]);
                    lemma_joined_extend(runs, "-"@, c);
                }
            } else {
                proof {
                    assert(i > 0 ==> next[next.len() - 2] == v@[i - 1]);
                    assert(solid_runs(next) =~= runs.push(seq![c]));
                    assert(runs.push(seq![c]).drop_last() =~= runs);
                }
                if started {
                    out.append("-");
                }
            }
            let ghost so_far = out@;
            out.push(c);
            assert(out@ =~= so_far + seq![c]);
            assert(out@ =~= joined(solid_runs(next), "-"@));
            started = true;
            inside = true;
        } else {
            inside = false;
        }
        i += 1;
    }
    assert(v@.take(i as int) =~= v@);
    out
}

/// A string that `sanitize_key` could have returned: letters, digits,
/// underscores and hyphens, with no hyphen first, last, or next to another.
pub open spec fn is_clean(s: Seq<char>) -> bool {
    &&& forall|i: int| 0 <= i < s.len() ==> is_solid(#[trigger] s[i]) || s[i] == '-'
    &&& s.len() > 0 ==> s[0] != '-' && s.last() != '-'
    &&& forall|i: int| 0 < i < s.len() && (#[trigger] s[i]) == '-' ==> s[i - 1] != '-'
}

proof fn lemma_joined_clean(r: Seq<Seq<char>>)
    requires
        forall|i: int| #![trigger r[i]]
            0 <= i < r.len() ==> r[i].len() > 0 && forall|k: int|
                0 <= k < r[i].len() ==> is_solid(#[trigger] r[i][k]),
    ensures
        is_clean(joined(r, "-"@)),
        r.len() > 0 ==> joined(r, "-"@).len() > 0,
    decreases r.len(),
{
    reveal_strlit("-");
    if r.len() == 1 {
        let s = r[0];
        assert(forall|k: int| 0 <= k < s.len() ==> is_solid(#[trigger] s[k]));
    } else if r.len() > 1 {
        assert forall|i: int| #![trigger r.drop_last()[i]]
            0 <= i < r.drop_last().len() implies r.drop_last()[i].len() > 0 && forall|k: int|
            0 <= k < r.drop_last()[i].len() ==> is_solid(#[trigger] r.drop_last()[i][k]) by {
            assert(r.drop_last()[i] == r[i]);
        }
        lemma_joined_clean(r.drop_last());
        let a = joined(r.drop_last(), "-"@);
        let b = r.last();
        assert(b == r[r.len() - 1]);
        assert(forall|k: int| 0 <= k < b.len() ==> is_solid(#[trigger] b[k]));
        let s = joined(r, "-"@);
        assert(s =~= a + seq!['-'] + b);
        assert forall|i: int| 0 <= i < s.len() implies is_solid(#[trigger] s[i]) || s[i] == '-' by {
            if i < a.len() {
                assert(s[i] == a[i]);
            } else if i > a.len() {
                assert(s[i] == b[i - a.len() - 1]);
            }
        }
        assert forall|i: int| 0 < i < s.len() && (#[trigger] s[i]) == '-' implies s[i - 1] != '-' by {
            if i < a.len() {
                assert(s[i] == a[i] && s[i - 1] == a[i - 1]);
            } else if i == a.len() {
                assert(s[i - 1] == a.last());
            } else {
                assert(s[i] == b[i - a.len() - 1]);
            }
        }
        assert(s[0] == a[0]);
        assert(s.last() == b.last());
    }
}

/// A sanitized key is made of letters, digits, underscores and hyphens, with no
/// hyphen first, last, or next to another.
pub proof fn law_sanitized_is_clean(key: Seq<char>)
    ensures
        is_clean(sanitized(key)),
{
    lemma_runs(key);
    lemma_joined_clean(solid_runs(key));
}

/// The runs of a clean string are what its hyphens separate.
proof fn lemma_clean_runs(s: Seq<char>)
    requires
        forall|i: int| 0 <= i < s.len() ==> is_solid(#[trigger] s[i]) || s[i] == '-',
        s.len() > 0 ==> s[0] != '-',
        forall|i: int| 0 < i < s.len() && (#[trigger] s[i]) == '-' ==> s[i - 1] != '-',
    ensures
        s.len() > 0 ==> solid_runs(s).len() > 0,
        s == if s.len() > 0 && s.last() == '-' {
            joined(solid_runs(s), "-"@).push('-')
        } else {
            joined(solid_runs(s), "-"@)
        },
    decreases s.len(),
{
    reveal_strlit("-");
    if s.len() > 0 {
        let t = s.drop_last();
        assert forall|i: int| 0 <= i < t.len() implies is_solid(#[trigger] t[i]) || t[i] == '-' by {
            assert(t[i] == s[i]);
        }
        assert forall|i: int| 0 < i < t.len() && (#[trigger] t[i]) == '-' implies t[i - 1] != '-' by {
            assert(t[i] == s[i] && t[i - 1] == s[i - 1]);
        }
        lemma_clean_runs(t);
        assert(s =~= t.push(s.last()));
        let runs = solid_runs(t);
        if s.last() == '-' {
            if t.len() > 0 {
                assert(s[s.len() - 1] == '-');
                assert(t.last() == s[s.len() - 2]);
            }
        } else {
            assert(is_solid(s[s.len() - 1]));
            if t.len() > 0 && is_solid(t.last()) {
                assert(t.last() == s[s.len() - 2]);
                lemma_joined_extend(runs, "-"@, s.last());
            } else {
                assert(solid_runs(s) =~= runs.push(seq![s.last()]));
                assert(runs.push(seq![s.last()]).drop_last() =~= runs);
                if t.len() > 0 {
                    assert(is_solid(s[s.len() - 2]) || s[s.len() - 2] == '-');
                    assert(joined(solid_runs(s), "-"@) =~= joined(runs, "-"@) + "-"@ + seq![s.last()]);
                    assert(joined(solid_runs(s), "-"@) =~= s);
                } else {
                    assert(runs =~= seq![]);
                    assert(joined(solid_runs(s), "-"@) =~= s);
                }
            }
        }
    } else {
        assert(joined(solid_runs(s), "-"@) =~= s);
    }
}

/// A key that is a directory name already stays as it is.
pub proof fn law_clean_key_kept(key: Seq<char>)
    requires
        is_clean(key),
    ensures
        sanitized(key) == key,
{
    lemma_clean_runs(key);
}

/// Sanitizing twice is sanitizing once.
pub proof fn law_sanitize_idempotent(key: Seq<char>)
    ensures
        sanitized(sanitized(key)) == sanitized(key),
{
    law_sanitized_is_clean(key);
    law_clean_key_kept(sanitized(key));
}

/// What containment is judged by: the canonical paths where both could be
/// resolved, the lexical ones otherwise.
pub open spec fn is_contained(
    parent: Seq<char>,
    child: Seq<char>,
    canonical: Option<(Seq<char>, Seq<char>)>,
) -> bool {
    match canonical {
        Some((p, c)) => within(components(p), components(c)),
        None => below(lexical(parent), lexical(child)),
    }
}

/// The message for a path outside its parent.
pub open spec fn outside_message(parent: Seq<char>, child: Seq<char>) -> Seq<char> {
    "path "@ + child + " is not contained within "@ + parent
}

/// Verify that `child` is contained within `parent` directory, by the paths alone.
pub fn check_containment(parent: &str, child: &str) -> (r: Result<()>)
    ensures
        match r {
            Ok(_) => is_contained(parent@, child@, None),
            Err(e) => !is_contained(parent@, child@, None) && e is Workspace && e.detail()
                == outside_message(parent@, child@),
        },
{
    check_containment_with(parent, child, &None)
}

/// Verify that `child` is contained within `parent` directory.
///
/// `canonical` holds what the two paths resolve to on disk, where both exist.
pub fn check_containment_with(
    parent: &str,
    child: &str,
    canonical: &Option<(String, String)>,
) -> (r: Result<()>)
    ensures
        match r {
            Ok(_) => is_contained(parent@, child@, canonical.deep_view()),
            Err(e) => !is_contained(parent@, child@, canonical.deep_view()) && e is Workspace
                && e.detail() == outside_message(parent@, child@),
        },
{
    let inside = match canonical {
        Some((p, c)) => {
            let p = split_path(p.as_str());
            let c = split_path(c.as_str());
            is_within(&p, &c)
        },
        None => {
            let p = lexical_components(parent);
            let c = lexical_components(child);
            is_below(&p, &c)
        },
    };
    if inside {
        Ok(())
    } else {
        let mut m = "path ".to_owned();
        m.append(child);
        m.append(" is not contained within ");
        m.append(parent);
        Err(Error::Workspace(m))
    }
}

/// Where the workspace of an issue is.
pub open spec fn workspace_of(root: Seq<char>, key: Seq<char>) -> Seq<char> {
    joined_path(root, sanitized(key))
}

/// Where the workspace of an issue is.
pub fn workspace_path(root: &str, issue_key: &str) -> (r: String)
    ensures
        r@ == workspace_of(root@, issue_key@),
{
    let name = sanitize_key(issue_key);
    join_path(root, name.as_str())
}

/// Get the workspace directory for a given issue key.
///
/// `canonical` holds what the root and the directory resolve to on disk, where
/// both exist.
pub fn workspace_dir(
    root: &str,
    issue_key: &str,
    canonical: &Option<(String, String)>,
) -> (r: Result<String>)
    ensures
        match r {
            Ok(dir) => dir@ == workspace_of(root@, issue_key@) && is_contained(
                root@,
                dir@,
                canonical.deep_view(),
            ),
            Err(e) => !is_contained(
                root@,
                workspace_of(root@, issue_key@),
                canonical.deep_view(),
            ) && e is Workspace && e.detail() == outside_message(
                root@,
                workspace_of(root@, issue_key@),
            ),
        },
{
    let dir = workspace_path(root, issue_key);
    match check_containment_with(root, dir.as_str(), canonical) {
        Ok(_) => Ok(dir),
        Err(e) => Err(e),
    }
}

/// A key that holds a letter, a digit or an underscore is sanitized to a plain
/// name.
pub proof fn lemma_solid_name(key: Seq<char>)
    requires
        exists|i: int| 0 <= i < key.len() && is_solid(#[trigger] key[i]),
    ensures
        plain_name(sanitized(key)),
        sanitized(key).last() != '.',
{
    let name = sanitized(key);
    law_sanitized_is_clean(key);
    let i = choose|i: int| 0 <= i < key.len() && is_solid(#[trigger] key[i]);
    lemma_some_run(key, i);
    lemma_runs(key);
    lemma_joined_clean(solid_runs(key));
    reveal_strlit(".");
    reveal_strlit("..");
    assert(is_solid(name[0]) || name[0] == '-');
    assert(!name.contains('/')) by {
        if name.contains('/') {
            let k = name.index_of('/');
            assert(is_solid(name[k]) || name[k] == '-');
        }
    }
    assert(is_solid(name.last()) || name.last() == '-');
}

/// By the paths alone, the workspace of a key that holds a letter, a digit or
/// an underscore lies directly in the root, whatever else the key holds.
pub proof fn law_workspace_directly_in_root(root: Seq<char>, key: Seq<char>)
    requires
        root.len() > 0,
        exists|i: int| 0 <= i < key.len() && is_solid(#[trigger] key[i]),
    ensures
        lexical(workspace_of(root, key)) == lexical(root).push(sanitized(key)),
        is_contained(root, workspace_of(root, key), None),
{
    let name = sanitized(key);
    lemma_solid_name(key);
    lemma_join_plain(root, name);
    assert(lexical(root).push(name).take(lexical(root).len() as int) =~= lexical(root));
}

proof fn lemma_some_run(s: Seq<char>, i: int)
    requires
        0 <= i < s.len(),
        is_solid(s[i]),
    ensures
        solid_runs(s).len() > 0,
    decreases s.len(),
{
    if i < s.len() - 1 {
        lemma_some_run(s.drop_last(), i);
    } else {
        lemma_runs(s);
    }
}

/// By the paths alone, two keys share a workspace only if they are sanitized to
/// the same name.
pub proof fn law_workspaces_apart(root: Seq<char>, a: Seq<char>, b: Seq<char>)
    requires
        root.len() > 0,
        exists|i: int| 0 <= i < a.len() && is_solid(#[trigger] a[i]),
        exists|i: int| 0 <= i < b.len() && is_solid(#[trigger] b[i]),
        sanitized(a) != sanitized(b),
    ensures
        lexical(workspace_of(root, a)) != lexical(workspace_of(root, b)),
{
    law_workspace_directly_in_root(root, a);
    law_workspace_directly_in_root(root, b);
    assert(lexical(workspace_of(root, a)).last() == sanitized(a));
    assert(lexical(workspace_of(root, b)).last() == sanitized(b));
}

/// A character that directory names keep: an ASCII letter or digit, or an underscore.
pub open spec fn is_word_char(c: char) -> bool {
    'a' <= c <= 'z' || 'A' <= c <= 'Z' || '0' <= c <= '9' || c == '_'
}

proof fn lemma_one_run(s: Seq<char>)
    requires
        s.len() > 0,
        forall|i: int| 0 <= i < s.len() ==> is_word_char(#[trigger] s[i]),
    ensures
        solid_runs(s) == seq![s],
    decreases s.len(),
{
    let t = s.drop_last();
    assert(s.last() == s[s.len() - 1]);
    assert(is_word_char(s[s.len() - 1]));
    if t.len() > 0 {
        assert forall|i: int| 0 <= i < t.len() implies is_word_char(#[trigger] t[i]) by {
            assert(t[i] == s[i]);
        }
        lemma_one_run(t);
        assert(is_word_char(s[s.len() - 2]));
        assert(t.push(s.last()) =~= s);
        assert(solid_runs(s) =~= seq![s]);
    } else {
        assert(solid_runs(t) =~= seq![]);
        assert(s =~= seq![s.last()]);
        assert(solid_runs(s) =~= seq![s]);
    }
}

proof fn lemma_runs_apart(a: Seq<char>, c: char, b: Seq<char>)
    requires
        !is_word_char(c),
    ensures
        solid_runs(a + seq![c] + b) == solid_runs(a) + solid_runs(b),
    decreases b.len(),
{
    let s = a + seq![c] + b;
    if b.len() == 0 {
        assert(s.drop_last() =~= a);
        assert(s.last() == c);
        assert(solid_runs(s) =~= solid_runs(a) + solid_runs(b));
    } else {
        let t = b.drop_last();
        lemma_runs_apart(a, c, t);
        assert(s.drop_last() =~= a + seq![c] + t);
        assert(s.last() == b.last());
        if b.len() == 1 {
            assert(s[s.len() - 2] == c);
            assert(t =~= seq![]);
            assert(solid_runs(s) =~= solid_runs(a) + solid_runs(b));
        } else {
            assert(s[s.len() - 2] == b[b.len() - 2]);
            if is_solid(b.last()) && is_solid(b[b.len() - 2]) {
                lemma_runs(t);
                assert(t.last() == b[b.len() - 2]);
                assert((solid_runs(a) + solid_runs(t)).last() == solid_runs(t).last());
            }
            assert(solid_runs(s) =~= solid_runs(a) + solid_runs(b));
        }
    }
}

/// A key of letters, digits and underscores is its own directory name.
pub proof fn law_word_is_kept(key: Seq<char>)
    requires
        forall|i: int| 0 <= i < key.len() ==> is_word_char(#[trigger] key[i]),
    ensures
        sanitized(key) == key,
{
    if key.len() > 0 {
        lemma_one_run(key);
    } else {
        assert(sanitized(key) =~= key);
    }
}

/// Whatever stands between two words in a key becomes one hyphen in the directory name.
pub proof fn law_other_characters_become_a_hyphen(
    a: Seq<char>,
    gap: Seq<char>,
    b: Seq<char>,
)
    requires
        a.len() > 0,
        b.len() > 0,
        gap.len() > 0,
        forall|i: int| 0 <= i < a.len() ==> is_word_char(#[trigger] a[i]),
        forall|i: int| 0 <= i < b.len() ==> is_word_char(#[trigger] b[i]),
        forall|i: int| 0 <= i < gap.len() ==> !is_word_char(#[trigger] gap[i]),
    ensures
        sanitized(a + gap + b) == a + "-"@ + b,
{
    lemma_one_run(a);
    lemma_one_run(b);
    lemma_gap(a, gap, b);
    assert(seq![a] + seq![b] =~= seq![a, b]);
    let two = seq![a, b];
    assert(two.drop_last() =~= seq![a]);
    reveal_with_fuel(joined, 2);
}

proof fn lemma_gap(a: Seq<char>, gap: Seq<char>, b: Seq<char>)
    requires
        gap.len() > 0,
        forall|i: int| 0 <= i < gap.len() ==> !is_word_char(#[trigger] gap[i]),
    ensures
        solid_runs(a + gap + b) == solid_runs(a) + solid_runs(b),
    decreases gap.len(),
{
    let c = gap.last();
    let before = gap.drop_last();
    assert(!is_word_char(gap[gap.len() - 1]));
    lemma_runs_apart(a + before, c, b);
    assert(a + gap + b =~= (a + before) + seq![c] + b);
    if before.len() > 0 {
        assert forall|i: int| 0 <= i < before.len() implies !is_word_char(#[trigger] before[i]) by {
            assert(before[i] == gap[i]);
        }
        lemma_gap(a, before, seq![]);
        assert(a + before + seq![] =~= a + before);
        assert(solid_runs(seq![]) =~= seq![]);
        assert(solid_runs(a) + solid_runs(seq![]) =~= solid_runs(a));
    } else {
        assert(a + before =~= a);
    }
}

/// Where both paths could be resolved, the child is contained exactly where its
/// components begin with the parent's; otherwise exactly where, with each ".." taken
/// back, they do, and no ".." follows.
pub proof fn law_contained_by_components(
    parent: Seq<char>,
    child: Seq<char>,
    p: Seq<char>,
    c: Seq<char>,
)
    ensures
        is_contained(parent, child, Some((p, c))) <==> components(p).len() <= components(c).len()
            && forall|k: int|
            0 <= k < components(p).len() ==> #[trigger] components(c)[k] == components(p)[k],
        is_contained(parent, child, None) <==> lexical(parent).len() <= lexical(child).len() && (
        forall|k: int|
            0 <= k < lexical(parent).len() ==> #[trigger] lexical(child)[k] == lexical(parent)[k])
            && (forall|k: int|
            lexical(parent).len() <= k < lexical(child).len() ==> #[trigger] lexical(child)[k]
                != ".."@),
{
    let (cp, cc) = (components(p), components(c));
    if cp.len() <= cc.len() && (forall|k: int| 0 <= k < cp.len() ==> #[trigger] cc[k] == cp[k]) {
        assert(cc.take(cp.len() as int) =~= cp);
    }
    if is_contained(parent, child, Some((p, c))) {
        assert forall|k: int| 0 <= k < cp.len() implies #[trigger] cc[k] == cp[k] by {
            assert(cc.take(cp.len() as int)[k] == cc[k]);
        }
    }
    let (lp, lc) = (lexical(parent), lexical(child));
    if lp.len() <= lc.len() && (forall|k: int| 0 <= k < lp.len() ==> #[trigger] lc[k] == lp[k]) {
        assert(lc.take(lp.len() as int) =~= lp);
    }
    if is_contained(parent, child, None) {
        assert forall|k: int| 0 <= k < lp.len() implies #[trigger] lc[k] == lp[k] by {
            assert(lc.take(lp.len() as int)[k] == lc[k]);
        }
    }
}

/// What is said of a path outside its parent names both.
pub proof fn law_outside_names_both(parent: Seq<char>, child: Seq<char>)
    ensures
        outside_message(parent, child) == "path "@ + child + (" is not contained within "@ + parent),
{
    assert(outside_message(parent, child) =~= "path "@ + child + (" is not contained within "@
        + parent));
}

} // verus!
