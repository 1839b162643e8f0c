//! Text as sequences of characters: the string operations the rest of the
//! crate is written with, each stated over `Seq<char>`.
use vstd::prelude::*;
use vstd::string::*;

verus! {

/// `String::push` appends the given character to the end of the string.
pub assume_specification[ String::push ](s: &mut String, c: char)
    ensures
        final(s)@ == old(s)@.push(c),
;

/// Whether a character has the Unicode `White_Space` property.
pub open spec fn is_space(c: char) -> bool {
    let n = c as u32;
    ||| 0x9 <= n <= 0xd
    ||| n == 0x20
    ||| n == 0x85
    ||| n == 0xa0
    ||| n == 0x1680
    ||| 0x2000 <= n <= 0x200a
    ||| n == 0x2028
    ||| n == 0x2029
    ||| n == 0x202f
    ||| n == 0x205f
    ||| n == 0x3000
}

/// Whether a character is Unicode white space.
pub fn is_whitespace(c: char) -> (r: bool)
    ensures
        r == is_space(c),
{
    let n: u32 = c as u32;
    (0x9 <= n && n <= 0xd) || n == 0x20 || n == 0x85 || n == 0xa0 || n == 0x1680 || (0x2000 <= n
        && n <= 0x200a) || n == 0x2028 || n == 0x2029 || n == 0x202f || n == 0x205f || n == 0x3000
}

/// The characters of a string, in order.
pub fn to_chars(s: &str) -> (v: Vec<char>)
    ensures
        v@ == s@,
{
    let mut v: Vec<char> = Vec::new();
    for c in it: s.chars()
        invariant
            v@ == s@.take(it.index() as int),
            it.seq() == s@,
    {
        v.push(c);
    }
    v
}

/// The string made of `v[from..to]`.
pub fn slice(v: &Vec<char>, from: usize, to: usize) -> (s: String)
    requires
        from <= to <= v@.len(),
    ensures
        s@ == v@.subrange(from as int, to as int),
{
    let mut s = String::new();
    let mut i: usize = from;
    while i < to
        invariant
            from <= i <= to <= v@.len(),
            s@ == v@.subrange(from as int, i as int),
        decreases to - i,
    {
        s.push(v[i]);
        i += 1;
    }
    s
}

/// Whether two strings hold the same characters.
pub fn str_eq(a: &str, b: &str) -> (r: bool)
    ensures
        r == (a@ == b@),
{
    a.to_owned() == b.to_owned()
}

/// Whether an optional string is present and equal to `b`.
pub fn opt_str_eq(a: &Option<String>, b: &str) -> (r: bool)
    ensures
        r == (a is Some && a->0@ == b@),
{
    match a {
        Some(s) => str_eq(s.as_str(), b),
        None => false,
    }
}

/// `a` followed by `b`.
pub fn cat2(a: &str, b: &str) -> (s: String)
    ensures
        s@ == a@ + b@,
{
    let mut s = a.to_owned();
    s.append(b);
    s
}

/// `a`, `b` and `c`, one after the other.
pub fn cat3(a: &str, b: &str, c: &str) -> (s: String)
    ensures
        s@ == a@ + b@ + c@,
{
    let mut s = a.to_owned();
    s.append(b);
    s.append(c);
    s
}

/// `p` stands in `s` at position `i`.
pub open spec fn occurs_at(s: Seq<char>, p: Seq<char>, i: int) -> bool {
    &&& 0 <= i
    &&& i + p.len() <= s.len()
    &&& s.subrange(i, i + p.len()) == p
}

/// The first position at or after `from` at which `p` stands in `s`.
pub open spec fn find_from(s: Seq<char>, p: Seq<char>, from: int) -> Option<int>
    decreases s.len() + 1 - from,
{
    if from + p.len() > s.len() {
        None
    } else if occurs_at(s, p, from) {
        Some(from)
    } else {
        find_from(s, p, from + 1)
    }
}

/// `p` stands somewhere in `s`.
pub open spec fn has(s: Seq<char>, p: Seq<char>) -> bool {
    find_from(s, p, 0) is Some
}

/// `s` begins with `p`.
pub open spec fn has_prefix(s: Seq<char>, p: Seq<char>) -> bool {
    occurs_at(s, p, 0)
}

/// `s` ends with `p`.
pub open spec fn has_suffix(s: Seq<char>, p: Seq<char>) -> bool {
    occurs_at(s, p, s.len() - p.len())
}

/// `s` without the prefix `p`, where it has that prefix.
pub open spec fn without_prefix(s: Seq<char>, p: Seq<char>) -> Seq<char> {
    if has_prefix(s, p) {
        s.skip(p.len() as int)
    } else {
        s
    }
}

/// `s` without the suffix `p`, where it has that suffix.
pub open spec fn without_suffix(s: Seq<char>, p: Seq<char>) -> Seq<char> {
    if has_suffix(s, p) {
        s.take(s.len() - p.len())
    } else {
        s
    }
}

/// What `find_from` answers is the least position from which `p` stands in `s`.
pub proof fn lemma_find_from(s: Seq<char>, p: Seq<char>, from: int)
    requires
        0 <= from,
    ensures
        match find_from(s, p, from) {
            Some(i) => from <= i && occurs_at(s, p, i) && forall|j: int|
                from <= j < i ==> !#[trigger] occurs_at(s, p, j),
            None => forall|j: int| from <= j ==> !#[trigger] occurs_at(s, p, j),
        },
    decreases s.len() + 1 - from,
{
    if from + p.len() > s.len() {
    } else if occurs_at(s, p, from) {
    } else {
        lemma_find_from(s, p, from + 1);
    }
}

/// Whether `p` stands in `s` at position `i`.
pub fn matches_at(s: &Vec<char>, p: &Vec<char>, i: usize) -> (r: bool)
    ensures
        r == occurs_at(s@, p@, i as int),
{
    if i > s.len() || p.len() > s.len() - i {
        return false;
    }
    let mut k: usize = 0;
    while k < p.len()
        invariant
            k <= p@.len(),
            i + p@.len() <= s.len(),
            forall|j: int| 0 <= j < k ==> s@[i + j] == p@[j],
        decreases p@.len() - k,
    {
        if s[i + k] != p[k] {
            assert(s@.subrange(i as int, i + p@.len())[k as int] != p@[k as int]);
            return false;
        }
        k += 1;
    }
    assert(s@.subrange(i as int, i + p@.len()) =~= p@);
    true
}

/// The first position at or after `from` at which `p` stands in `s`.
pub fn find_chars(s: &Vec<char>, p: &Vec<char>, from: usize) -> (r: Option<usize>)
    ensures
        match r {
            Some(i) => find_from(s@, p@, from as int) == Some(i as int) && from <= i && i + p@.len()
                <= s@.len() && i + p@.len() <= usize::MAX,
            None => find_from(s@, p@, from as int) is None,
        },
{
    let mut i: usize = from;
    while i <= s.len() && p.len() <= s.len() - i
        invariant
            from <= i,
            i <= s@.len() + 1 || i == from,
            find_from(s@, p@, from as int) == find_from(s@, p@, i as int),
        decreases s@.len() + 1 - i,
    {
        if matches_at(s, p, i) {
            return Some(i);
        }
        if i == usize::MAX {
            assert(s@.subrange(i as int, i + p@.len()) =~= p@);
            return None;
        }
        i += 1;
    }
    None
}

/// Whether `p` stands somewhere in `s`.
pub fn contains(s: &str, p: &str) -> (r: bool)
    ensures
        r == has(s@, p@),
{
    let sv = to_chars(s);
    let pv = to_chars(p);
    find_chars(&sv, &pv, 0).is_some()
}

/// Whether `s` begins with `p`.
pub fn starts_with(s: &str, p: &str) -> (r: bool)
    ensures
        r == has_prefix(s@, p@),
{
    let sv = to_chars(s);
    let pv = to_chars(p);
    matches_at(&sv, &pv, 0)
}

/// Whether `s` ends with `p`.
pub fn ends_with(s: &str, p: &str) -> (r: bool)
    ensures
        r == has_suffix(s@, p@),
{
    let sv = to_chars(s);
    let pv = to_chars(p);
    if pv.len() > sv.len() {
        return false;
    }
    matches_at(&sv, &pv, sv.len() - pv.len())
}

/// What follows the prefix `p` of `s`, where `s` has that prefix.
pub fn strip_prefix(s: &str, p: &str) -> (r: Option<String>)
    ensures
        match r {
            Some(t) => has_prefix(s@, p@) && t@ == s@.skip(p@.len() as int),
            None => !has_prefix(s@, p@),
        },
{
    let sv = to_chars(s);
    let pv = to_chars(p);
    if matches_at(&sv, &pv, 0) {
        Some(slice(&sv, pv.len(), sv.len()))
    } else {
        None
    }
}

/// What precedes the suffix `p` of `s`, where `s` has that suffix.
pub fn strip_suffix(s: &str, p: &str) -> (r: Option<String>)
    ensures
        match r {
            Some(t) => has_suffix(s@, p@) && t@ == s@.take(s@.len() - p@.len()),
            None => !has_suffix(s@, p@),
        },
{
    let sv = to_chars(s);
    let pv = to_chars(p);
    if pv.len() <= sv.len() && matches_at(&sv, &pv, sv.len() - pv.len()) {
        Some(slice(&sv, 0, sv.len() - pv.len()))
    } else {
        None
    }
}

/// The first position at or after `i` that holds no white space, or the end.
pub open spec fn skip_space(s: Seq<char>, i: int) -> int
    decreases s.len() - i,
{
    if 0 <= i < s.len() && is_space(s[i]) {
        skip_space(s, i + 1)
    } else {
        i
    }
}

/// The least `j` in `i..=k` such that `s[j..k]` is all white space.
pub open spec fn back_space(s: Seq<char>, k: int, i: int) -> int
    decreases k - i,
{
    if i < k <= s.len() && is_space(s[k - 1]) {
        back_space(s, k - 1, i)
    } else {
        k
    }
}

/// `s` without the white space at its start and at its end.
pub open spec fn trimmed(s: Seq<char>) -> Seq<char> {
    let i = skip_space(s, 0);
    s.subrange(i, back_space(s, s.len() as int, i))
}

/// The bounds of the trimmed part of `v[from..to]`.
pub fn trim_bounds(v: &Vec<char>, from: usize, to: usize) -> (r: (usize, usize))
    requires
        from <= to <= v@.len(),
    ensures
        from <= r.0 <= r.1 <= to,
        v@.subrange(r.0 as int, r.1 as int) == trimmed(v@.subrange(from as int, to as int)),
{
    let ghost t = v@.subrange(from as int, to as int);
    let mut i: usize = from;
    while i < to && is_whitespace(v[i])
        invariant
            from <= i <= to <= v@.len(),
            t == v@.subrange(from as int, to as int),
            skip_space(t, 0) == skip_space(t, i - from),
        decreases to - i,
    {
        i += 1;
    }
    let mut k: usize = to;
    while i < k && is_whitespace(v[k - 1])
        invariant
            from <= i <= k <= to <= v@.len(),
            t == v@.subrange(from as int, to as int),
            back_space(t, t.len() as int, i - from) == back_space(t, k - from, i - from),
        decreases k - i,
    {
        k -= 1;
    }
    assert(v@.subrange(i as int, k as int) =~= t.subrange(i - from, k - from));
    (i, k)
}

/// `s` without the white space at its start and at its end.
pub fn trim(s: &str) -> (r: String)
    ensures
        r@ == trimmed(s@),
{
    let v = to_chars(s);
    let (i, k) = trim_bounds(&v, 0, v.len());
    assert(v@.subrange(0, v@.len() as int) =~= v@);
    slice(&v, i, k)
}

/// Trimming a string that begins and ends with no white space changes nothing.
pub proof fn lemma_trimmed_fixed(s: Seq<char>)
    requires
        s.len() > 0 ==> !is_space(s[0]) && !is_space(s[s.len() - 1]),
    ensures
        trimmed(s) == s,
{
    assert(trimmed(s) =~= s);
}

/// The first position at or after `i` that holds white space, or the end.
pub open spec fn word_end(s: Seq<char>, i: int) -> int
    decreases s.len() - i,
{
    if 0 <= i < s.len() && !is_space(s[i]) {
        word_end(s, i + 1)
    } else {
        i
    }
}

/// The words of `s` from position `i` on: the maximal runs without white space.
pub open spec fn words_from(s: Seq<char>, i: int) -> Seq<Seq<char>>
    decreases s.len() - i,
{
    let a = skip_space(s, i);
    if 0 <= i <= a < s.len() {
        let b = word_end(s, a + 1);
        if a < b <= s.len() {
            seq![s.subrange(a, b)] + words_from(s, b)
        } else {
            seq![]
        }
    } else {
        seq![]
    }
}

/// The words of `s`.
pub open spec fn words(s: Seq<char>) -> Seq<Seq<char>> {
    words_from(s, 0)
}

/// The items of `parts` with `sep` between each two of them.
pub open spec fn joined(parts: Seq<Seq<char>>, sep: Seq<char>) -> Seq<char>
    decreases parts.len(),
{
    if parts.len() == 0 {
        seq![]
    } else if parts.len() == 1 {
        parts[0]
    } else {
        joined(parts.drop_last(), sep) + sep + parts.last()
    }
}

/// The views of a sequence of strings.
pub open spec fn views(v: Seq<String>) -> Seq<Seq<char>> {
    v.map_values(|s: String| s@)
}

/// The words of `s`, in order.
pub fn split_whitespace(s: &str) -> (r: Vec<String>)
    ensures
        views(r@) == words(s@),
{
    let v = to_chars(s);
    let mut out: Vec<String> = Vec::new();
    let mut i: usize = 0;
    assert(views(out@) + words_from(v@, 0) =~= words(v@));
    while i < v.len()
        invariant
            i <= v@.len(),
            v@ == s@,
            views(out@) + words_from(v@, i as int) == words(v@),
        decreases v@.len() - i,
    {
        let ghost start = i as int;
        let mut a: usize = i;
        while a < v.len() && is_whitespace(v[a])
            invariant
                i <= a <= v@.len(),
                skip_space(v@, i as int) == skip_space(v@, a as int),
            decreases v@.len() - a,
        {
            a += 1;
        }
        if a == v.len() {
            assert(views(out@) + words_from(v@, i as int) =~= views(out@));
            return out;
        }
        let mut b: usize = a + 1;
        while b < v.len() && !is_whitespace(v[b])
            invariant
                a < b <= v@.len(),
                word_end(v@, a + 1) == word_end(v@, b as int),
            decreases v@.len() - b,
        {
            b += 1;
        }
        let w = slice(&v, a, b);
        let ghost before = out@;
        out.push(w);
        assert(views(out@) =~= views(before).push(v@.subrange(a as int, b as int)));
        assert(views(out@) + words_from(v@, b as int) =~= views(before) + words_from(v@, start));
        i = b;
    }
    assert(words_from(v@, i as int) =~= seq![]);
    assert(views(out@) + words_from(v@, i as int) =~= views(out@));
    out
}

/// The strings of `parts` with `sep` between each two of them.
pub fn join(parts: &Vec<String>, sep: &str) -> (r: String)
    ensures
        r@ == joined(views(parts@), sep@),
{
    if parts.len() == 0 {
        return String::new();
    }
    let mut out = parts[0].clone();
    let mut i: usize = 1;
    let ghost all = views(parts@);
    assert(all.take(1) =~= seq![parts@[0]@]);
    while i < parts.len()
        invariant
            1 <= i <= parts@.len(),
            all == views(parts@),
            out@ == joined(all.take(i as int), sep@),
        decreases parts@.len() - i,
    {
        out.append(sep);
        out.append(parts[i].as_str());
        assert(all.take(i + 1).drop_last() =~= all.take(i as int));
        i += 1;
    }
    assert(all.take(i as int) =~= all);
    out
}

/// The pieces of `s` between the `c`s; one more than there are `c`s.
pub open spec fn pieces(s: Seq<char>, c: char) -> Seq<Seq<char>>
    decreases s.len(),
{
    if s.len() == 0 {
        seq![seq![]]
    } else {
        let before = pieces(s.drop_last(), c);
        if s.last() == c {
            before.push(seq![])
        } else {
            before.drop_last().push(before.last().push(s.last()))
        }
    }
}

pub proof fn lemma_pieces_nonempty(s: Seq<char>, c: char)
    ensures
        pieces(s, c).len() >= 1,
    decreases s.len(),
{
    if s.len() > 0 {
        lemma_pieces_nonempty(s.drop_last(), c);
    }
}

/// No piece holds the separator.
pub proof fn lemma_pieces_clean(s: Seq<char>, c: char)
    ensures
        forall|i: int| 0 <= i < pieces(s, c).len() ==> !(#[trigger] pieces(s, c)[i]).contains(c),
    decreases s.len(),
{
    if s.len() > 0 {
        lemma_pieces_clean(s.drop_last(), c);
        lemma_pieces_nonempty(s.drop_last(), c);
        let before = pieces(s.drop_last(), c);
        if s.last() != c {
            let grown = before.last().push(s.last());
            assert(!grown.contains(c)) by {
                if grown.contains(c) {
                    let k = grown.index_of(c);
                    assert(before.last()[k] == c);
                    assert(before.last().contains(c));
                    assert(before[before.len() - 1].contains(c));
                }
            }
        }
    }
}

/// A text without the separator is its own only piece.
pub proof fn lemma_pieces_single(s: Seq<char>, c: char)
    requires
        !s.contains(c),
    ensures
        pieces(s, c) == seq![s],
    decreases s.len(),
{
    if s.len() > 0 {
        assert(!s.drop_last().contains(c)) by {
            if s.drop_last().contains(c) {
                let k = s.drop_last().index_of(c);
                assert(s[k] == c);
            }
        }
        lemma_pieces_single(s.drop_last(), c);
        assert(s[s.len() - 1] != c);
        assert(s.drop_last().push(s.last()) =~= s);
        assert(pieces(s, c) =~= seq![s]);
    } else {
        assert(s =~= seq![]);
    }
}

/// The pieces of `a`, a separator and `b` are those of `a`, then those of `b`.
pub proof fn lemma_pieces_concat(a: Seq<char>, b: Seq<char>, c: char)
    ensures
        pieces(a + seq![c] + b, c) == pieces(a, c) + pieces(b, c),
    decreases b.len(),
{
    let s = a + seq![c] + b;
    if b.len() == 0 {
        assert(s.drop_last() =~= a);
        assert(pieces(s, c) =~= pieces(a, c) + pieces(b, c));
    } else {
        lemma_pieces_concat(a, b.drop_last(), c);
        lemma_pieces_nonempty(b.drop_last(), c);
        assert(s.drop_last() =~= a + seq![c] + b.drop_last());
        assert(pieces(s, c) =~= pieces(a, c) + pieces(b, c));
    }
}

/// The pieces of `s` between the `c`s.
pub fn split_char(s: &str, c: char) -> (r: Vec<String>)
    ensures
        views(r@) == pieces(s@, c),
        r@.len() >= 1,
{
    let v = to_chars(s);
    let mut out: Vec<String> = Vec::new();
    let mut current = String::new();
    let mut i: usize = 0;
    assert(views(out@).push(current@) =~= pieces(v@.take(0), c));
    while i < v.len()
        invariant
            i <= v@.len(),
            views(out@).push(current@) == pieces(v@.take(i as int), c),
        decreases v@.len() - i,
    {
        let ghost all = views(out@).push(current@);
        assert(v@.take(i + 1).drop_last() =~= v@.take(i as int));
        assert(v@.take(i + 1).last() == v@[i as int]);
        if v[i] == c {
            let ghost before = out@;
            let ghost piece = current@;
            out.push(current);
            current = String::new();
            assert(views(out@) =~= views(before).push(piece));
        } else {
            current.push(v[i]);
            assert(all.drop_last() =~= views(out@));
        }
        i += 1;
    }
    assert(v@.take(i as int) =~= v@);
    let ghost before = out@;
    let ghost piece = current@;
    out.push(current);
    assert(views(out@) =~= views(before).push(piece));
    out
}

/// A line without the carriage return before its line feed.
pub open spec fn without_return(s: Seq<char>) -> Seq<char> {
    if s.len() > 0 && s.last() == '\r' {
        s.drop_last()
    } else {
        s
    }
}

/// The lines of `s`: what stands before each line feed, without the carriage
/// return that may precede it, and what follows the last one, if anything does.
pub open spec fn text_lines(s: Seq<char>) -> Seq<Seq<char>> {
    let p = pieces(s, '\n');
    let ended = p.drop_last().map_values(|l: Seq<char>| without_return(l));
    if p.last().len() == 0 {
        ended
    } else {
        ended.push(p.last())
    }
}

/// The lines of `s`.
pub fn lines(s: &str) -> (r: Vec<String>)
    ensures
        views(r@) == text_lines(s@),
{
    let p = split_char(s, '\n');
    let ghost ps = pieces(s@, '\n');
    let n: usize = p.len() - 1;
    let mut out: Vec<String> = Vec::new();
    let mut i: usize = 0;
    while i < n
        invariant
            i <= n,
            n + 1 == p@.len(),
            ps == views(p@),
            views(out@) == ps.take(i as int).map_values(|l: Seq<char>| without_return(l)),
        decreases n - i,
    {
        let v = to_chars(p[i].as_str());
        let line = if v.len() > 0 && v[v.len() - 1] == '\r' {
            slice(&v, 0, v.len() - 1)
        } else {
            slice(&v, 0, v.len())
        };
        assert(v@ == ps[i as int]);
        assert(line@ =~= without_return(ps[i as int]));
        let ghost before = out@;
        out.push(line);
        assert(views(out@) =~= views(before).push(line@));
        assert(ps.take(i + 1).map_values(|l: Seq<char>| without_return(l)) =~= ps.take(
            i as int,
        ).map_values(|l: Seq<char>| without_return(l)).push(without_return(ps[i as int])));
        i += 1;
    }
    assert(ps.take(n as int) =~= ps.drop_last());
    if !p[n].as_str().is_empty() {
        let ghost before = out@;
        out.push(p[n].clone());
        assert(views(out@) =~= views(before).push(ps.last()));
    }
    out
}

/// The decimal digits of a number.
pub open spec fn decimal(n: nat) -> Seq<char>
    decreases n,
{
    if n < 10 {
        seq![digit(n)]
    } else {
        decimal(n / 10).push(digit(n % 10))
    }
}

/// The character of a digit.
pub open spec fn digit(d: nat) -> char {
    (('0' as u32) + d) as char
}

/// A number in decimal.
pub fn decimal_string(n: u64) -> (s: String)
    ensures
        s@ == decimal(n as nat),
    decreases n,
{
    let mut s = if n < 10 {
        String::new()
    } else {
        decimal_string(n / 10)
    };
    let d: u8 = (n % 10) as u8;
    s.push((48u8 + d) as char);
    s
}

/// How many bytes a character takes in UTF-8.
pub open spec fn char_width(c: char) -> nat {
    let n = c as u32;
    if n < 0x80 {
        1
    } else if n < 0x800 {
        2
    } else if n < 0x10000 {
        3
    } else {
        4
    }
}

/// How many bytes a text takes in UTF-8.
pub open spec fn byte_len(s: Seq<char>) -> nat
    decreases s.len(),
{
    if s.len() == 0 {
        0
    } else {
        byte_len(s.drop_last()) + char_width(s.last())
    }
}

pub proof fn lemma_byte_len_concat(a: Seq<char>, b: Seq<char>)
    ensures
        byte_len(a + b) == byte_len(a) + byte_len(b),
    decreases b.len(),
{
    if b.len() == 0 {
        assert(a + b =~= a);
    } else {
        lemma_byte_len_concat(a, b.drop_last());
        assert((a + b).drop_last() =~= a + b.drop_last());
    }
}

/// A text takes at least as many bytes as each text that stands in it.
pub proof fn lemma_byte_len_has(s: Seq<char>, p: Seq<char>)
    requires
        has(s, p),
    ensures
        byte_len(p) <= byte_len(s),
{
    lemma_find_from(s, p, 0);
    let i = find_from(s, p, 0)->0;
    let head = s.take(i);
    let tail = s.skip(i + p.len());
    assert(s =~= head + p + tail);
    lemma_byte_len_concat(head + p, tail);
    lemma_byte_len_concat(head, p);
}

/// How many bytes a string takes in UTF-8.
pub fn utf8_len(s: &str) -> (n: u128)
    ensures
        n == byte_len(s@),
{
    let v = to_chars(s);
    let mut n: u128 = 0;
    let mut i: usize = 0;
    while i < v.len()
        invariant
            i <= v@.len(),
            n == byte_len(v@.take(i as int)),
            n <= 4 * i,
        decreases v@.len() - i,
    {
        let c: u32 = v[i] as u32;
        let w: u128 = if c < 0x80 {
            1
        } else if c < 0x800 {
            2
        } else if c < 0x10000 {
            3
        } else {
            4
        };
        assert(v@.take(i + 1).drop_last() =~= v@.take(i as int));
        n = n + w;
        i += 1;
    }
    assert(v@.take(i as int) =~= v@);
    n
}

/// `a` comes before `b`: character by character, a text before its extensions.
pub open spec fn precedes(a: Seq<char>, b: Seq<char>) -> bool
    decreases a.len(),
{
    if b.len() == 0 {
        false
    } else if a.len() == 0 {
        true
    } else if a[0] == b[0] {
        precedes(a.skip(1), b.skip(1))
    } else {
        a[0] < b[0]
    }
}

/// Whether `a` comes before `b`.
pub fn less_than(a: &str, b: &str) -> (r: bool)
    ensures
        r == precedes(a@, b@),
{
    let x = to_chars(a);
    let y = to_chars(b);
    let mut i: usize = 0;
    assert(x@.skip(0) =~= x@);
    assert(y@.skip(0) =~= y@);
    while i < x.len() && i < y.len()
        invariant
            i <= x@.len(),
            i <= y@.len(),
            x@ == a@,
            y@ == b@,
            precedes(a@, b@) == precedes(x@.skip(i as int), y@.skip(i as int)),
        decreases x@.len() - i,
    {
        let ghost p = x@.skip(i as int);
        let ghost q = y@.skip(i as int);
        assert(p[0] == x@[i as int] && q[0] == y@[i as int]);
        assert(p.skip(1) =~= x@.skip(i + 1));
        assert(q.skip(1) =~= y@.skip(i + 1));
        if x[i] != y[i] {
            return x[i] < y[i];
        }
        i += 1;
    }
    i < y.len()
}

/// An ASCII letter in lower case; any other character as it is.
pub open spec fn ascii_lower(c: char) -> char {
    if 'A' <= c <= 'Z' {
        (c as u32 + 32) as char
    } else {
        c
    }
}

/// An ASCII letter in upper case; any other character as it is.
pub open spec fn ascii_upper(c: char) -> char {
    if 'a' <= c <= 'z' {
        (c as u32 - 32) as char
    } else {
        c
    }
}

/// A text with its ASCII letters in lower case.
pub open spec fn ascii_lowered(s: Seq<char>) -> Seq<char> {
    s.map_values(|c: char| ascii_lower(c))
}

/// A text with its ASCII letters in upper case.
pub open spec fn ascii_uppered(s: Seq<char>) -> Seq<char> {
    s.map_values(|c: char| ascii_upper(c))
}

fn lower_char(c: char) -> (r: char)
    ensures
        r == ascii_lower(c),
{
    if 'A' <= c && c <= 'Z' {
        ((c as u32 as u8) + 32) as char
    } else {
        c
    }
}

fn upper_char(c: char) -> (r: char)
    ensures
        r == ascii_upper(c),
{
    if 'a' <= c && c <= 'z' {
        ((c as u32 as u8) - 32) as char
    } else {
        c
    }
}

/// Whether two strings are equal but for the case of ASCII letters.
pub fn eq_ignore_ascii_case(a: &str, b: &str) -> (r: bool)
    ensures
        r == (ascii_lowered(a@) == ascii_lowered(b@)),
{
    let x = to_chars(a);
    let y = to_chars(b);
    if x.len() != y.len() {
        assert(ascii_lowered(x@).len() != ascii_lowered(y@).len());
        return false;
    }
    let mut i: usize = 0;
    while i < x.len()
        invariant
            i <= x@.len() == y@.len(),
            x@ == a@,
            y@ == b@,
            forall|k: int| 0 <= k < i ==> ascii_lower(#[trigger] x@[k]) == ascii_lower(y@[k]),
        decreases x@.len() - i,
    {
        if lower_char(x[i]) != lower_char(y[i]) {
            assert(ascii_lowered(x@)[i as int] != ascii_lowered(y@)[i as int]);
            return false;
        }
        i += 1;
    }
    assert(ascii_lowered(x@) =~= ascii_lowered(y@));
    true
}

/// A string with its ASCII letters in upper case.
pub fn to_ascii_uppercase(s: &str) -> (r: String)
    ensures
        r@ == ascii_uppered(s@),
{
    let v = to_chars(s);
    let mut out = String::new();
    let mut i: usize = 0;
    while i < v.len()
        invariant
            i <= v@.len(),
            out@ == ascii_uppered(v@.take(i as int)),
        decreases v@.len() - i,
    {
        out.push(upper_char(v[i]));
        assert(ascii_uppered(v@.take(i + 1)) =~= ascii_uppered(v@.take(i as int)).push(
            ascii_upper(v@[i as int]),
        ));
        i += 1;
    }
    assert(v@.take(i as int) =~= v@);
    out
}

/// The first `n` characters of a string, or all where there are fewer.
pub fn truncate(s: &str, n: usize) -> (r: String)
    ensures
        r@ == if s@.len() > n {
            s@.take(n as int)
        } else {
            s@
        },
{
    let v = to_chars(s);
    if v.len() > n {
        assert(v@.subrange(0, n as int) =~= v@.take(n as int));
        slice(&v, 0, n)
    } else {
        s.to_owned()
    }
}

/// `s` from position `i` on, with each `from` in it, from left to right,
/// replaced by `to`.
pub open spec fn replaced_from(s: Seq<char>, from: Seq<char>, to: Seq<char>, i: int) -> Seq<char>
    decreases s.len() - i,
{
    match find_from(s, from, i) {
        Some(k) => if 0 <= i <= k && k + from.len() <= s.len() && from.len() > 0 {
            s.subrange(i, k) + to + replaced_from(s, from, to, k + from.len())
        } else {
            s.skip(i)
        },
        None => s.skip(i),
    }
}

/// `s` with each `from` in it, from left to right, replaced by `to`.
pub open spec fn replaced(s: Seq<char>, from: Seq<char>, to: Seq<char>) -> Seq<char> {
    replaced_from(s, from, to, 0)
}

/// `s` with each `from` in it replaced by `to`.
pub fn replace(s: &str, from: &str, to: &str) -> (r: String)
    requires
        from@.len() > 0,
    ensures
        r@ == replaced(s@, from@, to@),
{
    let v = to_chars(s);
    let p = to_chars(from);
    let mut out = String::new();
    let mut i: usize = 0;
    assert(out@ + replaced_from(v@, p@, to@, 0) =~= replaced(v@, p@, to@));
    loop
        invariant
            i <= v.len(),
            v@ == s@,
            p@ == from@,
            p@.len() > 0,
            out@ + replaced_from(v@, p@, to@, i as int) == replaced(v@, p@, to@),
        decreases v@.len() - i,
    {
        let ghost before = out@;
        match find_chars(&v, &p, i) {
            Some(k) => {
                let head = slice(&v, i, k);
                out.append(head.as_str());
                out.append(to);
                assert(out@ + replaced_from(v@, p@, to@, k + p@.len()) =~= before + replaced_from(
                    v@,
                    p@,
                    to@,
                    i as int,
                ));
                i = k + p.len();
            },
            None => {
                let rest = slice(&v, i, v.len());
                out.append(rest.as_str());
                assert(v@.subrange(i as int, v@.len() as int) =~= v@.skip(i as int));
                return out;
            },
        }
    }
}

/// A character is a decimal digit.
pub open spec fn is_digit(c: char) -> bool {
    '0' <= c <= '9'
}

/// The number that digits give.
pub open spec fn digits_value(s: Seq<char>) -> nat
    decreases s.len(),
{
    if s.len() == 0 {
        0
    } else {
        digits_value(s.drop_last()) * 10 + ((s.last() as u32) - ('0' as u32)) as nat
    }
}

/// The digits of a number: the text without a leading "+".
pub open spec fn unsigned_digits(s: Seq<char>) -> Seq<char> {
    if s.len() > 0 && s[0] == '+' {
        s.skip(1)
    } else {
        s
    }
}

/// The number that a text reads as, where it is digits, after a "+" if any, and
/// a `u64` holds it.
pub open spec fn parsed_u64(s: Seq<char>) -> Option<u64> {
    let d = unsigned_digits(s);
    if d.len() > 0 && (forall|i: int| 0 <= i < d.len() ==> is_digit(#[trigger] d[i])) && digits_value(
        d,
    ) <= u64::MAX {
        Some(digits_value(d) as u64)
    } else {
        None
    }
}

proof fn lemma_digits_value_grows(s: Seq<char>, n: int)
    requires
        0 <= n <= s.len(),
        forall|i: int| 0 <= i < s.len() ==> is_digit(#[trigger] s[i]),
    ensures
        digits_value(s.take(n)) <= digits_value(s),
    decreases s.len() - n,
{
    if n < s.len() {
        lemma_digits_value_grows(s, n + 1);
        assert(s.take(n + 1).drop_last() =~= s.take(n));
        assert(is_digit(s[n]));
    } else {
        assert(s.take(n) =~= s);
    }
}

/// The number that a text reads as.
pub fn parse_u64(s: &str) -> (r: Option<u64>)
    ensures
        r == parsed_u64(s@),
{
    let v = to_chars(s);
    let from: usize = if v.len() > 0 && v[0] == '+' {
        1
    } else {
        0
    };
    let ghost d = unsigned_digits(v@);
    assert(d =~= v@.skip(from as int));
    if v.len() == from {
        return None;
    }
    let mut n: u64 = 0;
    let mut i: usize = from;
    while i < v.len()
        invariant
            from <= i <= v@.len(),
            v@ == s@,
            d == unsigned_digits(s@),
            d == v@.skip(from as int),
            forall|k: int| 0 <= k < i - from ==> is_digit(#[trigger] d[k]),
            n == digits_value(d.take(i - from)),
        decreases v@.len() - i,
    {
        let c = v[i];
        assert(d[i - from] == c);
        if c < '0' || c > '9' {
            return None;
        }
        let x: u64 = (c as u32 - 48) as u64;
        assert(d.take(i - from + 1).drop_last() =~= d.take(i - from));
        assert(d.take(i - from + 1).last() == c);
        let ghost next = digits_value(d.take(i - from + 1));
        assert(next == n * 10 + x);
        if n > (u64::MAX - x) / 10 {
            proof {
                if forall|k: int| 0 <= k < d.len() ==> is_digit(#[trigger] d[k]) {
                    lemma_digits_value_grows(d, i - from + 1);
                }
            }
            return None;
        }
        n = n * 10 + x;
        i += 1;
    }
    assert(d.take(i - from) =~= d);
    Some(n)
}

/// The first position at or after `i` that does not hold `c`, or the end.
pub open spec fn skip_char(s: Seq<char>, c: char, i: int) -> int
    decreases s.len() - i,
{
    if 0 <= i < s.len() && s[i] == c {
        skip_char(s, c, i + 1)
    } else {
        i
    }
}

/// The least `j` in `i..=k` such that `s[j..k]` holds nothing but `c`.
pub open spec fn back_char(s: Seq<char>, c: char, k: int, i: int) -> int
    decreases k - i,
{
    if i < k <= s.len() && s[k - 1] == c {
        back_char(s, c, k - 1, i)
    } else {
        k
    }
}

/// `s` without the `c`s at its start and at its end.
pub open spec fn trimmed_of(s: Seq<char>, c: char) -> Seq<char> {
    let i = skip_char(s, c, 0);
    s.subrange(i, back_char(s, c, s.len() as int, i))
}

/// `s` without the `c`s at its start and at its end.
pub fn trim_char(s: &str, c: char) -> (r: String)
    ensures
        r@ == trimmed_of(s@, c),
{
    let v = to_chars(s);
    let mut i: usize = 0;
    while i < v.len() && v[i] == c
        invariant
            i <= v@.len(),
            skip_char(v@, c, 0) == skip_char(v@, c, i as int),
        decreases v@.len() - i,
    {
        i += 1;
    }
    let mut k: usize = v.len();
    while i < k && v[k - 1] == c
        invariant
            i <= k <= v@.len(),
            back_char(v@, c, v@.len() as int, i as int) == back_char(v@, c, k as int, i as int),
        decreases k - i,
    {
        k -= 1;
    }
    slice(&v, i, k)
}

/// `s` without the `c`s at its end.
pub open spec fn end_trimmed_of(s: Seq<char>, c: char) -> Seq<char> {
    s.take(back_char(s, c, s.len() as int, 0))
}

/// `s` without the `c`s at its end.
pub fn trim_end_char(s: &str, c: char) -> (r: String)
    ensures
        r@ == end_trimmed_of(s@, c),
{
    let v = to_chars(s);
    let mut k: usize = v.len();
    while 0 < k && v[k - 1] == c
        invariant
            k <= v@.len(),
            back_char(v@, c, v@.len() as int, 0) == back_char(v@, c, k as int, 0),
        decreases k,
    {
        k -= 1;
    }
    assert(v@.subrange(0, k as int) =~= v@.take(k as int));
    slice(&v, 0, k)
}

/// `p` stands in `s`, with something or nothing before it and behind it.
pub open spec fn holds(s: Seq<char>, p: Seq<char>) -> bool {
    exists|a: Seq<char>, b: Seq<char>| s == #[trigger] (a + p + b)
}

/// A text that is put together around `p` holds it.
pub proof fn lemma_holds(s: Seq<char>, a: Seq<char>, p: Seq<char>, b: Seq<char>)
    requires
        s =~= a + p + b,
    ensures
        holds(s, p),
{
    assert(s == a + p + b);
}

/// What a text holds, it still holds when more is put behind it.
pub proof fn lemma_holds_grows(s: Seq<char>, more: Seq<char>)
    ensures
        forall|p: Seq<char>| holds(s, p) ==> #[trigger] holds(s + more, p),
{
    assert forall|p: Seq<char>| holds(s, p) implies #[trigger] holds(s + more, p) by {
        let (a, b) = choose|a: Seq<char>, b: Seq<char>| s == #[trigger] (a + p + b);
        lemma_holds(s + more, a, p, b + more);
    }
}

/// A text that ends with a label and a value holds the two together.
pub proof fn lemma_holds_last(s: Seq<char>, gap: Seq<char>, label: Seq<char>, value: Seq<char>)
    ensures
        holds(s + (gap + label) + value, label + value),
{
    lemma_holds(s + (gap + label) + value, s + gap, label + value, seq![]);
}

/// No visible ASCII character is white space; blanks, tabs and line ends are.
pub proof fn law_white_space(c: char)
    ensures
        is_space(' '),
        is_space('\t'),
        is_space('\n'),
        is_space('\r'),
        '!' <= c <= '~' ==> !is_space(c),
{
}

proof fn lemma_skip_space(s: Seq<char>, i: int)
    requires
        0 <= i <= s.len(),
    ensures
        i <= skip_space(s, i) <= s.len(),
        forall|k: int| i <= k < skip_space(s, i) ==> is_space(#[trigger] s[k]),
        skip_space(s, i) < s.len() ==> !is_space(s[skip_space(s, i)]),
    decreases s.len() - i,
{
    if i < s.len() && is_space(s[i]) {
        lemma_skip_space(s, i + 1);
    }
}

proof fn lemma_back_space(s: Seq<char>, k: int, i: int)
    requires
        0 <= i <= k <= s.len(),
    ensures
        i <= back_space(s, k, i) <= k,
        forall|m: int| back_space(s, k, i) <= m < k ==> is_space(#[trigger] s[m]),
        back_space(s, k, i) > i ==> !is_space(s[back_space(s, k, i) - 1]),
    decreases k - i,
{
    if i < k && is_space(s[k - 1]) {
        lemma_back_space(s, k - 1, i);
    }
}

/// Trimming takes off white space at both ends and nothing else, and leaves none there.
pub proof fn law_trimmed_at_both_ends(s: Seq<char>)
    ensures
        exists|i: int, j: int| #![trigger s.subrange(i, j)]
            {
                &&& 0 <= i <= j <= s.len()
                &&& trimmed(s) == s.subrange(i, j)
                &&& forall|k: int| 0 <= k < i ==> is_space(#[trigger] s[k])
                &&& forall|k: int| j <= k < s.len() ==> is_space(#[trigger] s[k])
            },
        trimmed(s).len() > 0 ==> !is_space(trimmed(s)[0]) && !is_space(trimmed(s).last()),
{
    let i = skip_space(s, 0);
    lemma_skip_space(s, 0);
    let j = back_space(s, s.len() as int, i);
    lemma_back_space(s, s.len() as int, i);
    assert(trimmed(s) == s.subrange(i, j));
}

proof fn lemma_digit(d: nat)
    requires
        d < 10,
    ensures
        is_digit(digit(d)),
        digit(d) as u32 == '0' as u32 + d,
{
}

/// A number in decimal is made of digits, without leading zeros, and reads as the number.
pub proof fn law_decimal_reads_back(n: nat)
    ensures
        decimal(n).len() > 0,
        forall|i: int| 0 <= i < decimal(n).len() ==> '0' <= #[trigger] decimal(n)[i] <= '9',
        digits_value(decimal(n)) == n,
        n > 0 ==> decimal(n)[0] != '0',
        n <= u64::MAX ==> parsed_u64(decimal(n)) == Some(n as u64),
    decreases n,
{
    let s = decimal(n);
    lemma_digit(n % 10);
    if n < 10 {
        lemma_digit(n);
        assert(s.drop_last() =~= seq![]);
        assert(digits_value(seq![]) == 0);
        assert(s.last() == digit(n));
    } else {
        law_decimal_reads_back(n / 10);
        assert(s.drop_last() =~= decimal(n / 10));
        assert(s.last() == digit(n % 10));
        assert(s[0] == decimal(n / 10)[0]);
        assert forall|i: int| 0 <= i < s.len() implies '0' <= #[trigger] s[i] <= '9' by {
            if i < s.len() - 1 {
                assert(s[i] == decimal(n / 10)[i]);
            }
        }
    }
    assert('0' <= s[0] <= '9');
    assert(unsigned_digits(s) == s);
    assert forall|i: int| 0 <= i < s.len() implies is_digit(#[trigger] s[i]) by {}
}

/// A text reads as a number exactly where it is digits, after a "+" if any, that a `u64`
/// holds; digits count ten times what stands before them.
pub proof fn law_digits_read(s: Seq<char>, c: char)
    ensures
        digits_value(seq![]) == 0,
        '0' <= c <= '9' ==> digits_value(s.push(c)) == 10 * digits_value(s) + (c as u32 - '0' as u32),
        parsed_u64(seq![]) is None,
        s.len() > 0 && s[0] != '+' && !('0' <= s[0] <= '9') ==> parsed_u64(s) is None,
        s.len() > 0 && s[0] != '+' && !('0' <= c <= '9') ==> parsed_u64(s.push(c)) is None,
        s.len() > 0 && s[0] != '+' ==> parsed_u64(seq!['+'] + s) == parsed_u64(s),
{
    assert(s.push(c).drop_last() =~= s);
    let e = Seq::<char>::empty();
    assert(unsigned_digits(e) == e);
    if s.len() > 0 {
        assert(s.push(c)[0] == s[0]);
        assert(s.push(c)[s.len() as int] == c);
        assert((seq!['+'] + s).skip(1) =~= s);
    }
}

/// Joined texts stand in order with the separator between each two, and nothing before
/// or behind.
pub proof fn law_joined_with_separator(
    a: Seq<Seq<char>>,
    b: Seq<Seq<char>>,
    part: Seq<char>,
    sep: Seq<char>,
)
    ensures
        joined(seq![], sep).len() == 0,
        joined(seq![part], sep) == part,
        a.len() > 0 && b.len() > 0 ==> joined(a + b, sep) == joined(a, sep) + sep + joined(b, sep),
    decreases b.len(),
{
    if a.len() > 0 && b.len() > 0 {
        let t = b.drop_last();
        assert((a + b).drop_last() =~= a + t);
        assert((a + b).last() == b.last());
        if t.len() > 0 {
            law_joined_with_separator(a, t, part, sep);
            assert(joined(a + b, sep) =~= joined(a, sep) + sep + joined(b, sep));
        } else {
            assert(a + t =~= a);
            assert(b[0] == b.last());
        }
    }
}

/// The order of texts: none comes before itself, of two different ones exactly one comes
/// before the other, and a text comes before what it begins.
pub proof fn law_texts_in_order(a: Seq<char>, b: Seq<char>)
    ensures
        !precedes(a, a),
        a != b ==> (precedes(a, b) <==> !precedes(b, a)),
        b.len() > 0 ==> precedes(a, a + b),
    decreases a.len(),
{
    if a.len() > 0 {
        law_texts_in_order(a.skip(1), b);
        assert((a + b).skip(1) =~= a.skip(1) + b);
        assert((a + b)[0] == a[0]);
        if b.len() > 0 {
            law_texts_in_order(a.skip(1), b.skip(1));
            if a[0] == b[0] && a.skip(1) == b.skip(1) {
                assert(a =~= seq![a[0]] + a.skip(1));
                assert(b =~= seq![b[0]] + b.skip(1));
            }
        }
    } else {
        assert(a + b =~= b);
        if b.len() == 0 {
            assert(a =~= b);
        }
    }
}

/// Texts that share a beginning are ordered by what follows it, and texts that do not by
/// their first characters.
pub proof fn law_order_by_first_difference(p: Seq<char>, a: Seq<char>, b: Seq<char>)
    ensures
        precedes(p + a, p + b) <==> precedes(a, b),
        a.len() > 0 && b.len() > 0 && a[0] != b[0] ==> (precedes(a, b) <==> a[0] < b[0]),
    decreases p.len(),
{
    if p.len() > 0 {
        law_order_by_first_difference(p.skip(1), a, b);
        assert((p + a).skip(1) =~= p.skip(1) + a);
        assert((p + b).skip(1) =~= p.skip(1) + b);
    } else {
        assert(p + a =~= a);
        assert(p + b =~= b);
    }
}

/// Changing the case changes ASCII letters and nothing else, one by one.
pub proof fn law_case_changed_letter_by_letter(s: Seq<char>, i: int)
    requires
        0 <= i < s.len(),
    ensures
        ascii_lowered(s).len() == s.len(),
        ascii_uppered(s).len() == s.len(),
        'A' <= s[i] <= 'Z' ==> ascii_lowered(s)[i] as u32 == s[i] as u32 + 32,
        !('A' <= s[i] <= 'Z') ==> ascii_lowered(s)[i] == s[i],
        'a' <= s[i] <= 'z' ==> ascii_uppered(s)[i] as u32 == s[i] as u32 - 32,
        !('a' <= s[i] <= 'z') ==> ascii_uppered(s)[i] == s[i],
{
}

/// A text has what stands in it, wherever that is, begins with what it begins with, and
/// ends with what it ends with; and what is taken off there leaves the rest.
pub proof fn law_parts_are_found(a: Seq<char>, p: Seq<char>, b: Seq<char>)
    ensures
        has(a + p + b, p),
        has_prefix(p + b, p),
        has_suffix(a + p, p),
        without_prefix(p + b, p) == b,
        without_suffix(a + p, p) == a,
        has_prefix(a, p) ==> a == p + without_prefix(a, p),
        has_suffix(a, p) ==> a == without_suffix(a, p) + p,
        !has_prefix(a, p) ==> without_prefix(a, p) == a,
        !has_suffix(a, p) ==> without_suffix(a, p) == a,
        has(a, p) ==> holds(a, p),
{
    let s = a + p + b;
    let n = a.len() as int;
    assert(s.subrange(n, n + p.len()) =~= p);
    lemma_find_from(s, p, 0);
    assert(occurs_at(s, p, n));
    assert((p + b).subrange(0, p.len() as int) =~= p);
    assert((p + b).skip(p.len() as int) =~= b);
    let t = a + p;
    assert(t.subrange(t.len() - p.len(), t.len() - p.len() + p.len()) =~= p);
    assert(t.take(t.len() - p.len()) =~= a);
    if has_prefix(a, p) {
        assert(a =~= a.subrange(0, p.len() as int) + a.skip(p.len() as int));
    }
    if has_suffix(a, p) {
        let k = a.len() - p.len();
        assert(a =~= a.take(k) + a.subrange(k, k + p.len()));
    }
    if has(a, p) {
        lemma_find_from(a, p, 0);
        let k = find_from(a, p, 0)->0;
        lemma_holds(a, a.take(k), p, a.skip(k + p.len()));
    }
}

proof fn lemma_pieces_joined(s: Seq<char>, c: char)
    ensures
        joined(pieces(s, c), seq![c]) == s,
    decreases s.len(),
{
    let ps = pieces(s, c);
    lemma_pieces_nonempty(s, c);
    if s.len() == 0 {
        assert(ps =~= seq![seq![]]);
        assert(joined(ps, seq![c]) =~= s);
    } else {
        let t = s.drop_last();
        let before = pieces(t, c);
        lemma_pieces_nonempty(t, c);
        lemma_pieces_joined(t, c);
        assert(s =~= t.push(s.last()));
        if s.last() == c {
            assert(ps.drop_last() =~= before);
            assert(joined(ps, seq![c]) =~= s);
        } else {
            assert(ps.drop_last() =~= before.drop_last());
            if before.len() == 1 {
                assert(ps[0] == before.last().push(s.last()));
                assert(joined(ps, seq![c]) =~= s);
            } else {
                assert(joined(ps, seq![c]) =~= s);
            }
        }
    }
}

/// The pieces of a text are what stands between the separators: none holds one, and
/// joined by it they are the text.
pub proof fn law_pieces_make_up_the_text(s: Seq<char>, c: char)
    ensures
        joined(pieces(s, c), seq![c]) == s,
        forall|i: int| 0 <= i < pieces(s, c).len() ==> !(#[trigger] pieces(s, c)[i]).contains(c),
{
    lemma_pieces_joined(s, c);
    lemma_pieces_clean(s, c);
    assert forall|i: int| 0 <= i < pieces(s, c).len() implies !(#[trigger] pieces(s, c)[i]).contains(
        c,
    ) by {
        assert(pieces(s, c).contains(pieces(s, c)[i]));
    }
}

/// The first line of a text is what stands before its first line feed, without the
/// carriage return there, and the others are those of what follows; a last line that is
/// empty does not count.
pub proof fn law_lines_of_a_text(a: Seq<char>, b: Seq<char>)
    requires
        !a.contains('\n'),
    ensures
        text_lines(a + seq!['\n'] + b) == seq![without_return(a)] + text_lines(b),
        a.len() > 0 ==> text_lines(a) == seq![a],
        text_lines(seq![]).len() == 0,
        without_return(a + seq!['\r']) == a,
        a.len() > 0 && a.last() != '\r' ==> without_return(a) == a,
{
    let nl = '\n';
    let e = Seq::<char>::empty();
    lemma_pieces_single(a, nl);
    lemma_pieces_single(e, nl);
    lemma_pieces_concat(a, b, nl);
    lemma_pieces_nonempty(b, nl);
    let p = pieces(a + seq![nl] + b, nl);
    let q = pieces(b, nl);
    assert(p =~= seq![a] + q);
    assert(p.last() == q.last());
    assert(p.drop_last() =~= seq![a] + q.drop_last());
    let f = |l: Seq<char>| without_return(l);
    assert(p.drop_last().map_values(f) =~= seq![without_return(a)] + q.drop_last().map_values(f));
    assert(text_lines(a + seq![nl] + b) =~= seq![without_return(a)] + text_lines(b));
    let one = seq![a];
    assert(one.drop_last() =~= seq![]);
    assert(text_lines(a) =~= (if a.len() == 0 { seq![] } else { seq![a] }));
    let none = seq![e];
    assert(none.drop_last() =~= seq![]);
    assert(text_lines(e) =~= seq![]);
    assert((a + seq!['\r']).drop_last() =~= a);
}

proof fn lemma_skip_space_shift(s: Seq<char>, n: int, i: int)
    requires
        0 <= n <= s.len(),
        0 <= i <= s.len() - n,
    ensures
        skip_space(s, n + i) == n + skip_space(s.skip(n), i),
    decreases s.len() - n - i,
{
    if n + i < s.len() && is_space(s[n + i]) {
        lemma_skip_space_shift(s, n, i + 1);
    }
}

proof fn lemma_word_end_shift(s: Seq<char>, n: int, i: int)
    requires
        0 <= n <= s.len(),
        0 <= i <= s.len() - n,
    ensures
        word_end(s, n + i) == n + word_end(s.skip(n), i),
        n + i <= word_end(s, n + i) <= s.len(),
    decreases s.len() - n - i,
{
    if n + i < s.len() && !is_space(s[n + i]) {
        lemma_word_end_shift(s, n, i + 1);
    }
}

proof fn lemma_words_shift(s: Seq<char>, n: int, i: int)
    requires
        0 <= n <= s.len(),
        0 <= i <= s.len() - n,
    ensures
        words_from(s, n + i) == words_from(s.skip(n), i),
    decreases s.len() - n - i,
{
    let t = s.skip(n);
    lemma_skip_space_shift(s, n, i);
    lemma_skip_space(t, i);
    let a = skip_space(t, i);
    if a < t.len() {
        lemma_word_end_shift(s, n, a + 1);
        lemma_word_end_shift(t, 0, a + 1);
        assert(t.skip(0) =~= t);
        let b = word_end(t, a + 1);
        assert(a < b <= t.len());
        lemma_words_shift(s, n, b);
        assert(s.subrange(n + a, n + b) =~= t.subrange(a, b));
    }
}

proof fn lemma_word_end_at(s: Seq<char>, i: int, n: int)
    requires
        0 <= i <= n <= s.len(),
        forall|k: int| i <= k < n ==> !is_space(#[trigger] s[k]),
        n < s.len() ==> is_space(s[n]),
    ensures
        word_end(s, i) == n,
    decreases n - i,
{
    if i < n {
        assert(!is_space(s[i]));
        lemma_word_end_at(s, i + 1, n);
    }
}

proof fn lemma_words_after_space(s: Seq<char>)
    requires
        s.len() > 0,
        is_space(s[0]),
    ensures
        words(s) == words(s.skip(1)),
{
    lemma_words_shift(s, 1, 0);
    assert(skip_space(s, 0) == skip_space(s, 1));
    lemma_skip_space(s, 1);
}

proof fn lemma_first_word(s: Seq<char>, n: int)
    requires
        0 < n <= s.len(),
        forall|k: int| 0 <= k < n ==> !is_space(#[trigger] s[k]),
        n < s.len() ==> is_space(s[n]),
    ensures
        words(s) == seq![s.take(n)] + words(s.skip(n)),
{
    assert(!is_space(s[0]));
    lemma_word_end_at(s, 1, n);
    lemma_words_shift(s, n, 0);
    assert(s.subrange(0, n) =~= s.take(n));
}

/// The words of a text: white space before it does not count, a word ends where white
/// space begins, and nothing has no words.
pub proof fn law_words_of_a_text(word: Seq<char>, c: char, rest: Seq<char>)
    requires
        word.len() > 0,
        forall|i: int| 0 <= i < word.len() ==> !is_space(#[trigger] word[i]),
        is_space(c),
    ensures
        words(seq![]).len() == 0,
        words(seq![c] + rest) == words(rest),
        words(word) == seq![word],
        words(word + seq![c] + rest) == seq![word] + words(rest),
{
    let s = seq![c] + rest;
    let n = word.len() as int;
    assert(words(seq![c] + rest) == words(rest)) by {
        assert(s.skip(1) =~= rest);
        lemma_words_after_space(s);
    }
    assert(words(word) == seq![word]) by {
        lemma_first_word(word, n);
        assert(word.take(n) =~= word);
        assert(word.skip(n) =~= seq![]);
        assert(seq![word] + words(seq![]) =~= seq![word]);
    }
    let t = word + seq![c] + rest;
    assert(words(t) == seq![word] + words(s)) by {
        assert forall|k: int| 0 <= k < n implies !is_space(#[trigger] t[k]) by {
            assert(t[k] == word[k]);
        }
        assert(t[n] == c);
        lemma_first_word(t, n);
        assert(t.take(n) =~= word);
        assert(t.skip(n) =~= s);
    }
}

proof fn lemma_find_shift(s: Seq<char>, p: Seq<char>, n: int)
    requires
        0 <= n <= s.len(),
    ensures
        match find_from(s.skip(n), p, 0) {
            Some(k) => find_from(s, p, n) == Some(n + k),
            None => find_from(s, p, n) is None,
        },
{
    let t = s.skip(n);
    lemma_find_from(s, p, n);
    lemma_find_from(t, p, 0);
    assert forall|k: int| 0 <= k implies (#[trigger] occurs_at(t, p, k) <==> occurs_at(s, p, n + k)) by {
        if k + p.len() <= t.len() {
            assert(t.subrange(k, k + p.len()) =~= s.subrange(n + k, n + k + p.len()));
        }
    }
    if let Some(i) = find_from(s, p, n) {
        assert(occurs_at(t, p, i - n));
    }
    if let Some(k) = find_from(t, p, 0) {
        assert(occurs_at(s, p, n + k));
        let i = find_from(s, p, n)->0;
        assert(i <= n + k);
        assert(occurs_at(t, p, i - n));
    }
}

proof fn lemma_replaced_shift(s: Seq<char>, from: Seq<char>, to: Seq<char>, i: int)
    requires
        0 <= i <= s.len(),
        from.len() > 0,
    ensures
        replaced_from(s, from, to, i) == replaced(s.skip(i), from, to),
    decreases s.len() - i,
{
    let t = s.skip(i);
    lemma_find_shift(s, from, i);
    lemma_find_from(s, from, i);
    lemma_find_from(t, from, 0);
    if let Some(k) = find_from(t, from, 0) {
        let n = from.len() as int;
        assert(s.subrange(i, i + k) =~= t.subrange(0, k));
        lemma_replaced_shift(s, from, to, i + k + n);
        lemma_replaced_shift(t, from, to, k + n);
        assert(t.skip(k + n) =~= s.skip(i + k + n));
    } else {
        assert(t.skip(0) =~= t);
    }
}

/// A text without what is to be replaced stays; otherwise the first of it is replaced,
/// what stands before it stays, and it goes on behind it.
pub proof fn law_replaced_from_left_to_right(s: Seq<char>, from: Seq<char>, to: Seq<char>, k: int)
    requires
        from.len() > 0,
    ensures
        (forall|i: int| 0 <= i ==> !#[trigger] occurs_at(s, from, i)) ==> replaced(s, from, to) == s,
        occurs_at(s, from, k) && (forall|i: int| 0 <= i < k ==> !#[trigger] occurs_at(s, from, i))
            ==> replaced(s, from, to) == s.take(k) + to + replaced(
            s.skip(k + from.len()),
            from,
            to,
        ),
{
    lemma_find_from(s, from, 0);
    if find_from(s, from, 0) is None {
        assert(s.skip(0) =~= s);
    }
    if occurs_at(s, from, k) && (forall|i: int| 0 <= i < k ==> !#[trigger] occurs_at(s, from, i)) {
        assert(find_from(s, from, 0) == Some(k));
        assert(s.subrange(0, k) =~= s.take(k));
        lemma_replaced_shift(s, from, to, k + from.len());
    }
}

/// The width of a text in UTF-8 is that of its characters together: one byte for ASCII,
/// and up to four for others.
pub proof fn law_width_in_bytes(a: Seq<char>, b: Seq<char>, c: char)
    ensures
        byte_len(a + b) == byte_len(a) + byte_len(b),
        byte_len(a.push(c)) == byte_len(a) + char_width(c),
        byte_len(seq![]) == 0,
        c as u32 <= 0x7f ==> char_width(c) == 1,
        0x80 <= c as u32 <= 0x7ff ==> char_width(c) == 2,
        0x800 <= c as u32 <= 0xffff ==> char_width(c) == 3,
        c as u32 >= 0x10000 ==> char_width(c) == 4,
{
    lemma_byte_len_concat(a, b);
    assert(a.push(c).drop_last() =~= a);
}

proof fn lemma_skip_char(s: Seq<char>, c: char, i: int)
    requires
        0 <= i <= s.len(),
    ensures
        i <= skip_char(s, c, i) <= s.len(),
        forall|k: int| i <= k < skip_char(s, c, i) ==> #[trigger] s[k] == c,
        skip_char(s, c, i) < s.len() ==> s[skip_char(s, c, i)] != c,
    decreases s.len() - i,
{
    if i < s.len() && s[i] == c {
        lemma_skip_char(s, c, i + 1);
    }
}

proof fn lemma_back_char(s: Seq<char>, c: char, k: int, i: int)
    requires
        0 <= i <= k <= s.len(),
    ensures
        i <= back_char(s, c, k, i) <= k,
        forall|m: int| back_char(s, c, k, i) <= m < k ==> #[trigger] s[m] == c,
        back_char(s, c, k, i) > i ==> s[back_char(s, c, k, i) - 1] != c,
    decreases k - i,
{
    if i < k && s[k - 1] == c {
        lemma_back_char(s, c, k - 1, i);
    }
}

/// Trimming a character takes it off both ends, or off the end alone, takes nothing else,
/// and leaves none of it there.
pub proof fn law_character_trimmed(s: Seq<char>, c: char)
    ensures
        exists|i: int, j: int| #![trigger s.subrange(i, j)]
            {
                &&& 0 <= i <= j <= s.len()
                &&& trimmed_of(s, c) == s.subrange(i, j)
                &&& forall|k: int| 0 <= k < i ==> #[trigger] s[k] == c
                &&& forall|k: int| j <= k < s.len() ==> #[trigger] s[k] == c
            },
        trimmed_of(s, c).len() > 0 ==> trimmed_of(s, c)[0] != c && trimmed_of(s, c).last() != c,
        end_trimmed_of(s, c).len() <= s.len(),
        s.take(end_trimmed_of(s, c).len() as int) == end_trimmed_of(s, c),
        forall|k: int| end_trimmed_of(s, c).len() <= k < s.len() ==> #[trigger] s[k] == c,
        end_trimmed_of(s, c).len() > 0 ==> end_trimmed_of(s, c).last() != c,
{
    let i = skip_char(s, c, 0);
    lemma_skip_char(s, c, 0);
    let j = back_char(s, c, s.len() as int, i);
    lemma_back_char(s, c, s.len() as int, i);
    lemma_back_char(s, c, s.len() as int, 0);
    assert(trimmed_of(s, c) == s.subrange(i, j));
}

} // verus!
