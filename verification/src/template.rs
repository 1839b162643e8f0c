//! The tokens of Liquid templates, and which tags and outputs are well-formed.
//!
//! Templates are read as tokens, from each "{{" and "{%" to the "}}" or "%}" that
//! ends it. What is called well-formed here is read so by `liquid` too; forms
//! that few templates use are left out.
use vstd::prelude::*;
use crate::text::{has_prefix, slice, starts_with, str_eq, to_chars};

verus! {

/// A token of a tag or an output.
#[derive(Debug)]
pub enum Token {
    /// Letters, digits and underscores.
    Word(String),
    /// What stands between quotes.
    Text(String),
    /// Any other character but a blank.
    Sign(char),
    /// A point, bracket, hyphen, plus or exclamation mark that a blank parts from
    /// what it belongs to.
    Loose,
}

/// What a `Token` holds.
#[verifier::ext_equal]
pub enum TokenView {
    Word(Seq<char>),
    Text(Seq<char>),
    Sign(char),
    Loose,
}

impl DeepView for Token {
    type V = TokenView;

    open spec fn deep_view(&self) -> TokenView {
        match self {
            Token::Word(w) => TokenView::Word(w@),
            Token::Text(t) => TokenView::Text(t@),
            Token::Sign(c) => TokenView::Sign(*c),
            Token::Loose => TokenView::Loose,
        }
    }
}

pub open spec fn is_digit(c: char) -> bool {
    '0' <= c <= '9'
}

/// A letter or an underscore: what names begin with.
pub open spec fn begins_name(c: char) -> bool {
    'a' <= c <= 'z' || 'A' <= c <= 'Z' || c == '_'
}

pub open spec fn is_word_char(c: char) -> bool {
    begins_name(c) || is_digit(c)
}

pub open spec fn is_blank(c: char) -> bool {
    c == ' ' || c == '\n' || c == '\r'
}

pub open spec fn is_quote(c: char) -> bool {
    c == '"' || c == '\''
}

/// A tag or an output may begin here.
pub open spec fn opens_at(s: Seq<char>, i: int) -> bool {
    0 <= i && i + 1 < s.len() && s[i] == '{' && (s[i + 1] == '{' || s[i + 1] == '%')
}

/// A tag may begin here.
pub open spec fn opens_tag(s: Seq<char>, i: int) -> bool {
    opens_at(s, i) && s[i + 1] == '%'
}

/// Outside quotes, a tag or an output ends here.
pub open spec fn closes_at(s: Seq<char>, i: int) -> bool {
    0 <= i && i + 1 < s.len() && s[i + 1] == '}' && (s[i] == '}' || s[i] == '%')
}

/// The position `i`, or the one after a hyphen that stands there.
pub open spec fn after_hyphen(s: Seq<char>, i: int) -> int {
    if 0 <= i < s.len() && s[i] == '-' {
        i + 1
    } else {
        i
    }
}

pub open spec fn blank_at(s: Seq<char>, i: int) -> bool {
    0 <= i < s.len() && is_blank(s[i])
}

pub open spec fn point_at(s: Seq<char>, i: int) -> bool {
    0 <= i < s.len() && s[i] == '.'
}

/// The sign at `i` is parted by a blank from what it belongs to.
pub open spec fn is_loose(s: Seq<char>, i: int) -> bool {
    if s[i] == '.' {
        (blank_at(s, i - 1) || blank_at(s, i + 1)) && !point_at(s, i - 1) && !point_at(s, i + 1)
    } else if s[i] == '[' {
        blank_at(s, i - 1)
    } else {
        (s[i] == '-' || s[i] == '+' || s[i] == '!') && blank_at(s, i + 1)
    }
}

/// The first position from `i` on that holds `q`, or the end.
pub open spec fn quote_end(s: Seq<char>, q: char, i: int) -> int
    decreases s.len() - i,
{
    if 0 <= i < s.len() && s[i] != q {
        quote_end(s, q, i + 1)
    } else {
        i
    }
}

/// The first position from `i` on that holds no word character, or the end.
pub open spec fn run_end(s: Seq<char>, i: int) -> int
    decreases s.len() - i,
{
    if 0 <= i < s.len() && is_word_char(s[i]) {
        run_end(s, i + 1)
    } else {
        i
    }
}

/// The tokens from `i` on, to the end of the tag or output, and where that is:
/// at a hyphen that trims white space, if there is one.
pub open spec fn lexed(s: Seq<char>, i: int) -> (Seq<TokenView>, int)
    decreases s.len() - i,
{
    if i < 0 || i >= s.len() {
        (seq![], s.len() as int)
    } else if closes_at(s, after_hyphen(s, i)) {
        (seq![], i)
    } else if is_quote(s[i]) {
        let j = quote_end(s, s[i], i + 1);
        if i < j < s.len() {
            let rest = lexed(s, j + 1);
            (seq![TokenView::Text(s.subrange(i + 1, j))] + rest.0, rest.1)
        } else {
            (seq![TokenView::Text(s.skip(i + 1))], s.len() as int)
        }
    } else if is_word_char(s[i]) {
        let j = run_end(s, i + 1);
        if i < j <= s.len() {
            let rest = lexed(s, j);
            (seq![TokenView::Word(s.subrange(i, j))] + rest.0, rest.1)
        } else {
            (seq![], s.len() as int)
        }
    } else if is_blank(s[i]) {
        lexed(s, i + 1)
    } else {
        let rest = lexed(s, i + 1);
        let t = if is_loose(s, i) {
            TokenView::Loose
        } else {
            TokenView::Sign(s[i])
        };
        (seq![t] + rest.0, rest.1)
    }
}

/// Where the tokens of what begins at `i` begin.
pub open spec fn inside(s: Seq<char>, i: int) -> int {
    after_hyphen(s, i + 2)
}

/// The tokens of what begins at `i`.
pub open spec fn tokens(s: Seq<char>, i: int) -> Seq<TokenView> {
    lexed(s, inside(s, i)).0
}

pub open spec fn word_at(ts: Seq<TokenView>, k: int) -> Option<Seq<char>> {
    if 0 <= k < ts.len() {
        match ts[k] {
            TokenView::Word(w) => Some(w),
            _ => None,
        }
    } else {
        None
    }
}

pub open spec fn sign_at(ts: Seq<TokenView>, k: int, c: char) -> bool {
    0 <= k < ts.len() && ts[k] == TokenView::Sign(c)
}

pub open spec fn is_word(ts: Seq<TokenView>, k: int, w: Seq<char>) -> bool {
    word_at(ts, k) == Some(w)
}

pub open spec fn all_digits(w: Seq<char>) -> bool {
    w.len() > 0 && forall|i: int| 0 <= i < w.len() ==> is_digit(#[trigger] w[i])
}

/// A whole number without a sign.
pub open spec fn digits_at(ts: Seq<TokenView>, k: int) -> bool {
    match word_at(ts, k) {
        Some(w) => all_digits(w),
        None => false,
    }
}

/// A word that can be a name.
pub open spec fn name_at(ts: Seq<TokenView>, k: int) -> bool {
    match word_at(ts, k) {
        Some(w) => w.len() > 0 && begins_name(w[0]),
        None => false,
    }
}

/// A text that begins as a literal does.
pub open spec fn begins_literal(p: Seq<char>) -> bool {
    ||| has_prefix(p, "nil"@)
    ||| has_prefix(p, "null"@)
    ||| has_prefix(p, "empty"@)
    ||| has_prefix(p, "blank"@)
    ||| has_prefix(p, "true"@)
    ||| has_prefix(p, "false"@)
}

pub open spec fn is_literal(p: Seq<char>) -> bool {
    ||| p == "nil"@
    ||| p == "null"@
    ||| p == "empty"@
    ||| p == "blank"@
    ||| p == "true"@
    ||| p == "false"@
}

/// What the name at `k` can begin: a variable.
pub open spec fn variable_at(ts: Seq<TokenView>, k: int) -> bool {
    name_at(ts, k) && !begins_literal(word_at(ts, k)->0)
}

/// The number at `k` is a decimal fraction.
pub open spec fn fraction_at(ts: Seq<TokenView>, k: int) -> bool {
    sign_at(ts, k + 1, '.') && digits_at(ts, k + 2)
}

/// The position after the number whose digits begin at `k`.
pub open spec fn number_end(ts: Seq<TokenView>, k: int) -> int {
    if fraction_at(ts, k) {
        k + 3
    } else {
        k + 1
    }
}

/// The position after what stands between brackets from `k` on, or -1.
pub open spec fn index_end(ts: Seq<TokenView>, k: int) -> int {
    if 0 <= k < ts.len() && (ts[k] is Text || digits_at(ts, k) || variable_at(ts, k)) {
        k + 1
    } else if sign_at(ts, k, '-') && digits_at(ts, k + 1) {
        k + 2
    } else {
        -1
    }
}

/// The position after the fields and indexes of a variable that stand from `k`
/// on, or -1 where they are not well-formed.
pub open spec fn fields_end(ts: Seq<TokenView>, k: int) -> int
    decreases ts.len() - k,
{
    if k < 0 || k >= ts.len() {
        k
    } else if sign_at(ts, k, '.') && name_at(ts, k + 1) {
        fields_end(ts, k + 2)
    } else if sign_at(ts, k, '[') {
        let e = index_end(ts, k + 1);
        if k < e && sign_at(ts, e, ']') {
            fields_end(ts, e + 1)
        } else {
            -1
        }
    } else {
        k
    }
}

/// The position after the value at `k`, or -1 where none is well-formed there,
/// before any hyphen that could be part of it.
pub open spec fn bare_end(ts: Seq<TokenView>, k: int) -> int {
    if k < 0 || k >= ts.len() {
        -1
    } else if ts[k] is Text {
        k + 1
    } else if digits_at(ts, k) {
        number_end(ts, k)
    } else if (sign_at(ts, k, '-') || sign_at(ts, k, '+')) && digits_at(ts, k + 1) {
        number_end(ts, k + 1)
    } else if name_at(ts, k) && is_literal(word_at(ts, k)->0) {
        k + 1
    } else if variable_at(ts, k) {
        fields_end(ts, k + 1)
    } else {
        -1
    }
}

/// The position after the value at `k`, or -1 where none is well-formed there.
pub open spec fn value_end(ts: Seq<TokenView>, k: int) -> int {
    if sign_at(ts, bare_end(ts, k), '-') {
        -1
    } else {
        bare_end(ts, k)
    }
}

/// The position after the argument of a filter at `k`, or -1.
pub open spec fn arg_end(ts: Seq<TokenView>, k: int) -> int {
    if name_at(ts, k) && sign_at(ts, k + 1, ':') {
        value_end(ts, k + 2)
    } else {
        value_end(ts, k)
    }
}

/// The position after the arguments of a filter from `k` on, or -1.
pub open spec fn args_end(ts: Seq<TokenView>, k: int) -> int
    decreases ts.len() - k,
{
    let e = arg_end(ts, k);
    if e <= k || e > ts.len() {
        -1
    } else if sign_at(ts, e, ',') {
        args_end(ts, e + 1)
    } else {
        e
    }
}

/// The position after the filter that the bar at `k` begins, or -1.
pub open spec fn filter_end(ts: Seq<TokenView>, k: int) -> int {
    if !name_at(ts, k + 1) {
        -1
    } else if sign_at(ts, k + 2, ':') {
        args_end(ts, k + 3)
    } else {
        k + 2
    }
}

/// The position after the filters from `k` on, or -1.
pub open spec fn filters_end(ts: Seq<TokenView>, k: int) -> int
    decreases ts.len() - k,
{
    if sign_at(ts, k, '|') {
        let e = filter_end(ts, k);
        if e <= k || e > ts.len() {
            -1
        } else {
            filters_end(ts, e)
        }
    } else {
        k
    }
}

/// The position after the range at `k`, or -1.
pub open spec fn range_end(ts: Seq<TokenView>, k: int) -> int {
    let e = value_end(ts, k + 1);
    let f = value_end(ts, e + 2);
    if sign_at(ts, k, '(') && e > k && sign_at(ts, e, '.') && sign_at(ts, e + 1, '.') && f > e
        && sign_at(ts, f, ')') {
        f + 1
    } else {
        -1
    }
}

/// A sign that stands by itself in a tag.
pub open spec fn is_symbol(ts: Seq<TokenView>, k: int) -> bool {
    ||| sign_at(ts, k, '>')
    ||| sign_at(ts, k, '<')
    ||| sign_at(ts, k, '=')
    ||| sign_at(ts, k, ',')
    ||| sign_at(ts, k, ':')
}

/// The position after what stands at `k` in a tag, or -1.
pub open spec fn item_end(ts: Seq<TokenView>, k: int) -> int {
    if is_symbol(ts, k) {
        k + 1
    } else if sign_at(ts, k, '!') && sign_at(ts, k + 1, '=') {
        k + 2
    } else if sign_at(ts, k, '(') {
        range_end(ts, k)
    } else if value_end(ts, k) > k {
        filters_end(ts, value_end(ts, k))
    } else {
        -1
    }
}

/// From `k` on, all that stands in a tag is well-formed.
pub open spec fn items_ok(ts: Seq<TokenView>, k: int) -> bool
    decreases ts.len() - k,
{
    if k >= ts.len() {
        true
    } else {
        let e = item_end(ts, k);
        k < e <= ts.len() && items_ok(ts, e)
    }
}

/// The tokens are those of a well-formed output.
pub open spec fn is_output(ts: Seq<TokenView>) -> bool {
    value_end(ts, 0) > 0 && filters_end(ts, value_end(ts, 0)) == ts.len()
}

/// The tokens are those of a well-formed tag.
pub open spec fn is_tag(ts: Seq<TokenView>) -> bool {
    name_at(ts, 0) && items_ok(ts, 1)
}

/// What begins at `i` is well-formed.
pub open spec fn is_plain(s: Seq<char>, i: int) -> bool {
    let (ts, end) = lexed(s, inside(s, i));
    let c = after_hyphen(s, end);
    closes_at(s, c) && if s[i + 1] == '%' {
        s[c] == '%' && is_tag(ts)
    } else {
        s[c] == '}' && is_output(ts)
    }
}

pub(crate) fn digit(c: char) -> (r: bool)
    ensures
        r == is_digit(c),
{
    '0' <= c && c <= '9'
}

pub(crate) fn name_start(c: char) -> (r: bool)
    ensures
        r == begins_name(c),
{
    ('a' <= c && c <= 'z') || ('A' <= c && c <= 'Z') || c == '_'
}

pub(crate) fn word_char(c: char) -> (r: bool)
    ensures
        r == is_word_char(c),
{
    name_start(c) || digit(c)
}

pub(crate) fn blank(c: char) -> (r: bool)
    ensures
        r == is_blank(c),
{
    c == ' ' || c == '\n' || c == '\r'
}

pub(crate) fn quote(c: char) -> (r: bool)
    ensures
        r == is_quote(c),
{
    c == '"' || c == '\''
}

pub(crate) fn opens(v: &Vec<char>, i: usize) -> (r: bool)
    ensures
        r == opens_at(v@, i as int),
{
    i < v.len() && v.len() - i > 1 && v[i] == '{' && (v[i + 1] == '{' || v[i + 1] == '%')
}

pub(crate) fn closes(v: &Vec<char>, i: usize) -> (r: bool)
    ensures
        r == closes_at(v@, i as int),
{
    i < v.len() && v.len() - i > 1 && v[i + 1] == '}' && (v[i] == '}' || v[i] == '%')
}

pub(crate) fn skip_hyphen(v: &Vec<char>, i: usize) -> (r: usize)
    requires
        i <= v@.len(),
    ensures
        r == after_hyphen(v@, i as int),
        i <= r <= v@.len(),
{
    if i < v.len() && v[i] == '-' {
        i + 1
    } else {
        i
    }
}

fn loose(v: &Vec<char>, i: usize) -> (r: bool)
    requires
        i < v@.len(),
    ensures
        r == is_loose(v@, i as int),
{
    let n = v.len();
    let c = v[i];
    let before = i > 0 && blank(v[i - 1]);
    let after = i + 1 < n && blank(v[i + 1]);
    if c == '.' {
        (before || after) && !(i > 0 && v[i - 1] == '.') && !(i + 1 < n && v[i + 1] == '.')
    } else if c == '[' {
        before
    } else {
        (c == '-' || c == '+' || c == '!') && after
    }
}

proof fn lemma_push_then(before: Seq<TokenView>, t: TokenView, rest: Seq<TokenView>)
    ensures
        before.push(t) + rest == before + (seq![t] + rest),
{
    assert(before.push(t) + rest =~= before + (seq![t] + rest));
}

fn push_token(out: &mut Vec<Token>, t: Token)
    ensures
        final(out).deep_view() == old(out).deep_view().push(t.deep_view()),
{
    out.push(t);
    assert(out.deep_view() =~= old(out).deep_view().push(t.deep_view()));
}

/// The tokens from `start` on, to the end of the tag or output, and where that
/// is.
pub(crate) fn lex(v: &Vec<char>, start: usize) -> (r: (Vec<Token>, usize))
    requires
        start <= v@.len(),
    ensures
        r.0.deep_view() == lexed(v@, start as int).0,
        r.1 == lexed(v@, start as int).1,
        r.1 <= v@.len(),
{
    let ghost s = v@;
    let mut out: Vec<Token> = Vec::new();
    let mut i: usize = start;
    assert(out.deep_view() + lexed(s, i as int).0 =~= lexed(s, start as int).0);
    while i < v.len() && !closes(v, skip_hyphen(v, i))
        invariant
            i <= v@.len(),
            s == v@,
            out.deep_view() + lexed(s, i as int).0 == lexed(s, start as int).0,
            lexed(s, i as int).1 == lexed(s, start as int).1,
        decreases v@.len() - i,
    {
        let c = v[i];
        let ghost before = out.deep_view();
        let ghost from = i as int;
        if quote(c) {
            let mut j: usize = i + 1;
            while j < v.len() && v[j] != c
                invariant
                    i < j <= v@.len(),
                    s == v@,
                    quote_end(s, c, j as int) == quote_end(s, c, i + 1),
                decreases v@.len() - j,
            {
                j += 1;
            }
            assert(s.subrange(i + 1, j as int) =~= if j < s.len() {
                s.subrange(i + 1, j as int)
            } else {
                s.skip(i + 1)
            });
            let t = slice(v, i + 1, j);
            push_token(&mut out, Token::Text(t));
            i = if j < v.len() {
                j + 1
            } else {
                j
            };
            assert(out.deep_view() + lexed(s, i as int).0 =~= before + lexed(s, from).0);
        } else if word_char(c) {
            let mut j: usize = i + 1;
            while j < v.len() && word_char(v[j])
                invariant
                    i < j <= v@.len(),
                    s == v@,
                    run_end(s, j as int) == run_end(s, i + 1),
                decreases v@.len() - j,
            {
                j += 1;
            }
            let w = slice(v, i, j);
            push_token(&mut out, Token::Word(w));
            i = j;
            assert(out.deep_view() + lexed(s, i as int).0 =~= before + lexed(s, from).0);
        } else if blank(c) {
            i += 1;
        } else {
            let sign = if loose(v, i) {
                Token::Loose
            } else {
                Token::Sign(c)
            };
            let ghost t = sign.deep_view();
            push_token(&mut out, sign);
            i += 1;
            let ghost rest = lexed(s, i as int).0;
            assert(s[from] == c);
            assert(lexed(s, from).0 == seq![t] + rest);
            assert(out.deep_view() == before.push(t));
            proof {
                lemma_push_then(before, t, rest);
            }
        }
    }
    assert(lexed(s, i as int).0 =~= seq![]);
    assert(out.deep_view() + lexed(s, i as int).0 =~= out.deep_view());
    (out, i)
}

/// The tokens of what begins at `i`, and where it ends.
pub(crate) fn read(v: &Vec<char>, i: usize) -> (r: (Vec<Token>, usize))
    requires
        opens_at(v@, i as int),
    ensures
        r.0.deep_view() == tokens(v@, i as int),
        r.1 == lexed(v@, inside(v@, i as int)).1,
        r.1 <= v@.len(),
{
    let n = v.len();
    assert(i + 2 <= n);
    lex(v, skip_hyphen(v, i + 2))
}

/// The word at `k`.
pub(crate) fn get_word<'a>(ts: &'a Vec<Token>, k: usize) -> (r: Option<&'a str>)
    ensures
        match r {
            Some(w) => word_at(ts.deep_view(), k as int) == Some(w@),
            None => word_at(ts.deep_view(), k as int) is None,
        },
        r is Some ==> k < ts@.len(),
{
    if k >= ts.len() {
        return None;
    }
    assert(ts.deep_view()[k as int] == ts@[k as int].deep_view());
    match &ts[k] {
        Token::Word(w) => Some(w.as_str()),
        _ => None,
    }
}

pub(crate) fn has_word(ts: &Vec<Token>, k: usize, w: &str) -> (r: bool)
    ensures
        r == is_word(ts.deep_view(), k as int, w@),
{
    match get_word(ts, k) {
        Some(x) => str_eq(x, w),
        None => false,
    }
}

pub(crate) fn has_sign(ts: &Vec<Token>, k: usize, c: char) -> (r: bool)
    ensures
        r == sign_at(ts.deep_view(), k as int, c),
        r ==> k < ts@.len(),
{
    if k >= ts.len() {
        return false;
    }
    assert(ts.deep_view()[k as int] == ts@[k as int].deep_view());
    match &ts[k] {
        Token::Sign(x) => *x == c,
        _ => false,
    }
}

pub(crate) fn digits_only(w: &Vec<char>) -> (r: bool)
    ensures
        r == all_digits(w@),
{
    let mut i: usize = 0;
    while i < w.len()
        invariant
            i <= w@.len(),
            forall|k: int| 0 <= k < i ==> is_digit(#[trigger] w@[k]),
        decreases w@.len() - i,
    {
        if !digit(w[i]) {
            return false;
        }
        i += 1;
    }
    w.len() > 0
}

pub(crate) fn has_digits(ts: &Vec<Token>, k: usize) -> (r: bool)
    ensures
        r == digits_at(ts.deep_view(), k as int),
        r ==> k < ts@.len(),
{
    match get_word(ts, k) {
        Some(w) => digits_only(&to_chars(w)),
        None => false,
    }
}

pub(crate) fn has_name(ts: &Vec<Token>, k: usize) -> (r: bool)
    ensures
        r == name_at(ts.deep_view(), k as int),
        r ==> k < ts@.len(),
{
    match get_word(ts, k) {
        Some(w) => {
            let w = to_chars(w);
            w.len() > 0 && name_start(w[0])
        },
        None => false,
    }
}

pub(crate) fn has_text(ts: &Vec<Token>, k: usize) -> (r: bool)
    ensures
        r == (k < ts@.len() && ts.deep_view()[k as int] is Text),
{
    if k >= ts.len() {
        return false;
    }
    assert(ts.deep_view()[k as int] == ts@[k as int].deep_view());
    match &ts[k] {
        Token::Text(_) => true,
        _ => false,
    }
}

pub(crate) fn starts_literal(t: &str) -> (r: bool)
    ensures
        r == begins_literal(t@),
{
    starts_with(t, "nil") || starts_with(t, "null") || starts_with(t, "empty") || starts_with(
        t,
        "blank",
    ) || starts_with(t, "true") || starts_with(t, "false")
}

pub(crate) fn has_literal(ts: &Vec<Token>, k: usize) -> (r: bool)
    ensures
        r == (name_at(ts.deep_view(), k as int) && is_literal(word_at(ts.deep_view(), k as int)->0)),
        r ==> k < ts@.len(),
{
    has_name(ts, k) && (has_word(ts, k, "nil") || has_word(ts, k, "null") || has_word(
        ts,
        k,
        "empty",
    ) || has_word(ts, k, "blank") || has_word(ts, k, "true") || has_word(ts, k, "false"))
}

pub(crate) fn has_variable(ts: &Vec<Token>, k: usize) -> (r: bool)
    ensures
        r == variable_at(ts.deep_view(), k as int),
        r ==> k < ts@.len(),
{
    has_name(ts, k) && match get_word(ts, k) {
        Some(w) => !starts_literal(w),
        None => false,
    }
}

/// What a position found, or not, stands for.
pub open spec fn found(r: Option<usize>) -> int {
    match r {
        Some(e) => e as int,
        None => -1,
    }
}

fn find_fields_end(ts: &Vec<Token>, k: usize) -> (r: Option<usize>)
    requires
        k <= ts@.len(),
    ensures
        found(r) == fields_end(ts.deep_view(), k as int),
        r matches Some(e) ==> k <= e <= ts@.len(),
{
    let ghost tv = ts.deep_view();
    assert(tv.len() == ts@.len());
    let n = ts.len();
    let mut j: usize = k;
    while j < n
        invariant
            k <= j <= n == ts@.len(),
            tv == ts.deep_view(),
            tv.len() == n,
            fields_end(tv, j as int) == fields_end(tv, k as int),
        decreases n - j,
    {
        if has_sign(ts, j, '.') && has_name(ts, j + 1) {
            j += 2;
        } else if has_sign(ts, j, '[') {
            let e: usize = if has_text(ts, j + 1) || has_digits(ts, j + 1) || has_variable(
                ts,
                j + 1,
            ) {
                j + 2
            } else if has_sign(ts, j + 1, '-') && has_digits(ts, j + 2) {
                j + 3
            } else {
                return None;
            };
            if !has_sign(ts, e, ']') {
                return None;
            }
            j = e + 1;
        } else {
            return Some(j);
        }
    }
    Some(j)
}

/// The position after the value at `k`.
pub(crate) fn find_value_end(ts: &Vec<Token>, k: usize) -> (r: Option<usize>)
    ensures
        found(r) == value_end(ts.deep_view(), k as int),
        r matches Some(e) ==> k < e <= ts@.len(),
{
    let ghost tv = ts.deep_view();
    assert(tv.len() == ts@.len());
    let n = ts.len();
    if k >= n {
        return None;
    }
    let e = if has_text(ts, k) || has_literal(ts, k) {
        k + 1
    } else if has_digits(ts, k) {
        find_number_end(ts, k)
    } else if (has_sign(ts, k, '-') || has_sign(ts, k, '+')) && has_digits(ts, k + 1) {
        find_number_end(ts, k + 1)
    } else if has_variable(ts, k) {
        match find_fields_end(ts, k + 1) {
            Some(e) => e,
            None => {
                return None;
            },
        }
    } else {
        return None;
    };
    assert(e == bare_end(tv, k as int));
    if has_sign(ts, e, '-') {
        None
    } else {
        Some(e)
    }
}

fn find_number_end(ts: &Vec<Token>, k: usize) -> (r: usize)
    requires
        k < ts@.len(),
    ensures
        r == number_end(ts.deep_view(), k as int),
        k < r <= ts@.len(),
{
    let n = ts.len();
    if has_sign(ts, k + 1, '.') && has_digits(ts, k + 2) {
        k + 3
    } else {
        k + 1
    }
}

fn find_args_end(ts: &Vec<Token>, k: usize) -> (r: Option<usize>)
    ensures
        found(r) == args_end(ts.deep_view(), k as int),
        r matches Some(e) ==> k < e <= ts@.len(),
{
    let ghost tv = ts.deep_view();
    assert(tv.len() == ts@.len());
    let mut j: usize = k;
    loop
        invariant
            k <= j,
            tv == ts.deep_view(),
            tv.len() == ts@.len(),
            args_end(tv, j as int) == args_end(tv, k as int),
        decreases ts@.len() - j,
    {
        let n = ts.len();
        if j >= n {
            assert(arg_end(tv, j as int) == -1);
            return None;
        }
        let from = if has_name(ts, j) && has_sign(ts, j + 1, ':') {
            j + 2
        } else {
            j
        };
        match find_value_end(ts, from) {
            Some(e) => {
                if !has_sign(ts, e, ',') {
                    return Some(e);
                }
                j = e + 1;
            },
            None => {
                return None;
            },
        }
    }
}

/// The position after the filter that the bar at `k` begins.
pub(crate) fn find_filter_end(ts: &Vec<Token>, k: usize) -> (r: Option<usize>)
    requires
        k < ts@.len(),
    ensures
        found(r) == filter_end(ts.deep_view(), k as int),
        r matches Some(e) ==> k < e <= ts@.len(),
{
    let n = ts.len();
    if !has_name(ts, k + 1) {
        None
    } else if has_sign(ts, k + 2, ':') {
        find_args_end(ts, k + 3)
    } else {
        Some(k + 2)
    }
}

fn find_filters_end(ts: &Vec<Token>, k: usize) -> (r: Option<usize>)
    requires
        k <= ts@.len(),
    ensures
        found(r) == filters_end(ts.deep_view(), k as int),
        r matches Some(e) ==> k <= e <= ts@.len(),
{
    let ghost tv = ts.deep_view();
    let mut j: usize = k;
    while has_sign(ts, j, '|')
        invariant
            k <= j <= ts@.len(),
            tv == ts.deep_view(),
            tv.len() == ts@.len(),
            filters_end(tv, j as int) == filters_end(tv, k as int),
        decreases ts@.len() - j,
    {
        match find_filter_end(ts, j) {
            Some(e) => {
                j = e;
            },
            None => {
                return None;
            },
        }
    }
    Some(j)
}

/// The position after the range at `k`.
pub(crate) fn find_range_end(ts: &Vec<Token>, k: usize) -> (r: Option<usize>)
    requires
        k < ts@.len(),
    ensures
        found(r) == range_end(ts.deep_view(), k as int),
        r matches Some(e) ==> k < e <= ts@.len(),
{
    let n = ts.len();
    if !has_sign(ts, k, '(') {
        return None;
    }
    match find_value_end(ts, k + 1) {
        Some(e) => {
            if !(has_sign(ts, e, '.') && has_sign(ts, e + 1, '.')) {
                return None;
            }
            match find_value_end(ts, e + 2) {
                Some(f) => if has_sign(ts, f, ')') {
                    Some(f + 1)
                } else {
                    None
                },
                None => None,
            }
        },
        None => None,
    }
}

fn find_item_end(ts: &Vec<Token>, k: usize) -> (r: Option<usize>)
    requires
        k < ts@.len(),
    ensures
        found(r) == item_end(ts.deep_view(), k as int),
        r matches Some(e) ==> k < e <= ts@.len(),
{
    let n = ts.len();
    if has_sign(ts, k, '>') || has_sign(ts, k, '<') || has_sign(ts, k, '=') || has_sign(
        ts,
        k,
        ',',
    ) || has_sign(ts, k, ':') {
        Some(k + 1)
    } else if has_sign(ts, k, '!') && has_sign(ts, k + 1, '=') {
        Some(k + 2)
    } else if has_sign(ts, k, '(') {
        find_range_end(ts, k)
    } else {
        match find_value_end(ts, k) {
            Some(e) => find_filters_end(ts, e),
            None => None,
        }
    }
}

fn check_tag(ts: &Vec<Token>) -> (r: bool)
    ensures
        r == is_tag(ts.deep_view()),
{
    let ghost tv = ts.deep_view();
    assert(tv.len() == ts@.len());
    if !has_name(ts, 0) {
        return false;
    }
    let mut k: usize = 1;
    while k < ts.len()
        invariant
            k <= ts@.len(),
            tv == ts.deep_view(),
            tv.len() == ts@.len(),
            items_ok(tv, k as int) == items_ok(tv, 1),
        decreases ts@.len() - k,
    {
        match find_item_end(ts, k) {
            Some(e) => {
                k = e;
            },
            None => {
                return false;
            },
        }
    }
    true
}

fn check_output(ts: &Vec<Token>) -> (r: bool)
    ensures
        r == is_output(ts.deep_view()),
{
    assert(ts.deep_view().len() == ts@.len());
    match find_value_end(ts, 0) {
        Some(e) => match find_filters_end(ts, e) {
            Some(f) => f == ts.len(),
            None => false,
        },
        None => false,
    }
}

/// Whether what begins at `i`, with these tokens and this end, is well-formed.
pub(crate) fn check_plain(v: &Vec<char>, i: usize, ts: &Vec<Token>, end: usize) -> (r: bool)
    requires
        opens_at(v@, i as int),
        ts.deep_view() == tokens(v@, i as int),
        end == lexed(v@, inside(v@, i as int)).1,
        end <= v@.len(),
    ensures
        r == is_plain(v@, i as int),
{
    let n = v.len();
    assert(i + 2 <= n);
    let c = skip_hyphen(v, end);
    closes(v, c) && if v[i + 1] == '%' {
        v[c] == '%' && check_tag(ts)
    } else {
        v[c] == '}' && check_output(ts)
    }
}

} // verus!
