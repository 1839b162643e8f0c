//! Which templates can be rendered with which data, to a text or to an error.
//!
//! `liquid` breaks off, rather than reporting an error, on some templates: on
//! whole numbers that no `i64` holds, on arithmetic that overflows, on a few
//! forms of some tags and filters, on blocks left open inside a comment, and on
//! some malformed templates. What is accepted here holds none of these, given
//! the data.
//!
//! For arithmetic, what is known of a value is how many digits it can have as a
//! whole number. It is taken that no list or text has 10^13 elements, and that no
//! rendering takes 10^14 steps.
use vstd::prelude::*;
use crate::prompt::{FieldValue, FieldValueView, TemplateValue, TemplateValueView};
use crate::template::{
    all_digits, begins_literal, begins_name, blank, check_plain, digit, digits_at, fields_end,
    filter_end, find_filter_end, find_range_end, find_value_end, fraction_at, get_word, has_digits,
    has_literal, has_name, has_sign, has_variable, has_word, index_end, inside, is_blank, is_digit,
    is_literal, is_plain, is_quote, is_word, lexed, name_at, opens, opens_at, opens_tag, quote,
    range_end, read, sign_at, starts_literal, tokens, value_end, variable_at, word_at, Token,
    TokenView,
};
use crate::text::{cat2, has_prefix, starts_with, str_eq, to_chars};

verus! {

/// What is known of a value: how many digits it has at most, if it is a whole
/// number or a text that reads as one, and its parts, if they are; and how many
/// digits there are in its texts at most, if it is made of texts.
pub type Extent = (Option<nat>, Option<nat>);

/// What is known where nothing is.
pub open spec fn unknown() -> Extent {
    (None, None)
}

/// The larger of two numbers, where both are known.
pub open spec fn max_of(a: Option<nat>, b: Option<nat>) -> Option<nat> {
    match (a, b) {
        (Some(x), Some(y)) => Some(larger(x, y)),
        _ => None,
    }
}

/// The sum of two numbers of digits, where both are known and not large.
pub open spec fn sum_of(a: Option<nat>, b: Option<nat>) -> Option<nat> {
    match (a, b) {
        (Some(x), Some(y)) => if x <= 18 && y <= 18 {
            Some(x + y)
        } else {
            None
        },
        _ => None,
    }
}

/// How many digits stand directly before position `i`.
pub open spec fn digits_before(t: Seq<char>, i: int) -> nat
    decreases i,
{
    if 0 < i <= t.len() && is_digit(t[i - 1]) {
        digits_before(t, i - 1) + 1
    } else {
        0
    }
}

pub open spec fn larger(a: nat, b: nat) -> nat {
    if a < b {
        b
    } else {
        a
    }
}

/// A text without the sign that it may begin with.
pub open spec fn unsigned(t: Seq<char>) -> Seq<char> {
    if t.len() > 0 && (t[0] == '-' || t[0] == '+') {
        t.skip(1)
    } else {
        t
    }
}

/// How many digits a text has that reads as a whole number; no other text counts
/// as one.
pub open spec fn whole_digits(t: Seq<char>) -> nat {
    if all_digits(unsigned(t)) {
        unsigned(t).len()
    } else {
        0
    }
}

/// The value of the digits that stand directly before position `i`.
pub open spec fn number_before(w: Seq<char>, i: int) -> nat
    decreases i,
{
    if 0 < i <= w.len() && is_digit(w[i - 1]) {
        number_before(w, i - 1) * 10 + (w[i - 1] as u32 - '0' as u32) as nat
    } else {
        0
    }
}

/// Every number in the word is one that an `i64` holds.
pub open spec fn numbers_fit(w: Seq<char>) -> bool {
    forall|i: int| 0 <= i <= w.len() ==> #[trigger] number_before(w, i) <= i64::MAX
}

/// The word stands before or after the point of a decimal fraction.
pub open spec fn in_fraction(ts: Seq<TokenView>, k: int) -> bool {
    digits_at(ts, k) && (fraction_at(ts, k) || (sign_at(ts, k - 1, '.') && digits_at(ts, k - 2)))
}

/// A word holds no whole number that is too large.
pub open spec fn literal_ok(ts: Seq<TokenView>, k: int) -> bool {
    match word_at(ts, k) {
        Some(w) => in_fraction(ts, k) || (name_at(ts, k) && !begins_literal(w)) || numbers_fit(w),
        None => true,
    }
}

/// Position `i` of a date's pattern belongs to a directive that begins before it.
pub open spec fn in_directive(t: Seq<char>, i: int) -> bool
    decreases i,
{
    if 0 < i <= t.len() {
        t[i - 1] == '%' || (is_modifier(t[i - 1]) && in_directive(t, i - 1))
    } else {
        false
    }
}

/// A character that can stand between the "%" of a directive and its letter.
pub open spec fn is_modifier(c: char) -> bool {
    is_digit(c) || c == '-' || c == '_' || c == '^' || c == '#' || c == ':' || c == 'E' || c == 'O'
}

/// At position `i` of a date's pattern stands no directive beyond ASCII, and no
/// width of more than four digits ends.
pub open spec fn pattern_ok_at(t: Seq<char>, i: int) -> bool {
    (t[i] as u32 > 127 || digits_before(t, i + 1) > 4) ==> !in_directive(t, i)
}

/// A date's pattern has no directives beyond ASCII and no large widths.
pub open spec fn pattern_ok(t: Seq<char>) -> bool {
    forall|i: int| 0 <= i < t.len() ==> #[trigger] pattern_ok_at(t, i)
}

/// How many digits there are in a text.
pub open spec fn all_counted(t: Seq<char>) -> nat
    decreases t.len(),
{
    if t.len() == 0 {
        0
    } else {
        all_counted(t.drop_last()) + if is_digit(t.last()) {
            1nat
        } else {
            0nat
        }
    }
}

/// What is known of the values under one name: how many digits those that read as
/// whole numbers have at most, how many digits there are in any text at most, and
/// whether one of them is an object.
pub type Facts = (nat, nat, bool);

pub open spec fn both(a: Facts, b: Facts) -> Facts {
    (larger(a.0, b.0), larger(a.1, b.1), a.2 || b.2)
}

pub open spec fn no_facts() -> Facts {
    (0, 0, false)
}

pub open spec fn text_facts(t: Seq<char>) -> Facts {
    (whole_digits(t), all_counted(t), false)
}

/// What is known of the values under `w` in the first `n` entries.
pub open spec fn entries_facts(es: Seq<(Seq<char>, Seq<char>)>, n: int, w: Seq<char>) -> Facts
    decreases n,
{
    if n <= 0 {
        no_facts()
    } else if es[n - 1].0 == w {
        both(entries_facts(es, n - 1, w), text_facts(es[n - 1].1))
    } else {
        entries_facts(es, n - 1, w)
    }
}

pub open spec fn field_facts(f: FieldValueView) -> Facts {
    match f {
        FieldValueView::Text(t) => text_facts(t),
        FieldValueView::Object(_) => (0, 0, true),
    }
}

/// What is known of the values under `w` inside a field.
pub open spec fn facts_in_field(f: FieldValueView, w: Seq<char>) -> Facts {
    match f {
        FieldValueView::Text(_) => no_facts(),
        FieldValueView::Object(es) => entries_facts(es, es.len() as int, w),
    }
}

/// What is known of the values under `w` in the first `n` fields.
pub open spec fn fields_facts(fs: Seq<(Seq<char>, FieldValueView)>, n: int, w: Seq<char>) -> Facts
    decreases n,
{
    if n <= 0 {
        no_facts()
    } else {
        let f = fs[n - 1];
        let inner = both(fields_facts(fs, n - 1, w), facts_in_field(f.1, w));
        if f.0 == w {
            both(inner, field_facts(f.1))
        } else {
            inner
        }
    }
}

pub open spec fn value_facts(v: TemplateValueView) -> Facts {
    match v {
        TemplateValueView::Text(t) => text_facts(t),
        TemplateValueView::Number(n) => if 0 <= n <= u32::MAX {
            (10, 10, false)
        } else {
            (19, 19, false)
        },
        TemplateValueView::Object(_) => (0, 0, true),
    }
}

/// What is known of the values under `w` inside a value.
pub open spec fn facts_in_value(v: TemplateValueView, w: Seq<char>) -> Facts {
    match v {
        TemplateValueView::Object(fs) => fields_facts(fs, fs.len() as int, w),
        _ => no_facts(),
    }
}

/// What is known of the values under `w` in the first `n` globals.
pub open spec fn globals_facts(
    gs: Seq<(Seq<char>, TemplateValueView)>,
    n: int,
    w: Seq<char>,
) -> Facts
    decreases n,
{
    if n <= 0 {
        no_facts()
    } else {
        let g = gs[n - 1];
        let inner = both(globals_facts(gs, n - 1, w), facts_in_value(g.1, w));
        if g.0 == w {
            both(inner, value_facts(g.1))
        } else {
            inner
        }
    }
}

/// How many digits the whole numbers in the first `n` entries have at most.
pub open spec fn entries_digits(es: Seq<(Seq<char>, Seq<char>)>, n: int) -> nat
    decreases n,
{
    if n <= 0 {
        0
    } else {
        larger(
            entries_digits(es, n - 1),
            larger(whole_digits(es[n - 1].0), whole_digits(es[n - 1].1)),
        )
    }
}

pub open spec fn field_digits(f: FieldValueView) -> nat {
    match f {
        FieldValueView::Text(t) => whole_digits(t),
        FieldValueView::Object(es) => entries_digits(es, es.len() as int),
    }
}

/// How many digits the whole numbers in the first `n` fields have at most.
pub open spec fn fields_digits(fs: Seq<(Seq<char>, FieldValueView)>, n: int) -> nat
    decreases n,
{
    if n <= 0 {
        0
    } else {
        larger(
            fields_digits(fs, n - 1),
            larger(whole_digits(fs[n - 1].0), field_digits(fs[n - 1].1)),
        )
    }
}

/// How many digits the whole numbers in a value have at most.
pub open spec fn value_digits(v: TemplateValueView) -> nat {
    match v {
        TemplateValueView::Text(t) => whole_digits(t),
        TemplateValueView::Number(n) => if 0 <= n <= u32::MAX {
            10
        } else {
            19
        },
        TemplateValueView::Object(fs) => fields_digits(fs, fs.len() as int),
    }
}

/// How many digits the whole numbers in the first `n` globals have at most.
pub open spec fn globals_digits(gs: Seq<(Seq<char>, TemplateValueView)>, n: int) -> nat
    decreases n,
{
    if n <= 0 {
        0
    } else {
        larger(globals_digits(gs, n - 1), value_digits(gs[n - 1].1))
    }
}

/// What is known of the values that names stand for.
#[verifier::ext_equal]
pub struct KnownView {
    /// The data.
    pub data: Seq<(Seq<char>, TemplateValueView)>,
    /// The names that the template binds.
    pub bound: Seq<Seq<char>>,
    /// Those among them that count up or down.
    pub counters: Seq<Seq<char>>,
    /// Those among them of whose values nothing is known.
    pub wild: Seq<Seq<char>>,
    /// Those among them of whose texts nothing is known.
    pub coarse: Seq<Seq<char>>,
}

impl KnownView {
    /// How many digits the whole numbers in the data have at most.
    pub open spec fn digits(self) -> nat {
        globals_digits(self.data, self.data.len() as int)
    }

    /// What is known of the data under a name.
    pub open spec fn facts(self, w: Seq<char>) -> Facts {
        globals_facts(self.data, self.data.len() as int, w)
    }
}

/// A name whose fields count the rounds of a loop.
pub open spec fn is_loop(w: Seq<char>) -> bool {
    w == "forloop"@ || w == "tablerow"@ || w == "tablerowloop"@
}

/// From `k` on, before `e`, an index stands.
pub open spec fn has_index(ts: Seq<TokenView>, k: int, e: int) -> bool {
    exists|j: int| k <= j < e && #[trigger] sign_at(ts, j, '[')
}

/// What is known of the variable at `k`. Where a bound name is also one of the
/// data, it can stand for either.
pub open spec fn variable_extent(ts: Seq<TokenView>, k: int, known: KnownView) -> Extent {
    let root = word_at(ts, k)->0;
    let e = value_end(ts, k);
    let g = known.facts(root);
    if known.bound.contains(root) {
        if known.wild.contains(root) || g.0 > 15 || g.2 {
            unknown()
        } else if known.counters.contains(root) {
            (Some(18), None)
        } else if known.coarse.contains(root) || g.1 > 15 {
            (Some(15), None)
        } else {
            (Some(15), Some(15))
        }
    } else if has_index(ts, k, e) {
        (Some(larger(known.digits(), 13)), None)
    } else if is_loop(root) && g == no_facts() {
        (Some(13), None)
    } else {
        let w = word_at(ts, e - 1)->0;
        let f = known.facts(w);
        if f.2 || is_loop(root) {
            (Some(larger(known.digits(), 13)), None)
        } else if w == "size"@ {
            (Some(larger(f.0, 13)), None)
        } else {
            (Some(f.0), Some(f.1))
        }
    }
}

/// What is known of the number whose digits begin at `k`.
pub open spec fn number_extent(ts: Seq<TokenView>, k: int) -> Extent {
    let n = word_at(ts, k)->0.len();
    if fraction_at(ts, k) {
        (Some(0), None)
    } else {
        (Some(n), Some(n))
    }
}

/// What is known of the value at `k`.
pub open spec fn extent(ts: Seq<TokenView>, k: int, known: KnownView) -> Extent {
    if k < 0 || k >= ts.len() {
        unknown()
    } else if ts[k] is Text {
        (Some(whole_digits(ts[k]->Text_0)), Some(all_counted(ts[k]->Text_0)))
    } else if digits_at(ts, k) {
        number_extent(ts, k)
    } else if (sign_at(ts, k, '-') || sign_at(ts, k, '+')) && digits_at(ts, k + 1) {
        number_extent(ts, k + 1)
    } else if name_at(ts, k) && is_literal(word_at(ts, k)->0) {
        (Some(0), Some(0))
    } else if variable_at(ts, k) && value_end(ts, k) > k {
        variable_extent(ts, k, known)
    } else {
        unknown()
    }
}

/// What is known of the first argument of the filter that the bar at `k` begins.
pub open spec fn first_extent(ts: Seq<TokenView>, k: int, known: KnownView) -> Extent {
    if sign_at(ts, k + 2, ':') {
        extent(ts, k + 3, known)
    } else {
        unknown()
    }
}

/// What is known of the second argument of the filter that the bar at `k` begins;
/// without one, of a text without digits.
pub open spec fn second_extent(ts: Seq<TokenView>, k: int, known: KnownView) -> Extent {
    let e = value_end(ts, k + 3);
    if sign_at(ts, e, ',') {
        extent(ts, e + 1, known)
    } else {
        (Some(0), Some(0))
    }
}

/// At most `n` digits.
pub open spec fn within(x: Option<nat>, n: nat) -> bool {
    x matches Some(d) && d <= n
}

/// The argument of `date` is a pattern that can be used.
pub open spec fn format_ok(ts: Seq<TokenView>, k: int) -> bool {
    &&& sign_at(ts, k + 2, ':') && k + 3 < ts.len()
    &&& match ts[k + 3] {
        TokenView::Text(t) => pattern_ok(t),
        _ => false,
    }
}

/// A filter whose result has no texts but parts of those that it is given.
pub open spec fn keeps_texts(name: Seq<char>) -> bool {
    ||| name == "split"@
    ||| name == "first"@
    ||| name == "last"@
    ||| name == "slice"@
    ||| name == "strip"@
    ||| name == "lstrip"@
    ||| name == "rstrip"@
    ||| name == "strip_newlines"@
    ||| name == "remove"@
    ||| name == "remove_first"@
    ||| name == "downcase"@
    ||| name == "upcase"@
    ||| name == "capitalize"@
    ||| name == "sort"@
    ||| name == "sort_natural"@
    ||| name == "reverse"@
    ||| name == "uniq"@
    ||| name == "compact"@
}

/// A filter that puts two values together.
pub open spec fn joins_texts(name: Seq<char>) -> bool {
    name == "append"@ || name == "prepend"@ || name == "concat"@
}

pub open spec fn replaces(name: Seq<char>) -> bool {
    name == "replace"@ || name == "replace_first"@
}

/// A filter that gives one of two numbers.
pub open spec fn limits(name: Seq<char>) -> bool {
    name == "at_least"@ || name == "at_most"@
}

pub open spec fn divides(name: Seq<char>) -> bool {
    name == "divided_by"@ || name == "modulo"@
}

pub open spec fn sums(name: Seq<char>) -> bool {
    name == "plus"@ || name == "minus"@
}

/// A filter that can break off.
pub open spec fn is_risky(name: Seq<char>) -> bool {
    sums(name) || divides(name) || name == "times"@ || name == "abs"@ || name == "slice"@ || name
        == "date"@
}

/// The filter that the bar at `k` begins cannot break off on a value of which `x`
/// is known.
pub open spec fn filter_ok(ts: Seq<TokenView>, k: int, x: Extent, known: KnownView) -> bool {
    let name = word_at(ts, k + 1)->0;
    let y = first_extent(ts, k, known);
    if sums(name) {
        within(x.0, 18) && within(y.0, 18)
    } else if name == "times"@ {
        within(sum_of(x.0, y.0), 18)
    } else if divides(name) {
        within(x.0, 18) || (sign_at(ts, k + 2, ':') && digits_at(ts, k + 3))
    } else if name == "abs"@ {
        within(x.0, 18)
    } else if name == "slice"@ {
        within(second_extent(ts, k, known).0, 18)
    } else if name == "date"@ {
        format_ok(ts, k)
    } else {
        true
    }
}

/// What is known after the filter that the bar at `k` begins, of a value of which
/// `x` was known.
pub open spec fn filtered(ts: Seq<TokenView>, k: int, x: Extent, known: KnownView) -> Extent {
    let name = word_at(ts, k + 1)->0;
    let y = first_extent(ts, k, known);
    if sums(name) {
        (sum_of(max_of(x.0, y.0), Some(1)), None)
    } else if name == "times"@ {
        (sum_of(x.0, y.0), None)
    } else if divides(name) || name == "abs"@ {
        (x.0, None)
    } else if limits(name) {
        (max_of(x.0, y.0), None)
    } else if name == "default"@ {
        (max_of(x.0, y.0), max_of(x.1, y.1))
    } else if name == "size"@ {
        (Some(13), Some(13))
    } else if keeps_texts(name) {
        (x.1, x.1)
    } else if replaces(name) && second_extent(ts, k, known).1 == Some(0nat) {
        (x.1, x.1)
    } else if joins_texts(name) {
        (sum_of(x.1, y.1), sum_of(x.1, y.1))
    } else {
        unknown()
    }
}

/// What is known of a value of which `x` is known after the filters from `k` on,
/// or `None` where one of them can break off.
pub open spec fn chained(ts: Seq<TokenView>, k: int, x: Extent, known: KnownView) -> Option<Extent>
    decreases ts.len() - k,
{
    if !sign_at(ts, k, '|') {
        Some(x)
    } else {
        let e = filter_end(ts, k);
        if e <= k || e > ts.len() || !filter_ok(ts, k, x, known) {
            None
        } else {
            chained(ts, e, filtered(ts, k, x, known), known)
        }
    }
}

/// What is known of the value at `k` with its filters, or `None` where one of
/// them can break off.
pub open spec fn evaluated(ts: Seq<TokenView>, k: int, known: KnownView) -> Option<Extent> {
    if value_end(ts, k) > k {
        chained(ts, value_end(ts, k), extent(ts, k, known), known)
    } else {
        None
    }
}

/// A bar begins a filter that can break off.
pub open spec fn risky_at(ts: Seq<TokenView>, k: int) -> bool {
    sign_at(ts, k, '|') && match word_at(ts, k + 1) {
        Some(w) => is_risky(w),
        None => false,
    }
}

pub open spec fn has_risk(ts: Seq<TokenView>) -> bool {
    exists|k: int| #[trigger] risky_at(ts, k)
}

/// The tag gives a value a name.
pub open spec fn is_assignment(ts: Seq<TokenView>) -> bool {
    is_word(ts, 0, "assign"@) && sign_at(ts, 2, '=')
}

/// No filter of what begins at `i` can break off.
pub open spec fn filters_ok(s: Seq<char>, i: int, known: KnownView) -> bool {
    let ts = tokens(s, i);
    has_risk(ts) ==> is_plain(s, i) && if s[i + 1] == '%' {
        is_assignment(ts) && evaluated(ts, 3, known) is Some
    } else {
        evaluated(ts, 0, known) is Some
    }
}

/// A parenthesis at `k` begins a range of moderate length.
pub open spec fn range_ok(ts: Seq<TokenView>, k: int, known: KnownView) -> bool {
    sign_at(ts, k, '(') ==> range_end(ts, k) > k && within(extent(ts, k + 1, known).0, 10)
        && within(extent(ts, value_end(ts, k + 1) + 2, known).0, 10)
}

/// The name that a tag binds.
pub open spec fn bound_name(ts: Seq<TokenView>) -> Option<Seq<char>> {
    if is_word(ts, 0, "assign"@) || is_word(ts, 0, "capture"@) || is_word(ts, 0, "for"@) || is_word(
        ts,
        0,
        "tablerow"@,
    ) || is_word(ts, 0, "increment"@) || is_word(ts, 0, "decrement"@) {
        word_at(ts, 1)
    } else {
        None
    }
}

/// The names that tags bind that begin before position `n`.
pub open spec fn bound_before(s: Seq<char>, n: int) -> Seq<Seq<char>>
    decreases n,
{
    if n <= 0 {
        seq![]
    } else {
        let rest = bound_before(s, n - 1);
        match bound_name(tokens(s, n - 1)) {
            Some(w) => if opens_tag(s, n - 1) {
                rest.push(w)
            } else {
                rest
            },
            None => rest,
        }
    }
}

/// The tag adds a small number to the value of a name, or takes it away.
pub open spec fn is_step(ts: Seq<TokenView>) -> bool {
    &&& is_assignment(ts) && ts.len() == 8 && word_at(ts, 3) == word_at(ts, 1)
    &&& sign_at(ts, 4, '|') && (is_word(ts, 5, "plus"@) || is_word(ts, 5, "minus"@))
    &&& sign_at(ts, 6, ':') && digits_at(ts, 7) && word_at(ts, 7)->0.len() <= 3
}

/// The tag binds a name to values of at most 15 digits.
pub open spec fn binds_small(s: Seq<char>, i: int, known: KnownView) -> bool {
    let ts = tokens(s, i);
    is_plain(s, i) && if is_assignment(ts) {
        evaluated(ts, 3, known) matches Some(x) && within(x.0, 15)
    } else {
        &&& (is_word(ts, 0, "for"@) || is_word(ts, 0, "tablerow"@)) && is_word(ts, 2, "in"@)
        &&& if sign_at(ts, 3, '(') {
            range_ok(ts, 3, known)
        } else {
            extent(ts, 3, known).0 is Some && known.digits() <= 15
        }
    }
}

/// The tag binds a name to values with at most 15 digits in their texts.
pub open spec fn binds_texts(s: Seq<char>, i: int, known: KnownView) -> bool {
    let ts = tokens(s, i);
    &&& is_plain(s, i) && is_assignment(ts)
    &&& evaluated(ts, 3, known) matches Some(x) && within(x.1, 15)
}

/// Those names among the bound ones before position `n` that count up or down.
pub open spec fn counters_before(s: Seq<char>, n: int) -> Seq<Seq<char>>
    decreases n,
{
    if n <= 0 {
        seq![]
    } else {
        let rest = counters_before(s, n - 1);
        let ts = tokens(s, n - 1);
        match bound_name(ts) {
            Some(w) => if opens_tag(s, n - 1) && is_step(ts) {
                rest.push(w)
            } else {
                rest
            },
            None => rest,
        }
    }
}

/// Those names among the bound ones before position `n` of whose values nothing
/// is known.
pub open spec fn wild_before(s: Seq<char>, n: int, known: KnownView) -> Seq<Seq<char>>
    decreases n,
{
    if n <= 0 {
        seq![]
    } else {
        let rest = wild_before(s, n - 1, known);
        let ts = tokens(s, n - 1);
        match bound_name(ts) {
            Some(w) => if opens_tag(s, n - 1) && !is_step(ts) && !binds_small(s, n - 1, known) {
                rest.push(w)
            } else {
                rest
            },
            None => rest,
        }
    }
}

/// Those names among the bound ones before position `n` of whose texts nothing is
/// known.
pub open spec fn coarse_before(s: Seq<char>, n: int, known: KnownView) -> Seq<Seq<char>>
    decreases n,
{
    if n <= 0 {
        seq![]
    } else {
        let rest = coarse_before(s, n - 1, known);
        match bound_name(tokens(s, n - 1)) {
            Some(w) => if opens_tag(s, n - 1) && !binds_texts(s, n - 1, known) {
                rest.push(w)
            } else {
                rest
            },
            None => rest,
        }
    }
}

/// What is known of values as long as nothing is of those of bound names.
pub open spec fn first_known(
    s: Seq<char>,
    globals: Seq<(Seq<char>, TemplateValueView)>,
) -> KnownView {
    let bound = bound_before(s, s.len() as int);
    KnownView { data: globals, bound, counters: seq![], wild: bound, coarse: bound }
}

/// What is known of values.
pub open spec fn known_of(
    s: Seq<char>,
    globals: Seq<(Seq<char>, TemplateValueView)>,
) -> KnownView {
    let first = first_known(s, globals);
    let n = s.len() as int;
    KnownView {
        counters: counters_before(s, n),
        wild: wild_before(s, n, first),
        coarse: coarse_before(s, n, first),
        ..first
    }
}

/// How many of the tokens are a given sign.
pub open spec fn count_sign(ts: Seq<TokenView>, c: char) -> nat
    decreases ts.len(),
{
    if ts.len() == 0 {
        0
    } else {
        count_sign(ts.drop_last(), c) + if ts.last() == TokenView::Sign(c) {
            1nat
        } else {
            0nat
        }
    }
}

/// Nothing that begins at `k` can break off, as far as it goes without filters.
pub open spec fn token_ok(ts: Seq<TokenView>, k: int, known: KnownView) -> bool {
    literal_ok(ts, k) && range_ok(ts, k, known)
}

/// All tokens are such, and indexes are not nested deeply.
pub open spec fn tokens_ok(ts: Seq<TokenView>, known: KnownView) -> bool {
    &&& forall|k: int| 0 <= k < ts.len() ==> #[trigger] token_ok(ts, k, known)
    &&& count_sign(ts, '[') <= 16
}

/// A number of columns: a number that is not zero.
pub open spec fn columns_at(ts: Seq<TokenView>, k: int) -> bool {
    digits_at(ts, k) && word_at(ts, k)->0.len() <= 9 && word_at(ts, k)->0[0] != '0'
}

/// A tag cannot break off: a cycle has values, and a table has columns.
pub open spec fn tag_ok(ts: Seq<TokenView>) -> bool {
    &&& is_word(ts, 0, "cycle"@) ==> !sign_at(ts, ts.len() - 1, ':')
    &&& is_word(ts, 0, "tablerow"@) ==> forall|k: int|
        2 <= k < ts.len() && #[trigger] is_word(ts, k, "cols"@) ==> sign_at(ts, k + 1, ':')
            && columns_at(ts, k + 2)
}

/// A tag of this name begins a block.
pub open spec fn is_block(w: Seq<char>) -> bool {
    ||| w == "if"@
    ||| w == "unless"@
    ||| w == "ifchanged"@
    ||| w == "case"@
    ||| w == "for"@
    ||| w == "tablerow"@
    ||| w == "capture"@
    ||| w == "comment"@
    ||| w == "raw"@
}

/// From `j` on, where the blocks in `open` are open in a comment, everything is
/// well-formed up to the end of the comment, and every block ends before it.
pub open spec fn comment_ok(s: Seq<char>, j: int, open: Seq<Seq<char>>) -> bool
    decreases s.len() - j,
{
    let end = lexed(s, inside(s, j)).1;
    if j < 0 || j >= s.len() {
        false
    } else if !opens_at(s, j) {
        comment_ok(s, j + 1, open)
    } else if !is_plain(s, j) || end <= j || end > s.len() {
        false
    } else if s[j + 1] != '%' {
        comment_ok(s, end, open)
    } else {
        let w = word_at(tokens(s, j), 0)->0;
        if is_block(w) {
            comment_ok(s, end, open.push(w))
        } else if !has_prefix(w, "end"@) {
            comment_ok(s, end, open)
        } else if open.len() == 0 {
            w == "endcomment"@
        } else {
            w == "end"@ + open.last() && comment_ok(s, end, open.drop_last())
        }
    }
}

/// The tag or output that may begin at `i` cannot break off.
pub open spec fn region_ok(s: Seq<char>, i: int, known: KnownView) -> bool {
    let ts = tokens(s, i);
    &&& tokens_ok(ts, known)
    &&& filters_ok(s, i, known)
    &&& s[i + 1] == '%' ==> tag_ok(ts)
    &&& s[i + 1] == '%' && is_word(ts, 0, "comment"@) ==> comment_ok(
        s,
        lexed(s, inside(s, i)).1,
        seq![],
    )
}

/// A tag or an output applies the filter.
pub open spec fn has_filter(ts: Seq<TokenView>, name: Seq<char>) -> bool {
    exists|k: int| #[trigger] sign_at(ts, k, '|') && is_word(ts, k + 1, name)
}

/// The template applies the filter somewhere.
pub open spec fn uses_filter(s: Seq<char>, name: Seq<char>) -> bool {
    exists|i: int| #[trigger] opens_at(s, i) && has_filter(tokens(s, i), name)
}

/// A list can hold objects: some part of one that is gone through, or some that
/// are selected.
pub open spec fn lists_objects(s: Seq<char>, i: int) -> bool {
    let ts = tokens(s, i);
    ||| has_filter(ts, "where"@)
    ||| s[i + 1] == '%' && (is_word(ts, 0, "for"@) || is_word(ts, 0, "tablerow"@))
}

/// The template has lists that can hold objects.
pub open spec fn uses_objects(s: Seq<char>) -> bool {
    exists|i: int| #[trigger] opens_at(s, i) && lists_objects(s, i)
}

/// The position after the blanks that stand before `i`.
pub open spec fn before_blanks(s: Seq<char>, i: int) -> int
    decreases i,
{
    if 0 < i <= s.len() && is_blank(s[i - 1]) {
        before_blanks(s, i - 1)
    } else {
        i
    }
}

/// Where the line of position `i` begins.
pub open spec fn line_start(s: Seq<char>, i: int) -> int
    decreases i,
{
    if 0 < i <= s.len() && s[i - 1] != '\n' {
        line_start(s, i - 1)
    } else {
        i
    }
}

/// Something that may be a tag or an output begins from `from` on, before `to`.
pub open spec fn opened(s: Seq<char>, from: int, to: int) -> bool {
    exists|a: int| from <= a < to && #[trigger] opens_at(s, a)
}

/// From `from` on, before `to`, a quote stands after the beginning of a tag or
/// an output.
pub open spec fn quoted(s: Seq<char>, from: int, to: int) -> bool {
    exists|q: int| from <= q < to && is_quote(#[trigger] s[q]) && opened(s, from, q)
}

/// From `from` on, before `to`, there is a character beyond ASCII.
pub open spec fn wide(s: Seq<char>, from: int, to: int) -> bool {
    exists|k: int| from <= k < to && (#[trigger] s[k]) as u32 > 127
}

pub open spec fn has_newline(s: Seq<char>, from: int, to: int) -> bool {
    exists|k: int| from <= k < to && #[trigger] s[k] == '\n'
}

/// Something that may be a tag or an output goes on over the end of a line.
pub open spec fn crosses_lines(s: Seq<char>) -> bool {
    exists|i: int| #[trigger] opens_at(s, i) && has_newline(s, i, lexed(s, inside(s, i)).1)
}

/// Where the line that leads up to position `i` begins.
pub open spec fn lead(s: Seq<char>, i: int) -> int {
    line_start(s, before_blanks(s, i))
}

/// If what begins at `i` is malformed, its line can be misread while the error
/// is described.
pub open spec fn can_be_misread(s: Seq<char>, i: int) -> bool {
    &&& !is_plain(s, i)
    &&& quoted(s, lead(s, i), i)
    &&& wide(s, lead(s, i), i) || crosses_lines(s)
}

/// The template can be rendered with these globals, to a text or to an error.
pub open spec fn is_steady(s: Seq<char>, globals: Seq<(Seq<char>, TemplateValueView)>) -> bool {
    let known = known_of(s, globals);
    &&& forall|i: int| #[trigger]
        opens_at(s, i) ==> region_ok(s, i, known) && !can_be_misread(s, i)
    &&& !(uses_filter(s, "sort"@) && uses_filter(s, "concat"@) && uses_objects(s))
}

/// What is known of the values that names stand for.
pub struct Known<'a> {
    pub data: &'a Vec<(String, TemplateValue)>,
    pub bound: Vec<String>,
    pub counters: Vec<String>,
    pub wild: Vec<String>,
    pub coarse: Vec<String>,
}

impl<'a> DeepView for Known<'a> {
    type V = KnownView;

    open spec fn deep_view(&self) -> KnownView {
        KnownView {
            data: self.data.deep_view(),
            bound: self.bound.deep_view(),
            counters: self.counters.deep_view(),
            wild: self.wild.deep_view(),
            coarse: self.coarse.deep_view(),
        }
    }
}

/// What an optional number of digits stands for.
pub open spec fn as_count(x: Option<usize>) -> Option<nat> {
    match x {
        Some(d) => Some(d as nat),
        None => None,
    }
}

pub open spec fn as_extent(x: (Option<usize>, Option<usize>)) -> Extent {
    (as_count(x.0), as_count(x.1))
}

fn max_known(a: Option<usize>, b: Option<usize>) -> (r: Option<usize>)
    ensures
        as_count(r) == max_of(as_count(a), as_count(b)),
{
    match (a, b) {
        (Some(x), Some(y)) => Some(greater(x, y)),
        _ => None,
    }
}

fn sum_known(a: Option<usize>, b: Option<usize>) -> (r: Option<usize>)
    ensures
        as_count(r) == sum_of(as_count(a), as_count(b)),
{
    match (a, b) {
        (Some(x), Some(y)) => if x <= 18 && y <= 18 {
            Some(x + y)
        } else {
            None
        },
        _ => None,
    }
}

fn lists(names: &Vec<String>, name: &str) -> (r: bool)
    ensures
        r == names.deep_view().contains(name@),
{
    let ghost all = names.deep_view();
    let mut i: usize = 0;
    while i < names.len()
        invariant
            i <= names@.len(),
            all == names.deep_view(),
            forall|k: int| 0 <= k < i ==> #[trigger] all[k] != name@,
        decreases names@.len() - i,
    {
        assert(all[i as int] == names@[i as int]@);
        if str_eq(names[i].as_str(), name) {
            return true;
        }
        i += 1;
    }
    false
}

fn find_whole_digits(text: &str) -> (r: usize)
    ensures
        r == whole_digits(text@),
{
    let t = to_chars(text);
    let from: usize = if t.len() > 0 && (t[0] == '-' || t[0] == '+') {
        1
    } else {
        0
    };
    let ghost d = unsigned(text@);
    assert(d =~= t@.skip(from as int));
    let mut i: usize = from;
    while i < t.len()
        invariant
            from <= i <= t@.len(),
            from <= 1,
            d == t@.skip(from as int),
            d == unsigned(text@),
            forall|k: int| 0 <= k < i - from ==> is_digit(#[trigger] d[k]),
        decreases t@.len() - i,
    {
        assert(d[i - from] == t@[i as int]);
        if !digit(t[i]) {
            return 0;
        }
        i += 1;
    }
    t.len() - from
}

fn greater(a: usize, b: usize) -> (r: usize)
    ensures
        r == larger(a as nat, b as nat),
{
    if a < b {
        b
    } else {
        a
    }
}

fn count_digits(text: &str) -> (r: usize)
    ensures
        r == all_counted(text@),
{
    let t = to_chars(text);
    let mut n: usize = 0;
    let mut i: usize = 0;
    while i < t.len()
        invariant
            i <= t@.len(),
            n <= i,
            n == all_counted(t@.take(i as int)),
        decreases t@.len() - i,
    {
        assert(t@.take(i + 1).drop_last() =~= t@.take(i as int));
        if digit(t[i]) {
            n += 1;
        }
        i += 1;
    }
    assert(t@.take(i as int) =~= text@);
    n
}

/// What numbers of digits stand for.
pub open spec fn as_facts(f: (usize, usize, bool)) -> Facts {
    (f.0 as nat, f.1 as nat, f.2)
}

fn find_text_facts(t: &str) -> (r: (usize, usize, bool))
    ensures
        as_facts(r) == text_facts(t@),
{
    (find_whole_digits(t), count_digits(t), false)
}

fn merge(a: (usize, usize, bool), b: (usize, usize, bool)) -> (r: (usize, usize, bool))
    ensures
        as_facts(r) == both(as_facts(a), as_facts(b)),
{
    (greater(a.0, b.0), greater(a.1, b.1), a.2 || b.2)
}

fn find_facts_in_field(f: &FieldValue, w: &str) -> (r: (usize, usize, bool))
    ensures
        as_facts(r) == facts_in_field(f.deep_view(), w@),
{
    match f {
        FieldValue::Text(_) => (0, 0, false),
        FieldValue::Object(es) => {
            let ghost all = es.deep_view();
            let mut facts: (usize, usize, bool) = (0, 0, false);
            let mut i: usize = 0;
            while i < es.len()
                invariant
                    i <= es@.len(),
                    all == es.deep_view(),
                    as_facts(facts) == entries_facts(all, i as int, w@),
                decreases es@.len() - i,
            {
                let e = &es[i];
                assert(all[i as int] == (e.0@, e.1@));
                if str_eq(e.0.as_str(), w) {
                    facts = merge(facts, find_text_facts(e.1.as_str()));
                }
                i += 1;
            }
            facts
        },
    }
}

fn find_field_facts(f: &FieldValue) -> (r: (usize, usize, bool))
    ensures
        as_facts(r) == field_facts(f.deep_view()),
{
    match f {
        FieldValue::Text(t) => find_text_facts(t.as_str()),
        FieldValue::Object(_) => (0, 0, true),
    }
}

fn find_facts_in_value(v: &TemplateValue, w: &str) -> (r: (usize, usize, bool))
    ensures
        as_facts(r) == facts_in_value(v.deep_view(), w@),
{
    match v {
        TemplateValue::Object(fs) => {
            let ghost all = fs.deep_view();
            let mut facts: (usize, usize, bool) = (0, 0, false);
            let mut i: usize = 0;
            while i < fs.len()
                invariant
                    i <= fs@.len(),
                    all == fs.deep_view(),
                    as_facts(facts) == fields_facts(all, i as int, w@),
                decreases fs@.len() - i,
            {
                let f = &fs[i];
                assert(all[i as int] == (f.0@, f.1.deep_view()));
                facts = merge(facts, find_facts_in_field(&f.1, w));
                if str_eq(f.0.as_str(), w) {
                    facts = merge(facts, find_field_facts(&f.1));
                }
                i += 1;
            }
            facts
        },
        _ => (0, 0, false),
    }
}

fn find_value_facts(v: &TemplateValue) -> (r: (usize, usize, bool))
    ensures
        as_facts(r) == value_facts(v.deep_view()),
{
    match v {
        TemplateValue::Text(t) => find_text_facts(t.as_str()),
        TemplateValue::Number(n) => if 0 <= *n && *n <= 4_294_967_295 {
            (10, 10, false)
        } else {
            (19, 19, false)
        },
        TemplateValue::Object(_) => (0, 0, true),
    }
}

fn find_facts(globals: &Vec<(String, TemplateValue)>, w: &str) -> (r: (usize, usize, bool))
    ensures
        as_facts(r) == globals_facts(globals.deep_view(), globals@.len() as int, w@),
{
    let ghost all = globals.deep_view();
    let mut facts: (usize, usize, bool) = (0, 0, false);
    let mut i: usize = 0;
    while i < globals.len()
        invariant
            i <= globals@.len(),
            all == globals.deep_view(),
            as_facts(facts) == globals_facts(all, i as int, w@),
        decreases globals@.len() - i,
    {
        let g = &globals[i];
        assert(all[i as int] == (g.0@, g.1.deep_view()));
        facts = merge(facts, find_facts_in_value(&g.1, w));
        if str_eq(g.0.as_str(), w) {
            facts = merge(facts, find_value_facts(&g.1));
        }
        i += 1;
    }
    facts
}

fn find_field_digits(f: &FieldValue) -> (r: usize)
    ensures
        r == field_digits(f.deep_view()),
{
    match f {
        FieldValue::Text(t) => find_whole_digits(t.as_str()),
        FieldValue::Object(es) => {
            let ghost all = es.deep_view();
            let mut most: usize = 0;
            let mut i: usize = 0;
            while i < es.len()
                invariant
                    i <= es@.len(),
                    all == es.deep_view(),
                    most == entries_digits(all, i as int),
                decreases es@.len() - i,
            {
                let e = &es[i];
                assert(all[i as int] == (e.0@, e.1@));
                let here = greater(find_whole_digits(e.0.as_str()), find_whole_digits(e.1.as_str()));
                most = greater(most, here);
                i += 1;
            }
            most
        },
    }
}

fn find_value_digits(v: &TemplateValue) -> (r: usize)
    ensures
        r == value_digits(v.deep_view()),
{
    match v {
        TemplateValue::Text(t) => find_whole_digits(t.as_str()),
        TemplateValue::Number(n) => if 0 <= *n && *n <= 4_294_967_295 {
            10
        } else {
            19
        },
        TemplateValue::Object(fs) => {
            let ghost all = fs.deep_view();
            let mut most: usize = 0;
            let mut i: usize = 0;
            while i < fs.len()
                invariant
                    i <= fs@.len(),
                    all == fs.deep_view(),
                    most == fields_digits(all, i as int),
                decreases fs@.len() - i,
            {
                let f = &fs[i];
                assert(all[i as int] == (f.0@, f.1.deep_view()));
                let here = greater(find_whole_digits(f.0.as_str()), find_field_digits(&f.1));
                most = greater(most, here);
                i += 1;
            }
            most
        },
    }
}

fn find_digits(globals: &Vec<(String, TemplateValue)>) -> (r: usize)
    ensures
        r == globals_digits(globals.deep_view(), globals@.len() as int),
{
    let ghost all = globals.deep_view();
    let mut most: usize = 0;
    let mut i: usize = 0;
    while i < globals.len()
        invariant
            i <= globals@.len(),
            all == globals.deep_view(),
            most == globals_digits(all, i as int),
        decreases globals@.len() - i,
    {
        let g = &globals[i];
        assert(all[i as int] == (g.0@, g.1.deep_view()));
        most = greater(most, find_value_digits(&g.1));
        i += 1;
    }
    most
}

fn fits(w: &Vec<char>) -> (r: bool)
    ensures
        r == numbers_fit(w@),
{
    let mut value: u64 = 0;
    let mut i: usize = 0;
    while i < w.len()
        invariant
            i <= w@.len(),
            value == number_before(w@, i as int),
            value <= i64::MAX,
            forall|k: int| 0 <= k <= i ==> #[trigger] number_before(w@, k) <= i64::MAX,
        decreases w@.len() - i,
    {
        let ghost next = number_before(w@, i + 1);
        if digit(w[i]) {
            let d: u64 = w[i] as u64 - 48;
            if value > (9_223_372_036_854_775_807 - d) / 10 {
                assert(next > i64::MAX);
                return false;
            }
            value = value * 10 + d;
        } else {
            value = 0;
        }
        i += 1;
    }
    true
}

fn check_literal(ts: &Vec<Token>, k: usize) -> (r: bool)
    requires
        k < ts@.len(),
    ensures
        r == literal_ok(ts.deep_view(), k as int),
{
    let n = ts.len();
    match get_word(ts, k) {
        Some(w) => {
            let fraction = has_digits(ts, k) && ((has_sign(ts, k + 1, '.') && has_digits(ts, k + 2))
                || (k >= 2 && has_sign(ts, k - 1, '.') && has_digits(ts, k - 2)));
            fraction || (has_name(ts, k) && !starts_literal(w)) || fits(&to_chars(w))
        },
        None => true,
    }
}

fn modifier(c: char) -> (r: bool)
    ensures
        r == is_modifier(c),
{
    digit(c) || c == '-' || c == '_' || c == '^' || c == '#' || c == ':' || c == 'E' || c == 'O'
}

fn check_pattern(pattern: &str) -> (r: bool)
    ensures
        r == pattern_ok(pattern@),
{
    let t = to_chars(pattern);
    let mut run: usize = 0;
    let mut inner = false;
    let mut i: usize = 0;
    while i < t.len()
        invariant
            i <= t@.len(),
            t@ == pattern@,
            run <= i,
            run == digits_before(t@, i as int),
            inner == in_directive(t@, i as int),
            forall|j: int| 0 <= j < i ==> #[trigger] pattern_ok_at(t@, j),
        decreases t@.len() - i,
    {
        let c = t[i];
        if digit(c) {
            run += 1;
        } else {
            run = 0;
        }
        assert(run == digits_before(t@, i + 1));
        if (c as u32 > 127 || run > 4) && inner {
            assert(!pattern_ok_at(t@, i as int));
            return false;
        }
        assert(pattern_ok_at(t@, i as int));
        inner = c == '%' || (modifier(c) && inner);
        i += 1;
    }
    true
}

fn indexed(ts: &Vec<Token>, k: usize, e: usize) -> (r: bool)
    requires
        e <= ts@.len(),
    ensures
        r == has_index(ts.deep_view(), k as int, e as int),
{
    let ghost tv = ts.deep_view();
    let mut j: usize = k;
    while j < e
        invariant
            k <= j,
            e <= ts@.len(),
            tv == ts.deep_view(),
            forall|i: int| k <= i < j ==> !#[trigger] sign_at(tv, i, '['),
        decreases e - j,
    {
        if has_sign(ts, j, '[') {
            assert(sign_at(tv, j as int, '['));
            return true;
        }
        j += 1;
    }
    false
}

fn is_loop_name(w: &str) -> (r: bool)
    ensures
        r == is_loop(w@),
{
    str_eq(w, "forloop") || str_eq(w, "tablerow") || str_eq(w, "tablerowloop")
}

fn find_number_extent(ts: &Vec<Token>, k: usize) -> (r: (Option<usize>, Option<usize>))
    requires
        digits_at(ts.deep_view(), k as int),
    ensures
        as_extent(r) == number_extent(ts.deep_view(), k as int),
{
    let n = ts.len();
    match get_word(ts, k) {
        Some(w) => if has_sign(ts, k + 1, '.') && has_digits(ts, k + 2) {
            (Some(0), None)
        } else {
            let d = to_chars(w).len();
            (Some(d), Some(d))
        },
        None => (None, None),
    }
}

fn find_variable_extent(ts: &Vec<Token>, k: usize, e: usize, known: &Known) -> (r: (
    Option<usize>,
    Option<usize>,
))
    requires
        variable_at(ts.deep_view(), k as int),
        e == value_end(ts.deep_view(), k as int),
        k < e <= ts@.len(),
    ensures
        as_extent(r) == variable_extent(ts.deep_view(), k as int, known.deep_view()),
{
    let ghost tv = ts.deep_view();
    assert(known.data.deep_view().len() == known.data@.len());
    let root = match get_word(ts, k) {
        Some(w) => w,
        None => "",
    };
    let g = find_facts(known.data, root);
    if lists(&known.bound, root) {
        if lists(&known.wild, root) || g.0 > 15 || g.2 {
            (None, None)
        } else if lists(&known.counters, root) {
            (Some(18), None)
        } else if lists(&known.coarse, root) || g.1 > 15 {
            (Some(15), None)
        } else {
            (Some(15), Some(15))
        }
    } else if indexed(ts, k, e) {
        (Some(greater(find_digits(known.data), 13)), None)
    } else if is_loop_name(root) && g.0 == 0 && g.1 == 0 && !g.2 {
        (Some(13), None)
    } else {
        proof {
            lemma_last_word(tv, k as int);
        }
        let last = match get_word(ts, e - 1) {
            Some(w) => w,
            None => "",
        };
        let f = find_facts(known.data, last);
        if f.2 || is_loop_name(root) {
            (Some(greater(find_digits(known.data), 13)), None)
        } else if str_eq(last, "size") {
            (Some(greater(f.0, 13)), None)
        } else {
            (Some(f.0), Some(f.1))
        }
    }
}

/// A variable without indexes ends in a word.
proof fn lemma_last_word(ts: Seq<TokenView>, k: int)
    requires
        variable_at(ts, k),
        value_end(ts, k) > k,
        !has_index(ts, k, value_end(ts, k)),
    ensures
        word_at(ts, value_end(ts, k) - 1) is Some,
{
    let w = word_at(ts, k)->0;
    let e = value_end(ts, k);
    assert(is_digit(w[0]) ==> !begins_name(w[0]));
    assert(!digits_at(ts, k));
    if e != k + 1 {
        assert(e == fields_end(ts, k + 1));
        assert forall|j: int| k + 1 <= j < e implies !#[trigger] sign_at(
            ts,
            j,
            '[',
        ) by {}
        lemma_fields(ts, k + 1);
    }
}

proof fn lemma_fields(ts: Seq<TokenView>, k: int)
    requires
        word_at(ts, k - 1) is Some,
        fields_end(ts, k) >= k ==> forall|j: int|
            k <= j < fields_end(ts, k) ==> !#[trigger] sign_at(ts, j, '['),
    ensures
        fields_end(ts, k) >= k ==> word_at(ts, fields_end(ts, k) - 1) is Some,
        fields_end(ts, k) == -1 || fields_end(ts, k) >= k,
    decreases ts.len() - k,
{
    if 0 <= k < ts.len() {
        if sign_at(ts, k, '.') && name_at(ts, k + 1) {
            lemma_fields(ts, k + 2);
        } else if sign_at(ts, k, '[') {
            lemma_grows(ts, k);
        }
    }
}

proof fn lemma_grows(ts: Seq<TokenView>, k: int)
    ensures
        fields_end(ts, k) == -1 || fields_end(ts, k) >= k,
        0 <= k < ts.len() && sign_at(ts, k, '[') ==> fields_end(ts, k) != k,
    decreases ts.len() - k,
{
    if 0 <= k < ts.len() {
        if sign_at(ts, k, '.') && name_at(ts, k + 1) {
            lemma_grows(ts, k + 2);
        } else if sign_at(ts, k, '[') {
            let e = index_end(ts, k + 1);
            if k < e && sign_at(ts, e, ']') {
                lemma_grows(ts, e + 1);
            }
        }
    }
}

fn find_extent(ts: &Vec<Token>, k: usize, known: &Known) -> (r: (Option<usize>, Option<usize>))
    ensures
        as_extent(r) == extent(ts.deep_view(), k as int, known.deep_view()),
{
    let n = ts.len();
    assert(ts.deep_view().len() == n);
    if k >= n {
        return (None, None);
    }
    assert(ts.deep_view()[k as int] == ts@[k as int].deep_view());
    if let Token::Text(t) = &ts[k] {
        return (Some(find_whole_digits(t.as_str())), Some(count_digits(t.as_str())));
    }
    if has_digits(ts, k) {
        find_number_extent(ts, k)
    } else if (has_sign(ts, k, '-') || has_sign(ts, k, '+')) && has_digits(ts, k + 1) {
        find_number_extent(ts, k + 1)
    } else if has_literal(ts, k) {
        (Some(0), Some(0))
    } else if has_variable(ts, k) {
        match find_value_end(ts, k) {
            Some(e) => find_variable_extent(ts, k, e, known),
            None => (None, None),
        }
    } else {
        (None, None)
    }
}

fn is_within(x: Option<usize>, n: usize) -> (r: bool)
    ensures
        r == within(as_count(x), n as nat),
{
    match x {
        Some(d) => d <= n,
        None => false,
    }
}

fn find_first_extent(ts: &Vec<Token>, k: usize, known: &Known) -> (r: (
    Option<usize>,
    Option<usize>,
))
    requires
        k + 2 <= ts@.len(),
    ensures
        as_extent(r) == first_extent(ts.deep_view(), k as int, known.deep_view()),
{
    let n = ts.len();
    if has_sign(ts, k + 2, ':') {
        find_extent(ts, k + 3, known)
    } else {
        (None, None)
    }
}

fn find_second_extent(ts: &Vec<Token>, k: usize, known: &Known) -> (r: (
    Option<usize>,
    Option<usize>,
))
    requires
        k + 2 <= ts@.len(),
    ensures
        as_extent(r) == second_extent(ts.deep_view(), k as int, known.deep_view()),
{
    let n = ts.len();
    assert(ts.deep_view().len() == n);
    if k + 2 < n {
        if let Some(e) = find_value_end(ts, k + 3) {
            if has_sign(ts, e, ',') {
                return find_extent(ts, e + 1, known);
            }
        }
    }
    (Some(0), Some(0))
}

fn check_format(ts: &Vec<Token>, k: usize) -> (r: bool)
    requires
        k + 2 <= ts@.len(),
    ensures
        r == format_ok(ts.deep_view(), k as int),
{
    let n = ts.len();
    if !has_sign(ts, k + 2, ':') || k + 3 >= n {
        return false;
    }
    assert(ts.deep_view()[k + 3] == ts@[k + 3].deep_view());
    match &ts[k + 3] {
        Token::Text(t) => check_pattern(t.as_str()),
        _ => false,
    }
}

fn adds(name: &str) -> (r: bool)
    ensures
        r == sums(name@),
{
    str_eq(name, "plus") || str_eq(name, "minus")
}

fn splits(name: &str) -> (r: bool)
    ensures
        r == divides(name@),
{
    str_eq(name, "divided_by") || str_eq(name, "modulo")
}

fn parts(name: &str) -> (r: bool)
    ensures
        r == keeps_texts(name@),
{
    str_eq(name, "split") || str_eq(name, "first") || str_eq(name, "last") || str_eq(name, "slice")
        || str_eq(name, "strip") || str_eq(name, "lstrip") || str_eq(name, "rstrip") || str_eq(
        name,
        "strip_newlines",
    ) || str_eq(name, "remove") || str_eq(name, "remove_first") || str_eq(name, "downcase")
        || str_eq(name, "upcase") || str_eq(name, "capitalize") || str_eq(name, "sort") || str_eq(
        name,
        "sort_natural",
    ) || str_eq(name, "reverse") || str_eq(name, "uniq") || str_eq(name, "compact")
}

fn check_filter(
    ts: &Vec<Token>,
    k: usize,
    name: &str,
    x: (Option<usize>, Option<usize>),
    known: &Known,
) -> (r: bool)
    requires
        k + 2 <= ts@.len(),
        word_at(ts.deep_view(), k + 1) == Some(name@),
    ensures
        r == filter_ok(ts.deep_view(), k as int, as_extent(x), known.deep_view()),
{
    let n = ts.len();
    let y = find_first_extent(ts, k, known);
    if adds(name) {
        is_within(x.0, 18) && is_within(y.0, 18)
    } else if str_eq(name, "times") {
        is_within(sum_known(x.0, y.0), 18)
    } else if splits(name) {
        is_within(x.0, 18) || (has_sign(ts, k + 2, ':') && has_digits(ts, k + 3))
    } else if str_eq(name, "abs") {
        is_within(x.0, 18)
    } else if str_eq(name, "slice") {
        is_within(find_second_extent(ts, k, known).0, 18)
    } else if str_eq(name, "date") {
        check_format(ts, k)
    } else {
        true
    }
}

fn find_filtered(
    ts: &Vec<Token>,
    k: usize,
    name: &str,
    x: (Option<usize>, Option<usize>),
    known: &Known,
) -> (r: (Option<usize>, Option<usize>))
    requires
        k + 2 <= ts@.len(),
        word_at(ts.deep_view(), k + 1) == Some(name@),
    ensures
        as_extent(r) == filtered(ts.deep_view(), k as int, as_extent(x), known.deep_view()),
{
    let y = find_first_extent(ts, k, known);
    let z = find_second_extent(ts, k, known);
    if adds(name) {
        (sum_known(max_known(x.0, y.0), Some(1)), None)
    } else if str_eq(name, "times") {
        (sum_known(x.0, y.0), None)
    } else if splits(name) || str_eq(name, "abs") {
        (x.0, None)
    } else if str_eq(name, "at_least") || str_eq(name, "at_most") {
        (max_known(x.0, y.0), None)
    } else if str_eq(name, "default") {
        (max_known(x.0, y.0), max_known(x.1, y.1))
    } else if str_eq(name, "size") {
        (Some(13), Some(13))
    } else if parts(name) {
        (x.1, x.1)
    } else if (str_eq(name, "replace") || str_eq(name, "replace_first")) && is_within(z.1, 0) {
        (x.1, x.1)
    } else if str_eq(name, "append") || str_eq(name, "prepend") || str_eq(name, "concat") {
        (sum_known(x.1, y.1), sum_known(x.1, y.1))
    } else {
        (None, None)
    }
}

/// What is known of the value at `k` with its filters, if none of them can break
/// off.
fn evaluate(ts: &Vec<Token>, k: usize, known: &Known) -> (r: Option<
    (Option<usize>, Option<usize>),
>)
    ensures
        match r {
            Some(x) => evaluated(ts.deep_view(), k as int, known.deep_view()) == Some(as_extent(x)),
            None => evaluated(ts.deep_view(), k as int, known.deep_view()) is None,
        },
{
    let ghost tv = ts.deep_view();
    let ghost kv = known.deep_view();
    assert(tv.len() == ts@.len());
    let mut j: usize = match find_value_end(ts, k) {
        Some(e) => e,
        None => {
            return None;
        },
    };
    let mut x = find_extent(ts, k, known);
    while has_sign(ts, j, '|')
        invariant
            tv == ts.deep_view(),
            kv == known.deep_view(),
            tv.len() == ts@.len(),
            j <= ts@.len(),
            evaluated(tv, k as int, kv) == chained(tv, j as int, as_extent(x), kv),
        decreases ts@.len() - j,
    {
        let n = ts.len();
        match (find_filter_end(ts, j), get_word(ts, j + 1)) {
            (Some(e), Some(name)) => {
                if !check_filter(ts, j, name, x, known) {
                    return None;
                }
                x = find_filtered(ts, j, name, x, known);
                j = e;
            },
            _ => {
                return None;
            },
        }
    }
    Some(x)
}

fn risky(ts: &Vec<Token>) -> (r: bool)
    ensures
        r == has_risk(ts.deep_view()),
{
    let ghost tv = ts.deep_view();
    assert(tv.len() == ts@.len());
    let mut k: usize = 0;
    while k < ts.len()
        invariant
            k <= ts@.len(),
            tv == ts.deep_view(),
            tv.len() == ts@.len(),
            forall|j: int| 0 <= j < k ==> !#[trigger] risky_at(tv, j),
        decreases ts@.len() - k,
    {
        if has_sign(ts, k, '|') {
            if let Some(w) = get_word(ts, k + 1) {
                if adds(w) || splits(w) || str_eq(w, "times") || str_eq(w, "abs") || str_eq(
                    w,
                    "slice",
                ) || str_eq(w, "date") {
                    assert(risky_at(tv, k as int));
                    return true;
                }
            }
        }
        assert(!risky_at(tv, k as int));
        k += 1;
    }
    false
}

fn assigns(ts: &Vec<Token>) -> (r: bool)
    ensures
        r == is_assignment(ts.deep_view()),
{
    has_word(ts, 0, "assign") && has_sign(ts, 2, '=')
}

fn check_range(ts: &Vec<Token>, k: usize, known: &Known) -> (r: bool)
    requires
        k < ts@.len(),
    ensures
        r == range_ok(ts.deep_view(), k as int, known.deep_view()),
{
    let n = ts.len();
    if !has_sign(ts, k, '(') {
        return true;
    }
    match (find_range_end(ts, k), find_value_end(ts, k + 1)) {
        (Some(_), Some(e)) => is_within(find_extent(ts, k + 1, known).0, 10) && has_sign(ts, e, '.')
            && is_within(find_extent(ts, e + 2, known).0, 10),
        _ => false,
    }
}

fn find_bound_name<'a>(ts: &'a Vec<Token>) -> (r: Option<&'a str>)
    ensures
        match r {
            Some(w) => bound_name(ts.deep_view()) == Some(w@),
            None => bound_name(ts.deep_view()) is None,
        },
{
    if has_word(ts, 0, "assign") || has_word(ts, 0, "capture") || has_word(ts, 0, "for") || has_word(
        ts,
        0,
        "tablerow",
    ) || has_word(ts, 0, "increment") || has_word(ts, 0, "decrement") {
        get_word(ts, 1)
    } else {
        None
    }
}

fn steps(ts: &Vec<Token>) -> (r: bool)
    ensures
        r == is_step(ts.deep_view()),
{
    assert(ts.deep_view().len() == ts@.len());
    if !assigns(ts) || ts.len() != 8 {
        return false;
    }
    let same = match (get_word(ts, 1), get_word(ts, 3)) {
        (Some(a), Some(b)) => str_eq(a, b),
        (None, None) => true,
        _ => false,
    };
    same && has_sign(ts, 4, '|') && (has_word(ts, 5, "plus") || has_word(ts, 5, "minus"))
        && has_sign(ts, 6, ':') && has_digits(ts, 7) && match get_word(ts, 7) {
        Some(w) => to_chars(w).len() <= 3,
        None => false,
    }
}

/// Whether the tag with these tokens binds a name to values of at most 15 digits.
fn check_binding(v: &Vec<char>, i: usize, ts: &Vec<Token>, end: usize, known: &Known) -> (r: bool)
    requires
        opens_at(v@, i as int),
        ts.deep_view() == tokens(v@, i as int),
        end == lexed(v@, inside(v@, i as int)).1,
        end <= v@.len(),
    ensures
        r == binds_small(v@, i as int, known.deep_view()),
{
    assert(ts.deep_view().len() == ts@.len());
    assert(known.data.deep_view().len() == known.data@.len());
    if !check_plain(v, i, ts, end) {
        return false;
    }
    if assigns(ts) {
        match evaluate(ts, 3, known) {
            Some(x) => is_within(x.0, 15),
            None => false,
        }
    } else {
        (has_word(ts, 0, "for") || has_word(ts, 0, "tablerow")) && has_word(ts, 2, "in")
            && if has_sign(ts, 3, '(') {
            check_range(ts, 3, known)
        } else {
            find_extent(ts, 3, known).0.is_some() && find_digits(known.data) <= 15
        }
    }
}

/// Whether the tag with these tokens binds a name to values with at most 15 digits
/// in their texts.
fn check_text_binding(
    v: &Vec<char>,
    i: usize,
    ts: &Vec<Token>,
    end: usize,
    known: &Known,
) -> (r: bool)
    requires
        opens_at(v@, i as int),
        ts.deep_view() == tokens(v@, i as int),
        end == lexed(v@, inside(v@, i as int)).1,
        end <= v@.len(),
    ensures
        r == binds_texts(v@, i as int, known.deep_view()),
{
    check_plain(v, i, ts, end) && assigns(ts) && match evaluate(ts, 3, known) {
        Some(x) => is_within(x.1, 15),
        None => false,
    }
}

fn push_name(names: &mut Vec<String>, name: &str)
    ensures
        final(names).deep_view() == old(names).deep_view().push(name@),
{
    names.push(name.to_owned());
    assert(names.deep_view() =~= old(names).deep_view().push(name@));
}

/// What is known of values.
fn find_known<'a>(v: &Vec<char>, globals: &'a Vec<(String, TemplateValue)>) -> (r: Known<'a>)
    ensures
        r.deep_view() == known_of(v@, globals.deep_view()),
{
    let ghost s = v@;
    let ghost gs = globals.deep_view();
    let mut bound: Vec<String> = Vec::new();
    let mut unseen: Vec<String> = Vec::new();
    let mut unread: Vec<String> = Vec::new();
    let mut counters: Vec<String> = Vec::new();
    assert(bound.deep_view() =~= seq![]);
    assert(unseen.deep_view() =~= seq![]);
    assert(unread.deep_view() =~= seq![]);
    assert(counters.deep_view() =~= seq![]);
    let mut i: usize = 0;
    while i < v.len()
        invariant
            i <= v@.len(),
            s == v@,
            bound.deep_view() == bound_before(s, i as int),
            unseen.deep_view() == bound_before(s, i as int),
            unread.deep_view() == bound_before(s, i as int),
            counters.deep_view() == counters_before(s, i as int),
        decreases v@.len() - i,
    {
        if opens(v, i) && v[i + 1] == '%' {
            let (ts, _) = read(v, i);
            if let Some(w) = find_bound_name(&ts) {
                push_name(&mut bound, w);
                push_name(&mut unseen, w);
                push_name(&mut unread, w);
                if steps(&ts) {
                    push_name(&mut counters, w);
                }
            }
        }
        i += 1;
    }
    let first = Known {
        data: globals,
        bound,
        counters: Vec::new(),
        wild: unseen,
        coarse: unread,
    };
    assert(first.counters.deep_view() =~= seq![]);
    assert(first.deep_view() == first_known(s, gs));
    let mut wild: Vec<String> = Vec::new();
    let mut coarse: Vec<String> = Vec::new();
    assert(wild.deep_view() =~= seq![]);
    assert(coarse.deep_view() =~= seq![]);
    let mut j: usize = 0;
    while j < v.len()
        invariant
            j <= v@.len(),
            s == v@,
            first.deep_view() == first_known(s, gs),
            wild.deep_view() == wild_before(s, j as int, first_known(s, gs)),
            coarse.deep_view() == coarse_before(s, j as int, first_known(s, gs)),
        decreases v@.len() - j,
    {
        if opens(v, j) && v[j + 1] == '%' {
            let (ts, end) = read(v, j);
            if let Some(w) = find_bound_name(&ts) {
                if !steps(&ts) && !check_binding(v, j, &ts, end, &first) {
                    push_name(&mut wild, w);
                }
                if !check_text_binding(v, j, &ts, end, &first) {
                    push_name(&mut coarse, w);
                }
            }
        }
        j += 1;
    }
    Known { data: globals, bound: first.bound, counters, wild, coarse }
}

fn check_tokens(ts: &Vec<Token>, known: &Known) -> (r: bool)
    ensures
        r == tokens_ok(ts.deep_view(), known.deep_view()),
{
    let ghost tv = ts.deep_view();
    let ghost kv = known.deep_view();
    let mut n: usize = 0;
    let mut k: usize = 0;
    while k < ts.len()
        invariant
            k <= ts@.len(),
            tv == ts.deep_view(),
            kv == known.deep_view(),
            n <= k,
            n == count_sign(tv.take(k as int), '['),
            forall|j: int| 0 <= j < k ==> #[trigger] token_ok(tv, j, kv),
        decreases ts@.len() - k,
    {
        assert(tv.take(k + 1).drop_last() =~= tv.take(k as int));
        if !(check_literal(ts, k) && check_range(ts, k, known)) {
            assert(!token_ok(tv, k as int, kv));
            return false;
        }
        assert(token_ok(tv, k as int, kv));
        if has_sign(ts, k, '[') {
            n += 1;
        }
        k += 1;
    }
    assert(tv.take(k as int) =~= tv);
    n <= 16
}

fn check_tag_form(ts: &Vec<Token>) -> (r: bool)
    ensures
        r == tag_ok(ts.deep_view()),
{
    let ghost tv = ts.deep_view();
    assert(tv.len() == ts@.len());
    let n = ts.len();
    if has_word(ts, 0, "cycle") && n >= 1 && has_sign(ts, n - 1, ':') {
        return false;
    }
    if has_word(ts, 0, "tablerow") {
        let mut k: usize = 2;
        while k < n
            invariant
                2 <= k,
                n == ts@.len(),
                tv == ts.deep_view(),
                tv.len() == n,
                is_word(tv, 0, "tablerow"@),
                forall|j: int|
                    2 <= j < k && #[trigger] is_word(tv, j, "cols"@) ==> sign_at(tv, j + 1, ':')
                        && columns_at(tv, j + 2),
            decreases n - k,
        {
            if has_word(ts, k, "cols") {
                let columns = has_sign(ts, k + 1, ':') && has_digits(ts, k + 2) && match get_word(
                    ts,
                    k + 2,
                ) {
                    Some(w) => {
                        let w = to_chars(w);
                        w.len() <= 9 && w.len() > 0 && w[0] != '0'
                    },
                    None => false,
                };
                if !columns {
                    assert(is_word(tv, k as int, "cols"@));
                    return false;
                }
            }
            k += 1;
        }
    }
    true
}

fn begins_block(w: &str) -> (r: bool)
    ensures
        r == is_block(w@),
{
    str_eq(w, "if") || str_eq(w, "unless") || str_eq(w, "ifchanged") || str_eq(w, "case") || str_eq(
        w,
        "for",
    ) || str_eq(w, "tablerow") || str_eq(w, "capture") || str_eq(w, "comment") || str_eq(w, "raw")
}

fn check_comment(v: &Vec<char>, from: usize) -> (r: bool)
    requires
        from <= v@.len(),
    ensures
        r == comment_ok(v@, from as int, seq![]),
{
    let ghost s = v@;
    let mut open: Vec<String> = Vec::new();
    assert(open.deep_view() =~= seq![]);
    let mut j: usize = from;
    while j < v.len()
        invariant
            j <= v@.len(),
            s == v@,
            comment_ok(s, j as int, open.deep_view()) == comment_ok(s, from as int, seq![]),
        decreases v@.len() - j,
    {
        if !opens(v, j) {
            j += 1;
        } else {
            let (ts, end) = read(v, j);
            if !check_plain(v, j, &ts, end) || end <= j {
                return false;
            }
            if v[j + 1] == '%' {
                let ghost before = open.deep_view();
                match get_word(&ts, 0) {
                    Some(w) => {
                        if begins_block(w) {
                            push_name(&mut open, w);
                        } else if starts_with(w, "end") {
                            match open.pop() {
                                Some(name) => {
                                    assert(before.len() > 0 && before.last() == name@);
                                    assert(open.deep_view() =~= before.drop_last());
                                    if !str_eq(w, cat2("end", name.as_str()).as_str()) {
                                        return false;
                                    }
                                },
                                None => {
                                    assert(before.len() == 0);
                                    return str_eq(w, "endcomment");
                                },
                            }
                        }
                    },
                    None => {
                        return false;
                    },
                }
            }
            j = end;
        }
    }
    false
}

fn applies(ts: &Vec<Token>, name: &str) -> (r: bool)
    ensures
        r == has_filter(ts.deep_view(), name@),
{
    let ghost tv = ts.deep_view();
    assert(tv.len() == ts@.len());
    let mut k: usize = 0;
    while k < ts.len()
        invariant
            k <= ts@.len(),
            tv == ts.deep_view(),
            tv.len() == ts@.len(),
            forall|j: int|
                0 <= j < k ==> !(#[trigger] sign_at(tv, j, '|') && is_word(tv, j + 1, name@)),
        decreases ts@.len() - k,
    {
        if has_sign(ts, k, '|') && has_word(ts, k + 1, name) {
            assert(sign_at(tv, k as int, '|'));
            return true;
        }
        k += 1;
    }
    false
}

fn find_lead(v: &Vec<char>, i: usize) -> (r: usize)
    requires
        i <= v@.len(),
    ensures
        r == lead(v@, i as int),
        r <= i,
{
    let mut p: usize = i;
    while p > 0 && blank(v[p - 1])
        invariant
            p <= i <= v@.len(),
            before_blanks(v@, p as int) == before_blanks(v@, i as int),
        decreases p,
    {
        p -= 1;
    }
    let mut l: usize = p;
    while l > 0 && v[l - 1] != '\n'
        invariant
            l <= p <= i <= v@.len(),
            p == before_blanks(v@, i as int),
            line_start(v@, l as int) == line_start(v@, p as int),
        decreases l,
    {
        l -= 1;
    }
    l
}

/// Whether, from `from` on, before `to`, a quote stands after the beginning of a
/// tag or an output; and whether there is a character beyond ASCII.
fn scan_lead(v: &Vec<char>, from: usize, to: usize) -> (r: (bool, bool))
    requires
        from <= to <= v@.len(),
    ensures
        r.0 == quoted(v@, from as int, to as int),
        r.1 == wide(v@, from as int, to as int),
{
    let ghost s = v@;
    let mut open = false;
    let mut found = false;
    let mut beyond = false;
    let mut q: usize = from;
    while q < to
        invariant
            from <= q <= to <= v@.len(),
            s == v@,
            open == opened(s, from as int, q as int),
            found == quoted(s, from as int, q as int),
            beyond == wide(s, from as int, q as int),
        decreases to - q,
    {
        let ghost (was_open, was_found, was_wide) = (open, found, beyond);
        if quote(v[q]) && open {
            found = true;
        }
        if v[q] as u32 > 127 {
            beyond = true;
        }
        if opens(v, q) {
            open = true;
        }
        proof {
            let next = q + 1;
            if found && !was_found {
                assert(is_quote(s[q as int]) && opened(s, from as int, q as int));
            }
            if was_found {
                let w = choose|w: int|
                    from <= w < q && is_quote(#[trigger] s[w]) && opened(s, from as int, w);
                assert(from <= w < next && is_quote(s[w]));
            }
            if quoted(s, from as int, next) && !was_found {
                let w = choose|w: int|
                    from <= w < next && is_quote(#[trigger] s[w]) && opened(s, from as int, w);
                assert(w == q);
            }
            if was_wide {
                let w = choose|w: int| from <= w < q && (#[trigger] s[w]) as u32 > 127;
                assert(from <= w < next);
            }
            if beyond && !was_wide {
                assert(s[q as int] as u32 > 127);
            }
            if was_open {
                let w = choose|w: int| from <= w < q && #[trigger] opens_at(s, w);
                assert(from <= w < next);
            }
            if open && !was_open {
                assert(opens_at(s, q as int));
            }
        }
        q += 1;
    }
    (found, beyond)
}

fn newline_in(v: &Vec<char>, from: usize, to: usize) -> (r: bool)
    requires
        to <= v@.len(),
    ensures
        r == has_newline(v@, from as int, to as int),
{
    let mut k: usize = from;
    while k < to
        invariant
            from <= k,
            to <= v@.len(),
            forall|j: int| from <= j < k ==> #[trigger] v@[j] != '\n',
        decreases to - k,
    {
        if v[k] == '\n' {
            return true;
        }
        k += 1;
    }
    false
}

fn crosses(v: &Vec<char>) -> (r: bool)
    ensures
        r == crosses_lines(v@),
{
    let mut i: usize = 0;
    while i < v.len()
        invariant
            i <= v@.len(),
            forall|j: int|
                0 <= j < i && #[trigger] opens_at(v@, j) ==> !has_newline(
                    v@,
                    j,
                    lexed(v@, inside(v@, j)).1,
                ),
        decreases v@.len() - i,
    {
        if opens(v, i) {
            let (_, end) = read(v, i);
            if newline_in(v, i, end) {
                assert(opens_at(v@, i as int));
                return true;
            }
        }
        i += 1;
    }
    false
}

/// Whether the tag or output that may begin at `i`, with these tokens and this
/// end, cannot break off.
fn check_region(v: &Vec<char>, i: usize, ts: &Vec<Token>, end: usize, known: &Known) -> (r: bool)
    requires
        opens_at(v@, i as int),
        ts.deep_view() == tokens(v@, i as int),
        end == lexed(v@, inside(v@, i as int)).1,
        end <= v@.len(),
    ensures
        r == region_ok(v@, i as int, known.deep_view()),
{
    let n = v.len();
    assert(i + 2 <= n);
    if !check_tokens(ts, known) {
        return false;
    }
    let tag = v[i + 1] == '%';
    if risky(ts) {
        if !check_plain(v, i, ts, end) {
            return false;
        }
        let from: usize = if tag {
            3
        } else {
            0
        };
        if (tag && !assigns(ts)) || evaluate(ts, from, known).is_none() {
            return false;
        }
    }
    !tag || (check_tag_form(ts) && (!has_word(ts, 0, "comment") || check_comment(v, end)))
}

/// Whether the template can be rendered with these globals, to a text or to an
/// error.
pub fn check_template(template: &str, globals: &Vec<(String, TemplateValue)>) -> (r: bool)
    ensures
        r == is_steady(template@, globals.deep_view()),
{
    let v = to_chars(template);
    let ghost s = v@;
    let ghost gs = globals.deep_view();
    let known = find_known(&v, globals);
    let crossing = crosses(&v);
    let mut sorts = false;
    let mut joins = false;
    let mut objects = false;
    let mut i: usize = 0;
    while i < v.len()
        invariant
            i <= v@.len(),
            s == v@,
            s == template@,
            gs == globals.deep_view(),
            known.deep_view() == known_of(s, gs),
            crossing == crosses_lines(s),
            forall|j: int|
                0 <= j < i && #[trigger] opens_at(s, j) ==> region_ok(s, j, known_of(s, gs))
                    && !can_be_misread(s, j),
            sorts ==> uses_filter(s, "sort"@),
            joins ==> uses_filter(s, "concat"@),
            objects ==> uses_objects(s),
            !sorts ==> forall|j: int|
                0 <= j < i && #[trigger] opens_at(s, j) ==> !has_filter(tokens(s, j), "sort"@),
            !joins ==> forall|j: int|
                0 <= j < i && #[trigger] opens_at(s, j) ==> !has_filter(tokens(s, j), "concat"@),
            !objects ==> forall|j: int|
                0 <= j < i && #[trigger] opens_at(s, j) ==> !lists_objects(s, j),
        decreases v@.len() - i,
    {
        if opens(&v, i) {
            assert(opens_at(s, i as int));
            let (ts, end) = read(&v, i);
            if !check_region(&v, i, &ts, end, &known) {
                assert(!region_ok(s, i as int, known_of(s, gs)));
                return false;
            }
            if !check_plain(&v, i, &ts, end) {
                let from = find_lead(&v, i);
                let (found, beyond) = scan_lead(&v, from, i);
                if found && (beyond || crossing) {
                    assert(can_be_misread(s, i as int));
                    return false;
                }
            }
            if applies(&ts, "sort") {
                sorts = true;
            }
            if applies(&ts, "concat") {
                joins = true;
            }
            if applies(&ts, "where") || (v[i + 1] == '%' && (has_word(&ts, 0, "for") || has_word(
                &ts,
                0,
                "tablerow",
            ))) {
                assert(lists_objects(s, i as int));
                objects = true;
            }
        }
        i += 1;
    }
    !(sorts && joins && objects)
}

} // verus!
