//! Search filters on string and numeric columns, planned as plain conditions.
//!
//! The LIKE-family string filters fold case across the full Unicode range:
//! the column is wrapped in the custom `ulower()` SQL function and the value
//! is lowercased (std's `to_lowercase`). SQLite's own `lower()`/LIKE only fold
//! ASCII, which would leave Cyrillic or accented searches case-sensitive.
use crate::text::{ascii_lower_char, ascii_lowercase, chars_of, from_utf8_lossy, string_from_chars, to_lowercase, unicode_lowercase, utf8_lossy_decode};
use vstd::utf8::*;
use vstd::prelude::*;
use vstd::string::*;

verus! {

/// The name of the Unicode-lowercasing SQL function registered on every
/// SQLite connection.
pub const UNICODE_LOWER_FN: &'static str = "ulower";

/// A filter on a string-like column.
pub enum StringLikeFilter {
    Eq(String),
    Neq(String),
    AnyOf(Vec<String>),
    NoneOf(Vec<String>),
    Like(String),
    LikeAnyOf(Vec<String>),
    LikeNoneOf(Vec<String>),
    Contains(String),
    Excludes(String),
    StartsWith(String),
    EndsWith(String),
}

/// The condition a string filter puts on its column.
pub enum StringCondition {
    /// `column = value`, exact
    Equals(String),
    /// `column <> value`, exact
    NotEquals(String),
    /// `column IN (values)`
    In(Vec<String>),
    /// `column NOT IN (values)`
    NotIn(Vec<String>),
    /// `ulower(column) LIKE pattern`, the pattern's metacharacters live
    LowerLike(String),
    /// `ulower(column) NOT LIKE pattern`, the pattern's metacharacters live
    LowerNotLike(String),
    /// `ulower(column) LIKE pattern ESCAPE '\'`
    LowerLikeEscaped(String),
    /// `ulower(column) LIKE p ESCAPE '\'` for one of the patterns
    AnyLowerLikeEscaped(Vec<String>),
    /// `NOT (ulower(column) LIKE p ESCAPE '\' OR ...)` over the patterns
    NoneLowerLikeEscaped(Vec<String>),
}

/// The view of a string condition.
pub ghost enum StringConditionView {
    Equals(Seq<char>),
    NotEquals(Seq<char>),
    In(Seq<Seq<char>>),
    NotIn(Seq<Seq<char>>),
    LowerLike(Seq<char>),
    LowerNotLike(Seq<char>),
    LowerLikeEscaped(Seq<char>),
    AnyLowerLikeEscaped(Seq<Seq<char>>),
    NoneLowerLikeEscaped(Seq<Seq<char>>),
}

/// The characters of each string.
pub open spec fn strings_view(v: Seq<String>) -> Seq<Seq<char>> {
    v.map_values(|s: String| s@)
}

impl StringCondition {
    pub open spec fn view(&self) -> StringConditionView {
        match self {
            StringCondition::Equals(v) => StringConditionView::Equals(v@),
            StringCondition::NotEquals(v) => StringConditionView::NotEquals(v@),
            StringCondition::In(v) => StringConditionView::In(strings_view(v@)),
            StringCondition::NotIn(v) => StringConditionView::NotIn(strings_view(v@)),
            StringCondition::LowerLike(v) => StringConditionView::LowerLike(v@),
            StringCondition::LowerNotLike(v) => StringConditionView::LowerNotLike(v@),
            StringCondition::LowerLikeEscaped(v) => StringConditionView::LowerLikeEscaped(v@),
            StringCondition::AnyLowerLikeEscaped(v) => StringConditionView::AnyLowerLikeEscaped(
                strings_view(v@),
            ),
            StringCondition::NoneLowerLikeEscaped(v) => StringConditionView::NoneLowerLikeEscaped(
                strings_view(v@),
            ),
        }
    }
}

/// The escape of one character for a LIKE pattern matched with `ESCAPE '\'`.
pub open spec fn like_escape_char(c: char) -> Seq<char> {
    if c == '\\' {
        seq!['\\', '\\']
    } else if c == '%' {
        seq!['\\', '%']
    } else if c == '_' {
        seq!['\\', '_']
    } else {
        seq![c]
    }
}

/// `\`, `%` and `_` escaped with a backslash, so the text matches verbatim.
pub open spec fn like_escape(s: Seq<char>) -> Seq<char>
    decreases s.len(),
{
    if s.len() == 0 {
        seq![]
    } else {
        like_escape(s.drop_last()) + like_escape_char(s.last())
    }
}

/// The literal text a LIKE pattern matched with `ESCAPE '\\'` stands for, when
/// it holds no wildcard: a `\\` takes the next character verbatim; an
/// unescaped `%` or `_`, or a trailing `\\`, makes it no literal.
pub open spec fn like_literal(p: Seq<char>) -> Option<Seq<char>>
    decreases p.len(),
{
    if p.len() == 0 {
        Some(Seq::<char>::empty())
    } else if p[0] == '\\' {
        if p.len() < 2 {
            None
        } else {
            match like_literal(p.skip(2)) {
                Some(rest) => Some(seq![p[1]] + rest),
                None => None,
            }
        }
    } else if p[0] == '%' || p[0] == '_' {
        None
    } else {
        match like_literal(p.skip(1)) {
            Some(rest) => Some(seq![p[0]] + rest),
            None => None,
        }
    }
}

pub(crate) proof fn lemma_like_escape_concat(a: Seq<char>, b: Seq<char>)
    ensures
        like_escape(a + b) == like_escape(a) + like_escape(b),
    decreases b.len(),
{
    if b.len() == 0 {
        assert(a + b =~= a);
        assert(like_escape(b) =~= Seq::<char>::empty());
        assert(like_escape(a) + like_escape(b) =~= like_escape(a));
    } else {
        assert((a + b).drop_last() =~= a + b.drop_last());
        lemma_like_escape_concat(a, b.drop_last());
        assert((a + b).last() == b.last());
        assert(like_escape(a) + like_escape(b) =~= like_escape(a) + like_escape(b.drop_last())
            + like_escape_char(b.last()));
    }
}

/// Escaped text is matched literally: the escaped form of any text is a LIKE
/// pattern without wildcards that stands for exactly that text.
pub proof fn law_escaped_text_is_literal(s: Seq<char>)
    ensures
        like_literal(like_escape(s)) == Some(s),
    decreases s.len(),
{
    if s.len() == 0 {
        assert(like_escape(s) =~= Seq::<char>::empty());
    } else {
        let c = s[0];
        let t = s.skip(1);
        assert(s =~= seq![c] + t);
        lemma_like_escape_concat(seq![c], t);
        assert(seq![c].drop_last() =~= Seq::<char>::empty());
        assert(like_escape(Seq::<char>::empty()) =~= Seq::<char>::empty());
        assert(seq![c].last() == c);
        assert(like_escape(seq![c]) =~= like_escape(Seq::<char>::empty()) + like_escape_char(c));
        assert(like_escape(seq![c]) =~= like_escape_char(c));
        law_escaped_text_is_literal(t);
        let e = like_escape(s);
        if c == '\\' || c == '%' || c == '_' {
            assert(e =~= seq!['\\', c] + like_escape(t));
            assert(e.skip(2) =~= like_escape(t));
        } else {
            assert(e =~= seq![c] + like_escape(t));
            assert(e.skip(1) =~= like_escape(t));
        }
        assert(seq![c] + t =~= s);
    }
}

/// A value lowercased (Unicode-aware) with its LIKE metacharacters escaped.
pub open spec fn lower_escaped_spec(value: Seq<char>) -> Seq<char> {
    like_escape(unicode_lowercase(value))
}

/// Lowercase (Unicode-aware) a literal and escape its LIKE metacharacters so it
/// is matched verbatim. Pair with `ESCAPE '\'` on the LIKE so the escapes are
/// honored.
pub fn lower_escaped(value: &str) -> (r: String)
    ensures
        r@ == lower_escaped_spec(value@),
{
    let lower = to_lowercase(value);
    let chars = chars_of(lower.as_str());
    let out = escape_like_chars(chars.as_slice());
    string_from_chars(out.as_slice())
}

/// Escape the LIKE metacharacters of a character sequence.
pub fn escape_like_chars(chars: &[char]) -> (r: Vec<char>)
    ensures
        r@ == like_escape(chars@),
{
    let mut out: Vec<char> = Vec::new();
    let mut i: usize = 0;
    assert(chars@.subrange(0, 0) =~= seq![]);
    while i < chars.len()
        invariant
            i <= chars@.len(),
            out@ == like_escape(chars@.subrange(0, i as int)),
        decreases chars@.len() - i,
    {
        let c = chars[i];
        if c == '\\' {
            out.push('\\');
            out.push('\\');
        } else if c == '%' {
            out.push('\\');
            out.push('%');
        } else if c == '_' {
            out.push('\\');
            out.push('_');
        } else {
            out.push(c);
        }
        let ghost prefix = chars@.subrange(0, i + 1);
        assert(prefix.drop_last() =~= chars@.subrange(0, i as int));
        assert(out@ =~= like_escape(prefix));
        i = i + 1;
    }
    assert(chars@.subrange(0, chars@.len() as int) =~= chars@);
    out
}

/// `%value%`, the value lowercased and escaped.
pub open spec fn contains_pattern(value: Seq<char>) -> Seq<char> {
    seq!['%'] + lower_escaped_spec(value) + seq!['%']
}

/// A contains, starts-with or ends-with search matches the lowercased value
/// literally: between its `%` anchors the pattern stands for exactly the
/// lowercased value, whatever `%`, `_` or `\\` it holds.
pub proof fn law_search_value_is_matched_literally(value: Seq<char>)
    ensures
        contains_pattern(value).first() == '%',
        contains_pattern(value).last() == '%',
        like_literal(contains_pattern(value).subrange(1, contains_pattern(value).len() - 1)) == Some(
            unicode_lowercase(value),
        ),
        like_literal((lower_escaped_spec(value) + seq!['%']).drop_last()) == Some(unicode_lowercase(value)),
        like_literal((seq!['%'] + lower_escaped_spec(value)).drop_first()) == Some(unicode_lowercase(value)),
{
    law_escaped_text_is_literal(unicode_lowercase(value));
    let e = lower_escaped_spec(value);
    assert(contains_pattern(value).subrange(1, contains_pattern(value).len() - 1) =~= e);
    assert((e + seq!['%']).drop_last() =~= e);
    assert((seq!['%'] + e).drop_first() =~= e);
}

/// Whether `t` matches the pattern `p` of a `LIKE p ESCAPE '\'`, as SQLite
/// reads it: `%` matches any run of characters, `_` any one character, `\`
/// makes the next character literal (a trailing `\` matches nothing), and
/// every other character matches itself with ASCII case folded
/// (both sides lowercased by [`ascii_lower_char`]).
pub open spec fn like_matches(p: Seq<char>, t: Seq<char>) -> bool
    decreases p.len() + t.len(),
{
    if p.len() == 0 {
        t.len() == 0
    } else if p[0] == '%' {
        like_matches(p.skip(1), t) || (t.len() > 0 && like_matches(p, t.skip(1)))
    } else if t.len() == 0 {
        false
    } else if p[0] == '_' {
        like_matches(p.skip(1), t.skip(1))
    } else if p[0] == '\\' {
        if p.len() < 2 {
            false
        } else {
            ascii_lower_char(p[1]) == ascii_lower_char(t[0]) && like_matches(p.skip(2), t.skip(1))
        }
    } else {
        ascii_lower_char(p[0]) == ascii_lower_char(t[0]) && like_matches(p.skip(1), t.skip(1))
    }
}

/// Whether `w` occurs in `text`, ASCII case folded.
pub open spec fn occurs_folded(text: Seq<char>, w: Seq<char>) -> bool {
    exists|i: int|
        0 <= i && i + w.len() <= text.len() && #[trigger] ascii_lowercase(text.subrange(i, i + w.len()))
            == ascii_lowercase(w)
}

/// An escaped text followed by more pattern matches exactly the texts that
/// start with that text (case folded) and go on to match the rest.
pub(crate) proof fn lemma_escaped_prefix_matches(v: Seq<char>, rest: Seq<char>, t: Seq<char>)
    ensures
        like_matches(like_escape(v) + rest, t) <==> (v.len() <= t.len() && ascii_lowercase(
            t.take(v.len() as int),
        ) == ascii_lowercase(v) && like_matches(rest, t.skip(v.len() as int))),
    decreases v.len(),
{
    if v.len() == 0 {
        assert(like_escape(v) =~= Seq::<char>::empty());
        assert(like_escape(v) + rest =~= rest);
        assert(t.take(0) =~= Seq::<char>::empty());
        assert(ascii_lowercase(t.take(0)) =~= ascii_lowercase(v));
        assert(t.skip(0) =~= t);
    } else {
        let c = v[0];
        let w = v.skip(1);
        assert(v =~= seq![c] + w);
        lemma_like_escape_concat(seq![c], w);
        assert(seq![c].drop_last() =~= Seq::<char>::empty());
        assert(like_escape(Seq::<char>::empty()) =~= Seq::<char>::empty());
        assert(like_escape(seq![c]) =~= like_escape_char(c));
        let q = like_escape(w) + rest;
        let p = like_escape(v) + rest;
        if t.len() > 0 {
            lemma_escaped_prefix_matches(w, rest, t.skip(1));
        }
        if t.len() > 0 && v.len() <= t.len() {
            assert(t.skip(1).skip(w.len() as int) =~= t.skip(v.len() as int));
            if ascii_lowercase(t.take(v.len() as int)) == ascii_lowercase(v) {
                assert(ascii_lowercase(t.take(v.len() as int))[0] == ascii_lowercase(v)[0]);
                assert(ascii_lowercase(t.skip(1).take(w.len() as int)) =~= ascii_lowercase(w)) by {
                    assert forall|k: int| 0 <= k < w.len() implies ascii_lowercase(t.skip(1).take(w.len() as int))[k]
                        == ascii_lowercase(w)[k] by {
                        assert(ascii_lowercase(t.take(v.len() as int))[k + 1] == ascii_lowercase(v)[k + 1]);
                    }
                }
            }
            if v.len() <= t.len() && ascii_lower_char(c) == ascii_lower_char(t[0]) && ascii_lowercase(
                t.skip(1).take(w.len() as int),
            ) == ascii_lowercase(w) {
                assert(ascii_lowercase(t.take(v.len() as int)) =~= ascii_lowercase(v)) by {
                    assert forall|k: int| 0 <= k < v.len() implies ascii_lowercase(t.take(v.len() as int))[k]
                        == ascii_lowercase(v)[k] by {
                        if k > 0 {
                            assert(ascii_lowercase(t.skip(1).take(w.len() as int))[k - 1] == ascii_lowercase(w)[k - 1]);
                        }
                    }
                }
            }
        }
        if c == '\\' || c == '%' || c == '_' {
            assert(p =~= seq!['\\', c] + q);
            assert(p.skip(2) =~= q);
        } else {
            assert(p =~= seq![c] + q);
            assert(p.skip(1) =~= q);
        }
    }
}

/// A lone `%` matches every text.
pub(crate) proof fn lemma_percent_matches_all(t: Seq<char>)
    ensures
        like_matches(seq!['%'], t),
    decreases t.len(),
{
    assert(seq!['%'].skip(1) =~= Seq::<char>::empty());
    assert(seq!['%'][0] == '%');
    if t.len() > 0 {
        lemma_percent_matches_all(t.skip(1));
        assert(like_matches(seq!['%'], t.skip(1)));
    } else {
        assert(like_matches(Seq::<char>::empty(), t));
        assert(like_matches(seq!['%'].skip(1), t));
    }
}

/// `%` followed by more pattern matches a text exactly when the rest matches
/// one of its suffixes.
proof fn lemma_leading_percent(q: Seq<char>, t: Seq<char>)
    ensures
        like_matches(seq!['%'] + q, t) <==> exists|i: int|
            0 <= i <= t.len() && like_matches(q, #[trigger] t.skip(i)),
    decreases t.len(),
{
    let p = seq!['%'] + q;
    assert(p.skip(1) =~= q);
    assert(t.skip(0) =~= t);
    if t.len() > 0 {
        lemma_leading_percent(q, t.skip(1));
        if like_matches(p, t.skip(1)) {
            let j = choose|j: int| 0 <= j <= t.skip(1).len() && like_matches(q, #[trigger] t.skip(1).skip(j));
            assert(t.skip(1).skip(j) =~= t.skip(j + 1));
        }
        if exists|i: int| 0 <= i <= t.len() && like_matches(q, #[trigger] t.skip(i)) {
            let i = choose|i: int| 0 <= i <= t.len() && like_matches(q, #[trigger] t.skip(i));
            if i > 0 {
                assert(t.skip(1).skip(i - 1) =~= t.skip(i));
            }
        }
    }
}

/// A pattern `%` + escaped text + `%` matches exactly the texts in which that
/// text occurs (ASCII case folded): the escaped text is matched literally.
pub proof fn law_escaped_search_matches_occurrence(w: Seq<char>, t: Seq<char>)
    ensures
        like_matches(seq!['%'] + like_escape(w) + seq!['%'], t) <==> occurs_folded(t, w),
{
    let q = like_escape(w) + seq!['%'];
    assert(seq!['%'] + like_escape(w) + seq!['%'] =~= seq!['%'] + q);
    lemma_leading_percent(q, t);
    if like_matches(seq!['%'] + q, t) {
        let i = choose|i: int| 0 <= i <= t.len() && like_matches(q, #[trigger] t.skip(i));
        lemma_escaped_prefix_matches(w, seq!['%'], t.skip(i));
        assert(t.skip(i).take(w.len() as int) =~= t.subrange(i, i + w.len()));
    }
    if occurs_folded(t, w) {
        let i = choose|i: int|
            0 <= i && i + w.len() <= t.len() && #[trigger] ascii_lowercase(t.subrange(i, i + w.len()))
                == ascii_lowercase(w);
        lemma_escaped_prefix_matches(w, seq!['%'], t.skip(i));
        assert(t.skip(i).take(w.len() as int) =~= t.subrange(i, i + w.len()));
        lemma_percent_matches_all(t.skip(i).skip(w.len() as int));
        assert(like_matches(q, t.skip(i)));
    }
}

/// The contains-patterns of several values.
pub open spec fn contains_patterns(values: Seq<Seq<char>>) -> Seq<Seq<char>> {
    values.map_values(|v: Seq<char>| contains_pattern(v))
}

fn contains_pattern_exec(value: &String) -> (r: String)
    ensures
        r@ == contains_pattern(value@),
{
    let escaped = lower_escaped(value.as_str());
    let mut r = String::from_str("%");
    r.append(escaped.as_str());
    r.append("%");
    proof {
        reveal_strlit("%");
    }
    assert(r@ =~= contains_pattern(value@));
    r
}

fn contains_patterns_exec(values: &Vec<String>) -> (r: Vec<String>)
    ensures
        strings_view(r@) == contains_patterns(strings_view(values@)),
{
    let mut r: Vec<String> = Vec::new();
    let mut i: usize = 0;
    while i < values.len()
        invariant
            i <= values@.len(),
            r@.len() == i,
            forall|k: int| 0 <= k < i ==> (#[trigger] r@[k])@ == contains_pattern(values@[k]@),
        decreases values@.len() - i,
    {
        r.push(contains_pattern_exec(&values[i]));
        i = i + 1;
    }
    assert(strings_view(r@) =~= contains_patterns(strings_view(values@)));
    r
}

fn clone_strings(v: &Vec<String>) -> (r: Vec<String>)
    ensures
        strings_view(r@) == strings_view(v@),
{
    let mut r: Vec<String> = Vec::new();
    let mut i: usize = 0;
    while i < v.len()
        invariant
            i <= v@.len(),
            r@.len() == i,
            forall|k: int| 0 <= k < i ==> (#[trigger] r@[k])@ == v@[k]@,
        decreases v@.len() - i,
    {
        r.push(v[i].clone());
        i = i + 1;
    }
    assert(strings_view(r@) =~= strings_view(v@));
    r
}

/// The view of a string filter's plan.
pub open spec fn string_filter_spec(filter: StringLikeFilter) -> StringConditionView {
    match filter {
        StringLikeFilter::Eq(v) => StringConditionView::Equals(v@),
        StringLikeFilter::Neq(v) => StringConditionView::NotEquals(v@),
        StringLikeFilter::AnyOf(vs) => StringConditionView::In(strings_view(vs@)),
        StringLikeFilter::NoneOf(vs) => StringConditionView::NotIn(strings_view(vs@)),
        StringLikeFilter::Like(v) => StringConditionView::LowerLike(unicode_lowercase(v@)),
        StringLikeFilter::Contains(v) => StringConditionView::LowerLikeEscaped(contains_pattern(v@)),
        StringLikeFilter::Excludes(v) => StringConditionView::LowerNotLike(unicode_lowercase(v@)),
        StringLikeFilter::StartsWith(v) => StringConditionView::LowerLikeEscaped(
            lower_escaped_spec(v@) + seq!['%'],
        ),
        StringLikeFilter::EndsWith(v) => StringConditionView::LowerLikeEscaped(
            seq!['%'] + lower_escaped_spec(v@),
        ),
        StringLikeFilter::LikeAnyOf(vs) => StringConditionView::AnyLowerLikeEscaped(
            contains_patterns(strings_view(vs@)),
        ),
        StringLikeFilter::LikeNoneOf(vs) => StringConditionView::NoneLowerLikeEscaped(
            contains_patterns(strings_view(vs@)),
        ),
    }
}

/// Plan the condition a string filter puts on its column: exact comparisons
/// for `Eq`/`Neq`/`AnyOf`/`NoneOf`; for the LIKE family the column is
/// Unicode-lowercased and the value lowercased, with `Contains`, `StartsWith`,
/// `EndsWith`, `LikeAnyOf` and `LikeNoneOf` matching the value verbatim
/// (escaped) and `Like`/`Excludes` keeping the value's own wildcards.
pub fn apply_string_filter(filter: StringLikeFilter) -> (r: StringCondition)
    ensures
        r.view() == string_filter_spec(filter),
{
    match filter {
        StringLikeFilter::Eq(v) => StringCondition::Equals(v),
        StringLikeFilter::Neq(v) => StringCondition::NotEquals(v),
        StringLikeFilter::AnyOf(vs) => StringCondition::In(vs),
        StringLikeFilter::NoneOf(vs) => StringCondition::NotIn(vs),
        StringLikeFilter::Like(v) => StringCondition::LowerLike(to_lowercase(v.as_str())),
        StringLikeFilter::Contains(v) => StringCondition::LowerLikeEscaped(contains_pattern_exec(&v)),
        StringLikeFilter::Excludes(v) => StringCondition::LowerNotLike(to_lowercase(v.as_str())),
        StringLikeFilter::StartsWith(v) => {
            let mut p = lower_escaped(v.as_str());
            p.append("%");
            proof {
                reveal_strlit("%");
            }
            assert(p@ =~= lower_escaped_spec(v@) + seq!['%']);
            StringCondition::LowerLikeEscaped(p)
        },
        StringLikeFilter::EndsWith(v) => {
            let escaped = lower_escaped(v.as_str());
            let mut p = String::from_str("%");
            p.append(escaped.as_str());
            proof {
                reveal_strlit("%");
            }
            assert(p@ =~= seq!['%'] + lower_escaped_spec(v@));
            StringCondition::LowerLikeEscaped(p)
        },
        StringLikeFilter::LikeAnyOf(vs) => StringCondition::AnyLowerLikeEscaped(contains_patterns_exec(&vs)),
        StringLikeFilter::LikeNoneOf(vs) => StringCondition::NoneLowerLikeEscaped(contains_patterns_exec(&vs)),
    }
}

/// A range of values.
pub struct NumericRange<T> {
    pub from: T,
    pub to: T,
    pub inclusive: bool,
}

/// A filter on a numeric column.
pub enum NumericFilter<T> {
    Eq(T),
    Neq(T),
    AnyOf(Vec<T>),
    NoneOf(Vec<T>),
    Gt(T),
    Gte(T),
    Lt(T),
    Lte(T),
    Range(NumericRange<T>),
}

/// A comparison of the column with a value.
#[derive(Clone, Copy, Debug, PartialEq, Eq, Structural)]
pub enum Comparison {
    Eq,
    Ne,
    Gt,
    Gte,
    Lt,
    Lte,
}

/// The condition a numeric filter puts on its column.
pub enum NumericCondition<T> {
    /// `column <op> value`
    Compare(Comparison, T),
    /// `column IN (values)`
    In(Vec<T>),
    /// `column NOT IN (values)`
    NotIn(Vec<T>),
    /// Both comparisons hold
    Both((Comparison, T), (Comparison, T)),
}

/// Plan the condition a numeric filter puts on its column; a range is bounded
/// by `>=`/`<=` when inclusive and by `>`/`<` otherwise.
pub fn apply_numeric_filter<T>(filter: NumericFilter<T>) -> (r: NumericCondition<T>)
    ensures
        match filter {
            NumericFilter::Eq(v) => r == NumericCondition::Compare(Comparison::Eq, v),
            NumericFilter::Neq(v) => r == NumericCondition::Compare(Comparison::Ne, v),
            NumericFilter::AnyOf(vs) => r == NumericCondition::In(vs),
            NumericFilter::NoneOf(vs) => r == NumericCondition::NotIn(vs),
            NumericFilter::Gt(v) => r == NumericCondition::Compare(Comparison::Gt, v),
            NumericFilter::Gte(v) => r == NumericCondition::Compare(Comparison::Gte, v),
            NumericFilter::Lt(v) => r == NumericCondition::Compare(Comparison::Lt, v),
            NumericFilter::Lte(v) => r == NumericCondition::Compare(Comparison::Lte, v),
            NumericFilter::Range(range) => if range.inclusive {
                r == NumericCondition::Both((Comparison::Gte, range.from), (Comparison::Lte, range.to))
            } else {
                r == NumericCondition::Both((Comparison::Gt, range.from), (Comparison::Lt, range.to))
            },
        },
{
    match filter {
        NumericFilter::Eq(v) => NumericCondition::Compare(Comparison::Eq, v),
        NumericFilter::Neq(v) => NumericCondition::Compare(Comparison::Ne, v),
        NumericFilter::AnyOf(vs) => NumericCondition::In(vs),
        NumericFilter::NoneOf(vs) => NumericCondition::NotIn(vs),
        NumericFilter::Gt(v) => NumericCondition::Compare(Comparison::Gt, v),
        NumericFilter::Gte(v) => NumericCondition::Compare(Comparison::Gte, v),
        NumericFilter::Lt(v) => NumericCondition::Compare(Comparison::Lt, v),
        NumericFilter::Lte(v) => NumericCondition::Compare(Comparison::Lte, v),
        NumericFilter::Range(range) => if range.inclusive {
            NumericCondition::Both((Comparison::Gte, range.from), (Comparison::Lte, range.to))
        } else {
            NumericCondition::Both((Comparison::Gt, range.from), (Comparison::Lt, range.to))
        },
    }
}

/// A filter on a computed (conceptual) value.
pub enum ConceptualFilter<T> {
    Is(T),
    IsNot(T),
    IsAnyOf(Vec<T>),
    IsNoneOf(Vec<T>),
}

/// The value of `ulower(X)`: NULL for NULL, else the Unicode lowercase of the
/// text (invalid UTF-8 replaced, never an error), and NULL when the result is
/// too long for SQLite.
pub open spec fn ulower_spec(value: Option<Seq<u8>>) -> Option<Seq<char>> {
    match value {
        None => None,
        Some(bytes) => {
            let lowered = unicode_lowercase(utf8_lossy_decode(bytes));
            if encode_utf8(lowered).len() <= i32::MAX {
                Some(lowered)
            } else {
                None
            }
        },
    }
}

/// Compute `ulower(X)` of the SQL value `value` (`None` for NULL).
pub fn ulower_value(value: Option<&[u8]>) -> (r: Option<String>)
    ensures
        value is None ==> r is None,
        value matches Some(b) ==> match ulower_spec(Some(b@)) {
            Some(l) => r matches Some(s) && s@ == l,
            None => r is None,
        },
{
    match value {
        None => None,
        Some(bytes) => {
            let decoded = from_utf8_lossy(bytes);
            let lowered = to_lowercase(decoded.as_str());
            if lowered.as_str().as_bytes().len() <= 0x7fff_ffffusize {
                Some(lowered)
            } else {
                None
            }
        },
    }
}

} // verus!
