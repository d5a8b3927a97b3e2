//! Placeholder covers for books without a usable cover image: the text shown
//! on the cover, the background picked deterministically from the title, and
//! the greedy wrapping of that text into lines.
use crate::text::{chars_of, string_from_chars, trim_chars, trim_spec, is_whitespace, is_whitespace_spec};
use vstd::prelude::*;
use vstd::string::*;
use vstd::utf8::*;

verus! {

/// The width of a placeholder cover, in pixels.
pub const PLACEHOLDER_WIDTH: u32 = 600;
/// The height of a placeholder cover, in pixels.
pub const PLACEHOLDER_HEIGHT: u32 = 900;
/// The most lines the title is wrapped into.
pub const MAX_TITLE_LINES: usize = 7;
/// The most lines the author is wrapped into.
pub const MAX_AUTHOR_LINES: usize = 2;

/// The title shown on a placeholder: the trimmed title, or `Untitled` when
/// nothing is left.
pub open spec fn placeholder_title_spec(title: Seq<char>) -> Seq<char> {
    if trim_spec(title).len() == 0 {
        "Untitled"@
    } else {
        trim_spec(title)
    }
}

/// The title shown on a placeholder cover.
pub fn placeholder_title(title: &str) -> (r: String)
    ensures
        r@ == placeholder_title_spec(title@),
{
    let chars = chars_of(title);
    let trimmed = trim_chars(chars.as_slice(), 0, chars.len());
    assert(chars@.subrange(0, chars@.len() as int) =~= chars@);
    if trimmed.len() == 0 {
        String::from_str("Untitled")
    } else {
        string_from_chars(trimmed.as_slice())
    }
}

/// The author shown on a placeholder: the trimmed author, when something is
/// left.
pub open spec fn placeholder_author_spec(author: Option<Seq<char>>) -> Option<Seq<char>> {
    match author {
        Some(a) => if trim_spec(a).len() == 0 {
            None
        } else {
            Some(trim_spec(a))
        },
        None => None,
    }
}

/// The author shown on a placeholder cover, if any.
pub fn placeholder_author(author: Option<&str>) -> (r: Option<String>)
    ensures
        match placeholder_author_spec(
            match author {
                Some(a) => Some(a@),
                None => None,
            },
        ) {
            Some(a) => r matches Some(s) && s@ == a,
            None => r is None,
        },
{
    match author {
        Some(a) => {
            let chars = chars_of(a);
            let trimmed = trim_chars(chars.as_slice(), 0, chars.len());
            assert(chars@.subrange(0, chars@.len() as int) =~= chars@);
            if trimmed.len() == 0 {
                None
            } else {
                Some(string_from_chars(trimmed.as_slice()))
            }
        },
        None => None,
    }
}

/// The FNV-1a offset basis.
pub const FNV_OFFSET_BASIS: u64 = 0xcbf29ce484222325;
/// The FNV-1a prime.
pub const FNV_PRIME: u64 = 0x100000001b3;

/// The 64-bit FNV-1a hash of a byte sequence: stable across runs and
/// machines.
pub open spec fn fnv1a(bytes: Seq<u8>) -> u64
    decreases bytes.len(),
{
    if bytes.len() == 0 {
        FNV_OFFSET_BASIS
    } else {
        vstd::wrapping::u64_specs::wrapping_mul(
            fnv1a(bytes.drop_last()) ^ (bytes.last() as u64),
            FNV_PRIME,
        )
    }
}

/// Hash the bytes of `seed` with FNV-1a.
pub fn fnv1a_hash(seed: &[u8]) -> (r: u64)
    ensures
        r == fnv1a(seed@),
{
    let mut hash: u64 = FNV_OFFSET_BASIS;
    let mut i: usize = 0;
    assert(seed@.subrange(0, 0) =~= Seq::<u8>::empty());
    while i < seed.len()
        invariant
            i <= seed@.len(),
            hash == fnv1a(seed@.subrange(0, i as int)),
        decreases seed@.len() - i,
    {
        hash = hash ^ (seed[i] as u64);
        hash = hash.wrapping_mul(FNV_PRIME);
        assert(seed@.subrange(0, i + 1).drop_last() =~= seed@.subrange(0, i as int));
        i = i + 1;
    }
    assert(seed@.subrange(0, seed@.len() as int) =~= seed@);
    hash
}

/// The number of background colors of the palette.
pub const PALETTE_LEN: u64 = 8;

/// The muted, book-ish background palette, by index: slate blue, plum,
/// forest, leather brown, indigo grey, brick, teal, violet grey.
pub open spec fn palette_spec(index: u64) -> (u8, u8, u8) {
    if index == 0 {
        (52, 73, 94)
    } else if index == 1 {
        (84, 56, 71)
    } else if index == 2 {
        (47, 89, 70)
    } else if index == 3 {
        (105, 72, 49)
    } else if index == 4 {
        (61, 64, 91)
    } else if index == 5 {
        (112, 66, 65)
    } else if index == 6 {
        (44, 95, 95)
    } else {
        (90, 70, 100)
    }
}

/// The background color of the placeholder of a book with this (shown)
/// title: the palette entry its FNV-1a hash selects.
pub fn background_color(title: &str) -> (r: (u8, u8, u8))
    ensures
        r == palette_spec(fnv1a(encode_utf8(title@)) % PALETTE_LEN),
{
    let hash = fnv1a_hash(title.as_bytes());
    let index = hash % PALETTE_LEN;
    if index == 0 {
        (52, 73, 94)
    } else if index == 1 {
        (84, 56, 71)
    } else if index == 2 {
        (47, 89, 70)
    } else if index == 3 {
        (105, 72, 49)
    } else if index == 4 {
        (61, 64, 91)
    } else if index == 5 {
        (112, 66, 65)
    } else if index == 6 {
        (44, 95, 95)
    } else {
        (90, 70, 100)
    }
}

/// The words of a text: its maximal runs of non-whitespace characters, with
/// `current` the run being read.
pub open spec fn words_from(s: Seq<char>, current: Seq<char>) -> Seq<Seq<char>>
    decreases s.len(),
{
    if s.len() == 0 {
        if current.len() > 0 {
            seq![current]
        } else {
            Seq::<Seq<char>>::empty()
        }
    } else if is_whitespace_spec(s[0]) {
        (if current.len() > 0 {
            seq![current]
        } else {
            Seq::<Seq<char>>::empty()
        }) + words_from(s.drop_first(), Seq::<char>::empty())
    } else {
        words_from(s.drop_first(), current.push(s[0]))
    }
}

/// std's `str::split_whitespace`: the maximal runs of non-whitespace
/// characters of a text.
pub open spec fn words_spec(s: Seq<char>) -> Seq<Seq<char>> {
    words_from(s, Seq::<char>::empty())
}

/// The views of a list of character vectors.
pub open spec fn lines_view(v: Seq<Vec<char>>) -> Seq<Seq<char>> {
    v.map_values(|l: Vec<char>| l@)
}

/// Split a text into its words.
pub fn split_words(chars: &[char]) -> (r: Vec<Vec<char>>)
    ensures
        lines_view(r@) == words_spec(chars@),
{
    let mut words: Vec<Vec<char>> = Vec::new();
    let mut current: Vec<char> = Vec::new();
    let mut i: usize = 0;
    assert(chars@.skip(0) =~= chars@);
    assert(lines_view(words@) =~= Seq::<Seq<char>>::empty());
    while i < chars.len()
        invariant
            i <= chars@.len(),
            lines_view(words@) + words_from(chars@.skip(i as int), current@) == words_spec(chars@),
        decreases chars@.len() - i,
    {
        let c = chars[i];
        let ghost rest = chars@.skip(i as int);
        assert(rest[0] == c);
        assert(rest.drop_first() =~= chars@.skip(i + 1));
        if is_whitespace(c) {
            if current.len() > 0 {
                let ghost before = words@;
                words.push(current);
                assert(lines_view(words@) =~= lines_view(before).push(current@));
                assert(lines_view(words@) + words_from(chars@.skip(i + 1), Seq::<char>::empty()) =~= lines_view(before) + (seq![current@] + words_from(chars@.skip(i + 1), Seq::<char>::empty())));
            } else {
                assert(Seq::<Seq<char>>::empty() + words_from(chars@.skip(i + 1), Seq::<char>::empty()) =~= words_from(chars@.skip(i + 1), Seq::<char>::empty()));
            }
            current = Vec::new();
        } else {
            current.push(c);
        }
        i = i + 1;
    }
    assert(chars@.skip(i as int) =~= Seq::<char>::empty());
    if current.len() > 0 {
        let ghost before = words@;
        words.push(current);
        assert(lines_view(words@) =~= lines_view(before).push(current@));
        assert(lines_view(before) + seq![current@] =~= lines_view(before).push(current@));
    } else {
        assert(lines_view(words@) + Seq::<Seq<char>>::empty() =~= lines_view(words@));
    }
    words
}

/// The state of wrapping a text: the lines done, the line being filled, and
/// whether the text was cut short.
pub ghost struct WrapState {
    pub lines: Seq<Seq<char>>,
    pub current: Seq<char>,
    pub truncated: bool,
}

/// The state wrapping starts from.
pub open spec fn wrap_start() -> WrapState {
    WrapState { lines: Seq::<Seq<char>>::empty(), current: Seq::<char>::empty(), truncated: false }
}

/// The line `current` extended by `word`, one space between them.
pub open spec fn joined(current: Seq<char>, word: Seq<char>) -> Seq<char> {
    if current.len() == 0 {
        word
    } else {
        current.push(' ') + word
    }
}

/// Hard-break a word wider than a line, character by character: a character
/// that makes the line too wide starts a new line. Stops once the lines are
/// used up.
pub open spec fn break_word(fits: spec_fn(Seq<char>) -> bool, max: nat, st: WrapState, chars: Seq<char>) -> WrapState
    decreases chars.len(),
{
    if chars.len() == 0 || st.truncated {
        st
    } else {
        let ch = chars[0];
        let pushed = st.current.push(ch);
        let next = if fits(pushed) {
            WrapState { current: pushed, ..st }
        } else {
            let lines = st.lines.push(st.current);
            WrapState { lines, current: seq![ch], truncated: lines.len() >= max }
        };
        break_word(fits, max, next, chars.drop_first())
    }
}

/// Place one word: on the current line when it fits there; else the line is
/// closed (stopping once the lines are used up) and the word starts the
/// next one, hard-broken when it is wider than a line.
pub open spec fn word_step(fits: spec_fn(Seq<char>) -> bool, max: nat, st: WrapState, word: Seq<char>) -> WrapState {
    let candidate = joined(st.current, word);
    if fits(candidate) {
        WrapState { current: candidate, ..st }
    } else {
        let closed = if st.current.len() > 0 {
            let lines = st.lines.push(st.current);
            WrapState { lines, current: Seq::<char>::empty(), truncated: lines.len() >= max }
        } else {
            st
        };
        if closed.truncated {
            closed
        } else if fits(word) {
            WrapState { current: word, ..closed }
        } else {
            break_word(fits, max, closed, word)
        }
    }
}

/// Place the words in order, until the lines are used up.
pub open spec fn wrap_words(fits: spec_fn(Seq<char>) -> bool, max: nat, st: WrapState, words: Seq<Seq<char>>) -> WrapState
    decreases words.len(),
{
    if words.len() == 0 || st.truncated {
        st
    } else {
        wrap_words(fits, max, word_step(fits, max, st, words[0]), words.drop_first())
    }
}

/// The last line of a cut text: shortened until it fits with an ellipsis,
/// then ended with one.
pub open spec fn ellipsized(fits: spec_fn(Seq<char>) -> bool, last: Seq<char>) -> Seq<char>
    decreases last.len(),
{
    if last.len() > 0 && !fits(last.push('\u{2026}')) {
        ellipsized(fits, last.drop_last())
    } else {
        last.push('\u{2026}')
    }
}

/// Greedy word wrap of `text` into at most `max` lines, where `fits` says
/// whether a line fits the width: an ellipsis ends the last line when the
/// text does not fit, and words wider than a line are hard-broken.
pub open spec fn wrap_text_spec(fits: spec_fn(Seq<char>) -> bool, text: Seq<char>, max: nat) -> Seq<Seq<char>> {
    let st = wrap_words(fits, max, wrap_start(), words_spec(text));
    let all = if !st.truncated && st.current.len() > 0 {
        st.lines.push(st.current)
    } else {
        st.lines
    };
    let truncated = st.truncated || all.len() > max;
    let kept = if all.len() > max {
        all.take(max as int)
    } else {
        all
    };
    if truncated && kept.len() > 0 {
        kept.update(kept.len() - 1, ellipsized(fits, kept.last()))
    } else {
        kept
    }
}

/// A wrapped text never has more lines than allowed.
pub proof fn law_wrap_respects_max_lines(fits: spec_fn(Seq<char>) -> bool, text: Seq<char>, max: nat)
    ensures
        wrap_text_spec(fits, text, max).len() <= max,
{
}

/// A line is acceptable when it fits the width, or holds at most one
/// character (a character, or an ellipsis, wider than a whole line).
pub open spec fn line_ok(fits: spec_fn(Seq<char>) -> bool, line: Seq<char>) -> bool {
    fits(line) || line.len() <= 1
}

/// Every line so far, and the line being filled, is acceptable.
pub open spec fn state_ok(fits: spec_fn(Seq<char>) -> bool, st: WrapState) -> bool {
    &&& forall|i: int| 0 <= i < st.lines.len() ==> line_ok(fits, #[trigger] st.lines[i])
    &&& line_ok(fits, st.current)
}

proof fn lemma_push_ok(fits: spec_fn(Seq<char>) -> bool, lines: Seq<Seq<char>>, line: Seq<char>)
    requires
        forall|i: int| 0 <= i < lines.len() ==> line_ok(fits, #[trigger] lines[i]),
        line_ok(fits, line),
    ensures
        forall|i: int| 0 <= i < lines.push(line).len() ==> line_ok(fits, #[trigger] lines.push(line)[i]),
{
    assert forall|i: int| 0 <= i < lines.push(line).len() implies line_ok(fits, #[trigger] lines.push(line)[i]) by {
        if i < lines.len() {
            assert(lines.push(line)[i] == lines[i]);
        }
    }
}

proof fn lemma_break_word_ok(fits: spec_fn(Seq<char>) -> bool, max: nat, st: WrapState, chars: Seq<char>)
    requires
        state_ok(fits, st),
    ensures
        state_ok(fits, break_word(fits, max, st, chars)),
    decreases chars.len(),
{
    if chars.len() > 0 && !st.truncated {
        let ch = chars[0];
        let pushed = st.current.push(ch);
        if !fits(pushed) {
            lemma_push_ok(fits, st.lines, st.current);
        }
        let next = if fits(pushed) {
            WrapState { current: pushed, ..st }
        } else {
            let lines = st.lines.push(st.current);
            WrapState { lines, current: seq![ch], truncated: lines.len() >= max }
        };
        lemma_break_word_ok(fits, max, next, chars.drop_first());
    }
}

proof fn lemma_wrap_words_ok(fits: spec_fn(Seq<char>) -> bool, max: nat, st: WrapState, words: Seq<Seq<char>>)
    requires
        state_ok(fits, st),
    ensures
        state_ok(fits, wrap_words(fits, max, st, words)),
    decreases words.len(),
{
    if words.len() > 0 && !st.truncated {
        let word = words[0];
        let candidate = joined(st.current, word);
        if !fits(candidate) {
            if st.current.len() > 0 {
                lemma_push_ok(fits, st.lines, st.current);
            }
            let closed = if st.current.len() > 0 {
                let lines = st.lines.push(st.current);
                WrapState { lines, current: Seq::<char>::empty(), truncated: lines.len() >= max }
            } else {
                st
            };
            if !closed.truncated && !fits(word) {
                lemma_break_word_ok(fits, max, closed, word);
            }
        }
        lemma_wrap_words_ok(fits, max, word_step(fits, max, st, words[0]), words.drop_first());
    }
}

proof fn lemma_ellipsized_ok(fits: spec_fn(Seq<char>) -> bool, last: Seq<char>)
    ensures
        line_ok(fits, ellipsized(fits, last)),
    decreases last.len(),
{
    if last.len() > 0 && !fits(last.push('\u{2026}')) {
        lemma_ellipsized_ok(fits, last.drop_last());
    }
}

/// Every wrapped line fits the width, except a line holding a single
/// character (or just the ellipsis) that is wider than a whole line.
pub proof fn law_wrapped_lines_fit(fits: spec_fn(Seq<char>) -> bool, text: Seq<char>, max: nat)
    ensures
        forall|i: int| 0 <= i < wrap_text_spec(fits, text, max).len() ==> line_ok(fits, #[trigger] wrap_text_spec(fits, text, max)[i]),
{
    let start = wrap_start();
    assert(state_ok(fits, start));
    let st = wrap_words(fits, max, start, words_spec(text));
    lemma_wrap_words_ok(fits, max, start, words_spec(text));
    let all = if !st.truncated && st.current.len() > 0 {
        st.lines.push(st.current)
    } else {
        st.lines
    };
    if !st.truncated && st.current.len() > 0 {
        lemma_push_ok(fits, st.lines, st.current);
    }
    assert(forall|i: int| 0 <= i < all.len() ==> line_ok(fits, #[trigger] all[i]));
    let kept = if all.len() > max {
        all.take(max as int)
    } else {
        all
    };
    assert(forall|i: int| 0 <= i < kept.len() ==> line_ok(fits, #[trigger] kept[i])) by {
        assert forall|i: int| 0 <= i < kept.len() implies line_ok(fits, #[trigger] kept[i]) by {
            assert(kept[i] == all[i]);
        }
    }
    let truncated = st.truncated || all.len() > max;
    if truncated && kept.len() > 0 {
        lemma_ellipsized_ok(fits, kept.last());
        let r = kept.update(kept.len() - 1, ellipsized(fits, kept.last()));
        assert forall|i: int| 0 <= i < r.len() implies line_ok(fits, #[trigger] r[i]) by {
            if i < kept.len() - 1 {
                assert(r[i] == kept[i]);
            }
        }
    }
}

/// Lines (or words) joined with single spaces.
pub open spec fn join_spaced(parts: Seq<Seq<char>>) -> Seq<char>
    decreases parts.len(),
{
    if parts.len() == 0 {
        Seq::<char>::empty()
    } else if parts.len() == 1 {
        parts[0]
    } else {
        join_spaced(parts.drop_last()) + seq![' '] + parts.last()
    }
}

/// The state after placing every word of `text`.
pub open spec fn wrap_final_state(fits: spec_fn(Seq<char>) -> bool, text: Seq<char>, max: nat) -> WrapState {
    wrap_words(fits, max, wrap_start(), words_spec(text))
}

/// The lines filled so far, the line being filled included.
pub open spec fn placed(st: WrapState) -> Seq<Seq<char>> {
    if st.current.len() > 0 {
        st.lines.push(st.current)
    } else {
        st.lines
    }
}

/// Whether wrapping `text` into `max` lines cuts it short: the words ran out
/// of lines, or more lines were filled than allowed.
pub open spec fn wrap_is_cut(fits: spec_fn(Seq<char>) -> bool, text: Seq<char>, max: nat) -> bool {
    let st = wrap_final_state(fits, text, max);
    st.truncated || placed(st).len() > max
}

proof fn lemma_words_from_nonempty(s: Seq<char>, current: Seq<char>)
    ensures
        forall|i: int| 0 <= i < words_from(s, current).len() ==> (#[trigger] words_from(s, current)[i]).len() > 0,
    decreases s.len(),
{
    let w = words_from(s, current);
    if s.len() == 0 {
    } else if is_whitespace_spec(s[0]) {
        lemma_words_from_nonempty(s.drop_first(), Seq::<char>::empty());
        let head = if current.len() > 0 {
            seq![current]
        } else {
            Seq::<Seq<char>>::empty()
        };
        let rest = words_from(s.drop_first(), Seq::<char>::empty());
        assert(w == head + rest);
        assert forall|i: int| 0 <= i < w.len() implies (#[trigger] w[i]).len() > 0 by {
            if i >= head.len() {
                assert(w[i] == rest[i - head.len()]);
            }
        }
    } else {
        lemma_words_from_nonempty(s.drop_first(), current.push(s[0]));
        assert(w == words_from(s.drop_first(), current.push(s[0])));
    }
}

proof fn lemma_ellipsized_ends(fits: spec_fn(Seq<char>) -> bool, last: Seq<char>)
    ensures
        ellipsized(fits, last).len() > 0,
        ellipsized(fits, last).last() == '\u{2026}',
    decreases last.len(),
{
    if last.len() > 0 && !fits(last.push('\u{2026}')) {
        lemma_ellipsized_ends(fits, last.drop_last());
    }
}

proof fn lemma_break_word_lines(fits: spec_fn(Seq<char>) -> bool, max: nat, st: WrapState, chars: Seq<char>)
    requires
        st.truncated ==> st.lines.len() >= max,
    ensures
        break_word(fits, max, st, chars).truncated ==> break_word(fits, max, st, chars).lines.len() >= max,
    decreases chars.len(),
{
    if chars.len() > 0 && !st.truncated {
        let ch = chars[0];
        let pushed = st.current.push(ch);
        let next = if fits(pushed) {
            WrapState { current: pushed, ..st }
        } else {
            let lines = st.lines.push(st.current);
            WrapState { lines, current: seq![ch], truncated: lines.len() >= max }
        };
        lemma_break_word_lines(fits, max, next, chars.drop_first());
    }
}

proof fn lemma_wrap_words_lines(fits: spec_fn(Seq<char>) -> bool, max: nat, st: WrapState, words: Seq<Seq<char>>)
    requires
        st.truncated ==> st.lines.len() >= max,
    ensures
        wrap_words(fits, max, st, words).truncated ==> wrap_words(fits, max, st, words).lines.len() >= max,
    decreases words.len(),
{
    if words.len() > 0 && !st.truncated {
        let word = words[0];
        let candidate = joined(st.current, word);
        if !fits(candidate) {
            let closed = if st.current.len() > 0 {
                let lines = st.lines.push(st.current);
                WrapState { lines, current: Seq::<char>::empty(), truncated: lines.len() >= max }
            } else {
                st
            };
            if !closed.truncated && !fits(word) {
                lemma_break_word_lines(fits, max, closed, word);
            }
        }
        lemma_wrap_words_lines(fits, max, word_step(fits, max, st, words[0]), words.drop_first());
    }
}

proof fn lemma_join_push(parts: Seq<Seq<char>>, x: Seq<char>)
    ensures
        join_spaced(parts.push(x)) == if parts.len() == 0 {
            x
        } else {
            join_spaced(parts) + seq![' '] + x
        },
{
    assert(parts.push(x).drop_last() =~= parts);
}

proof fn lemma_wrap_words_joins(
    fits: spec_fn(Seq<char>) -> bool,
    max: nat,
    st: WrapState,
    done: Seq<Seq<char>>,
    words: Seq<Seq<char>>,
)
    requires
        !st.truncated,
        join_spaced(placed(st)) == join_spaced(done),
        (st.current.len() > 0 && done.len() > 0) || (st.current.len() == 0 && st.lines.len() == 0 && done.len()
            == 0),
        forall|i: int| 0 <= i < words.len() ==> (#[trigger] words[i]).len() > 0 && fits(words[i]),
    ensures
        !wrap_words(fits, max, st, words).truncated ==> join_spaced(placed(wrap_words(fits, max, st, words)))
            == join_spaced(done + words),
    decreases words.len(),
{
    if words.len() == 0 {
        assert(done + words =~= done);
    } else {
        let w = words[0];
        let candidate = joined(st.current, w);
        let next = word_step(fits, max, st, w);
        assert(done + words =~= done.push(w) + words.drop_first());
        lemma_join_push(done, w);
        if fits(candidate) {
            if st.current.len() == 0 {
                assert(placed(next) =~= seq![w]);
                assert(join_spaced(placed(next)) =~= join_spaced(done.push(w)));
            } else {
                lemma_join_push(st.lines, st.current);
                lemma_join_push(st.lines, candidate);
                assert(candidate =~= st.current + seq![' '] + w);
                assert(placed(next) =~= st.lines.push(candidate));
                assert(join_spaced(placed(next)) =~= join_spaced(done.push(w)));
            }
        } else if st.current.len() > 0 {
            let lines = st.lines.push(st.current);
            if lines.len() < max {
                lemma_join_push(st.lines, st.current);
                lemma_join_push(lines, w);
                assert(placed(next) =~= lines.push(w));
                assert(join_spaced(placed(next)) =~= join_spaced(done.push(w)));
            }
        } else {
            assert(placed(next) =~= seq![w]);
            assert(join_spaced(placed(next)) =~= join_spaced(done.push(w)));
        }
        if !next.truncated {
            assert forall|i: int| 0 <= i < words.drop_first().len() implies (#[trigger] words.drop_first()[i]).len() > 0
                && fits(words.drop_first()[i]) by {
                assert(words.drop_first()[i] == words[i + 1]);
            }
            lemma_wrap_words_joins(fits, max, next, done.push(w), words.drop_first());
        }
    }
}

/// What wrapping keeps of a text: when the text is cut short (and at least
/// one line is allowed), its last line ends in an ellipsis; when it is not
/// cut and every word fits on a line by itself, the lines joined with single
/// spaces give back the text's words joined with single spaces.
pub proof fn law_wrap_keeps_words_or_ellipsizes(fits: spec_fn(Seq<char>) -> bool, text: Seq<char>, max: nat)
    ensures
        wrap_is_cut(fits, text, max) && max > 0 ==> wrap_text_spec(fits, text, max).len() > 0
            && wrap_text_spec(fits, text, max).last().len() > 0 && wrap_text_spec(fits, text, max).last().last()
            == '\u{2026}',
        !wrap_is_cut(fits, text, max) && (forall|i: int|
            0 <= i < words_spec(text).len() ==> fits(#[trigger] words_spec(text)[i])) ==> join_spaced(
            wrap_text_spec(fits, text, max),
        ) == join_spaced(words_spec(text)),
{
    let st = wrap_final_state(fits, text, max);
    let all = placed(st);
    let kept = if all.len() > max {
        all.take(max as int)
    } else {
        all
    };
    assert(wrap_start().truncated ==> wrap_start().lines.len() >= max);
    lemma_wrap_words_lines(fits, max, wrap_start(), words_spec(text));
    if wrap_is_cut(fits, text, max) && max > 0 {
        assert(kept.len() > 0);
        lemma_ellipsized_ends(fits, kept.last());
    }
    if !wrap_is_cut(fits, text, max) && (forall|i: int|
        0 <= i < words_spec(text).len() ==> fits(#[trigger] words_spec(text)[i])) {
        lemma_words_from_nonempty(text, Seq::<char>::empty());
        assert(join_spaced(placed(wrap_start())) == join_spaced(Seq::<Seq<char>>::empty())) by {
            assert(placed(wrap_start()) =~= Seq::<Seq<char>>::empty());
        }
        lemma_wrap_words_joins(fits, max, wrap_start(), Seq::<Seq<char>>::empty(), words_spec(text));
        assert(Seq::<Seq<char>>::empty() + words_spec(text) =~= words_spec(text));
    }
}

/// Whether a line-width test agrees with the predicate `p`: every answer it
/// gives is `p` of the line asked about.
pub open spec fn consistent<F: Fn(&str) -> bool>(fits: F, p: spec_fn(Seq<char>) -> bool) -> bool {
    forall|s: &str, b: bool| #[trigger] fits.ensures((s,), b) ==> b == p(s@)
}

fn ask_fits<F: Fn(&str) -> bool>(fits: &F, line: &Vec<char>) -> (r: bool)
    requires
        forall|s: &str| #[trigger] fits.requires((s,)),
    ensures
        forall|p: spec_fn(Seq<char>) -> bool| #[trigger] consistent(*fits, p) ==> r == p(line@),
{
    let text = string_from_chars(line.as_slice());
    let slice = text.as_str();
    let r = fits(slice);
    assert forall|p: spec_fn(Seq<char>) -> bool| #[trigger] consistent(*fits, p) implies r == p(line@) by {
        assert(fits.ensures((slice,), r));
    }
    r
}

/// The state of a wrap in progress.
pub struct WrapLines {
    pub lines: Vec<Vec<char>>,
    pub current: Vec<char>,
    pub truncated: bool,
}

impl WrapLines {
    pub open spec fn view(&self) -> WrapState {
        WrapState { lines: lines_view(self.lines@), current: self.current@, truncated: self.truncated }
    }

    fn close_line(&mut self, max: usize)
        ensures
            final(self)@ == (WrapState {
                lines: old(self)@.lines.push(old(self)@.current),
                current: Seq::<char>::empty(),
                truncated: old(self)@.lines.len() + 1 >= max,
            }),
    {
        let mut line: Vec<char> = Vec::new();
        std::mem::swap(&mut line, &mut self.current);
        let ghost before = self.lines@;
        self.lines.push(line);
        assert(lines_view(self.lines@) =~= lines_view(before).push(line@));
        self.truncated = self.lines.len() >= max;
    }
}

fn break_word_exec<F: Fn(&str) -> bool>(fits: &F, max: usize, st: &mut WrapLines, word: &Vec<char>)
    requires
        forall|s: &str| #[trigger] fits.requires((s,)),
    ensures
        forall|p: spec_fn(Seq<char>) -> bool| #[trigger] consistent(*fits, p) ==> final(st)@ == break_word(p, max as nat, old(st)@, word@),
{
    let mut i: usize = 0;
    assert(word@.skip(0) =~= word@);
    while i < word.len() && !st.truncated
        invariant
            i <= word@.len(),
            forall|s: &str| #[trigger] fits.requires((s,)),
            forall|p: spec_fn(Seq<char>) -> bool| #[trigger] consistent(*fits, p) ==> break_word(p, max as nat, old(st)@, word@) == break_word(p, max as nat, st@, word@.skip(i as int)),
        decreases word@.len() - i,
    {
        let ch = word[i];
        let ghost before = st@;
        let ghost rest = word@.skip(i as int);
        assert(rest[0] == ch);
        assert(rest.drop_first() =~= word@.skip(i + 1));
        st.current.push(ch);
        let fit = ask_fits(fits, &st.current);
        if !fit {
            st.current.pop();
            assert(st.current@ =~= before.current);
            st.close_line(max);
            st.current.push(ch);
            assert(st.current@ =~= seq![ch]);
        }
        assert forall|p: spec_fn(Seq<char>) -> bool| #[trigger] consistent(*fits, p) implies break_word(p, max as nat, before, rest) == break_word(p, max as nat, st@, word@.skip(i + 1)) by {
            assert(fit == p(before.current.push(ch)));
        }
        i = i + 1;
    }
    assert forall|p: spec_fn(Seq<char>) -> bool| #[trigger] consistent(*fits, p) implies final(st)@ == break_word(p, max as nat, old(st)@, word@) by {
        if i == word@.len() {
            assert(word@.skip(i as int) =~= Seq::<char>::empty());
        }
    }
}

fn word_step_exec<F: Fn(&str) -> bool>(fits: &F, max: usize, st: &mut WrapLines, word: &Vec<char>)
    requires
        forall|s: &str| #[trigger] fits.requires((s,)),
    ensures
        forall|p: spec_fn(Seq<char>) -> bool| #[trigger] consistent(*fits, p) ==> final(st)@ == word_step(p, max as nat, old(st)@, word@),
{
    let ghost start = st@;
    let mut candidate: Vec<char> = st.current.clone();
    if candidate.len() > 0 {
        candidate.push(' ');
    }
    let mut k: usize = 0;
    while k < word.len()
        invariant
            k <= word@.len(),
            candidate@ == (if start.current.len() == 0 { Seq::<char>::empty() } else { start.current.push(' ') }) + word@.subrange(0, k as int),
        decreases word@.len() - k,
    {
        candidate.push(word[k]);
        assert(word@.subrange(0, k + 1) =~= word@.subrange(0, k as int).push(word@[k as int]));
        k = k + 1;
    }
    assert(word@.subrange(0, word@.len() as int) =~= word@);
    assert(candidate@ =~= joined(start.current, word@));
    let fit_joined = ask_fits(fits, &candidate);
    if fit_joined {
        st.current = candidate;
        return;
    }
    if st.current.len() > 0 {
        st.close_line(max);
    }
    let ghost closed = st@;
    if st.truncated {
        return;
    }
    let fit_word = ask_fits(fits, word);
    if fit_word {
        st.current = word.clone();
        assert(st.current@ =~= word@);
        return;
    }
    break_word_exec(fits, max, st, word);
}

/// Wrap `text` greedily into at most `max_lines` lines, asking `fits`
/// whether a line fits the width; a text that does not fit ends with an
/// ellipsis, and words wider than a line are hard-broken.
pub fn wrap_text<F: Fn(&str) -> bool>(fits: F, text: &str, max_lines: usize) -> (r: Vec<String>)
    requires
        forall|s: &str| #[trigger] fits.requires((s,)),
    ensures
        forall|p: spec_fn(Seq<char>) -> bool| #[trigger] consistent(fits, p) ==> strings_view(r@) == wrap_text_spec(p, text@, max_lines as nat),
{
    let chars = chars_of(text);
    let words = split_words(chars.as_slice());
    let mut st = WrapLines { lines: Vec::new(), current: Vec::new(), truncated: false };
    assert(lines_view(st.lines@) =~= Seq::<Seq<char>>::empty());
    assert(st.current@ =~= Seq::<char>::empty());
    assert(st@ == wrap_start());
    let mut i: usize = 0;
    assert(lines_view(words@).skip(0) =~= lines_view(words@));
    while i < words.len() && !st.truncated
        invariant
            i <= words@.len(),
            forall|s: &str| #[trigger] fits.requires((s,)),
            forall|p: spec_fn(Seq<char>) -> bool| #[trigger] consistent(fits, p) ==> wrap_words(p, max_lines as nat, wrap_start(), words_spec(text@)) == wrap_words(p, max_lines as nat, st@, lines_view(words@).skip(i as int)),
        decreases words@.len() - i,
    {
        let ghost before = st@;
        let ghost rest = lines_view(words@).skip(i as int);
        assert(rest[0] == words@[i as int]@);
        assert(rest.drop_first() =~= lines_view(words@).skip(i + 1));
        word_step_exec(&fits, max_lines, &mut st, &words[i]);
        i = i + 1;
    }
    let ghost finished = st@;
    assert forall|p: spec_fn(Seq<char>) -> bool| #[trigger] consistent(fits, p) implies wrap_words(p, max_lines as nat, wrap_start(), words_spec(text@)) == finished by {
        if i == words@.len() {
            assert(lines_view(words@).skip(i as int) =~= Seq::<Seq<char>>::empty());
        }
    }
    let mut lines = st.lines;
    let mut truncated = st.truncated;
    if !truncated && st.current.len() > 0 {
        let ghost before = lines@;
        lines.push(st.current);
        assert(lines_view(lines@) =~= lines_view(before).push(finished.current));
    }
    let ghost all = lines_view(lines@);
    if lines.len() > max_lines {
        lines.truncate(max_lines);
        truncated = true;
    }
    assert(lines_view(lines@) =~= if all.len() > max_lines { all.take(max_lines as int) } else { all });
    if truncated && lines.len() > 0 {
        let n = lines.len();
        let mut last: Vec<char> = lines[n - 1].clone();
        assert(last@ =~= lines_view(lines@).last());
        let ghost last0 = last@;
        loop
            invariant
                forall|s: &str| #[trigger] fits.requires((s,)),
                forall|p: spec_fn(Seq<char>) -> bool| #[trigger] consistent(fits, p) ==> ellipsized(p, last0) == ellipsized(p, last@),
            ensures
                forall|p: spec_fn(Seq<char>) -> bool| #[trigger] consistent(fits, p) ==> ellipsized(p, last0) == last@.push('\u{2026}'),
            decreases last@.len(),
        {
            if last.len() == 0 {
                break;
            }
            let mut with_ellipsis = last.clone();
            with_ellipsis.push('\u{2026}');
            assert(with_ellipsis@ =~= last@.push('\u{2026}'));
            let fit = ask_fits(&fits, &with_ellipsis);
            if fit {
                break;
            }
            let ghost before = last@;
            last.pop();
            assert(last@ =~= before.drop_last());
        }
        last.push('\u{2026}');
        let ghost kept = lines_view(lines@);
        lines.set(n - 1, last);
        assert forall|p: spec_fn(Seq<char>) -> bool| #[trigger] consistent(fits, p) implies lines_view(lines@) == kept.update(kept.len() - 1, ellipsized(p, kept.last())) by {
            assert(lines_view(lines@) =~= kept.update(kept.len() - 1, ellipsized(p, kept.last())));
        }
    }
    let mut out: Vec<String> = Vec::new();
    let mut j: usize = 0;
    while j < lines.len()
        invariant
            j <= lines@.len(),
            strings_view(out@) == lines_view(lines@).subrange(0, j as int),
        decreases lines@.len() - j,
    {
        let line = string_from_chars(lines[j].as_slice());
        let ghost before = out@;
        assert(lines_view(lines@)[j as int] == lines@[j as int]@);
        out.push(line);
        assert(strings_view(out@) =~= strings_view(before).push(line@));
        assert(lines_view(lines@).subrange(0, j + 1) =~= lines_view(lines@).subrange(0, j as int).push(lines@[j as int]@));
        assert(strings_view(out@) =~= lines_view(lines@).subrange(0, j + 1));
        j = j + 1;
    }
    assert(lines_view(lines@).subrange(0, lines@.len() as int) =~= lines_view(lines@));
    out
}

/// The views of a list of strings.
pub open spec fn strings_view(v: Seq<String>) -> Seq<Seq<char>> {
    v.map_values(|s: String| s@)
}

} // verus!
