//! Byte and character helpers shared by the text formats of the library.
use vstd::prelude::*;
use vstd::utf8::*;

verus! {

/// Whether two byte slices hold the same bytes.
pub fn bytes_equal(a: &[u8], b: &[u8]) -> (r: bool)
    ensures
        r == (a@ == b@),
{
    if a.len() != b.len() {
        return false;
    }
    let mut i: usize = 0;
    while i < a.len()
        invariant
            a@.len() == b@.len(),
            i <= a@.len(),
            forall|j: int| 0 <= j < i ==> a@[j] == b@[j],
        decreases a@.len() - i,
    {
        if a[i] != b[i] {
            return false;
        }
        i = i + 1;
    }
    assert(a@ =~= b@);
    true
}

/// Append `bytes` at the end of `out`.
pub fn append_bytes(out: &mut Vec<u8>, bytes: &[u8])
    ensures
        final(out)@ == old(out)@ + bytes@,
{
    let mut i: usize = 0;
    while i < bytes.len()
        invariant
            i <= bytes@.len(),
            out@ == old(out)@ + bytes@.subrange(0, i as int),
        decreases bytes@.len() - i,
    {
        out.push(bytes[i]);
        assert(bytes@.subrange(0, i + 1) =~= bytes@.subrange(0, i as int).push(bytes@[i as int]));
        i = i + 1;
    }
    assert(bytes@.subrange(0, bytes@.len() as int) =~= bytes@);
}

/// The characters of a string slice, in order.
pub fn chars_of(s: &str) -> (r: Vec<char>)
    ensures
        r@ == s@,
{
    let n = s.unicode_len();
    let mut r: Vec<char> = Vec::new();
    let mut i: usize = 0;
    while i < n
        invariant
            n == s@.len(),
            i <= n,
            r@ == s@.subrange(0, i as int),
        decreases n - i,
    {
        let c = s.get_char(i);
        r.push(c);
        assert(s@.subrange(0, i + 1) =~= s@.subrange(0, i as int).push(c));
        i = i + 1;
    }
    assert(s@.subrange(0, n as int) =~= s@);
    r
}

/// Append one character to a `String` (std's `String::push`).
#[verifier::external_body]
pub(crate) fn push_char(s: &mut String, c: char)
    ensures
        final(s)@ == old(s)@.push(c),
{
    s.push(c);
}

/// A `String` holding the given characters.
pub fn string_from_chars(chars: &[char]) -> (r: String)
    ensures
        r@ == chars@,
{
    let mut r = String::new();
    let mut i: usize = 0;
    while i < chars.len()
        invariant
            i <= chars@.len(),
            r@ == chars@.subrange(0, i as int),
        decreases chars@.len() - i,
    {
        push_char(&mut r, chars[i]);
        assert(chars@.subrange(0, i + 1) =~= chars@.subrange(0, i as int).push(chars@[i as int]));
        i = i + 1;
    }
    assert(chars@.subrange(0, chars@.len() as int) =~= chars@);
    r
}

/// The Unicode lowercase mapping of a character sequence, as std's
/// `str::to_lowercase` computes it.
pub uninterp spec fn unicode_lowercase(s: Seq<char>) -> Seq<char>;

/// The Unicode uppercase mapping of a character sequence, as std's
/// `str::to_uppercase` computes it.
pub uninterp spec fn unicode_uppercase(s: Seq<char>) -> Seq<char>;

/// The characters std's `String::from_utf8_lossy` decodes from a byte sequence
/// (invalid sequences become U+FFFD).
pub uninterp spec fn utf8_lossy_decode(b: Seq<u8>) -> Seq<char>;

/// Whether every character is ASCII.
pub open spec fn is_ascii_text(s: Seq<char>) -> bool {
    forall|i: int| 0 <= i < s.len() ==> (#[trigger] s[i] as u32) < 128
}

/// ASCII lowercase of one character: `A`-`Z` become `a`-`z`, every other
/// character stays as it is.
pub open spec fn ascii_lower_char(c: char) -> char {
    let n = c as u32;
    if 65 <= n && n <= 90 {
        (n + 32) as char
    } else {
        c
    }
}

/// ASCII uppercase of one character: `a`-`z` become `A`-`Z`, every other
/// character stays as it is.
pub open spec fn ascii_upper_char(c: char) -> char {
    let n = c as u32;
    if 97 <= n && n <= 122 {
        (n - 32) as char
    } else {
        c
    }
}

/// A text with its ASCII letters lowercased.
pub open spec fn ascii_lowercase(s: Seq<char>) -> Seq<char> {
    s.map_values(|c: char| ascii_lower_char(c))
}

/// A text with its ASCII letters uppercased.
pub open spec fn ascii_uppercase(s: Seq<char>) -> Seq<char> {
    s.map_values(|c: char| ascii_upper_char(c))
}

/// std's `str::to_lowercase`: the contract names its result, and states that
/// on ASCII text it is the ASCII lowercase (Unicode maps `A`-`Z` to `a`-`z`
/// and leaves the other ASCII characters alone); nothing more of the Unicode
/// case mapping is stated.
#[verifier::external_body]
pub(crate) fn to_lowercase(s: &str) -> (r: String)
    ensures
        r@ == unicode_lowercase(s@),
        is_ascii_text(s@) ==> r@ == ascii_lowercase(s@),
{
    s.to_lowercase()
}

/// std's `str::to_uppercase`: the contract names its result, and states that
/// on ASCII text it is the ASCII uppercase (Unicode maps `a`-`z` to `A`-`Z`
/// and leaves the other ASCII characters alone); nothing more of the Unicode
/// case mapping is stated.
#[verifier::external_body]
pub(crate) fn to_uppercase(s: &str) -> (r: String)
    ensures
        r@ == unicode_uppercase(s@),
        is_ascii_text(s@) ==> r@ == ascii_uppercase(s@),
{
    s.to_uppercase()
}

/// std's `String::from_utf8_lossy`: on valid UTF-8 it decodes exactly (as its
/// documentation states); otherwise the contract only names the result.
#[verifier::external_body]
pub(crate) fn from_utf8_lossy(b: &[u8]) -> (r: String)
    ensures
        r@ == utf8_lossy_decode(b@),
        valid_utf8(b@) ==> r@ == decode_utf8(b@),
{
    String::from_utf8_lossy(b).into_owned()
}

/// std's `String::from_utf8`: succeeds exactly on valid UTF-8 and then holds
/// the decoded characters.
#[verifier::external_body]
pub(crate) fn string_from_utf8(b: Vec<u8>) -> (r: Option<String>)
    ensures
        r is Some <==> valid_utf8(b@),
        r matches Some(s) ==> s@ == decode_utf8(b@),
{
    String::from_utf8(b).ok()
}

/// The Unicode `White_Space` property, which std's `char::is_whitespace`
/// tests and `str::trim` strips.
pub open spec fn is_whitespace_spec(c: char) -> bool {
    let u = c as u32;
    ||| 0x9 <= u <= 0xd
    ||| u == 0x20
    ||| u == 0x85
    ||| u == 0xa0
    ||| u == 0x1680
    ||| 0x2000 <= u <= 0x200a
    ||| u == 0x2028
    ||| u == 0x2029
    ||| u == 0x202f
    ||| u == 0x205f
    ||| u == 0x3000
}

/// Whether `c` is Unicode whitespace.
pub fn is_whitespace(c: char) -> (r: bool)
    ensures
        r == is_whitespace_spec(c),
{
    let u = c as u32;
    (0x9 <= u && u <= 0xd) || u == 0x20 || u == 0x85 || u == 0xa0 || u == 0x1680 || (0x2000 <= u
        && u <= 0x200a) || u == 0x2028 || u == 0x2029 || u == 0x202f || u == 0x205f || u == 0x3000
}

/// `s` without its leading whitespace.
pub open spec fn trim_start_spec(s: Seq<char>) -> Seq<char>
    decreases s.len(),
{
    if s.len() > 0 && is_whitespace_spec(s[0]) {
        trim_start_spec(s.drop_first())
    } else {
        s
    }
}

/// `s` without its trailing whitespace.
pub open spec fn trim_end_spec(s: Seq<char>) -> Seq<char>
    decreases s.len(),
{
    if s.len() > 0 && is_whitespace_spec(s.last()) {
        trim_end_spec(s.drop_last())
    } else {
        s
    }
}

/// std's `str::trim`: leading and trailing whitespace removed.
pub open spec fn trim_spec(s: Seq<char>) -> Seq<char> {
    trim_end_spec(trim_start_spec(s))
}

proof fn lemma_trim_start_skip(s: Seq<char>, i: int)
    requires
        0 <= i <= s.len(),
        forall|j: int| 0 <= j < i ==> is_whitespace_spec(#[trigger] s[j]),
    ensures
        trim_start_spec(s) == trim_start_spec(s.subrange(i, s.len() as int)),
    decreases i,
{
    if i > 0 {
        assert(s.drop_first().subrange(i - 1, s.drop_first().len() as int) =~= s.subrange(i, s.len() as int));
        lemma_trim_start_skip(s.drop_first(), i - 1);
    } else {
        assert(s.subrange(0, s.len() as int) =~= s);
    }
}

proof fn lemma_trim_end_skip(s: Seq<char>, e: int)
    requires
        0 <= e <= s.len(),
        forall|j: int| e <= j < s.len() ==> is_whitespace_spec(#[trigger] s[j]),
    ensures
        trim_end_spec(s) == trim_end_spec(s.subrange(0, e)),
    decreases s.len() - e,
{
    if e < s.len() {
        assert(s.drop_last().subrange(0, e) =~= s.subrange(0, e));
        lemma_trim_end_skip(s.drop_last(), e);
    } else {
        assert(s.subrange(0, e) =~= s);
    }
}

/// The characters of `s[from..to]` with surrounding whitespace removed.
pub fn trim_chars(s: &[char], from: usize, to: usize) -> (r: Vec<char>)
    requires
        from <= to <= s@.len(),
    ensures
        r@ == trim_spec(s@.subrange(from as int, to as int)),
{
    let ghost piece = s@.subrange(from as int, to as int);
    let mut start = from;
    while start < to && is_whitespace(s[start])
        invariant
            from <= start <= to <= s@.len(),
            piece == s@.subrange(from as int, to as int),
            forall|j: int| 0 <= j < start - from ==> is_whitespace_spec(#[trigger] piece[j]),
        decreases to - start,
    {
        start = start + 1;
    }
    proof {
        lemma_trim_start_skip(piece, start - from);
        let rest = piece.subrange(start - from, piece.len() as int);
        assert(rest =~= s@.subrange(start as int, to as int));
        if rest.len() > 0 {
            assert(!is_whitespace_spec(rest[0]));
        }
        assert(trim_start_spec(rest) == rest);
    }
    let mut end = to;
    while end > start && is_whitespace(s[end - 1])
        invariant
            from <= start <= end <= to <= s@.len(),
            forall|j: int| end <= j < to ==> is_whitespace_spec(#[trigger] s@[j]),
        decreases end - start,
    {
        end = end - 1;
    }
    proof {
        let rest = s@.subrange(start as int, to as int);
        assert forall|j: int| end - start <= j < rest.len() implies is_whitespace_spec(#[trigger] rest[j]) by {
            assert(rest[j] == s@[start + j]);
        }
        lemma_trim_end_skip(rest, end - start);
        let kept = rest.subrange(0, end - start);
        assert(kept =~= s@.subrange(start as int, end as int));
        if kept.len() > 0 {
            assert(kept.last() == s@[end - 1]);
        }
        assert(trim_end_spec(kept) == kept);
    }
    let mut r: Vec<char> = Vec::new();
    let mut i = start;
    while i < end
        invariant
            start <= i <= end <= s@.len(),
            r@ == s@.subrange(start as int, i as int),
        decreases end - i,
    {
        r.push(s[i]);
        assert(s@.subrange(start as int, i + 1) =~= s@.subrange(start as int, i as int).push(s@[i as int]));
        i = i + 1;
    }
    r
}

/// std's `str::split(sep)`: the pieces between separators, with `current`
/// the piece collected so far.
pub open spec fn split_from(s: Seq<char>, sep: char, current: Seq<char>) -> Seq<Seq<char>>
    decreases s.len(),
{
    if s.len() == 0 {
        seq![current]
    } else if s[0] == sep {
        seq![current] + split_from(s.drop_first(), sep, seq![])
    } else {
        split_from(s.drop_first(), sep, current.push(s[0]))
    }
}

/// std's `str::split(sep)`: the (possibly empty) pieces between separators.
pub open spec fn split_spec(s: Seq<char>, sep: char) -> Seq<Seq<char>> {
    split_from(s, sep, seq![])
}


/// The decimal digit character for `d < 10`.
pub open spec fn digit_char(d: nat) -> char {
    (48 + d) as char
}

/// The decimal representation of `n`, without sign or leading zeros.
pub open spec fn decimal_digits(n: nat) -> Seq<char>
    decreases n,
{
    if n < 10 {
        seq![digit_char(n)]
    } else {
        decimal_digits(n / 10).push(digit_char(n % 10))
    }
}

/// `v` formatted like `format!("{v:0width$}")`: sign, then zeros up to
/// `width` characters, then the decimal digits.
pub open spec fn zero_padded(v: int, width: nat) -> Seq<char> {
    let sign: Seq<char> = if v < 0 {
        seq!['-']
    } else {
        seq![]
    };
    let digits = decimal_digits((if v < 0 {
        -v
    } else {
        v
    }) as nat);
    let pad = width - sign.len() - digits.len();
    sign + Seq::new(
        (if pad > 0 {
            pad
        } else {
            0
        }) as nat,
        |_i: int| '0',
    ) + digits
}

/// Push the decimal digits of `n`.
pub fn push_decimal(out: &mut Vec<char>, n: u64)
    ensures
        final(out)@ == old(out)@ + decimal_digits(n as nat),
    decreases n,
{
    if n >= 10 {
        push_decimal(out, n / 10);
    }
    let d = (n % 10) as u8;
    let c = (48u8 + d) as char;
    assert(c == digit_char((n % 10) as nat));
    out.push(c);
    proof {
        if n < 10 {
            assert(decimal_digits(n as nat) == seq![digit_char(n as nat)]);
            assert(old(out)@ + decimal_digits(n as nat) =~= old(out)@.push(c));
        } else {
            assert(old(out)@ + decimal_digits(n as nat) =~= old(out)@ + decimal_digits(
                (n / 10) as nat,
            ) + seq![c]);
        }
    }
}

/// Format `v` with at least `width` characters, zero-padded after the sign.
pub fn format_zero_padded(v: i32, width: usize) -> (r: String)
    ensures
        r@ == zero_padded(v as int, width as nat),
{
    let mut chars: Vec<char> = Vec::new();
    let magnitude: u64 = if v < 0 {
        (-(v as i64)) as u64
    } else {
        v as u64
    };
    if v < 0 {
        chars.push('-');
    }
    let mut digits: Vec<char> = Vec::new();
    push_decimal(&mut digits, magnitude);
    if digits.len() <= width && chars.len() <= width - digits.len() {
        let mut k: usize = 0;
        let pad = width - digits.len() - chars.len();
        let ghost base = chars@;
        while k < pad
            invariant
                k <= pad,
                chars@ == base + Seq::new(k as nat, |_i: int| '0'),
            decreases pad - k,
        {
            chars.push('0');
            assert(base + Seq::new((k + 1) as nat, |_i: int| '0') =~= (base + Seq::new(
                k as nat,
                |_i: int| '0',
            )).push('0'));
            k = k + 1;
        }
    }
    let ghost before = chars@;
    let mut i: usize = 0;
    while i < digits.len()
        invariant
            i <= digits@.len(),
            chars@ == before + digits@.subrange(0, i as int),
        decreases digits@.len() - i,
    {
        chars.push(digits[i]);
        assert(digits@.subrange(0, i + 1) =~= digits@.subrange(0, i as int).push(digits@[i as int]));
        i = i + 1;
    }
    assert(digits@.subrange(0, digits@.len() as int) =~= digits@);
    let ghost sign: Seq<char> = if v < 0 { seq!['-'] } else { seq![] };
    assert(chars@ =~= zero_padded(v as int, width as nat));
    string_from_chars(&chars)
}

} // verus!
