//! Sequences of bytes and characters: searching, trimming, terminators and
//! UTF-8 decoding.

use vstd::prelude::*;
use vstd::utf8::*;

verus! {

/// The index of the first element of `s` equal to `x`, or `s.len()` where
/// none is.
pub open spec fn position<T>(s: Seq<T>, x: T) -> nat
    decreases s.len(),
{
    if s.len() == 0 || s[0] == x {
        0
    } else {
        1 + position(s.drop_first(), x)
    }
}

/// `position` is the least index that holds `x`, and the length where no
/// index does.
pub proof fn lemma_position<T>(s: Seq<T>, x: T)
    ensures
        position(s, x) <= s.len(),
        position(s, x) < s.len() ==> s[position(s, x) as int] == x,
        forall|i: int| 0 <= i < position(s, x) ==> s[i] != x,
    decreases s.len(),
{
    if s.len() == 0 || s[0] == x {
    } else {
        let rest = s.drop_first();
        lemma_position(rest, x);
        assert forall|i: int| 0 <= i < position(s, x) implies s[i] != x by {
            if i > 0 {
                assert(rest[i - 1] == s[i]);
            }
        }
    }
}

/// An index below which nothing equals `x`, and which holds `x` or is the
/// length, is `position`.
pub proof fn lemma_position_is<T>(s: Seq<T>, x: T, at: int)
    requires
        0 <= at <= s.len(),
        forall|i: int| 0 <= i < at ==> s[i] != x,
        at < s.len() ==> s[at] == x,
    ensures
        position(s, x) == at,
{
    lemma_position(s, x);
    let p = position(s, x) as int;
    if p < at {
        assert(s[p] == x);
    } else if p > at {
        assert(s[at] != x);
    }
}

/// Whether `c` is white space: a character with the Unicode property
/// White_Space.
pub open spec fn is_space(c: char) -> bool {
    ||| '\u{9}' <= c <= '\u{d}'
    ||| c == ' '
    ||| c == '\u{85}'
    ||| c == '\u{a0}'
    ||| c == '\u{1680}'
    ||| '\u{2000}' <= c <= '\u{200a}'
    ||| c == '\u{2028}'
    ||| c == '\u{2029}'
    ||| c == '\u{202f}'
    ||| c == '\u{205f}'
    ||| c == '\u{3000}'
}

/// `s` without the white space it begins with.
pub open spec fn trim_start(s: Seq<char>) -> Seq<char>
    decreases s.len(),
{
    if s.len() > 0 && is_space(s[0]) {
        trim_start(s.drop_first())
    } else {
        s
    }
}

/// `s` without the white space it ends with.
pub open spec fn trim_end(s: Seq<char>) -> Seq<char>
    decreases s.len(),
{
    if s.len() > 0 && is_space(s.last()) {
        trim_end(s.drop_last())
    } else {
        s
    }
}

/// `s` without the white space at either end.
pub open spec fn trim(s: Seq<char>) -> Seq<char> {
    trim_end(trim_start(s))
}

/// Where `s` begins with exactly `k` white-space characters, `trim_start`
/// drops those `k`.
pub proof fn lemma_trim_start(s: Seq<char>, k: int)
    requires
        0 <= k <= s.len(),
        forall|i: int| 0 <= i < k ==> is_space(s[i]),
        k < s.len() ==> !is_space(s[k]),
    ensures
        trim_start(s) == s.skip(k),
    decreases k,
{
    if k == 0 {
        assert(s.skip(0) =~= s);
    } else {
        let rest = s.drop_first();
        assert forall|i: int| 0 <= i < k - 1 implies is_space(rest[i]) by {
            assert(rest[i] == s[i + 1]);
        }
        lemma_trim_start(rest, k - 1);
        assert(rest.skip(k - 1) =~= s.skip(k));
    }
}

/// Where `s` ends with exactly `s.len() - k` white-space characters,
/// `trim_end` keeps the first `k`.
pub proof fn lemma_trim_end(s: Seq<char>, k: int)
    requires
        0 <= k <= s.len(),
        forall|i: int| k <= i < s.len() ==> is_space(s[i]),
        0 < k ==> !is_space(s[k - 1]),
    ensures
        trim_end(s) == s.take(k),
    decreases s.len() - k,
{
    if k == s.len() {
        assert(s.take(k) =~= s);
    } else {
        let rest = s.drop_last();
        lemma_trim_end(rest, k);
        assert(rest.take(k) =~= s.take(k));
    }
}

/// A trimmed sequence neither begins nor ends with white space.
pub proof fn lemma_trim_is_trimmed(s: Seq<char>)
    ensures
        trim(s).len() <= s.len(),
        trim(s).len() > 0 ==> !is_space(trim(s)[0]) && !is_space(trim(s).last()),
{
    lemma_trim_start_shape(s);
    lemma_trim_end_shape(trim_start(s));
    let t = trim_start(s);
    if trim(s).len() > 0 {
        assert(trim(s)[0] == t[0]);
    }
}

/// `trim_start` yields a suffix that does not begin with white space.
pub proof fn lemma_trim_start_shape(s: Seq<char>)
    ensures
        trim_start(s).len() <= s.len(),
        trim_start(s) == s.skip(s.len() - trim_start(s).len()),
        trim_start(s).len() > 0 ==> !is_space(trim_start(s)[0]),
        forall|i: int| 0 <= i < s.len() - trim_start(s).len() ==> is_space(s[i]),
    decreases s.len(),
{
    if s.len() > 0 && is_space(s[0]) {
        let rest = s.drop_first();
        lemma_trim_start_shape(rest);
        let k = rest.len() - trim_start(rest).len();
        assert(rest.skip(k) =~= s.skip(k + 1));
        assert forall|i: int| 0 <= i < s.len() - trim_start(s).len() implies is_space(s[i]) by {
            if i > 0 {
                assert(rest[i - 1] == s[i]);
            }
        }
    } else {
        assert(s.skip(0) =~= s);
    }
}

/// `trim_end` yields a prefix that does not end with white space.
pub proof fn lemma_trim_end_shape(s: Seq<char>)
    ensures
        trim_end(s).len() <= s.len(),
        trim_end(s) == s.take(trim_end(s).len() as int),
        trim_end(s).len() > 0 ==> !is_space(trim_end(s).last()),
        forall|i: int| trim_end(s).len() <= i < s.len() ==> is_space(s[i]),
    decreases s.len(),
{
    if s.len() > 0 && is_space(s.last()) {
        let rest = s.drop_last();
        lemma_trim_end_shape(rest);
        let k = trim_end(rest).len() as int;
        assert(rest.take(k) =~= s.take(k));
        assert forall|i: int| trim_end(s).len() <= i < s.len() implies is_space(s[i]) by {
            if i < rest.len() {
                assert(rest[i] == s[i]);
            }
        }
    } else {
        assert(s.take(s.len() as int) =~= s);
    }
}

/// Whether `s` holds nothing but white space.
pub open spec fn is_blank(s: Seq<char>) -> bool {
    forall|i: int| 0 <= i < s.len() ==> is_space(#[trigger] s[i])
}

/// Trimming leaves nothing exactly of what is blank.
pub proof fn lemma_trim_blank(s: Seq<char>)
    ensures
        trim(s).len() == 0 <==> is_blank(s),
{
    lemma_trim_start_shape(s);
    lemma_trim_end_shape(trim_start(s));
    let t = trim_start(s);
    let lead = s.len() - t.len();
    if trim(s).len() > 0 {
        assert(t[0] == s[lead]);
    } else if t.len() > 0 {
        assert(is_space(t[0]));
    }
}

/// Tells whether `c` is white space.
pub fn is_whitespace(c: char) -> (yes: bool)
    ensures
        yes == is_space(c),
{
    ('\u{9}' <= c && c <= '\u{d}') || c == ' ' || c == '\u{85}' || c == '\u{a0}' || c
        == '\u{1680}' || ('\u{2000}' <= c && c <= '\u{200a}') || c == '\u{2028}' || c
        == '\u{2029}' || c == '\u{202f}' || c == '\u{205f}' || c == '\u{3000}'
}

/// Finds the first `c` among `text[from..to]`; the result is `to` where
/// there is none.
pub fn find_char(text: &[char], from: usize, to: usize, c: char) -> (at: usize)
    requires
        from <= to <= text.len(),
    ensures
        from <= at <= to,
        at - from == position(text@.subrange(from as int, to as int), c),
{
    let mut i: usize = from;
    while i < to && text[i] != c
        invariant
            from <= i <= to <= text.len(),
            forall|j: int| from <= j < i ==> text[j] != c,
        decreases to - i,
    {
        i += 1;
    }
    proof {
        lemma_position_is(text@.subrange(from as int, to as int), c, i - from);
    }
    i
}

/// Finds the first byte `b` among `bytes[from..to]`; the result is `to`
/// where there is none.
pub fn find_byte(bytes: &[u8], from: usize, to: usize, b: u8) -> (at: usize)
    requires
        from <= to <= bytes.len(),
    ensures
        from <= at <= to,
        at - from == position(bytes@.subrange(from as int, to as int), b),
{
    let mut i: usize = from;
    while i < to && bytes[i] != b
        invariant
            from <= i <= to <= bytes.len(),
            forall|j: int| from <= j < i ==> bytes[j] != b,
        decreases to - i,
    {
        i += 1;
    }
    proof {
        lemma_position_is(bytes@.subrange(from as int, to as int), b, i - from);
    }
    i
}

/// Finds the bounds of `text[from..to]` without the white space at either
/// end.
pub fn trim_bounds(text: &[char], from: usize, to: usize) -> (bounds: (usize, usize))
    requires
        from <= to <= text.len(),
    ensures
        from <= bounds.0 <= bounds.1 <= to,
        text@.subrange(bounds.0 as int, bounds.1 as int) == trim(
            text@.subrange(from as int, to as int),
        ),
{
    let mut a: usize = from;
    while a < to && is_whitespace(text[a])
        invariant
            from <= a <= to <= text.len(),
            forall|j: int| from <= j < a ==> is_space(text[j]),
        decreases to - a,
    {
        a += 1;
    }
    let mut b: usize = to;
    while a < b && is_whitespace(text[b - 1])
        invariant
            a <= b <= to <= text.len(),
            forall|j: int| b <= j < to ==> is_space(text[j]),
        decreases b - a,
    {
        b -= 1;
    }
    proof {
        let whole = text@.subrange(from as int, to as int);
        lemma_trim_start(whole, a - from);
        lemma_trim_end(whole.skip(a - from), b - a);
    }
    (a, b)
}

/// What `bytes` say as text: the characters they encode in UTF-8, and
/// nothing where they are not UTF-8.
pub open spec fn text_of(bytes: Seq<u8>) -> Option<Seq<char>> {
    if valid_utf8(bytes) {
        Some(decode_utf8(bytes))
    } else {
        None
    }
}

/// The bytes that encode `chars` say `chars`.
pub proof fn lemma_text_of_encoding(chars: Seq<char>)
    ensures
        text_of(encode_utf8(chars)) == Some(chars),
{
    encode_utf8_valid_utf8(chars);
    encode_utf8_decode_utf8(chars);
}

/// What bytes say as text is encoded by those bytes, and by no others.
pub proof fn lemma_text_encodes_back(bytes: Seq<u8>)
    ensures
        text_of(bytes) matches Some(chars) ==> encode_utf8(chars) == bytes,
{
    if valid_utf8(bytes) {
        decode_utf8_encode_utf8(bytes);
    }
}

/// `String::from_utf8`: the bytes as a string where they are valid UTF-8,
/// and then the string holds the characters that the bytes encode; nothing
/// where they are not.
#[verifier::external_body]
pub(crate) fn utf8_text(bytes: Vec<u8>) -> (text: Option<String>)
    ensures
        text is Some <==> valid_utf8(bytes@),
        text matches Some(s) ==> s@ == decode_utf8(bytes@),
{
    match String::from_utf8(bytes) {
        Ok(s) => Some(s),
        Err(_) => None,
    }
}

/// Decodes `bytes[..end]` as UTF-8 text.
pub fn decode_text(bytes: &[u8], end: usize) -> (text: Option<String>)
    requires
        end <= bytes.len(),
    ensures
        match text_of(bytes@.take(end as int)) {
            Some(chars) => text matches Some(s) && s@ == chars,
            None => text is None,
        },
{
    let head = vstd::slice::slice_to_vec(vstd::slice::slice_subrange(bytes, 0, end));
    utf8_text(head)
}

} // verus!
