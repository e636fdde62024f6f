//! Text that a message facility hands back: leaving out the white space at
//! its end, and reading bytes as UTF-8.
use crate::Errno;
use vstd::prelude::*;
use vstd::utf8::*;

verus! {

/// The items of `items` that come before the first `stop`: all of them where
/// there is none.
pub open spec fn before_first<T>(items: Seq<T>, stop: T) -> Seq<T> {
    match items.index_of_first(stop) {
        Some(at) => items.take(at),
        None => items,
    }
}

/// Where no `stop` stands before position `at`, and one stands there or the
/// items end there, the items before the first `stop` are those before `at`.
pub proof fn lemma_before_first<T>(items: Seq<T>, stop: T, at: int)
    requires
        0 <= at <= items.len(),
        forall|j: int| 0 <= j < at ==> items[j] != stop,
        at < items.len() ==> items[at] == stop,
    ensures
        before_first(items, stop) == items.take(at),
{
    items.index_of_first_ensures(stop);
    if at == items.len() {
        assert(items.take(at) =~= items);
    }
}

/// Items up to which no `stop` stands are among those before the first
/// `stop`.
pub proof fn lemma_before_first_covers<T>(items: Seq<T>, stop: T, len: int)
    requires
        0 <= len <= items.len(),
        forall|j: int| 0 <= j < len ==> items[j] != stop,
    ensures
        len <= before_first(items, stop).len(),
        before_first(items, stop).take(len) == items.take(len),
{
    items.index_of_first_ensures(stop);
    assert(before_first(items, stop).take(len) =~= items.take(len));
}

/// What a description holds: the characters of its text, or its error.
pub open spec fn outcome(description: Result<&str, Errno>) -> Result<Seq<char>, Errno> {
    match description {
        Ok(text) => Ok(text@),
        Err(error) => Err(error),
    }
}

/// The characters that Unicode gives the property `White_Space`.
pub open spec fn is_white_space(c: char) -> bool {
    let scalar = c as u32;
    ||| 0x0009 <= scalar <= 0x000D
    ||| scalar == 0x0020
    ||| scalar == 0x0085
    ||| scalar == 0x00A0
    ||| scalar == 0x1680
    ||| 0x2000 <= scalar <= 0x200A
    ||| scalar == 0x2028
    ||| scalar == 0x2029
    ||| scalar == 0x202F
    ||| scalar == 0x205F
    ||| scalar == 0x3000
}

/// The length of `text` without the white space at its end.
pub open spec fn trimmed_len(text: Seq<char>) -> nat
    decreases text.len(),
{
    if text.len() == 0 {
        0
    } else if is_white_space(text.last()) {
        trimmed_len(text.drop_last())
    } else {
        text.len()
    }
}

/// `text` without the white space at its end.
pub open spec fn trim_end(text: Seq<char>) -> Seq<char> {
    text.take(trimmed_len(text) as int)
}

/// What `trim_end` leaves is the text up to its last character that is no
/// white space: a prefix that does not end in white space, with nothing but
/// white space behind it.
pub proof fn lemma_trim_end(text: Seq<char>)
    ensures
        trimmed_len(text) <= text.len(),
        trim_end(text).is_prefix_of(text),
        trim_end(text).len() > 0 ==> !is_white_space(trim_end(text).last()),
        forall|i: int| trim_end(text).len() <= i < text.len() ==> is_white_space(text[i]),
    decreases text.len(),
{
    if text.len() > 0 && is_white_space(text.last()) {
        let shorter = text.drop_last();
        lemma_trim_end(shorter);
        assert(trim_end(text) =~= trim_end(shorter));
        assert forall|i: int| trim_end(text).len() <= i < text.len() implies is_white_space(
            text[i],
        ) by {
            if i < shorter.len() {
                assert(text[i] == shorter[i]);
            }
        }
    } else {
        assert(trim_end(text) =~= text);
    }
}

/// Whether `c` is white space.
pub fn is_whitespace(c: char) -> (white: bool)
    ensures
        white == is_white_space(c),
{
    let scalar: u32 = c as u32;
    (0x0009 <= scalar && scalar <= 0x000D) || scalar == 0x0020 || scalar == 0x0085 || scalar
        == 0x00A0 || scalar == 0x1680 || (0x2000 <= scalar && scalar <= 0x200A) || scalar == 0x2028
        || scalar == 0x2029 || scalar == 0x202F || scalar == 0x205F || scalar == 0x3000
}

/// A text has no more characters than its UTF-8 form has bytes.
pub proof fn lemma_chars_within_bytes(text: Seq<char>)
    ensures
        text.len() <= encode_utf8(text).len(),
    decreases text.len(),
{
    if text.len() > 0 {
        lemma_chars_within_bytes(text.drop_first());
    }
}

/// `text` without the white space at its end.
#[allow(unused_variables)]
pub fn trim_right(text: &str) -> (trimmed: &str)
    ensures
        trimmed@ == trim_end(text@),
{
    // The count of characters cannot overflow: it stays within that of the bytes.
    let limit = text.as_bytes().len();
    proof {
        lemma_chars_within_bytes(text@);
    }
    let mut end: usize = 0;
    let mut seen: usize = 0;
    let iter = text.chars();
    for c in chars: iter
        invariant
            chars.seq() == text@,
            text@.len() <= limit,
            seen == chars.index(),
            end <= seen,
            end == trimmed_len(text@.take(seen as int)),
    {
        proof {
            assert(text@.take(seen + 1).drop_last() =~= text@.take(seen as int));
        }
        seen = seen + 1;
        if !is_whitespace(c) {
            end = seen;
        }
    }
    proof {
        assert(text@.take(seen as int) =~= text@);
    }
    text.substring_char(0, end)
}

/// The text that `bytes` hold, where they are well-formed UTF-8.
///
/// Trusted: `core::str::from_utf8` accepts exactly the well-formed byte
/// sequences, and the string slice it returns has those bytes as its UTF-8
/// form.
#[verifier::external_body]
pub(crate) fn str_from_utf8(bytes: &[u8]) -> (text: Option<&str>)
    ensures
        text is Some <==> valid_utf8(bytes@),
        text matches Some(decoded) ==> decoded@ == decode_utf8(bytes@),
{
    core::str::from_utf8(bytes).ok()
}

} // verus!
