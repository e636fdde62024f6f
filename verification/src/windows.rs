//! The message-table backend: descriptions that the system's message
//! formatter wrote as wide text.
use crate::encoding::{encode_utf8_at, len_utf8};
use crate::text::{
    before_first, is_white_space, lemma_before_first, lemma_before_first_covers, lemma_trim_end,
    outcome, str_from_utf8, trim_end, trim_right,
};
use crate::Errno;
use vstd::prelude::*;
use vstd::utf8::*;

verus! {

/// The name of the facility that this backend's descriptions come from.
pub const STRERROR_NAME: &'static str = "FormatMessageW";

/// The language that the formatter is asked for: the system's default
/// language and sublanguage.
pub const LANGUAGE_ID: u32 = 0x0800;

/// The size of the two buffers of a lookup: that of the formatter's, in
/// code units, and that of the converted description's, in bytes.
pub const MESSAGE_CAPACITY: usize = 2048;

/// A code unit that opens a surrogate pair.
pub open spec fn is_high_surrogate(unit: u16) -> bool {
    0xD800 <= unit <= 0xDBFF
}

/// A code unit that closes a surrogate pair.
pub open spec fn is_low_surrogate(unit: u16) -> bool {
    0xDC00 <= unit <= 0xDFFF
}

/// The character that a high and a low surrogate stand for together.
pub open spec fn surrogate_pair(high: u16, low: u16) -> char {
    (0x10000 + (high - 0xD800) * 0x400 + (low - 0xDC00)) as char
}

/// The characters of `units` from position `start` on, each with the position
/// of its first code unit.  A surrogate without its partner stands for
/// U+FFFD and takes one position.
pub open spec fn decode_utf16_lossy_from(units: Seq<u16>, start: int) -> Seq<(char, usize)>
    decreases units.len() - start,
{
    if start < 0 || start >= units.len() {
        Seq::empty()
    } else if !is_high_surrogate(units[start]) && !is_low_surrogate(units[start]) {
        seq![(units[start] as char, start as usize)] + decode_utf16_lossy_from(units, start + 1)
    } else if is_high_surrogate(units[start]) && start + 1 < units.len() && is_low_surrogate(
        units[start + 1],
    ) {
        seq![(surrogate_pair(units[start], units[start + 1]), start as usize)]
            + decode_utf16_lossy_from(units, start + 2)
    } else {
        seq![('\u{FFFD}', start as usize)] + decode_utf16_lossy_from(units, start + 1)
    }
}

/// The characters of `units`, decoded lossily, each with its position.
pub open spec fn decode_utf16_lossy(units: Seq<u16>) -> Seq<(char, usize)> {
    decode_utf16_lossy_from(units, 0)
}

/// Everything that `widestring::UStr::<u16>::char_indices_lossy` yields for
/// `input`, in order.  Trusted: the iterator decodes UTF-16, replaces each
/// unpaired surrogate by U+FFFD, and pairs every character with the index of
/// its first code unit.
#[verifier::external_body]
fn char_indices_lossy(input: &[u16]) -> (decoded: Vec<(char, usize)>)
    ensures
        decoded@ == decode_utf16_lossy(input@),
{
    widestring::UStr::from_slice(input).char_indices_lossy().collect()
}

/// Every position that the decoding gives lies within `units`, at or behind
/// `start`.
pub proof fn lemma_decoded_positions(units: Seq<u16>, start: int)
    requires
        0 <= start,
        units.len() <= usize::MAX,
    ensures
        forall|k: int|
            0 <= k < decode_utf16_lossy_from(units, start).len() ==> start <= (
            #[trigger] decode_utf16_lossy_from(units, start)[k]).1 < units.len(),
    decreases units.len() - start,
{
    if start < units.len() {
        let decoded = decode_utf16_lossy_from(units, start);
        let paired = is_high_surrogate(units[start]) && start + 1 < units.len()
            && is_low_surrogate(units[start + 1]);
        let rest = decode_utf16_lossy_from(units, if paired { start + 2 } else { start + 1 });
        lemma_decoded_positions(units, if paired { start + 2 } else { start + 1 });
        assert forall|k: int| 0 <= k < decoded.len() implies start <= (#[trigger] decoded[k]).1
            < units.len() by {
            if k > 0 {
                assert(decoded[k] == rest[k - 1]);
            }
        }
    }
}

/// The characters of `units` that come before the first NUL character.
pub open spec fn lossy_text(units: Seq<u16>) -> Seq<char> {
    before_first(decode_utf16_lossy(units).map_values(|item: (char, usize)| item.0), '\0')
}

/// The length of the longest prefix of `text` whose UTF-8 form takes at most
/// `capacity` bytes.
pub open spec fn fitting_len(text: Seq<char>, capacity: int) -> nat
    decreases text.len(),
{
    if text.len() == 0 || encode_utf8(text).len() <= capacity {
        text.len()
    } else {
        fitting_len(text.drop_last(), capacity)
    }
}

/// The UTF-8 form of a text is the forms of its parts, one after the other.
pub proof fn lemma_encode_utf8_concat(left: Seq<char>, right: Seq<char>)
    ensures
        encode_utf8(left + right) == encode_utf8(left) + encode_utf8(right),
    decreases left.len(),
{
    if left.len() == 0 {
        assert(left + right =~= right);
        assert(encode_utf8(left) + encode_utf8(right) =~= encode_utf8(right));
    } else {
        lemma_encode_utf8_concat(left.drop_first(), right);
        assert((left + right).drop_first() =~= left.drop_first() + right);
        assert(encode_utf8(left + right) =~= encode_utf8(left) + encode_utf8(right));
    }
}

/// The UTF-8 form of a text of one character is the form of that character.
pub proof fn lemma_encode_utf8_single(c: char)
    ensures
        encode_utf8(seq![c]) == encode_scalar(c as u32),
{
    reveal_with_fuel(encode_utf8, 2);
    assert(seq![c].drop_first() =~= Seq::<char>::empty());
    assert(encode_utf8(seq![c]) =~= encode_scalar(c as u32));
}

/// A prefix of a text takes no more bytes than the text.
pub proof fn lemma_encode_utf8_prefix_len(text: Seq<char>, len: int)
    requires
        0 <= len <= text.len(),
    ensures
        encode_utf8(text.take(len)).len() <= encode_utf8(text).len(),
{
    lemma_encode_utf8_concat(text.take(len), text.skip(len));
    assert(text.take(len) + text.skip(len) =~= text);
}

/// `fitting_len` is the longest prefix that fits: that prefix fits, and no
/// longer one does.
pub proof fn lemma_fitting_len_is_longest(text: Seq<char>, capacity: int)
    requires
        0 <= capacity,
    ensures
        fitting_len(text, capacity) <= text.len(),
        encode_utf8(text.take(fitting_len(text, capacity) as int)).len() <= capacity,
        forall|len: int|
            fitting_len(text, capacity) < len <= text.len() ==> encode_utf8(
                #[trigger] text.take(len),
            ).len() > capacity,
    decreases text.len(),
{
    if text.len() == 0 || encode_utf8(text).len() <= capacity {
        assert(text.take(text.len() as int) =~= text);
    } else {
        let shorter = text.drop_last();
        lemma_fitting_len_is_longest(shorter, capacity);
        let fit = fitting_len(shorter, capacity) as int;
        assert(shorter.take(fit) =~= text.take(fit));
        assert forall|len: int| fit < len <= text.len() implies encode_utf8(
            #[trigger] text.take(len),
        ).len() > capacity by {
            if len == text.len() {
                assert(text.take(len) =~= text);
            } else {
                assert(shorter.take(len) =~= text.take(len));
            }
        }
    }
}

/// A prefix that fits, followed by a character that no longer does, is the
/// longest prefix that fits.
pub proof fn lemma_fitting_len_at_first_misfit(text: Seq<char>, capacity: int, len: int)
    requires
        0 <= len < text.len(),
        encode_utf8(text.take(len)).len() <= capacity,
        encode_utf8(text.take(len + 1)).len() > capacity,
    ensures
        fitting_len(text, capacity) == len,
    decreases text.len(),
{
    lemma_encode_utf8_prefix_len(text, len + 1);
    let shorter = text.drop_last();
    assert(shorter.take(len) =~= text.take(len));
    if text.len() == len + 1 {
        reveal_with_fuel(fitting_len, 2);
        assert(text.take(len + 1) =~= text);
        assert(shorter =~= text.take(len));
    } else {
        assert(shorter.take(len + 1) =~= text.take(len + 1));
        lemma_fitting_len_at_first_misfit(shorter, capacity, len);
    }
}

/// Converts `input` from UTF-16 to UTF-8, lossily, into `output`.
///
/// The conversion ends before the first NUL character, and before the first
/// character whose UTF-8 form no longer fits into `output`: a character is
/// written whole or not at all.  Returns the position in `input` up to which
/// it was converted (the position of the character that did not fit, else
/// the length of `input`) and the number of bytes written.  The bytes of
/// `output` behind those written stay as they were.
pub fn from_utf16_lossy(input: &[u16], output: &mut [u8]) -> (result: (usize, usize))
    ensures
        ({
            let text = lossy_text(input@);
            let fit = fitting_len(text, old(output)@.len() as int) as int;
            &&& result.0 <= input@.len()
            &&& result.1 <= old(output)@.len()
            &&& result.1 == encode_utf8(text.take(fit)).len()
            &&& valid_utf8(final(output)@.take(result.1 as int))
            &&& final(output)@ == encode_utf8(text.take(fit)) + old(output)@.skip(result.1 as int)
            &&& result.0 == if fit == text.len() {
                input@.len()
            } else {
                decode_utf16_lossy(input@)[fit].1 as nat
            }
        }),
{
    let decoded = char_indices_lossy(input);
    proof {
        assert(input@.len() == input.len());
        lemma_decoded_positions(input@, 0);
    }
    let ghost chars = decoded@.map_values(|item: (char, usize)| item.0);
    let ghost text = lossy_text(input@);
    let ghost capacity = output@.len() as int;
    let mut written: usize = 0;
    let mut next: usize = 0;
    proof {
        assert(chars.take(0) =~= Seq::<char>::empty());
        assert(output@ =~= encode_utf8(chars.take(0)) + output@.skip(0));
    }
    while next < decoded.len()
        invariant
            next <= decoded.len(),
            decoded@ == decode_utf16_lossy(input@),
            chars == decoded@.map_values(|item: (char, usize)| item.0),
            text == lossy_text(input@),
            capacity == old(output)@.len(),
            output@.len() == capacity,
            forall|j: int| 0 <= j < decoded@.len() ==> (#[trigger] decoded@[j]).1 < input@.len(),
            forall|j: int| 0 <= j < next ==> chars[j] != '\0',
            written == encode_utf8(chars.take(next as int)).len(),
            written <= capacity,
            output@ == encode_utf8(chars.take(next as int)) + old(output)@.skip(written as int),
        decreases decoded.len() - next,
    {
        let (c, position) = decoded[next];
        assert(c == chars[next as int]);
        if c == '\0' {
            proof {
                lemma_before_first(chars, '\0', next as int);
                assert(text.take(text.len() as int) =~= text);
                assert(output@.take(written as int) =~= encode_utf8(text));
                encode_utf8_valid_utf8(text);
            }
            return (input.len(), written);
        }
        let c_len = len_utf8(c);
        proof {
            assert(chars.take(next + 1) =~= chars.take(next as int) + seq![c]);
            lemma_encode_utf8_concat(chars.take(next as int), seq![c]);
            lemma_encode_utf8_single(c);
        }
        if c_len > output.len() - written {
            proof {
                lemma_before_first_covers(chars, '\0', next + 1);
                assert(text.take(next as int) =~= chars.take(next as int));
                lemma_fitting_len_at_first_misfit(text, capacity, next as int);
                assert(output@.take(written as int) =~= encode_utf8(text.take(next as int)));
                encode_utf8_valid_utf8(text.take(next as int));
            }
            return (position, written);
        }
        encode_utf8_at(c, output, written);
        proof {
            assert(output@ =~= encode_utf8(chars.take(next + 1)) + old(output)@.skip(
                written + c_len,
            ));
        }
        written = written + c_len;
        next = next + 1;
    }
    proof {
        lemma_before_first(chars, '\0', next as int);
        assert(text.take(text.len() as int) =~= text);
        assert(output@.take(written as int) =~= encode_utf8(text));
        encode_utf8_valid_utf8(text);
    }
    (input.len(), written)
}

/// What the description of a code is, once the formatter has written
/// `message` for it: a failure that carries `mechanism_error` where it wrote
/// nothing; else the text of `message` that fits into `MESSAGE_CAPACITY`
/// bytes of UTF-8, without the white space at its end.
pub open spec fn description(message: Seq<u16>, mechanism_error: Errno) -> Result<Seq<char>, Errno> {
    if message.len() == 0 {
        Err(mechanism_error)
    } else {
        let text = lossy_text(message);
        Ok(trim_end(text.take(fitting_len(text, MESSAGE_CAPACITY as int) as int)))
    }
}

/// A description does not end in white space, and so in no line end.
pub proof fn lemma_description_is_trimmed(message: Seq<u16>, mechanism_error: Errno)
    ensures
        description(message, mechanism_error) matches Ok(text) ==> text.len() == 0
            || !is_white_space(text.last()),
{
    let text = lossy_text(message);
    lemma_trim_end(text.take(fitting_len(text, MESSAGE_CAPACITY as int) as int));
}

/// A description takes no more than `MESSAGE_CAPACITY` bytes of UTF-8.
pub proof fn lemma_description_fits(message: Seq<u16>, mechanism_error: Errno)
    ensures
        description(message, mechanism_error) matches Ok(text) ==> encode_utf8(text).len()
            <= MESSAGE_CAPACITY,
{
    if message.len() > 0 {
        let text = lossy_text(message);
        let kept = text.take(fitting_len(text, MESSAGE_CAPACITY as int) as int);
        lemma_fitting_len_is_longest(text, MESSAGE_CAPACITY as int);
        lemma_trim_end(kept);
        lemma_encode_utf8_prefix_len(kept, trim_end(kept).len() as int);
    }
}

/// Hands `callback` the description that the formatter's output stands for,
/// and returns what `callback` made of it.
///
/// `message` is what the formatter wrote: empty where it failed, in which
/// case `mechanism_error` is the error that it reported for itself.
pub fn with_description<F, T>(message: &[u16], mechanism_error: Errno, callback: F) -> (result: T)
    where F: FnOnce(Result<&str, Errno>) -> T
    requires
        forall|given: Result<&str, Errno>|
            outcome(given) == description(message@, mechanism_error) ==> callback.requires((given,)),
    ensures
        exists|given: Result<&str, Errno>|
            outcome(given) == description(message@, mechanism_error) && callback.ensures(
                (given,),
                result,
            ),
{
    if message.len() == 0 {
        let given: Result<&str, Errno> = Err(mechanism_error);
        assert(outcome(given) == description(message@, mechanism_error));
        return callback(given);
    }
    let ghost text = lossy_text(message@);
    let ghost kept = text.take(fitting_len(text, MESSAGE_CAPACITY as int) as int);
    let mut msg_buf = [0u8; MESSAGE_CAPACITY];
    let (_, msg_len) = from_utf16_lossy(message, &mut msg_buf);
    let bytes = &msg_buf[0..msg_len];
    proof {
        assert(bytes@ =~= encode_utf8(kept));
        encode_utf8_valid_utf8(kept);
        encode_utf8_decode_utf8(kept);
    }
    let msg = str_from_utf8(bytes).unwrap();
    let given: Result<&str, Errno> = Ok(trim_right(msg));
    assert(outcome(given) == description(message@, mechanism_error));
    callback(given)
}

} // verus!
