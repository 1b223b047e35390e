//! The four metrics over a byte buffer.

use vstd::prelude::*;
use vstd::string::*;
use vstd::utf8::*;

verus! {

/// Why a count could not be produced.
#[derive(Clone, Copy, Debug, PartialEq, Eq, Structural)]
pub enum CountError {
    /// The buffer is not well-formed UTF-8, and the metric asked for needs text.
    Encoding,
}

/// The line terminator.
pub open spec fn is_line_break(b: u8) -> bool {
    b == 0x0a
}

/// The bytes that separate words: tab, line feed, vertical tab, form feed,
/// carriage return and space. No other byte separates, whatever it encodes.
pub open spec fn is_separator(b: u8) -> bool {
    (0x09 <= b && b <= 0x0d) || b == 0x20
}

/// How many of the first `n` bytes are line terminators.
pub open spec fn line_breaks_before(bytes: Seq<u8>, n: int) -> nat
    decreases n,
{
    if n <= 0 {
        0
    } else {
        line_breaks_before(bytes, n - 1) + if is_line_break(bytes[n - 1]) {
            1nat
        } else {
            0nat
        }
    }
}

/// The number of lines: one per terminator, and one more for a last line
/// that no terminator closes.
pub open spec fn line_count(bytes: Seq<u8>) -> nat {
    let open_last_line = bytes.len() > 0 && !is_line_break(bytes.last());
    line_breaks_before(bytes, bytes.len() as int) + if open_last_line {
        1nat
    } else {
        0nat
    }
}

/// A word begins at `i`: the byte there is no separator, and it is the first
/// byte or follows a separator.
pub open spec fn starts_word(bytes: Seq<u8>, i: int) -> bool {
    &&& 0 <= i < bytes.len()
    &&& !is_separator(bytes[i])
    &&& (i == 0 || is_separator(bytes[i - 1]))
}

/// How many words begin among the first `n` bytes.
pub open spec fn word_starts_before(bytes: Seq<u8>, n: int) -> nat
    decreases n,
{
    if n <= 0 {
        0
    } else {
        word_starts_before(bytes, n - 1) + if starts_word(bytes, n - 1) {
            1nat
        } else {
            0nat
        }
    }
}

/// The number of maximal runs of bytes that are no separators: each run has
/// exactly one first byte.
pub open spec fn word_count(bytes: Seq<u8>) -> nat {
    word_starts_before(bytes, bytes.len() as int)
}

/// The number of scalar values that the buffer encodes. Meaningful for
/// well-formed UTF-8 only.
pub open spec fn character_count(bytes: Seq<u8>) -> nat {
    decode_utf8(bytes).len()
}

/// Strict decoding, by `std::str::from_utf8`. It accepts exactly the
/// well-formed UTF-8 buffers, and the text it hands back on success is the
/// buffer's scalar values in order. Believed, not proved.
#[verifier::external_body]
fn decode<'a>(bytes: &'a [u8]) -> (text: Option<&'a str>)
    ensures
        text is Some <==> valid_utf8(bytes@),
        text matches Some(s) ==> s@ == decode_utf8(bytes@),
{
    std::str::from_utf8(bytes).ok()
}

/// The raw length of the buffer.
pub fn count_content_bytes(contents: &Vec<u8>) -> (n: usize)
    ensures
        n == contents@.len(),
{
    contents.len()
}

/// The number of lines in the buffer. Never fails: the bytes are not decoded.
pub fn count_content_lines(contents: &Vec<u8>) -> (n: usize)
    ensures
        n == line_count(contents@),
{
    let len: usize = contents.len();
    let mut breaks: usize = 0;
    let mut i: usize = 0;
    while i < len
        invariant
            i <= len,
            len == contents@.len(),
            breaks == line_breaks_before(contents@, i as int),
            breaks <= i,
        decreases len - i,
    {
        if contents[i] == 0x0a {
            breaks = breaks + 1;
        }
        i = i + 1;
    }
    if len > 0 && contents[len - 1] != 0x0a {
        assert(line_breaks_before(contents@, len as int) == line_breaks_before(
            contents@,
            len - 1,
        ));
        assert(line_breaks_before(contents@, len - 1) <= len - 1) by {
            lemma_line_breaks_bounded(contents@, len - 1);
        }
        breaks + 1
    } else {
        breaks
    }
}

/// The number of words in the buffer, or `Encoding` where the buffer is not
/// well-formed UTF-8.
pub fn count_content_words(contents: &[u8]) -> (r: Result<usize, CountError>)
    ensures
        r is Ok <==> valid_utf8(contents@),
        r matches Ok(n) ==> n == word_count(contents@),
{
    match decode(contents) {
        None => Err(CountError::Encoding),
        Some(_) => Ok(count_word_starts(contents)),
    }
}

/// The number of scalar values in the buffer, or `Encoding` where the buffer
/// is not well-formed UTF-8.
pub fn count_content_characters(contents: &[u8]) -> (r: Result<usize, CountError>)
    ensures
        r is Ok <==> valid_utf8(contents@),
        r matches Ok(n) ==> n == character_count(contents@),
{
    match decode(contents) {
        None => Err(CountError::Encoding),
        Some(text) => Ok(text.unicode_len()),
    }
}

/// Walks the buffer once and counts the places where a word begins.
fn count_word_starts(contents: &[u8]) -> (n: usize)
    ensures
        n == word_count(contents@),
{
    let len: usize = contents.len();
    let mut words: usize = 0;
    let mut in_word: bool = false;
    let mut i: usize = 0;
    while i < len
        invariant
            i <= len,
            len == contents@.len(),
            words == word_starts_before(contents@, i as int),
            words <= i,
            in_word <==> (i > 0 && !is_separator(contents@[i - 1])),
        decreases len - i,
    {
        let separator: bool = is_separator_byte(contents[i]);
        if !separator && !in_word {
            words = words + 1;
        }
        in_word = !separator;
        i = i + 1;
    }
    words
}

fn is_separator_byte(b: u8) -> (r: bool)
    ensures
        r == is_separator(b),
{
    (0x09 <= b && b <= 0x0d) || b == 0x20
}

proof fn lemma_line_breaks_bounded(bytes: Seq<u8>, n: int)
    requires
        0 <= n <= bytes.len(),
    ensures
        line_breaks_before(bytes, n) <= n,
    decreases n,
{
    if n > 0 {
        lemma_line_breaks_bounded(bytes, n - 1);
    }
}

proof fn lemma_word_starts_bounded(bytes: Seq<u8>, n: int)
    requires
        0 <= n <= bytes.len(),
    ensures
        word_starts_before(bytes, n) <= n,
    decreases n,
{
    if n > 0 {
        lemma_word_starts_bounded(bytes, n - 1);
    }
}

/// No buffer has more lines than bytes.
pub proof fn lemma_lines_at_most_bytes(bytes: Seq<u8>)
    ensures
        line_count(bytes) <= bytes.len(),
{
    if bytes.len() > 0 {
        lemma_line_breaks_bounded(bytes, bytes.len() - 1);
    }
}

/// No buffer has more words than bytes.
pub proof fn lemma_words_at_most_bytes(bytes: Seq<u8>)
    ensures
        word_count(bytes) <= bytes.len(),
{
    lemma_word_starts_bounded(bytes, bytes.len() as int);
}

/// A buffer of separators alone holds no word.
pub proof fn lemma_separators_hold_no_word(bytes: Seq<u8>)
    requires
        forall|i: int| 0 <= i < bytes.len() ==> is_separator(#[trigger] bytes[i]),
    ensures
        word_count(bytes) == 0,
{
    lemma_no_word_starts(bytes, bytes.len() as int);
}

proof fn lemma_no_word_starts(bytes: Seq<u8>, n: int)
    requires
        0 <= n <= bytes.len(),
        forall|i: int| 0 <= i < bytes.len() ==> is_separator(#[trigger] bytes[i]),
    ensures
        word_starts_before(bytes, n) == 0,
    decreases n,
{
    if n > 0 {
        lemma_no_word_starts(bytes, n - 1);
    }
}

/// Every scalar value counts once, however many bytes encode it: a
/// well-formed buffer that is not empty has one character more than what
/// follows its first scalar value.
pub proof fn lemma_first_scalar_counts_once(bytes: Seq<u8>)
    requires
        valid_utf8(bytes),
        bytes.len() > 0,
    ensures
        character_count(bytes) == 1 + character_count(pop_first_scalar(bytes)),
        bytes.len() == length_of_first_scalar(bytes) + pop_first_scalar(bytes).len(),
        1 <= length_of_first_scalar(bytes) <= 4,
{
    assert(decode_utf8(bytes) == seq![decode_first_scalar(bytes) as char] + decode_utf8(
        pop_first_scalar(bytes),
    ));
}

/// A well-formed buffer has at most as many characters as bytes.
pub proof fn lemma_characters_at_most_bytes(bytes: Seq<u8>)
    requires
        valid_utf8(bytes),
    ensures
        character_count(bytes) <= bytes.len(),
    decreases bytes.len(),
{
    if bytes.len() > 0 {
        lemma_first_scalar_counts_once(bytes);
        lemma_characters_at_most_bytes(pop_first_scalar(bytes));
    }
}

} // verus!
