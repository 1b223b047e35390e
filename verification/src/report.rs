//! From a buffer and the metrics asked for to the counts, and from the counts
//! to the text of the summary line.

use vstd::prelude::*;
use vstd::string::*;
use vstd::utf8::*;
use crate::count::{
    character_count, count_content_bytes, count_content_characters, count_content_lines,
    count_content_words, line_count, word_count, CountError,
};
use crate::modes::ProgOption;

verus! {

/// The metric is defined on text, not on raw bytes.
pub open spec fn needs_text(mode: ProgOption) -> bool {
    mode == ProgOption::CountWords || mode == ProgOption::CountChars
}

/// The metrics can all be computed: none of them needs text, or the buffer
/// is well-formed UTF-8.
pub open spec fn countable(modes: Seq<ProgOption>, bytes: Seq<u8>) -> bool {
    valid_utf8(bytes) || forall|i: int| 0 <= i < modes.len() ==> !needs_text(#[trigger] modes[i])
}

/// The value of one metric on a buffer.
pub open spec fn metric(mode: ProgOption, bytes: Seq<u8>) -> nat {
    match mode {
        ProgOption::CountBytes => bytes.len(),
        ProgOption::CountLines => line_count(bytes),
        ProgOption::CountWords => word_count(bytes),
        ProgOption::CountChars => character_count(bytes),
    }
}

/// One value per metric, in the order asked for.
pub open spec fn metrics(modes: Seq<ProgOption>, bytes: Seq<u8>) -> Seq<nat> {
    Seq::new(modes.len(), |i: int| metric(modes[i], bytes))
}

/// The counts as mathematical numbers.
pub open spec fn values(counts: Seq<usize>) -> Seq<nat> {
    Seq::new(counts.len(), |i: int| counts[i] as nat)
}

/// The character that writes a digit.
pub open spec fn digit(d: nat) -> char {
    if d == 0 {
        '0'
    } else if d == 1 {
        '1'
    } else if d == 2 {
        '2'
    } else if d == 3 {
        '3'
    } else if d == 4 {
        '4'
    } else if d == 5 {
        '5'
    } else if d == 6 {
        '6'
    } else if d == 7 {
        '7'
    } else if d == 8 {
        '8'
    } else {
        '9'
    }
}

/// A number in decimal, without sign or leading zeros.
pub open spec fn decimal(n: nat) -> Seq<char>
    decreases n,
{
    if n < 10 {
        seq![digit(n)]
    } else {
        decimal(n / 10) + seq![digit(n % 10)]
    }
}

/// The counts in decimal, in order, each followed by one space.
pub open spec fn render(counts: Seq<nat>) -> Seq<char>
    decreases counts.len(),
{
    if counts.len() == 0 {
        Seq::empty()
    } else {
        render(counts.drop_last()) + decimal(counts.last()) + seq![' ']
    }
}

/// The text of the summary line for a buffer and the metrics asked for.
pub open spec fn summary(modes: Seq<ProgOption>, bytes: Seq<u8>) -> Seq<char> {
    render(metrics(modes, bytes))
}

/// How many spaces a text holds.
pub open spec fn spaces_in(text: Seq<char>) -> nat
    decreases text.len(),
{
    if text.len() == 0 {
        0
    } else {
        spaces_in(text.drop_last()) + if text.last() == ' ' {
            1nat
        } else {
            0nat
        }
    }
}

proof fn lemma_spaces_of_one(c: char)
    ensures
        spaces_in(seq![c]) == if c == ' ' {
            1nat
        } else {
            0nat
        },
{
    assert(seq![c].drop_last() =~= Seq::<char>::empty());
    assert(spaces_in(seq![c]) == spaces_in(seq![c].drop_last()) + if c == ' ' {
        1nat
    } else {
        0nat
    });
}

proof fn lemma_spaces_add_up(head: Seq<char>, tail: Seq<char>)
    ensures
        spaces_in(head + tail) == spaces_in(head) + spaces_in(tail),
    decreases tail.len(),
{
    if tail.len() == 0 {
        assert(head + tail =~= head);
    } else {
        assert((head + tail).drop_last() =~= head + tail.drop_last());
        lemma_spaces_add_up(head, tail.drop_last());
    }
}

proof fn lemma_decimal_holds_no_space(n: nat)
    ensures
        spaces_in(decimal(n)) == 0,
    decreases n,
{
    if n < 10 {
        lemma_spaces_of_one(digit(n));
    } else {
        lemma_decimal_holds_no_space(n / 10);
        lemma_spaces_of_one(digit(n % 10));
        lemma_spaces_add_up(decimal(n / 10), seq![digit(n % 10)]);
    }
}

/// The rendered counts hold exactly one space for each value: the values of
/// a line can be told apart and counted.
pub proof fn lemma_one_space_per_value(counts: Seq<nat>)
    ensures
        spaces_in(render(counts)) == counts.len(),
    decreases counts.len(),
{
    if counts.len() > 0 {
        let before = render(counts.drop_last());
        let value = decimal(counts.last());
        lemma_one_space_per_value(counts.drop_last());
        lemma_decimal_holds_no_space(counts.last());
        lemma_spaces_of_one(' ');
        lemma_spaces_add_up(before, value);
        lemma_spaces_add_up(before + value, seq![' ']);
    }
}

fn digit_text(d: usize) -> (text: &'static str)
    requires
        d < 10,
    ensures
        text@ == seq![digit(d as nat)],
{
    proof {
        reveal_strlit("0");
        reveal_strlit("1");
        reveal_strlit("2");
        reveal_strlit("3");
        reveal_strlit("4");
        reveal_strlit("5");
        reveal_strlit("6");
        reveal_strlit("7");
        reveal_strlit("8");
        reveal_strlit("9");
    }
    let text: &'static str = if d == 0 {
        "0"
    } else if d == 1 {
        "1"
    } else if d == 2 {
        "2"
    } else if d == 3 {
        "3"
    } else if d == 4 {
        "4"
    } else if d == 5 {
        "5"
    } else if d == 6 {
        "6"
    } else if d == 7 {
        "7"
    } else if d == 8 {
        "8"
    } else {
        "9"
    };
    assert(text@ =~= seq![digit(d as nat)]);
    text
}

/// Appends a number in decimal.
fn append_decimal(line: &mut String, n: usize)
    ensures
        final(line)@ == old(line)@ + decimal(n as nat),
    decreases n,
{
    if n >= 10 {
        append_decimal(line, n / 10);
    }
    line.append(digit_text(n % 10));
    assert(final(line)@ =~= old(line)@ + decimal(n as nat));
}

/// The value of one metric on a buffer, or `Encoding` where the metric needs
/// text and the buffer is not well-formed UTF-8.
pub fn count_one(mode: ProgOption, contents: &Vec<u8>) -> (r: Result<usize, CountError>)
    ensures
        r is Ok <==> (!needs_text(mode) || valid_utf8(contents@)),
        r matches Ok(n) ==> n == metric(mode, contents@),
{
    match mode {
        ProgOption::CountLines => Ok(count_content_lines(contents)),
        ProgOption::CountBytes => Ok(count_content_bytes(contents)),
        ProgOption::CountWords => count_content_words(contents.as_slice()),
        ProgOption::CountChars => count_content_characters(contents.as_slice()),
    }
}

/// Computes every metric asked for, in the order asked for. Fails with
/// `Encoding`, and with no partial result, exactly where some metric needs
/// text and the buffer is not well-formed UTF-8.
pub fn count_all(flags: &Vec<ProgOption>, contents: &Vec<u8>) -> (r: Result<
    Vec<usize>,
    CountError,
>)
    ensures
        r is Ok <==> countable(flags@, contents@),
        r matches Ok(counts) ==> values(counts@) == metrics(flags@, contents@),
{
    let mut counts: Vec<usize> = Vec::new();
    let mut i: usize = 0;
    while i < flags.len()
        invariant
            i <= flags@.len(),
            counts@.len() == i,
            forall|j: int| 0 <= j < i ==> counts@[j] == metric(#[trigger] flags@[j], contents@),
            forall|j: int| 0 <= j < i ==> !needs_text(#[trigger] flags@[j]) || valid_utf8(contents@),
        decreases flags@.len() - i,
    {
        match count_one(flags[i], contents) {
            Ok(n) => {
                counts.push(n);
            },
            Err(e) => {
                assert(needs_text(flags@[i as int]));
                return Err(e);
            },
        }
        i = i + 1;
    }
    assert(values(counts@) =~= metrics(flags@, contents@));
    Ok(counts)
}

/// Writes the counts in decimal, in order, each followed by one space.
pub fn format_counts(counts: &Vec<usize>) -> (line: String)
    ensures
        line@ == render(values(counts@)),
{
    let mut line: String = String::new();
    let mut i: usize = 0;
    while i < counts.len()
        invariant
            i <= counts@.len(),
            line@ == render(values(counts@).take(i as int)),
        decreases counts@.len() - i,
    {
        let ghost before = line@;
        append_decimal(&mut line, counts[i]);
        line.append(" ");
        proof {
            reveal_strlit(" ");
            let now = values(counts@).take(i + 1);
            assert(now.drop_last() =~= values(counts@).take(i as int));
            assert(now.last() == counts@[i as int] as nat);
            assert(line@ =~= before + decimal(counts@[i as int] as nat) + seq![' ']);
        }
        i = i + 1;
    }
    assert(values(counts@).take(i as int) =~= values(counts@));
    line
}

/// The text of the summary line, up to where the input's name goes: the
/// value of each metric asked for, in order, each followed by one space.
/// Fails with `Encoding` exactly where some metric needs text and the buffer
/// is not well-formed UTF-8.
pub fn parse_contents(flags: Vec<ProgOption>, contents: &Vec<u8>) -> (r: Result<
    String,
    CountError,
>)
    ensures
        r is Ok <==> countable(flags@, contents@),
        r matches Ok(line) ==> line@ == summary(flags@, contents@),
{
    match count_all(&flags, contents) {
        Ok(counts) => Ok(format_counts(&counts)),
        Err(e) => Err(e),
    }
}

} // verus!
