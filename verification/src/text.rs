//! A text as the lines that the canvas shows.

use vstd::prelude::*;
use vstd::utf8::{
    decode_utf8_split, encode_utf8, encode_utf8_decode_utf8, encode_utf8_valid_utf8,
    is_char_boundary, is_char_boundary_iff_not_is_continuation_byte, valid_utf8,
};

verus! {

/// Whether a text holds no line feed.
pub open spec fn has_no_line_feed(text: Seq<char>) -> bool {
    forall|i: int| 0 <= i < text.len() ==> #[trigger] text[i] != '\n'
}

/// The place of the first line feed of a text; its length where it has none.
pub open spec fn line_end(text: Seq<char>) -> int
    decreases text.len(),
{
    if text.len() == 0 || text[0] == '\n' {
        0
    } else {
        1 + line_end(text.drop_first())
    }
}

/// A line without the carriage return that may stand at its end.
pub open spec fn without_carriage_return(line: Seq<char>) -> Seq<char> {
    if line.len() > 0 && line.last() == '\r' {
        line.drop_last()
    } else {
        line
    }
}

/// The lines of a text.  A line ends with a line feed, or with a carriage
/// return and a line feed; neither belongs to the line.  What follows the
/// last line feed is a line too, unless it is empty, and is kept whole.  The
/// empty text has no lines.
pub open spec fn lines_of(text: Seq<char>) -> Seq<Seq<char>>
    decreases text.len(),
{
    let end = line_end(text);
    if text.len() == 0 {
        Seq::empty()
    } else if 0 <= end < text.len() {
        seq![without_carriage_return(text.take(end))] + lines_of(text.skip(end + 1))
    } else {
        seq![text]
    }
}

/// The first line feed stands where `line_end` says, and none before it.
pub proof fn line_end_is_first_line_feed(text: Seq<char>)
    ensures
        0 <= line_end(text) <= text.len(),
        has_no_line_feed(text.take(line_end(text))),
        line_end(text) < text.len() ==> text[line_end(text)] == '\n',
    decreases text.len(),
{
    if text.len() == 0 || text[0] == '\n' {
    } else {
        let rest = text.drop_first();
        line_end_is_first_line_feed(rest);
        let end = line_end(text);
        assert forall|i: int| 0 <= i < end implies #[trigger] text.take(end)[i] != '\n' by {
            if i > 0 {
                assert(text.take(end)[i] == rest.take(end - 1)[i - 1]);
            }
        }
    }
}

/// No line holds a line feed.
pub proof fn lines_hold_no_line_feed(text: Seq<char>)
    ensures
        forall|i: int| 0 <= i < lines_of(text).len() ==> has_no_line_feed(#[trigger] lines_of(text)[i]),
    decreases text.len(),
{
    line_end_is_first_line_feed(text);
    let end = line_end(text);
    if text.len() == 0 {
    } else if end < text.len() {
        let rest = text.skip(end + 1);
        lines_hold_no_line_feed(rest);
        let first = without_carriage_return(text.take(end));
        assert(has_no_line_feed(first)) by {
            assert forall|j: int| 0 <= j < first.len() implies #[trigger] first[j] != '\n' by {
                assert(first[j] == text.take(end)[j]);
            }
        }
        assert forall|i: int| 0 <= i < lines_of(text).len() implies has_no_line_feed(
            #[trigger] lines_of(text)[i],
        ) by {
            if i > 0 {
                assert(lines_of(text)[i] == lines_of(rest)[i - 1]);
            }
        }
    } else {
        assert(text.take(end) =~= text);
    }
}

/// A text that holds a line feed at `at` and none before it ends its first
/// line there.
proof fn line_end_found(text: Seq<char>, at: int)
    requires
        0 <= at <= text.len(),
        has_no_line_feed(text.take(at)),
        at < text.len() ==> text[at] == '\n',
    ensures
        line_end(text) == at,
    decreases text.len(),
{
    if text.len() == 0 || text[0] == '\n' {
        if at > 0 {
            assert(text.take(at)[0] == text[0]);
        }
    } else {
        let rest = text.drop_first();
        assert(at > 0);
        assert forall|i: int| 0 <= i < at - 1 implies #[trigger] rest.take(at - 1)[i] != '\n' by {
            assert(rest.take(at - 1)[i] == text.take(at)[i + 1]);
        }
        line_end_found(rest, at - 1);
    }
}

/// The bytes of two texts joined are the bytes of the first and then the
/// bytes of the second.
proof fn encoding_of_joined(first: Seq<char>, second: Seq<char>)
    ensures
        encode_utf8(first + second) == encode_utf8(first) + encode_utf8(second),
    decreases first.len(),
{
    if first.len() == 0 {
        assert(first + second =~= second);
        assert(encode_utf8(first) + encode_utf8(second) =~= encode_utf8(second));
    } else {
        encoding_of_joined(first.drop_first(), second);
        assert((first + second).drop_first() =~= first.drop_first() + second);
        assert(encode_utf8(first + second) =~= encode_utf8(first) + encode_utf8(second));
    }
}

/// A character below 128 is written as the one byte of the same number.
proof fn encoding_of_single(c: char)
    requires
        (c as u32) < 128,
    ensures
        encode_utf8(seq![c]) == seq![c as u8],
{
    let scalar = c as u32;
    assert(((scalar & 0x7F) as u8) == scalar as u8) by (bit_vector)
        requires
            scalar < 128,
    ;
    assert(seq![c].drop_first() =~= Seq::<char>::empty());
    assert(encode_utf8(seq![c].drop_first()) =~= Seq::<u8>::empty()) by {
        reveal_with_fuel(encode_utf8, 2);
    }
    assert(encode_utf8(seq![c]) =~= seq![c as u8]) by {
        reveal_with_fuel(encode_utf8, 2);
    }
}

/// A text whose bytes hold no 10 holds no line feed.
proof fn no_line_feed_among_bytes(text: Seq<char>)
    requires
        forall|j: int| 0 <= j < encode_utf8(text).len() ==> encode_utf8(text)[j] != 10u8,
    ensures
        has_no_line_feed(text),
{
    assert forall|i: int| 0 <= i < text.len() implies #[trigger] text[i] != '\n' by {
        if text[i] == '\n' {
            let before = text.take(i);
            let after = text.skip(i + 1);
            assert(text =~= before + (seq!['\n'] + after));
            encoding_of_joined(before, seq!['\n'] + after);
            encoding_of_joined(seq!['\n'], after);
            encoding_of_single('\n');
            let bytes = encode_utf8(text);
            let at = encode_utf8(before).len() as int;
            assert(bytes[at] == (encode_utf8(seq!['\n']) + encode_utf8(after))[0]);
            assert(bytes[at] == 10u8);
        }
    }
}

/// A text that ends with a carriage return ends with the byte 13.
proof fn carriage_return_among_bytes(text: Seq<char>)
    requires
        text.len() > 0,
        text.last() == '\r',
    ensures
        encode_utf8(text).len() > 0,
        encode_utf8(text).last() == 13u8,
{
    assert(text =~= text.drop_last() + seq!['\r']);
    encoding_of_joined(text.drop_last(), seq!['\r']);
    encoding_of_single('\r');
}

/// A text written as the one byte `byte`, below 128, is the character of
/// that number.
proof fn single_byte_text(text: Seq<char>, c: char)
    requires
        (c as u32) < 128,
        encode_utf8(text) == seq![c as u8],
    ensures
        text == seq![c],
{
    encoding_of_single(c);
    encode_utf8_decode_utf8(text);
    encode_utf8_decode_utf8(seq![c]);
}

/// Cuts a text in two before the byte `at`, where a character begins.
fn cut<'a>(text: &'a str, at: usize) -> (parts: (&'a str, &'a str))
    requires
        at <= encode_utf8(text@).len(),
        is_char_boundary(encode_utf8(text@), at as int),
    ensures
        parts.0@ + parts.1@ == text@,
        encode_utf8(parts.0@) == encode_utf8(text@).subrange(0, at as int),
        encode_utf8(parts.1@) == encode_utf8(text@).subrange(
            at as int,
            encode_utf8(text@).len() as int,
        ),
{
    let parts = text.split_at(at);
    proof {
        let bytes = encode_utf8(text@);
        encode_utf8_valid_utf8(text@);
        decode_utf8_split(bytes, at as int);
        encode_utf8_decode_utf8(text@);
        encode_utf8_decode_utf8(parts.0@);
        encode_utf8_decode_utf8(parts.1@);
        assert(parts.0@ + parts.1@ =~= text@);
    }
    parts
}

/// Splits a text into its lines.
pub fn split_lines(text: &str) -> (lines: Vec<String>)
    ensures
        lines.deep_view() == lines_of(text@),
{
    let mut lines: Vec<String> = Vec::new();
    let mut rest: &str = text;
    assert(lines.deep_view() + lines_of(rest@) =~= lines_of(text@));
    loop
        invariant
            lines.deep_view() + lines_of(rest@) == lines_of(text@),
        decreases rest@.len(),
    {
        let bytes = rest.as_bytes();
        let n: usize = bytes.len();
        let mut k: usize = 0;
        while k < n && bytes[k] != 10u8
            invariant
                k <= n,
                n == bytes@.len(),
                forall|j: int| 0 <= j < k ==> bytes@[j] != 10u8,
            decreases n - k,
        {
            k += 1;
        }
        let ghost shown = lines.deep_view();
        if k == n {
            proof {
                no_line_feed_among_bytes(rest@);
                assert(rest@.take(rest@.len() as int) =~= rest@);
                line_end_found(rest@, rest@.len() as int);
            }
            if !rest.is_empty() {
                lines.push(rest.to_owned());
                assert(lines.deep_view() =~= shown.push(rest@));
                assert(lines.deep_view() =~= shown + lines_of(rest@));
            } else {
                assert(shown + lines_of(rest@) =~= shown);
            }
            return lines;
        }
        proof {
            encode_utf8_valid_utf8(rest@);
            is_char_boundary_iff_not_is_continuation_byte(bytes@, k as int);
        }
        let (head, tail) = cut(rest, k);
        proof {
            let tail_bytes = encode_utf8(tail@);
            encode_utf8_valid_utf8(tail@);
            assert(tail_bytes[0] == 10u8);
            assert(valid_utf8(tail_bytes.subrange(1, tail_bytes.len() as int))) by {
                reveal_with_fuel(valid_utf8, 2);
            }
            assert(is_char_boundary(tail_bytes, 1)) by {
                reveal_with_fuel(is_char_boundary, 2);
            }
        }
        let (feed, after) = cut(tail, 1);
        proof {
            assert(encode_utf8(feed@) =~= seq!['\n' as u8]);
            single_byte_text(feed@, '\n');
            assert(forall|j: int|
                0 <= j < encode_utf8(head@).len() ==> encode_utf8(head@)[j] == bytes@[j]);
            no_line_feed_among_bytes(head@);
            let at = head@.len() as int;
            assert(rest@ =~= head@ + (seq!['\n'] + after@));
            assert(rest@.take(at) =~= head@);
            assert(rest@.skip(at + 1) =~= after@);
            line_end_found(rest@, at);
        }
        let line: &str = if k > 0 && bytes[k - 1] == 13u8 {
            proof {
                encode_utf8_valid_utf8(head@);
                is_char_boundary_iff_not_is_continuation_byte(encode_utf8(head@), k - 1);
            }
            let (body, carriage_return) = cut(head, k - 1);
            proof {
                assert(encode_utf8(carriage_return@) =~= seq!['\r' as u8]);
                single_byte_text(carriage_return@, '\r');
                assert(head@.drop_last() =~= body@);
            }
            body
        } else {
            proof {
                if head@.len() > 0 && head@.last() == '\r' {
                    carriage_return_among_bytes(head@);
                }
            }
            head
        };
        assert(line@ == without_carriage_return(head@));
        lines.push(line.to_owned());
        proof {
            assert(lines.deep_view() =~= shown.push(line@));
            assert(lines.deep_view() + lines_of(after@) =~= shown + lines_of(rest@));
        }
        rest = after;
    }
}

} // verus!
