//! Splitting raw bytes into lines, and lines into text.
//!
//! A line ends at a line feed. The line feed is not part of the line, and neither
//! is a carriage return that stands directly before it. Bytes after the last line
//! feed form a last line, kept as they are. Nothing follows a final line feed.

use vstd::prelude::*;
use vstd::slice::*;
use vstd::utf8::*;

verus! {

/// The byte that ends a line.
pub const LINE_FEED: u8 = 10;

/// The byte that is dropped when it stands directly before a line feed.
pub const CARRIAGE_RETURN: u8 = 13;

/// The number of bytes before the first line feed in `raw`; its length if there is none.
pub open spec fn first_break(raw: Seq<u8>) -> nat
    decreases raw.len(),
{
    if raw.len() == 0 || raw[0] == LINE_FEED {
        0
    } else {
        1 + first_break(raw.skip(1))
    }
}

/// A terminated line without the carriage return at its end, if it has one.
pub open spec fn trim_return(line: Seq<u8>) -> Seq<u8> {
    if line.len() > 0 && line.last() == CARRIAGE_RETURN {
        line.drop_last()
    } else {
        line
    }
}

/// The lines of `raw`, in order.
pub open spec fn lines_of(raw: Seq<u8>) -> Seq<Seq<u8>>
    decreases raw.len(),
{
    if raw.len() == 0 {
        Seq::empty()
    } else {
        let end = first_break(raw);
        if end >= raw.len() {
            seq![raw]
        } else {
            seq![trim_return(raw.take(end as int))] + lines_of(raw.skip((end + 1) as int))
        }
    }
}

/// The first break of `raw.skip(from)` lies at `at - from` when `at` is the first
/// position from `from` on that holds a line feed or ends `raw`.
proof fn lemma_first_break_found(raw: Seq<u8>, from: int, at: int)
    requires
        0 <= from <= at <= raw.len(),
        forall|j: int| from <= j < at ==> raw[j] != LINE_FEED,
        at < raw.len() ==> raw[at] == LINE_FEED,
    ensures
        first_break(raw.skip(from)) == at - from,
    decreases at - from,
{
    let rest = raw.skip(from);
    if from == at {
        if at < raw.len() {
            assert(rest[0] == raw[at]);
        }
    } else {
        assert(rest[0] == raw[from]);
        assert(rest.skip(1) =~= raw.skip(from + 1));
        lemma_first_break_found(raw, from + 1, at);
    }
}

/// Splits `raw` into its lines.
pub fn split_lines(raw: &[u8]) -> (lines: Vec<Vec<u8>>)
    ensures
        lines@.len() == lines_of(raw@).len(),
        forall|i: int| 0 <= i < lines@.len() ==> (#[trigger] lines@[i])@ == lines_of(raw@)[i],
{
    let mut lines: Vec<Vec<u8>> = Vec::new();
    let mut start: usize = 0;
    let total: usize = raw.len();
    let ghost mut done: Seq<Seq<u8>> = Seq::empty();
    proof {
        assert(raw@.skip(0) =~= raw@);
    }
    while start < total
        invariant
            total == raw@.len(),
            start <= total,
            done.len() == lines@.len(),
            forall|i: int| 0 <= i < lines@.len() ==> (#[trigger] lines@[i])@ == done[i],
            lines_of(raw@) == done + lines_of(raw@.skip(start as int)),
        decreases total - start,
    {
        let mut at: usize = start;
        while at < total && raw[at] != LINE_FEED
            invariant
                total == raw@.len(),
                start <= at <= total,
                forall|j: int| start <= j < at ==> raw@[j] != LINE_FEED,
            decreases total - at,
        {
            at = at + 1;
        }
        let ghost rest = raw@.skip(start as int);
        proof {
            lemma_first_break_found(raw@, start as int, at as int);
        }
        if at == total {
            let line = slice_to_vec(slice_subrange(raw, start, total));
            proof {
                assert(line@ =~= rest);
                assert(lines_of(rest) =~= seq![rest]);
                assert(lines_of(raw@.skip(total as int)) =~= Seq::<Seq<u8>>::empty());
                assert(done + lines_of(rest) =~= done.push(line@) + lines_of(
                    raw@.skip(total as int),
                ));
                done = done.push(line@);
            }
            lines.push(line);
            start = total;
        } else {
            let mut end: usize = at;
            if end > start && raw[end - 1] == CARRIAGE_RETURN {
                end = end - 1;
            }
            let line = slice_to_vec(slice_subrange(raw, start, end));
            proof {
                let cut = rest.take(at - start);
                assert(cut =~= raw@.subrange(start as int, at as int));
                assert(line@ =~= trim_return(cut));
                assert(rest.skip(at - start + 1) =~= raw@.skip(at + 1));
                assert(lines_of(rest) == seq![trim_return(cut)] + lines_of(raw@.skip(at + 1)));
                assert(done + lines_of(rest) =~= done.push(line@) + lines_of(raw@.skip(at + 1)));
                done = done.push(line@);
            }
            lines.push(line);
            start = at + 1;
        }
    }
    proof {
        assert(lines_of(raw@.skip(start as int)) =~= Seq::<Seq<u8>>::empty());
        assert(lines_of(raw@) =~= done);
    }
    lines
}

/// The number of bytes of `raw` up to and including its last line feed: the part
/// that consists of whole lines. It is 0 where `raw` has no line feed.
pub open spec fn complete_len(raw: Seq<u8>) -> nat
    decreases raw.len(),
{
    if raw.len() == 0 {
        0
    } else if raw.last() == LINE_FEED {
        raw.len()
    } else {
        complete_len(raw.drop_last())
    }
}

/// The number of bytes of `raw` up to and including its last line feed.
pub fn complete_part(raw: &[u8]) -> (end: usize)
    ensures
        end == complete_len(raw@),
        end <= raw@.len(),
{
    let mut end: usize = raw.len();
    proof {
        assert(raw@.take(end as int) =~= raw@);
    }
    while end > 0 && raw[end - 1] != LINE_FEED
        invariant
            end <= raw@.len(),
            complete_len(raw@) == complete_len(raw@.take(end as int)),
        decreases end,
    {
        proof {
            assert(raw@.take(end as int).drop_last() =~= raw@.take(end - 1));
        }
        end = end - 1;
    }
    end
}

/// What a line of text looks like to the library: the characters that the bytes
/// encode in UTF-8.
pub open spec fn text_of(line: Seq<u8>) -> Seq<char>
    recommends
        valid_utf8(line),
{
    decode_utf8(line)
}

/// `core::str::from_utf8`: the bytes are read as a string slice exactly when they
/// are valid UTF-8, and the slice's bytes are then the given bytes.
#[verifier::external_body]
fn str_from_utf8(bytes: &[u8]) -> (text: Option<&str>)
    ensures
        text is Some <==> valid_utf8(bytes@),
        text matches Some(s) ==> encode_utf8(s@) == bytes@,
{
    match core::str::from_utf8(bytes) {
        Ok(s) => Some(s),
        Err(_) => None,
    }
}

/// Reads a line as text: the string that the bytes encode, or `None` where they
/// are no valid UTF-8.
pub fn decode_line(line: &[u8]) -> (text: Option<String>)
    ensures
        text is Some <==> valid_utf8(line@),
        text matches Some(s) ==> s@ == text_of(line@),
{
    match str_from_utf8(line) {
        None => None,
        Some(s) => {
            proof {
                encode_utf8_decode_utf8(s@);
            }
            Some(s.to_owned())
        },
    }
}

} // verus!
