//! The end of what a program printed to its error stream.

use crate::text::{chars_of, text_of, trim, trimmed};
use vstd::prelude::*;
use vstd::utf8::{encode_scalar, encode_utf8};

verus! {

/// How many bytes of the error stream are kept.
pub const ERR_LIMIT: usize = 2048;

/// The log with one more line.
pub open spec fn with_line(log: Seq<char>, line: Seq<char>) -> Seq<char> {
    log + line + "\n"@
}

/// The end of the text that is kept: as many whole characters as the limit has room for.
pub open spec fn kept_text(text: Seq<char>) -> Seq<char>
    decreases text.len(),
{
    if text.len() == 0 || encode_utf8(text).len() <= ERR_LIMIT {
        text
    } else {
        kept_text(text.drop_first())
    }
}

/// How many bytes a character takes.
fn width(c: char) -> (n: usize)
    ensures
        1 <= n <= 4,
        n == encode_scalar(c as u32).len(),
{
    if c <= '\u{7f}' {
        1
    } else if c <= '\u{7ff}' {
        2
    } else if c <= '\u{ffff}' {
        3
    } else {
        4
    }
}

proof fn lemma_longer_text(text: Seq<char>, from: int)
    requires
        0 <= from <= text.len(),
    ensures
        encode_utf8(text.skip(from)).len() <= encode_utf8(text).len(),
    decreases from,
{
    if from == 0 {
        assert(text.skip(0) =~= text);
    } else {
        lemma_longer_text(text.drop_first(), from - 1);
        assert(text.drop_first().skip(from - 1) =~= text.skip(from));
    }
}

/// The end of a text that fits, where one character more does not, is what is kept.
proof fn lemma_kept_text(text: Seq<char>, from: int)
    requires
        0 <= from <= text.len(),
        encode_utf8(text.skip(from)).len() <= ERR_LIMIT,
        from > 0 ==> encode_utf8(text.skip(from - 1)).len() > ERR_LIMIT,
    ensures
        kept_text(text) == text.skip(from),
    decreases from,
{
    assert(text.skip(0) =~= text);
    if from > 0 {
        lemma_longer_text(text, from - 1);
        let rest = text.drop_first();
        assert(rest.skip(from - 1) =~= text.skip(from));
        if from > 1 {
            assert(rest.skip(from - 2) =~= text.skip(from - 1));
        }
        lemma_kept_text(rest, from - 1);
    }
}

/// Logs a line, and keeps the end of the log.
pub fn log_line(log: &mut String, line: &str)
    ensures
        final(log)@ == kept_text(with_line(old(log)@, line@)),
{
    log.append(line);
    log.append("\n");
    let chars = chars_of(log.as_str());
    let mut from: usize = chars.len();
    let mut size: usize = 0;
    proof {
        assert(chars@.skip(from as int) =~= Seq::empty());
    }
    while from > 0 && size + width(chars[from - 1]) <= ERR_LIMIT
        invariant
            from <= chars@.len(),
            size <= ERR_LIMIT,
            size == encode_utf8(chars@.skip(from as int)).len(),
        decreases from,
    {
        proof {
            assert(chars@.skip(from - 1).drop_first() =~= chars@.skip(from as int));
        }
        from -= 1;
        size += width(chars[from]);
    }
    proof {
        if from > 0 {
            assert(chars@.skip(from - 1).drop_first() =~= chars@.skip(from as int));
        }
        lemma_kept_text(chars@, from as int);
        assert(chars@.subrange(from as int, chars@.len() as int) =~= chars@.skip(from as int));
    }
    *log = text_of(&chars, from, chars.len());
}

/// What the log says, if it says anything.
pub open spec fn log_message(log: Seq<char>) -> Option<Seq<char>> {
    if trimmed(log).len() > 0 {
        Some(trimmed(log))
    } else {
        None
    }
}

/// What the log says, without white space around it, if it says anything.
pub fn message(log: &str) -> (res: Option<String>)
    ensures
        res.deep_view() == log_message(log@),
{
    let text = trim(log);
    if text.as_str().is_empty() {
        None
    } else {
        Some(text)
    }
}

} // verus!
