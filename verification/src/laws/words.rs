//! Words and numbers: trimming, splitting, shortening, padding, joining, decimal notation.

use crate::errlog::{kept_text, log_message, with_line, ERR_LIMIT};
use crate::tab::paste_file;
use crate::text::{
    before_spaces, decimal_text, digit_char, first_word, is_space_char, joined, leads_with,
    next_space, on_one_line, padded, past_spaces, rest_of_words, shortened, trimmed,
};
use vstd::prelude::*;
use vstd::utf8::encode_utf8;

verus! {

/// Nothing but white space.
pub open spec fn blank(s: Seq<char>) -> bool {
    forall|i: int| 0 <= i < s.len() ==> is_space_char(#[trigger] s[i])
}

/// A text without white space at its ends, which is not empty.
pub open spec fn trim_text(s: Seq<char>) -> bool {
    s.len() > 0 && !is_space_char(s[0]) && !is_space_char(s.last())
}

proof fn lemma_past(s: Seq<char>, from: int, end: int)
    requires
        0 <= from <= end <= s.len(),
        forall|i: int| from <= i < end ==> is_space_char(#[trigger] s[i]),
        end < s.len() ==> !is_space_char(s[end]),
    ensures
        past_spaces(s, from) == end,
    decreases end - from,
{
    if from < end {
        lemma_past(s, from + 1, end);
    }
}

proof fn lemma_before(s: Seq<char>, from: int, start: int, to: int)
    requires
        0 <= from <= start <= to <= s.len(),
        forall|i: int| start <= i < to ==> is_space_char(#[trigger] s[i]),
        start > from ==> !is_space_char(s[start - 1]),
    ensures
        before_spaces(s, from, to) == start,
    decreases to - start,
{
    if start < to {
        lemma_before(s, from, start, to - 1);
    }
}

/// Trimming leaves out the white space at the two ends, and nothing else.
pub proof fn law_trimmed(before: Seq<char>, core: Seq<char>, after: Seq<char>)
    requires
        blank(before),
        trim_text(core),
        blank(after),
    ensures
        trimmed(before + core + after) == core,
{
    let s = before + core + after;
    let from = before.len() as int;
    let to = from + core.len();
    assert(s[from] == core[0]);
    assert forall|i: int| 0 <= i < from implies is_space_char(#[trigger] s[i]) by {
        assert(s[i] == before[i]);
    }
    lemma_past(s, 0, from);
    assert(s[to - 1] == core.last());
    assert forall|i: int| to <= i < s.len() implies is_space_char(#[trigger] s[i]) by {
        assert(s[i] == after[i - to]);
    }
    lemma_before(s, from, to, s.len() as int);
    assert(s.subrange(from, to) =~= core);
}

/// Of nothing but white space, trimming leaves nothing.
pub proof fn law_trimmed_blank(s: Seq<char>)
    requires
        blank(s),
    ensures
        trimmed(s).len() == 0,
{
    lemma_past(s, 0, s.len() as int);
}

proof fn lemma_next(s: Seq<char>, from: int, end: int)
    requires
        0 <= from <= end <= s.len(),
        forall|i: int| from <= i < end ==> !is_space_char(#[trigger] s[i]),
        end < s.len() ==> is_space_char(s[end]),
    ensures
        next_space(s, from) == end,
    decreases end - from,
{
    if from < end {
        lemma_next(s, from + 1, end);
    }
}

/// A word without white space.
pub open spec fn is_word(s: Seq<char>) -> bool {
    forall|i: int| 0 <= i < s.len() ==> !is_space_char(#[trigger] s[i])
}

/// The first word of a text is what stands before its first white space, and the rest is what
/// stands behind that, trimmed.
pub proof fn law_first_word(word: Seq<char>, gap: char, rest: Seq<char>)
    requires
        is_word(word),
        is_space_char(gap),
    ensures
        first_word(word + seq![gap] + rest) == word,
        rest_of_words(word + seq![gap] + rest) == trimmed(rest),
        first_word(word) == word,
        rest_of_words(word).len() == 0,
{
    let s = word + seq![gap] + rest;
    let end = word.len() as int;
    assert forall|i: int| 0 <= i < end implies !is_space_char(#[trigger] s[i]) by {
        assert(s[i] == word[i]);
    }
    lemma_next(s, 0, end);
    assert(s.take(end) =~= word);
    assert(s.skip(end + 1) =~= rest);
    lemma_next(word, 0, end);
    assert(word.take(end) =~= word);
}

/// What a text leads with is its first character that is no white space.
pub proof fn law_leads_with(before: Seq<char>, c: char, after: Seq<char>, mark: char)
    requires
        blank(before),
        !is_space_char(c),
    ensures
        leads_with(before + seq![c] + after, mark) == (c == mark),
{
    let s = before + seq![c] + after;
    let from = before.len() as int;
    assert(s[from] == c);
    assert forall|i: int| 0 <= i < from implies is_space_char(#[trigger] s[i]) by {
        assert(s[i] == before[i]);
    }
    lemma_past(s, 0, from);
}

/// On one line, a text keeps its length and every character but its line breaks.
pub proof fn law_on_one_line(s: Seq<char>, i: int)
    requires
        0 <= i < s.len(),
    ensures
        on_one_line(s).len() == s.len(),
        s[i] == '\n' ==> on_one_line(s)[i] == ' ',
        s[i] != '\n' ==> on_one_line(s)[i] == s[i],
{
}

/// A text that is not longer than the limit is not shortened; of a longer one that much is left,
/// and an ellipsis.
pub proof fn law_shortened(s: Seq<char>, limit: nat)
    ensures
        s.len() <= limit ==> shortened(s, limit) == s,
        s.len() > limit ==> shortened(s, limit) == s.take(limit as int).push('…'),
{
    reveal_strlit("…");
    if s.len() > limit {
        assert(shortened(s, limit) =~= s.take(limit as int).push('…'));
    }
}

/// Padding puts spaces behind a text until it is as wide as asked, and changes no wider text.
pub proof fn law_padded(s: Seq<char>, width: nat, i: int)
    requires
        0 <= i < padded(s, width).len(),
    ensures
        padded(s, width).len() == if s.len() < width {
            width
        } else {
            s.len()
        },
        padded(s, width)[i] == if i < s.len() {
            s[i]
        } else {
            ' '
        },
{
}

/// Joining keeps every text in its place, with the separator between each two.
pub proof fn law_joined(parts: Seq<Seq<char>>, more: Seq<char>, sep: Seq<char>)
    ensures
        joined(Seq::empty(), sep).len() == 0,
        joined(seq![more], sep) == more,
        parts.len() > 0 ==> joined(parts.push(more), sep) == joined(parts, sep) + sep + more,
{
    assert(parts.push(more).drop_last() =~= parts);
}

/// The number that a decimal digit stands for.
pub open spec fn digit_value(c: char) -> int {
    c as u32 - '0' as u32
}

/// The number that decimal digits stand for.
pub open spec fn value_of(digits: Seq<char>) -> int
    decreases digits.len(),
{
    if digits.len() == 0 {
        0
    } else {
        10 * value_of(digits.drop_last()) + digit_value(digits.last())
    }
}

/// A number's decimal notation is made of digits, stands for the number, and has no zero in front.
pub proof fn law_decimal(n: nat)
    ensures
        decimal_text(n).len() > 0,
        forall|i: int|
            0 <= i < decimal_text(n).len() ==> '0' <= #[trigger] decimal_text(n)[i] <= '9',
        value_of(decimal_text(n)) == n,
        n > 0 ==> decimal_text(n)[0] != '0',
    decreases n,
{
    reveal_with_fuel(value_of, 2);
    if n >= 10 {
        let before = decimal_text(n / 10);
        law_decimal(n / 10);
        assert(decimal_text(n) == before.push(digit_char(n % 10)));
        assert(before.push(digit_char(n % 10)).drop_last() =~= before);
        assert forall|i: int| 0 <= i < decimal_text(n).len() implies '0' <= #[trigger] decimal_text(
            n,
        )[i] <= '9' by {
            if i < before.len() {
                assert(decimal_text(n)[i] == before[i]);
            }
        }
        assert(decimal_text(n)[0] == before[0]);
    } else {
        let digits = decimal_text(n);
        assert(digits.drop_last() =~= Seq::empty());
    }
}

/// The file of a pasted image is hidden, is a PNG, and is told by the time: images pasted at
/// different times have different files.
pub proof fn law_paste_file(millis: nat, other: nat)
    ensures
        paste_file(millis) == ".ccgui-paste-"@ + decimal_text(millis) + ".png"@,
        paste_file(millis) == paste_file(other) ==> millis == other,
{
    if paste_file(millis) == paste_file(other) {
        let head = ".ccgui-paste-"@;
        let tail = ".png"@;
        let a = decimal_text(millis);
        let b = decimal_text(other);
        assert(paste_file(millis).len() == head.len() + a.len() + tail.len());
        assert(paste_file(other).len() == head.len() + b.len() + tail.len());
        assert forall|i: int| 0 <= i < a.len() implies a[i] == b[i] by {
            assert(paste_file(millis)[head.len() + i] == a[i]);
            assert(paste_file(other)[head.len() + i] == b[i]);
        }
        assert(a =~= b);
        law_decimal(millis);
        law_decimal(other);
    }
}

/// A line that is logged stands at the end of the log, whole and with a line break behind it, as
/// long as the log fits.
pub proof fn law_line_is_logged(log: Seq<char>, line: Seq<char>)
    ensures
        encode_utf8(log + line + seq!['\n']).len() <= ERR_LIMIT ==> kept_text(with_line(log, line))
            == log + line + seq!['\n'],
        with_line(log, line) == log + line + seq!['\n'],
{
    reveal_strlit("\n");
    assert("\n"@ =~= seq!['\n']);
}

/// A log says what stands in it between the white space at its ends; a blank one says nothing.
pub proof fn law_log_message(before: Seq<char>, core: Seq<char>, after: Seq<char>)
    requires
        blank(before),
        trim_text(core),
        blank(after),
    ensures
        log_message(before + core + after) == Some(core),
        log_message(before) is None,
{
    law_trimmed(before, core, after);
    law_trimmed_blank(before);
}

} // verus!
