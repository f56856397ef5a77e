//! Text as sequences of characters: the scanning and building that the other modules share.

use vstd::prelude::*;

verus! {

/// `String::push` puts one character at the end of the text.
pub assume_specification[ String::push ](text: &mut String, ch: char)
    ensures
        final(text)@ == old(text)@.push(ch),
;

/// The characters of a text, in order.
pub fn chars_of(text: &str) -> (chars: Vec<char>)
    ensures
        chars@ == text@,
{
    let mut chars: Vec<char> = Vec::new();
    for c in it: text.chars()
        invariant
            it.seq() == text@,
            chars@ == it.seq().take(it.index() as int),
    {
        chars.push(c);
    }
    chars
}

/// The text made of `chars[from..to]`.
pub fn text_of(chars: &Vec<char>, from: usize, to: usize) -> (text: String)
    requires
        from <= to <= chars@.len(),
    ensures
        text@ == chars@.subrange(from as int, to as int),
{
    let mut text = String::new();
    for i in from..to
        invariant
            from <= to <= chars@.len(),
            text@ == chars@.subrange(from as int, i as int),
    {
        text.push(chars[i]);
    }
    text
}

/// Whether two texts hold the same characters.
pub fn same(a: &str, b: &str) -> (same: bool)
    ensures
        same == (a@ == b@),
{
    a.to_owned() == b.to_owned()
}

/// A character of Unicode's `White_Space` property.
pub open spec fn is_space_char(c: char) -> bool {
    ||| '\u{9}' <= c <= '\u{d}'
    ||| c == ' '
    ||| c == '\u{85}'
    ||| c == '\u{a0}'
    ||| c == '\u{1680}'
    ||| '\u{2000}' <= c <= '\u{200a}'
    ||| '\u{2028}' <= c <= '\u{2029}'
    ||| c == '\u{202f}'
    ||| c == '\u{205f}'
    ||| c == '\u{3000}'
}

/// Whether `c` is white space.
pub fn is_space(c: char) -> (space: bool)
    ensures
        space == is_space_char(c),
{
    ('\u{9}' <= c && c <= '\u{d}') || c == ' ' || c == '\u{85}' || c == '\u{a0}' || c == '\u{1680}'
        || ('\u{2000}' <= c && c <= '\u{200a}') || ('\u{2028}' <= c && c <= '\u{2029}') || c
        == '\u{202f}' || c == '\u{205f}' || c == '\u{3000}'
}

/// The first place at or after `from` that holds no white space, or the end.
pub open spec fn past_spaces(s: Seq<char>, from: int) -> int
    decreases s.len() - from,
{
    if from < s.len() && is_space_char(s[from]) {
        past_spaces(s, from + 1)
    } else {
        from
    }
}

/// The end of `s[from..to]` once the white space at its end is left out.
pub open spec fn before_spaces(s: Seq<char>, from: int, to: int) -> int
    decreases to - from,
{
    if from < to && is_space_char(s[to - 1]) {
        before_spaces(s, from, to - 1)
    } else {
        to
    }
}

/// `s` without the white space at its two ends.
pub open spec fn trimmed(s: Seq<char>) -> Seq<char> {
    let from = past_spaces(s, 0);
    s.subrange(from, before_spaces(s, from, s.len() as int))
}

/// The text without the white space at its two ends.
pub fn trim(text: &str) -> (res: String)
    ensures
        res@ == trimmed(text@),
{
    let chars = chars_of(text);
    let mut from: usize = 0;
    while from < chars.len() && is_space(chars[from])
        invariant
            from <= chars@.len(),
            past_spaces(chars@, 0) == past_spaces(chars@, from as int),
        decreases chars@.len() - from,
    {
        from += 1;
    }
    let mut to: usize = chars.len();
    while from < to && is_space(chars[to - 1])
        invariant
            from <= to <= chars@.len(),
            before_spaces(chars@, from as int, chars@.len() as int) == before_spaces(
                chars@,
                from as int,
                to as int,
            ),
        decreases to,
    {
        to -= 1;
    }
    text_of(&chars, from, to)
}

/// Whether the first character that is not white space is `mark`.
pub open spec fn leads_with(s: Seq<char>, mark: char) -> bool {
    let from = past_spaces(s, 0);
    from < s.len() && s[from] == mark
}

/// Whether the text, white space at its start aside, begins with `mark`.
pub fn begins_with(text: &str, mark: char) -> (res: bool)
    ensures
        res == leads_with(text@, mark),
{
    let chars = chars_of(text);
    let mut from: usize = 0;
    while from < chars.len() && is_space(chars[from])
        invariant
            from <= chars@.len(),
            past_spaces(chars@, 0) == past_spaces(chars@, from as int),
        decreases chars@.len() - from,
    {
        from += 1;
    }
    from < chars.len() && chars[from] == mark
}

/// The first place at or after `from` that holds white space, or the end.
pub open spec fn next_space(s: Seq<char>, from: int) -> int
    decreases s.len() - from,
{
    if from < s.len() && !is_space_char(s[from]) {
        next_space(s, from + 1)
    } else {
        from
    }
}

/// What stands before the first white space of `s`.
pub open spec fn first_word(s: Seq<char>) -> Seq<char> {
    s.take(next_space(s, 0))
}

/// What stands behind the first white space of `s`, trimmed.
pub open spec fn rest_of_words(s: Seq<char>) -> Seq<char> {
    let end = next_space(s, 0);
    if end < s.len() {
        trimmed(s.skip(end + 1))
    } else {
        Seq::empty()
    }
}

/// The text before its first white space, and what follows that, trimmed.
pub fn split_word(text: &str) -> (res: (String, String))
    ensures
        res.0@ == first_word(text@),
        res.1@ == rest_of_words(text@),
{
    let chars = chars_of(text);
    let mut end: usize = 0;
    while end < chars.len() && !is_space(chars[end])
        invariant
            end <= chars@.len(),
            next_space(chars@, 0) == next_space(chars@, end as int),
        decreases chars@.len() - end,
    {
        end += 1;
    }
    let word = text_of(&chars, 0, end);
    let rest = if end < chars.len() {
        let tail = text_of(&chars, end + 1, chars.len());
        trim(tail.as_str())
    } else {
        String::new()
    };
    (word, rest)
}

/// `s` with each line break turned into a space.
pub open spec fn on_one_line(s: Seq<char>) -> Seq<char> {
    s.map_values(|c: char| if c == '\n' { ' ' } else { c })
}

/// The text with each line break turned into a space.
pub fn one_line(text: &str) -> (res: String)
    ensures
        res@ == on_one_line(text@),
{
    let chars = chars_of(text);
    let ghost line = on_one_line(text@);
    let mut res = String::new();
    for i in 0..chars.len()
        invariant
            chars@ == text@,
            line == on_one_line(text@),
            res@ == line.take(i as int),
    {
        if chars[i] == '\n' {
            res.push(' ');
        } else {
            res.push(chars[i]);
        }
    }
    proof {
        assert(line.take(line.len() as int) =~= line);
    }
    res
}

/// The first `limit` characters of `s`, marked as cut where there were more.
pub open spec fn shortened(s: Seq<char>, limit: nat) -> Seq<char> {
    if s.len() > limit {
        s.take(limit as int) + "…"@
    } else {
        s
    }
}

/// The text on one line, cut to `limit` characters with an ellipsis behind them.
pub fn digest(text: &str, limit: usize) -> (res: String)
    ensures
        res@ == shortened(on_one_line(text@), limit as nat),
{
    let chars = chars_of(text);
    let ghost line = on_one_line(text@);
    let shown: usize = if chars.len() > limit {
        limit
    } else {
        chars.len()
    };
    let mut res = String::new();
    for i in 0..shown
        invariant
            shown <= chars@.len(),
            chars@ == text@,
            line == on_one_line(text@),
            res@ == line.take(i as int),
    {
        if chars[i] == '\n' {
            res.push(' ');
        } else {
            res.push(chars[i]);
        }
    }
    if chars.len() > limit {
        res.append("…");
    }
    res
}

/// The character of a decimal digit.
pub open spec fn digit_char(digit: nat) -> char {
    if digit == 0 {
        '0'
    } else if digit == 1 {
        '1'
    } else if digit == 2 {
        '2'
    } else if digit == 3 {
        '3'
    } else if digit == 4 {
        '4'
    } else if digit == 5 {
        '5'
    } else if digit == 6 {
        '6'
    } else if digit == 7 {
        '7'
    } else if digit == 8 {
        '8'
    } else {
        '9'
    }
}

/// A number in decimal notation, without leading zeros.
pub open spec fn decimal_text(n: nat) -> Seq<char>
    decreases n,
{
    if n < 10 {
        seq![digit_char(n)]
    } else {
        decimal_text(n / 10).push(digit_char(n % 10))
    }
}

/// The number in decimal notation.
pub fn decimal(n: u128) -> (text: String)
    ensures
        text@ == decimal_text(n as nat),
    decreases n,
{
    let mut text = if n < 10 {
        String::new()
    } else {
        decimal(n / 10)
    };
    let c = match n % 10 {
        0 => '0',
        1 => '1',
        2 => '2',
        3 => '3',
        4 => '4',
        5 => '5',
        6 => '6',
        7 => '7',
        8 => '8',
        _ => '9',
    };
    text.push(c);
    text
}

/// `s` with spaces behind it up to `width` characters.
pub open spec fn padded(s: Seq<char>, width: nat) -> Seq<char> {
    if s.len() < width {
        s + Seq::new((width - s.len()) as nat, |i: int| ' ')
    } else {
        s
    }
}

/// The text with spaces behind it up to `width` characters.
pub fn pad(text: &str, width: usize) -> (res: String)
    ensures
        res@ == padded(text@, width as nat),
{
    let mut res = text.to_owned();
    let mut n: usize = chars_of(text).len();
    while n < width
        invariant
            n == res@.len(),
            text@.len() <= n,
            n <= width || n == text@.len(),
            res@ == text@ + Seq::new((n - text@.len()) as nat, |i: int| ' '),
        decreases width - n,
    {
        res.push(' ');
        n += 1;
    }
    res
}

/// The texts of a list, with `sep` between each two.
pub open spec fn joined(parts: Seq<Seq<char>>, sep: Seq<char>) -> Seq<char>
    decreases parts.len(),
{
    if parts.len() == 0 {
        Seq::empty()
    } else if parts.len() == 1 {
        parts[0]
    } else {
        joined(parts.drop_last(), sep) + sep + parts.last()
    }
}

/// The texts of the list in one, with `sep` between each two.
pub fn join(parts: &Vec<String>, sep: &str) -> (res: String)
    ensures
        res@ == joined(parts.deep_view(), sep@),
{
    let ghost all = parts.deep_view();
    let mut res = String::new();
    for i in 0..parts.len()
        invariant
            all == parts.deep_view(),
            res@ == joined(all.take(i as int), sep@),
    {
        proof {
            assert(all.take(i as int + 1).drop_last() =~= all.take(i as int));
        }
        if i > 0 {
            res.append(sep);
        }
        res.append(parts[i].as_str());
    }
    proof {
        assert(all.take(all.len() as int) =~= all);
    }
    res
}

/// The text, or another in its place where there is none.
pub open spec fn text_or(text: Option<Seq<char>>, other: Seq<char>) -> Seq<char> {
    match text {
        Some(text) => text,
        None => other,
    }
}

/// Whether the list holds the text.
pub fn holds(list: &Vec<String>, text: &str) -> (res: bool)
    ensures
        res == list.deep_view().contains(text@),
{
    for i in 0..list.len()
        invariant
            forall|j: int| 0 <= j < i ==> list@[j]@ != text@,
    {
        if same(list[i].as_str(), text) {
            proof {
                assert(list.deep_view()[i as int] == text@);
            }
            return true;
        }
    }
    false
}

/// A list of texts with one more, unless it is there already.
pub open spec fn with_text(list: Seq<Seq<char>>, text: Seq<char>) -> Seq<Seq<char>> {
    if list.contains(text) {
        list
    } else {
        list.push(text)
    }
}

/// Adds the text to the list, unless it is there already.
pub fn add_text(list: &mut Vec<String>, text: String)
    ensures
        final(list).deep_view() == with_text(old(list).deep_view(), text@),
{
    if !holds(list, text.as_str()) {
        list.push(text);
        proof {
            assert(list.deep_view() =~= old(list).deep_view().push(text@));
        }
    }
}

} // verus!
