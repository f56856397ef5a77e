//! Texts: what is written into a page, what labels show, what is kept of the error log, and which
//! folder and program come out.

use crate::errlog::{kept_text, ERR_LIMIT};
use crate::json::JsonView;
use crate::launch::{first_present, install_places, program};
use crate::paths::{head_len, last_start, parent_of, without_idle, without_last};
use crate::render::{escaped, escaped_char};
use crate::text::on_one_line;
use crate::wire::{shown_target, tool_target, TARGET_LIMIT};
use vstd::prelude::*;
use vstd::utf8::encode_utf8;

verus! {

proof fn lemma_entities()
    ensures
        "&amp;"@ == seq!['&', 'a', 'm', 'p', ';'],
        "&lt;"@ == seq!['&', 'l', 't', ';'],
        "&gt;"@ == seq!['&', 'g', 't', ';'],
{
    reveal_strlit("&amp;");
    reveal_strlit("&lt;");
    reveal_strlit("&gt;");
    assert("&amp;"@ =~= seq!['&', 'a', 'm', 'p', ';']);
    assert("&lt;"@ =~= seq!['&', 'l', 't', ';']);
    assert("&gt;"@ =~= seq!['&', 'g', 't', ';']);
}

/// A text that is written into a page opens and closes no tag.
pub proof fn law_escaped_opens_no_tag(s: Seq<char>)
    ensures
        !escaped(s).contains('<'),
        !escaped(s).contains('>'),
    decreases s.len(),
{
    lemma_entities();
    if s.len() > 0 {
        law_escaped_opens_no_tag(s.drop_last());
        let before = escaped(s.drop_last());
        let last = escaped_char(s.last());
        assert forall|i: int| 0 <= i < escaped(s).len() implies escaped(s)[i] != '<'
            && escaped(s)[i] != '>' by {
            if i < before.len() {
                assert(escaped(s)[i] == before[i]);
                assert(before.contains(before[i]));
            } else {
                assert(escaped(s)[i] == last[i - before.len()]);
            }
        }
    }
}

/// `s` with each `mark` written as `entity`.
pub open spec fn replaced(s: Seq<char>, mark: char, entity: Seq<char>) -> Seq<char>
    decreases s.len(),
{
    if s.len() == 0 {
        Seq::empty()
    } else {
        replaced(s.drop_last(), mark, entity) + if s.last() == mark {
            entity
        } else {
            seq![s.last()]
        }
    }
}

proof fn lemma_replaced_concat(a: Seq<char>, b: Seq<char>, mark: char, entity: Seq<char>)
    ensures
        replaced(a + b, mark, entity) == replaced(a, mark, entity) + replaced(b, mark, entity),
    decreases b.len(),
{
    if b.len() == 0 {
        assert(a + b =~= a);
        assert(replaced(a, mark, entity) + replaced(b, mark, entity) =~= replaced(a, mark, entity));
    } else {
        lemma_replaced_concat(a, b.drop_last(), mark, entity);
        assert((a + b).drop_last() =~= a + b.drop_last());
        assert(replaced(a + b, mark, entity) =~= replaced(a, mark, entity) + replaced(
            b,
            mark,
            entity,
        ));
    }
}

proof fn lemma_replaced_absent(s: Seq<char>, mark: char, entity: Seq<char>)
    requires
        forall|i: int| 0 <= i < s.len() ==> s[i] != mark,
    ensures
        replaced(s, mark, entity) == s,
    decreases s.len(),
{
    if s.len() > 0 {
        lemma_replaced_absent(s.drop_last(), mark, entity);
        assert(s.drop_last() + seq![s.last()] =~= s);
    }
}

proof fn lemma_replaced_one(c: char, mark: char, entity: Seq<char>)
    ensures
        replaced(seq![c], mark, entity) == if c == mark {
            entity
        } else {
            seq![c]
        },
{
    reveal_with_fuel(replaced, 2);
    assert(seq![c].drop_last() =~= Seq::empty());
    assert(replaced(seq![c], mark, entity) =~= if c == mark {
        entity
    } else {
        seq![c]
    });
}

/// Writing a text into a page is the same as writing out first each `&`, then each `<`, then each
/// `>`.
pub proof fn law_escaped_is_replaced(s: Seq<char>)
    ensures
        escaped(s) == replaced(
            replaced(replaced(s, '&', "&amp;"@), '<', "&lt;"@),
            '>',
            "&gt;"@,
        ),
    decreases s.len(),
{
    if s.len() > 0 {
        let rest = s.drop_last();
        let c = s.last();
        let last = seq![c];
        law_escaped_is_replaced(rest);
        lemma_entities();
        let first = replaced(last, '&', "&amp;"@);
        let second = replaced(first, '<', "&lt;"@);
        lemma_replaced_one(c, '&', "&amp;"@);
        if c == '&' {
            lemma_replaced_absent(first, '<', "&lt;"@);
            lemma_replaced_absent(second, '>', "&gt;"@);
        } else {
            lemma_replaced_one(c, '<', "&lt;"@);
            if c == '<' {
                lemma_replaced_absent(second, '>', "&gt;"@);
            } else {
                lemma_replaced_one(c, '>', "&gt;"@);
            }
        }
        assert(s =~= rest + last);
        let rest_first = replaced(rest, '&', "&amp;"@);
        let rest_second = replaced(rest_first, '<', "&lt;"@);
        lemma_replaced_concat(rest, last, '&', "&amp;"@);
        lemma_replaced_concat(rest_first, first, '<', "&lt;"@);
        lemma_replaced_concat(rest_second, second, '>', "&gt;"@);
    }
}

/// A tool's target is shown on one line, and no longer than the limit and an ellipsis.
pub proof fn law_shown_target(block: JsonView)
    ensures
        shown_target(block).len() <= TARGET_LIMIT + 1,
        !shown_target(block).contains('\n'),
        tool_target(block).len() <= TARGET_LIMIT ==> shown_target(block) == on_one_line(
            tool_target(block),
        ),
{
    reveal_strlit("…");
    let line = on_one_line(tool_target(block));
    let shown = shown_target(block);
    assert forall|i: int| 0 <= i < shown.len() implies shown[i] != '\n' by {
        if i < TARGET_LIMIT && i < line.len() {
            assert(shown[i] == line[i]);
        }
    }
}

/// Of the error log its end is kept, all of it where it fits: whole characters, within the limit,
/// and no longer end fits.
pub proof fn law_end_of_log_is_kept(text: Seq<char>)
    ensures
        kept_text(text).is_suffix_of(text),
        encode_utf8(kept_text(text)).len() <= ERR_LIMIT,
        encode_utf8(text).len() <= ERR_LIMIT ==> kept_text(text) == text,
        forall|from: int|
            0 <= from <= text.len() && encode_utf8(#[trigger] text.skip(from)).len() <= ERR_LIMIT
                ==> text.len() - from <= kept_text(text).len(),
    decreases text.len(),
{
    assert(text.skip(0) =~= text);
    if text.len() > 0 && encode_utf8(text).len() > ERR_LIMIT {
        let rest = text.drop_first();
        law_end_of_log_is_kept(rest);
        assert forall|from: int|
            0 <= from <= text.len() && encode_utf8(#[trigger] text.skip(from)).len()
                <= ERR_LIMIT implies text.len() - from <= kept_text(text).len() by {
            if from > 0 {
                assert(rest.skip(from - 1) =~= text.skip(from));
            }
        }
    }
}

proof fn lemma_last_start(p: Seq<char>, head: int, end: int)
    requires
        0 <= head <= end <= p.len(),
    ensures
        head <= last_start(p, head, end) <= end,
    decreases end - head,
{
    if head < end && p[end - 1] != '/' {
        lemma_last_start(p, head, end - 1);
    }
}

proof fn lemma_without_idle(p: Seq<char>, head: int, end: int)
    requires
        0 <= head <= end <= p.len(),
    ensures
        head <= without_idle(p, head, end) <= end,
    decreases end - head,
{
    lemma_last_start(p, head, end);
    let shorter = without_last(p, head, end);
    if shorter < end {
        lemma_without_idle(p, head, shorter);
    }
}

/// The folder that a path lies in is a shorter beginning of the path.
pub proof fn law_parent_is_shorter(p: Seq<char>)
    requires
        parent_of(p) is Some,
    ensures
        parent_of(p)->0.is_prefix_of(p),
        parent_of(p)->0.len() < p.len(),
{
    let head = head_len(p);
    lemma_without_idle(p, head, p.len() as int);
    let end = without_idle(p, head, p.len() as int);
    if end > head {
        lemma_last_start(p, head, end);
        let cut = without_last(p, head, end);
        lemma_without_idle(p, head, cut);
    }
}

/// The name of a file or folder: a component of a path that counts.
pub open spec fn is_name(s: Seq<char>) -> bool {
    s.len() > 0 && s != seq!['.'] && !s.contains('/')
}

proof fn lemma_last_start_at(p: Seq<char>, head: int, start: int, end: int)
    requires
        0 <= head <= start <= end <= p.len(),
        forall|k: int| start <= k < end ==> p[k] != '/',
        start > head ==> p[start - 1] == '/',
    ensures
        last_start(p, head, end) == start,
    decreases end - start,
{
    if start < end {
        lemma_last_start_at(p, head, start, end - 1);
    }
}

proof fn lemma_name_counts(p: Seq<char>, head: int, start: int, end: int)
    requires
        0 <= head <= start <= end <= p.len(),
        start > head ==> p[start - 1] == '/',
        is_name(p.subrange(start, end)),
    ensures
        last_start(p, head, end) == start,
        without_idle(p, head, end) == end,
{
    let name = p.subrange(start, end);
    assert forall|k: int| start <= k < end implies p[k] != '/' by {
        assert(name[k - start] == p[k]);
    }
    lemma_last_start_at(p, head, start, end);
    if start + 1 == end && p[start] == '.' {
        assert(name =~= seq!['.']);
    }
}

/// A file lies in the folder that it is named in: behind any folder that ends in a name, a `/` and a
/// name.
pub proof fn law_parent_of_file(base: Seq<char>, last: Seq<char>, name: Seq<char>)
    requires
        base.len() > 0 ==> base.last() == '/',
        is_name(last),
        is_name(name),
    ensures
        parent_of(base + last + seq!['/'] + name) == Some(base + last),
{
    let folder = base + last;
    let p = folder + seq!['/'] + name;
    let head = head_len(p);
    let end = p.len() as int;
    let cut = folder.len() as int;
    if base.len() == 0 {
        assert(p[0] == last[0]);
        if last[0] == '.' && p[1] == '/' {
            if last.len() > 1 {
                assert(last[1] == p[1]);
            }
            assert(last =~= seq!['.']);
        }
    }
    assert(head <= base.len());
    assert(p.subrange(cut + 1, end) =~= name);
    lemma_name_counts(p, head, cut + 1, end);
    assert(p.subrange(base.len() as int, cut) =~= last);
    if base.len() > 0 {
        assert(p[base.len() - 1] == base.last());
    }
    lemma_name_counts(p, head, base.len() as int, cut);
    assert(p.take(cut) =~= folder);
}

/// A file that is named in no folder lies in the unnamed one, and one that is named right below the
/// root lies in the root.
pub proof fn law_parent_of_top_file(name: Seq<char>)
    requires
        is_name(name),
    ensures
        parent_of(name) == Some(Seq::<char>::empty()),
        parent_of(seq!['/'] + name) == Some(seq!['/']),
{
    if name[0] == '.' && name.len() > 1 && name[1] == '/' {
        assert(name.contains(name[1]));
    }
    if name.len() == 1 && name[0] == '.' {
        assert(name =~= seq!['.']);
    }
    assert(name.subrange(0, name.len() as int) =~= name);
    lemma_name_counts(name, 0, 0, name.len() as int);
    assert(name.take(0) =~= Seq::<char>::empty());
    let p = seq!['/'] + name;
    assert(p.subrange(1, p.len() as int) =~= name);
    lemma_name_counts(p, 1, 1, p.len() as int);
    assert(p.take(1) =~= seq!['/']);
}

proof fn lemma_same_last_start(p: Seq<char>, q: Seq<char>, head: int, end: int)
    requires
        0 <= head <= end <= p.len(),
        p.is_prefix_of(q),
    ensures
        last_start(q, head, end) == last_start(p, head, end),
    decreases end - head,
{
    if head < end {
        assert(q[end - 1] == p[end - 1]);
        lemma_same_last_start(p, q, head, end - 1);
    }
}

proof fn lemma_same_without_idle(p: Seq<char>, q: Seq<char>, head: int, end: int)
    requires
        0 <= head <= end <= p.len(),
        p.is_prefix_of(q),
    ensures
        without_last(q, head, end) == without_last(p, head, end),
        without_idle(q, head, end) == without_idle(p, head, end),
    decreases end - head,
{
    lemma_last_start(p, head, end);
    lemma_same_last_start(p, q, head, end);
    let start = last_start(p, head, end);
    if start < end {
        assert(q[start] == p[start]);
    }
    let shorter = without_last(p, head, end);
    if shorter < end {
        lemma_same_without_idle(p, q, head, shorter);
    }
}

proof fn lemma_same_parent(p: Seq<char>, q: Seq<char>)
    requires
        p.len() > 0,
        p.is_prefix_of(q),
        head_len(q) == head_len(p),
        without_idle(q, head_len(p), q.len() as int) == without_idle(
            q,
            head_len(p),
            p.len() as int,
        ),
    ensures
        parent_of(q) == parent_of(p),
{
    let head = head_len(p);
    let n = p.len() as int;
    lemma_without_idle(p, head, n);
    lemma_same_without_idle(p, q, head, n);
    assert(q[0] == p[0]);
    let end = without_idle(p, head, n);
    if end > head {
        lemma_last_start(p, head, end);
        lemma_same_without_idle(p, q, head, end);
        let cut = without_last(p, head, end);
        lemma_without_idle(p, head, cut);
        lemma_same_without_idle(p, q, head, cut);
        let at = without_idle(p, head, cut);
        assert(q.take(at) =~= p.take(at));
    }
}

/// A `/` at the end of a path, or a `/.`, does not change which folder it lies in.
pub proof fn law_parent_ignores_the_end(p: Seq<char>)
    requires
        p.len() > 0,
    ensures
        parent_of(p.push('/')) == parent_of(p),
        parent_of(p.push('/').push('.')) == parent_of(p),
{
    let head = head_len(p);
    let n = p.len() as int;
    let q = p.push('/');
    assert(q[0] == p[0]);
    assert(p.len() > 1 ==> q[1] == p[1]);
    lemma_last_start_at(q, head, n + 1, n + 1);
    lemma_same_parent(p, q);
    let r = q.push('.');
    assert(r[0] == p[0]);
    assert(p.len() > 1 ==> r[1] == p[1]);
    assert(r[n] == '/' && r[n + 1] == '.');
    lemma_last_start_at(r, head, n + 1, n + 2);
    lemma_same_parent(p, r);
}

proof fn lemma_first_present(places: Seq<Seq<char>>, present: Seq<bool>, from: int)
    requires
        0 <= from <= places.len(),
        first_present(places, present, from) is Some,
    ensures
        exists|i: int|
            {
                &&& from <= i < places.len()
                &&& i < present.len()
                &&& #[trigger] present[i]
                &&& first_present(places, present, from) == Some(places[i])
            },
    decreases places.len() - from,
{
    if !(from < present.len() && present[from]) {
        lemma_first_present(places, present, from + 1);
    }
}

/// The program that is run is the one that was asked for, or one that is there, or the bare name.
pub proof fn law_program(
    asked: Option<Seq<char>>,
    home: Seq<char>,
    name: Seq<char>,
    present: Seq<bool>,
)
    ensures
        ({
            let run = program(asked, home, name, present);
            let places = install_places(home, name);
            ||| asked == Some(run)
            ||| exists|i: int|
                0 <= i < places.len() && i < present.len() && #[trigger] present[i] && run
                    == places[i]
            ||| run == name
        }),
{
    let places = install_places(home, name);
    if first_present(places, present, 0) is Some {
        lemma_first_present(places, present, 0);
    }
}

} // verus!
