//! Paths as texts: the folder that a path lies in.
//!
//! Components are parted by `/`. Empty components and `.` components count for nothing, except for
//! a `.` at the very start.

use crate::text::{chars_of, text_of};
use vstd::prelude::*;

verus! {

/// How much of the path stands before its components: the root, or a leading `.`.
pub open spec fn head_len(p: Seq<char>) -> int {
    if p.len() > 0 && p[0] == '/' {
        1
    } else if p.len() > 0 && p[0] == '.' && (p.len() == 1 || p[1] == '/') {
        1
    } else {
        0
    }
}

/// Where the last component of `p[head..end]` begins.
pub open spec fn last_start(p: Seq<char>, head: int, end: int) -> int
    decreases end - head,
{
    if head < end && p[end - 1] != '/' {
        last_start(p, head, end - 1)
    } else {
        end
    }
}

/// The end of the path once its last component, with the `/` before it, is left out.
pub open spec fn without_last(p: Seq<char>, head: int, end: int) -> int {
    let start = last_start(p, head, end);
    if start > head {
        start - 1
    } else {
        start
    }
}

/// The end of the path once the components at its end that count for nothing are left out.
pub open spec fn without_idle(p: Seq<char>, head: int, end: int) -> int
    decreases end - head,
{
    let start = last_start(p, head, end);
    let shorter = without_last(p, head, end);
    if head < end && (start == end || (start + 1 == end && p[start] == '.')) && shorter < end {
        without_idle(p, head, shorter)
    } else {
        end
    }
}

/// The path without its last component: nothing for a root or for the empty path.
pub open spec fn parent_of(p: Seq<char>) -> Option<Seq<char>> {
    let head = head_len(p);
    let end = without_idle(p, head, p.len() as int);
    if end > head {
        Some(p.take(without_idle(p, head, without_last(p, head, end))))
    } else if head == 1 && p[0] == '.' {
        Some(Seq::empty())
    } else {
        None
    }
}

/// `last_start` as code.
fn find_last_start(p: &Vec<char>, head: usize, end: usize) -> (start: usize)
    requires
        head <= end <= p@.len(),
    ensures
        head <= start <= end,
        start == last_start(p@, head as int, end as int),
{
    let mut start = end;
    while head < start && p[start - 1] != '/'
        invariant
            head <= start <= end <= p@.len(),
            last_start(p@, head as int, end as int) == last_start(p@, head as int, start as int),
        decreases start,
    {
        start -= 1;
    }
    start
}

/// `without_last` as code.
fn drop_last_part(p: &Vec<char>, head: usize, end: usize) -> (res: usize)
    requires
        head <= end <= p@.len(),
    ensures
        head <= res <= end,
        head < end ==> res < end,
        res == without_last(p@, head as int, end as int),
{
    let start = find_last_start(p, head, end);
    if start > head {
        start - 1
    } else {
        start
    }
}

/// `without_idle` as code.
fn drop_idle_parts(p: &Vec<char>, head: usize, end: usize) -> (res: usize)
    requires
        head <= end <= p@.len(),
    ensures
        head <= res <= end,
        res == without_idle(p@, head as int, end as int),
{
    let mut res = end;
    let mut start = find_last_start(p, head, res);
    while head < res && (start == res || (start + 1 == res && p[start] == '.'))
        invariant
            head <= start <= res <= end <= p@.len(),
            start == last_start(p@, head as int, res as int),
            without_idle(p@, head as int, end as int) == without_idle(p@, head as int, res as int),
        decreases res,
    {
        res = drop_last_part(p, head, res);
        start = find_last_start(p, head, res);
    }
    res
}

/// The folder that the path lies in, if the path has a last component to leave out.
pub fn parent(path: &str) -> (res: Option<String>)
    ensures
        res.deep_view() == parent_of(path@),
{
    let p = chars_of(path);
    let head: usize = if p.len() > 0 && (p[0] == '/' || (p[0] == '.' && (p.len() == 1 || p[1]
        == '/'))) {
        1
    } else {
        0
    };
    let end = drop_idle_parts(&p, head, p.len());
    if end > head {
        let cut = drop_last_part(&p, head, end);
        let cut = drop_idle_parts(&p, head, cut);
        Some(text_of(&p, 0, cut))
    } else if head == 1 && p[0] == '.' {
        Some(String::new())
    } else {
        None
    }
}

} // verus!
