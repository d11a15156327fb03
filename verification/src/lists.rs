use vstd::prelude::*;
use crate::text::{is_ws, is_ws_char, is_digit, is_digit_char, ws_run_from, ws_run, lit};

verus! {

/// The kind of an open list element on the nesting stack.
#[derive(Clone, Copy, PartialEq, Eq, Structural, Debug)]
pub enum ListKind {
    Ordered,
    Unordered,
}

pub open spec fn open_tag(k: ListKind) -> Seq<char> {
    match k {
        ListKind::Ordered => "<ol>"@,
        ListKind::Unordered => "<ul>"@,
    }
}

pub open spec fn close_tag(k: ListKind) -> Seq<char> {
    match k {
        ListKind::Ordered => "</ol>"@,
        ListKind::Unordered => "</ul>"@,
    }
}

pub fn open_tag_of(k: ListKind) -> (r: Vec<char>)
    ensures
        r@ == open_tag(k),
{
    match k {
        ListKind::Ordered => lit("<ol>"),
        ListKind::Unordered => lit("<ul>"),
    }
}

pub fn close_tag_of(k: ListKind) -> (r: Vec<char>)
    ensures
        r@ == close_tag(k),
{
    match k {
        ListKind::Ordered => lit("</ol>"),
        ListKind::Unordered => lit("</ul>"),
    }
}

/// Closing tags for the stack entries at indices `hi-1` down to `lo`:
/// the order in which popping the stack emits them, innermost list first.
pub open spec fn closes_down(stack: Seq<ListKind>, hi: int, lo: int) -> Seq<char>
    decreases hi - lo,
{
    if hi <= lo || hi > stack.len() || lo < 0 {
        Seq::empty()
    } else {
        close_tag(stack[hi - 1]) + closes_down(stack, hi - 1, lo)
    }
}

/// Closing tags for the whole stack, innermost first.
pub open spec fn close_all_tags(stack: Seq<ListKind>) -> Seq<char> {
    closes_down(stack, stack.len() as int, 0)
}

/// Pops every open list, appending its closing tag to the fragment.
pub fn close_open_lists(stack: &mut Vec<ListKind>, html_line: &mut Vec<char>)
    ensures
        final(stack)@ == Seq::<ListKind>::empty(),
        final(html_line)@ == old(html_line)@ + close_all_tags(old(stack)@),
{
    proof {
        assert(stack@ =~= old(stack)@.take(stack@.len() as int));
    }
    while stack.len() > 0
        invariant
            stack@.len() <= old(stack)@.len(),
            stack@ == old(stack)@.take(stack@.len() as int),
            html_line@ + closes_down(old(stack)@, stack@.len() as int, 0) == old(html_line)@
                + close_all_tags(old(stack)@),
        decreases stack@.len(),
    {
        let ghost m = stack@.len() as int;
        match stack.pop() {
            Some(k) => {
                proof {
                    assert(old(stack)@.take(m)[m - 1] == old(stack)@[m - 1]);
                    assert(stack@ =~= old(stack)@.take(m - 1));
                }
                let ct = close_tag_of(k);
                let ghost before = html_line@;
                crate::text::append_vec(html_line, &ct);
                proof {
                    assert(closes_down(old(stack)@, m, 0) == close_tag(old(stack)@[m - 1])
                        + closes_down(old(stack)@, m - 1, 0));
                    assert((before + close_tag(old(stack)@[m - 1])) + closes_down(
                        old(stack)@,
                        m - 1,
                        0,
                    ) =~= before + (close_tag(old(stack)@[m - 1]) + closes_down(
                        old(stack)@,
                        m - 1,
                        0,
                    )));
                }
            },
            None => {},
        }
    }
    proof {
        assert(html_line@ =~= html_line@ + closes_down(old(stack)@, 0, 0));
    }
}

/// Consumed-prefix length of a checked task-list marker `- [x] ` after
/// leading whitespace, when the line carries one.
pub open spec fn task_checked_match(line: Seq<char>) -> Option<int> {
    let wp = ws_run_from(line, 0);
    if wp + 6 <= line.len() && line[wp] == '-' && is_ws_char(line[wp + 1]) && line[wp + 2] == '['
        && line[wp + 3] == 'x' && line[wp + 4] == ']' && is_ws_char(line[wp + 5]) {
        Some(wp + 6)
    } else {
        None
    }
}

/// Consumed-prefix length of an unchecked task-list marker `- [ ] `.
pub open spec fn task_unchecked_match(line: Seq<char>) -> Option<int> {
    let wp = ws_run_from(line, 0);
    if wp + 6 <= line.len() && line[wp] == '-' && is_ws_char(line[wp + 1]) && line[wp + 2] == '['
        && is_ws_char(line[wp + 3]) && line[wp + 4] == ']' && is_ws_char(line[wp + 5]) {
        Some(wp + 6)
    } else {
        None
    }
}

/// End of the run of decimal digits starting at `i`.
pub open spec fn digit_run_from(s: Seq<char>, i: int) -> int
    decreases s.len() - i,
{
    if 0 <= i < s.len() && is_digit_char(s[i]) {
        digit_run_from(s, i + 1)
    } else {
        i
    }
}

/// Consumed-prefix length of an ordered-list marker `1. ` after leading
/// whitespace, when the line carries one.
pub open spec fn ordered_match(line: Seq<char>) -> Option<int> {
    let wp = ws_run_from(line, 0);
    let dp = digit_run_from(line, wp);
    if dp > wp && dp + 2 <= line.len() && line[dp] == '.' && is_ws_char(line[dp + 1]) {
        Some(dp + 2)
    } else {
        None
    }
}

/// Consumed-prefix length of an unordered-list marker `- `, `* ` or `+ `.
pub open spec fn unordered_match(line: Seq<char>) -> Option<int> {
    let wp = ws_run_from(line, 0);
    if wp + 2 <= line.len() && (line[wp] == '-' || line[wp] == '*' || line[wp] == '+')
        && is_ws_char(line[wp + 1]) {
        Some(wp + 2)
    } else {
        None
    }
}

pub fn find_task_checked(line: &Vec<char>) -> (r: Option<usize>)
    ensures
        (match r {
            Some(n) => task_checked_match(line@) == Some(n as int),
            None => task_checked_match(line@) is None,
        }),
{
    let wp = ws_run(line, 0);
    if line.len() >= 6 && wp <= line.len() - 6 && line[wp] == '-' && is_ws(line[wp + 1])
        && line[wp + 2] == '[' && line[wp + 3] == 'x' && line[wp + 4] == ']'
        && is_ws(line[wp + 5]) {
        Some(wp + 6)
    } else {
        None
    }
}

pub fn find_task_unchecked(line: &Vec<char>) -> (r: Option<usize>)
    ensures
        (match r {
            Some(n) => task_unchecked_match(line@) == Some(n as int),
            None => task_unchecked_match(line@) is None,
        }),
{
    let wp = ws_run(line, 0);
    if line.len() >= 6 && wp <= line.len() - 6 && line[wp] == '-' && is_ws(line[wp + 1])
        && line[wp + 2] == '[' && is_ws(line[wp + 3]) && line[wp + 4] == ']'
        && is_ws(line[wp + 5]) {
        Some(wp + 6)
    } else {
        None
    }
}

pub fn digit_run(line: &Vec<char>, from: usize) -> (r: usize)
    requires
        from <= line@.len(),
    ensures
        r as int == digit_run_from(line@, from as int),
        from <= r <= line@.len(),
{
    let mut i: usize = from;
    while i < line.len() && is_digit(line[i])
        invariant
            from <= i <= line@.len(),
            digit_run_from(line@, from as int) == digit_run_from(line@, i as int),
        decreases line@.len() - i,
    {
        i = i + 1;
    }
    i
}

pub fn find_ordered(line: &Vec<char>) -> (r: Option<usize>)
    ensures
        (match r {
            Some(n) => ordered_match(line@) == Some(n as int),
            None => ordered_match(line@) is None,
        }),
{
    let wp = ws_run(line, 0);
    let dp = digit_run(line, wp);
    if dp > wp && line.len() >= 2 && dp <= line.len() - 2 && line[dp] == '.'
        && is_ws(line[dp + 1]) {
        Some(dp + 2)
    } else {
        None
    }
}

pub fn find_unordered(line: &Vec<char>) -> (r: Option<usize>)
    ensures
        (match r {
            Some(n) => unordered_match(line@) == Some(n as int),
            None => unordered_match(line@) is None,
        }),
{
    let wp = ws_run(line, 0);
    if line.len() >= 2 && wp <= line.len() - 2 && (line[wp] == '-' || line[wp] == '*'
        || line[wp] == '+') && is_ws(line[wp + 1]) {
        Some(wp + 2)
    } else {
        None
    }
}

} // verus!
