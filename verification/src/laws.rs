use vstd::prelude::*;
use crate::text::{is_ws_char, ws_run_from, ws_end_run, trim_spec, lemma_ws_run_from};
use crate::lists::{ordered_match, unordered_match, ListKind};
use crate::emitter::{LineState, process_line_spec, run_lines, initial_state, hr_line};
use crate::inline::{
    subst_links_from, subst_reflinks_from, subst_images_from, subst_refimages_from, token_at,
    tokens_from, fold_tokens,
};
use crate::refs::{strip_one_from, strip_all_refs};

verus! {

proof fn lemma_ws_end_run(s: Seq<char>, j: int)
    requires
        0 <= j <= s.len(),
    ensures
        0 <= ws_end_run(s, j) <= j,
        forall|k: int| ws_end_run(s, j) <= k < j ==> is_ws_char(s[k]),
    decreases j,
{
    if 0 < j && is_ws_char(s[j - 1]) {
        lemma_ws_end_run(s, j - 1);
    }
}

/// A line whose trimmed form is empty consists of whitespace alone.
proof fn lemma_blank_no_char(l: Seq<char>, c: char)
    requires
        trim_spec(l).len() == 0,
        !is_ws_char(c),
    ensures
        !l.contains(c),
{
    lemma_ws_run_from(l, 0);
    lemma_ws_end_run(l, l.len() as int);
    let a = ws_run_from(l, 0);
    let b = ws_end_run(l, l.len() as int);
    if l.contains(c) {
        let k = choose|k: int| 0 <= k < l.len() && l[k] == c;
        assert(k >= a);
        assert(k < b);
        assert(trim_spec(l).len() == b - a);
    }
}

/// Every fragment keeps the list tags balanced against the stack: what a
/// line opens minus what it closes is exactly how much the stack grew.
#[verifier::rlimit(100)]
pub proof fn lemma_line_list_delta(line: Seq<char>, refs: Seq<(Seq<char>, Seq<char>)>, st: LineState)
    ensures
        ({
            let o = process_line_spec(line, refs, st);
            &&& o.list_opens + st.stack.len() == o.list_closes + o.st.stack.len()
            &&& o.table_opens + (if st.in_table {
                1int
            } else {
                0int
            }) == o.table_closes + (if o.st.in_table {
                1int
            } else {
                0int
            })
            &&& o.thead_opens == o.thead_closes
        }),
{
}

/// One step of a conversion run: the totals of a suffix.
pub struct TagTotals {
    pub list_opens: nat,
    pub list_closes: nat,
    pub table_opens: nat,
    pub table_closes: nat,
    pub thead_opens: nat,
    pub thead_closes: nat,
}

/// The list, table and table-head tags that the emitter writes over the
/// lines from index `j` onward.
pub open spec fn tag_totals(
    lines: Seq<Seq<char>>,
    refs: Seq<(Seq<char>, Seq<char>)>,
    j: int,
    st: LineState,
) -> TagTotals
    decreases lines.len() - j,
{
    if j < 0 || j >= lines.len() {
        TagTotals {
            list_opens: 0,
            list_closes: 0,
            table_opens: 0,
            table_closes: 0,
            thead_opens: 0,
            thead_closes: 0,
        }
    } else {
        let o = process_line_spec(lines[j], refs, st);
        let rest = tag_totals(lines, refs, j + 1, o.st);
        TagTotals {
            list_opens: o.list_opens + rest.list_opens,
            list_closes: o.list_closes + rest.list_closes,
            table_opens: o.table_opens + rest.table_opens,
            table_closes: o.table_closes + rest.table_closes,
            thead_opens: o.thead_opens + rest.thead_opens,
            thead_closes: o.thead_closes + rest.thead_closes,
        }
    }
}

/// Over any run, opens minus closes equals the growth of the stack and of
/// the open-table flag, and table heads always balance.
pub proof fn lemma_totals_delta(
    lines: Seq<Seq<char>>,
    refs: Seq<(Seq<char>, Seq<char>)>,
    j: int,
    st: LineState,
)
    ensures
        ({
            let t = tag_totals(lines, refs, j, st);
            let fin = run_lines(lines, refs, j, st).1;
            &&& t.list_opens + st.stack.len() == t.list_closes + fin.stack.len()
            &&& t.table_opens + (if st.in_table {
                1int
            } else {
                0int
            }) == t.table_closes + (if fin.in_table {
                1int
            } else {
                0int
            })
            &&& t.thead_opens == t.thead_closes
        }),
    decreases lines.len() - j,
{
    if 0 <= j < lines.len() {
        let o = process_line_spec(lines[j], refs, st);
        lemma_line_list_delta(lines[j], refs, st);
        lemma_totals_delta(lines, refs, j + 1, o.st);
    }
}

/// A conversion whose last line is blank leaves no list open: the final
/// stack is empty.
#[verifier::rlimit(100)]
pub proof fn lemma_final_stack_empty(
    lines: Seq<Seq<char>>,
    refs: Seq<(Seq<char>, Seq<char>)>,
    j: int,
    st: LineState,
)
    requires
        0 <= j < lines.len(),
        trim_spec(lines.last()).len() == 0,
    ensures
        run_lines(lines, refs, j, st).1.stack.len() == 0,
        !run_lines(lines, refs, j, st).1.in_table,
    decreases lines.len() - j,
{
    let o = process_line_spec(lines[j], refs, st);
    if j == lines.len() - 1 {
        assert(lines[j] == lines.last());
        lemma_blank_no_char(lines[j], '\\');
        lemma_blank_no_char(lines[j], '|');
        assert(o.st.stack.len() == 0);
        assert(!o.st.in_table);
        reveal_with_fuel(run_lines, 2);
        assert(run_lines(lines, refs, j, st).1 == o.st);
    } else {
        lemma_final_stack_empty(lines, refs, j + 1, o.st);
    }
}

/// Over a whole conversion whose last line is blank, the number of
/// `<ol>`/`<ul>` tags the emitter writes equals the number of
/// `</ol>`/`</ul>` tags; likewise for `<table>`/`</table>` and for
/// `<thead>`/`</thead>`.
pub proof fn lemma_tag_balance(lines: Seq<Seq<char>>, refs: Seq<(Seq<char>, Seq<char>)>)
    requires
        lines.len() > 0,
        trim_spec(lines.last()).len() == 0,
    ensures
        ({
            let t = tag_totals(lines, refs, 0, initial_state());
            &&& t.list_opens == t.list_closes
            &&& t.table_opens == t.table_closes
            &&& t.thead_opens == t.thead_closes
        }),
{
    lemma_totals_delta(lines, refs, 0, initial_state());
    lemma_final_stack_empty(lines, refs, 0, initial_state());
}

/// A line that is exactly `---`, `***` or `___`, reaching the emitter
/// outside any table or list, maps to precisely `<hr />`.
pub proof fn lemma_horizontal_rule(line: Seq<char>, refs: Seq<(Seq<char>, Seq<char>)>, st: LineState)
    requires
        hr_line(line),
        !st.in_table,
        st.stack.len() == 0,
        st.depth == 0,
    ensures
        process_line_spec(line, refs, st).frag == "<hr />"@,
{
    reveal_strlit("---");
    reveal_strlit("***");
    reveal_strlit("___");
    assert("---"@.len() == 3 && "---"@[0] == '-' && "---"@[1] == '-' && "---"@[2] == '-');
    assert("***"@.len() == 3 && "***"@[0] == '*' && "***"@[1] == '*' && "***"@[2] == '*');
    assert("___"@.len() == 3 && "___"@[0] == '_' && "___"@[1] == '_' && "___"@[2] == '_');
    assert(forall|k: int| 0 <= k < line.len() ==> #[trigger] line[k] == line[0]);
    assert(!line.contains('\\')) by {
        if line.contains('\\') {
            let k = choose|k: int| 0 <= k < line.len() && line[k] == '\\';
        }
    }
    assert(!line.contains('|')) by {
        if line.contains('|') {
            let k = choose|k: int| 0 <= k < line.len() && line[k] == '|';
        }
    }
    assert(ws_run_from(line, 0) == 0);
    assert(trim_spec(line).len() == 3) by {
        assert(ws_end_run(line, 3) == 3);
        assert(ws_end_run(line, line.len() as int) == 3);
    }
    let o = process_line_spec(line, refs, st);
    assert(st.stack =~= Seq::<ListKind>::empty());
    assert(st.stack.take(0) =~= Seq::<ListKind>::empty());
    assert(o.frag =~= "<hr />"@);
}

/// An already-rendered line, as the emitter itself writes one: trimmed,
/// nonempty, not a rule, no escape, no cell separator, no bracket, no
/// list marker, and the sigil tokenizer finds nothing on it. Emitted
/// fragments such as `<h1>Hello</h1>` satisfy this: their single `>`
/// characters away from the line start are no tokens.
pub open spec fn plain_line(line: Seq<char>) -> bool {
    &&& line == trim_spec(line)
    &&& line.len() > 0
    &&& !hr_line(line)
    &&& !line.contains('\\')
    &&& !line.contains('|')
    &&& !line.contains('[')
    &&& ordered_match(line) is None
    &&& unordered_match(line) is None
    &&& forall|i: int| 0 <= i < line.len() ==> #[trigger] token_at(line, i) is None
}

proof fn lemma_no_bracket_links(s: Seq<char>, i: int)
    requires
        0 <= i <= s.len(),
        forall|k: int| 0 <= k < s.len() ==> s[k] != '[',
    ensures
        subst_links_from(s, i) == s.subrange(i, s.len() as int),
    decreases s.len() - i,
{
    if i < s.len() {
        lemma_no_bracket_links(s, i + 1);
        assert(seq![s[i]] + s.subrange(i + 1, s.len() as int) =~= s.subrange(i, s.len() as int));
    } else {
        assert(s.subrange(i, s.len() as int) =~= Seq::<char>::empty());
    }
}

proof fn lemma_no_bracket_reflinks(s: Seq<char>, refs: Seq<(Seq<char>, Seq<char>)>, i: int)
    requires
        0 <= i <= s.len(),
        forall|k: int| 0 <= k < s.len() ==> s[k] != '[',
    ensures
        subst_reflinks_from(s, refs, i) == s.subrange(i, s.len() as int),
    decreases s.len() - i,
{
    if i < s.len() {
        lemma_no_bracket_reflinks(s, refs, i + 1);
        assert(seq![s[i]] + s.subrange(i + 1, s.len() as int) =~= s.subrange(i, s.len() as int));
    } else {
        assert(s.subrange(i, s.len() as int) =~= Seq::<char>::empty());
    }
}

proof fn lemma_no_bracket_images(s: Seq<char>, i: int)
    requires
        0 <= i <= s.len(),
        forall|k: int| 0 <= k < s.len() ==> s[k] != '[',
    ensures
        subst_images_from(s, i) == s.subrange(i, s.len() as int),
    decreases s.len() - i,
{
    if i < s.len() {
        lemma_no_bracket_images(s, i + 1);
        assert(seq![s[i]] + s.subrange(i + 1, s.len() as int) =~= s.subrange(i, s.len() as int));
    } else {
        assert(s.subrange(i, s.len() as int) =~= Seq::<char>::empty());
    }
}

proof fn lemma_no_bracket_refimages(s: Seq<char>, refs: Seq<(Seq<char>, Seq<char>)>, i: int)
    requires
        0 <= i <= s.len(),
        forall|k: int| 0 <= k < s.len() ==> s[k] != '[',
    ensures
        subst_refimages_from(s, refs, i) == s.subrange(i, s.len() as int),
    decreases s.len() - i,
{
    if i < s.len() {
        lemma_no_bracket_refimages(s, refs, i + 1);
        assert(seq![s[i]] + s.subrange(i + 1, s.len() as int) =~= s.subrange(i, s.len() as int));
    } else {
        assert(s.subrange(i, s.len() as int) =~= Seq::<char>::empty());
    }
}

proof fn lemma_no_bracket_strip_one(s: Seq<char>, k: Seq<char>, v: Seq<char>, i: int)
    requires
        0 <= i <= s.len(),
        forall|x: int| 0 <= x < s.len() ==> s[x] != '[',
    ensures
        strip_one_from(s, k, v, i) == s.subrange(i, s.len() as int),
    decreases s.len() - i,
{
    if i < s.len() {
        lemma_no_bracket_strip_one(s, k, v, i + 1);
        assert(seq![s[i]] + s.subrange(i + 1, s.len() as int) =~= s.subrange(i, s.len() as int));
    } else {
        assert(s.subrange(i, s.len() as int) =~= Seq::<char>::empty());
    }
}

proof fn lemma_no_bracket_strip_all(s: Seq<char>, refs: Seq<(Seq<char>, Seq<char>)>, j: int)
    requires
        forall|x: int| 0 <= x < s.len() ==> s[x] != '[',
    ensures
        strip_all_refs(s, refs, j) == s,
    decreases refs.len() - j,
{
    if 0 <= j < refs.len() {
        lemma_no_bracket_strip_one(s, refs[j].0, refs[j].1, 0);
        assert(strip_one_from(s, refs[j].0, refs[j].1, 0) =~= s);
        lemma_no_bracket_strip_all(s, refs, j + 1);
    }
}

proof fn lemma_no_sigils_no_tokens(s: Seq<char>, i: int)
    requires
        0 <= i,
        forall|k: int| 0 <= k < s.len() ==> #[trigger] token_at(s, k) is None,
    ensures
        tokens_from(s, i) == Seq::<Seq<char>>::empty(),
    decreases s.len() - i,
{
    if i < s.len() {
        lemma_no_sigils_no_tokens(s, i + 1);
    }
}

/// An already-rendered plain line reaching the emitter outside any table
/// or list passes through unchanged, and the cross-line state is left
/// exactly as it was: the emitter is idempotent on such input.
pub proof fn lemma_plain_line_fixed(
    line: Seq<char>,
    refs: Seq<(Seq<char>, Seq<char>)>,
    st: LineState,
)
    requires
        plain_line(line),
        !st.in_table,
        st.stack.len() == 0,
        st.depth == 0,
    ensures
        process_line_spec(line, refs, st).frag == line,
        process_line_spec(line, refs, st).st.code == st.code,
        process_line_spec(line, refs, st).st.in_table == st.in_table,
        process_line_spec(line, refs, st).st.aligns == st.aligns,
        process_line_spec(line, refs, st).st.stack == st.stack,
        process_line_spec(line, refs, st).st.depth == st.depth,
{
    let w0 = trim_spec(line);
    assert(w0 == line);
    assert forall|k: int| 0 <= k < w0.len() implies w0[k] != '[' by {
        if w0[k] == '[' {
            assert(line.contains('['));
        }
    }
    let w1 = if w0.len() > 0 && w0[0] == '!' {
        w0
    } else {
        subst_reflinks_from(subst_links_from(w0, 0), refs, 0)
    };
    assert(w1 == w0) by {
        if !(w0.len() > 0 && w0[0] == '!') {
            lemma_no_bracket_links(w0, 0);
            assert(w0.subrange(0, w0.len() as int) =~= w0);
            lemma_no_bracket_reflinks(w0, refs, 0);
        }
    }
    lemma_no_bracket_images(w1, 0);
    assert(w1.subrange(0, w1.len() as int) =~= w1);
    let w2 = subst_refimages_from(subst_images_from(w1, 0), refs, 0);
    lemma_no_bracket_refimages(w1, refs, 0);
    assert(w2 == w1);
    lemma_no_bracket_strip_all(w2, refs, 0);
    let w3 = strip_all_refs(w2, refs, 0);
    assert(w3 == w2);
    lemma_no_sigils_no_tokens(line, 0);
    assert(fold_tokens(line, tokens_from(line, 0), 0, w3, st.code) == (w3, st.code));
    assert(st.stack =~= Seq::<ListKind>::empty());
    assert(st.stack.take(0) =~= Seq::<ListKind>::empty());
    let o = process_line_spec(line, refs, st);
    assert(o.frag =~= line);
}

/// Running the emitter twice on an already-rendered plain line gives the
/// same fragment and the same state as running it once.
pub proof fn lemma_plain_line_idempotent(
    line: Seq<char>,
    refs: Seq<(Seq<char>, Seq<char>)>,
    st: LineState,
)
    requires
        plain_line(line),
        !st.in_table,
        st.stack.len() == 0,
        st.depth == 0,
    ensures
        ({
            let o = process_line_spec(line, refs, st);
            let o2 = process_line_spec(o.frag, refs, o.st);
            o2.frag == o.frag && o2.st == o.st
        }),
{
    lemma_plain_line_fixed(line, refs, st);
    let o = process_line_spec(line, refs, st);
    lemma_plain_line_fixed(o.frag, refs, o.st);
    let o2 = process_line_spec(o.frag, refs, o.st);
    assert(o2.st =~= o.st);
}

} // verus!
