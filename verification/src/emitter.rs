use vstd::prelude::*;
use crate::text::{
    trim_spec, trim, ws_run_from, ws_run, subvec, append_vec, lit, contains_char, vec_eq,
    has_dashes, contains_dashes,
};
use crate::lists::{
    ListKind, open_tag, close_tag, open_tag_of, close_tag_of, closes_down, close_all_tags,
    close_open_lists, task_checked_match, task_unchecked_match, ordered_match, unordered_match,
    find_task_checked, find_task_unchecked, find_ordered, find_unordered,
};
use crate::tags::{MarkdownMap, markdown_map_spec};
use crate::refs::{RefMap, lines_view, collect_refs, collect_references, strip_all_refs,
    strip_references};
use crate::inline::{
    esc_from, escape_line, subst_links_from, subst_links, subst_reflinks_from, subst_reflinks,
    subst_images_from, subst_images, subst_refimages_from, subst_refimages, tokens_from,
    fold_tokens, inline_pass,
};
use crate::table::{line_cells, line_cells_exec, line_aligns, line_aligns_exec, th_cells,
    th_cells_exec, td_cells, td_cells_exec};

verus! {

/// The cross-line state the emitter threads from one line to the next.
pub struct LineState {
    /// A fenced `<pre>` block is open.
    pub code: bool,
    /// A `<table>` element is open.
    pub in_table: bool,
    /// Stored column alignments of the open table.
    pub aligns: Seq<Seq<char>>,
    /// Open list elements, outermost first.
    pub stack: Seq<ListKind>,
    /// The list nesting level the emitter believes it is at.
    pub depth: nat,
}

/// What one line produces: its fragment, the state after it, and how many
/// list, table and table-head tags the fragment carries.
pub struct ProcOut {
    pub frag: Seq<char>,
    pub st: LineState,
    /// `<ol>`/`<ul>` tags the emitter wrote into this fragment.
    pub list_opens: nat,
    /// `</ol>`/`</ul>` tags the emitter wrote into this fragment.
    pub list_closes: nat,
    /// `<table>` tags the emitter wrote into this fragment.
    pub table_opens: nat,
    /// `</table>` tags the emitter wrote into this fragment.
    pub table_closes: nat,
    /// `<thead>` tags the emitter wrote into this fragment.
    pub thead_opens: nat,
    /// `</thead>` tags the emitter wrote into this fragment.
    pub thead_closes: nat,
}

pub open spec fn hr_line(line: Seq<char>) -> bool {
    line == "---"@ || line == "***"@ || line == "___"@
}

/// How a list-item line adjusts the stack at its own depth: a deeper item
/// opens a nested list, an item at the same depth atop a list of the other
/// kind closes it and opens its own, anything else leaves the stack alone.
pub struct ListStep {
    pub frag: Seq<char>,
    pub stack: Seq<ListKind>,
    pub depth: nat,
    pub opens: nat,
    pub closes: nat,
}

pub open spec fn list_step(
    stack1: Seq<ListKind>,
    depth1: nat,
    kind: ListKind,
    ldepth: nat,
) -> ListStep {
    if ldepth > depth1 {
        ListStep {
            frag: open_tag(kind),
            stack: stack1.push(kind),
            depth: ldepth,
            opens: 1,
            closes: 0,
        }
    } else if ldepth == depth1 && !(stack1.len() > 0 && stack1.last() == kind) {
        if stack1.len() > 0 {
            ListStep {
                frag: close_tag(stack1.last()) + open_tag(kind),
                stack: stack1.drop_last().push(kind),
                depth: depth1,
                opens: 1,
                closes: 1,
            }
        } else {
            ListStep {
                frag: open_tag(kind),
                stack: stack1.push(kind),
                depth: depth1,
                opens: 1,
                closes: 0,
            }
        }
    } else {
        ListStep { frag: Seq::empty(), stack: stack1, depth: depth1, opens: 0, closes: 0 }
    }
}

pub open spec fn li_checked(content: Seq<char>) -> Seq<char> {
    "<li><input type=\"checkbox\" checked> "@ + content + "</li>"@
}

pub open spec fn li_unchecked(content: Seq<char>) -> Seq<char> {
    "<li><input type=\"checkbox\"> "@ + content + "</li>"@
}

pub open spec fn li_plain(content: Seq<char>) -> Seq<char> {
    "<li>"@ + content + "</li>"@
}

pub open spec fn list_item_out(
    pre: Seq<char>,
    st: LineState,
    intab: bool,
    aligns1: Seq<Seq<char>>,
    tcn: nat,
    npop: int,
    stack1: Seq<ListKind>,
    depth1: nat,
    depth0: nat,
    kind: ListKind,
    body: Seq<char>,
) -> ProcOut {
    let step = list_step(stack1, depth1, kind, depth0);
    ProcOut {
        frag: pre + step.frag + body,
        st: LineState {
            code: st.code,
            in_table: intab,
            aligns: aligns1,
            stack: step.stack,
            depth: step.depth,
        },
        list_opens: step.opens,
        list_closes: npop as nat + step.closes,
        table_opens: 0,
        table_closes: tcn,
        thead_opens: 0,
        thead_closes: 0,
    }
}

/// The whole per-line rule cascade: the escape fast path; the table-closure
/// probe; the blank line; list-depth decrease; the four list-item kinds;
/// list termination; link, image and reference-definition substitution;
/// the horizontal rule; table opening, alignment and body rows; and the
/// inline-formatting pass.
pub open spec fn process_line_spec(
    line: Seq<char>,
    refs: Seq<(Seq<char>, Seq<char>)>,
    st: LineState,
) -> ProcOut {
    if line.contains('\\') {
        ProcOut {
            frag: esc_from(line, 0),
            st: st,
            list_opens: 0,
            list_closes: 0,
            table_opens: 0,
            table_closes: 0,
            thead_opens: 0,
            thead_closes: 0,
        }
    } else {
        let closing = st.in_table && !line.contains('|');
        let tclose = if closing {
            "</tbody></table>"@
        } else {
            Seq::<char>::empty()
        };
        let tcn: nat = if closing {
            1nat
        } else {
            0nat
        };
        let intab = st.in_table && !closing;
        let aligns1 = if closing {
            Seq::<Seq<char>>::empty()
        } else {
            st.aligns
        };
        if trim_spec(line).len() == 0 {
            let frag = tclose + close_all_tags(st.stack) + (if intab {
                Seq::<char>::empty()
            } else {
                "<br>"@
            });
            ProcOut {
                frag: frag,
                st: LineState {
                    code: st.code,
                    in_table: intab,
                    aligns: aligns1,
                    stack: Seq::empty(),
                    depth: 0,
                },
                list_opens: 0,
                list_closes: st.stack.len(),
                table_opens: 0,
                table_closes: tcn,
                thead_opens: 0,
                thead_closes: 0,
            }
        } else {
            let depth0 = (ws_run_from(line, 0) / 4) as nat;
            let npop: int = if depth0 < st.depth {
                if st.depth - depth0 <= st.stack.len() {
                    st.depth - depth0
                } else {
                    st.stack.len() as int
                }
            } else {
                0
            };
            let stack1 = st.stack.take(st.stack.len() - npop);
            let depth1: nat = if depth0 < st.depth {
                depth0
            } else {
                st.depth
            };
            let r3 = closes_down(st.stack, st.stack.len() as int, st.stack.len() - npop);
            let pre = tclose + r3;
            match task_checked_match(line) {
                Some(clen) => list_item_out(
                    pre,
                    st,
                    intab,
                    aligns1,
                    tcn,
                    npop,
                    stack1,
                    depth1,
                    depth0,
                    ListKind::Unordered,
                    li_checked(trim_spec(line.skip(clen))),
                ),
                None => match task_unchecked_match(line) {
                    Some(clen) => list_item_out(
                        pre,
                        st,
                        intab,
                        aligns1,
                        tcn,
                        npop,
                        stack1,
                        depth1,
                        depth0,
                        ListKind::Unordered,
                        li_unchecked(trim_spec(line.skip(clen))),
                    ),
                    None => match ordered_match(line) {
                        Some(clen) => list_item_out(
                            pre,
                            st,
                            intab,
                            aligns1,
                            tcn,
                            npop,
                            stack1,
                            depth1,
                            depth0,
                            ListKind::Ordered,
                            li_plain(trim_spec(line.skip(clen))),
                        ),
                        None => match unordered_match(line) {
                            Some(clen) => list_item_out(
                                pre,
                                st,
                                intab,
                                aligns1,
                                tcn,
                                npop,
                                stack1,
                                depth1,
                                depth0,
                                ListKind::Unordered,
                                li_plain(trim_spec(line.skip(clen))),
                            ),
                            None => nonlist_out(line, refs, st, intab, aligns1, tcn, pre, stack1),
                        },
                    },
                },
            }
        }
    }
}

/// The cascade tail for a non-blank line that is no list item: remaining
/// lists close, substitutions run, and the line resolves as a horizontal
/// rule, a table line, or inline-formatted text.
pub open spec fn nonlist_out(
    line: Seq<char>,
    refs: Seq<(Seq<char>, Seq<char>)>,
    st: LineState,
    intab: bool,
    aligns1: Seq<Seq<char>>,
    tcn: nat,
    pre: Seq<char>,
    stack1: Seq<ListKind>,
) -> ProcOut {
    let pre2 = pre + close_all_tags(stack1);
    let allcloses: nat = st.stack.len();
    if hr_line(line) {
        ProcOut {
            frag: pre2 + "<hr />"@,
            st: LineState {
                code: st.code,
                in_table: intab,
                aligns: aligns1,
                stack: Seq::empty(),
                depth: 0,
            },
            list_opens: 0,
            list_closes: allcloses,
            table_opens: 0,
            table_closes: tcn,
            thead_opens: 0,
            thead_closes: 0,
        }
    } else if line.contains('|') && !intab {
        let cols = line_cells(line);
        ProcOut {
            frag: pre2 + "<table><thead><tr>"@ + th_cells(cols, 0) + "</tr></thead><tbody>"@,
            st: LineState {
                code: st.code,
                in_table: true,
                aligns: aligns1,
                stack: Seq::empty(),
                depth: 0,
            },
            list_opens: 0,
            list_closes: allcloses,
            table_opens: 1,
            table_closes: tcn,
            thead_opens: 1,
            thead_closes: 1,
        }
    } else if intab && contains_dashes(line) {
        ProcOut {
            frag: pre2,
            st: LineState {
                code: st.code,
                in_table: intab,
                aligns: line_aligns(line),
                stack: Seq::empty(),
                depth: 0,
            },
            list_opens: 0,
            list_closes: allcloses,
            table_opens: 0,
            table_closes: tcn,
            thead_opens: 0,
            thead_closes: 0,
        }
    } else if intab {
        let cols = line_cells(line);
        ProcOut {
            frag: pre2 + "<tr>"@ + td_cells(cols, aligns1, 0) + "</tr>"@,
            st: LineState {
                code: st.code,
                in_table: intab,
                aligns: aligns1,
                stack: Seq::empty(),
                depth: 0,
            },
            list_opens: 0,
            list_closes: allcloses,
            table_opens: 0,
            table_closes: tcn,
            thead_opens: 0,
            thead_closes: 0,
        }
    } else {
        let w0 = trim_spec(line);
        let w1 = if w0.len() > 0 && w0[0] == '!' {
            w0
        } else {
            subst_reflinks_from(subst_links_from(w0, 0), refs, 0)
        };
        let w2 = subst_refimages_from(subst_images_from(w1, 0), refs, 0);
        let w3 = strip_all_refs(w2, refs, 0);
        let fc = fold_tokens(line, tokens_from(line, 0), 0, w3, st.code);
        ProcOut {
            frag: pre2 + fc.0,
            st: LineState {
                code: fc.1,
                in_table: intab,
                aligns: aligns1,
                stack: Seq::empty(),
                depth: 0,
            },
            list_opens: 0,
            list_closes: allcloses,
            table_opens: 0,
            table_closes: tcn,
            thead_opens: 0,
            thead_closes: 0,
        }
    }
}

/// Opens, closes or keeps the list at this item's depth, then appends the
/// finished `<li>` body.
fn emit_list_item(
    html: &mut Vec<char>,
    list_stack: &mut Vec<ListKind>,
    current_list_depth: &mut usize,
    kind: ListKind,
    depth0: usize,
    item: &Vec<char>,
)
    ensures
        ({
            let step = list_step(
                old(list_stack)@,
                *old(current_list_depth) as nat,
                kind,
                depth0 as nat,
            );
            final(html)@ == old(html)@ + step.frag + item@ && final(list_stack)@ == step.stack
                && *final(current_list_depth) as nat == step.depth
        }),
{
    let ghost step = list_step(
        list_stack@,
        *current_list_depth as nat,
        kind,
        depth0 as nat,
    );
    if depth0 > *current_list_depth {
        list_stack.push(kind);
        let o = open_tag_of(kind);
        append_vec(html, &o);
        *current_list_depth = depth0;
    } else if depth0 == *current_list_depth {
        let same_top = if list_stack.len() > 0 {
            list_stack[list_stack.len() - 1] == kind
        } else {
            false
        };
        if !same_top {
            let ghost s1 = list_stack@;
            let ghost h1 = html@;
            match list_stack.pop() {
                Some(k2) => {
                    let ct = close_tag_of(k2);
                    append_vec(html, &ct);
                },
                None => {},
            }
            list_stack.push(kind);
            let o = open_tag_of(kind);
            append_vec(html, &o);
            proof {
                if s1.len() > 0 {
                    assert(list_stack@ =~= s1.drop_last().push(kind));
                    assert(html@ =~= h1 + (close_tag(s1.last()) + open_tag(kind)));
                }
            }
        }
    }
    let ghost h2 = html@;
    append_vec(html, item);
    proof {
        assert(h2 =~= old(html)@ + step.frag);
        assert(html@ =~= old(html)@ + step.frag + item@);
    }
}

/// Classifies one Markdown line against the rule cascade and returns its
/// HTML fragment, updating the cross-line state exactly as the
/// specification's cascade describes.
#[verifier::rlimit(100)]
pub fn process_line(
    line: &Vec<char>,
    map: &MarkdownMap,
    code: &mut bool,
    in_table: &mut bool,
    alignment: &mut Vec<Vec<char>>,
    references: &RefMap,
    list_stack: &mut Vec<ListKind>,
    current_list_depth: &mut usize,
) -> (html_line: Vec<char>)
    requires
        map.wf(),
        map@ == markdown_map_spec(),
    ensures
        ({
            let out = process_line_spec(
                line@,
                references@,
                (LineState {
                    code: *old(code),
                    in_table: *old(in_table),
                    aligns: lines_view(old(alignment)@),
                    stack: old(list_stack)@,
                    depth: *old(current_list_depth) as nat,
                }),
            );
            html_line@ == out.frag && *final(code) == out.st.code && *final(in_table)
                == out.st.in_table && lines_view(final(alignment)@) == out.st.aligns
                && final(list_stack)@ == out.st.stack && *final(current_list_depth) as nat
                == out.st.depth
        }),
{
    let ghost st0 = (LineState {
        code: *code,
        in_table: *in_table,
        aligns: lines_view(alignment@),
        stack: list_stack@,
        depth: *current_list_depth as nat,
    });
    let ghost out = process_line_spec(line@, references@, st0);
    if contains_char(line, '\\') {
        return escape_line(line);
    }
    let mut html: Vec<char> = Vec::new();
    if *in_table && !contains_char(line, '|') {
        *in_table = false;
        *alignment = Vec::new();
        let t = lit("</tbody></table>");
        append_vec(&mut html, &t);
        proof {
            assert(html@ =~= Seq::<char>::empty() + "</tbody></table>"@);
            assert(html@ == "</tbody></table>"@);
            assert(lines_view(alignment@) =~= Seq::<Seq<char>>::empty());
        }
    }
    let ghost tclose = html@;
    let trimmed = trim(line);
    if trimmed.len() == 0 {
        close_open_lists(list_stack, &mut html);
        *current_list_depth = 0;
        if !*in_table {
            let br = lit("<br>");
            append_vec(&mut html, &br);
        }
        proof {
            assert(html@ =~= out.frag);
        }
        return html;
    }
    let wp = ws_run(line, 0);
    let depth0 = wp / 4;
    let ghost s0 = list_stack@;
    if depth0 < *current_list_depth {
        let delta = *current_list_depth - depth0;
        let npop = if delta <= list_stack.len() {
            delta
        } else {
            list_stack.len()
        };
        let ghost h0 = html@;
        let mut t: usize = 0;
        while t < npop
            invariant
                t <= npop,
                npop <= s0.len(),
                list_stack@ == s0.take((s0.len() - t) as int),
                html@ + closes_down(s0, (s0.len() - t) as int, s0.len() - npop) == h0
                    + closes_down(s0, s0.len() as int, s0.len() - npop),
            decreases npop - t,
        {
            let ghost m = list_stack@.len() as int;
            match list_stack.pop() {
                Some(k) => {
                    proof {
                        assert(s0.take(m)[m - 1] == s0[m - 1]);
                        assert(list_stack@ =~= s0.take(m - 1));
                    }
                    let ghost hb = html@;
                    let ct = close_tag_of(k);
                    append_vec(&mut html, &ct);
                    proof {
                        assert(closes_down(s0, m, s0.len() - npop) == close_tag(s0[m - 1])
                            + closes_down(s0, m - 1, s0.len() - npop));
                        assert((hb + close_tag(s0[m - 1])) + closes_down(
                            s0,
                            m - 1,
                            s0.len() - npop,
                        ) =~= hb + (close_tag(s0[m - 1]) + closes_down(s0, m - 1, s0.len() - npop)));
                    }
                },
                None => {
                    proof {
                        assert(false);
                    }
                },
            }
            t = t + 1;
        }
        *current_list_depth = depth0;
        proof {
            assert(closes_down(s0, (s0.len() - npop) as int, s0.len() - npop) == Seq::<
                char,
            >::empty());
            assert(html@ + Seq::<char>::empty() =~= html@);
        }
    }
    proof {
        let npop_s: int = if (depth0 as nat) < st0.depth {
            if st0.depth - depth0 <= st0.stack.len() {
                st0.depth - depth0
            } else {
                st0.stack.len() as int
            }
        } else {
            0
        };
        assert(list_stack@ =~= s0.take(s0.len() - npop_s));
        assert(html@ =~= tclose + closes_down(s0, s0.len() as int, s0.len() - npop_s));
    }
    if let Some(clen) = find_task_checked(line) {
        let content = trim(&subvec(line, clen, line.len()));
        let mut item = lit("<li><input type=\"checkbox\" checked> ");
        append_vec(&mut item, &content);
        let tail = lit("</li>");
        append_vec(&mut item, &tail);
        proof {
            assert(line@.skip(clen as int) =~= line@.subrange(clen as int, line@.len() as int));
            assert(item@ =~= li_checked(trim_spec(line@.skip(clen as int))));
        }
        emit_list_item(&mut html, list_stack, current_list_depth, ListKind::Unordered, depth0,
            &item);
        proof {
            assert(html@ =~= out.frag);
        }
        return html;
    }
    if let Some(clen) = find_task_unchecked(line) {
        let content = trim(&subvec(line, clen, line.len()));
        let mut item = lit("<li><input type=\"checkbox\"> ");
        append_vec(&mut item, &content);
        let tail = lit("</li>");
        append_vec(&mut item, &tail);
        proof {
            assert(line@.skip(clen as int) =~= line@.subrange(clen as int, line@.len() as int));
            assert(item@ =~= li_unchecked(trim_spec(line@.skip(clen as int))));
        }
        emit_list_item(&mut html, list_stack, current_list_depth, ListKind::Unordered, depth0,
            &item);
        proof {
            assert(html@ =~= out.frag);
        }
        return html;
    }
    if let Some(clen) = find_ordered(line) {
        let content = trim(&subvec(line, clen, line.len()));
        let mut item = lit("<li>");
        append_vec(&mut item, &content);
        let tail = lit("</li>");
        append_vec(&mut item, &tail);
        proof {
            assert(line@.skip(clen as int) =~= line@.subrange(clen as int, line@.len() as int));
            assert(item@ =~= li_plain(trim_spec(line@.skip(clen as int))));
        }
        emit_list_item(&mut html, list_stack, current_list_depth, ListKind::Ordered, depth0,
            &item);
        proof {
            assert(html@ =~= out.frag);
        }
        return html;
    }
    if let Some(clen) = find_unordered(line) {
        let content = trim(&subvec(line, clen, line.len()));
        let mut item = lit("<li>");
        append_vec(&mut item, &content);
        let tail = lit("</li>");
        append_vec(&mut item, &tail);
        proof {
            assert(line@.skip(clen as int) =~= line@.subrange(clen as int, line@.len() as int));
            assert(item@ =~= li_plain(trim_spec(line@.skip(clen as int))));
        }
        emit_list_item(&mut html, list_stack, current_list_depth, ListKind::Unordered, depth0,
            &item);
        proof {
            assert(html@ =~= out.frag);
        }
        return html;
    }
    close_open_lists(list_stack, &mut html);
    *current_list_depth = 0;
    let bang = trimmed.len() > 0 && trimmed[0] == '!';
    let w1 = if bang {
        trimmed
    } else {
        let a = subst_links(&trimmed);
        subst_reflinks(&a, references)
    };
    let w2a = subst_images(&w1);
    let w2 = subst_refimages(&w2a, references);
    let w3 = strip_references(&w2, references);
    let is_hr = vec_eq(line, &lit("---")) || vec_eq(line, &lit("***")) || vec_eq(
        line,
        &lit("___"),
    );
    if is_hr {
        let h = lit("<hr />");
        append_vec(&mut html, &h);
        proof {
            assert(html@ =~= out.frag);
        }
        return html;
    }
    if !*in_table && contains_char(line, '|') {
        *in_table = true;
        let cols = line_cells_exec(line);
        let open = lit("<table><thead><tr>");
        append_vec(&mut html, &open);
        let ths = th_cells_exec(&cols);
        append_vec(&mut html, &ths);
        let close = lit("</tr></thead><tbody>");
        append_vec(&mut html, &close);
        proof {
            assert(html@ =~= out.frag);
        }
        return html;
    }
    if *in_table && has_dashes(line) {
        let newaligns = line_aligns_exec(line);
        *alignment = newaligns;
        proof {
            assert(html@ =~= out.frag);
        }
        return html;
    }
    if *in_table {
        let cols = line_cells_exec(line);
        let open = lit("<tr>");
        append_vec(&mut html, &open);
        let tds = td_cells_exec(&cols, alignment);
        append_vec(&mut html, &tds);
        let close = lit("</tr>");
        append_vec(&mut html, &close);
        proof {
            assert(html@ =~= out.frag);
        }
        return html;
    }
    let fc = inline_pass(line, map, w3, *code);
    *code = fc.1;
    append_vec(&mut html, &fc.0);
    proof {
        assert(html@ =~= out.frag);
    }
    html
}

/// The state a fresh conversion starts from.
pub open spec fn initial_state() -> LineState {
    LineState {
        code: false,
        in_table: false,
        aligns: Seq::empty(),
        stack: Seq::empty(),
        depth: 0,
    }
}

/// The fragments and final state of running the cascade over the lines
/// from index `j` onward.
pub open spec fn run_lines(
    lines: Seq<Seq<char>>,
    refs: Seq<(Seq<char>, Seq<char>)>,
    j: int,
    st: LineState,
) -> (Seq<Seq<char>>, LineState)
    decreases lines.len() - j,
{
    if j < 0 || j >= lines.len() {
        (Seq::empty(), st)
    } else {
        let o = process_line_spec(lines[j], refs, st);
        let rest = run_lines(lines, refs, j + 1, o.st);
        (seq![o.frag] + rest.0, rest.1)
    }
}

/// The whole conversion: one output fragment per input line, produced by
/// the cascade threaded over the harvested reference map.
pub open spec fn convert_spec(lines: Seq<Seq<char>>) -> Seq<Seq<char>> {
    run_lines(lines, collect_refs(lines, 0, Seq::empty()), 0, initial_state()).0
}

/// Converts a Markdown document, given line by line, into its HTML lines:
/// one output line per input line.
pub fn markdown_to_html(lines: &Vec<Vec<char>>) -> (out: Vec<Vec<char>>)
    ensures
        lines_view(out@) == convert_spec(lines_view(lines@)),
        out@.len() == lines@.len(),
{
    let map = crate::tags::create_markdown_map();
    let references = collect_references(lines);
    let mut code = false;
    let mut in_table = false;
    let mut alignment: Vec<Vec<char>> = Vec::new();
    let mut list_stack: Vec<ListKind> = Vec::new();
    let mut current_list_depth: usize = 0;
    let mut out: Vec<Vec<char>> = Vec::new();
    let ghost lv = lines_view(lines@);
    let ghost rv = references@;
    proof {
        assert(lines_view(out@) =~= Seq::<Seq<char>>::empty());
        assert(lines_view(alignment@) =~= Seq::<Seq<char>>::empty());
        assert((LineState {
            code: code,
            in_table: in_table,
            aligns: lines_view(alignment@),
            stack: list_stack@,
            depth: current_list_depth as nat,
        }) == initial_state());
    }
    let mut j: usize = 0;
    while j < lines.len()
        invariant
            j <= lines@.len(),
            out@.len() == j,
            map.wf(),
            map@ == markdown_map_spec(),
            lv == lines_view(lines@),
            rv == references@,
            run_lines(lv, rv, 0, initial_state()) == ({
                let stj = (LineState {
                    code: code,
                    in_table: in_table,
                    aligns: lines_view(alignment@),
                    stack: list_stack@,
                    depth: current_list_depth as nat,
                });
                let rest = run_lines(lv, rv, j as int, stj);
                (lines_view(out@) + rest.0, rest.1)
            }),
        decreases lines@.len() - j,
    {
        let ghost stj = (LineState {
            code: code,
            in_table: in_table,
            aligns: lines_view(alignment@),
            stack: list_stack@,
            depth: current_list_depth as nat,
        });
        proof {
            assert(lv[j as int] == lines@[j as int]@);
        }
        let frag = process_line(
            &lines[j],
            &map,
            &mut code,
            &mut in_table,
            &mut alignment,
            &references,
            &mut list_stack,
            &mut current_list_depth,
        );
        let ghost prev = out@;
        let ghost fv = frag@;
        out.push(frag);
        proof {
            let o = process_line_spec(lv[j as int], rv, stj);
            assert(lines_view(out@) =~= lines_view(prev).push(fv));
            assert(lines_view(prev) + (seq![o.frag] + run_lines(lv, rv, j + 1, o.st).0) =~= (
            lines_view(prev).push(fv)) + run_lines(lv, rv, j + 1, o.st).0);
        }
        j = j + 1;
    }
    proof {
        assert(lines_view(out@) =~= lines_view(out@) + run_lines(lv, rv, lines@.len() as int, (
        LineState {
            code: code,
            in_table: in_table,
            aligns: lines_view(alignment@),
            stack: list_stack@,
            depth: current_list_depth as nat,
        })).0);
    }
    out
}

} // verus!
