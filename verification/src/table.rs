use vstd::prelude::*;
use crate::text::{trim_spec, trim, subvec, append_vec, lit};
use crate::refs::lines_view;

verus! {

/// The raw cells of the line split on `|`, empty pieces included.
pub open spec fn split_cells(line: Seq<char>, i: int, cur: Seq<char>) -> Seq<Seq<char>>
    decreases line.len() - i,
{
    if i < 0 || i >= line.len() {
        seq![cur]
    } else if line[i] == '|' {
        seq![cur] + split_cells(line, i + 1, Seq::empty())
    } else {
        split_cells(line, i + 1, cur.push(line[i]))
    }
}

pub fn split_cells_exec(line: &Vec<char>) -> (cells: Vec<Vec<char>>)
    ensures
        lines_view(cells@) == split_cells(line@, 0, Seq::empty()),
{
    let mut cells: Vec<Vec<char>> = Vec::new();
    let mut cur: Vec<char> = Vec::new();
    let mut i: usize = 0;
    while i < line.len()
        invariant
            i <= line@.len(),
            split_cells(line@, 0, Seq::empty()) == lines_view(cells@) + split_cells(
                line@,
                i as int,
                cur@,
            ),
        decreases line@.len() - i,
    {
        let ghost prevc = cells@;
        let ghost prevcur = cur@;
        if line[i] == '|' {
            cells.push(cur);
            cur = Vec::new();
            proof {
                assert(lines_view(cells@) =~= lines_view(prevc).push(prevcur));
                assert(lines_view(prevc) + (seq![prevcur] + split_cells(
                    line@,
                    i + 1,
                    Seq::empty(),
                )) =~= (lines_view(prevc).push(prevcur)) + split_cells(line@, i + 1, Seq::empty()));
            }
        } else {
            cur.push(line[i]);
        }
        i = i + 1;
    }
    let ghost prevc = cells@;
    let ghost prevcur = cur@;
    cells.push(cur);
    proof {
        assert(lines_view(cells@) =~= lines_view(prevc).push(prevcur));
        assert(lines_view(prevc) + seq![prevcur] =~= lines_view(prevc).push(prevcur));
    }
    cells
}

/// The header or body cells the table rules keep: trimmed, empties dropped.
pub open spec fn kept_cells(cells: Seq<Seq<char>>, j: int) -> Seq<Seq<char>>
    decreases cells.len() - j,
{
    if j < 0 || j >= cells.len() {
        Seq::empty()
    } else {
        let t = trim_spec(cells[j]);
        (if t.len() > 0 {
            seq![t]
        } else {
            Seq::empty()
        }) + kept_cells(cells, j + 1)
    }
}

/// The kept cells of a line: split on `|`, trimmed, empties dropped.
pub open spec fn line_cells(line: Seq<char>) -> Seq<Seq<char>> {
    kept_cells(split_cells(line, 0, Seq::empty()), 0)
}

pub fn line_cells_exec(line: &Vec<char>) -> (cols: Vec<Vec<char>>)
    ensures
        lines_view(cols@) == line_cells(line@),
{
    let cells = split_cells_exec(line);
    let mut cols: Vec<Vec<char>> = Vec::new();
    let ghost cv = lines_view(cells@);
    proof {
        assert(lines_view(cols@) =~= Seq::<Seq<char>>::empty());
    }
    let mut j: usize = 0;
    while j < cells.len()
        invariant
            j <= cells@.len(),
            cv == lines_view(cells@),
            kept_cells(cv, 0) == lines_view(cols@) + kept_cells(cv, j as int),
        decreases cells@.len() - j,
    {
        let ghost prev = cols@;
        let t = trim(&cells[j]);
        proof {
            assert(cv[j as int] == cells@[j as int]@);
        }
        if t.len() > 0 {
            let ghost tv = t@;
            cols.push(t);
            proof {
                assert(lines_view(cols@) =~= lines_view(prev).push(tv));
                assert(lines_view(prev) + (seq![tv] + kept_cells(cv, j + 1)) =~= (lines_view(
                    prev,
                ).push(tv)) + kept_cells(cv, j + 1));
            }
        } else {
            proof {
                assert(Seq::<Seq<char>>::empty() + kept_cells(cv, j + 1) =~= kept_cells(
                    cv,
                    j + 1,
                ));
            }
        }
        j = j + 1;
    }
    proof {
        assert(lines_view(cols@) =~= lines_view(cols@) + kept_cells(cv, cells@.len() as int));
    }
    cols
}

/// The alignment word a delimiter cell chooses: colons on both sides mean
/// `center`, a trailing colon alone means `right`, anything else `left`.
pub open spec fn align_word(cell: Seq<char>) -> Seq<char> {
    let t = trim_spec(cell);
    if t.len() > 0 && t[0] == ':' && t[t.len() - 1] == ':' {
        "center"@
    } else if t.len() > 0 && t[0] == ':' {
        "left"@
    } else if t.len() > 0 && t[t.len() - 1] == ':' {
        "right"@
    } else {
        "left"@
    }
}

/// The stored column alignments: one word per raw nonempty cell.
pub open spec fn aligns_of(cells: Seq<Seq<char>>, j: int) -> Seq<Seq<char>>
    decreases cells.len() - j,
{
    if j < 0 || j >= cells.len() {
        Seq::empty()
    } else {
        (if cells[j].len() > 0 {
            seq![align_word(cells[j])]
        } else {
            Seq::empty()
        }) + aligns_of(cells, j + 1)
    }
}

/// The alignments an alignment row stores for the open table.
pub open spec fn line_aligns(line: Seq<char>) -> Seq<Seq<char>> {
    aligns_of(split_cells(line, 0, Seq::empty()), 0)
}

fn align_word_exec(cell: &Vec<char>) -> (r: Vec<char>)
    ensures
        r@ == align_word(cell@),
{
    let t = trim(cell);
    if t.len() > 0 && t[0] == ':' && t[t.len() - 1] == ':' {
        lit("center")
    } else if t.len() > 0 && t[0] == ':' {
        lit("left")
    } else if t.len() > 0 && t[t.len() - 1] == ':' {
        lit("right")
    } else {
        lit("left")
    }
}

pub fn line_aligns_exec(line: &Vec<char>) -> (aligns: Vec<Vec<char>>)
    ensures
        lines_view(aligns@) == line_aligns(line@),
{
    let cells = split_cells_exec(line);
    let mut aligns: Vec<Vec<char>> = Vec::new();
    let ghost cv = lines_view(cells@);
    proof {
        assert(lines_view(aligns@) =~= Seq::<Seq<char>>::empty());
    }
    let mut j: usize = 0;
    while j < cells.len()
        invariant
            j <= cells@.len(),
            cv == lines_view(cells@),
            aligns_of(cv, 0) == lines_view(aligns@) + aligns_of(cv, j as int),
        decreases cells@.len() - j,
    {
        let ghost prev = aligns@;
        proof {
            assert(cv[j as int] == cells@[j as int]@);
        }
        if cells[j].len() > 0 {
            let w = align_word_exec(&cells[j]);
            let ghost wv = w@;
            aligns.push(w);
            proof {
                assert(lines_view(aligns@) =~= lines_view(prev).push(wv));
                assert(lines_view(prev) + (seq![wv] + aligns_of(cv, j + 1)) =~= (lines_view(
                    prev,
                ).push(wv)) + aligns_of(cv, j + 1));
            }
        } else {
            proof {
                assert(Seq::<Seq<char>>::empty() + aligns_of(cv, j + 1) =~= aligns_of(cv, j + 1));
            }
        }
        j = j + 1;
    }
    proof {
        assert(lines_view(aligns@) =~= lines_view(aligns@) + aligns_of(cv, cells@.len() as int));
    }
    aligns
}

/// The `<th>` run of a table-opening header row.
pub open spec fn th_cells(cols: Seq<Seq<char>>, j: int) -> Seq<char>
    decreases cols.len() - j,
{
    if j < 0 || j >= cols.len() {
        Seq::empty()
    } else {
        "<th>"@ + cols[j] + "</th>"@ + th_cells(cols, j + 1)
    }
}

pub fn th_cells_exec(cols: &Vec<Vec<char>>) -> (r: Vec<char>)
    ensures
        r@ == th_cells(lines_view(cols@), 0),
{
    let mut out: Vec<char> = Vec::new();
    let ghost cv = lines_view(cols@);
    let mut j: usize = 0;
    while j < cols.len()
        invariant
            j <= cols@.len(),
            cv == lines_view(cols@),
            th_cells(cv, 0) == out@ + th_cells(cv, j as int),
        decreases cols@.len() - j,
    {
        let ghost prev = out@;
        proof {
            assert(cv[j as int] == cols@[j as int]@);
        }
        let o = lit("<th>");
        let c = lit("</th>");
        append_vec(&mut out, &o);
        append_vec(&mut out, &cols[j]);
        append_vec(&mut out, &c);
        proof {
            assert(prev + ("<th>"@ + cv[j as int] + "</th>"@ + th_cells(cv, j + 1)) =~= ((prev
                + "<th>"@) + cv[j as int] + "</th>"@) + th_cells(cv, j + 1));
        }
        j = j + 1;
    }
    proof {
        assert(out@ =~= out@ + th_cells(cv, cols@.len() as int));
    }
    out
}

/// The `<td>` run of a table body row, each cell styled with the stored
/// alignment of its column, the empty word past the stored columns.
pub open spec fn td_cells(cols: Seq<Seq<char>>, aligns: Seq<Seq<char>>, j: int) -> Seq<char>
    decreases cols.len() - j,
{
    if j < 0 || j >= cols.len() {
        Seq::empty()
    } else {
        let a = if j < aligns.len() {
            aligns[j]
        } else {
            Seq::empty()
        };
        "<td style=\"text-align: "@ + a + "\">"@ + cols[j] + "</td>"@ + td_cells(
            cols,
            aligns,
            j + 1,
        )
    }
}

pub fn td_cells_exec(cols: &Vec<Vec<char>>, aligns: &Vec<Vec<char>>) -> (r: Vec<char>)
    ensures
        r@ == td_cells(lines_view(cols@), lines_view(aligns@), 0),
{
    let mut out: Vec<char> = Vec::new();
    let ghost cv = lines_view(cols@);
    let ghost av = lines_view(aligns@);
    let mut j: usize = 0;
    while j < cols.len()
        invariant
            j <= cols@.len(),
            cv == lines_view(cols@),
            av == lines_view(aligns@),
            td_cells(cv, av, 0) == out@ + td_cells(cv, av, j as int),
        decreases cols@.len() - j,
    {
        let ghost prev = out@;
        proof {
            assert(cv[j as int] == cols@[j as int]@);
        }
        let o = lit("<td style=\"text-align: ");
        let mid = lit("\">");
        let c = lit("</td>");
        append_vec(&mut out, &o);
        if j < aligns.len() {
            proof {
                assert(av[j as int] == aligns@[j as int]@);
            }
            append_vec(&mut out, &aligns[j]);
        }
        append_vec(&mut out, &mid);
        append_vec(&mut out, &cols[j]);
        append_vec(&mut out, &c);
        proof {
            let a = if (j as int) < av.len() {
                av[j as int]
            } else {
                Seq::<char>::empty()
            };
            if j >= aligns.len() {
                assert((prev + "<td style=\"text-align: "@) + Seq::<char>::empty() =~= prev
                    + "<td style=\"text-align: "@);
            }
            assert(prev + ("<td style=\"text-align: "@ + a + "\">"@ + cv[j as int] + "</td>"@
                + td_cells(cv, av, j + 1)) =~= ((((prev + "<td style=\"text-align: "@) + a)
                + "\">"@ + cv[j as int] + "</td>"@)) + td_cells(cv, av, j + 1));
        }
        j = j + 1;
    }
    proof {
        assert(out@ =~= out@ + td_cells(cv, av, cols@.len() as int));
    }
    out
}

} // verus!
