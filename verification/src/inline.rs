use vstd::prelude::*;
use crate::text::{
    ws_run_from, ws_run, find_char_from, find_char, first_match_from, find_sub, subvec, vec_eq,
    append_vec, lit, count_from, count_sub, replace_first_spec, replace_first,
};
use crate::refs::{RefMap, lookup_ref, lines_view};
use crate::tags::{MarkdownMap, markdown_map_spec};

verus! {

/// The escape fast path: every `\X` collapsed to `X`, a trailing lone
/// backslash kept as it stands.
pub open spec fn esc_from(s: Seq<char>, i: int) -> Seq<char>
    decreases s.len() - i,
{
    if i < 0 || i >= s.len() {
        Seq::empty()
    } else if s[i] == '\\' && i + 1 < s.len() {
        seq![s[i + 1]] + esc_from(s, i + 2)
    } else {
        seq![s[i]] + esc_from(s, i + 1)
    }
}

pub fn escape_line(s: &Vec<char>) -> (r: Vec<char>)
    ensures
        r@ == esc_from(s@, 0),
{
    let mut out: Vec<char> = Vec::new();
    let mut i: usize = 0;
    while i < s.len()
        invariant
            i <= s@.len(),
            esc_from(s@, 0) == out@ + esc_from(s@, i as int),
        decreases s@.len() - i,
    {
        let ghost prev = out@;
        if s[i] == '\\' && i + 1 < s.len() {
            out.push(s[i + 1]);
            proof {
                assert(out@ =~= prev + seq![s@[i + 1]]);
                assert(prev + (seq![s@[i + 1]] + esc_from(s@, i + 2)) =~= (prev + seq![s@[i + 1]])
                    + esc_from(s@, i + 2));
            }
            i = i + 2;
        } else {
            out.push(s[i]);
            proof {
                assert(out@ =~= prev + seq![s@[i as int]]);
                assert(prev + (seq![s@[i as int]] + esc_from(s@, i + 1)) =~= (prev + seq![s@[
                    i as int]]) + esc_from(s@, i + 1));
            }
            i = i + 1;
        }
    }
    proof {
        assert(out@ =~= out@ + esc_from(s@, s@.len() as int));
    }
    out
}

/// An inline link `[TEXT](URL)` read at `i`: its end and its `<a>` form.
pub open spec fn link_at(s: Seq<char>, i: int) -> Option<(int, Seq<char>)> {
    if 0 <= i < s.len() && s[i] == '[' {
        match find_char_from(s, ']', i + 1) {
            Some(j) => {
                let w = ws_run_from(s, j + 1);
                if i + 1 < j && j + 1 <= w && w < s.len() && s[w] == '(' {
                    match find_char_from(s, ')', w + 1) {
                        Some(m) => if w + 1 < m && m < s.len() {
                            Some(
                                (
                                    m + 1,
                                    "<a href=\""@ + s.subrange(w + 1, m) + "\">"@ + s.subrange(
                                        i + 1,
                                        j,
                                    ) + "</a>"@,
                                ),
                            )
                        } else {
                            None
                        },
                        None => None,
                    }
                } else {
                    None
                }
            },
            None => None,
        }
    } else {
        None
    }
}

/// A reference-style link `[TEXT][LABEL]` read at `i`: its end and its
/// resolved form, or the original text when the label is unknown.
pub open spec fn reflink_at(s: Seq<char>, refs: Seq<(Seq<char>, Seq<char>)>, i: int) -> Option<
    (int, Seq<char>),
> {
    if 0 <= i < s.len() && s[i] == '[' {
        match find_char_from(s, ']', i + 1) {
            Some(j) => if i + 1 < j && j + 1 < s.len() && s[j + 1] == '[' {
                match find_char_from(s, ']', j + 2) {
                    Some(j2) => if j + 2 < j2 && j2 < s.len() {
                        match lookup_ref(refs, s.subrange(j + 2, j2)) {
                            Some(url) => Some(
                                (
                                    j2 + 1,
                                    "<a href=\""@ + url + "\">"@ + s.subrange(i + 1, j) + "</a>"@,
                                ),
                            ),
                            None => Some((j2 + 1, s.subrange(i, j2 + 1))),
                        }
                    } else {
                        None
                    },
                    None => None,
                }
            } else {
                None
            },
            None => None,
        }
    } else {
        None
    }
}

/// An inline image `![ALT](URL)` read at `i`: its end and its `<img>` form.
pub open spec fn image_at(s: Seq<char>, i: int) -> Option<(int, Seq<char>)> {
    if 0 <= i && i + 1 < s.len() && s[i] == '!' && s[i + 1] == '[' {
        match find_char_from(s, ']', i + 2) {
            Some(j) => if i + 2 <= j && j + 1 < s.len() && s[j + 1] == '(' {
                match find_char_from(s, ')', j + 2) {
                    Some(m) => if j + 2 < m && m < s.len() {
                        Some(
                            (
                                m + 1,
                                "<img alt=\""@ + s.subrange(i + 2, j) + "\" src=\""@ + s.subrange(
                                    j + 2,
                                    m,
                                ) + "\" />"@,
                            ),
                        )
                    } else {
                        None
                    },
                    None => None,
                }
            } else {
                None
            },
            None => None,
        }
    } else {
        None
    }
}

/// A reference-style image `![ALT][LABEL]` read at `i`.
pub open spec fn refimage_at(s: Seq<char>, refs: Seq<(Seq<char>, Seq<char>)>, i: int) -> Option<
    (int, Seq<char>),
> {
    if 0 <= i && i + 1 < s.len() && s[i] == '!' && s[i + 1] == '[' {
        match find_char_from(s, ']', i + 2) {
            Some(j) => if i + 2 <= j && j + 1 < s.len() && s[j + 1] == '[' {
                match find_char_from(s, ']', j + 2) {
                    Some(j2) => if j + 2 < j2 && j2 < s.len() {
                        match lookup_ref(refs, s.subrange(j + 2, j2)) {
                            Some(url) => Some(
                                (
                                    j2 + 1,
                                    "<img alt=\""@ + s.subrange(i + 2, j) + "\" src=\""@ + url
                                        + "\" />"@,
                                ),
                            ),
                            None => Some((j2 + 1, s.subrange(i, j2 + 1))),
                        }
                    } else {
                        None
                    },
                    None => None,
                }
            } else {
                None
            },
            None => None,
        }
    } else {
        None
    }
}

/// Left-to-right substitution of inline links.
pub open spec fn subst_links_from(s: Seq<char>, i: int) -> Seq<char>
    decreases s.len() - i,
{
    if i < 0 || i >= s.len() {
        Seq::empty()
    } else {
        match link_at(s, i) {
            Some(p) => p.1 + subst_links_from(s, p.0),
            None => seq![s[i]] + subst_links_from(s, i + 1),
        }
    }
}

/// Left-to-right substitution of reference-style links.
pub open spec fn subst_reflinks_from(
    s: Seq<char>,
    refs: Seq<(Seq<char>, Seq<char>)>,
    i: int,
) -> Seq<char>
    decreases s.len() - i,
{
    if i < 0 || i >= s.len() {
        Seq::empty()
    } else {
        match reflink_at(s, refs, i) {
            Some(p) => p.1 + subst_reflinks_from(s, refs, p.0),
            None => seq![s[i]] + subst_reflinks_from(s, refs, i + 1),
        }
    }
}

/// Left-to-right substitution of inline images.
pub open spec fn subst_images_from(s: Seq<char>, i: int) -> Seq<char>
    decreases s.len() - i,
{
    if i < 0 || i >= s.len() {
        Seq::empty()
    } else {
        match image_at(s, i) {
            Some(p) => p.1 + subst_images_from(s, p.0),
            None => seq![s[i]] + subst_images_from(s, i + 1),
        }
    }
}

/// Left-to-right substitution of reference-style images.
pub open spec fn subst_refimages_from(
    s: Seq<char>,
    refs: Seq<(Seq<char>, Seq<char>)>,
    i: int,
) -> Seq<char>
    decreases s.len() - i,
{
    if i < 0 || i >= s.len() {
        Seq::empty()
    } else {
        match refimage_at(s, refs, i) {
            Some(p) => p.1 + subst_refimages_from(s, refs, p.0),
            None => seq![s[i]] + subst_refimages_from(s, refs, i + 1),
        }
    }
}

fn try_link_at(s: &Vec<char>, i: usize) -> (r: Option<(usize, Vec<char>)>)
    requires
        i < s@.len(),
    ensures
        (match r {
            Some(p) => link_at(s@, i as int) == Some((p.0 as int, p.1@)) && i < p.0 <= s@.len(),
            None => link_at(s@, i as int) is None,
        }),
{
    let n = s.len();
    if s[i] != '[' {
        return None;
    }
    match find_char(s, ']', i + 1) {
        Some(j) => {
            let w = ws_run(s, j + 1);
            if i + 1 < j && w < n && s[w] == '(' {
                match find_char(s, ')', w + 1) {
                    Some(m) => {
                        if w + 1 < m {
                            let mut out = lit("<a href=\"");
                            let url = subvec(s, w + 1, m);
                            let text = subvec(s, i + 1, j);
                            let mid = lit("\">");
                            let tail = lit("</a>");
                            append_vec(&mut out, &url);
                            append_vec(&mut out, &mid);
                            append_vec(&mut out, &text);
                            append_vec(&mut out, &tail);
                            Some((m + 1, out))
                        } else {
                            None
                        }
                    },
                    None => None,
                }
            } else {
                None
            }
        },
        None => None,
    }
}

fn try_reflink_at(s: &Vec<char>, refs: &RefMap, i: usize) -> (r: Option<(usize, Vec<char>)>)
    requires
        i < s@.len(),
    ensures
        (match r {
            Some(p) => reflink_at(s@, refs@, i as int) == Some((p.0 as int, p.1@)) && i < p.0
                <= s@.len(),
            None => reflink_at(s@, refs@, i as int) is None,
        }),
{
    let n = s.len();
    if s[i] != '[' {
        return None;
    }
    match find_char(s, ']', i + 1) {
        Some(j) => {
            if i + 1 < j && j + 1 < n && s[j + 1] == '[' {
                match find_char(s, ']', j + 2) {
                    Some(j2) => {
                        if j + 2 < j2 {
                            let label = subvec(s, j + 2, j2);
                            match refs.get(&label) {
                                Some(url) => {
                                    let mut out = lit("<a href=\"");
                                    let text = subvec(s, i + 1, j);
                                    let mid = lit("\">");
                                    let tail = lit("</a>");
                                    append_vec(&mut out, &url);
                                    append_vec(&mut out, &mid);
                                    append_vec(&mut out, &text);
                                    append_vec(&mut out, &tail);
                                    Some((j2 + 1, out))
                                },
                                None => Some((j2 + 1, subvec(s, i, j2 + 1))),
                            }
                        } else {
                            None
                        }
                    },
                    None => None,
                }
            } else {
                None
            }
        },
        None => None,
    }
}

fn try_image_at(s: &Vec<char>, i: usize) -> (r: Option<(usize, Vec<char>)>)
    requires
        i < s@.len(),
    ensures
        (match r {
            Some(p) => image_at(s@, i as int) == Some((p.0 as int, p.1@)) && i < p.0 <= s@.len(),
            None => image_at(s@, i as int) is None,
        }),
{
    let n = s.len();
    if !(i + 1 < n && s[i] == '!' && s[i + 1] == '[') {
        return None;
    }
    match find_char(s, ']', i + 2) {
        Some(j) => {
            if j + 1 < n && s[j + 1] == '(' {
                match find_char(s, ')', j + 2) {
                    Some(m) => {
                        if j + 2 < m {
                            let mut out = lit("<img alt=\"");
                            let alt = subvec(s, i + 2, j);
                            let mid = lit("\" src=\"");
                            let url = subvec(s, j + 2, m);
                            let tail = lit("\" />");
                            append_vec(&mut out, &alt);
                            append_vec(&mut out, &mid);
                            append_vec(&mut out, &url);
                            append_vec(&mut out, &tail);
                            Some((m + 1, out))
                        } else {
                            None
                        }
                    },
                    None => None,
                }
            } else {
                None
            }
        },
        None => None,
    }
}

fn try_refimage_at(s: &Vec<char>, refs: &RefMap, i: usize) -> (r: Option<(usize, Vec<char>)>)
    requires
        i < s@.len(),
    ensures
        (match r {
            Some(p) => refimage_at(s@, refs@, i as int) == Some((p.0 as int, p.1@)) && i < p.0
                <= s@.len(),
            None => refimage_at(s@, refs@, i as int) is None,
        }),
{
    let n = s.len();
    if !(i + 1 < n && s[i] == '!' && s[i + 1] == '[') {
        return None;
    }
    match find_char(s, ']', i + 2) {
        Some(j) => {
            if j + 1 < n && s[j + 1] == '[' {
                match find_char(s, ']', j + 2) {
                    Some(j2) => {
                        if j + 2 < j2 {
                            let label = subvec(s, j + 2, j2);
                            match refs.get(&label) {
                                Some(url) => {
                                    let mut out = lit("<img alt=\"");
                                    let alt = subvec(s, i + 2, j);
                                    let mid = lit("\" src=\"");
                                    let tail = lit("\" />");
                                    append_vec(&mut out, &alt);
                                    append_vec(&mut out, &mid);
                                    append_vec(&mut out, &url);
                                    append_vec(&mut out, &tail);
                                    Some((j2 + 1, out))
                                },
                                None => Some((j2 + 1, subvec(s, i, j2 + 1))),
                            }
                        } else {
                            None
                        }
                    },
                    None => None,
                }
            } else {
                None
            }
        },
        None => None,
    }
}

pub fn subst_links(s: &Vec<char>) -> (r: Vec<char>)
    ensures
        r@ == subst_links_from(s@, 0),
{
    let mut out: Vec<char> = Vec::new();
    let mut i: usize = 0;
    while i < s.len()
        invariant
            i <= s@.len(),
            subst_links_from(s@, 0) == out@ + subst_links_from(s@, i as int),
        decreases s@.len() - i,
    {
        let ghost prev = out@;
        match try_link_at(s, i) {
            Some(p) => {
                append_vec(&mut out, &p.1);
                proof {
                    assert(prev + (p.1@ + subst_links_from(s@, p.0 as int)) =~= (prev + p.1@)
                        + subst_links_from(s@, p.0 as int));
                }
                i = p.0;
            },
            None => {
                out.push(s[i]);
                proof {
                    assert(out@ =~= prev + seq![s@[i as int]]);
                    assert(prev + (seq![s@[i as int]] + subst_links_from(s@, i + 1)) =~= (prev
                        + seq![s@[i as int]]) + subst_links_from(s@, i + 1));
                }
                i = i + 1;
            },
        }
    }
    proof {
        assert(out@ =~= out@ + subst_links_from(s@, s@.len() as int));
    }
    out
}

pub fn subst_reflinks(s: &Vec<char>, refs: &RefMap) -> (r: Vec<char>)
    ensures
        r@ == subst_reflinks_from(s@, refs@, 0),
{
    let mut out: Vec<char> = Vec::new();
    let mut i: usize = 0;
    while i < s.len()
        invariant
            i <= s@.len(),
            subst_reflinks_from(s@, refs@, 0) == out@ + subst_reflinks_from(s@, refs@, i as int),
        decreases s@.len() - i,
    {
        let ghost prev = out@;
        match try_reflink_at(s, refs, i) {
            Some(p) => {
                append_vec(&mut out, &p.1);
                proof {
                    assert(prev + (p.1@ + subst_reflinks_from(s@, refs@, p.0 as int)) =~= (prev
                        + p.1@) + subst_reflinks_from(s@, refs@, p.0 as int));
                }
                i = p.0;
            },
            None => {
                out.push(s[i]);
                proof {
                    assert(out@ =~= prev + seq![s@[i as int]]);
                    assert(prev + (seq![s@[i as int]] + subst_reflinks_from(s@, refs@, i + 1)) =~= (
                    prev + seq![s@[i as int]]) + subst_reflinks_from(s@, refs@, i + 1));
                }
                i = i + 1;
            },
        }
    }
    proof {
        assert(out@ =~= out@ + subst_reflinks_from(s@, refs@, s@.len() as int));
    }
    out
}

pub fn subst_images(s: &Vec<char>) -> (r: Vec<char>)
    ensures
        r@ == subst_images_from(s@, 0),
{
    let mut out: Vec<char> = Vec::new();
    let mut i: usize = 0;
    while i < s.len()
        invariant
            i <= s@.len(),
            subst_images_from(s@, 0) == out@ + subst_images_from(s@, i as int),
        decreases s@.len() - i,
    {
        let ghost prev = out@;
        match try_image_at(s, i) {
            Some(p) => {
                append_vec(&mut out, &p.1);
                proof {
                    assert(prev + (p.1@ + subst_images_from(s@, p.0 as int)) =~= (prev + p.1@)
                        + subst_images_from(s@, p.0 as int));
                }
                i = p.0;
            },
            None => {
                out.push(s[i]);
                proof {
                    assert(out@ =~= prev + seq![s@[i as int]]);
                    assert(prev + (seq![s@[i as int]] + subst_images_from(s@, i + 1)) =~= (prev
                        + seq![s@[i as int]]) + subst_images_from(s@, i + 1));
                }
                i = i + 1;
            },
        }
    }
    proof {
        assert(out@ =~= out@ + subst_images_from(s@, s@.len() as int));
    }
    out
}

pub fn subst_refimages(s: &Vec<char>, refs: &RefMap) -> (r: Vec<char>)
    ensures
        r@ == subst_refimages_from(s@, refs@, 0),
{
    let mut out: Vec<char> = Vec::new();
    let mut i: usize = 0;
    while i < s.len()
        invariant
            i <= s@.len(),
            subst_refimages_from(s@, refs@, 0) == out@ + subst_refimages_from(s@, refs@, i as int),
        decreases s@.len() - i,
    {
        let ghost prev = out@;
        match try_refimage_at(s, refs, i) {
            Some(p) => {
                append_vec(&mut out, &p.1);
                proof {
                    assert(prev + (p.1@ + subst_refimages_from(s@, refs@, p.0 as int)) =~= (prev
                        + p.1@) + subst_refimages_from(s@, refs@, p.0 as int));
                }
                i = p.0;
            },
            None => {
                out.push(s[i]);
                proof {
                    assert(out@ =~= prev + seq![s@[i as int]]);
                    assert(prev + (seq![s@[i as int]] + subst_refimages_from(s@, refs@, i + 1))
                        =~= (prev + seq![s@[i as int]]) + subst_refimages_from(s@, refs@, i + 1));
                }
                i = i + 1;
            },
        }
    }
    proof {
        assert(out@ =~= out@ + subst_refimages_from(s@, refs@, s@.len() as int));
    }
    out
}

/// Length of the run of `c` characters starting at `i`.
pub open spec fn run_of(s: Seq<char>, c: char, i: int) -> int
    decreases s.len() - i,
{
    if 0 <= i < s.len() && s[i] == c {
        1 + run_of(s, c, i + 1)
    } else {
        0
    }
}

pub fn char_run(s: &Vec<char>, c: char, from: usize) -> (r: usize)
    requires
        from <= s@.len(),
    ensures
        r as int == run_of(s@, c, from as int),
        r <= s@.len() - from,
{
    let mut k: usize = from;
    while k < s.len() && s[k] == c
        invariant
            from <= k <= s@.len(),
            run_of(s@, c, from as int) == (k - from) + run_of(s@, c, k as int),
        decreases s@.len() - k,
    {
        k = k + 1;
    }
    k - from
}

fn char_vec(c: char, n: usize) -> (r: Vec<char>)
    ensures
        r@ == Seq::new(n as nat, |k: int| c),
{
    let mut r: Vec<char> = Vec::new();
    let mut i: usize = 0;
    while i < n
        invariant
            i <= n,
            r@ == Seq::new(i as nat, |k: int| c),
        decreases n - i,
    {
        r.push(c);
        proof {
            assert(Seq::new((i + 1) as nat, |k: int| c) =~= Seq::new(i as nat, |k: int| c).push(
                c,
            ));
        }
        i = i + 1;
    }
    r
}

/// The sigil token the formatting scanner reads at position `i`: bold
/// before italics, up to three backticks, up to six `#`, a run of two or
/// more `>` anywhere but a single `>` only at the line start, `__`, `~~`.
pub open spec fn token_at(s: Seq<char>, i: int) -> Option<Seq<char>> {
    if 0 <= i < s.len() {
        let c = s[i];
        if c == '*' {
            if i + 1 < s.len() && s[i + 1] == '*' {
                Some("**"@)
            } else {
                Some("*"@)
            }
        } else if c == '`' {
            let r = run_of(s, '`', i);
            if r >= 3 {
                Some("```"@)
            } else if r == 2 {
                Some("``"@)
            } else {
                Some("`"@)
            }
        } else if c == '#' {
            let r = run_of(s, '#', i);
            Some(Seq::new(if r > 6 { 6nat } else { r as nat }, |k: int| '#'))
        } else if c == '>' {
            let r = run_of(s, '>', i);
            if r >= 2 {
                Some(Seq::new(r as nat, |k: int| '>'))
            } else if i == 0 {
                Some(Seq::new(1nat, |k: int| '>'))
            } else {
                None
            }
        } else if c == '_' {
            if i + 1 < s.len() && s[i + 1] == '_' {
                Some("__"@)
            } else {
                None
            }
        } else if c == '~' {
            if i + 1 < s.len() && s[i + 1] == '~' {
                Some("~~"@)
            } else {
                None
            }
        } else {
            None
        }
    } else {
        None
    }
}

/// A token is retained when the sigil table knows it or it is a run of
/// `>` or `#`.
pub open spec fn token_kept(t: Seq<char>) -> bool {
    markdown_map_spec().contains_key(t) || (t.len() > 0 && (t[0] == '>' || t[0] == '#'))
}

/// The retained sigil tokens of the line, in reading order.
pub open spec fn tokens_from(s: Seq<char>, i: int) -> Seq<Seq<char>>
    decreases s.len() - i,
{
    if i < 0 || i >= s.len() {
        Seq::empty()
    } else {
        match token_at(s, i) {
            Some(t) => {
                let adv = if t.len() >= 1 {
                    t.len() as int
                } else {
                    1
                };
                let nxt = if i + adv <= s.len() {
                    i + adv
                } else {
                    s.len() as int
                };
                (if token_kept(t) {
                    seq![t]
                } else {
                    Seq::empty()
                }) + tokens_from(s, nxt)
            },
            None => tokens_from(s, i + 1),
        }
    }
}

proof fn lemma_run_of_nonneg(s: Seq<char>, c: char, i: int)
    ensures
        run_of(s, c, i) >= 0,
    decreases s.len() - i,
{
    if 0 <= i < s.len() && s[i] == c {
        lemma_run_of_nonneg(s, c, i + 1);
    }
}

fn token_at_exec(s: &Vec<char>, i: usize) -> (r: Option<Vec<char>>)
    requires
        i < s@.len(),
    ensures
        (match r {
            Some(t) => token_at(s@, i as int) == Some(t@) && 0 < t@.len() <= s@.len() - i,
            None => token_at(s@, i as int) is None,
        }),
{
    let n = s.len();
    let c = s[i];
    if c == '*' {
        if i + 1 < n && s[i + 1] == '*' {
            let t = lit("**");
            proof {
                reveal_strlit("**");
            }
            Some(t)
        } else {
            let t = lit("*");
            proof {
                reveal_strlit("*");
            }
            Some(t)
        }
    } else if c == '`' {
        let r = char_run(s, '`', i);
        if r >= 3 {
            let t = lit("```");
            proof {
                reveal_strlit("```");
            }
            Some(t)
        } else if r == 2 {
            let t = lit("``");
            proof {
                reveal_strlit("``");
            }
            Some(t)
        } else {
            let t = lit("`");
            proof {
                reveal_strlit("`");
            }
            Some(t)
        }
    } else if c == '#' {
        let r = char_run(s, '#', i);
        proof {
            lemma_run_of_nonneg(s@, '#', i + 1);
        }
        let k = if r > 6 {
            6
        } else {
            r
        };
        Some(char_vec('#', k))
    } else if c == '>' {
        let r = char_run(s, '>', i);
        if r >= 2 {
            Some(char_vec('>', r))
        } else if i == 0 {
            Some(char_vec('>', 1))
        } else {
            None
        }
    } else if c == '_' {
        if i + 1 < n && s[i + 1] == '_' {
            let t = lit("__");
            proof {
                reveal_strlit("__");
            }
            Some(t)
        } else {
            None
        }
    } else if c == '~' {
        if i + 1 < n && s[i + 1] == '~' {
            let t = lit("~~");
            proof {
                reveal_strlit("~~");
            }
            Some(t)
        } else {
            None
        }
    } else {
        None
    }
}

pub fn tokenize(s: &Vec<char>, map: &MarkdownMap) -> (toks: Vec<Vec<char>>)
    requires
        map.wf(),
        map@ == markdown_map_spec(),
    ensures
        lines_view(toks@) == tokens_from(s@, 0),
        forall|k: int| 0 <= k < toks@.len() ==> toks@[k]@.len() > 0,
        forall|k: int| 0 <= k < toks@.len() ==> token_kept(toks@[k]@),
{
    let mut toks: Vec<Vec<char>> = Vec::new();
    proof {
        assert(lines_view(toks@) =~= Seq::<Seq<char>>::empty());
    }
    let mut i: usize = 0;
    while i < s.len()
        invariant
            i <= s@.len(),
            map.wf(),
            map@ == markdown_map_spec(),
            tokens_from(s@, 0) == lines_view(toks@) + tokens_from(s@, i as int),
            forall|k: int| 0 <= k < toks@.len() ==> toks@[k]@.len() > 0,
            forall|k: int| 0 <= k < toks@.len() ==> token_kept(toks@[k]@),
        decreases s@.len() - i,
    {
        let ghost prev = toks@;
        match token_at_exec(s, i) {
            Some(t) => {
                let adv = t.len();
                let kept: bool = match map.get(&t) {
                    Some(_) => true,
                    None => t[0] == '>' || t[0] == '#',
                };
                proof {
                    assert(kept == token_kept(t@));
                }
                if kept {
                    let ghost tv = t@;
                    toks.push(t);
                    proof {
                        assert(lines_view(toks@) =~= lines_view(prev).push(tv));
                        assert(lines_view(prev) + (seq![tv] + tokens_from(s@, i + adv)) =~= (
                        lines_view(prev).push(tv)) + tokens_from(s@, i + adv));
                    }
                } else {
                    proof {
                        assert(Seq::<Seq<char>>::empty() + tokens_from(s@, i + adv) =~=
                            tokens_from(s@, i + adv));
                    }
                }
                i = i + adv;
            },
            None => {
                i = i + 1;
            },
        }
    }
    proof {
        assert(lines_view(toks@) =~= lines_view(toks@) + tokens_from(s@, s@.len() as int));
    }
    toks
}

/// The HTML element name for a retained token.
pub open spec fn tag_of(t: Seq<char>) -> Seq<char> {
    if t.len() > 0 && t[0] == '>' {
        "blockquote"@
    } else if t.len() > 0 && t[0] == '#' {
        "h"@
    } else if t == "**"@ {
        "strong"@
    } else if t == "*"@ {
        "em"@
    } else if t == "__"@ {
        "ins"@
    } else if t == "~~"@ {
        "del"@
    } else if t == "`"@ {
        "code"@
    } else if t == "```"@ {
        "pre"@
    } else {
        Seq::empty()
    }
}

fn token_tag(map: &MarkdownMap, t: &Vec<char>) -> (r: Option<Vec<char>>)
    requires
        map.wf(),
        map@ == markdown_map_spec(),
        t@.len() > 0,
    ensures
        (r is Some) == token_kept(t@),
        (match r {
            Some(v) => v@ == tag_of(t@),
            None => true,
        }),
{
    match map.get(t) {
        Some(v) => {
            proof {
                reveal_strlit("#");
                reveal_strlit("**");
                reveal_strlit("*");
                reveal_strlit(">");
                reveal_strlit("__");
                reveal_strlit("~~");
                reveal_strlit("`");
                reveal_strlit("```");
                assert("#"@.len() == 1 && "#"@[0] == '#');
                assert("**"@.len() == 2 && "**"@[0] == '*');
                assert("*"@.len() == 1 && "*"@[0] == '*');
                assert(">"@.len() == 1 && ">"@[0] == '>');
                assert("__"@.len() == 2 && "__"@[0] == '_');
                assert("~~"@.len() == 2 && "~~"@[0] == '~');
                assert("`"@.len() == 1 && "`"@[0] == '`');
                assert("```"@.len() == 3 && "```"@[0] == '`');
                assert(t@ == "#"@ || t@ == "**"@ || t@ == "*"@ || t@ == ">"@ || t@ == "__"@ || t@
                    == "~~"@ || t@ == "`"@ || t@ == "```"@);
                assert(v@ == tag_of(t@));
            }
            Some(v)
        },
        None => {
            if t[0] == '>' {
                Some(lit("blockquote"))
            } else if t[0] == '#' {
                Some(lit("h"))
            } else {
                None
            }
        },
    }
}

/// The `&emsp;` padding repeated `n` times.
pub open spec fn repeat_emsp(n: int) -> Seq<char>
    decreases n,
{
    if n <= 0 {
        Seq::empty()
    } else {
        "&emsp;"@ + repeat_emsp(n - 1)
    }
}

proof fn lemma_repeat_emsp_snoc(n: int)
    requires
        n >= 0,
    ensures
        repeat_emsp(n) + "&emsp;"@ == repeat_emsp(n + 1),
    decreases n,
{
    if n == 0 {
        assert(Seq::empty() + "&emsp;"@ =~= "&emsp;"@ + Seq::empty());
    } else {
        lemma_repeat_emsp_snoc(n - 1);
        assert(("&emsp;"@ + repeat_emsp(n - 1)) + "&emsp;"@ =~= "&emsp;"@ + (repeat_emsp(n - 1)
            + "&emsp;"@));
    }
}

pub open spec fn open_of(tag: Seq<char>) -> Seq<char> {
    seq!['<'] + tag + seq!['>']
}

pub open spec fn close_of(tag: Seq<char>) -> Seq<char> {
    seq!['<', '/'] + tag + seq!['>']
}

fn open_of_exec(tag: &Vec<char>) -> (r: Vec<char>)
    ensures
        r@ == open_of(tag@),
{
    let mut r: Vec<char> = Vec::new();
    r.push('<');
    append_vec(&mut r, tag);
    r.push('>');
    proof {
        assert(r@ =~= open_of(tag@));
    }
    r
}

fn close_of_exec(tag: &Vec<char>) -> (r: Vec<char>)
    ensures
        r@ == close_of(tag@),
{
    let mut r: Vec<char> = Vec::new();
    r.push('<');
    r.push('/');
    append_vec(&mut r, tag);
    r.push('>');
    proof {
        assert(r@ =~= close_of(tag@));
    }
    r
}

/// The digit of a heading level, clamped to the `h1`..`h6` range.
pub open spec fn heading_digit(n: int) -> char {
    if n <= 1 {
        '1'
    } else if n == 2 {
        '2'
    } else if n == 3 {
        '3'
    } else if n == 4 {
        '4'
    } else if n == 5 {
        '5'
    } else {
        '6'
    }
}

pub open spec fn h_open(n: int) -> Seq<char> {
    seq!['<', 'h', heading_digit(n), '>']
}

pub open spec fn h_close(n: int) -> Seq<char> {
    seq!['<', '/', 'h', heading_digit(n), '>']
}

fn heading_digit_exec(n: usize) -> (c: char)
    ensures
        c == heading_digit(n as int),
{
    if n <= 1 {
        '1'
    } else if n == 2 {
        '2'
    } else if n == 3 {
        '3'
    } else if n == 4 {
        '4'
    } else if n == 5 {
        '5'
    } else {
        '6'
    }
}

/// The heading sigil replaced by its opening tag; one space directly
/// after the sigil is absorbed, so `# Hello` yields `<h1>Hello`.
pub open spec fn replace_heading_spec(work: Seq<char>, t: Seq<char>, n: int) -> Seq<char> {
    match first_match_from(work, t, 0) {
        Some(i) => {
            let e = i + t.len();
            let e2 = if e < work.len() && work[e] == ' ' {
                e + 1
            } else {
                e
            };
            work.subrange(0, i) + h_open(n) + work.subrange(e2, work.len() as int)
        },
        None => work,
    }
}

fn replace_heading(work: &Vec<char>, t: &Vec<char>, n: usize) -> (r: Vec<char>)
    requires
        t@.len() > 0,
    ensures
        r@ == replace_heading_spec(work@, t@, n as int),
{
    match find_sub(work, t, 0) {
        Some(i) => {
            let wl = work.len();
            let e = i + t.len();
            let e2 = if e < wl && work[e] == ' ' {
                e + 1
            } else {
                e
            };
            let mut r = subvec(work, 0, i);
            r.push('<');
            r.push('h');
            r.push(heading_digit_exec(n));
            r.push('>');
            let tail = subvec(work, e2, work.len());
            append_vec(&mut r, &tail);
            proof {
                assert(r@ =~= work@.subrange(0, i as int) + h_open(n as int) + work@.subrange(
                    e2 as int,
                    work@.len() as int,
                ));
            }
            r
        },
        None => subvec(work, 0, work.len()),
    }
}

/// One step of the inline-formatting pass for the token `t`: an even
/// occurrence count pairs openers with closers in order; an odd count
/// opens at the first occurrence and closes at the fragment end, with
/// headings, blockquotes and the code-fence toggle handled apart.
pub open spec fn fold_step(line: Seq<char>, t: Seq<char>, work: Seq<char>, code: bool) -> (
    Seq<char>,
    bool,
) {
    let tag = tag_of(t);
    let cnt = count_from(line, t, 0);
    if cnt % 2 == 0 {
        (
            replace_first_spec(replace_first_spec(work, t, open_of(tag)), t, close_of(tag)),
            code,
        )
    } else if t.len() > 0 && t[0] == '>' {
        (
            replace_first_spec(work, t, open_of(tag) + seq![' '] + repeat_emsp(t.len() - 1))
                + close_of(tag),
            code,
        )
    } else if t == "```"@ {
        if code {
            (replace_first_spec(work, t, close_of(tag)), false)
        } else {
            (replace_first_spec(work, t, open_of(tag)), true)
        }
    } else if t.len() > 0 && t[0] == '#' {
        (replace_heading_spec(work, t, t.len() as int) + h_close(t.len() as int), code)
    } else {
        (replace_first_spec(work, t, open_of(tag)) + close_of(tag), code)
    }
}

/// The inline-formatting pass over the retained tokens, in order.
pub open spec fn fold_tokens(
    line: Seq<char>,
    toks: Seq<Seq<char>>,
    j: int,
    work: Seq<char>,
    code: bool,
) -> (Seq<char>, bool)
    decreases toks.len() - j,
{
    if j < 0 || j >= toks.len() {
        (work, code)
    } else {
        let st = fold_step(line, toks[j], work, code);
        fold_tokens(line, toks, j + 1, st.0, st.1)
    }
}

/// Applies the inline-formatting pass of the line's sigil tokens to the
/// working fragment, threading the open-code-block flag.
pub fn inline_pass(line: &Vec<char>, map: &MarkdownMap, work: Vec<char>, code: bool) -> (r: (
    Vec<char>,
    bool,
))
    requires
        map.wf(),
        map@ == markdown_map_spec(),
    ensures
        (r.0@, r.1) == fold_tokens(line@, tokens_from(line@, 0), 0, work@, code),
{
    let toks = tokenize(line, map);
    let ghost tks = tokens_from(line@, 0);
    let mut cur = work;
    let mut curcode = code;
    let mut j: usize = 0;
    let bt3 = lit("```");
    while j < toks.len()
        invariant
            j <= toks@.len(),
            map.wf(),
            map@ == markdown_map_spec(),
            bt3@ == "```"@,
            lines_view(toks@) == tks,
            forall|k: int| 0 <= k < toks@.len() ==> toks@[k]@.len() > 0,
            forall|k: int| 0 <= k < toks@.len() ==> token_kept(toks@[k]@),
            fold_tokens(line@, tks, 0, work@, code) == fold_tokens(
                line@,
                tks,
                j as int,
                cur@,
                curcode,
            ),
        decreases toks@.len() - j,
    {
        proof {
            assert(tks[j as int] == toks@[j as int]@);
        }
        let t = &toks[j];
        let tag = match token_tag(map, t) {
            Some(v) => v,
            None => {
                proof {
                    assert(false);
                }
                Vec::new()
            },
        };
        let cnt = count_sub(line, t);
        if cnt % 2 == 0 {
            let o = open_of_exec(&tag);
            let c = close_of_exec(&tag);
            let w1 = replace_first(&cur, t, &o);
            let w2 = replace_first(&w1, t, &c);
            cur = w2;
        } else if t[0] == '>' {
            let mut ob = open_of_exec(&tag);
            ob.push(' ');
            proof {
                assert(ob@ =~= open_of(tag_of(t@)) + seq![' '] + repeat_emsp(0));
            }
            let emsp = lit("&emsp;");
            let mut k: usize = 1;
            while k < t.len()
                invariant
                    1 <= k,
                    k <= t@.len() || k == 1,
                    emsp@ == "&emsp;"@,
                    ob@ == open_of(tag_of(t@)) + seq![' '] + repeat_emsp(k - 1),
                decreases t@.len() - k,
            {
                let ghost prevob = ob@;
                append_vec(&mut ob, &emsp);
                proof {
                    lemma_repeat_emsp_snoc(k - 1);
                    assert((open_of(tag_of(t@)) + seq![' '] + repeat_emsp(k - 1)) + "&emsp;"@ =~=
                        open_of(tag_of(t@)) + seq![' '] + (repeat_emsp(k - 1) + "&emsp;"@));
                }
                k = k + 1;
            }
            let w1 = replace_first(&cur, t, &ob);
            let c = close_of_exec(&tag);
            let mut w2 = w1;
            append_vec(&mut w2, &c);
            cur = w2;
        } else if vec_eq(t, &bt3) {
            if curcode {
                let c = close_of_exec(&tag);
                cur = replace_first(&cur, t, &c);
                curcode = false;
            } else {
                let o = open_of_exec(&tag);
                cur = replace_first(&cur, t, &o);
                curcode = true;
            }
        } else if t[0] == '#' {
            let n = t.len();
            let w1 = replace_heading(&cur, t, n);
            let mut w2 = w1;
            w2.push('<');
            w2.push('/');
            w2.push('h');
            w2.push(heading_digit_exec(n));
            w2.push('>');
            proof {
                assert(w2@ =~= replace_heading_spec(cur@, t@, t@.len() as int) + h_close(
                    t@.len() as int,
                ));
            }
            cur = w2;
        } else {
            let o = open_of_exec(&tag);
            let w1 = replace_first(&cur, t, &o);
            let c = close_of_exec(&tag);
            let mut w2 = w1;
            append_vec(&mut w2, &c);
            cur = w2;
        }
        j = j + 1;
    }
    (cur, curcode)
}

} // verus!
