use vstd::prelude::*;

verus! {

/// One Markdown whitespace character: the Unicode white-space set that the
/// line scanner strips and that separates list markers from their content.
pub open spec fn is_ws_char(c: char) -> bool {
    c == ' ' || c == '\t' || c == '\n' || c == '\r' || c == '\u{0b}' || c == '\u{0c}'
        || c == '\u{85}' || c == '\u{a0}' || c == '\u{1680}' || c == '\u{2000}'
        || c == '\u{2001}' || c == '\u{2002}' || c == '\u{2003}' || c == '\u{2004}'
        || c == '\u{2005}' || c == '\u{2006}' || c == '\u{2007}' || c == '\u{2008}'
        || c == '\u{2009}' || c == '\u{200a}' || c == '\u{2028}' || c == '\u{2029}'
        || c == '\u{202f}' || c == '\u{205f}' || c == '\u{3000}'
}

pub fn is_ws(c: char) -> (b: bool)
    ensures
        b == is_ws_char(c),
{
    match c {
        ' ' | '\t' | '\n' | '\r' | '\u{0b}' | '\u{0c}' | '\u{85}' | '\u{a0}' | '\u{1680}'
        | '\u{2000}' | '\u{2001}' | '\u{2002}' | '\u{2003}' | '\u{2004}' | '\u{2005}'
        | '\u{2006}' | '\u{2007}' | '\u{2008}' | '\u{2009}' | '\u{200a}' | '\u{2028}'
        | '\u{2029}' | '\u{202f}' | '\u{205f}' | '\u{3000}' => true,
        _ => false,
    }
}

/// A decimal digit as an ordered-list marker is made of: any character
/// of the Unicode decimal-number category, ASCII `0`..`9` first.
pub open spec fn is_digit_char(c: char) -> bool {
    ('0' <= c && c <= '9') || ('\u{0660}' <= c && c <= '\u{0669}')
        || ('\u{06f0}' <= c && c <= '\u{06f9}') || ('\u{07c0}' <= c && c <= '\u{07c9}')
        || ('\u{0966}' <= c && c <= '\u{096f}') || ('\u{09e6}' <= c && c <= '\u{09ef}')
        || ('\u{0a66}' <= c && c <= '\u{0a6f}') || ('\u{0ae6}' <= c && c <= '\u{0aef}')
        || ('\u{0b66}' <= c && c <= '\u{0b6f}') || ('\u{0be6}' <= c && c <= '\u{0bef}')
        || ('\u{0c66}' <= c && c <= '\u{0c6f}') || ('\u{0ce6}' <= c && c <= '\u{0cef}')
        || ('\u{0d66}' <= c && c <= '\u{0d6f}') || ('\u{0de6}' <= c && c <= '\u{0def}')
        || ('\u{0e50}' <= c && c <= '\u{0e59}') || ('\u{0ed0}' <= c && c <= '\u{0ed9}')
        || ('\u{0f20}' <= c && c <= '\u{0f29}') || ('\u{1040}' <= c && c <= '\u{1049}')
        || ('\u{1090}' <= c && c <= '\u{1099}') || ('\u{17e0}' <= c && c <= '\u{17e9}')
        || ('\u{1810}' <= c && c <= '\u{1819}') || ('\u{1946}' <= c && c <= '\u{194f}')
        || ('\u{19d0}' <= c && c <= '\u{19d9}') || ('\u{1a80}' <= c && c <= '\u{1a89}')
        || ('\u{1a90}' <= c && c <= '\u{1a99}') || ('\u{1b50}' <= c && c <= '\u{1b59}')
        || ('\u{1bb0}' <= c && c <= '\u{1bb9}') || ('\u{1c40}' <= c && c <= '\u{1c49}')
        || ('\u{1c50}' <= c && c <= '\u{1c59}') || ('\u{a620}' <= c && c <= '\u{a629}')
        || ('\u{a8d0}' <= c && c <= '\u{a8d9}') || ('\u{a900}' <= c && c <= '\u{a909}')
        || ('\u{a9d0}' <= c && c <= '\u{a9d9}') || ('\u{a9f0}' <= c && c <= '\u{a9f9}')
        || ('\u{aa50}' <= c && c <= '\u{aa59}') || ('\u{abf0}' <= c && c <= '\u{abf9}')
        || ('\u{ff10}' <= c && c <= '\u{ff19}') || ('\u{104a0}' <= c && c <= '\u{104a9}')
        || ('\u{10d30}' <= c && c <= '\u{10d39}') || ('\u{11066}' <= c && c <= '\u{1106f}')
        || ('\u{110f0}' <= c && c <= '\u{110f9}') || ('\u{11136}' <= c && c <= '\u{1113f}')
        || ('\u{111d0}' <= c && c <= '\u{111d9}') || ('\u{112f0}' <= c && c <= '\u{112f9}')
        || ('\u{11450}' <= c && c <= '\u{11459}') || ('\u{114d0}' <= c && c <= '\u{114d9}')
        || ('\u{11650}' <= c && c <= '\u{11659}') || ('\u{116c0}' <= c && c <= '\u{116c9}')
        || ('\u{11730}' <= c && c <= '\u{11739}') || ('\u{118e0}' <= c && c <= '\u{118e9}')
        || ('\u{11950}' <= c && c <= '\u{11959}') || ('\u{11c50}' <= c && c <= '\u{11c59}')
        || ('\u{11d50}' <= c && c <= '\u{11d59}') || ('\u{11da0}' <= c && c <= '\u{11da9}')
        || ('\u{16a60}' <= c && c <= '\u{16a69}') || ('\u{16ac0}' <= c && c <= '\u{16ac9}')
        || ('\u{16b50}' <= c && c <= '\u{16b59}') || ('\u{1d7ce}' <= c && c <= '\u{1d7ff}')
        || ('\u{1e140}' <= c && c <= '\u{1e149}') || ('\u{1e2f0}' <= c && c <= '\u{1e2f9}')
        || ('\u{1e950}' <= c && c <= '\u{1e959}') || ('\u{1fbf0}' <= c && c <= '\u{1fbf9}')
}

pub fn is_digit(c: char) -> (b: bool)
    ensures
        b == is_digit_char(c),
{
    ('0' <= c && c <= '9') || ('\u{0660}' <= c && c <= '\u{0669}')
        || ('\u{06f0}' <= c && c <= '\u{06f9}') || ('\u{07c0}' <= c && c <= '\u{07c9}')
        || ('\u{0966}' <= c && c <= '\u{096f}') || ('\u{09e6}' <= c && c <= '\u{09ef}')
        || ('\u{0a66}' <= c && c <= '\u{0a6f}') || ('\u{0ae6}' <= c && c <= '\u{0aef}')
        || ('\u{0b66}' <= c && c <= '\u{0b6f}') || ('\u{0be6}' <= c && c <= '\u{0bef}')
        || ('\u{0c66}' <= c && c <= '\u{0c6f}') || ('\u{0ce6}' <= c && c <= '\u{0cef}')
        || ('\u{0d66}' <= c && c <= '\u{0d6f}') || ('\u{0de6}' <= c && c <= '\u{0def}')
        || ('\u{0e50}' <= c && c <= '\u{0e59}') || ('\u{0ed0}' <= c && c <= '\u{0ed9}')
        || ('\u{0f20}' <= c && c <= '\u{0f29}') || ('\u{1040}' <= c && c <= '\u{1049}')
        || ('\u{1090}' <= c && c <= '\u{1099}') || ('\u{17e0}' <= c && c <= '\u{17e9}')
        || ('\u{1810}' <= c && c <= '\u{1819}') || ('\u{1946}' <= c && c <= '\u{194f}')
        || ('\u{19d0}' <= c && c <= '\u{19d9}') || ('\u{1a80}' <= c && c <= '\u{1a89}')
        || ('\u{1a90}' <= c && c <= '\u{1a99}') || ('\u{1b50}' <= c && c <= '\u{1b59}')
        || ('\u{1bb0}' <= c && c <= '\u{1bb9}') || ('\u{1c40}' <= c && c <= '\u{1c49}')
        || ('\u{1c50}' <= c && c <= '\u{1c59}') || ('\u{a620}' <= c && c <= '\u{a629}')
        || ('\u{a8d0}' <= c && c <= '\u{a8d9}') || ('\u{a900}' <= c && c <= '\u{a909}')
        || ('\u{a9d0}' <= c && c <= '\u{a9d9}') || ('\u{a9f0}' <= c && c <= '\u{a9f9}')
        || ('\u{aa50}' <= c && c <= '\u{aa59}') || ('\u{abf0}' <= c && c <= '\u{abf9}')
        || ('\u{ff10}' <= c && c <= '\u{ff19}') || ('\u{104a0}' <= c && c <= '\u{104a9}')
        || ('\u{10d30}' <= c && c <= '\u{10d39}') || ('\u{11066}' <= c && c <= '\u{1106f}')
        || ('\u{110f0}' <= c && c <= '\u{110f9}') || ('\u{11136}' <= c && c <= '\u{1113f}')
        || ('\u{111d0}' <= c && c <= '\u{111d9}') || ('\u{112f0}' <= c && c <= '\u{112f9}')
        || ('\u{11450}' <= c && c <= '\u{11459}') || ('\u{114d0}' <= c && c <= '\u{114d9}')
        || ('\u{11650}' <= c && c <= '\u{11659}') || ('\u{116c0}' <= c && c <= '\u{116c9}')
        || ('\u{11730}' <= c && c <= '\u{11739}') || ('\u{118e0}' <= c && c <= '\u{118e9}')
        || ('\u{11950}' <= c && c <= '\u{11959}') || ('\u{11c50}' <= c && c <= '\u{11c59}')
        || ('\u{11d50}' <= c && c <= '\u{11d59}') || ('\u{11da0}' <= c && c <= '\u{11da9}')
        || ('\u{16a60}' <= c && c <= '\u{16a69}') || ('\u{16ac0}' <= c && c <= '\u{16ac9}')
        || ('\u{16b50}' <= c && c <= '\u{16b59}') || ('\u{1d7ce}' <= c && c <= '\u{1d7ff}')
        || ('\u{1e140}' <= c && c <= '\u{1e149}') || ('\u{1e2f0}' <= c && c <= '\u{1e2f9}')
        || ('\u{1e950}' <= c && c <= '\u{1e959}') || ('\u{1fbf0}' <= c && c <= '\u{1fbf9}')
}

/// First index at or after `i` holding a non-whitespace character
/// (`s.len()` if none); the end of the whitespace run that starts at `i`.
pub open spec fn ws_run_from(s: Seq<char>, i: int) -> int
    decreases s.len() - i,
{
    if 0 <= i < s.len() && is_ws_char(s[i]) {
        ws_run_from(s, i + 1)
    } else {
        i
    }
}

pub proof fn lemma_ws_run_from(s: Seq<char>, i: int)
    requires
        0 <= i <= s.len(),
    ensures
        i <= ws_run_from(s, i) <= s.len(),
        forall|j: int| i <= j < ws_run_from(s, i) ==> is_ws_char(s[j]),
        ws_run_from(s, i) < s.len() ==> !is_ws_char(s[ws_run_from(s, i)]),
    decreases s.len() - i,
{
    if i < s.len() && is_ws_char(s[i]) {
        lemma_ws_run_from(s, i + 1);
    }
}

pub fn ws_run(s: &Vec<char>, from: usize) -> (r: usize)
    requires
        from <= s@.len(),
    ensures
        r as int == ws_run_from(s@, from as int),
        from <= r <= s@.len(),
{
    let mut i: usize = from;
    while i < s.len() && is_ws(s[i])
        invariant
            from <= i <= s@.len(),
            ws_run_from(s@, from as int) == ws_run_from(s@, i as int),
        decreases s@.len() - i,
    {
        i = i + 1;
    }
    i
}

/// First position `j <= end` such that every character of `s[j..end]` is
/// whitespace and `s[j-1]` (if any) is not: where trailing whitespace begins.
pub open spec fn ws_end_run(s: Seq<char>, j: int) -> int
    decreases j,
{
    if 0 < j <= s.len() && is_ws_char(s[j - 1]) {
        ws_end_run(s, j - 1)
    } else {
        j
    }
}

pub fn ws_end(s: &Vec<char>) -> (r: usize)
    ensures
        r as int == ws_end_run(s@, s@.len() as int),
        r <= s@.len(),
{
    let mut j: usize = s.len();
    while j > 0 && is_ws(s[j - 1])
        invariant
            j <= s@.len(),
            ws_end_run(s@, s@.len() as int) == ws_end_run(s@, j as int),
        decreases j,
    {
        j = j - 1;
    }
    j
}

/// The line with leading and trailing whitespace removed.
pub open spec fn trim_spec(s: Seq<char>) -> Seq<char> {
    let a = ws_run_from(s, 0);
    let b = ws_end_run(s, s.len() as int);
    if a < b {
        s.subrange(a, b)
    } else {
        Seq::empty()
    }
}

pub fn trim(s: &Vec<char>) -> (r: Vec<char>)
    ensures
        r@ == trim_spec(s@),
{
    let a = ws_run(s, 0);
    let b = ws_end(s);
    if a < b {
        subvec(s, a, b)
    } else {
        Vec::new()
    }
}

pub fn subvec(s: &Vec<char>, a: usize, b: usize) -> (r: Vec<char>)
    requires
        a <= b,
        b <= s@.len(),
    ensures
        r@ == s@.subrange(a as int, b as int),
{
    let mut r: Vec<char> = Vec::new();
    let mut i: usize = a;
    while i < b
        invariant
            a <= i <= b,
            b <= s@.len(),
            r@ == s@.subrange(a as int, i as int),
        decreases b - i,
    {
        r.push(s[i]);
        proof {
            assert(s@.subrange(a as int, i + 1) =~= s@.subrange(a as int, i as int).push(
                s@[i as int],
            ));
        }
        i = i + 1;
    }
    r
}

pub fn append_vec(dst: &mut Vec<char>, src: &Vec<char>)
    ensures
        final(dst)@ == old(dst)@ + src@,
{
    let mut i: usize = 0;
    while i < src.len()
        invariant
            i <= src@.len(),
            dst@ == old(dst)@ + src@.subrange(0, i as int),
        decreases src@.len() - i,
    {
        dst.push(src[i]);
        proof {
            assert(src@.subrange(0, i + 1) =~= src@.subrange(0, i as int).push(src@[i as int]));
            assert(old(dst)@ + src@.subrange(0, i as int).push(src@[i as int]) =~= (old(dst)@
                + src@.subrange(0, i as int)).push(src@[i as int]));
        }
        i = i + 1;
    }
    proof {
        assert(src@.subrange(0, src@.len() as int) =~= src@);
    }
}

/// Builds the character sequence of a string literal; lets executable code
/// produce the fixed HTML fragments that the specifications name as literals.
pub fn lit(s: &str) -> (r: Vec<char>)
    ensures
        r@ == s@,
{
    let n = s.unicode_len();
    let mut r: Vec<char> = Vec::new();
    let mut i: usize = 0;
    while i < n
        invariant
            i <= n,
            n as nat == s@.len(),
            r@ == s@.subrange(0, i as int),
        decreases n - i,
    {
        r.push(s.get_char(i));
        proof {
            assert(s@.subrange(0, i + 1) =~= s@.subrange(0, i as int).push(s@[i as int]));
        }
        i = i + 1;
    }
    proof {
        assert(s@.subrange(0, s@.len() as int) =~= s@);
    }
    r
}

pub fn vec_eq(a: &Vec<char>, b: &Vec<char>) -> (r: bool)
    ensures
        r == (a@ == b@),
{
    if a.len() != b.len() {
        return false;
    }
    let mut i: usize = 0;
    while i < a.len()
        invariant
            i <= a@.len(),
            a@.len() == b@.len(),
            forall|j: int| 0 <= j < i ==> a@[j] == b@[j],
        decreases a@.len() - i,
    {
        if a[i] != b[i] {
            return false;
        }
        i = i + 1;
    }
    proof {
        assert(a@ =~= b@);
    }
    true
}

pub fn contains_char(s: &Vec<char>, c: char) -> (r: bool)
    ensures
        r == s@.contains(c),
{
    let mut i: usize = 0;
    while i < s.len()
        invariant
            i <= s@.len(),
            forall|j: int| 0 <= j < i ==> s@[j] != c,
        decreases s@.len() - i,
    {
        if s[i] == c {
            return true;
        }
        i = i + 1;
    }
    false
}

/// First index at or after `i` holding character `c`, if any.
pub open spec fn find_char_from(s: Seq<char>, c: char, i: int) -> Option<int>
    decreases s.len() - i,
{
    if i < 0 || i >= s.len() {
        None
    } else if s[i] == c {
        Some(i)
    } else {
        find_char_from(s, c, i + 1)
    }
}

pub fn find_char(s: &Vec<char>, c: char, from: usize) -> (r: Option<usize>)
    requires
        from <= s@.len(),
    ensures
        (match r {
            Some(j) => find_char_from(s@, c, from as int) == Some(j as int) && from <= j
                < s@.len() && s@[j as int] == c,
            None => find_char_from(s@, c, from as int) is None,
        }),
{
    let mut i: usize = from;
    while i < s.len()
        invariant
            from <= i <= s@.len(),
            find_char_from(s@, c, from as int) == find_char_from(s@, c, i as int),
        decreases s@.len() - i,
    {
        if s[i] == c {
            return Some(i);
        }
        i = i + 1;
    }
    None
}

/// The pattern occurs in `s` starting at index `i`.
pub open spec fn matches_at(s: Seq<char>, pat: Seq<char>, i: int) -> bool {
    0 <= i && i + pat.len() <= s.len() && s.subrange(i, i + pat.len()) == pat
}

pub fn is_match_at(s: &Vec<char>, pat: &Vec<char>, i: usize) -> (b: bool)
    requires
        i <= s@.len(),
    ensures
        b == matches_at(s@, pat@, i as int),
{
    if pat.len() > s.len() - i {
        return false;
    }
    let mut j: usize = 0;
    while j < pat.len()
        invariant
            j <= pat@.len(),
            i + pat@.len() <= s@.len(),
            forall|k: int| 0 <= k < j ==> s@[i + k] == pat@[k],
        decreases pat@.len() - j,
    {
        let _slen = s.len();
        proof {
            assert(i + j < s@.len());
        }
        if s[i + j] != pat[j] {
            proof {
                assert(s@.subrange(i as int, i + pat@.len())[j as int] == s@[i + j]);
            }
            return false;
        }
        j = j + 1;
    }
    proof {
        assert(s@.subrange(i as int, i + pat@.len()) =~= pat@);
    }
    true
}

/// First index at or after `i` where the pattern occurs, if any.
pub open spec fn first_match_from(s: Seq<char>, pat: Seq<char>, i: int) -> Option<int>
    decreases s.len() - i,
{
    if pat.len() == 0 || i < 0 || i + pat.len() > s.len() {
        None
    } else if matches_at(s, pat, i) {
        Some(i)
    } else {
        first_match_from(s, pat, i + 1)
    }
}

pub proof fn lemma_first_match_from(s: Seq<char>, pat: Seq<char>, i: int)
    requires
        0 <= i,
    ensures
        first_match_from(s, pat, i) matches Some(j) ==> i <= j && matches_at(s, pat, j),
    decreases s.len() - i,
{
    if pat.len() > 0 && i + pat.len() <= s.len() && !matches_at(s, pat, i) {
        lemma_first_match_from(s, pat, i + 1);
    }
}

pub fn find_sub(s: &Vec<char>, pat: &Vec<char>, from: usize) -> (r: Option<usize>)
    requires
        from <= s@.len(),
        pat@.len() > 0,
    ensures
        (match r {
            Some(j) => first_match_from(s@, pat@, from as int) == Some(j as int) && j
                + pat@.len() <= s@.len() && from <= j,
            None => first_match_from(s@, pat@, from as int) is None,
        }),
{
    let mut i: usize = from;
    loop
        invariant
            from <= i <= s@.len() + 1,
            pat@.len() > 0,
            first_match_from(s@, pat@, from as int) == first_match_from(s@, pat@, i as int),
        decreases s@.len() + 1 - i,
    {
        if pat.len() > s.len() || i > s.len() - pat.len() {
            proof {
                assert(first_match_from(s@, pat@, i as int) is None);
            }
            return None;
        }
        if is_match_at(s, pat, i) {
            return Some(i);
        }
        i = i + 1;
    }
}

/// Leftmost occurrence of `pat` replaced by `repl`; the line unchanged
/// when the pattern does not occur.
pub open spec fn replace_first_spec(s: Seq<char>, pat: Seq<char>, repl: Seq<char>) -> Seq<char> {
    match first_match_from(s, pat, 0) {
        Some(i) => s.subrange(0, i) + repl + s.subrange(i + pat.len(), s.len() as int),
        None => s,
    }
}

pub fn replace_first(s: &Vec<char>, pat: &Vec<char>, repl: &Vec<char>) -> (r: Vec<char>)
    requires
        pat@.len() > 0,
    ensures
        r@ == replace_first_spec(s@, pat@, repl@),
{
    match find_sub(s, pat, 0) {
        Some(i) => {
            proof {
                lemma_first_match_from(s@, pat@, 0);
            }
            let send = s.len();
            let mut r = subvec(s, 0, i);
            let tail = subvec(s, i + pat.len(), send);
            append_vec(&mut r, repl);
            append_vec(&mut r, &tail);
            r
        },
        None => subvec(s, 0, s.len()),
    }
}

/// How many times `pat` occurs in `s[i..]`, counting from the left and
/// never overlapping, the way repeated substitution consumes occurrences.
pub open spec fn count_from(s: Seq<char>, pat: Seq<char>, i: int) -> nat
    decreases s.len() - i,
{
    if pat.len() == 0 || i < 0 || i + pat.len() > s.len() {
        0
    } else if matches_at(s, pat, i) {
        1 + count_from(s, pat, i + pat.len())
    } else {
        count_from(s, pat, i + 1)
    }
}

pub fn count_sub(s: &Vec<char>, pat: &Vec<char>) -> (r: usize)
    requires
        pat@.len() > 0,
    ensures
        r as nat == count_from(s@, pat@, 0),
{
    let mut i: usize = 0;
    let mut n: usize = 0;
    loop
        invariant
            pat@.len() > 0,
            i <= s@.len() + 1,
            count_from(s@, pat@, 0) == n + count_from(s@, pat@, i as int),
            n <= i,
        decreases s@.len() + 1 - i,
    {
        if pat.len() > s.len() || i > s.len() - pat.len() {
            proof {
                assert(count_from(s@, pat@, i as int) == 0);
            }
            return n;
        }
        if is_match_at(s, pat, i) {
            n = n + 1;
            i = i + pat.len();
        } else {
            i = i + 1;
        }
    }
}

/// The `"---"` run marker that the table-alignment probe looks for.
pub open spec fn contains_dashes(s: Seq<char>) -> bool {
    first_match_from(s, seq!['-', '-', '-'], 0) is Some
}

pub fn has_dashes(s: &Vec<char>) -> (r: bool)
    ensures
        r == contains_dashes(s@),
{
    let mut pat: Vec<char> = Vec::new();
    pat.push('-');
    pat.push('-');
    pat.push('-');
    proof {
        assert(pat@ =~= seq!['-', '-', '-']);
    }
    match find_sub(s, &pat, 0) {
        Some(_) => true,
        None => false,
    }
}

} // verus!
