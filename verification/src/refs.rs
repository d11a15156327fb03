use vstd::prelude::*;
use crate::text::{
    matches_at, is_match_at, ws_run_from, ws_run, find_char_from, find_char, subvec, vec_eq,
};

verus! {

/// One collected link-reference definition: a label and its URL.
pub struct RefEntry {
    pub label: Vec<char>,
    pub url: Vec<char>,
}

/// The reference map: label/URL pairs in insertion order, labels unique.
pub struct RefMap {
    pub entries: Vec<RefEntry>,
}

impl View for RefMap {
    type V = Seq<(Seq<char>, Seq<char>)>;

    open spec fn view(&self) -> Seq<(Seq<char>, Seq<char>)> {
        Seq::new(self.entries@.len(), |i: int| (self.entries@[i].label@, self.entries@[i].url@))
    }
}

/// The URL stored for a label: the first pair that carries it.
pub open spec fn lookup_ref(refs: Seq<(Seq<char>, Seq<char>)>, k: Seq<char>) -> Option<Seq<char>>
    decreases refs.len(),
{
    if refs.len() == 0 {
        None
    } else if refs[0].0 == k {
        Some(refs[0].1)
    } else {
        lookup_ref(refs.drop_first(), k)
    }
}

/// Inserting overwrites the value of an existing label in place and
/// appends a fresh label at the end.
pub open spec fn insert_ref(
    refs: Seq<(Seq<char>, Seq<char>)>,
    k: Seq<char>,
    v: Seq<char>,
) -> Seq<(Seq<char>, Seq<char>)>
    decreases refs.len(),
{
    if refs.len() == 0 {
        seq![(k, v)]
    } else if refs[0].0 == k {
        seq![(k, v)] + refs.drop_first()
    } else {
        seq![refs[0]] + insert_ref(refs.drop_first(), k, v)
    }
}

impl RefMap {
    pub fn new() -> (m: RefMap)
        ensures
            m@ == Seq::<(Seq<char>, Seq<char>)>::empty(),
    {
        let m = RefMap { entries: Vec::new() };
        proof {
            assert(m@ =~= Seq::<(Seq<char>, Seq<char>)>::empty());
        }
        m
    }

    pub fn get(&self, k: &Vec<char>) -> (r: Option<Vec<char>>)
        ensures
            (match r {
                Some(v) => lookup_ref(self@, k@) == Some(v@),
                None => lookup_ref(self@, k@) is None,
            }),
    {
        proof {
            assert(self@.skip(0) =~= self@);
        }
        let mut i: usize = 0;
        while i < self.entries.len()
            invariant
                i <= self.entries@.len(),
                lookup_ref(self@, k@) == lookup_ref(self@.skip(i as int), k@),
        decreases self.entries@.len() - i,
        {
            proof {
                assert(self@.skip(i as int)[0] == (self.entries@[i as int].label@,
                    self.entries@[i as int].url@));
                assert(self@.skip(i as int).drop_first() =~= self@.skip(i + 1));
            }
            if vec_eq(&self.entries[i].label, k) {
                let v = subvec(&self.entries[i].url, 0, self.entries[i].url.len());
                return Some(v);
            }
            i = i + 1;
        }
        proof {
            assert(self@.skip(self.entries@.len() as int).len() == 0);
        }
        None
    }

    fn find_label(&self, label: &Vec<char>) -> (r: Option<usize>)
        ensures
            (match r {
                Some(i) => i < self.entries@.len() && self.entries@[i as int].label@ == label@
                    && forall|j: int| 0 <= j < i ==> self.entries@[j].label@ != label@,
                None => forall|j: int|
                    0 <= j < self.entries@.len() ==> self.entries@[j].label@ != label@,
            }),
    {
        let mut i: usize = 0;
        while i < self.entries.len()
            invariant
                i <= self.entries@.len(),
                forall|j: int| 0 <= j < i ==> self.entries@[j].label@ != label@,
            decreases self.entries@.len() - i,
        {
            if vec_eq(&self.entries[i].label, label) {
                return Some(i);
            }
            i = i + 1;
        }
        None
    }

    pub fn insert(&mut self, label: Vec<char>, url: Vec<char>)
        ensures
            final(self)@ == insert_ref(old(self)@, label@, url@),
    {
        if let Some(i) = self.find_label(&label) {
            let _ = self.entries.remove(i);
            self.entries.insert(i, RefEntry { label, url });
            proof {
                lemma_insert_ref_found(old(self)@, label@, url@, i as int);
                assert(self@ =~= old(self)@.update(i as int, (label@, url@)));
            }
        } else {
            let i = self.entries.len();
            self.entries.push(RefEntry { label, url });
            proof {
                lemma_insert_ref_absent(old(self)@, label@, url@);
                assert(self@ =~= old(self)@.push((label@, url@)));
            }
        }
    }
}

proof fn lemma_insert_ref_found(refs: Seq<(Seq<char>, Seq<char>)>, k: Seq<char>, v: Seq<char>, i: int)
    requires
        0 <= i < refs.len(),
        refs[i].0 == k,
        forall|j: int| 0 <= j < i ==> refs[j].0 != k,
    ensures
        insert_ref(refs, k, v) == refs.update(i, (k, v)),
    decreases refs.len(),
{
    if i == 0 {
        assert(insert_ref(refs, k, v) == seq![(k, v)] + refs.drop_first());
        assert(seq![(k, v)] + refs.drop_first() =~= refs.update(0, (k, v)));
    } else {
        assert(refs.drop_first()[i - 1].0 == k);
        assert(forall|j: int| 0 <= j < i - 1 ==> refs.drop_first()[j].0 != k);
        lemma_insert_ref_found(refs.drop_first(), k, v, i - 1);
        assert(seq![refs[0]] + refs.drop_first().update(i - 1, (k, v)) =~= refs.update(i, (k, v)));
    }
}

proof fn lemma_insert_ref_absent(refs: Seq<(Seq<char>, Seq<char>)>, k: Seq<char>, v: Seq<char>)
    requires
        forall|j: int| 0 <= j < refs.len() ==> refs[j].0 != k,
    ensures
        insert_ref(refs, k, v) == refs.push((k, v)),
    decreases refs.len(),
{
    if refs.len() == 0 {
        assert(seq![(k, v)] =~= refs.push((k, v)));
    } else {
        lemma_insert_ref_absent(refs.drop_first(), k, v);
        assert(seq![refs[0]] + refs.drop_first().push((k, v)) =~= refs.push((k, v)));
    }
}

/// A reference definition read at position `i`: `[LABEL]: URL`, where the
/// label is a nonempty run without `]` and the URL is the rest of the line
/// after the whitespace that follows the colon. When only whitespace
/// follows the colon, the last character alone serves as the URL.
pub open spec fn capture_at(s: Seq<char>, i: int) -> Option<(Seq<char>, Seq<char>)> {
    if 0 <= i < s.len() && s[i] == '[' {
        match find_char_from(s, ']', i + 1) {
            Some(j) => if i + 1 < j && j + 2 < s.len() && s[j + 1] == ':' {
                let label = s.subrange(i + 1, j);
                let w = ws_run_from(s, j + 2);
                if w < s.len() {
                    Some((label, s.subrange(w, s.len() as int)))
                } else {
                    Some((label, s.subrange(s.len() - 1, s.len() as int)))
                }
            } else {
                None
            },
            None => None,
        }
    } else {
        None
    }
}

/// The leftmost reference definition on the line, if any.
pub open spec fn capture_from(s: Seq<char>, i: int) -> Option<(Seq<char>, Seq<char>)>
    decreases s.len() - i,
{
    if i < 0 || i >= s.len() {
        None
    } else if capture_at(s, i) is Some {
        capture_at(s, i)
    } else {
        capture_from(s, i + 1)
    }
}

pub fn try_capture_at(s: &Vec<char>, i: usize) -> (r: Option<(Vec<char>, Vec<char>)>)
    requires
        i < s@.len(),
    ensures
        (match r {
            Some(p) => capture_at(s@, i as int) == Some((p.0@, p.1@)),
            None => capture_at(s@, i as int) is None,
        }),
{
    let n = s.len();
    if s[i] != '[' {
        return None;
    }
    match find_char(s, ']', i + 1) {
        Some(j) => {
            if i + 1 < j && n - j > 2 && s[j + 1] == ':' {
                let label = subvec(s, i + 1, j);
                let w = ws_run(s, j + 2);
                if w < s.len() {
                    Some((label, subvec(s, w, s.len())))
                } else {
                    Some((label, subvec(s, s.len() - 1, s.len())))
                }
            } else {
                None
            }
        },
        None => None,
    }
}

pub fn capture_reference(s: &Vec<char>) -> (r: Option<(Vec<char>, Vec<char>)>)
    ensures
        (match r {
            Some(p) => capture_from(s@, 0) == Some((p.0@, p.1@)),
            None => capture_from(s@, 0) is None,
        }),
{
    let mut i: usize = 0;
    while i < s.len()
        invariant
            i <= s@.len(),
            capture_from(s@, 0) == capture_from(s@, i as int),
        decreases s@.len() - i,
    {
        match try_capture_at(s, i) {
            Some(p) => {
                return Some(p);
            },
            None => {},
        }
        i = i + 1;
    }
    None
}

/// The sequence of character lines that a line list denotes.
pub open spec fn lines_view(lines: Seq<Vec<char>>) -> Seq<Seq<char>> {
    Seq::new(lines.len(), |i: int| lines[i]@)
}

/// The reference map harvested from the lines in order, later definitions
/// of a label overwriting earlier ones.
pub open spec fn collect_refs(
    lines: Seq<Seq<char>>,
    j: int,
    acc: Seq<(Seq<char>, Seq<char>)>,
) -> Seq<(Seq<char>, Seq<char>)>
    decreases lines.len() - j,
{
    if j < 0 || j >= lines.len() {
        acc
    } else {
        let acc2 = match capture_from(lines[j], 0) {
            Some(p) => insert_ref(acc, p.0, p.1),
            None => acc,
        };
        collect_refs(lines, j + 1, acc2)
    }
}

/// First pass over the input: gathers every `[label]: url` definition.
pub fn collect_references(lines: &Vec<Vec<char>>) -> (m: RefMap)
    ensures
        m@ == collect_refs(lines_view(lines@), 0, Seq::empty()),
{
    let mut m = RefMap::new();
    let mut j: usize = 0;
    while j < lines.len()
        invariant
            j <= lines@.len(),
            collect_refs(lines_view(lines@), 0, Seq::empty()) == collect_refs(
                lines_view(lines@),
                j as int,
                m@,
            ),
        decreases lines@.len() - j,
    {
        proof {
            assert(lines_view(lines@)[j as int] == lines@[j as int]@);
        }
        match capture_reference(&lines[j]) {
            Some(p) => {
                m.insert(p.0, p.1);
            },
            None => {},
        }
        j = j + 1;
    }
    m
}

/// Where the stored URL matches after the colon: the whitespace gap
/// takes as many characters as it can while the URL still follows, and
/// gives characters back one by one, so a URL that itself begins with
/// whitespace is still found.
pub open spec fn greedy_url_pos(s: Seq<char>, v: Seq<char>, q0: int, t: int) -> Option<int>
    decreases t + 1,
{
    if t < 0 {
        None
    } else if matches_at(s, v, q0 + t) {
        Some(q0 + t)
    } else {
        greedy_url_pos(s, v, q0, t - 1)
    }
}

/// A stored definition occurring verbatim at `i`: `[label]:`, a
/// whitespace gap, then the stored URL itself.
pub open spec fn refdef_at(s: Seq<char>, k: Seq<char>, v: Seq<char>, i: int) -> Option<int> {
    if 0 <= i && k.len() > 0 && i + 3 + k.len() <= s.len() && s[i] == '[' && matches_at(
        s,
        k,
        i + 1,
    ) && s[i + 1 + k.len()] == ']' && s[i + 2 + k.len()] == ':' {
        let q0 = i + 3 + k.len();
        let w = ws_run_from(s, q0);
        if q0 <= w {
            match greedy_url_pos(s, v, q0, w - q0) {
                Some(pos) => if q0 <= pos && pos + v.len() <= s.len() {
                    Some(pos + v.len())
                } else {
                    None
                },
                None => None,
            }
        } else {
            None
        }
    } else {
        None
    }
}

/// The line with every verbatim occurrence of one stored definition
/// deleted, scanning left to right.
pub open spec fn strip_one_from(s: Seq<char>, k: Seq<char>, v: Seq<char>, i: int) -> Seq<char>
    decreases s.len() - i,
{
    if i < 0 || i >= s.len() {
        Seq::empty()
    } else {
        match refdef_at(s, k, v, i) {
            Some(e) => strip_one_from(s, k, v, e),
            None => seq![s[i]] + strip_one_from(s, k, v, i + 1),
        }
    }
}

fn try_refdef_at(s: &Vec<char>, k: &Vec<char>, v: &Vec<char>, i: usize) -> (r: Option<usize>)
    requires
        i < s@.len(),
    ensures
        (match r {
            Some(e) => refdef_at(s@, k@, v@, i as int) == Some(e as int) && i < e <= s@.len(),
            None => refdef_at(s@, k@, v@, i as int) is None,
        }),
{
    if k.len() == 0 || s.len() - i < 3 || k.len() > s.len() - i - 3 {
        return None;
    }
    if s[i] == '[' && is_match_at(s, k, i + 1) && s[i + 1 + k.len()] == ']' && s[i + 2 + k.len()]
        == ':' {
        let q0 = i + 3 + k.len();
        let w = ws_run(s, q0);
        let mut t: usize = w - q0;
        loop
            invariant
                t <= w - q0,
                i < q0 <= w <= s@.len(),
                q0 == i + 3 + k@.len(),
                k@.len() > 0,
                s@[i as int] == '[',
                matches_at(s@, k@, i + 1),
                s@[i + 1 + k@.len()] == ']',
                s@[i + 2 + k@.len()] == ':',
                w as int == ws_run_from(s@, q0 as int),
                greedy_url_pos(s@, v@, q0 as int, (w - q0) as int) == greedy_url_pos(
                    s@,
                    v@,
                    q0 as int,
                    t as int,
                ),
            decreases t,
        {
            let _n = s.len();
            if is_match_at(s, v, q0 + t) {
                return Some(q0 + t + v.len());
            }
            if t == 0 {
                proof {
                    assert(greedy_url_pos(s@, v@, q0 as int, 0) is None);
                }
                return None;
            }
            t = t - 1;
        }
    } else {
        None
    }
}

fn strip_one(s: &Vec<char>, k: &Vec<char>, v: &Vec<char>) -> (r: Vec<char>)
    ensures
        r@ == strip_one_from(s@, k@, v@, 0),
{
    let mut out: Vec<char> = Vec::new();
    let mut i: usize = 0;
    while i < s.len()
        invariant
            i <= s@.len(),
            strip_one_from(s@, k@, v@, 0) == out@ + strip_one_from(s@, k@, v@, i as int),
        decreases s@.len() - i,
    {
        let ghost prev = out@;
        match try_refdef_at(s, k, v, i) {
            Some(e) => {
                i = e;
            },
            None => {
                out.push(s[i]);
                proof {
                    assert(prev + (seq![s@[i as int]] + strip_one_from(s@, k@, v@, i + 1)) =~= (
                    prev + seq![s@[i as int]]) + strip_one_from(s@, k@, v@, i + 1));
                    assert(out@ =~= prev + seq![s@[i as int]]);
                }
                i = i + 1;
            },
        }
    }
    proof {
        assert(out@ =~= out@ + strip_one_from(s@, k@, v@, s@.len() as int));
    }
    out
}

/// The deletion pass applied for every stored definition in map order.
pub open spec fn strip_all_refs(
    s: Seq<char>,
    refs: Seq<(Seq<char>, Seq<char>)>,
    j: int,
) -> Seq<char>
    decreases refs.len() - j,
{
    if j < 0 || j >= refs.len() {
        s
    } else {
        strip_all_refs(strip_one_from(s, refs[j].0, refs[j].1, 0), refs, j + 1)
    }
}

pub fn strip_references(s: &Vec<char>, refs: &RefMap) -> (r: Vec<char>)
    ensures
        r@ == strip_all_refs(s@, refs@, 0),
{
    let mut cur = subvec(s, 0, s.len());
    proof {
        assert(cur@ =~= s@);
    }
    let mut j: usize = 0;
    while j < refs.entries.len()
        invariant
            j <= refs.entries@.len(),
            strip_all_refs(s@, refs@, 0) == strip_all_refs(cur@, refs@, j as int),
        decreases refs.entries@.len() - j,
    {
        proof {
            assert(refs@[j as int] == (refs.entries@[j as int].label@,
                refs.entries@[j as int].url@));
        }
        let next = strip_one(&cur, &refs.entries[j].label, &refs.entries[j].url);
        cur = next;
        j = j + 1;
    }
    cur
}

} // verus!
