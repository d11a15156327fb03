use vstd::prelude::*;
use vstd::map::*;
use crate::text::{lit, vec_eq, subvec};

verus! {

/// The fixed table from Markdown sigils to HTML element names.
pub open spec fn markdown_map_spec() -> Map<Seq<char>, Seq<char>> {
    map![
        "#"@ => "h"@,
        "**"@ => "strong"@,
        "*"@ => "em"@,
        ">"@ => "blockquote"@,
        "__"@ => "ins"@,
        "~~"@ => "del"@,
        "`"@ => "code"@,
        "```"@ => "pre"@,
    ]
}

pub struct TagPair {
    pub key: Vec<char>,
    pub val: Vec<char>,
}

/// The sigil table held as key/value pairs with pairwise distinct keys.
pub struct MarkdownMap {
    pub pairs: Vec<TagPair>,
}

pub open spec fn pairs_view(pairs: Seq<TagPair>) -> Seq<(Seq<char>, Seq<char>)> {
    Seq::new(pairs.len(), |i: int| (pairs[i].key@, pairs[i].val@))
}

/// The map that a pair list denotes; a later pair would win over an
/// earlier one with the same key.
pub open spec fn pairs_map(s: Seq<(Seq<char>, Seq<char>)>) -> Map<Seq<char>, Seq<char>>
    decreases s.len(),
{
    if s.len() == 0 {
        Map::empty()
    } else {
        pairs_map(s.drop_last()).insert(s.last().0, s.last().1)
    }
}

impl View for MarkdownMap {
    type V = Map<Seq<char>, Seq<char>>;

    open spec fn view(&self) -> Map<Seq<char>, Seq<char>> {
        pairs_map(pairs_view(self.pairs@))
    }
}

impl MarkdownMap {
    /// Keys are pairwise distinct, so a front-to-back scan agrees with `@`.
    pub open spec fn wf(&self) -> bool {
        forall|i: int, j: int|
            0 <= i < j < self.pairs@.len() ==> self.pairs@[i].key@ != self.pairs@[j].key@
    }

    pub fn get(&self, tok: &Vec<char>) -> (r: Option<Vec<char>>)
        requires
            self.wf(),
        ensures
            (match r {
                Some(v) => self@.contains_key(tok@) && v@ == self@[tok@],
                None => !self@.contains_key(tok@),
            }),
    {
        let mut i: usize = 0;
        while i < self.pairs.len()
            invariant
                i <= self.pairs@.len(),
                self.wf(),
                forall|j: int| 0 <= j < i ==> self.pairs@[j].key@ != tok@,
            decreases self.pairs@.len() - i,
        {
            if vec_eq(&self.pairs[i].key, tok) {
                proof {
                    lemma_pairs_map_get(pairs_view(self.pairs@), i as int);
                }
                let v = subvec(&self.pairs[i].val, 0, self.pairs[i].val.len());
                return Some(v);
            }
            i = i + 1;
        }
        proof {
            lemma_pairs_map_none(pairs_view(self.pairs@), tok@);
        }
        None
    }
}

pub proof fn lemma_pairs_map_get(s: Seq<(Seq<char>, Seq<char>)>, j: int)
    requires
        0 <= j < s.len(),
        forall|a: int, b: int| 0 <= a < b < s.len() ==> s[a].0 != s[b].0,
    ensures
        pairs_map(s).contains_key(s[j].0),
        pairs_map(s)[s[j].0] == s[j].1,
    decreases s.len(),
{
    if j == s.len() - 1 {
    } else {
        lemma_pairs_map_get(s.drop_last(), j);
        assert(s.drop_last()[j] == s[j]);
        assert(s[j].0 != s.last().0);
    }
}

pub proof fn lemma_pairs_map_none(s: Seq<(Seq<char>, Seq<char>)>, k: Seq<char>)
    requires
        forall|j: int| 0 <= j < s.len() ==> s[j].0 != k,
    ensures
        !pairs_map(s).contains_key(k),
    decreases s.len(),
{
    if s.len() > 0 {
        lemma_pairs_map_none(s.drop_last(), k);
    }
}

/// Builds the sigil table: `#` for headings, `**` bold, `*` italics,
/// `>` blockquotes, `__` underline, `~~` strikethrough, `` ` `` code
/// spans and ``` ``` ``` fenced code blocks.
#[verifier::rlimit(60)]
pub fn create_markdown_map() -> (m: MarkdownMap)
    ensures
        m.wf(),
        m@ == markdown_map_spec(),
{
    let mut pairs: Vec<TagPair> = Vec::new();
    pairs.push(TagPair { key: lit("#"), val: lit("h") });
    pairs.push(TagPair { key: lit("**"), val: lit("strong") });
    pairs.push(TagPair { key: lit("*"), val: lit("em") });
    pairs.push(TagPair { key: lit(">"), val: lit("blockquote") });
    pairs.push(TagPair { key: lit("__"), val: lit("ins") });
    pairs.push(TagPair { key: lit("~~"), val: lit("del") });
    pairs.push(TagPair { key: lit("`"), val: lit("code") });
    pairs.push(TagPair { key: lit("```"), val: lit("pre") });
    let m = MarkdownMap { pairs };
    proof {
        reveal_strlit("#");
        reveal_strlit("**");
        reveal_strlit("*");
        reveal_strlit(">");
        reveal_strlit("__");
        reveal_strlit("~~");
        reveal_strlit("`");
        reveal_strlit("```");
        reveal_strlit("h");
        reveal_strlit("strong");
        reveal_strlit("em");
        reveal_strlit("blockquote");
        reveal_strlit("ins");
        reveal_strlit("del");
        reveal_strlit("code");
        reveal_strlit("pre");
        assert(m.pairs@.len() == 8);
        assert(m.pairs@[0].key@ == "#"@);
        assert(m.pairs@[1].key@ == "**"@);
        assert(m.pairs@[2].key@ == "*"@);
        assert(m.pairs@[3].key@ == ">"@);
        assert(m.pairs@[4].key@ == "__"@);
        assert(m.pairs@[5].key@ == "~~"@);
        assert(m.pairs@[6].key@ == "`"@);
        assert(m.pairs@[7].key@ == "```"@);
        assert forall|i: int, j: int|
            0 <= i < j < m.pairs@.len() implies m.pairs@[i].key@ != m.pairs@[j].key@ by {
            reveal_strlit("#");
            reveal_strlit("**");
            reveal_strlit("*");
            reveal_strlit(">");
            reveal_strlit("__");
            reveal_strlit("~~");
            reveal_strlit("`");
            reveal_strlit("```");
            assert("#"@.len() == 1 && "#"@[0] == '#');
            assert("**"@.len() == 2 && "**"@[0] == '*');
            assert("*"@.len() == 1 && "*"@[0] == '*');
            assert(">"@.len() == 1 && ">"@[0] == '>');
            assert("__"@.len() == 2 && "__"@[0] == '_');
            assert("~~"@.len() == 2 && "~~"@[0] == '~');
            assert("`"@.len() == 1 && "`"@[0] == '`');
            assert("```"@.len() == 3);
            assert(m.pairs@.len() == 8);
            if i == 0 {
                assert(m.pairs@[i].key@ == "#"@);
            }
            if i == 1 {
                assert(m.pairs@[i].key@ == "**"@);
            }
            if i == 2 {
                assert(m.pairs@[i].key@ == "*"@);
            }
            if i == 3 {
                assert(m.pairs@[i].key@ == ">"@);
            }
            if i == 4 {
                assert(m.pairs@[i].key@ == "__"@);
            }
            if i == 5 {
                assert(m.pairs@[i].key@ == "~~"@);
            }
            if i == 6 {
                assert(m.pairs@[i].key@ == "`"@);
            }
            if i == 7 {
                assert(m.pairs@[i].key@ == "```"@);
            }
            if j == 0 {
                assert(m.pairs@[j].key@ == "#"@);
            }
            if j == 1 {
                assert(m.pairs@[j].key@ == "**"@);
            }
            if j == 2 {
                assert(m.pairs@[j].key@ == "*"@);
            }
            if j == 3 {
                assert(m.pairs@[j].key@ == ">"@);
            }
            if j == 4 {
                assert(m.pairs@[j].key@ == "__"@);
            }
            if j == 5 {
                assert(m.pairs@[j].key@ == "~~"@);
            }
            if j == 6 {
                assert(m.pairs@[j].key@ == "`"@);
            }
            if j == 7 {
                assert(m.pairs@[j].key@ == "```"@);
            }
        }
        assert(m.wf());
        reveal_with_fuel(pairs_map, 10);
        assert(m@ =~= markdown_map_spec());
    }
    m
}

} // verus!
