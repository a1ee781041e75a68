//! Memory categories for the memories an agent keeps, and the word counts
//! that the relevance of a memory to a query is made of.
use vstd::prelude::*;

use crate::text::{
    chars_of, contains_chars, contains_seq, pieces, split_words, str_eq, str_lowercase,
    to_lowercase, words,
};

verus! {

/// Memory category for different types of memories
#[derive(Debug, Clone, Copy, PartialEq, Eq, Structural)]
pub enum MemoryCategory {
    /// Episodic memories (events, experiences)
    Episodic,
    /// Semantic memories (facts, knowledge)
    Semantic,
    /// Procedural memories (how to do things)
    Procedural,
    /// Emotional memories (feelings, reactions)
    Emotional,
}

/// The lowercase name of a memory category.
pub open spec fn category_name(c: MemoryCategory) -> Seq<char> {
    match c {
        MemoryCategory::Episodic => "episodic"@,
        MemoryCategory::Semantic => "semantic"@,
        MemoryCategory::Procedural => "procedural"@,
        MemoryCategory::Emotional => "emotional"@,
    }
}

/// The category an already lowercased name denotes, if any.
pub open spec fn category_from_name(n: Seq<char>) -> Option<MemoryCategory> {
    if n == "episodic"@ {
        Some(MemoryCategory::Episodic)
    } else if n == "semantic"@ {
        Some(MemoryCategory::Semantic)
    } else if n == "procedural"@ {
        Some(MemoryCategory::Procedural)
    } else if n == "emotional"@ {
        Some(MemoryCategory::Emotional)
    } else {
        None
    }
}

impl MemoryCategory {
    /// Convert from an already lowercased string representation.
    pub fn from_lowercase(s: &str) -> (r: Option<MemoryCategory>)
        ensures
            r == category_from_name(s@),
    {
        if str_eq(s, "episodic") {
            Some(MemoryCategory::Episodic)
        } else if str_eq(s, "semantic") {
            Some(MemoryCategory::Semantic)
        } else if str_eq(s, "procedural") {
            Some(MemoryCategory::Procedural)
        } else if str_eq(s, "emotional") {
            Some(MemoryCategory::Emotional)
        } else {
            None
        }
    }

    /// Convert from string representation, ignoring case.
    pub fn from_str(s: &str) -> (r: Option<MemoryCategory>)
        ensures
            r == category_from_name(str_lowercase(s@)),
    {
        let lower = to_lowercase(s);
        MemoryCategory::from_lowercase(lower.as_str())
    }

    /// Convert to string representation
    pub fn as_str(&self) -> (r: &'static str)
        ensures
            r@ == category_name(*self),
    {
        match self {
            MemoryCategory::Episodic => "episodic",
            MemoryCategory::Semantic => "semantic",
            MemoryCategory::Procedural => "procedural",
            MemoryCategory::Emotional => "emotional",
        }
    }
}

/// Every category's name is read back as that category.
pub proof fn lemma_category_name_round_trip(c: MemoryCategory)
    ensures
        category_from_name(category_name(c)) == Some(c),
{
    reveal_strlit("episodic");
    reveal_strlit("semantic");
    reveal_strlit("procedural");
    reveal_strlit("emotional");
    assert("episodic"@.len() == 8 && "semantic"@.len() == 8);
    assert("procedural"@.len() == 10 && "emotional"@.len() == 9);
    assert("episodic"@[0] != "semantic"@[0]);
}

/// Whether one of the names denotes the category, ignoring case.
pub open spec fn names_category(names: Seq<String>, category: MemoryCategory) -> bool {
    exists|k: int|
        0 <= k < names.len() && category_from_name(str_lowercase((#[trigger] names[k])@)) == Some(
            category,
        )
}

/// Whether the category is among the categories to prioritise, given by
/// name.
pub fn is_priority_category(names: &Vec<String>, category: MemoryCategory) -> (r: bool)
    ensures
        r == names_category(names@, category),
{
    let mut k: usize = 0;
    while k < names.len()
        invariant
            k <= names.len(),
            forall|j: int|
                0 <= j < k ==> category_from_name(str_lowercase((#[trigger] names@[j])@)) != Some(
                    category,
                ),
        decreases names.len() - k,
    {
        if MemoryCategory::from_str(names[k].as_str()) == Some(category) {
            return true;
        }
        k = k + 1;
    }
    false
}

/// Number of the words `qs` that occur inside one of the words `cs`.
pub open spec fn words_found_within(qs: Seq<Seq<char>>, cs: Seq<Seq<char>>) -> nat
    decreases qs.len(),
{
    if qs.len() == 0 {
        0
    } else {
        words_found_within(qs.drop_last(), cs) + if exists|j: int|
            0 <= j < cs.len() && contains_seq(#[trigger] cs[j], qs.last()) {
            1nat
        } else {
            0nat
        }
    }
}

/// Number of the words `qs` equal to one of the words `cs`.
pub open spec fn words_found_among(qs: Seq<Seq<char>>, cs: Seq<Seq<char>>) -> nat
    decreases qs.len(),
{
    if qs.len() == 0 {
        0
    } else {
        words_found_among(qs.drop_last(), cs) + if cs.contains(qs.last()) {
            1nat
        } else {
            0nat
        }
    }
}

/// The query words counted as found among the content words are exactly
/// those equal to a content word: a word occurring only inside a longer
/// content word does not count.
pub proof fn lemma_words_found_among_exact(qs: Seq<Seq<char>>, cs: Seq<Seq<char>>)
    ensures
        words_found_among(qs, cs) == qs.filter(|w: Seq<char>| cs.contains(w)).len(),
    decreases qs.len(),
{
    reveal(Seq::filter);
    if qs.len() > 0 {
        lemma_words_found_among_exact(qs.drop_last(), cs);
    }
}

/// The query words counted as found within the content words are exactly
/// those that occur inside some content word.
pub proof fn lemma_words_found_within_inside(qs: Seq<Seq<char>>, cs: Seq<Seq<char>>)
    ensures
        words_found_within(qs, cs) == qs.filter(
            |w: Seq<char>| exists|j: int| 0 <= j < cs.len() && contains_seq(#[trigger] cs[j], w),
        ).len(),
    decreases qs.len(),
{
    reveal(Seq::filter);
    if qs.len() > 0 {
        lemma_words_found_within_inside(qs.drop_last(), cs);
    }
}

/// Whether some word of `cs` contains `q`, or equals it when `exact`.
fn any_word(cs: &Vec<Vec<char>>, q: &Vec<char>, exact: bool) -> (r: bool)
    ensures
        exact ==> r == pieces(cs@).contains(q@),
        !exact ==> r == exists|j: int|
            0 <= j < pieces(cs@).len() && contains_seq(#[trigger] pieces(cs@)[j], q@),
{
    let ghost ps = pieces(cs@);
    let mut j: usize = 0;
    while j < cs.len()
        invariant
            j <= cs.len(),
            ps == pieces(cs@),
            exact ==> forall|k: int| 0 <= k < j ==> #[trigger] ps[k] != q@,
            !exact ==> forall|k: int| 0 <= k < j ==> !contains_seq(#[trigger] ps[k], q@),
        decreases cs.len() - j,
    {
        assert(ps[j as int] == cs@[j as int]@);
        if exact {
            if cs[j].len() == q.len() && contains_chars(&cs[j], q) {
                proof {
                    let w = ps[j as int];
                    let i = choose|i: int| crate::text::matches_at(w, q@, i);
                    assert(w.subrange(i, i + q@.len()) =~= w);
                }
                assert(ps[j as int] == q@);
                return true;
            }
            proof {
                if ps[j as int] == q@ {
                    assert(ps[j as int].subrange(0, q@.len() as int) =~= q@);
                    assert(crate::text::matches_at(ps[j as int], q@, 0));
                }
            }
        } else {
            if contains_chars(&cs[j], q) {
                return true;
            }
        }
        j = j + 1;
    }
    false
}

/// Count the words of `query` that occur in `content`, both lowercased:
/// gives how many query words occur inside a content word (`exact` false)
/// or equal one (`exact` true), and how many query words there are.
fn count_query_words(query: &str, content: &str, exact: bool) -> (r: (usize, usize))
    ensures
        r.1 == words(str_lowercase(query@)).len(),
        exact ==> r.0 == words_found_among(
            words(str_lowercase(query@)),
            words(str_lowercase(content@)),
        ),
        !exact ==> r.0 == words_found_within(
            words(str_lowercase(query@)),
            words(str_lowercase(content@)),
        ),
{
    let q = to_lowercase(query);
    let c = to_lowercase(content);
    let qv = chars_of(q.as_str());
    let cv = chars_of(c.as_str());
    let qs = split_words(&qv);
    let cs = split_words(&cv);
    let ghost qw = pieces(qs@);
    let ghost cw = pieces(cs@);
    let mut matches: usize = 0;
    let mut k: usize = 0;
    while k < qs.len()
        invariant
            k <= qs.len(),
            qw == pieces(qs@),
            cw == pieces(cs@),
            matches <= k,
            exact ==> matches == words_found_among(qw.take(k as int), cw),
            !exact ==> matches == words_found_within(qw.take(k as int), cw),
        decreases qs.len() - k,
    {
        proof {
            assert(qw.take(k + 1).drop_last() =~= qw.take(k as int));
            assert(qw.take(k + 1).last() == qs@[k as int]@);
        }
        if any_word(&cs, &qs[k], exact) {
            matches = matches + 1;
        }
        k = k + 1;
    }
    assert(qw.take(qs@.len() as int) =~= qw);
    (matches, qs.len())
}

/// Count the words of a query that occur inside the words of a memory's
/// content, ignoring case: gives the number of such query words and the
/// number of query words.
pub fn query_words_within(content: &str, query: &str) -> (r: (usize, usize))
    ensures
        r.0 == words_found_within(words(str_lowercase(query@)), words(str_lowercase(content@))),
        r.0 == words(str_lowercase(query@)).filter(
            |w: Seq<char>|
                exists|j: int|
                    0 <= j < words(str_lowercase(content@)).len() && contains_seq(
                        #[trigger] words(str_lowercase(content@))[j],
                        w,
                    ),
        ).len(),
        r.1 == words(str_lowercase(query@)).len(),
{
    proof {
        lemma_words_found_within_inside(words(str_lowercase(query@)), words(str_lowercase(content@)));
    }
    count_query_words(query, content, false)
}

/// Count the words of a query that are words of a memory's content,
/// ignoring case: gives the number of such query words and the number of
/// query words.
pub fn query_words_among(content: &str, query: &str) -> (r: (usize, usize))
    ensures
        r.0 == words_found_among(words(str_lowercase(query@)), words(str_lowercase(content@))),
        r.0 == words(str_lowercase(query@)).filter(
            |w: Seq<char>| words(str_lowercase(content@)).contains(w),
        ).len(),
        r.1 == words(str_lowercase(query@)).len(),
{
    proof {
        lemma_words_found_among_exact(words(str_lowercase(query@)), words(str_lowercase(content@)));
    }
    count_query_words(query, content, true)
}

/// Number of the tags that occur in `text`.
pub open spec fn tags_in(text: Seq<char>, tags: Seq<String>) -> nat
    decreases tags.len(),
{
    if tags.len() == 0 {
        0
    } else {
        tags_in(text, tags.drop_last()) + if contains_seq(text, str_lowercase(tags.last()@)) {
            1nat
        } else {
            0nat
        }
    }
}

/// Count the tags of a memory that occur in a query, ignoring case.
pub fn tags_in_query(query: &str, tags: &Vec<String>) -> (r: usize)
    ensures
        r == tags_in(str_lowercase(query@), tags@),
{
    let q = to_lowercase(query);
    let qv = chars_of(q.as_str());
    let mut n: usize = 0;
    let mut k: usize = 0;
    while k < tags.len()
        invariant
            k <= tags.len(),
            n <= k,
            qv@ == str_lowercase(query@),
            n == tags_in(str_lowercase(query@), tags@.take(k as int)),
        decreases tags.len() - k,
    {
        proof {
            assert(tags@.take(k + 1).drop_last() =~= tags@.take(k as int));
            assert(tags@.take(k + 1).last() == tags@[k as int]);
        }
        let t = to_lowercase(tags[k].as_str());
        let tv = chars_of(t.as_str());
        if contains_chars(&qv, &tv) {
            n = n + 1;
        }
        k = k + 1;
    }
    assert(tags@.take(tags@.len() as int) =~= tags@);
    n
}

} // verus!
