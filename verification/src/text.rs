//! Character-level text helpers with exact contracts.
//!
//! Strings are reasoned about through their view, the sequence of their
//! characters. Searching, replacing and splitting are defined here as
//! recursive functions on those sequences, and the executable helpers are
//! proved against them.
use vstd::prelude::*;

verus! {

/// `p` occurs in `s` starting at position `i`.
pub open spec fn matches_at(s: Seq<char>, p: Seq<char>, i: int) -> bool {
    0 <= i && i + p.len() <= s.len() && s.subrange(i, i + p.len()) == p
}

/// `p` occurs somewhere in `s` (the empty sequence occurs everywhere).
pub open spec fn contains_seq(s: Seq<char>, p: Seq<char>) -> bool {
    exists|i: int| matches_at(s, p, i)
}

/// `s` begins with `p`.
pub open spec fn starts_with_seq(s: Seq<char>, p: Seq<char>) -> bool {
    p.len() <= s.len() && s.subrange(0, p.len() as int) == p
}

/// Every non-overlapping occurrence of the non-empty pattern `from` in `s`,
/// found from left to right, replaced by `to`.
pub open spec fn replace_all(s: Seq<char>, from: Seq<char>, to: Seq<char>) -> Seq<char>
    decreases s.len(),
{
    if from.len() == 0 || s.len() < from.len() {
        s
    } else if s.subrange(0, from.len() as int) == from {
        to + replace_all(s.skip(from.len() as int), from, to)
    } else {
        seq![s[0]] + replace_all(s.skip(1), from, to)
    }
}

/// The pieces of `s` between the non-overlapping occurrences of the
/// non-empty separator `sep`, found from left to right; `acc` is the
/// beginning of the current piece.
pub open spec fn split_from(s: Seq<char>, sep: Seq<char>, acc: Seq<char>) -> Seq<Seq<char>>
    decreases s.len(),
{
    if sep.len() == 0 || s.len() < sep.len() {
        seq![acc + s]
    } else if s.subrange(0, sep.len() as int) == sep {
        seq![acc] + split_from(s.skip(sep.len() as int), sep, Seq::empty())
    } else {
        split_from(s.skip(1), sep, acc.push(s[0]))
    }
}

/// The pieces of `s` separated by the non-empty separator `sep`.
pub open spec fn split_seq(s: Seq<char>, sep: Seq<char>) -> Seq<Seq<char>> {
    split_from(s, sep, Seq::empty())
}

/// The words of `s` — maximal runs of non-whitespace characters — where
/// `acc` is the beginning of the current word (as `str::split_whitespace`).
pub open spec fn words_acc(s: Seq<char>, acc: Seq<char>) -> Seq<Seq<char>>
    decreases s.len(),
{
    if s.len() == 0 {
        if acc.len() == 0 {
            Seq::empty()
        } else {
            seq![acc]
        }
    } else if char_whitespace(s[0]) {
        (if acc.len() == 0 {
            Seq::empty()
        } else {
            seq![acc]
        }) + words_acc(s.skip(1), Seq::empty())
    } else {
        words_acc(s.skip(1), acc.push(s[0]))
    }
}

/// The whitespace-separated words of `s`.
pub open spec fn words(s: Seq<char>) -> Seq<Seq<char>> {
    words_acc(s, Seq::empty())
}

/// What `char::is_alphanumeric` returns for a character.
pub uninterp spec fn char_alphanumeric(c: char) -> bool;

/// `w` without its leading characters that are not alphanumeric.
pub open spec fn trim_front(w: Seq<char>) -> Seq<char>
    decreases w.len(),
{
    if w.len() == 0 || char_alphanumeric(w[0]) {
        w
    } else {
        trim_front(w.skip(1))
    }
}

/// `w` without its trailing characters that are not alphanumeric.
pub open spec fn trim_back(w: Seq<char>) -> Seq<char>
    decreases w.len(),
{
    if w.len() == 0 || char_alphanumeric(w.last()) {
        w
    } else {
        trim_back(w.drop_last())
    }
}

/// `w` without the characters that are not alphanumeric at either end (as
/// `str::trim_matches` with that predicate).
pub open spec fn trim_non_alphanumeric(w: Seq<char>) -> Seq<char> {
    trim_back(trim_front(w))
}

/// `char::is_alphanumeric`: whether `c` is alphabetic or numeric in
/// Unicode's sense. The result is only named.
#[verifier::external_body]
pub(crate) fn is_alphanumeric(c: char) -> (r: bool)
    ensures
        r == char_alphanumeric(c),
{
    c.is_alphanumeric()
}

/// `w` without the characters that are not alphanumeric at either end.
pub fn trim_non_alphanumeric_chars(w: &Vec<char>) -> (r: Vec<char>)
    ensures
        r@ == trim_non_alphanumeric(w@),
{
    let mut a: usize = 0;
    assert(w@.skip(0) =~= w@);
    while a < w.len() && !is_alphanumeric(w[a])
        invariant
            a <= w.len(),
            trim_front(w@) == trim_front(w@.skip(a as int)),
        decreases w.len() - a,
    {
        assert(w@.skip(a as int).skip(1) =~= w@.skip(a + 1));
        a = a + 1;
    }
    let ghost front = w@.skip(a as int);
    assert(trim_front(w@) == front);
    let mut b: usize = w.len();
    assert(front.subrange(0, (b - a) as int) =~= front);
    while b > a && !is_alphanumeric(w[b - 1])
        invariant
            a <= b <= w.len(),
            front == w@.skip(a as int),
            trim_back(front) == trim_back(front.subrange(0, (b - a) as int)),
        decreases b,
    {
        assert(front.subrange(0, (b - a) as int).drop_last() =~= front.subrange(0, (b - a - 1) as int));
        b = b - 1;
    }
    let mut r: Vec<char> = Vec::new();
    let mut i = a;
    while i < b
        invariant
            a <= i <= b <= w.len(),
            r@ == w@.subrange(a as int, i as int),
        decreases b - i,
    {
        r.push(w[i]);
        assert(w@.subrange(a as int, i + 1) =~= w@.subrange(a as int, i as int).push(w@[i as int]));
        i = i + 1;
    }
    assert(front.subrange(0, (b - a) as int) =~= w@.subrange(a as int, b as int));
    r
}

/// `s` without leading and trailing whitespace.
pub fn trim_whitespace_chars(s: &Vec<char>) -> (r: Vec<char>)
    ensures
        r@ == trim_whitespace(s@),
{
    let mut a: usize = 0;
    let mut b: usize = s.len();
    assert(s@.subrange(0, b as int) =~= s@);
    while a < b && (is_whitespace(s[a]) || is_whitespace(s[b - 1]))
        invariant
            a <= b <= s.len(),
            trim_whitespace(s@) == trim_whitespace(s@.subrange(a as int, b as int)),
        decreases b - a,
    {
        let ghost cur = s@.subrange(a as int, b as int);
        if is_whitespace(s[a]) {
            assert(cur.skip(1) =~= s@.subrange(a + 1, b as int));
            a = a + 1;
        } else {
            assert(cur.drop_last() =~= s@.subrange(a as int, b - 1));
            b = b - 1;
        }
    }
    let mut r: Vec<char> = Vec::new();
    let mut i = a;
    while i < b
        invariant
            a <= i <= b <= s.len(),
            r@ == s@.subrange(a as int, i as int),
        decreases b - i,
    {
        r.push(s[i]);
        assert(s@.subrange(a as int, i + 1) =~= s@.subrange(a as int, i as int).push(s@[i as int]));
        i = i + 1;
    }
    r
}

/// The whitespace-separated words of `s`.
pub fn split_words(s: &Vec<char>) -> (r: Vec<Vec<char>>)
    ensures
        pieces(r@) == words(s@),
{
    let mut parts: Vec<Vec<char>> = Vec::new();
    let mut cur: Vec<char> = Vec::new();
    let mut i: usize = 0;
    assert(s@.skip(0) =~= s@);
    assert(pieces(parts@) =~= Seq::<Seq<char>>::empty());
    while i < s.len()
        invariant
            i <= s.len(),
            pieces(parts@) + words_acc(s@.skip(i as int), cur@) == words(s@),
        decreases s.len() - i,
    {
        let ghost rest = s@.skip(i as int);
        let ghost old_parts = pieces(parts@);
        let ghost old_cur = cur@;
        assert(rest[0] == s@[i as int]);
        assert(rest.skip(1) =~= s@.skip(i + 1));
        if is_whitespace(s[i]) {
            if cur.len() > 0 {
                parts.push(cur);
                cur = Vec::new();
                assert(pieces(parts@) =~= old_parts + seq![old_cur]);
            } else {
                assert(old_parts + Seq::<Seq<char>>::empty() =~= old_parts);
            }
            assert(cur@ =~= Seq::<char>::empty());
            assert(pieces(parts@) + words_acc(s@.skip(i + 1), cur@) =~= old_parts + ((if old_cur.len()
                == 0 {
                Seq::<Seq<char>>::empty()
            } else {
                seq![old_cur]
            }) + words_acc(s@.skip(i + 1), Seq::empty())));
        } else {
            cur.push(s[i]);
        }
        i = i + 1;
    }
    let ghost old_parts = pieces(parts@);
    assert(s@.skip(i as int).len() == 0);
    if cur.len() > 0 {
        parts.push(cur);
        assert(pieces(parts@) =~= old_parts + seq![pieces(parts@).last()]);
    } else {
        assert(old_parts + Seq::<Seq<char>>::empty() =~= old_parts);
    }
    parts
}

/// `s` without leading and trailing whitespace (as `str::trim`).
pub open spec fn trim_whitespace(s: Seq<char>) -> Seq<char>
    decreases s.len(),
{
    if s.len() == 0 {
        s
    } else if char_whitespace(s[0]) {
        trim_whitespace(s.skip(1))
    } else if char_whitespace(s.last()) {
        trim_whitespace(s.drop_last())
    } else {
        s
    }
}

/// What `str::to_lowercase` returns for a string with the given characters.
pub uninterp spec fn str_lowercase(s: Seq<char>) -> Seq<char>;

/// Whether `c` has the Unicode `White_Space` property (the characters that
/// `char::is_whitespace` accepts): the controls U+0009 to U+000D and U+0085,
/// the space, the no-break spaces U+00A0, U+202F, the Ogham space mark
/// U+1680, the spaces U+2000 to U+200A, U+205F and U+3000, and the line and
/// paragraph separators U+2028, U+2029.
pub open spec fn char_whitespace(c: char) -> bool {
    ||| '\u{9}' <= c <= '\u{d}'
    ||| c == ' '
    ||| c == '\u{85}'
    ||| c == '\u{a0}'
    ||| c == '\u{1680}'
    ||| '\u{2000}' <= c <= '\u{200a}'
    ||| c == '\u{2028}'
    ||| c == '\u{2029}'
    ||| c == '\u{202f}'
    ||| c == '\u{205f}'
    ||| c == '\u{3000}'
}

/// Number of maximal runs of non-whitespace characters in `s`, given
/// whether the character just before `s` was part of a run.
pub open spec fn words_from(s: Seq<char>, in_word: bool) -> nat
    decreases s.len(),
{
    if s.len() == 0 {
        0
    } else if char_whitespace(s[0]) {
        words_from(s.skip(1), false)
    } else if in_word {
        words_from(s.skip(1), true)
    } else {
        1 + words_from(s.skip(1), true)
    }
}

/// Number of whitespace-separated words in `s`.
pub open spec fn word_count(s: Seq<char>) -> nat {
    words_from(s, false)
}

/// `str::to_lowercase`: the lowercase equivalent of `s` under Unicode's
/// case mapping. The result is only named, never described.
#[verifier::external_body]
pub(crate) fn to_lowercase(s: &str) -> (r: String)
    ensures
        r@ == str_lowercase(s@),
{
    s.to_lowercase()
}

/// Whether `c` is whitespace: has the Unicode `White_Space` property.
pub fn is_whitespace(c: char) -> (r: bool)
    ensures
        r == char_whitespace(c),
{
    ('\u{9}' <= c && c <= '\u{d}') || c == ' ' || c == '\u{85}' || c == '\u{a0}' || c
        == '\u{1680}' || ('\u{2000}' <= c && c <= '\u{200a}') || c == '\u{2028}' || c
        == '\u{2029}' || c == '\u{202f}' || c == '\u{205f}' || c == '\u{3000}'
}

/// `String::push`: appends one character to the end of the string.
#[verifier::external_body]
pub(crate) fn push_char(s: &mut String, c: char)
    ensures
        final(s)@ == old(s)@.push(c),
{
    s.push(c);
}

/// The characters of `s`, collected into a vector.
pub fn chars_of(s: &str) -> (v: Vec<char>)
    ensures
        v@ == s@,
{
    let mut v: Vec<char> = Vec::new();
    for c in it: s.chars()
        invariant
            v@ == it.seq().take(it.index() as int),
    {
        v.push(c);
    }
    v
}

/// Appends every character of `v[from..to]` to `out`.
pub fn push_chars(out: &mut String, v: &Vec<char>, from: usize, to: usize)
    requires
        from <= to <= v.len(),
    ensures
        final(out)@ == old(out)@ + v@.subrange(from as int, to as int),
{
    let mut i = from;
    while i < to
        invariant
            from <= i <= to <= v.len(),
            out@ == old(out)@ + v@.subrange(from as int, i as int),
        decreases to - i,
    {
        push_char(out, v[i]);
        assert(v@.subrange(from as int, i + 1) =~= v@.subrange(from as int, i as int).push(v@[i as int]));
        i = i + 1;
    }
}

/// A string holding exactly the characters of `v`.
pub fn string_of(v: &Vec<char>) -> (s: String)
    ensures
        s@ == v@,
{
    let mut s = String::new();
    push_chars(&mut s, v, 0, v.len());
    assert(v@.subrange(0, v@.len() as int) =~= v@);
    s
}

/// Whether `p` occurs in `s` at position `i`.
pub fn matches_at_exec(s: &Vec<char>, p: &Vec<char>, i: usize) -> (r: bool)
    ensures
        r == matches_at(s@, p@, i as int),
{
    if i > s.len() || p.len() > s.len() - i {
        return false;
    }
    let mut j: usize = 0;
    while j < p.len()
        invariant
            i + p.len() <= s.len(),
            j <= p.len(),
            forall|k: int| 0 <= k < j ==> s@[i + k] == p@[k],
        decreases p.len() - j,
    {
        if s[i + j] != p[j] {
            assert(s@.subrange(i as int, i + p.len())[j as int] != p@[j as int]);
            return false;
        }
        j = j + 1;
    }
    assert(s@.subrange(i as int, i + p.len()) =~= p@);
    true
}

/// Whether `a` and `b` hold the same characters.
pub fn str_eq(a: &str, b: &str) -> (r: bool)
    ensures
        r == (a@ == b@),
{
    let av = chars_of(a);
    let bv = chars_of(b);
    if av.len() != bv.len() {
        return false;
    }
    let r = matches_at_exec(&av, &bv, 0);
    assert(av@.subrange(0, av@.len() as int) =~= av@);
    r
}

/// Whether `p` occurs in `s` (as `str::contains` with a string pattern).
pub fn contains_chars(s: &Vec<char>, p: &Vec<char>) -> (r: bool)
    ensures
        r == contains_seq(s@, p@),
{
    if p.len() > s.len() {
        assert(forall|i: int| !matches_at(s@, p@, i));
        return false;
    }
    let last = s.len() - p.len();
    let mut i: usize = 0;
    loop
        invariant
            last + p.len() == s.len(),
            i <= last,
            forall|k: int| 0 <= k < i ==> !matches_at(s@, p@, k),
        ensures
            forall|k: int| 0 <= k <= last ==> !matches_at(s@, p@, k),
        decreases last - i,
    {
        if matches_at_exec(s, p, i) {
            return true;
        }
        if i == last {
            break;
        }
        i = i + 1;
    }
    assert forall|k: int| !matches_at(s@, p@, k) by {
        if 0 <= k && k <= last {
        }
    }
    false
}

/// Whether `p` occurs in `s`.
pub fn contains_str(s: &str, p: &str) -> (r: bool)
    ensures
        r == contains_seq(s@, p@),
{
    let sv = chars_of(s);
    let pv = chars_of(p);
    contains_chars(&sv, &pv)
}

/// Whether `s` begins with `p`.
pub fn starts_with_str(s: &str, p: &str) -> (r: bool)
    ensures
        r == starts_with_seq(s@, p@),
{
    let sv = chars_of(s);
    let pv = chars_of(p);
    let r = matches_at_exec(&sv, &pv, 0);
    assert(r == starts_with_seq(s@, p@));
    r
}

/// Whether the last character of `s` is `c`.
pub fn ends_with_char(s: &str, c: char) -> (r: bool)
    ensures
        r == (s@.len() > 0 && s@.last() == c),
{
    let sv = chars_of(s);
    sv.len() > 0 && sv[sv.len() - 1] == c
}

proof fn lemma_skip_shift(s: Seq<char>, i: int, k: int)
    requires
        0 <= i,
        0 <= k,
        i + k <= s.len(),
    ensures
        s.skip(i).skip(k) =~= s.skip(i + k),
        s.skip(i).subrange(0, k) =~= s.subrange(i, i + k),
{
}

/// The character sequences of a list of character vectors.
pub open spec fn pieces(v: Seq<Vec<char>>) -> Seq<Seq<char>> {
    v.map_values(|p: Vec<char>| p@)
}

/// The pieces of `s` separated by the non-empty separator `sep` (as
/// `str::split` with a string pattern).
pub fn split_chars(s: &Vec<char>, sep: &Vec<char>) -> (r: Vec<Vec<char>>)
    requires
        sep@.len() > 0,
    ensures
        pieces(r@) == split_seq(s@, sep@),
{
    let mut parts: Vec<Vec<char>> = Vec::new();
    let mut cur: Vec<char> = Vec::new();
    let mut i: usize = 0;
    assert(s@.skip(0) =~= s@);
    assert(pieces(parts@) =~= Seq::<Seq<char>>::empty());
    while i < s.len()
        invariant
            i <= s.len(),
            sep@.len() > 0,
            pieces(parts@) + split_from(s@.skip(i as int), sep@, cur@) == split_seq(s@, sep@),
        decreases s.len() - i,
    {
        let ghost rest = s@.skip(i as int);
        let ghost old_parts = pieces(parts@);
        if matches_at_exec(s, sep, i) {
            proof {
                lemma_skip_shift(s@, i as int, sep@.len() as int);
                assert(split_from(rest, sep@, cur@) == seq![cur@] + split_from(
                    s@.skip(i + sep@.len()),
                    sep@,
                    Seq::empty(),
                ));
            }
            parts.push(cur);
            cur = Vec::new();
            assert(pieces(parts@) =~= old_parts.push(pieces(parts@).last()));
            assert(cur@ =~= Seq::<char>::empty());
            assert(pieces(parts@) + split_from(s@.skip(i + sep@.len()), sep@, cur@) =~= old_parts
                + (seq![pieces(parts@).last()] + split_from(s@.skip(i + sep@.len()), sep@, cur@)));
            i = i + sep.len();
        } else {
            let ghost old_cur = cur@;
            proof {
                lemma_skip_shift(s@, i as int, 1);
                if rest.len() >= sep@.len() {
                    lemma_skip_shift(s@, i as int, sep@.len() as int);
                }
                assert(rest[0] == s@[i as int]);
                if rest.len() < sep@.len() {
                    assert(split_from(rest, sep@, old_cur) == seq![old_cur + rest]);
                    assert(split_from(s@.skip(i + 1), sep@, old_cur.push(s@[i as int])) == seq![
                        old_cur.push(s@[i as int]) + s@.skip(i + 1)]);
                    assert(old_cur + rest =~= old_cur.push(s@[i as int]) + s@.skip(i + 1));
                }
                assert(split_from(rest, sep@, old_cur) == split_from(
                    s@.skip(i + 1),
                    sep@,
                    old_cur.push(s@[i as int]),
                ));
            }
            cur.push(s[i]);
            i = i + 1;
        }
    }
    proof {
        let rest = s@.skip(i as int);
        assert(rest.len() == 0);
        assert(split_from(rest, sep@, cur@) == seq![cur@ + rest]);
        assert(cur@ + rest =~= cur@);
    }
    let ghost before = pieces(parts@);
    parts.push(cur);
    assert(pieces(parts@) =~= before.push(pieces(parts@).last()));
    assert(pieces(parts@) =~= before + seq![pieces(parts@).last()]);
    parts
}

/// Every non-overlapping occurrence of `from` in `s`, found from left to
/// right, replaced by `to` (as `str::replace` with a non-empty pattern).
pub fn replace_str(s: &str, from: &str, to: &str) -> (r: String)
    requires
        from@.len() > 0,
    ensures
        r@ == replace_all(s@, from@, to@),
{
    let sv = chars_of(s);
    let fv = chars_of(from);
    let tv = chars_of(to);
    let mut out = String::new();
    let mut i: usize = 0;
    assert(sv@.skip(0) =~= sv@);
    while i < sv.len()
        invariant
            i <= sv.len(),
            fv@.len() > 0,
            sv@ == s@,
            fv@ == from@,
            tv@ == to@,
            out@ + replace_all(sv@.skip(i as int), fv@, tv@) == replace_all(sv@, fv@, tv@),
        decreases sv.len() - i,
    {
            let ghost rest = sv@.skip(i as int);
        let ghost old_out = out@;
        if matches_at_exec(&sv, &fv, i) {
            proof {
                lemma_skip_shift(sv@, i as int, fv@.len() as int);
                assert(replace_all(rest, fv@, tv@) == tv@ + replace_all(
                    sv@.skip(i + fv@.len()),
                    fv@,
                    tv@,
                ));
            }
            push_chars(&mut out, &tv, 0, tv.len());
            assert(tv@.subrange(0, tv@.len() as int) =~= tv@);
            assert(out@ + replace_all(sv@.skip(i + fv@.len()), fv@, tv@) =~= old_out + (tv@
                + replace_all(sv@.skip(i + fv@.len()), fv@, tv@)));
            i = i + fv.len();
        } else {
            proof {
                lemma_skip_shift(sv@, i as int, 1);
                if rest.len() >= fv@.len() {
                    lemma_skip_shift(sv@, i as int, fv@.len() as int);
                }
                assert(rest[0] == sv@[i as int]);
                assert(replace_all(rest, fv@, tv@) == seq![sv@[i as int]] + replace_all(
                    sv@.skip(i + 1),
                    fv@,
                    tv@,
                ));
            }
            push_char(&mut out, sv[i]);
            assert(out@ + replace_all(sv@.skip(i + 1), fv@, tv@) =~= old_out + (seq![sv@[i as int]]
                + replace_all(sv@.skip(i + 1), fv@, tv@)));
            i = i + 1;
        }
    }
    assert(replace_all(sv@.skip(i as int), fv@, tv@) =~= Seq::<char>::empty());
    assert(out@ =~= out@ + Seq::<char>::empty());
    out
}

} // verus!
