//! Scoring helpers of the behavior selection study: how a selection is
//! recorded and judged, and the counts the study's statistics are made of.
use vstd::prelude::*;

use crate::behavior::BehaviorResult;
use crate::str_map::{lookup, StrMap};
use crate::strategy::{priority_as_i32, priority_i32};
use crate::text::{
    chars_of, contains_chars, contains_seq, contains_str, split_chars, split_seq, str_lowercase,
    to_lowercase,
};

verus! {

/// Whether a selected behavior's name, lowercased, matches the expected
/// category, lowercased: a category such as `flee_or_cautious` lists
/// alternatives separated by `_or_`, any of which may occur in the name;
/// otherwise the category itself must occur in the name.
pub open spec fn category_matches(selected: Seq<char>, expected: Seq<char>) -> bool {
    if contains_seq(expected, "_or_"@) {
        exists|k: int|
            0 <= k < split_seq(expected, "_or_"@).len() && contains_seq(
                selected,
                #[trigger] split_seq(expected, "_or_"@)[k],
            )
    } else {
        contains_seq(selected, expected)
    }
}

/// Check if selected behavior matches expected category, ignoring case.
pub fn check_expected_match(selected: &str, expected: &str) -> (r: bool)
    ensures
        r == category_matches(str_lowercase(selected@), str_lowercase(expected@)),
{
    let selected_lower = to_lowercase(selected);
    let expected_lower = to_lowercase(expected);
    check_lowercase_match(&selected_lower, &expected_lower)
}

/// Check if an already lowercased behavior name matches an already
/// lowercased expected category.
pub fn check_lowercase_match(selected: &str, expected: &str) -> (r: bool)
    ensures
        r == category_matches(selected@, expected@),
{
    let sel = chars_of(selected);
    let exp = chars_of(expected);
    let sep = chars_of("_or_");
    proof {
        reveal_strlit("_or_");
    }
    if contains_chars(&exp, &sep) {
        let parts = split_chars(&exp, &sep);
        let ghost ps = split_seq(expected@, "_or_"@);
        assert(crate::text::pieces(parts@) == ps);
        assert forall|j: int| 0 <= j < parts@.len() implies #[trigger] parts@[j]@ == ps[j] by {
            assert(crate::text::pieces(parts@)[j] == parts@[j]@);
        }
        let mut k: usize = 0;
        while k < parts.len()
            invariant
                k <= parts.len(),
                ps == split_seq(expected@, "_or_"@),
                contains_seq(expected@, "_or_"@),
                parts@.len() == ps.len(),
                forall|j: int| 0 <= j < parts@.len() ==> #[trigger] parts@[j]@ == ps[j],
                sel@ == selected@,
                forall|j: int| 0 <= j < k ==> !contains_seq(selected@, #[trigger] ps[j]),
            decreases parts.len() - k,
        {
            if contains_chars(&sel, &parts[k]) {
                assert(contains_seq(selected@, ps[k as int]));
                return true;
            }
            k = k + 1;
        }
        false
    } else {
        contains_chars(&sel, &exp)
    }
}

/// The text recorded for a behavior's result: a response as it is, an
/// action as `[Action: ...]`, and `No response` for no result.
pub open spec fn result_text(r: BehaviorResult) -> Seq<char> {
    match r {
        BehaviorResult::Response(t) => t@,
        BehaviorResult::Action(a) => "[Action: "@ + a@ + "]"@,
        BehaviorResult::NoResult => "No response"@,
    }
}

/// Extract the text recorded for a behavior's result.
pub fn response_text(r: &BehaviorResult) -> (t: String)
    ensures
        t@ == result_text(*r),
{
    match r {
        BehaviorResult::Response(text) => text.clone(),
        BehaviorResult::Action(action) => {
            let mut t = String::new();
            t.append("[Action: ");
            t.append(action.as_str());
            t.append("]");
            t
        },
        BehaviorResult::NoResult => "No response".to_owned(),
    }
}

/// Name fragments of the neutral fallback behaviors.
pub open spec fn neutral_markers() -> Seq<Seq<char>> {
    seq!["Neutral"@, "Confused"@, "Polite"@, "Thoughtful"@, "Default"@]
}

/// Whether a selected behavior's name marks it as a neutral fallback
/// rather than an emotional behavior.
pub fn is_neutral_behavior(name: &str) -> (r: bool)
    ensures
        r == exists|k: int|
            0 <= k < neutral_markers().len() && contains_seq(name@, #[trigger] neutral_markers()[k]),
{
    let markers: Vec<&str> = vec!["Neutral", "Confused", "Polite", "Thoughtful", "Default"];
    let ghost ms = markers@.map_values(|m: &str| m@);
    assert(ms =~= neutral_markers());
    let mut i: usize = 0;
    while i < markers.len()
        invariant
            i <= markers.len(),
            ms == markers@.map_values(|m: &str| m@),
            ms == neutral_markers(),
            forall|k: int| 0 <= k < i ==> !contains_seq(name@, #[trigger] ms[k]),
        decreases markers.len() - i,
    {
        if contains_str(name, markers[i]) {
            assert(contains_seq(name@, ms[i as int]));
            return true;
        }
        i = i + 1;
    }
    false
}

/// Number of maximal runs of `true` in `flags` at least `min_run` long,
/// when the run just before `flags` is `run` long.
pub open spec fn long_runs_after(flags: Seq<bool>, run: nat, min_run: nat) -> nat
    decreases flags.len(),
{
    if flags.len() == 0 {
        if run >= min_run {
            1
        } else {
            0
        }
    } else if flags[0] {
        long_runs_after(flags.skip(1), run + 1, min_run)
    } else {
        (if run >= min_run {
            1nat
        } else {
            0nat
        }) + long_runs_after(flags.skip(1), 0, min_run)
    }
}

/// Number of maximal runs of `true` in `flags` at least `min_run` long.
pub open spec fn long_runs(flags: Seq<bool>, min_run: nat) -> nat {
    long_runs_after(flags, 0, min_run)
}

/// Count the times an emotion stayed at its maximum for at least `min_run`
/// consecutive turns; `at_max` tells, turn by turn, whether it was at its
/// maximum.
pub fn count_stuck_runs(at_max: &[bool], min_run: usize) -> (r: usize)
    requires
        min_run > 0,
    ensures
        r == long_runs(at_max@, min_run as nat),
{
    let mut count: usize = 0;
    let mut run: usize = 0;
    let mut k: usize = 0;
    proof {
        assert(at_max@.skip(0) =~= at_max@);
    }
    while k < at_max.len()
        invariant
            k <= at_max@.len(),
            min_run > 0,
            count + run <= k,
            count + long_runs_after(at_max@.skip(k as int), run as nat, min_run as nat)
                == long_runs(at_max@, min_run as nat),
        decreases at_max.len() - k,
    {
        proof {
            assert(at_max@.skip(k as int).skip(1) =~= at_max@.skip(k + 1));
            assert(at_max@.skip(k as int)[0] == at_max@[k as int]);
        }
        if at_max[k] {
            run = run + 1;
        } else {
            if run >= min_run {
                count = count + 1;
            }
            run = 0;
        }
        k = k + 1;
    }
    if run >= min_run {
        count = count + 1;
    }
    count
}

/// What the priority override check knows of a behavior that matches the
/// intent.
#[derive(Debug, Clone)]
pub struct RankedBehavior {
    /// The behavior's description, in which its name occurs
    pub label: String,
    /// Base priority of the behavior
    pub priority: u32,
    /// Emotional priority modifier of the behavior
    pub modifier: i32,
}

/// A behavior's rank by base priority alone (read as an `i32`).
pub open spec fn base_rank(b: RankedBehavior) -> int {
    priority_as_i32(b.priority)
}

/// A behavior's rank by base priority plus emotional modifier.
pub open spec fn effective_rank(b: RankedBehavior) -> int {
    priority_as_i32(b.priority) + b.modifier
}

/// `i` is the first position of a greatest value of `keys`.
pub open spec fn is_first_greatest(keys: Seq<int>, i: int) -> bool {
    &&& 0 <= i < keys.len()
    &&& forall|j: int| 0 <= j < keys.len() ==> #[trigger] keys[j] <= keys[i]
    &&& forall|j: int| 0 <= j < i ==> #[trigger] keys[j] < keys[i]
}

/// Ranks can be negated in an `i32`, as ordering by the negated rank does.
pub open spec fn ranks_negatable(bs: Seq<RankedBehavior>) -> bool {
    forall|j: int|
        0 <= j < bs.len() ==> i32::MIN < base_rank(#[trigger] bs[j]) && i32::MIN < effective_rank(
            bs[j],
        ) <= i32::MAX
}

/// The emotional modifier changed the selection: the behavior ranked
/// first by base priority is not the selected one, while the behavior
/// ranked first by effective priority is (a behavior is the selected one
/// when the selected name occurs in its description; ties go to the
/// earlier behavior).
pub open spec fn override_occurred(bs: Seq<RankedBehavior>, selected: Seq<char>) -> bool {
    exists|b: int, e: int|
        is_first_greatest(bs.map_values(|x: RankedBehavior| base_rank(x)), b) && is_first_greatest(
            bs.map_values(|x: RankedBehavior| effective_rank(x)),
            e,
        ) && !contains_seq(#[trigger] bs[b].label@, selected) && contains_seq(
            #[trigger] bs[e].label@,
            selected,
        )
}

proof fn lemma_first_greatest_unique(keys: Seq<int>, i: int, j: int)
    requires
        is_first_greatest(keys, i),
        is_first_greatest(keys, j),
    ensures
        i == j,
{
    if i < j {
        assert(keys[i] < keys[j]);
        assert(keys[i] <= keys[j] && keys[j] <= keys[i]);
    } else if j < i {
        assert(keys[j] < keys[i]);
        assert(keys[j] <= keys[i] && keys[i] <= keys[j]);
    }
}

/// Detect whether the emotional modifier changed which behavior was
/// selected among those matching the intent.
pub fn detect_priority_override(matching: &Vec<RankedBehavior>, selected: &str) -> (r: bool)
    requires
        ranks_negatable(matching@),
    ensures
        r == override_occurred(matching@, selected@),
{
    let ghost bs = matching@;
    let ghost base = bs.map_values(|x: RankedBehavior| base_rank(x));
    let ghost eff = bs.map_values(|x: RankedBehavior| effective_rank(x));
    if matching.len() == 0 {
        return false;
    }
    let mut bi: usize = 0;
    let mut ei: usize = 0;
    let mut best_base: i64 = priority_i32(matching[0].priority);
    let mut best_eff: i64 = best_base + matching[0].modifier as i64;
    let mut k: usize = 1;
    while k < matching.len()
        invariant
            1 <= k <= matching.len(),
            bs == matching@,
            base == bs.map_values(|x: RankedBehavior| base_rank(x)),
            eff == bs.map_values(|x: RankedBehavior| effective_rank(x)),
            is_first_greatest(base.take(k as int), bi as int),
            is_first_greatest(eff.take(k as int), ei as int),
            best_base == base[bi as int],
            best_eff == eff[ei as int],
        decreases matching.len() - k,
    {
        let pb = priority_i32(matching[k].priority);
        let pe = pb + matching[k].modifier as i64;
        proof {
            assert(base.take(k + 1) =~= base.take(k as int).push(base[k as int]));
            assert(eff.take(k + 1) =~= eff.take(k as int).push(eff[k as int]));
            assert(base.take(k as int)[bi as int] == base[bi as int]);
            assert(eff.take(k as int)[ei as int] == eff[ei as int]);
        }
        if pb > best_base {
            bi = k;
            best_base = pb;
        }
        if pe > best_eff {
            ei = k;
            best_eff = pe;
        }
        k = k + 1;
    }
    proof {
        assert(base.take(k as int) =~= base);
        assert(eff.take(k as int) =~= eff);
    }
    let r = !contains_str(matching[bi].label.as_str(), selected) && contains_str(
        matching[ei].label.as_str(),
        selected,
    );
    proof {
        if r {
            assert(override_occurred(bs, selected@));
        }
        if override_occurred(bs, selected@) {
            let (b, e) = choose|b: int, e: int|
                is_first_greatest(base, b) && is_first_greatest(eff, e) && !contains_seq(
                    #[trigger] bs[b].label@,
                    selected@,
                ) && contains_seq(#[trigger] bs[e].label@, selected@);
            lemma_first_greatest_unique(base, b, bi as int);
            lemma_first_greatest_unique(eff, e, ei as int);
        }
    }
    r
}

/// Number of times `k` occurs in `names`.
pub open spec fn occurrences(names: Seq<Seq<char>>, k: Seq<char>) -> nat
    decreases names.len(),
{
    if names.len() == 0 {
        0
    } else {
        occurrences(names.drop_last(), k) + if names.last() == k {
            1nat
        } else {
            0nat
        }
    }
}

proof fn lemma_occurrences_bound(names: Seq<Seq<char>>, k: Seq<char>)
    ensures
        occurrences(names, k) <= names.len(),
    decreases names.len(),
{
    if names.len() > 0 {
        lemma_occurrences_bound(names.drop_last(), k);
    }
}

/// Count how often each behavior was selected: the count of a name is the
/// number of times it occurs in `selected`, and a name that never occurs
/// has no count.
pub fn count_selections(selected: &Vec<String>) -> (r: StrMap<usize>)
    ensures
        forall|k: Seq<char>|
            #[trigger] lookup(r@, k) == if occurrences(selected@.map_values(|s: String| s@), k) > 0 {
                Some(occurrences(selected@.map_values(|s: String| s@), k) as usize)
            } else {
                None
            },
{
    let ghost names = selected@.map_values(|s: String| s@);
    let mut counts: StrMap<usize> = StrMap::new();
    let mut i: usize = 0;
    while i < selected.len()
        invariant
            i <= selected.len(),
            names == selected@.map_values(|s: String| s@),
            forall|k: Seq<char>|
                #[trigger] lookup(counts@, k) == if occurrences(names.take(i as int), k) > 0 {
                    Some(occurrences(names.take(i as int), k) as usize)
                } else {
                    None
                },
        decreases selected.len() - i,
    {
        let name = &selected[i];
        proof {
            assert(names.take(i + 1).drop_last() =~= names.take(i as int));
            assert(names.take(i + 1).last() == name@);
            lemma_occurrences_bound(names.take(i as int), name@);
        }
        let n: usize = match counts.get(name.as_str()) {
            Some(c) => *c,
            None => 0,
        };
        assert(n == occurrences(names.take(i as int), name@));
        counts.insert(name.clone(), n + 1);
        i = i + 1;
    }
    assert(names.take(selected@.len() as int) =~= names);
    counts
}

} // verus!
