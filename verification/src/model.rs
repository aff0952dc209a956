//! The mathematical model of a rule set and of substitution.
//!
//! A rule set is a sequence of rules in registration order. Substitution scans
//! the text once from the left: at each position the longest pattern that occurs
//! there wins (the earliest registered among equally long ones), its replacement
//! is emitted and the scan resumes behind the matched pattern; where nothing
//! occurs, the character is copied. Emitted text is never scanned again.

use vstd::prelude::*;

verus! {

/// One rule as contracts see it: the pattern to find and the text to put in its place.
pub struct RuleView {
    pub pattern: Seq<char>,
    pub replacement: Seq<char>,
}

/// A rule set is valid when no pattern is empty and no pattern is held twice.
pub open spec fn valid(rules: Seq<RuleView>) -> bool {
    &&& forall|i: int| 0 <= i < rules.len() ==> (#[trigger] rules[i]).pattern.len() > 0
    &&& forall|i: int, j: int|
        0 <= i < j < rules.len() ==> (#[trigger] rules[i]).pattern != (#[trigger] rules[j]).pattern
}

/// `pattern` is not empty and stands in `text` starting exactly at `pos`.
pub open spec fn occurs_at(pattern: Seq<char>, text: Seq<char>, pos: int) -> bool {
    &&& 0 < pattern.len()
    &&& 0 <= pos
    &&& pos + pattern.len() <= text.len()
    &&& text.subrange(pos, pos + pattern.len()) =~= pattern
}

/// Rule `k` takes precedence over rule `j`: its pattern is longer, or as long
/// and registered no later.
pub open spec fn precedes(rules: Seq<RuleView>, k: int, j: int) -> bool {
    ||| rules[k].pattern.len() > rules[j].pattern.len()
    ||| (rules[k].pattern.len() == rules[j].pattern.len() && k <= j)
}

/// Among the first `n` rules, rule `k` occurs at `pos` and takes precedence over
/// every other of them that occurs there.
pub open spec fn wins_among(rules: Seq<RuleView>, n: int, text: Seq<char>, pos: int, k: int) -> bool {
    &&& 0 <= k < n <= rules.len()
    &&& occurs_at(rules[k].pattern, text, pos)
    &&& forall|j: int|
        0 <= j < n && occurs_at((#[trigger] rules[j]).pattern, text, pos) ==> precedes(rules, k, j)
}

/// Rule `k` is the one applied at `pos`.
pub open spec fn wins_at(rules: Seq<RuleView>, text: Seq<char>, pos: int, k: int) -> bool {
    wins_among(rules, rules.len() as int, text, pos, k)
}

/// Some rule's pattern occurs at `pos`.
pub open spec fn any_occurs_at(rules: Seq<RuleView>, text: Seq<char>, pos: int) -> bool {
    exists|j: int| 0 <= j < rules.len() && occurs_at((#[trigger] rules[j]).pattern, text, pos)
}

/// The index of the rule applied at `pos`, if any rule occurs there.
pub open spec fn winner_at(rules: Seq<RuleView>, text: Seq<char>, pos: int) -> Option<int> {
    if exists|k: int| wins_at(rules, text, pos, k) {
        Some(choose|k: int| wins_at(rules, text, pos, k))
    } else {
        None
    }
}

/// What substitution emits for the part of `text` that starts at `pos`.
pub open spec fn replaced_from(rules: Seq<RuleView>, text: Seq<char>, pos: int) -> Seq<char>
    decreases text.len() - pos,
{
    if pos < 0 || pos >= text.len() {
        Seq::empty()
    } else {
        match winner_at(rules, text, pos) {
            Some(k) => rules[k].replacement + replaced_from(
                rules,
                text,
                pos + rules[k].pattern.len(),
            ),
            None => seq![text[pos]] + replaced_from(rules, text, pos + 1),
        }
    }
}

/// The result of substitution on the whole of `text`.
pub open spec fn replaced(rules: Seq<RuleView>, text: Seq<char>) -> Seq<char> {
    replaced_from(rules, text, 0)
}

/// The index of the first rule that holds `pattern`, if there is one.
pub open spec fn position_of(rules: Seq<RuleView>, pattern: Seq<char>) -> Option<int>
    decreases rules.len(),
{
    if rules.len() == 0 {
        None
    } else {
        match position_of(rules.drop_last(), pattern) {
            Some(i) => Some(i),
            None => if rules.last().pattern == pattern {
                Some(rules.len() - 1)
            } else {
                None
            },
        }
    }
}

/// The replacement in force for `pattern`, if the set holds it.
pub open spec fn active(rules: Seq<RuleView>, pattern: Seq<char>) -> Option<Seq<char>> {
    match position_of(rules, pattern) {
        Some(i) => Some(rules[i].replacement),
        None => None,
    }
}

/// The rule set after registering `pattern` with `replacement`: an empty pattern
/// is ignored, a pattern already held keeps its place and takes the new
/// replacement, a new pattern goes to the end.
pub open spec fn with_rule(rules: Seq<RuleView>, pattern: Seq<char>, replacement: Seq<char>) -> Seq<
    RuleView,
> {
    if pattern.len() == 0 {
        rules
    } else {
        match position_of(rules, pattern) {
            Some(i) => rules.update(i, RuleView { pattern, replacement }),
            None => rules.push(RuleView { pattern, replacement }),
        }
    }
}

/// The rule set that results from registering `pairs` in order, starting with none.
pub open spec fn loaded(pairs: Seq<(Seq<char>, Seq<char>)>) -> Seq<RuleView>
    decreases pairs.len(),
{
    if pairs.len() == 0 {
        Seq::empty()
    } else {
        with_rule(loaded(pairs.drop_last()), pairs.last().0, pairs.last().1)
    }
}

/// The rules of a set as pairs of pattern and replacement, in order.
pub open spec fn declared(rules: Seq<RuleView>) -> Seq<(Seq<char>, Seq<char>)> {
    Seq::new(rules.len(), |i: int| (rules[i].pattern, rules[i].replacement))
}

} // verus!
