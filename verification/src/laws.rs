//! Laws of the model: what holds of every rule set, every text and every tree.

use crate::book::ItemView;
use crate::model::{
    active, any_occurs_at, declared, loaded, occurs_at, position_of, precedes, replaced,
    replaced_from, valid, wins_among, wins_at, winner_at, with_rule, RuleView,
};
use crate::walker::{rewritten_item, rewritten_items};
use vstd::prelude::*;

verus! {

/// At most one rule wins at a position.
pub proof fn lemma_winner_unique(rules: Seq<RuleView>, text: Seq<char>, pos: int, a: int, b: int)
    requires
        wins_at(rules, text, pos, a),
        wins_at(rules, text, pos, b),
    ensures
        a == b,
{
    assert(precedes(rules, a, b));
    assert(precedes(rules, b, a));
}

/// A rule that wins at a position is the one that is applied there.
pub proof fn lemma_winner_is(rules: Seq<RuleView>, text: Seq<char>, pos: int, k: int)
    requires
        wins_at(rules, text, pos, k),
    ensures
        winner_at(rules, text, pos) == Some(k),
{
    let c = choose|c: int| wins_at(rules, text, pos, c);
    lemma_winner_unique(rules, text, pos, k, c);
}

/// As soon as one of the first `n` rules occurs at a position, one of them wins among them.
pub proof fn lemma_some_rule_wins_among(
    rules: Seq<RuleView>,
    n: int,
    text: Seq<char>,
    pos: int,
    j: int,
) -> (k: int)
    requires
        0 <= j < n <= rules.len(),
        occurs_at(rules[j].pattern, text, pos),
    ensures
        wins_among(rules, n, text, pos, k),
    decreases n,
{
    let last = n - 1;
    if exists|i: int| 0 <= i < last && occurs_at((#[trigger] rules[i]).pattern, text, pos) {
        let i = choose|i: int| 0 <= i < last && occurs_at((#[trigger] rules[i]).pattern, text, pos);
        let before = lemma_some_rule_wins_among(rules, last, text, pos, i);
        if occurs_at(rules[last].pattern, text, pos) && rules[last].pattern.len()
            > rules[before].pattern.len() {
            last
        } else {
            before
        }
    } else {
        last
    }
}

/// A rule is applied at a position exactly where some pattern occurs, and the
/// rule applied is the one that takes precedence over all that occur there.
pub proof fn lemma_winner_characterized(rules: Seq<RuleView>, text: Seq<char>, pos: int)
    ensures
        winner_at(rules, text, pos) is Some <==> any_occurs_at(rules, text, pos),
        winner_at(rules, text, pos) matches Some(k) ==> wins_at(rules, text, pos, k),
{
    if any_occurs_at(rules, text, pos) {
        let j = choose|j: int| 0 <= j < rules.len() && occurs_at((#[trigger] rules[j]).pattern, text, pos);
        let k = lemma_some_rule_wins_among(rules, rules.len() as int, text, pos, j);
        lemma_winner_is(rules, text, pos, k);
    }
}

/// In a valid rule set the rule applied at a position is strictly longer than
/// every other rule whose pattern occurs there: a pattern never shadows a
/// longer one that starts with it.
pub proof fn lemma_winner_is_longest(rules: Seq<RuleView>, text: Seq<char>, pos: int, j: int)
    requires
        valid(rules),
        0 <= j < rules.len(),
        occurs_at(rules[j].pattern, text, pos),
    ensures
        winner_at(rules, text, pos) matches Some(k) && (k == j || rules[k].pattern.len()
            > rules[j].pattern.len()),
{
    lemma_winner_characterized(rules, text, pos);
    let k = winner_at(rules, text, pos)->Some_0;
    assert(precedes(rules, k, j));
    if k != j && rules[k].pattern.len() == rules[j].pattern.len() {
        assert(rules[k].pattern =~= text.subrange(pos, pos + rules[k].pattern.len()));
        assert(rules[j].pattern =~= text.subrange(pos, pos + rules[j].pattern.len()));
        assert(rules[k].pattern == rules[j].pattern);
    }
}

/// Where no pattern occurs anywhere at or behind `pos`, the rest of the text is
/// emitted as it stands.
pub proof fn lemma_nothing_occurs_from(rules: Seq<RuleView>, text: Seq<char>, pos: int)
    requires
        0 <= pos <= text.len(),
        forall|p: int| pos <= p < text.len() ==> !any_occurs_at(rules, text, p),
    ensures
        replaced_from(rules, text, pos) == text.subrange(pos, text.len() as int),
    decreases text.len() - pos,
{
    if pos < text.len() {
        lemma_winner_characterized(rules, text, pos);
        lemma_nothing_occurs_from(rules, text, pos + 1);
        assert(seq![text[pos]] + text.subrange(pos + 1, text.len() as int) =~= text.subrange(
            pos,
            text.len() as int,
        ));
    } else {
        assert(text.subrange(pos, text.len() as int) =~= Seq::<char>::empty());
    }
}

/// A text in which no pattern occurs is left unchanged.
pub proof fn lemma_nothing_occurs_is_identity(rules: Seq<RuleView>, text: Seq<char>)
    requires
        forall|p: int| 0 <= p < text.len() ==> !any_occurs_at(rules, text, p),
    ensures
        replaced(rules, text) == text,
{
    lemma_nothing_occurs_from(rules, text, 0);
    assert(text.subrange(0, text.len() as int) =~= text);
}

/// Which rule is applied at a position depends on the patterns alone: two rule
/// sets with the same patterns in the same order match alike, whatever their
/// replacements are. Replacement text therefore takes no part in matching.
pub proof fn lemma_matching_ignores_replacements(
    a: Seq<RuleView>,
    b: Seq<RuleView>,
    text: Seq<char>,
    pos: int,
)
    requires
        a.len() == b.len(),
        forall|i: int| 0 <= i < a.len() ==> (#[trigger] a[i]).pattern == b[i].pattern,
    ensures
        winner_at(a, text, pos) == winner_at(b, text, pos),
{
    lemma_winner_characterized(a, text, pos);
    lemma_winner_characterized(b, text, pos);
    match winner_at(a, text, pos) {
        Some(k) => {
            assert(a[k].pattern == b[k].pattern);
            assert forall|j: int|
                0 <= j < b.len() && occurs_at((#[trigger] b[j]).pattern, text, pos) implies precedes(
                b,
                k,
                j,
            ) by {
                assert(a[j].pattern == b[j].pattern);
                assert(precedes(a, k, j));
            }
            lemma_winner_is(b, text, pos, k);
        },
        None => {
            if any_occurs_at(b, text, pos) {
                let j = choose|j: int|
                    0 <= j < b.len() && occurs_at((#[trigger] b[j]).pattern, text, pos);
                assert(a[j].pattern == b[j].pattern);
                assert(occurs_at(a[j].pattern, text, pos));
            }
        },
    }
}

/// Whether a pattern occurs at a position does not depend on the text before
/// that position.
pub proof fn lemma_occurrence_ignores_what_came_before(
    pattern: Seq<char>,
    before: Seq<char>,
    text: Seq<char>,
    pos: int,
)
    requires
        0 <= pos,
    ensures
        occurs_at(pattern, before + text, before.len() + pos) == occurs_at(pattern, text, pos),
{
    let whole = before + text;
    let start = before.len() + pos;
    if 0 < pattern.len() && pos + pattern.len() <= text.len() {
        assert(whole.subrange(start, start + pattern.len()) =~= text.subrange(
            pos,
            pos + pattern.len(),
        ));
    }
}

/// The scan never looks back: what is emitted from a position on does not depend
/// on the text before that position.
pub proof fn lemma_scan_never_looks_back(
    rules: Seq<RuleView>,
    before: Seq<char>,
    text: Seq<char>,
    pos: int,
)
    requires
        0 <= pos <= text.len(),
    ensures
        replaced_from(rules, before + text, before.len() + pos) == replaced_from(rules, text, pos),
    decreases text.len() - pos,
{
    let whole = before + text;
    let start = before.len() + pos;
    if pos < text.len() {
        assert forall|j: int| 0 <= j < rules.len() implies occurs_at(
            (#[trigger] rules[j]).pattern,
            whole,
            start,
        ) == occurs_at(rules[j].pattern, text, pos) by {
            lemma_occurrence_ignores_what_came_before(rules[j].pattern, before, text, pos);
        }
        lemma_winner_characterized(rules, text, pos);
        lemma_winner_characterized(rules, whole, start);
        match winner_at(rules, text, pos) {
            Some(k) => {
                lemma_winner_is(rules, whole, start, k);
                lemma_scan_never_looks_back(rules, before, text, pos + rules[k].pattern.len());
            },
            None => {
                assert(whole[start] == text[pos]);
                lemma_scan_never_looks_back(rules, before, text, pos + 1);
            },
        }
    }
}

/// The empty rule set leaves every text unchanged.
pub proof fn lemma_empty_set_is_identity(text: Seq<char>)
    ensures
        replaced(Seq::<RuleView>::empty(), text) == text,
{
    lemma_nothing_occurs_is_identity(Seq::<RuleView>::empty(), text);
}

/// Every rule set leaves the empty text empty.
pub proof fn lemma_empty_text_stays_empty(rules: Seq<RuleView>)
    ensures
        replaced(rules, Seq::<char>::empty()) == Seq::<char>::empty(),
{
}

/// `position_of` gives the first rule that holds the pattern, and nothing
/// exactly when no rule holds it.
pub proof fn lemma_position_is_first(rules: Seq<RuleView>, pattern: Seq<char>)
    ensures
        match position_of(rules, pattern) {
            Some(i) => {
                &&& 0 <= i < rules.len()
                &&& rules[i].pattern == pattern
                &&& forall|j: int| 0 <= j < i ==> (#[trigger] rules[j]).pattern != pattern
            },
            None => forall|j: int| 0 <= j < rules.len() ==> (#[trigger] rules[j]).pattern != pattern,
        },
    decreases rules.len(),
{
    if rules.len() > 0 {
        lemma_position_is_first(rules.drop_last(), pattern);
        assert(forall|j: int| 0 <= j < rules.len() - 1 ==> rules.drop_last()[j] == rules[j]);
    }
}

/// The first rule that holds a pattern is its position.
pub proof fn lemma_first_is_position(rules: Seq<RuleView>, pattern: Seq<char>, i: int)
    requires
        0 <= i < rules.len(),
        rules[i].pattern == pattern,
        forall|j: int| 0 <= j < i ==> (#[trigger] rules[j]).pattern != pattern,
    ensures
        position_of(rules, pattern) == Some(i),
{
    lemma_position_is_first(rules, pattern);
}

/// Registering a rule keeps a rule set valid.
pub proof fn lemma_with_rule_valid(rules: Seq<RuleView>, pattern: Seq<char>, replacement: Seq<char>)
    requires
        valid(rules),
    ensures
        valid(with_rule(rules, pattern, replacement)),
{
    lemma_position_is_first(rules, pattern);
}

/// After registering a rule, its replacement is the one in force for its
/// pattern, and every other pattern keeps what it had.
pub proof fn lemma_with_rule_active(
    rules: Seq<RuleView>,
    pattern: Seq<char>,
    replacement: Seq<char>,
    other: Seq<char>,
)
    requires
        pattern.len() > 0,
    ensures
        active(with_rule(rules, pattern, replacement), pattern) == Some(replacement),
        other != pattern ==> active(with_rule(rules, pattern, replacement), other) == active(
            rules,
            other,
        ),
{
    let after = with_rule(rules, pattern, replacement);
    lemma_position_is_first(rules, pattern);
    lemma_position_is_first(rules, other);
    match position_of(rules, pattern) {
        Some(i) => {
            lemma_first_is_position(after, pattern, i);
            match position_of(rules, other) {
                Some(o) => {
                    if other != pattern {
                        lemma_first_is_position(after, other, o);
                    }
                },
                None => {
                    lemma_position_is_first(after, other);
                },
            }
        },
        None => {
            lemma_first_is_position(after, pattern, rules.len() as int);
            match position_of(rules, other) {
                Some(o) => {
                    lemma_first_is_position(after, other, o);
                },
                None => {
                    lemma_position_is_first(after, other);
                },
            }
        },
    }
}

/// Loading any list of pairs gives a valid rule set.
pub proof fn lemma_loaded_valid(pairs: Seq<(Seq<char>, Seq<char>)>)
    ensures
        valid(loaded(pairs)),
    decreases pairs.len(),
{
    if pairs.len() > 0 {
        lemma_loaded_valid(pairs.drop_last());
        lemma_with_rule_valid(loaded(pairs.drop_last()), pairs.last().0, pairs.last().1);
    }
}

/// Where a pattern is declared more than once, the last declaration is the one
/// in force after loading.
pub proof fn lemma_last_declaration_wins(pairs: Seq<(Seq<char>, Seq<char>)>, i: int)
    requires
        0 <= i < pairs.len(),
        pairs[i].0.len() > 0,
        forall|j: int| i < j < pairs.len() ==> (#[trigger] pairs[j]).0 != pairs[i].0,
    ensures
        active(loaded(pairs), pairs[i].0) == Some(pairs[i].1),
    decreases pairs.len(),
{
    let earlier = pairs.drop_last();
    let last = pairs.last();
    if i == pairs.len() - 1 {
        lemma_with_rule_active(loaded(earlier), last.0, last.1, last.0);
    } else {
        assert(earlier[i] == pairs[i]);
        assert forall|j: int| i < j < earlier.len() implies (#[trigger] earlier[j]).0 != earlier[i].0 by {
            assert(earlier[j] == pairs[j]);
        }
        lemma_last_declaration_wins(earlier, i);
        assert(last.0 != pairs[i].0);
        if last.0.len() > 0 {
            lemma_with_rule_active(loaded(earlier), last.0, last.1, pairs[i].0);
        }
    }
}

/// A pattern that was never declared, or is empty, has no replacement after loading.
pub proof fn lemma_undeclared_is_absent(pairs: Seq<(Seq<char>, Seq<char>)>, pattern: Seq<char>)
    requires
        pattern.len() == 0 || forall|j: int| 0 <= j < pairs.len() ==> (#[trigger] pairs[j]).0 != pattern,
    ensures
        active(loaded(pairs), pattern) is None,
    decreases pairs.len(),
{
    if pairs.len() > 0 {
        let earlier = pairs.drop_last();
        let last = pairs.last();
        assert forall|j: int| 0 <= j < earlier.len() implies (#[trigger] earlier[j]).0 != pattern
            || pattern.len() == 0 by {
            assert(earlier[j] == pairs[j]);
        }
        lemma_undeclared_is_absent(earlier, pattern);
        if last.0.len() > 0 {
            if pattern.len() == 0 {
                assert(last.0 != pattern);
            } else {
                assert(pairs[pairs.len() - 1].0 != pattern);
            }
            lemma_with_rule_active(loaded(earlier), last.0, last.1, pattern);
        }
    }
}

/// Loading the pairs of a valid rule set gives that rule set back.
pub proof fn lemma_loaded_declared(rules: Seq<RuleView>)
    requires
        valid(rules),
    ensures
        loaded(declared(rules)) == rules,
    decreases rules.len(),
{
    if rules.len() == 0 {
        assert(loaded(declared(rules)) =~= rules);
    } else {
        let earlier = rules.drop_last();
        let last = rules.last();
        assert(declared(rules).drop_last() =~= declared(earlier));
        assert(declared(rules).last() == (last.pattern, last.replacement));
        lemma_loaded_declared(earlier);
        lemma_position_is_first(earlier, last.pattern);
        assert(earlier.push(RuleView { pattern: last.pattern, replacement: last.replacement })
            =~= rules);
    }
}

/// Substitution keeps the shape of a list of items: as many items come out as
/// went in, what is no chapter stays what it was and where it was, and a
/// chapter keeps all but its text and the texts below it.
pub proof fn lemma_rewritten_items_shape(rules: Seq<RuleView>, items: Seq<ItemView>, i: int)
    requires
        0 <= i < items.len(),
    ensures
        rewritten_items(rules, items).len() == items.len(),
        rewritten_items(rules, items)[i] == rewritten_item(rules, items[i]),
        items[i] !is Chapter ==> rewritten_items(rules, items)[i] == items[i],
        items[i] matches ItemView::Chapter(before) ==> {
            &&& rewritten_items(rules, items)[i] matches ItemView::Chapter(after)
            &&& after.content == replaced(rules, before.content)
            &&& after.sub_items == rewritten_items(rules, before.sub_items)
            &&& after.name == before.name
            &&& after.number == before.number
            &&& after.path == before.path
            &&& after.source_path == before.source_path
            &&& after.parent_names == before.parent_names
        },
{
}

/// Without rules, substitution leaves an item as it is.
pub proof fn lemma_no_rules_no_change_in_item(item: ItemView)
    ensures
        rewritten_item(Seq::<RuleView>::empty(), item) == item,
    decreases item,
{
    match item {
        ItemView::Chapter(chapter) => {
            lemma_empty_set_is_identity(chapter.content);
            lemma_no_rules_no_change(chapter.sub_items);
        },
        _ => {},
    }
}

/// Without rules, substitution leaves a whole tree as it is.
pub proof fn lemma_no_rules_no_change(items: Seq<ItemView>)
    ensures
        rewritten_items(Seq::<RuleView>::empty(), items) == items,
    decreases items,
{
    assert forall|i: int| 0 <= i < items.len() implies rewritten_item(
        Seq::<RuleView>::empty(),
        #[trigger] items[i],
    ) == items[i] by {
        lemma_no_rules_no_change_in_item(items[i]);
    }
    assert(rewritten_items(Seq::<RuleView>::empty(), items) =~= items);
}

} // verus!
