//! The rule set and the substitution engine.

use crate::laws::{
    lemma_first_is_position, lemma_loaded_valid, lemma_position_is_first,
    lemma_winner_characterized, lemma_winner_is, lemma_with_rule_valid,
};
use crate::model::{
    active, declared, loaded, occurs_at, position_of, replaced, replaced_from, valid, wins_among,
    winner_at, with_rule, RuleView,
};
use crate::text::{chars_of, push_char, same_chars, string_of};
use vstd::prelude::*;

verus! {

/// One registered rule. The pattern is kept decoded, so that matching reads
/// characters by index.
struct Rule {
    pattern: Vec<char>,
    replacement: String,
}

impl View for Rule {
    type V = RuleView;

    closed spec fn view(&self) -> RuleView {
        RuleView { pattern: self.pattern@, replacement: self.replacement@ }
    }
}

/// An ordered set of find-and-replace rules.
///
/// No pattern is empty and no pattern is held twice; the rules stand in the
/// order in which their patterns were first registered.
pub struct Replacements {
    rules: Vec<Rule>,
}

impl View for Replacements {
    type V = Seq<RuleView>;

    closed spec fn view(&self) -> Seq<RuleView> {
        Seq::new(self.rules@.len(), |i: int| self.rules@[i]@)
    }
}

/// Whether `pattern` stands in `text` at `pos`.
fn occurs_here(pattern: &Vec<char>, text: &Vec<char>, pos: usize) -> (found: bool)
    requires
        pos <= text.len(),
    ensures
        found == occurs_at(pattern@, text@, pos as int),
{
    let n = pattern.len();
    if n == 0 || n > text.len() - pos {
        return false;
    }
    let mut i: usize = 0;
    while i < n
        invariant
            i <= n,
            n == pattern.len(),
            0 < n,
            pos + n <= text.len(),
            forall|j: int| 0 <= j < i ==> text@[pos + j] == pattern@[j],
        decreases n - i,
    {
        if text[pos + i] != pattern[i] {
            assert(text@.subrange(pos as int, pos + n)[i as int] != pattern@[i as int]);
            return false;
        }
        i += 1;
    }
    assert(text@.subrange(pos as int, pos + n) =~= pattern@);
    true
}

impl Replacements {
    #[verifier::type_invariant]
    spec fn well_formed(self) -> bool {
        valid(self@)
    }

    /// A rule set without rules.
    pub fn new() -> (rules: Self)
        ensures
            rules@ == Seq::<RuleView>::empty(),
            valid(rules@),
    {
        Replacements { rules: Vec::new() }
    }

    /// The number of rules.
    pub fn len(&self) -> (n: usize)
        ensures
            n == self@.len(),
    {
        self.rules.len()
    }

    /// Whether the set holds no rule.
    pub fn is_empty(&self) -> (empty: bool)
        ensures
            empty == (self@.len() == 0),
    {
        self.rules.len() == 0
    }

    /// The index of the rule that holds `pattern`, if there is one.
    fn find_pattern(&self, pattern: &Vec<char>) -> (found: Option<usize>)
        ensures
            match found {
                Some(i) => i < self.rules@.len() && position_of(self@, pattern@) == Some(i as int),
                None => position_of(self@, pattern@) is None,
            },
    {
        let n = self.rules.len();
        let mut j: usize = 0;
        while j < n
            invariant
                j <= n,
                n == self.rules@.len(),
                n == self@.len(),
                forall|i: int| 0 <= i < n ==> (#[trigger] self@[i]) == self.rules@[i]@,
                forall|i: int| 0 <= i < j ==> (#[trigger] self@[i]).pattern != pattern@,
            decreases n - j,
        {
            if same_chars(&self.rules[j].pattern, pattern) {
                proof {
                    lemma_first_is_position(self@, pattern@, j as int);
                }
                return Some(j);
            }
            j += 1;
        }
        proof {
            lemma_position_is_first(self@, pattern@);
        }
        None
    }

    /// Registers a rule and says whether it was accepted.
    ///
    /// An empty pattern is refused and the set stays as it is. A pattern that
    /// the set already holds keeps its place and takes the new replacement. A
    /// new pattern is added behind the others.
    pub fn insert(&mut self, pattern: &str, replacement: &str) -> (accepted: bool)
        ensures
            final(self)@ == with_rule(old(self)@, pattern@, replacement@),
            valid(final(self)@),
            accepted == (pattern@.len() > 0),
    {
        proof {
            use_type_invariant(&*self);
            lemma_with_rule_valid(self@, pattern@, replacement@);
        }
        let chars = chars_of(pattern);
        if chars.len() == 0 {
            return false;
        }
        let found = self.find_pattern(&chars);
        let rule = Rule { pattern: chars, replacement: replacement.to_owned() };
        let mut rules: Vec<Rule> = Vec::new();
        std::mem::swap(&mut rules, &mut self.rules);
        match found {
            Some(i) => {
                rules.set(i, rule);
            },
            None => {
                rules.push(rule);
            },
        }
        assert(Seq::new(rules@.len(), |i: int| rules@[i]@) =~= with_rule(
            old(self)@,
            pattern@,
            replacement@,
        ));
        self.rules = rules;
        true
    }

    /// The rule set that results from registering `pairs` in order, each a
    /// pattern with its replacement.
    pub fn from_pairs(pairs: &Vec<(String, String)>) -> (rules: Self)
        ensures
            rules@ == loaded(pairs.deep_view()),
            valid(rules@),
    {
        proof {
            lemma_loaded_valid(pairs.deep_view());
        }
        let mut rules = Replacements::new();
        let mut i: usize = 0;
        while i < pairs.len()
            invariant
                i <= pairs.len(),
                rules@ == loaded(pairs.deep_view().take(i as int)),
            decreases pairs.len() - i,
        {
            let ghost declared = pairs.deep_view();
            assert(declared.take(i + 1).drop_last() =~= declared.take(i as int));
            assert(declared.take(i + 1).last() == (pairs@[i as int].0@, pairs@[i as int].1@));
            let pair = &pairs[i];
            rules.insert(pair.0.as_str(), pair.1.as_str());
            i += 1;
        }
        assert(pairs.deep_view().take(i as int) =~= pairs.deep_view());
        rules
    }

    /// The rules as pairs of pattern and replacement, in order.
    pub fn pairs(&self) -> (pairs: Vec<(String, String)>)
        ensures
            pairs.deep_view() == declared(self@),
    {
        let mut pairs: Vec<(String, String)> = Vec::new();
        let mut i: usize = 0;
        while i < self.rules.len()
            invariant
                i <= self.rules@.len(),
                self.rules@.len() == self@.len(),
                forall|j: int| 0 <= j < self@.len() ==> (#[trigger] self@[j]) == self.rules@[j]@,
                pairs@.len() == i,
                forall|j: int|
                    0 <= j < i ==> (#[trigger] pairs@[j]).0@ == self@[j].pattern && pairs@[j].1@
                        == self@[j].replacement,
            decreases self.rules@.len() - i,
        {
            let rule = &self.rules[i];
            pairs.push((string_of(&rule.pattern), rule.replacement.clone()));
            i += 1;
        }
        assert(pairs.deep_view() =~= declared(self@)) by {
            assert forall|j: int| 0 <= j < pairs@.len() implies pairs.deep_view()[j] == (
                self@[j].pattern,
                self@[j].replacement,
            ) by {
                assert(pairs.deep_view()[j] == pairs@[j].deep_view());
            }
        }
        pairs
    }

    /// The replacement in force for `pattern`, if the set holds it.
    pub fn get(&self, pattern: &str) -> (replacement: Option<String>)
        ensures
            match replacement {
                Some(text) => active(self@, pattern@) == Some(text@),
                None => active(self@, pattern@) is None,
            },
    {
        let chars = chars_of(pattern);
        match self.find_pattern(&chars) {
            Some(i) => Some(self.rules[i].replacement.clone()),
            None => None,
        }
    }

    /// The index of the rule that is applied at `pos`, if any pattern occurs there.
    fn find_winner(&self, text: &Vec<char>, pos: usize) -> (found: Option<usize>)
        requires
            pos <= text.len(),
        ensures
            match found {
                Some(k) => winner_at(self@, text@, pos as int) == Some(k as int),
                None => winner_at(self@, text@, pos as int) is None,
            },
    {
        let n = self.rules.len();
        let mut best: Option<usize> = None;
        let mut j: usize = 0;
        while j < n
            invariant
                j <= n,
                n == self.rules@.len(),
                n == self@.len(),
                pos <= text.len(),
                forall|i: int| 0 <= i < n ==> (#[trigger] self@[i]) == self.rules@[i]@,
                match best {
                    Some(k) => wins_among(self@, j as int, text@, pos as int, k as int),
                    None => forall|i: int|
                        0 <= i < j ==> !occurs_at((#[trigger] self@[i]).pattern, text@, pos as int),
                },
            decreases n - j,
        {
            if occurs_here(&self.rules[j].pattern, text, pos) {
                assert(occurs_at(self@[j as int].pattern, text@, pos as int));
                match best {
                    Some(k) => {
                        if self.rules[j].pattern.len() > self.rules[k].pattern.len() {
                            best = Some(j);
                        }
                    },
                    None => {
                        best = Some(j);
                    },
                }
            }
            j += 1;
        }
        proof {
            match best {
                Some(k) => lemma_winner_is(self@, text@, pos as int, k as int),
                None => lemma_winner_characterized(self@, text@, pos as int),
            }
        }
        best
    }

    /// Applies the rules to `text` in one pass from the left and returns the result.
    ///
    /// At each position the longest pattern that occurs there is replaced and the
    /// scan resumes behind it; where no pattern occurs the character is copied.
    /// Replacement text is not scanned again.
    pub fn replace(&self, text: &str) -> (out: String)
        ensures
            out@ == replaced(self@, text@),
    {
        let chars = chars_of(text);
        let mut out = String::new();
        let mut pos: usize = 0;
        while pos < chars.len()
            invariant
                pos <= chars.len(),
                chars@ == text@,
                self.rules@.len() == self@.len(),
                forall|i: int| 0 <= i < self@.len() ==> (#[trigger] self@[i]) == self.rules@[i]@,
                out@ + replaced_from(self@, chars@, pos as int) == replaced(self@, text@),
            decreases chars.len() - pos,
        {
            let ghost before = out@;
            match self.find_winner(&chars, pos) {
                Some(k) => {
                    let rule = &self.rules[k];
                    out.append(rule.replacement.as_str());
                    proof {
                        let rest = replaced_from(self@, chars@, pos + rule.pattern@.len());
                        assert(self@[k as int] == rule@);
                        assert(replaced_from(self@, chars@, pos as int) == rule.replacement@ + rest);
                        assert((before + rule.replacement@) + rest =~= before + (rule.replacement@
                            + rest));
                    }
                    pos += rule.pattern.len();
                },
                None => {
                    let c = chars[pos];
                    push_char(&mut out, c);
                    proof {
                        let rest = replaced_from(self@, chars@, pos + 1);
                        assert(replaced_from(self@, chars@, pos as int) == seq![c] + rest);
                        assert(before.push(c) + rest =~= before + (seq![c] + rest));
                    }
                    pos += 1;
                },
            }
        }
        assert(out@ + Seq::<char>::empty() =~= out@);
        out
    }
}

impl Default for Replacements {
    /// A rule set without rules.
    fn default() -> (rules: Self)
        ensures
            rules@ == Seq::<RuleView>::empty(),
            valid(rules@),
    {
        Replacements::new()
    }
}

} // verus!
