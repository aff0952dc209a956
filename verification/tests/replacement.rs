use yapp::Replacements;

fn rules(pairs: &[(&str, &str)]) -> Replacements {
    let mut rules = Replacements::new();
    for (pattern, replacement) in pairs {
        rules.insert(pattern, replacement);
    }
    rules
}

fn owned(pairs: &[(&str, &str)]) -> Vec<(String, String)> {
    pairs.iter().map(|(p, r)| (p.to_string(), r.to_string())).collect()
}

#[test]
fn empty_rule_set_is_identity() {
    let none = Replacements::new();
    for text in ["", "a", "a-b-c", "Hello World", "caf\u{e9} \u{2615}", "\n\t {{x}}"] {
        assert_eq!(none.replace(text), text);
    }
}

#[test]
fn default_rule_set_is_empty() {
    let none = Replacements::default();
    assert!(none.is_empty());
    assert_eq!(none.len(), 0);
    assert_eq!(none.replace("unchanged"), "unchanged");
}

#[test]
fn single_substitution() {
    assert_eq!(rules(&[("-", "+")]).replace("a-b-c"), "a+b+c");
}

#[test]
fn longest_match_precedence() {
    assert_eq!(rules(&[("ab", "X"), ("a", "Y")]).replace("abc"), "Xc");
}

#[test]
fn longest_match_precedence_whatever_the_order() {
    assert_eq!(rules(&[("a", "Y"), ("ab", "X")]).replace("abc"), "Xc");
    assert_eq!(rules(&[("a", "Y"), ("ab", "X")]).replace("aab"), "YX");
}

#[test]
fn shorter_pattern_applies_where_the_longer_does_not_occur() {
    assert_eq!(rules(&[("ab", "X"), ("a", "Y")]).replace("acab"), "YcX");
}

#[test]
fn no_rescan_of_replacement_text() {
    let doubling = rules(&[("a", "aa")]);
    assert_eq!(doubling.replace("a"), "aa");
    assert_eq!(doubling.replace("aaa"), "aaaaaa");
}

#[test]
fn patterns_in_replacement_text_are_not_substituted() {
    assert_eq!(rules(&[("a", "b"), ("b", "c")]).replace("ab"), "bc");
    assert_eq!(rules(&[("x", "yy"), ("yy", "z")]).replace("xyy"), "yyz");
}

#[test]
fn non_overlap() {
    assert_eq!(rules(&[("aa", "b")]).replace("aaa"), "ba");
    assert_eq!(rules(&[("aa", "b")]).replace("aaaa"), "bb");
}

#[test]
fn empty_input_yields_empty_output() {
    assert_eq!(rules(&[("a", "b"), ("-", "+")]).replace(""), "");
}

#[test]
fn text_without_any_pattern_is_unchanged() {
    assert_eq!(rules(&[("xyz", "!"), ("q", "?")]).replace("Hello, World"), "Hello, World");
}

#[test]
fn pattern_cut_off_by_the_end_of_the_text_does_not_match() {
    assert_eq!(rules(&[("abc", "X")]).replace("ab"), "ab");
    assert_eq!(rules(&[("abc", "X")]).replace("zab"), "zab");
}

#[test]
fn pattern_that_is_the_whole_text() {
    assert_eq!(rules(&[("abc", "X")]).replace("abc"), "X");
}

#[test]
fn replacement_may_be_empty() {
    assert_eq!(rules(&[("-", "")]).replace("a-b-c"), "abc");
}

#[test]
fn multi_byte_characters_are_matched_whole() {
    assert_eq!(rules(&[("\u{e9}", "e")]).replace("caf\u{e9} \u{2615}"), "cafe \u{2615}");
    assert_eq!(rules(&[("\u{2615}", "coffee")]).replace("caf\u{e9} \u{2615}!"), "caf\u{e9} coffee!");
    assert_eq!(rules(&[("a", "\u{1f600}")]).replace("\u{e4}a\u{e4}"), "\u{e4}\u{1f600}\u{e4}");
}

#[test]
fn several_rules_in_one_pass() {
    let set = rules(&[("{{name}}", "yapp"), ("{{version}}", "1.0"), ("{{", "<"), ("}}", ">")]);
    assert_eq!(set.replace("{{name}} {{version}} {{other}}"), "yapp 1.0 <other>");
}

#[test]
fn empty_pattern_is_refused() {
    let mut set = Replacements::new();
    assert!(!set.insert("", "x"));
    assert!(set.is_empty());
    assert_eq!(set.replace("abc"), "abc");
    assert!(set.insert("b", "x"));
    assert_eq!(set.len(), 1);
    assert_eq!(set.replace("abc"), "axc");
}

#[test]
fn empty_pattern_is_ignored_at_load() {
    let set = Replacements::from_pairs(&owned(&[("", "x"), ("a", "b"), ("", "y")]));
    assert_eq!(set.len(), 1);
    assert_eq!(set.pairs(), owned(&[("a", "b")]));
    assert_eq!(set.get(""), None);
}

#[test]
fn duplicate_pattern_at_load() {
    let set = Replacements::from_pairs(&owned(&[("x", "first"), ("x", "second")]));
    assert_eq!(set.len(), 1);
    assert_eq!(set.get("x"), Some("second".to_string()));
    assert_eq!(set.replace("x"), "second");
}

#[test]
fn duplicate_pattern_keeps_its_place() {
    let set = Replacements::from_pairs(&owned(&[("a", "1"), ("b", "2"), ("a", "3")]));
    assert_eq!(set.pairs(), owned(&[("a", "3"), ("b", "2")]));
    assert_eq!(set.replace("ab"), "32");
}

#[test]
fn insert_overwrites_the_replacement_of_a_pattern_it_holds() {
    let mut set = rules(&[("a", "1"), ("b", "2")]);
    assert!(set.insert("a", "9"));
    assert_eq!(set.len(), 2);
    assert_eq!(set.get("a"), Some("9".to_string()));
    assert_eq!(set.get("b"), Some("2".to_string()));
}

#[test]
fn get_gives_nothing_for_a_pattern_that_is_not_held() {
    let set = rules(&[("ab", "1")]);
    assert_eq!(set.get("a"), None);
    assert_eq!(set.get("abc"), None);
    assert_eq!(set.get("ab"), Some("1".to_string()));
}

#[test]
fn load_of_no_pairs_is_the_empty_set() {
    let set = Replacements::from_pairs(&Vec::new());
    assert!(set.is_empty());
    assert_eq!(set.pairs(), Vec::<(String, String)>::new());
}

#[test]
fn pairs_come_back_in_registration_order() {
    let declared = owned(&[("b", "2"), ("a", "1"), ("\u{e9}", "e")]);
    assert_eq!(Replacements::from_pairs(&declared).pairs(), declared);
}

#[test]
fn replace_leaves_the_rule_set_as_it_is() {
    let set = rules(&[("a", "b")]);
    assert_eq!(set.replace("aa"), "bb");
    assert_eq!(set.replace("aa"), "bb");
    assert_eq!(set.pairs(), owned(&[("a", "b")]));
}

#[test]
fn text_helpers_round_trip() {
    let chars = yapp::text::chars_of("a\u{e9}\u{2615}");
    assert_eq!(chars, vec!['a', '\u{e9}', '\u{2615}']);
    assert_eq!(yapp::text::string_of(&chars), "a\u{e9}\u{2615}");
    assert!(yapp::text::same_chars(&chars, &vec!['a', '\u{e9}', '\u{2615}']));
    assert!(!yapp::text::same_chars(&chars, &vec!['a', '\u{e9}']));
    assert!(yapp::text::same_text("abc", "abc"));
    assert!(!yapp::text::same_text("abc", "abd"));
    assert!(!yapp::text::same_text("abc", "ab"));
}

#[test]
fn matches_are_the_same_whatever_the_replacements() {
    assert_eq!(rules(&[("ab", "X"), ("a", "Y")]).replace("abcaab"), "XcYX");
    assert_eq!(rules(&[("ab", "a"), ("a", "ab")]).replace("abcaab"), "acaba");
    assert_eq!(rules(&[("ab", ""), ("a", "")]).replace("abcaab"), "c");
}

#[test]
fn later_text_is_replaced_alike_whatever_stands_before_it() {
    let set = rules(&[("ab", "X"), ("b", "Y")]);
    assert_eq!(set.replace("ab-b"), "X-Y");
    assert_eq!(set.replace("zz"), "zz");
    assert_eq!(set.replace("zzab-b"), "zzX-Y");
}
