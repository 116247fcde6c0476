use holochain_core::matcher::{CompiledMatcher, PatternError};
use holochain_core::pattern::{is_meta_char, parse_pattern, Token};

fn count_stars(tokens: &[Token]) -> usize {
    tokens.iter().filter(|t| matches!(t, Token::Star)).count()
}

fn strings(items: &[&str]) -> Vec<String> {
    items.iter().map(|s| s.to_string()).collect()
}

fn matcher(patterns: &[&str]) -> CompiledMatcher {
    match CompiledMatcher::compile(&strings(patterns)) {
        Ok(m) => m,
        Err(e) => panic!("pattern {} of {:?} is refused", e.index, patterns),
    }
}

fn refused(patterns: &[&str]) -> Option<usize> {
    match CompiledMatcher::compile(&strings(patterns)) {
        Ok(_) => None,
        Err(e) => Some(e.index),
    }
}

fn accepts(patterns: &[&str], name: &str) -> bool {
    matcher(patterns).matches(name)
}

fn shape(pattern: &str) -> Option<String> {
    let chars: Vec<char> = pattern.chars().collect();
    parse_pattern(&chars).map(|tokens| format!("{:?}", tokens))
}

#[test]
fn meta_characters() {
    for c in "*.[]{}".chars() {
        assert!(is_meta_char(c));
    }
    for c in "a/!-,%? ".chars() {
        assert!(!is_meta_char(c));
    }
}

#[test]
fn tokens_of_a_pattern() {
    assert_eq!(Some("[]".to_string()), shape(""));
    assert_eq!(Some("[Literal('a'), Literal('/'), Star]".to_string()), shape("a/*"));
    assert_eq!(Some("[RecursivePrefix, Literal('x')]".to_string()), shape("**/x"));
    assert_eq!(Some("[RecursiveTail]".to_string()), shape("**"));
    assert_eq!(
        Some("[Literal('a'), Literal('/'), RecursiveTail]".to_string()),
        shape("a/**")
    );
    assert_eq!(Some("[AnyChar, Literal('?')]".to_string()), shape(".?"));
    assert_eq!(
        Some("[Class { negated: false, ranges: [('a', 'd'), ('x', 'x')] }]".to_string()),
        shape("[a-dx]")
    );
    assert_eq!(
        Some("[Class { negated: true, ranges: [('%', '%')] }, Star]".to_string()),
        shape("[!%]*")
    );
    assert_eq!(
        Some("[Class { negated: false, ranges: [('a', 'a'), ('-', '-')] }]".to_string()),
        shape("[a-]")
    );
    assert_eq!(Some("[Class { negated: false, ranges: [] }]".to_string()), shape("[]"));
    assert_eq!(
        Some("[Alternates([['a', 'b'], [], ['1']])]".to_string()),
        shape("{ab,,1}")
    );
    assert_eq!(Some("[Alternates([[]])]".to_string()), shape("{}"));
}

#[test]
fn patterns_that_are_not_well_formed() {
    for bad in [
        "[abc", "[", "[!", "[z-a]", "{a,b", "{", "{a*}", "{a{b}}", "{a.b}", "{[}", "]", "}", "a]",
        "a}", "a**", "a**/b", "**a", "***", "**/**x", "ns/**x",
    ] {
        assert_eq!(None, shape(bad), "{}", bad);
        assert_eq!(Some(0), refused(&[bad]), "{}", bad);
    }
}

#[test]
fn every_single_star_is_a_token() {
    let chars: Vec<char> = "a*b/*/**/c*".chars().collect();
    let tokens = parse_pattern(&chars).unwrap();
    assert_eq!(3, count_stars(&tokens));
    assert_eq!(9, tokens.len());
}

#[test]
fn compile_reports_the_first_bad_pattern() {
    assert_eq!(None, refused(&[]));
    assert_eq!(None, refused(&["a", "b*", "**/c"]));
    assert_eq!(Some(1), refused(&["a", "[", "]"]));
    assert_eq!(Some(2), refused(&["a", "b", "{"]));
    assert_eq!(
        Err(PatternError { index: 0 }),
        CompiledMatcher::compile(&strings(&["**x"])).map(|_| ())
    );
}

#[test]
fn empty_list_and_empty_pattern_match_everything() {
    for name in ["", "a", "ns/a", "%agent_id", "a/b/c/", "/"] {
        assert!(accepts(&[], name));
        assert!(accepts(&[""], name));
    }
}

#[test]
fn empty_pattern_among_others_matches_only_the_empty_name() {
    assert!(accepts(&["", "a"], ""));
    assert!(accepts(&["", "a"], "a"));
    assert!(!accepts(&["", "a"], "b"));
    assert!(accepts(&["", ""], ""));
    assert!(!accepts(&["", ""], "a"));
}

#[test]
fn star_stays_within_a_segment() {
    assert!(accepts(&["*"], "a"));
    assert!(accepts(&["*"], "b"));
    assert!(accepts(&["*"], ""));
    assert!(accepts(&["*"], "%agent_id"));
    assert!(!accepts(&["*"], "ns/c"));
    assert!(!accepts(&["*"], "/"));
    assert!(accepts(&["a*c"], "ac"));
    assert!(accepts(&["a*c"], "abbbc"));
    assert!(!accepts(&["a*c"], "ab/c"));
    assert!(accepts(&["*/*"], "ns/c"));
    assert!(!accepts(&["*/*"], "ns/c/d"));
    assert!(accepts(&["a*b*c"], "aXbYbZc"));
    assert!(!accepts(&["a*b*c"], "aXbYbZ"));
}

#[test]
fn namespace_prefix_stays_in_its_namespace() {
    assert!(accepts(&["name/*"], "name/a"));
    assert!(accepts(&["name/*"], "name/"));
    assert!(!accepts(&["name/*"], "name"));
    assert!(!accepts(&["name/*"], "name/a/b"));
    assert!(!accepts(&["name/*"], "other/a"));
}

#[test]
fn recursive_prefix_crosses_namespaces() {
    assert!(accepts(&["**/name"], "name"));
    assert!(accepts(&["**/name"], "a/name"));
    assert!(accepts(&["**/name"], "a/b/name"));
    assert!(!accepts(&["**/name"], "xname"));
    assert!(!accepts(&["**/name"], "a/xname"));
    assert!(!accepts(&["**/name"], "name/a"));
    assert!(accepts(&["a/**/z"], "a/z"));
    assert!(accepts(&["a/**/z"], "a/b/c/z"));
    assert!(!accepts(&["a/**/z"], "az"));
    assert!(!accepts(&["a/**/z"], "a/bz"));
}

#[test]
fn recursive_tail_takes_the_rest() {
    for name in ["", "a", "ns/a", "a/b/c", "%x"] {
        assert!(accepts(&["**"], name));
    }
    assert!(accepts(&["ns/**"], "ns/"));
    assert!(accepts(&["ns/**"], "ns/a/b"));
    assert!(!accepts(&["ns/**"], "ns"));
    assert!(!accepts(&["ns/**"], "other/a"));
    assert!(accepts(&["**/**"], "a/b"));
    assert!(accepts(&["**/**"], "a"));
}

#[test]
fn dot_is_one_character_of_a_segment() {
    assert!(accepts(&["."], "a"));
    assert!(accepts(&["."], "."));
    assert!(accepts(&["."], "é"));
    assert!(!accepts(&["."], ""));
    assert!(!accepts(&["."], "ab"));
    assert!(!accepts(&["."], "/"));
    assert!(accepts(&["a.c"], "abc"));
    assert!(!accepts(&["a.c"], "a/c"));
    assert!(!accepts(&["a.c"], "ac"));
}

#[test]
fn classes_pick_one_character() {
    for name in ["a", "b", "c", "d"] {
        assert!(accepts(&["[abcd]"], name));
        assert!(accepts(&["[a-d]"], name));
        assert!(!accepts(&["[!a-d]"], name));
    }
    for name in ["e", "A", "%"] {
        assert!(!accepts(&["[abcd]"], name));
        assert!(!accepts(&["[a-d]"], name));
        assert!(accepts(&["[!a-d]"], name));
    }
    for pattern in ["[abcd]", "[a-d]", "[!a-d]", "[]", "[!]", "[/]", "[!/]", "[.-0]"] {
        assert!(!accepts(&[pattern], ""));
        assert!(!accepts(&[pattern], "ab"));
        assert!(!accepts(&[pattern], "/"), "{}", pattern);
    }
    assert!(!accepts(&["[]"], "a"));
    assert!(accepts(&["[!]"], "a"));
    assert!(accepts(&["[!!]"], "a"));
    assert!(!accepts(&["[!!]"], "!"));
    assert!(accepts(&["[a-]"], "-"));
    assert!(accepts(&["[*.]x"], "*x"));
    assert!(accepts(&["[*.]x"], ".x"));
    assert!(!accepts(&["[*.]x"], "ax"));
}

#[test]
fn alternates_pick_one_text() {
    assert!(accepts(&["{abc,123}"], "abc"));
    assert!(accepts(&["{abc,123}"], "123"));
    assert!(!accepts(&["{abc,123}"], "abc123"));
    assert!(!accepts(&["{abc,123}"], "ab"));
    assert!(!accepts(&["{abc,123}"], ""));
    assert!(accepts(&["x{a,bc,}y"], "xay"));
    assert!(accepts(&["x{a,bc,}y"], "xbcy"));
    assert!(accepts(&["x{a,bc,}y"], "xy"));
    assert!(!accepts(&["x{a,bc,}y"], "xby"));
    assert!(accepts(&["{a/b,c}"], "a/b"));
    assert!(accepts(&["*{st,mment}"], "post"));
    assert!(accepts(&["*{st,mment}"], "comment"));
    assert!(!accepts(&["*{st,mment}"], "poster"));
    assert!(accepts(&["{a,ab}b"], "abb"));
    assert!(accepts(&["{a,ab}b"], "ab"));
}

#[test]
fn all_but_system_types() {
    let pattern = ["**/[!%]*"];
    for name in ["a", "post", "ns/c", "a/b/c", "a%b", "ns/a%"] {
        assert!(accepts(&pattern, name), "{}", name);
    }
    for name in ["%agent_id", "%dna", "ns/%agent_id", "a/b/%x", "%", "", "ns/", "a/%/"] {
        assert!(!accepts(&pattern, name), "{}", name);
    }
    assert!(accepts(&["[!%]*"], "post"));
    assert!(!accepts(&["[!%]*"], "%agent_id"));
    assert!(!accepts(&["[!%]*"], "ns/post"));
}

#[test]
fn several_patterns_are_one_matcher() {
    let m = matcher(&["name/*", "and_another", "SomethingElse"]);
    assert!(m.matches("name/x"));
    assert!(m.matches("and_another"));
    assert!(m.matches("SomethingElse"));
    assert!(!m.matches("somethingelse"));
    assert!(!m.matches("name"));
    assert!(!m.matches("and_another/x"));
}

#[test]
fn plain_names_match_only_themselves() {
    assert!(accepts(&["post"], "post"));
    assert!(!accepts(&["post"], "posts"));
    assert!(!accepts(&["post"], "pos"));
    assert!(!accepts(&["post"], ""));
    assert!(accepts(&["ns/post"], "ns/post"));
    assert!(!accepts(&["ns/post"], "post"));
    assert!(accepts(&["%agent_id"], "%agent_id"));
}

#[test]
fn matching_is_repeatable_and_ignores_pattern_order() {
    let names = ["%agent_id", "post", "comment", "post", "ns/c", "blog/post", ""];
    let lists: [&[&str]; 4] = [
        &["post", "ns/*", "**/[!%]*"],
        &["**/[!%]*", "post", "ns/*"],
        &["ns/*", "**/[!%]*", "post"],
        &["post", "ns/*", "**/[!%]*"],
    ];
    let expected: Vec<bool> = vec![false, true, true, true, true, true, false];
    for list in lists {
        let m = matcher(list);
        for _ in 0..3 {
            let got: Vec<bool> = names.iter().map(|n| m.matches(n)).collect();
            assert_eq!(expected, got);
        }
        let backwards: Vec<bool> = names.iter().rev().map(|n| m.matches(n)).collect();
        let mut forwards = backwards.clone();
        forwards.reverse();
        assert_eq!(expected, forwards);
    }
}
