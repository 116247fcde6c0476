use holochain_core::chain::{page_of, plain_name, Chain, QueryError};

fn strings(items: &[&str]) -> Vec<String> {
    items.iter().map(|s| s.to_string()).collect()
}

/// D is the genesis entry and C the newest.
fn fixture() -> Chain {
    let mut chain = Chain::new(strings(&["%agent_id", "post", "comment"]));
    chain.push("%agent_id".to_string(), "D".to_string());
    chain.push("post".to_string(), "A".to_string());
    chain.push("comment".to_string(), "B".to_string());
    chain.push("post".to_string(), "C".to_string());
    chain
}

fn mixed() -> Chain {
    let mut chain = Chain::new(strings(&["a", "b", "ns/c", "%sys", "ns/%sys"]));
    chain.push("%sys".to_string(), "h0".to_string());
    chain.push("a".to_string(), "h1".to_string());
    chain.push("ns/c".to_string(), "h2".to_string());
    chain.push("b".to_string(), "h3".to_string());
    chain.push("ns/%sys".to_string(), "h4".to_string());
    chain
}

fn ask(
    chain: &Chain,
    patterns: &[&str],
    start: usize,
    limit: Option<usize>,
) -> Result<Vec<String>, QueryError> {
    chain.query(chain.top_chain_header(), &strings(patterns), start, limit)
}

#[test]
fn chain_grows_by_linked_headers() {
    let mut chain = Chain::new(strings(&["post"]));
    assert_eq!(0, chain.len());
    assert_eq!(None, chain.top_chain_header());
    assert!(chain.header(0).is_none());
    assert_eq!(0, chain.push("post".to_string(), "x".to_string()));
    assert_eq!(Some(0), chain.top_chain_header());
    assert_eq!(1, chain.push("post".to_string(), "y".to_string()));
    assert_eq!(Some(1), chain.top_chain_header());
    assert_eq!(2, chain.len());
    let genesis = chain.header(0).unwrap();
    assert_eq!(None, genesis.link);
    assert_eq!("x", genesis.entry_address);
    assert_eq!("post", genesis.entry_type);
    let second = chain.header(1).unwrap();
    assert_eq!(Some(0), second.link);
    assert_eq!("y", second.entry_address);
    assert!(chain.header(2).is_none());
}

#[test]
fn registry_lookups() {
    let chain = fixture();
    assert!(chain.knows_type("post"));
    assert!(chain.knows_type("%agent_id"));
    assert!(!chain.knows_type("pos"));
    assert!(!chain.knows_type(""));
    assert!(!chain.names_unknown_type(&strings(&["post", "comment", "*", "", "x*", "{y}"])));
    assert!(chain.names_unknown_type(&strings(&["post", "nonexistent_type"])));
    assert!(chain.names_unknown_type(&strings(&["ns/post"])));
}

#[test]
fn plain_names_have_no_meta_characters() {
    for name in ["post", "ns/post", "%agent_id", "a-b,c!"] {
        assert!(plain_name(&name.chars().collect()));
    }
    for pattern in ["", "*", "po.st", "[a]", "{a}", "a]", "a}", "ns/*"] {
        assert!(!plain_name(&pattern.chars().collect()), "{}", pattern);
    }
}

#[test]
fn empty_query_returns_every_address_newest_first() {
    let chain = fixture();
    assert_eq!(Ok(strings(&["C", "B", "A", "D"])), ask(&chain, &[], 0, None));
    assert_eq!(Ok(strings(&["C", "B", "A", "D"])), ask(&chain, &[""], 0, None));
    assert_eq!(Ok(strings(&["C", "B", "A", "D"])), ask(&chain, &["**"], 0, None));
    let chain = mixed();
    assert_eq!(Ok(strings(&["h4", "h3", "h2", "h1", "h0"])), ask(&chain, &[], 0, None));
}

#[test]
fn query_without_a_top_returns_nothing() {
    let chain = fixture();
    assert_eq!(Ok(vec![]), chain.query(None, &strings(&[]), 0, None));
    assert_eq!(Ok(vec![]), chain.query(None, &strings(&["["]), 0, None));
    assert_eq!(Ok(vec![]), chain.query(None, &strings(&["nonexistent_type"]), 0, None));
    let empty = Chain::new(vec![]);
    assert_eq!(Ok(vec![]), ask(&empty, &[], 0, None));
    assert_eq!(Ok(vec![]), ask(&empty, &["post"], 3, Some(2)));
}

#[test]
fn query_from_an_earlier_header() {
    let chain = fixture();
    assert_eq!(Ok(strings(&["B", "A", "D"])), chain.query(Some(2), &strings(&[]), 0, None));
    assert_eq!(Ok(strings(&["A"])), chain.query(Some(2), &strings(&["post"]), 0, None));
    assert_eq!(Ok(strings(&["D"])), chain.query(Some(0), &strings(&[]), 0, None));
    assert_eq!(Ok(vec![]), chain.query(Some(4), &strings(&[]), 0, None));
}

#[test]
fn star_leaves_out_namespaced_types() {
    let chain = mixed();
    assert_eq!(Ok(strings(&["h3", "h1", "h0"])), ask(&chain, &["*"], 0, None));
    assert_eq!(Ok(strings(&["h2"])), ask(&chain, &["ns/[!%]*"], 0, None));
    assert_eq!(Ok(strings(&["h4", "h2"])), ask(&chain, &["ns/*"], 0, None));
}

#[test]
fn system_entries_are_left_out_in_any_namespace() {
    let chain = mixed();
    assert_eq!(Ok(strings(&["h3", "h2", "h1"])), ask(&chain, &["**/[!%]*"], 0, None));
    assert_eq!(Ok(strings(&["h3", "h1"])), ask(&chain, &["[!%]*"], 0, None));
    let chain = fixture();
    assert_eq!(Ok(strings(&["C", "B", "A"])), ask(&chain, &["**/[!%]*"], 0, None));
}

#[test]
fn start_skips_the_newest_matches() {
    let chain = fixture();
    let all = strings(&["C", "B", "A", "D"]);
    for k in 0..7 {
        let expected: Vec<String> = all.iter().skip(k).cloned().collect();
        assert_eq!(Ok(expected), ask(&chain, &[], k, None));
    }
    assert_eq!(Ok(strings(&["A"])), ask(&chain, &["post"], 1, None));
    assert_eq!(Ok(vec![]), ask(&chain, &["post"], 2, None));
    assert_eq!(Ok(vec![]), ask(&chain, &["post"], usize::MAX, None));
}

#[test]
fn limit_caps_the_matches() {
    let chain = fixture();
    assert_eq!(Ok(strings(&["C"])), ask(&chain, &[], 0, Some(1)));
    assert_eq!(Ok(strings(&["C", "B", "A"])), ask(&chain, &[], 0, Some(3)));
    assert_eq!(Ok(strings(&["C", "B", "A", "D"])), ask(&chain, &[], 0, Some(4)));
    assert_eq!(Ok(strings(&["C", "B", "A", "D"])), ask(&chain, &[], 0, Some(usize::MAX)));
    assert_eq!(Ok(strings(&["A", "D"])), ask(&chain, &[], 2, Some(5)));
}

#[test]
fn limit_zero_returns_nothing() {
    let chain = fixture();
    assert_eq!(Ok(vec![]), ask(&chain, &[], 0, Some(0)));
    assert_eq!(Ok(vec![]), ask(&chain, &["post"], 0, Some(0)));
    assert_eq!(Ok(vec![]), ask(&chain, &["*"], 2, Some(0)));
    assert_eq!(Ok(vec![]), ask(&chain, &["*"], 9, Some(0)));
}

#[test]
fn unknown_entry_type_is_an_error_of_its_own() {
    let chain = fixture();
    assert_eq!(Err(QueryError::UnknownEntryType), ask(&chain, &["nonexistent_type"], 0, None));
    assert_eq!(Err(QueryError::UnknownEntryType), ask(&chain, &["nonexistent_type"], 0, Some(0)));
    assert_eq!(
        Err(QueryError::UnknownEntryType),
        ask(&chain, &["post", "nonexistent_type", "*"], 1, Some(1))
    );
    assert_eq!(Ok(vec![]), ask(&chain, &["nonexistent_*"], 0, None));
}

#[test]
fn unknown_type_on_the_chain_fails_the_query() {
    let mut chain = Chain::new(strings(&["post"]));
    chain.push("post".to_string(), "p".to_string());
    chain.push("stray".to_string(), "s".to_string());
    chain.push("post".to_string(), "q".to_string());
    assert_eq!(Err(QueryError::UnknownEntryType), ask(&chain, &[], 0, None));
    assert_eq!(Err(QueryError::UnknownEntryType), ask(&chain, &["post"], 0, Some(1)));
    assert_eq!(Ok(strings(&["p"])), chain.query(Some(0), &strings(&["post"]), 0, None));
}

#[test]
fn malformed_pattern_fails_the_query() {
    let chain = fixture();
    assert_eq!(Err(QueryError::MalformedPattern), ask(&chain, &["[post"], 0, None));
    assert_eq!(Err(QueryError::MalformedPattern), ask(&chain, &["post", "{a"], 0, Some(0)));
    assert_eq!(
        Err(QueryError::MalformedPattern),
        ask(&chain, &["nonexistent_type", "a**"], 0, None)
    );
}

#[test]
fn concrete_scenario() {
    let chain = fixture();
    assert_eq!(Ok(strings(&["C"])), ask(&chain, &["post"], 0, Some(1)));
    assert_eq!(Ok(strings(&["B", "A"])), ask(&chain, &[], 1, Some(2)));
    assert_eq!(Err(QueryError::UnknownEntryType), ask(&chain, &["nonexistent_type"], 0, None));
}

#[test]
fn pages_of_a_list() {
    let items: Vec<usize> = vec![9, 8, 7, 6, 5];
    assert_eq!(items, page_of(&items, 0, None));
    assert_eq!(vec![7, 6, 5], page_of(&items, 2, None));
    assert_eq!(vec![7, 6], page_of(&items, 2, Some(2)));
    assert_eq!(vec![5], page_of(&items, 4, Some(2)));
    assert_eq!(Vec::<usize>::new(), page_of(&items, 5, Some(2)));
    assert_eq!(Vec::<usize>::new(), page_of(&items, 1, Some(0)));
    assert_eq!(Vec::<usize>::new(), page_of(&Vec::new(), 0, None));
}

#[test]
fn addresses_are_not_deduplicated_or_reordered() {
    let mut chain = Chain::new(strings(&["post"]));
    for address in ["z", "a", "z", "m"] {
        chain.push("post".to_string(), address.to_string());
    }
    assert_eq!(Ok(strings(&["m", "z", "a", "z"])), ask(&chain, &["post"], 0, None));
}

#[test]
fn pattern_order_does_not_change_the_answer() {
    let chain = mixed();
    let lists: [&[&str]; 3] = [&["a", "ns/*", "b"], &["b", "a", "ns/*"], &["ns/*", "b", "a"]];
    for list in lists {
        assert_eq!(Ok(strings(&["h3", "h2"])), ask(&chain, list, 1, Some(2)));
    }
    let lists: [&[&str]; 2] = [&["a", "stranger"], &["stranger", "a"]];
    for list in lists {
        assert_eq!(Err(QueryError::UnknownEntryType), ask(&chain, list, 0, None));
    }
    let lists: [&[&str]; 2] = [&["a", "[b"], &["[b", "a"]];
    for list in lists {
        assert_eq!(Err(QueryError::MalformedPattern), ask(&chain, list, 0, None));
    }
}
