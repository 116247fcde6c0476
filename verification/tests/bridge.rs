use holochain_core::args::{QueryArgs, QueryArgsNames};
use holochain_core::bridge::{
    answer_query, argument_block, ask, decode_argument, invoke_query, reply_with, return_status,
    run_query, BridgeReply,
};
use holochain_core::chain::Chain;
use holochain_core::status::{decode_status, Allocation, RibosomeErrorCode, Status};

fn strings(items: &[&str]) -> Vec<String> {
    items.iter().map(|s| s.to_string()).collect()
}

fn fixture() -> Chain {
    let mut chain = Chain::new(strings(&["%agent_id", "post", "comment"]));
    chain.push("%agent_id".to_string(), "D".to_string());
    chain.push("post".to_string(), "A".to_string());
    chain.push("comment".to_string(), "B".to_string());
    chain.push("post".to_string(), "C".to_string());
    chain
}

fn stored(text: &str) -> BridgeReply {
    BridgeReply::Store(text.to_string())
}

fn failed(code: RibosomeErrorCode) -> BridgeReply {
    BridgeReply::Fail(code)
}

#[test]
fn query_args_with_a_list() {
    let args = QueryArgs::from_json(r#"{"entry_type_names":["post","ns/*"],"start":2,"limit":5}"#);
    assert_eq!(
        Some(QueryArgs {
            entry_type_names: QueryArgsNames::QueryList(strings(&["post", "ns/*"])),
            start: 2,
            limit: Some(5),
        }),
        args
    );
}

#[test]
fn query_args_with_a_single_name() {
    let args = QueryArgs::from_json(r#" { "limit" : 0, "entry_type_names" : "post" } "#);
    assert_eq!(
        Some(QueryArgs {
            entry_type_names: QueryArgsNames::QueryName("post".to_string()),
            start: 0,
            limit: Some(0),
        }),
        args
    );
}

#[test]
fn query_args_defaults() {
    let args = QueryArgs::from_json(r#"{"entry_type_names":[],"other":{"x":[1,2]}}"#);
    assert_eq!(
        Some(QueryArgs {
            entry_type_names: QueryArgsNames::QueryList(vec![]),
            start: 0,
            limit: None,
        }),
        args
    );
}

#[test]
fn query_args_that_do_not_decode() {
    for text in [
        "",
        "{",
        r#"{"entry_type_names":["post"]"#,
        r#"["post"]"#,
        r#""post""#,
        "{}",
        r#"{"start":0,"limit":1}"#,
        r#"{"entry_type_names":7}"#,
        r#"{"entry_type_names":null}"#,
        r#"{"entry_type_names":["post",7]}"#,
        r#"{"entry_type_names":{"a":"b"}}"#,
        r#"{"entry_type_names":[],"start":-1}"#,
        r#"{"entry_type_names":[],"start":1.5}"#,
        r#"{"entry_type_names":[],"start":"1"}"#,
        r#"{"entry_type_names":[],"limit":null}"#,
        r#"{"entry_type_names":[],"limit":18446744073709551616}"#,
        r#"{"entry_type_names":[]} x"#,
    ] {
        assert_eq!(None, QueryArgs::from_json(text), "{}", text);
    }
}

#[test]
fn names_as_a_pattern_list() {
    assert_eq!(strings(&["a"]), QueryArgsNames::QueryName("a".to_string()).patterns());
    assert_eq!(
        strings(&["a", "", "b*"]),
        QueryArgsNames::QueryList(strings(&["a", "", "b*"])).patterns()
    );
    assert_eq!(Vec::<String>::new(), QueryArgsNames::QueryList(vec![]).patterns());
}

#[test]
fn argument_handles() {
    assert_eq!(Ok(Allocation { offset: 3, length: 5 }), argument_block(196613));
    assert_eq!(Ok(Allocation { offset: 0, length: 1 }), argument_block(1));
    for handle in [0, 65536, 131072, 655360, 11 * 65536, 65535 * 65536 + 2, u32::MAX] {
        assert_eq!(
            Err(RibosomeErrorCode::ArgumentDeserializationFailed),
            argument_block(handle),
            "{}",
            handle
        );
    }
}

#[test]
fn invoke_query_scenario() {
    let chain = fixture();
    assert_eq!(
        stored(r#"["C"]"#),
        invoke_query(&chain, br#"{"entry_type_names":["post"],"start":0,"limit":1}"#)
    );
    assert_eq!(
        stored(r#"["B","A"]"#),
        invoke_query(&chain, br#"{"entry_type_names":[],"start":1,"limit":2}"#)
    );
    assert_eq!(
        failed(RibosomeErrorCode::UnknownEntryType),
        invoke_query(&chain, br#"{"entry_type_names":["nonexistent_type"]}"#)
    );
    assert_eq!(
        failed(RibosomeErrorCode::ArgumentDeserializationFailed),
        invoke_query(&chain, br#"{"entry_type_names":["post"],"start":0,"limit":1"#)
    );
}

#[test]
fn invoke_query_with_a_single_name() {
    let chain = fixture();
    assert_eq!(
        stored(r#"["C","A"]"#),
        invoke_query(&chain, br#"{"entry_type_names":"post"}"#)
    );
    assert_eq!(
        stored(r#"["C","B","A","D"]"#),
        invoke_query(&chain, br#"{"entry_type_names":""}"#)
    );
    assert_eq!(stored("[]"), invoke_query(&chain, br#"{"entry_type_names":"post","limit":0}"#));
    assert_eq!(stored("[]"), invoke_query(&chain, br#"{"entry_type_names":"post","start":2}"#));
}

#[test]
fn invoke_query_escapes_addresses() {
    let mut chain = Chain::new(strings(&["post"]));
    chain.push("post".to_string(), "Qm\"x\\y".to_string());
    assert_eq!(
        stored(r#"["Qm\"x\\y"]"#),
        invoke_query(&chain, br#"{"entry_type_names":["post"]}"#)
    );
}

#[test]
fn invoke_query_refuses_bad_arguments() {
    let chain = fixture();
    let bad = failed(RibosomeErrorCode::ArgumentDeserializationFailed);
    assert_eq!(bad, invoke_query(&chain, b""));
    assert_eq!(bad, invoke_query(&chain, b"\xff\xfe{}"));
    assert_eq!(bad, invoke_query(&chain, b"{\"entry_type_names\":[\"\xc3\x28\"]}"));
    assert_eq!(bad, invoke_query(&chain, br#"{"entry_type_names":["[post"]}"#));
    assert_eq!(bad, invoke_query(&chain, br#"{"entry_type_names":["post"],"start":"0"}"#));
    assert_eq!(bad, invoke_query(&chain, br#"{"names":["post"]}"#));
}

#[test]
fn run_query_gives_the_addresses() {
    let chain = fixture();
    assert_eq!(
        Ok(strings(&["B"])),
        run_query(&chain, "{\"entry_type_names\":[\"c*\"]}".as_bytes())
    );
    assert_eq!(
        Err(RibosomeErrorCode::UnknownEntryType),
        run_query(&chain, br#"{"entry_type_names":"comments"}"#)
    );
    assert_eq!(
        Err(RibosomeErrorCode::ArgumentDeserializationFailed),
        run_query(&chain, br#"{"entry_type_names":"{comment"}"#)
    );
    let empty = Chain::new(vec![]);
    assert_eq!(Ok(vec![]), run_query(&empty, br#"{"entry_type_names":"comments"}"#));
}

#[test]
fn reply_asks_for_a_block_of_its_size() {
    assert_eq!(Ok(5), stored(r#"["C"]"#).block_length());
    assert_eq!(Ok(3), stored("\"é").block_length());
    assert_eq!(Err(RibosomeErrorCode::ZeroSizedAllocation), stored("").block_length());
    assert_eq!(Ok(65535), BridgeReply::Store("x".repeat(65535)).block_length());
    assert_eq!(
        Err(RibosomeErrorCode::OutOfMemory),
        BridgeReply::Store("x".repeat(65536)).block_length()
    );
    assert_eq!(
        Err(RibosomeErrorCode::UnknownEntryType),
        failed(RibosomeErrorCode::UnknownEntryType).block_length()
    );
}

#[test]
fn store_plan_writes_all_or_nothing() {
    let reply = stored(r#"["C"]"#);
    assert_eq!(Ok(Allocation { offset: 10, length: 5 }), reply.store_plan(Some(10)));
    assert_eq!(Ok(Allocation { offset: 65531, length: 5 }), reply.store_plan(Some(65531)));
    assert_eq!(Err(RibosomeErrorCode::OutOfMemory), reply.store_plan(Some(65532)));
    assert_eq!(Err(RibosomeErrorCode::OutOfMemory), reply.store_plan(None));
    assert_eq!(Err(RibosomeErrorCode::ZeroSizedAllocation), stored("").store_plan(Some(0)));
    let failure = failed(RibosomeErrorCode::ArgumentDeserializationFailed);
    assert_eq!(
        Err(RibosomeErrorCode::ArgumentDeserializationFailed),
        failure.store_plan(Some(10))
    );
    assert_eq!(Err(RibosomeErrorCode::ArgumentDeserializationFailed), failure.store_plan(None));
}

#[test]
fn statuses_of_a_finished_call() {
    let plan = stored(r#"["C"]"#).store_plan(Some(10));
    assert_eq!(655365, return_status(&plan));
    assert_eq!(Status::Stored(Allocation { offset: 10, length: 5 }), decode_status(655365));
    let plan = failed(RibosomeErrorCode::UnknownEntryType).store_plan(None);
    assert_eq!(655360, return_status(&plan));
    let plan = failed(RibosomeErrorCode::ArgumentDeserializationFailed).store_plan(Some(1));
    assert_eq!(131072, return_status(&plan));
}

#[test]
fn arguments_are_decoded_before_the_chain_is_read() {
    assert_eq!(
        Ok(QueryArgs {
            entry_type_names: QueryArgsNames::QueryName("post".to_string()),
            start: 1,
            limit: None,
        }),
        decode_argument(br#"{"entry_type_names":"post","start":1}"#)
    );
    for bad in [&b"{"[..], &b"\xff"[..], &b"[]"[..], &br#"{"entry_type_names":1}"#[..]] {
        assert_eq!(Err(RibosomeErrorCode::ArgumentDeserializationFailed), decode_argument(bad));
    }
}

#[test]
fn decoded_queries_are_asked_of_the_chain() {
    let chain = fixture();
    let args = QueryArgs {
        entry_type_names: QueryArgsNames::QueryList(strings(&["post", "comment"])),
        start: 1,
        limit: Some(1),
    };
    assert_eq!(Ok(strings(&["B"])), ask(&chain, &args));
    assert_eq!(stored(r#"["B"]"#), answer_query(&chain, &args));
    let args = QueryArgs {
        entry_type_names: QueryArgsNames::QueryName("stranger".to_string()),
        start: 0,
        limit: None,
    };
    assert_eq!(Err(RibosomeErrorCode::UnknownEntryType), ask(&chain, &args));
    assert_eq!(failed(RibosomeErrorCode::UnknownEntryType), answer_query(&chain, &args));
    let args = QueryArgs {
        entry_type_names: QueryArgsNames::QueryName("a**".to_string()),
        start: 0,
        limit: None,
    };
    assert_eq!(Err(RibosomeErrorCode::ArgumentDeserializationFailed), ask(&chain, &args));
}

#[test]
fn answers_become_payloads() {
    assert_eq!(stored("[]"), reply_with(Ok(vec![])));
    assert_eq!(stored(r#"["a","b\n"]"#), reply_with(Ok(strings(&["a", "b\n"]))));
    assert_eq!(
        failed(RibosomeErrorCode::OutOfMemory),
        reply_with(Err(RibosomeErrorCode::OutOfMemory))
    );
}
