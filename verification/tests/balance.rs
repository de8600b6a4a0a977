use solana_rpc_transactions::balance::{balance_result, get_balance, get_balances, BalanceReply};
use solana_rpc_transactions::json::Json;

fn body(text: &str) -> BalanceReply {
    BalanceReply::Body(text.as_bytes().to_vec())
}

#[test]
fn reads_the_balance_of_a_reply() {
    let reply = body(r#"{"jsonrpc":"2.0","result":{"context":{"slot":1},"value":5000000},"id":1}"#);
    assert_eq!(get_balance("wallet".to_string(), reply), ("wallet".to_string(), Ok(5_000_000)));
    assert_eq!(
        get_balance("w".to_string(), body(r#"{"result":{"value":18446744073709551615}}"#)).1,
        Ok(u64::MAX)
    );
    assert_eq!(get_balance("w".to_string(), body(r#"{"result":{"value":0}}"#)).1, Ok(0));
}

#[test]
fn reports_a_reply_without_balance() {
    let missing = Err("Failed to parse balance".to_string());
    for text in [
        r#"{"jsonrpc":"2.0","error":{"code":-32602,"message":"Invalid param"},"id":1}"#,
        r#"{"result":{}}"#,
        r#"{"result":5}"#,
        r#"{"result":[{"value":5}]}"#,
        r#"{"result":{"value":-1}}"#,
        r#"{"result":{"value":1.5}}"#,
        r#"{"result":{"value":"5"}}"#,
        r#"{"result":{"value":null}}"#,
        r#"{"result":{"value":18446744073709551616}}"#,
        r#"[1, 2]"#,
        r#"7"#,
        r#"null"#,
    ] {
        assert_eq!(get_balance("w".to_string(), body(text)).1, missing, "body: {}", text);
    }
}

#[test]
fn reports_a_reply_that_is_no_json() {
    let broken = Err("Failed to parse JSON response".to_string());
    for text in ["", "<html>", r#"{"result":{"value":5}"#, r#"{"result":{"value":5}} x"#] {
        assert_eq!(get_balance("w".to_string(), body(text)).1, broken, "body: {}", text);
    }
    assert_eq!(get_balance("w".to_string(), BalanceReply::Body(vec![0xff, 0xfe])).1, broken);
    assert_eq!(get_balance("w".to_string(), BalanceReply::Unreadable), ("w".to_string(), broken));
}

#[test]
fn keeps_the_message_of_a_failed_request() {
    assert_eq!(
        get_balance("w".to_string(), BalanceReply::Failed("connection refused".to_string())),
        ("w".to_string(), Err("connection refused".to_string()))
    );
}

#[test]
fn names_the_outcome_of_what_a_body_holds() {
    assert_eq!(balance_result(None), Err("Failed to parse JSON response".to_string()));
    assert_eq!(balance_result(Some(None)), Err("Failed to parse balance".to_string()));
    assert_eq!(balance_result(Some(Some(12))), Ok(12));
}

#[test]
fn gathers_what_the_requests_gave_in_order() {
    let joined = vec![
        Some(("a".to_string(), Ok(1))),
        None,
        Some(("b".to_string(), Err("Failed to parse balance".to_string()))),
        None,
        None,
        Some(("c".to_string(), Ok(3))),
    ];
    assert_eq!(
        get_balances(joined),
        vec![
            ("a".to_string(), Ok(1)),
            ("b".to_string(), Err("Failed to parse balance".to_string())),
            ("c".to_string(), Ok(3)),
        ]
    );
    assert_eq!(get_balances(vec![]), vec![]);
    assert_eq!(get_balances(vec![None, None]), vec![]);
}

#[test]
fn reads_the_last_of_two_members_with_one_key() {
    let reply = body(r#"{"result":{"value":1},"result":{"value":2,"value":3}}"#);
    assert_eq!(get_balance("w".to_string(), reply).1, Ok(3));
}

#[test]
fn reads_a_balance_among_other_members() {
    let reply = body(r#"{"id":1,"result":{"context":{"value":9},"value":4,"extra":[1,{"value":7}]},"value":8}"#);
    assert_eq!(get_balance("w".to_string(), reply).1, Ok(4));
}

#[test]
fn looks_up_the_first_member_with_the_key() {
    let document = Json::Object(vec![
        ("a".to_string(), Json::Number(Some(1))),
        ("b".to_string(), Json::Text("x".to_string())),
        ("a".to_string(), Json::Number(Some(2))),
    ]);
    assert!(matches!(document.member("a"), Some(Json::Number(Some(1)))));
    assert!(matches!(document.member("b"), Some(Json::Text(_))));
    assert!(document.member("c").is_none());
    assert!(document.member("").is_none());
    assert!(Json::Array(vec![Json::Null]).member("a").is_none());
    assert!(Json::Null.member("a").is_none());
}

#[test]
fn reads_a_whole_number_only_from_a_number() {
    assert_eq!(Json::Number(Some(7)).whole(), Some(7));
    assert_eq!(Json::Number(Some(u64::MAX)).whole(), Some(u64::MAX));
    assert_eq!(Json::Number(None).whole(), None);
    assert_eq!(Json::Text("7".to_string()).whole(), None);
    assert_eq!(Json::Bool(true).whole(), None);
    assert_eq!(Json::Null.whole(), None);
    assert_eq!(Json::Array(vec![Json::Number(Some(7))]).whole(), None);
    assert_eq!(Json::Object(vec![]).whole(), None);
}
