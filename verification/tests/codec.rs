use runesdex_solver::codec::encode_quote_response;
use runesdex_solver::codec::encode_subscribe_request;
use runesdex_solver::codec::escape_json;
use runesdex_solver::codec::parse_intent_push;
use runesdex_solver::codec::parse_subscribe_ack;
use runesdex_solver::codec::u64_to_decimal;
use runesdex_solver::types::QuoteOutput;
use runesdex_solver::types::SignaturePayload;
use runesdex_solver::types::SignedIntentData;
use runesdex_solver::types::SwapQuote;

#[test]
fn subscribe_request_is_the_fixed_frame() {
    assert_eq!(
        encode_subscribe_request(),
        "{\"jsonrpc\":\"2.0\",\"id\":1,\"method\":\"subscribe\",\"params\":[\"quote\"]}"
    );
}

#[test]
fn decimal_rendering_is_exact() {
    assert_eq!(u64_to_decimal(0), "0");
    assert_eq!(u64_to_decimal(7), "7");
    assert_eq!(u64_to_decimal(1300), "1300");
    assert_eq!(u64_to_decimal(u64::MAX), "18446744073709551615");
}

#[test]
fn escaping_covers_the_listed_characters() {
    assert_eq!(escape_json("plain"), "plain");
    assert_eq!(escape_json("a\"b"), "a\\\"b");
    assert_eq!(escape_json("a\\b"), "a\\\\b");
    assert_eq!(escape_json("a\nb\rc\td"), "a\\nb\\rc\\td");
}

#[test]
fn escaping_covers_control_characters() {
    assert_eq!(escape_json("a\u{1}b"), "a\\u0001b");
    assert_eq!(escape_json("\u{1f}"), "\\u001f");
}

#[test]
fn control_characters_are_rejected_inbound() {
    assert_eq!(
        parse_subscribe_ack("{\"jsonrpc\":\"2.0\",\"id\":1,\"result\":\"a\u{1}b\"}"),
        None
    );
}

#[test]
fn quote_response_frame_is_exact() {
    let quote = SwapQuote {
        quote_id: "q1".to_string(),
        quote_output: QuoteOutput {
            amount_in: Some("100".to_string()),
            amount_out: Some("95".to_string()),
        },
        signed_data: SignedIntentData {
            standard: "nep413".to_string(),
            payload: SignaturePayload {
                message: "{\"a\":1}".to_string(),
                nonce: "n0".to_string(),
                recipient: "intents.near".to_string(),
                callback_url: None,
            },
            signature: "sig".to_string(),
            public_key: "pk".to_string(),
        },
    };
    let frame = encode_quote_response(&quote);
    assert_eq!(
        frame,
        "{\"jsonrpc\":\"2.0\",\"id\":2,\"method\":\"quote_response\",\"params\":[\
         {\"quote_id\":\"q1\",\"quote_output\":{\"amount_in\":\"100\",\"amount_out\":\"95\"},\
         \"signed_data\":{\"standard\":\"nep413\",\"payload\":{\"message\":\"{\\\"a\\\":1}\",\
         \"nonce\":\"n0\",\"recipient\":\"intents.near\",\"callback_url\":null},\
         \"signature\":\"sig\",\"public_key\":\"pk\"}}]}"
    );
}

#[test]
fn subscribe_ack_parses_to_its_id() {
    let id = parse_subscribe_ack("{\"jsonrpc\":\"2.0\",\"id\":1,\"result\":\"abc123\"}");
    assert_eq!(id.as_deref(), Some("abc123"));
}

#[test]
fn subscribe_ack_rejects_other_shapes() {
    assert_eq!(parse_subscribe_ack(""), None);
    assert_eq!(parse_subscribe_ack("{\"jsonrpc\":\"2.0\",\"id\":1,\"result\":\"abc"), None);
    assert_eq!(parse_subscribe_ack("{\"jsonrpc\":\"2.0\",\"id\":2,\"result\":\"abc\"}"), None);
    assert_eq!(
        parse_subscribe_ack("{\"jsonrpc\":\"2.0\",\"id\":1,\"result\":\"abc\"}trailing"),
        None
    );
}

#[test]
fn intent_push_parses_all_fields() {
    let frame = "{\"jsonrpc\":\"2.0\",\"method\":\"subscribe\",\"params\":{\
                 \"subscription\":\"sub-1\",\"quote_id\":\"q1\",\
                 \"defuse_asset_identifier_in\":\"BTC.rune\",\
                 \"defuse_asset_identifier_out\":\"USDC.near\",\
                 \"exact_amount_in\":\"100\",\"exact_amount_out\":null}}";
    let (sub, intent) = parse_intent_push(frame).unwrap();
    assert_eq!(sub, "sub-1");
    assert_eq!(intent.quote_id, "q1");
    assert_eq!(intent.defuse_asset_identifier_in, "BTC.rune");
    assert_eq!(intent.defuse_asset_identifier_out, "USDC.near");
    assert_eq!(intent.exact_amount_in.as_deref(), Some("100"));
    assert_eq!(intent.exact_amount_out, None);
}

#[test]
fn intent_push_parses_output_fixed_side() {
    let frame = "{\"jsonrpc\":\"2.0\",\"method\":\"subscribe\",\"params\":{\
                 \"subscription\":\"s\",\"quote_id\":\"q2\",\
                 \"defuse_asset_identifier_in\":\"A\",\
                 \"defuse_asset_identifier_out\":\"B\",\
                 \"exact_amount_in\":null,\"exact_amount_out\":\"7\"}}";
    let (_, intent) = parse_intent_push(frame).unwrap();
    assert_eq!(intent.exact_amount_in, None);
    assert_eq!(intent.exact_amount_out.as_deref(), Some("7"));
}

#[test]
fn intent_push_rejects_other_shapes() {
    assert!(parse_intent_push("").is_none());
    assert!(parse_intent_push("{\"jsonrpc\":\"2.0\",\"id\":1,\"result\":\"abc\"}").is_none());
    let truncated = "{\"jsonrpc\":\"2.0\",\"method\":\"subscribe\",\"params\":{\
                     \"subscription\":\"s\",\"quote_id\":\"q\"";
    assert!(parse_intent_push(truncated).is_none());
    let trailing = "{\"jsonrpc\":\"2.0\",\"method\":\"subscribe\",\"params\":{\
                    \"subscription\":\"s\",\"quote_id\":\"q\",\
                    \"defuse_asset_identifier_in\":\"A\",\
                    \"defuse_asset_identifier_out\":\"B\",\
                    \"exact_amount_in\":\"1\",\"exact_amount_out\":null}}x";
    assert!(parse_intent_push(trailing).is_none());
}

#[test]
fn subscribe_ack_accepts_whitespace_and_key_order() {
    let id = parse_subscribe_ack(
        "{ \"result\" : \"abc123\" ,\n  \"id\" : 1 , \"jsonrpc\" : \"2.0\" }",
    );
    assert_eq!(id.as_deref(), Some("abc123"));
}

#[test]
fn intent_push_accepts_whitespace_and_key_order() {
    let frame = "{ \"method\" : \"subscribe\" , \"params\" : {\n\
                 \t\"exact_amount_out\" : null , \"quote_id\" : \"q1\" ,\n\
                 \t\"defuse_asset_identifier_out\" : \"USDC.near\" ,\n\
                 \t\"defuse_asset_identifier_in\" : \"BTC.rune\" ,\n\
                 \t\"exact_amount_in\" : \"100\" , \"subscription\" : \"sub-1\"\n\
                 } , \"jsonrpc\" : \"2.0\" }";
    let (sub, intent) = parse_intent_push(frame).unwrap();
    assert_eq!(sub, "sub-1");
    assert_eq!(intent.quote_id, "q1");
    assert_eq!(intent.defuse_asset_identifier_in, "BTC.rune");
    assert_eq!(intent.defuse_asset_identifier_out, "USDC.near");
    assert_eq!(intent.exact_amount_in.as_deref(), Some("100"));
    assert_eq!(intent.exact_amount_out, None);
}

#[test]
fn intent_push_accepts_absent_amount_and_extra_params() {
    let frame = "{\"jsonrpc\":\"2.0\",\"method\":\"subscribe\",\"params\":{\
                 \"subscription\":\"s\",\"quote_id\":\"q2\",\
                 \"defuse_asset_identifier_in\":\"A\",\
                 \"defuse_asset_identifier_out\":\"B\",\
                 \"min_deadline_ms\":120000,\"exact_amount_out\":\"7\"}}";
    let (_, intent) = parse_intent_push(frame).unwrap();
    assert_eq!(intent.exact_amount_in, None);
    assert_eq!(intent.exact_amount_out.as_deref(), Some("7"));
}

#[test]
fn intent_push_rejects_wrong_method_or_version() {
    let frame = "{\"jsonrpc\":\"1.0\",\"method\":\"subscribe\",\"params\":{\
                 \"subscription\":\"s\",\"quote_id\":\"q\",\
                 \"defuse_asset_identifier_in\":\"A\",\
                 \"defuse_asset_identifier_out\":\"B\",\
                 \"exact_amount_in\":\"1\",\"exact_amount_out\":null}}";
    assert!(parse_intent_push(frame).is_none());
    let frame2 = "{\"jsonrpc\":\"2.0\",\"method\":\"unsubscribe\",\"params\":{\
                 \"subscription\":\"s\",\"quote_id\":\"q\",\
                 \"defuse_asset_identifier_in\":\"A\",\
                 \"defuse_asset_identifier_out\":\"B\",\
                 \"exact_amount_in\":\"1\",\"exact_amount_out\":null}}";
    assert!(parse_intent_push(frame2).is_none());
}
