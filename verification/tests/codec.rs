use gramcheck::codec::{
    decode_output, decode_result, encode_request, resolve_response, GramcheckRequest,
};
use gramcheck::error::ErrorKind;
use gramcheck::json::{parse, Json};

fn request(text: &str) -> GramcheckRequest {
    GramcheckRequest::new(text.to_string())
}

fn text(s: &str) -> Json {
    Json::Text(s.to_string())
}

fn number(n: u64) -> Json {
    Json::Number(Some(n))
}

fn finding_tuple(title: &str) -> Json {
    Json::Array(vec![
        text("heno"),
        number(0),
        number(4),
        text("typo"),
        text("Čállinmeattáhus"),
        Json::Array(vec![text("henon"), text("hena")]),
        text(title),
    ])
}

#[test]
fn test_foo() {
    let mut finding = Vec::new();
    finding.push(serde_json::Value::from("heno"));
    finding.push(serde_json::Value::from(0));
    finding.push(serde_json::Value::from(4));
    finding.push(serde_json::Value::from("typo"));
    finding.push(serde_json::Value::from("Čállinmeattáhus"));
    finding.push(serde_json::Value::Array(Vec::new()));
    let mut payload = serde_json::Map::new();
    payload.insert(
        "errs".to_string(),
        serde_json::Value::Array(vec![serde_json::Value::Array(finding)]),
    );
    payload.insert("text".to_string(), serde_json::Value::from("heno."));
    let _some_data = serde_json::Value::Object(payload);
}

#[test]
fn request_keeps_its_text() {
    let r = request("one\ntwo");
    assert_eq!(r.text(), "one\ntwo");
}

#[test]
fn encode_text_without_newline_is_unchanged() {
    assert_eq!(encode_request(&request("hello world")), "hello world");
}

#[test]
fn encode_cuts_at_first_newline() {
    assert_eq!(encode_request(&request("line one\nline two")), "line one");
    assert_eq!(encode_request(&request("a\nb\nc")), "a");
}

#[test]
fn encode_edge_cases() {
    assert_eq!(encode_request(&request("")), "");
    assert_eq!(encode_request(&request("\n")), "");
    assert_eq!(encode_request(&request("\nabc")), "");
    assert_eq!(encode_request(&request("abc\n")), "abc");
    assert_eq!(encode_request(&request("abc\r\ndef")), "abc\r");
}

#[test]
fn encode_counts_characters_not_bytes() {
    assert_eq!(encode_request(&request("Čállin\nmeattáhus")), "Čállin");
    assert_eq!(encode_request(&request("日本語")), "日本語");
}

#[test]
fn encoded_line_never_holds_a_newline() {
    for input in ["x", "x\ny", "\n\n", "äö\nü\n", "no newline at all"] {
        let line = encode_request(&request(input));
        assert!(!line.contains('\n'));
        assert!(input.starts_with(line.as_str()));
    }
}

#[test]
fn parse_reads_every_kind_of_value() {
    let doc = parse("{\"b\":[null,true,7,-1,1.5,\"s\"],\"a\":{}}").unwrap();
    match doc {
        Json::Object(members) => {
            assert_eq!(members.len(), 2);
            assert_eq!(members[0].0, "a");
            assert!(matches!(&members[0].1, Json::Object(inner) if inner.is_empty()));
            assert_eq!(members[1].0, "b");
            match &members[1].1 {
                Json::Array(items) => {
                    assert_eq!(items.len(), 6);
                    assert!(matches!(items[0], Json::Null));
                    assert!(matches!(items[1], Json::Bool(true)));
                    assert!(matches!(items[2], Json::Number(Some(7))));
                    assert!(matches!(items[3], Json::Number(None)));
                    assert!(matches!(items[4], Json::Number(None)));
                    assert!(matches!(&items[5], Json::Text(s) if s == "s"));
                }
                _ => panic!("member b is an array"),
            }
        }
        _ => panic!("the document is an object"),
    }
}

#[test]
fn parse_rejects_what_is_not_json() {
    assert!(parse("not json").is_err());
    assert!(parse("").is_err());
    assert!(parse("{\"text\":").is_err());
    assert!(parse("{} trailing").is_err());
    assert!(!parse("not json").unwrap_err().is_empty());
}

#[test]
fn round_trip_hello_world() {
    let line = encode_request(&request("hello world"));
    assert_eq!(line, "hello world");
    let response = "{\"errs\":[[\"hello\",0,5,\"typo\",\"Misspelled\",[\"hallo\"],\"Typo\"],[\"world\",6,11,\"typo\",\"Misspelled\",[],\"Typo\"]],\"text\":\"hello world\"}\n";
    let output = decode_result(response).unwrap();
    assert_eq!(output.text, "hello world");
    assert_eq!(output.errs.len(), 2);
}

#[test]
fn decode_tuple_findings() {
    let line = "{\"errs\":[[\"heno\",0,4,\"typo\",\"Čállinmeattáhus\",[\"henon\",\"hena\"],\"Čállinmeattáhus\"]],\"text\":\"heno.\"}";
    let output = decode_result(line).unwrap();
    assert_eq!(output.text, "heno.");
    assert_eq!(output.errs.len(), 1);
    let finding = &output.errs[0];
    assert_eq!(finding.error_text, "heno");
    assert_eq!(finding.start_index, 0);
    assert_eq!(finding.end_index, 4);
    assert_eq!(finding.error_code, "typo");
    assert_eq!(finding.description, "Čállinmeattáhus");
    assert_eq!(finding.suggestions, vec!["henon".to_string(), "hena".to_string()]);
    assert_eq!(finding.title, "Čállinmeattáhus");
}

#[test]
fn decode_named_findings() {
    let line = "{\"text\":\"ab\",\"extra\":1,\"errs\":[{\"title\":\"T\",\"suggestions\":[],\"description\":\"D\",\"error_code\":\"c\",\"end_index\":2,\"start_index\":1,\"error_text\":\"b\",\"more\":null}]}";
    let output = decode_result(line).unwrap();
    assert_eq!(output.text, "ab");
    assert_eq!(output.errs.len(), 1);
    assert_eq!(output.errs[0].error_text, "b");
    assert_eq!(output.errs[0].start_index, 1);
    assert_eq!(output.errs[0].end_index, 2);
    assert_eq!(output.errs[0].error_code, "c");
    assert_eq!(output.errs[0].description, "D");
    assert!(output.errs[0].suggestions.is_empty());
    assert_eq!(output.errs[0].title, "T");
}

#[test]
fn decode_answer_written_as_a_pair() {
    let output = decode_result("[\"heno.\", []]").unwrap();
    assert_eq!(output.text, "heno.");
    assert!(output.errs.is_empty());
}

#[test]
fn decode_without_findings() {
    let output = decode_result("{\"errs\":[],\"text\":\"\"}").unwrap();
    assert_eq!(output.text, "");
    assert!(output.errs.is_empty());
}

#[test]
fn decode_keeps_the_raw_line_of_a_malformed_response() {
    let error = decode_result("not json").unwrap_err();
    assert_eq!(error.raw_line, "not json");
    assert!(!error.cause.is_empty());

    let error = decode_result("").unwrap_err();
    assert_eq!(error.raw_line, "");

    let error = decode_result("{\"errs\":[],\"text\":\"trunc").unwrap_err();
    assert_eq!(error.raw_line, "{\"errs\":[],\"text\":\"trunc");
}

#[test]
fn decode_rejects_documents_that_are_no_answer() {
    for line in [
        "{\"text\":\"x\"}",
        "{\"errs\":[]}",
        "{\"errs\":[],\"text\":5}",
        "{\"errs\":{},\"text\":\"x\"}",
        "[\"x\"]",
        "[\"x\",[],1]",
        "\"x\"",
        "null",
        "{\"errs\":[[\"heno\",0,4,\"typo\",\"D\",[]]],\"text\":\"heno.\"}",
        "{\"errs\":[[\"heno\",0,4,\"typo\",\"D\",[],\"T\",1]],\"text\":\"heno.\"}",
        "{\"errs\":[[\"heno\",-1,4,\"typo\",\"D\",[],\"T\"]],\"text\":\"heno.\"}",
        "{\"errs\":[[\"heno\",0,4.5,\"typo\",\"D\",[],\"T\"]],\"text\":\"heno.\"}",
        "{\"errs\":[[\"heno\",0,4294967296,\"typo\",\"D\",[],\"T\"]],\"text\":\"heno.\"}",
        "{\"errs\":[[\"heno\",0,4,\"typo\",\"D\",[1],\"T\"]],\"text\":\"heno.\"}",
        "{\"errs\":[[\"heno\",0,4,\"typo\",\"D\",\"s\",\"T\"]],\"text\":\"heno.\"}",
        "{\"errs\":[{\"error_text\":\"b\"}],\"text\":\"heno.\"}",
    ] {
        let error = decode_result(line).unwrap_err();
        assert_eq!(error.raw_line, line);
        assert_eq!(error.cause, "payload is not a check result");
    }
}

#[test]
fn decode_offsets_up_to_32_bits() {
    let line = "{\"errs\":[[\"e\",4294967295,0,\"c\",\"D\",[],\"T\"]],\"text\":\"t\"}";
    let output = decode_result(line).unwrap();
    assert_eq!(output.errs[0].start_index, 4294967295);
    assert_eq!(output.errs[0].end_index, 0);
}

#[test]
fn decode_output_from_a_document() {
    let doc = Json::Object(vec![
        ("errs".to_string(), Json::Array(vec![finding_tuple("T1"), finding_tuple("T2")])),
        ("text".to_string(), text("heno.")),
    ]);
    let output = decode_output(&doc).unwrap();
    assert_eq!(output.text, "heno.");
    assert_eq!(output.errs.len(), 2);
    assert_eq!(output.errs[0].title, "T1");
    assert_eq!(output.errs[1].title, "T2");
    assert_eq!(output.errs[1].suggestions.len(), 2);
}

#[test]
fn decode_output_takes_the_last_member_of_a_name() {
    let doc = Json::Object(vec![
        ("text".to_string(), text("first")),
        ("errs".to_string(), Json::Array(vec![])),
        ("text".to_string(), text("last")),
    ]);
    assert_eq!(decode_output(&doc).unwrap().text, "last");
}

#[test]
fn decode_output_rejects_other_shapes() {
    assert_eq!(decode_output(&Json::Null).unwrap_err(), "payload is not a check result");
    assert!(decode_output(&Json::Array(vec![text("x")])).is_err());
    assert!(decode_output(&Json::Object(vec![("text".to_string(), text("x"))])).is_err());
    let six = Json::Array(vec![
        text("heno"),
        number(0),
        number(4),
        text("typo"),
        text("D"),
        Json::Array(vec![]),
    ]);
    let doc = Json::Array(vec![text("heno."), Json::Array(vec![six])]);
    assert!(decode_output(&doc).is_err());
    let unreadable_offset = Json::Array(vec![
        text("heno"),
        Json::Number(None),
        number(4),
        text("typo"),
        text("D"),
        Json::Array(vec![]),
        text("T"),
    ]);
    let doc = Json::Array(vec![text("heno."), Json::Array(vec![unreadable_offset])]);
    assert!(decode_output(&doc).is_err());
}

#[test]
fn response_that_is_not_json_is_a_protocol_violation() {
    let error = resolve_response("not json").unwrap_err();
    assert_eq!(error.kind, ErrorKind::ProtocolViolation);
    assert!(error.message.starts_with("error: "));
    assert!(error.message.ends_with(", line: 'not json'"));
    assert_eq!(error.to_string(), error.message);
}

#[test]
fn response_of_another_shape_is_a_protocol_violation() {
    let error = resolve_response("{\"text\":1}").unwrap_err();
    assert_eq!(error.kind, ErrorKind::ProtocolViolation);
    assert_eq!(error.message, "error: payload is not a check result, line: '{\"text\":1}'");
}

#[test]
fn well_formed_response_resolves_to_its_answer() {
    let output = resolve_response("{\"errs\":[],\"text\":\"fine\"}\n").unwrap();
    assert_eq!(output.text, "fine");
}
