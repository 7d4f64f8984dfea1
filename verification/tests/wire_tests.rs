use nftables::json::Json;

fn s(text: &str) -> String {
    text.to_string()
}

#[test]
fn test_parse_scalars() {
    assert_eq!(Json::parse("null"), Ok(Json::Null));
    assert_eq!(Json::parse("true"), Ok(Json::Bool(true)));
    assert_eq!(Json::parse("false"), Ok(Json::Bool(false)));
    assert_eq!(Json::parse("0"), Ok(Json::Number(0)));
    assert_eq!(Json::parse("-7"), Ok(Json::Number(-7)));
    assert_eq!(Json::parse("18446744073709551615"), Ok(Json::Number(18446744073709551615)));
    assert_eq!(Json::parse("-9223372036854775808"), Ok(Json::Number(-9223372036854775808)));
    assert_eq!(Json::parse("\"a\\nb\""), Ok(Json::String(s("a\nb"))));
    assert_eq!(Json::parse("\"\""), Ok(Json::String(s(""))));
}

#[test]
fn test_parse_numbers_that_are_no_integers() {
    assert_eq!(Json::parse("1.5"), Ok(Json::Decimal(s("1.5"))));
    assert_eq!(Json::parse("-0.25"), Ok(Json::Decimal(s("-0.25"))));
    assert!(matches!(Json::parse("1e3"), Ok(Json::Decimal(_))));
    assert!(matches!(Json::parse("18446744073709551616"), Ok(Json::Decimal(_))));
}

#[test]
fn test_parse_arrays_and_objects() {
    assert_eq!(Json::parse("[]"), Ok(Json::Array(vec![])));
    assert_eq!(Json::parse("{}"), Ok(Json::Object(vec![])));
    assert_eq!(
        Json::parse(" [1, [2, \"x\"], {\"k\": null}] "),
        Ok(Json::Array(vec![
            Json::Number(1),
            Json::Array(vec![Json::Number(2), Json::String(s("x"))]),
            Json::Object(vec![(s("k"), Json::Null)]),
        ]))
    );
    // The members of an object that was read stand in the order of their keys, and of a
    // key that is written twice the last value is kept.
    assert_eq!(
        Json::parse("{\"b\": 1, \"a\": 2, \"b\": 3}"),
        Ok(Json::Object(vec![(s("a"), Json::Number(2)), (s("b"), Json::Number(3))]))
    );
    let j = Json::parse("{\"a\": 1, \"b\": {\"c\": [true]}}").unwrap();
    assert_eq!(
        j,
        Json::Object(vec![
            (s("a"), Json::Number(1)),
            (s("b"), Json::Object(vec![(s("c"), Json::Array(vec![Json::Bool(true)]))])),
        ])
    );
}

#[test]
fn test_parse_errors() {
    for text in ["", "{", "[1,]", "{\"a\" 1}", "nul", "\"open", "1 2", "{\"a\": }"] {
        let e = Json::parse(text).unwrap_err();
        assert!(!e.message.is_empty(), "{:?}", text);
    }
}

#[test]
fn test_parse_nesting() {
    let deep = |n: usize| format!("{}{}", "[".repeat(n), "]".repeat(n));
    assert!(Json::parse(&deep(100)).is_ok());
    assert!(Json::parse(&deep(129)).is_err());
    assert!(Json::parse(&deep(1000)).is_err());
}

#[test]
fn test_text_of_scalars() {
    assert_eq!(Json::Null.to_text(), "null");
    assert_eq!(Json::Bool(true).to_text(), "true");
    assert_eq!(Json::Bool(false).to_text(), "false");
    assert_eq!(Json::Number(0).to_text(), "0");
    assert_eq!(Json::Number(7).to_text(), "7");
    assert_eq!(Json::Number(10).to_text(), "10");
    assert_eq!(Json::Number(1234567890).to_text(), "1234567890");
    assert_eq!(Json::Number(-1).to_text(), "-1");
    assert_eq!(Json::Number(-120).to_text(), "-120");
    assert_eq!(Json::Number(i128::MAX).to_text(), "170141183460469231731687303715884105727");
    assert_eq!(Json::Number(i128::MIN).to_text(), "-170141183460469231731687303715884105728");
    assert_eq!(Json::Decimal(s("1.5")).to_text(), "1.5");
}

#[test]
fn test_text_of_strings_is_quoted_and_escaped() {
    assert_eq!(Json::String(s("a")).to_text(), "\"a\"");
    assert_eq!(Json::String(s("")).to_text(), "\"\"");
    assert_eq!(Json::String(s("say \"hi\"")).to_text(), "\"say \\\"hi\\\"\"");
    assert_eq!(Json::String(s("a\\b")).to_text(), "\"a\\\\b\"");
    assert_eq!(Json::String(s("line\nbreak\ttab")).to_text(), "\"line\\nbreak\\ttab\"");
    assert_eq!(Json::String(s("\u{1}")).to_text(), "\"\\u0001\"");
    assert_eq!(Json::String(s("käse €")).to_text(), "\"käse €\"");
}

#[test]
fn test_text_of_arrays_and_objects() {
    assert_eq!(Json::Array(vec![]).to_text(), "[]");
    assert_eq!(Json::Array(vec![Json::Null]).to_text(), "[null]");
    assert_eq!(Json::Array(vec![Json::Number(1), Json::Number(2), Json::Number(3)]).to_text(), "[1,2,3]");
    assert_eq!(Json::Object(vec![]).to_text(), "{}");
    assert_eq!(Json::Object(vec![(s("a"), Json::Number(1))]).to_text(), "{\"a\":1}");
    assert_eq!(
        Json::Object(vec![
            (s("b \"q\""), Json::Array(vec![Json::Object(vec![])])),
            (s("a"), Json::String(s("x"))),
        ])
        .to_text(),
        "{\"b \\\"q\\\"\":[{}],\"a\":\"x\"}"
    );
}

#[test]
fn test_text_is_read_back() {
    let j = Json::Object(vec![
        (s("a"), Json::Array(vec![Json::Number(-5), Json::Bool(false), Json::Null])),
        (s("b"), Json::String(s("quote \" backslash \\ newline \n"))),
        (s("c"), Json::Decimal(s("2.5"))),
    ]);
    assert_eq!(Json::parse(&j.to_text()), Ok(j.clone()));
    assert_eq!(j.clone(), j);
}

#[test]
fn test_member_lookup() {
    let j = Json::parse("{\"a\": 1, \"b\": 2}").unwrap();
    if let Json::Object(members) = &j {
        assert_eq!(nftables::json::find(members, "b"), Some(&Json::Number(2)));
        assert_eq!(nftables::json::find(members, "c"), None);
        assert_eq!(nftables::json::find(members, ""), None);
    } else {
        panic!("an object was expected");
    }
    let twice = vec![(s("k"), Json::Number(1)), (s("k"), Json::Number(2))];
    assert_eq!(nftables::json::find(&twice, "k"), Some(&Json::Number(1)));
}

#[test]
fn test_same_text() {
    assert!(nftables::text::same_text("", ""));
    assert!(nftables::text::same_text("tcp option", "tcp option"));
    assert!(!nftables::text::same_text("tcp option", "tcp options"));
    assert!(!nftables::text::same_text("a", "b"));
    assert!(nftables::text::same_text("käse", "käse"));
    assert!(!nftables::text::same_text("kase", "käse"));
}

#[test]
fn test_every_escape_of_a_string() {
    let all = "\" \\ \u{8} \t \n \u{c} \r \u{0} \u{1f} \u{7f} / ä";
    assert_eq!(
        Json::String(s(all)).to_text(),
        "\"\\\" \\\\ \\b \\t \\n \\f \\r \\u0000 \\u001f \u{7f} / ä\""
    );
    assert_eq!(Json::parse(&Json::String(s(all)).to_text()), Ok(Json::String(s(all))));
}
