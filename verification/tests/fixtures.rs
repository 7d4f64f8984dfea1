use nftables::codec::decode;
use nftables::schema::Nftables;

// nft 1.1.4 prints a single flag as a string in place of an array of one string.
// Both are read, and to the same document.
fn parse_and_compare(text1: &str, text2: &str) {
    let json1: Nftables = decode(text1).expect("failed to parse json1");
    let json2: Nftables = decode(text2).expect("failed to parse json2");
    assert_eq!(json1, json2, "Both parsed documents should be identical");
}

fn rule_with(statement: &str) -> String {
    format!(
        "{{\"nftables\": [{{\"metainfo\": {{\"version\": \"1.1.4\", \"release_name\": \"Fifty Feet Deep\", \"json_schema_version\": 1}}}}, \
         {{\"table\": {{\"family\": \"inet\", \"name\": \"t\", \"handle\": 1}}}}, \
         {{\"chain\": {{\"family\": \"inet\", \"table\": \"t\", \"name\": \"c\", \"handle\": 1}}}}, \
         {{\"rule\": {{\"family\": \"inet\", \"table\": \"t\", \"chain\": \"c\", \"handle\": 2, \"expr\": [{}]}}}}]}}",
        statement
    )
}

#[test]
fn test_parse_fib_flags() {
    let with = |flags: &str| {
        rule_with(&format!(
            "{{\"match\": {{\"op\": \"==\", \"left\": {{\"fib\": {{\"result\": \"oif\", \"flags\": {}}}}}, \"right\": false}}}}",
            flags
        ))
    };
    parse_and_compare(&with("\"saddr\""), &with("[\"saddr\"]"));
}

#[test]
fn test_parse_synproxy_flags() {
    let with = |flags: &str| rule_with(&format!("{{\"synproxy\": {{\"mss\": 1460, \"wscale\": 7, \"flags\": {}}}}}", flags));
    parse_and_compare(&with("\"timestamp\""), &with("[\"timestamp\"]"));
}

#[test]
fn test_parse_set_map_flags() {
    let with = |flags: &str| {
        format!(
            "{{\"nftables\": [{{\"set\": {{\"family\": \"inet\", \"name\": \"s\", \"table\": \"t\", \"type\": \"ipv4_addr\", \"handle\": 3, \"flags\": {0}}}}}, \
             {{\"map\": {{\"family\": \"inet\", \"name\": \"m\", \"table\": \"t\", \"type\": \"ipv4_addr\", \"handle\": 4, \"map\": \"verdict_like\", \"flags\": {0}}}}}]}}",
            flags
        )
        .replace("verdict_like", "mark")
    };
    parse_and_compare(&with("\"interval\""), &with("[\"interval\"]"));
}
