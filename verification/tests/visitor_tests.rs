use nftables::error::{DecodeError, DecodeErrorKind, PathSegment};
use nftables::expr::FibFlag;
use nftables::flags::FlagSet;
use nftables::json::Json;
use nftables::schema::SetFlag;
use nftables::stmt::{LogFlag, NATFlag, SynProxyFlag};
use nftables::token::Token;
use nftables::visitor::{
    decode_bool, decode_i32, decode_string, decode_u16, decode_u32, decode_u64, decode_u8,
    deserialize_flags, encode_strings, serialize_none_to_zero, single_string_to_option_hashset_logflag,
    single_string_to_option_vec, single_string_to_vec,
};

fn s(text: &str) -> String {
    text.to_string()
}

fn parse(text: &str) -> Json {
    Json::parse(text).expect("the sample is JSON")
}

fn shape_error(path: Vec<PathSegment>) -> DecodeError {
    DecodeError { path, kind: DecodeErrorKind::UnexpectedShape }
}

#[test]
fn test_single_string_to_vec() {
    assert_eq!(single_string_to_vec(&parse("null")), Ok(vec![]));
    assert_eq!(single_string_to_vec(&parse("\"eth0\"")), Ok(vec![s("eth0")]));
    assert_eq!(single_string_to_vec(&parse("[\"eth0\", \"eth1\"]")), Ok(vec![s("eth0"), s("eth1")]));
    assert_eq!(single_string_to_vec(&parse("[\"b\", \"a\", \"b\"]")), Ok(vec![s("b"), s("a"), s("b")]));
    assert_eq!(single_string_to_vec(&parse("[]")), Ok(vec![]));
}

#[test]
fn test_single_string_to_vec_errors() {
    assert_eq!(single_string_to_vec(&parse("1")), Err(shape_error(vec![])));
    assert_eq!(single_string_to_vec(&parse("{}")), Err(shape_error(vec![])));
    assert_eq!(single_string_to_vec(&parse("[\"a\", 2, 3]")), Err(shape_error(vec![PathSegment::Index(1)])));
}

#[test]
fn test_single_string_is_the_same_as_a_list_of_one() {
    assert_eq!(single_string_to_vec(&parse("\"dup\"")), single_string_to_vec(&parse("[\"dup\"]")));
}

#[test]
fn test_single_string_to_option_vec() {
    assert_eq!(single_string_to_option_vec(&parse("null")), Ok(None));
    assert_eq!(single_string_to_option_vec(&parse("[]")), Ok(None));
    assert_eq!(single_string_to_option_vec(&parse("\"eth0\"")), Ok(Some(vec![s("eth0")])));
    assert_eq!(single_string_to_option_vec(&parse("[\"a\", \"b\"]")), Ok(Some(vec![s("a"), s("b")])));
    assert_eq!(single_string_to_option_vec(&parse("true")), Err(shape_error(vec![])));
}

#[test]
fn test_strings_are_written_as_a_list() {
    assert_eq!(encode_strings(&vec![s("eth0")]).to_text(), "[\"eth0\"]");
    assert_eq!(encode_strings(&vec![]).to_text(), "[]");
    let v = vec![s("a"), s("b")];
    assert_eq!(single_string_to_vec(&encode_strings(&v)), Ok(v));
}

#[test]
fn test_deserialize_flags_single_and_list() {
    let one = deserialize_flags::<FibFlag>(&parse("\"iif\""));
    let list = deserialize_flags::<FibFlag>(&parse("[\"iif\"]"));
    assert_eq!(one, list);
    let set = one.unwrap();
    assert!(set.contains(&FibFlag::Iif));
    assert!(!set.contains(&FibFlag::Oif));
    assert_eq!(set.to_vec(), vec![FibFlag::Iif]);
}

#[test]
fn test_deserialize_flags_merges_and_orders() {
    let a = deserialize_flags::<FibFlag>(&parse("[\"oif\", \"saddr\", \"oif\", \"mark\"]")).unwrap();
    let b = deserialize_flags::<FibFlag>(&parse("[\"mark\", \"oif\", \"saddr\"]")).unwrap();
    assert_eq!(a, b);
    assert_eq!(a.to_vec(), vec![FibFlag::Saddr, FibFlag::Mark, FibFlag::Oif]);
    assert_eq!(a.encode().to_text(), "[\"saddr\",\"mark\",\"oif\"]");
    assert_eq!(deserialize_flags::<FibFlag>(&a.encode()), Ok(a));
}

#[test]
fn test_deserialize_flags_empty() {
    let none = deserialize_flags::<SetFlag>(&parse("[]")).unwrap();
    assert_eq!(none, FlagSet::new());
    assert_eq!(none.to_vec(), vec![]);
    assert_eq!(none.encode().to_text(), "[]");
}

#[test]
fn test_deserialize_flags_unknown_token() {
    assert_eq!(
        deserialize_flags::<FibFlag>(&parse("\"dup\"")),
        Err(DecodeError { path: vec![], kind: DecodeErrorKind::UnknownToken(s("dup")) })
    );
    assert_eq!(
        deserialize_flags::<FibFlag>(&parse("[\"iif\", \"dup\", \"nope\"]")),
        Err(DecodeError { path: vec![PathSegment::Index(1)], kind: DecodeErrorKind::UnknownToken(s("dup")) })
    );
}

#[test]
fn test_deserialize_flags_wrong_shape() {
    assert_eq!(deserialize_flags::<FibFlag>(&parse("null")), Err(shape_error(vec![])));
    assert_eq!(deserialize_flags::<FibFlag>(&parse("3")), Err(shape_error(vec![])));
    assert_eq!(deserialize_flags::<FibFlag>(&parse("[\"iif\", 3]")), Err(shape_error(vec![PathSegment::Index(1)])));
}

#[test]
fn test_flags_with_spaces_and_dashes() {
    let nat = deserialize_flags::<NATFlag>(&parse("[\"persistent\", \"fully-random\"]")).unwrap();
    assert_eq!(nat.to_vec(), vec![NATFlag::FullyRandom, NATFlag::Persistent]);
    let syn = deserialize_flags::<SynProxyFlag>(&parse("\"sack-perm\"")).unwrap();
    assert_eq!(syn.to_vec(), vec![SynProxyFlag::SackPerm]);
}

#[test]
fn test_single_string_to_option_hashset_logflag() {
    assert_eq!(single_string_to_option_hashset_logflag(&parse("null")), Ok(None));
    let one = single_string_to_option_hashset_logflag(&parse("\"tcp sequence\"")).unwrap().unwrap();
    assert_eq!(one.to_vec(), vec![LogFlag::TCPSequence]);
    let list = single_string_to_option_hashset_logflag(&parse("[\"all\", \"ip options\"]")).unwrap().unwrap();
    assert_eq!(list.to_vec(), vec![LogFlag::IPOptions, LogFlag::All]);
    assert_eq!(
        single_string_to_option_hashset_logflag(&parse("\"tcp\"")),
        Err(DecodeError { path: vec![], kind: DecodeErrorKind::UnknownToken(s("tcp")) })
    );
    assert_eq!(single_string_to_option_hashset_logflag(&parse("[]")), Ok(Some(FlagSet::new())));
}

#[test]
fn test_serialize_none_to_zero() {
    assert_eq!(serialize_none_to_zero(&None), Json::Number(0));
    assert_eq!(serialize_none_to_zero(&Some(0)), Json::Number(0));
    assert_eq!(serialize_none_to_zero(&Some(18446744073709551615)), Json::Number(18446744073709551615));
}

#[test]
fn test_numbers_and_their_ranges() {
    assert_eq!(decode_u8(&parse("255")), Ok(255));
    assert_eq!(decode_u8(&parse("256")), Err(shape_error(vec![])));
    assert_eq!(decode_u16(&parse("65535")), Ok(65535));
    assert_eq!(decode_u16(&parse("65536")), Err(shape_error(vec![])));
    assert_eq!(decode_u32(&parse("4294967295")), Ok(4294967295));
    assert_eq!(decode_u32(&parse("4294967296")), Err(shape_error(vec![])));
    assert_eq!(decode_u64(&parse("18446744073709551615")), Ok(18446744073709551615));
    assert_eq!(decode_u64(&parse("-1")), Err(shape_error(vec![])));
    assert_eq!(decode_i32(&parse("-2147483648")), Ok(-2147483648));
    assert_eq!(decode_i32(&parse("2147483647")), Ok(2147483647));
    assert_eq!(decode_i32(&parse("2147483648")), Err(shape_error(vec![])));
    assert_eq!(decode_u32(&parse("\"1\"")), Err(shape_error(vec![])));
    assert_eq!(decode_u32(&parse("1.0")), Err(shape_error(vec![])));
}

#[test]
fn test_strings_and_booleans() {
    assert_eq!(decode_string(&parse("\"a\"")), Ok(s("a")));
    assert_eq!(decode_string(&parse("1")), Err(shape_error(vec![])));
    assert_eq!(decode_bool(&parse("true")), Ok(true));
    assert_eq!(decode_bool(&parse("\"true\"")), Err(shape_error(vec![])));
}

#[test]
fn test_tokens_spell_and_parse() {
    for f in [FibFlag::Saddr, FibFlag::Daddr, FibFlag::Mark, FibFlag::Iif, FibFlag::Oif] {
        assert_eq!(FibFlag::parse(f.as_str()), Some(f));
    }
    assert_eq!(LogFlag::TCPOptions.as_str(), "tcp options");
    assert_eq!(LogFlag::parse("tcp options"), Some(LogFlag::TCPOptions));
    assert_eq!(LogFlag::parse("TCP options"), None);
    assert_eq!(FibFlag::parse(""), None);
}

#[test]
fn test_flag_set_is_a_set() {
    let mut a = FlagSet::new();
    a.insert(FibFlag::Oif);
    a.insert(FibFlag::Saddr);
    a.insert(FibFlag::Oif);
    let mut b = FlagSet::new();
    b.insert(FibFlag::Saddr);
    b.insert(FibFlag::Oif);
    assert_eq!(a, b);
    assert_eq!(a.clone(), a);
    assert_eq!(a.to_vec(), vec![FibFlag::Saddr, FibFlag::Oif]);
    assert!(a.contains(&FibFlag::Saddr));
    assert!(!a.contains(&FibFlag::Mark));
}
