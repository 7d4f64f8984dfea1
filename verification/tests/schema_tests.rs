use nftables::codec::{decode, encode, TextError};
use nftables::error::{DecodeError, DecodeErrorKind, NftablesError, PathSegment};
use nftables::expr::{Expression, NamedExpression, Payload, PayloadField};
use nftables::flags::FlagSet;
use nftables::json::Json;
use nftables::schema::{
    CTExpectation, CTHProto, CTHelper, CTTimeout, Chain, ChainBuilder, Counter, Element, FlowTable,
    FlushObject, Limit, LimitUnit, MapObject, MetainfoObject, Meter, NfCmd, NfListObject, NfObject,
    Nftables, Quota, Rule, RuleBuilder, Ruleset, SetFlag, SetObject, SetPolicy, SetType,
    SetTypeValue, SynProxy, Table, TableBuilder,
};
use nftables::stmt::{AnonymousCounter, Limit as LimitStatement, Match, Operator, Statement};
use nftables::types::{NfChainPolicy, NfChainType, NfFamily, NfHook};

fn s(text: &str) -> String {
    text.to_string()
}

fn parse(text: &str) -> Json {
    Json::parse(text).expect("the sample is JSON")
}

fn table(name: &str) -> Table {
    Table { family: NfFamily::IP, name: s(name), handle: None }
}

fn chain(table: &str, name: &str) -> Chain {
    Chain {
        family: NfFamily::IP,
        table: s(table),
        name: s(name),
        newname: None,
        handle: None,
        _type: None,
        hook: None,
        prio: None,
        dev: None,
        policy: None,
    }
}

fn list_round_trip(o: NfListObject, wire: &str) {
    assert_eq!(o.encode().to_text(), wire);
    assert_eq!(NfListObject::decode(&parse(wire)), Ok(o));
}

const LISTING: &str = r#"{"nftables": [
  {"metainfo": {"version": "1.0.9", "release_name": "Old Doc Yak #3", "json_schema_version": 1}},
  {"table": {"family": "ip", "name": "filter", "handle": 1}},
  {"chain": {"family": "ip", "table": "filter", "name": "input", "handle": 1,
             "type": "filter", "hook": "input", "prio": 0, "policy": "accept"}},
  {"rule": {"family": "ip", "table": "filter", "chain": "input", "handle": 2,
            "expr": [
              {"match": {"op": "==", "left": {"payload": {"protocol": "tcp", "field": "dport"}}, "right": 22}},
              {"counter": {"packets": 0, "bytes": 0}},
              {"accept": null}
            ]}}
]}"#;

const CANONICAL: &str = "{\"nftables\":[{\"metainfo\":{\"version\":\"1.0.9\",\"release_name\":\"Old Doc Yak #3\",\"json_schema_version\":1}},{\"table\":{\"family\":\"ip\",\"name\":\"filter\",\"handle\":1}},{\"chain\":{\"family\":\"ip\",\"table\":\"filter\",\"name\":\"input\",\"handle\":1,\"type\":\"filter\",\"hook\":\"input\",\"prio\":0,\"policy\":\"accept\"}},{\"rule\":{\"family\":\"ip\",\"table\":\"filter\",\"chain\":\"input\",\"expr\":[{\"match\":{\"left\":{\"payload\":{\"protocol\":\"tcp\",\"field\":\"dport\"}},\"right\":22,\"op\":\"==\"}},{\"counter\":{\"packets\":0,\"bytes\":0}},{\"accept\":null}],\"handle\":2}}]}";

fn listing() -> Nftables {
    Nftables {
        objects: vec![
            NfObject::ListObject(NfListObject::MetainfoObject(MetainfoObject {
                version: Some(s("1.0.9")),
                release_name: Some(s("Old Doc Yak #3")),
                json_schema_version: Some(1),
            })),
            NfObject::ListObject(NfListObject::Table(Table {
                family: NfFamily::IP,
                name: s("filter"),
                handle: Some(1),
            })),
            NfObject::ListObject(NfListObject::Chain(Chain {
                handle: Some(1),
                _type: Some(NfChainType::Filter),
                hook: Some(NfHook::Input),
                prio: Some(0),
                policy: Some(NfChainPolicy::Accept),
                ..chain("filter", "input")
            })),
            NfObject::ListObject(NfListObject::Rule(Rule {
                family: NfFamily::IP,
                table: s("filter"),
                chain: s("input"),
                expr: vec![
                    Statement::Match(Match {
                        left: Expression::Named(NamedExpression::Payload(Payload::PayloadField(
                            PayloadField { protocol: s("tcp"), field: s("dport") },
                        ))),
                        right: Expression::Number(22),
                        op: Operator::EQ,
                    }),
                    Statement::Counter(nftables::stmt::Counter::Anonymous(Some(AnonymousCounter {
                        packets: Some(0),
                        bytes: Some(0),
                    }))),
                    Statement::Accept(None),
                ],
                handle: Some(2),
                index: None,
                comment: None,
            })),
        ],
    }
}

#[test]
fn test_decode_a_listing() {
    assert_eq!(decode(LISTING), Ok(listing()));
}

#[test]
fn test_encode_is_canonical() {
    assert_eq!(encode(&listing()), CANONICAL);
}

#[test]
fn test_decode_then_encode_gives_the_canonical_form() {
    let doc = decode(LISTING).unwrap();
    assert_eq!(encode(&doc), CANONICAL);
    assert_eq!(decode(CANONICAL), Ok(doc));
}

#[test]
fn test_encode_then_decode_gives_the_document_back() {
    let doc = listing();
    assert_eq!(decode(&encode(&doc)), Ok(doc.clone()));
    assert_eq!(Nftables::decode(&doc.encode()), Ok(doc));
}

#[test]
fn test_empty_document() {
    let doc = Nftables { objects: vec![] };
    assert_eq!(encode(&doc), "{\"nftables\":[]}");
    assert_eq!(decode("{\"nftables\": []}"), Ok(doc));
}

#[test]
fn test_no_document() {
    let missing = DecodeError { path: vec![PathSegment::Key(s("nftables"))], kind: DecodeErrorKind::MissingField };
    assert_eq!(decode("{}"), Err(TextError::Decode(missing)));
    let shape = DecodeError { path: vec![], kind: DecodeErrorKind::UnexpectedShape };
    assert_eq!(decode("[]"), Err(TextError::Decode(shape)));
    let under = DecodeError { path: vec![PathSegment::Key(s("nftables"))], kind: DecodeErrorKind::UnexpectedShape };
    assert_eq!(decode("{\"nftables\": {}}"), Err(TextError::Decode(under)));
    assert!(matches!(decode("{\"nftables\": ["), Err(TextError::Syntax(_))));
    assert!(matches!(decode(""), Err(TextError::Syntax(_))));
}

#[test]
fn test_error_names_the_object_and_the_field() {
    let text = r#"{"nftables": [
      {"table": {"family": "ip", "name": "t1"}},
      {"chain": {"family": "ip", "table": "t1", "name": "c1"}},
      {"add": {"rule": {"family": "ip", "table": "t1", "chain": 5, "expr": []}}},
      {"table": {"family": "nope", "name": 1}}
    ]}"#;
    let expected = DecodeError {
        path: vec![
            PathSegment::Key(s("nftables")),
            PathSegment::Index(2),
            PathSegment::Key(s("add")),
            PathSegment::Key(s("rule")),
            PathSegment::Key(s("chain")),
        ],
        kind: DecodeErrorKind::UnexpectedShape,
    };
    assert_eq!(expected.message(), "nftables[2].add.rule.chain: unexpected shape");
    assert_eq!(decode(text), Err(TextError::Decode(expected)));
}

#[test]
fn test_error_in_a_statement_of_a_rule() {
    let text = r#"{"nftables": [{"rule": {"family": "ip", "table": "t", "chain": "c",
        "expr": [{"accept": null}, {"match": {"left": 1, "right": {"meta": {"key": "colour"}}, "op": "=="}}]}}]}"#;
    let expected = DecodeError {
        path: vec![
            PathSegment::Key(s("nftables")),
            PathSegment::Index(0),
            PathSegment::Key(s("rule")),
            PathSegment::Key(s("expr")),
            PathSegment::Index(1),
            PathSegment::Key(s("match")),
            PathSegment::Key(s("right")),
            PathSegment::Key(s("meta")),
            PathSegment::Key(s("key")),
        ],
        kind: DecodeErrorKind::UnknownToken(s("colour")),
    };
    assert_eq!(
        expected.message(),
        "nftables[0].rule.expr[1].match.right.meta.key: unknown token `colour`"
    );
    assert_eq!(decode(text), Err(TextError::Decode(expected)));
}

#[test]
fn test_error_messages() {
    let here = DecodeError { path: vec![], kind: DecodeErrorKind::MissingField };
    assert_eq!(here.message(), "missing field");
    let index_first = DecodeError {
        path: vec![PathSegment::Index(10), PathSegment::Key(s("a")), PathSegment::Index(0)],
        kind: DecodeErrorKind::UnexpectedShape,
    };
    assert_eq!(index_first.message(), "[10].a[0]: unexpected shape");
}

#[test]
fn test_unknown_object_is_an_error() {
    let shape = DecodeError {
        path: vec![PathSegment::Key(s("nftables")), PathSegment::Index(0)],
        kind: DecodeErrorKind::UnexpectedShape,
    };
    assert_eq!(decode("{\"nftables\": [{\"tables\": {}}]}"), Err(TextError::Decode(shape.clone())));
    assert_eq!(decode("{\"nftables\": [\"table\"]}"), Err(TextError::Decode(shape)));
}

#[test]
fn test_commands() {
    let t = || NfListObject::Table(table("t1"));
    for (cmd, wire) in [
        (NfCmd::Add(t()), "{\"add\":{\"table\":{\"family\":\"ip\",\"name\":\"t1\"}}}"),
        (NfCmd::Create(t()), "{\"create\":{\"table\":{\"family\":\"ip\",\"name\":\"t1\"}}}"),
        (NfCmd::Insert(t()), "{\"insert\":{\"table\":{\"family\":\"ip\",\"name\":\"t1\"}}}"),
        (NfCmd::Delete(t()), "{\"delete\":{\"table\":{\"family\":\"ip\",\"name\":\"t1\"}}}"),
        (NfCmd::List(t()), "{\"list\":{\"table\":{\"family\":\"ip\",\"name\":\"t1\"}}}"),
        (NfCmd::Flush(FlushObject::Ruleset(None)), "{\"flush\":{\"ruleset\":null}}"),
        (NfCmd::Flush(FlushObject::Ruleset(Some(Ruleset {}))), "{\"flush\":{\"ruleset\":{}}}"),
        (NfCmd::Flush(FlushObject::Table(table("t1"))), "{\"flush\":{\"table\":{\"family\":\"ip\",\"name\":\"t1\"}}}"),
        (
            NfCmd::Rename(Chain { newname: Some(s("c2")), ..chain("t1", "c1") }),
            "{\"rename\":{\"family\":\"ip\",\"table\":\"t1\",\"name\":\"c1\",\"newname\":\"c2\"}}",
        ),
        (
            NfCmd::Replace(Rule {
                family: NfFamily::IP,
                table: s("t1"),
                chain: s("c1"),
                expr: vec![Statement::Drop(None)],
                handle: Some(4),
                index: None,
                comment: None,
            }),
            "{\"replace\":{\"family\":\"ip\",\"table\":\"t1\",\"chain\":\"c1\",\"expr\":[{\"drop\":null}],\"handle\":4}}",
        ),
    ] {
        let o = NfObject::CmdObject(cmd);
        assert_eq!(o.encode().to_text(), wire);
        assert_eq!(NfObject::decode(&parse(wire)), Ok(o));
    }
}

#[test]
fn test_families_and_chains() {
    for (family, wire) in [
        (NfFamily::IP, "ip"),
        (NfFamily::IP6, "ip6"),
        (NfFamily::INet, "inet"),
        (NfFamily::ARP, "arp"),
        (NfFamily::Bridge, "bridge"),
        (NfFamily::NetDev, "netdev"),
    ] {
        let t = Table { family, name: s("t"), handle: None };
        assert_eq!(t.encode().to_text(), format!("{{\"family\":\"{}\",\"name\":\"t\"}}", wire));
        assert_eq!(Table::decode(&t.encode()), Ok(t));
    }
    let c = Chain {
        _type: Some(NfChainType::NAT),
        hook: Some(NfHook::Prerouting),
        prio: Some(-100),
        dev: Some(s("eth0")),
        policy: Some(NfChainPolicy::Drop),
        ..chain("t", "c")
    };
    let wire = "{\"family\":\"ip\",\"table\":\"t\",\"name\":\"c\",\"type\":\"nat\",\"hook\":\"prerouting\",\"prio\":-100,\"dev\":\"eth0\",\"policy\":\"drop\"}";
    assert_eq!(c.encode().to_text(), wire);
    assert_eq!(Chain::decode(&parse(wire)), Ok(c));
}

#[test]
fn test_sets_and_maps() {
    let mut flags = FlagSet::new();
    flags.insert(SetFlag::Timeout);
    flags.insert(SetFlag::Interval);
    let set = SetObject {
        family: NfFamily::INet,
        table: s("t"),
        name: s("s"),
        handle: None,
        set_type: SetTypeValue::Single(SetType::Ipv4Addr),
        policy: Some(SetPolicy::Memory),
        flags: Some(flags),
        elem: Some(vec![Expression::String(s("127.0.0.1"))]),
        timeout: Some(60),
        gc_interval: Some(30),
        size: Some(1024),
        comment: Some(s("hosts")),
    };
    list_round_trip(
        NfListObject::SetObject(Box::new(set)),
        "{\"set\":{\"family\":\"inet\",\"table\":\"t\",\"name\":\"s\",\"type\":\"ipv4_addr\",\"policy\":\"memory\",\"flags\":[\"interval\",\"timeout\"],\"elem\":[\"127.0.0.1\"],\"timeout\":60,\"gc-interval\":30,\"size\":1024,\"comment\":\"hosts\"}}",
    );
    let map = MapObject {
        family: NfFamily::IP,
        table: s("t"),
        name: s("m"),
        handle: Some(9),
        map: SetTypeValue::Single(SetType::EtherAddr),
        set_type: SetTypeValue::Concatenated(vec![SetType::Ipv4Addr, SetType::InetService]),
        policy: None,
        flags: None,
        elem: None,
        timeout: None,
        gc_interval: None,
        size: None,
        comment: None,
    };
    list_round_trip(
        NfListObject::MapObject(Box::new(map)),
        "{\"map\":{\"family\":\"ip\",\"table\":\"t\",\"name\":\"m\",\"handle\":9,\"map\":\"ether_addr\",\"type\":[\"ipv4_addr\",\"inet_service\"]}}",
    );
}

#[test]
fn test_set_flags_single_and_list() {
    let one = r#"{"family": "ip", "table": "t", "name": "s", "type": "mark", "flags": "interval"}"#;
    let list = r#"{"family": "ip", "table": "t", "name": "s", "type": "mark", "flags": ["interval"]}"#;
    assert_eq!(SetObject::decode(&parse(one)), SetObject::decode(&parse(list)));
    assert!(SetObject::decode(&parse(one)).is_ok());
}

#[test]
fn test_set_type_errors() {
    assert_eq!(
        SetTypeValue::decode(&parse("\"ipv5_addr\"")),
        Err(DecodeError { path: vec![], kind: DecodeErrorKind::UnknownToken(s("ipv5_addr")) })
    );
    assert_eq!(
        SetTypeValue::decode(&parse("[\"mark\", \"x\"]")),
        Err(DecodeError { path: vec![PathSegment::Index(1)], kind: DecodeErrorKind::UnknownToken(s("x")) })
    );
    assert_eq!(
        SetTypeValue::decode(&parse("1")),
        Err(DecodeError { path: vec![], kind: DecodeErrorKind::UnexpectedShape })
    );
    assert_eq!(SetTypeValue::decode(&parse("[]")), Ok(SetTypeValue::Concatenated(vec![])));
}

#[test]
fn test_other_objects() {
    list_round_trip(
        NfListObject::Element(Element {
            family: NfFamily::IP,
            table: s("t"),
            name: s("s"),
            elem: vec![Expression::String(s("127.0.0.1")), Expression::String(s("127.0.0.2"))],
        }),
        "{\"element\":{\"family\":\"ip\",\"table\":\"t\",\"name\":\"s\",\"elem\":[\"127.0.0.1\",\"127.0.0.2\"]}}",
    );
    list_round_trip(
        NfListObject::FlowTable(FlowTable {
            family: NfFamily::IP,
            table: s("t"),
            name: s("ft"),
            handle: None,
            hook: Some(NfHook::Ingress),
            prio: Some(0),
            dev: Some(vec![s("eth0"), s("eth1")]),
        }),
        "{\"flowtable\":{\"family\":\"ip\",\"table\":\"t\",\"name\":\"ft\",\"hook\":\"ingress\",\"prio\":0,\"dev\":[\"eth0\",\"eth1\"]}}",
    );
    list_round_trip(
        NfListObject::Counter(Counter {
            family: NfFamily::IP,
            table: s("t"),
            name: s("c"),
            handle: None,
            packets: Some(1),
            bytes: Some(60),
        }),
        "{\"counter\":{\"family\":\"ip\",\"table\":\"t\",\"name\":\"c\",\"packets\":1,\"bytes\":60}}",
    );
    list_round_trip(
        NfListObject::Quota(Quota {
            family: NfFamily::IP,
            table: s("t"),
            name: s("q"),
            handle: None,
            bytes: Some(1000),
            used: Some(0),
            inv: Some(false),
        }),
        "{\"quota\":{\"family\":\"ip\",\"table\":\"t\",\"name\":\"q\",\"bytes\":1000,\"used\":0,\"inv\":false}}",
    );
    list_round_trip(
        NfListObject::CTHelper(CTHelper {
            family: NfFamily::IP,
            table: s("t"),
            name: s("h"),
            handle: None,
            _type: s("ftp"),
            protocol: Some(s("tcp")),
            l3proto: None,
        }),
        "{\"ct helper\":{\"family\":\"ip\",\"table\":\"t\",\"name\":\"h\",\"type\":\"ftp\",\"protocol\":\"tcp\"}}",
    );
    list_round_trip(
        NfListObject::Limit(Limit {
            family: NfFamily::IP,
            table: s("t"),
            name: s("l"),
            handle: None,
            rate: Some(10),
            per: Some(s("second")),
            burst: None,
            unit: Some(LimitUnit::Bytes),
            inv: None,
        }),
        "{\"limit\":{\"family\":\"ip\",\"table\":\"t\",\"name\":\"l\",\"rate\":10,\"per\":\"second\",\"unit\":\"bytes\"}}",
    );
    list_round_trip(
        NfListObject::CTTimeout(CTTimeout {
            family: NfFamily::IP,
            table: s("t"),
            name: s("p"),
            handle: None,
            protocol: Some(CTHProto::TCP),
            state: Some(s("established")),
            value: Some(100),
            l3proto: Some(s("ip")),
        }),
        "{\"ct timeout\":{\"family\":\"ip\",\"table\":\"t\",\"name\":\"p\",\"protocol\":\"tcp\",\"state\":\"established\",\"value\":100,\"l3proto\":\"ip\"}}",
    );
    list_round_trip(
        NfListObject::CTExpectation(CTExpectation {
            family: NfFamily::IP,
            table: s("t"),
            name: s("e"),
            handle: None,
            l3proto: None,
            protocol: Some(CTHProto::UDP),
            dport: Some(53),
            timeout: Some(1000),
            size: Some(8),
        }),
        "{\"ct expectation\":{\"family\":\"ip\",\"table\":\"t\",\"name\":\"e\",\"protocol\":\"udp\",\"dport\":53,\"timeout\":1000,\"size\":8}}",
    );
    list_round_trip(
        NfListObject::SynProxy(SynProxy {
            family: NfFamily::IP,
            table: s("t"),
            name: s("sp"),
            handle: None,
            mss: Some(1460),
            wscale: Some(7),
            flags: None,
        }),
        "{\"synproxy\":{\"family\":\"ip\",\"table\":\"t\",\"name\":\"sp\",\"mss\":1460,\"wscale\":7}}",
    );
    let meter = Meter {
        name: s("m"),
        key: Expression::Number(1),
        stmt: Statement::Limit(LimitStatement {
            rate: 1,
            rate_unit: None,
            per: None,
            burst: None,
            burst_unit: None,
            inv: None,
        }),
    };
    let cmd = NfCmd::Flush(FlushObject::Meter(meter));
    assert_eq!(cmd.encode().to_text(), "{\"flush\":{\"meter\":{\"name\":\"m\",\"key\":1,\"stmt\":{\"limit\":{\"rate\":1}}}}}");
    assert_eq!(NfCmd::decode(&cmd.encode()), Ok(cmd));
}

#[test]
fn test_flowtable_devices_single_and_list() {
    let one = r#"{"family": "ip", "table": "t", "name": "ft", "dev": "eth0"}"#;
    let list = r#"{"family": "ip", "table": "t", "name": "ft", "dev": ["eth0"]}"#;
    let a = FlowTable::decode(&parse(one)).unwrap();
    assert_eq!(Ok(a.clone()), FlowTable::decode(&parse(list)));
    assert_eq!(a.dev, Some(vec![s("eth0")]));
    assert_eq!(a.encode().to_text(), "{\"family\":\"ip\",\"table\":\"t\",\"name\":\"ft\",\"dev\":[\"eth0\"]}");
    let none = r#"{"family": "ip", "table": "t", "name": "ft", "dev": []}"#;
    assert_eq!(FlowTable::decode(&parse(none)).unwrap().dev, None);
}

#[test]
fn test_builders() {
    assert_eq!(
        TableBuilder::new().family(NfFamily::IP).name(s("t1")).build(),
        Ok(Table { family: NfFamily::IP, name: s("t1"), handle: None })
    );
    assert_eq!(
        TableBuilder::new().name(s("t1")).handle(3).family(NfFamily::INet).build(),
        Ok(Table { family: NfFamily::INet, name: s("t1"), handle: Some(3) })
    );
    let e = TableBuilder::new().name(s("t1")).build().unwrap_err();
    let NftablesError::BuilderError(field) = e;
    assert_eq!(field.field_name(), "family");
    let e = TableBuilder::new().build().unwrap_err();
    let NftablesError::BuilderError(field) = e;
    assert_eq!(field.field_name(), "family");
    let e = ChainBuilder::new().family(NfFamily::IP).name(s("c")).build().unwrap_err();
    let NftablesError::BuilderError(field) = e;
    assert_eq!(field.field_name(), "table");
    assert_eq!(
        ChainBuilder::new().family(NfFamily::IP).table(s("t")).name(s("c")).prio(-1).build(),
        Ok(Chain { prio: Some(-1), ..chain("t", "c") })
    );
    let e = RuleBuilder::new().family(NfFamily::IP).table(s("t")).chain(s("c")).build().unwrap_err();
    let NftablesError::BuilderError(field) = e;
    assert_eq!(field.field_name(), "expr");
    assert_eq!(
        RuleBuilder::new().family(NfFamily::IP).table(s("t")).chain(s("c")).expr(vec![]).comment(s("x")).build(),
        Ok(Rule {
            family: NfFamily::IP,
            table: s("t"),
            chain: s("c"),
            expr: vec![],
            handle: None,
            index: None,
            comment: Some(s("x")),
        })
    );
}

#[test]
fn test_defaults_of_objects() {
    assert_eq!(Table::default(), Table { family: NfFamily::INet, name: s("filter"), handle: None });
    assert_eq!(
        Chain::default(),
        Chain { family: NfFamily::INet, ..chain("filter", "forward") }
    );
    assert_eq!(
        Rule::default(),
        Rule {
            family: NfFamily::INet,
            table: s("filter"),
            chain: s("forward"),
            expr: vec![],
            handle: None,
            index: None,
            comment: None,
        }
    );
    let set = SetObject::default();
    assert_eq!((set.family, set.table.as_str(), set.name.as_str()), (NfFamily::INet, "filter", "myset"));
    assert_eq!(set.set_type, SetTypeValue::Single(SetType::Ipv4Addr));
    assert_eq!(set.encode().to_text(), "{\"family\":\"inet\",\"table\":\"filter\",\"name\":\"myset\",\"type\":\"ipv4_addr\"}");
    let map = MapObject::default();
    assert_eq!((map.family, map.table.as_str(), map.name.as_str()), (NfFamily::INet, "filter", "mymap"));
    assert_eq!(map.map, SetTypeValue::Single(SetType::EtherAddr));
    assert_eq!(map.set_type, SetTypeValue::Single(SetType::Ipv4Addr));
    assert_eq!(MapObject::decode(&map.encode()), Ok(map));
    let named = Table { name: s("t1"), family: NfFamily::IP, ..Table::default() };
    assert_eq!(named, table("t1"));
}
