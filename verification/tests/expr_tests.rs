use nftables::error::{DecodeError, DecodeErrorKind, PathSegment};
use nftables::expr::{
    BinaryOperation, CTDir, CTFamily, Elem, Expression, Exthdr, Fib, FibFlag, FibResult, JHash,
    MapExpr, Meta, MetaKey, NamedExpression, NgMode, Numgen, Osf, OsfTtl, Payload, PayloadBase,
    PayloadField, PayloadRaw, Prefix, Range, RTFamily, RTKey, SctpChunk, SetItem, Socket,
    SocketAttr, SymHash, TcpOption, Verdict, CT, RT,
};
use nftables::flags::FlagSet;
use nftables::json::Json;
use nftables::stmt::{Counter, JumpTarget, Statement};

fn s(text: &str) -> String {
    text.to_string()
}

fn parse(text: &str) -> Json {
    Json::parse(text).expect("the sample is JSON")
}

fn decode(text: &str) -> Result<Expression, DecodeError> {
    Expression::decode(&parse(text))
}

fn named_round_trip(n: NamedExpression, wire: &str) {
    let e = Expression::Named(n);
    assert_eq!(e.encode().to_text(), wire);
    assert_eq!(decode(wire), Ok(e));
}

fn shape_error(path: Vec<PathSegment>) -> DecodeError {
    DecodeError { path, kind: DecodeErrorKind::UnexpectedShape }
}

#[test]
fn test_immediates_round_trip() {
    for (e, wire) in [
        (Expression::String(s("10.2.3.4")), "\"10.2.3.4\""),
        (Expression::String(s("@myset")), "\"@myset\""),
        (Expression::String(s("*")), "\"*\""),
        (Expression::Number(0), "0"),
        (Expression::Number(4294967295), "4294967295"),
        (Expression::Boolean(true), "true"),
        (Expression::Boolean(false), "false"),
    ] {
        assert_eq!(e.encode().to_text(), wire);
        assert_eq!(decode(wire), Ok(e));
    }
}

#[test]
fn test_number_out_of_range_is_no_expression() {
    assert_eq!(decode("4294967296"), Err(shape_error(vec![])));
    assert_eq!(decode("-1"), Err(shape_error(vec![])));
    assert_eq!(decode("1.5"), Err(shape_error(vec![])));
}

#[test]
fn test_null_is_no_expression() {
    assert_eq!(decode("null"), Err(shape_error(vec![])));
}

#[test]
fn test_list_round_trip() {
    let e = Expression::List(vec![
        Expression::Number(22),
        Expression::String(s("ssh")),
        Expression::List(vec![]),
    ]);
    assert_eq!(e.encode().to_text(), "[22,\"ssh\",[]]");
    assert_eq!(decode("[22, \"ssh\", []]"), Ok(e));
}

#[test]
fn test_list_error_names_the_item() {
    assert_eq!(decode("[1, [2, null]]"), Err(shape_error(vec![PathSegment::Index(1), PathSegment::Index(1)])));
}

#[test]
fn test_range_round_trip() {
    let e = Expression::Range(Box::new(Range { range: (Expression::Number(1), Expression::Number(1024)) }));
    assert_eq!(e.encode().to_text(), "{\"range\":[1,1024]}");
    assert_eq!(decode("{\"range\": [1, 1024]}"), Ok(e));
}

#[test]
fn test_range_wants_two_bounds() {
    assert_eq!(decode("{\"range\": [1, 2, 3]}"), Err(shape_error(vec![PathSegment::Key(s("range"))])));
    assert_eq!(decode("{\"range\": 1}"), Err(shape_error(vec![PathSegment::Key(s("range"))])));
    assert_eq!(
        decode("{\"range\": [1, null]}"),
        Err(shape_error(vec![PathSegment::Key(s("range")), PathSegment::Index(1)]))
    );
}

#[test]
fn test_bare_array_under_range_is_a_range_and_elsewhere_a_list() {
    assert!(matches!(decode("{\"range\": [1, 2]}"), Ok(Expression::Range(_))));
    assert!(matches!(decode("[1, 2]"), Ok(Expression::List(_))));
}

#[test]
fn test_binary_operations_round_trip() {
    let l = || Expression::Named(NamedExpression::Meta(Meta { key: MetaKey::Mark }));
    let r = || Expression::Number(16);
    for (op, wire) in [
        (BinaryOperation::AND(l(), r()), "{\"&\":[{\"meta\":{\"key\":\"mark\"}},16]}"),
        (BinaryOperation::OR(l(), r()), "{\"|\":[{\"meta\":{\"key\":\"mark\"}},16]}"),
        (BinaryOperation::XOR(l(), r()), "{\"^\":[{\"meta\":{\"key\":\"mark\"}},16]}"),
        (BinaryOperation::LSHIFT(l(), r()), "{\"<<\":[{\"meta\":{\"key\":\"mark\"}},16]}"),
        (BinaryOperation::RSHIFT(l(), r()), "{\">>\":[{\"meta\":{\"key\":\"mark\"}},16]}"),
    ] {
        let e = Expression::BinaryOperation(Box::new(op));
        assert_eq!(e.encode().to_text(), wire);
        assert_eq!(decode(wire), Ok(e));
    }
}

#[test]
fn test_binary_operation_error_path() {
    assert_eq!(
        decode("{\"&\": [1, null]}"),
        Err(shape_error(vec![PathSegment::Key(s("&")), PathSegment::Index(1)]))
    );
    assert_eq!(decode("{\"&\": [1]}"), Err(shape_error(vec![PathSegment::Key(s("&"))])));
}

#[test]
fn test_named_expressions_round_trip() {
    named_round_trip(
        NamedExpression::Concat(vec![Expression::Number(1), Expression::String(s("a"))]),
        "{\"concat\":[1,\"a\"]}",
    );
    named_round_trip(
        NamedExpression::SetExpr(vec![
            SetItem::Element(Expression::Number(22)),
            SetItem::Element(Expression::Number(80)),
        ]),
        "{\"set\":[22,80]}",
    );
    named_round_trip(NamedExpression::MapExpr(Box::new(MapExpr::default())), "{\"map\":{\"key\":true,\"data\":false}}");
    named_round_trip(
        NamedExpression::Prefix(Prefix { addr: Box::new(Expression::String(s("10.0.0.0"))), len: 8 }),
        "{\"prefix\":{\"addr\":\"10.0.0.0\",\"len\":8}}",
    );
    named_round_trip(
        NamedExpression::Payload(Payload::PayloadField(PayloadField::default())),
        "{\"payload\":{\"protocol\":\"arp\",\"field\":\"ptype\"}}",
    );
    named_round_trip(
        NamedExpression::Payload(Payload::PayloadRaw(PayloadRaw { base: PayloadBase::TH, offset: 16, len: 32 })),
        "{\"payload\":{\"base\":\"th\",\"offset\":16,\"len\":32}}",
    );
    named_round_trip(NamedExpression::Exthdr(Exthdr::default()), "{\"exthdr\":{\"name\":\"frag\"}}");
    named_round_trip(
        NamedExpression::Exthdr(Exthdr { name: s("rt0"), field: Some(s("addr")), offset: Some(2) }),
        "{\"exthdr\":{\"name\":\"rt0\",\"field\":\"addr\",\"offset\":2}}",
    );
    named_round_trip(NamedExpression::TcpOption(TcpOption::default()), "{\"tcp option\":{\"name\":\"maxseg\"}}");
    named_round_trip(
        NamedExpression::SctpChunk(SctpChunk { name: s("data"), field: s("tsn") }),
        "{\"sctp chunk\":{\"name\":\"data\",\"field\":\"tsn\"}}",
    );
    named_round_trip(NamedExpression::Meta(Meta::default()), "{\"meta\":{\"key\":\"l4proto\"}}");
    named_round_trip(NamedExpression::RT(RT::default()), "{\"rt\":{\"key\":\"nexthop\"}}");
    named_round_trip(
        NamedExpression::RT(RT { key: RTKey::MTU, family: Some(RTFamily::IP6) }),
        "{\"rt\":{\"key\":\"mtu\",\"family\":\"ip6\"}}",
    );
    named_round_trip(NamedExpression::CT(CT::default()), "{\"ct\":{\"key\":\"l3proto\"}}");
    named_round_trip(
        NamedExpression::CT(CT { key: s("saddr"), family: Some(CTFamily::IP), dir: Some(CTDir::Reply) }),
        "{\"ct\":{\"key\":\"saddr\",\"family\":\"ip\",\"dir\":\"reply\"}}",
    );
    named_round_trip(NamedExpression::Numgen(Numgen::default()), "{\"numgen\":{\"mode\":\"inc\",\"mod\":7}}");
    named_round_trip(
        NamedExpression::Numgen(Numgen { mode: NgMode::Random, ng_mod: 3, offset: Some(1) }),
        "{\"numgen\":{\"mode\":\"random\",\"mod\":3,\"offset\":1}}",
    );
    named_round_trip(
        NamedExpression::JHash(JHash::default()),
        "{\"jhash\":{\"mod\":7,\"expr\":{\"payload\":{\"protocol\":\"ip\",\"field\":\"saddr\"}}}}",
    );
    named_round_trip(NamedExpression::SymHash(SymHash::default()), "{\"symhash\":{\"mod\":2}}");
    named_round_trip(NamedExpression::Fib(Fib::default()), "{\"fib\":{\"result\":\"oif\",\"flags\":[\"iif\"]}}");
    named_round_trip(NamedExpression::Elem(Elem::default()), "{\"elem\":{\"val\":\"10.2.3.4\"}}");
    named_round_trip(NamedExpression::Socket(Socket::default()), "{\"socket\":{\"key\":\"wildcard\"}}");
    named_round_trip(
        NamedExpression::Socket(Socket { key: SocketAttr::Cgroupv2 }),
        "{\"socket\":{\"key\":\"cgroupv2\"}}",
    );
    named_round_trip(
        NamedExpression::Osf(Osf { key: s("name"), ttl: OsfTtl::Loose }),
        "{\"osf\":{\"key\":\"name\",\"ttl\":\"loose\"}}",
    );
}

#[test]
fn test_defaults() {
    assert_eq!(MapExpr::default(), MapExpr { key: Expression::Boolean(true), data: Expression::Boolean(false) });
    assert_eq!(PayloadRaw::default(), PayloadRaw { base: PayloadBase::LL, offset: 0, len: 0 });
    assert_eq!(PayloadField::default(), PayloadField { protocol: s("arp"), field: s("ptype") });
    assert_eq!(Exthdr::default(), Exthdr { name: s("frag"), field: None, offset: None });
    assert_eq!(TcpOption::default(), TcpOption { name: s("maxseg"), field: None });
    assert_eq!(Meta::default(), Meta { key: MetaKey::L4proto });
    assert_eq!(RT::default(), RT { key: RTKey::NextHop, family: None });
    assert_eq!(CT::default(), CT { key: s("l3proto"), family: None, dir: None });
    assert_eq!(Numgen::default(), Numgen { mode: NgMode::Inc, ng_mod: 7, offset: None });
    assert_eq!(SymHash::default(), SymHash { hash_mod: 2, offset: None });
    assert_eq!(Socket::default(), Socket { key: SocketAttr::Wildcard });
    let jhash = JHash::default();
    assert_eq!(jhash.hash_mod, 7);
    assert_eq!(jhash.offset, None);
    assert_eq!(jhash.seed, None);
    assert_eq!(
        *jhash.expr,
        Expression::Named(NamedExpression::Payload(Payload::PayloadField(PayloadField {
            protocol: s("ip"),
            field: s("saddr"),
        })))
    );
    let fib = Fib::default();
    assert_eq!(fib.result, FibResult::Oif);
    assert_eq!(fib.flags.to_vec(), vec![FibFlag::Iif]);
    let elem = Elem::default();
    assert_eq!(*elem.val, Expression::String(s("10.2.3.4")));
    assert_eq!((elem.timeout, elem.expires, elem.comment, elem.counter), (None, None, None, None));
}

#[test]
fn test_modulus_is_written_as_mod() {
    let j = Numgen { mode: NgMode::Inc, ng_mod: 5, offset: None }.encode();
    assert_eq!(j.to_text(), "{\"mode\":\"inc\",\"mod\":5}");
    let j = SymHash { hash_mod: 9, offset: Some(4) }.encode();
    assert_eq!(j.to_text(), "{\"mod\":9,\"offset\":4}");
}

#[test]
fn test_unset_fields_are_left_out_and_null_reads_as_unset() {
    let e = Exthdr { name: s("frag"), field: None, offset: None };
    assert_eq!(e.encode().to_text(), "{\"name\":\"frag\"}");
    assert_eq!(Exthdr::decode(&parse("{\"name\": \"frag\", \"field\": null, \"offset\": null}")), Ok(e));
}

#[test]
fn test_unknown_keys_are_ignored() {
    let e = Exthdr::decode(&parse("{\"name\": \"frag\", \"later\": [1, 2.5, {\"x\": null}]}"));
    assert_eq!(e, Ok(Exthdr { name: s("frag"), field: None, offset: None }));
}

#[test]
fn test_field_order_does_not_matter() {
    let a = decode("{\"tcp option\": {\"name\": \"maxseg\", \"field\": \"x\"}}");
    let b = decode("{\"tcp option\": {\"field\": \"x\", \"name\": \"maxseg\"}}");
    assert_eq!(a, b);
    assert_eq!(
        a,
        Ok(Expression::Named(NamedExpression::TcpOption(TcpOption { name: s("maxseg"), field: Some(s("x")) })))
    );
    let a = Exthdr::decode(&parse("{\"name\": \"rt0\", \"offset\": 1, \"field\": \"f\"}"));
    let b = Exthdr::decode(&parse("{\"offset\": 1, \"field\": \"f\", \"name\": \"rt0\"}"));
    assert_eq!(a, b);
    assert_eq!(a, Ok(Exthdr { name: s("rt0"), field: Some(s("f")), offset: Some(1) }));
}

#[test]
fn test_bare_header_reference_is_no_expression() {
    assert_eq!(decode("{\"name\": \"frag\"}"), Err(shape_error(vec![])));
    assert_eq!(decode("{\"name\": \"maxseg\", \"field\": \"x\"}"), Err(shape_error(vec![])));
    assert_eq!(decode("{\"field\": \"x\", \"name\": \"maxseg\"}"), Err(shape_error(vec![])));
}

#[test]
fn test_first_failing_field_in_the_type_s_order_decides() {
    let e = Prefix::decode(&parse("{\"len\": \"x\", \"addr\": null}"));
    assert_eq!(e, Err(shape_error(vec![PathSegment::Key(s("addr"))])));
}

#[test]
fn test_missing_field() {
    assert_eq!(
        decode("{\"prefix\": {\"addr\": \"10.0.0.0\"}}"),
        Err(DecodeError {
            path: vec![PathSegment::Key(s("prefix")), PathSegment::Key(s("len"))],
            kind: DecodeErrorKind::MissingField,
        })
    );
}

#[test]
fn test_unknown_token_is_cited() {
    assert_eq!(
        decode("{\"meta\": {\"key\": \"colour\"}}"),
        Err(DecodeError {
            path: vec![PathSegment::Key(s("meta")), PathSegment::Key(s("key"))],
            kind: DecodeErrorKind::UnknownToken(s("colour")),
        })
    );
}

#[test]
fn test_unknown_kind_and_two_members_are_no_expression() {
    assert_eq!(decode("{\"nothing\": 1}"), Err(shape_error(vec![])));
    assert_eq!(decode("{}"), Err(shape_error(vec![])));
    assert_eq!(decode("{\"meta\": {\"key\": \"mark\"}, \"rt\": {\"key\": \"mtu\"}}"), Err(shape_error(vec![])));
}

#[test]
fn test_payload_shape_precedence() {
    let both = "{\"protocol\": \"tcp\", \"field\": \"dport\", \"base\": \"ll\", \"offset\": 0, \"len\": 8}";
    assert_eq!(
        Payload::decode(&parse(both)),
        Ok(Payload::PayloadField(PayloadField { protocol: s("tcp"), field: s("dport") }))
    );
    assert_eq!(
        Payload::decode(&parse("{\"base\": \"ih\", \"offset\": 1, \"len\": 2}")),
        Ok(Payload::PayloadRaw(PayloadRaw { base: PayloadBase::IH, offset: 1, len: 2 }))
    );
    assert_eq!(Payload::decode(&parse("{\"base\": \"ih\"}")), Err(shape_error(vec![])));
}

#[test]
fn test_verdicts() {
    for (v, wire) in [
        (Verdict::Accept, "\"accept\""),
        (Verdict::Drop, "\"drop\""),
        (Verdict::Continue, "\"continue\""),
        (Verdict::Return, "\"return\""),
        (Verdict::Jump(JumpTarget { target: s("c1") }), "{\"jump\":{\"target\":\"c1\"}}"),
        (Verdict::Goto(JumpTarget { target: s("c2") }), "{\"goto\":{\"target\":\"c2\"}}"),
    ] {
        assert_eq!(v.encode().to_text(), wire);
        assert_eq!(Verdict::decode(&parse(wire)), Ok(v));
    }
    assert_eq!(Verdict::decode(&parse("{\"accept\": null}")), Ok(Verdict::Accept));
    assert_eq!(
        Verdict::decode(&parse("\"reject\"")),
        Err(DecodeError { path: vec![], kind: DecodeErrorKind::UnknownToken(s("reject")) })
    );
}

#[test]
fn test_verdict_expressions() {
    assert_eq!(decode("{\"accept\": null}"), Ok(Expression::Verdict(Verdict::Accept)));
    assert_eq!(decode("{\"drop\": null}"), Ok(Expression::Verdict(Verdict::Drop)));
    let jump = Expression::Verdict(Verdict::Jump(JumpTarget { target: s("c1") }));
    assert_eq!(decode(&jump.encode().to_text()), Ok(jump));
    // A verdict without a target is written as a bare string, and a bare string is a string.
    let accept = Expression::Verdict(Verdict::Accept);
    assert_eq!(accept.encode().to_text(), "\"accept\"");
    assert_eq!(decode("\"accept\""), Ok(Expression::String(s("accept"))));
}

#[test]
fn test_set_items() {
    let element = SetItem::Element(Expression::Number(1));
    assert_eq!(SetItem::decode(&element.encode()), Ok(element));
    let to_statement = SetItem::MappingStatement(
        Expression::Number(1),
        Statement::Counter(Counter::Named(s("c"))),
    );
    assert_eq!(to_statement.encode().to_text(), "[1,{\"counter\":\"c\"}]");
    assert_eq!(SetItem::decode(&to_statement.encode()), Ok(to_statement));
    // A mapping of two expressions is written as an array of the two, which is a list.
    let mapping = SetItem::Mapping(Expression::Number(1), Expression::Number(2));
    assert_eq!(mapping.encode().to_text(), "[1,2]");
    assert_eq!(
        SetItem::decode(&mapping.encode()),
        Ok(SetItem::Element(Expression::List(vec![Expression::Number(1), Expression::Number(2)])))
    );
    // A mapping to a verdict is a list of an expression and a verdict expression.
    let to_verdict = SetItem::MappingStatement(Expression::Number(1), Statement::Accept(None));
    assert_eq!(
        SetItem::decode(&to_verdict.encode()),
        Ok(SetItem::Element(Expression::List(vec![
            Expression::Number(1),
            Expression::Verdict(Verdict::Accept),
        ])))
    );
    assert_eq!(SetItem::decode(&parse("[1, {\"nothing\": 1}]")), Err(shape_error(vec![])));
    assert_eq!(SetItem::decode(&parse("null")), Err(shape_error(vec![])));
}

#[test]
fn test_elem_with_all_fields() {
    let e = Elem {
        val: Box::new(Expression::String(s("10.0.0.1"))),
        timeout: Some(10),
        expires: Some(5),
        comment: Some(s("a host")),
        counter: Some(Counter::Named(s("hits"))),
    };
    let wire = "{\"val\":\"10.0.0.1\",\"timeout\":10,\"expires\":5,\"comment\":\"a host\",\"counter\":\"hits\"}";
    assert_eq!(e.encode().to_text(), wire);
    assert_eq!(Elem::decode(&parse(wire)), Ok(e));
}

#[test]
fn test_elem_counter_without_state_reads_as_no_counter() {
    let e = Elem { counter: Some(Counter::Anonymous(None)), ..Elem::default() };
    assert_eq!(e.encode().to_text(), "{\"val\":\"10.2.3.4\",\"counter\":null}");
    assert_eq!(Elem::decode(&e.encode()), Ok(Elem::default()));
}

#[test]
fn test_fib_flags_single_and_list() {
    let one = Fib::decode(&parse("{\"result\": \"oif\", \"flags\": \"saddr\"}"));
    let list = Fib::decode(&parse("{\"result\": \"oif\", \"flags\": [\"saddr\"]}"));
    assert_eq!(one, list);
    let mut flags = FlagSet::new();
    flags.insert(FibFlag::Saddr);
    assert_eq!(one, Ok(Fib { result: FibResult::Oif, flags }));
    let absent = Fib::decode(&parse("{\"result\": \"type\"}"));
    assert_eq!(absent, Ok(Fib { result: FibResult::Type, flags: FlagSet::new() }));
}

#[test]
fn test_clone_is_equal() {
    let e = Expression::Named(NamedExpression::JHash(JHash::default()));
    assert_eq!(e.clone(), e);
    let l = Expression::List(vec![Expression::Number(1), e]);
    assert_eq!(l.clone(), l);
}

#[test]
fn test_clones_are_equal() {
    let named = vec![
        NamedExpression::Concat(vec![Expression::Number(1)]),
        NamedExpression::SetExpr(vec![
            SetItem::Element(Expression::Number(22)),
            SetItem::Mapping(Expression::Number(1), Expression::Number(2)),
            SetItem::MappingStatement(Expression::Number(1), Statement::Notrack),
        ]),
        NamedExpression::MapExpr(Box::new(MapExpr::default())),
        NamedExpression::Payload(Payload::PayloadField(PayloadField::default())),
        NamedExpression::Payload(Payload::PayloadRaw(PayloadRaw::default())),
        NamedExpression::Exthdr(Exthdr { name: s("rt0"), field: Some(s("addr")), offset: Some(2) }),
        NamedExpression::Fib(Fib::default()),
        NamedExpression::Elem(Elem { counter: Some(Counter::Named(s("c"))), ..Elem::default() }),
    ];
    for n in named {
        let e = Expression::Named(n);
        assert_eq!(e.clone(), e);
    }
    let range = Expression::Range(Box::new(Range { range: (Expression::Number(1), Expression::Number(2)) }));
    assert_eq!(range.clone(), range);
    let op = Expression::BinaryOperation(Box::new(BinaryOperation::XOR(range.clone(), Expression::Boolean(true))));
    assert_eq!(op.clone(), op);
    let verdict = Expression::Verdict(Verdict::Goto(JumpTarget { target: s("c") }));
    assert_eq!(verdict.clone(), verdict);
}
