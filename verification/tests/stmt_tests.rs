use nftables::error::{DecodeError, DecodeErrorKind, PathSegment};
use nftables::expr::{Expression, Meta, MetaKey, NamedExpression, Payload, PayloadField};
use nftables::flags::FlagSet;
use nftables::json::Json;
use nftables::schema::SetOp;
use nftables::stmt::{
    Accept, AnonymousCounter, CTCount, Counter, Drop, Dup, Flow, ICMPCode, JumpTarget, Limit, Log,
    LogFlag, LogLevel, Mangle, Match, Meter, NATFamily, NATFlag, Operator, Queue, QueueFlag, Quota,
    QuotaOrQuotaRef, Reject, RejectType, SetStmt, Statement, SynProxy, SynProxyFlag, TProxy,
    VerdictMap, FWD, NAT,
};

fn s(text: &str) -> String {
    text.to_string()
}

fn parse(text: &str) -> Json {
    Json::parse(text).expect("the sample is JSON")
}

fn decode(text: &str) -> Result<Statement, DecodeError> {
    Statement::decode(&parse(text))
}

fn round_trip(st: Statement, wire: &str) {
    assert_eq!(st.encode().to_text(), wire);
    assert_eq!(decode(wire), Ok(st));
}

fn dport() -> Expression {
    Expression::Named(NamedExpression::Payload(Payload::PayloadField(PayloadField {
        protocol: s("tcp"),
        field: s("dport"),
    })))
}

#[test]
fn test_verdict_statements() {
    round_trip(Statement::Accept(None), "{\"accept\":null}");
    round_trip(Statement::Accept(Some(Accept {})), "{\"accept\":{}}");
    round_trip(Statement::Drop(None), "{\"drop\":null}");
    round_trip(Statement::Drop(Some(Drop {})), "{\"drop\":{}}");
    round_trip(Statement::Continue(None), "{\"continue\":null}");
    round_trip(Statement::Return(None), "{\"return\":null}");
    round_trip(Statement::Jump(JumpTarget { target: s("c1") }), "{\"jump\":{\"target\":\"c1\"}}");
    round_trip(Statement::Goto(JumpTarget { target: s("c1") }), "{\"goto\":{\"target\":\"c1\"}}");
    round_trip(Statement::Notrack, "{\"notrack\":null}");
}

#[test]
fn test_match() {
    round_trip(
        Statement::Match(Match { left: dport(), right: Expression::Number(22), op: Operator::EQ }),
        "{\"match\":{\"left\":{\"payload\":{\"protocol\":\"tcp\",\"field\":\"dport\"}},\"right\":22,\"op\":\"==\"}}",
    );
}

#[test]
fn test_operators() {
    for (op, wire) in [
        (Operator::AND, "&"),
        (Operator::OR, "|"),
        (Operator::XOR, "^"),
        (Operator::LSHIFT, "<<"),
        (Operator::RSHIFT, ">>"),
        (Operator::EQ, "=="),
        (Operator::NEQ, "!="),
        (Operator::LT, "<"),
        (Operator::GT, ">"),
        (Operator::LEQ, "<="),
        (Operator::GEQ, ">="),
        (Operator::IN, "in"),
    ] {
        let m = Match { left: Expression::Number(1), right: Expression::Number(2), op };
        let j = m.encode();
        assert_eq!(j.to_text(), format!("{{\"left\":1,\"right\":2,\"op\":\"{}\"}}", wire));
        assert_eq!(Match::decode(&j), Ok(m));
    }
}

#[test]
fn test_counters() {
    round_trip(Statement::Counter(Counter::Named(s("hits"))), "{\"counter\":\"hits\"}");
    round_trip(Statement::Counter(Counter::Anonymous(None)), "{\"counter\":null}");
    round_trip(
        Statement::Counter(Counter::Anonymous(Some(AnonymousCounter { packets: Some(3), bytes: Some(180) }))),
        "{\"counter\":{\"packets\":3,\"bytes\":180}}",
    );
}

#[test]
fn test_unset_counts_are_written_as_zero() {
    let unset = AnonymousCounter { packets: None, bytes: None };
    assert_eq!(unset.encode().to_text(), "{\"packets\":0,\"bytes\":0}");
    assert_eq!(
        AnonymousCounter::decode(&unset.encode()),
        Ok(AnonymousCounter { packets: Some(0), bytes: Some(0) })
    );
    let half = AnonymousCounter { packets: Some(7), bytes: None };
    assert_eq!(half.encode().to_text(), "{\"packets\":7,\"bytes\":0}");
    assert_eq!(AnonymousCounter::decode(&parse("{}")), Ok(unset));
}

#[test]
fn test_mangle_and_vmap() {
    let mark = Expression::Named(NamedExpression::Meta(Meta { key: MetaKey::Mark }));
    round_trip(
        Statement::Mangle(Mangle { key: mark, value: Expression::Number(1) }),
        "{\"mangle\":{\"key\":{\"meta\":{\"key\":\"mark\"}},\"value\":1}}",
    );
    round_trip(
        Statement::VerdictMap(VerdictMap { key: dport(), data: Expression::String(s("@verdicts")) }),
        "{\"vmap\":{\"key\":{\"payload\":{\"protocol\":\"tcp\",\"field\":\"dport\"}},\"data\":\"@verdicts\"}}",
    );
}

#[test]
fn test_quota_and_limit() {
    round_trip(Statement::Quota(QuotaOrQuotaRef::QuotaRef(s("q1"))), "{\"quota\":\"q1\"}");
    round_trip(
        Statement::Quota(QuotaOrQuotaRef::Quota(Quota {
            val: 10,
            val_unit: s("mbytes"),
            used: None,
            used_unit: None,
            inv: Some(true),
        })),
        "{\"quota\":{\"val\":10,\"val_unit\":\"mbytes\",\"inv\":true}}",
    );
    round_trip(
        Statement::Limit(Limit {
            rate: 10,
            rate_unit: Some(s("packets")),
            per: Some(s("second")),
            burst: Some(5),
            burst_unit: None,
            inv: None,
        }),
        "{\"limit\":{\"rate\":10,\"rate_unit\":\"packets\",\"per\":\"second\",\"burst\":5}}",
    );
    assert_eq!(
        decode("{\"quota\": {\"val\": 1}}"),
        Err(DecodeError {
            path: vec![PathSegment::Key(s("quota")), PathSegment::Key(s("val_unit"))],
            kind: DecodeErrorKind::MissingField,
        })
    );
}

#[test]
fn test_nat() {
    round_trip(Statement::Masquerade(None), "{\"masquerade\":null}");
    let mut flags = FlagSet::new();
    flags.insert(NATFlag::Persistent);
    flags.insert(NATFlag::Random);
    round_trip(
        Statement::SNAT(Some(NAT {
            addr: Some(Expression::String(s("192.0.2.1"))),
            family: Some(NATFamily::IP),
            port: Some(Expression::Number(8080)),
            flags: Some(flags),
        })),
        "{\"snat\":{\"addr\":\"192.0.2.1\",\"family\":\"ip\",\"port\":8080,\"flags\":[\"random\",\"persistent\"]}}",
    );
    let one = decode("{\"dnat\": {\"addr\": \"192.0.2.1\", \"flags\": \"random\"}}");
    let list = decode("{\"dnat\": {\"addr\": \"192.0.2.1\", \"flags\": [\"random\"]}}");
    assert_eq!(one, list);
    assert!(matches!(one, Ok(Statement::DNAT(Some(_)))));
    round_trip(
        Statement::Redirect(Some(NAT { addr: None, family: None, port: None, flags: None })),
        "{\"redirect\":{}}",
    );
}

#[test]
fn test_log() {
    round_trip(Statement::Log(None), "{\"log\":null}");
    let mut flags = FlagSet::new();
    flags.insert(LogFlag::All);
    round_trip(
        Statement::Log(Some(Log {
            prefix: Some(s("drop: ")),
            group: Some(1),
            snaplen: Some(64),
            queue_threshold: Some(10),
            level: Some(LogLevel::Warn),
            flags: Some(flags.clone()),
        })),
        "{\"log\":{\"prefix\":\"drop: \",\"group\":1,\"snaplen\":64,\"queue-threshold\":10,\"level\":\"warn\",\"flags\":[\"all\"]}}",
    );
    let one = Log::decode(&parse("{\"flags\": \"all\"}")).unwrap();
    let list = Log::decode(&parse("{\"flags\": [\"all\"]}")).unwrap();
    assert_eq!(one, list);
    assert_eq!(one.flags, Some(flags));
    assert_eq!(Log::decode(&parse("{\"flags\": null}")).unwrap().flags, None);
    assert_eq!(Log::decode(&parse("{\"level\": \"err\"}")).unwrap().level, Some(LogLevel::Error));
    assert_eq!(
        Log::decode(&parse("{\"flags\": [\"all\", \"some\"]}")),
        Err(DecodeError {
            path: vec![PathSegment::Key(s("flags")), PathSegment::Index(1)],
            kind: DecodeErrorKind::UnknownToken(s("some")),
        })
    );
}

#[test]
fn test_reject() {
    round_trip(Statement::Reject(None), "{\"reject\":null}");
    round_trip(
        Statement::Reject(Some(Reject { _type: Some(RejectType::TCPRST), expr: None })),
        "{\"reject\":{\"type\":\"tcp reset\"}}",
    );
    round_trip(
        Statement::Reject(Some(Reject { _type: Some(RejectType::ICMPX), expr: Some(ICMPCode::AdminProhibited) })),
        "{\"reject\":{\"type\":\"icmpx\",\"expr\":\"admin-prohibited\"}}",
    );
}

#[test]
fn test_other_statements() {
    round_trip(
        Statement::Flow(Flow { op: SetOp::Add, flowtable: s("@ft") }),
        "{\"flow\":{\"op\":\"add\",\"flowtable\":\"@ft\"}}",
    );
    round_trip(Statement::FWD(None), "{\"fwd\":null}");
    round_trip(
        Statement::FWD(Some(FWD { dev: Some(Expression::String(s("eth0"))), family: None, addr: None })),
        "{\"fwd\":{\"dev\":\"eth0\"}}",
    );
    round_trip(
        Statement::Dup(Dup { addr: Expression::String(s("10.0.0.1")), dev: Some(Expression::String(s("eth0"))) }),
        "{\"dup\":{\"addr\":\"10.0.0.1\",\"dev\":\"eth0\"}}",
    );
    round_trip(
        Statement::SetStmt(SetStmt { op: SetOp::Update, elem: dport(), set: s("@ports") }),
        "{\"set\":{\"op\":\"update\",\"elem\":{\"payload\":{\"protocol\":\"tcp\",\"field\":\"dport\"}},\"set\":\"@ports\"}}",
    );
    round_trip(Statement::CTHelper(s("ftp")), "{\"ct helper\":\"ftp\"}");
    round_trip(
        Statement::Meter(Meter {
            name: s("m"),
            key: dport(),
            stmt: Box::new(Statement::Limit(Limit {
                rate: 1,
                rate_unit: None,
                per: None,
                burst: None,
                burst_unit: None,
                inv: None,
            })),
        }),
        "{\"meter\":{\"name\":\"m\",\"key\":{\"payload\":{\"protocol\":\"tcp\",\"field\":\"dport\"}},\"stmt\":{\"limit\":{\"rate\":1}}}}",
    );
    let mut bypass = FlagSet::new();
    bypass.insert(QueueFlag::Bypass);
    round_trip(
        Statement::Queue(Queue { num: Expression::Number(1), flags: Some(bypass) }),
        "{\"queue\":{\"num\":1,\"flags\":[\"bypass\"]}}",
    );
    round_trip(
        Statement::CTCount(CTCount { val: Expression::Number(10), inv: Some(true) }),
        "{\"ct count\":{\"val\":10,\"inv\":true}}",
    );
    round_trip(Statement::CTTimeout(Expression::String(s("policy"))), "{\"ct timeout\":\"policy\"}");
    round_trip(Statement::CTExpectation(Expression::String(s("e"))), "{\"ct expectation\":\"e\"}");
    round_trip(Statement::XT(None), "{\"xt\":null}");
    round_trip(
        Statement::XT(Some(Json::Object(vec![(s("type"), Json::String(s("match")))]))),
        "{\"xt\":{\"type\":\"match\"}}",
    );
    let mut ts = FlagSet::new();
    ts.insert(SynProxyFlag::Timestamp);
    round_trip(
        Statement::SynProxy(SynProxy { mss: Some(1460), wscale: Some(7), flags: Some(ts) }),
        "{\"synproxy\":{\"mss\":1460,\"wscale\":7,\"flags\":[\"timestamp\"]}}",
    );
    round_trip(
        Statement::TProxy(TProxy { family: Some(s("ip")), port: 8080, addr: None }),
        "{\"tproxy\":{\"family\":\"ip\",\"port\":8080}}",
    );
}

#[test]
fn test_synproxy_flags_single_and_list() {
    let one = decode("{\"synproxy\": {\"flags\": \"sack-perm\"}}");
    let list = decode("{\"synproxy\": {\"flags\": [\"sack-perm\"]}}");
    assert_eq!(one, list);
    assert!(one.is_ok());
}

#[test]
fn test_no_statement() {
    let shape = DecodeError { path: vec![], kind: DecodeErrorKind::UnexpectedShape };
    assert_eq!(decode("\"accept\""), Err(shape.clone()));
    assert_eq!(decode("{\"nothing\": null}"), Err(shape.clone()));
    assert_eq!(decode("{\"accept\": null, \"drop\": null}"), Err(shape.clone()));
    assert_eq!(decode("[]"), Err(shape));
    assert_eq!(
        decode("{\"notrack\": 1}"),
        Err(DecodeError { path: vec![PathSegment::Key(s("notrack"))], kind: DecodeErrorKind::UnexpectedShape })
    );
    assert_eq!(
        decode("{\"match\": {\"left\": 1, \"right\": 2, \"op\": \"=\"}}"),
        Err(DecodeError {
            path: vec![PathSegment::Key(s("match")), PathSegment::Key(s("op"))],
            kind: DecodeErrorKind::UnknownToken(s("=")),
        })
    );
}

#[test]
fn test_wire_values_out_of_range() {
    assert_eq!(
        decode("{\"tproxy\": {\"port\": 65536}}"),
        Err(DecodeError {
            path: vec![PathSegment::Key(s("tproxy")), PathSegment::Key(s("port"))],
            kind: DecodeErrorKind::UnexpectedShape,
        })
    );
    assert_eq!(
        decode("{\"synproxy\": {\"wscale\": 256}}"),
        Err(DecodeError {
            path: vec![PathSegment::Key(s("synproxy")), PathSegment::Key(s("wscale"))],
            kind: DecodeErrorKind::UnexpectedShape,
        })
    );
}
