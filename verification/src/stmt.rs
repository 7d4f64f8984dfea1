//! Statements: what a rule does to the packets that reach it.
//!
//! On the wire a statement is an object with a single member, whose key names the kind.

use vstd::prelude::*;
use crate::error::{
    DecodeError, DecodeErrorView, PathSegmentView, at_key, boxed, decoded, lemma_under_key_path,
    some,
};
use crate::expr::{Expression, ExpressionView};
use crate::flags::{FlagSet, dec_flags, enc_flags, lemma_flags_round_trip};
use crate::json::{
    Json, JsonView, find, items_view, lemma_lookup_decreases, lemma_lookup_empty, lemma_lookup_push,
    lookup, members_view, put, same_members, sole_member,
};
use crate::schema::SetOp;
use crate::text::same_text;
use crate::token::{
    Flag, Token, dec_token, decode_token, enc_token, encode_token, lemma_token_round_trip,
};
use crate::visitor::{
    dec_bool, dec_opt_flags, dec_string, dec_u16, dec_u32, dec_u64, dec_u8, decode_bool,
    decode_json, decode_string, decode_u16, decode_u32, decode_u64, decode_u8, deserialize_flags,
    enc_none_to_zero, lemma_with_opt, optional, present, serialize_none_to_zero,
    single_string_to_option_hashset_logflag, with_opt,
};

verus! {

broadcast use lemma_lookup_decreases;

/// A statement.
#[derive(Debug, PartialEq, Eq)]
pub enum Statement {
    /// Terminate ruleset evaluation and accept the packet.
    Accept(Option<Accept>),
    /// Terminate ruleset evaluation and drop the packet.
    Drop(Option<Drop>),
    /// Continue ruleset evaluation with the next rule.
    Continue(Option<Continue>),
    /// Return from the current chain and continue evaluation at the next rule in the last chain.
    Return(Option<Return>),
    /// Continue evaluation at the first rule of a chain, and come back when it ends.
    Jump(JumpTarget),
    /// Continue evaluation at the first rule of a chain, without coming back.
    Goto(JumpTarget),
    /// Match a packet against the relation of two expressions.
    Match(Match),
    /// Count the packets and bytes that reach the statement.
    Counter(Counter),
    /// Change packet data or meta information.
    Mangle(Mangle),
    /// Hold a quota, an anonymous one or one referred to by name.
    Quota(QuotaOrQuotaRef),
    /// Limit the rate of packets or bytes.
    Limit(Limit),
    /// Offload the flow to a flow table.
    Flow(Flow),
    /// Forward the packet to another destination.
    FWD(Option<FWD>),
    /// Disable connection tracking for the packet.
    Notrack,
    /// Duplicate the packet to another destination.
    Dup(Dup),
    /// Translate the source address.
    SNAT(Option<NAT>),
    /// Translate the destination address.
    DNAT(Option<NAT>),
    /// Translate the source address to that of the outgoing interface.
    Masquerade(Option<NAT>),
    /// Redirect the packet to the local host.
    Redirect(Option<NAT>),
    /// Reject the packet and send an error back.
    Reject(Option<Reject>),
    /// Add to or update a named set.
    SetStmt(SetStmt),
    /// Log the packet.
    Log(Option<Log>),
    /// Assign a conntrack helper, by its name.
    CTHelper(String),
    /// Apply a statement per key of a meter.
    Meter(Meter),
    /// Queue the packet to userspace.
    Queue(Queue),
    /// Apply the verdict that a map holds for a key.
    VerdictMap(VerdictMap),
    /// Limit the number of connections.
    CTCount(CTCount),
    /// Assign a conntrack timeout policy.
    CTTimeout(Expression),
    /// Assign a conntrack expectation.
    CTExpectation(Expression),
    /// A statement of the xtables compatibility layer, kept as it was read.
    XT(Option<Json>),
    /// Answer TCP handshakes in place of the server.
    SynProxy(SynProxy),
    /// Redirect the packet to a local socket without changing it.
    TProxy(TProxy),
}

/// The mathematical value of a [`Statement`].
pub ghost enum StatementView {
    Accept(Option<Accept>),
    Drop(Option<Drop>),
    Continue(Option<Continue>),
    Return(Option<Return>),
    Jump(JumpTargetView),
    Goto(JumpTargetView),
    Match(MatchView),
    Counter(CounterView),
    Mangle(MangleView),
    Quota(QuotaOrQuotaRefView),
    Limit(LimitView),
    Flow(FlowView),
    FWD(Option<FWDView>),
    Notrack,
    Dup(DupView),
    SNAT(Option<NATView>),
    DNAT(Option<NATView>),
    Masquerade(Option<NATView>),
    Redirect(Option<NATView>),
    Reject(Option<RejectView>),
    SetStmt(SetStmtView),
    Log(Option<LogView>),
    CTHelper(Seq<char>),
    Meter(MeterView),
    Queue(QueueView),
    VerdictMap(VerdictMapView),
    CTCount(CTCountView),
    CTTimeout(ExpressionView),
    CTExpectation(ExpressionView),
    XT(Option<JsonView>),
    SynProxy(SynProxyView),
    TProxy(TProxyView),
}

impl DeepView for Statement {
    type V = StatementView;

    open spec fn deep_view(&self) -> StatementView
        decreases self,
    {
        match self {
            Statement::Accept(p) => StatementView::Accept(
                match p {
                    Some(x) => Some(x.deep_view()),
                    None => None,
                },
            ),
            Statement::Drop(p) => StatementView::Drop(
                match p {
                    Some(x) => Some(x.deep_view()),
                    None => None,
                },
            ),
            Statement::Continue(p) => StatementView::Continue(
                match p {
                    Some(x) => Some(x.deep_view()),
                    None => None,
                },
            ),
            Statement::Return(p) => StatementView::Return(
                match p {
                    Some(x) => Some(x.deep_view()),
                    None => None,
                },
            ),
            Statement::Jump(p) => StatementView::Jump(p.deep_view()),
            Statement::Goto(p) => StatementView::Goto(p.deep_view()),
            Statement::Match(p) => StatementView::Match(p.deep_view()),
            Statement::Counter(p) => StatementView::Counter(p.deep_view()),
            Statement::Mangle(p) => StatementView::Mangle(p.deep_view()),
            Statement::Quota(p) => StatementView::Quota(p.deep_view()),
            Statement::Limit(p) => StatementView::Limit(p.deep_view()),
            Statement::Flow(p) => StatementView::Flow(p.deep_view()),
            Statement::FWD(p) => StatementView::FWD(
                match p {
                    Some(x) => Some(x.deep_view()),
                    None => None,
                },
            ),
            Statement::Notrack => StatementView::Notrack,
            Statement::Dup(p) => StatementView::Dup(p.deep_view()),
            Statement::SNAT(p) => StatementView::SNAT(
                match p {
                    Some(x) => Some(x.deep_view()),
                    None => None,
                },
            ),
            Statement::DNAT(p) => StatementView::DNAT(
                match p {
                    Some(x) => Some(x.deep_view()),
                    None => None,
                },
            ),
            Statement::Masquerade(p) => StatementView::Masquerade(
                match p {
                    Some(x) => Some(x.deep_view()),
                    None => None,
                },
            ),
            Statement::Redirect(p) => StatementView::Redirect(
                match p {
                    Some(x) => Some(x.deep_view()),
                    None => None,
                },
            ),
            Statement::Reject(p) => StatementView::Reject(
                match p {
                    Some(x) => Some(x.deep_view()),
                    None => None,
                },
            ),
            Statement::SetStmt(p) => StatementView::SetStmt(p.deep_view()),
            Statement::Log(p) => StatementView::Log(
                match p {
                    Some(x) => Some(x.deep_view()),
                    None => None,
                },
            ),
            Statement::CTHelper(p) => StatementView::CTHelper(p@),
            Statement::Meter(p) => StatementView::Meter(p.deep_view()),
            Statement::Queue(p) => StatementView::Queue(p.deep_view()),
            Statement::VerdictMap(p) => StatementView::VerdictMap(p.deep_view()),
            Statement::CTCount(p) => StatementView::CTCount(p.deep_view()),
            Statement::CTTimeout(p) => StatementView::CTTimeout(p.deep_view()),
            Statement::CTExpectation(p) => StatementView::CTExpectation(p.deep_view()),
            Statement::XT(p) => StatementView::XT(
                match p {
                    Some(x) => Some(x.deep_view()),
                    None => None,
                },
            ),
            Statement::SynProxy(p) => StatementView::SynProxy(p.deep_view()),
            Statement::TProxy(p) => StatementView::TProxy(p.deep_view()),
        }
    }
}

impl StatementView {
    /// The key that names each kind on the wire.
    pub open spec fn key(self) -> Seq<char> {
        match self {
            StatementView::Accept(_) => "accept"@,
            StatementView::Drop(_) => "drop"@,
            StatementView::Continue(_) => "continue"@,
            StatementView::Return(_) => "return"@,
            StatementView::Jump(_) => "jump"@,
            StatementView::Goto(_) => "goto"@,
            StatementView::Match(_) => "match"@,
            StatementView::Counter(_) => "counter"@,
            StatementView::Mangle(_) => "mangle"@,
            StatementView::Quota(_) => "quota"@,
            StatementView::Limit(_) => "limit"@,
            StatementView::Flow(_) => "flow"@,
            StatementView::FWD(_) => "fwd"@,
            StatementView::Notrack => "notrack"@,
            StatementView::Dup(_) => "dup"@,
            StatementView::SNAT(_) => "snat"@,
            StatementView::DNAT(_) => "dnat"@,
            StatementView::Masquerade(_) => "masquerade"@,
            StatementView::Redirect(_) => "redirect"@,
            StatementView::Reject(_) => "reject"@,
            StatementView::SetStmt(_) => "set"@,
            StatementView::Log(_) => "log"@,
            StatementView::CTHelper(_) => "ct helper"@,
            StatementView::Meter(_) => "meter"@,
            StatementView::Queue(_) => "queue"@,
            StatementView::VerdictMap(_) => "vmap"@,
            StatementView::CTCount(_) => "ct count"@,
            StatementView::CTTimeout(_) => "ct timeout"@,
            StatementView::CTExpectation(_) => "ct expectation"@,
            StatementView::XT(_) => "xt"@,
            StatementView::SynProxy(_) => "synproxy"@,
            StatementView::TProxy(_) => "tproxy"@,
        }
    }

    /// Whether a key names a kind.
    pub open spec fn knows(k: Seq<char>) -> bool {
        ||| k == "accept"@
        ||| k == "drop"@
        ||| k == "continue"@
        ||| k == "return"@
        ||| k == "jump"@
        ||| k == "goto"@
        ||| k == "match"@
        ||| k == "counter"@
        ||| k == "mangle"@
        ||| k == "quota"@
        ||| k == "limit"@
        ||| k == "flow"@
        ||| k == "fwd"@
        ||| k == "notrack"@
        ||| k == "dup"@
        ||| k == "snat"@
        ||| k == "dnat"@
        ||| k == "masquerade"@
        ||| k == "redirect"@
        ||| k == "reject"@
        ||| k == "set"@
        ||| k == "log"@
        ||| k == "ct helper"@
        ||| k == "meter"@
        ||| k == "queue"@
        ||| k == "vmap"@
        ||| k == "ct count"@
        ||| k == "ct timeout"@
        ||| k == "ct expectation"@
        ||| k == "xt"@
        ||| k == "synproxy"@
        ||| k == "tproxy"@
    }

    /// What stands under the key on the wire.
    pub open spec fn payload(self) -> JsonView
        decreases self, 0nat,
    {
        match self {
            StatementView::Accept(p) => match p {
                Some(x) => x.to_wire(),
                None => JsonView::Null,
            },
            StatementView::Drop(p) => match p {
                Some(x) => x.to_wire(),
                None => JsonView::Null,
            },
            StatementView::Continue(p) => match p {
                Some(x) => x.to_wire(),
                None => JsonView::Null,
            },
            StatementView::Return(p) => match p {
                Some(x) => x.to_wire(),
                None => JsonView::Null,
            },
            StatementView::Jump(p) => p.to_wire(),
            StatementView::Goto(p) => p.to_wire(),
            StatementView::Match(p) => p.to_wire(),
            StatementView::Counter(p) => p.to_wire(),
            StatementView::Mangle(p) => p.to_wire(),
            StatementView::Quota(p) => p.to_wire(),
            StatementView::Limit(p) => p.to_wire(),
            StatementView::Flow(p) => p.to_wire(),
            StatementView::FWD(p) => match p {
                Some(x) => x.to_wire(),
                None => JsonView::Null,
            },
            StatementView::Notrack => JsonView::Null,
            StatementView::Dup(p) => p.to_wire(),
            StatementView::SNAT(p) => match p {
                Some(x) => x.to_wire(),
                None => JsonView::Null,
            },
            StatementView::DNAT(p) => match p {
                Some(x) => x.to_wire(),
                None => JsonView::Null,
            },
            StatementView::Masquerade(p) => match p {
                Some(x) => x.to_wire(),
                None => JsonView::Null,
            },
            StatementView::Redirect(p) => match p {
                Some(x) => x.to_wire(),
                None => JsonView::Null,
            },
            StatementView::Reject(p) => match p {
                Some(x) => x.to_wire(),
                None => JsonView::Null,
            },
            StatementView::SetStmt(p) => p.to_wire(),
            StatementView::Log(p) => match p {
                Some(x) => x.to_wire(),
                None => JsonView::Null,
            },
            StatementView::CTHelper(p) => JsonView::String(p),
            StatementView::Meter(p) => p.to_wire(),
            StatementView::Queue(p) => p.to_wire(),
            StatementView::VerdictMap(p) => p.to_wire(),
            StatementView::CTCount(p) => p.to_wire(),
            StatementView::CTTimeout(p) => p.to_wire(),
            StatementView::CTExpectation(p) => p.to_wire(),
            StatementView::XT(p) => match p {
                Some(x) => x,
                None => JsonView::Null,
            },
            StatementView::SynProxy(p) => p.to_wire(),
            StatementView::TProxy(p) => p.to_wire(),
        }
    }

    /// The wire form: an object whose one member is named after the kind.
    pub open spec fn to_wire(self) -> JsonView
        decreases self, 1nat,
    {
        JsonView::Object(seq![(self.key(), self.payload())])
    }

    /// What the member `k: v` decodes to, where `k` names a kind.
    pub open spec fn from_member(
        k: Seq<char>,
        v: JsonView,
    ) -> Result<StatementView, DecodeErrorView>
        decreases v, 2nat,
    {
        if k == "accept"@ {
            match v {
                JsonView::Null => Ok(StatementView::Accept(None)),
                _ => match Accept::from_wire(v) {
                    Ok(x) => Ok(StatementView::Accept(Some(x))),
                    Err(e) => Err(e.under_key(k)),
                },
            }
        } else if k == "drop"@ {
            match v {
                JsonView::Null => Ok(StatementView::Drop(None)),
                _ => match Drop::from_wire(v) {
                    Ok(x) => Ok(StatementView::Drop(Some(x))),
                    Err(e) => Err(e.under_key(k)),
                },
            }
        } else if k == "continue"@ {
            match v {
                JsonView::Null => Ok(StatementView::Continue(None)),
                _ => match Continue::from_wire(v) {
                    Ok(x) => Ok(StatementView::Continue(Some(x))),
                    Err(e) => Err(e.under_key(k)),
                },
            }
        } else if k == "return"@ {
            match v {
                JsonView::Null => Ok(StatementView::Return(None)),
                _ => match Return::from_wire(v) {
                    Ok(x) => Ok(StatementView::Return(Some(x))),
                    Err(e) => Err(e.under_key(k)),
                },
            }
        } else if k == "jump"@ {
            match JumpTargetView::from_wire(v) {
                Ok(x) => Ok(StatementView::Jump(x)),
                Err(e) => Err(e.under_key(k)),
            }
        } else if k == "goto"@ {
            match JumpTargetView::from_wire(v) {
                Ok(x) => Ok(StatementView::Goto(x)),
                Err(e) => Err(e.under_key(k)),
            }
        } else if k == "match"@ {
            match MatchView::from_wire(v) {
                Ok(x) => Ok(StatementView::Match(x)),
                Err(e) => Err(e.under_key(k)),
            }
        } else if k == "counter"@ {
            match CounterView::from_wire(v) {
                Ok(x) => Ok(StatementView::Counter(x)),
                Err(e) => Err(e.under_key(k)),
            }
        } else if k == "mangle"@ {
            match MangleView::from_wire(v) {
                Ok(x) => Ok(StatementView::Mangle(x)),
                Err(e) => Err(e.under_key(k)),
            }
        } else if k == "quota"@ {
            match QuotaOrQuotaRefView::from_wire(v) {
                Ok(x) => Ok(StatementView::Quota(x)),
                Err(e) => Err(e.under_key(k)),
            }
        } else if k == "limit"@ {
            match LimitView::from_wire(v) {
                Ok(x) => Ok(StatementView::Limit(x)),
                Err(e) => Err(e.under_key(k)),
            }
        } else if k == "flow"@ {
            match FlowView::from_wire(v) {
                Ok(x) => Ok(StatementView::Flow(x)),
                Err(e) => Err(e.under_key(k)),
            }
        } else if k == "fwd"@ {
            match v {
                JsonView::Null => Ok(StatementView::FWD(None)),
                _ => match FWDView::from_wire(v) {
                    Ok(x) => Ok(StatementView::FWD(Some(x))),
                    Err(e) => Err(e.under_key(k)),
                },
            }
        } else if k == "notrack"@ {
            match v {
                JsonView::Null => Ok(StatementView::Notrack),
                _ => Err(DecodeErrorView::shape().under_key(k)),
            }
        } else if k == "dup"@ {
            match DupView::from_wire(v) {
                Ok(x) => Ok(StatementView::Dup(x)),
                Err(e) => Err(e.under_key(k)),
            }
        } else if k == "snat"@ {
            match v {
                JsonView::Null => Ok(StatementView::SNAT(None)),
                _ => match NATView::from_wire(v) {
                    Ok(x) => Ok(StatementView::SNAT(Some(x))),
                    Err(e) => Err(e.under_key(k)),
                },
            }
        } else if k == "dnat"@ {
            match v {
                JsonView::Null => Ok(StatementView::DNAT(None)),
                _ => match NATView::from_wire(v) {
                    Ok(x) => Ok(StatementView::DNAT(Some(x))),
                    Err(e) => Err(e.under_key(k)),
                },
            }
        } else if k == "masquerade"@ {
            match v {
                JsonView::Null => Ok(StatementView::Masquerade(None)),
                _ => match NATView::from_wire(v) {
                    Ok(x) => Ok(StatementView::Masquerade(Some(x))),
                    Err(e) => Err(e.under_key(k)),
                },
            }
        } else if k == "redirect"@ {
            match v {
                JsonView::Null => Ok(StatementView::Redirect(None)),
                _ => match NATView::from_wire(v) {
                    Ok(x) => Ok(StatementView::Redirect(Some(x))),
                    Err(e) => Err(e.under_key(k)),
                },
            }
        } else if k == "reject"@ {
            match v {
                JsonView::Null => Ok(StatementView::Reject(None)),
                _ => match RejectView::from_wire(v) {
                    Ok(x) => Ok(StatementView::Reject(Some(x))),
                    Err(e) => Err(e.under_key(k)),
                },
            }
        } else if k == "set"@ {
            match SetStmtView::from_wire(v) {
                Ok(x) => Ok(StatementView::SetStmt(x)),
                Err(e) => Err(e.under_key(k)),
            }
        } else if k == "log"@ {
            match v {
                JsonView::Null => Ok(StatementView::Log(None)),
                _ => match LogView::from_wire(v) {
                    Ok(x) => Ok(StatementView::Log(Some(x))),
                    Err(e) => Err(e.under_key(k)),
                },
            }
        } else if k == "ct helper"@ {
            match dec_string(v) {
                Ok(x) => Ok(StatementView::CTHelper(x)),
                Err(e) => Err(e.under_key(k)),
            }
        } else if k == "meter"@ {
            match MeterView::from_wire(v) {
                Ok(x) => Ok(StatementView::Meter(x)),
                Err(e) => Err(e.under_key(k)),
            }
        } else if k == "queue"@ {
            match QueueView::from_wire(v) {
                Ok(x) => Ok(StatementView::Queue(x)),
                Err(e) => Err(e.under_key(k)),
            }
        } else if k == "vmap"@ {
            match VerdictMapView::from_wire(v) {
                Ok(x) => Ok(StatementView::VerdictMap(x)),
                Err(e) => Err(e.under_key(k)),
            }
        } else if k == "ct count"@ {
            match CTCountView::from_wire(v) {
                Ok(x) => Ok(StatementView::CTCount(x)),
                Err(e) => Err(e.under_key(k)),
            }
        } else if k == "ct timeout"@ {
            match ExpressionView::from_wire(v) {
                Ok(x) => Ok(StatementView::CTTimeout(x)),
                Err(e) => Err(e.under_key(k)),
            }
        } else if k == "ct expectation"@ {
            match ExpressionView::from_wire(v) {
                Ok(x) => Ok(StatementView::CTExpectation(x)),
                Err(e) => Err(e.under_key(k)),
            }
        } else if k == "xt"@ {
            match v {
                JsonView::Null => Ok(StatementView::XT(None)),
                _ => match Ok::<JsonView, DecodeErrorView>(v) {
                    Ok(x) => Ok(StatementView::XT(Some(x))),
                    Err(e) => Err(e.under_key(k)),
                },
            }
        } else if k == "synproxy"@ {
            match SynProxyView::from_wire(v) {
                Ok(x) => Ok(StatementView::SynProxy(x)),
                Err(e) => Err(e.under_key(k)),
            }
        } else if k == "tproxy"@ {
            match TProxyView::from_wire(v) {
                Ok(x) => Ok(StatementView::TProxy(x)),
                Err(e) => Err(e.under_key(k)),
            }
        } else {
            Err(DecodeErrorView::shape())
        }
    }

    /// What a wire value decodes to: it is an object with exactly one member, whose
    /// key names the kind.
    pub open spec fn from_wire(j: JsonView) -> Result<StatementView, DecodeErrorView>
        decreases j, 3nat,
    {
        match j {
            JsonView::Object(m) => match sole_member(m) {
                Some((k, v)) => Self::from_member(k, v),
                None => Err(DecodeErrorView::shape()),
            },
            _ => Err(DecodeErrorView::shape()),
        }
    }

    /// Whether decoding the wire form gives this value back.
    pub open spec fn canonical(self) -> bool
        decreases self,
    {
        match self {
            StatementView::Match(p) => p.canonical(),
            StatementView::Counter(p) => p.canonical(),
            StatementView::Mangle(p) => p.canonical(),
            StatementView::FWD(p) => p matches Some(x) ==> x.canonical(),
            StatementView::Dup(p) => p.canonical(),
            StatementView::SNAT(p) => p matches Some(x) ==> x.canonical(),
            StatementView::DNAT(p) => p matches Some(x) ==> x.canonical(),
            StatementView::Masquerade(p) => p matches Some(x) ==> x.canonical(),
            StatementView::Redirect(p) => p matches Some(x) ==> x.canonical(),
            StatementView::SetStmt(p) => p.canonical(),
            StatementView::Meter(p) => p.canonical(),
            StatementView::Queue(p) => p.canonical(),
            StatementView::VerdictMap(p) => p.canonical(),
            StatementView::CTCount(p) => p.canonical(),
            StatementView::CTTimeout(p) => p.canonical(),
            StatementView::CTExpectation(p) => p.canonical(),
            StatementView::XT(p) => p matches Some(x) ==> !(x is Null),
            _ => true,
        }
    }

    /// The wire form of a value is never `null`.
    pub proof fn lemma_not_null(self)
        ensures
            !(self.to_wire() is Null),
    {
    }

    /// Where a member whose key names a kind fails to decode, the failure names the
    /// kind: its path begins with that key.
    pub proof fn lemma_failure_names_kind(k: Seq<char>, v: JsonView)
        ensures
            Self::knows(k) ==> (Self::from_member(k, v) matches Err(e) ==> e.path.len() > 0
                && e.path[0] == PathSegmentView::Key(k)),
    {
        broadcast use lemma_under_key_path;
    }

    /// The key of a value names its kind.
    pub proof fn lemma_key(self)
        ensures
            Self::knows(self.key()),
    {
    }

    /// Decoding the wire form of a value gives the value back.
    #[verifier::rlimit(40)]
    pub proof fn lemma_round_trip(self)
        requires
            self.canonical(),
        ensures
            Self::from_member(self.key(), self.payload()) matches Ok(v) && v == self,
            Self::from_wire(self.to_wire()) == Ok::<StatementView, DecodeErrorView>(self),
        decreases self, 3nat,
    {
        reveal_strlit("accept");
        reveal_strlit("drop");
        reveal_strlit("continue");
        reveal_strlit("return");
        reveal_strlit("jump");
        reveal_strlit("goto");
        reveal_strlit("match");
        reveal_strlit("counter");
        reveal_strlit("mangle");
        reveal_strlit("quota");
        reveal_strlit("limit");
        reveal_strlit("flow");
        reveal_strlit("fwd");
        reveal_strlit("notrack");
        reveal_strlit("dup");
        reveal_strlit("snat");
        reveal_strlit("dnat");
        reveal_strlit("masquerade");
        reveal_strlit("redirect");
        reveal_strlit("reject");
        reveal_strlit("set");
        reveal_strlit("log");
        reveal_strlit("ct helper");
        reveal_strlit("meter");
        reveal_strlit("queue");
        reveal_strlit("vmap");
        reveal_strlit("ct count");
        reveal_strlit("ct timeout");
        reveal_strlit("ct expectation");
        reveal_strlit("xt");
        reveal_strlit("synproxy");
        reveal_strlit("tproxy");
        assert("accept"@.len() == 6 && "accept"@[2] == 'c');
        assert("drop"@.len() == 4 && "drop"@[0] == 'd' && "drop"@[1] == 'r');
        assert("continue"@.len() == 8 && "continue"@[1] == 'o');
        assert("return"@.len() == 6 && "return"@[2] == 't');
        assert("jump"@.len() == 4 && "jump"@[0] == 'j' && "jump"@[1] == 'u');
        assert("goto"@.len() == 4 && "goto"@[0] == 'g' && "goto"@[1] == 'o');
        assert("match"@.len() == 5 && "match"@[3] == 'c');
        assert("counter"@.len() == 7 && "counter"@[0] == 'c');
        assert("mangle"@.len() == 6 && "mangle"@[2] == 'n');
        assert("quota"@.len() == 5 && "quota"@[3] == 't');
        assert("limit"@.len() == 5 && "limit"@[3] == 'i');
        assert("flow"@.len() == 4 && "flow"@[0] == 'f' && "flow"@[1] == 'l');
        assert("fwd"@.len() == 3 && "fwd"@[0] == 'f');
        assert("notrack"@.len() == 7 && "notrack"@[0] == 'n');
        assert("dup"@.len() == 3 && "dup"@[0] == 'd');
        assert("snat"@.len() == 4 && "snat"@[0] == 's' && "snat"@[1] == 'n');
        assert("dnat"@.len() == 4 && "dnat"@[0] == 'd' && "dnat"@[1] == 'n');
        assert("masquerade"@.len() == 10 && "masquerade"@[0] == 'm');
        assert("redirect"@.len() == 8 && "redirect"@[1] == 'e');
        assert("reject"@.len() == 6 && "reject"@[2] == 'j');
        assert("set"@.len() == 3 && "set"@[0] == 's');
        assert("log"@.len() == 3 && "log"@[0] == 'l');
        assert("ct helper"@.len() == 9);
        assert("meter"@.len() == 5 && "meter"@[3] == 'e');
        assert("queue"@.len() == 5 && "queue"@[3] == 'u');
        assert("vmap"@.len() == 4 && "vmap"@[0] == 'v' && "vmap"@[1] == 'm');
        assert("ct count"@.len() == 8 && "ct count"@[1] == 't');
        assert("ct timeout"@.len() == 10 && "ct timeout"@[0] == 'c');
        assert("ct expectation"@.len() == 14);
        assert("xt"@.len() == 2);
        assert("synproxy"@.len() == 8 && "synproxy"@[1] == 'y');
        assert("tproxy"@.len() == 6 && "tproxy"@[2] == 'r');
        match self {
            StatementView::Accept(p) => match p {
                Some(x) => {
                    x.lemma_round_trip();
                },
                None => {},
            },
            StatementView::Drop(p) => match p {
                Some(x) => {
                    x.lemma_round_trip();
                },
                None => {},
            },
            StatementView::Continue(p) => match p {
                Some(x) => {
                    x.lemma_round_trip();
                },
                None => {},
            },
            StatementView::Return(p) => match p {
                Some(x) => {
                    x.lemma_round_trip();
                },
                None => {},
            },
            StatementView::Jump(p) => {
                p.lemma_round_trip();
            },
            StatementView::Goto(p) => {
                p.lemma_round_trip();
            },
            StatementView::Match(p) => {
                p.lemma_round_trip();
            },
            StatementView::Counter(p) => {
                p.lemma_round_trip();
            },
            StatementView::Mangle(p) => {
                p.lemma_round_trip();
            },
            StatementView::Quota(p) => {
                p.lemma_round_trip();
            },
            StatementView::Limit(p) => {
                p.lemma_round_trip();
            },
            StatementView::Flow(p) => {
                p.lemma_round_trip();
            },
            StatementView::FWD(p) => match p {
                Some(x) => {
                    x.lemma_round_trip();
                },
                None => {},
            },
            StatementView::Notrack => {},
            StatementView::Dup(p) => {
                p.lemma_round_trip();
            },
            StatementView::SNAT(p) => match p {
                Some(x) => {
                    x.lemma_round_trip();
                },
                None => {},
            },
            StatementView::DNAT(p) => match p {
                Some(x) => {
                    x.lemma_round_trip();
                },
                None => {},
            },
            StatementView::Masquerade(p) => match p {
                Some(x) => {
                    x.lemma_round_trip();
                },
                None => {},
            },
            StatementView::Redirect(p) => match p {
                Some(x) => {
                    x.lemma_round_trip();
                },
                None => {},
            },
            StatementView::Reject(p) => match p {
                Some(x) => {
                    x.lemma_round_trip();
                },
                None => {},
            },
            StatementView::SetStmt(p) => {
                p.lemma_round_trip();
            },
            StatementView::Log(p) => match p {
                Some(x) => {
                    x.lemma_round_trip();
                },
                None => {},
            },
            StatementView::CTHelper(p) => {
            },
            StatementView::Meter(p) => {
                p.lemma_round_trip();
            },
            StatementView::Queue(p) => {
                p.lemma_round_trip();
            },
            StatementView::VerdictMap(p) => {
                p.lemma_round_trip();
            },
            StatementView::CTCount(p) => {
                p.lemma_round_trip();
            },
            StatementView::CTTimeout(p) => {
                p.lemma_round_trip();
                p.lemma_not_null();
            },
            StatementView::CTExpectation(p) => {
                p.lemma_round_trip();
                p.lemma_not_null();
            },
            StatementView::XT(p) => match p {
                Some(x) => {
                },
                None => {},
            },
            StatementView::SynProxy(p) => {
                p.lemma_round_trip();
            },
            StatementView::TProxy(p) => {
                p.lemma_round_trip();
            },
        }
    }
}

impl Statement {
    /// Encodes the value in its wire form.
    pub fn encode(&self) -> (j: Json)
        ensures
            j.deep_view() == self.deep_view().to_wire(),
        decreases self,
    {
        let mut m: Vec<(String, Json)> = Vec::new();
        assert(members_view(m) =~= Seq::empty());
        match self {
            Statement::Accept(p) => match p {
                Some(x) => put(&mut m, "accept", x.encode()),
                None => put(&mut m, "accept", Json::Null),
            },
            Statement::Drop(p) => match p {
                Some(x) => put(&mut m, "drop", x.encode()),
                None => put(&mut m, "drop", Json::Null),
            },
            Statement::Continue(p) => match p {
                Some(x) => put(&mut m, "continue", x.encode()),
                None => put(&mut m, "continue", Json::Null),
            },
            Statement::Return(p) => match p {
                Some(x) => put(&mut m, "return", x.encode()),
                None => put(&mut m, "return", Json::Null),
            },
            Statement::Jump(p) => put(&mut m, "jump", p.encode()),
            Statement::Goto(p) => put(&mut m, "goto", p.encode()),
            Statement::Match(p) => put(&mut m, "match", p.encode()),
            Statement::Counter(p) => put(&mut m, "counter", p.encode()),
            Statement::Mangle(p) => put(&mut m, "mangle", p.encode()),
            Statement::Quota(p) => put(&mut m, "quota", p.encode()),
            Statement::Limit(p) => put(&mut m, "limit", p.encode()),
            Statement::Flow(p) => put(&mut m, "flow", p.encode()),
            Statement::FWD(p) => match p {
                Some(x) => put(&mut m, "fwd", x.encode()),
                None => put(&mut m, "fwd", Json::Null),
            },
            Statement::Notrack => put(&mut m, "notrack", Json::Null),
            Statement::Dup(p) => put(&mut m, "dup", p.encode()),
            Statement::SNAT(p) => match p {
                Some(x) => put(&mut m, "snat", x.encode()),
                None => put(&mut m, "snat", Json::Null),
            },
            Statement::DNAT(p) => match p {
                Some(x) => put(&mut m, "dnat", x.encode()),
                None => put(&mut m, "dnat", Json::Null),
            },
            Statement::Masquerade(p) => match p {
                Some(x) => put(&mut m, "masquerade", x.encode()),
                None => put(&mut m, "masquerade", Json::Null),
            },
            Statement::Redirect(p) => match p {
                Some(x) => put(&mut m, "redirect", x.encode()),
                None => put(&mut m, "redirect", Json::Null),
            },
            Statement::Reject(p) => match p {
                Some(x) => put(&mut m, "reject", x.encode()),
                None => put(&mut m, "reject", Json::Null),
            },
            Statement::SetStmt(p) => put(&mut m, "set", p.encode()),
            Statement::Log(p) => match p {
                Some(x) => put(&mut m, "log", x.encode()),
                None => put(&mut m, "log", Json::Null),
            },
            Statement::CTHelper(p) => put(&mut m, "ct helper", Json::String(p.clone())),
            Statement::Meter(p) => put(&mut m, "meter", p.encode()),
            Statement::Queue(p) => put(&mut m, "queue", p.encode()),
            Statement::VerdictMap(p) => put(&mut m, "vmap", p.encode()),
            Statement::CTCount(p) => put(&mut m, "ct count", p.encode()),
            Statement::CTTimeout(p) => put(&mut m, "ct timeout", p.encode()),
            Statement::CTExpectation(p) => put(&mut m, "ct expectation", p.encode()),
            Statement::XT(p) => match p {
                Some(x) => put(&mut m, "xt", x.clone()),
                None => put(&mut m, "xt", Json::Null),
            },
            Statement::SynProxy(p) => put(&mut m, "synproxy", p.encode()),
            Statement::TProxy(p) => put(&mut m, "tproxy", p.encode()),
        }
        assert(members_view(m) =~= seq![(self.deep_view().key(), self.deep_view().payload())]);
        Json::Object(m)
    }

    /// Whether a key names a kind.
    pub fn knows(k: &str) -> (r: bool)
        ensures
            r == StatementView::knows(k@),
    {
        same_text(k, "accept")
            || same_text(k, "drop")
            || same_text(k, "continue")
            || same_text(k, "return")
            || same_text(k, "jump")
            || same_text(k, "goto")
            || same_text(k, "match")
            || same_text(k, "counter")
            || same_text(k, "mangle")
            || same_text(k, "quota")
            || same_text(k, "limit")
            || same_text(k, "flow")
            || same_text(k, "fwd")
            || same_text(k, "notrack")
            || same_text(k, "dup")
            || same_text(k, "snat")
            || same_text(k, "dnat")
            || same_text(k, "masquerade")
            || same_text(k, "redirect")
            || same_text(k, "reject")
            || same_text(k, "set")
            || same_text(k, "log")
            || same_text(k, "ct helper")
            || same_text(k, "meter")
            || same_text(k, "queue")
            || same_text(k, "vmap")
            || same_text(k, "ct count")
            || same_text(k, "ct timeout")
            || same_text(k, "ct expectation")
            || same_text(k, "xt")
            || same_text(k, "synproxy")
            || same_text(k, "tproxy")
    }

    /// Decodes the member `k: v`.
    pub fn decode_member(k: &str, v: &Json) -> (r: Result<Statement, DecodeError>)
        ensures
            decoded(r, StatementView::from_member(k@, v.deep_view())),
        decreases v, 2nat,
    {
        if same_text(k, "accept") {
            match v {
                Json::Null => Ok(Statement::Accept(None)),
                _ => match Accept::decode(v) {
                    Ok(x) => Ok(Statement::Accept(Some(x))),
                    Err(e) => Err(e.under_key(k)),
                },
            }
        } else if same_text(k, "drop") {
            match v {
                Json::Null => Ok(Statement::Drop(None)),
                _ => match Drop::decode(v) {
                    Ok(x) => Ok(Statement::Drop(Some(x))),
                    Err(e) => Err(e.under_key(k)),
                },
            }
        } else if same_text(k, "continue") {
            match v {
                Json::Null => Ok(Statement::Continue(None)),
                _ => match Continue::decode(v) {
                    Ok(x) => Ok(Statement::Continue(Some(x))),
                    Err(e) => Err(e.under_key(k)),
                },
            }
        } else if same_text(k, "return") {
            match v {
                Json::Null => Ok(Statement::Return(None)),
                _ => match Return::decode(v) {
                    Ok(x) => Ok(Statement::Return(Some(x))),
                    Err(e) => Err(e.under_key(k)),
                },
            }
        } else if same_text(k, "jump") {
            match JumpTarget::decode(v) {
                Ok(x) => Ok(Statement::Jump(x)),
                Err(e) => Err(e.under_key(k)),
            }
        } else if same_text(k, "goto") {
            match JumpTarget::decode(v) {
                Ok(x) => Ok(Statement::Goto(x)),
                Err(e) => Err(e.under_key(k)),
            }
        } else if same_text(k, "match") {
            match Match::decode(v) {
                Ok(x) => Ok(Statement::Match(x)),
                Err(e) => Err(e.under_key(k)),
            }
        } else if same_text(k, "counter") {
            match Counter::decode(v) {
                Ok(x) => Ok(Statement::Counter(x)),
                Err(e) => Err(e.under_key(k)),
            }
        } else if same_text(k, "mangle") {
            match Mangle::decode(v) {
                Ok(x) => Ok(Statement::Mangle(x)),
                Err(e) => Err(e.under_key(k)),
            }
        } else if same_text(k, "quota") {
            match QuotaOrQuotaRef::decode(v) {
                Ok(x) => Ok(Statement::Quota(x)),
                Err(e) => Err(e.under_key(k)),
            }
        } else if same_text(k, "limit") {
            match Limit::decode(v) {
                Ok(x) => Ok(Statement::Limit(x)),
                Err(e) => Err(e.under_key(k)),
            }
        } else if same_text(k, "flow") {
            match Flow::decode(v) {
                Ok(x) => Ok(Statement::Flow(x)),
                Err(e) => Err(e.under_key(k)),
            }
        } else if same_text(k, "fwd") {
            match v {
                Json::Null => Ok(Statement::FWD(None)),
                _ => match FWD::decode(v) {
                    Ok(x) => Ok(Statement::FWD(Some(x))),
                    Err(e) => Err(e.under_key(k)),
                },
            }
        } else if same_text(k, "notrack") {
            match v {
                Json::Null => Ok(Statement::Notrack),
                _ => Err(DecodeError::shape().under_key(k)),
            }
        } else if same_text(k, "dup") {
            match Dup::decode(v) {
                Ok(x) => Ok(Statement::Dup(x)),
                Err(e) => Err(e.under_key(k)),
            }
        } else if same_text(k, "snat") {
            match v {
                Json::Null => Ok(Statement::SNAT(None)),
                _ => match NAT::decode(v) {
                    Ok(x) => Ok(Statement::SNAT(Some(x))),
                    Err(e) => Err(e.under_key(k)),
                },
            }
        } else if same_text(k, "dnat") {
            match v {
                Json::Null => Ok(Statement::DNAT(None)),
                _ => match NAT::decode(v) {
                    Ok(x) => Ok(Statement::DNAT(Some(x))),
                    Err(e) => Err(e.under_key(k)),
                },
            }
        } else if same_text(k, "masquerade") {
            match v {
                Json::Null => Ok(Statement::Masquerade(None)),
                _ => match NAT::decode(v) {
                    Ok(x) => Ok(Statement::Masquerade(Some(x))),
                    Err(e) => Err(e.under_key(k)),
                },
            }
        } else if same_text(k, "redirect") {
            match v {
                Json::Null => Ok(Statement::Redirect(None)),
                _ => match NAT::decode(v) {
                    Ok(x) => Ok(Statement::Redirect(Some(x))),
                    Err(e) => Err(e.under_key(k)),
                },
            }
        } else if same_text(k, "reject") {
            match v {
                Json::Null => Ok(Statement::Reject(None)),
                _ => match Reject::decode(v) {
                    Ok(x) => Ok(Statement::Reject(Some(x))),
                    Err(e) => Err(e.under_key(k)),
                },
            }
        } else if same_text(k, "set") {
            match SetStmt::decode(v) {
                Ok(x) => Ok(Statement::SetStmt(x)),
                Err(e) => Err(e.under_key(k)),
            }
        } else if same_text(k, "log") {
            match v {
                Json::Null => Ok(Statement::Log(None)),
                _ => match Log::decode(v) {
                    Ok(x) => Ok(Statement::Log(Some(x))),
                    Err(e) => Err(e.under_key(k)),
                },
            }
        } else if same_text(k, "ct helper") {
            match decode_string(v) {
                Ok(x) => Ok(Statement::CTHelper(x)),
                Err(e) => Err(e.under_key(k)),
            }
        } else if same_text(k, "meter") {
            match Meter::decode(v) {
                Ok(x) => Ok(Statement::Meter(x)),
                Err(e) => Err(e.under_key(k)),
            }
        } else if same_text(k, "queue") {
            match Queue::decode(v) {
                Ok(x) => Ok(Statement::Queue(x)),
                Err(e) => Err(e.under_key(k)),
            }
        } else if same_text(k, "vmap") {
            match VerdictMap::decode(v) {
                Ok(x) => Ok(Statement::VerdictMap(x)),
                Err(e) => Err(e.under_key(k)),
            }
        } else if same_text(k, "ct count") {
            match CTCount::decode(v) {
                Ok(x) => Ok(Statement::CTCount(x)),
                Err(e) => Err(e.under_key(k)),
            }
        } else if same_text(k, "ct timeout") {
            match Expression::decode(v) {
                Ok(x) => Ok(Statement::CTTimeout(x)),
                Err(e) => Err(e.under_key(k)),
            }
        } else if same_text(k, "ct expectation") {
            match Expression::decode(v) {
                Ok(x) => Ok(Statement::CTExpectation(x)),
                Err(e) => Err(e.under_key(k)),
            }
        } else if same_text(k, "xt") {
            match v {
                Json::Null => Ok(Statement::XT(None)),
                _ => match decode_json(v) {
                    Ok(x) => Ok(Statement::XT(Some(x))),
                    Err(e) => Err(e.under_key(k)),
                },
            }
        } else if same_text(k, "synproxy") {
            match SynProxy::decode(v) {
                Ok(x) => Ok(Statement::SynProxy(x)),
                Err(e) => Err(e.under_key(k)),
            }
        } else if same_text(k, "tproxy") {
            match TProxy::decode(v) {
                Ok(x) => Ok(Statement::TProxy(x)),
                Err(e) => Err(e.under_key(k)),
            }
        } else {
            Err(DecodeError::shape())
        }
    }

    /// Decodes a wire value.
    pub fn decode(j: &Json) -> (r: Result<Statement, DecodeError>)
        ensures
            decoded(r, StatementView::from_wire(j.deep_view())),
        decreases j, 3nat,
    {
        match j {
            Json::Object(m) => {
                assert(members_view(*m).len() == m.len());
                if m.len() != 1 {
                    return Err(DecodeError::shape());
                }
                Self::decode_member(m[0].0.as_str(), &m[0].1)
            },
            _ => Err(DecodeError::shape()),
        }
    }
}

impl Clone for Statement {
    fn clone(&self) -> (r: Self)
        ensures
            r.deep_view() == self.deep_view(),
        decreases self,
    {
        match self {
            Statement::Accept(p) => Statement::Accept(
                match p {
                    Some(x) => Some(x.clone()),
                    None => None,
                },
            ),
            Statement::Drop(p) => Statement::Drop(
                match p {
                    Some(x) => Some(x.clone()),
                    None => None,
                },
            ),
            Statement::Continue(p) => Statement::Continue(
                match p {
                    Some(x) => Some(x.clone()),
                    None => None,
                },
            ),
            Statement::Return(p) => Statement::Return(
                match p {
                    Some(x) => Some(x.clone()),
                    None => None,
                },
            ),
            Statement::Jump(p) => Statement::Jump(p.clone()),
            Statement::Goto(p) => Statement::Goto(p.clone()),
            Statement::Match(p) => Statement::Match(p.clone()),
            Statement::Counter(p) => Statement::Counter(p.clone()),
            Statement::Mangle(p) => Statement::Mangle(p.clone()),
            Statement::Quota(p) => Statement::Quota(p.clone()),
            Statement::Limit(p) => Statement::Limit(p.clone()),
            Statement::Flow(p) => Statement::Flow(p.clone()),
            Statement::FWD(p) => Statement::FWD(
                match p {
                    Some(x) => Some(x.clone()),
                    None => None,
                },
            ),
            Statement::Notrack => Statement::Notrack,
            Statement::Dup(p) => Statement::Dup(p.clone()),
            Statement::SNAT(p) => Statement::SNAT(
                match p {
                    Some(x) => Some(x.clone()),
                    None => None,
                },
            ),
            Statement::DNAT(p) => Statement::DNAT(
                match p {
                    Some(x) => Some(x.clone()),
                    None => None,
                },
            ),
            Statement::Masquerade(p) => Statement::Masquerade(
                match p {
                    Some(x) => Some(x.clone()),
                    None => None,
                },
            ),
            Statement::Redirect(p) => Statement::Redirect(
                match p {
                    Some(x) => Some(x.clone()),
                    None => None,
                },
            ),
            Statement::Reject(p) => Statement::Reject(
                match p {
                    Some(x) => Some(x.clone()),
                    None => None,
                },
            ),
            Statement::SetStmt(p) => Statement::SetStmt(p.clone()),
            Statement::Log(p) => Statement::Log(
                match p {
                    Some(x) => Some(x.clone()),
                    None => None,
                },
            ),
            Statement::CTHelper(p) => Statement::CTHelper(p.clone()),
            Statement::Meter(p) => Statement::Meter(p.clone()),
            Statement::Queue(p) => Statement::Queue(p.clone()),
            Statement::VerdictMap(p) => Statement::VerdictMap(p.clone()),
            Statement::CTCount(p) => Statement::CTCount(p.clone()),
            Statement::CTTimeout(p) => Statement::CTTimeout(p.clone()),
            Statement::CTExpectation(p) => Statement::CTExpectation(p.clone()),
            Statement::XT(p) => Statement::XT(
                match p {
                    Some(x) => Some(x.clone()),
                    None => None,
                },
            ),
            Statement::SynProxy(p) => Statement::SynProxy(p.clone()),
            Statement::TProxy(p) => Statement::TProxy(p.clone()),
        }
    }
}

/// The values of a list of statements.
pub open spec fn statements_view(items: Seq<Statement>) -> Seq<StatementView>
    decreases items,
{
    if items.len() == 0 {
        Seq::empty()
    } else {
        statements_view(items.drop_last()).push(items.last().deep_view())
    }
}

/// The values of a list are as many as its items.
pub broadcast proof fn lemma_statements_view_len(items: Seq<Statement>)
    ensures
        #[trigger] statements_view(items).len() == items.len(),
    decreases items.len(),
{
    if items.len() > 0 {
        lemma_statements_view_len(items.drop_last());
        assert(statements_view(items) == statements_view(items.drop_last()).push(
            items.last().deep_view(),
        ));
    }
}

/// The value at a place of a list is the value of the item at that place.
pub broadcast proof fn lemma_statements_view_index(items: Seq<Statement>, k: int)
    requires
        0 <= k < items.len(),
    ensures
        #[trigger] statements_view(items)[k] == items[k].deep_view(),
    decreases items.len(),
{
    lemma_statements_view_len(items);
    lemma_statements_view_len(items.drop_last());
    assert(
        statements_view(items) == statements_view(items.drop_last()).push(items.last().deep_view())
    );
    if k < items.len() - 1 {
        lemma_statements_view_index(items.drop_last(), k);
    }
}

/// The wire forms of a list of statements, in the list's order.
pub open spec fn enc_statements(items: Seq<StatementView>) -> Seq<JsonView>
    decreases items, 0nat,
{
    Seq::new(
        items.len(),
        |i: int|
            if 0 <= i < items.len() {
                items[i].to_wire()
            } else {
                JsonView::Null
            },
    )
}

/// What a list of wire values decodes to: each item in turn, and the first that fails
/// decides the failure.
pub open spec fn dec_statements(items: Seq<JsonView>) -> Result<Seq<StatementView>, DecodeErrorView>
    decreases items, 0nat,
{
    if items.len() == 0 {
        Ok(Seq::empty())
    } else {
        match dec_statements(items.drop_last()) {
            Ok(vs) => match StatementView::from_wire(items.last()) {
                Ok(v) => Ok(vs.push(v)),
                Err(e) => Err(e.under_index(items.len() - 1)),
            },
            Err(e) => Err(e),
        }
    }
}

/// What a wire value decodes to where a list of statements is expected: it is an array.
pub open spec fn dec_statement_list(j: JsonView) -> Result<Seq<StatementView>, DecodeErrorView>
    decreases j, 0nat,
{
    match j {
        JsonView::Array(items) => dec_statements(items),
        _ => Err(DecodeErrorView::shape()),
    }
}

/// Whether each item of a list is canonical.
pub open spec fn statements_canonical(items: Seq<StatementView>) -> bool
    decreases items,
{
    forall|i: int| 0 <= i < items.len() ==> (#[trigger] items[i]).canonical()
}

/// Decoding the wire forms of a list gives the list back.
pub proof fn lemma_statements_round_trip(items: Seq<StatementView>)
    requires
        statements_canonical(items),
    ensures
        dec_statements(enc_statements(items)) matches Ok(vs) && vs == items,
        dec_statement_list(JsonView::Array(enc_statements(items))) matches Ok(vs) && vs == items,
    decreases items, 0nat,
{
    if items.len() > 0 {
        lemma_statements_round_trip(items.drop_last());
        items.last().lemma_round_trip();
        assert(enc_statements(items).drop_last() =~= enc_statements(items.drop_last()));
        assert(items.drop_last().push(items.last()) =~= items);
    } else {
        assert(items =~= Seq::empty());
    }
}

/// A list that failed to decode up to some item fails as a whole in the same way.
pub proof fn lemma_dec_statements_fails(items: Seq<JsonView>, i: int)
    requires
        0 <= i < items.len(),
        dec_statements(items.take(i + 1)) is Err,
    ensures
        dec_statements(items) == dec_statements(items.take(i + 1)),
    decreases items.len(),
{
    if i + 1 < items.len() {
        assert(items.drop_last().take(i + 1) =~= items.take(i + 1));
        lemma_dec_statements_fails(items.drop_last(), i);
    } else {
        assert(items.take(i + 1) =~= items);
    }
}

/// Encodes each item of a list.
pub fn encode_statements(items: &Vec<Statement>) -> (r: Vec<Json>)
    ensures
        items_view(r) == enc_statements(statements_view(items@)),
    decreases items,
{
    let mut out: Vec<Json> = Vec::new();
    let mut i: usize = 0;
    while i < items.len()
        invariant
            i <= items.len(),
            out.len() == i,
            forall|k: int| 0 <= k < i ==> out[k].deep_view() == items[k].deep_view().to_wire(),
        decreases items.len() - i,
    {
        out.push(items[i].encode());
        i += 1;
    }
    proof {
        let views = statements_view(items@);
        lemma_statements_view_len(items@);
        assert forall|k: int| 0 <= k < items.len() implies items_view(out)[k] == enc_statements(
            views,
        )[k] by {
            lemma_statements_view_index(items@, k);
        }
        assert(items_view(out) =~= enc_statements(views));
    }
    out
}

/// Decodes each item of a list.
pub fn decode_statements(items: &Vec<Json>) -> (r: Result<Vec<Statement>, DecodeError>)
    ensures
        match r {
            Ok(v) => dec_statements(items_view(*items)) matches Ok(vs) && vs == statements_view(v@),
            Err(e) => dec_statements(items_view(*items)) matches Err(f) && f == e.deep_view(),
        },
    decreases items, 0nat,
{
    let mut out: Vec<Statement> = Vec::new();
    let mut i: usize = 0;
    let ghost view = items_view(*items);
    assert(view.take(0) =~= Seq::empty());
    assert(statements_view(out@) == Seq::<StatementView>::empty());
    while i < items.len()
        invariant
            i <= items.len(),
            view == items_view(*items),
            dec_statements(view.take(i as int)) matches Ok(vs) && vs == statements_view(out@),
        decreases items.len() - i,
    {
        proof {
            assert(view.take(i + 1).drop_last() =~= view.take(i as int));
            assert(view.take(i + 1).last() == items[i as int].deep_view());
        }
        match Statement::decode(&items[i]) {
            Ok(v) => {
                let ghost before = out@;
                out.push(v);
                proof {
                    assert(out@.drop_last() =~= before);
                    assert(statements_view(out@) == statements_view(out@.drop_last()).push(
                        out@.last().deep_view(),
                    ));
                }
            },
            Err(e) => {
                proof {
                    lemma_dec_statements_fails(view, i as int);
                }
                return Err(e.under_index(i));
            },
        }
        i += 1;
    }
    assert(view.take(i as int) =~= view);
    Ok(out)
}

/// Copies each item of a list.
pub fn clone_statements(items: &Vec<Statement>) -> (r: Vec<Statement>)
    ensures
        statements_view(r@) == statements_view(items@),
    decreases items,
{
    let mut out: Vec<Statement> = Vec::new();
    let mut i: usize = 0;
    assert(items@.take(0) =~= Seq::empty());
    assert(statements_view(out@) == statements_view(items@.take(0)));
    while i < items.len()
        invariant
            i <= items.len(),
            statements_view(out@) == statements_view(items@.take(i as int)),
        decreases items.len() - i,
    {
        let ghost before = out@;
        out.push(items[i].clone());
        proof {
            let next = items@.take(i + 1);
            assert(out@.drop_last() =~= before);
            assert(next.drop_last() =~= items@.take(i as int));
            assert(statements_view(out@) == statements_view(out@.drop_last()).push(
                out@.last().deep_view(),
            ));
            assert(
                statements_view(next) == statements_view(next.drop_last()).push(
                    next.last().deep_view(),
                )
            );
        }
        i += 1;
    }
    assert(items@.take(i as int) =~= items@);
    out
}

/// Decodes a wire value where a list of statements is expected.
pub fn decode_statement_list(j: &Json) -> (r: Result<Vec<Statement>, DecodeError>)
    ensures
        match r {
            Ok(v) => dec_statement_list(j.deep_view()) matches Ok(vs) && vs == statements_view(v@),
            Err(e) => dec_statement_list(j.deep_view()) matches Err(f) && f == e.deep_view(),
        },
    decreases j, 0nat,
{
    match j {
        Json::Array(items) => decode_statements(items),
        _ => Err(DecodeError::shape()),
    }
}

/// The accept verdict holds nothing.
#[derive(Debug, Clone, Copy, PartialEq, Eq)]
pub struct Accept {}

impl DeepView for Accept {
    type V = Accept;

    open spec fn deep_view(&self) -> Accept {
        *self
    }
}

impl Accept {
    /// The wire form: an object without members.
    pub open spec fn to_wire(self) -> JsonView {
        JsonView::Object(Seq::empty())
    }

    /// What a wire value decodes to: it is an object, whose members are not looked at.
    pub open spec fn from_wire(j: JsonView) -> Result<Accept, DecodeErrorView> {
        match j {
            JsonView::Object(_) => Ok(Accept {}),
            _ => Err(DecodeErrorView::shape()),
        }
    }

    /// Decoding the wire form of a value gives the value back.
    pub proof fn lemma_round_trip(self)
        ensures
            Self::from_wire(self.to_wire()) == Ok::<Accept, DecodeErrorView>(self),
    {
    }

    /// Encodes the value in its wire form.
    pub fn encode(&self) -> (j: Json)
        ensures
            j.deep_view() == self.deep_view().to_wire(),
    {
        let m: Vec<(String, Json)> = Vec::new();
        assert(members_view(m) =~= Seq::empty());
        Json::Object(m)
    }

    /// Decodes a wire value.
    pub fn decode(j: &Json) -> (r: Result<Accept, DecodeError>)
        ensures
            decoded(r, Accept::from_wire(j.deep_view())),
    {
        match j {
            Json::Object(_) => Ok(Accept {}),
            _ => Err(DecodeError::shape()),
        }
    }
}

/// The drop verdict holds nothing.
#[derive(Debug, Clone, Copy, PartialEq, Eq)]
pub struct Drop {}

impl DeepView for Drop {
    type V = Drop;

    open spec fn deep_view(&self) -> Drop {
        *self
    }
}

impl Drop {
    /// The wire form: an object without members.
    pub open spec fn to_wire(self) -> JsonView {
        JsonView::Object(Seq::empty())
    }

    /// What a wire value decodes to: it is an object, whose members are not looked at.
    pub open spec fn from_wire(j: JsonView) -> Result<Drop, DecodeErrorView> {
        match j {
            JsonView::Object(_) => Ok(Drop {}),
            _ => Err(DecodeErrorView::shape()),
        }
    }

    /// Decoding the wire form of a value gives the value back.
    pub proof fn lemma_round_trip(self)
        ensures
            Self::from_wire(self.to_wire()) == Ok::<Drop, DecodeErrorView>(self),
    {
    }

    /// Encodes the value in its wire form.
    pub fn encode(&self) -> (j: Json)
        ensures
            j.deep_view() == self.deep_view().to_wire(),
    {
        let m: Vec<(String, Json)> = Vec::new();
        assert(members_view(m) =~= Seq::empty());
        Json::Object(m)
    }

    /// Decodes a wire value.
    pub fn decode(j: &Json) -> (r: Result<Drop, DecodeError>)
        ensures
            decoded(r, Drop::from_wire(j.deep_view())),
    {
        match j {
            Json::Object(_) => Ok(Drop {}),
            _ => Err(DecodeError::shape()),
        }
    }
}

/// The continue verdict holds nothing.
#[derive(Debug, Clone, Copy, PartialEq, Eq)]
pub struct Continue {}

impl DeepView for Continue {
    type V = Continue;

    open spec fn deep_view(&self) -> Continue {
        *self
    }
}

impl Continue {
    /// The wire form: an object without members.
    pub open spec fn to_wire(self) -> JsonView {
        JsonView::Object(Seq::empty())
    }

    /// What a wire value decodes to: it is an object, whose members are not looked at.
    pub open spec fn from_wire(j: JsonView) -> Result<Continue, DecodeErrorView> {
        match j {
            JsonView::Object(_) => Ok(Continue {}),
            _ => Err(DecodeErrorView::shape()),
        }
    }

    /// Decoding the wire form of a value gives the value back.
    pub proof fn lemma_round_trip(self)
        ensures
            Self::from_wire(self.to_wire()) == Ok::<Continue, DecodeErrorView>(self),
    {
    }

    /// Encodes the value in its wire form.
    pub fn encode(&self) -> (j: Json)
        ensures
            j.deep_view() == self.deep_view().to_wire(),
    {
        let m: Vec<(String, Json)> = Vec::new();
        assert(members_view(m) =~= Seq::empty());
        Json::Object(m)
    }

    /// Decodes a wire value.
    pub fn decode(j: &Json) -> (r: Result<Continue, DecodeError>)
        ensures
            decoded(r, Continue::from_wire(j.deep_view())),
    {
        match j {
            Json::Object(_) => Ok(Continue {}),
            _ => Err(DecodeError::shape()),
        }
    }
}

/// The return verdict holds nothing.
#[derive(Debug, Clone, Copy, PartialEq, Eq)]
pub struct Return {}

impl DeepView for Return {
    type V = Return;

    open spec fn deep_view(&self) -> Return {
        *self
    }
}

impl Return {
    /// The wire form: an object without members.
    pub open spec fn to_wire(self) -> JsonView {
        JsonView::Object(Seq::empty())
    }

    /// What a wire value decodes to: it is an object, whose members are not looked at.
    pub open spec fn from_wire(j: JsonView) -> Result<Return, DecodeErrorView> {
        match j {
            JsonView::Object(_) => Ok(Return {}),
            _ => Err(DecodeErrorView::shape()),
        }
    }

    /// Decoding the wire form of a value gives the value back.
    pub proof fn lemma_round_trip(self)
        ensures
            Self::from_wire(self.to_wire()) == Ok::<Return, DecodeErrorView>(self),
    {
    }

    /// Encodes the value in its wire form.
    pub fn encode(&self) -> (j: Json)
        ensures
            j.deep_view() == self.deep_view().to_wire(),
    {
        let m: Vec<(String, Json)> = Vec::new();
        assert(members_view(m) =~= Seq::empty());
        Json::Object(m)
    }

    /// Decodes a wire value.
    pub fn decode(j: &Json) -> (r: Result<Return, DecodeError>)
        ensures
            decoded(r, Return::from_wire(j.deep_view())),
    {
        match j {
            Json::Object(_) => Ok(Return {}),
            _ => Err(DecodeError::shape()),
        }
    }
}

/// The chain that a jump or goto leads to.
#[derive(Debug, PartialEq, Eq)]
pub struct JumpTarget {
    /// The name of the chain.
    pub target: String,
}

/// The mathematical value of a [`JumpTarget`].
pub ghost struct JumpTargetView {
    pub target: Seq<char>,
}

impl DeepView for JumpTarget {
    type V = JumpTargetView;

    open spec fn deep_view(&self) -> JumpTargetView {
        JumpTargetView {
            target: self.target@,
        }
    }
}

impl JumpTargetView {
    /// The wire form: an object with one member for each field that has a value.
    pub open spec fn to_wire(self) -> JsonView {
        let m = Seq::empty();
        let m = m.push(("target"@, JsonView::String(self.target)));
        JsonView::Object(m)
    }

    /// What a wire value decodes to: the fields are read by their keys, in the order
    /// in which the type lists them, and the first that fails decides the failure.
    pub open spec fn from_wire(j: JsonView) -> Result<JumpTargetView, DecodeErrorView> {
        match j {
            JsonView::Object(m) => {
                let target = match lookup(m, "target"@) {
                    Some(v) => at_key(dec_string(v), "target"@),
                    None => Err(DecodeErrorView::missing("target"@)),
                };
                if target is Err {
                    Err(target->Err_0)
                } else {
                    Ok(JumpTargetView { target: target->Ok_0 })
                }
            },
            _ => Err(DecodeErrorView::shape()),
        }
    }

    /// What the wire form holds under each key.
    pub proof fn lemma_members(self)
        ensures
            self.to_wire() is Object,
            lookup(self.to_wire()->Object_0, "target"@) == Some(JsonView::String(self.target)),
    {
        broadcast use {lemma_lookup_push, lemma_lookup_empty, lemma_with_opt};
        reveal_strlit("target");
        assert("target"@.len() == 6);
    }

    /// Decoding the wire form of a value gives the value back.
    pub proof fn lemma_round_trip(self)
        ensures
            Self::from_wire(self.to_wire()) == Ok::<JumpTargetView, DecodeErrorView>(self),
    {
        self.lemma_members();
    }

    /// The order in which the members of an object stand does not matter to what
    /// the object decodes to.
    pub proof fn lemma_member_order(
        a: Seq<(Seq<char>, JsonView)>,
        b: Seq<(Seq<char>, JsonView)>,
    )
        requires
            same_members(a, b),
        ensures
            Self::from_wire(JsonView::Object(a)) == Self::from_wire(JsonView::Object(b)),
    {
        assert(lookup(a, "target"@) == lookup(b, "target"@));
    }

    /// Where an object fails to decode, the failure names the field that it lies in:
    /// its path begins with the key of one of the fields.
    pub proof fn lemma_failure_names_field(m: Seq<(Seq<char>, JsonView)>)
        ensures
            Self::from_wire(JsonView::Object(m)) matches Err(e) ==> e.path.len() > 0 && {
                ||| e.path[0] == PathSegmentView::Key("target"@)
            },
    {
        broadcast use lemma_under_key_path;
    }
}

impl JumpTarget {
    /// Encodes the value in its wire form.
    pub fn encode(&self) -> (j: Json)
        ensures
            j.deep_view() == self.deep_view().to_wire(),
    {
        let mut m: Vec<(String, Json)> = Vec::new();
        assert(members_view(m) =~= Seq::empty());
        put(&mut m, "target", Json::String(self.target.clone()));
        Json::Object(m)
    }

    /// Decodes a wire value.
    pub fn decode(j: &Json) -> (r: Result<JumpTarget, DecodeError>)
        ensures
            decoded(r, JumpTargetView::from_wire(j.deep_view())),
    {
        match j {
            Json::Object(m) => {
                let target = match find(m, "target") {
                    Some(v) => match decode_string(v) {
                        Ok(x) => x,
                        Err(e) => return Err(e.under_key("target")),
                    },
                    None => return Err(DecodeError::missing("target")),
                };
                Ok(JumpTarget { target })
            },
            _ => Err(DecodeError::shape()),
        }
    }
}

impl Clone for JumpTarget {
    fn clone(&self) -> (r: Self)
        ensures
            r.deep_view() == self.deep_view(),
    {
        JumpTarget {
            target: self.target.clone(),
        }
    }
}

/// The operator of a match.
#[derive(Debug, Clone, Copy, PartialEq, Eq, Hash)]
pub enum Operator {
    /// Binary AND (`&`).
    AND,
    /// Binary OR (`|`).
    OR,
    /// Binary XOR (`^`).
    XOR,
    /// Left shift (`<<`).
    LSHIFT,
    /// Right shift (`>>`).
    RSHIFT,
    /// Equal (`==`).
    EQ,
    /// Not equal (`!=`).
    NEQ,
    /// Less than (`<`).
    LT,
    /// Greater than (`>`).
    GT,
    /// Less than or equal to (`<=`).
    LEQ,
    /// Greater than or equal to (`>=`).
    GEQ,
    /// Lookup in a set or a bitmask (`in`).
    IN,
}

impl Token for Operator {
    open spec fn text(self) -> Seq<char> {
        match self {
            Operator::AND => "&"@,
            Operator::OR => "|"@,
            Operator::XOR => "^"@,
            Operator::LSHIFT => "<<"@,
            Operator::RSHIFT => ">>"@,
            Operator::EQ => "=="@,
            Operator::NEQ => "!="@,
            Operator::LT => "<"@,
            Operator::GT => ">"@,
            Operator::LEQ => "<="@,
            Operator::GEQ => ">="@,
            Operator::IN => "in"@,
        }
    }

    open spec fn from_text(s: Seq<char>) -> Option<Self> {
        if s == "&"@ {
            Some(Operator::AND)
        } else if s == "|"@ {
            Some(Operator::OR)
        } else if s == "^"@ {
            Some(Operator::XOR)
        } else if s == "<<"@ {
            Some(Operator::LSHIFT)
        } else if s == ">>"@ {
            Some(Operator::RSHIFT)
        } else if s == "=="@ {
            Some(Operator::EQ)
        } else if s == "!="@ {
            Some(Operator::NEQ)
        } else if s == "<"@ {
            Some(Operator::LT)
        } else if s == ">"@ {
            Some(Operator::GT)
        } else if s == "<="@ {
            Some(Operator::LEQ)
        } else if s == ">="@ {
            Some(Operator::GEQ)
        } else if s == "in"@ {
            Some(Operator::IN)
        } else {
            None
        }
    }

    proof fn lemma_text(self) {
        reveal_strlit("&");
        reveal_strlit("|");
        reveal_strlit("^");
        reveal_strlit("<<");
        reveal_strlit(">>");
        reveal_strlit("==");
        reveal_strlit("!=");
        reveal_strlit("<");
        reveal_strlit(">");
        reveal_strlit("<=");
        reveal_strlit(">=");
        reveal_strlit("in");
        assert("&"@.len() == 1 && "&"@[0] == '&');
        assert("|"@.len() == 1 && "|"@[0] == '|');
        assert("^"@.len() == 1 && "^"@[0] == '^');
        assert("<<"@.len() == 2 && "<<"@[0] == '<' && "<<"@[1] == '<');
        assert(">>"@.len() == 2 && ">>"@[0] == '>' && ">>"@[1] == '>');
        assert("=="@.len() == 2 && "=="@[0] == '=' && "=="@[1] == '=');
        assert("!="@.len() == 2 && "!="@[0] == '!' && "!="@[1] == '=');
        assert("<"@.len() == 1 && "<"@[0] == '<');
        assert(">"@.len() == 1 && ">"@[0] == '>');
        assert("<="@.len() == 2 && "<="@[0] == '<' && "<="@[1] == '=');
        assert(">="@.len() == 2 && ">="@[0] == '>' && ">="@[1] == '=');
        assert("in"@.len() == 2 && "in"@[0] == 'i' && "in"@[1] == 'n');
    }

    proof fn lemma_from_text(s: Seq<char>) {
    }

    fn as_str(&self) -> (s: &'static str) {
        match self {
            Operator::AND => "&",
            Operator::OR => "|",
            Operator::XOR => "^",
            Operator::LSHIFT => "<<",
            Operator::RSHIFT => ">>",
            Operator::EQ => "==",
            Operator::NEQ => "!=",
            Operator::LT => "<",
            Operator::GT => ">",
            Operator::LEQ => "<=",
            Operator::GEQ => ">=",
            Operator::IN => "in",
        }
    }

    fn parse(s: &str) -> (r: Option<Self>) {
        if same_text(s, "&") {
            Some(Operator::AND)
        } else if same_text(s, "|") {
            Some(Operator::OR)
        } else if same_text(s, "^") {
            Some(Operator::XOR)
        } else if same_text(s, "<<") {
            Some(Operator::LSHIFT)
        } else if same_text(s, ">>") {
            Some(Operator::RSHIFT)
        } else if same_text(s, "==") {
            Some(Operator::EQ)
        } else if same_text(s, "!=") {
            Some(Operator::NEQ)
        } else if same_text(s, "<") {
            Some(Operator::LT)
        } else if same_text(s, ">") {
            Some(Operator::GT)
        } else if same_text(s, "<=") {
            Some(Operator::LEQ)
        } else if same_text(s, ">=") {
            Some(Operator::GEQ)
        } else if same_text(s, "in") {
            Some(Operator::IN)
        } else {
            None
        }
    }
}

/// A match of a packet against the relation of two expressions.
#[derive(Debug, PartialEq, Eq)]
pub struct Match {
    /// The left hand side, typically a reference to packet data.
    pub left: Expression,
    /// The right hand side, typically an immediate value or a set.
    pub right: Expression,
    /// The operator that relates the two sides.
    pub op: Operator,
}

/// The mathematical value of a [`Match`].
pub ghost struct MatchView {
    pub left: ExpressionView,
    pub right: ExpressionView,
    pub op: Operator,
}

impl DeepView for Match {
    type V = MatchView;

    open spec fn deep_view(&self) -> MatchView
        decreases self,
    {
        MatchView {
            left: self.left.deep_view(),
            right: self.right.deep_view(),
            op: self.op,
        }
    }
}

impl MatchView {
    /// The wire form: an object with one member for each field that has a value.
    pub open spec fn to_wire(self) -> JsonView
        decreases self, 0nat,
    {
        let m = Seq::empty();
        let m = m.push(("left"@, self.left.to_wire()));
        let m = m.push(("right"@, self.right.to_wire()));
        let m = m.push(("op"@, enc_token(self.op)));
        JsonView::Object(m)
    }

    /// What a wire value decodes to: the fields are read by their keys, in the order
    /// in which the type lists them, and the first that fails decides the failure.
    pub open spec fn from_wire(j: JsonView) -> Result<MatchView, DecodeErrorView>
        decreases j, 0nat,
    {
        match j {
            JsonView::Object(m) => {
                let left = match lookup(m, "left"@) {
                    Some(v) => at_key(ExpressionView::from_wire(v), "left"@),
                    None => Err(DecodeErrorView::missing("left"@)),
                };
                let right = match lookup(m, "right"@) {
                    Some(v) => at_key(ExpressionView::from_wire(v), "right"@),
                    None => Err(DecodeErrorView::missing("right"@)),
                };
                let op = match lookup(m, "op"@) {
                    Some(v) => at_key(dec_token::<Operator>(v), "op"@),
                    None => Err(DecodeErrorView::missing("op"@)),
                };
                if left is Err {
                    Err(left->Err_0)
                } else if right is Err {
                    Err(right->Err_0)
                } else if op is Err {
                    Err(op->Err_0)
                } else {
                    Ok(MatchView { left: left->Ok_0, right: right->Ok_0, op: op->Ok_0 })
                }
            },
            _ => Err(DecodeErrorView::shape()),
        }
    }

    /// Whether decoding the wire form gives this value back.
    pub open spec fn canonical(self) -> bool
        decreases self,
    {
        &&& self.left.canonical()
        &&& self.right.canonical()
    }

    /// What the wire form holds under each key.
    pub proof fn lemma_members(self)
        ensures
            self.to_wire() is Object,
            lookup(self.to_wire()->Object_0, "left"@) == Some(self.left.to_wire()),
            lookup(self.to_wire()->Object_0, "right"@) == Some(self.right.to_wire()),
            lookup(self.to_wire()->Object_0, "op"@) == Some(enc_token(self.op)),
    {
        broadcast use {lemma_lookup_push, lemma_lookup_empty, lemma_with_opt};
        reveal_strlit("left");
        reveal_strlit("right");
        reveal_strlit("op");
        assert("left"@.len() == 4);
        assert("right"@.len() == 5);
        assert("op"@.len() == 2);
    }

    /// Decoding the wire form of a value gives the value back.
    pub proof fn lemma_round_trip(self)
        requires
            self.canonical(),
        ensures
            Self::from_wire(self.to_wire()) == Ok::<MatchView, DecodeErrorView>(self),
        decreases self, 0nat,
    {
        self.lemma_members();
        self.left.lemma_round_trip();
        self.left.lemma_not_null();
        self.right.lemma_round_trip();
        self.right.lemma_not_null();
        lemma_token_round_trip(self.op);
    }

    /// The order in which the members of an object stand does not matter to what
    /// the object decodes to.
    pub proof fn lemma_member_order(
        a: Seq<(Seq<char>, JsonView)>,
        b: Seq<(Seq<char>, JsonView)>,
    )
        requires
            same_members(a, b),
        ensures
            Self::from_wire(JsonView::Object(a)) == Self::from_wire(JsonView::Object(b)),
    {
        assert(lookup(a, "left"@) == lookup(b, "left"@));
        assert(lookup(a, "right"@) == lookup(b, "right"@));
        assert(lookup(a, "op"@) == lookup(b, "op"@));
    }

    /// Where an object fails to decode, the failure names the field that it lies in:
    /// its path begins with the key of one of the fields.
    pub proof fn lemma_failure_names_field(m: Seq<(Seq<char>, JsonView)>)
        ensures
            Self::from_wire(JsonView::Object(m)) matches Err(e) ==> e.path.len() > 0 && {
                ||| e.path[0] == PathSegmentView::Key("left"@)
                ||| e.path[0] == PathSegmentView::Key("right"@)
                ||| e.path[0] == PathSegmentView::Key("op"@)
            },
    {
        broadcast use lemma_under_key_path;
    }
}

impl Match {
    /// Encodes the value in its wire form.
    pub fn encode(&self) -> (j: Json)
        ensures
            j.deep_view() == self.deep_view().to_wire(),
        decreases self,
    {
        let mut m: Vec<(String, Json)> = Vec::new();
        assert(members_view(m) =~= Seq::empty());
        put(&mut m, "left", self.left.encode());
        put(&mut m, "right", self.right.encode());
        put(&mut m, "op", encode_token(&self.op));
        Json::Object(m)
    }

    /// Decodes a wire value.
    pub fn decode(j: &Json) -> (r: Result<Match, DecodeError>)
        ensures
            decoded(r, MatchView::from_wire(j.deep_view())),
        decreases j, 0nat,
    {
        match j {
            Json::Object(m) => {
                let left = match find(m, "left") {
                    Some(v) => match Expression::decode(v) {
                        Ok(x) => x,
                        Err(e) => return Err(e.under_key("left")),
                    },
                    None => return Err(DecodeError::missing("left")),
                };
                let right = match find(m, "right") {
                    Some(v) => match Expression::decode(v) {
                        Ok(x) => x,
                        Err(e) => return Err(e.under_key("right")),
                    },
                    None => return Err(DecodeError::missing("right")),
                };
                let op = match find(m, "op") {
                    Some(v) => match decode_token::<Operator>(v) {
                        Ok(x) => x,
                        Err(e) => return Err(e.under_key("op")),
                    },
                    None => return Err(DecodeError::missing("op")),
                };
                Ok(Match { left, right, op })
            },
            _ => Err(DecodeError::shape()),
        }
    }
}

impl Clone for Match {
    fn clone(&self) -> (r: Self)
        ensures
            r.deep_view() == self.deep_view(),
        decreases self,
    {
        Match {
            left: self.left.clone(),
            right: self.right.clone(),
            op: self.op,
        }
    }
}

/// The state of an anonymous counter.
#[derive(Debug, Clone, Copy, PartialEq, Eq)]
pub struct AnonymousCounter {
    /// The number of packets counted; written as `0` where unset.
    pub packets: Option<u64>,
    /// The number of bytes counted; written as `0` where unset.
    pub bytes: Option<u64>,
}

impl DeepView for AnonymousCounter {
    type V = AnonymousCounter;

    open spec fn deep_view(&self) -> AnonymousCounter {
        *self
    }
}

impl AnonymousCounter {
    /// The wire form: an object with both counts, an unset one written as zero.
    pub open spec fn to_wire(self) -> JsonView {
        let m = Seq::empty();
        let m = m.push(("packets"@, enc_none_to_zero(self.packets)));
        let m = m.push(("bytes"@, enc_none_to_zero(self.bytes)));
        JsonView::Object(m)
    }

    /// What a wire value decodes to: each count is read by its key, and may be absent.
    pub open spec fn from_wire(j: JsonView) -> Result<AnonymousCounter, DecodeErrorView> {
        match j {
            JsonView::Object(m) => {
                let packets = match optional(m, "packets"@) {
                    Some(v) => at_key(some(dec_u64(v)), "packets"@),
                    None => Ok(None),
                };
                let bytes = match optional(m, "bytes"@) {
                    Some(v) => at_key(some(dec_u64(v)), "bytes"@),
                    None => Ok(None),
                };
                if packets is Err {
                    Err(packets->Err_0)
                } else if bytes is Err {
                    Err(bytes->Err_0)
                } else {
                    Ok(AnonymousCounter { packets: packets->Ok_0, bytes: bytes->Ok_0 })
                }
            },
            _ => Err(DecodeErrorView::shape()),
        }
    }

    /// Whether decoding the wire form gives this value back: both counts are set, since an
    /// unset one is written as zero and so reads back as zero.
    pub open spec fn canonical(self) -> bool {
        self.packets is Some && self.bytes is Some
    }

    /// What decoding the wire form of a counter gives: the counter with each unset count
    /// taken as zero.
    pub proof fn lemma_round_trip_zeroed(self)
        ensures
            Self::from_wire(self.to_wire()) == Ok::<AnonymousCounter, DecodeErrorView>(
                AnonymousCounter {
                    packets: Some(
                        match self.packets {
                            Some(n) => n,
                            None => 0,
                        },
                    ),
                    bytes: Some(
                        match self.bytes {
                            Some(n) => n,
                            None => 0,
                        },
                    ),
                },
            ),
    {
        broadcast use {lemma_lookup_push, lemma_lookup_empty};
        reveal_strlit("packets");
        reveal_strlit("bytes");
        assert("packets"@.len() == 7);
        assert("bytes"@.len() == 5);
    }

    /// Decoding the wire form of a canonical counter gives the counter back.
    pub proof fn lemma_round_trip(self)
        requires
            self.canonical(),
        ensures
            Self::from_wire(self.to_wire()) == Ok::<AnonymousCounter, DecodeErrorView>(self),
    {
        self.lemma_round_trip_zeroed();
    }

    /// Encodes the counter in its wire form.
    pub fn encode(&self) -> (j: Json)
        ensures
            j.deep_view() == self.deep_view().to_wire(),
    {
        let mut m: Vec<(String, Json)> = Vec::new();
        assert(members_view(m) =~= Seq::empty());
        put(&mut m, "packets", serialize_none_to_zero(&self.packets));
        put(&mut m, "bytes", serialize_none_to_zero(&self.bytes));
        Json::Object(m)
    }

    /// Decodes a wire value.
    pub fn decode(j: &Json) -> (r: Result<AnonymousCounter, DecodeError>)
        ensures
            decoded(r, AnonymousCounter::from_wire(j.deep_view())),
    {
        match j {
            Json::Object(m) => {
                let packets = match present(m, "packets") {
                    Some(v) => match decode_u64(v) {
                        Ok(x) => Some(x),
                        Err(e) => return Err(e.under_key("packets")),
                    },
                    None => None,
                };
                let bytes = match present(m, "bytes") {
                    Some(v) => match decode_u64(v) {
                        Ok(x) => Some(x),
                        Err(e) => return Err(e.under_key("bytes")),
                    },
                    None => None,
                };
                Ok(AnonymousCounter { packets, bytes })
            },
            _ => Err(DecodeError::shape()),
        }
    }
}

/// A counter: a named one, referred to by its name, or an anonymous one with its state.
#[derive(Debug, PartialEq, Eq)]
pub enum Counter {
    /// A named counter.
    Named(String),
    /// An anonymous counter, with its state where that is given.
    Anonymous(Option<AnonymousCounter>),
}

/// The mathematical value of a [`Counter`].
pub ghost enum CounterView {
    Named(Seq<char>),
    Anonymous(Option<AnonymousCounter>),
}

impl DeepView for Counter {
    type V = CounterView;

    open spec fn deep_view(&self) -> CounterView {
        match self {
            Counter::Named(s) => CounterView::Named(s@),
            Counter::Anonymous(c) => CounterView::Anonymous(*c),
        }
    }
}

impl CounterView {
    /// The wire form: a named counter is its name, an anonymous one its state, or `null`
    /// where it has none.
    pub open spec fn to_wire(self) -> JsonView {
        match self {
            CounterView::Named(s) => JsonView::String(s),
            CounterView::Anonymous(Some(c)) => c.to_wire(),
            CounterView::Anonymous(None) => JsonView::Null,
        }
    }

    /// What a wire value decodes to: a string names a counter, `null` is an anonymous
    /// counter without state, and anything else is read as the state of an anonymous one.
    pub open spec fn from_wire(j: JsonView) -> Result<CounterView, DecodeErrorView> {
        match j {
            JsonView::String(s) => Ok(CounterView::Named(s)),
            JsonView::Null => Ok(CounterView::Anonymous(None)),
            _ => match AnonymousCounter::from_wire(j) {
                Ok(c) => Ok(CounterView::Anonymous(Some(c))),
                Err(e) => Err(e),
            },
        }
    }

    /// Whether decoding the wire form gives this value back.
    pub open spec fn canonical(self) -> bool {
        match self {
            CounterView::Anonymous(Some(c)) => c.canonical(),
            _ => true,
        }
    }

    /// Decoding the wire form of a canonical counter gives the counter back.
    pub proof fn lemma_round_trip(self)
        requires
            self.canonical(),
        ensures
            Self::from_wire(self.to_wire()) == Ok::<CounterView, DecodeErrorView>(self),
    {
        match self {
            CounterView::Anonymous(Some(c)) => {
                c.lemma_round_trip();
            },
            _ => {},
        }
    }
}

impl Clone for Counter {
    fn clone(&self) -> (r: Self)
        ensures
            r.deep_view() == self.deep_view(),
    {
        match self {
            Counter::Named(s) => Counter::Named(s.clone()),
            Counter::Anonymous(c) => Counter::Anonymous(*c),
        }
    }
}

impl Counter {
    /// Encodes the counter in its wire form.
    pub fn encode(&self) -> (j: Json)
        ensures
            j.deep_view() == self.deep_view().to_wire(),
    {
        match self {
            Counter::Named(s) => Json::String(s.clone()),
            Counter::Anonymous(Some(c)) => c.encode(),
            Counter::Anonymous(None) => Json::Null,
        }
    }

    /// Decodes a wire value by its shape.
    pub fn decode(j: &Json) -> (r: Result<Counter, DecodeError>)
        ensures
            decoded(r, CounterView::from_wire(j.deep_view())),
    {
        match j {
            Json::String(s) => Ok(Counter::Named(s.clone())),
            Json::Null => Ok(Counter::Anonymous(None)),
            _ => match AnonymousCounter::decode(j) {
                Ok(c) => Ok(Counter::Anonymous(Some(c))),
                Err(e) => Err(e),
            },
        }
    }
}

/// A change of packet data or meta information.
#[derive(Debug, PartialEq, Eq)]
pub struct Mangle {
    /// What to change: a reference to packet data or meta information.
    pub key: Expression,
    /// The value to set.
    pub value: Expression,
}

/// The mathematical value of a [`Mangle`].
pub ghost struct MangleView {
    pub key: ExpressionView,
    pub value: ExpressionView,
}

impl DeepView for Mangle {
    type V = MangleView;

    open spec fn deep_view(&self) -> MangleView
        decreases self,
    {
        MangleView {
            key: self.key.deep_view(),
            value: self.value.deep_view(),
        }
    }
}

impl MangleView {
    /// The wire form: an object with one member for each field that has a value.
    pub open spec fn to_wire(self) -> JsonView
        decreases self, 0nat,
    {
        let m = Seq::empty();
        let m = m.push(("key"@, self.key.to_wire()));
        let m = m.push(("value"@, self.value.to_wire()));
        JsonView::Object(m)
    }

    /// What a wire value decodes to: the fields are read by their keys, in the order
    /// in which the type lists them, and the first that fails decides the failure.
    pub open spec fn from_wire(j: JsonView) -> Result<MangleView, DecodeErrorView>
        decreases j, 0nat,
    {
        match j {
            JsonView::Object(m) => {
                let key = match lookup(m, "key"@) {
                    Some(v) => at_key(ExpressionView::from_wire(v), "key"@),
                    None => Err(DecodeErrorView::missing("key"@)),
                };
                let value = match lookup(m, "value"@) {
                    Some(v) => at_key(ExpressionView::from_wire(v), "value"@),
                    None => Err(DecodeErrorView::missing("value"@)),
                };
                if key is Err {
                    Err(key->Err_0)
                } else if value is Err {
                    Err(value->Err_0)
                } else {
                    Ok(MangleView { key: key->Ok_0, value: value->Ok_0 })
                }
            },
            _ => Err(DecodeErrorView::shape()),
        }
    }

    /// Whether decoding the wire form gives this value back.
    pub open spec fn canonical(self) -> bool
        decreases self,
    {
        &&& self.key.canonical()
        &&& self.value.canonical()
    }

    /// What the wire form holds under each key.
    pub proof fn lemma_members(self)
        ensures
            self.to_wire() is Object,
            lookup(self.to_wire()->Object_0, "key"@) == Some(self.key.to_wire()),
            lookup(self.to_wire()->Object_0, "value"@) == Some(self.value.to_wire()),
    {
        broadcast use {lemma_lookup_push, lemma_lookup_empty, lemma_with_opt};
        reveal_strlit("key");
        reveal_strlit("value");
        assert("key"@.len() == 3);
        assert("value"@.len() == 5);
    }

    /// Decoding the wire form of a value gives the value back.
    pub proof fn lemma_round_trip(self)
        requires
            self.canonical(),
        ensures
            Self::from_wire(self.to_wire()) == Ok::<MangleView, DecodeErrorView>(self),
        decreases self, 0nat,
    {
        self.lemma_members();
        self.key.lemma_round_trip();
        self.key.lemma_not_null();
        self.value.lemma_round_trip();
        self.value.lemma_not_null();
    }

    /// The order in which the members of an object stand does not matter to what
    /// the object decodes to.
    pub proof fn lemma_member_order(
        a: Seq<(Seq<char>, JsonView)>,
        b: Seq<(Seq<char>, JsonView)>,
    )
        requires
            same_members(a, b),
        ensures
            Self::from_wire(JsonView::Object(a)) == Self::from_wire(JsonView::Object(b)),
    {
        assert(lookup(a, "key"@) == lookup(b, "key"@));
        assert(lookup(a, "value"@) == lookup(b, "value"@));
    }

    /// Where an object fails to decode, the failure names the field that it lies in:
    /// its path begins with the key of one of the fields.
    pub proof fn lemma_failure_names_field(m: Seq<(Seq<char>, JsonView)>)
        ensures
            Self::from_wire(JsonView::Object(m)) matches Err(e) ==> e.path.len() > 0 && {
                ||| e.path[0] == PathSegmentView::Key("key"@)
                ||| e.path[0] == PathSegmentView::Key("value"@)
            },
    {
        broadcast use lemma_under_key_path;
    }
}

impl Mangle {
    /// Encodes the value in its wire form.
    pub fn encode(&self) -> (j: Json)
        ensures
            j.deep_view() == self.deep_view().to_wire(),
        decreases self,
    {
        let mut m: Vec<(String, Json)> = Vec::new();
        assert(members_view(m) =~= Seq::empty());
        put(&mut m, "key", self.key.encode());
        put(&mut m, "value", self.value.encode());
        Json::Object(m)
    }

    /// Decodes a wire value.
    pub fn decode(j: &Json) -> (r: Result<Mangle, DecodeError>)
        ensures
            decoded(r, MangleView::from_wire(j.deep_view())),
        decreases j, 0nat,
    {
        match j {
            Json::Object(m) => {
                let key = match find(m, "key") {
                    Some(v) => match Expression::decode(v) {
                        Ok(x) => x,
                        Err(e) => return Err(e.under_key("key")),
                    },
                    None => return Err(DecodeError::missing("key")),
                };
                let value = match find(m, "value") {
                    Some(v) => match Expression::decode(v) {
                        Ok(x) => x,
                        Err(e) => return Err(e.under_key("value")),
                    },
                    None => return Err(DecodeError::missing("value")),
                };
                Ok(Mangle { key, value })
            },
            _ => Err(DecodeError::shape()),
        }
    }
}

impl Clone for Mangle {
    fn clone(&self) -> (r: Self)
        ensures
            r.deep_view() == self.deep_view(),
        decreases self,
    {
        Mangle {
            key: self.key.clone(),
            value: self.value.clone(),
        }
    }
}

/// An anonymous quota.
#[derive(Debug, PartialEq, Eq)]
pub struct Quota {
    /// The quota value.
    pub val: u32,
    /// The unit of the value, such as `bytes` or `mbytes`.
    pub val_unit: String,
    /// What is used of the quota already.
    pub used: Option<u32>,
    /// The unit of the used value.
    pub used_unit: Option<String>,
    /// Whether the statement matches once the quota is exceeded.
    pub inv: Option<bool>,
}

/// The mathematical value of a [`Quota`].
pub ghost struct QuotaView {
    pub val: u32,
    pub val_unit: Seq<char>,
    pub used: Option<u32>,
    pub used_unit: Option<Seq<char>>,
    pub inv: Option<bool>,
}

impl DeepView for Quota {
    type V = QuotaView;

    open spec fn deep_view(&self) -> QuotaView {
        QuotaView {
            val: self.val,
            val_unit: self.val_unit@,
            used: self.used,
            used_unit: match self.used_unit {
                Some(x) => Some(x@),
                None => None,
            },
            inv: self.inv,
        }
    }
}

impl QuotaView {
    /// The wire form: an object with one member for each field that has a value.
    pub open spec fn to_wire(self) -> JsonView {
        let m = Seq::empty();
        let m = m.push(("val"@, JsonView::Number(self.val as int)));
        let m = m.push(("val_unit"@, JsonView::String(self.val_unit)));
        let m = with_opt(
            m,
            "used"@,
            match self.used {
                Some(v) => Some(JsonView::Number(v as int)),
                None => None,
            },
        );
        let m = with_opt(
            m,
            "used_unit"@,
            match self.used_unit {
                Some(v) => Some(JsonView::String(v)),
                None => None,
            },
        );
        let m = with_opt(
            m,
            "inv"@,
            match self.inv {
                Some(v) => Some(JsonView::Bool(v)),
                None => None,
            },
        );
        JsonView::Object(m)
    }

    /// What a wire value decodes to: the fields are read by their keys, in the order
    /// in which the type lists them, and the first that fails decides the failure.
    pub open spec fn from_wire(j: JsonView) -> Result<QuotaView, DecodeErrorView> {
        match j {
            JsonView::Object(m) => {
                let val = match lookup(m, "val"@) {
                    Some(v) => at_key(dec_u32(v), "val"@),
                    None => Err(DecodeErrorView::missing("val"@)),
                };
                let val_unit = match lookup(m, "val_unit"@) {
                    Some(v) => at_key(dec_string(v), "val_unit"@),
                    None => Err(DecodeErrorView::missing("val_unit"@)),
                };
                let used = match optional(m, "used"@) {
                    Some(v) => at_key(some(dec_u32(v)), "used"@),
                    None => Ok(None),
                };
                let used_unit = match optional(m, "used_unit"@) {
                    Some(v) => at_key(some(dec_string(v)), "used_unit"@),
                    None => Ok(None),
                };
                let inv = match optional(m, "inv"@) {
                    Some(v) => at_key(some(dec_bool(v)), "inv"@),
                    None => Ok(None),
                };
                if val is Err {
                    Err(val->Err_0)
                } else if val_unit is Err {
                    Err(val_unit->Err_0)
                } else if used is Err {
                    Err(used->Err_0)
                } else if used_unit is Err {
                    Err(used_unit->Err_0)
                } else if inv is Err {
                    Err(inv->Err_0)
                } else {
                    Ok(
                        QuotaView {
                            val: val->Ok_0,
                            val_unit: val_unit->Ok_0,
                            used: used->Ok_0,
                            used_unit: used_unit->Ok_0,
                            inv: inv->Ok_0,
                        },
                    )
                }
            },
            _ => Err(DecodeErrorView::shape()),
        }
    }

    /// What the wire form holds under each key.
    pub proof fn lemma_members(self)
        ensures
            self.to_wire() is Object,
            lookup(self.to_wire()->Object_0, "val"@) == Some(JsonView::Number(self.val as int)),
            lookup(self.to_wire()->Object_0, "val_unit"@) == Some(JsonView::String(self.val_unit)),
            lookup(self.to_wire()->Object_0, "used"@) == match self.used {
                Some(v) => Some(JsonView::Number(v as int)),
                None => None,
            },
            lookup(self.to_wire()->Object_0, "used_unit"@) == match self.used_unit {
                Some(v) => Some(JsonView::String(v)),
                None => None,
            },
            lookup(self.to_wire()->Object_0, "inv"@) == match self.inv {
                Some(v) => Some(JsonView::Bool(v)),
                None => None,
            },
    {
        broadcast use {lemma_lookup_push, lemma_lookup_empty, lemma_with_opt};
        reveal_strlit("val");
        reveal_strlit("val_unit");
        reveal_strlit("used");
        reveal_strlit("used_unit");
        reveal_strlit("inv");
        assert("val"@.len() == 3 && "val"@[0] == 'v');
        assert("val_unit"@.len() == 8);
        assert("used"@.len() == 4);
        assert("used_unit"@.len() == 9);
        assert("inv"@.len() == 3 && "inv"@[0] == 'i');
    }

    /// Decoding the wire form of a value gives the value back.
    pub proof fn lemma_round_trip(self)
        ensures
            Self::from_wire(self.to_wire()) == Ok::<QuotaView, DecodeErrorView>(self),
    {
        self.lemma_members();
    }

    /// The order in which the members of an object stand does not matter to what
    /// the object decodes to.
    pub proof fn lemma_member_order(
        a: Seq<(Seq<char>, JsonView)>,
        b: Seq<(Seq<char>, JsonView)>,
    )
        requires
            same_members(a, b),
        ensures
            Self::from_wire(JsonView::Object(a)) == Self::from_wire(JsonView::Object(b)),
    {
        assert(lookup(a, "val"@) == lookup(b, "val"@));
        assert(lookup(a, "val_unit"@) == lookup(b, "val_unit"@));
        assert(lookup(a, "used"@) == lookup(b, "used"@));
        assert(lookup(a, "used_unit"@) == lookup(b, "used_unit"@));
        assert(lookup(a, "inv"@) == lookup(b, "inv"@));
    }

    /// Where an object fails to decode, the failure names the field that it lies in:
    /// its path begins with the key of one of the fields.
    pub proof fn lemma_failure_names_field(m: Seq<(Seq<char>, JsonView)>)
        ensures
            Self::from_wire(JsonView::Object(m)) matches Err(e) ==> e.path.len() > 0 && {
                ||| e.path[0] == PathSegmentView::Key("val"@)
                ||| e.path[0] == PathSegmentView::Key("val_unit"@)
                ||| e.path[0] == PathSegmentView::Key("used"@)
                ||| e.path[0] == PathSegmentView::Key("used_unit"@)
                ||| e.path[0] == PathSegmentView::Key("inv"@)
            },
    {
        broadcast use lemma_under_key_path;
    }
}

impl Quota {
    /// Encodes the value in its wire form.
    pub fn encode(&self) -> (j: Json)
        ensures
            j.deep_view() == self.deep_view().to_wire(),
    {
        let mut m: Vec<(String, Json)> = Vec::new();
        assert(members_view(m) =~= Seq::empty());
        put(&mut m, "val", Json::Number(self.val as i128));
        put(&mut m, "val_unit", Json::String(self.val_unit.clone()));
        match &self.used {
            Some(v) => put(&mut m, "used", Json::Number(*v as i128)),
            None => {},
        }
        match &self.used_unit {
            Some(v) => put(&mut m, "used_unit", Json::String(v.clone())),
            None => {},
        }
        match &self.inv {
            Some(v) => put(&mut m, "inv", Json::Bool(*v)),
            None => {},
        }
        Json::Object(m)
    }

    /// Decodes a wire value.
    pub fn decode(j: &Json) -> (r: Result<Quota, DecodeError>)
        ensures
            decoded(r, QuotaView::from_wire(j.deep_view())),
    {
        match j {
            Json::Object(m) => {
                let val = match find(m, "val") {
                    Some(v) => match decode_u32(v) {
                        Ok(x) => x,
                        Err(e) => return Err(e.under_key("val")),
                    },
                    None => return Err(DecodeError::missing("val")),
                };
                let val_unit = match find(m, "val_unit") {
                    Some(v) => match decode_string(v) {
                        Ok(x) => x,
                        Err(e) => return Err(e.under_key("val_unit")),
                    },
                    None => return Err(DecodeError::missing("val_unit")),
                };
                let used = match present(m, "used") {
                    Some(v) => match decode_u32(v) {
                        Ok(x) => Some(x),
                        Err(e) => return Err(e.under_key("used")),
                    },
                    None => None,
                };
                let used_unit = match present(m, "used_unit") {
                    Some(v) => match decode_string(v) {
                        Ok(x) => Some(x),
                        Err(e) => return Err(e.under_key("used_unit")),
                    },
                    None => None,
                };
                let inv = match present(m, "inv") {
                    Some(v) => match decode_bool(v) {
                        Ok(x) => Some(x),
                        Err(e) => return Err(e.under_key("inv")),
                    },
                    None => None,
                };
                Ok(Quota { val, val_unit, used, used_unit, inv })
            },
            _ => Err(DecodeError::shape()),
        }
    }
}

impl Clone for Quota {
    fn clone(&self) -> (r: Self)
        ensures
            r.deep_view() == self.deep_view(),
    {
        Quota {
            val: self.val,
            val_unit: self.val_unit.clone(),
            used: self.used,
            used_unit: match &self.used_unit {
                Some(x) => Some(x.clone()),
                None => None,
            },
            inv: self.inv,
        }
    }
}

/// A quota: an anonymous one with its limits, or a named one, referred to by its name.
#[derive(Debug, PartialEq, Eq)]
pub enum QuotaOrQuotaRef {
    /// An anonymous quota.
    Quota(Quota),
    /// A reference to a named quota.
    QuotaRef(String),
}

/// The mathematical value of a [`QuotaOrQuotaRef`].
pub ghost enum QuotaOrQuotaRefView {
    Quota(QuotaView),
    QuotaRef(Seq<char>),
}

impl DeepView for QuotaOrQuotaRef {
    type V = QuotaOrQuotaRefView;

    open spec fn deep_view(&self) -> QuotaOrQuotaRefView {
        match self {
            QuotaOrQuotaRef::Quota(q) => QuotaOrQuotaRefView::Quota(q.deep_view()),
            QuotaOrQuotaRef::QuotaRef(s) => QuotaOrQuotaRefView::QuotaRef(s@),
        }
    }
}

impl QuotaOrQuotaRefView {
    /// The wire form: an anonymous quota is its object, a named one its name.
    pub open spec fn to_wire(self) -> JsonView {
        match self {
            QuotaOrQuotaRefView::Quota(q) => q.to_wire(),
            QuotaOrQuotaRefView::QuotaRef(s) => JsonView::String(s),
        }
    }

    /// What a wire value decodes to: a string names a quota, anything else is read as an
    /// anonymous quota.
    pub open spec fn from_wire(j: JsonView) -> Result<QuotaOrQuotaRefView, DecodeErrorView> {
        match j {
            JsonView::String(s) => Ok(QuotaOrQuotaRefView::QuotaRef(s)),
            _ => match QuotaView::from_wire(j) {
                Ok(q) => Ok(QuotaOrQuotaRefView::Quota(q)),
                Err(e) => Err(e),
            },
        }
    }

    /// Decoding the wire form of a quota gives the quota back.
    pub proof fn lemma_round_trip(self)
        ensures
            Self::from_wire(self.to_wire()) == Ok::<QuotaOrQuotaRefView, DecodeErrorView>(self),
    {
        match self {
            QuotaOrQuotaRefView::Quota(q) => {
                q.lemma_round_trip();
            },
            _ => {},
        }
    }
}

impl Clone for QuotaOrQuotaRef {
    fn clone(&self) -> (r: Self)
        ensures
            r.deep_view() == self.deep_view(),
    {
        match self {
            QuotaOrQuotaRef::Quota(q) => QuotaOrQuotaRef::Quota(q.clone()),
            QuotaOrQuotaRef::QuotaRef(s) => QuotaOrQuotaRef::QuotaRef(s.clone()),
        }
    }
}

impl QuotaOrQuotaRef {
    /// Encodes the quota in its wire form.
    pub fn encode(&self) -> (j: Json)
        ensures
            j.deep_view() == self.deep_view().to_wire(),
    {
        match self {
            QuotaOrQuotaRef::Quota(q) => q.encode(),
            QuotaOrQuotaRef::QuotaRef(s) => Json::String(s.clone()),
        }
    }

    /// Decodes a wire value by its shape.
    pub fn decode(j: &Json) -> (r: Result<QuotaOrQuotaRef, DecodeError>)
        ensures
            decoded(r, QuotaOrQuotaRefView::from_wire(j.deep_view())),
    {
        match j {
            Json::String(s) => Ok(QuotaOrQuotaRef::QuotaRef(s.clone())),
            _ => match Quota::decode(j) {
                Ok(q) => Ok(QuotaOrQuotaRef::Quota(q)),
                Err(e) => Err(e),
            },
        }
    }
}

/// A limit on the rate of packets or bytes.
#[derive(Debug, PartialEq, Eq)]
pub struct Limit {
    /// The rate.
    pub rate: u32,
    /// The unit of the rate, such as `packets` or `mbytes`; packets where absent.
    pub rate_unit: Option<String>,
    /// The time unit of the rate, such as `second` or `hour`.
    pub per: Option<String>,
    /// The burst that is allowed above the rate.
    pub burst: Option<u32>,
    /// The unit of the burst.
    pub burst_unit: Option<String>,
    /// Whether the statement matches once the limit is exceeded.
    pub inv: Option<bool>,
}

/// The mathematical value of a [`Limit`].
pub ghost struct LimitView {
    pub rate: u32,
    pub rate_unit: Option<Seq<char>>,
    pub per: Option<Seq<char>>,
    pub burst: Option<u32>,
    pub burst_unit: Option<Seq<char>>,
    pub inv: Option<bool>,
}

impl DeepView for Limit {
    type V = LimitView;

    open spec fn deep_view(&self) -> LimitView {
        LimitView {
            rate: self.rate,
            rate_unit: match self.rate_unit {
                Some(x) => Some(x@),
                None => None,
            },
            per: match self.per {
                Some(x) => Some(x@),
                None => None,
            },
            burst: self.burst,
            burst_unit: match self.burst_unit {
                Some(x) => Some(x@),
                None => None,
            },
            inv: self.inv,
        }
    }
}

impl LimitView {
    /// The wire form: an object with one member for each field that has a value.
    pub open spec fn to_wire(self) -> JsonView {
        let m = Seq::empty();
        let m = m.push(("rate"@, JsonView::Number(self.rate as int)));
        let m = with_opt(
            m,
            "rate_unit"@,
            match self.rate_unit {
                Some(v) => Some(JsonView::String(v)),
                None => None,
            },
        );
        let m = with_opt(
            m,
            "per"@,
            match self.per {
                Some(v) => Some(JsonView::String(v)),
                None => None,
            },
        );
        let m = with_opt(
            m,
            "burst"@,
            match self.burst {
                Some(v) => Some(JsonView::Number(v as int)),
                None => None,
            },
        );
        let m = with_opt(
            m,
            "burst_unit"@,
            match self.burst_unit {
                Some(v) => Some(JsonView::String(v)),
                None => None,
            },
        );
        let m = with_opt(
            m,
            "inv"@,
            match self.inv {
                Some(v) => Some(JsonView::Bool(v)),
                None => None,
            },
        );
        JsonView::Object(m)
    }

    /// What a wire value decodes to: the fields are read by their keys, in the order
    /// in which the type lists them, and the first that fails decides the failure.
    pub open spec fn from_wire(j: JsonView) -> Result<LimitView, DecodeErrorView> {
        match j {
            JsonView::Object(m) => {
                let rate = match lookup(m, "rate"@) {
                    Some(v) => at_key(dec_u32(v), "rate"@),
                    None => Err(DecodeErrorView::missing("rate"@)),
                };
                let rate_unit = match optional(m, "rate_unit"@) {
                    Some(v) => at_key(some(dec_string(v)), "rate_unit"@),
                    None => Ok(None),
                };
                let per = match optional(m, "per"@) {
                    Some(v) => at_key(some(dec_string(v)), "per"@),
                    None => Ok(None),
                };
                let burst = match optional(m, "burst"@) {
                    Some(v) => at_key(some(dec_u32(v)), "burst"@),
                    None => Ok(None),
                };
                let burst_unit = match optional(m, "burst_unit"@) {
                    Some(v) => at_key(some(dec_string(v)), "burst_unit"@),
                    None => Ok(None),
                };
                let inv = match optional(m, "inv"@) {
                    Some(v) => at_key(some(dec_bool(v)), "inv"@),
                    None => Ok(None),
                };
                if rate is Err {
                    Err(rate->Err_0)
                } else if rate_unit is Err {
                    Err(rate_unit->Err_0)
                } else if per is Err {
                    Err(per->Err_0)
                } else if burst is Err {
                    Err(burst->Err_0)
                } else if burst_unit is Err {
                    Err(burst_unit->Err_0)
                } else if inv is Err {
                    Err(inv->Err_0)
                } else {
                    Ok(
                        LimitView {
                            rate: rate->Ok_0,
                            rate_unit: rate_unit->Ok_0,
                            per: per->Ok_0,
                            burst: burst->Ok_0,
                            burst_unit: burst_unit->Ok_0,
                            inv: inv->Ok_0,
                        },
                    )
                }
            },
            _ => Err(DecodeErrorView::shape()),
        }
    }

    /// What the wire form holds under each key.
    pub proof fn lemma_members(self)
        ensures
            self.to_wire() is Object,
            lookup(self.to_wire()->Object_0, "rate"@) == Some(JsonView::Number(self.rate as int)),
            lookup(self.to_wire()->Object_0, "rate_unit"@) == match self.rate_unit {
                Some(v) => Some(JsonView::String(v)),
                None => None,
            },
            lookup(self.to_wire()->Object_0, "per"@) == match self.per {
                Some(v) => Some(JsonView::String(v)),
                None => None,
            },
            lookup(self.to_wire()->Object_0, "burst"@) == match self.burst {
                Some(v) => Some(JsonView::Number(v as int)),
                None => None,
            },
            lookup(self.to_wire()->Object_0, "burst_unit"@) == match self.burst_unit {
                Some(v) => Some(JsonView::String(v)),
                None => None,
            },
            lookup(self.to_wire()->Object_0, "inv"@) == match self.inv {
                Some(v) => Some(JsonView::Bool(v)),
                None => None,
            },
    {
        broadcast use {lemma_lookup_push, lemma_lookup_empty, lemma_with_opt};
        reveal_strlit("rate");
        reveal_strlit("rate_unit");
        reveal_strlit("per");
        reveal_strlit("burst");
        reveal_strlit("burst_unit");
        reveal_strlit("inv");
        assert("rate"@.len() == 4);
        assert("rate_unit"@.len() == 9);
        assert("per"@.len() == 3 && "per"@[0] == 'p');
        assert("burst"@.len() == 5);
        assert("burst_unit"@.len() == 10);
        assert("inv"@.len() == 3 && "inv"@[0] == 'i');
    }

    /// Decoding the wire form of a value gives the value back.
    pub proof fn lemma_round_trip(self)
        ensures
            Self::from_wire(self.to_wire()) == Ok::<LimitView, DecodeErrorView>(self),
    {
        self.lemma_members();
    }

    /// The order in which the members of an object stand does not matter to what
    /// the object decodes to.
    pub proof fn lemma_member_order(
        a: Seq<(Seq<char>, JsonView)>,
        b: Seq<(Seq<char>, JsonView)>,
    )
        requires
            same_members(a, b),
        ensures
            Self::from_wire(JsonView::Object(a)) == Self::from_wire(JsonView::Object(b)),
    {
        assert(lookup(a, "rate"@) == lookup(b, "rate"@));
        assert(lookup(a, "rate_unit"@) == lookup(b, "rate_unit"@));
        assert(lookup(a, "per"@) == lookup(b, "per"@));
        assert(lookup(a, "burst"@) == lookup(b, "burst"@));
        assert(lookup(a, "burst_unit"@) == lookup(b, "burst_unit"@));
        assert(lookup(a, "inv"@) == lookup(b, "inv"@));
    }

    /// Where an object fails to decode, the failure names the field that it lies in:
    /// its path begins with the key of one of the fields.
    pub proof fn lemma_failure_names_field(m: Seq<(Seq<char>, JsonView)>)
        ensures
            Self::from_wire(JsonView::Object(m)) matches Err(e) ==> e.path.len() > 0 && {
                ||| e.path[0] == PathSegmentView::Key("rate"@)
                ||| e.path[0] == PathSegmentView::Key("rate_unit"@)
                ||| e.path[0] == PathSegmentView::Key("per"@)
                ||| e.path[0] == PathSegmentView::Key("burst"@)
                ||| e.path[0] == PathSegmentView::Key("burst_unit"@)
                ||| e.path[0] == PathSegmentView::Key("inv"@)
            },
    {
        broadcast use lemma_under_key_path;
    }
}

impl Limit {
    /// Encodes the value in its wire form.
    pub fn encode(&self) -> (j: Json)
        ensures
            j.deep_view() == self.deep_view().to_wire(),
    {
        let mut m: Vec<(String, Json)> = Vec::new();
        assert(members_view(m) =~= Seq::empty());
        put(&mut m, "rate", Json::Number(self.rate as i128));
        match &self.rate_unit {
            Some(v) => put(&mut m, "rate_unit", Json::String(v.clone())),
            None => {},
        }
        match &self.per {
            Some(v) => put(&mut m, "per", Json::String(v.clone())),
            None => {},
        }
        match &self.burst {
            Some(v) => put(&mut m, "burst", Json::Number(*v as i128)),
            None => {},
        }
        match &self.burst_unit {
            Some(v) => put(&mut m, "burst_unit", Json::String(v.clone())),
            None => {},
        }
        match &self.inv {
            Some(v) => put(&mut m, "inv", Json::Bool(*v)),
            None => {},
        }
        Json::Object(m)
    }

    /// Decodes a wire value.
    pub fn decode(j: &Json) -> (r: Result<Limit, DecodeError>)
        ensures
            decoded(r, LimitView::from_wire(j.deep_view())),
    {
        match j {
            Json::Object(m) => {
                let rate = match find(m, "rate") {
                    Some(v) => match decode_u32(v) {
                        Ok(x) => x,
                        Err(e) => return Err(e.under_key("rate")),
                    },
                    None => return Err(DecodeError::missing("rate")),
                };
                let rate_unit = match present(m, "rate_unit") {
                    Some(v) => match decode_string(v) {
                        Ok(x) => Some(x),
                        Err(e) => return Err(e.under_key("rate_unit")),
                    },
                    None => None,
                };
                let per = match present(m, "per") {
                    Some(v) => match decode_string(v) {
                        Ok(x) => Some(x),
                        Err(e) => return Err(e.under_key("per")),
                    },
                    None => None,
                };
                let burst = match present(m, "burst") {
                    Some(v) => match decode_u32(v) {
                        Ok(x) => Some(x),
                        Err(e) => return Err(e.under_key("burst")),
                    },
                    None => None,
                };
                let burst_unit = match present(m, "burst_unit") {
                    Some(v) => match decode_string(v) {
                        Ok(x) => Some(x),
                        Err(e) => return Err(e.under_key("burst_unit")),
                    },
                    None => None,
                };
                let inv = match present(m, "inv") {
                    Some(v) => match decode_bool(v) {
                        Ok(x) => Some(x),
                        Err(e) => return Err(e.under_key("inv")),
                    },
                    None => None,
                };
                Ok(Limit { rate, rate_unit, per, burst, burst_unit, inv })
            },
            _ => Err(DecodeError::shape()),
        }
    }
}

impl Clone for Limit {
    fn clone(&self) -> (r: Self)
        ensures
            r.deep_view() == self.deep_view(),
    {
        Limit {
            rate: self.rate,
            rate_unit: match &self.rate_unit {
                Some(x) => Some(x.clone()),
                None => None,
            },
            per: match &self.per {
                Some(x) => Some(x.clone()),
                None => None,
            },
            burst: self.burst,
            burst_unit: match &self.burst_unit {
                Some(x) => Some(x.clone()),
                None => None,
            },
            inv: self.inv,
        }
    }
}

/// An offload of the flow to a flow table.
#[derive(Debug, PartialEq, Eq)]
pub struct Flow {
    /// The operation on the flow table.
    pub op: SetOp,
    /// The name of the flow table.
    pub flowtable: String,
}

/// The mathematical value of a [`Flow`].
pub ghost struct FlowView {
    pub op: SetOp,
    pub flowtable: Seq<char>,
}

impl DeepView for Flow {
    type V = FlowView;

    open spec fn deep_view(&self) -> FlowView {
        FlowView {
            op: self.op,
            flowtable: self.flowtable@,
        }
    }
}

impl FlowView {
    /// The wire form: an object with one member for each field that has a value.
    pub open spec fn to_wire(self) -> JsonView {
        let m = Seq::empty();
        let m = m.push(("op"@, enc_token(self.op)));
        let m = m.push(("flowtable"@, JsonView::String(self.flowtable)));
        JsonView::Object(m)
    }

    /// What a wire value decodes to: the fields are read by their keys, in the order
    /// in which the type lists them, and the first that fails decides the failure.
    pub open spec fn from_wire(j: JsonView) -> Result<FlowView, DecodeErrorView> {
        match j {
            JsonView::Object(m) => {
                let op = match lookup(m, "op"@) {
                    Some(v) => at_key(dec_token::<SetOp>(v), "op"@),
                    None => Err(DecodeErrorView::missing("op"@)),
                };
                let flowtable = match lookup(m, "flowtable"@) {
                    Some(v) => at_key(dec_string(v), "flowtable"@),
                    None => Err(DecodeErrorView::missing("flowtable"@)),
                };
                if op is Err {
                    Err(op->Err_0)
                } else if flowtable is Err {
                    Err(flowtable->Err_0)
                } else {
                    Ok(FlowView { op: op->Ok_0, flowtable: flowtable->Ok_0 })
                }
            },
            _ => Err(DecodeErrorView::shape()),
        }
    }

    /// What the wire form holds under each key.
    pub proof fn lemma_members(self)
        ensures
            self.to_wire() is Object,
            lookup(self.to_wire()->Object_0, "op"@) == Some(enc_token(self.op)),
            lookup(self.to_wire()->Object_0, "flowtable"@) == Some(
                JsonView::String(self.flowtable),
            ),
    {
        broadcast use {lemma_lookup_push, lemma_lookup_empty, lemma_with_opt};
        reveal_strlit("op");
        reveal_strlit("flowtable");
        assert("op"@.len() == 2);
        assert("flowtable"@.len() == 9);
    }

    /// Decoding the wire form of a value gives the value back.
    pub proof fn lemma_round_trip(self)
        ensures
            Self::from_wire(self.to_wire()) == Ok::<FlowView, DecodeErrorView>(self),
    {
        self.lemma_members();
        lemma_token_round_trip(self.op);
    }

    /// The order in which the members of an object stand does not matter to what
    /// the object decodes to.
    pub proof fn lemma_member_order(
        a: Seq<(Seq<char>, JsonView)>,
        b: Seq<(Seq<char>, JsonView)>,
    )
        requires
            same_members(a, b),
        ensures
            Self::from_wire(JsonView::Object(a)) == Self::from_wire(JsonView::Object(b)),
    {
        assert(lookup(a, "op"@) == lookup(b, "op"@));
        assert(lookup(a, "flowtable"@) == lookup(b, "flowtable"@));
    }

    /// Where an object fails to decode, the failure names the field that it lies in:
    /// its path begins with the key of one of the fields.
    pub proof fn lemma_failure_names_field(m: Seq<(Seq<char>, JsonView)>)
        ensures
            Self::from_wire(JsonView::Object(m)) matches Err(e) ==> e.path.len() > 0 && {
                ||| e.path[0] == PathSegmentView::Key("op"@)
                ||| e.path[0] == PathSegmentView::Key("flowtable"@)
            },
    {
        broadcast use lemma_under_key_path;
    }
}

impl Flow {
    /// Encodes the value in its wire form.
    pub fn encode(&self) -> (j: Json)
        ensures
            j.deep_view() == self.deep_view().to_wire(),
    {
        let mut m: Vec<(String, Json)> = Vec::new();
        assert(members_view(m) =~= Seq::empty());
        put(&mut m, "op", encode_token(&self.op));
        put(&mut m, "flowtable", Json::String(self.flowtable.clone()));
        Json::Object(m)
    }

    /// Decodes a wire value.
    pub fn decode(j: &Json) -> (r: Result<Flow, DecodeError>)
        ensures
            decoded(r, FlowView::from_wire(j.deep_view())),
    {
        match j {
            Json::Object(m) => {
                let op = match find(m, "op") {
                    Some(v) => match decode_token::<SetOp>(v) {
                        Ok(x) => x,
                        Err(e) => return Err(e.under_key("op")),
                    },
                    None => return Err(DecodeError::missing("op")),
                };
                let flowtable = match find(m, "flowtable") {
                    Some(v) => match decode_string(v) {
                        Ok(x) => x,
                        Err(e) => return Err(e.under_key("flowtable")),
                    },
                    None => return Err(DecodeError::missing("flowtable")),
                };
                Ok(Flow { op, flowtable })
            },
            _ => Err(DecodeError::shape()),
        }
    }
}

impl Clone for Flow {
    fn clone(&self) -> (r: Self)
        ensures
            r.deep_view() == self.deep_view(),
    {
        Flow {
            op: self.op,
            flowtable: self.flowtable.clone(),
        }
    }
}

/// A protocol family for a forward.
#[derive(Debug, Clone, Copy, PartialEq, Eq, Hash)]
pub enum FWDFamily {
    /// IPv4.
    IP,
    /// IPv6.
    IP6,
}

impl Token for FWDFamily {
    open spec fn text(self) -> Seq<char> {
        match self {
            FWDFamily::IP => "ip"@,
            FWDFamily::IP6 => "ip6"@,
        }
    }

    open spec fn from_text(s: Seq<char>) -> Option<Self> {
        if s == "ip"@ {
            Some(FWDFamily::IP)
        } else if s == "ip6"@ {
            Some(FWDFamily::IP6)
        } else {
            None
        }
    }

    proof fn lemma_text(self) {
        reveal_strlit("ip");
        reveal_strlit("ip6");
        assert("ip"@.len() == 2);
        assert("ip6"@.len() == 3);
    }

    proof fn lemma_from_text(s: Seq<char>) {
    }

    fn as_str(&self) -> (s: &'static str) {
        match self {
            FWDFamily::IP => "ip",
            FWDFamily::IP6 => "ip6",
        }
    }

    fn parse(s: &str) -> (r: Option<Self>) {
        if same_text(s, "ip") {
            Some(FWDFamily::IP)
        } else if same_text(s, "ip6") {
            Some(FWDFamily::IP6)
        } else {
            None
        }
    }
}

/// A forward of the packet to another destination.
#[derive(Debug, PartialEq, Eq)]
pub struct FWD {
    /// The interface to forward the packet on.
    pub dev: Option<Expression>,
    /// The family of the address.
    pub family: Option<FWDFamily>,
    /// The address to forward the packet to.
    pub addr: Option<Expression>,
}

/// The mathematical value of a [`FWD`].
pub ghost struct FWDView {
    pub dev: Option<ExpressionView>,
    pub family: Option<FWDFamily>,
    pub addr: Option<ExpressionView>,
}

impl DeepView for FWD {
    type V = FWDView;

    open spec fn deep_view(&self) -> FWDView
        decreases self,
    {
        FWDView {
            dev: match self.dev {
                Some(x) => Some(x.deep_view()),
                None => None,
            },
            family: self.family,
            addr: match self.addr {
                Some(x) => Some(x.deep_view()),
                None => None,
            },
        }
    }
}

impl FWDView {
    /// The wire form: an object with one member for each field that has a value.
    pub open spec fn to_wire(self) -> JsonView
        decreases self, 0nat,
    {
        let m = Seq::empty();
        let m = with_opt(
            m,
            "dev"@,
            match self.dev {
                Some(v) => Some(v.to_wire()),
                None => None,
            },
        );
        let m = with_opt(
            m,
            "family"@,
            match self.family {
                Some(v) => Some(enc_token(v)),
                None => None,
            },
        );
        let m = with_opt(
            m,
            "addr"@,
            match self.addr {
                Some(v) => Some(v.to_wire()),
                None => None,
            },
        );
        JsonView::Object(m)
    }

    /// What a wire value decodes to: the fields are read by their keys, in the order
    /// in which the type lists them, and the first that fails decides the failure.
    pub open spec fn from_wire(j: JsonView) -> Result<FWDView, DecodeErrorView>
        decreases j, 0nat,
    {
        match j {
            JsonView::Object(m) => {
                let dev = match optional(m, "dev"@) {
                    Some(v) => at_key(some(ExpressionView::from_wire(v)), "dev"@),
                    None => Ok(None),
                };
                let family = match optional(m, "family"@) {
                    Some(v) => at_key(some(dec_token::<FWDFamily>(v)), "family"@),
                    None => Ok(None),
                };
                let addr = match optional(m, "addr"@) {
                    Some(v) => at_key(some(ExpressionView::from_wire(v)), "addr"@),
                    None => Ok(None),
                };
                if dev is Err {
                    Err(dev->Err_0)
                } else if family is Err {
                    Err(family->Err_0)
                } else if addr is Err {
                    Err(addr->Err_0)
                } else {
                    Ok(FWDView { dev: dev->Ok_0, family: family->Ok_0, addr: addr->Ok_0 })
                }
            },
            _ => Err(DecodeErrorView::shape()),
        }
    }

    /// Whether decoding the wire form gives this value back.
    pub open spec fn canonical(self) -> bool
        decreases self,
    {
        &&& (self.dev matches Some(v) ==> v.canonical())
        &&& (self.addr matches Some(v) ==> v.canonical())
    }

    /// What the wire form holds under each key.
    pub proof fn lemma_members(self)
        ensures
            self.to_wire() is Object,
            lookup(self.to_wire()->Object_0, "dev"@) == match self.dev {
                Some(v) => Some(v.to_wire()),
                None => None,
            },
            lookup(self.to_wire()->Object_0, "family"@) == match self.family {
                Some(v) => Some(enc_token(v)),
                None => None,
            },
            lookup(self.to_wire()->Object_0, "addr"@) == match self.addr {
                Some(v) => Some(v.to_wire()),
                None => None,
            },
    {
        broadcast use {lemma_lookup_push, lemma_lookup_empty, lemma_with_opt};
        reveal_strlit("dev");
        reveal_strlit("family");
        reveal_strlit("addr");
        assert("dev"@.len() == 3);
        assert("family"@.len() == 6);
        assert("addr"@.len() == 4);
    }

    /// Decoding the wire form of a value gives the value back.
    pub proof fn lemma_round_trip(self)
        requires
            self.canonical(),
        ensures
            Self::from_wire(self.to_wire()) == Ok::<FWDView, DecodeErrorView>(self),
        decreases self, 0nat,
    {
        self.lemma_members();
        match self.dev {
            Some(v) => {
                v.lemma_round_trip();
                v.lemma_not_null();
            },
            None => {},
        }
        match self.family {
            Some(v) => {
                lemma_token_round_trip(v);
            },
            None => {},
        }
        match self.addr {
            Some(v) => {
                v.lemma_round_trip();
                v.lemma_not_null();
            },
            None => {},
        }
    }

    /// The order in which the members of an object stand does not matter to what
    /// the object decodes to.
    pub proof fn lemma_member_order(
        a: Seq<(Seq<char>, JsonView)>,
        b: Seq<(Seq<char>, JsonView)>,
    )
        requires
            same_members(a, b),
        ensures
            Self::from_wire(JsonView::Object(a)) == Self::from_wire(JsonView::Object(b)),
    {
        assert(lookup(a, "dev"@) == lookup(b, "dev"@));
        assert(lookup(a, "family"@) == lookup(b, "family"@));
        assert(lookup(a, "addr"@) == lookup(b, "addr"@));
    }

    /// Where an object fails to decode, the failure names the field that it lies in:
    /// its path begins with the key of one of the fields.
    pub proof fn lemma_failure_names_field(m: Seq<(Seq<char>, JsonView)>)
        ensures
            Self::from_wire(JsonView::Object(m)) matches Err(e) ==> e.path.len() > 0 && {
                ||| e.path[0] == PathSegmentView::Key("dev"@)
                ||| e.path[0] == PathSegmentView::Key("family"@)
                ||| e.path[0] == PathSegmentView::Key("addr"@)
            },
    {
        broadcast use lemma_under_key_path;
    }
}

impl FWD {
    /// Encodes the value in its wire form.
    pub fn encode(&self) -> (j: Json)
        ensures
            j.deep_view() == self.deep_view().to_wire(),
        decreases self,
    {
        let mut m: Vec<(String, Json)> = Vec::new();
        assert(members_view(m) =~= Seq::empty());
        match &self.dev {
            Some(v) => put(&mut m, "dev", v.encode()),
            None => {},
        }
        match &self.family {
            Some(v) => put(&mut m, "family", encode_token(v)),
            None => {},
        }
        match &self.addr {
            Some(v) => put(&mut m, "addr", v.encode()),
            None => {},
        }
        Json::Object(m)
    }

    /// Decodes a wire value.
    pub fn decode(j: &Json) -> (r: Result<FWD, DecodeError>)
        ensures
            decoded(r, FWDView::from_wire(j.deep_view())),
        decreases j, 0nat,
    {
        match j {
            Json::Object(m) => {
                let dev = match present(m, "dev") {
                    Some(v) => match Expression::decode(v) {
                        Ok(x) => Some(x),
                        Err(e) => return Err(e.under_key("dev")),
                    },
                    None => None,
                };
                let family = match present(m, "family") {
                    Some(v) => match decode_token::<FWDFamily>(v) {
                        Ok(x) => Some(x),
                        Err(e) => return Err(e.under_key("family")),
                    },
                    None => None,
                };
                let addr = match present(m, "addr") {
                    Some(v) => match Expression::decode(v) {
                        Ok(x) => Some(x),
                        Err(e) => return Err(e.under_key("addr")),
                    },
                    None => None,
                };
                Ok(FWD { dev, family, addr })
            },
            _ => Err(DecodeError::shape()),
        }
    }
}

impl Clone for FWD {
    fn clone(&self) -> (r: Self)
        ensures
            r.deep_view() == self.deep_view(),
        decreases self,
    {
        FWD {
            dev: match &self.dev {
                Some(x) => Some(x.clone()),
                None => None,
            },
            family: self.family,
            addr: match &self.addr {
                Some(x) => Some(x.clone()),
                None => None,
            },
        }
    }
}

/// A duplication of the packet to another destination.
#[derive(Debug, PartialEq, Eq)]
pub struct Dup {
    /// The address to duplicate the packet to.
    pub addr: Expression,
    /// The interface to duplicate the packet on.
    pub dev: Option<Expression>,
}

/// The mathematical value of a [`Dup`].
pub ghost struct DupView {
    pub addr: ExpressionView,
    pub dev: Option<ExpressionView>,
}

impl DeepView for Dup {
    type V = DupView;

    open spec fn deep_view(&self) -> DupView
        decreases self,
    {
        DupView {
            addr: self.addr.deep_view(),
            dev: match self.dev {
                Some(x) => Some(x.deep_view()),
                None => None,
            },
        }
    }
}

impl DupView {
    /// The wire form: an object with one member for each field that has a value.
    pub open spec fn to_wire(self) -> JsonView
        decreases self, 0nat,
    {
        let m = Seq::empty();
        let m = m.push(("addr"@, self.addr.to_wire()));
        let m = with_opt(
            m,
            "dev"@,
            match self.dev {
                Some(v) => Some(v.to_wire()),
                None => None,
            },
        );
        JsonView::Object(m)
    }

    /// What a wire value decodes to: the fields are read by their keys, in the order
    /// in which the type lists them, and the first that fails decides the failure.
    pub open spec fn from_wire(j: JsonView) -> Result<DupView, DecodeErrorView>
        decreases j, 0nat,
    {
        match j {
            JsonView::Object(m) => {
                let addr = match lookup(m, "addr"@) {
                    Some(v) => at_key(ExpressionView::from_wire(v), "addr"@),
                    None => Err(DecodeErrorView::missing("addr"@)),
                };
                let dev = match optional(m, "dev"@) {
                    Some(v) => at_key(some(ExpressionView::from_wire(v)), "dev"@),
                    None => Ok(None),
                };
                if addr is Err {
                    Err(addr->Err_0)
                } else if dev is Err {
                    Err(dev->Err_0)
                } else {
                    Ok(DupView { addr: addr->Ok_0, dev: dev->Ok_0 })
                }
            },
            _ => Err(DecodeErrorView::shape()),
        }
    }

    /// Whether decoding the wire form gives this value back.
    pub open spec fn canonical(self) -> bool
        decreases self,
    {
        &&& self.addr.canonical()
        &&& (self.dev matches Some(v) ==> v.canonical())
    }

    /// What the wire form holds under each key.
    pub proof fn lemma_members(self)
        ensures
            self.to_wire() is Object,
            lookup(self.to_wire()->Object_0, "addr"@) == Some(self.addr.to_wire()),
            lookup(self.to_wire()->Object_0, "dev"@) == match self.dev {
                Some(v) => Some(v.to_wire()),
                None => None,
            },
    {
        broadcast use {lemma_lookup_push, lemma_lookup_empty, lemma_with_opt};
        reveal_strlit("addr");
        reveal_strlit("dev");
        assert("addr"@.len() == 4);
        assert("dev"@.len() == 3);
    }

    /// Decoding the wire form of a value gives the value back.
    pub proof fn lemma_round_trip(self)
        requires
            self.canonical(),
        ensures
            Self::from_wire(self.to_wire()) == Ok::<DupView, DecodeErrorView>(self),
        decreases self, 0nat,
    {
        self.lemma_members();
        self.addr.lemma_round_trip();
        self.addr.lemma_not_null();
        match self.dev {
            Some(v) => {
                v.lemma_round_trip();
                v.lemma_not_null();
            },
            None => {},
        }
    }

    /// The order in which the members of an object stand does not matter to what
    /// the object decodes to.
    pub proof fn lemma_member_order(
        a: Seq<(Seq<char>, JsonView)>,
        b: Seq<(Seq<char>, JsonView)>,
    )
        requires
            same_members(a, b),
        ensures
            Self::from_wire(JsonView::Object(a)) == Self::from_wire(JsonView::Object(b)),
    {
        assert(lookup(a, "addr"@) == lookup(b, "addr"@));
        assert(lookup(a, "dev"@) == lookup(b, "dev"@));
    }

    /// Where an object fails to decode, the failure names the field that it lies in:
    /// its path begins with the key of one of the fields.
    pub proof fn lemma_failure_names_field(m: Seq<(Seq<char>, JsonView)>)
        ensures
            Self::from_wire(JsonView::Object(m)) matches Err(e) ==> e.path.len() > 0 && {
                ||| e.path[0] == PathSegmentView::Key("addr"@)
                ||| e.path[0] == PathSegmentView::Key("dev"@)
            },
    {
        broadcast use lemma_under_key_path;
    }
}

impl Dup {
    /// Encodes the value in its wire form.
    pub fn encode(&self) -> (j: Json)
        ensures
            j.deep_view() == self.deep_view().to_wire(),
        decreases self,
    {
        let mut m: Vec<(String, Json)> = Vec::new();
        assert(members_view(m) =~= Seq::empty());
        put(&mut m, "addr", self.addr.encode());
        match &self.dev {
            Some(v) => put(&mut m, "dev", v.encode()),
            None => {},
        }
        Json::Object(m)
    }

    /// Decodes a wire value.
    pub fn decode(j: &Json) -> (r: Result<Dup, DecodeError>)
        ensures
            decoded(r, DupView::from_wire(j.deep_view())),
        decreases j, 0nat,
    {
        match j {
            Json::Object(m) => {
                let addr = match find(m, "addr") {
                    Some(v) => match Expression::decode(v) {
                        Ok(x) => x,
                        Err(e) => return Err(e.under_key("addr")),
                    },
                    None => return Err(DecodeError::missing("addr")),
                };
                let dev = match present(m, "dev") {
                    Some(v) => match Expression::decode(v) {
                        Ok(x) => Some(x),
                        Err(e) => return Err(e.under_key("dev")),
                    },
                    None => None,
                };
                Ok(Dup { addr, dev })
            },
            _ => Err(DecodeError::shape()),
        }
    }
}

impl Clone for Dup {
    fn clone(&self) -> (r: Self)
        ensures
            r.deep_view() == self.deep_view(),
        decreases self,
    {
        Dup {
            addr: self.addr.clone(),
            dev: match &self.dev {
                Some(x) => Some(x.clone()),
                None => None,
            },
        }
    }
}

/// A protocol family for an address translation.
#[derive(Debug, Clone, Copy, PartialEq, Eq, Hash)]
pub enum NATFamily {
    /// IPv4.
    IP,
    /// IPv6.
    IP6,
}

impl Token for NATFamily {
    open spec fn text(self) -> Seq<char> {
        match self {
            NATFamily::IP => "ip"@,
            NATFamily::IP6 => "ip6"@,
        }
    }

    open spec fn from_text(s: Seq<char>) -> Option<Self> {
        if s == "ip"@ {
            Some(NATFamily::IP)
        } else if s == "ip6"@ {
            Some(NATFamily::IP6)
        } else {
            None
        }
    }

    proof fn lemma_text(self) {
        reveal_strlit("ip");
        reveal_strlit("ip6");
        assert("ip"@.len() == 2);
        assert("ip6"@.len() == 3);
    }

    proof fn lemma_from_text(s: Seq<char>) {
    }

    fn as_str(&self) -> (s: &'static str) {
        match self {
            NATFamily::IP => "ip",
            NATFamily::IP6 => "ip6",
        }
    }

    fn parse(s: &str) -> (r: Option<Self>) {
        if same_text(s, "ip") {
            Some(NATFamily::IP)
        } else if same_text(s, "ip6") {
            Some(NATFamily::IP6)
        } else {
            None
        }
    }
}

/// An option of an address translation.
#[derive(Debug, Clone, Copy, PartialEq, Eq, Hash)]
pub enum NATFlag {
    /// Randomize the source port mapping.
    Random,
    /// Randomize the source port mapping fully.
    FullyRandom,
    /// Give a client the same source or destination address for each connection.
    Persistent,
}

impl Token for NATFlag {
    open spec fn text(self) -> Seq<char> {
        match self {
            NATFlag::Random => "random"@,
            NATFlag::FullyRandom => "fully-random"@,
            NATFlag::Persistent => "persistent"@,
        }
    }

    open spec fn from_text(s: Seq<char>) -> Option<Self> {
        if s == "random"@ {
            Some(NATFlag::Random)
        } else if s == "fully-random"@ {
            Some(NATFlag::FullyRandom)
        } else if s == "persistent"@ {
            Some(NATFlag::Persistent)
        } else {
            None
        }
    }

    proof fn lemma_text(self) {
        reveal_strlit("random");
        reveal_strlit("fully-random");
        reveal_strlit("persistent");
        assert("random"@.len() == 6);
        assert("fully-random"@.len() == 12);
        assert("persistent"@.len() == 10);
    }

    proof fn lemma_from_text(s: Seq<char>) {
    }

    fn as_str(&self) -> (s: &'static str) {
        match self {
            NATFlag::Random => "random",
            NATFlag::FullyRandom => "fully-random",
            NATFlag::Persistent => "persistent",
        }
    }

    fn parse(s: &str) -> (r: Option<Self>) {
        if same_text(s, "random") {
            Some(NATFlag::Random)
        } else if same_text(s, "fully-random") {
            Some(NATFlag::FullyRandom)
        } else if same_text(s, "persistent") {
            Some(NATFlag::Persistent)
        } else {
            None
        }
    }
}

impl Flag for NATFlag {
    open spec fn count() -> nat {
        3
    }

    open spec fn index(self) -> nat {
        match self {
            NATFlag::Random => 0,
            NATFlag::FullyRandom => 1,
            NATFlag::Persistent => 2,
        }
    }

    open spec fn at(i: nat) -> Self {
        if i == 0 {
            NATFlag::Random
        } else if i == 1 {
            NATFlag::FullyRandom
        } else {
            NATFlag::Persistent
        }
    }

    proof fn lemma_index(self) {
    }

    proof fn lemma_at(i: nat) {
    }

    fn size() -> (n: usize) {
        3
    }

    fn ordinal(&self) -> (i: usize) {
        match self {
            NATFlag::Random => 0,
            NATFlag::FullyRandom => 1,
            NATFlag::Persistent => 2,
        }
    }

    fn nth(i: usize) -> (t: Self) {
        if i == 0 {
            NATFlag::Random
        } else if i == 1 {
            NATFlag::FullyRandom
        } else {
            NATFlag::Persistent
        }
    }
}

/// An address translation.
#[derive(Debug, PartialEq, Eq)]
pub struct NAT {
    /// The address to translate to.
    pub addr: Option<Expression>,
    /// The family of the address.
    pub family: Option<NATFamily>,
    /// The port to translate to.
    pub port: Option<Expression>,
    /// The options of the translation.
    pub flags: Option<FlagSet<NATFlag>>,
}

/// The mathematical value of a [`NAT`].
pub ghost struct NATView {
    pub addr: Option<ExpressionView>,
    pub family: Option<NATFamily>,
    pub port: Option<ExpressionView>,
    pub flags: Option<Set<NATFlag>>,
}

impl DeepView for NAT {
    type V = NATView;

    open spec fn deep_view(&self) -> NATView
        decreases self,
    {
        NATView {
            addr: match self.addr {
                Some(x) => Some(x.deep_view()),
                None => None,
            },
            family: self.family,
            port: match self.port {
                Some(x) => Some(x.deep_view()),
                None => None,
            },
            flags: match self.flags {
                Some(x) => Some(x.deep_view()),
                None => None,
            },
        }
    }
}

impl NATView {
    /// The wire form: an object with one member for each field that has a value.
    pub open spec fn to_wire(self) -> JsonView
        decreases self, 0nat,
    {
        let m = Seq::empty();
        let m = with_opt(
            m,
            "addr"@,
            match self.addr {
                Some(v) => Some(v.to_wire()),
                None => None,
            },
        );
        let m = with_opt(
            m,
            "family"@,
            match self.family {
                Some(v) => Some(enc_token(v)),
                None => None,
            },
        );
        let m = with_opt(
            m,
            "port"@,
            match self.port {
                Some(v) => Some(v.to_wire()),
                None => None,
            },
        );
        let m = with_opt(
            m,
            "flags"@,
            match self.flags {
                Some(v) => Some(enc_flags(v)),
                None => None,
            },
        );
        JsonView::Object(m)
    }

    /// What a wire value decodes to: the fields are read by their keys, in the order
    /// in which the type lists them, and the first that fails decides the failure.
    pub open spec fn from_wire(j: JsonView) -> Result<NATView, DecodeErrorView>
        decreases j, 0nat,
    {
        match j {
            JsonView::Object(m) => {
                let addr = match optional(m, "addr"@) {
                    Some(v) => at_key(some(ExpressionView::from_wire(v)), "addr"@),
                    None => Ok(None),
                };
                let family = match optional(m, "family"@) {
                    Some(v) => at_key(some(dec_token::<NATFamily>(v)), "family"@),
                    None => Ok(None),
                };
                let port = match optional(m, "port"@) {
                    Some(v) => at_key(some(ExpressionView::from_wire(v)), "port"@),
                    None => Ok(None),
                };
                let flags = match optional(m, "flags"@) {
                    Some(v) => at_key(some(dec_flags::<NATFlag>(v)), "flags"@),
                    None => Ok(None),
                };
                if addr is Err {
                    Err(addr->Err_0)
                } else if family is Err {
                    Err(family->Err_0)
                } else if port is Err {
                    Err(port->Err_0)
                } else if flags is Err {
                    Err(flags->Err_0)
                } else {
                    Ok(
                        NATView {
                            addr: addr->Ok_0,
                            family: family->Ok_0,
                            port: port->Ok_0,
                            flags: flags->Ok_0,
                        },
                    )
                }
            },
            _ => Err(DecodeErrorView::shape()),
        }
    }

    /// Whether decoding the wire form gives this value back.
    pub open spec fn canonical(self) -> bool
        decreases self,
    {
        &&& (self.addr matches Some(v) ==> v.canonical())
        &&& (self.port matches Some(v) ==> v.canonical())
    }

    /// What the wire form holds under each key.
    pub proof fn lemma_members(self)
        ensures
            self.to_wire() is Object,
            lookup(self.to_wire()->Object_0, "addr"@) == match self.addr {
                Some(v) => Some(v.to_wire()),
                None => None,
            },
            lookup(self.to_wire()->Object_0, "family"@) == match self.family {
                Some(v) => Some(enc_token(v)),
                None => None,
            },
            lookup(self.to_wire()->Object_0, "port"@) == match self.port {
                Some(v) => Some(v.to_wire()),
                None => None,
            },
            lookup(self.to_wire()->Object_0, "flags"@) == match self.flags {
                Some(v) => Some(enc_flags(v)),
                None => None,
            },
    {
        broadcast use {lemma_lookup_push, lemma_lookup_empty, lemma_with_opt};
        reveal_strlit("addr");
        reveal_strlit("family");
        reveal_strlit("port");
        reveal_strlit("flags");
        assert("addr"@.len() == 4 && "addr"@[0] == 'a');
        assert("family"@.len() == 6);
        assert("port"@.len() == 4 && "port"@[0] == 'p');
        assert("flags"@.len() == 5);
    }

    /// Decoding the wire form of a value gives the value back.
    pub proof fn lemma_round_trip(self)
        requires
            self.canonical(),
        ensures
            Self::from_wire(self.to_wire()) == Ok::<NATView, DecodeErrorView>(self),
        decreases self, 0nat,
    {
        self.lemma_members();
        match self.addr {
            Some(v) => {
                v.lemma_round_trip();
                v.lemma_not_null();
            },
            None => {},
        }
        match self.family {
            Some(v) => {
                lemma_token_round_trip(v);
            },
            None => {},
        }
        match self.port {
            Some(v) => {
                v.lemma_round_trip();
                v.lemma_not_null();
            },
            None => {},
        }
        match self.flags {
            Some(v) => {
                lemma_flags_round_trip(v);
            },
            None => {},
        }
    }

    /// The order in which the members of an object stand does not matter to what
    /// the object decodes to.
    pub proof fn lemma_member_order(
        a: Seq<(Seq<char>, JsonView)>,
        b: Seq<(Seq<char>, JsonView)>,
    )
        requires
            same_members(a, b),
        ensures
            Self::from_wire(JsonView::Object(a)) == Self::from_wire(JsonView::Object(b)),
    {
        assert(lookup(a, "addr"@) == lookup(b, "addr"@));
        assert(lookup(a, "family"@) == lookup(b, "family"@));
        assert(lookup(a, "port"@) == lookup(b, "port"@));
        assert(lookup(a, "flags"@) == lookup(b, "flags"@));
    }

    /// Whether the options under `flags` are written as one spelling or as the array
    /// of that one spelling does not matter to what an object decodes to.
    pub proof fn lemma_single_flag_is_list(
        a: Seq<(Seq<char>, JsonView)>,
        b: Seq<(Seq<char>, JsonView)>,
        token: Seq<char>,
    )
        requires
            <NATFlag as Token>::from_text(token) is Some,
            lookup(a, "flags"@) == Some(JsonView::String(token)),
            lookup(b, "flags"@) == Some(JsonView::Array(seq![JsonView::String(token)])),
            forall|k: Seq<char>| k != "flags"@ ==> lookup(a, k) == lookup(b, k),
        ensures
            Self::from_wire(JsonView::Object(a)) == Self::from_wire(JsonView::Object(b)),
    {
        crate::flags::lemma_single_flag_is_list::<NATFlag>(token);
        reveal_strlit("addr");
        reveal_strlit("family");
        reveal_strlit("port");
        reveal_strlit("flags");
        assert("addr"@.len() == 4 && "addr"@[0] == 'a');
        assert("family"@.len() == 6);
        assert("port"@.len() == 4 && "port"@[0] == 'p');
        assert("flags"@.len() == 5);
        assert(lookup(a, "addr"@) == lookup(b, "addr"@));
        assert(lookup(a, "family"@) == lookup(b, "family"@));
        assert(lookup(a, "port"@) == lookup(b, "port"@));
    }

    /// Where an object fails to decode, the failure names the field that it lies in:
    /// its path begins with the key of one of the fields.
    pub proof fn lemma_failure_names_field(m: Seq<(Seq<char>, JsonView)>)
        ensures
            Self::from_wire(JsonView::Object(m)) matches Err(e) ==> e.path.len() > 0 && {
                ||| e.path[0] == PathSegmentView::Key("addr"@)
                ||| e.path[0] == PathSegmentView::Key("family"@)
                ||| e.path[0] == PathSegmentView::Key("port"@)
                ||| e.path[0] == PathSegmentView::Key("flags"@)
            },
    {
        broadcast use lemma_under_key_path;
    }
}

impl NAT {
    /// Encodes the value in its wire form.
    pub fn encode(&self) -> (j: Json)
        ensures
            j.deep_view() == self.deep_view().to_wire(),
        decreases self,
    {
        let mut m: Vec<(String, Json)> = Vec::new();
        assert(members_view(m) =~= Seq::empty());
        match &self.addr {
            Some(v) => put(&mut m, "addr", v.encode()),
            None => {},
        }
        match &self.family {
            Some(v) => put(&mut m, "family", encode_token(v)),
            None => {},
        }
        match &self.port {
            Some(v) => put(&mut m, "port", v.encode()),
            None => {},
        }
        match &self.flags {
            Some(v) => put(&mut m, "flags", v.encode()),
            None => {},
        }
        Json::Object(m)
    }

    /// Decodes a wire value.
    pub fn decode(j: &Json) -> (r: Result<NAT, DecodeError>)
        ensures
            decoded(r, NATView::from_wire(j.deep_view())),
        decreases j, 0nat,
    {
        match j {
            Json::Object(m) => {
                let addr = match present(m, "addr") {
                    Some(v) => match Expression::decode(v) {
                        Ok(x) => Some(x),
                        Err(e) => return Err(e.under_key("addr")),
                    },
                    None => None,
                };
                let family = match present(m, "family") {
                    Some(v) => match decode_token::<NATFamily>(v) {
                        Ok(x) => Some(x),
                        Err(e) => return Err(e.under_key("family")),
                    },
                    None => None,
                };
                let port = match present(m, "port") {
                    Some(v) => match Expression::decode(v) {
                        Ok(x) => Some(x),
                        Err(e) => return Err(e.under_key("port")),
                    },
                    None => None,
                };
                let flags = match present(m, "flags") {
                    Some(v) => match deserialize_flags::<NATFlag>(v) {
                        Ok(x) => Some(x),
                        Err(e) => return Err(e.under_key("flags")),
                    },
                    None => None,
                };
                Ok(NAT { addr, family, port, flags })
            },
            _ => Err(DecodeError::shape()),
        }
    }
}

impl Clone for NAT {
    fn clone(&self) -> (r: Self)
        ensures
            r.deep_view() == self.deep_view(),
        decreases self,
    {
        NAT {
            addr: match &self.addr {
                Some(x) => Some(x.clone()),
                None => None,
            },
            family: self.family,
            port: match &self.port {
                Some(x) => Some(x.clone()),
                None => None,
            },
            flags: match &self.flags {
                Some(x) => Some(x.clone()),
                None => None,
            },
        }
    }
}

/// How a packet is rejected.
#[derive(Debug, Clone, Copy, PartialEq, Eq, Hash)]
pub enum RejectType {
    /// With a TCP reset.
    TCPRST,
    /// With an ICMP error of the packet's own family.
    ICMPX,
    /// With an ICMP error.
    ICMP,
    /// With an ICMPv6 error.
    ICMPv6,
}

impl Token for RejectType {
    open spec fn text(self) -> Seq<char> {
        match self {
            RejectType::TCPRST => "tcp reset"@,
            RejectType::ICMPX => "icmpx"@,
            RejectType::ICMP => "icmp"@,
            RejectType::ICMPv6 => "icmpv6"@,
        }
    }

    open spec fn from_text(s: Seq<char>) -> Option<Self> {
        if s == "tcp reset"@ {
            Some(RejectType::TCPRST)
        } else if s == "icmpx"@ {
            Some(RejectType::ICMPX)
        } else if s == "icmp"@ {
            Some(RejectType::ICMP)
        } else if s == "icmpv6"@ {
            Some(RejectType::ICMPv6)
        } else {
            None
        }
    }

    proof fn lemma_text(self) {
        reveal_strlit("tcp reset");
        reveal_strlit("icmpx");
        reveal_strlit("icmp");
        reveal_strlit("icmpv6");
        assert("tcp reset"@.len() == 9);
        assert("icmpx"@.len() == 5);
        assert("icmp"@.len() == 4);
        assert("icmpv6"@.len() == 6);
    }

    proof fn lemma_from_text(s: Seq<char>) {
    }

    fn as_str(&self) -> (s: &'static str) {
        match self {
            RejectType::TCPRST => "tcp reset",
            RejectType::ICMPX => "icmpx",
            RejectType::ICMP => "icmp",
            RejectType::ICMPv6 => "icmpv6",
        }
    }

    fn parse(s: &str) -> (r: Option<Self>) {
        if same_text(s, "tcp reset") {
            Some(RejectType::TCPRST)
        } else if same_text(s, "icmpx") {
            Some(RejectType::ICMPX)
        } else if same_text(s, "icmp") {
            Some(RejectType::ICMP)
        } else if same_text(s, "icmpv6") {
            Some(RejectType::ICMPv6)
        } else {
            None
        }
    }
}

/// The ICMP code that a rejection sends back.
#[derive(Debug, Clone, Copy, PartialEq, Eq, Hash)]
pub enum ICMPCode {
    /// No route to the destination.
    NoRoute,
    /// The port is unreachable.
    PortUnreachable,
    /// The host is unreachable.
    HostUnreachable,
    /// The network is unreachable.
    NetUnreachable,
    /// The protocol is unreachable.
    ProtUnreachable,
    /// The address is unreachable.
    AddrUnreachable,
    /// The network is prohibited.
    NetProhibited,
    /// The host is prohibited.
    HostProhibited,
    /// Prohibited by the administrator.
    AdminProhibited,
}

impl Token for ICMPCode {
    open spec fn text(self) -> Seq<char> {
        match self {
            ICMPCode::NoRoute => "no-route"@,
            ICMPCode::PortUnreachable => "port-unreachable"@,
            ICMPCode::HostUnreachable => "host-unreachable"@,
            ICMPCode::NetUnreachable => "net-unreachable"@,
            ICMPCode::ProtUnreachable => "prot-unreachable"@,
            ICMPCode::AddrUnreachable => "addr-unreachable"@,
            ICMPCode::NetProhibited => "net-prohibited"@,
            ICMPCode::HostProhibited => "host-prohibited"@,
            ICMPCode::AdminProhibited => "admin-prohibited"@,
        }
    }

    open spec fn from_text(s: Seq<char>) -> Option<Self> {
        if s == "no-route"@ {
            Some(ICMPCode::NoRoute)
        } else if s == "port-unreachable"@ {
            Some(ICMPCode::PortUnreachable)
        } else if s == "host-unreachable"@ {
            Some(ICMPCode::HostUnreachable)
        } else if s == "net-unreachable"@ {
            Some(ICMPCode::NetUnreachable)
        } else if s == "prot-unreachable"@ {
            Some(ICMPCode::ProtUnreachable)
        } else if s == "addr-unreachable"@ {
            Some(ICMPCode::AddrUnreachable)
        } else if s == "net-prohibited"@ {
            Some(ICMPCode::NetProhibited)
        } else if s == "host-prohibited"@ {
            Some(ICMPCode::HostProhibited)
        } else if s == "admin-prohibited"@ {
            Some(ICMPCode::AdminProhibited)
        } else {
            None
        }
    }

    proof fn lemma_text(self) {
        reveal_strlit("no-route");
        reveal_strlit("port-unreachable");
        reveal_strlit("host-unreachable");
        reveal_strlit("net-unreachable");
        reveal_strlit("prot-unreachable");
        reveal_strlit("addr-unreachable");
        reveal_strlit("net-prohibited");
        reveal_strlit("host-prohibited");
        reveal_strlit("admin-prohibited");
        assert("no-route"@.len() == 8);
        assert("port-unreachable"@.len() == 16 && "port-unreachable"@[2] == 'r');
        assert("host-unreachable"@.len() == 16 && "host-unreachable"@[2] == 's');
        assert("net-unreachable"@.len() == 15 && "net-unreachable"@[0] == 'n');
        assert("prot-unreachable"@.len() == 16 && "prot-unreachable"@[2] == 'o');
        assert("addr-unreachable"@.len() == 16 && "addr-unreachable"@[2] == 'd');
        assert("net-prohibited"@.len() == 14);
        assert("host-prohibited"@.len() == 15 && "host-prohibited"@[0] == 'h');
        assert("admin-prohibited"@.len() == 16 && "admin-prohibited"@[2] == 'm');
    }

    proof fn lemma_from_text(s: Seq<char>) {
    }

    fn as_str(&self) -> (s: &'static str) {
        match self {
            ICMPCode::NoRoute => "no-route",
            ICMPCode::PortUnreachable => "port-unreachable",
            ICMPCode::HostUnreachable => "host-unreachable",
            ICMPCode::NetUnreachable => "net-unreachable",
            ICMPCode::ProtUnreachable => "prot-unreachable",
            ICMPCode::AddrUnreachable => "addr-unreachable",
            ICMPCode::NetProhibited => "net-prohibited",
            ICMPCode::HostProhibited => "host-prohibited",
            ICMPCode::AdminProhibited => "admin-prohibited",
        }
    }

    fn parse(s: &str) -> (r: Option<Self>) {
        if same_text(s, "no-route") {
            Some(ICMPCode::NoRoute)
        } else if same_text(s, "port-unreachable") {
            Some(ICMPCode::PortUnreachable)
        } else if same_text(s, "host-unreachable") {
            Some(ICMPCode::HostUnreachable)
        } else if same_text(s, "net-unreachable") {
            Some(ICMPCode::NetUnreachable)
        } else if same_text(s, "prot-unreachable") {
            Some(ICMPCode::ProtUnreachable)
        } else if same_text(s, "addr-unreachable") {
            Some(ICMPCode::AddrUnreachable)
        } else if same_text(s, "net-prohibited") {
            Some(ICMPCode::NetProhibited)
        } else if same_text(s, "host-prohibited") {
            Some(ICMPCode::HostProhibited)
        } else if same_text(s, "admin-prohibited") {
            Some(ICMPCode::AdminProhibited)
        } else {
            None
        }
    }
}

/// A rejection of the packet.
#[derive(Debug, PartialEq, Eq)]
pub struct Reject {
    /// How the packet is rejected.
    pub _type: Option<RejectType>,
    /// The ICMP code to send back.
    pub expr: Option<ICMPCode>,
}

/// The mathematical value of a [`Reject`].
pub ghost struct RejectView {
    pub _type: Option<RejectType>,
    pub expr: Option<ICMPCode>,
}

impl DeepView for Reject {
    type V = RejectView;

    open spec fn deep_view(&self) -> RejectView {
        RejectView {
            _type: self._type,
            expr: self.expr,
        }
    }
}

impl RejectView {
    /// The wire form: an object with one member for each field that has a value.
    pub open spec fn to_wire(self) -> JsonView {
        let m = Seq::empty();
        let m = with_opt(
            m,
            "type"@,
            match self._type {
                Some(v) => Some(enc_token(v)),
                None => None,
            },
        );
        let m = with_opt(
            m,
            "expr"@,
            match self.expr {
                Some(v) => Some(enc_token(v)),
                None => None,
            },
        );
        JsonView::Object(m)
    }

    /// What a wire value decodes to: the fields are read by their keys, in the order
    /// in which the type lists them, and the first that fails decides the failure.
    pub open spec fn from_wire(j: JsonView) -> Result<RejectView, DecodeErrorView> {
        match j {
            JsonView::Object(m) => {
                let _type = match optional(m, "type"@) {
                    Some(v) => at_key(some(dec_token::<RejectType>(v)), "type"@),
                    None => Ok(None),
                };
                let expr = match optional(m, "expr"@) {
                    Some(v) => at_key(some(dec_token::<ICMPCode>(v)), "expr"@),
                    None => Ok(None),
                };
                if _type is Err {
                    Err(_type->Err_0)
                } else if expr is Err {
                    Err(expr->Err_0)
                } else {
                    Ok(RejectView { _type: _type->Ok_0, expr: expr->Ok_0 })
                }
            },
            _ => Err(DecodeErrorView::shape()),
        }
    }

    /// What the wire form holds under each key.
    pub proof fn lemma_members(self)
        ensures
            self.to_wire() is Object,
            lookup(self.to_wire()->Object_0, "type"@) == match self._type {
                Some(v) => Some(enc_token(v)),
                None => None,
            },
            lookup(self.to_wire()->Object_0, "expr"@) == match self.expr {
                Some(v) => Some(enc_token(v)),
                None => None,
            },
    {
        broadcast use {lemma_lookup_push, lemma_lookup_empty, lemma_with_opt};
        reveal_strlit("type");
        reveal_strlit("expr");
        assert("type"@.len() == 4 && "type"@[0] == 't');
        assert("expr"@.len() == 4 && "expr"@[0] == 'e');
    }

    /// Decoding the wire form of a value gives the value back.
    pub proof fn lemma_round_trip(self)
        ensures
            Self::from_wire(self.to_wire()) == Ok::<RejectView, DecodeErrorView>(self),
    {
        self.lemma_members();
        match self._type {
            Some(v) => {
                lemma_token_round_trip(v);
            },
            None => {},
        }
        match self.expr {
            Some(v) => {
                lemma_token_round_trip(v);
            },
            None => {},
        }
    }

    /// The order in which the members of an object stand does not matter to what
    /// the object decodes to.
    pub proof fn lemma_member_order(
        a: Seq<(Seq<char>, JsonView)>,
        b: Seq<(Seq<char>, JsonView)>,
    )
        requires
            same_members(a, b),
        ensures
            Self::from_wire(JsonView::Object(a)) == Self::from_wire(JsonView::Object(b)),
    {
        assert(lookup(a, "type"@) == lookup(b, "type"@));
        assert(lookup(a, "expr"@) == lookup(b, "expr"@));
    }

    /// Where an object fails to decode, the failure names the field that it lies in:
    /// its path begins with the key of one of the fields.
    pub proof fn lemma_failure_names_field(m: Seq<(Seq<char>, JsonView)>)
        ensures
            Self::from_wire(JsonView::Object(m)) matches Err(e) ==> e.path.len() > 0 && {
                ||| e.path[0] == PathSegmentView::Key("type"@)
                ||| e.path[0] == PathSegmentView::Key("expr"@)
            },
    {
        broadcast use lemma_under_key_path;
    }
}

impl Reject {
    /// Encodes the value in its wire form.
    pub fn encode(&self) -> (j: Json)
        ensures
            j.deep_view() == self.deep_view().to_wire(),
    {
        let mut m: Vec<(String, Json)> = Vec::new();
        assert(members_view(m) =~= Seq::empty());
        match &self._type {
            Some(v) => put(&mut m, "type", encode_token(v)),
            None => {},
        }
        match &self.expr {
            Some(v) => put(&mut m, "expr", encode_token(v)),
            None => {},
        }
        Json::Object(m)
    }

    /// Decodes a wire value.
    pub fn decode(j: &Json) -> (r: Result<Reject, DecodeError>)
        ensures
            decoded(r, RejectView::from_wire(j.deep_view())),
    {
        match j {
            Json::Object(m) => {
                let _type = match present(m, "type") {
                    Some(v) => match decode_token::<RejectType>(v) {
                        Ok(x) => Some(x),
                        Err(e) => return Err(e.under_key("type")),
                    },
                    None => None,
                };
                let expr = match present(m, "expr") {
                    Some(v) => match decode_token::<ICMPCode>(v) {
                        Ok(x) => Some(x),
                        Err(e) => return Err(e.under_key("expr")),
                    },
                    None => None,
                };
                Ok(Reject { _type, expr })
            },
            _ => Err(DecodeError::shape()),
        }
    }
}

impl Clone for Reject {
    fn clone(&self) -> (r: Self)
        ensures
            r.deep_view() == self.deep_view(),
    {
        Reject {
            _type: self._type,
            expr: self.expr,
        }
    }
}

/// An addition to, or an update of, a named set.
#[derive(Debug, PartialEq, Eq)]
pub struct SetStmt {
    /// The operation on the set.
    pub op: SetOp,
    /// The element to add or update.
    pub elem: Expression,
    /// The name of the set.
    pub set: String,
}

/// The mathematical value of a [`SetStmt`].
pub ghost struct SetStmtView {
    pub op: SetOp,
    pub elem: ExpressionView,
    pub set: Seq<char>,
}

impl DeepView for SetStmt {
    type V = SetStmtView;

    open spec fn deep_view(&self) -> SetStmtView
        decreases self,
    {
        SetStmtView {
            op: self.op,
            elem: self.elem.deep_view(),
            set: self.set@,
        }
    }
}

impl SetStmtView {
    /// The wire form: an object with one member for each field that has a value.
    pub open spec fn to_wire(self) -> JsonView
        decreases self, 0nat,
    {
        let m = Seq::empty();
        let m = m.push(("op"@, enc_token(self.op)));
        let m = m.push(("elem"@, self.elem.to_wire()));
        let m = m.push(("set"@, JsonView::String(self.set)));
        JsonView::Object(m)
    }

    /// What a wire value decodes to: the fields are read by their keys, in the order
    /// in which the type lists them, and the first that fails decides the failure.
    pub open spec fn from_wire(j: JsonView) -> Result<SetStmtView, DecodeErrorView>
        decreases j, 0nat,
    {
        match j {
            JsonView::Object(m) => {
                let op = match lookup(m, "op"@) {
                    Some(v) => at_key(dec_token::<SetOp>(v), "op"@),
                    None => Err(DecodeErrorView::missing("op"@)),
                };
                let elem = match lookup(m, "elem"@) {
                    Some(v) => at_key(ExpressionView::from_wire(v), "elem"@),
                    None => Err(DecodeErrorView::missing("elem"@)),
                };
                let set = match lookup(m, "set"@) {
                    Some(v) => at_key(dec_string(v), "set"@),
                    None => Err(DecodeErrorView::missing("set"@)),
                };
                if op is Err {
                    Err(op->Err_0)
                } else if elem is Err {
                    Err(elem->Err_0)
                } else if set is Err {
                    Err(set->Err_0)
                } else {
                    Ok(SetStmtView { op: op->Ok_0, elem: elem->Ok_0, set: set->Ok_0 })
                }
            },
            _ => Err(DecodeErrorView::shape()),
        }
    }

    /// Whether decoding the wire form gives this value back.
    pub open spec fn canonical(self) -> bool
        decreases self,
    {
        &&& self.elem.canonical()
    }

    /// What the wire form holds under each key.
    pub proof fn lemma_members(self)
        ensures
            self.to_wire() is Object,
            lookup(self.to_wire()->Object_0, "op"@) == Some(enc_token(self.op)),
            lookup(self.to_wire()->Object_0, "elem"@) == Some(self.elem.to_wire()),
            lookup(self.to_wire()->Object_0, "set"@) == Some(JsonView::String(self.set)),
    {
        broadcast use {lemma_lookup_push, lemma_lookup_empty, lemma_with_opt};
        reveal_strlit("op");
        reveal_strlit("elem");
        reveal_strlit("set");
        assert("op"@.len() == 2);
        assert("elem"@.len() == 4);
        assert("set"@.len() == 3);
    }

    /// Decoding the wire form of a value gives the value back.
    pub proof fn lemma_round_trip(self)
        requires
            self.canonical(),
        ensures
            Self::from_wire(self.to_wire()) == Ok::<SetStmtView, DecodeErrorView>(self),
        decreases self, 0nat,
    {
        self.lemma_members();
        lemma_token_round_trip(self.op);
        self.elem.lemma_round_trip();
        self.elem.lemma_not_null();
    }

    /// The order in which the members of an object stand does not matter to what
    /// the object decodes to.
    pub proof fn lemma_member_order(
        a: Seq<(Seq<char>, JsonView)>,
        b: Seq<(Seq<char>, JsonView)>,
    )
        requires
            same_members(a, b),
        ensures
            Self::from_wire(JsonView::Object(a)) == Self::from_wire(JsonView::Object(b)),
    {
        assert(lookup(a, "op"@) == lookup(b, "op"@));
        assert(lookup(a, "elem"@) == lookup(b, "elem"@));
        assert(lookup(a, "set"@) == lookup(b, "set"@));
    }

    /// Where an object fails to decode, the failure names the field that it lies in:
    /// its path begins with the key of one of the fields.
    pub proof fn lemma_failure_names_field(m: Seq<(Seq<char>, JsonView)>)
        ensures
            Self::from_wire(JsonView::Object(m)) matches Err(e) ==> e.path.len() > 0 && {
                ||| e.path[0] == PathSegmentView::Key("op"@)
                ||| e.path[0] == PathSegmentView::Key("elem"@)
                ||| e.path[0] == PathSegmentView::Key("set"@)
            },
    {
        broadcast use lemma_under_key_path;
    }
}

impl SetStmt {
    /// Encodes the value in its wire form.
    pub fn encode(&self) -> (j: Json)
        ensures
            j.deep_view() == self.deep_view().to_wire(),
        decreases self,
    {
        let mut m: Vec<(String, Json)> = Vec::new();
        assert(members_view(m) =~= Seq::empty());
        put(&mut m, "op", encode_token(&self.op));
        put(&mut m, "elem", self.elem.encode());
        put(&mut m, "set", Json::String(self.set.clone()));
        Json::Object(m)
    }

    /// Decodes a wire value.
    pub fn decode(j: &Json) -> (r: Result<SetStmt, DecodeError>)
        ensures
            decoded(r, SetStmtView::from_wire(j.deep_view())),
        decreases j, 0nat,
    {
        match j {
            Json::Object(m) => {
                let op = match find(m, "op") {
                    Some(v) => match decode_token::<SetOp>(v) {
                        Ok(x) => x,
                        Err(e) => return Err(e.under_key("op")),
                    },
                    None => return Err(DecodeError::missing("op")),
                };
                let elem = match find(m, "elem") {
                    Some(v) => match Expression::decode(v) {
                        Ok(x) => x,
                        Err(e) => return Err(e.under_key("elem")),
                    },
                    None => return Err(DecodeError::missing("elem")),
                };
                let set = match find(m, "set") {
                    Some(v) => match decode_string(v) {
                        Ok(x) => x,
                        Err(e) => return Err(e.under_key("set")),
                    },
                    None => return Err(DecodeError::missing("set")),
                };
                Ok(SetStmt { op, elem, set })
            },
            _ => Err(DecodeError::shape()),
        }
    }
}

impl Clone for SetStmt {
    fn clone(&self) -> (r: Self)
        ensures
            r.deep_view() == self.deep_view(),
        decreases self,
    {
        SetStmt {
            op: self.op,
            elem: self.elem.clone(),
            set: self.set.clone(),
        }
    }
}

/// The level of a log message.
#[derive(Debug, Clone, Copy, PartialEq, Eq, Hash)]
pub enum LogLevel {
    /// Emergency.
    Emerg,
    /// Alert.
    Alert,
    /// Critical.
    Crit,
    /// Error.
    Error,
    /// Warning.
    Warn,
    /// Notice.
    Notice,
    /// Informational.
    Info,
    /// Debug.
    Debug,
    /// Audit.
    Audit,
}

impl Token for LogLevel {
    open spec fn text(self) -> Seq<char> {
        match self {
            LogLevel::Emerg => "emerg"@,
            LogLevel::Alert => "alert"@,
            LogLevel::Crit => "crit"@,
            LogLevel::Error => "err"@,
            LogLevel::Warn => "warn"@,
            LogLevel::Notice => "notice"@,
            LogLevel::Info => "info"@,
            LogLevel::Debug => "debug"@,
            LogLevel::Audit => "audit"@,
        }
    }

    open spec fn from_text(s: Seq<char>) -> Option<Self> {
        if s == "emerg"@ {
            Some(LogLevel::Emerg)
        } else if s == "alert"@ {
            Some(LogLevel::Alert)
        } else if s == "crit"@ {
            Some(LogLevel::Crit)
        } else if s == "err"@ {
            Some(LogLevel::Error)
        } else if s == "warn"@ {
            Some(LogLevel::Warn)
        } else if s == "notice"@ {
            Some(LogLevel::Notice)
        } else if s == "info"@ {
            Some(LogLevel::Info)
        } else if s == "debug"@ {
            Some(LogLevel::Debug)
        } else if s == "audit"@ {
            Some(LogLevel::Audit)
        } else {
            None
        }
    }

    proof fn lemma_text(self) {
        reveal_strlit("emerg");
        reveal_strlit("alert");
        reveal_strlit("crit");
        reveal_strlit("err");
        reveal_strlit("warn");
        reveal_strlit("notice");
        reveal_strlit("info");
        reveal_strlit("debug");
        reveal_strlit("audit");
        assert("emerg"@.len() == 5 && "emerg"@[1] == 'm');
        assert("alert"@.len() == 5 && "alert"@[1] == 'l');
        assert("crit"@.len() == 4 && "crit"@[0] == 'c');
        assert("err"@.len() == 3);
        assert("warn"@.len() == 4 && "warn"@[0] == 'w');
        assert("notice"@.len() == 6);
        assert("info"@.len() == 4 && "info"@[0] == 'i');
        assert("debug"@.len() == 5 && "debug"@[1] == 'e');
        assert("audit"@.len() == 5 && "audit"@[1] == 'u');
    }

    proof fn lemma_from_text(s: Seq<char>) {
    }

    fn as_str(&self) -> (s: &'static str) {
        match self {
            LogLevel::Emerg => "emerg",
            LogLevel::Alert => "alert",
            LogLevel::Crit => "crit",
            LogLevel::Error => "err",
            LogLevel::Warn => "warn",
            LogLevel::Notice => "notice",
            LogLevel::Info => "info",
            LogLevel::Debug => "debug",
            LogLevel::Audit => "audit",
        }
    }

    fn parse(s: &str) -> (r: Option<Self>) {
        if same_text(s, "emerg") {
            Some(LogLevel::Emerg)
        } else if same_text(s, "alert") {
            Some(LogLevel::Alert)
        } else if same_text(s, "crit") {
            Some(LogLevel::Crit)
        } else if same_text(s, "err") {
            Some(LogLevel::Error)
        } else if same_text(s, "warn") {
            Some(LogLevel::Warn)
        } else if same_text(s, "notice") {
            Some(LogLevel::Notice)
        } else if same_text(s, "info") {
            Some(LogLevel::Info)
        } else if same_text(s, "debug") {
            Some(LogLevel::Debug)
        } else if same_text(s, "audit") {
            Some(LogLevel::Audit)
        } else {
            None
        }
    }
}

/// What a log message includes.
#[derive(Debug, Clone, Copy, PartialEq, Eq, Hash)]
pub enum LogFlag {
    /// The TCP sequence numbers.
    TCPSequence,
    /// The options of the TCP header.
    TCPOptions,
    /// The options of the IP header.
    IPOptions,
    /// The UID of the process that sent the packet.
    Skuid,
    /// The Ethernet link layer address.
    Ether,
    /// All of the others.
    All,
}

impl Token for LogFlag {
    open spec fn text(self) -> Seq<char> {
        match self {
            LogFlag::TCPSequence => "tcp sequence"@,
            LogFlag::TCPOptions => "tcp options"@,
            LogFlag::IPOptions => "ip options"@,
            LogFlag::Skuid => "skuid"@,
            LogFlag::Ether => "ether"@,
            LogFlag::All => "all"@,
        }
    }

    open spec fn from_text(s: Seq<char>) -> Option<Self> {
        if s == "tcp sequence"@ {
            Some(LogFlag::TCPSequence)
        } else if s == "tcp options"@ {
            Some(LogFlag::TCPOptions)
        } else if s == "ip options"@ {
            Some(LogFlag::IPOptions)
        } else if s == "skuid"@ {
            Some(LogFlag::Skuid)
        } else if s == "ether"@ {
            Some(LogFlag::Ether)
        } else if s == "all"@ {
            Some(LogFlag::All)
        } else {
            None
        }
    }

    proof fn lemma_text(self) {
        reveal_strlit("tcp sequence");
        reveal_strlit("tcp options");
        reveal_strlit("ip options");
        reveal_strlit("skuid");
        reveal_strlit("ether");
        reveal_strlit("all");
        assert("tcp sequence"@.len() == 12);
        assert("tcp options"@.len() == 11);
        assert("ip options"@.len() == 10);
        assert("skuid"@.len() == 5 && "skuid"@[0] == 's');
        assert("ether"@.len() == 5 && "ether"@[0] == 'e');
        assert("all"@.len() == 3);
    }

    proof fn lemma_from_text(s: Seq<char>) {
    }

    fn as_str(&self) -> (s: &'static str) {
        match self {
            LogFlag::TCPSequence => "tcp sequence",
            LogFlag::TCPOptions => "tcp options",
            LogFlag::IPOptions => "ip options",
            LogFlag::Skuid => "skuid",
            LogFlag::Ether => "ether",
            LogFlag::All => "all",
        }
    }

    fn parse(s: &str) -> (r: Option<Self>) {
        if same_text(s, "tcp sequence") {
            Some(LogFlag::TCPSequence)
        } else if same_text(s, "tcp options") {
            Some(LogFlag::TCPOptions)
        } else if same_text(s, "ip options") {
            Some(LogFlag::IPOptions)
        } else if same_text(s, "skuid") {
            Some(LogFlag::Skuid)
        } else if same_text(s, "ether") {
            Some(LogFlag::Ether)
        } else if same_text(s, "all") {
            Some(LogFlag::All)
        } else {
            None
        }
    }
}

impl Flag for LogFlag {
    open spec fn count() -> nat {
        6
    }

    open spec fn index(self) -> nat {
        match self {
            LogFlag::TCPSequence => 0,
            LogFlag::TCPOptions => 1,
            LogFlag::IPOptions => 2,
            LogFlag::Skuid => 3,
            LogFlag::Ether => 4,
            LogFlag::All => 5,
        }
    }

    open spec fn at(i: nat) -> Self {
        if i == 0 {
            LogFlag::TCPSequence
        } else if i == 1 {
            LogFlag::TCPOptions
        } else if i == 2 {
            LogFlag::IPOptions
        } else if i == 3 {
            LogFlag::Skuid
        } else if i == 4 {
            LogFlag::Ether
        } else {
            LogFlag::All
        }
    }

    proof fn lemma_index(self) {
    }

    proof fn lemma_at(i: nat) {
    }

    fn size() -> (n: usize) {
        6
    }

    fn ordinal(&self) -> (i: usize) {
        match self {
            LogFlag::TCPSequence => 0,
            LogFlag::TCPOptions => 1,
            LogFlag::IPOptions => 2,
            LogFlag::Skuid => 3,
            LogFlag::Ether => 4,
            LogFlag::All => 5,
        }
    }

    fn nth(i: usize) -> (t: Self) {
        if i == 0 {
            LogFlag::TCPSequence
        } else if i == 1 {
            LogFlag::TCPOptions
        } else if i == 2 {
            LogFlag::IPOptions
        } else if i == 3 {
            LogFlag::Skuid
        } else if i == 4 {
            LogFlag::Ether
        } else {
            LogFlag::All
        }
    }
}

/// A log of the packet.
#[derive(Debug, PartialEq, Eq)]
pub struct Log {
    /// The prefix of the log message.
    pub prefix: Option<String>,
    /// The log group.
    pub group: Option<u32>,
    /// The length of the packet payload to include.
    pub snaplen: Option<u32>,
    /// The number of packets to queue in the kernel before they are sent to userspace.
    pub queue_threshold: Option<u32>,
    /// The level of the log message.
    pub level: Option<LogLevel>,
    /// What the log message includes.
    pub flags: Option<FlagSet<LogFlag>>,
}

/// The mathematical value of a [`Log`].
pub ghost struct LogView {
    pub prefix: Option<Seq<char>>,
    pub group: Option<u32>,
    pub snaplen: Option<u32>,
    pub queue_threshold: Option<u32>,
    pub level: Option<LogLevel>,
    pub flags: Option<Set<LogFlag>>,
}

impl DeepView for Log {
    type V = LogView;

    open spec fn deep_view(&self) -> LogView {
        LogView {
            prefix: match self.prefix {
                Some(x) => Some(x@),
                None => None,
            },
            group: self.group,
            snaplen: self.snaplen,
            queue_threshold: self.queue_threshold,
            level: self.level,
            flags: match self.flags {
                Some(x) => Some(x.deep_view()),
                None => None,
            },
        }
    }
}

impl LogView {
    /// The wire form: an object with one member for each field that has a value.
    pub open spec fn to_wire(self) -> JsonView {
        let m = Seq::empty();
        let m = with_opt(
            m,
            "prefix"@,
            match self.prefix {
                Some(v) => Some(JsonView::String(v)),
                None => None,
            },
        );
        let m = with_opt(
            m,
            "group"@,
            match self.group {
                Some(v) => Some(JsonView::Number(v as int)),
                None => None,
            },
        );
        let m = with_opt(
            m,
            "snaplen"@,
            match self.snaplen {
                Some(v) => Some(JsonView::Number(v as int)),
                None => None,
            },
        );
        let m = with_opt(
            m,
            "queue-threshold"@,
            match self.queue_threshold {
                Some(v) => Some(JsonView::Number(v as int)),
                None => None,
            },
        );
        let m = with_opt(
            m,
            "level"@,
            match self.level {
                Some(v) => Some(enc_token(v)),
                None => None,
            },
        );
        let m = with_opt(
            m,
            "flags"@,
            match self.flags {
                Some(v) => Some(enc_flags(v)),
                None => None,
            },
        );
        JsonView::Object(m)
    }

    /// What a wire value decodes to: the fields are read by their keys, in the order
    /// in which the type lists them, and the first that fails decides the failure.
    pub open spec fn from_wire(j: JsonView) -> Result<LogView, DecodeErrorView> {
        match j {
            JsonView::Object(m) => {
                let prefix = match optional(m, "prefix"@) {
                    Some(v) => at_key(some(dec_string(v)), "prefix"@),
                    None => Ok(None),
                };
                let group = match optional(m, "group"@) {
                    Some(v) => at_key(some(dec_u32(v)), "group"@),
                    None => Ok(None),
                };
                let snaplen = match optional(m, "snaplen"@) {
                    Some(v) => at_key(some(dec_u32(v)), "snaplen"@),
                    None => Ok(None),
                };
                let queue_threshold = match optional(m, "queue-threshold"@) {
                    Some(v) => at_key(some(dec_u32(v)), "queue-threshold"@),
                    None => Ok(None),
                };
                let level = match optional(m, "level"@) {
                    Some(v) => at_key(some(dec_token::<LogLevel>(v)), "level"@),
                    None => Ok(None),
                };
                let flags = match optional(m, "flags"@) {
                    Some(v) => at_key(dec_opt_flags::<LogFlag>(v), "flags"@),
                    None => Ok(None),
                };
                if prefix is Err {
                    Err(prefix->Err_0)
                } else if group is Err {
                    Err(group->Err_0)
                } else if snaplen is Err {
                    Err(snaplen->Err_0)
                } else if queue_threshold is Err {
                    Err(queue_threshold->Err_0)
                } else if level is Err {
                    Err(level->Err_0)
                } else if flags is Err {
                    Err(flags->Err_0)
                } else {
                    Ok(
                        LogView {
                            prefix: prefix->Ok_0,
                            group: group->Ok_0,
                            snaplen: snaplen->Ok_0,
                            queue_threshold: queue_threshold->Ok_0,
                            level: level->Ok_0,
                            flags: flags->Ok_0,
                        },
                    )
                }
            },
            _ => Err(DecodeErrorView::shape()),
        }
    }

    /// What the wire form holds under each key.
    pub proof fn lemma_members(self)
        ensures
            self.to_wire() is Object,
            lookup(self.to_wire()->Object_0, "prefix"@) == match self.prefix {
                Some(v) => Some(JsonView::String(v)),
                None => None,
            },
            lookup(self.to_wire()->Object_0, "group"@) == match self.group {
                Some(v) => Some(JsonView::Number(v as int)),
                None => None,
            },
            lookup(self.to_wire()->Object_0, "snaplen"@) == match self.snaplen {
                Some(v) => Some(JsonView::Number(v as int)),
                None => None,
            },
            lookup(self.to_wire()->Object_0, "queue-threshold"@) == match self.queue_threshold {
                Some(v) => Some(JsonView::Number(v as int)),
                None => None,
            },
            lookup(self.to_wire()->Object_0, "level"@) == match self.level {
                Some(v) => Some(enc_token(v)),
                None => None,
            },
            lookup(self.to_wire()->Object_0, "flags"@) == match self.flags {
                Some(v) => Some(enc_flags(v)),
                None => None,
            },
    {
        broadcast use {lemma_lookup_push, lemma_lookup_empty, lemma_with_opt};
        reveal_strlit("prefix");
        reveal_strlit("group");
        reveal_strlit("snaplen");
        reveal_strlit("queue-threshold");
        reveal_strlit("level");
        reveal_strlit("flags");
        assert("prefix"@.len() == 6);
        assert("group"@.len() == 5 && "group"@[0] == 'g');
        assert("snaplen"@.len() == 7);
        assert("queue-threshold"@.len() == 15);
        assert("level"@.len() == 5 && "level"@[0] == 'l');
        assert("flags"@.len() == 5 && "flags"@[0] == 'f');
    }

    /// Decoding the wire form of a value gives the value back.
    pub proof fn lemma_round_trip(self)
        ensures
            Self::from_wire(self.to_wire()) == Ok::<LogView, DecodeErrorView>(self),
    {
        self.lemma_members();
        match self.level {
            Some(v) => {
                lemma_token_round_trip(v);
            },
            None => {},
        }
        match self.flags {
            Some(v) => {
                lemma_flags_round_trip(v);
            },
            None => {},
        }
    }

    /// The order in which the members of an object stand does not matter to what
    /// the object decodes to.
    pub proof fn lemma_member_order(
        a: Seq<(Seq<char>, JsonView)>,
        b: Seq<(Seq<char>, JsonView)>,
    )
        requires
            same_members(a, b),
        ensures
            Self::from_wire(JsonView::Object(a)) == Self::from_wire(JsonView::Object(b)),
    {
        assert(lookup(a, "prefix"@) == lookup(b, "prefix"@));
        assert(lookup(a, "group"@) == lookup(b, "group"@));
        assert(lookup(a, "snaplen"@) == lookup(b, "snaplen"@));
        assert(lookup(a, "queue-threshold"@) == lookup(b, "queue-threshold"@));
        assert(lookup(a, "level"@) == lookup(b, "level"@));
        assert(lookup(a, "flags"@) == lookup(b, "flags"@));
    }

    /// Whether the options under `flags` are written as one spelling or as the array
    /// of that one spelling does not matter to what an object decodes to.
    pub proof fn lemma_single_flag_is_list(
        a: Seq<(Seq<char>, JsonView)>,
        b: Seq<(Seq<char>, JsonView)>,
        token: Seq<char>,
    )
        requires
            <LogFlag as Token>::from_text(token) is Some,
            lookup(a, "flags"@) == Some(JsonView::String(token)),
            lookup(b, "flags"@) == Some(JsonView::Array(seq![JsonView::String(token)])),
            forall|k: Seq<char>| k != "flags"@ ==> lookup(a, k) == lookup(b, k),
        ensures
            Self::from_wire(JsonView::Object(a)) == Self::from_wire(JsonView::Object(b)),
    {
        crate::flags::lemma_single_flag_is_list::<LogFlag>(token);
        reveal_strlit("prefix");
        reveal_strlit("group");
        reveal_strlit("snaplen");
        reveal_strlit("queue-threshold");
        reveal_strlit("level");
        reveal_strlit("flags");
        assert("prefix"@.len() == 6);
        assert("group"@.len() == 5 && "group"@[0] == 'g');
        assert("snaplen"@.len() == 7);
        assert("queue-threshold"@.len() == 15);
        assert("level"@.len() == 5 && "level"@[0] == 'l');
        assert("flags"@.len() == 5 && "flags"@[0] == 'f');
        assert(lookup(a, "prefix"@) == lookup(b, "prefix"@));
        assert(lookup(a, "group"@) == lookup(b, "group"@));
        assert(lookup(a, "snaplen"@) == lookup(b, "snaplen"@));
        assert(lookup(a, "queue-threshold"@) == lookup(b, "queue-threshold"@));
        assert(lookup(a, "level"@) == lookup(b, "level"@));
    }

    /// Where an object fails to decode, the failure names the field that it lies in:
    /// its path begins with the key of one of the fields.
    pub proof fn lemma_failure_names_field(m: Seq<(Seq<char>, JsonView)>)
        ensures
            Self::from_wire(JsonView::Object(m)) matches Err(e) ==> e.path.len() > 0 && {
                ||| e.path[0] == PathSegmentView::Key("prefix"@)
                ||| e.path[0] == PathSegmentView::Key("group"@)
                ||| e.path[0] == PathSegmentView::Key("snaplen"@)
                ||| e.path[0] == PathSegmentView::Key("queue-threshold"@)
                ||| e.path[0] == PathSegmentView::Key("level"@)
                ||| e.path[0] == PathSegmentView::Key("flags"@)
            },
    {
        broadcast use lemma_under_key_path;
    }
}

impl Log {
    /// Encodes the value in its wire form.
    pub fn encode(&self) -> (j: Json)
        ensures
            j.deep_view() == self.deep_view().to_wire(),
    {
        let mut m: Vec<(String, Json)> = Vec::new();
        assert(members_view(m) =~= Seq::empty());
        match &self.prefix {
            Some(v) => put(&mut m, "prefix", Json::String(v.clone())),
            None => {},
        }
        match &self.group {
            Some(v) => put(&mut m, "group", Json::Number(*v as i128)),
            None => {},
        }
        match &self.snaplen {
            Some(v) => put(&mut m, "snaplen", Json::Number(*v as i128)),
            None => {},
        }
        match &self.queue_threshold {
            Some(v) => put(&mut m, "queue-threshold", Json::Number(*v as i128)),
            None => {},
        }
        match &self.level {
            Some(v) => put(&mut m, "level", encode_token(v)),
            None => {},
        }
        match &self.flags {
            Some(v) => put(&mut m, "flags", v.encode()),
            None => {},
        }
        Json::Object(m)
    }

    /// Decodes a wire value.
    pub fn decode(j: &Json) -> (r: Result<Log, DecodeError>)
        ensures
            decoded(r, LogView::from_wire(j.deep_view())),
    {
        match j {
            Json::Object(m) => {
                let prefix = match present(m, "prefix") {
                    Some(v) => match decode_string(v) {
                        Ok(x) => Some(x),
                        Err(e) => return Err(e.under_key("prefix")),
                    },
                    None => None,
                };
                let group = match present(m, "group") {
                    Some(v) => match decode_u32(v) {
                        Ok(x) => Some(x),
                        Err(e) => return Err(e.under_key("group")),
                    },
                    None => None,
                };
                let snaplen = match present(m, "snaplen") {
                    Some(v) => match decode_u32(v) {
                        Ok(x) => Some(x),
                        Err(e) => return Err(e.under_key("snaplen")),
                    },
                    None => None,
                };
                let queue_threshold = match present(m, "queue-threshold") {
                    Some(v) => match decode_u32(v) {
                        Ok(x) => Some(x),
                        Err(e) => return Err(e.under_key("queue-threshold")),
                    },
                    None => None,
                };
                let level = match present(m, "level") {
                    Some(v) => match decode_token::<LogLevel>(v) {
                        Ok(x) => Some(x),
                        Err(e) => return Err(e.under_key("level")),
                    },
                    None => None,
                };
                let flags = match present(m, "flags") {
                    Some(v) => match single_string_to_option_hashset_logflag(v) {
                        Ok(x) => x,
                        Err(e) => return Err(e.under_key("flags")),
                    },
                    None => None,
                };
                Ok(Log { prefix, group, snaplen, queue_threshold, level, flags })
            },
            _ => Err(DecodeError::shape()),
        }
    }
}

impl Clone for Log {
    fn clone(&self) -> (r: Self)
        ensures
            r.deep_view() == self.deep_view(),
    {
        Log {
            prefix: match &self.prefix {
                Some(x) => Some(x.clone()),
                None => None,
            },
            group: self.group,
            snaplen: self.snaplen,
            queue_threshold: self.queue_threshold,
            level: self.level,
            flags: match &self.flags {
                Some(x) => Some(x.clone()),
                None => None,
            },
        }
    }
}

/// A statement applied per key of a meter.
#[derive(Debug, PartialEq, Eq)]
pub struct Meter {
    /// The name of the meter.
    pub name: String,
    /// The key of the meter.
    pub key: Expression,
    /// The statement to apply.
    pub stmt: Box<Statement>,
}

/// The mathematical value of a [`Meter`].
pub ghost struct MeterView {
    pub name: Seq<char>,
    pub key: ExpressionView,
    pub stmt: Box<StatementView>,
}

impl DeepView for Meter {
    type V = MeterView;

    open spec fn deep_view(&self) -> MeterView
        decreases self,
    {
        MeterView {
            name: self.name@,
            key: self.key.deep_view(),
            stmt: Box::new((*self.stmt).deep_view()),
        }
    }
}

impl MeterView {
    /// The wire form: an object with one member for each field that has a value.
    pub open spec fn to_wire(self) -> JsonView
        decreases self, 0nat,
    {
        let m = Seq::empty();
        let m = m.push(("name"@, JsonView::String(self.name)));
        let m = m.push(("key"@, self.key.to_wire()));
        let m = m.push(("stmt"@, (*self.stmt).to_wire()));
        JsonView::Object(m)
    }

    /// What a wire value decodes to: the fields are read by their keys, in the order
    /// in which the type lists them, and the first that fails decides the failure.
    pub open spec fn from_wire(j: JsonView) -> Result<MeterView, DecodeErrorView>
        decreases j, 0nat,
    {
        match j {
            JsonView::Object(m) => {
                let name = match lookup(m, "name"@) {
                    Some(v) => at_key(dec_string(v), "name"@),
                    None => Err(DecodeErrorView::missing("name"@)),
                };
                let key = match lookup(m, "key"@) {
                    Some(v) => at_key(ExpressionView::from_wire(v), "key"@),
                    None => Err(DecodeErrorView::missing("key"@)),
                };
                let stmt = match lookup(m, "stmt"@) {
                    Some(v) => at_key(boxed(StatementView::from_wire(v)), "stmt"@),
                    None => Err(DecodeErrorView::missing("stmt"@)),
                };
                if name is Err {
                    Err(name->Err_0)
                } else if key is Err {
                    Err(key->Err_0)
                } else if stmt is Err {
                    Err(stmt->Err_0)
                } else {
                    Ok(MeterView { name: name->Ok_0, key: key->Ok_0, stmt: stmt->Ok_0 })
                }
            },
            _ => Err(DecodeErrorView::shape()),
        }
    }

    /// Whether decoding the wire form gives this value back.
    pub open spec fn canonical(self) -> bool
        decreases self,
    {
        &&& self.key.canonical()
        &&& (*self.stmt).canonical()
    }

    /// What the wire form holds under each key.
    pub proof fn lemma_members(self)
        ensures
            self.to_wire() is Object,
            lookup(self.to_wire()->Object_0, "name"@) == Some(JsonView::String(self.name)),
            lookup(self.to_wire()->Object_0, "key"@) == Some(self.key.to_wire()),
            lookup(self.to_wire()->Object_0, "stmt"@) == Some((*self.stmt).to_wire()),
    {
        broadcast use {lemma_lookup_push, lemma_lookup_empty, lemma_with_opt};
        reveal_strlit("name");
        reveal_strlit("key");
        reveal_strlit("stmt");
        assert("name"@.len() == 4 && "name"@[0] == 'n');
        assert("key"@.len() == 3);
        assert("stmt"@.len() == 4 && "stmt"@[0] == 's');
    }

    /// Decoding the wire form of a value gives the value back.
    pub proof fn lemma_round_trip(self)
        requires
            self.canonical(),
        ensures
            Self::from_wire(self.to_wire()) == Ok::<MeterView, DecodeErrorView>(self),
        decreases self, 0nat,
    {
        self.lemma_members();
        self.key.lemma_round_trip();
        self.key.lemma_not_null();
        (*self.stmt).lemma_round_trip();
        (*self.stmt).lemma_not_null();
    }

    /// The order in which the members of an object stand does not matter to what
    /// the object decodes to.
    pub proof fn lemma_member_order(
        a: Seq<(Seq<char>, JsonView)>,
        b: Seq<(Seq<char>, JsonView)>,
    )
        requires
            same_members(a, b),
        ensures
            Self::from_wire(JsonView::Object(a)) == Self::from_wire(JsonView::Object(b)),
    {
        assert(lookup(a, "name"@) == lookup(b, "name"@));
        assert(lookup(a, "key"@) == lookup(b, "key"@));
        assert(lookup(a, "stmt"@) == lookup(b, "stmt"@));
    }

    /// Where an object fails to decode, the failure names the field that it lies in:
    /// its path begins with the key of one of the fields.
    pub proof fn lemma_failure_names_field(m: Seq<(Seq<char>, JsonView)>)
        ensures
            Self::from_wire(JsonView::Object(m)) matches Err(e) ==> e.path.len() > 0 && {
                ||| e.path[0] == PathSegmentView::Key("name"@)
                ||| e.path[0] == PathSegmentView::Key("key"@)
                ||| e.path[0] == PathSegmentView::Key("stmt"@)
            },
    {
        broadcast use lemma_under_key_path;
    }
}

impl Meter {
    /// Encodes the value in its wire form.
    pub fn encode(&self) -> (j: Json)
        ensures
            j.deep_view() == self.deep_view().to_wire(),
        decreases self,
    {
        let mut m: Vec<(String, Json)> = Vec::new();
        assert(members_view(m) =~= Seq::empty());
        put(&mut m, "name", Json::String(self.name.clone()));
        put(&mut m, "key", self.key.encode());
        put(&mut m, "stmt", self.stmt.encode());
        Json::Object(m)
    }

    /// Decodes a wire value.
    pub fn decode(j: &Json) -> (r: Result<Meter, DecodeError>)
        ensures
            decoded(r, MeterView::from_wire(j.deep_view())),
        decreases j, 0nat,
    {
        match j {
            Json::Object(m) => {
                let name = match find(m, "name") {
                    Some(v) => match decode_string(v) {
                        Ok(x) => x,
                        Err(e) => return Err(e.under_key("name")),
                    },
                    None => return Err(DecodeError::missing("name")),
                };
                let key = match find(m, "key") {
                    Some(v) => match Expression::decode(v) {
                        Ok(x) => x,
                        Err(e) => return Err(e.under_key("key")),
                    },
                    None => return Err(DecodeError::missing("key")),
                };
                let stmt = match find(m, "stmt") {
                    Some(v) => match Statement::decode(v) {
                        Ok(x) => Box::new(x),
                        Err(e) => return Err(e.under_key("stmt")),
                    },
                    None => return Err(DecodeError::missing("stmt")),
                };
                Ok(Meter { name, key, stmt })
            },
            _ => Err(DecodeError::shape()),
        }
    }
}

impl Clone for Meter {
    fn clone(&self) -> (r: Self)
        ensures
            r.deep_view() == self.deep_view(),
        decreases self,
    {
        Meter {
            name: self.name.clone(),
            key: self.key.clone(),
            stmt: Box::new((**(&self.stmt)).clone()),
        }
    }
}

/// An option of a queue.
#[derive(Debug, Clone, Copy, PartialEq, Eq, Hash)]
pub enum QueueFlag {
    /// Let packets pass where no userspace program listens.
    Bypass,
    /// Distribute packets between several queues.
    Fanout,
}

impl Token for QueueFlag {
    open spec fn text(self) -> Seq<char> {
        match self {
            QueueFlag::Bypass => "bypass"@,
            QueueFlag::Fanout => "fanout"@,
        }
    }

    open spec fn from_text(s: Seq<char>) -> Option<Self> {
        if s == "bypass"@ {
            Some(QueueFlag::Bypass)
        } else if s == "fanout"@ {
            Some(QueueFlag::Fanout)
        } else {
            None
        }
    }

    proof fn lemma_text(self) {
        reveal_strlit("bypass");
        reveal_strlit("fanout");
        assert("bypass"@.len() == 6 && "bypass"@[0] == 'b');
        assert("fanout"@.len() == 6 && "fanout"@[0] == 'f');
    }

    proof fn lemma_from_text(s: Seq<char>) {
    }

    fn as_str(&self) -> (s: &'static str) {
        match self {
            QueueFlag::Bypass => "bypass",
            QueueFlag::Fanout => "fanout",
        }
    }

    fn parse(s: &str) -> (r: Option<Self>) {
        if same_text(s, "bypass") {
            Some(QueueFlag::Bypass)
        } else if same_text(s, "fanout") {
            Some(QueueFlag::Fanout)
        } else {
            None
        }
    }
}

impl Flag for QueueFlag {
    open spec fn count() -> nat {
        2
    }

    open spec fn index(self) -> nat {
        match self {
            QueueFlag::Bypass => 0,
            QueueFlag::Fanout => 1,
        }
    }

    open spec fn at(i: nat) -> Self {
        if i == 0 {
            QueueFlag::Bypass
        } else {
            QueueFlag::Fanout
        }
    }

    proof fn lemma_index(self) {
    }

    proof fn lemma_at(i: nat) {
    }

    fn size() -> (n: usize) {
        2
    }

    fn ordinal(&self) -> (i: usize) {
        match self {
            QueueFlag::Bypass => 0,
            QueueFlag::Fanout => 1,
        }
    }

    fn nth(i: usize) -> (t: Self) {
        if i == 0 {
            QueueFlag::Bypass
        } else {
            QueueFlag::Fanout
        }
    }
}

/// A queueing of the packet to userspace.
#[derive(Debug, PartialEq, Eq)]
pub struct Queue {
    /// The queue number.
    pub num: Expression,
    /// The options of the queue.
    pub flags: Option<FlagSet<QueueFlag>>,
}

/// The mathematical value of a [`Queue`].
pub ghost struct QueueView {
    pub num: ExpressionView,
    pub flags: Option<Set<QueueFlag>>,
}

impl DeepView for Queue {
    type V = QueueView;

    open spec fn deep_view(&self) -> QueueView
        decreases self,
    {
        QueueView {
            num: self.num.deep_view(),
            flags: match self.flags {
                Some(x) => Some(x.deep_view()),
                None => None,
            },
        }
    }
}

impl QueueView {
    /// The wire form: an object with one member for each field that has a value.
    pub open spec fn to_wire(self) -> JsonView
        decreases self, 0nat,
    {
        let m = Seq::empty();
        let m = m.push(("num"@, self.num.to_wire()));
        let m = with_opt(
            m,
            "flags"@,
            match self.flags {
                Some(v) => Some(enc_flags(v)),
                None => None,
            },
        );
        JsonView::Object(m)
    }

    /// What a wire value decodes to: the fields are read by their keys, in the order
    /// in which the type lists them, and the first that fails decides the failure.
    pub open spec fn from_wire(j: JsonView) -> Result<QueueView, DecodeErrorView>
        decreases j, 0nat,
    {
        match j {
            JsonView::Object(m) => {
                let num = match lookup(m, "num"@) {
                    Some(v) => at_key(ExpressionView::from_wire(v), "num"@),
                    None => Err(DecodeErrorView::missing("num"@)),
                };
                let flags = match optional(m, "flags"@) {
                    Some(v) => at_key(some(dec_flags::<QueueFlag>(v)), "flags"@),
                    None => Ok(None),
                };
                if num is Err {
                    Err(num->Err_0)
                } else if flags is Err {
                    Err(flags->Err_0)
                } else {
                    Ok(QueueView { num: num->Ok_0, flags: flags->Ok_0 })
                }
            },
            _ => Err(DecodeErrorView::shape()),
        }
    }

    /// Whether decoding the wire form gives this value back.
    pub open spec fn canonical(self) -> bool
        decreases self,
    {
        &&& self.num.canonical()
    }

    /// What the wire form holds under each key.
    pub proof fn lemma_members(self)
        ensures
            self.to_wire() is Object,
            lookup(self.to_wire()->Object_0, "num"@) == Some(self.num.to_wire()),
            lookup(self.to_wire()->Object_0, "flags"@) == match self.flags {
                Some(v) => Some(enc_flags(v)),
                None => None,
            },
    {
        broadcast use {lemma_lookup_push, lemma_lookup_empty, lemma_with_opt};
        reveal_strlit("num");
        reveal_strlit("flags");
        assert("num"@.len() == 3);
        assert("flags"@.len() == 5);
    }

    /// Decoding the wire form of a value gives the value back.
    pub proof fn lemma_round_trip(self)
        requires
            self.canonical(),
        ensures
            Self::from_wire(self.to_wire()) == Ok::<QueueView, DecodeErrorView>(self),
        decreases self, 0nat,
    {
        self.lemma_members();
        self.num.lemma_round_trip();
        self.num.lemma_not_null();
        match self.flags {
            Some(v) => {
                lemma_flags_round_trip(v);
            },
            None => {},
        }
    }

    /// The order in which the members of an object stand does not matter to what
    /// the object decodes to.
    pub proof fn lemma_member_order(
        a: Seq<(Seq<char>, JsonView)>,
        b: Seq<(Seq<char>, JsonView)>,
    )
        requires
            same_members(a, b),
        ensures
            Self::from_wire(JsonView::Object(a)) == Self::from_wire(JsonView::Object(b)),
    {
        assert(lookup(a, "num"@) == lookup(b, "num"@));
        assert(lookup(a, "flags"@) == lookup(b, "flags"@));
    }

    /// Whether the options under `flags` are written as one spelling or as the array
    /// of that one spelling does not matter to what an object decodes to.
    pub proof fn lemma_single_flag_is_list(
        a: Seq<(Seq<char>, JsonView)>,
        b: Seq<(Seq<char>, JsonView)>,
        token: Seq<char>,
    )
        requires
            <QueueFlag as Token>::from_text(token) is Some,
            lookup(a, "flags"@) == Some(JsonView::String(token)),
            lookup(b, "flags"@) == Some(JsonView::Array(seq![JsonView::String(token)])),
            forall|k: Seq<char>| k != "flags"@ ==> lookup(a, k) == lookup(b, k),
        ensures
            Self::from_wire(JsonView::Object(a)) == Self::from_wire(JsonView::Object(b)),
    {
        crate::flags::lemma_single_flag_is_list::<QueueFlag>(token);
        reveal_strlit("num");
        reveal_strlit("flags");
        assert("num"@.len() == 3);
        assert("flags"@.len() == 5);
        assert(lookup(a, "num"@) == lookup(b, "num"@));
    }

    /// Where an object fails to decode, the failure names the field that it lies in:
    /// its path begins with the key of one of the fields.
    pub proof fn lemma_failure_names_field(m: Seq<(Seq<char>, JsonView)>)
        ensures
            Self::from_wire(JsonView::Object(m)) matches Err(e) ==> e.path.len() > 0 && {
                ||| e.path[0] == PathSegmentView::Key("num"@)
                ||| e.path[0] == PathSegmentView::Key("flags"@)
            },
    {
        broadcast use lemma_under_key_path;
    }
}

impl Queue {
    /// Encodes the value in its wire form.
    pub fn encode(&self) -> (j: Json)
        ensures
            j.deep_view() == self.deep_view().to_wire(),
        decreases self,
    {
        let mut m: Vec<(String, Json)> = Vec::new();
        assert(members_view(m) =~= Seq::empty());
        put(&mut m, "num", self.num.encode());
        match &self.flags {
            Some(v) => put(&mut m, "flags", v.encode()),
            None => {},
        }
        Json::Object(m)
    }

    /// Decodes a wire value.
    pub fn decode(j: &Json) -> (r: Result<Queue, DecodeError>)
        ensures
            decoded(r, QueueView::from_wire(j.deep_view())),
        decreases j, 0nat,
    {
        match j {
            Json::Object(m) => {
                let num = match find(m, "num") {
                    Some(v) => match Expression::decode(v) {
                        Ok(x) => x,
                        Err(e) => return Err(e.under_key("num")),
                    },
                    None => return Err(DecodeError::missing("num")),
                };
                let flags = match present(m, "flags") {
                    Some(v) => match deserialize_flags::<QueueFlag>(v) {
                        Ok(x) => Some(x),
                        Err(e) => return Err(e.under_key("flags")),
                    },
                    None => None,
                };
                Ok(Queue { num, flags })
            },
            _ => Err(DecodeError::shape()),
        }
    }
}

impl Clone for Queue {
    fn clone(&self) -> (r: Self)
        ensures
            r.deep_view() == self.deep_view(),
        decreases self,
    {
        Queue {
            num: self.num.clone(),
            flags: match &self.flags {
                Some(x) => Some(x.clone()),
                None => None,
            },
        }
    }
}

/// The verdict that a map holds for a key.
#[derive(Debug, PartialEq, Eq)]
pub struct VerdictMap {
    /// The key to look up.
    pub key: Expression,
    /// The map: a reference to a named one, or an anonymous one.
    pub data: Expression,
}

/// The mathematical value of a [`VerdictMap`].
pub ghost struct VerdictMapView {
    pub key: ExpressionView,
    pub data: ExpressionView,
}

impl DeepView for VerdictMap {
    type V = VerdictMapView;

    open spec fn deep_view(&self) -> VerdictMapView
        decreases self,
    {
        VerdictMapView {
            key: self.key.deep_view(),
            data: self.data.deep_view(),
        }
    }
}

impl VerdictMapView {
    /// The wire form: an object with one member for each field that has a value.
    pub open spec fn to_wire(self) -> JsonView
        decreases self, 0nat,
    {
        let m = Seq::empty();
        let m = m.push(("key"@, self.key.to_wire()));
        let m = m.push(("data"@, self.data.to_wire()));
        JsonView::Object(m)
    }

    /// What a wire value decodes to: the fields are read by their keys, in the order
    /// in which the type lists them, and the first that fails decides the failure.
    pub open spec fn from_wire(j: JsonView) -> Result<VerdictMapView, DecodeErrorView>
        decreases j, 0nat,
    {
        match j {
            JsonView::Object(m) => {
                let key = match lookup(m, "key"@) {
                    Some(v) => at_key(ExpressionView::from_wire(v), "key"@),
                    None => Err(DecodeErrorView::missing("key"@)),
                };
                let data = match lookup(m, "data"@) {
                    Some(v) => at_key(ExpressionView::from_wire(v), "data"@),
                    None => Err(DecodeErrorView::missing("data"@)),
                };
                if key is Err {
                    Err(key->Err_0)
                } else if data is Err {
                    Err(data->Err_0)
                } else {
                    Ok(VerdictMapView { key: key->Ok_0, data: data->Ok_0 })
                }
            },
            _ => Err(DecodeErrorView::shape()),
        }
    }

    /// Whether decoding the wire form gives this value back.
    pub open spec fn canonical(self) -> bool
        decreases self,
    {
        &&& self.key.canonical()
        &&& self.data.canonical()
    }

    /// What the wire form holds under each key.
    pub proof fn lemma_members(self)
        ensures
            self.to_wire() is Object,
            lookup(self.to_wire()->Object_0, "key"@) == Some(self.key.to_wire()),
            lookup(self.to_wire()->Object_0, "data"@) == Some(self.data.to_wire()),
    {
        broadcast use {lemma_lookup_push, lemma_lookup_empty, lemma_with_opt};
        reveal_strlit("key");
        reveal_strlit("data");
        assert("key"@.len() == 3);
        assert("data"@.len() == 4);
    }

    /// Decoding the wire form of a value gives the value back.
    pub proof fn lemma_round_trip(self)
        requires
            self.canonical(),
        ensures
            Self::from_wire(self.to_wire()) == Ok::<VerdictMapView, DecodeErrorView>(self),
        decreases self, 0nat,
    {
        self.lemma_members();
        self.key.lemma_round_trip();
        self.key.lemma_not_null();
        self.data.lemma_round_trip();
        self.data.lemma_not_null();
    }

    /// The order in which the members of an object stand does not matter to what
    /// the object decodes to.
    pub proof fn lemma_member_order(
        a: Seq<(Seq<char>, JsonView)>,
        b: Seq<(Seq<char>, JsonView)>,
    )
        requires
            same_members(a, b),
        ensures
            Self::from_wire(JsonView::Object(a)) == Self::from_wire(JsonView::Object(b)),
    {
        assert(lookup(a, "key"@) == lookup(b, "key"@));
        assert(lookup(a, "data"@) == lookup(b, "data"@));
    }

    /// Where an object fails to decode, the failure names the field that it lies in:
    /// its path begins with the key of one of the fields.
    pub proof fn lemma_failure_names_field(m: Seq<(Seq<char>, JsonView)>)
        ensures
            Self::from_wire(JsonView::Object(m)) matches Err(e) ==> e.path.len() > 0 && {
                ||| e.path[0] == PathSegmentView::Key("key"@)
                ||| e.path[0] == PathSegmentView::Key("data"@)
            },
    {
        broadcast use lemma_under_key_path;
    }
}

impl VerdictMap {
    /// Encodes the value in its wire form.
    pub fn encode(&self) -> (j: Json)
        ensures
            j.deep_view() == self.deep_view().to_wire(),
        decreases self,
    {
        let mut m: Vec<(String, Json)> = Vec::new();
        assert(members_view(m) =~= Seq::empty());
        put(&mut m, "key", self.key.encode());
        put(&mut m, "data", self.data.encode());
        Json::Object(m)
    }

    /// Decodes a wire value.
    pub fn decode(j: &Json) -> (r: Result<VerdictMap, DecodeError>)
        ensures
            decoded(r, VerdictMapView::from_wire(j.deep_view())),
        decreases j, 0nat,
    {
        match j {
            Json::Object(m) => {
                let key = match find(m, "key") {
                    Some(v) => match Expression::decode(v) {
                        Ok(x) => x,
                        Err(e) => return Err(e.under_key("key")),
                    },
                    None => return Err(DecodeError::missing("key")),
                };
                let data = match find(m, "data") {
                    Some(v) => match Expression::decode(v) {
                        Ok(x) => x,
                        Err(e) => return Err(e.under_key("data")),
                    },
                    None => return Err(DecodeError::missing("data")),
                };
                Ok(VerdictMap { key, data })
            },
            _ => Err(DecodeError::shape()),
        }
    }
}

impl Clone for VerdictMap {
    fn clone(&self) -> (r: Self)
        ensures
            r.deep_view() == self.deep_view(),
        decreases self,
    {
        VerdictMap {
            key: self.key.clone(),
            data: self.data.clone(),
        }
    }
}

/// A limit on the number of connections.
#[derive(Debug, PartialEq, Eq)]
pub struct CTCount {
    /// The number of connections.
    pub val: Expression,
    /// Whether the statement matches once the count is exceeded.
    pub inv: Option<bool>,
}

/// The mathematical value of a [`CTCount`].
pub ghost struct CTCountView {
    pub val: ExpressionView,
    pub inv: Option<bool>,
}

impl DeepView for CTCount {
    type V = CTCountView;

    open spec fn deep_view(&self) -> CTCountView
        decreases self,
    {
        CTCountView {
            val: self.val.deep_view(),
            inv: self.inv,
        }
    }
}

impl CTCountView {
    /// The wire form: an object with one member for each field that has a value.
    pub open spec fn to_wire(self) -> JsonView
        decreases self, 0nat,
    {
        let m = Seq::empty();
        let m = m.push(("val"@, self.val.to_wire()));
        let m = with_opt(
            m,
            "inv"@,
            match self.inv {
                Some(v) => Some(JsonView::Bool(v)),
                None => None,
            },
        );
        JsonView::Object(m)
    }

    /// What a wire value decodes to: the fields are read by their keys, in the order
    /// in which the type lists them, and the first that fails decides the failure.
    pub open spec fn from_wire(j: JsonView) -> Result<CTCountView, DecodeErrorView>
        decreases j, 0nat,
    {
        match j {
            JsonView::Object(m) => {
                let val = match lookup(m, "val"@) {
                    Some(v) => at_key(ExpressionView::from_wire(v), "val"@),
                    None => Err(DecodeErrorView::missing("val"@)),
                };
                let inv = match optional(m, "inv"@) {
                    Some(v) => at_key(some(dec_bool(v)), "inv"@),
                    None => Ok(None),
                };
                if val is Err {
                    Err(val->Err_0)
                } else if inv is Err {
                    Err(inv->Err_0)
                } else {
                    Ok(CTCountView { val: val->Ok_0, inv: inv->Ok_0 })
                }
            },
            _ => Err(DecodeErrorView::shape()),
        }
    }

    /// Whether decoding the wire form gives this value back.
    pub open spec fn canonical(self) -> bool
        decreases self,
    {
        &&& self.val.canonical()
    }

    /// What the wire form holds under each key.
    pub proof fn lemma_members(self)
        ensures
            self.to_wire() is Object,
            lookup(self.to_wire()->Object_0, "val"@) == Some(self.val.to_wire()),
            lookup(self.to_wire()->Object_0, "inv"@) == match self.inv {
                Some(v) => Some(JsonView::Bool(v)),
                None => None,
            },
    {
        broadcast use {lemma_lookup_push, lemma_lookup_empty, lemma_with_opt};
        reveal_strlit("val");
        reveal_strlit("inv");
        assert("val"@.len() == 3 && "val"@[0] == 'v');
        assert("inv"@.len() == 3 && "inv"@[0] == 'i');
    }

    /// Decoding the wire form of a value gives the value back.
    pub proof fn lemma_round_trip(self)
        requires
            self.canonical(),
        ensures
            Self::from_wire(self.to_wire()) == Ok::<CTCountView, DecodeErrorView>(self),
        decreases self, 0nat,
    {
        self.lemma_members();
        self.val.lemma_round_trip();
        self.val.lemma_not_null();
    }

    /// The order in which the members of an object stand does not matter to what
    /// the object decodes to.
    pub proof fn lemma_member_order(
        a: Seq<(Seq<char>, JsonView)>,
        b: Seq<(Seq<char>, JsonView)>,
    )
        requires
            same_members(a, b),
        ensures
            Self::from_wire(JsonView::Object(a)) == Self::from_wire(JsonView::Object(b)),
    {
        assert(lookup(a, "val"@) == lookup(b, "val"@));
        assert(lookup(a, "inv"@) == lookup(b, "inv"@));
    }

    /// Where an object fails to decode, the failure names the field that it lies in:
    /// its path begins with the key of one of the fields.
    pub proof fn lemma_failure_names_field(m: Seq<(Seq<char>, JsonView)>)
        ensures
            Self::from_wire(JsonView::Object(m)) matches Err(e) ==> e.path.len() > 0 && {
                ||| e.path[0] == PathSegmentView::Key("val"@)
                ||| e.path[0] == PathSegmentView::Key("inv"@)
            },
    {
        broadcast use lemma_under_key_path;
    }
}

impl CTCount {
    /// Encodes the value in its wire form.
    pub fn encode(&self) -> (j: Json)
        ensures
            j.deep_view() == self.deep_view().to_wire(),
        decreases self,
    {
        let mut m: Vec<(String, Json)> = Vec::new();
        assert(members_view(m) =~= Seq::empty());
        put(&mut m, "val", self.val.encode());
        match &self.inv {
            Some(v) => put(&mut m, "inv", Json::Bool(*v)),
            None => {},
        }
        Json::Object(m)
    }

    /// Decodes a wire value.
    pub fn decode(j: &Json) -> (r: Result<CTCount, DecodeError>)
        ensures
            decoded(r, CTCountView::from_wire(j.deep_view())),
        decreases j, 0nat,
    {
        match j {
            Json::Object(m) => {
                let val = match find(m, "val") {
                    Some(v) => match Expression::decode(v) {
                        Ok(x) => x,
                        Err(e) => return Err(e.under_key("val")),
                    },
                    None => return Err(DecodeError::missing("val")),
                };
                let inv = match present(m, "inv") {
                    Some(v) => match decode_bool(v) {
                        Ok(x) => Some(x),
                        Err(e) => return Err(e.under_key("inv")),
                    },
                    None => None,
                };
                Ok(CTCount { val, inv })
            },
            _ => Err(DecodeError::shape()),
        }
    }
}

impl Clone for CTCount {
    fn clone(&self) -> (r: Self)
        ensures
            r.deep_view() == self.deep_view(),
        decreases self,
    {
        CTCount {
            val: self.val.clone(),
            inv: self.inv,
        }
    }
}

/// An option of a synproxy.
#[derive(Debug, Clone, Copy, PartialEq, Eq, Hash)]
pub enum SynProxyFlag {
    /// Pass the TCP timestamp option.
    Timestamp,
    /// Pass the TCP selective acknowledgement option.
    SackPerm,
}

impl Token for SynProxyFlag {
    open spec fn text(self) -> Seq<char> {
        match self {
            SynProxyFlag::Timestamp => "timestamp"@,
            SynProxyFlag::SackPerm => "sack-perm"@,
        }
    }

    open spec fn from_text(s: Seq<char>) -> Option<Self> {
        if s == "timestamp"@ {
            Some(SynProxyFlag::Timestamp)
        } else if s == "sack-perm"@ {
            Some(SynProxyFlag::SackPerm)
        } else {
            None
        }
    }

    proof fn lemma_text(self) {
        reveal_strlit("timestamp");
        reveal_strlit("sack-perm");
        assert("timestamp"@.len() == 9 && "timestamp"@[0] == 't');
        assert("sack-perm"@.len() == 9 && "sack-perm"@[0] == 's');
    }

    proof fn lemma_from_text(s: Seq<char>) {
    }

    fn as_str(&self) -> (s: &'static str) {
        match self {
            SynProxyFlag::Timestamp => "timestamp",
            SynProxyFlag::SackPerm => "sack-perm",
        }
    }

    fn parse(s: &str) -> (r: Option<Self>) {
        if same_text(s, "timestamp") {
            Some(SynProxyFlag::Timestamp)
        } else if same_text(s, "sack-perm") {
            Some(SynProxyFlag::SackPerm)
        } else {
            None
        }
    }
}

impl Flag for SynProxyFlag {
    open spec fn count() -> nat {
        2
    }

    open spec fn index(self) -> nat {
        match self {
            SynProxyFlag::Timestamp => 0,
            SynProxyFlag::SackPerm => 1,
        }
    }

    open spec fn at(i: nat) -> Self {
        if i == 0 {
            SynProxyFlag::Timestamp
        } else {
            SynProxyFlag::SackPerm
        }
    }

    proof fn lemma_index(self) {
    }

    proof fn lemma_at(i: nat) {
    }

    fn size() -> (n: usize) {
        2
    }

    fn ordinal(&self) -> (i: usize) {
        match self {
            SynProxyFlag::Timestamp => 0,
            SynProxyFlag::SackPerm => 1,
        }
    }

    fn nth(i: usize) -> (t: Self) {
        if i == 0 {
            SynProxyFlag::Timestamp
        } else {
            SynProxyFlag::SackPerm
        }
    }
}

/// A synproxy: it answers TCP handshakes in place of the server.
#[derive(Debug, PartialEq, Eq)]
pub struct SynProxy {
    /// The maximum segment size that is announced.
    pub mss: Option<u16>,
    /// The window scale that is announced.
    pub wscale: Option<u8>,
    /// The options of the synproxy.
    pub flags: Option<FlagSet<SynProxyFlag>>,
}

/// The mathematical value of a [`SynProxy`].
pub ghost struct SynProxyView {
    pub mss: Option<u16>,
    pub wscale: Option<u8>,
    pub flags: Option<Set<SynProxyFlag>>,
}

impl DeepView for SynProxy {
    type V = SynProxyView;

    open spec fn deep_view(&self) -> SynProxyView {
        SynProxyView {
            mss: self.mss,
            wscale: self.wscale,
            flags: match self.flags {
                Some(x) => Some(x.deep_view()),
                None => None,
            },
        }
    }
}

impl SynProxyView {
    /// The wire form: an object with one member for each field that has a value.
    pub open spec fn to_wire(self) -> JsonView {
        let m = Seq::empty();
        let m = with_opt(
            m,
            "mss"@,
            match self.mss {
                Some(v) => Some(JsonView::Number(v as int)),
                None => None,
            },
        );
        let m = with_opt(
            m,
            "wscale"@,
            match self.wscale {
                Some(v) => Some(JsonView::Number(v as int)),
                None => None,
            },
        );
        let m = with_opt(
            m,
            "flags"@,
            match self.flags {
                Some(v) => Some(enc_flags(v)),
                None => None,
            },
        );
        JsonView::Object(m)
    }

    /// What a wire value decodes to: the fields are read by their keys, in the order
    /// in which the type lists them, and the first that fails decides the failure.
    pub open spec fn from_wire(j: JsonView) -> Result<SynProxyView, DecodeErrorView> {
        match j {
            JsonView::Object(m) => {
                let mss = match optional(m, "mss"@) {
                    Some(v) => at_key(some(dec_u16(v)), "mss"@),
                    None => Ok(None),
                };
                let wscale = match optional(m, "wscale"@) {
                    Some(v) => at_key(some(dec_u8(v)), "wscale"@),
                    None => Ok(None),
                };
                let flags = match optional(m, "flags"@) {
                    Some(v) => at_key(some(dec_flags::<SynProxyFlag>(v)), "flags"@),
                    None => Ok(None),
                };
                if mss is Err {
                    Err(mss->Err_0)
                } else if wscale is Err {
                    Err(wscale->Err_0)
                } else if flags is Err {
                    Err(flags->Err_0)
                } else {
                    Ok(SynProxyView { mss: mss->Ok_0, wscale: wscale->Ok_0, flags: flags->Ok_0 })
                }
            },
            _ => Err(DecodeErrorView::shape()),
        }
    }

    /// What the wire form holds under each key.
    pub proof fn lemma_members(self)
        ensures
            self.to_wire() is Object,
            lookup(self.to_wire()->Object_0, "mss"@) == match self.mss {
                Some(v) => Some(JsonView::Number(v as int)),
                None => None,
            },
            lookup(self.to_wire()->Object_0, "wscale"@) == match self.wscale {
                Some(v) => Some(JsonView::Number(v as int)),
                None => None,
            },
            lookup(self.to_wire()->Object_0, "flags"@) == match self.flags {
                Some(v) => Some(enc_flags(v)),
                None => None,
            },
    {
        broadcast use {lemma_lookup_push, lemma_lookup_empty, lemma_with_opt};
        reveal_strlit("mss");
        reveal_strlit("wscale");
        reveal_strlit("flags");
        assert("mss"@.len() == 3);
        assert("wscale"@.len() == 6);
        assert("flags"@.len() == 5);
    }

    /// Decoding the wire form of a value gives the value back.
    pub proof fn lemma_round_trip(self)
        ensures
            Self::from_wire(self.to_wire()) == Ok::<SynProxyView, DecodeErrorView>(self),
    {
        self.lemma_members();
        match self.flags {
            Some(v) => {
                lemma_flags_round_trip(v);
            },
            None => {},
        }
    }

    /// The order in which the members of an object stand does not matter to what
    /// the object decodes to.
    pub proof fn lemma_member_order(
        a: Seq<(Seq<char>, JsonView)>,
        b: Seq<(Seq<char>, JsonView)>,
    )
        requires
            same_members(a, b),
        ensures
            Self::from_wire(JsonView::Object(a)) == Self::from_wire(JsonView::Object(b)),
    {
        assert(lookup(a, "mss"@) == lookup(b, "mss"@));
        assert(lookup(a, "wscale"@) == lookup(b, "wscale"@));
        assert(lookup(a, "flags"@) == lookup(b, "flags"@));
    }

    /// Whether the options under `flags` are written as one spelling or as the array
    /// of that one spelling does not matter to what an object decodes to.
    pub proof fn lemma_single_flag_is_list(
        a: Seq<(Seq<char>, JsonView)>,
        b: Seq<(Seq<char>, JsonView)>,
        token: Seq<char>,
    )
        requires
            <SynProxyFlag as Token>::from_text(token) is Some,
            lookup(a, "flags"@) == Some(JsonView::String(token)),
            lookup(b, "flags"@) == Some(JsonView::Array(seq![JsonView::String(token)])),
            forall|k: Seq<char>| k != "flags"@ ==> lookup(a, k) == lookup(b, k),
        ensures
            Self::from_wire(JsonView::Object(a)) == Self::from_wire(JsonView::Object(b)),
    {
        crate::flags::lemma_single_flag_is_list::<SynProxyFlag>(token);
        reveal_strlit("mss");
        reveal_strlit("wscale");
        reveal_strlit("flags");
        assert("mss"@.len() == 3);
        assert("wscale"@.len() == 6);
        assert("flags"@.len() == 5);
        assert(lookup(a, "mss"@) == lookup(b, "mss"@));
        assert(lookup(a, "wscale"@) == lookup(b, "wscale"@));
    }

    /// Where an object fails to decode, the failure names the field that it lies in:
    /// its path begins with the key of one of the fields.
    pub proof fn lemma_failure_names_field(m: Seq<(Seq<char>, JsonView)>)
        ensures
            Self::from_wire(JsonView::Object(m)) matches Err(e) ==> e.path.len() > 0 && {
                ||| e.path[0] == PathSegmentView::Key("mss"@)
                ||| e.path[0] == PathSegmentView::Key("wscale"@)
                ||| e.path[0] == PathSegmentView::Key("flags"@)
            },
    {
        broadcast use lemma_under_key_path;
    }
}

impl SynProxy {
    /// Encodes the value in its wire form.
    pub fn encode(&self) -> (j: Json)
        ensures
            j.deep_view() == self.deep_view().to_wire(),
    {
        let mut m: Vec<(String, Json)> = Vec::new();
        assert(members_view(m) =~= Seq::empty());
        match &self.mss {
            Some(v) => put(&mut m, "mss", Json::Number(*v as i128)),
            None => {},
        }
        match &self.wscale {
            Some(v) => put(&mut m, "wscale", Json::Number(*v as i128)),
            None => {},
        }
        match &self.flags {
            Some(v) => put(&mut m, "flags", v.encode()),
            None => {},
        }
        Json::Object(m)
    }

    /// Decodes a wire value.
    pub fn decode(j: &Json) -> (r: Result<SynProxy, DecodeError>)
        ensures
            decoded(r, SynProxyView::from_wire(j.deep_view())),
    {
        match j {
            Json::Object(m) => {
                let mss = match present(m, "mss") {
                    Some(v) => match decode_u16(v) {
                        Ok(x) => Some(x),
                        Err(e) => return Err(e.under_key("mss")),
                    },
                    None => None,
                };
                let wscale = match present(m, "wscale") {
                    Some(v) => match decode_u8(v) {
                        Ok(x) => Some(x),
                        Err(e) => return Err(e.under_key("wscale")),
                    },
                    None => None,
                };
                let flags = match present(m, "flags") {
                    Some(v) => match deserialize_flags::<SynProxyFlag>(v) {
                        Ok(x) => Some(x),
                        Err(e) => return Err(e.under_key("flags")),
                    },
                    None => None,
                };
                Ok(SynProxy { mss, wscale, flags })
            },
            _ => Err(DecodeError::shape()),
        }
    }
}

impl Clone for SynProxy {
    fn clone(&self) -> (r: Self)
        ensures
            r.deep_view() == self.deep_view(),
    {
        SynProxy {
            mss: self.mss,
            wscale: self.wscale,
            flags: match &self.flags {
                Some(x) => Some(x.clone()),
                None => None,
            },
        }
    }
}

/// A redirection of the packet to a local socket, without changing it.
#[derive(Debug, PartialEq, Eq)]
pub struct TProxy {
    /// The family of the address.
    pub family: Option<String>,
    /// The port of the socket.
    pub port: u16,
    /// The address of the socket.
    pub addr: Option<String>,
}

/// The mathematical value of a [`TProxy`].
pub ghost struct TProxyView {
    pub family: Option<Seq<char>>,
    pub port: u16,
    pub addr: Option<Seq<char>>,
}

impl DeepView for TProxy {
    type V = TProxyView;

    open spec fn deep_view(&self) -> TProxyView {
        TProxyView {
            family: match self.family {
                Some(x) => Some(x@),
                None => None,
            },
            port: self.port,
            addr: match self.addr {
                Some(x) => Some(x@),
                None => None,
            },
        }
    }
}

impl TProxyView {
    /// The wire form: an object with one member for each field that has a value.
    pub open spec fn to_wire(self) -> JsonView {
        let m = Seq::empty();
        let m = with_opt(
            m,
            "family"@,
            match self.family {
                Some(v) => Some(JsonView::String(v)),
                None => None,
            },
        );
        let m = m.push(("port"@, JsonView::Number(self.port as int)));
        let m = with_opt(
            m,
            "addr"@,
            match self.addr {
                Some(v) => Some(JsonView::String(v)),
                None => None,
            },
        );
        JsonView::Object(m)
    }

    /// What a wire value decodes to: the fields are read by their keys, in the order
    /// in which the type lists them, and the first that fails decides the failure.
    pub open spec fn from_wire(j: JsonView) -> Result<TProxyView, DecodeErrorView> {
        match j {
            JsonView::Object(m) => {
                let family = match optional(m, "family"@) {
                    Some(v) => at_key(some(dec_string(v)), "family"@),
                    None => Ok(None),
                };
                let port = match lookup(m, "port"@) {
                    Some(v) => at_key(dec_u16(v), "port"@),
                    None => Err(DecodeErrorView::missing("port"@)),
                };
                let addr = match optional(m, "addr"@) {
                    Some(v) => at_key(some(dec_string(v)), "addr"@),
                    None => Ok(None),
                };
                if family is Err {
                    Err(family->Err_0)
                } else if port is Err {
                    Err(port->Err_0)
                } else if addr is Err {
                    Err(addr->Err_0)
                } else {
                    Ok(TProxyView { family: family->Ok_0, port: port->Ok_0, addr: addr->Ok_0 })
                }
            },
            _ => Err(DecodeErrorView::shape()),
        }
    }

    /// What the wire form holds under each key.
    pub proof fn lemma_members(self)
        ensures
            self.to_wire() is Object,
            lookup(self.to_wire()->Object_0, "family"@) == match self.family {
                Some(v) => Some(JsonView::String(v)),
                None => None,
            },
            lookup(self.to_wire()->Object_0, "port"@) == Some(JsonView::Number(self.port as int)),
            lookup(self.to_wire()->Object_0, "addr"@) == match self.addr {
                Some(v) => Some(JsonView::String(v)),
                None => None,
            },
    {
        broadcast use {lemma_lookup_push, lemma_lookup_empty, lemma_with_opt};
        reveal_strlit("family");
        reveal_strlit("port");
        reveal_strlit("addr");
        assert("family"@.len() == 6);
        assert("port"@.len() == 4 && "port"@[0] == 'p');
        assert("addr"@.len() == 4 && "addr"@[0] == 'a');
    }

    /// Decoding the wire form of a value gives the value back.
    pub proof fn lemma_round_trip(self)
        ensures
            Self::from_wire(self.to_wire()) == Ok::<TProxyView, DecodeErrorView>(self),
    {
        self.lemma_members();
    }

    /// The order in which the members of an object stand does not matter to what
    /// the object decodes to.
    pub proof fn lemma_member_order(
        a: Seq<(Seq<char>, JsonView)>,
        b: Seq<(Seq<char>, JsonView)>,
    )
        requires
            same_members(a, b),
        ensures
            Self::from_wire(JsonView::Object(a)) == Self::from_wire(JsonView::Object(b)),
    {
        assert(lookup(a, "family"@) == lookup(b, "family"@));
        assert(lookup(a, "port"@) == lookup(b, "port"@));
        assert(lookup(a, "addr"@) == lookup(b, "addr"@));
    }

    /// Where an object fails to decode, the failure names the field that it lies in:
    /// its path begins with the key of one of the fields.
    pub proof fn lemma_failure_names_field(m: Seq<(Seq<char>, JsonView)>)
        ensures
            Self::from_wire(JsonView::Object(m)) matches Err(e) ==> e.path.len() > 0 && {
                ||| e.path[0] == PathSegmentView::Key("family"@)
                ||| e.path[0] == PathSegmentView::Key("port"@)
                ||| e.path[0] == PathSegmentView::Key("addr"@)
            },
    {
        broadcast use lemma_under_key_path;
    }
}

impl TProxy {
    /// Encodes the value in its wire form.
    pub fn encode(&self) -> (j: Json)
        ensures
            j.deep_view() == self.deep_view().to_wire(),
    {
        let mut m: Vec<(String, Json)> = Vec::new();
        assert(members_view(m) =~= Seq::empty());
        match &self.family {
            Some(v) => put(&mut m, "family", Json::String(v.clone())),
            None => {},
        }
        put(&mut m, "port", Json::Number(self.port as i128));
        match &self.addr {
            Some(v) => put(&mut m, "addr", Json::String(v.clone())),
            None => {},
        }
        Json::Object(m)
    }

    /// Decodes a wire value.
    pub fn decode(j: &Json) -> (r: Result<TProxy, DecodeError>)
        ensures
            decoded(r, TProxyView::from_wire(j.deep_view())),
    {
        match j {
            Json::Object(m) => {
                let family = match present(m, "family") {
                    Some(v) => match decode_string(v) {
                        Ok(x) => Some(x),
                        Err(e) => return Err(e.under_key("family")),
                    },
                    None => None,
                };
                let port = match find(m, "port") {
                    Some(v) => match decode_u16(v) {
                        Ok(x) => x,
                        Err(e) => return Err(e.under_key("port")),
                    },
                    None => return Err(DecodeError::missing("port")),
                };
                let addr = match present(m, "addr") {
                    Some(v) => match decode_string(v) {
                        Ok(x) => Some(x),
                        Err(e) => return Err(e.under_key("addr")),
                    },
                    None => None,
                };
                Ok(TProxy { family, port, addr })
            },
            _ => Err(DecodeError::shape()),
        }
    }
}

impl Clone for TProxy {
    fn clone(&self) -> (r: Self)
        ensures
            r.deep_view() == self.deep_view(),
    {
        TProxy {
            family: match &self.family {
                Some(x) => Some(x.clone()),
                None => None,
            },
            port: self.port,
            addr: match &self.addr {
                Some(x) => Some(x.clone()),
                None => None,
            },
        }
    }
}

} // verus!
