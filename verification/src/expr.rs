//! Expressions: the building blocks of statements.
//!
//! In their most basic form expressions are immediate values, written on the wire as a JSON
//! string, integer or boolean. The other kinds are objects with a single member, whose key
//! names the kind.

use vstd::prelude::*;
use crate::error::{
    DecodeError, DecodeErrorView, PathSegmentView, at_index, at_key, boxed, decoded,
    lemma_under_key_path, some,
};
use crate::flags::{FlagSet, dec_flags, enc_flags, lemma_flags_round_trip};
use crate::json::{
    Json, JsonView, find, items_view, lemma_lookup_decreases, lemma_lookup_empty, lemma_lookup_push,
    lookup, members_view, put, same_members, sole_member,
};
use crate::stmt::{Counter, CounterView, JumpTarget, JumpTargetView, Statement, StatementView};
use crate::text::same_text;
use crate::token::{
    Flag, Token, dec_token, decode_token, enc_token, encode_token, lemma_token_round_trip,
};
use crate::visitor::{
    dec_string, dec_u32, decode_string, decode_u32, deserialize_flags, lemma_with_opt, optional,
    present, with_opt,
};

verus! {

broadcast use lemma_lookup_decreases;

/// An expression.
#[derive(Debug, PartialEq, Eq)]
pub enum Expression {
    /// A string, an immediate value.
    ///
    /// Two spellings are special: `@name` refers to the set of that name, and `*` is a
    /// wildcard.
    String(String),
    /// An integer, an immediate value.
    Number(u32),
    /// A boolean, an immediate value.
    Boolean(bool),
    /// A list of expressions, written as a plain array.
    List(Vec<Expression>),
    /// A binary operation.
    BinaryOperation(Box<BinaryOperation>),
    /// A range of values, from a lower to an upper bound.
    Range(Box<Range>),
    /// One of the named kinds of expression.
    Named(NamedExpression),
    /// A verdict, as used in verdict maps.
    Verdict(Verdict),
}

/// The mathematical value of an [`Expression`].
pub ghost enum ExpressionView {
    String(Seq<char>),
    Number(u32),
    Boolean(bool),
    List(Seq<ExpressionView>),
    BinaryOperation(Box<BinaryOperationView>),
    Range(Box<RangeView>),
    Named(NamedExpressionView),
    Verdict(VerdictView),
}

impl DeepView for Expression {
    type V = ExpressionView;

    open spec fn deep_view(&self) -> ExpressionView
        decreases self,
    {
        match self {
            Expression::String(s) => ExpressionView::String(s@),
            Expression::Number(n) => ExpressionView::Number(*n),
            Expression::Boolean(b) => ExpressionView::Boolean(*b),
            Expression::List(items) => ExpressionView::List(expressions_view(items@)),
            Expression::BinaryOperation(op) => ExpressionView::BinaryOperation(
                Box::new((**op).deep_view()),
            ),
            Expression::Range(r) => ExpressionView::Range(Box::new((**r).deep_view())),
            Expression::Named(n) => ExpressionView::Named(n.deep_view()),
            Expression::Verdict(v) => ExpressionView::Verdict(v.deep_view()),
        }
    }
}

impl ExpressionView {
    /// The wire form. An immediate value is written as it is, a list as an array, and each
    /// other kind as its own wire form.
    pub open spec fn to_wire(self) -> JsonView
        decreases self, 0nat,
    {
        match self {
            ExpressionView::String(s) => JsonView::String(s),
            ExpressionView::Number(n) => JsonView::Number(n as int),
            ExpressionView::Boolean(b) => JsonView::Bool(b),
            ExpressionView::List(items) => JsonView::Array(enc_expressions(items)),
            ExpressionView::BinaryOperation(op) => (*op).to_wire(),
            ExpressionView::Range(r) => (*r).to_wire(),
            ExpressionView::Named(n) => n.to_wire(),
            ExpressionView::Verdict(v) => v.to_wire(),
        }
    }

    /// What a wire value decodes to. The shape decides, in this order: a string, a number
    /// and a boolean are immediate values; an array is a list; an object with a member
    /// `range` is a range; an object with one member is the binary operation, the named
    /// expression or the verdict that its key names. Anything else is no expression.
    pub open spec fn from_wire(j: JsonView) -> Result<ExpressionView, DecodeErrorView>
        decreases j, 1nat,
    {
        match j {
            JsonView::String(s) => Ok(ExpressionView::String(s)),
            JsonView::Number(_) => match dec_u32(j) {
                Ok(n) => Ok(ExpressionView::Number(n)),
                Err(e) => Err(e),
            },
            JsonView::Bool(b) => Ok(ExpressionView::Boolean(b)),
            JsonView::Array(items) => match dec_expressions(items) {
                Ok(v) => Ok(ExpressionView::List(v)),
                Err(e) => Err(e),
            },
            JsonView::Object(m) => match lookup(m, "range"@) {
                Some(v) => match RangeView::from_bounds(v) {
                    Ok(r) => Ok(ExpressionView::Range(Box::new(r))),
                    Err(e) => Err(e.under_key("range"@)),
                },
                None => match sole_member(m) {
                    Some((k, v)) => if BinaryOperationView::knows(k) {
                        match BinaryOperationView::from_member(k, v) {
                            Ok(op) => Ok(ExpressionView::BinaryOperation(Box::new(op))),
                            Err(e) => Err(e),
                        }
                    } else if NamedExpressionView::knows(k) {
                        match NamedExpressionView::from_member(k, v) {
                            Ok(n) => Ok(ExpressionView::Named(n)),
                            Err(e) => Err(e),
                        }
                    } else if VerdictView::knows(k) {
                        match VerdictView::from_member(k, v) {
                            Ok(x) => Ok(ExpressionView::Verdict(x)),
                            Err(e) => Err(e),
                        }
                    } else {
                        Err(DecodeErrorView::shape())
                    },
                    None => Err(DecodeErrorView::shape()),
                },
            },
            _ => Err(DecodeErrorView::shape()),
        }
    }

    /// Whether decoding the wire form gives this value back.
    ///
    /// A verdict without a target is written as a bare string and so reads back as a
    /// string; every other expression is canonical where its parts are.
    pub open spec fn canonical(self) -> bool
        decreases self,
    {
        match self {
            ExpressionView::List(items) => expressions_canonical(items),
            ExpressionView::BinaryOperation(op) => (*op).canonical(),
            ExpressionView::Range(r) => (*r).canonical(),
            ExpressionView::Named(n) => n.canonical(),
            ExpressionView::Verdict(v) => v is Jump || v is Goto,
            _ => true,
        }
    }

    /// The wire form of an expression is never `null`.
    pub proof fn lemma_not_null(self)
        ensures
            !(self.to_wire() is Null),
    {
    }

    /// Decoding the wire form of a canonical expression gives the expression back.
    pub proof fn lemma_round_trip(self)
        requires
            self.canonical(),
        ensures
            Self::from_wire(self.to_wire()) == Ok::<ExpressionView, DecodeErrorView>(self),
        decreases self, 2nat,
    {
        broadcast use {lemma_lookup_push, lemma_lookup_empty};
        match self {
            ExpressionView::List(items) => {
                lemma_expressions_round_trip(items);
            },
            ExpressionView::BinaryOperation(op) => {
                (*op).lemma_round_trip();
                (*op).lemma_key();
                lemma_kinds_apart((*op).key());

                let m = seq![((*op).key(), (*op).payload())];
                assert(Seq::empty().push(((*op).key(), (*op).payload())) =~= m);
            },
            ExpressionView::Range(r) => {
                (*r).lemma_round_trip();
                let m = seq![("range"@, (*r).bounds_to_wire())];
                assert(Seq::empty().push(("range"@, (*r).bounds_to_wire())) =~= m);
            },
            ExpressionView::Named(n) => {
                n.lemma_round_trip();
                n.lemma_key();
                lemma_kinds_apart(n.key());

                
                let m = seq![(n.key(), n.payload())];
                assert(Seq::empty().push((n.key(), n.payload())) =~= m);
            },
            ExpressionView::Verdict(v) => {
                v.lemma_round_trip();
                v.lemma_key();
                lemma_kinds_apart(v.key());

                

                let m = seq![(v.key(), v.payload())];
                assert(Seq::empty().push((v.key(), v.payload())) =~= m);
            },
            _ => {},
        }
    }
}

impl Expression {
    /// Encodes the expression in its wire form.
    pub fn encode(&self) -> (j: Json)
        ensures
            j.deep_view() == self.deep_view().to_wire(),
        decreases self,
    {
        match self {
            Expression::String(s) => Json::String(s.clone()),
            Expression::Number(n) => Json::Number(*n as i128),
            Expression::Boolean(b) => Json::Bool(*b),
            Expression::List(items) => Json::Array(encode_expressions(items)),
            Expression::BinaryOperation(op) => op.encode(),
            Expression::Range(r) => r.encode(),
            Expression::Named(n) => n.encode(),
            Expression::Verdict(v) => v.encode(),
        }
    }

    /// Decodes a wire value by its shape.
    pub fn decode(j: &Json) -> (r: Result<Expression, DecodeError>)
        ensures
            decoded(r, ExpressionView::from_wire(j.deep_view())),
        decreases j, 1nat,
    {
        match j {
            Json::String(s) => Ok(Expression::String(s.clone())),
            Json::Number(_) => match decode_u32(j) {
                Ok(n) => Ok(Expression::Number(n)),
                Err(e) => Err(e),
            },
            Json::Bool(b) => Ok(Expression::Boolean(*b)),
            Json::Array(items) => match decode_expressions(items) {
                Ok(v) => Ok(Expression::List(v)),
                Err(e) => Err(e),
            },
            Json::Object(m) => match find(m, "range") {
                Some(v) => match Range::decode_bounds(v) {
                    Ok(r) => Ok(Expression::Range(Box::new(r))),
                    Err(e) => Err(e.under_key("range")),
                },
                None => {
                    if m.len() != 1 {
                        return Err(DecodeError::shape());
                    }
                    let k = m[0].0.as_str();
                    let v = &m[0].1;
                    if BinaryOperation::knows(k) {
                        match BinaryOperation::decode_member(k, v) {
                            Ok(op) => Ok(Expression::BinaryOperation(Box::new(op))),
                            Err(e) => Err(e),
                        }
                    } else if NamedExpression::knows(k) {
                        match NamedExpression::decode_member(k, v) {
                            Ok(n) => Ok(Expression::Named(n)),
                            Err(e) => Err(e),
                        }
                    } else if Verdict::knows(k) {
                        match Verdict::decode_member(k, v) {
                            Ok(x) => Ok(Expression::Verdict(x)),
                            Err(e) => Err(e),
                        }
                    } else {
                        Err(DecodeError::shape())
                    }
                },
            },
            _ => Err(DecodeError::shape()),
        }
    }
}

impl Clone for Expression {
    fn clone(&self) -> (r: Self)
        ensures
            r.deep_view() == self.deep_view(),
        decreases self,
    {
        match self {
            Expression::String(s) => Expression::String(s.clone()),
            Expression::Number(n) => Expression::Number(*n),
            Expression::Boolean(b) => Expression::Boolean(*b),
            Expression::List(items) => Expression::List(clone_expressions(items)),
            Expression::BinaryOperation(op) => Expression::BinaryOperation(
                Box::new((**op).clone()),
            ),
            Expression::Range(r) => Expression::Range(Box::new((**r).clone())),
            Expression::Named(n) => Expression::Named(n.clone()),
            Expression::Verdict(v) => Expression::Verdict(v.clone()),
        }
    }
}

impl Clone for Range {
    fn clone(&self) -> (r: Self)
        ensures
            r.deep_view() == self.deep_view(),
        decreases self,
    {
        Range { range: (self.range.0.clone(), self.range.1.clone()) }
    }
}

impl Clone for SetItem {
    fn clone(&self) -> (r: Self)
        ensures
            r.deep_view() == self.deep_view(),
        decreases self,
    {
        match self {
            SetItem::Element(e) => SetItem::Element(e.clone()),
            SetItem::Mapping(a, b) => SetItem::Mapping(a.clone(), b.clone()),
            SetItem::MappingStatement(e, s) => SetItem::MappingStatement(e.clone(), s.clone()),
        }
    }
}

impl Clone for Payload {
    fn clone(&self) -> (r: Self)
        ensures
            r.deep_view() == self.deep_view(),
    {
        match self {
            Payload::PayloadField(f) => Payload::PayloadField(f.clone()),
            Payload::PayloadRaw(p) => Payload::PayloadRaw(*p),
        }
    }
}

/// The values of a list of expressions.
pub open spec fn expressions_view(items: Seq<Expression>) -> Seq<ExpressionView>
    decreases items,
{
    if items.len() == 0 {
        Seq::empty()
    } else {
        expressions_view(items.drop_last()).push(items.last().deep_view())
    }
}

/// The values of a list are as many as its items.
pub broadcast proof fn lemma_expressions_view_len(items: Seq<Expression>)
    ensures
        #[trigger] expressions_view(items).len() == items.len(),
    decreases items.len(),
{
    if items.len() > 0 {
        lemma_expressions_view_len(items.drop_last());
        assert(expressions_view(items) == expressions_view(items.drop_last()).push(
            items.last().deep_view(),
        ));
    }
}

/// The value at a place of a list is the value of the item at that place.
pub broadcast proof fn lemma_expressions_view_index(items: Seq<Expression>, k: int)
    requires
        0 <= k < items.len(),
    ensures
        #[trigger] expressions_view(items)[k] == items[k].deep_view(),
    decreases items.len(),
{
    lemma_expressions_view_len(items);
    lemma_expressions_view_len(items.drop_last());
    assert(
        expressions_view(items) == expressions_view(items.drop_last()).push(
            items.last().deep_view(),
        )
    );
    if k < items.len() - 1 {
        lemma_expressions_view_index(items.drop_last(), k);
    }
}

/// The wire forms of a list of expressions, in the list's order.
pub open spec fn enc_expressions(items: Seq<ExpressionView>) -> Seq<JsonView>
    decreases items, 0nat,
{
    Seq::new(
        items.len(),
        |i: int|
            if 0 <= i < items.len() {
                items[i].to_wire()
            } else {
                JsonView::Null
            },
    )
}

/// What a list of wire values decodes to: each item in turn, and the first that fails
/// decides the failure.
pub open spec fn dec_expressions(
    items: Seq<JsonView>,
) -> Result<Seq<ExpressionView>, DecodeErrorView>
    decreases items, 0nat,
{
    if items.len() == 0 {
        Ok(Seq::empty())
    } else {
        match dec_expressions(items.drop_last()) {
            Ok(vs) => match ExpressionView::from_wire(items.last()) {
                Ok(v) => Ok(vs.push(v)),
                Err(e) => Err(e.under_index(items.len() - 1)),
            },
            Err(e) => Err(e),
        }
    }
}

/// What a wire value decodes to where a list of expressions is expected: it is an array.
pub open spec fn dec_expression_list(j: JsonView) -> Result<Seq<ExpressionView>, DecodeErrorView>
    decreases j, 0nat,
{
    match j {
        JsonView::Array(items) => dec_expressions(items),
        _ => Err(DecodeErrorView::shape()),
    }
}

/// Whether each item of a list is canonical.
pub open spec fn expressions_canonical(items: Seq<ExpressionView>) -> bool
    decreases items,
{
    forall|i: int| 0 <= i < items.len() ==> (#[trigger] items[i]).canonical()
}

/// Decoding the wire forms of a list gives the list back.
pub proof fn lemma_expressions_round_trip(items: Seq<ExpressionView>)
    requires
        expressions_canonical(items),
    ensures
        dec_expressions(enc_expressions(items)) matches Ok(vs) && vs == items,
        dec_expression_list(JsonView::Array(enc_expressions(items))) matches Ok(vs) && vs == items,
    decreases items, 0nat,
{
    if items.len() > 0 {
        lemma_expressions_round_trip(items.drop_last());
        items.last().lemma_round_trip();
        assert(enc_expressions(items).drop_last() =~= enc_expressions(items.drop_last()));
        assert(items.drop_last().push(items.last()) =~= items);
    } else {
        assert(items =~= Seq::empty());
    }
}

/// A list that failed to decode up to some item fails as a whole in the same way.
pub proof fn lemma_dec_expressions_fails(items: Seq<JsonView>, i: int)
    requires
        0 <= i < items.len(),
        dec_expressions(items.take(i + 1)) is Err,
    ensures
        dec_expressions(items) == dec_expressions(items.take(i + 1)),
    decreases items.len(),
{
    if i + 1 < items.len() {
        assert(items.drop_last().take(i + 1) =~= items.take(i + 1));
        lemma_dec_expressions_fails(items.drop_last(), i);
    } else {
        assert(items.take(i + 1) =~= items);
    }
}

/// Encodes each item of a list.
pub fn encode_expressions(items: &Vec<Expression>) -> (r: Vec<Json>)
    ensures
        items_view(r) == enc_expressions(expressions_view(items@)),
    decreases items,
{
    let mut out: Vec<Json> = Vec::new();
    let mut i: usize = 0;
    while i < items.len()
        invariant
            i <= items.len(),
            out.len() == i,
            forall|k: int| 0 <= k < i ==> out[k].deep_view() == items[k].deep_view().to_wire(),
        decreases items.len() - i,
    {
        out.push(items[i].encode());
        i += 1;
    }
    proof {
        let views = expressions_view(items@);
        lemma_expressions_view_len(items@);
        assert forall|k: int| 0 <= k < items.len() implies items_view(out)[k] == enc_expressions(
            views,
        )[k] by {
            lemma_expressions_view_index(items@, k);
        }
        assert(items_view(out) =~= enc_expressions(views));
    }
    out
}

/// Decodes each item of a list.
pub fn decode_expressions(items: &Vec<Json>) -> (r: Result<Vec<Expression>, DecodeError>)
    ensures
        match r {
            Ok(v) => dec_expressions(items_view(*items)) matches Ok(vs) && vs == expressions_view(
                v@,
            ),
            Err(e) => dec_expressions(items_view(*items)) matches Err(f) && f == e.deep_view(),
        },
    decreases items, 0nat,
{
    let mut out: Vec<Expression> = Vec::new();
    let mut i: usize = 0;
    let ghost view = items_view(*items);
    assert(view.take(0) =~= Seq::empty());
    assert(expressions_view(out@) == Seq::<ExpressionView>::empty());
    while i < items.len()
        invariant
            i <= items.len(),
            view == items_view(*items),
            dec_expressions(view.take(i as int)) matches Ok(vs) && vs == expressions_view(out@),
        decreases items.len() - i,
    {
        proof {
            assert(view.take(i + 1).drop_last() =~= view.take(i as int));
            assert(view.take(i + 1).last() == items[i as int].deep_view());
        }
        match Expression::decode(&items[i]) {
            Ok(v) => {
                let ghost before = out@;
                out.push(v);
                proof {
                    assert(out@.drop_last() =~= before);
                    assert(expressions_view(out@) == expressions_view(out@.drop_last()).push(
                        out@.last().deep_view(),
                    ));
                }
            },
            Err(e) => {
                proof {
                    lemma_dec_expressions_fails(view, i as int);
                }
                return Err(e.under_index(i));
            },
        }
        i += 1;
    }
    assert(view.take(i as int) =~= view);
    Ok(out)
}

/// Copies each item of a list.
pub fn clone_expressions(items: &Vec<Expression>) -> (r: Vec<Expression>)
    ensures
        expressions_view(r@) == expressions_view(items@),
    decreases items,
{
    let mut out: Vec<Expression> = Vec::new();
    let mut i: usize = 0;
    assert(items@.take(0) =~= Seq::empty());
    assert(expressions_view(out@) == expressions_view(items@.take(0)));
    while i < items.len()
        invariant
            i <= items.len(),
            expressions_view(out@) == expressions_view(items@.take(i as int)),
        decreases items.len() - i,
    {
        let ghost before = out@;
        out.push(items[i].clone());
        proof {
            let next = items@.take(i + 1);
            assert(out@.drop_last() =~= before);
            assert(next.drop_last() =~= items@.take(i as int));
            assert(expressions_view(out@) == expressions_view(out@.drop_last()).push(
                out@.last().deep_view(),
            ));
            assert(
                expressions_view(next) == expressions_view(next.drop_last()).push(
                    next.last().deep_view(),
                )
            );
        }
        i += 1;
    }
    assert(items@.take(i as int) =~= items@);
    out
}

/// Decodes a wire value where a list of expressions is expected.
pub fn decode_expression_list(j: &Json) -> (r: Result<Vec<Expression>, DecodeError>)
    ensures
        match r {
            Ok(v) => dec_expression_list(j.deep_view()) matches Ok(vs) && vs == expressions_view(
                v@,
            ),
            Err(e) => dec_expression_list(j.deep_view()) matches Err(f) && f == e.deep_view(),
        },
    decreases j, 0nat,
{
    match j {
        Json::Array(items) => decode_expressions(items),
        _ => Err(DecodeError::shape()),
    }
}

/// A range of values.
#[derive(Debug, PartialEq, Eq)]
pub struct Range {
    /// The boundaries: the lower one first, then the upper one.
    pub range: (Expression, Expression),
}

/// The mathematical value of a [`Range`].
pub ghost struct RangeView {
    pub range: (ExpressionView, ExpressionView),
}

impl DeepView for Range {
    type V = RangeView;

    open spec fn deep_view(&self) -> RangeView
        decreases self,
    {
        RangeView { range: (self.range.0.deep_view(), self.range.1.deep_view()) }
    }
}

impl RangeView {
    /// The wire form of the boundaries: an array of the two.
    pub open spec fn bounds_to_wire(self) -> JsonView
        decreases self, 0nat,
    {
        JsonView::Array(seq![self.range.0.to_wire(), self.range.1.to_wire()])
    }

    /// The wire form: an object whose member `range` holds the boundaries.
    pub open spec fn to_wire(self) -> JsonView
        decreases self, 1nat,
    {
        JsonView::Object(seq![("range"@, self.bounds_to_wire())])
    }

    /// What a wire value decodes to where boundaries are expected: it is an array of
    /// exactly two expressions.
    pub open spec fn from_bounds(j: JsonView) -> Result<RangeView, DecodeErrorView>
        decreases j, 0nat,
    {
        match j {
            JsonView::Array(items) => if items.len() == 2 {
                match at_index(ExpressionView::from_wire(items[0]), 0) {
                    Ok(lower) => match at_index(ExpressionView::from_wire(items[1]), 1) {
                        Ok(upper) => Ok(RangeView { range: (lower, upper) }),
                        Err(e) => Err(e),
                    },
                    Err(e) => Err(e),
                }
            } else {
                Err(DecodeErrorView::shape())
            },
            _ => Err(DecodeErrorView::shape()),
        }
    }

    /// What a wire value decodes to: it is an object with a member `range`.
    pub open spec fn from_wire(j: JsonView) -> Result<RangeView, DecodeErrorView>
        decreases j, 1nat,
    {
        match j {
            JsonView::Object(m) => match lookup(m, "range"@) {
                Some(v) => at_key(Self::from_bounds(v), "range"@),
                None => Err(DecodeErrorView::missing("range"@)),
            },
            _ => Err(DecodeErrorView::shape()),
        }
    }

    /// Whether decoding the wire form gives this value back.
    pub open spec fn canonical(self) -> bool
        decreases self,
    {
        self.range.0.canonical() && self.range.1.canonical()
    }

    /// Decoding the wire form of a canonical range gives the range back.
    pub proof fn lemma_round_trip(self)
        requires
            self.canonical(),
        ensures
            Self::from_bounds(self.bounds_to_wire()) == Ok::<RangeView, DecodeErrorView>(self),
            Self::from_wire(self.to_wire()) == Ok::<RangeView, DecodeErrorView>(self),
        decreases self, 0nat,
    {
        broadcast use {lemma_lookup_push, lemma_lookup_empty};
        self.range.0.lemma_round_trip();
        self.range.1.lemma_round_trip();
        let m = seq![("range"@, self.bounds_to_wire())];
        assert(Seq::empty().push(("range"@, self.bounds_to_wire())) =~= m);
    }
}

impl Range {
    /// Encodes the range in its wire form.
    pub fn encode(&self) -> (j: Json)
        ensures
            j.deep_view() == self.deep_view().to_wire(),
        decreases self,
    {
        let mut items: Vec<Json> = Vec::new();
        items.push(self.range.0.encode());
        items.push(self.range.1.encode());
        assert(items_view(items) =~= seq![
            self.range.0.deep_view().to_wire(),
            self.range.1.deep_view().to_wire(),
        ]);
        let mut m: Vec<(String, Json)> = Vec::new();
        assert(members_view(m) =~= Seq::empty());
        put(&mut m, "range", Json::Array(items));
        assert(members_view(m) =~= seq![("range"@, self.deep_view().bounds_to_wire())]);
        Json::Object(m)
    }

    /// Decodes the boundaries of a range.
    pub fn decode_bounds(j: &Json) -> (r: Result<Range, DecodeError>)
        ensures
            decoded(r, RangeView::from_bounds(j.deep_view())),
        decreases j, 0nat,
    {
        match j {
            Json::Array(items) => {
                if items.len() != 2 {
                    return Err(DecodeError::shape());
                }
                let lower = match Expression::decode(&items[0]) {
                    Ok(x) => x,
                    Err(e) => return Err(e.under_index(0)),
                };
                let upper = match Expression::decode(&items[1]) {
                    Ok(x) => x,
                    Err(e) => return Err(e.under_index(1)),
                };
                Ok(Range { range: (lower, upper) })
            },
            _ => Err(DecodeError::shape()),
        }
    }

    /// Decodes a wire value.
    pub fn decode(j: &Json) -> (r: Result<Range, DecodeError>)
        ensures
            decoded(r, RangeView::from_wire(j.deep_view())),
        decreases j, 1nat,
    {
        match j {
            Json::Object(m) => match find(m, "range") {
                Some(v) => match Self::decode_bounds(v) {
                    Ok(x) => Ok(x),
                    Err(e) => Err(e.under_key("range")),
                },
                None => Err(DecodeError::missing("range")),
            },
            _ => Err(DecodeError::shape()),
        }
    }
}

/// A binary operation on two expressions.
#[derive(Debug, PartialEq, Eq)]
pub enum BinaryOperation {
    /// Binary AND (`&`).
    AND(Expression, Expression),
    /// Binary OR (`|`).
    OR(Expression, Expression),
    /// Binary XOR (`^`).
    XOR(Expression, Expression),
    /// Left shift (`<<`).
    LSHIFT(Expression, Expression),
    /// Right shift (`>>`).
    RSHIFT(Expression, Expression),
}

/// The mathematical value of a [`BinaryOperation`].
pub ghost enum BinaryOperationView {
    AND(ExpressionView, ExpressionView),
    OR(ExpressionView, ExpressionView),
    XOR(ExpressionView, ExpressionView),
    LSHIFT(ExpressionView, ExpressionView),
    RSHIFT(ExpressionView, ExpressionView),
}

impl DeepView for BinaryOperation {
    type V = BinaryOperationView;

    open spec fn deep_view(&self) -> BinaryOperationView
        decreases self,
    {
        match self {
            BinaryOperation::AND(a, b) => BinaryOperationView::AND(
                a.deep_view(),
                b.deep_view(),
            ),
            BinaryOperation::OR(a, b) => BinaryOperationView::OR(
                a.deep_view(),
                b.deep_view(),
            ),
            BinaryOperation::XOR(a, b) => BinaryOperationView::XOR(
                a.deep_view(),
                b.deep_view(),
            ),
            BinaryOperation::LSHIFT(a, b) => BinaryOperationView::LSHIFT(
                a.deep_view(),
                b.deep_view(),
            ),
            BinaryOperation::RSHIFT(a, b) => BinaryOperationView::RSHIFT(
                a.deep_view(),
                b.deep_view(),
            ),
        }
    }
}

impl BinaryOperationView {
    /// The operator's sign, which is the key on the wire.
    pub open spec fn key(self) -> Seq<char> {
        match self {
            BinaryOperationView::AND(_, _) => "&"@,
            BinaryOperationView::OR(_, _) => "|"@,
            BinaryOperationView::XOR(_, _) => "^"@,
            BinaryOperationView::LSHIFT(_, _) => "<<"@,
            BinaryOperationView::RSHIFT(_, _) => ">>"@,
        }
    }

    /// Whether a key is an operator's sign.
    pub open spec fn knows(k: Seq<char>) -> bool {
        ||| k == "&"@
        ||| k == "|"@
        ||| k == "^"@
        ||| k == "<<"@
        ||| k == ">>"@
    }

    /// The left operand.
    pub open spec fn left(self) -> ExpressionView {
        match self {
            BinaryOperationView::AND(a, _) => a,
            BinaryOperationView::OR(a, _) => a,
            BinaryOperationView::XOR(a, _) => a,
            BinaryOperationView::LSHIFT(a, _) => a,
            BinaryOperationView::RSHIFT(a, _) => a,
        }
    }

    /// The right operand.
    pub open spec fn right(self) -> ExpressionView {
        match self {
            BinaryOperationView::AND(_, b) => b,
            BinaryOperationView::OR(_, b) => b,
            BinaryOperationView::XOR(_, b) => b,
            BinaryOperationView::LSHIFT(_, b) => b,
            BinaryOperationView::RSHIFT(_, b) => b,
        }
    }

    /// What stands under the sign on the wire: an array of the two operands.
    pub open spec fn payload(self) -> JsonView
        decreases self, 0nat,
    {
        match self {
            BinaryOperationView::AND(a, b) => JsonView::Array(seq![a.to_wire(), b.to_wire()]),
            BinaryOperationView::OR(a, b) => JsonView::Array(seq![a.to_wire(), b.to_wire()]),
            BinaryOperationView::XOR(a, b) => JsonView::Array(seq![a.to_wire(), b.to_wire()]),
            BinaryOperationView::LSHIFT(a, b) => JsonView::Array(seq![a.to_wire(), b.to_wire()]),
            BinaryOperationView::RSHIFT(a, b) => JsonView::Array(seq![a.to_wire(), b.to_wire()]),
        }
    }

    /// The wire form: an object whose one member is named by the operator's sign.
    pub open spec fn to_wire(self) -> JsonView
        decreases self, 1nat,
    {
        JsonView::Object(seq![(self.key(), self.payload())])
    }

    /// What the member `k: v` decodes to, where `k` is an operator's sign: `v` is an
    /// array of exactly two expressions.
    pub open spec fn from_member(
        k: Seq<char>,
        v: JsonView,
    ) -> Result<BinaryOperationView, DecodeErrorView>
        decreases v, 0nat,
    {
        if !Self::knows(k) {
            Err(DecodeErrorView::shape())
        } else {
            match v {
                JsonView::Array(items) => if items.len() == 2 {
                    match at_index(ExpressionView::from_wire(items[0]), 0) {
                        Ok(a) => match at_index(ExpressionView::from_wire(items[1]), 1) {
                            Ok(b) => Ok(
                                if k == "&"@ {
                                    BinaryOperationView::AND(a, b)
                                } else if k == "|"@ {
                                    BinaryOperationView::OR(a, b)
                                } else if k == "^"@ {
                                    BinaryOperationView::XOR(a, b)
                                } else if k == "<<"@ {
                                    BinaryOperationView::LSHIFT(a, b)
                                } else {
                                    BinaryOperationView::RSHIFT(a, b)
                                },
                            ),
                            Err(e) => Err(e.under_key(k)),
                        },
                        Err(e) => Err(e.under_key(k)),
                    }
                } else {
                    Err(DecodeErrorView::shape().under_key(k))
                },
                _ => Err(DecodeErrorView::shape().under_key(k)),
            }
        }
    }

    /// What a wire value decodes to: it is an object with exactly one member, whose
    /// key is an operator's sign.
    pub open spec fn from_wire(j: JsonView) -> Result<BinaryOperationView, DecodeErrorView>
        decreases j, 1nat,
    {
        match j {
            JsonView::Object(m) => match sole_member(m) {
                Some((k, v)) => Self::from_member(k, v),
                None => Err(DecodeErrorView::shape()),
            },
            _ => Err(DecodeErrorView::shape()),
        }
    }

    /// Whether decoding the wire form gives this value back.
    pub open spec fn canonical(self) -> bool
        decreases self,
    {
        match self {
            BinaryOperationView::AND(a, b) => a.canonical() && b.canonical(),
            BinaryOperationView::OR(a, b) => a.canonical() && b.canonical(),
            BinaryOperationView::XOR(a, b) => a.canonical() && b.canonical(),
            BinaryOperationView::LSHIFT(a, b) => a.canonical() && b.canonical(),
            BinaryOperationView::RSHIFT(a, b) => a.canonical() && b.canonical(),
        }
    }

    /// The key of a value is an operator's sign.
    pub proof fn lemma_key(self)
        ensures
            Self::knows(self.key()),
    {
    }

    /// Decoding the wire form of a canonical operation gives the operation back.
    pub proof fn lemma_round_trip(self)
        requires
            self.canonical(),
        ensures
            Self::from_member(self.key(), self.payload()) matches Ok(v) && v == self,
            Self::from_wire(self.to_wire()) == Ok::<BinaryOperationView, DecodeErrorView>(self),
        decreases self, 1nat,
    {
        reveal_strlit("&");
        reveal_strlit("|");
        reveal_strlit("^");
        reveal_strlit("<<");
        reveal_strlit(">>");
        assert("&"@.len() == 1 && "&"@[0] == '&');
        assert("|"@.len() == 1 && "|"@[0] == '|');
        assert("^"@.len() == 1 && "^"@[0] == '^');
        assert("<<"@.len() == 2 && "<<"@[0] == '<');
        assert(">>"@.len() == 2 && ">>"@[0] == '>');
        match self {
            BinaryOperationView::AND(a, b) => {
                a.lemma_round_trip();
                b.lemma_round_trip();
            },
            BinaryOperationView::OR(a, b) => {
                a.lemma_round_trip();
                b.lemma_round_trip();
            },
            BinaryOperationView::XOR(a, b) => {
                a.lemma_round_trip();
                b.lemma_round_trip();
            },
            BinaryOperationView::LSHIFT(a, b) => {
                a.lemma_round_trip();
                b.lemma_round_trip();
            },
            BinaryOperationView::RSHIFT(a, b) => {
                a.lemma_round_trip();
                b.lemma_round_trip();
            },
        }
    }
}

impl Clone for BinaryOperation {
    fn clone(&self) -> (r: Self)
        ensures
            r.deep_view() == self.deep_view(),
        decreases self,
    {
        match self {
            BinaryOperation::AND(a, b) => BinaryOperation::AND(a.clone(), b.clone()),
            BinaryOperation::OR(a, b) => BinaryOperation::OR(a.clone(), b.clone()),
            BinaryOperation::XOR(a, b) => BinaryOperation::XOR(a.clone(), b.clone()),
            BinaryOperation::LSHIFT(a, b) => BinaryOperation::LSHIFT(a.clone(), b.clone()),
            BinaryOperation::RSHIFT(a, b) => BinaryOperation::RSHIFT(a.clone(), b.clone()),
        }
    }
}

impl BinaryOperation {
    /// The operator's sign.
    pub fn sign(&self) -> (s: &'static str)
        ensures
            s@ == self.deep_view().key(),
    {
        match self {
            BinaryOperation::AND(_, _) => "&",
            BinaryOperation::OR(_, _) => "|",
            BinaryOperation::XOR(_, _) => "^",
            BinaryOperation::LSHIFT(_, _) => "<<",
            BinaryOperation::RSHIFT(_, _) => ">>",
        }
    }

    /// Encodes the operation in its wire form.
    pub fn encode(&self) -> (j: Json)
        ensures
            j.deep_view() == self.deep_view().to_wire(),
        decreases self,
    {
        let mut items: Vec<Json> = Vec::new();
        match self {
            BinaryOperation::AND(a, b) => {
                items.push(a.encode());
                items.push(b.encode());
            },
            BinaryOperation::OR(a, b) => {
                items.push(a.encode());
                items.push(b.encode());
            },
            BinaryOperation::XOR(a, b) => {
                items.push(a.encode());
                items.push(b.encode());
            },
            BinaryOperation::LSHIFT(a, b) => {
                items.push(a.encode());
                items.push(b.encode());
            },
            BinaryOperation::RSHIFT(a, b) => {
                items.push(a.encode());
                items.push(b.encode());
            },
        }
        assert(items_view(items) =~= self.deep_view().payload()->Array_0);
        let mut m: Vec<(String, Json)> = Vec::new();
        assert(members_view(m) =~= Seq::empty());
        put(&mut m, self.sign(), Json::Array(items));
        assert(members_view(m) =~= seq![(self.deep_view().key(), self.deep_view().payload())]);
        Json::Object(m)
    }

    /// Whether a key is an operator's sign.
    pub fn knows(k: &str) -> (r: bool)
        ensures
            r == BinaryOperationView::knows(k@),
    {
        same_text(k, "&")
            || same_text(k, "|")
            || same_text(k, "^")
            || same_text(k, "<<")
            || same_text(k, ">>")
    }

    /// Decodes the member `k: v`.
    pub fn decode_member(k: &str, v: &Json) -> (r: Result<BinaryOperation, DecodeError>)
        ensures
            decoded(r, BinaryOperationView::from_member(k@, v.deep_view())),
        decreases v, 0nat,
    {
        if !Self::knows(k) {
            return Err(DecodeError::shape());
        }
        match v {
            Json::Array(items) => {
                if items.len() != 2 {
                    return Err(DecodeError::shape().under_key(k));
                }
                let a = match Expression::decode(&items[0]) {
                    Ok(x) => x,
                    Err(e) => return Err(e.under_index(0).under_key(k)),
                };
                let b = match Expression::decode(&items[1]) {
                    Ok(x) => x,
                    Err(e) => return Err(e.under_index(1).under_key(k)),
                };
                if same_text(k, "&") {
                    Ok(BinaryOperation::AND(a, b))
                } else if same_text(k, "|") {
                    Ok(BinaryOperation::OR(a, b))
                } else if same_text(k, "^") {
                    Ok(BinaryOperation::XOR(a, b))
                } else if same_text(k, "<<") {
                    Ok(BinaryOperation::LSHIFT(a, b))
                } else {
                    Ok(BinaryOperation::RSHIFT(a, b))
                }
            },
            _ => Err(DecodeError::shape().under_key(k)),
        }
    }

    /// Decodes a wire value.
    pub fn decode(j: &Json) -> (r: Result<BinaryOperation, DecodeError>)
        ensures
            decoded(r, BinaryOperationView::from_wire(j.deep_view())),
        decreases j, 1nat,
    {
        match j {
            Json::Object(m) => {
                assert(members_view(*m).len() == m.len());
                if m.len() != 1 {
                    return Err(DecodeError::shape());
                }
                Self::decode_member(m[0].0.as_str(), &m[0].1)
            },
            _ => Err(DecodeError::shape()),
        }
    }
}

/// A verdict expression, as used in verdict maps.
#[derive(Debug, PartialEq, Eq)]
pub enum Verdict {
    /// Terminate ruleset evaluation and accept the packet.
    Accept,
    /// Terminate ruleset evaluation and drop the packet.
    Drop,
    /// Continue ruleset evaluation with the next rule.
    Continue,
    /// Return from the current chain and continue at the next rule in the last chain.
    Return,
    /// Continue evaluation at the first rule of a chain, and come back when it ends.
    Jump(JumpTarget),
    /// Continue evaluation at the first rule of a chain, without coming back.
    Goto(JumpTarget),
}

/// The mathematical value of a [`Verdict`].
pub ghost enum VerdictView {
    Accept,
    Drop,
    Continue,
    Return,
    Jump(JumpTargetView),
    Goto(JumpTargetView),
}

impl DeepView for Verdict {
    type V = VerdictView;

    open spec fn deep_view(&self) -> VerdictView {
        match self {
            Verdict::Accept => VerdictView::Accept,
            Verdict::Drop => VerdictView::Drop,
            Verdict::Continue => VerdictView::Continue,
            Verdict::Return => VerdictView::Return,
            Verdict::Jump(t) => VerdictView::Jump(t.deep_view()),
            Verdict::Goto(t) => VerdictView::Goto(t.deep_view()),
        }
    }
}

impl VerdictView {
    /// The verdict's name.
    pub open spec fn key(self) -> Seq<char> {
        match self {
            VerdictView::Accept => "accept"@,
            VerdictView::Drop => "drop"@,
            VerdictView::Continue => "continue"@,
            VerdictView::Return => "return"@,
            VerdictView::Jump(_) => "jump"@,
            VerdictView::Goto(_) => "goto"@,
        }
    }

    /// Whether a key names a verdict.
    pub open spec fn knows(k: Seq<char>) -> bool {
        ||| k == "accept"@
        ||| k == "drop"@
        ||| k == "continue"@
        ||| k == "return"@
        ||| k == "jump"@
        ||| k == "goto"@
    }

    /// What stands under the name where the verdict is written as an object.
    pub open spec fn payload(self) -> JsonView {
        match self {
            VerdictView::Jump(t) => t.to_wire(),
            VerdictView::Goto(t) => t.to_wire(),
            _ => JsonView::Null,
        }
    }

    /// The wire form: a verdict without a target is its bare name, one with a target an
    /// object whose one member is named after it.
    pub open spec fn to_wire(self) -> JsonView {
        match self {
            VerdictView::Jump(_) => JsonView::Object(seq![(self.key(), self.payload())]),
            VerdictView::Goto(_) => JsonView::Object(seq![(self.key(), self.payload())]),
            _ => JsonView::String(self.key()),
        }
    }

    /// The verdict without a target that a name spells.
    pub open spec fn from_name(s: Seq<char>) -> Result<VerdictView, DecodeErrorView> {
        if s == "accept"@ {
            Ok(VerdictView::Accept)
        } else if s == "drop"@ {
            Ok(VerdictView::Drop)
        } else if s == "continue"@ {
            Ok(VerdictView::Continue)
        } else if s == "return"@ {
            Ok(VerdictView::Return)
        } else {
            Err(DecodeErrorView::unknown(s))
        }
    }

    /// What the member `k: v` decodes to, where `k` names a verdict.
    pub open spec fn from_member(
        k: Seq<char>,
        v: JsonView,
    ) -> Result<VerdictView, DecodeErrorView> {
        if k == "accept"@ {
            match v {
                JsonView::Null => Ok(VerdictView::Accept),
                _ => Err(DecodeErrorView::shape().under_key(k)),
            }
        } else if k == "drop"@ {
            match v {
                JsonView::Null => Ok(VerdictView::Drop),
                _ => Err(DecodeErrorView::shape().under_key(k)),
            }
        } else if k == "continue"@ {
            match v {
                JsonView::Null => Ok(VerdictView::Continue),
                _ => Err(DecodeErrorView::shape().under_key(k)),
            }
        } else if k == "return"@ {
            match v {
                JsonView::Null => Ok(VerdictView::Return),
                _ => Err(DecodeErrorView::shape().under_key(k)),
            }
        } else if k == "jump"@ {
            match JumpTargetView::from_wire(v) {
                Ok(t) => Ok(VerdictView::Jump(t)),
                Err(e) => Err(e.under_key(k)),
            }
        } else if k == "goto"@ {
            match JumpTargetView::from_wire(v) {
                Ok(t) => Ok(VerdictView::Goto(t)),
                Err(e) => Err(e.under_key(k)),
            }
        } else {
            Err(DecodeErrorView::shape())
        }
    }

    /// What a wire value decodes to: a bare name is a verdict without a target, an
    /// object with exactly one member the verdict that its key names.
    pub open spec fn from_wire(j: JsonView) -> Result<VerdictView, DecodeErrorView> {
        match j {
            JsonView::String(s) => Self::from_name(s),
            JsonView::Object(m) => match sole_member(m) {
                Some((k, v)) => Self::from_member(k, v),
                None => Err(DecodeErrorView::shape()),
            },
            _ => Err(DecodeErrorView::shape()),
        }
    }

    /// The key of a value names a verdict.
    pub proof fn lemma_key(self)
        ensures
            Self::knows(self.key()),
    {
    }

    /// Decoding the wire form of a verdict gives the verdict back.
    pub proof fn lemma_round_trip(self)
        ensures
            Self::from_member(self.key(), self.payload()) matches Ok(v) && v == self,
            Self::from_wire(self.to_wire()) == Ok::<VerdictView, DecodeErrorView>(self),
    {
        reveal_strlit("accept");
        reveal_strlit("drop");
        reveal_strlit("continue");
        reveal_strlit("return");
        reveal_strlit("jump");
        reveal_strlit("goto");
        assert("accept"@.len() == 6 && "accept"@[0] == 'a');
        assert("drop"@.len() == 4 && "drop"@[0] == 'd');
        assert("continue"@.len() == 8);
        assert("return"@.len() == 6 && "return"@[0] == 'r');
        assert("jump"@.len() == 4 && "jump"@[0] == 'j');
        assert("goto"@.len() == 4 && "goto"@[0] == 'g');
        match self {
            VerdictView::Jump(t) => {
                t.lemma_round_trip();
            },
            VerdictView::Goto(t) => {
                t.lemma_round_trip();
            },
            _ => {},
        }
    }
}

impl Clone for Verdict {
    fn clone(&self) -> (r: Self)
        ensures
            r.deep_view() == self.deep_view(),
    {
        match self {
            Verdict::Accept => Verdict::Accept,
            Verdict::Drop => Verdict::Drop,
            Verdict::Continue => Verdict::Continue,
            Verdict::Return => Verdict::Return,
            Verdict::Jump(t) => Verdict::Jump(t.clone()),
            Verdict::Goto(t) => Verdict::Goto(t.clone()),
        }
    }
}

impl Verdict {
    /// Encodes the verdict in its wire form.
    pub fn encode(&self) -> (j: Json)
        ensures
            j.deep_view() == self.deep_view().to_wire(),
    {
        match self {
            Verdict::Accept => Json::String("accept".to_owned()),
            Verdict::Drop => Json::String("drop".to_owned()),
            Verdict::Continue => Json::String("continue".to_owned()),
            Verdict::Return => Json::String("return".to_owned()),
            Verdict::Jump(t) => {
                let mut m: Vec<(String, Json)> = Vec::new();
                assert(members_view(m) =~= Seq::empty());
                put(&mut m, "jump", t.encode());
                assert(
                    members_view(m) =~= seq![(self.deep_view().key(), self.deep_view().payload())]
                );
                Json::Object(m)
            },
            Verdict::Goto(t) => {
                let mut m: Vec<(String, Json)> = Vec::new();
                assert(members_view(m) =~= Seq::empty());
                put(&mut m, "goto", t.encode());
                assert(
                    members_view(m) =~= seq![(self.deep_view().key(), self.deep_view().payload())]
                );
                Json::Object(m)
            },
        }
    }

    /// Whether a key names a verdict.
    pub fn knows(k: &str) -> (r: bool)
        ensures
            r == VerdictView::knows(k@),
    {
        same_text(k, "accept")
            || same_text(k, "drop")
            || same_text(k, "continue")
            || same_text(k, "return")
            || same_text(k, "jump")
            || same_text(k, "goto")
    }

    /// Decodes the member `k: v`.
    pub fn decode_member(k: &str, v: &Json) -> (r: Result<Verdict, DecodeError>)
        ensures
            decoded(r, VerdictView::from_member(k@, v.deep_view())),
    {
        if same_text(k, "accept") {
            match v {
                Json::Null => Ok(Verdict::Accept),
                _ => Err(DecodeError::shape().under_key(k)),
            }
        } else if same_text(k, "drop") {
            match v {
                Json::Null => Ok(Verdict::Drop),
                _ => Err(DecodeError::shape().under_key(k)),
            }
        } else if same_text(k, "continue") {
            match v {
                Json::Null => Ok(Verdict::Continue),
                _ => Err(DecodeError::shape().under_key(k)),
            }
        } else if same_text(k, "return") {
            match v {
                Json::Null => Ok(Verdict::Return),
                _ => Err(DecodeError::shape().under_key(k)),
            }
        } else if same_text(k, "jump") {
            match JumpTarget::decode(v) {
                Ok(t) => Ok(Verdict::Jump(t)),
                Err(e) => Err(e.under_key(k)),
            }
        } else if same_text(k, "goto") {
            match JumpTarget::decode(v) {
                Ok(t) => Ok(Verdict::Goto(t)),
                Err(e) => Err(e.under_key(k)),
            }
        } else {
            Err(DecodeError::shape())
        }
    }

    /// Decodes a wire value.
    pub fn decode(j: &Json) -> (r: Result<Verdict, DecodeError>)
        ensures
            decoded(r, VerdictView::from_wire(j.deep_view())),
    {
        match j {
            Json::String(s) => {
                let s = s.as_str();
                if same_text(s, "accept") {
                    Ok(Verdict::Accept)
                } else if same_text(s, "drop") {
                    Ok(Verdict::Drop)
                } else if same_text(s, "continue") {
                    Ok(Verdict::Continue)
                } else if same_text(s, "return") {
                    Ok(Verdict::Return)
                } else {
                    Err(DecodeError::unknown(s))
                }
            },
            Json::Object(m) => {
                assert(members_view(*m).len() == m.len());
                if m.len() != 1 {
                    return Err(DecodeError::shape());
                }
                Self::decode_member(m[0].0.as_str(), &m[0].1)
            },
            _ => Err(DecodeError::shape()),
        }
    }
}

/// An item of an anonymous set.
#[derive(Debug, PartialEq, Eq)]
pub enum SetItem {
    /// A single expression.
    Element(Expression),
    /// A mapping of one expression to another.
    Mapping(Expression, Expression),
    /// A mapping of an expression to a statement.
    MappingStatement(Expression, Statement),
}

/// The mathematical value of a [`SetItem`].
pub ghost enum SetItemView {
    Element(ExpressionView),
    Mapping(ExpressionView, ExpressionView),
    MappingStatement(ExpressionView, StatementView),
}

impl DeepView for SetItem {
    type V = SetItemView;

    open spec fn deep_view(&self) -> SetItemView
        decreases self,
    {
        match self {
            SetItem::Element(e) => SetItemView::Element(e.deep_view()),
            SetItem::Mapping(a, b) => SetItemView::Mapping(a.deep_view(), b.deep_view()),
            SetItem::MappingStatement(e, s) => SetItemView::MappingStatement(
                e.deep_view(),
                s.deep_view(),
            ),
        }
    }
}

impl SetItemView {
    /// The wire form: an element is written as its expression, a mapping as an array of
    /// its two sides.
    pub open spec fn to_wire(self) -> JsonView
        decreases self, 0nat,
    {
        match self {
            SetItemView::Element(e) => e.to_wire(),
            SetItemView::Mapping(a, b) => JsonView::Array(seq![a.to_wire(), b.to_wire()]),
            SetItemView::MappingStatement(e, s) => JsonView::Array(seq![e.to_wire(), s.to_wire()]),
        }
    }

    /// What a wire value decodes to. Whatever is an expression is an element; of the rest,
    /// an array of an expression and a statement is a mapping to that statement. An array
    /// of two expressions is itself an expression, a list, and so always an element.
    pub open spec fn from_wire(j: JsonView) -> Result<SetItemView, DecodeErrorView>
        decreases j, 2nat,
    {
        match ExpressionView::from_wire(j) {
            Ok(e) => Ok(SetItemView::Element(e)),
            Err(_) => match j {
                JsonView::Array(items) => if items.len() == 2 {
                    match ExpressionView::from_wire(items[0]) {
                        Ok(e) => match StatementView::from_wire(items[1]) {
                            Ok(s) => Ok(SetItemView::MappingStatement(e, s)),
                            Err(_) => Err(DecodeErrorView::shape()),
                        },
                        Err(_) => Err(DecodeErrorView::shape()),
                    }
                } else {
                    Err(DecodeErrorView::shape())
                },
                _ => Err(DecodeErrorView::shape()),
            },
        }
    }

    /// Whether decoding the wire form gives this value back: an element does where its
    /// expression does, a mapping of two expressions never does, and a mapping to a
    /// statement does where the statement's wire form is no expression.
    pub open spec fn canonical(self) -> bool
        decreases self,
    {
        match self {
            SetItemView::Element(e) => e.canonical(),
            SetItemView::Mapping(_, _) => false,
            SetItemView::MappingStatement(e, s) => e.canonical() && s.canonical()
                && ExpressionView::from_wire(s.to_wire()) is Err,
        }
    }

    /// Decoding the wire form of a canonical item gives the item back.
    pub proof fn lemma_round_trip(self)
        requires
            self.canonical(),
        ensures
            Self::from_wire(self.to_wire()) == Ok::<SetItemView, DecodeErrorView>(self),
        decreases self, 3nat,
    {
        match self {
            SetItemView::Element(e) => {
                e.lemma_round_trip();
            },
            SetItemView::Mapping(_, _) => {},
            SetItemView::MappingStatement(e, s) => {
                e.lemma_round_trip();
                s.lemma_round_trip();
                let items = seq![e.to_wire(), s.to_wire()];
                assert(items.last() == s.to_wire());
                assert(dec_expressions(items) is Err);
            },
        }
    }
}

impl SetItem {
    /// Encodes the item in its wire form.
    pub fn encode(&self) -> (j: Json)
        ensures
            j.deep_view() == self.deep_view().to_wire(),
        decreases self,
    {
        match self {
            SetItem::Element(e) => e.encode(),
            SetItem::Mapping(a, b) => {
                let mut items: Vec<Json> = Vec::new();
                items.push(a.encode());
                items.push(b.encode());
                assert(
                    items_view(items) =~= seq![a.deep_view().to_wire(), b.deep_view().to_wire()]
                );
                Json::Array(items)
            },
            SetItem::MappingStatement(e, s) => {
                let mut items: Vec<Json> = Vec::new();
                items.push(e.encode());
                items.push(s.encode());
                assert(
                    items_view(items) =~= seq![e.deep_view().to_wire(), s.deep_view().to_wire()]
                );
                Json::Array(items)
            },
        }
    }

    /// Decodes a wire value by its shape.
    pub fn decode(j: &Json) -> (r: Result<SetItem, DecodeError>)
        ensures
            decoded(r, SetItemView::from_wire(j.deep_view())),
        decreases j, 2nat,
    {
        match Expression::decode(j) {
            Ok(e) => Ok(SetItem::Element(e)),
            Err(_) => match j {
                Json::Array(items) => {
                    if items.len() != 2 {
                        return Err(DecodeError::shape());
                    }
                    match Expression::decode(&items[0]) {
                        Ok(e) => match Statement::decode(&items[1]) {
                            Ok(s) => Ok(SetItem::MappingStatement(e, s)),
                            Err(_) => Err(DecodeError::shape()),
                        },
                        Err(_) => Err(DecodeError::shape()),
                    }
                },
                _ => Err(DecodeError::shape()),
            },
        }
    }
}

/// The values of a list of set items.
pub open spec fn set_items_view(items: Seq<SetItem>) -> Seq<SetItemView>
    decreases items,
{
    if items.len() == 0 {
        Seq::empty()
    } else {
        set_items_view(items.drop_last()).push(items.last().deep_view())
    }
}

/// The values of a list are as many as its items.
pub broadcast proof fn lemma_set_items_view_len(items: Seq<SetItem>)
    ensures
        #[trigger] set_items_view(items).len() == items.len(),
    decreases items.len(),
{
    if items.len() > 0 {
        lemma_set_items_view_len(items.drop_last());
        assert(set_items_view(items) == set_items_view(items.drop_last()).push(
            items.last().deep_view(),
        ));
    }
}

/// The value at a place of a list is the value of the item at that place.
pub broadcast proof fn lemma_set_items_view_index(items: Seq<SetItem>, k: int)
    requires
        0 <= k < items.len(),
    ensures
        #[trigger] set_items_view(items)[k] == items[k].deep_view(),
    decreases items.len(),
{
    lemma_set_items_view_len(items);
    lemma_set_items_view_len(items.drop_last());
    assert(
        set_items_view(items) == set_items_view(items.drop_last()).push(items.last().deep_view())
    );
    if k < items.len() - 1 {
        lemma_set_items_view_index(items.drop_last(), k);
    }
}

/// The wire forms of a list of set items, in the list's order.
pub open spec fn enc_set_items(items: Seq<SetItemView>) -> Seq<JsonView>
    decreases items, 0nat,
{
    Seq::new(
        items.len(),
        |i: int|
            if 0 <= i < items.len() {
                items[i].to_wire()
            } else {
                JsonView::Null
            },
    )
}

/// What a list of wire values decodes to: each item in turn, and the first that fails
/// decides the failure.
pub open spec fn dec_set_items(items: Seq<JsonView>) -> Result<Seq<SetItemView>, DecodeErrorView>
    decreases items, 0nat,
{
    if items.len() == 0 {
        Ok(Seq::empty())
    } else {
        match dec_set_items(items.drop_last()) {
            Ok(vs) => match SetItemView::from_wire(items.last()) {
                Ok(v) => Ok(vs.push(v)),
                Err(e) => Err(e.under_index(items.len() - 1)),
            },
            Err(e) => Err(e),
        }
    }
}

/// What a wire value decodes to where a list of set items is expected: it is an array.
pub open spec fn dec_set_item_list(j: JsonView) -> Result<Seq<SetItemView>, DecodeErrorView>
    decreases j, 0nat,
{
    match j {
        JsonView::Array(items) => dec_set_items(items),
        _ => Err(DecodeErrorView::shape()),
    }
}

/// Whether each item of a list is canonical.
pub open spec fn set_items_canonical(items: Seq<SetItemView>) -> bool
    decreases items,
{
    forall|i: int| 0 <= i < items.len() ==> (#[trigger] items[i]).canonical()
}

/// Decoding the wire forms of a list gives the list back.
pub proof fn lemma_set_items_round_trip(items: Seq<SetItemView>)
    requires
        set_items_canonical(items),
    ensures
        dec_set_items(enc_set_items(items)) matches Ok(vs) && vs == items,
        dec_set_item_list(JsonView::Array(enc_set_items(items))) matches Ok(vs) && vs == items,
    decreases items, 0nat,
{
    if items.len() > 0 {
        lemma_set_items_round_trip(items.drop_last());
        items.last().lemma_round_trip();
        assert(enc_set_items(items).drop_last() =~= enc_set_items(items.drop_last()));
        assert(items.drop_last().push(items.last()) =~= items);
    } else {
        assert(items =~= Seq::empty());
    }
}

/// A list that failed to decode up to some item fails as a whole in the same way.
pub proof fn lemma_dec_set_items_fails(items: Seq<JsonView>, i: int)
    requires
        0 <= i < items.len(),
        dec_set_items(items.take(i + 1)) is Err,
    ensures
        dec_set_items(items) == dec_set_items(items.take(i + 1)),
    decreases items.len(),
{
    if i + 1 < items.len() {
        assert(items.drop_last().take(i + 1) =~= items.take(i + 1));
        lemma_dec_set_items_fails(items.drop_last(), i);
    } else {
        assert(items.take(i + 1) =~= items);
    }
}

/// Encodes each item of a list.
pub fn encode_set_items(items: &Vec<SetItem>) -> (r: Vec<Json>)
    ensures
        items_view(r) == enc_set_items(set_items_view(items@)),
    decreases items,
{
    let mut out: Vec<Json> = Vec::new();
    let mut i: usize = 0;
    while i < items.len()
        invariant
            i <= items.len(),
            out.len() == i,
            forall|k: int| 0 <= k < i ==> out[k].deep_view() == items[k].deep_view().to_wire(),
        decreases items.len() - i,
    {
        out.push(items[i].encode());
        i += 1;
    }
    proof {
        let views = set_items_view(items@);
        lemma_set_items_view_len(items@);
        assert forall|k: int| 0 <= k < items.len() implies items_view(out)[k] == enc_set_items(
            views,
        )[k] by {
            lemma_set_items_view_index(items@, k);
        }
        assert(items_view(out) =~= enc_set_items(views));
    }
    out
}

/// Decodes each item of a list.
pub fn decode_set_items(items: &Vec<Json>) -> (r: Result<Vec<SetItem>, DecodeError>)
    ensures
        match r {
            Ok(v) => dec_set_items(items_view(*items)) matches Ok(vs) && vs == set_items_view(v@),
            Err(e) => dec_set_items(items_view(*items)) matches Err(f) && f == e.deep_view(),
        },
    decreases items, 0nat,
{
    let mut out: Vec<SetItem> = Vec::new();
    let mut i: usize = 0;
    let ghost view = items_view(*items);
    assert(view.take(0) =~= Seq::empty());
    assert(set_items_view(out@) == Seq::<SetItemView>::empty());
    while i < items.len()
        invariant
            i <= items.len(),
            view == items_view(*items),
            dec_set_items(view.take(i as int)) matches Ok(vs) && vs == set_items_view(out@),
        decreases items.len() - i,
    {
        proof {
            assert(view.take(i + 1).drop_last() =~= view.take(i as int));
            assert(view.take(i + 1).last() == items[i as int].deep_view());
        }
        match SetItem::decode(&items[i]) {
            Ok(v) => {
                let ghost before = out@;
                out.push(v);
                proof {
                    assert(out@.drop_last() =~= before);
                    assert(set_items_view(out@) == set_items_view(out@.drop_last()).push(
                        out@.last().deep_view(),
                    ));
                }
            },
            Err(e) => {
                proof {
                    lemma_dec_set_items_fails(view, i as int);
                }
                return Err(e.under_index(i));
            },
        }
        i += 1;
    }
    assert(view.take(i as int) =~= view);
    Ok(out)
}

/// Copies each item of a list.
pub fn clone_set_items(items: &Vec<SetItem>) -> (r: Vec<SetItem>)
    ensures
        set_items_view(r@) == set_items_view(items@),
    decreases items,
{
    let mut out: Vec<SetItem> = Vec::new();
    let mut i: usize = 0;
    assert(items@.take(0) =~= Seq::empty());
    assert(set_items_view(out@) == set_items_view(items@.take(0)));
    while i < items.len()
        invariant
            i <= items.len(),
            set_items_view(out@) == set_items_view(items@.take(i as int)),
        decreases items.len() - i,
    {
        let ghost before = out@;
        out.push(items[i].clone());
        proof {
            let next = items@.take(i + 1);
            assert(out@.drop_last() =~= before);
            assert(next.drop_last() =~= items@.take(i as int));
            assert(set_items_view(out@) == set_items_view(out@.drop_last()).push(
                out@.last().deep_view(),
            ));
            assert(
                set_items_view(next) == set_items_view(next.drop_last()).push(
                    next.last().deep_view(),
                )
            );
        }
        i += 1;
    }
    assert(items@.take(i as int) =~= items@);
    out
}

/// Decodes a wire value where a list of set items is expected.
pub fn decode_set_item_list(j: &Json) -> (r: Result<Vec<SetItem>, DecodeError>)
    ensures
        match r {
            Ok(v) => dec_set_item_list(j.deep_view()) matches Ok(vs) && vs == set_items_view(v@),
            Err(e) => dec_set_item_list(j.deep_view()) matches Err(f) && f == e.deep_view(),
        },
    decreases j, 0nat,
{
    match j {
        Json::Array(items) => decode_set_items(items),
        _ => Err(DecodeError::shape()),
    }
}

/// A payload expression: a reference to a certain part of packet data.
#[derive(Debug, PartialEq, Eq)]
pub enum Payload {
    /// A field, by its name, in a named packet header.
    PayloadField(PayloadField),
    /// A number of bits at an offset from a reference point.
    PayloadRaw(PayloadRaw),
}

/// The mathematical value of a [`Payload`].
pub ghost enum PayloadView {
    PayloadField(PayloadFieldView),
    PayloadRaw(PayloadRaw),
}

impl DeepView for Payload {
    type V = PayloadView;

    open spec fn deep_view(&self) -> PayloadView {
        match self {
            Payload::PayloadField(f) => PayloadView::PayloadField(f.deep_view()),
            Payload::PayloadRaw(r) => PayloadView::PayloadRaw(*r),
        }
    }
}

impl PayloadView {
    /// The wire form: that of the reference it holds.
    pub open spec fn to_wire(self) -> JsonView {
        match self {
            PayloadView::PayloadField(f) => f.to_wire(),
            PayloadView::PayloadRaw(r) => r.to_wire(),
        }
    }

    /// What a wire value decodes to: a field reference where it has the shape of one,
    /// else a raw reference where it has the shape of one.
    pub open spec fn from_wire(j: JsonView) -> Result<PayloadView, DecodeErrorView> {
        match PayloadFieldView::from_wire(j) {
            Ok(f) => Ok(PayloadView::PayloadField(f)),
            Err(_) => match PayloadRaw::from_wire(j) {
                Ok(r) => Ok(PayloadView::PayloadRaw(r)),
                Err(_) => Err(DecodeErrorView::shape()),
            },
        }
    }

    /// Decoding the wire form of a payload expression gives the expression back.
    pub proof fn lemma_round_trip(self)
        ensures
            Self::from_wire(self.to_wire()) == Ok::<PayloadView, DecodeErrorView>(self),
    {
        broadcast use {lemma_lookup_push, lemma_lookup_empty};
        match self {
            PayloadView::PayloadField(f) => {
                f.lemma_round_trip();
            },
            PayloadView::PayloadRaw(r) => {
                r.lemma_round_trip();
                reveal_strlit("protocol");
                reveal_strlit("base");
                reveal_strlit("offset");
                reveal_strlit("len");
                assert("protocol"@.len() == 8);
                assert("base"@.len() == 4);
                assert("offset"@.len() == 6);
                assert("len"@.len() == 3);
            },
        }
    }
}

impl Payload {
    /// Encodes the payload expression in its wire form.
    pub fn encode(&self) -> (j: Json)
        ensures
            j.deep_view() == self.deep_view().to_wire(),
    {
        match self {
            Payload::PayloadField(f) => f.encode(),
            Payload::PayloadRaw(r) => r.encode(),
        }
    }

    /// Decodes a wire value by its shape.
    pub fn decode(j: &Json) -> (r: Result<Payload, DecodeError>)
        ensures
            decoded(r, PayloadView::from_wire(j.deep_view())),
    {
        match PayloadField::decode(j) {
            Ok(f) => Ok(Payload::PayloadField(f)),
            Err(_) => match PayloadRaw::decode(j) {
                Ok(r) => Ok(Payload::PayloadRaw(r)),
                Err(_) => Err(DecodeError::shape()),
            },
        }
    }
}

/// A protocol layer, the reference point of a raw payload reference.
#[derive(Debug, Clone, Copy, PartialEq, Eq, Hash)]
pub enum PayloadBase {
    /// Link layer, for example the Ethernet header.
    LL,
    /// Network header, for example IPv4 or IPv6.
    NH,
    /// Transport header, for example TCP.
    TH,
    /// Inner header or payload, that is, after the transport header.
    IH,
}

impl Token for PayloadBase {
    open spec fn text(self) -> Seq<char> {
        match self {
            PayloadBase::LL => "ll"@,
            PayloadBase::NH => "nh"@,
            PayloadBase::TH => "th"@,
            PayloadBase::IH => "ih"@,
        }
    }

    open spec fn from_text(s: Seq<char>) -> Option<Self> {
        if s == "ll"@ {
            Some(PayloadBase::LL)
        } else if s == "nh"@ {
            Some(PayloadBase::NH)
        } else if s == "th"@ {
            Some(PayloadBase::TH)
        } else if s == "ih"@ {
            Some(PayloadBase::IH)
        } else {
            None
        }
    }

    proof fn lemma_text(self) {
        reveal_strlit("ll");
        reveal_strlit("nh");
        reveal_strlit("th");
        reveal_strlit("ih");
        assert("ll"@.len() == 2 && "ll"@[0] == 'l');
        assert("nh"@.len() == 2 && "nh"@[0] == 'n');
        assert("th"@.len() == 2 && "th"@[0] == 't');
        assert("ih"@.len() == 2 && "ih"@[0] == 'i');
    }

    proof fn lemma_from_text(s: Seq<char>) {
    }

    fn as_str(&self) -> (s: &'static str) {
        match self {
            PayloadBase::LL => "ll",
            PayloadBase::NH => "nh",
            PayloadBase::TH => "th",
            PayloadBase::IH => "ih",
        }
    }

    fn parse(s: &str) -> (r: Option<Self>) {
        if same_text(s, "ll") {
            Some(PayloadBase::LL)
        } else if same_text(s, "nh") {
            Some(PayloadBase::NH)
        } else if same_text(s, "th") {
            Some(PayloadBase::TH)
        } else if same_text(s, "ih") {
            Some(PayloadBase::IH)
        } else {
            None
        }
    }
}

/// A key of packet meta data.
#[derive(Debug, Clone, Copy, PartialEq, Eq, Hash)]
pub enum MetaKey {
    /// Packet type (unicast, broadcast, multicast, other).
    Pkttype,
    /// Packet length in bytes.
    Length,
    /// Packet protocol or EtherType protocol value.
    Protocol,
    /// Netfilter packet protocol family.
    Nfproto,
    /// Layer 4 protocol.
    L4proto,
    /// Input interface index.
    Iif,
    /// Input interface name.
    Iifname,
    /// Input interface type.
    Iiftype,
    /// Input interface kind name.
    Iifkind,
    /// Input interface group.
    Iifgroup,
    /// Output interface index.
    Oif,
    /// Output interface name.
    Oifname,
    /// Output interface type.
    Oiftype,
    /// Output interface kind name.
    Oifkind,
    /// Output interface group.
    Oifgroup,
    /// Input bridge interface name.
    Ibridgename,
    /// Output bridge interface name.
    Obridgename,
    /// Input bridge port.
    Ibriport,
    /// Output bridge port.
    Obriport,
    /// Packet mark.
    Mark,
    /// TC packet priority.
    Priority,
    /// Routing realm.
    Rtclassid,
    /// UID associated with the originating socket.
    Skuid,
    /// GID associated with the originating socket.
    Skgid,
    /// CPU number processing the packet.
    Cpu,
    /// Socket control group ID.
    Cgroup,
    /// Whether the packet was ipsec encrypted (obsolete).
    Secpath,
    /// Pseudo-random number.
    Random,
    /// The nftrace debugging bit.
    Nftrace,
}

impl Token for MetaKey {
    open spec fn text(self) -> Seq<char> {
        match self {
            MetaKey::Pkttype => "pkttype"@,
            MetaKey::Length => "length"@,
            MetaKey::Protocol => "protocol"@,
            MetaKey::Nfproto => "nfproto"@,
            MetaKey::L4proto => "l4proto"@,
            MetaKey::Iif => "iif"@,
            MetaKey::Iifname => "iifname"@,
            MetaKey::Iiftype => "iiftype"@,
            MetaKey::Iifkind => "iifkind"@,
            MetaKey::Iifgroup => "iifgroup"@,
            MetaKey::Oif => "oif"@,
            MetaKey::Oifname => "oifname"@,
            MetaKey::Oiftype => "oiftype"@,
            MetaKey::Oifkind => "oifkind"@,
            MetaKey::Oifgroup => "oifgroup"@,
            MetaKey::Ibridgename => "ibridgename"@,
            MetaKey::Obridgename => "obridgename"@,
            MetaKey::Ibriport => "ibriport"@,
            MetaKey::Obriport => "obriport"@,
            MetaKey::Mark => "mark"@,
            MetaKey::Priority => "priority"@,
            MetaKey::Rtclassid => "rtclassid"@,
            MetaKey::Skuid => "skuid"@,
            MetaKey::Skgid => "skgid"@,
            MetaKey::Cpu => "cpu"@,
            MetaKey::Cgroup => "cgroup"@,
            MetaKey::Secpath => "secpath"@,
            MetaKey::Random => "random"@,
            MetaKey::Nftrace => "nftrace"@,
        }
    }

    open spec fn from_text(s: Seq<char>) -> Option<Self> {
        if s == "pkttype"@ {
            Some(MetaKey::Pkttype)
        } else if s == "length"@ {
            Some(MetaKey::Length)
        } else if s == "protocol"@ {
            Some(MetaKey::Protocol)
        } else if s == "nfproto"@ {
            Some(MetaKey::Nfproto)
        } else if s == "l4proto"@ {
            Some(MetaKey::L4proto)
        } else if s == "iif"@ {
            Some(MetaKey::Iif)
        } else if s == "iifname"@ {
            Some(MetaKey::Iifname)
        } else if s == "iiftype"@ {
            Some(MetaKey::Iiftype)
        } else if s == "iifkind"@ {
            Some(MetaKey::Iifkind)
        } else if s == "iifgroup"@ {
            Some(MetaKey::Iifgroup)
        } else if s == "oif"@ {
            Some(MetaKey::Oif)
        } else if s == "oifname"@ {
            Some(MetaKey::Oifname)
        } else if s == "oiftype"@ {
            Some(MetaKey::Oiftype)
        } else if s == "oifkind"@ {
            Some(MetaKey::Oifkind)
        } else if s == "oifgroup"@ {
            Some(MetaKey::Oifgroup)
        } else if s == "ibridgename"@ {
            Some(MetaKey::Ibridgename)
        } else if s == "obridgename"@ {
            Some(MetaKey::Obridgename)
        } else if s == "ibriport"@ {
            Some(MetaKey::Ibriport)
        } else if s == "obriport"@ {
            Some(MetaKey::Obriport)
        } else if s == "mark"@ {
            Some(MetaKey::Mark)
        } else if s == "priority"@ {
            Some(MetaKey::Priority)
        } else if s == "rtclassid"@ {
            Some(MetaKey::Rtclassid)
        } else if s == "skuid"@ {
            Some(MetaKey::Skuid)
        } else if s == "skgid"@ {
            Some(MetaKey::Skgid)
        } else if s == "cpu"@ {
            Some(MetaKey::Cpu)
        } else if s == "cgroup"@ {
            Some(MetaKey::Cgroup)
        } else if s == "secpath"@ {
            Some(MetaKey::Secpath)
        } else if s == "random"@ {
            Some(MetaKey::Random)
        } else if s == "nftrace"@ {
            Some(MetaKey::Nftrace)
        } else {
            None
        }
    }

    proof fn lemma_text(self) {
        reveal_strlit("pkttype");
        reveal_strlit("length");
        reveal_strlit("protocol");
        reveal_strlit("nfproto");
        reveal_strlit("l4proto");
        reveal_strlit("iif");
        reveal_strlit("iifname");
        reveal_strlit("iiftype");
        reveal_strlit("iifkind");
        reveal_strlit("iifgroup");
        reveal_strlit("oif");
        reveal_strlit("oifname");
        reveal_strlit("oiftype");
        reveal_strlit("oifkind");
        reveal_strlit("oifgroup");
        reveal_strlit("ibridgename");
        reveal_strlit("obridgename");
        reveal_strlit("ibriport");
        reveal_strlit("obriport");
        reveal_strlit("mark");
        reveal_strlit("priority");
        reveal_strlit("rtclassid");
        reveal_strlit("skuid");
        reveal_strlit("skgid");
        reveal_strlit("cpu");
        reveal_strlit("cgroup");
        reveal_strlit("secpath");
        reveal_strlit("random");
        reveal_strlit("nftrace");
        assert("pkttype"@.len() == 7 && "pkttype"@[0] == 'p' && "pkttype"@[4] == 'y');
        assert("length"@.len() == 6 && "length"@[0] == 'l');
        assert("protocol"@.len() == 8 && "protocol"@[0] == 'p' && "protocol"@[2] == 'o');
        assert("nfproto"@.len() == 7 && "nfproto"@[0] == 'n' && "nfproto"@[4] == 'o');
        assert("l4proto"@.len() == 7 && "l4proto"@[0] == 'l' && "l4proto"@[4] == 'o');
        assert("iif"@.len() == 3 && "iif"@[0] == 'i');
        assert("iifname"@.len() == 7 && "iifname"@[0] == 'i' && "iifname"@[4] == 'a');
        assert("iiftype"@.len() == 7 && "iiftype"@[0] == 'i' && "iiftype"@[4] == 'y');
        assert("iifkind"@.len() == 7 && "iifkind"@[0] == 'i' && "iifkind"@[4] == 'i');
        assert("iifgroup"@.len() == 8 && "iifgroup"@[0] == 'i' && "iifgroup"@[2] == 'f');
        assert("oif"@.len() == 3 && "oif"@[0] == 'o');
        assert("oifname"@.len() == 7 && "oifname"@[0] == 'o' && "oifname"@[4] == 'a');
        assert("oiftype"@.len() == 7 && "oiftype"@[0] == 'o' && "oiftype"@[4] == 'y');
        assert("oifkind"@.len() == 7 && "oifkind"@[0] == 'o' && "oifkind"@[4] == 'i');
        assert("oifgroup"@.len() == 8 && "oifgroup"@[0] == 'o' && "oifgroup"@[2] == 'f');
        assert("ibridgename"@.len() == 11 && "ibridgename"@[0] == 'i');
        assert("obridgename"@.len() == 11 && "obridgename"@[0] == 'o');
        assert("ibriport"@.len() == 8 && "ibriport"@[0] == 'i' && "ibriport"@[2] == 'r');
        assert("obriport"@.len() == 8 && "obriport"@[0] == 'o' && "obriport"@[2] == 'r');
        assert("mark"@.len() == 4);
        assert("priority"@.len() == 8 && "priority"@[0] == 'p' && "priority"@[2] == 'i');
        assert("rtclassid"@.len() == 9);
        assert("skuid"@.len() == 5 && "skuid"@[2] == 'u');
        assert("skgid"@.len() == 5 && "skgid"@[2] == 'g');
        assert("cpu"@.len() == 3 && "cpu"@[0] == 'c');
        assert("cgroup"@.len() == 6 && "cgroup"@[0] == 'c');
        assert("secpath"@.len() == 7 && "secpath"@[0] == 's' && "secpath"@[4] == 'a');
        assert("random"@.len() == 6 && "random"@[0] == 'r');
        assert("nftrace"@.len() == 7 && "nftrace"@[0] == 'n' && "nftrace"@[4] == 'a');
    }

    proof fn lemma_from_text(s: Seq<char>) {
    }

    fn as_str(&self) -> (s: &'static str) {
        match self {
            MetaKey::Pkttype => "pkttype",
            MetaKey::Length => "length",
            MetaKey::Protocol => "protocol",
            MetaKey::Nfproto => "nfproto",
            MetaKey::L4proto => "l4proto",
            MetaKey::Iif => "iif",
            MetaKey::Iifname => "iifname",
            MetaKey::Iiftype => "iiftype",
            MetaKey::Iifkind => "iifkind",
            MetaKey::Iifgroup => "iifgroup",
            MetaKey::Oif => "oif",
            MetaKey::Oifname => "oifname",
            MetaKey::Oiftype => "oiftype",
            MetaKey::Oifkind => "oifkind",
            MetaKey::Oifgroup => "oifgroup",
            MetaKey::Ibridgename => "ibridgename",
            MetaKey::Obridgename => "obridgename",
            MetaKey::Ibriport => "ibriport",
            MetaKey::Obriport => "obriport",
            MetaKey::Mark => "mark",
            MetaKey::Priority => "priority",
            MetaKey::Rtclassid => "rtclassid",
            MetaKey::Skuid => "skuid",
            MetaKey::Skgid => "skgid",
            MetaKey::Cpu => "cpu",
            MetaKey::Cgroup => "cgroup",
            MetaKey::Secpath => "secpath",
            MetaKey::Random => "random",
            MetaKey::Nftrace => "nftrace",
        }
    }

    fn parse(s: &str) -> (r: Option<Self>) {
        if same_text(s, "pkttype") {
            Some(MetaKey::Pkttype)
        } else if same_text(s, "length") {
            Some(MetaKey::Length)
        } else if same_text(s, "protocol") {
            Some(MetaKey::Protocol)
        } else if same_text(s, "nfproto") {
            Some(MetaKey::Nfproto)
        } else if same_text(s, "l4proto") {
            Some(MetaKey::L4proto)
        } else if same_text(s, "iif") {
            Some(MetaKey::Iif)
        } else if same_text(s, "iifname") {
            Some(MetaKey::Iifname)
        } else if same_text(s, "iiftype") {
            Some(MetaKey::Iiftype)
        } else if same_text(s, "iifkind") {
            Some(MetaKey::Iifkind)
        } else if same_text(s, "iifgroup") {
            Some(MetaKey::Iifgroup)
        } else if same_text(s, "oif") {
            Some(MetaKey::Oif)
        } else if same_text(s, "oifname") {
            Some(MetaKey::Oifname)
        } else if same_text(s, "oiftype") {
            Some(MetaKey::Oiftype)
        } else if same_text(s, "oifkind") {
            Some(MetaKey::Oifkind)
        } else if same_text(s, "oifgroup") {
            Some(MetaKey::Oifgroup)
        } else if same_text(s, "ibridgename") {
            Some(MetaKey::Ibridgename)
        } else if same_text(s, "obridgename") {
            Some(MetaKey::Obridgename)
        } else if same_text(s, "ibriport") {
            Some(MetaKey::Ibriport)
        } else if same_text(s, "obriport") {
            Some(MetaKey::Obriport)
        } else if same_text(s, "mark") {
            Some(MetaKey::Mark)
        } else if same_text(s, "priority") {
            Some(MetaKey::Priority)
        } else if same_text(s, "rtclassid") {
            Some(MetaKey::Rtclassid)
        } else if same_text(s, "skuid") {
            Some(MetaKey::Skuid)
        } else if same_text(s, "skgid") {
            Some(MetaKey::Skgid)
        } else if same_text(s, "cpu") {
            Some(MetaKey::Cpu)
        } else if same_text(s, "cgroup") {
            Some(MetaKey::Cgroup)
        } else if same_text(s, "secpath") {
            Some(MetaKey::Secpath)
        } else if same_text(s, "random") {
            Some(MetaKey::Random)
        } else if same_text(s, "nftrace") {
            Some(MetaKey::Nftrace)
        } else {
            None
        }
    }
}

/// A key of packet routing data.
#[derive(Debug, Clone, Copy, PartialEq, Eq, Hash)]
pub enum RTKey {
    /// Routing realm.
    ClassId,
    /// Routing nexthop.
    NextHop,
    /// TCP maximum segment size of the route.
    MTU,
}

impl Token for RTKey {
    open spec fn text(self) -> Seq<char> {
        match self {
            RTKey::ClassId => "classid"@,
            RTKey::NextHop => "nexthop"@,
            RTKey::MTU => "mtu"@,
        }
    }

    open spec fn from_text(s: Seq<char>) -> Option<Self> {
        if s == "classid"@ {
            Some(RTKey::ClassId)
        } else if s == "nexthop"@ {
            Some(RTKey::NextHop)
        } else if s == "mtu"@ {
            Some(RTKey::MTU)
        } else {
            None
        }
    }

    proof fn lemma_text(self) {
        reveal_strlit("classid");
        reveal_strlit("nexthop");
        reveal_strlit("mtu");
        assert("classid"@.len() == 7 && "classid"@[0] == 'c');
        assert("nexthop"@.len() == 7 && "nexthop"@[0] == 'n');
        assert("mtu"@.len() == 3);
    }

    proof fn lemma_from_text(s: Seq<char>) {
    }

    fn as_str(&self) -> (s: &'static str) {
        match self {
            RTKey::ClassId => "classid",
            RTKey::NextHop => "nexthop",
            RTKey::MTU => "mtu",
        }
    }

    fn parse(s: &str) -> (r: Option<Self>) {
        if same_text(s, "classid") {
            Some(RTKey::ClassId)
        } else if same_text(s, "nexthop") {
            Some(RTKey::NextHop)
        } else if same_text(s, "mtu") {
            Some(RTKey::MTU)
        } else {
            None
        }
    }
}

/// A protocol family for a routing reference.
#[derive(Debug, Clone, Copy, PartialEq, Eq, Hash)]
pub enum RTFamily {
    /// IPv4.
    IP,
    /// IPv6.
    IP6,
}

impl Token for RTFamily {
    open spec fn text(self) -> Seq<char> {
        match self {
            RTFamily::IP => "ip"@,
            RTFamily::IP6 => "ip6"@,
        }
    }

    open spec fn from_text(s: Seq<char>) -> Option<Self> {
        if s == "ip"@ {
            Some(RTFamily::IP)
        } else if s == "ip6"@ {
            Some(RTFamily::IP6)
        } else {
            None
        }
    }

    proof fn lemma_text(self) {
        reveal_strlit("ip");
        reveal_strlit("ip6");
        assert("ip"@.len() == 2);
        assert("ip6"@.len() == 3);
    }

    proof fn lemma_from_text(s: Seq<char>) {
    }

    fn as_str(&self) -> (s: &'static str) {
        match self {
            RTFamily::IP => "ip",
            RTFamily::IP6 => "ip6",
        }
    }

    fn parse(s: &str) -> (r: Option<Self>) {
        if same_text(s, "ip") {
            Some(RTFamily::IP)
        } else if same_text(s, "ip6") {
            Some(RTFamily::IP6)
        } else {
            None
        }
    }
}

/// A protocol family for a conntrack reference.
#[derive(Debug, Clone, Copy, PartialEq, Eq, Hash)]
pub enum CTFamily {
    /// IPv4.
    IP,
    /// IPv6.
    IP6,
}

impl Token for CTFamily {
    open spec fn text(self) -> Seq<char> {
        match self {
            CTFamily::IP => "ip"@,
            CTFamily::IP6 => "ip6"@,
        }
    }

    open spec fn from_text(s: Seq<char>) -> Option<Self> {
        if s == "ip"@ {
            Some(CTFamily::IP)
        } else if s == "ip6"@ {
            Some(CTFamily::IP6)
        } else {
            None
        }
    }

    proof fn lemma_text(self) {
        reveal_strlit("ip");
        reveal_strlit("ip6");
        assert("ip"@.len() == 2);
        assert("ip6"@.len() == 3);
    }

    proof fn lemma_from_text(s: Seq<char>) {
    }

    fn as_str(&self) -> (s: &'static str) {
        match self {
            CTFamily::IP => "ip",
            CTFamily::IP6 => "ip6",
        }
    }

    fn parse(s: &str) -> (r: Option<Self>) {
        if same_text(s, "ip") {
            Some(CTFamily::IP)
        } else if same_text(s, "ip6") {
            Some(CTFamily::IP6)
        } else {
            None
        }
    }
}

/// A direction of a conntrack flow.
#[derive(Debug, Clone, Copy, PartialEq, Eq, Hash)]
pub enum CTDir {
    /// Original direction.
    Original,
    /// Reply direction.
    Reply,
}

impl Token for CTDir {
    open spec fn text(self) -> Seq<char> {
        match self {
            CTDir::Original => "original"@,
            CTDir::Reply => "reply"@,
        }
    }

    open spec fn from_text(s: Seq<char>) -> Option<Self> {
        if s == "original"@ {
            Some(CTDir::Original)
        } else if s == "reply"@ {
            Some(CTDir::Reply)
        } else {
            None
        }
    }

    proof fn lemma_text(self) {
        reveal_strlit("original");
        reveal_strlit("reply");
        assert("original"@.len() == 8);
        assert("reply"@.len() == 5);
    }

    proof fn lemma_from_text(s: Seq<char>) {
    }

    fn as_str(&self) -> (s: &'static str) {
        match self {
            CTDir::Original => "original",
            CTDir::Reply => "reply",
        }
    }

    fn parse(s: &str) -> (r: Option<Self>) {
        if same_text(s, "original") {
            Some(CTDir::Original)
        } else if same_text(s, "reply") {
            Some(CTDir::Reply)
        } else {
            None
        }
    }
}

/// A mode of a number generator.
#[derive(Debug, Clone, Copy, PartialEq, Eq, Hash)]
pub enum NgMode {
    /// The last returned value is simply incremented.
    Inc,
    /// A new random number is returned.
    Random,
}

impl Token for NgMode {
    open spec fn text(self) -> Seq<char> {
        match self {
            NgMode::Inc => "inc"@,
            NgMode::Random => "random"@,
        }
    }

    open spec fn from_text(s: Seq<char>) -> Option<Self> {
        if s == "inc"@ {
            Some(NgMode::Inc)
        } else if s == "random"@ {
            Some(NgMode::Random)
        } else {
            None
        }
    }

    proof fn lemma_text(self) {
        reveal_strlit("inc");
        reveal_strlit("random");
        assert("inc"@.len() == 3);
        assert("random"@.len() == 6);
    }

    proof fn lemma_from_text(s: Seq<char>) {
    }

    fn as_str(&self) -> (s: &'static str) {
        match self {
            NgMode::Inc => "inc",
            NgMode::Random => "random",
        }
    }

    fn parse(s: &str) -> (r: Option<Self>) {
        if same_text(s, "inc") {
            Some(NgMode::Inc)
        } else if same_text(s, "random") {
            Some(NgMode::Random)
        } else {
            None
        }
    }
}

/// The data that a fib lookup queries.
#[derive(Debug, Clone, Copy, PartialEq, Eq, Hash)]
pub enum FibResult {
    /// Output interface index.
    Oif,
    /// Output interface name.
    Oifname,
    /// Address type.
    Type,
}

impl Token for FibResult {
    open spec fn text(self) -> Seq<char> {
        match self {
            FibResult::Oif => "oif"@,
            FibResult::Oifname => "oifname"@,
            FibResult::Type => "type"@,
        }
    }

    open spec fn from_text(s: Seq<char>) -> Option<Self> {
        if s == "oif"@ {
            Some(FibResult::Oif)
        } else if s == "oifname"@ {
            Some(FibResult::Oifname)
        } else if s == "type"@ {
            Some(FibResult::Type)
        } else {
            None
        }
    }

    proof fn lemma_text(self) {
        reveal_strlit("oif");
        reveal_strlit("oifname");
        reveal_strlit("type");
        assert("oif"@.len() == 3);
        assert("oifname"@.len() == 7);
        assert("type"@.len() == 4);
    }

    proof fn lemma_from_text(s: Seq<char>) {
    }

    fn as_str(&self) -> (s: &'static str) {
        match self {
            FibResult::Oif => "oif",
            FibResult::Oifname => "oifname",
            FibResult::Type => "type",
        }
    }

    fn parse(s: &str) -> (r: Option<Self>) {
        if same_text(s, "oif") {
            Some(FibResult::Oif)
        } else if same_text(s, "oifname") {
            Some(FibResult::Oifname)
        } else if same_text(s, "type") {
            Some(FibResult::Type)
        } else {
            None
        }
    }
}

/// An input of a fib lookup.
#[derive(Debug, Clone, Copy, PartialEq, Eq, Hash)]
pub enum FibFlag {
    /// Consider the source address of a packet.
    Saddr,
    /// Consider the destination address of a packet.
    Daddr,
    /// Consider the packet mark.
    Mark,
    /// Consider the packet's input interface.
    Iif,
    /// Consider the packet's output interface.
    Oif,
}

impl Token for FibFlag {
    open spec fn text(self) -> Seq<char> {
        match self {
            FibFlag::Saddr => "saddr"@,
            FibFlag::Daddr => "daddr"@,
            FibFlag::Mark => "mark"@,
            FibFlag::Iif => "iif"@,
            FibFlag::Oif => "oif"@,
        }
    }

    open spec fn from_text(s: Seq<char>) -> Option<Self> {
        if s == "saddr"@ {
            Some(FibFlag::Saddr)
        } else if s == "daddr"@ {
            Some(FibFlag::Daddr)
        } else if s == "mark"@ {
            Some(FibFlag::Mark)
        } else if s == "iif"@ {
            Some(FibFlag::Iif)
        } else if s == "oif"@ {
            Some(FibFlag::Oif)
        } else {
            None
        }
    }

    proof fn lemma_text(self) {
        reveal_strlit("saddr");
        reveal_strlit("daddr");
        reveal_strlit("mark");
        reveal_strlit("iif");
        reveal_strlit("oif");
        assert("saddr"@.len() == 5 && "saddr"@[0] == 's');
        assert("daddr"@.len() == 5 && "daddr"@[0] == 'd');
        assert("mark"@.len() == 4);
        assert("iif"@.len() == 3 && "iif"@[0] == 'i');
        assert("oif"@.len() == 3 && "oif"@[0] == 'o');
    }

    proof fn lemma_from_text(s: Seq<char>) {
    }

    fn as_str(&self) -> (s: &'static str) {
        match self {
            FibFlag::Saddr => "saddr",
            FibFlag::Daddr => "daddr",
            FibFlag::Mark => "mark",
            FibFlag::Iif => "iif",
            FibFlag::Oif => "oif",
        }
    }

    fn parse(s: &str) -> (r: Option<Self>) {
        if same_text(s, "saddr") {
            Some(FibFlag::Saddr)
        } else if same_text(s, "daddr") {
            Some(FibFlag::Daddr)
        } else if same_text(s, "mark") {
            Some(FibFlag::Mark)
        } else if same_text(s, "iif") {
            Some(FibFlag::Iif)
        } else if same_text(s, "oif") {
            Some(FibFlag::Oif)
        } else {
            None
        }
    }
}

impl Flag for FibFlag {
    open spec fn count() -> nat {
        5
    }

    open spec fn index(self) -> nat {
        match self {
            FibFlag::Saddr => 0,
            FibFlag::Daddr => 1,
            FibFlag::Mark => 2,
            FibFlag::Iif => 3,
            FibFlag::Oif => 4,
        }
    }

    open spec fn at(i: nat) -> Self {
        if i == 0 {
            FibFlag::Saddr
        } else if i == 1 {
            FibFlag::Daddr
        } else if i == 2 {
            FibFlag::Mark
        } else if i == 3 {
            FibFlag::Iif
        } else {
            FibFlag::Oif
        }
    }

    proof fn lemma_index(self) {
    }

    proof fn lemma_at(i: nat) {
    }

    fn size() -> (n: usize) {
        5
    }

    fn ordinal(&self) -> (i: usize) {
        match self {
            FibFlag::Saddr => 0,
            FibFlag::Daddr => 1,
            FibFlag::Mark => 2,
            FibFlag::Iif => 3,
            FibFlag::Oif => 4,
        }
    }

    fn nth(i: usize) -> (t: Self) {
        if i == 0 {
            FibFlag::Saddr
        } else if i == 1 {
            FibFlag::Daddr
        } else if i == 2 {
            FibFlag::Mark
        } else if i == 3 {
            FibFlag::Iif
        } else {
            FibFlag::Oif
        }
    }
}

/// A socket attribute to match on.
#[derive(Debug, Clone, Copy, PartialEq, Eq, Hash)]
pub enum SocketAttr {
    /// The `IP_TRANSPARENT` socket option in the found socket.
    Transparent,
    /// The socket mark (`SOL_SOCKET`, `SO_MARK`).
    Mark,
    /// Whether the socket is wildcard-bound (for example to 0.0.0.0 or ::0).
    Wildcard,
    /// The cgroup version 2 for this socket (path from `/sys/fs/cgroup`).
    Cgroupv2,
}

impl Token for SocketAttr {
    open spec fn text(self) -> Seq<char> {
        match self {
            SocketAttr::Transparent => "transparent"@,
            SocketAttr::Mark => "mark"@,
            SocketAttr::Wildcard => "wildcard"@,
            SocketAttr::Cgroupv2 => "cgroupv2"@,
        }
    }

    open spec fn from_text(s: Seq<char>) -> Option<Self> {
        if s == "transparent"@ {
            Some(SocketAttr::Transparent)
        } else if s == "mark"@ {
            Some(SocketAttr::Mark)
        } else if s == "wildcard"@ {
            Some(SocketAttr::Wildcard)
        } else if s == "cgroupv2"@ {
            Some(SocketAttr::Cgroupv2)
        } else {
            None
        }
    }

    proof fn lemma_text(self) {
        reveal_strlit("transparent");
        reveal_strlit("mark");
        reveal_strlit("wildcard");
        reveal_strlit("cgroupv2");
        assert("transparent"@.len() == 11);
        assert("mark"@.len() == 4);
        assert("wildcard"@.len() == 8 && "wildcard"@[0] == 'w');
        assert("cgroupv2"@.len() == 8 && "cgroupv2"@[0] == 'c');
    }

    proof fn lemma_from_text(s: Seq<char>) {
    }

    fn as_str(&self) -> (s: &'static str) {
        match self {
            SocketAttr::Transparent => "transparent",
            SocketAttr::Mark => "mark",
            SocketAttr::Wildcard => "wildcard",
            SocketAttr::Cgroupv2 => "cgroupv2",
        }
    }

    fn parse(s: &str) -> (r: Option<Self>) {
        if same_text(s, "transparent") {
            Some(SocketAttr::Transparent)
        } else if same_text(s, "mark") {
            Some(SocketAttr::Mark)
        } else if same_text(s, "wildcard") {
            Some(SocketAttr::Wildcard)
        } else if same_text(s, "cgroupv2") {
            Some(SocketAttr::Cgroupv2)
        } else {
            None
        }
    }
}

/// How OS fingerprinting checks the TTL.
#[derive(Debug, Clone, Copy, PartialEq, Eq, Hash)]
pub enum OsfTtl {
    /// Check whether the IP header's TTL is less than the fingerprint one.
    Loose,
    /// Do not compare the TTL at all.
    Skip,
}

impl Token for OsfTtl {
    open spec fn text(self) -> Seq<char> {
        match self {
            OsfTtl::Loose => "loose"@,
            OsfTtl::Skip => "skip"@,
        }
    }

    open spec fn from_text(s: Seq<char>) -> Option<Self> {
        if s == "loose"@ {
            Some(OsfTtl::Loose)
        } else if s == "skip"@ {
            Some(OsfTtl::Skip)
        } else {
            None
        }
    }

    proof fn lemma_text(self) {
        reveal_strlit("loose");
        reveal_strlit("skip");
        assert("loose"@.len() == 5);
        assert("skip"@.len() == 4);
    }

    proof fn lemma_from_text(s: Seq<char>) {
    }

    fn as_str(&self) -> (s: &'static str) {
        match self {
            OsfTtl::Loose => "loose",
            OsfTtl::Skip => "skip",
        }
    }

    fn parse(s: &str) -> (r: Option<Self>) {
        if same_text(s, "loose") {
            Some(OsfTtl::Loose)
        } else if same_text(s, "skip") {
            Some(OsfTtl::Skip)
        } else {
            None
        }
    }
}

/// Maps a key to a value.
#[derive(Debug, PartialEq, Eq)]
pub struct MapExpr {
    /// Map key.
    pub key: Expression,
    /// Mapping expression consisting of value/target pairs.
    pub data: Expression,
}

/// The mathematical value of a [`MapExpr`].
pub ghost struct MapExprView {
    pub key: ExpressionView,
    pub data: ExpressionView,
}

impl DeepView for MapExpr {
    type V = MapExprView;

    open spec fn deep_view(&self) -> MapExprView
        decreases self,
    {
        MapExprView {
            key: self.key.deep_view(),
            data: self.data.deep_view(),
        }
    }
}

impl MapExprView {
    /// The wire form: an object with one member for each field that has a value.
    pub open spec fn to_wire(self) -> JsonView
        decreases self, 0nat,
    {
        let m = Seq::empty();
        let m = m.push(("key"@, self.key.to_wire()));
        let m = m.push(("data"@, self.data.to_wire()));
        JsonView::Object(m)
    }

    /// What a wire value decodes to: the fields are read by their keys, in the order
    /// in which the type lists them, and the first that fails decides the failure.
    pub open spec fn from_wire(j: JsonView) -> Result<MapExprView, DecodeErrorView>
        decreases j, 0nat,
    {
        match j {
            JsonView::Object(m) => {
                let key = match lookup(m, "key"@) {
                    Some(v) => at_key(ExpressionView::from_wire(v), "key"@),
                    None => Err(DecodeErrorView::missing("key"@)),
                };
                let data = match lookup(m, "data"@) {
                    Some(v) => at_key(ExpressionView::from_wire(v), "data"@),
                    None => Err(DecodeErrorView::missing("data"@)),
                };
                if key is Err {
                    Err(key->Err_0)
                } else if data is Err {
                    Err(data->Err_0)
                } else {
                    Ok(MapExprView { key: key->Ok_0, data: data->Ok_0 })
                }
            },
            _ => Err(DecodeErrorView::shape()),
        }
    }

    /// Whether decoding the wire form gives this value back.
    pub open spec fn canonical(self) -> bool
        decreases self,
    {
        &&& self.key.canonical()
        &&& self.data.canonical()
    }

    /// What the wire form holds under each key.
    pub proof fn lemma_members(self)
        ensures
            self.to_wire() is Object,
            lookup(self.to_wire()->Object_0, "key"@) == Some(self.key.to_wire()),
            lookup(self.to_wire()->Object_0, "data"@) == Some(self.data.to_wire()),
    {
        broadcast use {lemma_lookup_push, lemma_lookup_empty, lemma_with_opt};
        reveal_strlit("key");
        reveal_strlit("data");
        assert("key"@.len() == 3);
        assert("data"@.len() == 4);
    }

    /// Decoding the wire form of a value gives the value back.
    pub proof fn lemma_round_trip(self)
        requires
            self.canonical(),
        ensures
            Self::from_wire(self.to_wire()) == Ok::<MapExprView, DecodeErrorView>(self),
        decreases self, 0nat,
    {
        self.lemma_members();
        self.key.lemma_round_trip();
        self.key.lemma_not_null();
        self.data.lemma_round_trip();
        self.data.lemma_not_null();
    }

    /// The order in which the members of an object stand does not matter to what
    /// the object decodes to.
    pub proof fn lemma_member_order(
        a: Seq<(Seq<char>, JsonView)>,
        b: Seq<(Seq<char>, JsonView)>,
    )
        requires
            same_members(a, b),
        ensures
            Self::from_wire(JsonView::Object(a)) == Self::from_wire(JsonView::Object(b)),
    {
        assert(lookup(a, "key"@) == lookup(b, "key"@));
        assert(lookup(a, "data"@) == lookup(b, "data"@));
    }

    /// Where an object fails to decode, the failure names the field that it lies in:
    /// its path begins with the key of one of the fields.
    pub proof fn lemma_failure_names_field(m: Seq<(Seq<char>, JsonView)>)
        ensures
            Self::from_wire(JsonView::Object(m)) matches Err(e) ==> e.path.len() > 0 && {
                ||| e.path[0] == PathSegmentView::Key("key"@)
                ||| e.path[0] == PathSegmentView::Key("data"@)
            },
    {
        broadcast use lemma_under_key_path;
    }
}

impl MapExpr {
    /// Encodes the value in its wire form.
    pub fn encode(&self) -> (j: Json)
        ensures
            j.deep_view() == self.deep_view().to_wire(),
        decreases self,
    {
        let mut m: Vec<(String, Json)> = Vec::new();
        assert(members_view(m) =~= Seq::empty());
        put(&mut m, "key", self.key.encode());
        put(&mut m, "data", self.data.encode());
        Json::Object(m)
    }

    /// Decodes a wire value.
    pub fn decode(j: &Json) -> (r: Result<MapExpr, DecodeError>)
        ensures
            decoded(r, MapExprView::from_wire(j.deep_view())),
        decreases j, 0nat,
    {
        match j {
            Json::Object(m) => {
                let key = match find(m, "key") {
                    Some(v) => match Expression::decode(v) {
                        Ok(x) => x,
                        Err(e) => return Err(e.under_key("key")),
                    },
                    None => return Err(DecodeError::missing("key")),
                };
                let data = match find(m, "data") {
                    Some(v) => match Expression::decode(v) {
                        Ok(x) => x,
                        Err(e) => return Err(e.under_key("data")),
                    },
                    None => return Err(DecodeError::missing("data")),
                };
                Ok(MapExpr { key, data })
            },
            _ => Err(DecodeError::shape()),
        }
    }
}

impl Clone for MapExpr {
    fn clone(&self) -> (r: Self)
        ensures
            r.deep_view() == self.deep_view(),
        decreases self,
    {
        MapExpr {
            key: self.key.clone(),
            data: self.data.clone(),
        }
    }
}

/// The default map expression (`true -> false`).
impl Default for MapExpr {
    fn default() -> (r: Self)
        ensures
            r.deep_view() == (
                MapExprView {
                    key: ExpressionView::Boolean(true),
                    data: ExpressionView::Boolean(false),
                }
            ),
    {
        MapExpr { key: Expression::Boolean(true), data: Expression::Boolean(false) }
    }
}

/// An IPv4 or IPv6 prefix: an address part and a prefix length.
#[derive(Debug, PartialEq, Eq)]
pub struct Prefix {
    /// An IPv4 or IPv6 address.
    pub addr: Box<Expression>,
    /// The prefix length.
    pub len: u32,
}

/// The mathematical value of a [`Prefix`].
pub ghost struct PrefixView {
    pub addr: Box<ExpressionView>,
    pub len: u32,
}

impl DeepView for Prefix {
    type V = PrefixView;

    open spec fn deep_view(&self) -> PrefixView
        decreases self,
    {
        PrefixView {
            addr: Box::new((*self.addr).deep_view()),
            len: self.len,
        }
    }
}

impl PrefixView {
    /// The wire form: an object with one member for each field that has a value.
    pub open spec fn to_wire(self) -> JsonView
        decreases self, 0nat,
    {
        let m = Seq::empty();
        let m = m.push(("addr"@, (*self.addr).to_wire()));
        let m = m.push(("len"@, JsonView::Number(self.len as int)));
        JsonView::Object(m)
    }

    /// What a wire value decodes to: the fields are read by their keys, in the order
    /// in which the type lists them, and the first that fails decides the failure.
    pub open spec fn from_wire(j: JsonView) -> Result<PrefixView, DecodeErrorView>
        decreases j, 0nat,
    {
        match j {
            JsonView::Object(m) => {
                let addr = match lookup(m, "addr"@) {
                    Some(v) => at_key(boxed(ExpressionView::from_wire(v)), "addr"@),
                    None => Err(DecodeErrorView::missing("addr"@)),
                };
                let len = match lookup(m, "len"@) {
                    Some(v) => at_key(dec_u32(v), "len"@),
                    None => Err(DecodeErrorView::missing("len"@)),
                };
                if addr is Err {
                    Err(addr->Err_0)
                } else if len is Err {
                    Err(len->Err_0)
                } else {
                    Ok(PrefixView { addr: addr->Ok_0, len: len->Ok_0 })
                }
            },
            _ => Err(DecodeErrorView::shape()),
        }
    }

    /// Whether decoding the wire form gives this value back.
    pub open spec fn canonical(self) -> bool
        decreases self,
    {
        &&& (*self.addr).canonical()
    }

    /// What the wire form holds under each key.
    pub proof fn lemma_members(self)
        ensures
            self.to_wire() is Object,
            lookup(self.to_wire()->Object_0, "addr"@) == Some((*self.addr).to_wire()),
            lookup(self.to_wire()->Object_0, "len"@) == Some(JsonView::Number(self.len as int)),
    {
        broadcast use {lemma_lookup_push, lemma_lookup_empty, lemma_with_opt};
        reveal_strlit("addr");
        reveal_strlit("len");
        assert("addr"@.len() == 4);
        assert("len"@.len() == 3);
    }

    /// Decoding the wire form of a value gives the value back.
    pub proof fn lemma_round_trip(self)
        requires
            self.canonical(),
        ensures
            Self::from_wire(self.to_wire()) == Ok::<PrefixView, DecodeErrorView>(self),
        decreases self, 0nat,
    {
        self.lemma_members();
        (*self.addr).lemma_round_trip();
        (*self.addr).lemma_not_null();
    }

    /// The order in which the members of an object stand does not matter to what
    /// the object decodes to.
    pub proof fn lemma_member_order(
        a: Seq<(Seq<char>, JsonView)>,
        b: Seq<(Seq<char>, JsonView)>,
    )
        requires
            same_members(a, b),
        ensures
            Self::from_wire(JsonView::Object(a)) == Self::from_wire(JsonView::Object(b)),
    {
        assert(lookup(a, "addr"@) == lookup(b, "addr"@));
        assert(lookup(a, "len"@) == lookup(b, "len"@));
    }

    /// Where an object fails to decode, the failure names the field that it lies in:
    /// its path begins with the key of one of the fields.
    pub proof fn lemma_failure_names_field(m: Seq<(Seq<char>, JsonView)>)
        ensures
            Self::from_wire(JsonView::Object(m)) matches Err(e) ==> e.path.len() > 0 && {
                ||| e.path[0] == PathSegmentView::Key("addr"@)
                ||| e.path[0] == PathSegmentView::Key("len"@)
            },
    {
        broadcast use lemma_under_key_path;
    }
}

impl Prefix {
    /// Encodes the value in its wire form.
    pub fn encode(&self) -> (j: Json)
        ensures
            j.deep_view() == self.deep_view().to_wire(),
        decreases self,
    {
        let mut m: Vec<(String, Json)> = Vec::new();
        assert(members_view(m) =~= Seq::empty());
        put(&mut m, "addr", self.addr.encode());
        put(&mut m, "len", Json::Number(self.len as i128));
        Json::Object(m)
    }

    /// Decodes a wire value.
    pub fn decode(j: &Json) -> (r: Result<Prefix, DecodeError>)
        ensures
            decoded(r, PrefixView::from_wire(j.deep_view())),
        decreases j, 0nat,
    {
        match j {
            Json::Object(m) => {
                let addr = match find(m, "addr") {
                    Some(v) => match Expression::decode(v) {
                        Ok(x) => Box::new(x),
                        Err(e) => return Err(e.under_key("addr")),
                    },
                    None => return Err(DecodeError::missing("addr")),
                };
                let len = match find(m, "len") {
                    Some(v) => match decode_u32(v) {
                        Ok(x) => x,
                        Err(e) => return Err(e.under_key("len")),
                    },
                    None => return Err(DecodeError::missing("len")),
                };
                Ok(Prefix { addr, len })
            },
            _ => Err(DecodeError::shape()),
        }
    }
}

impl Clone for Prefix {
    fn clone(&self) -> (r: Self)
        ensures
            r.deep_view() == self.deep_view(),
        decreases self,
    {
        Prefix {
            addr: Box::new((**(&self.addr)).clone()),
            len: self.len,
        }
    }
}

/// A raw payload reference: a number of bits at an offset from a reference point.
#[derive(Debug, Clone, Copy, PartialEq, Eq)]
pub struct PayloadRaw {
    /// The (protocol layer) reference point.
    pub base: PayloadBase,
    /// Offset from the reference point in bits.
    pub offset: u32,
    /// Number of bits.
    pub len: u32,
}

impl DeepView for PayloadRaw {
    type V = PayloadRaw;

    open spec fn deep_view(&self) -> PayloadRaw {
        *self
    }
}

impl PayloadRaw {
    /// The wire form: an object with one member for each field that has a value.
    pub open spec fn to_wire(self) -> JsonView {
        let m = Seq::empty();
        let m = m.push(("base"@, enc_token(self.base)));
        let m = m.push(("offset"@, JsonView::Number(self.offset as int)));
        let m = m.push(("len"@, JsonView::Number(self.len as int)));
        JsonView::Object(m)
    }

    /// What a wire value decodes to: the fields are read by their keys, in the order
    /// in which the type lists them, and the first that fails decides the failure.
    pub open spec fn from_wire(j: JsonView) -> Result<PayloadRaw, DecodeErrorView> {
        match j {
            JsonView::Object(m) => {
                let base = match lookup(m, "base"@) {
                    Some(v) => at_key(dec_token::<PayloadBase>(v), "base"@),
                    None => Err(DecodeErrorView::missing("base"@)),
                };
                let offset = match lookup(m, "offset"@) {
                    Some(v) => at_key(dec_u32(v), "offset"@),
                    None => Err(DecodeErrorView::missing("offset"@)),
                };
                let len = match lookup(m, "len"@) {
                    Some(v) => at_key(dec_u32(v), "len"@),
                    None => Err(DecodeErrorView::missing("len"@)),
                };
                if base is Err {
                    Err(base->Err_0)
                } else if offset is Err {
                    Err(offset->Err_0)
                } else if len is Err {
                    Err(len->Err_0)
                } else {
                    Ok(PayloadRaw { base: base->Ok_0, offset: offset->Ok_0, len: len->Ok_0 })
                }
            },
            _ => Err(DecodeErrorView::shape()),
        }
    }

    /// What the wire form holds under each key.
    pub proof fn lemma_members(self)
        ensures
            self.to_wire() is Object,
            lookup(self.to_wire()->Object_0, "base"@) == Some(enc_token(self.base)),
            lookup(self.to_wire()->Object_0, "offset"@) == Some(
                JsonView::Number(self.offset as int),
            ),
            lookup(self.to_wire()->Object_0, "len"@) == Some(JsonView::Number(self.len as int)),
    {
        broadcast use {lemma_lookup_push, lemma_lookup_empty, lemma_with_opt};
        reveal_strlit("base");
        reveal_strlit("offset");
        reveal_strlit("len");
        assert("base"@.len() == 4);
        assert("offset"@.len() == 6);
        assert("len"@.len() == 3);
    }

    /// Decoding the wire form of a value gives the value back.
    pub proof fn lemma_round_trip(self)
        ensures
            Self::from_wire(self.to_wire()) == Ok::<PayloadRaw, DecodeErrorView>(self),
    {
        self.lemma_members();
        lemma_token_round_trip(self.base);
    }

    /// The order in which the members of an object stand does not matter to what
    /// the object decodes to.
    pub proof fn lemma_member_order(
        a: Seq<(Seq<char>, JsonView)>,
        b: Seq<(Seq<char>, JsonView)>,
    )
        requires
            same_members(a, b),
        ensures
            Self::from_wire(JsonView::Object(a)) == Self::from_wire(JsonView::Object(b)),
    {
        assert(lookup(a, "base"@) == lookup(b, "base"@));
        assert(lookup(a, "offset"@) == lookup(b, "offset"@));
        assert(lookup(a, "len"@) == lookup(b, "len"@));
    }

    /// Where an object fails to decode, the failure names the field that it lies in:
    /// its path begins with the key of one of the fields.
    pub proof fn lemma_failure_names_field(m: Seq<(Seq<char>, JsonView)>)
        ensures
            Self::from_wire(JsonView::Object(m)) matches Err(e) ==> e.path.len() > 0 && {
                ||| e.path[0] == PathSegmentView::Key("base"@)
                ||| e.path[0] == PathSegmentView::Key("offset"@)
                ||| e.path[0] == PathSegmentView::Key("len"@)
            },
    {
        broadcast use lemma_under_key_path;
    }
}

impl PayloadRaw {
    /// Encodes the value in its wire form.
    pub fn encode(&self) -> (j: Json)
        ensures
            j.deep_view() == self.deep_view().to_wire(),
    {
        let mut m: Vec<(String, Json)> = Vec::new();
        assert(members_view(m) =~= Seq::empty());
        put(&mut m, "base", encode_token(&self.base));
        put(&mut m, "offset", Json::Number(self.offset as i128));
        put(&mut m, "len", Json::Number(self.len as i128));
        Json::Object(m)
    }

    /// Decodes a wire value.
    pub fn decode(j: &Json) -> (r: Result<PayloadRaw, DecodeError>)
        ensures
            decoded(r, PayloadRaw::from_wire(j.deep_view())),
    {
        match j {
            Json::Object(m) => {
                let base = match find(m, "base") {
                    Some(v) => match decode_token::<PayloadBase>(v) {
                        Ok(x) => x,
                        Err(e) => return Err(e.under_key("base")),
                    },
                    None => return Err(DecodeError::missing("base")),
                };
                let offset = match find(m, "offset") {
                    Some(v) => match decode_u32(v) {
                        Ok(x) => x,
                        Err(e) => return Err(e.under_key("offset")),
                    },
                    None => return Err(DecodeError::missing("offset")),
                };
                let len = match find(m, "len") {
                    Some(v) => match decode_u32(v) {
                        Ok(x) => x,
                        Err(e) => return Err(e.under_key("len")),
                    },
                    None => return Err(DecodeError::missing("len")),
                };
                Ok(PayloadRaw { base, offset, len })
            },
            _ => Err(DecodeError::shape()),
        }
    }
}

/// The default raw payload expression (0-length at link layer).
impl Default for PayloadRaw {
    fn default() -> (r: Self)
        ensures
            r.deep_view() == (PayloadRaw { base: PayloadBase::LL, offset: 0, len: 0 }),
    {
        PayloadRaw { base: PayloadBase::LL, offset: 0, len: 0 }
    }
}

/// A payload reference to a field, by its name, in a named packet header.
#[derive(Debug, PartialEq, Eq)]
pub struct PayloadField {
    /// A named packet header.
    pub protocol: String,
    /// The field name.
    pub field: String,
}

/// The mathematical value of a [`PayloadField`].
pub ghost struct PayloadFieldView {
    pub protocol: Seq<char>,
    pub field: Seq<char>,
}

impl DeepView for PayloadField {
    type V = PayloadFieldView;

    open spec fn deep_view(&self) -> PayloadFieldView {
        PayloadFieldView {
            protocol: self.protocol@,
            field: self.field@,
        }
    }
}

impl PayloadFieldView {
    /// The wire form: an object with one member for each field that has a value.
    pub open spec fn to_wire(self) -> JsonView {
        let m = Seq::empty();
        let m = m.push(("protocol"@, JsonView::String(self.protocol)));
        let m = m.push(("field"@, JsonView::String(self.field)));
        JsonView::Object(m)
    }

    /// What a wire value decodes to: the fields are read by their keys, in the order
    /// in which the type lists them, and the first that fails decides the failure.
    pub open spec fn from_wire(j: JsonView) -> Result<PayloadFieldView, DecodeErrorView> {
        match j {
            JsonView::Object(m) => {
                let protocol = match lookup(m, "protocol"@) {
                    Some(v) => at_key(dec_string(v), "protocol"@),
                    None => Err(DecodeErrorView::missing("protocol"@)),
                };
                let field = match lookup(m, "field"@) {
                    Some(v) => at_key(dec_string(v), "field"@),
                    None => Err(DecodeErrorView::missing("field"@)),
                };
                if protocol is Err {
                    Err(protocol->Err_0)
                } else if field is Err {
                    Err(field->Err_0)
                } else {
                    Ok(PayloadFieldView { protocol: protocol->Ok_0, field: field->Ok_0 })
                }
            },
            _ => Err(DecodeErrorView::shape()),
        }
    }

    /// What the wire form holds under each key.
    pub proof fn lemma_members(self)
        ensures
            self.to_wire() is Object,
            lookup(self.to_wire()->Object_0, "protocol"@) == Some(JsonView::String(self.protocol)),
            lookup(self.to_wire()->Object_0, "field"@) == Some(JsonView::String(self.field)),
    {
        broadcast use {lemma_lookup_push, lemma_lookup_empty, lemma_with_opt};
        reveal_strlit("protocol");
        reveal_strlit("field");
        assert("protocol"@.len() == 8);
        assert("field"@.len() == 5);
    }

    /// Decoding the wire form of a value gives the value back.
    pub proof fn lemma_round_trip(self)
        ensures
            Self::from_wire(self.to_wire()) == Ok::<PayloadFieldView, DecodeErrorView>(self),
    {
        self.lemma_members();
    }

    /// The order in which the members of an object stand does not matter to what
    /// the object decodes to.
    pub proof fn lemma_member_order(
        a: Seq<(Seq<char>, JsonView)>,
        b: Seq<(Seq<char>, JsonView)>,
    )
        requires
            same_members(a, b),
        ensures
            Self::from_wire(JsonView::Object(a)) == Self::from_wire(JsonView::Object(b)),
    {
        assert(lookup(a, "protocol"@) == lookup(b, "protocol"@));
        assert(lookup(a, "field"@) == lookup(b, "field"@));
    }

    /// Where an object fails to decode, the failure names the field that it lies in:
    /// its path begins with the key of one of the fields.
    pub proof fn lemma_failure_names_field(m: Seq<(Seq<char>, JsonView)>)
        ensures
            Self::from_wire(JsonView::Object(m)) matches Err(e) ==> e.path.len() > 0 && {
                ||| e.path[0] == PathSegmentView::Key("protocol"@)
                ||| e.path[0] == PathSegmentView::Key("field"@)
            },
    {
        broadcast use lemma_under_key_path;
    }
}

impl PayloadField {
    /// Encodes the value in its wire form.
    pub fn encode(&self) -> (j: Json)
        ensures
            j.deep_view() == self.deep_view().to_wire(),
    {
        let mut m: Vec<(String, Json)> = Vec::new();
        assert(members_view(m) =~= Seq::empty());
        put(&mut m, "protocol", Json::String(self.protocol.clone()));
        put(&mut m, "field", Json::String(self.field.clone()));
        Json::Object(m)
    }

    /// Decodes a wire value.
    pub fn decode(j: &Json) -> (r: Result<PayloadField, DecodeError>)
        ensures
            decoded(r, PayloadFieldView::from_wire(j.deep_view())),
    {
        match j {
            Json::Object(m) => {
                let protocol = match find(m, "protocol") {
                    Some(v) => match decode_string(v) {
                        Ok(x) => x,
                        Err(e) => return Err(e.under_key("protocol")),
                    },
                    None => return Err(DecodeError::missing("protocol")),
                };
                let field = match find(m, "field") {
                    Some(v) => match decode_string(v) {
                        Ok(x) => x,
                        Err(e) => return Err(e.under_key("field")),
                    },
                    None => return Err(DecodeError::missing("field")),
                };
                Ok(PayloadField { protocol, field })
            },
            _ => Err(DecodeError::shape()),
        }
    }
}

impl Clone for PayloadField {
    fn clone(&self) -> (r: Self)
        ensures
            r.deep_view() == self.deep_view(),
    {
        PayloadField {
            protocol: self.protocol.clone(),
            field: self.field.clone(),
        }
    }
}

/// The default payload field reference (`arp ptype`).
impl Default for PayloadField {
    fn default() -> (r: Self)
        ensures
            r.deep_view() == (PayloadFieldView { protocol: "arp"@, field: "ptype"@ }),
    {
        PayloadField { protocol: "arp".to_owned(), field: "ptype".to_owned() }
    }
}

/// A reference to a field in an IPv6 extension header.
///
/// Without a field, the expression tests whether the header is there. The offset is used only for
/// the `rt0` protocol.
#[derive(Debug, PartialEq, Eq)]
pub struct Exthdr {
    /// The IPv6 extension header name.
    pub name: String,
    /// The field name.
    pub field: Option<String>,
    /// The offset length.
    pub offset: Option<u32>,
}

/// The mathematical value of an [`Exthdr`].
pub ghost struct ExthdrView {
    pub name: Seq<char>,
    pub field: Option<Seq<char>>,
    pub offset: Option<u32>,
}

impl DeepView for Exthdr {
    type V = ExthdrView;

    open spec fn deep_view(&self) -> ExthdrView {
        ExthdrView {
            name: self.name@,
            field: match self.field {
                Some(x) => Some(x@),
                None => None,
            },
            offset: self.offset,
        }
    }
}

impl ExthdrView {
    /// The wire form: an object with one member for each field that has a value.
    pub open spec fn to_wire(self) -> JsonView {
        let m = Seq::empty();
        let m = m.push(("name"@, JsonView::String(self.name)));
        let m = with_opt(
            m,
            "field"@,
            match self.field {
                Some(v) => Some(JsonView::String(v)),
                None => None,
            },
        );
        let m = with_opt(
            m,
            "offset"@,
            match self.offset {
                Some(v) => Some(JsonView::Number(v as int)),
                None => None,
            },
        );
        JsonView::Object(m)
    }

    /// What a wire value decodes to: the fields are read by their keys, in the order
    /// in which the type lists them, and the first that fails decides the failure.
    pub open spec fn from_wire(j: JsonView) -> Result<ExthdrView, DecodeErrorView> {
        match j {
            JsonView::Object(m) => {
                let name = match lookup(m, "name"@) {
                    Some(v) => at_key(dec_string(v), "name"@),
                    None => Err(DecodeErrorView::missing("name"@)),
                };
                let field = match optional(m, "field"@) {
                    Some(v) => at_key(some(dec_string(v)), "field"@),
                    None => Ok(None),
                };
                let offset = match optional(m, "offset"@) {
                    Some(v) => at_key(some(dec_u32(v)), "offset"@),
                    None => Ok(None),
                };
                if name is Err {
                    Err(name->Err_0)
                } else if field is Err {
                    Err(field->Err_0)
                } else if offset is Err {
                    Err(offset->Err_0)
                } else {
                    Ok(ExthdrView { name: name->Ok_0, field: field->Ok_0, offset: offset->Ok_0 })
                }
            },
            _ => Err(DecodeErrorView::shape()),
        }
    }

    /// What the wire form holds under each key.
    pub proof fn lemma_members(self)
        ensures
            self.to_wire() is Object,
            lookup(self.to_wire()->Object_0, "name"@) == Some(JsonView::String(self.name)),
            lookup(self.to_wire()->Object_0, "field"@) == match self.field {
                Some(v) => Some(JsonView::String(v)),
                None => None,
            },
            lookup(self.to_wire()->Object_0, "offset"@) == match self.offset {
                Some(v) => Some(JsonView::Number(v as int)),
                None => None,
            },
    {
        broadcast use {lemma_lookup_push, lemma_lookup_empty, lemma_with_opt};
        reveal_strlit("name");
        reveal_strlit("field");
        reveal_strlit("offset");
        assert("name"@.len() == 4);
        assert("field"@.len() == 5);
        assert("offset"@.len() == 6);
    }

    /// Decoding the wire form of a value gives the value back.
    pub proof fn lemma_round_trip(self)
        ensures
            Self::from_wire(self.to_wire()) == Ok::<ExthdrView, DecodeErrorView>(self),
    {
        self.lemma_members();
    }

    /// The order in which the members of an object stand does not matter to what
    /// the object decodes to.
    pub proof fn lemma_member_order(
        a: Seq<(Seq<char>, JsonView)>,
        b: Seq<(Seq<char>, JsonView)>,
    )
        requires
            same_members(a, b),
        ensures
            Self::from_wire(JsonView::Object(a)) == Self::from_wire(JsonView::Object(b)),
    {
        assert(lookup(a, "name"@) == lookup(b, "name"@));
        assert(lookup(a, "field"@) == lookup(b, "field"@));
        assert(lookup(a, "offset"@) == lookup(b, "offset"@));
    }

    /// Where an object fails to decode, the failure names the field that it lies in:
    /// its path begins with the key of one of the fields.
    pub proof fn lemma_failure_names_field(m: Seq<(Seq<char>, JsonView)>)
        ensures
            Self::from_wire(JsonView::Object(m)) matches Err(e) ==> e.path.len() > 0 && {
                ||| e.path[0] == PathSegmentView::Key("name"@)
                ||| e.path[0] == PathSegmentView::Key("field"@)
                ||| e.path[0] == PathSegmentView::Key("offset"@)
            },
    {
        broadcast use lemma_under_key_path;
    }
}

impl Exthdr {
    /// Encodes the value in its wire form.
    pub fn encode(&self) -> (j: Json)
        ensures
            j.deep_view() == self.deep_view().to_wire(),
    {
        let mut m: Vec<(String, Json)> = Vec::new();
        assert(members_view(m) =~= Seq::empty());
        put(&mut m, "name", Json::String(self.name.clone()));
        match &self.field {
            Some(v) => put(&mut m, "field", Json::String(v.clone())),
            None => {},
        }
        match &self.offset {
            Some(v) => put(&mut m, "offset", Json::Number(*v as i128)),
            None => {},
        }
        Json::Object(m)
    }

    /// Decodes a wire value.
    pub fn decode(j: &Json) -> (r: Result<Exthdr, DecodeError>)
        ensures
            decoded(r, ExthdrView::from_wire(j.deep_view())),
    {
        match j {
            Json::Object(m) => {
                let name = match find(m, "name") {
                    Some(v) => match decode_string(v) {
                        Ok(x) => x,
                        Err(e) => return Err(e.under_key("name")),
                    },
                    None => return Err(DecodeError::missing("name")),
                };
                let field = match present(m, "field") {
                    Some(v) => match decode_string(v) {
                        Ok(x) => Some(x),
                        Err(e) => return Err(e.under_key("field")),
                    },
                    None => None,
                };
                let offset = match present(m, "offset") {
                    Some(v) => match decode_u32(v) {
                        Ok(x) => Some(x),
                        Err(e) => return Err(e.under_key("offset")),
                    },
                    None => None,
                };
                Ok(Exthdr { name, field, offset })
            },
            _ => Err(DecodeError::shape()),
        }
    }
}

impl Clone for Exthdr {
    fn clone(&self) -> (r: Self)
        ensures
            r.deep_view() == self.deep_view(),
    {
        Exthdr {
            name: self.name.clone(),
            field: match &self.field {
                Some(x) => Some(x.clone()),
                None => None,
            },
            offset: self.offset,
        }
    }
}

/// The default reference, to the `frag` extension header.
impl Default for Exthdr {
    fn default() -> (r: Self)
        ensures
            r.deep_view() == (ExthdrView { name: "frag"@, field: None, offset: None }),
    {
        Exthdr { name: "frag".to_owned(), field: None, offset: None }
    }
}

/// A reference to a field of a TCP option header.
///
/// Without a field, the expression tests whether the option is there.
#[derive(Debug, PartialEq, Eq)]
pub struct TcpOption {
    /// The TCP option header name.
    pub name: String,
    /// The field name.
    pub field: Option<String>,
}

/// The mathematical value of a [`TcpOption`].
pub ghost struct TcpOptionView {
    pub name: Seq<char>,
    pub field: Option<Seq<char>>,
}

impl DeepView for TcpOption {
    type V = TcpOptionView;

    open spec fn deep_view(&self) -> TcpOptionView {
        TcpOptionView {
            name: self.name@,
            field: match self.field {
                Some(x) => Some(x@),
                None => None,
            },
        }
    }
}

impl TcpOptionView {
    /// The wire form: an object with one member for each field that has a value.
    pub open spec fn to_wire(self) -> JsonView {
        let m = Seq::empty();
        let m = m.push(("name"@, JsonView::String(self.name)));
        let m = with_opt(
            m,
            "field"@,
            match self.field {
                Some(v) => Some(JsonView::String(v)),
                None => None,
            },
        );
        JsonView::Object(m)
    }

    /// What a wire value decodes to: the fields are read by their keys, in the order
    /// in which the type lists them, and the first that fails decides the failure.
    pub open spec fn from_wire(j: JsonView) -> Result<TcpOptionView, DecodeErrorView> {
        match j {
            JsonView::Object(m) => {
                let name = match lookup(m, "name"@) {
                    Some(v) => at_key(dec_string(v), "name"@),
                    None => Err(DecodeErrorView::missing("name"@)),
                };
                let field = match optional(m, "field"@) {
                    Some(v) => at_key(some(dec_string(v)), "field"@),
                    None => Ok(None),
                };
                if name is Err {
                    Err(name->Err_0)
                } else if field is Err {
                    Err(field->Err_0)
                } else {
                    Ok(TcpOptionView { name: name->Ok_0, field: field->Ok_0 })
                }
            },
            _ => Err(DecodeErrorView::shape()),
        }
    }

    /// What the wire form holds under each key.
    pub proof fn lemma_members(self)
        ensures
            self.to_wire() is Object,
            lookup(self.to_wire()->Object_0, "name"@) == Some(JsonView::String(self.name)),
            lookup(self.to_wire()->Object_0, "field"@) == match self.field {
                Some(v) => Some(JsonView::String(v)),
                None => None,
            },
    {
        broadcast use {lemma_lookup_push, lemma_lookup_empty, lemma_with_opt};
        reveal_strlit("name");
        reveal_strlit("field");
        assert("name"@.len() == 4);
        assert("field"@.len() == 5);
    }

    /// Decoding the wire form of a value gives the value back.
    pub proof fn lemma_round_trip(self)
        ensures
            Self::from_wire(self.to_wire()) == Ok::<TcpOptionView, DecodeErrorView>(self),
    {
        self.lemma_members();
    }

    /// The order in which the members of an object stand does not matter to what
    /// the object decodes to.
    pub proof fn lemma_member_order(
        a: Seq<(Seq<char>, JsonView)>,
        b: Seq<(Seq<char>, JsonView)>,
    )
        requires
            same_members(a, b),
        ensures
            Self::from_wire(JsonView::Object(a)) == Self::from_wire(JsonView::Object(b)),
    {
        assert(lookup(a, "name"@) == lookup(b, "name"@));
        assert(lookup(a, "field"@) == lookup(b, "field"@));
    }

    /// Where an object fails to decode, the failure names the field that it lies in:
    /// its path begins with the key of one of the fields.
    pub proof fn lemma_failure_names_field(m: Seq<(Seq<char>, JsonView)>)
        ensures
            Self::from_wire(JsonView::Object(m)) matches Err(e) ==> e.path.len() > 0 && {
                ||| e.path[0] == PathSegmentView::Key("name"@)
                ||| e.path[0] == PathSegmentView::Key("field"@)
            },
    {
        broadcast use lemma_under_key_path;
    }
}

impl TcpOption {
    /// Encodes the value in its wire form.
    pub fn encode(&self) -> (j: Json)
        ensures
            j.deep_view() == self.deep_view().to_wire(),
    {
        let mut m: Vec<(String, Json)> = Vec::new();
        assert(members_view(m) =~= Seq::empty());
        put(&mut m, "name", Json::String(self.name.clone()));
        match &self.field {
            Some(v) => put(&mut m, "field", Json::String(v.clone())),
            None => {},
        }
        Json::Object(m)
    }

    /// Decodes a wire value.
    pub fn decode(j: &Json) -> (r: Result<TcpOption, DecodeError>)
        ensures
            decoded(r, TcpOptionView::from_wire(j.deep_view())),
    {
        match j {
            Json::Object(m) => {
                let name = match find(m, "name") {
                    Some(v) => match decode_string(v) {
                        Ok(x) => x,
                        Err(e) => return Err(e.under_key("name")),
                    },
                    None => return Err(DecodeError::missing("name")),
                };
                let field = match present(m, "field") {
                    Some(v) => match decode_string(v) {
                        Ok(x) => Some(x),
                        Err(e) => return Err(e.under_key("field")),
                    },
                    None => None,
                };
                Ok(TcpOption { name, field })
            },
            _ => Err(DecodeError::shape()),
        }
    }
}

impl Clone for TcpOption {
    fn clone(&self) -> (r: Self)
        ensures
            r.deep_view() == self.deep_view(),
    {
        TcpOption {
            name: self.name.clone(),
            field: match &self.field {
                Some(x) => Some(x.clone()),
                None => None,
            },
        }
    }
}

/// The default reference, to the `maxseg` option.
impl Default for TcpOption {
    fn default() -> (r: Self)
        ensures
            r.deep_view() == (TcpOptionView { name: "maxseg"@, field: None }),
    {
        TcpOption { name: "maxseg".to_owned(), field: None }
    }
}

/// A reference to a field of an SCTP chunk.
#[derive(Debug, PartialEq, Eq)]
pub struct SctpChunk {
    /// The SCTP chunk name.
    pub name: String,
    /// The field name.
    pub field: String,
}

/// The mathematical value of a [`SctpChunk`].
pub ghost struct SctpChunkView {
    pub name: Seq<char>,
    pub field: Seq<char>,
}

impl DeepView for SctpChunk {
    type V = SctpChunkView;

    open spec fn deep_view(&self) -> SctpChunkView {
        SctpChunkView {
            name: self.name@,
            field: self.field@,
        }
    }
}

impl SctpChunkView {
    /// The wire form: an object with one member for each field that has a value.
    pub open spec fn to_wire(self) -> JsonView {
        let m = Seq::empty();
        let m = m.push(("name"@, JsonView::String(self.name)));
        let m = m.push(("field"@, JsonView::String(self.field)));
        JsonView::Object(m)
    }

    /// What a wire value decodes to: the fields are read by their keys, in the order
    /// in which the type lists them, and the first that fails decides the failure.
    pub open spec fn from_wire(j: JsonView) -> Result<SctpChunkView, DecodeErrorView> {
        match j {
            JsonView::Object(m) => {
                let name = match lookup(m, "name"@) {
                    Some(v) => at_key(dec_string(v), "name"@),
                    None => Err(DecodeErrorView::missing("name"@)),
                };
                let field = match lookup(m, "field"@) {
                    Some(v) => at_key(dec_string(v), "field"@),
                    None => Err(DecodeErrorView::missing("field"@)),
                };
                if name is Err {
                    Err(name->Err_0)
                } else if field is Err {
                    Err(field->Err_0)
                } else {
                    Ok(SctpChunkView { name: name->Ok_0, field: field->Ok_0 })
                }
            },
            _ => Err(DecodeErrorView::shape()),
        }
    }

    /// What the wire form holds under each key.
    pub proof fn lemma_members(self)
        ensures
            self.to_wire() is Object,
            lookup(self.to_wire()->Object_0, "name"@) == Some(JsonView::String(self.name)),
            lookup(self.to_wire()->Object_0, "field"@) == Some(JsonView::String(self.field)),
    {
        broadcast use {lemma_lookup_push, lemma_lookup_empty, lemma_with_opt};
        reveal_strlit("name");
        reveal_strlit("field");
        assert("name"@.len() == 4);
        assert("field"@.len() == 5);
    }

    /// Decoding the wire form of a value gives the value back.
    pub proof fn lemma_round_trip(self)
        ensures
            Self::from_wire(self.to_wire()) == Ok::<SctpChunkView, DecodeErrorView>(self),
    {
        self.lemma_members();
    }

    /// The order in which the members of an object stand does not matter to what
    /// the object decodes to.
    pub proof fn lemma_member_order(
        a: Seq<(Seq<char>, JsonView)>,
        b: Seq<(Seq<char>, JsonView)>,
    )
        requires
            same_members(a, b),
        ensures
            Self::from_wire(JsonView::Object(a)) == Self::from_wire(JsonView::Object(b)),
    {
        assert(lookup(a, "name"@) == lookup(b, "name"@));
        assert(lookup(a, "field"@) == lookup(b, "field"@));
    }

    /// Where an object fails to decode, the failure names the field that it lies in:
    /// its path begins with the key of one of the fields.
    pub proof fn lemma_failure_names_field(m: Seq<(Seq<char>, JsonView)>)
        ensures
            Self::from_wire(JsonView::Object(m)) matches Err(e) ==> e.path.len() > 0 && {
                ||| e.path[0] == PathSegmentView::Key("name"@)
                ||| e.path[0] == PathSegmentView::Key("field"@)
            },
    {
        broadcast use lemma_under_key_path;
    }
}

impl SctpChunk {
    /// Encodes the value in its wire form.
    pub fn encode(&self) -> (j: Json)
        ensures
            j.deep_view() == self.deep_view().to_wire(),
    {
        let mut m: Vec<(String, Json)> = Vec::new();
        assert(members_view(m) =~= Seq::empty());
        put(&mut m, "name", Json::String(self.name.clone()));
        put(&mut m, "field", Json::String(self.field.clone()));
        Json::Object(m)
    }

    /// Decodes a wire value.
    pub fn decode(j: &Json) -> (r: Result<SctpChunk, DecodeError>)
        ensures
            decoded(r, SctpChunkView::from_wire(j.deep_view())),
    {
        match j {
            Json::Object(m) => {
                let name = match find(m, "name") {
                    Some(v) => match decode_string(v) {
                        Ok(x) => x,
                        Err(e) => return Err(e.under_key("name")),
                    },
                    None => return Err(DecodeError::missing("name")),
                };
                let field = match find(m, "field") {
                    Some(v) => match decode_string(v) {
                        Ok(x) => x,
                        Err(e) => return Err(e.under_key("field")),
                    },
                    None => return Err(DecodeError::missing("field")),
                };
                Ok(SctpChunk { name, field })
            },
            _ => Err(DecodeError::shape()),
        }
    }
}

impl Clone for SctpChunk {
    fn clone(&self) -> (r: Self)
        ensures
            r.deep_view() == self.deep_view(),
    {
        SctpChunk {
            name: self.name.clone(),
            field: self.field.clone(),
        }
    }
}

/// A reference to packet meta data.
#[derive(Debug, Clone, Copy, PartialEq, Eq)]
pub struct Meta {
    /// The packet meta data key.
    pub key: MetaKey,
}

impl DeepView for Meta {
    type V = Meta;

    open spec fn deep_view(&self) -> Meta {
        *self
    }
}

impl Meta {
    /// The wire form: an object with one member for each field that has a value.
    pub open spec fn to_wire(self) -> JsonView {
        let m = Seq::empty();
        let m = m.push(("key"@, enc_token(self.key)));
        JsonView::Object(m)
    }

    /// What a wire value decodes to: the fields are read by their keys, in the order
    /// in which the type lists them, and the first that fails decides the failure.
    pub open spec fn from_wire(j: JsonView) -> Result<Meta, DecodeErrorView> {
        match j {
            JsonView::Object(m) => {
                let key = match lookup(m, "key"@) {
                    Some(v) => at_key(dec_token::<MetaKey>(v), "key"@),
                    None => Err(DecodeErrorView::missing("key"@)),
                };
                if key is Err {
                    Err(key->Err_0)
                } else {
                    Ok(Meta { key: key->Ok_0 })
                }
            },
            _ => Err(DecodeErrorView::shape()),
        }
    }

    /// What the wire form holds under each key.
    pub proof fn lemma_members(self)
        ensures
            self.to_wire() is Object,
            lookup(self.to_wire()->Object_0, "key"@) == Some(enc_token(self.key)),
    {
        broadcast use {lemma_lookup_push, lemma_lookup_empty, lemma_with_opt};
        reveal_strlit("key");
        assert("key"@.len() == 3);
    }

    /// Decoding the wire form of a value gives the value back.
    pub proof fn lemma_round_trip(self)
        ensures
            Self::from_wire(self.to_wire()) == Ok::<Meta, DecodeErrorView>(self),
    {
        self.lemma_members();
        lemma_token_round_trip(self.key);
    }

    /// The order in which the members of an object stand does not matter to what
    /// the object decodes to.
    pub proof fn lemma_member_order(
        a: Seq<(Seq<char>, JsonView)>,
        b: Seq<(Seq<char>, JsonView)>,
    )
        requires
            same_members(a, b),
        ensures
            Self::from_wire(JsonView::Object(a)) == Self::from_wire(JsonView::Object(b)),
    {
        assert(lookup(a, "key"@) == lookup(b, "key"@));
    }

    /// Where an object fails to decode, the failure names the field that it lies in:
    /// its path begins with the key of one of the fields.
    pub proof fn lemma_failure_names_field(m: Seq<(Seq<char>, JsonView)>)
        ensures
            Self::from_wire(JsonView::Object(m)) matches Err(e) ==> e.path.len() > 0 && {
                ||| e.path[0] == PathSegmentView::Key("key"@)
            },
    {
        broadcast use lemma_under_key_path;
    }
}

impl Meta {
    /// Encodes the value in its wire form.
    pub fn encode(&self) -> (j: Json)
        ensures
            j.deep_view() == self.deep_view().to_wire(),
    {
        let mut m: Vec<(String, Json)> = Vec::new();
        assert(members_view(m) =~= Seq::empty());
        put(&mut m, "key", encode_token(&self.key));
        Json::Object(m)
    }

    /// Decodes a wire value.
    pub fn decode(j: &Json) -> (r: Result<Meta, DecodeError>)
        ensures
            decoded(r, Meta::from_wire(j.deep_view())),
    {
        match j {
            Json::Object(m) => {
                let key = match find(m, "key") {
                    Some(v) => match decode_token::<MetaKey>(v) {
                        Ok(x) => x,
                        Err(e) => return Err(e.under_key("key")),
                    },
                    None => return Err(DecodeError::missing("key")),
                };
                Ok(Meta { key })
            },
            _ => Err(DecodeError::shape()),
        }
    }
}

/// The default reference, to the key `l4proto`.
impl Default for Meta {
    fn default() -> (r: Self)
        ensures
            r.deep_view() == (Meta { key: MetaKey::L4proto }),
    {
        Meta { key: MetaKey::L4proto }
    }
}

/// A reference to packet routing data.
#[derive(Debug, Clone, Copy, PartialEq, Eq)]
pub struct RT {
    /// The routing data key.
    pub key: RTKey,
    /// The protocol family; unspecified where absent.
    pub family: Option<RTFamily>,
}

impl DeepView for RT {
    type V = RT;

    open spec fn deep_view(&self) -> RT {
        *self
    }
}

impl RT {
    /// The wire form: an object with one member for each field that has a value.
    pub open spec fn to_wire(self) -> JsonView {
        let m = Seq::empty();
        let m = m.push(("key"@, enc_token(self.key)));
        let m = with_opt(
            m,
            "family"@,
            match self.family {
                Some(v) => Some(enc_token(v)),
                None => None,
            },
        );
        JsonView::Object(m)
    }

    /// What a wire value decodes to: the fields are read by their keys, in the order
    /// in which the type lists them, and the first that fails decides the failure.
    pub open spec fn from_wire(j: JsonView) -> Result<RT, DecodeErrorView> {
        match j {
            JsonView::Object(m) => {
                let key = match lookup(m, "key"@) {
                    Some(v) => at_key(dec_token::<RTKey>(v), "key"@),
                    None => Err(DecodeErrorView::missing("key"@)),
                };
                let family = match optional(m, "family"@) {
                    Some(v) => at_key(some(dec_token::<RTFamily>(v)), "family"@),
                    None => Ok(None),
                };
                if key is Err {
                    Err(key->Err_0)
                } else if family is Err {
                    Err(family->Err_0)
                } else {
                    Ok(RT { key: key->Ok_0, family: family->Ok_0 })
                }
            },
            _ => Err(DecodeErrorView::shape()),
        }
    }

    /// What the wire form holds under each key.
    pub proof fn lemma_members(self)
        ensures
            self.to_wire() is Object,
            lookup(self.to_wire()->Object_0, "key"@) == Some(enc_token(self.key)),
            lookup(self.to_wire()->Object_0, "family"@) == match self.family {
                Some(v) => Some(enc_token(v)),
                None => None,
            },
    {
        broadcast use {lemma_lookup_push, lemma_lookup_empty, lemma_with_opt};
        reveal_strlit("key");
        reveal_strlit("family");
        assert("key"@.len() == 3);
        assert("family"@.len() == 6);
    }

    /// Decoding the wire form of a value gives the value back.
    pub proof fn lemma_round_trip(self)
        ensures
            Self::from_wire(self.to_wire()) == Ok::<RT, DecodeErrorView>(self),
    {
        self.lemma_members();
        lemma_token_round_trip(self.key);
        match self.family {
            Some(v) => {
                lemma_token_round_trip(v);
            },
            None => {},
        }
    }

    /// The order in which the members of an object stand does not matter to what
    /// the object decodes to.
    pub proof fn lemma_member_order(
        a: Seq<(Seq<char>, JsonView)>,
        b: Seq<(Seq<char>, JsonView)>,
    )
        requires
            same_members(a, b),
        ensures
            Self::from_wire(JsonView::Object(a)) == Self::from_wire(JsonView::Object(b)),
    {
        assert(lookup(a, "key"@) == lookup(b, "key"@));
        assert(lookup(a, "family"@) == lookup(b, "family"@));
    }

    /// Where an object fails to decode, the failure names the field that it lies in:
    /// its path begins with the key of one of the fields.
    pub proof fn lemma_failure_names_field(m: Seq<(Seq<char>, JsonView)>)
        ensures
            Self::from_wire(JsonView::Object(m)) matches Err(e) ==> e.path.len() > 0 && {
                ||| e.path[0] == PathSegmentView::Key("key"@)
                ||| e.path[0] == PathSegmentView::Key("family"@)
            },
    {
        broadcast use lemma_under_key_path;
    }
}

impl RT {
    /// Encodes the value in its wire form.
    pub fn encode(&self) -> (j: Json)
        ensures
            j.deep_view() == self.deep_view().to_wire(),
    {
        let mut m: Vec<(String, Json)> = Vec::new();
        assert(members_view(m) =~= Seq::empty());
        put(&mut m, "key", encode_token(&self.key));
        match &self.family {
            Some(v) => put(&mut m, "family", encode_token(v)),
            None => {},
        }
        Json::Object(m)
    }

    /// Decodes a wire value.
    pub fn decode(j: &Json) -> (r: Result<RT, DecodeError>)
        ensures
            decoded(r, RT::from_wire(j.deep_view())),
    {
        match j {
            Json::Object(m) => {
                let key = match find(m, "key") {
                    Some(v) => match decode_token::<RTKey>(v) {
                        Ok(x) => x,
                        Err(e) => return Err(e.under_key("key")),
                    },
                    None => return Err(DecodeError::missing("key")),
                };
                let family = match present(m, "family") {
                    Some(v) => match decode_token::<RTFamily>(v) {
                        Ok(x) => Some(x),
                        Err(e) => return Err(e.under_key("family")),
                    },
                    None => None,
                };
                Ok(RT { key, family })
            },
            _ => Err(DecodeError::shape()),
        }
    }
}

/// The default reference, to the key `nexthop`.
impl Default for RT {
    fn default() -> (r: Self)
        ensures
            r.deep_view() == (RT { key: RTKey::NextHop, family: None }),
    {
        RT { key: RTKey::NextHop, family: None }
    }
}

/// A reference to packet conntrack data.
#[derive(Debug, PartialEq, Eq)]
pub struct CT {
    /// The conntrack expression.
    pub key: String,
    /// The conntrack protocol family.
    pub family: Option<CTFamily>,
    /// The conntrack flow direction. Some keys take none.
    pub dir: Option<CTDir>,
}

/// The mathematical value of a [`CT`].
pub ghost struct CTView {
    pub key: Seq<char>,
    pub family: Option<CTFamily>,
    pub dir: Option<CTDir>,
}

impl DeepView for CT {
    type V = CTView;

    open spec fn deep_view(&self) -> CTView {
        CTView {
            key: self.key@,
            family: self.family,
            dir: self.dir,
        }
    }
}

impl CTView {
    /// The wire form: an object with one member for each field that has a value.
    pub open spec fn to_wire(self) -> JsonView {
        let m = Seq::empty();
        let m = m.push(("key"@, JsonView::String(self.key)));
        let m = with_opt(
            m,
            "family"@,
            match self.family {
                Some(v) => Some(enc_token(v)),
                None => None,
            },
        );
        let m = with_opt(
            m,
            "dir"@,
            match self.dir {
                Some(v) => Some(enc_token(v)),
                None => None,
            },
        );
        JsonView::Object(m)
    }

    /// What a wire value decodes to: the fields are read by their keys, in the order
    /// in which the type lists them, and the first that fails decides the failure.
    pub open spec fn from_wire(j: JsonView) -> Result<CTView, DecodeErrorView> {
        match j {
            JsonView::Object(m) => {
                let key = match lookup(m, "key"@) {
                    Some(v) => at_key(dec_string(v), "key"@),
                    None => Err(DecodeErrorView::missing("key"@)),
                };
                let family = match optional(m, "family"@) {
                    Some(v) => at_key(some(dec_token::<CTFamily>(v)), "family"@),
                    None => Ok(None),
                };
                let dir = match optional(m, "dir"@) {
                    Some(v) => at_key(some(dec_token::<CTDir>(v)), "dir"@),
                    None => Ok(None),
                };
                if key is Err {
                    Err(key->Err_0)
                } else if family is Err {
                    Err(family->Err_0)
                } else if dir is Err {
                    Err(dir->Err_0)
                } else {
                    Ok(CTView { key: key->Ok_0, family: family->Ok_0, dir: dir->Ok_0 })
                }
            },
            _ => Err(DecodeErrorView::shape()),
        }
    }

    /// What the wire form holds under each key.
    pub proof fn lemma_members(self)
        ensures
            self.to_wire() is Object,
            lookup(self.to_wire()->Object_0, "key"@) == Some(JsonView::String(self.key)),
            lookup(self.to_wire()->Object_0, "family"@) == match self.family {
                Some(v) => Some(enc_token(v)),
                None => None,
            },
            lookup(self.to_wire()->Object_0, "dir"@) == match self.dir {
                Some(v) => Some(enc_token(v)),
                None => None,
            },
    {
        broadcast use {lemma_lookup_push, lemma_lookup_empty, lemma_with_opt};
        reveal_strlit("key");
        reveal_strlit("family");
        reveal_strlit("dir");
        assert("key"@.len() == 3 && "key"@[0] == 'k');
        assert("family"@.len() == 6);
        assert("dir"@.len() == 3 && "dir"@[0] == 'd');
    }

    /// Decoding the wire form of a value gives the value back.
    pub proof fn lemma_round_trip(self)
        ensures
            Self::from_wire(self.to_wire()) == Ok::<CTView, DecodeErrorView>(self),
    {
        self.lemma_members();
        match self.family {
            Some(v) => {
                lemma_token_round_trip(v);
            },
            None => {},
        }
        match self.dir {
            Some(v) => {
                lemma_token_round_trip(v);
            },
            None => {},
        }
    }

    /// The order in which the members of an object stand does not matter to what
    /// the object decodes to.
    pub proof fn lemma_member_order(
        a: Seq<(Seq<char>, JsonView)>,
        b: Seq<(Seq<char>, JsonView)>,
    )
        requires
            same_members(a, b),
        ensures
            Self::from_wire(JsonView::Object(a)) == Self::from_wire(JsonView::Object(b)),
    {
        assert(lookup(a, "key"@) == lookup(b, "key"@));
        assert(lookup(a, "family"@) == lookup(b, "family"@));
        assert(lookup(a, "dir"@) == lookup(b, "dir"@));
    }

    /// Where an object fails to decode, the failure names the field that it lies in:
    /// its path begins with the key of one of the fields.
    pub proof fn lemma_failure_names_field(m: Seq<(Seq<char>, JsonView)>)
        ensures
            Self::from_wire(JsonView::Object(m)) matches Err(e) ==> e.path.len() > 0 && {
                ||| e.path[0] == PathSegmentView::Key("key"@)
                ||| e.path[0] == PathSegmentView::Key("family"@)
                ||| e.path[0] == PathSegmentView::Key("dir"@)
            },
    {
        broadcast use lemma_under_key_path;
    }
}

impl CT {
    /// Encodes the value in its wire form.
    pub fn encode(&self) -> (j: Json)
        ensures
            j.deep_view() == self.deep_view().to_wire(),
    {
        let mut m: Vec<(String, Json)> = Vec::new();
        assert(members_view(m) =~= Seq::empty());
        put(&mut m, "key", Json::String(self.key.clone()));
        match &self.family {
            Some(v) => put(&mut m, "family", encode_token(v)),
            None => {},
        }
        match &self.dir {
            Some(v) => put(&mut m, "dir", encode_token(v)),
            None => {},
        }
        Json::Object(m)
    }

    /// Decodes a wire value.
    pub fn decode(j: &Json) -> (r: Result<CT, DecodeError>)
        ensures
            decoded(r, CTView::from_wire(j.deep_view())),
    {
        match j {
            Json::Object(m) => {
                let key = match find(m, "key") {
                    Some(v) => match decode_string(v) {
                        Ok(x) => x,
                        Err(e) => return Err(e.under_key("key")),
                    },
                    None => return Err(DecodeError::missing("key")),
                };
                let family = match present(m, "family") {
                    Some(v) => match decode_token::<CTFamily>(v) {
                        Ok(x) => Some(x),
                        Err(e) => return Err(e.under_key("family")),
                    },
                    None => None,
                };
                let dir = match present(m, "dir") {
                    Some(v) => match decode_token::<CTDir>(v) {
                        Ok(x) => Some(x),
                        Err(e) => return Err(e.under_key("dir")),
                    },
                    None => None,
                };
                Ok(CT { key, family, dir })
            },
            _ => Err(DecodeError::shape()),
        }
    }
}

impl Clone for CT {
    fn clone(&self) -> (r: Self)
        ensures
            r.deep_view() == self.deep_view(),
    {
        CT {
            key: self.key.clone(),
            family: self.family,
            dir: self.dir,
        }
    }
}

/// The default reference, to the conntrack key `l3proto`.
impl Default for CT {
    fn default() -> (r: Self)
        ensures
            r.deep_view() == (CTView { key: "l3proto"@, family: None, dir: None }),
    {
        CT { key: "l3proto".to_owned(), family: None, dir: None }
    }
}

/// A number generator.
#[derive(Debug, Clone, Copy, PartialEq, Eq)]
pub struct Numgen {
    /// The number generator mode.
    pub mode: NgMode,
    /// An upper boundary ("modulus") which is not reached by returned numbers.
    pub ng_mod: u32,
    /// A fixed offset by which the returned value is incremented.
    pub offset: Option<u32>,
}

impl DeepView for Numgen {
    type V = Numgen;

    open spec fn deep_view(&self) -> Numgen {
        *self
    }
}

impl Numgen {
    /// The wire form: an object with one member for each field that has a value.
    pub open spec fn to_wire(self) -> JsonView {
        let m = Seq::empty();
        let m = m.push(("mode"@, enc_token(self.mode)));
        let m = m.push(("mod"@, JsonView::Number(self.ng_mod as int)));
        let m = with_opt(
            m,
            "offset"@,
            match self.offset {
                Some(v) => Some(JsonView::Number(v as int)),
                None => None,
            },
        );
        JsonView::Object(m)
    }

    /// What a wire value decodes to: the fields are read by their keys, in the order
    /// in which the type lists them, and the first that fails decides the failure.
    pub open spec fn from_wire(j: JsonView) -> Result<Numgen, DecodeErrorView> {
        match j {
            JsonView::Object(m) => {
                let mode = match lookup(m, "mode"@) {
                    Some(v) => at_key(dec_token::<NgMode>(v), "mode"@),
                    None => Err(DecodeErrorView::missing("mode"@)),
                };
                let ng_mod = match lookup(m, "mod"@) {
                    Some(v) => at_key(dec_u32(v), "mod"@),
                    None => Err(DecodeErrorView::missing("mod"@)),
                };
                let offset = match optional(m, "offset"@) {
                    Some(v) => at_key(some(dec_u32(v)), "offset"@),
                    None => Ok(None),
                };
                if mode is Err {
                    Err(mode->Err_0)
                } else if ng_mod is Err {
                    Err(ng_mod->Err_0)
                } else if offset is Err {
                    Err(offset->Err_0)
                } else {
                    Ok(Numgen { mode: mode->Ok_0, ng_mod: ng_mod->Ok_0, offset: offset->Ok_0 })
                }
            },
            _ => Err(DecodeErrorView::shape()),
        }
    }

    /// What the wire form holds under each key.
    pub proof fn lemma_members(self)
        ensures
            self.to_wire() is Object,
            lookup(self.to_wire()->Object_0, "mode"@) == Some(enc_token(self.mode)),
            lookup(self.to_wire()->Object_0, "mod"@) == Some(JsonView::Number(self.ng_mod as int)),
            lookup(self.to_wire()->Object_0, "offset"@) == match self.offset {
                Some(v) => Some(JsonView::Number(v as int)),
                None => None,
            },
    {
        broadcast use {lemma_lookup_push, lemma_lookup_empty, lemma_with_opt};
        reveal_strlit("mode");
        reveal_strlit("mod");
        reveal_strlit("offset");
        assert("mode"@.len() == 4);
        assert("mod"@.len() == 3);
        assert("offset"@.len() == 6);
    }

    /// Decoding the wire form of a value gives the value back.
    pub proof fn lemma_round_trip(self)
        ensures
            Self::from_wire(self.to_wire()) == Ok::<Numgen, DecodeErrorView>(self),
    {
        self.lemma_members();
        lemma_token_round_trip(self.mode);
    }

    /// The order in which the members of an object stand does not matter to what
    /// the object decodes to.
    pub proof fn lemma_member_order(
        a: Seq<(Seq<char>, JsonView)>,
        b: Seq<(Seq<char>, JsonView)>,
    )
        requires
            same_members(a, b),
        ensures
            Self::from_wire(JsonView::Object(a)) == Self::from_wire(JsonView::Object(b)),
    {
        assert(lookup(a, "mode"@) == lookup(b, "mode"@));
        assert(lookup(a, "mod"@) == lookup(b, "mod"@));
        assert(lookup(a, "offset"@) == lookup(b, "offset"@));
    }

    /// Where an object fails to decode, the failure names the field that it lies in:
    /// its path begins with the key of one of the fields.
    pub proof fn lemma_failure_names_field(m: Seq<(Seq<char>, JsonView)>)
        ensures
            Self::from_wire(JsonView::Object(m)) matches Err(e) ==> e.path.len() > 0 && {
                ||| e.path[0] == PathSegmentView::Key("mode"@)
                ||| e.path[0] == PathSegmentView::Key("mod"@)
                ||| e.path[0] == PathSegmentView::Key("offset"@)
            },
    {
        broadcast use lemma_under_key_path;
    }
}

impl Numgen {
    /// Encodes the value in its wire form.
    pub fn encode(&self) -> (j: Json)
        ensures
            j.deep_view() == self.deep_view().to_wire(),
    {
        let mut m: Vec<(String, Json)> = Vec::new();
        assert(members_view(m) =~= Seq::empty());
        put(&mut m, "mode", encode_token(&self.mode));
        put(&mut m, "mod", Json::Number(self.ng_mod as i128));
        match &self.offset {
            Some(v) => put(&mut m, "offset", Json::Number(*v as i128)),
            None => {},
        }
        Json::Object(m)
    }

    /// Decodes a wire value.
    pub fn decode(j: &Json) -> (r: Result<Numgen, DecodeError>)
        ensures
            decoded(r, Numgen::from_wire(j.deep_view())),
    {
        match j {
            Json::Object(m) => {
                let mode = match find(m, "mode") {
                    Some(v) => match decode_token::<NgMode>(v) {
                        Ok(x) => x,
                        Err(e) => return Err(e.under_key("mode")),
                    },
                    None => return Err(DecodeError::missing("mode")),
                };
                let ng_mod = match find(m, "mod") {
                    Some(v) => match decode_u32(v) {
                        Ok(x) => x,
                        Err(e) => return Err(e.under_key("mod")),
                    },
                    None => return Err(DecodeError::missing("mod")),
                };
                let offset = match present(m, "offset") {
                    Some(v) => match decode_u32(v) {
                        Ok(x) => Some(x),
                        Err(e) => return Err(e.under_key("offset")),
                    },
                    None => None,
                };
                Ok(Numgen { mode, ng_mod, offset })
            },
            _ => Err(DecodeError::shape()),
        }
    }
}

/// The default generator: mode `inc` and modulus `7`.
impl Default for Numgen {
    fn default() -> (r: Self)
        ensures
            r.deep_view() == (Numgen { mode: NgMode::Inc, ng_mod: 7, offset: None }),
    {
        Numgen { mode: NgMode::Inc, ng_mod: 7, offset: None }
    }
}

/// A hash of packet data (Jenkins hash).
#[derive(Debug, PartialEq, Eq)]
pub struct JHash {
    /// An upper boundary ("modulus") which is not reached by returned numbers.
    pub hash_mod: u32,
    /// A fixed offset by which the returned value is incremented.
    pub offset: Option<u32>,
    /// The parts of the packet header that are hashed; concatenations are possible as well.
    pub expr: Box<Expression>,
    /// An init value used as seed in the hashing function.
    pub seed: Option<u32>,
}

/// The mathematical value of a [`JHash`].
pub ghost struct JHashView {
    pub hash_mod: u32,
    pub offset: Option<u32>,
    pub expr: Box<ExpressionView>,
    pub seed: Option<u32>,
}

impl DeepView for JHash {
    type V = JHashView;

    open spec fn deep_view(&self) -> JHashView
        decreases self,
    {
        JHashView {
            hash_mod: self.hash_mod,
            offset: self.offset,
            expr: Box::new((*self.expr).deep_view()),
            seed: self.seed,
        }
    }
}

impl JHashView {
    /// The wire form: an object with one member for each field that has a value.
    pub open spec fn to_wire(self) -> JsonView
        decreases self, 0nat,
    {
        let m = Seq::empty();
        let m = m.push(("mod"@, JsonView::Number(self.hash_mod as int)));
        let m = with_opt(
            m,
            "offset"@,
            match self.offset {
                Some(v) => Some(JsonView::Number(v as int)),
                None => None,
            },
        );
        let m = m.push(("expr"@, (*self.expr).to_wire()));
        let m = with_opt(
            m,
            "seed"@,
            match self.seed {
                Some(v) => Some(JsonView::Number(v as int)),
                None => None,
            },
        );
        JsonView::Object(m)
    }

    /// What a wire value decodes to: the fields are read by their keys, in the order
    /// in which the type lists them, and the first that fails decides the failure.
    pub open spec fn from_wire(j: JsonView) -> Result<JHashView, DecodeErrorView>
        decreases j, 0nat,
    {
        match j {
            JsonView::Object(m) => {
                let hash_mod = match lookup(m, "mod"@) {
                    Some(v) => at_key(dec_u32(v), "mod"@),
                    None => Err(DecodeErrorView::missing("mod"@)),
                };
                let offset = match optional(m, "offset"@) {
                    Some(v) => at_key(some(dec_u32(v)), "offset"@),
                    None => Ok(None),
                };
                let expr = match lookup(m, "expr"@) {
                    Some(v) => at_key(boxed(ExpressionView::from_wire(v)), "expr"@),
                    None => Err(DecodeErrorView::missing("expr"@)),
                };
                let seed = match optional(m, "seed"@) {
                    Some(v) => at_key(some(dec_u32(v)), "seed"@),
                    None => Ok(None),
                };
                if hash_mod is Err {
                    Err(hash_mod->Err_0)
                } else if offset is Err {
                    Err(offset->Err_0)
                } else if expr is Err {
                    Err(expr->Err_0)
                } else if seed is Err {
                    Err(seed->Err_0)
                } else {
                    Ok(
                        JHashView {
                            hash_mod: hash_mod->Ok_0,
                            offset: offset->Ok_0,
                            expr: expr->Ok_0,
                            seed: seed->Ok_0,
                        },
                    )
                }
            },
            _ => Err(DecodeErrorView::shape()),
        }
    }

    /// Whether decoding the wire form gives this value back.
    pub open spec fn canonical(self) -> bool
        decreases self,
    {
        &&& (*self.expr).canonical()
    }

    /// What the wire form holds under each key.
    pub proof fn lemma_members(self)
        ensures
            self.to_wire() is Object,
            lookup(self.to_wire()->Object_0, "mod"@) == Some(
                JsonView::Number(self.hash_mod as int),
            ),
            lookup(self.to_wire()->Object_0, "offset"@) == match self.offset {
                Some(v) => Some(JsonView::Number(v as int)),
                None => None,
            },
            lookup(self.to_wire()->Object_0, "expr"@) == Some((*self.expr).to_wire()),
            lookup(self.to_wire()->Object_0, "seed"@) == match self.seed {
                Some(v) => Some(JsonView::Number(v as int)),
                None => None,
            },
    {
        broadcast use {lemma_lookup_push, lemma_lookup_empty, lemma_with_opt};
        reveal_strlit("mod");
        reveal_strlit("offset");
        reveal_strlit("expr");
        reveal_strlit("seed");
        assert("mod"@.len() == 3);
        assert("offset"@.len() == 6);
        assert("expr"@.len() == 4 && "expr"@[0] == 'e');
        assert("seed"@.len() == 4 && "seed"@[0] == 's');
    }

    /// Decoding the wire form of a value gives the value back.
    pub proof fn lemma_round_trip(self)
        requires
            self.canonical(),
        ensures
            Self::from_wire(self.to_wire()) == Ok::<JHashView, DecodeErrorView>(self),
        decreases self, 0nat,
    {
        self.lemma_members();
        (*self.expr).lemma_round_trip();
        (*self.expr).lemma_not_null();
    }

    /// The order in which the members of an object stand does not matter to what
    /// the object decodes to.
    pub proof fn lemma_member_order(
        a: Seq<(Seq<char>, JsonView)>,
        b: Seq<(Seq<char>, JsonView)>,
    )
        requires
            same_members(a, b),
        ensures
            Self::from_wire(JsonView::Object(a)) == Self::from_wire(JsonView::Object(b)),
    {
        assert(lookup(a, "mod"@) == lookup(b, "mod"@));
        assert(lookup(a, "offset"@) == lookup(b, "offset"@));
        assert(lookup(a, "expr"@) == lookup(b, "expr"@));
        assert(lookup(a, "seed"@) == lookup(b, "seed"@));
    }

    /// Where an object fails to decode, the failure names the field that it lies in:
    /// its path begins with the key of one of the fields.
    pub proof fn lemma_failure_names_field(m: Seq<(Seq<char>, JsonView)>)
        ensures
            Self::from_wire(JsonView::Object(m)) matches Err(e) ==> e.path.len() > 0 && {
                ||| e.path[0] == PathSegmentView::Key("mod"@)
                ||| e.path[0] == PathSegmentView::Key("offset"@)
                ||| e.path[0] == PathSegmentView::Key("expr"@)
                ||| e.path[0] == PathSegmentView::Key("seed"@)
            },
    {
        broadcast use lemma_under_key_path;
    }
}

impl JHash {
    /// Encodes the value in its wire form.
    pub fn encode(&self) -> (j: Json)
        ensures
            j.deep_view() == self.deep_view().to_wire(),
        decreases self,
    {
        let mut m: Vec<(String, Json)> = Vec::new();
        assert(members_view(m) =~= Seq::empty());
        put(&mut m, "mod", Json::Number(self.hash_mod as i128));
        match &self.offset {
            Some(v) => put(&mut m, "offset", Json::Number(*v as i128)),
            None => {},
        }
        put(&mut m, "expr", self.expr.encode());
        match &self.seed {
            Some(v) => put(&mut m, "seed", Json::Number(*v as i128)),
            None => {},
        }
        Json::Object(m)
    }

    /// Decodes a wire value.
    pub fn decode(j: &Json) -> (r: Result<JHash, DecodeError>)
        ensures
            decoded(r, JHashView::from_wire(j.deep_view())),
        decreases j, 0nat,
    {
        match j {
            Json::Object(m) => {
                let hash_mod = match find(m, "mod") {
                    Some(v) => match decode_u32(v) {
                        Ok(x) => x,
                        Err(e) => return Err(e.under_key("mod")),
                    },
                    None => return Err(DecodeError::missing("mod")),
                };
                let offset = match present(m, "offset") {
                    Some(v) => match decode_u32(v) {
                        Ok(x) => Some(x),
                        Err(e) => return Err(e.under_key("offset")),
                    },
                    None => None,
                };
                let expr = match find(m, "expr") {
                    Some(v) => match Expression::decode(v) {
                        Ok(x) => Box::new(x),
                        Err(e) => return Err(e.under_key("expr")),
                    },
                    None => return Err(DecodeError::missing("expr")),
                };
                let seed = match present(m, "seed") {
                    Some(v) => match decode_u32(v) {
                        Ok(x) => Some(x),
                        Err(e) => return Err(e.under_key("seed")),
                    },
                    None => None,
                };
                Ok(JHash { hash_mod, offset, expr, seed })
            },
            _ => Err(DecodeError::shape()),
        }
    }
}

impl Clone for JHash {
    fn clone(&self) -> (r: Self)
        ensures
            r.deep_view() == self.deep_view(),
        decreases self,
    {
        JHash {
            hash_mod: self.hash_mod,
            offset: self.offset,
            expr: Box::new((**(&self.expr)).clone()),
            seed: self.seed,
        }
    }
}

/// The default hash: of `ip saddr`, with modulus `7`.
impl Default for JHash {
    fn default() -> (r: Self)
        ensures
            r.deep_view() == (JHashView { hash_mod: 7, offset: None, expr: Box::new(
                    ExpressionView::Named(
                        NamedExpressionView::Payload(
                            PayloadView::PayloadField(
                                PayloadFieldView { protocol: "ip"@, field: "saddr"@ },
                            ),
                        ),
                    ),
                ), seed: None }),
    {
        JHash { hash_mod: 7, offset: None, expr: Box::new(
                Expression::Named(
                    NamedExpression::Payload(
                        Payload::PayloadField(
                            PayloadField { protocol: "ip".to_owned(), field: "saddr".to_owned() },
                        ),
                    ),
                ),
            ), seed: None }
    }
}

/// A hash of packet data (symmetric hash).
#[derive(Debug, Clone, Copy, PartialEq, Eq)]
pub struct SymHash {
    /// An upper boundary ("modulus") which is not reached by returned numbers.
    pub hash_mod: u32,
    /// A fixed offset by which the returned value is incremented.
    pub offset: Option<u32>,
}

impl DeepView for SymHash {
    type V = SymHash;

    open spec fn deep_view(&self) -> SymHash {
        *self
    }
}

impl SymHash {
    /// The wire form: an object with one member for each field that has a value.
    pub open spec fn to_wire(self) -> JsonView {
        let m = Seq::empty();
        let m = m.push(("mod"@, JsonView::Number(self.hash_mod as int)));
        let m = with_opt(
            m,
            "offset"@,
            match self.offset {
                Some(v) => Some(JsonView::Number(v as int)),
                None => None,
            },
        );
        JsonView::Object(m)
    }

    /// What a wire value decodes to: the fields are read by their keys, in the order
    /// in which the type lists them, and the first that fails decides the failure.
    pub open spec fn from_wire(j: JsonView) -> Result<SymHash, DecodeErrorView> {
        match j {
            JsonView::Object(m) => {
                let hash_mod = match lookup(m, "mod"@) {
                    Some(v) => at_key(dec_u32(v), "mod"@),
                    None => Err(DecodeErrorView::missing("mod"@)),
                };
                let offset = match optional(m, "offset"@) {
                    Some(v) => at_key(some(dec_u32(v)), "offset"@),
                    None => Ok(None),
                };
                if hash_mod is Err {
                    Err(hash_mod->Err_0)
                } else if offset is Err {
                    Err(offset->Err_0)
                } else {
                    Ok(SymHash { hash_mod: hash_mod->Ok_0, offset: offset->Ok_0 })
                }
            },
            _ => Err(DecodeErrorView::shape()),
        }
    }

    /// What the wire form holds under each key.
    pub proof fn lemma_members(self)
        ensures
            self.to_wire() is Object,
            lookup(self.to_wire()->Object_0, "mod"@) == Some(
                JsonView::Number(self.hash_mod as int),
            ),
            lookup(self.to_wire()->Object_0, "offset"@) == match self.offset {
                Some(v) => Some(JsonView::Number(v as int)),
                None => None,
            },
    {
        broadcast use {lemma_lookup_push, lemma_lookup_empty, lemma_with_opt};
        reveal_strlit("mod");
        reveal_strlit("offset");
        assert("mod"@.len() == 3);
        assert("offset"@.len() == 6);
    }

    /// Decoding the wire form of a value gives the value back.
    pub proof fn lemma_round_trip(self)
        ensures
            Self::from_wire(self.to_wire()) == Ok::<SymHash, DecodeErrorView>(self),
    {
        self.lemma_members();
    }

    /// The order in which the members of an object stand does not matter to what
    /// the object decodes to.
    pub proof fn lemma_member_order(
        a: Seq<(Seq<char>, JsonView)>,
        b: Seq<(Seq<char>, JsonView)>,
    )
        requires
            same_members(a, b),
        ensures
            Self::from_wire(JsonView::Object(a)) == Self::from_wire(JsonView::Object(b)),
    {
        assert(lookup(a, "mod"@) == lookup(b, "mod"@));
        assert(lookup(a, "offset"@) == lookup(b, "offset"@));
    }

    /// Where an object fails to decode, the failure names the field that it lies in:
    /// its path begins with the key of one of the fields.
    pub proof fn lemma_failure_names_field(m: Seq<(Seq<char>, JsonView)>)
        ensures
            Self::from_wire(JsonView::Object(m)) matches Err(e) ==> e.path.len() > 0 && {
                ||| e.path[0] == PathSegmentView::Key("mod"@)
                ||| e.path[0] == PathSegmentView::Key("offset"@)
            },
    {
        broadcast use lemma_under_key_path;
    }
}

impl SymHash {
    /// Encodes the value in its wire form.
    pub fn encode(&self) -> (j: Json)
        ensures
            j.deep_view() == self.deep_view().to_wire(),
    {
        let mut m: Vec<(String, Json)> = Vec::new();
        assert(members_view(m) =~= Seq::empty());
        put(&mut m, "mod", Json::Number(self.hash_mod as i128));
        match &self.offset {
            Some(v) => put(&mut m, "offset", Json::Number(*v as i128)),
            None => {},
        }
        Json::Object(m)
    }

    /// Decodes a wire value.
    pub fn decode(j: &Json) -> (r: Result<SymHash, DecodeError>)
        ensures
            decoded(r, SymHash::from_wire(j.deep_view())),
    {
        match j {
            Json::Object(m) => {
                let hash_mod = match find(m, "mod") {
                    Some(v) => match decode_u32(v) {
                        Ok(x) => x,
                        Err(e) => return Err(e.under_key("mod")),
                    },
                    None => return Err(DecodeError::missing("mod")),
                };
                let offset = match present(m, "offset") {
                    Some(v) => match decode_u32(v) {
                        Ok(x) => Some(x),
                        Err(e) => return Err(e.under_key("offset")),
                    },
                    None => None,
                };
                Ok(SymHash { hash_mod, offset })
            },
            _ => Err(DecodeError::shape()),
        }
    }
}

/// The default hash: modulus `2`.
impl Default for SymHash {
    fn default() -> (r: Self)
        ensures
            r.deep_view() == (SymHash { hash_mod: 2, offset: None }),
    {
        SymHash { hash_mod: 2, offset: None }
    }
}

/// A lookup in the kernel's forwarding information base.
#[derive(Debug, PartialEq, Eq)]
pub struct Fib {
    /// The data to be queried by the lookup.
    pub result: FibResult,
    /// The elements that are the input of the lookup.
    pub flags: FlagSet<FibFlag>,
}

/// The mathematical value of a [`Fib`].
pub ghost struct FibView {
    pub result: FibResult,
    pub flags: Set<FibFlag>,
}

impl DeepView for Fib {
    type V = FibView;

    open spec fn deep_view(&self) -> FibView {
        FibView {
            result: self.result,
            flags: self.flags.deep_view(),
        }
    }
}

impl FibView {
    /// The wire form: an object with one member for each field that has a value.
    pub open spec fn to_wire(self) -> JsonView {
        let m = Seq::empty();
        let m = m.push(("result"@, enc_token(self.result)));
        let m = m.push(("flags"@, enc_flags(self.flags)));
        JsonView::Object(m)
    }

    /// What a wire value decodes to: the fields are read by their keys, in the order
    /// in which the type lists them, and the first that fails decides the failure.
    pub open spec fn from_wire(j: JsonView) -> Result<FibView, DecodeErrorView> {
        match j {
            JsonView::Object(m) => {
                let result = match lookup(m, "result"@) {
                    Some(v) => at_key(dec_token::<FibResult>(v), "result"@),
                    None => Err(DecodeErrorView::missing("result"@)),
                };
                let flags = match optional(m, "flags"@) {
                    Some(v) => at_key(dec_flags::<FibFlag>(v), "flags"@),
                    None => Ok(Set::empty()),
                };
                if result is Err {
                    Err(result->Err_0)
                } else if flags is Err {
                    Err(flags->Err_0)
                } else {
                    Ok(FibView { result: result->Ok_0, flags: flags->Ok_0 })
                }
            },
            _ => Err(DecodeErrorView::shape()),
        }
    }

    /// What the wire form holds under each key.
    pub proof fn lemma_members(self)
        ensures
            self.to_wire() is Object,
            lookup(self.to_wire()->Object_0, "result"@) == Some(enc_token(self.result)),
            lookup(self.to_wire()->Object_0, "flags"@) == Some(enc_flags(self.flags)),
    {
        broadcast use {lemma_lookup_push, lemma_lookup_empty, lemma_with_opt};
        reveal_strlit("result");
        reveal_strlit("flags");
        assert("result"@.len() == 6);
        assert("flags"@.len() == 5);
    }

    /// Decoding the wire form of a value gives the value back.
    pub proof fn lemma_round_trip(self)
        ensures
            Self::from_wire(self.to_wire()) == Ok::<FibView, DecodeErrorView>(self),
    {
        self.lemma_members();
        lemma_token_round_trip(self.result);
        lemma_flags_round_trip(self.flags);
    }

    /// The order in which the members of an object stand does not matter to what
    /// the object decodes to.
    pub proof fn lemma_member_order(
        a: Seq<(Seq<char>, JsonView)>,
        b: Seq<(Seq<char>, JsonView)>,
    )
        requires
            same_members(a, b),
        ensures
            Self::from_wire(JsonView::Object(a)) == Self::from_wire(JsonView::Object(b)),
    {
        assert(lookup(a, "result"@) == lookup(b, "result"@));
        assert(lookup(a, "flags"@) == lookup(b, "flags"@));
    }

    /// Whether the options under `flags` are written as one spelling or as the array
    /// of that one spelling does not matter to what an object decodes to.
    pub proof fn lemma_single_flag_is_list(
        a: Seq<(Seq<char>, JsonView)>,
        b: Seq<(Seq<char>, JsonView)>,
        token: Seq<char>,
    )
        requires
            <FibFlag as Token>::from_text(token) is Some,
            lookup(a, "flags"@) == Some(JsonView::String(token)),
            lookup(b, "flags"@) == Some(JsonView::Array(seq![JsonView::String(token)])),
            forall|k: Seq<char>| k != "flags"@ ==> lookup(a, k) == lookup(b, k),
        ensures
            Self::from_wire(JsonView::Object(a)) == Self::from_wire(JsonView::Object(b)),
    {
        crate::flags::lemma_single_flag_is_list::<FibFlag>(token);
        reveal_strlit("result");
        reveal_strlit("flags");
        assert("result"@.len() == 6);
        assert("flags"@.len() == 5);
        assert(lookup(a, "result"@) == lookup(b, "result"@));
    }

    /// Where an object fails to decode, the failure names the field that it lies in:
    /// its path begins with the key of one of the fields.
    pub proof fn lemma_failure_names_field(m: Seq<(Seq<char>, JsonView)>)
        ensures
            Self::from_wire(JsonView::Object(m)) matches Err(e) ==> e.path.len() > 0 && {
                ||| e.path[0] == PathSegmentView::Key("result"@)
                ||| e.path[0] == PathSegmentView::Key("flags"@)
            },
    {
        broadcast use lemma_under_key_path;
    }
}

impl Fib {
    /// Encodes the value in its wire form.
    pub fn encode(&self) -> (j: Json)
        ensures
            j.deep_view() == self.deep_view().to_wire(),
    {
        let mut m: Vec<(String, Json)> = Vec::new();
        assert(members_view(m) =~= Seq::empty());
        put(&mut m, "result", encode_token(&self.result));
        put(&mut m, "flags", self.flags.encode());
        Json::Object(m)
    }

    /// Decodes a wire value.
    pub fn decode(j: &Json) -> (r: Result<Fib, DecodeError>)
        ensures
            decoded(r, FibView::from_wire(j.deep_view())),
    {
        match j {
            Json::Object(m) => {
                let result = match find(m, "result") {
                    Some(v) => match decode_token::<FibResult>(v) {
                        Ok(x) => x,
                        Err(e) => return Err(e.under_key("result")),
                    },
                    None => return Err(DecodeError::missing("result")),
                };
                let flags = match present(m, "flags") {
                    Some(v) => match deserialize_flags::<FibFlag>(v) {
                        Ok(x) => x,
                        Err(e) => return Err(e.under_key("flags")),
                    },
                    None => FlagSet::new(),
                };
                Ok(Fib { result, flags })
            },
            _ => Err(DecodeError::shape()),
        }
    }
}

impl Clone for Fib {
    fn clone(&self) -> (r: Self)
        ensures
            r.deep_view() == self.deep_view(),
    {
        Fib {
            result: self.result,
            flags: self.flags.clone(),
        }
    }
}

/// The default lookup: the output interface index, by input interface.
impl Default for Fib {
    fn default() -> (r: Self)
        ensures
            r.deep_view() == (FibView {
                result: FibResult::Oif,
                flags: Set::empty().insert(FibFlag::Iif),
            }),
    {
        let mut flags = FlagSet::new();
        flags.insert(FibFlag::Iif);
        Fib { result: FibResult::Oif, flags }
    }
}

/// An explicit set element, for where `timeout`, `expires`, `comment` or a counter are desired.
#[derive(Debug, PartialEq, Eq)]
pub struct Elem {
    /// The element value.
    pub val: Box<Expression>,
    /// Timeout value, for sets and maps with the `timeout` flag.
    pub timeout: Option<u32>,
    /// The time until the element expires; useful for ruleset replication only.
    pub expires: Option<u32>,
    /// Per element comment field.
    pub comment: Option<String>,
    /// A counter per element.
    pub counter: Option<Counter>,
}

/// The mathematical value of an [`Elem`].
pub ghost struct ElemView {
    pub val: Box<ExpressionView>,
    pub timeout: Option<u32>,
    pub expires: Option<u32>,
    pub comment: Option<Seq<char>>,
    pub counter: Option<CounterView>,
}

impl DeepView for Elem {
    type V = ElemView;

    open spec fn deep_view(&self) -> ElemView
        decreases self,
    {
        ElemView {
            val: Box::new((*self.val).deep_view()),
            timeout: self.timeout,
            expires: self.expires,
            comment: match self.comment {
                Some(x) => Some(x@),
                None => None,
            },
            counter: match self.counter {
                Some(x) => Some(x.deep_view()),
                None => None,
            },
        }
    }
}

impl ElemView {
    /// The wire form: an object with one member for each field that has a value.
    pub open spec fn to_wire(self) -> JsonView
        decreases self, 0nat,
    {
        let m = Seq::empty();
        let m = m.push(("val"@, (*self.val).to_wire()));
        let m = with_opt(
            m,
            "timeout"@,
            match self.timeout {
                Some(v) => Some(JsonView::Number(v as int)),
                None => None,
            },
        );
        let m = with_opt(
            m,
            "expires"@,
            match self.expires {
                Some(v) => Some(JsonView::Number(v as int)),
                None => None,
            },
        );
        let m = with_opt(
            m,
            "comment"@,
            match self.comment {
                Some(v) => Some(JsonView::String(v)),
                None => None,
            },
        );
        let m = with_opt(
            m,
            "counter"@,
            match self.counter {
                Some(v) => Some(v.to_wire()),
                None => None,
            },
        );
        JsonView::Object(m)
    }

    /// What a wire value decodes to: the fields are read by their keys, in the order
    /// in which the type lists them, and the first that fails decides the failure.
    pub open spec fn from_wire(j: JsonView) -> Result<ElemView, DecodeErrorView>
        decreases j, 0nat,
    {
        match j {
            JsonView::Object(m) => {
                let val = match lookup(m, "val"@) {
                    Some(v) => at_key(boxed(ExpressionView::from_wire(v)), "val"@),
                    None => Err(DecodeErrorView::missing("val"@)),
                };
                let timeout = match optional(m, "timeout"@) {
                    Some(v) => at_key(some(dec_u32(v)), "timeout"@),
                    None => Ok(None),
                };
                let expires = match optional(m, "expires"@) {
                    Some(v) => at_key(some(dec_u32(v)), "expires"@),
                    None => Ok(None),
                };
                let comment = match optional(m, "comment"@) {
                    Some(v) => at_key(some(dec_string(v)), "comment"@),
                    None => Ok(None),
                };
                let counter = match optional(m, "counter"@) {
                    Some(v) => at_key(some(CounterView::from_wire(v)), "counter"@),
                    None => Ok(None),
                };
                if val is Err {
                    Err(val->Err_0)
                } else if timeout is Err {
                    Err(timeout->Err_0)
                } else if expires is Err {
                    Err(expires->Err_0)
                } else if comment is Err {
                    Err(comment->Err_0)
                } else if counter is Err {
                    Err(counter->Err_0)
                } else {
                    Ok(
                        ElemView {
                            val: val->Ok_0,
                            timeout: timeout->Ok_0,
                            expires: expires->Ok_0,
                            comment: comment->Ok_0,
                            counter: counter->Ok_0,
                        },
                    )
                }
            },
            _ => Err(DecodeErrorView::shape()),
        }
    }

    /// Whether decoding the wire form gives this value back.
    pub open spec fn canonical(self) -> bool
        decreases self,
    {
        &&& (*self.val).canonical()
        &&& (self.counter matches Some(v) ==> v.canonical())
        &&& !(self.counter matches Some(c) && c.to_wire() is Null)
    }

    /// What the wire form holds under each key.
    pub proof fn lemma_members(self)
        ensures
            self.to_wire() is Object,
            lookup(self.to_wire()->Object_0, "val"@) == Some((*self.val).to_wire()),
            lookup(self.to_wire()->Object_0, "timeout"@) == match self.timeout {
                Some(v) => Some(JsonView::Number(v as int)),
                None => None,
            },
            lookup(self.to_wire()->Object_0, "expires"@) == match self.expires {
                Some(v) => Some(JsonView::Number(v as int)),
                None => None,
            },
            lookup(self.to_wire()->Object_0, "comment"@) == match self.comment {
                Some(v) => Some(JsonView::String(v)),
                None => None,
            },
            lookup(self.to_wire()->Object_0, "counter"@) == match self.counter {
                Some(v) => Some(v.to_wire()),
                None => None,
            },
    {
        broadcast use {lemma_lookup_push, lemma_lookup_empty, lemma_with_opt};
        reveal_strlit("val");
        reveal_strlit("timeout");
        reveal_strlit("expires");
        reveal_strlit("comment");
        reveal_strlit("counter");
        assert("val"@.len() == 3);
        assert("timeout"@.len() == 7 && "timeout"@[3] == 'e');
        assert("expires"@.len() == 7 && "expires"@[3] == 'i');
        assert("comment"@.len() == 7 && "comment"@[3] == 'm');
        assert("counter"@.len() == 7 && "counter"@[3] == 'n');
    }

    /// Decoding the wire form of a value gives the value back.
    pub proof fn lemma_round_trip(self)
        requires
            self.canonical(),
        ensures
            Self::from_wire(self.to_wire()) == Ok::<ElemView, DecodeErrorView>(self),
        decreases self, 0nat,
    {
        self.lemma_members();
        (*self.val).lemma_round_trip();
        (*self.val).lemma_not_null();
        match self.counter {
            Some(v) => {
                v.lemma_round_trip();
            },
            None => {},
        }
    }

    /// The order in which the members of an object stand does not matter to what
    /// the object decodes to.
    pub proof fn lemma_member_order(
        a: Seq<(Seq<char>, JsonView)>,
        b: Seq<(Seq<char>, JsonView)>,
    )
        requires
            same_members(a, b),
        ensures
            Self::from_wire(JsonView::Object(a)) == Self::from_wire(JsonView::Object(b)),
    {
        assert(lookup(a, "val"@) == lookup(b, "val"@));
        assert(lookup(a, "timeout"@) == lookup(b, "timeout"@));
        assert(lookup(a, "expires"@) == lookup(b, "expires"@));
        assert(lookup(a, "comment"@) == lookup(b, "comment"@));
        assert(lookup(a, "counter"@) == lookup(b, "counter"@));
    }

    /// Where an object fails to decode, the failure names the field that it lies in:
    /// its path begins with the key of one of the fields.
    pub proof fn lemma_failure_names_field(m: Seq<(Seq<char>, JsonView)>)
        ensures
            Self::from_wire(JsonView::Object(m)) matches Err(e) ==> e.path.len() > 0 && {
                ||| e.path[0] == PathSegmentView::Key("val"@)
                ||| e.path[0] == PathSegmentView::Key("timeout"@)
                ||| e.path[0] == PathSegmentView::Key("expires"@)
                ||| e.path[0] == PathSegmentView::Key("comment"@)
                ||| e.path[0] == PathSegmentView::Key("counter"@)
            },
    {
        broadcast use lemma_under_key_path;
    }
}

impl Elem {
    /// Encodes the value in its wire form.
    pub fn encode(&self) -> (j: Json)
        ensures
            j.deep_view() == self.deep_view().to_wire(),
        decreases self,
    {
        let mut m: Vec<(String, Json)> = Vec::new();
        assert(members_view(m) =~= Seq::empty());
        put(&mut m, "val", self.val.encode());
        match &self.timeout {
            Some(v) => put(&mut m, "timeout", Json::Number(*v as i128)),
            None => {},
        }
        match &self.expires {
            Some(v) => put(&mut m, "expires", Json::Number(*v as i128)),
            None => {},
        }
        match &self.comment {
            Some(v) => put(&mut m, "comment", Json::String(v.clone())),
            None => {},
        }
        match &self.counter {
            Some(v) => put(&mut m, "counter", v.encode()),
            None => {},
        }
        Json::Object(m)
    }

    /// Decodes a wire value.
    pub fn decode(j: &Json) -> (r: Result<Elem, DecodeError>)
        ensures
            decoded(r, ElemView::from_wire(j.deep_view())),
        decreases j, 0nat,
    {
        match j {
            Json::Object(m) => {
                let val = match find(m, "val") {
                    Some(v) => match Expression::decode(v) {
                        Ok(x) => Box::new(x),
                        Err(e) => return Err(e.under_key("val")),
                    },
                    None => return Err(DecodeError::missing("val")),
                };
                let timeout = match present(m, "timeout") {
                    Some(v) => match decode_u32(v) {
                        Ok(x) => Some(x),
                        Err(e) => return Err(e.under_key("timeout")),
                    },
                    None => None,
                };
                let expires = match present(m, "expires") {
                    Some(v) => match decode_u32(v) {
                        Ok(x) => Some(x),
                        Err(e) => return Err(e.under_key("expires")),
                    },
                    None => None,
                };
                let comment = match present(m, "comment") {
                    Some(v) => match decode_string(v) {
                        Ok(x) => Some(x),
                        Err(e) => return Err(e.under_key("comment")),
                    },
                    None => None,
                };
                let counter = match present(m, "counter") {
                    Some(v) => match Counter::decode(v) {
                        Ok(x) => Some(x),
                        Err(e) => return Err(e.under_key("counter")),
                    },
                    None => None,
                };
                Ok(Elem { val, timeout, expires, comment, counter })
            },
            _ => Err(DecodeError::shape()),
        }
    }
}

impl Clone for Elem {
    fn clone(&self) -> (r: Self)
        ensures
            r.deep_view() == self.deep_view(),
        decreases self,
    {
        Elem {
            val: Box::new((**(&self.val)).clone()),
            timeout: self.timeout,
            expires: self.expires,
            comment: match &self.comment {
                Some(x) => Some(x.clone()),
                None => None,
            },
            counter: match &self.counter {
                Some(x) => Some(x.clone()),
                None => None,
            },
        }
    }
}

/// The default element: the address `10.2.3.4`.
impl Default for Elem {
    fn default() -> (r: Self)
        ensures
            r.deep_view() == (
                ElemView {
                    val: Box::new(ExpressionView::String("10.2.3.4"@)),
                    timeout: None,
                    expires: None,
                    comment: None,
                    counter: None,
                }
            ),
    {
        Elem {
            val: Box::new(Expression::String("10.2.3.4".to_owned())),
            timeout: None,
            expires: None,
            comment: None,
            counter: None,
        }
    }
}

/// A reference to a packet's socket.
#[derive(Debug, Clone, Copy, PartialEq, Eq)]
pub struct Socket {
    /// The socket attribute to match on.
    pub key: SocketAttr,
}

impl DeepView for Socket {
    type V = Socket;

    open spec fn deep_view(&self) -> Socket {
        *self
    }
}

impl Socket {
    /// The wire form: an object with one member for each field that has a value.
    pub open spec fn to_wire(self) -> JsonView {
        let m = Seq::empty();
        let m = m.push(("key"@, enc_token(self.key)));
        JsonView::Object(m)
    }

    /// What a wire value decodes to: the fields are read by their keys, in the order
    /// in which the type lists them, and the first that fails decides the failure.
    pub open spec fn from_wire(j: JsonView) -> Result<Socket, DecodeErrorView> {
        match j {
            JsonView::Object(m) => {
                let key = match lookup(m, "key"@) {
                    Some(v) => at_key(dec_token::<SocketAttr>(v), "key"@),
                    None => Err(DecodeErrorView::missing("key"@)),
                };
                if key is Err {
                    Err(key->Err_0)
                } else {
                    Ok(Socket { key: key->Ok_0 })
                }
            },
            _ => Err(DecodeErrorView::shape()),
        }
    }

    /// What the wire form holds under each key.
    pub proof fn lemma_members(self)
        ensures
            self.to_wire() is Object,
            lookup(self.to_wire()->Object_0, "key"@) == Some(enc_token(self.key)),
    {
        broadcast use {lemma_lookup_push, lemma_lookup_empty, lemma_with_opt};
        reveal_strlit("key");
        assert("key"@.len() == 3);
    }

    /// Decoding the wire form of a value gives the value back.
    pub proof fn lemma_round_trip(self)
        ensures
            Self::from_wire(self.to_wire()) == Ok::<Socket, DecodeErrorView>(self),
    {
        self.lemma_members();
        lemma_token_round_trip(self.key);
    }

    /// The order in which the members of an object stand does not matter to what
    /// the object decodes to.
    pub proof fn lemma_member_order(
        a: Seq<(Seq<char>, JsonView)>,
        b: Seq<(Seq<char>, JsonView)>,
    )
        requires
            same_members(a, b),
        ensures
            Self::from_wire(JsonView::Object(a)) == Self::from_wire(JsonView::Object(b)),
    {
        assert(lookup(a, "key"@) == lookup(b, "key"@));
    }

    /// Where an object fails to decode, the failure names the field that it lies in:
    /// its path begins with the key of one of the fields.
    pub proof fn lemma_failure_names_field(m: Seq<(Seq<char>, JsonView)>)
        ensures
            Self::from_wire(JsonView::Object(m)) matches Err(e) ==> e.path.len() > 0 && {
                ||| e.path[0] == PathSegmentView::Key("key"@)
            },
    {
        broadcast use lemma_under_key_path;
    }
}

impl Socket {
    /// Encodes the value in its wire form.
    pub fn encode(&self) -> (j: Json)
        ensures
            j.deep_view() == self.deep_view().to_wire(),
    {
        let mut m: Vec<(String, Json)> = Vec::new();
        assert(members_view(m) =~= Seq::empty());
        put(&mut m, "key", encode_token(&self.key));
        Json::Object(m)
    }

    /// Decodes a wire value.
    pub fn decode(j: &Json) -> (r: Result<Socket, DecodeError>)
        ensures
            decoded(r, Socket::from_wire(j.deep_view())),
    {
        match j {
            Json::Object(m) => {
                let key = match find(m, "key") {
                    Some(v) => match decode_token::<SocketAttr>(v) {
                        Ok(x) => x,
                        Err(e) => return Err(e.under_key("key")),
                    },
                    None => return Err(DecodeError::missing("key")),
                };
                Ok(Socket { key })
            },
            _ => Err(DecodeError::shape()),
        }
    }
}

/// The default reference, to the attribute `wildcard`.
impl Default for Socket {
    fn default() -> (r: Self)
        ensures
            r.deep_view() == (Socket { key: SocketAttr::Wildcard }),
    {
        Socket { key: SocketAttr::Wildcard }
    }
}

/// OS fingerprinting.
///
/// This expression is typically used on the left hand side of a match statement.
#[derive(Debug, PartialEq, Eq)]
pub struct Osf {
    /// Name of the OS signature to match. All signatures can be found in the `pf.os` file;
    /// `unknown` stands for signatures that could not be detected.
    pub key: String,
    /// How to check the TTL of the packet to determine the operating system.
    pub ttl: OsfTtl,
}

/// The mathematical value of an [`Osf`].
pub ghost struct OsfView {
    pub key: Seq<char>,
    pub ttl: OsfTtl,
}

impl DeepView for Osf {
    type V = OsfView;

    open spec fn deep_view(&self) -> OsfView {
        OsfView {
            key: self.key@,
            ttl: self.ttl,
        }
    }
}

impl OsfView {
    /// The wire form: an object with one member for each field that has a value.
    pub open spec fn to_wire(self) -> JsonView {
        let m = Seq::empty();
        let m = m.push(("key"@, JsonView::String(self.key)));
        let m = m.push(("ttl"@, enc_token(self.ttl)));
        JsonView::Object(m)
    }

    /// What a wire value decodes to: the fields are read by their keys, in the order
    /// in which the type lists them, and the first that fails decides the failure.
    pub open spec fn from_wire(j: JsonView) -> Result<OsfView, DecodeErrorView> {
        match j {
            JsonView::Object(m) => {
                let key = match lookup(m, "key"@) {
                    Some(v) => at_key(dec_string(v), "key"@),
                    None => Err(DecodeErrorView::missing("key"@)),
                };
                let ttl = match lookup(m, "ttl"@) {
                    Some(v) => at_key(dec_token::<OsfTtl>(v), "ttl"@),
                    None => Err(DecodeErrorView::missing("ttl"@)),
                };
                if key is Err {
                    Err(key->Err_0)
                } else if ttl is Err {
                    Err(ttl->Err_0)
                } else {
                    Ok(OsfView { key: key->Ok_0, ttl: ttl->Ok_0 })
                }
            },
            _ => Err(DecodeErrorView::shape()),
        }
    }

    /// What the wire form holds under each key.
    pub proof fn lemma_members(self)
        ensures
            self.to_wire() is Object,
            lookup(self.to_wire()->Object_0, "key"@) == Some(JsonView::String(self.key)),
            lookup(self.to_wire()->Object_0, "ttl"@) == Some(enc_token(self.ttl)),
    {
        broadcast use {lemma_lookup_push, lemma_lookup_empty, lemma_with_opt};
        reveal_strlit("key");
        reveal_strlit("ttl");
        assert("key"@.len() == 3 && "key"@[0] == 'k');
        assert("ttl"@.len() == 3 && "ttl"@[0] == 't');
    }

    /// Decoding the wire form of a value gives the value back.
    pub proof fn lemma_round_trip(self)
        ensures
            Self::from_wire(self.to_wire()) == Ok::<OsfView, DecodeErrorView>(self),
    {
        self.lemma_members();
        lemma_token_round_trip(self.ttl);
    }

    /// The order in which the members of an object stand does not matter to what
    /// the object decodes to.
    pub proof fn lemma_member_order(
        a: Seq<(Seq<char>, JsonView)>,
        b: Seq<(Seq<char>, JsonView)>,
    )
        requires
            same_members(a, b),
        ensures
            Self::from_wire(JsonView::Object(a)) == Self::from_wire(JsonView::Object(b)),
    {
        assert(lookup(a, "key"@) == lookup(b, "key"@));
        assert(lookup(a, "ttl"@) == lookup(b, "ttl"@));
    }

    /// Where an object fails to decode, the failure names the field that it lies in:
    /// its path begins with the key of one of the fields.
    pub proof fn lemma_failure_names_field(m: Seq<(Seq<char>, JsonView)>)
        ensures
            Self::from_wire(JsonView::Object(m)) matches Err(e) ==> e.path.len() > 0 && {
                ||| e.path[0] == PathSegmentView::Key("key"@)
                ||| e.path[0] == PathSegmentView::Key("ttl"@)
            },
    {
        broadcast use lemma_under_key_path;
    }
}

impl Osf {
    /// Encodes the value in its wire form.
    pub fn encode(&self) -> (j: Json)
        ensures
            j.deep_view() == self.deep_view().to_wire(),
    {
        let mut m: Vec<(String, Json)> = Vec::new();
        assert(members_view(m) =~= Seq::empty());
        put(&mut m, "key", Json::String(self.key.clone()));
        put(&mut m, "ttl", encode_token(&self.ttl));
        Json::Object(m)
    }

    /// Decodes a wire value.
    pub fn decode(j: &Json) -> (r: Result<Osf, DecodeError>)
        ensures
            decoded(r, OsfView::from_wire(j.deep_view())),
    {
        match j {
            Json::Object(m) => {
                let key = match find(m, "key") {
                    Some(v) => match decode_string(v) {
                        Ok(x) => x,
                        Err(e) => return Err(e.under_key("key")),
                    },
                    None => return Err(DecodeError::missing("key")),
                };
                let ttl = match find(m, "ttl") {
                    Some(v) => match decode_token::<OsfTtl>(v) {
                        Ok(x) => x,
                        Err(e) => return Err(e.under_key("ttl")),
                    },
                    None => return Err(DecodeError::missing("ttl")),
                };
                Ok(Osf { key, ttl })
            },
            _ => Err(DecodeError::shape()),
        }
    }
}

impl Clone for Osf {
    fn clone(&self) -> (r: Self)
        ensures
            r.deep_view() == self.deep_view(),
    {
        Osf {
            key: self.key.clone(),
            ttl: self.ttl,
        }
    }
}

/// The kinds of expression that are no immediate values, each under the key that names it.
#[derive(Debug, PartialEq, Eq)]
pub enum NamedExpression {
    /// Concatenate several expressions.
    Concat(Vec<Expression>),
    /// An anonymous set of items. For mappings, an array of arrays with exactly two elements is
    /// expected.
    SetExpr(Vec<SetItem>),
    /// Map a key to a value.
    MapExpr(Box<MapExpr>),
    /// An IPv4 or IPv6 prefix: an address part and a prefix length.
    Prefix(Prefix),
    /// A reference to a certain part of packet data.
    Payload(Payload),
    /// A reference to a field in an IPv6 extension header.
    Exthdr(Exthdr),
    /// A reference to a field of a TCP option header.
    TcpOption(TcpOption),
    /// A reference to a field of an SCTP chunk.
    SctpChunk(SctpChunk),
    /// A reference to packet meta data.
    Meta(Meta),
    /// A reference to packet routing data.
    RT(RT),
    /// A reference to packet conntrack data.
    CT(CT),
    /// A number generator.
    Numgen(Numgen),
    /// A hash of packet data (Jenkins hash).
    JHash(JHash),
    /// A hash of packet data (symmetric hash).
    SymHash(SymHash),
    /// A lookup in the kernel's forwarding information base.
    Fib(Fib),
    /// An explicit set element, for where `timeout`, `expires` or `comment` are desired.
    Elem(Elem),
    /// A reference to a packet's socket.
    Socket(Socket),
    /// OS fingerprinting.
    Osf(Osf),
}

/// The mathematical value of a [`NamedExpression`].
pub ghost enum NamedExpressionView {
    Concat(Seq<ExpressionView>),
    SetExpr(Seq<SetItemView>),
    MapExpr(Box<MapExprView>),
    Prefix(PrefixView),
    Payload(PayloadView),
    Exthdr(ExthdrView),
    TcpOption(TcpOptionView),
    SctpChunk(SctpChunkView),
    Meta(Meta),
    RT(RT),
    CT(CTView),
    Numgen(Numgen),
    JHash(JHashView),
    SymHash(SymHash),
    Fib(FibView),
    Elem(ElemView),
    Socket(Socket),
    Osf(OsfView),
}

impl DeepView for NamedExpression {
    type V = NamedExpressionView;

    open spec fn deep_view(&self) -> NamedExpressionView
        decreases self,
    {
        match self {
            NamedExpression::Concat(p) => NamedExpressionView::Concat(expressions_view(p@)),
            NamedExpression::SetExpr(p) => NamedExpressionView::SetExpr(set_items_view(p@)),
            NamedExpression::MapExpr(p) => NamedExpressionView::MapExpr(
                Box::new((**p).deep_view()),
            ),
            NamedExpression::Prefix(p) => NamedExpressionView::Prefix(p.deep_view()),
            NamedExpression::Payload(p) => NamedExpressionView::Payload(p.deep_view()),
            NamedExpression::Exthdr(p) => NamedExpressionView::Exthdr(p.deep_view()),
            NamedExpression::TcpOption(p) => NamedExpressionView::TcpOption(p.deep_view()),
            NamedExpression::SctpChunk(p) => NamedExpressionView::SctpChunk(p.deep_view()),
            NamedExpression::Meta(p) => NamedExpressionView::Meta(p.deep_view()),
            NamedExpression::RT(p) => NamedExpressionView::RT(p.deep_view()),
            NamedExpression::CT(p) => NamedExpressionView::CT(p.deep_view()),
            NamedExpression::Numgen(p) => NamedExpressionView::Numgen(p.deep_view()),
            NamedExpression::JHash(p) => NamedExpressionView::JHash(p.deep_view()),
            NamedExpression::SymHash(p) => NamedExpressionView::SymHash(p.deep_view()),
            NamedExpression::Fib(p) => NamedExpressionView::Fib(p.deep_view()),
            NamedExpression::Elem(p) => NamedExpressionView::Elem(p.deep_view()),
            NamedExpression::Socket(p) => NamedExpressionView::Socket(p.deep_view()),
            NamedExpression::Osf(p) => NamedExpressionView::Osf(p.deep_view()),
        }
    }
}

impl NamedExpressionView {
    /// The key that names each kind on the wire.
    pub open spec fn key(self) -> Seq<char> {
        match self {
            NamedExpressionView::Concat(_) => "concat"@,
            NamedExpressionView::SetExpr(_) => "set"@,
            NamedExpressionView::MapExpr(_) => "map"@,
            NamedExpressionView::Prefix(_) => "prefix"@,
            NamedExpressionView::Payload(_) => "payload"@,
            NamedExpressionView::Exthdr(_) => "exthdr"@,
            NamedExpressionView::TcpOption(_) => "tcp option"@,
            NamedExpressionView::SctpChunk(_) => "sctp chunk"@,
            NamedExpressionView::Meta(_) => "meta"@,
            NamedExpressionView::RT(_) => "rt"@,
            NamedExpressionView::CT(_) => "ct"@,
            NamedExpressionView::Numgen(_) => "numgen"@,
            NamedExpressionView::JHash(_) => "jhash"@,
            NamedExpressionView::SymHash(_) => "symhash"@,
            NamedExpressionView::Fib(_) => "fib"@,
            NamedExpressionView::Elem(_) => "elem"@,
            NamedExpressionView::Socket(_) => "socket"@,
            NamedExpressionView::Osf(_) => "osf"@,
        }
    }

    /// Whether a key names a kind.
    pub open spec fn knows(k: Seq<char>) -> bool {
        ||| k == "concat"@
        ||| k == "set"@
        ||| k == "map"@
        ||| k == "prefix"@
        ||| k == "payload"@
        ||| k == "exthdr"@
        ||| k == "tcp option"@
        ||| k == "sctp chunk"@
        ||| k == "meta"@
        ||| k == "rt"@
        ||| k == "ct"@
        ||| k == "numgen"@
        ||| k == "jhash"@
        ||| k == "symhash"@
        ||| k == "fib"@
        ||| k == "elem"@
        ||| k == "socket"@
        ||| k == "osf"@
    }

    /// What stands under the key on the wire.
    pub open spec fn payload(self) -> JsonView
        decreases self, 0nat,
    {
        match self {
            NamedExpressionView::Concat(p) => JsonView::Array(enc_expressions(p)),
            NamedExpressionView::SetExpr(p) => JsonView::Array(enc_set_items(p)),
            NamedExpressionView::MapExpr(p) => (*p).to_wire(),
            NamedExpressionView::Prefix(p) => p.to_wire(),
            NamedExpressionView::Payload(p) => p.to_wire(),
            NamedExpressionView::Exthdr(p) => p.to_wire(),
            NamedExpressionView::TcpOption(p) => p.to_wire(),
            NamedExpressionView::SctpChunk(p) => p.to_wire(),
            NamedExpressionView::Meta(p) => p.to_wire(),
            NamedExpressionView::RT(p) => p.to_wire(),
            NamedExpressionView::CT(p) => p.to_wire(),
            NamedExpressionView::Numgen(p) => p.to_wire(),
            NamedExpressionView::JHash(p) => p.to_wire(),
            NamedExpressionView::SymHash(p) => p.to_wire(),
            NamedExpressionView::Fib(p) => p.to_wire(),
            NamedExpressionView::Elem(p) => p.to_wire(),
            NamedExpressionView::Socket(p) => p.to_wire(),
            NamedExpressionView::Osf(p) => p.to_wire(),
        }
    }

    /// The wire form: an object whose one member is named after the kind.
    pub open spec fn to_wire(self) -> JsonView
        decreases self, 1nat,
    {
        JsonView::Object(seq![(self.key(), self.payload())])
    }

    /// What the member `k: v` decodes to, where `k` names a kind.
    pub open spec fn from_member(
        k: Seq<char>,
        v: JsonView,
    ) -> Result<NamedExpressionView, DecodeErrorView>
        decreases v, 2nat,
    {
        if k == "concat"@ {
            match dec_expression_list(v) {
                Ok(x) => Ok(NamedExpressionView::Concat(x)),
                Err(e) => Err(e.under_key(k)),
            }
        } else if k == "set"@ {
            match dec_set_item_list(v) {
                Ok(x) => Ok(NamedExpressionView::SetExpr(x)),
                Err(e) => Err(e.under_key(k)),
            }
        } else if k == "map"@ {
            match boxed(MapExprView::from_wire(v)) {
                Ok(x) => Ok(NamedExpressionView::MapExpr(x)),
                Err(e) => Err(e.under_key(k)),
            }
        } else if k == "prefix"@ {
            match PrefixView::from_wire(v) {
                Ok(x) => Ok(NamedExpressionView::Prefix(x)),
                Err(e) => Err(e.under_key(k)),
            }
        } else if k == "payload"@ {
            match PayloadView::from_wire(v) {
                Ok(x) => Ok(NamedExpressionView::Payload(x)),
                Err(e) => Err(e.under_key(k)),
            }
        } else if k == "exthdr"@ {
            match ExthdrView::from_wire(v) {
                Ok(x) => Ok(NamedExpressionView::Exthdr(x)),
                Err(e) => Err(e.under_key(k)),
            }
        } else if k == "tcp option"@ {
            match TcpOptionView::from_wire(v) {
                Ok(x) => Ok(NamedExpressionView::TcpOption(x)),
                Err(e) => Err(e.under_key(k)),
            }
        } else if k == "sctp chunk"@ {
            match SctpChunkView::from_wire(v) {
                Ok(x) => Ok(NamedExpressionView::SctpChunk(x)),
                Err(e) => Err(e.under_key(k)),
            }
        } else if k == "meta"@ {
            match Meta::from_wire(v) {
                Ok(x) => Ok(NamedExpressionView::Meta(x)),
                Err(e) => Err(e.under_key(k)),
            }
        } else if k == "rt"@ {
            match RT::from_wire(v) {
                Ok(x) => Ok(NamedExpressionView::RT(x)),
                Err(e) => Err(e.under_key(k)),
            }
        } else if k == "ct"@ {
            match CTView::from_wire(v) {
                Ok(x) => Ok(NamedExpressionView::CT(x)),
                Err(e) => Err(e.under_key(k)),
            }
        } else if k == "numgen"@ {
            match Numgen::from_wire(v) {
                Ok(x) => Ok(NamedExpressionView::Numgen(x)),
                Err(e) => Err(e.under_key(k)),
            }
        } else if k == "jhash"@ {
            match JHashView::from_wire(v) {
                Ok(x) => Ok(NamedExpressionView::JHash(x)),
                Err(e) => Err(e.under_key(k)),
            }
        } else if k == "symhash"@ {
            match SymHash::from_wire(v) {
                Ok(x) => Ok(NamedExpressionView::SymHash(x)),
                Err(e) => Err(e.under_key(k)),
            }
        } else if k == "fib"@ {
            match FibView::from_wire(v) {
                Ok(x) => Ok(NamedExpressionView::Fib(x)),
                Err(e) => Err(e.under_key(k)),
            }
        } else if k == "elem"@ {
            match ElemView::from_wire(v) {
                Ok(x) => Ok(NamedExpressionView::Elem(x)),
                Err(e) => Err(e.under_key(k)),
            }
        } else if k == "socket"@ {
            match Socket::from_wire(v) {
                Ok(x) => Ok(NamedExpressionView::Socket(x)),
                Err(e) => Err(e.under_key(k)),
            }
        } else if k == "osf"@ {
            match OsfView::from_wire(v) {
                Ok(x) => Ok(NamedExpressionView::Osf(x)),
                Err(e) => Err(e.under_key(k)),
            }
        } else {
            Err(DecodeErrorView::shape())
        }
    }

    /// What a wire value decodes to: it is an object with exactly one member, whose
    /// key names the kind.
    pub open spec fn from_wire(j: JsonView) -> Result<NamedExpressionView, DecodeErrorView>
        decreases j, 3nat,
    {
        match j {
            JsonView::Object(m) => match sole_member(m) {
                Some((k, v)) => Self::from_member(k, v),
                None => Err(DecodeErrorView::shape()),
            },
            _ => Err(DecodeErrorView::shape()),
        }
    }

    /// Whether decoding the wire form gives this value back.
    pub open spec fn canonical(self) -> bool
        decreases self,
    {
        match self {
            NamedExpressionView::Concat(p) => expressions_canonical(p),
            NamedExpressionView::SetExpr(p) => set_items_canonical(p),
            NamedExpressionView::MapExpr(p) => (*p).canonical(),
            NamedExpressionView::Prefix(p) => p.canonical(),
            NamedExpressionView::JHash(p) => p.canonical(),
            NamedExpressionView::Elem(p) => p.canonical(),
            _ => true,
        }
    }

    /// The wire form of a value is never `null`.
    pub proof fn lemma_not_null(self)
        ensures
            !(self.to_wire() is Null),
    {
    }

    /// Where a member whose key names a kind fails to decode, the failure names the
    /// kind: its path begins with that key.
    pub proof fn lemma_failure_names_kind(k: Seq<char>, v: JsonView)
        ensures
            Self::knows(k) ==> (Self::from_member(k, v) matches Err(e) ==> e.path.len() > 0
                && e.path[0] == PathSegmentView::Key(k)),
    {
        broadcast use lemma_under_key_path;
    }

    /// The key of a value names its kind.
    pub proof fn lemma_key(self)
        ensures
            Self::knows(self.key()),
    {
    }

    /// Decoding the wire form of a value gives the value back.
    #[verifier::rlimit(40)]
    pub proof fn lemma_round_trip(self)
        requires
            self.canonical(),
        ensures
            Self::from_member(self.key(), self.payload()) matches Ok(v) && v == self,
            Self::from_wire(self.to_wire()) == Ok::<NamedExpressionView, DecodeErrorView>(self),
        decreases self, 3nat,
    {
        reveal_strlit("concat");
        reveal_strlit("set");
        reveal_strlit("map");
        reveal_strlit("prefix");
        reveal_strlit("payload");
        reveal_strlit("exthdr");
        reveal_strlit("tcp option");
        reveal_strlit("sctp chunk");
        reveal_strlit("meta");
        reveal_strlit("rt");
        reveal_strlit("ct");
        reveal_strlit("numgen");
        reveal_strlit("jhash");
        reveal_strlit("symhash");
        reveal_strlit("fib");
        reveal_strlit("elem");
        reveal_strlit("socket");
        reveal_strlit("osf");
        assert("concat"@.len() == 6 && "concat"@[0] == 'c');
        assert("set"@.len() == 3 && "set"@[0] == 's');
        assert("map"@.len() == 3 && "map"@[0] == 'm');
        assert("prefix"@.len() == 6 && "prefix"@[0] == 'p');
        assert("payload"@.len() == 7 && "payload"@[0] == 'p');
        assert("exthdr"@.len() == 6 && "exthdr"@[0] == 'e');
        assert("tcp option"@.len() == 10 && "tcp option"@[0] == 't');
        assert("sctp chunk"@.len() == 10 && "sctp chunk"@[0] == 's');
        assert("meta"@.len() == 4 && "meta"@[0] == 'm');
        assert("rt"@.len() == 2 && "rt"@[0] == 'r');
        assert("ct"@.len() == 2 && "ct"@[0] == 'c');
        assert("numgen"@.len() == 6 && "numgen"@[0] == 'n');
        assert("jhash"@.len() == 5);
        assert("symhash"@.len() == 7 && "symhash"@[0] == 's');
        assert("fib"@.len() == 3 && "fib"@[0] == 'f');
        assert("elem"@.len() == 4 && "elem"@[0] == 'e');
        assert("socket"@.len() == 6 && "socket"@[0] == 's');
        assert("osf"@.len() == 3 && "osf"@[0] == 'o');
        match self {
            NamedExpressionView::Concat(p) => {
                lemma_expressions_round_trip(p);
            },
            NamedExpressionView::SetExpr(p) => {
                lemma_set_items_round_trip(p);
            },
            NamedExpressionView::MapExpr(p) => {
                (*p).lemma_round_trip();
            },
            NamedExpressionView::Prefix(p) => {
                p.lemma_round_trip();
            },
            NamedExpressionView::Payload(p) => {
                p.lemma_round_trip();
            },
            NamedExpressionView::Exthdr(p) => {
                p.lemma_round_trip();
            },
            NamedExpressionView::TcpOption(p) => {
                p.lemma_round_trip();
            },
            NamedExpressionView::SctpChunk(p) => {
                p.lemma_round_trip();
            },
            NamedExpressionView::Meta(p) => {
                p.lemma_round_trip();
            },
            NamedExpressionView::RT(p) => {
                p.lemma_round_trip();
            },
            NamedExpressionView::CT(p) => {
                p.lemma_round_trip();
            },
            NamedExpressionView::Numgen(p) => {
                p.lemma_round_trip();
            },
            NamedExpressionView::JHash(p) => {
                p.lemma_round_trip();
            },
            NamedExpressionView::SymHash(p) => {
                p.lemma_round_trip();
            },
            NamedExpressionView::Fib(p) => {
                p.lemma_round_trip();
            },
            NamedExpressionView::Elem(p) => {
                p.lemma_round_trip();
            },
            NamedExpressionView::Socket(p) => {
                p.lemma_round_trip();
            },
            NamedExpressionView::Osf(p) => {
                p.lemma_round_trip();
            },
        }
    }
}

impl NamedExpression {
    /// Encodes the value in its wire form.
    pub fn encode(&self) -> (j: Json)
        ensures
            j.deep_view() == self.deep_view().to_wire(),
        decreases self,
    {
        let mut m: Vec<(String, Json)> = Vec::new();
        assert(members_view(m) =~= Seq::empty());
        match self {
            NamedExpression::Concat(p) => put(&mut m, "concat", Json::Array(encode_expressions(p))),
            NamedExpression::SetExpr(p) => put(&mut m, "set", Json::Array(encode_set_items(p))),
            NamedExpression::MapExpr(p) => put(&mut m, "map", p.encode()),
            NamedExpression::Prefix(p) => put(&mut m, "prefix", p.encode()),
            NamedExpression::Payload(p) => put(&mut m, "payload", p.encode()),
            NamedExpression::Exthdr(p) => put(&mut m, "exthdr", p.encode()),
            NamedExpression::TcpOption(p) => put(&mut m, "tcp option", p.encode()),
            NamedExpression::SctpChunk(p) => put(&mut m, "sctp chunk", p.encode()),
            NamedExpression::Meta(p) => put(&mut m, "meta", p.encode()),
            NamedExpression::RT(p) => put(&mut m, "rt", p.encode()),
            NamedExpression::CT(p) => put(&mut m, "ct", p.encode()),
            NamedExpression::Numgen(p) => put(&mut m, "numgen", p.encode()),
            NamedExpression::JHash(p) => put(&mut m, "jhash", p.encode()),
            NamedExpression::SymHash(p) => put(&mut m, "symhash", p.encode()),
            NamedExpression::Fib(p) => put(&mut m, "fib", p.encode()),
            NamedExpression::Elem(p) => put(&mut m, "elem", p.encode()),
            NamedExpression::Socket(p) => put(&mut m, "socket", p.encode()),
            NamedExpression::Osf(p) => put(&mut m, "osf", p.encode()),
        }
        assert(members_view(m) =~= seq![(self.deep_view().key(), self.deep_view().payload())]);
        Json::Object(m)
    }

    /// Whether a key names a kind.
    pub fn knows(k: &str) -> (r: bool)
        ensures
            r == NamedExpressionView::knows(k@),
    {
        same_text(k, "concat")
            || same_text(k, "set")
            || same_text(k, "map")
            || same_text(k, "prefix")
            || same_text(k, "payload")
            || same_text(k, "exthdr")
            || same_text(k, "tcp option")
            || same_text(k, "sctp chunk")
            || same_text(k, "meta")
            || same_text(k, "rt")
            || same_text(k, "ct")
            || same_text(k, "numgen")
            || same_text(k, "jhash")
            || same_text(k, "symhash")
            || same_text(k, "fib")
            || same_text(k, "elem")
            || same_text(k, "socket")
            || same_text(k, "osf")
    }

    /// Decodes the member `k: v`.
    pub fn decode_member(k: &str, v: &Json) -> (r: Result<NamedExpression, DecodeError>)
        ensures
            decoded(r, NamedExpressionView::from_member(k@, v.deep_view())),
        decreases v, 2nat,
    {
        if same_text(k, "concat") {
            match decode_expression_list(v) {
                Ok(x) => Ok(NamedExpression::Concat(x)),
                Err(e) => Err(e.under_key(k)),
            }
        } else if same_text(k, "set") {
            match decode_set_item_list(v) {
                Ok(x) => Ok(NamedExpression::SetExpr(x)),
                Err(e) => Err(e.under_key(k)),
            }
        } else if same_text(k, "map") {
            match MapExpr::decode(v) {
                Ok(x) => Ok(NamedExpression::MapExpr(Box::new(x))),
                Err(e) => Err(e.under_key(k)),
            }
        } else if same_text(k, "prefix") {
            match Prefix::decode(v) {
                Ok(x) => Ok(NamedExpression::Prefix(x)),
                Err(e) => Err(e.under_key(k)),
            }
        } else if same_text(k, "payload") {
            match Payload::decode(v) {
                Ok(x) => Ok(NamedExpression::Payload(x)),
                Err(e) => Err(e.under_key(k)),
            }
        } else if same_text(k, "exthdr") {
            match Exthdr::decode(v) {
                Ok(x) => Ok(NamedExpression::Exthdr(x)),
                Err(e) => Err(e.under_key(k)),
            }
        } else if same_text(k, "tcp option") {
            match TcpOption::decode(v) {
                Ok(x) => Ok(NamedExpression::TcpOption(x)),
                Err(e) => Err(e.under_key(k)),
            }
        } else if same_text(k, "sctp chunk") {
            match SctpChunk::decode(v) {
                Ok(x) => Ok(NamedExpression::SctpChunk(x)),
                Err(e) => Err(e.under_key(k)),
            }
        } else if same_text(k, "meta") {
            match Meta::decode(v) {
                Ok(x) => Ok(NamedExpression::Meta(x)),
                Err(e) => Err(e.under_key(k)),
            }
        } else if same_text(k, "rt") {
            match RT::decode(v) {
                Ok(x) => Ok(NamedExpression::RT(x)),
                Err(e) => Err(e.under_key(k)),
            }
        } else if same_text(k, "ct") {
            match CT::decode(v) {
                Ok(x) => Ok(NamedExpression::CT(x)),
                Err(e) => Err(e.under_key(k)),
            }
        } else if same_text(k, "numgen") {
            match Numgen::decode(v) {
                Ok(x) => Ok(NamedExpression::Numgen(x)),
                Err(e) => Err(e.under_key(k)),
            }
        } else if same_text(k, "jhash") {
            match JHash::decode(v) {
                Ok(x) => Ok(NamedExpression::JHash(x)),
                Err(e) => Err(e.under_key(k)),
            }
        } else if same_text(k, "symhash") {
            match SymHash::decode(v) {
                Ok(x) => Ok(NamedExpression::SymHash(x)),
                Err(e) => Err(e.under_key(k)),
            }
        } else if same_text(k, "fib") {
            match Fib::decode(v) {
                Ok(x) => Ok(NamedExpression::Fib(x)),
                Err(e) => Err(e.under_key(k)),
            }
        } else if same_text(k, "elem") {
            match Elem::decode(v) {
                Ok(x) => Ok(NamedExpression::Elem(x)),
                Err(e) => Err(e.under_key(k)),
            }
        } else if same_text(k, "socket") {
            match Socket::decode(v) {
                Ok(x) => Ok(NamedExpression::Socket(x)),
                Err(e) => Err(e.under_key(k)),
            }
        } else if same_text(k, "osf") {
            match Osf::decode(v) {
                Ok(x) => Ok(NamedExpression::Osf(x)),
                Err(e) => Err(e.under_key(k)),
            }
        } else {
            Err(DecodeError::shape())
        }
    }

    /// Decodes a wire value.
    pub fn decode(j: &Json) -> (r: Result<NamedExpression, DecodeError>)
        ensures
            decoded(r, NamedExpressionView::from_wire(j.deep_view())),
        decreases j, 3nat,
    {
        match j {
            Json::Object(m) => {
                assert(members_view(*m).len() == m.len());
                if m.len() != 1 {
                    return Err(DecodeError::shape());
                }
                Self::decode_member(m[0].0.as_str(), &m[0].1)
            },
            _ => Err(DecodeError::shape()),
        }
    }
}

impl Clone for NamedExpression {
    fn clone(&self) -> (r: Self)
        ensures
            r.deep_view() == self.deep_view(),
        decreases self,
    {
        match self {
            NamedExpression::Concat(p) => NamedExpression::Concat(clone_expressions(p)),
            NamedExpression::SetExpr(p) => NamedExpression::SetExpr(clone_set_items(p)),
            NamedExpression::MapExpr(p) => NamedExpression::MapExpr(Box::new((**p).clone())),
            NamedExpression::Prefix(p) => NamedExpression::Prefix(p.clone()),
            NamedExpression::Payload(p) => NamedExpression::Payload(p.clone()),
            NamedExpression::Exthdr(p) => NamedExpression::Exthdr(p.clone()),
            NamedExpression::TcpOption(p) => NamedExpression::TcpOption(p.clone()),
            NamedExpression::SctpChunk(p) => NamedExpression::SctpChunk(p.clone()),
            NamedExpression::Meta(p) => NamedExpression::Meta(p.clone()),
            NamedExpression::RT(p) => NamedExpression::RT(p.clone()),
            NamedExpression::CT(p) => NamedExpression::CT(p.clone()),
            NamedExpression::Numgen(p) => NamedExpression::Numgen(p.clone()),
            NamedExpression::JHash(p) => NamedExpression::JHash(p.clone()),
            NamedExpression::SymHash(p) => NamedExpression::SymHash(p.clone()),
            NamedExpression::Fib(p) => NamedExpression::Fib(p.clone()),
            NamedExpression::Elem(p) => NamedExpression::Elem(p.clone()),
            NamedExpression::Socket(p) => NamedExpression::Socket(p.clone()),
            NamedExpression::Osf(p) => NamedExpression::Osf(p.clone()),
        }
    }
}

/// No key names two kinds of expression.
pub proof fn lemma_kinds_apart(k: Seq<char>)
    ensures
        BinaryOperationView::knows(k) ==> k != "range"@,
        NamedExpressionView::knows(k) ==> k != "range"@ && !BinaryOperationView::knows(k),
        VerdictView::knows(k) ==> k != "range"@ && !BinaryOperationView::knows(k)
            && !NamedExpressionView::knows(k),
{
    reveal_strlit("&");
    reveal_strlit("|");
    reveal_strlit("^");
    reveal_strlit("<<");
    reveal_strlit(">>");
    reveal_strlit("concat");
    reveal_strlit("set");
    reveal_strlit("map");
    reveal_strlit("prefix");
    reveal_strlit("payload");
    reveal_strlit("exthdr");
    reveal_strlit("tcp option");
    reveal_strlit("sctp chunk");
    reveal_strlit("meta");
    reveal_strlit("rt");
    reveal_strlit("ct");
    reveal_strlit("numgen");
    reveal_strlit("jhash");
    reveal_strlit("symhash");
    reveal_strlit("fib");
    reveal_strlit("elem");
    reveal_strlit("socket");
    reveal_strlit("osf");
    reveal_strlit("accept");
    reveal_strlit("drop");
    reveal_strlit("continue");
    reveal_strlit("return");
    reveal_strlit("jump");
    reveal_strlit("goto");
    reveal_strlit("range");
    assert("&"@.len() == 1 && "&"@[0] == '&');
    assert("|"@.len() == 1 && "|"@[0] == '|');
    assert("^"@.len() == 1 && "^"@[0] == '^');
    assert("<<"@.len() == 2 && "<<"@[0] == '<');
    assert(">>"@.len() == 2 && ">>"@[0] == '>');
    assert("concat"@.len() == 6 && "concat"@[0] == 'c');
    assert("set"@.len() == 3 && "set"@[0] == 's');
    assert("map"@.len() == 3 && "map"@[0] == 'm');
    assert("prefix"@.len() == 6 && "prefix"@[0] == 'p');
    assert("payload"@.len() == 7 && "payload"@[0] == 'p');
    assert("exthdr"@.len() == 6 && "exthdr"@[0] == 'e');
    assert("tcp option"@.len() == 10 && "tcp option"@[0] == 't');
    assert("sctp chunk"@.len() == 10 && "sctp chunk"@[0] == 's');
    assert("meta"@.len() == 4 && "meta"@[0] == 'm');
    assert("rt"@.len() == 2 && "rt"@[0] == 'r');
    assert("ct"@.len() == 2 && "ct"@[0] == 'c');
    assert("numgen"@.len() == 6 && "numgen"@[0] == 'n');
    assert("jhash"@.len() == 5 && "jhash"@[0] == 'j');
    assert("symhash"@.len() == 7 && "symhash"@[0] == 's');
    assert("fib"@.len() == 3 && "fib"@[0] == 'f');
    assert("elem"@.len() == 4 && "elem"@[0] == 'e');
    assert("socket"@.len() == 6 && "socket"@[0] == 's');
    assert("osf"@.len() == 3 && "osf"@[0] == 'o');
    assert("accept"@.len() == 6 && "accept"@[0] == 'a');
    assert("drop"@.len() == 4 && "drop"@[0] == 'd');
    assert("continue"@.len() == 8);
    assert("return"@.len() == 6 && "return"@[0] == 'r');
    assert("jump"@.len() == 4 && "jump"@[0] == 'j');
    assert("goto"@.len() == 4 && "goto"@[0] == 'g');
    assert("range"@.len() == 5 && "range"@[0] == 'r');
}

} // verus!
