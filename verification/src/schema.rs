//! The ruleset document: an ordered sequence of objects and commands.
//!
//! On the wire a document is an object whose member `nftables` holds an array. Each item
//! of it is an object with a single member: the key names an object of the ruleset, or a
//! command that wraps one.

use vstd::prelude::*;
use crate::error::{
    DecodeError, DecodeErrorView, NftablesError, NftablesErrorView, PathSegmentView,
    UninitializedFieldError, at_key, boxed, built, decoded, lemma_under_key_path, some,
};
use crate::expr::{
    Expression, ExpressionView, clone_expressions, dec_expression_list, decode_expression_list,
    enc_expressions, encode_expressions, expressions_canonical, expressions_view,
    lemma_expressions_round_trip,
};
use crate::flags::{FlagSet, dec_flags, enc_flags, lemma_flags_round_trip};
use crate::json::{
    Json, JsonView, find, items_view, lemma_lookup_empty, lemma_lookup_push, lookup, members_view,
    put, same_members, sole_member,
};
use crate::stmt::{
    Statement, StatementView, SynProxyFlag, clone_statements, dec_statement_list,
    decode_statement_list, enc_statements, encode_statements, lemma_statements_round_trip,
    statements_canonical, statements_view,
};
use crate::text::same_text;
use crate::token::{
    Flag, Token, dec_token, decode_token, enc_token, encode_token, lemma_token_round_trip,
};
use crate::types::{NfChainPolicy, NfChainType, NfFamily, NfHook};
use crate::visitor::{
    clone_strings, dec_bool, dec_i32, dec_opt_strings, dec_string, dec_u16, dec_u32, dec_u8,
    decode_bool, decode_i32, decode_string, decode_u16, decode_u32, decode_u8, deserialize_flags,
    enc_strings, encode_strings, lemma_strings_round_trip, lemma_with_opt, optional, present,
    single_string_to_option_vec, with_opt,
};

verus! {

/// A ruleset document.
///
/// The order of the objects matters: a command acts on what the commands before it have left.
#[derive(Debug, PartialEq, Eq)]
pub struct Nftables {
    /// The objects and commands of the document, in their order.
    pub objects: Vec<NfObject>,
}

/// The mathematical value of a [`Nftables`].
pub ghost struct NftablesView {
    pub objects: Seq<NfObjectView>,
}

impl DeepView for Nftables {
    type V = NftablesView;

    open spec fn deep_view(&self) -> NftablesView {
        NftablesView {
            objects: objects_view(self.objects@),
        }
    }
}

impl NftablesView {
    /// The wire form: an object with one member for each field that has a value.
    pub open spec fn to_wire(self) -> JsonView {
        let m = Seq::empty();
        let m = m.push(("nftables"@, JsonView::Array(enc_objects(self.objects))));
        JsonView::Object(m)
    }

    /// What a wire value decodes to: the fields are read by their keys, in the order
    /// in which the type lists them, and the first that fails decides the failure.
    pub open spec fn from_wire(j: JsonView) -> Result<NftablesView, DecodeErrorView> {
        match j {
            JsonView::Object(m) => {
                let objects = match lookup(m, "nftables"@) {
                    Some(v) => at_key(dec_object_list(v), "nftables"@),
                    None => Err(DecodeErrorView::missing("nftables"@)),
                };
                if objects is Err {
                    Err(objects->Err_0)
                } else {
                    Ok(NftablesView { objects: objects->Ok_0 })
                }
            },
            _ => Err(DecodeErrorView::shape()),
        }
    }

    /// Whether decoding the wire form gives this value back.
    pub open spec fn canonical(self) -> bool {
        &&& objects_canonical(self.objects)
    }

    /// What the wire form holds under each key.
    pub proof fn lemma_members(self)
        ensures
            self.to_wire() is Object,
            lookup(self.to_wire()->Object_0, "nftables"@) == Some(
                JsonView::Array(enc_objects(self.objects)),
            ),
    {
        broadcast use {lemma_lookup_push, lemma_lookup_empty, lemma_with_opt};
        reveal_strlit("nftables");
        assert("nftables"@.len() == 8);
    }

    /// Decoding the wire form of a value gives the value back.
    pub proof fn lemma_round_trip(self)
        requires
            self.canonical(),
        ensures
            Self::from_wire(self.to_wire()) == Ok::<NftablesView, DecodeErrorView>(self),
    {
        self.lemma_members();
        lemma_objects_round_trip(self.objects);
    }

    /// The order in which the members of an object stand does not matter to what
    /// the object decodes to.
    pub proof fn lemma_member_order(
        a: Seq<(Seq<char>, JsonView)>,
        b: Seq<(Seq<char>, JsonView)>,
    )
        requires
            same_members(a, b),
        ensures
            Self::from_wire(JsonView::Object(a)) == Self::from_wire(JsonView::Object(b)),
    {
        assert(lookup(a, "nftables"@) == lookup(b, "nftables"@));
    }

    /// Where an object fails to decode, the failure names the field that it lies in:
    /// its path begins with the key of one of the fields.
    pub proof fn lemma_failure_names_field(m: Seq<(Seq<char>, JsonView)>)
        ensures
            Self::from_wire(JsonView::Object(m)) matches Err(e) ==> e.path.len() > 0 && {
                ||| e.path[0] == PathSegmentView::Key("nftables"@)
            },
    {
        broadcast use lemma_under_key_path;
    }
}

impl Nftables {
    /// Encodes the value in its wire form.
    pub fn encode(&self) -> (j: Json)
        ensures
            j.deep_view() == self.deep_view().to_wire(),
    {
        let mut m: Vec<(String, Json)> = Vec::new();
        assert(members_view(m) =~= Seq::empty());
        put(&mut m, "nftables", Json::Array(encode_objects(&self.objects)));
        Json::Object(m)
    }

    /// Decodes a wire value.
    pub fn decode(j: &Json) -> (r: Result<Nftables, DecodeError>)
        ensures
            decoded(r, NftablesView::from_wire(j.deep_view())),
    {
        match j {
            Json::Object(m) => {
                let objects = match find(m, "nftables") {
                    Some(v) => match decode_object_list(v) {
                        Ok(x) => x,
                        Err(e) => return Err(e.under_key("nftables")),
                    },
                    None => return Err(DecodeError::missing("nftables")),
                };
                Ok(Nftables { objects })
            },
            _ => Err(DecodeError::shape()),
        }
    }
}

impl Clone for Nftables {
    fn clone(&self) -> (r: Self)
        ensures
            r.deep_view() == self.deep_view(),
    {
        Nftables {
            objects: clone_objects((&self.objects)),
        }
    }
}

/// An item of a document: a command, or an object of the ruleset as it is listed.
#[derive(Debug, PartialEq, Eq)]
pub enum NfObject {
    /// A command.
    CmdObject(NfCmd),
    /// An object of the ruleset.
    ListObject(NfListObject),
}

/// The mathematical value of a [`NfObject`].
pub ghost enum NfObjectView {
    CmdObject(NfCmdView),
    ListObject(NfListObjectView),
}

impl DeepView for NfObject {
    type V = NfObjectView;

    open spec fn deep_view(&self) -> NfObjectView {
        match self {
            NfObject::CmdObject(c) => NfObjectView::CmdObject(c.deep_view()),
            NfObject::ListObject(o) => NfObjectView::ListObject(o.deep_view()),
        }
    }
}

impl NfObjectView {
    /// The wire form: that of the command or the object.
    pub open spec fn to_wire(self) -> JsonView {
        match self {
            NfObjectView::CmdObject(c) => c.to_wire(),
            NfObjectView::ListObject(o) => o.to_wire(),
        }
    }

    /// What a wire value decodes to: it is an object with exactly one member, whose key
    /// names a command or an object of the ruleset.
    pub open spec fn from_wire(j: JsonView) -> Result<NfObjectView, DecodeErrorView> {
        match j {
            JsonView::Object(m) => match sole_member(m) {
                Some((k, v)) => if NfCmdView::knows(k) {
                    match NfCmdView::from_member(k, v) {
                        Ok(c) => Ok(NfObjectView::CmdObject(c)),
                        Err(e) => Err(e),
                    }
                } else if NfListObjectView::knows(k) {
                    match NfListObjectView::from_member(k, v) {
                        Ok(o) => Ok(NfObjectView::ListObject(o)),
                        Err(e) => Err(e),
                    }
                } else {
                    Err(DecodeErrorView::shape())
                },
                None => Err(DecodeErrorView::shape()),
            },
            _ => Err(DecodeErrorView::shape()),
        }
    }

    /// Where an object with one member, whose key names a command or an object of the
    /// ruleset, fails to decode, the failure names that key: its path begins with it.
    pub proof fn lemma_failure_names_kind(k: Seq<char>, v: JsonView)
        ensures
            NfCmdView::knows(k) || NfListObjectView::knows(k) ==> (Self::from_wire(
                JsonView::Object(seq![(k, v)]),
            ) matches Err(e) ==> e.path.len() > 0 && e.path[0] == PathSegmentView::Key(k)),
    {
        NfCmdView::lemma_failure_names_kind(k, v);
        NfListObjectView::lemma_failure_names_kind(k, v);
    }

    /// Whether decoding the wire form gives this value back.
    pub open spec fn canonical(self) -> bool {
        match self {
            NfObjectView::CmdObject(c) => c.canonical(),
            NfObjectView::ListObject(o) => o.canonical(),
        }
    }

    /// Decoding the wire form of a canonical item gives the item back.
    pub proof fn lemma_round_trip(self)
        requires
            self.canonical(),
        ensures
            Self::from_wire(self.to_wire()) == Ok::<NfObjectView, DecodeErrorView>(self),
    {
        match self {
            NfObjectView::CmdObject(c) => {
                c.lemma_round_trip();
                c.lemma_key();
            },
            NfObjectView::ListObject(o) => {
                o.lemma_round_trip();
                o.lemma_key();
                lemma_kinds_apart(o.key());
            },
        }
    }
}

impl Clone for NfObject {
    fn clone(&self) -> (r: Self)
        ensures
            r.deep_view() == self.deep_view(),
    {
        match self {
            NfObject::CmdObject(c) => NfObject::CmdObject(c.clone()),
            NfObject::ListObject(o) => NfObject::ListObject(o.clone()),
        }
    }
}

impl NfObject {
    /// Encodes the item in its wire form.
    pub fn encode(&self) -> (j: Json)
        ensures
            j.deep_view() == self.deep_view().to_wire(),
    {
        match self {
            NfObject::CmdObject(c) => c.encode(),
            NfObject::ListObject(o) => o.encode(),
        }
    }

    /// Decodes a wire value.
    pub fn decode(j: &Json) -> (r: Result<NfObject, DecodeError>)
        ensures
            decoded(r, NfObjectView::from_wire(j.deep_view())),
    {
        match j {
            Json::Object(m) => {
                assert(members_view(*m).len() == m.len());
                if m.len() != 1 {
                    return Err(DecodeError::shape());
                }
                let k = m[0].0.as_str();
                let v = &m[0].1;
                if NfCmd::knows(k) {
                    match NfCmd::decode_member(k, v) {
                        Ok(c) => Ok(NfObject::CmdObject(c)),
                        Err(e) => Err(e),
                    }
                } else if NfListObject::knows(k) {
                    match NfListObject::decode_member(k, v) {
                        Ok(o) => Ok(NfObject::ListObject(o)),
                        Err(e) => Err(e),
                    }
                } else {
                    Err(DecodeError::shape())
                }
            },
            _ => Err(DecodeError::shape()),
        }
    }
}

/// The values of a list of items of a document.
pub open spec fn objects_view(items: Seq<NfObject>) -> Seq<NfObjectView>
    decreases items,
{
    if items.len() == 0 {
        Seq::empty()
    } else {
        objects_view(items.drop_last()).push(items.last().deep_view())
    }
}

/// The values of a list are as many as its items.
pub broadcast proof fn lemma_objects_view_len(items: Seq<NfObject>)
    ensures
        #[trigger] objects_view(items).len() == items.len(),
    decreases items.len(),
{
    if items.len() > 0 {
        lemma_objects_view_len(items.drop_last());
        assert(objects_view(items) == objects_view(items.drop_last()).push(
            items.last().deep_view(),
        ));
    }
}

/// The value at a place of a list is the value of the item at that place.
pub broadcast proof fn lemma_objects_view_index(items: Seq<NfObject>, k: int)
    requires
        0 <= k < items.len(),
    ensures
        #[trigger] objects_view(items)[k] == items[k].deep_view(),
    decreases items.len(),
{
    lemma_objects_view_len(items);
    lemma_objects_view_len(items.drop_last());
    assert(objects_view(items) == objects_view(items.drop_last()).push(items.last().deep_view()));
    if k < items.len() - 1 {
        lemma_objects_view_index(items.drop_last(), k);
    }
}

/// The wire forms of a list of items of a document, in the list's order.
pub open spec fn enc_objects(items: Seq<NfObjectView>) -> Seq<JsonView>
    decreases items, 0nat,
{
    Seq::new(
        items.len(),
        |i: int|
            if 0 <= i < items.len() {
                items[i].to_wire()
            } else {
                JsonView::Null
            },
    )
}

/// What a list of wire values decodes to: each item in turn, and the first that fails
/// decides the failure.
pub open spec fn dec_objects(items: Seq<JsonView>) -> Result<Seq<NfObjectView>, DecodeErrorView>
    decreases items, 0nat,
{
    if items.len() == 0 {
        Ok(Seq::empty())
    } else {
        match dec_objects(items.drop_last()) {
            Ok(vs) => match NfObjectView::from_wire(items.last()) {
                Ok(v) => Ok(vs.push(v)),
                Err(e) => Err(e.under_index(items.len() - 1)),
            },
            Err(e) => Err(e),
        }
    }
}

/// What a wire value decodes to where a list of items of a document is expected: it is an array.
pub open spec fn dec_object_list(j: JsonView) -> Result<Seq<NfObjectView>, DecodeErrorView>
    decreases j, 0nat,
{
    match j {
        JsonView::Array(items) => dec_objects(items),
        _ => Err(DecodeErrorView::shape()),
    }
}

/// Whether each item of a list is canonical.
pub open spec fn objects_canonical(items: Seq<NfObjectView>) -> bool
    decreases items,
{
    forall|i: int| 0 <= i < items.len() ==> (#[trigger] items[i]).canonical()
}

/// Decoding the wire forms of a list gives the list back.
pub proof fn lemma_objects_round_trip(items: Seq<NfObjectView>)
    requires
        objects_canonical(items),
    ensures
        dec_objects(enc_objects(items)) matches Ok(vs) && vs == items,
        dec_object_list(JsonView::Array(enc_objects(items))) matches Ok(vs) && vs == items,
    decreases items, 0nat,
{
    if items.len() > 0 {
        lemma_objects_round_trip(items.drop_last());
        items.last().lemma_round_trip();
        assert(enc_objects(items).drop_last() =~= enc_objects(items.drop_last()));
        assert(items.drop_last().push(items.last()) =~= items);
    } else {
        assert(items =~= Seq::empty());
    }
}

/// A list that failed to decode up to some item fails as a whole in the same way.
pub proof fn lemma_dec_objects_fails(items: Seq<JsonView>, i: int)
    requires
        0 <= i < items.len(),
        dec_objects(items.take(i + 1)) is Err,
    ensures
        dec_objects(items) == dec_objects(items.take(i + 1)),
    decreases items.len(),
{
    if i + 1 < items.len() {
        assert(items.drop_last().take(i + 1) =~= items.take(i + 1));
        lemma_dec_objects_fails(items.drop_last(), i);
    } else {
        assert(items.take(i + 1) =~= items);
    }
}

/// Encodes each item of a list.
pub fn encode_objects(items: &Vec<NfObject>) -> (r: Vec<Json>)
    ensures
        items_view(r) == enc_objects(objects_view(items@)),
    decreases items,
{
    let mut out: Vec<Json> = Vec::new();
    let mut i: usize = 0;
    while i < items.len()
        invariant
            i <= items.len(),
            out.len() == i,
            forall|k: int| 0 <= k < i ==> out[k].deep_view() == items[k].deep_view().to_wire(),
        decreases items.len() - i,
    {
        out.push(items[i].encode());
        i += 1;
    }
    proof {
        let views = objects_view(items@);
        lemma_objects_view_len(items@);
        assert forall|k: int| 0 <= k < items.len() implies items_view(out)[k] == enc_objects(
            views,
        )[k] by {
            lemma_objects_view_index(items@, k);
        }
        assert(items_view(out) =~= enc_objects(views));
    }
    out
}

/// Decodes each item of a list.
pub fn decode_objects(items: &Vec<Json>) -> (r: Result<Vec<NfObject>, DecodeError>)
    ensures
        match r {
            Ok(v) => dec_objects(items_view(*items)) matches Ok(vs) && vs == objects_view(v@),
            Err(e) => dec_objects(items_view(*items)) matches Err(f) && f == e.deep_view(),
        },
    decreases items, 0nat,
{
    let mut out: Vec<NfObject> = Vec::new();
    let mut i: usize = 0;
    let ghost view = items_view(*items);
    assert(view.take(0) =~= Seq::empty());
    assert(objects_view(out@) == Seq::<NfObjectView>::empty());
    while i < items.len()
        invariant
            i <= items.len(),
            view == items_view(*items),
            dec_objects(view.take(i as int)) matches Ok(vs) && vs == objects_view(out@),
        decreases items.len() - i,
    {
        proof {
            assert(view.take(i + 1).drop_last() =~= view.take(i as int));
            assert(view.take(i + 1).last() == items[i as int].deep_view());
        }
        match NfObject::decode(&items[i]) {
            Ok(v) => {
                let ghost before = out@;
                out.push(v);
                proof {
                    assert(out@.drop_last() =~= before);
                    assert(objects_view(out@) == objects_view(out@.drop_last()).push(
                        out@.last().deep_view(),
                    ));
                }
            },
            Err(e) => {
                proof {
                    lemma_dec_objects_fails(view, i as int);
                }
                return Err(e.under_index(i));
            },
        }
        i += 1;
    }
    assert(view.take(i as int) =~= view);
    Ok(out)
}

/// Copies each item of a list.
pub fn clone_objects(items: &Vec<NfObject>) -> (r: Vec<NfObject>)
    ensures
        objects_view(r@) == objects_view(items@),
    decreases items,
{
    let mut out: Vec<NfObject> = Vec::new();
    let mut i: usize = 0;
    assert(items@.take(0) =~= Seq::empty());
    assert(objects_view(out@) == objects_view(items@.take(0)));
    while i < items.len()
        invariant
            i <= items.len(),
            objects_view(out@) == objects_view(items@.take(i as int)),
        decreases items.len() - i,
    {
        let ghost before = out@;
        out.push(items[i].clone());
        proof {
            let next = items@.take(i + 1);
            assert(out@.drop_last() =~= before);
            assert(next.drop_last() =~= items@.take(i as int));
            assert(objects_view(out@) == objects_view(out@.drop_last()).push(
                out@.last().deep_view(),
            ));
            assert(
                objects_view(next) == objects_view(next.drop_last()).push(next.last().deep_view())
            );
        }
        i += 1;
    }
    assert(items@.take(i as int) =~= items@);
    out
}

/// Decodes a wire value where a list of items of a document is expected.
pub fn decode_object_list(j: &Json) -> (r: Result<Vec<NfObject>, DecodeError>)
    ensures
        match r {
            Ok(v) => dec_object_list(j.deep_view()) matches Ok(vs) && vs == objects_view(v@),
            Err(e) => dec_object_list(j.deep_view()) matches Err(f) && f == e.deep_view(),
        },
    decreases j, 0nat,
{
    match j {
        Json::Array(items) => decode_objects(items),
        _ => Err(DecodeError::shape()),
    }
}

/// Items that all decode make a list that decodes.
pub proof fn lemma_dec_objects_ok(items: Seq<JsonView>)
    requires
        forall|i: int| 0 <= i < items.len() ==> NfObjectView::from_wire(#[trigger] items[i]) is Ok,
    ensures
        dec_objects(items) is Ok,
    decreases items.len(),
{
    if items.len() > 0 {
        lemma_dec_objects_ok(items.drop_last());
    }
}

/// Where the item at place `k` of a document is the first that does not decode, the
/// document fails with the failure of that item, seen from place `k` of the member
/// `nftables`: the path of the error begins with that key and that place, and goes on as
/// the path of the failure inside the item does.
pub proof fn lemma_error_locality(m: Seq<(Seq<char>, JsonView)>, items: Seq<JsonView>, k: int)
    requires
        lookup(m, "nftables"@) == Some(JsonView::Array(items)),
        0 <= k < items.len(),
        forall|i: int| 0 <= i < k ==> NfObjectView::from_wire(#[trigger] items[i]) is Ok,
        NfObjectView::from_wire(items[k]) is Err,
    ensures
        NftablesView::from_wire(JsonView::Object(m)) == Err::<NftablesView, DecodeErrorView>(
            NfObjectView::from_wire(items[k])->Err_0.under_index(k).under_key("nftables"@),
        ),
        ({
            let inner = NfObjectView::from_wire(items[k])->Err_0;
            let e = NftablesView::from_wire(JsonView::Object(m))->Err_0;
            &&& e.kind == inner.kind
            &&& e.path == seq![
                crate::error::PathSegmentView::Key("nftables"@),
                crate::error::PathSegmentView::Index(k),
            ] + inner.path
        }),
{
    let before = items.take(k);
    assert forall|i: int| 0 <= i < before.len() implies NfObjectView::from_wire(
        #[trigger] before[i],
    ) is Ok by {
        assert(before[i] == items[i]);
    }
    lemma_dec_objects_ok(before);
    let upto = items.take(k + 1);
    assert(upto.drop_last() =~= before);
    assert(upto.last() == items[k]);
    assert(dec_objects(upto) is Err);
    lemma_dec_objects_fails(items, k);
    let inner = NfObjectView::from_wire(items[k])->Err_0;
    let e = inner.under_index(k).under_key("nftables"@);
    assert(e.path =~= seq![
        crate::error::PathSegmentView::Key("nftables"@),
        crate::error::PathSegmentView::Index(k),
    ] + inner.path);
}

/// Where moreover that item is an object with one member, whose key names a command or an
/// object of the ruleset, the path goes on with that key: the error names the document's
/// member, the place of the item, and the kind of the item. What follows names the field
/// within, by the same law of each kind and each entity.
pub proof fn lemma_error_names_kind(
    m: Seq<(Seq<char>, JsonView)>,
    items: Seq<JsonView>,
    k: int,
    key: Seq<char>,
    v: JsonView,
)
    requires
        lookup(m, "nftables"@) == Some(JsonView::Array(items)),
        0 <= k < items.len(),
        forall|i: int| 0 <= i < k ==> NfObjectView::from_wire(#[trigger] items[i]) is Ok,
        items[k] == JsonView::Object(seq![(key, v)]),
        NfCmdView::knows(key) || NfListObjectView::knows(key),
        NfObjectView::from_wire(items[k]) is Err,
    ensures
        ({
            let e = NftablesView::from_wire(JsonView::Object(m))->Err_0;
            &&& NftablesView::from_wire(JsonView::Object(m)) is Err
            &&& e.path.len() >= 3
            &&& e.path[0] == PathSegmentView::Key("nftables"@)
            &&& e.path[1] == PathSegmentView::Index(k)
            &&& e.path[2] == PathSegmentView::Key(key)
        }),
{
    lemma_error_locality(m, items, k);
    NfObjectView::lemma_failure_names_kind(key, v);
}

/// An object of the ruleset, under the key that names its kind.
#[derive(Debug, PartialEq, Eq)]
pub enum NfListObject {
    /// A table.
    Table(Table),
    /// A chain.
    Chain(Chain),
    /// A rule.
    Rule(Rule),
    /// A named set.
    SetObject(Box<SetObject>),
    /// A named map.
    MapObject(Box<MapObject>),
    /// Elements of a named set or map.
    Element(Element),
    /// A flow table.
    FlowTable(FlowTable),
    /// A named counter.
    Counter(Counter),
    /// A named quota.
    Quota(Quota),
    /// A conntrack helper.
    CTHelper(CTHelper),
    /// A named limit.
    Limit(Limit),
    /// What the tool says of itself at the head of its output.
    MetainfoObject(MetainfoObject),
    /// A conntrack timeout policy.
    CTTimeout(CTTimeout),
    /// A conntrack expectation.
    CTExpectation(CTExpectation),
    /// A named synproxy.
    SynProxy(SynProxy),
}

/// The mathematical value of a [`NfListObject`].
pub ghost enum NfListObjectView {
    Table(TableView),
    Chain(ChainView),
    Rule(RuleView),
    SetObject(Box<SetObjectView>),
    MapObject(Box<MapObjectView>),
    Element(ElementView),
    FlowTable(FlowTableView),
    Counter(CounterView),
    Quota(QuotaView),
    CTHelper(CTHelperView),
    Limit(LimitView),
    MetainfoObject(MetainfoObjectView),
    CTTimeout(CTTimeoutView),
    CTExpectation(CTExpectationView),
    SynProxy(SynProxyView),
}

impl DeepView for NfListObject {
    type V = NfListObjectView;

    open spec fn deep_view(&self) -> NfListObjectView {
        match self {
            NfListObject::Table(p) => NfListObjectView::Table(p.deep_view()),
            NfListObject::Chain(p) => NfListObjectView::Chain(p.deep_view()),
            NfListObject::Rule(p) => NfListObjectView::Rule(p.deep_view()),
            NfListObject::SetObject(p) => NfListObjectView::SetObject(Box::new((**p).deep_view())),
            NfListObject::MapObject(p) => NfListObjectView::MapObject(Box::new((**p).deep_view())),
            NfListObject::Element(p) => NfListObjectView::Element(p.deep_view()),
            NfListObject::FlowTable(p) => NfListObjectView::FlowTable(p.deep_view()),
            NfListObject::Counter(p) => NfListObjectView::Counter(p.deep_view()),
            NfListObject::Quota(p) => NfListObjectView::Quota(p.deep_view()),
            NfListObject::CTHelper(p) => NfListObjectView::CTHelper(p.deep_view()),
            NfListObject::Limit(p) => NfListObjectView::Limit(p.deep_view()),
            NfListObject::MetainfoObject(p) => NfListObjectView::MetainfoObject(p.deep_view()),
            NfListObject::CTTimeout(p) => NfListObjectView::CTTimeout(p.deep_view()),
            NfListObject::CTExpectation(p) => NfListObjectView::CTExpectation(p.deep_view()),
            NfListObject::SynProxy(p) => NfListObjectView::SynProxy(p.deep_view()),
        }
    }
}

impl NfListObjectView {
    /// The key that names each kind on the wire.
    pub open spec fn key(self) -> Seq<char> {
        match self {
            NfListObjectView::Table(_) => "table"@,
            NfListObjectView::Chain(_) => "chain"@,
            NfListObjectView::Rule(_) => "rule"@,
            NfListObjectView::SetObject(_) => "set"@,
            NfListObjectView::MapObject(_) => "map"@,
            NfListObjectView::Element(_) => "element"@,
            NfListObjectView::FlowTable(_) => "flowtable"@,
            NfListObjectView::Counter(_) => "counter"@,
            NfListObjectView::Quota(_) => "quota"@,
            NfListObjectView::CTHelper(_) => "ct helper"@,
            NfListObjectView::Limit(_) => "limit"@,
            NfListObjectView::MetainfoObject(_) => "metainfo"@,
            NfListObjectView::CTTimeout(_) => "ct timeout"@,
            NfListObjectView::CTExpectation(_) => "ct expectation"@,
            NfListObjectView::SynProxy(_) => "synproxy"@,
        }
    }

    /// Whether a key names a kind.
    pub open spec fn knows(k: Seq<char>) -> bool {
        ||| k == "table"@
        ||| k == "chain"@
        ||| k == "rule"@
        ||| k == "set"@
        ||| k == "map"@
        ||| k == "element"@
        ||| k == "flowtable"@
        ||| k == "counter"@
        ||| k == "quota"@
        ||| k == "ct helper"@
        ||| k == "limit"@
        ||| k == "metainfo"@
        ||| k == "ct timeout"@
        ||| k == "ct expectation"@
        ||| k == "synproxy"@
    }

    /// What stands under the key on the wire.
    pub open spec fn payload(self) -> JsonView {
        match self {
            NfListObjectView::Table(p) => p.to_wire(),
            NfListObjectView::Chain(p) => p.to_wire(),
            NfListObjectView::Rule(p) => p.to_wire(),
            NfListObjectView::SetObject(p) => (*p).to_wire(),
            NfListObjectView::MapObject(p) => (*p).to_wire(),
            NfListObjectView::Element(p) => p.to_wire(),
            NfListObjectView::FlowTable(p) => p.to_wire(),
            NfListObjectView::Counter(p) => p.to_wire(),
            NfListObjectView::Quota(p) => p.to_wire(),
            NfListObjectView::CTHelper(p) => p.to_wire(),
            NfListObjectView::Limit(p) => p.to_wire(),
            NfListObjectView::MetainfoObject(p) => p.to_wire(),
            NfListObjectView::CTTimeout(p) => p.to_wire(),
            NfListObjectView::CTExpectation(p) => p.to_wire(),
            NfListObjectView::SynProxy(p) => p.to_wire(),
        }
    }

    /// The wire form: an object whose one member is named after the kind.
    pub open spec fn to_wire(self) -> JsonView {
        JsonView::Object(seq![(self.key(), self.payload())])
    }

    /// What the member `k: v` decodes to, where `k` names a kind.
    pub open spec fn from_member(
        k: Seq<char>,
        v: JsonView,
    ) -> Result<NfListObjectView, DecodeErrorView> {
        if k == "table"@ {
            match TableView::from_wire(v) {
                Ok(x) => Ok(NfListObjectView::Table(x)),
                Err(e) => Err(e.under_key(k)),
            }
        } else if k == "chain"@ {
            match ChainView::from_wire(v) {
                Ok(x) => Ok(NfListObjectView::Chain(x)),
                Err(e) => Err(e.under_key(k)),
            }
        } else if k == "rule"@ {
            match RuleView::from_wire(v) {
                Ok(x) => Ok(NfListObjectView::Rule(x)),
                Err(e) => Err(e.under_key(k)),
            }
        } else if k == "set"@ {
            match boxed(SetObjectView::from_wire(v)) {
                Ok(x) => Ok(NfListObjectView::SetObject(x)),
                Err(e) => Err(e.under_key(k)),
            }
        } else if k == "map"@ {
            match boxed(MapObjectView::from_wire(v)) {
                Ok(x) => Ok(NfListObjectView::MapObject(x)),
                Err(e) => Err(e.under_key(k)),
            }
        } else if k == "element"@ {
            match ElementView::from_wire(v) {
                Ok(x) => Ok(NfListObjectView::Element(x)),
                Err(e) => Err(e.under_key(k)),
            }
        } else if k == "flowtable"@ {
            match FlowTableView::from_wire(v) {
                Ok(x) => Ok(NfListObjectView::FlowTable(x)),
                Err(e) => Err(e.under_key(k)),
            }
        } else if k == "counter"@ {
            match CounterView::from_wire(v) {
                Ok(x) => Ok(NfListObjectView::Counter(x)),
                Err(e) => Err(e.under_key(k)),
            }
        } else if k == "quota"@ {
            match QuotaView::from_wire(v) {
                Ok(x) => Ok(NfListObjectView::Quota(x)),
                Err(e) => Err(e.under_key(k)),
            }
        } else if k == "ct helper"@ {
            match CTHelperView::from_wire(v) {
                Ok(x) => Ok(NfListObjectView::CTHelper(x)),
                Err(e) => Err(e.under_key(k)),
            }
        } else if k == "limit"@ {
            match LimitView::from_wire(v) {
                Ok(x) => Ok(NfListObjectView::Limit(x)),
                Err(e) => Err(e.under_key(k)),
            }
        } else if k == "metainfo"@ {
            match MetainfoObjectView::from_wire(v) {
                Ok(x) => Ok(NfListObjectView::MetainfoObject(x)),
                Err(e) => Err(e.under_key(k)),
            }
        } else if k == "ct timeout"@ {
            match CTTimeoutView::from_wire(v) {
                Ok(x) => Ok(NfListObjectView::CTTimeout(x)),
                Err(e) => Err(e.under_key(k)),
            }
        } else if k == "ct expectation"@ {
            match CTExpectationView::from_wire(v) {
                Ok(x) => Ok(NfListObjectView::CTExpectation(x)),
                Err(e) => Err(e.under_key(k)),
            }
        } else if k == "synproxy"@ {
            match SynProxyView::from_wire(v) {
                Ok(x) => Ok(NfListObjectView::SynProxy(x)),
                Err(e) => Err(e.under_key(k)),
            }
        } else {
            Err(DecodeErrorView::shape())
        }
    }

    /// What a wire value decodes to: it is an object with exactly one member, whose
    /// key names the kind.
    pub open spec fn from_wire(j: JsonView) -> Result<NfListObjectView, DecodeErrorView> {
        match j {
            JsonView::Object(m) => match sole_member(m) {
                Some((k, v)) => Self::from_member(k, v),
                None => Err(DecodeErrorView::shape()),
            },
            _ => Err(DecodeErrorView::shape()),
        }
    }

    /// Whether decoding the wire form gives this value back.
    pub open spec fn canonical(self) -> bool {
        match self {
            NfListObjectView::Rule(p) => p.canonical(),
            NfListObjectView::SetObject(p) => (*p).canonical(),
            NfListObjectView::MapObject(p) => (*p).canonical(),
            NfListObjectView::Element(p) => p.canonical(),
            NfListObjectView::FlowTable(p) => p.canonical(),
            _ => true,
        }
    }

    /// The wire form of a value is never `null`.
    pub proof fn lemma_not_null(self)
        ensures
            !(self.to_wire() is Null),
    {
    }

    /// Where a member whose key names a kind fails to decode, the failure names the
    /// kind: its path begins with that key.
    pub proof fn lemma_failure_names_kind(k: Seq<char>, v: JsonView)
        ensures
            Self::knows(k) ==> (Self::from_member(k, v) matches Err(e) ==> e.path.len() > 0
                && e.path[0] == PathSegmentView::Key(k)),
    {
        broadcast use lemma_under_key_path;
    }

    /// The key of a value names its kind.
    pub proof fn lemma_key(self)
        ensures
            Self::knows(self.key()),
    {
    }

    /// Decoding the wire form of a value gives the value back.
    pub proof fn lemma_round_trip(self)
        requires
            self.canonical(),
        ensures
            Self::from_member(self.key(), self.payload()) matches Ok(v) && v == self,
            Self::from_wire(self.to_wire()) == Ok::<NfListObjectView, DecodeErrorView>(self),
    {
        reveal_strlit("table");
        reveal_strlit("chain");
        reveal_strlit("rule");
        reveal_strlit("set");
        reveal_strlit("map");
        reveal_strlit("element");
        reveal_strlit("flowtable");
        reveal_strlit("counter");
        reveal_strlit("quota");
        reveal_strlit("ct helper");
        reveal_strlit("limit");
        reveal_strlit("metainfo");
        reveal_strlit("ct timeout");
        reveal_strlit("ct expectation");
        reveal_strlit("synproxy");
        assert("table"@.len() == 5 && "table"@[0] == 't');
        assert("chain"@.len() == 5 && "chain"@[0] == 'c');
        assert("rule"@.len() == 4);
        assert("set"@.len() == 3 && "set"@[0] == 's');
        assert("map"@.len() == 3 && "map"@[0] == 'm');
        assert("element"@.len() == 7 && "element"@[0] == 'e');
        assert("flowtable"@.len() == 9 && "flowtable"@[0] == 'f');
        assert("counter"@.len() == 7 && "counter"@[0] == 'c');
        assert("quota"@.len() == 5 && "quota"@[0] == 'q');
        assert("ct helper"@.len() == 9 && "ct helper"@[0] == 'c');
        assert("limit"@.len() == 5 && "limit"@[0] == 'l');
        assert("metainfo"@.len() == 8 && "metainfo"@[0] == 'm');
        assert("ct timeout"@.len() == 10);
        assert("ct expectation"@.len() == 14);
        assert("synproxy"@.len() == 8 && "synproxy"@[0] == 's');
        match self {
            NfListObjectView::Table(p) => {
                p.lemma_round_trip();
            },
            NfListObjectView::Chain(p) => {
                p.lemma_round_trip();
            },
            NfListObjectView::Rule(p) => {
                p.lemma_round_trip();
            },
            NfListObjectView::SetObject(p) => {
                (*p).lemma_round_trip();
            },
            NfListObjectView::MapObject(p) => {
                (*p).lemma_round_trip();
            },
            NfListObjectView::Element(p) => {
                p.lemma_round_trip();
            },
            NfListObjectView::FlowTable(p) => {
                p.lemma_round_trip();
            },
            NfListObjectView::Counter(p) => {
                p.lemma_round_trip();
            },
            NfListObjectView::Quota(p) => {
                p.lemma_round_trip();
            },
            NfListObjectView::CTHelper(p) => {
                p.lemma_round_trip();
            },
            NfListObjectView::Limit(p) => {
                p.lemma_round_trip();
            },
            NfListObjectView::MetainfoObject(p) => {
                p.lemma_round_trip();
            },
            NfListObjectView::CTTimeout(p) => {
                p.lemma_round_trip();
            },
            NfListObjectView::CTExpectation(p) => {
                p.lemma_round_trip();
            },
            NfListObjectView::SynProxy(p) => {
                p.lemma_round_trip();
            },
        }
    }
}

impl NfListObject {
    /// Encodes the value in its wire form.
    pub fn encode(&self) -> (j: Json)
        ensures
            j.deep_view() == self.deep_view().to_wire(),
    {
        let mut m: Vec<(String, Json)> = Vec::new();
        assert(members_view(m) =~= Seq::empty());
        match self {
            NfListObject::Table(p) => put(&mut m, "table", p.encode()),
            NfListObject::Chain(p) => put(&mut m, "chain", p.encode()),
            NfListObject::Rule(p) => put(&mut m, "rule", p.encode()),
            NfListObject::SetObject(p) => put(&mut m, "set", p.encode()),
            NfListObject::MapObject(p) => put(&mut m, "map", p.encode()),
            NfListObject::Element(p) => put(&mut m, "element", p.encode()),
            NfListObject::FlowTable(p) => put(&mut m, "flowtable", p.encode()),
            NfListObject::Counter(p) => put(&mut m, "counter", p.encode()),
            NfListObject::Quota(p) => put(&mut m, "quota", p.encode()),
            NfListObject::CTHelper(p) => put(&mut m, "ct helper", p.encode()),
            NfListObject::Limit(p) => put(&mut m, "limit", p.encode()),
            NfListObject::MetainfoObject(p) => put(&mut m, "metainfo", p.encode()),
            NfListObject::CTTimeout(p) => put(&mut m, "ct timeout", p.encode()),
            NfListObject::CTExpectation(p) => put(&mut m, "ct expectation", p.encode()),
            NfListObject::SynProxy(p) => put(&mut m, "synproxy", p.encode()),
        }
        assert(members_view(m) =~= seq![(self.deep_view().key(), self.deep_view().payload())]);
        Json::Object(m)
    }

    /// Whether a key names a kind.
    pub fn knows(k: &str) -> (r: bool)
        ensures
            r == NfListObjectView::knows(k@),
    {
        same_text(k, "table")
            || same_text(k, "chain")
            || same_text(k, "rule")
            || same_text(k, "set")
            || same_text(k, "map")
            || same_text(k, "element")
            || same_text(k, "flowtable")
            || same_text(k, "counter")
            || same_text(k, "quota")
            || same_text(k, "ct helper")
            || same_text(k, "limit")
            || same_text(k, "metainfo")
            || same_text(k, "ct timeout")
            || same_text(k, "ct expectation")
            || same_text(k, "synproxy")
    }

    /// Decodes the member `k: v`.
    pub fn decode_member(k: &str, v: &Json) -> (r: Result<NfListObject, DecodeError>)
        ensures
            decoded(r, NfListObjectView::from_member(k@, v.deep_view())),
    {
        if same_text(k, "table") {
            match Table::decode(v) {
                Ok(x) => Ok(NfListObject::Table(x)),
                Err(e) => Err(e.under_key(k)),
            }
        } else if same_text(k, "chain") {
            match Chain::decode(v) {
                Ok(x) => Ok(NfListObject::Chain(x)),
                Err(e) => Err(e.under_key(k)),
            }
        } else if same_text(k, "rule") {
            match Rule::decode(v) {
                Ok(x) => Ok(NfListObject::Rule(x)),
                Err(e) => Err(e.under_key(k)),
            }
        } else if same_text(k, "set") {
            match SetObject::decode(v) {
                Ok(x) => Ok(NfListObject::SetObject(Box::new(x))),
                Err(e) => Err(e.under_key(k)),
            }
        } else if same_text(k, "map") {
            match MapObject::decode(v) {
                Ok(x) => Ok(NfListObject::MapObject(Box::new(x))),
                Err(e) => Err(e.under_key(k)),
            }
        } else if same_text(k, "element") {
            match Element::decode(v) {
                Ok(x) => Ok(NfListObject::Element(x)),
                Err(e) => Err(e.under_key(k)),
            }
        } else if same_text(k, "flowtable") {
            match FlowTable::decode(v) {
                Ok(x) => Ok(NfListObject::FlowTable(x)),
                Err(e) => Err(e.under_key(k)),
            }
        } else if same_text(k, "counter") {
            match Counter::decode(v) {
                Ok(x) => Ok(NfListObject::Counter(x)),
                Err(e) => Err(e.under_key(k)),
            }
        } else if same_text(k, "quota") {
            match Quota::decode(v) {
                Ok(x) => Ok(NfListObject::Quota(x)),
                Err(e) => Err(e.under_key(k)),
            }
        } else if same_text(k, "ct helper") {
            match CTHelper::decode(v) {
                Ok(x) => Ok(NfListObject::CTHelper(x)),
                Err(e) => Err(e.under_key(k)),
            }
        } else if same_text(k, "limit") {
            match Limit::decode(v) {
                Ok(x) => Ok(NfListObject::Limit(x)),
                Err(e) => Err(e.under_key(k)),
            }
        } else if same_text(k, "metainfo") {
            match MetainfoObject::decode(v) {
                Ok(x) => Ok(NfListObject::MetainfoObject(x)),
                Err(e) => Err(e.under_key(k)),
            }
        } else if same_text(k, "ct timeout") {
            match CTTimeout::decode(v) {
                Ok(x) => Ok(NfListObject::CTTimeout(x)),
                Err(e) => Err(e.under_key(k)),
            }
        } else if same_text(k, "ct expectation") {
            match CTExpectation::decode(v) {
                Ok(x) => Ok(NfListObject::CTExpectation(x)),
                Err(e) => Err(e.under_key(k)),
            }
        } else if same_text(k, "synproxy") {
            match SynProxy::decode(v) {
                Ok(x) => Ok(NfListObject::SynProxy(x)),
                Err(e) => Err(e.under_key(k)),
            }
        } else {
            Err(DecodeError::shape())
        }
    }

    /// Decodes a wire value.
    pub fn decode(j: &Json) -> (r: Result<NfListObject, DecodeError>)
        ensures
            decoded(r, NfListObjectView::from_wire(j.deep_view())),
    {
        match j {
            Json::Object(m) => {
                assert(members_view(*m).len() == m.len());
                if m.len() != 1 {
                    return Err(DecodeError::shape());
                }
                Self::decode_member(m[0].0.as_str(), &m[0].1)
            },
            _ => Err(DecodeError::shape()),
        }
    }
}

impl Clone for NfListObject {
    fn clone(&self) -> (r: Self)
        ensures
            r.deep_view() == self.deep_view(),
    {
        match self {
            NfListObject::Table(p) => NfListObject::Table(p.clone()),
            NfListObject::Chain(p) => NfListObject::Chain(p.clone()),
            NfListObject::Rule(p) => NfListObject::Rule(p.clone()),
            NfListObject::SetObject(p) => NfListObject::SetObject(Box::new((**p).clone())),
            NfListObject::MapObject(p) => NfListObject::MapObject(Box::new((**p).clone())),
            NfListObject::Element(p) => NfListObject::Element(p.clone()),
            NfListObject::FlowTable(p) => NfListObject::FlowTable(p.clone()),
            NfListObject::Counter(p) => NfListObject::Counter(p.clone()),
            NfListObject::Quota(p) => NfListObject::Quota(p.clone()),
            NfListObject::CTHelper(p) => NfListObject::CTHelper(p.clone()),
            NfListObject::Limit(p) => NfListObject::Limit(p.clone()),
            NfListObject::MetainfoObject(p) => NfListObject::MetainfoObject(p.clone()),
            NfListObject::CTTimeout(p) => NfListObject::CTTimeout(p.clone()),
            NfListObject::CTExpectation(p) => NfListObject::CTExpectation(p.clone()),
            NfListObject::SynProxy(p) => NfListObject::SynProxy(p.clone()),
        }
    }
}

/// A command: what to do, and the object to do it to.
#[derive(Debug, PartialEq, Eq)]
pub enum NfCmd {
    /// Add an object to its table, or a table to the ruleset. Adding what is there already is no
    /// error.
    Add(NfListObject),
    /// Replace a rule, which its handle refers to.
    Replace(Rule),
    /// Like `add`, but an error where the object is there already.
    Create(NfListObject),
    /// Like `add` for rules, but the rule is put before the others of its chain, or before the rule
    /// at the given place.
    Insert(NfListObject),
    /// Delete an object. Only what refers to it is looked at: its names, or for a rule its handle.
    Delete(NfListObject),
    /// List an object, or the objects of one kind.
    List(NfListObject),
    /// Empty an object: a table or chain of its rules, a set or map of its elements, the ruleset of
    /// everything.
    Flush(FlushObject),
    /// Rename a chain; the new name stands in `newname`.
    Rename(Chain),
}

/// The mathematical value of a [`NfCmd`].
pub ghost enum NfCmdView {
    Add(NfListObjectView),
    Replace(RuleView),
    Create(NfListObjectView),
    Insert(NfListObjectView),
    Delete(NfListObjectView),
    List(NfListObjectView),
    Flush(FlushObjectView),
    Rename(ChainView),
}

impl DeepView for NfCmd {
    type V = NfCmdView;

    open spec fn deep_view(&self) -> NfCmdView {
        match self {
            NfCmd::Add(p) => NfCmdView::Add(p.deep_view()),
            NfCmd::Replace(p) => NfCmdView::Replace(p.deep_view()),
            NfCmd::Create(p) => NfCmdView::Create(p.deep_view()),
            NfCmd::Insert(p) => NfCmdView::Insert(p.deep_view()),
            NfCmd::Delete(p) => NfCmdView::Delete(p.deep_view()),
            NfCmd::List(p) => NfCmdView::List(p.deep_view()),
            NfCmd::Flush(p) => NfCmdView::Flush(p.deep_view()),
            NfCmd::Rename(p) => NfCmdView::Rename(p.deep_view()),
        }
    }
}

impl NfCmdView {
    /// The key that names each kind on the wire.
    pub open spec fn key(self) -> Seq<char> {
        match self {
            NfCmdView::Add(_) => "add"@,
            NfCmdView::Replace(_) => "replace"@,
            NfCmdView::Create(_) => "create"@,
            NfCmdView::Insert(_) => "insert"@,
            NfCmdView::Delete(_) => "delete"@,
            NfCmdView::List(_) => "list"@,
            NfCmdView::Flush(_) => "flush"@,
            NfCmdView::Rename(_) => "rename"@,
        }
    }

    /// Whether a key names a kind.
    pub open spec fn knows(k: Seq<char>) -> bool {
        ||| k == "add"@
        ||| k == "replace"@
        ||| k == "create"@
        ||| k == "insert"@
        ||| k == "delete"@
        ||| k == "list"@
        ||| k == "flush"@
        ||| k == "rename"@
    }

    /// What stands under the key on the wire.
    pub open spec fn payload(self) -> JsonView {
        match self {
            NfCmdView::Add(p) => p.to_wire(),
            NfCmdView::Replace(p) => p.to_wire(),
            NfCmdView::Create(p) => p.to_wire(),
            NfCmdView::Insert(p) => p.to_wire(),
            NfCmdView::Delete(p) => p.to_wire(),
            NfCmdView::List(p) => p.to_wire(),
            NfCmdView::Flush(p) => p.to_wire(),
            NfCmdView::Rename(p) => p.to_wire(),
        }
    }

    /// The wire form: an object whose one member is named after the kind.
    pub open spec fn to_wire(self) -> JsonView {
        JsonView::Object(seq![(self.key(), self.payload())])
    }

    /// What the member `k: v` decodes to, where `k` names a kind.
    pub open spec fn from_member(k: Seq<char>, v: JsonView) -> Result<NfCmdView, DecodeErrorView> {
        if k == "add"@ {
            match NfListObjectView::from_wire(v) {
                Ok(x) => Ok(NfCmdView::Add(x)),
                Err(e) => Err(e.under_key(k)),
            }
        } else if k == "replace"@ {
            match RuleView::from_wire(v) {
                Ok(x) => Ok(NfCmdView::Replace(x)),
                Err(e) => Err(e.under_key(k)),
            }
        } else if k == "create"@ {
            match NfListObjectView::from_wire(v) {
                Ok(x) => Ok(NfCmdView::Create(x)),
                Err(e) => Err(e.under_key(k)),
            }
        } else if k == "insert"@ {
            match NfListObjectView::from_wire(v) {
                Ok(x) => Ok(NfCmdView::Insert(x)),
                Err(e) => Err(e.under_key(k)),
            }
        } else if k == "delete"@ {
            match NfListObjectView::from_wire(v) {
                Ok(x) => Ok(NfCmdView::Delete(x)),
                Err(e) => Err(e.under_key(k)),
            }
        } else if k == "list"@ {
            match NfListObjectView::from_wire(v) {
                Ok(x) => Ok(NfCmdView::List(x)),
                Err(e) => Err(e.under_key(k)),
            }
        } else if k == "flush"@ {
            match FlushObjectView::from_wire(v) {
                Ok(x) => Ok(NfCmdView::Flush(x)),
                Err(e) => Err(e.under_key(k)),
            }
        } else if k == "rename"@ {
            match ChainView::from_wire(v) {
                Ok(x) => Ok(NfCmdView::Rename(x)),
                Err(e) => Err(e.under_key(k)),
            }
        } else {
            Err(DecodeErrorView::shape())
        }
    }

    /// What a wire value decodes to: it is an object with exactly one member, whose
    /// key names the kind.
    pub open spec fn from_wire(j: JsonView) -> Result<NfCmdView, DecodeErrorView> {
        match j {
            JsonView::Object(m) => match sole_member(m) {
                Some((k, v)) => Self::from_member(k, v),
                None => Err(DecodeErrorView::shape()),
            },
            _ => Err(DecodeErrorView::shape()),
        }
    }

    /// Whether decoding the wire form gives this value back.
    pub open spec fn canonical(self) -> bool {
        match self {
            NfCmdView::Add(p) => p.canonical(),
            NfCmdView::Replace(p) => p.canonical(),
            NfCmdView::Create(p) => p.canonical(),
            NfCmdView::Insert(p) => p.canonical(),
            NfCmdView::Delete(p) => p.canonical(),
            NfCmdView::List(p) => p.canonical(),
            NfCmdView::Flush(p) => p.canonical(),
            _ => true,
        }
    }

    /// The wire form of a value is never `null`.
    pub proof fn lemma_not_null(self)
        ensures
            !(self.to_wire() is Null),
    {
    }

    /// Where a member whose key names a kind fails to decode, the failure names the
    /// kind: its path begins with that key.
    pub proof fn lemma_failure_names_kind(k: Seq<char>, v: JsonView)
        ensures
            Self::knows(k) ==> (Self::from_member(k, v) matches Err(e) ==> e.path.len() > 0
                && e.path[0] == PathSegmentView::Key(k)),
    {
        broadcast use lemma_under_key_path;
    }

    /// The key of a value names its kind.
    pub proof fn lemma_key(self)
        ensures
            Self::knows(self.key()),
    {
    }

    /// Decoding the wire form of a value gives the value back.
    pub proof fn lemma_round_trip(self)
        requires
            self.canonical(),
        ensures
            Self::from_member(self.key(), self.payload()) matches Ok(v) && v == self,
            Self::from_wire(self.to_wire()) == Ok::<NfCmdView, DecodeErrorView>(self),
    {
        reveal_strlit("add");
        reveal_strlit("replace");
        reveal_strlit("create");
        reveal_strlit("insert");
        reveal_strlit("delete");
        reveal_strlit("list");
        reveal_strlit("flush");
        reveal_strlit("rename");
        assert("add"@.len() == 3);
        assert("replace"@.len() == 7);
        assert("create"@.len() == 6 && "create"@[0] == 'c');
        assert("insert"@.len() == 6 && "insert"@[0] == 'i');
        assert("delete"@.len() == 6 && "delete"@[0] == 'd');
        assert("list"@.len() == 4);
        assert("flush"@.len() == 5);
        assert("rename"@.len() == 6 && "rename"@[0] == 'r');
        match self {
            NfCmdView::Add(p) => {
                p.lemma_round_trip();
            },
            NfCmdView::Replace(p) => {
                p.lemma_round_trip();
            },
            NfCmdView::Create(p) => {
                p.lemma_round_trip();
            },
            NfCmdView::Insert(p) => {
                p.lemma_round_trip();
            },
            NfCmdView::Delete(p) => {
                p.lemma_round_trip();
            },
            NfCmdView::List(p) => {
                p.lemma_round_trip();
            },
            NfCmdView::Flush(p) => {
                p.lemma_round_trip();
            },
            NfCmdView::Rename(p) => {
                p.lemma_round_trip();
            },
        }
    }
}

impl NfCmd {
    /// Encodes the value in its wire form.
    pub fn encode(&self) -> (j: Json)
        ensures
            j.deep_view() == self.deep_view().to_wire(),
    {
        let mut m: Vec<(String, Json)> = Vec::new();
        assert(members_view(m) =~= Seq::empty());
        match self {
            NfCmd::Add(p) => put(&mut m, "add", p.encode()),
            NfCmd::Replace(p) => put(&mut m, "replace", p.encode()),
            NfCmd::Create(p) => put(&mut m, "create", p.encode()),
            NfCmd::Insert(p) => put(&mut m, "insert", p.encode()),
            NfCmd::Delete(p) => put(&mut m, "delete", p.encode()),
            NfCmd::List(p) => put(&mut m, "list", p.encode()),
            NfCmd::Flush(p) => put(&mut m, "flush", p.encode()),
            NfCmd::Rename(p) => put(&mut m, "rename", p.encode()),
        }
        assert(members_view(m) =~= seq![(self.deep_view().key(), self.deep_view().payload())]);
        Json::Object(m)
    }

    /// Whether a key names a kind.
    pub fn knows(k: &str) -> (r: bool)
        ensures
            r == NfCmdView::knows(k@),
    {
        same_text(k, "add")
            || same_text(k, "replace")
            || same_text(k, "create")
            || same_text(k, "insert")
            || same_text(k, "delete")
            || same_text(k, "list")
            || same_text(k, "flush")
            || same_text(k, "rename")
    }

    /// Decodes the member `k: v`.
    pub fn decode_member(k: &str, v: &Json) -> (r: Result<NfCmd, DecodeError>)
        ensures
            decoded(r, NfCmdView::from_member(k@, v.deep_view())),
    {
        if same_text(k, "add") {
            match NfListObject::decode(v) {
                Ok(x) => Ok(NfCmd::Add(x)),
                Err(e) => Err(e.under_key(k)),
            }
        } else if same_text(k, "replace") {
            match Rule::decode(v) {
                Ok(x) => Ok(NfCmd::Replace(x)),
                Err(e) => Err(e.under_key(k)),
            }
        } else if same_text(k, "create") {
            match NfListObject::decode(v) {
                Ok(x) => Ok(NfCmd::Create(x)),
                Err(e) => Err(e.under_key(k)),
            }
        } else if same_text(k, "insert") {
            match NfListObject::decode(v) {
                Ok(x) => Ok(NfCmd::Insert(x)),
                Err(e) => Err(e.under_key(k)),
            }
        } else if same_text(k, "delete") {
            match NfListObject::decode(v) {
                Ok(x) => Ok(NfCmd::Delete(x)),
                Err(e) => Err(e.under_key(k)),
            }
        } else if same_text(k, "list") {
            match NfListObject::decode(v) {
                Ok(x) => Ok(NfCmd::List(x)),
                Err(e) => Err(e.under_key(k)),
            }
        } else if same_text(k, "flush") {
            match FlushObject::decode(v) {
                Ok(x) => Ok(NfCmd::Flush(x)),
                Err(e) => Err(e.under_key(k)),
            }
        } else if same_text(k, "rename") {
            match Chain::decode(v) {
                Ok(x) => Ok(NfCmd::Rename(x)),
                Err(e) => Err(e.under_key(k)),
            }
        } else {
            Err(DecodeError::shape())
        }
    }

    /// Decodes a wire value.
    pub fn decode(j: &Json) -> (r: Result<NfCmd, DecodeError>)
        ensures
            decoded(r, NfCmdView::from_wire(j.deep_view())),
    {
        match j {
            Json::Object(m) => {
                assert(members_view(*m).len() == m.len());
                if m.len() != 1 {
                    return Err(DecodeError::shape());
                }
                Self::decode_member(m[0].0.as_str(), &m[0].1)
            },
            _ => Err(DecodeError::shape()),
        }
    }
}

impl Clone for NfCmd {
    fn clone(&self) -> (r: Self)
        ensures
            r.deep_view() == self.deep_view(),
    {
        match self {
            NfCmd::Add(p) => NfCmd::Add(p.clone()),
            NfCmd::Replace(p) => NfCmd::Replace(p.clone()),
            NfCmd::Create(p) => NfCmd::Create(p.clone()),
            NfCmd::Insert(p) => NfCmd::Insert(p.clone()),
            NfCmd::Delete(p) => NfCmd::Delete(p.clone()),
            NfCmd::List(p) => NfCmd::List(p.clone()),
            NfCmd::Flush(p) => NfCmd::Flush(p.clone()),
            NfCmd::Rename(p) => NfCmd::Rename(p.clone()),
        }
    }
}

/// What a flush command empties.
#[derive(Debug, PartialEq, Eq)]
pub enum FlushObject {
    /// A table, to be emptied of its rules.
    Table(Table),
    /// A chain, to be emptied of its rules.
    Chain(Chain),
    /// A set, to be emptied of its elements.
    SetObject(Box<SetObject>),
    /// A map, to be emptied of its elements.
    MapObject(Box<MapObject>),
    /// A meter, to be emptied of its elements.
    Meter(Meter),
    /// The whole ruleset.
    Ruleset(Option<Ruleset>),
}

/// The mathematical value of a [`FlushObject`].
pub ghost enum FlushObjectView {
    Table(TableView),
    Chain(ChainView),
    SetObject(Box<SetObjectView>),
    MapObject(Box<MapObjectView>),
    Meter(MeterView),
    Ruleset(Option<Ruleset>),
}

impl DeepView for FlushObject {
    type V = FlushObjectView;

    open spec fn deep_view(&self) -> FlushObjectView {
        match self {
            FlushObject::Table(p) => FlushObjectView::Table(p.deep_view()),
            FlushObject::Chain(p) => FlushObjectView::Chain(p.deep_view()),
            FlushObject::SetObject(p) => FlushObjectView::SetObject(Box::new((**p).deep_view())),
            FlushObject::MapObject(p) => FlushObjectView::MapObject(Box::new((**p).deep_view())),
            FlushObject::Meter(p) => FlushObjectView::Meter(p.deep_view()),
            FlushObject::Ruleset(p) => FlushObjectView::Ruleset(
                match p {
                    Some(x) => Some(x.deep_view()),
                    None => None,
                },
            ),
        }
    }
}

impl FlushObjectView {
    /// The key that names each kind on the wire.
    pub open spec fn key(self) -> Seq<char> {
        match self {
            FlushObjectView::Table(_) => "table"@,
            FlushObjectView::Chain(_) => "chain"@,
            FlushObjectView::SetObject(_) => "set"@,
            FlushObjectView::MapObject(_) => "map"@,
            FlushObjectView::Meter(_) => "meter"@,
            FlushObjectView::Ruleset(_) => "ruleset"@,
        }
    }

    /// Whether a key names a kind.
    pub open spec fn knows(k: Seq<char>) -> bool {
        ||| k == "table"@
        ||| k == "chain"@
        ||| k == "set"@
        ||| k == "map"@
        ||| k == "meter"@
        ||| k == "ruleset"@
    }

    /// What stands under the key on the wire.
    pub open spec fn payload(self) -> JsonView {
        match self {
            FlushObjectView::Table(p) => p.to_wire(),
            FlushObjectView::Chain(p) => p.to_wire(),
            FlushObjectView::SetObject(p) => (*p).to_wire(),
            FlushObjectView::MapObject(p) => (*p).to_wire(),
            FlushObjectView::Meter(p) => p.to_wire(),
            FlushObjectView::Ruleset(p) => match p {
                Some(x) => x.to_wire(),
                None => JsonView::Null,
            },
        }
    }

    /// The wire form: an object whose one member is named after the kind.
    pub open spec fn to_wire(self) -> JsonView {
        JsonView::Object(seq![(self.key(), self.payload())])
    }

    /// What the member `k: v` decodes to, where `k` names a kind.
    pub open spec fn from_member(
        k: Seq<char>,
        v: JsonView,
    ) -> Result<FlushObjectView, DecodeErrorView> {
        if k == "table"@ {
            match TableView::from_wire(v) {
                Ok(x) => Ok(FlushObjectView::Table(x)),
                Err(e) => Err(e.under_key(k)),
            }
        } else if k == "chain"@ {
            match ChainView::from_wire(v) {
                Ok(x) => Ok(FlushObjectView::Chain(x)),
                Err(e) => Err(e.under_key(k)),
            }
        } else if k == "set"@ {
            match boxed(SetObjectView::from_wire(v)) {
                Ok(x) => Ok(FlushObjectView::SetObject(x)),
                Err(e) => Err(e.under_key(k)),
            }
        } else if k == "map"@ {
            match boxed(MapObjectView::from_wire(v)) {
                Ok(x) => Ok(FlushObjectView::MapObject(x)),
                Err(e) => Err(e.under_key(k)),
            }
        } else if k == "meter"@ {
            match MeterView::from_wire(v) {
                Ok(x) => Ok(FlushObjectView::Meter(x)),
                Err(e) => Err(e.under_key(k)),
            }
        } else if k == "ruleset"@ {
            match v {
                JsonView::Null => Ok(FlushObjectView::Ruleset(None)),
                _ => match Ruleset::from_wire(v) {
                    Ok(x) => Ok(FlushObjectView::Ruleset(Some(x))),
                    Err(e) => Err(e.under_key(k)),
                },
            }
        } else {
            Err(DecodeErrorView::shape())
        }
    }

    /// What a wire value decodes to: it is an object with exactly one member, whose
    /// key names the kind.
    pub open spec fn from_wire(j: JsonView) -> Result<FlushObjectView, DecodeErrorView> {
        match j {
            JsonView::Object(m) => match sole_member(m) {
                Some((k, v)) => Self::from_member(k, v),
                None => Err(DecodeErrorView::shape()),
            },
            _ => Err(DecodeErrorView::shape()),
        }
    }

    /// Whether decoding the wire form gives this value back.
    pub open spec fn canonical(self) -> bool {
        match self {
            FlushObjectView::SetObject(p) => (*p).canonical(),
            FlushObjectView::MapObject(p) => (*p).canonical(),
            FlushObjectView::Meter(p) => p.canonical(),
            _ => true,
        }
    }

    /// The wire form of a value is never `null`.
    pub proof fn lemma_not_null(self)
        ensures
            !(self.to_wire() is Null),
    {
    }

    /// Where a member whose key names a kind fails to decode, the failure names the
    /// kind: its path begins with that key.
    pub proof fn lemma_failure_names_kind(k: Seq<char>, v: JsonView)
        ensures
            Self::knows(k) ==> (Self::from_member(k, v) matches Err(e) ==> e.path.len() > 0
                && e.path[0] == PathSegmentView::Key(k)),
    {
        broadcast use lemma_under_key_path;
    }

    /// The key of a value names its kind.
    pub proof fn lemma_key(self)
        ensures
            Self::knows(self.key()),
    {
    }

    /// Decoding the wire form of a value gives the value back.
    pub proof fn lemma_round_trip(self)
        requires
            self.canonical(),
        ensures
            Self::from_member(self.key(), self.payload()) matches Ok(v) && v == self,
            Self::from_wire(self.to_wire()) == Ok::<FlushObjectView, DecodeErrorView>(self),
    {
        reveal_strlit("table");
        reveal_strlit("chain");
        reveal_strlit("set");
        reveal_strlit("map");
        reveal_strlit("meter");
        reveal_strlit("ruleset");
        assert("table"@.len() == 5 && "table"@[0] == 't');
        assert("chain"@.len() == 5 && "chain"@[0] == 'c');
        assert("set"@.len() == 3 && "set"@[0] == 's');
        assert("map"@.len() == 3 && "map"@[0] == 'm');
        assert("meter"@.len() == 5 && "meter"@[0] == 'm');
        assert("ruleset"@.len() == 7);
        match self {
            FlushObjectView::Table(p) => {
                p.lemma_round_trip();
            },
            FlushObjectView::Chain(p) => {
                p.lemma_round_trip();
            },
            FlushObjectView::SetObject(p) => {
                (*p).lemma_round_trip();
            },
            FlushObjectView::MapObject(p) => {
                (*p).lemma_round_trip();
            },
            FlushObjectView::Meter(p) => {
                p.lemma_round_trip();
            },
            FlushObjectView::Ruleset(p) => match p {
                Some(x) => {
                    x.lemma_round_trip();
                },
                None => {},
            },
        }
    }
}

impl FlushObject {
    /// Encodes the value in its wire form.
    pub fn encode(&self) -> (j: Json)
        ensures
            j.deep_view() == self.deep_view().to_wire(),
    {
        let mut m: Vec<(String, Json)> = Vec::new();
        assert(members_view(m) =~= Seq::empty());
        match self {
            FlushObject::Table(p) => put(&mut m, "table", p.encode()),
            FlushObject::Chain(p) => put(&mut m, "chain", p.encode()),
            FlushObject::SetObject(p) => put(&mut m, "set", p.encode()),
            FlushObject::MapObject(p) => put(&mut m, "map", p.encode()),
            FlushObject::Meter(p) => put(&mut m, "meter", p.encode()),
            FlushObject::Ruleset(p) => match p {
                Some(x) => put(&mut m, "ruleset", x.encode()),
                None => put(&mut m, "ruleset", Json::Null),
            },
        }
        assert(members_view(m) =~= seq![(self.deep_view().key(), self.deep_view().payload())]);
        Json::Object(m)
    }

    /// Whether a key names a kind.
    pub fn knows(k: &str) -> (r: bool)
        ensures
            r == FlushObjectView::knows(k@),
    {
        same_text(k, "table")
            || same_text(k, "chain")
            || same_text(k, "set")
            || same_text(k, "map")
            || same_text(k, "meter")
            || same_text(k, "ruleset")
    }

    /// Decodes the member `k: v`.
    pub fn decode_member(k: &str, v: &Json) -> (r: Result<FlushObject, DecodeError>)
        ensures
            decoded(r, FlushObjectView::from_member(k@, v.deep_view())),
    {
        if same_text(k, "table") {
            match Table::decode(v) {
                Ok(x) => Ok(FlushObject::Table(x)),
                Err(e) => Err(e.under_key(k)),
            }
        } else if same_text(k, "chain") {
            match Chain::decode(v) {
                Ok(x) => Ok(FlushObject::Chain(x)),
                Err(e) => Err(e.under_key(k)),
            }
        } else if same_text(k, "set") {
            match SetObject::decode(v) {
                Ok(x) => Ok(FlushObject::SetObject(Box::new(x))),
                Err(e) => Err(e.under_key(k)),
            }
        } else if same_text(k, "map") {
            match MapObject::decode(v) {
                Ok(x) => Ok(FlushObject::MapObject(Box::new(x))),
                Err(e) => Err(e.under_key(k)),
            }
        } else if same_text(k, "meter") {
            match Meter::decode(v) {
                Ok(x) => Ok(FlushObject::Meter(x)),
                Err(e) => Err(e.under_key(k)),
            }
        } else if same_text(k, "ruleset") {
            match v {
                Json::Null => Ok(FlushObject::Ruleset(None)),
                _ => match Ruleset::decode(v) {
                    Ok(x) => Ok(FlushObject::Ruleset(Some(x))),
                    Err(e) => Err(e.under_key(k)),
                },
            }
        } else {
            Err(DecodeError::shape())
        }
    }

    /// Decodes a wire value.
    pub fn decode(j: &Json) -> (r: Result<FlushObject, DecodeError>)
        ensures
            decoded(r, FlushObjectView::from_wire(j.deep_view())),
    {
        match j {
            Json::Object(m) => {
                assert(members_view(*m).len() == m.len());
                if m.len() != 1 {
                    return Err(DecodeError::shape());
                }
                Self::decode_member(m[0].0.as_str(), &m[0].1)
            },
            _ => Err(DecodeError::shape()),
        }
    }
}

impl Clone for FlushObject {
    fn clone(&self) -> (r: Self)
        ensures
            r.deep_view() == self.deep_view(),
    {
        match self {
            FlushObject::Table(p) => FlushObject::Table(p.clone()),
            FlushObject::Chain(p) => FlushObject::Chain(p.clone()),
            FlushObject::SetObject(p) => FlushObject::SetObject(Box::new((**p).clone())),
            FlushObject::MapObject(p) => FlushObject::MapObject(Box::new((**p).clone())),
            FlushObject::Meter(p) => FlushObject::Meter(p.clone()),
            FlushObject::Ruleset(p) => FlushObject::Ruleset(
                match p {
                    Some(x) => Some(x.clone()),
                    None => None,
                },
            ),
        }
    }
}

/// No key names both a command and an object of the ruleset.
pub proof fn lemma_kinds_apart(k: Seq<char>)
    ensures
        NfListObjectView::knows(k) ==> !NfCmdView::knows(k),
{
    reveal_strlit("add");
    reveal_strlit("replace");
    reveal_strlit("create");
    reveal_strlit("insert");
    reveal_strlit("delete");
    reveal_strlit("list");
    reveal_strlit("flush");
    reveal_strlit("rename");
    reveal_strlit("table");
    reveal_strlit("chain");
    reveal_strlit("rule");
    reveal_strlit("set");
    reveal_strlit("map");
    reveal_strlit("element");
    reveal_strlit("flowtable");
    reveal_strlit("counter");
    reveal_strlit("quota");
    reveal_strlit("ct helper");
    reveal_strlit("limit");
    reveal_strlit("metainfo");
    reveal_strlit("ct timeout");
    reveal_strlit("ct expectation");
    reveal_strlit("synproxy");
    assert("add"@.len() == 3 && "add"@[0] == 'a');
    assert("replace"@.len() == 7 && "replace"@[0] == 'r');
    assert("create"@.len() == 6 && "create"@[0] == 'c');
    assert("insert"@.len() == 6 && "insert"@[0] == 'i');
    assert("delete"@.len() == 6 && "delete"@[0] == 'd');
    assert("list"@.len() == 4 && "list"@[0] == 'l');
    assert("flush"@.len() == 5 && "flush"@[0] == 'f');
    assert("rename"@.len() == 6 && "rename"@[0] == 'r');
    assert("table"@.len() == 5 && "table"@[0] == 't');
    assert("chain"@.len() == 5 && "chain"@[0] == 'c');
    assert("rule"@.len() == 4 && "rule"@[0] == 'r');
    assert("set"@.len() == 3 && "set"@[0] == 's');
    assert("map"@.len() == 3 && "map"@[0] == 'm');
    assert("element"@.len() == 7 && "element"@[0] == 'e');
    assert("flowtable"@.len() == 9 && "flowtable"@[0] == 'f');
    assert("counter"@.len() == 7 && "counter"@[0] == 'c');
    assert("quota"@.len() == 5 && "quota"@[0] == 'q');
    assert("ct helper"@.len() == 9 && "ct helper"@[0] == 'c');
    assert("limit"@.len() == 5 && "limit"@[0] == 'l');
    assert("metainfo"@.len() == 8 && "metainfo"@[0] == 'm');
    assert("ct timeout"@.len() == 10);
    assert("ct expectation"@.len() == 14);
    assert("synproxy"@.len() == 8 && "synproxy"@[0] == 's');
}

/// A table: it holds chains, sets and the other objects of one family.
#[derive(Debug, PartialEq, Eq)]
pub struct Table {
    /// The family of the table.
    pub family: NfFamily,
    /// The name of the table.
    pub name: String,
    /// The handle of the object in the kernel. It is output only: in input it is ignored, but for
    /// where an object is referred to by it.
    pub handle: Option<u32>,
}

/// The mathematical value of a [`Table`].
pub ghost struct TableView {
    pub family: NfFamily,
    pub name: Seq<char>,
    pub handle: Option<u32>,
}

impl DeepView for Table {
    type V = TableView;

    open spec fn deep_view(&self) -> TableView {
        TableView {
            family: self.family,
            name: self.name@,
            handle: self.handle,
        }
    }
}

impl TableView {
    /// The wire form: an object with one member for each field that has a value.
    pub open spec fn to_wire(self) -> JsonView {
        let m = Seq::empty();
        let m = m.push(("family"@, enc_token(self.family)));
        let m = m.push(("name"@, JsonView::String(self.name)));
        let m = with_opt(
            m,
            "handle"@,
            match self.handle {
                Some(v) => Some(JsonView::Number(v as int)),
                None => None,
            },
        );
        JsonView::Object(m)
    }

    /// What a wire value decodes to: the fields are read by their keys, in the order
    /// in which the type lists them, and the first that fails decides the failure.
    pub open spec fn from_wire(j: JsonView) -> Result<TableView, DecodeErrorView> {
        match j {
            JsonView::Object(m) => {
                let family = match lookup(m, "family"@) {
                    Some(v) => at_key(dec_token::<NfFamily>(v), "family"@),
                    None => Err(DecodeErrorView::missing("family"@)),
                };
                let name = match lookup(m, "name"@) {
                    Some(v) => at_key(dec_string(v), "name"@),
                    None => Err(DecodeErrorView::missing("name"@)),
                };
                let handle = match optional(m, "handle"@) {
                    Some(v) => at_key(some(dec_u32(v)), "handle"@),
                    None => Ok(None),
                };
                if family is Err {
                    Err(family->Err_0)
                } else if name is Err {
                    Err(name->Err_0)
                } else if handle is Err {
                    Err(handle->Err_0)
                } else {
                    Ok(TableView { family: family->Ok_0, name: name->Ok_0, handle: handle->Ok_0 })
                }
            },
            _ => Err(DecodeErrorView::shape()),
        }
    }

    /// What the wire form holds under each key.
    pub proof fn lemma_members(self)
        ensures
            self.to_wire() is Object,
            lookup(self.to_wire()->Object_0, "family"@) == Some(enc_token(self.family)),
            lookup(self.to_wire()->Object_0, "name"@) == Some(JsonView::String(self.name)),
            lookup(self.to_wire()->Object_0, "handle"@) == match self.handle {
                Some(v) => Some(JsonView::Number(v as int)),
                None => None,
            },
    {
        broadcast use {lemma_lookup_push, lemma_lookup_empty, lemma_with_opt};
        reveal_strlit("family");
        reveal_strlit("name");
        reveal_strlit("handle");
        assert("family"@.len() == 6 && "family"@[0] == 'f');
        assert("name"@.len() == 4);
        assert("handle"@.len() == 6 && "handle"@[0] == 'h');
    }

    /// Decoding the wire form of a value gives the value back.
    pub proof fn lemma_round_trip(self)
        ensures
            Self::from_wire(self.to_wire()) == Ok::<TableView, DecodeErrorView>(self),
    {
        self.lemma_members();
        lemma_token_round_trip(self.family);
    }

    /// The order in which the members of an object stand does not matter to what
    /// the object decodes to.
    pub proof fn lemma_member_order(
        a: Seq<(Seq<char>, JsonView)>,
        b: Seq<(Seq<char>, JsonView)>,
    )
        requires
            same_members(a, b),
        ensures
            Self::from_wire(JsonView::Object(a)) == Self::from_wire(JsonView::Object(b)),
    {
        assert(lookup(a, "family"@) == lookup(b, "family"@));
        assert(lookup(a, "name"@) == lookup(b, "name"@));
        assert(lookup(a, "handle"@) == lookup(b, "handle"@));
    }

    /// Where an object fails to decode, the failure names the field that it lies in:
    /// its path begins with the key of one of the fields.
    pub proof fn lemma_failure_names_field(m: Seq<(Seq<char>, JsonView)>)
        ensures
            Self::from_wire(JsonView::Object(m)) matches Err(e) ==> e.path.len() > 0 && {
                ||| e.path[0] == PathSegmentView::Key("family"@)
                ||| e.path[0] == PathSegmentView::Key("name"@)
                ||| e.path[0] == PathSegmentView::Key("handle"@)
            },
    {
        broadcast use lemma_under_key_path;
    }
}

impl Table {
    /// Encodes the value in its wire form.
    pub fn encode(&self) -> (j: Json)
        ensures
            j.deep_view() == self.deep_view().to_wire(),
    {
        let mut m: Vec<(String, Json)> = Vec::new();
        assert(members_view(m) =~= Seq::empty());
        put(&mut m, "family", encode_token(&self.family));
        put(&mut m, "name", Json::String(self.name.clone()));
        match &self.handle {
            Some(v) => put(&mut m, "handle", Json::Number(*v as i128)),
            None => {},
        }
        Json::Object(m)
    }

    /// Decodes a wire value.
    pub fn decode(j: &Json) -> (r: Result<Table, DecodeError>)
        ensures
            decoded(r, TableView::from_wire(j.deep_view())),
    {
        match j {
            Json::Object(m) => {
                let family = match find(m, "family") {
                    Some(v) => match decode_token::<NfFamily>(v) {
                        Ok(x) => x,
                        Err(e) => return Err(e.under_key("family")),
                    },
                    None => return Err(DecodeError::missing("family")),
                };
                let name = match find(m, "name") {
                    Some(v) => match decode_string(v) {
                        Ok(x) => x,
                        Err(e) => return Err(e.under_key("name")),
                    },
                    None => return Err(DecodeError::missing("name")),
                };
                let handle = match present(m, "handle") {
                    Some(v) => match decode_u32(v) {
                        Ok(x) => Some(x),
                        Err(e) => return Err(e.under_key("handle")),
                    },
                    None => None,
                };
                Ok(Table { family, name, handle })
            },
            _ => Err(DecodeError::shape()),
        }
    }
}

impl Clone for Table {
    fn clone(&self) -> (r: Self)
        ensures
            r.deep_view() == self.deep_view(),
    {
        Table {
            family: self.family,
            name: self.name.clone(),
            handle: self.handle,
        }
    }
}

/// The default table: `filter`, of the family `inet`.
impl Default for Table {
    fn default() -> (r: Self)
        ensures
            r.deep_view() == (TableView { family: NfFamily::INet, name: "filter"@, handle: None }),
    {
        Table { family: NfFamily::INet, name: "filter".to_owned(), handle: None }
    }
}

/// A draft of a table.
#[derive(Debug, PartialEq, Eq)]
pub struct TableBuilder {
    pub family: Option<NfFamily>,
    pub name: Option<String>,
    pub handle: Option<u32>,
}

/// The mathematical value of a [`TableBuilder`].
pub ghost struct TableBuilderView {
    pub family: Option<NfFamily>,
    pub name: Option<Seq<char>>,
    pub handle: Option<u32>,
}

impl DeepView for TableBuilder {
    type V = TableBuilderView;

    open spec fn deep_view(&self) -> TableBuilderView {
        TableBuilderView {
            family: self.family,
            name: match self.name {
                Some(x) => Some(x@),
                None => None,
            },
            handle: self.handle,
        }
    }
}

impl TableBuilderView {
    /// What finishing the draft gives: the value, or the name of the first required
    /// field, in the order of the fields, that is not set.
    pub open spec fn finished(self) -> Result<TableView, NftablesErrorView> {
        if self.family is None {
            Err(NftablesErrorView::BuilderError("family"@))
        } else if self.name is None {
            Err(NftablesErrorView::BuilderError("name"@))
        } else {
            Ok(
                TableView {
                    family: self.family->Some_0,
                    name: self.name->Some_0,
                    handle: self.handle,
                },
            )
        }
    }
}

impl TableBuilder {
    /// A draft with no field set.
    pub fn new() -> (b: Self)
        ensures
            b.deep_view() == (TableBuilderView { family: None, name: None, handle: None }),
    {
        TableBuilder { family: None, name: None, handle: None }
    }

    /// Sets the field `family`.
    pub fn family(self, value: NfFamily) -> (b: Self)
        ensures
            b.deep_view() == (TableBuilderView {
                family: Some(value),
                ..self.deep_view()
            }),
    {
        TableBuilder {
            family: Some(value),
            name: self.name,
            handle: self.handle,
        }
    }

    /// Sets the field `name`.
    pub fn name(self, value: String) -> (b: Self)
        ensures
            b.deep_view() == (TableBuilderView {
                name: Some(value@),
                ..self.deep_view()
            }),
    {
        TableBuilder {
            family: self.family,
            name: Some(value),
            handle: self.handle,
        }
    }

    /// Sets the field `handle`.
    pub fn handle(self, value: u32) -> (b: Self)
        ensures
            b.deep_view() == (TableBuilderView {
                handle: Some(value),
                ..self.deep_view()
            }),
    {
        TableBuilder {
            family: self.family,
            name: self.name,
            handle: Some(value),
        }
    }

    /// Finishes the draft: the value, where every required field is set.
    pub fn build(self) -> (r: Result<Table, NftablesError>)
        ensures
            built(r, self.deep_view().finished()),
    {
        let family = match self.family {
            Some(x) => x,
            None => return Err(NftablesError::BuilderError(UninitializedFieldError::new("family"))),
        };
        let name = match self.name {
            Some(x) => x,
            None => return Err(NftablesError::BuilderError(UninitializedFieldError::new("name"))),
        };
        Ok(Table { family, name, handle: self.handle })
    }
}

/// A chain: it holds rules. A base chain is bound to a hook of the network stack; a regular chain
/// is reached by a jump.
#[derive(Debug, PartialEq, Eq)]
pub struct Chain {
    /// The family of the table.
    pub family: NfFamily,
    /// The name of the table.
    pub table: String,
    /// The name of the chain.
    pub name: String,
    /// A new name for the chain, in a rename command only.
    pub newname: Option<String>,
    /// The handle of the object in the kernel. It is output only: in input it is ignored, but for
    /// where an object is referred to by it.
    pub handle: Option<u32>,
    /// The type of the chain; for a base chain.
    pub _type: Option<NfChainType>,
    /// The hook of the chain; for a base chain.
    pub hook: Option<NfHook>,
    /// The priority of the chain among those of its hook; for a base chain.
    pub prio: Option<i32>,
    /// The device of the chain; for a base chain of the netdev family.
    pub dev: Option<String>,
    /// The policy of the chain; for a base chain.
    pub policy: Option<NfChainPolicy>,
}

/// The mathematical value of a [`Chain`].
pub ghost struct ChainView {
    pub family: NfFamily,
    pub table: Seq<char>,
    pub name: Seq<char>,
    pub newname: Option<Seq<char>>,
    pub handle: Option<u32>,
    pub _type: Option<NfChainType>,
    pub hook: Option<NfHook>,
    pub prio: Option<i32>,
    pub dev: Option<Seq<char>>,
    pub policy: Option<NfChainPolicy>,
}

impl DeepView for Chain {
    type V = ChainView;

    open spec fn deep_view(&self) -> ChainView {
        ChainView {
            family: self.family,
            table: self.table@,
            name: self.name@,
            newname: match self.newname {
                Some(x) => Some(x@),
                None => None,
            },
            handle: self.handle,
            _type: self._type,
            hook: self.hook,
            prio: self.prio,
            dev: match self.dev {
                Some(x) => Some(x@),
                None => None,
            },
            policy: self.policy,
        }
    }
}

impl ChainView {
    /// The wire form: an object with one member for each field that has a value.
    pub open spec fn to_wire(self) -> JsonView {
        let m = Seq::empty();
        let m = m.push(("family"@, enc_token(self.family)));
        let m = m.push(("table"@, JsonView::String(self.table)));
        let m = m.push(("name"@, JsonView::String(self.name)));
        let m = with_opt(
            m,
            "newname"@,
            match self.newname {
                Some(v) => Some(JsonView::String(v)),
                None => None,
            },
        );
        let m = with_opt(
            m,
            "handle"@,
            match self.handle {
                Some(v) => Some(JsonView::Number(v as int)),
                None => None,
            },
        );
        let m = with_opt(
            m,
            "type"@,
            match self._type {
                Some(v) => Some(enc_token(v)),
                None => None,
            },
        );
        let m = with_opt(
            m,
            "hook"@,
            match self.hook {
                Some(v) => Some(enc_token(v)),
                None => None,
            },
        );
        let m = with_opt(
            m,
            "prio"@,
            match self.prio {
                Some(v) => Some(JsonView::Number(v as int)),
                None => None,
            },
        );
        let m = with_opt(
            m,
            "dev"@,
            match self.dev {
                Some(v) => Some(JsonView::String(v)),
                None => None,
            },
        );
        let m = with_opt(
            m,
            "policy"@,
            match self.policy {
                Some(v) => Some(enc_token(v)),
                None => None,
            },
        );
        JsonView::Object(m)
    }

    /// What a wire value decodes to: the fields are read by their keys, in the order
    /// in which the type lists them, and the first that fails decides the failure.
    pub open spec fn from_wire(j: JsonView) -> Result<ChainView, DecodeErrorView> {
        match j {
            JsonView::Object(m) => {
                let family = match lookup(m, "family"@) {
                    Some(v) => at_key(dec_token::<NfFamily>(v), "family"@),
                    None => Err(DecodeErrorView::missing("family"@)),
                };
                let table = match lookup(m, "table"@) {
                    Some(v) => at_key(dec_string(v), "table"@),
                    None => Err(DecodeErrorView::missing("table"@)),
                };
                let name = match lookup(m, "name"@) {
                    Some(v) => at_key(dec_string(v), "name"@),
                    None => Err(DecodeErrorView::missing("name"@)),
                };
                let newname = match optional(m, "newname"@) {
                    Some(v) => at_key(some(dec_string(v)), "newname"@),
                    None => Ok(None),
                };
                let handle = match optional(m, "handle"@) {
                    Some(v) => at_key(some(dec_u32(v)), "handle"@),
                    None => Ok(None),
                };
                let _type = match optional(m, "type"@) {
                    Some(v) => at_key(some(dec_token::<NfChainType>(v)), "type"@),
                    None => Ok(None),
                };
                let hook = match optional(m, "hook"@) {
                    Some(v) => at_key(some(dec_token::<NfHook>(v)), "hook"@),
                    None => Ok(None),
                };
                let prio = match optional(m, "prio"@) {
                    Some(v) => at_key(some(dec_i32(v)), "prio"@),
                    None => Ok(None),
                };
                let dev = match optional(m, "dev"@) {
                    Some(v) => at_key(some(dec_string(v)), "dev"@),
                    None => Ok(None),
                };
                let policy = match optional(m, "policy"@) {
                    Some(v) => at_key(some(dec_token::<NfChainPolicy>(v)), "policy"@),
                    None => Ok(None),
                };
                if family is Err {
                    Err(family->Err_0)
                } else if table is Err {
                    Err(table->Err_0)
                } else if name is Err {
                    Err(name->Err_0)
                } else if newname is Err {
                    Err(newname->Err_0)
                } else if handle is Err {
                    Err(handle->Err_0)
                } else if _type is Err {
                    Err(_type->Err_0)
                } else if hook is Err {
                    Err(hook->Err_0)
                } else if prio is Err {
                    Err(prio->Err_0)
                } else if dev is Err {
                    Err(dev->Err_0)
                } else if policy is Err {
                    Err(policy->Err_0)
                } else {
                    Ok(
                        ChainView {
                            family: family->Ok_0,
                            table: table->Ok_0,
                            name: name->Ok_0,
                            newname: newname->Ok_0,
                            handle: handle->Ok_0,
                            _type: _type->Ok_0,
                            hook: hook->Ok_0,
                            prio: prio->Ok_0,
                            dev: dev->Ok_0,
                            policy: policy->Ok_0,
                        },
                    )
                }
            },
            _ => Err(DecodeErrorView::shape()),
        }
    }

    /// The keys of the wire form differ from one another.
    pub proof fn lemma_keys()
        ensures
            "family"@ != "table"@,
            "family"@ != "name"@,
            "family"@ != "newname"@,
            "family"@ != "handle"@,
            "family"@ != "type"@,
            "family"@ != "hook"@,
            "family"@ != "prio"@,
            "family"@ != "dev"@,
            "family"@ != "policy"@,
            "table"@ != "name"@,
            "table"@ != "newname"@,
            "table"@ != "handle"@,
            "table"@ != "type"@,
            "table"@ != "hook"@,
            "table"@ != "prio"@,
            "table"@ != "dev"@,
            "table"@ != "policy"@,
            "name"@ != "newname"@,
            "name"@ != "handle"@,
            "name"@ != "type"@,
            "name"@ != "hook"@,
            "name"@ != "prio"@,
            "name"@ != "dev"@,
            "name"@ != "policy"@,
            "newname"@ != "handle"@,
            "newname"@ != "type"@,
            "newname"@ != "hook"@,
            "newname"@ != "prio"@,
            "newname"@ != "dev"@,
            "newname"@ != "policy"@,
            "handle"@ != "type"@,
            "handle"@ != "hook"@,
            "handle"@ != "prio"@,
            "handle"@ != "dev"@,
            "handle"@ != "policy"@,
            "type"@ != "hook"@,
            "type"@ != "prio"@,
            "type"@ != "dev"@,
            "type"@ != "policy"@,
            "hook"@ != "prio"@,
            "hook"@ != "dev"@,
            "hook"@ != "policy"@,
            "prio"@ != "dev"@,
            "prio"@ != "policy"@,
            "dev"@ != "policy"@,
    {
        reveal_strlit("family");
        reveal_strlit("table");
        reveal_strlit("name");
        reveal_strlit("newname");
        reveal_strlit("handle");
        reveal_strlit("type");
        reveal_strlit("hook");
        reveal_strlit("prio");
        reveal_strlit("dev");
        reveal_strlit("policy");
        assert("family"@.len() == 6 && "family"@[0] == 'f');
        assert("table"@.len() == 5);
        assert("name"@.len() == 4 && "name"@[0] == 'n');
        assert("newname"@.len() == 7);
        assert("handle"@.len() == 6 && "handle"@[0] == 'h');
        assert("type"@.len() == 4 && "type"@[0] == 't');
        assert("hook"@.len() == 4 && "hook"@[0] == 'h');
        assert("prio"@.len() == 4 && "prio"@[0] == 'p');
        assert("dev"@.len() == 3);
        assert("policy"@.len() == 6 && "policy"@[0] == 'p');
    }

    /// What the wire form holds under each key.
    pub proof fn lemma_members(self)
        ensures
            self.to_wire() is Object,
            lookup(self.to_wire()->Object_0, "family"@) == Some(enc_token(self.family)),
            lookup(self.to_wire()->Object_0, "table"@) == Some(JsonView::String(self.table)),
            lookup(self.to_wire()->Object_0, "name"@) == Some(JsonView::String(self.name)),
            lookup(self.to_wire()->Object_0, "newname"@) == match self.newname {
                Some(v) => Some(JsonView::String(v)),
                None => None,
            },
            lookup(self.to_wire()->Object_0, "handle"@) == match self.handle {
                Some(v) => Some(JsonView::Number(v as int)),
                None => None,
            },
            lookup(self.to_wire()->Object_0, "type"@) == match self._type {
                Some(v) => Some(enc_token(v)),
                None => None,
            },
            lookup(self.to_wire()->Object_0, "hook"@) == match self.hook {
                Some(v) => Some(enc_token(v)),
                None => None,
            },
            lookup(self.to_wire()->Object_0, "prio"@) == match self.prio {
                Some(v) => Some(JsonView::Number(v as int)),
                None => None,
            },
            lookup(self.to_wire()->Object_0, "dev"@) == match self.dev {
                Some(v) => Some(JsonView::String(v)),
                None => None,
            },
            lookup(self.to_wire()->Object_0, "policy"@) == match self.policy {
                Some(v) => Some(enc_token(v)),
                None => None,
            },
    {
        Self::lemma_keys();
        assert(lookup(self.to_wire()->Object_0, "family"@) == Some(enc_token(self.family))) by {
            broadcast use {lemma_lookup_push, lemma_lookup_empty, lemma_with_opt};
        }
        assert(
            lookup(self.to_wire()->Object_0, "table"@) == Some(JsonView::String(self.table))
        ) by {
            broadcast use {lemma_lookup_push, lemma_lookup_empty, lemma_with_opt};
        }
        assert(lookup(self.to_wire()->Object_0, "name"@) == Some(JsonView::String(self.name))) by {
            broadcast use {lemma_lookup_push, lemma_lookup_empty, lemma_with_opt};
        }
        assert(lookup(self.to_wire()->Object_0, "newname"@) == match self.newname {
            Some(v) => Some(JsonView::String(v)),
            None => None,
        }) by {
            broadcast use {lemma_lookup_push, lemma_lookup_empty, lemma_with_opt};
        }
        assert(lookup(self.to_wire()->Object_0, "handle"@) == match self.handle {
            Some(v) => Some(JsonView::Number(v as int)),
            None => None,
        }) by {
            broadcast use {lemma_lookup_push, lemma_lookup_empty, lemma_with_opt};
        }
        assert(lookup(self.to_wire()->Object_0, "type"@) == match self._type {
            Some(v) => Some(enc_token(v)),
            None => None,
        }) by {
            broadcast use {lemma_lookup_push, lemma_lookup_empty, lemma_with_opt};
        }
        assert(lookup(self.to_wire()->Object_0, "hook"@) == match self.hook {
            Some(v) => Some(enc_token(v)),
            None => None,
        }) by {
            broadcast use {lemma_lookup_push, lemma_lookup_empty, lemma_with_opt};
        }
        assert(lookup(self.to_wire()->Object_0, "prio"@) == match self.prio {
            Some(v) => Some(JsonView::Number(v as int)),
            None => None,
        }) by {
            broadcast use {lemma_lookup_push, lemma_lookup_empty, lemma_with_opt};
        }
        assert(lookup(self.to_wire()->Object_0, "dev"@) == match self.dev {
            Some(v) => Some(JsonView::String(v)),
            None => None,
        }) by {
            broadcast use {lemma_lookup_push, lemma_lookup_empty, lemma_with_opt};
        }
        assert(lookup(self.to_wire()->Object_0, "policy"@) == match self.policy {
            Some(v) => Some(enc_token(v)),
            None => None,
        }) by {
            broadcast use {lemma_lookup_push, lemma_lookup_empty, lemma_with_opt};
        }
    }

    /// Decoding the wire form of a value gives the value back.
    pub proof fn lemma_round_trip(self)
        ensures
            Self::from_wire(self.to_wire()) == Ok::<ChainView, DecodeErrorView>(self),
    {
        self.lemma_members();
        lemma_token_round_trip(self.family);
        match self._type {
            Some(v) => {
                lemma_token_round_trip(v);
            },
            None => {},
        }
        match self.hook {
            Some(v) => {
                lemma_token_round_trip(v);
            },
            None => {},
        }
        match self.policy {
            Some(v) => {
                lemma_token_round_trip(v);
            },
            None => {},
        }
    }

    /// The order in which the members of an object stand does not matter to what
    /// the object decodes to.
    pub proof fn lemma_member_order(
        a: Seq<(Seq<char>, JsonView)>,
        b: Seq<(Seq<char>, JsonView)>,
    )
        requires
            same_members(a, b),
        ensures
            Self::from_wire(JsonView::Object(a)) == Self::from_wire(JsonView::Object(b)),
    {
        assert(lookup(a, "family"@) == lookup(b, "family"@));
        assert(lookup(a, "table"@) == lookup(b, "table"@));
        assert(lookup(a, "name"@) == lookup(b, "name"@));
        assert(lookup(a, "newname"@) == lookup(b, "newname"@));
        assert(lookup(a, "handle"@) == lookup(b, "handle"@));
        assert(lookup(a, "type"@) == lookup(b, "type"@));
        assert(lookup(a, "hook"@) == lookup(b, "hook"@));
        assert(lookup(a, "prio"@) == lookup(b, "prio"@));
        assert(lookup(a, "dev"@) == lookup(b, "dev"@));
        assert(lookup(a, "policy"@) == lookup(b, "policy"@));
    }

    /// Where an object fails to decode, the failure names the field that it lies in:
    /// its path begins with the key of one of the fields.
    pub proof fn lemma_failure_names_field(m: Seq<(Seq<char>, JsonView)>)
        ensures
            Self::from_wire(JsonView::Object(m)) matches Err(e) ==> e.path.len() > 0 && {
                ||| e.path[0] == PathSegmentView::Key("family"@)
                ||| e.path[0] == PathSegmentView::Key("table"@)
                ||| e.path[0] == PathSegmentView::Key("name"@)
                ||| e.path[0] == PathSegmentView::Key("newname"@)
                ||| e.path[0] == PathSegmentView::Key("handle"@)
                ||| e.path[0] == PathSegmentView::Key("type"@)
                ||| e.path[0] == PathSegmentView::Key("hook"@)
                ||| e.path[0] == PathSegmentView::Key("prio"@)
                ||| e.path[0] == PathSegmentView::Key("dev"@)
                ||| e.path[0] == PathSegmentView::Key("policy"@)
            },
    {
        broadcast use lemma_under_key_path;
    }
}

impl Chain {
    /// Encodes the value in its wire form.
    pub fn encode(&self) -> (j: Json)
        ensures
            j.deep_view() == self.deep_view().to_wire(),
    {
        let mut m: Vec<(String, Json)> = Vec::new();
        assert(members_view(m) =~= Seq::empty());
        put(&mut m, "family", encode_token(&self.family));
        put(&mut m, "table", Json::String(self.table.clone()));
        put(&mut m, "name", Json::String(self.name.clone()));
        match &self.newname {
            Some(v) => put(&mut m, "newname", Json::String(v.clone())),
            None => {},
        }
        match &self.handle {
            Some(v) => put(&mut m, "handle", Json::Number(*v as i128)),
            None => {},
        }
        match &self._type {
            Some(v) => put(&mut m, "type", encode_token(v)),
            None => {},
        }
        match &self.hook {
            Some(v) => put(&mut m, "hook", encode_token(v)),
            None => {},
        }
        match &self.prio {
            Some(v) => put(&mut m, "prio", Json::Number(*v as i128)),
            None => {},
        }
        match &self.dev {
            Some(v) => put(&mut m, "dev", Json::String(v.clone())),
            None => {},
        }
        match &self.policy {
            Some(v) => put(&mut m, "policy", encode_token(v)),
            None => {},
        }
        Json::Object(m)
    }

    /// Decodes a wire value.
    pub fn decode(j: &Json) -> (r: Result<Chain, DecodeError>)
        ensures
            decoded(r, ChainView::from_wire(j.deep_view())),
    {
        match j {
            Json::Object(m) => {
                let family = match find(m, "family") {
                    Some(v) => match decode_token::<NfFamily>(v) {
                        Ok(x) => x,
                        Err(e) => return Err(e.under_key("family")),
                    },
                    None => return Err(DecodeError::missing("family")),
                };
                let table = match find(m, "table") {
                    Some(v) => match decode_string(v) {
                        Ok(x) => x,
                        Err(e) => return Err(e.under_key("table")),
                    },
                    None => return Err(DecodeError::missing("table")),
                };
                let name = match find(m, "name") {
                    Some(v) => match decode_string(v) {
                        Ok(x) => x,
                        Err(e) => return Err(e.under_key("name")),
                    },
                    None => return Err(DecodeError::missing("name")),
                };
                let newname = match present(m, "newname") {
                    Some(v) => match decode_string(v) {
                        Ok(x) => Some(x),
                        Err(e) => return Err(e.under_key("newname")),
                    },
                    None => None,
                };
                let handle = match present(m, "handle") {
                    Some(v) => match decode_u32(v) {
                        Ok(x) => Some(x),
                        Err(e) => return Err(e.under_key("handle")),
                    },
                    None => None,
                };
                let _type = match present(m, "type") {
                    Some(v) => match decode_token::<NfChainType>(v) {
                        Ok(x) => Some(x),
                        Err(e) => return Err(e.under_key("type")),
                    },
                    None => None,
                };
                let hook = match present(m, "hook") {
                    Some(v) => match decode_token::<NfHook>(v) {
                        Ok(x) => Some(x),
                        Err(e) => return Err(e.under_key("hook")),
                    },
                    None => None,
                };
                let prio = match present(m, "prio") {
                    Some(v) => match decode_i32(v) {
                        Ok(x) => Some(x),
                        Err(e) => return Err(e.under_key("prio")),
                    },
                    None => None,
                };
                let dev = match present(m, "dev") {
                    Some(v) => match decode_string(v) {
                        Ok(x) => Some(x),
                        Err(e) => return Err(e.under_key("dev")),
                    },
                    None => None,
                };
                let policy = match present(m, "policy") {
                    Some(v) => match decode_token::<NfChainPolicy>(v) {
                        Ok(x) => Some(x),
                        Err(e) => return Err(e.under_key("policy")),
                    },
                    None => None,
                };
                Ok(Chain { family, table, name, newname, handle, _type, hook, prio, dev, policy })
            },
            _ => Err(DecodeError::shape()),
        }
    }
}

impl Clone for Chain {
    fn clone(&self) -> (r: Self)
        ensures
            r.deep_view() == self.deep_view(),
    {
        Chain {
            family: self.family,
            table: self.table.clone(),
            name: self.name.clone(),
            newname: match &self.newname {
                Some(x) => Some(x.clone()),
                None => None,
            },
            handle: self.handle,
            _type: self._type,
            hook: self.hook,
            prio: self.prio,
            dev: match &self.dev {
                Some(x) => Some(x.clone()),
                None => None,
            },
            policy: self.policy,
        }
    }
}

/// The default chain: `forward`, in the default table.
impl Default for Chain {
    fn default() -> (r: Self)
        ensures
            r.deep_view() == (
                ChainView {
                    family: NfFamily::INet,
                    table: "filter"@,
                    name: "forward"@,
                    newname: None,
                    handle: None,
                    _type: None,
                    hook: None,
                    prio: None,
                    dev: None,
                    policy: None,
                }
            ),
    {
        Chain {
            family: NfFamily::INet,
            table: "filter".to_owned(),
            name: "forward".to_owned(),
            newname: None,
            handle: None,
            _type: None,
            hook: None,
            prio: None,
            dev: None,
            policy: None,
        }
    }
}

/// A draft of a chain.
#[derive(Debug, PartialEq, Eq)]
pub struct ChainBuilder {
    pub family: Option<NfFamily>,
    pub table: Option<String>,
    pub name: Option<String>,
    pub newname: Option<String>,
    pub handle: Option<u32>,
    pub _type: Option<NfChainType>,
    pub hook: Option<NfHook>,
    pub prio: Option<i32>,
    pub dev: Option<String>,
    pub policy: Option<NfChainPolicy>,
}

/// The mathematical value of a [`ChainBuilder`].
pub ghost struct ChainBuilderView {
    pub family: Option<NfFamily>,
    pub table: Option<Seq<char>>,
    pub name: Option<Seq<char>>,
    pub newname: Option<Seq<char>>,
    pub handle: Option<u32>,
    pub _type: Option<NfChainType>,
    pub hook: Option<NfHook>,
    pub prio: Option<i32>,
    pub dev: Option<Seq<char>>,
    pub policy: Option<NfChainPolicy>,
}

impl DeepView for ChainBuilder {
    type V = ChainBuilderView;

    open spec fn deep_view(&self) -> ChainBuilderView {
        ChainBuilderView {
            family: self.family,
            table: match self.table {
                Some(x) => Some(x@),
                None => None,
            },
            name: match self.name {
                Some(x) => Some(x@),
                None => None,
            },
            newname: match self.newname {
                Some(x) => Some(x@),
                None => None,
            },
            handle: self.handle,
            _type: self._type,
            hook: self.hook,
            prio: self.prio,
            dev: match self.dev {
                Some(x) => Some(x@),
                None => None,
            },
            policy: self.policy,
        }
    }
}

impl ChainBuilderView {
    /// What finishing the draft gives: the value, or the name of the first required
    /// field, in the order of the fields, that is not set.
    pub open spec fn finished(self) -> Result<ChainView, NftablesErrorView> {
        if self.family is None {
            Err(NftablesErrorView::BuilderError("family"@))
        } else if self.table is None {
            Err(NftablesErrorView::BuilderError("table"@))
        } else if self.name is None {
            Err(NftablesErrorView::BuilderError("name"@))
        } else {
            Ok(
                ChainView {
                    family: self.family->Some_0,
                    table: self.table->Some_0,
                    name: self.name->Some_0,
                    newname: self.newname,
                    handle: self.handle,
                    _type: self._type,
                    hook: self.hook,
                    prio: self.prio,
                    dev: self.dev,
                    policy: self.policy,
                },
            )
        }
    }
}

impl ChainBuilder {
    /// A draft with no field set.
    pub fn new() -> (b: Self)
        ensures
            b.deep_view() == (
                ChainBuilderView {
                    family: None,
                    table: None,
                    name: None,
                    newname: None,
                    handle: None,
                    _type: None,
                    hook: None,
                    prio: None,
                    dev: None,
                    policy: None,
                }
            ),
    {
        ChainBuilder {
            family: None,
            table: None,
            name: None,
            newname: None,
            handle: None,
            _type: None,
            hook: None,
            prio: None,
            dev: None,
            policy: None,
        }
    }

    /// Sets the field `family`.
    pub fn family(self, value: NfFamily) -> (b: Self)
        ensures
            b.deep_view() == (ChainBuilderView {
                family: Some(value),
                ..self.deep_view()
            }),
    {
        ChainBuilder {
            family: Some(value),
            table: self.table,
            name: self.name,
            newname: self.newname,
            handle: self.handle,
            _type: self._type,
            hook: self.hook,
            prio: self.prio,
            dev: self.dev,
            policy: self.policy,
        }
    }

    /// Sets the field `table`.
    pub fn table(self, value: String) -> (b: Self)
        ensures
            b.deep_view() == (ChainBuilderView {
                table: Some(value@),
                ..self.deep_view()
            }),
    {
        ChainBuilder {
            family: self.family,
            table: Some(value),
            name: self.name,
            newname: self.newname,
            handle: self.handle,
            _type: self._type,
            hook: self.hook,
            prio: self.prio,
            dev: self.dev,
            policy: self.policy,
        }
    }

    /// Sets the field `name`.
    pub fn name(self, value: String) -> (b: Self)
        ensures
            b.deep_view() == (ChainBuilderView {
                name: Some(value@),
                ..self.deep_view()
            }),
    {
        ChainBuilder {
            family: self.family,
            table: self.table,
            name: Some(value),
            newname: self.newname,
            handle: self.handle,
            _type: self._type,
            hook: self.hook,
            prio: self.prio,
            dev: self.dev,
            policy: self.policy,
        }
    }

    /// Sets the field `newname`.
    pub fn newname(self, value: String) -> (b: Self)
        ensures
            b.deep_view() == (ChainBuilderView {
                newname: Some(value@),
                ..self.deep_view()
            }),
    {
        ChainBuilder {
            family: self.family,
            table: self.table,
            name: self.name,
            newname: Some(value),
            handle: self.handle,
            _type: self._type,
            hook: self.hook,
            prio: self.prio,
            dev: self.dev,
            policy: self.policy,
        }
    }

    /// Sets the field `handle`.
    pub fn handle(self, value: u32) -> (b: Self)
        ensures
            b.deep_view() == (ChainBuilderView {
                handle: Some(value),
                ..self.deep_view()
            }),
    {
        ChainBuilder {
            family: self.family,
            table: self.table,
            name: self.name,
            newname: self.newname,
            handle: Some(value),
            _type: self._type,
            hook: self.hook,
            prio: self.prio,
            dev: self.dev,
            policy: self.policy,
        }
    }

    /// Sets the field `_type`.
    pub fn _type(self, value: NfChainType) -> (b: Self)
        ensures
            b.deep_view() == (ChainBuilderView {
                _type: Some(value),
                ..self.deep_view()
            }),
    {
        ChainBuilder {
            family: self.family,
            table: self.table,
            name: self.name,
            newname: self.newname,
            handle: self.handle,
            _type: Some(value),
            hook: self.hook,
            prio: self.prio,
            dev: self.dev,
            policy: self.policy,
        }
    }

    /// Sets the field `hook`.
    pub fn hook(self, value: NfHook) -> (b: Self)
        ensures
            b.deep_view() == (ChainBuilderView {
                hook: Some(value),
                ..self.deep_view()
            }),
    {
        ChainBuilder {
            family: self.family,
            table: self.table,
            name: self.name,
            newname: self.newname,
            handle: self.handle,
            _type: self._type,
            hook: Some(value),
            prio: self.prio,
            dev: self.dev,
            policy: self.policy,
        }
    }

    /// Sets the field `prio`.
    pub fn prio(self, value: i32) -> (b: Self)
        ensures
            b.deep_view() == (ChainBuilderView {
                prio: Some(value),
                ..self.deep_view()
            }),
    {
        ChainBuilder {
            family: self.family,
            table: self.table,
            name: self.name,
            newname: self.newname,
            handle: self.handle,
            _type: self._type,
            hook: self.hook,
            prio: Some(value),
            dev: self.dev,
            policy: self.policy,
        }
    }

    /// Sets the field `dev`.
    pub fn dev(self, value: String) -> (b: Self)
        ensures
            b.deep_view() == (ChainBuilderView {
                dev: Some(value@),
                ..self.deep_view()
            }),
    {
        ChainBuilder {
            family: self.family,
            table: self.table,
            name: self.name,
            newname: self.newname,
            handle: self.handle,
            _type: self._type,
            hook: self.hook,
            prio: self.prio,
            dev: Some(value),
            policy: self.policy,
        }
    }

    /// Sets the field `policy`.
    pub fn policy(self, value: NfChainPolicy) -> (b: Self)
        ensures
            b.deep_view() == (ChainBuilderView {
                policy: Some(value),
                ..self.deep_view()
            }),
    {
        ChainBuilder {
            family: self.family,
            table: self.table,
            name: self.name,
            newname: self.newname,
            handle: self.handle,
            _type: self._type,
            hook: self.hook,
            prio: self.prio,
            dev: self.dev,
            policy: Some(value),
        }
    }

    /// Finishes the draft: the value, where every required field is set.
    pub fn build(self) -> (r: Result<Chain, NftablesError>)
        ensures
            built(r, self.deep_view().finished()),
    {
        let family = match self.family {
            Some(x) => x,
            None => return Err(NftablesError::BuilderError(UninitializedFieldError::new("family"))),
        };
        let table = match self.table {
            Some(x) => x,
            None => return Err(NftablesError::BuilderError(UninitializedFieldError::new("table"))),
        };
        let name = match self.name {
            Some(x) => x,
            None => return Err(NftablesError::BuilderError(UninitializedFieldError::new("name"))),
        };
        Ok(
            Chain {
                family,
                table,
                name,
                newname: self.newname,
                handle: self.handle,
                _type: self._type,
                hook: self.hook,
                prio: self.prio,
                dev: self.dev,
                policy: self.policy,
            },
        )
    }
}

/// A rule: the statements that are applied, in their order, to the packets that reach it.
#[derive(Debug, PartialEq, Eq)]
pub struct Rule {
    /// The family of the table.
    pub family: NfFamily,
    /// The name of the table.
    pub table: String,
    /// The name of the chain.
    pub chain: String,
    /// The statements of the rule, in the order in which they are applied.
    pub expr: Vec<Statement>,
    /// The handle of the object in the kernel. It is output only: in input it is ignored, but for
    /// where an object is referred to by it.
    pub handle: Option<u32>,
    /// The place of the rule in its chain, for an add or insert command.
    pub index: Option<u32>,
    /// A comment on the rule.
    pub comment: Option<String>,
}

/// The mathematical value of a [`Rule`].
pub ghost struct RuleView {
    pub family: NfFamily,
    pub table: Seq<char>,
    pub chain: Seq<char>,
    pub expr: Seq<StatementView>,
    pub handle: Option<u32>,
    pub index: Option<u32>,
    pub comment: Option<Seq<char>>,
}

impl DeepView for Rule {
    type V = RuleView;

    open spec fn deep_view(&self) -> RuleView {
        RuleView {
            family: self.family,
            table: self.table@,
            chain: self.chain@,
            expr: statements_view(self.expr@),
            handle: self.handle,
            index: self.index,
            comment: match self.comment {
                Some(x) => Some(x@),
                None => None,
            },
        }
    }
}

impl RuleView {
    /// The wire form: an object with one member for each field that has a value.
    pub open spec fn to_wire(self) -> JsonView {
        let m = Seq::empty();
        let m = m.push(("family"@, enc_token(self.family)));
        let m = m.push(("table"@, JsonView::String(self.table)));
        let m = m.push(("chain"@, JsonView::String(self.chain)));
        let m = m.push(("expr"@, JsonView::Array(enc_statements(self.expr))));
        let m = with_opt(
            m,
            "handle"@,
            match self.handle {
                Some(v) => Some(JsonView::Number(v as int)),
                None => None,
            },
        );
        let m = with_opt(
            m,
            "index"@,
            match self.index {
                Some(v) => Some(JsonView::Number(v as int)),
                None => None,
            },
        );
        let m = with_opt(
            m,
            "comment"@,
            match self.comment {
                Some(v) => Some(JsonView::String(v)),
                None => None,
            },
        );
        JsonView::Object(m)
    }

    /// What a wire value decodes to: the fields are read by their keys, in the order
    /// in which the type lists them, and the first that fails decides the failure.
    pub open spec fn from_wire(j: JsonView) -> Result<RuleView, DecodeErrorView> {
        match j {
            JsonView::Object(m) => {
                let family = match lookup(m, "family"@) {
                    Some(v) => at_key(dec_token::<NfFamily>(v), "family"@),
                    None => Err(DecodeErrorView::missing("family"@)),
                };
                let table = match lookup(m, "table"@) {
                    Some(v) => at_key(dec_string(v), "table"@),
                    None => Err(DecodeErrorView::missing("table"@)),
                };
                let chain = match lookup(m, "chain"@) {
                    Some(v) => at_key(dec_string(v), "chain"@),
                    None => Err(DecodeErrorView::missing("chain"@)),
                };
                let expr = match lookup(m, "expr"@) {
                    Some(v) => at_key(dec_statement_list(v), "expr"@),
                    None => Err(DecodeErrorView::missing("expr"@)),
                };
                let handle = match optional(m, "handle"@) {
                    Some(v) => at_key(some(dec_u32(v)), "handle"@),
                    None => Ok(None),
                };
                let index = match optional(m, "index"@) {
                    Some(v) => at_key(some(dec_u32(v)), "index"@),
                    None => Ok(None),
                };
                let comment = match optional(m, "comment"@) {
                    Some(v) => at_key(some(dec_string(v)), "comment"@),
                    None => Ok(None),
                };
                if family is Err {
                    Err(family->Err_0)
                } else if table is Err {
                    Err(table->Err_0)
                } else if chain is Err {
                    Err(chain->Err_0)
                } else if expr is Err {
                    Err(expr->Err_0)
                } else if handle is Err {
                    Err(handle->Err_0)
                } else if index is Err {
                    Err(index->Err_0)
                } else if comment is Err {
                    Err(comment->Err_0)
                } else {
                    Ok(
                        RuleView {
                            family: family->Ok_0,
                            table: table->Ok_0,
                            chain: chain->Ok_0,
                            expr: expr->Ok_0,
                            handle: handle->Ok_0,
                            index: index->Ok_0,
                            comment: comment->Ok_0,
                        },
                    )
                }
            },
            _ => Err(DecodeErrorView::shape()),
        }
    }

    /// Whether decoding the wire form gives this value back.
    pub open spec fn canonical(self) -> bool {
        &&& statements_canonical(self.expr)
    }

    /// The keys of the wire form differ from one another.
    pub proof fn lemma_keys()
        ensures
            "family"@ != "table"@,
            "family"@ != "chain"@,
            "family"@ != "expr"@,
            "family"@ != "handle"@,
            "family"@ != "index"@,
            "family"@ != "comment"@,
            "table"@ != "chain"@,
            "table"@ != "expr"@,
            "table"@ != "handle"@,
            "table"@ != "index"@,
            "table"@ != "comment"@,
            "chain"@ != "expr"@,
            "chain"@ != "handle"@,
            "chain"@ != "index"@,
            "chain"@ != "comment"@,
            "expr"@ != "handle"@,
            "expr"@ != "index"@,
            "expr"@ != "comment"@,
            "handle"@ != "index"@,
            "handle"@ != "comment"@,
            "index"@ != "comment"@,
    {
        reveal_strlit("family");
        reveal_strlit("table");
        reveal_strlit("chain");
        reveal_strlit("expr");
        reveal_strlit("handle");
        reveal_strlit("index");
        reveal_strlit("comment");
        assert("family"@.len() == 6 && "family"@[0] == 'f');
        assert("table"@.len() == 5 && "table"@[0] == 't');
        assert("chain"@.len() == 5 && "chain"@[0] == 'c');
        assert("expr"@.len() == 4);
        assert("handle"@.len() == 6 && "handle"@[0] == 'h');
        assert("index"@.len() == 5 && "index"@[0] == 'i');
        assert("comment"@.len() == 7);
    }

    /// What the wire form holds under each key.
    pub proof fn lemma_members(self)
        ensures
            self.to_wire() is Object,
            lookup(self.to_wire()->Object_0, "family"@) == Some(enc_token(self.family)),
            lookup(self.to_wire()->Object_0, "table"@) == Some(JsonView::String(self.table)),
            lookup(self.to_wire()->Object_0, "chain"@) == Some(JsonView::String(self.chain)),
            lookup(self.to_wire()->Object_0, "expr"@) == Some(
                JsonView::Array(enc_statements(self.expr)),
            ),
            lookup(self.to_wire()->Object_0, "handle"@) == match self.handle {
                Some(v) => Some(JsonView::Number(v as int)),
                None => None,
            },
            lookup(self.to_wire()->Object_0, "index"@) == match self.index {
                Some(v) => Some(JsonView::Number(v as int)),
                None => None,
            },
            lookup(self.to_wire()->Object_0, "comment"@) == match self.comment {
                Some(v) => Some(JsonView::String(v)),
                None => None,
            },
    {
        Self::lemma_keys();
        assert(lookup(self.to_wire()->Object_0, "family"@) == Some(enc_token(self.family))) by {
            broadcast use {lemma_lookup_push, lemma_lookup_empty, lemma_with_opt};
        }
        assert(
            lookup(self.to_wire()->Object_0, "table"@) == Some(JsonView::String(self.table))
        ) by {
            broadcast use {lemma_lookup_push, lemma_lookup_empty, lemma_with_opt};
        }
        assert(
            lookup(self.to_wire()->Object_0, "chain"@) == Some(JsonView::String(self.chain))
        ) by {
            broadcast use {lemma_lookup_push, lemma_lookup_empty, lemma_with_opt};
        }
        assert(
            lookup(self.to_wire()->Object_0, "expr"@) == Some(
                JsonView::Array(enc_statements(self.expr)),
            )
        ) by {
            broadcast use {lemma_lookup_push, lemma_lookup_empty, lemma_with_opt};
        }
        assert(lookup(self.to_wire()->Object_0, "handle"@) == match self.handle {
            Some(v) => Some(JsonView::Number(v as int)),
            None => None,
        }) by {
            broadcast use {lemma_lookup_push, lemma_lookup_empty, lemma_with_opt};
        }
        assert(lookup(self.to_wire()->Object_0, "index"@) == match self.index {
            Some(v) => Some(JsonView::Number(v as int)),
            None => None,
        }) by {
            broadcast use {lemma_lookup_push, lemma_lookup_empty, lemma_with_opt};
        }
        assert(lookup(self.to_wire()->Object_0, "comment"@) == match self.comment {
            Some(v) => Some(JsonView::String(v)),
            None => None,
        }) by {
            broadcast use {lemma_lookup_push, lemma_lookup_empty, lemma_with_opt};
        }
    }

    /// Decoding the wire form of a value gives the value back.
    pub proof fn lemma_round_trip(self)
        requires
            self.canonical(),
        ensures
            Self::from_wire(self.to_wire()) == Ok::<RuleView, DecodeErrorView>(self),
    {
        self.lemma_members();
        lemma_token_round_trip(self.family);
        lemma_statements_round_trip(self.expr);
    }

    /// The order in which the members of an object stand does not matter to what
    /// the object decodes to.
    pub proof fn lemma_member_order(
        a: Seq<(Seq<char>, JsonView)>,
        b: Seq<(Seq<char>, JsonView)>,
    )
        requires
            same_members(a, b),
        ensures
            Self::from_wire(JsonView::Object(a)) == Self::from_wire(JsonView::Object(b)),
    {
        assert(lookup(a, "family"@) == lookup(b, "family"@));
        assert(lookup(a, "table"@) == lookup(b, "table"@));
        assert(lookup(a, "chain"@) == lookup(b, "chain"@));
        assert(lookup(a, "expr"@) == lookup(b, "expr"@));
        assert(lookup(a, "handle"@) == lookup(b, "handle"@));
        assert(lookup(a, "index"@) == lookup(b, "index"@));
        assert(lookup(a, "comment"@) == lookup(b, "comment"@));
    }

    /// Where an object fails to decode, the failure names the field that it lies in:
    /// its path begins with the key of one of the fields.
    pub proof fn lemma_failure_names_field(m: Seq<(Seq<char>, JsonView)>)
        ensures
            Self::from_wire(JsonView::Object(m)) matches Err(e) ==> e.path.len() > 0 && {
                ||| e.path[0] == PathSegmentView::Key("family"@)
                ||| e.path[0] == PathSegmentView::Key("table"@)
                ||| e.path[0] == PathSegmentView::Key("chain"@)
                ||| e.path[0] == PathSegmentView::Key("expr"@)
                ||| e.path[0] == PathSegmentView::Key("handle"@)
                ||| e.path[0] == PathSegmentView::Key("index"@)
                ||| e.path[0] == PathSegmentView::Key("comment"@)
            },
    {
        broadcast use lemma_under_key_path;
    }
}

impl Rule {
    /// Encodes the value in its wire form.
    pub fn encode(&self) -> (j: Json)
        ensures
            j.deep_view() == self.deep_view().to_wire(),
    {
        let mut m: Vec<(String, Json)> = Vec::new();
        assert(members_view(m) =~= Seq::empty());
        put(&mut m, "family", encode_token(&self.family));
        put(&mut m, "table", Json::String(self.table.clone()));
        put(&mut m, "chain", Json::String(self.chain.clone()));
        put(&mut m, "expr", Json::Array(encode_statements(&self.expr)));
        match &self.handle {
            Some(v) => put(&mut m, "handle", Json::Number(*v as i128)),
            None => {},
        }
        match &self.index {
            Some(v) => put(&mut m, "index", Json::Number(*v as i128)),
            None => {},
        }
        match &self.comment {
            Some(v) => put(&mut m, "comment", Json::String(v.clone())),
            None => {},
        }
        Json::Object(m)
    }

    /// Decodes a wire value.
    pub fn decode(j: &Json) -> (r: Result<Rule, DecodeError>)
        ensures
            decoded(r, RuleView::from_wire(j.deep_view())),
    {
        match j {
            Json::Object(m) => {
                let family = match find(m, "family") {
                    Some(v) => match decode_token::<NfFamily>(v) {
                        Ok(x) => x,
                        Err(e) => return Err(e.under_key("family")),
                    },
                    None => return Err(DecodeError::missing("family")),
                };
                let table = match find(m, "table") {
                    Some(v) => match decode_string(v) {
                        Ok(x) => x,
                        Err(e) => return Err(e.under_key("table")),
                    },
                    None => return Err(DecodeError::missing("table")),
                };
                let chain = match find(m, "chain") {
                    Some(v) => match decode_string(v) {
                        Ok(x) => x,
                        Err(e) => return Err(e.under_key("chain")),
                    },
                    None => return Err(DecodeError::missing("chain")),
                };
                let expr = match find(m, "expr") {
                    Some(v) => match decode_statement_list(v) {
                        Ok(x) => x,
                        Err(e) => return Err(e.under_key("expr")),
                    },
                    None => return Err(DecodeError::missing("expr")),
                };
                let handle = match present(m, "handle") {
                    Some(v) => match decode_u32(v) {
                        Ok(x) => Some(x),
                        Err(e) => return Err(e.under_key("handle")),
                    },
                    None => None,
                };
                let index = match present(m, "index") {
                    Some(v) => match decode_u32(v) {
                        Ok(x) => Some(x),
                        Err(e) => return Err(e.under_key("index")),
                    },
                    None => None,
                };
                let comment = match present(m, "comment") {
                    Some(v) => match decode_string(v) {
                        Ok(x) => Some(x),
                        Err(e) => return Err(e.under_key("comment")),
                    },
                    None => None,
                };
                Ok(Rule { family, table, chain, expr, handle, index, comment })
            },
            _ => Err(DecodeError::shape()),
        }
    }
}

impl Clone for Rule {
    fn clone(&self) -> (r: Self)
        ensures
            r.deep_view() == self.deep_view(),
    {
        Rule {
            family: self.family,
            table: self.table.clone(),
            chain: self.chain.clone(),
            expr: clone_statements((&self.expr)),
            handle: self.handle,
            index: self.index,
            comment: match &self.comment {
                Some(x) => Some(x.clone()),
                None => None,
            },
        }
    }
}

/// The default rule: without statements, in the default chain of the default table.
impl Default for Rule {
    fn default() -> (r: Self)
        ensures
            r.deep_view() == (RuleView {
                family: NfFamily::INet,
                table: "filter"@,
                chain: "forward"@,
                expr: Seq::empty(),
                handle: None,
                index: None,
                comment: None,
            }),
    {
        let expr: Vec<Statement> = Vec::new();
        assert(statements_view(expr@) == Seq::<StatementView>::empty());
        Rule {
            family: NfFamily::INet,
            table: "filter".to_owned(),
            chain: "forward".to_owned(),
            expr,
            handle: None,
            index: None,
            comment: None,
        }
    }
}

/// A draft of a rule.
#[derive(Debug, PartialEq, Eq)]
pub struct RuleBuilder {
    pub family: Option<NfFamily>,
    pub table: Option<String>,
    pub chain: Option<String>,
    pub expr: Option<Vec<Statement>>,
    pub handle: Option<u32>,
    pub index: Option<u32>,
    pub comment: Option<String>,
}

/// The mathematical value of a [`RuleBuilder`].
pub ghost struct RuleBuilderView {
    pub family: Option<NfFamily>,
    pub table: Option<Seq<char>>,
    pub chain: Option<Seq<char>>,
    pub expr: Option<Seq<StatementView>>,
    pub handle: Option<u32>,
    pub index: Option<u32>,
    pub comment: Option<Seq<char>>,
}

impl DeepView for RuleBuilder {
    type V = RuleBuilderView;

    open spec fn deep_view(&self) -> RuleBuilderView {
        RuleBuilderView {
            family: self.family,
            table: match self.table {
                Some(x) => Some(x@),
                None => None,
            },
            chain: match self.chain {
                Some(x) => Some(x@),
                None => None,
            },
            expr: match self.expr {
                Some(x) => Some(statements_view(x@)),
                None => None,
            },
            handle: self.handle,
            index: self.index,
            comment: match self.comment {
                Some(x) => Some(x@),
                None => None,
            },
        }
    }
}

impl RuleBuilderView {
    /// What finishing the draft gives: the value, or the name of the first required
    /// field, in the order of the fields, that is not set.
    pub open spec fn finished(self) -> Result<RuleView, NftablesErrorView> {
        if self.family is None {
            Err(NftablesErrorView::BuilderError("family"@))
        } else if self.table is None {
            Err(NftablesErrorView::BuilderError("table"@))
        } else if self.chain is None {
            Err(NftablesErrorView::BuilderError("chain"@))
        } else if self.expr is None {
            Err(NftablesErrorView::BuilderError("expr"@))
        } else {
            Ok(
                RuleView {
                    family: self.family->Some_0,
                    table: self.table->Some_0,
                    chain: self.chain->Some_0,
                    expr: self.expr->Some_0,
                    handle: self.handle,
                    index: self.index,
                    comment: self.comment,
                },
            )
        }
    }
}

impl RuleBuilder {
    /// A draft with no field set.
    pub fn new() -> (b: Self)
        ensures
            b.deep_view() == (
                RuleBuilderView {
                    family: None,
                    table: None,
                    chain: None,
                    expr: None,
                    handle: None,
                    index: None,
                    comment: None,
                }
            ),
    {
        RuleBuilder {
            family: None,
            table: None,
            chain: None,
            expr: None,
            handle: None,
            index: None,
            comment: None,
        }
    }

    /// Sets the field `family`.
    pub fn family(self, value: NfFamily) -> (b: Self)
        ensures
            b.deep_view() == (RuleBuilderView {
                family: Some(value),
                ..self.deep_view()
            }),
    {
        RuleBuilder {
            family: Some(value),
            table: self.table,
            chain: self.chain,
            expr: self.expr,
            handle: self.handle,
            index: self.index,
            comment: self.comment,
        }
    }

    /// Sets the field `table`.
    pub fn table(self, value: String) -> (b: Self)
        ensures
            b.deep_view() == (RuleBuilderView {
                table: Some(value@),
                ..self.deep_view()
            }),
    {
        RuleBuilder {
            family: self.family,
            table: Some(value),
            chain: self.chain,
            expr: self.expr,
            handle: self.handle,
            index: self.index,
            comment: self.comment,
        }
    }

    /// Sets the field `chain`.
    pub fn chain(self, value: String) -> (b: Self)
        ensures
            b.deep_view() == (RuleBuilderView {
                chain: Some(value@),
                ..self.deep_view()
            }),
    {
        RuleBuilder {
            family: self.family,
            table: self.table,
            chain: Some(value),
            expr: self.expr,
            handle: self.handle,
            index: self.index,
            comment: self.comment,
        }
    }

    /// Sets the field `expr`.
    pub fn expr(self, value: Vec<Statement>) -> (b: Self)
        ensures
            b.deep_view() == (RuleBuilderView {
                expr: Some(statements_view(value@)),
                ..self.deep_view()
            }),
    {
        RuleBuilder {
            family: self.family,
            table: self.table,
            chain: self.chain,
            expr: Some(value),
            handle: self.handle,
            index: self.index,
            comment: self.comment,
        }
    }

    /// Sets the field `handle`.
    pub fn handle(self, value: u32) -> (b: Self)
        ensures
            b.deep_view() == (RuleBuilderView {
                handle: Some(value),
                ..self.deep_view()
            }),
    {
        RuleBuilder {
            family: self.family,
            table: self.table,
            chain: self.chain,
            expr: self.expr,
            handle: Some(value),
            index: self.index,
            comment: self.comment,
        }
    }

    /// Sets the field `index`.
    pub fn index(self, value: u32) -> (b: Self)
        ensures
            b.deep_view() == (RuleBuilderView {
                index: Some(value),
                ..self.deep_view()
            }),
    {
        RuleBuilder {
            family: self.family,
            table: self.table,
            chain: self.chain,
            expr: self.expr,
            handle: self.handle,
            index: Some(value),
            comment: self.comment,
        }
    }

    /// Sets the field `comment`.
    pub fn comment(self, value: String) -> (b: Self)
        ensures
            b.deep_view() == (RuleBuilderView {
                comment: Some(value@),
                ..self.deep_view()
            }),
    {
        RuleBuilder {
            family: self.family,
            table: self.table,
            chain: self.chain,
            expr: self.expr,
            handle: self.handle,
            index: self.index,
            comment: Some(value),
        }
    }

    /// Finishes the draft: the value, where every required field is set.
    pub fn build(self) -> (r: Result<Rule, NftablesError>)
        ensures
            built(r, self.deep_view().finished()),
    {
        let family = match self.family {
            Some(x) => x,
            None => return Err(NftablesError::BuilderError(UninitializedFieldError::new("family"))),
        };
        let table = match self.table {
            Some(x) => x,
            None => return Err(NftablesError::BuilderError(UninitializedFieldError::new("table"))),
        };
        let chain = match self.chain {
            Some(x) => x,
            None => return Err(NftablesError::BuilderError(UninitializedFieldError::new("chain"))),
        };
        let expr = match self.expr {
            Some(x) => x,
            None => return Err(NftablesError::BuilderError(UninitializedFieldError::new("expr"))),
        };
        Ok(
            Rule {
                family,
                table,
                chain,
                expr,
                handle: self.handle,
                index: self.index,
                comment: self.comment,
            },
        )
    }
}

/// The type of the elements of a set.
#[derive(Debug, Clone, Copy, PartialEq, Eq, Hash)]
pub enum SetType {
    /// An IPv4 address.
    Ipv4Addr,
    /// An IPv6 address.
    Ipv6Addr,
    /// An Ethernet address.
    EtherAddr,
    /// An internet protocol.
    InetProto,
    /// An internet service, that is, a port.
    InetService,
    /// A packet mark.
    Mark,
    /// The name of a network interface.
    Ifname,
}

impl Token for SetType {
    open spec fn text(self) -> Seq<char> {
        match self {
            SetType::Ipv4Addr => "ipv4_addr"@,
            SetType::Ipv6Addr => "ipv6_addr"@,
            SetType::EtherAddr => "ether_addr"@,
            SetType::InetProto => "inet_proto"@,
            SetType::InetService => "inet_service"@,
            SetType::Mark => "mark"@,
            SetType::Ifname => "ifname"@,
        }
    }

    open spec fn from_text(s: Seq<char>) -> Option<Self> {
        if s == "ipv4_addr"@ {
            Some(SetType::Ipv4Addr)
        } else if s == "ipv6_addr"@ {
            Some(SetType::Ipv6Addr)
        } else if s == "ether_addr"@ {
            Some(SetType::EtherAddr)
        } else if s == "inet_proto"@ {
            Some(SetType::InetProto)
        } else if s == "inet_service"@ {
            Some(SetType::InetService)
        } else if s == "mark"@ {
            Some(SetType::Mark)
        } else if s == "ifname"@ {
            Some(SetType::Ifname)
        } else {
            None
        }
    }

    proof fn lemma_text(self) {
        reveal_strlit("ipv4_addr");
        reveal_strlit("ipv6_addr");
        reveal_strlit("ether_addr");
        reveal_strlit("inet_proto");
        reveal_strlit("inet_service");
        reveal_strlit("mark");
        reveal_strlit("ifname");
        assert("ipv4_addr"@.len() == 9 && "ipv4_addr"@[3] == '4');
        assert("ipv6_addr"@.len() == 9 && "ipv6_addr"@[3] == '6');
        assert("ether_addr"@.len() == 10 && "ether_addr"@[0] == 'e');
        assert("inet_proto"@.len() == 10 && "inet_proto"@[0] == 'i');
        assert("inet_service"@.len() == 12);
        assert("mark"@.len() == 4);
        assert("ifname"@.len() == 6);
    }

    proof fn lemma_from_text(s: Seq<char>) {
    }

    fn as_str(&self) -> (s: &'static str) {
        match self {
            SetType::Ipv4Addr => "ipv4_addr",
            SetType::Ipv6Addr => "ipv6_addr",
            SetType::EtherAddr => "ether_addr",
            SetType::InetProto => "inet_proto",
            SetType::InetService => "inet_service",
            SetType::Mark => "mark",
            SetType::Ifname => "ifname",
        }
    }

    fn parse(s: &str) -> (r: Option<Self>) {
        if same_text(s, "ipv4_addr") {
            Some(SetType::Ipv4Addr)
        } else if same_text(s, "ipv6_addr") {
            Some(SetType::Ipv6Addr)
        } else if same_text(s, "ether_addr") {
            Some(SetType::EtherAddr)
        } else if same_text(s, "inet_proto") {
            Some(SetType::InetProto)
        } else if same_text(s, "inet_service") {
            Some(SetType::InetService)
        } else if same_text(s, "mark") {
            Some(SetType::Mark)
        } else if same_text(s, "ifname") {
            Some(SetType::Ifname)
        } else {
            None
        }
    }
}

/// The type of the elements of a set: one type, or several in concatenation.
#[derive(Debug, PartialEq, Eq)]
pub enum SetTypeValue {
    /// A single type.
    Single(SetType),
    /// Several types, concatenated.
    Concatenated(Vec<SetType>),
}

/// The mathematical value of a [`SetTypeValue`].
pub ghost enum SetTypeValueView {
    Single(SetType),
    Concatenated(Seq<SetType>),
}

impl DeepView for SetTypeValue {
    type V = SetTypeValueView;

    open spec fn deep_view(&self) -> SetTypeValueView {
        match self {
            SetTypeValue::Single(t) => SetTypeValueView::Single(*t),
            SetTypeValue::Concatenated(ts) => SetTypeValueView::Concatenated(ts@),
        }
    }
}

/// What a list of wire values decodes to where types are expected.
pub open spec fn dec_set_types(items: Seq<JsonView>) -> Result<Seq<SetType>, DecodeErrorView>
    decreases items.len(),
{
    if items.len() == 0 {
        Ok(Seq::empty())
    } else {
        match dec_set_types(items.drop_last()) {
            Ok(vs) => match dec_token::<SetType>(items.last()) {
                Ok(v) => Ok(vs.push(v)),
                Err(e) => Err(e.under_index(items.len() - 1)),
            },
            Err(e) => Err(e),
        }
    }
}

/// A list that failed to decode up to some item fails as a whole in the same way.
pub proof fn lemma_dec_set_types_fails(items: Seq<JsonView>, i: int)
    requires
        0 <= i < items.len(),
        dec_set_types(items.take(i + 1)) is Err,
    ensures
        dec_set_types(items) == dec_set_types(items.take(i + 1)),
    decreases items.len(),
{
    if i + 1 < items.len() {
        assert(items.drop_last().take(i + 1) =~= items.take(i + 1));
        lemma_dec_set_types_fails(items.drop_last(), i);
    } else {
        assert(items.take(i + 1) =~= items);
    }
}

impl SetTypeValueView {
    /// The wire form: a single type is its name, several are the array of their names.
    pub open spec fn to_wire(self) -> JsonView {
        match self {
            SetTypeValueView::Single(t) => enc_token(t),
            SetTypeValueView::Concatenated(ts) => JsonView::Array(
                Seq::new(ts.len(), |i: int| enc_token(ts[i])),
            ),
        }
    }

    /// What a wire value decodes to: a string is a single type, an array the types that
    /// its items name.
    pub open spec fn from_wire(j: JsonView) -> Result<SetTypeValueView, DecodeErrorView> {
        match j {
            JsonView::String(_) => match dec_token::<SetType>(j) {
                Ok(t) => Ok(SetTypeValueView::Single(t)),
                Err(e) => Err(e),
            },
            JsonView::Array(items) => match dec_set_types(items) {
                Ok(ts) => Ok(SetTypeValueView::Concatenated(ts)),
                Err(e) => Err(e),
            },
            _ => Err(DecodeErrorView::shape()),
        }
    }

    proof fn lemma_types_round_trip(ts: Seq<SetType>)
        ensures
            dec_set_types(Seq::new(ts.len(), |i: int| enc_token(ts[i]))) == Ok::<
                Seq<SetType>,
                DecodeErrorView,
            >(ts),
        decreases ts.len(),
    {
        let items = Seq::new(ts.len(), |i: int| enc_token(ts[i]));
        if ts.len() > 0 {
            Self::lemma_types_round_trip(ts.drop_last());
            assert(items.drop_last() =~= Seq::new(
                ts.drop_last().len(),
                |i: int| enc_token(ts.drop_last()[i]),
            ));
            lemma_token_round_trip(ts.last());
            assert(ts.drop_last().push(ts.last()) =~= ts);
        } else {
            assert(ts =~= Seq::empty());
        }
    }

    /// Decoding the wire form of a value gives the value back.
    pub proof fn lemma_round_trip(self)
        ensures
            Self::from_wire(self.to_wire()) == Ok::<SetTypeValueView, DecodeErrorView>(self),
    {
        match self {
            SetTypeValueView::Single(t) => {
                lemma_token_round_trip(t);
            },
            SetTypeValueView::Concatenated(ts) => {
                Self::lemma_types_round_trip(ts);
            },
        }
    }
}

impl Clone for SetTypeValue {
    fn clone(&self) -> (r: Self)
        ensures
            r.deep_view() == self.deep_view(),
    {
        match self {
            SetTypeValue::Single(t) => SetTypeValue::Single(*t),
            SetTypeValue::Concatenated(ts) => {
                let mut out: Vec<SetType> = Vec::new();
                let mut i: usize = 0;
                while i < ts.len()
                    invariant
                        i <= ts.len(),
                        out@ == ts@.take(i as int),
                    decreases ts.len() - i,
                {
                    out.push(ts[i]);
                    assert(out@ =~= ts@.take(i + 1));
                    i += 1;
                }
                assert(ts@.take(i as int) =~= ts@);
                SetTypeValue::Concatenated(out)
            },
        }
    }
}

impl SetTypeValue {
    /// Encodes the value in its wire form.
    pub fn encode(&self) -> (j: Json)
        ensures
            j.deep_view() == self.deep_view().to_wire(),
    {
        match self {
            SetTypeValue::Single(t) => encode_token(t),
            SetTypeValue::Concatenated(ts) => {
                let mut out: Vec<Json> = Vec::new();
                let mut i: usize = 0;
                while i < ts.len()
                    invariant
                        i <= ts.len(),
                        out.len() == i,
                        forall|k: int| 0 <= k < i ==> out[k].deep_view() == enc_token(ts[k]),
                    decreases ts.len() - i,
                {
                    out.push(encode_token(&ts[i]));
                    i += 1;
                }
                assert(items_view(out) =~= Seq::new(ts@.len(), |i: int| enc_token(ts@[i])));
                Json::Array(out)
            },
        }
    }

    /// Decodes a wire value by its shape.
    pub fn decode(j: &Json) -> (r: Result<SetTypeValue, DecodeError>)
        ensures
            decoded(r, SetTypeValueView::from_wire(j.deep_view())),
    {
        match j {
            Json::String(_) => match decode_token::<SetType>(j) {
                Ok(t) => Ok(SetTypeValue::Single(t)),
                Err(e) => Err(e),
            },
            Json::Array(items) => {
                let mut out: Vec<SetType> = Vec::new();
                let ghost view = items_view(*items);
                assert(view.take(0) =~= Seq::empty());
                let mut i: usize = 0;
                while i < items.len()
                    invariant
                        i <= items.len(),
                        view == items_view(*items),
                        j.deep_view() == JsonView::Array(view),
                        dec_set_types(view.take(i as int)) == Ok::<Seq<SetType>, DecodeErrorView>(
                            out@,
                        ),
                    decreases items.len() - i,
                {
                    proof {
                        assert(view.take(i + 1).drop_last() =~= view.take(i as int));
                        assert(view.take(i + 1).last() == items[i as int].deep_view());
                    }
                    match decode_token::<SetType>(&items[i]) {
                        Ok(t) => {
                            out.push(t);
                        },
                        Err(e) => {
                            proof {
                                lemma_dec_set_types_fails(view, i as int);
                            }
                            return Err(e.under_index(i));
                        },
                    }
                    i += 1;
                }
                assert(view.take(i as int) =~= view);
                Ok(SetTypeValue::Concatenated(out))
            },
            _ => Err(DecodeError::shape()),
        }
    }
}

/// How a set is laid out in memory.
#[derive(Debug, Clone, Copy, PartialEq, Eq, Hash)]
pub enum SetPolicy {
    /// For speed.
    Performance,
    /// For a small size.
    Memory,
}

impl Token for SetPolicy {
    open spec fn text(self) -> Seq<char> {
        match self {
            SetPolicy::Performance => "performance"@,
            SetPolicy::Memory => "memory"@,
        }
    }

    open spec fn from_text(s: Seq<char>) -> Option<Self> {
        if s == "performance"@ {
            Some(SetPolicy::Performance)
        } else if s == "memory"@ {
            Some(SetPolicy::Memory)
        } else {
            None
        }
    }

    proof fn lemma_text(self) {
        reveal_strlit("performance");
        reveal_strlit("memory");
        assert("performance"@.len() == 11);
        assert("memory"@.len() == 6);
    }

    proof fn lemma_from_text(s: Seq<char>) {
    }

    fn as_str(&self) -> (s: &'static str) {
        match self {
            SetPolicy::Performance => "performance",
            SetPolicy::Memory => "memory",
        }
    }

    fn parse(s: &str) -> (r: Option<Self>) {
        if same_text(s, "performance") {
            Some(SetPolicy::Performance)
        } else if same_text(s, "memory") {
            Some(SetPolicy::Memory)
        } else {
            None
        }
    }
}

/// An option of a set.
#[derive(Debug, Clone, Copy, PartialEq, Eq, Hash)]
pub enum SetFlag {
    /// The set cannot be changed once it is bound to a rule.
    Constant,
    /// The set holds intervals.
    Interval,
    /// The elements of the set expire.
    Timeout,
    /// The set is filled from rules.
    Dynamic,
}

impl Token for SetFlag {
    open spec fn text(self) -> Seq<char> {
        match self {
            SetFlag::Constant => "constant"@,
            SetFlag::Interval => "interval"@,
            SetFlag::Timeout => "timeout"@,
            SetFlag::Dynamic => "dynamic"@,
        }
    }

    open spec fn from_text(s: Seq<char>) -> Option<Self> {
        if s == "constant"@ {
            Some(SetFlag::Constant)
        } else if s == "interval"@ {
            Some(SetFlag::Interval)
        } else if s == "timeout"@ {
            Some(SetFlag::Timeout)
        } else if s == "dynamic"@ {
            Some(SetFlag::Dynamic)
        } else {
            None
        }
    }

    proof fn lemma_text(self) {
        reveal_strlit("constant");
        reveal_strlit("interval");
        reveal_strlit("timeout");
        reveal_strlit("dynamic");
        assert("constant"@.len() == 8 && "constant"@[0] == 'c');
        assert("interval"@.len() == 8 && "interval"@[0] == 'i');
        assert("timeout"@.len() == 7 && "timeout"@[0] == 't');
        assert("dynamic"@.len() == 7 && "dynamic"@[0] == 'd');
    }

    proof fn lemma_from_text(s: Seq<char>) {
    }

    fn as_str(&self) -> (s: &'static str) {
        match self {
            SetFlag::Constant => "constant",
            SetFlag::Interval => "interval",
            SetFlag::Timeout => "timeout",
            SetFlag::Dynamic => "dynamic",
        }
    }

    fn parse(s: &str) -> (r: Option<Self>) {
        if same_text(s, "constant") {
            Some(SetFlag::Constant)
        } else if same_text(s, "interval") {
            Some(SetFlag::Interval)
        } else if same_text(s, "timeout") {
            Some(SetFlag::Timeout)
        } else if same_text(s, "dynamic") {
            Some(SetFlag::Dynamic)
        } else {
            None
        }
    }
}

impl Flag for SetFlag {
    open spec fn count() -> nat {
        4
    }

    open spec fn index(self) -> nat {
        match self {
            SetFlag::Constant => 0,
            SetFlag::Interval => 1,
            SetFlag::Timeout => 2,
            SetFlag::Dynamic => 3,
        }
    }

    open spec fn at(i: nat) -> Self {
        if i == 0 {
            SetFlag::Constant
        } else if i == 1 {
            SetFlag::Interval
        } else if i == 2 {
            SetFlag::Timeout
        } else {
            SetFlag::Dynamic
        }
    }

    proof fn lemma_index(self) {
    }

    proof fn lemma_at(i: nat) {
    }

    fn size() -> (n: usize) {
        4
    }

    fn ordinal(&self) -> (i: usize) {
        match self {
            SetFlag::Constant => 0,
            SetFlag::Interval => 1,
            SetFlag::Timeout => 2,
            SetFlag::Dynamic => 3,
        }
    }

    fn nth(i: usize) -> (t: Self) {
        if i == 0 {
            SetFlag::Constant
        } else if i == 1 {
            SetFlag::Interval
        } else if i == 2 {
            SetFlag::Timeout
        } else {
            SetFlag::Dynamic
        }
    }
}

/// An operation on a set or a flow table from within a rule.
#[derive(Debug, Clone, Copy, PartialEq, Eq, Hash)]
pub enum SetOp {
    /// Add to the set.
    Add,
    /// Update the set.
    Update,
}

impl Token for SetOp {
    open spec fn text(self) -> Seq<char> {
        match self {
            SetOp::Add => "add"@,
            SetOp::Update => "update"@,
        }
    }

    open spec fn from_text(s: Seq<char>) -> Option<Self> {
        if s == "add"@ {
            Some(SetOp::Add)
        } else if s == "update"@ {
            Some(SetOp::Update)
        } else {
            None
        }
    }

    proof fn lemma_text(self) {
        reveal_strlit("add");
        reveal_strlit("update");
        assert("add"@.len() == 3);
        assert("update"@.len() == 6);
    }

    proof fn lemma_from_text(s: Seq<char>) {
    }

    fn as_str(&self) -> (s: &'static str) {
        match self {
            SetOp::Add => "add",
            SetOp::Update => "update",
        }
    }

    fn parse(s: &str) -> (r: Option<Self>) {
        if same_text(s, "add") {
            Some(SetOp::Add)
        } else if same_text(s, "update") {
            Some(SetOp::Update)
        } else {
            None
        }
    }
}

/// A named set.
#[derive(Debug, PartialEq, Eq)]
pub struct SetObject {
    /// The family of the table.
    pub family: NfFamily,
    /// The name of the table.
    pub table: String,
    /// The name of the set.
    pub name: String,
    /// The handle of the object in the kernel. It is output only: in input it is ignored, but for
    /// where an object is referred to by it.
    pub handle: Option<u32>,
    /// The type of the elements.
    pub set_type: SetTypeValue,
    /// The policy of the set.
    pub policy: Option<SetPolicy>,
    /// The options of the set.
    pub flags: Option<FlagSet<SetFlag>>,
    /// The elements to begin with.
    pub elem: Option<Vec<Expression>>,
    /// The time, in seconds, after which an element expires.
    pub timeout: Option<u32>,
    /// The interval, in seconds, at which expired elements are collected.
    pub gc_interval: Option<u32>,
    /// The most elements that the set can hold.
    pub size: Option<u32>,
    /// A comment on the set.
    pub comment: Option<String>,
}

/// The mathematical value of a [`SetObject`].
pub ghost struct SetObjectView {
    pub family: NfFamily,
    pub table: Seq<char>,
    pub name: Seq<char>,
    pub handle: Option<u32>,
    pub set_type: SetTypeValueView,
    pub policy: Option<SetPolicy>,
    pub flags: Option<Set<SetFlag>>,
    pub elem: Option<Seq<ExpressionView>>,
    pub timeout: Option<u32>,
    pub gc_interval: Option<u32>,
    pub size: Option<u32>,
    pub comment: Option<Seq<char>>,
}

impl DeepView for SetObject {
    type V = SetObjectView;

    open spec fn deep_view(&self) -> SetObjectView {
        SetObjectView {
            family: self.family,
            table: self.table@,
            name: self.name@,
            handle: self.handle,
            set_type: self.set_type.deep_view(),
            policy: self.policy,
            flags: match self.flags {
                Some(x) => Some(x.deep_view()),
                None => None,
            },
            elem: match self.elem {
                Some(x) => Some(expressions_view(x@)),
                None => None,
            },
            timeout: self.timeout,
            gc_interval: self.gc_interval,
            size: self.size,
            comment: match self.comment {
                Some(x) => Some(x@),
                None => None,
            },
        }
    }
}

impl SetObjectView {
    /// The wire form: an object with one member for each field that has a value.
    pub open spec fn to_wire(self) -> JsonView {
        let m = Seq::empty();
        let m = m.push(("family"@, enc_token(self.family)));
        let m = m.push(("table"@, JsonView::String(self.table)));
        let m = m.push(("name"@, JsonView::String(self.name)));
        let m = with_opt(
            m,
            "handle"@,
            match self.handle {
                Some(v) => Some(JsonView::Number(v as int)),
                None => None,
            },
        );
        let m = m.push(("type"@, self.set_type.to_wire()));
        let m = with_opt(
            m,
            "policy"@,
            match self.policy {
                Some(v) => Some(enc_token(v)),
                None => None,
            },
        );
        let m = with_opt(
            m,
            "flags"@,
            match self.flags {
                Some(v) => Some(enc_flags(v)),
                None => None,
            },
        );
        let m = with_opt(
            m,
            "elem"@,
            match self.elem {
                Some(v) => Some(JsonView::Array(enc_expressions(v))),
                None => None,
            },
        );
        let m = with_opt(
            m,
            "timeout"@,
            match self.timeout {
                Some(v) => Some(JsonView::Number(v as int)),
                None => None,
            },
        );
        let m = with_opt(
            m,
            "gc-interval"@,
            match self.gc_interval {
                Some(v) => Some(JsonView::Number(v as int)),
                None => None,
            },
        );
        let m = with_opt(
            m,
            "size"@,
            match self.size {
                Some(v) => Some(JsonView::Number(v as int)),
                None => None,
            },
        );
        let m = with_opt(
            m,
            "comment"@,
            match self.comment {
                Some(v) => Some(JsonView::String(v)),
                None => None,
            },
        );
        JsonView::Object(m)
    }

    /// What a wire value decodes to: the fields are read by their keys, in the order
    /// in which the type lists them, and the first that fails decides the failure.
    pub open spec fn from_wire(j: JsonView) -> Result<SetObjectView, DecodeErrorView> {
        match j {
            JsonView::Object(m) => {
                let family = match lookup(m, "family"@) {
                    Some(v) => at_key(dec_token::<NfFamily>(v), "family"@),
                    None => Err(DecodeErrorView::missing("family"@)),
                };
                let table = match lookup(m, "table"@) {
                    Some(v) => at_key(dec_string(v), "table"@),
                    None => Err(DecodeErrorView::missing("table"@)),
                };
                let name = match lookup(m, "name"@) {
                    Some(v) => at_key(dec_string(v), "name"@),
                    None => Err(DecodeErrorView::missing("name"@)),
                };
                let handle = match optional(m, "handle"@) {
                    Some(v) => at_key(some(dec_u32(v)), "handle"@),
                    None => Ok(None),
                };
                let set_type = match lookup(m, "type"@) {
                    Some(v) => at_key(SetTypeValueView::from_wire(v), "type"@),
                    None => Err(DecodeErrorView::missing("type"@)),
                };
                let policy = match optional(m, "policy"@) {
                    Some(v) => at_key(some(dec_token::<SetPolicy>(v)), "policy"@),
                    None => Ok(None),
                };
                let flags = match optional(m, "flags"@) {
                    Some(v) => at_key(some(dec_flags::<SetFlag>(v)), "flags"@),
                    None => Ok(None),
                };
                let elem = match optional(m, "elem"@) {
                    Some(v) => at_key(some(dec_expression_list(v)), "elem"@),
                    None => Ok(None),
                };
                let timeout = match optional(m, "timeout"@) {
                    Some(v) => at_key(some(dec_u32(v)), "timeout"@),
                    None => Ok(None),
                };
                let gc_interval = match optional(m, "gc-interval"@) {
                    Some(v) => at_key(some(dec_u32(v)), "gc-interval"@),
                    None => Ok(None),
                };
                let size = match optional(m, "size"@) {
                    Some(v) => at_key(some(dec_u32(v)), "size"@),
                    None => Ok(None),
                };
                let comment = match optional(m, "comment"@) {
                    Some(v) => at_key(some(dec_string(v)), "comment"@),
                    None => Ok(None),
                };
                if family is Err {
                    Err(family->Err_0)
                } else if table is Err {
                    Err(table->Err_0)
                } else if name is Err {
                    Err(name->Err_0)
                } else if handle is Err {
                    Err(handle->Err_0)
                } else if set_type is Err {
                    Err(set_type->Err_0)
                } else if policy is Err {
                    Err(policy->Err_0)
                } else if flags is Err {
                    Err(flags->Err_0)
                } else if elem is Err {
                    Err(elem->Err_0)
                } else if timeout is Err {
                    Err(timeout->Err_0)
                } else if gc_interval is Err {
                    Err(gc_interval->Err_0)
                } else if size is Err {
                    Err(size->Err_0)
                } else if comment is Err {
                    Err(comment->Err_0)
                } else {
                    Ok(
                        SetObjectView {
                            family: family->Ok_0,
                            table: table->Ok_0,
                            name: name->Ok_0,
                            handle: handle->Ok_0,
                            set_type: set_type->Ok_0,
                            policy: policy->Ok_0,
                            flags: flags->Ok_0,
                            elem: elem->Ok_0,
                            timeout: timeout->Ok_0,
                            gc_interval: gc_interval->Ok_0,
                            size: size->Ok_0,
                            comment: comment->Ok_0,
                        },
                    )
                }
            },
            _ => Err(DecodeErrorView::shape()),
        }
    }

    /// Whether decoding the wire form gives this value back.
    pub open spec fn canonical(self) -> bool {
        &&& (self.elem matches Some(v) ==> expressions_canonical(v))
    }

    /// The keys of the wire form differ from one another.
    pub proof fn lemma_keys()
        ensures
            "family"@ != "table"@,
            "family"@ != "name"@,
            "family"@ != "handle"@,
            "family"@ != "type"@,
            "family"@ != "policy"@,
            "family"@ != "flags"@,
            "family"@ != "elem"@,
            "family"@ != "timeout"@,
            "family"@ != "gc-interval"@,
            "family"@ != "size"@,
            "family"@ != "comment"@,
            "table"@ != "name"@,
            "table"@ != "handle"@,
            "table"@ != "type"@,
            "table"@ != "policy"@,
            "table"@ != "flags"@,
            "table"@ != "elem"@,
            "table"@ != "timeout"@,
            "table"@ != "gc-interval"@,
            "table"@ != "size"@,
            "table"@ != "comment"@,
            "name"@ != "handle"@,
            "name"@ != "type"@,
            "name"@ != "policy"@,
            "name"@ != "flags"@,
            "name"@ != "elem"@,
            "name"@ != "timeout"@,
            "name"@ != "gc-interval"@,
            "name"@ != "size"@,
            "name"@ != "comment"@,
            "handle"@ != "type"@,
            "handle"@ != "policy"@,
            "handle"@ != "flags"@,
            "handle"@ != "elem"@,
            "handle"@ != "timeout"@,
            "handle"@ != "gc-interval"@,
            "handle"@ != "size"@,
            "handle"@ != "comment"@,
            "type"@ != "policy"@,
            "type"@ != "flags"@,
            "type"@ != "elem"@,
            "type"@ != "timeout"@,
            "type"@ != "gc-interval"@,
            "type"@ != "size"@,
            "type"@ != "comment"@,
            "policy"@ != "flags"@,
            "policy"@ != "elem"@,
            "policy"@ != "timeout"@,
            "policy"@ != "gc-interval"@,
            "policy"@ != "size"@,
            "policy"@ != "comment"@,
            "flags"@ != "elem"@,
            "flags"@ != "timeout"@,
            "flags"@ != "gc-interval"@,
            "flags"@ != "size"@,
            "flags"@ != "comment"@,
            "elem"@ != "timeout"@,
            "elem"@ != "gc-interval"@,
            "elem"@ != "size"@,
            "elem"@ != "comment"@,
            "timeout"@ != "gc-interval"@,
            "timeout"@ != "size"@,
            "timeout"@ != "comment"@,
            "gc-interval"@ != "size"@,
            "gc-interval"@ != "comment"@,
            "size"@ != "comment"@,
    {
        reveal_strlit("family");
        reveal_strlit("table");
        reveal_strlit("name");
        reveal_strlit("handle");
        reveal_strlit("type");
        reveal_strlit("policy");
        reveal_strlit("flags");
        reveal_strlit("elem");
        reveal_strlit("timeout");
        reveal_strlit("gc-interval");
        reveal_strlit("size");
        reveal_strlit("comment");
        assert("family"@.len() == 6 && "family"@[0] == 'f');
        assert("table"@.len() == 5 && "table"@[0] == 't');
        assert("name"@.len() == 4 && "name"@[0] == 'n');
        assert("handle"@.len() == 6 && "handle"@[0] == 'h');
        assert("type"@.len() == 4 && "type"@[0] == 't');
        assert("policy"@.len() == 6 && "policy"@[0] == 'p');
        assert("flags"@.len() == 5 && "flags"@[0] == 'f');
        assert("elem"@.len() == 4 && "elem"@[0] == 'e');
        assert("timeout"@.len() == 7 && "timeout"@[0] == 't');
        assert("gc-interval"@.len() == 11);
        assert("size"@.len() == 4 && "size"@[0] == 's');
        assert("comment"@.len() == 7 && "comment"@[0] == 'c');
    }

    /// What the wire form holds under each key.
    pub proof fn lemma_members(self)
        ensures
            self.to_wire() is Object,
            lookup(self.to_wire()->Object_0, "family"@) == Some(enc_token(self.family)),
            lookup(self.to_wire()->Object_0, "table"@) == Some(JsonView::String(self.table)),
            lookup(self.to_wire()->Object_0, "name"@) == Some(JsonView::String(self.name)),
            lookup(self.to_wire()->Object_0, "handle"@) == match self.handle {
                Some(v) => Some(JsonView::Number(v as int)),
                None => None,
            },
            lookup(self.to_wire()->Object_0, "type"@) == Some(self.set_type.to_wire()),
            lookup(self.to_wire()->Object_0, "policy"@) == match self.policy {
                Some(v) => Some(enc_token(v)),
                None => None,
            },
            lookup(self.to_wire()->Object_0, "flags"@) == match self.flags {
                Some(v) => Some(enc_flags(v)),
                None => None,
            },
            lookup(self.to_wire()->Object_0, "elem"@) == match self.elem {
                Some(v) => Some(JsonView::Array(enc_expressions(v))),
                None => None,
            },
            lookup(self.to_wire()->Object_0, "timeout"@) == match self.timeout {
                Some(v) => Some(JsonView::Number(v as int)),
                None => None,
            },
            lookup(self.to_wire()->Object_0, "gc-interval"@) == match self.gc_interval {
                Some(v) => Some(JsonView::Number(v as int)),
                None => None,
            },
            lookup(self.to_wire()->Object_0, "size"@) == match self.size {
                Some(v) => Some(JsonView::Number(v as int)),
                None => None,
            },
            lookup(self.to_wire()->Object_0, "comment"@) == match self.comment {
                Some(v) => Some(JsonView::String(v)),
                None => None,
            },
    {
        Self::lemma_keys();
        assert(lookup(self.to_wire()->Object_0, "family"@) == Some(enc_token(self.family))) by {
            broadcast use {lemma_lookup_push, lemma_lookup_empty, lemma_with_opt};
        }
        assert(
            lookup(self.to_wire()->Object_0, "table"@) == Some(JsonView::String(self.table))
        ) by {
            broadcast use {lemma_lookup_push, lemma_lookup_empty, lemma_with_opt};
        }
        assert(lookup(self.to_wire()->Object_0, "name"@) == Some(JsonView::String(self.name))) by {
            broadcast use {lemma_lookup_push, lemma_lookup_empty, lemma_with_opt};
        }
        assert(lookup(self.to_wire()->Object_0, "handle"@) == match self.handle {
            Some(v) => Some(JsonView::Number(v as int)),
            None => None,
        }) by {
            broadcast use {lemma_lookup_push, lemma_lookup_empty, lemma_with_opt};
        }
        assert(lookup(self.to_wire()->Object_0, "type"@) == Some(self.set_type.to_wire())) by {
            broadcast use {lemma_lookup_push, lemma_lookup_empty, lemma_with_opt};
        }
        assert(lookup(self.to_wire()->Object_0, "policy"@) == match self.policy {
            Some(v) => Some(enc_token(v)),
            None => None,
        }) by {
            broadcast use {lemma_lookup_push, lemma_lookup_empty, lemma_with_opt};
        }
        assert(lookup(self.to_wire()->Object_0, "flags"@) == match self.flags {
            Some(v) => Some(enc_flags(v)),
            None => None,
        }) by {
            broadcast use {lemma_lookup_push, lemma_lookup_empty, lemma_with_opt};
        }
        assert(lookup(self.to_wire()->Object_0, "elem"@) == match self.elem {
            Some(v) => Some(JsonView::Array(enc_expressions(v))),
            None => None,
        }) by {
            broadcast use {lemma_lookup_push, lemma_lookup_empty, lemma_with_opt};
        }
        assert(lookup(self.to_wire()->Object_0, "timeout"@) == match self.timeout {
            Some(v) => Some(JsonView::Number(v as int)),
            None => None,
        }) by {
            broadcast use {lemma_lookup_push, lemma_lookup_empty, lemma_with_opt};
        }
        assert(lookup(self.to_wire()->Object_0, "gc-interval"@) == match self.gc_interval {
            Some(v) => Some(JsonView::Number(v as int)),
            None => None,
        }) by {
            broadcast use {lemma_lookup_push, lemma_lookup_empty, lemma_with_opt};
        }
        assert(lookup(self.to_wire()->Object_0, "size"@) == match self.size {
            Some(v) => Some(JsonView::Number(v as int)),
            None => None,
        }) by {
            broadcast use {lemma_lookup_push, lemma_lookup_empty, lemma_with_opt};
        }
        assert(lookup(self.to_wire()->Object_0, "comment"@) == match self.comment {
            Some(v) => Some(JsonView::String(v)),
            None => None,
        }) by {
            broadcast use {lemma_lookup_push, lemma_lookup_empty, lemma_with_opt};
        }
    }

    /// Decoding the wire form of a value gives the value back.
    pub proof fn lemma_round_trip(self)
        requires
            self.canonical(),
        ensures
            Self::from_wire(self.to_wire()) == Ok::<SetObjectView, DecodeErrorView>(self),
    {
        self.lemma_members();
        lemma_token_round_trip(self.family);
        self.set_type.lemma_round_trip();
        match self.policy {
            Some(v) => {
                lemma_token_round_trip(v);
            },
            None => {},
        }
        match self.flags {
            Some(v) => {
                lemma_flags_round_trip(v);
            },
            None => {},
        }
        match self.elem {
            Some(v) => {
                lemma_expressions_round_trip(v);
            },
            None => {},
        }
    }

    /// The order in which the members of an object stand does not matter to what
    /// the object decodes to.
    pub proof fn lemma_member_order(
        a: Seq<(Seq<char>, JsonView)>,
        b: Seq<(Seq<char>, JsonView)>,
    )
        requires
            same_members(a, b),
        ensures
            Self::from_wire(JsonView::Object(a)) == Self::from_wire(JsonView::Object(b)),
    {
        assert(lookup(a, "family"@) == lookup(b, "family"@));
        assert(lookup(a, "table"@) == lookup(b, "table"@));
        assert(lookup(a, "name"@) == lookup(b, "name"@));
        assert(lookup(a, "handle"@) == lookup(b, "handle"@));
        assert(lookup(a, "type"@) == lookup(b, "type"@));
        assert(lookup(a, "policy"@) == lookup(b, "policy"@));
        assert(lookup(a, "flags"@) == lookup(b, "flags"@));
        assert(lookup(a, "elem"@) == lookup(b, "elem"@));
        assert(lookup(a, "timeout"@) == lookup(b, "timeout"@));
        assert(lookup(a, "gc-interval"@) == lookup(b, "gc-interval"@));
        assert(lookup(a, "size"@) == lookup(b, "size"@));
        assert(lookup(a, "comment"@) == lookup(b, "comment"@));
    }

    /// Whether the options under `flags` are written as one spelling or as the array
    /// of that one spelling does not matter to what an object decodes to.
    pub proof fn lemma_single_flag_is_list(
        a: Seq<(Seq<char>, JsonView)>,
        b: Seq<(Seq<char>, JsonView)>,
        token: Seq<char>,
    )
        requires
            <SetFlag as Token>::from_text(token) is Some,
            lookup(a, "flags"@) == Some(JsonView::String(token)),
            lookup(b, "flags"@) == Some(JsonView::Array(seq![JsonView::String(token)])),
            forall|k: Seq<char>| k != "flags"@ ==> lookup(a, k) == lookup(b, k),
        ensures
            Self::from_wire(JsonView::Object(a)) == Self::from_wire(JsonView::Object(b)),
    {
        crate::flags::lemma_single_flag_is_list::<SetFlag>(token);
        reveal_strlit("family");
        reveal_strlit("table");
        reveal_strlit("name");
        reveal_strlit("handle");
        reveal_strlit("type");
        reveal_strlit("policy");
        reveal_strlit("flags");
        reveal_strlit("elem");
        reveal_strlit("timeout");
        reveal_strlit("gc-interval");
        reveal_strlit("size");
        reveal_strlit("comment");
        assert("family"@.len() == 6 && "family"@[0] == 'f');
        assert("table"@.len() == 5 && "table"@[0] == 't');
        assert("name"@.len() == 4 && "name"@[0] == 'n');
        assert("handle"@.len() == 6 && "handle"@[0] == 'h');
        assert("type"@.len() == 4 && "type"@[0] == 't');
        assert("policy"@.len() == 6 && "policy"@[0] == 'p');
        assert("flags"@.len() == 5 && "flags"@[0] == 'f');
        assert("elem"@.len() == 4 && "elem"@[0] == 'e');
        assert("timeout"@.len() == 7 && "timeout"@[0] == 't');
        assert("gc-interval"@.len() == 11);
        assert("size"@.len() == 4 && "size"@[0] == 's');
        assert("comment"@.len() == 7 && "comment"@[0] == 'c');
        assert(lookup(a, "family"@) == lookup(b, "family"@));
        assert(lookup(a, "table"@) == lookup(b, "table"@));
        assert(lookup(a, "name"@) == lookup(b, "name"@));
        assert(lookup(a, "handle"@) == lookup(b, "handle"@));
        assert(lookup(a, "type"@) == lookup(b, "type"@));
        assert(lookup(a, "policy"@) == lookup(b, "policy"@));
        assert(lookup(a, "elem"@) == lookup(b, "elem"@));
        assert(lookup(a, "timeout"@) == lookup(b, "timeout"@));
        assert(lookup(a, "gc-interval"@) == lookup(b, "gc-interval"@));
        assert(lookup(a, "size"@) == lookup(b, "size"@));
        assert(lookup(a, "comment"@) == lookup(b, "comment"@));
    }

    /// Where an object fails to decode, the failure names the field that it lies in:
    /// its path begins with the key of one of the fields.
    pub proof fn lemma_failure_names_field(m: Seq<(Seq<char>, JsonView)>)
        ensures
            Self::from_wire(JsonView::Object(m)) matches Err(e) ==> e.path.len() > 0 && {
                ||| e.path[0] == PathSegmentView::Key("family"@)
                ||| e.path[0] == PathSegmentView::Key("table"@)
                ||| e.path[0] == PathSegmentView::Key("name"@)
                ||| e.path[0] == PathSegmentView::Key("handle"@)
                ||| e.path[0] == PathSegmentView::Key("type"@)
                ||| e.path[0] == PathSegmentView::Key("policy"@)
                ||| e.path[0] == PathSegmentView::Key("flags"@)
                ||| e.path[0] == PathSegmentView::Key("elem"@)
                ||| e.path[0] == PathSegmentView::Key("timeout"@)
                ||| e.path[0] == PathSegmentView::Key("gc-interval"@)
                ||| e.path[0] == PathSegmentView::Key("size"@)
                ||| e.path[0] == PathSegmentView::Key("comment"@)
            },
    {
        broadcast use lemma_under_key_path;
    }
}

impl SetObject {
    /// Encodes the value in its wire form.
    pub fn encode(&self) -> (j: Json)
        ensures
            j.deep_view() == self.deep_view().to_wire(),
    {
        let mut m: Vec<(String, Json)> = Vec::new();
        assert(members_view(m) =~= Seq::empty());
        put(&mut m, "family", encode_token(&self.family));
        put(&mut m, "table", Json::String(self.table.clone()));
        put(&mut m, "name", Json::String(self.name.clone()));
        match &self.handle {
            Some(v) => put(&mut m, "handle", Json::Number(*v as i128)),
            None => {},
        }
        put(&mut m, "type", self.set_type.encode());
        match &self.policy {
            Some(v) => put(&mut m, "policy", encode_token(v)),
            None => {},
        }
        match &self.flags {
            Some(v) => put(&mut m, "flags", v.encode()),
            None => {},
        }
        match &self.elem {
            Some(v) => put(&mut m, "elem", Json::Array(encode_expressions(v))),
            None => {},
        }
        match &self.timeout {
            Some(v) => put(&mut m, "timeout", Json::Number(*v as i128)),
            None => {},
        }
        match &self.gc_interval {
            Some(v) => put(&mut m, "gc-interval", Json::Number(*v as i128)),
            None => {},
        }
        match &self.size {
            Some(v) => put(&mut m, "size", Json::Number(*v as i128)),
            None => {},
        }
        match &self.comment {
            Some(v) => put(&mut m, "comment", Json::String(v.clone())),
            None => {},
        }
        Json::Object(m)
    }

    /// Decodes a wire value.
    pub fn decode(j: &Json) -> (r: Result<SetObject, DecodeError>)
        ensures
            decoded(r, SetObjectView::from_wire(j.deep_view())),
    {
        match j {
            Json::Object(m) => {
                let family = match find(m, "family") {
                    Some(v) => match decode_token::<NfFamily>(v) {
                        Ok(x) => x,
                        Err(e) => return Err(e.under_key("family")),
                    },
                    None => return Err(DecodeError::missing("family")),
                };
                let table = match find(m, "table") {
                    Some(v) => match decode_string(v) {
                        Ok(x) => x,
                        Err(e) => return Err(e.under_key("table")),
                    },
                    None => return Err(DecodeError::missing("table")),
                };
                let name = match find(m, "name") {
                    Some(v) => match decode_string(v) {
                        Ok(x) => x,
                        Err(e) => return Err(e.under_key("name")),
                    },
                    None => return Err(DecodeError::missing("name")),
                };
                let handle = match present(m, "handle") {
                    Some(v) => match decode_u32(v) {
                        Ok(x) => Some(x),
                        Err(e) => return Err(e.under_key("handle")),
                    },
                    None => None,
                };
                let set_type = match find(m, "type") {
                    Some(v) => match SetTypeValue::decode(v) {
                        Ok(x) => x,
                        Err(e) => return Err(e.under_key("type")),
                    },
                    None => return Err(DecodeError::missing("type")),
                };
                let policy = match present(m, "policy") {
                    Some(v) => match decode_token::<SetPolicy>(v) {
                        Ok(x) => Some(x),
                        Err(e) => return Err(e.under_key("policy")),
                    },
                    None => None,
                };
                let flags = match present(m, "flags") {
                    Some(v) => match deserialize_flags::<SetFlag>(v) {
                        Ok(x) => Some(x),
                        Err(e) => return Err(e.under_key("flags")),
                    },
                    None => None,
                };
                let elem = match present(m, "elem") {
                    Some(v) => match decode_expression_list(v) {
                        Ok(x) => Some(x),
                        Err(e) => return Err(e.under_key("elem")),
                    },
                    None => None,
                };
                let timeout = match present(m, "timeout") {
                    Some(v) => match decode_u32(v) {
                        Ok(x) => Some(x),
                        Err(e) => return Err(e.under_key("timeout")),
                    },
                    None => None,
                };
                let gc_interval = match present(m, "gc-interval") {
                    Some(v) => match decode_u32(v) {
                        Ok(x) => Some(x),
                        Err(e) => return Err(e.under_key("gc-interval")),
                    },
                    None => None,
                };
                let size = match present(m, "size") {
                    Some(v) => match decode_u32(v) {
                        Ok(x) => Some(x),
                        Err(e) => return Err(e.under_key("size")),
                    },
                    None => None,
                };
                let comment = match present(m, "comment") {
                    Some(v) => match decode_string(v) {
                        Ok(x) => Some(x),
                        Err(e) => return Err(e.under_key("comment")),
                    },
                    None => None,
                };
                Ok(
                    SetObject {
                        family,
                        table,
                        name,
                        handle,
                        set_type,
                        policy,
                        flags,
                        elem,
                        timeout,
                        gc_interval,
                        size,
                        comment,
                    },
                )
            },
            _ => Err(DecodeError::shape()),
        }
    }
}

impl Clone for SetObject {
    fn clone(&self) -> (r: Self)
        ensures
            r.deep_view() == self.deep_view(),
    {
        SetObject {
            family: self.family,
            table: self.table.clone(),
            name: self.name.clone(),
            handle: self.handle,
            set_type: self.set_type.clone(),
            policy: self.policy,
            flags: match &self.flags {
                Some(x) => Some(x.clone()),
                None => None,
            },
            elem: match &self.elem {
                Some(x) => Some(clone_expressions(x)),
                None => None,
            },
            timeout: self.timeout,
            gc_interval: self.gc_interval,
            size: self.size,
            comment: match &self.comment {
                Some(x) => Some(x.clone()),
                None => None,
            },
        }
    }
}

/// The default set: `myset` in the default table, of IPv4 addresses.
impl Default for SetObject {
    fn default() -> (r: Self)
        ensures
            r.deep_view() == (
                SetObjectView {
                    family: NfFamily::INet,
                    table: "filter"@,
                    name: "myset"@,
                    handle: None,
                    set_type: SetTypeValueView::Single(SetType::Ipv4Addr),
                    policy: None,
                    flags: None,
                    elem: None,
                    timeout: None,
                    gc_interval: None,
                    size: None,
                    comment: None,
                }
            ),
    {
        SetObject {
            family: NfFamily::INet,
            table: "filter".to_owned(),
            name: "myset".to_owned(),
            handle: None,
            set_type: SetTypeValue::Single(SetType::Ipv4Addr),
            policy: None,
            flags: None,
            elem: None,
            timeout: None,
            gc_interval: None,
            size: None,
            comment: None,
        }
    }
}

/// A named map.
#[derive(Debug, PartialEq, Eq)]
pub struct MapObject {
    /// The family of the table.
    pub family: NfFamily,
    /// The name of the table.
    pub table: String,
    /// The name of the map.
    pub name: String,
    /// The handle of the object in the kernel. It is output only: in input it is ignored, but for
    /// where an object is referred to by it.
    pub handle: Option<u32>,
    /// The type of the values.
    pub map: SetTypeValue,
    /// The type of the keys.
    pub set_type: SetTypeValue,
    /// The policy of the set.
    pub policy: Option<SetPolicy>,
    /// The options of the set.
    pub flags: Option<FlagSet<SetFlag>>,
    /// The elements to begin with.
    pub elem: Option<Vec<Expression>>,
    /// The time, in seconds, after which an element expires.
    pub timeout: Option<u32>,
    /// The interval, in seconds, at which expired elements are collected.
    pub gc_interval: Option<u32>,
    /// The most elements that the set can hold.
    pub size: Option<u32>,
    /// A comment on the set.
    pub comment: Option<String>,
}

/// The mathematical value of a [`MapObject`].
pub ghost struct MapObjectView {
    pub family: NfFamily,
    pub table: Seq<char>,
    pub name: Seq<char>,
    pub handle: Option<u32>,
    pub map: SetTypeValueView,
    pub set_type: SetTypeValueView,
    pub policy: Option<SetPolicy>,
    pub flags: Option<Set<SetFlag>>,
    pub elem: Option<Seq<ExpressionView>>,
    pub timeout: Option<u32>,
    pub gc_interval: Option<u32>,
    pub size: Option<u32>,
    pub comment: Option<Seq<char>>,
}

impl DeepView for MapObject {
    type V = MapObjectView;

    open spec fn deep_view(&self) -> MapObjectView {
        MapObjectView {
            family: self.family,
            table: self.table@,
            name: self.name@,
            handle: self.handle,
            map: self.map.deep_view(),
            set_type: self.set_type.deep_view(),
            policy: self.policy,
            flags: match self.flags {
                Some(x) => Some(x.deep_view()),
                None => None,
            },
            elem: match self.elem {
                Some(x) => Some(expressions_view(x@)),
                None => None,
            },
            timeout: self.timeout,
            gc_interval: self.gc_interval,
            size: self.size,
            comment: match self.comment {
                Some(x) => Some(x@),
                None => None,
            },
        }
    }
}

impl MapObjectView {
    /// The wire form: an object with one member for each field that has a value.
    pub open spec fn to_wire(self) -> JsonView {
        let m = Seq::empty();
        let m = m.push(("family"@, enc_token(self.family)));
        let m = m.push(("table"@, JsonView::String(self.table)));
        let m = m.push(("name"@, JsonView::String(self.name)));
        let m = with_opt(
            m,
            "handle"@,
            match self.handle {
                Some(v) => Some(JsonView::Number(v as int)),
                None => None,
            },
        );
        let m = m.push(("map"@, self.map.to_wire()));
        let m = m.push(("type"@, self.set_type.to_wire()));
        let m = with_opt(
            m,
            "policy"@,
            match self.policy {
                Some(v) => Some(enc_token(v)),
                None => None,
            },
        );
        let m = with_opt(
            m,
            "flags"@,
            match self.flags {
                Some(v) => Some(enc_flags(v)),
                None => None,
            },
        );
        let m = with_opt(
            m,
            "elem"@,
            match self.elem {
                Some(v) => Some(JsonView::Array(enc_expressions(v))),
                None => None,
            },
        );
        let m = with_opt(
            m,
            "timeout"@,
            match self.timeout {
                Some(v) => Some(JsonView::Number(v as int)),
                None => None,
            },
        );
        let m = with_opt(
            m,
            "gc-interval"@,
            match self.gc_interval {
                Some(v) => Some(JsonView::Number(v as int)),
                None => None,
            },
        );
        let m = with_opt(
            m,
            "size"@,
            match self.size {
                Some(v) => Some(JsonView::Number(v as int)),
                None => None,
            },
        );
        let m = with_opt(
            m,
            "comment"@,
            match self.comment {
                Some(v) => Some(JsonView::String(v)),
                None => None,
            },
        );
        JsonView::Object(m)
    }

    /// What a wire value decodes to: the fields are read by their keys, in the order
    /// in which the type lists them, and the first that fails decides the failure.
    pub open spec fn from_wire(j: JsonView) -> Result<MapObjectView, DecodeErrorView> {
        match j {
            JsonView::Object(m) => {
                let family = match lookup(m, "family"@) {
                    Some(v) => at_key(dec_token::<NfFamily>(v), "family"@),
                    None => Err(DecodeErrorView::missing("family"@)),
                };
                let table = match lookup(m, "table"@) {
                    Some(v) => at_key(dec_string(v), "table"@),
                    None => Err(DecodeErrorView::missing("table"@)),
                };
                let name = match lookup(m, "name"@) {
                    Some(v) => at_key(dec_string(v), "name"@),
                    None => Err(DecodeErrorView::missing("name"@)),
                };
                let handle = match optional(m, "handle"@) {
                    Some(v) => at_key(some(dec_u32(v)), "handle"@),
                    None => Ok(None),
                };
                let map = match lookup(m, "map"@) {
                    Some(v) => at_key(SetTypeValueView::from_wire(v), "map"@),
                    None => Err(DecodeErrorView::missing("map"@)),
                };
                let set_type = match lookup(m, "type"@) {
                    Some(v) => at_key(SetTypeValueView::from_wire(v), "type"@),
                    None => Err(DecodeErrorView::missing("type"@)),
                };
                let policy = match optional(m, "policy"@) {
                    Some(v) => at_key(some(dec_token::<SetPolicy>(v)), "policy"@),
                    None => Ok(None),
                };
                let flags = match optional(m, "flags"@) {
                    Some(v) => at_key(some(dec_flags::<SetFlag>(v)), "flags"@),
                    None => Ok(None),
                };
                let elem = match optional(m, "elem"@) {
                    Some(v) => at_key(some(dec_expression_list(v)), "elem"@),
                    None => Ok(None),
                };
                let timeout = match optional(m, "timeout"@) {
                    Some(v) => at_key(some(dec_u32(v)), "timeout"@),
                    None => Ok(None),
                };
                let gc_interval = match optional(m, "gc-interval"@) {
                    Some(v) => at_key(some(dec_u32(v)), "gc-interval"@),
                    None => Ok(None),
                };
                let size = match optional(m, "size"@) {
                    Some(v) => at_key(some(dec_u32(v)), "size"@),
                    None => Ok(None),
                };
                let comment = match optional(m, "comment"@) {
                    Some(v) => at_key(some(dec_string(v)), "comment"@),
                    None => Ok(None),
                };
                if family is Err {
                    Err(family->Err_0)
                } else if table is Err {
                    Err(table->Err_0)
                } else if name is Err {
                    Err(name->Err_0)
                } else if handle is Err {
                    Err(handle->Err_0)
                } else if map is Err {
                    Err(map->Err_0)
                } else if set_type is Err {
                    Err(set_type->Err_0)
                } else if policy is Err {
                    Err(policy->Err_0)
                } else if flags is Err {
                    Err(flags->Err_0)
                } else if elem is Err {
                    Err(elem->Err_0)
                } else if timeout is Err {
                    Err(timeout->Err_0)
                } else if gc_interval is Err {
                    Err(gc_interval->Err_0)
                } else if size is Err {
                    Err(size->Err_0)
                } else if comment is Err {
                    Err(comment->Err_0)
                } else {
                    Ok(
                        MapObjectView {
                            family: family->Ok_0,
                            table: table->Ok_0,
                            name: name->Ok_0,
                            handle: handle->Ok_0,
                            map: map->Ok_0,
                            set_type: set_type->Ok_0,
                            policy: policy->Ok_0,
                            flags: flags->Ok_0,
                            elem: elem->Ok_0,
                            timeout: timeout->Ok_0,
                            gc_interval: gc_interval->Ok_0,
                            size: size->Ok_0,
                            comment: comment->Ok_0,
                        },
                    )
                }
            },
            _ => Err(DecodeErrorView::shape()),
        }
    }

    /// Whether decoding the wire form gives this value back.
    pub open spec fn canonical(self) -> bool {
        &&& (self.elem matches Some(v) ==> expressions_canonical(v))
    }

    /// The keys of the wire form differ from one another.
    pub proof fn lemma_keys()
        ensures
            "family"@ != "table"@,
            "family"@ != "name"@,
            "family"@ != "handle"@,
            "family"@ != "map"@,
            "family"@ != "type"@,
            "family"@ != "policy"@,
            "family"@ != "flags"@,
            "family"@ != "elem"@,
            "family"@ != "timeout"@,
            "family"@ != "gc-interval"@,
            "family"@ != "size"@,
            "family"@ != "comment"@,
            "table"@ != "name"@,
            "table"@ != "handle"@,
            "table"@ != "map"@,
            "table"@ != "type"@,
            "table"@ != "policy"@,
            "table"@ != "flags"@,
            "table"@ != "elem"@,
            "table"@ != "timeout"@,
            "table"@ != "gc-interval"@,
            "table"@ != "size"@,
            "table"@ != "comment"@,
            "name"@ != "handle"@,
            "name"@ != "map"@,
            "name"@ != "type"@,
            "name"@ != "policy"@,
            "name"@ != "flags"@,
            "name"@ != "elem"@,
            "name"@ != "timeout"@,
            "name"@ != "gc-interval"@,
            "name"@ != "size"@,
            "name"@ != "comment"@,
            "handle"@ != "map"@,
            "handle"@ != "type"@,
            "handle"@ != "policy"@,
            "handle"@ != "flags"@,
            "handle"@ != "elem"@,
            "handle"@ != "timeout"@,
            "handle"@ != "gc-interval"@,
            "handle"@ != "size"@,
            "handle"@ != "comment"@,
            "map"@ != "type"@,
            "map"@ != "policy"@,
            "map"@ != "flags"@,
            "map"@ != "elem"@,
            "map"@ != "timeout"@,
            "map"@ != "gc-interval"@,
            "map"@ != "size"@,
            "map"@ != "comment"@,
            "type"@ != "policy"@,
            "type"@ != "flags"@,
            "type"@ != "elem"@,
            "type"@ != "timeout"@,
            "type"@ != "gc-interval"@,
            "type"@ != "size"@,
            "type"@ != "comment"@,
            "policy"@ != "flags"@,
            "policy"@ != "elem"@,
            "policy"@ != "timeout"@,
            "policy"@ != "gc-interval"@,
            "policy"@ != "size"@,
            "policy"@ != "comment"@,
            "flags"@ != "elem"@,
            "flags"@ != "timeout"@,
            "flags"@ != "gc-interval"@,
            "flags"@ != "size"@,
            "flags"@ != "comment"@,
            "elem"@ != "timeout"@,
            "elem"@ != "gc-interval"@,
            "elem"@ != "size"@,
            "elem"@ != "comment"@,
            "timeout"@ != "gc-interval"@,
            "timeout"@ != "size"@,
            "timeout"@ != "comment"@,
            "gc-interval"@ != "size"@,
            "gc-interval"@ != "comment"@,
            "size"@ != "comment"@,
    {
        reveal_strlit("family");
        reveal_strlit("table");
        reveal_strlit("name");
        reveal_strlit("handle");
        reveal_strlit("map");
        reveal_strlit("type");
        reveal_strlit("policy");
        reveal_strlit("flags");
        reveal_strlit("elem");
        reveal_strlit("timeout");
        reveal_strlit("gc-interval");
        reveal_strlit("size");
        reveal_strlit("comment");
        assert("family"@.len() == 6 && "family"@[0] == 'f');
        assert("table"@.len() == 5 && "table"@[0] == 't');
        assert("name"@.len() == 4 && "name"@[0] == 'n');
        assert("handle"@.len() == 6 && "handle"@[0] == 'h');
        assert("map"@.len() == 3);
        assert("type"@.len() == 4 && "type"@[0] == 't');
        assert("policy"@.len() == 6 && "policy"@[0] == 'p');
        assert("flags"@.len() == 5 && "flags"@[0] == 'f');
        assert("elem"@.len() == 4 && "elem"@[0] == 'e');
        assert("timeout"@.len() == 7 && "timeout"@[0] == 't');
        assert("gc-interval"@.len() == 11);
        assert("size"@.len() == 4 && "size"@[0] == 's');
        assert("comment"@.len() == 7 && "comment"@[0] == 'c');
    }

    /// What the wire form holds under each key.
    pub proof fn lemma_members(self)
        ensures
            self.to_wire() is Object,
            lookup(self.to_wire()->Object_0, "family"@) == Some(enc_token(self.family)),
            lookup(self.to_wire()->Object_0, "table"@) == Some(JsonView::String(self.table)),
            lookup(self.to_wire()->Object_0, "name"@) == Some(JsonView::String(self.name)),
            lookup(self.to_wire()->Object_0, "handle"@) == match self.handle {
                Some(v) => Some(JsonView::Number(v as int)),
                None => None,
            },
            lookup(self.to_wire()->Object_0, "map"@) == Some(self.map.to_wire()),
            lookup(self.to_wire()->Object_0, "type"@) == Some(self.set_type.to_wire()),
            lookup(self.to_wire()->Object_0, "policy"@) == match self.policy {
                Some(v) => Some(enc_token(v)),
                None => None,
            },
            lookup(self.to_wire()->Object_0, "flags"@) == match self.flags {
                Some(v) => Some(enc_flags(v)),
                None => None,
            },
            lookup(self.to_wire()->Object_0, "elem"@) == match self.elem {
                Some(v) => Some(JsonView::Array(enc_expressions(v))),
                None => None,
            },
            lookup(self.to_wire()->Object_0, "timeout"@) == match self.timeout {
                Some(v) => Some(JsonView::Number(v as int)),
                None => None,
            },
            lookup(self.to_wire()->Object_0, "gc-interval"@) == match self.gc_interval {
                Some(v) => Some(JsonView::Number(v as int)),
                None => None,
            },
            lookup(self.to_wire()->Object_0, "size"@) == match self.size {
                Some(v) => Some(JsonView::Number(v as int)),
                None => None,
            },
            lookup(self.to_wire()->Object_0, "comment"@) == match self.comment {
                Some(v) => Some(JsonView::String(v)),
                None => None,
            },
    {
        Self::lemma_keys();
        assert(lookup(self.to_wire()->Object_0, "family"@) == Some(enc_token(self.family))) by {
            broadcast use {lemma_lookup_push, lemma_lookup_empty, lemma_with_opt};
        }
        assert(
            lookup(self.to_wire()->Object_0, "table"@) == Some(JsonView::String(self.table))
        ) by {
            broadcast use {lemma_lookup_push, lemma_lookup_empty, lemma_with_opt};
        }
        assert(lookup(self.to_wire()->Object_0, "name"@) == Some(JsonView::String(self.name))) by {
            broadcast use {lemma_lookup_push, lemma_lookup_empty, lemma_with_opt};
        }
        assert(lookup(self.to_wire()->Object_0, "handle"@) == match self.handle {
            Some(v) => Some(JsonView::Number(v as int)),
            None => None,
        }) by {
            broadcast use {lemma_lookup_push, lemma_lookup_empty, lemma_with_opt};
        }
        assert(lookup(self.to_wire()->Object_0, "map"@) == Some(self.map.to_wire())) by {
            broadcast use {lemma_lookup_push, lemma_lookup_empty, lemma_with_opt};
        }
        assert(lookup(self.to_wire()->Object_0, "type"@) == Some(self.set_type.to_wire())) by {
            broadcast use {lemma_lookup_push, lemma_lookup_empty, lemma_with_opt};
        }
        assert(lookup(self.to_wire()->Object_0, "policy"@) == match self.policy {
            Some(v) => Some(enc_token(v)),
            None => None,
        }) by {
            broadcast use {lemma_lookup_push, lemma_lookup_empty, lemma_with_opt};
        }
        assert(lookup(self.to_wire()->Object_0, "flags"@) == match self.flags {
            Some(v) => Some(enc_flags(v)),
            None => None,
        }) by {
            broadcast use {lemma_lookup_push, lemma_lookup_empty, lemma_with_opt};
        }
        assert(lookup(self.to_wire()->Object_0, "elem"@) == match self.elem {
            Some(v) => Some(JsonView::Array(enc_expressions(v))),
            None => None,
        }) by {
            broadcast use {lemma_lookup_push, lemma_lookup_empty, lemma_with_opt};
        }
        assert(lookup(self.to_wire()->Object_0, "timeout"@) == match self.timeout {
            Some(v) => Some(JsonView::Number(v as int)),
            None => None,
        }) by {
            broadcast use {lemma_lookup_push, lemma_lookup_empty, lemma_with_opt};
        }
        assert(lookup(self.to_wire()->Object_0, "gc-interval"@) == match self.gc_interval {
            Some(v) => Some(JsonView::Number(v as int)),
            None => None,
        }) by {
            broadcast use {lemma_lookup_push, lemma_lookup_empty, lemma_with_opt};
        }
        assert(lookup(self.to_wire()->Object_0, "size"@) == match self.size {
            Some(v) => Some(JsonView::Number(v as int)),
            None => None,
        }) by {
            broadcast use {lemma_lookup_push, lemma_lookup_empty, lemma_with_opt};
        }
        assert(lookup(self.to_wire()->Object_0, "comment"@) == match self.comment {
            Some(v) => Some(JsonView::String(v)),
            None => None,
        }) by {
            broadcast use {lemma_lookup_push, lemma_lookup_empty, lemma_with_opt};
        }
    }

    /// Decoding the wire form of a value gives the value back.
    pub proof fn lemma_round_trip(self)
        requires
            self.canonical(),
        ensures
            Self::from_wire(self.to_wire()) == Ok::<MapObjectView, DecodeErrorView>(self),
    {
        self.lemma_members();
        lemma_token_round_trip(self.family);
        self.map.lemma_round_trip();
        self.set_type.lemma_round_trip();
        match self.policy {
            Some(v) => {
                lemma_token_round_trip(v);
            },
            None => {},
        }
        match self.flags {
            Some(v) => {
                lemma_flags_round_trip(v);
            },
            None => {},
        }
        match self.elem {
            Some(v) => {
                lemma_expressions_round_trip(v);
            },
            None => {},
        }
    }

    /// The order in which the members of an object stand does not matter to what
    /// the object decodes to.
    pub proof fn lemma_member_order(
        a: Seq<(Seq<char>, JsonView)>,
        b: Seq<(Seq<char>, JsonView)>,
    )
        requires
            same_members(a, b),
        ensures
            Self::from_wire(JsonView::Object(a)) == Self::from_wire(JsonView::Object(b)),
    {
        assert(lookup(a, "family"@) == lookup(b, "family"@));
        assert(lookup(a, "table"@) == lookup(b, "table"@));
        assert(lookup(a, "name"@) == lookup(b, "name"@));
        assert(lookup(a, "handle"@) == lookup(b, "handle"@));
        assert(lookup(a, "map"@) == lookup(b, "map"@));
        assert(lookup(a, "type"@) == lookup(b, "type"@));
        assert(lookup(a, "policy"@) == lookup(b, "policy"@));
        assert(lookup(a, "flags"@) == lookup(b, "flags"@));
        assert(lookup(a, "elem"@) == lookup(b, "elem"@));
        assert(lookup(a, "timeout"@) == lookup(b, "timeout"@));
        assert(lookup(a, "gc-interval"@) == lookup(b, "gc-interval"@));
        assert(lookup(a, "size"@) == lookup(b, "size"@));
        assert(lookup(a, "comment"@) == lookup(b, "comment"@));
    }

    /// Whether the options under `flags` are written as one spelling or as the array
    /// of that one spelling does not matter to what an object decodes to.
    pub proof fn lemma_single_flag_is_list(
        a: Seq<(Seq<char>, JsonView)>,
        b: Seq<(Seq<char>, JsonView)>,
        token: Seq<char>,
    )
        requires
            <SetFlag as Token>::from_text(token) is Some,
            lookup(a, "flags"@) == Some(JsonView::String(token)),
            lookup(b, "flags"@) == Some(JsonView::Array(seq![JsonView::String(token)])),
            forall|k: Seq<char>| k != "flags"@ ==> lookup(a, k) == lookup(b, k),
        ensures
            Self::from_wire(JsonView::Object(a)) == Self::from_wire(JsonView::Object(b)),
    {
        crate::flags::lemma_single_flag_is_list::<SetFlag>(token);
        reveal_strlit("family");
        reveal_strlit("table");
        reveal_strlit("name");
        reveal_strlit("handle");
        reveal_strlit("map");
        reveal_strlit("type");
        reveal_strlit("policy");
        reveal_strlit("flags");
        reveal_strlit("elem");
        reveal_strlit("timeout");
        reveal_strlit("gc-interval");
        reveal_strlit("size");
        reveal_strlit("comment");
        assert("family"@.len() == 6 && "family"@[0] == 'f');
        assert("table"@.len() == 5 && "table"@[0] == 't');
        assert("name"@.len() == 4 && "name"@[0] == 'n');
        assert("handle"@.len() == 6 && "handle"@[0] == 'h');
        assert("map"@.len() == 3);
        assert("type"@.len() == 4 && "type"@[0] == 't');
        assert("policy"@.len() == 6 && "policy"@[0] == 'p');
        assert("flags"@.len() == 5 && "flags"@[0] == 'f');
        assert("elem"@.len() == 4 && "elem"@[0] == 'e');
        assert("timeout"@.len() == 7 && "timeout"@[0] == 't');
        assert("gc-interval"@.len() == 11);
        assert("size"@.len() == 4 && "size"@[0] == 's');
        assert("comment"@.len() == 7 && "comment"@[0] == 'c');
        assert(lookup(a, "family"@) == lookup(b, "family"@));
        assert(lookup(a, "table"@) == lookup(b, "table"@));
        assert(lookup(a, "name"@) == lookup(b, "name"@));
        assert(lookup(a, "handle"@) == lookup(b, "handle"@));
        assert(lookup(a, "map"@) == lookup(b, "map"@));
        assert(lookup(a, "type"@) == lookup(b, "type"@));
        assert(lookup(a, "policy"@) == lookup(b, "policy"@));
        assert(lookup(a, "elem"@) == lookup(b, "elem"@));
        assert(lookup(a, "timeout"@) == lookup(b, "timeout"@));
        assert(lookup(a, "gc-interval"@) == lookup(b, "gc-interval"@));
        assert(lookup(a, "size"@) == lookup(b, "size"@));
        assert(lookup(a, "comment"@) == lookup(b, "comment"@));
    }

    /// Where an object fails to decode, the failure names the field that it lies in:
    /// its path begins with the key of one of the fields.
    pub proof fn lemma_failure_names_field(m: Seq<(Seq<char>, JsonView)>)
        ensures
            Self::from_wire(JsonView::Object(m)) matches Err(e) ==> e.path.len() > 0 && {
                ||| e.path[0] == PathSegmentView::Key("family"@)
                ||| e.path[0] == PathSegmentView::Key("table"@)
                ||| e.path[0] == PathSegmentView::Key("name"@)
                ||| e.path[0] == PathSegmentView::Key("handle"@)
                ||| e.path[0] == PathSegmentView::Key("map"@)
                ||| e.path[0] == PathSegmentView::Key("type"@)
                ||| e.path[0] == PathSegmentView::Key("policy"@)
                ||| e.path[0] == PathSegmentView::Key("flags"@)
                ||| e.path[0] == PathSegmentView::Key("elem"@)
                ||| e.path[0] == PathSegmentView::Key("timeout"@)
                ||| e.path[0] == PathSegmentView::Key("gc-interval"@)
                ||| e.path[0] == PathSegmentView::Key("size"@)
                ||| e.path[0] == PathSegmentView::Key("comment"@)
            },
    {
        broadcast use lemma_under_key_path;
    }
}

impl MapObject {
    /// Encodes the value in its wire form.
    pub fn encode(&self) -> (j: Json)
        ensures
            j.deep_view() == self.deep_view().to_wire(),
    {
        let mut m: Vec<(String, Json)> = Vec::new();
        assert(members_view(m) =~= Seq::empty());
        put(&mut m, "family", encode_token(&self.family));
        put(&mut m, "table", Json::String(self.table.clone()));
        put(&mut m, "name", Json::String(self.name.clone()));
        match &self.handle {
            Some(v) => put(&mut m, "handle", Json::Number(*v as i128)),
            None => {},
        }
        put(&mut m, "map", self.map.encode());
        put(&mut m, "type", self.set_type.encode());
        match &self.policy {
            Some(v) => put(&mut m, "policy", encode_token(v)),
            None => {},
        }
        match &self.flags {
            Some(v) => put(&mut m, "flags", v.encode()),
            None => {},
        }
        match &self.elem {
            Some(v) => put(&mut m, "elem", Json::Array(encode_expressions(v))),
            None => {},
        }
        match &self.timeout {
            Some(v) => put(&mut m, "timeout", Json::Number(*v as i128)),
            None => {},
        }
        match &self.gc_interval {
            Some(v) => put(&mut m, "gc-interval", Json::Number(*v as i128)),
            None => {},
        }
        match &self.size {
            Some(v) => put(&mut m, "size", Json::Number(*v as i128)),
            None => {},
        }
        match &self.comment {
            Some(v) => put(&mut m, "comment", Json::String(v.clone())),
            None => {},
        }
        Json::Object(m)
    }

    /// Decodes a wire value.
    pub fn decode(j: &Json) -> (r: Result<MapObject, DecodeError>)
        ensures
            decoded(r, MapObjectView::from_wire(j.deep_view())),
    {
        match j {
            Json::Object(m) => {
                let family = match find(m, "family") {
                    Some(v) => match decode_token::<NfFamily>(v) {
                        Ok(x) => x,
                        Err(e) => return Err(e.under_key("family")),
                    },
                    None => return Err(DecodeError::missing("family")),
                };
                let table = match find(m, "table") {
                    Some(v) => match decode_string(v) {
                        Ok(x) => x,
                        Err(e) => return Err(e.under_key("table")),
                    },
                    None => return Err(DecodeError::missing("table")),
                };
                let name = match find(m, "name") {
                    Some(v) => match decode_string(v) {
                        Ok(x) => x,
                        Err(e) => return Err(e.under_key("name")),
                    },
                    None => return Err(DecodeError::missing("name")),
                };
                let handle = match present(m, "handle") {
                    Some(v) => match decode_u32(v) {
                        Ok(x) => Some(x),
                        Err(e) => return Err(e.under_key("handle")),
                    },
                    None => None,
                };
                let map = match find(m, "map") {
                    Some(v) => match SetTypeValue::decode(v) {
                        Ok(x) => x,
                        Err(e) => return Err(e.under_key("map")),
                    },
                    None => return Err(DecodeError::missing("map")),
                };
                let set_type = match find(m, "type") {
                    Some(v) => match SetTypeValue::decode(v) {
                        Ok(x) => x,
                        Err(e) => return Err(e.under_key("type")),
                    },
                    None => return Err(DecodeError::missing("type")),
                };
                let policy = match present(m, "policy") {
                    Some(v) => match decode_token::<SetPolicy>(v) {
                        Ok(x) => Some(x),
                        Err(e) => return Err(e.under_key("policy")),
                    },
                    None => None,
                };
                let flags = match present(m, "flags") {
                    Some(v) => match deserialize_flags::<SetFlag>(v) {
                        Ok(x) => Some(x),
                        Err(e) => return Err(e.under_key("flags")),
                    },
                    None => None,
                };
                let elem = match present(m, "elem") {
                    Some(v) => match decode_expression_list(v) {
                        Ok(x) => Some(x),
                        Err(e) => return Err(e.under_key("elem")),
                    },
                    None => None,
                };
                let timeout = match present(m, "timeout") {
                    Some(v) => match decode_u32(v) {
                        Ok(x) => Some(x),
                        Err(e) => return Err(e.under_key("timeout")),
                    },
                    None => None,
                };
                let gc_interval = match present(m, "gc-interval") {
                    Some(v) => match decode_u32(v) {
                        Ok(x) => Some(x),
                        Err(e) => return Err(e.under_key("gc-interval")),
                    },
                    None => None,
                };
                let size = match present(m, "size") {
                    Some(v) => match decode_u32(v) {
                        Ok(x) => Some(x),
                        Err(e) => return Err(e.under_key("size")),
                    },
                    None => None,
                };
                let comment = match present(m, "comment") {
                    Some(v) => match decode_string(v) {
                        Ok(x) => Some(x),
                        Err(e) => return Err(e.under_key("comment")),
                    },
                    None => None,
                };
                Ok(
                    MapObject {
                        family,
                        table,
                        name,
                        handle,
                        map,
                        set_type,
                        policy,
                        flags,
                        elem,
                        timeout,
                        gc_interval,
                        size,
                        comment,
                    },
                )
            },
            _ => Err(DecodeError::shape()),
        }
    }
}

impl Clone for MapObject {
    fn clone(&self) -> (r: Self)
        ensures
            r.deep_view() == self.deep_view(),
    {
        MapObject {
            family: self.family,
            table: self.table.clone(),
            name: self.name.clone(),
            handle: self.handle,
            map: self.map.clone(),
            set_type: self.set_type.clone(),
            policy: self.policy,
            flags: match &self.flags {
                Some(x) => Some(x.clone()),
                None => None,
            },
            elem: match &self.elem {
                Some(x) => Some(clone_expressions(x)),
                None => None,
            },
            timeout: self.timeout,
            gc_interval: self.gc_interval,
            size: self.size,
            comment: match &self.comment {
                Some(x) => Some(x.clone()),
                None => None,
            },
        }
    }
}

/// The default map: `mymap` in the default table, from IPv4 addresses to Ethernet addresses.
impl Default for MapObject {
    fn default() -> (r: Self)
        ensures
            r.deep_view() == (
                MapObjectView {
                    family: NfFamily::INet,
                    table: "filter"@,
                    name: "mymap"@,
                    handle: None,
                    map: SetTypeValueView::Single(SetType::EtherAddr),
                    set_type: SetTypeValueView::Single(SetType::Ipv4Addr),
                    policy: None,
                    flags: None,
                    elem: None,
                    timeout: None,
                    gc_interval: None,
                    size: None,
                    comment: None,
                }
            ),
    {
        MapObject {
            family: NfFamily::INet,
            table: "filter".to_owned(),
            name: "mymap".to_owned(),
            handle: None,
            map: SetTypeValue::Single(SetType::EtherAddr),
            set_type: SetTypeValue::Single(SetType::Ipv4Addr),
            policy: None,
            flags: None,
            elem: None,
            timeout: None,
            gc_interval: None,
            size: None,
            comment: None,
        }
    }
}

/// Elements of a named set or map: to add to it, or to delete from it.
#[derive(Debug, PartialEq, Eq)]
pub struct Element {
    /// The family of the table.
    pub family: NfFamily,
    /// The name of the table.
    pub table: String,
    /// The name of the set or map.
    pub name: String,
    /// The elements.
    pub elem: Vec<Expression>,
}

/// The mathematical value of an [`Element`].
pub ghost struct ElementView {
    pub family: NfFamily,
    pub table: Seq<char>,
    pub name: Seq<char>,
    pub elem: Seq<ExpressionView>,
}

impl DeepView for Element {
    type V = ElementView;

    open spec fn deep_view(&self) -> ElementView {
        ElementView {
            family: self.family,
            table: self.table@,
            name: self.name@,
            elem: expressions_view(self.elem@),
        }
    }
}

impl ElementView {
    /// The wire form: an object with one member for each field that has a value.
    pub open spec fn to_wire(self) -> JsonView {
        let m = Seq::empty();
        let m = m.push(("family"@, enc_token(self.family)));
        let m = m.push(("table"@, JsonView::String(self.table)));
        let m = m.push(("name"@, JsonView::String(self.name)));
        let m = m.push(("elem"@, JsonView::Array(enc_expressions(self.elem))));
        JsonView::Object(m)
    }

    /// What a wire value decodes to: the fields are read by their keys, in the order
    /// in which the type lists them, and the first that fails decides the failure.
    pub open spec fn from_wire(j: JsonView) -> Result<ElementView, DecodeErrorView> {
        match j {
            JsonView::Object(m) => {
                let family = match lookup(m, "family"@) {
                    Some(v) => at_key(dec_token::<NfFamily>(v), "family"@),
                    None => Err(DecodeErrorView::missing("family"@)),
                };
                let table = match lookup(m, "table"@) {
                    Some(v) => at_key(dec_string(v), "table"@),
                    None => Err(DecodeErrorView::missing("table"@)),
                };
                let name = match lookup(m, "name"@) {
                    Some(v) => at_key(dec_string(v), "name"@),
                    None => Err(DecodeErrorView::missing("name"@)),
                };
                let elem = match lookup(m, "elem"@) {
                    Some(v) => at_key(dec_expression_list(v), "elem"@),
                    None => Err(DecodeErrorView::missing("elem"@)),
                };
                if family is Err {
                    Err(family->Err_0)
                } else if table is Err {
                    Err(table->Err_0)
                } else if name is Err {
                    Err(name->Err_0)
                } else if elem is Err {
                    Err(elem->Err_0)
                } else {
                    Ok(
                        ElementView {
                            family: family->Ok_0,
                            table: table->Ok_0,
                            name: name->Ok_0,
                            elem: elem->Ok_0,
                        },
                    )
                }
            },
            _ => Err(DecodeErrorView::shape()),
        }
    }

    /// Whether decoding the wire form gives this value back.
    pub open spec fn canonical(self) -> bool {
        &&& expressions_canonical(self.elem)
    }

    /// What the wire form holds under each key.
    pub proof fn lemma_members(self)
        ensures
            self.to_wire() is Object,
            lookup(self.to_wire()->Object_0, "family"@) == Some(enc_token(self.family)),
            lookup(self.to_wire()->Object_0, "table"@) == Some(JsonView::String(self.table)),
            lookup(self.to_wire()->Object_0, "name"@) == Some(JsonView::String(self.name)),
            lookup(self.to_wire()->Object_0, "elem"@) == Some(
                JsonView::Array(enc_expressions(self.elem)),
            ),
    {
        broadcast use {lemma_lookup_push, lemma_lookup_empty, lemma_with_opt};
        reveal_strlit("family");
        reveal_strlit("table");
        reveal_strlit("name");
        reveal_strlit("elem");
        assert("family"@.len() == 6);
        assert("table"@.len() == 5);
        assert("name"@.len() == 4 && "name"@[0] == 'n');
        assert("elem"@.len() == 4 && "elem"@[0] == 'e');
    }

    /// Decoding the wire form of a value gives the value back.
    pub proof fn lemma_round_trip(self)
        requires
            self.canonical(),
        ensures
            Self::from_wire(self.to_wire()) == Ok::<ElementView, DecodeErrorView>(self),
    {
        self.lemma_members();
        lemma_token_round_trip(self.family);
        lemma_expressions_round_trip(self.elem);
    }

    /// The order in which the members of an object stand does not matter to what
    /// the object decodes to.
    pub proof fn lemma_member_order(
        a: Seq<(Seq<char>, JsonView)>,
        b: Seq<(Seq<char>, JsonView)>,
    )
        requires
            same_members(a, b),
        ensures
            Self::from_wire(JsonView::Object(a)) == Self::from_wire(JsonView::Object(b)),
    {
        assert(lookup(a, "family"@) == lookup(b, "family"@));
        assert(lookup(a, "table"@) == lookup(b, "table"@));
        assert(lookup(a, "name"@) == lookup(b, "name"@));
        assert(lookup(a, "elem"@) == lookup(b, "elem"@));
    }

    /// Where an object fails to decode, the failure names the field that it lies in:
    /// its path begins with the key of one of the fields.
    pub proof fn lemma_failure_names_field(m: Seq<(Seq<char>, JsonView)>)
        ensures
            Self::from_wire(JsonView::Object(m)) matches Err(e) ==> e.path.len() > 0 && {
                ||| e.path[0] == PathSegmentView::Key("family"@)
                ||| e.path[0] == PathSegmentView::Key("table"@)
                ||| e.path[0] == PathSegmentView::Key("name"@)
                ||| e.path[0] == PathSegmentView::Key("elem"@)
            },
    {
        broadcast use lemma_under_key_path;
    }
}

impl Element {
    /// Encodes the value in its wire form.
    pub fn encode(&self) -> (j: Json)
        ensures
            j.deep_view() == self.deep_view().to_wire(),
    {
        let mut m: Vec<(String, Json)> = Vec::new();
        assert(members_view(m) =~= Seq::empty());
        put(&mut m, "family", encode_token(&self.family));
        put(&mut m, "table", Json::String(self.table.clone()));
        put(&mut m, "name", Json::String(self.name.clone()));
        put(&mut m, "elem", Json::Array(encode_expressions(&self.elem)));
        Json::Object(m)
    }

    /// Decodes a wire value.
    pub fn decode(j: &Json) -> (r: Result<Element, DecodeError>)
        ensures
            decoded(r, ElementView::from_wire(j.deep_view())),
    {
        match j {
            Json::Object(m) => {
                let family = match find(m, "family") {
                    Some(v) => match decode_token::<NfFamily>(v) {
                        Ok(x) => x,
                        Err(e) => return Err(e.under_key("family")),
                    },
                    None => return Err(DecodeError::missing("family")),
                };
                let table = match find(m, "table") {
                    Some(v) => match decode_string(v) {
                        Ok(x) => x,
                        Err(e) => return Err(e.under_key("table")),
                    },
                    None => return Err(DecodeError::missing("table")),
                };
                let name = match find(m, "name") {
                    Some(v) => match decode_string(v) {
                        Ok(x) => x,
                        Err(e) => return Err(e.under_key("name")),
                    },
                    None => return Err(DecodeError::missing("name")),
                };
                let elem = match find(m, "elem") {
                    Some(v) => match decode_expression_list(v) {
                        Ok(x) => x,
                        Err(e) => return Err(e.under_key("elem")),
                    },
                    None => return Err(DecodeError::missing("elem")),
                };
                Ok(Element { family, table, name, elem })
            },
            _ => Err(DecodeError::shape()),
        }
    }
}

impl Clone for Element {
    fn clone(&self) -> (r: Self)
        ensures
            r.deep_view() == self.deep_view(),
    {
        Element {
            family: self.family,
            table: self.table.clone(),
            name: self.name.clone(),
            elem: clone_expressions((&self.elem)),
        }
    }
}

/// A flow table: it lets established flows bypass the network stack.
#[derive(Debug, PartialEq, Eq)]
pub struct FlowTable {
    /// The family of the table.
    pub family: NfFamily,
    /// The name of the table.
    pub table: String,
    /// The name of the flow table.
    pub name: String,
    /// The handle of the object in the kernel. It is output only: in input it is ignored, but for
    /// where an object is referred to by it.
    pub handle: Option<u32>,
    /// The hook of the flow table.
    pub hook: Option<NfHook>,
    /// The priority of the flow table.
    pub prio: Option<u32>,
    /// The devices of the flow table: read from one name or from a list of names, and always
    /// written as a list.
    pub dev: Option<Vec<String>>,
}

/// The mathematical value of a [`FlowTable`].
pub ghost struct FlowTableView {
    pub family: NfFamily,
    pub table: Seq<char>,
    pub name: Seq<char>,
    pub handle: Option<u32>,
    pub hook: Option<NfHook>,
    pub prio: Option<u32>,
    pub dev: Option<Seq<Seq<char>>>,
}

impl DeepView for FlowTable {
    type V = FlowTableView;

    open spec fn deep_view(&self) -> FlowTableView {
        FlowTableView {
            family: self.family,
            table: self.table@,
            name: self.name@,
            handle: self.handle,
            hook: self.hook,
            prio: self.prio,
            dev: match self.dev {
                Some(x) => Some(x.deep_view()),
                None => None,
            },
        }
    }
}

impl FlowTableView {
    /// The wire form: an object with one member for each field that has a value.
    pub open spec fn to_wire(self) -> JsonView {
        let m = Seq::empty();
        let m = m.push(("family"@, enc_token(self.family)));
        let m = m.push(("table"@, JsonView::String(self.table)));
        let m = m.push(("name"@, JsonView::String(self.name)));
        let m = with_opt(
            m,
            "handle"@,
            match self.handle {
                Some(v) => Some(JsonView::Number(v as int)),
                None => None,
            },
        );
        let m = with_opt(
            m,
            "hook"@,
            match self.hook {
                Some(v) => Some(enc_token(v)),
                None => None,
            },
        );
        let m = with_opt(
            m,
            "prio"@,
            match self.prio {
                Some(v) => Some(JsonView::Number(v as int)),
                None => None,
            },
        );
        let m = with_opt(
            m,
            "dev"@,
            match self.dev {
                Some(v) => Some(enc_strings(v)),
                None => None,
            },
        );
        JsonView::Object(m)
    }

    /// What a wire value decodes to: the fields are read by their keys, in the order
    /// in which the type lists them, and the first that fails decides the failure.
    pub open spec fn from_wire(j: JsonView) -> Result<FlowTableView, DecodeErrorView> {
        match j {
            JsonView::Object(m) => {
                let family = match lookup(m, "family"@) {
                    Some(v) => at_key(dec_token::<NfFamily>(v), "family"@),
                    None => Err(DecodeErrorView::missing("family"@)),
                };
                let table = match lookup(m, "table"@) {
                    Some(v) => at_key(dec_string(v), "table"@),
                    None => Err(DecodeErrorView::missing("table"@)),
                };
                let name = match lookup(m, "name"@) {
                    Some(v) => at_key(dec_string(v), "name"@),
                    None => Err(DecodeErrorView::missing("name"@)),
                };
                let handle = match optional(m, "handle"@) {
                    Some(v) => at_key(some(dec_u32(v)), "handle"@),
                    None => Ok(None),
                };
                let hook = match optional(m, "hook"@) {
                    Some(v) => at_key(some(dec_token::<NfHook>(v)), "hook"@),
                    None => Ok(None),
                };
                let prio = match optional(m, "prio"@) {
                    Some(v) => at_key(some(dec_u32(v)), "prio"@),
                    None => Ok(None),
                };
                let dev = match optional(m, "dev"@) {
                    Some(v) => at_key(dec_opt_strings(v), "dev"@),
                    None => Ok(None),
                };
                if family is Err {
                    Err(family->Err_0)
                } else if table is Err {
                    Err(table->Err_0)
                } else if name is Err {
                    Err(name->Err_0)
                } else if handle is Err {
                    Err(handle->Err_0)
                } else if hook is Err {
                    Err(hook->Err_0)
                } else if prio is Err {
                    Err(prio->Err_0)
                } else if dev is Err {
                    Err(dev->Err_0)
                } else {
                    Ok(
                        FlowTableView {
                            family: family->Ok_0,
                            table: table->Ok_0,
                            name: name->Ok_0,
                            handle: handle->Ok_0,
                            hook: hook->Ok_0,
                            prio: prio->Ok_0,
                            dev: dev->Ok_0,
                        },
                    )
                }
            },
            _ => Err(DecodeErrorView::shape()),
        }
    }

    /// Whether decoding the wire form gives this value back.
    pub open spec fn canonical(self) -> bool {
        &&& (self.dev matches Some(v) ==> v.len() > 0)
    }

    /// The keys of the wire form differ from one another.
    pub proof fn lemma_keys()
        ensures
            "family"@ != "table"@,
            "family"@ != "name"@,
            "family"@ != "handle"@,
            "family"@ != "hook"@,
            "family"@ != "prio"@,
            "family"@ != "dev"@,
            "table"@ != "name"@,
            "table"@ != "handle"@,
            "table"@ != "hook"@,
            "table"@ != "prio"@,
            "table"@ != "dev"@,
            "name"@ != "handle"@,
            "name"@ != "hook"@,
            "name"@ != "prio"@,
            "name"@ != "dev"@,
            "handle"@ != "hook"@,
            "handle"@ != "prio"@,
            "handle"@ != "dev"@,
            "hook"@ != "prio"@,
            "hook"@ != "dev"@,
            "prio"@ != "dev"@,
    {
        reveal_strlit("family");
        reveal_strlit("table");
        reveal_strlit("name");
        reveal_strlit("handle");
        reveal_strlit("hook");
        reveal_strlit("prio");
        reveal_strlit("dev");
        assert("family"@.len() == 6 && "family"@[0] == 'f');
        assert("table"@.len() == 5);
        assert("name"@.len() == 4 && "name"@[0] == 'n');
        assert("handle"@.len() == 6 && "handle"@[0] == 'h');
        assert("hook"@.len() == 4 && "hook"@[0] == 'h');
        assert("prio"@.len() == 4 && "prio"@[0] == 'p');
        assert("dev"@.len() == 3);
    }

    /// What the wire form holds under each key.
    pub proof fn lemma_members(self)
        ensures
            self.to_wire() is Object,
            lookup(self.to_wire()->Object_0, "family"@) == Some(enc_token(self.family)),
            lookup(self.to_wire()->Object_0, "table"@) == Some(JsonView::String(self.table)),
            lookup(self.to_wire()->Object_0, "name"@) == Some(JsonView::String(self.name)),
            lookup(self.to_wire()->Object_0, "handle"@) == match self.handle {
                Some(v) => Some(JsonView::Number(v as int)),
                None => None,
            },
            lookup(self.to_wire()->Object_0, "hook"@) == match self.hook {
                Some(v) => Some(enc_token(v)),
                None => None,
            },
            lookup(self.to_wire()->Object_0, "prio"@) == match self.prio {
                Some(v) => Some(JsonView::Number(v as int)),
                None => None,
            },
            lookup(self.to_wire()->Object_0, "dev"@) == match self.dev {
                Some(v) => Some(enc_strings(v)),
                None => None,
            },
    {
        Self::lemma_keys();
        assert(lookup(self.to_wire()->Object_0, "family"@) == Some(enc_token(self.family))) by {
            broadcast use {lemma_lookup_push, lemma_lookup_empty, lemma_with_opt};
        }
        assert(
            lookup(self.to_wire()->Object_0, "table"@) == Some(JsonView::String(self.table))
        ) by {
            broadcast use {lemma_lookup_push, lemma_lookup_empty, lemma_with_opt};
        }
        assert(lookup(self.to_wire()->Object_0, "name"@) == Some(JsonView::String(self.name))) by {
            broadcast use {lemma_lookup_push, lemma_lookup_empty, lemma_with_opt};
        }
        assert(lookup(self.to_wire()->Object_0, "handle"@) == match self.handle {
            Some(v) => Some(JsonView::Number(v as int)),
            None => None,
        }) by {
            broadcast use {lemma_lookup_push, lemma_lookup_empty, lemma_with_opt};
        }
        assert(lookup(self.to_wire()->Object_0, "hook"@) == match self.hook {
            Some(v) => Some(enc_token(v)),
            None => None,
        }) by {
            broadcast use {lemma_lookup_push, lemma_lookup_empty, lemma_with_opt};
        }
        assert(lookup(self.to_wire()->Object_0, "prio"@) == match self.prio {
            Some(v) => Some(JsonView::Number(v as int)),
            None => None,
        }) by {
            broadcast use {lemma_lookup_push, lemma_lookup_empty, lemma_with_opt};
        }
        assert(lookup(self.to_wire()->Object_0, "dev"@) == match self.dev {
            Some(v) => Some(enc_strings(v)),
            None => None,
        }) by {
            broadcast use {lemma_lookup_push, lemma_lookup_empty, lemma_with_opt};
        }
    }

    /// Decoding the wire form of a value gives the value back.
    pub proof fn lemma_round_trip(self)
        requires
            self.canonical(),
        ensures
            Self::from_wire(self.to_wire()) == Ok::<FlowTableView, DecodeErrorView>(self),
    {
        self.lemma_members();
        lemma_token_round_trip(self.family);
        match self.hook {
            Some(v) => {
                lemma_token_round_trip(v);
            },
            None => {},
        }
        match self.dev {
            Some(v) => {
                lemma_strings_round_trip(v);
            },
            None => {},
        }
    }

    /// The order in which the members of an object stand does not matter to what
    /// the object decodes to.
    pub proof fn lemma_member_order(
        a: Seq<(Seq<char>, JsonView)>,
        b: Seq<(Seq<char>, JsonView)>,
    )
        requires
            same_members(a, b),
        ensures
            Self::from_wire(JsonView::Object(a)) == Self::from_wire(JsonView::Object(b)),
    {
        assert(lookup(a, "family"@) == lookup(b, "family"@));
        assert(lookup(a, "table"@) == lookup(b, "table"@));
        assert(lookup(a, "name"@) == lookup(b, "name"@));
        assert(lookup(a, "handle"@) == lookup(b, "handle"@));
        assert(lookup(a, "hook"@) == lookup(b, "hook"@));
        assert(lookup(a, "prio"@) == lookup(b, "prio"@));
        assert(lookup(a, "dev"@) == lookup(b, "dev"@));
    }

    /// Where an object fails to decode, the failure names the field that it lies in:
    /// its path begins with the key of one of the fields.
    pub proof fn lemma_failure_names_field(m: Seq<(Seq<char>, JsonView)>)
        ensures
            Self::from_wire(JsonView::Object(m)) matches Err(e) ==> e.path.len() > 0 && {
                ||| e.path[0] == PathSegmentView::Key("family"@)
                ||| e.path[0] == PathSegmentView::Key("table"@)
                ||| e.path[0] == PathSegmentView::Key("name"@)
                ||| e.path[0] == PathSegmentView::Key("handle"@)
                ||| e.path[0] == PathSegmentView::Key("hook"@)
                ||| e.path[0] == PathSegmentView::Key("prio"@)
                ||| e.path[0] == PathSegmentView::Key("dev"@)
            },
    {
        broadcast use lemma_under_key_path;
    }
}

impl FlowTable {
    /// Encodes the value in its wire form.
    pub fn encode(&self) -> (j: Json)
        ensures
            j.deep_view() == self.deep_view().to_wire(),
    {
        let mut m: Vec<(String, Json)> = Vec::new();
        assert(members_view(m) =~= Seq::empty());
        put(&mut m, "family", encode_token(&self.family));
        put(&mut m, "table", Json::String(self.table.clone()));
        put(&mut m, "name", Json::String(self.name.clone()));
        match &self.handle {
            Some(v) => put(&mut m, "handle", Json::Number(*v as i128)),
            None => {},
        }
        match &self.hook {
            Some(v) => put(&mut m, "hook", encode_token(v)),
            None => {},
        }
        match &self.prio {
            Some(v) => put(&mut m, "prio", Json::Number(*v as i128)),
            None => {},
        }
        match &self.dev {
            Some(v) => put(&mut m, "dev", encode_strings(v)),
            None => {},
        }
        Json::Object(m)
    }

    /// Decodes a wire value.
    pub fn decode(j: &Json) -> (r: Result<FlowTable, DecodeError>)
        ensures
            decoded(r, FlowTableView::from_wire(j.deep_view())),
    {
        match j {
            Json::Object(m) => {
                let family = match find(m, "family") {
                    Some(v) => match decode_token::<NfFamily>(v) {
                        Ok(x) => x,
                        Err(e) => return Err(e.under_key("family")),
                    },
                    None => return Err(DecodeError::missing("family")),
                };
                let table = match find(m, "table") {
                    Some(v) => match decode_string(v) {
                        Ok(x) => x,
                        Err(e) => return Err(e.under_key("table")),
                    },
                    None => return Err(DecodeError::missing("table")),
                };
                let name = match find(m, "name") {
                    Some(v) => match decode_string(v) {
                        Ok(x) => x,
                        Err(e) => return Err(e.under_key("name")),
                    },
                    None => return Err(DecodeError::missing("name")),
                };
                let handle = match present(m, "handle") {
                    Some(v) => match decode_u32(v) {
                        Ok(x) => Some(x),
                        Err(e) => return Err(e.under_key("handle")),
                    },
                    None => None,
                };
                let hook = match present(m, "hook") {
                    Some(v) => match decode_token::<NfHook>(v) {
                        Ok(x) => Some(x),
                        Err(e) => return Err(e.under_key("hook")),
                    },
                    None => None,
                };
                let prio = match present(m, "prio") {
                    Some(v) => match decode_u32(v) {
                        Ok(x) => Some(x),
                        Err(e) => return Err(e.under_key("prio")),
                    },
                    None => None,
                };
                let dev = match present(m, "dev") {
                    Some(v) => match single_string_to_option_vec(v) {
                        Ok(x) => x,
                        Err(e) => return Err(e.under_key("dev")),
                    },
                    None => None,
                };
                Ok(FlowTable { family, table, name, handle, hook, prio, dev })
            },
            _ => Err(DecodeError::shape()),
        }
    }
}

impl Clone for FlowTable {
    fn clone(&self) -> (r: Self)
        ensures
            r.deep_view() == self.deep_view(),
    {
        FlowTable {
            family: self.family,
            table: self.table.clone(),
            name: self.name.clone(),
            handle: self.handle,
            hook: self.hook,
            prio: self.prio,
            dev: match &self.dev {
                Some(x) => Some(clone_strings(x)),
                None => None,
            },
        }
    }
}

/// A named counter.
#[derive(Debug, PartialEq, Eq)]
pub struct Counter {
    /// The family of the table.
    pub family: NfFamily,
    /// The name of the table.
    pub table: String,
    /// The name of the counter.
    pub name: String,
    /// The handle of the object in the kernel. It is output only: in input it is ignored, but for
    /// where an object is referred to by it.
    pub handle: Option<u32>,
    /// The number of packets counted.
    pub packets: Option<u32>,
    /// The number of bytes counted.
    pub bytes: Option<u32>,
}

/// The mathematical value of a [`Counter`].
pub ghost struct CounterView {
    pub family: NfFamily,
    pub table: Seq<char>,
    pub name: Seq<char>,
    pub handle: Option<u32>,
    pub packets: Option<u32>,
    pub bytes: Option<u32>,
}

impl DeepView for Counter {
    type V = CounterView;

    open spec fn deep_view(&self) -> CounterView {
        CounterView {
            family: self.family,
            table: self.table@,
            name: self.name@,
            handle: self.handle,
            packets: self.packets,
            bytes: self.bytes,
        }
    }
}

impl CounterView {
    /// The wire form: an object with one member for each field that has a value.
    pub open spec fn to_wire(self) -> JsonView {
        let m = Seq::empty();
        let m = m.push(("family"@, enc_token(self.family)));
        let m = m.push(("table"@, JsonView::String(self.table)));
        let m = m.push(("name"@, JsonView::String(self.name)));
        let m = with_opt(
            m,
            "handle"@,
            match self.handle {
                Some(v) => Some(JsonView::Number(v as int)),
                None => None,
            },
        );
        let m = with_opt(
            m,
            "packets"@,
            match self.packets {
                Some(v) => Some(JsonView::Number(v as int)),
                None => None,
            },
        );
        let m = with_opt(
            m,
            "bytes"@,
            match self.bytes {
                Some(v) => Some(JsonView::Number(v as int)),
                None => None,
            },
        );
        JsonView::Object(m)
    }

    /// What a wire value decodes to: the fields are read by their keys, in the order
    /// in which the type lists them, and the first that fails decides the failure.
    pub open spec fn from_wire(j: JsonView) -> Result<CounterView, DecodeErrorView> {
        match j {
            JsonView::Object(m) => {
                let family = match lookup(m, "family"@) {
                    Some(v) => at_key(dec_token::<NfFamily>(v), "family"@),
                    None => Err(DecodeErrorView::missing("family"@)),
                };
                let table = match lookup(m, "table"@) {
                    Some(v) => at_key(dec_string(v), "table"@),
                    None => Err(DecodeErrorView::missing("table"@)),
                };
                let name = match lookup(m, "name"@) {
                    Some(v) => at_key(dec_string(v), "name"@),
                    None => Err(DecodeErrorView::missing("name"@)),
                };
                let handle = match optional(m, "handle"@) {
                    Some(v) => at_key(some(dec_u32(v)), "handle"@),
                    None => Ok(None),
                };
                let packets = match optional(m, "packets"@) {
                    Some(v) => at_key(some(dec_u32(v)), "packets"@),
                    None => Ok(None),
                };
                let bytes = match optional(m, "bytes"@) {
                    Some(v) => at_key(some(dec_u32(v)), "bytes"@),
                    None => Ok(None),
                };
                if family is Err {
                    Err(family->Err_0)
                } else if table is Err {
                    Err(table->Err_0)
                } else if name is Err {
                    Err(name->Err_0)
                } else if handle is Err {
                    Err(handle->Err_0)
                } else if packets is Err {
                    Err(packets->Err_0)
                } else if bytes is Err {
                    Err(bytes->Err_0)
                } else {
                    Ok(
                        CounterView {
                            family: family->Ok_0,
                            table: table->Ok_0,
                            name: name->Ok_0,
                            handle: handle->Ok_0,
                            packets: packets->Ok_0,
                            bytes: bytes->Ok_0,
                        },
                    )
                }
            },
            _ => Err(DecodeErrorView::shape()),
        }
    }

    /// What the wire form holds under each key.
    pub proof fn lemma_members(self)
        ensures
            self.to_wire() is Object,
            lookup(self.to_wire()->Object_0, "family"@) == Some(enc_token(self.family)),
            lookup(self.to_wire()->Object_0, "table"@) == Some(JsonView::String(self.table)),
            lookup(self.to_wire()->Object_0, "name"@) == Some(JsonView::String(self.name)),
            lookup(self.to_wire()->Object_0, "handle"@) == match self.handle {
                Some(v) => Some(JsonView::Number(v as int)),
                None => None,
            },
            lookup(self.to_wire()->Object_0, "packets"@) == match self.packets {
                Some(v) => Some(JsonView::Number(v as int)),
                None => None,
            },
            lookup(self.to_wire()->Object_0, "bytes"@) == match self.bytes {
                Some(v) => Some(JsonView::Number(v as int)),
                None => None,
            },
    {
        broadcast use {lemma_lookup_push, lemma_lookup_empty, lemma_with_opt};
        reveal_strlit("family");
        reveal_strlit("table");
        reveal_strlit("name");
        reveal_strlit("handle");
        reveal_strlit("packets");
        reveal_strlit("bytes");
        assert("family"@.len() == 6 && "family"@[0] == 'f');
        assert("table"@.len() == 5 && "table"@[0] == 't');
        assert("name"@.len() == 4);
        assert("handle"@.len() == 6 && "handle"@[0] == 'h');
        assert("packets"@.len() == 7);
        assert("bytes"@.len() == 5 && "bytes"@[0] == 'b');
    }

    /// Decoding the wire form of a value gives the value back.
    pub proof fn lemma_round_trip(self)
        ensures
            Self::from_wire(self.to_wire()) == Ok::<CounterView, DecodeErrorView>(self),
    {
        self.lemma_members();
        lemma_token_round_trip(self.family);
    }

    /// The order in which the members of an object stand does not matter to what
    /// the object decodes to.
    pub proof fn lemma_member_order(
        a: Seq<(Seq<char>, JsonView)>,
        b: Seq<(Seq<char>, JsonView)>,
    )
        requires
            same_members(a, b),
        ensures
            Self::from_wire(JsonView::Object(a)) == Self::from_wire(JsonView::Object(b)),
    {
        assert(lookup(a, "family"@) == lookup(b, "family"@));
        assert(lookup(a, "table"@) == lookup(b, "table"@));
        assert(lookup(a, "name"@) == lookup(b, "name"@));
        assert(lookup(a, "handle"@) == lookup(b, "handle"@));
        assert(lookup(a, "packets"@) == lookup(b, "packets"@));
        assert(lookup(a, "bytes"@) == lookup(b, "bytes"@));
    }

    /// Where an object fails to decode, the failure names the field that it lies in:
    /// its path begins with the key of one of the fields.
    pub proof fn lemma_failure_names_field(m: Seq<(Seq<char>, JsonView)>)
        ensures
            Self::from_wire(JsonView::Object(m)) matches Err(e) ==> e.path.len() > 0 && {
                ||| e.path[0] == PathSegmentView::Key("family"@)
                ||| e.path[0] == PathSegmentView::Key("table"@)
                ||| e.path[0] == PathSegmentView::Key("name"@)
                ||| e.path[0] == PathSegmentView::Key("handle"@)
                ||| e.path[0] == PathSegmentView::Key("packets"@)
                ||| e.path[0] == PathSegmentView::Key("bytes"@)
            },
    {
        broadcast use lemma_under_key_path;
    }
}

impl Counter {
    /// Encodes the value in its wire form.
    pub fn encode(&self) -> (j: Json)
        ensures
            j.deep_view() == self.deep_view().to_wire(),
    {
        let mut m: Vec<(String, Json)> = Vec::new();
        assert(members_view(m) =~= Seq::empty());
        put(&mut m, "family", encode_token(&self.family));
        put(&mut m, "table", Json::String(self.table.clone()));
        put(&mut m, "name", Json::String(self.name.clone()));
        match &self.handle {
            Some(v) => put(&mut m, "handle", Json::Number(*v as i128)),
            None => {},
        }
        match &self.packets {
            Some(v) => put(&mut m, "packets", Json::Number(*v as i128)),
            None => {},
        }
        match &self.bytes {
            Some(v) => put(&mut m, "bytes", Json::Number(*v as i128)),
            None => {},
        }
        Json::Object(m)
    }

    /// Decodes a wire value.
    pub fn decode(j: &Json) -> (r: Result<Counter, DecodeError>)
        ensures
            decoded(r, CounterView::from_wire(j.deep_view())),
    {
        match j {
            Json::Object(m) => {
                let family = match find(m, "family") {
                    Some(v) => match decode_token::<NfFamily>(v) {
                        Ok(x) => x,
                        Err(e) => return Err(e.under_key("family")),
                    },
                    None => return Err(DecodeError::missing("family")),
                };
                let table = match find(m, "table") {
                    Some(v) => match decode_string(v) {
                        Ok(x) => x,
                        Err(e) => return Err(e.under_key("table")),
                    },
                    None => return Err(DecodeError::missing("table")),
                };
                let name = match find(m, "name") {
                    Some(v) => match decode_string(v) {
                        Ok(x) => x,
                        Err(e) => return Err(e.under_key("name")),
                    },
                    None => return Err(DecodeError::missing("name")),
                };
                let handle = match present(m, "handle") {
                    Some(v) => match decode_u32(v) {
                        Ok(x) => Some(x),
                        Err(e) => return Err(e.under_key("handle")),
                    },
                    None => None,
                };
                let packets = match present(m, "packets") {
                    Some(v) => match decode_u32(v) {
                        Ok(x) => Some(x),
                        Err(e) => return Err(e.under_key("packets")),
                    },
                    None => None,
                };
                let bytes = match present(m, "bytes") {
                    Some(v) => match decode_u32(v) {
                        Ok(x) => Some(x),
                        Err(e) => return Err(e.under_key("bytes")),
                    },
                    None => None,
                };
                Ok(Counter { family, table, name, handle, packets, bytes })
            },
            _ => Err(DecodeError::shape()),
        }
    }
}

impl Clone for Counter {
    fn clone(&self) -> (r: Self)
        ensures
            r.deep_view() == self.deep_view(),
    {
        Counter {
            family: self.family,
            table: self.table.clone(),
            name: self.name.clone(),
            handle: self.handle,
            packets: self.packets,
            bytes: self.bytes,
        }
    }
}

/// A named quota.
#[derive(Debug, PartialEq, Eq)]
pub struct Quota {
    /// The family of the table.
    pub family: NfFamily,
    /// The name of the table.
    pub table: String,
    /// The name of the quota.
    pub name: String,
    /// The handle of the object in the kernel. It is output only: in input it is ignored, but for
    /// where an object is referred to by it.
    pub handle: Option<u32>,
    /// The quota, in bytes.
    pub bytes: Option<u32>,
    /// What is used of the quota already, in bytes.
    pub used: Option<u32>,
    /// Whether the quota matches once it is exceeded.
    pub inv: Option<bool>,
}

/// The mathematical value of a [`Quota`].
pub ghost struct QuotaView {
    pub family: NfFamily,
    pub table: Seq<char>,
    pub name: Seq<char>,
    pub handle: Option<u32>,
    pub bytes: Option<u32>,
    pub used: Option<u32>,
    pub inv: Option<bool>,
}

impl DeepView for Quota {
    type V = QuotaView;

    open spec fn deep_view(&self) -> QuotaView {
        QuotaView {
            family: self.family,
            table: self.table@,
            name: self.name@,
            handle: self.handle,
            bytes: self.bytes,
            used: self.used,
            inv: self.inv,
        }
    }
}

impl QuotaView {
    /// The wire form: an object with one member for each field that has a value.
    pub open spec fn to_wire(self) -> JsonView {
        let m = Seq::empty();
        let m = m.push(("family"@, enc_token(self.family)));
        let m = m.push(("table"@, JsonView::String(self.table)));
        let m = m.push(("name"@, JsonView::String(self.name)));
        let m = with_opt(
            m,
            "handle"@,
            match self.handle {
                Some(v) => Some(JsonView::Number(v as int)),
                None => None,
            },
        );
        let m = with_opt(
            m,
            "bytes"@,
            match self.bytes {
                Some(v) => Some(JsonView::Number(v as int)),
                None => None,
            },
        );
        let m = with_opt(
            m,
            "used"@,
            match self.used {
                Some(v) => Some(JsonView::Number(v as int)),
                None => None,
            },
        );
        let m = with_opt(
            m,
            "inv"@,
            match self.inv {
                Some(v) => Some(JsonView::Bool(v)),
                None => None,
            },
        );
        JsonView::Object(m)
    }

    /// What a wire value decodes to: the fields are read by their keys, in the order
    /// in which the type lists them, and the first that fails decides the failure.
    pub open spec fn from_wire(j: JsonView) -> Result<QuotaView, DecodeErrorView> {
        match j {
            JsonView::Object(m) => {
                let family = match lookup(m, "family"@) {
                    Some(v) => at_key(dec_token::<NfFamily>(v), "family"@),
                    None => Err(DecodeErrorView::missing("family"@)),
                };
                let table = match lookup(m, "table"@) {
                    Some(v) => at_key(dec_string(v), "table"@),
                    None => Err(DecodeErrorView::missing("table"@)),
                };
                let name = match lookup(m, "name"@) {
                    Some(v) => at_key(dec_string(v), "name"@),
                    None => Err(DecodeErrorView::missing("name"@)),
                };
                let handle = match optional(m, "handle"@) {
                    Some(v) => at_key(some(dec_u32(v)), "handle"@),
                    None => Ok(None),
                };
                let bytes = match optional(m, "bytes"@) {
                    Some(v) => at_key(some(dec_u32(v)), "bytes"@),
                    None => Ok(None),
                };
                let used = match optional(m, "used"@) {
                    Some(v) => at_key(some(dec_u32(v)), "used"@),
                    None => Ok(None),
                };
                let inv = match optional(m, "inv"@) {
                    Some(v) => at_key(some(dec_bool(v)), "inv"@),
                    None => Ok(None),
                };
                if family is Err {
                    Err(family->Err_0)
                } else if table is Err {
                    Err(table->Err_0)
                } else if name is Err {
                    Err(name->Err_0)
                } else if handle is Err {
                    Err(handle->Err_0)
                } else if bytes is Err {
                    Err(bytes->Err_0)
                } else if used is Err {
                    Err(used->Err_0)
                } else if inv is Err {
                    Err(inv->Err_0)
                } else {
                    Ok(
                        QuotaView {
                            family: family->Ok_0,
                            table: table->Ok_0,
                            name: name->Ok_0,
                            handle: handle->Ok_0,
                            bytes: bytes->Ok_0,
                            used: used->Ok_0,
                            inv: inv->Ok_0,
                        },
                    )
                }
            },
            _ => Err(DecodeErrorView::shape()),
        }
    }

    /// The keys of the wire form differ from one another.
    pub proof fn lemma_keys()
        ensures
            "family"@ != "table"@,
            "family"@ != "name"@,
            "family"@ != "handle"@,
            "family"@ != "bytes"@,
            "family"@ != "used"@,
            "family"@ != "inv"@,
            "table"@ != "name"@,
            "table"@ != "handle"@,
            "table"@ != "bytes"@,
            "table"@ != "used"@,
            "table"@ != "inv"@,
            "name"@ != "handle"@,
            "name"@ != "bytes"@,
            "name"@ != "used"@,
            "name"@ != "inv"@,
            "handle"@ != "bytes"@,
            "handle"@ != "used"@,
            "handle"@ != "inv"@,
            "bytes"@ != "used"@,
            "bytes"@ != "inv"@,
            "used"@ != "inv"@,
    {
        reveal_strlit("family");
        reveal_strlit("table");
        reveal_strlit("name");
        reveal_strlit("handle");
        reveal_strlit("bytes");
        reveal_strlit("used");
        reveal_strlit("inv");
        assert("family"@.len() == 6 && "family"@[0] == 'f');
        assert("table"@.len() == 5 && "table"@[0] == 't');
        assert("name"@.len() == 4 && "name"@[0] == 'n');
        assert("handle"@.len() == 6 && "handle"@[0] == 'h');
        assert("bytes"@.len() == 5 && "bytes"@[0] == 'b');
        assert("used"@.len() == 4 && "used"@[0] == 'u');
        assert("inv"@.len() == 3);
    }

    /// What the wire form holds under each key.
    pub proof fn lemma_members(self)
        ensures
            self.to_wire() is Object,
            lookup(self.to_wire()->Object_0, "family"@) == Some(enc_token(self.family)),
            lookup(self.to_wire()->Object_0, "table"@) == Some(JsonView::String(self.table)),
            lookup(self.to_wire()->Object_0, "name"@) == Some(JsonView::String(self.name)),
            lookup(self.to_wire()->Object_0, "handle"@) == match self.handle {
                Some(v) => Some(JsonView::Number(v as int)),
                None => None,
            },
            lookup(self.to_wire()->Object_0, "bytes"@) == match self.bytes {
                Some(v) => Some(JsonView::Number(v as int)),
                None => None,
            },
            lookup(self.to_wire()->Object_0, "used"@) == match self.used {
                Some(v) => Some(JsonView::Number(v as int)),
                None => None,
            },
            lookup(self.to_wire()->Object_0, "inv"@) == match self.inv {
                Some(v) => Some(JsonView::Bool(v)),
                None => None,
            },
    {
        Self::lemma_keys();
        assert(lookup(self.to_wire()->Object_0, "family"@) == Some(enc_token(self.family))) by {
            broadcast use {lemma_lookup_push, lemma_lookup_empty, lemma_with_opt};
        }
        assert(
            lookup(self.to_wire()->Object_0, "table"@) == Some(JsonView::String(self.table))
        ) by {
            broadcast use {lemma_lookup_push, lemma_lookup_empty, lemma_with_opt};
        }
        assert(lookup(self.to_wire()->Object_0, "name"@) == Some(JsonView::String(self.name))) by {
            broadcast use {lemma_lookup_push, lemma_lookup_empty, lemma_with_opt};
        }
        assert(lookup(self.to_wire()->Object_0, "handle"@) == match self.handle {
            Some(v) => Some(JsonView::Number(v as int)),
            None => None,
        }) by {
            broadcast use {lemma_lookup_push, lemma_lookup_empty, lemma_with_opt};
        }
        assert(lookup(self.to_wire()->Object_0, "bytes"@) == match self.bytes {
            Some(v) => Some(JsonView::Number(v as int)),
            None => None,
        }) by {
            broadcast use {lemma_lookup_push, lemma_lookup_empty, lemma_with_opt};
        }
        assert(lookup(self.to_wire()->Object_0, "used"@) == match self.used {
            Some(v) => Some(JsonView::Number(v as int)),
            None => None,
        }) by {
            broadcast use {lemma_lookup_push, lemma_lookup_empty, lemma_with_opt};
        }
        assert(lookup(self.to_wire()->Object_0, "inv"@) == match self.inv {
            Some(v) => Some(JsonView::Bool(v)),
            None => None,
        }) by {
            broadcast use {lemma_lookup_push, lemma_lookup_empty, lemma_with_opt};
        }
    }

    /// Decoding the wire form of a value gives the value back.
    pub proof fn lemma_round_trip(self)
        ensures
            Self::from_wire(self.to_wire()) == Ok::<QuotaView, DecodeErrorView>(self),
    {
        self.lemma_members();
        lemma_token_round_trip(self.family);
    }

    /// The order in which the members of an object stand does not matter to what
    /// the object decodes to.
    pub proof fn lemma_member_order(
        a: Seq<(Seq<char>, JsonView)>,
        b: Seq<(Seq<char>, JsonView)>,
    )
        requires
            same_members(a, b),
        ensures
            Self::from_wire(JsonView::Object(a)) == Self::from_wire(JsonView::Object(b)),
    {
        assert(lookup(a, "family"@) == lookup(b, "family"@));
        assert(lookup(a, "table"@) == lookup(b, "table"@));
        assert(lookup(a, "name"@) == lookup(b, "name"@));
        assert(lookup(a, "handle"@) == lookup(b, "handle"@));
        assert(lookup(a, "bytes"@) == lookup(b, "bytes"@));
        assert(lookup(a, "used"@) == lookup(b, "used"@));
        assert(lookup(a, "inv"@) == lookup(b, "inv"@));
    }

    /// Where an object fails to decode, the failure names the field that it lies in:
    /// its path begins with the key of one of the fields.
    pub proof fn lemma_failure_names_field(m: Seq<(Seq<char>, JsonView)>)
        ensures
            Self::from_wire(JsonView::Object(m)) matches Err(e) ==> e.path.len() > 0 && {
                ||| e.path[0] == PathSegmentView::Key("family"@)
                ||| e.path[0] == PathSegmentView::Key("table"@)
                ||| e.path[0] == PathSegmentView::Key("name"@)
                ||| e.path[0] == PathSegmentView::Key("handle"@)
                ||| e.path[0] == PathSegmentView::Key("bytes"@)
                ||| e.path[0] == PathSegmentView::Key("used"@)
                ||| e.path[0] == PathSegmentView::Key("inv"@)
            },
    {
        broadcast use lemma_under_key_path;
    }
}

impl Quota {
    /// Encodes the value in its wire form.
    pub fn encode(&self) -> (j: Json)
        ensures
            j.deep_view() == self.deep_view().to_wire(),
    {
        let mut m: Vec<(String, Json)> = Vec::new();
        assert(members_view(m) =~= Seq::empty());
        put(&mut m, "family", encode_token(&self.family));
        put(&mut m, "table", Json::String(self.table.clone()));
        put(&mut m, "name", Json::String(self.name.clone()));
        match &self.handle {
            Some(v) => put(&mut m, "handle", Json::Number(*v as i128)),
            None => {},
        }
        match &self.bytes {
            Some(v) => put(&mut m, "bytes", Json::Number(*v as i128)),
            None => {},
        }
        match &self.used {
            Some(v) => put(&mut m, "used", Json::Number(*v as i128)),
            None => {},
        }
        match &self.inv {
            Some(v) => put(&mut m, "inv", Json::Bool(*v)),
            None => {},
        }
        Json::Object(m)
    }

    /// Decodes a wire value.
    pub fn decode(j: &Json) -> (r: Result<Quota, DecodeError>)
        ensures
            decoded(r, QuotaView::from_wire(j.deep_view())),
    {
        match j {
            Json::Object(m) => {
                let family = match find(m, "family") {
                    Some(v) => match decode_token::<NfFamily>(v) {
                        Ok(x) => x,
                        Err(e) => return Err(e.under_key("family")),
                    },
                    None => return Err(DecodeError::missing("family")),
                };
                let table = match find(m, "table") {
                    Some(v) => match decode_string(v) {
                        Ok(x) => x,
                        Err(e) => return Err(e.under_key("table")),
                    },
                    None => return Err(DecodeError::missing("table")),
                };
                let name = match find(m, "name") {
                    Some(v) => match decode_string(v) {
                        Ok(x) => x,
                        Err(e) => return Err(e.under_key("name")),
                    },
                    None => return Err(DecodeError::missing("name")),
                };
                let handle = match present(m, "handle") {
                    Some(v) => match decode_u32(v) {
                        Ok(x) => Some(x),
                        Err(e) => return Err(e.under_key("handle")),
                    },
                    None => None,
                };
                let bytes = match present(m, "bytes") {
                    Some(v) => match decode_u32(v) {
                        Ok(x) => Some(x),
                        Err(e) => return Err(e.under_key("bytes")),
                    },
                    None => None,
                };
                let used = match present(m, "used") {
                    Some(v) => match decode_u32(v) {
                        Ok(x) => Some(x),
                        Err(e) => return Err(e.under_key("used")),
                    },
                    None => None,
                };
                let inv = match present(m, "inv") {
                    Some(v) => match decode_bool(v) {
                        Ok(x) => Some(x),
                        Err(e) => return Err(e.under_key("inv")),
                    },
                    None => None,
                };
                Ok(Quota { family, table, name, handle, bytes, used, inv })
            },
            _ => Err(DecodeError::shape()),
        }
    }
}

impl Clone for Quota {
    fn clone(&self) -> (r: Self)
        ensures
            r.deep_view() == self.deep_view(),
    {
        Quota {
            family: self.family,
            table: self.table.clone(),
            name: self.name.clone(),
            handle: self.handle,
            bytes: self.bytes,
            used: self.used,
            inv: self.inv,
        }
    }
}

/// A protocol of a conntrack helper or timeout policy.
#[derive(Debug, Clone, Copy, PartialEq, Eq, Hash)]
pub enum CTHProto {
    /// TCP.
    TCP,
    /// UDP.
    UDP,
    /// DCCP.
    DCCP,
    /// SCTP.
    SCTP,
    /// GRE.
    GRE,
    /// ICMPv6.
    ICMPv6,
    /// ICMP.
    ICMP,
    /// Any other protocol.
    Generic,
}

impl Token for CTHProto {
    open spec fn text(self) -> Seq<char> {
        match self {
            CTHProto::TCP => "tcp"@,
            CTHProto::UDP => "udp"@,
            CTHProto::DCCP => "dccp"@,
            CTHProto::SCTP => "sctp"@,
            CTHProto::GRE => "gre"@,
            CTHProto::ICMPv6 => "icmpv6"@,
            CTHProto::ICMP => "icmp"@,
            CTHProto::Generic => "generic"@,
        }
    }

    open spec fn from_text(s: Seq<char>) -> Option<Self> {
        if s == "tcp"@ {
            Some(CTHProto::TCP)
        } else if s == "udp"@ {
            Some(CTHProto::UDP)
        } else if s == "dccp"@ {
            Some(CTHProto::DCCP)
        } else if s == "sctp"@ {
            Some(CTHProto::SCTP)
        } else if s == "gre"@ {
            Some(CTHProto::GRE)
        } else if s == "icmpv6"@ {
            Some(CTHProto::ICMPv6)
        } else if s == "icmp"@ {
            Some(CTHProto::ICMP)
        } else if s == "generic"@ {
            Some(CTHProto::Generic)
        } else {
            None
        }
    }

    proof fn lemma_text(self) {
        reveal_strlit("tcp");
        reveal_strlit("udp");
        reveal_strlit("dccp");
        reveal_strlit("sctp");
        reveal_strlit("gre");
        reveal_strlit("icmpv6");
        reveal_strlit("icmp");
        reveal_strlit("generic");
        assert("tcp"@.len() == 3 && "tcp"@[0] == 't');
        assert("udp"@.len() == 3 && "udp"@[0] == 'u');
        assert("dccp"@.len() == 4 && "dccp"@[0] == 'd');
        assert("sctp"@.len() == 4 && "sctp"@[0] == 's');
        assert("gre"@.len() == 3 && "gre"@[0] == 'g');
        assert("icmpv6"@.len() == 6);
        assert("icmp"@.len() == 4 && "icmp"@[0] == 'i');
        assert("generic"@.len() == 7);
    }

    proof fn lemma_from_text(s: Seq<char>) {
    }

    fn as_str(&self) -> (s: &'static str) {
        match self {
            CTHProto::TCP => "tcp",
            CTHProto::UDP => "udp",
            CTHProto::DCCP => "dccp",
            CTHProto::SCTP => "sctp",
            CTHProto::GRE => "gre",
            CTHProto::ICMPv6 => "icmpv6",
            CTHProto::ICMP => "icmp",
            CTHProto::Generic => "generic",
        }
    }

    fn parse(s: &str) -> (r: Option<Self>) {
        if same_text(s, "tcp") {
            Some(CTHProto::TCP)
        } else if same_text(s, "udp") {
            Some(CTHProto::UDP)
        } else if same_text(s, "dccp") {
            Some(CTHProto::DCCP)
        } else if same_text(s, "sctp") {
            Some(CTHProto::SCTP)
        } else if same_text(s, "gre") {
            Some(CTHProto::GRE)
        } else if same_text(s, "icmpv6") {
            Some(CTHProto::ICMPv6)
        } else if same_text(s, "icmp") {
            Some(CTHProto::ICMP)
        } else if same_text(s, "generic") {
            Some(CTHProto::Generic)
        } else {
            None
        }
    }
}

/// A conntrack helper.
#[derive(Debug, PartialEq, Eq)]
pub struct CTHelper {
    /// The family of the table.
    pub family: NfFamily,
    /// The name of the table.
    pub table: String,
    /// The name of the helper.
    pub name: String,
    /// The handle of the object in the kernel. It is output only: in input it is ignored, but for
    /// where an object is referred to by it.
    pub handle: Option<u32>,
    /// The type of the helper, such as `ftp` or `tftp`.
    pub _type: String,
    /// The protocol of the helper.
    pub protocol: Option<String>,
    /// The layer 3 protocol of the helper.
    pub l3proto: Option<String>,
}

/// The mathematical value of a [`CTHelper`].
pub ghost struct CTHelperView {
    pub family: NfFamily,
    pub table: Seq<char>,
    pub name: Seq<char>,
    pub handle: Option<u32>,
    pub _type: Seq<char>,
    pub protocol: Option<Seq<char>>,
    pub l3proto: Option<Seq<char>>,
}

impl DeepView for CTHelper {
    type V = CTHelperView;

    open spec fn deep_view(&self) -> CTHelperView {
        CTHelperView {
            family: self.family,
            table: self.table@,
            name: self.name@,
            handle: self.handle,
            _type: self._type@,
            protocol: match self.protocol {
                Some(x) => Some(x@),
                None => None,
            },
            l3proto: match self.l3proto {
                Some(x) => Some(x@),
                None => None,
            },
        }
    }
}

impl CTHelperView {
    /// The wire form: an object with one member for each field that has a value.
    pub open spec fn to_wire(self) -> JsonView {
        let m = Seq::empty();
        let m = m.push(("family"@, enc_token(self.family)));
        let m = m.push(("table"@, JsonView::String(self.table)));
        let m = m.push(("name"@, JsonView::String(self.name)));
        let m = with_opt(
            m,
            "handle"@,
            match self.handle {
                Some(v) => Some(JsonView::Number(v as int)),
                None => None,
            },
        );
        let m = m.push(("type"@, JsonView::String(self._type)));
        let m = with_opt(
            m,
            "protocol"@,
            match self.protocol {
                Some(v) => Some(JsonView::String(v)),
                None => None,
            },
        );
        let m = with_opt(
            m,
            "l3proto"@,
            match self.l3proto {
                Some(v) => Some(JsonView::String(v)),
                None => None,
            },
        );
        JsonView::Object(m)
    }

    /// What a wire value decodes to: the fields are read by their keys, in the order
    /// in which the type lists them, and the first that fails decides the failure.
    pub open spec fn from_wire(j: JsonView) -> Result<CTHelperView, DecodeErrorView> {
        match j {
            JsonView::Object(m) => {
                let family = match lookup(m, "family"@) {
                    Some(v) => at_key(dec_token::<NfFamily>(v), "family"@),
                    None => Err(DecodeErrorView::missing("family"@)),
                };
                let table = match lookup(m, "table"@) {
                    Some(v) => at_key(dec_string(v), "table"@),
                    None => Err(DecodeErrorView::missing("table"@)),
                };
                let name = match lookup(m, "name"@) {
                    Some(v) => at_key(dec_string(v), "name"@),
                    None => Err(DecodeErrorView::missing("name"@)),
                };
                let handle = match optional(m, "handle"@) {
                    Some(v) => at_key(some(dec_u32(v)), "handle"@),
                    None => Ok(None),
                };
                let _type = match lookup(m, "type"@) {
                    Some(v) => at_key(dec_string(v), "type"@),
                    None => Err(DecodeErrorView::missing("type"@)),
                };
                let protocol = match optional(m, "protocol"@) {
                    Some(v) => at_key(some(dec_string(v)), "protocol"@),
                    None => Ok(None),
                };
                let l3proto = match optional(m, "l3proto"@) {
                    Some(v) => at_key(some(dec_string(v)), "l3proto"@),
                    None => Ok(None),
                };
                if family is Err {
                    Err(family->Err_0)
                } else if table is Err {
                    Err(table->Err_0)
                } else if name is Err {
                    Err(name->Err_0)
                } else if handle is Err {
                    Err(handle->Err_0)
                } else if _type is Err {
                    Err(_type->Err_0)
                } else if protocol is Err {
                    Err(protocol->Err_0)
                } else if l3proto is Err {
                    Err(l3proto->Err_0)
                } else {
                    Ok(
                        CTHelperView {
                            family: family->Ok_0,
                            table: table->Ok_0,
                            name: name->Ok_0,
                            handle: handle->Ok_0,
                            _type: _type->Ok_0,
                            protocol: protocol->Ok_0,
                            l3proto: l3proto->Ok_0,
                        },
                    )
                }
            },
            _ => Err(DecodeErrorView::shape()),
        }
    }

    /// The keys of the wire form differ from one another.
    pub proof fn lemma_keys()
        ensures
            "family"@ != "table"@,
            "family"@ != "name"@,
            "family"@ != "handle"@,
            "family"@ != "type"@,
            "family"@ != "protocol"@,
            "family"@ != "l3proto"@,
            "table"@ != "name"@,
            "table"@ != "handle"@,
            "table"@ != "type"@,
            "table"@ != "protocol"@,
            "table"@ != "l3proto"@,
            "name"@ != "handle"@,
            "name"@ != "type"@,
            "name"@ != "protocol"@,
            "name"@ != "l3proto"@,
            "handle"@ != "type"@,
            "handle"@ != "protocol"@,
            "handle"@ != "l3proto"@,
            "type"@ != "protocol"@,
            "type"@ != "l3proto"@,
            "protocol"@ != "l3proto"@,
    {
        reveal_strlit("family");
        reveal_strlit("table");
        reveal_strlit("name");
        reveal_strlit("handle");
        reveal_strlit("type");
        reveal_strlit("protocol");
        reveal_strlit("l3proto");
        assert("family"@.len() == 6 && "family"@[0] == 'f');
        assert("table"@.len() == 5);
        assert("name"@.len() == 4 && "name"@[0] == 'n');
        assert("handle"@.len() == 6 && "handle"@[0] == 'h');
        assert("type"@.len() == 4 && "type"@[0] == 't');
        assert("protocol"@.len() == 8);
        assert("l3proto"@.len() == 7);
    }

    /// What the wire form holds under each key.
    pub proof fn lemma_members(self)
        ensures
            self.to_wire() is Object,
            lookup(self.to_wire()->Object_0, "family"@) == Some(enc_token(self.family)),
            lookup(self.to_wire()->Object_0, "table"@) == Some(JsonView::String(self.table)),
            lookup(self.to_wire()->Object_0, "name"@) == Some(JsonView::String(self.name)),
            lookup(self.to_wire()->Object_0, "handle"@) == match self.handle {
                Some(v) => Some(JsonView::Number(v as int)),
                None => None,
            },
            lookup(self.to_wire()->Object_0, "type"@) == Some(JsonView::String(self._type)),
            lookup(self.to_wire()->Object_0, "protocol"@) == match self.protocol {
                Some(v) => Some(JsonView::String(v)),
                None => None,
            },
            lookup(self.to_wire()->Object_0, "l3proto"@) == match self.l3proto {
                Some(v) => Some(JsonView::String(v)),
                None => None,
            },
    {
        Self::lemma_keys();
        assert(lookup(self.to_wire()->Object_0, "family"@) == Some(enc_token(self.family))) by {
            broadcast use {lemma_lookup_push, lemma_lookup_empty, lemma_with_opt};
        }
        assert(
            lookup(self.to_wire()->Object_0, "table"@) == Some(JsonView::String(self.table))
        ) by {
            broadcast use {lemma_lookup_push, lemma_lookup_empty, lemma_with_opt};
        }
        assert(lookup(self.to_wire()->Object_0, "name"@) == Some(JsonView::String(self.name))) by {
            broadcast use {lemma_lookup_push, lemma_lookup_empty, lemma_with_opt};
        }
        assert(lookup(self.to_wire()->Object_0, "handle"@) == match self.handle {
            Some(v) => Some(JsonView::Number(v as int)),
            None => None,
        }) by {
            broadcast use {lemma_lookup_push, lemma_lookup_empty, lemma_with_opt};
        }
        assert(lookup(self.to_wire()->Object_0, "type"@) == Some(JsonView::String(self._type))) by {
            broadcast use {lemma_lookup_push, lemma_lookup_empty, lemma_with_opt};
        }
        assert(lookup(self.to_wire()->Object_0, "protocol"@) == match self.protocol {
            Some(v) => Some(JsonView::String(v)),
            None => None,
        }) by {
            broadcast use {lemma_lookup_push, lemma_lookup_empty, lemma_with_opt};
        }
        assert(lookup(self.to_wire()->Object_0, "l3proto"@) == match self.l3proto {
            Some(v) => Some(JsonView::String(v)),
            None => None,
        }) by {
            broadcast use {lemma_lookup_push, lemma_lookup_empty, lemma_with_opt};
        }
    }

    /// Decoding the wire form of a value gives the value back.
    pub proof fn lemma_round_trip(self)
        ensures
            Self::from_wire(self.to_wire()) == Ok::<CTHelperView, DecodeErrorView>(self),
    {
        self.lemma_members();
        lemma_token_round_trip(self.family);
    }

    /// The order in which the members of an object stand does not matter to what
    /// the object decodes to.
    pub proof fn lemma_member_order(
        a: Seq<(Seq<char>, JsonView)>,
        b: Seq<(Seq<char>, JsonView)>,
    )
        requires
            same_members(a, b),
        ensures
            Self::from_wire(JsonView::Object(a)) == Self::from_wire(JsonView::Object(b)),
    {
        assert(lookup(a, "family"@) == lookup(b, "family"@));
        assert(lookup(a, "table"@) == lookup(b, "table"@));
        assert(lookup(a, "name"@) == lookup(b, "name"@));
        assert(lookup(a, "handle"@) == lookup(b, "handle"@));
        assert(lookup(a, "type"@) == lookup(b, "type"@));
        assert(lookup(a, "protocol"@) == lookup(b, "protocol"@));
        assert(lookup(a, "l3proto"@) == lookup(b, "l3proto"@));
    }

    /// Where an object fails to decode, the failure names the field that it lies in:
    /// its path begins with the key of one of the fields.
    pub proof fn lemma_failure_names_field(m: Seq<(Seq<char>, JsonView)>)
        ensures
            Self::from_wire(JsonView::Object(m)) matches Err(e) ==> e.path.len() > 0 && {
                ||| e.path[0] == PathSegmentView::Key("family"@)
                ||| e.path[0] == PathSegmentView::Key("table"@)
                ||| e.path[0] == PathSegmentView::Key("name"@)
                ||| e.path[0] == PathSegmentView::Key("handle"@)
                ||| e.path[0] == PathSegmentView::Key("type"@)
                ||| e.path[0] == PathSegmentView::Key("protocol"@)
                ||| e.path[0] == PathSegmentView::Key("l3proto"@)
            },
    {
        broadcast use lemma_under_key_path;
    }
}

impl CTHelper {
    /// Encodes the value in its wire form.
    pub fn encode(&self) -> (j: Json)
        ensures
            j.deep_view() == self.deep_view().to_wire(),
    {
        let mut m: Vec<(String, Json)> = Vec::new();
        assert(members_view(m) =~= Seq::empty());
        put(&mut m, "family", encode_token(&self.family));
        put(&mut m, "table", Json::String(self.table.clone()));
        put(&mut m, "name", Json::String(self.name.clone()));
        match &self.handle {
            Some(v) => put(&mut m, "handle", Json::Number(*v as i128)),
            None => {},
        }
        put(&mut m, "type", Json::String(self._type.clone()));
        match &self.protocol {
            Some(v) => put(&mut m, "protocol", Json::String(v.clone())),
            None => {},
        }
        match &self.l3proto {
            Some(v) => put(&mut m, "l3proto", Json::String(v.clone())),
            None => {},
        }
        Json::Object(m)
    }

    /// Decodes a wire value.
    pub fn decode(j: &Json) -> (r: Result<CTHelper, DecodeError>)
        ensures
            decoded(r, CTHelperView::from_wire(j.deep_view())),
    {
        match j {
            Json::Object(m) => {
                let family = match find(m, "family") {
                    Some(v) => match decode_token::<NfFamily>(v) {
                        Ok(x) => x,
                        Err(e) => return Err(e.under_key("family")),
                    },
                    None => return Err(DecodeError::missing("family")),
                };
                let table = match find(m, "table") {
                    Some(v) => match decode_string(v) {
                        Ok(x) => x,
                        Err(e) => return Err(e.under_key("table")),
                    },
                    None => return Err(DecodeError::missing("table")),
                };
                let name = match find(m, "name") {
                    Some(v) => match decode_string(v) {
                        Ok(x) => x,
                        Err(e) => return Err(e.under_key("name")),
                    },
                    None => return Err(DecodeError::missing("name")),
                };
                let handle = match present(m, "handle") {
                    Some(v) => match decode_u32(v) {
                        Ok(x) => Some(x),
                        Err(e) => return Err(e.under_key("handle")),
                    },
                    None => None,
                };
                let _type = match find(m, "type") {
                    Some(v) => match decode_string(v) {
                        Ok(x) => x,
                        Err(e) => return Err(e.under_key("type")),
                    },
                    None => return Err(DecodeError::missing("type")),
                };
                let protocol = match present(m, "protocol") {
                    Some(v) => match decode_string(v) {
                        Ok(x) => Some(x),
                        Err(e) => return Err(e.under_key("protocol")),
                    },
                    None => None,
                };
                let l3proto = match present(m, "l3proto") {
                    Some(v) => match decode_string(v) {
                        Ok(x) => Some(x),
                        Err(e) => return Err(e.under_key("l3proto")),
                    },
                    None => None,
                };
                Ok(CTHelper { family, table, name, handle, _type, protocol, l3proto })
            },
            _ => Err(DecodeError::shape()),
        }
    }
}

impl Clone for CTHelper {
    fn clone(&self) -> (r: Self)
        ensures
            r.deep_view() == self.deep_view(),
    {
        CTHelper {
            family: self.family,
            table: self.table.clone(),
            name: self.name.clone(),
            handle: self.handle,
            _type: self._type.clone(),
            protocol: match &self.protocol {
                Some(x) => Some(x.clone()),
                None => None,
            },
            l3proto: match &self.l3proto {
                Some(x) => Some(x.clone()),
                None => None,
            },
        }
    }
}

/// What a limit counts.
#[derive(Debug, Clone, Copy, PartialEq, Eq, Hash)]
pub enum LimitUnit {
    /// Packets.
    Packets,
    /// Bytes.
    Bytes,
}

impl Token for LimitUnit {
    open spec fn text(self) -> Seq<char> {
        match self {
            LimitUnit::Packets => "packets"@,
            LimitUnit::Bytes => "bytes"@,
        }
    }

    open spec fn from_text(s: Seq<char>) -> Option<Self> {
        if s == "packets"@ {
            Some(LimitUnit::Packets)
        } else if s == "bytes"@ {
            Some(LimitUnit::Bytes)
        } else {
            None
        }
    }

    proof fn lemma_text(self) {
        reveal_strlit("packets");
        reveal_strlit("bytes");
        assert("packets"@.len() == 7);
        assert("bytes"@.len() == 5);
    }

    proof fn lemma_from_text(s: Seq<char>) {
    }

    fn as_str(&self) -> (s: &'static str) {
        match self {
            LimitUnit::Packets => "packets",
            LimitUnit::Bytes => "bytes",
        }
    }

    fn parse(s: &str) -> (r: Option<Self>) {
        if same_text(s, "packets") {
            Some(LimitUnit::Packets)
        } else if same_text(s, "bytes") {
            Some(LimitUnit::Bytes)
        } else {
            None
        }
    }
}

/// A named limit.
#[derive(Debug, PartialEq, Eq)]
pub struct Limit {
    /// The family of the table.
    pub family: NfFamily,
    /// The name of the table.
    pub table: String,
    /// The name of the limit.
    pub name: String,
    /// The handle of the object in the kernel. It is output only: in input it is ignored, but for
    /// where an object is referred to by it.
    pub handle: Option<u32>,
    /// The rate.
    pub rate: Option<u32>,
    /// The time unit of the rate, such as `second` or `hour`.
    pub per: Option<String>,
    /// The burst that is allowed above the rate.
    pub burst: Option<u32>,
    /// What the limit counts.
    pub unit: Option<LimitUnit>,
    /// Whether the limit matches once it is exceeded.
    pub inv: Option<bool>,
}

/// The mathematical value of a [`Limit`].
pub ghost struct LimitView {
    pub family: NfFamily,
    pub table: Seq<char>,
    pub name: Seq<char>,
    pub handle: Option<u32>,
    pub rate: Option<u32>,
    pub per: Option<Seq<char>>,
    pub burst: Option<u32>,
    pub unit: Option<LimitUnit>,
    pub inv: Option<bool>,
}

impl DeepView for Limit {
    type V = LimitView;

    open spec fn deep_view(&self) -> LimitView {
        LimitView {
            family: self.family,
            table: self.table@,
            name: self.name@,
            handle: self.handle,
            rate: self.rate,
            per: match self.per {
                Some(x) => Some(x@),
                None => None,
            },
            burst: self.burst,
            unit: self.unit,
            inv: self.inv,
        }
    }
}

impl LimitView {
    /// The wire form: an object with one member for each field that has a value.
    pub open spec fn to_wire(self) -> JsonView {
        let m = Seq::empty();
        let m = m.push(("family"@, enc_token(self.family)));
        let m = m.push(("table"@, JsonView::String(self.table)));
        let m = m.push(("name"@, JsonView::String(self.name)));
        let m = with_opt(
            m,
            "handle"@,
            match self.handle {
                Some(v) => Some(JsonView::Number(v as int)),
                None => None,
            },
        );
        let m = with_opt(
            m,
            "rate"@,
            match self.rate {
                Some(v) => Some(JsonView::Number(v as int)),
                None => None,
            },
        );
        let m = with_opt(
            m,
            "per"@,
            match self.per {
                Some(v) => Some(JsonView::String(v)),
                None => None,
            },
        );
        let m = with_opt(
            m,
            "burst"@,
            match self.burst {
                Some(v) => Some(JsonView::Number(v as int)),
                None => None,
            },
        );
        let m = with_opt(
            m,
            "unit"@,
            match self.unit {
                Some(v) => Some(enc_token(v)),
                None => None,
            },
        );
        let m = with_opt(
            m,
            "inv"@,
            match self.inv {
                Some(v) => Some(JsonView::Bool(v)),
                None => None,
            },
        );
        JsonView::Object(m)
    }

    /// What a wire value decodes to: the fields are read by their keys, in the order
    /// in which the type lists them, and the first that fails decides the failure.
    pub open spec fn from_wire(j: JsonView) -> Result<LimitView, DecodeErrorView> {
        match j {
            JsonView::Object(m) => {
                let family = match lookup(m, "family"@) {
                    Some(v) => at_key(dec_token::<NfFamily>(v), "family"@),
                    None => Err(DecodeErrorView::missing("family"@)),
                };
                let table = match lookup(m, "table"@) {
                    Some(v) => at_key(dec_string(v), "table"@),
                    None => Err(DecodeErrorView::missing("table"@)),
                };
                let name = match lookup(m, "name"@) {
                    Some(v) => at_key(dec_string(v), "name"@),
                    None => Err(DecodeErrorView::missing("name"@)),
                };
                let handle = match optional(m, "handle"@) {
                    Some(v) => at_key(some(dec_u32(v)), "handle"@),
                    None => Ok(None),
                };
                let rate = match optional(m, "rate"@) {
                    Some(v) => at_key(some(dec_u32(v)), "rate"@),
                    None => Ok(None),
                };
                let per = match optional(m, "per"@) {
                    Some(v) => at_key(some(dec_string(v)), "per"@),
                    None => Ok(None),
                };
                let burst = match optional(m, "burst"@) {
                    Some(v) => at_key(some(dec_u32(v)), "burst"@),
                    None => Ok(None),
                };
                let unit = match optional(m, "unit"@) {
                    Some(v) => at_key(some(dec_token::<LimitUnit>(v)), "unit"@),
                    None => Ok(None),
                };
                let inv = match optional(m, "inv"@) {
                    Some(v) => at_key(some(dec_bool(v)), "inv"@),
                    None => Ok(None),
                };
                if family is Err {
                    Err(family->Err_0)
                } else if table is Err {
                    Err(table->Err_0)
                } else if name is Err {
                    Err(name->Err_0)
                } else if handle is Err {
                    Err(handle->Err_0)
                } else if rate is Err {
                    Err(rate->Err_0)
                } else if per is Err {
                    Err(per->Err_0)
                } else if burst is Err {
                    Err(burst->Err_0)
                } else if unit is Err {
                    Err(unit->Err_0)
                } else if inv is Err {
                    Err(inv->Err_0)
                } else {
                    Ok(
                        LimitView {
                            family: family->Ok_0,
                            table: table->Ok_0,
                            name: name->Ok_0,
                            handle: handle->Ok_0,
                            rate: rate->Ok_0,
                            per: per->Ok_0,
                            burst: burst->Ok_0,
                            unit: unit->Ok_0,
                            inv: inv->Ok_0,
                        },
                    )
                }
            },
            _ => Err(DecodeErrorView::shape()),
        }
    }

    /// The keys of the wire form differ from one another.
    pub proof fn lemma_keys()
        ensures
            "family"@ != "table"@,
            "family"@ != "name"@,
            "family"@ != "handle"@,
            "family"@ != "rate"@,
            "family"@ != "per"@,
            "family"@ != "burst"@,
            "family"@ != "unit"@,
            "family"@ != "inv"@,
            "table"@ != "name"@,
            "table"@ != "handle"@,
            "table"@ != "rate"@,
            "table"@ != "per"@,
            "table"@ != "burst"@,
            "table"@ != "unit"@,
            "table"@ != "inv"@,
            "name"@ != "handle"@,
            "name"@ != "rate"@,
            "name"@ != "per"@,
            "name"@ != "burst"@,
            "name"@ != "unit"@,
            "name"@ != "inv"@,
            "handle"@ != "rate"@,
            "handle"@ != "per"@,
            "handle"@ != "burst"@,
            "handle"@ != "unit"@,
            "handle"@ != "inv"@,
            "rate"@ != "per"@,
            "rate"@ != "burst"@,
            "rate"@ != "unit"@,
            "rate"@ != "inv"@,
            "per"@ != "burst"@,
            "per"@ != "unit"@,
            "per"@ != "inv"@,
            "burst"@ != "unit"@,
            "burst"@ != "inv"@,
            "unit"@ != "inv"@,
    {
        reveal_strlit("family");
        reveal_strlit("table");
        reveal_strlit("name");
        reveal_strlit("handle");
        reveal_strlit("rate");
        reveal_strlit("per");
        reveal_strlit("burst");
        reveal_strlit("unit");
        reveal_strlit("inv");
        assert("family"@.len() == 6 && "family"@[0] == 'f');
        assert("table"@.len() == 5 && "table"@[0] == 't');
        assert("name"@.len() == 4 && "name"@[0] == 'n');
        assert("handle"@.len() == 6 && "handle"@[0] == 'h');
        assert("rate"@.len() == 4 && "rate"@[0] == 'r');
        assert("per"@.len() == 3 && "per"@[0] == 'p');
        assert("burst"@.len() == 5 && "burst"@[0] == 'b');
        assert("unit"@.len() == 4 && "unit"@[0] == 'u');
        assert("inv"@.len() == 3 && "inv"@[0] == 'i');
    }

    /// What the wire form holds under each key.
    pub proof fn lemma_members(self)
        ensures
            self.to_wire() is Object,
            lookup(self.to_wire()->Object_0, "family"@) == Some(enc_token(self.family)),
            lookup(self.to_wire()->Object_0, "table"@) == Some(JsonView::String(self.table)),
            lookup(self.to_wire()->Object_0, "name"@) == Some(JsonView::String(self.name)),
            lookup(self.to_wire()->Object_0, "handle"@) == match self.handle {
                Some(v) => Some(JsonView::Number(v as int)),
                None => None,
            },
            lookup(self.to_wire()->Object_0, "rate"@) == match self.rate {
                Some(v) => Some(JsonView::Number(v as int)),
                None => None,
            },
            lookup(self.to_wire()->Object_0, "per"@) == match self.per {
                Some(v) => Some(JsonView::String(v)),
                None => None,
            },
            lookup(self.to_wire()->Object_0, "burst"@) == match self.burst {
                Some(v) => Some(JsonView::Number(v as int)),
                None => None,
            },
            lookup(self.to_wire()->Object_0, "unit"@) == match self.unit {
                Some(v) => Some(enc_token(v)),
                None => None,
            },
            lookup(self.to_wire()->Object_0, "inv"@) == match self.inv {
                Some(v) => Some(JsonView::Bool(v)),
                None => None,
            },
    {
        Self::lemma_keys();
        assert(lookup(self.to_wire()->Object_0, "family"@) == Some(enc_token(self.family))) by {
            broadcast use {lemma_lookup_push, lemma_lookup_empty, lemma_with_opt};
        }
        assert(
            lookup(self.to_wire()->Object_0, "table"@) == Some(JsonView::String(self.table))
        ) by {
            broadcast use {lemma_lookup_push, lemma_lookup_empty, lemma_with_opt};
        }
        assert(lookup(self.to_wire()->Object_0, "name"@) == Some(JsonView::String(self.name))) by {
            broadcast use {lemma_lookup_push, lemma_lookup_empty, lemma_with_opt};
        }
        assert(lookup(self.to_wire()->Object_0, "handle"@) == match self.handle {
            Some(v) => Some(JsonView::Number(v as int)),
            None => None,
        }) by {
            broadcast use {lemma_lookup_push, lemma_lookup_empty, lemma_with_opt};
        }
        assert(lookup(self.to_wire()->Object_0, "rate"@) == match self.rate {
            Some(v) => Some(JsonView::Number(v as int)),
            None => None,
        }) by {
            broadcast use {lemma_lookup_push, lemma_lookup_empty, lemma_with_opt};
        }
        assert(lookup(self.to_wire()->Object_0, "per"@) == match self.per {
            Some(v) => Some(JsonView::String(v)),
            None => None,
        }) by {
            broadcast use {lemma_lookup_push, lemma_lookup_empty, lemma_with_opt};
        }
        assert(lookup(self.to_wire()->Object_0, "burst"@) == match self.burst {
            Some(v) => Some(JsonView::Number(v as int)),
            None => None,
        }) by {
            broadcast use {lemma_lookup_push, lemma_lookup_empty, lemma_with_opt};
        }
        assert(lookup(self.to_wire()->Object_0, "unit"@) == match self.unit {
            Some(v) => Some(enc_token(v)),
            None => None,
        }) by {
            broadcast use {lemma_lookup_push, lemma_lookup_empty, lemma_with_opt};
        }
        assert(lookup(self.to_wire()->Object_0, "inv"@) == match self.inv {
            Some(v) => Some(JsonView::Bool(v)),
            None => None,
        }) by {
            broadcast use {lemma_lookup_push, lemma_lookup_empty, lemma_with_opt};
        }
    }

    /// Decoding the wire form of a value gives the value back.
    pub proof fn lemma_round_trip(self)
        ensures
            Self::from_wire(self.to_wire()) == Ok::<LimitView, DecodeErrorView>(self),
    {
        self.lemma_members();
        lemma_token_round_trip(self.family);
        match self.unit {
            Some(v) => {
                lemma_token_round_trip(v);
            },
            None => {},
        }
    }

    /// The order in which the members of an object stand does not matter to what
    /// the object decodes to.
    pub proof fn lemma_member_order(
        a: Seq<(Seq<char>, JsonView)>,
        b: Seq<(Seq<char>, JsonView)>,
    )
        requires
            same_members(a, b),
        ensures
            Self::from_wire(JsonView::Object(a)) == Self::from_wire(JsonView::Object(b)),
    {
        assert(lookup(a, "family"@) == lookup(b, "family"@));
        assert(lookup(a, "table"@) == lookup(b, "table"@));
        assert(lookup(a, "name"@) == lookup(b, "name"@));
        assert(lookup(a, "handle"@) == lookup(b, "handle"@));
        assert(lookup(a, "rate"@) == lookup(b, "rate"@));
        assert(lookup(a, "per"@) == lookup(b, "per"@));
        assert(lookup(a, "burst"@) == lookup(b, "burst"@));
        assert(lookup(a, "unit"@) == lookup(b, "unit"@));
        assert(lookup(a, "inv"@) == lookup(b, "inv"@));
    }

    /// Where an object fails to decode, the failure names the field that it lies in:
    /// its path begins with the key of one of the fields.
    pub proof fn lemma_failure_names_field(m: Seq<(Seq<char>, JsonView)>)
        ensures
            Self::from_wire(JsonView::Object(m)) matches Err(e) ==> e.path.len() > 0 && {
                ||| e.path[0] == PathSegmentView::Key("family"@)
                ||| e.path[0] == PathSegmentView::Key("table"@)
                ||| e.path[0] == PathSegmentView::Key("name"@)
                ||| e.path[0] == PathSegmentView::Key("handle"@)
                ||| e.path[0] == PathSegmentView::Key("rate"@)
                ||| e.path[0] == PathSegmentView::Key("per"@)
                ||| e.path[0] == PathSegmentView::Key("burst"@)
                ||| e.path[0] == PathSegmentView::Key("unit"@)
                ||| e.path[0] == PathSegmentView::Key("inv"@)
            },
    {
        broadcast use lemma_under_key_path;
    }
}

impl Limit {
    /// Encodes the value in its wire form.
    pub fn encode(&self) -> (j: Json)
        ensures
            j.deep_view() == self.deep_view().to_wire(),
    {
        let mut m: Vec<(String, Json)> = Vec::new();
        assert(members_view(m) =~= Seq::empty());
        put(&mut m, "family", encode_token(&self.family));
        put(&mut m, "table", Json::String(self.table.clone()));
        put(&mut m, "name", Json::String(self.name.clone()));
        match &self.handle {
            Some(v) => put(&mut m, "handle", Json::Number(*v as i128)),
            None => {},
        }
        match &self.rate {
            Some(v) => put(&mut m, "rate", Json::Number(*v as i128)),
            None => {},
        }
        match &self.per {
            Some(v) => put(&mut m, "per", Json::String(v.clone())),
            None => {},
        }
        match &self.burst {
            Some(v) => put(&mut m, "burst", Json::Number(*v as i128)),
            None => {},
        }
        match &self.unit {
            Some(v) => put(&mut m, "unit", encode_token(v)),
            None => {},
        }
        match &self.inv {
            Some(v) => put(&mut m, "inv", Json::Bool(*v)),
            None => {},
        }
        Json::Object(m)
    }

    /// Decodes a wire value.
    pub fn decode(j: &Json) -> (r: Result<Limit, DecodeError>)
        ensures
            decoded(r, LimitView::from_wire(j.deep_view())),
    {
        match j {
            Json::Object(m) => {
                let family = match find(m, "family") {
                    Some(v) => match decode_token::<NfFamily>(v) {
                        Ok(x) => x,
                        Err(e) => return Err(e.under_key("family")),
                    },
                    None => return Err(DecodeError::missing("family")),
                };
                let table = match find(m, "table") {
                    Some(v) => match decode_string(v) {
                        Ok(x) => x,
                        Err(e) => return Err(e.under_key("table")),
                    },
                    None => return Err(DecodeError::missing("table")),
                };
                let name = match find(m, "name") {
                    Some(v) => match decode_string(v) {
                        Ok(x) => x,
                        Err(e) => return Err(e.under_key("name")),
                    },
                    None => return Err(DecodeError::missing("name")),
                };
                let handle = match present(m, "handle") {
                    Some(v) => match decode_u32(v) {
                        Ok(x) => Some(x),
                        Err(e) => return Err(e.under_key("handle")),
                    },
                    None => None,
                };
                let rate = match present(m, "rate") {
                    Some(v) => match decode_u32(v) {
                        Ok(x) => Some(x),
                        Err(e) => return Err(e.under_key("rate")),
                    },
                    None => None,
                };
                let per = match present(m, "per") {
                    Some(v) => match decode_string(v) {
                        Ok(x) => Some(x),
                        Err(e) => return Err(e.under_key("per")),
                    },
                    None => None,
                };
                let burst = match present(m, "burst") {
                    Some(v) => match decode_u32(v) {
                        Ok(x) => Some(x),
                        Err(e) => return Err(e.under_key("burst")),
                    },
                    None => None,
                };
                let unit = match present(m, "unit") {
                    Some(v) => match decode_token::<LimitUnit>(v) {
                        Ok(x) => Some(x),
                        Err(e) => return Err(e.under_key("unit")),
                    },
                    None => None,
                };
                let inv = match present(m, "inv") {
                    Some(v) => match decode_bool(v) {
                        Ok(x) => Some(x),
                        Err(e) => return Err(e.under_key("inv")),
                    },
                    None => None,
                };
                Ok(Limit { family, table, name, handle, rate, per, burst, unit, inv })
            },
            _ => Err(DecodeError::shape()),
        }
    }
}

impl Clone for Limit {
    fn clone(&self) -> (r: Self)
        ensures
            r.deep_view() == self.deep_view(),
    {
        Limit {
            family: self.family,
            table: self.table.clone(),
            name: self.name.clone(),
            handle: self.handle,
            rate: self.rate,
            per: match &self.per {
                Some(x) => Some(x.clone()),
                None => None,
            },
            burst: self.burst,
            unit: self.unit,
            inv: self.inv,
        }
    }
}

/// A meter: a statement applied per key.
#[derive(Debug, PartialEq, Eq)]
pub struct Meter {
    /// The name of the meter.
    pub name: String,
    /// The key of the meter.
    pub key: Expression,
    /// The statement that is applied.
    pub stmt: Statement,
}

/// The mathematical value of a [`Meter`].
pub ghost struct MeterView {
    pub name: Seq<char>,
    pub key: ExpressionView,
    pub stmt: StatementView,
}

impl DeepView for Meter {
    type V = MeterView;

    open spec fn deep_view(&self) -> MeterView {
        MeterView {
            name: self.name@,
            key: self.key.deep_view(),
            stmt: self.stmt.deep_view(),
        }
    }
}

impl MeterView {
    /// The wire form: an object with one member for each field that has a value.
    pub open spec fn to_wire(self) -> JsonView {
        let m = Seq::empty();
        let m = m.push(("name"@, JsonView::String(self.name)));
        let m = m.push(("key"@, self.key.to_wire()));
        let m = m.push(("stmt"@, self.stmt.to_wire()));
        JsonView::Object(m)
    }

    /// What a wire value decodes to: the fields are read by their keys, in the order
    /// in which the type lists them, and the first that fails decides the failure.
    pub open spec fn from_wire(j: JsonView) -> Result<MeterView, DecodeErrorView> {
        match j {
            JsonView::Object(m) => {
                let name = match lookup(m, "name"@) {
                    Some(v) => at_key(dec_string(v), "name"@),
                    None => Err(DecodeErrorView::missing("name"@)),
                };
                let key = match lookup(m, "key"@) {
                    Some(v) => at_key(ExpressionView::from_wire(v), "key"@),
                    None => Err(DecodeErrorView::missing("key"@)),
                };
                let stmt = match lookup(m, "stmt"@) {
                    Some(v) => at_key(StatementView::from_wire(v), "stmt"@),
                    None => Err(DecodeErrorView::missing("stmt"@)),
                };
                if name is Err {
                    Err(name->Err_0)
                } else if key is Err {
                    Err(key->Err_0)
                } else if stmt is Err {
                    Err(stmt->Err_0)
                } else {
                    Ok(MeterView { name: name->Ok_0, key: key->Ok_0, stmt: stmt->Ok_0 })
                }
            },
            _ => Err(DecodeErrorView::shape()),
        }
    }

    /// Whether decoding the wire form gives this value back.
    pub open spec fn canonical(self) -> bool {
        &&& self.key.canonical()
        &&& self.stmt.canonical()
    }

    /// What the wire form holds under each key.
    pub proof fn lemma_members(self)
        ensures
            self.to_wire() is Object,
            lookup(self.to_wire()->Object_0, "name"@) == Some(JsonView::String(self.name)),
            lookup(self.to_wire()->Object_0, "key"@) == Some(self.key.to_wire()),
            lookup(self.to_wire()->Object_0, "stmt"@) == Some(self.stmt.to_wire()),
    {
        broadcast use {lemma_lookup_push, lemma_lookup_empty, lemma_with_opt};
        reveal_strlit("name");
        reveal_strlit("key");
        reveal_strlit("stmt");
        assert("name"@.len() == 4 && "name"@[0] == 'n');
        assert("key"@.len() == 3);
        assert("stmt"@.len() == 4 && "stmt"@[0] == 's');
    }

    /// Decoding the wire form of a value gives the value back.
    pub proof fn lemma_round_trip(self)
        requires
            self.canonical(),
        ensures
            Self::from_wire(self.to_wire()) == Ok::<MeterView, DecodeErrorView>(self),
    {
        self.lemma_members();
        self.key.lemma_round_trip();
        self.key.lemma_not_null();
        self.stmt.lemma_round_trip();
        self.stmt.lemma_not_null();
    }

    /// The order in which the members of an object stand does not matter to what
    /// the object decodes to.
    pub proof fn lemma_member_order(
        a: Seq<(Seq<char>, JsonView)>,
        b: Seq<(Seq<char>, JsonView)>,
    )
        requires
            same_members(a, b),
        ensures
            Self::from_wire(JsonView::Object(a)) == Self::from_wire(JsonView::Object(b)),
    {
        assert(lookup(a, "name"@) == lookup(b, "name"@));
        assert(lookup(a, "key"@) == lookup(b, "key"@));
        assert(lookup(a, "stmt"@) == lookup(b, "stmt"@));
    }

    /// Where an object fails to decode, the failure names the field that it lies in:
    /// its path begins with the key of one of the fields.
    pub proof fn lemma_failure_names_field(m: Seq<(Seq<char>, JsonView)>)
        ensures
            Self::from_wire(JsonView::Object(m)) matches Err(e) ==> e.path.len() > 0 && {
                ||| e.path[0] == PathSegmentView::Key("name"@)
                ||| e.path[0] == PathSegmentView::Key("key"@)
                ||| e.path[0] == PathSegmentView::Key("stmt"@)
            },
    {
        broadcast use lemma_under_key_path;
    }
}

impl Meter {
    /// Encodes the value in its wire form.
    pub fn encode(&self) -> (j: Json)
        ensures
            j.deep_view() == self.deep_view().to_wire(),
    {
        let mut m: Vec<(String, Json)> = Vec::new();
        assert(members_view(m) =~= Seq::empty());
        put(&mut m, "name", Json::String(self.name.clone()));
        put(&mut m, "key", self.key.encode());
        put(&mut m, "stmt", self.stmt.encode());
        Json::Object(m)
    }

    /// Decodes a wire value.
    pub fn decode(j: &Json) -> (r: Result<Meter, DecodeError>)
        ensures
            decoded(r, MeterView::from_wire(j.deep_view())),
    {
        match j {
            Json::Object(m) => {
                let name = match find(m, "name") {
                    Some(v) => match decode_string(v) {
                        Ok(x) => x,
                        Err(e) => return Err(e.under_key("name")),
                    },
                    None => return Err(DecodeError::missing("name")),
                };
                let key = match find(m, "key") {
                    Some(v) => match Expression::decode(v) {
                        Ok(x) => x,
                        Err(e) => return Err(e.under_key("key")),
                    },
                    None => return Err(DecodeError::missing("key")),
                };
                let stmt = match find(m, "stmt") {
                    Some(v) => match Statement::decode(v) {
                        Ok(x) => x,
                        Err(e) => return Err(e.under_key("stmt")),
                    },
                    None => return Err(DecodeError::missing("stmt")),
                };
                Ok(Meter { name, key, stmt })
            },
            _ => Err(DecodeError::shape()),
        }
    }
}

impl Clone for Meter {
    fn clone(&self) -> (r: Self)
        ensures
            r.deep_view() == self.deep_view(),
    {
        Meter {
            name: self.name.clone(),
            key: self.key.clone(),
            stmt: self.stmt.clone(),
        }
    }
}

/// The whole ruleset; it holds nothing.
#[derive(Debug, Clone, Copy, PartialEq, Eq)]
pub struct Ruleset {}

impl DeepView for Ruleset {
    type V = Ruleset;

    open spec fn deep_view(&self) -> Ruleset {
        *self
    }
}

impl Ruleset {
    /// The wire form: an object without members.
    pub open spec fn to_wire(self) -> JsonView {
        JsonView::Object(Seq::empty())
    }

    /// What a wire value decodes to: it is an object, whose members are not looked at.
    pub open spec fn from_wire(j: JsonView) -> Result<Ruleset, DecodeErrorView> {
        match j {
            JsonView::Object(_) => Ok(Ruleset {}),
            _ => Err(DecodeErrorView::shape()),
        }
    }

    /// Decoding the wire form of a value gives the value back.
    pub proof fn lemma_round_trip(self)
        ensures
            Self::from_wire(self.to_wire()) == Ok::<Ruleset, DecodeErrorView>(self),
    {
    }

    /// Encodes the value in its wire form.
    pub fn encode(&self) -> (j: Json)
        ensures
            j.deep_view() == self.deep_view().to_wire(),
    {
        let m: Vec<(String, Json)> = Vec::new();
        assert(members_view(m) =~= Seq::empty());
        Json::Object(m)
    }

    /// Decodes a wire value.
    pub fn decode(j: &Json) -> (r: Result<Ruleset, DecodeError>)
        ensures
            decoded(r, Ruleset::from_wire(j.deep_view())),
    {
        match j {
            Json::Object(_) => Ok(Ruleset {}),
            _ => Err(DecodeError::shape()),
        }
    }
}

/// What the tool says of itself at the head of its output.
#[derive(Debug, PartialEq, Eq)]
pub struct MetainfoObject {
    /// The version of the tool.
    pub version: Option<String>,
    /// The name of the release.
    pub release_name: Option<String>,
    /// The version of the JSON schema.
    pub json_schema_version: Option<u32>,
}

/// The mathematical value of a [`MetainfoObject`].
pub ghost struct MetainfoObjectView {
    pub version: Option<Seq<char>>,
    pub release_name: Option<Seq<char>>,
    pub json_schema_version: Option<u32>,
}

impl DeepView for MetainfoObject {
    type V = MetainfoObjectView;

    open spec fn deep_view(&self) -> MetainfoObjectView {
        MetainfoObjectView {
            version: match self.version {
                Some(x) => Some(x@),
                None => None,
            },
            release_name: match self.release_name {
                Some(x) => Some(x@),
                None => None,
            },
            json_schema_version: self.json_schema_version,
        }
    }
}

impl MetainfoObjectView {
    /// The wire form: an object with one member for each field that has a value.
    pub open spec fn to_wire(self) -> JsonView {
        let m = Seq::empty();
        let m = with_opt(
            m,
            "version"@,
            match self.version {
                Some(v) => Some(JsonView::String(v)),
                None => None,
            },
        );
        let m = with_opt(
            m,
            "release_name"@,
            match self.release_name {
                Some(v) => Some(JsonView::String(v)),
                None => None,
            },
        );
        let m = with_opt(
            m,
            "json_schema_version"@,
            match self.json_schema_version {
                Some(v) => Some(JsonView::Number(v as int)),
                None => None,
            },
        );
        JsonView::Object(m)
    }

    /// What a wire value decodes to: the fields are read by their keys, in the order
    /// in which the type lists them, and the first that fails decides the failure.
    pub open spec fn from_wire(j: JsonView) -> Result<MetainfoObjectView, DecodeErrorView> {
        match j {
            JsonView::Object(m) => {
                let version = match optional(m, "version"@) {
                    Some(v) => at_key(some(dec_string(v)), "version"@),
                    None => Ok(None),
                };
                let release_name = match optional(m, "release_name"@) {
                    Some(v) => at_key(some(dec_string(v)), "release_name"@),
                    None => Ok(None),
                };
                let json_schema_version = match optional(m, "json_schema_version"@) {
                    Some(v) => at_key(some(dec_u32(v)), "json_schema_version"@),
                    None => Ok(None),
                };
                if version is Err {
                    Err(version->Err_0)
                } else if release_name is Err {
                    Err(release_name->Err_0)
                } else if json_schema_version is Err {
                    Err(json_schema_version->Err_0)
                } else {
                    Ok(
                        MetainfoObjectView {
                            version: version->Ok_0,
                            release_name: release_name->Ok_0,
                            json_schema_version: json_schema_version->Ok_0,
                        },
                    )
                }
            },
            _ => Err(DecodeErrorView::shape()),
        }
    }

    /// What the wire form holds under each key.
    pub proof fn lemma_members(self)
        ensures
            self.to_wire() is Object,
            lookup(self.to_wire()->Object_0, "version"@) == match self.version {
                Some(v) => Some(JsonView::String(v)),
                None => None,
            },
            lookup(self.to_wire()->Object_0, "release_name"@) == match self.release_name {
                Some(v) => Some(JsonView::String(v)),
                None => None,
            },
            lookup(self.to_wire()->Object_0, "json_schema_version"@) == match self.json_schema_version {
                Some(v) => Some(JsonView::Number(v as int)),
                None => None,
            },
    {
        broadcast use {lemma_lookup_push, lemma_lookup_empty, lemma_with_opt};
        reveal_strlit("version");
        reveal_strlit("release_name");
        reveal_strlit("json_schema_version");
        assert("version"@.len() == 7);
        assert("release_name"@.len() == 12);
        assert("json_schema_version"@.len() == 19);
    }

    /// Decoding the wire form of a value gives the value back.
    pub proof fn lemma_round_trip(self)
        ensures
            Self::from_wire(self.to_wire()) == Ok::<MetainfoObjectView, DecodeErrorView>(self),
    {
        self.lemma_members();
    }

    /// The order in which the members of an object stand does not matter to what
    /// the object decodes to.
    pub proof fn lemma_member_order(
        a: Seq<(Seq<char>, JsonView)>,
        b: Seq<(Seq<char>, JsonView)>,
    )
        requires
            same_members(a, b),
        ensures
            Self::from_wire(JsonView::Object(a)) == Self::from_wire(JsonView::Object(b)),
    {
        assert(lookup(a, "version"@) == lookup(b, "version"@));
        assert(lookup(a, "release_name"@) == lookup(b, "release_name"@));
        assert(lookup(a, "json_schema_version"@) == lookup(b, "json_schema_version"@));
    }

    /// Where an object fails to decode, the failure names the field that it lies in:
    /// its path begins with the key of one of the fields.
    pub proof fn lemma_failure_names_field(m: Seq<(Seq<char>, JsonView)>)
        ensures
            Self::from_wire(JsonView::Object(m)) matches Err(e) ==> e.path.len() > 0 && {
                ||| e.path[0] == PathSegmentView::Key("version"@)
                ||| e.path[0] == PathSegmentView::Key("release_name"@)
                ||| e.path[0] == PathSegmentView::Key("json_schema_version"@)
            },
    {
        broadcast use lemma_under_key_path;
    }
}

impl MetainfoObject {
    /// Encodes the value in its wire form.
    pub fn encode(&self) -> (j: Json)
        ensures
            j.deep_view() == self.deep_view().to_wire(),
    {
        let mut m: Vec<(String, Json)> = Vec::new();
        assert(members_view(m) =~= Seq::empty());
        match &self.version {
            Some(v) => put(&mut m, "version", Json::String(v.clone())),
            None => {},
        }
        match &self.release_name {
            Some(v) => put(&mut m, "release_name", Json::String(v.clone())),
            None => {},
        }
        match &self.json_schema_version {
            Some(v) => put(&mut m, "json_schema_version", Json::Number(*v as i128)),
            None => {},
        }
        Json::Object(m)
    }

    /// Decodes a wire value.
    pub fn decode(j: &Json) -> (r: Result<MetainfoObject, DecodeError>)
        ensures
            decoded(r, MetainfoObjectView::from_wire(j.deep_view())),
    {
        match j {
            Json::Object(m) => {
                let version = match present(m, "version") {
                    Some(v) => match decode_string(v) {
                        Ok(x) => Some(x),
                        Err(e) => return Err(e.under_key("version")),
                    },
                    None => None,
                };
                let release_name = match present(m, "release_name") {
                    Some(v) => match decode_string(v) {
                        Ok(x) => Some(x),
                        Err(e) => return Err(e.under_key("release_name")),
                    },
                    None => None,
                };
                let json_schema_version = match present(m, "json_schema_version") {
                    Some(v) => match decode_u32(v) {
                        Ok(x) => Some(x),
                        Err(e) => return Err(e.under_key("json_schema_version")),
                    },
                    None => None,
                };
                Ok(MetainfoObject { version, release_name, json_schema_version })
            },
            _ => Err(DecodeError::shape()),
        }
    }
}

impl Clone for MetainfoObject {
    fn clone(&self) -> (r: Self)
        ensures
            r.deep_view() == self.deep_view(),
    {
        MetainfoObject {
            version: match &self.version {
                Some(x) => Some(x.clone()),
                None => None,
            },
            release_name: match &self.release_name {
                Some(x) => Some(x.clone()),
                None => None,
            },
            json_schema_version: self.json_schema_version,
        }
    }
}

/// A conntrack timeout policy.
#[derive(Debug, PartialEq, Eq)]
pub struct CTTimeout {
    /// The family of the table.
    pub family: NfFamily,
    /// The name of the table.
    pub table: String,
    /// The name of the policy.
    pub name: String,
    /// The handle of the object in the kernel. It is output only: in input it is ignored, but for
    /// where an object is referred to by it.
    pub handle: Option<u32>,
    /// The protocol of the policy.
    pub protocol: Option<CTHProto>,
    /// The connection state that the timeout is for.
    pub state: Option<String>,
    /// The timeout.
    pub value: Option<u32>,
    /// The layer 3 protocol of the policy.
    pub l3proto: Option<String>,
}

/// The mathematical value of a [`CTTimeout`].
pub ghost struct CTTimeoutView {
    pub family: NfFamily,
    pub table: Seq<char>,
    pub name: Seq<char>,
    pub handle: Option<u32>,
    pub protocol: Option<CTHProto>,
    pub state: Option<Seq<char>>,
    pub value: Option<u32>,
    pub l3proto: Option<Seq<char>>,
}

impl DeepView for CTTimeout {
    type V = CTTimeoutView;

    open spec fn deep_view(&self) -> CTTimeoutView {
        CTTimeoutView {
            family: self.family,
            table: self.table@,
            name: self.name@,
            handle: self.handle,
            protocol: self.protocol,
            state: match self.state {
                Some(x) => Some(x@),
                None => None,
            },
            value: self.value,
            l3proto: match self.l3proto {
                Some(x) => Some(x@),
                None => None,
            },
        }
    }
}

impl CTTimeoutView {
    /// The wire form: an object with one member for each field that has a value.
    pub open spec fn to_wire(self) -> JsonView {
        let m = Seq::empty();
        let m = m.push(("family"@, enc_token(self.family)));
        let m = m.push(("table"@, JsonView::String(self.table)));
        let m = m.push(("name"@, JsonView::String(self.name)));
        let m = with_opt(
            m,
            "handle"@,
            match self.handle {
                Some(v) => Some(JsonView::Number(v as int)),
                None => None,
            },
        );
        let m = with_opt(
            m,
            "protocol"@,
            match self.protocol {
                Some(v) => Some(enc_token(v)),
                None => None,
            },
        );
        let m = with_opt(
            m,
            "state"@,
            match self.state {
                Some(v) => Some(JsonView::String(v)),
                None => None,
            },
        );
        let m = with_opt(
            m,
            "value"@,
            match self.value {
                Some(v) => Some(JsonView::Number(v as int)),
                None => None,
            },
        );
        let m = with_opt(
            m,
            "l3proto"@,
            match self.l3proto {
                Some(v) => Some(JsonView::String(v)),
                None => None,
            },
        );
        JsonView::Object(m)
    }

    /// What a wire value decodes to: the fields are read by their keys, in the order
    /// in which the type lists them, and the first that fails decides the failure.
    pub open spec fn from_wire(j: JsonView) -> Result<CTTimeoutView, DecodeErrorView> {
        match j {
            JsonView::Object(m) => {
                let family = match lookup(m, "family"@) {
                    Some(v) => at_key(dec_token::<NfFamily>(v), "family"@),
                    None => Err(DecodeErrorView::missing("family"@)),
                };
                let table = match lookup(m, "table"@) {
                    Some(v) => at_key(dec_string(v), "table"@),
                    None => Err(DecodeErrorView::missing("table"@)),
                };
                let name = match lookup(m, "name"@) {
                    Some(v) => at_key(dec_string(v), "name"@),
                    None => Err(DecodeErrorView::missing("name"@)),
                };
                let handle = match optional(m, "handle"@) {
                    Some(v) => at_key(some(dec_u32(v)), "handle"@),
                    None => Ok(None),
                };
                let protocol = match optional(m, "protocol"@) {
                    Some(v) => at_key(some(dec_token::<CTHProto>(v)), "protocol"@),
                    None => Ok(None),
                };
                let state = match optional(m, "state"@) {
                    Some(v) => at_key(some(dec_string(v)), "state"@),
                    None => Ok(None),
                };
                let value = match optional(m, "value"@) {
                    Some(v) => at_key(some(dec_u32(v)), "value"@),
                    None => Ok(None),
                };
                let l3proto = match optional(m, "l3proto"@) {
                    Some(v) => at_key(some(dec_string(v)), "l3proto"@),
                    None => Ok(None),
                };
                if family is Err {
                    Err(family->Err_0)
                } else if table is Err {
                    Err(table->Err_0)
                } else if name is Err {
                    Err(name->Err_0)
                } else if handle is Err {
                    Err(handle->Err_0)
                } else if protocol is Err {
                    Err(protocol->Err_0)
                } else if state is Err {
                    Err(state->Err_0)
                } else if value is Err {
                    Err(value->Err_0)
                } else if l3proto is Err {
                    Err(l3proto->Err_0)
                } else {
                    Ok(
                        CTTimeoutView {
                            family: family->Ok_0,
                            table: table->Ok_0,
                            name: name->Ok_0,
                            handle: handle->Ok_0,
                            protocol: protocol->Ok_0,
                            state: state->Ok_0,
                            value: value->Ok_0,
                            l3proto: l3proto->Ok_0,
                        },
                    )
                }
            },
            _ => Err(DecodeErrorView::shape()),
        }
    }

    /// The keys of the wire form differ from one another.
    pub proof fn lemma_keys()
        ensures
            "family"@ != "table"@,
            "family"@ != "name"@,
            "family"@ != "handle"@,
            "family"@ != "protocol"@,
            "family"@ != "state"@,
            "family"@ != "value"@,
            "family"@ != "l3proto"@,
            "table"@ != "name"@,
            "table"@ != "handle"@,
            "table"@ != "protocol"@,
            "table"@ != "state"@,
            "table"@ != "value"@,
            "table"@ != "l3proto"@,
            "name"@ != "handle"@,
            "name"@ != "protocol"@,
            "name"@ != "state"@,
            "name"@ != "value"@,
            "name"@ != "l3proto"@,
            "handle"@ != "protocol"@,
            "handle"@ != "state"@,
            "handle"@ != "value"@,
            "handle"@ != "l3proto"@,
            "protocol"@ != "state"@,
            "protocol"@ != "value"@,
            "protocol"@ != "l3proto"@,
            "state"@ != "value"@,
            "state"@ != "l3proto"@,
            "value"@ != "l3proto"@,
    {
        reveal_strlit("family");
        reveal_strlit("table");
        reveal_strlit("name");
        reveal_strlit("handle");
        reveal_strlit("protocol");
        reveal_strlit("state");
        reveal_strlit("value");
        reveal_strlit("l3proto");
        assert("family"@.len() == 6 && "family"@[0] == 'f');
        assert("table"@.len() == 5 && "table"@[0] == 't');
        assert("name"@.len() == 4);
        assert("handle"@.len() == 6 && "handle"@[0] == 'h');
        assert("protocol"@.len() == 8);
        assert("state"@.len() == 5 && "state"@[0] == 's');
        assert("value"@.len() == 5 && "value"@[0] == 'v');
        assert("l3proto"@.len() == 7);
    }

    /// What the wire form holds under each key.
    pub proof fn lemma_members(self)
        ensures
            self.to_wire() is Object,
            lookup(self.to_wire()->Object_0, "family"@) == Some(enc_token(self.family)),
            lookup(self.to_wire()->Object_0, "table"@) == Some(JsonView::String(self.table)),
            lookup(self.to_wire()->Object_0, "name"@) == Some(JsonView::String(self.name)),
            lookup(self.to_wire()->Object_0, "handle"@) == match self.handle {
                Some(v) => Some(JsonView::Number(v as int)),
                None => None,
            },
            lookup(self.to_wire()->Object_0, "protocol"@) == match self.protocol {
                Some(v) => Some(enc_token(v)),
                None => None,
            },
            lookup(self.to_wire()->Object_0, "state"@) == match self.state {
                Some(v) => Some(JsonView::String(v)),
                None => None,
            },
            lookup(self.to_wire()->Object_0, "value"@) == match self.value {
                Some(v) => Some(JsonView::Number(v as int)),
                None => None,
            },
            lookup(self.to_wire()->Object_0, "l3proto"@) == match self.l3proto {
                Some(v) => Some(JsonView::String(v)),
                None => None,
            },
    {
        Self::lemma_keys();
        assert(lookup(self.to_wire()->Object_0, "family"@) == Some(enc_token(self.family))) by {
            broadcast use {lemma_lookup_push, lemma_lookup_empty, lemma_with_opt};
        }
        assert(
            lookup(self.to_wire()->Object_0, "table"@) == Some(JsonView::String(self.table))
        ) by {
            broadcast use {lemma_lookup_push, lemma_lookup_empty, lemma_with_opt};
        }
        assert(lookup(self.to_wire()->Object_0, "name"@) == Some(JsonView::String(self.name))) by {
            broadcast use {lemma_lookup_push, lemma_lookup_empty, lemma_with_opt};
        }
        assert(lookup(self.to_wire()->Object_0, "handle"@) == match self.handle {
            Some(v) => Some(JsonView::Number(v as int)),
            None => None,
        }) by {
            broadcast use {lemma_lookup_push, lemma_lookup_empty, lemma_with_opt};
        }
        assert(lookup(self.to_wire()->Object_0, "protocol"@) == match self.protocol {
            Some(v) => Some(enc_token(v)),
            None => None,
        }) by {
            broadcast use {lemma_lookup_push, lemma_lookup_empty, lemma_with_opt};
        }
        assert(lookup(self.to_wire()->Object_0, "state"@) == match self.state {
            Some(v) => Some(JsonView::String(v)),
            None => None,
        }) by {
            broadcast use {lemma_lookup_push, lemma_lookup_empty, lemma_with_opt};
        }
        assert(lookup(self.to_wire()->Object_0, "value"@) == match self.value {
            Some(v) => Some(JsonView::Number(v as int)),
            None => None,
        }) by {
            broadcast use {lemma_lookup_push, lemma_lookup_empty, lemma_with_opt};
        }
        assert(lookup(self.to_wire()->Object_0, "l3proto"@) == match self.l3proto {
            Some(v) => Some(JsonView::String(v)),
            None => None,
        }) by {
            broadcast use {lemma_lookup_push, lemma_lookup_empty, lemma_with_opt};
        }
    }

    /// Decoding the wire form of a value gives the value back.
    pub proof fn lemma_round_trip(self)
        ensures
            Self::from_wire(self.to_wire()) == Ok::<CTTimeoutView, DecodeErrorView>(self),
    {
        self.lemma_members();
        lemma_token_round_trip(self.family);
        match self.protocol {
            Some(v) => {
                lemma_token_round_trip(v);
            },
            None => {},
        }
    }

    /// The order in which the members of an object stand does not matter to what
    /// the object decodes to.
    pub proof fn lemma_member_order(
        a: Seq<(Seq<char>, JsonView)>,
        b: Seq<(Seq<char>, JsonView)>,
    )
        requires
            same_members(a, b),
        ensures
            Self::from_wire(JsonView::Object(a)) == Self::from_wire(JsonView::Object(b)),
    {
        assert(lookup(a, "family"@) == lookup(b, "family"@));
        assert(lookup(a, "table"@) == lookup(b, "table"@));
        assert(lookup(a, "name"@) == lookup(b, "name"@));
        assert(lookup(a, "handle"@) == lookup(b, "handle"@));
        assert(lookup(a, "protocol"@) == lookup(b, "protocol"@));
        assert(lookup(a, "state"@) == lookup(b, "state"@));
        assert(lookup(a, "value"@) == lookup(b, "value"@));
        assert(lookup(a, "l3proto"@) == lookup(b, "l3proto"@));
    }

    /// Where an object fails to decode, the failure names the field that it lies in:
    /// its path begins with the key of one of the fields.
    pub proof fn lemma_failure_names_field(m: Seq<(Seq<char>, JsonView)>)
        ensures
            Self::from_wire(JsonView::Object(m)) matches Err(e) ==> e.path.len() > 0 && {
                ||| e.path[0] == PathSegmentView::Key("family"@)
                ||| e.path[0] == PathSegmentView::Key("table"@)
                ||| e.path[0] == PathSegmentView::Key("name"@)
                ||| e.path[0] == PathSegmentView::Key("handle"@)
                ||| e.path[0] == PathSegmentView::Key("protocol"@)
                ||| e.path[0] == PathSegmentView::Key("state"@)
                ||| e.path[0] == PathSegmentView::Key("value"@)
                ||| e.path[0] == PathSegmentView::Key("l3proto"@)
            },
    {
        broadcast use lemma_under_key_path;
    }
}

impl CTTimeout {
    /// Encodes the value in its wire form.
    pub fn encode(&self) -> (j: Json)
        ensures
            j.deep_view() == self.deep_view().to_wire(),
    {
        let mut m: Vec<(String, Json)> = Vec::new();
        assert(members_view(m) =~= Seq::empty());
        put(&mut m, "family", encode_token(&self.family));
        put(&mut m, "table", Json::String(self.table.clone()));
        put(&mut m, "name", Json::String(self.name.clone()));
        match &self.handle {
            Some(v) => put(&mut m, "handle", Json::Number(*v as i128)),
            None => {},
        }
        match &self.protocol {
            Some(v) => put(&mut m, "protocol", encode_token(v)),
            None => {},
        }
        match &self.state {
            Some(v) => put(&mut m, "state", Json::String(v.clone())),
            None => {},
        }
        match &self.value {
            Some(v) => put(&mut m, "value", Json::Number(*v as i128)),
            None => {},
        }
        match &self.l3proto {
            Some(v) => put(&mut m, "l3proto", Json::String(v.clone())),
            None => {},
        }
        Json::Object(m)
    }

    /// Decodes a wire value.
    pub fn decode(j: &Json) -> (r: Result<CTTimeout, DecodeError>)
        ensures
            decoded(r, CTTimeoutView::from_wire(j.deep_view())),
    {
        match j {
            Json::Object(m) => {
                let family = match find(m, "family") {
                    Some(v) => match decode_token::<NfFamily>(v) {
                        Ok(x) => x,
                        Err(e) => return Err(e.under_key("family")),
                    },
                    None => return Err(DecodeError::missing("family")),
                };
                let table = match find(m, "table") {
                    Some(v) => match decode_string(v) {
                        Ok(x) => x,
                        Err(e) => return Err(e.under_key("table")),
                    },
                    None => return Err(DecodeError::missing("table")),
                };
                let name = match find(m, "name") {
                    Some(v) => match decode_string(v) {
                        Ok(x) => x,
                        Err(e) => return Err(e.under_key("name")),
                    },
                    None => return Err(DecodeError::missing("name")),
                };
                let handle = match present(m, "handle") {
                    Some(v) => match decode_u32(v) {
                        Ok(x) => Some(x),
                        Err(e) => return Err(e.under_key("handle")),
                    },
                    None => None,
                };
                let protocol = match present(m, "protocol") {
                    Some(v) => match decode_token::<CTHProto>(v) {
                        Ok(x) => Some(x),
                        Err(e) => return Err(e.under_key("protocol")),
                    },
                    None => None,
                };
                let state = match present(m, "state") {
                    Some(v) => match decode_string(v) {
                        Ok(x) => Some(x),
                        Err(e) => return Err(e.under_key("state")),
                    },
                    None => None,
                };
                let value = match present(m, "value") {
                    Some(v) => match decode_u32(v) {
                        Ok(x) => Some(x),
                        Err(e) => return Err(e.under_key("value")),
                    },
                    None => None,
                };
                let l3proto = match present(m, "l3proto") {
                    Some(v) => match decode_string(v) {
                        Ok(x) => Some(x),
                        Err(e) => return Err(e.under_key("l3proto")),
                    },
                    None => None,
                };
                Ok(CTTimeout { family, table, name, handle, protocol, state, value, l3proto })
            },
            _ => Err(DecodeError::shape()),
        }
    }
}

impl Clone for CTTimeout {
    fn clone(&self) -> (r: Self)
        ensures
            r.deep_view() == self.deep_view(),
    {
        CTTimeout {
            family: self.family,
            table: self.table.clone(),
            name: self.name.clone(),
            handle: self.handle,
            protocol: self.protocol,
            state: match &self.state {
                Some(x) => Some(x.clone()),
                None => None,
            },
            value: self.value,
            l3proto: match &self.l3proto {
                Some(x) => Some(x.clone()),
                None => None,
            },
        }
    }
}

/// A conntrack expectation.
#[derive(Debug, PartialEq, Eq)]
pub struct CTExpectation {
    /// The family of the table.
    pub family: NfFamily,
    /// The name of the table.
    pub table: String,
    /// The name of the expectation.
    pub name: String,
    /// The handle of the object in the kernel. It is output only: in input it is ignored, but for
    /// where an object is referred to by it.
    pub handle: Option<u32>,
    /// The layer 3 protocol of the expectation.
    pub l3proto: Option<String>,
    /// The protocol of the expectation.
    pub protocol: Option<CTHProto>,
    /// The destination port of the expected connection.
    pub dport: Option<u32>,
    /// The time, in milliseconds, after which the expectation expires.
    pub timeout: Option<u32>,
    /// The most expectations at one time.
    pub size: Option<u32>,
}

/// The mathematical value of a [`CTExpectation`].
pub ghost struct CTExpectationView {
    pub family: NfFamily,
    pub table: Seq<char>,
    pub name: Seq<char>,
    pub handle: Option<u32>,
    pub l3proto: Option<Seq<char>>,
    pub protocol: Option<CTHProto>,
    pub dport: Option<u32>,
    pub timeout: Option<u32>,
    pub size: Option<u32>,
}

impl DeepView for CTExpectation {
    type V = CTExpectationView;

    open spec fn deep_view(&self) -> CTExpectationView {
        CTExpectationView {
            family: self.family,
            table: self.table@,
            name: self.name@,
            handle: self.handle,
            l3proto: match self.l3proto {
                Some(x) => Some(x@),
                None => None,
            },
            protocol: self.protocol,
            dport: self.dport,
            timeout: self.timeout,
            size: self.size,
        }
    }
}

impl CTExpectationView {
    /// The wire form: an object with one member for each field that has a value.
    pub open spec fn to_wire(self) -> JsonView {
        let m = Seq::empty();
        let m = m.push(("family"@, enc_token(self.family)));
        let m = m.push(("table"@, JsonView::String(self.table)));
        let m = m.push(("name"@, JsonView::String(self.name)));
        let m = with_opt(
            m,
            "handle"@,
            match self.handle {
                Some(v) => Some(JsonView::Number(v as int)),
                None => None,
            },
        );
        let m = with_opt(
            m,
            "l3proto"@,
            match self.l3proto {
                Some(v) => Some(JsonView::String(v)),
                None => None,
            },
        );
        let m = with_opt(
            m,
            "protocol"@,
            match self.protocol {
                Some(v) => Some(enc_token(v)),
                None => None,
            },
        );
        let m = with_opt(
            m,
            "dport"@,
            match self.dport {
                Some(v) => Some(JsonView::Number(v as int)),
                None => None,
            },
        );
        let m = with_opt(
            m,
            "timeout"@,
            match self.timeout {
                Some(v) => Some(JsonView::Number(v as int)),
                None => None,
            },
        );
        let m = with_opt(
            m,
            "size"@,
            match self.size {
                Some(v) => Some(JsonView::Number(v as int)),
                None => None,
            },
        );
        JsonView::Object(m)
    }

    /// What a wire value decodes to: the fields are read by their keys, in the order
    /// in which the type lists them, and the first that fails decides the failure.
    pub open spec fn from_wire(j: JsonView) -> Result<CTExpectationView, DecodeErrorView> {
        match j {
            JsonView::Object(m) => {
                let family = match lookup(m, "family"@) {
                    Some(v) => at_key(dec_token::<NfFamily>(v), "family"@),
                    None => Err(DecodeErrorView::missing("family"@)),
                };
                let table = match lookup(m, "table"@) {
                    Some(v) => at_key(dec_string(v), "table"@),
                    None => Err(DecodeErrorView::missing("table"@)),
                };
                let name = match lookup(m, "name"@) {
                    Some(v) => at_key(dec_string(v), "name"@),
                    None => Err(DecodeErrorView::missing("name"@)),
                };
                let handle = match optional(m, "handle"@) {
                    Some(v) => at_key(some(dec_u32(v)), "handle"@),
                    None => Ok(None),
                };
                let l3proto = match optional(m, "l3proto"@) {
                    Some(v) => at_key(some(dec_string(v)), "l3proto"@),
                    None => Ok(None),
                };
                let protocol = match optional(m, "protocol"@) {
                    Some(v) => at_key(some(dec_token::<CTHProto>(v)), "protocol"@),
                    None => Ok(None),
                };
                let dport = match optional(m, "dport"@) {
                    Some(v) => at_key(some(dec_u32(v)), "dport"@),
                    None => Ok(None),
                };
                let timeout = match optional(m, "timeout"@) {
                    Some(v) => at_key(some(dec_u32(v)), "timeout"@),
                    None => Ok(None),
                };
                let size = match optional(m, "size"@) {
                    Some(v) => at_key(some(dec_u32(v)), "size"@),
                    None => Ok(None),
                };
                if family is Err {
                    Err(family->Err_0)
                } else if table is Err {
                    Err(table->Err_0)
                } else if name is Err {
                    Err(name->Err_0)
                } else if handle is Err {
                    Err(handle->Err_0)
                } else if l3proto is Err {
                    Err(l3proto->Err_0)
                } else if protocol is Err {
                    Err(protocol->Err_0)
                } else if dport is Err {
                    Err(dport->Err_0)
                } else if timeout is Err {
                    Err(timeout->Err_0)
                } else if size is Err {
                    Err(size->Err_0)
                } else {
                    Ok(
                        CTExpectationView {
                            family: family->Ok_0,
                            table: table->Ok_0,
                            name: name->Ok_0,
                            handle: handle->Ok_0,
                            l3proto: l3proto->Ok_0,
                            protocol: protocol->Ok_0,
                            dport: dport->Ok_0,
                            timeout: timeout->Ok_0,
                            size: size->Ok_0,
                        },
                    )
                }
            },
            _ => Err(DecodeErrorView::shape()),
        }
    }

    /// The keys of the wire form differ from one another.
    pub proof fn lemma_keys()
        ensures
            "family"@ != "table"@,
            "family"@ != "name"@,
            "family"@ != "handle"@,
            "family"@ != "l3proto"@,
            "family"@ != "protocol"@,
            "family"@ != "dport"@,
            "family"@ != "timeout"@,
            "family"@ != "size"@,
            "table"@ != "name"@,
            "table"@ != "handle"@,
            "table"@ != "l3proto"@,
            "table"@ != "protocol"@,
            "table"@ != "dport"@,
            "table"@ != "timeout"@,
            "table"@ != "size"@,
            "name"@ != "handle"@,
            "name"@ != "l3proto"@,
            "name"@ != "protocol"@,
            "name"@ != "dport"@,
            "name"@ != "timeout"@,
            "name"@ != "size"@,
            "handle"@ != "l3proto"@,
            "handle"@ != "protocol"@,
            "handle"@ != "dport"@,
            "handle"@ != "timeout"@,
            "handle"@ != "size"@,
            "l3proto"@ != "protocol"@,
            "l3proto"@ != "dport"@,
            "l3proto"@ != "timeout"@,
            "l3proto"@ != "size"@,
            "protocol"@ != "dport"@,
            "protocol"@ != "timeout"@,
            "protocol"@ != "size"@,
            "dport"@ != "timeout"@,
            "dport"@ != "size"@,
            "timeout"@ != "size"@,
    {
        reveal_strlit("family");
        reveal_strlit("table");
        reveal_strlit("name");
        reveal_strlit("handle");
        reveal_strlit("l3proto");
        reveal_strlit("protocol");
        reveal_strlit("dport");
        reveal_strlit("timeout");
        reveal_strlit("size");
        assert("family"@.len() == 6 && "family"@[0] == 'f');
        assert("table"@.len() == 5 && "table"@[0] == 't');
        assert("name"@.len() == 4 && "name"@[0] == 'n');
        assert("handle"@.len() == 6 && "handle"@[0] == 'h');
        assert("l3proto"@.len() == 7 && "l3proto"@[0] == 'l');
        assert("protocol"@.len() == 8);
        assert("dport"@.len() == 5 && "dport"@[0] == 'd');
        assert("timeout"@.len() == 7 && "timeout"@[0] == 't');
        assert("size"@.len() == 4 && "size"@[0] == 's');
    }

    /// What the wire form holds under each key.
    pub proof fn lemma_members(self)
        ensures
            self.to_wire() is Object,
            lookup(self.to_wire()->Object_0, "family"@) == Some(enc_token(self.family)),
            lookup(self.to_wire()->Object_0, "table"@) == Some(JsonView::String(self.table)),
            lookup(self.to_wire()->Object_0, "name"@) == Some(JsonView::String(self.name)),
            lookup(self.to_wire()->Object_0, "handle"@) == match self.handle {
                Some(v) => Some(JsonView::Number(v as int)),
                None => None,
            },
            lookup(self.to_wire()->Object_0, "l3proto"@) == match self.l3proto {
                Some(v) => Some(JsonView::String(v)),
                None => None,
            },
            lookup(self.to_wire()->Object_0, "protocol"@) == match self.protocol {
                Some(v) => Some(enc_token(v)),
                None => None,
            },
            lookup(self.to_wire()->Object_0, "dport"@) == match self.dport {
                Some(v) => Some(JsonView::Number(v as int)),
                None => None,
            },
            lookup(self.to_wire()->Object_0, "timeout"@) == match self.timeout {
                Some(v) => Some(JsonView::Number(v as int)),
                None => None,
            },
            lookup(self.to_wire()->Object_0, "size"@) == match self.size {
                Some(v) => Some(JsonView::Number(v as int)),
                None => None,
            },
    {
        Self::lemma_keys();
        assert(lookup(self.to_wire()->Object_0, "family"@) == Some(enc_token(self.family))) by {
            broadcast use {lemma_lookup_push, lemma_lookup_empty, lemma_with_opt};
        }
        assert(
            lookup(self.to_wire()->Object_0, "table"@) == Some(JsonView::String(self.table))
        ) by {
            broadcast use {lemma_lookup_push, lemma_lookup_empty, lemma_with_opt};
        }
        assert(lookup(self.to_wire()->Object_0, "name"@) == Some(JsonView::String(self.name))) by {
            broadcast use {lemma_lookup_push, lemma_lookup_empty, lemma_with_opt};
        }
        assert(lookup(self.to_wire()->Object_0, "handle"@) == match self.handle {
            Some(v) => Some(JsonView::Number(v as int)),
            None => None,
        }) by {
            broadcast use {lemma_lookup_push, lemma_lookup_empty, lemma_with_opt};
        }
        assert(lookup(self.to_wire()->Object_0, "l3proto"@) == match self.l3proto {
            Some(v) => Some(JsonView::String(v)),
            None => None,
        }) by {
            broadcast use {lemma_lookup_push, lemma_lookup_empty, lemma_with_opt};
        }
        assert(lookup(self.to_wire()->Object_0, "protocol"@) == match self.protocol {
            Some(v) => Some(enc_token(v)),
            None => None,
        }) by {
            broadcast use {lemma_lookup_push, lemma_lookup_empty, lemma_with_opt};
        }
        assert(lookup(self.to_wire()->Object_0, "dport"@) == match self.dport {
            Some(v) => Some(JsonView::Number(v as int)),
            None => None,
        }) by {
            broadcast use {lemma_lookup_push, lemma_lookup_empty, lemma_with_opt};
        }
        assert(lookup(self.to_wire()->Object_0, "timeout"@) == match self.timeout {
            Some(v) => Some(JsonView::Number(v as int)),
            None => None,
        }) by {
            broadcast use {lemma_lookup_push, lemma_lookup_empty, lemma_with_opt};
        }
        assert(lookup(self.to_wire()->Object_0, "size"@) == match self.size {
            Some(v) => Some(JsonView::Number(v as int)),
            None => None,
        }) by {
            broadcast use {lemma_lookup_push, lemma_lookup_empty, lemma_with_opt};
        }
    }

    /// Decoding the wire form of a value gives the value back.
    pub proof fn lemma_round_trip(self)
        ensures
            Self::from_wire(self.to_wire()) == Ok::<CTExpectationView, DecodeErrorView>(self),
    {
        self.lemma_members();
        lemma_token_round_trip(self.family);
        match self.protocol {
            Some(v) => {
                lemma_token_round_trip(v);
            },
            None => {},
        }
    }

    /// The order in which the members of an object stand does not matter to what
    /// the object decodes to.
    pub proof fn lemma_member_order(
        a: Seq<(Seq<char>, JsonView)>,
        b: Seq<(Seq<char>, JsonView)>,
    )
        requires
            same_members(a, b),
        ensures
            Self::from_wire(JsonView::Object(a)) == Self::from_wire(JsonView::Object(b)),
    {
        assert(lookup(a, "family"@) == lookup(b, "family"@));
        assert(lookup(a, "table"@) == lookup(b, "table"@));
        assert(lookup(a, "name"@) == lookup(b, "name"@));
        assert(lookup(a, "handle"@) == lookup(b, "handle"@));
        assert(lookup(a, "l3proto"@) == lookup(b, "l3proto"@));
        assert(lookup(a, "protocol"@) == lookup(b, "protocol"@));
        assert(lookup(a, "dport"@) == lookup(b, "dport"@));
        assert(lookup(a, "timeout"@) == lookup(b, "timeout"@));
        assert(lookup(a, "size"@) == lookup(b, "size"@));
    }

    /// Where an object fails to decode, the failure names the field that it lies in:
    /// its path begins with the key of one of the fields.
    pub proof fn lemma_failure_names_field(m: Seq<(Seq<char>, JsonView)>)
        ensures
            Self::from_wire(JsonView::Object(m)) matches Err(e) ==> e.path.len() > 0 && {
                ||| e.path[0] == PathSegmentView::Key("family"@)
                ||| e.path[0] == PathSegmentView::Key("table"@)
                ||| e.path[0] == PathSegmentView::Key("name"@)
                ||| e.path[0] == PathSegmentView::Key("handle"@)
                ||| e.path[0] == PathSegmentView::Key("l3proto"@)
                ||| e.path[0] == PathSegmentView::Key("protocol"@)
                ||| e.path[0] == PathSegmentView::Key("dport"@)
                ||| e.path[0] == PathSegmentView::Key("timeout"@)
                ||| e.path[0] == PathSegmentView::Key("size"@)
            },
    {
        broadcast use lemma_under_key_path;
    }
}

impl CTExpectation {
    /// Encodes the value in its wire form.
    pub fn encode(&self) -> (j: Json)
        ensures
            j.deep_view() == self.deep_view().to_wire(),
    {
        let mut m: Vec<(String, Json)> = Vec::new();
        assert(members_view(m) =~= Seq::empty());
        put(&mut m, "family", encode_token(&self.family));
        put(&mut m, "table", Json::String(self.table.clone()));
        put(&mut m, "name", Json::String(self.name.clone()));
        match &self.handle {
            Some(v) => put(&mut m, "handle", Json::Number(*v as i128)),
            None => {},
        }
        match &self.l3proto {
            Some(v) => put(&mut m, "l3proto", Json::String(v.clone())),
            None => {},
        }
        match &self.protocol {
            Some(v) => put(&mut m, "protocol", encode_token(v)),
            None => {},
        }
        match &self.dport {
            Some(v) => put(&mut m, "dport", Json::Number(*v as i128)),
            None => {},
        }
        match &self.timeout {
            Some(v) => put(&mut m, "timeout", Json::Number(*v as i128)),
            None => {},
        }
        match &self.size {
            Some(v) => put(&mut m, "size", Json::Number(*v as i128)),
            None => {},
        }
        Json::Object(m)
    }

    /// Decodes a wire value.
    pub fn decode(j: &Json) -> (r: Result<CTExpectation, DecodeError>)
        ensures
            decoded(r, CTExpectationView::from_wire(j.deep_view())),
    {
        match j {
            Json::Object(m) => {
                let family = match find(m, "family") {
                    Some(v) => match decode_token::<NfFamily>(v) {
                        Ok(x) => x,
                        Err(e) => return Err(e.under_key("family")),
                    },
                    None => return Err(DecodeError::missing("family")),
                };
                let table = match find(m, "table") {
                    Some(v) => match decode_string(v) {
                        Ok(x) => x,
                        Err(e) => return Err(e.under_key("table")),
                    },
                    None => return Err(DecodeError::missing("table")),
                };
                let name = match find(m, "name") {
                    Some(v) => match decode_string(v) {
                        Ok(x) => x,
                        Err(e) => return Err(e.under_key("name")),
                    },
                    None => return Err(DecodeError::missing("name")),
                };
                let handle = match present(m, "handle") {
                    Some(v) => match decode_u32(v) {
                        Ok(x) => Some(x),
                        Err(e) => return Err(e.under_key("handle")),
                    },
                    None => None,
                };
                let l3proto = match present(m, "l3proto") {
                    Some(v) => match decode_string(v) {
                        Ok(x) => Some(x),
                        Err(e) => return Err(e.under_key("l3proto")),
                    },
                    None => None,
                };
                let protocol = match present(m, "protocol") {
                    Some(v) => match decode_token::<CTHProto>(v) {
                        Ok(x) => Some(x),
                        Err(e) => return Err(e.under_key("protocol")),
                    },
                    None => None,
                };
                let dport = match present(m, "dport") {
                    Some(v) => match decode_u32(v) {
                        Ok(x) => Some(x),
                        Err(e) => return Err(e.under_key("dport")),
                    },
                    None => None,
                };
                let timeout = match present(m, "timeout") {
                    Some(v) => match decode_u32(v) {
                        Ok(x) => Some(x),
                        Err(e) => return Err(e.under_key("timeout")),
                    },
                    None => None,
                };
                let size = match present(m, "size") {
                    Some(v) => match decode_u32(v) {
                        Ok(x) => Some(x),
                        Err(e) => return Err(e.under_key("size")),
                    },
                    None => None,
                };
                Ok(
                    CTExpectation {
                        family,
                        table,
                        name,
                        handle,
                        l3proto,
                        protocol,
                        dport,
                        timeout,
                        size,
                    },
                )
            },
            _ => Err(DecodeError::shape()),
        }
    }
}

impl Clone for CTExpectation {
    fn clone(&self) -> (r: Self)
        ensures
            r.deep_view() == self.deep_view(),
    {
        CTExpectation {
            family: self.family,
            table: self.table.clone(),
            name: self.name.clone(),
            handle: self.handle,
            l3proto: match &self.l3proto {
                Some(x) => Some(x.clone()),
                None => None,
            },
            protocol: self.protocol,
            dport: self.dport,
            timeout: self.timeout,
            size: self.size,
        }
    }
}

/// A named synproxy.
#[derive(Debug, PartialEq, Eq)]
pub struct SynProxy {
    /// The family of the table.
    pub family: NfFamily,
    /// The name of the table.
    pub table: String,
    /// The name of the synproxy.
    pub name: String,
    /// The handle of the object in the kernel. It is output only: in input it is ignored, but for
    /// where an object is referred to by it.
    pub handle: Option<u32>,
    /// The maximum segment size that is announced.
    pub mss: Option<u16>,
    /// The window scale that is announced.
    pub wscale: Option<u8>,
    /// The options of the synproxy.
    pub flags: Option<FlagSet<SynProxyFlag>>,
}

/// The mathematical value of a [`SynProxy`].
pub ghost struct SynProxyView {
    pub family: NfFamily,
    pub table: Seq<char>,
    pub name: Seq<char>,
    pub handle: Option<u32>,
    pub mss: Option<u16>,
    pub wscale: Option<u8>,
    pub flags: Option<Set<SynProxyFlag>>,
}

impl DeepView for SynProxy {
    type V = SynProxyView;

    open spec fn deep_view(&self) -> SynProxyView {
        SynProxyView {
            family: self.family,
            table: self.table@,
            name: self.name@,
            handle: self.handle,
            mss: self.mss,
            wscale: self.wscale,
            flags: match self.flags {
                Some(x) => Some(x.deep_view()),
                None => None,
            },
        }
    }
}

impl SynProxyView {
    /// The wire form: an object with one member for each field that has a value.
    pub open spec fn to_wire(self) -> JsonView {
        let m = Seq::empty();
        let m = m.push(("family"@, enc_token(self.family)));
        let m = m.push(("table"@, JsonView::String(self.table)));
        let m = m.push(("name"@, JsonView::String(self.name)));
        let m = with_opt(
            m,
            "handle"@,
            match self.handle {
                Some(v) => Some(JsonView::Number(v as int)),
                None => None,
            },
        );
        let m = with_opt(
            m,
            "mss"@,
            match self.mss {
                Some(v) => Some(JsonView::Number(v as int)),
                None => None,
            },
        );
        let m = with_opt(
            m,
            "wscale"@,
            match self.wscale {
                Some(v) => Some(JsonView::Number(v as int)),
                None => None,
            },
        );
        let m = with_opt(
            m,
            "flags"@,
            match self.flags {
                Some(v) => Some(enc_flags(v)),
                None => None,
            },
        );
        JsonView::Object(m)
    }

    /// What a wire value decodes to: the fields are read by their keys, in the order
    /// in which the type lists them, and the first that fails decides the failure.
    pub open spec fn from_wire(j: JsonView) -> Result<SynProxyView, DecodeErrorView> {
        match j {
            JsonView::Object(m) => {
                let family = match lookup(m, "family"@) {
                    Some(v) => at_key(dec_token::<NfFamily>(v), "family"@),
                    None => Err(DecodeErrorView::missing("family"@)),
                };
                let table = match lookup(m, "table"@) {
                    Some(v) => at_key(dec_string(v), "table"@),
                    None => Err(DecodeErrorView::missing("table"@)),
                };
                let name = match lookup(m, "name"@) {
                    Some(v) => at_key(dec_string(v), "name"@),
                    None => Err(DecodeErrorView::missing("name"@)),
                };
                let handle = match optional(m, "handle"@) {
                    Some(v) => at_key(some(dec_u32(v)), "handle"@),
                    None => Ok(None),
                };
                let mss = match optional(m, "mss"@) {
                    Some(v) => at_key(some(dec_u16(v)), "mss"@),
                    None => Ok(None),
                };
                let wscale = match optional(m, "wscale"@) {
                    Some(v) => at_key(some(dec_u8(v)), "wscale"@),
                    None => Ok(None),
                };
                let flags = match optional(m, "flags"@) {
                    Some(v) => at_key(some(dec_flags::<SynProxyFlag>(v)), "flags"@),
                    None => Ok(None),
                };
                if family is Err {
                    Err(family->Err_0)
                } else if table is Err {
                    Err(table->Err_0)
                } else if name is Err {
                    Err(name->Err_0)
                } else if handle is Err {
                    Err(handle->Err_0)
                } else if mss is Err {
                    Err(mss->Err_0)
                } else if wscale is Err {
                    Err(wscale->Err_0)
                } else if flags is Err {
                    Err(flags->Err_0)
                } else {
                    Ok(
                        SynProxyView {
                            family: family->Ok_0,
                            table: table->Ok_0,
                            name: name->Ok_0,
                            handle: handle->Ok_0,
                            mss: mss->Ok_0,
                            wscale: wscale->Ok_0,
                            flags: flags->Ok_0,
                        },
                    )
                }
            },
            _ => Err(DecodeErrorView::shape()),
        }
    }

    /// The keys of the wire form differ from one another.
    pub proof fn lemma_keys()
        ensures
            "family"@ != "table"@,
            "family"@ != "name"@,
            "family"@ != "handle"@,
            "family"@ != "mss"@,
            "family"@ != "wscale"@,
            "family"@ != "flags"@,
            "table"@ != "name"@,
            "table"@ != "handle"@,
            "table"@ != "mss"@,
            "table"@ != "wscale"@,
            "table"@ != "flags"@,
            "name"@ != "handle"@,
            "name"@ != "mss"@,
            "name"@ != "wscale"@,
            "name"@ != "flags"@,
            "handle"@ != "mss"@,
            "handle"@ != "wscale"@,
            "handle"@ != "flags"@,
            "mss"@ != "wscale"@,
            "mss"@ != "flags"@,
            "wscale"@ != "flags"@,
    {
        reveal_strlit("family");
        reveal_strlit("table");
        reveal_strlit("name");
        reveal_strlit("handle");
        reveal_strlit("mss");
        reveal_strlit("wscale");
        reveal_strlit("flags");
        assert("family"@.len() == 6 && "family"@[0] == 'f');
        assert("table"@.len() == 5 && "table"@[0] == 't');
        assert("name"@.len() == 4);
        assert("handle"@.len() == 6 && "handle"@[0] == 'h');
        assert("mss"@.len() == 3);
        assert("wscale"@.len() == 6 && "wscale"@[0] == 'w');
        assert("flags"@.len() == 5 && "flags"@[0] == 'f');
    }

    /// What the wire form holds under each key.
    pub proof fn lemma_members(self)
        ensures
            self.to_wire() is Object,
            lookup(self.to_wire()->Object_0, "family"@) == Some(enc_token(self.family)),
            lookup(self.to_wire()->Object_0, "table"@) == Some(JsonView::String(self.table)),
            lookup(self.to_wire()->Object_0, "name"@) == Some(JsonView::String(self.name)),
            lookup(self.to_wire()->Object_0, "handle"@) == match self.handle {
                Some(v) => Some(JsonView::Number(v as int)),
                None => None,
            },
            lookup(self.to_wire()->Object_0, "mss"@) == match self.mss {
                Some(v) => Some(JsonView::Number(v as int)),
                None => None,
            },
            lookup(self.to_wire()->Object_0, "wscale"@) == match self.wscale {
                Some(v) => Some(JsonView::Number(v as int)),
                None => None,
            },
            lookup(self.to_wire()->Object_0, "flags"@) == match self.flags {
                Some(v) => Some(enc_flags(v)),
                None => None,
            },
    {
        Self::lemma_keys();
        assert(lookup(self.to_wire()->Object_0, "family"@) == Some(enc_token(self.family))) by {
            broadcast use {lemma_lookup_push, lemma_lookup_empty, lemma_with_opt};
        }
        assert(
            lookup(self.to_wire()->Object_0, "table"@) == Some(JsonView::String(self.table))
        ) by {
            broadcast use {lemma_lookup_push, lemma_lookup_empty, lemma_with_opt};
        }
        assert(lookup(self.to_wire()->Object_0, "name"@) == Some(JsonView::String(self.name))) by {
            broadcast use {lemma_lookup_push, lemma_lookup_empty, lemma_with_opt};
        }
        assert(lookup(self.to_wire()->Object_0, "handle"@) == match self.handle {
            Some(v) => Some(JsonView::Number(v as int)),
            None => None,
        }) by {
            broadcast use {lemma_lookup_push, lemma_lookup_empty, lemma_with_opt};
        }
        assert(lookup(self.to_wire()->Object_0, "mss"@) == match self.mss {
            Some(v) => Some(JsonView::Number(v as int)),
            None => None,
        }) by {
            broadcast use {lemma_lookup_push, lemma_lookup_empty, lemma_with_opt};
        }
        assert(lookup(self.to_wire()->Object_0, "wscale"@) == match self.wscale {
            Some(v) => Some(JsonView::Number(v as int)),
            None => None,
        }) by {
            broadcast use {lemma_lookup_push, lemma_lookup_empty, lemma_with_opt};
        }
        assert(lookup(self.to_wire()->Object_0, "flags"@) == match self.flags {
            Some(v) => Some(enc_flags(v)),
            None => None,
        }) by {
            broadcast use {lemma_lookup_push, lemma_lookup_empty, lemma_with_opt};
        }
    }

    /// Decoding the wire form of a value gives the value back.
    pub proof fn lemma_round_trip(self)
        ensures
            Self::from_wire(self.to_wire()) == Ok::<SynProxyView, DecodeErrorView>(self),
    {
        self.lemma_members();
        lemma_token_round_trip(self.family);
        match self.flags {
            Some(v) => {
                lemma_flags_round_trip(v);
            },
            None => {},
        }
    }

    /// The order in which the members of an object stand does not matter to what
    /// the object decodes to.
    pub proof fn lemma_member_order(
        a: Seq<(Seq<char>, JsonView)>,
        b: Seq<(Seq<char>, JsonView)>,
    )
        requires
            same_members(a, b),
        ensures
            Self::from_wire(JsonView::Object(a)) == Self::from_wire(JsonView::Object(b)),
    {
        assert(lookup(a, "family"@) == lookup(b, "family"@));
        assert(lookup(a, "table"@) == lookup(b, "table"@));
        assert(lookup(a, "name"@) == lookup(b, "name"@));
        assert(lookup(a, "handle"@) == lookup(b, "handle"@));
        assert(lookup(a, "mss"@) == lookup(b, "mss"@));
        assert(lookup(a, "wscale"@) == lookup(b, "wscale"@));
        assert(lookup(a, "flags"@) == lookup(b, "flags"@));
    }

    /// Whether the options under `flags` are written as one spelling or as the array
    /// of that one spelling does not matter to what an object decodes to.
    pub proof fn lemma_single_flag_is_list(
        a: Seq<(Seq<char>, JsonView)>,
        b: Seq<(Seq<char>, JsonView)>,
        token: Seq<char>,
    )
        requires
            <SynProxyFlag as Token>::from_text(token) is Some,
            lookup(a, "flags"@) == Some(JsonView::String(token)),
            lookup(b, "flags"@) == Some(JsonView::Array(seq![JsonView::String(token)])),
            forall|k: Seq<char>| k != "flags"@ ==> lookup(a, k) == lookup(b, k),
        ensures
            Self::from_wire(JsonView::Object(a)) == Self::from_wire(JsonView::Object(b)),
    {
        crate::flags::lemma_single_flag_is_list::<SynProxyFlag>(token);
        reveal_strlit("family");
        reveal_strlit("table");
        reveal_strlit("name");
        reveal_strlit("handle");
        reveal_strlit("mss");
        reveal_strlit("wscale");
        reveal_strlit("flags");
        assert("family"@.len() == 6 && "family"@[0] == 'f');
        assert("table"@.len() == 5 && "table"@[0] == 't');
        assert("name"@.len() == 4);
        assert("handle"@.len() == 6 && "handle"@[0] == 'h');
        assert("mss"@.len() == 3);
        assert("wscale"@.len() == 6 && "wscale"@[0] == 'w');
        assert("flags"@.len() == 5 && "flags"@[0] == 'f');
        assert(lookup(a, "family"@) == lookup(b, "family"@));
        assert(lookup(a, "table"@) == lookup(b, "table"@));
        assert(lookup(a, "name"@) == lookup(b, "name"@));
        assert(lookup(a, "handle"@) == lookup(b, "handle"@));
        assert(lookup(a, "mss"@) == lookup(b, "mss"@));
        assert(lookup(a, "wscale"@) == lookup(b, "wscale"@));
    }

    /// Where an object fails to decode, the failure names the field that it lies in:
    /// its path begins with the key of one of the fields.
    pub proof fn lemma_failure_names_field(m: Seq<(Seq<char>, JsonView)>)
        ensures
            Self::from_wire(JsonView::Object(m)) matches Err(e) ==> e.path.len() > 0 && {
                ||| e.path[0] == PathSegmentView::Key("family"@)
                ||| e.path[0] == PathSegmentView::Key("table"@)
                ||| e.path[0] == PathSegmentView::Key("name"@)
                ||| e.path[0] == PathSegmentView::Key("handle"@)
                ||| e.path[0] == PathSegmentView::Key("mss"@)
                ||| e.path[0] == PathSegmentView::Key("wscale"@)
                ||| e.path[0] == PathSegmentView::Key("flags"@)
            },
    {
        broadcast use lemma_under_key_path;
    }
}

impl SynProxy {
    /// Encodes the value in its wire form.
    pub fn encode(&self) -> (j: Json)
        ensures
            j.deep_view() == self.deep_view().to_wire(),
    {
        let mut m: Vec<(String, Json)> = Vec::new();
        assert(members_view(m) =~= Seq::empty());
        put(&mut m, "family", encode_token(&self.family));
        put(&mut m, "table", Json::String(self.table.clone()));
        put(&mut m, "name", Json::String(self.name.clone()));
        match &self.handle {
            Some(v) => put(&mut m, "handle", Json::Number(*v as i128)),
            None => {},
        }
        match &self.mss {
            Some(v) => put(&mut m, "mss", Json::Number(*v as i128)),
            None => {},
        }
        match &self.wscale {
            Some(v) => put(&mut m, "wscale", Json::Number(*v as i128)),
            None => {},
        }
        match &self.flags {
            Some(v) => put(&mut m, "flags", v.encode()),
            None => {},
        }
        Json::Object(m)
    }

    /// Decodes a wire value.
    pub fn decode(j: &Json) -> (r: Result<SynProxy, DecodeError>)
        ensures
            decoded(r, SynProxyView::from_wire(j.deep_view())),
    {
        match j {
            Json::Object(m) => {
                let family = match find(m, "family") {
                    Some(v) => match decode_token::<NfFamily>(v) {
                        Ok(x) => x,
                        Err(e) => return Err(e.under_key("family")),
                    },
                    None => return Err(DecodeError::missing("family")),
                };
                let table = match find(m, "table") {
                    Some(v) => match decode_string(v) {
                        Ok(x) => x,
                        Err(e) => return Err(e.under_key("table")),
                    },
                    None => return Err(DecodeError::missing("table")),
                };
                let name = match find(m, "name") {
                    Some(v) => match decode_string(v) {
                        Ok(x) => x,
                        Err(e) => return Err(e.under_key("name")),
                    },
                    None => return Err(DecodeError::missing("name")),
                };
                let handle = match present(m, "handle") {
                    Some(v) => match decode_u32(v) {
                        Ok(x) => Some(x),
                        Err(e) => return Err(e.under_key("handle")),
                    },
                    None => None,
                };
                let mss = match present(m, "mss") {
                    Some(v) => match decode_u16(v) {
                        Ok(x) => Some(x),
                        Err(e) => return Err(e.under_key("mss")),
                    },
                    None => None,
                };
                let wscale = match present(m, "wscale") {
                    Some(v) => match decode_u8(v) {
                        Ok(x) => Some(x),
                        Err(e) => return Err(e.under_key("wscale")),
                    },
                    None => None,
                };
                let flags = match present(m, "flags") {
                    Some(v) => match deserialize_flags::<SynProxyFlag>(v) {
                        Ok(x) => Some(x),
                        Err(e) => return Err(e.under_key("flags")),
                    },
                    None => None,
                };
                Ok(SynProxy { family, table, name, handle, mss, wscale, flags })
            },
            _ => Err(DecodeError::shape()),
        }
    }
}

impl Clone for SynProxy {
    fn clone(&self) -> (r: Self)
        ensures
            r.deep_view() == self.deep_view(),
    {
        SynProxy {
            family: self.family,
            table: self.table.clone(),
            name: self.name.clone(),
            handle: self.handle,
            mss: self.mss,
            wscale: self.wscale,
            flags: match &self.flags {
                Some(x) => Some(x.clone()),
                None => None,
            },
        }
    }
}

} // verus!
