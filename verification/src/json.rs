//! JSON documents as plain data.

use vstd::prelude::*;
use crate::text::same_text;

verus! {

/// A JSON document.
///
/// The members of an object stand in an order, in which they are written out. A document
/// that was made by hand keeps the order in which its members were given; one that was
/// read from text has them in the order of their keys.
#[derive(Debug, PartialEq, Eq)]
pub enum Json {
    Null,
    Bool(bool),
    /// An integer.
    Number(i128),
    /// A number that is no integer of 64 bits, kept as the text that spells it.
    Decimal(String),
    String(String),
    Array(Vec<Json>),
    Object(Vec<(String, Json)>),
}

/// The mathematical value of a [`Json`] document.
pub ghost enum JsonView {
    Null,
    Bool(bool),
    Number(int),
    Decimal(Seq<char>),
    String(Seq<char>),
    Array(Seq<JsonView>),
    Object(Seq<(Seq<char>, JsonView)>),
}

/// The values of the items of an array.
pub open spec fn items_view(items: Vec<Json>) -> Seq<JsonView>
    decreases items,
{
    Seq::new(
        items.len() as nat,
        |i: int|
            if 0 <= i < items.len() {
                items[i].deep_view()
            } else {
                JsonView::Null
            },
    )
}

/// The keys and values of the members of an object.
pub open spec fn members_view(members: Vec<(String, Json)>) -> Seq<(Seq<char>, JsonView)>
    decreases members,
{
    Seq::new(
        members.len() as nat,
        |i: int|
            if 0 <= i < members.len() {
                (members[i].0@, members[i].1.deep_view())
            } else {
                (Seq::empty(), JsonView::Null)
            },
    )
}

impl DeepView for Json {
    type V = JsonView;

    open spec fn deep_view(&self) -> JsonView
        decreases self,
    {
        match self {
            Json::Null => JsonView::Null,
            Json::Bool(b) => JsonView::Bool(*b),
            Json::Number(n) => JsonView::Number(*n as int),
            Json::Decimal(s) => JsonView::Decimal(s@),
            Json::String(s) => JsonView::String(s@),
            Json::Array(items) => JsonView::Array(items_view(*items)),
            Json::Object(members) => JsonView::Object(members_view(*members)),
        }
    }
}

/// The position of the first member named `key`.
pub open spec fn position(members: Seq<(Seq<char>, JsonView)>, key: Seq<char>) -> Option<int>
    decreases members.len(),
{
    if members.len() == 0 {
        None
    } else {
        match position(members.drop_last(), key) {
            Some(i) => Some(i),
            None => if members.last().0 == key {
                Some(members.len() - 1)
            } else {
                None
            },
        }
    }
}

/// The value stored under `key` in a member list: the first member so named wins.
pub open spec fn lookup(members: Seq<(Seq<char>, JsonView)>, key: Seq<char>) -> Option<JsonView> {
    match position(members, key) {
        Some(i) => Some(members[i].1),
        None => None,
    }
}

/// The only member of a member list, where it has exactly one.
pub open spec fn sole_member(members: Seq<(Seq<char>, JsonView)>) -> Option<(Seq<char>, JsonView)> {
    if members.len() == 1 {
        Some(members[0])
    } else {
        None
    }
}

/// What the position of a key is: the first place of a member so named, or none
/// where no member is so named.
pub proof fn lemma_position(members: Seq<(Seq<char>, JsonView)>, key: Seq<char>)
    ensures
        match position(members, key) {
            Some(i) => 0 <= i < members.len() && members[i].0 == key && forall|k: int|
                0 <= k < i ==> members[k].0 != key,
            None => forall|k: int| 0 <= k < members.len() ==> members[k].0 != key,
        },
    decreases members.len(),
{
    if members.len() > 0 {
        let shorter = members.drop_last();
        lemma_position(shorter, key);
        assert forall|k: int| 0 <= k < shorter.len() implies shorter[k] == members[k] by {}
        match position(shorter, key) {
            Some(i) => {},
            None => {
                assert forall|k: int| 0 <= k < members.len() - 1 implies members[k].0 != key by {
                    assert(shorter[k].0 != key);
                }
            },
        }
    }
}

/// A value found in a member list is a part of that list.
pub broadcast proof fn lemma_lookup_decreases(members: Seq<(Seq<char>, JsonView)>, key: Seq<char>)
    ensures
        #[trigger] lookup(members, key) matches Some(v) ==> decreases_to!(members => v),
{
    lemma_position(members, key);
}

/// Appending a member changes the lookup of a key only where the key was absent.
pub broadcast proof fn lemma_lookup_push(
    members: Seq<(Seq<char>, JsonView)>,
    key: Seq<char>,
    value: JsonView,
    other: Seq<char>,
)
    ensures
        #[trigger] lookup(members.push((key, value)), other) == match lookup(members, other) {
            Some(v) => Some(v),
            None => if key == other {
                Some(value)
            } else {
                None
            },
        },
{
    let longer = members.push((key, value));
    assert(longer.drop_last() =~= members);
    lemma_position(members, other);
}

/// A list without members binds no key.
pub broadcast proof fn lemma_lookup_empty(key: Seq<char>)
    ensures
        #[trigger] lookup(Seq::empty(), key) is None,
{
}

/// Whether two member lists bind every key alike.
pub open spec fn same_members(
    a: Seq<(Seq<char>, JsonView)>,
    b: Seq<(Seq<char>, JsonView)>,
) -> bool {
    forall|k: Seq<char>| lookup(a, k) == lookup(b, k)
}

/// A member list with the members at `i` and `i + 1` in each other's place.
pub open spec fn swapped(a: Seq<(Seq<char>, JsonView)>, i: int) -> Seq<(Seq<char>, JsonView)> {
    a.update(i, a[i + 1]).update(i + 1, a[i])
}

/// The first member with a key is the one that a lookup finds.
pub proof fn lemma_first_is_found(members: Seq<(Seq<char>, JsonView)>, key: Seq<char>, i: int)
    requires
        0 <= i < members.len(),
        members[i].0 == key,
        forall|k: int| 0 <= k < i ==> members[k].0 != key,
    ensures
        position(members, key) == Some(i),
        lookup(members, key) == Some(members[i].1),
{
    lemma_position(members, key);
    let p = position(members, key).unwrap();
    if p < i {
        assert(members[p].0 != key);
    }
}

/// The order of two neighbours with different keys does not matter to a lookup. Any
/// reordering of members with different keys is made of such steps.
pub proof fn lemma_swap_keeps_members(a: Seq<(Seq<char>, JsonView)>, i: int)
    requires
        0 <= i < a.len() - 1,
        a[i].0 != a[i + 1].0,
    ensures
        same_members(a, swapped(a, i)),
{
    let b = swapped(a, i);
    assert forall|k: Seq<char>| lookup(a, k) == lookup(b, k) by {
        lemma_position(a, k);
        lemma_position(b, k);
        match position(a, k) {
            Some(p) => {
                let q = if p == i {
                    i + 1
                } else if p == i + 1 {
                    i
                } else {
                    p
                };
                assert(b[q] == a[p]);
                assert forall|n: int| 0 <= n < q implies b[n].0 != k by {
                    if n == i {
                        assert(b[n] == a[i + 1]);
                    } else if n == i + 1 {
                        assert(b[n] == a[i]);
                    } else {
                        assert(b[n] == a[n]);
                    }
                }
                lemma_first_is_found(b, k, q);
            },
            None => {
                match position(b, k) {
                    Some(q) => {
                        let p = if q == i {
                            i + 1
                        } else if q == i + 1 {
                            i
                        } else {
                            q
                        };
                        assert(a[p] == b[q]);
                        assert(a[p].0 != k);
                    },
                    None => {},
                }
            },
        }
    }
}

/// The member of `members` named `key`, if there is one.
pub fn find<'a>(members: &'a Vec<(String, Json)>, key: &str) -> (r: Option<&'a Json>)
    ensures
        match r {
            Some(v) => lookup(members_view(*members), key@) == Some(v.deep_view())
                && decreases_to!(*members => *v),
            None => lookup(members_view(*members), key@) is None,
        },
{
    let ghost view = members_view(*members);
    proof {
        lemma_position(view, key@);
    }
    let mut i: usize = 0;
    while i < members.len()
        invariant
            i <= members.len(),
            view == members_view(*members),
            forall|k: int| 0 <= k < i ==> view[k].0 != key@,
        decreases members.len() - i,
    {
        if same_text(members[i].0.as_str(), key) {
            proof {
                lemma_position(view, key@);
                let p = position(view, key@).unwrap();
                assert(view[i as int].0 == key@);
                assert(p == i) by {
                    if p < i {
                        assert(view[p].0 != key@);
                    }
                }
            }
            return Some(&members[i].1);
        }
        i += 1;
    }
    None
}

/// Appends the member `key: value` to a member list.
pub fn put(members: &mut Vec<(String, Json)>, key: &str, value: Json)
    ensures
        members_view(*final(members)) == members_view(*old(members)).push(
            (key@, value.deep_view()),
        ),
{
    members.push((key.to_owned(), value));
    assert(members_view(*members) =~= members_view(*old(members)).push((key@, value.deep_view())));
}

impl Clone for Json {
    #[verifier::loop_isolation(false)]
    fn clone(&self) -> (r: Json)
        ensures
            r.deep_view() == self.deep_view(),
        decreases self,
    {
        match self {
            Json::Null => Json::Null,
            Json::Bool(b) => Json::Bool(*b),
            Json::Number(n) => Json::Number(*n),
            Json::Decimal(s) => Json::Decimal(s.clone()),
            Json::String(s) => Json::String(s.clone()),
            Json::Array(items) => {
                let mut out: Vec<Json> = Vec::new();
                let mut i: usize = 0;
                while i < items.len()
                    invariant
                        i <= items.len(),
                        out.len() == i,
                        forall|k: int| 0 <= k < i ==> out[k].deep_view() == items[k].deep_view(),
                    decreases items.len() - i,
                {
                    out.push(items[i].clone());
                    i += 1;
                }
                assert(items_view(out) =~= items_view(*items));
                Json::Array(out)
            },
            Json::Object(members) => {
                let mut out: Vec<(String, Json)> = Vec::new();
                let mut i: usize = 0;
                while i < members.len()
                    invariant
                        i <= members.len(),
                        out.len() == i,
                        forall|k: int|
                            0 <= k < i ==> out[k].0@ == members[k].0@ && out[k].1.deep_view()
                                == members[k].1.deep_view(),
                    decreases members.len() - i,
                {
                    out.push((members[i].0.clone(), members[i].1.clone()));
                    i += 1;
                }
                assert(members_view(out) =~= members_view(*members));
                Json::Object(out)
            },
        }
    }
}

} // verus!
