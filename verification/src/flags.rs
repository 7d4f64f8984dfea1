//! Sets of named options.

use std::marker::PhantomData;
use vstd::prelude::*;
use crate::error::DecodeErrorView;
use crate::json::{Json, JsonView, items_view};
use crate::token::{Flag, dec_token};

verus! {

/// A set of the names of one closed set of options.
///
/// The set is kept as one mark for each option, in the options' order: so two sets with
/// the same members are equal values, whatever the order in which the members were added,
/// and a set is always written in one order.
#[derive(Debug, PartialEq, Eq)]
pub struct FlagSet<F: Flag> {
    present: Vec<bool>,
    marker: PhantomData<F>,
}

/// The wire items for the members of `s` among the first `n` names, in the names' order.
pub open spec fn flag_items<F: Flag>(s: Set<F>, n: nat) -> Seq<JsonView>
    decreases n,
{
    if n == 0 {
        Seq::empty()
    } else {
        let rest = flag_items(s, (n - 1) as nat);
        let f = F::at((n - 1) as nat);
        if s.contains(f) {
            rest.push(JsonView::String(f.text()))
        } else {
            rest
        }
    }
}

/// The canonical wire form of a set of options: the array of its members' spellings.
pub open spec fn enc_flags<F: Flag>(s: Set<F>) -> JsonView {
    JsonView::Array(flag_items(s, F::count()))
}

/// The set that an array of spellings names; a spelling given twice counts once.
pub open spec fn dec_flag_items<F: Flag>(items: Seq<JsonView>) -> Result<Set<F>, DecodeErrorView>
    decreases items.len(),
{
    if items.len() == 0 {
        Ok(Set::empty())
    } else {
        match dec_flag_items::<F>(items.drop_last()) {
            Ok(s) => match dec_token::<F>(items.last()) {
                Ok(f) => Ok(s.insert(f)),
                Err(e) => Err(e.under_index(items.len() - 1)),
            },
            Err(e) => Err(e),
        }
    }
}

/// The set of options that a wire value names: a bare spelling names the set of that one
/// option, an array of spellings the set of its items.
pub open spec fn dec_flags<F: Flag>(j: JsonView) -> Result<Set<F>, DecodeErrorView> {
    match j {
        JsonView::String(s) => match F::from_text(s) {
            Some(f) => Ok(Set::empty().insert(f)),
            None => Err(DecodeErrorView::unknown(s)),
        },
        JsonView::Array(items) => dec_flag_items::<F>(items),
        _ => Err(DecodeErrorView::shape()),
    }
}

/// The members of `s` among the first `n` names.
pub open spec fn below<F: Flag>(s: Set<F>, n: nat) -> Set<F> {
    Set::new(|f: F| s.contains(f) && f.index() < n)
}

/// Decoding the wire items for the first `n` names gives the members among them.
proof fn lemma_flag_items_round_trip<F: Flag>(s: Set<F>, n: nat)
    requires
        n <= F::count(),
    ensures
        dec_flag_items::<F>(flag_items(s, n)) == Ok::<Set<F>, DecodeErrorView>(below(s, n)),
    decreases n,
{
    if n == 0 {
        assert(below(s, 0) =~= Set::empty());
    } else {
        let m = (n - 1) as nat;
        let f = F::at(m);
        lemma_flag_items_round_trip(s, m);
        F::lemma_at(m);
        assert forall|g: F| g.index() == m implies g == f by {
            g.lemma_index();
        }
        if s.contains(f) {
            let items = flag_items(s, n);
            assert(items.drop_last() =~= flag_items(s, m));
            f.lemma_text();
            assert(below(s, n) =~= below(s, m).insert(f));
        } else {
            assert(below(s, n) =~= below(s, m));
        }
    }
}

/// Decoding the canonical form of a set of options gives the set back.
pub proof fn lemma_flags_round_trip<F: Flag>(s: Set<F>)
    ensures
        dec_flags::<F>(enc_flags(s)) == Ok::<Set<F>, DecodeErrorView>(s),
{
    lemma_flag_items_round_trip(s, F::count());
    assert forall|f: F| s.contains(f) implies f.index() < F::count() by {
        f.lemma_index();
    }
    assert(below(s, F::count()) =~= s);
}

/// Two results of decoding agree: both are the same set, or both fail for the same reason.
pub open spec fn same_flags<F: Flag>(
    a: Result<Set<F>, DecodeErrorView>,
    b: Result<Set<F>, DecodeErrorView>,
) -> bool {
    match (a, b) {
        (Ok(x), Ok(y)) => x == y,
        (Err(e), Err(f)) => e.kind == f.kind,
        _ => false,
    }
}

/// A bare spelling decodes as the array that holds it alone: to the set of the one option
/// it names, or, where it names none, to a failure that cites it.
pub proof fn lemma_single_flag_is_list<F: Flag>(token: Seq<char>)
    ensures
        same_flags(
            dec_flags::<F>(JsonView::String(token)),
            dec_flags::<F>(JsonView::Array(seq![JsonView::String(token)])),
        ),
        dec_flags::<F>(JsonView::String(token)) == match F::from_text(token) {
            Some(f) => Ok::<Set<F>, DecodeErrorView>(Set::empty().insert(f)),
            None => Err(DecodeErrorView::unknown(token)),
        },
{
    let items = seq![JsonView::String(token)];
    assert(items.drop_last() =~= Seq::empty());
    assert(dec_flag_items::<F>(Seq::empty()) == Ok::<Set<F>, DecodeErrorView>(Set::empty()));
    assert(dec_flag_items::<F>(items) == match dec_token::<F>(items.last()) {
        Ok(f) => Ok::<Set<F>, DecodeErrorView>(Set::empty().insert(f)),
        Err(e) => Err(e.under_index(0)),
    });
}

/// A spelling given twice names the same set as the spelling given once.
pub proof fn lemma_repeated_flag<F: Flag>(token: Seq<char>)
    ensures
        same_flags(
            dec_flags::<F>(
                JsonView::Array(seq![JsonView::String(token), JsonView::String(token)]),
            ),
            dec_flags::<F>(JsonView::String(token)),
        ),
{
    let one = seq![JsonView::String(token)];
    let two = seq![JsonView::String(token), JsonView::String(token)];
    lemma_single_flag_is_list::<F>(token);
    assert(two.drop_last() =~= one);
    assert(dec_flag_items::<F>(two) == match dec_flag_items::<F>(one) {
        Ok(s) => match dec_token::<F>(two.last()) {
            Ok(f) => Ok::<Set<F>, DecodeErrorView>(s.insert(f)),
            Err(e) => Err(e.under_index(1)),
        },
        Err(e) => Err(e),
    });
    match F::from_text(token) {
        Some(f) => {
            assert(Set::<F>::empty().insert(f).insert(f) =~= Set::<F>::empty().insert(f));
        },
        None => {},
    }
}

/// An array that failed to decode up to some item fails as a whole in the same way.
pub proof fn lemma_dec_flag_items_fails<F: Flag>(items: Seq<JsonView>, i: int)
    requires
        0 <= i < items.len(),
        dec_flag_items::<F>(items.take(i + 1)) is Err,
    ensures
        dec_flag_items::<F>(items) == dec_flag_items::<F>(items.take(i + 1)),
    decreases items.len(),
{
    if i + 1 < items.len() {
        assert(items.drop_last().take(i + 1) =~= items.take(i + 1));
        lemma_dec_flag_items_fails::<F>(items.drop_last(), i);
    } else {
        assert(items.take(i + 1) =~= items);
    }
}

impl<F: Flag> DeepView for FlagSet<F> {
    type V = Set<F>;

    closed spec fn deep_view(&self) -> Set<F> {
        Set::new(|f: F| f.index() < self.present.len() && self.present@[f.index() as int])
    }
}

impl<F: Flag> Clone for FlagSet<F> {
    fn clone(&self) -> (s: Self)
        ensures
            s.deep_view() == self.deep_view(),
    {
        proof {
            use_type_invariant(self);
        }
        let present = self.present.clone();
        assert(present@ =~= self.present@);
        FlagSet { present, marker: PhantomData }
    }
}

impl<F: Flag> FlagSet<F> {
    #[verifier::type_invariant]
    spec fn wf(self) -> bool {
        self.present.len() == F::count()
    }

    /// The empty set.
    pub fn new() -> (s: Self)
        ensures
            s.deep_view() == Set::<F>::empty(),
    {
        let mut present: Vec<bool> = Vec::new();
        let n = F::size();
        let mut i: usize = 0;
        while i < n
            invariant
                i <= n,
                n == F::count(),
                present.len() == i,
                forall|k: int| 0 <= k < i ==> !present[k],
            decreases n - i,
        {
            present.push(false);
            i += 1;
        }
        let s = FlagSet { present, marker: PhantomData };
        assert(s.deep_view() =~= Set::<F>::empty());
        s
    }

    /// Adds an option to the set.
    pub fn insert(&mut self, flag: F)
        ensures
            final(self).deep_view() == old(self).deep_view().insert(flag),
    {
        proof {
            use_type_invariant(&*self);
            flag.lemma_index();
        }
        let i = flag.ordinal();
        let mut present = self.present.clone();
        assert(present@ =~= self.present@);
        present.set(i, true);
        *self = FlagSet { present, marker: PhantomData };
        proof {
            assert forall|g: F| g.index() == flag.index() implies g == flag by {
                g.lemma_index();
            }
            assert(self.deep_view() =~= old(self).deep_view().insert(flag));
        }
    }

    /// Whether an option is in the set.
    pub fn contains(&self, flag: &F) -> (r: bool)
        ensures
            r == self.deep_view().contains(*flag),
    {
        proof {
            use_type_invariant(self);
            flag.lemma_index();
        }
        self.present[flag.ordinal()]
    }

    /// The members of the set, in the order of the options' names.
    pub fn to_vec(&self) -> (v: Vec<F>)
        ensures
            forall|f: F| v@.contains(f) <==> self.deep_view().contains(f),
            forall|a: int, b: int| 0 <= a < b < v.len() ==> v[a].index() < v[b].index(),
    {
        proof {
            use_type_invariant(self);
        }
        let mut out: Vec<F> = Vec::new();
        let n = F::size();
        let mut i: usize = 0;
        while i < n
            invariant
                i <= n,
                n == F::count(),
                self.present.len() == n,
                forall|k: int|
                    0 <= k < out.len() ==> self.deep_view().contains(#[trigger] out[k])
                        && out[k].index() < i,
                forall|f: F| #[trigger]
                    self.deep_view().contains(f) && f.index() < i ==> out@.contains(f),
                forall|a: int, b: int| 0 <= a < b < out.len() ==> out[a].index() < out[b].index(),
            decreases n - i,
        {
            let ghost before = out@;
            if self.present[i] {
                let f = F::nth(i);
                proof {
                    F::lemma_at(i as nat);
                }
                out.push(f);
                assert(out@[before.len() as int] == f);
            }
            proof {
                assert forall|g: F| #[trigger]
                    self.deep_view().contains(g) && g.index() < i + 1 implies out@.contains(g) by {
                    if g.index() < i {
                        assert(before.contains(g));
                        let k = choose|k: int| 0 <= k < before.len() && before[k] == g;
                        assert(out@[k] == g);
                    } else {
                        g.lemma_index();
                        assert(out@[before.len() as int] == g);
                    }
                }
            }
            i += 1;
        }
        proof {
            assert forall|f: F| out@.contains(f) <==> self.deep_view().contains(f) by {
                if self.deep_view().contains(f) {
                    f.lemma_index();
                }
            }
        }
        out
    }

    /// Encodes the set in its canonical form, the array of its members' spellings.
    pub fn encode(&self) -> (j: Json)
        ensures
            j.deep_view() == enc_flags(self.deep_view()),
    {
        proof {
            use_type_invariant(self);
        }
        let mut out: Vec<Json> = Vec::new();
        let n = F::size();
        let mut i: usize = 0;
        assert(items_view(out) =~= flag_items(self.deep_view(), 0));
        while i < n
            invariant
                i <= n,
                n == F::count(),
                self.present.len() == n,
                items_view(out) == flag_items(self.deep_view(), i as nat),
            decreases n - i,
        {
            let f = F::nth(i);
            proof {
                F::lemma_at(i as nat);
            }
            if self.present[i] {
                let ghost before = items_view(out);
                out.push(Json::String(f.as_str().to_owned()));
                assert(items_view(out) =~= before.push(JsonView::String(f.text())));
            }
            i += 1;
        }
        Json::Array(out)
    }
}

} // verus!
