//! Errors of the codec and of the entity builders.

use vstd::prelude::*;
use vstd::string::StringExecFns;
use crate::wire::{decimal_nat, write_decimal_nat};

verus! {

/// One step of the path from the root of a document to a value inside it.
#[derive(Debug, Clone, PartialEq, Eq)]
pub enum PathSegment {
    /// The member of an object with this key.
    Key(String),
    /// The item of an array at this position.
    Index(usize),
}

/// The mathematical value of a [`PathSegment`].
pub ghost enum PathSegmentView {
    Key(Seq<char>),
    Index(int),
}

impl DeepView for PathSegment {
    type V = PathSegmentView;

    open spec fn deep_view(&self) -> PathSegmentView {
        match self {
            PathSegment::Key(k) => PathSegmentView::Key(k@),
            PathSegment::Index(i) => PathSegmentView::Index(*i as int),
        }
    }
}

/// Why a value could not be decoded.
#[derive(Debug, Clone, PartialEq, Eq)]
pub enum DecodeErrorKind {
    /// A required member is absent from its object.
    MissingField,
    /// The value has a shape that no accepted form of the expected entity has.
    UnexpectedShape,
    /// A token is none of the spellings that the expected set of names has.
    UnknownToken(String),
}

/// The mathematical value of a [`DecodeErrorKind`].
pub ghost enum DecodeErrorKindView {
    MissingField,
    UnexpectedShape,
    UnknownToken(Seq<char>),
}

impl DeepView for DecodeErrorKind {
    type V = DecodeErrorKindView;

    open spec fn deep_view(&self) -> DecodeErrorKindView {
        match self {
            DecodeErrorKind::MissingField => DecodeErrorKindView::MissingField,
            DecodeErrorKind::UnexpectedShape => DecodeErrorKindView::UnexpectedShape,
            DecodeErrorKind::UnknownToken(t) => DecodeErrorKindView::UnknownToken(t@),
        }
    }
}

/// A decoding failure: the place of the offending value and the reason.
#[derive(Debug, Clone, PartialEq, Eq)]
pub struct DecodeError {
    /// The path from the root of the decoded document to the offending value,
    /// outermost step first.
    pub path: Vec<PathSegment>,
    pub kind: DecodeErrorKind,
}

/// The mathematical value of a [`DecodeError`].
pub ghost struct DecodeErrorView {
    pub path: Seq<PathSegmentView>,
    pub kind: DecodeErrorKindView,
}

/// The steps of a path, each by its view.
pub open spec fn path_view(path: Seq<PathSegment>) -> Seq<PathSegmentView> {
    Seq::new(path.len(), |i: int| path[i].deep_view())
}

impl DeepView for DecodeError {
    type V = DecodeErrorView;

    open spec fn deep_view(&self) -> DecodeErrorView {
        DecodeErrorView { path: path_view(self.path@), kind: self.kind.deep_view() }
    }
}

impl DecodeErrorView {
    /// A failure at the root of the decoded value.
    pub open spec fn here(kind: DecodeErrorKindView) -> DecodeErrorView {
        DecodeErrorView { path: Seq::empty(), kind }
    }

/// A value of a shape that is not accepted, at the root of the decoded value.
    pub open spec fn shape() -> DecodeErrorView {
        Self::here(DecodeErrorKindView::UnexpectedShape)
    }

/// A required member named `key` that is absent.
    pub open spec fn missing(key: Seq<char>) -> DecodeErrorView {
        Self::here(DecodeErrorKindView::MissingField).under_key(key)
    }

/// A token that spells no name, at the root of the decoded value.
    pub open spec fn unknown(token: Seq<char>) -> DecodeErrorView {
        Self::here(DecodeErrorKindView::UnknownToken(token))
    }

    /// The same failure, seen from the object that holds the decoded value under `key`.
    pub open spec fn under_key(self, key: Seq<char>) -> DecodeErrorView {
        DecodeErrorView { path: seq![PathSegmentView::Key(key)] + self.path, kind: self.kind }
    }

    /// The same failure, seen from the array that holds the decoded value at `index`.
    pub open spec fn under_index(self, index: int) -> DecodeErrorView {
        DecodeErrorView { path: seq![PathSegmentView::Index(index)] + self.path, kind: self.kind }
    }
}

/// What decoding is to return where the specification gives `expected`.
pub open spec fn decoded<T: DeepView>(
    r: Result<T, DecodeError>,
    expected: Result<T::V, DecodeErrorView>,
) -> bool {
    match r {
        Ok(v) => expected == Ok::<T::V, DecodeErrorView>(v.deep_view()),
        Err(e) => expected == Err::<T::V, DecodeErrorView>(e.deep_view()),
    }
}

/// The result `r`, with a failure seen from the member `key` of the enclosing object.
pub open spec fn at_key<T>(r: Result<T, DecodeErrorView>, key: Seq<char>) -> Result<
    T,
    DecodeErrorView,
> {
    match r {
        Ok(v) => Ok(v),
        Err(e) => Err(e.under_key(key)),
    }
}

/// The result `r`, for a member that may be absent.
pub open spec fn some<T>(r: Result<T, DecodeErrorView>) -> Result<Option<T>, DecodeErrorView> {
    match r {
        Ok(v) => Ok(Some(v)),
        Err(e) => Err(e),
    }
}

/// The result `r`, for a value that is held in a box.
pub open spec fn boxed<T>(r: Result<T, DecodeErrorView>) -> Result<Box<T>, DecodeErrorView> {
    match r {
        Ok(v) => Ok(Box::new(v)),
        Err(e) => Err(e),
    }
}

/// The result `r`, with a failure seen from the item `index` of the enclosing array.
pub open spec fn at_index<T>(r: Result<T, DecodeErrorView>, index: int) -> Result<
    T,
    DecodeErrorView,
> {
    match r {
        Ok(v) => Ok(v),
        Err(e) => Err(e.under_index(index)),
    }
}

impl PathSegmentView {
    /// How a step is written within a path: a key after a dot, unless it comes first, and
    /// a place between square brackets.
    pub open spec fn text(self, first: bool) -> Seq<char> {
        match self {
            PathSegmentView::Key(k) => if first {
                k
            } else {
                "."@ + k
            },
            PathSegmentView::Index(i) => "["@ + decimal_nat(i as nat) + "]"@,
        }
    }
}

/// How a path is written: its steps, one after the other.
pub open spec fn path_text(path: Seq<PathSegmentView>) -> Seq<char>
    decreases path.len(),
{
    if path.len() == 0 {
        Seq::empty()
    } else {
        path_text(path.drop_last()) + path.last().text(path.len() == 1)
    }
}

impl DecodeErrorKindView {
    /// The reason, in words.
    pub open spec fn text(self) -> Seq<char> {
        match self {
            DecodeErrorKindView::MissingField => "missing field"@,
            DecodeErrorKindView::UnexpectedShape => "unexpected shape"@,
            DecodeErrorKindView::UnknownToken(t) => "unknown token `"@ + t + "`"@,
        }
    }
}

impl DecodeErrorView {
    /// The error, in words: the path, a colon and the reason, or the reason alone where
    /// the path is empty.
    pub open spec fn text(self) -> Seq<char> {
        if self.path.len() == 0 {
            self.kind.text()
        } else {
            path_text(self.path) + ": "@ + self.kind.text()
        }
    }
}

/// The path of a failure seen from a member begins with the member's key.
pub broadcast proof fn lemma_under_key_path(e: DecodeErrorView, key: Seq<char>)
    ensures
        (#[trigger] e.under_key(key)).path.len() == e.path.len() + 1,
        e.under_key(key).path[0] == PathSegmentView::Key(key),
{
}

/// A failure seen from a member begins its path with the member's key; the rest of the
/// path and the reason are those of the failure inside.
pub proof fn lemma_failure_names_key<T>(r: Result<T, DecodeErrorView>, key: Seq<char>)
    ensures
        at_key(r, key) is Err <==> r is Err,
        r matches Err(inner) ==> {
            let e = at_key(r, key)->Err_0;
            &&& e.path.len() == inner.path.len() + 1
            &&& e.path[0] == PathSegmentView::Key(key)
            &&& e.path.skip(1) == inner.path
            &&& e.kind == inner.kind
        },
{
    match r {
        Ok(_) => {},
        Err(inner) => {
            let e = at_key(r, key)->Err_0;
            assert(e.path.skip(1) =~= inner.path);
        },
    }
}

/// A failure seen from an item begins its path with the item's place; the rest of the
/// path and the reason are those of the failure inside.
pub proof fn lemma_failure_names_index<T>(r: Result<T, DecodeErrorView>, index: int)
    ensures
        at_index(r, index) is Err <==> r is Err,
        r matches Err(inner) ==> {
            let e = at_index(r, index)->Err_0;
            &&& e.path.len() == inner.path.len() + 1
            &&& e.path[0] == PathSegmentView::Index(index)
            &&& e.path.skip(1) == inner.path
            &&& e.kind == inner.kind
        },
{
    match r {
        Ok(_) => {},
        Err(inner) => {
            let e = at_index(r, index)->Err_0;
            assert(e.path.skip(1) =~= inner.path);
        },
    }
}

impl DecodeError {
/// The error for a value of a shape that is not accepted.
    pub fn shape() -> (e: DecodeError)
        ensures
            e.deep_view() == DecodeErrorView::shape(),
    {
        let e = DecodeError { path: Vec::new(), kind: DecodeErrorKind::UnexpectedShape };
        assert(e.deep_view().path =~= Seq::empty());
        e
    }

/// The error for a required member named `key` that is absent.
    pub fn missing(key: &str) -> (e: DecodeError)
        ensures
            e.deep_view() == DecodeErrorView::missing(key@),
    {
        let mut path: Vec<PathSegment> = Vec::new();
        path.push(PathSegment::Key(key.to_owned()));
        let e = DecodeError { path, kind: DecodeErrorKind::MissingField };
        assert(e.deep_view().path =~= DecodeErrorView::missing(key@).path);
        e
    }

/// The error for a token that spells no name.
    pub fn unknown(token: &str) -> (e: DecodeError)
        ensures
            e.deep_view() == DecodeErrorView::unknown(token@),
    {
        let e = DecodeError {
            path: Vec::new(),
            kind: DecodeErrorKind::UnknownToken(token.to_owned()),
        };
        assert(e.deep_view().path =~= Seq::empty());
        e
    }

    /// The error, in words.
    pub fn message(&self) -> (r: String)
        ensures
            r@ == self.deep_view().text(),
    {
        let mut out = String::new();
        let ghost view = path_view(self.path@);
        let mut i: usize = 0;
        assert(view.take(0) =~= Seq::empty());
        assert(out@ =~= path_text(view.take(0)));
        while i < self.path.len()
            invariant
                i <= self.path.len(),
                view == path_view(self.path@),
                out@ == path_text(view.take(i as int)),
            decreases self.path.len() - i,
        {
            let ghost before = out@;
            match &self.path[i] {
                PathSegment::Key(k) => {
                    if i > 0 {
                        out.append(".");
                    }
                    out.append(k.as_str());
                },
                PathSegment::Index(n) => {
                    out.append("[");
                    write_decimal_nat(&mut out, *n as u128);
                    out.append("]");
                },
            }
            proof {
                let next = view.take(i + 1);
                assert(next.drop_last() =~= view.take(i as int));
                assert(next.last() == self.path[i as int].deep_view());
                assert(out@ =~= before + next.last().text(i == 0));
            }
            i += 1;
        }
        assert(view.take(i as int) =~= view);
        if self.path.len() > 0 {
            out.append(": ");
        }
        match &self.kind {
            DecodeErrorKind::MissingField => out.append("missing field"),
            DecodeErrorKind::UnexpectedShape => out.append("unexpected shape"),
            DecodeErrorKind::UnknownToken(t) => {
                out.append("unknown token `");
                out.append(t.as_str());
                out.append("`");
            },
        }
        assert(out@ =~= self.deep_view().text());
        out
    }

    /// The same failure, seen from the object that holds the decoded value under `key`.
    pub fn under_key(self, key: &str) -> (e: DecodeError)
        ensures
            e.deep_view() == self.deep_view().under_key(key@),
    {
        let mut path = self.path;
        path.insert(0, PathSegment::Key(key.to_owned()));
        let e = DecodeError { path, kind: self.kind };
        assert(e.deep_view().path =~= self.deep_view().under_key(key@).path);
        e
    }

    /// The same failure, seen from the array that holds the decoded value at `index`.
    pub fn under_index(self, index: usize) -> (e: DecodeError)
        ensures
            e.deep_view() == self.deep_view().under_index(index as int),
    {
        let mut path = self.path;
        path.insert(0, PathSegment::Index(index));
        let e = DecodeError { path, kind: self.kind };
        assert(e.deep_view().path =~= self.deep_view().under_index(index as int).path);
        e
    }
}

/// A required field of a draft was not set when the draft was finished.
#[derive(Debug, Clone, Copy, PartialEq, Eq)]
pub struct UninitializedFieldError {
    field_name: &'static str,
}

impl DeepView for UninitializedFieldError {
    type V = Seq<char>;

    closed spec fn deep_view(&self) -> Seq<char> {
        self.field_name@
    }
}

impl UninitializedFieldError {
    /// The error for the field of this name.
    pub fn new(field_name: &'static str) -> (e: Self)
        ensures
            e.deep_view() == field_name@,
    {
        UninitializedFieldError { field_name }
    }

    /// The name of the field that was not set.
    pub fn field_name(&self) -> (name: &'static str)
        ensures
            name@ == self.deep_view(),
    {
        self.field_name
    }
}

/// An error of the library outside of decoding.
#[derive(Debug, Clone, Copy, PartialEq, Eq)]
pub enum NftablesError {
    /// A draft was finished with a required field unset.
    BuilderError(UninitializedFieldError),
}

/// The mathematical value of a [`NftablesError`].
pub ghost enum NftablesErrorView {
    BuilderError(Seq<char>),
}

impl DeepView for NftablesError {
    type V = NftablesErrorView;

    open spec fn deep_view(&self) -> NftablesErrorView {
        match self {
            NftablesError::BuilderError(e) => NftablesErrorView::BuilderError(e.deep_view()),
        }
    }
}

/// What finishing a draft is to return where the specification gives `expected`.
pub open spec fn built<T: DeepView>(
    r: Result<T, NftablesError>,
    expected: Result<T::V, NftablesErrorView>,
) -> bool {
    match r {
        Ok(v) => expected == Ok::<T::V, NftablesErrorView>(v.deep_view()),
        Err(e) => expected == Err::<T::V, NftablesErrorView>(e.deep_view()),
    }
}

} // verus!
