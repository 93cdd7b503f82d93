//! The errors that the mapper reports.

use vstd::prelude::*;

verus! {

/// The kind of a field type, without what it is made of.
#[derive(Debug, Clone, Copy, PartialEq, Eq, Structural)]
pub enum TypeTag {
    Nested,
    Dict,
    List,
    Tuple,
    Str,
    Int,
    Float,
    Bool,
    Datetime,
    Date,
    Null,
}

/// Why a text or a stored value is not of the type that was declared for it.
#[derive(Debug, Clone, PartialEq, Eq)]
pub struct Mismatch {
    /// The text that was read, where the value has one.
    pub value: Option<String>,
    /// The kind of the type that was declared.
    pub expected: TypeTag,
}

/// The mathematical content of a `Mismatch`.
pub ghost struct MismatchView {
    pub value: Option<Seq<char>>,
    pub expected: TypeTag,
}

impl View for Mismatch {
    type V = MismatchView;

    open spec fn view(&self) -> MismatchView {
        MismatchView {
            value: match self.value {
                Some(text) => Some(text@),
                None => None,
            },
            expected: self.expected,
        }
    }
}

/// An operation's failure. Each is local to the operation that reports it.
#[derive(Debug, Clone, PartialEq, Eq)]
pub enum Error {
    /// Schema error: a field refers to a collection that is not registered
    /// yet. Collections are registered leaves first.
    MissingCollection { name: String },
    /// Schema error: the store has handed out a collection, and takes no
    /// registration any more.
    AlreadyInUse,
    /// Schema error: the collection asked for was never registered.
    NotRegistered { name: String },
    /// Schema error: a collection of that name is registered already.
    AlreadyRegistered { name: String },
    /// Schema error: the description of the collection declares no fields.
    InvalidSchema,
    /// Key error: the record lacks its primary-key field.
    MissingKey { field: String },
    /// Key error: a field that the schema does not declare.
    UnknownField { field: String },
    /// A value is not of the type that the schema declares for its field.
    TypeMismatch { field: String, value: Option<String>, expected: TypeTag },
    /// The store's answer does not have the shape that the script promises.
    MalformedResponse,
}

/// The mathematical content of an `Error`.
pub ghost enum ErrorView {
    MissingCollection { name: Seq<char> },
    AlreadyInUse,
    NotRegistered { name: Seq<char> },
    AlreadyRegistered { name: Seq<char> },
    InvalidSchema,
    MissingKey { field: Seq<char> },
    UnknownField { field: Seq<char> },
    TypeMismatch { field: Seq<char>, value: Option<Seq<char>>, expected: TypeTag },
    MalformedResponse,
}

impl View for Error {
    type V = ErrorView;

    open spec fn view(&self) -> ErrorView {
        match self {
            Error::MissingCollection { name } => ErrorView::MissingCollection { name: name@ },
            Error::AlreadyInUse => ErrorView::AlreadyInUse,
            Error::NotRegistered { name } => ErrorView::NotRegistered { name: name@ },
            Error::AlreadyRegistered { name } => ErrorView::AlreadyRegistered { name: name@ },
            Error::InvalidSchema => ErrorView::InvalidSchema,
            Error::MissingKey { field } => ErrorView::MissingKey { field: field@ },
            Error::UnknownField { field } => ErrorView::UnknownField { field: field@ },
            Error::TypeMismatch { field, value, expected } => ErrorView::TypeMismatch {
                field: field@,
                value: match value {
                    Some(text) => Some(text@),
                    None => None,
                },
                expected: *expected,
            },
            Error::MalformedResponse => ErrorView::MalformedResponse,
        }
    }
}

/// The type mismatch `m`, as the error of the field `field`.
pub open spec fn mismatch_in(field: Seq<char>, m: MismatchView) -> ErrorView {
    ErrorView::TypeMismatch { field, value: m.value, expected: m.expected }
}

impl Mismatch {
    /// This mismatch, as the error of the field `field`.
    pub fn in_field(self, field: &str) -> (error: Error)
        ensures
            error@ == mismatch_in(field@, self@),
    {
        Error::TypeMismatch {
            field: field.to_owned(),
            value: self.value,
            expected: self.expected,
        }
    }
}

} // verus!
