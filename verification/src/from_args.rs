//! The typed coercion layer: a uniform error taxonomy and the conversion
//! trait that turns an optional raw argument item into a strongly typed
//! value, carrying self-describing metadata for help rendering.

pub mod impls;

use vstd::prelude::*;
use crate::ArgsItem;
use crate::ItemModel;

verus! {

/// Model of a coercion or dispatch error.
pub enum ErrorModel {
    NotFound(Seq<char>),
    InvalidType { arg: Seq<char>, expected: Seq<char>, found: Seq<char> },
    NoCommand,
    UnknownCommand(Seq<char>),
}

/// A coercion or dispatch error.
#[derive(Debug, PartialEq)]
pub enum Error {
    /// A required argument was absent; carries the argument name.
    NotFound(String),
    /// A present value's shape did not match the target type; carries the
    /// argument name, the expected type description and the found shape.
    InvalidType { arg: String, expected: String, found: String },
    /// No command name was supplied.
    NoCommand,
    /// The first argument matched no command; carries that argument.
    UnknownCommand(String),
}

impl View for Error {
    type V = ErrorModel;

    open spec fn view(&self) -> ErrorModel {
        match self {
            Error::NotFound(name) => ErrorModel::NotFound(name@),
            Error::InvalidType { arg, expected, found } => ErrorModel::InvalidType {
                arg: arg@,
                expected: expected@,
                found: found@,
            },
            Error::NoCommand => ErrorModel::NoCommand,
            Error::UnknownCommand(name) => ErrorModel::UnknownCommand(name@),
        }
    }
}

impl DeepView for Error {
    type V = ErrorModel;

    open spec fn deep_view(&self) -> ErrorModel {
        self.view()
    }
}

/// The same error, now naming the argument it concerns.
pub open spec fn spec_with_name(e: ErrorModel, arg: Seq<char>) -> ErrorModel {
    match e {
        ErrorModel::NotFound(_) => ErrorModel::NotFound(arg),
        ErrorModel::InvalidType { arg: _, expected, found } => ErrorModel::InvalidType {
            arg,
            expected,
            found,
        },
        ErrorModel::NoCommand => ErrorModel::NoCommand,
        ErrorModel::UnknownCommand(name) => ErrorModel::UnknownCommand(name),
    }
}

/// The message text an error renders to.
pub open spec fn spec_message(e: ErrorModel) -> Seq<char> {
    match e {
        ErrorModel::NotFound(name) => "Required argument "@ + name + " not found"@,
        ErrorModel::InvalidType { arg, expected, found } => "Expected "@ + arg
            + " to be of type "@ + expected + ", but found "@ + found,
        ErrorModel::NoCommand => "Please enter a commond"@,
        ErrorModel::UnknownCommand(name) => "Unknown command "@ + name,
    }
}

impl Error {
    /// Replaces the argument name carried by the error.
    pub fn with_name(self, arg: &str) -> (r: Self)
        ensures
            r@ == spec_with_name(self@, arg@),
    {
        match self {
            Error::NotFound(_) => Error::NotFound(String::from_str(arg)),
            Error::InvalidType { arg: _, expected, found } => Error::InvalidType {
                arg: String::from_str(arg),
                expected,
                found,
            },
            Error::NoCommand => Error::NoCommand,
            Error::UnknownCommand(name) => Error::UnknownCommand(name),
        }
    }

    /// Renders the error as a message for the help output.
    pub fn message(&self) -> (r: String)
        ensures
            r@ == spec_message(self@),
    {
        match self {
            Error::NotFound(name) => String::from_str("Required argument ").concat(
                name.as_str(),
            ).concat(" not found"),
            Error::InvalidType { arg, expected, found } => String::from_str("Expected ").concat(
                arg.as_str(),
            ).concat(" to be of type ").concat(expected.as_str()).concat(", but found ").concat(
                found.as_str(),
            ),
            Error::NoCommand => String::from_str("Please enter a commond"),
            Error::UnknownCommand(name) => String::from_str("Unknown command ").concat(
                name.as_str(),
            ),
        }
    }
}

/// The item model seen through an optional borrowed item.
pub open spec fn opt_item_model(item: Option<&ArgsItem>) -> Option<ItemModel> {
    match item {
        Some(it) => Some(it@),
        None => None,
    }
}

/// The model of a coercion result.
pub open spec fn res_model<T: DeepView>(r: Result<T, Error>) -> Result<T::V, ErrorModel> {
    match r {
        Ok(v) => Ok(v.deep_view()),
        Err(e) => Err(e@),
    }
}

/// Conversion from an optional raw argument item to a typed value. Each
/// implementation also describes itself, so help rendering needs no
/// type-specific logic.
pub trait FromArgsItem: Sized + DeepView {
    /// What the conversion returns on each item model.
    spec fn spec_from(item: Option<ItemModel>) -> Result<Self::V, ErrorModel>;

    /// The type's name, as shown in help tables.
    fn type_label() -> (r: &'static str);

    /// A human description of the type's values.
    fn type_desc() -> (r: &'static str);

    /// The type's modifier tag: empty, or a word such as "flag" or "list".
    fn type_extra() -> (r: &'static str);

    /// Converts one optional raw item into `Self`.
    fn from_args_item(item: Option<&ArgsItem>) -> (r: Result<Self, Error>)
        ensures
            res_model(r) == Self::spec_from(opt_item_model(item)),
    ;
}

} // verus!
