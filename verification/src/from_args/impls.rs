//! The conversions for each supported target type: strings, numbers,
//! boolean flags, paths, optionals and comma- or repetition-built lists.

use vstd::prelude::*;
use vstd::string::*;
use crate::ArgsItem;
use crate::ItemModel;
use crate::from_args::Error;
use crate::from_args::ErrorModel;
use crate::from_args::FromArgsItem;
use crate::from_args::opt_item_model;
use crate::from_args::res_model;
use crate::numparse::NumParseError;
use crate::numparse::parse_signed;
use crate::numparse::parse_unsigned;
use crate::numparse::spec_parse_signed;
use crate::numparse::spec_parse_unsigned;
use crate::strutil::spec_split_commas;
use crate::strutil::split_commas;
use crate::strutil::str_eq;

verus! {

/// The message text for a failed number parse.
pub open spec fn num_err_text(e: NumParseError) -> Seq<char> {
    match e {
        NumParseError::Empty => "cannot parse integer from empty string"@,
        NumParseError::InvalidDigit => "invalid digit found in string"@,
        NumParseError::OutOfRange => "number too large to fit in target type"@,
    }
}

fn num_err_str(e: NumParseError) -> (r: &'static str)
    ensures
        r@ == num_err_text(e),
{
    match e {
        NumParseError::Empty => "cannot parse integer from empty string",
        NumParseError::InvalidDigit => "invalid digit found in string",
        NumParseError::OutOfRange => "number too large to fit in target type",
    }
}

/// Shared shape of the unsigned coercions: a token is parsed by the
/// decimal grammar, a flag count is accepted (reduced to the type's
/// range, as a narrowing cast would), other shapes are rejected.
pub open spec fn spec_unsigned_from(
    item: Option<ItemModel>,
    max: nat,
    type_desc: Seq<char>,
) -> Result<u128, ErrorModel> {
    match item {
        Some(ItemModel::Str(s)) => match spec_parse_unsigned(s, max) {
            Ok(v) => Ok(v),
            Err(e) => Err(ErrorModel::InvalidType {
                arg: Seq::empty(),
                expected: type_desc,
                found: "string: "@ + num_err_text(e),
            }),
        },
        Some(ItemModel::Present) => Err(ErrorModel::InvalidType {
            arg: Seq::empty(),
            expected: type_desc,
            found: "flag"@,
        }),
        Some(ItemModel::Many(_)) => Err(ErrorModel::InvalidType {
            arg: Seq::empty(),
            expected: type_desc,
            found: "list"@,
        }),
        Some(ItemModel::PresentTimes(n)) => Ok((n % (max + 1)) as u128),
        None => Err(ErrorModel::NotFound(Seq::empty())),
    }
}

/// Shared unsigned coercion against an inclusive bound.
fn unsigned_from_item(item: Option<&ArgsItem>, max: u128, type_desc: &str) -> (r: Result<
    u128,
    Error,
>)
    ensures
        res_model(r) == spec_unsigned_from(opt_item_model(item), max as nat, type_desc@),
        r matches Ok(v) ==> v <= max,
{
    match item {
        Some(ArgsItem::String(s)) => match parse_unsigned(s.as_str(), max) {
            Ok(v) => Ok(v),
            Err(e) => Err(Error::InvalidType {
                arg: String::new(),
                expected: String::from_str(type_desc),
                found: String::from_str("string: ").concat(num_err_str(e)),
            }),
        },
        Some(ArgsItem::Present) => Err(Error::InvalidType {
            arg: String::new(),
            expected: String::from_str(type_desc),
            found: String::from_str("flag"),
        }),
        Some(ArgsItem::Many(_)) => Err(Error::InvalidType {
            arg: String::new(),
            expected: String::from_str(type_desc),
            found: String::from_str("list"),
        }),
        Some(ArgsItem::PresentTimes(n)) => {
            let nv: u128 = *n as u128;
            if nv <= max {
                proof {
                    vstd::arithmetic::div_mod::lemma_small_mod(nv as nat, (max + 1) as nat);
                }
                Ok(nv)
            } else {
                Ok(nv % (max + 1))
            }
        },
        None => Err(Error::NotFound(String::new())),
    }
}

/// The value a flag count wraps to in a signed type's range, as a
/// narrowing cast would produce it.
pub open spec fn spec_wrap_signed(n: nat, min: int, max: int) -> i128 {
    let m = max - min + 1;
    let w = (n as int) % m;
    if w > max {
        (w - m) as i128
    } else {
        w as i128
    }
}

/// Shared shape of the signed coercions.
pub open spec fn spec_signed_from(
    item: Option<ItemModel>,
    min: int,
    max: int,
    type_desc: Seq<char>,
) -> Result<i128, ErrorModel> {
    match item {
        Some(ItemModel::Str(s)) => match spec_parse_signed(s, min, max) {
            Ok(v) => Ok(v),
            Err(e) => Err(ErrorModel::InvalidType {
                arg: Seq::empty(),
                expected: type_desc,
                found: "string: "@ + num_err_text(e),
            }),
        },
        Some(ItemModel::Present) => Err(ErrorModel::InvalidType {
            arg: Seq::empty(),
            expected: type_desc,
            found: "flag"@,
        }),
        Some(ItemModel::Many(_)) => Err(ErrorModel::InvalidType {
            arg: Seq::empty(),
            expected: type_desc,
            found: "list"@,
        }),
        Some(ItemModel::PresentTimes(n)) => Ok(spec_wrap_signed(n, min, max)),
        None => Err(ErrorModel::NotFound(Seq::empty())),
    }
}

/// Shared signed coercion against an inclusive range.
fn signed_from_item(item: Option<&ArgsItem>, min: i128, max: i128, type_desc: &str) -> (r: Result<
    i128,
    Error,
>)
    requires
        i128::MIN < min <= 0 <= max,
        max - min + 1 <= i128::MAX,
    ensures
        res_model(r) == spec_signed_from(opt_item_model(item), min as int, max as int, type_desc@),
        r matches Ok(v) ==> min <= v <= max,
{
    match item {
        Some(ArgsItem::String(s)) => match parse_signed(s.as_str(), min, max) {
            Ok(v) => Ok(v),
            Err(e) => Err(Error::InvalidType {
                arg: String::new(),
                expected: String::from_str(type_desc),
                found: String::from_str("string: ").concat(num_err_str(e)),
            }),
        },
        Some(ArgsItem::Present) => Err(Error::InvalidType {
            arg: String::new(),
            expected: String::from_str(type_desc),
            found: String::from_str("flag"),
        }),
        Some(ArgsItem::Many(_)) => Err(Error::InvalidType {
            arg: String::new(),
            expected: String::from_str(type_desc),
            found: String::from_str("list"),
        }),
        Some(ArgsItem::PresentTimes(n)) => {
            let m: u128 = ((max - min) as u128) + 1;
            let w: u128 = (*n as u128) % m;
            if w > (max as u128) {
                Ok((w as i128) - (m as i128))
            } else {
                Ok(w as i128)
            }
        },
        None => Err(Error::NotFound(String::new())),
    }
}

impl FromArgsItem for String {
    open spec fn spec_from(item: Option<ItemModel>) -> Result<Seq<char>, ErrorModel> {
        match item {
            Some(ItemModel::Str(s)) => Ok(s),
            Some(ItemModel::Present) => Err(ErrorModel::InvalidType {
                arg: "string"@,
                expected: "string"@,
                found: "flag"@,
            }),
            Some(ItemModel::Many(_)) => Err(ErrorModel::InvalidType {
                arg: "string"@,
                expected: "string"@,
                found: "list"@,
            }),
            Some(ItemModel::PresentTimes(_)) => Err(ErrorModel::InvalidType {
                arg: "string"@,
                expected: "string"@,
                found: "flag "@,
            }),
            None => Err(ErrorModel::NotFound("string"@)),
        }
    }

    fn type_label() -> (r: &'static str)
        ensures
            r@ == "String"@,
    {
        "String"
    }

    fn type_desc() -> (r: &'static str)
        ensures
            r@ == "<string>"@,
    {
        "<string>"
    }

    fn type_extra() -> (r: &'static str)
        ensures
            r@ == ""@,
    {
        ""
    }

    fn from_args_item(item: Option<&ArgsItem>) -> (r: Result<Self, Error>) {
        match item {
            Some(ArgsItem::String(s)) => Ok(s.clone()),
            Some(ArgsItem::Present) => Err(Error::InvalidType {
                arg: String::from_str("string"),
                expected: String::from_str("string"),
                found: String::from_str("flag"),
            }),
            Some(ArgsItem::Many(_)) => Err(Error::InvalidType {
                arg: String::from_str("string"),
                expected: String::from_str("string"),
                found: String::from_str("list"),
            }),
            Some(ArgsItem::PresentTimes(_)) => Err(Error::InvalidType {
                arg: String::from_str("string"),
                expected: String::from_str("string"),
                found: String::from_str("flag "),
            }),
            None => Err(Error::NotFound(String::from_str("string"))),
        }
    }
}

/// A filesystem path argument, carried as its textual form; what only the
/// operating system can decide about a path stays outside the library.
#[derive(Debug, PartialEq)]
pub struct ArgPath {
    /// The path's text.
    pub path: String,
}

impl View for ArgPath {
    type V = Seq<char>;

    open spec fn view(&self) -> Seq<char> {
        self.path@
    }
}

impl DeepView for ArgPath {
    type V = Seq<char>;

    open spec fn deep_view(&self) -> Seq<char> {
        self.path@
    }
}

impl FromArgsItem for ArgPath {
    open spec fn spec_from(item: Option<ItemModel>) -> Result<Seq<char>, ErrorModel> {
        match item {
            Some(ItemModel::Str(s)) => Ok(s),
            Some(ItemModel::Present) => Err(ErrorModel::InvalidType {
                arg: "string"@,
                expected: "path"@,
                found: "flag"@,
            }),
            Some(ItemModel::Many(_)) => Err(ErrorModel::InvalidType {
                arg: "string"@,
                expected: "path"@,
                found: "list"@,
            }),
            Some(ItemModel::PresentTimes(_)) => Err(ErrorModel::InvalidType {
                arg: "string"@,
                expected: "path"@,
                found: "flag "@,
            }),
            None => Err(ErrorModel::NotFound("string"@)),
        }
    }

    fn type_label() -> (r: &'static str)
        ensures
            r@ == "ArgPath"@,
    {
        "ArgPath"
    }

    fn type_desc() -> (r: &'static str)
        ensures
            r@ == "<path>"@,
    {
        "<path>"
    }

    fn type_extra() -> (r: &'static str)
        ensures
            r@ == ""@,
    {
        ""
    }

    fn from_args_item(item: Option<&ArgsItem>) -> (r: Result<Self, Error>) {
        match item {
            Some(ArgsItem::String(s)) => Ok(ArgPath { path: s.clone() }),
            Some(ArgsItem::Present) => Err(Error::InvalidType {
                arg: String::from_str("string"),
                expected: String::from_str("path"),
                found: String::from_str("flag"),
            }),
            Some(ArgsItem::Many(_)) => Err(Error::InvalidType {
                arg: String::from_str("string"),
                expected: String::from_str("path"),
                found: String::from_str("list"),
            }),
            Some(ArgsItem::PresentTimes(_)) => Err(Error::InvalidType {
                arg: String::from_str("string"),
                expected: String::from_str("path"),
                found: String::from_str("flag "),
            }),
            None => Err(Error::NotFound(String::from_str("string"))),
        }
    }
}

impl FromArgsItem for bool {
    open spec fn spec_from(item: Option<ItemModel>) -> Result<bool, ErrorModel> {
        match item {
            Some(ItemModel::Str(s)) => if s == "true"@ {
                Ok(true)
            } else if s == "false"@ {
                Ok(false)
            } else {
                Err(ErrorModel::InvalidType {
                    arg: "string"@,
                    expected: "bool"@,
                    found: "string: "@ + "provided string was not `true` or `false`"@,
                })
            },
            Some(ItemModel::Present) => Ok(true),
            Some(ItemModel::Many(_)) => Err(ErrorModel::InvalidType {
                arg: "string"@,
                expected: "true|false"@,
                found: "list"@,
            }),
            Some(ItemModel::PresentTimes(_)) => Err(ErrorModel::InvalidType {
                arg: "string"@,
                expected: "true|false"@,
                found: "flag "@,
            }),
            None => Ok(false),
        }
    }

    fn type_label() -> (r: &'static str)
        ensures
            r@ == "bool"@,
    {
        "bool"
    }

    fn type_desc() -> (r: &'static str)
        ensures
            r@ == "<true|false>"@,
    {
        "<true|false>"
    }

    fn type_extra() -> (r: &'static str)
        ensures
            r@ == "flag"@,
    {
        "flag"
    }

    fn from_args_item(item: Option<&ArgsItem>) -> (r: Result<Self, Error>) {
        match item {
            Some(ArgsItem::String(s)) => {
                if str_eq(s.as_str(), "true") {
                    Ok(true)
                } else if str_eq(s.as_str(), "false") {
                    Ok(false)
                } else {
                    Err(Error::InvalidType {
                        arg: String::from_str("string"),
                        expected: String::from_str("bool"),
                        found: String::from_str("string: ").concat(
                            "provided string was not `true` or `false`",
                        ),
                    })
                }
            },
            Some(ArgsItem::Present) => Ok(true),
            Some(ArgsItem::Many(_)) => Err(Error::InvalidType {
                arg: String::from_str("string"),
                expected: String::from_str("true|false"),
                found: String::from_str("list"),
            }),
            Some(ArgsItem::PresentTimes(_)) => Err(Error::InvalidType {
                arg: String::from_str("string"),
                expected: String::from_str("true|false"),
                found: String::from_str("flag "),
            }),
            None => Ok(false),
        }
    }
}


impl FromArgsItem for u8 {
    open spec fn spec_from(item: Option<ItemModel>) -> Result<u8, ErrorModel> {
        match spec_unsigned_from(item, u8::MAX as nat, "<positive number>"@) {
            Ok(v) => Ok(v as u8),
            Err(e) => Err(e),
        }
    }

    fn type_label() -> (r: &'static str)
        ensures
            r@ == "u8"@,
    {
        "u8"
    }

    fn type_desc() -> (r: &'static str)
        ensures
            r@ == "<positive number>"@,
    {
        "<positive number>"
    }

    fn type_extra() -> (r: &'static str)
        ensures
            r@ == ""@,
    {
        ""
    }

    fn from_args_item(item: Option<&ArgsItem>) -> (r: Result<Self, Error>) {
        match unsigned_from_item(item, u8::MAX as u128, "<positive number>") {
            Ok(v) => Ok(v as u8),
            Err(e) => Err(e),
        }
    }
}

impl FromArgsItem for u16 {
    open spec fn spec_from(item: Option<ItemModel>) -> Result<u16, ErrorModel> {
        match spec_unsigned_from(item, u16::MAX as nat, "<positive number>"@) {
            Ok(v) => Ok(v as u16),
            Err(e) => Err(e),
        }
    }

    fn type_label() -> (r: &'static str)
        ensures
            r@ == "u16"@,
    {
        "u16"
    }

    fn type_desc() -> (r: &'static str)
        ensures
            r@ == "<positive number>"@,
    {
        "<positive number>"
    }

    fn type_extra() -> (r: &'static str)
        ensures
            r@ == ""@,
    {
        ""
    }

    fn from_args_item(item: Option<&ArgsItem>) -> (r: Result<Self, Error>) {
        match unsigned_from_item(item, u16::MAX as u128, "<positive number>") {
            Ok(v) => Ok(v as u16),
            Err(e) => Err(e),
        }
    }
}

impl FromArgsItem for u32 {
    open spec fn spec_from(item: Option<ItemModel>) -> Result<u32, ErrorModel> {
        match spec_unsigned_from(item, u32::MAX as nat, "<positive number>"@) {
            Ok(v) => Ok(v as u32),
            Err(e) => Err(e),
        }
    }

    fn type_label() -> (r: &'static str)
        ensures
            r@ == "u32"@,
    {
        "u32"
    }

    fn type_desc() -> (r: &'static str)
        ensures
            r@ == "<positive number>"@,
    {
        "<positive number>"
    }

    fn type_extra() -> (r: &'static str)
        ensures
            r@ == ""@,
    {
        ""
    }

    fn from_args_item(item: Option<&ArgsItem>) -> (r: Result<Self, Error>) {
        match unsigned_from_item(item, u32::MAX as u128, "<positive number>") {
            Ok(v) => Ok(v as u32),
            Err(e) => Err(e),
        }
    }
}

impl FromArgsItem for u64 {
    open spec fn spec_from(item: Option<ItemModel>) -> Result<u64, ErrorModel> {
        match spec_unsigned_from(item, u64::MAX as nat, "<positive number>"@) {
            Ok(v) => Ok(v as u64),
            Err(e) => Err(e),
        }
    }

    fn type_label() -> (r: &'static str)
        ensures
            r@ == "u64"@,
    {
        "u64"
    }

    fn type_desc() -> (r: &'static str)
        ensures
            r@ == "<positive number>"@,
    {
        "<positive number>"
    }

    fn type_extra() -> (r: &'static str)
        ensures
            r@ == ""@,
    {
        ""
    }

    fn from_args_item(item: Option<&ArgsItem>) -> (r: Result<Self, Error>) {
        match unsigned_from_item(item, u64::MAX as u128, "<positive number>") {
            Ok(v) => Ok(v as u64),
            Err(e) => Err(e),
        }
    }
}

impl FromArgsItem for u128 {
    open spec fn spec_from(item: Option<ItemModel>) -> Result<u128, ErrorModel> {
        match spec_unsigned_from(item, u128::MAX as nat, "<positive number>"@) {
            Ok(v) => Ok(v as u128),
            Err(e) => Err(e),
        }
    }

    fn type_label() -> (r: &'static str)
        ensures
            r@ == "u128"@,
    {
        "u128"
    }

    fn type_desc() -> (r: &'static str)
        ensures
            r@ == "<positive number>"@,
    {
        "<positive number>"
    }

    fn type_extra() -> (r: &'static str)
        ensures
            r@ == ""@,
    {
        ""
    }

    fn from_args_item(item: Option<&ArgsItem>) -> (r: Result<Self, Error>) {
        match unsigned_from_item(item, u128::MAX as u128, "<positive number>") {
            Ok(v) => Ok(v),
            Err(e) => Err(e),
        }
    }
}

impl FromArgsItem for usize {
    open spec fn spec_from(item: Option<ItemModel>) -> Result<usize, ErrorModel> {
        match spec_unsigned_from(item, usize::MAX as nat, "<positive number>"@) {
            Ok(v) => Ok(v as usize),
            Err(e) => Err(e),
        }
    }

    fn type_label() -> (r: &'static str)
        ensures
            r@ == "usize"@,
    {
        "usize"
    }

    fn type_desc() -> (r: &'static str)
        ensures
            r@ == "<positive number>"@,
    {
        "<positive number>"
    }

    fn type_extra() -> (r: &'static str)
        ensures
            r@ == ""@,
    {
        ""
    }

    fn from_args_item(item: Option<&ArgsItem>) -> (r: Result<Self, Error>) {
        match unsigned_from_item(item, usize::MAX as u128, "<positive number>") {
            Ok(v) => Ok(v as usize),
            Err(e) => Err(e),
        }
    }
}

impl FromArgsItem for i8 {
    open spec fn spec_from(item: Option<ItemModel>) -> Result<i8, ErrorModel> {
        match spec_signed_from(item, i8::MIN as int, i8::MAX as int, "<number>"@) {
            Ok(v) => Ok(v as i8),
            Err(e) => Err(e),
        }
    }

    fn type_label() -> (r: &'static str)
        ensures
            r@ == "i8"@,
    {
        "i8"
    }

    fn type_desc() -> (r: &'static str)
        ensures
            r@ == "<number>"@,
    {
        "<number>"
    }

    fn type_extra() -> (r: &'static str)
        ensures
            r@ == ""@,
    {
        ""
    }

    fn from_args_item(item: Option<&ArgsItem>) -> (r: Result<Self, Error>) {
        match signed_from_item(item, i8::MIN as i128, i8::MAX as i128, "<number>") {
            Ok(v) => Ok(v as i8),
            Err(e) => Err(e),
        }
    }
}

impl FromArgsItem for i16 {
    open spec fn spec_from(item: Option<ItemModel>) -> Result<i16, ErrorModel> {
        match spec_signed_from(item, i16::MIN as int, i16::MAX as int, "<number>"@) {
            Ok(v) => Ok(v as i16),
            Err(e) => Err(e),
        }
    }

    fn type_label() -> (r: &'static str)
        ensures
            r@ == "i16"@,
    {
        "i16"
    }

    fn type_desc() -> (r: &'static str)
        ensures
            r@ == "<number>"@,
    {
        "<number>"
    }

    fn type_extra() -> (r: &'static str)
        ensures
            r@ == ""@,
    {
        ""
    }

    fn from_args_item(item: Option<&ArgsItem>) -> (r: Result<Self, Error>) {
        match signed_from_item(item, i16::MIN as i128, i16::MAX as i128, "<number>") {
            Ok(v) => Ok(v as i16),
            Err(e) => Err(e),
        }
    }
}

impl FromArgsItem for i32 {
    open spec fn spec_from(item: Option<ItemModel>) -> Result<i32, ErrorModel> {
        match spec_signed_from(item, i32::MIN as int, i32::MAX as int, "<number>"@) {
            Ok(v) => Ok(v as i32),
            Err(e) => Err(e),
        }
    }

    fn type_label() -> (r: &'static str)
        ensures
            r@ == "i32"@,
    {
        "i32"
    }

    fn type_desc() -> (r: &'static str)
        ensures
            r@ == "<number>"@,
    {
        "<number>"
    }

    fn type_extra() -> (r: &'static str)
        ensures
            r@ == ""@,
    {
        ""
    }

    fn from_args_item(item: Option<&ArgsItem>) -> (r: Result<Self, Error>) {
        match signed_from_item(item, i32::MIN as i128, i32::MAX as i128, "<number>") {
            Ok(v) => Ok(v as i32),
            Err(e) => Err(e),
        }
    }
}

impl FromArgsItem for i64 {
    open spec fn spec_from(item: Option<ItemModel>) -> Result<i64, ErrorModel> {
        match spec_signed_from(item, i64::MIN as int, i64::MAX as int, "<number>"@) {
            Ok(v) => Ok(v as i64),
            Err(e) => Err(e),
        }
    }

    fn type_label() -> (r: &'static str)
        ensures
            r@ == "i64"@,
    {
        "i64"
    }

    fn type_desc() -> (r: &'static str)
        ensures
            r@ == "<number>"@,
    {
        "<number>"
    }

    fn type_extra() -> (r: &'static str)
        ensures
            r@ == ""@,
    {
        ""
    }

    fn from_args_item(item: Option<&ArgsItem>) -> (r: Result<Self, Error>) {
        match signed_from_item(item, i64::MIN as i128, i64::MAX as i128, "<number>") {
            Ok(v) => Ok(v as i64),
            Err(e) => Err(e),
        }
    }
}

impl FromArgsItem for isize {
    open spec fn spec_from(item: Option<ItemModel>) -> Result<isize, ErrorModel> {
        match spec_signed_from(item, isize::MIN as int, isize::MAX as int, "<number>"@) {
            Ok(v) => Ok(v as isize),
            Err(e) => Err(e),
        }
    }

    fn type_label() -> (r: &'static str)
        ensures
            r@ == "isize"@,
    {
        "isize"
    }

    fn type_desc() -> (r: &'static str)
        ensures
            r@ == "<number>"@,
    {
        "<number>"
    }

    fn type_extra() -> (r: &'static str)
        ensures
            r@ == ""@,
    {
        ""
    }

    fn from_args_item(item: Option<&ArgsItem>) -> (r: Result<Self, Error>) {
        match signed_from_item(item, isize::MIN as i128, isize::MAX as i128, "<number>") {
            Ok(v) => Ok(v as isize),
            Err(e) => Err(e),
        }
    }
}


impl<T: FromArgsItem> FromArgsItem for Option<T> {
    open spec fn spec_from(item: Option<ItemModel>) -> Result<Option<T::V>, ErrorModel> {
        match item {
            None => Ok(None),
            Some(m) => match T::spec_from(Some(m)) {
                Ok(v) => Ok(Some(v)),
                Err(e) => Err(e),
            },
        }
    }

    fn type_label() -> (r: &'static str) {
        T::type_label()
    }

    fn type_desc() -> (r: &'static str) {
        T::type_desc()
    }

    fn type_extra() -> (r: &'static str)
        ensures
            r@ == "optional"@,
    {
        "optional"
    }

    fn from_args_item(item: Option<&ArgsItem>) -> (r: Result<Self, Error>) {
        match item {
            None => Ok(None),
            Some(it) => match T::from_args_item(Some(it)) {
                Ok(v) => Ok(Some(v)),
                Err(e) => Err(e),
            },
        }
    }
}

/// Coerces each segment through `T`'s conversion, keeping the first
/// failure.
pub open spec fn spec_coerce_each<T: FromArgsItem>(segs: Seq<Seq<char>>) -> Result<
    Seq<T::V>,
    ErrorModel,
>
    decreases segs.len(),
{
    if segs.len() == 0 {
        Ok(Seq::empty())
    } else {
        match T::spec_from(Some(ItemModel::Str(segs[0]))) {
            Err(e) => Err(e),
            Ok(v) => match spec_coerce_each::<T>(segs.skip(1)) {
                Ok(vs) => Ok(seq![v] + vs),
                Err(e) => Err(e),
            },
        }
    }
}

/// Converts every segment through `T`'s conversion, stopping at the
/// first failure.
fn coerce_each<T: FromArgsItem>(segs: &Vec<String>) -> (r: Result<Vec<T>, Error>)
    ensures
        res_model(r) == spec_coerce_each::<T>(segs.deep_view()),
{
    let ghost full = segs.deep_view();
    let mut out: Vec<T> = Vec::new();
    let n = segs.len();
    let mut j: usize = 0;
    proof {
        assert(full.skip(0) =~= full);
        assert(out.deep_view() =~= Seq::<T::V>::empty());
        match spec_coerce_each::<T>(full) {
            Ok(vs) => {
                assert(out.deep_view() + vs =~= vs);
            },
            Err(_) => {},
        }
    }
    while j < n
        invariant
            0 <= j <= n,
            n == segs@.len(),
            full == segs.deep_view(),
            full.len() == n,
            (match spec_coerce_each::<T>(full.skip(j as int)) {
                Ok(vs) => spec_coerce_each::<T>(full) == Ok::<Seq<T::V>, ErrorModel>(
                    out.deep_view() + vs,
                ),
                Err(e) => spec_coerce_each::<T>(full) == Err::<Seq<T::V>, ErrorModel>(e),
            }),
        decreases n - j,
    {
        let tmp = ArgsItem::String(segs[j].clone());
        proof {
            assert(full[j as int] == segs@[j as int]@);
            assert(full.skip(j as int)[0] == full[j as int]);
            assert(full.skip(j as int).skip(1) =~= full.skip(j as int + 1));
        }
        match T::from_args_item(Some(&tmp)) {
            Ok(v) => {
                let ghost pre = out.deep_view();
                out.push(v);
                proof {
                    assert(out.deep_view() =~= pre.push(v.deep_view()));
                    match spec_coerce_each::<T>(full.skip(j as int + 1)) {
                        Ok(vs) => {
                            assert(pre.push(v.deep_view()) + vs =~= pre + (seq![v.deep_view()]
                                + vs));
                        },
                        Err(_) => {},
                    }
                }
            },
            Err(e) => {
                return Err(e);
            },
        }
        j = j + 1;
    }
    proof {
        assert(full.skip(n as int) =~= Seq::<Seq<char>>::empty());
        assert(spec_coerce_each::<T>(full.skip(n as int)) == Ok::<Seq<T::V>, ErrorModel>(
            Seq::empty(),
        ));
        match spec_coerce_each::<T>(full.skip(n as int)) {
            Ok(vs) => {
                assert(out.deep_view() + vs =~= out.deep_view());
            },
            Err(_) => {},
        }
    }
    Ok(out)
}

impl<T: FromArgsItem> FromArgsItem for Vec<T> {
    open spec fn spec_from(item: Option<ItemModel>) -> Result<Seq<T::V>, ErrorModel> {
        match item {
            Some(ItemModel::Str(s)) => spec_coerce_each::<T>(spec_split_commas(s)),
            Some(ItemModel::Present) => Err(ErrorModel::InvalidType {
                arg: "string"@,
                expected: "list"@,
                found: "flag"@,
            }),
            Some(ItemModel::Many(list)) => spec_coerce_each::<T>(list),
            Some(ItemModel::PresentTimes(_)) => Err(ErrorModel::InvalidType {
                arg: "string"@,
                expected: "list"@,
                found: "flag "@,
            }),
            None => Err(ErrorModel::NotFound("string"@)),
        }
    }

    fn type_label() -> (r: &'static str) {
        T::type_label()
    }

    fn type_desc() -> (r: &'static str) {
        T::type_desc()
    }

    fn type_extra() -> (r: &'static str)
        ensures
            r@ == "list"@,
    {
        "list"
    }

    fn from_args_item(item: Option<&ArgsItem>) -> (r: Result<Self, Error>) {
        match item {
            Some(ArgsItem::String(s)) => {
                let segs = split_commas(s.as_str());
                coerce_each::<T>(&segs)
            },
            Some(ArgsItem::Present) => Err(Error::InvalidType {
                arg: String::from_str("string"),
                expected: String::from_str("list"),
                found: String::from_str("flag"),
            }),
            Some(ArgsItem::Many(list)) => coerce_each::<T>(list),
            Some(ArgsItem::PresentTimes(_)) => Err(Error::InvalidType {
                arg: String::from_str("string"),
                expected: String::from_str("list"),
                found: String::from_str("flag "),
            }),
            None => Err(Error::NotFound(String::from_str("string"))),
        }
    }
}


/// For every supported numeric type, a flag count coerces to exactly
/// the count whenever it fits the type's range, and a bare flag is
/// always a type error. The unsigned conversions are all instances of
/// `spec_unsigned_from` at their own bound.
pub proof fn lemma_unsigned_count_coercion(n: nat, max: nat, type_desc: Seq<char>)
    requires
        n <= max,
    ensures
        spec_unsigned_from(Some(ItemModel::PresentTimes(n)), max, type_desc) == Ok::<
            u128,
            ErrorModel,
        >(n as u128),
        spec_unsigned_from(Some(ItemModel::Present), max, type_desc) is Err,
{
    vstd::arithmetic::div_mod::lemma_small_mod(n, max + 1);
}

/// The signed counterpart: a flag count within the range coerces to
/// exactly the count, and a bare flag is always a type error. The
/// signed conversions are all instances of `spec_signed_from` at their
/// own bounds.
pub proof fn lemma_signed_count_coercion(n: nat, min: int, max: int, type_desc: Seq<char>)
    requires
        min <= 0 <= max,
        n <= max,
    ensures
        spec_signed_from(Some(ItemModel::PresentTimes(n)), min, max, type_desc) == Ok::<
            i128,
            ErrorModel,
        >(n as i128),
        spec_signed_from(Some(ItemModel::Present), min, max, type_desc) is Err,
{
    let m = max - min + 1;
    vstd::arithmetic::div_mod::lemma_small_mod(n, m as nat);
    assert((n as int) % m == n);
}

/// Boolean coercion never fails on absence, which defaults to `false`,
/// nor on a bare flag, which is `true`; it always fails on a value list
/// and on a repeated flag.
pub proof fn lemma_bool_coercion(list: Seq<Seq<char>>, n: nat)
    ensures
        <bool as FromArgsItem>::spec_from(None) == Ok::<bool, ErrorModel>(false),
        <bool as FromArgsItem>::spec_from(Some(ItemModel::Present)) == Ok::<bool, ErrorModel>(
            true,
        ),
        <bool as FromArgsItem>::spec_from(Some(ItemModel::Many(list))) is Err,
        <bool as FromArgsItem>::spec_from(Some(ItemModel::PresentTimes(n))) is Err,
{
}

/// A list coercion of a single string splits it at the commas into
/// contiguous segments — joining the segments with commas restores the
/// string, no segment holds a comma, and a string that contains a comma
/// gives at least two segments — and coerces each segment independently.
/// A list coercion of absence always fails with the not-found error.
pub proof fn lemma_list_coercion<T: FromArgsItem>(s: Seq<char>)
    ensures
        <Vec<T> as FromArgsItem>::spec_from(Some(ItemModel::Str(s))) == spec_coerce_each::<T>(
            spec_split_commas(s),
        ),
        crate::strutil::spec_join_commas(spec_split_commas(s)) == s,
        forall|i: int|
            0 <= i < spec_split_commas(s).len() ==> !(#[trigger] spec_split_commas(
                s,
            )[i]).contains(','),
        s.contains(',') ==> spec_split_commas(s).len() >= 2,
        <Vec<T> as FromArgsItem>::spec_from(None) == Err::<Seq<T::V>, ErrorModel>(
            ErrorModel::NotFound("string"@),
        ),
{
    crate::strutil::lemma_split_join_commas(s);
    crate::strutil::lemma_split_commas_no_comma(s);
    if s.contains(',') {
        crate::strutil::lemma_split_commas_at_least_two(s);
    }
}

} // verus!
