//! Conversion of native scalar values into typed wire values.

use crate::decimal::{decimal_text, signed_text, unsigned_text};
use vstd::prelude::*;

verus! {

/// The mathematical content of a typed wire value: a type tag and the
/// canonical text of the value.
pub struct TypedValue {
    pub kind: Seq<char>,
    pub value: Seq<char>,
}

/// A scalar parameter as it travels on the wire.
#[derive(Debug)]
pub struct SnowflakeType {
    pub kind: String,
    pub value: String,
}

impl View for SnowflakeType {
    type V = TypedValue;

    open spec fn view(&self) -> TypedValue {
        TypedValue { kind: self.kind@, value: self.value@ }
    }
}

impl Clone for SnowflakeType {
    fn clone(&self) -> (r: Self)
        ensures
            r@ == self@,
    {
        SnowflakeType { kind: self.kind.clone(), value: self.value.clone() }
    }
}

/// The typed value of an integer: tag `NUMBER`, and the integer in decimal.
pub open spec fn number_value(n: int) -> TypedValue {
    TypedValue { kind: "NUMBER"@, value: decimal_text(n) }
}

/// The typed value of a text: tag `TEXT`, and the text itself, unchanged.
pub open spec fn text_value(s: Seq<char>) -> TypedValue {
    TypedValue { kind: "TEXT"@, value: s }
}

/// The typed value of a floating-point number whose rendering is `s`: tag
/// `FLOAT`, and the rendering.
pub open spec fn float_value(s: Seq<char>) -> TypedValue {
    TypedValue { kind: "FLOAT"@, value: s }
}

/// A value that can be bound as a statement parameter.
///
/// Converting is a function of the value alone, and `snowflake_value` names
/// what `to_snowflake` returns. Every implementation in this crate says what
/// that is. The trait is open: any type may implement it. An implementation
/// that is not verified can leave `snowflake_value` as it stands here, and
/// nothing is then known of what it converts to.
pub trait ToSnowflakeType {
    /// The typed value that this value converts to.
    open spec fn snowflake_value(&self) -> TypedValue {
        arbitrary()
    }

    /// Converts the value. This cannot fail.
    fn to_snowflake(&self) -> (r: SnowflakeType)
        ensures
            r@ == self.snowflake_value(),
    ;
}

impl SnowflakeType {
    /// The typed value of a floating-point number, given its rendering. The
    /// rendering is taken as it is.
    pub fn float(rendering: String) -> (r: SnowflakeType)
        ensures
            r@ == float_value(rendering@),
    {
        SnowflakeType { kind: String::from_str("FLOAT"), value: rendering }
    }
}

fn number(value: String) -> (r: SnowflakeType)
    ensures
        r@ == (TypedValue { kind: "NUMBER"@, value: value@ }),
{
    SnowflakeType { kind: String::from_str("NUMBER"), value }
}

fn text(value: String) -> (r: SnowflakeType)
    ensures
        r@ == text_value(value@),
{
    SnowflakeType { kind: String::from_str("TEXT"), value }
}

impl ToSnowflakeType for i16 {
    open spec fn snowflake_value(&self) -> TypedValue {
        number_value(*self as int)
    }

    fn to_snowflake(&self) -> (r: SnowflakeType) {
        number(signed_text(*self as i64))
    }
}

impl ToSnowflakeType for i32 {
    open spec fn snowflake_value(&self) -> TypedValue {
        number_value(*self as int)
    }

    fn to_snowflake(&self) -> (r: SnowflakeType) {
        number(signed_text(*self as i64))
    }
}

impl ToSnowflakeType for i64 {
    open spec fn snowflake_value(&self) -> TypedValue {
        number_value(*self as int)
    }

    fn to_snowflake(&self) -> (r: SnowflakeType) {
        number(signed_text(*self))
    }
}

impl ToSnowflakeType for u16 {
    open spec fn snowflake_value(&self) -> TypedValue {
        number_value(*self as int)
    }

    fn to_snowflake(&self) -> (r: SnowflakeType) {
        number(unsigned_text(*self as u64))
    }
}

impl ToSnowflakeType for u32 {
    open spec fn snowflake_value(&self) -> TypedValue {
        number_value(*self as int)
    }

    fn to_snowflake(&self) -> (r: SnowflakeType) {
        number(unsigned_text(*self as u64))
    }
}

impl ToSnowflakeType for u64 {
    open spec fn snowflake_value(&self) -> TypedValue {
        number_value(*self as int)
    }

    fn to_snowflake(&self) -> (r: SnowflakeType) {
        number(unsigned_text(*self))
    }
}

impl ToSnowflakeType for String {
    open spec fn snowflake_value(&self) -> TypedValue {
        text_value(self@)
    }

    fn to_snowflake(&self) -> (r: SnowflakeType) {
        text(self.clone())
    }
}

impl<'a> ToSnowflakeType for &'a str {
    open spec fn snowflake_value(&self) -> TypedValue {
        text_value(self@)
    }

    fn to_snowflake(&self) -> (r: SnowflakeType) {
        text(String::from_str(*self))
    }
}

impl<T: ToSnowflakeType> From<T> for SnowflakeType {
    /// Converts as `to_snowflake` does.
    fn from(value: T) -> (r: SnowflakeType)
        ensures
            r@ == value.snowflake_value(),
    {
        value.to_snowflake()
    }
}

impl<T: ToSnowflakeType> vstd::std_specs::convert::FromSpecImpl<T> for SnowflakeType {
    /// Two strings with the same characters need not be the same value to
    /// the verifier, so `from` is specified through the view of its result
    /// and not through `from_spec`.
    open spec fn obeys_from_spec() -> bool {
        false
    }

    open spec fn from_spec(value: T) -> SnowflakeType {
        arbitrary()
    }
}

} // verus!
