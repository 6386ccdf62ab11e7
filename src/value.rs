use vstd::prelude::*;
use crate::text::{decimal_text, int_text, scaled_decimal_text, scaled_text};

verus! {

/// One typed scalar of a result column, tagged by the column's declared type.
///
/// Floating-point values are carried as the text that Rust's `Display` gives them:
/// the library itself holds no floating-point numbers.
#[derive(Debug)]
pub enum Value {
    Null,
    Utf8(String),
    LargeUtf8(String),
    Int8(i8),
    Int16(i16),
    Int32(i32),
    Int64(i64),
    UInt8(u8),
    UInt16(u16),
    UInt32(u32),
    UInt64(u64),
    Float32(String),
    Float64(String),
    Boolean(bool),
    /// The fixed-point decimal `unscaled * 10^(-scale)`; it renders in its canonical
    /// decimal form, which the precision does not change.
    Decimal128 { unscaled: i128, precision: u8, scale: i8 },
    /// A value of a type that has no rendering of its own; holds the type's debug name.
    Other(String),
}

/// The display text of a value.
pub open spec fn value_text(v: Value) -> Seq<char> {
    match v {
        Value::Null => seq!['N', 'U', 'L', 'L'],
        Value::Utf8(s) => s@,
        Value::LargeUtf8(s) => s@,
        Value::Int8(i) => int_text(i as int),
        Value::Int16(i) => int_text(i as int),
        Value::Int32(i) => int_text(i as int),
        Value::Int64(i) => int_text(i as int),
        Value::UInt8(i) => int_text(i as int),
        Value::UInt16(i) => int_text(i as int),
        Value::UInt32(i) => int_text(i as int),
        Value::UInt64(i) => int_text(i as int),
        Value::Float32(s) => s@,
        Value::Float64(s) => s@,
        Value::Boolean(b) => if b {
            seq!['t', 'r', 'u', 'e']
        } else {
            seq!['f', 'a', 'l', 's', 'e']
        },
        Value::Decimal128 { unscaled, scale, .. } => scaled_text(unscaled as int, scale as int),
        Value::Other(name) => seq!['<'] + name@ + seq!['>'],
    }
}

/// Renders one value for display. Nulls render as `NULL` whatever the column's type;
/// a type without a rendering of its own gives its name in angle brackets.
pub fn format_value(v: &Value) -> (r: String)
    ensures
        r@ == value_text(*v),
        *v is Null ==> r@ == seq!['N', 'U', 'L', 'L'],
{
    match v {
        Value::Null => {
            proof {
                reveal_strlit("NULL");
            }
            let r = String::from_str("NULL");
            assert(r@ =~= seq!['N', 'U', 'L', 'L']);
            r
        },
        Value::Utf8(s) => s.clone(),
        Value::LargeUtf8(s) => s.clone(),
        Value::Int8(i) => decimal_text(*i as i128),
        Value::Int16(i) => decimal_text(*i as i128),
        Value::Int32(i) => decimal_text(*i as i128),
        Value::Int64(i) => decimal_text(*i as i128),
        Value::UInt8(i) => decimal_text(*i as i128),
        Value::UInt16(i) => decimal_text(*i as i128),
        Value::UInt32(i) => decimal_text(*i as i128),
        Value::UInt64(i) => decimal_text(*i as i128),
        Value::Float32(s) => s.clone(),
        Value::Float64(s) => s.clone(),
        Value::Boolean(b) => {
            proof {
                reveal_strlit("true");
                reveal_strlit("false");
            }
            let r = if *b {
                String::from_str("true")
            } else {
                String::from_str("false")
            };
            assert(r@ =~= value_text(*v));
            r
        },
        Value::Decimal128 { unscaled, scale, .. } => scaled_decimal_text(*unscaled, *scale),
        Value::Other(name) => {
            proof {
                reveal_strlit("<");
                reveal_strlit(">");
            }
            let mut r = String::from_str("<");
            r.append(name.as_str());
            r.append(">");
            assert(r@ =~= value_text(*v));
            r
        },
    }
}

} // verus!
