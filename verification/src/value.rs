//! Typed scalar values with total, bit-exact equality.

use vstd::prelude::*;

use crate::data_type::DataType;

verus! {

/// A typed scalar carried by trace events.
///
/// Floating-point payloads are held as their raw bit patterns (`u32` for a
/// 32-bit float, `u64` for a 64-bit float), so equality on every variant is
/// total and two float values are equal exactly when their bit patterns are.
#[derive(Debug)]
pub enum Value {
    Int8(i8),
    Int16(i16),
    Int32(i32),
    Int64(i64),
    UInt8(u8),
    UInt16(u16),
    UInt32(u32),
    UInt64(u64),
    /// The raw bit pattern of a 32-bit float.
    Float32(u32),
    /// The raw bit pattern of a 64-bit float.
    Float64(u64),
    TimestampNs(i64),
    Binary(Vec<u8>),
    String(String),
    Boolean(bool),
}

/// The mathematical shape of a [`Value`]: the same variants over sequences
/// instead of vectors and strings.
pub enum ValueView {
    Int8(i8),
    Int16(i16),
    Int32(i32),
    Int64(i64),
    UInt8(u8),
    UInt16(u16),
    UInt32(u32),
    UInt64(u64),
    Float32(u32),
    Float64(u64),
    TimestampNs(i64),
    Binary(Seq<u8>),
    String(Seq<char>),
    Boolean(bool),
}

impl View for Value {
    type V = ValueView;

    open spec fn view(&self) -> ValueView {
        match self {
            Value::Int8(v) => ValueView::Int8(*v),
            Value::Int16(v) => ValueView::Int16(*v),
            Value::Int32(v) => ValueView::Int32(*v),
            Value::Int64(v) => ValueView::Int64(*v),
            Value::UInt8(v) => ValueView::UInt8(*v),
            Value::UInt16(v) => ValueView::UInt16(*v),
            Value::UInt32(v) => ValueView::UInt32(*v),
            Value::UInt64(v) => ValueView::UInt64(*v),
            Value::Float32(v) => ValueView::Float32(*v),
            Value::Float64(v) => ValueView::Float64(*v),
            Value::TimestampNs(v) => ValueView::TimestampNs(*v),
            Value::Binary(v) => ValueView::Binary(v@),
            Value::String(v) => ValueView::String(v@),
            Value::Boolean(v) => ValueView::Boolean(*v),
        }
    }
}

impl Clone for Value {
    /// A clone preserves the mathematical value.
    fn clone(&self) -> (r: Self)
        ensures
            r@ == self@,
    {
        match self {
            Value::Int8(v) => Value::Int8(*v),
            Value::Int16(v) => Value::Int16(*v),
            Value::Int32(v) => Value::Int32(*v),
            Value::Int64(v) => Value::Int64(*v),
            Value::UInt8(v) => Value::UInt8(*v),
            Value::UInt16(v) => Value::UInt16(*v),
            Value::UInt32(v) => Value::UInt32(*v),
            Value::UInt64(v) => Value::UInt64(*v),
            Value::Float32(v) => Value::Float32(*v),
            Value::Float64(v) => Value::Float64(*v),
            Value::TimestampNs(v) => Value::TimestampNs(*v),
            Value::Binary(v) => {
                let c = v.clone();
                proof {
                    assert(c@ =~= v@);
                }
                Value::Binary(c)
            }
            Value::String(v) => Value::String(v.clone()),
            Value::Boolean(v) => Value::Boolean(*v),
        }
    }
}

impl PartialEq for Value {
    fn eq(&self, other: &Self) -> (r: bool) {
        match (self, other) {
            (Value::Int8(a), Value::Int8(b)) => a == b,
            (Value::Int16(a), Value::Int16(b)) => a == b,
            (Value::Int32(a), Value::Int32(b)) => a == b,
            (Value::Int64(a), Value::Int64(b)) => a == b,
            (Value::UInt8(a), Value::UInt8(b)) => a == b,
            (Value::UInt16(a), Value::UInt16(b)) => a == b,
            (Value::UInt32(a), Value::UInt32(b)) => a == b,
            (Value::UInt64(a), Value::UInt64(b)) => a == b,
            (Value::Float32(a), Value::Float32(b)) => a == b,
            (Value::Float64(a), Value::Float64(b)) => a == b,
            (Value::TimestampNs(a), Value::TimestampNs(b)) => a == b,
            (Value::Binary(a), Value::Binary(b)) => crate::text::bytes_eq(a, b),
            (Value::String(a), Value::String(b)) => crate::text::str_eq_str(a.as_str(), b.as_str()),
            (Value::Boolean(a), Value::Boolean(b)) => a == b,
            _ => false,
        }
    }
}

impl vstd::std_specs::cmp::PartialEqSpecImpl for Value {
    open spec fn obeys_eq_spec() -> bool {
        true
    }

    open spec fn eq_spec(&self, other: &Self) -> bool {
        self@ == other@
    }
}

impl Eq for Value {}

impl Value {
    /// The type tag a value's view carries.
    pub open spec fn spec_data_type(v: ValueView) -> DataType {
        match v {
            ValueView::Int8(_) => DataType::Int8,
            ValueView::Int16(_) => DataType::Int16,
            ValueView::Int32(_) => DataType::Int32,
            ValueView::Int64(_) => DataType::Int64,
            ValueView::UInt8(_) => DataType::UInt8,
            ValueView::UInt16(_) => DataType::UInt16,
            ValueView::UInt32(_) => DataType::UInt32,
            ValueView::UInt64(_) => DataType::UInt64,
            ValueView::Float32(_) => DataType::Float32,
            ValueView::Float64(_) => DataType::Float64,
            ValueView::TimestampNs(_) => DataType::TimestampNs,
            ValueView::Binary(_) => DataType::Binary,
            ValueView::String(_) => DataType::String,
            ValueView::Boolean(_) => DataType::Boolean,
        }
    }

    /// The type tag of this value.
    pub fn data_type(&self) -> (r: DataType)
        ensures
            r == Value::spec_data_type(self@),
    {
        match self {
            Value::Int8(_) => DataType::Int8,
            Value::Int16(_) => DataType::Int16,
            Value::Int32(_) => DataType::Int32,
            Value::Int64(_) => DataType::Int64,
            Value::UInt8(_) => DataType::UInt8,
            Value::UInt16(_) => DataType::UInt16,
            Value::UInt32(_) => DataType::UInt32,
            Value::UInt64(_) => DataType::UInt64,
            Value::Float32(_) => DataType::Float32,
            Value::Float64(_) => DataType::Float64,
            Value::TimestampNs(_) => DataType::TimestampNs,
            Value::Binary(_) => DataType::Binary,
            Value::String(_) => DataType::String,
            Value::Boolean(_) => DataType::Boolean,
        }
    }

    /// The inner integer of an `Int8` value.
    pub fn as_i8(&self) -> (r: Option<i8>)
        ensures
            match self@ {
                ValueView::Int8(v) => r == Some(v),
                _ => r is None,
            },
    {
        match self {
            Value::Int8(v) => Some(*v),
            _ => None,
        }
    }

    /// The inner integer of an `Int16` value.
    pub fn as_i16(&self) -> (r: Option<i16>)
        ensures
            match self@ {
                ValueView::Int16(v) => r == Some(v),
                _ => r is None,
            },
    {
        match self {
            Value::Int16(v) => Some(*v),
            _ => None,
        }
    }

    /// The inner integer of an `Int32` value.
    pub fn as_i32(&self) -> (r: Option<i32>)
        ensures
            match self@ {
                ValueView::Int32(v) => r == Some(v),
                _ => r is None,
            },
    {
        match self {
            Value::Int32(v) => Some(*v),
            _ => None,
        }
    }

    /// The inner integer of an `Int64` value.
    pub fn as_i64(&self) -> (r: Option<i64>)
        ensures
            match self@ {
                ValueView::Int64(v) => r == Some(v),
                _ => r is None,
            },
    {
        match self {
            Value::Int64(v) => Some(*v),
            _ => None,
        }
    }

    /// The inner integer of a `UInt8` value.
    pub fn as_u8(&self) -> (r: Option<u8>)
        ensures
            match self@ {
                ValueView::UInt8(v) => r == Some(v),
                _ => r is None,
            },
    {
        match self {
            Value::UInt8(v) => Some(*v),
            _ => None,
        }
    }

    /// The inner integer of a `UInt16` value.
    pub fn as_u16(&self) -> (r: Option<u16>)
        ensures
            match self@ {
                ValueView::UInt16(v) => r == Some(v),
                _ => r is None,
            },
    {
        match self {
            Value::UInt16(v) => Some(*v),
            _ => None,
        }
    }

    /// The inner integer of a `UInt32` value.
    pub fn as_u32(&self) -> (r: Option<u32>)
        ensures
            match self@ {
                ValueView::UInt32(v) => r == Some(v),
                _ => r is None,
            },
    {
        match self {
            Value::UInt32(v) => Some(*v),
            _ => None,
        }
    }

    /// The inner integer of a `UInt64` value.
    pub fn as_u64(&self) -> (r: Option<u64>)
        ensures
            match self@ {
                ValueView::UInt64(v) => r == Some(v),
                _ => r is None,
            },
    {
        match self {
            Value::UInt64(v) => Some(*v),
            _ => None,
        }
    }

    /// The raw bit pattern of a `Float32` value.
    pub fn as_f32_bits(&self) -> (r: Option<u32>)
        ensures
            match self@ {
                ValueView::Float32(v) => r == Some(v),
                _ => r is None,
            },
    {
        match self {
            Value::Float32(v) => Some(*v),
            _ => None,
        }
    }

    /// The raw bit pattern of a `Float64` value.
    pub fn as_f64_bits(&self) -> (r: Option<u64>)
        ensures
            match self@ {
                ValueView::Float64(v) => r == Some(v),
                _ => r is None,
            },
    {
        match self {
            Value::Float64(v) => Some(*v),
            _ => None,
        }
    }

    /// The inner timestamp of a `TimestampNs` value.
    pub fn as_timestamp_ns(&self) -> (r: Option<i64>)
        ensures
            match self@ {
                ValueView::TimestampNs(v) => r == Some(v),
                _ => r is None,
            },
    {
        match self {
            Value::TimestampNs(v) => Some(*v),
            _ => None,
        }
    }

    /// The inner bytes of a `Binary` value.
    pub fn as_binary(&self) -> (r: Option<&Vec<u8>>)
        ensures
            match self@ {
                ValueView::Binary(bs) => r matches Some(v) && v@ == bs,
                _ => r is None,
            },
    {
        match self {
            Value::Binary(v) => Some(v),
            _ => None,
        }
    }

    /// The inner text of a `String` value.
    pub fn as_str(&self) -> (r: Option<&str>)
        ensures
            match self@ {
                ValueView::String(s) => r matches Some(v) && v@ == s,
                _ => r is None,
            },
    {
        match self {
            Value::String(v) => Some(v.as_str()),
            _ => None,
        }
    }

    /// The inner boolean of a `Boolean` value.
    pub fn as_bool(&self) -> (r: Option<bool>)
        ensures
            match self@ {
                ValueView::Boolean(v) => r == Some(v),
                _ => r is None,
            },
    {
        match self {
            Value::Boolean(v) => Some(*v),
            _ => None,
        }
    }

    /// The numeric shape of an integer value: non-negative integers are
    /// carried as `PosInt`, negative ones as `NegInt`.  Non-integer values
    /// have no numeric shape.
    pub open spec fn spec_as_number(v: ValueView) -> Option<NumberValue> {
        match v {
            ValueView::Int8(v) => Some(NumberValue::spec_from_i64(v as i64)),
            ValueView::Int16(v) => Some(NumberValue::spec_from_i64(v as i64)),
            ValueView::Int32(v) => Some(NumberValue::spec_from_i64(v as i64)),
            ValueView::Int64(v) => Some(NumberValue::spec_from_i64(v)),
            ValueView::UInt8(v) => Some(NumberValue::PosInt(v as u64)),
            ValueView::UInt16(v) => Some(NumberValue::PosInt(v as u64)),
            ValueView::UInt32(v) => Some(NumberValue::PosInt(v as u64)),
            ValueView::UInt64(v) => Some(NumberValue::PosInt(v)),
            _ => None,
        }
    }

    /// This value as a plain number, if it is one of the integer variants.
    pub fn as_number(&self) -> (r: Option<NumberValue>)
        ensures
            r == Value::spec_as_number(self@),
    {
        match self {
            Value::Int8(v) => Some(NumberValue::from_i64(*v as i64)),
            Value::Int16(v) => Some(NumberValue::from_i64(*v as i64)),
            Value::Int32(v) => Some(NumberValue::from_i64(*v as i64)),
            Value::Int64(v) => Some(NumberValue::from_i64(*v)),
            Value::UInt8(v) => Some(NumberValue::PosInt(*v as u64)),
            Value::UInt16(v) => Some(NumberValue::PosInt(*v as u64)),
            Value::UInt32(v) => Some(NumberValue::PosInt(*v as u64)),
            Value::UInt64(v) => Some(NumberValue::PosInt(*v)),
            _ => None,
        }
    }

    /// Reads `value` as the integer data type `data_type` requests,
    /// rejecting values outside that type's range and every non-integer
    /// request.
    pub fn from_number_as_type(value: &NumberValue, data_type: &DataType) -> (r: Option<Value>)
        ensures
            r == Value::spec_from_number_as_type(*value, *data_type),
    {
        match data_type {
            DataType::Int8 => match value.as_i64() {
                Some(v) => {
                    if -128 <= v && v <= 127 {
                        Some(Value::Int8(v as i8))
                    } else {
                        None
                    }
                }
                None => None,
            },
            DataType::Int16 => match value.as_i64() {
                Some(v) => {
                    if -32768 <= v && v <= 32767 {
                        Some(Value::Int16(v as i16))
                    } else {
                        None
                    }
                }
                None => None,
            },
            DataType::Int32 => match value.as_i64() {
                Some(v) => {
                    if -2147483648 <= v && v <= 2147483647 {
                        Some(Value::Int32(v as i32))
                    } else {
                        None
                    }
                }
                None => None,
            },
            DataType::Int64 => match value.as_i64() {
                Some(v) => Some(Value::Int64(v)),
                None => None,
            },
            DataType::UInt8 => match value.as_u64() {
                Some(v) => {
                    if v <= 255 {
                        Some(Value::UInt8(v as u8))
                    } else {
                        None
                    }
                }
                None => None,
            },
            DataType::UInt16 => match value.as_u64() {
                Some(v) => {
                    if v <= 65535 {
                        Some(Value::UInt16(v as u16))
                    } else {
                        None
                    }
                }
                None => None,
            },
            DataType::UInt32 => match value.as_u64() {
                Some(v) => {
                    if v <= 4294967295 {
                        Some(Value::UInt32(v as u32))
                    } else {
                        None
                    }
                }
                None => None,
            },
            DataType::UInt64 => match value.as_u64() {
                Some(v) => Some(Value::UInt64(v)),
                None => None,
            },
            _ => None,
        }
    }

    /// What [`Value::from_number_as_type`] returns: the value of the
    /// requested integer type when the number fits its range, and nothing
    /// otherwise.
    pub open spec fn spec_from_number_as_type(value: NumberValue, data_type: DataType) -> Option<
        Value,
    > {
        match data_type {
            DataType::Int8 => match value.spec_as_i64() {
                Some(v) => if -128 <= v <= 127 {
                    Some(Value::Int8(v as i8))
                } else {
                    None
                },
                None => None,
            },
            DataType::Int16 => match value.spec_as_i64() {
                Some(v) => if -32768 <= v <= 32767 {
                    Some(Value::Int16(v as i16))
                } else {
                    None
                },
                None => None,
            },
            DataType::Int32 => match value.spec_as_i64() {
                Some(v) => if -2147483648 <= v <= 2147483647 {
                    Some(Value::Int32(v as i32))
                } else {
                    None
                },
                None => None,
            },
            DataType::Int64 => match value.spec_as_i64() {
                Some(v) => Some(Value::Int64(v)),
                None => None,
            },
            DataType::UInt8 => match value.spec_as_u64() {
                Some(v) => if v <= 255 {
                    Some(Value::UInt8(v as u8))
                } else {
                    None
                },
                None => None,
            },
            DataType::UInt16 => match value.spec_as_u64() {
                Some(v) => if v <= 65535 {
                    Some(Value::UInt16(v as u16))
                } else {
                    None
                },
                None => None,
            },
            DataType::UInt32 => match value.spec_as_u64() {
                Some(v) => if v <= 4294967295 {
                    Some(Value::UInt32(v as u32))
                } else {
                    None
                },
                None => None,
            },
            DataType::UInt64 => match value.spec_as_u64() {
                Some(v) => Some(Value::UInt64(v)),
                None => None,
            },
            _ => None,
        }
    }
}

/// An integer in the shape JSON number libraries use: non-negative values
/// as unsigned 64-bit integers, negative values as signed ones.
#[derive(Clone, Copy, Debug, PartialEq, Eq, Structural)]
pub enum NumberValue {
    PosInt(u64),
    NegInt(i64),
}

impl NumberValue {
    /// The shape a signed integer normalizes to.
    pub open spec fn spec_from_i64(v: i64) -> NumberValue {
        if v < 0 {
            NumberValue::NegInt(v)
        } else {
            NumberValue::PosInt(v as u64)
        }
    }

    /// Normalizes a signed integer: non-negative values become `PosInt`.
    pub fn from_i64(v: i64) -> (r: NumberValue)
        ensures
            r == NumberValue::spec_from_i64(v),
    {
        if v < 0 {
            NumberValue::NegInt(v)
        } else {
            NumberValue::PosInt(v as u64)
        }
    }

    /// The signed reading, where the number fits a signed 64-bit integer.
    pub open spec fn spec_as_i64(self) -> Option<i64> {
        match self {
            NumberValue::PosInt(u) => if u <= 0x7fff_ffff_ffff_ffff {
                Some(u as i64)
            } else {
                None
            },
            NumberValue::NegInt(v) => Some(v),
        }
    }

    /// Reads this number as a signed 64-bit integer if it fits.
    pub fn as_i64(&self) -> (r: Option<i64>)
        ensures
            r == self.spec_as_i64(),
    {
        match self {
            NumberValue::PosInt(u) => {
                if *u <= 0x7fff_ffff_ffff_ffff {
                    Some(*u as i64)
                } else {
                    None
                }
            }
            NumberValue::NegInt(v) => Some(*v),
        }
    }

    /// The unsigned reading; negative numbers have none.
    pub open spec fn spec_as_u64(self) -> Option<u64> {
        match self {
            NumberValue::PosInt(u) => Some(u),
            NumberValue::NegInt(_) => None,
        }
    }

    /// Reads this number as an unsigned 64-bit integer if it is not
    /// negative.
    pub fn as_u64(&self) -> (r: Option<u64>)
        ensures
            r == self.spec_as_u64(),
    {
        match self {
            NumberValue::PosInt(u) => Some(*u),
            NumberValue::NegInt(_) => None,
        }
    }
}

} // verus!
