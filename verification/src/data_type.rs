//! The type tags that classify scalar trace values.

use vstd::prelude::*;

use crate::error::Error;

verus! {

/// The data type of a scalar trace value.  Floating-point values are carried
/// by their raw bit patterns, so the two float tags classify 32- and 64-bit
/// patterns rather than native float fields.
#[derive(Clone, Copy, Debug, PartialEq, Eq, Structural, Hash)]
pub enum DataType {
    Int8,
    Int16,
    Int32,
    Int64,
    UInt8,
    UInt16,
    UInt32,
    UInt64,
    Float32,
    Float64,
    TimestampNs,
    Binary,
    String,
    Boolean,
}

impl DataType {
    /// Whether values of this type are numeric (integers, floats and
    /// booleans count; timestamps, binary blobs and strings do not).
    pub fn is_numeric(&self) -> (r: bool)
        ensures
            r == self.spec_is_numeric(),
    {
        match self {
            DataType::Int8 => true,
            DataType::Int16 => true,
            DataType::Int32 => true,
            DataType::Int64 => true,
            DataType::UInt8 => true,
            DataType::UInt16 => true,
            DataType::UInt32 => true,
            DataType::UInt64 => true,
            DataType::Float32 => true,
            DataType::Float64 => true,
            DataType::TimestampNs => false,
            DataType::Binary => false,
            DataType::String => false,
            DataType::Boolean => true,
        }
    }

    /// Which type tags count as numeric.
    pub open spec fn spec_is_numeric(self) -> bool {
        match self {
            DataType::TimestampNs => false,
            DataType::Binary => false,
            DataType::String => false,
            _ => true,
        }
    }

    /// The SQL column type name that stands for each data type.
    pub open spec fn spec_sql_name(self) -> Seq<char> {
        match self {
            DataType::Int8 => "TINYINT"@,
            DataType::Int16 => "SMALLINT"@,
            DataType::Int32 => "INTEGER"@,
            DataType::Int64 => "BIGINT"@,
            DataType::UInt8 => "UTINYINT"@,
            DataType::UInt16 => "USMALLINT"@,
            DataType::UInt32 => "UINTEGER"@,
            DataType::UInt64 => "UBIGINT"@,
            DataType::Float32 => "FLOAT"@,
            DataType::Float64 => "DOUBLE"@,
            DataType::TimestampNs => "TIMESTAMP_NS"@,
            DataType::Binary => "BLOB"@,
            DataType::String => "VARCHAR"@,
            DataType::Boolean => "BOOLEAN"@,
        }
    }

    /// The data type a SQL column type name stands for, or an error for a
    /// name that stands for none.
    pub fn from_duckdb_type(value: &String) -> (r: Result<DataType, Error>)
        ensures
            match r {
                Ok(dt) => value@ == dt.spec_sql_name(),
                Err(e) => {
                    &&& e == Error::UnknownTypeName
                    &&& forall|dt: DataType| value@ != #[trigger] dt.spec_sql_name()
                },
            },
    {
        let s: &str = value.as_str();
        if crate::text::str_eq_str(s, "TINYINT") {
            Ok(DataType::Int8)
        } else if crate::text::str_eq_str(s, "SMALLINT") {
            Ok(DataType::Int16)
        } else if crate::text::str_eq_str(s, "INTEGER") {
            Ok(DataType::Int32)
        } else if crate::text::str_eq_str(s, "BIGINT") {
            Ok(DataType::Int64)
        } else if crate::text::str_eq_str(s, "UTINYINT") {
            Ok(DataType::UInt8)
        } else if crate::text::str_eq_str(s, "USMALLINT") {
            Ok(DataType::UInt16)
        } else if crate::text::str_eq_str(s, "UINTEGER") {
            Ok(DataType::UInt32)
        } else if crate::text::str_eq_str(s, "UBIGINT") {
            Ok(DataType::UInt64)
        } else if crate::text::str_eq_str(s, "FLOAT") {
            Ok(DataType::Float32)
        } else if crate::text::str_eq_str(s, "DOUBLE") {
            Ok(DataType::Float64)
        } else if crate::text::str_eq_str(s, "TIMESTAMP_NS") {
            Ok(DataType::TimestampNs)
        } else if crate::text::str_eq_str(s, "BLOB") {
            Ok(DataType::Binary)
        } else if crate::text::str_eq_str(s, "VARCHAR") {
            Ok(DataType::String)
        } else if crate::text::str_eq_str(s, "BOOLEAN") {
            Ok(DataType::Boolean)
        } else {
            proof {
                assert forall|dt: DataType| value@ != #[trigger] dt.spec_sql_name() by {
                    match dt {
                        DataType::Int8 => assert(value@ != "TINYINT"@),
                        _ => {}
                    }
                }
            }
            Err(Error::UnknownTypeName)
        }
    }

    /// The SQL column type name for this data type.
    pub fn to_duckdb_type(&self) -> (r: &'static str)
        ensures
            r@ == self.spec_sql_name(),
    {
        match self {
            DataType::Int8 => "TINYINT",
            DataType::Int16 => "SMALLINT",
            DataType::Int32 => "INTEGER",
            DataType::Int64 => "BIGINT",
            DataType::UInt8 => "UTINYINT",
            DataType::UInt16 => "USMALLINT",
            DataType::UInt32 => "UINTEGER",
            DataType::UInt64 => "UBIGINT",
            DataType::Float32 => "FLOAT",
            DataType::Float64 => "DOUBLE",
            DataType::TimestampNs => "TIMESTAMP_NS",
            DataType::Binary => "BLOB",
            DataType::String => "VARCHAR",
            DataType::Boolean => "BOOLEAN",
        }
    }
}

} // verus!
