//! The seven primitive types JSON Schema distinguishes, with their compact
//! bit encoding.

use crate::json::{str_eq, Json, JsonV};
use vstd::prelude::*;

verus! {

/// One of the seven primitive types JSON Schema recognizes.
#[derive(Clone, Copy, Debug, Hash, PartialEq, Eq, Structural)]
pub enum PrimitiveType {
    Array,
    Boolean,
    Integer,
    Null,
    Number,
    Object,
    String,
}

/// The bit assigned to each primitive type, one bit per tag.
pub open spec fn spec_bit_internal(pt: PrimitiveType) -> u8 {
    match pt {
        PrimitiveType::Array => 1u8,
        PrimitiveType::Boolean => 2u8,
        PrimitiveType::Integer => 4u8,
        PrimitiveType::Null => 8u8,
        PrimitiveType::Number => 16u8,
        PrimitiveType::Object => 32u8,
        PrimitiveType::String => 64u8,
    }
}

/// The bit pattern of a primitive type once Integer-is-a-Number is folded
/// in: Number carries the Integer bit as well.
pub open spec fn spec_bit(pt: PrimitiveType) -> u8 {
    if pt == PrimitiveType::Number {
        20u8
    } else {
        spec_bit_internal(pt)
    }
}

/// The canonical keyword name of a primitive type.
pub open spec fn spec_type_name(pt: PrimitiveType) -> Seq<char> {
    match pt {
        PrimitiveType::Array => "array"@,
        PrimitiveType::Boolean => "boolean"@,
        PrimitiveType::Integer => "integer"@,
        PrimitiveType::Null => "null"@,
        PrimitiveType::Number => "number"@,
        PrimitiveType::Object => "object"@,
        PrimitiveType::String => "string"@,
    }
}

/// The primitive type named by a character sequence, if any.
pub open spec fn spec_type_of_name(s: Seq<char>) -> Option<PrimitiveType> {
    if s == "array"@ {
        Some(PrimitiveType::Array)
    } else if s == "boolean"@ {
        Some(PrimitiveType::Boolean)
    } else if s == "integer"@ {
        Some(PrimitiveType::Integer)
    } else if s == "null"@ {
        Some(PrimitiveType::Null)
    } else if s == "number"@ {
        Some(PrimitiveType::Number)
    } else if s == "object"@ {
        Some(PrimitiveType::Object)
    } else if s == "string"@ {
        Some(PrimitiveType::String)
    } else {
        None
    }
}

/// The primitive type of a JSON value.  Numbers all count as Number: the
/// split between Integer and Number depends on the draft, so it is not made
/// here.
pub open spec fn spec_type_of_value(v: JsonV) -> PrimitiveType {
    match v {
        JsonV::Null => PrimitiveType::Null,
        JsonV::Bool(_) => PrimitiveType::Boolean,
        JsonV::Num(_) => PrimitiveType::Number,
        JsonV::Str(_) => PrimitiveType::String,
        JsonV::Arr(_) => PrimitiveType::Array,
        JsonV::Obj(_) => PrimitiveType::Object,
    }
}

/// The list of primitive types whose internal bit is set in `bits`, in the
/// fixed canonical order.
pub open spec fn spec_types_of_bits(bits: u8) -> Seq<PrimitiveType> {
    let e = Seq::<PrimitiveType>::empty();
    (if bits & 1 != 0 {
        seq![PrimitiveType::Array]
    } else {
        e
    }) + (if bits & 2 != 0 {
        seq![PrimitiveType::Boolean]
    } else {
        e
    }) + (if bits & 4 != 0 {
        seq![PrimitiveType::Integer]
    } else {
        e
    }) + (if bits & 8 != 0 {
        seq![PrimitiveType::Null]
    } else {
        e
    }) + (if bits & 16 != 0 {
        seq![PrimitiveType::Number]
    } else {
        e
    }) + (if bits & 32 != 0 {
        seq![PrimitiveType::Object]
    } else {
        e
    }) + (if bits & 64 != 0 {
        seq![PrimitiveType::String]
    } else {
        e
    })
}

impl PrimitiveType {
    /// The bit of this tag alone, ignoring that an Integer is a Number.
    pub fn to_bit_representation_internal(self) -> (r: u8)
        ensures
            r == spec_bit_internal(self),
    {
        match self {
            PrimitiveType::Array => 1,
            PrimitiveType::Boolean => 2,
            PrimitiveType::Integer => 4,
            PrimitiveType::Null => 8,
            PrimitiveType::Number => 16,
            PrimitiveType::Object => 32,
            PrimitiveType::String => 64,
        }
    }

    /// The bit pattern of this tag, counting an Integer as a Number.
    pub fn to_bit_representation(self) -> (r: u8)
        ensures
            r == spec_bit(self),
    {
        match self {
            PrimitiveType::Number => 20,
            _ => self.to_bit_representation_internal(),
        }
    }

    /// The tags whose internal bit is set, in canonical order.
    #[verifier::rlimit(100)]
    pub fn from_bit_representation(bits: u8) -> (r: Vec<PrimitiveType>)
        ensures
            r@ == spec_types_of_bits(bits),
    {
        let mut r: Vec<PrimitiveType> = Vec::new();
        if bits & 1 != 0 {
            r.push(PrimitiveType::Array);
        }
        if bits & 2 != 0 {
            r.push(PrimitiveType::Boolean);
        }
        if bits & 4 != 0 {
            r.push(PrimitiveType::Integer);
        }
        if bits & 8 != 0 {
            r.push(PrimitiveType::Null);
        }
        if bits & 16 != 0 {
            r.push(PrimitiveType::Number);
        }
        if bits & 32 != 0 {
            r.push(PrimitiveType::Object);
        }
        if bits & 64 != 0 {
            r.push(PrimitiveType::String);
        }
        proof {
            assert(r@ =~= spec_types_of_bits(bits));
        }
        r
    }

    /// The primitive type with the given canonical name, if any.
    pub fn from_name(name: &str) -> (r: Option<PrimitiveType>)
        ensures
            r == spec_type_of_name(name@),
    {
        if str_eq(name, "array") {
            Some(PrimitiveType::Array)
        } else if str_eq(name, "boolean") {
            Some(PrimitiveType::Boolean)
        } else if str_eq(name, "integer") {
            Some(PrimitiveType::Integer)
        } else if str_eq(name, "null") {
            Some(PrimitiveType::Null)
        } else if str_eq(name, "number") {
            Some(PrimitiveType::Number)
        } else if str_eq(name, "object") {
            Some(PrimitiveType::Object)
        } else if str_eq(name, "string") {
            Some(PrimitiveType::String)
        } else {
            None
        }
    }

    /// The canonical name of this primitive type.
    pub fn as_name(self) -> (r: String)
        ensures
            r@ == spec_type_name(self),
    {
        match self {
            PrimitiveType::Array => String::from_str("array"),
            PrimitiveType::Boolean => String::from_str("boolean"),
            PrimitiveType::Integer => String::from_str("integer"),
            PrimitiveType::Null => String::from_str("null"),
            PrimitiveType::Number => String::from_str("number"),
            PrimitiveType::Object => String::from_str("object"),
            PrimitiveType::String => String::from_str("string"),
        }
    }

    /// The primitive type of a JSON value.
    pub fn of_value(value: &Json) -> (r: PrimitiveType)
        ensures
            r == spec_type_of_value(value@),
    {
        match value {
            Json::Null => PrimitiveType::Null,
            Json::Bool(_) => PrimitiveType::Boolean,
            Json::Num(_) => PrimitiveType::Number,
            Json::Str(_) => PrimitiveType::String,
            Json::Arr(_) => PrimitiveType::Array,
            Json::Obj(_) => PrimitiveType::Object,
        }
    }
}

} // verus!
