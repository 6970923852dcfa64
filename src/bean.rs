//! The generic bean document: objects holding named property entries.
use vstd::prelude::*;

verus! {

/// Root of one capture document.
pub struct Java {
    pub version: String,
    pub class: String,
    /// The objects, in document order; each becomes one frame.
    pub objects: Vec<JavaObject>,
}

/// One bean instance: a class name and its property entries in document order.
pub struct JavaObject {
    pub class: String,
    pub voids: Vec<JavaVoid>,
}

/// One named property assignment of an object.
pub struct JavaVoid {
    /// The property name, kept exactly as written.
    pub property: String,
    pub value: VoidValue,
}

/// The payload of a property entry: none, or exactly one value kind.
pub enum VoidValue {
    Absent,
    Str(String),
    Int(i32),
    Byte(i32),
    /// Written `long` in the document, but only 32 bits wide.
    Long(i32),
    Date(JavaDate),
    Array(JavaArray),
}

/// A byte array value: its entries, in document order, are the payload.
pub struct JavaArray {
    pub class: Option<String>,
    /// Declared length; informational only.
    pub length: Option<i32>,
    pub voids: Option<Vec<VoidIndex>>,
}

/// One element of a byte array, with its index label as written.
pub struct VoidIndex {
    pub index: String,
    pub byte: i8,
}

/// A nested timestamp object: milliseconds since the Unix epoch, if given.
pub struct JavaDate {
    pub class: Option<String>,
    pub long: Option<i64>,
}

/// Why a document could not be read into the bean model.
pub enum ParseError {
    /// The text is not well-formed, or its elements do not have the expected shape.
    Malformed { message: String },
    /// A property entry carries more than one value kind.
    AmbiguousValue { property: String },
}

/// How many of the optional payloads of a property entry are present.
pub open spec fn payload_count(
    string: Option<String>,
    integer: Option<i32>,
    array: Option<JavaArray>,
    byte: Option<i32>,
    long: Option<i32>,
    object: Option<JavaDate>,
) -> nat {
    (if string is Some { 1nat } else { 0nat }) + (if integer is Some { 1nat } else { 0nat }) + (
    if array is Some { 1nat } else { 0nat }) + (if byte is Some { 1nat } else { 0nat }) + (
    if long is Some { 1nat } else { 0nat }) + (if object is Some { 1nat } else { 0nat })
}

/// The value kind that a single present payload stands for.
pub open spec fn value_of_parts(
    string: Option<String>,
    integer: Option<i32>,
    array: Option<JavaArray>,
    byte: Option<i32>,
    long: Option<i32>,
    object: Option<JavaDate>,
) -> VoidValue {
    if let Some(s) = string {
        VoidValue::Str(s)
    } else if let Some(n) = integer {
        VoidValue::Int(n)
    } else if let Some(a) = array {
        VoidValue::Array(a)
    } else if let Some(b) = byte {
        VoidValue::Byte(b)
    } else if let Some(l) = long {
        VoidValue::Long(l)
    } else if let Some(d) = object {
        VoidValue::Date(d)
    } else {
        VoidValue::Absent
    }
}

impl JavaVoid {
    /// Builds an entry from the optional payloads read for it, which must hold
    /// at most one value kind.
    pub fn from_parts(
        property: String,
        string: Option<String>,
        integer: Option<i32>,
        array: Option<JavaArray>,
        byte: Option<i32>,
        long: Option<i32>,
        object: Option<JavaDate>,
    ) -> (r: Result<JavaVoid, ParseError>)
        ensures
            r is Ok <==> payload_count(string, integer, array, byte, long, object) <= 1,
            r matches Ok(v) ==> v.property == property && v.value == value_of_parts(
                string,
                integer,
                array,
                byte,
                long,
                object,
            ),
            r matches Err(e) ==> (e matches ParseError::AmbiguousValue { property: p }
                && p == property),
    {
        let count: u8 = (if string.is_some() { 1u8 } else { 0u8 }) + (if integer.is_some() {
            1u8
        } else {
            0u8
        }) + (if array.is_some() { 1u8 } else { 0u8 }) + (if byte.is_some() { 1u8 } else { 0u8 })
            + (if long.is_some() { 1u8 } else { 0u8 }) + (if object.is_some() { 1u8 } else { 0u8 });
        if count > 1 {
            return Err(ParseError::AmbiguousValue { property });
        }
        let value = if let Some(s) = string {
            VoidValue::Str(s)
        } else if let Some(n) = integer {
            VoidValue::Int(n)
        } else if let Some(a) = array {
            VoidValue::Array(a)
        } else if let Some(b) = byte {
            VoidValue::Byte(b)
        } else if let Some(l) = long {
            VoidValue::Long(l)
        } else if let Some(d) = object {
            VoidValue::Date(d)
        } else {
            VoidValue::Absent
        };
        Ok(JavaVoid { property, value })
    }
}

} // verus!
