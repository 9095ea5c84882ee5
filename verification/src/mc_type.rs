// Value types and dimensioned types of measurement and calibration objects
//  McValueType - basic type, blob or reference to a typedef
//  McDimType - value type, matrix dimensions and metadata

use vstd::prelude::*;

use crate::mc_support::{McObjectType, McSupportData};
use crate::mc_text::{McIdentifier, McText};
use crate::strings::str_eq;

verus! {

//-------------------------------------------------------------------------------------------------
// McValueType

/// Value type of a measurement or calibration object
#[derive(Debug, Clone, Copy)]
pub enum McValueType {
    Unknown,
    Bool,
    Ubyte,
    Uword,
    Ulong,
    Ulonglong,
    Sbyte,
    Sword,
    Slong,
    Slonglong,
    Float32Ieee,
    Float64Ieee,
    /// Dynamic object with its IDL annotation
    Blob(McText),
    /// Instance of a typedef with the given type name
    TypeDef(McIdentifier),
}

/// A basic type: a number or a boolean
pub open spec fn is_basic_type(t: McValueType) -> bool {
    !(t is Unknown) && !(t is Blob) && !(t is TypeDef)
}

/// Size in bytes of a basic type, 0 for a blob
pub open spec fn value_size(t: McValueType) -> nat {
    match t {
        McValueType::Bool => 1,
        McValueType::Ubyte => 1,
        McValueType::Uword => 2,
        McValueType::Ulong => 4,
        McValueType::Ulonglong => 8,
        McValueType::Sbyte => 1,
        McValueType::Sword => 2,
        McValueType::Slong => 4,
        McValueType::Slonglong => 8,
        McValueType::Float32Ieee => 4,
        McValueType::Float64Ieee => 8,
        _ => 0,
    }
}

/// A2L basic data type name
pub open spec fn type_str(t: McValueType) -> Seq<char> {
    match t {
        McValueType::Bool => "UBYTE"@,
        McValueType::Ubyte => "UBYTE"@,
        McValueType::Uword => "UWORD"@,
        McValueType::Ulong => "ULONG"@,
        McValueType::Ulonglong => "A_UINT64"@,
        McValueType::Sbyte => "SBYTE"@,
        McValueType::Sword => "SWORD"@,
        McValueType::Slong => "SLONG"@,
        McValueType::Slonglong => "A_INT64"@,
        McValueType::Float32Ieee => "FLOAT32_IEEE"@,
        McValueType::Float64Ieee => "FLOAT64_IEEE"@,
        _ => "BLOB"@,
    }
}

/// Name of the predefined A2L record layout of a type
pub open spec fn record_layout_str(t: McValueType) -> Seq<char> {
    match t {
        McValueType::Bool => "BOOL"@,
        McValueType::Ubyte => "U8"@,
        McValueType::Uword => "U16"@,
        McValueType::Ulong => "U32"@,
        McValueType::Ulonglong => "U64"@,
        McValueType::Sbyte => "I8"@,
        McValueType::Sword => "I16"@,
        McValueType::Slong => "I32"@,
        McValueType::Slonglong => "I64"@,
        McValueType::Float32Ieee => "F32"@,
        McValueType::Float64Ieee => "F64"@,
        _ => "BLOB"@,
    }
}

impl McValueType {
    /// Value type referring to a typedef
    pub fn new_typedef(typedef_name: McIdentifier) -> (t: McValueType)
        ensures
            t == McValueType::TypeDef(typedef_name),
    {
        McValueType::TypeDef(typedef_name)
    }

    pub fn is_typedef(&self) -> (b: bool)
        ensures
            b == (*self is TypeDef),
    {
        match self {
            McValueType::TypeDef(_) => true,
            _ => false,
        }
    }

    pub fn is_unknown(&self) -> (b: bool)
        ensures
            b == (*self is Unknown),
    {
        match self {
            McValueType::Unknown => true,
            _ => false,
        }
    }

    /// Size in bytes of a basic type or a blob
    pub fn get_size(&self) -> (n: usize)
        requires
            is_basic_type(*self) || *self is Blob,
        ensures
            n == value_size(*self),
    {
        match self {
            McValueType::Bool => 1,
            McValueType::Ubyte => 1,
            McValueType::Uword => 2,
            McValueType::Ulong => 4,
            McValueType::Ulonglong => 8,
            McValueType::Sbyte => 1,
            McValueType::Sword => 2,
            McValueType::Slong => 4,
            McValueType::Slonglong => 8,
            McValueType::Float32Ieee => 4,
            McValueType::Float64Ieee => 8,
            _ => 0,
        }
    }

    /// A2L basic data type name of a basic type or a blob
    pub fn get_type_str(&self) -> (s: &'static str)
        requires
            is_basic_type(*self) || *self is Blob,
        ensures
            s@ == type_str(*self),
    {
        match self {
            McValueType::Bool => "UBYTE",
            McValueType::Ubyte => "UBYTE",
            McValueType::Uword => "UWORD",
            McValueType::Ulong => "ULONG",
            McValueType::Ulonglong => "A_UINT64",
            McValueType::Sbyte => "SBYTE",
            McValueType::Sword => "SWORD",
            McValueType::Slong => "SLONG",
            McValueType::Slonglong => "A_INT64",
            McValueType::Float32Ieee => "FLOAT32_IEEE",
            McValueType::Float64Ieee => "FLOAT64_IEEE",
            _ => "BLOB",
        }
    }

    /// Name of the predefined A2L record layout of a basic type or a blob
    pub fn get_record_layout_str(&self) -> (s: &'static str)
        requires
            is_basic_type(*self) || *self is Blob,
        ensures
            s@ == record_layout_str(*self),
    {
        match self {
            McValueType::Bool => "BOOL",
            McValueType::Ubyte => "U8",
            McValueType::Uword => "U16",
            McValueType::Ulong => "U32",
            McValueType::Ulonglong => "U64",
            McValueType::Sbyte => "I8",
            McValueType::Sword => "I16",
            McValueType::Slong => "I32",
            McValueType::Slonglong => "I64",
            McValueType::Float32Ieee => "F32",
            McValueType::Float64Ieee => "F64",
            _ => "BLOB",
        }
    }
}

//-------------------------------------------------------------------------------------------------
// Value types from predefined record layout names of A2L files

/// Basic types of the record layout names that Vector tools, Vector VIO and this library predefine
pub open spec fn value_type_of_record_layout(s: Seq<char>) -> McValueType {
    if s == "__UBYTE_Z"@ || s == "_UBYTE"@ || s == "U8"@ || s == "A_U8"@ || s == "VALUE_UBYTE"@ {
        McValueType::Ubyte
    } else if s == "__SBYTE_Z"@ || s == "_SBYTE"@ || s == "S8"@ || s == "I8"@ || s == "A_S8"@ || s
        == "A_I8"@ || s == "VALUE_SBYTE"@ {
        McValueType::Sbyte
    } else if s == "__UWORD_Z"@ || s == "_UWORD"@ || s == "U16"@ || s == "A_U16"@ || s
        == "VALUE_UWORD"@ {
        McValueType::Uword
    } else if s == "__SWORD_Z"@ || s == "_SWORD"@ || s == "S16"@ || s == "I16"@ || s == "A_S16"@
        || s == "A_I16"@ || s == "VALUE_SWORD"@ {
        McValueType::Sword
    } else if s == "__ULONG_Z"@ || s == "_ULONG"@ || s == "U32"@ || s == "A_U32"@ || s
        == "VALUE_ULONG"@ {
        McValueType::Ulong
    } else if s == "__SLONG_Z"@ || s == "_SLONG"@ || s == "S32"@ || s == "I32"@ || s == "A_S32"@
        || s == "A_I32"@ || s == "VALUE_SLONG"@ {
        McValueType::Slong
    } else if s == "__A_UINT64_Z"@ || s == "U64"@ || s == "A_U64"@ || s == "VALUE_A_UINT64"@ {
        McValueType::Ulonglong
    } else if s == "__A_INT64_Z"@ || s == "S64"@ || s == "I64"@ || s == "A_S64"@ || s == "A_I64"@
        || s == "VALUE_A_INT64"@ {
        McValueType::Slonglong
    } else if s == "__FLOAT32_IEEE"@ || s == "F32"@ || s == "A_F32"@ || s
        == "VALUE_FLOAT32_IEEE"@ {
        McValueType::Float32Ieee
    } else if s == "__FLOAT64_IEEE"@ || s == "F64"@ || s == "A_F64"@ || s
        == "VALUE_FLOAT64_IEEE"@ {
        McValueType::Float64Ieee
    } else if s == "BOOL"@ {
        McValueType::Bool
    } else {
        // Unknown record layout names are read as unsigned bytes
        McValueType::Ubyte
    }
}

/// The characters of the predefined record layout names
proof fn lemma_record_layout_chars()
    ensures
        "__UBYTE_Z"@ == seq!['_', '_', 'U', 'B', 'Y', 'T', 'E', '_', 'Z'],
        "_UBYTE"@ == seq!['_', 'U', 'B', 'Y', 'T', 'E'],
        "U8"@ == seq!['U', '8'],
        "A_U8"@ == seq!['A', '_', 'U', '8'],
        "VALUE_UBYTE"@ == seq!['V', 'A', 'L', 'U', 'E', '_', 'U', 'B', 'Y', 'T', 'E'],
        "__SBYTE_Z"@ == seq!['_', '_', 'S', 'B', 'Y', 'T', 'E', '_', 'Z'],
        "_SBYTE"@ == seq!['_', 'S', 'B', 'Y', 'T', 'E'],
        "S8"@ == seq!['S', '8'],
        "I8"@ == seq!['I', '8'],
        "A_S8"@ == seq!['A', '_', 'S', '8'],
        "A_I8"@ == seq!['A', '_', 'I', '8'],
        "VALUE_SBYTE"@ == seq!['V', 'A', 'L', 'U', 'E', '_', 'S', 'B', 'Y', 'T', 'E'],
        "__UWORD_Z"@ == seq!['_', '_', 'U', 'W', 'O', 'R', 'D', '_', 'Z'],
        "_UWORD"@ == seq!['_', 'U', 'W', 'O', 'R', 'D'],
        "U16"@ == seq!['U', '1', '6'],
        "A_U16"@ == seq!['A', '_', 'U', '1', '6'],
        "VALUE_UWORD"@ == seq!['V', 'A', 'L', 'U', 'E', '_', 'U', 'W', 'O', 'R', 'D'],
        "__SWORD_Z"@ == seq!['_', '_', 'S', 'W', 'O', 'R', 'D', '_', 'Z'],
        "_SWORD"@ == seq!['_', 'S', 'W', 'O', 'R', 'D'],
        "S16"@ == seq!['S', '1', '6'],
        "I16"@ == seq!['I', '1', '6'],
        "A_S16"@ == seq!['A', '_', 'S', '1', '6'],
        "A_I16"@ == seq!['A', '_', 'I', '1', '6'],
        "VALUE_SWORD"@ == seq!['V', 'A', 'L', 'U', 'E', '_', 'S', 'W', 'O', 'R', 'D'],
        "__ULONG_Z"@ == seq!['_', '_', 'U', 'L', 'O', 'N', 'G', '_', 'Z'],
        "_ULONG"@ == seq!['_', 'U', 'L', 'O', 'N', 'G'],
        "U32"@ == seq!['U', '3', '2'],
        "A_U32"@ == seq!['A', '_', 'U', '3', '2'],
        "VALUE_ULONG"@ == seq!['V', 'A', 'L', 'U', 'E', '_', 'U', 'L', 'O', 'N', 'G'],
        "__SLONG_Z"@ == seq!['_', '_', 'S', 'L', 'O', 'N', 'G', '_', 'Z'],
        "_SLONG"@ == seq!['_', 'S', 'L', 'O', 'N', 'G'],
        "S32"@ == seq!['S', '3', '2'],
        "I32"@ == seq!['I', '3', '2'],
        "A_S32"@ == seq!['A', '_', 'S', '3', '2'],
        "A_I32"@ == seq!['A', '_', 'I', '3', '2'],
        "VALUE_SLONG"@ == seq!['V', 'A', 'L', 'U', 'E', '_', 'S', 'L', 'O', 'N', 'G'],
        "__A_UINT64_Z"@ == seq!['_', '_', 'A', '_', 'U', 'I', 'N', 'T', '6', '4', '_', 'Z'],
        "U64"@ == seq!['U', '6', '4'],
        "A_U64"@ == seq!['A', '_', 'U', '6', '4'],
        "VALUE_A_UINT64"@ == seq!['V', 'A', 'L', 'U', 'E', '_', 'A', '_', 'U', 'I', 'N', 'T', '6', '4'],
        "__A_INT64_Z"@ == seq!['_', '_', 'A', '_', 'I', 'N', 'T', '6', '4', '_', 'Z'],
        "S64"@ == seq!['S', '6', '4'],
        "I64"@ == seq!['I', '6', '4'],
        "A_S64"@ == seq!['A', '_', 'S', '6', '4'],
        "A_I64"@ == seq!['A', '_', 'I', '6', '4'],
        "VALUE_A_INT64"@ == seq!['V', 'A', 'L', 'U', 'E', '_', 'A', '_', 'I', 'N', 'T', '6', '4'],
        "__FLOAT32_IEEE"@ == seq!['_', '_', 'F', 'L', 'O', 'A', 'T', '3', '2', '_', 'I', 'E', 'E', 'E'],
        "F32"@ == seq!['F', '3', '2'],
        "A_F32"@ == seq!['A', '_', 'F', '3', '2'],
        "VALUE_FLOAT32_IEEE"@ == seq!['V', 'A', 'L', 'U', 'E', '_', 'F', 'L', 'O', 'A', 'T', '3', '2', '_', 'I', 'E', 'E', 'E'],
        "__FLOAT64_IEEE"@ == seq!['_', '_', 'F', 'L', 'O', 'A', 'T', '6', '4', '_', 'I', 'E', 'E', 'E'],
        "F64"@ == seq!['F', '6', '4'],
        "A_F64"@ == seq!['A', '_', 'F', '6', '4'],
        "VALUE_FLOAT64_IEEE"@ == seq!['V', 'A', 'L', 'U', 'E', '_', 'F', 'L', 'O', 'A', 'T', '6', '4', '_', 'I', 'E', 'E', 'E'],
        "BOOL"@ == seq!['B', 'O', 'O', 'L'],
{
    reveal_strlit("__UBYTE_Z");
    reveal_strlit("_UBYTE");
    reveal_strlit("U8");
    reveal_strlit("A_U8");
    reveal_strlit("VALUE_UBYTE");
    reveal_strlit("__SBYTE_Z");
    reveal_strlit("_SBYTE");
    reveal_strlit("S8");
    reveal_strlit("I8");
    reveal_strlit("A_S8");
    reveal_strlit("A_I8");
    reveal_strlit("VALUE_SBYTE");
    reveal_strlit("__UWORD_Z");
    reveal_strlit("_UWORD");
    reveal_strlit("U16");
    reveal_strlit("A_U16");
    reveal_strlit("VALUE_UWORD");
    reveal_strlit("__SWORD_Z");
    reveal_strlit("_SWORD");
    reveal_strlit("S16");
    reveal_strlit("I16");
    reveal_strlit("A_S16");
    reveal_strlit("A_I16");
    reveal_strlit("VALUE_SWORD");
    reveal_strlit("__ULONG_Z");
    reveal_strlit("_ULONG");
    reveal_strlit("U32");
    reveal_strlit("A_U32");
    reveal_strlit("VALUE_ULONG");
    reveal_strlit("__SLONG_Z");
    reveal_strlit("_SLONG");
    reveal_strlit("S32");
    reveal_strlit("I32");
    reveal_strlit("A_S32");
    reveal_strlit("A_I32");
    reveal_strlit("VALUE_SLONG");
    reveal_strlit("__A_UINT64_Z");
    reveal_strlit("U64");
    reveal_strlit("A_U64");
    reveal_strlit("VALUE_A_UINT64");
    reveal_strlit("__A_INT64_Z");
    reveal_strlit("S64");
    reveal_strlit("I64");
    reveal_strlit("A_S64");
    reveal_strlit("A_I64");
    reveal_strlit("VALUE_A_INT64");
    reveal_strlit("__FLOAT32_IEEE");
    reveal_strlit("F32");
    reveal_strlit("A_F32");
    reveal_strlit("VALUE_FLOAT32_IEEE");
    reveal_strlit("__FLOAT64_IEEE");
    reveal_strlit("F64");
    reveal_strlit("A_F64");
    reveal_strlit("VALUE_FLOAT64_IEEE");
    reveal_strlit("BOOL");
}

/// A signed integer type
pub open spec fn is_signed_int(t: McValueType) -> bool {
    t is Sbyte || t is Sword || t is Slong || t is Slonglong
}

/// An unsigned integer type
pub open spec fn is_unsigned_int(t: McValueType) -> bool {
    t is Ubyte || t is Uword || t is Ulong || t is Ulonglong
}

/// The Vector record layout names of an integer of width w (BYTE, WORD or LONG, of 1, 2 or 4
/// bytes): "__S<w>_Z", "_S<w>" and "VALUE_S<w>" give the signed integer of that size,
/// "__U<w>_Z", "_U<w>" and "VALUE_U<w>" the unsigned one
pub proof fn lemma_record_layout_vector_names(w: Seq<char>, size: nat)
    requires
        (w == "BYTE"@ && size == 1) || (w == "WORD"@ && size == 2) || (w == "LONG"@ && size == 4),
    ensures
        is_signed_int(value_type_of_record_layout("__S"@ + w + "_Z"@)),
        value_size(value_type_of_record_layout("__S"@ + w + "_Z"@)) == size,
        is_signed_int(value_type_of_record_layout("_S"@ + w)),
        value_size(value_type_of_record_layout("_S"@ + w)) == size,
        is_signed_int(value_type_of_record_layout("VALUE_S"@ + w)),
        value_size(value_type_of_record_layout("VALUE_S"@ + w)) == size,
        is_unsigned_int(value_type_of_record_layout("__U"@ + w + "_Z"@)),
        value_size(value_type_of_record_layout("__U"@ + w + "_Z"@)) == size,
        is_unsigned_int(value_type_of_record_layout("_U"@ + w)),
        value_size(value_type_of_record_layout("_U"@ + w)) == size,
        is_unsigned_int(value_type_of_record_layout("VALUE_U"@ + w)),
        value_size(value_type_of_record_layout("VALUE_U"@ + w)) == size,
{
    reveal_strlit("BYTE");
    reveal_strlit("WORD");
    reveal_strlit("LONG");
    reveal_strlit("__S");
    reveal_strlit("__U");
    reveal_strlit("_Z");
    reveal_strlit("_S");
    reveal_strlit("_U");
    reveal_strlit("VALUE_S");
    reveal_strlit("VALUE_U");
    lemma_record_layout_chars();
    if w == "BYTE"@ {
        assert("__S"@ + w + "_Z"@ =~= "__SBYTE_Z"@);
        assert("__U"@ + w + "_Z"@ =~= "__UBYTE_Z"@);
        assert("_S"@ + w =~= "_SBYTE"@);
        assert("_U"@ + w =~= "_UBYTE"@);
        assert("VALUE_S"@ + w =~= "VALUE_SBYTE"@);
        assert("VALUE_U"@ + w =~= "VALUE_UBYTE"@);
    }
    if w == "WORD"@ {
        assert("__S"@ + w + "_Z"@ =~= "__SWORD_Z"@);
        assert("__U"@ + w + "_Z"@ =~= "__UWORD_Z"@);
        assert("_S"@ + w =~= "_SWORD"@);
        assert("_U"@ + w =~= "_UWORD"@);
        assert("VALUE_S"@ + w =~= "VALUE_SWORD"@);
        assert("VALUE_U"@ + w =~= "VALUE_UWORD"@);
    }
    if w == "LONG"@ {
        assert("__S"@ + w + "_Z"@ =~= "__SLONG_Z"@);
        assert("__U"@ + w + "_Z"@ =~= "__ULONG_Z"@);
        assert("_S"@ + w =~= "_SLONG"@);
        assert("_U"@ + w =~= "_ULONG"@);
        assert("VALUE_S"@ + w =~= "VALUE_SLONG"@);
        assert("VALUE_U"@ + w =~= "VALUE_ULONG"@);
    }
}

/// The record layout names of an integer of w bits (8, 16, 32 or 64): "S<w>", "I<w>", "A_S<w>"
/// and "A_I<w>" give the signed integer of w / 8 bytes, "U<w>" and "A_U<w>" the unsigned one
pub proof fn lemma_record_layout_width_names(w: Seq<char>, size: nat)
    requires
        (w == "8"@ && size == 1) || (w == "16"@ && size == 2) || (w == "32"@ && size == 4) || (w == "64"@
            && size == 8),
    ensures
        is_signed_int(value_type_of_record_layout("S"@ + w)),
        value_size(value_type_of_record_layout("S"@ + w)) == size,
        is_signed_int(value_type_of_record_layout("I"@ + w)),
        value_size(value_type_of_record_layout("I"@ + w)) == size,
        is_signed_int(value_type_of_record_layout("A_S"@ + w)),
        value_size(value_type_of_record_layout("A_S"@ + w)) == size,
        is_signed_int(value_type_of_record_layout("A_I"@ + w)),
        value_size(value_type_of_record_layout("A_I"@ + w)) == size,
        is_unsigned_int(value_type_of_record_layout("U"@ + w)),
        value_size(value_type_of_record_layout("U"@ + w)) == size,
        is_unsigned_int(value_type_of_record_layout("A_U"@ + w)),
        value_size(value_type_of_record_layout("A_U"@ + w)) == size,
{
    reveal_strlit("8");
    reveal_strlit("16");
    reveal_strlit("32");
    reveal_strlit("64");
    reveal_strlit("S");
    reveal_strlit("I");
    reveal_strlit("A_S");
    reveal_strlit("A_I");
    reveal_strlit("U");
    reveal_strlit("A_U");
    lemma_record_layout_chars();
    if w == "8"@ {
        assert("S"@ + w =~= "S8"@);
        assert("I"@ + w =~= "I8"@);
        assert("A_S"@ + w =~= "A_S8"@);
        assert("A_I"@ + w =~= "A_I8"@);
        assert("U"@ + w =~= "U8"@);
        assert("A_U"@ + w =~= "A_U8"@);
    }
    if w == "16"@ {
        assert("S"@ + w =~= "S16"@);
        assert("I"@ + w =~= "I16"@);
        assert("A_S"@ + w =~= "A_S16"@);
        assert("A_I"@ + w =~= "A_I16"@);
        assert("U"@ + w =~= "U16"@);
        assert("A_U"@ + w =~= "A_U16"@);
    }
    if w == "32"@ {
        assert("S"@ + w =~= "S32"@);
        assert("I"@ + w =~= "I32"@);
        assert("A_S"@ + w =~= "A_S32"@);
        assert("A_I"@ + w =~= "A_I32"@);
        assert("U"@ + w =~= "U32"@);
        assert("A_U"@ + w =~= "A_U32"@);
    }
    if w == "64"@ {
        assert("S"@ + w =~= "S64"@);
        assert("I"@ + w =~= "I64"@);
        assert("A_S"@ + w =~= "A_S64"@);
        assert("A_I"@ + w =~= "A_I64"@);
        assert("U"@ + w =~= "U64"@);
        assert("A_U"@ + w =~= "A_U64"@);
    }
}

/// The Vector record layout names of 64 bit integers: "__A_INT64_Z" and "VALUE_A_INT64" give
/// the signed, "__A_UINT64_Z" and "VALUE_A_UINT64" the unsigned integer of 8 bytes; the names
/// of floats give the float of their size, "BOOL" a boolean
pub proof fn lemma_record_layout_other_names()
    ensures
        is_signed_int(value_type_of_record_layout("__A_INT64_Z"@)),
        value_size(value_type_of_record_layout("__A_INT64_Z"@)) == 8,
        is_signed_int(value_type_of_record_layout("VALUE_A_INT64"@)),
        value_size(value_type_of_record_layout("VALUE_A_INT64"@)) == 8,
        is_unsigned_int(value_type_of_record_layout("__A_UINT64_Z"@)),
        value_size(value_type_of_record_layout("__A_UINT64_Z"@)) == 8,
        is_unsigned_int(value_type_of_record_layout("VALUE_A_UINT64"@)),
        value_size(value_type_of_record_layout("VALUE_A_UINT64"@)) == 8,
        forall|n: Seq<char>|
            n == "__FLOAT32_IEEE"@ || n == "F32"@ || n == "A_F32"@ || n == "VALUE_FLOAT32_IEEE"@
                ==> #[trigger] value_type_of_record_layout(n) is Float32Ieee,
        forall|n: Seq<char>|
            n == "__FLOAT64_IEEE"@ || n == "F64"@ || n == "A_F64"@ || n == "VALUE_FLOAT64_IEEE"@
                ==> #[trigger] value_type_of_record_layout(n) is Float64Ieee,
        value_type_of_record_layout("BOOL"@) is Bool,
{
    lemma_record_layout_chars();
}

/// Get the value type from a predefined record layout name
pub fn get_value_type_from_record_layout(s: &str) -> (t: McValueType)
    ensures
        t == value_type_of_record_layout(s@),
{
    if str_eq(s, "__UBYTE_Z") || str_eq(s, "_UBYTE") || str_eq(s, "U8") || str_eq(s, "A_U8")
        || str_eq(s, "VALUE_UBYTE") {
        McValueType::Ubyte
    } else if str_eq(s, "__SBYTE_Z") || str_eq(s, "_SBYTE") || str_eq(s, "S8") || str_eq(s, "I8")
        || str_eq(s, "A_S8") || str_eq(s, "A_I8") || str_eq(s, "VALUE_SBYTE") {
        McValueType::Sbyte
    } else if str_eq(s, "__UWORD_Z") || str_eq(s, "_UWORD") || str_eq(s, "U16") || str_eq(
        s,
        "A_U16",
    ) || str_eq(s, "VALUE_UWORD") {
        McValueType::Uword
    } else if str_eq(s, "__SWORD_Z") || str_eq(s, "_SWORD") || str_eq(s, "S16") || str_eq(s, "I16")
        || str_eq(s, "A_S16") || str_eq(s, "A_I16") || str_eq(s, "VALUE_SWORD") {
        McValueType::Sword
    } else if str_eq(s, "__ULONG_Z") || str_eq(s, "_ULONG") || str_eq(s, "U32") || str_eq(
        s,
        "A_U32",
    ) || str_eq(s, "VALUE_ULONG") {
        McValueType::Ulong
    } else if str_eq(s, "__SLONG_Z") || str_eq(s, "_SLONG") || str_eq(s, "S32") || str_eq(s, "I32")
        || str_eq(s, "A_S32") || str_eq(s, "A_I32") || str_eq(s, "VALUE_SLONG") {
        McValueType::Slong
    } else if str_eq(s, "__A_UINT64_Z") || str_eq(s, "U64") || str_eq(s, "A_U64") || str_eq(
        s,
        "VALUE_A_UINT64",
    ) {
        McValueType::Ulonglong
    } else if str_eq(s, "__A_INT64_Z") || str_eq(s, "S64") || str_eq(s, "I64") || str_eq(s, "A_S64")
        || str_eq(s, "A_I64") || str_eq(s, "VALUE_A_INT64") {
        McValueType::Slonglong
    } else if str_eq(s, "__FLOAT32_IEEE") || str_eq(s, "F32") || str_eq(s, "A_F32") || str_eq(
        s,
        "VALUE_FLOAT32_IEEE",
    ) {
        McValueType::Float32Ieee
    } else if str_eq(s, "__FLOAT64_IEEE") || str_eq(s, "F64") || str_eq(s, "A_F64") || str_eq(
        s,
        "VALUE_FLOAT64_IEEE",
    ) {
        McValueType::Float64Ieee
    } else if str_eq(s, "BOOL") {
        McValueType::Bool
    } else {
        McValueType::Ubyte
    }
}

//-------------------------------------------------------------------------------------------------
// McDimType

/// Value type with matrix dimensions and metadata
#[derive(Debug, Clone, Copy)]
pub struct McDimType {
    pub value_type: McValueType,
    pub x_dim: u16,
    pub y_dim: u16,
    pub mc_support_data: McSupportData,
}

impl McDimType {
    pub fn new(value_type: McValueType, x_dim: u16, y_dim: u16, mc_support_data: McSupportData) -> (d:
        McDimType)
        ensures
            d == (McDimType { value_type, x_dim, y_dim, mc_support_data }),
    {
        McDimType { value_type, x_dim, y_dim, mc_support_data }
    }

    /// Matrix dimensions [x, y]
    pub fn get_dim(&self) -> (d: [u16; 2])
        ensures
            d@ == seq![self.x_dim, self.y_dim],
    {
        let d = [self.x_dim, self.y_dim];
        assert(d@ =~= seq![self.x_dim, self.y_dim]);
        d
    }

    /// Size in bytes of all values of a basic type or blob
    pub fn get_size(&self) -> (n: usize)
        requires
            is_basic_type(self.value_type) || self.value_type is Blob,
            value_size(self.value_type) * self.x_dim * self.y_dim <= usize::MAX,
        ensures
            n == value_size(self.value_type) * self.x_dim * self.y_dim,
    {
        let s = self.value_type.get_size();
        let x = self.x_dim as usize;
        let y = self.y_dim as usize;
        assert(s * x <= s * x * y || y == 0) by (nonlinear_arith)
            requires
                y >= 0,
                s >= 0,
                x >= 0,
        ;
        if y == 0 {
            assert(s * x * y == 0) by (nonlinear_arith)
                requires
                    y == 0,
            ;
            return 0;
        }
        s * x * y
    }

    pub fn is_typedef(&self) -> (b: bool)
        ensures
            b == (self.value_type is TypeDef),
    {
        self.value_type.is_typedef()
    }

    pub fn get_mc_support_data(&self) -> (m: &McSupportData)
        ensures
            *m == self.mc_support_data,
    {
        &self.mc_support_data
    }

    pub fn get_object_type(&self) -> (t: McObjectType)
        ensures
            t == self.mc_support_data.object_type,
    {
        self.mc_support_data.object_type
    }

    pub fn is_calibration_object(&self) -> (b: bool)
        ensures
            b == (self.mc_support_data.object_type != McObjectType::Measurement),
    {
        self.mc_support_data.is_calibration_object()
    }

    pub fn is_measurement_object(&self) -> (b: bool)
        ensures
            b == (self.mc_support_data.object_type == McObjectType::Measurement),
    {
        self.mc_support_data.is_measurement_object()
    }

    pub fn is_axis(&self) -> (b: bool)
        ensures
            b == (self.mc_support_data.object_type == McObjectType::Axis),
    {
        self.mc_support_data.is_axis()
    }

    pub fn is_characteristic(&self) -> (b: bool)
        ensures
            b == (self.mc_support_data.object_type == McObjectType::Characteristic),
    {
        self.mc_support_data.is_characteristic()
    }

    pub fn get_unit(&self) -> (s: &'static str)
        ensures
            s@ == self.mc_support_data.unit@,
    {
        self.mc_support_data.get_unit()
    }

    pub fn get_comment(&self) -> (s: &'static str)
        ensures
            s@ == self.mc_support_data.comment@,
    {
        self.mc_support_data.get_comment()
    }

    pub fn get_x_axis_ref(&self) -> (r: Option<McIdentifier>)
        ensures
            r == self.mc_support_data.x_axis_ref,
    {
        self.mc_support_data.x_axis_ref
    }

    pub fn get_y_axis_ref(&self) -> (r: Option<McIdentifier>)
        ensures
            r == self.mc_support_data.y_axis_ref,
    {
        self.mc_support_data.y_axis_ref
    }

    pub fn get_x_axis_conv(&self) -> (r: Option<McIdentifier>)
        ensures
            r == self.mc_support_data.x_axis_conv,
    {
        self.mc_support_data.x_axis_conv
    }

    pub fn get_y_axis_conv(&self) -> (r: Option<McIdentifier>)
        ensures
            r == self.mc_support_data.y_axis_conv,
    {
        self.mc_support_data.y_axis_conv
    }
}

/// A2L object sub type of a characteristic or axis
pub open spec fn characteristic_subtype(d: McDimType) -> Seq<char> {
    let m = d.mc_support_data;
    if m.object_type == McObjectType::Axis {
        "AXIS_PTS"@
    } else if d.x_dim > 1 && m.x_axis_ref is None && m.y_axis_ref is None && m.x_axis_conv is None
        && m.y_axis_conv is None {
        "VAL_BLK"@
    } else if d.x_dim > 1 && d.y_dim > 1 {
        "MAP"@
    } else if d.x_dim > 1 || d.y_dim > 1 {
        "CURVE"@
    } else {
        "VALUE"@
    }
}

/// Get the A2L object sub type of a characteristic or axis
pub fn get_characteristic_subtype_str(dim_type: &McDimType) -> (s: &'static str)
    requires
        dim_type.mc_support_data.object_type == McObjectType::Axis
            || dim_type.mc_support_data.object_type == McObjectType::Characteristic,
    ensures
        s@ == characteristic_subtype(*dim_type),
{
    let m = &dim_type.mc_support_data;
    if m.object_type == McObjectType::Axis {
        "AXIS_PTS"
    } else if dim_type.x_dim > 1 && m.x_axis_ref.is_none() && m.y_axis_ref.is_none()
        && m.x_axis_conv.is_none() && m.y_axis_conv.is_none() {
        "VAL_BLK"
    } else if dim_type.x_dim > 1 && dim_type.y_dim > 1 {
        "MAP"
    } else if dim_type.x_dim > 1 || dim_type.y_dim > 1 {
        "CURVE"
    } else {
        "VALUE"
    }
}

} // verus!
