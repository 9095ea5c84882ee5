// Basic data types of registry variables and the event list of the registry
//  RegistryDataType, RegistryDataTypeTrait, RegistryEvent, RegistryEventList

use vstd::prelude::*;

use crate::strings::{str_eq, str_to_chars, chars_to_string};
use crate::daemon_config::{find_char_in, first_pos};
use crate::strings::{trim, trim_bounds};
use crate::xcp::XcpEvent;

verus! {

//-------------------------------------------------------------------------------------------------
// Datatype

/// Basic registry data type (enum with ASAM naming convention)
#[derive(Debug, Clone, Copy, PartialEq, Eq, Structural)]
pub enum RegistryDataType {
    Ubyte,
    Uword,
    Ulong,
    AUint64,
    Sbyte,
    Sword,
    Slong,
    AInt64,
    Float32Ieee,
    Float64Ieee,
    Blob,
    Unknown,
}

/// The data type of a Rust basic type name
pub open spec fn basic_type_of(s: Seq<char>) -> RegistryDataType {
    if s == "bool"@ || s == "u8"@ {
        RegistryDataType::Ubyte
    } else if s == "u16"@ {
        RegistryDataType::Uword
    } else if s == "u32"@ {
        RegistryDataType::Ulong
    } else if s == "u64"@ || s == "usize"@ {
        RegistryDataType::AUint64
    } else if s == "i8"@ {
        RegistryDataType::Sbyte
    } else if s == "i16"@ {
        RegistryDataType::Sword
    } else if s == "i32"@ {
        RegistryDataType::Slong
    } else if s == "i64"@ || s == "isize"@ {
        RegistryDataType::AInt64
    } else if s == "f32"@ {
        RegistryDataType::Float32Ieee
    } else if s == "f64"@ {
        RegistryDataType::Float64Ieee
    } else {
        RegistryDataType::Unknown
    }
}

/// Drops all leading c
pub open spec fn trim_start_char(s: Seq<char>, c: char) -> Seq<char>
    decreases s.len(),
{
    if s.len() > 0 && s[0] == c {
        trim_start_char(s.drop_first(), c)
    } else {
        s
    }
}

/// Drops all trailing c
pub open spec fn trim_end_char(s: Seq<char>, c: char) -> Seq<char>
    decreases s.len(),
{
    if s.len() > 0 && s.last() == c {
        trim_end_char(s.drop_last(), c)
    } else {
        s
    }
}

/// Drops leading '[' and trailing ']'
pub open spec fn strip_brackets(s: Seq<char>) -> Seq<char> {
    trim_end_char(trim_start_char(s, '['), ']')
}

/// The element type name of an array type name "[[T; N]; M]": the text before the first ';'
/// without brackets, trimmed
pub open spec fn array_base_type(s: Seq<char>) -> Seq<char> {
    let a = strip_brackets(s);
    let i = first_pos(a, ';');
    let inner = trim(if i < 0 {
        a
    } else {
        a.take(i)
    });
    strip_brackets(inner)
}

/// The data type of a Rust type name: a basic type, or an array of a basic type
pub open spec fn rust_type_of(s: Seq<char>) -> RegistryDataType {
    if basic_type_of(s) != RegistryDataType::Unknown {
        basic_type_of(s)
    } else {
        basic_type_of(array_base_type(s))
    }
}

/// Bounds of s[from..to] without leading '[' and trailing ']'
fn strip_brackets_bounds(s: &[char], from: usize, to: usize) -> (r: (usize, usize))
    requires
        from <= to <= s@.len(),
    ensures
        from <= r.0 <= r.1 <= to,
        strip_brackets(s@.subrange(from as int, to as int)) == s@.subrange(r.0 as int, r.1 as int),
{
    let mut a = from;
    while a < to && s[a] == '['
        invariant
            from <= a <= to <= s@.len(),
            trim_start_char(s@.subrange(from as int, to as int), '[') == trim_start_char(
                s@.subrange(a as int, to as int),
                '[',
            ),
        decreases to - a,
    {
        assert(s@.subrange(a as int, to as int).drop_first() =~= s@.subrange(a + 1, to as int));
        a += 1;
    }
    let mut b = to;
    while b > a && s[b - 1] == ']'
        invariant
            from <= a <= b <= to <= s@.len(),
            trim_end_char(s@.subrange(a as int, to as int), ']') == trim_end_char(
                s@.subrange(a as int, b as int),
                ']',
            ),
        decreases b - a,
    {
        assert(s@.subrange(a as int, b as int).drop_last() =~= s@.subrange(a as int, b - 1));
        b -= 1;
    }
    (a, b)
}

impl RegistryDataType {
    /// Get data type as str
    pub fn get_type_str(&self) -> (s: &'static str)
        requires
            *self != RegistryDataType::Unknown,
        ensures
            s@ == type_str_of(*self),
    {
        match self {
            RegistryDataType::Ubyte => "UBYTE",
            RegistryDataType::Uword => "UWORD",
            RegistryDataType::Ulong => "ULONG",
            RegistryDataType::AUint64 => "A_UINT64",
            RegistryDataType::Sbyte => "SBYTE",
            RegistryDataType::Sword => "SWORD",
            RegistryDataType::Slong => "SLONG",
            RegistryDataType::AInt64 => "A_INT64",
            RegistryDataType::Float32Ieee => "FLOAT32_IEEE",
            RegistryDataType::Float64Ieee => "FLOAT64_IEEE",
            RegistryDataType::Blob => "BLOB",
            RegistryDataType::Unknown => "",
        }
    }

    /// Get data type as str for A2L deposit
    pub fn get_deposit_str(&self) -> (s: &'static str)
        requires
            *self != RegistryDataType::Unknown,
        ensures
            s@ == deposit_str_of(*self),
    {
        match self {
            RegistryDataType::Ubyte => "U8",
            RegistryDataType::Uword => "U16",
            RegistryDataType::Ulong => "U32",
            RegistryDataType::AUint64 => "U64",
            RegistryDataType::Sbyte => "S8",
            RegistryDataType::Sword => "S16",
            RegistryDataType::Slong => "S32",
            RegistryDataType::AInt64 => "S64",
            RegistryDataType::Float32Ieee => "F32",
            RegistryDataType::Float64Ieee => "F64",
            RegistryDataType::Blob => "BLOB",
            RegistryDataType::Unknown => "",
        }
    }

    /// Get data type size in bytes
    pub fn get_size(&self) -> (n: usize)
        requires
            *self != RegistryDataType::Unknown,
        ensures
            n == size_of_type(*self),
    {
        match self {
            RegistryDataType::Ubyte => 1,
            RegistryDataType::Uword => 2,
            RegistryDataType::Ulong => 4,
            RegistryDataType::AUint64 => 8,
            RegistryDataType::Sbyte => 1,
            RegistryDataType::Sword => 2,
            RegistryDataType::Slong => 4,
            RegistryDataType::AInt64 => 8,
            RegistryDataType::Float32Ieee => 4,
            RegistryDataType::Float64Ieee => 8,
            RegistryDataType::Blob => 0,
            RegistryDataType::Unknown => 0,
        }
    }

    /// Convert from Rust basic type as str
    pub fn from_rust_basic_type(s: &str) -> (t: RegistryDataType)
        ensures
            t == basic_type_of(s@),
    {
        if str_eq(s, "bool") || str_eq(s, "u8") {
            RegistryDataType::Ubyte
        } else if str_eq(s, "u16") {
            RegistryDataType::Uword
        } else if str_eq(s, "u32") {
            RegistryDataType::Ulong
        } else if str_eq(s, "u64") || str_eq(s, "usize") {
            RegistryDataType::AUint64
        } else if str_eq(s, "i8") {
            RegistryDataType::Sbyte
        } else if str_eq(s, "i16") {
            RegistryDataType::Sword
        } else if str_eq(s, "i32") {
            RegistryDataType::Slong
        } else if str_eq(s, "i64") || str_eq(s, "isize") {
            RegistryDataType::AInt64
        } else if str_eq(s, "f32") {
            RegistryDataType::Float32Ieee
        } else if str_eq(s, "f64") {
            RegistryDataType::Float64Ieee
        } else {
            RegistryDataType::Unknown
        }
    }

    /// Convert from Rust type as str: a basic type or an array of one, such as "[[f64; 4]; 8]"
    pub fn from_rust_type(s: &str) -> (t: RegistryDataType)
        ensures
            t == rust_type_of(s@),
    {
        let t = RegistryDataType::from_rust_basic_type(s);
        if t != RegistryDataType::Unknown {
            return t;
        }
        let v = str_to_chars(s);
        let n = v.len();
        assert(v@.subrange(0, n as int) =~= s@);
        let (a, b) = strip_brackets_bounds(v.as_slice(), 0, n);
        let e = match find_char_in(v.as_slice(), a, b, ';') {
            Some(j) => j,
            None => b,
        };
        proof {
            let arr = v@.subrange(a as int, b as int);
            if e < b {
                assert(arr.take(e - a) =~= v@.subrange(a as int, e as int));
            } else {
                assert(arr =~= v@.subrange(a as int, e as int));
            }
        }
        let (c, d) = trim_bounds(v.as_slice(), a, e);
        let (f, g) = strip_brackets_bounds(v.as_slice(), c, d);
        let mut base: Vec<char> = Vec::new();
        let mut i = f;
        while i < g
            invariant
                f <= i <= g <= v@.len(),
                base@ == v@.subrange(f as int, i as int),
            decreases g - i,
        {
            base.push(v[i]);
            i += 1;
            assert(base@ =~= v@.subrange(f as int, i as int));
        }
        let base_str = chars_to_string(base.as_slice());
        RegistryDataType::from_rust_basic_type(base_str.as_str())
    }
}

/// A2L name of a data type
pub open spec fn type_str_of(t: RegistryDataType) -> Seq<char> {
    match t {
        RegistryDataType::Ubyte => "UBYTE"@,
        RegistryDataType::Uword => "UWORD"@,
        RegistryDataType::Ulong => "ULONG"@,
        RegistryDataType::AUint64 => "A_UINT64"@,
        RegistryDataType::Sbyte => "SBYTE"@,
        RegistryDataType::Sword => "SWORD"@,
        RegistryDataType::Slong => "SLONG"@,
        RegistryDataType::AInt64 => "A_INT64"@,
        RegistryDataType::Float32Ieee => "FLOAT32_IEEE"@,
        RegistryDataType::Float64Ieee => "FLOAT64_IEEE"@,
        RegistryDataType::Blob => "BLOB"@,
        RegistryDataType::Unknown => ""@,
    }
}

/// A2L deposit name of a data type
pub open spec fn deposit_str_of(t: RegistryDataType) -> Seq<char> {
    match t {
        RegistryDataType::Ubyte => "U8"@,
        RegistryDataType::Uword => "U16"@,
        RegistryDataType::Ulong => "U32"@,
        RegistryDataType::AUint64 => "U64"@,
        RegistryDataType::Sbyte => "S8"@,
        RegistryDataType::Sword => "S16"@,
        RegistryDataType::Slong => "S32"@,
        RegistryDataType::AInt64 => "S64"@,
        RegistryDataType::Float32Ieee => "F32"@,
        RegistryDataType::Float64Ieee => "F64"@,
        RegistryDataType::Blob => "BLOB"@,
        RegistryDataType::Unknown => ""@,
    }
}

/// Size in bytes of a data type
pub open spec fn size_of_type(t: RegistryDataType) -> nat {
    match t {
        RegistryDataType::Ubyte | RegistryDataType::Sbyte => 1,
        RegistryDataType::Uword | RegistryDataType::Sword => 2,
        RegistryDataType::Ulong | RegistryDataType::Slong | RegistryDataType::Float32Ieee => 4,
        RegistryDataType::AUint64 | RegistryDataType::AInt64 | RegistryDataType::Float64Ieee => 8,
        RegistryDataType::Blob | RegistryDataType::Unknown => 0,
    }
}

//-------------------------------------------------------------------------------------------------
// RegistryDataTypeTrait

/// The registry data type of a Rust basic type, used by the registration macros
pub trait RegistryDataTypeTrait {
    fn get_type(&self) -> RegistryDataType;
}

impl RegistryDataTypeTrait for bool {
    fn get_type(&self) -> (t: RegistryDataType)
        ensures
            t == RegistryDataType::Ubyte,
    {
        RegistryDataType::Ubyte
    }
}

impl RegistryDataTypeTrait for i8 {
    fn get_type(&self) -> (t: RegistryDataType)
        ensures
            t == RegistryDataType::Sbyte,
    {
        RegistryDataType::Sbyte
    }
}

impl RegistryDataTypeTrait for i16 {
    fn get_type(&self) -> (t: RegistryDataType)
        ensures
            t == RegistryDataType::Sword,
    {
        RegistryDataType::Sword
    }
}

impl RegistryDataTypeTrait for i32 {
    fn get_type(&self) -> (t: RegistryDataType)
        ensures
            t == RegistryDataType::Slong,
    {
        RegistryDataType::Slong
    }
}

impl RegistryDataTypeTrait for i64 {
    fn get_type(&self) -> (t: RegistryDataType)
        ensures
            t == RegistryDataType::AInt64,
    {
        RegistryDataType::AInt64
    }
}

impl RegistryDataTypeTrait for u8 {
    fn get_type(&self) -> (t: RegistryDataType)
        ensures
            t == RegistryDataType::Ubyte,
    {
        RegistryDataType::Ubyte
    }
}

impl RegistryDataTypeTrait for u16 {
    fn get_type(&self) -> (t: RegistryDataType)
        ensures
            t == RegistryDataType::Uword,
    {
        RegistryDataType::Uword
    }
}

impl RegistryDataTypeTrait for u32 {
    fn get_type(&self) -> (t: RegistryDataType)
        ensures
            t == RegistryDataType::Ulong,
    {
        RegistryDataType::Ulong
    }
}

impl RegistryDataTypeTrait for u64 {
    fn get_type(&self) -> (t: RegistryDataType)
        ensures
            t == RegistryDataType::AUint64,
    {
        RegistryDataType::AUint64
    }
}

//----------------------------------------------------------------------------------------------
// Events

/// An event of the registry: name and XCP event
#[derive(Debug, Copy, Clone)]
pub struct RegistryEvent {
    pub name: &'static str,
    pub xcp_event: XcpEvent,
}

/// The events of the registry, in the order they were added
#[derive(Debug)]
pub struct RegistryEventList(Vec<RegistryEvent>);

impl View for RegistryEventList {
    type V = Seq<RegistryEvent>;

    closed spec fn view(&self) -> Seq<RegistryEvent> {
        self.0@
    }
}

impl RegistryEventList {
    pub fn new() -> (l: Self)
        ensures
            l@ == Seq::<RegistryEvent>::empty(),
    {
        RegistryEventList(Vec::new())
    }

    pub fn push(&mut self, event: RegistryEvent)
        ensures
            final(self)@ == old(self)@.push(event),
    {
        self.0.push(event);
    }

    pub fn len(&self) -> (n: usize)
        ensures
            n == self@.len(),
    {
        self.0.len()
    }

    /// The events, in order
    pub fn iter(&self) -> (r: &[RegistryEvent])
        ensures
            r@ == self@,
    {
        self.0.as_slice()
    }

    /// The name of the first registered event with the id of the given event (events are equal by id)
    pub fn get_name(&self, xcp_event: XcpEvent) -> (r: &'static str)
        requires
            exists|i: int| 0 <= i < self@.len() && (#[trigger] self@[i]).xcp_event@.0 == xcp_event@.0,
        ensures
            exists|i: int|
                0 <= i < self@.len() && (#[trigger] self@[i]).xcp_event@.0 == xcp_event@.0 && r
                    == self@[i].name && forall|j: int|
                    0 <= j < i ==> (#[trigger] self@[j]).xcp_event@.0 != xcp_event@.0,
    {
        let mut i: usize = 0;
        while i < self.0.len()
            invariant
                i <= self@.len(),
                exists|k: int| 0 <= k < self@.len() && (#[trigger] self@[k]).xcp_event@.0 == xcp_event@.0,
                forall|j: int| 0 <= j < i ==> (#[trigger] self@[j]).xcp_event@.0 != xcp_event@.0,
            decreases self@.len() - i,
        {
            if self.0[i].xcp_event.same_event(xcp_event) {
                return self.0[i].name;
            }
            i += 1;
        }
        proof {
            let k = choose|k: int| 0 <= k < self@.len() && (#[trigger] self@[k]).xcp_event@.0 == xcp_event@.0;
            assert(self@[k].xcp_event@.0 != xcp_event@.0);
        }
        ""
    }
}

} // verus!
