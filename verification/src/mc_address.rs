// Addressing of measurement and calibration objects
//  McAddrMode - addressing mode
//  McAddress - information needed to access data instances

use vstd::prelude::*;

use crate::mc_calseg::{McCalibrationSegment, McCalibrationSegmentList};
use crate::mc_text::McIdentifier;

verus! {

//-------------------------------------------------------------------------------------------------
// Address extensions of the XCP protocol

/// Calibration segment relative addressing (index | 0x8000 in the high word)
pub const XCP_ADDR_EXT_SEG: u8 = 0;

/// Absolute addressing
pub const XCP_ADDR_EXT_ABS: u8 = 1;

/// Event relative addressing (event in the high word, offset to the event base in the low word)
pub const XCP_ADDR_EXT_DYN: u8 = 2;

/// Undefined address extension
pub const XCP_ADDR_EXT_UNDEF: u8 = 0xFF;

/// Undefined address offset
pub const XCP_ADDR_OFFSET_UNDEF: i32 = -2147483648i32;

//-------------------------------------------------------------------------------------------------
// Address Mode Enum

/// Address modes for accessing measurement and calibration data
#[derive(Debug, Copy, Clone, PartialEq, Eq, Structural)]
pub enum McAddrMode {
    /// Calibration segment relative addressing
    Cal,
    /// Absolute addressing
    Abs,
    /// Dynamic addressing (event relative addressing, async access)
    Dyn,
    /// Generic A2L address
    A2l,
    /// A2L address with event association
    A2lEvent,
    /// Undefined addressing mode
    Undef,
}

/// Numeric code of an addressing mode
pub open spec fn addr_mode_code(m: McAddrMode) -> u8 {
    match m {
        McAddrMode::Cal => 0,
        McAddrMode::Abs => 1,
        McAddrMode::Dyn => 2,
        McAddrMode::A2l => 0xA0,
        McAddrMode::A2lEvent => 0xA1,
        McAddrMode::Undef => 0xFF,
    }
}

impl Default for McAddrMode {
    fn default() -> (m: Self)
        ensures
            m == McAddrMode::Cal,
    {
        McAddrMode::Cal
    }
}

impl McAddrMode {
    /// Segment relative addressing mode
    pub fn is_segment_relative(&self) -> (b: bool)
        ensures
            b == (*self == McAddrMode::Cal),
    {
        *self == McAddrMode::Cal
    }

    /// Event relative addressing mode
    pub fn is_event_relative(&self) -> (b: bool)
        ensures
            b == (*self == McAddrMode::Dyn),
    {
        *self == McAddrMode::Dyn
    }

    /// Address taken from an A2L file
    pub fn is_a2l(&self) -> (b: bool)
        ensures
            b == (*self == McAddrMode::A2l || *self == McAddrMode::A2lEvent),
    {
        *self == McAddrMode::A2l || *self == McAddrMode::A2lEvent
    }

    /// Numeric code of the addressing mode
    pub fn as_u8(&self) -> (c: u8)
        ensures
            c == addr_mode_code(*self),
    {
        match self {
            McAddrMode::Cal => 0,
            McAddrMode::Abs => 1,
            McAddrMode::Dyn => 2,
            McAddrMode::A2l => 0xA0,
            McAddrMode::A2lEvent => 0xA1,
            McAddrMode::Undef => 0xFF,
        }
    }
}

/// Different addressing modes have different codes
pub proof fn lemma_addr_mode_code_injective(a: McAddrMode, b: McAddrMode)
    ensures
        addr_mode_code(a) == addr_mode_code(b) <==> a == b,
{
}

//-------------------------------------------------------------------------------------------------
// A2L address arithmetic

/// Address of a calibration segment: index | 0x8000 in the high word
pub open spec fn calseg_base_addr(calseg_index: u16) -> u32 {
    let hi = if calseg_index >= 0x8000 {
        calseg_index as int
    } else {
        calseg_index + 0x8000
    };
    (hi * 0x10000) as u32
}

/// Address of an event relative object: event id in the high word, offset in the low word
pub open spec fn dyn_addr(event_id: u16, offset: i16) -> u32 {
    let lo = if offset < 0 {
        offset + 0x10000
    } else {
        offset as int
    };
    (event_id * 0x10000 + lo) as u32
}

/// The address wrapped into 32 bits
pub open spec fn wrap_u32(x: int) -> u32 {
    (x % 0x1_0000_0000) as u32
}

//-------------------------------------------------------------------------------------------------
// McAddress

/// The addressing information of an McAddress
pub struct McAddressView {
    pub calseg_name: Option<Seq<char>>,
    pub event_id: Option<u16>,
    pub addr_offset: i32,
    pub addr_mode: McAddrMode,
    pub a2l_addr: u32,
    pub a2l_addr_ext: u8,
}

/// Information needed to access data instances
#[derive(Debug, Copy, Clone)]
pub struct McAddress {
    calseg_name: Option<McIdentifier>,  // Name of the calibration segment of a calibration object
    event_id: Option<u16>,  // Event id of a measurement signal
    addr_offset: i32,  // Offset relative to the calibration segment or to the event base address
    addr_mode: McAddrMode,  // Addressing mode
    a2l_addr: u32,  // XCP address, when taken from a third party A2L file
    a2l_addr_ext: u8,  // XCP address extension
}

impl View for McAddress {
    type V = McAddressView;

    closed spec fn view(&self) -> McAddressView {
        McAddressView {
            calseg_name: match self.calseg_name {
                Some(n) => Some(n@),
                None => None,
            },
            event_id: self.event_id,
            addr_offset: self.addr_offset,
            addr_mode: self.addr_mode,
            a2l_addr: self.a2l_addr,
            a2l_addr_ext: self.a2l_addr_ext,
        }
    }
}

/// Addressing information of a dynamic event relative address
pub open spec fn event_dyn_view(index: u8, event_id: u16, addr_offset: i16) -> McAddressView {
    McAddressView {
        calseg_name: None,
        event_id: Some(event_id),
        addr_offset: addr_offset as i32,
        addr_mode: McAddrMode::Dyn,
        a2l_addr: 0,
        a2l_addr_ext: (XCP_ADDR_EXT_DYN + index) as u8,
    }
}

impl McAddress {
    /// Every constructor but `default` gives a segment relative address a segment name
    /// and an event relative address an event
    pub open spec fn wf(&self) -> bool {
        &&& (self@.addr_mode == McAddrMode::Cal ==> self@.calseg_name is Some)
        &&& (self@.addr_mode == McAddrMode::Dyn ==> self@.event_id is Some)
    }

    /// Calibration segment relative address
    pub fn new_calseg_rel(calseg_name: McIdentifier, addr_offset: i32) -> (a: Self)
        ensures
            a@ == (McAddressView {
                calseg_name: Some(calseg_name@),
                event_id: None,
                addr_offset,
                addr_mode: McAddrMode::Cal,
                a2l_addr: 0,
                a2l_addr_ext: XCP_ADDR_EXT_SEG,
            }),
            a.wf(),
    {
        McAddress {
            calseg_name: Some(calseg_name),
            event_id: None,
            addr_offset,
            addr_mode: McAddrMode::Cal,
            a2l_addr: 0,
            a2l_addr_ext: XCP_ADDR_EXT_SEG,
        }
    }

    /// Absolute address associated with an event
    pub fn new_event_abs(event_id: u16, addr_offset: i32) -> (a: Self)
        ensures
            a@ == (McAddressView {
                calseg_name: None,
                event_id: Some(event_id),
                addr_offset,
                addr_mode: McAddrMode::Abs,
                a2l_addr: 0,
                a2l_addr_ext: XCP_ADDR_EXT_ABS,
            }),
            a.wf(),
    {
        McAddress {
            calseg_name: None,
            event_id: Some(event_id),
            addr_offset,
            addr_mode: McAddrMode::Abs,
            a2l_addr: 0,
            a2l_addr_ext: XCP_ADDR_EXT_ABS,
        }
    }

    /// Dynamic event relative address in the address space XCP_ADDR_EXT_DYN + index
    pub fn new_event_dyn(index: u8, event_id: u16, addr_offset: i16) -> (a: Self)
        requires
            index <= 0xFF - XCP_ADDR_EXT_DYN,
        ensures
            a@ == event_dyn_view(index, event_id, addr_offset),
            a.wf(),
    {
        McAddress {
            calseg_name: None,
            event_id: Some(event_id),
            addr_offset: addr_offset as i32,
            addr_mode: McAddrMode::Dyn,
            a2l_addr: 0,
            a2l_addr_ext: XCP_ADDR_EXT_DYN + index,
        }
    }

    /// Generic address from an A2L file
    pub fn new_a2l(a2l_addr: u32, a2l_addr_ext: u8) -> (a: Self)
        ensures
            a@ == (McAddressView {
                calseg_name: None,
                event_id: None,
                addr_offset: XCP_ADDR_OFFSET_UNDEF,
                addr_mode: McAddrMode::A2l,
                a2l_addr,
                a2l_addr_ext,
            }),
            a.wf(),
    {
        McAddress {
            calseg_name: None,
            event_id: None,
            addr_offset: XCP_ADDR_OFFSET_UNDEF,
            addr_mode: McAddrMode::A2l,
            a2l_addr,
            a2l_addr_ext,
        }
    }

    /// Generic address from an A2L file with an XCP event in IF_DATA
    pub fn new_a2l_with_event(event_id: u16, a2l_addr: u32, a2l_addr_ext: u8) -> (a: Self)
        ensures
            a@ == (McAddressView {
                calseg_name: None,
                event_id: Some(event_id),
                addr_offset: 0,
                addr_mode: McAddrMode::A2lEvent,
                a2l_addr,
                a2l_addr_ext,
            }),
            a.wf(),
    {
        McAddress {
            calseg_name: None,
            event_id: Some(event_id),
            addr_offset: 0,
            addr_mode: McAddrMode::A2lEvent,
            a2l_addr,
            a2l_addr_ext,
        }
    }

    pub fn get_addr_mode(&self) -> (m: McAddrMode)
        ensures
            m == self@.addr_mode,
    {
        self.addr_mode
    }

    pub fn get_a2l_addr_ext(&self) -> (e: u8)
        ensures
            e == self@.a2l_addr_ext,
    {
        self.a2l_addr_ext
    }

    /// Address mode is segment relative
    pub fn is_segment_relative(&self) -> (b: bool)
        requires
            self.wf(),
        ensures
            b == (self@.addr_mode == McAddrMode::Cal),
    {
        self.addr_mode.is_segment_relative()
    }

    /// Address mode is event relative
    pub fn is_event_relative(&self) -> (b: bool)
        requires
            self.wf(),
        ensures
            b == (self@.addr_mode == McAddrMode::Dyn),
    {
        self.addr_mode.is_event_relative()
    }

    /// Name of the calibration segment of a calibration object
    pub fn get_calseg_name(&self) -> (n: Option<McIdentifier>)
        ensures
            match n {
                Some(x) => self@.calseg_name == Some(x@),
                None => self@.calseg_name is None,
            },
    {
        self.calseg_name
    }

    /// Event id of the event associated with a measurement signal
    pub fn get_event_id(&self) -> (e: Option<u16>)
        ensures
            e == self@.event_id,
    {
        self.event_id
    }

    /// Event id, 0xFFFF when there is none (sorts after all events)
    pub fn get_event_id_unchecked(&self) -> (e: u16)
        ensures
            e == match self@.event_id {
                Some(x) => x,
                None => 0xFFFFu16,
            },
    {
        match self.event_id {
            Some(e) => e,
            None => 0xFFFF,
        }
    }

    /// Relative address offset to the event or calibration segment
    /// Only segment and event relative addresses have one
    pub fn get_addr_offset(&self) -> (o: i32)
        requires
            self@.addr_mode == McAddrMode::Cal || self@.addr_mode == McAddrMode::Dyn,
        ensures
            o == self@.addr_offset,
    {
        self.addr_offset
    }

    /// The offset field, whatever the addressing mode
    pub(crate) fn offset_field(&self) -> (o: i32)
        ensures
            o == self@.addr_offset,
    {
        self.addr_offset
    }

    /// Add an offset to an address
    /// Segment, event relative and absolute addresses move their offset, A2L addresses their
    /// address, which wraps around in 32 bits
    pub fn add_addr_offset(&mut self, offset: i32)
        requires
            old(self)@.addr_mode != McAddrMode::Undef,
            old(self)@.addr_mode == McAddrMode::Cal || old(self)@.addr_mode == McAddrMode::Dyn
                || old(self)@.addr_mode == McAddrMode::Abs ==> i32::MIN <= old(self)@.addr_offset
                + offset <= i32::MAX,
        ensures
            old(self)@.addr_mode == McAddrMode::A2l || old(self)@.addr_mode == McAddrMode::A2lEvent
                ==> final(self)@ == (McAddressView {
                a2l_addr: wrap_u32(old(self)@.a2l_addr + offset),
                ..old(self)@
            }),
            !(old(self)@.addr_mode == McAddrMode::A2l || old(self)@.addr_mode
                == McAddrMode::A2lEvent) ==> final(self)@ == (McAddressView {
                addr_offset: (old(self)@.addr_offset + offset) as i32,
                ..old(self)@
            }),
            final(self).wf() == old(self).wf(),
    {
        match self.addr_mode {
            McAddrMode::A2l | McAddrMode::A2lEvent => {
                let sum: i64 = self.a2l_addr as i64 + offset as i64;
                let wrapped: i64 = if sum < 0 {
                    sum + 0x1_0000_0000i64
                } else if sum >= 0x1_0000_0000i64 {
                    sum - 0x1_0000_0000i64
                } else {
                    sum
                };
                assert(wrapped == (self.a2l_addr + offset) % 0x1_0000_0000);
                self.a2l_addr = wrapped as u32;
            },
            _ => {
                self.addr_offset = self.addr_offset + offset;
            },
        }
    }

    /// A2L address of an absolute address
    fn get_abs_ext_addr(offset: u32) -> (r: (u8, u32))
        ensures
            r == (XCP_ADDR_EXT_ABS, offset),
    {
        (XCP_ADDR_EXT_ABS, offset)
    }

    /// A2L address of an event relative address: event id in the high word, offset in the low word
    pub fn get_dyn_ext_addr(addr_ext: u8, event_id: u16, offset: i16) -> (r: (u8, u32))
        requires
            XCP_ADDR_EXT_DYN <= addr_ext < XCP_ADDR_EXT_DYN + 16,
        ensures
            r == (addr_ext, dyn_addr(event_id, offset)),
    {
        let lo: u32 = if offset < 0 {
            (offset as i32 + 0x10000) as u32
        } else {
            offset as u32
        };
        (addr_ext, (event_id as u32) * 0x10000 + lo)
    }

    /// A2L address (ext, addr) of a calibration segment: index | 0x8000 in the high word
    pub fn get_calseg_ext_addr_base(calseg_index: u16) -> (r: (u8, u32))
        ensures
            r == (XCP_ADDR_EXT_SEG, calseg_base_addr(calseg_index)),
    {
        let hi: u32 = if calseg_index >= 0x8000 {
            calseg_index as u32
        } else {
            calseg_index as u32 + 0x8000
        };
        (XCP_ADDR_EXT_SEG, hi * 0x10000)
    }

    /// A2L address (ext, addr) of a calibration value at an offset in a calibration segment
    pub fn get_calseg_ext_addr(calseg_index: u16, offset: u16) -> (r: (u8, u32))
        ensures
            r == (XCP_ADDR_EXT_SEG, (calseg_base_addr(calseg_index) + offset) as u32),
            calseg_base_addr(calseg_index) + offset <= u32::MAX,
    {
        let (addr_ext, addr) = McAddress::get_calseg_ext_addr_base(calseg_index);
        (addr_ext, addr + offset as u32)
    }

    /// Address extension and address for A2L generation and the XCP protocol
    /// Segment relative addresses take the index of their segment from the list
    /// (the first segment of that name)
    pub fn get_a2l_addr(&self, cal_seg_list: &McCalibrationSegmentList) -> (r: (u8, u32))
        requires
            self.wf(),
            self@.addr_mode != McAddrMode::Undef,
            self@.addr_mode == McAddrMode::Dyn ==> XCP_ADDR_EXT_DYN <= self@.a2l_addr_ext
                < XCP_ADDR_EXT_DYN + 16 && i16::MIN <= self@.addr_offset <= i16::MAX,
            self@.addr_mode == McAddrMode::Abs ==> self@.addr_offset >= 0,
            self@.addr_mode == McAddrMode::Cal ==> 0 <= self@.addr_offset <= u16::MAX && exists|
                i: int|
                0 <= i < cal_seg_list@.len() && (#[trigger] cal_seg_list@[i]).name@
                    == self@.calseg_name->0,
        ensures
            self@.addr_mode == McAddrMode::Dyn ==> r == (
                self@.a2l_addr_ext,
                dyn_addr(self@.event_id->0, self@.addr_offset as i16),
            ),
            self@.addr_mode == McAddrMode::Abs ==> r == (XCP_ADDR_EXT_ABS, self@.addr_offset as u32),
            self@.addr_mode == McAddrMode::Cal ==> exists|i: int|
                0 <= i < cal_seg_list@.len() && (#[trigger] cal_seg_list@[i]).name@
                    == self@.calseg_name->0 && (forall|j: int|
                    0 <= j < i ==> (#[trigger] cal_seg_list@[j]).name@ != self@.calseg_name->0)
                    && r == (
                    XCP_ADDR_EXT_SEG,
                    (calseg_base_addr(cal_seg_list@[i].index) + self@.addr_offset) as u32,
                ),
            self@.addr_mode == McAddrMode::A2l || self@.addr_mode == McAddrMode::A2lEvent ==> r == (
                self@.a2l_addr_ext,
                self@.a2l_addr,
            ),
            r == a2l_addr_of(self@, cal_seg_list@),
    {
        proof {
            lemma_segment_pos(cal_seg_list@, self@.calseg_name->0);
        }
        match self.addr_mode {
            McAddrMode::Dyn => {
                let event_id = match self.event_id {
                    Some(e) => e,
                    None => 0,
                };
                McAddress::get_dyn_ext_addr(self.a2l_addr_ext, event_id, self.addr_offset as i16)
            },
            McAddrMode::Abs => McAddress::get_abs_ext_addr(self.addr_offset as u32),
            McAddrMode::Cal => {
                let name = match self.calseg_name {
                    Some(n) => n,
                    None => McIdentifier::empty(),
                };
                let index = match cal_seg_list.get_cal_seg_index(name.as_str()) {
                    Some(i) => i,
                    None => 0,
                };
                McAddress::get_calseg_ext_addr(index, self.addr_offset as u16)
            },
            _ => (self.a2l_addr_ext, self.a2l_addr),
        }
    }

    /// Raw A2L address (ext, addr), as imported from a third party A2L file
    pub fn get_raw_a2l_addr(&self) -> (r: (u8, u32))
        requires
            self@.addr_mode == McAddrMode::A2l || self@.addr_mode == McAddrMode::A2lEvent,
        ensures
            r == (self@.a2l_addr_ext, self@.a2l_addr),
    {
        (self.a2l_addr_ext, self.a2l_addr)
    }

    /// Set the A2L address and address extension of an A2L address
    pub fn set_raw_a2l_addr(&mut self, a2l_addr_ext: u8, a2l_addr: u32)
        requires
            old(self)@.addr_mode == McAddrMode::A2l || old(self)@.addr_mode == McAddrMode::A2lEvent,
        ensures
            final(self)@ == (McAddressView { a2l_addr, a2l_addr_ext, ..old(self)@ }),
    {
        self.a2l_addr = a2l_addr;
        self.a2l_addr_ext = a2l_addr_ext;
    }

    /// Equality of the addressing information, segment names compared by their text
    pub fn same_as(&self, other: &McAddress) -> (b: bool)
        ensures
            b == (self@ == other@),
    {
        let names_equal = match (&self.calseg_name, &other.calseg_name) {
            (Some(a), Some(b)) => a.eq(b),
            (None, None) => true,
            _ => false,
        };
        names_equal && self.event_id == other.event_id && self.addr_offset == other.addr_offset
            && self.addr_mode == other.addr_mode && self.a2l_addr == other.a2l_addr
            && self.a2l_addr_ext == other.a2l_addr_ext
    }
}

impl Default for McAddress {
    fn default() -> (a: Self)
        ensures
            a@ == (McAddressView {
                calseg_name: None,
                event_id: None,
                addr_offset: XCP_ADDR_OFFSET_UNDEF,
                addr_mode: McAddrMode::Cal,
                a2l_addr: 0,
                a2l_addr_ext: 0,
            }),
    {
        McAddress {
            calseg_name: None,
            event_id: None,
            addr_offset: XCP_ADDR_OFFSET_UNDEF,
            addr_mode: McAddrMode::Cal,
            a2l_addr: 0,
            a2l_addr_ext: 0,
        }
    }
}

//-------------------------------------------------------------------------------------------------
// Laws of the A2L address arithmetic

/// The calibration segment index and offset can be read back from an A2L address:
/// index in bits 16..31 without bit 31, offset in the low word
pub proof fn lemma_calseg_addr_decodes(calseg_index: u16, offset: u16)
    requires
        calseg_index < 0x8000,
    ensures
        calseg_base_addr(calseg_index) + offset <= u32::MAX,
        ((calseg_base_addr(calseg_index) + offset) as u32 / 0x10000) % 0x8000 == calseg_index,
        ((calseg_base_addr(calseg_index) + offset) as u32 / 0x10000) >= 0x8000,
        (calseg_base_addr(calseg_index) + offset) as u32 % 0x10000 == offset,
{
    let a = (calseg_index + 0x8000) * 0x10000 + offset;
    assert(calseg_base_addr(calseg_index) == (calseg_index + 0x8000) * 0x10000);
    assert(a / 0x10000 == calseg_index + 0x8000) by (nonlinear_arith)
        requires
            a == (calseg_index + 0x8000) * 0x10000 + offset,
            0 <= offset < 0x10000,
    ;
    assert(a % 0x10000 == offset) by (nonlinear_arith)
        requires
            a == (calseg_index + 0x8000) * 0x10000 + offset,
            0 <= offset < 0x10000,
    ;
}

/// The event id and the offset can be read back from an event relative A2L address
pub proof fn lemma_dyn_addr_decodes(event_id: u16, offset: i16)
    ensures
        dyn_addr(event_id, offset) / 0x10000 == event_id,
        (if dyn_addr(event_id, offset) % 0x10000 >= 0x8000 {
            dyn_addr(event_id, offset) % 0x10000 - 0x10000
        } else {
            (dyn_addr(event_id, offset) % 0x10000) as int
        }) == offset,
{
    let lo: int = if offset < 0 {
        offset + 0x10000
    } else {
        offset as int
    };
    let a = event_id * 0x10000 + lo;
    assert(0 <= lo < 0x10000);
    assert(a / 0x10000 == event_id) by (nonlinear_arith)
        requires
            a == event_id * 0x10000 + lo,
            0 <= lo < 0x10000,
    ;
    assert(a % 0x10000 == lo) by (nonlinear_arith)
        requires
            a == event_id * 0x10000 + lo,
            0 <= lo < 0x10000,
    ;
}

/// Adding two offsets one after the other adds their sum
pub proof fn lemma_wrap_u32_add(a: u32, x: int, y: int)
    ensures
        wrap_u32(wrap_u32(a + x) + y) == wrap_u32(a + x + y),
{
    let m = 0x1_0000_0000int;
    let b = (a + x) % m;
    assert((b + y) % m == (a + x + y) % m) by {
        vstd::arithmetic::div_mod::lemma_add_mod_noop(a + x, y, m);
        vstd::arithmetic::div_mod::lemma_mod_twice(y, m);
        vstd::arithmetic::div_mod::lemma_add_mod_noop(b, y, m);
        vstd::arithmetic::div_mod::lemma_mod_twice(a + x, m);
    }
}

/// Position of the first segment with the given name, or -1
pub open spec fn segment_pos(s: Seq<McCalibrationSegment>, name: Seq<char>) -> int
    decreases s.len(),
{
    if s.len() == 0 {
        -1
    } else if s[0].name@ == name {
        0
    } else {
        let r = segment_pos(s.drop_first(), name);
        if r < 0 {
            -1
        } else {
            r + 1
        }
    }
}

/// The position of a segment name holds that name, and no earlier position does
pub proof fn lemma_segment_pos(s: Seq<McCalibrationSegment>, name: Seq<char>)
    ensures
        -1 <= segment_pos(s, name) < s.len(),
        segment_pos(s, name) >= 0 ==> s[segment_pos(s, name)].name@ == name,
        forall|j: int|
            0 <= j < s.len() && (segment_pos(s, name) < 0 || j < segment_pos(s, name))
                ==> s[j].name@ != name,
    decreases s.len(),
{
    if s.len() > 0 && s[0].name@ != name {
        lemma_segment_pos(s.drop_first(), name);
        assert forall|j: int|
            0 <= j < s.len() && (segment_pos(s, name) < 0 || j < segment_pos(s, name)) implies s[j].name@
            != name by {
            if j > 0 {
                assert(s[j] == s.drop_first()[j - 1]);
            }
        }
    }
}

/// Address extension and address of an address for A2L generation and the XCP protocol
pub open spec fn a2l_addr_of(a: McAddressView, segs: Seq<McCalibrationSegment>) -> (u8, u32) {
    match a.addr_mode {
        McAddrMode::Dyn => (a.a2l_addr_ext, dyn_addr(a.event_id->0, a.addr_offset as i16)),
        McAddrMode::Abs => (XCP_ADDR_EXT_ABS, a.addr_offset as u32),
        McAddrMode::Cal => (
            XCP_ADDR_EXT_SEG,
            (calseg_base_addr(segs[segment_pos(segs, a.calseg_name->0)].index) + a.addr_offset) as u32,
        ),
        _ => (a.a2l_addr_ext, a.a2l_addr),
    }
}

//-------------------------------------------------------------------------------------------------
// Order of addresses

/// -1, 0 or 1 as a is below, equal to or above b
pub open spec fn sign_of(a: int, b: int) -> int {
    if a < b {
        -1
    } else if a == b {
        0
    } else {
        1
    }
}

/// Addresses ordered by addressing mode, then A2L addresses by extension and address, others by
/// offset
pub open spec fn address_order(a: McAddressView, b: McAddressView) -> int {
    if a.addr_mode != b.addr_mode {
        sign_of(addr_mode_code(a.addr_mode) as int, addr_mode_code(b.addr_mode) as int)
    } else if a.addr_mode == McAddrMode::A2l || a.addr_mode == McAddrMode::A2lEvent {
        if a.a2l_addr_ext != b.a2l_addr_ext {
            sign_of(a.a2l_addr_ext as int, b.a2l_addr_ext as int)
        } else {
            sign_of(a.a2l_addr as int, b.a2l_addr as int)
        }
    } else {
        sign_of(a.addr_offset as int, b.addr_offset as int)
    }
}

impl McAddress {
    /// Order of addresses: -1, 0 or 1 as self stands before, with or after other
    pub fn compare(&self, other: &McAddress) -> (r: i8)
        ensures
            r as int == address_order(self@, other@),
    {
        let mode1 = self.addr_mode.as_u8();
        let mode2 = other.addr_mode.as_u8();
        proof {
            lemma_addr_mode_code_injective(self.addr_mode, other.addr_mode);
        }
        if mode1 != mode2 {
            if mode1 < mode2 {
                -1
            } else {
                1
            }
        } else if self.addr_mode.is_a2l() {
            if self.a2l_addr_ext != other.a2l_addr_ext {
                if self.a2l_addr_ext < other.a2l_addr_ext {
                    -1
                } else {
                    1
                }
            } else if self.a2l_addr != other.a2l_addr {
                if self.a2l_addr < other.a2l_addr {
                    -1
                } else {
                    1
                }
            } else {
                0
            }
        } else if self.addr_offset < other.addr_offset {
            -1
        } else if self.addr_offset == other.addr_offset {
            0
        } else {
            1
        }
    }
}

/// The order of addresses is a total preorder: reversing the arguments reverses it, and it is
/// transitive
pub proof fn lemma_address_order(a: McAddressView, b: McAddressView, c: McAddressView)
    ensures
        address_order(a, b) == -address_order(b, a),
        address_order(a, a) == 0,
        address_order(a, b) <= 0 && address_order(b, c) <= 0 ==> address_order(a, c) <= 0,
{
    lemma_addr_mode_code_injective(a.addr_mode, b.addr_mode);
    lemma_addr_mode_code_injective(b.addr_mode, c.addr_mode);
    lemma_addr_mode_code_injective(a.addr_mode, c.addr_mode);
}

} // verus!
