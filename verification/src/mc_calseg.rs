// Calibration segments of the registry
//  McCalibrationSegment - A2L MEMORY_SEGMENT
//  McCalibrationSegmentList

use vstd::prelude::*;

use crate::mc_address::{McAddress, XCP_ADDR_EXT_SEG, calseg_base_addr};
use crate::mc_text::McIdentifier;
use crate::registry::RegistryError;
use crate::strings::{str_eq, str_to_string};

verus! {

/// A calibration segment: name, index, A2L address extension, address and size in bytes
#[derive(Debug, Clone, Copy)]
pub struct McCalibrationSegment {
    pub name: McIdentifier,
    pub index: u16,
    pub addr_ext: u8,
    pub addr: u32,
    pub size: u32,
}

impl McCalibrationSegment {
    pub fn new(name: McIdentifier, index: u16, addr_ext: u8, addr: u32, size: u32) -> (s: Self)
        ensures
            s == (McCalibrationSegment { name, index, addr_ext, addr, size }),
    {
        McCalibrationSegment { name, index, addr_ext, addr, size }
    }

    pub fn get_name(&self) -> (s: &'static str)
        ensures
            s@ == self.name@,
    {
        self.name.as_str()
    }
}

/// Address range [addr, addr + size) of a segment holds a
pub open spec fn segment_holds(s: McCalibrationSegment, a: u32) -> bool {
    s.addr <= a < s.addr + s.size
}

/// Calibration segments, no two with the same name
#[derive(Debug)]
pub struct McCalibrationSegmentList(Vec<McCalibrationSegment>);

impl View for McCalibrationSegmentList {
    type V = Seq<McCalibrationSegment>;

    closed spec fn view(&self) -> Seq<McCalibrationSegment> {
        self.0@
    }
}

impl McCalibrationSegmentList {
    pub fn new() -> (l: Self)
        ensures
            l@.len() == 0,
    {
        McCalibrationSegmentList(Vec::new())
    }

    pub fn len(&self) -> (n: usize)
        ensures
            n == self@.len(),
    {
        self.0.len()
    }

    pub fn is_empty(&self) -> (b: bool)
        ensures
            b == (self@.len() == 0),
    {
        self.0.len() == 0
    }

    pub fn get(&self, i: usize) -> (s: &McCalibrationSegment)
        requires
            i < self@.len(),
        ensures
            *s == self@[i as int],
    {
        &self.0[i]
    }

    /// Position of the segment with the given name
    pub fn find_position(&self, name: &str) -> (r: Option<usize>)
        ensures
            match r {
                Some(i) => i < self@.len() && self@[i as int].name@ == name@ && forall|j: int|
                    0 <= j < i ==> (#[trigger] self@[j]).name@ != name@,
                None => forall|j: int| 0 <= j < self@.len() ==> (#[trigger] self@[j]).name@ != name@,
            },
    {
        let mut i: usize = 0;
        while i < self.0.len()
            invariant
                i <= self@.len(),
                forall|j: int| 0 <= j < i ==> (#[trigger] self@[j]).name@ != name@,
            decreases self@.len() - i,
        {
            if str_eq(self.0[i].name.as_str(), name) {
                return Some(i);
            }
            i += 1;
        }
        None
    }

    /// Add a calibration segment read from an A2L file
    /// Err(Duplicate) if a segment with that name exists
    pub fn add_a2l_cal_seg(&mut self, name: McIdentifier, index: u16, addr_ext: u8, addr: u32, size: u32) -> (r:
        Result<(), RegistryError>)
        ensures
            (exists|j: int| 0 <= j < old(self)@.len() && (#[trigger] old(self)@[j]).name@ == name@)
                ==> (final(self)@ == old(self)@ && (r matches Err(RegistryError::Duplicate(s)) && s@
                == name@)),
            (forall|j: int| 0 <= j < old(self)@.len() ==> (#[trigger] old(self)@[j]).name@ != name@)
                ==> (r is Ok && final(self)@ == old(self)@.push(
                McCalibrationSegment { name, index, addr_ext, addr, size },
            )),
    {
        match self.find_position(name.as_str()) {
            Some(_) => Err(RegistryError::Duplicate(str_to_string(name.as_str()))),
            None => {
                self.0.push(McCalibrationSegment::new(name, index, addr_ext, addr, size));
                Ok(())
            },
        }
    }

    /// Add a calibration segment with its index, at the segment address of that index
    /// Err(Duplicate) if a segment of that name exists
    pub fn add_cal_seg(&mut self, name: McIdentifier, index: u16, size: u32) -> (r: Result<(), RegistryError>)
        ensures
            (exists|j: int| 0 <= j < old(self)@.len() && (#[trigger] old(self)@[j]).name@ == name@)
                ==> (final(self)@ == old(self)@ && (r matches Err(RegistryError::Duplicate(s)) && s@
                == name@)),
            (forall|j: int| 0 <= j < old(self)@.len() ==> (#[trigger] old(self)@[j]).name@ != name@)
                ==> (r is Ok && final(self)@ == old(self)@.push(
                McCalibrationSegment {
                    name,
                    index,
                    addr_ext: XCP_ADDR_EXT_SEG,
                    addr: calseg_base_addr(index),
                    size,
                },
            )),
    {
        let (addr_ext, addr) = McAddress::get_calseg_ext_addr_base(index);
        self.add_a2l_cal_seg(name, index, addr_ext, addr, size)
    }

    /// Get the index of the calibration segment with the given name
    pub fn get_cal_seg_index(&self, name: &str) -> (r: Option<u16>)
        ensures
            match r {
                Some(x) => exists|i: int|
                    0 <= i < self@.len() && (#[trigger] self@[i]).name@ == name@ && self@[i].index
                        == x && forall|j: int| 0 <= j < i ==> (#[trigger] self@[j]).name@ != name@,
                None => forall|j: int| 0 <= j < self@.len() ==> (#[trigger] self@[j]).name@ != name@,
            },
    {
        match self.find_position(name) {
            Some(i) => Some(self.0[i].index),
            None => None,
        }
    }

    /// Find the calibration segment whose address range holds addr
    pub fn find_cal_seg_by_address(&self, addr: u32) -> (r: Option<McIdentifier>)
        ensures
            match r {
                Some(n) => exists|i: int|
                    0 <= i < self@.len() && segment_holds(#[trigger] self@[i], addr) && self@[i].name
                        == n && forall|j: int|
                        0 <= j < i ==> !segment_holds(#[trigger] self@[j], addr),
                None => forall|j: int| 0 <= j < self@.len() ==> !segment_holds(#[trigger] self@[j], addr),
            },
    {
        let mut i: usize = 0;
        while i < self.0.len()
            invariant
                i <= self@.len(),
                forall|j: int| 0 <= j < i ==> !segment_holds(#[trigger] self@[j], addr),
            decreases self@.len() - i,
        {
            let s = &self.0[i];
            if s.addr <= addr && (addr as u64) < (s.addr as u64) + (s.size as u64) {
                return Some(s.name);
            }
            i += 1;
        }
        None
    }
}

} // verus!
