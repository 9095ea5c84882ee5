use std::cell::Cell;
use std::rc::Rc;

use xcp_lite::cal::{CalSegDescriptor, CalSegList, CalSegState, CalSegTrait};
use xcp_lite::mc_calseg::McCalibrationSegmentList;
use xcp_lite::mc_text::McIdentifier;
use xcp_lite::registry::RegistryError;

// A segment that records the requests it gets
struct TestSeg {
    index: Rc<Cell<usize>>,
    init_requests: Rc<Cell<u32>>,
    freeze_requests: Rc<Cell<u32>>,
    flushes: Rc<Cell<u32>>,
}

impl CalSegTrait for TestSeg {
    fn init_requested(&self) -> bool {
        self.init_requests.get() > 0
    }
    fn freeze_requested(&self) -> bool {
        self.freeze_requests.get() > 0
    }
    fn index(&self) -> usize {
        self.index.get()
    }
    fn with_init_request(&self) -> Self {
        TestSeg {
            index: Rc::new(Cell::new(self.index.get())),
            init_requests: Rc::new(Cell::new(self.init_requests.get() + 1)),
            freeze_requests: Rc::new(Cell::new(self.freeze_requests.get())),
            flushes: Rc::new(Cell::new(self.flushes.get())),
        }
    }
    fn with_freeze_request(&self) -> Self {
        TestSeg {
            index: Rc::new(Cell::new(self.index.get())),
            init_requests: Rc::new(Cell::new(self.init_requests.get())),
            freeze_requests: Rc::new(Cell::new(self.freeze_requests.get() + 1)),
            flushes: Rc::new(Cell::new(self.flushes.get())),
        }
    }
    fn with_index(&self, index: usize) -> Self {
        TestSeg {
            index: Rc::new(Cell::new(index)),
            init_requests: Rc::new(Cell::new(self.init_requests.get())),
            freeze_requests: Rc::new(Cell::new(self.freeze_requests.get())),
            flushes: Rc::new(Cell::new(self.flushes.get())),
        }
    }
    fn set_init_request(&mut self) {
        self.init_requests.set(self.init_requests.get() + 1);
    }
    fn set_freeze_request(&mut self) {
        self.freeze_requests.set(self.freeze_requests.get() + 1);
    }
    fn set_index(&mut self, index: usize) {
        self.index.set(index);
    }
    fn flush(&self) {
        self.flushes.set(self.flushes.get() + 1);
    }
}

struct Probe {
    index: Rc<Cell<usize>>,
    init_requests: Rc<Cell<u32>>,
    freeze_requests: Rc<Cell<u32>>,
    flushes: Rc<Cell<u32>>,
}

fn test_seg() -> (TestSeg, Probe) {
    let p = Probe {
        index: Rc::new(Cell::new(usize::MAX)),
        init_requests: Rc::new(Cell::new(0)),
        freeze_requests: Rc::new(Cell::new(0)),
        flushes: Rc::new(Cell::new(0)),
    };
    let s = TestSeg {
        index: p.index.clone(),
        init_requests: p.init_requests.clone(),
        freeze_requests: p.freeze_requests.clone(),
        flushes: p.flushes.clone(),
    };
    (s, p)
}

#[test]
fn calseg_list_sort_and_register() {
    let mut list: CalSegList<TestSeg> = CalSegList::new();
    let (b, pb) = test_seg();
    let (a, pa) = test_seg();
    assert_eq!(list.push(CalSegDescriptor::new("seg_b", b, 8)), 0);
    assert_eq!(list.push(CalSegDescriptor::new("seg_a", a, 16)), 1);
    assert_eq!(list.get_index("seg_a"), Some(1));
    assert_eq!(list.get_index("seg_c"), None);

    let mut segments = McCalibrationSegmentList::new();
    list.register(&mut segments).unwrap();
    // sorted by name, told their new index
    assert_eq!(list.get_name(0), "seg_a");
    assert_eq!(list.get_name(1), "seg_b");
    assert_eq!(pa.index.get(), 0);
    assert_eq!(pb.index.get(), 1);
    // registered with index and address of their position
    assert_eq!(segments.len(), 2);
    let s0 = segments.get(0);
    assert_eq!(s0.get_name(), "seg_a");
    assert_eq!((s0.index, s0.addr_ext, s0.addr, s0.size), (0, 0, 0x80010000, 16));
    let s1 = segments.get(1);
    assert_eq!(s1.get_name(), "seg_b");
    assert_eq!((s1.index, s1.addr_ext, s1.addr, s1.size), (1, 0, 0x80020000, 8));

    // a second registration finds the names taken
    match list.register(&mut segments) {
        Err(RegistryError::Duplicate(name)) => assert_eq!(name, "seg_a"),
        _ => panic!("duplicate segment accepted"),
    }
    assert_eq!(segments.len(), 2);
}

#[test]
fn calseg_list_requests() {
    let mut list: CalSegList<TestSeg> = CalSegList::default();
    let (a, pa) = test_seg();
    let (b, pb) = test_seg();
    list.push(CalSegDescriptor::new("a", a, 4));
    list.push(CalSegDescriptor::new("b", b, 4));
    list.set_init_request();
    list.set_freeze_request();
    list.set_freeze_request();
    list.flush();
    assert_eq!((pa.init_requests.get(), pa.freeze_requests.get(), pa.flushes.get()), (1, 2, 1));
    assert_eq!((pb.init_requests.get(), pb.freeze_requests.get(), pb.flushes.get()), (1, 2, 1));
    assert_eq!(list.len(), 2);
    list.clear();
    assert_eq!(list.len(), 0);
}

#[test]
fn calseg_descriptor_fields() {
    let (a, pa) = test_seg();
    let mut d = CalSegDescriptor::new("a", a, 24);
    assert_eq!(d.get_name(), "a");
    assert_eq!(d.get_size(), 24);
    d.set_init_request();
    d.set_freeze_request();
    assert_eq!((pa.init_requests.get(), pa.freeze_requests.get()), (1, 1));
}

#[test]
fn calseg_segment_list_by_address() {
    let mut segs = McCalibrationSegmentList::new();
    segs.add_a2l_cal_seg(McIdentifier::new("a"), 0, 0, 0x80010000, 0x100).unwrap();
    segs.add_a2l_cal_seg(McIdentifier::new("b"), 1, 0, 0x80020000, 0x100).unwrap();
    assert_eq!(segs.find_cal_seg_by_address(0x80020010).unwrap().as_str(), "b");
    assert!(segs.find_cal_seg_by_address(0x80030000).is_none());
    assert_eq!(segs.get_cal_seg_index("b"), Some(1));
    assert!(segs.add_a2l_cal_seg(McIdentifier::new("a"), 2, 0, 0, 4).is_err());
}

// Segments registered from lists created in different orders get the same indices and addresses
#[test]
fn calseg_index_independent_of_creation_order() {
    let names = ["gamma", "alpha", "beta"];
    let sizes = [4usize, 8, 12];
    let mut first: CalSegList<TestSeg> = CalSegList::new();
    for k in 0..3 {
        first.push(CalSegDescriptor::new(names[k], test_seg().0, sizes[k]));
    }
    let mut second: CalSegList<TestSeg> = CalSegList::new();
    for k in [2usize, 0, 1] {
        second.push(CalSegDescriptor::new(names[k], test_seg().0, sizes[k]));
    }
    let mut segs1 = McCalibrationSegmentList::new();
    let mut segs2 = McCalibrationSegmentList::new();
    assert!(first.register(&mut segs1).is_ok());
    assert!(second.register(&mut segs2).is_ok());
    assert_eq!(segs1.len(), 3);
    for i in 0..3 {
        let (a, b) = (segs1.get(i), segs2.get(i));
        assert_eq!(a.get_name(), b.get_name());
        assert_eq!((a.index, a.addr_ext, a.addr, a.size), (b.index, b.addr_ext, b.addr, b.size));
    }
    assert_eq!(segs1.get_cal_seg_index("alpha"), Some(0));
    assert_eq!(segs1.get_cal_seg_index("beta"), Some(1));
    assert_eq!(segs1.get_cal_seg_index("gamma"), Some(2));
    assert_eq!(segs1.get(2).addr, 0x80030000);
}

// Requests stay pending in the segment state until they are taken
#[test]
fn calseg_state_requests() {
    let mut list: CalSegList<CalSegState> = CalSegList::new();
    list.push(CalSegDescriptor::new("b", CalSegState::new(), 4));
    list.push(CalSegDescriptor::new("a", CalSegState::new(), 4));
    list.set_freeze_request();
    list.set_init_request();
    list.sort_by_name();
    assert_eq!(list.get_name(0), "a");

    let mut s = CalSegState::new();
    s.set_index(3);
    s.set_init_request();
    assert_eq!(s.take_requests(), (false, true));
    s.set_freeze_request();
    assert_eq!(s.take_requests(), (true, false));
    assert_eq!(s.take_requests(), (false, false));
    assert_eq!(s.index, 3);
}

// Each segment stays with its descriptor when sorted; equal names keep their order
#[test]
fn calseg_sort_keeps_handles_and_order() {
    let mut list: CalSegList<TestSeg> = CalSegList::new();
    let (x1, p1) = test_seg();
    let (a, pa) = test_seg();
    let (x2, p2) = test_seg();
    list.push(CalSegDescriptor::new("x", x1, 1));
    list.push(CalSegDescriptor::new("a", a, 2));
    list.push(CalSegDescriptor::new("x", x2, 3));
    list.sort_by_name();
    assert_eq!((list.get_name(0), list.get_name(1), list.get_name(2)), ("a", "x", "x"));
    assert_eq!((pa.index.get(), p1.index.get(), p2.index.get()), (0, 1, 2));
    // requests leave the indices as they are
    list.set_freeze_request();
    list.set_init_request();
    assert_eq!((pa.index.get(), p1.index.get(), p2.index.get()), (0, 1, 2));
}
