// DAQ events with a capture buffer

use vstd::prelude::*;

use crate::reg::{RegistryDataType, size_of_type};
use crate::reg_registry::{
    Registry, RegistryMeasurement, RegistryScaling, registered_signal_name, signal_is, signal_name_free,
    signal_pushed,
};
use crate::strings::str_to_string;
use crate::xcp::{EventList, XcpEvent, event_created};

verus! {

/// Create a measurement event and register a measurement signal directly associated to the
/// event, at offset 0 of its memory, unscaled and without unit
pub fn create_measurement_object(
    events: &mut EventList,
    registry: &mut Registry,
    name: &'static str,
    data_type: RegistryDataType,
    x_dim: u16,
    y_dim: u16,
    comment: &'static str,
) -> (e: XcpEvent)
    requires
        old(events)@.len() <= u16::MAX,
        !old(registry).freeze,
        data_type != RegistryDataType::Unknown,
        (x_dim * y_dim) * size_of_type(data_type) <= u16::MAX / 2,
        forall|j: int|
            0 <= j < old(registry).measurement_list@.len() ==> (#[trigger] old(
                registry,
            ).measurement_list@[j]).name@ != name@,
    ensures
        event_created(old(events)@, final(events)@, name, false, e),
        final(registry).measurement_list@.len() == old(registry).measurement_list@.len() + 1,
        final(registry).measurement_list@.drop_last() == old(registry).measurement_list@,
        ({
            let m = final(registry).measurement_list@.last();
            &&& m.name@ == name@
            &&& m.datatype == data_type
            &&& m.x_dim == x_dim
            &&& m.y_dim == y_dim
            &&& m.xcp_event == e
            &&& m.addr_offset == 0
            &&& m.addr == 0
            &&& m.scaling.factor@ == "1"@
            &&& m.scaling.offset@ == "0"@
            &&& m.scaling.identity
            &&& m.comment == comment
            &&& m.unit@ == ""@
            &&& m.annotation is None
        }),
        final(registry).event_list@ == old(registry).event_list@,
        final(registry).characteristic_list@ == old(registry).characteristic_list@,
{
    let event = events.create_event_ext(name, false);
    let m = RegistryMeasurement::new(
        str_to_string(name),
        data_type,
        x_dim,
        y_dim,
        event,
        0,
        0,
        RegistryScaling { factor: str_to_string("1"), offset: str_to_string("0"), identity: true },
        comment,
        "",
        None,
    );
    registry.add_measurement(m);
    event
}

/// An XCP event with a capture buffer of capacity N, into which variable values are copied
/// before the event is triggered
#[derive(Debug)]
pub struct DaqEvent<const N: usize> {
    event: XcpEvent,
    buffer_len: usize,
    buffer: Vec<u8>,
}

impl<const N: usize> DaqEvent<N> {
    /// The buffer has capacity N and the allocated part fits into it
    pub closed spec fn wf(&self) -> bool {
        self.buffer@.len() == N && self.buffer_len <= N
    }

    /// The event of the DAQ event
    pub closed spec fn event(&self) -> XcpEvent {
        self.event
    }

    /// Number of allocated bytes of the capture buffer
    pub closed spec fn allocated(&self) -> nat {
        self.buffer_len as nat
    }

    /// Content of the capture buffer
    pub closed spec fn content(&self) -> Seq<u8> {
        self.buffer@
    }

    fn zero_buffer() -> (b: Vec<u8>)
        ensures
            b@ == Seq::new(N as nat, |i: int| 0u8),
    {
        let b = vec![0u8; N];
        assert(b@ =~= Seq::new(N as nat, |i: int| 0u8));
        b
    }

    /// Create a DaqEvent with a new, not indexed XCP event of the given name
    pub fn new(events: &mut EventList, name: &'static str) -> (d: DaqEvent<N>)
        requires
            old(events)@.len() <= u16::MAX,
        ensures
            d.wf(),
            d.allocated() == 0,
            d.content() == Seq::new(N as nat, |i: int| 0u8),
            event_created(old(events)@, final(events)@, name, false, d.event()),
    {
        let event = events.create_event_ext(name, false);
        DaqEvent { event, buffer_len: 0, buffer: Self::zero_buffer() }
    }

    /// Create a DaqEvent from an existing XcpEvent
    pub fn new_from(xcp_event: &XcpEvent) -> (d: DaqEvent<N>)
        ensures
            d.wf(),
            d.event() == *xcp_event,
            d.allocated() == 0,
            d.content() == Seq::new(N as nat, |i: int| 0u8),
    {
        DaqEvent { event: *xcp_event, buffer_len: 0, buffer: Self::zero_buffer() }
    }

    /// The XcpEvent
    pub fn get_xcp_event(&self) -> (e: XcpEvent)
        ensures
            e == self.event(),
    {
        self.event
    }

    /// The XCP event id
    pub fn get_event_id(&self) -> (id: u16)
        ensures
            id == self.event()@.0,
    {
        self.event.get_id()
    }

    /// The capacity of the capture buffer
    pub fn get_capacity(&self) -> (n: usize)
        ensures
            n == N,
    {
        N
    }

    /// The content of the capture buffer
    pub fn get_buffer(&self) -> (b: &[u8])
        ensures
            b@ == self.content(),
    {
        self.buffer.as_slice()
    }

    /// Allocate size bytes in the capture buffer and return their offset:
    /// allocations follow each other and never overlap
    pub fn allocate(&mut self, size: usize) -> (offset: i16)
        requires
            old(self).wf(),
            old(self).allocated() + size <= N,
            old(self).allocated() <= i16::MAX,
        ensures
            final(self).wf(),
            offset == old(self).allocated(),
            final(self).allocated() == old(self).allocated() + size,
            final(self).content() == old(self).content(),
            final(self).event() == old(self).event(),
    {
        let offset = self.buffer_len;
        self.buffer_len = self.buffer_len + size;
        offset as i16
    }

    /// Copy data to the capture buffer at offset
    pub fn capture(&mut self, data: &[u8], offset: i16)
        requires
            old(self).wf(),
            offset >= 0,
            offset + data@.len() <= N,
        ensures
            final(self).wf(),
            final(self).content() == old(self).content().take(offset as int) + data@ + old(
                self,
            ).content().skip(offset + data@.len()),
            final(self).allocated() == old(self).allocated(),
            final(self).event() == old(self).event(),
    {
        let start = offset as usize;
        let mut i: usize = 0;
        while i < data.len()
            invariant
                self.buffer@.len() == N,
                old(self).buffer@.len() == N,
                self.buffer_len == old(self).buffer_len,
                self.event == old(self).event,
                start + data@.len() <= N,
                i <= data@.len(),
                self.buffer@ == old(self).buffer@.take(start as int) + data@.take(i as int) + old(
                    self,
                ).buffer@.skip(start + i),
            decreases data@.len() - i,
        {
            let ghost before = self.buffer@;
            self.buffer.set(start + i, data[i]);
            proof {
                let a = old(self).buffer@;
                let target = a.take(start as int) + data@.take(i + 1) + a.skip(start + i + 1);
                assert(self.buffer@ == before.update(start + i, data@[i as int]));
                assert forall|j: int| 0 <= j < N implies #[trigger] self.buffer@[j] == target[j] by {
                    if j < start {
                        assert(before[j] == a[j]);
                    } else if j < start + i {
                        assert(before[j] == data@[j - start]);
                    } else if j == start + i {
                    } else {
                        assert(before[j] == a[j]);
                    }
                }
                assert(self.buffer@ =~= target);
            }
            i += 1;
        }
        assert(data@.take(data@.len() as int) =~= data@);
    }
}

impl<const N: usize> DaqEvent<N> {
    /// Associate a variable to this DaqEvent: allocate size bytes in the capture buffer and
    /// register a measurement signal at their offset; returns the offset
    pub fn add_capture(
        &mut self,
        registry: &mut Registry,
        name: &'static str,
        size: usize,
        datatype: RegistryDataType,
        x_dim: u16,
        y_dim: u16,
        scaling: RegistryScaling,
        unit: &'static str,
        comment: &'static str,
        annotation: Option<String>,
    ) -> (event_offset: i16)
        requires
            old(self).wf(),
            old(self).allocated() + size <= N,
            old(self).allocated() <= i16::MAX,
            !old(registry).freeze,
            datatype != RegistryDataType::Unknown,
            (x_dim * y_dim) * size_of_type(datatype) <= u16::MAX / 2,
            signal_name_free(
                old(registry).measurement_list@,
                registered_signal_name(name@, old(self).event()),
            ),
        ensures
            final(self).wf(),
            event_offset == old(self).allocated(),
            final(self).allocated() == old(self).allocated() + size,
            final(self).content() == old(self).content(),
            final(self).event() == old(self).event(),
            signal_pushed(old(registry).measurement_list@, final(registry).measurement_list@),
            signal_is(
                final(registry).measurement_list@.last(),
                registered_signal_name(name@, old(self).event()),
                datatype,
                x_dim,
                y_dim,
                old(self).event(),
                event_offset,
                0,
                scaling,
                comment,
                unit,
                annotation,
            ),
            final(registry).event_list@ == old(registry).event_list@,
            final(registry).characteristic_list@ == old(registry).characteristic_list@,
    {
        let event_offset: i16 = self.allocate(size);
        let event = self.get_xcp_event();
        registry.add_measurement(
            RegistryMeasurement::new(
                str_to_string(name),
                datatype,
                x_dim,
                y_dim,
                event,
                event_offset,
                0u64,
                scaling,
                comment,
                unit,
                annotation,
            ),
        );
        event_offset
    }

    /// Associate a variable on the stack to this DaqEvent and register it, at its offset to the
    /// capture buffer (the difference of their addresses, which must fit in 16 bits)
    pub fn add_stack(
        &self,
        registry: &mut Registry,
        name: &'static str,
        offset: i64,
        datatype: RegistryDataType,
        x_dim: u16,
        y_dim: u16,
        scaling: RegistryScaling,
        unit: &'static str,
        comment: &'static str,
    )
        requires
            -0x8000 <= offset <= 0x7FFF,
            !old(registry).freeze,
            datatype != RegistryDataType::Unknown,
            (x_dim * y_dim) * size_of_type(datatype) <= u16::MAX / 2,
            signal_name_free(old(registry).measurement_list@, registered_signal_name(name@, self.event())),
        ensures
            signal_pushed(old(registry).measurement_list@, final(registry).measurement_list@),
            signal_is(
                final(registry).measurement_list@.last(),
                registered_signal_name(name@, self.event()),
                datatype,
                x_dim,
                y_dim,
                self.event(),
                offset as i16,
                0,
                scaling,
                comment,
                unit,
                None,
            ),
            final(registry).event_list@ == old(registry).event_list@,
            final(registry).characteristic_list@ == old(registry).characteristic_list@,
    {
        let event_offset: i16 = offset as i16;
        registry.add_measurement(
            RegistryMeasurement::new(
                str_to_string(name),
                datatype,
                x_dim,
                y_dim,
                self.event,
                event_offset,
                0u64,
                scaling,
                comment,
                unit,
                None,
            ),
        );
    }

    /// Associate a variable on the heap to this DaqEvent and register it at its absolute XCP
    /// address
    pub fn add_heap(
        &self,
        registry: &mut Registry,
        name: &'static str,
        addr: u64,
        datatype: RegistryDataType,
        x_dim: u16,
        y_dim: u16,
        scaling: RegistryScaling,
        unit: &'static str,
        comment: &'static str,
    )
        requires
            !old(registry).freeze,
            datatype != RegistryDataType::Unknown,
            (x_dim * y_dim) * size_of_type(datatype) <= u16::MAX / 2,
            signal_name_free(old(registry).measurement_list@, registered_signal_name(name@, self.event())),
        ensures
            signal_pushed(old(registry).measurement_list@, final(registry).measurement_list@),
            signal_is(
                final(registry).measurement_list@.last(),
                registered_signal_name(name@, self.event()),
                datatype,
                x_dim,
                y_dim,
                self.event(),
                0,
                addr,
                scaling,
                comment,
                unit,
                None,
            ),
            final(registry).event_list@ == old(registry).event_list@,
            final(registry).characteristic_list@ == old(registry).characteristic_list@,
    {
        registry.add_measurement(
            RegistryMeasurement::new(
                str_to_string(name),
                datatype,
                x_dim,
                y_dim,
                self.event,
                0i16,
                addr,
                scaling,
                comment,
                unit,
                None,
            ),
        );
    }
}

/// What was captured at an offset is read back from the buffer there
pub proof fn lemma_capture_reads_back(old_content: Seq<u8>, data: Seq<u8>, offset: int)
    requires
        0 <= offset,
        offset + data.len() <= old_content.len(),
    ensures
        (old_content.take(offset) + data + old_content.skip(offset + data.len())).subrange(
            offset,
            offset + data.len(),
        ) == data,
        (old_content.take(offset) + data + old_content.skip(offset + data.len())).len()
            == old_content.len(),
{
    assert((old_content.take(offset) + data + old_content.skip(offset + data.len())).subrange(
        offset,
        offset + data.len(),
    ) =~= data);
}

} // verus!
