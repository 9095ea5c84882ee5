// Counters: an event and a 64 bit measurement variable of the same name, addressed relative to the event

use vstd::prelude::*;

use crate::mc_address::{McAddress, event_dyn_view};
use crate::mc_instance::{McInstance, McInstanceList, has_instance};
use crate::mc_support::{McObjectQualifier, McObjectType, McSupportData};
use crate::mc_text::{McIdentifier, is_identifier};
use crate::mc_type::{McDimType, McValueType};
use crate::xcp::{EventList, XcpEvent, event_created, event_ids_dense};

verus! {

/// The measurement variable of a counter
pub open spec fn is_counter_instance(i: McInstance, name: Seq<char>, event_id: u16) -> bool {
    &&& i.name@ == name
    &&& i.dim_type.value_type == McValueType::Ulonglong
    &&& i.dim_type.x_dim == 1
    &&& i.dim_type.y_dim == 1
    &&& i.dim_type.mc_support_data.object_type == McObjectType::Measurement
    &&& i.dim_type.mc_support_data.qualifier == McObjectQualifier::Unspecified
    &&& i.address@ == event_dyn_view(0, event_id, 0)
}

/// Register the counter with the given name: a new event (not indexed), and a measurement
/// variable of type u64 at offset 0, addressed relative to the event (async access possible)
/// The variable is left out where one of that name and address exists
pub fn register(events: &mut EventList, instances: &mut McInstanceList, name: &'static str) -> (e: XcpEvent)
    requires
        old(events)@.len() <= u16::MAX,
        is_identifier(name@),
    ensures
        event_created(old(events)@, final(events)@, name, false, e),
        event_ids_dense(old(events)@) ==> event_ids_dense(final(events)@),
        has_instance(old(instances)@, name@, event_dyn_view(0, e@.0, 0)) ==> final(instances)@ == old(
            instances,
        )@,
        !has_instance(old(instances)@, name@, event_dyn_view(0, e@.0, 0)) ==> final(instances)@.len()
            == old(instances)@.len() + 1 && final(instances)@.drop_last() == old(instances)@
            && is_counter_instance(final(instances)@.last(), name@, e@.0),
{
    let event = events.create_event_ext(name, false);
    let id = McIdentifier::new(name);
    let dim_type = McDimType::new(
        McValueType::Ulonglong,
        1,
        1,
        McSupportData::new(McObjectType::Measurement),
    );
    let address = McAddress::new_event_dyn(0, event.get_id(), 0);
    let r = instances.add_instance(id, dim_type, address);
    proof {
        if r is Ok {
            assert(instances@.drop_last() =~= old(instances)@);
        }
    }
    event
}

} // verus!
