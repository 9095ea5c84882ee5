// Cycle time histogram metric
// The histogram counters are a measurement array of N elements, all fields are measurement
// variables with event relative addressing, so they may be read and reset asynchronously

use vstd::prelude::*;

use crate::mc_address::{event_dyn_view, McAddress};
use crate::mc_instance::{add_all, McInstance, McInstanceList};
use crate::mc_support::{McObjectType, McSupportData};
use crate::mc_text::{identifier_of, McIdentifier, McText};
use crate::mc_type::{McDimType, McValueType};
use crate::strings::{push_str, str_to_string};
use crate::xcp::{EventList, XcpEvent, event_created};

verus! {

/// Byte offsets of the fields of a histogram in memory
#[derive(Clone, Copy)]
pub struct HistogramOffsets {
    pub event: usize,
    pub reset: usize,
    pub step_us: usize,
    pub cycle_counter: usize,
    pub cycle_time_us: usize,
    pub cycle_time_max_us: usize,
    pub cycle_time_min_us: usize,
    pub cycle_time_distribution: usize,
}

/// Cycle time histogram with N bins of step_us microseconds
#[derive(Debug)]
pub struct Histogram<const N: usize> {
    pub name: &'static str,
    pub event: XcpEvent,
    pub reset: u8,  // Reset flag
    pub step_us: u32,  // Step size in microseconds
    pub last_time_ns: u64,
    pub cycle_counter: u32,  // Cycle count
    pub cycle_time_us: u32,  // Cycle time in microseconds
    pub cycle_time_max_us: u32,
    pub cycle_time_min_us: u32,
    pub cycle_time_distribution: [u32; N],
}

/// Sum of the counts of the bins
pub open spec fn bins_total(s: Seq<u32>) -> int
    decreases s.len(),
{
    if s.len() == 0 {
        0
    } else {
        bins_total(s.drop_last()) + s.last()
    }
}

/// Adding one to a bin adds one to the total
proof fn lemma_bins_total_increment(s: Seq<u32>, i: int, v: u32)
    requires
        0 <= i < s.len(),
        v == s[i] + 1,
    ensures
        bins_total(s.update(i, v)) == bins_total(s) + 1,
    decreases s.len(),
{
    let t = s.update(i, v);
    if i == s.len() - 1 {
        assert(t.drop_last() =~= s.drop_last());
    } else {
        assert(t.drop_last() =~= s.drop_last().update(i, v));
        lemma_bins_total_increment(s.drop_last(), i, v);
    }
}

/// Bins that are all zero have a total of zero
proof fn lemma_bins_total_zero(n: nat)
    ensures
        bins_total(Seq::new(n, |i: int| 0u32)) == 0,
    decreases n,
{
    if n > 0 {
        assert(Seq::new(n, |i: int| 0u32).drop_last() =~= Seq::new((n - 1) as nat, |i: int| 0u32));
        lemma_bins_total_zero((n - 1) as nat);
    }
}

/// Bin of a cycle time: cycle_time / step, the last bin for all longer times
pub open spec fn histogram_bin(cycle_time_us: u32, step_us: u32, n: nat) -> int {
    let b = cycle_time_us / step_us;
    if b >= n {
        n - 1
    } else {
        b as int
    }
}

/// "name.field"
pub open spec fn field_name(name: Seq<char>, field: Seq<char>) -> Seq<char> {
    identifier_of(name + seq!['.'] + field)
}

/// The fields lie at most i16 bytes away from the event field
pub open spec fn offsets_fit(o: HistogramOffsets) -> bool {
    &&& i16::MIN <= o.reset - o.event <= i16::MAX
    &&& i16::MIN <= o.step_us - o.event <= i16::MAX
    &&& i16::MIN <= o.cycle_counter - o.event <= i16::MAX
    &&& i16::MIN <= o.cycle_time_us - o.event <= i16::MAX
    &&& i16::MIN <= o.cycle_time_max_us - o.event <= i16::MAX
    &&& i16::MIN <= o.cycle_time_min_us - o.event <= i16::MAX
    &&& i16::MIN <= o.cycle_time_distribution - o.event <= i16::MAX
}

/// The instances of the fields of a histogram
pub open spec fn histogram_fields(
    new: Seq<McInstance>,
    name: Seq<char>,
    event_id: u16,
    offsets: HistogramOffsets,
    n: nat,
) -> bool {
    &&& new.len() == 7
    &&& new[0].name@ == field_name(name, "histogram"@)
    &&& new[0].dim_type.value_type is Ulong && new[0].dim_type.x_dim == n
    &&& new[0].dim_type.mc_support_data.comment@ == "Cycle time histogram"@
    &&& new[0].dim_type.mc_support_data.x_axis_conv matches Some(c) && c@
        == field_name(name, "step_us"@)
    &&& new[0].address@ == event_dyn_view(
        0,
        event_id,
        (offsets.cycle_time_distribution - offsets.event) as i16,
    )
    &&& new[1].name@ == field_name(name, "step_us"@)
    &&& new[1].dim_type.value_type is Ulong
    &&& new[1].dim_type.mc_support_data.unit@ == "us"@
    &&& new[1].address@ == event_dyn_view(
        0,
        event_id,
        (offsets.step_us - offsets.event) as i16,
    )
    &&& new[2].name@ == field_name(name, "counter"@)
    &&& new[2].dim_type.value_type is Ulong
    &&& new[2].dim_type.mc_support_data.comment@ == "Cycle counter"@
    &&& new[2].address@ == event_dyn_view(
        0,
        event_id,
        (offsets.cycle_counter - offsets.event) as i16,
    )
    &&& new[3].name@ == field_name(name, "cycle_time"@)
    &&& new[3].dim_type.value_type is Ulong
    &&& new[3].dim_type.mc_support_data.comment@ == "Cycle time"@
    &&& new[3].dim_type.mc_support_data.unit@ == "s"@
    &&& new[3].address@ == event_dyn_view(
        0,
        event_id,
        (offsets.cycle_time_us - offsets.event) as i16,
    )
    &&& new[4].name@ == field_name(name, "cycle_time_max"@)
    &&& new[4].dim_type.value_type is Ulong
    &&& new[4].dim_type.mc_support_data.comment@ == "Cycle time maximum"@
    &&& new[4].dim_type.mc_support_data.unit@ == "us"@
    &&& new[4].address@ == event_dyn_view(
        0,
        event_id,
        (offsets.cycle_time_max_us - offsets.event) as i16,
    )
    &&& new[5].name@ == field_name(name, "cycle_time_min"@)
    &&& new[5].dim_type.value_type is Ulong
    &&& new[5].dim_type.mc_support_data.comment@ == "Cycle time minimum"@
    &&& new[5].dim_type.mc_support_data.unit@ == "us"@
    &&& new[5].address@ == event_dyn_view(
        0,
        event_id,
        (offsets.cycle_time_min_us - offsets.event) as i16,
    )
    &&& new[6].name@ == field_name(name, "reset"@)
    &&& new[6].dim_type.value_type is Ubyte
    &&& new[6].dim_type.mc_support_data.comment@ == "Reset flag"@
    &&& new[6].address@ == event_dyn_view(
        0,
        event_id,
        (offsets.reset - offsets.event) as i16,
    )
    &&& forall|k: int|
        0 <= k < 7 ==> (#[trigger] new[k]).dim_type.mc_support_data.object_type
            == McObjectType::Measurement && new[k].dim_type.y_dim == 1 && (k > 0
            ==> new[k].dim_type.x_dim == 1)
}

impl<const N: usize> Histogram<N> {
    /// N bins, a positive step and at most 1000 bins
    pub open spec fn wf(&self) -> bool {
        &&& self.cycle_time_distribution@.len() == N
        &&& 0 < N <= 1000
        &&& self.step_us > 0
    }

    fn zero_bins() -> (v: [u32; N])
        ensures
            v@ == Seq::new(N as nat, |i: int| 0u32),
    {
        let v = [0u32; N];
        proof {
            broadcast use vstd::array::group_array_axioms;
        }
        assert(v@ =~= Seq::new(N as nat, |i: int| 0u32));
        v
    }

    /// Start the histogram over with a name, step size, event and the current time
    pub fn init(&mut self, name: &'static str, step_us: u32, event: XcpEvent, now_ns: u64)
        requires
            N <= 1000,
            N > 0,
            step_us > 0,
        ensures
            final(self).wf(),
            final(self).name == name,
            final(self).event == event,
            final(self).reset == 0,
            final(self).step_us == step_us,
            final(self).last_time_ns == now_ns,
            final(self).cycle_counter == 0,
            final(self).cycle_time_us == 0,
            final(self).cycle_time_max_us == 0,
            final(self).cycle_time_min_us == 0xFFFF_FFFF,
            final(self).cycle_time_distribution@ == Seq::new(N as nat, |i: int| 0u32),
            bins_total(final(self).cycle_time_distribution@) == final(self).cycle_counter,
    {
        proof {
            lemma_bins_total_zero(N as nat);
        }
        self.name = name;
        self.event = event;
        self.reset = 0;
        self.step_us = step_us;
        self.last_time_ns = now_ns;
        self.cycle_counter = 0;
        self.cycle_time_us = 0;
        self.cycle_time_max_us = 0;
        self.cycle_time_min_us = 0xFFFF_FFFF;
        self.cycle_time_distribution = Self::zero_bins();
    }

    /// Create a histogram with a new event of the given name, the step size in microseconds and
    /// the current time
    pub fn new(name: &'static str, step_us: u32, events: &mut EventList, now_ns: u64) -> (h: Self)
        requires
            N <= 1000,
            N > 0,
            step_us > 0,
            old(events)@.len() <= u16::MAX,
        ensures
            h.wf(),
            h.name == name,
            h.reset == 0,
            h.step_us == step_us,
            h.last_time_ns == now_ns,
            h.cycle_counter == 0,
            h.cycle_time_us == 0,
            h.cycle_time_max_us == 0,
            h.cycle_time_min_us == 0xFFFF_FFFF,
            h.cycle_time_distribution@ == Seq::new(N as nat, |i: int| 0u32),
            bins_total(h.cycle_time_distribution@) == h.cycle_counter,
            event_created(old(events)@, final(events)@, name, false, h.event),
    {
        proof {
            lemma_bins_total_zero(N as nat);
        }
        let event = events.create_event_ext(name, false);
        Histogram {
            name,
            event,
            reset: 0,
            step_us,
            last_time_ns: now_ns,
            cycle_counter: 0,
            cycle_time_us: 0,
            cycle_time_max_us: 0,
            cycle_time_min_us: 0xFFFF_FFFF,
            cycle_time_distribution: Self::zero_bins(),
        }
    }

    /// Account for one cycle ending at now_ns: cycle time, count, minimum, maximum and the bin of
    /// the cycle time; then clear the statistics when the reset flag was set
    pub fn trigger(&mut self, now_ns: u64)
        requires
            old(self).wf(),
            now_ns >= old(self).last_time_ns,
            old(self).cycle_counter < u32::MAX,
            forall|i: int|
                0 <= i < N ==> #[trigger] old(self).cycle_time_distribution@[i] < u32::MAX,
        ensures
            final(self).wf(),
            bins_total(old(self).cycle_time_distribution@) == old(self).cycle_counter ==> bins_total(
                final(self).cycle_time_distribution@,
            ) == final(self).cycle_counter,
            ({
                let t = #[verifier::truncate] (((now_ns - old(self).last_time_ns) / 1000) as u32);
                &&& final(self).cycle_time_us == t
                &&& final(self).last_time_ns == now_ns
                &&& final(self).reset == 0
                &&& final(self).name == old(self).name
                &&& final(self).event == old(self).event
                &&& final(self).step_us == old(self).step_us
                &&& old(self).reset == 0 ==> {
                    &&& final(self).cycle_counter == old(self).cycle_counter + 1
                    &&& final(self).cycle_time_min_us == (if old(self).cycle_time_min_us > t {
                        t
                    } else {
                        old(self).cycle_time_min_us
                    })
                    &&& final(self).cycle_time_max_us == (if old(self).cycle_time_max_us < t {
                        t
                    } else {
                        old(self).cycle_time_max_us
                    })
                    &&& final(self).cycle_time_distribution@ == old(
                        self,
                    ).cycle_time_distribution@.update(
                        histogram_bin(t, old(self).step_us, N as nat),
                        (old(self).cycle_time_distribution@[histogram_bin(
                            t,
                            old(self).step_us,
                            N as nat,
                        )] + 1) as u32,
                    )
                }
                &&& old(self).reset != 0 ==> {
                    &&& final(self).cycle_counter == 0
                    &&& final(self).cycle_time_max_us == 0
                    &&& final(self).cycle_time_min_us == 0xFFFF_FFFF
                    &&& final(self).cycle_time_distribution@ == Seq::new(N as nat, |i: int| 0u32)
                }
            }),
    {
        self.cycle_time_us = #[verifier::truncate] (((now_ns - self.last_time_ns) / 1000) as u32);
        self.last_time_ns = now_ns;
        self.cycle_counter = self.cycle_counter + 1;
        if self.cycle_time_min_us > self.cycle_time_us {
            self.cycle_time_min_us = self.cycle_time_us;
        }
        if self.cycle_time_max_us < self.cycle_time_us {
            self.cycle_time_max_us = self.cycle_time_us;
        }
        let mut index: usize = (self.cycle_time_us / self.step_us) as usize;
        if index >= N {
            index = N - 1;
        }
        let count = self.cycle_time_distribution[index];
        let ghost before = self.cycle_time_distribution@;
        self.cycle_time_distribution[index] = count + 1;
        proof {
            lemma_bins_total_increment(before, index as int, (count + 1) as u32);
        }
        if self.reset > 0 {
            self.reset();
            self.reset = 0;
            proof {
                lemma_bins_total_zero(N as nat);
            }
        }
    }

    /// Clear the statistics
    pub fn reset(&mut self)
        requires
            old(self).wf(),
        ensures
            final(self).wf(),
            final(self).cycle_counter == 0,
            final(self).cycle_time_max_us == 0,
            final(self).cycle_time_min_us == 0xFFFF_FFFF,
            final(self).cycle_time_distribution@ == Seq::new(N as nat, |i: int| 0u32),
            final(self).name == old(self).name,
            final(self).event == old(self).event,
            final(self).reset == old(self).reset,
            final(self).step_us == old(self).step_us,
            final(self).last_time_ns == old(self).last_time_ns,
            final(self).cycle_time_us == old(self).cycle_time_us,
            bins_total(final(self).cycle_time_distribution@) == final(self).cycle_counter,
    {
        proof {
            lemma_bins_total_zero(N as nat);
        }
        self.cycle_counter = 0;
        self.cycle_time_max_us = 0;
        self.cycle_time_min_us = 0xFFFF_FFFF;
        self.cycle_time_distribution = Self::zero_bins();
    }

    fn field_instance(
        &self,
        field: &str,
        field_offset: usize,
        event_offset: usize,
        value_type: McValueType,
        x_dim: u16,
        mc_support_data: McSupportData,
    ) -> (i: McInstance)
        requires
            i16::MIN <= field_offset - event_offset <= i16::MAX,
        ensures
            i.name@ == field_name(self.name@, field@),
            i.dim_type == (McDimType { value_type, x_dim, y_dim: 1, mc_support_data }),
            i.address@ == event_dyn_view(
                0,
                self.event@.0,
                (field_offset - event_offset) as i16,
            ),
    {
        let mut s = str_to_string(self.name);
        push_str(&mut s, ".");
        proof {
            reveal_strlit(".");
        }
        push_str(&mut s, field);
        assert(s@ =~= self.name@ + seq!['.'] + field@);
        let d: i128 = field_offset as i128 - event_offset as i128;
        let offset: i16 = d as i16;
        McInstance::new(
            McIdentifier::from_string(s),
            McDimType::new(value_type, x_dim, 1, mc_support_data),
            McAddress::new_event_dyn(0, self.event.get_id(), offset),
        )
    }

    /// Register all fields of the histogram as measurement variables with write access, relative
    /// to the event field: histogram (N bins, fixed axis with the conversion of step_us), step_us,
    /// counter, cycle_time, cycle_time_max, cycle_time_min and reset
    /// Fields already registered with the same name and address are left out
    pub fn register_fields(&self, instances: &mut McInstanceList, offsets: &HistogramOffsets)
        requires
            self.wf(),
            offsets_fit(*offsets),
        ensures
            exists|new: Seq<McInstance>|
                final(instances)@ == add_all(old(instances)@, new) && #[trigger] histogram_fields(
                    new,
                    self.name@,
                    self.event@.0,
                    *offsets,
                    N as nat,
                ),
    {
        let e = offsets.event;
        let mut conv = str_to_string(self.name);
        push_str(&mut conv, ".step_us");
        let conv_id = McIdentifier::from_string(conv);
        proof {
            reveal_strlit(".step_us");
            reveal_strlit(".");
            assert(".step_us"@ =~= seq!['.'] + "step_us"@) by {
                reveal_strlit("step_us");
            }
            assert(self.name@ + ".step_us"@ =~= self.name@ + seq!['.'] + "step_us"@);
        }
        let m = McSupportData::new(McObjectType::Measurement);
        let histogram = self.field_instance(
            "histogram",
            offsets.cycle_time_distribution,
            e,
            McValueType::Ulong,
            N as u16,
            m.set_comment(McText::new("Cycle time histogram")).set_x_axis_conv(Some(conv_id)),
        );
        let step = self.field_instance(
            "step_us",
            offsets.step_us,
            e,
            McValueType::Ulong,
            1,
            m.set_unit(McText::new("us")),
        );
        let counter = self.field_instance(
            "counter",
            offsets.cycle_counter,
            e,
            McValueType::Ulong,
            1,
            m.set_comment(McText::new("Cycle counter")),
        );
        let cycle_time = self.field_instance(
            "cycle_time",
            offsets.cycle_time_us,
            e,
            McValueType::Ulong,
            1,
            m.set_comment(McText::new("Cycle time")).set_unit(McText::new("s")),
        );
        let cycle_time_max = self.field_instance(
            "cycle_time_max",
            offsets.cycle_time_max_us,
            e,
            McValueType::Ulong,
            1,
            m.set_comment(McText::new("Cycle time maximum")).set_unit(McText::new("us")),
        );
        let cycle_time_min = self.field_instance(
            "cycle_time_min",
            offsets.cycle_time_min_us,
            e,
            McValueType::Ulong,
            1,
            m.set_comment(McText::new("Cycle time minimum")).set_unit(McText::new("us")),
        );
        let reset = self.field_instance(
            "reset",
            offsets.reset,
            e,
            McValueType::Ubyte,
            1,
            m.set_comment(McText::new("Reset flag")),
        );
        let new = vec![histogram, step, counter, cycle_time, cycle_time_max, cycle_time_min, reset];
        instances.add_instances(new.as_slice());
        assert(new@[0] == histogram);
        assert(new@[1] == step);
        assert(new@[2] == counter);
        assert(new@[3] == cycle_time);
        assert(new@[4] == cycle_time_max);
        assert(new@[5] == cycle_time_min);
        assert(new@[6] == reset);
        assert(histogram_fields(new@, self.name@, self.event@.0, *offsets, N as nat));
    }
}

} // verus!
