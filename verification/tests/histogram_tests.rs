use xcp_lite::histogram::{Histogram, HistogramOffsets};
use xcp_lite::mc_instance::McInstanceList;
use xcp_lite::xcp::EventList;

fn offsets() -> HistogramOffsets {
    HistogramOffsets {
        event: 0,
        reset: 8,
        step_us: 12,
        cycle_counter: 16,
        cycle_time_us: 20,
        cycle_time_max_us: 24,
        cycle_time_min_us: 28,
        cycle_time_distribution: 32,
    }
}

#[test]
fn test_histogram_manual() {
    let mut events = EventList::new();
    let mut instances = McInstanceList::new();
    let mut histogram = Histogram::<100>::new("test_histogram", 50, &mut events, 0); // Histogram metric
    histogram.register_fields(&mut instances, &offsets()); // Register the histogram fields
    histogram.trigger(1_000_000);
    assert!(histogram.cycle_counter == 1); // Check that the cycle counter is 1
    assert_eq!(instances.len(), 7);
}

#[test]
fn histogram_bins_and_reset() {
    let mut events = EventList::new();
    let mut h = Histogram::<4>::new("h", 100, &mut events, 0);
    assert_eq!(events.len(), 1);
    h.trigger(150_000); // 150 us -> bin 1
    h.trigger(200_000); // 50 us -> bin 0
    h.trigger(10_200_000); // 10000 us -> last bin
    assert_eq!(h.cycle_counter, 3);
    assert_eq!(h.cycle_time_us, 10000);
    assert_eq!(h.cycle_time_min_us, 50);
    assert_eq!(h.cycle_time_max_us, 10000);
    assert_eq!(h.cycle_time_distribution, [1, 1, 0, 1]);
    h.reset = 1;
    h.trigger(10_300_000);
    assert_eq!(h.reset, 0);
    assert_eq!(h.cycle_counter, 0);
    assert_eq!(h.cycle_time_max_us, 0);
    assert_eq!(h.cycle_time_min_us, 0xFFFF_FFFF);
    assert_eq!(h.cycle_time_distribution, [0, 0, 0, 0]);
}

#[test]
fn histogram_field_names() {
    let mut events = EventList::new();
    let mut instances = McInstanceList::new();
    let h = Histogram::<10>::new("my hist", 10, &mut events, 0);
    h.register_fields(&mut instances, &offsets());
    let names: Vec<&str> = (0..instances.len()).map(|i| instances.get(i).get_name()).collect();
    assert_eq!(
        names,
        vec![
            "my_hist.histogram",
            "my_hist.step_us",
            "my_hist.counter",
            "my_hist.cycle_time",
            "my_hist.cycle_time_max",
            "my_hist.cycle_time_min",
            "my_hist.reset"
        ]
    );
    let histogram_field = instances.get(0);
    assert_eq!(histogram_field.x_dim(), 10);
    assert_eq!(histogram_field.x_axis_conv().unwrap().as_str(), "my_hist.step_us");
    assert_eq!(histogram_field.addr_offset(), 32);
    // Registering again adds nothing
    h.register_fields(&mut instances, &offsets());
    assert_eq!(instances.len(), 7);
}

// A cycle time beyond the range of u32 microseconds is truncated to its low 32 bits
#[test]
fn histogram_cycle_time_truncated() {
    let mut events = EventList::new();
    let mut h = Histogram::<4>::new("long_cycle", 10, &mut events, 0);
    let us: u64 = (1u64 << 32) + 7;
    h.trigger(us * 1000);
    assert_eq!(h.cycle_time_us, 7);
    assert_eq!(h.cycle_counter, 1);
    assert_eq!(h.cycle_time_distribution[0], 1);
}
