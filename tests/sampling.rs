use sysinfo_publisher::snapshot::{
    build_snapshot, calculate_cpu_amount, get_system_info, ProcessorReading, SamplingError,
};

fn reading(frequency_mhz: u64, usage_centi: u32) -> ProcessorReading {
    ProcessorReading { frequency_mhz, usage_centi }
}

#[test]
fn cpu_amount_sums_speeds_and_usages() {
    let rs = vec![reading(4000, 1050), reading(4000, 10000), reading(3500, 0)];
    assert_eq!(calculate_cpu_amount(&rs), Ok((11500, 11050)));
}

#[test]
fn cpu_amount_of_no_processors_is_zero() {
    assert_eq!(calculate_cpu_amount(&vec![]), Ok((0, 0)));
}

#[test]
fn usage_above_full_is_rejected() {
    let rs = vec![reading(4000, 1050), reading(4000, 10001)];
    assert_eq!(calculate_cpu_amount(&rs), Err(SamplingError::UsageOutOfRange));
}

#[test]
fn range_is_checked_before_overflow() {
    let rs = vec![reading(u64::MAX, 0), reading(1, 20000)];
    assert_eq!(calculate_cpu_amount(&rs), Err(SamplingError::UsageOutOfRange));
}

#[test]
fn sum_of_usages_may_exceed_one_processor() {
    let rs = vec![reading(3000, 9000), reading(3000, 8000)];
    assert_eq!(calculate_cpu_amount(&rs), Ok((6000, 17000)));
}

#[test]
fn capacity_overflow_is_reported() {
    let rs = vec![reading(u64::MAX, 0), reading(1, 0)];
    assert_eq!(calculate_cpu_amount(&rs), Err(SamplingError::Overflow));
}

#[test]
fn snapshot_holds_the_readings_and_time() {
    let rs = vec![reading(8000, 6000), reading(8000, 8350)];
    let s = build_snapshot(&rs, 8_000_000_000, 16_000_000_000, 1_700_000_000).unwrap();
    assert_eq!(s.total_cpu_capacity, 16000);
    assert_eq!(s.used_cpu, 14350);
    assert_eq!(s.used_memory, 8_000_000_000);
    assert_eq!(s.total_memory, 16_000_000_000);
    assert_eq!(s.timestamp, 1_700_000_000);
}

#[test]
fn clock_before_epoch_is_rejected() {
    let rs = vec![reading(8000, 6000)];
    assert_eq!(build_snapshot(&rs, 1, 2, -1), Err(SamplingError::ClockBeforeEpoch));
}

#[test]
fn live_snapshot_is_stamped_with_the_current_time() {
    let rs = vec![reading(2000, 2500)];
    let s = get_system_info(&rs, 10, 20).unwrap();
    assert!(s.timestamp > 1_600_000_000);
    assert_eq!(s.total_cpu_capacity, 2000);
    assert_eq!(s.used_cpu, 2500);
}
