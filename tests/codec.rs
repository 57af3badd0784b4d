use sysinfo_publisher::codec::{decode, encode};
use sysinfo_publisher::snapshot::SystemSnapshot;

fn sample() -> SystemSnapshot {
    SystemSnapshot {
        total_cpu_capacity: 16000,
        used_cpu: 24350,
        used_memory: 8_000_000_000,
        total_memory: 16_000_000_000,
        timestamp: 1_700_000_000,
    }
}

#[test]
fn scenario_snapshot_round_trips_field_for_field() {
    let s = sample();
    let bytes = encode(&s);
    let back = decode(&bytes).unwrap();
    assert_eq!(back.total_cpu_capacity, 16000);
    assert_eq!(back.used_cpu, 24350);
    assert_eq!(back.used_memory, 8_000_000_000);
    assert_eq!(back.total_memory, 16_000_000_000);
    assert_eq!(back.timestamp, 1_700_000_000);
    assert_eq!(back, s);
}

#[test]
fn payload_text_is_the_wire_format() {
    let bytes = encode(&sample());
    assert_eq!(
        String::from_utf8(bytes).unwrap(),
        "{\"total_cpu\":16000.0,\"used_cpu\":243.5,\"used_memory\":8000000000,\"total_memory\":16000000000,\"timestamp\":1700000000}"
    );
}

#[test]
fn payload_reads_as_json_with_the_same_values() {
    let bytes = encode(&sample());
    let v: serde_json::Value = serde_json::from_slice(&bytes).unwrap();
    assert_eq!(v["total_cpu"].as_f64(), Some(16000.0));
    assert_eq!(v["used_cpu"].as_f64(), Some(243.5));
    assert_eq!(v["used_memory"].as_u64(), Some(8_000_000_000));
    assert_eq!(v["total_memory"].as_u64(), Some(16_000_000_000));
    assert_eq!(v["timestamp"].as_u64(), Some(1_700_000_000));
}

#[test]
fn encoding_is_deterministic() {
    let s = sample();
    assert_eq!(encode(&s), encode(&s));
    assert_eq!(encode(&s), encode(&sample()));
}

#[test]
fn fractions_are_written_canonically() {
    let mut s = sample();
    for (used, text) in [(0u64, "0.0"), (5, "0.05"), (120, "1.2"), (123, "1.23"), (10000, "100.0")] {
        s.used_cpu = used;
        let out = String::from_utf8(encode(&s)).unwrap();
        assert!(out.contains(&format!("\"used_cpu\":{},", text)), "{}", out);
        assert_eq!(decode(out.as_bytes()), Some(s));
    }
}

#[test]
fn extreme_values_round_trip() {
    let s = SystemSnapshot {
        total_cpu_capacity: u64::MAX,
        used_cpu: u64::MAX,
        used_memory: u64::MAX,
        total_memory: 0,
        timestamp: 0,
    };
    assert_eq!(decode(&encode(&s)), Some(s));
}

#[test]
fn decode_rejects_what_encode_never_writes() {
    let cases = [
        "",
        "{}",
        "{\"total_cpu\":016000.0,\"used_cpu\":243.5,\"used_memory\":8000000000,\"total_memory\":16000000000,\"timestamp\":1700000000}",
        "{\"total_cpu\":16000.0,\"used_cpu\":243.50,\"used_memory\":8000000000,\"total_memory\":16000000000,\"timestamp\":1700000000}",
        "{\"total_cpu\":16000.0,\"used_cpu\":243.5,\"used_memory\":8000000000,\"total_memory\":16000000000,\"timestamp\":1700000000} ",
        "{\"total_cpu\":16000.0,\"used_cpu\":243.123,\"used_memory\":8000000000,\"total_memory\":16000000000,\"timestamp\":1700000000}",
        "{\"total_cpu\":16000.0,\"used_cpu\":243.5,\"used_memory\":18446744073709551616,\"total_memory\":16000000000,\"timestamp\":1700000000}",
        "{\"total_cpu\":16000.0, \"used_cpu\":243.5,\"used_memory\":8000000000,\"total_memory\":16000000000,\"timestamp\":1700000000}",
    ];
    for c in cases {
        assert_eq!(decode(c.as_bytes()), None, "{}", c);
    }
}
