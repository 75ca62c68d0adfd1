use binary::error::Error;
use binary::memory::Memory;
use binary::memory::RegisterState;
use binary::memory::RegisterStates;
use binary::uint::Uint256;

fn record(address: u64, value: [u8; 32]) -> Vec<u8> {
    let mut b = address.to_le_bytes().to_vec();
    b.extend_from_slice(&value);
    b
}

fn small(v: u8) -> [u8; 32] {
    let mut a = [0u8; 32];
    a[0] = v;
    a
}

#[test]
fn empty_memory_stream_gives_empty_table() {
    let m = Memory::from_bytes(&Vec::new()).unwrap();
    assert_eq!(m.len(), 0);
}

#[test]
fn one_record_fills_one_cell() {
    let m = Memory::from_bytes(&record(5, small(7))).unwrap();
    assert_eq!(m.len(), 6);
    for a in 0..5 {
        assert!(m.get(a).is_none());
    }
    assert_eq!(m.get(5).unwrap().0, Uint256::from_u64(7));
}

#[test]
fn zero_value_differs_from_unknown() {
    let m = Memory::from_bytes(&record(1, small(0))).unwrap();
    assert!(m.get(0).is_none());
    assert_eq!(m.get(1).unwrap().0, Uint256::zero());
}

#[test]
fn later_record_replaces_earlier() {
    let mut b = record(2, small(1));
    b.extend(record(0, small(3)));
    b.extend(record(2, small(4)));
    let m = Memory::from_bytes(&b).unwrap();
    assert_eq!(m.len(), 3);
    assert_eq!(m.get(0).unwrap().0.l0, 3);
    assert!(m.get(1).is_none());
    assert_eq!(m.get(2).unwrap().0.l0, 4);
}

#[test]
fn memory_value_bytes_are_little_endian() {
    let mut v = [0u8; 32];
    v[8] = 1;
    v[31] = 0x07;
    let m = Memory::from_bytes(&record(0, v)).unwrap();
    assert_eq!(m.get(0).unwrap().0, Uint256 { l0: 0, l1: 1, l2: 0, l3: 0x0700_0000_0000_0000 });
}

#[test]
fn truncated_memory_record_is_malformed() {
    let mut b = record(5, small(7));
    b.pop();
    assert_eq!(Memory::from_bytes(&b).unwrap_err(), Error::MalformedTraceFile);
}

#[test]
fn memory_value_at_modulus_is_out_of_range() {
    let mut p = [0u8; 32];
    p[0] = 1;
    p[24..32].copy_from_slice(&0x800000000000011u64.to_le_bytes());
    assert_eq!(Memory::from_bytes(&record(0, p)).unwrap_err(), Error::ValueOutOfFieldRange);
    p[0] = 0;
    assert!(Memory::from_bytes(&record(0, p)).is_ok());
}

#[test]
fn trace_records_are_read_in_order() {
    let mut b = Vec::new();
    for v in [1u64, 2, 3, 4, 5, 6] {
        b.extend_from_slice(&v.to_le_bytes());
    }
    let t = RegisterStates::from_bytes(&b).unwrap();
    assert_eq!(t.0, vec![RegisterState { ap: 1, fp: 2, pc: 3 }, RegisterState { ap: 4, fp: 5, pc: 6 }]);
    assert!(RegisterStates::from_bytes(&Vec::new()).unwrap().0.is_empty());
    b.pop();
    assert_eq!(RegisterStates::from_bytes(&b).unwrap_err(), Error::MalformedTraceFile);
}

#[test]
fn first_bad_memory_record_decides_the_error() {
    let mut p = [0u8; 32];
    p[24..32].copy_from_slice(&0x800000000000011u64.to_le_bytes());
    p[0] = 1;
    let mut b = record(u64::MAX, small(1));
    b.extend(record(0, p));
    assert_eq!(Memory::from_bytes(&b).unwrap_err(), Error::InvalidAddress);
    let mut c = record(0, p);
    c.extend(record(u64::MAX, small(1)));
    assert_eq!(Memory::from_bytes(&c).unwrap_err(), Error::ValueOutOfFieldRange);
}
