use binary::aux_input::CairoAuxInput;
use binary::error::Error;
use binary::layout::Layout;
use binary::layout::SHARP_CODE_STARKNET;
use binary::public_input::AirPublicInput;
use binary::public_input::MemoryEntry;
use binary::public_input::MemorySegments;
use binary::public_input::Segment;
use binary::uint::Uint256;

fn seg(b: u32, s: u32) -> Segment {
    Segment { begin_addr: b, stop_ptr: s }
}

fn aux() -> CairoAuxInput {
    CairoAuxInput {
        log_n_steps: 10,
        layout: Layout::Starknet,
        initial_ap: Uint256::from_u64(100),
        initial_pc: Uint256::from_u64(1),
        final_ap: Uint256::from_u64(200),
        final_pc: Uint256::from_u64(5),
        range_check_min: 3,
        range_check_max: 60000,
        public_memory_padding: MemoryEntry { address: 1, value: Uint256::from_u64(0x4000) },
        program_segment: seg(1, 5),
        execution_segment: seg(100, 200),
        output_segment: Some(seg(300, 302)),
        pedersen_segment: Some(seg(400, 403)),
        rc_segment: Some(seg(500, 501)),
        ecdsa_segment: Some(seg(600, 602)),
        bitwise_segment: Some(seg(700, 705)),
        ec_op_segment: Some(seg(800, 807)),
        poseidon_segment: Some(seg(900, 906)),
        public_memory: vec![
            MemoryEntry { address: 1, value: Uint256::from_u64(0x4000) },
            MemoryEntry { address: 2, value: Uint256 { l0: 5, l1: 0, l2: 0, l3: 0x100 } },
        ],
    }
}

fn digest() -> Vec<u8> {
    (1..=32).collect()
}

#[test]
fn starknet_encoding_has_fixed_layout() {
    let a = aux();
    let v = a.serialize_sharp(&digest()).unwrap();
    assert_eq!(v.len(), 14 + 11 + 2);
    let small: Vec<u64> = v[..26].iter().map(|u| u.l0).collect();
    assert_eq!(
        small,
        vec![
            10, 3, 60000, SHARP_CODE_STARKNET, 1, 5, 100, 200, 300, 302, 400, 403, 500, 501, 600, 602, 700, 705,
            800, 807, 900, 906, 1, 0x4000, 1, 2
        ]
    );
    assert_eq!(
        v[26],
        Uint256 {
            l0: 0x191a1b1c1d1e1f20,
            l1: 0x1112131415161718,
            l2: 0x090a0b0c0d0e0f10,
            l3: 0x0102030405060708
        }
    );
}

#[test]
fn missing_pedersen_segment_fails() {
    let mut a = aux();
    a.pedersen_segment = None;
    assert_eq!(a.serialize_sharp(&digest()).unwrap_err(), Error::MissingRequiredSegment);
    let mut b = aux();
    b.poseidon_segment = None;
    assert_eq!(b.serialize_sharp(&digest()).unwrap_err(), Error::MissingRequiredSegment);
}

#[test]
fn unsupported_layout_fails() {
    let mut a = aux();
    a.layout = Layout::Recursive;
    assert_eq!(a.serialize_sharp(&digest()).unwrap_err(), Error::UnsupportedLayout);
    assert_eq!(Layout::Dex.sharp_code(), Err(Error::UnsupportedLayout));
    assert_eq!(Layout::Starknet.sharp_code(), Ok(8319381555716711796));
    assert_eq!(Layout::from_sharp_code(8319381555716711796), Ok(Layout::Starknet));
    assert_eq!(Layout::from_sharp_code(7), Err(Error::UnsupportedLayout));
}

#[test]
fn short_digest_fails() {
    assert_eq!(aux().serialize_sharp(&vec![0u8; 31]).unwrap_err(), Error::InvalidDigest);
}

#[test]
fn digest_input_alternates_addresses_and_values() {
    let bytes = aux().public_memory_digest_input();
    assert_eq!(bytes.len(), 4 * 32);
    let mut expected = vec![0u8; 128];
    expected[31] = 1;
    expected[62] = 0x40;
    expected[95] = 2;
    expected[96 + 6] = 0x01;
    expected[127] = 5;
    assert_eq!(bytes, expected);
}

fn public_input(memory: Vec<MemoryEntry<Uint256>>) -> AirPublicInput {
    AirPublicInput {
        rc_min: 0,
        rc_max: 10,
        n_steps: 1024,
        layout: Layout::Starknet,
        memory_segments: MemorySegments {
            program: seg(1, 5),
            execution: seg(100, 200),
            output: None,
            pedersen: None,
            range_check: None,
            ecdsa: None,
            bitwise: None,
            ec_op: None,
            poseidon: None,
        },
        public_memory: memory,
    }
}

#[test]
fn padding_entry_is_found_at_address_one() {
    let p = public_input(vec![
        MemoryEntry { address: 3, value: Uint256::from_u64(9) },
        MemoryEntry { address: 1, value: Uint256::from_u64(8) },
    ]);
    assert_eq!(p.public_memory_padding().unwrap(), MemoryEntry { address: 1, value: Uint256::from_u64(8) });
    assert_eq!((p.initial_pc(), p.final_pc(), p.initial_ap(), p.final_ap()), (1, 5, 100, 200));
}

#[test]
fn padding_lookup_without_address_one_fails() {
    let p = public_input(vec![MemoryEntry { address: 2, value: Uint256::from_u64(8) }]);
    assert_eq!(p.public_memory_padding().unwrap_err(), Error::MissingPaddingEntry);
    assert_eq!(public_input(Vec::new()).public_memory_padding().unwrap_err(), Error::MissingPaddingEntry);
}

#[test]
fn felt_entries_must_be_below_the_modulus() {
    let ok = MemoryEntry { address: 4, value: Uint256 { l0: 0, l1: 0, l2: 0, l3: 0x800000000000011 } };
    assert_eq!(ok.try_into_felt_entry(), Some(ok));
    let bad = MemoryEntry { address: 4, value: Uint256 { l0: 1, l1: 0, l2: 0, l3: 0x800000000000011 } };
    assert_eq!(bad.try_into_felt_entry(), None);
}

#[test]
fn aux_input_from_public_input() {
    let p = public_input(vec![
        MemoryEntry { address: 1, value: Uint256::from_u64(8) },
        MemoryEntry { address: 2, value: Uint256::from_u64(9) },
    ]);
    let a = CairoAuxInput::try_from_public_input(&p).unwrap();
    assert_eq!(a.log_n_steps, 10);
    assert_eq!(a.initial_pc, Uint256::from_u64(1));
    assert_eq!(a.final_pc, Uint256::from_u64(5));
    assert_eq!(a.initial_ap, Uint256::from_u64(100));
    assert_eq!(a.final_ap, Uint256::from_u64(200));
    assert_eq!(a.public_memory_padding, MemoryEntry { address: 1, value: Uint256::from_u64(8) });
    assert_eq!(a.public_memory, p.public_memory);
    assert_eq!(a.serialize_sharp(&digest()).unwrap_err(), Error::MissingRequiredSegment);
}

#[test]
fn aux_input_rejects_bad_public_input() {
    let mut p = public_input(vec![MemoryEntry { address: 1, value: Uint256::from_u64(8) }]);
    p.n_steps = 1000;
    assert_eq!(CairoAuxInput::try_from_public_input(&p).unwrap_err(), Error::InvalidStepCount);
    p.n_steps = 1;
    assert_eq!(CairoAuxInput::try_from_public_input(&p).unwrap().log_n_steps, 0);
    p.n_steps = 0;
    assert_eq!(CairoAuxInput::try_from_public_input(&p).unwrap_err(), Error::InvalidStepCount);
    p.n_steps = 1 << 63;
    assert_eq!(CairoAuxInput::try_from_public_input(&p).unwrap().log_n_steps, 63);
    let no_padding = public_input(vec![MemoryEntry { address: 2, value: Uint256::from_u64(8) }]);
    assert_eq!(CairoAuxInput::try_from_public_input(&no_padding).unwrap_err(), Error::MissingPaddingEntry);
    let too_big = public_input(vec![
        MemoryEntry { address: 1, value: Uint256::from_u64(8) },
        MemoryEntry { address: 2, value: Uint256 { l0: 1, l1: 0, l2: 0, l3: 0x800000000000011 } },
    ]);
    assert_eq!(CairoAuxInput::try_from_public_input(&too_big).unwrap_err(), Error::ValueOutOfFieldRange);
}

#[test]
fn aux_input_padding_is_first_entry_at_address_one() {
    let p = public_input(vec![
        MemoryEntry { address: 1, value: Uint256::from_u64(8) },
        MemoryEntry { address: 1, value: Uint256::from_u64(9) },
    ]);
    let a = CairoAuxInput::try_from_public_input(&p).unwrap();
    assert_eq!(a.public_memory_padding.value, Uint256::from_u64(8));
}

#[test]
fn public_input_validation() {
    let p = public_input(vec![MemoryEntry { address: 1, value: Uint256::from_u64(8) }]);
    assert_eq!(p.validate(), Ok(()));
    let mut q = p.clone();
    q.layout = Layout::Small;
    assert_eq!(q.validate(), Err(Error::UnsupportedLayout));
    assert_eq!(public_input(Vec::new()).validate(), Err(Error::MissingPaddingEntry));
}

#[test]
fn memory_entries_order_and_encode() {
    let a = MemoryEntry { address: 1, value: Uint256::from_u64(9) };
    let b = MemoryEntry { address: 2, value: Uint256::from_u64(3) };
    assert!(a < b);
    let c = MemoryEntry { address: 1, value: Uint256 { l0: 0, l1: 1, l2: 0, l3: 0 } };
    assert!(a < c);
    let bytes = MemoryEntry { address: 0x0102, value: Uint256 { l0: 0xaa, l1: 0, l2: 0, l3: 0xbb00 } }.to_canonical_bytes();
    let mut expected = vec![0u8; 36];
    expected[0] = 0xaa;
    expected[25] = 0xbb;
    expected[32] = 0x02;
    expected[33] = 0x01;
    assert_eq!(bytes, expected);
}
