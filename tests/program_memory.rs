use binary::error::Error;
use binary::program::CompiledProgram;
use binary::public_input::EcdsaInstance;
use binary::public_input::PedersenInstance;
use binary::public_input::Signature;
use binary::uint::Uint256;

const PRIME: &str = "0x800000000000011000000000000000000000000000000000000000000000001";

#[test]
fn program_words_start_at_address_one() {
    let p = CompiledProgram {
        data: vec![Uint256::from_u64(7), Uint256 { l0: 3, l1: 0, l2: 0, l3: 0x800000000000011 }],
        prime: PRIME.to_string(),
    };
    assert!(p.validate());
    let m = p.program_memory().unwrap();
    assert_eq!(m.len(), 2);
    assert_eq!((m[0].address, m[0].value), (1, Uint256::from_u64(7)));
    assert_eq!((m[1].address, m[1].value), (2, Uint256::from_u64(2)));
}

#[test]
fn program_for_another_field_is_refused() {
    let upper = CompiledProgram { data: Vec::new(), prime: PRIME.to_uppercase().replace("0X", "0x") };
    assert!(upper.validate());
    let other = CompiledProgram { data: Vec::new(), prime: "0x7fffffff".to_string() };
    assert!(!other.validate());
    assert_eq!(other.program_memory().unwrap_err(), Error::UnexpectedModulus);
}

#[test]
fn instance_addresses_follow_the_index() {
    let e = EcdsaInstance {
        index: 3,
        pubkey_x: Uint256::zero(),
        message: Uint256::zero(),
        signature: Signature { r: Uint256::zero(), w: Uint256::zero() },
    };
    assert_eq!(e.mem_addr(100), (106, 107));
    let p = PedersenInstance::new_empty(2);
    assert_eq!(p.mem_addr(10), (16, 17, 18));
}
