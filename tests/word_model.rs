use binary::error::Error;
use binary::memory::Memory;
use binary::uint::Uint256;
use binary::word::Flag;
use binary::word::FlagGroup;
use binary::word::Word;

fn word(low: u64) -> Word {
    Word::new(Uint256::from_u64(low))
}

fn pack(off_dst: u16, off_op0: u16, off_op1: u16, flags: u16) -> u64 {
    off_dst as u64 | (off_op0 as u64) << 16 | (off_op1 as u64) << 32 | (flags as u64) << 48
}

fn memory(records: &[(u64, u64)]) -> Memory {
    let mut bytes = Vec::new();
    for &(address, value) in records {
        bytes.extend_from_slice(&address.to_le_bytes());
        bytes.extend_from_slice(&value.to_le_bytes());
        bytes.extend_from_slice(&[0u8; 24]);
    }
    Memory::from_bytes(&bytes).unwrap()
}

#[test]
fn offsets_are_read_from_their_fields() {
    let w = word(pack(0x1234, 0xabcd, 0x8001, 0));
    assert_eq!(w.get_off_dst(), 0x1234);
    assert_eq!(w.get_off_op0(), 0xabcd);
    assert_eq!(w.get_off_op1(), 0x8001);
}

#[test]
fn flags_are_read_from_bit_48_on() {
    let w = word(pack(0, 0, 0, 1 << 9));
    assert!(w.get_flag(Flag::PcJnz));
    assert!(!w.get_flag(Flag::PcJumpRel));
    assert!(!w.get_flag(Flag::DstReg));
    let all = word(pack(0, 0, 0, 0xffff));
    assert!(!all.get_flag(Flag::Zero));
    assert!(all.get_flag(Flag::OpcodeAssertEq));
}

#[test]
fn flag_prefix_counts_from_the_flag() {
    let w = word(pack(0, 0, 0, 0b0110_0000_0000_0101));
    assert_eq!(w.get_flag_prefix(Flag::DstReg), 0b0110_0000_0000_0101);
    assert_eq!(w.get_flag_prefix(Flag::Op0Reg), 0b0011_0000_0000_0010);
    assert_eq!(w.get_flag_prefix(Flag::OpcodeRet), 0b11);
    assert_eq!(w.get_flag_prefix(Flag::Zero), 0);
}

#[test]
fn flag_groups_of_well_encoded_words() {
    // op1 from ap, res = op0 * op1, jnz, ap += 1, assert_eq
    let flags: u16 = (1 << 4) | (1 << 6) | (1 << 9) | (1 << 11) | (1 << 14) | 1;
    let w = word(pack(0, 0, 0, flags));
    assert_eq!(w.get_flag_group(FlagGroup::DstReg), 1);
    assert_eq!(w.get_flag_group(FlagGroup::Op0Reg), 0);
    assert_eq!(w.get_flag_group(FlagGroup::Op1Src), 4);
    assert_eq!(w.get_flag_group(FlagGroup::ResLogic), 2);
    assert_eq!(w.get_flag_group(FlagGroup::PcUpdate), 4);
    assert_eq!(w.get_flag_group(FlagGroup::ApUpdate), 2);
    assert_eq!(w.get_flag_group(FlagGroup::Opcode), 4);
    for src in [0u16, 1, 2, 4] {
        let v = word(pack(0, 0, 0, src << 2));
        assert!([0, 1, 2, 4].contains(&v.get_flag_group(FlagGroup::Op1Src)));
    }
}

#[test]
fn repacking_decoded_fields_decodes_the_same() {
    let w = word(0x48f0_8001_7ffe_8000 | (0x0123u64 << 48));
    let flags = (w.0.l0 >> 48) as u16;
    let v = word(pack(w.get_off_dst(), w.get_off_op0(), w.get_off_op1(), flags));
    assert_eq!(v.get_off_dst(), w.get_off_dst());
    assert_eq!(v.get_off_op0(), w.get_off_op0());
    assert_eq!(v.get_off_op1(), w.get_off_op1());
    for g in [FlagGroup::DstReg, FlagGroup::Op0Reg, FlagGroup::Op1Src, FlagGroup::ResLogic, FlagGroup::PcUpdate, FlagGroup::ApUpdate, FlagGroup::Opcode] {
        assert_eq!(v.get_flag_group(g), w.get_flag_group(g));
    }
}

#[test]
fn displacements_reach_their_addresses() {
    for d in [-0x8000i64, -3, 0, 1, 0x7fff] {
        let off = (d + 0x8000) as u16;
        let w = word(pack(off, off, off, 0b11));
        let (ap, fp) = (100_000usize, 200_000usize);
        assert_eq!(w.get_dst_addr(ap, fp) as i64 - fp as i64, d);
        assert_eq!(w.get_op0_addr(ap, fp) as i64 - fp as i64, d);
        let a = word(pack(off, off, off, 0));
        assert_eq!(a.get_dst_addr(ap, fp) as i64 - ap as i64, d);
    }
}

#[test]
fn res_adds_multiplies_or_passes_op1() {
    // dst = [ap + 0], op0 = [fp - 1], op1 = [ap + 1] (op1 from ap)
    let mem = memory(&[(10, 6), (19, 7), (11, 5)]);
    let (pc, ap, fp) = (0usize, 10usize, 20usize);
    let base = pack(0x8000, 0x7fff, 0x8001, 0);
    let src_ap_op0_fp = (1 << 4) | (1 << 1);
    let add = word(base | ((src_ap_op0_fp | (1 << 5)) as u64) << 48);
    assert_eq!(add.get_res(pc, ap, fp, &mem).unwrap().l0, 12);
    let mul = word(base | ((src_ap_op0_fp | (1 << 6)) as u64) << 48);
    assert_eq!(mul.get_res(pc, ap, fp, &mem).unwrap().l0, 35);
    let pass = word(base | (src_ap_op0_fp as u64) << 48);
    assert_eq!(pass.get_res(pc, ap, fp, &mem).unwrap().l0, 5);
    assert_eq!(pass.get_op0(ap, fp, &mem).unwrap().l0, 7);
    assert_eq!(pass.get_dst(ap, fp, &mem).unwrap().l0, 6);
    assert_eq!(pass.get_tmp0(ap, fp, &mem).unwrap().l0, 0);
}

#[test]
fn res_of_conditional_jump_is_inverse_of_dst() {
    let mem = memory(&[(10, 2), (11, 0)]);
    let jnz = word(pack(0x8000, 0x8000, 0x8001, 1 << 9));
    let inv = jnz.get_res(0, 10, 10, &mem).unwrap();
    // 2 * inv == 1 mod p: inv = (p + 1) / 2
    assert_eq!(inv, Uint256 { l0: 1, l1: 0, l2: 0x8000000000000000, l3: 0x400000000000008 });
    assert_eq!(jnz.get_tmp0(10, 10, &mem).unwrap().l0, 2);
    assert_eq!(jnz.get_tmp1(0, 10, 10, &mem).unwrap().l0, 1);
    let zero = word(pack(0x8001, 0x8000, 0x8001, 1 << 9));
    assert_eq!(zero.get_res(0, 10, 10, &mem).unwrap(), Uint256::zero());
}

#[test]
fn illegal_and_unresolved_words_fail() {
    let mem = memory(&[(10, 2)]);
    let both = word(pack(0x8000, 0x8000, 0x8001, (1 << 3) | (1 << 4)));
    assert_eq!(both.get_op1_addr(0, 10, 10, &mem), Err(Error::InvalidInstructionEncoding));
    let jnz_add = word(pack(0x8000, 0x8000, 0x8001, (1 << 9) | (1 << 5)));
    assert_eq!(jnz_add.get_res(0, 10, 10, &mem), Err(Error::InvalidInstructionEncoding));
    let hole = word(pack(0x8005, 0x8000, 0x8001, 0));
    assert_eq!(hole.get_dst(10, 10, &mem), Err(Error::UnresolvedMemoryReference));
    let below = word(pack(0x0000, 0x8000, 0x8001, 0));
    assert_eq!(below.get_dst(10, 10, &mem), Err(Error::InvalidAddress));
}

#[test]
fn op1_through_op0_is_indirect() {
    // op0 = [ap + 0] = 12, op1 = [op0 + 1] = [13] = 9
    let mem = memory(&[(10, 12), (13, 9)]);
    let w = word(pack(0x8000, 0x8000, 0x8001, 0));
    assert_eq!(w.get_op1_addr(0, 10, 10, &mem), Ok(13));
    assert_eq!(w.get_op1(0, 10, 10, &mem).unwrap().l0, 9);
    let imm = word(pack(0x8000, 0x8000, 0x8001, 1 << 2));
    assert_eq!(imm.get_op1_addr(11, 10, 10, &mem), Ok(12));
}
