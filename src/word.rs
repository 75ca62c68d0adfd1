//! The packed instruction word: three biased 16-bit offsets at bits 0, 16
//! and 32, and sixteen flags from bit 48 on. Every bit that decoding reads
//! lies in the lowest 64-bit limb.
use crate::error::Error;
use crate::field::felt_add;
use crate::field::felt_inverse_or_zero;
use crate::field::felt_mul;
use crate::field::field_modulus;
use crate::field::inv_or_zero;
use crate::field::modulus;
use crate::field::reduce;
use crate::memory::Memory;
use crate::uint::Uint256;
use vstd::prelude::*;

verus! {

/// Bit position of `off_dst`.
pub const OFF_DST_BIT_OFFSET: u64 = 0;
/// Bit position of `off_op0`.
pub const OFF_OP0_BIT_OFFSET: u64 = 16;
/// Bit position of `off_op1`.
pub const OFF_OP1_BIT_OFFSET: u64 = 32;
/// Bit position of the first flag.
pub const FLAGS_BIT_OFFSET: u64 = 48;
/// Mask of one offset field.
pub const OFF_MASK: u64 = 0xFFFF;
/// The bias subtracted from every offset.
pub const HALF_OFFSET: u64 = 0x8000;

/// A group of flags that together select one behaviour.
#[derive(Clone, Copy, Debug, PartialEq, Eq, Structural)]
pub enum FlagGroup {
    DstReg,
    Op0Reg,
    Op1Src,
    ResLogic,
    PcUpdate,
    ApUpdate,
    Opcode,
}

/// An instruction flag; `Zero` is padding and always unset.
#[derive(Clone, Copy, Debug, PartialEq, Eq, Structural)]
pub enum Flag {
    DstReg,
    Op0Reg,
    Op1Imm,
    Op1Fp,
    Op1Ap,
    ResAdd,
    ResMul,
    PcJumpAbs,
    PcJumpRel,
    PcJnz,
    ApAdd,
    ApAdd1,
    OpcodeCall,
    OpcodeRet,
    OpcodeAssertEq,
    Zero,
}

impl Flag {
    /// The flag's position among the flags.
    pub open spec fn spec_index(self) -> u64 {
        match self {
            Flag::DstReg => 0,
            Flag::Op0Reg => 1,
            Flag::Op1Imm => 2,
            Flag::Op1Fp => 3,
            Flag::Op1Ap => 4,
            Flag::ResAdd => 5,
            Flag::ResMul => 6,
            Flag::PcJumpAbs => 7,
            Flag::PcJumpRel => 8,
            Flag::PcJnz => 9,
            Flag::ApAdd => 10,
            Flag::ApAdd1 => 11,
            Flag::OpcodeCall => 12,
            Flag::OpcodeRet => 13,
            Flag::OpcodeAssertEq => 14,
            Flag::Zero => 15,
        }
    }

    pub fn index(&self) -> (r: u64)
        ensures
            r == self.spec_index(),
    {
        match self {
            Flag::DstReg => 0,
            Flag::Op0Reg => 1,
            Flag::Op1Imm => 2,
            Flag::Op1Fp => 3,
            Flag::Op1Ap => 4,
            Flag::ResAdd => 5,
            Flag::ResMul => 6,
            Flag::PcJumpAbs => 7,
            Flag::PcJumpRel => 8,
            Flag::PcJnz => 9,
            Flag::ApAdd => 10,
            Flag::ApAdd1 => 11,
            Flag::OpcodeCall => 12,
            Flag::OpcodeRet => 13,
            Flag::OpcodeAssertEq => 14,
            Flag::Zero => 15,
        }
    }
}

/// Bit `k` (below 64) of a limb.
pub open spec fn limb_bit(x: u64, k: u64) -> bool {
    (x >> k) & 1u64 == 1u64
}

/// The 16-bit field of a limb at bit `k`.
pub open spec fn limb_field(x: u64, k: u64) -> u64 {
    (x >> k) & 0xFFFFu64
}

/// The low limb built from three offsets and the flag bits.
pub open spec fn encode_low(off_dst: u64, off_op0: u64, off_op1: u64, flags: u64) -> u64 {
    off_dst | (off_op0 << 16u64) | (off_op1 << 32u64) | (flags << 48u64)
}

/// The value of a group: its flags weighted 1, 2 and 4.
pub open spec fn group_of(w: Word, g: FlagGroup) -> u8 {
    let b = |f: Flag| if w.flag(f) { 1u8 } else { 0u8 };
    match g {
        FlagGroup::DstReg => b(Flag::DstReg),
        FlagGroup::Op0Reg => b(Flag::Op0Reg),
        FlagGroup::Op1Src => (b(Flag::Op1Imm) + 2 * b(Flag::Op1Fp) + 4 * b(Flag::Op1Ap)) as u8,
        FlagGroup::ResLogic => (b(Flag::ResAdd) + 2 * b(Flag::ResMul)) as u8,
        FlagGroup::PcUpdate => (b(Flag::PcJumpAbs) + 2 * b(Flag::PcJumpRel) + 4 * b(Flag::PcJnz)) as u8,
        FlagGroup::ApUpdate => (b(Flag::ApAdd) + 2 * b(Flag::ApAdd1)) as u8,
        FlagGroup::Opcode => (b(Flag::OpcodeCall) + 2 * b(Flag::OpcodeRet) + 4 * b(
            Flag::OpcodeAssertEq,
        )) as u8,
    }
}

/// At most one flag of each group is set.
pub open spec fn well_encoded(w: Word) -> bool {
    let n = |f: Flag| if w.flag(f) { 1int } else { 0int };
    &&& n(Flag::Op1Imm) + n(Flag::Op1Fp) + n(Flag::Op1Ap) <= 1
    &&& n(Flag::ResAdd) + n(Flag::ResMul) <= 1
    &&& n(Flag::PcJumpAbs) + n(Flag::PcJumpRel) + n(Flag::PcJnz) <= 1
    &&& n(Flag::ApAdd) + n(Flag::ApAdd1) <= 1
    &&& n(Flag::OpcodeCall) + n(Flag::OpcodeRet) + n(Flag::OpcodeAssertEq) <= 1
}

/// `off + base - 2^15`, the address an offset reaches from a base.
pub open spec fn biased(off: u16, base: int) -> int {
    off + base - HALF_OFFSET
}

/// `biased(off, base)` as a machine word, where it is one.
pub open spec fn address_of(off: u16, base: int) -> Result<usize, Error> {
    let a = biased(off, base);
    if 0 <= a <= usize::MAX {
        Ok(a as usize)
    } else {
        Err(Error::InvalidAddress)
    }
}

/// The field element at address `a`.
pub open spec fn read_spec(mem: Memory, a: Result<usize, Error>) -> Result<nat, Error> {
    match a {
        Err(e) => Err(e),
        Ok(a) => if a < mem.cells@.len() && mem.cells@[a as int] is Some {
            Ok(mem.cells@[a as int]->Some_0.0.val() % field_modulus())
        } else {
            Err(Error::UnresolvedMemoryReference)
        },
    }
}

/// A packed instruction.
#[derive(Clone, Copy, Debug, PartialEq, Eq, Structural)]
pub struct Word(pub Uint256);

impl Word {
    pub open spec fn flag(self, f: Flag) -> bool {
        f != Flag::Zero && limb_bit(self.0.l0, (FLAGS_BIT_OFFSET + f.spec_index()) as u64)
    }

    pub open spec fn off_dst_spec(self) -> u16 {
        limb_field(self.0.l0, OFF_DST_BIT_OFFSET) as u16
    }

    pub open spec fn off_op0_spec(self) -> u16 {
        limb_field(self.0.l0, OFF_OP0_BIT_OFFSET) as u16
    }

    pub open spec fn off_op1_spec(self) -> u16 {
        limb_field(self.0.l0, OFF_OP1_BIT_OFFSET) as u16
    }

    pub open spec fn dst_base(self, ap: usize, fp: usize) -> int {
        if self.flag(Flag::DstReg) { fp as int } else { ap as int }
    }

    pub open spec fn op0_base(self, ap: usize, fp: usize) -> int {
        if self.flag(Flag::Op0Reg) { fp as int } else { ap as int }
    }

    pub open spec fn dst_addr_spec(self, ap: usize, fp: usize) -> int {
        biased(self.off_dst_spec(), self.dst_base(ap, fp))
    }

    pub open spec fn op0_addr_spec(self, ap: usize, fp: usize) -> int {
        biased(self.off_op0_spec(), self.op0_base(ap, fp))
    }

    pub open spec fn dst_spec(self, ap: usize, fp: usize, mem: Memory) -> Result<nat, Error> {
        read_spec(mem, address_of(self.off_dst_spec(), self.dst_base(ap, fp)))
    }

    pub open spec fn op0_spec(self, ap: usize, fp: usize, mem: Memory) -> Result<nat, Error> {
        read_spec(mem, address_of(self.off_op0_spec(), self.op0_base(ap, fp)))
    }

    /// The base register (or memory value) that `off_op1` is added to.
    pub open spec fn op1_base(self, pc: usize, ap: usize, fp: usize, mem: Memory) -> Result<int, Error> {
        let src = group_of(self, FlagGroup::Op1Src);
        if src == 0 {
            match address_of(self.off_op0_spec(), self.op0_base(ap, fp)) {
                Err(e) => Err(e),
                Ok(a) => if a < mem.cells@.len() && mem.cells@[a as int] is Some {
                    let v = mem.cells@[a as int]->Some_0.0.val();
                    if v <= usize::MAX {
                        Ok(v as int)
                    } else {
                        Err(Error::InvalidAddress)
                    }
                } else {
                    Err(Error::UnresolvedMemoryReference)
                },
            }
        } else if src == 1 {
            Ok(pc as int)
        } else if src == 2 {
            Ok(fp as int)
        } else if src == 4 {
            Ok(ap as int)
        } else {
            Err(Error::InvalidInstructionEncoding)
        }
    }

    pub open spec fn op1_addr_spec(self, pc: usize, ap: usize, fp: usize, mem: Memory) -> Result<usize, Error> {
        match self.op1_base(pc, ap, fp, mem) {
            Err(e) => Err(e),
            Ok(b) => address_of(self.off_op1_spec(), b),
        }
    }

    pub open spec fn op1_spec(self, pc: usize, ap: usize, fp: usize, mem: Memory) -> Result<nat, Error> {
        read_spec(mem, self.op1_addr_spec(pc, ap, fp, mem))
    }

    pub open spec fn res_spec(self, pc: usize, ap: usize, fp: usize, mem: Memory) -> Result<nat, Error> {
        let pc_update = group_of(self, FlagGroup::PcUpdate);
        let res_logic = group_of(self, FlagGroup::ResLogic);
        if pc_update == 4 {
            if res_logic == 0 && group_of(self, FlagGroup::Opcode) == 0 && group_of(self, FlagGroup::ApUpdate) != 1 {
                match self.dst_spec(ap, fp, mem) {
                    Err(e) => Err(e),
                    Ok(d) => Ok(inv_or_zero(d as int)),
                }
            } else {
                Err(Error::InvalidInstructionEncoding)
            }
        } else if pc_update <= 2 {
            match self.op0_spec(ap, fp, mem) {
                Err(e) => Err(e),
                Ok(op0) => match self.op1_spec(pc, ap, fp, mem) {
                    Err(e) => Err(e),
                    Ok(op1) => if res_logic == 0 {
                        Ok(op1)
                    } else if res_logic == 1 {
                        Ok((op0 + op1) % field_modulus())
                    } else if res_logic == 2 {
                        Ok((op0 * op1) % field_modulus())
                    } else {
                        Err(Error::InvalidInstructionEncoding)
                    },
                },
            }
        } else {
            Err(Error::InvalidInstructionEncoding)
        }
    }

    pub open spec fn tmp0_spec(self, ap: usize, fp: usize, mem: Memory) -> Result<nat, Error> {
        if self.flag(Flag::PcJnz) {
            self.dst_spec(ap, fp, mem)
        } else {
            Ok(0)
        }
    }

    /// A word from its 256-bit value.
    pub fn new(word: Uint256) -> (r: Self)
        ensures
            r.0 == word,
    {
        Word(word)
    }

    /// The flags from `flag` up to the padding flag, as an integer (zero
    /// for `Zero`).
    pub fn get_flag_prefix(&self, flag: Flag) -> (r: u16)
        ensures
            flag == Flag::Zero ==> r == 0,
            flag != Flag::Zero ==> r as u64 == (self.0.l0 >> (FLAGS_BIT_OFFSET + flag.spec_index()) as u64)
                & (0x7FFFu64 >> flag.spec_index()),
    {
        if flag == Flag::Zero {
            return 0;
        }
        let i = flag.index();
        let x = self.0.l0;
        let prefix = x >> (FLAGS_BIT_OFFSET + i);
        let mask = 0x7FFFu64 >> i;
        assert(prefix & (0x7FFFu64 >> i) <= 0x7FFFu64) by (bit_vector);
        (prefix & mask) as u16
    }

    pub fn get_flag(&self, flag: Flag) -> (r: bool)
        ensures
            r == self.flag(flag),
    {
        if flag == Flag::Zero {
            return false;
        }
        let x = self.0.l0;
        (x >> (FLAGS_BIT_OFFSET + flag.index())) & 1 == 1
    }

    pub fn get_off_dst(&self) -> (r: u16)
        ensures
            r == self.off_dst_spec(),
    {
        let x = self.0.l0;
        assert((x >> 0u64) & 0xFFFFu64 <= 0xFFFFu64) by (bit_vector);
        ((x >> OFF_DST_BIT_OFFSET) & OFF_MASK) as u16
    }

    pub fn get_off_op0(&self) -> (r: u16)
        ensures
            r == self.off_op0_spec(),
    {
        let x = self.0.l0;
        assert((x >> 16u64) & 0xFFFFu64 <= 0xFFFFu64) by (bit_vector);
        ((x >> OFF_OP0_BIT_OFFSET) & OFF_MASK) as u16
    }

    pub fn get_off_op1(&self) -> (r: u16)
        ensures
            r == self.off_op1_spec(),
    {
        let x = self.0.l0;
        assert((x >> 32u64) & 0xFFFFu64 <= 0xFFFFu64) by (bit_vector);
        ((x >> OFF_OP1_BIT_OFFSET) & OFF_MASK) as u16
    }

    pub fn get_flag_group(&self, flag_group: FlagGroup) -> (r: u8)
        ensures
            r == group_of(*self, flag_group),
    {
        let b = |f: Flag| -> (r: u8)
            ensures
                r == (if self.flag(f) { 1u8 } else { 0u8 }),
            {
                if self.get_flag(f) { 1u8 } else { 0u8 }
            };
        match flag_group {
            FlagGroup::DstReg => b(Flag::DstReg),
            FlagGroup::Op0Reg => b(Flag::Op0Reg),
            FlagGroup::Op1Src => b(Flag::Op1Imm) + b(Flag::Op1Fp) * 2 + b(Flag::Op1Ap) * 4,
            FlagGroup::ResLogic => b(Flag::ResAdd) + b(Flag::ResMul) * 2,
            FlagGroup::PcUpdate => b(Flag::PcJumpAbs) + b(Flag::PcJumpRel) * 2 + b(Flag::PcJnz) * 4,
            FlagGroup::ApUpdate => b(Flag::ApAdd) + b(Flag::ApAdd1) * 2,
            FlagGroup::Opcode => b(Flag::OpcodeCall) + b(Flag::OpcodeRet) * 2 + b(Flag::OpcodeAssertEq) * 4,
        }
    }

    /// `off_dst + (fp or ap) - 2^15`.
    pub fn get_dst_addr(&self, ap: usize, fp: usize) -> (r: usize)
        requires
            0 <= self.dst_addr_spec(ap, fp) <= usize::MAX,
        ensures
            r == self.dst_addr_spec(ap, fp),
    {
        let base = if self.get_flag(Flag::DstReg) { fp } else { ap };
        let off = self.get_off_dst() as usize;
        if base >= HALF_OFFSET as usize {
            (base - HALF_OFFSET as usize) + off
        } else {
            off - (HALF_OFFSET as usize - base)
        }
    }

    /// `off_op0 + (fp or ap) - 2^15`.
    pub fn get_op0_addr(&self, ap: usize, fp: usize) -> (r: usize)
        requires
            0 <= self.op0_addr_spec(ap, fp) <= usize::MAX,
        ensures
            r == self.op0_addr_spec(ap, fp),
    {
        let base = if self.get_flag(Flag::Op0Reg) { fp } else { ap };
        let off = self.get_off_op0() as usize;
        if base >= HALF_OFFSET as usize {
            (base - HALF_OFFSET as usize) + off
        } else {
            off - (HALF_OFFSET as usize - base)
        }
    }

    /// The word as a field element.
    pub fn into_felt(self) -> (r: Uint256)
        ensures
            r.val() == self.0.val() % field_modulus(),
    {
        reduce(&self.0, &modulus())
    }

    pub fn get_dst(&self, ap: usize, fp: usize, mem: &Memory) -> (r: Result<Uint256, Error>)
        ensures
            r matches Ok(v) ==> self.dst_spec(ap, fp, *mem) == Ok::<nat, Error>(v.val()),
            r matches Err(e) ==> self.dst_spec(ap, fp, *mem) == Err::<nat, Error>(e),
    {
        let base = if self.get_flag(Flag::DstReg) { fp } else { ap };
        read_at(mem, offset_address(self.get_off_dst(), base))
    }

    pub fn get_op0(&self, ap: usize, fp: usize, mem: &Memory) -> (r: Result<Uint256, Error>)
        ensures
            r matches Ok(v) ==> self.op0_spec(ap, fp, *mem) == Ok::<nat, Error>(v.val()),
            r matches Err(e) ==> self.op0_spec(ap, fp, *mem) == Err::<nat, Error>(e),
    {
        let base = if self.get_flag(Flag::Op0Reg) { fp } else { ap };
        read_at(mem, offset_address(self.get_off_op0(), base))
    }

    pub fn get_op1_addr(&self, pc: usize, ap: usize, fp: usize, mem: &Memory) -> (r: Result<usize, Error>)
        ensures
            r == self.op1_addr_spec(pc, ap, fp, *mem),
    {
        let src = self.get_flag_group(FlagGroup::Op1Src);
        let base: usize = if src == 0 {
            let op0_base = if self.get_flag(Flag::Op0Reg) { fp } else { ap };
            let a = offset_address(self.get_off_op0(), op0_base)?;
            if a >= mem.cells.len() {
                return Err(Error::UnresolvedMemoryReference);
            }
            match mem.cells[a] {
                None => return Err(Error::UnresolvedMemoryReference),
                Some(w) => {
                    let v = w.0;
                    if v.l1 != 0 || v.l2 != 0 || v.l3 != 0 || v.l0 > usize::MAX as u64 {
                        proof {
                            crate::uint::lemma_low_limb(v);
                            assert(v.val() > usize::MAX) by (nonlinear_arith)
                                requires
                                    v.val() as int / crate::uint::limb_base() as int == v.l1 + crate::uint::limb_base() * (v.l2 + crate::uint::limb_base() * v.l3),
                                    v.val() as int % crate::uint::limb_base() as int == v.l0,
                                    v.l1 != 0 || v.l2 != 0 || v.l3 != 0 || v.l0 > usize::MAX,
                                    crate::uint::limb_base() == 0x1_0000_0000_0000_0000int,
                                    usize::MAX < crate::uint::limb_base();
                        }
                        return Err(Error::InvalidAddress);
                    }
                    v.l0 as usize
                },
            }
        } else if src == 1 {
            pc
        } else if src == 2 {
            fp
        } else if src == 4 {
            ap
        } else {
            return Err(Error::InvalidInstructionEncoding);
        };
        offset_address(self.get_off_op1(), base)
    }

    pub fn get_op1(&self, pc: usize, ap: usize, fp: usize, mem: &Memory) -> (r: Result<Uint256, Error>)
        ensures
            r matches Ok(v) ==> self.op1_spec(pc, ap, fp, *mem) == Ok::<nat, Error>(v.val()),
            r matches Err(e) ==> self.op1_spec(pc, ap, fp, *mem) == Err::<nat, Error>(e),
    {
        let a = self.get_op1_addr(pc, ap, fp, mem);
        read_at(mem, a)
    }

    /// The instruction's `res`: `op1`, `op0 + op1` or `op0 * op1` by the
    /// result logic; for a conditional jump, the inverse of `dst` (zero where
    /// `dst` is zero).
    pub fn get_res(&self, pc: usize, ap: usize, fp: usize, mem: &Memory) -> (r: Result<Uint256, Error>)
        ensures
            r matches Ok(v) ==> self.res_spec(pc, ap, fp, *mem) == Ok::<nat, Error>(v.val()),
            r matches Err(e) ==> self.res_spec(pc, ap, fp, *mem) == Err::<nat, Error>(e),
    {
        let pc_update = self.get_flag_group(FlagGroup::PcUpdate);
        let res_logic = self.get_flag_group(FlagGroup::ResLogic);
        if pc_update == 4 {
            let opcode = self.get_flag_group(FlagGroup::Opcode);
            let ap_update = self.get_flag_group(FlagGroup::ApUpdate);
            if res_logic == 0 && opcode == 0 && ap_update != 1 {
                let dst = self.get_dst(ap, fp, mem)?;
                Ok(felt_inverse_or_zero(&dst))
            } else {
                Err(Error::InvalidInstructionEncoding)
            }
        } else if pc_update <= 2 {
            let op0 = self.get_op0(ap, fp, mem)?;
            let op1 = self.get_op1(pc, ap, fp, mem)?;
            if res_logic == 0 {
                Ok(op1)
            } else if res_logic == 1 {
                Ok(felt_add(&op0, &op1))
            } else if res_logic == 2 {
                Ok(felt_mul(&op0, &op1))
            } else {
                Err(Error::InvalidInstructionEncoding)
            }
        } else {
            Err(Error::InvalidInstructionEncoding)
        }
    }

    /// `dst` for a conditional jump, else zero.
    pub fn get_tmp0(&self, ap: usize, fp: usize, mem: &Memory) -> (r: Result<Uint256, Error>)
        ensures
            r matches Ok(v) ==> self.tmp0_spec(ap, fp, *mem) == Ok::<nat, Error>(v.val()),
            r matches Err(e) ==> self.tmp0_spec(ap, fp, *mem) == Err::<nat, Error>(e),
    {
        if self.get_flag(Flag::PcJnz) {
            self.get_dst(ap, fp, mem)
        } else {
            Ok(Uint256::zero())
        }
    }

    /// `tmp0 * res`.
    pub fn get_tmp1(&self, pc: usize, ap: usize, fp: usize, mem: &Memory) -> (r: Result<Uint256, Error>)
        ensures
            r matches Ok(v) ==> (self.tmp0_spec(ap, fp, *mem), self.res_spec(pc, ap, fp, *mem)) matches (
                Ok(t),
                Ok(s),
            ) && v.val() == (t * s) % field_modulus(),
            r matches Err(e) ==> self.tmp0_spec(ap, fp, *mem) == Err::<nat, Error>(e) || (
            self.tmp0_spec(ap, fp, *mem) is Ok && self.res_spec(pc, ap, fp, *mem) == Err::<nat, Error>(e)),
    {
        let t = self.get_tmp0(ap, fp, mem)?;
        let s = self.get_res(pc, ap, fp, mem)?;
        Ok(felt_mul(&t, &s))
    }
}

/// `off + base - 2^15` as a machine word, where it is one.
fn offset_address(off: u16, base: usize) -> (r: Result<usize, Error>)
    ensures
        r == address_of(off, base as int),
{
    if base as u128 + off as u128 >= HALF_OFFSET as u128 && base as u128 + off as u128 - HALF_OFFSET as u128 <= usize::MAX as u128 {
        Ok((base as u128 + off as u128 - HALF_OFFSET as u128) as usize)
    } else {
        Err(Error::InvalidAddress)
    }
}

/// The field element stored at an address.
fn read_at(mem: &Memory, a: Result<usize, Error>) -> (r: Result<Uint256, Error>)
    ensures
        r matches Ok(v) ==> read_spec(*mem, a) == Ok::<nat, Error>(v.val()),
        r matches Err(e) ==> read_spec(*mem, a) == Err::<nat, Error>(e),
{
    let a = a?;
    if a >= mem.cells.len() {
        return Err(Error::UnresolvedMemoryReference);
    }
    match mem.cells[a] {
        None => Err(Error::UnresolvedMemoryReference),
        Some(w) => Ok(w.into_felt()),
    }
}

/// The flag groups of a word with at most one flag per group take only the
/// values that name a behaviour: 0 or 1 for a register choice, 0, 1 or 2
/// for a two-flag group, and 0, 1, 2 or 4 for a three-flag group.
pub proof fn lemma_flag_groups_in_range(w: Word)
    requires
        well_encoded(w),
    ensures
        group_of(w, FlagGroup::DstReg) <= 1,
        group_of(w, FlagGroup::Op0Reg) <= 1,
        group_of(w, FlagGroup::Op1Src) == 0 || group_of(w, FlagGroup::Op1Src) == 1 || group_of(w, FlagGroup::Op1Src) == 2 || group_of(w, FlagGroup::Op1Src) == 4,
        group_of(w, FlagGroup::ResLogic) <= 2,
        group_of(w, FlagGroup::PcUpdate) == 0 || group_of(w, FlagGroup::PcUpdate) == 1 || group_of(w, FlagGroup::PcUpdate) == 2 || group_of(w, FlagGroup::PcUpdate) == 4,
        group_of(w, FlagGroup::ApUpdate) <= 2,
        group_of(w, FlagGroup::Opcode) == 0 || group_of(w, FlagGroup::Opcode) == 1 || group_of(w, FlagGroup::Opcode) == 2 || group_of(w, FlagGroup::Opcode) == 4,
{
}

/// Packing a word's offsets and flags into a fresh value and decoding that
/// value again gives the same offsets and flags.
pub proof fn lemma_encode_decode_round_trip(w: Word)
    ensures
        ({
            let x = encode_low(w.off_dst_spec() as u64, w.off_op0_spec() as u64, w.off_op1_spec() as u64, w.0.l0 >> 48u64);
            let v = Word(Uint256 { l0: x, l1: 0, l2: 0, l3: 0 });
            &&& v.off_dst_spec() == w.off_dst_spec()
            &&& v.off_op0_spec() == w.off_op0_spec()
            &&& v.off_op1_spec() == w.off_op1_spec()
            &&& forall|f: Flag| #[trigger] v.flag(f) == w.flag(f)
        }),
{
    let l = w.0.l0;
    let x = encode_low(l & 0xFFFFu64, (l >> 16u64) & 0xFFFFu64, (l >> 32u64) & 0xFFFFu64, l >> 48u64);
    assert(x == l) by (bit_vector)
        requires x == ((l & 0xFFFFu64) | (((l >> 16u64) & 0xFFFFu64) << 16u64) | (((l >> 32u64) & 0xFFFFu64) << 32u64) | ((l >> 48u64) << 48u64));
    assert((l >> 0u64) & 0xFFFFu64 == l & 0xFFFFu64) by (bit_vector);
    assert((l & 0xFFFFu64) as u16 as u64 == l & 0xFFFFu64) by (bit_vector);
    assert(((l >> 16u64) & 0xFFFFu64) as u16 as u64 == (l >> 16u64) & 0xFFFFu64) by (bit_vector);
    assert(((l >> 32u64) & 0xFFFFu64) as u16 as u64 == (l >> 32u64) & 0xFFFFu64) by (bit_vector);
}

/// An offset built from a displacement `d` in `[-2^15, 2^15)` reaches
/// exactly `d` past its base register.
pub proof fn lemma_offset_displacement(w: Word, ap: usize, fp: usize, d: int)
    requires
        -0x8000 <= d < 0x8000,
    ensures
        w.off_dst_spec() == d + 0x8000 ==> w.dst_addr_spec(ap, fp) - w.dst_base(ap, fp) == d,
        w.off_op0_spec() == d + 0x8000 ==> w.op0_addr_spec(ap, fp) - w.op0_base(ap, fp) == d,
        forall|b: int| w.off_op1_spec() == d + 0x8000 ==> #[trigger] biased(w.off_op1_spec(), b) - b == d,
        forall|pc: usize, mem: Memory| #[trigger] w.op1_base(pc, ap, fp, mem) is Ok && w.off_op1_spec() == d + 0x8000
            && 0 <= w.op1_base(pc, ap, fp, mem)->Ok_0 + d <= usize::MAX ==> w.op1_addr_spec(pc, ap, fp, mem)
            == Ok::<usize, Error>((w.op1_base(pc, ap, fp, mem)->Ok_0 + d) as usize),
{
}

} // verus!
