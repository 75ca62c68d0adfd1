//! The public input of a run (segments, range-check bounds, step count,
//! layout, public memory) and the private instances of the builtins.
use crate::error::Error;
use crate::field::field_modulus;
use crate::field::is_canonical;
use crate::layout::Layout;
use crate::uint::Uint256;
use vstd::prelude::*;

verus! {

/// The address of the public memory entry used as padding.
pub const PADDING_ADDRESS: u32 = 1;

/// A value placed at an address; entries order by address, then value.
#[derive(Clone, Copy, Debug, PartialEq, Eq, PartialOrd, Ord)]
pub struct MemoryEntry<T> {
    pub address: u32,
    pub value: T,
}

/// Byte `i` of the 32-byte little-endian form of `v`.
pub open spec fn le_byte(v: Uint256, i: int) -> u8 {
    let limb = if i < 8 { v.l0 } else if i < 16 { v.l1 } else if i < 24 { v.l2 } else { v.l3 };
    ((limb >> (8 * (i % 8)) as u64) & 0xffu64) as u8
}

/// Byte `i` of the 4-byte little-endian form of `a`.
pub open spec fn addr_byte(a: u32, i: int) -> u8 {
    ((a >> (8 * i) as u32) & 0xffu32) as u8
}

/// The canonical encoding of an entry: the value's 32 little-endian bytes,
/// then the address's 4 little-endian bytes.
pub open spec fn canonical_bytes(e: MemoryEntry<Uint256>) -> Seq<u8> {
    Seq::new(32, |i: int| le_byte(e.value, i)) + Seq::new(4, |i: int| addr_byte(e.address, i))
}

impl MemoryEntry<Uint256> {
    /// The canonical encoding: value first, then address.
    pub fn to_canonical_bytes(&self) -> (r: Vec<u8>)
        ensures
            r@ == canonical_bytes(*self),
    {
        let limbs = [self.value.l0, self.value.l1, self.value.l2, self.value.l3];
        let mut out: Vec<u8> = Vec::new();
        let mut i: usize = 0;
        while i < 32
            invariant
                i <= 32,
                limbs@ == seq![self.value.l0, self.value.l1, self.value.l2, self.value.l3],
                out@.len() == i,
                forall|j: int| 0 <= j < i ==> out@[j] == le_byte(self.value, j),
            decreases 32 - i,
        {
            out.push(((limbs[i / 8] >> (8 * (i % 8)) as u64) & 0xff) as u8);
            i = i + 1;
        }
        let mut k: usize = 0;
        while k < 4
            invariant
                k <= 4,
                out@.len() == 32 + k,
                forall|j: int| 0 <= j < 32 ==> out@[j] == le_byte(self.value, j),
                forall|j: int| 0 <= j < k ==> out@[32 + j] == #[trigger] addr_byte(self.address, j),
            decreases 4 - k,
        {
            out.push(((self.address >> (8 * k) as u32) & 0xff) as u8);
            k = k + 1;
        }
        assert(out@ =~= canonical_bytes(*self));
        out
    }


    /// The same entry with its value as a field element, where the value is
    /// below the modulus.
    pub fn try_into_felt_entry(self) -> (r: Option<MemoryEntry<Uint256>>)
        ensures
            self.value.val() < field_modulus() ==> r == Some(self),
            self.value.val() >= field_modulus() ==> r is None,
    {
        if is_canonical(&self.value) {
            Some(MemoryEntry { address: self.address, value: self.value })
        } else {
            None
        }
    }
}

/// A contiguous range of memory.
#[derive(Clone, Copy, Debug, PartialEq, Eq, Structural)]
pub struct Segment {
    pub begin_addr: u32,
    pub stop_ptr: u32,
}

/// The segments of a run; a builtin's is absent where the run does not use it.
#[derive(Clone, Copy, Debug)]
pub struct MemorySegments {
    pub program: Segment,
    pub execution: Segment,
    pub output: Option<Segment>,
    pub pedersen: Option<Segment>,
    pub range_check: Option<Segment>,
    pub ecdsa: Option<Segment>,
    pub bitwise: Option<Segment>,
    pub ec_op: Option<Segment>,
    pub poseidon: Option<Segment>,
}

/// The public input of a run.
#[derive(Clone, Debug)]
pub struct AirPublicInput {
    pub rc_min: u16,
    pub rc_max: u16,
    pub n_steps: u64,
    pub layout: Layout,
    pub memory_segments: MemorySegments,
    pub public_memory: Vec<MemoryEntry<Uint256>>,
}

impl AirPublicInput {
    pub fn initial_pc(&self) -> (r: u32)
        ensures
            r == self.memory_segments.program.begin_addr,
    {
        self.memory_segments.program.begin_addr
    }

    pub fn final_pc(&self) -> (r: u32)
        ensures
            r == self.memory_segments.program.stop_ptr,
    {
        self.memory_segments.program.stop_ptr
    }

    pub fn initial_ap(&self) -> (r: u32)
        ensures
            r == self.memory_segments.execution.begin_addr,
    {
        self.memory_segments.execution.begin_addr
    }

    pub fn final_ap(&self) -> (r: u32)
        ensures
            r == self.memory_segments.execution.stop_ptr,
    {
        self.memory_segments.execution.stop_ptr
    }

    /// Checks the public input against its layout: the layout must have a
    /// verifier code (the Starknet layout, which defines every builtin, so no
    /// segment is foreign to it), and a padding entry must exist.
    pub fn validate(&self) -> (r: Result<(), Error>)
        ensures
            !self.layout.is_supported() ==> r == Err::<(), Error>(Error::UnsupportedLayout),
            self.layout.is_supported() ==> (r is Ok <==> exists|j: int|
                0 <= j < self.public_memory@.len() && self.public_memory@[j].address == PADDING_ADDRESS),
            r matches Err(e) ==> e == Error::UnsupportedLayout || e == Error::MissingPaddingEntry,
    {
        self.layout.sharp_code()?;
        self.public_memory_padding()?;
        Ok(())
    }

    /// The first public memory entry at the padding address.
    pub fn public_memory_padding(&self) -> (r: Result<MemoryEntry<Uint256>, Error>)
        ensures
            r matches Ok(e) ==> exists|j: int|
                0 <= j < self.public_memory@.len() && self.public_memory@[j] == e && e.address
                    == PADDING_ADDRESS && forall|k: int|
                    0 <= k < j ==> self.public_memory@[k].address != PADDING_ADDRESS,
            r is Err <==> forall|j: int|
                0 <= j < self.public_memory@.len() ==> self.public_memory@[j].address != PADDING_ADDRESS,
            r matches Err(e) ==> e == Error::MissingPaddingEntry,
    {
        let mut i: usize = 0;
        while i < self.public_memory.len()
            invariant
                i <= self.public_memory@.len(),
                forall|k: int| 0 <= k < i ==> self.public_memory@[k].address != PADDING_ADDRESS,
            decreases self.public_memory@.len() - i,
        {
            if self.public_memory[i].address == PADDING_ADDRESS {
                return Ok(self.public_memory[i]);
            }
            i = i + 1;
        }
        Err(Error::MissingPaddingEntry)
    }
}

/// A signature: `r`, and `w`, the inverse of `s` modulo the curve's order.
#[derive(Clone, Copy, Debug)]
pub struct Signature {
    pub r: Uint256,
    pub w: Uint256,
}

/// One use of the ECDSA builtin.
#[derive(Clone, Copy, Debug)]
pub struct EcdsaInstance {
    pub index: u32,
    pub pubkey_x: Uint256,
    pub message: Uint256,
    pub signature: Signature,
}

impl EcdsaInstance {
    /// The addresses of the public key and of the message.
    pub fn mem_addr(&self, ecdsa_segment_addr: u32) -> (r: (u32, u32))
        requires
            ecdsa_segment_addr + self.index * 2 + 1 <= u32::MAX,
        ensures
            r.0 == ecdsa_segment_addr + self.index * 2,
            r.1 == r.0 + 1,
    {
        let instance_offset = ecdsa_segment_addr + self.index * 2;
        (instance_offset, instance_offset + 1)
    }
}

/// One use of the Pedersen builtin.
#[derive(Clone, Copy, Debug)]
pub struct PedersenInstance {
    pub index: u32,
    pub a: Uint256,
    pub b: Uint256,
}

impl PedersenInstance {
    pub fn new_empty(index: u32) -> (r: Self)
        ensures
            r.index == index,
            r.a.val() == 0,
            r.b.val() == 0,
    {
        PedersenInstance { index, a: Uint256::zero(), b: Uint256::zero() }
    }

    /// The addresses of `a`, `b` and the output.
    pub fn mem_addr(&self, pedersen_segment_addr: u32) -> (r: (u32, u32, u32))
        requires
            pedersen_segment_addr + self.index * 3 + 2 <= u32::MAX,
        ensures
            r.0 == pedersen_segment_addr + self.index * 3,
            r.1 == r.0 + 1,
            r.2 == r.0 + 2,
    {
        let instance_offset = pedersen_segment_addr + self.index * 3;
        (instance_offset, instance_offset + 1, instance_offset + 2)
    }
}

/// One use of the range-check builtin.
#[derive(Clone, Copy, Debug)]
pub struct RangeCheckInstance {
    pub index: u32,
    pub value: Uint256,
}

impl RangeCheckInstance {
    pub fn new_empty(index: u32) -> (r: Self)
        ensures
            r.index == index,
            r.value.val() == 0,
    {
        RangeCheckInstance { index, value: Uint256::zero() }
    }

    /// The address of the value.
    pub fn mem_addr(&self, range_check_segment_addr: u32) -> (r: u32)
        requires
            range_check_segment_addr + self.index <= u32::MAX,
        ensures
            r == range_check_segment_addr + self.index,
    {
        range_check_segment_addr + self.index
    }
}

/// One use of the bitwise builtin.
#[derive(Clone, Copy, Debug)]
pub struct BitwiseInstance {
    pub index: u32,
    pub x: Uint256,
    pub y: Uint256,
}

impl BitwiseInstance {
    pub fn new_empty(index: u32) -> (r: Self)
        ensures
            r.index == index,
            r.x.val() == 0,
            r.y.val() == 0,
    {
        BitwiseInstance { index, x: Uint256::zero(), y: Uint256::zero() }
    }

    /// The addresses of `x`, `y`, `x & y`, `x ^ y` and `x | y`.
    pub fn mem_addr(&self, bitwise_segment_addr: u32) -> (r: (u32, u32, u32, u32, u32))
        requires
            bitwise_segment_addr + self.index * 5 + 4 <= u32::MAX,
        ensures
            r.0 == bitwise_segment_addr + self.index * 5,
            r.1 == r.0 + 1,
            r.2 == r.0 + 2,
            r.3 == r.0 + 3,
            r.4 == r.0 + 4,
    {
        let o = bitwise_segment_addr + self.index * 5;
        (o, o + 1, o + 2, o + 3, o + 4)
    }
}

/// One use of the elliptic-curve operation builtin, `p + m * q`.
#[derive(Clone, Copy, Debug)]
pub struct EcOpInstance {
    pub index: u32,
    pub p_x: Uint256,
    pub p_y: Uint256,
    pub q_x: Uint256,
    pub q_y: Uint256,
    pub m: Uint256,
}

impl EcOpInstance {
    /// The addresses of `p_x`, `p_y`, `q_x`, `q_y`, `m`, `r_x` and `r_y`.
    pub fn mem_addr(&self, ec_op_segment_addr: u32) -> (r: (u32, u32, u32, u32, u32, u32, u32))
        requires
            ec_op_segment_addr + self.index * 7 + 6 <= u32::MAX,
        ensures
            r.0 == ec_op_segment_addr + self.index * 7,
            r.1 == r.0 + 1,
            r.2 == r.0 + 2,
            r.3 == r.0 + 3,
            r.4 == r.0 + 4,
            r.5 == r.0 + 5,
            r.6 == r.0 + 6,
    {
        let o = ec_op_segment_addr + self.index * 7;
        (o, o + 1, o + 2, o + 3, o + 4, o + 5, o + 6)
    }
}

/// One use of the Poseidon builtin.
#[derive(Clone, Copy, Debug)]
pub struct PoseidonInstance {
    pub index: u32,
    pub input0: Uint256,
    pub input1: Uint256,
    pub input2: Uint256,
}

impl PoseidonInstance {
    pub fn new_empty(index: u32) -> (r: Self)
        ensures
            r.index == index,
            r.input0.val() == 0,
            r.input1.val() == 0,
            r.input2.val() == 0,
    {
        PoseidonInstance { index, input0: Uint256::zero(), input1: Uint256::zero(), input2: Uint256::zero() }
    }

    /// The addresses of the three inputs and the three outputs.
    pub fn mem_addr(&self, poseidon_segment_addr: u32) -> (r: (u32, u32, u32, u32, u32, u32))
        requires
            poseidon_segment_addr + self.index * 6 + 5 <= u32::MAX,
        ensures
            r.0 == poseidon_segment_addr + self.index * 6,
            r.1 == r.0 + 1,
            r.2 == r.0 + 2,
            r.3 == r.0 + 3,
            r.4 == r.0 + 4,
            r.5 == r.0 + 5,
    {
        let o = poseidon_segment_addr + self.index * 6;
        (o, o + 1, o + 2, o + 3, o + 4, o + 5)
    }
}

/// The private input of a run: where its trace and memory are, and the
/// instances of each builtin.
#[derive(Debug)]
pub struct AirPrivateInput {
    pub trace_path: String,
    pub memory_path: String,
    pub pedersen: Vec<PedersenInstance>,
    pub ecdsa: Vec<EcdsaInstance>,
    pub range_check: Vec<RangeCheckInstance>,
    pub bitwise: Vec<BitwiseInstance>,
    pub ec_op: Vec<EcOpInstance>,
    pub poseidon: Vec<PoseidonInstance>,
}

} // verus!
