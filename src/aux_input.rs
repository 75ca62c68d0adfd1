//! The public input in field elements, and its flat fixed-offset encoding
//! for the external verifier.
use crate::error::Error;
use crate::field::field_modulus;
use crate::field::modulus;
use crate::field::reduce;
use crate::layout::Layout;
use crate::layout::SHARP_CODE_STARKNET;
use crate::public_input::AirPublicInput;
use crate::public_input::MemoryEntry;
use crate::public_input::PADDING_ADDRESS;
use crate::public_input::Segment;
use crate::uint::be_val;
use crate::uint::Uint256;
use vstd::arithmetic::power2::pow2;
use vstd::prelude::*;

verus! {

/// Words in the block that every layout emits.
pub const NUM_BASE_VALS: usize = 14;
/// Words in the Starknet layout's own block.
pub const NUM_LAYOUT_VALS: usize = 11;
/// Words per public memory page (size and digest; the first page has no address).
pub const NUM_PAGE_VALS: usize = 2;

/// The public input in field elements.
#[derive(Clone, Debug)]
pub struct CairoAuxInput {
    pub log_n_steps: u32,
    pub layout: Layout,
    pub initial_ap: Uint256,
    pub initial_pc: Uint256,
    pub final_ap: Uint256,
    pub final_pc: Uint256,
    pub range_check_min: u16,
    pub range_check_max: u16,
    pub public_memory_padding: MemoryEntry<Uint256>,
    pub program_segment: Segment,
    pub execution_segment: Segment,
    pub output_segment: Option<Segment>,
    pub pedersen_segment: Option<Segment>,
    pub rc_segment: Option<Segment>,
    pub ecdsa_segment: Option<Segment>,
    pub bitwise_segment: Option<Segment>,
    pub ec_op_segment: Option<Segment>,
    pub poseidon_segment: Option<Segment>,
    pub public_memory: Vec<MemoryEntry<Uint256>>,
}

/// Byte `i` of the 32-byte big-endian form of `v`.
pub open spec fn be_byte(v: Uint256, i: int) -> u8 {
    let limb = if i < 8 { v.l3 } else if i < 16 { v.l2 } else if i < 24 { v.l1 } else { v.l0 };
    ((limb >> (8 * (7 - i % 8)) as u64) & 0xffu64) as u8
}

/// The 32-byte big-endian form of `v`.
pub open spec fn be_bytes(v: Uint256) -> Seq<u8> {
    Seq::new(32, |i: int| be_byte(v, i))
}

/// The bytes that the main page's digest absorbs: for each entry, its
/// address and then its value, each as 32 big-endian bytes.
pub open spec fn page_bytes(pm: Seq<MemoryEntry<Uint256>>) -> Seq<u8>
    decreases pm.len(),
{
    if pm.len() == 0 {
        Seq::empty()
    } else {
        let e = pm.last();
        page_bytes(pm.drop_last()) + be_bytes(Uint256 { l0: e.address as u64, l1: 0, l2: 0, l3: 0 })
            + be_bytes(e.value)
    }
}

/// The numeric values of a sequence of words.
pub open spec fn values(s: Seq<Uint256>) -> Seq<nat> {
    s.map_values(|u: Uint256| u.val())
}

impl CairoAuxInput {
    /// All the segments that the Starknet layout's encoding needs are present.
    pub open spec fn has_starknet_segments(self) -> bool {
        &&& self.output_segment is Some
        &&& self.pedersen_segment is Some
        &&& self.rc_segment is Some
        &&& self.ecdsa_segment is Some
        &&& self.bitwise_segment is Some
        &&& self.ec_op_segment is Some
        &&& self.poseidon_segment is Some
    }

    /// The verifier encoding, given the main page's digest value.
    pub open spec fn sharp_spec(self, digest: nat) -> Seq<nat> {
        let out = self.output_segment->Some_0;
        let ped = self.pedersen_segment->Some_0;
        let rc = self.rc_segment->Some_0;
        let ecdsa = self.ecdsa_segment->Some_0;
        let bitwise = self.bitwise_segment->Some_0;
        let ec_op = self.ec_op_segment->Some_0;
        let poseidon = self.poseidon_segment->Some_0;
        seq![
            self.log_n_steps as nat,
            self.range_check_min as nat,
            self.range_check_max as nat,
            SHARP_CODE_STARKNET as nat,
            self.program_segment.begin_addr as nat,
            self.program_segment.stop_ptr as nat,
            self.execution_segment.begin_addr as nat,
            self.execution_segment.stop_ptr as nat,
            out.begin_addr as nat,
            out.stop_ptr as nat,
            ped.begin_addr as nat,
            ped.stop_ptr as nat,
            rc.begin_addr as nat,
            rc.stop_ptr as nat,
        ] + seq![
            ecdsa.begin_addr as nat,
            ecdsa.stop_ptr as nat,
            bitwise.begin_addr as nat,
            bitwise.stop_ptr as nat,
            ec_op.begin_addr as nat,
            ec_op.stop_ptr as nat,
            poseidon.begin_addr as nat,
            poseidon.stop_ptr as nat,
            self.public_memory_padding.address as nat,
            self.public_memory_padding.value.val() % field_modulus(),
            1nat,
        ] + seq![self.public_memory@.len(), digest]
    }

    /// The public input in field elements: `log2` of the step count (a power
    /// of two), the registers' bounds from the program and execution
    /// segments, the padding entry and the public memory, whose values must
    /// lie below the modulus.
    pub fn try_from_public_input(input: &AirPublicInput) -> (r: Result<CairoAuxInput, Error>)
        ensures
            (forall|k: nat| pow2(k) != input.n_steps) ==> r == Err::<CairoAuxInput, Error>(Error::InvalidStepCount),
            r is Ok <==> (exists|k: nat| pow2(k) == input.n_steps) && (exists|j: int|
                0 <= j < input.public_memory@.len() && input.public_memory@[j].address == PADDING_ADDRESS)
                && forall|j: int| 0 <= j < input.public_memory@.len() ==> #[trigger] input.public_memory@[j].value.val() < field_modulus(),
            r matches Err(e) ==> e == Error::InvalidStepCount || e == Error::MissingPaddingEntry || e == Error::ValueOutOfFieldRange,
            r matches Ok(a) ==> {
                &&& pow2(a.log_n_steps as nat) == input.n_steps
                &&& a.layout == input.layout
                &&& a.initial_pc.val() == input.memory_segments.program.begin_addr
                &&& a.final_pc.val() == input.memory_segments.program.stop_ptr
                &&& a.initial_ap.val() == input.memory_segments.execution.begin_addr
                &&& a.final_ap.val() == input.memory_segments.execution.stop_ptr
                &&& a.range_check_min == input.rc_min
                &&& a.range_check_max == input.rc_max
                &&& a.public_memory_padding.address == PADDING_ADDRESS
                &&& exists|j: int|
                    0 <= j < input.public_memory@.len() && input.public_memory@[j] == a.public_memory_padding
                        && forall|k: int| 0 <= k < j ==> input.public_memory@[k].address != PADDING_ADDRESS
                &&& a.program_segment == input.memory_segments.program
                &&& a.execution_segment == input.memory_segments.execution
                &&& a.output_segment == input.memory_segments.output
                &&& a.pedersen_segment == input.memory_segments.pedersen
                &&& a.rc_segment == input.memory_segments.range_check
                &&& a.ecdsa_segment == input.memory_segments.ecdsa
                &&& a.bitwise_segment == input.memory_segments.bitwise
                &&& a.ec_op_segment == input.memory_segments.ec_op
                &&& a.poseidon_segment == input.memory_segments.poseidon
                &&& a.public_memory@ == input.public_memory@
            },
    {
        let log_n_steps = log2_exact(input.n_steps)?;
        assert(pow2(log_n_steps as nat) == input.n_steps);
        let padding = input.public_memory_padding()?;
        let mut public_memory: Vec<MemoryEntry<Uint256>> = Vec::new();
        let mut i: usize = 0;
        while i < input.public_memory.len()
            invariant
                pow2(log_n_steps as nat) == input.n_steps,
                exists|j: int| 0 <= j < input.public_memory@.len() && input.public_memory@[j] == padding && padding.address == PADDING_ADDRESS
                    && forall|k: int| 0 <= k < j ==> input.public_memory@[k].address != PADDING_ADDRESS,
                i <= input.public_memory@.len(),
                public_memory@ == input.public_memory@.subrange(0, i as int),
                forall|j: int| 0 <= j < i ==> #[trigger] input.public_memory@[j].value.val() < field_modulus(),
            decreases input.public_memory@.len() - i,
        {
            match input.public_memory[i].try_into_felt_entry() {
                Some(e) => public_memory.push(e),
                None => return Err(Error::ValueOutOfFieldRange),
            }
            i = i + 1;
        }
        assert(public_memory@ =~= input.public_memory@);
        let padding = match padding.try_into_felt_entry() {
            Some(e) => e,
            None => return Err(Error::ValueOutOfFieldRange),
        };
        let s = input.memory_segments;
        Ok(CairoAuxInput {
            log_n_steps,
            layout: input.layout,
            initial_ap: Uint256::from_u64(s.execution.begin_addr as u64),
            initial_pc: Uint256::from_u64(s.program.begin_addr as u64),
            final_ap: Uint256::from_u64(s.execution.stop_ptr as u64),
            final_pc: Uint256::from_u64(s.program.stop_ptr as u64),
            range_check_min: input.rc_min,
            range_check_max: input.rc_max,
            public_memory_padding: padding,
            program_segment: s.program,
            execution_segment: s.execution,
            output_segment: s.output,
            pedersen_segment: s.pedersen,
            rc_segment: s.range_check,
            ecdsa_segment: s.ecdsa,
            bitwise_segment: s.bitwise,
            ec_op_segment: s.ec_op,
            poseidon_segment: s.poseidon,
            public_memory,
        })
    }

    /// The bytes that the main public memory page's digest is taken over.
    pub fn public_memory_digest_input(&self) -> (r: Vec<u8>)
        ensures
            r@ == page_bytes(self.public_memory@),
    {
        let mut out: Vec<u8> = Vec::new();
        let mut i: usize = 0;
        while i < self.public_memory.len()
            invariant
                i <= self.public_memory@.len(),
                out@ == page_bytes(self.public_memory@.subrange(0, i as int)),
            decreases self.public_memory@.len() - i,
        {
            let e = self.public_memory[i];
            push_be_bytes(&mut out, &Uint256::from_u64(e.address as u64));
            push_be_bytes(&mut out, &e.value);
            proof {
                let s = self.public_memory@.subrange(0, i + 1);
                assert(s.drop_last() =~= self.public_memory@.subrange(0, i as int));
                assert(s.last() == e);
                assert(out@ =~= page_bytes(s));
            }
            i = i + 1;
        }
        assert(self.public_memory@.subrange(0, i as int) =~= self.public_memory@);
        out
    }

    /// The flat encoding read by the external verifier: the base block, the
    /// Starknet layout's block, and the main public memory page (its size
    /// and `main_page_hash`, a 32-byte big-endian digest).
    pub fn serialize_sharp(&self, main_page_hash: &Vec<u8>) -> (r: Result<Vec<Uint256>, Error>)
        ensures
            !self.layout.is_supported() ==> r == Err::<Vec<Uint256>, Error>(Error::UnsupportedLayout),
            self.layout.is_supported() && !self.has_starknet_segments() ==> r == Err::<Vec<Uint256>, Error>(
                Error::MissingRequiredSegment,
            ),
            self.layout.is_supported() && self.has_starknet_segments() && main_page_hash@.len() != 32
                ==> r == Err::<Vec<Uint256>, Error>(Error::InvalidDigest),
            r is Ok <==> self.layout.is_supported() && self.has_starknet_segments() && main_page_hash@.len() == 32,
            r matches Ok(v) ==> v@.len() == NUM_BASE_VALS + NUM_LAYOUT_VALS + NUM_PAGE_VALS && values(v@)
                == self.sharp_spec(be_val(main_page_hash@)),
    {
        let code = self.layout.sharp_code()?;
        let (out, ped, rc) = match (self.output_segment, self.pedersen_segment, self.rc_segment) {
            (Some(a), Some(b), Some(c)) => (a, b, c),
            _ => return Err(Error::MissingRequiredSegment),
        };
        let (ecdsa, bitwise, ec_op, poseidon) = match (self.ecdsa_segment, self.bitwise_segment, self.ec_op_segment, self.poseidon_segment) {
            (Some(a), Some(b), Some(c), Some(d)) => (a, b, c, d),
            _ => return Err(Error::MissingRequiredSegment),
        };
        if main_page_hash.len() != 32 {
            return Err(Error::InvalidDigest);
        }
        let n = |x: u32| -> (r: Uint256)
            ensures
                r.val() == x,
            {
                Uint256::from_u64(x as u64)
            };
        let v = vec![
            n(self.log_n_steps),
            Uint256::from_u64(self.range_check_min as u64),
            Uint256::from_u64(self.range_check_max as u64),
            Uint256::from_u64(code),
            n(self.program_segment.begin_addr),
            n(self.program_segment.stop_ptr),
            n(self.execution_segment.begin_addr),
            n(self.execution_segment.stop_ptr),
            n(out.begin_addr),
            n(out.stop_ptr),
            n(ped.begin_addr),
            n(ped.stop_ptr),
            n(rc.begin_addr),
            n(rc.stop_ptr),
            n(ecdsa.begin_addr),
            n(ecdsa.stop_ptr),
            n(bitwise.begin_addr),
            n(bitwise.stop_ptr),
            n(ec_op.begin_addr),
            n(ec_op.stop_ptr),
            n(poseidon.begin_addr),
            n(poseidon.stop_ptr),
            n(self.public_memory_padding.address),
            reduce(&self.public_memory_padding.value, &modulus()),
            Uint256::from_u64(1),
            Uint256::from_u64(self.public_memory.len() as u64),
            Uint256::read_be(main_page_hash),
        ];
        assert(values(v@) =~= self.sharp_spec(be_val(main_page_hash@)));
        Ok(v)
    }
}

/// The `k` with `2^k == n`, where there is one.
fn log2_exact(n: u64) -> (r: Result<u32, Error>)
    ensures
        r matches Ok(k) ==> pow2(k as nat) == n,
        r is Err <==> forall|k: nat| pow2(k) != n,
        r matches Err(e) ==> e == Error::InvalidStepCount,
{
    let mut k: u32 = 0;
    let mut v: u64 = 1;
    proof {
        vstd::arithmetic::power2::lemma2_to64();
    }
    while v < n && k < 63
        invariant
            k <= 63,
            v == pow2(k as nat),
            forall|j: nat| j < k ==> #[trigger] pow2(j) < n,
        decreases 63 - k,
    {
        proof {
            vstd::arithmetic::power2::lemma_pow2_adds(k as nat, 1);
            vstd::arithmetic::power2::lemma2_to64();
            if k + 1 < 63 {
                vstd::arithmetic::power2::lemma_pow2_strictly_increases((k + 1) as nat, 63);
            }
            vstd::arithmetic::power2::lemma2_to64_rest();
            assert(pow2((k + 1) as nat) <= 0x8000000000000000);
        }
        v = v * 2;
        k = k + 1;
    }
    if v == n {
        Ok(k)
    } else {
        proof {
            vstd::arithmetic::power2::lemma2_to64_rest();
            assert forall|j: nat| pow2(j) != n by {
                if j > k {
                    vstd::arithmetic::power2::lemma_pow2_strictly_increases(k as nat, j);
                    if v < n {
                        if j > 64 {
                            vstd::arithmetic::power2::lemma_pow2_strictly_increases(64, j);
                        }
                        assert(pow2(j) >= pow2(64));
                    }
                }
            }
        }
        Err(Error::InvalidStepCount)
    }
}

/// Appends the 32-byte big-endian form of `v`.
fn push_be_bytes(out: &mut Vec<u8>, v: &Uint256)
    ensures
        final(out)@ == old(out)@ + be_bytes(*v),
{
    let limbs = [v.l3, v.l2, v.l1, v.l0];
    let ghost start = old(out)@.len();
    let mut i: usize = 0;
    while i < 32
        invariant
            i <= 32,
            limbs@ == seq![v.l3, v.l2, v.l1, v.l0],
            out@.len() == start + i,
            out@.subrange(0, start as int) == old(out)@,
            forall|j: int| 0 <= j < i ==> out@[start + j] == be_byte(*v, j),
        decreases 32 - i,
    {
        let limb = limbs[i / 8];
        out.push(((limb >> (8 * (7 - (i % 8))) as u64) & 0xff) as u8);
        i = i + 1;
    }
    assert(out@ =~= old(out)@ + be_bytes(*v));
}

} // verus!
