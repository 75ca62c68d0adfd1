//! The register trace and the memory of a run, read from their byte streams.
use crate::error::Error;
use crate::field::field_modulus;
use crate::field::is_canonical;
use crate::uint::le_val;
use crate::uint::read_u64_le;
use crate::uint::Uint256;
use crate::word::Word;
use vstd::prelude::*;

verus! {

/// Bytes of one trace record: `ap`, `fp` and `pc`, 8 bytes each.
pub const TRACE_RECORD_BYTES: usize = 24;
/// Bytes of one memory record: an 8-byte address and a 32-byte value.
pub const MEMORY_RECORD_BYTES: usize = 40;

/// The registers at one step.
#[derive(Clone, Copy, Debug, PartialEq, Eq, Structural)]
pub struct RegisterState {
    pub ap: usize,
    pub fp: usize,
    pub pc: usize,
}

/// The registers at each step, in execution order.
#[derive(Debug)]
pub struct RegisterStates(pub Vec<RegisterState>);

/// The 8-byte little-endian integer at `at`.
pub open spec fn le_u64_at(b: Seq<u8>, at: int) -> nat {
    le_val(b.subrange(at, at + 8))
}

/// Trace record `i` holds `st`.
pub open spec fn register_record(st: RegisterState, b: Seq<u8>, i: int) -> bool {
    &&& st.ap == le_u64_at(b, 24 * i)
    &&& st.fp == le_u64_at(b, 24 * i + 8)
    &&& st.pc == le_u64_at(b, 24 * i + 16)
}

/// Every register value of the trace stream fits a machine word.
pub open spec fn trace_fits(b: Seq<u8>) -> bool {
    forall|i: int| 0 <= i < b.len() / 24 ==> #[trigger] le_u64_at(b, 24 * i) <= usize::MAX
        && le_u64_at(b, 24 * i + 8) <= usize::MAX && le_u64_at(b, 24 * i + 16) <= usize::MAX
}

/// The address of memory record `i`.
pub open spec fn record_addr(b: Seq<u8>, i: int) -> nat {
    le_u64_at(b, 40 * i)
}

/// The value of memory record `i`.
pub open spec fn record_value(b: Seq<u8>, i: int) -> nat {
    le_val(b.subrange(40 * i + 8, 40 * i + 40))
}

/// Memory record `i` has a value below the modulus and a usable address.
pub open spec fn record_ok(b: Seq<u8>, i: int) -> bool {
    record_value(b, i) < field_modulus() && record_addr(b, i) < usize::MAX
}

/// The highest address among the first `n` records.
pub open spec fn max_addr(b: Seq<u8>, n: int) -> nat
    decreases n,
{
    if n <= 0 {
        0
    } else {
        let m = max_addr(b, n - 1);
        if record_addr(b, n - 1) > m { record_addr(b, n - 1) } else { m }
    }
}

/// The last of the first `n` records that writes address `a`.
pub open spec fn last_write(b: Seq<u8>, n: int, a: int) -> Option<int>
    decreases n,
{
    if n <= 0 {
        None
    } else if record_addr(b, n - 1) == a {
        Some(n - 1)
    } else {
        last_write(b, n - 1, a)
    }
}

impl RegisterStates {
    /// Reads the trace stream: records of `ap`, `fp`, `pc`, each 8 bytes
    /// little-endian, until the stream ends.
    pub fn from_bytes(b: &Vec<u8>) -> (r: Result<RegisterStates, Error>)
        ensures
            r is Ok <==> b@.len() % 24 == 0 && trace_fits(b@),
            r matches Err(e) ==> e == Error::MalformedTraceFile,
            r matches Ok(t) ==> t.0@.len() == b@.len() / 24,
            r matches Ok(t) ==> forall|i: int|
                0 <= i < t.0@.len() ==> register_record(t.0@[i], b@, i),
    {
        if b.len() % TRACE_RECORD_BYTES != 0 {
            return Err(Error::MalformedTraceFile);
        }
        let n = b.len() / TRACE_RECORD_BYTES;
        let mut states: Vec<RegisterState> = Vec::new();
        let mut i: usize = 0;
        while i < n
            invariant
                n == b@.len() / 24,
                b@.len() % 24 == 0,
                b@.len() <= usize::MAX,
                i <= n,
                states@.len() == i,
                forall|j: int| 0 <= j < i ==> #[trigger] le_u64_at(b@, 24 * j) <= usize::MAX
                    && le_u64_at(b@, 24 * j + 8) <= usize::MAX && le_u64_at(b@, 24 * j + 16) <= usize::MAX,
                forall|j: int| 0 <= j < i ==> register_record(states@[j], b@, j),
            decreases n - i,
        {
            assert(i * 24 + 24 <= b@.len()) by (nonlinear_arith)
                requires i < n, n == b@.len() / 24, b@.len() % 24 == 0;
            let at = i * 24;
            let ap = read_u64_le(b, at);
            let fp = read_u64_le(b, at + 8);
            let pc = read_u64_le(b, at + 16);
            if ap > usize::MAX as u64 || fp > usize::MAX as u64 || pc > usize::MAX as u64 {
                assert(!(le_u64_at(b@, 24 * (i as int)) <= usize::MAX && le_u64_at(b@, 24 * (i as int) + 8) <= usize::MAX && le_u64_at(b@, 24 * (i as int) + 16) <= usize::MAX));
                return Err(Error::MalformedTraceFile);
            }
            states.push(RegisterState { ap: ap as usize, fp: fp as usize, pc: pc as usize });
            i = i + 1;
        }
        let t = RegisterStates(states);
        Ok(t)
    }
}

impl Memory {
    /// Reads the memory stream: records of an 8-byte little-endian address
    /// and a 32-byte little-endian value, until the stream ends. The table
    /// runs up to the highest address; addresses without a record stay
    /// unknown, and a later record for an address replaces an earlier one.
    pub fn from_bytes(b: &Vec<u8>) -> (r: Result<Memory, Error>)
        ensures
            r is Ok <==> b@.len() % 40 == 0 && forall|i: int| 0 <= i < b@.len() / 40 ==> #[trigger] record_ok(b@, i),
            b@.len() % 40 != 0 ==> r == Err::<Memory, Error>(Error::MalformedTraceFile),
            r matches Err(e) ==> e == Error::MalformedTraceFile || e == Error::ValueOutOfFieldRange || e == Error::InvalidAddress,
            b@.len() % 40 == 0 ==> forall|j: int|
                0 <= j < b@.len() / 40 && !record_ok(b@, j) && (forall|k: int| 0 <= k < j ==> record_ok(b@, k))
                    ==> r == Err::<Memory, Error>(if record_value(b@, j) >= field_modulus() {
                        Error::ValueOutOfFieldRange
                    } else {
                        Error::InvalidAddress
                    }),
            r matches Ok(m) ==> {
                let n = (b@.len() / 40) as int;
                &&& n == 0 ==> m.cells@.len() == 0
                &&& n > 0 ==> m.cells@.len() == max_addr(b@, n) + 1
                &&& forall|a: int| 0 <= a < m.cells@.len() ==> match #[trigger] last_write(b@, n, a) {
                    None => m.cells@[a] is None,
                    Some(j) => m.cells@[a] matches Some(w) && w.0.val() == record_value(b@, j),
                }
            },
    {
        if b.len() % MEMORY_RECORD_BYTES != 0 {
            return Err(Error::MalformedTraceFile);
        }
        let n = b.len() / MEMORY_RECORD_BYTES;
        let mut max: u64 = 0;
        let mut i: usize = 0;
        while i < n
            invariant
                n == b@.len() / 40,
                b@.len() % 40 == 0,
                b@.len() <= usize::MAX,
                i <= n,
                max == max_addr(b@, i as int),
                max < usize::MAX,
                forall|j: int| 0 <= j < i ==> #[trigger] record_ok(b@, j),
            decreases n - i,
        {
            assert(i * 40 + 40 <= b@.len()) by (nonlinear_arith)
                requires i < n, n == b@.len() / 40;
            let at = i * MEMORY_RECORD_BYTES;
            let address = read_u64_le(b, at);
            let value = Uint256::read_le(b, at + 8);
            if !is_canonical(&value) {
                assert(!record_ok(b@, i as int));
                return Err(Error::ValueOutOfFieldRange);
            }
            if address >= usize::MAX as u64 {
                assert(!record_ok(b@, i as int));
                return Err(Error::InvalidAddress);
            }
            if address > max {
                max = address;
            }
            i = i + 1;
        }
        let mut cells: Vec<Option<Word>> = Vec::new();
        let size: usize = if n == 0 { 0 } else { max as usize + 1 };
        while cells.len() < size
            invariant
                cells@.len() <= size,
                forall|a: int| 0 <= a < cells@.len() ==> cells@[a] is None,
            decreases size - cells.len(),
        {
            cells.push(None);
        }
        proof {
            assert forall|a: int| 0 <= a < cells@.len() implies #[trigger] last_write(b@, 0, a) is None by {}
            lemma_max_addr_bounds(b@, n as int);
        }
        let mut i: usize = 0;
        while i < n
            invariant
                n == b@.len() / 40,
                b@.len() % 40 == 0,
                b@.len() <= usize::MAX,
                i <= n,
                cells@.len() == size,
                n > 0 ==> size == max_addr(b@, n as int) + 1,
                forall|j: int| 0 <= j < n ==> record_addr(b@, j) <= max_addr(b@, n as int),
                forall|a: int| 0 <= a < cells@.len() ==> match #[trigger] last_write(b@, i as int, a) {
                    None => cells@[a] is None,
                    Some(j) => cells@[a] matches Some(w) && w.0.val() == record_value(b@, j),
                },
            decreases n - i,
        {
            assert(i * 40 + 40 <= b@.len()) by (nonlinear_arith)
                requires i < n, n == b@.len() / 40;
            let at = i * MEMORY_RECORD_BYTES;
            let address = read_u64_le(b, at);
            let value = Uint256::read_le(b, at + 8);
            proof {
                assert(record_addr(b@, i as int) <= max_addr(b@, n as int));
            }
            cells.set(address as usize, Some(Word(value)));
            proof {
                assert forall|a: int| 0 <= a < cells@.len() implies match #[trigger] last_write(b@, i + 1, a) {
                    None => cells@[a] is None,
                    Some(j) => cells@[a] matches Some(w) && w.0.val() == record_value(b@, j),
                } by {
                    assert(last_write(b@, i as int, a) == last_write(b@, i + 1 - 1, a));
                }
            }
            i = i + 1;
        }
        Ok(Memory { cells })
    }

    /// The number of addresses the table covers.
    pub fn len(&self) -> (r: usize)
        ensures
            r == self.cells@.len(),
    {
        self.cells.len()
    }

    /// The word at `address`, where one is known.
    pub fn get(&self, address: usize) -> (r: Option<Word>)
        ensures
            address < self.cells@.len() ==> r == self.cells@[address as int],
            address >= self.cells@.len() ==> r is None,
    {
        if address < self.cells.len() {
            self.cells[address]
        } else {
            None
        }
    }
}

/// The highest address bounds every record's address.
proof fn lemma_max_addr_bounds(b: Seq<u8>, n: int)
    ensures
        forall|j: int| 0 <= j < n ==> record_addr(b, j) <= max_addr(b, n),
    decreases n,
{
    if n > 0 {
        lemma_max_addr_bounds(b, n - 1);
    }
}

/// The memory of a run: each address holds a word or is unknown (`None`).
#[derive(Debug)]
pub struct Memory {
    pub cells: Vec<Option<Word>>,
}

} // verus!
