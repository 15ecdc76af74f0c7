//! The memory trace of one virtual-machine run.
//!
//! The full address space is carried as a dense table of tagged ids, one per
//! address, together with the two value tables the ids point into and a cache
//! of raw instruction words keyed by program-counter address. The structure
//! is read-only after construction; `validate` checks every id decodes inside
//! the bounds of its target table, the small-value threshold is respected,
//! and the instruction cache agrees with the decoded memory.

use vstd::arithmetic::div_mod::{lemma_fundamental_div_mod, lemma_fundamental_div_mod_converse};
use vstd::prelude::*;

use crate::codec::{decode_spec, EncodedMemoryValueId, MemoryValueId};

verus! {

/// Whether key `k` appears in an association table.
pub open spec fn has_key(s: Seq<(u32, u64)>, k: u32) -> bool {
    exists|i: int| 0 <= i < s.len() && s[i].0 == k
}

/// The word stored under key `k`; meaningful when the keys are unique.
pub open spec fn lookup(s: Seq<(u32, u64)>, k: u32) -> u64
    recommends
        has_key(s, k),
{
    let i = choose|i: int| 0 <= i < s.len() && s[i].0 == k;
    s[i].1
}

/// Whether no key appears twice in an association table.
pub open spec fn keys_unique(s: Seq<(u32, u64)>) -> bool {
    forall|i: int, j: int| 0 <= i < j < s.len() ==> s[i].0 != s[j].0
}

/// With unique keys, `lookup` returns the word of any entry with that key.
pub proof fn lemma_lookup_at(s: Seq<(u32, u64)>, i: int)
    requires
        keys_unique(s),
        0 <= i < s.len(),
    ensures
        has_key(s, s[i].0),
        lookup(s, s[i].0) == s[i].1,
{
    let k = s[i].0;
    assert(has_key(s, k));
    let j = choose|j: int| 0 <= j < s.len() && s[j].0 == k;
    if i < j {
        assert(s[i].0 != s[j].0);
    } else if j < i {
        assert(s[j].0 != s[i].0);
    }
}

/// Finds the word stored under `key`, scanning entries in order.
pub fn lookup_word(table: &Vec<(u32, u64)>, key: u32) -> (r: Option<u64>)
    ensures
        (r is Some) == has_key(table@, key),
        r matches Some(w) ==> exists|i: int| 0 <= i < table@.len() && table@[i] == (key, w),
        keys_unique(table@) && has_key(table@, key) ==> r == Some(lookup(table@, key)),
        r is None ==> !has_key(table@, key),
{
    let n = table.len();
    let mut i: usize = 0;
    while i < n
        invariant
            n == table@.len(),
            0 <= i <= n,
            forall|j: int| 0 <= j < i ==> table@[j].0 != key,
        decreases n - i,
    {
        if table[i].0 == key {
            proof {
                if keys_unique(table@) {
                    lemma_lookup_at(table@, i as int);
                }
            }
            return Some(table[i].1);
        }
        i += 1;
    }
    None
}

/// A memory cell's content: a small scalar or a wide field element, given in
/// eight little-endian 32-bit limbs.
#[derive(Clone, Copy, Debug, PartialEq, Eq)]
pub enum MemoryValue {
    /// A scalar small enough for the compact table.
    Small(u128),
    /// A full 252-bit field element.
    F252([u32; 8]),
}

/// Whether a decoded memory value equals a raw instruction word.
pub open spec fn value_is_word(v: MemoryValue, w: u64) -> bool {
    match v {
        MemoryValue::Small(x) => x == w as u128,
        MemoryValue::F252(l) => l@[0] + 0x1_0000_0000 * l@[1] == w as int && l@[2] == 0 && l@[3]
            == 0 && l@[4] == 0 && l@[5] == 0 && l@[6] == 0 && l@[7] == 0,
    }
}

/// Decides [`value_is_word`].
pub fn word_matches_value(v: &MemoryValue, w: u64) -> (r: bool)
    ensures
        r == value_is_word(*v, w),
{
    match v {
        MemoryValue::Small(x) => *x == w as u128,
        MemoryValue::F252(l) => {
            let lo: u32 = (w % 0x1_0000_0000) as u32;
            let hi: u32 = (w / 0x1_0000_0000) as u32;
            proof {
                lemma_fundamental_div_mod(w as int, 0x1_0000_0000);
                if l@[0] + 0x1_0000_0000 * l@[1] == w as int {
                    lemma_fundamental_div_mod_converse(
                        w as int,
                        0x1_0000_0000,
                        l@[1] as int,
                        l@[0] as int,
                    );
                }
            }
            l[0] == lo && l[1] == hi && l[2] == 0 && l[3] == 0 && l[4] == 0 && l[5] == 0 && l[6]
                == 0 && l[7] == 0
        },
    }
}

/// Configuration of the memory trace: the largest scalar the small-value
/// table may carry.
#[derive(Clone, Copy, Debug, PartialEq, Eq, Structural)]
pub struct MemoryConfig {
    /// The maximum value storable as a small value.
    pub small_max: u128,
}

/// A structural fault found while validating a memory trace. Each variant
/// carries the offending address (for id faults) or program counter (for
/// instruction-cache faults).
#[derive(Clone, Copy, Debug, PartialEq, Eq, Structural)]
pub enum MemoryInconsistency {
    /// The id table is longer than the address space.
    AddressSpaceExceeded,
    /// The id at this address is no encoding the codec can produce.
    InvalidId(u32),
    /// The id at this address points past the small-value table.
    SmallIndexOutOfRange(u32),
    /// The id at this address points past the wide-value table.
    F252IndexOutOfRange(u32),
    /// The small value at this address exceeds the configured threshold.
    SmallValueAboveMax(u32),
    /// Two instruction-cache entries share this program counter.
    DuplicateInstruction(u32),
    /// An instruction-cache entry's address is not a mapped memory cell.
    InstructionSlotUnmapped(u32),
    /// The cached instruction word differs from the decoded memory value.
    InstructionMismatch(u32),
}

/// A failure of a memory lookup.
#[derive(Clone, Copy, Debug, PartialEq, Eq, Structural)]
pub enum MemoryError {
    /// The address carries no value (out of table, or a hole).
    UnmappedAddress(u32),
    /// The program counter has no cached instruction word.
    UnmappedInstruction(u32),
    /// The trace itself is malformed at this point.
    Inconsistency(MemoryInconsistency),
}

/// The memory trace: per-address codec tags, the two decoded value tables,
/// and the cache of raw instruction words keyed by program counter.
#[derive(Clone, Debug)]
pub struct Memory {
    /// The small-value threshold configuration.
    pub config: MemoryConfig,
    /// One tagged id per address; the address is the index.
    pub address_to_id: Vec<EncodedMemoryValueId>,
    /// Raw instruction words keyed by program-counter address.
    pub inst_cache: Vec<(u32, u64)>,
    /// The small-value table.
    pub small_values: Vec<u128>,
    /// The wide-field-element table.
    pub f252_values: Vec<[u32; 8]>,
}

impl Memory {
    /// Whether the address carries a value: it is inside the id table and its
    /// id names one of the two value tables (not a hole).
    pub open spec fn mapped(self, addr: u32) -> bool {
        &&& (addr as int) < self.address_to_id@.len()
        &&& match decode_spec(self.address_to_id@[addr as int].0) {
            Some(MemoryValueId::Small(_)) => true,
            Some(MemoryValueId::F252(_)) => true,
            _ => false,
        }
    }

    /// The value a mapped address decodes to.
    pub open spec fn value_at(self, addr: u32) -> MemoryValue
        recommends
            self.mapped(addr),
    {
        match decode_spec(self.address_to_id@[addr as int].0) {
            Some(MemoryValueId::Small(i)) => MemoryValue::Small(self.small_values@[i as int]),
            Some(MemoryValueId::F252(i)) => MemoryValue::F252(self.f252_values@[i as int]),
            _ => MemoryValue::Small(0),
        }
    }

    /// Whether the id at one address decodes and stays inside the bounds of
    /// its target table, under the configured small-value threshold.
    pub open spec fn id_ok(self, addr: int) -> bool {
        match decode_spec(self.address_to_id@[addr].0) {
            None => false,
            Some(MemoryValueId::Small(i)) => i < self.small_values@.len()
                && self.small_values@[i as int] <= self.config.small_max,
            Some(MemoryValueId::F252(i)) => i < self.f252_values@.len(),
            Some(MemoryValueId::Empty) => true,
        }
    }

    /// Whether every id in the table is in order, and the table fits the
    /// 32-bit address space.
    pub open spec fn ids_ok(self) -> bool {
        &&& self.address_to_id@.len() <= u32::MAX
        &&& forall|a: int| 0 <= a < self.address_to_id@.len() ==> self.id_ok(a)
    }

    /// Whether one instruction-cache entry names a mapped address whose
    /// decoded value equals the cached word.
    pub open spec fn inst_entry_ok(self, k: int) -> bool {
        &&& self.mapped(self.inst_cache@[k].0)
        &&& value_is_word(self.value_at(self.inst_cache@[k].0), self.inst_cache@[k].1)
    }

    /// Whether the instruction cache has unique keys and every entry agrees
    /// with the decoded memory.
    pub open spec fn inst_cache_ok(self) -> bool {
        &&& keys_unique(self.inst_cache@)
        &&& forall|k: int| 0 <= k < self.inst_cache@.len() ==> self.inst_entry_ok(k)
    }

    /// Well-formedness of the whole trace: what `validate` decides.
    pub open spec fn wf(self) -> bool {
        self.ids_ok() && self.inst_cache_ok()
    }

    /// Law: in a well-formed trace, every cached instruction word sits at a
    /// mapped address and equals the value that address decodes to.
    pub proof fn lemma_cached_word_matches_memory(self, k: int)
        requires
            self.wf(),
            0 <= k < self.inst_cache@.len(),
        ensures
            self.mapped(self.inst_cache@[k].0),
            value_is_word(self.value_at(self.inst_cache@[k].0), self.inst_cache@[k].1),
    {
        assert(self.inst_entry_ok(k));
    }

    /// The outcome `resolve` owes for each address.
    pub open spec fn resolve_spec(self, addr: u32) -> Result<MemoryValue, MemoryError> {
        if (addr as int) >= self.address_to_id@.len() {
            Err(MemoryError::UnmappedAddress(addr))
        } else {
            match decode_spec(self.address_to_id@[addr as int].0) {
                None => Err(MemoryError::Inconsistency(MemoryInconsistency::InvalidId(addr))),
                Some(MemoryValueId::Empty) => Err(MemoryError::UnmappedAddress(addr)),
                Some(MemoryValueId::Small(i)) => if i < self.small_values@.len() {
                    Ok(MemoryValue::Small(self.small_values@[i as int]))
                } else {
                    Err(
                        MemoryError::Inconsistency(
                            MemoryInconsistency::SmallIndexOutOfRange(addr),
                        ),
                    )
                },
                Some(MemoryValueId::F252(i)) => if i < self.f252_values@.len() {
                    Ok(MemoryValue::F252(self.f252_values@[i as int]))
                } else {
                    Err(
                        MemoryError::Inconsistency(MemoryInconsistency::F252IndexOutOfRange(addr)),
                    )
                },
            }
        }
    }

    /// Looks the address up in the id table, decodes the id, and returns the
    /// value from the table the id names.
    pub fn resolve(&self, addr: u32) -> (r: Result<MemoryValue, MemoryError>)
        ensures
            r == self.resolve_spec(addr),
            self.mapped(addr) && self.id_ok(addr as int) ==> r == Ok::<MemoryValue, MemoryError>(
                self.value_at(addr),
            ),
    {
        if (addr as usize) >= self.address_to_id.len() {
            return Err(MemoryError::UnmappedAddress(addr));
        }
        match self.address_to_id[addr as usize].decode() {
            Err(_) => Err(MemoryError::Inconsistency(MemoryInconsistency::InvalidId(addr))),
            Ok(MemoryValueId::Empty) => Err(MemoryError::UnmappedAddress(addr)),
            Ok(MemoryValueId::Small(i)) => {
                if i < self.small_values.len() {
                    Ok(MemoryValue::Small(self.small_values[i]))
                } else {
                    Err(MemoryError::Inconsistency(MemoryInconsistency::SmallIndexOutOfRange(addr)))
                }
            },
            Ok(MemoryValueId::F252(i)) => {
                if i < self.f252_values.len() {
                    Ok(MemoryValue::F252(self.f252_values[i]))
                } else {
                    Err(MemoryError::Inconsistency(MemoryInconsistency::F252IndexOutOfRange(addr)))
                }
            },
        }
    }

    /// Returns the cached raw instruction word at a program counter.
    pub fn fetch_instruction(&self, pc: u32) -> (r: Result<u64, MemoryError>)
        ensures
            (r is Ok) == has_key(self.inst_cache@, pc),
            r matches Ok(w) ==> exists|i: int|
                0 <= i < self.inst_cache@.len() && self.inst_cache@[i] == (pc, w),
            keys_unique(self.inst_cache@) && has_key(self.inst_cache@, pc) ==> r == Ok::<
                u64,
                MemoryError,
            >(lookup(self.inst_cache@, pc)),
            !has_key(self.inst_cache@, pc) ==> r == Err::<u64, MemoryError>(
                MemoryError::UnmappedInstruction(pc),
            ),
    {
        match lookup_word(&self.inst_cache, pc) {
            Some(w) => Ok(w),
            None => Err(MemoryError::UnmappedInstruction(pc)),
        }
    }

    /// Whether a reported fault really holds of this trace.
    pub open spec fn fault_sound(self, e: MemoryInconsistency) -> bool {
        match e {
            MemoryInconsistency::AddressSpaceExceeded => self.address_to_id@.len() > u32::MAX,
            MemoryInconsistency::InvalidId(a) => (a as int) < self.address_to_id@.len()
                && decode_spec(self.address_to_id@[a as int].0) is None,
            MemoryInconsistency::SmallIndexOutOfRange(a) => (a as int)
                < self.address_to_id@.len() && match decode_spec(
                self.address_to_id@[a as int].0,
            ) {
                Some(MemoryValueId::Small(i)) => i >= self.small_values@.len(),
                _ => false,
            },
            MemoryInconsistency::F252IndexOutOfRange(a) => (a as int) < self.address_to_id@.len()
                && match decode_spec(self.address_to_id@[a as int].0) {
                Some(MemoryValueId::F252(i)) => i >= self.f252_values@.len(),
                _ => false,
            },
            MemoryInconsistency::SmallValueAboveMax(a) => (a as int) < self.address_to_id@.len()
                && match decode_spec(self.address_to_id@[a as int].0) {
                Some(MemoryValueId::Small(i)) => i < self.small_values@.len()
                    && self.small_values@[i as int] > self.config.small_max,
                _ => false,
            },
            MemoryInconsistency::DuplicateInstruction(p) => exists|i: int, j: int|
                0 <= i < j < self.inst_cache@.len() && self.inst_cache@[i].0 == p
                    && self.inst_cache@[j].0 == p,
            MemoryInconsistency::InstructionSlotUnmapped(p) => exists|k: int|
                0 <= k < self.inst_cache@.len() && self.inst_cache@[k].0 == p && !self.mapped(p),
            MemoryInconsistency::InstructionMismatch(p) => exists|k: int|
                0 <= k < self.inst_cache@.len() && self.inst_cache@[k].0 == p && self.mapped(p)
                    && !value_is_word(self.value_at(p), self.inst_cache@[k].1),
        }
    }

    /// Checks the whole trace: every id decodes inside the bounds of its
    /// target table, small values respect the threshold, and every cached
    /// instruction word agrees with the decoded memory at its address.
    pub fn validate(&self) -> (r: Result<(), MemoryInconsistency>)
        ensures
            (r is Ok) == self.wf(),
            r matches Err(e) ==> self.fault_sound(e),
    {
        if self.address_to_id.len() > u32::MAX as usize {
            return Err(MemoryInconsistency::AddressSpaceExceeded);
        }
        let n = self.address_to_id.len();
        let mut a: usize = 0;
        while a < n
            invariant
                n == self.address_to_id@.len(),
                n <= u32::MAX,
                0 <= a <= n,
                forall|x: int| 0 <= x < a ==> self.id_ok(x),
            decreases n - a,
        {
            match self.address_to_id[a].decode() {
                Err(_) => {
                    proof {
                        assert(!self.id_ok(a as int));
                    }
                    return Err(MemoryInconsistency::InvalidId(a as u32));
                },
                Ok(MemoryValueId::Small(i)) => {
                    if i >= self.small_values.len() {
                        proof {
                            assert(!self.id_ok(a as int));
                        }
                        return Err(MemoryInconsistency::SmallIndexOutOfRange(a as u32));
                    }
                    if self.small_values[i] > self.config.small_max {
                        proof {
                            assert(!self.id_ok(a as int));
                        }
                        return Err(MemoryInconsistency::SmallValueAboveMax(a as u32));
                    }
                },
                Ok(MemoryValueId::F252(i)) => {
                    if i >= self.f252_values.len() {
                        proof {
                            assert(!self.id_ok(a as int));
                        }
                        return Err(MemoryInconsistency::F252IndexOutOfRange(a as u32));
                    }
                },
                Ok(MemoryValueId::Empty) => {},
            }
            a += 1;
        }
        let m = self.inst_cache.len();
        let mut k: usize = 0;
        while k < m
            invariant
                m == self.inst_cache@.len(),
                n == self.address_to_id@.len(),
                n <= u32::MAX,
                forall|x: int| 0 <= x < n ==> self.id_ok(x),
                0 <= k <= m,
                forall|x: int, y: int|
                    0 <= x < y < k ==> self.inst_cache@[x].0 != self.inst_cache@[y].0,
                forall|x: int| 0 <= x < k ==> self.inst_entry_ok(x),
            decreases m - k,
        {
            let (pc, w) = self.inst_cache[k];
            let mut j: usize = 0;
            while j < k
                invariant
                    m == self.inst_cache@.len(),
                    0 <= j <= k < m,
                    (pc, w) == self.inst_cache@[k as int],
                    forall|x: int| 0 <= x < j ==> self.inst_cache@[x].0 != pc,
                decreases k - j,
            {
                if self.inst_cache[j].0 == pc {
                    proof {
                        let s = self.inst_cache@;
                        assert(s[j as int].0 == pc && s[k as int].0 == pc && j < k);
                        assert(!keys_unique(s)) by {
                            if keys_unique(s) {
                                assert(s[j as int].0 != s[k as int].0);
                            }
                        }
                    }
                    return Err(MemoryInconsistency::DuplicateInstruction(pc));
                }
                j += 1;
            }
            match self.resolve(pc) {
                Err(_) => {
                    proof {
                        if (pc as int) < self.address_to_id@.len() {
                            assert(self.id_ok(pc as int));
                        }
                        assert(!self.mapped(pc));
                        assert(!self.inst_entry_ok(k as int));
                    }
                    return Err(MemoryInconsistency::InstructionSlotUnmapped(pc));
                },
                Ok(v) => {
                    proof {
                        if (pc as int) < self.address_to_id@.len() {
                            assert(self.id_ok(pc as int));
                        }
                        assert(self.mapped(pc) && v == self.value_at(pc));
                    }
                    if !word_matches_value(&v, w) {
                        proof {
                            assert(!self.inst_entry_ok(k as int));
                        }
                        return Err(MemoryInconsistency::InstructionMismatch(pc));
                    }
                },
            }
            k += 1;
        }
        Ok(())
    }
}

} // verus!
