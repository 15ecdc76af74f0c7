//! Assembly and validation of the aggregate handed to the proving backend.
//!
//! A prover input is only ever produced by [`assemble`], which runs the
//! memory, transition and builtin validations in order and then the
//! cross-structure checks: every program counter of the chain must carry
//! matching, equal instruction words in both instruction tables, and every
//! publicly revealed address must be a mapped memory cell. The first failure
//! aborts assembly, so an invalid input never reaches the backend.

use vstd::prelude::*;

use crate::builtins::{BuiltinSegments, BuiltinsError};
use crate::memory::{
    has_key, keys_unique, lookup, lookup_word, Memory, MemoryInconsistency,
};
use crate::transitions::{StateTransitions, TransitionError};

verus! {

/// The first fault `assemble` found, in validation order.
#[derive(Clone, Copy, Debug, PartialEq, Eq, Structural)]
pub enum ValidationError {
    /// The memory trace is malformed.
    Memory(MemoryInconsistency),
    /// The transition chain is malformed.
    Transitions(TransitionError),
    /// The builtin segment table is malformed.
    Builtins(BuiltinsError),
    /// Two per-pc instruction entries share this program counter.
    DuplicatePc(u32),
    /// A chain pc is missing from one of the two instruction tables.
    UnmappedInstruction(u32),
    /// The two instruction tables disagree at this program counter.
    InstructionMismatch(u32),
    /// A publicly revealed address is not a mapped memory cell.
    PublicAddressUnmapped(u32),
}

/// The aggregate the proving backend consumes: the chain of register
/// snapshots, the per-pc instruction table, the memory trace, the publicly
/// revealed addresses and the builtin segment table.
#[derive(Clone, Debug)]
pub struct ProverInput {
    /// The chain of register snapshots, partitioned by opcode.
    pub state_transitions: StateTransitions,
    /// Raw instruction word per program counter of the chain.
    pub instruction_by_pc: Vec<(u32, u64)>,
    /// The memory trace of the run.
    pub memory: Memory,
    /// The addresses whose cells the proof exposes publicly.
    pub public_memory_addresses: Vec<u32>,
    /// The builtin segment table.
    pub builtins_segments: BuiltinSegments,
}

impl ProverInput {
    /// Whether the chain pc of one step carries matching, equal entries in
    /// the per-pc table and the memory's instruction cache.
    pub open spec fn step_pc_ok(self, i: int) -> bool {
        let pc = self.state_transitions.steps@[i].state.pc.0;
        &&& has_key(self.instruction_by_pc@, pc)
        &&& has_key(self.memory.inst_cache@, pc)
        &&& lookup(self.instruction_by_pc@, pc) == lookup(self.memory.inst_cache@, pc)
    }

    /// Whether the per-pc table has unique keys and every step's pc is
    /// consistently covered by both instruction tables.
    pub open spec fn instructions_ok(self) -> bool {
        &&& keys_unique(self.instruction_by_pc@)
        &&& forall|i: int|
            0 <= i < self.state_transitions.steps@.len() ==> #[trigger] self.step_pc_ok(i)
    }

    /// Whether every publicly revealed address is a mapped memory cell.
    pub open spec fn publics_ok(self) -> bool {
        forall|i: int|
            0 <= i < self.public_memory_addresses@.len() ==> self.memory.mapped(
                #[trigger] self.public_memory_addresses@[i],
            )
    }

    /// Well-formedness of the whole input: what `assemble` decides.
    pub open spec fn wf(self) -> bool {
        &&& self.memory.wf()
        &&& self.state_transitions.wf()
        &&& self.builtins_segments.wf()
        &&& self.instructions_ok()
        &&& self.publics_ok()
    }
}

/// Composes and validates a prover input. Runs, in order: the memory
/// validation, the transition validation, the builtin validation, then the
/// cross-structure checks that every chain pc carries matching equal
/// instruction words in both tables and that every public address is mapped.
/// The first failure is returned with the offending address or pc.
pub fn assemble(
    state_transitions: StateTransitions,
    instruction_by_pc: Vec<(u32, u64)>,
    memory: Memory,
    public_memory_addresses: Vec<u32>,
    builtins_segments: BuiltinSegments,
) -> (r: Result<ProverInput, ValidationError>)
    ensures
        (r is Ok) == (ProverInput {
            state_transitions,
            instruction_by_pc,
            memory,
            public_memory_addresses,
            builtins_segments,
        }).wf(),
        r matches Ok(pi) ==> pi == (ProverInput {
            state_transitions,
            instruction_by_pc,
            memory,
            public_memory_addresses,
            builtins_segments,
        }) && pi.wf(),
        !memory.wf() ==> r matches Err(ValidationError::Memory(_)),
        memory.wf() && !state_transitions.wf() ==> r matches Err(ValidationError::Transitions(_)),
        memory.wf() && state_transitions.wf() && !builtins_segments.wf() ==> r matches Err(
            ValidationError::Builtins(_),
        ),
        r matches Err(ValidationError::Memory(e)) ==> memory.fault_sound(e),
        r matches Err(ValidationError::Transitions(e)) ==> state_transitions.fault_sound(e),
        r matches Err(ValidationError::Builtins(e)) ==> builtins_segments.fault_sound(e),
        r matches Err(ValidationError::DuplicatePc(p)) ==> !keys_unique(instruction_by_pc@)
            && has_key(instruction_by_pc@, p),
        r matches Err(ValidationError::UnmappedInstruction(p)) ==> (exists|i: int|
            0 <= i < state_transitions.steps@.len() && state_transitions.steps@[i].state.pc.0 == p)
            && (!has_key(instruction_by_pc@, p) || !has_key(memory.inst_cache@, p)),
        r matches Err(ValidationError::InstructionMismatch(p)) ==> (exists|i: int|
            0 <= i < state_transitions.steps@.len() && state_transitions.steps@[i].state.pc.0 == p)
            && has_key(instruction_by_pc@, p) && has_key(memory.inst_cache@, p),
        r matches Err(ValidationError::PublicAddressUnmapped(a)) ==> (exists|i: int|
            0 <= i < public_memory_addresses@.len() && public_memory_addresses@[i] == a)
            && !memory.mapped(a),
{
    let ghost pi = (ProverInput {
        state_transitions,
        instruction_by_pc,
        memory,
        public_memory_addresses,
        builtins_segments,
    });
    if let Err(e) = memory.validate() {
        return Err(ValidationError::Memory(e));
    }
    if let Err(e) = state_transitions.validate() {
        return Err(ValidationError::Transitions(e));
    }
    if let Err(e) = builtins_segments.validate() {
        return Err(ValidationError::Builtins(e));
    }
    let m = instruction_by_pc.len();
    let mut k: usize = 0;
    while k < m
        invariant
            m == instruction_by_pc@.len(),
            0 <= k <= m,
            memory.wf(),
            state_transitions.wf(),
            builtins_segments.wf(),
            pi == (ProverInput {
                state_transitions,
                instruction_by_pc,
                memory,
                public_memory_addresses,
                builtins_segments,
            }),
            forall|x: int, y: int|
                0 <= x < y < k ==> instruction_by_pc@[x].0 != instruction_by_pc@[y].0,
        decreases m - k,
    {
        let pc = instruction_by_pc[k].0;
        let mut j: usize = 0;
        while j < k
            invariant
                m == instruction_by_pc@.len(),
                0 <= j <= k < m,
                memory.wf(),
                state_transitions.wf(),
                builtins_segments.wf(),
                pi == (ProverInput {
                    state_transitions,
                    instruction_by_pc,
                    memory,
                    public_memory_addresses,
                    builtins_segments,
                }),
                pc == instruction_by_pc@[k as int].0,
                forall|x: int| 0 <= x < j ==> instruction_by_pc@[x].0 != pc,
            decreases k - j,
        {
            if instruction_by_pc[j].0 == pc {
                proof {
                    let s = instruction_by_pc@;
                    assert(s[j as int].0 == pc && s[k as int].0 == pc && j < k);
                    assert(!keys_unique(s)) by {
                        if keys_unique(s) {
                            assert(s[j as int].0 != s[k as int].0);
                        }
                    }
                    assert(has_key(s, pc));
                    assert(!pi.instructions_ok());
                }
                return Err(ValidationError::DuplicatePc(pc));
            }
            j += 1;
        }
        k += 1;
    }
    let n = state_transitions.steps.len();
    let mut i: usize = 0;
    while i < n
        invariant
            n == state_transitions.steps@.len(),
            0 <= i <= n,
            pi == (ProverInput {
                state_transitions,
                instruction_by_pc,
                memory,
                public_memory_addresses,
                builtins_segments,
            }),
            keys_unique(instruction_by_pc@),
            memory.wf(),
            state_transitions.wf(),
            builtins_segments.wf(),
            forall|x: int| 0 <= x < i ==> #[trigger] pi.step_pc_ok(x),
        decreases n - i,
    {
        let pc = state_transitions.steps[i].state.pc.0;
        let w1 = match lookup_word(&instruction_by_pc, pc) {
            Some(w) => w,
            None => {
                proof {
                    assert(state_transitions.steps@[i as int].state.pc.0 == pc);
                    assert(!pi.step_pc_ok(i as int));
                    assert(!pi.instructions_ok());
                }
                return Err(ValidationError::UnmappedInstruction(pc));
            },
        };
        let w2 = match lookup_word(&memory.inst_cache, pc) {
            Some(w) => w,
            None => {
                proof {
                    assert(state_transitions.steps@[i as int].state.pc.0 == pc);
                    assert(!pi.step_pc_ok(i as int));
                    assert(!pi.instructions_ok());
                }
                return Err(ValidationError::UnmappedInstruction(pc));
            },
        };
        if w1 != w2 {
            proof {
                assert(state_transitions.steps@[i as int].state.pc.0 == pc);
                assert(w1 == lookup(instruction_by_pc@, pc));
                assert(w2 == lookup(memory.inst_cache@, pc));
                assert(!pi.step_pc_ok(i as int));
                assert(!pi.instructions_ok());
            }
            return Err(ValidationError::InstructionMismatch(pc));
        }
        proof {
            assert(pi.step_pc_ok(i as int));
        }
        i += 1;
    }
    let q = public_memory_addresses.len();
    let mut p: usize = 0;
    while p < q
        invariant
            q == public_memory_addresses@.len(),
            0 <= p <= q,
            pi == (ProverInput {
                state_transitions,
                instruction_by_pc,
                memory,
                public_memory_addresses,
                builtins_segments,
            }),
            memory.wf(),
            state_transitions.wf(),
            builtins_segments.wf(),
            keys_unique(instruction_by_pc@),
            forall|x: int| 0 <= x < state_transitions.steps@.len() ==> #[trigger] pi.step_pc_ok(x),
            forall|x: int|
                0 <= x < p ==> memory.mapped(#[trigger] public_memory_addresses@[x]),
        decreases q - p,
    {
        let a = public_memory_addresses[p];
        if memory.resolve(a).is_err() {
            proof {
                if (a as int) < memory.address_to_id@.len() {
                    assert(memory.id_ok(a as int));
                }
                assert(!memory.mapped(a));
                assert(pi.public_memory_addresses@[p as int] == a);
                assert(!pi.publics_ok()) by {
                    if pi.publics_ok() {
                        assert(pi.memory.mapped(pi.public_memory_addresses@[p as int]));
                    }
                }
            }
            return Err(ValidationError::PublicAddressUnmapped(a));
        }
        proof {
            if (a as int) < memory.address_to_id@.len() {
                assert(memory.id_ok(a as int));
            }
            assert(memory.mapped(a));
        }
        p += 1;
    }
    Ok(
        ProverInput {
            state_transitions,
            instruction_by_pc,
            memory,
            public_memory_addresses,
            builtins_segments,
        },
    )
}

/// Law: in an assembled input, every pc reachable through the ordered chain
/// of snapshots carries an entry in the per-pc instruction table and an
/// entry in the memory's instruction cache, and the two words are equal.
pub proof fn lemma_chain_pcs_have_instructions(pi: ProverInput, i: int)
    requires
        pi.wf(),
        0 <= i < pi.state_transitions.states().len(),
    ensures
        has_key(pi.instruction_by_pc@, pi.state_transitions.states()[i].pc.0),
        has_key(pi.memory.inst_cache@, pi.state_transitions.states()[i].pc.0),
        lookup(pi.instruction_by_pc@, pi.state_transitions.states()[i].pc.0) == lookup(
            pi.memory.inst_cache@,
            pi.state_transitions.states()[i].pc.0,
        ),
{
    assert(pi.state_transitions.states()[i] == pi.state_transitions.steps@[i].state);
    assert(pi.step_pc_ok(i));
}

} // verus!
