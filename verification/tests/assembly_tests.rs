use cairo_trace::builtins::BuiltinSegments;
use cairo_trace::codec::EncodedMemoryValueId;
use cairo_trace::input::{assemble, ValidationError};
use cairo_trace::memory::{Memory, MemoryConfig, MemoryInconsistency};
use cairo_trace::state::{CasmState, M31};
use cairo_trace::transitions::{Opcode, StateTransitions, Step};

const EMPTY: u32 = 0x3FFF_FFFF;

fn st(pc: u32, ap: u32, fp: u32) -> CasmState {
    CasmState {
        pc: M31(pc),
        ap: M31(ap),
        fp: M31(fp),
    }
}

fn ids(raw: &[u32]) -> Vec<EncodedMemoryValueId> {
    raw.iter().copied().map(EncodedMemoryValueId).collect()
}

/// The single-multiplication trace: chain `pc=9,ap=18,fp=13` to
/// `pc=10,ap=19,fp=13`, nineteen addresses over a twelve-entry small-value
/// table and an empty wide table.
fn mul_trace() -> (StateTransitions, Vec<(u32, u64)>, Memory, Vec<u32>, BuiltinSegments) {
    let transitions = StateTransitions {
        initial_state: st(9, 18, 13),
        final_state: st(10, 19, 13),
        steps: vec![Step {
            opcode: Opcode::MulSmall,
            state: st(9, 18, 13),
        }],
    };
    let memory = Memory {
        config: MemoryConfig {
            small_max: 4722366482869645213695,
        },
        address_to_id: ids(&[
            EMPTY, 0, 0, 0, 0, 0, 0, 0, 0, 6, 7, 0, 0, 0, 0, 0, 0, 10, 11,
        ]),
        inst_cache: vec![(9, 5210805504208502784)],
        small_values: vec![
            0,
            0,
            0,
            0,
            0,
            0,
            5210805504208502784,
            2345108766317314046,
            0,
            0,
            7,
            49,
        ],
        f252_values: vec![],
    };
    let instruction_by_pc = vec![(9, 5210805504208502784)];
    (transitions, instruction_by_pc, memory, vec![], BuiltinSegments::default())
}

/// A five-instruction trace — three immediate assert-equalities, one
/// addition, one multiplication — chain `pc=1,ap=12,fp=12` to
/// `pc=9,ap=17,fp=12`, seventeen addresses over a ten-entry small-value
/// table and an empty wide table, with no publicly exposed cells.
fn five_instruction_trace() -> (
    StateTransitions,
    Vec<(u32, u64)>,
    Memory,
    Vec<u32>,
    BuiltinSegments,
) {
    let w: [u64; 5] = [
        1157565105674153984,
        1157565105674153991,
        1157565105674154007,
        4612671182993129469,
        5210805504208502784,
    ];
    let transitions = StateTransitions {
        initial_state: st(1, 12, 12),
        final_state: st(9, 17, 12),
        steps: vec![
            Step { opcode: Opcode::AssertEqImm, state: st(1, 12, 12) },
            Step { opcode: Opcode::AssertEqImm, state: st(3, 13, 12) },
            Step { opcode: Opcode::AssertEqImm, state: st(5, 14, 12) },
            Step { opcode: Opcode::Add, state: st(7, 15, 12) },
            Step { opcode: Opcode::Mul, state: st(8, 16, 12) },
        ],
    };
    let memory = Memory {
        config: MemoryConfig {
            small_max: 4722366482869645213695,
        },
        address_to_id: ids(&[0, 1, 0, 2, 0, 3, 0, 4, 5, 6, 7, 8, 0, 9, 0, 0, 0]),
        inst_cache: vec![(1, w[0]), (3, w[1]), (5, w[2]), (7, w[3]), (8, w[4])],
        small_values: vec![
            0,
            w[0] as u128,
            w[1] as u128,
            w[2] as u128,
            w[3] as u128,
            w[4] as u128,
            3,
            5,
            8,
            15,
        ],
        f252_values: vec![],
    };
    let instruction_by_pc = vec![(1, w[0]), (3, w[1]), (5, w[2]), (7, w[3]), (8, w[4])];
    (transitions, instruction_by_pc, memory, vec![], BuiltinSegments::default())
}

#[test]
fn mul_trace_assembles() {
    let (t, ibp, m, publics, b) = mul_trace();
    let input = assemble(t, ibp, m, publics, b).unwrap();
    assert_eq!(input.state_transitions.ordered_states(), vec![st(9, 18, 13)]);
    assert_eq!(input.memory.fetch_instruction(9), Ok(5210805504208502784));
    assert!(input.public_memory_addresses.is_empty());
}

#[test]
fn five_instruction_trace_assembles() {
    let (t, ibp, m, publics, b) = five_instruction_trace();
    let input = assemble(t, ibp, m, publics, b).unwrap();
    assert_eq!(input.state_transitions.ordered_states().len(), 5);
    assert_eq!(
        input.state_transitions.states_for_opcode(Opcode::AssertEqImm).len(),
        3
    );
    assert!(input.public_memory_addresses.is_empty());
}

#[test]
fn missing_cached_instruction_aborts_assembly() {
    let (t, ibp, mut m, publics, b) = mul_trace();
    m.inst_cache.clear();
    assert_eq!(
        assemble(t, ibp, m, publics, b).unwrap_err(),
        ValidationError::UnmappedInstruction(9)
    );
}

#[test]
fn missing_per_pc_entry_aborts_assembly() {
    let (t, _, m, publics, b) = mul_trace();
    assert_eq!(
        assemble(t, vec![], m, publics, b).unwrap_err(),
        ValidationError::UnmappedInstruction(9)
    );
}

#[test]
fn disagreeing_instruction_tables_abort_assembly() {
    let (t, _, m, publics, b) = mul_trace();
    let ibp = vec![(9, 5210805504208502785)];
    assert_eq!(
        assemble(t, ibp, m, publics, b).unwrap_err(),
        ValidationError::InstructionMismatch(9)
    );
}

#[test]
fn duplicate_per_pc_entries_abort_assembly() {
    let (t, mut ibp, m, publics, b) = mul_trace();
    ibp.push((9, 5210805504208502784));
    assert_eq!(
        assemble(t, ibp, m, publics, b).unwrap_err(),
        ValidationError::DuplicatePc(9)
    );
}

#[test]
fn public_address_must_be_mapped() {
    let (t, ibp, m, _, b) = mul_trace();
    assert_eq!(
        assemble(t, ibp, m, vec![0], b).unwrap_err(),
        ValidationError::PublicAddressUnmapped(0)
    );
}

#[test]
fn memory_faults_come_first() {
    let (t, ibp, mut m, publics, b) = mul_trace();
    m.inst_cache.clear();
    m.address_to_id[2] = EncodedMemoryValueId(0x8000_0000);
    assert_eq!(
        assemble(t, ibp, m, publics, b).unwrap_err(),
        ValidationError::Memory(MemoryInconsistency::InvalidId(2))
    );
}
