use cairo_trace::state::{CasmState, M31, M31_PRIME};
use cairo_trace::transitions::{Opcode, StateTransitions, Step, TransitionError};

fn st(pc: u32, ap: u32, fp: u32) -> CasmState {
    CasmState {
        pc: M31(pc),
        ap: M31(ap),
        fp: M31(fp),
    }
}

/// The chain of the single-multiplication trace: one executed snapshot.
fn mul_trace_chain() -> StateTransitions {
    StateTransitions {
        initial_state: st(9, 18, 13),
        final_state: st(10, 19, 13),
        steps: vec![Step {
            opcode: Opcode::MulSmall,
            state: st(9, 18, 13),
        }],
    }
}

fn five_step_chain() -> StateTransitions {
    StateTransitions {
        initial_state: st(1, 12, 12),
        final_state: st(9, 17, 12),
        steps: vec![
            Step { opcode: Opcode::AssertEqImm, state: st(1, 12, 12) },
            Step { opcode: Opcode::AssertEqImm, state: st(3, 13, 12) },
            Step { opcode: Opcode::AssertEqImm, state: st(5, 14, 12) },
            Step { opcode: Opcode::Add, state: st(7, 15, 12) },
            Step { opcode: Opcode::Mul, state: st(8, 16, 12) },
        ],
    }
}

#[test]
fn ordered_states_preserves_execution_order() {
    let t = five_step_chain();
    let states = t.ordered_states();
    assert_eq!(
        states,
        vec![st(1, 12, 12), st(3, 13, 12), st(5, 14, 12), st(7, 15, 12), st(8, 16, 12)]
    );
    assert_eq!(states[0], t.initial_state);
}

#[test]
fn buckets_partition_the_chain() {
    let t = five_step_chain();
    assert_eq!(
        t.states_for_opcode(Opcode::AssertEqImm),
        vec![st(1, 12, 12), st(3, 13, 12), st(5, 14, 12)]
    );
    assert_eq!(t.states_for_opcode(Opcode::Add), vec![st(7, 15, 12)]);
    assert_eq!(t.states_for_opcode(Opcode::Mul), vec![st(8, 16, 12)]);
    assert_eq!(t.states_for_opcode(Opcode::Ret), Vec::<CasmState>::new());
    let total: usize = [
        Opcode::AssertEqImm,
        Opcode::Add,
        Opcode::Mul,
    ]
    .into_iter()
    .map(|op| t.states_for_opcode(op).len())
    .sum();
    assert_eq!(total, t.ordered_states().len());
}

#[test]
fn opcode_of_finds_the_category() {
    let t = five_step_chain();
    assert_eq!(t.opcode_of(&st(7, 15, 12)), Ok(Opcode::Add));
    assert_eq!(t.opcode_of(&st(1, 12, 12)), Ok(Opcode::AssertEqImm));
}

#[test]
fn opcode_of_rejects_orphan_snapshot() {
    let t = five_step_chain();
    assert_eq!(
        t.opcode_of(&st(2, 2, 2)),
        Err(TransitionError::OrphanState(st(2, 2, 2)))
    );
}

#[test]
fn validate_accepts_the_chains() {
    assert_eq!(mul_trace_chain().validate(), Ok(()));
    assert_eq!(five_step_chain().validate(), Ok(()));
}

#[test]
fn validate_rejects_empty_chain() {
    let mut t = mul_trace_chain();
    t.steps.clear();
    assert_eq!(t.validate(), Err(TransitionError::EmptyChain));
}

#[test]
fn validate_rejects_wrong_first_snapshot() {
    let mut t = mul_trace_chain();
    t.initial_state = st(8, 18, 13);
    assert_eq!(t.validate(), Err(TransitionError::InitialStateMismatch));
}

#[test]
fn validate_rejects_non_canonical_register() {
    let mut t = mul_trace_chain();
    t.final_state = st(10, M31_PRIME, 13);
    assert_eq!(
        t.validate(),
        Err(TransitionError::StateOutOfRange(st(10, M31_PRIME, 13)))
    );
}

#[test]
fn validate_rejects_snapshot_in_two_buckets() {
    let mut t = five_step_chain();
    t.steps.push(Step {
        opcode: Opcode::Generic,
        state: st(3, 13, 12),
    });
    assert_eq!(
        t.validate(),
        Err(TransitionError::AmbiguousState(st(3, 13, 12)))
    );
}
