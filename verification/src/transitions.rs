//! The ordered chain of register snapshots, partitioned by opcode.
//!
//! The canonical structure is one ordered sequence of `(opcode, snapshot)`
//! steps from the run's initial snapshot up to (but excluding) its final
//! snapshot; the per-opcode buckets the backend consumes are a derived view
//! of that sequence, so the partition and the chain can never disagree. The
//! register-update rule connecting consecutive snapshots is the backend's
//! concern; validation here confirms the structure: a non-empty chain that
//! starts at the initial snapshot, canonical register values, and no
//! snapshot claimed by two different opcode categories.

use vstd::prelude::*;

use crate::state::CasmState;

verus! {

/// The opcode category active at one snapshot: the class of instruction the
/// backend arithmetizes as its own constraint sub-system.
#[derive(Clone, Copy, Debug, PartialEq, Eq, Structural)]
pub enum Opcode {
    /// Fallback category for instructions outside the specialized ones.
    Generic,
    /// Allocation-pointer adjustment.
    AddAp,
    /// Field addition.
    Add,
    /// Field addition on small operands.
    AddSmall,
    /// Assert-equality between two cells.
    AssertEq,
    /// Assert-equality through a double dereference.
    AssertEqDoubleDeref,
    /// Assert-equality against an immediate.
    AssertEqImm,
    /// Call to an absolute target.
    CallAbs,
    /// Call to a relative immediate target.
    CallRelImm,
    /// Conditional jump not taken.
    JnzNonTaken,
    /// Conditional jump taken.
    JnzTaken,
    /// Jump by a relative immediate.
    JumpRelImm,
    /// Jump by a relative cell value.
    JumpRel,
    /// Jump through a double dereference.
    JumpDoubleDeref,
    /// Jump to an absolute target.
    JumpAbs,
    /// Field multiplication on small operands.
    MulSmall,
    /// Field multiplication.
    Mul,
    /// Return from a call.
    Ret,
    /// Blake compression.
    BlakeCompress,
    /// Extension-field addition/multiplication.
    QM31AddMul,
}

/// One element of the chain: the snapshot and the opcode category of the
/// instruction fetched at its program counter.
#[derive(Clone, Copy, Debug, PartialEq, Eq, Structural)]
pub struct Step {
    /// The category of the instruction executed at this snapshot.
    pub opcode: Opcode,
    /// The register snapshot.
    pub state: CasmState,
}

/// The snapshots of one bucket: the states of the steps carrying `op`, in
/// chain order.
pub open spec fn bucket_of(s: Seq<Step>, op: Opcode) -> Seq<CasmState>
    decreases s.len(),
{
    if s.len() == 0 {
        Seq::empty()
    } else {
        let rest = bucket_of(s.drop_last(), op);
        if s.last().opcode == op {
            rest.push(s.last().state)
        } else {
            rest
        }
    }
}

/// Law: the buckets are a faithful view of the chain. A snapshot stands in
/// the bucket of an opcode exactly when some step of the chain carries that
/// opcode and that snapshot.
pub proof fn lemma_bucket_is_chain_view(s: Seq<Step>, op: Opcode, st: CasmState)
    ensures
        bucket_of(s, op).contains(st) <==> exists|i: int|
            0 <= i < s.len() && s[i].opcode == op && s[i].state == st,
    decreases s.len(),
{
    if s.len() > 0 {
        lemma_bucket_is_chain_view(s.drop_last(), op, st);
        let prefix = s.drop_last();
        if bucket_of(s, op).contains(st) {
            if s.last().opcode == op && s.last().state == st {
                assert(s[s.len() - 1].opcode == op && s[s.len() - 1].state == st);
            } else if prefix_has(prefix, op, st) {
                let i = choose|i: int|
                    0 <= i < prefix.len() && prefix[i].opcode == op && prefix[i].state == st;
                assert(s[i].opcode == op && s[i].state == st);
            } else {
                if s.last().opcode == op {
                    assert(bucket_of(s, op) == bucket_of(prefix, op).push(s.last().state));
                    assert(bucket_of(prefix, op).contains(st));
                } else {
                    assert(bucket_of(s, op) == bucket_of(prefix, op));
                }
            }
        }
        if exists|i: int| 0 <= i < s.len() && s[i].opcode == op && s[i].state == st {
            let i = choose|i: int| 0 <= i < s.len() && s[i].opcode == op && s[i].state == st;
            if i < s.len() - 1 {
                assert(prefix[i].opcode == op && prefix[i].state == st);
                assert(bucket_of(prefix, op).contains(st));
                if s.last().opcode == op {
                    assert(bucket_of(s, op) == bucket_of(prefix, op).push(s.last().state));
                    let j = choose|j: int|
                        0 <= j < bucket_of(prefix, op).len() && bucket_of(prefix, op)[j] == st;
                    assert(bucket_of(s, op)[j] == st);
                }
            } else {
                if s.last().opcode == op {
                    let b = bucket_of(s, op);
                    assert(b[b.len() - 1] == st);
                }
            }
        }
    }
}

/// Whether some step of `s` carries `op` and `st`.
pub open spec fn prefix_has(s: Seq<Step>, op: Opcode, st: CasmState) -> bool {
    exists|i: int| 0 <= i < s.len() && s[i].opcode == op && s[i].state == st
}

/// Law: in a well-formed chain the buckets are pairwise disjoint — a
/// snapshot that stands in one opcode's bucket stands in no other's, so each
/// snapshot belongs to exactly one opcode category.
pub proof fn lemma_buckets_disjoint(
    t: StateTransitions,
    op1: Opcode,
    op2: Opcode,
    st: CasmState,
)
    requires
        t.wf(),
        op1 != op2,
        bucket_of(t.steps@, op1).contains(st),
    ensures
        !bucket_of(t.steps@, op2).contains(st),
{
    lemma_bucket_is_chain_view(t.steps@, op1, st);
    lemma_bucket_is_chain_view(t.steps@, op2, st);
    if bucket_of(t.steps@, op2).contains(st) {
        let i = choose|i: int|
            0 <= i < t.steps@.len() && t.steps@[i].opcode == op1 && t.steps@[i].state == st;
        let j = choose|j: int|
            0 <= j < t.steps@.len() && t.steps@[j].opcode == op2 && t.steps@[j].state == st;
        assert(t.steps@[i].opcode == t.steps@[j].opcode);
    }
}

/// A structural fault found while validating a chain.
#[derive(Clone, Copy, Debug, PartialEq, Eq, Structural)]
pub enum TransitionError {
    /// The chain holds no step at all.
    EmptyChain,
    /// The first snapshot of the chain is not the initial snapshot.
    InitialStateMismatch,
    /// A register of this snapshot is not a canonical field element.
    StateOutOfRange(CasmState),
    /// This snapshot is claimed by two different opcode categories.
    AmbiguousState(CasmState),
    /// This snapshot belongs to no step of the chain.
    OrphanState(CasmState),
}

/// The chain of register snapshots of one run, from the initial to the final
/// snapshot, each step tagged with the opcode category fetched at it.
#[derive(Clone, Debug)]
pub struct StateTransitions {
    /// The registers before the first instruction.
    pub initial_state: CasmState,
    /// The registers after the last instruction.
    pub final_state: CasmState,
    /// One step per executed instruction, in execution order; the full chain
    /// of snapshots is these states followed by `final_state`.
    pub steps: Vec<Step>,
}

impl StateTransitions {
    /// The executed snapshots in execution order (the final snapshot, which
    /// no step executes, is not among them).
    pub open spec fn states(self) -> Seq<CasmState> {
        self.steps@.map_values(|s: Step| s.state)
    }

    /// Whether some step carries this snapshot.
    pub open spec fn has_state(self, st: CasmState) -> bool {
        exists|i: int| 0 <= i < self.steps@.len() && self.steps@[i].state == st
    }

    /// Whether no snapshot is claimed by two different opcode categories.
    pub open spec fn unambiguous(self) -> bool {
        forall|i: int, j: int|
            0 <= i < self.steps@.len() && 0 <= j < self.steps@.len() && self.steps@[i].state
                == self.steps@[j].state ==> self.steps@[i].opcode == self.steps@[j].opcode
    }

    /// Whether every register value in the chain is canonical.
    pub open spec fn states_wf(self) -> bool {
        &&& self.initial_state.wf()
        &&& self.final_state.wf()
        &&& forall|i: int| 0 <= i < self.steps@.len() ==> self.steps@[i].state.wf()
    }

    /// Well-formedness of the chain: what `validate` decides. The chain is
    /// never empty, begins at the initial snapshot, carries only canonical
    /// registers, and partitions its snapshots unambiguously.
    pub open spec fn wf(self) -> bool {
        &&& self.steps@.len() >= 1
        &&& self.steps@[0].state == self.initial_state
        &&& self.states_wf()
        &&& self.unambiguous()
    }

    /// The executed snapshots, merged back into single execution order.
    pub fn ordered_states(&self) -> (r: Vec<CasmState>)
        ensures
            r@ == self.states(),
    {
        let mut r: Vec<CasmState> = Vec::new();
        let n = self.steps.len();
        let mut i: usize = 0;
        while i < n
            invariant
                n == self.steps@.len(),
                0 <= i <= n,
                r@ == self.steps@.take(i as int).map_values(|s: Step| s.state),
            decreases n - i,
        {
            r.push(self.steps[i].state);
            proof {
                assert(self.steps@.take(i as int + 1).drop_last() =~= self.steps@.take(i as int));
                assert(r@ =~= self.steps@.take(i as int + 1).map_values(|s: Step| s.state));
            }
            i += 1;
        }
        proof {
            assert(self.steps@.take(n as int) =~= self.steps@);
        }
        r
    }

    /// The bucket of one opcode category: the snapshots of its steps, in
    /// chain order.
    pub fn states_for_opcode(&self, op: Opcode) -> (r: Vec<CasmState>)
        ensures
            r@ == bucket_of(self.steps@, op),
    {
        let mut r: Vec<CasmState> = Vec::new();
        let n = self.steps.len();
        let mut i: usize = 0;
        while i < n
            invariant
                n == self.steps@.len(),
                0 <= i <= n,
                r@ == bucket_of(self.steps@.take(i as int), op),
            decreases n - i,
        {
            let step = self.steps[i];
            if step.opcode == op {
                r.push(step.state);
            }
            proof {
                let t1 = self.steps@.take(i as int + 1);
                assert(t1.drop_last() =~= self.steps@.take(i as int));
                assert(t1.last() == self.steps@[i as int]);
            }
            i += 1;
        }
        proof {
            assert(self.steps@.take(n as int) =~= self.steps@);
        }
        r
    }

    /// The opcode category whose bucket holds this exact snapshot; fails
    /// when the snapshot belongs to no step of the chain.
    pub fn opcode_of(&self, state: &CasmState) -> (r: Result<Opcode, TransitionError>)
        ensures
            (r is Ok) == self.has_state(*state),
            r matches Ok(op) ==> exists|i: int|
                0 <= i < self.steps@.len() && self.steps@[i].state == *state
                    && self.steps@[i].opcode == op,
            !self.has_state(*state) ==> r == Err::<Opcode, TransitionError>(
                TransitionError::OrphanState(*state),
            ),
    {
        let n = self.steps.len();
        let mut i: usize = 0;
        while i < n
            invariant
                n == self.steps@.len(),
                0 <= i <= n,
                forall|j: int| 0 <= j < i ==> self.steps@[j].state != *state,
            decreases n - i,
        {
            if self.steps[i].state == *state {
                return Ok(self.steps[i].opcode);
            }
            i += 1;
        }
        Err(TransitionError::OrphanState(*state))
    }

    /// Whether a reported fault really holds of this chain. `OrphanState` is
    /// a lookup failure, never a validation fault.
    pub open spec fn fault_sound(self, e: TransitionError) -> bool {
        match e {
            TransitionError::EmptyChain => self.steps@.len() == 0,
            TransitionError::InitialStateMismatch => self.steps@.len() >= 1
                && self.steps@[0].state != self.initial_state,
            TransitionError::StateOutOfRange(s) => !s.wf() && (s == self.initial_state || s
                == self.final_state || self.has_state(s)),
            TransitionError::AmbiguousState(s) => !self.unambiguous() && self.has_state(s),
            TransitionError::OrphanState(_) => false,
        }
    }

    /// Law: a well-formed chain is non-empty and its ordered snapshots begin
    /// at the initial snapshot.
    pub proof fn lemma_chain_starts_at_initial(self)
        requires
            self.wf(),
        ensures
            self.states().len() >= 1,
            self.states()[0] == self.initial_state,
    {
        assert(self.states()[0] == self.steps@[0].state);
    }

    /// Law: a snapshot of a well-formed chain belongs to exactly one opcode
    /// category — any two steps carrying it carry the same opcode.
    pub proof fn lemma_snapshot_category_unique(self, i: int, j: int)
        requires
            self.wf(),
            0 <= i < self.steps@.len(),
            0 <= j < self.steps@.len(),
            self.steps@[i].state == self.steps@[j].state,
        ensures
            self.steps@[i].opcode == self.steps@[j].opcode,
    {
    }

    /// Checks the structure of the chain: non-empty, beginning at the
    /// initial snapshot, canonical registers throughout, and no snapshot in
    /// two different opcode buckets. The final snapshot closes the chain by
    /// construction; whether consecutive snapshots obey each opcode's
    /// register-update rule is the backend's part.
    pub fn validate(&self) -> (r: Result<(), TransitionError>)
        ensures
            (r is Ok) == self.wf(),
            (r == Err::<(), TransitionError>(TransitionError::EmptyChain)) == (self.steps@.len()
                == 0),
            r == Err::<(), TransitionError>(TransitionError::InitialStateMismatch) ==> self.steps@[0].state
                != self.initial_state,
            r matches Err(TransitionError::StateOutOfRange(s)) ==> !s.wf() && (s
                == self.initial_state || s == self.final_state || self.has_state(s)),
            r matches Err(TransitionError::AmbiguousState(s)) ==> !self.unambiguous()
                && self.has_state(s),
            r matches Err(e) ==> self.fault_sound(e),
    {
        let n = self.steps.len();
        if n == 0 {
            return Err(TransitionError::EmptyChain);
        }
        if !(self.steps[0].state == self.initial_state) {
            return Err(TransitionError::InitialStateMismatch);
        }
        if !self.initial_state.is_canonical() {
            return Err(TransitionError::StateOutOfRange(self.initial_state));
        }
        if !self.final_state.is_canonical() {
            return Err(TransitionError::StateOutOfRange(self.final_state));
        }
        let mut i: usize = 0;
        while i < n
            invariant
                n == self.steps@.len(),
                0 <= i <= n,
                forall|x: int| 0 <= x < i ==> self.steps@[x].state.wf(),
            decreases n - i,
        {
            let step = self.steps[i];
            if !step.state.is_canonical() {
                return Err(TransitionError::StateOutOfRange(step.state));
            }
            i += 1;
        }
        let mut k: usize = 0;
        while k < n
            invariant
                n == self.steps@.len(),
                0 <= k <= n,
                forall|x: int, y: int|
                    0 <= x < y < k ==> (self.steps@[x].state == self.steps@[y].state
                        ==> self.steps@[x].opcode == self.steps@[y].opcode),
            decreases n - k,
        {
            let step = self.steps[k];
            let mut j: usize = 0;
            while j < k
                invariant
                    n == self.steps@.len(),
                    0 <= j <= k < n,
                    step == self.steps@[k as int],
                    forall|x: int|
                        0 <= x < j ==> (self.steps@[x].state == self.steps@[k as int].state
                            ==> self.steps@[x].opcode == self.steps@[k as int].opcode),
                decreases k - j,
            {
                let other = self.steps[j];
                if other.state == step.state && !(other.opcode == step.opcode) {
                    proof {
                        let s = self.steps@;
                        assert(s[j as int].state == s[k as int].state && s[j as int].opcode
                            != s[k as int].opcode);
                        assert(!self.unambiguous()) by {
                            if self.unambiguous() {
                                assert(s[j as int].opcode == s[k as int].opcode);
                            }
                        }
                    }
                    return Err(TransitionError::AmbiguousState(step.state));
                }
                j += 1;
            }
            k += 1;
        }
        proof {
            assert forall|i0: int, j0: int|
                0 <= i0 < self.steps@.len() && 0 <= j0 < self.steps@.len()
                    && self.steps@[i0].state == self.steps@[j0].state implies self.steps@[i0].opcode
                == self.steps@[j0].opcode by {
                if i0 < j0 {
                    assert(self.steps@[i0].opcode == self.steps@[j0].opcode);
                } else if j0 < i0 {
                    assert(self.steps@[j0].opcode == self.steps@[i0].opcode);
                }
            }
        }
        Ok(())
    }
}

} // verus!
