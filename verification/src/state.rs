//! Field elements and register snapshots.
//!
//! Every register and memory value of the virtual machine is a scalar in a
//! fixed finite field; values are canonical, always reduced to `[0, prime)`.
//! A [`CasmState`] is the snapshot of the machine's three registers at one
//! executed instruction.

use vstd::prelude::*;

verus! {

/// The field's prime: `2^31 - 1`.
pub const M31_PRIME: u32 = 0x7FFF_FFFF;

/// A field element, kept canonical in `[0, M31_PRIME)`.
#[derive(Clone, Copy, Debug, PartialEq, Eq, Structural, Hash)]
pub struct M31(pub u32);

impl M31 {
    /// Whether the element is canonical.
    pub open spec fn wf(self) -> bool {
        self.0 < M31_PRIME
    }

    /// The canonical element for an arbitrary machine word, reduced modulo
    /// the field's prime.
    pub fn reduced(value: u32) -> (r: M31)
        ensures
            r.0 == value as int % M31_PRIME as int,
            r.wf(),
    {
        M31(value % M31_PRIME)
    }
}

/// A snapshot of the virtual machine's three registers — program counter,
/// allocation pointer and frame pointer — at one point in execution.
#[derive(Clone, Copy, Debug, PartialEq, Eq, Structural, Hash)]
pub struct CasmState {
    /// Program counter.
    pub pc: M31,
    /// Allocation pointer.
    pub ap: M31,
    /// Frame pointer.
    pub fp: M31,
}

impl CasmState {
    /// Whether all three registers are canonical field elements.
    pub open spec fn wf(self) -> bool {
        self.pc.wf() && self.ap.wf() && self.fp.wf()
    }

    /// Decides whether all three registers are canonical field elements.
    pub fn is_canonical(&self) -> (r: bool)
        ensures
            r == self.wf(),
    {
        self.pc.0 < M31_PRIME && self.ap.0 < M31_PRIME && self.fp.0 < M31_PRIME
    }

    /// Builds a snapshot from three canonical register values.
    pub fn new(pc: u32, ap: u32, fp: u32) -> (r: CasmState)
        requires
            pc < M31_PRIME,
            ap < M31_PRIME,
            fp < M31_PRIME,
        ensures
            r == (CasmState { pc: M31(pc), ap: M31(ap), fp: M31(fp) }),
            r.wf(),
    {
        CasmState { pc: M31(pc), ap: M31(ap), fp: M31(fp) }
    }
}

} // verus!
