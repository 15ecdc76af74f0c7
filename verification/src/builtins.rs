//! The builtin segment table.
//!
//! A builtin is a hardware-accelerated primitive with a dedicated contiguous
//! sub-range of the address space. A program that never calls a builtin has
//! no segment for it; segments of different builtins must never overlap.

use vstd::prelude::*;

verus! {

/// The builtin types a segment can be dedicated to.
#[derive(Clone, Copy, Debug, PartialEq, Eq, Structural)]
pub enum BuiltinKind {
    /// Modular addition.
    AddMod,
    /// Bitwise operations.
    Bitwise,
    /// Elliptic-curve operation.
    EcOp,
    /// Signature verification.
    Ecdsa,
    /// Keccak hashing.
    Keccak,
    /// Modular multiplication.
    MulMod,
    /// Pedersen hashing.
    Pedersen,
    /// Poseidon hashing.
    Poseidon,
    /// 96-bit range check.
    RangeCheckBits96,
    /// 128-bit range check.
    RangeCheckBits128,
}

/// One contiguous address range `[begin_addr, stop_ptr)` dedicated to a
/// builtin.
#[derive(Clone, Copy, Debug, PartialEq, Eq, Structural)]
pub struct BuiltinSegment {
    /// First address of the range.
    pub begin_addr: u32,
    /// First address past the range.
    pub stop_ptr: u32,
}

impl BuiltinSegment {
    /// Whether the range is ordered.
    pub open spec fn wf(self) -> bool {
        self.begin_addr <= self.stop_ptr
    }

    /// Whether an address falls inside the range.
    pub open spec fn contains_addr(self, a: u32) -> bool {
        self.begin_addr <= a < self.stop_ptr
    }
}

/// Whether two ranges share at least one address.
pub open spec fn segments_overlap(s1: BuiltinSegment, s2: BuiltinSegment) -> bool {
    s1.begin_addr < s2.stop_ptr && s2.begin_addr < s1.stop_ptr
}

/// Whether some entry of the table names this builtin type.
pub open spec fn table_covers(s: Seq<(BuiltinKind, Option<BuiltinSegment>)>, k: BuiltinKind) -> bool {
    exists|i: int| 0 <= i < s.len() && s[i].0 == k
}

/// A fault found while validating the segment table.
#[derive(Clone, Copy, Debug, PartialEq, Eq, Structural)]
pub enum BuiltinsError {
    /// This builtin's range is not ordered.
    InvalidSegment(BuiltinKind),
    /// The segments of these two builtins share an address.
    OverlappingSegments(BuiltinKind, BuiltinKind),
}

/// The per-builtin segment table: one optional range per builtin type.
#[derive(Clone, Copy, Debug, PartialEq, Eq, Structural, Default)]
pub struct BuiltinSegments {
    /// Segment of the modular-addition builtin.
    pub add_mod: Option<BuiltinSegment>,
    /// Segment of the bitwise builtin.
    pub bitwise: Option<BuiltinSegment>,
    /// Segment of the elliptic-curve-operation builtin.
    pub ec_op: Option<BuiltinSegment>,
    /// Segment of the signature-verification builtin.
    pub ecdsa: Option<BuiltinSegment>,
    /// Segment of the Keccak builtin.
    pub keccak: Option<BuiltinSegment>,
    /// Segment of the modular-multiplication builtin.
    pub mul_mod: Option<BuiltinSegment>,
    /// Segment of the Pedersen builtin.
    pub pedersen: Option<BuiltinSegment>,
    /// Segment of the Poseidon builtin.
    pub poseidon: Option<BuiltinSegment>,
    /// Segment of the 96-bit range-check builtin.
    pub range_check_bits_96: Option<BuiltinSegment>,
    /// Segment of the 128-bit range-check builtin.
    pub range_check_bits_128: Option<BuiltinSegment>,
}

impl BuiltinSegments {
    /// The segment recorded for one builtin type.
    pub open spec fn segment_for_spec(self, k: BuiltinKind) -> Option<BuiltinSegment> {
        match k {
            BuiltinKind::AddMod => self.add_mod,
            BuiltinKind::Bitwise => self.bitwise,
            BuiltinKind::EcOp => self.ec_op,
            BuiltinKind::Ecdsa => self.ecdsa,
            BuiltinKind::Keccak => self.keccak,
            BuiltinKind::MulMod => self.mul_mod,
            BuiltinKind::Pedersen => self.pedersen,
            BuiltinKind::Poseidon => self.poseidon,
            BuiltinKind::RangeCheckBits96 => self.range_check_bits_96,
            BuiltinKind::RangeCheckBits128 => self.range_check_bits_128,
        }
    }

    /// Looks one builtin's segment up.
    pub fn segment_for(&self, k: BuiltinKind) -> (r: Option<BuiltinSegment>)
        ensures
            r == self.segment_for_spec(k),
    {
        match k {
            BuiltinKind::AddMod => self.add_mod,
            BuiltinKind::Bitwise => self.bitwise,
            BuiltinKind::EcOp => self.ec_op,
            BuiltinKind::Ecdsa => self.ecdsa,
            BuiltinKind::Keccak => self.keccak,
            BuiltinKind::MulMod => self.mul_mod,
            BuiltinKind::Pedersen => self.pedersen,
            BuiltinKind::Poseidon => self.poseidon,
            BuiltinKind::RangeCheckBits96 => self.range_check_bits_96,
            BuiltinKind::RangeCheckBits128 => self.range_check_bits_128,
        }
    }

    /// Whether every present segment is an ordered range.
    pub open spec fn segments_wf(self) -> bool {
        forall|k: BuiltinKind|
            match #[trigger] self.segment_for_spec(k) {
                Some(s) => s.wf(),
                None => true,
            }
    }

    /// Whether the present segments of any two different builtins are
    /// disjoint.
    pub open spec fn disjoint(self) -> bool {
        forall|k1: BuiltinKind, k2: BuiltinKind|
            k1 != k2 ==> match (
                #[trigger] self.segment_for_spec(k1),
                #[trigger] self.segment_for_spec(k2),
            ) {
                (Some(s1), Some(s2)) => !segments_overlap(s1, s2),
                _ => true,
            }
    }

    /// Well-formedness of the table: what `validate` decides.
    pub open spec fn wf(self) -> bool {
        self.segments_wf() && self.disjoint()
    }

    /// Whether a reported fault really holds of this table.
    pub open spec fn fault_sound(self, e: BuiltinsError) -> bool {
        match e {
            BuiltinsError::InvalidSegment(k) => match self.segment_for_spec(k) {
                Some(s) => !s.wf(),
                None => false,
            },
            BuiltinsError::OverlappingSegments(k1, k2) => k1 != k2 && match (
                self.segment_for_spec(k1),
                self.segment_for_spec(k2),
            ) {
                (Some(s1), Some(s2)) => segments_overlap(s1, s2),
                _ => false,
            },
        }
    }

    /// All ten entries of the table, each builtin type once, in a fixed
    /// order.
    pub fn all_segments(&self) -> (r: Vec<(BuiltinKind, Option<BuiltinSegment>)>)
        ensures
            r@.len() == 10,
            forall|i: int| 0 <= i < 10 ==> #[trigger] r@[i].1 == self.segment_for_spec(r@[i].0),
            forall|i: int, j: int| 0 <= i < j < 10 ==> r@[i].0 != r@[j].0,
            forall|k: BuiltinKind| #[trigger] table_covers(r@, k),
    {
        let mut r: Vec<(BuiltinKind, Option<BuiltinSegment>)> = Vec::new();
        r.push((BuiltinKind::AddMod, self.add_mod));
        r.push((BuiltinKind::Bitwise, self.bitwise));
        r.push((BuiltinKind::EcOp, self.ec_op));
        r.push((BuiltinKind::Ecdsa, self.ecdsa));
        r.push((BuiltinKind::Keccak, self.keccak));
        r.push((BuiltinKind::MulMod, self.mul_mod));
        r.push((BuiltinKind::Pedersen, self.pedersen));
        r.push((BuiltinKind::Poseidon, self.poseidon));
        r.push((BuiltinKind::RangeCheckBits96, self.range_check_bits_96));
        r.push((BuiltinKind::RangeCheckBits128, self.range_check_bits_128));
        proof {
            assert forall|k: BuiltinKind| #[trigger] table_covers(r@, k) by {
                match k {
                    BuiltinKind::AddMod => assert(r@[0].0 == k),
                    BuiltinKind::Bitwise => assert(r@[1].0 == k),
                    BuiltinKind::EcOp => assert(r@[2].0 == k),
                    BuiltinKind::Ecdsa => assert(r@[3].0 == k),
                    BuiltinKind::Keccak => assert(r@[4].0 == k),
                    BuiltinKind::MulMod => assert(r@[5].0 == k),
                    BuiltinKind::Pedersen => assert(r@[6].0 == k),
                    BuiltinKind::Poseidon => assert(r@[7].0 == k),
                    BuiltinKind::RangeCheckBits96 => assert(r@[8].0 == k),
                    BuiltinKind::RangeCheckBits128 => assert(r@[9].0 == k),
                }
            }
        }
        r
    }

    /// Checks that every present segment is an ordered range and that no two
    /// builtins' segments share an address.
    pub fn validate(&self) -> (r: Result<(), BuiltinsError>)
        ensures
            (r is Ok) == self.wf(),
            r matches Err(BuiltinsError::InvalidSegment(k)) ==> match self.segment_for_spec(k) {
                Some(s) => !s.wf(),
                None => false,
            },
            r matches Err(BuiltinsError::OverlappingSegments(k1, k2)) ==> k1 != k2 && match (
                self.segment_for_spec(k1),
                self.segment_for_spec(k2),
            ) {
                (Some(s1), Some(s2)) => segments_overlap(s1, s2),
                _ => false,
            },
            r matches Err(e) ==> self.fault_sound(e),
    {
        let v = self.all_segments();
        let mut i: usize = 0;
        while i < 10
            invariant
                v@.len() == 10,
                0 <= i <= 10,
                forall|x: int| 0 <= x < 10 ==> #[trigger] v@[x].1 == self.segment_for_spec(
                    v@[x].0,
                ),
                forall|x: int, y: int| 0 <= x < y < 10 ==> v@[x].0 != v@[y].0,
                forall|k: BuiltinKind| #[trigger] table_covers(v@, k),
                forall|x: int|
                    0 <= x < i ==> match #[trigger] v@[x].1 {
                        Some(s) => s.wf(),
                        None => true,
                    },
            decreases 10 - i,
        {
            match v[i].1 {
                Some(s) => {
                    if s.begin_addr > s.stop_ptr {
                        return Err(BuiltinsError::InvalidSegment(v[i].0));
                    }
                },
                None => {},
            }
            i += 1;
        }
        let mut a: usize = 0;
        while a < 10
            invariant
                v@.len() == 10,
                0 <= a <= 10,
                forall|x: int| 0 <= x < 10 ==> #[trigger] v@[x].1 == self.segment_for_spec(
                    v@[x].0,
                ),
                forall|x: int, y: int| 0 <= x < y < 10 ==> v@[x].0 != v@[y].0,
                forall|k: BuiltinKind| #[trigger] table_covers(v@, k),
                forall|x: int|
                    0 <= x < 10 ==> match #[trigger] v@[x].1 {
                        Some(s) => s.wf(),
                        None => true,
                    },
                forall|x: int, y: int|
                    0 <= x < a && x < y < 10 ==> match (#[trigger] v@[x].1, #[trigger] v@[y].1) {
                        (Some(s1), Some(s2)) => !segments_overlap(s1, s2),
                        _ => true,
                    },
            decreases 10 - a,
        {
            match v[a].1 {
                Some(s1) => {
                    let mut b: usize = a + 1;
                    while b < 10
                        invariant
                            v@.len() == 10,
                            0 <= a < b <= 10,
                            Some(s1) == v@[a as int].1,
                            forall|x: int| 0 <= x < 10 ==> #[trigger] v@[x].1
                                == self.segment_for_spec(v@[x].0),
                            forall|x: int, y: int| 0 <= x < y < 10 ==> v@[x].0 != v@[y].0,
                            forall|y: int|
                                a < y < b ==> match #[trigger] v@[y].1 {
                                    Some(s2) => !segments_overlap(s1, s2),
                                    _ => true,
                                },
                        decreases 10 - b,
                    {
                        match v[b].1 {
                            Some(s2) => {
                                if s1.begin_addr < s2.stop_ptr && s2.begin_addr < s1.stop_ptr {
                                    return Err(
                                        BuiltinsError::OverlappingSegments(v[a].0, v[b].0),
                                    );
                                }
                            },
                            None => {},
                        }
                        b += 1;
                    }
                },
                None => {},
            }
            a += 1;
        }
        proof {
            assert forall|k: BuiltinKind|
                match #[trigger] self.segment_for_spec(k) {
                    Some(s) => s.wf(),
                    None => true,
                } by {
                assert(table_covers(v@, k));
                let i0 = choose|i0: int| 0 <= i0 < v@.len() && v@[i0].0 == k;
                assert(v@[i0].1 == self.segment_for_spec(k));
            }
            assert forall|k1: BuiltinKind, k2: BuiltinKind| k1 != k2 implies match (
                #[trigger] self.segment_for_spec(k1),
                #[trigger] self.segment_for_spec(k2),
            ) {
                (Some(s1), Some(s2)) => !segments_overlap(s1, s2),
                _ => true,
            } by {
                assert(table_covers(v@, k1));
                assert(table_covers(v@, k2));
                let i1 = choose|i1: int| 0 <= i1 < v@.len() && v@[i1].0 == k1;
                let i2 = choose|i2: int| 0 <= i2 < v@.len() && v@[i2].0 == k2;
                assert(v@[i1].1 == self.segment_for_spec(k1));
                assert(v@[i2].1 == self.segment_for_spec(k2));
                if i1 < i2 {
                    assert(match (v@[i1].1, v@[i2].1) {
                        (Some(s1), Some(s2)) => !segments_overlap(s1, s2),
                        _ => true,
                    });
                } else if i2 < i1 {
                    assert(match (v@[i2].1, v@[i1].1) {
                        (Some(s1), Some(s2)) => !segments_overlap(s1, s2),
                        _ => true,
                    });
                }
            }
        }
        Ok(())
    }
}

/// Law: in a validated table the address ranges of two different present
/// builtins never intersect — an address inside one segment is outside the
/// other.
pub proof fn lemma_disjoint_segments(
    b: BuiltinSegments,
    k1: BuiltinKind,
    k2: BuiltinKind,
    s1: BuiltinSegment,
    s2: BuiltinSegment,
    a: u32,
)
    requires
        b.wf(),
        k1 != k2,
        b.segment_for_spec(k1) == Some(s1),
        b.segment_for_spec(k2) == Some(s2),
        s1.contains_addr(a),
    ensures
        !s2.contains_addr(a),
{
    assert(!segments_overlap(s1, s2));
}

} // verus!
