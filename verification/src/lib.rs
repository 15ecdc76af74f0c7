//! Canonical in-memory representation of a Cairo virtual-machine execution
//! trace, byte-precise enough to be handed to a proving backend and later
//! verified as a validity proof.
//!
//! The crate models the trace itself: the tagged codec that classifies each
//! memory cell ([`codec`]), the full memory trace of a run ([`memory`]), the
//! ordered chain of register snapshots partitioned by opcode
//! ([`transitions`]), the optional builtin memory segments ([`builtins`]),
//! and the validated aggregate handed to the backend ([`input`]). Everything
//! downstream of a well-formed, assembled input — constraint systems,
//! commitments, the prove and verify calls themselves — lives in the external
//! proving backend and is out of this crate's scope.

pub mod builtins;
pub mod codec;
pub mod input;
pub mod memory;
pub mod state;
pub mod transitions;

pub use builtins::BuiltinSegments;
pub use codec::encode;
pub use codec::CodecError;
pub use codec::EncodedMemoryValueId;
pub use codec::MemoryValueId;
pub use input::assemble;
pub use input::ProverInput;
pub use input::ValidationError;
pub use memory::Memory;
pub use memory::MemoryConfig;
pub use state::CasmState;
pub use state::M31;
pub use transitions::StateTransitions;
