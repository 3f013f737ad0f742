//! Exporters that render a gate list in the textual circuit formats
//! consumed by downstream tools.

use crate::{Operation, WireValue};
use vstd::prelude::*;

pub mod bristol;
pub mod jsonl;
pub mod sieve;
pub mod sievephase2;

verus! {

/// Why an export stopped.
#[derive(Clone, Copy, Debug, PartialEq, Eq, Structural)]
pub enum ExportError {
    /// A gate in the list cannot be represented by the target format
    /// (`Random` gates are not representable in static-circuit formats).
    UnsupportedGate,
    /// The witness ran out before every `Input` gate was given a value.
    WitnessTooShort,
}

/// A fixed-width private input: each entry gives one value of `L` bits.
pub struct Witness<const L: usize> {
    /// The witness values, one `L`-bit entry per trace step.
    pub witness: Vec<[bool; L]>,
}

impl<const L: usize> Witness<L> {
    /// The witness bits, entry by entry.
    pub open spec fn bits(self) -> Seq<Seq<bool>> {
        self.witness@.map(|i: int, a: [bool; L]| a@)
    }
}

/// The core export trait.
///
/// Individual exporters (such as for Bristol-fashion circuits) are expected
/// to implement this trait.  Each rendering function returns the text it
/// produces; writing it anywhere is the caller's business.
pub trait Export<T: WireValue> {
    /// The line (or lines) a single gate renders to, if the format can
    /// represent it.
    spec fn spec_gate(gate: Operation<T>) -> Result<Seq<char>, ExportError>;

    /// The full text a gate list renders to against a witness, if the
    /// format can represent every gate and the witness suffices.
    spec fn spec_circuit(gates: Seq<Operation<T>>, witness: Seq<T>) -> Result<
        Seq<char>,
        ExportError,
    >;

    /// Render a single gate.
    fn export_gate(gate: &Operation<T>) -> (r: Result<String, ExportError>)
        ensures
            match Self::spec_gate(*gate) {
                Ok(s) => r matches Ok(v) && v@ == s,
                Err(e) => r == Err::<String, ExportError>(e),
            },
    ;

    /// Render a whole circuit.
    fn export_circuit(gates: &[Operation<T>], witness: &[T]) -> (r: Result<String, ExportError>)
        ensures
            match Self::spec_circuit(gates@, witness@) {
                Ok(s) => r matches Ok(v) && v@ == s,
                Err(e) => r == Err::<String, ExportError>(e),
            },
    ;
}

} // verus!
