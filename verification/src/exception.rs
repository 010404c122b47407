//! The closed set of fault kinds that the core can raise.

use vstd::prelude::*;

verus! {

/// Exceptions surfaced by the memory system and the interpreter.
///
/// `LoadAccessFault` and `StoreAccessFault` mark accesses outside the bus map
/// (or a store into read-only memory); `LoadAddressMisaligned` is raised only
/// by the atomic instructions; `IllegalInstruction` carries the rejected word
/// for diagnostics; `EnvironmentCall` and `Breakpoint` report a retired
/// `ECALL` / `EBREAK`.
#[derive(Clone, Copy, Debug, PartialEq, Eq, Structural)]
pub enum RVException {
    StoreAccessFault,
    LoadAccessFault,
    LoadAddressMisaligned,
    IllegalInstruction(u32),
    EnvironmentCall,
    Breakpoint,
}

impl RVException {
    /// Whether the driver may treat the exception as benign: the guest asked
    /// for attention rather than hitting a fault.
    pub fn is_recoverable(&self) -> (r: bool)
        ensures
            r == (self is EnvironmentCall || self is Breakpoint),
    {
        match self {
            RVException::EnvironmentCall => true,
            RVException::Breakpoint => true,
            _ => false,
        }
    }
}

} // verus!
