use vstd::prelude::*;

verus! {

/// Why an internal register could not be given its DWARF number.
#[derive(Debug, Clone, PartialEq, Eq)]
pub enum RegisterMappingError {
    /// No register information exists for the register unit.
    MissingBank,
    /// Register mapping is only implemented for x86-64.
    UnsupportedArchitecture,
    /// The register, named here, has no DWARF number on the architecture.
    UnsupportedRegisterBank(String),
}

/// Why call frame information could not be produced.
#[derive(Debug, Clone, PartialEq, Eq)]
pub enum FrameError {
    /// A register of a frame layout command could not be mapped.
    Register(RegisterMappingError),
    /// A saved register's CFA offset is not a multiple of the data alignment factor.
    MisalignedRegisterOffset,
    /// A CFA definition with a negative offset.
    NegativeCfaOffset,
    /// An advance of 64 code units or more, which the one-byte form cannot hold.
    AdvanceTooLarge,
    /// An entry whose length does not fit its 32-bit length field.
    EntryTooLarge,
    /// A function whose calling convention does not use the System V prologue.
    UnsupportedCallingConvention,
}

} // verus!
