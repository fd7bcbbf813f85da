use vstd::prelude::*;

use crate::cfi::Register;
use crate::error::RegisterMappingError;

verus! {

/// DWARF numbers of the x86-64 registers.
pub const X86_64_RAX: Register = 0;
pub const X86_64_RDX: Register = 1;
pub const X86_64_RCX: Register = 2;
pub const X86_64_RBX: Register = 3;
pub const X86_64_RSI: Register = 4;
pub const X86_64_RDI: Register = 5;
pub const X86_64_RBP: Register = 6;
pub const X86_64_RSP: Register = 7;
pub const X86_64_RA: Register = 16;

/// The architecture name for which register mapping is implemented.
pub open spec fn supported_architecture(arch: Seq<char>) -> bool {
    arch == "x86"@
}

/// The DWARF number of the x86-64 register that the code generator displays
/// as `name`, if it has one.
pub open spec fn x86_64_dwarf_register(name: Seq<char>) -> Option<Register> {
    if name == "%rax"@ {
        Some(X86_64_RAX)
    } else if name == "%rdx"@ {
        Some(X86_64_RDX)
    } else if name == "%rcx"@ {
        Some(X86_64_RCX)
    } else if name == "%rbx"@ {
        Some(X86_64_RBX)
    } else if name == "%rsi"@ {
        Some(X86_64_RSI)
    } else if name == "%rdi"@ {
        Some(X86_64_RDI)
    } else if name == "%rbp"@ {
        Some(X86_64_RBP)
    } else if name == "%rsp"@ {
        Some(X86_64_RSP)
    } else if name == "%r16"@ {
        Some(X86_64_RA)
    } else {
        None
    }
}

fn names_equal(name: &String, lit: &str) -> (r: bool)
    ensures
        r == (name@ == lit@),
{
    let lit: String = lit.to_owned();
    *name == lit
}

/// Looks up the DWARF number of the x86-64 register displayed as `name`.
pub fn dwarf_register(name: &String) -> (r: Option<Register>)
    ensures
        r == x86_64_dwarf_register(name@),
{
    if names_equal(name, "%rax") {
        Some(X86_64_RAX)
    } else if names_equal(name, "%rdx") {
        Some(X86_64_RDX)
    } else if names_equal(name, "%rcx") {
        Some(X86_64_RCX)
    } else if names_equal(name, "%rbx") {
        Some(X86_64_RBX)
    } else if names_equal(name, "%rsi") {
        Some(X86_64_RSI)
    } else if names_equal(name, "%rdi") {
        Some(X86_64_RDI)
    } else if names_equal(name, "%rbp") {
        Some(X86_64_RBP)
    } else if names_equal(name, "%rsp") {
        Some(X86_64_RSP)
    } else if names_equal(name, "%r16") {
        Some(X86_64_RA)
    } else {
        None
    }
}

/// The DWARF numbers of an architecture's register units, computed once
/// before any lookup and read-only afterwards, so that concurrent lookups
/// share it safely.
#[derive(Debug, Clone)]
pub struct RegisterMap {
    /// The display name of each register unit, indexed by unit.
    pub names: Vec<String>,
    /// The DWARF number of each register unit, where it has one.
    pub numbers: Vec<Option<Register>>,
}

impl RegisterMap {
    /// Each unit's number is the one its name gives.
    pub open spec fn wf(&self) -> bool {
        &&& self.names@.len() == self.numbers@.len()
        &&& forall|u: int|
            0 <= u < self.names@.len() ==> #[trigger] self.numbers@[u] == x86_64_dwarf_register(
                self.names@[u]@,
            )
    }

    /// What looking up register unit `unit` gives.
    pub open spec fn lookup(&self, unit: u16) -> Result<Register, RegisterMappingError> {
        if unit >= self.names@.len() {
            Err(RegisterMappingError::MissingBank)
        } else {
            match self.numbers@[unit as int] {
                Some(r) => Ok(r),
                None => Err(RegisterMappingError::UnsupportedRegisterBank(self.names@[unit as int])),
            }
        }
    }

    /// Builds the map of architecture `arch` whose register unit `u` is
    /// displayed as `names[u]`. Only x86 is supported.
    pub fn new(arch: &str, names: Vec<String>) -> (r: Result<RegisterMap, RegisterMappingError>)
        ensures
            r is Err <==> !supported_architecture(arch@),
            r is Err ==> r == Err::<RegisterMap, RegisterMappingError>(
                RegisterMappingError::UnsupportedArchitecture,
            ),
            r is Ok ==> r->Ok_0.wf() && r->Ok_0.names@ == names@,
    {
        let arch_name: String = arch.to_owned();
        if !names_equal(&arch_name, "x86") {
            return Err(RegisterMappingError::UnsupportedArchitecture);
        }
        let mut numbers: Vec<Option<Register>> = Vec::new();
        let mut u: usize = 0;
        while u < names.len()
            invariant
                u <= names@.len(),
                numbers@.len() == u,
                forall|j: int|
                    0 <= j < u ==> #[trigger] numbers@[j] == x86_64_dwarf_register(names@[j]@),
            decreases names@.len() - u,
        {
            numbers.push(dwarf_register(&names[u]));
            u = u + 1;
        }
        Ok(RegisterMap { names, numbers })
    }

    /// The DWARF number of register unit `unit`.
    pub fn map_reg(&self, unit: u16) -> (r: Result<Register, RegisterMappingError>)
        requires
            self.wf(),
        ensures
            r == self.lookup(unit),
    {
        if unit as usize >= self.names.len() {
            return Err(RegisterMappingError::MissingBank);
        }
        match self.numbers[unit as usize] {
            Some(r) => Ok(r),
            None => Err(RegisterMappingError::UnsupportedRegisterBank(self.names[unit as usize].clone())),
        }
    }
}

} // verus!
