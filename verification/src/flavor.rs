//! Output formats and the selectors that name them to the native linker.

use vstd::prelude::*;

verus! {

/// The object format that the linker is asked to emit.
#[derive(Debug, Clone, Copy, PartialEq, Eq, Structural)]
pub enum LldFlavor {
    Elf,
    Wasm,
    MachO,
    Coff,
}

impl LldFlavor {
    /// The selector under which the native entry point knows this format.
    pub open spec fn spec_code(self) -> int {
        match self {
            LldFlavor::Elf => 0,
            LldFlavor::Wasm => 1,
            LldFlavor::MachO => 2,
            LldFlavor::Coff => 3,
        }
    }

    /// The selector to hand to the native entry point for this format.
    pub fn code(&self) -> (c: i32)
        ensures
            c == self.spec_code(),
    {
        match self {
            LldFlavor::Elf => 0,
            LldFlavor::Wasm => 1,
            LldFlavor::MachO => 2,
            LldFlavor::Coff => 3,
        }
    }
}

/// Two formats share a selector only if they are the same format, so the
/// native side can always tell which one was meant.
pub proof fn lemma_code_injective(a: LldFlavor, b: LldFlavor)
    ensures
        a.spec_code() == b.spec_code() <==> a == b,
{
}

} // verus!
