//! What is to be done with a finished module before it is written out.

use vstd::prelude::*;

verus! {

/// A module, and the steps it is to go through: pre-initialization, which
/// runs the module's start-up once and freezes the state it leaves behind,
/// and size optimization.
pub struct Optimizer<'a> {
    wizen: bool,
    optimize: bool,
    wasm: &'a [u8],
}

impl<'a> Optimizer<'a> {
    /// Whether the module is to be pre-initialized.
    pub closed spec fn wizens(&self) -> bool {
        self.wizen
    }

    /// Whether the module is to be optimized.
    pub closed spec fn optimizes(&self) -> bool {
        self.optimize
    }

    /// The bytes of the module.
    pub closed spec fn bytes(&self) -> Seq<u8> {
        self.wasm@
    }

    /// A module that goes through neither step.
    pub fn new(wasm: &'a [u8]) -> (o: Self)
        ensures
            o.bytes() == wasm@,
            !o.wizens(),
            !o.optimizes(),
    {
        Self { wasm, optimize: false, wizen: false }
    }

    /// The same, optimized or not as `optimize` says.
    pub fn optimize(self, optimize: bool) -> (o: Self)
        ensures
            o.optimizes() == optimize,
            o.wizens() == self.wizens(),
            o.bytes() == self.bytes(),
    {
        Self { optimize, ..self }
    }

    /// The same, pre-initialized or not as `wizen` says.
    pub fn wizen(self, wizen: bool) -> (o: Self)
        ensures
            o.wizens() == wizen,
            o.optimizes() == self.optimizes(),
            o.bytes() == self.bytes(),
    {
        Self { wizen, ..self }
    }

    /// Whether the module is to be pre-initialized.
    pub fn is_wizened(&self) -> (b: bool)
        ensures
            b == self.wizens(),
    {
        self.wizen
    }

    /// Whether the module is to be optimized.
    pub fn is_optimized(&self) -> (b: bool)
        ensures
            b == self.optimizes(),
    {
        self.optimize
    }

    /// The bytes of the module.
    pub fn wasm(&self) -> (w: &'a [u8])
        ensures
            w@ == self.bytes(),
    {
        self.wasm
    }
}

} // verus!
