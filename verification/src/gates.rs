//! Gates of a netlist: an operation kind, an ordered list of input wire
//! indices, and one output wire index.
use vstd::prelude::*;

verus! {

/// The operation a gate performs. The logic kinds work on boolean wires, the
/// arithmetic kinds (`Add`, `Sub`, `Mult`) on unsigned integers of the run's
/// width, wrapping there. `Dff` is the sequential storage element: what it
/// reads in one cycle becomes its output wire's value in the next cycle.
#[derive(Clone, Copy, Debug, PartialEq, Eq, Structural)]
pub enum GateKind {
    And,
    Or,
    Not,
    Xor,
    Nand,
    Nor,
    Xnor,
    Buffer,
    Dff,
    Add,
    Sub,
    Mult,
}

/// One operation node of the netlist. Wires are addressed by index into the
/// circuit's wire table.
#[derive(Clone, Debug)]
pub struct Gate {
    pub kind: GateKind,
    pub inputs: Vec<usize>,
    pub output: usize,
}

impl GateKind {
    /// True for the sequential (registered) gate kind.
    pub fn is_dff(&self) -> (r: bool)
        ensures
            r == (*self is Dff),
    {
        match self {
            GateKind::Dff => true,
            _ => false,
        }
    }
}

impl Gate {
    /// True when this gate reads wire `w`.
    #[verifier::loop_isolation(false)]
    pub fn reads(&self, w: usize) -> (r: bool)
        ensures
            r == self.inputs@.contains(w),
    {
        let mut i: usize = 0;
        while i < self.inputs.len()
            invariant
                0 <= i <= self.inputs.len(),
                forall|j: int| 0 <= j < i ==> self.inputs@[j] != w,
            decreases self.inputs.len() - i,
        {
            if self.inputs[i] == w {
                assert(self.inputs@.contains(w));
                return true;
            }
            i += 1;
        }
        assert(!self.inputs@.contains(w));
        false
    }
}

} // verus!
