//! The netlist model: wires addressed by index and carrying a string label,
//! gates reading and producing wires, and the declared primary inputs and
//! outputs. A circuit is built once, validated once, and immutable afterwards.
use vstd::prelude::*;

use crate::gates::{Gate, GateKind};
use crate::scheduler;
use crate::values::arity;

verus! {

/// A structural fault found while validating a circuit.
#[derive(Clone, Copy, Debug, PartialEq, Eq, Structural)]
pub enum CircuitError {
    /// A gate's input count does not match its operation's arity.
    BadArity,
    /// A gate or declaration names a wire index outside the wire table.
    BadWireIndex,
    /// Two gates drive the same wire, or a gate drives a primary input.
    DuplicateProducer,
    /// A gate reads a wire that no primary input and no gate supplies.
    UndeclaredWire,
    /// The combinational subgraph (ignoring registered edges) has a cycle.
    CombinationalCycle,
}

/// A netlist: the wire name table, the gates, and the declared primary
/// input and output wire indices.
#[derive(Clone, Debug)]
pub struct Circuit {
    pub wire_names: Vec<String>,
    pub gates: Vec<Gate>,
    pub primary_inputs: Vec<usize>,
    pub primary_outputs: Vec<usize>,
}

impl Circuit {
    /// Number of wires.
    pub open spec fn nw(self) -> int {
        self.wire_names@.len() as int
    }

    /// Number of gates.
    pub open spec fn ng(self) -> int {
        self.gates@.len() as int
    }

    /// Wire `w` is registered: it is the output of a flip-flop gate, so its
    /// value persists across a cycle boundary.
    pub open spec fn is_reg_wire(self, w: int) -> bool {
        exists|g: int|
            0 <= g < self.ng() && (#[trigger] self.gates@[g].kind) is Dff
                && self.gates@[g].output == w
    }

    /// Wire `w` is a declared primary input.
    pub open spec fn is_primary_input(self, w: int) -> bool {
        exists|i: int| 0 <= i < self.primary_inputs@.len() && #[trigger] self.primary_inputs@[i] == w
    }

    /// Gate `g` drives wire `w`.
    pub open spec fn produces(self, g: int, w: int) -> bool {
        0 <= g < self.ng() && self.gates@[g].output == w
    }

    /// Every gate has the input count its operation demands.
    pub open spec fn arity_ok(self) -> bool {
        forall|g: int|
            0 <= g < self.ng() ==> (#[trigger] self.gates@[g].inputs)@.len() == arity(
                self.gates@[g].kind,
            )
    }

    /// Gate `g` only mentions wire indices inside the wire table.
    pub open spec fn gate_indices_ok(self, g: int) -> bool {
        &&& (self.gates@[g].output as int) < self.nw()
        &&& forall|i: int|
            0 <= i < self.gates@[g].inputs@.len() ==> (#[trigger] self.gates@[g].inputs@[i])
                < self.nw()
    }

    /// Every wire index mentioned anywhere lies inside the wire table.
    pub open spec fn indices_ok(self) -> bool {
        &&& forall|g: int| 0 <= g < self.ng() ==> #[trigger] self.gate_indices_ok(g)
        &&& forall|i: int|
            0 <= i < self.primary_inputs@.len() ==> (#[trigger] self.primary_inputs@[i])
                < self.nw()
        &&& forall|i: int|
            0 <= i < self.primary_outputs@.len() ==> (#[trigger] self.primary_outputs@[i])
                < self.nw()
    }

    /// No wire is driven twice, and no gate drives a declared primary input.
    pub open spec fn producers_ok(self) -> bool {
        &&& forall|a: int, b: int|
            0 <= a < self.ng() && 0 <= b < self.ng() && a != b ==> (
            #[trigger] self.gates@[a].output) != (#[trigger] self.gates@[b].output)
        &&& forall|g: int|
            0 <= g < self.ng() ==> !self.is_primary_input((#[trigger] self.gates@[g].output) as int)
    }

    /// Every wire a gate reads is a primary input or some gate's output.
    pub open spec fn inputs_declared(self) -> bool {
        forall|g: int, i: int|
            0 <= g < self.ng() && 0 <= i < self.gates@[g].inputs@.len() ==> self.is_primary_input(
                (#[trigger] self.gates@[g].inputs@[i]) as int,
            ) || exists|h: int| self.produces(h, self.gates@[g].inputs@[i] as int)
    }

    /// All structural conditions except acyclicity.
    pub open spec fn structure_ok(self) -> bool {
        self.arity_ok() && self.indices_ok() && self.producers_ok() && self.inputs_declared()
    }

    /// A valid circuit: structurally sound, and its combinational subgraph
    /// (ignoring registered feedback edges) is acyclic.
    pub open spec fn is_valid(self) -> bool {
        self.structure_ok() && scheduler::comb_acyclic(self)
    }

    /// The exact fault `validate` reports, checked in a fixed order.
    pub open spec fn spec_validate(self) -> Result<(), CircuitError> {
        if !self.arity_ok() {
            Err(CircuitError::BadArity)
        } else if !self.indices_ok() {
            Err(CircuitError::BadWireIndex)
        } else if !self.producers_ok() {
            Err(CircuitError::DuplicateProducer)
        } else if !self.inputs_declared() {
            Err(CircuitError::UndeclaredWire)
        } else if !scheduler::comb_acyclic(self) {
            Err(CircuitError::CombinationalCycle)
        } else {
            Ok(())
        }
    }

    /// True when wire `w` is the output of a flip-flop gate.
    #[verifier::loop_isolation(false)]
    pub fn is_registered(&self, w: usize) -> (r: bool)
        ensures
            r == self.is_reg_wire(w as int),
    {
        let mut g: usize = 0;
        while g < self.gates.len()
            invariant
                0 <= g <= self.gates.len(),
                forall|t: int|
                    0 <= t < g ==> !((#[trigger] self.gates@[t].kind) is Dff
                        && self.gates@[t].output == w),
            decreases self.gates.len() - g,
        {
            if self.gates[g].kind.is_dff() && self.gates[g].output == w {
                return true;
            }
            g += 1;
        }
        false
    }

    /// True when wire `w` is a declared primary input.
    #[verifier::loop_isolation(false)]
    pub fn is_input(&self, w: usize) -> (r: bool)
        ensures
            r == self.is_primary_input(w as int),
    {
        let mut i: usize = 0;
        while i < self.primary_inputs.len()
            invariant
                0 <= i <= self.primary_inputs.len(),
                forall|t: int| 0 <= t < i ==> (#[trigger] self.primary_inputs@[t]) != w,
            decreases self.primary_inputs.len() - i,
        {
            if self.primary_inputs[i] == w {
                return true;
            }
            i += 1;
        }
        false
    }

    /// True when some gate drives wire `w`.
    #[verifier::loop_isolation(false)]
    pub fn has_producer(&self, w: usize) -> (r: bool)
        ensures
            r == exists|h: int| self.produces(h, w as int),
    {
        let mut g: usize = 0;
        while g < self.gates.len()
            invariant
                0 <= g <= self.gates.len(),
                forall|t: int| 0 <= t < g ==> (#[trigger] self.gates@[t].output) != w,
            decreases self.gates.len() - g,
        {
            if self.gates[g].output == w {
                assert(self.produces(g as int, w as int));
                return true;
            }
            g += 1;
        }
        assert(forall|h: int| !self.produces(h, w as int));
        false
    }

    /// Validates the circuit once, before any evaluation: arities, wire
    /// indices, unique producers, declared inputs, and (via levelization)
    /// acyclicity of the combinational subgraph. The exact fault reported
    /// for each kind of violation is `spec_validate`.
    #[verifier::loop_isolation(false)]
    pub fn validate(&self) -> (r: Result<(), CircuitError>)
        ensures
            r == self.spec_validate(),
            r is Ok <==> self.is_valid(),
    {
        let n = self.gates.len();
        let nw = self.wire_names.len();
        // arity
        let mut g: usize = 0;
        while g < n
            invariant
                n == self.gates@.len(),
                forall|t: int|
                    0 <= t < g ==> (#[trigger] self.gates@[t].inputs)@.len() == arity(
                        self.gates@[t].kind,
                    ),
            decreases n - g,
        {
            let want: usize = match self.gates[g].kind {
                GateKind::Not | GateKind::Buffer | GateKind::Dff => 1,
                _ => 2,
            };
            if self.gates[g].inputs.len() != want {
                assert(!self.arity_ok());
                return Err(CircuitError::BadArity);
            }
            g += 1;
        }
        assert(self.arity_ok());
        // wire indices
        let mut g: usize = 0;
        while g < n
            invariant
                n == self.gates@.len(),
                nw == self.nw(),
                forall|t: int| 0 <= t < g ==> #[trigger] self.gate_indices_ok(t),
            decreases n - g,
        {
            if self.gates[g].output >= nw {
                assert(!self.gate_indices_ok(g as int));
                assert(!self.indices_ok());
                return Err(CircuitError::BadWireIndex);
            }
            let m = self.gates[g].inputs.len();
            let mut i: usize = 0;
            while i < m
                invariant
                    n == self.gates@.len(),
                    nw == self.nw(),
                    g < n,
                    m == self.gates@[g as int].inputs@.len(),
                    forall|t: int|
                        0 <= t < i ==> (#[trigger] self.gates@[g as int].inputs@[t]) < nw,
                decreases m - i,
            {
                if self.gates[g].inputs[i] >= nw {
                    assert(!self.gate_indices_ok(g as int));
                    assert(!self.indices_ok());
                    return Err(CircuitError::BadWireIndex);
                }
                i += 1;
            }
            assert(self.gate_indices_ok(g as int));
            g += 1;
        }
        let mut i: usize = 0;
        while i < self.primary_inputs.len()
            invariant
                nw == self.nw(),
                forall|t: int| 0 <= t < i ==> (#[trigger] self.primary_inputs@[t]) < nw,
            decreases self.primary_inputs.len() - i,
        {
            if self.primary_inputs[i] >= nw {
                assert(!self.indices_ok());
                return Err(CircuitError::BadWireIndex);
            }
            i += 1;
        }
        let mut i: usize = 0;
        while i < self.primary_outputs.len()
            invariant
                nw == self.nw(),
                forall|t: int| 0 <= t < i ==> (#[trigger] self.primary_outputs@[t]) < nw,
            decreases self.primary_outputs.len() - i,
        {
            if self.primary_outputs[i] >= nw {
                assert(!self.indices_ok());
                return Err(CircuitError::BadWireIndex);
            }
            i += 1;
        }
        assert(self.indices_ok());
        // unique producers, and no gate drives a primary input
        let mut a: usize = 0;
        while a < n
            invariant
                n == self.gates@.len(),
                forall|s: int, t: int|
                    0 <= s < a && 0 <= t < n && s != t ==> (#[trigger] self.gates@[s].output) != (
                    #[trigger] self.gates@[t].output),
                forall|s: int|
                    0 <= s < a ==> !self.is_primary_input(
                        (#[trigger] self.gates@[s].output) as int,
                    ),
            decreases n - a,
        {
            let mut b: usize = 0;
            while b < n
                invariant
                    n == self.gates@.len(),
                    a < n,
                    forall|t: int|
                        0 <= t < b && t != a ==> (#[trigger] self.gates@[t].output)
                            != self.gates@[a as int].output,
                decreases n - b,
            {
                if b != a && self.gates[b].output == self.gates[a].output {
                    assert(!self.producers_ok());
                    return Err(CircuitError::DuplicateProducer);
                }
                b += 1;
            }
            if self.is_input(self.gates[a].output) {
                assert(!self.producers_ok());
                return Err(CircuitError::DuplicateProducer);
            }
            a += 1;
        }
        assert(self.producers_ok());
        // every read wire is declared
        let mut g: usize = 0;
        while g < n
            invariant
                n == self.gates@.len(),
                forall|t: int, i: int|
                    0 <= t < g && 0 <= i < self.gates@[t].inputs@.len() ==> self.is_primary_input(
                        (#[trigger] self.gates@[t].inputs@[i]) as int,
                    ) || exists|h: int| self.produces(h, self.gates@[t].inputs@[i] as int),
            decreases n - g,
        {
            let m = self.gates[g].inputs.len();
            let mut i: usize = 0;
            while i < m
                invariant
                    n == self.gates@.len(),
                    g < n,
                    m == self.gates@[g as int].inputs@.len(),
                    forall|t: int|
                        0 <= t < i ==> self.is_primary_input(
                            (#[trigger] self.gates@[g as int].inputs@[t]) as int,
                        ) || exists|h: int| self.produces(h, self.gates@[g as int].inputs@[t] as int),
                decreases m - i,
            {
                let w = self.gates[g].inputs[i];
                if !self.is_input(w) && !self.has_producer(w) {
                    assert(!self.inputs_declared());
                    return Err(CircuitError::UndeclaredWire);
                }
                i += 1;
            }
            g += 1;
        }
        assert(self.inputs_declared());
        // acyclicity of the combinational subgraph, via levelization
        match scheduler::levelize(self) {
            Ok(_) => Ok(()),
            Err(_) => Err(CircuitError::CombinationalCycle),
        }
    }
}

} // verus!
