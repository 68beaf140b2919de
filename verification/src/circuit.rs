//! The constraint-system model: wire allocation, gate registration,
//! satisfaction semantics, and the witness table of the assignment phase.
//!
//! A circuit is a number of wires together with a list of gates.  Every
//! gate except [`Gate::Connect`] *defines* one output wire from wires
//! allocated before it; a satisfying witness is a full assignment of
//! canonical field elements to all wires under which every gate's
//! equation holds.  [`Gate::EqHint`] registers no equation at all: it
//! only tells witness generation how to fill a wire whose value the
//! prover is otherwise free to choose.

use vstd::prelude::*;
use crate::field::{
    in_field, fadd, fsub, fmul, field_add, field_sub, field_mul, FIELD_ORDER,
};

verus! {

/// A symbolic handle to one value slot of the circuit.
pub type Wire = usize;

/// Typed failures of the assignment phase and of gadget construction.
#[derive(Clone, Copy, Debug, PartialEq, Eq, Structural)]
pub enum GadgetError {
    /// A wire handle does not belong to the witness table.
    WireOutOfRange,
    /// A value is not a canonical field element.
    NotAFieldElement,
    /// The wire already carries a value; assignment is not retriable.
    AlreadyAssigned,
    /// The constraint system cannot allocate further wires.
    CapacityExhausted,
    /// The concrete public key is malformed.
    InvalidPublicKey,
    /// The concrete signature is malformed.
    InvalidSignature,
    /// The concrete selector is not a field element.
    InvalidSelector,
}

/// One registered gate of the constraint system.
#[derive(Clone, Copy, Debug, PartialEq, Eq, Structural)]
pub enum Gate {
    /// `w[out] = value`
    Constant { out: Wire, value: u64 },
    /// `w[out] = w[a] - w[b]`
    Sub { a: Wire, b: Wire, out: Wire },
    /// `w[out] = w[a] * w[b]`
    Mul { a: Wire, b: Wire, out: Wire },
    /// `w[out] = w[a] * w[b] + w[c]`
    MulAdd { a: Wire, b: Wire, c: Wire, out: Wire },
    /// `w[a] = w[b]`
    Connect { a: Wire, b: Wire },
    /// No equation.  During witness generation `w[out]` is filled with
    /// `1` if `w[a] == w[b]` and `0` otherwise.
    EqHint { a: Wire, b: Wire, out: Wire },
}

/// Whether `g` defines an output wire.
pub open spec fn is_defining(g: Gate) -> bool {
    match g {
        Gate::Connect { .. } => false,
        _ => true,
    }
}

/// The output wire of a defining gate.
pub open spec fn out_of(g: Gate) -> Wire {
    match g {
        Gate::Constant { out, .. } => out,
        Gate::Sub { out, .. } => out,
        Gate::Mul { out, .. } => out,
        Gate::MulAdd { out, .. } => out,
        Gate::EqHint { out, .. } => out,
        Gate::Connect { .. } => 0,
    }
}

/// Whether gate `g` defines wire `w`.
pub open spec fn defines(g: Gate, w: Wire) -> bool {
    is_defining(g) && out_of(g) == w
}

/// Whether some gate of the list defines wire `w`.
pub open spec fn wire_defined(gates: Seq<Gate>, w: Wire) -> bool {
    exists|k: int| 0 <= k < gates.len() && defines(#[trigger] gates[k], w)
}

/// Well-formedness of one gate in a circuit of `n` wires: all handles
/// are allocated, a defining gate reads only wires allocated before its
/// output, and constants are canonical.
pub open spec fn gate_wf(g: Gate, n: nat) -> bool {
    match g {
        Gate::Constant { out, value } => out < n && in_field(value),
        Gate::Sub { a, b, out } => a < out && b < out && out < n,
        Gate::Mul { a, b, out } => a < out && b < out && out < n,
        Gate::MulAdd { a, b, c, out } => a < out && b < out && c < out && out < n,
        Gate::Connect { a, b } => a < n && b < n,
        Gate::EqHint { a, b, out } => a < out && b < out && out < n,
    }
}

/// The equation a gate imposes on a full witness.
pub open spec fn gate_holds(w: Seq<u64>, g: Gate) -> bool {
    match g {
        Gate::Constant { out, value } => w[out as int] == value,
        Gate::Sub { a, b, out } => w[out as int] as int == fsub(w[a as int], w[b as int]),
        Gate::Mul { a, b, out } => w[out as int] as int == fmul(w[a as int], w[b as int]),
        Gate::MulAdd { a, b, c, out } => (
            w[out as int] as int == fadd(fmul(w[a as int], w[b as int]) as u64, w[c as int])
        ),
        Gate::Connect { a, b } => w[a as int] == w[b as int],
        Gate::EqHint { .. } => true,
    }
}

/// What witness generation records for the output of a defining gate
/// `g`: as soon as the table holds values for every wire `g` reads, it
/// also holds the value `g` derives for its output wire.
pub open spec fn gate_generated(vals: Seq<Option<u64>>, g: Gate) -> bool {
    match g {
        Gate::Constant { out, value } => vals[out as int] == Some(value),
        Gate::Sub { a, b, out } => (vals[a as int] is Some && vals[b as int] is Some) ==> (
            vals[out as int] is Some && vals[out as int].unwrap() as int == fsub(
                vals[a as int].unwrap(),
                vals[b as int].unwrap(),
            )
        ),
        Gate::Mul { a, b, out } => (vals[a as int] is Some && vals[b as int] is Some) ==> (
            vals[out as int] is Some && vals[out as int].unwrap() as int == fmul(
                vals[a as int].unwrap(),
                vals[b as int].unwrap(),
            )
        ),
        Gate::MulAdd { a, b, c, out } => (vals[a as int] is Some && vals[b as int] is Some
            && vals[c as int] is Some) ==> (
            vals[out as int] is Some && vals[out as int].unwrap() as int == fadd(
                fmul(vals[a as int].unwrap(), vals[b as int].unwrap()) as u64,
                vals[c as int].unwrap(),
            )
        ),
        Gate::Connect { .. } => true,
        Gate::EqHint { a, b, out } => (vals[a as int] is Some && vals[b as int] is Some) ==> (
            vals[out as int] is Some && vals[out as int].unwrap() == (
                if vals[a as int].unwrap() == vals[b as int].unwrap() {
                    1u64
                } else {
                    0u64
                }
            )
        ),
    }
}

/// Output wires of defining gates appear in strictly increasing order.
pub open spec fn outs_increasing(gates: Seq<Gate>) -> bool {
    forall|i: int, j: int|
        0 <= i < j < gates.len() && is_defining(#[trigger] gates[i]) && is_defining(
            #[trigger] gates[j],
        ) ==> out_of(gates[i]) < out_of(gates[j])
}

/// A full witness `w` satisfies a circuit of `n` wires and gates
/// `gates` when it assigns a canonical field element to every wire and
/// every gate's equation holds.
pub open spec fn satisfies(w: Seq<u64>, gates: Seq<Gate>, n: nat) -> bool {
    &&& w.len() == n
    &&& forall|i: int| 0 <= i < w.len() ==> in_field(#[trigger] w[i])
    &&& forall|i: int| 0 <= i < gates.len() ==> gate_holds(w, #[trigger] gates[i])
}

/// The constraint-system builder: wires allocated so far and gates
/// registered so far.  Wire allocation order is part of the circuit's
/// identity, so every operation appends deterministically.
pub struct CircuitBuilder {
    pub num_wires: usize,
    pub gates: Vec<Gate>,
}

impl CircuitBuilder {
    /// Invariant of every builder: wires `0` and `1` carry the
    /// constants `0` and `1`, every gate is well formed, and defining
    /// gates appear in allocation order.
    pub open spec fn wf(self) -> bool {
        &&& 2 <= self.num_wires
        &&& 2 <= self.gates@.len()
        &&& self.gates@[0] == (Gate::Constant { out: 0, value: 0 })
        &&& self.gates@[1] == (Gate::Constant { out: 1, value: 1 })
        &&& forall|i: int|
            0 <= i < self.gates@.len() ==> gate_wf(#[trigger] self.gates@[i], self.num_wires as nat)
        &&& outs_increasing(self.gates@)
    }

    /// A fresh constraint system holding only the two constant wires.
    pub fn new() -> (b: Self)
        ensures
            b.wf(),
            b.num_wires == 2,
            b.gates@ =~= seq![
                (Gate::Constant { out: 0, value: 0 }),
                (Gate::Constant { out: 1, value: 1 }),
            ],
    {
        let mut gates: Vec<Gate> = Vec::new();
        gates.push(Gate::Constant { out: 0, value: 0 });
        gates.push(Gate::Constant { out: 1, value: 1 });
        CircuitBuilder { num_wires: 2, gates }
    }

    /// The wire constrained to the constant `0`.
    pub fn zero(&self) -> (w: Wire)
        requires
            self.wf(),
        ensures
            w == 0,
    {
        0
    }

    /// The wire constrained to the constant `1`.
    pub fn one(&self) -> (w: Wire)
        requires
            self.wf(),
        ensures
            w == 1,
    {
        1
    }

    /// Allocates a fresh wire carrying no gate at all; its value is
    /// supplied during the assignment phase.
    pub fn add_virtual_target(&mut self) -> (w: Wire)
        requires
            old(self).wf(),
            old(self).num_wires < usize::MAX,
        ensures
            final(self).wf(),
            w == old(self).num_wires,
            final(self).num_wires == old(self).num_wires + 1,
            final(self).gates@ == old(self).gates@,
    {
        let w = self.num_wires;
        self.num_wires = self.num_wires + 1;
        w
    }

    /// Registers `out = a - b` on a fresh output wire.
    pub fn sub(&mut self, a: Wire, b: Wire) -> (out: Wire)
        requires
            old(self).wf(),
            a < old(self).num_wires,
            b < old(self).num_wires,
            old(self).num_wires < usize::MAX,
        ensures
            final(self).wf(),
            out == old(self).num_wires,
            final(self).num_wires == old(self).num_wires + 1,
            final(self).gates@ == old(self).gates@.push(Gate::Sub { a, b, out }),
    {
        let out = self.num_wires;
        self.num_wires = self.num_wires + 1;
        self.gates.push(Gate::Sub { a, b, out });
        out
    }

    /// Registers `out = a * b` on a fresh output wire.
    pub fn mul(&mut self, a: Wire, b: Wire) -> (out: Wire)
        requires
            old(self).wf(),
            a < old(self).num_wires,
            b < old(self).num_wires,
            old(self).num_wires < usize::MAX,
        ensures
            final(self).wf(),
            out == old(self).num_wires,
            final(self).num_wires == old(self).num_wires + 1,
            final(self).gates@ == old(self).gates@.push(Gate::Mul { a, b, out }),
    {
        let out = self.num_wires;
        self.num_wires = self.num_wires + 1;
        self.gates.push(Gate::Mul { a, b, out });
        out
    }

    /// Registers the fused multiply-add `out = a * b + c` on a fresh
    /// output wire.
    pub fn mul_add(&mut self, a: Wire, b: Wire, c: Wire) -> (out: Wire)
        requires
            old(self).wf(),
            a < old(self).num_wires,
            b < old(self).num_wires,
            c < old(self).num_wires,
            old(self).num_wires < usize::MAX,
        ensures
            final(self).wf(),
            out == old(self).num_wires,
            final(self).num_wires == old(self).num_wires + 1,
            final(self).gates@ == old(self).gates@.push(Gate::MulAdd { a, b, c, out }),
    {
        let out = self.num_wires;
        self.num_wires = self.num_wires + 1;
        self.gates.push(Gate::MulAdd { a, b, c, out });
        out
    }

    /// Registers the equality `a = b`.
    pub fn connect(&mut self, a: Wire, b: Wire)
        requires
            old(self).wf(),
            a < old(self).num_wires,
            b < old(self).num_wires,
        ensures
            final(self).wf(),
            final(self).num_wires == old(self).num_wires,
            final(self).gates@ == old(self).gates@.push(Gate::Connect { a, b }),
    {
        self.gates.push(Gate::Connect { a, b });
    }

    /// Allocates a wire that witness generation fills with `1` if the
    /// two given wires agree and `0` otherwise; no equation is
    /// registered, the prover remains free to choose the value.
    pub fn add_eq_hint(&mut self, a: Wire, b: Wire) -> (out: Wire)
        requires
            old(self).wf(),
            a < old(self).num_wires,
            b < old(self).num_wires,
            old(self).num_wires < usize::MAX,
        ensures
            final(self).wf(),
            out == old(self).num_wires,
            final(self).num_wires == old(self).num_wires + 1,
            final(self).gates@ == old(self).gates@.push(Gate::EqHint { a, b, out }),
    {
        let out = self.num_wires;
        self.num_wires = self.num_wires + 1;
        self.gates.push(Gate::EqHint { a, b, out });
        out
    }

    /// Runs witness generation: walks the gates in registration order
    /// and fills each still-empty output wire from the values of the
    /// wires its gate reads, leaving every already-recorded value
    /// untouched.  When every wire that no gate defines has been
    /// assigned beforehand, the table afterwards records a value for
    /// every wire of the circuit.
    pub fn populate(&self, pw: &mut PartialWitness)
        requires
            self.wf(),
            old(pw).wf(),
            old(pw).values@.len() == self.num_wires,
        ensures
            final(pw).wf(),
            final(pw).values@.len() == self.num_wires,
            forall|i: int|
                0 <= i < self.num_wires && old(pw).values@[i] is Some ==> final(pw).values@[i]
                    == old(pw).values@[i],
            forall|i: int|
                0 <= i < self.num_wires && !wire_defined(self.gates@, i as Wire) ==> final(pw).values@[i] == old(pw).values@[i],
            (forall|i: int|
                0 <= i < self.num_wires && !wire_defined(self.gates@, i as Wire) ==> old(pw).values@[i] is Some) ==> (forall|i: int|
                0 <= i < self.num_wires ==> final(pw).values@[i] is Some),
            forall|k: int|
                0 <= k < self.gates@.len() && is_defining(#[trigger] self.gates@[k]) && old(pw).values@[out_of(self.gates@[k]) as int] is None ==> gate_generated(
                    final(pw).values@,
                    self.gates@[k],
                ),
    {
        let ghost h = forall|i: int|
            0 <= i < self.num_wires && !wire_defined(self.gates@, i as Wire) ==> old(pw).values@[i] is Some;
        let mut j: usize = 0;
        while j < self.gates.len()
            invariant
                self.wf(),
                pw.wf(),
                j <= self.gates@.len(),
                pw.values@.len() == self.num_wires,
                old(pw).values@.len() == self.num_wires,
                h == (forall|i: int|
                    0 <= i < self.num_wires && !wire_defined(self.gates@, i as Wire) ==> old(pw).values@[i] is Some),
                forall|i: int|
                    0 <= i < self.num_wires && old(pw).values@[i] is Some ==> pw.values@[i] == old(pw).values@[i],
                forall|i: int|
                    0 <= i < self.num_wires && !wire_defined(self.gates@, i as Wire)
                        ==> pw.values@[i] == old(pw).values@[i],
                h ==> forall|k: int|
                    0 <= k < j && is_defining(#[trigger] self.gates@[k]) ==> pw.values@[out_of(
                        self.gates@[k],
                    ) as int] is Some,
                forall|k: int|
                    0 <= k < j && is_defining(#[trigger] self.gates@[k]) && old(pw).values@[out_of(self.gates@[k]) as int] is None ==> gate_generated(
                        pw.values@,
                        self.gates@[k],
                    ),
                forall|k: int|
                    j <= k < self.gates@.len() && is_defining(#[trigger] self.gates@[k])
                        ==> pw.values@[out_of(self.gates@[k]) as int] == old(pw).values@[out_of(
                        self.gates@[k],
                    ) as int],
            decreases self.gates@.len() - j,
        {
            let ghost pw_before = pw.values@;
            assert(gate_wf(self.gates@[j as int], self.num_wires as nat));
            proof {
                if h && is_defining(self.gates@[j as int]) {
                    lemma_inputs_available(
                        self.gates@,
                        pw.values@,
                        old(pw).values@,
                        self.num_wires as nat,
                        j as int,
                    );
                }
            }
            let g = self.gates[j];
            match g {
                Gate::Constant { out, value } => {
                    if self.read(pw, out).is_none() {
                        pw.values.set(out, Some(value));
                    }
                },
                Gate::Sub { a, b, out } => {
                    let va = self.read(pw, a);
                    let vb = self.read(pw, b);
                    if va.is_some() && vb.is_some() && self.read(pw, out).is_none() {
                        let v = field_sub(va.unwrap(), vb.unwrap());
                        pw.values.set(out, Some(v));
                    }
                },
                Gate::Mul { a, b, out } => {
                    let va = self.read(pw, a);
                    let vb = self.read(pw, b);
                    if va.is_some() && vb.is_some() && self.read(pw, out).is_none() {
                        let v = field_mul(va.unwrap(), vb.unwrap());
                        pw.values.set(out, Some(v));
                    }
                },
                Gate::MulAdd { a, b, c, out } => {
                    let va = self.read(pw, a);
                    let vb = self.read(pw, b);
                    let vc = self.read(pw, c);
                    if va.is_some() && vb.is_some() && vc.is_some() && self.read(
                        pw,
                        out,
                    ).is_none() {
                        let v = field_add(field_mul(va.unwrap(), vb.unwrap()), vc.unwrap());
                        pw.values.set(out, Some(v));
                    }
                },
                Gate::Connect { .. } => {},
                Gate::EqHint { a, b, out } => {
                    let va = self.read(pw, a);
                    let vb = self.read(pw, b);
                    if va.is_some() && vb.is_some() && self.read(pw, out).is_none() {
                        let v: u64 = if va.unwrap() == vb.unwrap() {
                            1
                        } else {
                            0
                        };
                        pw.values.set(out, Some(v));
                    }
                },
            }
            proof {
                let gj = self.gates@[j as int];
                if is_defining(gj) {
                    assert(defines(gj, out_of(gj)));
                    assert(wire_defined(self.gates@, out_of(gj)));
                }
                assert forall|k: int|
                    j + 1 <= k < self.gates@.len() && is_defining(#[trigger] self.gates@[k])
                    implies pw.values@[out_of(self.gates@[k]) as int] == old(pw).values@[out_of(
                    self.gates@[k],
                ) as int] by {
                    if is_defining(gj) {
                        assert(out_of(gj) < out_of(self.gates@[k]));
                    }
                }
                assert forall|k: int|
                    0 <= k < j + 1 && is_defining(#[trigger] self.gates@[k]) && old(pw).values@[out_of(self.gates@[k]) as int] is None implies gate_generated(
                    pw.values@,
                    self.gates@[k],
                ) by {
                    if k < j {
                        let gk = self.gates@[k];
                        assert(gate_generated(pw_before, gk));
                        assert(gate_wf(gk, self.num_wires as nat));
                        if is_defining(gj) {
                            assert(out_of(gk) < out_of(gj));
                        }
                    }
                }
            }
            j = j + 1;
        }
        proof {
            if h {
                assert forall|i: int| 0 <= i < self.num_wires implies pw.values@[i] is Some by {
                    if wire_defined(self.gates@, i as Wire) {
                        let k = choose|k: int|
                            0 <= k < self.gates@.len() && defines(#[trigger] self.gates@[k], i as Wire);
                        assert(is_defining(self.gates@[k]) && out_of(self.gates@[k]) == i as Wire);
                    }
                }
            }
        }
    }

    /// Reads one wire of a witness table sized for this circuit.
    fn read(&self, pw: &PartialWitness, w: Wire) -> (r: Option<u64>)
        requires
            pw.values@.len() == self.num_wires,
            w < self.num_wires,
        ensures
            r == pw.values@[w as int],
    {
        pw.values[w]
    }

    /// Decides whether a full assignment satisfies the circuit.
    pub fn is_satisfied_by(&self, w: &Vec<u64>) -> (r: bool)
        requires
            self.wf(),
        ensures
            r == satisfies(w@, self.gates@, self.num_wires as nat),
    {
        if w.len() != self.num_wires {
            return false;
        }
        let mut i: usize = 0;
        while i < w.len()
            invariant
                i <= w@.len(),
                forall|k: int| 0 <= k < i ==> in_field(#[trigger] w@[k]),
            decreases w@.len() - i,
        {
            if w[i] >= FIELD_ORDER {
                return false;
            }
            i = i + 1;
        }
        let mut j: usize = 0;
        while j < self.gates.len()
            invariant
                self.wf(),
                j <= self.gates@.len(),
                w@.len() == self.num_wires,
                forall|k: int| 0 <= k < w@.len() ==> in_field(#[trigger] w@[k]),
                forall|k: int| 0 <= k < j ==> gate_holds(w@, #[trigger] self.gates@[k]),
            decreases self.gates@.len() - j,
        {
            assert(gate_wf(self.gates@[j as int], self.num_wires as nat));
            let ok = match self.gates[j] {
                Gate::Constant { out, value } => w[out] == value,
                Gate::Sub { a, b, out } => w[out] == field_sub(w[a], w[b]),
                Gate::Mul { a, b, out } => w[out] == field_mul(w[a], w[b]),
                Gate::MulAdd { a, b, c, out } => (
                    w[out] == field_add(field_mul(w[a], w[b]), w[c])
                ),
                Gate::Connect { a, b } => w[a] == w[b],
                Gate::EqHint { .. } => true,
            };
            if !ok {
                return false;
            }
            j = j + 1;
        }
        true
    }
}

/// A gate registered in a satisfied circuit imposes its equation on
/// the witness.
pub proof fn lemma_contained_gate_holds(w: Seq<u64>, gates: Seq<Gate>, n: nat, g: Gate)
    requires
        satisfies(w, gates, n),
        gates.contains(g),
    ensures
        gate_holds(w, g),
{
    let i = choose|i: int| 0 <= i < gates.len() && gates[i] == g;
    assert(gate_holds(w, gates[i]));
}

/// Containment survives appending further gates.
pub proof fn lemma_contains_extend(a: Seq<Gate>, b: Seq<Gate>, x: Gate)
    requires
        a.contains(x),
    ensures
        (a + b).contains(x),
{
    let i = choose|i: int| 0 <= i < a.len() && a[i] == x;
    assert((a + b)[i] == x);
}

/// A gate that reads only the first `n` wires cannot tell a witness
/// from its extension.
pub proof fn lemma_gate_holds_extend(w: Seq<u64>, ext: Seq<u64>, g: Gate, n: nat)
    requires
        gate_wf(g, n),
        w.len() == n,
    ensures
        gate_holds(w, g) == gate_holds(w + ext, g),
{
    assert(forall|i: int| 0 <= i < n ==> (w + ext)[i] == w[i]);
}

/// Appending fresh wires with canonical values, and gates over the
/// enlarged circuit that all hold, preserves satisfaction.
pub proof fn lemma_satisfies_extend(
    w: Seq<u64>,
    ext: Seq<u64>,
    gates: Seq<Gate>,
    more: Seq<Gate>,
    n: nat,
)
    requires
        satisfies(w, gates, n),
        forall|i: int| 0 <= i < gates.len() ==> gate_wf(#[trigger] gates[i], n),
        forall|i: int| 0 <= i < ext.len() ==> in_field(#[trigger] ext[i]),
        forall|i: int| 0 <= i < more.len() ==> gate_holds(w + ext, #[trigger] more[i]),
    ensures
        satisfies(w + ext, gates + more, (n + ext.len()) as nat),
{
    let we = w + ext;
    assert forall|i: int| 0 <= i < we.len() implies in_field(#[trigger] we[i]) by {
        if i < w.len() {
            assert(we[i] == w[i]);
        } else {
            assert(we[i] == ext[i - w.len()]);
        }
    }
    assert forall|i: int| 0 <= i < (gates + more).len() implies gate_holds(
        we,
        #[trigger] (gates + more)[i],
    ) by {
        if i < gates.len() {
            assert((gates + more)[i] == gates[i]);
            lemma_gate_holds_extend(w, ext, gates[i], n);
        } else {
            assert((gates + more)[i] == more[i - gates.len()]);
        }
    }
}

/// Inputs of the next defining gate are always available once every
/// wire that no gate defines is assigned and the outputs of all
/// earlier defining gates are: a defining gate reads only wires below
/// its output, and outputs are registered in increasing order.
proof fn lemma_inputs_available(
    gates: Seq<Gate>,
    vals: Seq<Option<u64>>,
    initial: Seq<Option<u64>>,
    n: nat,
    j: int,
)
    requires
        forall|i: int| 0 <= i < gates.len() ==> gate_wf(#[trigger] gates[i], n),
        outs_increasing(gates),
        0 <= j < gates.len(),
        is_defining(gates[j]),
        vals.len() == n,
        initial.len() == n,
        forall|i: int| 0 <= i < n && !wire_defined(gates, i as Wire) ==> vals[i] == initial[i],
        forall|i: int| 0 <= i < n && !wire_defined(gates, i as Wire) ==> initial[i] is Some,
        forall|k: int|
            0 <= k < j && is_defining(#[trigger] gates[k]) ==> vals[out_of(gates[k]) as int]
                is Some,
    ensures
        forall|w: int| 0 <= w < out_of(gates[j]) ==> vals[w] is Some,
{
    assert(gate_wf(gates[j], n));
    assert forall|w: int| 0 <= w < out_of(gates[j]) implies vals[w] is Some by {
        if wire_defined(gates, w as usize) {
            let k = choose|k: int| 0 <= k < gates.len() && defines(#[trigger] gates[k], w as usize);
            assert(is_defining(gates[k]));
            assert(out_of(gates[k]) == w as usize);
            if k > j {
                assert(out_of(gates[j]) < out_of(gates[k]));
                assert(false);
            } else if k == j {
                assert(false);
            }
            assert(vals[out_of(gates[k]) as int] is Some);
        } else {
            assert(vals[w] == initial[w]);
        }
    }
}

/// The witness table of the assignment phase: one optional canonical
/// value per allocated wire.
pub struct PartialWitness {
    pub values: Vec<Option<u64>>,
}

impl PartialWitness {
    /// Every recorded value is a canonical field element.
    pub open spec fn wf(self) -> bool {
        forall|i: int|
            0 <= i < self.values@.len() ==> ((#[trigger] self.values@[i]) matches Some(v)
                ==> in_field(v))
    }

    /// An empty witness table for a circuit of `num_wires` wires.
    pub fn new(num_wires: usize) -> (pw: Self)
        ensures
            pw.wf(),
            pw.values@.len() == num_wires,
            forall|i: int| 0 <= i < num_wires ==> (#[trigger] pw.values@[i]) is None,
    {
        let mut values: Vec<Option<u64>> = Vec::new();
        let mut i: usize = 0;
        while i < num_wires
            invariant
                i <= num_wires,
                values@.len() == i,
                forall|k: int| 0 <= k < i ==> (#[trigger] values@[k]) is None,
            decreases num_wires - i,
        {
            values.push(None);
            i = i + 1;
        }
        PartialWitness { values }
    }

    /// Records a concrete value for one wire.  Fails on a handle
    /// outside the table, on a non-canonical value, and on a wire that
    /// already carries a value — assignment is never retried in place.
    pub fn set_target(&mut self, w: Wire, value: u64) -> (r: Result<(), GadgetError>)
        ensures
            r is Ok <==> (
                w < old(self).values@.len() && in_field(value) && old(self).values@[w as int] is None
            ),
            r is Ok ==> final(self).values@ == old(self).values@.update(w as int, Some(value)),
            r is Err ==> *final(self) == *old(self),
            w >= old(self).values@.len() ==> r == Result::<(), GadgetError>::Err(
                GadgetError::WireOutOfRange,
            ),
            w < old(self).values@.len() && !in_field(value) ==> r == Result::<
                (),
                GadgetError,
            >::Err(GadgetError::NotAFieldElement),
            w < old(self).values@.len() && in_field(value) && old(self).values@[w as int] is Some
                ==> r == Result::<(), GadgetError>::Err(GadgetError::AlreadyAssigned),
            old(self).wf() ==> final(self).wf(),
            final(self).values@.len() == old(self).values@.len(),
    {
        if w >= self.values.len() {
            return Err(GadgetError::WireOutOfRange);
        }
        if value >= FIELD_ORDER {
            return Err(GadgetError::NotAFieldElement);
        }
        if self.values[w].is_some() {
            return Err(GadgetError::AlreadyAssigned);
        }
        self.values.set(w, Some(value));
        Ok(())
    }

    /// Whether every wire of the table carries a value.
    pub fn is_fully_assigned(&self) -> (r: bool)
        ensures
            r == forall|i: int| 0 <= i < self.values@.len() ==> (#[trigger] self.values@[i]) is Some,
    {
        let mut i: usize = 0;
        while i < self.values.len()
            invariant
                i <= self.values@.len(),
                forall|k: int| 0 <= k < i ==> (#[trigger] self.values@[k]) is Some,
            decreases self.values@.len() - i,
        {
            if self.values[i].is_none() {
                return false;
            }
            i = i + 1;
        }
        true
    }

    /// Extracts the full assignment, or `None` while any wire is still
    /// missing a value — the detectable state that must never reach
    /// proof generation.
    pub fn complete_witness(&self) -> (r: Option<Vec<u64>>)
        ensures
            r is Some <==> (
                forall|i: int| 0 <= i < self.values@.len() ==> (#[trigger] self.values@[i]) is Some
            ),
            r matches Some(v) ==> (
                v@.len() == self.values@.len() && forall|i: int|
                    0 <= i < v@.len() ==> self.values@[i] == Some(#[trigger] v@[i])
            ),
    {
        let mut out: Vec<u64> = Vec::new();
        let mut i: usize = 0;
        while i < self.values.len()
            invariant
                i <= self.values@.len(),
                out@.len() == i,
                forall|k: int| 0 <= k < i ==> (#[trigger] self.values@[k]) is Some,
                forall|k: int| 0 <= k < i ==> self.values@[k] == Some(#[trigger] out@[k]),
            decreases self.values@.len() - i,
        {
            match self.values[i] {
                Some(v) => out.push(v),
                None => {
                    return None;
                },
            }
            i = i + 1;
        }
        Some(out)
    }
}

} // verus!
