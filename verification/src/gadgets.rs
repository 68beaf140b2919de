//! The two primitive gadgets: the boolean wire constraint and the
//! algebraic selector gate.
//!
//! Branching is impossible inside a constraint system, so "if the
//! selector is zero take `x`, else take `y`" is expressed as the linear
//! interpolation `z = x + s * (y - x)`, and the selector is forced into
//! `{0, 1}` by the separate degree-2 constraint `s * (s - 1) = 0`.

use vstd::prelude::*;
use crate::field::{
    fadd, fsub, fmul, lemma_fadd_zero, lemma_fmul_zero, lemma_fmul_one, lemma_fadd_fsub,
    lemma_fsub_eq_zero, lemma_field_ops_in_field,
};
use crate::circuit::{
    Wire, Gate, CircuitBuilder, satisfies, gate_wf, gate_holds, lemma_contained_gate_holds,
    lemma_satisfies_extend,
};

verus! {

/// A wire together with the circuit-level guarantee that a boolean
/// constraint on it has been registered.  The field is private: the
/// only way to obtain a `BoolWire` is [`binary_check`], which registers
/// the constraint in the same operation, so an unconstrained "trust me"
/// boolean wire cannot be produced.
pub struct BoolWire {
    wire: Wire,
}

impl View for BoolWire {
    type V = Wire;

    closed spec fn view(&self) -> Wire {
        self.wire
    }
}

impl BoolWire {
    /// The underlying wire handle.
    pub fn wire(&self) -> (w: Wire)
        ensures
            w == self@,
    {
        self.wire
    }
}

/// The gates registered by [`binary_check`] on wire `b`, with fresh
/// wires starting at `start`: `d = b - 1`, `r = b * d`, `r = 0`.
pub open spec fn binary_check_gates(b: Wire, start: Wire) -> Seq<Gate> {
    seq![
        (Gate::Sub { a: b, b: 1, out: start }),
        (Gate::Mul { a: b, b: start, out: (start + 1) as usize }),
        (Gate::Connect { a: (start + 1) as usize, b: 0 }),
    ]
}

/// Registers the algebraic constraint `b * (b - 1) = 0` against the
/// constraint system and returns the wire as a boolean wire.  Any
/// witness satisfying the registered gates makes `b * (b - 1)` vanish
/// in the field; it does not itself assign a value.
pub fn binary_check(builder: &mut CircuitBuilder, b: Wire) -> (bw: BoolWire)
    requires
        old(builder).wf(),
        b < old(builder).num_wires,
        old(builder).num_wires <= usize::MAX - 2,
    ensures
        final(builder).wf(),
        bw@ == b,
        final(builder).num_wires == old(builder).num_wires + 2,
        final(builder).gates@ == old(builder).gates@ + binary_check_gates(
            b,
            old(builder).num_wires,
        ),
{
    let one = builder.one();
    let b_1 = builder.sub(b, one);
    let r = builder.mul(b, b_1);
    let zero = builder.zero();
    builder.connect(r, zero);
    proof {
        assert(builder.gates@ =~= old(builder).gates@ + binary_check_gates(
            b,
            old(builder).num_wires,
        ));
    }
    BoolWire { wire: b }
}

/// What the boolean constraint enforces: in every satisfying witness
/// the constrained wire's value `b` makes `b * (b - 1)` vanish in the
/// field.  `0` and `1` satisfy this; soundness of the whole circuit
/// rests on the field order being prime, under which the degree-2
/// polynomial has no further roots.
pub proof fn lemma_binary_check_sound(w: Seq<u64>, gates: Seq<Gate>, n: nat, b: Wire, start: Wire)
    requires
        satisfies(w, gates, n),
        gates.contains(Gate::Constant { out: 0, value: 0 }),
        gates.contains(Gate::Constant { out: 1, value: 1 }),
        forall|k: int|
            0 <= k < binary_check_gates(b, start).len() ==> gates.contains(
                #[trigger] binary_check_gates(b, start)[k],
            ),
        b < n,
        start < usize::MAX,
        start + 1 < n,
    ensures
        fmul(w[b as int], fsub(w[b as int], 1) as u64) == 0,
{
    lemma_contained_gate_holds(w, gates, n, Gate::Constant { out: 0, value: 0 });
    lemma_contained_gate_holds(w, gates, n, Gate::Constant { out: 1, value: 1 });
    assert(binary_check_gates(b, start)[0] == (Gate::Sub { a: b, b: 1, out: start }));
    lemma_contained_gate_holds(w, gates, n, Gate::Sub { a: b, b: 1, out: start });
    lemma_contained_gate_holds(
        w,
        gates,
        n,
        Gate::Mul { a: b, b: start, out: (start + 1) as usize },
    );
    lemma_contained_gate_holds(w, gates, n, Gate::Connect { a: (start + 1) as usize, b: 0 });
    assert(w[0] == 0 && w[1] == 1);
    assert(w[start as int] as int == fsub(w[b as int], 1));
}

/// Boolean enforcement, satisfiable half: when the constrained wire
/// already carries `0` or `1`, the fresh wires of the check can be
/// filled so that every registered gate holds — independent of the
/// values of all other wires of the circuit.
pub proof fn lemma_binary_check_satisfiable(w0: Seq<u64>, gates0: Seq<Gate>, n0: usize, b: Wire)
    requires
        satisfies(w0, gates0, n0 as nat),
        forall|i: int| 0 <= i < gates0.len() ==> gate_wf(#[trigger] gates0[i], n0 as nat),
        gates0.contains(Gate::Constant { out: 0, value: 0 }),
        gates0.contains(Gate::Constant { out: 1, value: 1 }),
        b < n0,
        n0 + 2 <= usize::MAX,
        w0[b as int] == 0 || w0[b as int] == 1,
    ensures
        satisfies(
            w0 + seq![fsub(w0[b as int], 1) as u64, 0],
            gates0 + binary_check_gates(b, n0),
            (n0 + 2) as nat,
        ),
{
    let bv = w0[b as int];
    let ds = fsub(bv, 1) as u64;
    let ext = seq![ds, 0u64];
    let more = binary_check_gates(b, n0);
    lemma_contained_gate_holds(w0, gates0, n0 as nat, Gate::Constant { out: 0, value: 0 });
    lemma_contained_gate_holds(w0, gates0, n0 as nat, Gate::Constant { out: 1, value: 1 });
    lemma_field_ops_in_field(bv, 1);
    if bv == 0 {
        lemma_fmul_zero(ds);
    } else {
        lemma_fsub_eq_zero(1, 1);
        lemma_fmul_zero(bv);
    }
    assert(fmul(bv, ds) == 0);
    let w1 = w0 + ext;
    assert(w1[b as int] == bv && w1[0] == 0 && w1[1] == 1);
    assert(w1[n0 as int] == ds && w1[n0 + 1] == 0);
    assert forall|i: int| 0 <= i < more.len() implies gate_holds(w1, #[trigger] more[i]) by {
        assert(more[0] == (Gate::Sub { a: b, b: 1, out: n0 }));
        assert(more[1] == (Gate::Mul { a: b, b: n0, out: (n0 + 1) as usize }));
        assert(more[2] == (Gate::Connect { a: (n0 + 1) as usize, b: 0 }));
    }
    lemma_satisfies_extend(w0, ext, gates0, more, n0 as nat);
}

/// The gates registered by [`selector_gate`] over inputs `x`, `y` and
/// selector `s`, with fresh wires starting at `start`:
/// `d = y - x`, `z = s * d + x`.
pub open spec fn selector_gate_gates(x: Wire, y: Wire, s: Wire, start: Wire) -> Seq<Gate> {
    seq![
        (Gate::Sub { a: y, b: x, out: start }),
        (Gate::MulAdd { a: s, b: start, c: x, out: (start + 1) as usize }),
    ]
}

/// Produces a wire equal to `x` when the selector is `0` and to `y`
/// when it is `1`, as the linear interpolation `x + s * (y - x)` —
/// exactly two arithmetic gates, no branching.  The selector must be
/// boolean-constrained elsewhere for the output to mean a selection;
/// no constraint on the selector is registered here.
pub fn selector_gate(builder: &mut CircuitBuilder, x: Wire, y: Wire, s: Wire) -> (z: Wire)
    requires
        old(builder).wf(),
        x < old(builder).num_wires,
        y < old(builder).num_wires,
        s < old(builder).num_wires,
        old(builder).num_wires <= usize::MAX - 2,
    ensures
        final(builder).wf(),
        z == old(builder).num_wires + 1,
        final(builder).num_wires == old(builder).num_wires + 2,
        final(builder).gates@ == old(builder).gates@ + selector_gate_gates(
            x,
            y,
            s,
            old(builder).num_wires,
        ),
{
    let y_x = builder.sub(y, x);
    let z = builder.mul_add(s, y_x, x);
    proof {
        assert(builder.gates@ =~= old(builder).gates@ + selector_gate_gates(
            x,
            y,
            s,
            old(builder).num_wires,
        ));
    }
    z
}

/// Selection correctness: in every satisfying witness the output of
/// the selector gate is exactly the linear interpolation
/// `x + s * (y - x)`; in particular it equals `x` when `s = 0` and `y`
/// when `s = 1`.  For `s` outside `{0, 1}` the interpolation identity
/// still holds verbatim.
pub proof fn lemma_selector_gate_semantics(
    w: Seq<u64>,
    gates: Seq<Gate>,
    n: nat,
    x: Wire,
    y: Wire,
    s: Wire,
    start: Wire,
)
    requires
        satisfies(w, gates, n),
        forall|k: int|
            0 <= k < selector_gate_gates(x, y, s, start).len() ==> gates.contains(
                #[trigger] selector_gate_gates(x, y, s, start)[k],
            ),
        x < n,
        y < n,
        s < n,
        start < usize::MAX,
        start + 1 < n,
    ensures
        w[start + 1] as int == fadd(fmul(w[s as int], fsub(w[y as int], w[x as int]) as u64) as u64, w[x as int]),
        w[s as int] == 0 ==> w[start + 1] == w[x as int],
        w[s as int] == 1 ==> w[start + 1] == w[y as int],
{
    assert(selector_gate_gates(x, y, s, start)[0] == (Gate::Sub { a: y, b: x, out: start }));
    lemma_contained_gate_holds(w, gates, n, Gate::Sub { a: y, b: x, out: start });
    lemma_contained_gate_holds(
        w,
        gates,
        n,
        Gate::MulAdd { a: s, b: start, c: x, out: (start + 1) as usize },
    );
    let xv = w[x as int];
    let yv = w[y as int];
    let sv = w[s as int];
    let dv = w[start as int];
    assert(dv as int == fsub(yv, xv));
    assert(dv == fsub(yv, xv) as u64);
    assert(w[start + 1] as int == fadd(fmul(sv, dv) as u64, xv));
    if sv == 0 {
        lemma_fmul_zero(dv);
        lemma_fadd_zero(xv);
    }
    if sv == 1 {
        lemma_fmul_one(dv);
        assert(fadd(dv, xv) == fadd(xv, dv));
        lemma_fadd_fsub(xv, yv);
    }
}

} // verus!
