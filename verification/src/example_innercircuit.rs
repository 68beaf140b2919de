//! The verify-or-skip composition as an inner circuit of a recursion
//! tree: a gadget that checks a signature over the given message when
//! the selector wire is `0` and imposes nothing when it is `1`.
//!
//! The [`InnerCircuit`] trait is the two-phase contract every gadget of
//! this family implements: `add_targets` allocates wires and registers
//! constraints once at circuit-definition time, `set_targets` writes
//! the concrete values of one proof instance.  [`ExampleGadget`]
//! implements it with the signature sub-circuit of
//! [`crate::sig_circuit`]; the selector is supplied by the enclosing
//! tree, already boolean constrained.

use vstd::prelude::*;
use crate::field::{
    in_field, fadd, fsub, fmul, lemma_fadd_zero, lemma_fmul_zero, lemma_fmul_one, lemma_fadd_fsub,
    lemma_fsub_eq_zero, lemma_field_ops_in_field,
};
use crate::circuit::{
    Wire, Gate, GadgetError, CircuitBuilder, PartialWitness, satisfies, gate_wf, gate_holds,
    lemma_contained_gate_holds, lemma_satisfies_extend,
};
use crate::gadgets::{BoolWire, selector_gate, selector_gate_gates};
use crate::sig_circuit::{
    MessageTarget, PublicKeyTarget, SignatureTarget, SigCircuitBuilder, sig_is_valid,
    sig_circuit_gates, sig_circuit_witness, lemma_verify_sig_sound,
};

verus! {

/// Headroom the gadget needs in the wire allocator.
pub const GADGET_WIRE_HEADROOM: usize = 16;

/// The two-phase contract of every gadget in this family: constraint
/// registration once per circuit, witness assignment once per proof
/// instance, in that order.
pub trait InnerCircuit: Sized {
    /// Concrete values supplied at proving time.
    type Input;

    /// The wires the gadget allocates and exposes to its caller.
    type Targets;

    /// Allocates wires and registers constraints; independent of any
    /// concrete value.  Fails only when the constraint system cannot
    /// allocate further wires.
    fn add_targets(
        builder: &mut CircuitBuilder,
        selector: &BoolWire,
        msg_targ: &MessageTarget,
    ) -> (r: Result<Self::Targets, GadgetError>)
        requires
            old(builder).wf(),
            selector@ < old(builder).num_wires,
            msg_targ.wire < old(builder).num_wires,
        ensures
            final(builder).wf(),
            final(builder).num_wires >= old(builder).num_wires,
            r is Err ==> *final(builder) == *old(builder),
    ;

    /// Writes the concrete values of one proof instance into the wires
    /// allocated by construction.
    fn set_targets(
        pw: &mut PartialWitness,
        targets: &Self::Targets,
        input: &Self::Input,
    ) -> (r: Result<(), GadgetError>)
        ensures
            final(pw).values@.len() == old(pw).values@.len(),
            old(pw).wf() ==> final(pw).wf(),
    ;
}

/// Concrete key and signature for one proof instance.
pub struct ExampleGadgetInput {
    pub pk: u64,
    pub sig: u64,
}

/// The wires the gadget exposes: the public-key and signature groups.
pub struct ExampleGadgetTargets {
    pub pk_targ: PublicKeyTarget,
    pub sig_targ: SignatureTarget,
}

impl ExampleGadgetTargets {
    /// The exposed wires are inside the witness table, distinct, and
    /// not yet assigned — the state right after construction.
    pub open spec fn fresh_in(self, vals: Seq<Option<u64>>) -> bool {
        &&& self.pk_targ.wire < vals.len()
        &&& self.sig_targ.wire < vals.len()
        &&& self.pk_targ.wire != self.sig_targ.wire
        &&& vals[self.pk_targ.wire as int] is None
        &&& vals[self.sig_targ.wire as int] is None
    }
}

/// The gates the gadget registers, with fresh wires starting at
/// `start`: key group at `start`, signature group at `start + 1`, the
/// signature sub-circuit at `start + 2`, then the selector gate over
/// (result wire, constant one) and the final `expected = 1` equality.
pub open spec fn verify_or_skip_gates(sel: Wire, msg: Wire, start: Wire) -> Seq<Gate> {
    sig_circuit_gates(start, msg, (start + 1) as usize, (start + 2) as usize)
        + selector_gate_gates((start + 4) as usize, 1, sel, (start + 8) as usize) + seq![
        (Gate::Connect { a: (start + 9) as usize, b: 1 }),
    ]
}

/// The values witness generation assigns to the ten wires the gadget
/// allocates, given the concrete key and signature, the message value,
/// and the selector value.
pub open spec fn verify_or_skip_witness(pkv: u64, msgv: u64, sigv: u64, selv: u64) -> Seq<u64> {
    let sc = sig_circuit_witness(pkv, msgv, sigv);
    let v = sc[2];
    let yx = fsub(1, v) as u64;
    let z = fadd(fmul(selv, yx) as u64, v) as u64;
    seq![pkv, sigv] + sc + seq![yx, z]
}

/// Verify-branch soundness: in every witness satisfying a circuit
/// that contains the gadget's gates, a selector value of `0` forces
/// the sub-circuit's result wire to `1`, and with it the validity of
/// the witnessed (key, message, signature) triple.  An adversarial
/// prover cannot skip verification without setting the selector.
pub proof fn lemma_verify_or_skip_sound(
    w: Seq<u64>,
    gates: Seq<Gate>,
    n: nat,
    sel: Wire,
    msg: Wire,
    start: Wire,
)
    requires
        satisfies(w, gates, n),
        gates.contains(Gate::Constant { out: 0, value: 0 }),
        gates.contains(Gate::Constant { out: 1, value: 1 }),
        forall|k: int|
            0 <= k < verify_or_skip_gates(sel, msg, start).len() ==> gates.contains(
                #[trigger] verify_or_skip_gates(sel, msg, start)[k],
            ),
        sel < n,
        msg < n,
        start + 9 < n,
        start + 9 <= usize::MAX,
        w[sel as int] == 0,
    ensures
        w[start + 4] == 1,
        sig_is_valid(w[start as int], w[msg as int], w[start + 1]),
{
    let vg = verify_or_skip_gates(sel, msg, start);
    lemma_contained_gate_holds(w, gates, n, Gate::Constant { out: 0, value: 0 });
    lemma_contained_gate_holds(w, gates, n, Gate::Constant { out: 1, value: 1 });
    // The selector gate and the final equality force the result wire.
    assert(vg[8] == (Gate::Sub { a: 1, b: (start + 4) as usize, out: (start + 8) as usize }));
    lemma_contained_gate_holds(
        w,
        gates,
        n,
        Gate::Sub { a: 1, b: (start + 4) as usize, out: (start + 8) as usize },
    );
    assert(vg[9] == (Gate::MulAdd {
        a: sel,
        b: (start + 8) as usize,
        c: (start + 4) as usize,
        out: (start + 9) as usize,
    }));
    lemma_contained_gate_holds(
        w,
        gates,
        n,
        Gate::MulAdd {
            a: sel,
            b: (start + 8) as usize,
            c: (start + 4) as usize,
            out: (start + 9) as usize,
        },
    );
    assert(vg[10] == (Gate::Connect { a: (start + 9) as usize, b: 1 }));
    lemma_contained_gate_holds(w, gates, n, Gate::Connect { a: (start + 9) as usize, b: 1 });
    lemma_fmul_zero(w[start + 8]);
    lemma_fadd_zero(w[start + 4]);
    assert(w[start + 4] == 1);
    // The sub-circuit's soundness turns the forced result into validity.
    assert forall|k: int|
        0 <= k < sig_circuit_gates(start, msg, (start + 1) as usize, (start + 2) as usize).len()
        implies gates.contains(
        #[trigger] sig_circuit_gates(start, msg, (start + 1) as usize, (start + 2) as usize)[k],
    ) by {
        assert(sig_circuit_gates(start, msg, (start + 1) as usize, (start + 2) as usize)[k]
            == vg[k]);
    }
    lemma_verify_sig_sound(
        w,
        gates,
        n,
        start,
        msg,
        (start + 1) as usize,
        (start + 2) as usize,
    );
}

/// Skip-branch independence and verify-branch completeness: whenever
/// the boolean selector carries `1`, or it carries `0` and the
/// supplied triple is valid, the witness produced by witness
/// generation satisfies the whole extended circuit — regardless, in
/// the skip branch, of whether the signature is valid.
pub proof fn lemma_verify_or_skip_satisfiable(
    w0: Seq<u64>,
    gates0: Seq<Gate>,
    n0: usize,
    sel: Wire,
    msg: Wire,
    pkv: u64,
    sigv: u64,
)
    requires
        satisfies(w0, gates0, n0 as nat),
        forall|i: int| 0 <= i < gates0.len() ==> gate_wf(#[trigger] gates0[i], n0 as nat),
        gates0.contains(Gate::Constant { out: 0, value: 0 }),
        gates0.contains(Gate::Constant { out: 1, value: 1 }),
        sel < n0,
        msg < n0,
        n0 + 10 <= usize::MAX,
        in_field(pkv),
        in_field(sigv),
        w0[sel as int] == 0 || w0[sel as int] == 1,
        w0[sel as int] == 1 || sig_is_valid(pkv, w0[msg as int], sigv),
    ensures
        satisfies(
            w0 + verify_or_skip_witness(pkv, w0[msg as int], sigv, w0[sel as int]),
            gates0 + verify_or_skip_gates(sel, msg, n0),
            (n0 + 10) as nat,
        ),
{
    let msgv = w0[msg as int];
    let selv = w0[sel as int];
    let ext = verify_or_skip_witness(pkv, msgv, sigv, selv);
    let we = w0 + ext;
    let vg = verify_or_skip_gates(sel, msg, n0);
    let pm = fmul(pkv, msgv) as u64;
    let d = fsub(sigv, pm) as u64;
    let v: u64 = if d == 0 { 1 } else { 0 };
    let vb = fsub(v, 1) as u64;
    let vr = fmul(v, vb) as u64;
    let e = fmul(v, d) as u64;
    let yx = fsub(1, v) as u64;
    let z = fadd(fmul(selv, yx) as u64, v) as u64;
    assert(ext =~= seq![pkv, sigv, pm, d, v, vb, vr, e, yx, z]);
    lemma_contained_gate_holds(w0, gates0, n0 as nat, Gate::Constant { out: 0, value: 0 });
    lemma_contained_gate_holds(w0, gates0, n0 as nat, Gate::Constant { out: 1, value: 1 });
    assert(w0[0] == 0 && w0[1] == 1);
    // Every appended value is canonical.
    lemma_field_ops_in_field(pkv, msgv);
    lemma_field_ops_in_field(sigv, pm);
    lemma_field_ops_in_field(v, 1);
    lemma_field_ops_in_field(v, vb);
    lemma_field_ops_in_field(v, d);
    lemma_field_ops_in_field(1, v);
    lemma_field_ops_in_field(selv, yx);
    lemma_field_ops_in_field(fmul(selv, yx) as u64, v);
    assert(forall|i: int| 0 <= i < ext.len() ==> in_field(#[trigger] ext[i]));
    // Index bookkeeping over the concatenated witness.
    assert(we[0] == 0 && we[1] == 1);
    assert(we[msg as int] == msgv && we[sel as int] == selv);
    assert(we[n0 as int] == pkv && we[n0 + 1] == sigv && we[n0 + 2] == pm && we[n0 + 3] == d);
    assert(we[n0 + 4] == v && we[n0 + 5] == vb && we[n0 + 6] == vr && we[n0 + 7] == e);
    assert(we[n0 + 8] == yx && we[n0 + 9] == z);
    // The boolean constraint on the result wire holds.
    if v == 1 {
        lemma_fsub_eq_zero(1, 1);
        lemma_fmul_zero(v);
    } else {
        lemma_fmul_zero(vb);
    }
    assert(vr == 0);
    // The certification constraint `v * d = 0` holds.
    if v == 1 {
        lemma_fmul_zero(v);
    } else {
        lemma_fmul_zero(d);
    }
    assert(e == 0);
    // The selected value is one in both branches.
    if selv == 1 {
        lemma_fmul_one(yx);
        assert(fadd(yx, v) == fadd(v, yx));
        lemma_fadd_fsub(v, 1);
    } else {
        assert(sig_is_valid(pkv, msgv, sigv));
        lemma_fsub_eq_zero(sigv, pm);
        assert(v == 1);
        lemma_fmul_zero(yx);
        lemma_fadd_zero(v);
    }
    assert(z == 1);
    // Every registered gate of the gadget holds on the extension.
    assert forall|i: int| 0 <= i < vg.len() implies gate_holds(we, #[trigger] vg[i]) by {
        assert(vg[0] == (Gate::Mul { a: n0, b: msg, out: (n0 + 2) as usize }));
        assert(vg[1] == (Gate::Sub { a: (n0 + 1) as usize, b: (n0 + 2) as usize, out: (n0 + 3) as usize }));
        assert(vg[2] == (Gate::EqHint { a: (n0 + 3) as usize, b: 0, out: (n0 + 4) as usize }));
        assert(vg[3] == (Gate::Sub { a: (n0 + 4) as usize, b: 1, out: (n0 + 5) as usize }));
        assert(vg[4] == (Gate::Mul { a: (n0 + 4) as usize, b: (n0 + 5) as usize, out: (n0 + 6) as usize }));
        assert(vg[5] == (Gate::Connect { a: (n0 + 6) as usize, b: 0 }));
        assert(vg[6] == (Gate::Mul { a: (n0 + 4) as usize, b: (n0 + 3) as usize, out: (n0 + 7) as usize }));
        assert(vg[7] == (Gate::Connect { a: (n0 + 7) as usize, b: 0 }));
        assert(vg[8] == (Gate::Sub { a: 1, b: (n0 + 4) as usize, out: (n0 + 8) as usize }));
        assert(vg[9] == (Gate::MulAdd { a: sel, b: (n0 + 8) as usize, c: (n0 + 4) as usize, out: (n0 + 9) as usize }));
        assert(vg[10] == (Gate::Connect { a: (n0 + 9) as usize, b: 1 }));
    }
    lemma_satisfies_extend(w0, ext, gates0, vg, n0 as nat);
}

/// The verify-or-skip gadget with an externally supplied selector.
pub struct ExampleGadget {}

impl InnerCircuit for ExampleGadget {
    type Input = ExampleGadgetInput;

    type Targets = ExampleGadgetTargets;

    fn add_targets(
        builder: &mut CircuitBuilder,
        selector: &BoolWire,
        msg_targ: &MessageTarget,
    ) -> (r: Result<Self::Targets, GadgetError>)
        ensures
            r is Err <==> old(builder).num_wires > usize::MAX - GADGET_WIRE_HEADROOM,
            r is Err ==> r == Result::<Self::Targets, GadgetError>::Err(
                GadgetError::CapacityExhausted,
            ),
            r matches Ok(t) ==> ({
                &&& final(builder).num_wires == old(builder).num_wires + 10
                &&& final(builder).gates@ == old(builder).gates@ + verify_or_skip_gates(
                    selector@,
                    msg_targ.wire,
                    old(builder).num_wires,
                )
                &&& t.pk_targ.wire == old(builder).num_wires
                &&& t.sig_targ.wire == old(builder).num_wires + 1
            }),
    {
        if builder.num_wires > usize::MAX - GADGET_WIRE_HEADROOM {
            return Err(GadgetError::CapacityExhausted);
        }
        let sb: SigCircuitBuilder = SigCircuitBuilder {};
        let pk_targ = PublicKeyTarget::new_virtual(builder);
        let sig_targ = SignatureTarget::new_virtual(builder);
        let sig_verif_targ = sb.verify_sig(builder, &sig_targ, msg_targ, &pk_targ);
        let one = builder.one();
        let expected = selector_gate(builder, sig_verif_targ, one, selector.wire());
        let one_2 = builder.one();
        builder.connect(expected, one_2);
        proof {
            assert(builder.gates@ =~= old(builder).gates@ + verify_or_skip_gates(
                selector@,
                msg_targ.wire,
                old(builder).num_wires,
            ));
        }
        Ok(ExampleGadgetTargets { pk_targ, sig_targ })
    }

    fn set_targets(
        pw: &mut PartialWitness,
        targets: &Self::Targets,
        input: &Self::Input,
    ) -> (r: Result<(), GadgetError>)
        ensures
            targets.fresh_in(old(pw).values@) ==> (r is Ok <==> in_field(input.pk) && in_field(
                input.sig,
            )),
            targets.fresh_in(old(pw).values@) && r is Ok ==> final(pw).values@ == old(pw).values@.update(targets.pk_targ.wire as int, Some(input.pk)).update(
                targets.sig_targ.wire as int,
                Some(input.sig),
            ),
            targets.fresh_in(old(pw).values@) && !in_field(input.pk) ==> (r == Result::<
                (),
                GadgetError,
            >::Err(GadgetError::InvalidPublicKey) && *final(pw) == *old(pw)),
            targets.fresh_in(old(pw).values@) && in_field(input.pk) && !in_field(input.sig) ==> (
                r == Result::<(), GadgetError>::Err(GadgetError::InvalidSignature) && final(pw).values@ == old(pw).values@.update(targets.pk_targ.wire as int, Some(input.pk))
            ),
    {
        match targets.pk_targ.set_witness(pw, input.pk) {
            Ok(()) => {},
            Err(e) => {
                return Err(e);
            },
        }
        match targets.sig_targ.set_witness(pw, input.sig) {
            Ok(()) => {},
            Err(e) => {
                return Err(e);
            },
        }
        Ok(())
    }
}

} // verus!
