//! The signature-verification sub-circuit collaborator.
//!
//! The verify-or-skip gadget treats signature verification as a black
//! box: a sub-circuit that, over a public-key wire group, a message
//! wire and a signature wire group, yields one result wire that is `1`
//! only if the witnessed signature is valid for the witnessed key and
//! message.  A production deployment plugs in a full signature scheme
//! here; this crate ships a minimal sub-circuit over a one-wire key,
//! message and signature with the MAC-style validity relation
//! `sig = pk * msg`, which exercises exactly the interface and the
//! soundness argument the gadget depends on.
//!
//! The result wire is a prover-chosen witness wire, boolean
//! constrained, with the single algebraic constraint
//! `v * (sig - pk * msg) = 0`: a prover can only set `v = 1` when the
//! relation holds, and witness generation fills `v` honestly.

use vstd::prelude::*;
use crate::field::{in_field, fsub, fmul};
use crate::circuit::{
    Wire, Gate, GadgetError, CircuitBuilder, PartialWitness, satisfies, lemma_contained_gate_holds,
};
use crate::field::{lemma_fmul_one, lemma_fsub_eq_zero};
use crate::gadgets::{binary_check, binary_check_gates};

verus! {

/// The wire carrying the message whose signature is checked; supplied
/// by the enclosing circuit and shared between gadgets.
pub struct MessageTarget {
    pub wire: Wire,
}

impl MessageTarget {
    /// Allocates a fresh message wire.
    pub fn new_virtual(builder: &mut CircuitBuilder) -> (t: Self)
        requires
            old(builder).wf(),
            old(builder).num_wires < usize::MAX,
        ensures
            final(builder).wf(),
            t.wire == old(builder).num_wires,
            final(builder).num_wires == old(builder).num_wires + 1,
            final(builder).gates@ == old(builder).gates@,
    {
        MessageTarget { wire: builder.add_virtual_target() }
    }
}

/// The wire group representing a public key.
pub struct PublicKeyTarget {
    pub wire: Wire,
}

impl PublicKeyTarget {
    /// Allocates the wires of a fresh public-key group.
    pub fn new_virtual(builder: &mut CircuitBuilder) -> (t: Self)
        requires
            old(builder).wf(),
            old(builder).num_wires < usize::MAX,
        ensures
            final(builder).wf(),
            t.wire == old(builder).num_wires,
            final(builder).num_wires == old(builder).num_wires + 1,
            final(builder).gates@ == old(builder).gates@,
    {
        PublicKeyTarget { wire: builder.add_virtual_target() }
    }

    /// Writes a concrete public key into the group's wires; rejects a
    /// malformed (non-canonical) key.
    pub fn set_witness(&self, pw: &mut PartialWitness, pk: u64) -> (r: Result<(), GadgetError>)
        ensures
            r is Ok <==> (
                self.wire < old(pw).values@.len() && in_field(pk) && old(pw).values@[self.wire as int] is None
            ),
            r is Ok ==> final(pw).values@ == old(pw).values@.update(self.wire as int, Some(pk)),
            r is Err ==> *final(pw) == *old(pw),
            self.wire < old(pw).values@.len() && !in_field(pk) ==> r == Result::<
                (),
                GadgetError,
            >::Err(GadgetError::InvalidPublicKey),
            old(pw).wf() ==> final(pw).wf(),
            final(pw).values@.len() == old(pw).values@.len(),
    {
        match pw.set_target(self.wire, pk) {
            Ok(()) => Ok(()),
            Err(GadgetError::NotAFieldElement) => Err(GadgetError::InvalidPublicKey),
            Err(e) => Err(e),
        }
    }
}

/// The wire group representing a signature.
pub struct SignatureTarget {
    pub wire: Wire,
}

impl SignatureTarget {
    /// Allocates the wires of a fresh signature group.
    pub fn new_virtual(builder: &mut CircuitBuilder) -> (t: Self)
        requires
            old(builder).wf(),
            old(builder).num_wires < usize::MAX,
        ensures
            final(builder).wf(),
            t.wire == old(builder).num_wires,
            final(builder).num_wires == old(builder).num_wires + 1,
            final(builder).gates@ == old(builder).gates@,
    {
        SignatureTarget { wire: builder.add_virtual_target() }
    }

    /// Writes a concrete signature into the group's wires; rejects a
    /// malformed (non-canonical) signature.
    pub fn set_witness(&self, pw: &mut PartialWitness, sig: u64) -> (r: Result<(), GadgetError>)
        ensures
            r is Ok <==> (
                self.wire < old(pw).values@.len() && in_field(sig) && old(pw).values@[self.wire as int] is None
            ),
            r is Ok ==> final(pw).values@ == old(pw).values@.update(self.wire as int, Some(sig)),
            r is Err ==> *final(pw) == *old(pw),
            self.wire < old(pw).values@.len() && !in_field(sig) ==> r == Result::<
                (),
                GadgetError,
            >::Err(GadgetError::InvalidSignature),
            old(pw).wf() ==> final(pw).wf(),
            final(pw).values@.len() == old(pw).values@.len(),
    {
        match pw.set_target(self.wire, sig) {
            Ok(()) => Ok(()),
            Err(GadgetError::NotAFieldElement) => Err(GadgetError::InvalidSignature),
            Err(e) => Err(e),
        }
    }
}

/// Validity of a concrete (key, message, signature) triple under the
/// demonstration scheme: the signature is the field product of key and
/// message.
pub open spec fn sig_is_valid(pk: u64, msg: u64, sig: u64) -> bool {
    sig as int == fmul(pk, msg)
}

/// The gates the sub-circuit registers, with fresh wires starting at
/// `start`: `pm = pk * msg`, `d = sig - pm`, the hinted result wire
/// `v`, the boolean constraint on `v`, and `v * d = 0`.
pub open spec fn sig_circuit_gates(pk: Wire, msg: Wire, sig: Wire, start: Wire) -> Seq<Gate> {
    seq![
        (Gate::Mul { a: pk, b: msg, out: start }),
        (Gate::Sub { a: sig, b: start, out: (start + 1) as usize }),
        (Gate::EqHint { a: (start + 1) as usize, b: 0, out: (start + 2) as usize }),
    ] + binary_check_gates((start + 2) as usize, (start + 3) as usize) + seq![
        (Gate::Mul { a: (start + 2) as usize, b: (start + 1) as usize, out: (start + 5) as usize }),
        (Gate::Connect { a: (start + 5) as usize, b: 0 }),
    ]
}

/// The values witness generation assigns to the six wires the
/// sub-circuit allocates, given the concrete key, message and
/// signature.
pub open spec fn sig_circuit_witness(pkv: u64, msgv: u64, sigv: u64) -> Seq<u64> {
    let pm = fmul(pkv, msgv) as u64;
    let d = fsub(sigv, pm) as u64;
    let v: u64 = if d == 0 { 1 } else { 0 };
    let vb = fsub(v, 1) as u64;
    let vr = fmul(v, vb) as u64;
    let e = fmul(v, d) as u64;
    seq![pm, d, v, vb, vr, e]
}

/// Constructs signature-verification sub-circuits.
pub struct SigCircuitBuilder {}

impl SigCircuitBuilder {
    /// Registers the verification sub-circuit over the given wire
    /// groups and returns the result wire, which is `1` in a
    /// satisfying witness only if the witnessed triple is valid.
    pub fn verify_sig(
        &self,
        builder: &mut CircuitBuilder,
        sig: &SignatureTarget,
        msg: &MessageTarget,
        pk: &PublicKeyTarget,
    ) -> (v: Wire)
        requires
            old(builder).wf(),
            sig.wire < old(builder).num_wires,
            msg.wire < old(builder).num_wires,
            pk.wire < old(builder).num_wires,
            old(builder).num_wires <= usize::MAX - 6,
        ensures
            final(builder).wf(),
            v == old(builder).num_wires + 2,
            final(builder).num_wires == old(builder).num_wires + 6,
            final(builder).gates@ == old(builder).gates@ + sig_circuit_gates(
                pk.wire,
                msg.wire,
                sig.wire,
                old(builder).num_wires,
            ),
    {
        let pm = builder.mul(pk.wire, msg.wire);
        let d = builder.sub(sig.wire, pm);
        let zero = builder.zero();
        let v = builder.add_eq_hint(d, zero);
        let _bool_v = binary_check(builder, v);
        let e = builder.mul(v, d);
        builder.connect(e, zero);
        proof {
            assert(builder.gates@ =~= old(builder).gates@ + sig_circuit_gates(
                pk.wire,
                msg.wire,
                sig.wire,
                old(builder).num_wires,
            ));
        }
        v
    }
}

/// Soundness of the sub-circuit: in every satisfying witness, a result
/// wire carrying `1` certifies that the witnessed triple is valid.
pub proof fn lemma_verify_sig_sound(
    w: Seq<u64>,
    gates: Seq<Gate>,
    n: nat,
    pk: Wire,
    msg: Wire,
    sig: Wire,
    start: Wire,
)
    requires
        satisfies(w, gates, n),
        gates.contains(Gate::Constant { out: 0, value: 0 }),
        forall|k: int|
            0 <= k < sig_circuit_gates(pk, msg, sig, start).len() ==> gates.contains(
                #[trigger] sig_circuit_gates(pk, msg, sig, start)[k],
            ),
        pk < n,
        msg < n,
        sig < n,
        start + 5 < n,
        start + 5 <= usize::MAX,
        w[start + 2] == 1,
    ensures
        sig_is_valid(w[pk as int], w[msg as int], w[sig as int]),
{
    lemma_contained_gate_holds(w, gates, n, Gate::Constant { out: 0, value: 0 });
    assert(sig_circuit_gates(pk, msg, sig, start)[0] == (Gate::Mul { a: pk, b: msg, out: start }));
    lemma_contained_gate_holds(w, gates, n, Gate::Mul { a: pk, b: msg, out: start });
    assert(sig_circuit_gates(pk, msg, sig, start)[1] == (Gate::Sub {
        a: sig,
        b: start,
        out: (start + 1) as usize,
    }));
    lemma_contained_gate_holds(
        w,
        gates,
        n,
        Gate::Sub { a: sig, b: start, out: (start + 1) as usize },
    );
    assert(sig_circuit_gates(pk, msg, sig, start)[6] == (Gate::Mul {
        a: (start + 2) as usize,
        b: (start + 1) as usize,
        out: (start + 5) as usize,
    }));
    lemma_contained_gate_holds(
        w,
        gates,
        n,
        Gate::Mul { a: (start + 2) as usize, b: (start + 1) as usize, out: (start + 5) as usize },
    );
    assert(sig_circuit_gates(pk, msg, sig, start)[7] == (Gate::Connect {
        a: (start + 5) as usize,
        b: 0,
    }));
    lemma_contained_gate_holds(w, gates, n, Gate::Connect { a: (start + 5) as usize, b: 0 });
    let dv = w[start + 1];
    assert(w[start + 5] as int == fmul(w[start + 2], dv));
    lemma_fmul_one(dv);
    assert(dv == 0);
    assert(dv as int == fsub(w[sig as int], w[start as int]));
    lemma_fsub_eq_zero(w[sig as int], w[start as int]);
}

} // verus!
