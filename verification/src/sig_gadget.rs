//! The standalone verify-or-skip gadget: the same composition as
//! [`crate::example_innercircuit`], but allocating and boolean
//! constraining its own selector wire and exposing it to the caller.
//! One instance of it stands at every leaf of a recursion tree; the
//! selector decides per instance whether the signature is verified
//! here or attested by a separately supplied recursive proof.

use vstd::prelude::*;
use crate::field::{in_field, fsub, fmul, lemma_fmul_zero, lemma_fsub_eq_zero, lemma_field_ops_in_field};
use crate::circuit::{
    Wire, Gate, GadgetError, CircuitBuilder, PartialWitness, satisfies, gate_wf, gate_holds,
    wire_defined, defines, lemma_contained_gate_holds, lemma_satisfies_extend,
    lemma_contains_extend,
};
use crate::gadgets::{BoolWire, binary_check, binary_check_gates, lemma_binary_check_sound};
use crate::sig_circuit::{MessageTarget, PublicKeyTarget, SignatureTarget, sig_is_valid};
use crate::example_innercircuit::{
    InnerCircuit, ExampleGadget, verify_or_skip_gates, verify_or_skip_witness,
    lemma_verify_or_skip_sound, lemma_verify_or_skip_satisfiable,
};

verus! {

/// Concrete key and signature for one proof instance of the
/// standalone gadget.
pub struct PODInput {
    pub pk: u64,
    pub sig: u64,
}

/// The wires the standalone gadget allocates and exposes: the raw
/// selector wire, its boolean-constrained form, and the key and
/// signature groups.
pub struct PODGadgetTargets {
    pub selector_targ: Wire,
    pub selector_booltarg: BoolWire,
    pub pk_targ: PublicKeyTarget,
    pub sig_targ: SignatureTarget,
}

/// The gates the standalone gadget registers, with fresh wires
/// starting at `start`: the boolean constraint on the selector wire
/// `start`, then the verify-or-skip core with its fresh wires at
/// `start + 3`.
pub open spec fn pod_gadget_gates(msg: Wire, start: Wire) -> Seq<Gate> {
    binary_check_gates(start, (start + 1) as usize) + verify_or_skip_gates(
        start,
        msg,
        (start + 3) as usize,
    )
}

/// The values witness generation assigns to the thirteen wires the
/// standalone gadget allocates, given the concrete selector, key and
/// signature and the message value.
pub open spec fn pod_gadget_witness(pkv: u64, msgv: u64, sigv: u64, selv: u64) -> Seq<u64> {
    let ds = fsub(selv, 1) as u64;
    let rs = fmul(selv, ds) as u64;
    seq![selv, ds, rs] + verify_or_skip_witness(pkv, msgv, sigv, selv)
}

/// Verify-branch soundness of the standalone gadget: in every witness
/// satisfying a circuit containing its gates, the selector's value
/// makes `sel * (sel - 1)` vanish, and a selector of `0` forces the
/// witnessed (key, message, signature) triple to be valid.
pub proof fn lemma_pod_gadget_sound(
    w: Seq<u64>,
    gates: Seq<Gate>,
    n: nat,
    msg: Wire,
    start: Wire,
)
    requires
        satisfies(w, gates, n),
        gates.contains(Gate::Constant { out: 0, value: 0 }),
        gates.contains(Gate::Constant { out: 1, value: 1 }),
        forall|k: int|
            0 <= k < pod_gadget_gates(msg, start).len() ==> gates.contains(
                #[trigger] pod_gadget_gates(msg, start)[k],
            ),
        msg < n,
        start + 12 < n,
        start + 12 <= usize::MAX,
    ensures
        fmul(w[start as int], fsub(w[start as int], 1) as u64) == 0,
        w[start as int] == 0 ==> sig_is_valid(w[start + 3], w[msg as int], w[start + 4]),
{
    let pg = pod_gadget_gates(msg, start);
    assert forall|k: int|
        0 <= k < binary_check_gates(start, (start + 1) as usize).len() implies gates.contains(
        #[trigger] binary_check_gates(start, (start + 1) as usize)[k],
    ) by {
        assert(binary_check_gates(start, (start + 1) as usize)[k] == pg[k]);
    }
    lemma_binary_check_sound(w, gates, n, start, (start + 1) as usize);
    if w[start as int] == 0 {
        assert forall|k: int|
            0 <= k < verify_or_skip_gates(start, msg, (start + 3) as usize).len()
            implies gates.contains(
            #[trigger] verify_or_skip_gates(start, msg, (start + 3) as usize)[k],
        ) by {
            assert(verify_or_skip_gates(start, msg, (start + 3) as usize)[k] == pg[k + 3]);
        }
        lemma_verify_or_skip_sound(w, gates, n, start, msg, (start + 3) as usize);
    }
}

/// Satisfiability of the standalone gadget: for a boolean selector
/// value, the witness produced by assignment and witness generation
/// satisfies the extended circuit whenever the selector is `1` — with
/// any signature, valid or not — or the selector is `0` and the
/// supplied triple is valid.
pub proof fn lemma_pod_gadget_satisfiable(
    w0: Seq<u64>,
    gates0: Seq<Gate>,
    n0: usize,
    msg: Wire,
    pkv: u64,
    sigv: u64,
    selv: u64,
)
    requires
        satisfies(w0, gates0, n0 as nat),
        forall|i: int| 0 <= i < gates0.len() ==> gate_wf(#[trigger] gates0[i], n0 as nat),
        gates0.contains(Gate::Constant { out: 0, value: 0 }),
        gates0.contains(Gate::Constant { out: 1, value: 1 }),
        msg < n0,
        n0 + 13 <= usize::MAX,
        in_field(pkv),
        in_field(sigv),
        selv == 0 || selv == 1,
        selv == 1 || sig_is_valid(pkv, w0[msg as int], sigv),
    ensures
        satisfies(
            w0 + pod_gadget_witness(pkv, w0[msg as int], sigv, selv),
            gates0 + pod_gadget_gates(msg, n0),
            (n0 + 13) as nat,
        ),
{
    let msgv = w0[msg as int];
    let ds = fsub(selv, 1) as u64;
    let rs = fmul(selv, ds) as u64;
    let ext1 = seq![selv, ds, rs];
    let more1 = binary_check_gates(n0, (n0 + 1) as usize);
    let w1 = w0 + ext1;
    let gates1 = gates0 + more1;
    lemma_contained_gate_holds(w0, gates0, n0 as nat, Gate::Constant { out: 0, value: 0 });
    lemma_contained_gate_holds(w0, gates0, n0 as nat, Gate::Constant { out: 1, value: 1 });
    lemma_field_ops_in_field(selv, 1);
    lemma_field_ops_in_field(selv, ds);
    assert(forall|i: int| 0 <= i < ext1.len() ==> in_field(#[trigger] ext1[i]));
    assert(w1[0] == 0 && w1[1] == 1);
    assert(w1[n0 as int] == selv && w1[n0 + 1] == ds && w1[n0 + 2] == rs);
    if selv == 0 {
        lemma_fmul_zero(ds);
    } else {
        lemma_fsub_eq_zero(1, 1);
        lemma_fmul_zero(selv);
    }
    assert(rs == 0);
    assert forall|i: int| 0 <= i < more1.len() implies gate_holds(w1, #[trigger] more1[i]) by {
        assert(more1[0] == (Gate::Sub { a: n0, b: 1, out: (n0 + 1) as usize }));
        assert(more1[1] == (Gate::Mul { a: n0, b: (n0 + 1) as usize, out: (n0 + 2) as usize }));
        assert(more1[2] == (Gate::Connect { a: (n0 + 2) as usize, b: 0 }));
    }
    lemma_satisfies_extend(w0, ext1, gates0, more1, n0 as nat);
    assert(satisfies(w1, gates1, (n0 + 3) as nat));
    assert forall|i: int| 0 <= i < gates1.len() implies gate_wf(
        #[trigger] gates1[i],
        (n0 + 3) as nat,
    ) by {
        if i < gates0.len() {
            assert(gates1[i] == gates0[i]);
            assert(gate_wf(gates0[i], n0 as nat));
        } else {
            assert(gates1[i] == more1[i - gates0.len()]);
        }
    }
    lemma_contains_extend(gates0, more1, Gate::Constant { out: 0, value: 0 });
    lemma_contains_extend(gates0, more1, Gate::Constant { out: 1, value: 1 });
    assert(w1[msg as int] == msgv);
    lemma_verify_or_skip_satisfiable(w1, gates1, (n0 + 3) as usize, n0, msg, pkv, sigv);
    assert(w0 + pod_gadget_witness(pkv, msgv, sigv, selv) =~= w1 + verify_or_skip_witness(
        pkv,
        msgv,
        sigv,
        selv,
    ));
    assert(gates0 + pod_gadget_gates(msg, n0) =~= gates1 + verify_or_skip_gates(
        n0,
        msg,
        (n0 + 3) as usize,
    ));
}

/// Assignment completeness, structurally: among the thirteen wires
/// the standalone gadget allocates, exactly the selector, key and
/// signature wires — the ones `set_targets` writes — are defined by
/// no gate; witness generation derives every other one.
pub proof fn lemma_pod_gadget_wires_covered(msg: Wire, start: Wire)
    requires
        start + 13 <= usize::MAX,
    ensures
        forall|i: int|
            start <= i < start + 13 && i != start && i != start + 3 && i != start + 4
                ==> #[trigger] wire_defined(pod_gadget_gates(msg, start), i as usize),
{
    let pg = pod_gadget_gates(msg, start);
    assert forall|i: int|
        start <= i < start + 13 && i != start && i != start + 3 && i != start + 4
        implies #[trigger] wire_defined(pg, i as usize) by {
        if i == start + 1 {
            assert(defines(pg[0], i as usize));
        } else if i == start + 2 {
            assert(defines(pg[1], i as usize));
        } else if i == start + 5 {
            assert(defines(pg[3], i as usize));
        } else if i == start + 6 {
            assert(defines(pg[4], i as usize));
        } else if i == start + 7 {
            assert(defines(pg[5], i as usize));
        } else if i == start + 8 {
            assert(defines(pg[6], i as usize));
        } else if i == start + 9 {
            assert(defines(pg[7], i as usize));
        } else if i == start + 10 {
            assert(defines(pg[9], i as usize));
        } else if i == start + 11 {
            assert(defines(pg[11], i as usize));
        } else if i == start + 12 {
            assert(defines(pg[12], i as usize));
        }
    }
}

impl PODGadgetTargets {
    /// The exposed wires are inside the witness table, distinct, and
    /// not yet assigned — the state right after construction.
    pub open spec fn fresh_in(self, vals: Seq<Option<u64>>) -> bool {
        &&& self.selector_targ < vals.len()
        &&& self.pk_targ.wire < vals.len()
        &&& self.sig_targ.wire < vals.len()
        &&& self.selector_targ != self.pk_targ.wire
        &&& self.selector_targ != self.sig_targ.wire
        &&& self.pk_targ.wire != self.sig_targ.wire
        &&& vals[self.selector_targ as int] is None
        &&& vals[self.pk_targ.wire as int] is None
        &&& vals[self.sig_targ.wire as int] is None
    }

    /// Allocates the gadget's wires and registers its constraints:
    /// selector, boolean constraint, key and signature groups, the
    /// signature sub-circuit, the selector gate over (result, one),
    /// and the final `expected = 1` equality.  Purely structural:
    /// the registered circuit is a function of the builder state and
    /// the message wire alone, never of concrete values.
    pub fn add_targets(builder: &mut CircuitBuilder, msg_targ: &MessageTarget) -> (r: Result<
        Self,
        GadgetError,
    >)
        requires
            old(builder).wf(),
            msg_targ.wire < old(builder).num_wires,
        ensures
            final(builder).wf(),
            r is Err <==> old(builder).num_wires > usize::MAX - 32,
            r is Err ==> r == Result::<Self, GadgetError>::Err(GadgetError::CapacityExhausted)
                && *final(builder) == *old(builder),
            r matches Ok(t) ==> ({
                &&& final(builder).num_wires == old(builder).num_wires + 13
                &&& final(builder).gates@ == old(builder).gates@ + pod_gadget_gates(
                    msg_targ.wire,
                    old(builder).num_wires,
                )
                &&& t.selector_targ == old(builder).num_wires
                &&& t.selector_booltarg@ == old(builder).num_wires
                &&& t.pk_targ.wire == old(builder).num_wires + 3
                &&& t.sig_targ.wire == old(builder).num_wires + 4
            }),
    {
        if builder.num_wires > usize::MAX - 32 {
            return Err(GadgetError::CapacityExhausted);
        }
        let selector_targ = builder.add_virtual_target();
        let selector_booltarg = binary_check(builder, selector_targ);
        let targets = match ExampleGadget::add_targets(builder, &selector_booltarg, msg_targ) {
            Ok(t) => t,
            Err(e) => {
                return Err(e);
            },
        };
        proof {
            assert(builder.gates@ =~= old(builder).gates@ + pod_gadget_gates(
                msg_targ.wire,
                old(builder).num_wires,
            ));
        }
        Ok(
            PODGadgetTargets {
                selector_targ,
                selector_booltarg,
                pk_targ: targets.pk_targ,
                sig_targ: targets.sig_targ,
            },
        )
    }

    /// Writes the concrete selector, key and signature of one proof
    /// instance.  A selector of `0` makes the instance verify the
    /// signature; `1` defers to the recursion layer.  Rejects each
    /// malformed value with its own error; called exactly once,
    /// strictly after construction.
    pub fn set_targets(
        &self,
        pw: &mut PartialWitness,
        selector: u64,
        pod: &PODInput,
    ) -> (r: Result<(), GadgetError>)
        requires
            self.fresh_in(old(pw).values@),
        ensures
            final(pw).values@.len() == old(pw).values@.len(),
            old(pw).wf() ==> final(pw).wf(),
            r is Ok <==> in_field(selector) && in_field(pod.pk) && in_field(pod.sig),
            r is Ok ==> final(pw).values@ == old(pw).values@.update(
                self.selector_targ as int,
                Some(selector),
            ).update(self.pk_targ.wire as int, Some(pod.pk)).update(
                self.sig_targ.wire as int,
                Some(pod.sig),
            ),
            !in_field(selector) ==> r == Result::<(), GadgetError>::Err(
                GadgetError::InvalidSelector,
            ) && *final(pw) == *old(pw),
            in_field(selector) && !in_field(pod.pk) ==> r == Result::<(), GadgetError>::Err(
                GadgetError::InvalidPublicKey,
            ) && final(pw).values@ == old(pw).values@.update(
                self.selector_targ as int,
                Some(selector),
            ),
            in_field(selector) && in_field(pod.pk) && !in_field(pod.sig) ==> r == Result::<
                (),
                GadgetError,
            >::Err(GadgetError::InvalidSignature) && final(pw).values@ == old(pw).values@.update(
                self.selector_targ as int,
                Some(selector),
            ).update(self.pk_targ.wire as int, Some(pod.pk)),
    {
        match pw.set_target(self.selector_targ, selector) {
            Ok(()) => {},
            Err(GadgetError::NotAFieldElement) => {
                return Err(GadgetError::InvalidSelector);
            },
            Err(e) => {
                return Err(e);
            },
        }
        match self.pk_targ.set_witness(pw, pod.pk) {
            Ok(()) => {},
            Err(e) => {
                return Err(e);
            },
        }
        match self.sig_targ.set_witness(pw, pod.sig) {
            Ok(()) => {},
            Err(e) => {
                return Err(e);
            },
        }
        Ok(())
    }
}

} // verus!
