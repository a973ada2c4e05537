//! A reference constraint-system backend that commits the handed values
//! directly and checks every enforced constraint against them, over the
//! supported field. Slot 0 of the public space holds the constant one, as
//! every backend implicitly does.

use vstd::prelude::*;

use crate::circuit::{
    circuit_wf, spec_aux_values, spec_public_values, spec_translate_constraints, CircomCircuit,
    CircuitV, ConstraintSystem, SynthesisError, TranslatedConstraintV, TranslatedLc, Variable,
};
use crate::field;
use crate::field::{is_canonical, spec_add, spec_from_u32, spec_mul};

verus! {

/// Whether a handle refers to an allocated slot.
pub open spec fn spec_var_ok(v: Variable, inst_len: nat, wit_len: nat) -> bool {
    match v {
        Variable::Instance(i) => i < inst_len,
        Variable::Witness(i) => i < wit_len,
    }
}

/// The committed value behind a handle (zero for an unallocated slot, but
/// evaluation never relies on that).
pub open spec fn spec_var_value(v: Variable, inst: Seq<u32>, wit: Seq<u32>) -> u32 {
    match v {
        Variable::Instance(i) => if i < inst.len() {
            inst[i as int]
        } else {
            0u32
        },
        Variable::Witness(i) => if i < wit.len() {
            wit[i as int]
        } else {
            0u32
        },
    }
}

/// Whether every handle of a linear combination refers to an allocated
/// slot.
pub open spec fn spec_lc_ok(lc: Seq<(Variable, u32)>, inst_len: nat, wit_len: nat) -> bool {
    forall|j: int| 0 <= j < lc.len() ==> spec_var_ok(#[trigger] lc[j].0, inst_len, wit_len)
}

/// One term's contribution: coefficient times committed value, each read as
/// the field element it denotes.
pub open spec fn spec_term_value(t: (Variable, u32), inst: Seq<u32>, wit: Seq<u32>) -> u32 {
    spec_mul(spec_from_u32(t.1), spec_from_u32(spec_var_value(t.0, inst, wit)))
}

/// The value of a linear combination over the committed assignment: the
/// terms accumulate additively in order, so duplicate handles contribute
/// once per occurrence.
pub open spec fn spec_eval_lc(lc: Seq<(Variable, u32)>, inst: Seq<u32>, wit: Seq<u32>) -> u32
    decreases lc.len(),
{
    if lc.len() == 0 {
        0u32
    } else {
        spec_add(spec_eval_lc(lc.drop_last(), inst, wit), spec_term_value(lc.last(), inst, wit))
    }
}

/// Whether `(a . z) * (b . z) = (c . z)` holds of the committed assignment.
pub open spec fn spec_constraint_holds(
    a: Seq<(Variable, u32)>,
    b: Seq<(Variable, u32)>,
    c: Seq<(Variable, u32)>,
    inst: Seq<u32>,
    wit: Seq<u32>,
) -> bool {
    spec_mul(spec_eval_lc(a, inst, wit), spec_eval_lc(b, inst, wit)) == spec_eval_lc(c, inst, wit)
}

/// The reference backend: the committed public and private assignments and
/// the constraints accepted so far.
#[derive(Debug)]
pub struct EvalConstraintSystem {
    pub instance: Vec<u32>,
    pub witness: Vec<u32>,
    pub constraints: Vec<crate::circuit::TranslatedConstraint>,
}

/// Evaluate a linear combination over the committed assignment, or report
/// the first handle that refers to no allocated slot.
pub fn eval_lc(lc: &TranslatedLc, inst: &Vec<u32>, wit: &Vec<u32>) -> (r: Result<
    u32,
    SynthesisError,
>)
    ensures
        match r {
            Ok(v) => spec_lc_ok(lc.deep_view(), inst@.len(), wit@.len()) && v == spec_eval_lc(
                lc.deep_view(),
                inst@,
                wit@,
            ) && is_canonical(v),
            Err(e) => e == SynthesisError::AssignmentMissing && !spec_lc_ok(
                lc.deep_view(),
                inst@.len(),
                wit@.len(),
            ),
        },
{
    let ghost lcv = lc.deep_view();
    let mut acc: u32 = 0;
    let mut i: usize = 0;
    while i < lc.len()
        invariant
            i <= lc@.len(),
            lcv == lc.deep_view(),
            lcv.len() == lc@.len(),
            acc == spec_eval_lc(lcv.take(i as int), inst@, wit@),
            is_canonical(acc) || acc == 0,
            spec_lc_ok(lcv.take(i as int), inst@.len(), wit@.len()),
        decreases lc@.len() - i,
    {
        let t = lc[i];
        proof {
            assert(lcv[i as int] == lc@[i as int]);
        }
        let value = match t.0 {
            Variable::Instance(k) => {
                if k >= inst.len() {
                    proof {
                        assert(!spec_var_ok(lcv[i as int].0, inst@.len(), wit@.len()));
                    }
                    return Err(SynthesisError::AssignmentMissing);
                }
                inst[k]
            },
            Variable::Witness(k) => {
                if k >= wit.len() {
                    proof {
                        assert(!spec_var_ok(lcv[i as int].0, inst@.len(), wit@.len()));
                    }
                    return Err(SynthesisError::AssignmentMissing);
                }
                wit[k]
            },
        };
        let term = field::mul(field::from_u32(t.1), field::from_u32(value));
        acc = field::add(acc, term);
        proof {
            assert(lcv.take(i + 1).drop_last() =~= lcv.take(i as int));
            assert(lcv.take(i + 1).last() == lcv[i as int]);
            assert(spec_lc_ok(lcv.take(i + 1), inst@.len(), wit@.len()));
        }
        i = i + 1;
    }
    proof {
        assert(lcv.take(lc@.len() as int) =~= lcv);
    }
    Ok(acc)
}

/// Copy a linear combination.
fn copy_lc(lc: &TranslatedLc) -> (r: TranslatedLc)
    ensures
        r@ == lc@,
        r.deep_view() == lc.deep_view(),
{
    let mut out: TranslatedLc = Vec::new();
    let mut i: usize = 0;
    while i < lc.len()
        invariant
            i <= lc@.len(),
            out@ == lc@.take(i as int),
        decreases lc@.len() - i,
    {
        out.push(lc[i]);
        proof {
            assert(lc@.take(i + 1) =~= lc@.take(i as int).push(lc@[i as int]));
        }
        i = i + 1;
    }
    proof {
        assert(lc@.take(lc@.len() as int) =~= lc@);
        assert(out.deep_view() =~= lc.deep_view());
    }
    out
}

impl EvalConstraintSystem {
    /// A fresh backend: the public space already holds the constant one in
    /// slot 0, nothing else is committed.
    pub fn new() -> (r: EvalConstraintSystem)
        ensures
            r.instance@ == seq![1u32],
            r.witness@ == Seq::<u32>::empty(),
            r.constraints.deep_view() == Seq::<TranslatedConstraintV>::empty(),
    {
        let mut instance: Vec<u32> = Vec::new();
        instance.push(1);
        let r = EvalConstraintSystem { instance, witness: Vec::new(), constraints: Vec::new() };
        proof {
            assert(r.instance@ =~= seq![1u32]);
            assert(r.constraints.deep_view() =~= Seq::<TranslatedConstraintV>::empty());
        }
        r
    }
}

impl ConstraintSystem for EvalConstraintSystem {
    open spec fn instance(&self) -> Seq<u32> {
        self.instance@
    }

    open spec fn witness_vars(&self) -> Seq<u32> {
        self.witness@
    }

    open spec fn constraints(&self) -> Seq<TranslatedConstraintV> {
        self.constraints.deep_view()
    }

    /// Allocation in this backend never fails.
    fn new_input_variable(&mut self, value: u32) -> (r: Result<(), SynthesisError>)
        ensures
            r matches Ok(_),
    {
        self.instance.push(value);
        Ok(())
    }

    /// Allocation in this backend never fails.
    fn new_witness_variable(&mut self, value: u32) -> (r: Result<(), SynthesisError>)
        ensures
            r matches Ok(_),
    {
        self.witness.push(value);
        Ok(())
    }

    /// Accepts the constraint exactly when every handle is allocated and
    /// the constraint holds of the committed assignment; a handle out of
    /// range is an assignment error, a violated equality an unsatisfiable
    /// one, and a rejected constraint leaves the backend unchanged.
    fn enforce_constraint(&mut self, a: &TranslatedLc, b: &TranslatedLc, c: &TranslatedLc) -> (r:
        Result<(), SynthesisError>)
        ensures
            ({
                let il = old(self).instance@.len();
                let wl = old(self).witness@.len();
                let lcs_ok = spec_lc_ok(a.deep_view(), il, wl) && spec_lc_ok(b.deep_view(), il, wl)
                    && spec_lc_ok(c.deep_view(), il, wl);
                let sat = spec_constraint_holds(
                    a.deep_view(),
                    b.deep_view(),
                    c.deep_view(),
                    old(self).instance@,
                    old(self).witness@,
                );
                &&& (r matches Ok(_) <==> lcs_ok && sat)
                &&& (r == Err::<(), SynthesisError>(SynthesisError::AssignmentMissing) <==> !lcs_ok)
                &&& (r matches Err(_) ==> *final(self) == *old(self))
            }),
    {
        let va = match eval_lc(a, &self.instance, &self.witness) {
            Ok(v) => v,
            Err(e) => return Err(e),
        };
        let vb = match eval_lc(b, &self.instance, &self.witness) {
            Ok(v) => v,
            Err(e) => return Err(e),
        };
        let vc = match eval_lc(c, &self.instance, &self.witness) {
            Ok(v) => v,
            Err(e) => return Err(e),
        };
        if field::mul(va, vb) != vc {
            return Err(SynthesisError::Unsatisfiable);
        }
        let triple = (copy_lc(a), copy_lc(b), copy_lc(c));
        let ghost prev = self.constraints;
        let ghost gt = (a.deep_view(), b.deep_view(), c.deep_view());
        self.constraints.push(triple);
        proof {
            assert(self.constraints.deep_view() =~= prev.deep_view().push(gt));
        }
        Ok(())
    }
}

/// Whether the circuit is accepted outright: every constraint, translated,
/// refers only to allocated slots of the assignment that synthesis commits
/// — the constant one, then the public values, then the private ones — and
/// holds of that assignment.
pub open spec fn spec_circuit_accepted(c: CircuitV) -> bool {
    let inst = seq![1u32] + spec_public_values(c);
    let wit = spec_aux_values(c);
    let tcs = spec_translate_constraints(c.r1cs.constraints, c.r1cs.num_inputs);
    forall|i: int|
        0 <= i < tcs.len() ==> {
            let t = #[trigger] tcs[i];
            &&& spec_lc_ok(t.0, inst.len(), wit.len())
            &&& spec_lc_ok(t.1, inst.len(), wit.len())
            &&& spec_lc_ok(t.2, inst.len(), wit.len())
            &&& spec_constraint_holds(t.0, t.1, t.2, inst, wit)
        }
}

/// Drive the whole synthesis protocol against a fresh reference backend.
///
/// Against this backend every allocation succeeds and enforcement decides,
/// so the outcome is pinned both ways: synthesis returns the populated
/// backend exactly when the circuit is accepted — in particular, a circuit
/// with no constraints (the empty circuit among them) always synthesizes —
/// and fails exactly when some constraint refers to an unallocated slot or
/// does not hold of the committed assignment, with the error that the
/// failing enforcement call returned.
pub fn synthesize(circuit: CircomCircuit) -> (r: Result<EvalConstraintSystem, SynthesisError>)
    requires
        circuit_wf(circuit@),
    ensures
        r matches Ok(_) <==> spec_circuit_accepted(circuit@),
        r matches Ok(cs) ==> cs.instance@ == seq![1u32] + spec_public_values(circuit@)
            && cs.witness@ == spec_aux_values(circuit@) && cs.constraints.deep_view()
            == spec_translate_constraints(
            circuit.r1cs.constraints.deep_view(),
            circuit.r1cs.num_inputs,
        ),
        r matches Err(e) ==> ({
            let inst = seq![1u32] + spec_public_values(circuit@);
            let wit = spec_aux_values(circuit@);
            let tcs = spec_translate_constraints(circuit@.r1cs.constraints, circuit@.r1cs.num_inputs);
            &&& (e == SynthesisError::AssignmentMissing ==> exists|i: int|
                0 <= i < tcs.len() && !(spec_lc_ok((#[trigger] tcs[i]).0, inst.len(), wit.len())
                    && spec_lc_ok(tcs[i].1, inst.len(), wit.len()) && spec_lc_ok(
                    tcs[i].2,
                    inst.len(),
                    wit.len(),
                )))
            &&& (e == SynthesisError::Unsatisfiable ==> exists|i: int|
                0 <= i < tcs.len() && spec_lc_ok((#[trigger] tcs[i]).0, inst.len(), wit.len())
                    && spec_lc_ok(tcs[i].1, inst.len(), wit.len()) && spec_lc_ok(
                    tcs[i].2,
                    inst.len(),
                    wit.len(),
                ) && !spec_constraint_holds(tcs[i].0, tcs[i].1, tcs[i].2, inst, wit))
        }),
{
    let ghost inst = seq![1u32] + spec_public_values(circuit@);
    let ghost wit = spec_aux_values(circuit@);
    let mut cs = EvalConstraintSystem::new();
    let pub_vals = circuit.public_values();
    let mut i: usize = 0;
    while i < pub_vals.len()
        invariant
            i <= pub_vals@.len(),
            pub_vals@ == spec_public_values(circuit@),
            cs.instance@ == seq![1u32] + pub_vals@.take(i as int),
            cs.witness@ == Seq::<u32>::empty(),
            cs.constraints.deep_view() == Seq::<TranslatedConstraintV>::empty(),
        decreases pub_vals@.len() - i,
    {
        let value = pub_vals[i];
        match cs.new_input_variable(value) {
            Ok(_) => {},
            Err(e) => return Err(e),
        }
        proof {
            assert(seq![1u32] + pub_vals@.take(i + 1) =~= (seq![1u32] + pub_vals@.take(
                i as int,
            )).push(value));
        }
        i = i + 1;
    }
    proof {
        assert(pub_vals@.take(pub_vals@.len() as int) =~= pub_vals@);
    }
    let aux_vals = circuit.aux_values();
    let mut i: usize = 0;
    while i < aux_vals.len()
        invariant
            i <= aux_vals@.len(),
            aux_vals@ == spec_aux_values(circuit@),
            cs.instance@ == inst,
            cs.witness@ == aux_vals@.take(i as int),
            cs.constraints.deep_view() == Seq::<TranslatedConstraintV>::empty(),
        decreases aux_vals@.len() - i,
    {
        let value = aux_vals[i];
        match cs.new_witness_variable(value) {
            Ok(_) => {},
            Err(e) => return Err(e),
        }
        proof {
            assert(aux_vals@.take(i + 1) =~= aux_vals@.take(i as int).push(value));
        }
        i = i + 1;
    }
    proof {
        assert(aux_vals@.take(aux_vals@.len() as int) =~= aux_vals@);
    }
    let tcs = circuit.translated_constraints();
    let ghost tcsv = spec_translate_constraints(
        circuit.r1cs.constraints.deep_view(),
        circuit.r1cs.num_inputs,
    );
    let mut i: usize = 0;
    while i < tcs.len()
        invariant
            i <= tcs@.len(),
            tcs.deep_view() == tcsv,
            tcs@.len() == tcsv.len(),
            tcsv == spec_translate_constraints(circuit.r1cs.constraints.deep_view(), circuit.r1cs.num_inputs),
            inst == seq![1u32] + spec_public_values(circuit@),
            wit == spec_aux_values(circuit@),
            cs.instance@ == inst,
            cs.witness@ == wit,
            cs.constraints.deep_view() == tcsv.take(i as int),
            forall|j: int|
                0 <= j < i ==> {
                    let t = #[trigger] tcsv[j];
                    &&& spec_lc_ok(t.0, inst.len(), wit.len())
                    &&& spec_lc_ok(t.1, inst.len(), wit.len())
                    &&& spec_lc_ok(t.2, inst.len(), wit.len())
                    &&& spec_constraint_holds(t.0, t.1, t.2, inst, wit)
                },
        decreases tcs@.len() - i,
    {
        let t = &tcs[i];
        proof {
            assert(tcs@[i as int].deep_view() == tcsv[i as int]);
        }
        match cs.enforce_constraint(&t.0, &t.1, &t.2) {
            Ok(_) => {},
            Err(e) => {
                proof {
                    assert(!spec_circuit_accepted(circuit@)) by {
                        let tcs_acc = spec_translate_constraints(
                            circuit@.r1cs.constraints,
                            circuit@.r1cs.num_inputs,
                        );
                        assert(tcs_acc == tcsv);
                        let tt = tcs_acc[i as int];
                        assert(t.0.deep_view() == tt.0);
                        assert(t.1.deep_view() == tt.1);
                        assert(t.2.deep_view() == tt.2);
                        assert(seq![1u32] + spec_public_values(circuit@) == inst);
                        assert(spec_aux_values(circuit@) == wit);
                        assert(!(spec_lc_ok(tt.0, inst.len(), wit.len()) && spec_lc_ok(
                            tt.1,
                            inst.len(),
                            wit.len(),
                        ) && spec_lc_ok(tt.2, inst.len(), wit.len()) && spec_constraint_holds(
                            tt.0,
                            tt.1,
                            tt.2,
                            inst,
                            wit,
                        )));
                        assert((i as int) < tcs_acc.len());
                    }
                    assert(e == SynthesisError::AssignmentMissing ==> !(spec_lc_ok(
                        tcsv[i as int].0,
                        inst.len(),
                        wit.len(),
                    ) && spec_lc_ok(tcsv[i as int].1, inst.len(), wit.len()) && spec_lc_ok(
                        tcsv[i as int].2,
                        inst.len(),
                        wit.len(),
                    )));
                    assert(e == SynthesisError::Unsatisfiable ==> spec_lc_ok(
                        tcsv[i as int].0,
                        inst.len(),
                        wit.len(),
                    ) && spec_lc_ok(tcsv[i as int].1, inst.len(), wit.len()) && spec_lc_ok(
                        tcsv[i as int].2,
                        inst.len(),
                        wit.len(),
                    ) && !spec_constraint_holds(
                        tcsv[i as int].0,
                        tcsv[i as int].1,
                        tcsv[i as int].2,
                        inst,
                        wit,
                    ));
                }
                return Err(e);
            },
        }
        proof {
            assert(tcsv.take(i + 1) =~= tcsv.take(i as int).push(tcsv[i as int]));
        }
        i = i + 1;
    }
    proof {
        assert(tcsv.take(tcsv.len() as int) =~= tcsv);
        assert(spec_circuit_accepted(circuit@));
    }
    Ok(cs)
}

} // verus!
