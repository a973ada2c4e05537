//! The circuit adapter: derivation of the public/private variable split,
//! translation of flat wire indices into backend variable handles, and the
//! synthesis protocol that drives any constraint-system backend.

use vstd::prelude::*;

use crate::r1cs_reader::R1CS;
use crate::ConstraintsV;

verus! {

/// Failure of a constraint-system backend: either a variable handle refers
/// to a slot that was never allocated, or an enforced constraint does not
/// hold of the committed assignment.
#[derive(Clone, Copy, Debug, PartialEq, Eq, Structural)]
pub enum SynthesisError {
    AssignmentMissing,
    Unsatisfiable,
}

/// A backend variable handle: a slot in the public (instance) space or in
/// the private (witness) space.
#[derive(Clone, Copy, Debug, PartialEq, Eq, Structural)]
pub enum Variable {
    Instance(usize),
    Witness(usize),
}

impl View for Variable {
    type V = Variable;

    open spec fn view(&self) -> Variable {
        *self
    }
}

impl DeepView for Variable {
    type V = Variable;

    open spec fn deep_view(&self) -> Variable {
        *self
    }
}

/// A linear combination over backend variable handles.
pub type TranslatedLc = Vec<(Variable, u32)>;

/// A translated rank-1 constraint: its A, B and C rows.
pub type TranslatedConstraint = (TranslatedLc, TranslatedLc, TranslatedLc);

/// Mathematical model of a [`TranslatedLc`].
pub type LcV = Seq<(Variable, u32)>;

/// Mathematical model of a [`TranslatedConstraint`].
pub type TranslatedConstraintV = (LcV, LcV, LcV);

/// The one deterministic rule that partitions the flat wire space: indices
/// below `num_inputs` stay in the public space at their own offset (the
/// backend's implicit constant slot 0 included), all others move to the
/// private space at `index - num_inputs`.
pub open spec fn spec_classify(index: usize, num_inputs: usize) -> Variable {
    if index < num_inputs {
        Variable::Instance(index)
    } else {
        Variable::Witness((index - num_inputs) as usize)
    }
}

/// Map a flat wire index to its backend variable handle.
pub fn classify(index: usize, num_inputs: usize) -> (v: Variable)
    ensures
        v == spec_classify(index, num_inputs),
{
    if index < num_inputs {
        Variable::Instance(index)
    } else {
        Variable::Witness(index - num_inputs)
    }
}

/// Translation of one sparse linear combination: every wire index becomes
/// its handle, the coefficients are kept.
pub open spec fn spec_translate_lc(lc: crate::ConstraintVecV, num_inputs: usize) -> LcV {
    lc.map_values(|t: (usize, u32)| (spec_classify(t.0, num_inputs), t.1))
}

/// Translation of a whole constraint list, in file order.
pub open spec fn spec_translate_constraints(cs: Seq<ConstraintsV>, num_inputs: usize) -> Seq<
    TranslatedConstraintV,
> {
    cs.map_values(
        |t: ConstraintsV|
            (
                spec_translate_lc(t.0, num_inputs),
                spec_translate_lc(t.1, num_inputs),
                spec_translate_lc(t.2, num_inputs),
            ),
    )
}

/// `deep_view` distributes over pushing a translated term.
proof fn lemma_lc_push(v: TranslatedLc, w: TranslatedLc, t: (Variable, u32))
    requires
        w@ == v@.push(t),
    ensures
        w.deep_view() == v.deep_view().push(t),
{
    assert(w.deep_view() =~= v.deep_view().push(t));
}

/// Translate one sparse linear combination.
pub fn translate_lc(lc: &crate::ConstraintVec, num_inputs: usize) -> (r: TranslatedLc)
    ensures
        r.deep_view() == spec_translate_lc(lc.deep_view(), num_inputs),
{
    let mut out: TranslatedLc = Vec::new();
    proof {
        assert(out.deep_view() =~= Seq::<(Variable, u32)>::empty());
        assert(spec_translate_lc(lc.deep_view().take(0), num_inputs) =~= Seq::<
            (Variable, u32),
        >::empty());
    }
    let mut i: usize = 0;
    while i < lc.len()
        invariant
            i <= lc@.len(),
            out.deep_view() == spec_translate_lc(lc.deep_view().take(i as int), num_inputs),
        decreases lc@.len() - i,
    {
        let t = lc[i];
        let v = classify(t.0, num_inputs);
        let ghost prev = out;
        out.push((v, t.1));
        proof {
            lemma_lc_push(prev, out, (v, t.1));
            let lcv = lc.deep_view();
            assert(lcv[i as int] == lc@[i as int]);
            assert(lcv.take(i + 1) =~= lcv.take(i as int).push(lcv[i as int]));
            assert(spec_translate_lc(lcv.take(i + 1), num_inputs) =~= spec_translate_lc(
                lcv.take(i as int),
                num_inputs,
            ).push((v, t.1)));
        }
        i = i + 1;
    }
    proof {
        assert(lc.deep_view().take(lc@.len() as int) =~= lc.deep_view());
    }
    out
}

/// The circuit instance handed to synthesis: the derived circuit model and
/// an optional full witness assignment (index 0 being the constant wire).
/// An absent witness means setup mode: variables are still allocated, with
/// the field's one as placeholder value.
#[derive(Clone, Debug)]
pub struct CircomCircuit {
    pub r1cs: R1CS,
    pub witness: Option<Vec<u32>>,
}

/// Mathematical model of a [`CircomCircuit`].
pub struct CircuitV {
    pub r1cs: crate::r1cs_reader::R1csV,
    pub witness: Option<Seq<u32>>,
}

impl View for CircomCircuit {
    type V = CircuitV;

    open spec fn view(&self) -> CircuitV {
        CircuitV { r1cs: self.r1cs@, witness: self.witness.deep_view() }
    }
}

/// Well-formedness of a circuit instance: the public variables include at
/// least the constant wire, the wire space splits exactly into public and
/// private variables, and a witness, when present, assigns every wire.
pub open spec fn circuit_wf(c: CircuitV) -> bool {
    &&& 1 <= c.r1cs.num_inputs
    &&& c.r1cs.num_inputs + c.r1cs.num_aux == c.r1cs.num_variables
    &&& match c.witness {
        None => true,
        Some(w) => w.len() == c.r1cs.num_variables,
    }
}

/// The value committed for wire `i`: the witness entry when a witness is
/// present, else the placeholder one.
pub open spec fn spec_wire_value(w: Option<Seq<u32>>, i: int) -> u32 {
    match w {
        None => 1u32,
        Some(s) => s[i],
    }
}

/// The values allocated as public variables, in order: wires `1` up to
/// `num_inputs`, the constant wire 0 excluded because the backend allocates
/// it itself.
pub open spec fn spec_public_values(c: CircuitV) -> Seq<u32> {
    Seq::new((c.r1cs.num_inputs - 1) as nat, |i: int| spec_wire_value(c.witness, i + 1))
}

/// The values allocated as private variables, in order: wires `num_inputs`
/// up to `num_variables`.
pub open spec fn spec_aux_values(c: CircuitV) -> Seq<u32> {
    Seq::new(c.r1cs.num_aux as nat, |i: int| spec_wire_value(c.witness, c.r1cs.num_inputs + i))
}

/// A constraint-system backend: it allocates public and private variables
/// in the order it is handed them, and records rank-1 constraints over the
/// resulting handles. Each operation may fail with a backend error, which
/// synthesis propagates unchanged.
pub trait ConstraintSystem {
    /// The public variable assignment committed so far (slot 0 being the
    /// backend's implicit constant one).
    spec fn instance(&self) -> Seq<u32>;

    /// The private variable assignment committed so far.
    spec fn witness_vars(&self) -> Seq<u32>;

    /// The constraints enforced so far, in order.
    spec fn constraints(&self) -> Seq<TranslatedConstraintV>;

    /// Allocate the next public variable with the given value.
    fn new_input_variable(&mut self, value: u32) -> (r: Result<(), SynthesisError>)
        ensures
            r matches Ok(_) ==> final(self).instance() == old(self).instance().push(value)
                && final(self).witness_vars() == old(self).witness_vars()
                && final(self).constraints() == old(self).constraints(),
    ;

    /// Allocate the next private variable with the given value.
    fn new_witness_variable(&mut self, value: u32) -> (r: Result<(), SynthesisError>)
        ensures
            r matches Ok(_) ==> final(self).witness_vars() == old(self).witness_vars().push(value)
                && final(self).instance() == old(self).instance() && final(self).constraints()
                == old(self).constraints(),
    ;

    /// Enforce `(a . z) * (b . z) = (c . z)` over the committed assignment.
    fn enforce_constraint(&mut self, a: &TranslatedLc, b: &TranslatedLc, c: &TranslatedLc) -> (r:
        Result<(), SynthesisError>)
        ensures
            r matches Ok(_) ==> final(self).constraints() == old(self).constraints().push(
                (a.deep_view(), b.deep_view(), c.deep_view()),
            ) && final(self).instance() == old(self).instance() && final(self).witness_vars()
                == old(self).witness_vars(),
    ;
}

impl CircomCircuit {
    /// The public-input portion of the witness: wires `1` up to
    /// `num_inputs`, skipping the constant wire; absent when no witness is
    /// present.
    pub fn get_public_inputs(&self) -> (r: Option<Vec<u32>>)
        requires
            circuit_wf(self@),
        ensures
            match r {
                None => self@.witness is None,
                Some(v) => self@.witness matches Some(w) && v@ == w.subrange(
                    1,
                    self.r1cs.num_inputs as int,
                ),
            },
    {
        match &self.witness {
            None => None,
            Some(w) => {
                let mut out: Vec<u32> = Vec::new();
                let mut i: usize = 1;
                while i < self.r1cs.num_inputs
                    invariant
                        1 <= i <= self.r1cs.num_inputs,
                        self.r1cs.num_inputs <= w@.len(),
                        out@.len() == i - 1,
                        forall|j: int| 0 <= j < i - 1 ==> out@[j] == w@[j + 1],
                    decreases self.r1cs.num_inputs - i,
                {
                    out.push(w[i]);
                    i = i + 1;
                }
                proof {
                    assert(out@ =~= w@.subrange(1, self.r1cs.num_inputs as int));
                }
                Some(out)
            },
        }
    }

    /// The values to allocate as public variables, in allocation order.
    pub fn public_values(&self) -> (r: Vec<u32>)
        requires
            circuit_wf(self@),
        ensures
            r@ == spec_public_values(self@),
    {
        let mut out: Vec<u32> = Vec::new();
        let mut i: usize = 1;
        while i < self.r1cs.num_inputs
            invariant
                circuit_wf(self@),
                1 <= i <= self.r1cs.num_inputs,
                out@.len() == i - 1,
                forall|j: int| 0 <= j < i - 1 ==> out@[j] == spec_wire_value(self@.witness, j + 1),
            decreases self.r1cs.num_inputs - i,
        {
            let value = match &self.witness {
                None => 1u32,
                Some(w) => w[i],
            };
            out.push(value);
            i = i + 1;
        }
        proof {
            assert(out@ =~= spec_public_values(self@));
        }
        out
    }

    /// The values to allocate as private variables, in allocation order.
    pub fn aux_values(&self) -> (r: Vec<u32>)
        requires
            circuit_wf(self@),
        ensures
            r@ == spec_aux_values(self@),
    {
        let mut out: Vec<u32> = Vec::new();
        let mut i: usize = 0;
        while i < self.r1cs.num_aux
            invariant
                circuit_wf(self@),
                i <= self.r1cs.num_aux,
                out@.len() == i,
                forall|j: int|
                    0 <= j < i ==> out@[j] == spec_wire_value(
                        self@.witness,
                        self.r1cs.num_inputs + j,
                    ),
            decreases self.r1cs.num_aux - i,
        {
            let value = match &self.witness {
                None => 1u32,
                Some(w) => w[self.r1cs.num_inputs + i],
            };
            out.push(value);
            i = i + 1;
        }
        proof {
            assert(out@ =~= spec_aux_values(self@));
        }
        out
    }

    /// The constraints with every wire index translated to its backend
    /// variable handle, in file order.
    pub fn translated_constraints(&self) -> (r: Vec<TranslatedConstraint>)
        ensures
            r.deep_view() == spec_translate_constraints(
                self.r1cs.constraints.deep_view(),
                self.r1cs.num_inputs,
            ),
    {
        let ni = self.r1cs.num_inputs;
        let ghost csv = self.r1cs.constraints.deep_view();
        let mut out: Vec<TranslatedConstraint> = Vec::new();
        proof {
            assert(out.deep_view() =~= Seq::<TranslatedConstraintV>::empty());
            assert(spec_translate_constraints(csv.take(0), ni) =~= Seq::<
                TranslatedConstraintV,
            >::empty());
        }
        let mut i: usize = 0;
        while i < self.r1cs.constraints.len()
            invariant
                i <= self.r1cs.constraints@.len(),
                ni == self.r1cs.num_inputs,
                csv == self.r1cs.constraints.deep_view(),
                out.deep_view() == spec_translate_constraints(csv.take(i as int), ni),
            decreases self.r1cs.constraints@.len() - i,
        {
            let c = &self.r1cs.constraints[i];
            let a = translate_lc(&c.0, ni);
            let b = translate_lc(&c.1, ni);
            let cc = translate_lc(&c.2, ni);
            let ghost gt = (a.deep_view(), b.deep_view(), cc.deep_view());
            let ghost prev = out;
            out.push((a, b, cc));
            proof {
                assert(out.deep_view() =~= prev.deep_view().push(gt));
                assert(csv[i as int] == self.r1cs.constraints@[i as int].deep_view());
                assert(csv.take(i + 1) =~= csv.take(i as int).push(csv[i as int]));
                assert(spec_translate_constraints(csv.take(i + 1), ni) =~= spec_translate_constraints(
                    csv.take(i as int),
                    ni,
                ).push(gt));
            }
            i = i + 1;
        }
        proof {
            assert(csv.take(self.r1cs.constraints@.len() as int) =~= csv);
        }
        out
    }

    /// Drive a backend through the whole synthesis protocol, in the
    /// load-bearing order: first the public variables for wires `1` up to
    /// `num_inputs` (the backend itself owns slot 0), then the private
    /// variables for the remaining wires, then every constraint in file
    /// order over the translated handles. The first backend failure aborts
    /// synthesis and is returned unchanged; a failed result always came
    /// from a backend call, so a circuit that occasions no call — nothing
    /// to allocate and nothing to enforce — synthesizes without error.
    pub fn generate_constraints<CS: ConstraintSystem>(self, cs: &mut CS) -> (r: Result<
        (),
        SynthesisError,
    >)
        requires
            circuit_wf(self@),
        ensures
            r matches Ok(_) ==> final(cs).instance() == old(cs).instance() + spec_public_values(
                self@,
            ) && final(cs).witness_vars() == old(cs).witness_vars() + spec_aux_values(self@)
                && final(cs).constraints() == old(cs).constraints() + spec_translate_constraints(
                self.r1cs.constraints.deep_view(),
                self.r1cs.num_inputs,
            ),
            spec_public_values(self@).len() == 0 && spec_aux_values(self@).len() == 0
                && self.r1cs.constraints@.len() == 0 ==> r matches Ok(_),
    {
        let pub_vals = self.public_values();
        let mut i: usize = 0;
        while i < pub_vals.len()
            invariant
                i <= pub_vals@.len(),
                pub_vals@ == spec_public_values(self@),
                cs.instance() == old(cs).instance() + pub_vals@.take(i as int),
                cs.witness_vars() == old(cs).witness_vars(),
                cs.constraints() == old(cs).constraints(),
            decreases pub_vals@.len() - i,
        {
            let value = pub_vals[i];
            match cs.new_input_variable(value) {
                Ok(_) => {},
                Err(e) => return Err(e),
            }
            proof {
                assert(pub_vals@.take(i + 1) =~= pub_vals@.take(i as int).push(value));
            }
            i = i + 1;
        }
        proof {
            assert(pub_vals@.take(pub_vals@.len() as int) =~= pub_vals@);
        }
        let aux_vals = self.aux_values();
        let mut i: usize = 0;
        while i < aux_vals.len()
            invariant
                i <= aux_vals@.len(),
                aux_vals@ == spec_aux_values(self@),
                cs.instance() == old(cs).instance() + spec_public_values(self@),
                cs.witness_vars() == old(cs).witness_vars() + aux_vals@.take(i as int),
                cs.constraints() == old(cs).constraints(),
            decreases aux_vals@.len() - i,
        {
            let value = aux_vals[i];
            match cs.new_witness_variable(value) {
                Ok(_) => {},
                Err(e) => return Err(e),
            }
            proof {
                assert(aux_vals@.take(i + 1) =~= aux_vals@.take(i as int).push(value));
            }
            i = i + 1;
        }
        proof {
            assert(aux_vals@.take(aux_vals@.len() as int) =~= aux_vals@);
        }
        let tcs = self.translated_constraints();
        let ghost tcsv = spec_translate_constraints(
            self.r1cs.constraints.deep_view(),
            self.r1cs.num_inputs,
        );
        let mut i: usize = 0;
        while i < tcs.len()
            invariant
                i <= tcs@.len(),
                tcs.deep_view() == tcsv,
                tcs@.len() == tcsv.len(),
                tcsv.len() == self.r1cs.constraints@.len(),
                cs.instance() == old(cs).instance() + spec_public_values(self@),
                cs.witness_vars() == old(cs).witness_vars() + spec_aux_values(self@),
                cs.constraints() == old(cs).constraints() + tcsv.take(i as int),
            decreases tcs@.len() - i,
        {
            let t = &tcs[i];
            match cs.enforce_constraint(&t.0, &t.1, &t.2) {
                Ok(_) => {},
                Err(e) => return Err(e),
            }
            proof {
                assert(tcs@[i as int].deep_view() == tcsv[i as int]);
                assert(tcsv.take(i + 1) =~= tcsv.take(i as int).push(tcsv[i as int]));
            }
            i = i + 1;
        }
        proof {
            assert(tcsv.take(tcsv.len() as int) =~= tcsv);
        }
        Ok(())
    }
}

} // verus!
