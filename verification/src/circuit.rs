use crate::backend::Constraint;
use crate::backend::ConstraintStore;
use crate::backend::SystemModel;
use crate::backend::Var;
use crate::error::CircuitError;
use crate::gadget::constant;
use crate::gadget::constant_of;
use crate::gadget::constrain;
use crate::gadget::difference;
use crate::gadget::difference_of;
use crate::gadget::enforce_reduction;
use crate::gadget::exact;
use crate::gadget::input;
use crate::gadget::reduced;
use crate::gadget::reduction_constraints;
use crate::gadget::reduction_values;
use crate::gadget::room_for;
use crate::gadget::witness;
use crate::gadget::Reduction;
use crate::model::grown;
use crate::model::has_room;
use crate::model::lemma_constraints_append;
use crate::model::lemma_constraints_shape;
use crate::model::lemma_inputs_append;
use crate::model::lemma_no_constraints;
use crate::model::lemma_witnesses_append;
use crate::model::lemma_witnesses_pass_constraints;
use crate::model::with_constraints;
use crate::model::with_inputs;
use crate::model::with_witnesses;
use crate::utils::has_inverse;
use crate::utils::inverse;
use crate::utils::modular_exponentiation;
use crate::utils::modular_inverse;
use crate::utils::mul_mod;
use vstd::arithmetic::power::pow;
use vstd::prelude::*;

verus! {

/// The public values of one DSA signature check: the public key `y`, the
/// message digest `h_x`, the signature `(r, s)`, and the parameters `p`, `q`
/// and `g`.
#[derive(Clone, Copy, Debug, PartialEq, Eq)]
pub struct DSAVerificationCircuit {
    pub y: u64,
    pub h_x: u64,
    pub r: u64,
    pub s: u64,
    pub p: u64,
    pub q: u64,
    pub g: u64,
}

/// The integers that a prover computes for one signature check, outside the
/// constraint system.
#[derive(Clone, Copy, Debug, PartialEq, Eq)]
pub struct WitnessBundle {
    /// The inverse of `s` modulo `q`.
    pub w: u64,
    /// `h_x * w` modulo `q`.
    pub u1: u64,
    /// `r * w` modulo `q`.
    pub u2: u64,
    /// `g` to the power `u1`, modulo `p`.
    pub g_u1: u64,
    /// `y` to the power `u2`, modulo `p`.
    pub y_u2: u64,
    /// `g_u1 * y_u2` modulo `p`.
    pub v: u64,
    /// `v` modulo `q`.
    pub v_mod_q: u64,
    /// `r` modulo `q`.
    pub r_mod_q: u64,
}

/// The variables of the public inputs.
#[derive(Clone, Copy, Debug, PartialEq, Eq)]
pub struct InputVars {
    pub y: Var,
    pub h_x: Var,
    pub r: Var,
    pub s: Var,
    pub p: Var,
    pub q: Var,
    pub g: Var,
}

/// The variables of the witness bundle.
#[derive(Clone, Copy, Debug, PartialEq, Eq)]
pub struct BundleVars {
    pub w: Var,
    pub u1: Var,
    pub u2: Var,
    pub g_u1: Var,
    pub y_u2: Var,
    pub v: Var,
    pub v_mod_q: Var,
    pub r_mod_q: Var,
}

/// The variables of the public inputs, where they start at the index `first`.
pub open spec fn input_vars(first: nat) -> InputVars {
    InputVars {
        y: Var::Instance(first as usize),
        h_x: Var::Instance((first + 1) as usize),
        r: Var::Instance((first + 2) as usize),
        s: Var::Instance((first + 3) as usize),
        p: Var::Instance((first + 4) as usize),
        q: Var::Instance((first + 5) as usize),
        g: Var::Instance((first + 6) as usize),
    }
}

/// The variables of the witness bundle, where they start at the index `first`.
pub open spec fn bundle_vars(first: nat) -> BundleVars {
    BundleVars {
        w: Var::Witness(first as usize),
        u1: Var::Witness((first + 1) as usize),
        u2: Var::Witness((first + 2) as usize),
        g_u1: Var::Witness((first + 3) as usize),
        y_u2: Var::Witness((first + 4) as usize),
        v: Var::Witness((first + 5) as usize),
        v_mod_q: Var::Witness((first + 6) as usize),
        r_mod_q: Var::Witness((first + 7) as usize),
    }
}

/// The constraints of the circuit, for public inputs that start at the index
/// `inputs` and witnesses that start at the index `witnesses`: four
/// reductions, for `w * s` with the remainder one, for `h_x * w` with the
/// remainder `u1`, for `r * w` with the remainder `u2`, all three modulo `q`,
/// and for `g_u1 * y_u2` modulo `p` with the remainder `v`; then the equality
/// of `v_mod_q` and `r_mod_q`.
pub open spec fn circuit_constraints(inputs: nat, witnesses: nat) -> Seq<Constraint> {
    let i = input_vars(inputs);
    let b = bundle_vars(witnesses);
    reduction_constraints(b.w, i.s, i.q, Var::One, witnesses + 8) + reduction_constraints(
        i.h_x,
        b.w,
        i.q,
        b.u1,
        witnesses + 12,
    ) + reduction_constraints(i.r, b.w, i.q, b.u2, witnesses + 16) + reduction_constraints(
        b.g_u1,
        b.y_u2,
        i.p,
        b.v,
        witnesses + 20,
    ) + seq![Constraint { a: difference(b.v_mod_q, b.r_mod_q), b: constant(1), c: constant(0) }]
}

impl WitnessBundle {
    /// The eight values of the bundle, in the order in which they are
    /// allocated.
    pub open spec fn values(self) -> Seq<nat> {
        seq![
            self.w as nat,
            self.u1 as nat,
            self.u2 as nat,
            self.g_u1 as nat,
            self.y_u2 as nat,
            self.v as nat,
            self.v_mod_q as nat,
            self.r_mod_q as nat,
        ]
    }

    /// Allocates the eight values of the bundle as witnesses.
    fn allocate(&self, store: &mut ConstraintStore) -> (res: Result<BundleVars, CircuitError>)
        requires
            old(store)@.witness_count + 8 <= usize::MAX,
        ensures
            res is Ok <==> old(store)@.attached,
            res matches Ok(vars) ==> vars == bundle_vars(old(store)@.witness_count) && final(store)@
                == with_witnesses(old(store)@, self.values()),
            res matches Err(e) ==> e is Backend && final(store)@ == old(store)@,
    {
        let ghost start = store@;
        let ghost own = self.values();
        let w = witness(store, self.w as u128)?;
        let u1 = witness(store, self.u1 as u128)?;
        let u2 = witness(store, self.u2 as u128)?;
        let g_u1 = witness(store, self.g_u1 as u128)?;
        let y_u2 = witness(store, self.y_u2 as u128)?;
        let v = witness(store, self.v as u128)?;
        let v_mod_q = witness(store, self.v_mod_q as u128)?;
        let r_mod_q = witness(store, self.r_mod_q as u128)?;
        proof {
            lemma_witnesses_append(start, seq![own[0]], seq![own[1]]);
            lemma_witnesses_append(start, own.take(2), seq![own[2]]);
            lemma_witnesses_append(start, own.take(3), seq![own[3]]);
            lemma_witnesses_append(start, own.take(4), seq![own[4]]);
            lemma_witnesses_append(start, own.take(5), seq![own[5]]);
            lemma_witnesses_append(start, own.take(6), seq![own[6]]);
            lemma_witnesses_append(start, own.take(7), seq![own[7]]);
            assert(seq![own[0]] + seq![own[1]] =~= own.take(2));
            assert(own.take(2) + seq![own[2]] =~= own.take(3));
            assert(own.take(3) + seq![own[3]] =~= own.take(4));
            assert(own.take(4) + seq![own[4]] =~= own.take(5));
            assert(own.take(5) + seq![own[5]] =~= own.take(6));
            assert(own.take(6) + seq![own[6]] =~= own.take(7));
            assert(own.take(7) + seq![own[7]] =~= own);
        }
        Ok(BundleVars { w, u1, u2, g_u1, y_u2, v, v_mod_q, r_mod_q })
    }
}

impl DSAVerificationCircuit {
    /// The public inputs, in the order that binds prover and verifier.
    pub open spec fn public_inputs(self) -> Seq<nat> {
        seq![
            self.y as nat,
            self.h_x as nat,
            self.r as nat,
            self.s as nat,
            self.p as nat,
            self.q as nat,
            self.g as nat,
        ]
    }

    /// The witness bundle of an honest prover.
    pub open spec fn honest_witness(self) -> WitnessBundle {
        let w = inverse(self.s as int, self.q as int);
        let u1 = (self.h_x * w) % (self.q as int);
        let u2 = (self.r * w) % (self.q as int);
        let g_u1 = pow(self.g as int, u1 as nat) % (self.p as int);
        let y_u2 = pow(self.y as int, u2 as nat) % (self.p as int);
        let v = (g_u1 * y_u2) % (self.p as int);
        WitnessBundle {
            w: w as u64,
            u1: u1 as u64,
            u2: u2 as u64,
            g_u1: g_u1 as u64,
            y_u2: y_u2 as u64,
            v: v as u64,
            v_mod_q: (v % (self.q as int)) as u64,
            r_mod_q: (self.r as int % (self.q as int)) as u64,
        }
    }

    /// All the witnesses of the circuit, in the order in which they are
    /// allocated: the bundle, then the values of the four reductions.
    pub open spec fn witness_values(self, bundle: WitnessBundle) -> Seq<nat> {
        bundle.values() + reduction_values(
            exact(bundle.w as int, self.s as int, self.q as int),
        ) + reduction_values(exact(self.h_x as int, bundle.w as int, self.q as int))
            + reduction_values(exact(self.r as int, bundle.w as int, self.q as int))
            + reduction_values(exact(bundle.g_u1 as int, bundle.y_u2 as int, self.p as int))
    }

    /// The model after the circuit was synthesized with the bundle: it has
    /// gained seven public inputs, twenty-four witnesses and seventeen
    /// constraints.
    pub open spec fn synthesized(self, m: SystemModel, bundle: WitnessBundle) -> SystemModel {
        with_constraints(
            with_witnesses(with_inputs(m, self.public_inputs()), self.witness_values(bundle)),
            circuit_constraints(m.instance_count, m.witness_count),
        )
    }

    /// Computes the witness bundle in true integers. There is none where `s`
    /// has no inverse modulo `q`, nor for the modulus `p` zero.
    pub fn compute_witness(&self) -> (res: Result<WitnessBundle, CircuitError>)
        ensures
            res is Ok <==> has_inverse(self.s as int, self.q as int) && self.p > 0,
            res matches Ok(bundle) ==> bundle == self.honest_witness(),
            res matches Err(e) ==> e == (if has_inverse(self.s as int, self.q as int) {
                CircuitError::ZeroModulus
            } else {
                CircuitError::NoInverse
            }),
    {
        let w = modular_inverse(self.s, self.q)?;
        if self.p == 0 {
            return Err(CircuitError::ZeroModulus);
        }
        let u1 = mul_mod(self.h_x, w, self.q);
        let u2 = mul_mod(self.r, w, self.q);
        let g_u1 = modular_exponentiation(self.g, u1, self.p);
        let y_u2 = modular_exponentiation(self.y, u2, self.p);
        let v = mul_mod(g_u1, y_u2, self.p);
        let v_mod_q = v % self.q;
        let r_mod_q = self.r % self.q;
        Ok(WitnessBundle { w, u1, u2, g_u1, y_u2, v, v_mod_q, r_mod_q })
    }

    /// Hands the circuit over to the constraint system, with the bundle as
    /// it is given: seven public inputs, the bundle's eight values as
    /// witnesses, and the four reductions with the final equality. The
    /// reductions are computed here in true integers, so a zero modulus is
    /// refused. Nothing ties `g_u1` and `y_u2` to the exponents, nor
    /// `v_mod_q` and `r_mod_q` to `v` and `r`.
    pub fn emit_constraints(&self, bundle: &WitnessBundle, store: &mut ConstraintStore) -> (res:
        Result<(), CircuitError>)
        ensures
            res is Ok <==> self.p > 0 && self.q > 0 && has_room(old(store)@, 7, 24, 17)
                && old(store)@.attached,
            res is Ok ==> final(store)@ == self.synthesized(old(store)@, *bundle),
            res is Ok ==> grown(old(store)@, final(store)@, 7, 24, 17),
            res matches Err(e) ==> final(store)@ == old(store)@ && (if self.p == 0 || self.q == 0 {
                e == CircuitError::ZeroModulus
            } else if !has_room(old(store)@, 7, 24, 17) {
                e == CircuitError::Exhausted
            } else {
                e is Backend
            }),
    {
        let first = Reduction::of(bundle.w, self.s, self.q)?;
        let second = Reduction::of(self.h_x, bundle.w, self.q)?;
        let third = Reduction::of(self.r, bundle.w, self.q)?;
        let fourth = Reduction::of(bundle.g_u1, bundle.y_u2, self.p)?;
        if !room_for(store, 7, 24, 17) {
            return Err(CircuitError::Exhausted);
        }
        let ins = self.allocate_inputs(store)?;
        let ghost base = store@;
        let own = bundle.allocate(store)?;
        proof {
            let more = reduction_values(first) + reduction_values(second) + reduction_values(third)
                + reduction_values(fourth);
            lemma_witnesses_append(base, bundle.values(), more);
            assert(bundle.values() + more =~= self.witness_values(*bundle));
        }
        constrain_circuit(store, &ins, &own, &first, &second, &third, &fourth)
    }

    /// Allocates the seven public inputs, in their fixed order.
    fn allocate_inputs(&self, store: &mut ConstraintStore) -> (res: Result<InputVars, CircuitError>)
        requires
            old(store)@.instance_count + 7 <= usize::MAX,
        ensures
            res is Ok <==> old(store)@.attached,
            res matches Ok(vars) ==> vars == input_vars(old(store)@.instance_count) && final(store)@
                == with_inputs(old(store)@, self.public_inputs()),
            res matches Err(e) ==> e is Backend && final(store)@ == old(store)@,
    {
        let ghost start = store@;
        let ghost ins = self.public_inputs();
        let y = input(store, self.y)?;
        let h_x = input(store, self.h_x)?;
        let r = input(store, self.r)?;
        let s = input(store, self.s)?;
        let p = input(store, self.p)?;
        let q = input(store, self.q)?;
        let g = input(store, self.g)?;
        proof {
            lemma_inputs_append(start, seq![ins[0]], seq![ins[1]]);
            lemma_inputs_append(start, ins.take(2), seq![ins[2]]);
            lemma_inputs_append(start, ins.take(3), seq![ins[3]]);
            lemma_inputs_append(start, ins.take(4), seq![ins[4]]);
            lemma_inputs_append(start, ins.take(5), seq![ins[5]]);
            lemma_inputs_append(start, ins.take(6), seq![ins[6]]);
            assert(seq![ins[0]] + seq![ins[1]] =~= ins.take(2));
            assert(ins.take(2) + seq![ins[2]] =~= ins.take(3));
            assert(ins.take(3) + seq![ins[3]] =~= ins.take(4));
            assert(ins.take(4) + seq![ins[4]] =~= ins.take(5));
            assert(ins.take(5) + seq![ins[5]] =~= ins.take(6));
            assert(ins.take(6) + seq![ins[6]] =~= ins);
        }
        Ok(InputVars { y, h_x, r, s, p, q, g })
    }

    /// Synthesizes the circuit: computes the honest witness bundle and hands
    /// the circuit over with it. Nothing is handed over unless all of it can
    /// be.
    pub fn generate_constraints(self, store: &mut ConstraintStore) -> (res: Result<(), CircuitError>)
        ensures
            res is Ok <==> has_inverse(self.s as int, self.q as int) && self.p > 0 && has_room(
                old(store)@,
                7,
                24,
                17,
            ) && old(store)@.attached,
            res is Ok ==> final(store)@ == self.synthesized(old(store)@, self.honest_witness()),
            res is Ok ==> grown(old(store)@, final(store)@, 7, 24, 17),
            res matches Err(e) ==> final(store)@ == old(store)@ && (if !has_inverse(
                self.s as int,
                self.q as int,
            ) {
                e == CircuitError::NoInverse
            } else if self.p == 0 {
                e == CircuitError::ZeroModulus
            } else if !has_room(old(store)@, 7, 24, 17) {
                e == CircuitError::Exhausted
            } else {
                e is Backend
            }),
    {
        let bundle = self.compute_witness()?;
        self.emit_constraints(&bundle, store)
    }
}

/// A reduction that follows witnesses and constraints joins them.
proof fn lemma_reduction_joins(
    m: SystemModel,
    ws: Seq<nat>,
    ks: Seq<Constraint>,
    left: Var,
    right: Var,
    modulus: Var,
    expected: Var,
    values: Reduction,
)
    ensures
        reduced(
            with_constraints(with_witnesses(m, ws), ks),
            left,
            right,
            modulus,
            expected,
            values,
        ) == with_constraints(
            with_witnesses(m, ws + reduction_values(values)),
            ks + reduction_constraints(left, right, modulus, expected, m.witness_count + ws.len()),
        ),
{
    let more = reduction_values(values);
    let added = reduction_constraints(left, right, modulus, expected, m.witness_count + ws.len());
    lemma_constraints_shape(with_witnesses(m, ws), ks);
    lemma_witnesses_pass_constraints(with_witnesses(m, ws), ks, more);
    lemma_witnesses_append(m, ws, more);
    lemma_constraints_append(with_witnesses(m, ws + more), ks, added);
}

/// The constraints of the circuit over variables that are allocated: the four
/// reductions with their witnesses, then the final equality.
fn constrain_circuit(
    store: &mut ConstraintStore,
    ins: &InputVars,
    own: &BundleVars,
    first: &Reduction,
    second: &Reduction,
    third: &Reduction,
    fourth: &Reduction,
) -> (res: Result<(), CircuitError>)
    requires
        old(store)@.attached,
        has_room(old(store)@, 0, 16, 17),
        old(store)@.instance_count >= 7,
        old(store)@.witness_count >= 8,
        *ins == input_vars((old(store)@.instance_count - 7) as nat),
        *own == bundle_vars((old(store)@.witness_count - 8) as nat),
    ensures
        res is Ok,
        grown(old(store)@, final(store)@, 0, 16, 17),
        final(store)@ == with_constraints(
            with_witnesses(
                old(store)@,
                reduction_values(*first) + reduction_values(*second) + reduction_values(*third)
                    + reduction_values(*fourth),
            ),
            circuit_constraints(
                (old(store)@.instance_count - 7) as nat,
                (old(store)@.witness_count - 8) as nat,
            ),
        ),
{
    let ghost start = store@;
    let ghost n = start.witness_count;
    let ghost none = Seq::<Constraint>::empty();
    let ghost k1 = reduction_constraints(own.w, ins.s, ins.q, Var::One, n);
    let ghost k2 = reduction_constraints(ins.h_x, own.w, ins.q, own.u1, n + 4);
    let ghost k3 = reduction_constraints(ins.r, own.w, ins.q, own.u2, n + 8);
    let ghost k4 = reduction_constraints(own.g_u1, own.y_u2, ins.p, own.v, n + 12);
    let ghost w1 = reduction_values(*first);
    let ghost w2 = w1 + reduction_values(*second);
    let ghost w3 = w2 + reduction_values(*third);
    let ghost w4 = w3 + reduction_values(*fourth);
    proof {
        lemma_no_constraints(start);
        assert(with_witnesses(start, Seq::<nat>::empty()) =~= start);
        lemma_reduction_joins(start, Seq::empty(), none, own.w, ins.s, ins.q, Var::One, *first);
        assert(Seq::<nat>::empty() + reduction_values(*first) =~= w1);
        assert(none + k1 =~= k1);
        lemma_reduction_joins(start, w1, k1, ins.h_x, own.w, ins.q, own.u1, *second);
        lemma_reduction_joins(start, w2, k1 + k2, ins.r, own.w, ins.q, own.u2, *third);
        lemma_reduction_joins(start, w3, k1 + k2 + k3, own.g_u1, own.y_u2, ins.p, own.v, *fourth);
    }
    enforce_reduction(store, own.w, ins.s, ins.q, Var::One, first)?;
    assert(store@ == with_constraints(with_witnesses(start, w1), k1));
    enforce_reduction(store, ins.h_x, own.w, ins.q, own.u1, second)?;
    assert(store@ == with_constraints(with_witnesses(start, w2), k1 + k2));
    enforce_reduction(store, ins.r, own.w, ins.q, own.u2, third)?;
    assert(store@ == with_constraints(with_witnesses(start, w3), k1 + k2 + k3));
    enforce_reduction(store, own.g_u1, own.y_u2, ins.p, own.v, fourth)?;
    assert(store@ == with_constraints(with_witnesses(start, w4), k1 + k2 + k3 + k4));
    let ghost last = Constraint {
        a: difference(own.v_mod_q, own.r_mod_q),
        b: constant(1),
        c: constant(0),
    };
    proof {
        lemma_constraints_append(with_witnesses(start, w4), k1 + k2 + k3 + k4, seq![last]);
    }
    constrain(
        store,
        difference_of(own.v_mod_q, own.r_mod_q),
        constant_of(true),
        constant_of(false),
    )?;
    Ok(())
}

} // verus!
