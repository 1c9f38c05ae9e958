use crate::backend::combination_count;
use crate::backend::constraint_count;
use crate::backend::empty;
use crate::backend::enforce;
use crate::backend::extend;
use crate::backend::instance_count;
use crate::backend::keeps_constraints;
use crate::backend::new_input;
use crate::backend::new_witness;
use crate::backend::placed;
use crate::backend::residue;
use crate::backend::witness_count;
use crate::backend::Combination;
use crate::backend::Constraint;
use crate::backend::ConstraintStore;
use crate::backend::SystemModel;
use crate::backend::Term;
use crate::backend::Var;
use crate::error::CircuitError;
use crate::model::grown;
use crate::model::has_room;
use crate::model::lemma_constraints_append;
use crate::model::lemma_constraints_shape;
use crate::model::lemma_one_constraint;
use crate::model::lemma_one_input;
use crate::model::lemma_one_witness;
use crate::model::lemma_witnesses_append;
use crate::model::with_constraints;
use crate::model::with_inputs;
use crate::model::with_witnesses;
use vstd::arithmetic::div_mod::lemma_fundamental_div_mod;
use vstd::arithmetic::div_mod::lemma_mod_bound;
use vstd::arithmetic::div_mod::lemma_small_mod;
use vstd::prelude::*;

verus! {

/// What a prover supplies to one modular reduction: a product, and a quotient
/// and a remainder of it by the modulus, with the quotient's multiple of the
/// modulus.
#[derive(Clone, Copy, Debug, PartialEq, Eq)]
pub struct Reduction {
    pub product: u128,
    pub remainder: u128,
    pub quotient: u128,
    pub multiple: u128,
}

/// The values are those of true integer division of `left * right` by
/// `modulus`.
pub open spec fn is_exact(values: Reduction, left: int, right: int, modulus: int) -> bool {
    &&& values.product == left * right
    &&& values.remainder == (left * right) % modulus
    &&& values.quotient == (left * right) / modulus
    &&& values.multiple == modulus * ((left * right) / modulus)
}

/// The values of true integer division of `left * right` by `modulus`.
pub open spec fn exact(left: int, right: int, modulus: int) -> Reduction {
    Reduction {
        product: (left * right) as u128,
        remainder: ((left * right) % modulus) as u128,
        quotient: ((left * right) / modulus) as u128,
        multiple: (modulus * ((left * right) / modulus)) as u128,
    }
}

/// The combination that is the variable `v` alone.
pub open spec fn single(v: Var) -> Seq<Term> {
    placed(Seq::empty(), Term { coeff: 1, var: v })
}

/// The combination `a - b`.
pub open spec fn difference(a: Var, b: Var) -> Seq<Term> {
    placed(single(a), Term { coeff: residue(-1), var: b })
}

/// The combination that is the constant `c`.
pub open spec fn constant(c: nat) -> Seq<Term> {
    placed(Seq::empty(), Term { coeff: c, var: Var::One })
}

/// The witnesses of one reduction, in the order in which they are allocated.
pub open spec fn reduction_values(values: Reduction) -> Seq<nat> {
    seq![
        values.product as nat,
        values.remainder as nat,
        values.quotient as nat,
        values.multiple as nat,
    ]
}

/// The constraints of one reduction, whose four witnesses start at the index
/// `base`: the product of `left` and `right`; the quotient's multiple of the
/// modulus; the remainder as what the multiple leaves of the product; and the
/// remainder as what was expected.
pub open spec fn reduction_constraints(
    left: Var,
    right: Var,
    modulus: Var,
    expected: Var,
    base: nat,
) -> Seq<Constraint> {
    let product = Var::Witness(base as usize);
    let remainder = Var::Witness((base + 1) as usize);
    let quotient = Var::Witness((base + 2) as usize);
    let multiple = Var::Witness((base + 3) as usize);
    seq![
        Constraint { a: single(left), b: single(right), c: single(product) },
        Constraint { a: single(modulus), b: single(quotient), c: single(multiple) },
        Constraint { a: difference(product, multiple), b: constant(1), c: single(remainder) },
        Constraint { a: difference(remainder, expected), b: constant(1), c: constant(0) },
    ]
}

/// The model after one reduction.
pub open spec fn reduced(
    m: SystemModel,
    left: Var,
    right: Var,
    modulus: Var,
    expected: Var,
    values: Reduction,
) -> SystemModel {
    with_constraints(
        with_witnesses(m, reduction_values(values)),
        reduction_constraints(left, right, modulus, expected, m.witness_count),
    )
}

impl Reduction {
    /// The reduction of `left * right` by `modulus`, in true integers.
    pub fn of(left: u64, right: u64, modulus: u64) -> (res: Result<Reduction, CircuitError>)
        ensures
            res is Err <==> modulus == 0,
            res matches Err(e) ==> e == CircuitError::ZeroModulus,
            res matches Ok(values) ==> values == exact(left as int, right as int, modulus as int)
                && is_exact(values, left as int, right as int, modulus as int),
    {
        if modulus == 0 {
            return Err(CircuitError::ZeroModulus);
        }
        proof {
            assert(left * right <= 0xffff_ffff_ffff_ffff * 0xffff_ffff_ffff_ffff)
                by (nonlinear_arith)
                requires
                    left <= 0xffff_ffff_ffff_ffff,
                    right <= 0xffff_ffff_ffff_ffff,
            ;
            lemma_fundamental_div_mod(left * right, modulus as int);
            lemma_mod_bound(left * right, modulus as int);
        }
        let product: u128 = (left as u128) * (right as u128);
        let wide: u128 = modulus as u128;
        let quotient: u128 = product / wide;
        Ok(Reduction { product, remainder: product % wide, quotient, multiple: wide * quotient })
    }
}

/// Whether the counters have room for so many more inputs, witnesses and
/// constraints.
pub(crate) fn room_for(
    store: &ConstraintStore,
    inputs: usize,
    witnesses: usize,
    constraints: usize,
) -> (ok: bool)
    requires
        constraints <= 1000,
    ensures
        ok == has_room(store@, inputs as nat, witnesses as nat, constraints as nat),
{
    let keys: usize = 3 * constraints;
    instance_count(store) <= usize::MAX - inputs && witness_count(store) <= usize::MAX - witnesses
        && constraint_count(store) <= usize::MAX - constraints && (!keeps_constraints(store)
        || combination_count(store) <= usize::MAX - keys)
}

/// Allocates a public input.
pub(crate) fn input(store: &mut ConstraintStore, value: u64) -> (res: Result<Var, CircuitError>)
    requires
        old(store)@.instance_count < usize::MAX,
    ensures
        res is Ok <==> old(store)@.attached,
        res matches Ok(v) ==> v == Var::Instance(old(store)@.instance_count as usize)
            && final(store)@ == with_inputs(old(store)@, seq![value as nat]),
        res matches Err(e) ==> e is Backend && final(store)@ == old(store)@,
{
    proof {
        lemma_one_input(store@, value as nat);
    }
    match new_input(store, value) {
        Ok(v) => Ok(v),
        Err(e) => Err(CircuitError::Backend(e)),
    }
}

/// Allocates a private witness.
pub(crate) fn witness(store: &mut ConstraintStore, value: u128) -> (res: Result<Var, CircuitError>)
    requires
        old(store)@.witness_count < usize::MAX,
    ensures
        res is Ok <==> old(store)@.attached,
        res matches Ok(v) ==> v == Var::Witness(old(store)@.witness_count as usize)
            && final(store)@ == with_witnesses(old(store)@, seq![value as nat]),
        res matches Err(e) ==> e is Backend && final(store)@ == old(store)@,
{
    proof {
        lemma_one_witness(store@, value as nat);
    }
    match new_witness(store, value) {
        Ok(v) => Ok(v),
        Err(e) => Err(CircuitError::Backend(e)),
    }
}

/// Hands over the constraint `a * b = c`.
pub(crate) fn constrain(
    store: &mut ConstraintStore,
    a: Combination,
    b: Combination,
    c: Combination,
) -> (res: Result<(), CircuitError>)
    requires
        old(store)@.constraint_count < usize::MAX,
        old(store)@.records ==> old(store)@.combination_count + 3 <= usize::MAX,
    ensures
        res is Ok <==> old(store)@.attached,
        res is Ok ==> final(store)@ == with_constraints(
            old(store)@,
            seq![Constraint { a: a@, b: b@, c: c@ }],
        ),
        res is Ok ==> grown(old(store)@, final(store)@, 0, 0, 1),
        res matches Err(e) ==> e is Backend && final(store)@ == old(store)@,
{
    proof {
        lemma_one_constraint(store@, Constraint { a: a@, b: b@, c: c@ });
        lemma_constraints_shape(store@, seq![Constraint { a: a@, b: b@, c: c@ }]);
    }
    match enforce(store, a, b, c) {
        Ok(()) => Ok(()),
        Err(e) => Err(CircuitError::Backend(e)),
    }
}

/// Builds the combination that is the variable `v` alone.
pub(crate) fn single_of(v: Var) -> (lc: Combination)
    requires
        !(v is SymbolicLc),
    ensures
        lc@ == single(v),
{
    proof {
        lemma_small_mod(1, crate::backend::field_order());
    }
    extend(empty(), 1, v)
}

/// Builds the combination `a - b`.
pub(crate) fn difference_of(a: Var, b: Var) -> (lc: Combination)
    requires
        !(a is SymbolicLc),
        !(b is SymbolicLc),
    ensures
        lc@ == difference(a, b),
{
    let first = single_of(a);
    extend(first, -1, b)
}

/// Builds the combination that is the constant zero or one.
pub(crate) fn constant_of(bit: bool) -> (lc: Combination)
    ensures
        lc@ == constant(if bit { 1nat } else { 0nat }),
{
    proof {
        lemma_small_mod(1, crate::backend::field_order());
        lemma_small_mod(0, crate::backend::field_order());
    }
    if bit {
        extend(empty(), 1, Var::One)
    } else {
        extend(empty(), 0, Var::One)
    }
}

/// The modular-reduction gadget. It takes four witnesses for the values that
/// the prover supplies and ties them by four constraints to the operands
/// `left` and `right`, to `modulus` and to the remainder that is `expected`.
/// Nothing bounds the remainder by the modulus.
pub fn enforce_reduction(
    store: &mut ConstraintStore,
    left: Var,
    right: Var,
    modulus: Var,
    expected: Var,
    values: &Reduction,
) -> (res: Result<(), CircuitError>)
    requires
        !(left is SymbolicLc),
        !(right is SymbolicLc),
        !(modulus is SymbolicLc),
        !(expected is SymbolicLc),
    ensures
        res is Ok <==> has_room(old(store)@, 0, 4, 4) && old(store)@.attached,
        res is Ok ==> final(store)@ == reduced(
            old(store)@,
            left,
            right,
            modulus,
            expected,
            *values,
        ),
        res is Ok ==> grown(old(store)@, final(store)@, 0, 4, 4),
        res matches Err(e) ==> final(store)@ == old(store)@ && (if has_room(old(store)@, 0, 4, 4) {
            e is Backend
        } else {
            e == CircuitError::Exhausted
        }),
{
    if !room_for(store, 0, 4, 4) {
        return Err(CircuitError::Exhausted);
    }
    let ghost before = store@;
    let product = witness(store, values.product)?;
    let remainder = witness(store, values.remainder)?;
    let quotient = witness(store, values.quotient)?;
    let multiple = witness(store, values.multiple)?;
    let ghost filled = store@;
    proof {
        let v = reduction_values(*values);
        lemma_witnesses_append(before, seq![v[0]], seq![v[1]]);
        lemma_witnesses_append(before, seq![v[0]] + seq![v[1]], seq![v[2]]);
        lemma_witnesses_append(before, seq![v[0]] + seq![v[1]] + seq![v[2]], seq![v[3]]);
        assert(seq![v[0]] + seq![v[1]] + seq![v[2]] + seq![v[3]] =~= v);
        assert(filled == with_witnesses(before, v));
    }
    constrain(store, single_of(left), single_of(right), single_of(product))?;
    constrain(store, single_of(modulus), single_of(quotient), single_of(multiple))?;
    constrain(store, difference_of(product, multiple), constant_of(true), single_of(remainder))?;
    constrain(store, difference_of(remainder, expected), constant_of(true), constant_of(false))?;
    proof {
        let ks = reduction_constraints(left, right, modulus, expected, before.witness_count);
        lemma_constraints_append(filled, seq![ks[0]], seq![ks[1]]);
        lemma_constraints_append(filled, seq![ks[0]] + seq![ks[1]], seq![ks[2]]);
        lemma_constraints_append(filled, seq![ks[0]] + seq![ks[1]] + seq![ks[2]], seq![ks[3]]);
        assert(seq![ks[0]] + seq![ks[1]] + seq![ks[2]] + seq![ks[3]] =~= ks);
        lemma_constraints_shape(filled, ks);
    }
    Ok(())
}

} // verus!
