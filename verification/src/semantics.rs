use crate::backend::field_order;
use crate::backend::residue;
use crate::backend::slot;
use crate::backend::Constraint;
use crate::backend::SystemModel;
use crate::backend::Term;
use crate::backend::Var;
use crate::gadget::constant;
use crate::gadget::difference;
use crate::gadget::is_exact;
use crate::gadget::reduced;
use crate::gadget::reduction_constraints;
use crate::gadget::reduction_values;
use crate::gadget::single;
use crate::gadget::Reduction;
use crate::model::lemma_constraints_shape;
use crate::model::with_witnesses;
use vstd::arithmetic::div_mod::lemma_fundamental_div_mod;
use vstd::arithmetic::div_mod::lemma_mod_multiples_vanish;
use vstd::arithmetic::div_mod::lemma_small_mod;
use vstd::prelude::*;

verus! {

/// The model keeps a value for the variable.
pub open spec fn readable(m: SystemModel, v: Var) -> bool {
    match v {
        Var::Zero => true,
        Var::One => true,
        Var::Instance(i) => i < m.instance_values.len(),
        Var::Witness(i) => i < m.witness_values.len(),
        Var::SymbolicLc(_) => false,
    }
}

/// The value of a variable that the model keeps a value for.
pub open spec fn value_of(m: SystemModel, v: Var) -> int
    recommends
        readable(m, v),
{
    match v {
        Var::Zero => 0,
        Var::One => 1,
        Var::Instance(i) => m.instance_values[i as int] as int,
        Var::Witness(i) => m.witness_values[i as int] as int,
        Var::SymbolicLc(_) => 0,
    }
}

/// The value of a linear combination, as an integer: the sum of its
/// coefficients times the values of their variables.
pub open spec fn evaluate(m: SystemModel, terms: Seq<Term>) -> int
    decreases terms.len(),
{
    if terms.len() == 0 {
        0
    } else {
        terms[0].coeff * value_of(m, terms[0].var) + evaluate(m, terms.drop_first())
    }
}

/// The constraint holds in the field for the values that the model keeps.
pub open spec fn satisfied(m: SystemModel, k: Constraint) -> bool {
    (evaluate(m, k.a) * evaluate(m, k.b) - evaluate(m, k.c)) % (field_order() as int) == 0
}

/// The model keeps a value for each variable that it counts.
pub open spec fn coherent(m: SystemModel) -> bool {
    &&& m.assigns
    &&& m.instance_values.len() == m.instance_count
    &&& m.witness_values.len() == m.witness_count
}

/// Below the field's order in absolute value, only zero is a multiple of it.
pub proof fn lemma_zero_residue(x: int)
    requires
        -field_order() < x < field_order(),
    ensures
        x % (field_order() as int) == 0 <==> x == 0,
{
    let order = field_order() as int;
    if x >= 0 {
        lemma_small_mod(x as nat, order as nat);
    } else {
        lemma_mod_multiples_vanish(1, x, order);
        lemma_small_mod((order + x) as nat, order as nat);
    }
}

/// A summand adds its coefficient times the value of its variable, wherever
/// it goes.
pub proof fn lemma_evaluate_insert(m: SystemModel, terms: Seq<Term>, at: int, t: Term)
    requires
        0 <= at <= terms.len(),
    ensures
        evaluate(m, terms.insert(at, t)) == evaluate(m, terms) + t.coeff * value_of(m, t.var),
    decreases terms.len(),
{
    let longer = terms.insert(at, t);
    if at == 0 {
        assert(longer.drop_first() =~= terms);
    } else {
        assert(longer.drop_first() =~= terms.drop_first().insert(at - 1, t));
        lemma_evaluate_insert(m, terms.drop_first(), at - 1, t);
    }
}

/// A summand goes to a place within the combination.
pub proof fn lemma_slot_within(terms: Seq<Term>, v: Var)
    ensures
        0 <= slot(terms, v) <= terms.len(),
    decreases terms.len(),
{
    if terms.len() > 0 {
        lemma_slot_within(terms.drop_first(), v);
    }
}

/// The values of the combinations that the gadget builds.
pub proof fn lemma_evaluate_built(m: SystemModel, a: Var, b: Var, c: nat)
    ensures
        evaluate(m, single(a)) == value_of(m, a),
        evaluate(m, difference(a, b)) == value_of(m, a) + (field_order() - 1) * value_of(m, b),
        evaluate(m, constant(c)) == c,
{
    let none = Seq::<Term>::empty();
    let one = Term { coeff: 1, var: a };
    let minus = Term { coeff: residue(-1), var: b };
    let fixed = Term { coeff: c, var: Var::One };
    lemma_slot_within(none, a);
    lemma_evaluate_insert(m, none, slot(none, a), one);
    lemma_slot_within(single(a), b);
    lemma_evaluate_insert(m, single(a), slot(single(a), b), minus);
    lemma_slot_within(none, Var::One);
    lemma_evaluate_insert(m, none, slot(none, Var::One), fixed);
    lemma_mod_multiples_vanish(-1, field_order() - 1, field_order() as int);
    lemma_small_mod((field_order() - 1) as nat, field_order());
    assert(residue(-1) == field_order() - 1);
}

/// What the four constraints of a reduction say of the values: the first two
/// hold of a true product and a true multiple, the third holds exactly where
/// the multiple and the remainder add up to the product, and the last holds
/// exactly where the remainder is the expected one.
pub proof fn lemma_reduction_constraints(
    m: SystemModel,
    left: Var,
    right: Var,
    modulus: Var,
    expected: Var,
    base: nat,
    values: Reduction,
)
    requires
        readable(m, left),
        readable(m, right),
        readable(m, modulus),
        readable(m, expected),
        0 <= value_of(m, expected) < field_order(),
        base + 3 <= usize::MAX,
        base + 3 < m.witness_values.len(),
        m.witness_values.subrange(base as int, base as int + 4) == reduction_values(values),
    ensures
        values.product == value_of(m, left) * value_of(m, right) ==> satisfied(
            m,
            reduction_constraints(left, right, modulus, expected, base)[0],
        ),
        values.multiple == value_of(m, modulus) * values.quotient ==> satisfied(
            m,
            reduction_constraints(left, right, modulus, expected, base)[1],
        ),
        satisfied(m, reduction_constraints(left, right, modulus, expected, base)[2])
            <==> values.product == values.multiple + values.remainder,
        satisfied(m, reduction_constraints(left, right, modulus, expected, base)[3])
            <==> values.remainder == value_of(m, expected),
{
    let order = field_order() as int;
    let ks = reduction_constraints(left, right, modulus, expected, base);
    let product = Var::Witness(base as usize);
    let remainder = Var::Witness((base + 1) as usize);
    let quotient = Var::Witness((base + 2) as usize);
    let multiple = Var::Witness((base + 3) as usize);
    let held = m.witness_values.subrange(base as int, base as int + 4);
    assert(value_of(m, product) == held[0]);
    assert(value_of(m, remainder) == held[1]);
    assert(value_of(m, quotient) == held[2]);
    assert(value_of(m, multiple) == held[3]);
    lemma_evaluate_built(m, left, right, 1);
    lemma_evaluate_built(m, right, left, 1);
    lemma_evaluate_built(m, quotient, left, 1);
    lemma_evaluate_built(m, modulus, quotient, 0);
    lemma_evaluate_built(m, product, multiple, 1);
    lemma_evaluate_built(m, remainder, expected, 0);
    lemma_evaluate_built(m, multiple, expected, 0);
    lemma_small_mod(0, order as nat);
    let e = value_of(m, expected);
    assert(evaluate(m, ks[2].a) * evaluate(m, ks[2].b) - evaluate(m, ks[2].c) == order
        * values.multiple + (values.product - values.multiple - values.remainder));
    lemma_mod_multiples_vanish(
        values.multiple as int,
        values.product - values.multiple - values.remainder,
        order,
    );
    lemma_zero_residue(values.product - values.multiple - values.remainder);
    assert(evaluate(m, ks[3].a) * evaluate(m, ks[3].b) - evaluate(m, ks[3].c) == order * e + (
    values.remainder - e));
    lemma_mod_multiples_vanish(e, values.remainder - e, order);
    lemma_zero_residue(values.remainder - e);
}

/// The values make up the identity of a division of `left * right` by
/// `modulus`, whether or not the remainder is below the modulus.
pub open spec fn is_division(values: Reduction, left: int, right: int, modulus: int) -> bool {
    &&& values.product == left * right
    &&& values.multiple == modulus * values.quotient
    &&& values.product == values.multiple + values.remainder
}

/// Round trip of the gadget. After one reduction on a model that keeps its
/// values, the first three constraints hold for values that make up the
/// identity of the division, as those of true integer division do, and the
/// last holds exactly where the remainder is the expected one: a remainder
/// that is off, by whatever amount, fails it. Nothing asks the remainder to
/// be below the modulus.
pub proof fn lemma_reduction_round_trip(
    m: SystemModel,
    left: Var,
    right: Var,
    modulus: Var,
    expected: Var,
    values: Reduction,
)
    requires
        coherent(m),
        m.witness_count + 4 <= usize::MAX,
        readable(m, left),
        readable(m, right),
        readable(m, modulus),
        readable(m, expected),
        0 <= value_of(m, expected) < field_order(),
    ensures
        ({
            let after = reduced(m, left, right, modulus, expected, values);
            let ks = reduction_constraints(left, right, modulus, expected, m.witness_count);
            let l = value_of(m, left);
            let r = value_of(m, right);
            let d = value_of(m, modulus);
            &&& is_exact(values, l, r, d) && d > 0 ==> is_division(values, l, r, d)
            &&& is_division(values, l, r, d) ==> satisfied(after, ks[0]) && satisfied(after, ks[1])
                && satisfied(after, ks[2])
            &&& satisfied(after, ks[2]) <==> values.product == values.multiple + values.remainder
            &&& satisfied(after, ks[3]) <==> values.remainder == value_of(m, expected)
        }),
{
    let after = reduced(m, left, right, modulus, expected, values);
    lemma_constraints_shape(
        with_witnesses(m, reduction_values(values)),
        reduction_constraints(left, right, modulus, expected, m.witness_count),
    );
    assert(after.witness_values.subrange(m.witness_count as int, m.witness_count as int + 4)
        =~= reduction_values(values));
    lemma_reduction_constraints(after, left, right, modulus, expected, m.witness_count, values);
    assert(value_of(after, left) == value_of(m, left));
    assert(value_of(after, right) == value_of(m, right));
    assert(value_of(after, modulus) == value_of(m, modulus));
    assert(value_of(after, expected) == value_of(m, expected));
    if value_of(m, modulus) > 0 {
        lemma_fundamental_div_mod(value_of(m, left) * value_of(m, right), value_of(m, modulus));
    }
}

} // verus!
