use crate::backend::field_order;
use crate::backend::Constraint;
use crate::backend::SystemModel;
use crate::backend::Var;
use crate::circuit::bundle_vars;
use crate::circuit::circuit_constraints;
use crate::circuit::input_vars;
use crate::circuit::DSAVerificationCircuit;
use crate::circuit::WitnessBundle;
use crate::gadget::constant;
use crate::gadget::difference;
use crate::gadget::exact;
use crate::gadget::is_exact;
use crate::gadget::reduction_constraints;
use crate::gadget::reduction_values;
use crate::model::has_room;
use crate::model::lemma_constraints_shape;
use crate::model::lemma_recorded;
use crate::model::recorded;
use crate::model::with_inputs;
use crate::model::with_witnesses;
use crate::semantics::coherent;
use crate::semantics::evaluate;
use crate::semantics::lemma_evaluate_built;
use crate::semantics::lemma_reduction_constraints;
use crate::semantics::lemma_zero_residue;
use crate::semantics::readable;
use crate::semantics::satisfied;
use crate::semantics::value_of;
use crate::utils::has_inverse;
use crate::utils::inverse;
use crate::utils::is_inverse;
use vstd::arithmetic::div_mod::lemma_fundamental_div_mod;
use vstd::arithmetic::div_mod::lemma_mod_bound;
use vstd::arithmetic::div_mod::lemma_mod_multiples_vanish;
use vstd::arithmetic::div_mod::lemma_small_mod;
use vstd::arithmetic::mul::lemma_mul_is_commutative;
use vstd::prelude::*;

verus! {

/// The relation to which the constraints hold a bundle: `w` inverts `s`,
/// `u1` and `u2` are the two products modulo `q`, `v` is the product of
/// `g_u1` and `y_u2` modulo `p`, and the two last values agree. It says
/// nothing of how `g_u1` and `y_u2` come from `g`, `y` and the exponents, nor
/// of how `v_mod_q` and `r_mod_q` come from `v` and `r`.
pub open spec fn accepted(c: DSAVerificationCircuit, b: WitnessBundle) -> bool {
    &&& (b.w * c.s) % (c.q as int) == 1
    &&& (c.h_x * b.w) % (c.q as int) == b.u1
    &&& (c.r * b.w) % (c.q as int) == b.u2
    &&& (b.g_u1 * b.y_u2) % (c.p as int) == b.v
    &&& b.v_mod_q == b.r_mod_q
}

/// The signature is valid: with the exponents computed honestly, `v` and `r`
/// agree modulo `q`.
pub open spec fn valid_signature(c: DSAVerificationCircuit) -> bool {
    &&& has_inverse(c.s as int, c.q as int)
    &&& c.p > 0
    &&& c.honest_witness().v as int % (c.q as int) == c.r as int % (c.q as int)
}

/// Every constraint of the circuit holds in the model.
pub open spec fn all_satisfied(m: SystemModel, ks: Seq<Constraint>) -> bool {
    forall|j: int| 0 <= j < ks.len() ==> satisfied(m, #[trigger] ks[j])
}

/// The values of true integer division are exact.
pub proof fn lemma_exact(left: int, right: int, modulus: int)
    requires
        0 <= left <= u64::MAX,
        0 <= right <= u64::MAX,
        0 < modulus,
    ensures
        is_exact(exact(left, right, modulus), left, right, modulus),
        exact(left, right, modulus).product == exact(left, right, modulus).multiple + exact(
            left,
            right,
            modulus,
        ).remainder,
{
    assert(0 <= left * right <= 0xffff_ffff_ffff_ffff * 0xffff_ffff_ffff_ffff) by (nonlinear_arith)
        requires
            0 <= left <= 0xffff_ffff_ffff_ffff,
            0 <= right <= 0xffff_ffff_ffff_ffff,
    ;
    lemma_fundamental_div_mod(left * right, modulus);
    lemma_mod_bound(left * right, modulus);
    let quotient = (left * right) / modulus;
    assert(0 <= modulus * quotient <= left * right);
    assert(0 <= quotient <= left * right) by (nonlinear_arith)
        requires
            0 < modulus,
            0 <= modulus * quotient <= left * right,
    ;
}

/// One reduction of the circuit, with the values of true integer division:
/// the first three constraints hold, and the last holds exactly where the
/// remainder is the expected value.
proof fn lemma_exact_reduction(
    m: SystemModel,
    left: Var,
    right: Var,
    modulus: Var,
    expected: Var,
    base: nat,
)
    requires
        readable(m, left),
        readable(m, right),
        readable(m, modulus),
        readable(m, expected),
        0 <= value_of(m, left) <= u64::MAX,
        0 <= value_of(m, right) <= u64::MAX,
        0 < value_of(m, modulus),
        0 <= value_of(m, expected) < field_order(),
        base + 3 <= usize::MAX,
        base + 3 < m.witness_values.len(),
        m.witness_values.subrange(base as int, base as int + 4) == reduction_values(
            exact(value_of(m, left), value_of(m, right), value_of(m, modulus)),
        ),
    ensures
        satisfied(m, reduction_constraints(left, right, modulus, expected, base)[0]),
        satisfied(m, reduction_constraints(left, right, modulus, expected, base)[1]),
        satisfied(m, reduction_constraints(left, right, modulus, expected, base)[2]),
        satisfied(m, reduction_constraints(left, right, modulus, expected, base)[3]) <==> (
        value_of(m, left) * value_of(m, right)) % value_of(m, modulus) == value_of(m, expected),
{
    let values = exact(value_of(m, left), value_of(m, right), value_of(m, modulus));
    lemma_exact(value_of(m, left), value_of(m, right), value_of(m, modulus));
    lemma_reduction_constraints(m, left, right, modulus, expected, base, values);
}

/// What the constraints of the circuit say. On a model that keeps its
/// values, after the circuit was synthesized with a bundle, all seventeen
/// constraints hold exactly where the bundle is accepted.
pub proof fn lemma_circuit_relation(c: DSAVerificationCircuit, b: WitnessBundle, m: SystemModel)
    requires
        coherent(m),
        has_room(m, 7, 24, 17),
        c.p > 0,
        c.q > 0,
    ensures
        circuit_constraints(m.instance_count, m.witness_count).len() == 17,
        all_satisfied(c.synthesized(m, b), circuit_constraints(m.instance_count, m.witness_count))
            <==> accepted(c, b),
{
    let after = c.synthesized(m, b);
    let i0 = m.instance_count;
    let w0 = m.witness_count;
    let ks = circuit_constraints(i0, w0);
    let i = input_vars(i0);
    let o = bundle_vars(w0);
    let k1 = reduction_constraints(o.w, i.s, i.q, Var::One, w0 + 8);
    let k2 = reduction_constraints(i.h_x, o.w, i.q, o.u1, w0 + 12);
    let k3 = reduction_constraints(i.r, o.w, i.q, o.u2, w0 + 16);
    let k4 = reduction_constraints(o.g_u1, o.y_u2, i.p, o.v, w0 + 20);
    let last = Constraint { a: difference(o.v_mod_q, o.r_mod_q), b: constant(1), c: constant(0) };
    let ins = c.public_inputs();
    let own = b.values();
    let r1 = reduction_values(exact(b.w as int, c.s as int, c.q as int));
    let r2 = reduction_values(exact(c.h_x as int, b.w as int, c.q as int));
    let r3 = reduction_values(exact(c.r as int, b.w as int, c.q as int));
    let r4 = reduction_values(exact(b.g_u1 as int, b.y_u2 as int, c.p as int));
    let all = c.witness_values(b);
    lemma_constraints_shape(with_witnesses(with_inputs(m, ins), all), ks);
    assert(after.instance_values == m.instance_values + ins);
    assert(after.witness_values == m.witness_values + all);
    assert(all.len() == 24);
    assert(all.subrange(0, 8) =~= own);
    assert(all.subrange(8, 12) =~= r1);
    assert(all.subrange(12, 16) =~= r2);
    assert(all.subrange(16, 20) =~= r3);
    assert(all.subrange(20, 24) =~= r4);
    assert(after.witness_values.subrange(w0 as int + 8, w0 as int + 12) =~= r1);
    assert(after.witness_values.subrange(w0 as int + 12, w0 as int + 16) =~= r2);
    assert(after.witness_values.subrange(w0 as int + 16, w0 as int + 20) =~= r3);
    assert(after.witness_values.subrange(w0 as int + 20, w0 as int + 24) =~= r4);
    assert(value_of(after, i.h_x) == c.h_x) by {
        assert(after.instance_values[i0 as int + 1] == ins[1]);
    }
    assert(value_of(after, i.r) == c.r) by {
        assert(after.instance_values[i0 as int + 2] == ins[2]);
    }
    assert(value_of(after, i.s) == c.s) by {
        assert(after.instance_values[i0 as int + 3] == ins[3]);
    }
    assert(value_of(after, i.p) == c.p) by {
        assert(after.instance_values[i0 as int + 4] == ins[4]);
    }
    assert(value_of(after, i.q) == c.q) by {
        assert(after.instance_values[i0 as int + 5] == ins[5]);
    }
    assert(value_of(after, o.w) == b.w) by {
        assert(after.witness_values[w0 as int] == all[0] && all[0] == own[0]);
    }
    assert(value_of(after, o.u1) == b.u1) by {
        assert(after.witness_values[w0 as int + 1] == all[1] && all[1] == own[1]);
    }
    assert(value_of(after, o.u2) == b.u2) by {
        assert(after.witness_values[w0 as int + 2] == all[2] && all[2] == own[2]);
    }
    assert(value_of(after, o.g_u1) == b.g_u1) by {
        assert(after.witness_values[w0 as int + 3] == all[3] && all[3] == own[3]);
    }
    assert(value_of(after, o.y_u2) == b.y_u2) by {
        assert(after.witness_values[w0 as int + 4] == all[4] && all[4] == own[4]);
    }
    assert(value_of(after, o.v) == b.v) by {
        assert(after.witness_values[w0 as int + 5] == all[5] && all[5] == own[5]);
    }
    assert(value_of(after, o.v_mod_q) == b.v_mod_q) by {
        assert(after.witness_values[w0 as int + 6] == all[6] && all[6] == own[6]);
    }
    assert(value_of(after, o.r_mod_q) == b.r_mod_q) by {
        assert(after.witness_values[w0 as int + 7] == all[7] && all[7] == own[7]);
    }
    lemma_exact_reduction(after, o.w, i.s, i.q, Var::One, w0 + 8);
    lemma_exact_reduction(after, i.h_x, o.w, i.q, o.u1, w0 + 12);
    lemma_exact_reduction(after, i.r, o.w, i.q, o.u2, w0 + 16);
    lemma_exact_reduction(after, o.g_u1, o.y_u2, i.p, o.v, w0 + 20);
    assert(satisfied(after, last) <==> b.v_mod_q == b.r_mod_q) by {
        let order = field_order() as int;
        lemma_evaluate_built(after, o.v_mod_q, o.r_mod_q, 1);
        lemma_evaluate_built(after, o.v_mod_q, o.r_mod_q, 0);
        assert(evaluate(after, last.b) == 1);
        assert(evaluate(after, last.c) == 0);
        assert(evaluate(after, last.a) == b.v_mod_q + (order - 1) * b.r_mod_q);
        assert(evaluate(after, last.a) * evaluate(after, last.b) - evaluate(after, last.c) == order
            * b.r_mod_q + (b.v_mod_q - b.r_mod_q));
        lemma_mod_multiples_vanish(b.r_mod_q as int, b.v_mod_q - b.r_mod_q, order);
        lemma_zero_residue(b.v_mod_q - b.r_mod_q);
    }
    assert(ks.len() == 17);
    assert(ks[0] == k1[0] && ks[1] == k1[1] && ks[2] == k1[2] && ks[3] == k1[3]);
    assert(ks[4] == k2[0] && ks[5] == k2[1] && ks[6] == k2[2] && ks[7] == k2[3]);
    assert(ks[8] == k3[0] && ks[9] == k3[1] && ks[10] == k3[2] && ks[11] == k3[3]);
    assert(ks[12] == k4[0] && ks[13] == k4[1] && ks[14] == k4[2] && ks[15] == k4[3]);
    assert(ks[16] == last);
    if accepted(c, b) {
        assert forall|j: int| 0 <= j < ks.len() implies satisfied(after, #[trigger] ks[j]) by {
            if j < 4 {
                assert(ks[j] == k1[j]);
            } else if j < 8 {
                assert(ks[j] == k2[j - 4]);
            } else if j < 12 {
                assert(ks[j] == k3[j - 8]);
            } else if j < 16 {
                assert(ks[j] == k4[j - 12]);
            }
        }
    }
    if all_satisfied(after, ks) {
        assert(satisfied(after, ks[3]));
        assert(satisfied(after, ks[7]));
        assert(satisfied(after, ks[11]));
        assert(satisfied(after, ks[15]));
        assert(satisfied(after, ks[16]));
    }
}

/// A valid signature yields a satisfied circuit. For a subgroup order above
/// one, where `s` has an inverse and `p` is not zero, the constraints of the
/// circuit synthesized with the honest bundle all hold exactly where the
/// signature is valid.
pub proof fn lemma_valid_signature_satisfies(c: DSAVerificationCircuit, m: SystemModel)
    requires
        coherent(m),
        has_room(m, 7, 24, 17),
        has_inverse(c.s as int, c.q as int),
        c.p > 0,
        c.q > 1,
    ensures
        all_satisfied(
            c.synthesized(m, c.honest_witness()),
            circuit_constraints(m.instance_count, m.witness_count),
        ) <==> valid_signature(c),
{
    let b = c.honest_witness();
    let w = inverse(c.s as int, c.q as int);
    assert(is_inverse(w, c.s as int, c.q as int));
    lemma_small_mod(1, c.q as nat);
    lemma_mul_is_commutative(w, c.s as int);
    lemma_mod_bound(c.h_x * w, c.q as int);
    lemma_mod_bound(c.r * w, c.q as int);
    lemma_mod_bound(b.g_u1 * b.y_u2, c.p as int);
    lemma_mod_bound(b.v as int, c.q as int);
    lemma_mod_bound(c.r as int, c.q as int);
    lemma_circuit_relation(c, b, m);
}

/// The exponentiations are not constrained. Whatever stands for `g_u1` and
/// `y_u2` in an accepted bundle can be replaced by any two values with the
/// same product modulo `p`, and all constraints still hold.
pub proof fn lemma_exponents_unconstrained(
    c: DSAVerificationCircuit,
    b: WitnessBundle,
    g_u1: u64,
    y_u2: u64,
    m: SystemModel,
)
    requires
        coherent(m),
        has_room(m, 7, 24, 17),
        c.p > 0,
        c.q > 0,
        accepted(c, b),
        (g_u1 * y_u2) % (c.p as int) == b.v,
    ensures
        all_satisfied(
            c.synthesized(m, WitnessBundle { g_u1, y_u2, ..b }),
            circuit_constraints(m.instance_count, m.witness_count),
        ),
{
    lemma_circuit_relation(c, WitnessBundle { g_u1, y_u2, ..b }, m);
}

/// Where constraints are kept, the circuit adds seventeen rows, and they
/// stand for its constraints in their order.
pub proof fn lemma_circuit_recorded(c: DSAVerificationCircuit, b: WitnessBundle, m: SystemModel)
    requires
        m.records,
    ensures
        c.synthesized(m, b).rows.len() == m.rows.len() + 17,
        forall|j: int|
            0 <= j < 17 ==> #[trigger] recorded(c.synthesized(m, b), m.rows.len() + j)
                == circuit_constraints(m.instance_count, m.witness_count)[j],
{
    let filled = with_witnesses(with_inputs(m, c.public_inputs()), c.witness_values(b));
    lemma_constraints_shape(filled, circuit_constraints(m.instance_count, m.witness_count));
    lemma_recorded(filled, circuit_constraints(m.instance_count, m.witness_count));
}

} // verus!
