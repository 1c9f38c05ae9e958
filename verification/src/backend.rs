use ark_bls12_381::Fr;
use ark_relations::r1cs::ConstraintSystemRef;
use ark_relations::r1cs::LcIndex;
use ark_relations::r1cs::LinearCombination;
use ark_relations::r1cs::SynthesisError;
use ark_relations::r1cs::Variable;
use vstd::prelude::*;

verus! {

/// `ark_relations::r1cs::SynthesisError`, carried through as it came.
#[verifier::external_type_specification]
#[verifier::external_body]
pub struct ExSynthesisError(SynthesisError);

/// `ark_relations::r1cs::LcIndex`, the counter that names a symbolic linear
/// combination. Its field is private there, so it is only carried through.
#[verifier::external_type_specification]
#[verifier::external_body]
pub struct ExLcIndex(LcIndex);

/// A variable of the constraint system, variant for variant what
/// `ark_relations::r1cs::Variable` is.
#[derive(Clone, Copy, Debug, PartialEq, Eq)]
pub enum Var {
    /// The constant zero.
    Zero,
    /// The constant one.
    One,
    /// A public input, by its index.
    Instance(usize),
    /// A private witness, by its index.
    Witness(usize),
    /// A symbolic linear combination.
    SymbolicLc(LcIndex),
}

/// One summand of a linear combination: a coefficient, as the least
/// non-negative integer of its residue class, and a variable.
pub struct Term {
    pub coeff: nat,
    pub var: Var,
}

/// A rank-one constraint `a * b = c` over three linear combinations.
pub struct Constraint {
    pub a: Seq<Term>,
    pub b: Seq<Term>,
    pub c: Seq<Term>,
}

/// A recorded constraint: the keys under which its three linear combinations
/// are kept.
pub struct Row {
    pub a: nat,
    pub b: nat,
    pub c: nat,
}

/// What a constraint system holds, as plain values.
#[verifier::ext_equal]
pub struct SystemModel {
    /// The handle refers to a constraint system.
    pub attached: bool,
    /// Values are kept for the variables (the system is not in setup mode).
    pub assigns: bool,
    /// Constraints are kept, not only counted (the matrices are constructed).
    pub records: bool,
    /// The number of public inputs, the constant one among them.
    pub instance_count: nat,
    /// The number of private witnesses.
    pub witness_count: nat,
    /// The number of constraints.
    pub constraint_count: nat,
    /// The number of linear combinations that were given a key.
    pub combination_count: nat,
    /// The values of the public inputs, each below the field's order.
    pub instance_values: Seq<nat>,
    /// The values of the private witnesses, each below the field's order.
    pub witness_values: Seq<nat>,
    /// The linear combinations that are kept, by key.
    pub combinations: Map<nat, Seq<Term>>,
    /// The constraints that are kept, in the order in which they came.
    pub rows: Seq<Row>,
}

/// A handle to a constraint system over the scalar field of BLS12-381. While
/// a function of this library works through the handle, nothing else may hold
/// a borrow of the system behind it.
#[verifier::external_body]
pub struct ConstraintStore {
    pub system: ConstraintSystemRef<Fr>,
}

/// A linear combination over the scalar field of BLS12-381.
#[verifier::external_body]
pub struct Combination {
    terms: LinearCombination<Fr>,
}

/// What the constraint system behind a handle holds. For a handle that refers
/// to none, the counts are zero and no constraints are kept.
pub uninterp spec fn contents(store: ConstraintStore) -> SystemModel;

/// The summands of a linear combination, in the order in which it keeps them.
pub uninterp spec fn terms_of(lc: Combination) -> Seq<Term>;

impl View for ConstraintStore {
    type V = SystemModel;

    open spec fn view(&self) -> SystemModel {
        contents(*self)
    }
}

impl View for Combination {
    type V = Seq<Term>;

    open spec fn view(&self) -> Seq<Term> {
        terms_of(*self)
    }
}

/// The order of the scalar field of BLS12-381.
pub open spec fn field_order() -> nat {
    52435875175126190479447740508185965837690552500527637822603658699938581184513nat
}

/// The field element that an integer stands for.
pub open spec fn residue(value: int) -> nat {
    (value % (field_order() as int)) as nat
}

/// The model after one more public input.
pub open spec fn with_input(m: SystemModel, value: nat) -> SystemModel {
    SystemModel {
        instance_count: m.instance_count + 1,
        instance_values: if m.assigns {
            m.instance_values.push(value)
        } else {
            m.instance_values
        },
        ..m
    }
}

/// The model after one more private witness.
pub open spec fn with_witness(m: SystemModel, value: nat) -> SystemModel {
    SystemModel {
        witness_count: m.witness_count + 1,
        witness_values: if m.assigns {
            m.witness_values.push(value)
        } else {
            m.witness_values
        },
        ..m
    }
}

/// The model after one more constraint: where constraints are kept, its three
/// linear combinations get the next three keys.
pub open spec fn with_constraint(m: SystemModel, k: Constraint) -> SystemModel {
    let n = m.combination_count;
    if m.records {
        SystemModel {
            constraint_count: m.constraint_count + 1,
            combination_count: n + 3,
            combinations: m.combinations.insert(n, k.a).insert(n + 1, k.b).insert(n + 2, k.c),
            rows: m.rows.push(Row { a: n, b: n + 1, c: n + 2 }),
            ..m
        }
    } else {
        SystemModel { constraint_count: m.constraint_count + 1, ..m }
    }
}

/// `t >= v` as `ark_relations::r1cs::Variable` compares: the constants come
/// first, then the public inputs by index, then the witnesses by index, then
/// the symbolic combinations. Of two constants neither is at or after the
/// other, unless they are the same.
pub open spec fn at_or_after(t: Var, v: Var) -> bool
    recommends
        !(v is SymbolicLc),
{
    match (t, v) {
        (Var::Zero, Var::Zero) => true,
        (Var::One, Var::One) => true,
        (Var::Zero, _) => false,
        (Var::One, _) => false,
        (_, Var::Zero) => true,
        (_, Var::One) => true,
        (Var::Instance(i), Var::Instance(j)) => i >= j,
        (Var::Witness(i), Var::Witness(j)) => i >= j,
        (Var::Instance(_), Var::Witness(_)) => false,
        (Var::Witness(_), Var::Instance(_)) => true,
        (_, Var::SymbolicLc(_)) => false,
        (Var::SymbolicLc(_), _) => true,
    }
}

/// Where a summand with the variable `v` goes: before the first summand whose
/// variable is at or after `v`, at the end if there is none.
pub open spec fn slot(terms: Seq<Term>, v: Var) -> int
    decreases terms.len(),
{
    if terms.len() == 0 || at_or_after(terms[0].var, v) {
        0
    } else {
        1 + slot(terms.drop_first(), v)
    }
}

/// The summands after `t` was added.
pub open spec fn placed(terms: Seq<Term>, t: Term) -> Seq<Term> {
    terms.insert(slot(terms, t.var), t)
}

/// `ConstraintSystemRef::num_instance_variables`: reads the counter of public
/// inputs.
#[verifier::external_body]
pub(crate) fn instance_count(store: &ConstraintStore) -> (n: usize)
    ensures
        n == contents(*store).instance_count,
{
    store.system.num_instance_variables()
}

/// `ConstraintSystemRef::num_witness_variables`: reads the counter of private
/// witnesses.
#[verifier::external_body]
pub(crate) fn witness_count(store: &ConstraintStore) -> (n: usize)
    ensures
        n == contents(*store).witness_count,
{
    store.system.num_witness_variables()
}

/// `ConstraintSystemRef::num_constraints`: reads the counter of constraints.
#[verifier::external_body]
pub(crate) fn constraint_count(store: &ConstraintStore) -> (n: usize)
    ensures
        n == contents(*store).constraint_count,
{
    store.system.num_constraints()
}

/// `ConstraintSystemRef::borrow` and the field `num_linear_combinations` of
/// `ConstraintSystem`: reads the counter of keyed linear combinations.
#[verifier::external_body]
pub(crate) fn combination_count(store: &ConstraintStore) -> (n: usize)
    ensures
        n == contents(*store).combination_count,
{
    store.system.borrow().map_or(0, |cs| cs.num_linear_combinations)
}

/// `ConstraintSystemRef::should_construct_matrices`: whether constraints are
/// kept, which they are in setup mode and, where the mode says so, in proving
/// mode. For a handle that refers to no constraint system they are not.
#[verifier::external_body]
pub(crate) fn keeps_constraints(store: &ConstraintStore) -> (kept: bool)
    ensures
        kept == contents(*store).records,
{
    store.system.should_construct_matrices()
}

/// `ConstraintSystemRef::new_input_variable`, handed the field element that
/// `Fr::from` makes of the value: the new variable is the public input numbered
/// by the counter before the call, the counter goes up by one, and outside
/// setup mode the value is appended. The call fails only for a handle that
/// refers to no constraint system.
#[verifier::external_body]
pub(crate) fn new_input(store: &mut ConstraintStore, value: u64) -> (res: Result<
    Var,
    SynthesisError,
>)
    requires
        contents(*old(store)).instance_count < usize::MAX,
    ensures
        contents(*old(store)).attached ==> res == Ok::<Var, SynthesisError>(
            Var::Instance(contents(*old(store)).instance_count as usize),
        ) && contents(*final(store)) == with_input(contents(*old(store)), value as nat),
        !contents(*old(store)).attached ==> res is Err && contents(*final(store)) == contents(
            *old(store),
        ),
{
    let element = Fr::from(value);
    match store.system.new_input_variable(|| Ok(element)) {
        Ok(Variable::Zero) => Ok(Var::Zero),
        Ok(Variable::One) => Ok(Var::One),
        Ok(Variable::Instance(i)) => Ok(Var::Instance(i)),
        Ok(Variable::Witness(i)) => Ok(Var::Witness(i)),
        Ok(Variable::SymbolicLc(i)) => Ok(Var::SymbolicLc(i)),
        Err(e) => Err(e),
    }
}

/// `ConstraintSystemRef::new_witness_variable`, handed the field element that
/// `Fr::from` makes of the value: the new variable is the witness numbered by
/// the counter before the call, the counter goes up by one, and outside setup
/// mode the value is appended. The call fails only for a handle that refers to
/// no constraint system.
#[verifier::external_body]
pub(crate) fn new_witness(store: &mut ConstraintStore, value: u128) -> (res: Result<
    Var,
    SynthesisError,
>)
    requires
        contents(*old(store)).witness_count < usize::MAX,
    ensures
        contents(*old(store)).attached ==> res == Ok::<Var, SynthesisError>(
            Var::Witness(contents(*old(store)).witness_count as usize),
        ) && contents(*final(store)) == with_witness(contents(*old(store)), value as nat),
        !contents(*old(store)).attached ==> res is Err && contents(*final(store)) == contents(
            *old(store),
        ),
{
    let element = Fr::from(value);
    match store.system.new_witness_variable(|| Ok(element)) {
        Ok(Variable::Zero) => Ok(Var::Zero),
        Ok(Variable::One) => Ok(Var::One),
        Ok(Variable::Instance(i)) => Ok(Var::Instance(i)),
        Ok(Variable::Witness(i)) => Ok(Var::Witness(i)),
        Ok(Variable::SymbolicLc(i)) => Ok(Var::SymbolicLc(i)),
        Err(e) => Err(e),
    }
}

/// `ConstraintSystemRef::enforce_constraint`: the constraint is counted, and
/// where constraints are kept its three linear combinations are stored under
/// the next three keys. The call fails only for a handle that refers to no
/// constraint system.
#[verifier::external_body]
pub(crate) fn enforce(
    store: &mut ConstraintStore,
    a: Combination,
    b: Combination,
    c: Combination,
) -> (res: Result<(), SynthesisError>)
    requires
        contents(*old(store)).constraint_count < usize::MAX,
        contents(*old(store)).records ==> contents(*old(store)).combination_count + 3
            <= usize::MAX,
    ensures
        contents(*old(store)).attached ==> res is Ok && contents(*final(store)) == with_constraint(
            contents(*old(store)),
            Constraint { a: terms_of(a), b: terms_of(b), c: terms_of(c) },
        ),
        !contents(*old(store)).attached ==> res is Err && contents(*final(store)) == contents(
            *old(store),
        ),
{
    store.system.enforce_constraint(a.terms, b.terms, c.terms)
}

/// `LinearCombination::zero`: the combination without summands.
#[verifier::external_body]
pub(crate) fn empty() -> (lc: Combination)
    ensures
        terms_of(lc) == Seq::<Term>::empty(),
{
    Combination { terms: LinearCombination::zero() }
}

/// `LinearCombination + (F, Variable)`, with the coefficient that `Fr::from`
/// makes of a signed integer, which is its residue: a combination of fewer
/// than six summands takes the new one before the first whose variable is at
/// or after the new variable, and merges nothing.
#[verifier::external_body]
pub(crate) fn extend(lc: Combination, coeff: i64, var: Var) -> (res: Combination)
    requires
        terms_of(lc).len() < 6,
        !(var is SymbolicLc),
    ensures
        terms_of(res) == placed(terms_of(lc), Term { coeff: residue(coeff as int), var }),
{
    let variable = match var {
        Var::Zero => Variable::Zero,
        Var::One => Variable::One,
        Var::Instance(i) => Variable::Instance(i),
        Var::Witness(i) => Variable::Witness(i),
        Var::SymbolicLc(i) => Variable::SymbolicLc(i),
    };
    Combination { terms: lc.terms + (Fr::from(coeff), variable) }
}

} // verus!
