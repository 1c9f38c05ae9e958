use crate::backend::with_constraint;
use crate::backend::with_input;
use crate::backend::with_witness;
use crate::backend::Constraint;
use crate::backend::Row;
use crate::backend::SystemModel;
use crate::backend::Term;
use vstd::prelude::*;

verus! {

/// The model after the public inputs `values`, in this order.
pub open spec fn with_inputs(m: SystemModel, values: Seq<nat>) -> SystemModel {
    SystemModel {
        instance_count: m.instance_count + values.len(),
        instance_values: if m.assigns {
            m.instance_values + values
        } else {
            m.instance_values
        },
        ..m
    }
}

/// The model after the private witnesses `values`, in this order.
pub open spec fn with_witnesses(m: SystemModel, values: Seq<nat>) -> SystemModel {
    SystemModel {
        witness_count: m.witness_count + values.len(),
        witness_values: if m.assigns {
            m.witness_values + values
        } else {
            m.witness_values
        },
        ..m
    }
}

/// The linear combination of a constraint that gets the `i`-th of its keys.
pub open spec fn part(k: Constraint, i: int) -> Seq<Term> {
    if i == 0 {
        k.a
    } else if i == 1 {
        k.b
    } else {
        k.c
    }
}

/// The model after the constraints `ks`, in this order: where constraints are
/// kept, the `i`-th of them gets the keys `n + 3 * i`, `n + 3 * i + 1` and
/// `n + 3 * i + 2`, with `n` the number of keys given before.
#[verifier::opaque]
pub open spec fn with_constraints(m: SystemModel, ks: Seq<Constraint>) -> SystemModel {
    let n = m.combination_count;
    if m.records {
        SystemModel {
            constraint_count: m.constraint_count + ks.len(),
            combination_count: n + 3 * ks.len(),
            combinations: Map::new(
                |key: nat| m.combinations.dom().contains(key) || n <= key < n + 3 * ks.len(),
                |key: nat|
                    if n <= key < n + 3 * ks.len() {
                        part(ks[(key - n) / 3], (key - n) % 3)
                    } else {
                        m.combinations[key]
                    },
            ),
            rows: m.rows + Seq::new(
                ks.len(),
                |i: int|
                    Row {
                        a: (n + 3 * i) as nat,
                        b: (n + 3 * i + 1) as nat,
                        c: (n + 3 * i + 2) as nat,
                    },
            ),
            ..m
        }
    } else {
        SystemModel { constraint_count: m.constraint_count + ks.len(), ..m }
    }
}

/// The counters have room for so many more inputs, witnesses and
/// constraints, and, where constraints are kept, for three keys for each
/// constraint.
pub open spec fn has_room(m: SystemModel, inputs: nat, witnesses: nat, constraints: nat) -> bool {
    &&& m.instance_count + inputs <= usize::MAX
    &&& m.witness_count + witnesses <= usize::MAX
    &&& m.constraint_count + constraints <= usize::MAX
    &&& m.records ==> m.combination_count + 3 * constraints <= usize::MAX
}

/// The model went from `before` to `after` by so many more inputs, witnesses
/// and constraints: the counters went up, by three keys for a constraint that
/// is kept, and the handle refers to what it referred to.
pub open spec fn grown(
    before: SystemModel,
    after: SystemModel,
    inputs: nat,
    witnesses: nat,
    constraints: nat,
) -> bool {
    &&& after.attached == before.attached
    &&& after.assigns == before.assigns
    &&& after.records == before.records
    &&& after.instance_count == before.instance_count + inputs
    &&& after.witness_count == before.witness_count + witnesses
    &&& after.constraint_count == before.constraint_count + constraints
    &&& after.combination_count == before.combination_count + (if before.records {
        3 * constraints
    } else {
        0
    })
}

/// The constraint that the `i`-th row of the model stands for.
pub open spec fn recorded(m: SystemModel, i: int) -> Constraint {
    Constraint {
        a: m.combinations[m.rows[i].a],
        b: m.combinations[m.rows[i].b],
        c: m.combinations[m.rows[i].c],
    }
}

/// Every row of the model names keys that were given before.
pub open spec fn keys_in_order(m: SystemModel) -> bool {
    forall|i: int|
        0 <= i < m.rows.len() ==> (#[trigger] m.rows[i]).a < m.combination_count && m.rows[i].b
            < m.combination_count && m.rows[i].c < m.combination_count
}

/// Constraints leave the variables and their values as they are, and are
/// counted; where they are kept, each takes three keys.
pub proof fn lemma_constraints_shape(m: SystemModel, ks: Seq<Constraint>)
    ensures
        with_constraints(m, ks).attached == m.attached,
        with_constraints(m, ks).assigns == m.assigns,
        with_constraints(m, ks).records == m.records,
        with_constraints(m, ks).instance_count == m.instance_count,
        with_constraints(m, ks).witness_count == m.witness_count,
        with_constraints(m, ks).instance_values == m.instance_values,
        with_constraints(m, ks).witness_values == m.witness_values,
        with_constraints(m, ks).constraint_count == m.constraint_count + ks.len(),
        with_constraints(m, ks).combination_count == m.combination_count + (if m.records {
            3 * ks.len()
        } else {
            0
        }),
        with_constraints(m, ks).rows.len() == m.rows.len() + (if m.records {
            ks.len()
        } else {
            0
        }),
{
    reveal(with_constraints);
}

/// No constraints change nothing.
pub proof fn lemma_no_constraints(m: SystemModel)
    ensures
        with_constraints(m, Seq::empty()) == m,
{
    reveal(with_constraints);
    assert(with_constraints(m, Seq::empty()) =~= m);
}

/// One public input is a sequence of one.
pub proof fn lemma_one_input(m: SystemModel, value: nat)
    ensures
        with_input(m, value) == with_inputs(m, seq![value]),
{
    assert(with_input(m, value) =~= with_inputs(m, seq![value]));
}

/// Public inputs that follow public inputs make up one sequence.
pub proof fn lemma_inputs_append(m: SystemModel, first: Seq<nat>, second: Seq<nat>)
    ensures
        with_inputs(with_inputs(m, first), second) == with_inputs(m, first + second),
{
    assert(with_inputs(with_inputs(m, first), second) =~= with_inputs(m, first + second));
}

/// One witness is a sequence of one.
pub proof fn lemma_one_witness(m: SystemModel, value: nat)
    ensures
        with_witness(m, value) == with_witnesses(m, seq![value]),
{
    assert(with_witness(m, value) =~= with_witnesses(m, seq![value]));
}

/// Witnesses that follow witnesses make up one sequence.
pub proof fn lemma_witnesses_append(m: SystemModel, first: Seq<nat>, second: Seq<nat>)
    ensures
        with_witnesses(with_witnesses(m, first), second) == with_witnesses(m, first + second),
{
    assert(with_witnesses(with_witnesses(m, first), second) =~= with_witnesses(m, first + second));
}

/// One constraint is a sequence of one.
pub proof fn lemma_one_constraint(m: SystemModel, k: Constraint)
    ensures
        with_constraint(m, k) == with_constraints(m, seq![k]),
{
    reveal(with_constraints);
    let ks = seq![k];
    let n = m.combination_count;
    if m.records {
        assert(with_constraint(m, k).rows =~= with_constraints(m, ks).rows);
        assert(with_constraint(m, k).combinations =~= with_constraints(m, ks).combinations);
    }
    assert(with_constraint(m, k) =~= with_constraints(m, ks));
}

/// Constraints that follow constraints make up one sequence.
pub proof fn lemma_constraints_append(
    m: SystemModel,
    first: Seq<Constraint>,
    second: Seq<Constraint>,
)
    ensures
        with_constraints(with_constraints(m, first), second) == with_constraints(m, first + second),
{
    reveal(with_constraints);
    let n = m.combination_count;
    let left = with_constraints(with_constraints(m, first), second);
    let right = with_constraints(m, first + second);
    if m.records {
        assert(left.rows =~= right.rows);
        assert forall|key: nat|
            left.combinations.dom().contains(key) implies #[trigger] left.combinations[key]
            == right.combinations[key] by {
            if n + 3 * first.len() <= key < n + 3 * first.len() + 3 * second.len() {
                let d = key - n - 3 * first.len();
                assert((key - n) / 3 == first.len() + d / 3);
                assert((key - n) % 3 == d % 3);
            }
        }
        assert(left.combinations =~= right.combinations);
    }
    assert(left =~= right);
}

/// Witnesses and constraints touch different parts of the model.
pub proof fn lemma_witnesses_pass_constraints(m: SystemModel, ks: Seq<Constraint>, values: Seq<nat>)
    ensures
        with_witnesses(with_constraints(m, ks), values) == with_constraints(
            with_witnesses(m, values),
            ks,
        ),
{
    reveal(with_constraints);
    assert(with_witnesses(with_constraints(m, ks), values) =~= with_constraints(
        with_witnesses(m, values),
        ks,
    ));
}

/// Where constraints are kept, the rows that were added stand for the
/// constraints that were handed over, and the rows before them stand for what
/// they stood for.
pub proof fn lemma_recorded(m: SystemModel, ks: Seq<Constraint>)
    requires
        m.records,
    ensures
        with_constraints(m, ks).rows.len() == m.rows.len() + ks.len(),
        forall|i: int|
            0 <= i < ks.len() ==> #[trigger] recorded(with_constraints(m, ks), m.rows.len() + i)
                == ks[i],
        keys_in_order(m) ==> keys_in_order(with_constraints(m, ks)),
        keys_in_order(m) ==> forall|i: int|
            0 <= i < m.rows.len() && m.combinations.dom().contains(m.rows[i].a)
                && m.combinations.dom().contains(m.rows[i].b) && m.combinations.dom().contains(
                m.rows[i].c,
            ) ==> #[trigger] recorded(with_constraints(m, ks), i) == recorded(m, i),
{
    reveal(with_constraints);
    let n = m.combination_count;
    let after = with_constraints(m, ks);
    assert forall|i: int| 0 <= i < ks.len() implies #[trigger] recorded(after, m.rows.len() + i)
        == ks[i] by {
        let row = after.rows[m.rows.len() + i];
        assert(row == Row {
            a: (n + 3 * i) as nat,
            b: (n + 3 * i + 1) as nat,
            c: (n + 3 * i + 2) as nat,
        });
        assert((3 * i) / 3 == i && (3 * i) % 3 == 0);
        assert((3 * i + 1) / 3 == i && (3 * i + 1) % 3 == 1);
        assert((3 * i + 2) / 3 == i && (3 * i + 2) % 3 == 2);
    }
    if keys_in_order(m) {
        assert forall|i: int| 0 <= i < after.rows.len() implies (#[trigger] after.rows[i]).a
            < after.combination_count && after.rows[i].b < after.combination_count
            && after.rows[i].c < after.combination_count by {
            if i < m.rows.len() {
                assert(after.rows[i] == m.rows[i]);
            }
        }
        assert forall|i: int|
            0 <= i < m.rows.len() && m.combinations.dom().contains(m.rows[i].a)
                && m.combinations.dom().contains(m.rows[i].b) && m.combinations.dom().contains(
                m.rows[i].c,
            ) implies #[trigger] recorded(after, i) == recorded(m, i) by {
            assert(after.rows[i] == m.rows[i]);
        }
    }
}

} // verus!
