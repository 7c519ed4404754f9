//! The mutation catalog: which descriptors a node shape is offered.
use vstd::prelude::*;
use crate::literal::{number_candidates, replacements, step_known, FloatStep};
use crate::mutation::{all_wf, views, Descriptor, Mutation, MutationType};
use crate::syntax::{ComparisonSerde, ExpressionType, NumberSerde, NumberValue, OperatorSerde};

verus! {

/// The operators that a binary operation may be switched to: a fixed,
/// representative subset of the arithmetic operators.
pub open spec fn operator_choices() -> Seq<OperatorSerde> {
    seq![OperatorSerde::Mult, OperatorSerde::Sub, OperatorSerde::Pow]
}

/// The comparison family, in a fixed order.
pub open spec fn comparison_family() -> Seq<ComparisonSerde> {
    seq![
        ComparisonSerde::Equal,
        ComparisonSerde::NotEqual,
        ComparisonSerde::Less,
        ComparisonSerde::LessOrEqual,
        ComparisonSerde::Greater,
        ComparisonSerde::GreaterOrEqual,
        ComparisonSerde::In,
        ComparisonSerde::NotIn,
        ComparisonSerde::Is,
        ComparisonSerde::IsNot,
    ]
}

/// The elements of `s` other than `c`, in order.
pub open spec fn without(s: Seq<ComparisonSerde>, c: ComparisonSerde) -> Seq<ComparisonSerde>
    decreases s.len(),
{
    if s.len() == 0 {
        s
    } else if s.last() != c {
        without(s.drop_last(), c).push(s.last())
    } else {
        without(s.drop_last(), c)
    }
}

/// The comparison operators other than `c`, in family order.
pub open spec fn comparison_choices(c: ComparisonSerde) -> Seq<ComparisonSerde> {
    without(comparison_family(), c)
}

/// The descriptors proposed for an expression node of kind `kind`.
pub open spec fn catalog(kind: ExpressionType, steps: Seq<FloatStep>) -> Seq<Descriptor> {
    match kind {
        ExpressionType::Binop { .. } => operator_choices().map_values(
            |o: OperatorSerde| Descriptor::Operator(o),
        ),
        ExpressionType::Compare { ops } => if ops@.len() > 0 {
            comparison_choices(ops@[0]).map_values(|c: ComparisonSerde| Descriptor::Comparison(c))
        } else {
            Seq::empty()
        },
        ExpressionType::Number { value } => number_candidates(value.value(), steps).map_values(
            |v: NumberValue| Descriptor::Constant(v),
        ),
        _ => Seq::empty(),
    }
}

/// The expression kind holds a canonical literal, and `steps` knows the
/// neighbours of any binary64 value that a replacement is computed from.
pub open spec fn proposable(kind: ExpressionType, steps: Seq<FloatStep>) -> bool {
    match kind {
        ExpressionType::Number { value } => value.wf() && step_known(value.value(), steps),
        _ => true,
    }
}

/// The candidate mutations at traversal index `index`.
pub open spec fn candidates_at(kind: ExpressionType, index: int, steps: Seq<FloatStep>) -> Seq<
    (int, Descriptor),
> {
    catalog(kind, steps).map_values(|d: Descriptor| (index, d))
}

/// The comparison family.
pub fn comparisons() -> (r: Vec<ComparisonSerde>)
    ensures
        r@ == comparison_family(),
{
    let r = vec![
        ComparisonSerde::Equal,
        ComparisonSerde::NotEqual,
        ComparisonSerde::Less,
        ComparisonSerde::LessOrEqual,
        ComparisonSerde::Greater,
        ComparisonSerde::GreaterOrEqual,
        ComparisonSerde::In,
        ComparisonSerde::NotIn,
        ComparisonSerde::Is,
        ComparisonSerde::IsNot,
    ];
    assert(r@ =~= comparison_family());
    r
}

/// Appends to `out` the candidate mutations for a node of kind `kind` at
/// traversal index `index`.
pub fn propose(kind: &ExpressionType, index: u64, steps: &Vec<FloatStep>, out: &mut Vec<Mutation>)
    requires
        proposable(*kind, steps@),
    ensures
        views(final(out)@) == views(old(out)@) + candidates_at(*kind, index as int, steps@),
        all_wf(old(out)@) ==> all_wf(final(out)@),
{
    let ghost start = out@;
    match kind {
        ExpressionType::Binop { .. } => {
            out.push(
                Mutation {
                    traversal_location: index,
                    mutation_type: MutationType::BinaryOperatorReplacement {
                        new_operator: OperatorSerde::Mult,
                    },
                },
            );
            out.push(
                Mutation {
                    traversal_location: index,
                    mutation_type: MutationType::BinaryOperatorReplacement {
                        new_operator: OperatorSerde::Sub,
                    },
                },
            );
            out.push(
                Mutation {
                    traversal_location: index,
                    mutation_type: MutationType::BinaryOperatorReplacement {
                        new_operator: OperatorSerde::Pow,
                    },
                },
            );
            assert(views(out@) =~= views(start) + candidates_at(*kind, index as int, steps@));
        },
        ExpressionType::Compare { ops } => {
            if ops.len() > 0 {
                let current = ops[0];
                let family = comparisons();
                let mut i: usize = 0;
                while i < family.len()
                    invariant
                        0 <= i <= family.len(),
                        family@ == comparison_family(),
                        views(out@) == views(start) + without(comparison_family().take(i as int), current).map_values(|c: ComparisonSerde| (index as int, Descriptor::Comparison(c))),
                        all_wf(start) ==> all_wf(out@),
                    decreases family.len() - i,
                {
                    let c = family[i];
                    let ghost before = comparison_family().take(i as int);
                    assert(comparison_family().take(i + 1).drop_last() =~= before);
                    assert(comparison_family().take(i + 1).last() == c);
                    let ghost prev = without(before, current).map_values(
                        |c: ComparisonSerde| (index as int, Descriptor::Comparison(c)),
                    );
                    let ghost prev_out = out@;
                    if c != current {
                        assert(without(comparison_family().take(i + 1), current) == without(
                            before,
                            current,
                        ).push(c));
                        assert(without(before, current).push(c).map_values(
                            |c: ComparisonSerde| (index as int, Descriptor::Comparison(c)),
                        ) =~= prev.push((index as int, Descriptor::Comparison(c))));
                        out.push(
                            Mutation {
                                traversal_location: index,
                                mutation_type: MutationType::ComparisonOperatorReplacement {
                                    new_operator: c,
                                },
                            },
                        );
                        assert(views(out@) =~= views(prev_out).push(
                            (index as int, Descriptor::Comparison(c)),
                        ));
                    } else {
                        assert(without(comparison_family().take(i + 1), current) == without(
                            before,
                            current,
                        ));
                    }
                    i += 1;
                    assert(views(out@) =~= views(start) + without(comparison_family().take(i as int), current).map_values(|c: ComparisonSerde| (index as int, Descriptor::Comparison(c))));
                }
                assert(comparison_family().take(10) =~= comparison_family());
                assert(views(out@) =~= views(start) + candidates_at(*kind, index as int, steps@));
            } else {
                assert(views(out@) =~= views(start) + candidates_at(*kind, index as int, steps@));
            }
        },
        ExpressionType::Number { value } => {
            let mut values = replacements(value, steps);
            let ghost vals = values@;
            let mut i: usize = 0;
            let mut staged: Vec<Mutation> = Vec::new();
            while values.len() > 0
                invariant
                    values@.len() + i == vals.len(),
                    vals.len() == 5,
                    values@ == vals.subrange(i as int, vals.len() as int),
                    forall|j: int| 0 <= j < vals.len() ==> (#[trigger] vals[j]).wf(),
                    views(staged@) == vals.take(i as int).map_values(
                        |x: NumberSerde| (index as int, Descriptor::Constant(x.value())),
                    ),
                    all_wf(staged@),
                decreases values.len(),
            {
                assert(values@[0] == vals[i as int]);
                let v = values.remove(0);
                assert(values@ =~= vals.subrange(i + 1, vals.len() as int));
                assert(vals.take(i + 1) =~= vals.take(i as int).push(v));
                let ghost prev = staged@;
                staged.push(
                    Mutation {
                        traversal_location: index,
                        mutation_type: MutationType::NumberConstantReplacement { new_constant: v },
                    },
                );
                assert(staged@ =~= prev.push(staged@.last()));
                assert(views(staged@) =~= views(prev).push((index as int, Descriptor::Constant(v.value()))));
                i += 1;
                assert(views(staged@) =~= vals.take(i as int).map_values(
                    |x: NumberSerde| (index as int, Descriptor::Constant(x.value())),
                ));
            }
            assert(vals.take(i as int) =~= vals);
            let ghost staged_all = staged@;
            let ghost prev_out = out@;
            out.append(&mut staged);
            assert(views(out@) =~= views(prev_out) + views(staged_all));
            assert(vals.map_values(|x: NumberSerde| (index as int, Descriptor::Constant(x.value())))
                =~= candidates_at(*kind, index as int, steps@));
            assert(views(out@) =~= views(start) + candidates_at(*kind, index as int, steps@));
        },
        _ => {
            assert(views(out@) =~= views(start) + candidates_at(*kind, index as int, steps@));
        },
    }
}

} // verus!
