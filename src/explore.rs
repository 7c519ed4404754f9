//! The explorer: from a parsed source to the mutations worth keeping.
use vstd::prelude::*;
use crate::catalog::proposable;
use crate::digest::{content_hash, content_hash_of};
use crate::layout::program_well_formed;
use crate::literal::{same_value, FloatStep};
use crate::mutation::{all_wf, explore_mutations, views, Descriptor, Mutation, MutationType};
use crate::syntax::{ExpressionType, Program};
use crate::traversal::{all_proposable, candidates, lookup_children, program_labels, relabeled};

verus! {

/// Applying `d` to a node of kind `kind` gives a different node.
pub open spec fn changes(kind: ExpressionType, d: Descriptor) -> bool {
    match (kind, d) {
        (ExpressionType::Binop { op }, Descriptor::Operator(o)) => o != op,
        (ExpressionType::Compare { ops }, Descriptor::Comparison(c)) => ops@.len() == 0 || c
            != ops@[0],
        (ExpressionType::Number { value }, Descriptor::Constant(v)) => v != value.value(),
        _ => true,
    }
}

/// The candidate targets an expression node of `labels` and changes it.
pub open spec fn effective(labels: Seq<ExpressionType>, c: (int, Descriptor)) -> bool {
    1 <= c.0 <= labels.len() && changes(labels[c.0 - 1], c.1)
}

/// The candidates that are effective, each kept at its first occurrence, in
/// order.
pub open spec fn survivors(labels: Seq<ExpressionType>, cands: Seq<(int, Descriptor)>) -> Seq<
    (int, Descriptor),
>
    decreases cands.len(),
{
    if cands.len() == 0 {
        Seq::empty()
    } else {
        let rest = survivors(labels, cands.drop_last());
        let c = cands.last();
        if effective(labels, c) && !rest.contains(c) {
            rest.push(c)
        } else {
            rest
        }
    }
}

/// Every literal among `labels` is in canonical form.
pub open spec fn literals_canonical(labels: Seq<ExpressionType>) -> bool {
    forall|i: int|
        0 <= i < labels.len() ==> match #[trigger] labels[i] {
            ExpressionType::Number { value } => value.wf(),
            _ => true,
        }
}

/// Whether `d` changes a node of kind `kind`.
pub fn changes_node(kind: &ExpressionType, d: &MutationType) -> (r: bool)
    requires
        d.wf(),
        kind matches ExpressionType::Number { value } ==> value.wf(),
    ensures
        r == changes(*kind, d@),
{
    match (kind, d) {
        (
            ExpressionType::Binop { op },
            MutationType::BinaryOperatorReplacement { new_operator },
        ) => *op != *new_operator,
        (
            ExpressionType::Compare { ops },
            MutationType::ComparisonOperatorReplacement { new_operator },
        ) => ops.len() == 0 || ops[0] != *new_operator,
        (
            ExpressionType::Number { value },
            MutationType::NumberConstantReplacement { new_constant },
        ) => !same_value(new_constant, value),
        _ => true,
    }
}

/// Whether two canonical descriptors say the same.
pub fn same_descriptor_value(a: &MutationType, b: &MutationType) -> (r: bool)
    requires
        a.wf(),
        b.wf(),
    ensures
        r == (a@ == b@),
{
    match (a, b) {
        (
            MutationType::BinaryOperatorReplacement { new_operator: x },
            MutationType::BinaryOperatorReplacement { new_operator: y },
        ) => *x == *y,
        (
            MutationType::ComparisonOperatorReplacement { new_operator: x },
            MutationType::ComparisonOperatorReplacement { new_operator: y },
        ) => *x == *y,
        (
            MutationType::NumberConstantReplacement { new_constant: x },
            MutationType::NumberConstantReplacement { new_constant: y },
        ) => same_value(x, y),
        _ => false,
    }
}

/// Whether a mutation with the same view is already in `list`.
pub fn listed(list: &Vec<Mutation>, m: &Mutation) -> (r: bool)
    requires
        all_wf(list@),
        m.mutation_type.wf(),
    ensures
        r == views(list@).contains(m@),
{
    let mut i: usize = 0;
    while i < list.len()
        invariant
            0 <= i <= list.len(),
            all_wf(list@),
            m.mutation_type.wf(),
            forall|j: int| 0 <= j < i ==> views(list@)[j] != m@,
        decreases list.len() - i,
    {
        let e = &list[i];
        assert(views(list@)[i as int] == e@);
        if e.traversal_location == m.traversal_location && same_descriptor_value(
            &e.mutation_type,
            &m.mutation_type,
        ) {
            return true;
        }
        i += 1;
    }
    assert forall|j: int| 0 <= j < views(list@).len() implies views(list@)[j] != m@ by {}
    false
}

/// The no-op filter: keeps the mutations of `found` that change the node
/// they target, dropping repeats.
pub fn drop_noops(program: &Program, found: &Vec<Mutation>) -> (r: Vec<Mutation>)
    requires
        program_well_formed(*program),
        program_labels(*program).len() < u64::MAX,
        literals_canonical(program_labels(*program)),
        all_wf(found@),
    ensures
        views(r@) == survivors(program_labels(*program), views(found@)),
        all_wf(r@),
{
    let ghost labels = program_labels(*program);
    let ghost cands = views(found@);
    let mut kept: Vec<Mutation> = Vec::new();
    assert(cands.take(0) =~= Seq::<(int, Descriptor)>::empty());
    assert(views(kept@) =~= Seq::<(int, Descriptor)>::empty());
    let mut i: usize = 0;
    while i < found.len()
        invariant
            0 <= i <= found.len(),
            labels == program_labels(*program),
            program_well_formed(*program),
            labels.len() < u64::MAX,
            literals_canonical(labels),
            cands == views(found@),
            all_wf(found@),
            all_wf(kept@),
            views(kept@) == survivors(labels, cands.take(i as int)),
        decreases found.len() - i,
    {
        let m = &found[i];
        let ghost c = cands[i as int];
        assert(c == m@);
        assert(cands.take(i + 1).drop_last() =~= cands.take(i as int));
        assert(cands.take(i + 1).last() == c);
        let mut next: u64 = 1;
        let kind = lookup_children(&program.statements, &mut next, m.traversal_location);
        if let Some(kind) = kind {
            assert(*kind == labels[c.0 - 1]);
            if changes_node(kind, &m.mutation_type) && !listed(&kept, m) {
                let ghost prev = kept@;
                kept.push(
                    Mutation {
                        traversal_location: m.traversal_location,
                        mutation_type: m.mutation_type.duplicate(),
                    },
                );
                assert(views(kept@) =~= views(prev).push(c));
            }
        }
        i += 1;
    }
    assert(cands.take(i as int) =~= cands);
    kept
}

/// The outcome of exploring one source: its content hash, how many
/// candidates the catalog proposed, and the effective ones without repeats.
pub struct Exploration {
    pub content_hash: String,
    pub candidates: usize,
    pub mutations: Vec<Mutation>,
}

/// Explores a parsed source: hashes the text, enumerates every candidate
/// mutation and keeps those that change the program.
pub fn explore(source: &str, program: &Program, steps: &Vec<FloatStep>) -> (r: Exploration)
    requires
        program_well_formed(*program),
        all_proposable(program_labels(*program), steps@),
        program_labels(*program).len() < u64::MAX,
    ensures
        r.content_hash@ == content_hash_of(source@),
        r.candidates == candidates(program_labels(*program), 1, steps@).len(),
        views(r.mutations@) == survivors(
            program_labels(*program),
            candidates(program_labels(*program), 1, steps@),
        ),
        all_wf(r.mutations@),
{
    let hash = content_hash(source);
    let found = explore_mutations(program, steps);
    assert forall|i: int| 0 <= i < program_labels(*program).len() implies match #[trigger] program_labels(
        *program,
    )[i] {
        ExpressionType::Number { value } => value.wf(),
        _ => true,
    } by {
        assert(proposable(program_labels(*program)[i], steps@));
    }
    let mutations = drop_noops(program, &found);
    proof {
        assert(found@.len() == views(found@).len());
    }
    Exploration { content_hash: hash, candidates: found.len(), mutations }
}

/// Every survivor is effective, and none occurs twice.
pub proof fn lemma_survivors_effective(labels: Seq<ExpressionType>, cands: Seq<(int, Descriptor)>)
    ensures
        forall|j: int|
            0 <= j < survivors(labels, cands).len() ==> effective(
                labels,
                #[trigger] survivors(labels, cands)[j],
            ),
        survivors(labels, cands).no_duplicates(),
    decreases cands.len(),
{
    if cands.len() > 0 {
        lemma_survivors_effective(labels, cands.drop_last());
    }
}

/// Exploring an unchanged program twice yields the same rows, none of them
/// repeated; adding them again to a store that ignores rows it already holds
/// changes nothing.
pub proof fn lemma_exploration_idempotent(
    program: Program,
    steps: Seq<FloatStep>,
    store: Set<(int, Descriptor)>,
)
    ensures
        ({
            let labels = program_labels(program);
            let rows = survivors(labels, candidates(labels, 1, steps));
            &&& rows.no_duplicates()
            &&& store.union(rows.to_set()).union(rows.to_set()) == store.union(rows.to_set())
        }),
{
    let labels = program_labels(program);
    let rows = survivors(labels, candidates(labels, 1, steps));
    lemma_survivors_effective(labels, candidates(labels, 1, steps));
    assert(store.union(rows.to_set()).union(rows.to_set()) =~= store.union(rows.to_set()));
}

/// A kept mutation never yields a mutant identical to the unmutated program:
/// applied as `apply_mutation` applies it, it changes the expression kinds of
/// the program.
pub proof fn lemma_kept_mutation_changes_program(
    labels: Seq<ExpressionType>,
    cands: Seq<(int, Descriptor)>,
    j: int,
    mutation: MutationType,
    mutant: Seq<ExpressionType>,
)
    requires
        0 <= j < survivors(labels, cands).len(),
        mutation@ == survivors(labels, cands)[j].1,
        mutation.applies_to(labels[survivors(labels, cands)[j].0 - 1]),
        relabeled(labels, mutant, survivors(labels, cands)[j].0 - 1, mutation),
    ensures
        mutant != labels,
{
    lemma_survivors_effective(labels, cands);
    let k = survivors(labels, cands)[j].0 - 1;
    if mutant == labels {
        assert(mutation.rewrites(labels[k], labels[k]));
        match (labels[k], mutation) {
            (
                ExpressionType::Number { value },
                MutationType::NumberConstantReplacement { new_constant },
            ) => {
                assert(new_constant.value() == value.value());
            },
            (
                ExpressionType::Compare { ops },
                MutationType::ComparisonOperatorReplacement { new_operator },
            ) => {
                assert(ops@.update(0, new_operator)[0] == new_operator);
            },
            _ => {},
        }
    }
}

} // verus!
