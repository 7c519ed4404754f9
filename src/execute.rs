//! The execute pipeline: rebuilding the mutant that a stored mutation
//! describes.
use vstd::prelude::*;
use crate::digest::{content_hash, content_hash_of};
use crate::layout::program_well_formed;
use crate::mutation::{apply_mutation, Mutation, MutationType};
use crate::syntax::{ExpressionType, Program};
use crate::traversal::{lookup_children, program_labels, relabeled, same_program_shape};

verus! {

/// What happened to a program handed over for mutation.
#[derive(Clone, Copy, Debug, PartialEq, Eq, Structural)]
pub enum Preparation {
    /// The program is not the one that the mutation was found in.
    Unchanged,
    /// The mutation was applied.
    Mutated,
    /// The program has the right content hash, but the descriptor does not
    /// fit the node at its index: the traversals are out of step.
    Mismatch,
}

/// The mutation's descriptor fits the node at its index.
pub open spec fn fits(program: Program, mutation: Mutation) -> bool {
    let labels = program_labels(program);
    let k = mutation.traversal_location - 1;
    0 <= k < labels.len() && mutation.mutation_type.applies_to(labels[k])
}

/// Whether `d` fits a node of kind `kind`.
pub fn applies(kind: &ExpressionType, d: &MutationType) -> (r: bool)
    ensures
        r == d.applies_to(*kind),
{
    match (d, kind) {
        (MutationType::BinaryOperatorReplacement { .. }, ExpressionType::Binop { .. }) => true,
        (MutationType::ComparisonOperatorReplacement { .. }, ExpressionType::Compare { ops }) => {
            ops.len() > 0
        },
        (MutationType::NumberConstantReplacement { .. }, ExpressionType::Number { .. }) => true,
        _ => false,
    }
}

/// Applies `mutation` to `program` when the program's content hash
/// `source_hash` is the hash `target_hash` that the mutation was found under
/// and the descriptor fits its node; otherwise leaves the program as it was.
pub fn mutate_if_target(
    program: &mut Program,
    source_hash: &String,
    target_hash: &String,
    mutation: Mutation,
) -> (r: Preparation)
    requires
        program_well_formed(*old(program)),
        program_labels(*old(program)).len() < u64::MAX,
    ensures
        source_hash@ != target_hash@ ==> r == Preparation::Unchanged,
        source_hash@ == target_hash@ && fits(*old(program), mutation) ==> r == Preparation::Mutated,
        source_hash@ == target_hash@ && !fits(*old(program), mutation) ==> r
            == Preparation::Mismatch,
        r == Preparation::Mutated ==> same_program_shape(*final(program), *old(program))
            && relabeled(
            program_labels(*old(program)),
            program_labels(*final(program)),
            mutation.traversal_location - 1,
            mutation.mutation_type,
        ),
        r != Preparation::Mutated ==> *final(program) == *old(program),
        program_well_formed(*final(program)),
{
    if *source_hash != *target_hash {
        return Preparation::Unchanged;
    }
    let mut next: u64 = 1;
    let found = lookup_children(&program.statements, &mut next, mutation.traversal_location);
    match found {
        Some(kind) => {
            if !applies(kind, &mutation.mutation_type) {
                return Preparation::Mismatch;
            }
        },
        None => {
            return Preparation::Mismatch;
        },
    }
    apply_mutation(program, mutation);
    Preparation::Mutated
}

/// Rebuilds a mutant: when `source` is the text that the mutation was found
/// in (its content hash is `target_hash`), applies the mutation to
/// `program`, the freshly parsed `source`.
pub fn prepare_mutant(
    program: &mut Program,
    source: &str,
    target_hash: &String,
    mutation: Mutation,
) -> (r: Preparation)
    requires
        program_well_formed(*old(program)),
        program_labels(*old(program)).len() < u64::MAX,
    ensures
        content_hash_of(source@) != target_hash@ ==> r == Preparation::Unchanged,
        content_hash_of(source@) == target_hash@ && fits(*old(program), mutation) ==> r
            == Preparation::Mutated,
        content_hash_of(source@) == target_hash@ && !fits(*old(program), mutation) ==> r
            == Preparation::Mismatch,
        r == Preparation::Mutated ==> same_program_shape(*final(program), *old(program))
            && relabeled(
            program_labels(*old(program)),
            program_labels(*final(program)),
            mutation.traversal_location - 1,
            mutation.mutation_type,
        ),
        r != Preparation::Mutated ==> *final(program) == *old(program),
        program_well_formed(*final(program)),
{
    let hash = content_hash(source);
    mutate_if_target(program, &hash, target_hash, mutation)
}

/// Mutants do not combine: applying one stored mutation leaves the node of
/// every other index as it was in the freshly parsed program, so each row's
/// mutant is that row alone applied to the source.
pub proof fn lemma_mutants_are_independent(
    program: Program,
    mutant: Program,
    mutation: Mutation,
    other: int,
)
    requires
        relabeled(
            program_labels(program),
            program_labels(mutant),
            mutation.traversal_location - 1,
            mutation.mutation_type,
        ),
        0 <= other < program_labels(program).len(),
        other != mutation.traversal_location - 1,
    ensures
        program_labels(mutant)[other] == program_labels(program)[other],
{
}

} // verus!
