//! Mutation descriptors and their application to a syntax tree.
use vstd::prelude::*;
use crate::catalog::{candidates_at, catalog};
use crate::layout::program_well_formed;
use crate::literal::{same_representation, FloatStep};
use crate::syntax::{
    ComparisonSerde, ExpressionType, Node, NodeKind, NumberSerde, NumberValue, OperatorSerde, Program,
};
use crate::traversal::{
    all_proposable, applicable_at, candidates, program_labels, relabeled, same_program_shape, Visitor,
};

verus! {

/// One syntactic substitution, typed by the node kind that it targets.
#[derive(Debug, PartialEq, Eq)]
pub enum MutationType {
    /// Replace the operator of a binary operation.
    BinaryOperatorReplacement { new_operator: OperatorSerde },
    /// Replace the first operator of a comparison.
    ComparisonOperatorReplacement { new_operator: ComparisonSerde },
    /// Replace the value of a numeric literal.
    NumberConstantReplacement { new_constant: NumberSerde },
}

/// What a descriptor says, with numbers by value.
pub enum Descriptor {
    Operator(OperatorSerde),
    Comparison(ComparisonSerde),
    Constant(NumberValue),
}

impl View for MutationType {
    type V = Descriptor;

    open spec fn view(&self) -> Descriptor {
        match self {
            MutationType::BinaryOperatorReplacement { new_operator } => Descriptor::Operator(
                *new_operator,
            ),
            MutationType::ComparisonOperatorReplacement { new_operator } => Descriptor::Comparison(
                *new_operator,
            ),
            MutationType::NumberConstantReplacement { new_constant } => Descriptor::Constant(
                new_constant.value(),
            ),
        }
    }
}

impl MutationType {
    /// A numeric payload is in canonical form.
    pub open spec fn wf(&self) -> bool {
        match self {
            MutationType::NumberConstantReplacement { new_constant } => new_constant.wf(),
            _ => true,
        }
    }
}

/// A candidate mutation: a descriptor and the traversal index of the node
/// that it targets.
#[derive(Debug, PartialEq, Eq)]
pub struct Mutation {
    pub traversal_location: u64,
    pub mutation_type: MutationType,
}

impl View for Mutation {
    type V = (int, Descriptor);

    open spec fn view(&self) -> (int, Descriptor) {
        (self.traversal_location as int, self.mutation_type@)
    }
}

/// The views of a sequence of mutations.
pub open spec fn views(s: Seq<Mutation>) -> Seq<(int, Descriptor)> {
    s.map_values(|m: Mutation| m@)
}

/// Every descriptor of the sequence is in canonical form.
pub open spec fn all_wf(s: Seq<Mutation>) -> bool {
    forall|i: int| 0 <= i < s.len() ==> (#[trigger] s[i]).mutation_type.wf()
}

} // verus!

verus! {

/// Two descriptors are the same, numbers compared by representation.
pub open spec fn same_descriptor(a: MutationType, b: MutationType) -> bool {
    match (a, b) {
        (
            MutationType::NumberConstantReplacement { new_constant: x },
            MutationType::NumberConstantReplacement { new_constant: y },
        ) => same_representation(x, y),
        _ => a == b,
    }
}

impl MutationType {
    /// The descriptor's shape matches an expression node of kind `kind`.
    pub open spec fn applies_to(&self, kind: ExpressionType) -> bool {
        match (*self, kind) {
            (MutationType::BinaryOperatorReplacement { .. }, ExpressionType::Binop { .. }) => true,
            (
                MutationType::ComparisonOperatorReplacement { .. },
                ExpressionType::Compare { ops },
            ) => ops@.len() > 0,
            (MutationType::NumberConstantReplacement { .. }, ExpressionType::Number { .. }) => true,
            _ => false,
        }
    }

    /// `after` is `before` with the descriptor's payload written in: the new
    /// operator of a binary operation, the new first operator of a
    /// comparison, or the new value of a literal.
    pub open spec fn rewrites(&self, before: ExpressionType, after: ExpressionType) -> bool {
        match (*self, before, after) {
            (
                MutationType::BinaryOperatorReplacement { new_operator },
                ExpressionType::Binop { .. },
                ExpressionType::Binop { op },
            ) => op == new_operator,
            (
                MutationType::ComparisonOperatorReplacement { new_operator },
                ExpressionType::Compare { ops: b },
                ExpressionType::Compare { ops: a },
            ) => a@ == b@.update(0, new_operator),
            (
                MutationType::NumberConstantReplacement { new_constant },
                ExpressionType::Number { .. },
                ExpressionType::Number { value },
            ) => same_representation(value, new_constant),
            _ => false,
        }
    }

    /// A copy of this descriptor.
    pub fn duplicate(&self) -> (r: MutationType)
        ensures
            same_descriptor(r, *self),
            r@ == self@,
            r.wf() == self.wf(),
    {
        match self {
            MutationType::BinaryOperatorReplacement { new_operator } => {
                MutationType::BinaryOperatorReplacement { new_operator: *new_operator }
            },
            MutationType::ComparisonOperatorReplacement { new_operator } => {
                MutationType::ComparisonOperatorReplacement { new_operator: *new_operator }
            },
            MutationType::NumberConstantReplacement { new_constant } => {
                MutationType::NumberConstantReplacement { new_constant: copy_number(new_constant) }
            },
        }
    }
}

/// A copy of a numeric literal.
pub fn copy_number(n: &NumberSerde) -> (r: NumberSerde)
    ensures
        same_representation(r, *n),
        r.value() == n.value(),
        r.wf() == n.wf(),
{
    match n {
        NumberSerde::Integer { negative, magnitude } => {
            let mut digits: Vec<u32> = Vec::new();
            let mut i: usize = 0;
            while i < magnitude.len()
                invariant
                    0 <= i <= magnitude.len(),
                    digits@ == magnitude@.take(i as int),
                decreases magnitude.len() - i,
            {
                digits.push(magnitude[i]);
                i += 1;
                assert(digits@ =~= magnitude@.take(i as int));
            }
            assert(digits@ =~= magnitude@);
            NumberSerde::Integer { negative: *negative, magnitude: digits }
        },
        NumberSerde::Float { bits } => NumberSerde::Float { bits: *bits },
        NumberSerde::Complex { real: re, imag: im } => NumberSerde::Complex { real: *re, imag: *im },
    }
}

/// Rewriting a node's payload according to a descriptor.
pub trait Mutate: Sized {
    /// The descriptor's shape matches this node.
    spec fn accepts(&self, mutation_type: MutationType) -> bool;

    /// This node is `before` with the descriptor applied.
    spec fn mutation_of(&self, before: Self, mutation_type: MutationType) -> bool;

    fn mutate(&mut self, mutation_type: MutationType)
        requires
            old(self).accepts(mutation_type),
        ensures
            final(self).mutation_of(*old(self), mutation_type),
    ;
}

impl Mutate for Node {
    open spec fn accepts(&self, mutation_type: MutationType) -> bool {
        match self.kind {
            NodeKind::Expression(e) => mutation_type.applies_to(e),
            _ => false,
        }
    }

    open spec fn mutation_of(&self, before: Node, mutation_type: MutationType) -> bool {
        &&& self.location == before.location
        &&& self.children == before.children
        &&& match (before.kind, self.kind) {
            (NodeKind::Expression(b), NodeKind::Expression(a)) => mutation_type.rewrites(b, a),
            _ => false,
        }
    }

    fn mutate(&mut self, mutation_type: MutationType) {
        match mutation_type {
            MutationType::BinaryOperatorReplacement { new_operator } => {
                match &mut self.kind {
                    NodeKind::Expression(ExpressionType::Binop { op }) => {
                        *op = new_operator;
                    },
                    _ => {},
                }
            },
            MutationType::ComparisonOperatorReplacement { new_operator } => {
                match &mut self.kind {
                    NodeKind::Expression(ExpressionType::Compare { ops }) => {
                        ops.set(0, new_operator);
                    },
                    _ => {},
                }
            },
            MutationType::NumberConstantReplacement { new_constant } => {
                match &mut self.kind {
                    NodeKind::Expression(ExpressionType::Number { value }) => {
                        *value = new_constant;
                    },
                    _ => {},
                }
            },
        }
    }
}

/// All candidate mutations of a program, in visiting order: each expression
/// node's catalog entries, paired with its traversal index. Indices start at
/// one. `steps` gives the unit neighbours of the binary64 literals.
pub fn explore_mutations(program: &Program, steps: &Vec<FloatStep>) -> (r: Vec<Mutation>)
    requires
        program_well_formed(*program),
        all_proposable(program_labels(*program), steps@),
        program_labels(*program).len() < u64::MAX,
    ensures
        views(r@) == candidates(program_labels(*program), 1, steps@),
        all_wf(r@),
{
    let mut out: Vec<Mutation> = Vec::new();
    let mut next: u64 = 1;
    program.visit(&mut next, steps, &mut out);
    assert(views(Seq::<Mutation>::empty()) =~= Seq::empty());
    assert(Seq::<(int, Descriptor)>::empty() + candidates(program_labels(*program), 1, steps@)
        =~= candidates(program_labels(*program), 1, steps@));
    out
}

/// Applies one mutation: rewrites the expression node whose traversal index
/// is `mutation.traversal_location` and leaves the rest of the program as it
/// was. The descriptor must fit that node.
pub fn apply_mutation(program: &mut Program, mutation: Mutation)
    requires
        program_well_formed(*old(program)),
        program_labels(*old(program)).len() < u64::MAX,
        applicable_at(
            program_labels(*old(program)),
            mutation.traversal_location - 1,
            mutation.mutation_type,
        ),
    ensures
        program_well_formed(*final(program)),
        same_program_shape(*final(program), *old(program)),
        relabeled(
            program_labels(*old(program)),
            program_labels(*final(program)),
            mutation.traversal_location - 1,
            mutation.mutation_type,
        ),
{
    let mut next: u64 = 1;
    program.visit_mut(&mut next, mutation.traversal_location, &mutation.mutation_type);
}

/// The candidate at position `j` comes from the node that its index
/// names: its index is one of the nodes', and its descriptor is among that
/// node's catalog entries.
pub proof fn lemma_candidate_origin(
    s: Seq<ExpressionType>,
    first: int,
    steps: Seq<FloatStep>,
    j: int,
)
    requires
        0 <= j < candidates(s, first, steps).len(),
    ensures
        first <= candidates(s, first, steps)[j].0 < first + s.len(),
        catalog(s[candidates(s, first, steps)[j].0 - first], steps).contains(
            candidates(s, first, steps)[j].1,
        ),
    decreases s.len(),
{
    let prefix = candidates(s.drop_last(), first, steps);
    if j < prefix.len() {
        lemma_candidate_origin(s.drop_last(), first, steps, j);
        assert(candidates(s, first, steps)[j] == prefix[j]);
    } else {
        let tail = candidates_at(s.last(), first + s.len() - 1, steps);
        assert(candidates(s, first, steps)[j] == tail[j - prefix.len()]);
        assert(catalog(s.last(), steps)[j - prefix.len()] == tail[j - prefix.len()].1);
    }
}

/// Index stability: a mutation found by enumeration can be re-applied by
/// `apply_mutation` to the same, unmodified program. Both traversals number
/// the expression nodes alike, so its index names the node whose shape
/// produced it, and its descriptor fits that node.
pub proof fn lemma_enumerated_mutation_applies(
    program: Program,
    steps: Seq<FloatStep>,
    j: int,
    mutation: Mutation,
)
    requires
        0 <= j < candidates(program_labels(program), 1, steps).len(),
        mutation@ == candidates(program_labels(program), 1, steps)[j],
    ensures
        1 <= mutation.traversal_location <= program_labels(program).len(),
        applicable_at(
            program_labels(program),
            mutation.traversal_location - 1,
            mutation.mutation_type,
        ),
{
    let labels = program_labels(program);
    lemma_candidate_origin(labels, 1, steps, j);
    let k = mutation.traversal_location - 1;
    let d = mutation.mutation_type@;
    let i = choose|i: int| 0 <= i < catalog(labels[k], steps).len() && catalog(labels[k], steps)[i]
        == d;
    match labels[k] {
        ExpressionType::Binop { .. } => {
            assert(d is Operator);
        },
        ExpressionType::Compare { ops } => {
            assert(ops@.len() > 0);
            assert(d is Comparison);
        },
        ExpressionType::Number { .. } => {
            assert(d is Constant);
        },
        _ => {},
    }
}

} // verus!
