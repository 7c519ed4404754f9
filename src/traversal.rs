//! The pre-order walk over a syntax tree.
use vstd::prelude::*;
use crate::catalog::{candidates_at, propose, proposable};
use crate::literal::FloatStep;
use crate::mutation::{all_wf, views, Descriptor, Mutate, Mutation, MutationType};
use crate::layout::{
    all_well_formed, expression_layout, layout, plays, program_well_formed, well_formed, Role,
};
use crate::syntax::{ExpressionType, Node, NodeKind, Program};

verus! {

/// The label that a node contributes to the walk: its expression kind, if it
/// is an expression node.
pub open spec fn own_label(n: Node) -> Seq<ExpressionType> {
    match n.kind {
        NodeKind::Expression(e) => seq![e],
        _ => Seq::empty(),
    }
}

/// The expression kinds of the tree under `n`, in visiting order: the node
/// itself, then each child's subtree in order.
pub open spec fn labels(n: Node) -> Seq<ExpressionType>
    decreases n,
{
    own_label(n) + labels_seq(n.children@)
}

/// The expression kinds of a sequence of subtrees, in visiting order.
pub open spec fn labels_seq(s: Seq<Node>) -> Seq<ExpressionType>
    decreases s,
{
    if s.len() == 0 {
        Seq::empty()
    } else {
        labels_seq(s.drop_last()) + labels(s.last())
    }
}

} // verus!

verus! {

/// The candidate mutations of a sequence of expression kinds whose first
/// element has traversal index `first`: each node's catalog entries, paired
/// with its index, in visiting order.
pub open spec fn candidates(s: Seq<ExpressionType>, first: int, steps: Seq<FloatStep>) -> Seq<
    (int, Descriptor),
>
    decreases s.len(),
{
    if s.len() == 0 {
        Seq::empty()
    } else {
        candidates(s.drop_last(), first, steps) + candidates_at(
            s.last(),
            first + s.len() - 1,
            steps,
        )
    }
}

/// Every node of `s` can be offered its catalog entries.
pub open spec fn all_proposable(s: Seq<ExpressionType>, steps: Seq<FloatStep>) -> bool {
    forall|i: int| 0 <= i < s.len() ==> proposable(#[trigger] s[i], steps)
}

/// The candidates of a concatenation are those of its parts, the second
/// part numbered on from where the first ends.
pub proof fn lemma_candidates_append(
    a: Seq<ExpressionType>,
    b: Seq<ExpressionType>,
    first: int,
    steps: Seq<FloatStep>,
)
    ensures
        candidates(a + b, first, steps) == candidates(a, first, steps) + candidates(
            b,
            first + a.len(),
            steps,
        ),
    decreases b.len(),
{
    if b.len() == 0 {
        assert(a + b =~= a);
        assert(candidates(b, first + a.len(), steps) =~= Seq::empty());
        assert(candidates(a, first, steps) + Seq::empty() =~= candidates(a, first, steps));
    } else {
        assert((a + b).drop_last() =~= a + b.drop_last());
        assert((a + b).last() == b.last());
        lemma_candidates_append(a, b.drop_last(), first, steps);
        assert(candidates(a + b, first, steps) =~= candidates(a, first, steps) + candidates(
            b,
            first + a.len(),
            steps,
        ));
    }
}

/// The labels of a sequence of subtrees split where the sequence does.
pub proof fn lemma_labels_seq_split(s: Seq<Node>, k: int)
    requires
        0 <= k <= s.len(),
    ensures
        labels_seq(s) == labels_seq(s.take(k)) + labels_seq(s.skip(k)),
    decreases s.len(),
{
    if k == s.len() {
        assert(s.take(k) =~= s);
        assert(s.skip(k) =~= Seq::<Node>::empty());
        assert(labels_seq(s.skip(k)) =~= Seq::empty());
        assert(labels_seq(s) + Seq::empty() =~= labels_seq(s));
    } else {
        lemma_labels_seq_split(s.drop_last(), k);
        assert(s.drop_last().take(k) =~= s.take(k));
        assert(s.skip(k).drop_last() =~= s.drop_last().skip(k));
        assert(s.skip(k).last() == s.last());
        assert(labels_seq(s) =~= labels_seq(s.take(k)) + labels_seq(s.skip(k)));
    }
}

/// One more subtree adds its own labels at the end.
pub proof fn lemma_labels_seq_step(s: Seq<Node>, i: int)
    requires
        0 <= i < s.len(),
    ensures
        labels_seq(s.take(i + 1)) == labels_seq(s.take(i)) + labels(s[i]),
{
    assert(s.take(i + 1).drop_last() =~= s.take(i));
    assert(s.take(i + 1).last() == s[i]);
}

/// Enumeration mode: appends the candidate mutations of the tree under `n`
/// to `out`, numbering expression nodes from `*next` on.
pub fn enumerate_node(n: &Node, next: &mut u64, steps: &Vec<FloatStep>, out: &mut Vec<Mutation>)
    requires
        well_formed(*n),
        all_proposable(labels(*n), steps@),
        *old(next) as int + labels(*n).len() <= u64::MAX,
    ensures
        *final(next) == *old(next) + labels(*n).len(),
        views(final(out)@) == views(old(out)@) + candidates(labels(*n), *old(next) as int, steps@),
        all_wf(old(out)@) ==> all_wf(final(out)@),
    decreases n,
{
    let ghost start_out = out@;
    let ghost start = *next as int;
    let ghost own = own_label(*n);
    if let NodeKind::Expression(e) = &n.kind {
        assert(labels(*n)[0] == *e);
        propose(e, *next, steps, out);
        *next = *next + 1;
        assert(candidates(own, start, steps@) =~= candidates_at(*e, start, steps@)) by {
            assert(own.drop_last() =~= Seq::<ExpressionType>::empty());
            assert(own.last() == *e);
            assert(candidates(own.drop_last(), start, steps@) =~= Seq::empty());
            assert(Seq::empty() + candidates_at(*e, start, steps@) =~= candidates_at(
                *e,
                start,
                steps@,
            ));
        }
    } else {
        assert(own =~= Seq::<ExpressionType>::empty());
        assert(candidates(own, start, steps@) =~= Seq::empty());
        assert(views(out@) + Seq::empty() =~= views(out@));
    }
    assert forall|j: int| 0 <= j < labels_seq(n.children@).len() implies proposable(
        #[trigger] labels_seq(n.children@)[j],
        steps@,
    ) by {
        assert(labels(*n)[own.len() + j] == labels_seq(n.children@)[j]);
    }
    enumerate_children(&n.children, next, steps, out);
    proof {
        lemma_candidates_append(own, labels_seq(n.children@), start, steps@);
    }
}

/// Enumeration mode over a sequence of subtrees, in order.
pub fn enumerate_children(
    children: &Vec<Node>,
    next: &mut u64,
    steps: &Vec<FloatStep>,
    out: &mut Vec<Mutation>,
)
    requires
        all_well_formed(children@),
        all_proposable(labels_seq(children@), steps@),
        *old(next) as int + labels_seq(children@).len() <= u64::MAX,
    ensures
        *final(next) == *old(next) + labels_seq(children@).len(),
        views(final(out)@) == views(old(out)@) + candidates(
            labels_seq(children@),
            *old(next) as int,
            steps@,
        ),
        all_wf(old(out)@) ==> all_wf(final(out)@),
    decreases children,
{
    let ghost start_out = out@;
    let ghost start = *next as int;
    let ghost all = labels_seq(children@);
    assert(children@.take(0) =~= Seq::<Node>::empty());
    assert(candidates(labels_seq(children@.take(0)), start, steps@) =~= Seq::empty());
    assert(views(out@) + Seq::empty() =~= views(out@));
    let mut i: usize = 0;
    while i < children.len()
        invariant
            0 <= i <= children.len(),
            all == labels_seq(children@),
            all_well_formed(children@),
            all_proposable(all, steps@),
            start + all.len() <= u64::MAX,
            *next == start + labels_seq(children@.take(i as int)).len(),
            views(out@) == views(start_out) + candidates(
                labels_seq(children@.take(i as int)),
                start,
                steps@,
            ),
            all_wf(start_out) ==> all_wf(out@),
        decreases children.len() - i,
    {
        let ghost before = labels_seq(children@.take(i as int));
        let ghost child = labels(children@[i as int]);
        proof {
            lemma_labels_seq_step(children@, i as int);
            lemma_labels_seq_split(children@, i + 1);
            assert(all =~= before + child + labels_seq(children@.skip(i + 1)));
            assert forall|j: int| 0 <= j < child.len() implies proposable(#[trigger] child[j], steps@) by {
                assert(all[before.len() + j] == child[j]);
            }
            lemma_candidates_append(before, child, start, steps@);
        }
        enumerate_node(&children[i], next, steps, out);
        i += 1;
    }
    assert(children@.take(i as int) =~= children@);
}

} // verus!

verus! {

/// `a` and `b` have the same structure: the same locations, the same
/// non-expression kinds, expression nodes of the same layout at the same
/// places, and the same children, recursively. Only the payloads of
/// expression kinds may differ.
pub open spec fn same_shape(a: Node, b: Node) -> bool
    decreases a,
{
    &&& a.location == b.location
    &&& a.children.len() == b.children.len()
    &&& match (a.kind, b.kind) {
        (NodeKind::Expression(x), NodeKind::Expression(y)) => expression_layout(x)
            == expression_layout(y),
        (NodeKind::Expression(_), _) => false,
        (_, NodeKind::Expression(_)) => false,
        _ => a.kind == b.kind,
    }
    &&& forall|i: int|
        0 <= i < a.children.len() ==> same_shape(
            #[trigger] a.children@[i],
            b.children@[i],
        )
}

/// The walk of a well-formed node: a node whose kind has no children (a
/// literal, a name, `pass`, `break`, an import) contributes only its own
/// label, exactly once; otherwise the node's label comes first, then each
/// child's walk in layout order (a binary operation's left operand before
/// its right, an assignment's targets before its value, a test before the
/// body).
pub proof fn lemma_walk_order(n: Node)
    requires
        well_formed(n),
    ensures
        layout(n.kind) == Some(Seq::<Role>::empty()) ==> labels(n) == own_label(n),
        n.children.len() == 2 ==> labels(n) == own_label(n) + labels(n.children@[0]) + labels(
            n.children@[1],
        ),
        n.children.len() == 3 ==> labels(n) == own_label(n) + labels(n.children@[0]) + labels(
            n.children@[1],
        ) + labels(n.children@[2]),
{
    let c = n.children@;
    if c.len() == 0 {
        assert(labels_seq(c) =~= Seq::empty());
        assert(own_label(n) + Seq::empty() =~= own_label(n));
    }
    if c.len() == 2 {
        assert(c.drop_last().drop_last() =~= Seq::<Node>::empty());
        assert(labels_seq(c.drop_last().drop_last()) =~= Seq::empty());
        assert(labels_seq(c.drop_last()) =~= labels(c[0]));
        assert(labels(n) =~= own_label(n) + labels(c[0]) + labels(c[1]));
    }
    if c.len() == 3 {
        assert(c.drop_last().drop_last().drop_last() =~= Seq::<Node>::empty());
        assert(labels_seq(c.drop_last().drop_last().drop_last()) =~= Seq::empty());
        assert(labels_seq(c.drop_last().drop_last()) =~= labels(c[0]));
        assert(labels_seq(c.drop_last()) =~= labels(c[0]) + labels(c[1]));
        assert(labels(n) =~= own_label(n) + labels(c[0]) + labels(c[1]) + labels(c[2]));
    }
}

/// A node keeps its role under a change of payloads.
pub proof fn lemma_plays_same_shape(a: Node, b: Node, r: Role)
    requires
        same_shape(a, b),
        plays(b, r),
    ensures
        plays(a, r),
    decreases r,
{
    match r {
        Role::Group(inner) => {
            assert forall|i: int| 0 <= i < a.children.len() implies plays(
                #[trigger] a.children@[i],
                *inner,
            ) by {
                assert(same_shape(a.children@[i], b.children@[i]));
                lemma_plays_same_shape(a.children@[i], b.children@[i], *inner);
            }
        },
        Role::Slot(inner) => {
            assert forall|i: int| 0 <= i < a.children.len() implies plays(
                #[trigger] a.children@[i],
                *inner,
            ) by {
                assert(same_shape(a.children@[i], b.children@[i]));
                lemma_plays_same_shape(a.children@[i], b.children@[i], *inner);
            }
        },
        _ => {},
    }
}

/// A change of payloads keeps a tree well formed.
pub proof fn lemma_well_formed_same_shape(a: Node, b: Node)
    requires
        same_shape(a, b),
        well_formed(b),
    ensures
        well_formed(a),
    decreases a,
{
    assert(layout(a.kind) == layout(b.kind));
    if let Some(roles) = layout(a.kind) {
        assert forall|i: int| 0 <= i < roles.len() implies plays(#[trigger] a.children@[i], roles[i]) by {
            assert(same_shape(a.children@[i], b.children@[i]));
            lemma_plays_same_shape(a.children@[i], b.children@[i], roles[i]);
        }
    }
    assert forall|i: int| 0 <= i < a.children.len() implies well_formed(#[trigger] a.children@[i]) by {
        assert(same_shape(a.children@[i], b.children@[i]));
        assert(well_formed(b.children@[i]));
        lemma_well_formed_same_shape(a.children@[i], b.children@[i]);
    }
}

/// `after` is `before` with the element at position `k` rewritten by `d`
/// (when `k` is a position of `before`) and every other element unchanged.
pub open spec fn relabeled(
    before: Seq<ExpressionType>,
    after: Seq<ExpressionType>,
    k: int,
    d: MutationType,
) -> bool {
    &&& after.len() == before.len()
    &&& forall|j: int| 0 <= j < before.len() && j != k ==> after[j] == before[j]
    &&& 0 <= k < before.len() ==> d.rewrites(before[k], after[k])
}

/// When `k` is a position of `s`, the descriptor's shape matches the node
/// there.
pub open spec fn applicable_at(s: Seq<ExpressionType>, k: int, d: MutationType) -> bool {
    0 <= k < s.len() ==> d.applies_to(s[k])
}

/// Rewrites of two parts at the matching positions make a rewrite of
/// their concatenation.
pub proof fn lemma_relabeled_append(
    a1: Seq<ExpressionType>,
    b1: Seq<ExpressionType>,
    a2: Seq<ExpressionType>,
    b2: Seq<ExpressionType>,
    k: int,
    d: MutationType,
)
    requires
        relabeled(a1, b1, k, d),
        relabeled(a2, b2, k - a1.len(), d),
    ensures
        relabeled(a1 + a2, b1 + b2, k, d),
{
    assert forall|j: int| 0 <= j < (a1 + a2).len() && j != k implies (b1 + b2)[j] == (a1 + a2)[j] by {
        if j < a1.len() {
        } else {
            assert(b2[j - a1.len()] == a2[j - a1.len()]);
        }
    }
    if 0 <= k < (a1 + a2).len() {
        if k < a1.len() {
        } else {
            assert((b1 + b2)[k] == b2[k - a1.len()]);
        }
    }
}

/// Mutation mode: numbering expression nodes from `*next` on, rewrites the
/// node with index `target` by `d`, and leaves everything else as it was.
pub fn mutate_node(n: &mut Node, next: &mut u64, target: u64, d: &MutationType)
    requires
        well_formed(*old(n)),
        *old(next) as int + labels(*old(n)).len() <= u64::MAX,
        applicable_at(labels(*old(n)), target - *old(next), *d),
    ensures
        *final(next) == *old(next) + labels(*old(n)).len(),
        same_shape(*final(n), *old(n)),
        well_formed(*final(n)),
        relabeled(labels(*old(n)), labels(*final(n)), target - *old(next), *d),
    decreases *old(n),
{
    let ghost old_n = *n;
    let ghost start = *next as int;
    let ghost k = target - start;
    let ghost own = own_label(old_n);
    let ghost rest = labels_seq(old_n.children@);
    if let NodeKind::Expression(e) = &n.kind {
        assert(labels(old_n)[0] == *e);
        if *next == target {
            n.mutate(d.duplicate());
        }
        *next = *next + 1;
    }
    let ghost now_own = own_label(*n);
    assert(relabeled(own, now_own, k, *d));
    proof {
        if 0 <= k - own.len() < rest.len() {
            assert(labels(old_n)[k] == rest[k - own.len()]);
        }
    }
    assert(decreases_to!(old_n => old_n.children));
    mutate_children(&mut n.children, next, target, d);
    proof {
        lemma_relabeled_append(own, now_own, rest, labels_seq(n.children@), k, *d);
        assert forall|j: int| 0 <= j < n.children.len() implies same_shape(
            #[trigger] n.children@[j],
            old_n.children@[j],
        ) by {}
        lemma_well_formed_same_shape(*n, old_n);
    }
}

/// Mutation mode over a sequence of subtrees, in order.
pub fn mutate_children(children: &mut Vec<Node>, next: &mut u64, target: u64, d: &MutationType)
    requires
        all_well_formed(old(children)@),
        *old(next) as int + labels_seq(old(children)@).len() <= u64::MAX,
        applicable_at(labels_seq(old(children)@), target - *old(next), *d),
    ensures
        *final(next) == *old(next) + labels_seq(old(children)@).len(),
        final(children)@.len() == old(children)@.len(),
        all_well_formed(final(children)@),
        forall|j: int|
            0 <= j < old(children)@.len() ==> same_shape(
                #[trigger] final(children)@[j],
                old(children)@[j],
            ),
        relabeled(
            labels_seq(old(children)@),
            labels_seq(final(children)@),
            target - *old(next),
            *d,
        ),
    decreases *old(children),
{
    let ghost old_c = children@;
    let ghost old_v = *children;
    let ghost start = *next as int;
    let ghost k = target - start;
    let ghost all = labels_seq(old_c);
    assert(children@.take(0) =~= Seq::<Node>::empty());
    let mut i: usize = 0;
    while i < children.len()
        invariant
            0 <= i <= children.len(),
            children.len() == old_c.len(),
            k == target - start,
            old_v == *old(children),
            old_c == old_v@,
            all_well_formed(old_c),
            forall|j: int| 0 <= j < i ==> well_formed(#[trigger] children@[j]),
            all == labels_seq(old_c),
            applicable_at(all, k, *d),
            start + all.len() <= u64::MAX,
            *next == start + labels_seq(old_c.take(i as int)).len(),
            forall|j: int| 0 <= j < i ==> same_shape(#[trigger] children@[j], old_c[j]),
            forall|j: int| i <= j < children.len() ==> #[trigger] children@[j] == old_c[j],
            relabeled(
                labels_seq(old_c.take(i as int)),
                labels_seq(children@.take(i as int)),
                k,
                *d,
            ),
        decreases children.len() - i,
    {
        let ghost before = labels_seq(old_c.take(i as int));
        let ghost now_before = labels_seq(children@.take(i as int));
        let ghost child = labels(old_c[i as int]);
        let ghost prev = children@;
        proof {
            lemma_labels_seq_step(old_c, i as int);
            lemma_labels_seq_split(old_c, i + 1);
            assert(all =~= before + child + labels_seq(old_c.skip(i + 1)));
            if 0 <= k - before.len() < child.len() {
                assert(all[k] == child[k - before.len()]);
            }
            assert(decreases_to!(old_v => old_v@[i as int]));
        }
        let slot = &mut children[i];
        mutate_node(slot, next, target, d);
        proof {
            let new_child = labels(children@[i as int]);
            assert(children@.take(i as int) =~= prev.take(i as int));
            lemma_labels_seq_step(children@, i as int);
            lemma_relabeled_append(before, now_before, child, new_child, k, *d);
        }
        i += 1;
    }
    proof {
        assert(children@.take(i as int) =~= children@);
        assert(old_c.take(i as int) =~= old_c);
        assert(all_well_formed(children@));
    }
}

/// Finds the expression kind of the node with index `target`, numbering
/// expression nodes of the tree under `n` from `*next` on. When there is
/// none, `*next` has moved past the whole tree.
pub fn lookup_node<'a>(n: &'a Node, next: &mut u64, target: u64) -> (r: Option<&'a ExpressionType>)
    requires
        well_formed(*n),
        *old(next) as int + labels(*n).len() <= u64::MAX,
    ensures
        r is Some <==> 0 <= target - *old(next) < labels(*n).len(),
        r matches Some(e) ==> *e == labels(*n)[target - *old(next)],
        r is None ==> *final(next) == *old(next) + labels(*n).len(),
    decreases n,
{
    let ghost start = *next as int;
    let ghost own = own_label(*n);
    if let NodeKind::Expression(e) = &n.kind {
        if *next == target {
            return Some(e);
        }
        *next = *next + 1;
    }
    let r = lookup_children(&n.children, next, target);
    proof {
        if let Some(e) = r {
            assert(labels(*n)[target - start] == labels_seq(n.children@)[target - start - own.len()]);
        }
    }
    r
}

/// [`lookup_node`] over a sequence of subtrees.
pub fn lookup_children<'a>(children: &'a Vec<Node>, next: &mut u64, target: u64) -> (r: Option<
    &'a ExpressionType,
>)
    requires
        all_well_formed(children@),
        *old(next) as int + labels_seq(children@).len() <= u64::MAX,
    ensures
        r is Some <==> 0 <= target - *old(next) < labels_seq(children@).len(),
        r matches Some(e) ==> *e == labels_seq(children@)[target - *old(next)],
        r is None ==> *final(next) == *old(next) + labels_seq(children@).len(),
    decreases children,
{
    let ghost start = *next as int;
    let ghost all = labels_seq(children@);
    assert(children@.take(0) =~= Seq::<Node>::empty());
    let mut i: usize = 0;
    while i < children.len()
        invariant
            0 <= i <= children.len(),
            all == labels_seq(children@),
            all_well_formed(children@),
            start == *old(next),
            start + all.len() <= u64::MAX,
            *next == start + labels_seq(children@.take(i as int)).len(),
            !(0 <= target - start < labels_seq(children@.take(i as int)).len()),
        decreases children.len() - i,
    {
        let ghost before = labels_seq(children@.take(i as int));
        let ghost child = labels(children@[i as int]);
        proof {
            lemma_labels_seq_step(children@, i as int);
            lemma_labels_seq_split(children@, i + 1);
            assert(all =~= before + child + labels_seq(children@.skip(i + 1)));
        }
        let r = lookup_node(&children[i], next, target);
        if let Some(e) = r {
            assert(0 <= target - start < all.len());
            assert(all[target - start] == child[target - start - before.len()]);
            return Some(e);
        }
        i += 1;
    }
    assert(children@.take(i as int) =~= children@);
    None
}

/// The expression kinds of a program, in visiting order.
pub open spec fn program_labels(p: Program) -> Seq<ExpressionType> {
    labels_seq(p.statements@)
}

/// Two programs have the same structure (see [`same_shape`]).
pub open spec fn same_program_shape(a: Program, b: Program) -> bool {
    &&& a.statements.len() == b.statements.len()
    &&& forall|i: int|
        0 <= i < a.statements.len() ==> same_shape(
            #[trigger] a.statements@[i],
            b.statements@[i],
        )
}

/// A syntax tree that can be walked in both modes, over the same order.
pub trait Visitor: Sized {
    /// The expression kinds, in visiting order.
    spec fn expressions(&self) -> Seq<ExpressionType>;

    /// Same structure, expression payloads aside.
    spec fn shaped_like(&self, other: Self) -> bool;

    /// Every node follows the layout of its kind.
    spec fn is_well_formed(&self) -> bool;

    /// Enumeration mode: appends the candidate mutations, numbering
    /// expression nodes from `*next` on.
    fn visit(&self, next: &mut u64, steps: &Vec<FloatStep>, out: &mut Vec<Mutation>)
        requires
            self.is_well_formed(),
            all_proposable(self.expressions(), steps@),
            *old(next) as int + self.expressions().len() <= u64::MAX,
        ensures
            *final(next) == *old(next) + self.expressions().len(),
            views(final(out)@) == views(old(out)@) + candidates(
                self.expressions(),
                *old(next) as int,
                steps@,
            ),
            all_wf(old(out)@) ==> all_wf(final(out)@),
    ;

    /// Mutation mode: rewrites the node with index `target` by `d`,
    /// numbering expression nodes from `*next` on.
    fn visit_mut(&mut self, next: &mut u64, target: u64, d: &MutationType)
        requires
            old(self).is_well_formed(),
            *old(next) as int + old(self).expressions().len() <= u64::MAX,
            applicable_at(old(self).expressions(), target - *old(next), *d),
        ensures
            *final(next) == *old(next) + old(self).expressions().len(),
            final(self).shaped_like(*old(self)),
            final(self).is_well_formed(),
            relabeled(
                old(self).expressions(),
                final(self).expressions(),
                target - *old(next),
                *d,
            ),
    ;
}

impl Visitor for Node {
    open spec fn expressions(&self) -> Seq<ExpressionType> {
        labels(*self)
    }

    open spec fn shaped_like(&self, other: Node) -> bool {
        same_shape(*self, other)
    }

    open spec fn is_well_formed(&self) -> bool {
        well_formed(*self)
    }

    fn visit(&self, next: &mut u64, steps: &Vec<FloatStep>, out: &mut Vec<Mutation>) {
        enumerate_node(self, next, steps, out);
    }

    fn visit_mut(&mut self, next: &mut u64, target: u64, d: &MutationType) {
        mutate_node(self, next, target, d);
    }
}

impl Visitor for Program {
    open spec fn expressions(&self) -> Seq<ExpressionType> {
        program_labels(*self)
    }

    open spec fn shaped_like(&self, other: Program) -> bool {
        same_program_shape(*self, other)
    }

    open spec fn is_well_formed(&self) -> bool {
        program_well_formed(*self)
    }

    fn visit(&self, next: &mut u64, steps: &Vec<FloatStep>, out: &mut Vec<Mutation>) {
        enumerate_children(&self.statements, next, steps, out);
    }

    fn visit_mut(&mut self, next: &mut u64, target: u64, d: &MutationType) {
        let ghost before = *self;
        mutate_children(&mut self.statements, next, target, d);
        assert forall|i: int| 0 <= i < self.statements.len() implies (
        #[trigger] self.statements@[i]).kind is Statement by {
            assert(same_shape(self.statements@[i], before.statements@[i]));
        }
    }
}

} // verus!
