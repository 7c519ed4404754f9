use pymutant::catalog::propose;
use pymutant::execute::{prepare_mutant, Preparation};
use pymutant::explore::{drop_noops, explore};
use pymutant::literal::{replacements, FloatStep};
use pymutant::mutation::{apply_mutation, explore_mutations, Mutation, MutationType};
use pymutant::syntax::{
    ComparisonSerde, ExpressionType, Location, Node, NodeKind, NumberSerde, OperatorSerde, Program,
    StatementType,
};

fn at(row: u64) -> Location {
    Location { row, column: 1 }
}

fn node(kind: NodeKind, children: Vec<Node>) -> Node {
    Node { location: at(1), kind, children }
}

fn expr(kind: ExpressionType, children: Vec<Node>) -> Node {
    node(NodeKind::Expression(kind), children)
}

fn integer(v: i64) -> NumberSerde {
    let magnitude = if v == 0 { vec![] } else { vec![v.unsigned_abs() as u32] };
    NumberSerde::Integer { negative: v < 0, magnitude }
}

fn number(v: i64) -> Node {
    expr(ExpressionType::Number { value: integer(v) }, vec![])
}

fn name(n: &str) -> Node {
    expr(ExpressionType::Identifier { name: n.to_string() }, vec![])
}

fn binop(a: Node, op: OperatorSerde, b: Node) -> Node {
    expr(ExpressionType::Binop { op }, vec![a, b])
}

fn assign(target: Node, value: Node) -> Node {
    node(
        NodeKind::Statement(StatementType::Assign),
        vec![node(NodeKind::Group, vec![target]), value],
    )
}

/// `x = 1 + 2`
fn sum_program() -> Program {
    Program { statements: vec![assign(name("x"), binop(number(1), OperatorSerde::Add, number(2)))] }
}

fn op_at(loc: u64, op: OperatorSerde) -> Mutation {
    Mutation {
        traversal_location: loc,
        mutation_type: MutationType::BinaryOperatorReplacement { new_operator: op },
    }
}

fn const_at(loc: u64, v: i64) -> Mutation {
    Mutation {
        traversal_location: loc,
        mutation_type: MutationType::NumberConstantReplacement { new_constant: integer(v) },
    }
}

fn binop_of(p: &Program) -> &Node {
    &p.statements[0].children[1]
}

#[test]
fn sum_program_candidates_in_visiting_order() {
    let p = sum_program();
    let found = explore_mutations(&p, &vec![]);
    let expected = vec![
        op_at(2, OperatorSerde::Mult),
        op_at(2, OperatorSerde::Sub),
        op_at(2, OperatorSerde::Pow),
        const_at(3, 2),
        const_at(3, 0),
        const_at(3, 0),
        const_at(3, 1),
        const_at(3, -1),
        const_at(4, 3),
        const_at(4, 1),
        const_at(4, 0),
        const_at(4, 1),
        const_at(4, -1),
    ];
    assert_eq!(found, expected);
}

#[test]
fn sum_program_exploration_keeps_effective_mutations_once() {
    let p = sum_program();
    let e = explore("x = 1 + 2", &p, &vec![]);
    assert_eq!(e.content_hash, "b109bff7efc18bd11dd5f21f8ea1c9014de55d64");
    assert_eq!(e.candidates, 13);
    let expected = vec![
        op_at(2, OperatorSerde::Mult),
        op_at(2, OperatorSerde::Sub),
        op_at(2, OperatorSerde::Pow),
        const_at(3, 2),
        const_at(3, 0),
        const_at(3, -1),
        const_at(4, 3),
        const_at(4, 1),
        const_at(4, 0),
        const_at(4, -1),
    ];
    assert_eq!(e.mutations, expected);
}

#[test]
fn exploring_twice_gives_the_same_rows() {
    let p = sum_program();
    let first = explore("x = 1 + 2", &p, &vec![]);
    let second = explore("x = 1 + 2", &p, &vec![]);
    assert_eq!(first.content_hash, second.content_hash);
    assert_eq!(first.mutations, second.mutations);
    for (i, a) in first.mutations.iter().enumerate() {
        for b in first.mutations.iter().skip(i + 1) {
            assert_ne!(a, b);
        }
    }
}

#[test]
fn replacing_an_operator_by_itself_is_dropped() {
    let p = Program {
        statements: vec![assign(name("y"), binop(name("a"), OperatorSerde::Mult, name("b")))],
    };
    let found = vec![op_at(2, OperatorSerde::Mult), op_at(2, OperatorSerde::Sub)];
    let kept = drop_noops(&p, &found);
    assert_eq!(kept, vec![op_at(2, OperatorSerde::Sub)]);
}

#[test]
fn literal_zero_keeps_value_plus_one() {
    let p = Program { statements: vec![assign(name("z"), number(0))] };
    let e = explore("z = 0", &p, &vec![]);
    let expected = vec![const_at(2, 1), const_at(2, -1)];
    assert_eq!(e.mutations, expected);
}

#[test]
fn integer_five_is_replaced_by_integers() {
    let r = replacements(&integer(5), &vec![]);
    assert_eq!(r, vec![integer(6), integer(4), integer(0), integer(1), integer(-1)]);
}

#[test]
fn integer_replacements_cross_a_digit_boundary() {
    let big = NumberSerde::Integer { negative: false, magnitude: vec![u32::MAX] };
    let r = replacements(&big, &vec![]);
    assert_eq!(r[0], NumberSerde::Integer { negative: false, magnitude: vec![0, 1] });
    assert_eq!(r[1], NumberSerde::Integer { negative: false, magnitude: vec![u32::MAX - 1] });
    let minus_one = replacements(&integer(-1), &vec![]);
    assert_eq!(minus_one[0], integer(0));
    assert_eq!(minus_one[1], integer(-2));
}

#[test]
fn float_two_is_replaced_by_floats() {
    let two = 2.0f64.to_bits();
    let steps =
        vec![FloatStep { value: two, plus_one: (2.0f64 + 1.0).to_bits(), minus_one: (2.0f64 - 1.0).to_bits() }];
    let r = replacements(&NumberSerde::Float { bits: two }, &steps);
    let expected: Vec<NumberSerde> = [3.0f64, 1.0, 0.0, 1.0, -1.0]
        .iter()
        .map(|f| NumberSerde::Float { bits: f.to_bits() })
        .collect();
    assert_eq!(r, expected);
}

#[test]
fn complex_literal_keeps_its_imaginary_part() {
    let half = 0.5f64.to_bits();
    let three = 3.0f64.to_bits();
    let steps = vec![
        FloatStep { value: 2.0f64.to_bits(), plus_one: 42, minus_one: 7 },
        FloatStep { value: half, plus_one: 1.5f64.to_bits(), minus_one: (-0.5f64).to_bits() },
    ];
    let r = replacements(&NumberSerde::Complex { real: half, imag: three }, &steps);
    let expected: Vec<NumberSerde> = [1.5f64, -0.5, 0.0, 1.0, -1.0]
        .iter()
        .map(|f| NumberSerde::Complex { real: f.to_bits(), imag: three })
        .collect();
    assert_eq!(r, expected);
}

#[test]
fn comparison_offers_the_other_nine_operators() {
    let kind = ExpressionType::Compare { ops: vec![ComparisonSerde::Less] };
    let mut out = Vec::new();
    propose(&kind, 7, &vec![], &mut out);
    let expected: Vec<Mutation> = [
        ComparisonSerde::Equal,
        ComparisonSerde::NotEqual,
        ComparisonSerde::LessOrEqual,
        ComparisonSerde::Greater,
        ComparisonSerde::GreaterOrEqual,
        ComparisonSerde::In,
        ComparisonSerde::NotIn,
        ComparisonSerde::Is,
        ComparisonSerde::IsNot,
    ]
    .iter()
    .map(|c| Mutation {
        traversal_location: 7,
        mutation_type: MutationType::ComparisonOperatorReplacement { new_operator: *c },
    })
    .collect();
    assert_eq!(out, expected);
}

#[test]
fn apply_rewrites_only_the_indexed_node() {
    let mut p = sum_program();
    apply_mutation(&mut p, op_at(2, OperatorSerde::Sub));
    match &binop_of(&p).kind {
        NodeKind::Expression(ExpressionType::Binop { op }) => assert_eq!(*op, OperatorSerde::Sub),
        other => panic!("unexpected {:?}", other),
    }
    let mut q = sum_program();
    apply_mutation(&mut q, const_at(4, 3));
    match &binop_of(&q).children[1].kind {
        NodeKind::Expression(ExpressionType::Number { value }) => assert_eq!(*value, integer(3)),
        other => panic!("unexpected {:?}", other),
    }
    match &binop_of(&q).children[0].kind {
        NodeKind::Expression(ExpressionType::Number { value }) => assert_eq!(*value, integer(1)),
        other => panic!("unexpected {:?}", other),
    }
}

#[test]
fn apply_rewrites_the_first_comparison_operator() {
    let cmp = expr(
        ExpressionType::Compare { ops: vec![ComparisonSerde::Less, ComparisonSerde::Less] },
        vec![node(NodeKind::Group, vec![name("a"), name("b"), name("c")])],
    );
    let mut p = Program { statements: vec![node(NodeKind::Statement(StatementType::Expression), vec![cmp])] };
    apply_mutation(
        &mut p,
        Mutation {
            traversal_location: 1,
            mutation_type: MutationType::ComparisonOperatorReplacement { new_operator: ComparisonSerde::Is },
        },
    );
    match &p.statements[0].children[0].kind {
        NodeKind::Expression(ExpressionType::Compare { ops }) => {
            assert_eq!(*ops, vec![ComparisonSerde::Is, ComparisonSerde::Less])
        },
        other => panic!("unexpected {:?}", other),
    }
}

#[test]
fn every_enumerated_mutation_reapplies_to_its_node() {
    let p = sum_program();
    for m in explore_mutations(&p, &vec![]) {
        let mut q = sum_program();
        let target = m.traversal_location;
        let fresh = Mutation { traversal_location: target, mutation_type: copy(&m.mutation_type) };
        apply_mutation(&mut q, fresh);
        let changed = match (&m.mutation_type, target) {
            (MutationType::BinaryOperatorReplacement { new_operator }, 2) => {
                matches!(&binop_of(&q).kind, NodeKind::Expression(ExpressionType::Binop { op }) if op == new_operator)
            },
            (MutationType::NumberConstantReplacement { new_constant }, 3) => {
                matches!(&binop_of(&q).children[0].kind, NodeKind::Expression(ExpressionType::Number { value }) if value == new_constant)
            },
            (MutationType::NumberConstantReplacement { new_constant }, 4) => {
                matches!(&binop_of(&q).children[1].kind, NodeKind::Expression(ExpressionType::Number { value }) if value == new_constant)
            },
            _ => false,
        };
        assert!(changed, "mutation at {} did not land on its node", target);
    }
}

fn copy(m: &MutationType) -> MutationType {
    m.duplicate()
}

#[test]
fn mutant_is_rebuilt_only_for_its_source() {
    let mut same = sum_program();
    let hash = "b109bff7efc18bd11dd5f21f8ea1c9014de55d64".to_string();
    assert_eq!(prepare_mutant(&mut same, "x = 1 + 2", &hash, op_at(2, OperatorSerde::Mult)), Preparation::Mutated);
    assert!(matches!(&binop_of(&same).kind, NodeKind::Expression(ExpressionType::Binop { op: OperatorSerde::Mult })));

    let mut other = sum_program();
    assert_eq!(prepare_mutant(&mut other, "x = 1 + 2\n", &hash, op_at(2, OperatorSerde::Mult)), Preparation::Unchanged);
    assert!(matches!(&binop_of(&other).kind, NodeKind::Expression(ExpressionType::Binop { op: OperatorSerde::Add })));

    let mut drifted = sum_program();
    assert_eq!(prepare_mutant(&mut drifted, "x = 1 + 2", &hash, op_at(3, OperatorSerde::Mult)), Preparation::Mismatch);
    assert_eq!(prepare_mutant(&mut drifted, "x = 1 + 2", &hash, op_at(9, OperatorSerde::Mult)), Preparation::Mismatch);
}

#[test]
fn expressions_inside_formatted_strings_are_visited() {
    // f"{1 + 2}"
    let formatted = node(
        NodeKind::FormattedValue { conversion: None },
        vec![binop(number(1), OperatorSerde::Add, number(2)), node(NodeKind::Slot, vec![])],
    );
    let string = expr(ExpressionType::String, vec![formatted]);
    let p = Program {
        statements: vec![node(NodeKind::Statement(StatementType::Expression), vec![string])],
    };
    let found = explore_mutations(&p, &vec![]);
    assert_eq!(found.len(), 13);
    assert_eq!(found[0], op_at(2, OperatorSerde::Mult));
    assert_eq!(found[3], const_at(3, 2));
    assert_eq!(found[8], const_at(4, 3));
    let mut q = p;
    apply_mutation(&mut q, op_at(2, OperatorSerde::Sub));
    let inner = &q.statements[0].children[0].children[0].children[0];
    assert!(matches!(&inner.kind, NodeKind::Expression(ExpressionType::Binop { op: OperatorSerde::Sub })));
}
