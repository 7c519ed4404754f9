//! Numeric literals: the values that a literal may be replaced by.
use vstd::prelude::*;
use crate::syntax::{canonical, digits_value, signed_value, NumberSerde, NumberValue};
use num_bigint::{BigInt, Sign};

verus! {

/// Bit pattern of the binary64 value 0.0.
pub const FLOAT_ZERO: u64 = 0;

/// Bit pattern of the binary64 value 1.0.
pub const FLOAT_ONE: u64 = 0x3FF0_0000_0000_0000;

/// Bit pattern of the binary64 value -1.0.
pub const FLOAT_MINUS_ONE: u64 = 0xBFF0_0000_0000_0000;

/// The unit neighbours of a binary64 value, all as bit patterns:
/// `plus_one` is `value + 1.0` and `minus_one` is `value - 1.0`, rounded as
/// binary64 arithmetic rounds.
#[derive(Clone, Copy, Debug, PartialEq, Eq, Structural)]
pub struct FloatStep {
    pub value: u64,
    pub plus_one: u64,
    pub minus_one: u64,
}

/// The first entry of `steps` for the value `bits`.
pub open spec fn find_step(steps: Seq<FloatStep>, bits: u64) -> Option<FloatStep>
    decreases steps.len(),
{
    if steps.len() == 0 {
        None
    } else if steps[0].value == bits {
        Some(steps[0])
    } else {
        find_step(steps.skip(1), bits)
    }
}

/// The replacement values proposed for a literal of value `v`: one more, one
/// less, zero, one and minus one, all of the literal's own numeric kind. For
/// a complex literal only the real part changes.
pub open spec fn number_candidates(v: NumberValue, steps: Seq<FloatStep>) -> Seq<NumberValue> {
    match v {
        NumberValue::Integer(i) => seq![
            NumberValue::Integer(i + 1),
            NumberValue::Integer(i - 1),
            NumberValue::Integer(0),
            NumberValue::Integer(1),
            NumberValue::Integer(-1),
        ],
        NumberValue::Float(b) => seq![
            NumberValue::Float(find_step(steps, b)->Some_0.plus_one),
            NumberValue::Float(find_step(steps, b)->Some_0.minus_one),
            NumberValue::Float(FLOAT_ZERO),
            NumberValue::Float(FLOAT_ONE),
            NumberValue::Float(FLOAT_MINUS_ONE),
        ],
        NumberValue::Complex(re, im) => seq![
            NumberValue::Complex(find_step(steps, re)->Some_0.plus_one, im),
            NumberValue::Complex(find_step(steps, re)->Some_0.minus_one, im),
            NumberValue::Complex(FLOAT_ZERO, im),
            NumberValue::Complex(FLOAT_ONE, im),
            NumberValue::Complex(FLOAT_MINUS_ONE, im),
        ],
    }
}

/// `steps` has an entry for every binary64 value that `v` holds and that a
/// replacement is computed from.
pub open spec fn step_known(v: NumberValue, steps: Seq<FloatStep>) -> bool {
    match v {
        NumberValue::Float(b) => find_step(steps, b) is Some,
        NumberValue::Complex(re, _) => find_step(steps, re) is Some,
        _ => true,
    }
}

/// Relies on num_bigint's `BigInt::from_slice`, `+ 1` and `to_u32_digits`:
/// the sum is exact and comes back as a canonical sign and magnitude.
#[verifier::external_body]
fn bigint_increment(negative: bool, magnitude: &Vec<u32>) -> (r: (bool, Vec<u32>))
    ensures
        signed_value(r.0, r.1@) == signed_value(negative, magnitude@) + 1,
        canonical(r.0, r.1@),
{
    let sign = if negative { Sign::Minus } else { Sign::Plus };
    let (s, digits) = (BigInt::from_slice(sign, magnitude) + 1u32).to_u32_digits();
    let negative = match s {
        Sign::Minus => true,
        Sign::NoSign => false,
        Sign::Plus => false,
    };
    (negative, digits)
}

/// Relies on num_bigint's `BigInt::from_slice`, `- 1` and `to_u32_digits`:
/// the difference is exact and comes back as a canonical sign and magnitude.
#[verifier::external_body]
fn bigint_decrement(negative: bool, magnitude: &Vec<u32>) -> (r: (bool, Vec<u32>))
    ensures
        signed_value(r.0, r.1@) == signed_value(negative, magnitude@) - 1,
        canonical(r.0, r.1@),
{
    let sign = if negative { Sign::Minus } else { Sign::Plus };
    let (s, digits) = (BigInt::from_slice(sign, magnitude) - 1u32).to_u32_digits();
    let negative = match s {
        Sign::Minus => true,
        Sign::NoSign => false,
        Sign::Plus => false,
    };
    (negative, digits)
}

/// Looks up the unit neighbours of `bits` in `steps`.
pub fn lookup_step(steps: &Vec<FloatStep>, bits: u64) -> (r: Option<FloatStep>)
    ensures
        r == find_step(steps@, bits),
{
    let mut i: usize = 0;
    assert(steps@.skip(0) =~= steps@);
    while i < steps.len()
        invariant
            0 <= i <= steps.len(),
            find_step(steps@, bits) == find_step(steps@.skip(i as int), bits),
        decreases steps.len() - i,
    {
        let s = steps[i];
        assert(steps@.skip(i as int)[0] == s);
        assert(steps@.skip(i as int).skip(1) =~= steps@.skip(i + 1));
        if s.value == bits {
            return Some(s);
        }
        i += 1;
    }
    assert(steps@.skip(i as int) =~= Seq::<FloatStep>::empty());
    None
}

fn integer(negative: bool, magnitude: Vec<u32>) -> (r: NumberSerde)
    ensures
        r == (NumberSerde::Integer { negative, magnitude }),
{
    NumberSerde::Integer { negative, magnitude }
}

/// The replacement values for a literal, in the order one more, one less,
/// zero, one, minus one.
pub fn replacements(n: &NumberSerde, steps: &Vec<FloatStep>) -> (r: Vec<NumberSerde>)
    requires
        n.wf(),
        step_known(n.value(), steps@),
    ensures
        r@.map_values(|x: NumberSerde| x.value()) == number_candidates(n.value(), steps@),
        r@.len() == 5,
        forall|i: int| 0 <= i < r@.len() ==> (#[trigger] r@[i]).wf(),
{
    let mut r: Vec<NumberSerde> = Vec::new();
    proof {
        assert(digits_value(seq![1u32]) == 1) by {
            assert(seq![1u32].skip(1) =~= Seq::<u32>::empty());
            assert(digits_value(Seq::<u32>::empty()) == 0);
        }
    }
    match n {
        NumberSerde::Integer { negative, magnitude } => {
            let (un, um) = bigint_increment(*negative, magnitude);
            let (dn, dm) = bigint_decrement(*negative, magnitude);
            let one: Vec<u32> = vec![1u32];
            assert(one@ =~= seq![1u32]);
            r.push(integer(un, um));
            r.push(integer(dn, dm));
            r.push(integer(false, Vec::new()));
            r.push(integer(false, one));
            let minus: Vec<u32> = vec![1u32];
            assert(minus@ =~= seq![1u32]);
            r.push(integer(true, minus));
            assert(r@.map_values(|x: NumberSerde| x.value()) =~= number_candidates(n.value(), steps@));
        },
        NumberSerde::Float { bits } => {
            let s = lookup_step(steps, *bits).unwrap();
            r.push(NumberSerde::Float { bits: s.plus_one });
            r.push(NumberSerde::Float { bits: s.minus_one });
            r.push(NumberSerde::Float { bits: FLOAT_ZERO });
            r.push(NumberSerde::Float { bits: FLOAT_ONE });
            r.push(NumberSerde::Float { bits: FLOAT_MINUS_ONE });
        },
        NumberSerde::Complex { real: re, imag: im } => {
            let s = lookup_step(steps, *re).unwrap();
            r.push(NumberSerde::Complex { real: s.plus_one, imag: *im });
            r.push(NumberSerde::Complex { real: s.minus_one, imag: *im });
            r.push(NumberSerde::Complex { real: FLOAT_ZERO, imag: *im });
            r.push(NumberSerde::Complex { real: FLOAT_ONE, imag: *im });
            r.push(NumberSerde::Complex { real: FLOAT_MINUS_ONE, imag: *im });
        },
    }
    assert(r@.map_values(|x: NumberSerde| x.value()) =~= number_candidates(n.value(), steps@));
    r
}

/// A nonempty magnitude without a trailing zero digit is positive.
pub proof fn lemma_digits_positive(d: Seq<u32>)
    requires
        d.len() > 0,
        d.last() != 0,
    ensures
        digits_value(d) > 0,
    decreases d.len(),
{
    if d.len() > 1 {
        assert(d.skip(1).last() == d.last());
        lemma_digits_positive(d.skip(1));
    }
}

/// Magnitudes without trailing zero digits are equal when their values are.
pub proof fn lemma_digits_unique(a: Seq<u32>, b: Seq<u32>)
    requires
        a.len() > 0 ==> a.last() != 0,
        b.len() > 0 ==> b.last() != 0,
        digits_value(a) == digits_value(b),
    ensures
        a == b,
    decreases a.len(),
{
    if a.len() == 0 {
        if b.len() > 0 {
            lemma_digits_positive(b);
        }
        assert(a =~= b);
    } else if b.len() == 0 {
        lemma_digits_positive(a);
    } else {
        let x = a[0] as int;
        let y = b[0] as int;
        let p = digits_value(a.skip(1)) as int;
        let q = digits_value(b.skip(1)) as int;
        assert(x + 0x1_0000_0000 * p == y + 0x1_0000_0000 * q);
        assert(x == y && p == q) by (nonlinear_arith)
            requires
                x + 0x1_0000_0000 * p == y + 0x1_0000_0000 * q,
                0 <= x < 0x1_0000_0000,
                0 <= y < 0x1_0000_0000,
                p >= 0,
                q >= 0,
        {
            if p < q {
                assert(0x1_0000_0000 * q >= 0x1_0000_0000 * p + 0x1_0000_0000);
            } else if q < p {
                assert(0x1_0000_0000 * p >= 0x1_0000_0000 * q + 0x1_0000_0000);
            }
        }
        if a.len() > 1 {
            assert(a.skip(1).last() == a.last());
        }
        if b.len() > 1 {
            assert(b.skip(1).last() == b.last());
        }
        lemma_digits_unique(a.skip(1), b.skip(1));
        assert(a =~= seq![a[0]] + a.skip(1));
        assert(b =~= seq![b[0]] + b.skip(1));
    }
}

/// Canonical literals have the same value only when they have the same
/// representation.
pub proof fn lemma_number_unique(m: NumberSerde, n: NumberSerde)
    requires
        m.wf(),
        n.wf(),
        m.value() == n.value(),
    ensures
        same_representation(m, n),
{
    if let (
        NumberSerde::Integer { negative: mn, magnitude: mm },
        NumberSerde::Integer { negative: nn, magnitude: nm },
    ) = (m, n) {
        if mm@.len() > 0 {
            lemma_digits_positive(mm@);
        }
        if nm@.len() > 0 {
            lemma_digits_positive(nm@);
        }
        lemma_digits_unique(mm@, nm@);
    }
}

/// Two literals have the same representation.
pub open spec fn same_representation(a: NumberSerde, b: NumberSerde) -> bool {
    match (a, b) {
        (
            NumberSerde::Integer { negative: an, magnitude: am },
            NumberSerde::Integer { negative: bn, magnitude: bm },
        ) => an == bn && am@ == bm@,
        (NumberSerde::Float { bits: x }, NumberSerde::Float { bits: y }) => x == y,
        (
            NumberSerde::Complex { real: ar, imag: ai },
            NumberSerde::Complex { real: br, imag: bi },
        ) => ar == br && ai == bi,
        _ => false,
    }
}

/// Whether two canonical literals have the same value.
pub fn same_value(a: &NumberSerde, b: &NumberSerde) -> (r: bool)
    requires
        a.wf(),
        b.wf(),
    ensures
        r == (a.value() == b.value()),
{
    proof {
        if a.value() == b.value() {
            lemma_number_unique(*a, *b);
        }
    }
    match (a, b) {
        (
            NumberSerde::Integer { negative: an, magnitude: am },
            NumberSerde::Integer { negative: bn, magnitude: bm },
        ) => {
            assert(a.value() == b.value() ==> (*an == *bn && am@ == bm@));
            if *an != *bn || am.len() != bm.len() {
                return false;
            }
            let mut i: usize = 0;
            while i < am.len()
                invariant
                    0 <= i <= am.len(),
                    am.len() == bm.len(),
                    a.value() == b.value() ==> am@ == bm@,
                    forall|j: int| 0 <= j < i ==> am@[j] == bm@[j],
                decreases am.len() - i,
            {
                if am[i] != bm[i] {
                    return false;
                }
                i += 1;
            }
            assert(am@ =~= bm@);
            assert(a.value() == b.value());
            true
        },
        (NumberSerde::Float { bits: x }, NumberSerde::Float { bits: y }) => *x == *y,
        (
            NumberSerde::Complex { real: ar, imag: ai },
            NumberSerde::Complex { real: br, imag: bi },
        ) => *ar == *br && *ai == *bi,
        _ => false,
    }
}

/// Replacement values keep the literal's numeric kind: integers stay
/// integers, floats stay floats, and a complex literal keeps its imaginary
/// part.
pub proof fn lemma_replacements_keep_kind(v: NumberValue, steps: Seq<FloatStep>)
    ensures
        number_candidates(v, steps).len() == 5,
        forall|i: int|
            0 <= i < 5 ==> match (v, #[trigger] number_candidates(v, steps)[i]) {
                (NumberValue::Integer(_), NumberValue::Integer(_)) => true,
                (NumberValue::Float(_), NumberValue::Float(_)) => true,
                (NumberValue::Complex(_, a), NumberValue::Complex(_, b)) => a == b,
                _ => false,
            },
{
}

} // verus!
