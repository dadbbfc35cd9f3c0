use mna::Scalar;

#[test]
fn integer_identity_and_unit() {
    assert_eq!(<i64 as Scalar>::zero(), 0);
    assert_eq!(<i64 as Scalar>::one(), 1);
}

#[test]
fn integer_sum_is_exact_in_range() {
    assert_eq!(Scalar::plus(&2i64, &3i64), 5);
    assert_eq!(Scalar::plus(&-2i64, &-3i64), -5);
    assert_eq!(Scalar::plus(&i64::MAX, &i64::MIN), -1);
    assert_eq!(Scalar::plus(&0i64, &i64::MIN), i64::MIN);
}

#[test]
fn integer_sum_wraps_around() {
    assert_eq!(Scalar::plus(&i64::MAX, &1i64), i64::MIN);
    assert_eq!(Scalar::plus(&i64::MIN, &-1i64), i64::MAX);
    assert_eq!(Scalar::plus(&i64::MAX, &i64::MAX), -2);
    assert_eq!(Scalar::plus(&i64::MIN, &i64::MIN), 0);
}

#[test]
fn integer_inverse() {
    assert_eq!(Scalar::negated(&5i64), -5);
    assert_eq!(Scalar::negated(&-5i64), 5);
    assert_eq!(Scalar::negated(&0i64), 0);
    assert_eq!(Scalar::negated(&i64::MAX), i64::MIN + 1);
    assert_eq!(Scalar::negated(&i64::MIN), i64::MIN);
}

#[test]
fn integer_reciprocal() {
    assert_eq!(Scalar::reciprocal(&1i64), 1);
    assert_eq!(Scalar::reciprocal(&-1i64), -1);
    assert_eq!(Scalar::reciprocal(&0i64), 0);
    assert_eq!(Scalar::reciprocal(&2i64), 0);
    assert_eq!(Scalar::reciprocal(&-1000i64), 0);
    assert_eq!(Scalar::reciprocal(&i64::MIN), 0);
}

#[test]
fn integer_sums_can_be_reordered() {
    let values = [i64::MAX, 7, -3, i64::MIN, 1 << 62];
    for a in values.iter() {
        for b in values.iter() {
            assert_eq!(a.plus(b), b.plus(a));
            assert_eq!(a.plus(b).negated(), a.negated().plus(&b.negated()));
            for c in values.iter() {
                assert_eq!(a.plus(b).plus(c), a.plus(&b.plus(c)));
            }
        }
    }
}
