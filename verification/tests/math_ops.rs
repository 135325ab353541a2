use oxideplot::fixed::NAN;
use oxideplot::processing::math_ops::{
    combine, find_partner, perform_math, sorted_index, MathOp,
};

#[test]
fn math_op_symbols_and_labels() {
    assert_eq!(MathOp::Add.symbol(), "+");
    assert_eq!(MathOp::Subtract.symbol(), "-");
    assert_eq!(MathOp::Multiply.symbol(), "\u{00d7}");
    assert_eq!(MathOp::Divide.symbol(), "\u{00f7}");
    assert_eq!(MathOp::Add.label(), "Add (+)");
    assert_eq!(MathOp::Subtract.label(), "Subtract (-)");
    assert_eq!(MathOp::Multiply.label(), "Multiply (\u{00d7})");
    assert_eq!(MathOp::Divide.label(), "Divide (\u{00f7})");
}

#[test]
fn combine_values() {
    assert_eq!(combine(MathOp::Add, 1_500_000, 2_250_000), 3_750_000);
    assert_eq!(combine(MathOp::Subtract, 1_500_000, 2_250_000), -750_000);
    assert_eq!(combine(MathOp::Multiply, 1_500_000, 2_000_000), 3_000_000);
    assert_eq!(combine(MathOp::Multiply, -1_500_000, 2_000_000), -3_000_000);
    assert_eq!(combine(MathOp::Divide, 3_000_000, 2_000_000), 1_500_000);
    assert_eq!(combine(MathOp::Divide, 1_000_000, 3_000_000), 333_333);
    assert_eq!(combine(MathOp::Divide, -1_000_000, 3_000_000), -333_334);
    assert_eq!(combine(MathOp::Divide, 1_000_000, -3_000_000), -333_334);
}

#[test]
fn combine_gives_nan_for_what_is_no_number() {
    assert_eq!(combine(MathOp::Divide, 1_000_000, 0), NAN);
    assert_eq!(combine(MathOp::Add, NAN, 1), NAN);
    assert_eq!(combine(MathOp::Add, 1, i64::MAX), NAN);
    let limit: i64 = 4_000_000_000_000_000_000;
    assert_eq!(combine(MathOp::Add, limit, 1), NAN);
    assert_eq!(combine(MathOp::Add, limit, 0), limit);
    assert_eq!(combine(MathOp::Multiply, limit, 2_000_000), NAN);
}

#[test]
fn self_subtraction_is_zero_everywhere() {
    let x: Vec<i64> = vec![3_000_000, 1_000_000, 2_000_000, 7_500_000];
    let y: Vec<i64> = vec![10, -20, 30, 40];
    let r = perform_math(&x, &y, &x, &y, MathOp::Subtract, 0).unwrap();
    assert_eq!(r.matched_count, x.len());
    assert_eq!(r.x, x);
    assert_eq!(r.y, vec![0, 0, 0, 0]);
    assert_eq!(r.total_possible, 4);
}

#[test]
fn division_by_zero_keeps_the_match() {
    let x: Vec<i64> = vec![0, 1_000_000, 2_000_000];
    let y1: Vec<i64> = vec![4_000_000, 6_000_000, 8_000_000];
    let y2: Vec<i64> = vec![2_000_000, 0, 4_000_000];
    let r = perform_math(&x, &y1, &x, &y2, MathOp::Divide, 10).unwrap();
    assert_eq!(r.matched_count, 3);
    assert_eq!(r.y, vec![2_000_000, NAN, 2_000_000]);
}

#[test]
fn no_match_is_an_error() {
    let x1: Vec<i64> = vec![0, 1_000_000];
    let x2: Vec<i64> = vec![500_000, 1_500_000];
    let y: Vec<i64> = vec![1, 2];
    let r = perform_math(&x1, &y, &x2, &y, MathOp::Add, 10);
    match r {
        Ok(_) => panic!("points half a unit apart must not match"),
        Err(e) => assert_eq!(e, "No matching x-values found. Cannot perform math operation."),
    }
    let empty: Vec<i64> = Vec::new();
    assert!(perform_math(&empty, &empty, &x2, &y, MathOp::Add, 10).is_err());
    assert!(perform_math(&x1, &y, &empty, &empty, MathOp::Add, 10).is_err());
    assert!(perform_math(&x1, &y, &x1, &y, MathOp::Add, -1).is_err());
}

#[test]
fn join_on_unsorted_second_series() {
    let x1: Vec<i64> = vec![10, 20, 30, 40];
    let y1: Vec<i64> = vec![1, 2, 3, 4];
    let x2: Vec<i64> = vec![41, 9, 100, 22];
    let y2: Vec<i64> = vec![1000, 2000, 3000, 4000];
    let r = perform_math(&x1, &y1, &x2, &y2, MathOp::Add, 2).unwrap();
    assert_eq!(r.x, vec![10, 20, 40]);
    assert_eq!(r.y, vec![2001, 4002, 1004]);
    assert_eq!(r.matched_count, 3);
    assert_eq!(r.total_possible, 4);
}

#[test]
fn total_possible_is_the_shorter_length() {
    let x1: Vec<i64> = vec![1, 2, 3];
    let y1: Vec<i64> = vec![1, 1, 1];
    let x2: Vec<i64> = vec![2];
    let y2: Vec<i64> = vec![5];
    let r = perform_math(&x1, &y1, &x2, &y2, MathOp::Multiply, 0).unwrap();
    assert_eq!(r.total_possible, 1);
    assert_eq!(r.matched_count, 1);
    assert_eq!(r.x, vec![2]);
}

#[test]
fn nearest_prefers_the_lower_neighbour_on_a_tie() {
    let x2: Vec<i64> = vec![10, 20];
    let index = sorted_index(&x2);
    assert_eq!(find_partner(&x2, &index, 15, 5), Some(0));
    assert_eq!(find_partner(&x2, &index, 16, 5), Some(1));
    assert_eq!(find_partner(&x2, &index, 15, 4), None);
    assert_eq!(find_partner(&x2, &index, 10, 0), Some(0));
    assert_eq!(find_partner(&x2, &index, 26, 5), None);
    assert_eq!(find_partner(&x2, &index, 25, 5), Some(1));
}

#[test]
fn nearest_among_equal_values() {
    let x2: Vec<i64> = vec![7, 3, 7, 3];
    let index = sorted_index(&x2);
    assert_eq!(index, vec![(3, 1), (3, 3), (7, 0), (7, 2)]);
    // at the value itself: the first of the equal ones
    assert_eq!(find_partner(&x2, &index, 7, 0), Some(0));
    assert_eq!(find_partner(&x2, &index, 3, 0), Some(1));
    // from above: the last of the equal ones below
    assert_eq!(find_partner(&x2, &index, 8, 1), Some(2));
    // from below: the first of the equal ones above
    assert_eq!(find_partner(&x2, &index, 6, 1), Some(0));
}

#[test]
fn self_join_with_repeated_x_pairs_with_the_first() {
    let x: Vec<i64> = vec![1, 1];
    let y: Vec<i64> = vec![5, 7];
    let r = perform_math(&x, &y, &x, &y, MathOp::Subtract, 0).unwrap();
    assert_eq!(r.matched_count, 2);
    assert_eq!(r.y, vec![0, 2]);
}
