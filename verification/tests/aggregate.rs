use externevm::aggregate::{compute_majority_bool, compute_majority_string, compute_median_uint256};
use externevm::primitives::U256;

#[test]
fn test_median_odd() {
    let mut vals = vec![U256::from(100), U256::from(300), U256::from(200)];
    assert_eq!(compute_median_uint256(&mut vals), Some(U256::from(200)));
}

#[test]
fn test_median_single_liar() {
    let mut vals = vec![U256::from(104230), U256::from(999999999), U256::from(104232)];
    assert_eq!(compute_median_uint256(&mut vals), Some(U256::from(104232)));
}

#[test]
fn test_majority_string() {
    let vals: Vec<String> = vec!["sunny".into(), "sunny".into(), "cloudy".into()];
    assert_eq!(compute_majority_string(&vals), Some("sunny".into()));
}

#[test]
fn test_majority_bool() {
    assert_eq!(compute_majority_bool(&[true, true, false]), Some(true));
}

#[test]
fn the_median_of_an_even_number_of_values_is_the_mean_of_the_middle_two() {
    let mut vals = vec![U256::from(40), U256::from(10), U256::from(21), U256::from(30)];
    assert_eq!(compute_median_uint256(&mut vals), Some(U256::from(25)));
    assert_eq!(vals, vec![U256::from(10), U256::from(21), U256::from(30), U256::from(40)]);
}

#[test]
fn the_sum_of_the_middle_two_wraps_around() {
    let top = U256 { limbs: [u64::MAX; 4] };
    let mut vals = vec![top, top];
    // (2 * (2^256 - 1)) mod 2^256 is 2^256 - 2, and half of it 2^255 - 1.
    let half = U256 { limbs: [u64::MAX, u64::MAX, u64::MAX, u64::MAX >> 1] };
    assert_eq!(compute_median_uint256(&mut vals), Some(half));
}

#[test]
fn the_median_orders_by_all_limbs() {
    let big = U256 { limbs: [0, 0, 0, 1] };
    let mut vals = vec![big, U256::from(7), U256::from(9)];
    assert_eq!(compute_median_uint256(&mut vals), Some(U256::from(9)));
    assert_eq!(vals[2], big);
}

#[test]
fn nothing_submitted_has_no_median_and_no_majority() {
    let mut vals: Vec<U256> = vec![];
    assert_eq!(compute_median_uint256(&mut vals), None);
    assert_eq!(compute_majority_string(&[]), None);
    assert_eq!(compute_majority_bool(&[]), None);
}

#[test]
fn half_is_no_majority() {
    let vals: Vec<String> = vec!["a".into(), "b".into(), "b".into(), "a".into()];
    assert_eq!(compute_majority_string(&vals), None);
    assert_eq!(compute_majority_bool(&[true, false]), None);
    assert_eq!(compute_majority_bool(&[false, true, false]), Some(false));
}

#[test]
fn one_liar_among_three_does_not_move_a_median_near_the_top() {
    let near = U256 { limbs: [u64::MAX - 1, u64::MAX, u64::MAX, u64::MAX] };
    let top = U256 { limbs: [u64::MAX; 4] };
    let mut vals = vec![U256::from(0), top, near];
    assert_eq!(compute_median_uint256(&mut vals), Some(near));
}
