use runtime_modules::set_sum::sum;

#[test]
fn sum_of_small_values_fits() {
    let set: [u32; 4] = [2, 3, 5, 7];
    assert_eq!(sum(&set[..]), Some(17));
}

#[test]
fn sum_beyond_u32_is_none() {
    let set: [u32; 4] = [2, 3, 5, u32::MAX];
    assert_eq!(sum(&set[..]), None);
}

#[test]
fn sum_of_nothing_is_zero() {
    let set: [u32; 0] = [];
    assert_eq!(sum(&set[..]), Some(0));
}

#[test]
fn sum_reaching_the_maximum_exactly_fits() {
    let set: [u32; 2] = [u32::MAX - 1, 1];
    assert_eq!(sum(&set[..]), Some(u32::MAX));
}
