#[test]
fn filled_vec_truncates() {
    let v: Vec<u32> = field128::utils::filled_vec(3, 5, 7u32);
    assert_eq!(vec![7u32, 7, 7], v);
}

#[test]
fn filled_vec_capacity_bound() {
    let v: Vec<u8> = field128::utils::filled_vec(5, 2, 1u8);
    assert_eq!(2, v.len());
    assert!(v.iter().all(|&x| x == 1));
}

#[test]
fn filled_vec_empty() {
    let v: Vec<u64> = field128::utils::filled_vec(0, 4, 9u64);
    assert!(v.is_empty());
}
