use intersection_polygon::wraparound::{wraparound_get, wraparound_index};

#[test]
fn index_n_is_index_zero() {
    let v = vec![10, 20, 30, 40];
    assert_eq!(*wraparound_get(&v, 4), 10);
    assert_eq!(*wraparound_get(&v, 0), 10);
    assert_eq!(*wraparound_get(&v, 4), *wraparound_get(&v, 0));
}

#[test]
fn index_minus_one_is_the_last() {
    let v = vec![10, 20, 30, 40];
    assert_eq!(*wraparound_get(&v, -1), 40);
    assert_eq!(wraparound_index(4, -1), 3);
}

#[test]
fn indices_wrap_on_both_sides() {
    let v = vec!['a', 'b', 'c'];
    assert_eq!(*wraparound_get(&v, 5), 'c');
    assert_eq!(*wraparound_get(&v, -4), 'c');
    assert_eq!(*wraparound_get(&v, -3), 'a');
    assert_eq!(*wraparound_get(&v, 301), 'b');
    assert_eq!(wraparound_index(1, isize::MIN), 0);
    assert_eq!(wraparound_index(7, isize::MIN + 1), ((isize::MIN + 1).rem_euclid(7)) as usize);
    assert_eq!(wraparound_index(7, isize::MAX), (isize::MAX % 7) as usize);
}
