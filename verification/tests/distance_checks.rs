use keyopt::distance::DistanceMatrix;

#[test]
fn matrix_is_symmetric_with_zero_diagonal() {
    let m = DistanceMatrix::build();
    for i in 0..26 {
        assert_eq!(m.get(i, i), Some(0));
        for j in 0..26 {
            assert_eq!(m.get(i, j), m.get(j, i));
        }
    }
}

#[test]
fn matrix_holds_the_modeled_costs() {
    let m = DistanceMatrix::build();
    assert_eq!(m.get(8, 18), Some(1000));
    assert_eq!(m.get(18, 8), Some(1000));
    assert_eq!(m.get(2, 12), Some(1414));
    assert_eq!(m.get(0, 19), Some(2000));
    assert_eq!(m.get(3, 21), Some(2236));
    assert_eq!(m.get(4, 22), Some(2236));
    assert_eq!(m.get(0, 1), None);
    assert_eq!(m.get(8, 17), None);
}
