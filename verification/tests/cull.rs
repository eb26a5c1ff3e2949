use rsgenetic::sim::cull::cull;

#[test]
fn removals_are_spread_by_the_stride() {
    let mut population: Vec<u32> = (0..10).collect();
    cull(&mut population, 3, 4);
    assert_eq!(population, vec![1, 2, 3, 5, 6, 8, 9]);
}

#[test]
fn stride_drifts_when_count_does_not_divide_size() {
    let mut population: Vec<u32> = (0..5).collect();
    cull(&mut population, 2, 1);
    assert_eq!(population, vec![0, 2, 4]);
}

#[test]
fn more_than_half_goes_with_stride_zero() {
    let mut population: Vec<u32> = (0..5).collect();
    cull(&mut population, 3, 4);
    assert_eq!(population, vec![2, 3]);
}

#[test]
fn one_removal_takes_the_start() {
    let mut population: Vec<u32> = (0..4).collect();
    cull(&mut population, 1, 3);
    assert_eq!(population, vec![0, 1, 2]);
    let mut other: Vec<u32> = (0..4).collect();
    cull(&mut other, 1, 0);
    assert_eq!(other, vec![1, 2, 3]);
}

#[test]
fn all_but_one_can_go() {
    let mut population: Vec<u32> = (0..6).collect();
    cull(&mut population, 5, 2);
    assert_eq!(population, vec![1]);
}

#[test]
fn survivors_keep_their_order_and_number() {
    for start in 0..100 {
        let mut population: Vec<u32> = (0..100).collect();
        cull(&mut population, 10, start);
        assert_eq!(population.len(), 90);
        let mut k = 1;
        while k < population.len() {
            assert!(population[k - 1] < population[k]);
            k += 1;
        }
    }
}
