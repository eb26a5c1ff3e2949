use rsgenetic::sim::earlystopper::EarlyStopper;
use rsgenetic::sim::iterlimit::IterLimit;

#[test]
fn plateau_needs_a_full_window() {
    let mut stopper = EarlyStopper::new(10, 3);
    assert!(!stopper.reached());
    stopper.update(5);
    assert!(!stopper.reached());
    stopper.update(5);
    assert!(!stopper.reached());
    stopper.update(5);
    assert!(stopper.reached());
}

#[test]
fn newest_is_compared_with_oldest_in_the_window() {
    let mut stopper = EarlyStopper::new(10, 2);
    stopper.update(5);
    stopper.update(14);
    assert!(stopper.reached());
    stopper.update(30);
    assert!(!stopper.reached());
    stopper.update(21);
    assert!(stopper.reached());
    stopper.update(11);
    assert!(!stopper.reached());
}

#[test]
fn oscillation_within_the_threshold_is_a_plateau() {
    let mut stopper = EarlyStopper::new(3, 4);
    stopper.update(10);
    stopper.update(12);
    stopper.update(9);
    stopper.update(11);
    assert!(stopper.reached());
    stopper.update(13);
    assert!(stopper.reached());
    stopper.update(12);
    assert!(!stopper.reached());
}

#[test]
fn steady_scores_stop_after_one_window() {
    let mut stopper = EarlyStopper::new(10, 5);
    let mut updates = 0;
    while !stopper.reached() {
        stopper.update(-77);
        updates += 1;
        assert!(updates <= 5);
    }
    assert_eq!(updates, 5);
}

#[test]
fn window_of_one_stops_on_the_first_score() {
    let mut stopper = EarlyStopper::new(1, 1);
    assert!(!stopper.reached());
    stopper.update(1_000);
    assert!(stopper.reached());
}

#[test]
fn window_of_zero_never_stops() {
    let mut stopper = EarlyStopper::new(10, 0);
    assert!(!stopper.reached());
    stopper.update(1);
    stopper.update(1);
    assert!(!stopper.reached());
}

#[test]
fn threshold_of_zero_never_stops() {
    let mut stopper = EarlyStopper::new(0, 2);
    stopper.update(4);
    stopper.update(4);
    stopper.update(4);
    assert!(!stopper.reached());
}

#[test]
fn distance_is_taken_without_overflow() {
    let mut stopper = EarlyStopper::new(u64::MAX, 2);
    stopper.update(i64::MIN);
    stopper.update(i64::MAX);
    assert!(!stopper.reached());
    stopper.update(i64::MAX - 1);
    assert!(stopper.reached());
    let mut other = EarlyStopper::new(u64::MAX, 2);
    other.update(i64::MAX);
    other.update(i64::MIN + 1);
    assert!(other.reached());
}

#[test]
fn a_copy_of_a_stopper_goes_its_own_way() {
    let mut stopper = EarlyStopper::new(10, 2);
    stopper.update(5);
    let mut copy = stopper.clone();
    copy.update(6);
    assert!(copy.reached());
    assert!(!stopper.reached());
    stopper.update(50);
    assert!(!stopper.reached());
}

#[test]
fn limit_counts_up_to_its_ceiling() {
    let mut limit = IterLimit::new(2);
    assert_eq!(limit.get(), 0);
    assert!(!limit.reached());
    limit.inc();
    assert_eq!(limit.get(), 1);
    assert!(!limit.reached());
    limit.inc();
    assert_eq!(limit.get(), 2);
    assert!(limit.reached());
    limit.inc();
    assert_eq!(limit.get(), 3);
    assert!(limit.reached());
}

#[test]
fn limit_of_zero_is_reached_at_once() {
    let limit = IterLimit::new(0);
    assert!(limit.reached());
    assert_eq!(limit.get(), 0);
}
