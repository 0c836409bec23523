use hardware_timing::step::cas_observe;
use hardware_timing::step::cas_proposal;
use hardware_timing::step::fetch_add_result;
use hardware_timing::step::keep_running;
use hardware_timing::step::mutex_increment;

#[test]
fn termination_condition() {
    assert!(keep_running(0, 1));
    assert!(keep_running(49999999, 50000000));
    assert!(!keep_running(50000000, 50000000));
    assert!(!keep_running(50000007, 50000000));
}

#[test]
fn fetch_add_observation() {
    assert_eq!(fetch_add_result(0), 1);
    assert_eq!(fetch_add_result(41), 42);
}

#[test]
fn cas_success_adopts_proposal() {
    assert_eq!(cas_proposal(5), 6);
    assert_eq!(cas_observe(5, 5), 6);
}

#[test]
fn cas_failure_adopts_witness_without_rereading() {
    assert_eq!(cas_observe(5, 9), 9);
    assert_eq!(cas_observe(0, 3), 3);
}

#[test]
fn mutex_step_advances_by_one() {
    assert_eq!(mutex_increment(0), 1);
    assert_eq!(mutex_increment(99), 100);
}
