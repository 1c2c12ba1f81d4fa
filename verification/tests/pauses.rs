use trackstamp::sample::Sample;
use trackstamp::stamp::Activity;
use trackstamp::stat::{
    find_pauses, PauseGaps, PauseInterval, PausePolicy, CYCLING_DISTANCE_GAP,
    CYCLING_DURATION_GAP,
};

fn seen(time: i64, leg: u64) -> Sample {
    Sample { lat: 0, lon: 0, elevation: None, time: Some(time), leg, turn: 0 }
}

fn untimed(leg: u64) -> Sample {
    Sample { lat: 0, lon: 0, elevation: None, time: None, leg, turn: 0 }
}

#[test]
fn nine_minutes_within_fifty_metres_are_a_pause() {
    let way = vec![seen(1_000, 0), seen(1_540, 50_000)];
    let stops = find_pauses(&way, CYCLING_DURATION_GAP, CYCLING_DISTANCE_GAP);
    assert_eq!(stops, vec![PauseInterval { duration: 540, start: way[0], end: way[1] }]);
    assert_eq!(stops[0].duration, 9 * 60);
}

#[test]
fn nine_minutes_over_five_hundred_metres_are_no_pause() {
    let way = vec![seen(1_000, 0), seen(1_540, 500_000)];
    let stops = find_pauses(&way, CYCLING_DURATION_GAP, CYCLING_DISTANCE_GAP);
    assert_eq!(stops, Vec::new());
}

#[test]
fn cycling_thresholds() {
    assert_eq!(CYCLING_DURATION_GAP, 120);
    assert_eq!(CYCLING_DISTANCE_GAP, 166_667);
    let policy = PausePolicy::standard();
    assert_eq!(
        policy.lookup(Activity::Cycling),
        Some(PauseGaps { duration: 120, distance: 166_667 })
    );
    assert_eq!(policy.lookup(Activity::Running), None);
}

#[test]
fn policy_answers_for_each_activity_by_itself() {
    let policy = PausePolicy {
        cycling: None,
        running: Some(PauseGaps { duration: 30, distance: 20_000 }),
    };
    assert_eq!(policy.lookup(Activity::Cycling), None);
    assert_eq!(policy.lookup(Activity::Running), Some(PauseGaps { duration: 30, distance: 20_000 }));
}

#[test]
fn gap_thresholds_count_as_pause() {
    let way = vec![seen(0, 0), seen(120, 166_667)];
    assert_eq!(find_pauses(&way, 120, 166_667).len(), 1);
    let way = vec![seen(0, 0), seen(119, 166_667)];
    assert_eq!(find_pauses(&way, 120, 166_667).len(), 0);
    let way = vec![seen(0, 0), seen(120, 166_668)];
    assert_eq!(find_pauses(&way, 120, 166_667).len(), 0);
}

#[test]
fn pair_without_a_time_is_passed_over() {
    let way = vec![seen(0, 0), untimed(10), seen(1_000, 10), seen(2_000, 10), untimed(10)];
    let stops = find_pauses(&way, 120, 166_667);
    assert_eq!(stops, vec![PauseInterval { duration: 1_000, start: way[2], end: way[3] }]);
}

#[test]
fn time_running_backwards_counts_by_its_amount() {
    let way = vec![seen(1_000, 0), seen(400, 10)];
    let stops = find_pauses(&way, 120, 166_667);
    assert_eq!(stops, vec![PauseInterval { duration: 600, start: way[0], end: way[1] }]);
}

#[test]
fn pauses_come_in_the_order_of_the_way() {
    let way = vec![seen(0, 0), seen(300, 1), seen(310, 9_000_000), seen(1_000, 2), seen(5_000, 3)];
    let stops = find_pauses(&way, 120, 166_667);
    assert_eq!(
        stops,
        vec![
            PauseInterval { duration: 300, start: way[0], end: way[1] },
            PauseInterval { duration: 690, start: way[2], end: way[3] },
            PauseInterval { duration: 4_000, start: way[3], end: way[4] },
        ]
    );
}

#[test]
fn short_ways_have_no_pause() {
    let way: Vec<Sample> = Vec::new();
    assert_eq!(find_pauses(&way, 0, u64::MAX), Vec::new());
    assert_eq!(find_pauses(&vec![seen(5, 0)], 0, u64::MAX), Vec::new());
}

#[test]
fn widest_span_of_time_fits() {
    let way = vec![seen(i64::MIN, 0), seen(i64::MAX, 0)];
    let stops = find_pauses(&way, 120, 166_667);
    assert_eq!(stops, vec![PauseInterval { duration: u64::MAX, start: way[0], end: way[1] }]);
}

#[test]
fn no_thresholds_make_every_timed_pair_a_pause() {
    let way = vec![seen(0, 0), seen(0, 7), seen(1, u64::MAX)];
    assert_eq!(find_pauses(&way, 0, u64::MAX).len(), 2);
}
