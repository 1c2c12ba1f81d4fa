use trackstamp::sample::Sample;
use trackstamp::stat::way_distance;

fn after(leg: u64) -> Sample {
    Sample { lat: 0, lon: 0, elevation: None, time: None, leg, turn: 0 }
}

#[test]
fn empty_way_has_no_length() {
    let way: Vec<Sample> = Vec::new();
    assert_eq!(way_distance(&way), 0);
}

#[test]
fn single_sample_has_no_length() {
    assert_eq!(way_distance(&vec![after(0)]), 0);
    assert_eq!(way_distance(&vec![after(123_456)]), 0);
}

#[test]
fn legs_add_up() {
    let way = vec![after(0), after(5), after(7), after(11)];
    assert_eq!(way_distance(&way), 23);
}

#[test]
fn leg_of_the_first_sample_is_left_out() {
    let way = vec![after(1_000_000), after(5), after(7)];
    assert_eq!(way_distance(&way), 12);
}

#[test]
fn way_walked_back_is_as_long() {
    let way = vec![after(0), after(5), after(7), after(11), after(13)];
    let back = vec![after(0), after(13), after(11), after(7), after(5)];
    assert_eq!(way_distance(&way), 36);
    assert_eq!(way_distance(&back), way_distance(&way));
}

#[test]
fn length_beyond_u64_is_capped() {
    let way = vec![after(0), after(u64::MAX), after(1)];
    assert_eq!(way_distance(&way), u64::MAX);
    let way = vec![after(0), after(u64::MAX - 1), after(1)];
    assert_eq!(way_distance(&way), u64::MAX);
    let way = vec![after(0), after(u64::MAX - 2), after(1)];
    assert_eq!(way_distance(&way), u64::MAX - 1);
    let way = vec![after(0), after(u64::MAX), after(u64::MAX), after(u64::MAX)];
    assert_eq!(way_distance(&way), u64::MAX);
}
