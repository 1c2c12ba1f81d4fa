use trackstamp::sample::Sample;
use trackstamp::stamp::{Elevation, NO_ELEVATION};
use trackstamp::stat::way_elevations;

fn high(metres: i64) -> Sample {
    Sample { lat: 0, lon: 0, elevation: Some(metres * 1000), time: None, leg: 0, turn: 0 }
}

fn unknown() -> Sample {
    Sample { lat: 0, lon: 0, elevation: None, time: None, leg: 0, turn: 0 }
}

fn raw(mm: i64) -> Sample {
    Sample { lat: 0, lon: 0, elevation: Some(mm), time: None, leg: 0, turn: 0 }
}

#[test]
fn strictly_ascending_heights_count_in_full() {
    let way = vec![high(0), high(10), high(25), high(40)];
    assert_eq!(way_elevations(&way), Some((40_000, 40_000)));
    assert_eq!(Elevation::try_from(&way), Ok(Elevation { total: 40, maximum: 40 }));
}

#[test]
fn drop_breaks_the_ascent() {
    let way = vec![high(0), high(10), high(5), high(20)];
    assert_eq!(way_elevations(&way), Some((25_000, 15_000)));
    assert_eq!(Elevation::try_from(&way), Ok(Elevation { total: 25, maximum: 15 }));
}

#[test]
fn level_step_breaks_the_ascent() {
    let way = vec![high(0), high(10), high(10), high(15)];
    assert_eq!(way_elevations(&way), Some((15_000, 10_000)));
}

#[test]
fn largest_ascent_may_come_first() {
    let way = vec![high(0), high(30), high(10), high(20), high(5), high(6)];
    assert_eq!(way_elevations(&way), Some((41_000, 30_000)));
}

#[test]
fn descent_gains_nothing() {
    let way = vec![high(30), high(20), high(10)];
    assert_eq!(way_elevations(&way), Some((0, 0)));
}

#[test]
fn one_missing_height_withholds_everything() {
    let whole = vec![high(0), high(10), high(25), high(40), high(50)];
    for i in 0..whole.len() {
        let mut way = whole.clone();
        way[i] = unknown();
        assert_eq!(way_elevations(&way), None);
        assert_eq!(Elevation::try_from(&way), Err(NO_ELEVATION));
    }
}

#[test]
fn fewer_than_two_samples_have_no_gains() {
    let way: Vec<Sample> = Vec::new();
    assert_eq!(way_elevations(&way), None);
    assert_eq!(way_elevations(&vec![high(10)]), None);
    assert_eq!(way_elevations(&vec![unknown()]), None);
}

#[test]
fn two_samples_are_enough() {
    assert_eq!(way_elevations(&vec![high(1), high(3)]), Some((2_000, 2_000)));
    assert_eq!(way_elevations(&vec![high(3), high(1)]), Some((0, 0)));
}

#[test]
fn gains_below_sea_level_count_alike() {
    let way = vec![high(-30), high(-10), high(-20), high(15)];
    assert_eq!(way_elevations(&way), Some((55_000, 35_000)));
}

#[test]
fn gains_beyond_u64_are_capped() {
    let way = vec![raw(i64::MIN), raw(i64::MAX)];
    assert_eq!(way_elevations(&way), Some((u64::MAX, u64::MAX)));
    let way = vec![raw(i64::MIN), raw(i64::MAX - 1)];
    assert_eq!(way_elevations(&way), Some((u64::MAX - 1, u64::MAX - 1)));
    let way = vec![raw(i64::MIN), raw(i64::MAX), raw(0), raw(5)];
    assert_eq!(way_elevations(&way), Some((u64::MAX, u64::MAX)));
    let way = vec![raw(0), raw(5), raw(i64::MIN), raw(i64::MAX - 10)];
    assert_eq!(way_elevations(&way), Some((u64::MAX - 5, u64::MAX - 10)));
}

#[test]
fn whole_metres_are_rounded_down() {
    let way = vec![raw(0), raw(1_999), raw(0), raw(999)];
    assert_eq!(way_elevations(&way), Some((2_998, 1_999)));
    assert_eq!(Elevation::try_from(&way), Ok(Elevation { total: 2, maximum: 1 }));
}

#[test]
fn message_of_missing_elevation() {
    assert_eq!(NO_ELEVATION, "Not correct elevation data!");
    assert_eq!(Elevation::try_from(&vec![unknown(), high(1)]), Err("Not correct elevation data!"));
}
