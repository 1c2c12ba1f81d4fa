use euclid::Vector2D;
use geoutils::Location;
use time::{Duration, OffsetDateTime};

use trackstamp::sample::Sample;
use trackstamp::simplify::minimize_way;
use trackstamp::stamp::{Activity, Timing};
use trackstamp::stat::{
    find_pauses, way_distance, way_durations, PausePolicy, CYCLING_DISTANCE_GAP,
    CYCLING_DURATION_GAP,
};

/// A point as a recorder writes it: longitude and latitude in degrees, and
/// the instant.
struct Fix {
    x: f64,
    y: f64,
    at: Option<OffsetDateTime>,
}

fn fix(x: f64, y: f64) -> Fix {
    Fix { x, y, at: None }
}

fn leg_between(from: &Fix, to: &Fix) -> u64 {
    let a = Location::new(from.y, from.x);
    let b = Location::new(to.y, to.x);
    (a.distance_to(&b).unwrap().meters() * 1e3).round() as u64
}

fn turn_at(first: &Fix, second: &Fix, third: &Fix) -> u32 {
    let v1: Vector2D<f64, ()> = Vector2D::new(third.x - first.x, third.y - first.y);
    let v2: Vector2D<f64, ()> = Vector2D::new(third.x - second.x, third.y - second.y);
    (v1.angle_to(v2).get().abs().to_degrees() * 1e6).round() as u32
}

fn samples_of(way: &[Fix]) -> Vec<Sample> {
    let mut samples = Vec::new();
    for (i, p) in way.iter().enumerate() {
        samples.push(Sample {
            lat: (p.y * 1e9).round() as i64,
            lon: (p.x * 1e9).round() as i64,
            elevation: None,
            time: p.at.map(|t| t.unix_timestamp()),
            leg: if i >= 1 { leg_between(&way[i - 1], p) } else { 0 },
            turn: if i >= 2 { turn_at(&way[i - 2], &way[i - 1], p) } else { 0 },
        });
    }
    samples
}

fn start() -> OffsetDateTime {
    OffsetDateTime::from_unix_timestamp(1_700_000_000).unwrap()
}

#[test]
fn fifty_metres_north_in_nine_minutes_is_a_pause() {
    let way = samples_of(&[
        Fix { x: 37.61, y: 55.75, at: Some(start()) },
        Fix { x: 37.61, y: 55.750449, at: Some(start() + Duration::minutes(9)) },
    ]);
    assert!(49_500 <= way[1].leg && way[1].leg <= 50_500);
    let stops = find_pauses(&way, CYCLING_DURATION_GAP, CYCLING_DISTANCE_GAP);
    assert_eq!(stops.len(), 1);
    assert_eq!(stops[0].duration, 540);
    assert_eq!(stops[0].start, way[0]);
    assert_eq!(stops[0].end, way[1]);
}

#[test]
fn five_hundred_metres_north_in_nine_minutes_is_no_pause() {
    let way = samples_of(&[
        Fix { x: 37.61, y: 55.75, at: Some(start()) },
        Fix { x: 37.61, y: 55.75449, at: Some(start() + Duration::minutes(9)) },
    ]);
    assert!(495_000 <= way[1].leg && way[1].leg <= 505_000);
    let stops = find_pauses(&way, CYCLING_DURATION_GAP, CYCLING_DISTANCE_GAP);
    assert_eq!(stops.len(), 0);
}

#[test]
fn recorded_outing_with_a_stop_in_the_middle() {
    let way = samples_of(&[
        Fix { x: 37.61, y: 55.75, at: Some(start()) },
        Fix { x: 37.61, y: 55.753, at: Some(start() + Duration::seconds(60)) },
        Fix { x: 37.61, y: 55.753449, at: Some(start() + Duration::seconds(600)) },
        Fix { x: 37.61, y: 55.756, at: Some(start() + Duration::seconds(660)) },
    ]);
    let policy = PausePolicy::standard();
    assert_eq!(way_durations(&way, &policy, Activity::Cycling), Some((660, 120)));
    assert_eq!(
        Timing::try_from(&way, &policy, Activity::Cycling),
        Ok(Timing { total: 660, pure: 120 })
    );
}

#[test]
fn way_measured_backwards_is_as_long() {
    let there = [
        fix(37.61, 55.75),
        fix(37.62, 55.751),
        fix(37.625, 55.76),
        fix(37.7, 55.74),
        fix(37.71, 55.8),
    ];
    let back = [
        fix(37.71, 55.8),
        fix(37.7, 55.74),
        fix(37.625, 55.76),
        fix(37.62, 55.751),
        fix(37.61, 55.75),
    ];
    let d1 = way_distance(&samples_of(&there));
    let d2 = way_distance(&samples_of(&back));
    assert!(d1 > 8_000_000);
    assert!(d1.abs_diff(d2) <= 4);
}

#[test]
fn turn_is_taken_between_the_vectors_that_end_at_the_third_point() {
    // Along the parallel, then up the meridian: seen from the third point,
    // the first lies half a right angle off the second.
    let way = samples_of(&[fix(0.0, 0.0), fix(0.001, 0.0), fix(0.001, 0.001)]);
    assert!(44_980_000 <= way[2].turn && way[2].turn <= 45_020_000);
    // Straight on: both vectors point the same way.
    let way = samples_of(&[fix(0.0, 0.0), fix(0.001, 0.0), fix(0.002, 0.0)]);
    assert_eq!(way[2].turn, 0);
    // There and back: the third point lies on the first.
    let way = samples_of(&[fix(0.0, 0.0), fix(0.001, 0.0), fix(0.0, 0.0)]);
    assert_eq!(way[2].lon, way[0].lon);
    assert_eq!(way[2].lat, way[0].lat);
}

#[test]
fn corner_keeps_the_sample_after_it() {
    let way = samples_of(&[
        fix(0.000, 0.0),
        fix(0.001, 0.0),
        fix(0.002, 0.0),
        fix(0.003, 0.0),
        fix(0.003, 0.001),
        fix(0.003, 0.002),
        fix(0.003, 0.003),
        fix(0.003, 0.004),
    ]);
    let path = minimize_way(&way, 133_333);
    assert_eq!(path, vec![way[0], way[1], way[4], way[7]]);
}

#[test]
fn gentle_bend_is_kept_once_its_turns_add_up() {
    // Each step turns the heading a little further to the left.
    let way = samples_of(&[
        fix(0.0000, 0.0000),
        fix(0.0010, 0.0000),
        fix(0.0020, 0.0001),
        fix(0.0030, 0.0003),
        fix(0.0040, 0.0006),
        fix(0.0050, 0.0010),
        fix(0.0060, 0.0015),
        fix(0.0070, 0.0021),
        fix(0.0080, 0.0028),
        fix(0.0090, 0.0036),
        fix(0.0100, 0.0045),
        fix(0.0110, 0.0055),
    ]);
    for i in 2..way.len() {
        assert!(way[i].turn < 12_000_000);
    }
    let path = minimize_way(&way, 133_333);
    assert!(path.len() > 3);
    assert!(path.len() < way.len());
    assert_eq!(path[0], way[0]);
    assert_eq!(path[1], way[1]);
    assert_eq!(path[path.len() - 1], way[11]);
}
