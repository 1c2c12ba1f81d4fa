use trackstamp::sample::Sample;

fn place(lat: i64, lon: i64) -> Sample {
    Sample { lat, lon, elevation: None, time: None, leg: 0, turn: 0 }
}

#[test]
fn same_coordinates_are_the_same_place() {
    let a = place(55_750_000_000, 37_610_000_000);
    let mut b = a;
    b.elevation = Some(150_000);
    b.time = Some(1_700_000_000);
    b.leg = 12;
    b.turn = 34;
    assert!(a.at_same_place(&b));
    assert!(b.at_same_place(&a));
}

#[test]
fn one_unit_apart_is_another_place() {
    let a = place(55_750_000_000, 37_610_000_000);
    assert!(!a.at_same_place(&place(55_750_000_001, 37_610_000_000)));
    assert!(!a.at_same_place(&place(55_750_000_000, 37_609_999_999)));
    assert!(!a.at_same_place(&place(37_610_000_000, 55_750_000_000)));
}
