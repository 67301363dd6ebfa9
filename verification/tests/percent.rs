use ryu_drafts::percent::Percent;

fn percent(x: f64) -> Percent {
    Percent { bits: x.to_bits() }
}

fn samples() -> Vec<f64> {
    let mut v = vec![
        0.0, -0.0, 0.25, 0.5, 0.75, 1.0, 1.5, 2.5, 3.5, 12.0, 41.5, 87.5, 88.5, 90.0, 99.0, 99.5,
        99.49999999999999, 100.0, -0.4, -0.5, -0.6, -1.5, -2.5, 1e15, 1e16, 1e21, 1e100, 1e308,
        f64::MAX, f64::MIN, f64::MIN_POSITIVE, 5e-324, f64::INFINITY, f64::NEG_INFINITY, f64::NAN,
        4503599627370495.5, 4503599627370496.5, 9007199254740993.0, 0.1, 0.2, 1.0 / 3.0,
    ];
    let mut bits: u64 = 0x9e37_79b9_7f4a_7c15;
    for _ in 0..400 {
        bits ^= bits << 13;
        bits ^= bits >> 7;
        bits ^= bits << 17;
        v.push(f64::from_bits(bits));
        v.push((bits >> 40) as f64 / 1024.0);
        v.push((bits >> 50) as f64 / 2.0);
    }
    v
}

#[test]
fn percentages_are_written_without_a_fraction() {
    assert_eq!(percent(87.5).write(), "88");
    assert_eq!(percent(88.5).write(), "88");
    assert_eq!(percent(-0.4).write(), "-0");
    assert_eq!(percent(1e21).write(), "1000000000000000000000");
    assert_eq!(percent(f64::NAN).write(), "NaN");
    assert_eq!(percent(f64::INFINITY).write(), "inf");
    assert_eq!(percent(f64::NEG_INFINITY).write(), "-inf");
    for x in samples() {
        assert_eq!(percent(x).write(), format!("{x:.0}"), "{x:e}");
    }
}

#[test]
fn percentages_compare_as_numbers_do() {
    let all = samples();
    for a in &all {
        for b in &all {
            assert_eq!(percent(*a).below(&percent(*b)), a < b, "{a:e} {b:e}");
            assert_eq!(percent(*a) == percent(*b), a == b, "{a:e} {b:e}");
        }
    }
}
