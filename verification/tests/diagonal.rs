use mousekeys::diagonal::compensate;

#[test]
fn seven_becomes_four() {
    // floor(7 * 181 / 256) = floor(4.949)
    assert_eq!(compensate(7), 4);
}

#[test]
fn compensation_exact_values() {
    assert_eq!(compensate(2), 1);
    assert_eq!(compensate(3), 2);
    assert_eq!(compensate(10), 7);
    assert_eq!(compensate(70), 49);
    assert_eq!(compensate(256), 181);
    assert_eq!(compensate(257), 181);
    assert_eq!(compensate(i32::MAX), 1_518_338_047);
}

#[test]
fn compensation_never_yields_less_than_one() {
    assert_eq!(compensate(1), 1);
    assert_eq!(compensate(0), 1);
    assert_eq!(compensate(-1), 1);
    assert_eq!(compensate(-7), 1);
    assert_eq!(compensate(i32::MIN), 1);
}

#[test]
fn compensation_never_raises_and_keeps_order() {
    let mut previous = compensate(1);
    for magnitude in 1..2000 {
        let scaled = compensate(magnitude);
        assert!(scaled >= 1);
        assert!(scaled <= magnitude);
        assert!(scaled >= previous);
        previous = scaled;
    }
}
