use surge::d_float::DFloat16;
use surge::decimal::Decimal;

fn attos(x: i128) -> Decimal {
    Decimal::from_attos(x)
}

fn same(a: Decimal, b: Decimal) -> bool {
    a.eq(b)
}

#[test]
fn test_new() {
    let d_float = DFloat16::new(0, 0);
    assert_eq!(d_float.0, 31743);

    let d_float = DFloat16::new(-15, -1023);
    assert_eq!(d_float.0, 0);

    let d_float = DFloat16::new(16, 1024);
    assert_eq!(d_float.0, 65535);
}

#[test]
fn test_into() {
    let d_float = DFloat16::new(0, 0);
    let decimal: Decimal = d_float.to_decimal();
    assert!(same(decimal, attos(0)));

    let d_float = DFloat16::new(-15, -1023);
    let decimal: Decimal = d_float.to_decimal();
    assert!(same(decimal, attos(-1023)));

    let d_float = DFloat16::new(16, 1024);
    let decimal: Decimal = d_float.to_decimal();
    assert!(same(decimal, attos(10240000000000000 * 1_000_000_000_000_000_000)));
}

#[test]
fn test_from() {
    let decimal = attos(0);
    let d_float = DFloat16::from_decimal(decimal);
    assert_eq!(d_float.0, DFloat16::new(0, 0).0);

    let decimal = attos(-1023);
    let d_float = DFloat16::from_decimal(decimal);
    assert_eq!(d_float.0, DFloat16::new(-15, -1023).0);

    let decimal = attos(10240000000000000 * 1_000_000_000_000_000_000);
    let d_float = DFloat16::from_decimal(decimal);
    assert_eq!(d_float.0, DFloat16::new(16, 1024).0);
}

#[test]
fn test_loop() {
    for exp in -15i32..17 {
        for sig in -1023i128..1025 {
            let dec = attos(sig * 10i128.pow((exp + 15) as u32));
            let d_float = DFloat16::from_decimal(dec);
            let reversed = d_float.to_decimal();
            assert!(same(reversed, dec));
        }
    }
}

#[test]
fn d_float_new_keeps_exponent_and_significand() {
    let d = DFloat16::new(-3, 517);
    assert_eq!(d.0, 12 * 2048 + 1540);
    assert!(same(d.to_decimal(), attos(517 * 1_000_000_000_000)));
}

#[test]
fn d_float_from_decimal_rounds_toward_zero() {
    // 1.23456: four digits give 1234, past the largest significand, so three are kept
    let d = DFloat16::from_decimal(attos(1_234_560_000_000_000_000));
    assert!(same(d.to_decimal(), attos(1_230_000_000_000_000_000)));
    let d = DFloat16::from_decimal(attos(-1_234_560_000_000_000_000));
    assert!(same(d.to_decimal(), attos(-1_230_000_000_000_000_000)));
    // 0.98765 keeps four digits: 987 × 10^-3
    let d = DFloat16::from_decimal(attos(987_650_000_000_000_000));
    assert!(same(d.to_decimal(), attos(987_000_000_000_000_000)));
}

#[test]
fn storing_cuts_the_lower_digits_toward_zero() {
    // 123456 attos keeps its leading digits 123 (the significand 1234 is one digit too many)
    assert!(same(DFloat16::from_decimal(attos(123456)).to_decimal(), attos(123000)));
    assert!(same(DFloat16::from_decimal(attos(-123456)).to_decimal(), attos(-123000)));
    assert!(same(DFloat16::from_decimal(attos(999)).to_decimal(), attos(999)));
}
