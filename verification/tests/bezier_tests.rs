use hybrid::{fac, binomial3, bernstein3, Frac, clamp, SCALE};
use hybrid::fixed::{fx_sin, fx_cos, isqrt, PI_FX, HALF_PI_FX};

#[test]
fn fac_small_values() {
    assert_eq!(fac(0), 1);
    assert_eq!(fac(1), 1);
    assert_eq!(fac(3), 6);
    assert_eq!(fac(12), 479001600);
}

#[test]
fn binomial3_values() {
    assert_eq!(binomial3(0), 1);
    assert_eq!(binomial3(1), 3);
    assert_eq!(binomial3(2), 3);
    assert_eq!(binomial3(3), 1);
}

#[test]
fn bernstein_weights_at_half() {
    let t = Frac::new(1, 2);
    assert_eq!(bernstein3(0, t), 1);
    assert_eq!(bernstein3(1, t), 3);
    assert_eq!(bernstein3(2, t), 3);
    assert_eq!(bernstein3(3, t), 1);
}

#[test]
fn bernstein_partition_of_unity() {
    // the four weights always sum to den^3, the fixed-point unit of the blend
    let t = Frac::new(3, 7);
    assert_eq!(bernstein3(0, t), 64);
    assert_eq!(bernstein3(1, t), 144);
    assert_eq!(bernstein3(2, t), 108);
    assert_eq!(bernstein3(3, t), 27);
    let sum = bernstein3(0, t) + bernstein3(1, t) + bernstein3(2, t) + bernstein3(3, t);
    assert_eq!(sum, 343);
    for num in 0..=9u32 {
        let t = Frac::new(num, 9);
        let sum = bernstein3(0, t) + bernstein3(1, t) + bernstein3(2, t) + bernstein3(3, t);
        assert_eq!(sum, 729);
    }
}

#[test]
fn bernstein_ends_concentrate() {
    let zero = Frac::new(0, 5);
    assert_eq!(bernstein3(0, zero), 125);
    assert_eq!(bernstein3(1, zero), 0);
    assert_eq!(bernstein3(2, zero), 0);
    assert_eq!(bernstein3(3, zero), 0);
    let one = Frac::new(5, 5);
    assert_eq!(bernstein3(0, one), 0);
    assert_eq!(bernstein3(3, one), 125);
}

#[test]
fn clamp_unit_interval() {
    assert_eq!(clamp(-5), 0);
    assert_eq!(clamp(0), 0);
    assert_eq!(clamp(123), 123);
    assert_eq!(clamp(SCALE), SCALE);
    assert_eq!(clamp(SCALE + 1), SCALE);
}

#[test]
fn sine_fixed_points() {
    assert_eq!(fx_sin(0), 0);
    assert_eq!(fx_sin(PI_FX), 0);
    assert_eq!(fx_sin(HALF_PI_FX), 65535);
    assert_eq!(fx_sin(PI_FX / 3), 56679);
    // the second half-turn is the mirror image
    assert_eq!(fx_sin(PI_FX + HALF_PI_FX), -65535);
    assert_eq!(fx_cos(0), fx_sin(HALF_PI_FX));
}

#[test]
fn integer_square_roots() {
    assert_eq!(isqrt(0), 0);
    assert_eq!(isqrt(1), 1);
    assert_eq!(isqrt(3), 1);
    assert_eq!(isqrt(4), 2);
    assert_eq!(isqrt(99), 9);
    assert_eq!(isqrt(1 << 40), 1 << 20);
    assert_eq!(isqrt((1 << 40) - 1), (1 << 20) - 1);
}
