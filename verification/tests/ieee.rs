use cufx_vio::ieee::{Double, Single};
use cufx_vio::order::total_key;

const VALUES: [f64; 14] = [
    0.0,
    -0.0,
    1.0,
    -1.0,
    5e-324,
    -5e-324,
    f64::MAX,
    f64::MIN,
    f64::INFINITY,
    f64::NEG_INFINITY,
    f64::NAN,
    -f64::NAN,
    0.1,
    2.5,
];

fn double(x: f64) -> Double {
    Double::from_bits(x.to_bits())
}

#[test]
fn comparisons_are_those_of_the_machine() {
    for a in VALUES {
        for b in VALUES {
            let (x, y) = (double(a), double(b));
            assert_eq!(x.lt(y), a < b, "{a} < {b}");
            assert_eq!(x.le(y), a <= b, "{a} <= {b}");
            assert_eq!(x.same(y), a == b, "{a} == {b}");
            assert_eq!(
                total_key(x) <= total_key(y),
                a.total_cmp(&b).is_le(),
                "{a} total {b}"
            );
            let m = f64::from_bits(x.max(y).bits);
            assert!(m == a.max(b) || (m.is_nan() && a.max(b).is_nan()), "max {a} {b}");
        }
        assert_eq!(double(a).is_nan(), a.is_nan());
        assert_eq!(double(a).is_finite(), a.is_finite());
        assert_eq!(double(a).is_zero(), a == 0.0);
        assert_eq!(double(a).abs().bits, a.abs().to_bits());
        assert_eq!(double(a).is_positive_finite(), a.is_finite() && a > 0.0);
    }
}

#[test]
fn binary32_widens_and_truncates_as_the_machine_does() {
    let values = [
        0.0f32,
        -0.0,
        1.0,
        -1.5,
        0.1,
        9.81,
        f32::MIN_POSITIVE,
        1e-45,
        3e-42,
        f32::MAX,
        f32::INFINITY,
        f32::NEG_INFINITY,
        16_777_216.0,
        123.999,
        0.999,
        -7.0,
        4_294_967_040.0,
    ];
    for v in values {
        let s = Single::from_bits(v.to_bits());
        assert_eq!(s.widen().bits, f64::from(v).to_bits(), "{v}");
        assert_eq!(s.to_usize(), v as usize, "{v}");
        assert_eq!(s.is_finite(), v.is_finite());
        assert_eq!(s.is_nan(), v.is_nan());
        assert_eq!(s.is_positive(), v > 0.0);
        for w in values {
            assert_eq!(s.lt(Single::from_bits(w.to_bits())), v < w, "{v} < {w}");
        }
    }
    let nan = Single::from_bits(f32::NAN.to_bits());
    assert!(nan.widen().is_nan());
    assert_eq!(nan.to_usize(), 0);
}
