use sm::{Fi32, PointFi32};

fn fx(units: i32) -> Fi32 {
    Fi32::from_int(units)
}

fn pt(x: i32, y: i32) -> PointFi32 {
    PointFi32::new(Fi32::from_bits(x), Fi32::from_bits(y))
}

#[test]
fn from_int_scales_by_128() {
    assert_eq!(fx(3).to_bits(), 384);
    assert_eq!(fx(-2).to_bits(), -256);
    assert_eq!(Fi32::zero().to_bits(), 0);
}

#[test]
fn add_sub_neg_are_exact() {
    assert_eq!(fx(3).add(fx(4)).to_bits(), 896);
    assert_eq!(fx(3).sub(fx(4)).to_bits(), -128);
    assert_eq!(fx(5).neg().to_bits(), -640);
}

#[test]
fn mul_rounds_down() {
    // 2.5 * 2 = 5
    assert_eq!(Fi32::from_bits(320).mul(fx(2)).to_bits(), 640);
    // 1/128 * 1/128 rounds down to 0, and its negative to -1/128
    assert_eq!(Fi32::from_bits(1).mul(Fi32::from_bits(1)).to_bits(), 0);
    assert_eq!(Fi32::from_bits(-1).mul(Fi32::from_bits(1)).to_bits(), -1);
    // 1.5 * 1.5 = 2.25
    assert_eq!(Fi32::from_bits(192).mul(Fi32::from_bits(192)).to_bits(), 288);
}

#[test]
fn div_truncates_toward_zero() {
    // 1 / 3 = 42/128 (0.328...)
    assert_eq!(fx(1).div(fx(3)).to_bits(), 42);
    assert_eq!(fx(-1).div(fx(3)).to_bits(), -42);
    assert_eq!(fx(1).div(fx(-3)).to_bits(), -42);
    assert_eq!(fx(6).div(fx(2)).to_bits(), 384);
}

#[test]
fn sqrt_rounds_down() {
    assert_eq!(fx(4).sqrt().to_bits(), 256);
    // sqrt(2) = 1.4142..., 181/128 = 1.4140...
    assert_eq!(fx(2).sqrt().to_bits(), 181);
    assert_eq!(Fi32::zero().sqrt().to_bits(), 0);
    assert_eq!(fx(25).sqrt().to_bits(), 640);
}

#[test]
fn min_and_clamp() {
    assert_eq!(fx(3).min(fx(-1)).to_bits(), -128);
    assert_eq!(fx(20).clamp(fx(-17), fx(17)).to_bits(), 17 * 128);
    assert_eq!(fx(-20).clamp(fx(-17), fx(17)).to_bits(), -17 * 128);
    assert_eq!(fx(5).clamp(fx(-17), fx(17)).to_bits(), 5 * 128);
    assert_eq!(fx(17).clamp(fx(-17), fx(17)).to_bits(), 17 * 128);
}

#[test]
fn sign_tests() {
    assert!(fx(1).is_positive());
    assert!(fx(-1).is_negative());
    assert!(Fi32::zero().is_zero());
    assert!(!Fi32::zero().is_positive());
    assert!(fx(-1).lt(fx(0)));
}

#[test]
fn normalize_three_four_five() {
    let n = pt(384, 512).normalize();
    assert_eq!(n.x.to_bits(), 76);
    assert_eq!(n.y.to_bits(), 102);
}

#[test]
fn normalize_axis_and_opposite() {
    let n = pt(100 * 128, 0).normalize();
    assert_eq!((n.x.to_bits(), n.y.to_bits()), (128, 0));
    let m = pt(-100 * 128, 0).normalize();
    assert_eq!((m.x.to_bits(), m.y.to_bits()), (-128, 0));
    // rounding makes a short horizontal vector slightly longer than one unit
    let s = pt(100, 0).normalize();
    assert_eq!(s.x.to_bits(), 129);
}

#[test]
fn normalize_zero_is_zero() {
    let n = pt(0, 0).normalize();
    assert_eq!((n.x.to_bits(), n.y.to_bits()), (0, 0));
    // a vector whose squared length rounds to zero also normalizes to zero
    let t = pt(3, 4).normalize();
    assert_eq!((t.x.to_bits(), t.y.to_bits()), (0, 0));
}

#[test]
fn vector_arithmetic() {
    let a = pt(128, 256);
    let b = pt(-64, 64);
    let s = a.add(b);
    assert_eq!((s.x.to_bits(), s.y.to_bits()), (64, 320));
    let d = a.sub(b);
    assert_eq!((d.x.to_bits(), d.y.to_bits()), (192, 192));
    let n = a.neg();
    assert_eq!((n.x.to_bits(), n.y.to_bits()), (-128, -256));
    let m = a.mul(Fi32::from_bits(64));
    assert_eq!((m.x.to_bits(), m.y.to_bits()), (64, 128));
    let o = a.offset(fx(1), fx(-1));
    assert_eq!((o.x.to_bits(), o.y.to_bits()), (256, 128));
    // (1, 2) . (3, 4) = 11
    assert_eq!(pt(128, 256).dot(pt(384, 512)).to_bits(), 11 * 128);
}

#[test]
fn vector_assign_ops() {
    let mut a = pt(128, 256);
    a.add_assign(pt(1, 2));
    assert_eq!((a.x.to_bits(), a.y.to_bits()), (129, 258));
    a.sub_assign(pt(1, 2));
    assert_eq!((a.x.to_bits(), a.y.to_bits()), (128, 256));
    a.mul_assign(fx(2));
    assert_eq!((a.x.to_bits(), a.y.to_bits()), (256, 512));
}
