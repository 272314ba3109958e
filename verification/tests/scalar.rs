use tw3d::Scalar;

fn s(value: f32) -> Scalar {
    Scalar::from_bits(value.to_bits())
}

/// Patterns around every edge of the format, and a spread of others.
fn patterns() -> Vec<u32> {
    let mut out = vec![
        0x0000_0000, 0x0000_0001, 0x0000_0002, 0x0000_0003, 0x007f_ffff, 0x0080_0000, 0x0080_0001,
        0x00ff_fffe, 0x00ff_ffff, 0x0100_0000, 0x0100_0001, 0x3f00_0000, 0x3f7f_ffff, 0x3f80_0000,
        0x3f80_0001, 0x3fc0_0000, 0x4000_0000, 0x4b00_0000, 0x4b7f_ffff, 0x4b80_0000, 0x4e7f_ffff,
        0x4eff_ffff, 0x4f00_0000, 0x4f00_0001, 0x4f80_0000, 0x7f7f_ffff, 0x7f80_0000, 0x7f80_0001,
        0x7fc0_0000, 0x7fff_ffff, 0x3586_37bd, 0x3dcc_cccd,
    ];
    let mut state: u32 = 0x1234_5678;
    for _ in 0..4000 {
        state = state.wrapping_mul(1_664_525).wrapping_add(1_013_904_223);
        out.push(state & 0x7fff_ffff);
    }
    let negatives: Vec<u32> = out.iter().map(|b| b | 0x8000_0000).collect();
    out.extend(negatives);
    out
}

#[test]
fn classification_matches_the_hardware() {
    for bits in patterns() {
        let f = f32::from_bits(bits);
        let x = Scalar::from_bits(bits);
        assert_eq!(x.to_bits(), bits);
        assert_eq!(x.is_nan(), f.is_nan(), "{bits:#x}");
        assert_eq!(x.is_infinite(), f.is_infinite(), "{bits:#x}");
        assert_eq!(x.is_finite(), f.is_finite(), "{bits:#x}");
        assert_eq!(x.is_sign_negative(), f.is_sign_negative(), "{bits:#x}");
        assert_eq!(x.neg().to_bits(), (-f).to_bits(), "{bits:#x}");
        assert_eq!(x.abs().to_bits(), f.abs().to_bits(), "{bits:#x}");
    }
}

#[test]
fn comparisons_match_the_hardware() {
    let all = patterns();
    let some: Vec<u32> = all.iter().copied().step_by(37).chain(all[..32].iter().copied()).collect();
    for &a in &some {
        for &b in &some {
            let (fa, fb) = (f32::from_bits(a), f32::from_bits(b));
            let (xa, xb) = (Scalar::from_bits(a), Scalar::from_bits(b));
            assert_eq!(xa.lt(xb), fa < fb, "{a:#x} < {b:#x}");
            assert_eq!(xa.le(xb), fa <= fb, "{a:#x} <= {b:#x}");
            assert_eq!(xa.gt(xb), fa > fb, "{a:#x} > {b:#x}");
            assert_eq!(xa.ge(xb), fa >= fb, "{a:#x} >= {b:#x}");
            assert_eq!(xa.same_number(xb), fa == fb, "{a:#x} == {b:#x}");
            if !(fa == fb) {
                // which of two equal numbers min and max return is left open
                assert_eq!(xa.min(xb).to_bits(), fa.min(fb).to_bits(), "min {a:#x} {b:#x}");
                assert_eq!(xa.max(xb).to_bits(), fa.max(fb).to_bits(), "max {a:#x} {b:#x}");
            }
        }
    }
}

#[test]
fn zeros_are_equal_and_nan_is_unordered() {
    assert!(s(0.0).same_number(s(-0.0)));
    assert!(!s(-0.0).lt(s(0.0)));
    assert!(s(-0.0).le(s(0.0)));
    assert!(s(0.0) != s(-0.0));
    let nan = s(f32::NAN);
    assert!(!nan.same_number(nan));
    assert!(!nan.lt(s(1.0)) && !nan.gt(s(1.0)) && !nan.le(nan) && !nan.ge(nan));
    assert_eq!(nan.min(s(2.0)), s(2.0));
    assert_eq!(s(2.0).max(nan), s(2.0));
}

#[test]
fn half_matches_division_by_two() {
    for bits in patterns() {
        let f = f32::from_bits(bits);
        if f.is_nan() {
            assert!(Scalar::from_bits(bits).half().is_nan());
        } else {
            assert_eq!(Scalar::from_bits(bits).half().to_bits(), (f / 2.0).to_bits(), "{bits:#x}");
        }
    }
    assert_eq!(s(2.0).half(), s(1.0));
    assert_eq!(s(-3.0).half(), s(-1.5));
    // ties go to the even neighbour
    assert_eq!(Scalar::from_bits(1).half().to_bits(), 0);
    assert_eq!(Scalar::from_bits(3).half().to_bits(), 2);
    assert_eq!(Scalar::from_bits(0x00ff_ffff).half().to_bits(), 0x0080_0000);
    assert_eq!(Scalar::from_bits(0x8000_0001).half().to_bits(), 0x8000_0000);
}

#[test]
fn floor_and_ceil_match_the_hardware() {
    for bits in patterns() {
        let f = f32::from_bits(bits);
        let x = Scalar::from_bits(bits);
        assert_eq!(x.floor_to_i32(), f.floor() as i32, "floor {bits:#x} {f}");
        assert_eq!(x.ceil_to_i32(), f.ceil() as i32, "ceil {bits:#x} {f}");
    }
    let cases: [(f32, i32, i32); 14] = [
        (0.0, 0, 0),
        (-0.0, 0, 0),
        (0.5, 0, 1),
        (-0.5, -1, 0),
        (1.0, 1, 1),
        (-1.0, -1, -1),
        (2.75, 2, 3),
        (-2.75, -3, -2),
        (1.0e-40, 0, 1),
        (-1.0e-40, -1, 0),
        (2147483520.0, 2147483520, 2147483520),
        (2147483648.0, i32::MAX, i32::MAX),
        (-2147483648.0, i32::MIN, i32::MIN),
        (-3.0e9, i32::MIN, i32::MIN),
    ];
    for (value, floor, ceil) in cases {
        assert_eq!(s(value).floor_to_i32(), floor, "{value}");
        assert_eq!(s(value).ceil_to_i32(), ceil, "{value}");
    }
    assert_eq!(s(f32::NAN).floor_to_i32(), 0);
    assert_eq!(s(f32::NAN).ceil_to_i32(), 0);
    assert_eq!(s(f32::INFINITY).floor_to_i32(), i32::MAX);
    assert_eq!(s(f32::NEG_INFINITY).ceil_to_i32(), i32::MIN);
}
