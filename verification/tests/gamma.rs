use displaylight::gamma::{
    create_exponential_gamma_1_0, create_exponential_gamma_1_3, create_exponential_gamma_1_6,
    create_linear, Gamma, GAMMA_TABLE_1_3, GAMMA_TABLE_1_6,
};
use displaylight::types::RGB;

#[test]
fn gamma_state_checks() {
    let v = create_linear();
    for i in 0..256 {
        assert_eq!(v[i], i as u8);
    }
}

#[test]
fn stock_tables_have_expected_endpoints() {
    let t0 = create_exponential_gamma_1_0();
    let t3 = create_exponential_gamma_1_3();
    let t6 = create_exponential_gamma_1_6();
    assert_eq!(t0.len(), 256);
    assert_eq!(t3.len(), 256);
    assert_eq!(t6.len(), 256);
    assert_eq!(t0[0], 0);
    assert_eq!(t0[255], 255);
    assert_eq!(t3[0], 0);
    assert_eq!(t3[255], 255);
    assert_eq!(t6[0], 0);
    assert_eq!(t6[255], 255);
    // A few mid-curve values of the nonlinear tables.
    assert_eq!(t3[128], GAMMA_TABLE_1_3[128]);
    assert_eq!(t6[128], GAMMA_TABLE_1_6[128]);
    assert!(t3[128] < 128);
    assert!(t6[128] < t3[128]);
}

#[test]
fn generate_twice_gives_bit_identical_tables() {
    let gr = 1.0f32.to_bits();
    let gg = 1.3f32.to_bits();
    let gb = 1.6f32.to_bits();
    let a = Gamma::generate(gr, gg, gb);
    let b = Gamma::generate(gr, gg, gb);
    for v in 0..=255u8 {
        let c = RGB { r: v, g: v, b: v };
        assert_eq!(a.apply_one(c), b.apply_one(c));
    }
}

#[test]
fn generate_selects_the_stock_tables() {
    let g = Gamma::generate(1.0f32.to_bits(), 1.3f32.to_bits(), 1.6f32.to_bits());
    let c = g.apply_one(RGB { r: 128, g: 128, b: 128 });
    assert_eq!(c.r, 128);
    assert_eq!(c.g, GAMMA_TABLE_1_3[128]);
    assert_eq!(c.b, GAMMA_TABLE_1_6[128]);
    // An exponent without a precomputed table falls back to identity.
    let g = Gamma::generate(2.2f32.to_bits(), 2.2f32.to_bits(), 2.2f32.to_bits());
    let c = g.apply_one(RGB { r: 200, g: 100, b: 50 });
    assert_eq!(c, RGB { r: 200, g: 100, b: 50 });
}

#[test]
fn apply_twice_is_not_idempotent() {
    // Gamma is not self-inverse: correcting an already-corrected buffer
    // darkens it further. This is expected behavior, not a defect.
    let g = Gamma::correction();
    let mut once = vec![RGB { r: 128, g: 128, b: 128 }];
    g.apply(&mut once);
    let mut twice = once.clone();
    g.apply(&mut twice);
    assert_ne!(once[0], twice[0]);
    assert!(twice[0].g < once[0].g);
}

#[test]
fn linear_apply_is_the_identity() {
    let g = Gamma::linear();
    let mut colors = vec![
        RGB { r: 0, g: 10, b: 20 },
        RGB { r: 255, g: 128, b: 1 },
    ];
    let before = colors.clone();
    g.apply(&mut colors);
    assert_eq!(colors, before);
}

#[test]
fn default_gamma_is_linear() {
    let g = Gamma::default();
    let c = g.apply_one(RGB { r: 3, g: 77, b: 250 });
    assert_eq!(c, RGB { r: 3, g: 77, b: 250 });
}
