use lottie_core::{BlendMode, MaskMode, MatteMode};

#[test]
fn test_blend_mode_normal() {
    assert_eq!(BlendMode::Normal as i32, 0);
}

#[test]
fn test_blend_mode_multiply() {
    assert_eq!(BlendMode::Multiply as i32, 1);
}

#[test]
fn test_blend_mode_screen() {
    assert_eq!(BlendMode::Screen as i32, 2);
}

#[test]
fn test_blend_mode_overlay() {
    assert_eq!(BlendMode::Overlay as i32, 3);
}

#[test]
fn test_blend_mode_darken() {
    assert_eq!(BlendMode::Darken as i32, 4);
}

#[test]
fn test_blend_mode_lighten() {
    assert_eq!(BlendMode::Lighten as i32, 5);
}

#[test]
fn test_blend_mode_color_dodge() {
    assert_eq!(BlendMode::ColorDodge as i32, 6);
}

#[test]
fn test_blend_mode_color_burn() {
    assert_eq!(BlendMode::ColorBurn as i32, 7);
}

#[test]
fn test_blend_mode_hard_light() {
    assert_eq!(BlendMode::HardLight as i32, 8);
}

#[test]
fn test_blend_mode_soft_light() {
    assert_eq!(BlendMode::SoftLight as i32, 9);
}

#[test]
fn test_blend_mode_difference() {
    assert_eq!(BlendMode::Difference as i32, 10);
}

#[test]
fn test_blend_mode_exclusion() {
    assert_eq!(BlendMode::Exclusion as i32, 11);
}

#[test]
fn test_blend_mode_hue() {
    assert_eq!(BlendMode::Hue as i32, 12);
}

#[test]
fn test_blend_mode_saturation() {
    assert_eq!(BlendMode::Saturation as i32, 13);
}

#[test]
fn test_blend_mode_color() {
    assert_eq!(BlendMode::Color as i32, 14);
}

#[test]
fn test_blend_mode_luminosity() {
    assert_eq!(BlendMode::Luminosity as i32, 15);
}

#[test]
fn test_all_blend_modes_present() {
    let modes = vec![
        BlendMode::Normal,
        BlendMode::Multiply,
        BlendMode::Screen,
        BlendMode::Overlay,
        BlendMode::Darken,
        BlendMode::Lighten,
        BlendMode::ColorDodge,
        BlendMode::ColorBurn,
        BlendMode::HardLight,
        BlendMode::SoftLight,
        BlendMode::Difference,
        BlendMode::Exclusion,
        BlendMode::Hue,
        BlendMode::Saturation,
        BlendMode::Color,
        BlendMode::Luminosity,
    ];

    assert_eq!(modes.len(), 16, "Should have exactly 16 blend modes");
}

#[test]
fn test_matte_mode_alpha() {
    assert_eq!(MatteMode::Alpha as i32, 0);
}

#[test]
fn test_matte_mode_alpha_inverted() {
    assert_eq!(MatteMode::AlphaInverted as i32, 1);
}

#[test]
fn test_matte_mode_luma() {
    assert_eq!(MatteMode::Luma as i32, 2);
}

#[test]
fn test_matte_mode_luma_inverted() {
    assert_eq!(MatteMode::LumaInverted as i32, 3);
}

#[test]
fn test_all_matte_modes_present() {
    let modes = vec![
        MatteMode::Alpha,
        MatteMode::AlphaInverted,
        MatteMode::Luma,
        MatteMode::LumaInverted,
    ];
    assert_eq!(modes.len(), 4, "Should have exactly 4 matte modes");
}

#[test]
fn test_mask_mode_none() {
    assert_eq!(MaskMode::NoMask as i32, 0);
}

#[test]
fn test_mask_mode_add() {
    assert_eq!(MaskMode::Add as i32, 1);
}

#[test]
fn test_mask_mode_subtract() {
    assert_eq!(MaskMode::Subtract as i32, 2);
}

#[test]
fn test_mask_mode_intersect() {
    assert_eq!(MaskMode::Intersect as i32, 3);
}

#[test]
fn test_mask_mode_lighten() {
    assert_eq!(MaskMode::Lighten as i32, 4);
}

#[test]
fn test_mask_mode_darken() {
    assert_eq!(MaskMode::Darken as i32, 5);
}

#[test]
fn test_mask_mode_difference() {
    assert_eq!(MaskMode::Difference as i32, 6);
}

#[test]
fn test_all_mask_modes_present() {
    let modes = vec![
        MaskMode::NoMask,
        MaskMode::Add,
        MaskMode::Subtract,
        MaskMode::Intersect,
        MaskMode::Lighten,
        MaskMode::Darken,
        MaskMode::Difference,
    ];

    assert_eq!(modes.len(), 7, "Should have exactly 7 mask modes");
}
