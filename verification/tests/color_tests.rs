use colorunit::color::{rgb_to_rgbw, Rgbw};

fn conv(r: u8, g: u8, b: u8) -> (u8, u8, u8, u8) {
    let out = rgb_to_rgbw(r, g, b);
    (out.r, out.g, out.b, out.w)
}

#[test]
fn black_maps_to_all_dark() {
    assert_eq!(conv(0, 0, 0), (0, 0, 0, 0));
}

#[test]
fn white_maps_to_white_channel_only() {
    assert_eq!(conv(255, 255, 255), (0, 0, 0, 255));
}

#[test]
fn pure_red_keeps_red_no_white() {
    assert_eq!(conv(255, 0, 0), (255, 0, 0, 0));
}

#[test]
fn pure_blue_keeps_blue_no_white() {
    assert_eq!(conv(0, 0, 255), (0, 0, 255, 0));
}

#[test]
fn gray_goes_to_white_channel() {
    assert_eq!(conv(128, 128, 128), (0, 0, 0, 64));
}

#[test]
fn saturated_orange_keeps_hue() {
    assert_eq!(conv(255, 128, 0), (255, 128, 0, 0));
}

#[test]
fn desaturated_red_splits_into_color_and_white() {
    assert_eq!(conv(255, 128, 128), (179, 0, 0, 75));
}

#[test]
fn dim_color_dims_all_channels() {
    assert_eq!(conv(10, 20, 30), (0, 1, 2, 0));
}

#[test]
fn mixed_color_example() {
    assert_eq!(conv(200, 100, 50), (135, 45, 0, 21));
}

#[test]
fn conversion_is_deterministic() {
    for &(r, g, b) in &[(0u8, 0u8, 0u8), (255, 255, 255), (17, 200, 96), (1, 2, 3)] {
        assert_eq!(conv(r, g, b), conv(r, g, b));
    }
}

#[test]
fn struct_fields_are_plain() {
    let out: Rgbw = rgb_to_rgbw(255, 0, 0);
    assert_eq!(out.r, 255);
    assert_eq!(out.w, 0);
}
