use enginekit::math::color::{ColorRGB, ColorRGBA};

#[test]
fn test_i32_to_color() {
    let c = ColorRGB::from_u32(255 << 24);
    assert!(c.r == 255);
    let c = ColorRGB::from_u32(0xFF_00_00_00);
    assert!(c.r == 255);
    let c = ColorRGB::from_u32(0x00_FF_00_00);
    assert!(c.g == 255);
    let c = ColorRGB::from_u32(0x00_00_FF_00);
    assert!(c.b == 255);

    let c = ColorRGBA::from_u32(255 << 24);
    assert!(c.r == 255);
    let c = ColorRGBA::from_u32(0xFF_00_00_00);
    assert!(c.r == 255);
    let c = ColorRGBA::from_u32(0x00_FF_00_00);
    assert!(c.g == 255);
    let c = ColorRGBA::from_u32(0x00_00_FF_00);
    assert!(c.b == 255);
    let c = ColorRGBA::from_u32(0x00_00_00_FF);
    assert!(c.a == 255);

    let c = ColorRGBA::from_u32(0xFF_FF_FF_FF);
    assert!(c.r == 255 && c.g == 255 && c.b == 255 && c.a == 255);
}

#[test]
fn color_new_is_black() {
    let c = ColorRGB::new();
    assert_eq!((c.r, c.g, c.b), (0, 0, 0));
    let c = ColorRGBA::new();
    assert_eq!((c.r, c.g, c.b, c.a), (0, 0, 0, 0));
}

#[test]
fn color_from_channels() {
    let c = ColorRGB::from_rgb(1, 2, 3);
    assert_eq!((c.r, c.g, c.b), (1, 2, 3));
    let c = ColorRGBA::from_rgba(1, 2, 3, 4);
    assert_eq!((c.r, c.g, c.b, c.a), (1, 2, 3, 4));
}

#[test]
fn color_unpacks_each_byte() {
    let c = ColorRGBA::from_u32(0x12_34_56_78);
    assert_eq!((c.r, c.g, c.b, c.a), (0x12, 0x34, 0x56, 0x78));
    let c = ColorRGB::from_u32(0x12_34_56_78);
    assert_eq!((c.r, c.g, c.b), (0x12, 0x34, 0x56));
}
