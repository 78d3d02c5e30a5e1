use pixel_shader::pixel::{blue_of, green_of, pack_rgb, red_of};

#[test]
fn pure_red_fills_only_the_red_byte() {
    let p = pack_rgb(0xFF, 0, 0);
    assert_eq!(p, 0x00FF_0000);
    assert_eq!(red_of(p), 0xFF);
    assert_eq!(green_of(p), 0);
    assert_eq!(blue_of(p), 0);
}

#[test]
fn channels_take_their_own_bytes() {
    assert_eq!(pack_rgb(0, 0xFF, 0), 0x0000_FF00);
    assert_eq!(pack_rgb(0, 0, 0xFF), 0x0000_00FF);
    assert_eq!(pack_rgb(0x12, 0x34, 0x56), 0x0012_3456);
}

#[test]
fn dark_gray_background_packs_to_repeated_byte() {
    assert_eq!(pack_rgb(25, 25, 25), 0x0019_1919);
}

#[test]
fn channels_read_back_after_packing() {
    for &(r, g, b) in &[(0u8, 0u8, 0u8), (255, 255, 255), (1, 128, 254), (200, 3, 77)] {
        let p = pack_rgb(r, g, b);
        assert_eq!((red_of(p), green_of(p), blue_of(p)), (r, g, b));
    }
}

#[test]
fn readers_ignore_the_top_byte() {
    let p: u32 = 0xAB12_3456;
    assert_eq!(red_of(p), 0x12);
    assert_eq!(green_of(p), 0x34);
    assert_eq!(blue_of(p), 0x56);
}
