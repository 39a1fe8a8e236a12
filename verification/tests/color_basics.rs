use ugl_rs::color::{Color, RGBA};

const UNIT: i64 = 131070;

#[test]
fn new_and_arrays() {
    let cha: [u8; 4] = [0x11, 0x22, 0x33, 0xFF];
    let rgba = RGBA::<u8>::new(cha[0], cha[1], cha[2], cha[3]);
    assert!(rgba.r == cha[0] && rgba.g == cha[1] && rgba.b == cha[2] && rgba.a == cha[3]);
    assert_eq!(rgba.to_array(), cha);
    assert_eq!(rgba.to_arra3(), [0x11, 0x22, 0x33]);
}

#[test]
fn named_colors_u8() {
    assert_eq!(Color::zeroed().to_array(), [0, 0, 0, 0]);
    assert_eq!(Color::white().to_array(), [255, 255, 255, 255]);
    assert_eq!(Color::black().to_array(), [0, 0, 0, 255]);
    assert_eq!(Color::red().to_array(), [255, 0, 0, 255]);
    assert_eq!(Color::green().to_array(), [0, 255, 0, 255]);
    assert_eq!(Color::blue().to_array(), [0, 0, 255, 255]);
    assert_eq!(Color::cyan().to_array(), [0, 255, 255, 255]);
    assert_eq!(Color::yellow().to_array(), [255, 255, 0, 255]);
    assert_eq!(Color::purple().to_array(), [255, 0, 255, 255]);
}

#[test]
fn default_is_opaque_black() {
    assert_eq!(RGBA::<u8>::default().to_array(), [0, 0, 0, 255]);
    assert_eq!(RGBA::<u16>::default().to_array(), [0, 0, 0, 65535]);
    assert_eq!(RGBA::<i64>::default().to_array(), [0, 0, 0, UNIT]);
}

#[test]
fn named_colors_fixed() {
    assert_eq!(RGBA::<i64>::white().to_array(), [UNIT, UNIT, UNIT, UNIT]);
    assert_eq!(RGBA::<i64>::black().to_array(), [0, 0, 0, UNIT]);
}

#[test]
fn packed_u8_reads_argb() {
    let rgba = RGBA::<u8>::new(0x11, 0x22, 0x33, 0xFF);
    assert_eq!(rgba.packed(), 0xFF112233);
    assert_eq!(RGBA::<u8>::unpacked(0xFF112233), rgba);
}

#[test]
fn packed_u16_reads_argb() {
    let rgba = RGBA::<u16>::new(0x1111, 0x2222, 0x3333, 0xFFFF);
    assert_eq!(rgba.packed(), 0xFFFF111122223333u64);
    assert_eq!(RGBA::<u16>::unpacked(0xFFFF111122223333u64), rgba);
}

#[test]
fn packed_roundtrip_u8_sweep() {
    for v in 0..=255u8 {
        let c = RGBA::<u8>::new(v, v ^ 0x5A, 255 - v, v.wrapping_mul(3));
        assert_eq!(RGBA::<u8>::unpacked(c.packed()), c);
    }
    for p in [0u32, 1, 0x80, 0xFF, 0x01020304, 0xDEADBEEF, 0xFFFFFFFF] {
        assert_eq!(RGBA::<u8>::unpacked(p).packed(), p);
    }
}

#[test]
fn packed_roundtrip_u16_sweep() {
    for v in [0u16, 1, 255, 256, 0x1234, 0x8000, 0xFFFF] {
        let c = RGBA::<u16>::new(v, v ^ 0x5A5A, 0xFFFF - v, v.wrapping_mul(7));
        assert_eq!(RGBA::<u16>::unpacked(c.packed()), c);
    }
    for p in [0u64, 1, 0x0102030405060708, 0xFFFFFFFFFFFFFFFF] {
        assert_eq!(RGBA::<u16>::unpacked(p).packed(), p);
    }
}

#[test]
fn mula_u8_values() {
    let c = RGBA::<u8>::new(255, 128, 0, 255);
    assert_eq!(c.mula().to_array(), [254, 127, 0, 255]);
    let t = RGBA::<u8>::new(200, 100, 50, 0);
    // (200*0 + 127) / 256 = 0 on every color channel
    assert_eq!(t.mula().to_array(), [0, 0, 0, 0]);
}

#[test]
fn mula_u16_values() {
    let c = RGBA::<u16>::new(65535, 32768, 0, 65535);
    assert_eq!(c.mula().to_array(), [65534, 32767, 0, 65535]);
}

#[test]
fn mula_fixed_values() {
    let c = RGBA::<i64>::new(UNIT, 65535, 0, 65535);
    assert_eq!(c.mula().to_array(), [65535, 32768, 0, 65535]);
    let opaque = RGBA::<i64>::new(39321, 26214, 13107, UNIT);
    // premultiplying by a full alpha changes nothing
    assert_eq!(opaque.mula(), opaque);
}

#[test]
fn widen_narrow_u8_u16() {
    let c = RGBA::<u8>::new(0x12, 0x00, 0xFF, 0x80);
    let w = c.widened();
    assert_eq!(w.to_array(), [0x1200, 0x0000, 0xFF00, 0x8000]);
    assert_eq!(w.narrowed(), c);
    let n = RGBA::<u16>::new(0x12FF, 0x00FF, 0xFFFF, 0x80FF).narrowed();
    assert_eq!(n.to_array(), [0x12, 0x00, 0xFF, 0x80]);
}

#[test]
fn quantize_normalize_roundtrip_u8() {
    for v in 0..=255u8 {
        let c = RGBA::<u8>::new(v, 255 - v, v ^ 0x33, v);
        assert_eq!(c.normalized().quantize(), c);
    }
}

#[test]
fn quantize_normalize_roundtrip_u16() {
    for v in 0..=65535u16 {
        let c = RGBA::<u16>::new(v, 65535 - v, v ^ 0x3333, v);
        assert_eq!(c.normalized().quantize16(), c);
    }
}

#[test]
fn normalize_is_exact_scaling() {
    let c = RGBA::<u8>::new(0, 1, 128, 255).normalized();
    assert_eq!(c.to_array(), [0, 514, 128 * 514, UNIT]);
    let c16 = RGBA::<u16>::new(0, 1, 32768, 65535).normalized();
    assert_eq!(c16.to_array(), [0, 2, 65536, UNIT]);
}

#[test]
fn gamma_fast_pair_values() {
    let c = RGBA::<i64>::new(UNIT, 65535, 0, 12345);
    let lin = c.map2linear();
    // squaring: 1.0 stays 1.0, 0.5 becomes 0.25 (rounded up from 0.24999...)
    assert_eq!(lin.to_array(), [UNIT, 32768, 0, 12345]);
    let enc = lin.map2gamma();
    assert_eq!(enc.to_array(), [UNIT, 65535, 0, 12345]);
}

#[test]
fn gamma_encode_is_floor_sqrt() {
    let c = RGBA::<i64>::new(32768, UNIT, 65535, UNIT);
    // floor(sqrt(v * UNIT)) per channel
    assert_eq!(c.map2gamma().to_array(), [65535, UNIT, 92680, UNIT]);
}
