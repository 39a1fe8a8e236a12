use ugl_rs::blend::RGBA;

const UNIT: i64 = 131070;

fn fx(tenths: i64) -> i64 {
    tenths * 13107
}

#[test]
fn opaque_scenario() {
    let draw = RGBA::<i64>::new(fx(3), fx(2), fx(1), fx(10));
    let back = RGBA::<i64>::new(fx(2), fx(4), fx(7), fx(10));

    assert_eq!(draw.drop(back), back);
    assert_eq!(draw.copy(back), draw);
    assert_eq!(draw.src_over(back), draw);
    assert_eq!(draw.dst_over(back), back);

    assert_eq!(draw.plus(back), RGBA::<i64>::new(fx(5), fx(6), fx(8), fx(10)));
    assert_eq!(draw.clear(), RGBA::<i64>::new(0, 0, 0, 0));
}

#[test]
fn clear_ignores_inputs() {
    let c = RGBA::<i64>::new(fx(9), fx(1), fx(4), fx(6));
    assert_eq!(c.clear().to_array(), [0, 0, 0, 0]);
}

#[test]
fn copy_premultiplies_translucent_source() {
    let s = RGBA::<i64>::new(fx(3), fx(2), fx(1), fx(5));
    let d = RGBA::<i64>::new(fx(2), fx(4), fx(7), fx(10));
    assert_eq!(s.copy(d), s.mula());
}

#[test]
fn dest_premultiplies_translucent_backdrop() {
    let s = RGBA::<i64>::new(fx(3), fx(2), fx(1), fx(10));
    let d = RGBA::<i64>::new(fx(2), fx(4), fx(7), fx(5));
    assert_eq!(s.drop(d), d.mula());
}

#[test]
fn src_over_transparent_backdrop_is_premultiplied_source() {
    let s = RGBA::<i64>::new(fx(3), fx(2), fx(1), fx(5));
    let clear = RGBA::<i64>::new(fx(2), fx(4), fx(7), 0);
    assert_eq!(s.src_over(clear), s.mula());
}

#[test]
fn lighter_alpha_is_clamped_sum() {
    let s = RGBA::<i64>::new(0, 0, 0, fx(7));
    let d = RGBA::<i64>::new(0, 0, 0, fx(5));
    assert_eq!(s.lighter(d).a, UNIT);
    let s2 = RGBA::<i64>::new(0, 0, 0, fx(3));
    let d2 = RGBA::<i64>::new(0, 0, 0, fx(4));
    assert_eq!(s2.lighter(d2).a, fx(7));
    assert_eq!(s2.plus(d2), s2.lighter(d2));
}

#[test]
fn src_in_weights_by_backdrop_alpha() {
    let s = RGBA::<i64>::new(fx(4), 0, 0, 65535);
    let d = RGBA::<i64>::new(fx(9), fx(9), fx(9), 65535);
    let out = s.src_in(d);
    // Fa = ab = 0.5, so the weight is 0.25 and 0.25 * 0.4 = 0.1
    assert_eq!(out.r, 13107);
    assert_eq!(out.g, 0);
    assert_eq!(out.a, 32768);
}

#[test]
fn dst_in_weights_by_source_alpha() {
    let s = RGBA::<i64>::new(0, 0, 0, UNIT);
    let d = RGBA::<i64>::new(fx(6), fx(2), fx(8), UNIT);
    assert_eq!(s.dst_in(d), d);
}

#[test]
fn src_out_and_dst_out_vanish_on_opaque_cover() {
    let s = RGBA::<i64>::new(fx(3), fx(2), fx(1), UNIT);
    let d = RGBA::<i64>::new(fx(2), fx(4), fx(7), UNIT);
    assert_eq!(s.src_out(d).to_array(), [0, 0, 0, 0]);
    assert_eq!(s.dst_out(d).to_array(), [0, 0, 0, 0]);
}

#[test]
fn atop_and_xor_on_opaque_inputs() {
    let s = RGBA::<i64>::new(fx(3), fx(2), fx(1), UNIT);
    let d = RGBA::<i64>::new(fx(2), fx(4), fx(7), UNIT);
    // both opaque: SrcAtop keeps the source, DstAtop keeps the backdrop
    assert_eq!(s.src_atop(d), s);
    assert_eq!(s.dst_atop(d), d);
    assert_eq!(s.xor(d).to_array(), [0, 0, 0, 0]);
}
