use ugl_rs::blend::RGBA;

const UNIT: i64 = 131070;

fn fx(tenths: i64) -> i64 {
    tenths * 13107
}

fn opaque(r: i64, g: i64, b: i64) -> RGBA<i64> {
    RGBA::<i64>::new(r, g, b, UNIT)
}

#[test]
fn normal_is_identity() {
    let s = RGBA::<i64>::new(fx(3), fx(2), fx(1), fx(4));
    let d = RGBA::<i64>::new(fx(9), fx(8), fx(7), fx(6));
    assert_eq!(s.normal(d), s);
}

#[test]
fn multiply_white_preserves_color() {
    let s = RGBA::<i64>::new(fx(3), fx(7), fx(1), fx(4));
    assert_eq!(s.multiply(RGBA::<i64>::white()), s);
}

#[test]
fn multiply_black_gives_black_channels() {
    let s = RGBA::<i64>::new(fx(3), fx(7), fx(1), fx(4));
    let out = s.multiply(RGBA::<i64>::black());
    assert_eq!(out.to_array(), [0, 0, 0, fx(4)]);
}

#[test]
fn multiply_halves_against_half_gray() {
    let s = opaque(fx(4), 0, UNIT);
    let out = s.multiply(opaque(65535, 65535, 65535));
    assert_eq!(out.to_array(), [fx(2), 0, 65535, UNIT]);
}

#[test]
fn multiply_with_translucent_backdrop_lerps() {
    let s = opaque(fx(4), 0, 0);
    let d = RGBA::<i64>::new(fx(2), 0, 0, 65535);
    // 0.5*0.4 + 0.5*(0.2*0.4) = 0.24
    assert_eq!(s.multiply(d).r, 31457);
}

#[test]
fn screen_white_gives_white_channels() {
    let s = RGBA::<i64>::new(fx(3), fx(7), fx(1), fx(4));
    let out = s.screen(RGBA::<i64>::white());
    assert_eq!(out.to_array(), [UNIT, UNIT, UNIT, fx(4)]);
}

#[test]
fn screen_black_preserves_color() {
    let s = RGBA::<i64>::new(fx(3), fx(7), fx(1), fx(4));
    assert_eq!(s.screen(RGBA::<i64>::black()), s);
}

#[test]
fn darken_picks_channel_minimum() {
    let s = opaque(fx(3), fx(7), 65535);
    let d = opaque(fx(2), fx(8), 65535);
    assert_eq!(s.darken(d).to_array(), [fx(2), fx(7), 65535, UNIT]);
}

#[test]
fn lighten_picks_channel_maximum() {
    let s = opaque(fx(3), fx(7), 65535);
    let d = opaque(fx(2), fx(8), 65535);
    assert_eq!(s.lighten(d).to_array(), [fx(3), fx(8), 65535, UNIT]);
}

#[test]
fn dodge_guards_full_source_and_divides_otherwise() {
    // cs = 1 saturates without dividing
    let s = opaque(UNIT, 65535, 0, );
    let d = opaque(fx(2), fx(2), fx(2));
    let out = s.dodge(d);
    assert_eq!(out.r, UNIT);
    // cs = 0.5: 0.2 / 0.5 = 0.4
    assert_eq!(out.g, fx(4));
    // cs = 0: 0.2 / 1 = 0.2
    assert_eq!(out.b, fx(2));
}

#[test]
fn burn_guards_empty_source_and_divides_otherwise() {
    let s = opaque(0, 65535, UNIT);
    let d = opaque(fx(8), fx(8), fx(8));
    let out = s.burn(d);
    // cs = 0 floors at black
    assert_eq!(out.r, 0);
    // cs = 0.5: 1 - 0.2/0.5 = 0.6
    assert_eq!(out.g, fx(6));
    // cs = 1: 1 - 0.2/1 = 0.8
    assert_eq!(out.b, fx(8));
}

#[test]
fn hard_light_multiplies_then_screens() {
    let s = opaque(fx(3), fx(8), 0);
    let d = opaque(65535, 65535, 65535);
    let out = s.hard_light(d);
    // dark source: 2*0.5*0.3 = 0.3; bright source: 1 - 2*0.5*0.2 = 0.8
    assert_eq!(out.to_array(), [fx(3), fx(8), 0, UNIT]);
}

#[test]
fn overlay_is_hard_light_swapped() {
    let s = RGBA::<i64>::new(fx(3), fx(8), fx(1), fx(9));
    let d = RGBA::<i64>::new(fx(6), fx(2), fx(5), fx(7));
    assert_eq!(s.overlay(d), d.hard_light(s));
    assert_eq!(s.overlay(d).a, d.a);
}

#[test]
fn soft_light_mid_source_keeps_backdrop() {
    // cs = 0.5 makes the adjustment term vanish
    let s = opaque(65535, 65535, 65535);
    let d = opaque(fx(2), fx(7), fx(9));
    assert_eq!(s.soft_light(d).to_array(), [fx(2), fx(7), fx(9), UNIT]);
}

#[test]
fn soft_light_dark_source_darkens() {
    // cb = 0.5, cs = 0: 0.5 - 0.5*0.5 = 0.25, one rounding step low
    let s = opaque(0, 0, 0);
    let d = opaque(65535, 65535, 65535);
    assert_eq!(s.soft_light(d).r, 32767);
}

#[test]
fn soft_light_bright_source_on_white_stays_white() {
    let s = opaque(fx(8), fx(8), fx(8));
    let d = opaque(UNIT, UNIT, UNIT);
    assert_eq!(s.soft_light(d).to_array(), [UNIT, UNIT, UNIT, UNIT]);
}

#[test]
fn difference_is_absolute_spread() {
    let s = opaque(fx(3), fx(7), fx(5));
    let d = opaque(fx(7), fx(3), fx(5));
    assert_eq!(s.difference(d).to_array(), [fx(4), fx(4), 0, UNIT]);
}

#[test]
fn enclusion_halves_at_mid_gray() {
    let s = opaque(65535, 0, UNIT);
    let d = opaque(65535, 65535, 65535);
    let out = s.enclusion(d);
    // 0.5 + 0.5 - 2*0.25 = 0.5; 0.5 + 0 - 0 = 0.5; 0.5 + 1 - 1 = 0.5
    assert_eq!(out.to_array(), [65535, 65535, 65535, UNIT]);
}

#[test]
fn divide_guards_zero_and_saturates() {
    let s = opaque(0, fx(4), fx(1));
    let d = opaque(fx(3), fx(2), fx(2));
    let out = s.divide(d);
    // cs = 0 shows white; 0.2/0.4 = 0.5; 0.2/0.1 clamps at 1
    assert_eq!(out.to_array(), [UNIT, 65535, UNIT, UNIT]);
}

#[test]
fn subtract_floors_at_black() {
    let s = opaque(fx(3), fx(7), 0);
    let d = opaque(fx(7), fx(3), fx(5));
    assert_eq!(s.subtract(d).to_array(), [fx(4), 0, fx(5), UNIT]);
}

#[test]
fn linear_burn_values() {
    let s = opaque(fx(8), fx(3), 0);
    let d = opaque(fx(7), fx(2), fx(9));
    assert_eq!(s.linear_burn(d).to_array(), [fx(5), 0, 0, UNIT]);
}

#[test]
fn linear_dodge_values() {
    let s = opaque(fx(8), fx(3), 0);
    let d = opaque(fx(7), fx(2), fx(9));
    assert_eq!(s.linear_dodge(d).to_array(), [UNIT, fx(5), fx(9), UNIT]);
}

#[test]
fn linear_light_keyed_on_backdrop() {
    let s = opaque(fx(3), fx(3), 0);
    let d = opaque(fx(8), fx(2), fx(8));
    let out = s.linear_light(d);
    // cb = 0.8: 0.3 + 1.6 - 1 = 0.9; cb = 0.2: 0.3 + 0.4 - 1 floors at 0
    assert_eq!(out.to_array(), [fx(9), 0, fx(6), UNIT]);
}

#[test]
fn vivid_light_keyed_on_source() {
    let s = opaque(UNIT, 0, fx(6));
    let d = opaque(fx(3), fx(3), fx(2));
    let out = s.vivid_light(d);
    // cs = 1 and cs = 0 are guarded; cs = 0.6: 0.2 / (2*0.4) = 0.25
    assert_eq!(out.to_array(), [UNIT, 0, 32768, UNIT]);
}

#[test]
fn vivid_light_burn_half() {
    // cs = 0.4 < 0.5: 1 - (1-0.6)/(2*0.4) = 0.5
    let s = opaque(fx(4), fx(4), fx(4));
    let d = opaque(fx(6), fx(6), fx(6));
    assert_eq!(s.vivid_light(d).r, 65535);
}

#[test]
fn hard_mix_snaps_to_extremes() {
    let s = opaque(65535, 65535, 0);
    let d = opaque(fx(6), fx(4), fx(9));
    let out = s.hard_mix(d);
    // 0.5 < 0.6 gives white; 0.5 < 0.4 fails; 1 < 0.9 fails
    assert_eq!(out.to_array(), [UNIT, 0, 0, UNIT]);
}

#[test]
fn pin_light_clamps_toward_doubled_source() {
    let s = opaque(fx(8), fx(8), fx(2));
    let d = opaque(fx(2), fx(9), fx(7));
    let out = s.pin_light(d);
    // cs = 0.8: max(cb, 0.6); cs = 0.2: min(cb, 0.4)
    assert_eq!(out.to_array(), [fx(6), fx(9), fx(4), UNIT]);
}

#[test]
fn overwrite_keeps_backdrop_channels() {
    let s = RGBA::<i64>::new(fx(3), fx(2), fx(1), fx(4));
    let d = opaque(fx(6), fx(2), fx(8));
    let out = s.overwrite(d);
    assert_eq!(out.to_array(), [fx(6), fx(2), fx(8), fx(4)]);
}

#[test]
fn blend_keeps_source_alpha() {
    let s = RGBA::<i64>::new(fx(3), fx(2), fx(1), fx(4));
    let d = RGBA::<i64>::new(fx(6), fx(2), fx(8), fx(6));
    assert_eq!(s.multiply(d).a, fx(4));
    assert_eq!(s.screen(d).a, fx(4));
    assert_eq!(s.darken(d).a, fx(4));
    assert_eq!(s.soft_light(d).a, fx(4));
}
