use ugl_rs::blend::RGBA;

const UNIT: i64 = 131070;

fn opaque(r: i64, g: i64, b: i64) -> RGBA<i64> {
    RGBA::<i64>::new(r, g, b, UNIT)
}

#[test]
fn to_lum_values() {
    assert_eq!(opaque(UNIT, UNIT, UNIT).to_lum(), UNIT);
    assert_eq!(opaque(0, 0, 0).to_lum(), 0);
    // 0.299*0.2 + 0.587*0.4 + 0.114*0.7, rounded at the fixed scale
    assert_eq!(opaque(26214, 52428, 91749).to_lum(), 49073);
}

#[test]
fn to_sat_is_channel_spread() {
    assert_eq!(opaque(26214, 52428, 104856).to_sat(), 78642);
    assert_eq!(opaque(65535, 65535, 65535).to_sat(), 0);
}

#[test]
fn set_sat_zero_grays_out() {
    let c = opaque(39321, 91749, 65535);
    assert_eq!(c.set_sat(0).to_array(), [0, 0, 0, UNIT]);
    let d = opaque(131070, 0, 65535);
    assert_eq!(d.set_sat(0).to_array(), [0, 0, 0, UNIT]);
}

#[test]
fn set_sat_rescales_middle_channel() {
    // channels sorted r < g < b; middle sits a third of the way up
    let c = opaque(26214, 52428, 104856);
    let out = c.set_sat(78642);
    assert_eq!(out.to_array(), [0, 26214, 78642, UNIT]);
}

#[test]
fn set_sat_handles_ties_by_zeroing() {
    // no distinct middle: mid and max are zeroed, then min as well
    let c = opaque(65535, 65535, 65535);
    assert_eq!(c.set_sat(78642).to_array(), [0, 0, 0, UNIT]);
}

#[test]
fn set_lum_shifts_within_range() {
    let gray = opaque(65535, 65535, 65535);
    let out = gray.set_lum(39321);
    assert_eq!(out.to_array(), [39321, 39321, 39321, UNIT]);
}

#[test]
fn set_lum_idempotent_when_unclipped() {
    let gray = opaque(65535, 65535, 65535);
    let once = gray.set_lum(39321);
    assert_eq!(once.set_lum(39321), once);
    let c = opaque(26214, 52428, 104856);
    let once2 = c.set_lum(60000);
    assert_eq!(once2.set_lum(60000), once2);
}

#[test]
fn set_lum_renormalizes_negative_minimum() {
    // pure red to zero luminosity drives green and blue negative; the
    // renormalization pushes the channels back up, past the unit interval
    let red = opaque(UNIT, 0, 0);
    let out = red.set_lum(0);
    assert_eq!(out.to_array(), [215410, 39190, 39190, UNIT]);
}

#[test]
fn hue_of_self_preserves_balanced_color() {
    let c = opaque(26214, 52428, 104856);
    assert_eq!(c.hue(c), c);
}

#[test]
fn coloring_of_self_is_identity() {
    let c = opaque(26214, 52428, 91749);
    assert_eq!(c.coloring(c), c);
}

#[test]
fn luminosity_of_self_is_identity() {
    let c = opaque(26214, 52428, 91749);
    assert_eq!(c.luminosity(c), c);
}

#[test]
fn luminosity_takes_source_light() {
    let s = opaque(65535, 65535, 65535);
    let d = opaque(26214, 26214, 26214);
    // backdrop hue and saturation (a gray), source luminosity
    assert_eq!(s.luminosity(d).to_array(), [65535, 65535, 65535, UNIT]);
}

#[test]
fn saturation_keeps_backdrop_alpha() {
    let s = RGBA::<i64>::new(26214, 52428, 104856, 39321);
    let d = RGBA::<i64>::new(13107, 26214, 39321, 91749);
    assert_eq!(s.saturation(d).a, 91749);
    assert_eq!(s.hue(d).a, 39321);
}
