use thx_dsp::common::{BoolParam, Param};

#[test]
fn set_get_roundtrip() {
    let p = BoolParam::new(false);
    assert!(!p.default_value());
    assert!(!p.get());
    p.set(true);
    assert!(p.get());
    assert!(p.value());
}

#[test]
fn default_survives_sets_and_reset() {
    let p = BoolParam::new(true);
    assert!(p.get());
    p.set(false);
    p.reset();
    assert!(!p.get());
    assert!(p.default_value());
}
