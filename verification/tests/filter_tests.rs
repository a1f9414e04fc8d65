use soundeq::crossfeed::{clamp_delay, CrossfeedConfig, CrossfeedLevel, DelayRing, DELAY_CAPACITY};
use soundeq::filter_chain::{FilterSlots, MAX_BANDS};
use soundeq::filter_type::{BandConfig, FilterType, Formula};

#[test]
fn gain_uses_gain_filter_types() {
    assert!(FilterType::Peak.uses_gain());
    assert!(FilterType::LowShelf.uses_gain());
    assert!(!FilterType::LowPass.uses_gain());
    assert!(!FilterType::Notch.uses_gain());
}

#[test]
fn every_filter_type_gain_relevance() {
    assert!(FilterType::HighShelf.uses_gain());
    assert!(!FilterType::HighPass.uses_gain());
    assert!(!FilterType::Bandpass.uses_gain());
}

#[test]
fn display_names() {
    assert_eq!(FilterType::Peak.display_name(), "Peak");
    assert_eq!(FilterType::LowShelf.display_name(), "Low Shelf");
    assert_eq!(FilterType::HighShelf.display_name(), "High Shelf");
    assert_eq!(FilterType::LowPass.display_name(), "Low Pass");
    assert_eq!(FilterType::HighPass.display_name(), "High Pass");
    assert_eq!(FilterType::Notch.display_name(), "Notch");
    assert_eq!(FilterType::Bandpass.display_name(), "Bandpass");
}

fn band(filter_type: FilterType, enabled: bool) -> BandConfig<f64> {
    BandConfig { filter_type, frequency: 1000.0, gain_db: 12.0, q: 1.4, enabled, color: None }
}

#[test]
fn from_band_returns_passthrough_when_disabled() {
    let mut b = BandConfig { filter_type: FilterType::Peak, frequency: 1000.0, gain_db: 0.0, q: 1.4, enabled: true, color: None };
    b.gain_db = 12.0;
    b.enabled = false;
    assert_eq!(b.formula(b.gain_db == 0.0), Formula::Passthrough);
}

#[test]
fn disabled_band_is_passthrough() {
    assert_eq!(band(FilterType::Peak, false).formula(false), Formula::Passthrough);
    assert_eq!(band(FilterType::LowPass, false).formula(true), Formula::Passthrough);
}

#[test]
fn zero_gain_only_bypasses_gain_bearing_types() {
    assert_eq!(band(FilterType::Peak, true).formula(true), Formula::Passthrough);
    assert_eq!(band(FilterType::HighShelf, true).formula(true), Formula::Passthrough);
    assert_eq!(band(FilterType::Notch, true).formula(true), Formula::Notch);
    assert_eq!(band(FilterType::HighPass, true).formula(true), Formula::HighPass);
}

#[test]
fn each_type_selects_its_formula() {
    assert_eq!(band(FilterType::Peak, true).formula(false), Formula::Peak);
    assert_eq!(band(FilterType::LowShelf, true).formula(false), Formula::LowShelf);
    assert_eq!(band(FilterType::HighShelf, true).formula(false), Formula::HighShelf);
    assert_eq!(band(FilterType::LowPass, true).formula(false), Formula::LowPass);
    assert_eq!(band(FilterType::HighPass, true).formula(false), Formula::HighPass);
    assert_eq!(band(FilterType::Notch, true).formula(false), Formula::Notch);
    assert_eq!(band(FilterType::Bandpass, true).formula(false), Formula::Bandpass);
}

// --- crossfeed ---

#[test]
fn crossfeed_defaults() {
    assert_eq!(CrossfeedLevel::default(), CrossfeedLevel::Mild);
    assert_eq!(CrossfeedConfig::default(), CrossfeedConfig { enabled: false, level: CrossfeedLevel::Mild });
}

#[test]
fn delay_is_clamped_into_ring() {
    assert_eq!(clamp_delay(0), 1);
    assert_eq!(clamp_delay(14), 14);
    assert_eq!(clamp_delay(63), 63);
    assert_eq!(clamp_delay(64), DELAY_CAPACITY - 1);
    assert_eq!(clamp_delay(1000), 63);
}

#[test]
fn delay_ring_returns_frames_pushed_delay_pushes_earlier() {
    let mut ring = DelayRing::new(0i32, 3);
    let mut out = Vec::new();
    for k in 1..=10 {
        out.push(ring.push_and_read(k, -k));
    }
    assert_eq!(out[0], (0, 0));
    assert_eq!(out[2], (0, 0));
    assert_eq!(out[3], (1, -1));
    assert_eq!(out[9], (7, -7));
}

#[test]
fn delay_ring_wraps_around() {
    let mut ring = DelayRing::new(0u32, 14);
    let mut last = (0, 0);
    for k in 1..=200u32 {
        last = ring.push_and_read(k, k + 1000);
    }
    assert_eq!(last, (186, 1186));
    ring.set_delay(1);
    assert_eq!(ring.push_and_read(201, 1201), (200, 1200));
}

// --- filter slots ---

fn slots() -> FilterSlots<u32, i64> {
    FilterSlots::new(0, 0)
}

fn active(s: &FilterSlots<u32, i64>) -> Vec<u32> {
    (0..s.band_count()).map(|i| s.coefficients(i)).collect()
}

#[test]
fn new_chain_has_no_bands() {
    let s = slots();
    assert_eq!(s.band_count(), 0);
    for i in 0..MAX_BANDS {
        assert_eq!(s.coefficients(i), 0);
        assert_eq!(s.state(i), 0);
    }
}

#[test]
fn set_bands_loads_and_clears() {
    let mut s = slots();
    s.set_bands(&[10, 20, 30]);
    assert_eq!(active(&s), vec![10, 20, 30]);
    s.set_state(2, 99);
    s.set_bands(&[11]);
    assert_eq!(s.band_count(), 1);
    assert_eq!(s.coefficients(1), 0);
    assert_eq!(s.coefficients(2), 0);
    assert_eq!(s.state(2), 99);
}

#[test]
fn set_bands_caps_at_max_bands() {
    let mut s = slots();
    let many: Vec<u32> = (1..=20).collect();
    s.set_bands(&many);
    assert_eq!(s.band_count(), MAX_BANDS);
    assert_eq!(s.coefficients(MAX_BANDS - 1), 16);
}

#[test]
fn update_band_extends_and_ignores_out_of_range() {
    let mut s = slots();
    s.update_band(2, 7);
    assert_eq!(s.band_count(), 3);
    assert_eq!(active(&s), vec![0, 0, 7]);
    s.update_band(0, 5);
    assert_eq!(s.band_count(), 3);
    s.update_band(MAX_BANDS, 9);
    assert_eq!(active(&s), vec![5, 0, 7]);
}

#[test]
fn remove_band_shifts_bands_and_state() {
    let mut s = slots();
    s.set_bands(&[200, 1000, 8000]);
    s.set_state(2, 42);
    assert_eq!(s.band_count(), 3);
    s.remove_band(1);
    assert_eq!(s.band_count(), 2);
    assert_eq!(active(&s), vec![200, 8000]);
    assert_eq!(s.state(1), 42);
    assert_eq!(s.coefficients(2), 0);
    assert_eq!(s.state(2), 0);
    s.remove_band(5);
    assert_eq!(s.band_count(), 2);
}

#[test]
fn bypass_all_and_reset_states() {
    let mut s = slots();
    s.set_bands(&[1, 2]);
    s.set_state(0, 5);
    s.bypass_all();
    assert_eq!(s.band_count(), 0);
    assert_eq!(s.coefficients(0), 0);
    assert_eq!(s.state(0), 5);
    s.reset_states();
    assert_eq!(s.state(0), 0);
}
