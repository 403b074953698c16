use dxcluster::{Band, FrequencyHz};

#[test]
fn maps_frequency_to_band() {
    for definition in Band::definitions() {
        let center = FrequencyHz((definition.low_hz + definition.high_hz) / 2);
        assert_eq!(
            Band::from_frequency(center),
            Some(definition.band),
            "freq {} should map to {:?}",
            center.to_khz_string(),
            definition.band
        );
    }
}

#[test]
fn displays_label() {
    for definition in Band::definitions() {
        assert_eq!(definition.band.label(), definition.label);
    }
}

#[test]
fn covers_band_edges() {
    for definition in Band::definitions() {
        let low = FrequencyHz(definition.low_hz);
        let high = FrequencyHz(definition.high_hz);

        assert_eq!(Band::from_frequency(low), Some(definition.band));
        assert_eq!(Band::from_frequency(high), Some(definition.band));

        if definition.low_hz > 0 {
            let below = FrequencyHz(definition.low_hz - 1);
            assert!(Band::from_frequency(below).is_none());
        }

        let above = FrequencyHz(definition.high_hz + 1);
        assert!(Band::from_frequency(above).is_none());
    }
}
