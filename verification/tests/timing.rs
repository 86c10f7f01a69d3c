use flexcan::timing::BitTiming;
use flexcan::CanError;

fn quanta(t: &BitTiming) -> u32 {
    1 + (t.propseg as u32 + 1) + (t.pseg1 as u32 + 1) + (t.pseg2 as u32 + 1)
}

#[test]
fn eight_quanta_bit() {
    let t = BitTiming::compute(8_000_000, 1_000_000).unwrap();
    assert_eq!(t.presdiv, 0);
    assert_eq!(t.pseg2, 1);
    assert_eq!(t.rjw, 1);
    assert_eq!(t.pseg1, 2);
    assert_eq!(t.propseg, 1);
    assert_eq!(quanta(&t), 8);
}

#[test]
fn twenty_quanta_bit() {
    let t = BitTiming::compute(80_000_000, 1_000_000).unwrap();
    assert_eq!(t.presdiv, 3);
    assert_eq!(t.pseg2, 7);
    assert_eq!(t.rjw, 3);
    assert_eq!(t.pseg1, 5);
    assert_eq!(t.propseg, 4);
    assert_eq!(quanta(&t), 20);
}

#[test]
fn sixteen_quanta_bit() {
    let t = BitTiming::compute(16_000_000, 500_000).unwrap();
    assert_eq!(t.presdiv, 1);
    assert_eq!(t.pseg2, 6);
    assert_eq!(t.rjw, 2);
    assert_eq!(t.pseg1, 3);
    assert_eq!(t.propseg, 3);
    assert_eq!(quanta(&t), 16);
}

#[test]
fn quanta_accounted_for_across_rates() {
    // For every supported pair the segments account for every quantum of
    // the bit period.
    let cases: [(u32, u32); 6] = [
        (8_000_000, 1_000_000),
        (8_000_000, 500_000),
        (16_000_000, 1_000_000),
        (24_000_000, 1_000_000),
        (48_000_000, 2_000_000),
        (60_000_000, 250_000),
    ];
    for (source, target) in cases {
        let t = BitTiming::compute(source, target).unwrap();
        let ratio = source / target;
        let presdiv = ratio / 25;
        let tqs = (source / (presdiv + 1)) / target;
        assert_eq!(quanta(&t), tqs);
        assert!((8..26).contains(&tqs));
    }
}

#[test]
fn rejects_inexact_ratio() {
    assert_eq!(
        BitTiming::compute(10_000_000, 3_000_000),
        Err(CanError::SettingsError)
    );
}

#[test]
fn rejects_small_ratio() {
    assert_eq!(
        BitTiming::compute(4_000_000, 1_000_000),
        Err(CanError::SettingsError)
    );
}

#[test]
fn rejects_quanta_below_range_with_configuration_error() {
    // Ratios 5 to 7 divide exactly but give too few quanta per bit.
    assert_eq!(BitTiming::compute(5, 1), Err(CanError::ConfigurationFailed));
    assert_eq!(BitTiming::compute(7, 1), Err(CanError::ConfigurationFailed));
    assert_eq!(
        BitTiming::compute(6_000_000, 1_000_000),
        Err(CanError::ConfigurationFailed)
    );
}

#[test]
fn rejects_prescaler_beyond_field() {
    // Ratio 6400 would need a prescaler of 256, past the 8-bit field.
    assert_eq!(
        BitTiming::compute(6_400_000, 1_000),
        Err(CanError::SettingsError)
    );
}
