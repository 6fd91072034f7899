use market_stats::rat::Rat;
use market_stats::stats::{
    global_stats_summary, mean, std_dev, std_vwap, std_vwap_group, variance, variance_vwap,
    variance_vwap_group, vwap, vwap_group, Note,
};

fn r(i: i64) -> Rat {
    Rat::from_int(i)
}

fn rf(n: i64, d: i64) -> Rat {
    Rat::new(n, d).unwrap()
}

fn as_f64(x: &Rat) -> f64 {
    x.num() as f64 / x.den() as f64
}

#[test]
fn mean_of_empty_is_zero() {
    let m = mean(&vec![]).unwrap();
    assert_eq!(m.num(), 0);
    assert_eq!(m.den(), 1);
}

#[test]
fn mean_of_three_values() {
    let m = mean(&vec![r(10), r(20), r(30)]).unwrap();
    assert_eq!(m.num(), 20);
    assert_eq!(m.den(), 1);
    assert_eq!(as_f64(&m), 20.0);
}

#[test]
fn mean_overflow_reports_none() {
    assert!(mean(&vec![r(i64::MAX), r(i64::MAX)]).is_none());
}

#[test]
fn vwap_matches_the_closed_form() {
    let prices = vec![r(10), r(11), r(12)];
    let volumes = vec![r(100), r(200), r(150)];
    let st = vwap(&prices, &volumes).unwrap();
    // (10*100 + 11*200 + 12*150) / 450 == 5000 / 450 == 100 / 9
    assert_eq!(st.value.num(), 100);
    assert_eq!(st.value.den(), 9);
    let direct = (10.0f64 * 100.0 + 11.0 * 200.0 + 12.0 * 150.0) / 450.0;
    assert_eq!(as_f64(&st.value), direct);
    // VWAP (about 11.11) is below the last price 12: strong market.
    assert_eq!(st.note, Note::StrongMarket);
}

#[test]
fn vwap_signal_weak_and_neutral() {
    let weak = vwap(&vec![r(12), r(11), r(10)], &vec![r(100), r(200), r(150)]).unwrap();
    assert_eq!(weak.note, Note::WeakMarket);
    let neutral = vwap(&vec![r(5), r(5)], &vec![r(1), r(1)]).unwrap();
    assert_eq!(neutral.value.num(), 5);
    assert_eq!(neutral.note, Note::NeutralMarket);
}

#[test]
fn vwap_mismatched_lengths_is_invalid_input() {
    let st = vwap(&vec![r(1), r(2), r(3)], &vec![r(1), r(2)]).unwrap();
    assert_eq!(st.value.num(), 0);
    assert_eq!(
        st.note.text(),
        "Invalid input: prices and volumes must be the same length and not empty."
    );
}

#[test]
fn vwap_empty_is_invalid_input() {
    let st = vwap(&vec![], &vec![]).unwrap();
    assert_eq!(st.note, Note::InvalidInput);
}

#[test]
fn vwap_zero_volume_is_reported() {
    let st = vwap(&vec![r(10), r(11)], &vec![r(0), r(0)]).unwrap();
    assert_eq!(st.value.num(), 0);
    assert_eq!(st.note, Note::ZeroVolume);
    assert_eq!(st.note.text(), "Total volume is zero. Cannot calculate VWAP.");
    // Volumes that cancel out are a zero total volume too.
    let st2 = vwap(&vec![r(10), r(11)], &vec![r(7), r(-7)]).unwrap();
    assert_eq!(st2.note, Note::ZeroVolume);
}

#[test]
fn vwap_group_single_point_reduces_to_vwap_of_midpoint() {
    let grp = vwap_group(&vec![r(10)], &vec![r(12)], &vec![r(5)]).unwrap();
    let plain = vwap(&vec![r(11)], &vec![r(5)]).unwrap();
    assert_eq!(grp.value, plain.value);
    assert_eq!(grp.value.num(), 11);
    assert_eq!(grp.value.den(), 1);
    // The group signal compares against the last ask (12), not the midpoint.
    assert_eq!(grp.note, Note::StrongMarket);
    assert_eq!(plain.note, Note::NeutralMarket);
}

#[test]
fn vwap_group_uses_fractional_midpoints() {
    // mids: (10+11)/2 = 10.5, (12+13)/2 = 12.5; volumes 1, 3.
    let st = vwap_group(&vec![r(10), r(12)], &vec![r(11), r(13)], &vec![r(1), r(3)]).unwrap();
    // (10.5 + 3 * 12.5) / 4 == 48 / 4 == 12
    assert_eq!(st.value.num(), 12);
    assert_eq!(st.value.den(), 1);
    assert_eq!(st.note, Note::StrongMarket);
}

#[test]
fn vwap_group_mismatch_and_zero_volume() {
    let st = vwap_group(&vec![r(1)], &vec![r(2), r(3)], &vec![r(1)]).unwrap();
    assert_eq!(st.note, Note::InvalidInputGroup);
    let st2 = vwap_group(&vec![r(1)], &vec![r(2)], &vec![r(0)]).unwrap();
    assert_eq!(st2.note, Note::ZeroVolumeGroup);
    assert_eq!(st2.note.text(), "Total volume is zero. Cannot calculate VWAP Group.");
    // An empty series is an input error, as for the plain VWAP.
    let st3 = vwap_group(&vec![], &vec![], &vec![]).unwrap();
    assert_eq!(st3.value.num(), 0);
    assert_eq!(st3.note, Note::InvalidInputGroup);
}

#[test]
fn variance_population_of_known_dataset() {
    let data = vec![r(2), r(4), r(4), r(4), r(5), r(5), r(7), r(9)];
    let st = variance(&data, true).unwrap();
    assert_eq!(st.value.num(), 4);
    assert_eq!(st.value.den(), 1);
    assert_eq!(st.note, Note::VarHigh);
}

#[test]
fn variance_sample_of_known_dataset() {
    let data = vec![r(2), r(4), r(4), r(4), r(5), r(5), r(7), r(9)];
    let st = variance(&data, false).unwrap();
    assert_eq!(st.value.num(), 32);
    assert_eq!(st.value.den(), 7);
}

#[test]
fn variance_of_empty_is_no_data() {
    let st = variance(&vec![], true).unwrap();
    assert_eq!(st.value.num(), 0);
    assert_eq!(st.note, Note::NoData);
    assert_eq!(st.note.text(), "No data provided.");
}

#[test]
fn variance_sample_of_single_point_is_zero() {
    let st = variance(&vec![r(5)], false).unwrap();
    assert_eq!(st.value.num(), 0);
    assert_eq!(st.note, Note::VarLow);
}

#[test]
fn variance_bands() {
    // [0, 2]: mean 1, population variance 1 -> moderate.
    let mid = variance(&vec![r(0), r(2)], true).unwrap();
    assert_eq!(mid.value.num(), 1);
    assert_eq!(mid.note, Note::VarModerate);
    // [1, 1]: variance 0 -> low.
    let low = variance(&vec![r(1), r(1)], true).unwrap();
    assert_eq!(low.note, Note::VarLow);
}

#[test]
fn std_dev_returns_the_variance_outcome() {
    let data = vec![r(2), r(4), r(4), r(4), r(5), r(5), r(7), r(9)];
    let v = variance(&data, true);
    let s = std_dev(&data, true);
    assert_eq!(v, s);
    // The numeric standard deviation is the square root of the value.
    let radicand = as_f64(&s.unwrap().value);
    assert_eq!(radicand.sqrt(), 2.0);
    // Sample mode agrees too.
    assert_eq!(variance(&data, false), std_dev(&data, false));
}

#[test]
fn variance_vwap_exact_value_and_bands() {
    // Prices 10 and 12 with equal volumes: VWAP 11, weighted squared
    // deviations 2.
    let ps = vec![r(10), r(12)];
    let vs = vec![r(1), r(1)];
    let pop = variance_vwap(&ps, &vs, true).unwrap();
    assert_eq!(pop.value.num(), 1);
    assert_eq!(pop.value.den(), 1);
    assert_eq!(pop.note, Note::VwapVarModerate);
    let samp = variance_vwap(&ps, &vs, false).unwrap();
    assert_eq!(samp.value.num(), 2);
    assert_eq!(samp.note, Note::VwapVarHigh);
}

#[test]
fn variance_vwap_edge_results() {
    let st = variance_vwap(&vec![r(1)], &vec![r(2)], true).unwrap();
    assert_eq!(st.value.num(), 0);
    assert_eq!(st.note, Note::VwapVarLow);
    let invalid = variance_vwap(&vec![r(1), r(2)], &vec![r(1)], true).unwrap();
    assert_eq!(invalid.note, Note::InvalidInput);
    let zerovol = variance_vwap(&vec![r(1), r(2)], &vec![r(3), r(-3)], true).unwrap();
    assert_eq!(zerovol.value.num(), 0);
    assert_eq!(zerovol.note, Note::ZeroVolume);
    // Sample mode with total volume 1: the denominator degenerates to zero.
    let degen = variance_vwap(&vec![r(10), r(12)], &vec![r(1), r(0)], false).unwrap();
    assert_eq!(degen.value.num(), 0);
    assert_eq!(degen.note, Note::VwapVarLow);
}

#[test]
fn std_vwap_bands_on_the_radicand() {
    // Radicand 1: sqrt is 1, between 0.7 and 1.5 -> moderate.
    let st = std_vwap(&vec![r(10), r(12)], &vec![r(1), r(1)], true).unwrap();
    assert_eq!(st.value.num(), 1);
    assert_eq!(st.note, Note::VwapStdModerate);
    // Radicand 1/16: sqrt is 0.25 < 0.7 -> low.
    let low = std_vwap(&vec![r(10), rf(21, 2)], &vec![r(1), r(1)], true).unwrap();
    assert_eq!(low.value.num(), 1);
    assert_eq!(low.value.den(), 16);
    assert_eq!(low.note, Note::VwapStdLow);
    // Radicand 4: sqrt is 2 >= 1.5 -> high.
    let high = std_vwap(&vec![r(10), r(14)], &vec![r(1), r(1)], true).unwrap();
    assert_eq!(high.value.num(), 4);
    assert_eq!(high.note, Note::VwapStdHigh);
    // Errors propagate unchanged.
    let zerovol = std_vwap(&vec![r(1)], &vec![r(0)], true).unwrap();
    assert_eq!(zerovol.note, Note::ZeroVolume);
}

#[test]
fn group_variance_and_std_of_single_midpoint() {
    let bids = vec![r(10)];
    let asks = vec![r(12)];
    let vols = vec![r(5)];
    let var = variance_vwap_group(&bids, &asks, &vols, true).unwrap();
    assert_eq!(var.value.num(), 0);
    assert_eq!(var.note, Note::GroupVarLow);
    let std = std_vwap_group(&bids, &asks, &vols, true).unwrap();
    assert_eq!(std.value.num(), 0);
    assert_eq!(std.note, Note::GroupStdLow);
}

#[test]
fn group_variance_exact_value() {
    // mids 10.5 and 12.5, volumes 1 and 3: VWAP 12, weighted squared
    // deviations (12 - 10.5)^2 + 3 * (12.5 - 12)^2 = 2.25 + 0.75 = 3.
    let bids = vec![r(10), r(12)];
    let asks = vec![r(11), r(13)];
    let vols = vec![r(1), r(3)];
    let pop = variance_vwap_group(&bids, &asks, &vols, true).unwrap();
    assert_eq!(pop.value.num(), 3);
    assert_eq!(pop.value.den(), 4);
    assert_eq!(pop.note, Note::GroupVarModerate);
    let samp = variance_vwap_group(&bids, &asks, &vols, false).unwrap();
    assert_eq!(samp.value.num(), 1);
    assert_eq!(samp.value.den(), 1);
    // sqrt(1) = 1 is between 0.7 and 1.5.
    let samp_std = std_vwap_group(&bids, &asks, &vols, false).unwrap();
    assert_eq!(samp_std.value.num(), 1);
    assert_eq!(samp_std.note, Note::GroupStdModerate);
}

#[test]
fn group_variance_zero_volume_and_mismatch() {
    let zerovol = variance_vwap_group(&vec![r(1)], &vec![r(2)], &vec![r(0)], true).unwrap();
    assert_eq!(zerovol.value.num(), 0);
    assert_eq!(zerovol.note, Note::ZeroVolumeGroup);
    let zerostd = std_vwap_group(&vec![r(1)], &vec![r(2)], &vec![r(0)], true).unwrap();
    assert_eq!(zerostd.note, Note::ZeroVolumeGroup);
    let invalid = variance_vwap_group(&vec![r(1)], &vec![r(2)], &vec![], true).unwrap();
    assert_eq!(invalid.note, Note::InvalidInputGroup);
    // An empty series is an input error here too.
    let empty_var = variance_vwap_group(&vec![], &vec![], &vec![], true).unwrap();
    assert_eq!(empty_var.value.num(), 0);
    assert_eq!(empty_var.note, Note::InvalidInputGroup);
    let empty_std = std_vwap_group(&vec![], &vec![], &vec![], false).unwrap();
    assert_eq!(empty_std.value.num(), 0);
    assert_eq!(empty_std.note, Note::InvalidInputGroup);
}

#[test]
fn rerunning_yields_bit_identical_results() {
    let prices = vec![r(10), r(11), r(12)];
    let volumes = vec![r(100), r(200), r(150)];
    let bids = vec![r(10), r(12)];
    let asks = vec![r(11), r(13)];
    assert_eq!(mean(&prices), mean(&prices));
    assert_eq!(vwap(&prices, &volumes), vwap(&prices, &volumes));
    assert_eq!(
        vwap_group(&bids, &asks, &vec![r(1), r(3)]),
        vwap_group(&bids, &asks, &vec![r(1), r(3)])
    );
    assert_eq!(variance(&prices, false), variance(&prices, false));
    assert_eq!(std_dev(&prices, true), std_dev(&prices, true));
    assert_eq!(variance_vwap(&prices, &volumes, true), variance_vwap(&prices, &volumes, true));
    assert_eq!(std_vwap(&prices, &volumes, false), std_vwap(&prices, &volumes, false));
    assert_eq!(
        variance_vwap_group(&bids, &asks, &vec![r(1), r(3)], true),
        variance_vwap_group(&bids, &asks, &vec![r(1), r(3)], true)
    );
    assert_eq!(
        std_vwap_group(&bids, &asks, &vec![r(1), r(3)], true),
        std_vwap_group(&bids, &asks, &vec![r(1), r(3)], true)
    );
}

#[test]
fn global_summary_composes_the_individual_statistics() {
    let bids = vec![r(10), r(12)];
    let asks = vec![r(11), r(13)];
    let vols = vec![r(1), r(3)];
    let s = global_stats_summary(&bids, &asks, &vols);
    assert_eq!(s.mean_bid, mean(&bids));
    assert_eq!(s.mean_ask, mean(&asks));
    assert_eq!(s.vwap_bid, vwap(&bids, &vols));
    assert_eq!(s.vwap_ask, vwap(&asks, &vols));
    assert_eq!(s.vwap_group, vwap_group(&bids, &asks, &vols));
    assert_eq!(s.variance_bid, variance(&bids, true));
    assert_eq!(s.variance_ask, variance(&asks, true));
    assert_eq!(s.std_bid, std_dev(&bids, true));
    assert_eq!(s.std_ask, std_dev(&asks, true));
    assert_eq!(s.variance_vwap_bid, variance_vwap(&bids, &vols, true));
    assert_eq!(s.variance_vwap_ask, variance_vwap(&asks, &vols, true));
    assert_eq!(s.std_vwap_bid, std_vwap(&bids, &vols, true));
    assert_eq!(s.std_vwap_ask, std_vwap(&asks, &vols, true));
    assert_eq!(s.variance_vwap_group, variance_vwap_group(&bids, &asks, &vols, true));
    assert_eq!(s.std_vwap_group, std_vwap_group(&bids, &asks, &vols, true));
}

#[test]
fn std_vwap_negative_radicand_is_high_band() {
    // A negative volume makes the weighted variance negative: its square
    // root is no real number, so the note falls in the highest band.
    let st = std_vwap(&vec![r(0), r(10)], &vec![r(1), r(-2)], true).unwrap();
    assert_eq!(st.value.num(), -200);
    assert_eq!(st.value.den(), 1);
    assert_eq!(st.note, Note::VwapStdHigh);
    // The variance bands have no such special case: a negative value is
    // simply below every threshold.
    let var = variance_vwap(&vec![r(0), r(10)], &vec![r(1), r(-2)], true).unwrap();
    assert_eq!(var.value.num(), -200);
    assert_eq!(var.note, Note::VwapVarLow);
}
