//! The statistics engine.
//!
//! Every function takes exact rationals ([`crate::rat::Rat`]) and returns
//! an exact result together with a qualitative [`Note`]. Degenerate inputs
//! (mismatched lengths, empty series, zero total volume, degenerate sample
//! denominators) yield a defined zero result with a descriptive note, never
//! a fault; `None` is returned exactly when some reduced intermediate value
//! leaves the `i64` range.
//!
//! The standard-deviation functions return the *radicand* (the variance)
//! as their value, since the square root of a rational is irrational in
//! general; callers take the numeric square root themselves. Their notes
//! are nevertheless exact: a band `sqrt(v) < t` is decided as `v < t^2`
//! (and a negative radicand falls in the highest band, as the square root
//! of a negative number is no real number).

use crate::rat::{
    fits_i64, lemma_q_div_cong, lemma_q_eq_trans, lemma_q_norm, lemma_q_sub_cong, lemma_view_inj,
    q_div, q_eq, q_int, q_le, q_lt, q_norm, q_sub, q_zero, qs, seq_wf, Q, Rat,
};
use crate::series::{
    lemma_mids, lemma_ssd, lemma_ssd_center, lemma_sum, lemma_wssd, lemma_wssd_cong, lemma_wsum,
    lemma_wsum_cong, mid_prices, mids_ok, mids_r, q_mids, q_ssd, q_sum, q_wssd, q_wsum, ssd_ok,
    ssd_r, sum_ok, sum_products, sum_r, sum_rats, sum_sq_devs, sum_wsq_devs, wssd_ok, wssd_r,
    wsum_ok, wsum_r,
};
use vstd::prelude::*;

verus! {

/// The qualitative interpretation attached to each numeric result.
#[derive(Clone, Copy, PartialEq, Eq, Structural, Debug)]
pub enum Note {
    InvalidInput,
    InvalidInputGroup,
    ZeroVolume,
    ZeroVolumeGroup,
    NoData,
    WeakMarket,
    StrongMarket,
    NeutralMarket,
    VarLow,
    VarModerate,
    VarHigh,
    VwapVarLow,
    VwapVarModerate,
    VwapVarHigh,
    VwapStdLow,
    VwapStdModerate,
    VwapStdHigh,
    GroupVarLow,
    GroupVarModerate,
    GroupVarHigh,
    GroupStdLow,
    GroupStdModerate,
    GroupStdHigh,
}

impl Note {
    /// The message carried by each note.
    pub open spec fn text_spec(self) -> Seq<char> {
        match self {
            Note::InvalidInput => "Invalid input: prices and volumes must be the same length and not empty."@,
            Note::InvalidInputGroup => "Invalid input: all input slices must have the same length and not be empty."@,
            Note::ZeroVolume => "Total volume is zero. Cannot calculate VWAP."@,
            Note::ZeroVolumeGroup => "Total volume is zero. Cannot calculate VWAP Group."@,
            Note::NoData => "No data provided."@,
            Note::WeakMarket => "VWAP is above the current price -> weak market (trading below the day's average value)"@,
            Note::StrongMarket => "VWAP is below the current price -> strong market (trading above the day's average value)"@,
            Note::NeutralMarket => "VWAP is equal to the current price -> neutral market"@,
            Note::VarLow => "Low variance -> stable market with low volatility"@,
            Note::VarModerate => "Moderate variance -> normal market fluctuations"@,
            Note::VarHigh => "High variance -> volatile market with larger price swings"@,
            Note::VwapVarLow => "Low VWAP variance -> stable volume-weighted market with small deviations from VWAP"@,
            Note::VwapVarModerate => "Moderate VWAP variance -> typical market volume-weighted fluctuation"@,
            Note::VwapVarHigh => "High VWAP variance -> volatile market with large volume-weighted deviations from VWAP"@,
            Note::VwapStdLow => "Low VWAP STD -> low dispersion of prices around VWAP"@,
            Note::VwapStdModerate => "Moderate VWAP STD -> normal dispersion of prices around VWAP"@,
            Note::VwapStdHigh => "High VWAP STD -> significant dispersion from VWAP, indicating higher risk"@,
            Note::GroupVarLow => "Low variance: stable market"@,
            Note::GroupVarModerate => "Medium variance: moderate activity"@,
            Note::GroupVarHigh => "High variance: volatile market"@,
            Note::GroupStdLow => "Low STD: low volatility"@,
            Note::GroupStdModerate => "Moderate STD: watch the market"@,
            Note::GroupStdHigh => "High STD: market unstable"@,
        }
    }

    /// The message carried by each note.
    pub fn text(&self) -> (r: &'static str)
        ensures
            r@ == self.text_spec(),
    {
        match self {
            Note::InvalidInput => "Invalid input: prices and volumes must be the same length and not empty.",
            Note::InvalidInputGroup => "Invalid input: all input slices must have the same length and not be empty.",
            Note::ZeroVolume => "Total volume is zero. Cannot calculate VWAP.",
            Note::ZeroVolumeGroup => "Total volume is zero. Cannot calculate VWAP Group.",
            Note::NoData => "No data provided.",
            Note::WeakMarket => "VWAP is above the current price -> weak market (trading below the day's average value)",
            Note::StrongMarket => "VWAP is below the current price -> strong market (trading above the day's average value)",
            Note::NeutralMarket => "VWAP is equal to the current price -> neutral market",
            Note::VarLow => "Low variance -> stable market with low volatility",
            Note::VarModerate => "Moderate variance -> normal market fluctuations",
            Note::VarHigh => "High variance -> volatile market with larger price swings",
            Note::VwapVarLow => "Low VWAP variance -> stable volume-weighted market with small deviations from VWAP",
            Note::VwapVarModerate => "Moderate VWAP variance -> typical market volume-weighted fluctuation",
            Note::VwapVarHigh => "High VWAP variance -> volatile market with large volume-weighted deviations from VWAP",
            Note::VwapStdLow => "Low VWAP STD -> low dispersion of prices around VWAP",
            Note::VwapStdModerate => "Moderate VWAP STD -> normal dispersion of prices around VWAP",
            Note::VwapStdHigh => "High VWAP STD -> significant dispersion from VWAP, indicating higher risk",
            Note::GroupVarLow => "Low variance: stable market",
            Note::GroupVarModerate => "Medium variance: moderate activity",
            Note::GroupVarHigh => "High variance: volatile market",
            Note::GroupStdLow => "Low STD: low volatility",
            Note::GroupStdModerate => "Moderate STD: watch the market",
            Note::GroupStdHigh => "High STD: market unstable",
        }
    }
}

/// A numeric result paired with its interpretation.
#[derive(Clone, Copy, PartialEq, Eq, Structural, Debug)]
pub struct Stat {
    pub value: Rat,
    pub note: Note,
}

// ---------- interpretation thresholds and signals ----------

pub open spec fn q_half() -> Q {
    Q { n: 1, d: 2 }
}

pub open spec fn q_two() -> Q {
    Q { n: 2, d: 1 }
}

/// `0.7^2`, the low standard-deviation threshold squared.
pub open spec fn q_sq_low() -> Q {
    Q { n: 49, d: 100 }
}

/// `1.5^2`, the high standard-deviation threshold squared.
pub open spec fn q_sq_high() -> Q {
    Q { n: 9, d: 4 }
}

/// The market signal: a VWAP above the last price is a weak market, below
/// it a strong one, equal to it a neutral one.
pub open spec fn vwap_signal(v: Q, last: Q) -> Note {
    if q_lt(last, v) {
        Note::WeakMarket
    } else if q_lt(v, last) {
        Note::StrongMarket
    } else {
        Note::NeutralMarket
    }
}

/// Variance bands at 0.5 and 2.
pub open spec fn var_note(v: Q) -> Note {
    if q_lt(v, q_half()) {
        Note::VarLow
    } else if q_lt(v, q_two()) {
        Note::VarModerate
    } else {
        Note::VarHigh
    }
}

/// VWAP-weighted variance bands at 0.5 and 2.
pub open spec fn vwap_var_note(v: Q) -> Note {
    if q_lt(v, q_half()) {
        Note::VwapVarLow
    } else if q_lt(v, q_two()) {
        Note::VwapVarModerate
    } else {
        Note::VwapVarHigh
    }
}

/// Grouped variance bands at 0.5 and 2.
pub open spec fn group_var_note(v: Q) -> Note {
    if q_lt(v, q_half()) {
        Note::GroupVarLow
    } else if q_lt(v, q_two()) {
        Note::GroupVarModerate
    } else {
        Note::GroupVarHigh
    }
}

/// VWAP standard-deviation bands at 0.7 and 1.5, decided on the radicand
/// `v`: `sqrt(v) < t` iff `v < t^2` for `v >= 0`; a negative radicand has
/// no real square root and falls in the highest band.
pub open spec fn vwap_std_note(v: Q) -> Note {
    if q_lt(v, q_zero()) {
        Note::VwapStdHigh
    } else if q_lt(v, q_sq_low()) {
        Note::VwapStdLow
    } else if q_lt(v, q_sq_high()) {
        Note::VwapStdModerate
    } else {
        Note::VwapStdHigh
    }
}

/// Grouped standard-deviation bands at 0.7 and 1.5, on the radicand.
pub open spec fn group_std_note(v: Q) -> Note {
    if q_lt(v, q_zero()) {
        Note::GroupStdHigh
    } else if q_lt(v, q_sq_low()) {
        Note::GroupStdLow
    } else if q_lt(v, q_sq_high()) {
        Note::GroupStdModerate
    } else {
        Note::GroupStdHigh
    }
}

fn band_var(v: &Rat) -> (n: Note)
    ensures
        n == var_note(v@),
{
    if v.lt(&Rat::frac(1, 2)) {
        Note::VarLow
    } else if v.lt(&Rat::from_int(2)) {
        Note::VarModerate
    } else {
        Note::VarHigh
    }
}

fn band_vwap_var(v: &Rat) -> (n: Note)
    ensures
        n == vwap_var_note(v@),
{
    if v.lt(&Rat::frac(1, 2)) {
        Note::VwapVarLow
    } else if v.lt(&Rat::from_int(2)) {
        Note::VwapVarModerate
    } else {
        Note::VwapVarHigh
    }
}

fn band_group_var(v: &Rat) -> (n: Note)
    ensures
        n == group_var_note(v@),
{
    if v.lt(&Rat::frac(1, 2)) {
        Note::GroupVarLow
    } else if v.lt(&Rat::from_int(2)) {
        Note::GroupVarModerate
    } else {
        Note::GroupVarHigh
    }
}

fn band_vwap_std(v: &Rat) -> (n: Note)
    ensures
        n == vwap_std_note(v@),
{
    if v.lt(&Rat::zero()) {
        Note::VwapStdHigh
    } else if v.lt(&Rat::frac(49, 100)) {
        Note::VwapStdLow
    } else if v.lt(&Rat::frac(9, 4)) {
        Note::VwapStdModerate
    } else {
        Note::VwapStdHigh
    }
}

fn band_group_std(v: &Rat) -> (n: Note)
    ensures
        n == group_std_note(v@),
{
    if v.lt(&Rat::zero()) {
        Note::GroupStdHigh
    } else if v.lt(&Rat::frac(49, 100)) {
        Note::GroupStdLow
    } else if v.lt(&Rat::frac(9, 4)) {
        Note::GroupStdModerate
    } else {
        Note::GroupStdHigh
    }
}

// ---------- mean ----------

/// The reduced mean the machine computes.
pub open spec fn mean_r_of(data: Seq<Q>) -> Q {
    q_norm(q_div(sum_r(data), q_int(data.len() as int)))
}

/// The ideal mean.
pub open spec fn q_mean(data: Seq<Q>) -> Q {
    q_div(q_sum(data), q_int(data.len() as int))
}

/// What `mean` returns: zero for an empty series, otherwise the exact
/// arithmetic mean, with `None` exactly when an intermediate value leaves
/// the machine word.
pub open spec fn mean_post(data: Seq<Q>, r: Option<Rat>) -> bool {
    if data.len() == 0 {
        r matches Some(m) && m@ == q_zero()
    } else if data.len() > 0x7fff_ffff_ffff_ffff {
        r is None
    } else if !sum_ok(data) {
        r is None
    } else if !fits_i64(mean_r_of(data)) {
        r is None
    } else {
        r matches Some(m) && m@ == mean_r_of(data) && q_eq(m@, q_mean(data))
    }
}

/// The reduced mean equals the ideal mean.
proof fn lemma_mean(data: Seq<Q>)
    requires
        seq_wf(data),
        1 <= data.len(),
    ensures
        1 <= mean_r_of(data).d,
        q_eq(mean_r_of(data), q_mean(data)),
        1 <= q_mean(data).d,
{
    lemma_sum(data);
    let len: int = data.len() as int;
    let w = q_div(sum_r(data), q_int(len));
    assert(w.d == sum_r(data).d * len);
    assert(1 <= sum_r(data).d * len) by (nonlinear_arith)
        requires
            1 <= sum_r(data).d,
            1 <= len,
    ;
    lemma_q_norm(w);
    lemma_q_div_cong(sum_r(data), q_int(len), q_sum(data), q_int(len));
    lemma_q_eq_trans(q_norm(w), w, q_mean(data));
    assert(1 <= q_sum(data).d * len) by (nonlinear_arith)
        requires
            1 <= q_sum(data).d,
            1 <= len,
    ;
}

/// Arithmetic mean of a series; zero for an empty series.
pub fn mean(values: &Vec<Rat>) -> (r: Option<Rat>)
    ensures
        mean_post(qs(values@), r),
{
    let n = values.len();
    if n == 0 {
        return Some(Rat::zero());
    }
    if (n as u128) > 0x7fff_ffff_ffff_ffffu128 {
        return None;
    }
    let total = match sum_rats(values) {
        Some(t) => t,
        None => {
            return None;
        },
    };
    proof {
        lemma_mean(qs(values@));
    }
    total.div(&Rat::from_int(n as i64))
}

// ---------- VWAP ----------

/// The reduced volume-weighted average price the machine computes.
pub open spec fn vwap_r_of(ps: Seq<Q>, vs: Seq<Q>) -> Q {
    q_norm(q_div(wsum_r(ps, vs), sum_r(vs)))
}

/// The ideal volume-weighted average price.
pub open spec fn q_vwap(ps: Seq<Q>, vs: Seq<Q>) -> Q {
    q_div(q_wsum(ps, vs), q_sum(vs))
}

/// What `vwap` returns: a zero sentinel with a note for mismatched or
/// empty input or a zero total volume, otherwise the exact VWAP and the
/// market signal against the last price.
pub open spec fn vwap_post(ps: Seq<Q>, vs: Seq<Q>, r: Option<Stat>) -> bool {
    if ps.len() != vs.len() || ps.len() == 0 {
        r matches Some(st) && st.value@ == q_zero() && st.note == Note::InvalidInput
    } else if !wsum_ok(ps, vs) || !sum_ok(vs) {
        r is None
    } else if q_eq(sum_r(vs), q_zero()) {
        r matches Some(st) && st.value@ == q_zero() && st.note == Note::ZeroVolume
    } else if !fits_i64(vwap_r_of(ps, vs)) {
        r is None
    } else {
        r matches Some(st) && st.value@ == vwap_r_of(ps, vs) && q_eq(st.value@, q_vwap(ps, vs))
            && st.note == vwap_signal(st.value@, ps.last())
    }
}

/// The reduced VWAP equals the ideal VWAP.
proof fn lemma_vwap(ps: Seq<Q>, vs: Seq<Q>)
    requires
        seq_wf(ps),
        seq_wf(vs),
        ps.len() == vs.len(),
        sum_r(vs).n != 0,
    ensures
        1 <= vwap_r_of(ps, vs).d,
        q_eq(vwap_r_of(ps, vs), q_vwap(ps, vs)),
        q_sum(vs).n != 0,
{
    lemma_wsum(ps, vs);
    lemma_sum(vs);
    let w = q_div(wsum_r(ps, vs), sum_r(vs));
    assert(w.d != 0) by (nonlinear_arith)
        requires
            w.d == wsum_r(ps, vs).d * sum_r(vs).n,
            1 <= wsum_r(ps, vs).d,
            sum_r(vs).n != 0,
    ;
    lemma_q_norm(w);
    lemma_q_div_cong(wsum_r(ps, vs), sum_r(vs), q_wsum(ps, vs), q_sum(vs));
    lemma_q_eq_trans(q_norm(w), w, q_vwap(ps, vs));
    assert(q_sum(vs).n != 0) by (nonlinear_arith)
        requires
            sum_r(vs).n * q_sum(vs).d == q_sum(vs).n * sum_r(vs).d,
            sum_r(vs).n != 0,
            1 <= q_sum(vs).d,
            1 <= sum_r(vs).d,
    ;
}

/// Volume-weighted average price with a market signal against the last
/// traded price.
pub fn vwap(prices: &Vec<Rat>, volumes: &Vec<Rat>) -> (r: Option<Stat>)
    ensures
        vwap_post(qs(prices@), qs(volumes@), r),
{
    if prices.len() != volumes.len() || prices.len() == 0 {
        return Some(Stat { value: Rat::zero(), note: Note::InvalidInput });
    }
    let total_value = match sum_products(prices, volumes) {
        Some(t) => t,
        None => {
            return None;
        },
    };
    let total_volume = match sum_rats(volumes) {
        Some(t) => t,
        None => {
            return None;
        },
    };
    if total_volume.is_zero() {
        return Some(Stat { value: Rat::zero(), note: Note::ZeroVolume });
    }
    let v = match total_value.div(&total_volume) {
        Some(v) => v,
        None => {
            return None;
        },
    };
    proof {
        lemma_vwap(qs(prices@), qs(volumes@));
    }
    let last = prices[prices.len() - 1];
    proof {
        assert(qs(prices@).last() == last@);
    }
    let note = if last.lt(&v) {
        Note::WeakMarket
    } else if v.lt(&last) {
        Note::StrongMarket
    } else {
        Note::NeutralMarket
    };
    Some(Stat { value: v, note })
}

// ---------- VWAP over bid/ask midpoints ----------

/// What `vwap_group` returns: like `vwap`, computed over the per-index
/// midpoints `(bid + ask) / 2`, with the signal against the last ask.
pub open spec fn vwap_group_post(bs: Seq<Q>, asks: Seq<Q>, vs: Seq<Q>, r: Option<Stat>) -> bool {
    if bs.len() != asks.len() || bs.len() != vs.len() || bs.len() == 0 {
        r matches Some(st) && st.value@ == q_zero() && st.note == Note::InvalidInputGroup
    } else if !mids_ok(bs, asks) {
        r is None
    } else if !wsum_ok(mids_r(bs, asks), vs) || !sum_ok(vs) {
        r is None
    } else if q_eq(sum_r(vs), q_zero()) {
        r matches Some(st) && st.value@ == q_zero() && st.note == Note::ZeroVolumeGroup
    } else if !fits_i64(vwap_r_of(mids_r(bs, asks), vs)) {
        r is None
    } else {
        r matches Some(st) && st.value@ == vwap_r_of(mids_r(bs, asks), vs) && q_eq(
            st.value@,
            q_vwap(q_mids(bs, asks), vs),
        ) && st.note == vwap_signal(st.value@, asks.last())
    }
}

/// The reduced midpoint VWAP equals the ideal VWAP of the ideal
/// midpoints.
proof fn lemma_vwap_group(bs: Seq<Q>, asks: Seq<Q>, vs: Seq<Q>)
    requires
        seq_wf(bs),
        seq_wf(asks),
        seq_wf(vs),
        bs.len() == asks.len(),
        bs.len() == vs.len(),
        sum_r(vs).n != 0,
    ensures
        1 <= vwap_r_of(mids_r(bs, asks), vs).d,
        q_eq(vwap_r_of(mids_r(bs, asks), vs), q_vwap(q_mids(bs, asks), vs)),
{
    lemma_mids(bs, asks);
    let ms = mids_r(bs, asks);
    lemma_vwap(ms, vs);
    lemma_wsum(ms, vs);
    lemma_wsum(q_mids(bs, asks), vs);
    lemma_sum(vs);
    lemma_wsum_cong(ms, q_mids(bs, asks), vs);
    lemma_q_div_cong(q_wsum(ms, vs), q_sum(vs), q_wsum(q_mids(bs, asks), vs), q_sum(vs));
    assert(q_vwap(ms, vs).d != 0) by (nonlinear_arith)
        requires
            q_vwap(ms, vs).d == q_wsum(ms, vs).d * q_sum(vs).n,
            1 <= q_wsum(ms, vs).d,
            q_sum(vs).n != 0,
    ;
    lemma_q_eq_trans(vwap_r_of(ms, vs), q_vwap(ms, vs), q_vwap(q_mids(bs, asks), vs));
}

/// VWAP of the bid/ask midpoints, with the signal against the last ask
/// price.
pub fn vwap_group(bids: &Vec<Rat>, asks: &Vec<Rat>, volumes: &Vec<Rat>) -> (r: Option<Stat>)
    ensures
        vwap_group_post(qs(bids@), qs(asks@), qs(volumes@), r),
{
    if bids.len() != asks.len() || bids.len() != volumes.len() || bids.len() == 0 {
        return Some(Stat { value: Rat::zero(), note: Note::InvalidInputGroup });
    }
    let mids = match mid_prices(bids, asks) {
        Some(m) => m,
        None => {
            return None;
        },
    };
    proof {
        assert(qs(mids@).len() == qs(bids@).len());
    }
    let total_value = match sum_products(&mids, volumes) {
        Some(t) => t,
        None => {
            return None;
        },
    };
    let total_volume = match sum_rats(volumes) {
        Some(t) => t,
        None => {
            return None;
        },
    };
    if total_volume.is_zero() {
        return Some(Stat { value: Rat::zero(), note: Note::ZeroVolumeGroup });
    }
    let v = match total_value.div(&total_volume) {
        Some(v) => v,
        None => {
            return None;
        },
    };
    proof {
        lemma_vwap_group(qs(bids@), qs(asks@), qs(volumes@));
    }
    let last_ask = asks[asks.len() - 1];
    proof {
        assert(qs(asks@).last() == last_ask@);
    }
    let note = if last_ask.lt(&v) {
        Note::WeakMarket
    } else if v.lt(&last_ask) {
        Note::StrongMarket
    } else {
        Note::NeutralMarket
    };
    Some(Stat { value: v, note })
}

// ---------- variance and standard deviation ----------

/// The reduced variance the machine computes, for denominator `denom`.
pub open spec fn variance_r_of(data: Seq<Q>, denom: int) -> Q {
    q_norm(q_div(ssd_r(data, mean_r_of(data)), q_int(denom)))
}

/// The ideal variance: squared deviations from the mean over `denom`.
pub open spec fn q_variance(data: Seq<Q>, denom: int) -> Q {
    q_div(q_ssd(data, q_mean(data)), q_int(denom))
}

/// What `variance` returns: a zero sentinel for an empty series, a zero
/// value banded as such when the sample denominator degenerates to zero,
/// otherwise the exact variance with its band at 0.5 / 2.
pub open spec fn variance_post(data: Seq<Q>, pop: bool, r: Option<Stat>) -> bool {
    if data.len() == 0 {
        r matches Some(st) && st.value@ == q_zero() && st.note == Note::NoData
    } else if data.len() > 0x7fff_ffff_ffff_ffff {
        r is None
    } else if !sum_ok(data) || !fits_i64(mean_r_of(data)) {
        r is None
    } else if !ssd_ok(data, mean_r_of(data)) {
        r is None
    } else {
        let denom: int = if pop {
            data.len() as int
        } else {
            data.len() - 1
        };
        if denom == 0 {
            r matches Some(st) && st.value@ == q_zero() && st.note == var_note(q_zero())
        } else if !fits_i64(variance_r_of(data, denom)) {
            r is None
        } else {
            r matches Some(st) && st.value@ == variance_r_of(data, denom) && q_eq(
                st.value@,
                q_variance(data, denom),
            ) && st.note == var_note(st.value@)
        }
    }
}

/// The reduced variance equals the ideal variance.
proof fn lemma_variance(data: Seq<Q>, denom: int)
    requires
        seq_wf(data),
        1 <= data.len(),
        1 <= denom,
    ensures
        1 <= variance_r_of(data, denom).d,
        q_eq(variance_r_of(data, denom), q_variance(data, denom)),
{
    lemma_mean(data);
    let c = mean_r_of(data);
    lemma_ssd(data, c);
    lemma_ssd_center(data, c, q_mean(data));
    lemma_q_eq_trans(ssd_r(data, c), q_ssd(data, c), q_ssd(data, q_mean(data)));
    let w = q_div(ssd_r(data, c), q_int(denom));
    assert(1 <= ssd_r(data, c).d * denom) by (nonlinear_arith)
        requires
            1 <= ssd_r(data, c).d,
            1 <= denom,
    ;
    lemma_q_norm(w);
    lemma_q_div_cong(ssd_r(data, c), q_int(denom), q_ssd(data, q_mean(data)), q_int(denom));
    lemma_q_eq_trans(q_norm(w), w, q_variance(data, denom));
}

/// Variance of a series, population (`n`) or sample (`n - 1`)
/// denominator, with its interpretation band.
pub fn variance(data: &Vec<Rat>, is_population: bool) -> (r: Option<Stat>)
    ensures
        variance_post(qs(data@), is_population, r),
{
    let n = data.len();
    if n == 0 {
        return Some(Stat { value: Rat::zero(), note: Note::NoData });
    }
    if (n as u128) > 0x7fff_ffff_ffff_ffffu128 {
        return None;
    }
    let m = match mean(data) {
        Some(m) => m,
        None => {
            return None;
        },
    };
    let ssd = match sum_sq_devs(data, &m) {
        Some(s) => s,
        None => {
            return None;
        },
    };
    let denom_i: i64 = if is_population {
        n as i64
    } else {
        (n - 1) as i64
    };
    if denom_i == 0 {
        return Some(Stat { value: Rat::zero(), note: band_var(&Rat::zero()) });
    }
    let v = match ssd.div(&Rat::from_int(denom_i)) {
        Some(v) => v,
        None => {
            return None;
        },
    };
    proof {
        lemma_variance(qs(data@), denom_i as int);
    }
    Some(Stat { value: v, note: band_var(&v) })
}

/// Standard deviation of a series.
///
/// The returned value is the radicand, exactly the variance; the numeric
/// standard deviation is its square root, taken by the caller. The note
/// is the variance's note, reused unchanged.
pub fn std_dev(data: &Vec<Rat>, is_population: bool) -> (r: Option<Stat>)
    ensures
        variance_post(qs(data@), is_population, r),
{
    variance(data, is_population)
}

// ---------- volume-weighted variance and standard deviation ----------

/// The shared core of the volume-weighted variance family, entered once
/// the shape of the input is known to be good. `ps` is the reduced price
/// (or midpoint) series the machine works on, `ideal_ps` the ideal series
/// the contract speaks of, `zero_note` the zero-volume note, and `band`
/// the interpretation bands of the family member.
pub open spec fn wvar_core_post(
    ps: Seq<Q>,
    vs: Seq<Q>,
    pop: bool,
    r: Option<Stat>,
    zero_note: Note,
    band: spec_fn(Q) -> Note,
    ideal_ps: Seq<Q>,
) -> bool {
    if !wsum_ok(ps, vs) || !sum_ok(vs) {
        r is None
    } else if q_eq(sum_r(vs), q_zero()) {
        r matches Some(st) && st.value@ == q_zero() && st.note == zero_note
    } else if !fits_i64(vwap_r_of(ps, vs)) {
        r is None
    } else if !wssd_ok(ps, vs, vwap_r_of(ps, vs)) {
        r is None
    } else {
        let wssd = wssd_r(ps, vs, vwap_r_of(ps, vs));
        let ideal_wssd = q_wssd(ideal_ps, vs, q_vwap(ideal_ps, vs));
        if pop {
            if !fits_i64(q_norm(q_div(wssd, sum_r(vs)))) {
                r is None
            } else {
                r matches Some(st) && st.value@ == q_norm(q_div(wssd, sum_r(vs))) && q_eq(
                    st.value@,
                    q_div(ideal_wssd, q_sum(vs)),
                ) && st.note == band(st.value@)
            }
        } else {
            if !fits_i64(q_norm(q_sub(sum_r(vs), q_int(1)))) {
                r is None
            } else {
                let adj = q_norm(q_sub(sum_r(vs), q_int(1)));
                if q_le(adj, q_zero()) {
                    r matches Some(st) && st.value@ == q_zero() && st.note == band(q_zero())
                } else if !fits_i64(q_norm(q_div(wssd, adj))) {
                    r is None
                } else {
                    r matches Some(st) && st.value@ == q_norm(q_div(wssd, adj)) && q_eq(
                        st.value@,
                        q_div(ideal_wssd, q_sub(q_sum(vs), q_int(1))),
                    ) && st.note == band(st.value@)
                }
            }
        }
    }
}

/// What `variance_vwap` returns.
pub open spec fn variance_vwap_post(ps: Seq<Q>, vs: Seq<Q>, pop: bool, r: Option<Stat>) -> bool {
    if ps.len() != vs.len() || ps.len() == 0 {
        r matches Some(st) && st.value@ == q_zero() && st.note == Note::InvalidInput
    } else {
        wvar_core_post(ps, vs, pop, r, Note::ZeroVolume, (|v: Q| vwap_var_note(v)), ps)
    }
}

/// What `std_vwap` returns: the same radicand, banded at 0.7 / 1.5.
pub open spec fn std_vwap_post(ps: Seq<Q>, vs: Seq<Q>, pop: bool, r: Option<Stat>) -> bool {
    if ps.len() != vs.len() || ps.len() == 0 {
        r matches Some(st) && st.value@ == q_zero() && st.note == Note::InvalidInput
    } else {
        wvar_core_post(ps, vs, pop, r, Note::ZeroVolume, (|v: Q| vwap_std_note(v)), ps)
    }
}

/// What `variance_vwap_group` returns.
pub open spec fn variance_vwap_group_post(
    bs: Seq<Q>,
    asks: Seq<Q>,
    vs: Seq<Q>,
    pop: bool,
    r: Option<Stat>,
) -> bool {
    if bs.len() != asks.len() || bs.len() != vs.len() || bs.len() == 0 {
        r matches Some(st) && st.value@ == q_zero() && st.note == Note::InvalidInputGroup
    } else if !mids_ok(bs, asks) {
        r is None
    } else {
        wvar_core_post(
            mids_r(bs, asks),
            vs,
            pop,
            r,
            Note::ZeroVolumeGroup,
            (|v: Q| group_var_note(v)),
            q_mids(bs, asks),
        )
    }
}

/// What `std_vwap_group` returns: the same radicand, banded at 0.7 / 1.5.
pub open spec fn std_vwap_group_post(
    bs: Seq<Q>,
    asks: Seq<Q>,
    vs: Seq<Q>,
    pop: bool,
    r: Option<Stat>,
) -> bool {
    if bs.len() != asks.len() || bs.len() != vs.len() || bs.len() == 0 {
        r matches Some(st) && st.value@ == q_zero() && st.note == Note::InvalidInputGroup
    } else if !mids_ok(bs, asks) {
        r is None
    } else {
        wvar_core_post(
            mids_r(bs, asks),
            vs,
            pop,
            r,
            Note::ZeroVolumeGroup,
            (|v: Q| group_std_note(v)),
            q_mids(bs, asks),
        )
    }
}

/// The sample denominator `total volume - 1`, reduced, equals the ideal
/// one.
proof fn lemma_adj(vs: Seq<Q>)
    requires
        seq_wf(vs),
    ensures
        1 <= q_norm(q_sub(sum_r(vs), q_int(1))).d,
        q_eq(q_norm(q_sub(sum_r(vs), q_int(1))), q_sub(q_sum(vs), q_int(1))),
        1 <= q_sub(q_sum(vs), q_int(1)).d,
{
    lemma_sum(vs);
    let s0 = q_sub(sum_r(vs), q_int(1));
    assert(s0.d == sum_r(vs).d * 1);
    lemma_q_norm(s0);
    lemma_q_sub_cong(sum_r(vs), q_int(1), q_sum(vs), q_int(1));
    lemma_q_eq_trans(q_norm(s0), s0, q_sub(q_sum(vs), q_int(1)));
    assert(q_sub(q_sum(vs), q_int(1)).d == q_sum(vs).d * 1);
}

/// The reduced weighted variance equals the ideal one, for any agreeing
/// pair of denominators.
proof fn lemma_wvar(ps: Seq<Q>, vs: Seq<Q>, ideal_ps: Seq<Q>, denom_r: Q, denom_i: Q)
    requires
        seq_wf(ps),
        seq_wf(vs),
        ps.len() == vs.len(),
        ideal_ps.len() == ps.len(),
        forall|i: int| 0 <= i < ps.len() ==> q_eq(#[trigger] ps[i], ideal_ps[i]),
        sum_r(vs).n != 0,
        q_eq(denom_r, denom_i),
        denom_r.n != 0,
        1 <= denom_r.d,
    ensures
        1 <= q_norm(q_div(wssd_r(ps, vs, vwap_r_of(ps, vs)), denom_r)).d,
        q_eq(
            q_norm(q_div(wssd_r(ps, vs, vwap_r_of(ps, vs)), denom_r)),
            q_div(q_wssd(ideal_ps, vs, q_vwap(ideal_ps, vs)), denom_i),
        ),
{
    lemma_vwap(ps, vs);
    let c = vwap_r_of(ps, vs);
    let cc = q_vwap(ideal_ps, vs);
    lemma_wsum(ps, vs);
    lemma_sum(vs);
    lemma_wsum_cong(ps, ideal_ps, vs);
    lemma_q_div_cong(q_wsum(ps, vs), q_sum(vs), q_wsum(ideal_ps, vs), q_sum(vs));
    assert(q_vwap(ps, vs).d != 0) by (nonlinear_arith)
        requires
            q_vwap(ps, vs).d == q_wsum(ps, vs).d * q_sum(vs).n,
            1 <= q_wsum(ps, vs).d,
            q_sum(vs).n != 0,
    ;
    lemma_q_eq_trans(c, q_vwap(ps, vs), cc);
    lemma_wssd(ps, vs, c);
    lemma_wssd_cong(ps, ideal_ps, vs, c, cc);
    lemma_q_eq_trans(wssd_r(ps, vs, c), q_wssd(ps, vs, c), q_wssd(ideal_ps, vs, cc));
    let w = q_div(wssd_r(ps, vs, c), denom_r);
    assert(w.d != 0) by (nonlinear_arith)
        requires
            w.d == wssd_r(ps, vs, c).d * denom_r.n,
            1 <= wssd_r(ps, vs, c).d,
            denom_r.n != 0,
    ;
    lemma_q_norm(w);
    lemma_q_div_cong(wssd_r(ps, vs, c), denom_r, q_wssd(ideal_ps, vs, cc), denom_i);
    lemma_q_eq_trans(q_norm(w), w, q_div(q_wssd(ideal_ps, vs, cc), denom_i));
}

/// The value computed by the weighted variance family once the input
/// shape is good: the pair holds the value and whether the zero-volume
/// case was hit. `ideal_ps` is the ideal series the value is related to.
pub open spec fn wvar_value_post(
    ps: Seq<Q>,
    vs: Seq<Q>,
    pop: bool,
    ideal_ps: Seq<Q>,
    r: Option<(Rat, bool)>,
) -> bool {
    if !wsum_ok(ps, vs) || !sum_ok(vs) {
        r is None
    } else if q_eq(sum_r(vs), q_zero()) {
        r matches Some(p) && p.0@ == q_zero() && p.1 == true
    } else if !fits_i64(vwap_r_of(ps, vs)) {
        r is None
    } else if !wssd_ok(ps, vs, vwap_r_of(ps, vs)) {
        r is None
    } else {
        let wssd = wssd_r(ps, vs, vwap_r_of(ps, vs));
        let ideal_wssd = q_wssd(ideal_ps, vs, q_vwap(ideal_ps, vs));
        if pop {
            if !fits_i64(q_norm(q_div(wssd, sum_r(vs)))) {
                r is None
            } else {
                r matches Some(p) && p.1 == false && p.0@ == q_norm(q_div(wssd, sum_r(vs)))
                    && q_eq(p.0@, q_div(ideal_wssd, q_sum(vs)))
            }
        } else {
            if !fits_i64(q_norm(q_sub(sum_r(vs), q_int(1)))) {
                r is None
            } else {
                let adj = q_norm(q_sub(sum_r(vs), q_int(1)));
                if q_le(adj, q_zero()) {
                    r matches Some(p) && p.1 == false && p.0@ == q_zero()
                } else if !fits_i64(q_norm(q_div(wssd, adj))) {
                    r is None
                } else {
                    r matches Some(p) && p.1 == false && p.0@ == q_norm(q_div(wssd, adj))
                        && q_eq(p.0@, q_div(ideal_wssd, q_sub(q_sum(vs), q_int(1))))
                }
            }
        }
    }
}

/// The computation shared by the weighted variance family. The flag in
/// the result is true exactly in the zero-volume case; the caller
/// attaches the family's notes.
fn weighted_variance_core(
    ps: &Vec<Rat>,
    vs: &Vec<Rat>,
    is_population: bool,
    Ghost(ideal_ps): Ghost<Seq<Q>>,
) -> (r: Option<(Rat, bool)>)
    requires
        ps@.len() == vs@.len(),
        ideal_ps.len() == ps@.len(),
        forall|i: int| 0 <= i < ps@.len() ==> q_eq(#[trigger] qs(ps@)[i], ideal_ps[i]),
    ensures
        wvar_value_post(qs(ps@), qs(vs@), is_population, ideal_ps, r),
{
    let total_value = match sum_products(ps, vs) {
        Some(t) => t,
        None => {
            return None;
        },
    };
    let total_volume = match sum_rats(vs) {
        Some(t) => t,
        None => {
            return None;
        },
    };
    if total_volume.is_zero() {
        return Some((Rat::zero(), true));
    }
    let center = match total_value.div(&total_volume) {
        Some(c) => c,
        None => {
            return None;
        },
    };
    let wssd = match sum_wsq_devs(ps, vs, &center) {
        Some(w) => w,
        None => {
            return None;
        },
    };
    if is_population {
        let v = match wssd.div(&total_volume) {
            Some(v) => v,
            None => {
                return None;
            },
        };
        proof {
            lemma_sum(qs(vs@));
            lemma_wvar(qs(ps@), qs(vs@), ideal_ps, sum_r(qs(vs@)), q_sum(qs(vs@)));
        }
        Some((v, false))
    } else {
        let adj = match total_volume.sub(&Rat::from_int(1)) {
            Some(a) => a,
            None => {
                return None;
            },
        };
        if adj.le(&Rat::zero()) {
            return Some((Rat::zero(), false));
        }
        let v = match wssd.div(&adj) {
            Some(v) => v,
            None => {
                return None;
            },
        };
        proof {
            lemma_adj(qs(vs@));
            lemma_wvar(
                qs(ps@),
                qs(vs@),
                ideal_ps,
                q_norm(q_sub(sum_r(qs(vs@)), q_int(1))),
                q_sub(q_sum(qs(vs@)), q_int(1)),
            );
        }
        Some((v, false))
    }
}

/// Variance of prices around the VWAP, weighted by volume, population
/// (`sum v`) or sample (`sum v - 1`, zero when that is not positive)
/// denominator.
pub fn variance_vwap(prices: &Vec<Rat>, volumes: &Vec<Rat>, is_population: bool) -> (r: Option<
    Stat,
>)
    ensures
        variance_vwap_post(qs(prices@), qs(volumes@), is_population, r),
{
    if prices.len() != volumes.len() || prices.len() == 0 {
        return Some(Stat { value: Rat::zero(), note: Note::InvalidInput });
    }
    match weighted_variance_core(prices, volumes, is_population, Ghost(qs(prices@))) {
        Some((v, zero_vol)) => {
            if zero_vol {
                Some(Stat { value: v, note: Note::ZeroVolume })
            } else {
                Some(Stat { value: v, note: band_vwap_var(&v) })
            }
        },
        None => None,
    }
}

/// Standard deviation of prices around the VWAP, weighted by volume.
///
/// The returned value is the radicand (the weighted variance); the note
/// bands its square root at 0.7 / 1.5 by comparing the radicand with the
/// squared thresholds.
pub fn std_vwap(prices: &Vec<Rat>, volumes: &Vec<Rat>, is_population: bool) -> (r: Option<Stat>)
    ensures
        std_vwap_post(qs(prices@), qs(volumes@), is_population, r),
{
    if prices.len() != volumes.len() || prices.len() == 0 {
        return Some(Stat { value: Rat::zero(), note: Note::InvalidInput });
    }
    match weighted_variance_core(prices, volumes, is_population, Ghost(qs(prices@))) {
        Some((v, zero_vol)) => {
            if zero_vol {
                Some(Stat { value: v, note: Note::ZeroVolume })
            } else {
                Some(Stat { value: v, note: band_vwap_std(&v) })
            }
        },
        None => None,
    }
}

/// Variance of the bid/ask midpoints around the midpoint VWAP, weighted
/// by volume.
pub fn variance_vwap_group(
    bids: &Vec<Rat>,
    asks: &Vec<Rat>,
    volumes: &Vec<Rat>,
    is_population: bool,
) -> (r: Option<Stat>)
    ensures
        variance_vwap_group_post(qs(bids@), qs(asks@), qs(volumes@), is_population, r),
{
    if bids.len() != asks.len() || bids.len() != volumes.len() || bids.len() == 0 {
        return Some(Stat { value: Rat::zero(), note: Note::InvalidInputGroup });
    }
    let mids = match mid_prices(bids, asks) {
        Some(m) => m,
        None => {
            return None;
        },
    };
    proof {
        lemma_mids(qs(bids@), qs(asks@));
        assert(qs(mids@).len() == mids@.len());
        assert(qs(bids@).len() == bids@.len());
    }
    match weighted_variance_core(
        &mids,
        volumes,
        is_population,
        Ghost(q_mids(qs(bids@), qs(asks@))),
    ) {
        Some((v, zero_vol)) => {
            if zero_vol {
                Some(Stat { value: v, note: Note::ZeroVolumeGroup })
            } else {
                Some(Stat { value: v, note: band_group_var(&v) })
            }
        },
        None => None,
    }
}

/// Standard deviation of the bid/ask midpoints around the midpoint VWAP,
/// weighted by volume; the value is the radicand, the note bands its
/// square root at 0.7 / 1.5.
pub fn std_vwap_group(
    bids: &Vec<Rat>,
    asks: &Vec<Rat>,
    volumes: &Vec<Rat>,
    is_population: bool,
) -> (r: Option<Stat>)
    ensures
        std_vwap_group_post(qs(bids@), qs(asks@), qs(volumes@), is_population, r),
{
    if bids.len() != asks.len() || bids.len() != volumes.len() || bids.len() == 0 {
        return Some(Stat { value: Rat::zero(), note: Note::InvalidInputGroup });
    }
    let mids = match mid_prices(bids, asks) {
        Some(m) => m,
        None => {
            return None;
        },
    };
    proof {
        lemma_mids(qs(bids@), qs(asks@));
        assert(qs(mids@).len() == mids@.len());
        assert(qs(bids@).len() == bids@.len());
    }
    match weighted_variance_core(
        &mids,
        volumes,
        is_population,
        Ghost(q_mids(qs(bids@), qs(asks@))),
    ) {
        Some((v, zero_vol)) => {
            if zero_vol {
                Some(Stat { value: v, note: Note::ZeroVolumeGroup })
            } else {
                Some(Stat { value: v, note: band_group_std(&v) })
            }
        },
        None => None,
    }
}

// ---------- the global summary ----------

/// Every statistic of the global report: bids and asks, weighted by one
/// volume series, always in population mode.
#[derive(Clone, Copy, PartialEq, Eq, Structural, Debug)]
pub struct GlobalSummary {
    pub mean_bid: Option<Rat>,
    pub mean_ask: Option<Rat>,
    pub vwap_bid: Option<Stat>,
    pub vwap_ask: Option<Stat>,
    pub vwap_group: Option<Stat>,
    pub variance_bid: Option<Stat>,
    pub variance_ask: Option<Stat>,
    pub std_bid: Option<Stat>,
    pub std_ask: Option<Stat>,
    pub variance_vwap_bid: Option<Stat>,
    pub variance_vwap_ask: Option<Stat>,
    pub std_vwap_bid: Option<Stat>,
    pub std_vwap_ask: Option<Stat>,
    pub variance_vwap_group: Option<Stat>,
    pub std_vwap_group: Option<Stat>,
}

/// The whole report at once: each field is exactly what the
/// corresponding statistic function returns on the same inputs, with
/// `is_population == true` throughout.
pub fn global_stats_summary(bids: &Vec<Rat>, asks: &Vec<Rat>, volumes: &Vec<Rat>) -> (r:
    GlobalSummary)
    ensures
        mean_post(qs(bids@), r.mean_bid),
        mean_post(qs(asks@), r.mean_ask),
        vwap_post(qs(bids@), qs(volumes@), r.vwap_bid),
        vwap_post(qs(asks@), qs(volumes@), r.vwap_ask),
        vwap_group_post(qs(bids@), qs(asks@), qs(volumes@), r.vwap_group),
        variance_post(qs(bids@), true, r.variance_bid),
        variance_post(qs(asks@), true, r.variance_ask),
        variance_post(qs(bids@), true, r.std_bid),
        variance_post(qs(asks@), true, r.std_ask),
        variance_vwap_post(qs(bids@), qs(volumes@), true, r.variance_vwap_bid),
        variance_vwap_post(qs(asks@), qs(volumes@), true, r.variance_vwap_ask),
        std_vwap_post(qs(bids@), qs(volumes@), true, r.std_vwap_bid),
        std_vwap_post(qs(asks@), qs(volumes@), true, r.std_vwap_ask),
        variance_vwap_group_post(qs(bids@), qs(asks@), qs(volumes@), true, r.variance_vwap_group),
        std_vwap_group_post(qs(bids@), qs(asks@), qs(volumes@), true, r.std_vwap_group),
{
    GlobalSummary {
        mean_bid: mean(bids),
        mean_ask: mean(asks),
        vwap_bid: vwap(bids, volumes),
        vwap_ask: vwap(asks, volumes),
        vwap_group: vwap_group(bids, asks, volumes),
        variance_bid: variance(bids, true),
        variance_ask: variance(asks, true),
        std_bid: std_dev(bids, true),
        std_ask: std_dev(asks, true),
        variance_vwap_bid: variance_vwap(bids, volumes, true),
        variance_vwap_ask: variance_vwap(asks, volumes, true),
        std_vwap_bid: std_vwap(bids, volumes, true),
        std_vwap_ask: std_vwap(asks, volumes, true),
        variance_vwap_group: variance_vwap_group(bids, asks, volumes, true),
        std_vwap_group: std_vwap_group(bids, asks, volumes, true),
    }
}

// ---------- laws ----------

/// The mean is a function of its input alone: any two results that meet
/// `mean`'s contract on the same series are bit-identical.
pub proof fn lemma_mean_deterministic(data: Seq<Q>, r1: Option<Rat>, r2: Option<Rat>)
    requires
        mean_post(data, r1),
        mean_post(data, r2),
    ensures
        r1 == r2,
{
    match (r1, r2) {
        (Some(a), Some(b)) => {
            lemma_view_inj(a, b);
        },
        _ => {},
    }
}

/// The VWAP is a function of its inputs alone.
pub proof fn lemma_vwap_deterministic(
    ps: Seq<Q>,
    vs: Seq<Q>,
    r1: Option<Stat>,
    r2: Option<Stat>,
)
    requires
        vwap_post(ps, vs, r1),
        vwap_post(ps, vs, r2),
    ensures
        r1 == r2,
{
    match (r1, r2) {
        (Some(a), Some(b)) => {
            lemma_view_inj(a.value, b.value);
        },
        _ => {},
    }
}

/// The midpoint VWAP is a function of its inputs alone.
pub proof fn lemma_vwap_group_deterministic(
    bs: Seq<Q>,
    asks: Seq<Q>,
    vs: Seq<Q>,
    r1: Option<Stat>,
    r2: Option<Stat>,
)
    requires
        vwap_group_post(bs, asks, vs, r1),
        vwap_group_post(bs, asks, vs, r2),
    ensures
        r1 == r2,
{
    match (r1, r2) {
        (Some(a), Some(b)) => {
            lemma_view_inj(a.value, b.value);
        },
        _ => {},
    }
}

/// The variance is a function of its inputs alone.
pub proof fn lemma_variance_deterministic(
    data: Seq<Q>,
    pop: bool,
    r1: Option<Stat>,
    r2: Option<Stat>,
)
    requires
        variance_post(data, pop, r1),
        variance_post(data, pop, r2),
    ensures
        r1 == r2,
{
    match (r1, r2) {
        (Some(a), Some(b)) => {
            lemma_view_inj(a.value, b.value);
        },
        _ => {},
    }
}

/// The standard deviation returns exactly the variance's outcome: both
/// meet the same contract, so their results are bit-identical, and the
/// numeric standard deviation is the square root of the variance by
/// construction.
pub proof fn lemma_std_dev_matches_variance(
    data: Seq<Q>,
    pop: bool,
    r_var: Option<Stat>,
    r_std: Option<Stat>,
)
    requires
        variance_post(data, pop, r_var),
        variance_post(data, pop, r_std),
    ensures
        r_var == r_std,
{
    lemma_variance_deterministic(data, pop, r_var, r_std);
}

/// The weighted variance family core is a function of its inputs alone.
pub proof fn lemma_weighted_core_deterministic(
    ps: Seq<Q>,
    vs: Seq<Q>,
    pop: bool,
    zero_note: Note,
    band: spec_fn(Q) -> Note,
    ideal_ps: Seq<Q>,
    r1: Option<Stat>,
    r2: Option<Stat>,
)
    requires
        wvar_core_post(ps, vs, pop, r1, zero_note, band, ideal_ps),
        wvar_core_post(ps, vs, pop, r2, zero_note, band, ideal_ps),
    ensures
        r1 == r2,
{
    match (r1, r2) {
        (Some(a), Some(b)) => {
            lemma_view_inj(a.value, b.value);
        },
        _ => {},
    }
}

/// The volume-weighted variance of prices is a function of its inputs
/// alone; so are its three siblings, through
/// `lemma_weighted_core_deterministic`.
pub proof fn lemma_variance_vwap_deterministic(
    ps: Seq<Q>,
    vs: Seq<Q>,
    pop: bool,
    r1: Option<Stat>,
    r2: Option<Stat>,
)
    requires
        variance_vwap_post(ps, vs, pop, r1),
        variance_vwap_post(ps, vs, pop, r2),
    ensures
        r1 == r2,
{
    if ps.len() != vs.len() || ps.len() == 0 {
        match (r1, r2) {
            (Some(a), Some(b)) => {
                lemma_view_inj(a.value, b.value);
            },
            _ => {},
        }
    } else {
        lemma_weighted_core_deterministic(
            ps,
            vs,
            pop,
            Note::ZeroVolume,
            (|v: Q| vwap_var_note(v)),
            ps,
            r1,
            r2,
        );
    }
}

/// The volume-weighted standard deviation is a function of its inputs
/// alone.
pub proof fn lemma_std_vwap_deterministic(
    ps: Seq<Q>,
    vs: Seq<Q>,
    pop: bool,
    r1: Option<Stat>,
    r2: Option<Stat>,
)
    requires
        std_vwap_post(ps, vs, pop, r1),
        std_vwap_post(ps, vs, pop, r2),
    ensures
        r1 == r2,
{
    if ps.len() != vs.len() || ps.len() == 0 {
        match (r1, r2) {
            (Some(a), Some(b)) => {
                lemma_view_inj(a.value, b.value);
            },
            _ => {},
        }
    } else {
        lemma_weighted_core_deterministic(
            ps,
            vs,
            pop,
            Note::ZeroVolume,
            (|v: Q| vwap_std_note(v)),
            ps,
            r1,
            r2,
        );
    }
}

/// The grouped weighted variance is a function of its inputs alone.
pub proof fn lemma_variance_vwap_group_deterministic(
    bs: Seq<Q>,
    asks: Seq<Q>,
    vs: Seq<Q>,
    pop: bool,
    r1: Option<Stat>,
    r2: Option<Stat>,
)
    requires
        variance_vwap_group_post(bs, asks, vs, pop, r1),
        variance_vwap_group_post(bs, asks, vs, pop, r2),
    ensures
        r1 == r2,
{
    if bs.len() != asks.len() || bs.len() != vs.len() || bs.len() == 0 {
        match (r1, r2) {
            (Some(a), Some(b)) => {
                lemma_view_inj(a.value, b.value);
            },
            _ => {},
        }
    } else if mids_ok(bs, asks) {
        lemma_weighted_core_deterministic(
            mids_r(bs, asks),
            vs,
            pop,
            Note::ZeroVolumeGroup,
            (|v: Q| group_var_note(v)),
            q_mids(bs, asks),
            r1,
            r2,
        );
    }
}

/// The grouped weighted standard deviation is a function of its inputs
/// alone.
pub proof fn lemma_std_vwap_group_deterministic(
    bs: Seq<Q>,
    asks: Seq<Q>,
    vs: Seq<Q>,
    pop: bool,
    r1: Option<Stat>,
    r2: Option<Stat>,
)
    requires
        std_vwap_group_post(bs, asks, vs, pop, r1),
        std_vwap_group_post(bs, asks, vs, pop, r2),
    ensures
        r1 == r2,
{
    if bs.len() != asks.len() || bs.len() != vs.len() || bs.len() == 0 {
        match (r1, r2) {
            (Some(a), Some(b)) => {
                lemma_view_inj(a.value, b.value);
            },
            _ => {},
        }
    } else if mids_ok(bs, asks) {
        lemma_weighted_core_deterministic(
            mids_r(bs, asks),
            vs,
            pop,
            Note::ZeroVolumeGroup,
            (|v: Q| group_std_note(v)),
            q_mids(bs, asks),
            r1,
            r2,
        );
    }
}

/// The midpoint VWAP agrees with the plain VWAP taken over the computed
/// midpoints: the numeric values coincide; only the market signal
/// differs, comparing against the last ask instead of the last midpoint.
pub proof fn lemma_vwap_group_is_vwap_of_mids(
    bs: Seq<Q>,
    asks: Seq<Q>,
    vs: Seq<Q>,
    r_group: Option<Stat>,
    r_plain: Option<Stat>,
)
    requires
        bs.len() == asks.len(),
        bs.len() == vs.len(),
        1 <= bs.len(),
        mids_ok(bs, asks),
        vwap_group_post(bs, asks, vs, r_group),
        vwap_post(mids_r(bs, asks), vs, r_plain),
    ensures
        r_group is Some <==> r_plain is Some,
        match (r_group, r_plain) {
            (Some(a), Some(b)) => a.value == b.value,
            (None, None) => true,
            _ => false,
        },
{
    match (r_group, r_plain) {
        (Some(a), Some(b)) => {
            lemma_view_inj(a.value, b.value);
        },
        _ => {},
    }
}

/// Whenever the total volume is zero, the VWAP is the zero sentinel with
/// the zero-volume note, never a fault.
pub proof fn lemma_vwap_zero_volume(ps: Seq<Q>, vs: Seq<Q>, r: Option<Stat>)
    requires
        ps.len() == vs.len(),
        1 <= ps.len(),
        wsum_ok(ps, vs),
        sum_ok(vs),
        q_eq(sum_r(vs), q_zero()),
        vwap_post(ps, vs, r),
    ensures
        r matches Some(st) && st.value@ == q_zero() && st.note == Note::ZeroVolume,
{
}

/// Whenever the total volume is zero, the midpoint VWAP is the zero
/// sentinel with the zero-volume note.
pub proof fn lemma_vwap_group_zero_volume(bs: Seq<Q>, asks: Seq<Q>, vs: Seq<Q>, r: Option<Stat>)
    requires
        bs.len() == asks.len(),
        bs.len() == vs.len(),
        1 <= bs.len(),
        mids_ok(bs, asks),
        wsum_ok(mids_r(bs, asks), vs),
        sum_ok(vs),
        q_eq(sum_r(vs), q_zero()),
        vwap_group_post(bs, asks, vs, r),
    ensures
        r matches Some(st) && st.value@ == q_zero() && st.note == Note::ZeroVolumeGroup,
{
}

/// Whenever the total volume is zero, every member of the weighted
/// variance family yields the zero sentinel with its zero-volume note.
pub proof fn lemma_weighted_zero_volume(
    ps: Seq<Q>,
    vs: Seq<Q>,
    pop: bool,
    zero_note: Note,
    band: spec_fn(Q) -> Note,
    ideal_ps: Seq<Q>,
    r: Option<Stat>,
)
    requires
        wsum_ok(ps, vs),
        sum_ok(vs),
        q_eq(sum_r(vs), q_zero()),
        wvar_core_post(ps, vs, pop, r, zero_note, band, ideal_ps),
    ensures
        r matches Some(st) && st.value@ == q_zero() && st.note == zero_note,
{
}

} // verus!
