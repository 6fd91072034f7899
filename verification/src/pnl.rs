//! Profit-and-loss for a single asset position.
//!
//! `revenue = sell * contracted`, `cost = buy * contracted`,
//! `exposure = (realized - contracted) * market` when a realized volume
//! is present (zero otherwise), and
//! `pnl = revenue - cost - exposure - additional_costs`, all computed
//! exactly; `None` exactly when a reduced intermediate value leaves the
//! machine word.

use crate::rat::{
    fits_i64, lemma_q_eq_trans, lemma_q_mul_cong, lemma_q_norm, lemma_q_sub_cong, lemma_view_inj,
    q_eq, q_mul, q_norm, q_sub, q_zero, Q, Rat,
};
use vstd::prelude::*;

verus! {

/// One traded position: prices, volumes and extra costs, with an
/// optional realized volume.
#[derive(Clone, Debug)]
pub struct AssetPosition {
    /// Identifier of the asset, carried through unchanged.
    pub asset_id: String,
    /// Price at which the asset was bought.
    pub buy_price: Rat,
    /// Price at which the asset was sold.
    pub sell_price: Rat,
    /// Agreed volume.
    pub contracted_volume: Rat,
    /// Actually delivered volume, when known.
    pub realized_volume: Option<Rat>,
    /// Market price used to value the delivery gap.
    pub market_price: Rat,
    /// Commissions, fees, slippage, taxes.
    pub additional_costs: Rat,
}

/// The revenue/cost/exposure/pnl breakdown of one position.
#[derive(Clone, Copy, PartialEq, Eq, Structural, Debug)]
pub struct PnLResult {
    pub revenue: Rat,
    pub cost: Rat,
    pub exposure: Rat,
    pub pnl: Rat,
}

/// The reduced revenue the machine computes.
pub open spec fn revenue_r(p: AssetPosition) -> Q {
    q_norm(q_mul(p.sell_price@, p.contracted_volume@))
}

/// The reduced cost.
pub open spec fn cost_r(p: AssetPosition) -> Q {
    q_norm(q_mul(p.buy_price@, p.contracted_volume@))
}

/// The reduced exposure: zero when no realized volume is given.
pub open spec fn exposure_r(p: AssetPosition) -> Q {
    match p.realized_volume {
        Some(rv) => q_norm(
            q_mul(q_norm(q_sub(rv@, p.contracted_volume@)), p.market_price@),
        ),
        None => q_zero(),
    }
}

pub open spec fn pnl_step1_r(p: AssetPosition) -> Q {
    q_norm(q_sub(revenue_r(p), cost_r(p)))
}

pub open spec fn pnl_step2_r(p: AssetPosition) -> Q {
    q_norm(q_sub(pnl_step1_r(p), exposure_r(p)))
}

/// The reduced profit and loss.
pub open spec fn pnl_r(p: AssetPosition) -> Q {
    q_norm(q_sub(pnl_step2_r(p), p.additional_costs@))
}

/// The ideal exposure.
pub open spec fn q_exposure(p: AssetPosition) -> Q {
    match p.realized_volume {
        Some(rv) => q_mul(q_sub(rv@, p.contracted_volume@), p.market_price@),
        None => q_zero(),
    }
}

/// The ideal profit and loss:
/// `sell * cv - buy * cv - exposure - additional costs`.
pub open spec fn q_pnl(p: AssetPosition) -> Q {
    q_sub(
        q_sub(
            q_sub(
                q_mul(p.sell_price@, p.contracted_volume@),
                q_mul(p.buy_price@, p.contracted_volume@),
            ),
            q_exposure(p),
        ),
        p.additional_costs@,
    )
}

/// Whether every reduced intermediate of the breakdown fits the machine
/// word.
pub open spec fn pnl_ok(p: AssetPosition) -> bool {
    &&& fits_i64(revenue_r(p))
    &&& fits_i64(cost_r(p))
    &&& (match p.realized_volume {
        Some(rv) => fits_i64(q_norm(q_sub(rv@, p.contracted_volume@))) && fits_i64(exposure_r(p)),
        None => true,
    })
    &&& fits_i64(pnl_step1_r(p))
    &&& fits_i64(pnl_step2_r(p))
    &&& fits_i64(pnl_r(p))
}

/// What `calculate_pnl` returns: the exact breakdown, with a zero
/// exposure whenever the realized volume is absent.
pub open spec fn pnl_post(p: AssetPosition, r: Option<PnLResult>) -> bool {
    if !pnl_ok(p) {
        r is None
    } else {
        r matches Some(o) && {
            &&& o.revenue@ == revenue_r(p)
            &&& q_eq(o.revenue@, q_mul(p.sell_price@, p.contracted_volume@))
            &&& o.cost@ == cost_r(p)
            &&& q_eq(o.cost@, q_mul(p.buy_price@, p.contracted_volume@))
            &&& o.exposure@ == exposure_r(p)
            &&& q_eq(o.exposure@, q_exposure(p))
            &&& (p.realized_volume is None ==> o.exposure@ == q_zero())
            &&& o.pnl@ == pnl_r(p)
            &&& q_eq(o.pnl@, q_pnl(p))
        }
    }
}

/// The reduced breakdown equals the ideal formulas.
proof fn lemma_pnl(p: AssetPosition)
    requires
        1 <= p.buy_price@.d,
        1 <= p.sell_price@.d,
        1 <= p.contracted_volume@.d,
        1 <= p.market_price@.d,
        1 <= p.additional_costs@.d,
        p.realized_volume matches Some(rv) ==> 1 <= rv@.d,
    ensures
        1 <= revenue_r(p).d,
        q_eq(revenue_r(p), q_mul(p.sell_price@, p.contracted_volume@)),
        1 <= cost_r(p).d,
        q_eq(cost_r(p), q_mul(p.buy_price@, p.contracted_volume@)),
        1 <= exposure_r(p).d,
        q_eq(exposure_r(p), q_exposure(p)),
        1 <= pnl_r(p).d,
        q_eq(pnl_r(p), q_pnl(p)),
{
    let sell = p.sell_price@;
    let buy = p.buy_price@;
    let cv = p.contracted_volume@;
    let mp = p.market_price@;
    let ac = p.additional_costs@;
    assert(1 <= sell.d * cv.d) by (nonlinear_arith)
        requires
            1 <= sell.d,
            1 <= cv.d,
    ;
    lemma_q_norm(q_mul(sell, cv));
    assert(1 <= buy.d * cv.d) by (nonlinear_arith)
        requires
            1 <= buy.d,
            1 <= cv.d,
    ;
    lemma_q_norm(q_mul(buy, cv));
    match p.realized_volume {
        Some(rvr) => {
            let rv = rvr@;
            let d0 = q_sub(rv, cv);
            assert(1 <= rv.d * cv.d) by (nonlinear_arith)
                requires
                    1 <= rv.d,
                    1 <= cv.d,
            ;
            lemma_q_norm(d0);
            let m = q_mul(q_norm(d0), mp);
            assert(1 <= q_norm(d0).d * mp.d) by (nonlinear_arith)
                requires
                    1 <= q_norm(d0).d,
                    1 <= mp.d,
            ;
            lemma_q_norm(m);
            lemma_q_mul_cong(q_norm(d0), mp, d0, mp);
            lemma_q_eq_trans(q_norm(m), m, q_mul(d0, mp));
            assert(1 <= d0.d * mp.d) by (nonlinear_arith)
                requires
                    1 <= d0.d,
                    1 <= mp.d,
            ;
        },
        None => {},
    }
    let u1 = q_sub(revenue_r(p), cost_r(p));
    assert(1 <= revenue_r(p).d * cost_r(p).d) by (nonlinear_arith)
        requires
            1 <= revenue_r(p).d,
            1 <= cost_r(p).d,
    ;
    lemma_q_norm(u1);
    lemma_q_sub_cong(revenue_r(p), cost_r(p), q_mul(sell, cv), q_mul(buy, cv));
    lemma_q_eq_trans(q_norm(u1), u1, q_sub(q_mul(sell, cv), q_mul(buy, cv)));
    let i1 = q_sub(q_mul(sell, cv), q_mul(buy, cv));
    assert(1 <= q_mul(sell, cv).d * q_mul(buy, cv).d) by (nonlinear_arith)
        requires
            1 <= q_mul(sell, cv).d,
            1 <= q_mul(buy, cv).d,
    ;
    let u2 = q_sub(pnl_step1_r(p), exposure_r(p));
    assert(1 <= pnl_step1_r(p).d * exposure_r(p).d) by (nonlinear_arith)
        requires
            1 <= pnl_step1_r(p).d,
            1 <= exposure_r(p).d,
    ;
    lemma_q_norm(u2);
    lemma_q_sub_cong(pnl_step1_r(p), exposure_r(p), i1, q_exposure(p));
    lemma_q_eq_trans(q_norm(u2), u2, q_sub(i1, q_exposure(p)));
    let i2 = q_sub(i1, q_exposure(p));
    assert(1 <= i1.d * q_exposure(p).d) by (nonlinear_arith)
        requires
            1 <= i1.d,
            1 <= q_exposure(p).d,
    ;
    let u3 = q_sub(pnl_step2_r(p), ac);
    assert(1 <= pnl_step2_r(p).d * ac.d) by (nonlinear_arith)
        requires
            1 <= pnl_step2_r(p).d,
            1 <= ac.d,
    ;
    lemma_q_norm(u3);
    lemma_q_sub_cong(pnl_step2_r(p), ac, i2, ac);
    lemma_q_eq_trans(q_norm(u3), u3, q_sub(i2, ac));
    assert(1 <= i2.d * ac.d) by (nonlinear_arith)
        requires
            1 <= i2.d,
            1 <= ac.d,
    ;
}

/// The revenue/cost/exposure/pnl breakdown of a position.
pub fn calculate_pnl(position: &AssetPosition) -> (r: Option<PnLResult>)
    ensures
        pnl_post(*position, r),
{
    let sell: Rat = position.sell_price;
    let buy: Rat = position.buy_price;
    let cv: Rat = position.contracted_volume;
    let mp: Rat = position.market_price;
    let ac: Rat = position.additional_costs;
    proof {
        use_type_invariant(sell);
        use_type_invariant(buy);
        use_type_invariant(cv);
        use_type_invariant(mp);
        use_type_invariant(ac);
    }
    let revenue = match sell.mul(&cv) {
        Some(x) => x,
        None => {
            return None;
        },
    };
    let cost = match buy.mul(&cv) {
        Some(x) => x,
        None => {
            return None;
        },
    };
    let exposure = match position.realized_volume {
        Some(rv) => {
            proof {
                use_type_invariant(rv);
            }
            let d0 = match rv.sub(&cv) {
                Some(x) => x,
                None => {
                    return None;
                },
            };
            match d0.mul(&mp) {
                Some(x) => x,
                None => {
                    return None;
                },
            }
        },
        None => Rat::zero(),
    };
    let s1 = match revenue.sub(&cost) {
        Some(x) => x,
        None => {
            return None;
        },
    };
    let s2 = match s1.sub(&exposure) {
        Some(x) => x,
        None => {
            return None;
        },
    };
    let pnl = match s2.sub(&ac) {
        Some(x) => x,
        None => {
            return None;
        },
    };
    proof {
        lemma_pnl(*position);
    }
    Some(PnLResult { revenue, cost, exposure, pnl })
}

/// The breakdown is a function of the position alone: any two results
/// that meet `calculate_pnl`'s contract on the same position are
/// bit-identical.
pub proof fn lemma_pnl_deterministic(p: AssetPosition, r1: Option<PnLResult>, r2: Option<
    PnLResult,
>)
    requires
        pnl_post(p, r1),
        pnl_post(p, r2),
    ensures
        r1 == r2,
{
    match (r1, r2) {
        (Some(a), Some(b)) => {
            lemma_view_inj(a.revenue, b.revenue);
            lemma_view_inj(a.cost, b.cost);
            lemma_view_inj(a.exposure, b.exposure);
            lemma_view_inj(a.pnl, b.pnl);
        },
        _ => {},
    }
}

} // verus!
