//! Folds over series of rationals.
//!
//! Each statistic is specified twice: an *ideal* fold over unbounded
//! fractions (`q_sum`, `q_wsum`, ...) states the mathematical value, and a
//! *reduced* fold (`sum_r`, `wsum_r`, ...) mirrors what the machine
//! computes, reducing every partial result to lowest terms. The lemmas
//! here prove that the two agree (`q_eq`), so contracts can speak of the
//! ideal formula while the executable helpers compute the reduced one.

use crate::rat::{
    fits_i64, lemma_q_add_cong, lemma_q_div_cong, lemma_q_eq_trans, lemma_q_mul_cong, lemma_q_norm,
    lemma_q_sub_cong, q_add, q_div, q_eq, q_int, q_mul, q_norm, q_sub, q_zero, qs, seq_wf, Q, Rat,
};
use vstd::prelude::*;

verus! {

/// Ideal sum of a sequence of fractions.
pub open spec fn q_sum(s: Seq<Q>) -> Q
    decreases s.len(),
{
    if s.len() == 0 {
        q_zero()
    } else {
        q_add(q_sum(s.drop_last()), s.last())
    }
}

/// Ideal sum of pairwise products, `sum p[i] * v[i]`.
pub open spec fn q_wsum(ps: Seq<Q>, vs: Seq<Q>) -> Q
    decreases ps.len(),
{
    if ps.len() == 0 || vs.len() == 0 {
        q_zero()
    } else {
        q_add(q_wsum(ps.drop_last(), vs.drop_last()), q_mul(ps.last(), vs.last()))
    }
}

/// Ideal sum of squared deviations from `c`, `sum (x[i] - c)^2`.
pub open spec fn q_ssd(s: Seq<Q>, c: Q) -> Q
    decreases s.len(),
{
    if s.len() == 0 {
        q_zero()
    } else {
        q_add(q_ssd(s.drop_last(), c), q_mul(q_sub(s.last(), c), q_sub(s.last(), c)))
    }
}

/// Ideal volume-weighted sum of squared deviations from `c`,
/// `sum v[i] * (x[i] - c)^2`.
pub open spec fn q_wssd(xs: Seq<Q>, vs: Seq<Q>, c: Q) -> Q
    decreases xs.len(),
{
    if xs.len() == 0 || vs.len() == 0 {
        q_zero()
    } else {
        q_add(
            q_wssd(xs.drop_last(), vs.drop_last(), c),
            q_mul(vs.last(), q_mul(q_sub(xs.last(), c), q_sub(xs.last(), c))),
        )
    }
}

/// Ideal midpoint of a bid and an ask, `(b + a) / 2`.
pub open spec fn q_mid(b: Q, a: Q) -> Q {
    q_div(q_add(b, a), q_int(2))
}

/// Ideal midpoints of parallel bid and ask series.
pub open spec fn q_mids(bs: Seq<Q>, asks: Seq<Q>) -> Seq<Q> {
    Seq::new(bs.len(), |i: int| q_mid(bs[i], asks[i]))
}

/// Reduced sum: every partial sum brought to lowest terms.
pub open spec fn sum_r(s: Seq<Q>) -> Q
    decreases s.len(),
{
    if s.len() == 0 {
        q_zero()
    } else {
        q_norm(q_add(sum_r(s.drop_last()), s.last()))
    }
}

/// Whether every reduced partial sum fits the machine word.
pub open spec fn sum_ok(s: Seq<Q>) -> bool
    decreases s.len(),
{
    if s.len() == 0 {
        true
    } else {
        sum_ok(s.drop_last()) && fits_i64(q_norm(q_add(sum_r(s.drop_last()), s.last())))
    }
}

/// Reduced sum of pairwise products.
pub open spec fn wsum_r(ps: Seq<Q>, vs: Seq<Q>) -> Q
    decreases ps.len(),
{
    if ps.len() == 0 || vs.len() == 0 {
        q_zero()
    } else {
        q_norm(
            q_add(
                wsum_r(ps.drop_last(), vs.drop_last()),
                q_norm(q_mul(ps.last(), vs.last())),
            ),
        )
    }
}

/// Whether every step of the reduced product sum fits the machine word.
pub open spec fn wsum_ok(ps: Seq<Q>, vs: Seq<Q>) -> bool
    decreases ps.len(),
{
    if ps.len() == 0 || vs.len() == 0 {
        true
    } else {
        &&& wsum_ok(ps.drop_last(), vs.drop_last())
        &&& fits_i64(q_norm(q_mul(ps.last(), vs.last())))
        &&& fits_i64(
            q_norm(
                q_add(
                    wsum_r(ps.drop_last(), vs.drop_last()),
                    q_norm(q_mul(ps.last(), vs.last())),
                ),
            ),
        )
    }
}

/// One reduced step of the squared-deviation sum.
pub open spec fn sq_dev_r(x: Q, c: Q) -> Q {
    q_norm(q_mul(q_norm(q_sub(x, c)), q_norm(q_sub(x, c))))
}

pub open spec fn sq_dev_ok(x: Q, c: Q) -> bool {
    fits_i64(q_norm(q_sub(x, c))) && fits_i64(sq_dev_r(x, c))
}

/// Reduced sum of squared deviations from `c`.
pub open spec fn ssd_r(s: Seq<Q>, c: Q) -> Q
    decreases s.len(),
{
    if s.len() == 0 {
        q_zero()
    } else {
        q_norm(q_add(ssd_r(s.drop_last(), c), sq_dev_r(s.last(), c)))
    }
}

pub open spec fn ssd_ok(s: Seq<Q>, c: Q) -> bool
    decreases s.len(),
{
    if s.len() == 0 {
        true
    } else {
        &&& ssd_ok(s.drop_last(), c)
        &&& sq_dev_ok(s.last(), c)
        &&& fits_i64(q_norm(q_add(ssd_r(s.drop_last(), c), sq_dev_r(s.last(), c))))
    }
}

/// One reduced step of the weighted squared-deviation sum.
pub open spec fn wsq_dev_r(x: Q, v: Q, c: Q) -> Q {
    q_norm(q_mul(v, sq_dev_r(x, c)))
}

pub open spec fn wsq_dev_ok(x: Q, v: Q, c: Q) -> bool {
    sq_dev_ok(x, c) && fits_i64(wsq_dev_r(x, v, c))
}

/// Reduced volume-weighted sum of squared deviations from `c`.
pub open spec fn wssd_r(xs: Seq<Q>, vs: Seq<Q>, c: Q) -> Q
    decreases xs.len(),
{
    if xs.len() == 0 || vs.len() == 0 {
        q_zero()
    } else {
        q_norm(
            q_add(
                wssd_r(xs.drop_last(), vs.drop_last(), c),
                wsq_dev_r(xs.last(), vs.last(), c),
            ),
        )
    }
}

pub open spec fn wssd_ok(xs: Seq<Q>, vs: Seq<Q>, c: Q) -> bool
    decreases xs.len(),
{
    if xs.len() == 0 || vs.len() == 0 {
        true
    } else {
        &&& wssd_ok(xs.drop_last(), vs.drop_last(), c)
        &&& wsq_dev_ok(xs.last(), vs.last(), c)
        &&& fits_i64(
            q_norm(
                q_add(
                    wssd_r(xs.drop_last(), vs.drop_last(), c),
                    wsq_dev_r(xs.last(), vs.last(), c),
                ),
            ),
        )
    }
}

/// Reduced midpoint of a bid and an ask.
pub open spec fn mid_r(b: Q, a: Q) -> Q {
    q_norm(q_div(q_norm(q_add(b, a)), q_int(2)))
}

pub open spec fn mid_ok(b: Q, a: Q) -> bool {
    fits_i64(q_norm(q_add(b, a))) && fits_i64(mid_r(b, a))
}

/// Reduced midpoints of parallel bid and ask series.
pub open spec fn mids_r(bs: Seq<Q>, asks: Seq<Q>) -> Seq<Q> {
    Seq::new(bs.len(), |i: int| mid_r(bs[i], asks[i]))
}

pub open spec fn mids_ok(bs: Seq<Q>, asks: Seq<Q>) -> bool {
    forall|i: int| 0 <= i < bs.len() ==> #[trigger] mid_ok(bs[i], asks[i])
}

/// Dropping the last element keeps the series well formed.
pub proof fn lemma_wf_drop(s: Seq<Q>)
    requires
        seq_wf(s),
        1 <= s.len(),
    ensures
        seq_wf(s.drop_last()),
        1 <= s.last().d,
{
    assert forall|i: int| 0 <= i < s.drop_last().len() implies 1 <= #[trigger] s.drop_last()[i].d by {
        assert(s.drop_last()[i] == s[i]);
    }
    assert(1 <= s[s.len() - 1].d);
}

/// The reduced sum equals the ideal sum, and both have positive
/// denominators.
pub proof fn lemma_sum(s: Seq<Q>)
    requires
        seq_wf(s),
    ensures
        1 <= q_sum(s).d,
        1 <= sum_r(s).d,
        q_eq(sum_r(s), q_sum(s)),
    decreases s.len(),
{
    if s.len() != 0 {
        lemma_wf_drop(s);
        let t = s.drop_last();
        let x = s.last();
        lemma_sum(t);
        let u = q_add(sum_r(t), x);
        assert(1 <= sum_r(t).d * x.d) by (nonlinear_arith)
            requires
                1 <= sum_r(t).d,
                1 <= x.d,
        ;
        lemma_q_norm(u);
        lemma_q_add_cong(sum_r(t), x, q_sum(t), x);
        lemma_q_eq_trans(q_norm(u), u, q_add(q_sum(t), x));
        assert(1 <= q_sum(t).d * x.d) by (nonlinear_arith)
            requires
                1 <= q_sum(t).d,
                1 <= x.d,
        ;
    }
}

/// The reduced product sum equals the ideal one.
pub proof fn lemma_wsum(ps: Seq<Q>, vs: Seq<Q>)
    requires
        seq_wf(ps),
        seq_wf(vs),
        ps.len() == vs.len(),
    ensures
        1 <= q_wsum(ps, vs).d,
        1 <= wsum_r(ps, vs).d,
        q_eq(wsum_r(ps, vs), q_wsum(ps, vs)),
    decreases ps.len(),
{
    if ps.len() != 0 {
        lemma_wf_drop(ps);
        lemma_wf_drop(vs);
        let tp = ps.drop_last();
        let tv = vs.drop_last();
        lemma_wsum(tp, tv);
        let p = ps.last();
        let v = vs.last();
        let m = q_mul(p, v);
        assert(1 <= p.d * v.d) by (nonlinear_arith)
            requires
                1 <= p.d,
                1 <= v.d,
        ;
        lemma_q_norm(m);
        let u = q_add(wsum_r(tp, tv), q_norm(m));
        assert(1 <= wsum_r(tp, tv).d * q_norm(m).d) by (nonlinear_arith)
            requires
                1 <= wsum_r(tp, tv).d,
                1 <= q_norm(m).d,
        ;
        lemma_q_norm(u);
        lemma_q_add_cong(wsum_r(tp, tv), q_norm(m), q_wsum(tp, tv), m);
        lemma_q_eq_trans(q_norm(u), u, q_add(q_wsum(tp, tv), m));
        assert(1 <= q_wsum(tp, tv).d * m.d) by (nonlinear_arith)
            requires
                1 <= q_wsum(tp, tv).d,
                1 <= m.d,
        ;
    }
}

/// One reduced squared deviation equals the ideal one.
proof fn lemma_sq_dev(x: Q, c: Q)
    requires
        1 <= x.d,
        1 <= c.d,
    ensures
        1 <= sq_dev_r(x, c).d,
        1 <= q_mul(q_sub(x, c), q_sub(x, c)).d,
        q_eq(sq_dev_r(x, c), q_mul(q_sub(x, c), q_sub(x, c))),
{
    let d0 = q_sub(x, c);
    assert(1 <= x.d * c.d) by (nonlinear_arith)
        requires
            1 <= x.d,
            1 <= c.d,
    ;
    lemma_q_norm(d0);
    let m = q_mul(q_norm(d0), q_norm(d0));
    assert(1 <= q_norm(d0).d * q_norm(d0).d) by (nonlinear_arith)
        requires
            1 <= q_norm(d0).d,
    ;
    lemma_q_norm(m);
    lemma_q_mul_cong(q_norm(d0), q_norm(d0), d0, d0);
    lemma_q_eq_trans(q_norm(m), m, q_mul(d0, d0));
    assert(1 <= d0.d * d0.d) by (nonlinear_arith)
        requires
            1 <= d0.d,
    ;
}

/// The reduced squared-deviation sum equals the ideal one.
pub proof fn lemma_ssd(s: Seq<Q>, c: Q)
    requires
        seq_wf(s),
        1 <= c.d,
    ensures
        1 <= q_ssd(s, c).d,
        1 <= ssd_r(s, c).d,
        q_eq(ssd_r(s, c), q_ssd(s, c)),
    decreases s.len(),
{
    if s.len() != 0 {
        lemma_wf_drop(s);
        let t = s.drop_last();
        let x = s.last();
        lemma_ssd(t, c);
        lemma_sq_dev(x, c);
        let mi = q_mul(q_sub(x, c), q_sub(x, c));
        let u = q_add(ssd_r(t, c), sq_dev_r(x, c));
        assert(1 <= ssd_r(t, c).d * sq_dev_r(x, c).d) by (nonlinear_arith)
            requires
                1 <= ssd_r(t, c).d,
                1 <= sq_dev_r(x, c).d,
        ;
        lemma_q_norm(u);
        lemma_q_add_cong(ssd_r(t, c), sq_dev_r(x, c), q_ssd(t, c), mi);
        lemma_q_eq_trans(q_norm(u), u, q_add(q_ssd(t, c), mi));
        assert(1 <= q_ssd(t, c).d * mi.d) by (nonlinear_arith)
            requires
                1 <= q_ssd(t, c).d,
                1 <= mi.d,
        ;
    }
}

/// One reduced weighted squared deviation equals the ideal one.
proof fn lemma_wsq_dev(x: Q, v: Q, c: Q)
    requires
        1 <= x.d,
        1 <= v.d,
        1 <= c.d,
    ensures
        1 <= wsq_dev_r(x, v, c).d,
        1 <= q_mul(v, q_mul(q_sub(x, c), q_sub(x, c))).d,
        q_eq(wsq_dev_r(x, v, c), q_mul(v, q_mul(q_sub(x, c), q_sub(x, c)))),
{
    lemma_sq_dev(x, c);
    let mi = q_mul(q_sub(x, c), q_sub(x, c));
    let m = q_mul(v, sq_dev_r(x, c));
    assert(1 <= v.d * sq_dev_r(x, c).d) by (nonlinear_arith)
        requires
            1 <= v.d,
            1 <= sq_dev_r(x, c).d,
    ;
    lemma_q_norm(m);
    lemma_q_mul_cong(v, sq_dev_r(x, c), v, mi);
    lemma_q_eq_trans(q_norm(m), m, q_mul(v, mi));
    assert(1 <= v.d * mi.d) by (nonlinear_arith)
        requires
            1 <= v.d,
            1 <= mi.d,
    ;
}

/// The reduced weighted squared-deviation sum equals the ideal one.
pub proof fn lemma_wssd(xs: Seq<Q>, vs: Seq<Q>, c: Q)
    requires
        seq_wf(xs),
        seq_wf(vs),
        xs.len() == vs.len(),
        1 <= c.d,
    ensures
        1 <= q_wssd(xs, vs, c).d,
        1 <= wssd_r(xs, vs, c).d,
        q_eq(wssd_r(xs, vs, c), q_wssd(xs, vs, c)),
    decreases xs.len(),
{
    if xs.len() != 0 {
        lemma_wf_drop(xs);
        lemma_wf_drop(vs);
        let tx = xs.drop_last();
        let tv = vs.drop_last();
        lemma_wssd(tx, tv, c);
        let x = xs.last();
        let v = vs.last();
        lemma_wsq_dev(x, v, c);
        let mi = q_mul(v, q_mul(q_sub(x, c), q_sub(x, c)));
        let u = q_add(wssd_r(tx, tv, c), wsq_dev_r(x, v, c));
        assert(1 <= wssd_r(tx, tv, c).d * wsq_dev_r(x, v, c).d) by (nonlinear_arith)
            requires
                1 <= wssd_r(tx, tv, c).d,
                1 <= wsq_dev_r(x, v, c).d,
        ;
        lemma_q_norm(u);
        lemma_q_add_cong(wssd_r(tx, tv, c), wsq_dev_r(x, v, c), q_wssd(tx, tv, c), mi);
        lemma_q_eq_trans(q_norm(u), u, q_add(q_wssd(tx, tv, c), mi));
        assert(1 <= q_wssd(tx, tv, c).d * mi.d) by (nonlinear_arith)
            requires
                1 <= q_wssd(tx, tv, c).d,
                1 <= mi.d,
        ;
    }
}

/// The ideal squared-deviation sum respects `q_eq` in its centre.
pub proof fn lemma_ssd_center(s: Seq<Q>, c: Q, c2: Q)
    requires
        q_eq(c, c2),
    ensures
        q_eq(q_ssd(s, c), q_ssd(s, c2)),
    decreases s.len(),
{
    if s.len() != 0 {
        let t = s.drop_last();
        let x = s.last();
        lemma_ssd_center(t, c, c2);
        lemma_q_sub_cong(x, c, x, c2);
        lemma_q_mul_cong(q_sub(x, c), q_sub(x, c), q_sub(x, c2), q_sub(x, c2));
        lemma_q_add_cong(
            q_ssd(t, c),
            q_mul(q_sub(x, c), q_sub(x, c)),
            q_ssd(t, c2),
            q_mul(q_sub(x, c2), q_sub(x, c2)),
        );
    }
}

/// The ideal weighted squared-deviation sum respects `q_eq` in its
/// centre and pointwise in its value series.
pub proof fn lemma_wssd_cong(xs: Seq<Q>, xs2: Seq<Q>, vs: Seq<Q>, c: Q, c2: Q)
    requires
        xs.len() == vs.len(),
        xs2.len() == vs.len(),
        forall|i: int| 0 <= i < xs.len() ==> q_eq(#[trigger] xs[i], xs2[i]),
        q_eq(c, c2),
    ensures
        q_eq(q_wssd(xs, vs, c), q_wssd(xs2, vs, c2)),
    decreases xs.len(),
{
    if xs.len() != 0 {
        let tx = xs.drop_last();
        let tx2 = xs2.drop_last();
        let tv = vs.drop_last();
        assert forall|i: int| 0 <= i < tx.len() implies q_eq(#[trigger] tx[i], tx2[i]) by {
            assert(tx[i] == xs[i]);
            assert(tx2[i] == xs2[i]);
        }
        lemma_wssd_cong(tx, tx2, tv, c, c2);
        let x = xs.last();
        let x2 = xs2.last();
        let v = vs.last();
        assert(q_eq(x, x2));
        lemma_q_sub_cong(x, c, x2, c2);
        lemma_q_mul_cong(q_sub(x, c), q_sub(x, c), q_sub(x2, c2), q_sub(x2, c2));
        lemma_q_mul_cong(
            v,
            q_mul(q_sub(x, c), q_sub(x, c)),
            v,
            q_mul(q_sub(x2, c2), q_sub(x2, c2)),
        );
        lemma_q_add_cong(
            q_wssd(tx, tv, c),
            q_mul(v, q_mul(q_sub(x, c), q_sub(x, c))),
            q_wssd(tx2, tv, c2),
            q_mul(v, q_mul(q_sub(x2, c2), q_sub(x2, c2))),
        );
    }
}

/// The ideal product sum respects `q_eq` pointwise in its price series.
pub proof fn lemma_wsum_cong(ps: Seq<Q>, ps2: Seq<Q>, vs: Seq<Q>)
    requires
        ps.len() == vs.len(),
        ps2.len() == vs.len(),
        forall|i: int| 0 <= i < ps.len() ==> q_eq(#[trigger] ps[i], ps2[i]),
    ensures
        q_eq(q_wsum(ps, vs), q_wsum(ps2, vs)),
    decreases ps.len(),
{
    if ps.len() != 0 {
        let tp = ps.drop_last();
        let tp2 = ps2.drop_last();
        let tv = vs.drop_last();
        assert forall|i: int| 0 <= i < tp.len() implies q_eq(#[trigger] tp[i], tp2[i]) by {
            assert(tp[i] == ps[i]);
            assert(tp2[i] == ps2[i]);
        }
        lemma_wsum_cong(tp, tp2, tv);
        assert(q_eq(ps.last(), ps2.last()));
        lemma_q_mul_cong(ps.last(), vs.last(), ps2.last(), vs.last());
        lemma_q_add_cong(
            q_wsum(tp, tv),
            q_mul(ps.last(), vs.last()),
            q_wsum(tp2, tv),
            q_mul(ps2.last(), vs.last()),
        );
    }
}

/// The reduced midpoint equals the ideal midpoint.
pub proof fn lemma_mid(b: Q, a: Q)
    requires
        1 <= b.d,
        1 <= a.d,
    ensures
        1 <= mid_r(b, a).d,
        1 <= q_mid(b, a).d,
        q_eq(mid_r(b, a), q_mid(b, a)),
{
    let u = q_add(b, a);
    assert(1 <= b.d * a.d) by (nonlinear_arith)
        requires
            1 <= b.d,
            1 <= a.d,
    ;
    lemma_q_norm(u);
    let w = q_div(q_norm(u), q_int(2));
    assert(w.d == q_norm(u).d * 2);
    assert(1 <= q_norm(u).d * 2) by (nonlinear_arith)
        requires
            1 <= q_norm(u).d,
    ;
    lemma_q_norm(w);
    lemma_q_div_cong(q_norm(u), q_int(2), u, q_int(2));
    lemma_q_eq_trans(q_norm(w), w, q_div(u, q_int(2)));
    assert(1 <= u.d * 2) by (nonlinear_arith)
        requires
            1 <= u.d,
    ;
}

/// Reduced midpoints are well formed and equal the ideal midpoints.
pub proof fn lemma_mids(bs: Seq<Q>, asks: Seq<Q>)
    requires
        seq_wf(bs),
        seq_wf(asks),
        bs.len() == asks.len(),
    ensures
        seq_wf(mids_r(bs, asks)),
        seq_wf(q_mids(bs, asks)),
        forall|i: int|
            0 <= i < bs.len() ==> q_eq(#[trigger] mids_r(bs, asks)[i], q_mids(bs, asks)[i]),
{
    assert forall|i: int|
        0 <= i < bs.len() implies (1 <= #[trigger] mids_r(bs, asks)[i].d && q_eq(
            mids_r(bs, asks)[i],
            q_mids(bs, asks)[i],
        )) by {
        assert(1 <= bs[i].d);
        assert(1 <= asks[i].d);
        lemma_mid(bs[i], asks[i]);
    }
    assert forall|i: int| 0 <= i < q_mids(bs, asks).len() implies 1 <= #[trigger] q_mids(
        bs,
        asks,
    )[i].d by {
        assert(1 <= bs[i].d);
        assert(1 <= asks[i].d);
        lemma_mid(bs[i], asks[i]);
    }
}

/// Sum of the rationals in a vector; `None` exactly when some reduced
/// partial sum leaves the machine word.
pub fn sum_rats(values: &Vec<Rat>) -> (r: Option<Rat>)
    ensures
        r is Some <==> sum_ok(qs(values@)),
        r matches Some(c) ==> c@ == sum_r(qs(values@)),
        r is Some ==> seq_wf(qs(values@)),
{
    let ghost s: Seq<Q> = qs(values@);
    let mut acc: Option<Rat> = Some(Rat::zero());
    let mut i: usize = 0;
    while i < values.len()
        invariant
            i <= values@.len(),
            s == qs(values@),
            forall|j: int| 0 <= j < i ==> 1 <= #[trigger] s[j].d,
            match acc {
                Some(a) => sum_ok(s.subrange(0, i as int)) && a@ == sum_r(s.subrange(0, i as int)),
                None => !sum_ok(s.subrange(0, i as int)),
            },
        decreases values@.len() - i,
    {
        let x: Rat = values[i];
        proof {
            use_type_invariant(x);
            assert(s[i as int] == x@);
        }
        acc = match acc {
            Some(a) => a.add(&x),
            None => None,
        };
        proof {
            assert(s.subrange(0, (i + 1) as int).drop_last() =~= s.subrange(0, i as int));
            assert(s.subrange(0, (i + 1) as int).last() == s[i as int]);
        }
        i = i + 1;
    }
    proof {
        assert(s.subrange(0, values@.len() as int) =~= s);
    }
    acc
}

/// Sum of the pairwise products of two equally long vectors; `None`
/// exactly when a reduced step leaves the machine word.
pub fn sum_products(ps: &Vec<Rat>, vs: &Vec<Rat>) -> (r: Option<Rat>)
    requires
        ps@.len() == vs@.len(),
    ensures
        r is Some <==> wsum_ok(qs(ps@), qs(vs@)),
        r matches Some(c) ==> c@ == wsum_r(qs(ps@), qs(vs@)),
        r is Some ==> seq_wf(qs(ps@)) && seq_wf(qs(vs@)),
{
    let ghost sp: Seq<Q> = qs(ps@);
    let ghost sv: Seq<Q> = qs(vs@);
    let mut acc: Option<Rat> = Some(Rat::zero());
    let mut i: usize = 0;
    while i < ps.len()
        invariant
            i <= ps@.len(),
            ps@.len() == vs@.len(),
            sp == qs(ps@),
            sv == qs(vs@),
            forall|j: int| 0 <= j < i ==> 1 <= #[trigger] sp[j].d,
            forall|j: int| 0 <= j < i ==> 1 <= #[trigger] sv[j].d,
            match acc {
                Some(a) => wsum_ok(sp.subrange(0, i as int), sv.subrange(0, i as int))
                    && a@ == wsum_r(sp.subrange(0, i as int), sv.subrange(0, i as int)),
                None => !wsum_ok(sp.subrange(0, i as int), sv.subrange(0, i as int)),
            },
        decreases ps@.len() - i,
    {
        let p: Rat = ps[i];
        let v: Rat = vs[i];
        proof {
            use_type_invariant(p);
            use_type_invariant(v);
            assert(sp[i as int] == p@);
            assert(sv[i as int] == v@);
        }
        acc = match acc {
            Some(a) => match p.mul(&v) {
                Some(t) => a.add(&t),
                None => None,
            },
            None => None,
        };
        proof {
            assert(sp.subrange(0, (i + 1) as int).drop_last() =~= sp.subrange(0, i as int));
            assert(sv.subrange(0, (i + 1) as int).drop_last() =~= sv.subrange(0, i as int));
            assert(sp.subrange(0, (i + 1) as int).last() == sp[i as int]);
            assert(sv.subrange(0, (i + 1) as int).last() == sv[i as int]);
        }
        i = i + 1;
    }
    proof {
        assert(sp.subrange(0, ps@.len() as int) =~= sp);
        assert(sv.subrange(0, vs@.len() as int) =~= sv);
    }
    acc
}

/// Sum of squared deviations from `c`; `None` exactly when a reduced
/// step leaves the machine word.
pub fn sum_sq_devs(values: &Vec<Rat>, c: &Rat) -> (r: Option<Rat>)
    ensures
        r is Some <==> ssd_ok(qs(values@), c@),
        r matches Some(o) ==> o@ == ssd_r(qs(values@), c@),
        r is Some ==> seq_wf(qs(values@)),
{
    let ghost s: Seq<Q> = qs(values@);
    let mut acc: Option<Rat> = Some(Rat::zero());
    let mut i: usize = 0;
    while i < values.len()
        invariant
            i <= values@.len(),
            s == qs(values@),
            forall|j: int| 0 <= j < i ==> 1 <= #[trigger] s[j].d,
            match acc {
                Some(a) => ssd_ok(s.subrange(0, i as int), c@)
                    && a@ == ssd_r(s.subrange(0, i as int), c@),
                None => !ssd_ok(s.subrange(0, i as int), c@),
            },
        decreases values@.len() - i,
    {
        let x: Rat = values[i];
        proof {
            use_type_invariant(x);
            assert(s[i as int] == x@);
        }
        acc = match acc {
            Some(a) => match x.sub(c) {
                Some(d0) => match d0.mul(&d0) {
                    Some(t) => a.add(&t),
                    None => None,
                },
                None => None,
            },
            None => None,
        };
        proof {
            assert(s.subrange(0, (i + 1) as int).drop_last() =~= s.subrange(0, i as int));
            assert(s.subrange(0, (i + 1) as int).last() == s[i as int]);
        }
        i = i + 1;
    }
    proof {
        assert(s.subrange(0, values@.len() as int) =~= s);
    }
    acc
}

/// Volume-weighted sum of squared deviations from `c`; `None` exactly
/// when a reduced step leaves the machine word.
pub fn sum_wsq_devs(xs: &Vec<Rat>, vs: &Vec<Rat>, c: &Rat) -> (r: Option<Rat>)
    requires
        xs@.len() == vs@.len(),
    ensures
        r is Some <==> wssd_ok(qs(xs@), qs(vs@), c@),
        r matches Some(o) ==> o@ == wssd_r(qs(xs@), qs(vs@), c@),
        r is Some ==> seq_wf(qs(xs@)) && seq_wf(qs(vs@)),
{
    let ghost sx: Seq<Q> = qs(xs@);
    let ghost sv: Seq<Q> = qs(vs@);
    let mut acc: Option<Rat> = Some(Rat::zero());
    let mut i: usize = 0;
    while i < xs.len()
        invariant
            i <= xs@.len(),
            xs@.len() == vs@.len(),
            sx == qs(xs@),
            sv == qs(vs@),
            forall|j: int| 0 <= j < i ==> 1 <= #[trigger] sx[j].d,
            forall|j: int| 0 <= j < i ==> 1 <= #[trigger] sv[j].d,
            match acc {
                Some(a) => wssd_ok(sx.subrange(0, i as int), sv.subrange(0, i as int), c@)
                    && a@ == wssd_r(sx.subrange(0, i as int), sv.subrange(0, i as int), c@),
                None => !wssd_ok(sx.subrange(0, i as int), sv.subrange(0, i as int), c@),
            },
        decreases xs@.len() - i,
    {
        let x: Rat = xs[i];
        let v: Rat = vs[i];
        proof {
            use_type_invariant(x);
            use_type_invariant(v);
            assert(sx[i as int] == x@);
            assert(sv[i as int] == v@);
        }
        acc = match acc {
            Some(a) => match x.sub(c) {
                Some(d0) => match d0.mul(&d0) {
                    Some(sq) => match v.mul(&sq) {
                        Some(t) => a.add(&t),
                        None => None,
                    },
                    None => None,
                },
                None => None,
            },
            None => None,
        };
        proof {
            assert(sx.subrange(0, (i + 1) as int).drop_last() =~= sx.subrange(0, i as int));
            assert(sv.subrange(0, (i + 1) as int).drop_last() =~= sv.subrange(0, i as int));
            assert(sx.subrange(0, (i + 1) as int).last() == sx[i as int]);
            assert(sv.subrange(0, (i + 1) as int).last() == sv[i as int]);
        }
        i = i + 1;
    }
    proof {
        assert(sx.subrange(0, xs@.len() as int) =~= sx);
        assert(sv.subrange(0, vs@.len() as int) =~= sv);
    }
    acc
}

/// The per-index midpoints `(bid + ask) / 2` of two equally long
/// vectors; `None` exactly when some reduced midpoint leaves the machine
/// word.
pub fn mid_prices(bids: &Vec<Rat>, asks: &Vec<Rat>) -> (r: Option<Vec<Rat>>)
    requires
        bids@.len() == asks@.len(),
    ensures
        r is Some <==> mids_ok(qs(bids@), qs(asks@)),
        r matches Some(m) ==> qs(m@) == mids_r(qs(bids@), qs(asks@)),
        r is Some ==> seq_wf(qs(bids@)) && seq_wf(qs(asks@)),
{
    let ghost sb: Seq<Q> = qs(bids@);
    let ghost sa: Seq<Q> = qs(asks@);
    let two: Rat = Rat::from_int(2);
    let mut out: Vec<Rat> = Vec::new();
    let mut i: usize = 0;
    while i < bids.len()
        invariant
            i <= bids@.len(),
            bids@.len() == asks@.len(),
            sb == qs(bids@),
            sa == qs(asks@),
            two@ == q_int(2),
            forall|j: int| 0 <= j < i ==> 1 <= #[trigger] sb[j].d,
            forall|j: int| 0 <= j < i ==> 1 <= #[trigger] sa[j].d,
            out@.len() == i,
            forall|j: int| 0 <= j < i ==> #[trigger] out@[j]@ == mid_r(sb[j], sa[j]),
            forall|j: int| 0 <= j < i ==> mid_ok(#[trigger] sb[j], sa[j]),
        decreases bids@.len() - i,
    {
        let b: Rat = bids[i];
        let a: Rat = asks[i];
        proof {
            use_type_invariant(b);
            use_type_invariant(a);
            assert(sb[i as int] == b@);
            assert(sa[i as int] == a@);
        }
        let su: Rat = match b.add(&a) {
            Some(su) => su,
            None => {
                proof {
                    assert(!mid_ok(sb[i as int], sa[i as int]));
                }
                return None;
            },
        };
        let m: Rat = match su.div(&two) {
            Some(m) => m,
            None => {
                proof {
                    assert(!mid_ok(sb[i as int], sa[i as int]));
                }
                return None;
            },
        };
        out.push(m);
        i = i + 1;
    }
    proof {
        assert(qs(out@) =~= mids_r(sb, sa));
    }
    Some(out)
}

} // verus!
