//! Laws of the purchase engine that span several calls: serialized
//! purchases conserve stock and never drive it negative, and repeated
//! purchases of the same goods in the same month accumulate in a
//! single consumption record.

use vstd::prelude::*;

use crate::dates::YearMonth;
use crate::model::ConsumptionRecord;
use crate::model::Store;
use crate::model::cons_amount;
use crate::model::key_matches;
use crate::purchase::LineItem;
use crate::purchase::PurchaseOutcome;
use crate::purchase::lemma_requested_bounds;
use crate::purchase::mentions;
use crate::purchase::purchase_post;
use crate::purchase::requested;
use crate::purchase::subtotal;

verus! {

/// The goods row with a known position: the row at `w` carrying id `g`
/// is the row every `goods_of(g)` lookup lands on.
proof fn lemma_goods_index_at(s: Store, w: int, g: i64)
    requires
        s.wf(),
        0 <= w < s.goods@.len(),
        s.goods@[w].id == g,
    ensures
        s.has_goods(g),
        s.goods_index(g) == w,
{
    assert forall|i: int|
        0 <= i < s.goods@.len() && (#[trigger] s.goods@[i].id) == g implies i == w by {
        if i < w {
            assert(s.goods@[i].id < s.goods@[w].id);
        } else if w < i {
            assert(s.goods@[w].id < s.goods@[i].id);
        }
    }
}

/// A ledger of positive records holds a non-negative amount for every
/// cell.
proof fn lemma_cons_amount_nonneg(s: Seq<ConsumptionRecord>, a: i64, m: YearMonth, g: i64)
    ensures
        cons_amount(s, a, m, g) >= 0,
    decreases s.len(),
{
    if s.len() > 0 {
        lemma_cons_amount_nonneg(s.drop_last(), a, m, g);
    }
}

/// One successful purchase of a single line of `q` units of goods
/// `g`, as the purchase engine specifies it.
#[verifier::opaque]
pub open spec fn successful_single_purchase(
    pre: Store,
    post: Store,
    buyer: i64,
    m: YearMonth,
    g: i64,
    q: i32,
) -> bool {
    purchase_post(
        pre,
        post,
        Ok(PurchaseOutcome::Success),
        buyer,
        seq![LineItem { goods_id: g, quantity: q }],
        m,
    )
}

/// Law: one successful single-line purchase of `q` units of goods `g`
/// moves that goods' stock down by exactly `q`, keeps its id in place,
/// and leaves the new stock non-negative.
pub proof fn lemma_purchase_decrements_stock(
    pre: Store,
    post: Store,
    buyer: i64,
    g: i64,
    q: i32,
    m: YearMonth,
)
    requires
        pre.wf(),
        successful_single_purchase(pre, post, buyer, m, g, q),
    ensures
        pre.has_goods(g),
        post.has_goods(g),
        pre.goods_of(g).stock >= q,
        post.goods_of(g).stock == pre.goods_of(g).stock - q,
        post.goods_of(g).stock >= 0,
        post.goods_of(g).id == g,
        post.goods_of(g).price == pre.goods_of(g).price,
{
    reveal(successful_single_purchase);
    let items = seq![LineItem { goods_id: g, quantity: q }];
    assert(purchase_post(pre, post, Ok(PurchaseOutcome::Success), buyer, items, m));
    assert(items[0].goods_id == g);
    assert(mentions(items, g));
    assert(items.drop_last() =~= Seq::<LineItem>::empty());
    assert(items.last() == LineItem { goods_id: g, quantity: q });
    assert(requested(Seq::<LineItem>::empty(), g) == 0);
    assert(requested(items, g) == q);
    let w = pre.goods_index(g);
    assert(0 <= w < pre.goods@.len() && pre.goods@[w].id == g);
    assert(post.goods@[w] == (crate::model::Goods {
        stock: (pre.goods@[w].stock - requested(items, pre.goods@[w].id)) as i64,
        ..pre.goods@[w]
    }));
    lemma_goods_index_at(post, w, g);
}

/// Law: any serialized run of successful single-line purchases of `q`
/// units of goods `g` ends with stock lower by `q` per purchase, and
/// no state of the run shows a negative stock. In particular, a run of
/// `n` purchases against an initial stock of `n * q` ends at exactly
/// zero, whatever the buyers and months are.
#[verifier::rlimit(100)]
pub proof fn lemma_serialized_purchases_drain_stock(
    trace: Seq<Store>,
    buyers: Seq<i64>,
    months: Seq<YearMonth>,
    g: i64,
    q: i32,
)
    requires
        trace.len() >= 1,
        buyers.len() == trace.len() - 1,
        months.len() == trace.len() - 1,
        trace[0].wf(),
        trace[0].has_goods(g),
        forall|i: int|
            0 <= i < trace.len() - 1 ==> successful_single_purchase(
                #[trigger] trace[i],
                trace[i + 1],
                buyers[i],
                months[i],
                g,
                q,
            ),
    ensures
        forall|i: int|
            0 <= i < trace.len() ==> (#[trigger] trace[i]).has_goods(g) && trace[i].goods_of(
                g,
            ).stock == trace[0].goods_of(g).stock - i * q && trace[i].goods_of(g).stock >= 0,
    decreases trace.len(),
{
    if trace.len() == 1 {
        assert(trace[0].goods_of(g).stock >= 0) by {
            let w = trace[0].goods_index(g);
            assert(trace[0].goods@[w].wf());
        }
    } else {
        let front = trace.drop_last();
        let n = trace.len() - 1;
        assert(front[0] == trace[0]);
        assert(forall|i: int| 0 <= i < front.len() ==> (#[trigger] front[i]) == trace[i]);
        lemma_serialized_purchases_drain_stock(
            front,
            buyers.take(n - 1),
            months.take(n - 1),
            g,
            q,
        );
        assert(trace[n - 1].wf()) by {
            if n - 1 == 0 {
            } else {
                assert(successful_single_purchase(
                    trace[n - 2],
                    trace[n - 1],
                    buyers[n - 2],
                    months[n - 2],
                    g,
                    q,
                ));
                reveal(successful_single_purchase);
            }
        }
        lemma_purchase_decrements_stock(trace[n - 1], trace[n], buyers[n - 1], g, q, months[n - 1]);
        assert(trace[n].goods_of(g).stock == trace[0].goods_of(g).stock - n * q) by {
            assert(front[n - 1] == trace[n - 1]);
            assert(front[n - 1].has_goods(g) && front[n - 1].goods_of(g).stock == front[0].goods_of(
                g,
            ).stock - (n - 1) * q);
            assert(trace[n - 1].goods_of(g).stock == trace[0].goods_of(g).stock - (n - 1) * q);
            assert((n - 1) * q + q == n * q) by (nonlinear_arith);
        }
        assert forall|i: int| 0 <= i < trace.len() implies (#[trigger] trace[i]).has_goods(g)
            && trace[i].goods_of(g).stock == trace[0].goods_of(g).stock - i * q && trace[i].goods_of(
            g,
        ).stock >= 0 by {
            if i < n {
                assert(front[i] == trace[i]);
            }
        }
    }
}

/// Law: two successful purchases by the same account, in the same
/// month, both ordering goods `g`, leave exactly one consumption
/// record for that (account, month, goods) cell, and its amount is the
/// cell's starting amount plus both purchases' subtotals for `g` — not
/// two records.
pub proof fn lemma_upsert_accumulates(
    s0: Store,
    s1: Store,
    s2: Store,
    buyer: i64,
    items1: Seq<LineItem>,
    items2: Seq<LineItem>,
    m: YearMonth,
    g: i64,
)
    requires
        s0.wf(),
        purchase_post(s0, s1, Ok(PurchaseOutcome::Success), buyer, items1, m),
        purchase_post(s1, s2, Ok(PurchaseOutcome::Success), buyer, items2, m),
        mentions(items1, g),
        mentions(items2, g),
    ensures
        cons_amount(s2.consumption@, buyer, m, g) == cons_amount(s0.consumption@, buyer, m, g)
            + subtotal(s0, items1, g) + subtotal(s1, items2, g),
        exists|i: int|
            0 <= i < s2.consumption@.len() && key_matches(#[trigger] s2.consumption@[i], buyer, m, g)
                && s2.consumption@[i].amount == cons_amount(s2.consumption@, buyer, m, g),
        forall|i: int, j: int|
            0 <= i < j < s2.consumption@.len() && key_matches(#[trigger] s2.consumption@[i], buyer, m, g)
                ==> !key_matches(#[trigger] s2.consumption@[j], buyer, m, g),
{
    assert(cons_amount(s1.consumption@, buyer, m, g) == cons_amount(s0.consumption@, buyer, m, g)
        + subtotal(s0, items1, g));
    assert(cons_amount(s2.consumption@, buyer, m, g) == cons_amount(s1.consumption@, buyer, m, g)
        + subtotal(s1, items2, g));
    assert(subtotal(s0, items1, g) > 0) by {
        let w = s0.goods_index(g);
        assert(s0.goods@[w].wf());
        lemma_requested_bounds(items1, g);
        let p = s0.goods_of(g).price as int;
        let rq = requested(items1, g);
        assert(p * rq > 0) by (nonlinear_arith)
            requires
                p > 0,
                rq > 0,
        ;
    }
    lemma_cons_amount_nonneg(s0.consumption@, buyer, m, g);
    assert(cons_amount(s2.consumption@, buyer, m, g) > 0) by {
        assert(subtotal(s1, items2, g) >= 0) by {
            let w = s1.goods_index(g);
            assert(s1.goods@[w].wf());
            lemma_requested_bounds(items2, g);
            let p = s1.goods_of(g).price as int;
            let rq = requested(items2, g);
            assert(p * rq >= 0) by (nonlinear_arith)
                requires
                    p >= 0,
                    rq >= 0,
            ;
        }
    }
    assert(exists|i: int|
        0 <= i < s2.consumption@.len() && key_matches(#[trigger] s2.consumption@[i], buyer, m, g))
        by {
        if forall|i: int|
            0 <= i < s2.consumption@.len() ==> !key_matches(
                #[trigger] s2.consumption@[i],
                buyer,
                m,
                g,
            ) {
            crate::model::lemma_cons_amount_no_match(s2.consumption@, buyer, m, g);
        }
    }
    let w = choose|i: int|
        0 <= i < s2.consumption@.len() && key_matches(#[trigger] s2.consumption@[i], buyer, m, g);
    assert forall|i: int|
        0 <= i < s2.consumption@.len() && i != w implies !key_matches(
        #[trigger] s2.consumption@[i],
        buyer,
        m,
        g,
    ) by {
        if i < w {
            assert(!crate::model::same_key(s2.consumption@[i], s2.consumption@[w]));
        } else {
            assert(!crate::model::same_key(s2.consumption@[w], s2.consumption@[i]));
        }
    }
    crate::model::lemma_cons_amount_unique_match(s2.consumption@, w, buyer, m, g);
}

} // verus!
