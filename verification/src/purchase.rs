//! The purchase transaction engine: atomically checks and decrements
//! stock across all ordered goods, checks and decrements the customer
//! balance, and accumulates per-month consumption records — or leaves
//! the store exactly as it was.
//!
//! Line items are coalesced by goods id (the ledger key is per goods,
//! not per line) and handled in ascending id order, the order in which
//! a row-locking backend would have to take its locks.

use vstd::prelude::*;

use crate::dates::YearMonth;
use crate::model::Account;
use crate::model::ConsumptionRecord;
use crate::model::Goods;
use crate::model::Role;
use crate::model::Store;
use crate::model::cons_amount;
use crate::model::key_matches;
use crate::model::same_key;

verus! {

/// One (goods, quantity) pair of a purchase request.
#[derive(Clone, Copy, PartialEq, Eq, Structural, Debug)]
pub struct LineItem {
    pub goods_id: i64,
    pub quantity: i32,
}

/// The three business answers of a purchase that passed validation.
#[derive(Clone, Copy, PartialEq, Eq, Structural, Debug)]
pub enum PurchaseOutcome {
    /// Everything was applied.
    Success,
    /// Some goods' stock is short of what the order asks; nothing was
    /// applied.
    InsufficientStock,
    /// The balance is short of the order total; nothing was applied.
    InsufficientBalance,
}

/// How a purchase fails outright; in every case nothing was applied.
#[derive(Clone, Copy, PartialEq, Eq, Structural, Debug)]
pub enum PurchaseError {
    /// The order has no line items.
    EmptyOrder,
    /// Some line item's quantity is zero or negative.
    NonPositiveQuantity,
    /// Some ordered goods id is not in the catalog.
    GoodsNotFound,
    /// No customer account has the given id.
    CustomerNotFound,
    /// A subtotal, the order total or an accumulated consumption
    /// amount would not fit its field.
    AmountOverflow,
}

/// Every line item asks for a positive quantity.
pub open spec fn qty_ok(items: Seq<LineItem>) -> bool {
    forall|i: int| 0 <= i < items.len() ==> (#[trigger] items[i]).quantity > 0
}

/// Some line item names this goods id.
pub open spec fn mentions(items: Seq<LineItem>, g: i64) -> bool {
    exists|i: int| 0 <= i < items.len() && (#[trigger] items[i]).goods_id == g
}

/// The total quantity the order requests of one goods id, over all its
/// line items.
pub open spec fn requested(items: Seq<LineItem>, g: i64) -> int
    decreases items.len(),
{
    if items.len() == 0 {
        0
    } else {
        requested(items.drop_last(), g) + if items.last().goods_id == g {
            items.last().quantity as int
        } else {
            0int
        }
    }
}

/// The order total: the sum over all line items of unit price times
/// quantity (meaningful when every named goods exists).
pub open spec fn order_total(s: Store, items: Seq<LineItem>) -> int
    decreases items.len(),
{
    if items.len() == 0 {
        0
    } else {
        order_total(s, items.drop_last()) + s.goods_of(items.last().goods_id).price
            * items.last().quantity
    }
}

/// What the order spends on one goods id: unit price times total
/// requested quantity.
pub open spec fn subtotal(s: Store, items: Seq<LineItem>, g: i64) -> int {
    s.goods_of(g).price * requested(items, g)
}

/// The goods row exists and its stock covers the order's total
/// request for it.
pub open spec fn line_ok(s: Store, items: Seq<LineItem>, g: i64) -> bool {
    s.has_goods(g) && s.goods_of(g).stock >= requested(items, g)
}

/// Every goods id the order names exists with sufficient stock.
pub open spec fn all_lines_ok(s: Store, items: Seq<LineItem>) -> bool {
    forall|g: i64| #[trigger] mentions(items, g) ==> line_ok(s, items, g)
}

/// Walking the ordered goods ids in ascending order, the first failure
/// is a missing goods row.
pub open spec fn stops_at_missing(s: Store, items: Seq<LineItem>) -> bool {
    exists|g: i64|
        #[trigger] mentions(items, g) && !s.has_goods(g) && (forall|g2: i64|
            #[trigger] mentions(items, g2) && g2 < g ==> line_ok(s, items, g2))
}

/// Walking the ordered goods ids in ascending order, the first failure
/// is insufficient stock.
pub open spec fn stops_at_stock(s: Store, items: Seq<LineItem>) -> bool {
    exists|g: i64|
        #[trigger] mentions(items, g) && s.has_goods(g) && s.goods_of(g).stock < requested(
            items,
            g,
        ) && (forall|g2: i64| #[trigger] mentions(items, g2) && g2 < g ==> line_ok(s, items, g2))
}

/// Some amount of the order does not fit a money field: a per-goods
/// subtotal, the accumulated consumption it would produce, or the
/// order total.
pub open spec fn overflow_hit(s: Store, items: Seq<LineItem>, a: i64, m: YearMonth) -> bool {
    ||| exists|g: i64|
        #[trigger] mentions(items, g) && (subtotal(s, items, g) > u64::MAX || cons_amount(
            s.consumption@,
            a,
            m,
            g,
        ) + subtotal(s, items, g) > u64::MAX)
    ||| order_total(s, items) > u64::MAX
}

/// Basic facts about `requested`: it never exceeds one maximal
/// quantity per line, it is positive exactly on the mentioned goods
/// ids (for positive quantities), and zero elsewhere.
pub proof fn lemma_requested_bounds(items: Seq<LineItem>, g: i64)
    ensures
        requested(items, g) <= items.len() * (i32::MAX as int),
        !mentions(items, g) ==> requested(items, g) == 0,
        qty_ok(items) ==> requested(items, g) >= 0,
        (qty_ok(items) && mentions(items, g)) ==> requested(items, g) > 0,
    decreases items.len(),
{
    if items.len() == 0 {
    } else {
        let front = items.drop_last();
        assert(qty_ok(items) ==> qty_ok(front));
        assert(!mentions(items, g) ==> !mentions(front, g));
        lemma_requested_bounds(front, g);
        assert(items.len() * (i32::MAX as int) == front.len() * (i32::MAX as int) + (
        i32::MAX as int)) by (nonlinear_arith)
            requires
                items.len() == front.len() + 1,
        ;
        if qty_ok(items) && mentions(items, g) {
            let w = choose|i: int| 0 <= i < items.len() && (#[trigger] items[i]).goods_id == g;
            if w < items.len() - 1 {
                assert(front[w].goods_id == g);
                assert(mentions(front, g));
            }
        }
    }
}

/// A single line's quantity never exceeds the order's total request
/// for its goods id.
pub proof fn lemma_line_le_requested(items: Seq<LineItem>, k: int)
    requires
        qty_ok(items),
        0 <= k < items.len(),
    ensures
        items[k].quantity <= requested(items, items[k].goods_id),
    decreases items.len(),
{
    let front = items.drop_last();
    assert(qty_ok(front));
    if k == items.len() - 1 {
        lemma_requested_bounds(front, items[k].goods_id);
    } else {
        lemma_line_le_requested(front, k);
    }
}

/// Extending the prefix by one line moves `requested` by that line's
/// quantity on its goods id and nowhere else.
pub proof fn lemma_requested_take_step(items: Seq<LineItem>, k: int, g: i64)
    requires
        0 <= k < items.len(),
    ensures
        requested(items.take(k + 1), g) == requested(items.take(k), g) + if items[k].goods_id
            == g {
            items[k].quantity as int
        } else {
            0int
        },
{
    assert(items.take(k + 1).drop_last() =~= items.take(k));
    assert(items.take(k + 1).last() == items[k]);
}

/// Extending the prefix by one line mentions exactly the previously
/// mentioned ids plus that line's.
pub proof fn lemma_mentions_take_step(items: Seq<LineItem>, k: int)
    requires
        0 <= k < items.len(),
    ensures
        forall|g: i64|
            #[trigger] mentions(items.take(k + 1), g) <==> (mentions(items.take(k), g)
                || items[k].goods_id == g),
{
    assert forall|g: i64| #[trigger] mentions(items.take(k + 1), g) implies (mentions(
        items.take(k),
        g,
    ) || items[k].goods_id == g) by {
        let w = choose|i: int|
            0 <= i < items.take(k + 1).len() && (#[trigger] items.take(k + 1)[i]).goods_id == g;
        if w < k {
            assert(items.take(k)[w].goods_id == g);
        }
    }
    assert forall|g: i64| (mentions(items.take(k), g) || items[k].goods_id == g) implies #[trigger]
        mentions(items.take(k + 1), g) by {
        if mentions(items.take(k), g) {
            let w = choose|i: int|
                0 <= i < items.take(k).len() && (#[trigger] items.take(k)[i]).goods_id == g;
            assert(items.take(k + 1)[w].goods_id == g);
        } else {
            assert(items.take(k + 1)[k].goods_id == g);
        }
    }
}

/// Extending the prefix by one line adds that line's price times
/// quantity to the running total.
pub proof fn lemma_order_total_take_step(s: Store, items: Seq<LineItem>, k: int)
    requires
        0 <= k < items.len(),
    ensures
        order_total(s, items.take(k + 1)) == order_total(s, items.take(k)) + s.goods_of(
            items[k].goods_id,
        ).price * items[k].quantity,
{
    assert(items.take(k + 1).drop_last() =~= items.take(k));
    assert(items.take(k + 1).last() == items[k]);
}

/// With positive quantities, every prefix total is at most the full
/// order total.
pub proof fn lemma_order_total_prefix_le(s: Store, items: Seq<LineItem>, k: int)
    requires
        qty_ok(items),
        0 <= k <= items.len(),
    ensures
        order_total(s, items.take(k)) <= order_total(s, items),
    decreases items.len() - k,
{
    if k == items.len() {
        assert(items.take(k) =~= items);
    } else {
        lemma_order_total_take_step(s, items, k);
        assert(s.goods_of(items[k].goods_id).price * items[k].quantity >= 0) by (nonlinear_arith)
            requires
                s.goods_of(items[k].goods_id).price >= 0,
                items[k].quantity > 0,
        ;
        lemma_order_total_prefix_le(s, items, k + 1);
    }
}

/// When every ordered goods id exists with sufficient stock, neither
/// ascending-order stop condition can hold.
pub proof fn lemma_all_ok_no_stop(s: Store, items: Seq<LineItem>)
    requires
        all_lines_ok(s, items),
    ensures
        !stops_at_missing(s, items),
        !stops_at_stock(s, items),
{
    if stops_at_missing(s, items) {
        let g = choose|g: i64|
            #[trigger] mentions(items, g) && !s.has_goods(g) && (forall|g2: i64|
                #[trigger] mentions(items, g2) && g2 < g ==> line_ok(s, items, g2));
        assert(line_ok(s, items, g));
    }
    if stops_at_stock(s, items) {
        let g = choose|g: i64|
            #[trigger] mentions(items, g) && s.has_goods(g) && s.goods_of(g).stock < requested(
                items,
                g,
            ) && (forall|g2: i64| #[trigger] mentions(items, g2) && g2 < g ==> line_ok(s, items, g2));
        assert(line_ok(s, items, g));
    }
}

/// One coalesced line: a goods id with the order's total request for
/// it. The quantity is kept wide enough that no sum of line quantities
/// can overflow it.
struct CoLine {
    gid: i64,
    qty: u128,
}

/// Coalesces the order's line items by goods id into a list sorted by
/// strictly ascending id, each entry carrying the total requested
/// quantity of its id.
fn coalesce(items: &Vec<LineItem>) -> (co: Vec<CoLine>)
    requires
        qty_ok(items@),
    ensures
        forall|p: int, q: int| 0 <= p < q < co@.len() ==> (#[trigger] co@[p].gid) < (#[trigger] co@[q].gid),
        forall|j: int|
            0 <= j < co@.len() ==> (#[trigger] co@[j]).qty == requested(items@, co@[j].gid)
                && co@[j].qty > 0 && mentions(items@, co@[j].gid),
        forall|g: i64|
            #[trigger] mentions(items@, g) ==> exists|j: int|
                0 <= j < co@.len() && (#[trigger] co@[j].gid) == g,
{
    let mut co: Vec<CoLine> = Vec::new();
    let mut k: usize = 0;
    while k < items.len()
        invariant
            qty_ok(items@),
            k <= items@.len(),
            forall|p: int, q: int|
                0 <= p < q < co@.len() ==> (#[trigger] co@[p].gid) < (#[trigger] co@[q].gid),
            forall|j: int|
                0 <= j < co@.len() ==> (#[trigger] co@[j]).qty == requested(
                    items@.take(k as int),
                    co@[j].gid,
                ) && mentions(items@.take(k as int), co@[j].gid),
            forall|g: i64|
                #[trigger] mentions(items@.take(k as int), g) ==> exists|j: int|
                    0 <= j < co@.len() && (#[trigger] co@[j].gid) == g,
        decreases items@.len() - k,
    {
        let it = items[k];
        let mut p: usize = 0;
        while p < co.len() && co[p].gid < it.goods_id
            invariant
                p <= co@.len(),
                forall|j: int| 0 <= j < p ==> (#[trigger] co@[j].gid) < it.goods_id,
            decreases co@.len() - p,
        {
            p += 1;
        }
        proof {
            lemma_requested_take_step(items@, k as int, it.goods_id);
            lemma_mentions_take_step(items@, k as int);
            lemma_requested_bounds(items@.take(k as int), it.goods_id);
            assert((items@.take(k as int).len() + 1) * (i32::MAX as int) < u128::MAX)
                by (nonlinear_arith)
                requires
                    items@.take(k as int).len() < 0x1_0000_0000_0000_0000,
            ;
        }
        let ghost co0 = co@;
        if p < co.len() && co[p].gid == it.goods_id {
            let nq = co[p].qty + (it.quantity as u128);
            co[p].qty = nq;
            proof {
                assert forall|j: int| 0 <= j < co@.len() implies (#[trigger] co@[j]).qty
                    == requested(items@.take(k as int + 1), co@[j].gid) && mentions(
                    items@.take(k as int + 1),
                    co@[j].gid,
                ) by {
                    lemma_requested_take_step(items@, k as int, co@[j].gid);
                    if j != p as int {
                        assert(co@[j] == co0[j]);
                        assert(co@[j].gid != it.goods_id);
                    }
                }
                assert forall|g: i64| #[trigger] mentions(items@.take(k as int + 1), g) implies
                    exists|j: int| 0 <= j < co@.len() && (#[trigger] co@[j].gid) == g by {
                    if g == it.goods_id {
                        assert(co@[p as int].gid == g);
                    } else {
                        let w = choose|j: int| 0 <= j < co0.len() && (#[trigger] co0[j].gid) == g;
                        assert(co@[w].gid == g);
                    }
                }
            }
        } else {
            co.insert(p, CoLine { gid: it.goods_id, qty: it.quantity as u128 });
            proof {
                assert(forall|j: int| 0 <= j < p ==> (#[trigger] co@[j]) == co0[j]);
                assert(forall|j: int|
                    p < j < co@.len() ==> (#[trigger] co@[j]) == co0[j - 1]);
                assert(co@[p as int].gid == it.goods_id);
                assert(!mentions(items@.take(k as int), it.goods_id));
                assert forall|j: int| 0 <= j < co@.len() implies (#[trigger] co@[j]).qty
                    == requested(items@.take(k as int + 1), co@[j].gid) && mentions(
                    items@.take(k as int + 1),
                    co@[j].gid,
                ) by {
                    lemma_requested_take_step(items@, k as int, co@[j].gid);
                    if j < p as int {
                        assert(co@[j].gid < it.goods_id);
                    } else if j > p as int {
                        assert(co0[j - 1].gid > it.goods_id);
                    } else {
                        lemma_requested_bounds(items@.take(k as int), it.goods_id);
                    }
                }
                assert forall|g: i64| #[trigger] mentions(items@.take(k as int + 1), g) implies
                    exists|j: int| 0 <= j < co@.len() && (#[trigger] co@[j].gid) == g by {
                    if g == it.goods_id {
                        assert(co@[p as int].gid == g);
                    } else {
                        let w = choose|j: int| 0 <= j < co0.len() && (#[trigger] co0[j].gid) == g;
                        if w < p as int {
                            assert(co@[w].gid == g);
                        } else {
                            assert(co@[w + 1].gid == g);
                        }
                    }
                }
            }
        }
        k += 1;
    }
    proof {
        assert(items@.take(items@.len() as int) =~= items@);
        assert forall|j: int| 0 <= j < co@.len() implies (#[trigger] co@[j]).qty > 0 by {
            lemma_requested_bounds(items@, co@[j].gid);
        }
    }
    co
}

/// The two ascending-order stop conditions exclude each other.
pub proof fn lemma_stops_exclusive(s: Store, items: Seq<LineItem>)
    ensures
        !(stops_at_missing(s, items) && stops_at_stock(s, items)),
{
    if stops_at_missing(s, items) && stops_at_stock(s, items) {
        let gm = choose|g: i64|
            #[trigger] mentions(items, g) && !s.has_goods(g) && (forall|g2: i64|
                #[trigger] mentions(items, g2) && g2 < g ==> line_ok(s, items, g2));
        let gs = choose|g: i64|
            #[trigger] mentions(items, g) && s.has_goods(g) && s.goods_of(g).stock < requested(
                items,
                g,
            ) && (forall|g2: i64| #[trigger] mentions(items, g2) && g2 < g ==> line_ok(s, items, g2));
        if gm < gs {
            assert(line_ok(s, items, gm));
        } else if gs < gm {
            assert(line_ok(s, items, gs));
        } else {
            assert(s.has_goods(gm) == s.has_goods(gs));
        }
    }
}

/// The complete behaviour of a purchase, as a relation between the
/// store before, the store after, and the answer: which of the eight
/// outcomes is returned on which orders and store states, and, on
/// success, exactly how stock, balance and the consumption ledger
/// moved. On every other outcome the store is untouched.
pub open spec fn purchase_post(
    pre: Store,
    post: Store,
    r: Result<PurchaseOutcome, PurchaseError>,
    customer_id: i64,
    items: Seq<LineItem>,
    month: YearMonth,
) -> bool {
    &&& post.wf()
    &&& (r == Err::<PurchaseOutcome, PurchaseError>(PurchaseError::EmptyOrder) <==> items.len()
        == 0)
    &&& (r == Err::<PurchaseOutcome, PurchaseError>(PurchaseError::NonPositiveQuantity) <==> (
    items.len() > 0 && !qty_ok(items)))
    &&& (r == Err::<PurchaseOutcome, PurchaseError>(PurchaseError::GoodsNotFound) <==> (items.len()
        > 0 && qty_ok(items) && stops_at_missing(pre, items)))
    &&& (r == Ok::<PurchaseOutcome, PurchaseError>(PurchaseOutcome::InsufficientStock) <==> (
    items.len() > 0 && qty_ok(items) && stops_at_stock(pre, items)))
    &&& (r == Err::<PurchaseOutcome, PurchaseError>(PurchaseError::AmountOverflow) <==> (
    items.len() > 0 && qty_ok(items) && all_lines_ok(pre, items) && overflow_hit(
        pre,
        items,
        customer_id,
        month,
    )))
    &&& (r == Err::<PurchaseOutcome, PurchaseError>(PurchaseError::CustomerNotFound) <==> (
    items.len() > 0 && qty_ok(items) && all_lines_ok(pre, items) && !overflow_hit(
        pre,
        items,
        customer_id,
        month,
    ) && !(pre.has_account(customer_id) && pre.account_of(customer_id).role == Role::Customer)))
    &&& (r == Ok::<PurchaseOutcome, PurchaseError>(PurchaseOutcome::InsufficientBalance) <==> (
    items.len() > 0 && qty_ok(items) && all_lines_ok(pre, items) && !overflow_hit(
        pre,
        items,
        customer_id,
        month,
    ) && pre.has_account(customer_id) && pre.account_of(customer_id).role == Role::Customer
        && pre.account_of(customer_id).balance < order_total(pre, items)))
    &&& (r == Ok::<PurchaseOutcome, PurchaseError>(PurchaseOutcome::Success) <==> (items.len() > 0
        && qty_ok(items) && all_lines_ok(pre, items) && !overflow_hit(
        pre,
        items,
        customer_id,
        month,
    ) && pre.has_account(customer_id) && pre.account_of(customer_id).role == Role::Customer
        && pre.account_of(customer_id).balance >= order_total(pre, items)))
    &&& (r == Ok::<PurchaseOutcome, PurchaseError>(PurchaseOutcome::Success) ==> {
        &&& post.goods@.len() == pre.goods@.len()
        &&& forall|i: int|
            0 <= i < pre.goods@.len() ==> (#[trigger] post.goods@[i]) == (Goods {
                stock: (pre.goods@[i].stock - requested(items, pre.goods@[i].id)) as i64,
                ..pre.goods@[i]
            })
        &&& post.accounts@ == pre.accounts@.update(
            pre.account_index(customer_id),
            (Account {
                balance: (pre.account_of(customer_id).balance - order_total(pre, items)) as u64,
                ..pre.account_of(customer_id)
            }),
        )
        &&& forall|a: i64, m2: YearMonth, g: i64|
            #[trigger] cons_amount(post.consumption@, a, m2, g) == cons_amount(
                pre.consumption@,
                a,
                m2,
                g,
            ) + (if a == customer_id && m2 == month && mentions(items, g) {
                subtotal(pre, items, g)
            } else {
                0int
            })
        &&& post.lost_items@ == pre.lost_items@
        &&& post.messages@ == pre.messages@
        &&& post.next_account_id == pre.next_account_id
        &&& post.next_goods_id == pre.next_goods_id
        &&& post.next_lost_item_id == pre.next_lost_item_id
        &&& post.next_message_id == pre.next_message_id
    })
    &&& (r != Ok::<PurchaseOutcome, PurchaseError>(PurchaseOutcome::Success) ==> post == pre)
}

/// The stock decrements of a purchase have been applied for the first
/// `upto` coalesced lines: a goods row whose id is among them has lost
/// the order's total request for it, every other row is untouched.
pub open spec fn stock_applied(
    pre: Store,
    cur: Seq<Goods>,
    items: Seq<LineItem>,
    gids: Seq<i64>,
    upto: int,
) -> bool {
    &&& cur.len() == pre.goods@.len()
    &&& forall|i: int|
        0 <= i < cur.len() ==> (#[trigger] cur[i]) == if (exists|t: int|
            0 <= t < upto && (#[trigger] gids[t]) == pre.goods@[i].id) {
            (Goods {
                stock: (pre.goods@[i].stock - requested(items, pre.goods@[i].id)) as i64,
                ..pre.goods@[i]
            })
        } else {
            pre.goods@[i]
        }
}

impl Store {
    /// Fulfills a whole order atomically, or changes nothing.
    ///
    /// In ascending goods-id order, each ordered goods must exist with
    /// stock covering the order's total request for it; the customer
    /// account must exist and its balance cover the order total; every
    /// amount must fit its field. Exactly on success, each ordered
    /// goods' stock drops by its total requested quantity, the balance
    /// drops by the order total, and for each ordered goods the
    /// consumption cell (customer, month, goods) grows by that goods'
    /// subtotal. Every other outcome leaves the store untouched.
    #[verifier::loop_isolation(false)]
    #[verifier::rlimit(100)]
    pub fn purchase_goods(
        &mut self,
        customer_id: i64,
        items: &Vec<LineItem>,
        month: YearMonth,
    ) -> (r: Result<PurchaseOutcome, PurchaseError>)
        requires
            old(self).wf(),
            month.wf(),
        ensures
            purchase_post(*old(self), *final(self), r, customer_id, items@, month),
    {
        if items.len() == 0 {
            return Err(PurchaseError::EmptyOrder);
        }
        let mut k: usize = 0;
        while k < items.len()
            invariant
                k <= items@.len(),
                forall|i: int| 0 <= i < k ==> (#[trigger] items@[i]).quantity > 0,
            decreases items@.len() - k,
        {
            if items[k].quantity <= 0 {
                return Err(PurchaseError::NonPositiveQuantity);
            }
            k += 1;
        }
        let co = coalesce(items);

        // Check existence and stock in ascending goods-id order,
        // remembering each goods row's index.
        let mut gidx: Vec<usize> = Vec::new();
        let mut j: usize = 0;
        while j < co.len()
            invariant
                j <= co@.len(),
                gidx@.len() == j,
                forall|t: int| 0 <= t < j ==> line_ok(*old(self), items@, (#[trigger] co@[t]).gid),
                forall|t: int|
                    0 <= t < j ==> (#[trigger] gidx@[t]) < self.goods@.len() && gidx@[t] as int
                        == self.goods_index(co@[t].gid) && self.goods@[gidx@[t] as int].id
                        == co@[t].gid,
            decreases co@.len() - j,
        {
            let gid = co[j].gid;
            match self.find_goods(gid) {
                None => {
                    proof {
                        assert forall|g2: i64|
                            #[trigger] mentions(items@, g2) && g2 < gid implies line_ok(
                            *old(self),
                            items@,
                            g2,
                        ) by {
                            let w = choose|t: int|
                                0 <= t < co@.len() && (#[trigger] co@[t].gid) == g2;
                            if w > j as int {
                                assert(co@[j as int].gid < co@[w].gid);
                            }
                        }
                        assert(stops_at_missing(*old(self), items@));
                        lemma_stops_exclusive(*old(self), items@);
                        assert(!line_ok(*old(self), items@, gid));
                    }
                    return Err(PurchaseError::GoodsNotFound);
                },
                Some(gi) => {
                    if (self.goods[gi].stock as u128) < co[j].qty {
                        proof {
                            assert forall|g2: i64|
                                #[trigger] mentions(items@, g2) && g2 < gid implies line_ok(
                                *old(self),
                                items@,
                                g2,
                            ) by {
                                let w = choose|t: int|
                                    0 <= t < co@.len() && (#[trigger] co@[t].gid) == g2;
                                if w > j as int {
                                    assert(co@[j as int].gid < co@[w].gid);
                                }
                            }
                            assert(stops_at_stock(*old(self), items@));
                            lemma_stops_exclusive(*old(self), items@);
                            assert(!line_ok(*old(self), items@, gid));
                        }
                        return Ok(PurchaseOutcome::InsufficientStock);
                    }
                    gidx.push(gi);
                },
            }
            j += 1;
        }
        proof {
            assert forall|g: i64| #[trigger] mentions(items@, g) implies line_ok(
                *old(self),
                items@,
                g,
            ) by {
                let w = choose|t: int| 0 <= t < co@.len() && (#[trigger] co@[t].gid) == g;
            }
            lemma_all_ok_no_stop(*old(self), items@);
        }

        // Accumulate the order total over the raw line items.
        let mut total: u64 = 0;
        let mut k2: usize = 0;
        while k2 < items.len()
            invariant
                k2 <= items@.len(),
                total == order_total(*old(self), items@.take(k2 as int)),
            decreases items@.len() - k2,
        {
            let it = items[k2];
            let gi = match self.find_goods(it.goods_id) {
                Some(gi) => gi,
                None => {
                    proof {
                        assert(mentions(items@, it.goods_id));
                    }
                    return Err(PurchaseError::GoodsNotFound);
                },
            };
            let price = self.goods[gi].price;
            let sub = match price.checked_mul(it.quantity as u64) {
                Some(s) => s,
                None => {
                    proof {
                        lemma_line_le_requested(items@, k2 as int);
                        let stv = subtotal(*old(self), items@, it.goods_id);
                        let req = requested(items@, it.goods_id);
                        assert(stv > u64::MAX) by (nonlinear_arith)
                            requires
                                stv == (price as int) * req,
                                (it.quantity as int) <= req,
                                (price as int) * (it.quantity as int) > u64::MAX,
                                price >= 0,
                                it.quantity >= 0,
                        ;
                        assert(mentions(items@, it.goods_id));
                    }
                    return Err(PurchaseError::AmountOverflow);
                },
            };
            total = match total.checked_add(sub) {
                Some(t) => t,
                None => {
                    proof {
                        lemma_order_total_take_step(*old(self), items@, k2 as int);
                        lemma_order_total_prefix_le(*old(self), items@, k2 as int + 1);
                    }
                    return Err(PurchaseError::AmountOverflow);
                },
            };
            proof {
                lemma_order_total_take_step(*old(self), items@, k2 as int);
            }
            k2 += 1;
        }
        proof {
            assert(items@.take(items@.len() as int) =~= items@);
        }

        // Per-goods subtotals and consumption-overflow checks.
        let mut subs: Vec<u64> = Vec::new();
        let mut j2: usize = 0;
        while j2 < co.len()
            invariant
                j2 <= co@.len(),
                subs@.len() == j2,
                forall|t: int|
                    0 <= t < j2 ==> (#[trigger] subs@[t]) == subtotal(
                        *old(self),
                        items@,
                        co@[t].gid,
                    ) && subs@[t] > 0 && cons_amount(
                        old(self).consumption@,
                        customer_id,
                        month,
                        co@[t].gid,
                    ) + subs@[t] <= u64::MAX,
            decreases co@.len() - j2,
        {
            let gid = co[j2].gid;
            let gi = gidx[j2];
            let price = self.goods[gi].price;
            proof {
                assert(co@[j2 as int].qty <= old(self).goods@[gi as int].stock);
            }
            let q = co[j2].qty as u64;
            let sub = match price.checked_mul(q) {
                Some(s) => s,
                None => {
                    proof {
                        assert(mentions(items@, gid));
                    }
                    return Err(PurchaseError::AmountOverflow);
                },
            };
            proof {
                assert(sub > 0) by (nonlinear_arith)
                    requires
                        sub == (price as int) * (q as int),
                        price > 0,
                        q > 0,
                ;
            }
            match self.find_consumption(customer_id, month, gid) {
                Some(ci) => {
                    if self.consumption[ci].amount.checked_add(sub).is_none() {
                        proof {
                            assert(mentions(items@, gid));
                        }
                        return Err(PurchaseError::AmountOverflow);
                    }
                },
                None => {},
            }
            subs.push(sub);
            j2 += 1;
        }
        proof {
            assert(!overflow_hit(*old(self), items@, customer_id, month)) by {
                if overflow_hit(*old(self), items@, customer_id, month) {
                    if order_total(*old(self), items@) > u64::MAX {
                    } else {
                        let g = choose|g: i64|
                            #[trigger] mentions(items@, g) && (subtotal(*old(self), items@, g)
                                > u64::MAX || cons_amount(
                                old(self).consumption@,
                                customer_id,
                                month,
                                g,
                            ) + subtotal(*old(self), items@, g) > u64::MAX);
                        let w = choose|t: int| 0 <= t < co@.len() && (#[trigger] co@[t].gid) == g;
                        assert(subs@[w] == subtotal(*old(self), items@, g));
                    }
                }
            }
        }

        // Lock the customer row, check role and balance.
        let ai = match self.find_account(customer_id) {
            Some(ai) => ai,
            None => {
                return Err(PurchaseError::CustomerNotFound);
            },
        };
        if !matches!(self.accounts[ai].role, Role::Customer) {
            return Err(PurchaseError::CustomerNotFound);
        }
        let balance = self.accounts[ai].balance;
        if balance < total {
            return Ok(PurchaseOutcome::InsufficientBalance);
        }

        // Apply: decrement each goods' stock once, by the coalesced
        // quantity, in ascending id order.
        let ghost pre = *old(self);
        let ghost gid_seq = co@.map_values(|c: CoLine| c.gid);
        let mut j3: usize = 0;
        while j3 < co.len()
            invariant
                j3 <= co@.len(),
                self.wf(),
                stock_applied(pre, self.goods@, items@, gid_seq, j3 as int),
                self.accounts@ == pre.accounts@,
                self.consumption@ == pre.consumption@,
                self.lost_items@ == pre.lost_items@,
                self.messages@ == pre.messages@,
                self.next_account_id == pre.next_account_id,
                self.next_goods_id == pre.next_goods_id,
                self.next_lost_item_id == pre.next_lost_item_id,
                self.next_message_id == pre.next_message_id,
            decreases co@.len() - j3,
        {
            let gi = gidx[j3];
            let ghost mid = *self;
            proof {
                assert(gid_seq[j3 as int] == co@[j3 as int].gid);
                assert forall|t: int| 0 <= t < j3 implies (#[trigger] gid_seq[t])
                    != pre.goods@[gi as int].id by {
                    assert(co@[t].gid < co@[j3 as int].gid);
                }
                assert(self.goods@[gi as int] == pre.goods@[gi as int]);
            }
            let q64 = co[j3].qty as i64;
            let st = self.goods[gi].stock;
            self.goods[gi].stock = st - q64;
            proof {
                crate::model::lemma_wf_update_goods(mid, *self, gi as int);
                assert forall|i: int| 0 <= i < self.goods@.len() implies (#[trigger] self.goods@[i])
                    == if (exists|t: int|
                    0 <= t < j3 + 1 && (#[trigger] gid_seq[t]) == pre.goods@[i].id) {
                    (Goods {
                        stock: (pre.goods@[i].stock - requested(items@, pre.goods@[i].id)) as i64,
                        ..pre.goods@[i]
                    })
                } else {
                    pre.goods@[i]
                } by {
                    if i == gi as int {
                        assert(gid_seq[j3 as int] == pre.goods@[i].id);
                    } else {
                        assert(self.goods@[i] == mid.goods@[i]);
                        assert(pre.goods@[i].id != co@[j3 as int].gid) by {
                            if pre.goods@[i].id == co@[j3 as int].gid {
                                assert(pre.goods@[gi as int].id == co@[j3 as int].gid);
                                assert(false);
                            }
                        }
                        assert((exists|t: int|
                            0 <= t < j3 + 1 && (#[trigger] gid_seq[t]) == pre.goods@[i].id) <==> (
                        exists|t: int| 0 <= t < j3 && (#[trigger] gid_seq[t]) == pre.goods@[i].id));
                    }
                }
            }
            j3 += 1;
        }
        proof {
            assert forall|i: int| 0 <= i < self.goods@.len() implies (#[trigger] self.goods@[i])
                == (Goods {
                stock: (pre.goods@[i].stock - requested(items@, pre.goods@[i].id)) as i64,
                ..pre.goods@[i]
            }) by {
                if mentions(items@, pre.goods@[i].id) {
                    let w = choose|t: int|
                        0 <= t < co@.len() && (#[trigger] co@[t].gid) == pre.goods@[i].id;
                    assert(gid_seq[w] == pre.goods@[i].id);
                } else {
                    lemma_requested_bounds(items@, pre.goods@[i].id);
                    assert(!(exists|t: int|
                        0 <= t < co@.len() && (#[trigger] gid_seq[t]) == pre.goods@[i].id)) by {
                        if exists|t: int|
                            0 <= t < co@.len() && (#[trigger] gid_seq[t]) == pre.goods@[i].id {
                            let t = choose|t: int|
                                0 <= t < co@.len() && (#[trigger] gid_seq[t]) == pre.goods@[i].id;
                            assert(mentions(items@, co@[t].gid));
                        }
                    }
                }
            }
        }

        // Apply: decrement the balance.
        let ghost goods_done = self.goods@;
        let ghost mid2 = *self;
        self.accounts[ai].balance = balance - total;
        proof {
            crate::model::lemma_wf_update_account(mid2, *self, ai as int);
        }
        let ghost accounts_done = self.accounts@;

        // Apply: accumulate one consumption cell per ordered goods.
        let ghost cons_pre = pre.consumption@;
        let mut j4: usize = 0;
        while j4 < co.len()
            invariant
                j4 <= co@.len(),
                self.wf(),
                forall|a: i64, m2: YearMonth, g: i64|
                    #[trigger] cons_amount(self.consumption@, a, m2, g) == cons_amount(
                        cons_pre,
                        a,
                        m2,
                        g,
                    ) + (if a == customer_id && m2 == month && (exists|t: int|
                        0 <= t < j4 && (#[trigger] gid_seq[t]) == g) {
                        subtotal(pre, items@, g)
                    } else {
                        0int
                    }),
                self.goods@ == goods_done,
                self.accounts@ == accounts_done,
                self.lost_items@ == pre.lost_items@,
                self.messages@ == pre.messages@,
                self.next_account_id == pre.next_account_id,
                self.next_goods_id == pre.next_goods_id,
                self.next_lost_item_id == pre.next_lost_item_id,
                self.next_message_id == pre.next_message_id,
            decreases co@.len() - j4,
        {
            let gid = co[j4].gid;
            let sub = subs[j4];
            let ghost mid3 = *self;
            proof {
                assert forall|t: int| 0 <= t < j4 implies (#[trigger] gid_seq[t]) != gid by {
                    assert(co@[t].gid < co@[j4 as int].gid);
                }
                assert(cons_amount(self.consumption@, customer_id, month, gid) == cons_amount(
                    cons_pre,
                    customer_id,
                    month,
                    gid,
                ));
            }
            match self.find_consumption(customer_id, month, gid) {
                Some(ci) => {
                    let na = self.consumption[ci].amount + sub;
                    self.consumption[ci].amount = na;
                    proof {
                        crate::model::lemma_wf_update_consumption(mid3, *self, ci as int);
                        assert forall|a: i64, m2: YearMonth, g: i64| #[trigger] cons_amount(
                            self.consumption@,
                            a,
                            m2,
                            g,
                        ) == cons_amount(mid3.consumption@, a, m2, g) + (if key_matches(
                            mid3.consumption@[ci as int],
                            a,
                            m2,
                            g,
                        ) {
                            sub as int
                        } else {
                            0int
                        }) by {
                            crate::model::lemma_cons_amount_update(
                                mid3.consumption@,
                                ci as int,
                                self.consumption@[ci as int],
                                a,
                                m2,
                                g,
                            );
                        }
                    }
                },
                None => {
                    proof {
                        assert(mentions(items@, gid));
                        assert(line_ok(pre, items@, gid));
                        let w = choose|w: int|
                            0 <= w < pre.goods@.len() && #[trigger] pre.goods@[w].id == gid;
                        assert(self.goods@[w].id == gid);
                        assert(mid3.has_goods(gid));
                        assert(self.accounts@[ai as int].id == customer_id);
                        assert(mid3.has_account(customer_id));
                    }
                    self.consumption.push(
                        ConsumptionRecord {
                            account_id: customer_id,
                            month,
                            goods_id: gid,
                            amount: sub,
                        },
                    );
                    proof {
                        assert(self.consumption@.drop_last() =~= mid3.consumption@);
                        crate::model::lemma_wf_push_consumption(mid3, *self);
                        assert forall|a: i64, m2: YearMonth, g: i64| #[trigger] cons_amount(
                            self.consumption@,
                            a,
                            m2,
                            g,
                        ) == cons_amount(mid3.consumption@, a, m2, g) + (if key_matches(
                            self.consumption@.last(),
                            a,
                            m2,
                            g,
                        ) {
                            sub as int
                        } else {
                            0int
                        }) by {
                            crate::model::lemma_cons_amount_push(
                                mid3.consumption@,
                                self.consumption@.last(),
                                a,
                                m2,
                                g,
                            );
                        }
                    }
                },
            }
            j4 += 1;
        }
        proof {
            assert forall|a: i64, m2: YearMonth, g: i64| #[trigger] cons_amount(
                self.consumption@,
                a,
                m2,
                g,
            ) == cons_amount(pre.consumption@, a, m2, g) + (if a == customer_id && m2 == month
                && mentions(items@, g) {
                subtotal(pre, items@, g)
            } else {
                0int
            }) by {
                if mentions(items@, g) {
                    let w = choose|t: int| 0 <= t < co@.len() && (#[trigger] co@[t].gid) == g;
                    assert(gid_seq[w] == g);
                } else {
                    if exists|t: int| 0 <= t < co@.len() && (#[trigger] gid_seq[t]) == g {
                        let t = choose|t: int|
                            0 <= t < co@.len() && (#[trigger] gid_seq[t]) == g;
                        assert(mentions(items@, co@[t].gid));
                    }
                }
            }
        }
        Ok(PurchaseOutcome::Success)
    }
}

} // verus!
