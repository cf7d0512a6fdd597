//! The data model of the ledger store: accounts, goods, consumption
//! records, lost items and messages, held together in a [`Store`] with
//! a well-formedness invariant that every operation preserves.
//!
//! Rows live in vectors ordered by strictly increasing id (ids are
//! handed out by per-table counters), which also makes every id unique.

use vstd::prelude::*;

use crate::dates::Date;
use crate::dates::YearMonth;

verus! {

/// An account is either the administrator or a customer; only
/// customers hold balances that purchases and recharges touch.
#[derive(Clone, Copy, PartialEq, Eq, Structural, Debug)]
pub enum Role {
    Administrator,
    Customer,
}

/// A member account. The balance is a non-negative amount of money in
/// cents, so "balance never negative" holds by construction.
pub struct Account {
    pub id: i64,
    pub username: String,
    pub credential_hash: String,
    pub phone: Option<String>,
    pub gender: Option<u8>,
    pub join_date: Date,
    pub balance: u64,
    pub role: Role,
}

/// A catalog row: positive unit price in cents and a non-negative
/// stock count.
pub struct Goods {
    pub id: i64,
    pub name: String,
    pub category: Option<String>,
    pub price: u64,
    pub stock: i64,
}

/// One cell of the consumption ledger, keyed by
/// (account, calendar month, goods); the amount accumulates every
/// committed purchase for that key and is therefore always positive.
#[derive(Clone, Copy, PartialEq, Eq, Structural, Debug)]
pub struct ConsumptionRecord {
    pub account_id: i64,
    pub month: YearMonth,
    pub goods_id: i64,
    pub amount: u64,
}

/// A lost item is claimed at most once.
#[derive(Clone, Copy, PartialEq, Eq, Structural, Debug)]
pub enum LostStatus {
    Unclaimed,
    Claimed,
}

/// A lost-and-found register row.
pub struct LostItem {
    pub id: i64,
    pub name: String,
    pub pick_place: Option<String>,
    pub finder: Option<i64>,
    pub claimant: Option<i64>,
    pub pick_date: Date,
    pub claim_date: Option<Date>,
    pub status: LostStatus,
}

/// An internal message; the read flag moves from unread to read
/// exactly once, only by the receiver.
pub struct Message {
    pub id: i64,
    pub sender: i64,
    pub receiver: i64,
    pub title: Option<String>,
    pub body: String,
    pub send_date: Date,
    pub read: bool,
}

/// The whole persisted state, with one counter per table handing out
/// the next fresh id.
pub struct Store {
    pub accounts: Vec<Account>,
    pub goods: Vec<Goods>,
    pub consumption: Vec<ConsumptionRecord>,
    pub lost_items: Vec<LostItem>,
    pub messages: Vec<Message>,
    pub next_account_id: i64,
    pub next_goods_id: i64,
    pub next_lost_item_id: i64,
    pub next_message_id: i64,
}

/// An optional phone number is either absent or exactly eleven ASCII
/// digits.
pub open spec fn phone_ok(p: Seq<char>) -> bool {
    p.len() == 11 && forall|i: int| 0 <= i < p.len() ==> '0' <= #[trigger] p[i] <= '9'
}

/// An optional gender is encoded as 0 or 1.
pub open spec fn gender_ok(g: u8) -> bool {
    g == 0 || g == 1
}

impl Account {
    /// Row invariant: id is positive, fields are in their domains, and
    /// the stored credential hash is one the verifier accepts.
    pub open spec fn wf(self) -> bool {
        &&& 1 <= self.id
        &&& self.username@.len() > 0
        &&& crate::credentials::is_credential_hash(self.credential_hash@)
        &&& (self.phone matches Some(p) ==> phone_ok(p@))
        &&& (self.gender matches Some(g) ==> gender_ok(g))
        &&& self.join_date.wf()
    }
}

impl Goods {
    /// Row invariant: id is positive, the name is non-empty, the price
    /// is positive and the stock is non-negative.
    pub open spec fn wf(self) -> bool {
        &&& 1 <= self.id
        &&& self.name@.len() > 0
        &&& self.price > 0
        &&& self.stock >= 0
    }
}

impl LostItem {
    /// Row invariant: claimant and claim date are set exactly when the
    /// item has been claimed.
    pub open spec fn wf(self) -> bool {
        &&& 1 <= self.id
        &&& self.name@.len() > 0
        &&& self.pick_date.wf()
        &&& (self.claim_date matches Some(d) ==> d.wf())
        &&& (self.status == LostStatus::Claimed <==> self.claimant is Some)
        &&& (self.status == LostStatus::Claimed <==> self.claim_date is Some)
    }
}

impl Message {
    /// Row invariant: the body is non-empty.
    pub open spec fn wf(self) -> bool {
        &&& 1 <= self.id
        &&& self.body@.len() > 0
        &&& self.send_date.wf()
    }
}

impl Store {
    /// There is an account with this id.
    pub open spec fn has_account(self, id: i64) -> bool {
        exists|i: int| 0 <= i < self.accounts@.len() && #[trigger] self.accounts@[i].id == id
    }

    /// The index of the account with this id (meaningful only when
    /// `has_account` holds; unique under `wf`).
    pub open spec fn account_index(self, id: i64) -> int {
        choose|i: int| 0 <= i < self.accounts@.len() && #[trigger] self.accounts@[i].id == id
    }

    /// The account with this id.
    pub open spec fn account_of(self, id: i64) -> Account {
        self.accounts@[self.account_index(id)]
    }

    /// There is an account with this username.
    pub open spec fn has_username(self, name: Seq<char>) -> bool {
        exists|i: int| 0 <= i < self.accounts@.len() && #[trigger] self.accounts@[i].username@ == name
    }

    /// The index of the account with this username (meaningful only
    /// when `has_username` holds; unique under `wf`).
    pub open spec fn username_index(self, name: Seq<char>) -> int {
        choose|i: int|
            0 <= i < self.accounts@.len() && #[trigger] self.accounts@[i].username@ == name
    }

    /// The account with this username.
    pub open spec fn account_by_username(self, name: Seq<char>) -> Account {
        self.accounts@[self.username_index(name)]
    }

    /// There is a goods row with this id.
    pub open spec fn has_goods(self, id: i64) -> bool {
        exists|i: int| 0 <= i < self.goods@.len() && #[trigger] self.goods@[i].id == id
    }

    /// The index of the goods row with this id (meaningful only when
    /// `has_goods` holds; unique under `wf`).
    pub open spec fn goods_index(self, id: i64) -> int {
        choose|i: int| 0 <= i < self.goods@.len() && #[trigger] self.goods@[i].id == id
    }

    /// The goods row with this id.
    pub open spec fn goods_of(self, id: i64) -> Goods {
        self.goods@[self.goods_index(id)]
    }

    /// There is a goods row with this name.
    pub open spec fn has_goods_name(self, name: Seq<char>) -> bool {
        exists|i: int| 0 <= i < self.goods@.len() && #[trigger] self.goods@[i].name@ == name
    }

    /// There is a lost item with this id.
    pub open spec fn has_lost_item(self, id: i64) -> bool {
        exists|i: int| 0 <= i < self.lost_items@.len() && #[trigger] self.lost_items@[i].id == id
    }

    /// The index of the lost item with this id.
    pub open spec fn lost_item_index(self, id: i64) -> int {
        choose|i: int| 0 <= i < self.lost_items@.len() && #[trigger] self.lost_items@[i].id == id
    }

    /// The lost item with this id.
    pub open spec fn lost_item_of(self, id: i64) -> LostItem {
        self.lost_items@[self.lost_item_index(id)]
    }

    /// There is a message with this id.
    pub open spec fn has_message(self, id: i64) -> bool {
        exists|i: int| 0 <= i < self.messages@.len() && #[trigger] self.messages@[i].id == id
    }

    /// The index of the message with this id.
    pub open spec fn message_index(self, id: i64) -> int {
        choose|i: int| 0 <= i < self.messages@.len() && #[trigger] self.messages@[i].id == id
    }

    /// The message with this id.
    pub open spec fn message_of(self, id: i64) -> Message {
        self.messages@[self.message_index(id)]
    }

    /// Well-formedness of the whole store:
    /// - each table is ordered by strictly increasing id (hence ids
    ///   are unique) and every id lies below the table's counter;
    /// - every row satisfies its row invariant;
    /// - usernames and goods names are unique;
    /// - consumption keys are unique, amounts positive, and each
    ///   record points at an existing customer account and goods row;
    /// - every message links two existing accounts.
    pub open spec fn wf(self) -> bool {
        &&& forall|i: int, j: int|
            0 <= i < j < self.accounts@.len() ==> (#[trigger] self.accounts@[i].id) < (
            #[trigger] self.accounts@[j].id)
        &&& forall|i: int|
            0 <= i < self.accounts@.len() ==> (#[trigger] self.accounts@[i]).wf()
                && self.accounts@[i].id < self.next_account_id
        &&& forall|i: int, j: int|
            0 <= i < j < self.accounts@.len() ==> (#[trigger] self.accounts@[i].username@) != (
            #[trigger] self.accounts@[j].username@)
        &&& forall|i: int, j: int|
            0 <= i < j < self.goods@.len() ==> (#[trigger] self.goods@[i].id) < (
            #[trigger] self.goods@[j].id)
        &&& forall|i: int|
            0 <= i < self.goods@.len() ==> (#[trigger] self.goods@[i]).wf() && self.goods@[i].id
                < self.next_goods_id
        &&& forall|i: int, j: int|
            0 <= i < j < self.goods@.len() ==> (#[trigger] self.goods@[i].name@) != (
            #[trigger] self.goods@[j].name@)
        &&& forall|i: int, j: int|
            0 <= i < j < self.consumption@.len() ==> !same_key(
                #[trigger] self.consumption@[i],
                #[trigger] self.consumption@[j],
            )
        &&& forall|i: int|
            0 <= i < self.consumption@.len() ==> (#[trigger] self.consumption@[i]).amount > 0
                && self.consumption@[i].month.wf() && self.has_account(
                self.consumption@[i].account_id,
            ) && self.has_goods(self.consumption@[i].goods_id)
        &&& forall|i: int, j: int|
            0 <= i < j < self.lost_items@.len() ==> (#[trigger] self.lost_items@[i].id) < (
            #[trigger] self.lost_items@[j].id)
        &&& forall|i: int|
            0 <= i < self.lost_items@.len() ==> (#[trigger] self.lost_items@[i]).wf()
                && self.lost_items@[i].id < self.next_lost_item_id
        &&& forall|i: int, j: int|
            0 <= i < j < self.messages@.len() ==> (#[trigger] self.messages@[i].id) < (
            #[trigger] self.messages@[j].id)
        &&& forall|i: int|
            0 <= i < self.messages@.len() ==> (#[trigger] self.messages@[i]).wf()
                && self.messages@[i].id < self.next_message_id && self.has_account(
                self.messages@[i].sender,
            ) && self.has_account(self.messages@[i].receiver)
        &&& 1 <= self.next_account_id
        &&& 1 <= self.next_goods_id
        &&& 1 <= self.next_lost_item_id
        &&& 1 <= self.next_message_id
    }

    /// An empty store, the state before any registration.
    pub fn new() -> (r: Store)
        ensures
            r.wf(),
            r.accounts@.len() == 0,
            r.goods@.len() == 0,
            r.consumption@.len() == 0,
            r.lost_items@.len() == 0,
            r.messages@.len() == 0,
    {
        Store {
            accounts: Vec::new(),
            goods: Vec::new(),
            consumption: Vec::new(),
            lost_items: Vec::new(),
            messages: Vec::new(),
            next_account_id: 1,
            next_goods_id: 1,
            next_lost_item_id: 1,
            next_message_id: 1,
        }
    }

    /// Finds the index of the account with the given id.
    pub fn find_account(&self, id: i64) -> (r: Option<usize>)
        requires
            self.wf(),
        ensures
            r is Some <==> self.has_account(id),
            r matches Some(i) ==> i < self.accounts@.len() && self.accounts@[i as int].id == id
                && i as int == self.account_index(id),
    {
        let mut k: usize = 0;
        while k < self.accounts.len()
            invariant
                self.wf(),
                k <= self.accounts@.len(),
                forall|i: int| 0 <= i < k ==> (#[trigger] self.accounts@[i].id) != id,
            decreases self.accounts@.len() - k,
        {
            if self.accounts[k].id == id {
                proof {
                    assert forall|i: int|
                        0 <= i < self.accounts@.len() && (#[trigger] self.accounts@[i].id)
                            == id implies i == k as int by {
                        if i < k as int {
                            assert(self.accounts@[i].id < self.accounts@[k as int].id);
                        } else if (k as int) < i {
                            assert(self.accounts@[k as int].id < self.accounts@[i].id);
                        }
                    }
                }
                return Some(k);
            }
            k += 1;
        }
        None
    }

    /// Finds the index of the account with the given username.
    pub fn find_account_by_username(&self, name: &String) -> (r: Option<usize>)
        requires
            self.wf(),
        ensures
            r is Some <==> self.has_username(name@),
            r matches Some(i) ==> i < self.accounts@.len() && self.accounts@[i as int].username@
                == name@ && i as int == self.username_index(name@),
    {
        let mut k: usize = 0;
        while k < self.accounts.len()
            invariant
                self.wf(),
                k <= self.accounts@.len(),
                forall|i: int| 0 <= i < k ==> (#[trigger] self.accounts@[i].username@) != name@,
            decreases self.accounts@.len() - k,
        {
            if self.accounts[k].username.eq(name) {
                proof {
                    assert forall|i: int|
                        0 <= i < self.accounts@.len() && (#[trigger] self.accounts@[i].username@)
                            == name@ implies i == k as int by {
                        if i < k as int {
                            assert(self.accounts@[i].username@ != self.accounts@[
                                k as int
                            ].username@);
                        } else if (k as int) < i {
                            assert(self.accounts@[k as int].username@ != self.accounts@[
                                i
                            ].username@);
                        }
                    }
                }
                return Some(k);
            }
            k += 1;
        }
        None
    }

    /// Finds the index of the goods row with the given id.
    pub fn find_goods(&self, id: i64) -> (r: Option<usize>)
        requires
            self.wf(),
        ensures
            r is Some <==> self.has_goods(id),
            r matches Some(i) ==> i < self.goods@.len() && self.goods@[i as int].id == id
                && i as int == self.goods_index(id),
    {
        let mut k: usize = 0;
        while k < self.goods.len()
            invariant
                self.wf(),
                k <= self.goods@.len(),
                forall|i: int| 0 <= i < k ==> (#[trigger] self.goods@[i].id) != id,
            decreases self.goods@.len() - k,
        {
            if self.goods[k].id == id {
                proof {
                    assert forall|i: int|
                        0 <= i < self.goods@.len() && (#[trigger] self.goods@[i].id)
                            == id implies i == k as int by {
                        if i < k as int {
                            assert(self.goods@[i].id < self.goods@[k as int].id);
                        } else if (k as int) < i {
                            assert(self.goods@[k as int].id < self.goods@[i].id);
                        }
                    }
                }
                return Some(k);
            }
            k += 1;
        }
        None
    }

    /// Finds the index of the goods row with the given name.
    pub fn find_goods_by_name(&self, name: &String) -> (r: Option<usize>)
        requires
            self.wf(),
        ensures
            r is Some <==> self.has_goods_name(name@),
            r matches Some(i) ==> i < self.goods@.len() && self.goods@[i as int].name@ == name@,
    {
        let mut k: usize = 0;
        while k < self.goods.len()
            invariant
                self.wf(),
                k <= self.goods@.len(),
                forall|i: int| 0 <= i < k ==> (#[trigger] self.goods@[i].name@) != name@,
            decreases self.goods@.len() - k,
        {
            if self.goods[k].name.eq(name) {
                return Some(k);
            }
            k += 1;
        }
        None
    }

    /// Finds the index of the consumption record for the given ledger
    /// cell, and ties it to the cell's accumulated amount.
    pub fn find_consumption(&self, a: i64, m: YearMonth, g: i64) -> (r: Option<usize>)
        requires
            self.wf(),
        ensures
            r matches Some(i) ==> i < self.consumption@.len() && key_matches(
                self.consumption@[i as int],
                a,
                m,
                g,
            ) && cons_amount(self.consumption@, a, m, g) == self.consumption@[i as int].amount,
            r is None ==> cons_amount(self.consumption@, a, m, g) == 0 && (forall|i: int|
                0 <= i < self.consumption@.len() ==> !key_matches(
                    #[trigger] self.consumption@[i],
                    a,
                    m,
                    g,
                )),
    {
        let mut k: usize = 0;
        while k < self.consumption.len()
            invariant
                self.wf(),
                k <= self.consumption@.len(),
                forall|i: int|
                    0 <= i < k ==> !key_matches(#[trigger] self.consumption@[i], a, m, g),
            decreases self.consumption@.len() - k,
        {
            let r = &self.consumption[k];
            if r.account_id == a && r.month == m && r.goods_id == g {
                proof {
                    assert forall|i: int|
                        0 <= i < self.consumption@.len() && i != k as int implies !key_matches(
                        #[trigger] self.consumption@[i],
                        a,
                        m,
                        g,
                    ) by {
                        if i < k as int {
                        } else {
                            assert(!same_key(self.consumption@[k as int], self.consumption@[i]));
                        }
                    }
                    lemma_cons_amount_unique_match(self.consumption@, k as int, a, m, g);
                }
                return Some(k);
            }
            k += 1;
        }
        proof {
            lemma_cons_amount_no_match(self.consumption@, a, m, g);
        }
        None
    }

    /// Finds the index of the lost item with the given id.
    pub fn find_lost_item(&self, id: i64) -> (r: Option<usize>)
        requires
            self.wf(),
        ensures
            r is Some <==> self.has_lost_item(id),
            r matches Some(i) ==> i < self.lost_items@.len() && self.lost_items@[i as int].id == id
                && i as int == self.lost_item_index(id),
    {
        let mut k: usize = 0;
        while k < self.lost_items.len()
            invariant
                self.wf(),
                k <= self.lost_items@.len(),
                forall|i: int| 0 <= i < k ==> (#[trigger] self.lost_items@[i].id) != id,
            decreases self.lost_items@.len() - k,
        {
            if self.lost_items[k].id == id {
                proof {
                    assert forall|i: int|
                        0 <= i < self.lost_items@.len() && (#[trigger] self.lost_items@[i].id)
                            == id implies i == k as int by {
                        if i < k as int {
                            assert(self.lost_items@[i].id < self.lost_items@[k as int].id);
                        } else if (k as int) < i {
                            assert(self.lost_items@[k as int].id < self.lost_items@[i].id);
                        }
                    }
                }
                return Some(k);
            }
            k += 1;
        }
        None
    }

    /// Finds the index of the message with the given id.
    pub fn find_message(&self, id: i64) -> (r: Option<usize>)
        requires
            self.wf(),
        ensures
            r is Some <==> self.has_message(id),
            r matches Some(i) ==> i < self.messages@.len() && self.messages@[i as int].id == id
                && i as int == self.message_index(id),
    {
        let mut k: usize = 0;
        while k < self.messages.len()
            invariant
                self.wf(),
                k <= self.messages@.len(),
                forall|i: int| 0 <= i < k ==> (#[trigger] self.messages@[i].id) != id,
            decreases self.messages@.len() - k,
        {
            if self.messages[k].id == id {
                proof {
                    assert forall|i: int|
                        0 <= i < self.messages@.len() && (#[trigger] self.messages@[i].id)
                            == id implies i == k as int by {
                        if i < k as int {
                            assert(self.messages@[i].id < self.messages@[k as int].id);
                        } else if (k as int) < i {
                            assert(self.messages@[k as int].id < self.messages@[i].id);
                        }
                    }
                }
                return Some(k);
            }
            k += 1;
        }
        None
    }
}

/// Replacing one account row while keeping its id and username
/// preserves store well-formedness, provided the new row is itself
/// well-formed and nothing else changed.
pub proof fn lemma_wf_update_account(pre: Store, post: Store, i: int)
    requires
        pre.wf(),
        0 <= i < pre.accounts@.len(),
        post.accounts@ == pre.accounts@.update(i, post.accounts@[i]),
        post.accounts@[i].id == pre.accounts@[i].id,
        post.accounts@[i].username@ == pre.accounts@[i].username@,
        post.accounts@[i].wf(),
        post.goods@ == pre.goods@,
        post.consumption@ == pre.consumption@,
        post.lost_items@ == pre.lost_items@,
        post.messages@ == pre.messages@,
        post.next_account_id == pre.next_account_id,
        post.next_goods_id == pre.next_goods_id,
        post.next_lost_item_id == pre.next_lost_item_id,
        post.next_message_id == pre.next_message_id,
    ensures
        post.wf(),
{
    lemma_wf_rename_account(pre, post, i);
}

/// Appending a fresh, well-formed account whose id is the current
/// counter and whose username is new preserves store well-formedness.
pub proof fn lemma_wf_push_account(pre: Store, post: Store)
    requires
        pre.wf(),
        pre.next_account_id < i64::MAX,
        post.accounts@.len() == pre.accounts@.len() + 1,
        post.accounts@.drop_last() == pre.accounts@,
        post.accounts@.last().wf(),
        post.accounts@.last().id == pre.next_account_id,
        !pre.has_username(post.accounts@.last().username@),
        post.goods@ == pre.goods@,
        post.consumption@ == pre.consumption@,
        post.lost_items@ == pre.lost_items@,
        post.messages@ == pre.messages@,
        post.next_account_id == pre.next_account_id + 1,
        post.next_goods_id == pre.next_goods_id,
        post.next_lost_item_id == pre.next_lost_item_id,
        post.next_message_id == pre.next_message_id,
    ensures
        post.wf(),
{
    let n = pre.accounts@.len() as int;
    assert(forall|j: int|
        0 <= j < n ==> (#[trigger] post.accounts@[j]) == pre.accounts@[j]) by {
        assert(forall|j: int|
            0 <= j < n ==> (#[trigger] post.accounts@.drop_last()[j]) == post.accounts@[j]);
    }
    assert forall|id: i64| pre.has_account(id) implies post.has_account(id) by {
        let w = choose|w: int|
            0 <= w < pre.accounts@.len() && #[trigger] pre.accounts@[w].id == id;
        assert(post.accounts@[w].id == id);
    }
    assert forall|i: int, j: int| 0 <= i < j < post.accounts@.len() implies (
    #[trigger] post.accounts@[i].id) < (#[trigger] post.accounts@[j].id) by {
        if j < n {
        } else {
            assert(post.accounts@[i].id < pre.next_account_id);
        }
    }
}

/// Replacing one account row, possibly under a new username, preserves
/// store well-formedness: the id must stay, the row must be well-formed
/// and a changed username must not be in use anywhere.
pub proof fn lemma_wf_rename_account(pre: Store, post: Store, i: int)
    requires
        pre.wf(),
        0 <= i < pre.accounts@.len(),
        post.accounts@ == pre.accounts@.update(i, post.accounts@[i]),
        post.accounts@[i].id == pre.accounts@[i].id,
        post.accounts@[i].username@ == pre.accounts@[i].username@ || !pre.has_username(
            post.accounts@[i].username@,
        ),
        post.accounts@[i].wf(),
        post.goods@ == pre.goods@,
        post.consumption@ == pre.consumption@,
        post.lost_items@ == pre.lost_items@,
        post.messages@ == pre.messages@,
        post.next_account_id == pre.next_account_id,
        post.next_goods_id == pre.next_goods_id,
        post.next_lost_item_id == pre.next_lost_item_id,
        post.next_message_id == pre.next_message_id,
    ensures
        post.wf(),
{
    assert(forall|j: int|
        0 <= j < post.accounts@.len() ==> (#[trigger] post.accounts@[j].id)
            == pre.accounts@[j].id);
    assert forall|id: i64| pre.has_account(id) implies post.has_account(id) by {
        let w = choose|w: int|
            0 <= w < pre.accounts@.len() && #[trigger] pre.accounts@[w].id == id;
        assert(post.accounts@[w].id == id);
    }
    assert forall|a: int, b: int| 0 <= a < b < post.accounts@.len() implies (
    #[trigger] post.accounts@[a].username@) != (#[trigger] post.accounts@[b].username@) by {
        if post.accounts@[i].username@ != pre.accounts@[i].username@ {
            if a != i && b != i {
                assert(post.accounts@[a] == pre.accounts@[a]);
                assert(post.accounts@[b] == pre.accounts@[b]);
            } else if a == i {
                assert(pre.accounts@[b].username@ != post.accounts@[i].username@);
            } else {
                assert(pre.accounts@[a].username@ != post.accounts@[i].username@);
            }
        } else {
            assert(forall|j: int|
                0 <= j < post.accounts@.len() ==> (#[trigger] post.accounts@[j].username@)
                    == pre.accounts@[j].username@);
        }
    }
}

/// Replacing one goods row while keeping its id and name preserves
/// store well-formedness, provided the new row is itself well-formed
/// and nothing else changed.
pub proof fn lemma_wf_update_goods(pre: Store, post: Store, i: int)
    requires
        pre.wf(),
        0 <= i < pre.goods@.len(),
        post.goods@ == pre.goods@.update(i, post.goods@[i]),
        post.goods@[i].id == pre.goods@[i].id,
        post.goods@[i].name@ == pre.goods@[i].name@,
        post.goods@[i].wf(),
        post.accounts@ == pre.accounts@,
        post.consumption@ == pre.consumption@,
        post.lost_items@ == pre.lost_items@,
        post.messages@ == pre.messages@,
        post.next_account_id == pre.next_account_id,
        post.next_goods_id == pre.next_goods_id,
        post.next_lost_item_id == pre.next_lost_item_id,
        post.next_message_id == pre.next_message_id,
    ensures
        post.wf(),
{
    assert(forall|j: int|
        0 <= j < post.goods@.len() ==> (#[trigger] post.goods@[j].id) == pre.goods@[j].id);
    assert(forall|j: int|
        0 <= j < post.goods@.len() ==> (#[trigger] post.goods@[j].name@) == pre.goods@[j].name@);
    assert forall|id: i64| pre.has_goods(id) implies post.has_goods(id) by {
        let w = choose|w: int| 0 <= w < pre.goods@.len() && #[trigger] pre.goods@[w].id == id;
        assert(post.goods@[w].id == id);
    }
}

/// Appending a fresh, well-formed goods row whose id is the current
/// counter and whose name is new preserves store well-formedness.
pub proof fn lemma_wf_push_goods(pre: Store, post: Store)
    requires
        pre.wf(),
        pre.next_goods_id < i64::MAX,
        post.goods@.len() == pre.goods@.len() + 1,
        post.goods@.drop_last() == pre.goods@,
        post.goods@.last().wf(),
        post.goods@.last().id == pre.next_goods_id,
        !pre.has_goods_name(post.goods@.last().name@),
        post.accounts@ == pre.accounts@,
        post.consumption@ == pre.consumption@,
        post.lost_items@ == pre.lost_items@,
        post.messages@ == pre.messages@,
        post.next_account_id == pre.next_account_id,
        post.next_goods_id == pre.next_goods_id + 1,
        post.next_lost_item_id == pre.next_lost_item_id,
        post.next_message_id == pre.next_message_id,
    ensures
        post.wf(),
{
    let n = pre.goods@.len() as int;
    assert(forall|j: int| 0 <= j < n ==> (#[trigger] post.goods@[j]) == pre.goods@[j]) by {
        assert(forall|j: int|
            0 <= j < n ==> (#[trigger] post.goods@.drop_last()[j]) == post.goods@[j]);
    }
    assert forall|id: i64| pre.has_goods(id) implies post.has_goods(id) by {
        let w = choose|w: int| 0 <= w < pre.goods@.len() && #[trigger] pre.goods@[w].id == id;
        assert(post.goods@[w].id == id);
    }
    assert forall|i: int, j: int| 0 <= i < j < post.goods@.len() implies (
    #[trigger] post.goods@[i].id) < (#[trigger] post.goods@[j].id) by {
        if j < n {
        } else {
            assert(post.goods@[i].id < pre.next_goods_id);
        }
    }
}

/// Appending a fresh, well-formed lost item whose id is the current
/// counter preserves store well-formedness.
pub proof fn lemma_wf_push_lost_item(pre: Store, post: Store)
    requires
        pre.wf(),
        pre.next_lost_item_id < i64::MAX,
        post.lost_items@.len() == pre.lost_items@.len() + 1,
        post.lost_items@.drop_last() == pre.lost_items@,
        post.lost_items@.last().wf(),
        post.lost_items@.last().id == pre.next_lost_item_id,
        post.accounts@ == pre.accounts@,
        post.goods@ == pre.goods@,
        post.consumption@ == pre.consumption@,
        post.messages@ == pre.messages@,
        post.next_account_id == pre.next_account_id,
        post.next_goods_id == pre.next_goods_id,
        post.next_lost_item_id == pre.next_lost_item_id + 1,
        post.next_message_id == pre.next_message_id,
    ensures
        post.wf(),
{
    let n = pre.lost_items@.len() as int;
    assert(forall|j: int| 0 <= j < n ==> (#[trigger] post.lost_items@[j]) == pre.lost_items@[j])
        by {
        assert(forall|j: int|
            0 <= j < n ==> (#[trigger] post.lost_items@.drop_last()[j]) == post.lost_items@[j]);
    }
    assert forall|i: int, j: int| 0 <= i < j < post.lost_items@.len() implies (
    #[trigger] post.lost_items@[i].id) < (#[trigger] post.lost_items@[j].id) by {
        if j < n {
        } else {
            assert(post.lost_items@[i].id < pre.next_lost_item_id);
        }
    }
}

/// Replacing one lost item while keeping its id preserves store
/// well-formedness, provided the new row is itself well-formed.
pub proof fn lemma_wf_update_lost_item(pre: Store, post: Store, i: int)
    requires
        pre.wf(),
        0 <= i < pre.lost_items@.len(),
        post.lost_items@ == pre.lost_items@.update(i, post.lost_items@[i]),
        post.lost_items@[i].id == pre.lost_items@[i].id,
        post.lost_items@[i].wf(),
        post.accounts@ == pre.accounts@,
        post.goods@ == pre.goods@,
        post.consumption@ == pre.consumption@,
        post.messages@ == pre.messages@,
        post.next_account_id == pre.next_account_id,
        post.next_goods_id == pre.next_goods_id,
        post.next_lost_item_id == pre.next_lost_item_id,
        post.next_message_id == pre.next_message_id,
    ensures
        post.wf(),
{
    assert(forall|j: int|
        0 <= j < post.lost_items@.len() ==> (#[trigger] post.lost_items@[j].id)
            == pre.lost_items@[j].id);
}

/// Appending a fresh, well-formed message whose id is the current
/// counter and whose two parties exist preserves store
/// well-formedness.
pub proof fn lemma_wf_push_message(pre: Store, post: Store)
    requires
        pre.wf(),
        pre.next_message_id < i64::MAX,
        post.messages@.len() == pre.messages@.len() + 1,
        post.messages@.drop_last() == pre.messages@,
        post.messages@.last().wf(),
        post.messages@.last().id == pre.next_message_id,
        pre.has_account(post.messages@.last().sender),
        pre.has_account(post.messages@.last().receiver),
        post.accounts@ == pre.accounts@,
        post.goods@ == pre.goods@,
        post.consumption@ == pre.consumption@,
        post.lost_items@ == pre.lost_items@,
        post.next_account_id == pre.next_account_id,
        post.next_goods_id == pre.next_goods_id,
        post.next_lost_item_id == pre.next_lost_item_id,
        post.next_message_id == pre.next_message_id + 1,
    ensures
        post.wf(),
{
    let n = pre.messages@.len() as int;
    assert(forall|j: int| 0 <= j < n ==> (#[trigger] post.messages@[j]) == pre.messages@[j]) by {
        assert(forall|j: int|
            0 <= j < n ==> (#[trigger] post.messages@.drop_last()[j]) == post.messages@[j]);
    }
    assert forall|i: int, j: int| 0 <= i < j < post.messages@.len() implies (
    #[trigger] post.messages@[i].id) < (#[trigger] post.messages@[j].id) by {
        if j < n {
        } else {
            assert(post.messages@[i].id < pre.next_message_id);
        }
    }
}

/// Replacing one message while keeping its id and parties preserves
/// store well-formedness, provided the new row is itself well-formed.
pub proof fn lemma_wf_update_message(pre: Store, post: Store, i: int)
    requires
        pre.wf(),
        0 <= i < pre.messages@.len(),
        post.messages@ == pre.messages@.update(i, post.messages@[i]),
        post.messages@[i].id == pre.messages@[i].id,
        post.messages@[i].sender == pre.messages@[i].sender,
        post.messages@[i].receiver == pre.messages@[i].receiver,
        post.messages@[i].wf(),
        post.accounts@ == pre.accounts@,
        post.goods@ == pre.goods@,
        post.consumption@ == pre.consumption@,
        post.lost_items@ == pre.lost_items@,
        post.next_account_id == pre.next_account_id,
        post.next_goods_id == pre.next_goods_id,
        post.next_lost_item_id == pre.next_lost_item_id,
        post.next_message_id == pre.next_message_id,
    ensures
        post.wf(),
{
    assert(forall|j: int|
        0 <= j < post.messages@.len() ==> (#[trigger] post.messages@[j].id)
            == pre.messages@[j].id);
}

/// Replacing one consumption record with one addressing the same cell
/// preserves store well-formedness, provided the new amount is still
/// positive and nothing else changed.
pub proof fn lemma_wf_update_consumption(pre: Store, post: Store, i: int)
    requires
        pre.wf(),
        0 <= i < pre.consumption@.len(),
        post.consumption@ == pre.consumption@.update(i, post.consumption@[i]),
        same_key(pre.consumption@[i], post.consumption@[i]),
        post.consumption@[i].amount > 0,
        post.accounts@ == pre.accounts@,
        post.goods@ == pre.goods@,
        post.lost_items@ == pre.lost_items@,
        post.messages@ == pre.messages@,
        post.next_account_id == pre.next_account_id,
        post.next_goods_id == pre.next_goods_id,
        post.next_lost_item_id == pre.next_lost_item_id,
        post.next_message_id == pre.next_message_id,
    ensures
        post.wf(),
{
    assert forall|a: int, b: int| 0 <= a < b < post.consumption@.len() implies !same_key(
        #[trigger] post.consumption@[a],
        #[trigger] post.consumption@[b],
    ) by {
        assert(!same_key(pre.consumption@[a], pre.consumption@[b]));
    }
}

/// Appending a consumption record for a cell that has no record yet
/// preserves store well-formedness, provided the record is positive,
/// its month is a calendar month and it points at existing rows.
pub proof fn lemma_wf_push_consumption(pre: Store, post: Store)
    requires
        pre.wf(),
        post.consumption@.len() == pre.consumption@.len() + 1,
        post.consumption@.drop_last() == pre.consumption@,
        forall|i: int|
            0 <= i < pre.consumption@.len() ==> !same_key(
                #[trigger] pre.consumption@[i],
                post.consumption@.last(),
            ),
        post.consumption@.last().amount > 0,
        post.consumption@.last().month.wf(),
        pre.has_account(post.consumption@.last().account_id),
        pre.has_goods(post.consumption@.last().goods_id),
        post.accounts@ == pre.accounts@,
        post.goods@ == pre.goods@,
        post.lost_items@ == pre.lost_items@,
        post.messages@ == pre.messages@,
        post.next_account_id == pre.next_account_id,
        post.next_goods_id == pre.next_goods_id,
        post.next_lost_item_id == pre.next_lost_item_id,
        post.next_message_id == pre.next_message_id,
    ensures
        post.wf(),
{
    let n = pre.consumption@.len() as int;
    assert(forall|j: int|
        0 <= j < n ==> (#[trigger] post.consumption@[j]) == pre.consumption@[j]) by {
        assert(forall|j: int|
            0 <= j < n ==> (#[trigger] post.consumption@.drop_last()[j]) == post.consumption@[j]);
    }
    assert forall|a: int, b: int| 0 <= a < b < post.consumption@.len() implies !same_key(
        #[trigger] post.consumption@[a],
        #[trigger] post.consumption@[b],
    ) by {
        if b < n {
            assert(!same_key(pre.consumption@[a], pre.consumption@[b]));
        } else {
            assert(!same_key(pre.consumption@[a], post.consumption@.last()));
        }
    }
}

/// Two consumption records address the same ledger cell.
pub open spec fn same_key(a: ConsumptionRecord, b: ConsumptionRecord) -> bool {
    a.account_id == b.account_id && a.month == b.month && a.goods_id == b.goods_id
}

/// The record addresses the ledger cell (account, month, goods).
pub open spec fn key_matches(r: ConsumptionRecord, a: i64, m: YearMonth, g: i64) -> bool {
    r.account_id == a && r.month == m && r.goods_id == g
}

/// The accumulated amount the ledger holds for one cell: the sum of
/// the amounts of every record addressing it (under `Store::wf` there
/// is at most one such record).
pub open spec fn cons_amount(s: Seq<ConsumptionRecord>, a: i64, m: YearMonth, g: i64) -> int
    decreases s.len(),
{
    if s.len() == 0 {
        0
    } else {
        cons_amount(s.drop_last(), a, m, g) + if key_matches(s.last(), a, m, g) {
            s.last().amount as int
        } else {
            0int
        }
    }
}

/// A ledger with no record for a cell holds nothing for it.
pub proof fn lemma_cons_amount_no_match(s: Seq<ConsumptionRecord>, a: i64, m: YearMonth, g: i64)
    requires
        forall|i: int| 0 <= i < s.len() ==> !key_matches(#[trigger] s[i], a, m, g),
    ensures
        cons_amount(s, a, m, g) == 0,
    decreases s.len(),
{
    if s.len() > 0 {
        lemma_cons_amount_no_match(s.drop_last(), a, m, g);
    }
}

/// A ledger with exactly one record for a cell holds that record's
/// amount for it.
pub proof fn lemma_cons_amount_unique_match(
    s: Seq<ConsumptionRecord>,
    k: int,
    a: i64,
    m: YearMonth,
    g: i64,
)
    requires
        0 <= k < s.len(),
        key_matches(s[k], a, m, g),
        forall|i: int| 0 <= i < s.len() && i != k ==> !key_matches(#[trigger] s[i], a, m, g),
    ensures
        cons_amount(s, a, m, g) == s[k].amount,
    decreases s.len(),
{
    if k == s.len() - 1 {
        lemma_cons_amount_no_match(s.drop_last(), a, m, g);
    } else {
        lemma_cons_amount_unique_match(s.drop_last(), k, a, m, g);
    }
}

/// Replacing one record with one addressing the same cell moves every
/// cell's accumulated amount by the difference at that record alone.
pub proof fn lemma_cons_amount_update(
    s: Seq<ConsumptionRecord>,
    k: int,
    r2: ConsumptionRecord,
    a: i64,
    m: YearMonth,
    g: i64,
)
    requires
        0 <= k < s.len(),
        same_key(s[k], r2),
    ensures
        cons_amount(s.update(k, r2), a, m, g) == cons_amount(s, a, m, g) + (if key_matches(
            s[k],
            a,
            m,
            g,
        ) {
            r2.amount - s[k].amount
        } else {
            0int
        }),
    decreases s.len(),
{
    if k == s.len() - 1 {
        assert(s.update(k, r2).drop_last() =~= s.drop_last());
    } else {
        assert(s.update(k, r2).drop_last() =~= s.drop_last().update(k, r2));
        lemma_cons_amount_update(s.drop_last(), k, r2, a, m, g);
    }
}

/// Appending a record moves only its own cell, by its amount.
pub proof fn lemma_cons_amount_push(
    s: Seq<ConsumptionRecord>,
    r: ConsumptionRecord,
    a: i64,
    m: YearMonth,
    g: i64,
)
    ensures
        cons_amount(s.push(r), a, m, g) == cons_amount(s, a, m, g) + (if key_matches(r, a, m, g) {
            r.amount as int
        } else {
            0int
        }),
{
    assert(s.push(r).drop_last() =~= s);
}

} // verus!
