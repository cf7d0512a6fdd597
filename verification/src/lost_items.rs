//! The lost-and-found register: reporting a found item, claiming it
//! (at most once), and the register listing with finder and claimant
//! usernames resolved.

use vstd::prelude::*;

use crate::dates::Date;
use crate::model::LostItem;
use crate::model::LostStatus;
use crate::model::Store;

verus! {

/// How reporting a lost item can fail.
#[derive(Clone, Copy, PartialEq, Eq, Structural, Debug)]
pub enum ReportLostItemError {
    /// The item name is empty.
    EmptyName,
}

/// How claiming a lost item can fail.
#[derive(Clone, Copy, PartialEq, Eq, Structural, Debug)]
pub enum ClaimLostItemError {
    /// No lost item has this id.
    NotFound,
    /// The item was already claimed; claimant and claim date keep the
    /// values the first claim set.
    AlreadyClaimed,
}

/// A register row as listed: the item with the finder's and the
/// claimant's usernames resolved, where those accounts exist.
pub struct LostItemView {
    pub id: i64,
    pub name: String,
    pub pick_place: Option<String>,
    pub finder: Option<i64>,
    pub finder_name: Option<String>,
    pub claimant: Option<i64>,
    pub claimant_name: Option<String>,
    pub pick_date: Date,
    pub claim_date: Option<Date>,
    pub status: LostStatus,
}

/// The listed form of one register row: usernames are resolved to the
/// account table, absent accounts resolve to nothing.
#[verifier::opaque]
pub open spec fn lost_view(s: Store, it: LostItem) -> LostItemView {
    LostItemView {
        id: it.id,
        name: it.name,
        pick_place: it.pick_place,
        finder: it.finder,
        finder_name: match it.finder {
            Some(f) => if s.has_account(f) {
                Some(s.account_of(f).username)
            } else {
                None
            },
            None => None,
        },
        claimant: it.claimant,
        claimant_name: match it.claimant {
            Some(c) => if s.has_account(c) {
                Some(s.account_of(c).username)
            } else {
                None
            },
            None => None,
        },
        pick_date: it.pick_date,
        claim_date: it.claim_date,
        status: it.status,
    }
}

impl Store {
    /// Records a found item with a fresh id, unclaimed.
    pub fn report_lost_item(
        &mut self,
        name: String,
        pick_place: Option<String>,
        finder: Option<i64>,
        pick_date: Date,
    ) -> (r: Result<(), ReportLostItemError>)
        requires
            old(self).wf(),
            pick_date.wf(),
            old(self).next_lost_item_id < i64::MAX,
        ensures
            final(self).wf(),
            r is Ok <==> name@.len() > 0,
            r is Ok ==> ({
                &&& final(self).lost_items@.len() == old(self).lost_items@.len() + 1
                &&& final(self).lost_items@.drop_last() == old(self).lost_items@
                &&& final(self).lost_items@.last() == (LostItem {
                    id: old(self).next_lost_item_id,
                    name,
                    pick_place,
                    finder,
                    claimant: None,
                    pick_date,
                    claim_date: None,
                    status: LostStatus::Unclaimed,
                })
                &&& final(self).next_lost_item_id == old(self).next_lost_item_id + 1
                &&& final(self).accounts@ == old(self).accounts@
                &&& final(self).goods@ == old(self).goods@
                &&& final(self).consumption@ == old(self).consumption@
                &&& final(self).messages@ == old(self).messages@
                &&& final(self).next_account_id == old(self).next_account_id
                &&& final(self).next_goods_id == old(self).next_goods_id
                &&& final(self).next_message_id == old(self).next_message_id
            }),
            !(r is Ok) ==> *final(self) == *old(self),
    {
        if name.as_str().is_empty() {
            return Err(ReportLostItemError::EmptyName);
        }
        let row = LostItem {
            id: self.next_lost_item_id,
            name,
            pick_place,
            finder,
            claimant: None,
            pick_date,
            claim_date: None,
            status: LostStatus::Unclaimed,
        };
        self.lost_items.push(row);
        self.next_lost_item_id = self.next_lost_item_id + 1;
        proof {
            assert(self.lost_items@.drop_last() =~= old(self).lost_items@);
            crate::model::lemma_wf_push_lost_item(*old(self), *self);
        }
        Ok(())
    }

    /// Claims an unclaimed item for the given account: sets the status,
    /// the claimant and the claim date, exactly once per item.
    pub fn claim_lost_item(&mut self, item_id: i64, claimant_id: i64, claim_date: Date) -> (r:
        Result<(), ClaimLostItemError>)
        requires
            old(self).wf(),
            claim_date.wf(),
        ensures
            final(self).wf(),
            r == Err::<(), ClaimLostItemError>(ClaimLostItemError::NotFound) <==> !old(
                self,
            ).has_lost_item(item_id),
            r == Err::<(), ClaimLostItemError>(ClaimLostItemError::AlreadyClaimed) <==> (old(
                self,
            ).has_lost_item(item_id) && old(self).lost_item_of(item_id).status
                == LostStatus::Claimed),
            r is Ok <==> (old(self).has_lost_item(item_id) && old(self).lost_item_of(item_id).status
                == LostStatus::Unclaimed),
            r is Ok ==> ({
                let i = old(self).lost_item_index(item_id);
                &&& final(self).lost_items@ == old(self).lost_items@.update(
                    i,
                    (LostItem {
                        claimant: Some(claimant_id),
                        claim_date: Some(claim_date),
                        status: LostStatus::Claimed,
                        ..old(self).lost_items@[i]
                    }),
                )
                &&& final(self).accounts@ == old(self).accounts@
                &&& final(self).goods@ == old(self).goods@
                &&& final(self).consumption@ == old(self).consumption@
                &&& final(self).messages@ == old(self).messages@
                &&& final(self).next_account_id == old(self).next_account_id
                &&& final(self).next_goods_id == old(self).next_goods_id
                &&& final(self).next_lost_item_id == old(self).next_lost_item_id
                &&& final(self).next_message_id == old(self).next_message_id
            }),
            !(r is Ok) ==> *final(self) == *old(self),
    {
        let i = match self.find_lost_item(item_id) {
            Some(i) => i,
            None => {
                return Err(ClaimLostItemError::NotFound);
            },
        };
        if matches!(self.lost_items[i].status, LostStatus::Claimed) {
            return Err(ClaimLostItemError::AlreadyClaimed);
        }
        self.lost_items[i].claimant = Some(claimant_id);
        self.lost_items[i].claim_date = Some(claim_date);
        self.lost_items[i].status = LostStatus::Claimed;
        proof {
            assert(self.lost_items@ =~= old(self).lost_items@.update(
                i as int,
                self.lost_items@[i as int],
            ));
            crate::model::lemma_wf_update_lost_item(*old(self), *self, i as int);
        }
        Ok(())
    }

    /// Lists the whole register in table order (ascending id), with
    /// finder and claimant usernames resolved.
    pub fn get_all_lost_items(&self) -> (r: Vec<LostItemView>)
        requires
            self.wf(),
        ensures
            r@.len() == self.lost_items@.len(),
            forall|i: int|
                0 <= i < r@.len() ==> (#[trigger] r@[i]) == lost_view(
                    *self,
                    self.lost_items@[i],
                ),
    {
        let mut views: Vec<LostItemView> = Vec::new();
        let mut k: usize = 0;
        while k < self.lost_items.len()
            invariant
                self.wf(),
                k <= self.lost_items@.len(),
                views@.len() == k,
                forall|i: int|
                    0 <= i < k ==> (#[trigger] views@[i]) == lost_view(
                        *self,
                        self.lost_items@[i],
                    ),
            decreases self.lost_items@.len() - k,
        {
            let it = &self.lost_items[k];
            let finder_name: Option<String> = match it.finder {
                Some(f) => match self.find_account(f) {
                    Some(ai) => Some(self.accounts[ai].username.clone()),
                    None => None,
                },
                None => None,
            };
            let claimant_name: Option<String> = match it.claimant {
                Some(c) => match self.find_account(c) {
                    Some(ai) => Some(self.accounts[ai].username.clone()),
                    None => None,
                },
                None => None,
            };
            let view = LostItemView {
                id: it.id,
                name: it.name.clone(),
                pick_place: match &it.pick_place {
                    Some(p) => Some(p.clone()),
                    None => None,
                },
                finder: it.finder,
                finder_name,
                claimant: it.claimant,
                claimant_name,
                pick_date: it.pick_date,
                claim_date: it.claim_date,
                status: it.status,
            };
            proof {
                reveal(lost_view);
                assert(view == lost_view(*self, self.lost_items@[k as int]));
            }
            views.push(view);
            k += 1;
        }
        views
    }
}

} // verus!
