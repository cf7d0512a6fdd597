//! Catalog operations: adding goods, updating price and stock, and
//! listing the catalog.

use vstd::prelude::*;

use crate::model::Goods;
use crate::model::Store;

verus! {

/// How adding goods can fail.
#[derive(Clone, Copy, PartialEq, Eq, Structural, Debug)]
pub enum AddGoodsError {
    /// The goods name is empty.
    EmptyName,
    /// The price is zero; prices must be positive.
    NonPositivePrice,
    /// The stock is negative.
    NegativeStock,
    /// Another goods row already carries this name.
    DuplicateName,
}

/// How updating goods can fail.
#[derive(Clone, Copy, PartialEq, Eq, Structural, Debug)]
pub enum UpdateGoodsError {
    /// The stock is negative.
    NegativeStock,
    /// The price is zero; prices must be positive.
    NonPositivePrice,
    /// No goods row has this id.
    NotFound,
}

/// The answer to a goods update that passed validation.
#[derive(Clone, Copy, PartialEq, Eq, Structural, Debug)]
pub enum UpdateGoodsOutcome {
    /// The goods row was written.
    Updated,
    /// Neither a stock nor a price was supplied.
    NoChange,
}

impl Store {
    /// Adds a goods row with a fresh id; an absent stock defaults to
    /// zero.
    pub fn add_goods(
        &mut self,
        name: String,
        category: Option<String>,
        price: u64,
        stock: Option<i64>,
    ) -> (r: Result<(), AddGoodsError>)
        requires
            old(self).wf(),
            old(self).next_goods_id < i64::MAX,
        ensures
            final(self).wf(),
            r == Err::<(), AddGoodsError>(AddGoodsError::EmptyName) <==> name@.len() == 0,
            r == Err::<(), AddGoodsError>(AddGoodsError::NonPositivePrice) <==> (name@.len() > 0
                && price == 0),
            r == Err::<(), AddGoodsError>(AddGoodsError::NegativeStock) <==> (name@.len() > 0
                && price > 0 && (stock matches Some(v) && v < 0)),
            r == Err::<(), AddGoodsError>(AddGoodsError::DuplicateName) <==> (name@.len() > 0
                && price > 0 && !(stock matches Some(v) && v < 0) && old(self).has_goods_name(
                name@,
            )),
            r is Ok <==> (name@.len() > 0 && price > 0 && !(stock matches Some(v) && v < 0) && !old(
                self,
            ).has_goods_name(name@)),
            r is Ok ==> ({
                &&& final(self).goods@.len() == old(self).goods@.len() + 1
                &&& final(self).goods@.drop_last() == old(self).goods@
                &&& final(self).goods@.last() == (Goods {
                    id: old(self).next_goods_id,
                    name,
                    category,
                    price,
                    stock: match stock {
                        Some(v) => v,
                        None => 0,
                    },
                })
                &&& final(self).next_goods_id == old(self).next_goods_id + 1
                &&& final(self).accounts@ == old(self).accounts@
                &&& final(self).consumption@ == old(self).consumption@
                &&& final(self).lost_items@ == old(self).lost_items@
                &&& final(self).messages@ == old(self).messages@
                &&& final(self).next_account_id == old(self).next_account_id
                &&& final(self).next_lost_item_id == old(self).next_lost_item_id
                &&& final(self).next_message_id == old(self).next_message_id
            }),
            !(r is Ok) ==> *final(self) == *old(self),
    {
        if name.as_str().is_empty() {
            return Err(AddGoodsError::EmptyName);
        }
        if price == 0 {
            return Err(AddGoodsError::NonPositivePrice);
        }
        let stock_value: i64 = match stock {
            Some(v) => {
                if v < 0 {
                    return Err(AddGoodsError::NegativeStock);
                }
                v
            },
            None => 0,
        };
        if self.find_goods_by_name(&name).is_some() {
            return Err(AddGoodsError::DuplicateName);
        }
        let row = Goods { id: self.next_goods_id, name, category, price, stock: stock_value };
        self.goods.push(row);
        self.next_goods_id = self.next_goods_id + 1;
        proof {
            assert(self.goods@.drop_last() =~= old(self).goods@);
            crate::model::lemma_wf_push_goods(*old(self), *self);
        }
        Ok(())
    }

    /// Updates a goods row's stock and/or price; the guarded write
    /// touches only that row.
    pub fn update_goods_info(&mut self, goods_id: i64, stock: Option<i64>, price: Option<u64>) -> (r:
        Result<UpdateGoodsOutcome, UpdateGoodsError>)
        requires
            old(self).wf(),
        ensures
            final(self).wf(),
            r == Err::<UpdateGoodsOutcome, UpdateGoodsError>(UpdateGoodsError::NegativeStock) <==> (
            stock matches Some(v) && v < 0),
            r == Err::<UpdateGoodsOutcome, UpdateGoodsError>(UpdateGoodsError::NonPositivePrice)
                <==> (!(stock matches Some(v) && v < 0) && (price matches Some(p) && p == 0)),
            r == Ok::<UpdateGoodsOutcome, UpdateGoodsError>(UpdateGoodsOutcome::NoChange) <==> (
            stock is None && price is None),
            r == Err::<UpdateGoodsOutcome, UpdateGoodsError>(UpdateGoodsError::NotFound) <==> (!(
            stock matches Some(v) && v < 0) && !(price matches Some(p) && p == 0) && !(stock is None
                && price is None) && !old(self).has_goods(goods_id)),
            r == Ok::<UpdateGoodsOutcome, UpdateGoodsError>(UpdateGoodsOutcome::Updated) <==> (!(
            stock matches Some(v) && v < 0) && !(price matches Some(p) && p == 0) && !(stock is None
                && price is None) && old(self).has_goods(goods_id)),
            r == Ok::<UpdateGoodsOutcome, UpdateGoodsError>(UpdateGoodsOutcome::Updated) ==> ({
                let i = old(self).goods_index(goods_id);
                &&& final(self).goods@ == old(self).goods@.update(
                    i,
                    (Goods {
                        stock: match stock {
                            Some(v) => v,
                            None => old(self).goods@[i].stock,
                        },
                        price: match price {
                            Some(p) => p,
                            None => old(self).goods@[i].price,
                        },
                        ..old(self).goods@[i]
                    }),
                )
                &&& final(self).accounts@ == old(self).accounts@
                &&& final(self).consumption@ == old(self).consumption@
                &&& final(self).lost_items@ == old(self).lost_items@
                &&& final(self).messages@ == old(self).messages@
                &&& final(self).next_account_id == old(self).next_account_id
                &&& final(self).next_goods_id == old(self).next_goods_id
                &&& final(self).next_lost_item_id == old(self).next_lost_item_id
                &&& final(self).next_message_id == old(self).next_message_id
            }),
            r != Ok::<UpdateGoodsOutcome, UpdateGoodsError>(UpdateGoodsOutcome::Updated)
                ==> *final(self) == *old(self),
    {
        if let Some(v) = stock {
            if v < 0 {
                return Err(UpdateGoodsError::NegativeStock);
            }
        }
        if let Some(p) = price {
            if p == 0 {
                return Err(UpdateGoodsError::NonPositivePrice);
            }
        }
        if stock.is_none() && price.is_none() {
            return Ok(UpdateGoodsOutcome::NoChange);
        }
        let i = match self.find_goods(goods_id) {
            Some(i) => i,
            None => {
                return Err(UpdateGoodsError::NotFound);
            },
        };
        if let Some(v) = stock {
            self.goods[i].stock = v;
        }
        if let Some(p) = price {
            self.goods[i].price = p;
        }
        proof {
            assert(self.goods@ =~= old(self).goods@.update(i as int, self.goods@[i as int]));
            crate::model::lemma_wf_update_goods(*old(self), *self, i as int);
        }
        Ok(UpdateGoodsOutcome::Updated)
    }

    /// Hands back the whole catalog, in ascending id order (the order
    /// the table is kept in).
    pub fn get_all_goods(&self) -> (r: &Vec<Goods>)
        ensures
            r@ == self.goods@,
    {
        &self.goods
    }
}

} // verus!
