//! The wall clock, an outside collaborator: purchases are posted to
//! the calendar month the clock shows at the moment of the call.

use vstd::prelude::*;

use crate::dates::Date;
use crate::dates::YearMonth;
use crate::model::Store;
use crate::purchase::LineItem;
use crate::purchase::PurchaseError;
use crate::purchase::PurchaseOutcome;
use crate::purchase::purchase_post;

verus! {

/// Relies on `chrono::Local::now` and `chrono::Datelike`: `month()`
/// always lies in 1..=12 and `day()` in 1..=31. Which date comes back
/// depends on the clock and the machine's time zone, so nothing more
/// is promised.
#[verifier::external_body]
fn clock_today() -> (r: Date)
    ensures
        r.wf(),
{
    let now = chrono::Local::now().date_naive();
    Date {
        year: chrono::Datelike::year(&now),
        month: chrono::Datelike::month(&now),
        day: chrono::Datelike::day(&now),
    }
}

impl Store {
    /// Fulfills an order against the calendar month the clock shows
    /// now: for some such month, store and answer move exactly as the
    /// purchase engine specifies for it.
    pub fn purchase_goods_today(&mut self, customer_id: i64, items: &Vec<LineItem>) -> (r: Result<
        PurchaseOutcome,
        PurchaseError,
    >)
        requires
            old(self).wf(),
        ensures
            final(self).wf(),
            exists|m: YearMonth|
                m.wf() && #[trigger] purchase_post(
                    *old(self),
                    *final(self),
                    r,
                    customer_id,
                    items@,
                    m,
                ),
    {
        let today = clock_today();
        let month = today.month_of();
        self.purchase_goods(customer_id, items, month)
    }
}

} // verus!
