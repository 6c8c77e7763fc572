//! The state of the backend as mathematics, and how replies are read.

use vstd::prelude::*;
use crate::table::views;
use crate::text::decimal;
use crate::types::{ClientView, Error, ErrorView, ItemView, OrderView, ReviewView};

verus! {

/// What the backend holds: the next identifier to hand out and the four
/// tables.
#[verifier::ext_equal]
pub struct State {
    pub next_id: u64,
    pub clients: Map<u64, ClientView>,
    pub orders: Map<u64, OrderView>,
    pub reviews: Map<u64, ReviewView>,
    pub items: Map<u64, ItemView>,
}

impl State {
    /// The state before the first request: nothing on file, identifier 0
    /// next.
    pub open spec fn empty() -> State {
        State {
            next_id: 0,
            clients: Map::empty(),
            orders: Map::empty(),
            reviews: Map::empty(),
            items: Map::empty(),
        }
    }

    /// Whether a record of any kind is kept under `id`.
    pub open spec fn uses(self, id: u64) -> bool {
        ||| self.clients.dom().contains(id)
        ||| self.orders.dom().contains(id)
        ||| self.reviews.dom().contains(id)
        ||| self.items.dom().contains(id)
    }

    /// Every record is kept under the identifier it carries, that identifier
    /// has been handed out, and it is in use for that record only.
    pub open spec fn sound(self) -> bool {
        &&& forall|id: u64| #[trigger]
            self.clients.dom().contains(id) ==> {
                &&& id < self.next_id
                &&& self.clients[id].id == id
                &&& !self.orders.dom().contains(id)
                &&& !self.reviews.dom().contains(id)
                &&& !self.items.dom().contains(id)
            }
        &&& forall|id: u64| #[trigger]
            self.orders.dom().contains(id) ==> {
                &&& id < self.next_id
                &&& self.orders[id].id == id
                &&& !self.reviews.dom().contains(id)
                &&& !self.items.dom().contains(id)
            }
        &&& forall|id: u64| #[trigger]
            self.reviews.dom().contains(id) ==> {
                &&& id < self.next_id
                &&& self.reviews[id].id == id
                &&& !self.items.dom().contains(id)
            }
        &&& forall|id: u64| #[trigger]
            self.items.dom().contains(id) ==> id < self.next_id && self.items[id].id == id
    }
}

/// A result read as mathematics.
pub open spec fn outcome<T: View>(result: Result<T, Error>) -> Result<T::V, ErrorView> {
    match result {
        Ok(value) => Ok(value@),
        Err(error) => Err(error@),
    }
}

/// A listing read as mathematics.
pub open spec fn listing<T: View>(result: Result<Vec<T>, Error>) -> Result<
    Seq<T::V>,
    ErrorView,
> {
    match result {
        Ok(values) => Ok(views(values@)),
        Err(error) => Err(error@),
    }
}

/// The reply to a request that writes, read as mathematics. `None` stands
/// for a request that the limits of the store turn away: a record that does
/// not fit, a total beyond 64 bits, no identifier left.
pub open spec fn reply<T: View>(result: Option<Result<T, Error>>) -> Option<
    Result<T::V, ErrorView>,
> {
    match result {
        Some(inner) => Some(outcome(inner)),
        None => None,
    }
}

/// `prefix`, the decimal numeral of `n`, `suffix`.
pub open spec fn numbered_text(prefix: Seq<char>, n: u64, suffix: Seq<char>) -> Seq<char> {
    prefix + decimal(n as nat) + suffix
}

} // verus!
