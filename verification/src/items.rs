//! Food items: offering, listing, searching and withdrawing.

use vstd::prelude::*;
use vstd::string::StringExecFns;
use crate::backend::Backend;
use crate::model::{listing, numbered_text, outcome, reply, State};
use crate::record::Record;
use crate::stable::{cell_get, MAX_RECORD_SIZE};
use crate::table::{
    ascending, id_limit, lemma_filter_next, lemma_filter_none, lists, rows, views, Table,
};
use crate::text::{contains_text, numbered, occurs_in};
use crate::types::{Error, ErrorView, Item, ItemPayload, ItemPayloadView, ItemView, ReviewView};
use crate::validation::{check_lengths, complaints};

verus! {

/// Listing all items.
pub open spec fn all_items(s: State) -> Result<Seq<ItemView>, ErrorView> {
    if rows(s.items).len() == 0 {
        Err(ErrorView::NotFound { msg: "no Food items for order could be found"@ })
    } else {
        Ok(rows(s.items))
    }
}

/// Looking up one item.
pub open spec fn item_by_id(s: State, id: u64) -> Result<ItemView, ErrorView> {
    if s.items.dom().contains(id) {
        Ok(s.items[id])
    } else {
        Err(
            ErrorView::NotFound {
                msg: numbered_text("no Food item could be found for id: "@, id, ""@),
            },
        )
    }
}

/// Whether `caller` put `item` on offer.
pub open spec fn item_owner_check(item: ItemView, caller: Seq<char>) -> Result<(), ErrorView> {
    if item.item_owner == caller {
        Ok(())
    } else {
        Err(
            ErrorView::Unauthorized {
                msg: numbered_text(
                    "Caller is not the item owner of the item with id="@,
                    item.id,
                    ""@,
                ),
            },
        )
    }
}

/// An item needs a name of two characters and a description of four.
pub open spec fn item_payload_ok(payload: ItemPayloadView) -> bool {
    payload.name.len() >= 2 && payload.description.len() >= 4
}

/// The item that a payload describes, under the next identifier.
pub open spec fn offered(s: State, caller: Seq<char>, payload: ItemPayloadView) -> ItemView {
    ItemView {
        id: s.next_id,
        item_owner: caller,
        name: payload.name,
        description: payload.description,
        price: payload.price,
        category: payload.category,
    }
}

/// Putting an item on offer.
pub open spec fn create_food_item_step(
    s: State,
    caller: Seq<char>,
    payload: ItemPayloadView,
) -> (State, Option<Result<ItemView, ErrorView>>) {
    if !item_payload_ok(payload) {
        (
            s,
            Some(
                Err(
                    ErrorView::InvalidPayload {
                        msg: complaints(
                            "name"@,
                            2,
                            payload.name.len() >= 2,
                            "description"@,
                            4,
                            payload.description.len() >= 4,
                        ),
                    },
                ),
            ),
        )
    } else if Item::size(offered(s, caller, payload)) > MAX_RECORD_SIZE || s.next_id == u64::MAX
        {
        (s, None)
    } else {
        (
            State {
                next_id: (s.next_id + 1) as u64,
                items: s.items.insert(s.next_id, offered(s, caller, payload)),
                ..s
            },
            Some(Ok(offered(s, caller, payload))),
        )
    }
}

/// The reviews that are not about item `item_id`.
pub open spec fn without_item(reviews: Map<u64, ReviewView>, item_id: u64) -> Map<
    u64,
    ReviewView,
> {
    Map::new(
        |id: u64| reviews.dom().contains(id) && reviews[id].item_id != item_id,
        |id: u64| reviews[id],
    )
}

/// Withdrawing an item, and with it the reviews of it.
pub open spec fn delete_food_item_step(s: State, caller: Seq<char>, id: u64) -> (
    State,
    Result<Seq<char>, ErrorView>,
) {
    match item_by_id(s, id) {
        Err(error) => (s, Err(error)),
        Ok(item) => match item_owner_check(item, caller) {
            Err(error) => (s, Err(error)),
            Ok(_) => (
                State { items: s.items.remove(id), reviews: without_item(s.reviews, id), ..s },
                Ok(numbered_text("Food item id: "@, id, " deleted"@)),
            ),
        },
    }
}

/// The items whose category or description mentions `category`.
pub open spec fn mentions(category: Seq<char>) -> spec_fn(ItemView) -> bool {
    |item: ItemView| occurs_in(category, item.category) || occurs_in(category, item.description)
}

/// Searching the items by category.
pub open spec fn items_by_category(s: State, category: Seq<char>) -> Result<
    Seq<ItemView>,
    ErrorView,
> {
    let found = rows(s.items).filter(mentions(category));
    if found.len() == 0 {
        Err(
            ErrorView::NotFound {
                msg: "no Food items for category: "@ + category + " could be found"@,
            },
        )
    } else {
        Ok(found)
    }
}

/// The identifier from which on the reviews have not been gone through:
/// that of review `at` in the list, or the limit when the list is through.
spec fn frontier(listed: Seq<(u64, ReviewView)>, at: int) -> int {
    if at < listed.len() {
        listed[at].0 as int
    } else {
        id_limit() as int
    }
}

/// The reviews left when those about `item_id` below `bound` are gone.
spec fn without_item_below(reviews: Map<u64, ReviewView>, item_id: u64, bound: int) -> Map<
    u64,
    ReviewView,
> {
    Map::new(
        |id: u64| reviews.dom().contains(id) && !(reviews[id].item_id == item_id && id < bound),
        |id: u64| reviews[id],
    )
}

/// Turns the caller away unless they put `item` on offer.
pub fn is_item_owner(item: &Item, caller: &String) -> (checked: Result<(), Error>)
    ensures
        outcome(checked) == item_owner_check(item@, caller@),
{
    if !(item.item_owner == *caller) {
        Err(
            Error::Unauthorized {
                msg: numbered("Caller is not the item owner of the item with id=", item.id, ""),
            },
        )
    } else {
        Ok(())
    }
}

impl Backend {
    /// All items, by ascending identifier. With no item on offer the answer
    /// is `NotFound`, not an empty list.
    pub fn get_all_food_items(&self) -> (found: Result<Vec<Item>, Error>)
        requires
            self.wf(),
        ensures
            listing(found) == all_items(self@),
    {
        let items = self.items.rows();
        if items.len() == 0 {
            Err(
                Error::NotFound { msg: String::from_str("no Food items for order could be found") },
            )
        } else {
            Ok(items)
        }
    }

    /// The item kept under `id`.
    pub fn get_food_item_by_id(&self, id: u64) -> (found: Result<Item, Error>)
        requires
            self.wf(),
        ensures
            outcome(found) == item_by_id(self@, id),
    {
        match self.items.get(id) {
            Some(item) => Ok(item),
            None => Err(
                Error::NotFound { msg: numbered("no Food item could be found for id: ", id, "") },
            ),
        }
    }

    /// Puts an item on offer in the caller's name.
    ///
    /// A name under two characters or a description under four is turned
    /// down before an identifier is taken. `None`, with nothing changed, when
    /// the item does not fit or the identifiers are used up.
    pub fn create_food_item(&mut self, caller: &String, payload: ItemPayload) -> (created: Option<
        Result<Item, Error>,
    >)
        requires
            old(self).wf(),
        ensures
            final(self).wf(),
            (final(self)@, reply(created)) == create_food_item_step(
                old(self)@,
                caller@,
                payload@,
            ),
    {
        match check_lengths("name", &payload.name, 2, "description", &payload.description, 4) {
            Err(msg) => {
                return Some(Err(Error::InvalidPayload { msg }));
            },
            Ok(_) => {},
        }
        let item = Item {
            id: cell_get(&self.counter),
            item_owner: caller.clone(),
            name: payload.name,
            description: payload.description,
            price: payload.price,
            category: payload.category,
        };
        if !Table::fits(&item) {
            return None;
        }
        let granted = self.next_id();
        self.keep_item(granted, item)
    }

    /// Keeps an item under the identifier that `next_id` handed out, or not
    /// at all when it had none left.
    pub fn keep_item(&mut self, granted: Option<u64>, item: Item) -> (kept: Option<
        Result<Item, Error>,
    >)
        requires
            old(self).wf(),
            Item::size(item@) <= MAX_RECORD_SIZE,
            granted matches Some(id) ==> id == item.id && id < old(self)@.next_id && !old(
                self,
            )@.uses(id),
        ensures
            final(self).wf(),
            match granted {
                Some(id) => final(self)@ == (State {
                    items: old(self)@.items.insert(id, item@),
                    ..old(self)@
                }) && reply(kept) == Some(Ok::<_, ErrorView>(item@)),
                None => final(self)@ == old(self)@ && kept is None,
            },
    {
        match granted {
            Some(id) => {
                self.items.insert(id, &item);
                Some(Ok(item))
            },
            None => None,
        }
    }

    /// Withdraws the item `id` for the caller, and deletes the reviews of it.
    ///
    /// An unknown item is turned down, then a caller who did not put it on
    /// offer.
    pub fn delete_food_item_by_id(&mut self, caller: &String, id: u64) -> (deleted: Result<
        String,
        Error,
    >)
        requires
            old(self).wf(),
        ensures
            final(self).wf(),
            (final(self)@, outcome(deleted)) == delete_food_item_step(old(self)@, caller@, id),
    {
        let item = match self.get_food_item_by_id(id) {
            Ok(item) => item,
            Err(error) => { return Err(error); },
        };
        match is_item_owner(&item, caller) {
            Ok(_) => {},
            Err(error) => { return Err(error); },
        }
        let entries = self.reviews.scan();
        let ghost reviews = self.reviews@;
        let ghost listed = ascending(reviews);
        proof {
            assert(self.reviews@ =~= without_item_below(reviews, id, frontier(listed, 0))) by {
                assert forall|key: u64| reviews.dom().contains(key) implies key >= frontier(
                    listed,
                    0,
                ) by {
                    let i = choose|i: int| 0 <= i < listed.len() && #[trigger] listed[i].0 == key;
                    if i > 0 {
                        assert(listed[0].0 < listed[i].0);
                    }
                }
            }
        }
        let mut at: usize = 0;
        while at < entries.len()
            invariant
                at <= entries@.len(),
                entries@.len() == listed.len(),
                listed == ascending(reviews),
                forall|i: int|
                    0 <= i < entries@.len() ==> (#[trigger] entries@[i]).0 == listed[i].0
                        && entries@[i].1@ == listed[i].1,
                lists(listed, reviews),
                self.reviews.wf(),
                self.reviews@ == without_item_below(reviews, id, frontier(listed, at as int)),
                self.clients == old(self).clients,
                self.orders == old(self).orders,
                self.items == old(self).items,
                self.counter == old(self).counter,
            decreases entries@.len() - at,
        {
            let key = entries[at].0;
            assert(reviews.contains_pair(listed[at as int].0, listed[at as int].1));
            if entries[at].1.item_id == id {
                let _ = self.reviews.remove(key);
            }
            proof {
                let next = frontier(listed, at + 1);
                assert(key < next) by {
                    if at + 1 < listed.len() {
                        assert(listed[at as int].0 < listed[at + 1].0);
                    }
                }
                assert forall|other: u64|
                    reviews.dom().contains(other) && key < other implies other >= next by {
                    let i = choose|i: int| 0 <= i < listed.len() && #[trigger] listed[i].0 == other;
                    if i < at {
                        assert(listed[i].0 < listed[at as int].0);
                    }
                    if i > at + 1 {
                        assert(listed[at + 1].0 < listed[i].0);
                    }
                }
                assert(self.reviews@ =~= without_item_below(reviews, id, next));
            }
            at = at + 1;
        }
        proof {
            assert(self.reviews@ =~= without_item(reviews, id));
        }
        match self.items.remove(id) {
            Some(_) => Ok(numbered("Food item id: ", id, " deleted")),
            None => Err(
                Error::NotFound { msg: numbered("Food item id: ", id, " could not be deleted") },
            ),
        }
    }

    /// The items whose category or description mentions `category`, by
    /// ascending identifier; `NotFound` when there is none.
    pub fn get_food_items_by_category(&self, category: String) -> (found: Result<Vec<Item>, Error>)
        requires
            self.wf(),
        ensures
            listing(found) == items_by_category(self@, category@),
    {
        let items = self.items.rows();
        let ghost all = rows(self@.items);
        let ghost given = items@;
        let mut found: Vec<Item> = Vec::new();
        proof {
            lemma_filter_none(all, mentions(category@));
        }
        for item in it: items
            invariant
                it.seq() == given,
                views(given) == all,
                views(found@) == all.take(it.index() as int).filter(mentions(category@)),
        {
            let ghost before = found@;
            proof {
                lemma_filter_next(all, it.index() as int, mentions(category@));
                assert(views(given)[it.index() as int] == item@);
            }
            if contains_text(&item.category, &category) || contains_text(
                &item.description,
                &category,
            ) {
                found.push(item);
                assert(views(found@) =~= views(before).push(item@));
            }
        }
        if found.len() == 0 {
            let mut msg = String::from_str("no Food items for category: ");
            msg.append(category.as_str());
            msg.append(" could be found");
            Err(Error::NotFound { msg })
        } else {
            Ok(found)
        }
    }
}

} // verus!
