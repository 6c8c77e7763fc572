//! Orders: placing, listing, status and delivery.

use vstd::prelude::*;
use vstd::string::StringExecFns;
use std::collections::HashMap;
use crate::backend::Backend;
use crate::model::{listing, numbered_text, outcome, reply, State};
use crate::record::Record;
use crate::stable::{cell_get, MAX_RECORD_SIZE};
use crate::table::{
    ascending, entries_below, id_limit, lemma_filter_next, lemma_filter_none, rows, views, Table,
};
use crate::text::numbered;
use crate::types::{
    ConfirmDeliveryPayload, Error, ErrorView, ItemView, Order, OrderItem, OrderPayload,
    OrderPayloadView, OrderView,
};

verus! {

broadcast use vstd::std_specs::hash::group_hash_axioms;

/// The quantity asked of each item; of two lines for one item the later one
/// counts.
pub open spec fn quantities(lines: Seq<OrderItem>) -> Map<u64, u64>
    decreases lines.len(),
{
    if lines.len() == 0 {
        Map::empty()
    } else {
        quantities(lines.drop_last()).insert(lines.last().item_id, lines.last().quantity)
    }
}

/// What item `id` adds to the total: price times quantity where the item is
/// on offer and asked for, nothing otherwise.
pub open spec fn line_cost(items: Map<u64, ItemView>, wanted: Map<u64, u64>, id: u64) -> nat {
    if items.dom().contains(id) && wanted.dom().contains(id) {
        (items[id].price * wanted[id]) as nat
    } else {
        0
    }
}

/// The sum of the line costs of the identifiers below `bound`.
pub open spec fn cost_below(items: Map<u64, ItemView>, wanted: Map<u64, u64>, bound: nat) -> nat
    decreases bound,
{
    if bound == 0 {
        0
    } else if bound > id_limit() {
        cost_below(items, wanted, (bound - 1) as nat)
    } else {
        cost_below(items, wanted, (bound - 1) as nat) + line_cost(
            items,
            wanted,
            (bound - 1) as u64,
        )
    }
}

/// The total of an order: the sum of the line costs of all identifiers.
pub open spec fn order_total(items: Map<u64, ItemView>, wanted: Map<u64, u64>) -> nat {
    cost_below(items, wanted, id_limit())
}

/// The sum of the costs of listed items.
spec fn listed_cost(entries: Seq<(u64, ItemView)>, wanted: Map<u64, u64>) -> nat
    decreases entries.len(),
{
    if entries.len() == 0 {
        0
    } else {
        listed_cost(entries.drop_last(), wanted) + entry_cost(entries.last(), wanted)
    }
}

/// What a listed item adds to the total.
spec fn entry_cost(entry: (u64, ItemView), wanted: Map<u64, u64>) -> nat {
    if wanted.dom().contains(entry.0) {
        (entry.1.price * wanted[entry.0]) as nat
    } else {
        0
    }
}

proof fn lemma_listed_cost_below(items: Map<u64, ItemView>, wanted: Map<u64, u64>, bound: nat)
    requires
        bound <= id_limit(),
    ensures
        listed_cost(entries_below(items, bound), wanted) == cost_below(items, wanted, bound),
    decreases bound,
{
    if bound > 0 {
        lemma_listed_cost_below(items, wanted, (bound - 1) as nat);
        let before = entries_below(items, (bound - 1) as nat);
        let id = (bound - 1) as u64;
        if items.dom().contains(id) {
            assert(before.push((id, items[id])).drop_last() =~= before);
        }
    }
}

proof fn lemma_listed_cost_grows(entries: Seq<(u64, ItemView)>, wanted: Map<u64, u64>, n: int)
    requires
        0 <= n <= entries.len(),
    ensures
        listed_cost(entries.take(n), wanted) <= listed_cost(entries, wanted),
    decreases entries.len(),
{
    if n == entries.len() {
        assert(entries.take(n) =~= entries);
    } else {
        lemma_listed_cost_grows(entries.drop_last(), wanted, n);
        assert(entries.drop_last().take(n) =~= entries.take(n));
    }
}

/// The order that a payload asks for, under the next identifier.
pub open spec fn placed(s: State, payload: OrderPayloadView) -> OrderView {
    OrderView {
        id: s.next_id,
        client_id: payload.client_id,
        items: quantities(payload.items),
        total: order_total(s.items, quantities(payload.items)) as u64,
        status: "order placed"@,
        delivered: false,
    }
}

/// Placing an order.
pub open spec fn create_order_step(
    s: State,
    caller: Seq<char>,
    payload: OrderPayloadView,
) -> (State, Option<Result<OrderView, ErrorView>>) {
    if payload.items.len() == 0 {
        (s, Some(Err(ErrorView::InvalidPayload { msg: "Cannot create an order with no items."@ })))
    } else if !s.clients.dom().contains(payload.client_id) {
        (
            s,
            Some(
                Err(
                    ErrorView::NotFound {
                        msg: numbered_text(
                            "no client could be found for id: "@,
                            payload.client_id,
                            ""@,
                        ),
                    },
                ),
            ),
        )
    } else if s.clients[payload.client_id].client_principal != caller {
        (s, Some(Err(ErrorView::Unauthorized { msg: "Caller is not the client's principal"@ })))
    } else if order_total(s.items, quantities(payload.items)) > u64::MAX || Order::size(
        placed(s, payload),
    ) > MAX_RECORD_SIZE || s.next_id == u64::MAX {
        (s, None)
    } else {
        (
            State {
                next_id: (s.next_id + 1) as u64,
                orders: s.orders.insert(s.next_id, placed(s, payload)),
                ..s
            },
            Some(Ok(placed(s, payload))),
        )
    }
}

/// Listing all orders.
pub open spec fn all_orders(s: State) -> Result<Seq<OrderView>, ErrorView> {
    if rows(s.orders).len() == 0 {
        Err(ErrorView::NotFound { msg: "no orders could be found"@ })
    } else {
        Ok(rows(s.orders))
    }
}

/// Looking up one order.
pub open spec fn order_by_id(s: State, id: u64) -> Result<OrderView, ErrorView> {
    if s.orders.dom().contains(id) {
        Ok(s.orders[id])
    } else {
        Err(
            ErrorView::NotFound {
                msg: numbered_text("no order could be found for id: "@, id, ""@),
            },
        )
    }
}

/// The orders of one client.
pub open spec fn placed_by(client_id: u64) -> spec_fn(OrderView) -> bool {
    |order: OrderView| order.client_id == client_id
}

/// Listing the orders of one client.
pub open spec fn orders_by_client(s: State, client_id: u64) -> Result<
    Seq<OrderView>,
    ErrorView,
> {
    let found = rows(s.orders).filter(placed_by(client_id));
    if found.len() == 0 {
        Err(
            ErrorView::NotFound {
                msg: numbered_text("no orders could be found for client_id: "@, client_id, ""@),
            },
        )
    } else {
        Ok(found)
    }
}

/// An order once it has been delivered.
pub open spec fn delivered(order: OrderView) -> OrderView {
    OrderView { delivered: true, status: "order delivered"@, ..order }
}

/// Confirming the delivery of an order.
pub open spec fn confirm_delivery_step(s: State, caller: Seq<char>, order_id: u64) -> (
    State,
    Option<Result<Seq<char>, ErrorView>>,
) {
    if !s.orders.dom().contains(order_id) {
        (
            s,
            Some(
                Err(
                    ErrorView::NotFound {
                        msg: numbered_text("no order could be found for id: "@, order_id, ""@),
                    },
                ),
            ),
        )
    } else {
        let order = s.orders[order_id];
        if !s.clients.dom().contains(order.client_id) {
            (
                s,
                Some(
                    Err(
                        ErrorView::NotFound {
                            msg: numbered_text(
                                "no client could be found for id: "@,
                                order.client_id,
                                ""@,
                            ),
                        },
                    ),
                ),
            )
        } else if s.clients[order.client_id].client_principal != caller {
            (s, Some(Err(ErrorView::Unauthorized { msg: "Caller isn't the client's principal."@ })))
        } else if order.delivered {
            (
                s,
                Some(
                    Err(
                        ErrorView::AlreadyDelivered {
                            msg: numbered_text("order id: "@, order.id, " is already delivered"@),
                        },
                    ),
                ),
            )
        } else if Order::size(delivered(order)) > MAX_RECORD_SIZE {
            (s, None)
        } else {
            (
                State { orders: s.orders.insert(order.id, delivered(order)), ..s },
                Some(Ok(numbered_text("order id: "@, order.id, " is delivered"@))),
            )
        }
    }
}

/// Setting the status of an order, which is for the client of the order to
/// do.
pub open spec fn update_order_status_step(
    s: State,
    caller: Seq<char>,
    order_id: u64,
    status: Seq<char>,
) -> (State, Option<Result<Seq<char>, ErrorView>>) {
    if !s.orders.dom().contains(order_id) {
        (
            s,
            Some(
                Err(
                    ErrorView::NotFound {
                        msg: numbered_text("no order could be found for id: "@, order_id, ""@),
                    },
                ),
            ),
        )
    } else {
        let order = s.orders[order_id];
        let updated = OrderView { status, ..order };
        if !s.clients.dom().contains(order.client_id) {
            (
                s,
                Some(
                    Err(
                        ErrorView::NotFound {
                            msg: numbered_text(
                                "no client could be found for id: "@,
                                order.client_id,
                                ""@,
                            ),
                        },
                    ),
                ),
            )
        } else if s.clients[order.client_id].client_principal != caller {
            (s, Some(Err(ErrorView::Unauthorized { msg: "Caller isn't the client's principal."@ })))
        } else if Order::size(updated) > MAX_RECORD_SIZE {
            (s, None)
        } else {
            (
                State { orders: s.orders.insert(order.id, updated), ..s },
                Some(
                    Ok(numbered_text("order id: "@, order.id, " status updated to "@) + status),
                ),
            )
        }
    }
}

/// The table of quantities that the lines of a payload make.
pub fn quantities_of(lines: &Vec<OrderItem>) -> (wanted: HashMap<u64, u64>)
    ensures
        wanted@ == quantities(lines@),
{
    let mut wanted: HashMap<u64, u64> = HashMap::new();
    let mut at: usize = 0;
    while at < lines.len()
        invariant
            at <= lines@.len(),
            wanted@ == quantities(lines@.take(at as int)),
        decreases lines@.len() - at,
    {
        let line = lines[at];
        wanted.insert(line.item_id, line.quantity);
        proof {
            assert(lines@.take(at + 1).drop_last() =~= lines@.take(at as int));
        }
        at = at + 1;
    }
    proof {
        assert(lines@.take(lines@.len() as int) =~= lines@);
    }
    wanted
}

impl Backend {
    /// The total of an order for `wanted`, at today's prices. `None` when it
    /// does not fit in 64 bits.
    pub fn total_for(&self, wanted: &HashMap<u64, u64>) -> (total: Option<u64>)
        requires
            self.wf(),
        ensures
            match total {
                Some(sum) => sum == order_total(self@.items, wanted@),
                None => order_total(self@.items, wanted@) > u64::MAX,
            },
    {
        let entries = self.items.scan();
        let ghost listed = ascending(self@.items);
        proof {
            lemma_listed_cost_below(self@.items, wanted@, id_limit());
        }
        let mut sum: u64 = 0;
        let mut at: usize = 0;
        while at < entries.len()
            invariant
                at <= entries@.len(),
                entries@.len() == listed.len(),
                forall|i: int|
                    0 <= i < entries@.len() ==> (#[trigger] entries@[i]).0 == listed[i].0
                        && entries@[i].1@ == listed[i].1,
                sum == listed_cost(listed.take(at as int), wanted@),
                listed_cost(listed, wanted@) == order_total(self@.items, wanted@),
            decreases entries@.len() - at,
        {
            proof {
                assert(listed.take(at + 1).drop_last() =~= listed.take(at as int));
                lemma_listed_cost_grows(listed, wanted@, at + 1);
            }
            let id = entries[at].0;
            match wanted.get(&id) {
                Some(quantity) => {
                    let price = entries[at].1.price;
                    assert(0 <= price * *quantity <= u64::MAX * u64::MAX) by (nonlinear_arith)
                        requires
                            0 <= price <= u64::MAX,
                            0 <= *quantity <= u64::MAX,
                    ;
                    let cost: u128 = (price as u128) * (*quantity as u128);
                    if cost > (u64::MAX - sum) as u128 {
                        return None;
                    }
                    sum = sum + cost as u64;
                },
                None => {},
            }
            at = at + 1;
        }
        proof {
            assert(listed.take(listed.len() as int) =~= listed);
        }
        Some(sum)
    }

    /// Places an order of the client `payload.client_id` for the caller.
    ///
    /// An order without lines is turned down, then an unknown client, then a
    /// caller who is not the client. Items that are not on offer stay in the
    /// order and add nothing to its total. `None`, with nothing changed, when
    /// the total or the order does not fit or the identifiers are used up.
    pub fn create_order(&mut self, caller: &String, payload: OrderPayload) -> (created: Option<
        Result<Order, Error>,
    >)
        requires
            old(self).wf(),
        ensures
            final(self).wf(),
            (final(self)@, reply(created)) == create_order_step(
                old(self)@,
                caller@,
                payload@,
            ),
    {
        if payload.items.len() == 0 {
            return Some(
                Err(
                    Error::InvalidPayload {
                        msg: String::from_str("Cannot create an order with no items."),
                    },
                ),
            );
        }
        let client = match self.clients.get(payload.client_id) {
            Some(client) => client,
            None => {
                return Some(
                    Err(
                        Error::NotFound {
                            msg: numbered(
                                "no client could be found for id: ",
                                payload.client_id,
                                "",
                            ),
                        },
                    ),
                );
            },
        };
        if !(client.client_principal == *caller) {
            return Some(
                Err(
                    Error::Unauthorized {
                        msg: String::from_str("Caller is not the client's principal"),
                    },
                ),
            );
        }
        let wanted = quantities_of(&payload.items);
        let total = match self.total_for(&wanted) {
            Some(total) => total,
            None => { return None; },
        };
        let order = Order {
            id: cell_get(&self.counter),
            client_id: payload.client_id,
            items: wanted,
            total,
            status: String::from_str("order placed"),
            delivered: false,
        };
        if !Table::fits(&order) {
            return None;
        }
        let granted = self.next_id();
        self.keep_order(granted, order)
    }

    /// Keeps an order under the identifier that `next_id` handed out, or not
    /// at all when it had none left.
    pub fn keep_order(&mut self, granted: Option<u64>, order: Order) -> (kept: Option<
        Result<Order, Error>,
    >)
        requires
            old(self).wf(),
            Order::size(order@) <= MAX_RECORD_SIZE,
            granted matches Some(id) ==> id == order.id && id < old(self)@.next_id && !old(
                self,
            )@.uses(id),
        ensures
            final(self).wf(),
            match granted {
                Some(id) => final(self)@ == (State {
                    orders: old(self)@.orders.insert(id, order@),
                    ..old(self)@
                }) && reply(kept) == Some(Ok::<_, ErrorView>(order@)),
                None => final(self)@ == old(self)@ && kept is None,
            },
    {
        match granted {
            Some(id) => {
                self.orders.insert(id, &order);
                Some(Ok(order))
            },
            None => None,
        }
    }

    /// All orders, by ascending identifier. With no order on file the answer
    /// is `NotFound`, not an empty list.
    pub fn get_all_orders(&self) -> (found: Result<Vec<Order>, Error>)
        requires
            self.wf(),
        ensures
            listing(found) == all_orders(self@),
    {
        let orders = self.orders.rows();
        if orders.len() == 0 {
            Err(Error::NotFound { msg: String::from_str("no orders could be found") })
        } else {
            Ok(orders)
        }
    }

    /// The order kept under `id`.
    pub fn get_order_by_id(&self, id: u64) -> (found: Result<Order, Error>)
        requires
            self.wf(),
        ensures
            outcome(found) == order_by_id(self@, id),
    {
        match self.orders.get(id) {
            Some(order) => Ok(order),
            None => Err(
                Error::NotFound { msg: numbered("no order could be found for id: ", id, "") },
            ),
        }
    }

    /// The orders of the client `client_id`, by ascending identifier;
    /// `NotFound` when there is none.
    pub fn get_orders_by_client_id(&self, client_id: u64) -> (found: Result<Vec<Order>, Error>)
        requires
            self.wf(),
        ensures
            listing(found) == orders_by_client(self@, client_id),
    {
        let orders = self.orders.rows();
        let ghost all = rows(self@.orders);
        let ghost given = orders@;
        let mut found: Vec<Order> = Vec::new();
        proof {
            lemma_filter_none(all, placed_by(client_id));
        }
        for order in it: orders
            invariant
                it.seq() == given,
                views(given) == all,
                views(found@) == all.take(it.index() as int).filter(placed_by(client_id)),
        {
            let ghost before = found@;
            proof {
                lemma_filter_next(all, it.index() as int, placed_by(client_id));
                assert(views(given)[it.index() as int] == order@);
            }
            if order.client_id == client_id {
                found.push(order);
                assert(views(found@) =~= views(before).push(order@));
            }
        }
        if found.len() == 0 {
            Err(
                Error::NotFound {
                    msg: numbered("no orders could be found for client_id: ", client_id, ""),
                },
            )
        } else {
            Ok(found)
        }
    }

    /// Marks the order `payload.order_id` as delivered, for the caller.
    ///
    /// An unknown order is turned down, then an order whose client is
    /// unknown, then a caller who is not that client, then an order that was
    /// delivered before. `None`, with nothing changed, when the order would
    /// no longer fit.
    pub fn confirm_delivery(
        &mut self,
        caller: &String,
        payload: ConfirmDeliveryPayload,
    ) -> (done: Option<Result<String, Error>>)
        requires
            old(self).wf(),
        ensures
            final(self).wf(),
            (final(self)@, reply(done)) == confirm_delivery_step(
                old(self)@,
                caller@,
                payload.order_id,
            ),
    {
        let order = match self.orders.get(payload.order_id) {
            Some(order) => order,
            None => {
                return Some(
                    Err(
                        Error::NotFound {
                            msg: numbered("no order could be found for id: ", payload.order_id, ""),
                        },
                    ),
                );
            },
        };
        let client = match self.clients.get(order.client_id) {
            Some(client) => client,
            None => {
                return Some(
                    Err(
                        Error::NotFound {
                            msg: numbered("no client could be found for id: ", order.client_id, ""),
                        },
                    ),
                );
            },
        };
        if !(client.client_principal == *caller) {
            return Some(
                Err(
                    Error::Unauthorized {
                        msg: String::from_str("Caller isn't the client's principal."),
                    },
                ),
            );
        }
        if order.delivered {
            return Some(
                Err(
                    Error::AlreadyDelivered {
                        msg: numbered("order id: ", order.id, " is already delivered"),
                    },
                ),
            );
        }
        let id = order.id;
        let updated = Order {
            id: order.id,
            client_id: order.client_id,
            items: order.items,
            total: order.total,
            status: String::from_str("order delivered"),
            delivered: true,
        };
        if !Table::fits(&updated) {
            return None;
        }
        self.orders.insert(id, &updated);
        Some(Ok(numbered("order id: ", id, " is delivered")))
    }

    /// Sets the status of the order `order_id`, for the caller.
    ///
    /// An unknown order is turned down, then an order whose client is
    /// unknown, then a caller who is not that client. `None`, with nothing
    /// changed, when the order would no longer fit.
    pub fn update_order_status(
        &mut self,
        caller: &String,
        order_id: u64,
        status: String,
    ) -> (done: Option<Result<String, Error>>)
        requires
            old(self).wf(),
        ensures
            final(self).wf(),
            (final(self)@, reply(done)) == update_order_status_step(
                old(self)@,
                caller@,
                order_id,
                status@,
            ),
    {
        let order = match self.orders.get(order_id) {
            Some(order) => order,
            None => {
                return Some(
                    Err(
                        Error::NotFound {
                            msg: numbered("no order could be found for id: ", order_id, ""),
                        },
                    ),
                );
            },
        };
        let client = match self.clients.get(order.client_id) {
            Some(client) => client,
            None => {
                return Some(
                    Err(
                        Error::NotFound {
                            msg: numbered("no client could be found for id: ", order.client_id, ""),
                        },
                    ),
                );
            },
        };
        if !(client.client_principal == *caller) {
            return Some(
                Err(
                    Error::Unauthorized {
                        msg: String::from_str("Caller isn't the client's principal."),
                    },
                ),
            );
        }
        let id = order.id;
        let mut message = numbered("order id: ", id, " status updated to ");
        message.append(status.as_str());
        let updated = Order {
            id: order.id,
            client_id: order.client_id,
            items: order.items,
            total: order.total,
            status,
            delivered: order.delivered,
        };
        if !Table::fits(&updated) {
            return None;
        }
        self.orders.insert(id, &updated);
        Some(Ok(message))
    }
}

} // verus!
