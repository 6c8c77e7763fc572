//! Laws of the backend, stated over its model.
//!
//! The requests promise, in their contracts, to act as the `*_step` and
//! listing functions of the model say. What follows holds of those.

use vstd::prelude::*;
use vstd::utf8::{is_ascii_chars, is_ascii_chars_encode_utf8};
use crate::clients::{all_clients, client_by_id, create_client_step, registered};
use crate::items::{
    all_items, create_food_item_step, delete_food_item_step, item_by_id, items_by_category,
    mentions, offered,
};
use crate::model::State;
use crate::orders::{
    all_orders, confirm_delivery_step, cost_below, create_order_step, delivered, line_cost,
    order_by_id, order_total, orders_by_client, placed, placed_by, quantities,
    update_order_status_step,
};
use crate::record::Record;
use crate::reviews::{
    about, all_reviews, create_review_step, delete_review_step, reviews_by_item, written,
};
use crate::stable::MAX_RECORD_SIZE;
use crate::table::{id_limit, lemma_rows_are_values, lemma_rows_empty, rows};
use crate::types::{
    Client, ClientPayloadView, ClientView, ErrorView, Item, ItemPayloadView, ItemView, Order,
    OrderPayloadView, OrderView, Review, ReviewPayloadView, ReviewView,
};

verus! {

/// A client is found under its identifier right after it was registered, as
/// it was returned.
pub proof fn law_created_client_is_found(
    s: State,
    caller: Seq<char>,
    payload: ClientPayloadView,
)
    ensures
        ({
            let (after, answer) = create_client_step(s, caller, payload);
            answer matches Some(Ok(client)) ==> client_by_id(after, client.id) == Ok::<
                _,
                ErrorView,
            >(client)
        }),
{
}

/// An item is found under its identifier right after it was put on offer, as
/// it was returned.
pub proof fn law_created_item_is_found(
    s: State,
    caller: Seq<char>,
    payload: ItemPayloadView,
)
    ensures
        ({
            let (after, answer) = create_food_item_step(s, caller, payload);
            answer matches Some(Ok(item)) ==> item_by_id(after, item.id) == Ok::<_, ErrorView>(
                item,
            )
        }),
{
}

/// An order is found under its identifier right after it was placed, as it
/// was returned.
pub proof fn law_created_order_is_found(
    s: State,
    caller: Seq<char>,
    payload: OrderPayloadView,
)
    ensures
        ({
            let (after, answer) = create_order_step(s, caller, payload);
            answer matches Some(Ok(order)) ==> order_by_id(after, order.id) == Ok::<
                _,
                ErrorView,
            >(order)
        }),
{
}

/// A review is found among the reviews of its item right after it was
/// written, as it was returned, and it is kept under its identifier.
pub proof fn law_created_review_is_found(s: State, payload: ReviewPayloadView)
    ensures
        create_review_step(s, payload).1 matches Some(Ok(review)) ==> {
            let after = create_review_step(s, payload).0;
            &&& after.reviews.contains_pair(review.id, review)
            &&& reviews_by_item(after, review.item_id) matches Ok(found) && found.contains(review)
            &&& all_reviews(after) matches Ok(found) && found.contains(review)
        },
{
    if let Some(Ok(review)) = create_review_step(s, payload).1 {
        let after = create_review_step(s, payload).0;
        lemma_rows_are_values(after.reviews);
        assert(after.reviews.dom().contains(review.id) && after.reviews[review.id] == review);
        assert(after.reviews.values().contains(review));
        let all = rows(after.reviews);
        assert(all.to_set().contains(review));
        let i = all.index_of(review);
        all.lemma_filter_contains(about(review.item_id), i);
    }
}

/// The outcome of a creation in state `s`: if a record was made, it has the
/// next identifier, which no record of any kind used, and the identifier
/// after it is next.
pub open spec fn took_next_id(s: State, after: State, made: Option<u64>) -> bool {
    made matches Some(id) ==> id == s.next_id && !s.uses(id) && after.next_id == s.next_id + 1
}

/// The identifier of a created record, where one was created.
pub open spec fn created_id<R: Record>(answer: Option<Result<R::V, ErrorView>>) -> Option<u64> {
    match answer {
        Some(Ok(record)) => Some(R::key(record)),
        _ => None,
    }
}

/// The identifier given to a new record is the next one, no record of any
/// kind used it in a sound state, and the one after it is next.
pub proof fn law_identifiers_are_fresh(
    s: State,
    caller: Seq<char>,
    client: ClientPayloadView,
    item: ItemPayloadView,
    order: OrderPayloadView,
    review: ReviewPayloadView,
)
    requires
        s.sound(),
    ensures
        ({
            let (after, answer) = create_client_step(s, caller, client);
            took_next_id(s, after, created_id::<Client>(answer))
        }),
        ({
            let (after, answer) = create_food_item_step(s, caller, item);
            took_next_id(s, after, created_id::<Item>(answer))
        }),
        ({
            let (after, answer) = create_order_step(s, caller, order);
            took_next_id(s, after, created_id::<Order>(answer))
        }),
        ({
            let (after, answer) = create_review_step(s, review);
            took_next_id(s, after, created_id::<Review>(answer))
        }),
{
}

/// `after` is sound and has handed out every identifier that `before` had.
pub open spec fn follows(before: State, after: State) -> bool {
    after.sound() && after.next_id >= before.next_id
}

/// Every request keeps a sound state sound, and none takes an identifier
/// back: what was handed out once is never handed out again.
pub proof fn law_requests_keep_the_state_sound(
    s: State,
    caller: Seq<char>,
    client: ClientPayloadView,
    item: ItemPayloadView,
    order: OrderPayloadView,
    review: ReviewPayloadView,
    id: u64,
    status: Seq<char>,
)
    requires
        s.sound(),
    ensures
        follows(s, create_client_step(s, caller, client).0),
        follows(s, create_food_item_step(s, caller, item).0),
        follows(s, create_order_step(s, caller, order).0),
        follows(s, create_review_step(s, review).0),
        follows(s, confirm_delivery_step(s, caller, id).0),
        follows(s, update_order_status_step(s, caller, id, status).0),
        follows(s, delete_food_item_step(s, caller, id).0),
        follows(s, delete_review_step(s, caller, id).0),
{
}

/// Withdrawing an item deletes the reviews of that item and no others, and
/// touches nothing else.
pub proof fn law_item_deletion_takes_its_reviews(s: State, caller: Seq<char>, id: u64)
    requires
        s.sound(),
        delete_food_item_step(s, caller, id).1 is Ok,
    ensures
        ({
            let after = delete_food_item_step(s, caller, id).0;
            &&& s.items.dom().contains(id)
            &&& after.items == s.items.remove(id)
            &&& forall|review: u64|
                after.reviews.dom().contains(review) <==> s.reviews.dom().contains(review)
                    && s.reviews[review].item_id != s.items[id].id
            &&& forall|review: u64|
                after.reviews.dom().contains(review) ==> after.reviews[review]
                    == s.reviews[review]
            &&& after.clients == s.clients
            &&& after.orders == s.orders
            &&& after.next_id == s.next_id
        }),
{
}

/// The delivery of a placed order is confirmed for its client, once: the
/// first confirmation marks the order as delivered, the second is turned
/// down as `AlreadyDelivered` and changes nothing.
pub proof fn law_delivery_is_confirmed_once(s: State, caller: Seq<char>, order_id: u64)
    requires
        s.sound(),
        s.orders.dom().contains(order_id),
        !s.orders[order_id].delivered,
        s.clients.dom().contains(s.orders[order_id].client_id),
        s.clients[s.orders[order_id].client_id].client_principal == caller,
        Order::size(delivered(s.orders[order_id])) <= MAX_RECORD_SIZE,
    ensures
        ({
            let first = confirm_delivery_step(s, caller, order_id);
            let second = confirm_delivery_step(first.0, caller, order_id);
            &&& first.1 matches Some(Ok(_))
            &&& first.0 == State {
                orders: s.orders.insert(order_id, delivered(s.orders[order_id])),
                ..s
            }
            &&& first.0.orders[order_id].delivered
            &&& second.1 matches Some(Err(ErrorView::AlreadyDelivered { .. }))
            &&& second.0 == first.0
        }),
{
}

/// An order is placed by its client: when an order is placed, its client is
/// on file and is the caller.
pub proof fn law_orders_are_placed_by_their_client(
    s: State,
    caller: Seq<char>,
    payload: OrderPayloadView,
)
    ensures
        create_order_step(s, caller, payload).1 matches Some(Ok(order))
            ==> s.clients.dom().contains(order.client_id)
            && s.clients[order.client_id].client_principal == caller,
{
}

/// A new status changes the status of that order and nothing else: the
/// total stays what it was when the order was placed.
pub proof fn law_status_changes_the_status_only(
    s: State,
    caller: Seq<char>,
    order_id: u64,
    status: Seq<char>,
)
    requires
        s.sound(),
        update_order_status_step(s, caller, order_id, status).1 matches Some(Ok(_)),
    ensures
        ({
            let after = update_order_status_step(s, caller, order_id, status).0;
            &&& after == State { orders: after.orders, ..s }
            &&& after.orders == s.orders.insert(
                order_id,
                OrderView { status, ..s.orders[order_id] },
            )
        }),
{
}

/// Deleting a review drops that review and nothing else.
pub proof fn law_review_deletion_drops_one(s: State, caller: Seq<char>, review_id: u64)
    requires
        s.sound(),
        delete_review_step(s, caller, review_id).1 is Ok,
    ensures
        delete_review_step(s, caller, review_id).0 == (State {
            reviews: s.reviews.remove(review_id),
            ..s
        }),
{
}

/// An order that fits as it was placed fits once it is delivered: the status
/// of a delivery is three bytes longer than that of the placing, and an
/// order comes in steps of sixteen bytes, which leave that room.
pub proof fn law_placed_orders_have_room(order: OrderView)
    requires
        order.status == "order placed"@,
        Order::size(order) <= MAX_RECORD_SIZE,
    ensures
        Order::size(delivered(order)) <= MAX_RECORD_SIZE,
{
    reveal_strlit("order placed");
    reveal_strlit("order delivered");
    let placed = "order placed"@;
    let done = "order delivered"@;
    assert(is_ascii_chars(placed));
    assert(is_ascii_chars(done));
    is_ascii_chars_encode_utf8(placed);
    is_ascii_chars_encode_utf8(done);
    let lines = order.items.dom().len();
    assert(Order::size(order) == 53 + 16 * lines);
    assert(Order::size(delivered(order)) == 56 + 16 * lines);
}

/// The delivery of an order that stands as it was placed is confirmed for
/// its client: the order is marked as delivered and gets the status of a
/// delivery in one step.
pub proof fn law_placed_order_is_delivered(s: State, caller: Seq<char>, order_id: u64)
    requires
        s.sound(),
        s.orders.dom().contains(order_id),
        !s.orders[order_id].delivered,
        s.orders[order_id].status == "order placed"@,
        Order::size(s.orders[order_id]) <= MAX_RECORD_SIZE,
        s.clients.dom().contains(s.orders[order_id].client_id),
        s.clients[s.orders[order_id].client_id].client_principal == caller,
    ensures
        ({
            let (after, answer) = confirm_delivery_step(s, caller, order_id);
            &&& answer matches Some(Ok(_))
            &&& after.orders[order_id].delivered
            &&& after.orders[order_id].status == "order delivered"@
            &&& after == State {
                orders: s.orders.insert(order_id, delivered(s.orders[order_id])),
                ..s
            }
        }),
{
    law_placed_orders_have_room(s.orders[order_id]);
}

/// A valid payload registers a client, puts an item on offer or files a
/// review, where the record fits and an identifier is left.
pub proof fn law_valid_payloads_are_taken(
    s: State,
    caller: Seq<char>,
    client: ClientPayloadView,
    item: ItemPayloadView,
    review: ReviewPayloadView,
)
    requires
        s.next_id < u64::MAX,
    ensures
        client.name.len() >= 2 && client.address.len() >= 4 && Client::size(
            registered(s, caller, client),
        ) <= MAX_RECORD_SIZE ==> create_client_step(s, caller, client).1 == Some(
            Ok::<_, ErrorView>(registered(s, caller, client)),
        ),
        item.name.len() >= 2 && item.description.len() >= 4 && Item::size(
            offered(s, caller, item),
        ) <= MAX_RECORD_SIZE ==> create_food_item_step(s, caller, item).1 == Some(
            Ok::<_, ErrorView>(offered(s, caller, item)),
        ),
        Review::size(written(s, review)) <= MAX_RECORD_SIZE ==> create_review_step(s, review).1
            == Some(Ok::<_, ErrorView>(written(s, review))),
{
}

/// A confirmation that is turned down changes nothing, whatever the reason.
pub proof fn law_refused_confirmation_changes_nothing(s: State, caller: Seq<char>, order_id: u64)
    ensures
        !(confirm_delivery_step(s, caller, order_id).1 matches Some(Ok(_)))
            ==> confirm_delivery_step(s, caller, order_id).0 == s,
{
}

/// An order without lines is turned down as `InvalidPayload`, whoever asks
/// and whatever the counter would say, and nothing changes: no identifier is
/// taken.
pub proof fn law_empty_order_is_refused(
    s: State,
    caller: Seq<char>,
    payload: OrderPayloadView,
)
    requires
        payload.items.len() == 0,
    ensures
        create_order_step(s, caller, payload).0 == s,
        create_order_step(s, caller, payload).1 matches Some(
            Err(ErrorView::InvalidPayload { .. }),
        ),
{
}

/// The total of a placed order is the sum, over the items on offer that the
/// order asks for, of price times quantity.
pub proof fn law_total_is_sum_of_lines(
    s: State,
    caller: Seq<char>,
    payload: OrderPayloadView,
)
    ensures
        create_order_step(s, caller, payload).1 matches Some(Ok(order)) ==> order.total
            == cost_below(s.items, quantities(payload.items), id_limit()) && order.items
            == quantities(payload.items),
{
}

/// An order with lines that its client asks for is placed, with the sum of
/// its lines as total, where that sum fits in 64 bits, the order fits in a
/// record and an identifier is left.
pub proof fn law_order_is_placed(s: State, caller: Seq<char>, payload: OrderPayloadView)
    requires
        payload.items.len() > 0,
        s.clients.dom().contains(payload.client_id),
        s.clients[payload.client_id].client_principal == caller,
        order_total(s.items, quantities(payload.items)) <= u64::MAX,
        Order::size(placed(s, payload)) <= MAX_RECORD_SIZE,
        s.next_id < u64::MAX,
    ensures
        ({
            let (after, answer) = create_order_step(s, caller, payload);
            &&& answer == Some(Ok::<_, ErrorView>(placed(s, payload)))
            &&& placed(s, payload).total == order_total(s.items, quantities(payload.items))
            &&& after == State {
                next_id: (s.next_id + 1) as u64,
                orders: s.orders.insert(s.next_id, placed(s, payload)),
                ..s
            }
        }),
{
}

/// An order that asks for no item on offer has the total 0: what is not on
/// offer is passed over, and is no ground to turn the order down.
pub proof fn law_nothing_on_offer_costs_nothing(
    s: State,
    caller: Seq<char>,
    payload: OrderPayloadView,
)
    requires
        forall|id: u64|
            quantities(payload.items).dom().contains(id) ==> !s.items.dom().contains(id),
    ensures
        order_total(s.items, quantities(payload.items)) == 0,
        payload.items.len() > 0 && s.clients.dom().contains(payload.client_id)
            && s.clients[payload.client_id].client_principal == caller && Order::size(
            placed(s, payload),
        ) <= MAX_RECORD_SIZE && s.next_id < u64::MAX ==> {
            &&& create_order_step(s, caller, payload).1 matches Some(Ok(order))
            &&& order.total == 0
        },
{
    lemma_cost_of_nothing(s.items, quantities(payload.items), id_limit());
}

proof fn lemma_cost_of_nothing(items: Map<u64, ItemView>, wanted: Map<u64, u64>, bound: nat)
    requires
        forall|id: u64| wanted.dom().contains(id) ==> !items.dom().contains(id),
    ensures
        cost_below(items, wanted, bound) == 0,
    decreases bound,
{
    if bound > 0 {
        lemma_cost_of_nothing(items, wanted, (bound - 1) as nat);
    }
}

/// An item that is not on offer adds nothing to a total: the total is the
/// same with and without the line that asks for it.
pub proof fn law_unknown_items_cost_nothing(
    items: Map<u64, ItemView>,
    wanted: Map<u64, u64>,
    id: u64,
)
    requires
        !items.dom().contains(id),
    ensures
        line_cost(items, wanted, id) == 0,
        order_total(items, wanted.remove(id)) == order_total(items, wanted),
{
    lemma_cost_without(items, wanted, id, id_limit());
}

proof fn lemma_cost_without(items: Map<u64, ItemView>, wanted: Map<u64, u64>, id: u64, bound: nat)
    requires
        !items.dom().contains(id),
    ensures
        cost_below(items, wanted.remove(id), bound) == cost_below(items, wanted, bound),
    decreases bound,
{
    if bound > 0 {
        lemma_cost_without(items, wanted, id, (bound - 1) as nat);
    }
}

/// A caller who is not the client of an order cannot place it: a request
/// with lines for a known client is turned down as `Unauthorized` and
/// changes nothing.
pub proof fn law_strangers_place_no_orders(
    s: State,
    caller: Seq<char>,
    payload: OrderPayloadView,
)
    requires
        payload.items.len() > 0,
        s.clients.dom().contains(payload.client_id),
        s.clients[payload.client_id].client_principal != caller,
    ensures
        create_order_step(s, caller, payload).0 == s,
        create_order_step(s, caller, payload).1 matches Some(
            Err(ErrorView::Unauthorized { .. }),
        ),
{
}

/// A caller who is not the client of an order cannot confirm its delivery.
pub proof fn law_strangers_confirm_no_delivery(s: State, caller: Seq<char>, order_id: u64)
    requires
        s.orders.dom().contains(order_id),
        s.clients.dom().contains(s.orders[order_id].client_id),
        s.clients[s.orders[order_id].client_id].client_principal != caller,
    ensures
        confirm_delivery_step(s, caller, order_id).0 == s,
        confirm_delivery_step(s, caller, order_id).1 matches Some(
            Err(ErrorView::Unauthorized { .. }),
        ),
{
}

/// A caller who is not the client of an order cannot set its status.
pub proof fn law_strangers_set_no_status(
    s: State,
    caller: Seq<char>,
    order_id: u64,
    status: Seq<char>,
)
    requires
        s.orders.dom().contains(order_id),
        s.clients.dom().contains(s.orders[order_id].client_id),
        s.clients[s.orders[order_id].client_id].client_principal != caller,
    ensures
        update_order_status_step(s, caller, order_id, status).0 == s,
        update_order_status_step(s, caller, order_id, status).1 matches Some(
            Err(ErrorView::Unauthorized { .. }),
        ),
{
}

/// The client of an order sets its status: the request is granted where the
/// order still fits with its new status.
pub proof fn law_clients_set_the_status(
    s: State,
    caller: Seq<char>,
    order_id: u64,
    status: Seq<char>,
)
    requires
        s.sound(),
        s.orders.dom().contains(order_id),
        s.clients.dom().contains(s.orders[order_id].client_id),
        s.clients[s.orders[order_id].client_id].client_principal == caller,
        Order::size(OrderView { status, ..s.orders[order_id] }) <= MAX_RECORD_SIZE,
    ensures
        update_order_status_step(s, caller, order_id, status).1 matches Some(Ok(_)),
        update_order_status_step(s, caller, order_id, status).0.orders[order_id].status == status,
{
}

/// A caller who did not put an item on offer cannot withdraw it.
pub proof fn law_strangers_withdraw_no_items(s: State, caller: Seq<char>, id: u64)
    requires
        s.items.dom().contains(id),
        s.items[id].item_owner != caller,
    ensures
        delete_food_item_step(s, caller, id).0 == s,
        delete_food_item_step(s, caller, id).1 matches Err(ErrorView::Unauthorized { .. }),
{
}

/// A caller who is not the client of a review cannot delete it.
pub proof fn law_strangers_delete_no_reviews(s: State, caller: Seq<char>, review_id: u64)
    requires
        s.reviews.dom().contains(review_id),
        s.clients.dom().contains(s.reviews[review_id].client_id),
        s.clients[s.reviews[review_id].client_id].client_principal != caller,
    ensures
        delete_review_step(s, caller, review_id).0 == s,
        delete_review_step(s, caller, review_id).1 matches Err(ErrorView::Unauthorized { .. }),
{
}

/// Listing an empty table is `NotFound`, never an empty list; and no listing
/// ever succeeds with an empty list.
pub proof fn law_empty_tables_list_nothing(
    s: State,
    category: Seq<char>,
    client_id: u64,
    item_id: u64,
)
    ensures
        s.clients == Map::<u64, ClientView>::empty() ==> all_clients(s) matches Err(
            ErrorView::NotFound { .. },
        ),
        s.items == Map::<u64, ItemView>::empty() ==> all_items(s) matches Err(
            ErrorView::NotFound { .. },
        ),
        s.orders == Map::<u64, OrderView>::empty() ==> all_orders(s) matches Err(
            ErrorView::NotFound { .. },
        ),
        s.reviews == Map::<u64, ReviewView>::empty() ==> all_reviews(s) matches Err(
            ErrorView::NotFound { .. },
        ),
        s.items == Map::<u64, ItemView>::empty() ==> items_by_category(s, category) matches Err(
            ErrorView::NotFound { .. },
        ),
        s.orders == Map::<u64, OrderView>::empty() ==> orders_by_client(s, client_id) matches Err(
            ErrorView::NotFound { .. },
        ),
        s.reviews == Map::<u64, ReviewView>::empty() ==> reviews_by_item(s, item_id) matches Err(
            ErrorView::NotFound { .. },
        ),
        all_clients(s) matches Ok(found) ==> found.len() > 0,
        all_items(s) matches Ok(found) ==> found.len() > 0,
        all_orders(s) matches Ok(found) ==> found.len() > 0,
        all_reviews(s) matches Ok(found) ==> found.len() > 0,
        items_by_category(s, category) matches Ok(found) ==> found.len() > 0,
        orders_by_client(s, client_id) matches Ok(found) ==> found.len() > 0,
        reviews_by_item(s, item_id) matches Ok(found) ==> found.len() > 0,
{
    lemma_rows_empty(s.clients);
    lemma_rows_empty(s.items);
    lemma_rows_empty(s.orders);
    lemma_rows_empty(s.reviews);
    rows(s.items).lemma_filter_len(mentions(category));
    rows(s.orders).lemma_filter_len(placed_by(client_id));
    rows(s.reviews).lemma_filter_len(about(item_id));
}

} // verus!
