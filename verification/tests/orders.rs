use food_delivery_backend::backend::Backend;
use food_delivery_backend::orders::quantities_of;
use food_delivery_backend::{
    ClientPayload, ConfirmDeliveryPayload, Error, ItemPayload, Order, OrderItem, OrderPayload,
};

fn client(name: &str) -> ClientPayload {
    ClientPayload {
        name: name.to_string(),
        address: "1 Main Street".to_string(),
        phone: "555-0100".to_string(),
        email: "someone@example.org".to_string(),
    }
}

fn dish(name: &str, price: u64) -> ItemPayload {
    ItemPayload {
        name: name.to_string(),
        description: "Tasty".to_string(),
        price,
        category: "food".to_string(),
    }
}

fn line(item_id: u64, quantity: u64) -> OrderItem {
    OrderItem { item_id, quantity }
}

fn place(backend: &mut Backend, caller: &str, client_id: u64, lines: Vec<OrderItem>) -> Order {
    backend
        .create_order(&caller.to_string(), OrderPayload { client_id, items: lines })
        .expect("an identifier is granted")
        .expect("the order is accepted")
}

/// A backend with client 0 (principal "ada"), item 1 at 10 and item 2 at 5.
fn stocked() -> Backend {
    let mut backend = Backend::init().expect("fresh memory opens");
    backend.create_client(&"ada".to_string(), client("Ada")).unwrap().unwrap();
    backend.create_food_item(&"cook".to_string(), dish("Ramen", 10)).unwrap().unwrap();
    backend.create_food_item(&"cook".to_string(), dish("Cake", 5)).unwrap().unwrap();
    backend
}

#[test]
fn the_total_counts_the_items_on_offer_and_skips_the_rest() {
    let mut backend = stocked();
    let payload = OrderPayload { client_id: 0, items: vec![line(1, 3), line(2, 1), line(77, 99)] };
    let order = backend.create_order(&"ada".to_string(), payload).unwrap().unwrap();
    assert_eq!(order.total, 35);
    assert_eq!(order.id, 3);
    assert_eq!(order.client_id, 0);
    assert_eq!(order.status, "order placed");
    assert!(!order.delivered);
    assert_eq!(order.items.len(), 3);
    assert_eq!(order.items.get(&1), Some(&3));
    assert_eq!(order.items.get(&2), Some(&1));
    assert_eq!(order.items.get(&77), Some(&99));
}

#[test]
fn a_created_order_is_found_as_returned() {
    let mut backend = stocked();
    let payload = OrderPayload { client_id: 0, items: vec![line(1, 2), line(9, 4)] };
    let order = backend.create_order(&"ada".to_string(), payload).unwrap().unwrap();
    let found = backend.get_order_by_id(order.id).unwrap();
    assert_eq!(found.id, order.id);
    assert_eq!(found.client_id, order.client_id);
    assert_eq!(found.items, order.items);
    assert_eq!(found.total, 20);
    assert_eq!(found.status, order.status);
    assert_eq!(found.delivered, order.delivered);
}

#[test]
fn of_two_lines_for_one_item_the_later_counts() {
    let mut backend = stocked();
    let payload = OrderPayload { client_id: 0, items: vec![line(1, 3), line(2, 2), line(1, 7)] };
    let order = backend.create_order(&"ada".to_string(), payload).unwrap().unwrap();
    assert_eq!(order.items.len(), 2);
    assert_eq!(order.items.get(&1), Some(&7));
    assert_eq!(order.total, 7 * 10 + 2 * 5);

    let wanted = quantities_of(&vec![line(4, 1), line(4, 2), line(5, 0)]);
    assert_eq!(wanted.len(), 2);
    assert_eq!(wanted.get(&4), Some(&2));
    assert_eq!(wanted.get(&5), Some(&0));
}

#[test]
fn an_order_without_lines_is_refused_and_takes_no_identifier() {
    let mut backend = stocked();
    let payload = OrderPayload { client_id: 0, items: vec![] };
    match backend.create_order(&"ada".to_string(), payload) {
        Some(Err(Error::InvalidPayload { msg })) => {
            assert_eq!(msg, "Cannot create an order with no items.")
        },
        other => panic!("expected InvalidPayload, got {:?}", other),
    }
    // Even for a stranger and for an unknown client the empty list comes first.
    let payload = OrderPayload { client_id: 55, items: vec![] };
    assert!(matches!(
        backend.create_order(&"eve".to_string(), payload),
        Some(Err(Error::InvalidPayload { .. }))
    ));
    assert!(matches!(backend.get_all_orders(), Err(Error::NotFound { .. })));
    assert_eq!(backend.next_id(), Some(3));
}

#[test]
fn an_order_for_an_unknown_client_is_not_found() {
    let mut backend = stocked();
    let payload = OrderPayload { client_id: 8, items: vec![line(1, 1)] };
    match backend.create_order(&"ada".to_string(), payload) {
        Some(Err(Error::NotFound { msg })) => {
            assert_eq!(msg, "no client could be found for id: 8")
        },
        other => panic!("expected NotFound, got {:?}", other),
    }
    assert_eq!(backend.next_id(), Some(3));
}

#[test]
fn a_stranger_cannot_place_an_order() {
    let mut backend = stocked();
    let payload = OrderPayload { client_id: 0, items: vec![line(1, 1)] };
    match backend.create_order(&"eve".to_string(), payload) {
        Some(Err(Error::Unauthorized { msg })) => {
            assert_eq!(msg, "Caller is not the client's principal")
        },
        other => panic!("expected Unauthorized, got {:?}", other),
    }
    assert!(matches!(backend.get_all_orders(), Err(Error::NotFound { .. })));
    assert_eq!(backend.next_id(), Some(3));
}

#[test]
fn a_total_beyond_64_bits_is_not_taken() {
    let mut backend = stocked();
    backend.create_food_item(&"cook".to_string(), dish("Gold", u64::MAX)).unwrap().unwrap();
    let payload = OrderPayload { client_id: 0, items: vec![line(3, 2)] };
    assert!(backend.create_order(&"ada".to_string(), payload).is_none());
    let payload = OrderPayload { client_id: 0, items: vec![line(3, 1), line(1, 1)] };
    assert!(backend.create_order(&"ada".to_string(), payload).is_none());
    assert!(matches!(backend.get_all_orders(), Err(Error::NotFound { .. })));
    let payload = OrderPayload { client_id: 0, items: vec![line(3, 1)] };
    let order = backend.create_order(&"ada".to_string(), payload).unwrap().unwrap();
    assert_eq!(order.total, u64::MAX);
    assert_eq!(order.id, 4);
}

#[test]
fn the_total_for_a_table_of_quantities() {
    let backend = stocked();
    let wanted = quantities_of(&vec![line(1, 4), line(2, 6), line(0, 10)]);
    assert_eq!(backend.total_for(&wanted), Some(70));
    assert_eq!(backend.total_for(&quantities_of(&vec![])), Some(0));
    let wanted = quantities_of(&vec![line(1, u64::MAX)]);
    assert_eq!(backend.total_for(&wanted), None);
}

#[test]
fn an_order_with_too_many_lines_does_not_fit() {
    let mut backend = stocked();
    let lines: Vec<OrderItem> = (0..100).map(|i| line(i, 1)).collect();
    let payload = OrderPayload { client_id: 0, items: lines };
    assert!(backend.create_order(&"ada".to_string(), payload).is_none());
    assert_eq!(backend.next_id(), Some(3));
}

#[test]
fn delivery_is_confirmed_once() {
    let mut backend = stocked();
    let payload = OrderPayload { client_id: 0, items: vec![line(1, 1)] };
    let order = backend.create_order(&"ada".to_string(), payload).unwrap().unwrap();
    let confirm = ConfirmDeliveryPayload { order_id: order.id };

    let first = backend.confirm_delivery(&"ada".to_string(), confirm).unwrap();
    assert_eq!(first.unwrap(), "order id: 3 is delivered");
    let after_first = backend.get_order_by_id(order.id).unwrap();
    assert!(after_first.delivered);
    assert_eq!(after_first.status, "order delivered");
    assert_eq!(after_first.total, order.total);
    assert_eq!(after_first.items, order.items);
    assert_eq!(after_first.client_id, order.client_id);

    match backend.confirm_delivery(&"ada".to_string(), confirm) {
        Some(Err(Error::AlreadyDelivered { msg })) => {
            assert_eq!(msg, "order id: 3 is already delivered")
        },
        other => panic!("expected AlreadyDelivered, got {:?}", other),
    }
    let after_second = backend.get_order_by_id(order.id).unwrap();
    assert!(after_second.delivered);
    assert_eq!(after_second.status, "order delivered");
    assert_eq!(after_second.total, after_first.total);
    assert_eq!(backend.get_all_orders().unwrap().len(), 1);
}

#[test]
fn a_stranger_cannot_confirm_a_delivery() {
    let mut backend = stocked();
    let payload = OrderPayload { client_id: 0, items: vec![line(1, 1)] };
    let order = backend.create_order(&"ada".to_string(), payload).unwrap().unwrap();
    let confirm = ConfirmDeliveryPayload { order_id: order.id };
    match backend.confirm_delivery(&"eve".to_string(), confirm) {
        Some(Err(Error::Unauthorized { msg })) => {
            assert_eq!(msg, "Caller isn't the client's principal.")
        },
        other => panic!("expected Unauthorized, got {:?}", other),
    }
    let found = backend.get_order_by_id(order.id).unwrap();
    assert!(!found.delivered);
    assert_eq!(found.status, "order placed");
}

#[test]
fn confirming_an_unknown_order_is_not_found() {
    let mut backend = stocked();
    match backend.confirm_delivery(&"ada".to_string(), ConfirmDeliveryPayload { order_id: 9 }) {
        Some(Err(Error::NotFound { msg })) => assert_eq!(msg, "no order could be found for id: 9"),
        other => panic!("expected NotFound, got {:?}", other),
    }
}

#[test]
fn the_client_of_an_order_sets_its_status() {
    let mut backend = stocked();
    let ada = "ada".to_string();
    let order = place(&mut backend, "ada", 0, vec![line(1, 1)]);
    let done = backend.update_order_status(&ada, order.id, "on its way".to_string());
    assert_eq!(done.unwrap().unwrap(), "order id: 3 status updated to on its way");
    let found = backend.get_order_by_id(order.id).unwrap();
    assert_eq!(found.status, "on its way");
    assert!(!found.delivered);
    assert_eq!(found.total, 10);
    assert_eq!(found.items, order.items);
    assert_eq!(found.client_id, order.client_id);

    match backend.update_order_status(&ada, 12, "lost".to_string()) {
        Some(Err(Error::NotFound { msg })) => assert_eq!(msg, "no order could be found for id: 12"),
        other => panic!("expected NotFound, got {:?}", other),
    }
}

#[test]
fn a_stranger_cannot_set_the_status_of_an_order() {
    let mut backend = stocked();
    let order = place(&mut backend, "ada", 0, vec![line(1, 1)]);
    match backend.update_order_status(&"eve".to_string(), order.id, "lost".to_string()) {
        Some(Err(Error::Unauthorized { msg })) => {
            assert_eq!(msg, "Caller isn't the client's principal.")
        },
        other => panic!("expected Unauthorized, got {:?}", other),
    }
    let found = backend.get_order_by_id(order.id).unwrap();
    assert_eq!(found.status, "order placed");
    assert_eq!(found.total, 10);
    assert!(!found.delivered);
    // A stranger is turned away before the size of the status is looked at.
    assert!(matches!(
        backend.update_order_status(&"eve".to_string(), order.id, "z".repeat(2000)),
        Some(Err(Error::Unauthorized { .. }))
    ));
}

#[test]
fn the_status_of_an_order_without_a_client_is_not_set() {
    let mut backend = Backend::new().expect("memory for the counter");
    let granted = backend.next_id();
    let order = Order {
        id: 0,
        client_id: 7,
        items: quantities_of(&vec![]),
        total: 0,
        status: "order placed".to_string(),
        delivered: false,
    };
    backend.keep_order(granted, order).unwrap().unwrap();
    match backend.update_order_status(&"ada".to_string(), 0, "lost".to_string()) {
        Some(Err(Error::NotFound { msg })) => assert_eq!(msg, "no client could be found for id: 7"),
        other => panic!("expected NotFound, got {:?}", other),
    }
    assert_eq!(backend.get_order_by_id(0).unwrap().status, "order placed");
}

#[test]
fn a_status_that_does_not_fit_is_not_taken() {
    let mut backend = stocked();
    let order = place(&mut backend, "ada", 0, vec![line(1, 1)]);
    assert!(backend.update_order_status(&"ada".to_string(), order.id, "z".repeat(1024)).is_none());
    assert_eq!(backend.get_order_by_id(order.id).unwrap().status, "order placed");
}

#[test]
fn orders_are_listed_by_client() {
    let mut backend = stocked();
    backend.create_client(&"bob".to_string(), client("Bob")).unwrap().unwrap();
    let first = place(&mut backend, "ada", 0, vec![line(1, 1)]);
    let second = place(&mut backend, "bob", 3, vec![line(2, 1)]);
    let third = place(&mut backend, "ada", 0, vec![line(2, 2)]);

    let all: Vec<u64> = backend.get_all_orders().unwrap().iter().map(|o| o.id).collect();
    assert_eq!(all, vec![first.id, second.id, third.id]);
    let of_ada: Vec<u64> =
        backend.get_orders_by_client_id(0).unwrap().iter().map(|o| o.id).collect();
    assert_eq!(of_ada, vec![first.id, third.id]);
    let of_bob: Vec<u64> =
        backend.get_orders_by_client_id(3).unwrap().iter().map(|o| o.id).collect();
    assert_eq!(of_bob, vec![second.id]);
    match backend.get_orders_by_client_id(1) {
        Err(Error::NotFound { msg }) => {
            assert_eq!(msg, "no orders could be found for client_id: 1")
        },
        other => panic!("expected NotFound, got {:?}", other),
    }
}

#[test]
fn listing_no_orders_is_not_found() {
    let backend = Backend::init().expect("fresh memory opens");
    match backend.get_all_orders() {
        Err(Error::NotFound { msg }) => assert_eq!(msg, "no orders could be found"),
        other => panic!("expected NotFound, got {:?}", other),
    }
    match backend.get_order_by_id(0) {
        Err(Error::NotFound { msg }) => assert_eq!(msg, "no order could be found for id: 0"),
        other => panic!("expected NotFound, got {:?}", other),
    }
}

#[test]
fn the_same_request_twice_places_two_orders() {
    let mut backend = stocked();
    let one = place(&mut backend, "ada", 0, vec![line(1, 1)]);
    let two = place(&mut backend, "ada", 0, vec![line(1, 1)]);
    assert_eq!(one.id + 1, two.id);
    assert_eq!(backend.get_all_orders().unwrap().len(), 2);
}

#[test]
fn the_total_is_fixed_when_the_order_is_placed() {
    let mut backend = stocked();
    let order = place(&mut backend, "ada", 0, vec![line(1, 2)]);
    backend.delete_food_item_by_id(&"cook".to_string(), 1).unwrap();
    assert_eq!(backend.get_order_by_id(order.id).unwrap().total, 20);
}
