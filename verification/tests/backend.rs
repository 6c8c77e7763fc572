use food_delivery_backend::backend::Backend;
use food_delivery_backend::{
    Client, ClientPayload, Error, Item, ItemPayload, Order, OrderItem, OrderPayload, Review,
    ReviewPayload,
};

#[test]
fn a_new_backend_holds_nothing_and_starts_at_zero() {
    let mut backend = Backend::new().expect("memory for the counter");
    assert!(matches!(backend.get_all_clients(), Err(Error::NotFound { .. })));
    assert!(matches!(backend.get_all_food_items(), Err(Error::NotFound { .. })));
    assert!(matches!(backend.get_all_orders(), Err(Error::NotFound { .. })));
    assert!(matches!(backend.get_all_reviews(), Err(Error::NotFound { .. })));
    assert!(matches!(backend.get_client_by_id(0), Err(Error::NotFound { .. })));
    assert_eq!(backend.next_id(), Some(0));
}

#[test]
fn an_opened_backend_on_fresh_memory_holds_nothing() {
    let mut backend = Backend::init().expect("fresh memory opens");
    assert!(matches!(backend.get_all_clients(), Err(Error::NotFound { .. })));
    assert!(matches!(backend.get_all_food_items(), Err(Error::NotFound { .. })));
    assert!(matches!(backend.get_all_orders(), Err(Error::NotFound { .. })));
    assert!(matches!(backend.get_all_reviews(), Err(Error::NotFound { .. })));
    assert_eq!(backend.next_id(), Some(0));
}

#[test]
fn the_four_kinds_share_one_run_of_identifiers() {
    let mut backend = Backend::new().expect("memory for the counter");
    let ada = "ada".to_string();
    let client = backend
        .create_client(
            &ada,
            ClientPayload {
                name: "Ada".to_string(),
                address: "1 Main Street".to_string(),
                phone: String::new(),
                email: String::new(),
            },
        )
        .unwrap()
        .unwrap();
    let item = backend
        .create_food_item(
            &ada,
            ItemPayload {
                name: "Tea".to_string(),
                description: "Green".to_string(),
                price: 2,
                category: "drink".to_string(),
            },
        )
        .unwrap()
        .unwrap();
    let order = backend
        .create_order(
            &ada,
            OrderPayload {
                client_id: client.id,
                items: vec![OrderItem { item_id: item.id, quantity: 2 }],
            },
        )
        .unwrap()
        .unwrap();
    let review = backend
        .create_review(ReviewPayload { item_id: item.id, rating: 4, comment: "mild".to_string() })
        .unwrap()
        .unwrap();
    assert_eq!((client.id, item.id, order.id, review.id), (0, 1, 2, 3));
    assert_eq!(order.total, 4);

    // Each table holds its own record only.
    assert_eq!(backend.get_all_clients().unwrap().len(), 1);
    assert_eq!(backend.get_all_food_items().unwrap().len(), 1);
    assert_eq!(backend.get_all_orders().unwrap().len(), 1);
    assert_eq!(backend.get_all_reviews().unwrap().len(), 1);
    assert!(matches!(backend.get_client_by_id(1), Err(Error::NotFound { .. })));
    assert!(matches!(backend.get_food_item_by_id(0), Err(Error::NotFound { .. })));
    assert!(matches!(backend.get_order_by_id(3), Err(Error::NotFound { .. })));
}

#[test]
fn an_identifier_is_not_handed_out_again_after_a_deletion() {
    let mut backend = Backend::new().expect("memory for the counter");
    let cook = "cook".to_string();
    let dish = ItemPayload {
        name: "Tea".to_string(),
        description: "Green".to_string(),
        price: 2,
        category: "drink".to_string(),
    };
    let first = backend.create_food_item(&cook, dish.clone()).unwrap().unwrap();
    backend.delete_food_item_by_id(&cook, first.id).unwrap();
    let second = backend.create_food_item(&cook, dish).unwrap().unwrap();
    assert_eq!(first.id, 0);
    assert_eq!(second.id, 1);
}

#[test]
fn a_record_is_kept_only_once_the_counter_has_granted_its_identifier() {
    let mut backend = Backend::new().expect("memory for the counter");
    let review = Review { id: 0, client_id: 0, item_id: 9, rating: 1, comment: "no".to_string() };
    assert!(backend.keep_review(None, review.clone()).is_none());
    assert!(matches!(backend.get_all_reviews(), Err(Error::NotFound { .. })));

    let granted = backend.next_id();
    assert_eq!(granted, Some(0));
    let kept = backend.keep_review(granted, review).unwrap().unwrap();
    assert_eq!(kept.comment, "no");
    assert_eq!(backend.get_all_reviews().unwrap()[0].item_id, 9);

    let granted = backend.next_id();
    let client = Client { id: 1, client_principal: "ada".to_string(), ..Client::default() };
    assert_eq!(backend.keep_client(granted, client).unwrap().unwrap().id, 1);
    assert_eq!(backend.get_client_by_id(1).unwrap().client_principal, "ada");

    let granted = backend.next_id();
    let item = Item { id: 2, price: 8, ..Item::default() };
    assert_eq!(backend.keep_item(granted, item).unwrap().unwrap().price, 8);
    assert_eq!(backend.get_food_item_by_id(2).unwrap().price, 8);

    let granted = backend.next_id();
    let order = Order { id: 3, total: 11, ..Order::default() };
    assert_eq!(backend.keep_order(granted, order).unwrap().unwrap().total, 11);
    assert_eq!(backend.get_order_by_id(3).unwrap().total, 11);
    assert!(backend.keep_order(None, Order::default()).is_none());
    assert_eq!(backend.get_all_orders().unwrap().len(), 1);
}

#[test]
fn the_default_records_are_empty() {
    let client = Client::default();
    assert_eq!((client.id, client.name.as_str(), client.email.as_str()), (0, "", ""));
    let item = Item::default();
    assert_eq!((item.id, item.price, item.category.as_str()), (0, 0, ""));
    let order = Order::default();
    assert_eq!((order.id, order.total, order.items.len(), order.delivered), (0, 0, 0, false));
    let review = Review::default();
    assert_eq!((review.id, review.rating, review.comment.as_str()), (0, 0, ""));
}
