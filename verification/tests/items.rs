use food_delivery_backend::backend::Backend;
use food_delivery_backend::items::is_item_owner;
use food_delivery_backend::{Error, Item, ItemPayload, ReviewPayload};

fn dish(name: &str, description: &str, price: u64, category: &str) -> ItemPayload {
    ItemPayload {
        name: name.to_string(),
        description: description.to_string(),
        price,
        category: category.to_string(),
    }
}

fn offer(backend: &mut Backend, owner: &str, payload: ItemPayload) -> Item {
    backend
        .create_food_item(&owner.to_string(), payload)
        .expect("an identifier is granted")
        .expect("the payload is valid")
}

fn review_of(item_id: u64, comment: &str) -> ReviewPayload {
    ReviewPayload { item_id, rating: 5, comment: comment.to_string() }
}

#[test]
fn a_created_item_is_found_as_returned() {
    let mut backend = Backend::init().expect("fresh memory opens");
    let cook = "cook".to_string();
    let created = backend
        .create_food_item(&cook, dish("Ramen", "Noodles in broth", 12, "soup"))
        .unwrap()
        .unwrap();
    assert_eq!(created.id, 0);
    assert_eq!(created.item_owner, "cook");
    let found = backend.get_food_item_by_id(0).unwrap();
    assert_eq!(found.id, 0);
    assert_eq!(found.item_owner, "cook");
    assert_eq!(found.name, "Ramen");
    assert_eq!(found.description, "Noodles in broth");
    assert_eq!(found.price, 12);
    assert_eq!(found.category, "soup");
}

#[test]
fn listing_no_items_is_not_found() {
    let backend = Backend::init().expect("fresh memory opens");
    match backend.get_all_food_items() {
        Err(Error::NotFound { msg }) => assert_eq!(msg, "no Food items for order could be found"),
        other => panic!("expected NotFound, got {:?}", other),
    }
    match backend.get_food_items_by_category("soup".to_string()) {
        Err(Error::NotFound { msg }) => {
            assert_eq!(msg, "no Food items for category: soup could be found")
        },
        other => panic!("expected NotFound, got {:?}", other),
    }
}

#[test]
fn an_unknown_item_is_not_found() {
    let backend = Backend::init().expect("fresh memory opens");
    match backend.get_food_item_by_id(7) {
        Err(Error::NotFound { msg }) => assert_eq!(msg, "no Food item could be found for id: 7"),
        other => panic!("expected NotFound, got {:?}", other),
    }
}

#[test]
fn short_texts_are_turned_down() {
    let mut backend = Backend::init().expect("fresh memory opens");
    let cook = "cook".to_string();
    match backend.create_food_item(&cook, dish("R", "Noodles", 1, "soup")) {
        Some(Err(Error::InvalidPayload { msg })) => {
            assert_eq!(msg, "name: length must be at least 2")
        },
        other => panic!("expected InvalidPayload, got {:?}", other),
    }
    match backend.create_food_item(&cook, dish("Ramen", "Noo", 1, "soup")) {
        Some(Err(Error::InvalidPayload { msg })) => {
            assert_eq!(msg, "description: length must be at least 4")
        },
        other => panic!("expected InvalidPayload, got {:?}", other),
    }
    match backend.create_food_item(&cook, dish("R", "Noo", 1, "soup")) {
        Some(Err(Error::InvalidPayload { msg })) => assert_eq!(
            msg,
            "name: length must be at least 2\ndescription: length must be at least 4"
        ),
        other => panic!("expected InvalidPayload, got {:?}", other),
    }
    assert_eq!(backend.next_id(), Some(0));
}

#[test]
fn the_search_looks_at_category_and_description() {
    let mut backend = Backend::init().expect("fresh memory opens");
    let cook = "cook".to_string();
    offer(&mut backend, "cook", dish("Ramen", "Noodles in broth", 12, "soup"));
    offer(&mut backend, "cook", dish("Salad", "Leaves, no soup", 7, "cold"));
    assert!(matches!(
        backend.create_food_item(&cook, dish("Soup of the day", "Ask", 1, "x")),
        Some(Err(Error::InvalidPayload { .. }))
    ));
    offer(&mut backend, "cook", dish("Cake", "Chocolate", 5, "dessert"));

    let found = backend.get_food_items_by_category("soup".to_string()).unwrap();
    let names: Vec<&str> = found.iter().map(|i| i.name.as_str()).collect();
    assert_eq!(names, vec!["Ramen", "Salad"]);

    let found = backend.get_food_items_by_category("ess".to_string()).unwrap();
    let names: Vec<&str> = found.iter().map(|i| i.name.as_str()).collect();
    assert_eq!(names, vec!["Cake"]);

    let all = backend.get_food_items_by_category(String::new()).unwrap();
    assert_eq!(all.len(), 3);

    match backend.get_food_items_by_category("pizza".to_string()) {
        Err(Error::NotFound { msg }) => {
            assert_eq!(msg, "no Food items for category: pizza could be found")
        },
        other => panic!("expected NotFound, got {:?}", other),
    }
}

#[test]
fn only_the_owner_passes_the_owner_check() {
    let item = Item {
        id: 31,
        item_owner: "cook".to_string(),
        name: "Ramen".to_string(),
        description: "Noodles".to_string(),
        price: 1,
        category: "soup".to_string(),
    };
    assert!(is_item_owner(&item, &"cook".to_string()).is_ok());
    match is_item_owner(&item, &"thief".to_string()) {
        Err(Error::Unauthorized { msg }) => {
            assert_eq!(msg, "Caller is not the item owner of the item with id=31")
        },
        other => panic!("expected Unauthorized, got {:?}", other),
    }
}

#[test]
fn deleting_an_item_deletes_its_reviews_and_no_others() {
    let mut backend = Backend::init().expect("fresh memory opens");
    let cook = "cook".to_string();
    let ramen = offer(&mut backend, "cook", dish("Ramen", "Noodles", 12, "soup"));
    let cake = offer(&mut backend, "cook", dish("Cake", "Chocolate", 5, "sweet"));
    let first = backend.create_review(review_of(ramen.id, "good")).unwrap().unwrap();
    let second = backend.create_review(review_of(cake.id, "sweet")).unwrap().unwrap();
    let third = backend.create_review(review_of(ramen.id, "hot")).unwrap().unwrap();
    let fourth = backend.create_review(review_of(99, "of nothing")).unwrap().unwrap();

    let done = backend.delete_food_item_by_id(&cook, ramen.id).expect("the owner may delete");
    assert_eq!(done, "Food item id: 0 deleted");

    assert!(matches!(backend.get_food_item_by_id(ramen.id), Err(Error::NotFound { .. })));
    assert!(backend.get_food_item_by_id(cake.id).is_ok());
    let left: Vec<u64> = backend.get_all_reviews().unwrap().iter().map(|r| r.id).collect();
    assert_eq!(left, vec![second.id, fourth.id]);
    assert!(!left.contains(&first.id));
    assert!(!left.contains(&third.id));
    assert!(matches!(backend.get_reviews_by_item_id(ramen.id), Err(Error::NotFound { .. })));
}

#[test]
fn a_stranger_cannot_delete_an_item() {
    let mut backend = Backend::init().expect("fresh memory opens");
    let thief = "thief".to_string();
    let ramen = offer(&mut backend, "cook", dish("Ramen", "Noodles", 12, "soup"));
    backend.create_review(review_of(ramen.id, "good")).unwrap().unwrap();
    match backend.delete_food_item_by_id(&thief, ramen.id) {
        Err(Error::Unauthorized { msg }) => {
            assert_eq!(msg, "Caller is not the item owner of the item with id=0")
        },
        other => panic!("expected Unauthorized, got {:?}", other),
    }
    assert!(backend.get_food_item_by_id(ramen.id).is_ok());
    assert_eq!(backend.get_all_reviews().unwrap().len(), 1);
}

#[test]
fn deleting_an_unknown_item_is_not_found() {
    let mut backend = Backend::init().expect("fresh memory opens");
    match backend.delete_food_item_by_id(&"cook".to_string(), 5) {
        Err(Error::NotFound { msg }) => assert_eq!(msg, "no Food item could be found for id: 5"),
        other => panic!("expected NotFound, got {:?}", other),
    }
}
