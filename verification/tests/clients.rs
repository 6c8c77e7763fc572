use food_delivery_backend::backend::Backend;
use food_delivery_backend::{ClientPayload, Error};

fn payload(name: &str, address: &str) -> ClientPayload {
    ClientPayload {
        name: name.to_string(),
        address: address.to_string(),
        phone: "555-0100".to_string(),
        email: "someone@example.org".to_string(),
    }
}

#[test]
fn a_created_client_is_found_as_returned() {
    let mut backend = Backend::init().expect("fresh memory opens");
    let caller = "2vxsx-fae".to_string();
    let created = backend
        .create_client(&caller, payload("Ada", "1 Main Street"))
        .expect("an identifier is granted")
        .expect("the payload is valid");
    assert_eq!(created.id, 0);
    assert_eq!(created.client_principal, "2vxsx-fae");
    assert_eq!(created.name, "Ada");
    assert_eq!(created.address, "1 Main Street");
    assert_eq!(created.phone, "555-0100");
    assert_eq!(created.email, "someone@example.org");

    let found = backend.get_client_by_id(created.id).expect("the client is on file");
    assert_eq!(found.id, created.id);
    assert_eq!(found.client_principal, created.client_principal);
    assert_eq!(found.name, created.name);
    assert_eq!(found.address, created.address);
    assert_eq!(found.phone, created.phone);
    assert_eq!(found.email, created.email);
}

#[test]
fn clients_are_listed_by_ascending_identifier() {
    let mut backend = Backend::init().expect("fresh memory opens");
    let caller = "2vxsx-fae".to_string();
    for name in ["Ada", "Bob", "Cyd"] {
        backend.create_client(&caller, payload(name, "1 Main Street")).unwrap().unwrap();
    }
    let all = backend.get_all_clients().expect("three clients");
    let ids: Vec<u64> = all.iter().map(|c| c.id).collect();
    let names: Vec<&str> = all.iter().map(|c| c.name.as_str()).collect();
    assert_eq!(ids, vec![0, 1, 2]);
    assert_eq!(names, vec!["Ada", "Bob", "Cyd"]);
}

#[test]
fn listing_no_clients_is_not_found() {
    let backend = Backend::init().expect("fresh memory opens");
    match backend.get_all_clients() {
        Err(Error::NotFound { msg }) => assert_eq!(msg, "no clients could be found"),
        other => panic!("expected NotFound, got {:?}", other),
    }
}

#[test]
fn an_unknown_client_is_not_found() {
    let backend = Backend::init().expect("fresh memory opens");
    match backend.get_client_by_id(42) {
        Err(Error::NotFound { msg }) => assert_eq!(msg, "no client could be found for id: 42"),
        other => panic!("expected NotFound, got {:?}", other),
    }
}

#[test]
fn a_short_name_is_turned_down_and_takes_no_identifier() {
    let mut backend = Backend::init().expect("fresh memory opens");
    let caller = "2vxsx-fae".to_string();
    match backend.create_client(&caller, payload("A", "1 Main Street")) {
        Some(Err(Error::InvalidPayload { msg })) => {
            assert_eq!(msg, "name: length must be at least 2")
        },
        other => panic!("expected InvalidPayload, got {:?}", other),
    }
    assert!(matches!(backend.get_all_clients(), Err(Error::NotFound { .. })));
    assert_eq!(backend.next_id(), Some(0));
}

#[test]
fn a_short_address_is_turned_down() {
    let mut backend = Backend::init().expect("fresh memory opens");
    let caller = "2vxsx-fae".to_string();
    match backend.create_client(&caller, payload("Ada", "1 M")) {
        Some(Err(Error::InvalidPayload { msg })) => {
            assert_eq!(msg, "address: length must be at least 4")
        },
        other => panic!("expected InvalidPayload, got {:?}", other),
    }
}

#[test]
fn both_complaints_are_made_one_per_line() {
    let mut backend = Backend::init().expect("fresh memory opens");
    let caller = "2vxsx-fae".to_string();
    match backend.create_client(&caller, payload("", "")) {
        Some(Err(Error::InvalidPayload { msg })) => assert_eq!(
            msg,
            "name: length must be at least 2\naddress: length must be at least 4"
        ),
        other => panic!("expected InvalidPayload, got {:?}", other),
    }
}

#[test]
fn lengths_are_counted_in_characters() {
    let mut backend = Backend::init().expect("fresh memory opens");
    let caller = "2vxsx-fae".to_string();
    let created =
        backend.create_client(&caller, payload("日本", "東京都港区")).unwrap().unwrap();
    assert_eq!(created.name, "日本");
    let found = backend.get_client_by_id(created.id).unwrap();
    assert_eq!(found.name, "日本");
    assert_eq!(found.address, "東京都港区");
    // Three bytes, one character.
    assert!(matches!(
        backend.create_client(&caller, payload("日", "東京都港区")),
        Some(Err(Error::InvalidPayload { .. }))
    ));
}

#[test]
fn a_client_that_does_not_fit_is_not_taken() {
    let mut backend = Backend::init().expect("fresh memory opens");
    let caller = "2vxsx-fae".to_string();
    let long = "x".repeat(2000);
    assert!(backend.create_client(&caller, payload(&long, "1 Main Street")).is_none());
    assert!(matches!(backend.get_all_clients(), Err(Error::NotFound { .. })));
    assert_eq!(backend.next_id(), Some(0));
}

#[test]
fn identifiers_grow_by_one_and_are_shared() {
    let mut backend = Backend::init().expect("fresh memory opens");
    assert_eq!(backend.next_id(), Some(0));
    assert_eq!(backend.next_id(), Some(1));
    let caller = "2vxsx-fae".to_string();
    let created = backend.create_client(&caller, payload("Ada", "1 Main Street")).unwrap().unwrap();
    assert_eq!(created.id, 2);
    assert_eq!(backend.next_id(), Some(3));
}

#[test]
fn the_message_of_an_error_is_at_hand() {
    let error = Error::Unauthorized { msg: "no".to_string() };
    assert_eq!(error.message(), "no");
}
