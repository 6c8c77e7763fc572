use food_delivery_backend::backend::Backend;
use food_delivery_backend::{ClientPayload, DeleteReviewPayload, Error, ReviewPayload};

fn review_of(item_id: u64, rating: u64, comment: &str) -> ReviewPayload {
    ReviewPayload { item_id, rating, comment: comment.to_string() }
}

fn client(name: &str) -> ClientPayload {
    ClientPayload {
        name: name.to_string(),
        address: "1 Main Street".to_string(),
        phone: "555-0100".to_string(),
        email: "someone@example.org".to_string(),
    }
}

#[test]
fn a_created_review_is_found_as_returned() {
    let mut backend = Backend::init().expect("fresh memory opens");
    let created = backend.create_review(review_of(4, 5, "crisp")).unwrap().unwrap();
    assert_eq!(created.id, 0);
    assert_eq!(created.client_id, 0);
    assert_eq!(created.item_id, 4);
    assert_eq!(created.rating, 5);
    assert_eq!(created.comment, "crisp");
    let found = backend.get_reviews_by_item_id(4).unwrap();
    assert_eq!(found.len(), 1);
    assert_eq!(found[0].id, created.id);
    assert_eq!(found[0].client_id, created.client_id);
    assert_eq!(found[0].item_id, created.item_id);
    assert_eq!(found[0].rating, created.rating);
    assert_eq!(found[0].comment, created.comment);
}

#[test]
fn reviews_are_listed_by_item() {
    let mut backend = Backend::init().expect("fresh memory opens");
    backend.create_review(review_of(4, 5, "crisp")).unwrap().unwrap();
    backend.create_review(review_of(6, 1, "cold")).unwrap().unwrap();
    backend.create_review(review_of(4, 3, "fine")).unwrap().unwrap();
    let all: Vec<u64> = backend.get_all_reviews().unwrap().iter().map(|r| r.id).collect();
    assert_eq!(all, vec![0, 1, 2]);
    let of_four: Vec<String> =
        backend.get_reviews_by_item_id(4).unwrap().into_iter().map(|r| r.comment).collect();
    assert_eq!(of_four, vec!["crisp".to_string(), "fine".to_string()]);
    match backend.get_reviews_by_item_id(5) {
        Err(Error::NotFound { msg }) => {
            assert_eq!(msg, "no reviews could be found for item_id: 5")
        },
        other => panic!("expected NotFound, got {:?}", other),
    }
}

#[test]
fn listing_no_reviews_is_not_found() {
    let backend = Backend::init().expect("fresh memory opens");
    match backend.get_all_reviews() {
        Err(Error::NotFound { msg }) => assert_eq!(msg, "no reviews could be found"),
        other => panic!("expected NotFound, got {:?}", other),
    }
}

#[test]
fn a_review_is_deleted_by_the_client_it_is_filed_under() {
    let mut backend = Backend::init().expect("fresh memory opens");
    // Client 0 is the one every review is filed under.
    backend.create_client(&"ada".to_string(), client("Ada")).unwrap().unwrap();
    let kept = backend.create_review(review_of(4, 5, "crisp")).unwrap().unwrap();
    let gone = backend.create_review(review_of(4, 2, "soggy")).unwrap().unwrap();

    let request = DeleteReviewPayload { review_id: gone.id };
    match backend.delete_review_by_id(&"eve".to_string(), request) {
        Err(Error::Unauthorized { msg }) => assert_eq!(msg, "Caller is not the client's principal"),
        other => panic!("expected Unauthorized, got {:?}", other),
    }
    assert_eq!(backend.get_all_reviews().unwrap().len(), 2);

    let done = backend
        .delete_review_by_id(&"ada".to_string(), DeleteReviewPayload { review_id: gone.id })
        .unwrap();
    assert_eq!(done, "Review id: 2 deleted");
    let left: Vec<u64> = backend.get_all_reviews().unwrap().iter().map(|r| r.id).collect();
    assert_eq!(left, vec![kept.id]);
}

#[test]
fn deleting_asks_for_the_review_and_its_client() {
    let mut backend = Backend::init().expect("fresh memory opens");
    match backend.delete_review_by_id(&"ada".to_string(), DeleteReviewPayload { review_id: 3 }) {
        Err(Error::NotFound { msg }) => assert_eq!(msg, "no review could be found for id: 3"),
        other => panic!("expected NotFound, got {:?}", other),
    }
    // The review is filed under client 0, who is not on file here.
    let review = backend.create_review(review_of(4, 5, "crisp")).unwrap().unwrap();
    match backend
        .delete_review_by_id(&"ada".to_string(), DeleteReviewPayload { review_id: review.id })
    {
        Err(Error::NotFound { msg }) => assert_eq!(msg, "no client could be found for id: 0"),
        other => panic!("expected NotFound, got {:?}", other),
    }
    assert_eq!(backend.get_all_reviews().unwrap().len(), 1);
}

#[test]
fn a_review_that_does_not_fit_is_not_taken() {
    let mut backend = Backend::init().expect("fresh memory opens");
    assert!(backend.create_review(review_of(4, 5, &"!".repeat(1000))).is_none());
    assert_eq!(backend.next_id(), Some(0));
    // 8 * 4 bytes of numbers, 8 bytes of length, 984 bytes of comment: 1024.
    let at_the_limit = backend.create_review(review_of(4, 5, &"!".repeat(984))).unwrap().unwrap();
    assert_eq!(at_the_limit.id, 1);
    assert_eq!(backend.get_all_reviews().unwrap()[0].comment.len(), 984);
    assert!(backend.create_review(review_of(4, 5, &"!".repeat(985))).is_none());
}
