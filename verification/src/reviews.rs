//! Reviews: writing, listing and deleting.

use vstd::prelude::*;
use vstd::string::StringExecFns;
use crate::backend::Backend;
use crate::model::{listing, numbered_text, outcome, reply, State};
use crate::record::Record;
use crate::stable::{cell_get, MAX_RECORD_SIZE};
use crate::table::{lemma_filter_next, lemma_filter_none, rows, views, Table};
use crate::text::numbered;
use crate::types::{
    DeleteReviewPayload, Error, ErrorView, Review, ReviewPayload, ReviewPayloadView, ReviewView,
};

verus! {

/// Listing all reviews.
pub open spec fn all_reviews(s: State) -> Result<Seq<ReviewView>, ErrorView> {
    if rows(s.reviews).len() == 0 {
        Err(ErrorView::NotFound { msg: "no reviews could be found"@ })
    } else {
        Ok(rows(s.reviews))
    }
}

/// The reviews of one item.
pub open spec fn about(item_id: u64) -> spec_fn(ReviewView) -> bool {
    |review: ReviewView| review.item_id == item_id
}

/// Listing the reviews of one item.
pub open spec fn reviews_by_item(s: State, item_id: u64) -> Result<Seq<ReviewView>, ErrorView> {
    let found = rows(s.reviews).filter(about(item_id));
    if found.len() == 0 {
        Err(
            ErrorView::NotFound {
                msg: numbered_text("no reviews could be found for item_id: "@, item_id, ""@),
            },
        )
    } else {
        Ok(found)
    }
}

/// The review that a payload makes, under the next identifier. A review is
/// filed under client 0.
pub open spec fn written(s: State, payload: ReviewPayloadView) -> ReviewView {
    ReviewView {
        id: s.next_id,
        client_id: 0,
        item_id: payload.item_id,
        rating: payload.rating,
        comment: payload.comment,
    }
}

/// Writing a review.
pub open spec fn create_review_step(s: State, payload: ReviewPayloadView) -> (
    State,
    Option<Result<ReviewView, ErrorView>>,
) {
    if Review::size(written(s, payload)) > MAX_RECORD_SIZE || s.next_id == u64::MAX {
        (s, None)
    } else {
        (
            State {
                next_id: (s.next_id + 1) as u64,
                reviews: s.reviews.insert(s.next_id, written(s, payload)),
                ..s
            },
            Some(Ok(written(s, payload))),
        )
    }
}

/// Deleting a review.
pub open spec fn delete_review_step(s: State, caller: Seq<char>, review_id: u64) -> (
    State,
    Result<Seq<char>, ErrorView>,
) {
    if !s.reviews.dom().contains(review_id) {
        (
            s,
            Err(
                ErrorView::NotFound {
                    msg: numbered_text("no review could be found for id: "@, review_id, ""@),
                },
            ),
        )
    } else {
        let review = s.reviews[review_id];
        if !s.clients.dom().contains(review.client_id) {
            (
                s,
                Err(
                    ErrorView::NotFound {
                        msg: numbered_text(
                            "no client could be found for id: "@,
                            review.client_id,
                            ""@,
                        ),
                    },
                ),
            )
        } else if s.clients[review.client_id].client_principal != caller {
            (s, Err(ErrorView::Unauthorized { msg: "Caller is not the client's principal"@ }))
        } else {
            (
                State { reviews: s.reviews.remove(review.id), ..s },
                Ok(numbered_text("Review id: "@, review.id, " deleted"@)),
            )
        }
    }
}

impl Backend {
    /// All reviews, by ascending identifier. With no review on file the
    /// answer is `NotFound`, not an empty list.
    pub fn get_all_reviews(&self) -> (found: Result<Vec<Review>, Error>)
        requires
            self.wf(),
        ensures
            listing(found) == all_reviews(self@),
    {
        let reviews = self.reviews.rows();
        if reviews.len() == 0 {
            Err(Error::NotFound { msg: String::from_str("no reviews could be found") })
        } else {
            Ok(reviews)
        }
    }

    /// The reviews of the item `item_id`, by ascending identifier;
    /// `NotFound` when there is none.
    pub fn get_reviews_by_item_id(&self, item_id: u64) -> (found: Result<Vec<Review>, Error>)
        requires
            self.wf(),
        ensures
            listing(found) == reviews_by_item(self@, item_id),
    {
        let reviews = self.reviews.rows();
        let ghost all = rows(self@.reviews);
        let ghost given = reviews@;
        let mut found: Vec<Review> = Vec::new();
        proof {
            lemma_filter_none(all, about(item_id));
        }
        for review in it: reviews
            invariant
                it.seq() == given,
                views(given) == all,
                views(found@) == all.take(it.index() as int).filter(about(item_id)),
        {
            let ghost before = found@;
            proof {
                lemma_filter_next(all, it.index() as int, about(item_id));
                assert(views(given)[it.index() as int] == review@);
            }
            if review.item_id == item_id {
                found.push(review);
                assert(views(found@) =~= views(before).push(review@));
            }
        }
        if found.len() == 0 {
            Err(
                Error::NotFound {
                    msg: numbered("no reviews could be found for item_id: ", item_id, ""),
                },
            )
        } else {
            Ok(found)
        }
    }

    /// Files a review. Anyone may do so, and the item need not be on offer.
    ///
    /// `None`, with nothing changed, when the review does not fit or the
    /// identifiers are used up.
    pub fn create_review(&mut self, payload: ReviewPayload) -> (created: Option<
        Result<Review, Error>,
    >)
        requires
            old(self).wf(),
        ensures
            final(self).wf(),
            (final(self)@, reply(created)) == create_review_step(
                old(self)@,
                payload@,
            ),
    {
        let review = Review {
            id: cell_get(&self.counter),
            client_id: 0,
            item_id: payload.item_id,
            rating: payload.rating,
            comment: payload.comment,
        };
        if !Table::fits(&review) {
            return None;
        }
        let granted = self.next_id();
        self.keep_review(granted, review)
    }

    /// Keeps a review under the identifier that `next_id` handed out, or not
    /// at all when it had none left.
    pub fn keep_review(&mut self, granted: Option<u64>, review: Review) -> (kept: Option<
        Result<Review, Error>,
    >)
        requires
            old(self).wf(),
            Review::size(review@) <= MAX_RECORD_SIZE,
            granted matches Some(id) ==> id == review.id && id < old(self)@.next_id && !old(
                self,
            )@.uses(id),
        ensures
            final(self).wf(),
            match granted {
                Some(id) => final(self)@ == (State {
                    reviews: old(self)@.reviews.insert(id, review@),
                    ..old(self)@
                }) && reply(kept) == Some(Ok::<_, ErrorView>(review@)),
                None => final(self)@ == old(self)@ && kept is None,
            },
    {
        match granted {
            Some(id) => {
                self.reviews.insert(id, &review);
                Some(Ok(review))
            },
            None => None,
        }
    }

    /// Deletes the review `payload.review_id` for the caller.
    ///
    /// An unknown review is turned down, then a review whose client is
    /// unknown, then a caller who is not that client.
    pub fn delete_review_by_id(
        &mut self,
        caller: &String,
        payload: DeleteReviewPayload,
    ) -> (deleted: Result<String, Error>)
        requires
            old(self).wf(),
        ensures
            final(self).wf(),
            (final(self)@, outcome(deleted)) == delete_review_step(
                old(self)@,
                caller@,
                payload.review_id,
            ),
    {
        let review = match self.reviews.get(payload.review_id) {
            Some(review) => review,
            None => {
                return Err(
                    Error::NotFound {
                        msg: numbered("no review could be found for id: ", payload.review_id, ""),
                    },
                );
            },
        };
        let client = match self.clients.get(review.client_id) {
            Some(client) => client,
            None => {
                return Err(
                    Error::NotFound {
                        msg: numbered("no client could be found for id: ", review.client_id, ""),
                    },
                );
            },
        };
        if !(client.client_principal == *caller) {
            return Err(
                Error::Unauthorized {
                    msg: String::from_str("Caller is not the client's principal"),
                },
            );
        }
        match self.reviews.remove(review.id) {
            Some(_) => Ok(numbered("Review id: ", review.id, " deleted")),
            None => Err(
                Error::NotFound {
                    msg: numbered("Review id: ", review.id, " could not be deleted"),
                },
            ),
        }
    }
}

} // verus!
