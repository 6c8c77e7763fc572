//! A food-delivery backend: clients, food items, orders and reviews kept in
//! stable memory, with the rules that tie them together.
//!
//! [`backend::Backend`] is the state of the service, and every request is a
//! method on it that takes the identity of the caller where the request asks
//! for one. Each request promises to act as a function of [`model::State`]
//! says; [`laws`] holds what follows of those functions.
//!
//! The modules, from the ground up:
//!
//! * [`stable`]: stable memory, as `ic_stable_structures` offers it;
//! * [`text`], [`codec`], [`record`]: numerals and texts, and records as bytes;
//! * [`table`]: a table of records of one kind;
//! * [`validation`]: the length rules of payloads;
//! * [`types`], [`model`]: the data and the state, in code and as mathematics;
//! * [`backend`], [`clients`], [`items`], [`orders`], [`reviews`]: the requests;
//! * [`laws`]: what holds of them.
//!
//! Proved is everything but the calls into `ic_stable_structures` and
//! `validator` and two calls into `std`. Those are made by the `pub(crate)`
//! functions of [`stable`], by `has_min_length` in [`validation`] and by
//! `contains_text` and `text_from_utf8` in [`text`], whose contracts are
//! taken on trust.

pub mod stable;
pub mod text;
pub mod codec;
pub mod types;
pub mod record;
pub mod table;
pub mod validation;
pub mod model;
pub mod backend;
pub mod clients;
pub mod items;
pub mod orders;
pub mod reviews;
pub mod laws;

pub use types::{
    Client, ClientPayload, ConfirmDeliveryPayload, DeleteReviewPayload, Error, Item, ItemPayload,
    Order, OrderItem, OrderPayload, Review, ReviewPayload,
};
