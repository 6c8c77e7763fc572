//! Records, request payloads and errors, each with its mathematical view.

use vstd::prelude::*;
use std::collections::HashMap;

verus! {

/// A registered client.
#[derive(Clone, Debug)]
pub struct Client {
    pub id: u64,
    /// Identity of the caller that registered the client.
    pub client_principal: String,
    pub name: String,
    pub address: String,
    pub phone: String,
    pub email: String,
}

/// An order placed by a client.
#[derive(Clone, Debug)]
pub struct Order {
    pub id: u64,
    pub client_id: u64,
    /// Quantity ordered of each item, by item identifier.
    pub items: HashMap<u64, u64>,
    pub total: u64,
    pub status: String,
    pub delivered: bool,
}

/// A review of a food item.
#[derive(Clone, Debug)]
pub struct Review {
    pub id: u64,
    pub client_id: u64,
    pub item_id: u64,
    pub rating: u64,
    pub comment: String,
}

/// A food item on offer.
#[derive(Clone, Debug)]
pub struct Item {
    pub id: u64,
    /// Identity of the caller that put the item on offer.
    pub item_owner: String,
    pub name: String,
    pub description: String,
    pub price: u64,
    pub category: String,
}

/// What a caller sends to register as a client.
#[derive(Clone, Debug)]
pub struct ClientPayload {
    pub name: String,
    pub address: String,
    pub phone: String,
    pub email: String,
}

/// What a caller sends to place an order.
#[derive(Clone, Debug)]
pub struct OrderPayload {
    pub client_id: u64,
    pub items: Vec<OrderItem>,
}

/// One line of an order: so many of one item.
#[derive(Clone, Copy, Debug)]
pub struct OrderItem {
    pub item_id: u64,
    pub quantity: u64,
}

/// What a caller sends to review an item.
#[derive(Clone, Debug)]
pub struct ReviewPayload {
    pub item_id: u64,
    pub rating: u64,
    pub comment: String,
}

/// What a caller sends to put an item on offer.
#[derive(Clone, Debug)]
pub struct ItemPayload {
    pub name: String,
    pub description: String,
    pub price: u64,
    pub category: String,
}

/// What a caller sends to confirm that an order was delivered.
#[derive(Clone, Copy, Debug)]
pub struct ConfirmDeliveryPayload {
    pub order_id: u64,
}

/// What a caller sends to delete a review.
#[derive(Clone, Copy, Debug)]
pub struct DeleteReviewPayload {
    pub review_id: u64,
}

/// Why a request was turned down. The message is for people; programs branch
/// on the variant.
#[derive(Clone, Debug)]
pub enum Error {
    NotFound { msg: String },
    AlreadyDelivered { msg: String },
    InvalidPayload { msg: String },
    Unauthorized { msg: String },
}

/// A [`Client`] as mathematics.
pub struct ClientView {
    pub id: u64,
    pub client_principal: Seq<char>,
    pub name: Seq<char>,
    pub address: Seq<char>,
    pub phone: Seq<char>,
    pub email: Seq<char>,
}

/// An [`Order`] as mathematics.
#[verifier::ext_equal]
pub struct OrderView {
    pub id: u64,
    pub client_id: u64,
    pub items: Map<u64, u64>,
    pub total: u64,
    pub status: Seq<char>,
    pub delivered: bool,
}

/// A [`Review`] as mathematics.
pub struct ReviewView {
    pub id: u64,
    pub client_id: u64,
    pub item_id: u64,
    pub rating: u64,
    pub comment: Seq<char>,
}

/// An [`Item`] as mathematics.
pub struct ItemView {
    pub id: u64,
    pub item_owner: Seq<char>,
    pub name: Seq<char>,
    pub description: Seq<char>,
    pub price: u64,
    pub category: Seq<char>,
}

/// A [`ClientPayload`] as mathematics.
pub struct ClientPayloadView {
    pub name: Seq<char>,
    pub address: Seq<char>,
    pub phone: Seq<char>,
    pub email: Seq<char>,
}

/// An [`OrderPayload`] as mathematics.
pub struct OrderPayloadView {
    pub client_id: u64,
    pub items: Seq<OrderItem>,
}

/// A [`ReviewPayload`] as mathematics.
pub struct ReviewPayloadView {
    pub item_id: u64,
    pub rating: u64,
    pub comment: Seq<char>,
}

/// An [`ItemPayload`] as mathematics.
pub struct ItemPayloadView {
    pub name: Seq<char>,
    pub description: Seq<char>,
    pub price: u64,
    pub category: Seq<char>,
}

/// An [`Error`] as mathematics.
pub enum ErrorView {
    NotFound { msg: Seq<char> },
    AlreadyDelivered { msg: Seq<char> },
    InvalidPayload { msg: Seq<char> },
    Unauthorized { msg: Seq<char> },
}

impl View for Client {
    type V = ClientView;

    open spec fn view(&self) -> ClientView {
        ClientView {
            id: self.id,
            client_principal: self.client_principal@,
            name: self.name@,
            address: self.address@,
            phone: self.phone@,
            email: self.email@,
        }
    }
}

impl View for Order {
    type V = OrderView;

    open spec fn view(&self) -> OrderView {
        OrderView {
            id: self.id,
            client_id: self.client_id,
            items: self.items@,
            total: self.total,
            status: self.status@,
            delivered: self.delivered,
        }
    }
}

impl View for Review {
    type V = ReviewView;

    open spec fn view(&self) -> ReviewView {
        ReviewView {
            id: self.id,
            client_id: self.client_id,
            item_id: self.item_id,
            rating: self.rating,
            comment: self.comment@,
        }
    }
}

impl View for Item {
    type V = ItemView;

    open spec fn view(&self) -> ItemView {
        ItemView {
            id: self.id,
            item_owner: self.item_owner@,
            name: self.name@,
            description: self.description@,
            price: self.price,
            category: self.category@,
        }
    }
}

impl View for ClientPayload {
    type V = ClientPayloadView;

    open spec fn view(&self) -> ClientPayloadView {
        ClientPayloadView {
            name: self.name@,
            address: self.address@,
            phone: self.phone@,
            email: self.email@,
        }
    }
}

impl View for OrderPayload {
    type V = OrderPayloadView;

    open spec fn view(&self) -> OrderPayloadView {
        OrderPayloadView { client_id: self.client_id, items: self.items@ }
    }
}

impl View for ReviewPayload {
    type V = ReviewPayloadView;

    open spec fn view(&self) -> ReviewPayloadView {
        ReviewPayloadView { item_id: self.item_id, rating: self.rating, comment: self.comment@ }
    }
}

impl View for ItemPayload {
    type V = ItemPayloadView;

    open spec fn view(&self) -> ItemPayloadView {
        ItemPayloadView {
            name: self.name@,
            description: self.description@,
            price: self.price,
            category: self.category@,
        }
    }
}

impl View for Error {
    type V = ErrorView;

    open spec fn view(&self) -> ErrorView {
        match self {
            Error::NotFound { msg } => ErrorView::NotFound { msg: msg@ },
            Error::AlreadyDelivered { msg } => ErrorView::AlreadyDelivered { msg: msg@ },
            Error::InvalidPayload { msg } => ErrorView::InvalidPayload { msg: msg@ },
            Error::Unauthorized { msg } => ErrorView::Unauthorized { msg: msg@ },
        }
    }
}

impl Default for Client {
    fn default() -> (client: Self)
        ensures
            client@ == (ClientView {
                id: 0,
                client_principal: Seq::empty(),
                name: Seq::empty(),
                address: Seq::empty(),
                phone: Seq::empty(),
                email: Seq::empty(),
            }),
    {
        Client {
            id: 0,
            client_principal: String::new(),
            name: String::new(),
            address: String::new(),
            phone: String::new(),
            email: String::new(),
        }
    }
}

impl Default for Order {
    fn default() -> (order: Self)
        ensures
            order@ == (OrderView {
                id: 0,
                client_id: 0,
                items: Map::empty(),
                total: 0,
                status: Seq::empty(),
                delivered: false,
            }),
    {
        Order {
            id: 0,
            client_id: 0,
            items: HashMap::new(),
            total: 0,
            status: String::new(),
            delivered: false,
        }
    }
}

impl Default for Review {
    fn default() -> (review: Self)
        ensures
            review@ == (ReviewView {
                id: 0,
                client_id: 0,
                item_id: 0,
                rating: 0,
                comment: Seq::empty(),
            }),
    {
        Review { id: 0, client_id: 0, item_id: 0, rating: 0, comment: String::new() }
    }
}

impl Default for Item {
    fn default() -> (item: Self)
        ensures
            item@ == (ItemView {
                id: 0,
                item_owner: Seq::empty(),
                name: Seq::empty(),
                description: Seq::empty(),
                price: 0,
                category: Seq::empty(),
            }),
    {
        Item {
            id: 0,
            item_owner: String::new(),
            name: String::new(),
            description: String::new(),
            price: 0,
            category: String::new(),
        }
    }
}

impl Error {
    /// The message carried by the error, whichever its kind.
    pub fn message(&self) -> (msg: &String)
        ensures
            msg@ == self@.text(),
    {
        match self {
            Error::NotFound { msg } => msg,
            Error::AlreadyDelivered { msg } => msg,
            Error::InvalidPayload { msg } => msg,
            Error::Unauthorized { msg } => msg,
        }
    }
}

impl ErrorView {
    /// The message carried by the error, whichever its kind.
    pub open spec fn text(self) -> Seq<char> {
        match self {
            ErrorView::NotFound { msg } => msg,
            ErrorView::AlreadyDelivered { msg } => msg,
            ErrorView::InvalidPayload { msg } => msg,
            ErrorView::Unauthorized { msg } => msg,
        }
    }
}

} // verus!
