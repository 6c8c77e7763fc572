//! Records as bytes.
//!
//! [`Record`] is what a table asks of the values it keeps: a layout, stated
//! by `parse`, and a pair of functions that write and read it.

use vstd::prelude::*;
use crate::codec::{
    after, lemma_extends_chain, lemma_read_quantities_kept, lemma_read_text_kept,
    lemma_read_u64_kept, put_flag, put_quantities, put_text, put_u64, quantities_size, read_flag,
    read_quantities, read_text, read_u64, take_flag, take_quantities, take_text, take_u64,
    text_size, value,
};
use crate::types::{Client, ClientView, Item, ItemView, Order, OrderView, Review, ReviewView};

verus! {

/// A value that a table can keep.
pub trait Record: View + Sized {
    /// The record that `bytes` are the layout of, if they are one.
    spec fn parse(bytes: Seq<u8>) -> Option<Self::V>;

    /// The number of bytes that the layout of `v` takes.
    spec fn size(v: Self::V) -> nat;

    /// The identifier that the record carries.
    spec fn key(v: Self::V) -> u64;

    /// The layout of the record.
    fn encode(&self) -> (bytes: Vec<u8>)
        ensures
            Self::parse(bytes@) == Some(self@),
            bytes@.len() == Self::size(self@),
    ;

    /// The record laid out in `bytes`; `None` when they are not a layout.
    fn decode(bytes: &Vec<u8>) -> (record: Option<Self>)
        ensures
            match record {
                Some(r) => Self::parse(bytes@) == Some(r@),
                None => Self::parse(bytes@) is None,
            },
    ;

    /// The identifier that the record carries.
    fn id(&self) -> (id: u64)
        ensures
            id == Self::key(self@),
    ;
}

/// A client is laid out as its identifier, principal, name, address, phone
/// and email.
impl Record for Client {
    open spec fn parse(bytes: Seq<u8>) -> Option<ClientView> {
        let id = read_u64(bytes, 0);
        let client_principal = read_text(bytes, after(id));
        let name = read_text(bytes, after(client_principal));
        let address = read_text(bytes, after(name));
        let phone = read_text(bytes, after(address));
        let email = read_text(bytes, after(phone));
        if after(email) == bytes.len() {
            Some(
                ClientView {
                    id: value(id),
                    client_principal: value(client_principal),
                    name: value(name),
                    address: value(address),
                    phone: value(phone),
                    email: value(email),
                },
            )
        } else {
            None
        }
    }

    open spec fn size(v: ClientView) -> nat {
        8 + text_size(v.client_principal) + text_size(v.name) + text_size(v.address) + text_size(
            v.phone,
        ) + text_size(v.email)
    }

    open spec fn key(v: ClientView) -> u64 {
        v.id
    }

    fn encode(&self) -> (bytes: Vec<u8>) {
        let mut out: Vec<u8> = Vec::new();
        put_u64(&mut out, self.id);
        let ghost s1 = out@;
        put_text(&mut out, &self.client_principal);
        let ghost s2 = out@;
        put_text(&mut out, &self.name);
        let ghost s3 = out@;
        put_text(&mut out, &self.address);
        let ghost s4 = out@;
        put_text(&mut out, &self.phone);
        let ghost s5 = out@;
        put_text(&mut out, &self.email);
        proof {
            lemma_extends_chain(out@, s5, s4);
            lemma_extends_chain(out@, s4, s3);
            lemma_extends_chain(out@, s3, s2);
            lemma_extends_chain(out@, s2, s1);
            lemma_read_u64_kept(out@, s1, 0);
            lemma_read_text_kept(out@, s2, s1.len() as int);
            lemma_read_text_kept(out@, s3, s2.len() as int);
            lemma_read_text_kept(out@, s4, s3.len() as int);
            lemma_read_text_kept(out@, s5, s4.len() as int);
        }
        out
    }

    fn decode(bytes: &Vec<u8>) -> (record: Option<Self>) {
        let (id, at) = match take_u64(bytes, 0) {
            Some(read) => read,
            None => { return None; },
        };
        let (client_principal, at) = match take_text(bytes, at) {
            Some(read) => read,
            None => { return None; },
        };
        let (name, at) = match take_text(bytes, at) {
            Some(read) => read,
            None => { return None; },
        };
        let (address, at) = match take_text(bytes, at) {
            Some(read) => read,
            None => { return None; },
        };
        let (phone, at) = match take_text(bytes, at) {
            Some(read) => read,
            None => { return None; },
        };
        let (email, at) = match take_text(bytes, at) {
            Some(read) => read,
            None => { return None; },
        };
        if at != bytes.len() {
            return None;
        }
        Some(Client { id, client_principal, name, address, phone, email })
    }

    fn id(&self) -> (id: u64) {
        self.id
    }
}

/// An item is laid out as its identifier, owner, name, description, price
/// and category.
impl Record for Item {
    open spec fn parse(bytes: Seq<u8>) -> Option<ItemView> {
        let id = read_u64(bytes, 0);
        let item_owner = read_text(bytes, after(id));
        let name = read_text(bytes, after(item_owner));
        let description = read_text(bytes, after(name));
        let price = read_u64(bytes, after(description));
        let category = read_text(bytes, after(price));
        if after(category) == bytes.len() {
            Some(
                ItemView {
                    id: value(id),
                    item_owner: value(item_owner),
                    name: value(name),
                    description: value(description),
                    price: value(price),
                    category: value(category),
                },
            )
        } else {
            None
        }
    }

    open spec fn size(v: ItemView) -> nat {
        8 + text_size(v.item_owner) + text_size(v.name) + text_size(v.description) + 8 + text_size(
            v.category,
        )
    }

    open spec fn key(v: ItemView) -> u64 {
        v.id
    }

    fn encode(&self) -> (bytes: Vec<u8>) {
        let mut out: Vec<u8> = Vec::new();
        put_u64(&mut out, self.id);
        let ghost s1 = out@;
        put_text(&mut out, &self.item_owner);
        let ghost s2 = out@;
        put_text(&mut out, &self.name);
        let ghost s3 = out@;
        put_text(&mut out, &self.description);
        let ghost s4 = out@;
        put_u64(&mut out, self.price);
        let ghost s5 = out@;
        put_text(&mut out, &self.category);
        proof {
            lemma_extends_chain(out@, s5, s4);
            lemma_extends_chain(out@, s4, s3);
            lemma_extends_chain(out@, s3, s2);
            lemma_extends_chain(out@, s2, s1);
            lemma_read_u64_kept(out@, s1, 0);
            lemma_read_text_kept(out@, s2, s1.len() as int);
            lemma_read_text_kept(out@, s3, s2.len() as int);
            lemma_read_text_kept(out@, s4, s3.len() as int);
            lemma_read_u64_kept(out@, s5, s4.len() as int);
        }
        out
    }

    fn decode(bytes: &Vec<u8>) -> (record: Option<Self>) {
        let (id, at) = match take_u64(bytes, 0) {
            Some(read) => read,
            None => { return None; },
        };
        let (item_owner, at) = match take_text(bytes, at) {
            Some(read) => read,
            None => { return None; },
        };
        let (name, at) = match take_text(bytes, at) {
            Some(read) => read,
            None => { return None; },
        };
        let (description, at) = match take_text(bytes, at) {
            Some(read) => read,
            None => { return None; },
        };
        let (price, at) = match take_u64(bytes, at) {
            Some(read) => read,
            None => { return None; },
        };
        let (category, at) = match take_text(bytes, at) {
            Some(read) => read,
            None => { return None; },
        };
        if at != bytes.len() {
            return None;
        }
        Some(Item { id, item_owner, name, description, price, category })
    }

    fn id(&self) -> (id: u64) {
        self.id
    }
}

/// An order is laid out as its identifier, client, quantities, total, status
/// and delivery flag.
impl Record for Order {
    open spec fn parse(bytes: Seq<u8>) -> Option<OrderView> {
        let id = read_u64(bytes, 0);
        let client_id = read_u64(bytes, after(id));
        let items = read_quantities(bytes, after(client_id));
        let total = read_u64(bytes, after(items));
        let status = read_text(bytes, after(total));
        let delivered = read_flag(bytes, after(status));
        if after(delivered) == bytes.len() {
            Some(
                OrderView {
                    id: value(id),
                    client_id: value(client_id),
                    items: value(items),
                    total: value(total),
                    status: value(status),
                    delivered: value(delivered),
                },
            )
        } else {
            None
        }
    }

    open spec fn size(v: OrderView) -> nat {
        8 + 8 + quantities_size(v.items) + 8 + text_size(v.status) + 1
    }

    open spec fn key(v: OrderView) -> u64 {
        v.id
    }

    fn encode(&self) -> (bytes: Vec<u8>) {
        let mut out: Vec<u8> = Vec::new();
        put_u64(&mut out, self.id);
        let ghost s1 = out@;
        put_u64(&mut out, self.client_id);
        let ghost s2 = out@;
        put_quantities(&mut out, &self.items);
        let ghost s3 = out@;
        put_u64(&mut out, self.total);
        let ghost s4 = out@;
        put_text(&mut out, &self.status);
        let ghost s5 = out@;
        put_flag(&mut out, self.delivered);
        proof {
            lemma_extends_chain(out@, s5, s4);
            lemma_extends_chain(out@, s4, s3);
            lemma_extends_chain(out@, s3, s2);
            lemma_extends_chain(out@, s2, s1);
            lemma_read_u64_kept(out@, s1, 0);
            lemma_read_u64_kept(out@, s2, s1.len() as int);
            lemma_read_quantities_kept(out@, s3, s2.len() as int);
            lemma_read_u64_kept(out@, s4, s3.len() as int);
            lemma_read_text_kept(out@, s5, s4.len() as int);
        }
        out
    }

    fn decode(bytes: &Vec<u8>) -> (record: Option<Self>) {
        let (id, at) = match take_u64(bytes, 0) {
            Some(read) => read,
            None => { return None; },
        };
        let (client_id, at) = match take_u64(bytes, at) {
            Some(read) => read,
            None => { return None; },
        };
        let (items, at) = match take_quantities(bytes, at) {
            Some(read) => read,
            None => { return None; },
        };
        let (total, at) = match take_u64(bytes, at) {
            Some(read) => read,
            None => { return None; },
        };
        let (status, at) = match take_text(bytes, at) {
            Some(read) => read,
            None => { return None; },
        };
        let (delivered, at) = match take_flag(bytes, at) {
            Some(read) => read,
            None => { return None; },
        };
        if at != bytes.len() {
            return None;
        }
        Some(Order { id, client_id, items, total, status, delivered })
    }

    fn id(&self) -> (id: u64) {
        self.id
    }
}

/// A review is laid out as its identifier, client, item, rating and comment.
impl Record for Review {
    open spec fn parse(bytes: Seq<u8>) -> Option<ReviewView> {
        let id = read_u64(bytes, 0);
        let client_id = read_u64(bytes, after(id));
        let item_id = read_u64(bytes, after(client_id));
        let rating = read_u64(bytes, after(item_id));
        let comment = read_text(bytes, after(rating));
        if after(comment) == bytes.len() {
            Some(
                ReviewView {
                    id: value(id),
                    client_id: value(client_id),
                    item_id: value(item_id),
                    rating: value(rating),
                    comment: value(comment),
                },
            )
        } else {
            None
        }
    }

    open spec fn size(v: ReviewView) -> nat {
        8 + 8 + 8 + 8 + text_size(v.comment)
    }

    open spec fn key(v: ReviewView) -> u64 {
        v.id
    }

    fn encode(&self) -> (bytes: Vec<u8>) {
        let mut out: Vec<u8> = Vec::new();
        put_u64(&mut out, self.id);
        let ghost s1 = out@;
        put_u64(&mut out, self.client_id);
        let ghost s2 = out@;
        put_u64(&mut out, self.item_id);
        let ghost s3 = out@;
        put_u64(&mut out, self.rating);
        let ghost s4 = out@;
        put_text(&mut out, &self.comment);
        proof {
            lemma_extends_chain(out@, s4, s3);
            lemma_extends_chain(out@, s3, s2);
            lemma_extends_chain(out@, s2, s1);
            lemma_read_u64_kept(out@, s1, 0);
            lemma_read_u64_kept(out@, s2, s1.len() as int);
            lemma_read_u64_kept(out@, s3, s2.len() as int);
            lemma_read_u64_kept(out@, s4, s3.len() as int);
        }
        out
    }

    fn decode(bytes: &Vec<u8>) -> (record: Option<Self>) {
        let (id, at) = match take_u64(bytes, 0) {
            Some(read) => read,
            None => { return None; },
        };
        let (client_id, at) = match take_u64(bytes, at) {
            Some(read) => read,
            None => { return None; },
        };
        let (item_id, at) = match take_u64(bytes, at) {
            Some(read) => read,
            None => { return None; },
        };
        let (rating, at) = match take_u64(bytes, at) {
            Some(read) => read,
            None => { return None; },
        };
        let (comment, at) = match take_text(bytes, at) {
            Some(read) => read,
            None => { return None; },
        };
        if at != bytes.len() {
            return None;
        }
        Some(Review { id, client_id, item_id, rating, comment })
    }

    fn id(&self) -> (id: u64) {
        self.id
    }
}

} // verus!
