//! The backend: an identifier counter and four tables in stable memory.

use vstd::prelude::*;
use crate::model::State;
use crate::record::Record;
use crate::stable::{
    cell_get, cell_init, cell_new, cell_set, held, regions_init, regions_split, IdCell,
};
use crate::table::{ascending, lists, Table};
use crate::types::{Client, Item, Order, Review};

verus! {

/// The state of the service. Every request is a method on it.
pub struct Backend {
    pub(crate) counter: IdCell,
    pub(crate) clients: Table<Client>,
    pub(crate) orders: Table<Order>,
    pub(crate) reviews: Table<Review>,
    pub(crate) items: Table<Item>,
}

impl View for Backend {
    type V = State;

    open(crate) spec fn view(&self) -> State {
        State {
            next_id: held(self.counter),
            clients: self.clients@,
            orders: self.orders@,
            reviews: self.reviews@,
            items: self.items@,
        }
    }
}

/// Whether every record of `table` is kept under its own identifier, below
/// `next_id`.
fn ids_sound<R: Record>(table: &Table<R>, next_id: u64) -> (sound: bool)
    requires
        table.wf(),
    ensures
        sound == forall|id: u64| #[trigger]
            table@.dom().contains(id) ==> id < next_id && R::key(table@[id]) == id,
{
    let entries = table.scan();
    let ghost listed = ascending(table@);
    let mut at: usize = 0;
    while at < entries.len()
        invariant
            at <= entries@.len(),
            entries@.len() == listed.len(),
            forall|i: int|
                0 <= i < entries@.len() ==> (#[trigger] entries@[i]).0 == listed[i].0
                    && entries@[i].1@ == listed[i].1,
            lists(listed, table@),
            forall|i: int|
                0 <= i < at ==> (#[trigger] listed[i]).0 < next_id && R::key(listed[i].1)
                    == listed[i].0,
        decreases entries@.len() - at,
    {
        let id = entries[at].0;
        if id >= next_id || entries[at].1.id() != id {
            assert(table@.contains_pair(listed[at as int].0, listed[at as int].1));
            return false;
        }
        at = at + 1;
    }
    proof {
        assert forall|id: u64| #[trigger] table@.dom().contains(id) implies id < next_id && R::key(
            table@[id],
        ) == id by {
            let i = choose|i: int| 0 <= i < listed.len() && #[trigger] listed[i].0 == id;
            assert(table@.contains_pair(listed[i].0, listed[i].1));
        }
    }
    true
}

/// Whether no identifier is in use in both tables.
fn apart<A: Record, B: Record>(one: &Table<A>, other: &Table<B>) -> (apart: bool)
    requires
        one.wf(),
        other.wf(),
    ensures
        apart == forall|id: u64| #[trigger]
            one@.dom().contains(id) ==> !other@.dom().contains(id),
{
    let entries = one.scan();
    let ghost listed = ascending(one@);
    let mut at: usize = 0;
    while at < entries.len()
        invariant
            other.wf(),
            at <= entries@.len(),
            entries@.len() == listed.len(),
            forall|i: int| 0 <= i < entries@.len() ==> (#[trigger] entries@[i]).0 == listed[i].0,
            lists(listed, one@),
            forall|i: int| 0 <= i < at ==> !other@.dom().contains((#[trigger] listed[i]).0),
        decreases entries@.len() - at,
    {
        if other.contains(entries[at].0) {
            assert(one@.contains_pair(listed[at as int].0, listed[at as int].1));
            return false;
        }
        at = at + 1;
    }
    proof {
        assert forall|id: u64| #[trigger] one@.dom().contains(id) implies !other@.dom().contains(
            id,
        ) by {
            let i = choose|i: int| 0 <= i < listed.len() && #[trigger] listed[i].0 == id;
        }
    }
    true
}

impl Backend {
    /// The tables are well formed and the state is sound.
    pub open(crate) spec fn wf(&self) -> bool {
        &&& self.clients.wf()
        &&& self.orders.wf()
        &&& self.reviews.wf()
        &&& self.items.wf()
        &&& self@.sound()
    }

    /// Starts over: sets up an empty backend in the stable memory of the
    /// platform, whatever the memory held. `None` when the memory cannot be
    /// grown to hold the counter.
    ///
    /// The memory belongs to the backend; keep one backend per process. The
    /// call aborts the process when the memory carries a memory manager of a
    /// layout that this crate does not know.
    pub fn new() -> (made: Option<Backend>)
        ensures
            made is Some ==> made->Some_0.wf() && made->Some_0@ == State::empty(),
    {
        let (r0, r1, r2, r3, r4) = regions_split(regions_init());
        let counter = match cell_new(r0, 0) {
            Some(cell) => cell,
            None => { return None; },
        };
        let clients = Table::<Client>::new(r1);
        let orders = Table::<Order>::new(r2);
        let reviews = Table::<Review>::new(r3);
        let items = Table::<Item>::new(r4);
        Backend::assemble(counter, clients, orders, reviews, items)
    }

    /// Opens the backend kept in the stable memory of the platform: the
    /// counter in region 0, then clients, orders, reviews and items in
    /// regions 1 to 4. Memory that holds none is set up with an empty one.
    /// `None` when what the memory holds is not a sound backend.
    ///
    /// The memory belongs to the backend; keep one backend per process. The
    /// call aborts the process, rather than return `None`, when the memory
    /// carries a memory manager, a map or a counter that another program
    /// laid out: a layout of another version, a map made for keys or values
    /// of another size, a counter that is not eight bytes long.
    pub fn init() -> (opened: Option<Backend>)
        ensures
            opened is Some ==> opened->Some_0.wf(),
    {
        let (r0, r1, r2, r3, r4) = regions_split(regions_init());
        let counter = match cell_init(r0, 0) {
            Some(cell) => cell,
            None => { return None; },
        };
        let clients = match Table::<Client>::open(r1) {
            Some(table) => table,
            None => { return None; },
        };
        let orders = match Table::<Order>::open(r2) {
            Some(table) => table,
            None => { return None; },
        };
        let reviews = match Table::<Review>::open(r3) {
            Some(table) => table,
            None => { return None; },
        };
        let items = match Table::<Item>::open(r4) {
            Some(table) => table,
            None => { return None; },
        };
        Backend::assemble(counter, clients, orders, reviews, items)
    }

    /// Hands out the next identifier, which no record uses.
    ///
    /// Identifiers start at 0 in a new backend and grow by one with each
    /// that is handed out. Clients, items, orders and reviews draw on the
    /// same run, and an identifier is not handed out again when the record
    /// that had it is gone. `None`, with nothing changed, when the
    /// identifiers are used up.
    pub fn next_id(&mut self) -> (id: Option<u64>)
        requires
            old(self).wf(),
        ensures
            final(self).wf(),
            id is Some <==> old(self)@.next_id < u64::MAX,
            match id {
                Some(n) => n == old(self)@.next_id && !old(self)@.uses(n)
                    && final(self)@ == (State { next_id: (n + 1) as u64, ..old(self)@ }),
                None => final(self)@ == old(self)@,
            },
    {
        let current = cell_get(&self.counter);
        if current == u64::MAX {
            return None;
        }
        let id = cell_set(&mut self.counter, current + 1);
        assert(self@ == State { next_id: (current + 1) as u64, ..old(self)@ });
        assert(self@.sound());
        id
    }

    /// Puts a backend together from its counter and its tables. `None` when
    /// they do not make a sound state: when a record is kept under another
    /// identifier than its own or under one that the counter has yet to hand
    /// out, or when two records share an identifier.
    pub fn assemble(
        counter: IdCell,
        clients: Table<Client>,
        orders: Table<Order>,
        reviews: Table<Review>,
        items: Table<Item>,
    ) -> (made: Option<Backend>)
        requires
            clients.wf(),
            orders.wf(),
            reviews.wf(),
            items.wf(),
        ensures
            made is Some <==> state_of(counter, clients, orders, reviews, items).sound(),
            made matches Some(backend) ==> backend.wf() && backend@ == state_of(
                counter,
                clients,
                orders,
                reviews,
                items,
            ),
    {
        let ghost state = state_of(counter, clients, orders, reviews, items);
        let next_id = cell_get(&counter);
        assert(state.next_id == next_id && state.clients == clients@ && state.orders == orders@
            && state.reviews == reviews@ && state.items == items@);
        if !ids_sound(&clients, next_id) || !ids_sound(&orders, next_id) || !ids_sound(
            &reviews,
            next_id,
        ) || !ids_sound(&items, next_id) {
            assert(!state.sound());
            return None;
        }
        if !apart(&clients, &orders) || !apart(&clients, &reviews) || !apart(&clients, &items)
            || !apart(&orders, &reviews) || !apart(&orders, &items) || !apart(&reviews, &items) {
            assert(!state.sound());
            return None;
        }
        assert(state.sound());
        Some(Backend { counter, clients, orders, reviews, items })
    }
}

/// The state that a counter and four tables make.
pub open spec fn state_of(
    counter: IdCell,
    clients: Table<Client>,
    orders: Table<Order>,
    reviews: Table<Review>,
    items: Table<Item>,
) -> State {
    State {
        next_id: held(counter),
        clients: clients@,
        orders: orders@,
        reviews: reviews@,
        items: items@,
    }
}

} // verus!
