//! Clients: registering and listing.

use vstd::prelude::*;
use vstd::string::StringExecFns;
use crate::backend::Backend;
use crate::model::{listing, numbered_text, outcome, reply, State};
use crate::record::Record;
use crate::stable::{cell_get, MAX_RECORD_SIZE};
use crate::table::{rows, Table};
use crate::text::numbered;
use crate::types::{Client, ClientPayload, ClientPayloadView, ClientView, Error, ErrorView};
use crate::validation::{check_lengths, complaints};

verus! {

/// Listing all clients.
pub open spec fn all_clients(s: State) -> Result<Seq<ClientView>, ErrorView> {
    if rows(s.clients).len() == 0 {
        Err(ErrorView::NotFound { msg: "no clients could be found"@ })
    } else {
        Ok(rows(s.clients))
    }
}

/// Looking up one client.
pub open spec fn client_by_id(s: State, id: u64) -> Result<ClientView, ErrorView> {
    if s.clients.dom().contains(id) {
        Ok(s.clients[id])
    } else {
        Err(
            ErrorView::NotFound {
                msg: numbered_text("no client could be found for id: "@, id, ""@),
            },
        )
    }
}

/// A client needs a name of two characters and an address of four.
pub open spec fn client_payload_ok(payload: ClientPayloadView) -> bool {
    payload.name.len() >= 2 && payload.address.len() >= 4
}

/// The client that a payload describes, under the next identifier.
pub open spec fn registered(s: State, caller: Seq<char>, payload: ClientPayloadView) -> ClientView {
    ClientView {
        id: s.next_id,
        client_principal: caller,
        name: payload.name,
        address: payload.address,
        phone: payload.phone,
        email: payload.email,
    }
}

/// Registering a client.
pub open spec fn create_client_step(
    s: State,
    caller: Seq<char>,
    payload: ClientPayloadView,
) -> (State, Option<Result<ClientView, ErrorView>>) {
    if !client_payload_ok(payload) {
        (
            s,
            Some(
                Err(
                    ErrorView::InvalidPayload {
                        msg: complaints(
                            "name"@,
                            2,
                            payload.name.len() >= 2,
                            "address"@,
                            4,
                            payload.address.len() >= 4,
                        ),
                    },
                ),
            ),
        )
    } else if Client::size(registered(s, caller, payload)) > MAX_RECORD_SIZE || s.next_id
        == u64::MAX {
        (s, None)
    } else {
        (
            State {
                next_id: (s.next_id + 1) as u64,
                clients: s.clients.insert(s.next_id, registered(s, caller, payload)),
                ..s
            },
            Some(Ok(registered(s, caller, payload))),
        )
    }
}

impl Backend {
    /// All clients, by ascending identifier. With no client on file the
    /// answer is `NotFound`, not an empty list.
    pub fn get_all_clients(&self) -> (found: Result<Vec<Client>, Error>)
        requires
            self.wf(),
        ensures
            listing(found) == all_clients(self@),
    {
        let clients = self.clients.rows();
        if clients.len() == 0 {
            Err(Error::NotFound { msg: String::from_str("no clients could be found") })
        } else {
            Ok(clients)
        }
    }

    /// The client kept under `id`.
    pub fn get_client_by_id(&self, id: u64) -> (found: Result<Client, Error>)
        requires
            self.wf(),
        ensures
            outcome(found) == client_by_id(self@, id),
    {
        match self.clients.get(id) {
            Some(client) => Ok(client),
            None => Err(
                Error::NotFound { msg: numbered("no client could be found for id: ", id, "") },
            ),
        }
    }

    /// Registers the caller as a client.
    ///
    /// A name under two characters or an address under four is turned down
    /// before an identifier is taken. `None`, with nothing changed, when the
    /// client does not fit or the identifiers are used up.
    pub fn create_client(&mut self, caller: &String, payload: ClientPayload) -> (created: Option<
        Result<Client, Error>,
    >)
        requires
            old(self).wf(),
        ensures
            final(self).wf(),
            (final(self)@, reply(created)) == create_client_step(
                old(self)@,
                caller@,
                payload@,
            ),
    {
        match check_lengths("name", &payload.name, 2, "address", &payload.address, 4) {
            Err(msg) => {
                return Some(Err(Error::InvalidPayload { msg }));
            },
            Ok(_) => {},
        }
        let client = Client {
            id: cell_get(&self.counter),
            client_principal: caller.clone(),
            name: payload.name,
            address: payload.address,
            phone: payload.phone,
            email: payload.email,
        };
        if !Table::fits(&client) {
            return None;
        }
        let granted = self.next_id();
        self.keep_client(granted, client)
    }

    /// Keeps a client under the identifier that `next_id` handed out, or not
    /// at all when it had none left.
    pub fn keep_client(&mut self, granted: Option<u64>, client: Client) -> (kept: Option<
        Result<Client, Error>,
    >)
        requires
            old(self).wf(),
            Client::size(client@) <= MAX_RECORD_SIZE,
            granted matches Some(id) ==> id == client.id && id < old(self)@.next_id && !old(
                self,
            )@.uses(id),
        ensures
            final(self).wf(),
            match granted {
                Some(id) => final(self)@ == (State {
                    clients: old(self)@.clients.insert(id, client@),
                    ..old(self)@
                }) && reply(kept) == Some(Ok::<_, ErrorView>(client@)),
                None => final(self)@ == old(self)@ && kept is None,
            },
    {
        match granted {
            Some(id) => {
                self.clients.insert(id, &client);
                Some(Ok(client))
            },
            None => None,
        }
    }
}

} // verus!
