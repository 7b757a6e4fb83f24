//! The live connections of the server: who each one is, and which document
//! it has open.
use vstd::prelude::*;
use vstd::string::*;
use crate::text::{first_index_of, lemma_first_index_of, lemma_first_index_of_unique, str_eq};

verus! {

/// What a `ClientInfo` holds.
pub struct ClientView {
    pub id: u64,
    pub username: Option<Seq<char>>,
    pub current_document_name: Option<Seq<char>>,
}

/// One connected client.
#[derive(Debug, Clone, PartialEq, Eq)]
pub struct ClientInfo {
    /// Stands for the connection; the caller keeps the outbound handle under
    /// the same number.
    pub id: u64,
    /// Unset until the client has said who it is.
    pub username: Option<String>,
    /// The one document that the client may update.
    pub current_document_name: Option<String>,
}

impl View for ClientInfo {
    type V = ClientView;

    open spec fn view(&self) -> ClientView {
        ClientView {
            id: self.id,
            username: self.username.deep_view(),
            current_document_name: self.current_document_name.deep_view(),
        }
    }
}

impl DeepView for ClientInfo {
    type V = ClientView;

    open spec fn deep_view(&self) -> ClientView {
        self@
    }
}

fn copy_of(text: &Option<String>) -> (r: Option<String>)
    ensures
        r.deep_view() == text.deep_view(),
{
    match text {
        Some(s) => Some(s.clone()),
        None => None,
    }
}

impl ClientInfo {
    /// A client that has not said who it is and has no document open.
    pub fn new(id: u64) -> (client: Self)
        ensures
            client@ == fresh_client(id),
    {
        ClientInfo { id, username: None, current_document_name: None }
    }

    /// A copy of this record.
    pub fn copy(&self) -> (client: Self)
        ensures
            client@ == self@,
    {
        ClientInfo {
            id: self.id,
            username: copy_of(&self.username),
            current_document_name: copy_of(&self.current_document_name),
        }
    }

    /// Whether the client has `name` open.
    pub fn has_open(&self, name: &str) -> (r: bool)
        ensures
            r == (self@.current_document_name == Some(name@)),
    {
        match &self.current_document_name {
            Some(open) => str_eq(open.as_str(), name),
            None => false,
        }
    }
}

/// The record of a connection that was just accepted.
pub open spec fn fresh_client(id: u64) -> ClientView {
    ClientView { id, username: None, current_document_name: None }
}

/// The identifiers of `clients`, in their order.
pub open spec fn ids_of(clients: Seq<ClientView>) -> Seq<u64> {
    clients.map_values(|c: ClientView| c.id)
}

/// Position of the client `id`, or the length of `clients` where there is
/// none.
pub open spec fn client_position(clients: Seq<ClientView>, id: u64) -> int {
    first_index_of(ids_of(clients), id)
}

/// Whether a client `id` is registered.
pub open spec fn has_client(clients: Seq<ClientView>, id: u64) -> bool {
    client_position(clients, id) < clients.len()
}

/// The record of the client `id`.
pub open spec fn client_of(clients: Seq<ClientView>, id: u64) -> Option<ClientView> {
    if has_client(clients, id) {
        Some(clients[client_position(clients, id)])
    } else {
        None
    }
}

/// No two clients share an identifier.
pub open spec fn distinct_ids(clients: Seq<ClientView>) -> bool {
    forall|i: int, j: int| 0 <= i < j < clients.len() ==> clients[i].id != clients[j].id
}

/// The registry after a connection was accepted as `id`: a fresh record,
/// which takes the place of an older one with that identifier.
pub open spec fn registered(clients: Seq<ClientView>, id: u64) -> Seq<ClientView> {
    if has_client(clients, id) {
        clients.update(client_position(clients, id), fresh_client(id))
    } else {
        clients.push(fresh_client(id))
    }
}

/// Why the registry refused an operation.
#[derive(Debug, Clone, Copy, PartialEq, Eq, Structural)]
pub enum RegistryError {
    UnknownSession,
    AlreadySet,
}

/// The registry after the client `id` has claimed `name`, and the answer:
/// the first claim of a client is taken, a later one is refused.
pub open spec fn identified(clients: Seq<ClientView>, id: u64, name: Seq<char>) -> (
    Seq<ClientView>,
    Result<(), RegistryError>,
) {
    match client_of(clients, id) {
        None => (clients, Err(RegistryError::UnknownSession)),
        Some(client) => if client.username is Some {
            (clients, Err(RegistryError::AlreadySet))
        } else {
            (
                clients.update(
                    client_position(clients, id),
                    ClientView { username: Some(name), ..client },
                ),
                Ok(()),
            )
        },
    }
}

/// The registry after the client `id` has opened `name`, and the answer.
/// The name is taken as it is: whether such a document exists is for the
/// caller to check.
pub open spec fn opened(clients: Seq<ClientView>, id: u64, name: Seq<char>) -> (
    Seq<ClientView>,
    Result<(), RegistryError>,
) {
    match client_of(clients, id) {
        None => (clients, Err(RegistryError::UnknownSession)),
        Some(client) => (
            clients.update(
                client_position(clients, id),
                ClientView { current_document_name: Some(name), ..client },
            ),
            Ok(()),
        ),
    }
}

/// The registry without the client `id`.
pub open spec fn unregistered(clients: Seq<ClientView>, id: u64) -> Seq<ClientView> {
    if has_client(clients, id) {
        clients.remove(client_position(clients, id))
    } else {
        clients
    }
}

/// A record that is replaced by one with the same identifier moves no
/// client.
pub proof fn lemma_replacing_keeps_positions(
    clients: Seq<ClientView>,
    k: int,
    record: ClientView,
    id: u64,
)
    requires
        0 <= k < clients.len(),
        record.id == clients[k].id,
    ensures
        client_position(clients.update(k, record), id) == client_position(clients, id),
{
    assert(ids_of(clients.update(k, record)) =~= ids_of(clients));
}

/// The clients that are connected, in the order of their arrival.
pub struct SessionRegistry {
    clients: Vec<ClientInfo>,
}

impl View for SessionRegistry {
    type V = Seq<ClientView>;

    closed spec fn view(&self) -> Seq<ClientView> {
        self.clients.deep_view()
    }
}

impl SessionRegistry {
    #[verifier::type_invariant]
    spec fn ids_are_distinct(&self) -> bool {
        distinct_ids(self.clients.deep_view())
    }

    /// A registry without clients.
    pub fn new() -> (registry: Self)
        ensures
            registry@ == Seq::<ClientView>::empty(),
    {
        let clients: Vec<ClientInfo> = Vec::new();
        assert(clients.deep_view() =~= Seq::<ClientView>::empty());
        SessionRegistry { clients }
    }

    /// Number of clients.
    pub fn len(&self) -> (n: usize)
        ensures
            n == self@.len(),
    {
        self.clients.len()
    }

    fn find(&self, id: u64) -> (k: usize)
        ensures
            k == client_position(self@, id),
            k <= self.clients.len(),
            self.clients.len() == self@.len(),
            k < self@.len() ==> self@[k as int].id == id,
            distinct_ids(self@),
    {
        proof {
            use_type_invariant(self);
        }
        let ghost ids = ids_of(self@);
        let mut k: usize = 0;
        while k < self.clients.len() && self.clients[k].id != id
            invariant
                k <= self.clients.len(),
                ids == ids_of(self.clients.deep_view()),
                forall|i: int| 0 <= i < k ==> ids[i] != id,
            decreases self.clients.len() - k,
        {
            k += 1;
        }
        proof {
            lemma_first_index_of_unique(ids, id, k as int);
        }
        k
    }

    fn take_clients(&mut self) -> (clients: Vec<ClientInfo>)
        ensures
            clients.deep_view() == old(self)@,
            distinct_ids(clients.deep_view()),
            final(self)@ == Seq::<ClientView>::empty(),
    {
        proof {
            use_type_invariant(&*self);
        }
        let mut clients: Vec<ClientInfo> = Vec::new();
        assert(clients.deep_view() =~= Seq::<ClientView>::empty());
        core::mem::swap(&mut self.clients, &mut clients);
        clients
    }

    fn replace_at(&mut self, k: usize, client: ClientInfo)
        requires
            k < old(self)@.len(),
            old(self)@[k as int].id == client.id,
        ensures
            final(self)@ == old(self)@.update(k as int, client@),
    {
        let ghost before = self@;
        let mut clients = self.take_clients();
        clients.set(k, client);
        assert(clients.deep_view() =~= before.update(k as int, client@));
        self.clients = clients;
    }

    /// Whether a client `id` is registered.
    pub fn contains(&self, id: u64) -> (r: bool)
        ensures
            r == has_client(self@, id),
    {
        self.find(id) < self.clients.len()
    }

    /// The record of the client `id`.
    pub fn get(&self, id: u64) -> (r: Option<&ClientInfo>)
        ensures
            r.deep_view() == client_of(self@, id),
    {
        let k = self.find(id);
        if k < self.clients.len() {
            Some(&self.clients[k])
        } else {
            None
        }
    }

    /// Adds a client with no name and no open document.
    pub fn register(&mut self, id: u64)
        ensures
            final(self)@ == registered(old(self)@, id),
    {
        let k = self.find(id);
        if k < self.clients.len() {
            self.replace_at(k, ClientInfo::new(id));
        } else {
            proof {
                lemma_first_index_of(ids_of(self@), id);
            }
            let ghost before = self@;
            let client = ClientInfo::new(id);
            let mut clients = self.take_clients();
            clients.push(client);
            assert(clients.deep_view() =~= before.push(client@));
            assert(distinct_ids(clients.deep_view())) by {
                assert forall|i: int, j: int| 0 <= i < j < before.len() + 1 implies before.push(
                    client@,
                )[i].id != before.push(client@)[j].id by {
                    if j == before.len() {
                        assert(ids_of(before)[i] != id);
                    }
                }
            }
            self.clients = clients;
        }
    }

    /// Records who the client `id` is. The first claim wins.
    pub fn set_identity(&mut self, id: u64, name: &str) -> (r: Result<(), RegistryError>)
        ensures
            final(self)@ == identified(old(self)@, id, name@).0,
            r == identified(old(self)@, id, name@).1,
    {
        let k = self.find(id);
        if k >= self.clients.len() {
            Err(RegistryError::UnknownSession)
        } else if self.clients[k].username.is_some() {
            Err(RegistryError::AlreadySet)
        } else {
            let client = ClientInfo {
                id,
                username: Some(String::from_str(name)),
                current_document_name: copy_of(&self.clients[k].current_document_name),
            };
            self.replace_at(k, client);
            Ok(())
        }
    }

    /// Records that the client `id` has `name` open, whatever it had open
    /// before.
    pub fn set_open_document(&mut self, id: u64, name: &str) -> (r: Result<(), RegistryError>)
        ensures
            final(self)@ == opened(old(self)@, id, name@).0,
            r == opened(old(self)@, id, name@).1,
    {
        let k = self.find(id);
        if k >= self.clients.len() {
            Err(RegistryError::UnknownSession)
        } else {
            let client = ClientInfo {
                id,
                username: copy_of(&self.clients[k].username),
                current_document_name: Some(String::from_str(name)),
            };
            self.replace_at(k, client);
            Ok(())
        }
    }

    /// Removes the client `id` and hands its record out.
    pub fn unregister(&mut self, id: u64) -> (r: Option<ClientInfo>)
        ensures
            final(self)@ == unregistered(old(self)@, id),
            r.deep_view() == client_of(old(self)@, id),
    {
        let k = self.find(id);
        if k >= self.clients.len() {
            None
        } else {
            let ghost before = self@;
            let mut clients = self.take_clients();
            let client = clients.remove(k);
            assert(clients.deep_view() =~= before.remove(k as int));
            self.clients = clients;
            Some(client)
        }
    }

    /// A copy of the registry as it is now, for a dispatch that runs after
    /// the registry was let go.
    pub fn snapshot(&self) -> (clients: Vec<ClientInfo>)
        ensures
            clients.deep_view() == self@,
            distinct_ids(clients.deep_view()),
    {
        proof {
            use_type_invariant(self);
        }
        let mut clients: Vec<ClientInfo> = Vec::new();
        let mut i: usize = 0;
        while i < self.clients.len()
            invariant
                i <= self.clients.len(),
                clients.deep_view() == self.clients.deep_view().take(i as int),
            decreases self.clients.len() - i,
        {
            let ghost before = clients.deep_view();
            let client = self.clients[i].copy();
            clients.push(client);
            assert(clients.deep_view() =~= before.push(client@));
            i += 1;
            assert(clients.deep_view() =~= self.clients.deep_view().take(i as int));
        }
        assert(clients.deep_view() =~= self@);
        clients
    }
}

} // verus!
