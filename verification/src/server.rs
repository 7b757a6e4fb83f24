//! The server's side of one connection: what each unit that a client sends
//! does to the shared state, and which messages go out for it.
//!
//! Nothing here reads or writes a connection or a file. A step takes what
//! was read and says what is to be written; where a document has to be
//! made durable, the step hands the write out and is completed with the
//! outcome.
use vstd::prelude::*;
use vstd::string::*;
use crate::dispatch::{
    broadcast, broadcast_message, broadcast_message_to_all, broadcast_message_to_others,
    documents_list_line, send_available_documents, send_full_document_content, send_message, sent,
    Delivery, DeliveryView, Selector, SelectorView,
};
use crate::documents::{
    answer_at, applied, committed, content_of, lemma_last_update_wins, planned_create,
    planned_update, table_after, DocumentStore,
    DocumentView, PendingWrite, StoreError, StoreOp, WriteKind, WriteView,
};
use crate::protocol::{
    command_line, decode_step, document_message, format_command_with_arg,
    format_document_message, unit_argument, unit_body, unit_verb, FrameView, ProtocolUnit,
    ReadError, UnitDecoder, UnitView,
    CONNECTED_OK_MSG, CONNECT_CMD, CREATE_DOCUMENT_CMD, DISCONNECT_CMD, DOCUMENT_CONTENT_MSG,
    DOCUMENT_CREATED_FAIL_MSG, DOCUMENT_CREATED_OK_MSG, DOCUMENT_SWITCHED_MSG,
    DOCUMENT_UPDATED_MSG, GET_DOCUMENT_CMD, LIST_DOCUMENTS_CMD, NEW_DOCUMENT_AVAILABLE_MSG,
    SWITCH_DOCUMENT_CMD, UPDATE_DOCUMENT_CMD, USER_JOINED_MSG, USER_LEFT_MSG,
};
use crate::sessions::{
    client_of, client_position, identified, ids_of, lemma_replacing_keeps_positions, opened,
    registered, unregistered, ClientView, RegistryError, SessionRegistry,
};
use crate::text::{lemma_first_index_of, str_eq};

verus! {

// The error lines and reasons, as the clients get them.
pub const NO_USERNAME_ERROR: &'static str = "HATA Kullanıcı adı sağlanmadı";

pub const NOT_CONNECTED_ERROR: &'static str = "HATA Önce CONNECT ile bağlanın";

pub const ALREADY_CONNECTED_ERROR: &'static str = "HATA Kullanıcı adı zaten belirlendi";

pub const NO_CREATE_NAME_ERROR: &'static str = "HATA Belge adı sağlanmadı";

pub const ALREADY_EXISTS_REASON: &'static str = "Belge zaten var.";

pub const NOT_SAVED_REASON: &'static str = "Belge diske kaydedilemedi.";

/// The name of the document follows.
pub const NOT_FOUND_ERROR: &'static str = "HATA Belge bulunamadı: ";

pub const NO_SWITCH_NAME_ERROR: &'static str = "HATA Geçiş yapılacak belge adı sağlanmadı";

pub const NO_GET_NAME_ERROR: &'static str = "HATA Belge adı GET_DOCUMENT için sağlanmadı";

pub const NO_UPDATE_NAME_ERROR: &'static str = "HATA Belge adı UPDATE_DOCUMENT için sağlanmadı";

/// The name of the document stands between the two parts.
pub const NOT_OPEN_ERROR_HEAD: &'static str = "HATA: ";

pub const NOT_OPEN_ERROR_TAIL: &'static str =
    " belgesini düzenleme yetkiniz yok. Önce geçiş yapın.";

pub const UPDATE_NOT_FOUND_ERROR: &'static str = "HATA Güncellenecek belge sunucuda bulunamadı.";

pub const UPDATE_NOT_SAVED_ERROR: &'static str = "HATA Sunucuda belge kaydedilemedi.";

/// The verb follows.
pub const UNKNOWN_COMMAND_ERROR: &'static str = "HATA Bilinmeyen komut: ";

/// Follows the user's name and the document's name in the notice that a
/// user has gone over to a document.
pub const SWITCH_NOTICE_TAIL: &'static str = " belgesine geçti.";

/// What a `Step` holds.
pub enum StepView {
    Deliver(Seq<DeliveryView>),
    Persist(WriteView),
    Close,
}

/// What the caller does next for a connection.
#[derive(Debug, Clone, PartialEq, Eq)]
pub enum Step {
    /// Write these out, in this order, and read on.
    Deliver(Vec<Delivery>),
    /// Make this write durable, then complete it with the outcome.
    Persist(PendingWrite),
    /// End the connection.
    Close,
}

impl View for Step {
    type V = StepView;

    open spec fn view(&self) -> StepView {
        match *self {
            Step::Deliver(deliveries) => StepView::Deliver(deliveries.deep_view()),
            Step::Persist(write) => StepView::Persist(write@),
            Step::Close => StepView::Close,
        }
    }
}

/// The step that answers the client `id` with one message and nothing else.
pub open spec fn replied(id: u64, message: Seq<char>) -> StepView {
    StepView::Deliver(seq![sent(id, message)])
}

/// The notice that `username` has gone over to the document `name`.
pub open spec fn switch_notice(username: Seq<char>, name: Seq<char>) -> Seq<char> {
    command_line(USER_JOINED_MSG@, username + seq![' '] + name + SWITCH_NOTICE_TAIL@)
}

/// `CONNECT`: the first claim of a name is taken; the client gets the
/// confirmation and the list of documents, the others the notice that it
/// has joined. A claim without a name, or a second claim, is answered with
/// an error and changes nothing.
pub open spec fn connect_handled(
    docs: Seq<DocumentView>,
    clients: Seq<ClientView>,
    id: u64,
    name: Seq<char>,
) -> (Seq<ClientView>, StepView) {
    if name.len() == 0 {
        (clients, replied(id, NO_USERNAME_ERROR@))
    } else {
        match identified(clients, id, name).1 {
            Err(RegistryError::UnknownSession) => (clients, StepView::Close),
            Err(RegistryError::AlreadySet) => (clients, replied(id, ALREADY_CONNECTED_ERROR@)),
            Ok(_) => {
                let next = identified(clients, id, name).0;
                (
                    next,
                    StepView::Deliver(
                        seq![sent(id, CONNECTED_OK_MSG@), sent(id, documents_list_line(docs))]
                            + broadcast(
                            next,
                            SelectorView::AllExcept(id),
                            command_line(USER_JOINED_MSG@, name),
                        ),
                    ),
                )
            },
        }
    }
}

/// `CREATE_DOCUMENT`: the write of the new, empty document is handed out,
/// unless the name is missing or taken.
pub open spec fn create_handled(docs: Seq<DocumentView>, id: u64, name: Seq<char>) -> StepView {
    if name.len() == 0 {
        replied(id, NO_CREATE_NAME_ERROR@)
    } else {
        match planned_create(docs, name) {
            Ok(write) => StepView::Persist(write),
            Err(_) => replied(id, command_line(DOCUMENT_CREATED_FAIL_MSG@, ALREADY_EXISTS_REASON@)),
        }
    }
}

/// `SWITCH_DOCUMENT`: where the document exists it becomes the client's open
/// document; the client gets the confirmation and the content, the others
/// the notice.
pub open spec fn switch_handled(
    docs: Seq<DocumentView>,
    clients: Seq<ClientView>,
    id: u64,
    name: Seq<char>,
) -> (Seq<ClientView>, StepView) {
    if name.len() == 0 {
        (clients, replied(id, NO_SWITCH_NAME_ERROR@))
    } else {
        match (content_of(docs, name), client_of(clients, id)) {
            (Some(content), Some(client)) => {
                let next = opened(clients, id, name).0;
                let told = seq![
                    sent(id, command_line(DOCUMENT_SWITCHED_MSG@, name)),
                    sent(id, document_message(DOCUMENT_CONTENT_MSG@, name, content)),
                ];
                (
                    next,
                    StepView::Deliver(
                        match client.username {
                            Some(username) => told + broadcast(
                                next,
                                SelectorView::AllExcept(id),
                                switch_notice(username, name),
                            ),
                            None => told,
                        },
                    ),
                )
            },
            (None, Some(_)) => (clients, replied(id, NOT_FOUND_ERROR@ + name)),
            (_, None) => (clients, StepView::Close),
        }
    }
}

/// `GET_DOCUMENT`: as `SWITCH_DOCUMENT`, but the client gets the content
/// only and nobody else is told.
pub open spec fn get_handled(
    docs: Seq<DocumentView>,
    clients: Seq<ClientView>,
    id: u64,
    name: Seq<char>,
) -> (Seq<ClientView>, StepView) {
    if name.len() == 0 {
        (clients, replied(id, NO_GET_NAME_ERROR@))
    } else {
        match (content_of(docs, name), client_of(clients, id)) {
            (Some(content), Some(_)) => (
                opened(clients, id, name).0,
                replied(id, document_message(DOCUMENT_CONTENT_MSG@, name, content)),
            ),
            (None, Some(_)) => (clients, replied(id, NOT_FOUND_ERROR@ + name)),
            (_, None) => (clients, StepView::Close),
        }
    }
}

/// `UPDATE_DOCUMENT`: the write of the new content is handed out, but only
/// for the document that the client has open.
pub open spec fn update_handled(
    docs: Seq<DocumentView>,
    clients: Seq<ClientView>,
    id: u64,
    name: Seq<char>,
    body: Seq<char>,
) -> StepView {
    if name.len() == 0 {
        replied(id, NO_UPDATE_NAME_ERROR@)
    } else {
        match client_of(clients, id) {
            None => StepView::Close,
            Some(client) => if client.current_document_name != Some(name) {
                replied(id, NOT_OPEN_ERROR_HEAD@ + name + NOT_OPEN_ERROR_TAIL@)
            } else {
                match planned_update(docs, name, body) {
                    Ok(write) => StepView::Persist(write),
                    Err(_) => replied(id, UPDATE_NOT_FOUND_ERROR@),
                }
            },
        }
    }
}

/// The registry after the client `id` has sent `unit`, and the step that
/// follows.
///
/// A client that has not said who it is can only do so, or leave: anything
/// else is answered with an error. A verb that is not known is answered with
/// an error too. An error leaves the registry as it was and the connection
/// open. A unit of a client that the registry does not know ends the
/// connection.
pub open spec fn handled(
    docs: Seq<DocumentView>,
    clients: Seq<ClientView>,
    id: u64,
    unit: UnitView,
) -> (Seq<ClientView>, StepView) {
    let verb = unit_verb(unit);
    let argument = unit_argument(unit);
    match client_of(clients, id) {
        None => (clients, StepView::Close),
        Some(client) => {
            if verb == DISCONNECT_CMD@ {
                (clients, StepView::Close)
            } else if verb == CONNECT_CMD@ {
                connect_handled(docs, clients, id, argument)
            } else if client.username is None {
                (clients, replied(id, NOT_CONNECTED_ERROR@))
            } else if verb == LIST_DOCUMENTS_CMD@ {
                (clients, replied(id, documents_list_line(docs)))
            } else if verb == CREATE_DOCUMENT_CMD@ {
                (clients, create_handled(docs, id, argument))
            } else if verb == SWITCH_DOCUMENT_CMD@ {
                switch_handled(docs, clients, id, argument)
            } else if verb == GET_DOCUMENT_CMD@ {
                get_handled(docs, clients, id, argument)
            } else if verb == UPDATE_DOCUMENT_CMD@ {
                (clients, update_handled(docs, clients, id, argument, unit_body(unit)))
            } else {
                (clients, replied(id, UNKNOWN_COMMAND_ERROR@ + verb))
            }
        },
    }
}

/// The table after the write that the client `id` asked for was attempted,
/// and the messages that go out.
///
/// A document that was created is confirmed to the client and announced to
/// everyone. New content goes, framed, to the other clients that have the
/// document open. A write that failed is reported to the client alone.
pub open spec fn completed(
    docs: Seq<DocumentView>,
    clients: Seq<ClientView>,
    id: u64,
    write: WriteView,
    durable: bool,
) -> (Seq<DocumentView>, Seq<DeliveryView>) {
    let (next, answer) = committed(docs, write, durable);
    (
        next,
        match write.kind {
            WriteKind::Create => match answer {
                Ok(_) => seq![sent(id, command_line(DOCUMENT_CREATED_OK_MSG@, write.name))]
                    + broadcast(
                    clients,
                    SelectorView::All,
                    command_line(NEW_DOCUMENT_AVAILABLE_MSG@, write.name),
                ),
                Err(StoreError::PersistFailed) => seq![
                    sent(id, command_line(DOCUMENT_CREATED_FAIL_MSG@, NOT_SAVED_REASON@)),
                ],
                Err(_) => seq![
                    sent(id, command_line(DOCUMENT_CREATED_FAIL_MSG@, ALREADY_EXISTS_REASON@)),
                ],
            },
            WriteKind::Update => match answer {
                Ok(_) => broadcast(
                    clients,
                    SelectorView::OnDocumentExcept(write.name, id),
                    document_message(DOCUMENT_UPDATED_MSG@, write.name, write.content),
                ),
                Err(StoreError::PersistFailed) => seq![sent(id, UPDATE_NOT_SAVED_ERROR@)],
                Err(_) => seq![sent(id, UPDATE_NOT_FOUND_ERROR@)],
            },
        },
    )
}

/// The registry after the connection `id` has ended, and the messages that
/// go out: the client is taken out, and where it had said who it is, those
/// that remain are told that it has left.
pub open spec fn closed(clients: Seq<ClientView>, id: u64) -> (Seq<ClientView>, Seq<DeliveryView>) {
    let rest = unregistered(clients, id);
    (
        rest,
        match client_of(clients, id) {
            Some(client) => match client.username {
                Some(username) => broadcast(
                    rest,
                    SelectorView::All,
                    command_line(USER_LEFT_MSG@, username),
                ),
                None => Seq::empty(),
            },
            None => Seq::empty(),
        },
    )
}

fn concat(a: &str, b: &str) -> (r: String)
    ensures
        r@ == a@ + b@,
{
    let mut r = String::from_str(a);
    r.append(b);
    r
}

fn reply(id: u64, message: &str) -> (step: Step)
    ensures
        step@ == replied(id, message@),
{
    let mut out: Vec<Delivery> = Vec::new();
    assert(out.deep_view() =~= Seq::<DeliveryView>::empty());
    send_message(&mut out, id, message);
    assert(out.deep_view() =~= seq![sent(id, message@)]);
    Step::Deliver(out)
}

fn handle_connect(docs: &DocumentStore, clients: &mut SessionRegistry, id: u64, name: &str) -> (step:
    Step)
    ensures
        (final(clients)@, step@) == connect_handled(docs@, old(clients)@, id, name@),
{
    if name.is_empty() {
        return reply(id, NO_USERNAME_ERROR);
    }
    match clients.set_identity(id, name) {
        Err(RegistryError::UnknownSession) => Step::Close,
        Err(RegistryError::AlreadySet) => reply(id, ALREADY_CONNECTED_ERROR),
        Ok(_) => {
            let mut out: Vec<Delivery> = Vec::new();
            assert(out.deep_view() =~= Seq::<DeliveryView>::empty());
            send_message(&mut out, id, CONNECTED_OK_MSG);
            send_available_documents(&mut out, id, docs);
            let ghost told = out.deep_view();
            assert(told =~= seq![sent(id, CONNECTED_OK_MSG@), sent(id, documents_list_line(docs@))]);
            let snapshot = clients.snapshot();
            let notice = format_command_with_arg(USER_JOINED_MSG, name);
            broadcast_message_to_others(&mut out, &snapshot, id, notice.as_str());
            Step::Deliver(out)
        },
    }
}

fn handle_create(docs: &DocumentStore, id: u64, name: &str) -> (step: Step)
    ensures
        step@ == create_handled(docs@, id, name@),
{
    if name.is_empty() {
        return reply(id, NO_CREATE_NAME_ERROR);
    }
    match docs.plan_create(name) {
        Ok(write) => Step::Persist(write),
        Err(_) => {
            let line = format_command_with_arg(DOCUMENT_CREATED_FAIL_MSG, ALREADY_EXISTS_REASON);
            reply(id, line.as_str())
        },
    }
}

fn handle_switch(docs: &DocumentStore, clients: &mut SessionRegistry, id: u64, name: &str) -> (step:
    Step)
    ensures
        (final(clients)@, step@) == switch_handled(docs@, old(clients)@, id, name@),
{
    if name.is_empty() {
        return reply(id, NO_SWITCH_NAME_ERROR);
    }
    let username = match clients.get(id) {
        None => {
            return Step::Close;
        },
        Some(client) => match &client.username {
            Some(username) => Some(username.clone()),
            None => None,
        },
    };
    match docs.get(name) {
        Err(_) => {
            let line = concat(NOT_FOUND_ERROR, name);
            reply(id, line.as_str())
        },
        Ok(content) => {
            let _ = clients.set_open_document(id, name);
            let mut out: Vec<Delivery> = Vec::new();
            assert(out.deep_view() =~= Seq::<DeliveryView>::empty());
            let line = format_command_with_arg(DOCUMENT_SWITCHED_MSG, name);
            send_message(&mut out, id, line.as_str());
            send_full_document_content(&mut out, id, name, content.as_str());
            assert(out.deep_view() =~= seq![
                sent(id, command_line(DOCUMENT_SWITCHED_MSG@, name@)),
                sent(id, document_message(DOCUMENT_CONTENT_MSG@, name@, content@)),
            ]);
            match username {
                Some(username) => {
                    proof {
                        reveal_strlit(" ");
                    }
                    let mut who = username;
                    who.append(" ");
                    who.append(name);
                    who.append(SWITCH_NOTICE_TAIL);
                    assert(" "@ =~= seq![' ']);
                    let notice = format_command_with_arg(USER_JOINED_MSG, who.as_str());
                    let snapshot = clients.snapshot();
                    broadcast_message_to_others(&mut out, &snapshot, id, notice.as_str());
                },
                None => {},
            }
            Step::Deliver(out)
        },
    }
}

fn handle_get(docs: &DocumentStore, clients: &mut SessionRegistry, id: u64, name: &str) -> (step:
    Step)
    ensures
        (final(clients)@, step@) == get_handled(docs@, old(clients)@, id, name@),
{
    if name.is_empty() {
        return reply(id, NO_GET_NAME_ERROR);
    }
    if !clients.contains(id) {
        return Step::Close;
    }
    match docs.get(name) {
        Err(_) => {
            let line = concat(NOT_FOUND_ERROR, name);
            reply(id, line.as_str())
        },
        Ok(content) => {
            let _ = clients.set_open_document(id, name);
            let message = format_document_message(DOCUMENT_CONTENT_MSG, name, content.as_str());
            reply(id, message.as_str())
        },
    }
}

fn handle_update(
    docs: &DocumentStore,
    clients: &SessionRegistry,
    id: u64,
    name: &str,
    body: &str,
) -> (step: Step)
    ensures
        step@ == update_handled(docs@, clients@, id, name@, body@),
{
    if name.is_empty() {
        return reply(id, NO_UPDATE_NAME_ERROR);
    }
    match clients.get(id) {
        None => Step::Close,
        Some(client) => {
            if !client.has_open(name) {
                let mut line = concat(NOT_OPEN_ERROR_HEAD, name);
                line.append(NOT_OPEN_ERROR_TAIL);
                reply(id, line.as_str())
            } else {
                match docs.plan_update(name, body) {
                    Ok(write) => Step::Persist(write),
                    Err(_) => reply(id, UPDATE_NOT_FOUND_ERROR),
                }
            }
        },
    }
}

/// Serves one unit that the client `id` has sent.
pub fn handle_unit(docs: &DocumentStore, clients: &mut SessionRegistry, id: u64, unit: &ProtocolUnit) -> (step:
    Step)
    ensures
        (final(clients)@, step@) == handled(docs@, old(clients)@, id, unit@),
{
    proof {
        reveal_strlit("");
    }
    let (verb, argument, body): (&str, &str, &str) = match unit {
        ProtocolUnit::Simple { verb, argument } => (verb.as_str(), argument.as_str(), ""),
        ProtocolUnit::Framed { verb, name, body } => (verb.as_str(), name.as_str(), body.as_str()),
    };
    assert(body@ =~= unit_body(unit@));
    let named = match clients.get(id) {
        None => {
            return Step::Close;
        },
        Some(client) => client.username.is_some(),
    };
    if str_eq(verb, DISCONNECT_CMD) {
        Step::Close
    } else if str_eq(verb, CONNECT_CMD) {
        handle_connect(docs, clients, id, argument)
    } else if !named {
        reply(id, NOT_CONNECTED_ERROR)
    } else if str_eq(verb, LIST_DOCUMENTS_CMD) {
        let mut out: Vec<Delivery> = Vec::new();
        assert(out.deep_view() =~= Seq::<DeliveryView>::empty());
        send_available_documents(&mut out, id, docs);
        assert(out.deep_view() =~= seq![sent(id, documents_list_line(docs@))]);
        Step::Deliver(out)
    } else if str_eq(verb, CREATE_DOCUMENT_CMD) {
        handle_create(docs, id, argument)
    } else if str_eq(verb, SWITCH_DOCUMENT_CMD) {
        handle_switch(docs, clients, id, argument)
    } else if str_eq(verb, GET_DOCUMENT_CMD) {
        handle_get(docs, clients, id, argument)
    } else if str_eq(verb, UPDATE_DOCUMENT_CMD) {
        handle_update(docs, clients, id, argument, body)
    } else {
        let line = concat(UNKNOWN_COMMAND_ERROR, verb);
        reply(id, line.as_str())
    }
}

/// Completes a write that a step handed out for the client `id`, given
/// whether its durable copy was written.
pub fn complete_write(
    docs: &mut DocumentStore,
    clients: &SessionRegistry,
    id: u64,
    write: PendingWrite,
    durable: bool,
) -> (out: Vec<Delivery>)
    ensures
        (final(docs)@, out.deep_view()) == completed(old(docs)@, clients@, id, write@, durable),
{
    let kind = write.kind;
    let name = write.name.clone();
    let content = write.content.clone();
    let answer = docs.commit(write, durable);
    let mut out: Vec<Delivery> = Vec::new();
    assert(out.deep_view() =~= Seq::<DeliveryView>::empty());
    match kind {
        WriteKind::Create => match answer {
            Ok(_) => {
                let line = format_command_with_arg(DOCUMENT_CREATED_OK_MSG, name.as_str());
                send_message(&mut out, id, line.as_str());
                assert(out.deep_view() =~= seq![
                    sent(id, command_line(DOCUMENT_CREATED_OK_MSG@, name@)),
                ]);
                let notice = format_command_with_arg(NEW_DOCUMENT_AVAILABLE_MSG, name.as_str());
                let snapshot = clients.snapshot();
                broadcast_message_to_all(&mut out, &snapshot, notice.as_str());
            },
            Err(StoreError::PersistFailed) => {
                let line = format_command_with_arg(DOCUMENT_CREATED_FAIL_MSG, NOT_SAVED_REASON);
                send_message(&mut out, id, line.as_str());
                assert(out.deep_view() =~= seq![
                    sent(id, command_line(DOCUMENT_CREATED_FAIL_MSG@, NOT_SAVED_REASON@)),
                ]);
            },
            Err(_) => {
                let line = format_command_with_arg(
                    DOCUMENT_CREATED_FAIL_MSG,
                    ALREADY_EXISTS_REASON,
                );
                send_message(&mut out, id, line.as_str());
                assert(out.deep_view() =~= seq![
                    sent(id, command_line(DOCUMENT_CREATED_FAIL_MSG@, ALREADY_EXISTS_REASON@)),
                ]);
            },
        },
        WriteKind::Update => match answer {
            Ok(_) => {
                let message = format_document_message(
                    DOCUMENT_UPDATED_MSG,
                    name.as_str(),
                    content.as_str(),
                );
                let snapshot = clients.snapshot();
                let selector = Selector::OnDocumentExcept(name, id);
                broadcast_message(&mut out, &snapshot, &selector, message.as_str());
                assert(out.deep_view() =~= broadcast(clients@, selector@, message@));
            },
            Err(StoreError::PersistFailed) => {
                send_message(&mut out, id, UPDATE_NOT_SAVED_ERROR);
                assert(out.deep_view() =~= seq![sent(id, UPDATE_NOT_SAVED_ERROR@)]);
            },
            Err(_) => {
                send_message(&mut out, id, UPDATE_NOT_FOUND_ERROR);
                assert(out.deep_view() =~= seq![sent(id, UPDATE_NOT_FOUND_ERROR@)]);
            },
        },
    }
    out
}

/// Takes the client `id` out of the registry when its connection has ended,
/// however it ended.
pub fn close_session(clients: &mut SessionRegistry, id: u64) -> (out: Vec<Delivery>)
    ensures
        (final(clients)@, out.deep_view()) == closed(old(clients)@, id),
{
    let mut out: Vec<Delivery> = Vec::new();
    assert(out.deep_view() =~= Seq::<DeliveryView>::empty());
    match clients.unregister(id) {
        Some(client) => match client.username {
            Some(username) => {
                let notice = format_command_with_arg(USER_LEFT_MSG, username.as_str());
                let snapshot = clients.snapshot();
                broadcast_message_to_all(&mut out, &snapshot, notice.as_str());
                assert(out.deep_view() =~= broadcast(
                    clients@,
                    SelectorView::All,
                    command_line(USER_LEFT_MSG@, username@),
                ));
            },
            None => {},
        },
        None => {},
    }
    out
}

/// What a `Connection` holds.
pub struct ConnectionView {
    pub id: u64,
    /// The framed unit that is being read.
    pub pending: Option<FrameView>,
}

/// The connection, the registry and the step after one more line was read:
/// the line is decoded, and the unit that it completes is served.
pub open spec fn line_handled(
    docs: Seq<DocumentView>,
    clients: Seq<ClientView>,
    connection: ConnectionView,
    line: Seq<char>,
) -> (ConnectionView, Seq<ClientView>, StepView) {
    let (pending, unit) = decode_step(connection.pending, line);
    let next = ConnectionView { id: connection.id, pending };
    match unit {
        None => (next, clients, StepView::Deliver(Seq::empty())),
        Some(unit) => (
            next,
            handled(docs, clients, connection.id, unit).0,
            handled(docs, clients, connection.id, unit).1,
        ),
    }
}

/// One accepted connection: its identifier and the decoder of its lines.
pub struct Connection {
    id: u64,
    decoder: UnitDecoder,
}

impl View for Connection {
    type V = ConnectionView;

    closed spec fn view(&self) -> ConnectionView {
        ConnectionView { id: self.id, pending: self.decoder@ }
    }
}

impl Connection {
    /// Registers a connection that was accepted under `id`.
    pub fn open(clients: &mut SessionRegistry, id: u64) -> (connection: Self)
        ensures
            final(clients)@ == registered(old(clients)@, id),
            connection@ == (ConnectionView { id, pending: None }),
    {
        clients.register(id);
        Connection { id, decoder: UnitDecoder::new() }
    }

    /// The identifier under which the connection was accepted.
    pub fn id(&self) -> (id: u64)
        ensures
            id == self@.id,
    {
        self.id
    }

    /// Takes the next line as it was read, its line feed included.
    pub fn handle_line(&mut self, docs: &DocumentStore, clients: &mut SessionRegistry, line: &str) -> (step:
        Step)
        ensures
            (final(self)@, final(clients)@, step@) == line_handled(
                docs@,
                old(clients)@,
                old(self)@,
                line@,
            ),
    {
        match self.decoder.push_line(line) {
            None => {
                let out: Vec<Delivery> = Vec::new();
                assert(out.deep_view() =~= Seq::<DeliveryView>::empty());
                Step::Deliver(out)
            },
            Some(unit) => handle_unit(docs, clients, self.id, &unit),
        }
    }

    /// Completes a write that `handle_line` handed out.
    pub fn complete_write(
        &self,
        docs: &mut DocumentStore,
        clients: &SessionRegistry,
        write: PendingWrite,
        durable: bool,
    ) -> (out: Vec<Delivery>)
        ensures
            (final(docs)@, out.deep_view()) == completed(
                old(docs)@,
                clients@,
                self@.id,
                write@,
                durable,
            ),
    {
        complete_write(docs, clients, self.id, write, durable)
    }

    /// Ends the connection: after `DISCONNECT`, at the end of the stream, or
    /// after a read or a write has failed. The first part of the result is an
    /// error where a framed unit was cut short; such a unit is never served.
    pub fn close(self, clients: &mut SessionRegistry) -> (r: (Result<(), ReadError>, Vec<Delivery>))
        ensures
            r.0 is Err <==> self@.pending is Some,
            (final(clients)@, r.1.deep_view()) == closed(old(clients)@, self@.id),
    {
        let ended = self.decoder.finish();
        let out = close_session(clients, self.id);
        (ended, out)
    }
}

/// What the connections of one server share.
pub struct ServerSharedState {
    pub documents: DocumentStore,
    pub clients: SessionRegistry,
}

impl ServerSharedState {
    /// A server without documents and without clients.
    pub fn new() -> (state: Self)
        ensures
            state.documents@ == Seq::<DocumentView>::empty(),
            state.clients@ == Seq::<ClientView>::empty(),
    {
        ServerSharedState { documents: DocumentStore::new(), clients: SessionRegistry::new() }
    }

    /// Registers a connection that was accepted under `id`.
    pub fn accept(&mut self, id: u64) -> (connection: Connection)
        ensures
            final(self).clients@ == registered(old(self).clients@, id),
            final(self).documents@ == old(self).documents@,
            connection@ == (ConnectionView { id, pending: None }),
    {
        Connection::open(&mut self.clients, id)
    }

    /// Takes the next line of `connection`.
    pub fn handle_line(&mut self, connection: &mut Connection, line: &str) -> (step: Step)
        ensures
            (final(connection)@, final(self).clients@, step@) == line_handled(
                old(self).documents@,
                old(self).clients@,
                old(connection)@,
                line@,
            ),
            final(self).documents@ == old(self).documents@,
    {
        connection.handle_line(&self.documents, &mut self.clients, line)
    }

    /// Completes a write that `handle_line` handed out for `connection`.
    pub fn complete_write(&mut self, connection: &Connection, write: PendingWrite, durable: bool) -> (out:
        Vec<Delivery>)
        ensures
            (final(self).documents@, out.deep_view()) == completed(
                old(self).documents@,
                old(self).clients@,
                connection@.id,
                write@,
                durable,
            ),
            final(self).clients@ == old(self).clients@,
    {
        connection.complete_write(&mut self.documents, &self.clients, write, durable)
    }

    /// Ends `connection`.
    pub fn close(&mut self, connection: Connection) -> (r: (Result<(), ReadError>, Vec<Delivery>))
        ensures
            r.0 is Err <==> connection@.pending is Some,
            (final(self).clients@, r.1.deep_view()) == closed(old(self).clients@, connection@.id),
            final(self).documents@ == old(self).documents@,
    {
        connection.close(&mut self.clients)
    }
}

/// An update of a document that the client does not have open changes
/// nothing and reaches nobody else: the registry stays as it was, no write
/// is handed out, so the table stays as it was, and the one message that
/// goes out is the error for the client itself.
pub proof fn lemma_update_needs_open_document(
    docs: Seq<DocumentView>,
    clients: Seq<ClientView>,
    id: u64,
    unit: UnitView,
)
    requires
        unit_verb(unit) == UPDATE_DOCUMENT_CMD@,
        client_of(clients, id) is Some,
        client_of(clients, id)->0.current_document_name != Some(unit_argument(unit)),
    ensures
        handled(docs, clients, id, unit).0 == clients,
        handled(docs, clients, id, unit).1 matches StepView::Deliver(out) && out.len() == 1
            && out[0].to == id,
{
    reveal_strlit("UPDATE_DOCUMENT");
    reveal_strlit("DISCONNECT");
    reveal_strlit("CONNECT");
    reveal_strlit("LIST_DOCUMENTS");
    reveal_strlit("CREATE_DOCUMENT");
    reveal_strlit("SWITCH_DOCUMENT");
    reveal_strlit("GET_DOCUMENT");
    let verb = unit_verb(unit);
    assert(verb.len() == 15);
    assert(verb[0] == 'U');
    assert(CREATE_DOCUMENT_CMD@[0] == 'C');
    assert(SWITCH_DOCUMENT_CMD@[0] == 'S');
}

/// Listing the documents changes nothing, so that asking again gives the
/// same answer.
pub proof fn lemma_listing_is_repeatable(
    docs: Seq<DocumentView>,
    clients: Seq<ClientView>,
    id: u64,
    unit: UnitView,
)
    requires
        unit_verb(unit) == LIST_DOCUMENTS_CMD@,
    ensures
        handled(docs, clients, id, unit).0 == clients,
        !(handled(docs, clients, id, unit).1 is Persist),
        handled(docs, handled(docs, clients, id, unit).0, id, unit) == handled(
            docs,
            clients,
            id,
            unit,
        ),
{
    reveal_strlit("LIST_DOCUMENTS");
    reveal_strlit("DISCONNECT");
    reveal_strlit("CONNECT");
    assert(unit_verb(unit).len() == 14);
}

/// The request to the table that a unit makes, if it makes one.
pub open spec fn request_of(unit: UnitView, durable: bool) -> StoreOp {
    if unit_verb(unit) == CREATE_DOCUMENT_CMD@ {
        StoreOp::Create { name: unit_argument(unit), durable }
    } else {
        StoreOp::Update { name: unit_argument(unit), content: unit_body(unit), durable }
    }
}

/// The table changes only as its own requests change it: a step that hands
/// out a write, completed with the outcome of the durable copy, leaves the
/// table as the creation or the update that the unit asked for leaves it.
/// What holds of every run of requests to the table therefore holds of the
/// server.
pub proof fn lemma_write_step_is_a_request(
    docs: Seq<DocumentView>,
    clients: Seq<ClientView>,
    later: Seq<ClientView>,
    id: u64,
    unit: UnitView,
    durable: bool,
)
    requires
        handled(docs, clients, id, unit).1 is Persist,
    ensures
        unit_verb(unit) == CREATE_DOCUMENT_CMD@ || unit_verb(unit) == UPDATE_DOCUMENT_CMD@,
        completed(docs, later, id, handled(docs, clients, id, unit).1->Persist_0, durable).0
            == applied(docs, request_of(unit, durable)).0,
{
    reveal_strlit("UPDATE_DOCUMENT");
    reveal_strlit("CREATE_DOCUMENT");
    assert(CREATE_DOCUMENT_CMD@[0] == 'C');
    assert(UPDATE_DOCUMENT_CMD@[0] == 'U');
}

/// A client that goes over to a document is sent the content of the latest
/// update that succeeded: after an update of `name`, and any run of further
/// requests of which none is an update of `name` that succeeds, the second
/// message of the switch is the document with the content of that update.
pub proof fn lemma_switch_observes_last_update(
    docs: Seq<DocumentView>,
    ops: Seq<StoreOp>,
    i: int,
    clients: Seq<ClientView>,
    id: u64,
)
    requires
        0 <= i < ops.len(),
        ops[i] is Update,
        ops[i]->Update_name.len() > 0,
        answer_at(docs, ops, i) is Ok,
        forall|k: int|
            i < k < ops.len() && ops[k] is Update && ops[k]->Update_name == ops[i]->Update_name
                ==> answer_at(docs, ops, k) is Err,
        client_of(clients, id) is Some,
    ensures
        switch_handled(table_after(docs, ops), clients, id, ops[i]->Update_name).1
            matches StepView::Deliver(out) && out.len() >= 2 && out[1] == sent(
            id,
            document_message(DOCUMENT_CONTENT_MSG@, ops[i]->Update_name, ops[i]->Update_content),
        ),
{
    lemma_last_update_wins(docs, ops, i);
}

/// Who a client is does not change: a client that has said who it is keeps
/// its name and stays registered through every unit that it or another
/// client sends.
pub proof fn lemma_identity_is_kept(
    docs: Seq<DocumentView>,
    clients: Seq<ClientView>,
    id: u64,
    unit: UnitView,
    other: u64,
)
    requires
        client_of(clients, other) is Some,
        client_of(clients, other)->0.username is Some,
    ensures
        client_of(handled(docs, clients, id, unit).0, other) is Some,
        client_of(handled(docs, clients, id, unit).0, other)->0.username == client_of(
            clients,
            other,
        )->0.username,
{
    let next = handled(docs, clients, id, unit).0;
    if next != clients {
        let k = client_position(clients, id);
        let client = clients[k];
        lemma_first_index_of(ids_of(clients), id);
        lemma_first_index_of(ids_of(clients), other);
        assert(ids_of(clients)[k] == id);
        let name = unit_argument(unit);
        let named = ClientView { username: Some(name), ..client };
        let moved = ClientView { current_document_name: Some(name), ..client };
        lemma_replacing_keeps_positions(clients, k, named, other);
        lemma_replacing_keeps_positions(clients, k, moved, other);
        assert(next == clients.update(k, named) && client.username is None || next
            == clients.update(k, moved));
        if client_position(clients, other) == k {
            assert(ids_of(clients)[k] == other);
        }
    }
}

} // verus!
