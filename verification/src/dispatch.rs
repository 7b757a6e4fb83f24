//! Who gets a message: the selection of recipients, and the list of
//! deliveries that the caller then writes out, one connection at a time.
use vstd::prelude::*;
use vstd::string::*;
use crate::documents::{names_of, DocumentStore, DocumentView};
use crate::protocol::{
    command_line, document_message, format_command_with_arg, format_document_message, wire_line,
    DOCUMENTS_LIST_MSG, DOCUMENT_CONTENT_MSG,
};
use crate::sessions::{ids_of, ClientInfo, ClientView};
use crate::text::{join, joined};

verus! {

/// Which of the connected clients a message goes to.
#[derive(Debug, Clone, PartialEq, Eq)]
pub enum Selector {
    /// Every client.
    All,
    /// Every client but one.
    AllExcept(u64),
    /// The clients that have the document open.
    OnDocument(String),
    /// The clients that have the document open, but one.
    OnDocumentExcept(String, u64),
}

/// What a `Selector` holds.
pub enum SelectorView {
    All,
    AllExcept(u64),
    OnDocument(Seq<char>),
    OnDocumentExcept(Seq<char>, u64),
}

impl View for Selector {
    type V = SelectorView;

    open spec fn view(&self) -> SelectorView {
        match *self {
            Selector::All => SelectorView::All,
            Selector::AllExcept(id) => SelectorView::AllExcept(id),
            Selector::OnDocument(name) => SelectorView::OnDocument(name@),
            Selector::OnDocumentExcept(name, id) => SelectorView::OnDocumentExcept(name@, id),
        }
    }
}

/// Whether `selector` picks `client`.
pub open spec fn selects(selector: SelectorView, client: ClientView) -> bool {
    match selector {
        SelectorView::All => true,
        SelectorView::AllExcept(id) => client.id != id,
        SelectorView::OnDocument(name) => client.current_document_name == Some(name),
        SelectorView::OnDocumentExcept(name, id) => client.current_document_name == Some(name)
            && client.id != id,
    }
}

/// `selects`, as a predicate on clients.
pub open spec fn selected_by(selector: SelectorView) -> spec_fn(ClientView) -> bool {
    |client: ClientView| selects(selector, client)
}

/// The identifiers of the clients that `selector` picks, in the order of
/// `clients`.
pub open spec fn recipients(clients: Seq<ClientView>, selector: SelectorView) -> Seq<u64> {
    ids_of(clients.filter(selected_by(selector)))
}

/// What a `Delivery` holds.
pub struct DeliveryView {
    pub to: u64,
    pub text: Seq<char>,
}

/// One message for one client: the text to write to its connection.
#[derive(Debug, Clone, PartialEq, Eq)]
pub struct Delivery {
    pub to: u64,
    pub text: String,
}

impl View for Delivery {
    type V = DeliveryView;

    open spec fn view(&self) -> DeliveryView {
        DeliveryView { to: self.to, text: self.text@ }
    }
}

impl DeepView for Delivery {
    type V = DeliveryView;

    open spec fn deep_view(&self) -> DeliveryView {
        self@
    }
}

/// The delivery of `message` to the client `to`.
pub open spec fn sent(to: u64, message: Seq<char>) -> DeliveryView {
    DeliveryView { to, text: wire_line(message) }
}

/// The deliveries that bring `message` to each client that `selector`
/// picks, in the order of `clients`.
pub open spec fn broadcast(
    clients: Seq<ClientView>,
    selector: SelectorView,
    message: Seq<char>,
) -> Seq<DeliveryView> {
    recipients(clients, selector).map_values(|id: u64| sent(id, message))
}

/// The line that lists the documents: their names with commas between.
pub open spec fn documents_list_line(docs: Seq<DocumentView>) -> Seq<char> {
    command_line(DOCUMENTS_LIST_MSG@, joined(names_of(docs), seq![',']))
}

/// One more client at the end adds its delivery at the end, where the
/// selector picks it.
pub proof fn lemma_broadcast_next(
    clients: Seq<ClientView>,
    selector: SelectorView,
    message: Seq<char>,
    i: int,
)
    requires
        0 <= i < clients.len(),
    ensures
        broadcast(clients.take(i + 1), selector, message) == if selects(selector, clients[i]) {
            broadcast(clients.take(i), selector, message).push(sent(clients[i].id, message))
        } else {
            broadcast(clients.take(i), selector, message)
        },
{
    reveal(Seq::filter);
    let now = clients.take(i + 1);
    assert(now.drop_last() =~= clients.take(i));
    assert(now.last() == clients[i]);
    let picked = clients.take(i).filter(selected_by(selector));
    if selects(selector, clients[i]) {
        assert(now.filter(selected_by(selector)) == picked.push(clients[i]));
        assert(ids_of(picked.push(clients[i])) =~= ids_of(picked).push(clients[i].id));
        assert(broadcast(now, selector, message) =~= broadcast(
            clients.take(i),
            selector,
            message,
        ).push(sent(clients[i].id, message)));
    } else {
        assert(now.filter(selected_by(selector)) == picked);
    }
}

/// Nobody is picked among no clients.
pub proof fn lemma_broadcast_none(selector: SelectorView, message: Seq<char>)
    ensures
        broadcast(Seq::<ClientView>::empty(), selector, message) == Seq::<DeliveryView>::empty(),
{
    reveal(Seq::filter);
    assert(broadcast(Seq::<ClientView>::empty(), selector, message) =~= Seq::<
        DeliveryView,
    >::empty());
}

impl Selector {
    /// Whether this selector picks `client`.
    pub fn picks(&self, client: &ClientInfo) -> (r: bool)
        ensures
            r == selects(self@, client@),
    {
        match self {
            Selector::All => true,
            Selector::AllExcept(id) => client.id != *id,
            Selector::OnDocument(name) => client.has_open(name.as_str()),
            Selector::OnDocumentExcept(name, id) => client.has_open(name.as_str()) && client.id
                != *id,
        }
    }
}

/// Queues `message` for the client `to`.
pub fn send_message(out: &mut Vec<Delivery>, to: u64, message: &str)
    ensures
        final(out).deep_view() == old(out).deep_view().push(sent(to, message@)),
{
    proof {
        reveal_strlit("\n");
    }
    let ghost before = out.deep_view();
    let mut text = String::from_str(message);
    text.append("\n");
    assert("\n"@ =~= seq!['\n']);
    let delivery = Delivery { to, text };
    out.push(delivery);
    assert(out.deep_view() =~= before.push(delivery@));
}

/// Queues `message` for each client of the snapshot `clients` that
/// `selector` picks: one delivery each, whatever becomes of the others.
pub fn broadcast_message(
    out: &mut Vec<Delivery>,
    clients: &Vec<ClientInfo>,
    selector: &Selector,
    message: &str,
)
    ensures
        final(out).deep_view() == old(out).deep_view() + broadcast(
            clients.deep_view(),
            selector@,
            message@,
        ),
{
    let ghost before = out.deep_view();
    let ghost all = clients.deep_view();
    proof {
        lemma_broadcast_none(selector@, message@);
        assert(all.take(0) =~= Seq::<ClientView>::empty());
        assert(before + Seq::<DeliveryView>::empty() =~= before);
    }
    let mut i: usize = 0;
    while i < clients.len()
        invariant
            i <= clients.len(),
            all == clients.deep_view(),
            out.deep_view() == before + broadcast(all.take(i as int), selector@, message@),
        decreases clients.len() - i,
    {
        proof {
            lemma_broadcast_next(all, selector@, message@, i as int);
        }
        let ghost so_far = broadcast(all.take(i as int), selector@, message@);
        if selector.picks(&clients[i]) {
            send_message(out, clients[i].id, message);
            assert(out.deep_view() =~= before + so_far.push(sent(all[i as int].id, message@)));
        }
        i += 1;
    }
    assert(all.take(clients.len() as int) =~= all);
}

/// Queues `message` for every client but `exclude`.
pub fn broadcast_message_to_others(
    out: &mut Vec<Delivery>,
    clients: &Vec<ClientInfo>,
    exclude: u64,
    message: &str,
)
    ensures
        final(out).deep_view() == old(out).deep_view() + broadcast(
            clients.deep_view(),
            SelectorView::AllExcept(exclude),
            message@,
        ),
{
    broadcast_message(out, clients, &Selector::AllExcept(exclude), message)
}

/// Queues `message` for every client.
pub fn broadcast_message_to_all(out: &mut Vec<Delivery>, clients: &Vec<ClientInfo>, message: &str)
    ensures
        final(out).deep_view() == old(out).deep_view() + broadcast(
            clients.deep_view(),
            SelectorView::All,
            message@,
        ),
{
    broadcast_message(out, clients, &Selector::All, message)
}

/// Queues the list of documents for the client `to`.
pub fn send_available_documents(out: &mut Vec<Delivery>, to: u64, docs: &DocumentStore)
    ensures
        final(out).deep_view() == old(out).deep_view().push(sent(to, documents_list_line(docs@))),
{
    proof {
        reveal_strlit(",");
    }
    let names = docs.list();
    let list = join(&names, ",");
    assert(","@ =~= seq![',']);
    let line = format_command_with_arg(DOCUMENTS_LIST_MSG, list.as_str());
    send_message(out, to, line.as_str());
}

/// Queues a document, framed, for the client `to`.
pub fn send_full_document_content(out: &mut Vec<Delivery>, to: u64, doc_name: &str, content: &str)
    ensures
        final(out).deep_view() == old(out).deep_view().push(
            sent(to, document_message(DOCUMENT_CONTENT_MSG@, doc_name@, content@)),
        ),
{
    let message = format_document_message(DOCUMENT_CONTENT_MSG, doc_name, content);
    send_message(out, to, message.as_str());
}

} // verus!
