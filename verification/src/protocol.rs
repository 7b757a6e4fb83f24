//! The line protocol between the editor's clients and its server.
//!
//! A simple unit is one line, `VERB` or `VERB ARGUMENT`. A unit that carries
//! a document is framed: the header line `VERB NAME`, the lines of the body,
//! and a line that holds only the delimiter.
use vstd::prelude::*;
use vstd::string::*;
use crate::text::{
    after_first, before_first, split_at_first, str_eq, strip_final_newline, trim, trimmed,
    without_final_newline,
};

verus! {

/// The port of the server.
pub const PORT: u16 = 12345;

/// The server listens on every interface.
pub const SERVER_ADDRESS: &'static str = "0.0.0.0";

/// A client connects to the local machine.
pub const CLIENT_CONNECT_ADDRESS: &'static str = "127.0.0.1";

/// Directory of the durable copies, with its separator.
pub const DOCUMENTS_DIR: &'static str = "shared_documents/";

// What a client sends.
pub const CONNECT_CMD: &'static str = "CONNECT";

pub const DISCONNECT_CMD: &'static str = "DISCONNECT";

pub const GET_DOCUMENT_CMD: &'static str = "GET_DOCUMENT";

pub const UPDATE_DOCUMENT_CMD: &'static str = "UPDATE_DOCUMENT";

pub const LIST_DOCUMENTS_CMD: &'static str = "LIST_DOCUMENTS";

pub const CREATE_DOCUMENT_CMD: &'static str = "CREATE_DOCUMENT";

pub const SWITCH_DOCUMENT_CMD: &'static str = "SWITCH_DOCUMENT";

// What the server sends.
pub const CONNECTED_OK_MSG: &'static str = "CONNECTED_OK";

pub const USER_JOINED_MSG: &'static str = "USER_JOINED";

pub const USER_LEFT_MSG: &'static str = "USER_LEFT";

pub const DOCUMENT_CONTENT_MSG: &'static str = "DOCUMENT_CONTENT";

pub const DOCUMENT_UPDATED_MSG: &'static str = "DOCUMENT_UPDATED";

pub const DOCUMENTS_LIST_MSG: &'static str = "DOCUMENTS_LIST";

pub const DOCUMENT_CREATED_OK_MSG: &'static str = "DOCUMENT_CREATED_OK";

pub const DOCUMENT_CREATED_FAIL_MSG: &'static str = "DOCUMENT_CREATED_FAIL";

pub const DOCUMENT_SWITCHED_MSG: &'static str = "DOCUMENT_SWITCHED";

pub const NEW_DOCUMENT_AVAILABLE_MSG: &'static str = "NEW_DOCUMENT_AVAILABLE";

/// The line that closes a framed unit. A body cannot hold a line equal to it.
pub const END_OF_MESSAGE_DELIMITER: &'static str = "END_OF_MESSAGE";

/// A command line: the verb, and after one space the argument, which is left
/// out together with the space where it is empty.
pub open spec fn command_line(command: Seq<char>, argument: Seq<char>) -> Seq<char> {
    if argument.len() == 0 {
        command
    } else {
        command + seq![' '] + argument
    }
}

/// A framed message: the header line, the body without its final line feed,
/// and the delimiter, each on a line of its own.
pub open spec fn document_message(
    command: Seq<char>,
    doc_name: Seq<char>,
    content: Seq<char>,
) -> Seq<char> {
    command + seq![' '] + doc_name + seq!['\n'] + without_final_newline(content) + seq!['\n']
        + END_OF_MESSAGE_DELIMITER@
}

/// Formats a message with a document name and content.
pub fn format_document_message(command: &str, doc_name: &str, content: &str) -> (r: String)
    ensures
        r@ == document_message(command@, doc_name@, content@),
{
    proof {
        reveal_strlit(" ");
        reveal_strlit("\n");
    }
    let mut r = String::from_str(command);
    r.append(" ");
    r.append(doc_name);
    r.append("\n");
    r.append(strip_final_newline(content));
    r.append("\n");
    r.append(END_OF_MESSAGE_DELIMITER);
    assert(" "@ =~= seq![' ']);
    assert("\n"@ =~= seq!['\n']);
    r
}

/// Formats a command with a single argument.
pub fn format_command_with_arg(command: &str, argument: &str) -> (r: String)
    ensures
        r@ == command_line(command@, argument@),
{
    let mut r = String::from_str(command);
    if !argument.is_empty() {
        proof {
            reveal_strlit(" ");
        }
        r.append(" ");
        r.append(argument);
        assert(" "@ =~= seq![' ']);
    }
    r
}

/// Formats a simple command without arguments.
pub fn format_simple_command(command: &str) -> (r: String)
    ensures
        r@ == command@,
{
    String::from_str(command)
}

/// Whether a unit with this verb is framed.
pub open spec fn carries_body(verb: Seq<char>) -> bool {
    ||| verb == UPDATE_DOCUMENT_CMD@
    ||| verb == DOCUMENT_CONTENT_MSG@
    ||| verb == DOCUMENT_UPDATED_MSG@
}

/// Whether a unit with this verb is framed.
pub fn verb_carries_body(verb: &str) -> (r: bool)
    ensures
        r == carries_body(verb@),
{
    str_eq(verb, UPDATE_DOCUMENT_CMD) || str_eq(verb, DOCUMENT_CONTENT_MSG) || str_eq(
        verb,
        DOCUMENT_UPDATED_MSG,
    )
}

/// One decoded unit of the protocol.
#[derive(Debug, Clone, PartialEq, Eq)]
pub enum ProtocolUnit {
    Simple { verb: String, argument: String },
    Framed { verb: String, name: String, body: String },
}

/// What a `ProtocolUnit` holds.
pub enum UnitView {
    Simple { verb: Seq<char>, argument: Seq<char> },
    Framed { verb: Seq<char>, name: Seq<char>, body: Seq<char> },
}

impl View for ProtocolUnit {
    type V = UnitView;

    open spec fn view(&self) -> UnitView {
        match *self {
            ProtocolUnit::Simple { verb, argument } => UnitView::Simple {
                verb: verb@,
                argument: argument@,
            },
            ProtocolUnit::Framed { verb, name, body } => UnitView::Framed {
                verb: verb@,
                name: name@,
                body: body@,
            },
        }
    }
}

impl DeepView for ProtocolUnit {
    type V = UnitView;

    open spec fn deep_view(&self) -> UnitView {
        self@
    }
}

/// The verb of a unit.
pub open spec fn unit_verb(unit: UnitView) -> Seq<char> {
    match unit {
        UnitView::Simple { verb, .. } => verb,
        UnitView::Framed { verb, .. } => verb,
    }
}

/// What follows the verb on the first line of a unit.
pub open spec fn unit_argument(unit: UnitView) -> Seq<char> {
    match unit {
        UnitView::Simple { argument, .. } => argument,
        UnitView::Framed { name, .. } => name,
    }
}

/// The body of a framed unit; a simple unit has none.
pub open spec fn unit_body(unit: UnitView) -> Seq<char> {
    match unit {
        UnitView::Simple { .. } => Seq::empty(),
        UnitView::Framed { body, .. } => body,
    }
}

/// A message as it goes over the connection: closed by a line feed.
pub open spec fn wire_line(message: Seq<char>) -> Seq<char> {
    message + seq!['\n']
}

/// A framed unit whose delimiter has not been read yet.
pub struct FrameView {
    pub verb: Seq<char>,
    pub name: Seq<char>,
    /// The raw lines read so far, line feeds included.
    pub body: Seq<char>,
}

/// The verb of a line: what stands before the first space of the trimmed line.
pub open spec fn verb_of(line: Seq<char>) -> Seq<char> {
    before_first(trimmed(line), ' ')
}

/// The argument of a line: what follows the first space of the trimmed line.
pub open spec fn argument_of(line: Seq<char>) -> Seq<char> {
    after_first(trimmed(line), ' ')
}

/// What one more line does to a decoder: the frame that is then open, and the
/// unit that the line completes.
///
/// Outside a frame a blank line is skipped, the header of a framed unit opens
/// a frame, and any other line is a simple unit. Inside a frame the delimiter
/// closes it, and any other line is added to the body as it was read.
pub open spec fn decode_step(pending: Option<FrameView>, line: Seq<char>) -> (
    Option<FrameView>,
    Option<UnitView>,
) {
    match pending {
        None => {
            if trimmed(line).len() == 0 {
                (None, None)
            } else if carries_body(verb_of(line)) {
                (
                    Some(
                        FrameView {
                            verb: verb_of(line),
                            name: argument_of(line),
                            body: Seq::empty(),
                        },
                    ),
                    None,
                )
            } else {
                (None, Some(UnitView::Simple { verb: verb_of(line), argument: argument_of(line) }))
            }
        },
        Some(frame) => {
            if trimmed(line) == END_OF_MESSAGE_DELIMITER@ {
                (
                    None,
                    Some(
                        UnitView::Framed {
                            verb: frame.verb,
                            name: frame.name,
                            body: without_final_newline(frame.body),
                        },
                    ),
                )
            } else {
                (
                    Some(
                        FrameView { verb: frame.verb, name: frame.name, body: frame.body + line },
                    ),
                    None,
                )
            }
        },
    }
}

/// The stream ended inside a framed unit: fatal to the connection.
#[derive(Debug, Clone, Copy, PartialEq, Eq, Structural)]
pub enum ReadError {
    TruncatedFrame,
}

struct PendingFrame {
    verb: String,
    name: String,
    body: String,
}

/// Assembles protocol units from the lines of one connection, in the order
/// in which they were read. Its only state is the frame that is open.
pub struct UnitDecoder {
    pending: Option<PendingFrame>,
}

impl View for UnitDecoder {
    type V = Option<FrameView>;

    closed spec fn view(&self) -> Option<FrameView> {
        match self.pending {
            None => None,
            Some(frame) => Some(
                FrameView { verb: frame.verb@, name: frame.name@, body: frame.body@ },
            ),
        }
    }
}

impl UnitDecoder {
    /// A decoder outside any frame.
    pub fn new() -> (decoder: Self)
        ensures
            decoder@ is None,
    {
        UnitDecoder { pending: None }
    }

    /// Whether a frame is open.
    pub fn in_frame(&self) -> (r: bool)
        ensures
            r == (self@ is Some),
    {
        self.pending.is_some()
    }

    /// Takes the next line as it was read, its line feed included.
    pub fn push_line(&mut self, line: &str) -> (unit: Option<ProtocolUnit>)
        ensures
            final(self)@ == decode_step(old(self)@, line@).0,
            unit.deep_view() == decode_step(old(self)@, line@).1,
    {
        let t = trim(line);
        match self.pending.take() {
            None => {
                if t.is_empty() {
                    None
                } else {
                    let (verb, argument) = split_at_first(t, ' ');
                    if verb_carries_body(verb) {
                        self.pending = Some(
                            PendingFrame {
                                verb: String::from_str(verb),
                                name: String::from_str(argument),
                                body: String::new(),
                            },
                        );
                        None
                    } else {
                        Some(
                            ProtocolUnit::Simple {
                                verb: String::from_str(verb),
                                argument: String::from_str(argument),
                            },
                        )
                    }
                }
            },
            Some(frame) => {
                if str_eq(t, END_OF_MESSAGE_DELIMITER) {
                    let body = String::from_str(strip_final_newline(frame.body.as_str()));
                    Some(ProtocolUnit::Framed { verb: frame.verb, name: frame.name, body })
                } else {
                    let mut frame = frame;
                    frame.body.append(line);
                    self.pending = Some(frame);
                    None
                }
            },
        }
    }

    /// Called when the stream has ended: an error where it ended inside a
    /// frame.
    pub fn finish(&self) -> (r: Result<(), ReadError>)
        ensures
            r is Err <==> self@ is Some,
    {
        if self.pending.is_some() {
            Err(ReadError::TruncatedFrame)
        } else {
            Ok(())
        }
    }
}

} // verus!
