//! A text editor that several users share over a network.
//!
//! The server keeps a table of documents and a registry of the connected
//! clients. A client lists and creates documents, opens one, replaces its
//! content, and is told when another client replaces it. This library holds
//! the rules of both sides: the line protocol, the table, the registry, what
//! each message of a client does on the server and who is told of it, and
//! what each key and each message of the server does to a client. It reads
//! no socket and writes no file: the program around it does, and hands in
//! what it has read.
pub mod app_state;
pub mod client_state;
pub mod dispatch;
pub mod documents;
pub mod event;
pub mod framing;
pub mod input;
pub mod protocol;
pub mod server;
pub mod server_listener;
pub mod sessions;
pub mod text;
