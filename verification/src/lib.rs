//! Verified core of the CodeTrackr language server and editor extension:
//! LSP message framing, the decisions of the heartbeat client, what a document
//! URI says about its file, the methods the server answers, and the choices the
//! editor extension makes when it installs and starts the server.
pub mod client;
pub mod extension;
pub mod framing;
pub mod number;
pub mod protocol;
pub mod text;
pub mod uri;
