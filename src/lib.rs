//! Opens files in a running Neovim over its RPC channel and waits until every
//! buffer it opened has been closed.
//!
//! `translate` turns the argument tokens into commands, `script` into the ordered
//! actions of a session, `remote` renders the ex commands they send, `channel`
//! reads this client's channel from the introspection reply, and `pending` holds
//! the buffers still awaited and drains them as close notifications arrive.

pub mod channel;
pub mod pending;
pub mod remote;
pub mod script;
pub mod translate;
