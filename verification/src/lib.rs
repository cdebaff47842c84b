//! The verified core of a terminal chat client: the role-tagged
//! conversation transcript, the completion request built and serialized
//! from it, the interpretation of the endpoint's response, the reasoning
//! block stripped out of a raw reply, and the decisions of the
//! line-oriented front-end loop. The surrounding I/O — terminal, network,
//! store — stays outside and hands this library plain values.

pub mod clean;
pub mod config;
pub mod record;
pub mod repl;
pub mod session;
pub mod transport;
pub mod wire;
