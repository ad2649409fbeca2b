//! Core of a terminal tool that manages one SSH control master: the text
//! protocol spoken with the ssh client, the reconciliation of listening
//! sockets into a forward list, and the interactive session state machine.

pub mod app;
pub mod portfwd;
pub mod ssh;
pub mod text;
