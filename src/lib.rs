//! Lifecycle of ephemeral test databases: configuration of the pools a test
//! asks for, naming of their databases, the retrying administrative
//! connection, and the decisions that provision, run and tear down one test
//! invocation so that no created database is left behind.

pub mod config;
pub mod lifecycle;
pub mod naming;
pub mod retry;
