//! Application commands: the checks and decisions behind the front end's
//! requests.
pub mod chat;
pub mod session;
pub mod provider;
pub mod skills;
pub mod agent_loop;
pub mod file_ops;
pub mod stream;
