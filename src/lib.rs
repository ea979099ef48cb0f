//! Typed access to a cluster-client configuration document: named clusters,
//! users and contexts, and the name of the current context.

pub mod config;
pub mod depth;
pub mod extract;
pub mod laws;
pub mod load;
pub mod node;
pub mod table;

pub use config::{Cluster, Config, Content, Context, User};
pub use load::{Error, Result};
