//! Tachyon: a request-dispatch engine for an embeddable HTTP/1.1 server.
//!
//! The crate holds the engine's rules as sequential, verified code: the route
//! key and its FNV-1a hash, the route pattern matcher, the sharded hot cache
//! with its least-frequently-used eviction, the route registry with its
//! published snapshot, and the construction of responses. Sockets, the async
//! runtime and HTTP framing stay with the embedding program, which hands the
//! engine plain values and takes plain values back.

pub mod acceptor;
pub mod body;
pub mod cache;
pub mod callback;
pub mod key;
pub mod matcher;
pub mod methods;
pub mod options;
pub mod outside;
pub mod response;
pub mod router;
pub mod tachyon;

pub use crate::cache::HotCache;
pub use crate::methods::Method;
pub use crate::options::{ResponseData, TachyonOptions};
pub use crate::router::{TachyonHandler, TachyonRouter};
pub use crate::tachyon::Tachyon;
