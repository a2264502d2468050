//! Control plane for per-connector wallpapers: the wire protocol, the
//! per-connector session state, the reference-counted registry of local
//! content servers, and the router that orders every state change.

pub mod assoc;
pub mod command;
pub mod endpoint;
pub mod json;
pub mod laws;
pub mod balance;
pub mod lease;
pub mod model;
pub mod names;
pub mod router;
pub mod served;
pub mod session;
pub mod snapshot;
pub mod wire;

pub use command::{ArgsError, Command};
pub use lease::{Acquired, LeaseManager};
pub use router::{Action, Event, Router};
pub use session::{ContentRef, SessionState};
pub use snapshot::ConnectorSnapshot;
pub use wire::DecodeError;
