//! An image-based OS update engine: the refspec model, state derivation,
//! pull planning, merge and deployment planning, and the status guard that
//! serialises clients.
pub mod builder;
pub mod deploy;
pub mod derive;
pub mod error;
pub mod pull;
pub mod package;
pub mod refspec;
pub mod server;
pub mod session;
pub mod state;
pub mod text;

pub use error::Error;
pub use refspec::Refspec;
pub use state::{RefData, RefState, State};
