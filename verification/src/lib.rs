//! Sealing and opening of key material through interchangeable capsule plugins.
//!
//! An application hands a key to a [`Pool`], names the capsule format that it wants, and
//! gets a [`Capsule`] back: an envelope that holds the format, and what the plugin of that
//! format has made of the key. Later the pool opens the capsule with the same plugin.
//!
//! - [`ffi`] holds the views and the sink through which bytes cross the plugin boundary.
//! - [`error`] holds the kinds of errors and the record in which a plugin reports one.
//! - [`plugin`] holds the entry points of a plugin, and the binding of a plugin.
//! - [`der`] and [`capsule`] hold the envelope and its bytes.
//! - [`pool`] holds the directory of the plugins that are loaded.
//! - [`test_plugin`] and [`key_capsule`] hold two plugins that run inside the host.

pub mod capsule;
pub mod der;
pub mod error;
pub mod ffi;
pub mod key_capsule;
pub mod plugin;
pub mod pool;
pub mod test_plugin;

pub use capsule::Capsule;
pub use error::{KyncError, KyncErrorKind};
pub use plugin::Plugin;
pub use pool::Pool;
