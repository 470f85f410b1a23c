//! An in-memory settings table for a desktop settings portal.
//!
//! Settings are addressed by a namespace and a key. A fixed schema gives a
//! rule and a default to each known setting; settings outside the schema
//! accept any value. Every operation carries a contract over a mathematical
//! model of the table, a map from (namespace, key) to value.

pub mod assoc;
pub mod key;
pub mod laws;
pub mod portal;
pub mod schema;
pub mod snapshot;
pub mod store;
pub mod text;
pub mod value;

pub use key::SettingKey;
pub use portal::{PortalError, SettingsPortal};
pub use schema::{Rule, ValidationError};
pub use snapshot::{NamespaceSettings, SettingsSnapshot};
pub use store::SettingsStore;
pub use value::SettingValue;
