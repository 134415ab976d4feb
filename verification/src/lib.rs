//! Named, file-backed configuration profiles for the `gcloud` tool: the
//! rules of the profile store and the codec of a profile's settings.
//!
//! The library decides and computes; it never touches the disk. An
//! operation that changes the store changes the store in memory and hands
//! back the operations on files that bring the disk in line. A caller that
//! wants the store as it was when a file operation fails keeps the old
//! store until the operations are done.

pub mod codec;
pub mod configuration;
pub mod error;
pub mod ini;
pub mod operation;
pub mod order;
pub mod pattern;
pub mod properties;
pub mod store;
pub mod text;

pub use configuration::Configuration;
pub use configuration::ConflictAction;
pub use error::Error;
pub use error::LoadFailure;
pub use ini::Line;
pub use operation::FileOperation;
pub use properties::ComputeProperties;
pub use properties::CoreProperties;
pub use properties::Properties;
pub use properties::PropertiesBuilder;
pub use properties::Region;
pub use properties::Zone;
pub use store::ConfigurationStore;
pub use store::DirectoryScan;
pub use store::ScannedEntry;
