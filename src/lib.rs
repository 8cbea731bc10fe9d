//! Provisioning of platform-specific prebuilt binaries: version values,
//! URL templates, relative file reference resolution, and the planning and
//! reporting around a concurrent fetch-and-write of every declared binary.
pub mod version;
pub mod text;
pub mod resolve;
pub mod url_context;
pub mod pairable;
pub mod package_json;
pub mod error;
pub mod provision;

pub use error::Error;
