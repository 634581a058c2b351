//! Parsing and rendering of flake references: strings such as
//! `github:owner/repo/rev?dir=sub`, `git+https://host/path?ref=x`,
//! `path:/abs/path` or a bare registry id, turned into a typed value and back.
pub mod error;
pub mod flakeref;
pub mod text;
pub mod forge;
pub mod fr_type;
pub mod laws;
pub mod location_params;
pub mod parser;
pub mod resource_url;
pub mod transport_layer;
pub mod urls;

pub use error::{NixUriError, NixUriResult};
pub use flakeref::FlakeRef;
pub use forge::{GitForge, GitForgePlatform};
pub use fr_type::FlakeRefType;
pub use location_params::{
    FlakeRefParamKeys, FlakeRefParameters, LocationParamKeys, LocationParameters,
};
pub use resource_url::{ResourceType, ResourceUrl};
pub use transport_layer::TransportLayer;
