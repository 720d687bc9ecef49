//! Inspection of one staged `.deb` archive: the package handle, the control
//! record, the format version and the install tree.

pub mod control;
pub mod data_types;
pub mod deb;
pub mod error;
pub mod extractor;
pub mod install;

pub use control::{control_from_fields, parse_control};
pub use data_types::{Control, PathItem, Version};
pub use error::{DebError, Query, StagingError};
pub use deb::Deb;
pub use install::{build_install_tree, DataEntry};
pub use extractor::StagingPaths;
