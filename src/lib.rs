//! Inspection of Debian binary packages (`.deb` archives): the control
//! paragraph, its package relationships, the format version and the tree of
//! files that the package would install.

pub mod file;
pub mod shared;
