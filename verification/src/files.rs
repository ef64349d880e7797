//! The file formats.

pub mod file;
pub mod zms;
pub mod zms_laws;
pub mod zms_layout;

pub use self::file::RoseFile;
