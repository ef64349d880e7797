//! Reading and writing the primitive values of the formats.

pub mod endian;
pub mod path;
pub mod reader;
pub mod round_trip;
pub mod runs;
pub mod stream;
pub mod text;
pub mod wire;
pub mod writer;

pub use self::path::from_rose_path;
pub use self::reader::ReadRoseExt;
pub use self::stream::ByteCursor;
pub use self::stream::SeekRoseExt;
pub use self::writer::WriteRoseExt;
