//! A verified reader for Solomon-format vehicle-routing instances.
//!
//! The text format has two sections: a `VEHICLE` section giving the fleet
//! size and the shared vehicle capacity, and a `CUSTOMER` section with one
//! row per stop. The library turns the raw bytes of such a file into a
//! validated [`Instance`], splitting the depot record into distinct start
//! and end depot entries. All parsing logic is verified; reading the file
//! itself is left to the caller.

pub mod laws;
pub mod numeral;
pub mod reader;
pub mod text;

pub use numeral::parse_usize;
pub use reader::Customer;
pub use reader::Instance;
pub use reader::ParseError;
pub use reader::parse_bytes;
pub use reader::parse_lines;
pub use text::split_lines;
pub use text::split_ws;
