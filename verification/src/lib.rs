//! Planning and reporting for a synthetic directory tree of randomly sized
//! files, used to load a filesystem's capacity and inode budget.
//!
//! The library decides and formats; it reads no clock, touches no disk and
//! runs no command. A program around it stores the units that the generator
//! hands out and passes back what it measured.
//!
//! - [`format`]: byte counts in binary units, integers with separators.
//! - [`content`]: the bytes of one file, with or without the test signature.
//! - [`generator`]: the units of a tree and the running totals.
//! - [`probe`]: the inode usage in the host's accounting output.
//! - [`shell`]: arguments, confirmation and the phases of a session.
//! - [`report`]: the lines shown to the user.
//! - [`random`]: the source of random lengths and bytes.
//! - [`text`]: decimal numerals and scanning of characters.

pub mod content;
pub mod format;
pub mod generator;
pub mod probe;
pub mod random;
pub mod report;
pub mod shell;
pub mod text;
