//! Tools for the 64-byte boot header of a cartridge ROM image: a byte-exact
//! header codec, the boot checksum over the image's checksum window, and an
//! image buffer with padding and header placement.
//!
//! - [`checksum`] says what the checksum of an image is.
//! - [`layout`] says how a header is laid out in bytes.
//! - [`render`] says how a header is shown as text.
//! - [`nusheader`] holds the header itself, its codec and its checksum.
//! - [`buffer`] holds the image buffer and the header-format interface.
//! - [`bigendian`] reads and writes big-endian integers.
//! - [`error`] holds the failures.

pub mod bigendian;
pub mod buffer;
pub mod checksum;
pub mod error;
pub mod layout;
pub mod nusheader;
pub mod render;
