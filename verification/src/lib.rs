//! Verified core of a note-commitment circuit gadget: canonicity-safe
//! decomposition of 255-bit field elements into bit-range pieces, the
//! running-sum canonicity checks, and the polynomial-identity gates that
//! bind them, all modelled over plain little-endian bit strings.
//!
//! - [`bits`] carries values as little-endian bit strings with verified
//!   arithmetic;
//! - [`field`] holds the field-characteristic constants;
//! - [`pieces`] splits the witnessed inputs into message pieces;
//! - [`running_sum`] models the ten-bit-word range-check provider;
//! - [`cells`] states the three gates and proves them sound;
//! - [`eval`] evaluates the gates on arbitrary snapshots;
//! - [`layout`] fixes the region coordinates and their window bounds;
//! - [`gadget`] builds the full witness trail and proves it satisfies
//!   the gates deterministically.

pub mod bits;
pub mod cells;
pub mod eval;
pub mod field;
pub mod gadget;
pub mod layout;
pub mod pieces;
pub mod running_sum;
