//! Warns about GPG keys that expire soon.
//!
//! The library turns the colon-delimited listing of an external
//! key-management tool into a typed inventory of primary keys and their
//! subordinate keys, computes whole-day counts until expiry, selects the
//! caller-supplied identifiers that expire within a warning window, and
//! plans the invocations that would extend the flagged keys.

pub mod error;
pub mod extend;
pub mod keyid;
pub mod record;
pub mod select;
pub mod status;
pub mod util;

pub use error::Error;
pub use extend::ExtendCall;
pub use keyid::KeyId;
pub use select::select_expiring;
pub use status::{GpgKeyStatus, GpgMainKeyStatus, GpgStatus};
pub use util::{Grouped, GroupedExt};
