//! A profile record store: one record per handle, holding the owner's
//! identity, an encryption public key and a bounded allowlist.
//!
//! The host keeps the records, authenticates the callers and derives the
//! addresses. This library holds the record, its stored form, the three
//! operations on it and the checks that guard them: an update by anyone but
//! the record's owner is refused and changes nothing.

pub mod accounts;
pub mod address;
pub mod identity;
pub mod instructions;
pub mod layout;
pub mod profile;

pub use accounts::{AccountError, InitializeProfile, UpdateAllowlist, UpdateEncPk};
pub use identity::Identity;
pub use instructions::{
    initialize_profile, process_initialize_profile, update_allowlist, update_enc_pk, Error,
};
pub use profile::{ErrorCode, Profile, MAX_ALLOWLIST_LEN, MAX_HANDLE_LEN};
