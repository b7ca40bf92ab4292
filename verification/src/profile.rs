//! The stored record and the two failures of input validation.

use crate::address::{derive_profile_address, derives, profile_address};
use crate::identity::Identity;
use vstd::prelude::*;
use vstd::utf8::encode_utf8;

verus! {

/// The longest handle, in bytes of UTF-8.
pub const MAX_HANDLE_LEN: usize = 32;

/// The most entries an allowlist holds.
pub const MAX_ALLOWLIST_LEN: usize = 32;

/// Why an operation refused its input.
#[derive(Clone, Copy, Debug, PartialEq, Eq, Structural)]
pub enum ErrorCode {
    /// The handle is empty or longer than `MAX_HANDLE_LEN` bytes.
    InvalidHandle,
    /// The allowlist has more than `MAX_ALLOWLIST_LEN` entries.
    AllowlistTooLarge,
}

impl ErrorCode {
    /// The message shown for this failure.
    pub fn message(&self) -> (text: &'static str)
        ensures
            text@ == match self {
                ErrorCode::InvalidHandle => "Invalid handle length."@,
                ErrorCode::AllowlistTooLarge => "Allowlist exceeds maximum size."@,
            },
    {
        match self {
            ErrorCode::InvalidHandle => "Invalid handle length.",
            ErrorCode::AllowlistTooLarge => "Allowlist exceeds maximum size.",
        }
    }
}

/// The length of a handle in bytes of UTF-8.
pub open spec fn handle_len(handle: Seq<char>) -> nat {
    encode_utf8(handle).len()
}

/// A handle is accepted when it has between 1 and `MAX_HANDLE_LEN` bytes.
pub open spec fn valid_handle(handle: Seq<char>) -> bool {
    1 <= handle_len(handle) <= MAX_HANDLE_LEN
}

/// An allowlist is accepted when it has at most `MAX_ALLOWLIST_LEN` entries.
pub open spec fn valid_allowlist(allowlist: Seq<Identity>) -> bool {
    allowlist.len() <= MAX_ALLOWLIST_LEN
}

/// Tests a handle's length.
pub fn check_handle(handle: &str) -> (r: Result<(), ErrorCode>)
    ensures
        r is Ok <==> valid_handle(handle@),
        r is Err ==> r == Err::<(), ErrorCode>(ErrorCode::InvalidHandle),
{
    let n: usize = handle.as_bytes().len();
    if n == 0 || n > MAX_HANDLE_LEN {
        Err(ErrorCode::InvalidHandle)
    } else {
        Ok(())
    }
}

/// Tests an allowlist's length.
pub fn check_allowlist(allowlist: &Vec<Identity>) -> (r: Result<(), ErrorCode>)
    ensures
        r is Ok <==> valid_allowlist(allowlist@),
        r is Err ==> r == Err::<(), ErrorCode>(ErrorCode::AllowlistTooLarge),
{
    if allowlist.len() > MAX_ALLOWLIST_LEN {
        Err(ErrorCode::AllowlistTooLarge)
    } else {
        Ok(())
    }
}

/// A record as plain values: what its fields hold.
pub struct ProfileView {
    pub owner: Seq<u8>,
    pub handle: Seq<char>,
    pub enc_pk: Seq<u8>,
    pub allowlist: Seq<Seq<u8>>,
    pub bump: u8,
}

impl ProfileView {
    /// The owner, the key and every entry of the allowlist have 32 bytes.
    pub open spec fn well_shaped(&self) -> bool {
        &&& self.owner.len() == 32
        &&& self.enc_pk.len() == 32
        &&& forall|i: int|
            0 <= i < self.allowlist.len() ==> (#[trigger] self.allowlist[i]).len() == 32
    }

    /// What holds of every stored record.
    pub open spec fn wf(&self) -> bool {
        &&& self.well_shaped()
        &&& valid_handle(self.handle)
        &&& self.allowlist.len() <= MAX_ALLOWLIST_LEN
    }
}

/// The one record kept per handle.
#[derive(Clone, Debug, PartialEq, Eq)]
pub struct Profile {
    /// The only identity that may change the record. Set at creation.
    pub owner: Identity,
    /// The record's name and the seed of its address. Set at creation.
    pub handle: String,
    /// An encryption public key, stored as given.
    pub enc_pk: [u8; 32],
    /// The authorized counterparties, in the order given.
    pub allowlist: Vec<Identity>,
    /// The nonce that was found when the record's address was derived.
    pub bump: u8,
}

impl View for Profile {
    type V = ProfileView;

    open spec fn view(&self) -> ProfileView {
        ProfileView {
            owner: self.owner@,
            handle: self.handle@,
            enc_pk: self.enc_pk@,
            allowlist: self.allowlist@.map_values(|id: Identity| id@),
            bump: self.bump,
        }
    }
}

impl Profile {
    /// The bytes reserved for a record: a tag of 8, the owner, the handle and
    /// the allowlist at their greatest length behind a length of 4 bytes
    /// each, the key and the nonce.
    pub const SIZE: usize = 8 + 32 + 4 + MAX_HANDLE_LEN + 32 + 4 + (32 * MAX_ALLOWLIST_LEN) + 1;

    /// What holds of every stored record.
    pub open spec fn wf(&self) -> bool {
        &&& valid_handle(self.handle@)
        &&& valid_allowlist(self.allowlist@)
    }

    /// The bytes that this record takes in storage, tag included.
    pub open spec fn stored_len(&self) -> nat {
        8 + 32 + 4 + handle_len(self.handle@) + 32 + 4 + 32 * self.allowlist@.len() + 1
    }

    /// The address that the record's handle and stored nonce give.
    pub open spec fn spec_address(&self, program_id: Seq<u8>) -> Option<Seq<u8>> {
        profile_address(self.handle@, self.bump, program_id)
    }

    /// A record before its creation: no owner, no handle, nothing stored.
    pub fn blank() -> (p: Profile)
        ensures
            p.owner@ == Seq::new(32, |i: int| 0u8),
            p.handle@ == Seq::<char>::empty(),
            p.enc_pk@ == Seq::new(32, |i: int| 0u8),
            p.allowlist@ == Seq::<Identity>::empty(),
            p.bump == 0,
    {
        let zero: [u8; 32] = [0u8; 32];
        Profile {
            owner: Identity::new(zero),
            handle: String::new(),
            enc_pk: zero,
            allowlist: Vec::new(),
            bump: 0,
        }
    }

    /// Derives the record's address again from its handle and stored nonce.
    pub fn address(&self, program_id: &Identity) -> (r: Option<Identity>)
        ensures
            derives(self.handle@, self.bump, program_id@, r),
    {
        derive_profile_address(self.handle.as_str(), self.bump, program_id)
    }

    /// A record that meets its bounds fits the space reserved for it.
    pub proof fn lemma_fits(self)
        requires
            self.wf(),
        ensures
            self.stored_len() <= Profile::SIZE,
            Profile::SIZE == 1137,
    {
    }

    /// A record meets its bounds exactly when its plain values do.
    pub proof fn lemma_view_wf(self)
        ensures
            self@.well_shaped(),
            self@.wf() == self.wf(),
    {
    }
}

} // verus!
