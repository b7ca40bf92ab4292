//! What the host hands to each operation: the record, its address, and the
//! identity that signed the call; and the checks on them that guard the
//! operations.

use crate::address::{find_profile_address, finds, lemma_search_deterministic};
use crate::identity::Identity;
use crate::profile::Profile;
use vstd::prelude::*;

verus! {

/// Why a call is turned away on its accounts.
#[derive(Clone, Copy, Debug, PartialEq, Eq, Structural)]
pub enum AccountError {
    /// The record's address is not the one that its handle and nonce give.
    AddressMismatch,
    /// The caller is not the record's owner.
    Unauthorized,
}

/// The accounts of a creation.
#[derive(Clone, Debug, PartialEq, Eq)]
pub struct InitializeProfile {
    /// The address at which the record is allocated.
    pub profile_key: Identity,
    /// The new record, still blank.
    pub profile: Profile,
    /// The creating identity, which signed the call and pays for the space.
    pub owner: Identity,
    /// The nonce that was found when the address was derived.
    pub bump: u8,
}

/// The accounts of a change of the encryption key.
#[derive(Clone, Debug, PartialEq, Eq)]
pub struct UpdateEncPk {
    /// The address at which the record is stored.
    pub profile_key: Identity,
    /// The record.
    pub profile: Profile,
    /// The identity that signed the call.
    pub owner: Identity,
}

/// The accounts of a change of the allowlist.
#[derive(Clone, Debug, PartialEq, Eq)]
pub struct UpdateAllowlist {
    /// The address at which the record is stored.
    pub profile_key: Identity,
    /// The record.
    pub profile: Profile,
    /// The identity that signed the call.
    pub owner: Identity,
}

/// The record sits at the address that its own handle and nonce give.
pub open spec fn at_own_address(profile: Profile, profile_key: Identity, program_id: Seq<u8>)
    -> bool {
    profile.spec_address(program_id) == Some(profile_key@)
}

/// What the host asks of a stored record and a caller before an update.
pub open spec fn may_update(
    profile: Profile,
    profile_key: Identity,
    owner: Identity,
    program_id: Seq<u8>,
) -> bool {
    &&& at_own_address(profile, profile_key, program_id)
    &&& profile.owner == owner
}

/// Decides on an update once the record's address has been derived again:
/// `derived` is what the record's handle and nonce gave. The address is
/// tested first, then the owner.
pub fn check_derived(
    profile: &Profile,
    profile_key: &Identity,
    owner: &Identity,
    derived: Option<Identity>,
) -> (r: Result<(), AccountError>)
    ensures
        r is Ok <==> derived == Some(*profile_key) && profile.owner == *owner,
        r == Err::<(), AccountError>(AccountError::AddressMismatch) <==> derived != Some(
            *profile_key,
        ),
        r == Err::<(), AccountError>(AccountError::Unauthorized) <==> derived == Some(
            *profile_key,
        ) && profile.owner != *owner,
{
    let at_address = match derived {
        Some(address) => address == *profile_key,
        None => false,
    };
    if !at_address {
        Err(AccountError::AddressMismatch)
    } else if profile.owner != *owner {
        Err(AccountError::Unauthorized)
    } else {
        Ok(())
    }
}

/// Decides on a creation once the nonce has been searched: `found` is what
/// the search for the handle gave. The accounts must name that address and
/// that nonce.
pub fn check_found(profile_key: &Identity, bump: u8, found: Option<(Identity, u8)>) -> (r: Result<
    (),
    AccountError,
>)
    ensures
        r is Ok <==> found == Some((*profile_key, bump)),
        r is Err ==> r == Err::<(), AccountError>(AccountError::AddressMismatch),
{
    match found {
        Some((address, nonce)) => {
            if address == *profile_key && nonce == bump {
                Ok(())
            } else {
                Err(AccountError::AddressMismatch)
            }
        },
        None => Err(AccountError::AddressMismatch),
    }
}

/// Checks a stored record and a caller before an update: derives the
/// record's address again and decides as `check_derived` does.
pub fn check_update(
    profile: &Profile,
    profile_key: &Identity,
    owner: &Identity,
    program_id: &Identity,
) -> (r: Result<(), AccountError>)
    ensures
        r is Ok <==> may_update(*profile, *profile_key, *owner, program_id@),
        r == Err::<(), AccountError>(AccountError::AddressMismatch) <==> !at_own_address(
            *profile,
            *profile_key,
            program_id@,
        ),
        r == Err::<(), AccountError>(AccountError::Unauthorized) <==> at_own_address(
            *profile,
            *profile_key,
            program_id@,
        ) && profile.owner != *owner,
        profile.owner != *owner ==> r is Err,
{
    let derived = profile.address(program_id);
    proof {
        if let Some(address) = derived {
            Identity::lemma_view_injective(address, *profile_key);
        }
    }
    check_derived(profile, profile_key, owner, derived)
}

impl InitializeProfile {
    /// The address and the nonce are the ones that the search gives for
    /// `handle`.
    pub open spec fn valid(&self, handle: Seq<char>, program_id: Seq<u8>) -> bool {
        finds(handle, program_id, Some((self.profile_key, self.bump)))
    }

    /// Checks the address and the nonce: searches the nonce for `handle`
    /// and decides as `check_found` does.
    pub fn validate(&self, handle: &str, program_id: &Identity) -> (r: Result<(), AccountError>)
        ensures
            r is Ok <==> self.valid(handle@, program_id@),
            r is Err ==> r == Err::<(), AccountError>(AccountError::AddressMismatch),
    {
        let found = find_profile_address(handle, program_id);
        proof {
            if self.valid(handle@, program_id@) {
                lemma_search_deterministic(
                    handle@,
                    program_id@,
                    found,
                    Some((self.profile_key, self.bump)),
                );
            }
        }
        check_found(&self.profile_key, self.bump, found)
    }
}

impl UpdateEncPk {
    /// The record sits at its own address and the caller owns it.
    pub open spec fn valid(&self, program_id: Seq<u8>) -> bool {
        may_update(self.profile, self.profile_key, self.owner, program_id)
    }

    /// Checks the record's address and the caller.
    pub fn validate(&self, program_id: &Identity) -> (r: Result<(), AccountError>)
        ensures
            r is Ok <==> self.valid(program_id@),
            r == Err::<(), AccountError>(AccountError::AddressMismatch) <==> !at_own_address(
                self.profile,
                self.profile_key,
                program_id@,
            ),
            r == Err::<(), AccountError>(AccountError::Unauthorized) <==> at_own_address(
                self.profile,
                self.profile_key,
                program_id@,
            ) && self.profile.owner != self.owner,
            self.profile.owner != self.owner ==> r is Err,
    {
        check_update(&self.profile, &self.profile_key, &self.owner, program_id)
    }
}

impl UpdateAllowlist {
    /// The record sits at its own address and the caller owns it.
    pub open spec fn valid(&self, program_id: Seq<u8>) -> bool {
        may_update(self.profile, self.profile_key, self.owner, program_id)
    }

    /// Checks the record's address and the caller.
    pub fn validate(&self, program_id: &Identity) -> (r: Result<(), AccountError>)
        ensures
            r is Ok <==> self.valid(program_id@),
            r == Err::<(), AccountError>(AccountError::AddressMismatch) <==> !at_own_address(
                self.profile,
                self.profile_key,
                program_id@,
            ),
            r == Err::<(), AccountError>(AccountError::Unauthorized) <==> at_own_address(
                self.profile,
                self.profile_key,
                program_id@,
            ) && self.profile.owner != self.owner,
            self.profile.owner != self.owner ==> r is Err,
    {
        check_update(&self.profile, &self.profile_key, &self.owner, program_id)
    }
}

} // verus!
