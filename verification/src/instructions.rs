//! The three operations on a record. Each makes all of its tests before it
//! writes anything, so a refused call leaves everything as it was. An
//! update is refused unless the record sits at its own address and the
//! identity that signed the call is the record's owner.

use crate::accounts::{
    at_own_address, AccountError, InitializeProfile, UpdateAllowlist, UpdateEncPk,
};
use crate::identity::Identity;
use crate::profile::{
    check_allowlist, check_handle, valid_allowlist, valid_handle, ErrorCode, Profile,
};
use vstd::prelude::*;

verus! {

/// Why a call failed.
#[derive(Clone, Copy, Debug, PartialEq, Eq, Structural)]
pub enum Error {
    /// The operation refused its input.
    Input(ErrorCode),
    /// The call was turned away on its accounts.
    Account(AccountError),
}

/// The accounts after a creation: the record holds the inputs, the creating
/// identity as owner and the nonce of the address.
pub open spec fn created(
    ctx: InitializeProfile,
    handle: String,
    enc_pk: [u8; 32],
    allowlist: Vec<Identity>,
) -> InitializeProfile {
    InitializeProfile {
        profile: Profile {
            owner: ctx.owner,
            handle: handle,
            enc_pk: enc_pk,
            allowlist: allowlist,
            bump: ctx.bump,
        },
        ..ctx
    }
}

/// The accounts after a change of the key: only the key differs.
pub open spec fn with_enc_pk(ctx: UpdateEncPk, new_enc_pk: [u8; 32]) -> UpdateEncPk {
    UpdateEncPk { profile: Profile { enc_pk: new_enc_pk, ..ctx.profile }, ..ctx }
}

/// The accounts after a change of the allowlist: only the allowlist differs.
pub open spec fn with_allowlist(ctx: UpdateAllowlist, allowlist: Vec<Identity>) -> UpdateAllowlist {
    UpdateAllowlist { profile: Profile { allowlist: allowlist, ..ctx.profile }, ..ctx }
}

/// Fills the record that the host has allocated for a creation, with the
/// nonce that the accounts carry. A handle that is empty or longer than 32
/// bytes is refused first, then an allowlist of more than 32 entries.
pub fn initialize_profile(
    ctx: &mut InitializeProfile,
    handle: String,
    enc_pk: [u8; 32],
    allowlist: Vec<Identity>,
) -> (r: Result<(), ErrorCode>)
    ensures
        r is Ok <==> valid_handle(handle@) && valid_allowlist(allowlist@),
        r is Ok ==> r == Ok::<(), ErrorCode>(()),
        !valid_handle(handle@) ==> r == Err::<(), ErrorCode>(ErrorCode::InvalidHandle),
        valid_handle(handle@) && !valid_allowlist(allowlist@) ==> r == Err::<(), ErrorCode>(
            ErrorCode::AllowlistTooLarge,
        ),
        r is Err ==> *final(ctx) == *old(ctx),
        r is Ok ==> *final(ctx) == created(*old(ctx), handle, enc_pk, allowlist),
        r is Ok ==> final(ctx).profile.wf(),
{
    if check_handle(handle.as_str()).is_err() {
        return Err(ErrorCode::InvalidHandle);
    }
    if check_allowlist(&allowlist).is_err() {
        return Err(ErrorCode::AllowlistTooLarge);
    }
    ctx.profile.owner = ctx.owner;
    ctx.profile.handle = handle;
    ctx.profile.enc_pk = enc_pk;
    ctx.profile.allowlist = allowlist;
    ctx.profile.bump = ctx.bump;
    Ok(())
}

/// Runs a creation with the check of its accounts: the two inputs are
/// tested first, as `initialize_profile` tests them, then the address and
/// the nonce against a search for the handle; then the record is filled.
pub fn process_initialize_profile(
    program_id: &Identity,
    ctx: &mut InitializeProfile,
    handle: String,
    enc_pk: [u8; 32],
    allowlist: Vec<Identity>,
) -> (r: Result<(), Error>)
    ensures
        r is Ok <==> valid_handle(handle@) && valid_allowlist(allowlist@) && old(ctx).valid(
            handle@,
            program_id@,
        ),
        r is Ok ==> r == Ok::<(), Error>(()),
        !valid_handle(handle@) ==> r == Err::<(), Error>(Error::Input(ErrorCode::InvalidHandle)),
        valid_handle(handle@) && !valid_allowlist(allowlist@) ==> r == Err::<(), Error>(
            Error::Input(ErrorCode::AllowlistTooLarge),
        ),
        valid_handle(handle@) && valid_allowlist(allowlist@) && !old(ctx).valid(
            handle@,
            program_id@,
        ) ==> r == Err::<(), Error>(Error::Account(AccountError::AddressMismatch)),
        r is Err ==> *final(ctx) == *old(ctx),
        r is Ok ==> *final(ctx) == created(*old(ctx), handle, enc_pk, allowlist),
        r is Ok ==> final(ctx).profile.wf() && at_own_address(
            final(ctx).profile,
            final(ctx).profile_key,
            program_id@,
        ),
{
    if let Err(e) = check_handle(handle.as_str()) {
        return Err(Error::Input(e));
    }
    if let Err(e) = check_allowlist(&allowlist) {
        return Err(Error::Input(e));
    }
    if let Err(e) = ctx.validate(handle.as_str(), program_id) {
        return Err(Error::Account(e));
    }
    match initialize_profile(ctx, handle, enc_pk, allowlist) {
        Ok(()) => Ok(()),
        Err(e) => Err(Error::Input(e)),
    }
}

/// Replaces the encryption key, if the record sits at its own address under
/// `program_id` and the identity that signed the call is the record's
/// owner. The address is tested first, then the owner. Nothing is asked of
/// the new key.
pub fn update_enc_pk(program_id: &Identity, ctx: &mut UpdateEncPk, new_enc_pk: [u8; 32]) -> (r:
    Result<(), Error>)
    ensures
        r is Ok <==> old(ctx).valid(program_id@),
        r is Ok ==> r == Ok::<(), Error>(()),
        old(ctx).profile.owner != old(ctx).owner ==> r is Err,
        !at_own_address(old(ctx).profile, old(ctx).profile_key, program_id@) ==> r == Err::<
            (),
            Error,
        >(Error::Account(AccountError::AddressMismatch)),
        at_own_address(old(ctx).profile, old(ctx).profile_key, program_id@) && old(
            ctx,
        ).profile.owner != old(ctx).owner ==> r == Err::<(), Error>(
            Error::Account(AccountError::Unauthorized),
        ),
        r is Err ==> *final(ctx) == *old(ctx),
        r is Ok ==> *final(ctx) == with_enc_pk(*old(ctx), new_enc_pk),
        r is Ok ==> final(ctx).valid(program_id@),
        old(ctx).profile.wf() ==> final(ctx).profile.wf(),
{
    if let Err(e) = ctx.validate(program_id) {
        return Err(Error::Account(e));
    }
    ctx.profile.enc_pk = new_enc_pk;
    Ok(())
}

/// Replaces the whole allowlist, if the new one has at most 32 entries, the
/// record sits at its own address under `program_id` and the identity that
/// signed the call is the record's owner. The length is tested first, then
/// the address, then the owner.
pub fn update_allowlist(program_id: &Identity, ctx: &mut UpdateAllowlist, allowlist: Vec<Identity>)
    -> (r: Result<(), Error>)
    ensures
        r is Ok <==> valid_allowlist(allowlist@) && old(ctx).valid(program_id@),
        r is Ok ==> r == Ok::<(), Error>(()),
        old(ctx).profile.owner != old(ctx).owner ==> r is Err,
        !valid_allowlist(allowlist@) ==> r == Err::<(), Error>(
            Error::Input(ErrorCode::AllowlistTooLarge),
        ),
        valid_allowlist(allowlist@) && !at_own_address(
            old(ctx).profile,
            old(ctx).profile_key,
            program_id@,
        ) ==> r == Err::<(), Error>(Error::Account(AccountError::AddressMismatch)),
        valid_allowlist(allowlist@) && at_own_address(
            old(ctx).profile,
            old(ctx).profile_key,
            program_id@,
        ) && old(ctx).profile.owner != old(ctx).owner ==> r == Err::<(), Error>(
            Error::Account(AccountError::Unauthorized),
        ),
        r is Err ==> *final(ctx) == *old(ctx),
        r is Ok ==> *final(ctx) == with_allowlist(*old(ctx), allowlist),
        r is Ok ==> final(ctx).valid(program_id@),
        old(ctx).profile.wf() ==> final(ctx).profile.wf(),
{
    if let Err(e) = check_allowlist(&allowlist) {
        return Err(Error::Input(e));
    }
    if let Err(e) = ctx.validate(program_id) {
        return Err(Error::Account(e));
    }
    ctx.profile.allowlist = allowlist;
    Ok(())
}

/// Setting the same key twice leaves the accounts as setting it once does.
pub proof fn lemma_update_enc_pk_idempotent(ctx: UpdateEncPk, new_enc_pk: [u8; 32])
    ensures
        with_enc_pk(with_enc_pk(ctx, new_enc_pk), new_enc_pk) == with_enc_pk(ctx, new_enc_pk),
{
}

/// Setting the same allowlist twice leaves the accounts as setting it once
/// does, and of two lists set in turn only the second stays.
pub proof fn lemma_update_allowlist_replaces(
    ctx: UpdateAllowlist,
    first: Vec<Identity>,
    second: Vec<Identity>,
)
    ensures
        with_allowlist(with_allowlist(ctx, second), second) == with_allowlist(ctx, second),
        with_allowlist(with_allowlist(ctx, first), second) == with_allowlist(ctx, second),
{
}

/// An update changes neither the owner, nor the handle, nor the nonce, so
/// the record stays at the address that it had: under every program the
/// handle and the nonce give after the update what they gave before.
pub proof fn lemma_updates_keep_address(
    key_ctx: UpdateEncPk,
    new_enc_pk: [u8; 32],
    list_ctx: UpdateAllowlist,
    allowlist: Vec<Identity>,
    program_id: Seq<u8>,
)
    ensures
        with_enc_pk(key_ctx, new_enc_pk).profile.owner == key_ctx.profile.owner,
        with_enc_pk(key_ctx, new_enc_pk).profile.handle == key_ctx.profile.handle,
        with_enc_pk(key_ctx, new_enc_pk).profile.bump == key_ctx.profile.bump,
        with_enc_pk(key_ctx, new_enc_pk).profile.spec_address(program_id)
            == key_ctx.profile.spec_address(program_id),
        with_enc_pk(key_ctx, new_enc_pk).valid(program_id) == key_ctx.valid(program_id),
        with_allowlist(list_ctx, allowlist).profile.owner == list_ctx.profile.owner,
        with_allowlist(list_ctx, allowlist).profile.handle == list_ctx.profile.handle,
        with_allowlist(list_ctx, allowlist).profile.bump == list_ctx.profile.bump,
        with_allowlist(list_ctx, allowlist).profile.spec_address(program_id)
            == list_ctx.profile.spec_address(program_id),
        with_allowlist(list_ctx, allowlist).valid(program_id) == list_ctx.valid(program_id),
{
}

/// A record created at the address that the search gives for its handle sits
/// at the address that its own handle and nonce give.
pub proof fn lemma_created_at_own_address(
    ctx: InitializeProfile,
    handle: String,
    enc_pk: [u8; 32],
    allowlist: Vec<Identity>,
    program_id: Seq<u8>,
)
    requires
        ctx.valid(handle@, program_id),
    ensures
        at_own_address(
            created(ctx, handle, enc_pk, allowlist).profile,
            created(ctx, handle, enc_pk, allowlist).profile_key,
            program_id,
        ),
{
}

} // verus!
