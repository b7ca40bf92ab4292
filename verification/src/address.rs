//! Record addresses. A profile lives at the address that the host derives
//! from the tag `"profile"`, the handle's UTF-8 bytes and a one-byte nonce
//! (the bump), under the program's own identity.

use crate::identity::Identity;
use anchor_lang::prelude::Pubkey;
use vstd::prelude::*;
use vstd::utf8::encode_utf8;

verus! {

/// The tag that starts every profile's seeds: the bytes of `"profile"`.
pub const PROFILE_SEED: [u8; 7] = [112, 114, 111, 102, 105, 108, 101];

/// What the host's derivation, `Pubkey::create_program_address`, gives for a
/// list of seeds under a program: the derived address, or `None` where it
/// reports an error.
pub uninterp spec fn program_address(seeds: Seq<Seq<u8>>, program_id: Seq<u8>) -> Option<Seq<u8>>;

/// The derivation on three seeds, the last of them the single byte `bump`.
pub open spec fn bumped_address(first: Seq<u8>, second: Seq<u8>, bump: u8, program_id: Seq<u8>)
    -> Option<Seq<u8>> {
    program_address(seq![first, second, seq![bump]], program_id)
}

/// The address of the profile for `handle` with nonce `bump`, if that nonce
/// gives one.
pub open spec fn profile_address(handle: Seq<char>, bump: u8, program_id: Seq<u8>) -> Option<
    Seq<u8>,
> {
    bumped_address(PROFILE_SEED@, encode_utf8(handle), bump, program_id)
}

/// No nonce above `bump` gives an address for `handle`.
pub open spec fn no_address_above(handle: Seq<char>, bump: u8, program_id: Seq<u8>) -> bool {
    forall|b: u8| bump < b ==> (#[trigger] profile_address(handle, b, program_id)) is None
}

/// `r` is what deriving with a given nonce yields.
pub open spec fn derives(
    handle: Seq<char>,
    bump: u8,
    program_id: Seq<u8>,
    r: Option<Identity>,
) -> bool {
    match r {
        Some(address) => profile_address(handle, bump, program_id) == Some(address@),
        None => profile_address(handle, bump, program_id) is None,
    }
}

/// `r` is what the search for a nonce yields: the address under the largest
/// nonce from 255 down to 1 that gives one, together with that nonce; or
/// `None` where none of them does.
pub open spec fn finds(handle: Seq<char>, program_id: Seq<u8>, r: Option<(Identity, u8)>) -> bool {
    match r {
        Some((address, bump)) => {
            &&& bump >= 1
            &&& profile_address(handle, bump, program_id) == Some(address@)
            &&& no_address_above(handle, bump, program_id)
        },
        None => no_address_above(handle, 0, program_id),
    }
}

/// Calls `Pubkey::create_program_address` on the three seeds `first`,
/// `second` and the single byte `bump`. The result is the derived address,
/// and `None` where the outside function returns an error. It does not
/// panic on any input.
#[verifier::external_body]
fn create_program_address(first: &[u8], second: &[u8], bump: u8, program_id: &Identity) -> (r:
    Option<Identity>)
    ensures
        match r {
            Some(address) => program_address(seq![first@, second@, seq![bump]], program_id@)
                == Some(address@),
            None => program_address(seq![first@, second@, seq![bump]], program_id@) is None,
        },
{
    let program = Pubkey::new_from_array(program_id.bytes);
    match Pubkey::create_program_address(&[first, second, &[bump]], &program) {
        Ok(key) => Some(Identity { bytes: key.to_bytes() }),
        Err(_) => None,
    }
}

/// Calls `Pubkey::try_find_program_address` on the two seeds `first` and
/// `second`. The outside function tries the nonces 255, 254, .., 1 in that
/// order, each as a third seed to `create_program_address`, and returns the
/// first address that comes out with its nonce; it returns `None` when all
/// of them are refused.
#[verifier::external_body]
fn try_find_program_address(first: &[u8], second: &[u8], program_id: &Identity) -> (r: Option<
    (Identity, u8),
>)
    ensures
        match r {
            Some((address, bump)) => {
                &&& bump >= 1
                &&& bumped_address(first@, second@, bump, program_id@) == Some(address@)
                &&& forall|b: u8|
                    bump < b ==> (#[trigger] bumped_address(first@, second@, b, program_id@))
                        is None
            },
            None => forall|b: u8|
                1 <= b ==> (#[trigger] bumped_address(first@, second@, b, program_id@)) is None,
        },
{
    let program = Pubkey::new_from_array(program_id.bytes);
    match Pubkey::try_find_program_address(&[first, second], &program) {
        Some((key, bump)) => Some((Identity { bytes: key.to_bytes() }, bump)),
        None => None,
    }
}

/// The address of the profile for `handle` under the nonce `bump`.
pub fn derive_profile_address(handle: &str, bump: u8, program_id: &Identity) -> (r: Option<
    Identity,
>)
    ensures
        derives(handle@, bump, program_id@, r),
{
    create_program_address(PROFILE_SEED.as_slice(), handle.as_bytes(), bump, program_id)
}

/// Searches the nonce for `handle`: the address of its profile and the nonce
/// to store with it.
pub fn find_profile_address(handle: &str, program_id: &Identity) -> (r: Option<(Identity, u8)>)
    ensures
        finds(handle@, program_id@, r),
{
    try_find_program_address(PROFILE_SEED.as_slice(), handle.as_bytes(), program_id)
}

/// Deriving twice from the same handle, nonce and program gives the same
/// address.
pub proof fn lemma_derivation_deterministic(
    handle: Seq<char>,
    bump: u8,
    program_id: Seq<u8>,
    r1: Option<Identity>,
    r2: Option<Identity>,
)
    requires
        derives(handle, bump, program_id, r1),
        derives(handle, bump, program_id, r2),
    ensures
        r1 == r2,
{
    if let Some(a1) = r1 {
        if let Some(a2) = r2 {
            Identity::lemma_view_injective(a1, a2);
        }
    }
}

/// Searching twice for the same handle and program gives the same address
/// and the same nonce.
pub proof fn lemma_search_deterministic(
    handle: Seq<char>,
    program_id: Seq<u8>,
    r1: Option<(Identity, u8)>,
    r2: Option<(Identity, u8)>,
)
    requires
        finds(handle, program_id, r1),
        finds(handle, program_id, r2),
    ensures
        r1 == r2,
{
    match (r1, r2) {
        (Some((a1, b1)), Some((a2, b2))) => {
            if b1 < b2 {
                assert(profile_address(handle, b2, program_id) is None);
            }
            if b2 < b1 {
                assert(profile_address(handle, b1, program_id) is None);
            }
            Identity::lemma_view_injective(a1, a2);
        },
        (Some((a1, b1)), None) => {
            assert(profile_address(handle, b1, program_id) is None);
        },
        (None, Some((a2, b2))) => {
            assert(profile_address(handle, b2, program_id) is None);
        },
        (None, None) => {},
    }
}

/// The address found for a handle when its record is created is the address
/// that its stored nonce gives on every later derivation.
pub proof fn lemma_found_address_is_derived(
    handle: Seq<char>,
    program_id: Seq<u8>,
    address: Identity,
    bump: u8,
    again: Option<Identity>,
)
    requires
        finds(handle, program_id, Some((address, bump))),
        derives(handle, bump, program_id, again),
    ensures
        again == Some(address),
{
    lemma_derivation_deterministic(handle, bump, program_id, again, Some(address));
}

} // verus!
