//! The stored form of a record: a tag of 8 bytes, the owner, the handle
//! behind its length, the key, the allowlist behind its length, the nonce.
//! Lengths are 4 bytes, least significant first.

use crate::identity::Identity;
use crate::profile::{
    check_allowlist, check_handle, valid_allowlist, valid_handle, ErrorCode, Profile, ProfileView,
};
use vstd::bytes::{
    lemma_auto_spec_u32_to_from_le_bytes, spec_u32_from_le_bytes, spec_u32_to_le_bytes,
    u32_from_le_bytes, u32_to_le_bytes,
};
use vstd::prelude::*;
use vstd::slice::slice_subrange;
use vstd::utf8::{encode_utf8, encode_utf8_decode_utf8, encode_utf8_valid_utf8, valid_utf8};

verus! {

/// The tag that marks stored bytes as a profile: the first eight bytes of
/// the SHA-256 digest of `account:Profile`.
pub const DISCRIMINATOR: [u8; 8] = [184, 101, 165, 188, 95, 63, 127, 188];

/// A length as it is stored.
pub open spec fn length_prefix(n: nat) -> Seq<u8> {
    spec_u32_to_le_bytes(n as u32)
}

/// The entries of an allowlist, one after the other.
pub open spec fn entries(list: Seq<Seq<u8>>) -> Seq<u8> {
    Seq::new(32 * list.len(), |i: int| list[i / 32][i % 32])
}

/// The stored bytes of a record.
pub open spec fn encoding(v: ProfileView) -> Seq<u8> {
    DISCRIMINATOR@ + v.owner + length_prefix(encode_utf8(v.handle).len()) + encode_utf8(v.handle)
        + v.enc_pk + length_prefix(v.allowlist.len()) + entries(v.allowlist) + seq![v.bump]
}

/// `data` starts with the stored bytes of the record `v`, and `v` meets its
/// bounds.
pub open spec fn decodes(data: Seq<u8>, v: ProfileView) -> bool {
    &&& v.wf()
    &&& encoding(v).is_prefix_of(data)
}

/// Where each field of a record stands in bytes that start with its stored
/// form.
pub proof fn lemma_decodes_parts(data: Seq<u8>, v: ProfileView)
    requires
        decodes(data, v),
    ensures
        ({
            let n = encode_utf8(v.handle).len() as int;
            let m = v.allowlist.len() as int;
            &&& 1 <= n <= 32
            &&& m <= 32
            &&& encoding(v).len() == 81 + n + 32 * m
            &&& data.len() >= 81 + n + 32 * m
            &&& data.subrange(0, 8) == DISCRIMINATOR@
            &&& data.subrange(8, 40) == v.owner
            &&& data.subrange(40, 44) == length_prefix(n as nat)
            &&& spec_u32_from_le_bytes(data.subrange(40, 44)) == n
            &&& data.subrange(44, 44 + n) == encode_utf8(v.handle)
            &&& data.subrange(44 + n, 76 + n) == v.enc_pk
            &&& data.subrange(76 + n, 80 + n) == length_prefix(m as nat)
            &&& spec_u32_from_le_bytes(data.subrange(76 + n, 80 + n)) == m
            &&& forall|k: int|
                0 <= k < m ==> data.subrange(80 + n + 32 * k, 112 + n + 32 * k)
                    == #[trigger] v.allowlist[k]
            &&& data[80 + n + 32 * m] == v.bump
        }),
{
    lemma_auto_spec_u32_to_from_le_bytes();
    let e = encoding(v);
    let n = encode_utf8(v.handle).len() as int;
    let m = v.allowlist.len() as int;
    assert(e.len() == 81 + n + 32 * m);
    assert(e.subrange(0, 8) =~= DISCRIMINATOR@);
    assert(e.subrange(8, 40) =~= v.owner);
    assert(e.subrange(40, 44) =~= length_prefix(n as nat));
    assert(e.subrange(44, 44 + n) =~= encode_utf8(v.handle));
    assert(e.subrange(44 + n, 76 + n) =~= v.enc_pk);
    assert(e.subrange(76 + n, 80 + n) =~= length_prefix(m as nat));
    assert forall|k: int| 0 <= k < m implies e.subrange(80 + n + 32 * k, 112 + n + 32 * k)
        == #[trigger] v.allowlist[k] by {
        let part = e.subrange(80 + n + 32 * k, 112 + n + 32 * k);
        assert forall|j: int| 0 <= j < 32 implies part[j] == v.allowlist[k][j] by {
            assert(part[j] == e[80 + n + 32 * k + j]);
            assert(e[80 + n + 32 * k + j] == entries(v.allowlist)[32 * k + j]);
            assert((32 * k + j) / 32 == k && (32 * k + j) % 32 == j);
        }
        assert(part =~= v.allowlist[k]);
    }
    assert(e[80 + n + 32 * m] == v.bump);
    lemma_prefix_subrange(e, data, 0, 8);
    lemma_prefix_subrange(e, data, 8, 40);
    lemma_prefix_subrange(e, data, 40, 44);
    lemma_prefix_subrange(e, data, 44, 44 + n);
    lemma_prefix_subrange(e, data, 44 + n, 76 + n);
    lemma_prefix_subrange(e, data, 76 + n, 80 + n);
    assert forall|k: int| 0 <= k < m implies data.subrange(80 + n + 32 * k, 112 + n + 32 * k)
        == #[trigger] v.allowlist[k] by {
        lemma_prefix_subrange(e, data, 80 + n + 32 * k, 112 + n + 32 * k);
    }
    assert(data[80 + n + 32 * m] == data.subrange(0, e.len() as int)[80 + n + 32 * m]);
}

/// The stored form of a record with a handle of 32 bytes and 32 entries in
/// its allowlist fills the reserved space: the owner stands at byte 8, the
/// handle behind its length at 40, the key at 76, the allowlist behind its
/// length at 108, the nonce at 1136.
pub proof fn lemma_layout_at_capacity(v: ProfileView)
    requires
        v.wf(),
        encode_utf8(v.handle).len() == 32,
        v.allowlist.len() == 32,
    ensures
        encoding(v).len() == 1137,
        encoding(v).len() == Profile::SIZE,
        encoding(v).subrange(0, 8) == DISCRIMINATOR@,
        encoding(v).subrange(8, 40) == v.owner,
        encoding(v).subrange(40, 44) == length_prefix(32),
        encoding(v).subrange(44, 76) == encode_utf8(v.handle),
        encoding(v).subrange(76, 108) == v.enc_pk,
        encoding(v).subrange(108, 112) == length_prefix(32),
        encoding(v).subrange(112, 1136) == entries(v.allowlist),
        encoding(v)[1136] == v.bump,
{
    let e = encoding(v);
    assert(e.subrange(0, e.len() as int) =~= e);
    lemma_decodes_parts(e, v);
    assert(e.subrange(112, 1136) =~= entries(v.allowlist));
}

/// Bytes that start with `e` agree with `e` on every range inside it.
proof fn lemma_prefix_subrange(e: Seq<u8>, data: Seq<u8>, from: int, to: int)
    requires
        e.is_prefix_of(data),
        0 <= from <= to <= e.len(),
    ensures
        data.subrange(from, to) == e.subrange(from, to),
{
    assert(e =~= data.subrange(0, e.len() as int));
    assert forall|j: int| 0 <= j < to - from implies data.subrange(from, to)[j] == e.subrange(
        from,
        to,
    )[j] by {
        assert(e[from + j] == data.subrange(0, e.len() as int)[from + j]);
    }
    assert(data.subrange(from, to) =~= e.subrange(from, to));
}

/// Stored bytes are the bytes of one record only.
pub proof fn lemma_decodes_unique(data: Seq<u8>, v: ProfileView, w: ProfileView)
    requires
        decodes(data, v),
        decodes(data, w),
    ensures
        v == w,
{
    lemma_decodes_parts(data, v);
    lemma_decodes_parts(data, w);
    encode_utf8_decode_utf8(v.handle);
    encode_utf8_decode_utf8(w.handle);
    assert(v.handle == w.handle);
    assert(v.allowlist.len() == w.allowlist.len());
    assert forall|k: int| 0 <= k < v.allowlist.len() implies v.allowlist[k] == w.allowlist[k] by {
        let n = encode_utf8(v.handle).len() as int;
        assert(data.subrange(80 + n + 32 * k, 112 + n + 32 * k) == v.allowlist[k]);
        assert(data.subrange(80 + n + 32 * k, 112 + n + 32 * k) == w.allowlist[k]);
    }
    assert(v.allowlist =~= w.allowlist);
}

/// The stored form of a record that meets its bounds can be read, whatever
/// follows it.
pub proof fn lemma_stored_decodes(v: ProfileView, rest: Seq<u8>)
    requires
        v.wf(),
    ensures
        decodes(encoding(v) + rest, v),
{
    assert((encoding(v) + rest).subrange(0, encoding(v).len() as int) =~= encoding(v));
}

/// What was stored is what is read: bytes that start with the stored form of
/// a record `v` decode to `v` and to nothing else, whatever follows them.
pub proof fn lemma_round_trip(v: ProfileView, rest: Seq<u8>, w: ProfileView)
    requires
        v.wf(),
        decodes(encoding(v) + rest, w),
    ensures
        w == v,
{
    lemma_stored_decodes(v, rest);
    lemma_decodes_unique(encoding(v) + rest, v, w);
}

/// What reading asks of the bytes, step by step: the tag, a handle of 1 to
/// 32 bytes of valid UTF-8 behind its length, at most 32 entries behind
/// theirs, and room for all of it.
spec fn readable(data: Seq<u8>) -> bool {
    let n = spec_u32_from_le_bytes(data.subrange(40, 44)) as int;
    let m = spec_u32_from_le_bytes(data.subrange(76 + n, 80 + n)) as int;
    &&& data.len() >= 82
    &&& data.subrange(0, 8) == DISCRIMINATOR@
    &&& 1 <= n <= 32
    &&& data.len() >= 81 + n
    &&& valid_utf8(data.subrange(44, 44 + n))
    &&& m <= 32
    &&& data.len() >= 81 + n + 32 * m
}

/// Bytes that fail one of the steps of reading hold no record.
proof fn lemma_unreadable(data: Seq<u8>)
    requires
        !readable(data),
    ensures
        forall|v: ProfileView| !#[trigger] decodes(data, v),
{
    assert forall|v: ProfileView| !#[trigger] decodes(data, v) by {
        if decodes(data, v) {
            lemma_decodes_parts(data, v);
            encode_utf8_valid_utf8(v.handle);
        }
    }
}

/// Calls `String::from_utf8`, which gives the string that these bytes encode
/// when they are valid UTF-8 and an error otherwise.
#[verifier::external_body]
fn string_from_utf8(bytes: Vec<u8>) -> (r: Option<String>)
    ensures
        r is Some <==> valid_utf8(bytes@),
        r matches Some(s) ==> encode_utf8(s@) == bytes@,
{
    match String::from_utf8(bytes) {
        Ok(s) => Some(s),
        Err(_) => None,
    }
}

/// The 32 bytes of `data` from `at` on.
fn read_array(data: &[u8], at: usize) -> (r: [u8; 32])
    requires
        at + 32 <= data@.len(),
    ensures
        r@ == data@.subrange(at as int, at + 32),
{
    let total: usize = data.len();
    let mut r: [u8; 32] = [0u8; 32];
    let mut i: usize = 0;
    while i < 32
        invariant
            i <= 32,
            total == data@.len(),
            at + 32 <= total,
            forall|j: int| 0 <= j < i ==> r@[j] == data@[at + j],
        decreases 32 - i,
    {
        r[i] = data[at + i];
        i += 1;
    }
    assert(r@ =~= data@.subrange(at as int, at + 32));
    r
}

/// Appends `bytes` to `out`.
fn append(out: &mut Vec<u8>, bytes: &[u8])
    ensures
        final(out)@ == old(out)@ + bytes@,
{
    let mut i: usize = 0;
    while i < bytes.len()
        invariant
            i <= bytes.len(),
            out@ == old(out)@ + bytes@.subrange(0, i as int),
        decreases bytes.len() - i,
    {
        out.push(bytes[i]);
        i += 1;
        assert(out@ =~= old(out)@ + bytes@.subrange(0, i as int));
    }
    assert(bytes@.subrange(0, i as int) =~= bytes@);
}

impl Profile {
    /// The record's stored bytes. A record that does not meet its bounds is
    /// refused as its input would have been at creation.
    pub fn serialize(&self) -> (r: Result<Vec<u8>, ErrorCode>)
        ensures
            r is Ok <==> self.wf(),
            !valid_handle(self.handle@) ==> r == Err::<Vec<u8>, ErrorCode>(
                ErrorCode::InvalidHandle,
            ),
            valid_handle(self.handle@) && !valid_allowlist(self.allowlist@) ==> r == Err::<
                Vec<u8>,
                ErrorCode,
            >(ErrorCode::AllowlistTooLarge),
            r matches Ok(bytes) ==> bytes@ == encoding(self@) && bytes@.len() == self.stored_len()
                && bytes@.len() <= Profile::SIZE,
    {
        if check_handle(self.handle.as_str()).is_err() {
            return Err(ErrorCode::InvalidHandle);
        }
        if check_allowlist(&self.allowlist).is_err() {
            return Err(ErrorCode::AllowlistTooLarge);
        }
        let handle_bytes = self.handle.as_str().as_bytes();
        let handle_len: u32 = handle_bytes.len() as u32;
        let count: u32 = self.allowlist.len() as u32;
        let mut out: Vec<u8> = Vec::new();
        append(&mut out, DISCRIMINATOR.as_slice());
        append(&mut out, self.owner.bytes.as_slice());
        append(&mut out, u32_to_le_bytes(handle_len).as_slice());
        append(&mut out, handle_bytes);
        append(&mut out, self.enc_pk.as_slice());
        append(&mut out, u32_to_le_bytes(count).as_slice());
        let ghost head = out@;
        let mut k: usize = 0;
        while k < self.allowlist.len()
            invariant
                k <= self.allowlist.len(),
                out@ == head + entries(self@.allowlist.subrange(0, k as int)),
            decreases self.allowlist.len() - k,
        {
            append(&mut out, self.allowlist[k].bytes.as_slice());
            k += 1;
            assert(out@ =~= head + entries(self@.allowlist.subrange(0, k as int)));
        }
        assert(self@.allowlist.subrange(0, k as int) =~= self@.allowlist);
        out.push(self.bump);
        assert(out@ =~= encoding(self@));
        Ok(out)
    }

    /// Reads a record from bytes that start with its stored form; what
    /// follows the record is not looked at. `None` where the bytes do not
    /// start with the stored form of any record that meets its bounds.
    pub fn deserialize(data: &[u8]) -> (r: Option<Profile>)
        ensures
            match r {
                Some(p) => decodes(data@, p@) && p.wf(),
                None => forall|v: ProfileView| !#[trigger] decodes(data@, v),
            },
    {
        let total: usize = data.len();
        if total < 82 {
            proof {
                lemma_unreadable(data@);
            }
            return None;
        }
        let mut i: usize = 0;
        while i < 8
            invariant
                i <= 8,
                total == data@.len(),
                total >= 82,
                forall|j: int| 0 <= j < i ==> data@[j] == DISCRIMINATOR@[j],
            decreases 8 - i,
        {
            if data[i] != DISCRIMINATOR[i] {
                proof {
                    assert(data@.subrange(0, 8)[i as int] == data@[i as int]);
                    lemma_unreadable(data@);
                }
                return None;
            }
            i += 1;
        }
        let owner = Identity::new(read_array(data, 8));
        let n: usize = u32_from_le_bytes(slice_subrange(data, 40, 44)) as usize;
        if n == 0 || n > 32 || total < 81 + n {
            proof {
                lemma_unreadable(data@);
            }
            return None;
        }
        let handle_bytes = slice_subrange(data, 44, 44 + n);
        let mut buffer: Vec<u8> = Vec::new();
        append(&mut buffer, handle_bytes);
        let handle = match string_from_utf8(buffer) {
            Some(s) => s,
            None => {
                proof {
                    lemma_unreadable(data@);
                }
                return None;
            },
        };
        let enc_pk = read_array(data, 44 + n);
        let m: usize = u32_from_le_bytes(slice_subrange(data, 76 + n, 80 + n)) as usize;
        if m > 32 || total < 81 + n + 32 * m {
            proof {
                lemma_unreadable(data@);
            }
            return None;
        }
        let mut allowlist: Vec<Identity> = Vec::new();
        let mut k: usize = 0;
        while k < m
            invariant
                k <= m,
                m <= 32,
                n <= 32,
                total == data@.len(),
                total >= 81 + n + 32 * m,
                allowlist@.len() == k,
                forall|j: int|
                    0 <= j < k ==> (#[trigger] allowlist@[j])@ == data@.subrange(
                        80 + n + 32 * j,
                        112 + n + 32 * j,
                    ),
            decreases m - k,
        {
            allowlist.push(Identity::new(read_array(data, 80 + n + 32 * k)));
            k += 1;
        }
        let bump = data[80 + n + 32 * m];
        let p = Profile { owner, handle, enc_pk, allowlist, bump };
        proof {
            lemma_auto_spec_u32_to_from_le_bytes();
            let v = p@;
            assert(encode_utf8(v.handle) == data@.subrange(44, 44 + n));
            assert(length_prefix(n as nat) == data@.subrange(40, 44));
            assert(length_prefix(m as nat) == data@.subrange(76 + n, 80 + n));
            let e = encoding(v);
            assert(e.len() == 81 + n + 32 * m);
            assert forall|x: int| 0 <= x < e.len() implies e[x] == data@[x] by {
                if x < 8 {
                } else if x < 40 {
                    assert(v.owner[x - 8] == data@[x]);
                } else if x < 44 {
                    assert(data@.subrange(40, 44)[x - 40] == data@[x]);
                } else if x < 44 + n {
                    assert(data@.subrange(44, 44 + n)[x - 44] == data@[x]);
                } else if x < 76 + n {
                    assert(v.enc_pk[x - 44 - n] == data@[x]);
                } else if x < 80 + n {
                    assert(data@.subrange(76 + n, 80 + n)[x - 76 - n] == data@[x]);
                } else if x < 80 + n + 32 * m {
                    let y = x - 80 - n;
                    let j = y / 32;
                    assert(0 <= j < m && y == 32 * j + y % 32);
                    assert(entries(v.allowlist)[y] == v.allowlist[j][y % 32]);
                    assert(v.allowlist[j] == allowlist@[j]@);
                    assert(data@.subrange(80 + n + 32 * j, 112 + n + 32 * j)[y % 32] == data@[x]);
                } else {
                }
            }
            assert(e =~= data@.subrange(0, e.len() as int));
        }
        Some(p)
    }
}

} // verus!
