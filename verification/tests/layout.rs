use anchor_lang::prelude::{borsh, Pubkey};
use profile_store::layout::DISCRIMINATOR;
use profile_store::{ErrorCode, Identity, Profile};

fn id(n: u8) -> Identity {
    Identity::new([n; 32])
}

fn many(n: usize) -> Vec<Identity> {
    let mut list = Vec::new();
    for i in 0..n {
        list.push(id(i as u8));
    }
    list
}

fn alice() -> Profile {
    Profile {
        owner: id(1),
        handle: "alice".to_string(),
        enc_pk: [2u8; 32],
        allowlist: vec![id(0xa), id(0xb)],
        bump: 253,
    }
}

fn alice_bytes() -> Vec<u8> {
    let mut bytes = vec![184, 101, 165, 188, 95, 63, 127, 188];
    bytes.extend_from_slice(&[1u8; 32]);
    bytes.extend_from_slice(&[5, 0, 0, 0]);
    bytes.extend_from_slice(b"alice");
    bytes.extend_from_slice(&[2u8; 32]);
    bytes.extend_from_slice(&[2, 0, 0, 0]);
    bytes.extend_from_slice(&[0xau8; 32]);
    bytes.extend_from_slice(&[0xbu8; 32]);
    bytes.push(253);
    bytes
}

fn largest() -> Profile {
    Profile {
        owner: id(1),
        handle: "h".repeat(32),
        enc_pk: [2u8; 32],
        allowlist: many(32),
        bump: 7,
    }
}

/// SHA-256 of a message shorter than 56 bytes, which fits one block.
fn sha256_short(message: &[u8]) -> [u8; 32] {
    const K: [u32; 64] = [
        0x428a2f98, 0x71374491, 0xb5c0fbcf, 0xe9b5dba5, 0x3956c25b, 0x59f111f1, 0x923f82a4,
        0xab1c5ed5, 0xd807aa98, 0x12835b01, 0x243185be, 0x550c7dc3, 0x72be5d74, 0x80deb1fe,
        0x9bdc06a7, 0xc19bf174, 0xe49b69c1, 0xefbe4786, 0x0fc19dc6, 0x240ca1cc, 0x2de92c6f,
        0x4a7484aa, 0x5cb0a9dc, 0x76f988da, 0x983e5152, 0xa831c66d, 0xb00327c8, 0xbf597fc7,
        0xc6e00bf3, 0xd5a79147, 0x06ca6351, 0x14292967, 0x27b70a85, 0x2e1b2138, 0x4d2c6dfc,
        0x53380d13, 0x650a7354, 0x766a0abb, 0x81c2c92e, 0x92722c85, 0xa2bfe8a1, 0xa81a664b,
        0xc24b8b70, 0xc76c51a3, 0xd192e819, 0xd6990624, 0xf40e3585, 0x106aa070, 0x19a4c116,
        0x1e376c08, 0x2748774c, 0x34b0bcb5, 0x391c0cb3, 0x4ed8aa4a, 0x5b9cca4f, 0x682e6ff3,
        0x748f82ee, 0x78a5636f, 0x84c87814, 0x8cc70208, 0x90befffa, 0xa4506ceb, 0xbef9a3f7,
        0xc67178f2,
    ];
    assert!(message.len() < 56);
    let mut block = [0u8; 64];
    block[..message.len()].copy_from_slice(message);
    block[message.len()] = 0x80;
    block[56..].copy_from_slice(&((message.len() as u64) * 8).to_be_bytes());
    let mut w = [0u32; 64];
    for i in 0..16 {
        let at = 4 * i;
        w[i] = u32::from_be_bytes([block[at], block[at + 1], block[at + 2], block[at + 3]]);
    }
    for i in 16..64 {
        let s0 = w[i - 15].rotate_right(7) ^ w[i - 15].rotate_right(18) ^ (w[i - 15] >> 3);
        let s1 = w[i - 2].rotate_right(17) ^ w[i - 2].rotate_right(19) ^ (w[i - 2] >> 10);
        w[i] = w[i - 16].wrapping_add(s0).wrapping_add(w[i - 7]).wrapping_add(s1);
    }
    let mut h: [u32; 8] = [
        0x6a09e667, 0xbb67ae85, 0x3c6ef372, 0xa54ff53a, 0x510e527f, 0x9b05688c, 0x1f83d9ab,
        0x5be0cd19,
    ];
    let mut v = h;
    for i in 0..64 {
        let s1 = v[4].rotate_right(6) ^ v[4].rotate_right(11) ^ v[4].rotate_right(25);
        let ch = (v[4] & v[5]) ^ (!v[4] & v[6]);
        let t1 = v[7].wrapping_add(s1).wrapping_add(ch).wrapping_add(K[i]).wrapping_add(w[i]);
        let s0 = v[0].rotate_right(2) ^ v[0].rotate_right(13) ^ v[0].rotate_right(22);
        let maj = (v[0] & v[1]) ^ (v[0] & v[2]) ^ (v[1] & v[2]);
        let t2 = s0.wrapping_add(maj);
        v = [t1.wrapping_add(t2), v[0], v[1], v[2], v[3].wrapping_add(t1), v[4], v[5], v[6]];
    }
    let mut out = [0u8; 32];
    for i in 0..8 {
        h[i] = h[i].wrapping_add(v[i]);
        out[4 * i..4 * i + 4].copy_from_slice(&h[i].to_be_bytes());
    }
    out
}

#[test]
fn the_tag_has_its_eight_bytes() {
    assert_eq!(DISCRIMINATOR, [184, 101, 165, 188, 95, 63, 127, 188]);
}

#[test]
fn the_tag_is_the_start_of_a_digest() {
    // the digest of "abc", to hold the digest itself to a known value
    assert_eq!(
        sha256_short(b"abc")[..8],
        [0xba, 0x78, 0x16, 0xbf, 0x8f, 0x01, 0xcf, 0xea]
    );
    assert_eq!(sha256_short(b"account:Profile")[..8], DISCRIMINATOR);
}

#[test]
fn stored_bytes_of_alice() {
    let bytes = alice().serialize().unwrap();
    assert_eq!(bytes.len(), 8 + 32 + 4 + 5 + 32 + 4 + 64 + 1);
    assert_eq!(bytes, alice_bytes());
}

#[test]
fn stored_bytes_of_an_empty_allowlist() {
    let record = Profile { allowlist: vec![], ..alice() };
    let bytes = record.serialize().unwrap();
    assert_eq!(bytes.len(), 86);
    assert_eq!(&bytes[81..85], &[0, 0, 0, 0]);
    assert_eq!(bytes[85], 253);
}

#[test]
fn stored_bytes_follow_the_framework_encoding() {
    for record in [alice(), largest(), Profile { handle: "zoë".to_string(), ..alice() }] {
        let fields = (
            Pubkey::new_from_array(record.owner.to_bytes()),
            record.handle.clone(),
            record.enc_pk,
            record
                .allowlist
                .iter()
                .map(|entry| Pubkey::new_from_array(entry.to_bytes()))
                .collect::<Vec<Pubkey>>(),
            record.bump,
        );
        let mut expected = DISCRIMINATOR.to_vec();
        expected.extend_from_slice(&borsh::to_vec(&fields).unwrap());
        assert_eq!(record.serialize().unwrap(), expected);
    }
}

#[test]
fn the_largest_record_fills_the_reserved_space() {
    let bytes = largest().serialize().unwrap();
    assert_eq!(bytes.len(), 1137);
    assert_eq!(bytes.len(), Profile::SIZE);
    assert_eq!(&bytes[0..8], &DISCRIMINATOR);
    assert_eq!(&bytes[8..40], &[1u8; 32]);
    assert_eq!(&bytes[40..44], &[32, 0, 0, 0]);
    assert_eq!(&bytes[44..76], "h".repeat(32).as_bytes());
    assert_eq!(&bytes[76..108], &[2u8; 32]);
    assert_eq!(&bytes[108..112], &[32, 0, 0, 0]);
    assert_eq!(&bytes[112..144], &[0u8; 32]);
    assert_eq!(&bytes[1104..1136], &[31u8; 32]);
    assert_eq!(bytes[1136], 7);
}

#[test]
fn a_record_out_of_bounds_is_not_stored() {
    let no_handle = Profile { handle: String::new(), ..alice() };
    assert_eq!(no_handle.serialize(), Err(ErrorCode::InvalidHandle));
    let long_handle = Profile { handle: "h".repeat(33), ..alice() };
    assert_eq!(long_handle.serialize(), Err(ErrorCode::InvalidHandle));
    let long_list = Profile { allowlist: many(33), ..alice() };
    assert_eq!(long_list.serialize(), Err(ErrorCode::AllowlistTooLarge));
    let both = Profile { handle: String::new(), allowlist: many(33), ..alice() };
    assert_eq!(both.serialize(), Err(ErrorCode::InvalidHandle));
    assert_eq!(Profile::blank().serialize(), Err(ErrorCode::InvalidHandle));
}

#[test]
fn what_was_stored_is_read_back() {
    for record in [
        alice(),
        largest(),
        Profile { allowlist: vec![], ..alice() },
        Profile { handle: "zoë".to_string(), ..alice() },
        Profile { handle: "é".repeat(16), bump: 0, ..alice() },
    ] {
        let bytes = record.serialize().unwrap();
        assert_eq!(Profile::deserialize(&bytes), Some(record));
    }
}

#[test]
fn reading_ignores_what_follows_the_record() {
    let mut data = alice().serialize().unwrap();
    data.resize(Profile::SIZE, 0);
    assert_eq!(data.len(), 1137);
    assert_eq!(Profile::deserialize(&data), Some(alice()));

    let mut data = alice().serialize().unwrap();
    data.extend_from_slice(&[0xffu8; 40]);
    assert_eq!(Profile::deserialize(&data), Some(alice()));
}

#[test]
fn reading_the_known_bytes_of_alice() {
    assert_eq!(Profile::deserialize(&alice_bytes()), Some(alice()));
}

#[test]
fn reading_refuses_blank_or_short_storage() {
    assert_eq!(Profile::deserialize(&[]), None);
    assert_eq!(Profile::deserialize(&[0u8; 1137]), None);
    assert_eq!(Profile::deserialize(&DISCRIMINATOR), None);
    let bytes = alice_bytes();
    for cut in 0..bytes.len() {
        assert_eq!(Profile::deserialize(&bytes[..cut]), None);
    }
}

#[test]
fn reading_refuses_another_tag() {
    for i in 0..8 {
        let mut bytes = alice_bytes();
        bytes[i] ^= 1;
        assert_eq!(Profile::deserialize(&bytes), None);
    }
}

#[test]
fn reading_refuses_a_handle_out_of_bounds() {
    // a length of zero
    let mut bytes = alice_bytes();
    bytes[40] = 0;
    bytes.resize(1137, 0);
    assert_eq!(Profile::deserialize(&bytes), None);

    // a length of 33, with room for it
    let mut bytes = vec![184, 101, 165, 188, 95, 63, 127, 188];
    bytes.extend_from_slice(&[1u8; 32]);
    bytes.extend_from_slice(&[33, 0, 0, 0]);
    bytes.extend_from_slice(&[b'h'; 33]);
    bytes.extend_from_slice(&[2u8; 32]);
    bytes.extend_from_slice(&[0, 0, 0, 0]);
    bytes.push(253);
    bytes.resize(1137, 0);
    assert_eq!(Profile::deserialize(&bytes), None);

    // a length whose higher bytes are set
    let mut bytes = alice_bytes();
    bytes[41] = 1;
    bytes.resize(2000, 0);
    assert_eq!(Profile::deserialize(&bytes), None);
}

#[test]
fn reading_refuses_a_handle_that_is_not_utf8() {
    let mut bytes = alice_bytes();
    bytes[44] = 0xff;
    assert_eq!(Profile::deserialize(&bytes), None);

    // the first byte of a character of two bytes, cut off by the length
    let mut bytes = alice_bytes();
    bytes[48] = 0xc3;
    assert_eq!(Profile::deserialize(&bytes), None);
}

#[test]
fn reading_refuses_an_allowlist_out_of_bounds() {
    let mut bytes = vec![184, 101, 165, 188, 95, 63, 127, 188];
    bytes.extend_from_slice(&[1u8; 32]);
    bytes.extend_from_slice(&[5, 0, 0, 0]);
    bytes.extend_from_slice(b"alice");
    bytes.extend_from_slice(&[2u8; 32]);
    bytes.extend_from_slice(&[33, 0, 0, 0]);
    bytes.extend_from_slice(&[9u8; 33 * 32]);
    bytes.push(253);
    assert_eq!(Profile::deserialize(&bytes), None);

    // one entry fewer than the length says
    let mut bytes = alice_bytes();
    bytes.truncate(bytes.len() - 32);
    assert_eq!(Profile::deserialize(&bytes), None);
}
