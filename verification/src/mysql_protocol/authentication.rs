//! The MySQL initial handshake packet and the `caching_sha2_password`
//! password transformations.
use vstd::prelude::*;
use vstd::utf8::*;

use crate::crypto::{sha256, sha256_digest};
use crate::error::DbError;
use crate::text::{owned, utf8_to_string};
use crate::wire::{append_bytes, xor_bytes, xor_slices, le2, le4, lemma_nul_index, nul_index, read_le_u16, read_le_u32, find_nul};

verus! {

/// The fields of the server's initial handshake packet.
pub struct Handshake {
    pub server_version: String,
    pub connection_id: u32,
    pub capability_flags: u32,
    pub character_set: u8,
    pub status_flags: u16,
    pub auth_plugin_data: Vec<u8>,
    pub auth_plugin_name: String,
}

/// A handshake as plain values.
#[verifier::ext_equal]
pub struct HandshakeView {
    pub server_version: Seq<char>,
    pub connection_id: u32,
    pub capability_flags: u32,
    pub character_set: u8,
    pub status_flags: u16,
    pub auth_plugin_data: Seq<u8>,
    pub auth_plugin_name: Seq<char>,
}

impl View for Handshake {
    type V = HandshakeView;

    open spec fn view(&self) -> HandshakeView {
        HandshakeView {
            server_version: self.server_version@,
            connection_id: self.connection_id,
            capability_flags: self.capability_flags,
            character_set: self.character_set,
            status_flags: self.status_flags,
            auth_plugin_data: self.auth_plugin_data@,
            auth_plugin_name: self.auth_plugin_name@,
        }
    }
}

pub open spec fn msg_unexpected_end() -> Seq<char> {
    "Unexpected end of MySQL handshake"@
}

pub open spec fn msg_missing_nul() -> Seq<char> {
    "Missing NUL terminator in MySQL handshake"@
}

pub open spec fn msg_invalid_utf8() -> Seq<char> {
    "Invalid UTF-8 in MySQL handshake"@
}

/// A NUL-terminated UTF-8 string starting at `start`: its characters and the
/// offset just past the NUL.
pub open spec fn spec_read_null_string(p: Seq<u8>, start: int) -> Result<(Seq<char>, int), Seq<char>> {
    match nul_index(p, start) {
        None => Err(msg_missing_nul()),
        Some(z) => if valid_utf8(p.subrange(start, z)) {
            Ok((decode_utf8(p.subrange(start, z)), z + 1))
        } else {
            Err(msg_invalid_utf8())
        },
    }
}

/// `s` without its trailing zero bytes.
pub open spec fn strip_trailing_zeros(s: Seq<u8>) -> Seq<u8>
    decreases s.len(),
{
    if s.len() > 0 && s.last() == 0 {
        strip_trailing_zeros(s.drop_last())
    } else {
        s
    }
}

/// The handshake packet layout: server version (NUL-terminated), connection
/// id (u32 LE), 8 bytes of auth data, a filler byte, lower capability flags
/// (u16 LE), character set, status flags (u16 LE), upper capability flags
/// (u16 LE), the auth data length, 10 reserved bytes, the rest of the auth
/// data (length minus 8, as far as the packet reaches), and optionally the
/// NUL-terminated auth plugin name. Trailing zeros of the auth data are
/// dropped.
pub open spec fn spec_handshake(p: Seq<u8>) -> Result<HandshakeView, Seq<char>> {
    match spec_read_null_string(p, 0) {
        Err(m) => Err(m),
        Ok((version, o1)) => if o1 + 31 > p.len() {
            Err(msg_unexpected_end())
        } else {
            let o4 = o1 + 31;
            let alen = p[o1 + 20] as int;
            let remaining = if alen > 8 { alen - 8 } else { 0 };
            let length = if remaining < p.len() - o4 { remaining } else { p.len() - o4 };
            let data = strip_trailing_zeros(
                p.subrange(o1 + 4, o1 + 12) + p.subrange(o4, o4 + length),
            );
            let o5 = o4 + length;
            let name = if o5 < p.len() {
                spec_read_null_string(p, o5)
            } else {
                Ok((Seq::<char>::empty(), o5))
            };
            match name {
                Err(m) => Err(m),
                Ok((n, _)) => Ok(
                    HandshakeView {
                        server_version: version,
                        connection_id: le4(p, o1) as u32,
                        capability_flags: (le2(p, o1 + 18) * 0x1_0000 + le2(p, o1 + 13)) as u32,
                        character_set: p[o1 + 15],
                        status_flags: le2(p, o1 + 16) as u16,
                        auth_plugin_data: data,
                        auth_plugin_name: n,
                    },
                ),
            }
        },
    }
}

/// The `caching_sha2_password` fast-path scramble:
/// `SHA256(p) XOR SHA256(SHA256(SHA256(p)) ++ nonce)`.
pub open spec fn spec_scramble(password: Seq<u8>, nonce: Seq<u8>) -> Seq<u8> {
    xor_bytes(sha256(password), sha256(sha256(sha256(password)) + nonce))
}

/// The password bytes followed by a NUL, each XORed with the nonce repeated
/// cyclically.
pub open spec fn spec_prepare_password(password: Seq<u8>, nonce: Seq<u8>) -> Seq<u8> {
    let data = password.push(0u8);
    Seq::new(data.len(), |i: int| data[i] ^ nonce[i % nonce.len() as int])
}

impl Handshake {
    /// Parses the server's initial handshake packet.
    pub fn parse(payload: &[u8]) -> (r: Result<Self, DbError>)
        ensures
            match (r, spec_handshake(payload@)) {
                (Ok(h), Ok(v)) => h@ == v,
                (Err(e), Err(m)) => e.message@ == m,
                _ => false,
            },
    {
        let mut offset: usize = 0;
        let server_version = Self::read_null_string(payload, &mut offset)?;
        let ghost o1 = offset as int;
        let connection_id = Self::read_u32_le(payload, &mut offset)?;
        if payload.len() < 8 || offset > payload.len() - 8 {
            return Err(DbError::new(owned("Unexpected end of MySQL handshake")));
        }
        let mut auth_plugin_data = vstd::slice::slice_to_vec(&payload[offset..offset + 8]);
        offset += 8;
        if offset >= payload.len() {
            return Err(DbError::new(owned("Unexpected end of MySQL handshake")));
        }
        // Filler
        offset += 1;
        let capability_flags_lower = Self::read_u16_le(payload, &mut offset)?;
        if offset >= payload.len() {
            return Err(DbError::new(owned("Unexpected end of MySQL handshake")));
        }
        let character_set = payload[offset];
        offset += 1;
        let status_flags = Self::read_u16_le(payload, &mut offset)?;
        let capability_flags_upper = Self::read_u16_le(payload, &mut offset)?;
        let capability_flags = capability_flags_upper as u32 * 0x1_0000
            + capability_flags_lower as u32;
        if offset >= payload.len() {
            return Err(DbError::new(owned("Unexpected end of MySQL handshake")));
        }
        let auth_plugin_data_len = payload[offset];
        offset += 1;
        // Reserved
        if payload.len() < 10 || offset > payload.len() - 10 {
            return Err(DbError::new(owned("Unexpected end of MySQL handshake")));
        }
        offset += 10;
        let auth_plugin_data_len = auth_plugin_data_len as usize;
        let remaining_auth_data_len = auth_plugin_data_len.saturating_sub(8);
        let available = payload.len() - offset;
        let length = if remaining_auth_data_len < available {
            remaining_auth_data_len
        } else {
            available
        };
        append_bytes(&mut auth_plugin_data, &payload[offset..offset + length]);
        offset += length;
        let ghost joined = auth_plugin_data@;
        assert(joined =~= payload@.subrange(o1 + 4, o1 + 12) + payload@.subrange(
            o1 + 31,
            o1 + 31 + length,
        ));
        while auth_plugin_data.len() > 0 && auth_plugin_data[auth_plugin_data.len() - 1] == 0
            invariant
                strip_trailing_zeros(auth_plugin_data@) == strip_trailing_zeros(joined),
            decreases auth_plugin_data@.len(),
        {
            auth_plugin_data.pop();
        }
        assert(strip_trailing_zeros(auth_plugin_data@) == auth_plugin_data@);
        let auth_plugin_name = if offset < payload.len() {
            Self::read_null_string(payload, &mut offset)?
        } else {
            String::new()
        };
        Ok(
            Self {
                server_version,
                connection_id,
                capability_flags,
                character_set,
                status_flags,
                auth_plugin_data,
                auth_plugin_name,
            },
        )
    }

    fn read_null_string(payload: &[u8], offset: &mut usize) -> (r: Result<String, DbError>)
        requires
            *old(offset) <= payload@.len(),
        ensures
            match (r, spec_read_null_string(payload@, *old(offset) as int)) {
                (Ok(s), Ok((v, next))) => s@ == v && *final(offset) == next,
                (Err(e), Err(m)) => e.message@ == m,
                _ => false,
            },
            *final(offset) <= payload@.len(),
    {
        let start = *offset;
        let _len = payload.len();
        proof {
            lemma_nul_index(payload@, start as int);
        }
        match find_nul(payload, start) {
            Some(z) => {
                match utf8_to_string(&payload[start..z]) {
                    Some(value) => {
                        *offset = z + 1;
                        Ok(value)
                    },
                    None => Err(DbError::new(owned("Invalid UTF-8 in MySQL handshake"))),
                }
            },
            None => Err(DbError::new(owned("Missing NUL terminator in MySQL handshake"))),
        }
    }

    fn read_u32_le(payload: &[u8], offset: &mut usize) -> (r: Result<u32, DbError>)
        requires
            *old(offset) <= payload@.len(),
        ensures
            *old(offset) + 4 > payload@.len() ==> (r matches Err(e) && e.message@
                == msg_unexpected_end() && *final(offset) == *old(offset)),
            *old(offset) + 4 <= payload@.len() ==> r == Ok::<u32, DbError>(
                le4(payload@, *old(offset) as int) as u32,
            ) && *final(offset) == *old(offset) + 4,
    {
        if payload.len() < 4 || *offset > payload.len() - 4 {
            return Err(DbError::new(owned("Unexpected end of MySQL handshake")));
        }
        let value = read_le_u32(payload, *offset);
        *offset += 4;
        Ok(value)
    }

    fn read_u16_le(payload: &[u8], offset: &mut usize) -> (r: Result<u16, DbError>)
        requires
            *old(offset) <= payload@.len(),
        ensures
            *old(offset) + 2 > payload@.len() ==> (r matches Err(e) && e.message@
                == msg_unexpected_end() && *final(offset) == *old(offset)),
            *old(offset) + 2 <= payload@.len() ==> r == Ok::<u16, DbError>(
                le2(payload@, *old(offset) as int) as u16,
            ) && *final(offset) == *old(offset) + 2,
    {
        if payload.len() < 2 || *offset > payload.len() - 2 {
            return Err(DbError::new(owned("Unexpected end of MySQL handshake")));
        }
        let value = read_le_u16(payload, *offset);
        *offset += 2;
        Ok(value)
    }

    /// The `caching_sha2_password` scramble of `password` with the server's
    /// nonce.
    pub fn scramble_password(password: &str, auth_plugin_data: &[u8]) -> (r: Vec<u8>)
        ensures
            r@ == spec_scramble(encode_utf8(password@), auth_plugin_data@),
    {
        let password_hash = sha256_digest(password.as_bytes());
        let password_hash_hash = sha256_digest(password_hash.as_slice());
        let mut input: Vec<u8> = Vec::new();
        append_bytes(&mut input, password_hash_hash.as_slice());
        append_bytes(&mut input, auth_plugin_data);
        let scramble_hash = sha256_digest(input.as_slice());
        xor_slices(password_hash.as_slice(), scramble_hash.as_slice())
    }

    /// The password, NUL-terminated, XORed with the nonce repeated
    /// cyclically (the input of the RSA-encrypted full authentication).
    pub fn prepare_password(password: &str, auth_plugin_data: &[u8]) -> (r: Vec<u8>)
        requires
            auth_plugin_data@.len() > 0,
        ensures
            r@ == spec_prepare_password(encode_utf8(password@), auth_plugin_data@),
    {
        let pw = password.as_bytes();
        let mut out: Vec<u8> = Vec::new();
        let n = auth_plugin_data.len();
        let mut i: usize = 0;
        while i < pw.len()
            invariant
                i <= pw@.len(),
                n == auth_plugin_data@.len(),
                n > 0,
                out@.len() == i,
                forall|k: int| 0 <= k < i ==> out@[k] == pw@[k] ^ auth_plugin_data@[k % n as int],
            decreases pw@.len() - i,
        {
            out.push(pw[i] ^ auth_plugin_data[i % n]);
            i = i + 1;
        }
        out.push(0u8 ^ auth_plugin_data[i % n]);
        assert(out@ =~= spec_prepare_password(pw@, auth_plugin_data@));
        out
    }

    /// Reads the server's RSA public key (PEM text).
    pub fn parse_public_key(payload: &[u8]) -> (r: Result<String, DbError>)
        ensures
            valid_utf8(payload@) ==> (r matches Ok(s) && s@ == decode_utf8(payload@)),
            !valid_utf8(payload@) ==> (r matches Err(e) && e.message@
                == "Invalid UTF-8 in MySQL RSA public key"@),
    {
        match utf8_to_string(payload) {
            Some(s) => Ok(s),
            None => Err(DbError::new(owned("Invalid UTF-8 in MySQL RSA public key"))),
        }
    }
}

} // verus!
