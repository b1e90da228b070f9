//! The PostgreSQL authentication request (`R` message) payloads.
use vstd::prelude::*;
use vstd::utf8::*;

use crate::error::DbError;
use crate::text::{owned, utf8_to_string};
use crate::wire::{be4, find_nul, lemma_nul_index, nul_index, read_be_u32};

verus! {

/// The authentication method a server requests.
pub enum AuthKind {
    AuthenticationOk,
    KerberosV5,
    ClearTextPassword,
    MD5Password([u8; 4]),
    SASL(Vec<String>),
    SASLContinue(String),
    SASLFinal(String),
    Unknown(u32),
}

/// An authentication request as plain values.
#[verifier::ext_equal]
pub enum AuthKindView {
    AuthenticationOk,
    KerberosV5,
    ClearTextPassword,
    MD5Password(Seq<u8>),
    SASL(Seq<Seq<char>>),
    SASLContinue(Seq<char>),
    SASLFinal(Seq<char>),
    Unknown(u32),
}

/// The views of a sequence of strings.
pub open spec fn strings_view(v: Seq<String>) -> Seq<Seq<char>> {
    v.map_values(|s: String| s@)
}

impl View for AuthKind {
    type V = AuthKindView;

    open spec fn view(&self) -> AuthKindView {
        match self {
            AuthKind::AuthenticationOk => AuthKindView::AuthenticationOk,
            AuthKind::KerberosV5 => AuthKindView::KerberosV5,
            AuthKind::ClearTextPassword => AuthKindView::ClearTextPassword,
            AuthKind::MD5Password(salt) => AuthKindView::MD5Password(salt@),
            AuthKind::SASL(m) => AuthKindView::SASL(strings_view(m@)),
            AuthKind::SASLContinue(s) => AuthKindView::SASLContinue(s@),
            AuthKind::SASLFinal(s) => AuthKindView::SASLFinal(s@),
            AuthKind::Unknown(t) => AuthKindView::Unknown(*t),
        }
    }
}

/// NUL-terminated mechanism names from `start`, up to an empty name or the
/// last NUL; bytes after the last NUL are ignored.
pub open spec fn spec_mechanisms_from(p: Seq<u8>, start: int) -> Result<Seq<Seq<char>>, Seq<char>>
    decreases p.len() - start,
{
    if start < 0 {
        Ok(seq![])
    } else {
        match nul_index(p, start) {
            None => Ok(seq![]),
            Some(z) => if z <= start || z >= p.len() {
                Ok(seq![])
            } else if !valid_utf8(p.subrange(start, z)) {
                Err("Invalid UTF-8 in SASL mechanism"@)
            } else {
                match spec_mechanisms_from(p, z + 1) {
                    Err(m) => Err(m),
                    Ok(rest) => Ok(seq![decode_utf8(p.subrange(start, z))] + rest),
                }
            },
        }
    }
}

/// The SASL mechanism list of an `AuthenticationSASL` request; it must name
/// at least one mechanism.
pub open spec fn spec_sasl_mechanisms(p: Seq<u8>) -> Result<Seq<Seq<char>>, Seq<char>> {
    match spec_mechanisms_from(p, 0) {
        Err(m) => Err(m),
        Ok(ms) => if ms.len() == 0 {
            Err("No SASL mechanisms found"@)
        } else {
            Ok(ms)
        },
    }
}

/// An authentication request payload: a 32-bit big-endian request code and
/// its data.
pub open spec fn spec_auth_kind(p: Seq<u8>) -> Result<AuthKindView, Seq<char>> {
    if p.len() < 4 {
        Err("Invalid authentication message"@)
    } else {
        let t = be4(p, 0) as u32;
        if t == 0 {
            Ok(AuthKindView::AuthenticationOk)
        } else if t == 2 {
            Ok(AuthKindView::KerberosV5)
        } else if t == 3 {
            Ok(AuthKindView::ClearTextPassword)
        } else if t == 5 {
            if p.len() < 8 {
                Err("Invalid MD5 authentication payload"@)
            } else {
                Ok(AuthKindView::MD5Password(p.subrange(4, 8)))
            }
        } else if t == 10 {
            match spec_sasl_mechanisms(p.skip(4)) {
                Err(m) => Err(m),
                Ok(ms) => Ok(AuthKindView::SASL(ms)),
            }
        } else if t == 11 {
            if valid_utf8(p.skip(4)) {
                Ok(AuthKindView::SASLContinue(decode_utf8(p.skip(4))))
            } else {
                Err("Invalid UTF-8 in SASL continue message"@)
            }
        } else if t == 12 {
            if valid_utf8(p.skip(4)) {
                Ok(AuthKindView::SASLFinal(decode_utf8(p.skip(4))))
            } else {
                Err("Invalid UTF-8 in SASL final message"@)
            }
        } else {
            Ok(AuthKindView::Unknown(t))
        }
    }
}

impl AuthKind {
    /// Parses the payload of an authentication request.
    pub fn parse(payload: &[u8]) -> (r: Result<Self, DbError>)
        ensures
            match (r, spec_auth_kind(payload@)) {
                (Ok(a), Ok(v)) => a@ == v,
                (Err(e), Err(m)) => e.message@ == m,
                _ => false,
            },
    {
        if payload.len() < 4 {
            return Err(DbError::new(owned("Invalid authentication message")));
        }
        let auth_type = read_be_u32(payload, 0);
        match auth_type {
            0 => Ok(Self::AuthenticationOk),
            2 => Ok(Self::KerberosV5),
            3 => Ok(Self::ClearTextPassword),
            5 => {
                if payload.len() < 8 {
                    return Err(DbError::new(owned("Invalid MD5 authentication payload")));
                }
                let salt: [u8; 4] = [payload[4], payload[5], payload[6], payload[7]];
                assert(salt@ =~= payload@.subrange(4, 8));
                Ok(Self::MD5Password(salt))
            },
            10 => {
                let mechanisms = Self::parse_sasl_mechanisms(&payload[4..payload.len()])?;
                Ok(Self::SASL(mechanisms))
            },
            11 => {
                let message = Self::parse_sasl_continue(&payload[4..payload.len()])?;
                Ok(Self::SASLContinue(message))
            },
            12 => {
                let message = Self::parse_sasl_final(&payload[4..payload.len()])?;
                Ok(Self::SASLFinal(message))
            },
            other => Ok(Self::Unknown(other)),
        }
    }

    fn parse_sasl_mechanisms(payload: &[u8]) -> (r: Result<Vec<String>, DbError>)
        ensures
            match (r, spec_sasl_mechanisms(payload@)) {
                (Ok(ms), Ok(v)) => strings_view(ms@) == v,
                (Err(e), Err(m)) => e.message@ == m,
                _ => false,
            },
    {
        let mut mechanisms: Vec<String> = Vec::new();
        let mut start: usize = 0;
        let len = payload.len();
        assert(strings_view(mechanisms@) =~= seq![]);
        loop
            invariant
                len == payload@.len(),
                start <= payload@.len(),
                spec_mechanisms_from(payload@, 0) == match spec_mechanisms_from(
                    payload@,
                    start as int,
                ) {
                    Ok(rest) => Ok(strings_view(mechanisms@) + rest),
                    Err(m) => Err(m),
                },
            ensures
                spec_mechanisms_from(payload@, 0) == Ok::<Seq<Seq<char>>, Seq<char>>(
                    strings_view(mechanisms@),
                ),
            decreases payload@.len() - start,
        {
            proof {
                lemma_nul_index(payload@, start as int);
            }
            match find_nul(payload, start) {
                None => {
                    assert(strings_view(mechanisms@) + seq![] =~= strings_view(mechanisms@));
                    break ;
                },
                Some(i) => {
                    if i == start {
                        assert(strings_view(mechanisms@) + seq![] =~= strings_view(mechanisms@));
                        break ;
                    }
                    let ghost before = strings_view(mechanisms@);
                    match utf8_to_string(&payload[start..i]) {
                        None => {
                            return Err(DbError::new(owned("Invalid UTF-8 in SASL mechanism")));
                        },
                        Some(mechanism) => {
                            let ghost mv = mechanism@;
                            mechanisms.push(mechanism);
                            assert(strings_view(mechanisms@) =~= before.push(mv));
                            proof {
                                match spec_mechanisms_from(payload@, i + 1) {
                                    Ok(rest) => {
                                        assert(before + (seq![mv] + rest) =~= before.push(mv)
                                            + rest);
                                    },
                                    Err(_) => {},
                                }
                            }
                            start = i + 1;
                        },
                    }
                },
            }
        }
        if mechanisms.len() == 0 {
            return Err(DbError::new(owned("No SASL mechanisms found")));
        }
        Ok(mechanisms)
    }

    fn parse_sasl_continue(payload: &[u8]) -> (r: Result<String, DbError>)
        ensures
            valid_utf8(payload@) ==> (r matches Ok(s) && s@ == decode_utf8(payload@)),
            !valid_utf8(payload@) ==> (r matches Err(e) && e.message@
                == "Invalid UTF-8 in SASL continue message"@),
    {
        match utf8_to_string(payload) {
            Some(message) => Ok(message),
            None => Err(DbError::new(owned("Invalid UTF-8 in SASL continue message"))),
        }
    }

    fn parse_sasl_final(payload: &[u8]) -> (r: Result<String, DbError>)
        ensures
            valid_utf8(payload@) ==> (r matches Ok(s) && s@ == decode_utf8(payload@)),
            !valid_utf8(payload@) ==> (r matches Err(e) && e.message@
                == "Invalid UTF-8 in SASL final message"@),
    {
        match utf8_to_string(payload) {
            Some(message) => Ok(message),
            None => Err(DbError::new(owned("Invalid UTF-8 in SASL final message"))),
        }
    }
}

} // verus!
