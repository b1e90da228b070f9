//! The client side of SCRAM-SHA-256 (RFC 5802, RFC 7677) as PostgreSQL uses
//! it, without channel binding.
use vstd::prelude::*;
use vstd::string::StrSliceExecFns;
use vstd::utf8::*;

use crate::crypto::{
    base64_decode,
    base64_encode,
    base64_standard_decode,
    base64_standard_encode,
    hmac_sha256,
    hmac_sha256_mac,
    is_ascii_alphanumeric,
    pbkdf2_hmac_sha256,
    pbkdf2_sha256,
    random_alphanumeric,
    sha256,
    sha256_digest,
};
use crate::error::DbError;
use crate::numeric::{parse_unsigned, spec_parse_unsigned};
use crate::text::{owned, push_char, push_str};
use crate::wire::{bytes_equal, xor_bytes, xor_slices};

verus! {

pub struct ScramClient {
    username: String,
    password: String,
    client_nonce: String,
    server_nonce: Option<String>,
    salt: Option<String>,
    iterations: Option<u32>,
    server_first_message: Option<String>,
}

/// The state of a SCRAM exchange as plain values.
#[verifier::ext_equal]
pub struct ScramView {
    pub username: Seq<char>,
    pub password: Seq<char>,
    pub client_nonce: Seq<char>,
    pub server_nonce: Option<Seq<char>>,
    pub salt: Option<Seq<char>>,
    pub iterations: Option<u32>,
    pub server_first_message: Option<Seq<char>>,
}

pub open spec fn opt_view(o: Option<String>) -> Option<Seq<char>> {
    match o {
        Some(s) => Some(s@),
        None => None,
    }
}

impl View for ScramClient {
    type V = ScramView;

    closed spec fn view(&self) -> ScramView {
        ScramView {
            username: self.username@,
            password: self.password@,
            client_nonce: self.client_nonce@,
            server_nonce: opt_view(self.server_nonce),
            salt: opt_view(self.salt),
            iterations: self.iterations,
            server_first_message: opt_view(self.server_first_message),
        }
    }
}

/// The fields that a server-first-message carries: nonce, salt, iterations.
pub type FirstFields = (Option<Seq<char>>, Option<Seq<char>>, Option<u32>);

/// A client nonce as generated: 32 ASCII letters and digits.
pub open spec fn is_client_nonce(n: Seq<char>) -> bool {
    n.len() == 32 && forall|i: int|
        0 <= i < n.len() ==> is_ascii_alphanumeric(#[trigger] n[i] as u8) && (n[i] as u32) < 128
}

/// `n,,n=<username>,r=<client nonce>`
pub open spec fn spec_first_message(v: ScramView) -> Seq<char> {
    "n,,n="@ + v.username + ",r="@ + v.client_nonce
}

/// The first index at or after `i` holding `c`.
pub open spec fn char_pos(s: Seq<char>, c: char, i: int) -> Option<int>
    decreases s.len() - i,
{
    if i < 0 || i >= s.len() {
        None
    } else if s[i] == c {
        Some(i)
    } else {
        char_pos(s, c, i + 1)
    }
}

/// The end of the comma-separated part that starts at `i`.
pub open spec fn part_end(s: Seq<char>, i: int) -> int {
    match char_pos(s, ',', i) {
        Some(k) => k,
        None => s.len() as int,
    }
}

pub proof fn lemma_char_pos(s: Seq<char>, c: char, i: int)
    requires
        0 <= i,
    ensures
        char_pos(s, c, i) matches Some(k) ==> i <= k < s.len() && s[k] == c && forall|j: int|
            i <= j < k ==> s[j] != c,
        char_pos(s, c, i) is None ==> forall|j: int| i <= j < s.len() ==> s[j] != c,
    decreases s.len() - i,
{
    if 0 <= i < s.len() && s[i] != c {
        lemma_char_pos(s, c, i + 1);
    }
}

/// One `key=value` attribute applied to the fields collected so far: `r` sets
/// the nonce, `s` the salt, `i` the iteration count (decimal, fitting in 32
/// bits); other keys are ignored; a part without `=` is an error.
pub open spec fn spec_apply_attribute(part: Seq<char>, st: FirstFields) -> Result<
    FirstFields,
    Seq<char>,
> {
    match char_pos(part, '=', 0) {
        None => Err("Invalid SCRAM server-first-message"@),
        Some(k) => {
            let key = part.take(k);
            let value = part.skip(k + 1);
            if key == seq!['r'] {
                Ok((Some(value), st.1, st.2))
            } else if key == seq!['s'] {
                Ok((st.0, Some(value), st.2))
            } else if key == seq!['i'] {
                match spec_parse_unsigned(encode_utf8(value), 0xffff_ffff) {
                    None => Err("Invalid SCRAM iteration count"@),
                    Some(n) => Ok((st.0, st.1, Some(n as u32))),
                }
            } else {
                Ok(st)
            }
        },
    }
}

/// The comma-separated attributes of `s` from position `pos` on, applied in
/// order; the first failing attribute decides the error.
pub open spec fn spec_scan(s: Seq<char>, pos: int, st: FirstFields) -> Result<
    FirstFields,
    Seq<char>,
>
    decreases s.len() - pos,
{
    if pos < 0 || pos > s.len() {
        Ok(st)
    } else {
        let end = part_end(s, pos);
        match spec_apply_attribute(s.subrange(pos, end), st) {
            Err(m) => Err(m),
            Ok(st2) => if end < s.len() {
                proof {
                    lemma_char_pos(s, ',', pos);
                }
                spec_scan(s, end + 1, st2)
            } else {
                Ok(st2)
            },
        }
    }
}

/// Handling a server-first-message: all three attributes must be present and
/// the server nonce must extend the client nonce.
pub open spec fn spec_server_first(v: ScramView, msg: Seq<char>) -> Result<ScramView, Seq<char>> {
    match spec_scan(msg, 0, (None, None, None)) {
        Err(m) => Err(m),
        Ok((n, s, i)) => match n {
            None => Err("Missing server nonce"@),
            Some(n) => match s {
                None => Err("Missing SCRAM salt"@),
                Some(s) => match i {
                    None => Err("Missing SCRAM iterations"@),
                    Some(i) => if !v.client_nonce.is_prefix_of(n) {
                        Err("Server nonce does not contain client nonce"@)
                    } else {
                        Ok(
                            ScramView {
                                server_nonce: Some(n),
                                salt: Some(s),
                                iterations: Some(i),
                                server_first_message: Some(msg),
                                ..v
                            },
                        )
                    },
                },
            },
        },
    }
}

/// `n=<user>,r=<client nonce>,<server-first-message>,c=biws,r=<server nonce>`
pub open spec fn spec_auth_message(v: ScramView) -> Result<Seq<char>, Seq<char>> {
    match v.server_first_message {
        None => Err("Missing server first message"@),
        Some(sfm) => match v.server_nonce {
            None => Err("Missing server nonce"@),
            Some(n) => Ok(
                "n="@ + v.username + ",r="@ + v.client_nonce + ","@ + sfm + ","@ + "c=biws,r="@
                    + n,
            ),
        },
    }
}

/// The salted password `Hi(password, salt, i)`, once salt and iterations are
/// known and the salt decodes.
pub open spec fn spec_salted_password(v: ScramView) -> Result<Seq<u8>, Seq<char>> {
    match v.salt {
        None => Err("Missing SCRAM salt"@),
        Some(salt) => match v.iterations {
            None => Err("Missing SCRAM iterations"@),
            Some(it) => match base64_decode(encode_utf8(salt)) {
                None => Err("Invalid SCRAM salt"@),
                Some(s) => Ok(pbkdf2_hmac_sha256(encode_utf8(v.password), s, it)),
            },
        },
    }
}

/// `ClientProof = ClientKey XOR HMAC(H(ClientKey), AuthMessage)`, Base64.
pub open spec fn spec_client_proof(v: ScramView) -> Result<Seq<char>, Seq<char>> {
    match spec_salted_password(v) {
        Err(m) => Err(m),
        Ok(sp) => {
            let client_key = hmac_sha256(sp, encode_utf8("Client Key"@));
            match spec_auth_message(v) {
                Err(m) => Err(m),
                Ok(am) => Ok(
                    base64_encode(
                        xor_bytes(client_key, hmac_sha256(sha256(client_key), encode_utf8(am))),
                    ),
                ),
            }
        },
    }
}

/// `c=biws,r=<server nonce>,p=<client proof>`
pub open spec fn spec_final_message(v: ScramView) -> Result<Seq<char>, Seq<char>> {
    match spec_client_proof(v) {
        Err(m) => Err(m),
        Ok(p) => match v.server_nonce {
            None => Err("Missing server nonce"@),
            Some(n) => Ok("c=biws,r="@ + n + ",p="@ + p),
        },
    }
}

/// `ServerSignature = HMAC(HMAC(SaltedPassword, "Server Key"), AuthMessage)`
pub open spec fn spec_server_signature(v: ScramView) -> Result<Seq<u8>, Seq<char>> {
    match spec_salted_password(v) {
        Err(m) => Err(m),
        Ok(sp) => match spec_auth_message(v) {
            Err(m) => Err(m),
            Ok(am) => Ok(hmac_sha256(hmac_sha256(sp, encode_utf8("Server Key"@)), encode_utf8(am))),
        },
    }
}

/// Handling a server-final-message: `v=<signature>` must carry the expected
/// server signature; `e=<error>` reports the server's error.
pub open spec fn spec_server_final(v: ScramView, msg: Seq<char>) -> Result<(), Seq<char>> {
    match char_pos(msg, '=', 0) {
        None => Err("Invalid SCRAM server-final-message"@),
        Some(k) => {
            let key = msg.take(k);
            let value = msg.skip(k + 1);
            if key == seq!['v'] {
                match base64_decode(encode_utf8(value)) {
                    None => Err("Invalid SCRAM server signature"@),
                    Some(sig) => match spec_server_signature(v) {
                        Err(m) => Err(m),
                        Ok(expected) => if sig == expected {
                            Ok(())
                        } else {
                            Err("SCRAM server signature mismatch"@)
                        },
                    },
                }
            } else if key == seq!['e'] {
                Err("SCRAM authentication failed: "@ + value)
            } else {
                Err("Invalid SCRAM server-final-message"@)
            }
        },
    }
}

/// A server-first-message is accepted only when the server nonce extends the
/// client's own nonce; accepting it keeps the client's identity and nonce,
/// and the final message then echoes exactly that server nonce.
pub proof fn law_server_nonce_extends_client_nonce(v: ScramView, msg: Seq<char>)
    ensures
        spec_server_first(v, msg) matches Ok(w) ==> {
            &&& w.server_nonce matches Some(n) && v.client_nonce.is_prefix_of(n)
            &&& w.username == v.username
            &&& w.password == v.password
            &&& w.client_nonce == v.client_nonce
            &&& w.server_first_message == Some(msg)
            &&& spec_final_message(w) matches Ok(f) ==> ("c=biws,r="@ + w.server_nonce->0).is_prefix_of(f)
        },
{
    if let Ok(w) = spec_server_first(v, msg) {
        if let Ok(f) = spec_final_message(w) {
            let n = w.server_nonce->0;
            let pre = "c=biws,r="@ + n;
            let p = spec_client_proof(w)->Ok_0;
            assert(f == pre + (",p="@ + p));
            assert(f.subrange(0, pre.len() as int) =~= pre);
        }
    }
}

fn error(message: &str) -> (r: DbError)
    ensures
        r.message@ == message@,
{
    DbError::new(owned(message))
}

/// The index of the first `c` in `s` at or after `i`, or the length of `s`.
fn find_char(s: &str, c: char, i: usize, n: usize) -> (r: usize)
    requires
        n == s@.len(),
        i <= n,
    ensures
        i <= r <= n,
        r < n ==> char_pos(s@, c, i as int) == Some(r as int),
        r == n ==> char_pos(s@, c, i as int) is None,
{
    let mut k = i;
    while k < n && s.get_char(k) != c
        invariant
            i <= k <= n,
            n == s@.len(),
            char_pos(s@, c, i as int) == char_pos(s@, c, k as int),
        decreases n - k,
    {
        k = k + 1;
    }
    k
}

fn is_single_char(s: &str, c: char) -> (r: bool)
    ensures
        r == (s@ == seq![c]),
{
    if s.unicode_len() == 1 && s.get_char(0) == c {
        assert(s@ =~= seq![c]);
        true
    } else {
        false
    }
}

impl ScramClient {
    /// A fresh random client nonce: 32 ASCII letters and digits.
    fn generate_client_nonce() -> (r: String)
        ensures
            is_client_nonce(r@),
    {
        let mut s = String::new();
        let mut i: usize = 0;
        while i < 32
            invariant
                i <= 32,
                s@.len() == i,
                forall|k: int|
                    0 <= k < i ==> is_ascii_alphanumeric(#[trigger] s@[k] as u8) && (s@[k] as u32)
                        < 128,
            decreases 32 - i,
        {
            let b = random_alphanumeric();
            let c = b as char;
            push_char(&mut s, c);
            i = i + 1;
        }
        s
    }

    /// Starts a SCRAM exchange with a freshly generated client nonce.
    pub fn new(username: &str, password: &str) -> (r: Self)
        ensures
            r@.username == username@,
            r@.password == password@,
            is_client_nonce(r@.client_nonce),
            r@.server_nonce is None,
            r@.salt is None,
            r@.iterations is None,
            r@.server_first_message is None,
    {
        let nonce = Self::generate_client_nonce();
        Self::with_nonce(username, password, nonce.as_str())
    }

    /// Starts a SCRAM exchange with the given client nonce.
    pub fn with_nonce(username: &str, password: &str, client_nonce: &str) -> (r: Self)
        ensures
            r@ == (ScramView {
                username: username@,
                password: password@,
                client_nonce: client_nonce@,
                server_nonce: None,
                salt: None,
                iterations: None,
                server_first_message: None,
            }),
    {
        Self {
            username: owned(username),
            password: owned(password),
            client_nonce: owned(client_nonce),
            server_nonce: None,
            salt: None,
            iterations: None,
            server_first_message: None,
        }
    }

    /// The client nonce.
    pub fn client_nonce(&self) -> (r: &str)
        ensures
            r@ == self@.client_nonce,
    {
        self.client_nonce.as_str()
    }

    /// The client-first-message.
    pub fn first_message(&self) -> (r: String)
        ensures
            r@ == spec_first_message(self@),
    {
        let mut s = owned("n,,n=");
        push_str(&mut s, self.username.as_str());
        push_str(&mut s, ",r=");
        push_str(&mut s, self.client_nonce.as_str());
        s
    }

    /// The client-final-message with the client proof.
    pub fn final_message(&mut self) -> (r: Result<String, DbError>)
        ensures
            final(self)@ == old(self)@,
            match (r, spec_final_message(old(self)@)) {
                (Ok(s), Ok(v)) => s@ == v,
                (Err(e), Err(m)) => e.message@ == m,
                _ => false,
            },
    {
        let client_proof = self.calculate_client_proof()?;
        let server_nonce = match &self.server_nonce {
            Some(n) => n,
            None => {
                return Err(error("Missing server nonce"));
            },
        };
        let mut s = owned("c=biws,r=");
        push_str(&mut s, server_nonce.as_str());
        push_str(&mut s, ",p=");
        push_str(&mut s, client_proof.as_str());
        Ok(s)
    }

    fn salted_password(&self) -> (r: Result<Vec<u8>, DbError>)
        ensures
            match (r, spec_salted_password(self@)) {
                (Ok(b), Ok(v)) => b@ == v && b@.len() == 32,
                (Err(e), Err(m)) => e.message@ == m,
                _ => false,
            },
    {
        let salt = match &self.salt {
            Some(s) => s,
            None => {
                return Err(error("Missing SCRAM salt"));
            },
        };
        let iterations = match self.iterations {
            Some(i) => i,
            None => {
                return Err(error("Missing SCRAM iterations"));
            },
        };
        let salt = match base64_standard_decode(salt.as_str().as_bytes()) {
            Ok(s) => s,
            Err(_) => {
                return Err(error("Invalid SCRAM salt"));
            },
        };
        Ok(pbkdf2_sha256(self.password.as_str().as_bytes(), salt.as_slice(), iterations))
    }

    fn hmac(key: &[u8], data: &[u8]) -> (r: Result<Vec<u8>, DbError>)
        ensures
            r matches Ok(m) && m@ == hmac_sha256(key@, data@) && m@.len() == 32,
    {
        match hmac_sha256_mac(key, data) {
            Ok(m) => Ok(m),
            Err(_) => Err(error("Failed to create HMAC")),
        }
    }

    fn calculate_client_proof(&self) -> (r: Result<String, DbError>)
        ensures
            match (r, spec_client_proof(self@)) {
                (Ok(s), Ok(v)) => s@ == v,
                (Err(e), Err(m)) => e.message@ == m,
                _ => false,
            },
    {
        let salted_password = self.salted_password()?;
        let client_key = Self::hmac(salted_password.as_slice(), "Client Key".as_bytes())?;
        let stored_key = sha256_digest(client_key.as_slice());
        let auth_message = self.auth_message()?;
        let client_signature = Self::hmac(stored_key.as_slice(), auth_message.as_str().as_bytes())?;
        let client_proof = xor_slices(client_key.as_slice(), client_signature.as_slice());
        Ok(base64_standard_encode(client_proof.as_slice()))
    }

    /// Handles the server-first-message: records nonce, salt, iteration count
    /// and the message itself.
    pub fn handle_server_first(&mut self, message: &str) -> (r: Result<(), DbError>)
        ensures
            match (r, spec_server_first(old(self)@, message@)) {
                (Ok(()), Ok(v)) => final(self)@ == v,
                (Err(e), Err(m)) => e.message@ == m && final(self)@ == old(self)@,
                _ => false,
            },
    {
        let n = message.unicode_len();
        let mut server_nonce: Option<String> = None;
        let mut salt: Option<String> = None;
        let mut iterations: Option<u32> = None;
        let mut pos: usize = 0;
        loop
            invariant
                n == message@.len(),
                pos <= n,
                spec_scan(message@, 0, (None, None, None)) == spec_scan(
                    message@,
                    pos as int,
                    (opt_view(server_nonce), opt_view(salt), iterations),
                ),
            ensures
                spec_scan(message@, 0, (None, None, None)) == Ok::<FirstFields, Seq<char>>(
                    (opt_view(server_nonce), opt_view(salt), iterations),
                ),
            decreases n - pos,
        {
            let end = find_char(message, ',', pos, n);
            let part = message.substring_char(pos, end);
            let plen = end - pos;
            assert(part@.len() == plen);
            let k = find_char(part, '=', 0, plen);
            if k == plen {
                return Err(error("Invalid SCRAM server-first-message"));
            }
            let key = part.substring_char(0, k);
            let value = part.substring_char(k + 1, plen);
            assert(key@ =~= part@.take(k as int));
            assert(value@ =~= part@.skip(k + 1));
            if is_single_char(key, 'r') {
                server_nonce = Some(owned(value));
            } else if is_single_char(key, 's') {
                salt = Some(owned(value));
            } else if is_single_char(key, 'i') {
                match parse_unsigned(value.as_bytes(), 0xffff_ffff) {
                    Some(v) => {
                        iterations = Some(v as u32);
                    },
                    None => {
                        return Err(error("Invalid SCRAM iteration count"));
                    },
                }
            }
            if end < n {
                pos = end + 1;
            } else {
                break ;
            }
        }
        let server_nonce = match server_nonce {
            Some(v) => v,
            None => {
                return Err(error("Missing server nonce"));
            },
        };
        let salt = match salt {
            Some(v) => v,
            None => {
                return Err(error("Missing SCRAM salt"));
            },
        };
        let iterations = match iterations {
            Some(v) => v,
            None => {
                return Err(error("Missing SCRAM iterations"));
            },
        };
        if !Self::starts_with(server_nonce.as_str(), self.client_nonce.as_str()) {
            return Err(error("Server nonce does not contain client nonce"));
        }
        self.server_nonce = Some(server_nonce);
        self.salt = Some(salt);
        self.iterations = Some(iterations);
        self.server_first_message = Some(owned(message));
        Ok(())
    }

    fn starts_with(s: &str, prefix: &str) -> (r: bool)
        ensures
            r == prefix@.is_prefix_of(s@),
    {
        let n = prefix.unicode_len();
        if n > s.unicode_len() {
            return false;
        }
        let mut i: usize = 0;
        while i < n
            invariant
                i <= n,
                n == prefix@.len(),
                n <= s@.len(),
                forall|k: int| 0 <= k < i ==> prefix@[k] == s@[k],
            decreases n - i,
        {
            if prefix.get_char(i) != s.get_char(i) {
                return false;
            }
            i = i + 1;
        }
        assert(prefix@ =~= s@.take(n as int));
        true
    }

    fn auth_message(&self) -> (r: Result<String, DbError>)
        ensures
            match (r, spec_auth_message(self@)) {
                (Ok(s), Ok(v)) => s@ == v,
                (Err(e), Err(m)) => e.message@ == m,
                _ => false,
            },
    {
        let server_first_message = match &self.server_first_message {
            Some(m) => m,
            None => {
                return Err(error("Missing server first message"));
            },
        };
        let server_nonce = match &self.server_nonce {
            Some(n) => n,
            None => {
                return Err(error("Missing server nonce"));
            },
        };
        let mut s = owned("n=");
        push_str(&mut s, self.username.as_str());
        push_str(&mut s, ",r=");
        push_str(&mut s, self.client_nonce.as_str());
        push_str(&mut s, ",");
        push_str(&mut s, server_first_message.as_str());
        push_str(&mut s, ",");
        push_str(&mut s, "c=biws,r=");
        push_str(&mut s, server_nonce.as_str());
        Ok(s)
    }

    /// Handles the server-final-message: checks the server signature.
    pub fn handle_server_final(&mut self, message: &str) -> (r: Result<(), DbError>)
        ensures
            final(self)@ == old(self)@,
            match (r, spec_server_final(old(self)@, message@)) {
                (Ok(()), Ok(())) => true,
                (Err(e), Err(m)) => e.message@ == m,
                _ => false,
            },
    {
        let n = message.unicode_len();
        let k = find_char(message, '=', 0, n);
        if k == n {
            return Err(error("Invalid SCRAM server-final-message"));
        }
        let key = message.substring_char(0, k);
        let value = message.substring_char(k + 1, n);
        assert(key@ =~= message@.take(k as int));
        assert(value@ =~= message@.skip(k + 1));
        if is_single_char(key, 'v') {
            let received_signature = match base64_standard_decode(value.as_bytes()) {
                Ok(s) => s,
                Err(_) => {
                    return Err(error("Invalid SCRAM server signature"));
                },
            };
            let expected_signature = self.server_signature()?;
            if !bytes_equal(received_signature.as_slice(), expected_signature.as_slice()) {
                return Err(error("SCRAM server signature mismatch"));
            }
            Ok(())
        } else if is_single_char(key, 'e') {
            let mut s = owned("SCRAM authentication failed: ");
            push_str(&mut s, value);
            Err(DbError::new(s))
        } else {
            Err(error("Invalid SCRAM server-final-message"))
        }
    }

    fn server_signature(&self) -> (r: Result<Vec<u8>, DbError>)
        ensures
            match (r, spec_server_signature(self@)) {
                (Ok(b), Ok(v)) => b@ == v,
                (Err(e), Err(m)) => e.message@ == m,
                _ => false,
            },
    {
        let salted_password = self.salted_password()?;
        let server_key = Self::hmac(salted_password.as_slice(), "Server Key".as_bytes())?;
        let auth_message = self.auth_message()?;
        Self::hmac(server_key.as_slice(), auth_message.as_str().as_bytes())
    }
}

} // verus!
