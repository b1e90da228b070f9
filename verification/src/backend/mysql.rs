//! The MySQL conversation as state machines: the handshake with
//! `caching_sha2_password` authentication (fast path and RSA full
//! authentication), and text-protocol query execution. Each machine takes
//! the next server packet and says what to do next; the caller does the
//! reading and writing.
use vstd::prelude::*;
use vstd::utf8::*;

use crate::crypto::{
    rsa_key_size,
    rsa_oaep_sha1_encrypt,
    rsa_oaep_sha1_encrypts,
    rsa_public_key_from_pem,
    rsa_public_key_of_pem,
};
use crate::error::DbError;
use crate::mysql_protocol::authentication::{
    Handshake,
    HandshakeView,
    spec_handshake,
    spec_prepare_password,
    spec_scramble,
};
use crate::mysql_protocol::message::{
    ERR_PACKET,
    EOF_PACKET,
    Message,
    OK_PACKET,
    ServerMessage,
    ServerMessageView,
    spec_classify,
    spec_encode,
    spec_handshake_response,
    spec_query,
};
use crate::mysql_protocol::result::{
    ResultParser,
    spec_column_count,
    lemma_row_len,
    spec_column_definition,
    spec_row,
};
use crate::query::{Query, QueryResult, QueryResultView};
use crate::table::{Column, ColumnView, ValueView, columns_view, rows_fit};
use crate::text::{
    debug_hex_bytes,
    decimal_chars,
    owned,
    push_debug_bytes,
    push_decimal,
    push_str,
    utf8_lossy,
    utf8_lossy_string,
};
use crate::wire::{le2, read_le_u16};

verus! {

pub const CLIENT_CONNECT_WITH_DB: u32 = 0x0000_0008;

pub const CLIENT_PROTOCOL_41: u32 = 0x0000_0200;

pub const CLIENT_SECURE_CONNECTION: u32 = 0x0000_8000;

pub const CLIENT_PLUGIN_AUTH: u32 = 0x0008_0000;

/// The capabilities the client announces.
pub open spec fn client_capabilities() -> u32 {
    CLIENT_CONNECT_WITH_DB | CLIENT_PROTOCOL_41 | CLIENT_SECURE_CONNECTION | CLIENT_PLUGIN_AUTH
}

/// The error text for an error packet's payload: the error code (u16 LE)
/// and the message, which follows a `#` and a five-character SQL state when
/// present.
pub open spec fn spec_error_packet(p: Seq<u8>) -> Seq<char> {
    if p.len() < 2 {
        "Invalid MySQL error packet"@
    } else {
        let start = if p.len() >= 8 && p[2] == 35 {
            8int
        } else {
            2int
        };
        "MySQL error "@ + decimal_chars(le2(p, 0) as nat) + ": "@ + utf8_lossy(p.skip(start))
    }
}

/// Turns an error packet's payload into an error.
pub fn parse_error_packet(payload: &[u8]) -> (r: DbError)
    ensures
        r.message@ == spec_error_packet(payload@),
{
    if payload.len() < 2 {
        return DbError::new(owned("Invalid MySQL error packet"));
    }
    let error_code = read_le_u16(payload, 0);
    let message_start: usize = if payload.len() >= 8 && payload[2] == 35 {
        8
    } else {
        2
    };
    let message = utf8_lossy_string(&payload[message_start..payload.len()]);
    assert(payload@.subrange(message_start as int, payload@.len() as int) =~= payload@.skip(
        message_start as int,
    ));
    let mut s = owned("MySQL error ");
    push_decimal(&mut s, error_code as u64);
    push_str(&mut s, ": ");
    push_str(&mut s, message.as_str());
    DbError::new(s)
}

/// The next sequence id, wrapping after 255.
pub open spec fn next_sequence(s: u8) -> u8 {
    ((s as int + 1) % 256) as u8
}

fn next_sequence_id(s: u8) -> (r: u8)
    ensures
        r == next_sequence(s),
{
    if s == 255 {
        0
    } else {
        s + 1
    }
}

/// Where the handshake stands.
#[derive(Clone, Copy, Debug, PartialEq, Eq, Structural)]
pub enum OpenPhase {
    AwaitHandshake,
    AwaitAuthResult,
    AwaitFastAuthOk,
    AwaitPublicKey,
    AwaitFullAuthOk,
    Finished,
}

/// The handshake conversation.
pub struct MysqlOpen {
    phase: OpenPhase,
    username: String,
    password: String,
    db_name: String,
    auth_plugin_data: Vec<u8>,
}

#[verifier::ext_equal]
pub struct OpenView {
    pub phase: OpenPhase,
    pub username: Seq<char>,
    pub password: Seq<char>,
    pub db_name: Seq<char>,
    pub auth_plugin_data: Seq<u8>,
}

impl View for MysqlOpen {
    type V = OpenView;

    closed spec fn view(&self) -> OpenView {
        OpenView {
            phase: self.phase,
            username: self.username@,
            password: self.password@,
            db_name: self.db_name@,
            auth_plugin_data: self.auth_plugin_data@,
        }
    }
}

/// What the caller does next during the handshake.
pub enum OpenAction {
    /// Write these bytes, then read the next packet.
    Send(Vec<u8>),
    /// Read the next packet.
    Receive,
    /// The handshake is over with this outcome.
    Finish(Result<(), DbError>),
}

#[verifier::ext_equal]
pub enum OpenActionView {
    Send(Seq<u8>),
    Receive,
    Finish(Result<(), Seq<char>>),
}

impl View for OpenAction {
    type V = OpenActionView;

    open spec fn view(&self) -> OpenActionView {
        match self {
            OpenAction::Send(b) => OpenActionView::Send(b@),
            OpenAction::Receive => OpenActionView::Receive,
            OpenAction::Finish(Ok(())) => OpenActionView::Finish(Ok(())),
            OpenAction::Finish(Err(e)) => OpenActionView::Finish(Err(e.message@)),
        }
    }
}

pub open spec fn open_fail(v: OpenView, m: Seq<char>) -> (OpenView, OpenActionView) {
    (OpenView { phase: OpenPhase::Finished, ..v }, OpenActionView::Finish(Err(m)))
}

pub open spec fn open_done(v: OpenView) -> (OpenView, OpenActionView) {
    (OpenView { phase: OpenPhase::Finished, ..v }, OpenActionView::Finish(Ok(())))
}

/// The handshake response packet for a parsed handshake.
pub open spec fn spec_handshake_packet(v: OpenView, h: HandshakeView) -> Seq<u8> {
    spec_encode(
        spec_handshake_response(
            v.username,
            spec_scramble(encode_utf8(v.password), h.auth_plugin_data),
            v.db_name,
            client_capabilities(),
            h.character_set,
            h.auth_plugin_name,
        ),
        1,
    )
}

/// One step of the handshake for every state but the one awaiting the RSA
/// public key (whose answer carries fresh randomness; see `open_step_ok`).
///
/// The server handshake is answered with the handshake response (sequence
/// id 1) carrying the scrambled password. Then an OK packet ends the
/// handshake; `AuthMoreData` with `0x03` (fast authentication succeeded)
/// awaits the final OK; with `0x04` (full authentication) the public key is
/// requested with `0x02` (next sequence id); error packets and anything else
/// end it with an error.
pub open spec fn spec_open_step(v: OpenView, m: crate::mysql_protocol::message::MessageView) -> (
    OpenView,
    OpenActionView,
) {
    let p = m.payload;
    match v.phase {
        OpenPhase::AwaitHandshake => match spec_classify(m.message_type, p) {
            ServerMessageView::Handshake(q) => match spec_handshake(q) {
                Err(e) => open_fail(v, e),
                Ok(h) => (
                    OpenView {
                        phase: OpenPhase::AwaitAuthResult,
                        auth_plugin_data: h.auth_plugin_data,
                        ..v
                    },
                    OpenActionView::Send(spec_handshake_packet(v, h)),
                ),
            },
            ServerMessageView::Error(q) => open_fail(v, "MySQL handshake error: "@ + debug_bytes_of(q)),
            _ => open_fail(v, "Expected MySQL handshake"@),
        },
        OpenPhase::AwaitAuthResult => match spec_classify(m.message_type, p) {
            ServerMessageView::OkPacket(_) => open_done(v),
            ServerMessageView::AuthMoreData(q) => if q.len() < 2 {
                open_fail(v, "Invalid MySQL AuthMoreData"@)
            } else if q.skip(1) == seq![0x03u8] {
                (OpenView { phase: OpenPhase::AwaitFastAuthOk, ..v }, OpenActionView::Receive)
            } else if q.skip(1) == seq![0x04u8] {
                (
                    OpenView { phase: OpenPhase::AwaitPublicKey, ..v },
                    OpenActionView::Send(spec_encode(seq![0x02u8], next_sequence(m.sequence_id))),
                )
            } else {
                open_fail(v, "Unexpected MySQL AuthMoreData: "@ + debug_hex_bytes(q))
            },
            ServerMessageView::Error(q) => open_fail(
                v,
                "MySQL authentication error: "@ + debug_hex_bytes(q),
            ),
            _ => open_fail(v, "Unexpected MySQL authentication response"@),
        },
        OpenPhase::AwaitFastAuthOk => match spec_classify(m.message_type, p) {
            ServerMessageView::OkPacket(_) => open_done(v),
            ServerMessageView::Error(q) => open_fail(
                v,
                "MySQL authentication error: "@ + debug_hex_bytes(q),
            ),
            _ => open_fail(v, "Expected MySQL OK after authentication"@),
        },
        OpenPhase::AwaitFullAuthOk => match spec_classify(m.message_type, p) {
            ServerMessageView::OkPacket(_) => open_done(v),
            ServerMessageView::Error(q) => open_fail(
                v,
                "MySQL authentication error: "@ + debug_hex_bytes(q),
            ),
            _ => open_fail(v, "Unexpected MySQL authentication response"@),
        },
        _ => open_done(v),
    }
}

/// The `{:?}` rendering of a byte vector.
pub open spec fn debug_bytes_of(b: Seq<u8>) -> Seq<char> {
    crate::text::debug_bytes(b)
}

/// What follows the encryption of the password under the server's key: the
/// ciphertext goes out with the sequence id after the key packet's, and the
/// handshake awaits the final OK; an encryption error ends it with that
/// error.
pub open spec fn spec_after_encryption(
    v: OpenView,
    sequence_id: u8,
    encrypted: Result<Seq<u8>, Seq<char>>,
) -> (OpenView, OpenActionView) {
    match encrypted {
        Ok(c) => (
            OpenView { phase: OpenPhase::AwaitFullAuthOk, ..v },
            OpenActionView::Send(spec_encode(c, next_sequence(sequence_id))),
        ),
        Err(m) => open_fail(v, m),
    }
}

/// One step of the handshake, as a relation between the state before, the
/// packet, the state after and the action. Awaiting the public key, the
/// packet's payload is the key in PEM text; the password (NUL-terminated,
/// XORed with the nonce, see `spec_prepare_password`) is encrypted under it
/// with RSA-OAEP, and `spec_after_encryption` says what follows from the
/// outcome: a ciphertext sent is an encryption of exactly those bytes under
/// that key, as long as the key's modulus, and it is always sent when those
/// bytes fit the key (42 bytes less than its modulus). Which ciphertext is
/// fresh each time, and the texts of a key that does not parse and of the
/// encryption failure for a password too long for the key come from the
/// outside library, so they are left open here.
pub open spec fn open_step_ok(
    v: OpenView,
    m: crate::mysql_protocol::message::MessageView,
    v2: OpenView,
    a: OpenActionView,
) -> bool {
    if v.phase == OpenPhase::AwaitPublicKey {
        let p = m.payload;
        if !valid_utf8(p) {
            (v2, a) == open_fail(v, "Invalid UTF-8 in MySQL RSA public key"@)
        } else if v.auth_plugin_data.len() == 0 {
            (v2, a) == open_fail(v, "Missing MySQL authentication data"@)
        } else {
            match rsa_public_key_of_pem(decode_utf8(p)) {
                None => exists|e: Seq<char>| (v2, a) == open_fail(v, e),
                Some(k) => {
                    let plain = spec_prepare_password(encode_utf8(v.password), v.auth_plugin_data);
                    let sent = exists|c: Seq<u8>|
                        {
                            &&& rsa_oaep_sha1_encrypts(k, plain, c)
                            &&& c.len() == rsa_key_size(k)
                            &&& (v2, a) == spec_after_encryption(v, m.sequence_id, Ok(c))
                        };
                    if plain.len() + 42 <= rsa_key_size(k) {
                        sent
                    } else {
                        sent || exists|e: Seq<char>| (v2, a) == open_fail(v, e)
                    }
                },
            }
        }
    } else {
        (v2, a) == spec_open_step(v, m)
    }
}

fn fail(message: &str) -> (r: OpenAction)
    ensures
        r@ == OpenActionView::Finish(Err(message@)),
{
    OpenAction::Finish(Err(DbError::new(owned(message))))
}

fn fail_with_bytes(prefix: &str, payload: &[u8], hex: bool) -> (r: OpenAction)
    ensures
        !hex ==> r@ == OpenActionView::Finish(Err(prefix@ + crate::text::debug_bytes(payload@))),
        hex ==> r@ == OpenActionView::Finish(Err(prefix@ + debug_hex_bytes(payload@))),
{
    let mut s = owned(prefix);
    push_debug_bytes(&mut s, payload, hex);
    assert(s@ =~= prefix@ + (seq!['['] + crate::text::debug_items(payload@, hex) + seq![']']));
    OpenAction::Finish(Err(DbError::new(s)))
}

impl MysqlOpen {
    /// Starts the handshake for a user and database; the server speaks first.
    pub fn new(username: &str, password: &str, db_name: &str) -> (r: Self)
        ensures
            r@ == (OpenView {
                phase: OpenPhase::AwaitHandshake,
                username: username@,
                password: password@,
                db_name: db_name@,
                auth_plugin_data: seq![],
            }),
    {
        Self {
            phase: OpenPhase::AwaitHandshake,
            username: owned(username),
            password: owned(password),
            db_name: owned(db_name),
            auth_plugin_data: Vec::new(),
        }
    }

    /// Whether the handshake is over.
    pub fn is_finished(&self) -> (r: bool)
        ensures
            r == (self@.phase == OpenPhase::Finished),
    {
        self.phase == OpenPhase::Finished
    }

    /// Continues the handshake once the password was encrypted under the
    /// server's public key (the packet with the key had `sequence_id`).
    pub fn after_encryption(&mut self, sequence_id: u8, encrypted: Result<Vec<u8>, String>) -> (r:
        OpenAction)
        ensures
            (final(self)@, r@) == spec_after_encryption(
                old(self)@,
                sequence_id,
                match encrypted {
                    Ok(c) => Ok(c@),
                    Err(e) => Err(e@),
                },
            ),
    {
        match encrypted {
            Ok(c) => {
                let packet = Message::encode(c.as_slice(), next_sequence_id(sequence_id));
                self.phase = OpenPhase::AwaitFullAuthOk;
                OpenAction::Send(packet)
            },
            Err(e) => {
                self.phase = OpenPhase::Finished;
                OpenAction::Finish(Err(DbError::new(e)))
            },
        }
    }

    /// Takes the next server packet.
    pub fn step(&mut self, message: Message) -> (r: OpenAction)
        ensures
            open_step_ok(old(self)@, message@, final(self)@, r@),
    {
        let sequence_id = message.sequence_id;
        match self.phase {
            OpenPhase::AwaitHandshake => {
                self.phase = OpenPhase::Finished;
                match message.parse() {
                    ServerMessage::Handshake(payload) => {
                        let handshake = match Handshake::parse(payload.as_slice()) {
                            Ok(h) => h,
                            Err(e) => {
                                return OpenAction::Finish(Err(e));
                            },
                        };
                        let auth_response = Handshake::scramble_password(
                            self.password.as_str(),
                            handshake.auth_plugin_data.as_slice(),
                        );
                        let client_capabilities = CLIENT_CONNECT_WITH_DB | CLIENT_PROTOCOL_41
                            | CLIENT_SECURE_CONNECTION | CLIENT_PLUGIN_AUTH;
                        let response = Message::handshake_response(
                            self.username.as_str(),
                            auth_response.as_slice(),
                            self.db_name.as_str(),
                            client_capabilities,
                            handshake.character_set,
                            handshake.auth_plugin_name.as_str(),
                        );
                        let packet = Message::encode(response.as_slice(), 1);
                        self.auth_plugin_data = handshake.auth_plugin_data;
                        self.phase = OpenPhase::AwaitAuthResult;
                        OpenAction::Send(packet)
                    },
                    ServerMessage::Error(payload) => fail_with_bytes(
                        "MySQL handshake error: ",
                        payload.as_slice(),
                        false,
                    ),
                    _ => fail("Expected MySQL handshake"),
                }
            },
            OpenPhase::AwaitAuthResult => {
                self.phase = OpenPhase::Finished;
                match message.parse() {
                    ServerMessage::OkPacket(_) => OpenAction::Finish(Ok(())),
                    ServerMessage::AuthMoreData(payload) => {
                        if payload.len() < 2 {
                            return fail("Invalid MySQL AuthMoreData");
                        }
                        let ghost q = payload@;
                        assert(q.skip(1).len() == 1 ==> (q.skip(1) == seq![q[1]]));
                        if payload.len() == 2 && payload[1] == 0x03 {
                            assert(q.skip(1) =~= seq![0x03u8]);
                            self.phase = OpenPhase::AwaitFastAuthOk;
                            OpenAction::Receive
                        } else if payload.len() == 2 && payload[1] == 0x04 {
                            assert(q.skip(1) =~= seq![0x04u8]);
                            let request_public_key: [u8; 1] = [0x02];
                            assert(request_public_key@ =~= seq![0x02u8]);
                            let packet = Message::encode(
                                &request_public_key,
                                next_sequence_id(sequence_id),
                            );
                            self.phase = OpenPhase::AwaitPublicKey;
                            OpenAction::Send(packet)
                        } else {
                            assert(q.skip(1) != seq![0x03u8] && q.skip(1) != seq![0x04u8]) by {
                                if q.skip(1).len() == 1 {
                                    assert(q.skip(1)[0] == q[1]);
                                }
                            }
                            fail_with_bytes(
                                "Unexpected MySQL AuthMoreData: ",
                                payload.as_slice(),
                                true,
                            )
                        }
                    },
                    ServerMessage::Error(payload) => fail_with_bytes(
                        "MySQL authentication error: ",
                        payload.as_slice(),
                        true,
                    ),
                    _ => fail("Unexpected MySQL authentication response"),
                }
            },
            OpenPhase::AwaitFastAuthOk => {
                self.phase = OpenPhase::Finished;
                match message.parse() {
                    ServerMessage::OkPacket(_) => OpenAction::Finish(Ok(())),
                    ServerMessage::Error(payload) => fail_with_bytes(
                        "MySQL authentication error: ",
                        payload.as_slice(),
                        true,
                    ),
                    _ => fail("Expected MySQL OK after authentication"),
                }
            },
            OpenPhase::AwaitPublicKey => {
                self.phase = OpenPhase::Finished;
                let public_key = match Handshake::parse_public_key(message.payload.as_slice()) {
                    Ok(k) => k,
                    Err(e) => {
                        return OpenAction::Finish(Err(e));
                    },
                };
                if self.auth_plugin_data.len() == 0 {
                    return fail("Missing MySQL authentication data");
                }
                let prepared_password = Handshake::prepare_password(
                    self.password.as_str(),
                    self.auth_plugin_data.as_slice(),
                );
                let key = match rsa_public_key_from_pem(public_key.as_str()) {
                    Ok(k) => k,
                    Err(s) => {
                        let ghost e = s@;
                        let r = OpenAction::Finish(Err(DbError::new(s)));
                        assert((self@, r@) == open_fail(old(self)@, e));
                        return r;
                    },
                };
                let encrypted = rsa_oaep_sha1_encrypt(&key, prepared_password.as_slice());
                let ghost res = match &encrypted {
                    Ok(c) => Ok::<Seq<u8>, Seq<char>>(c@),
                    Err(e) => Err::<Seq<u8>, Seq<char>>(e@),
                };
                let r = self.after_encryption(sequence_id, encrypted);
                assert((self@, r@) == spec_after_encryption(old(self)@, sequence_id, res));
                proof {
                    match res {
                        Ok(c) => {
                            assert(rsa_oaep_sha1_encrypts(
                                key,
                                spec_prepare_password(
                                    encode_utf8(old(self)@.password),
                                    old(self)@.auth_plugin_data,
                                ),
                                c,
                            ));
                        },
                        Err(e) => {
                            assert((self@, r@) == open_fail(old(self)@, e));
                        },
                    }
                }
                r
            },
            OpenPhase::AwaitFullAuthOk => {
                self.phase = OpenPhase::Finished;
                match message.parse() {
                    ServerMessage::OkPacket(_) => OpenAction::Finish(Ok(())),
                    ServerMessage::Error(payload) => fail_with_bytes(
                        "MySQL authentication error: ",
                        payload.as_slice(),
                        true,
                    ),
                    _ => fail("Unexpected MySQL authentication response"),
                }
            },
            OpenPhase::Finished => OpenAction::Finish(Ok(())),
        }
    }
}

/// Where query execution stands.
#[derive(Clone, Copy, Debug, PartialEq, Eq, Structural)]
pub enum ExecPhase {
    AwaitFirst,
    AwaitColumns,
    AwaitEof,
    AwaitRows,
    Finished,
}

/// The query conversation.
pub struct MysqlExec {
    phase: ExecPhase,
    remaining: usize,
    columns: Vec<Column>,
    column_types: Vec<u8>,
    flags: Vec<u16>,
    result: QueryResult,
}

#[verifier::ext_equal]
pub struct ExecView {
    pub phase: ExecPhase,
    pub remaining: nat,
    pub columns: Seq<ColumnView>,
    pub column_types: Seq<u8>,
    pub flags: Seq<u16>,
    pub result: QueryResultView,
}

impl View for MysqlExec {
    type V = ExecView;

    closed spec fn view(&self) -> ExecView {
        ExecView {
            phase: self.phase,
            remaining: self.remaining as nat,
            columns: columns_view(self.columns@),
            column_types: self.column_types@,
            flags: self.flags@,
            result: self.result@,
        }
    }
}

/// What the caller does next during query execution.
pub enum ExecAction {
    /// Read the next packet.
    Receive,
    /// Execution is over with this outcome.
    Finish(Result<QueryResult, DbError>),
}

#[verifier::ext_equal]
pub enum ExecActionView {
    Receive,
    Finish(Result<QueryResultView, Seq<char>>),
}

impl View for ExecAction {
    type V = ExecActionView;

    open spec fn view(&self) -> ExecActionView {
        match self {
            ExecAction::Receive => ExecActionView::Receive,
            ExecAction::Finish(Ok(r)) => ExecActionView::Finish(Ok(r@)),
            ExecAction::Finish(Err(e)) => ExecActionView::Finish(Err(e.message@)),
        }
    }
}

pub open spec fn empty_result() -> QueryResultView {
    QueryResultView { columns: seq![], rows: seq![] }
}

pub open spec fn exec_fail(v: ExecView, m: Seq<char>) -> (ExecView, ExecActionView) {
    (ExecView { phase: ExecPhase::Finished, ..v }, ExecActionView::Finish(Err(m)))
}

/// One step of query execution. The first packet is OK (no result set),
/// an error, or the column count; then come that many column definitions,
/// an EOF packet, and rows until an EOF packet ends the result (an error
/// packet among the rows is an error).
pub open spec fn spec_exec_step(v: ExecView, m: crate::mysql_protocol::message::MessageView) -> (
    ExecView,
    ExecActionView,
) {
    let t = m.message_type;
    let p = m.payload;
    match v.phase {
        ExecPhase::AwaitFirst => if t == 0x00 {
            (ExecView { phase: ExecPhase::Finished, ..v }, ExecActionView::Finish(Ok(empty_result())))
        } else if t == 0xFF {
            exec_fail(v, spec_error_packet(p))
        } else {
            match spec_column_count(p) {
                Err(e) => exec_fail(v, e),
                Ok(n) => if n == 0 {
                    (
                        ExecView {
                            phase: ExecPhase::AwaitEof,
                            remaining: 0,
                            columns: seq![],
                            result: QueryResultView { columns: v.columns, rows: v.result.rows },
                            ..v
                        },
                        ExecActionView::Receive,
                    )
                } else {
                    (
                        ExecView { phase: ExecPhase::AwaitColumns, remaining: n, ..v },
                        ExecActionView::Receive,
                    )
                },
            }
        },
        ExecPhase::AwaitColumns => match spec_column_definition(p) {
            Err(e) => exec_fail(v, e),
            Ok((c, ct, f)) => {
                let cols = v.columns.push(c);
                if v.remaining <= 1 {
                    (
                        ExecView {
                            phase: ExecPhase::AwaitEof,
                            remaining: 0,
                            columns: seq![],
                            column_types: v.column_types.push(ct),
                            flags: v.flags.push(f),
                            result: QueryResultView { columns: cols, rows: v.result.rows },
                        },
                        ExecActionView::Receive,
                    )
                } else {
                    (
                        ExecView {
                            remaining: (v.remaining - 1) as nat,
                            columns: cols,
                            column_types: v.column_types.push(ct),
                            flags: v.flags.push(f),
                            ..v
                        },
                        ExecActionView::Receive,
                    )
                }
            },
        },
        ExecPhase::AwaitEof => if t != 0xFE {
            exec_fail(v, "Expected EOF after column definitions"@)
        } else {
            (ExecView { phase: ExecPhase::AwaitRows, ..v }, ExecActionView::Receive)
        },
        ExecPhase::AwaitRows => if t == 0xFE {
            (
                ExecView { phase: ExecPhase::Finished, result: empty_result(), ..v },
                ExecActionView::Finish(Ok(v.result)),
            )
        } else if t == 0xFF {
            exec_fail(v, spec_error_packet(p))
        } else {
            match spec_row(p, v.result.columns, v.column_types, v.flags) {
                Err(e) => exec_fail(v, e),
                Ok(vs) => (
                    ExecView {
                        result: QueryResultView {
                            columns: v.result.columns,
                            rows: v.result.rows.push(vs),
                        },
                        ..v
                    },
                    ExecActionView::Receive,
                ),
            }
        },
        ExecPhase::Finished => (v, ExecActionView::Finish(Ok(empty_result()))),
    }
}

/// What holds of query execution at every step: every row collected has one
/// value per result column, and no row is collected before the columns are
/// complete.
pub open spec fn exec_invariant(v: ExecView) -> bool {
    &&& rows_fit(v.result.columns.len(), v.result.rows)
    &&& (v.phase == ExecPhase::AwaitFirst || v.phase == ExecPhase::AwaitColumns)
        ==> v.result.rows.len() == 0
}

/// Every result that query execution hands out converts to a dataframe: each
/// of its rows has one value per column. The machine starts in a state where
/// this holds, and every step keeps it.
pub proof fn law_exec_rows_fit(v: ExecView, m: crate::mysql_protocol::message::MessageView)
    requires
        exec_invariant(v),
    ensures
        exec_invariant(spec_exec_step(v, m).0),
        spec_exec_step(v, m).1 matches ExecActionView::Finish(Ok(r)) ==> rows_fit(
            r.columns.len(),
            r.rows,
        ),
        exec_invariant(
            ExecView {
                phase: ExecPhase::AwaitFirst,
                remaining: 0,
                columns: seq![],
                column_types: seq![],
                flags: seq![],
                result: empty_result(),
            },
        ),
{
    lemma_row_len(m.payload, v.result.columns, v.column_types, v.flags);
    let (w, a) = spec_exec_step(v, m);
    if v.phase == ExecPhase::AwaitRows && m.message_type != 0xFE && m.message_type != 0xFF {
        if let Ok(vs) = spec_row(m.payload, v.result.columns, v.column_types, v.flags) {
            assert forall|i: int| 0 <= i < w.result.rows.len() implies #[trigger] w.result.rows[i].len()
                == w.result.columns.len() by {
                if i < v.result.rows.len() {
                    assert(w.result.rows[i] == v.result.rows[i]);
                }
            }
        }
    }
}

/// Query execution over a sequence of server packets: the state reached and,
/// once the machine finishes, its outcome (the packets after that are not
/// read).
pub open spec fn exec_run(v: ExecView, packets: Seq<crate::mysql_protocol::message::MessageView>) -> (
    ExecView,
    Option<Result<QueryResultView, Seq<char>>>,
)
    decreases packets.len(),
{
    if packets.len() == 0 {
        (v, None)
    } else {
        let (w, a) = spec_exec_step(v, packets[0]);
        match a {
            ExecActionView::Finish(outcome) => (w, Some(outcome)),
            ExecActionView::Receive => exec_run(w, packets.drop_first()),
        }
    }
}

/// The state in which query execution starts.
pub open spec fn exec_start() -> ExecView {
    ExecView {
        phase: ExecPhase::AwaitFirst,
        remaining: 0,
        columns: seq![],
        column_types: seq![],
        flags: seq![],
        result: empty_result(),
    }
}

proof fn lemma_exec_run_rows_fit(v: ExecView, packets: Seq<crate::mysql_protocol::message::MessageView>)
    requires
        exec_invariant(v),
    ensures
        exec_invariant(exec_run(v, packets).0),
        exec_run(v, packets).1 matches Some(Ok(r)) ==> rows_fit(r.columns.len(), r.rows),
    decreases packets.len(),
{
    if packets.len() > 0 {
        law_exec_rows_fit(v, packets[0]);
        let (w, a) = spec_exec_step(v, packets[0]);
        if a is Receive {
            lemma_exec_run_rows_fit(w, packets.drop_first());
        }
    }
}

/// A whole query run: the only request is the query packet that `new`
/// hands out (the machine never asks to send anything else), and whatever
/// the server's packets, a successful outcome converts to a dataframe, each
/// row having one value per column; an OK packet as the first reply gives a
/// result without columns or rows.
pub proof fn law_exec_run(packets: Seq<crate::mysql_protocol::message::MessageView>)
    ensures
        exec_run(exec_start(), packets).1 matches Some(Ok(r)) ==> rows_fit(r.columns.len(), r.rows),
        packets.len() > 0 && packets[0].message_type == 0x00 ==> exec_run(exec_start(), packets).1
            == Some(Ok::<QueryResultView, Seq<char>>(empty_result())),
{
    law_exec_rows_fit(exec_start(), packets[0]);
    lemma_exec_run_rows_fit(exec_start(), packets);
}

/// A row packet appends its decoded values: in the rows phase, a packet
/// that is neither EOF nor an error and whose payload decodes as a row of
/// the result's columns adds that row after the rows collected so far, and
/// keeps the columns and the phase.
pub proof fn law_row_appended(
    v: ExecView,
    m: crate::mysql_protocol::message::MessageView,
    vs: Seq<ValueView>,
)
    requires
        v.phase == ExecPhase::AwaitRows,
        m.message_type != EOF_PACKET,
        m.message_type != ERR_PACKET,
        spec_row(m.payload, v.result.columns, v.column_types, v.flags) == Ok::<
            Seq<ValueView>,
            Seq<char>,
        >(vs),
    ensures
        spec_exec_step(v, m).0.result.rows == v.result.rows.push(vs),
        spec_exec_step(v, m).0.result.columns == v.result.columns,
        spec_exec_step(v, m).0.phase == ExecPhase::AwaitRows,
        spec_exec_step(v, m).0.column_types == v.column_types,
        spec_exec_step(v, m).0.flags == v.flags,
        spec_exec_step(v, m).1 == ExecActionView::Receive,
{
}

/// Every row packet counts: in the rows phase, row packets that decode
/// followed by an EOF packet end execution with the rows collected so far
/// followed by all those rows, in the order of the packets, so the result
/// has one more row per row packet.
pub proof fn law_rows_collected(
    v: ExecView,
    rows: Seq<crate::mysql_protocol::message::MessageView>,
    decoded: Seq<Seq<ValueView>>,
    eof: crate::mysql_protocol::message::MessageView,
)
    requires
        v.phase == ExecPhase::AwaitRows,
        rows.len() == decoded.len(),
        forall|i: int|
            0 <= i < rows.len() ==> (#[trigger] rows[i]).message_type != EOF_PACKET
                && rows[i].message_type != ERR_PACKET && spec_row(
                rows[i].payload,
                v.result.columns,
                v.column_types,
                v.flags,
            ) == Ok::<Seq<ValueView>, Seq<char>>(decoded[i]),
        eof.message_type == EOF_PACKET,
    ensures
        exec_run(v, rows.push(eof)).1 == Some(
            Ok::<QueryResultView, Seq<char>>(
                QueryResultView { columns: v.result.columns, rows: v.result.rows + decoded },
            ),
        ),
    decreases rows.len(),
{
    if rows.len() == 0 {
        assert(rows.push(eof) =~= seq![eof]);
        assert(v.result.rows + decoded =~= v.result.rows);
    } else {
        law_row_appended(v, rows[0], decoded[0]);
        let w = spec_exec_step(v, rows[0]).0;
        assert(rows.push(eof)[0] == rows[0]);
        assert(rows.push(eof).drop_first() =~= rows.drop_first().push(eof));
        assert forall|i: int| 0 <= i < rows.drop_first().len() implies (
        #[trigger] rows.drop_first()[i]).message_type != EOF_PACKET && rows.drop_first()[i].message_type
            != ERR_PACKET && spec_row(
            rows.drop_first()[i].payload,
            w.result.columns,
            w.column_types,
            w.flags,
        ) == Ok::<Seq<ValueView>, Seq<char>>(decoded.drop_first()[i]) by {
            assert(rows.drop_first()[i] == rows[i + 1]);
        }
        law_rows_collected(w, rows.drop_first(), decoded.drop_first(), eof);
        assert(w.result.rows + decoded.drop_first() =~= v.result.rows + decoded);
    }
}

impl MysqlExec {
    /// Starts executing a query: the machine and the packet to send
    /// (sequence id 0).
    pub fn new(query: &Query) -> (r: (Self, Vec<u8>))
        ensures
            r.0@ == exec_start(),
            r.1@ == spec_encode(spec_query(query@), 0),
    {
        let payload = Message::query(query.sql());
        let packet = Message::encode(payload.as_slice(), 0);
        let columns: Vec<Column> = Vec::new();
        assert(columns_view(columns@) =~= seq![]);
        (
            Self {
                phase: ExecPhase::AwaitFirst,
                remaining: 0,
                columns,
                column_types: Vec::new(),
                flags: Vec::new(),
                result: QueryResult::new(),
            },
            packet,
        )
    }

    /// Whether execution is over.
    pub fn is_finished(&self) -> (r: bool)
        ensures
            r == (self@.phase == ExecPhase::Finished),
    {
        self.phase == ExecPhase::Finished
    }

    fn move_columns_to_result(&mut self)
        ensures
            final(self)@ == (ExecView {
                columns: seq![],
                result: QueryResultView {
                    columns: old(self)@.columns,
                    rows: old(self)@.result.rows,
                },
                ..old(self)@
            }),
    {
        let mut columns: Vec<Column> = Vec::new();
        std::mem::swap(&mut columns, &mut self.columns);
        self.result.set_columns(columns);
        assert(columns_view(self.columns@) =~= seq![]);
    }

    fn take_result(&mut self) -> (r: QueryResult)
        ensures
            r@ == old(self)@.result,
            final(self)@ == (ExecView { result: empty_result(), ..old(self)@ }),
    {
        let mut result = QueryResult::new();
        std::mem::swap(&mut result, &mut self.result);
        result
    }

    /// Takes the next server packet.
    pub fn step(&mut self, message: Message) -> (r: ExecAction)
        ensures
            (final(self)@, r@) == spec_exec_step(old(self)@, message@),
    {
        match self.phase {
            ExecPhase::AwaitFirst => {
                if message.message_type == OK_PACKET {
                    self.phase = ExecPhase::Finished;
                    return ExecAction::Finish(Ok(QueryResult::new()));
                }
                if message.message_type == ERR_PACKET {
                    self.phase = ExecPhase::Finished;
                    return ExecAction::Finish(Err(parse_error_packet(message.payload.as_slice())));
                }
                let column_count = match ResultParser::parse_column_count(
                    message.payload.as_slice(),
                ) {
                    Ok(n) => n,
                    Err(e) => {
                        self.phase = ExecPhase::Finished;
                        return ExecAction::Finish(Err(DbError::from(e)));
                    },
                };
                if column_count == 0 {
                    self.phase = ExecPhase::AwaitEof;
                    self.remaining = 0;
                    self.move_columns_to_result();
                } else {
                    self.phase = ExecPhase::AwaitColumns;
                    self.remaining = column_count;
                }
                ExecAction::Receive
            },
            ExecPhase::AwaitColumns => {
                match ResultParser::parse_column_definition(message.payload.as_slice()) {
                    Err(e) => {
                        self.phase = ExecPhase::Finished;
                        ExecAction::Finish(Err(DbError::from(e)))
                    },
                    Ok((column, column_type, column_flags)) => {
                        let ghost before = columns_view(self.columns@);
                        let ghost cv = column@;
                        self.columns.push(column);
                        assert(columns_view(self.columns@) =~= before.push(cv));
                        self.column_types.push(column_type);
                        self.flags.push(column_flags);
                        if self.remaining <= 1 {
                            self.phase = ExecPhase::AwaitEof;
                            self.remaining = 0;
                            self.move_columns_to_result();
                        } else {
                            self.remaining = self.remaining - 1;
                        }
                        ExecAction::Receive
                    },
                }
            },
            ExecPhase::AwaitEof => {
                if message.message_type != EOF_PACKET {
                    self.phase = ExecPhase::Finished;
                    return ExecAction::Finish(
                        Err(DbError::new(owned("Expected EOF after column definitions"))),
                    );
                }
                self.phase = ExecPhase::AwaitRows;
                ExecAction::Receive
            },
            ExecPhase::AwaitRows => {
                if message.message_type == EOF_PACKET {
                    self.phase = ExecPhase::Finished;
                    let result = self.take_result();
                    return ExecAction::Finish(Ok(result));
                }
                if message.message_type == ERR_PACKET {
                    self.phase = ExecPhase::Finished;
                    return ExecAction::Finish(Err(parse_error_packet(message.payload.as_slice())));
                }
                match ResultParser::parse_row(
                    message.payload.as_slice(),
                    self.result.columns(),
                    self.column_types.as_slice(),
                    self.flags.as_slice(),
                ) {
                    Err(e) => {
                        self.phase = ExecPhase::Finished;
                        ExecAction::Finish(Err(DbError::from(e)))
                    },
                    Ok(row) => {
                        self.result.add_row(row);
                        ExecAction::Receive
                    },
                }
            },
            ExecPhase::Finished => ExecAction::Finish(Ok(QueryResult::new())),
        }
    }
}

} // verus!
