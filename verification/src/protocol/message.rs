//! PostgreSQL frontend messages the client sends during start-up and
//! authentication, and the classification of backend messages.
use vstd::prelude::*;
use vstd::utf8::*;

use crate::wire::{append_bytes, be4, be4_bytes, lemma_be4_roundtrip, push_be_u32};

verus! {

/// A backend message: its type byte and payload (without the length field).
pub struct Message {
    message_type: u8,
    payload: Vec<u8>,
}

/// A backend message as plain values.
#[verifier::ext_equal]
pub struct MessageView {
    pub message_type: u8,
    pub payload: Seq<u8>,
}

impl View for Message {
    type V = MessageView;

    closed spec fn view(&self) -> MessageView {
        MessageView { message_type: self.message_type, payload: self.payload@ }
    }
}

/// A backend message classified by its type byte.
pub enum ServerMessage {
    Authentication(Vec<u8>),
    ParameterStatus(Vec<u8>),
    BackendKeyData(Vec<u8>),
    ReadyForQuery(Vec<u8>),
    ErrorResponse(Vec<u8>),
    Unknown(u8, Vec<u8>),
}

/// A classified backend message as plain values.
#[verifier::ext_equal]
pub enum ServerMessageView {
    Authentication(Seq<u8>),
    ParameterStatus(Seq<u8>),
    BackendKeyData(Seq<u8>),
    ReadyForQuery(Seq<u8>),
    ErrorResponse(Seq<u8>),
    Unknown(u8, Seq<u8>),
}

impl View for ServerMessage {
    type V = ServerMessageView;

    open spec fn view(&self) -> ServerMessageView {
        match self {
            ServerMessage::Authentication(p) => ServerMessageView::Authentication(p@),
            ServerMessage::ParameterStatus(p) => ServerMessageView::ParameterStatus(p@),
            ServerMessage::BackendKeyData(p) => ServerMessageView::BackendKeyData(p@),
            ServerMessage::ReadyForQuery(p) => ServerMessageView::ReadyForQuery(p@),
            ServerMessage::ErrorResponse(p) => ServerMessageView::ErrorResponse(p@),
            ServerMessage::Unknown(t, p) => ServerMessageView::Unknown(*t, p@),
        }
    }
}

/// The classification by type byte: `R` authentication, `S` parameter
/// status, `K` backend key data, `Z` ready for query, `E` error response.
pub open spec fn spec_classify(t: u8, p: Seq<u8>) -> ServerMessageView {
    if t == 82 {
        ServerMessageView::Authentication(p)
    } else if t == 83 {
        ServerMessageView::ParameterStatus(p)
    } else if t == 75 {
        ServerMessageView::BackendKeyData(p)
    } else if t == 90 {
        ServerMessageView::ReadyForQuery(p)
    } else if t == 69 {
        ServerMessageView::ErrorResponse(p)
    } else {
        ServerMessageView::Unknown(t, p)
    }
}

/// The bytes `user`.
pub open spec fn user_key() -> Seq<u8> {
    seq![117u8, 115, 101, 114]
}

/// The bytes `database`.
pub open spec fn database_key() -> Seq<u8> {
    seq![100u8, 97, 116, 97, 98, 97, 115, 101]
}

/// The body of a `StartupMessage` after its length: protocol version 3.0
/// (196608), then `user`, the user name, `database`, the database name, each
/// NUL-terminated, and a final NUL.
pub open spec fn startup_body(username: Seq<char>, db_name: Seq<char>) -> Seq<u8> {
    be4_bytes(196608) + user_key() + seq![0u8] + encode_utf8(username) + seq![0u8]
        + database_key() + seq![0u8] + encode_utf8(db_name) + seq![0u8] + seq![0u8]
}

/// A `StartupMessage`: a 32-bit big-endian length that counts itself, then
/// the body.
pub open spec fn spec_startup(username: Seq<char>, db_name: Seq<char>) -> Seq<u8> {
    let body = startup_body(username, db_name);
    be4_bytes((body.len() + 4) as u32) + body
}

/// A typed frontend message: the type byte, a 32-bit big-endian length that
/// counts itself and the body but not the type byte, then the body.
pub open spec fn typed_message(t: u8, body: Seq<u8>) -> Seq<u8> {
    seq![t] + be4_bytes((body.len() + 4) as u32) + body
}

/// The body of a `SASLInitialResponse`: the mechanism name (NUL-terminated),
/// the length of the client message (32-bit big-endian) and the message.
pub open spec fn sasl_initial_body(mechanism: Seq<char>, client_message: Seq<char>) -> Seq<u8> {
    encode_utf8(mechanism) + seq![0u8] + be4_bytes(encode_utf8(client_message).len() as u32)
        + encode_utf8(client_message)
}

impl Message {
    pub fn new(message_type: u8, payload: Vec<u8>) -> (r: Self)
        ensures
            r@ == (MessageView { message_type, payload: payload@ }),
    {
        Self { message_type, payload }
    }

    /// The `StartupMessage` for a user and database.
    pub fn startup(username: &str, db_name: &str) -> (r: Vec<u8>)
        ensures
            r@ == spec_startup(username@, db_name@),
    {
        let mut body: Vec<u8> = Vec::new();
        // Protocol version 3.0
        push_be_u32(&mut body, 196608u32);
        let user: [u8; 4] = [117, 115, 101, 114];
        append_bytes(&mut body, &user);
        body.push(0);
        append_bytes(&mut body, username.as_bytes());
        body.push(0);
        let database: [u8; 8] = [100, 97, 116, 97, 98, 97, 115, 101];
        append_bytes(&mut body, &database);
        body.push(0);
        append_bytes(&mut body, db_name.as_bytes());
        body.push(0);
        // Terminator of the parameter list
        body.push(0);
        assert(user@ =~= user_key());
        assert(database@ =~= database_key());
        assert(body@ =~= startup_body(username@, db_name@));
        let total = body.len() as u128 + 4;
        let length = #[verifier::truncate] (total as u32);
        let mut message: Vec<u8> = Vec::new();
        push_be_u32(&mut message, length);
        append_bytes(&mut message, body.as_slice());
        message
    }

    /// The `SASLInitialResponse` naming the mechanism and carrying the
    /// client-first-message.
    pub fn sasl_initial_response(mechanism: &str, client_message: &str) -> (r: Vec<u8>)
        ensures
            r@ == typed_message(112, sasl_initial_body(mechanism@, client_message@)),
    {
        let mechanism_bytes = mechanism.as_bytes();
        let client_bytes = client_message.as_bytes();
        let mut body: Vec<u8> = Vec::new();
        append_bytes(&mut body, mechanism_bytes);
        body.push(0);
        let ghost b1 = body@;
        assert(b1 == encode_utf8(mechanism@) + seq![0u8]);
        let response_length = #[verifier::truncate] (client_bytes.len() as u32);
        push_be_u32(&mut body, response_length);
        let ghost b2 = body@;
        assert(b2 == b1 + be4_bytes(encode_utf8(client_message@).len() as u32));
        append_bytes(&mut body, client_bytes);
        assert(body@ == b2 + encode_utf8(client_message@));
        Self::typed(112, body)
    }

    /// The `SASLResponse` carrying the client-final-message.
    pub fn sasl_response(client_message: &str) -> (r: Vec<u8>)
        ensures
            r@ == typed_message(112, encode_utf8(client_message@)),
    {
        let mut body: Vec<u8> = Vec::new();
        append_bytes(&mut body, client_message.as_bytes());
        Self::typed(112, body)
    }

    /// The simple-query message `Q` carrying the statement text,
    /// NUL-terminated.
    pub fn query(sql: &str) -> (r: Vec<u8>)
        ensures
            r@ == typed_message(81, encode_utf8(sql@) + seq![0u8]),
    {
        let mut body: Vec<u8> = Vec::new();
        append_bytes(&mut body, sql.as_bytes());
        body.push(0);
        Self::typed(81, body)
    }

    fn typed(message_type: u8, body: Vec<u8>) -> (r: Vec<u8>)
        ensures
            r@ == typed_message(message_type, body@),
    {
        let mut message: Vec<u8> = Vec::new();
        message.push(message_type);
        let total = body.len() as u128 + 4;
        let length = #[verifier::truncate] (total as u32);
        push_be_u32(&mut message, length);
        append_bytes(&mut message, body.as_slice());
        assert(message@ =~= typed_message(message_type, body@));
        message
    }

    /// Classifies the message by its type byte.
    pub fn parse(self) -> (r: ServerMessage)
        ensures
            r@ == spec_classify(self@.message_type, self@.payload),
    {
        match self.message_type {
            82 => ServerMessage::Authentication(self.payload),
            83 => ServerMessage::ParameterStatus(self.payload),
            75 => ServerMessage::BackendKeyData(self.payload),
            90 => ServerMessage::ReadyForQuery(self.payload),
            69 => ServerMessage::ErrorResponse(self.payload),
            other => ServerMessage::Unknown(other, self.payload),
        }
    }
}

/// Framing of typed frontend messages: the length field after the type byte
/// equals the number of bytes that follow the type byte, whenever that
/// number fits in 32 bits; the body follows the length field unchanged.
pub proof fn law_typed_message_framing(t: u8, body: Seq<u8>)
    requires
        body.len() + 4 <= 0xffff_ffff,
    ensures
        typed_message(t, body)[0] == t,
        be4(typed_message(t, body), 1) == typed_message(t, body).len() - 1,
        typed_message(t, body).skip(5) == body,
{
    let m = typed_message(t, body);
    lemma_be4_roundtrip((body.len() + 4) as u32);
    assert(m.subrange(1, 5) =~= be4_bytes((body.len() + 4) as u32));
    assert(m.skip(5) =~= body);
}

/// Framing of the start-up message: its leading length field equals its
/// total length, whenever that fits in 32 bits.
pub proof fn law_startup_framing(username: Seq<char>, db_name: Seq<char>)
    requires
        spec_startup(username, db_name).len() <= 0xffff_ffff,
    ensures
        be4(spec_startup(username, db_name), 0) == spec_startup(username, db_name).len(),
{
    let body = startup_body(username, db_name);
    lemma_be4_roundtrip((body.len() + 4) as u32);
    assert(spec_startup(username, db_name).subrange(0, 4) =~= be4_bytes((body.len() + 4) as u32));
}

} // verus!
