//! MySQL packets: framing, the client's handshake response and query
//! command, and the classification of server packets.
use vstd::prelude::*;
use vstd::utf8::*;

use crate::error::DbError;
use crate::text::owned;
use crate::wire::{append_bytes, le3, le4_bytes, push_le_u32, read_le_u24};

verus! {

pub const OK_PACKET: u8 = 0x00;

pub const ERR_PACKET: u8 = 0xFF;

pub const EOF_PACKET: u8 = 0xFE;

/// A server packet: its type (the first payload byte), its sequence id and
/// its whole payload.
pub struct Message {
    pub message_type: u8,
    pub sequence_id: u8,
    pub payload: Vec<u8>,
}

/// A server packet as plain values.
#[verifier::ext_equal]
pub struct MessageView {
    pub message_type: u8,
    pub sequence_id: u8,
    pub payload: Seq<u8>,
}

impl View for Message {
    type V = MessageView;

    open spec fn view(&self) -> MessageView {
        MessageView {
            message_type: self.message_type,
            sequence_id: self.sequence_id,
            payload: self.payload@,
        }
    }
}

/// A server packet classified by its type.
pub enum ServerMessage {
    Handshake(Vec<u8>),
    OkPacket(Vec<u8>),
    Error(Vec<u8>),
    Eof(Vec<u8>),
    ResultSetHeader(Vec<u8>),
    ColumnDefinition(Vec<u8>),
    Row(Vec<u8>),
    AuthMoreData(Vec<u8>),
    Unknown(u8, Vec<u8>),
}

/// A classified server packet as plain values.
#[verifier::ext_equal]
pub enum ServerMessageView {
    Handshake(Seq<u8>),
    OkPacket(Seq<u8>),
    Error(Seq<u8>),
    Eof(Seq<u8>),
    ResultSetHeader(Seq<u8>),
    ColumnDefinition(Seq<u8>),
    Row(Seq<u8>),
    AuthMoreData(Seq<u8>),
    Unknown(u8, Seq<u8>),
}

impl View for ServerMessage {
    type V = ServerMessageView;

    open spec fn view(&self) -> ServerMessageView {
        match self {
            ServerMessage::Handshake(p) => ServerMessageView::Handshake(p@),
            ServerMessage::OkPacket(p) => ServerMessageView::OkPacket(p@),
            ServerMessage::Error(p) => ServerMessageView::Error(p@),
            ServerMessage::Eof(p) => ServerMessageView::Eof(p@),
            ServerMessage::ResultSetHeader(p) => ServerMessageView::ResultSetHeader(p@),
            ServerMessage::ColumnDefinition(p) => ServerMessageView::ColumnDefinition(p@),
            ServerMessage::Row(p) => ServerMessageView::Row(p@),
            ServerMessage::AuthMoreData(p) => ServerMessageView::AuthMoreData(p@),
            ServerMessage::Unknown(t, p) => ServerMessageView::Unknown(*t, p@),
        }
    }
}

/// Classification by type: `0x00` OK, `0x0A` handshake, `0xFF` error,
/// `0xFE` EOF, `0x01` more authentication data.
pub open spec fn spec_classify(t: u8, p: Seq<u8>) -> ServerMessageView {
    if t == 0x00 {
        ServerMessageView::OkPacket(p)
    } else if t == 0x0A {
        ServerMessageView::Handshake(p)
    } else if t == 0xFF {
        ServerMessageView::Error(p)
    } else if t == 0xFE {
        ServerMessageView::Eof(p)
    } else if t == 0x01 {
        ServerMessageView::AuthMoreData(p)
    } else {
        ServerMessageView::Unknown(t, p)
    }
}

/// A packet on the wire: the payload length in three little-endian bytes
/// (the low 24 bits of its 32-bit truncation), the sequence id, the payload.
pub open spec fn spec_encode(payload: Seq<u8>, sequence_id: u8) -> Seq<u8> {
    let length = payload.len() as u32;
    seq![(length % 0x100) as u8, (length / 0x100 % 0x100) as u8, (length / 0x1_0000 % 0x100) as u8]
        + seq![sequence_id] + payload
}

/// The `HandshakeResponse41` payload: capability flags (u32 LE), maximum
/// packet size 0 (u32 LE), character set, 23 reserved zero bytes, the user
/// name (NUL-terminated), the length of the auth response (one byte, its low
/// 8 bits) and the auth response, the database name and the auth plugin name
/// (both NUL-terminated).
pub open spec fn spec_handshake_response(
    username: Seq<char>,
    auth_response: Seq<u8>,
    db_name: Seq<char>,
    capability_flags: u32,
    character_set: u8,
    auth_plugin_name: Seq<char>,
) -> Seq<u8> {
    le4_bytes(capability_flags) + le4_bytes(0) + seq![character_set] + Seq::new(23, |i: int| 0u8)
        + encode_utf8(username) + seq![0u8] + seq![auth_response.len() as u8] + auth_response
        + encode_utf8(db_name) + seq![0u8] + encode_utf8(auth_plugin_name) + seq![0u8]
}

/// The `COM_QUERY` payload: `0x03` and the statement text.
pub open spec fn spec_query(sql: Seq<char>) -> Seq<u8> {
    seq![0x03u8] + encode_utf8(sql)
}

impl Message {
    pub fn new(message_type: u8, sequence_id: u8, payload: Vec<u8>) -> (r: Self)
        ensures
            r@ == (MessageView { message_type, sequence_id, payload: payload@ }),
    {
        Self { message_type, sequence_id, payload }
    }

    /// A received packet: its type is its first payload byte; an empty
    /// payload is refused.
    pub fn from_packet(sequence_id: u8, payload: Vec<u8>) -> (r: Result<Self, DbError>)
        ensures
            payload@.len() == 0 ==> (r matches Err(e) && e.message@ == "Empty MySQL packet"@),
            payload@.len() > 0 ==> (r matches Ok(m) && m@ == (MessageView {
                message_type: payload@[0],
                sequence_id,
                payload: payload@,
            })),
    {
        if payload.len() == 0 {
            return Err(DbError::new(owned("Empty MySQL packet")));
        }
        let t = payload[0];
        Ok(Self::new(t, sequence_id, payload))
    }

    /// The payload length announced by a packet header.
    pub fn payload_length(header: &[u8]) -> (r: usize)
        requires
            header@.len() >= 3,
        ensures
            r == le3(header@, 0),
    {
        read_le_u24(header, 0) as usize
    }

    /// The packet type, the first payload byte.
    pub fn message_type(&self) -> (r: Option<u8>)
        ensures
            r == Some(self@.message_type),
    {
        Some(self.message_type)
    }

    /// The client's `HandshakeResponse41` payload.
    pub fn handshake_response(
        username: &str,
        auth_response: &[u8],
        db_name: &str,
        capability_flags: u32,
        character_set: u8,
        auth_plugin_name: &str,
    ) -> (r: Vec<u8>)
        ensures
            r@ == spec_handshake_response(
                username@,
                auth_response@,
                db_name@,
                capability_flags,
                character_set,
                auth_plugin_name@,
            ),
    {
        let mut payload: Vec<u8> = Vec::new();
        // Client capabilities
        push_le_u32(&mut payload, capability_flags);
        // Maximum packet size
        push_le_u32(&mut payload, 0);
        // Character set
        payload.push(character_set);
        let ghost p1 = payload@;
        // Reserved
        let mut i: usize = 0;
        while i < 23
            invariant
                i <= 23,
                payload@ == p1 + Seq::new(i as nat, |k: int| 0u8),
            decreases 23 - i,
        {
            payload.push(0);
            assert(Seq::new((i + 1) as nat, |k: int| 0u8) =~= Seq::new(i as nat, |k: int| 0u8).push(
                0u8,
            ));
            i = i + 1;
        }
        let ghost p2 = payload@;
        // Username
        append_bytes(&mut payload, username.as_bytes());
        payload.push(0);
        // Auth response length and data
        let auth_len = #[verifier::truncate] (auth_response.len() as u8);
        payload.push(auth_len);
        append_bytes(&mut payload, auth_response);
        let ghost p3 = payload@;
        assert(p3 == p2 + encode_utf8(username@) + seq![0u8] + seq![auth_response@.len() as u8]
            + auth_response@);
        // Database
        append_bytes(&mut payload, db_name.as_bytes());
        payload.push(0);
        // Authentication plugin name
        append_bytes(&mut payload, auth_plugin_name.as_bytes());
        payload.push(0);
        assert(payload@ =~= spec_handshake_response(
            username@,
            auth_response@,
            db_name@,
            capability_flags,
            character_set,
            auth_plugin_name@,
        ));
        payload
    }

    /// Classifies the packet by its type.
    pub fn parse(self) -> (r: ServerMessage)
        ensures
            r@ == spec_classify(self@.message_type, self@.payload),
    {
        match self.message_type {
            0x00 => ServerMessage::OkPacket(self.payload),
            0x0A => ServerMessage::Handshake(self.payload),
            0xFF => ServerMessage::Error(self.payload),
            0xFE => ServerMessage::Eof(self.payload),
            0x01 => ServerMessage::AuthMoreData(self.payload),
            _ => ServerMessage::Unknown(self.message_type, self.payload),
        }
    }

    /// Frames a payload as a packet with the given sequence id.
    pub fn encode(payload: &[u8], sequence_id: u8) -> (r: Vec<u8>)
        ensures
            r@ == spec_encode(payload@, sequence_id),
    {
        let length = #[verifier::truncate] (payload.len() as u32);
        let mut packet: Vec<u8> = Vec::new();
        packet.push((length % 0x100) as u8);
        packet.push((length / 0x100 % 0x100) as u8);
        packet.push((length / 0x1_0000 % 0x100) as u8);
        packet.push(sequence_id);
        append_bytes(&mut packet, payload);
        assert(packet@ =~= spec_encode(payload@, sequence_id));
        packet
    }

    /// The `COM_QUERY` payload for a statement.
    pub fn query(sql: &str) -> (r: Vec<u8>)
        ensures
            r@ == spec_query(sql@),
    {
        let mut payload: Vec<u8> = Vec::new();
        payload.push(0x03);
        append_bytes(&mut payload, sql.as_bytes());
        payload
    }
}

/// Packet framing round trip: for a payload shorter than 2^24 bytes, the
/// header of its encoding announces its length and sequence id, and the
/// payload follows the header unchanged.
pub proof fn law_packet_roundtrip(payload: Seq<u8>, sequence_id: u8)
    requires
        payload.len() < 0x100_0000,
    ensures
        le3(spec_encode(payload, sequence_id), 0) == payload.len(),
        spec_encode(payload, sequence_id)[3] == sequence_id,
        spec_encode(payload, sequence_id).skip(4) == payload,
{
    let e = spec_encode(payload, sequence_id);
    assert(e.skip(4) =~= payload);
}

} // verus!
