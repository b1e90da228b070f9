use rust_sql::backend::mysql::{parse_error_packet, ExecAction, MysqlExec, MysqlOpen, OpenAction};
use rust_sql::mysql_protocol::authentication::Handshake;
use rust_sql::mysql_protocol::message::{Message, ServerMessage};
use rust_sql::mysql_protocol::result::ResultParser;
use rust_sql::table::FloatValue;
use rust_sql::{Column, Query, Value, ValueType};
use rsa::pkcs8::EncodePublicKey;
use rsa::{Oaep, RsaPrivateKey, RsaPublicKey};
use sha2::{Digest, Sha256};

fn lenenc(s: &[u8]) -> Vec<u8> {
    let mut v = vec![s.len() as u8];
    v.extend_from_slice(s);
    v
}

fn column_definition(name: &str, column_type: u8, flags: u16) -> Vec<u8> {
    let mut p = Vec::new();
    p.extend(lenenc(b"def"));
    p.extend(lenenc(b"db"));
    p.extend(lenenc(b"t"));
    p.extend(lenenc(b"t"));
    p.extend(lenenc(name.as_bytes()));
    p.extend(lenenc(name.as_bytes()));
    p.push(0x0c);
    p.extend_from_slice(&[0x21, 0x00]);
    p.extend_from_slice(&[11, 0, 0, 0]);
    p.push(column_type);
    p.extend_from_slice(&flags.to_le_bytes());
    p.push(0);
    p.extend_from_slice(&[0, 0]);
    p
}

fn handshake_payload() -> Vec<u8> {
    let mut p = b"8.0.36\0".to_vec();
    p.extend_from_slice(&42u32.to_le_bytes());
    p.extend_from_slice(&[1, 2, 3, 4, 5, 6, 7, 8]);
    p.push(0);
    p.extend_from_slice(&[0xff, 0xf7]);
    p.push(255);
    p.extend_from_slice(&[2, 0]);
    p.extend_from_slice(&[0xff, 0xdf]);
    p.push(21);
    p.extend_from_slice(&[0; 10]);
    p.extend_from_slice(&[9, 10, 11, 12, 13, 14, 15, 16, 17, 18, 19, 20, 0]);
    p.extend_from_slice(b"caching_sha2_password\0");
    p
}

#[test]
fn handshake_parses_fields() {
    let h = Handshake::parse(&handshake_payload()).unwrap();
    assert_eq!(h.server_version, "8.0.36");
    assert_eq!(h.connection_id, 42);
    assert_eq!(h.capability_flags, 0xdfff_f7ff);
    assert_eq!(h.character_set, 255);
    assert_eq!(h.status_flags, 2);
    assert_eq!(h.auth_plugin_data, (1u8..=20).collect::<Vec<u8>>());
    assert_eq!(h.auth_plugin_name, "caching_sha2_password");
}

#[test]
fn handshake_without_plugin_name() {
    let mut p = handshake_payload();
    let cut = p.len() - b"caching_sha2_password\0".len();
    p.truncate(cut);
    let h = Handshake::parse(&p).unwrap();
    assert_eq!(h.auth_plugin_name, "");
    assert_eq!(h.auth_plugin_data.len(), 20);
}

#[test]
fn handshake_errors() {
    let e = Handshake::parse(b"8.0.36").err().unwrap();
    assert_eq!(e.message, "Missing NUL terminator in MySQL handshake");
    let e = Handshake::parse(b"8.0.36\0\x01\x02\x03").err().unwrap();
    assert_eq!(e.message, "Unexpected end of MySQL handshake");
    let e = Handshake::parse(&[0xff, 0xfe, 0]).err().unwrap();
    assert_eq!(e.message, "Invalid UTF-8 in MySQL handshake");
}

#[test]
fn scramble_matches_caching_sha2_formula() {
    let nonce: Vec<u8> = (1u8..=20).collect();
    let got = Handshake::scramble_password("secret", &nonce);
    let h1 = Sha256::digest(b"secret");
    let h2 = Sha256::digest(h1);
    let mut input = h2.to_vec();
    input.extend_from_slice(&nonce);
    let h3 = Sha256::digest(&input);
    let expected: Vec<u8> = h1.iter().zip(h3.iter()).map(|(a, b)| a ^ b).collect();
    assert_eq!(got, expected);
    assert_eq!(got.len(), 32);
}

#[test]
fn prepare_password_xors_cyclically() {
    let got = Handshake::prepare_password("abc", &[1, 2]);
    assert_eq!(got, vec![b'a' ^ 1, b'b' ^ 2, b'c' ^ 1, 0 ^ 2]);
}

#[test]
fn public_key_text() {
    assert_eq!(Handshake::parse_public_key(b"-----BEGIN").unwrap(), "-----BEGIN");
    let e = Handshake::parse_public_key(&[0xc3, 0x28]).unwrap_err();
    assert_eq!(e.message, "Invalid UTF-8 in MySQL RSA public key");
}

#[test]
fn packet_encoding() {
    assert_eq!(Message::encode(b"abc", 5), vec![3, 0, 0, 5, b'a', b'b', b'c']);
    assert_eq!(Message::encode(&[], 0), vec![0, 0, 0, 0]);
    let big = vec![7u8; 0x1_0203];
    let e = Message::encode(&big, 9);
    assert_eq!(&e[..4], &[0x03, 0x02, 0x01, 9]);
    assert_eq!(Message::payload_length(&[0x03, 0x02, 0x01]), 0x01_0203);
    assert_eq!(Message::query("SELECT 1"), b"\x03SELECT 1".to_vec());
}

#[test]
fn handshake_response_layout() {
    let r = Message::handshake_response("root", &[9, 8], "db", 0x0008_8208, 33, "plug");
    let mut expected = vec![0x08, 0x82, 0x08, 0x00, 0, 0, 0, 0, 33];
    expected.extend_from_slice(&[0; 23]);
    expected.extend_from_slice(b"root\0");
    expected.extend_from_slice(&[2, 9, 8]);
    expected.extend_from_slice(b"db\0plug\0");
    assert_eq!(r, expected);
}

#[test]
fn packets_are_classified_by_first_byte() {
    assert_eq!(Message::from_packet(1, Vec::new()).err().unwrap().message, "Empty MySQL packet");
    let m = Message::from_packet(3, vec![0xfe, 0, 0]).unwrap();
    assert_eq!(m.message_type, 0xfe);
    assert_eq!(m.sequence_id, 3);
    assert_eq!(m.message_type(), Some(0xfe));
    assert!(matches!(m.parse(), ServerMessage::Eof(_)));
    assert!(matches!(Message::new(0x00, 0, vec![0]).parse(), ServerMessage::OkPacket(_)));
    assert!(matches!(Message::new(0x0a, 0, vec![10]).parse(), ServerMessage::Handshake(_)));
    assert!(matches!(Message::new(0xff, 0, vec![0xff]).parse(), ServerMessage::Error(_)));
    assert!(matches!(Message::new(0x01, 0, vec![1]).parse(), ServerMessage::AuthMoreData(_)));
    match Message::new(0x05, 0, vec![5, 6]).parse() {
        ServerMessage::Unknown(t, p) => {
            assert_eq!(t, 5);
            assert_eq!(p, vec![5, 6]);
        }
        _ => panic!("expected Unknown"),
    }
}

#[test]
fn column_count_packets() {
    assert_eq!(ResultParser::parse_column_count(&[3]).unwrap(), 3);
    assert_eq!(ResultParser::parse_column_count(&[0xfc, 0x00, 0x01]).unwrap(), 256);
    assert_eq!(ResultParser::parse_column_count(&[0xfd, 1, 0, 1]).unwrap(), 0x01_0001);
    assert_eq!(ResultParser::parse_column_count(&[0xfb]).err().unwrap().message, "Invalid NULL column count");
    assert_eq!(
        ResultParser::parse_column_count(&[]).err().unwrap().message,
        "Unexpected end of MySQL payload"
    );
    assert_eq!(
        ResultParser::parse_column_count(&[0xff]).err().unwrap().message,
        "Invalid MySQL length-encoded integer"
    );
    assert_eq!(
        ResultParser::parse_column_count(&[0xfc, 1]).err().unwrap().message,
        "Unexpected end of MySQL payload"
    );
}

#[test]
fn column_definitions() {
    let (c, t, f) = ResultParser::parse_column_definition(&column_definition("id", 3, 0x20)).unwrap();
    assert_eq!(c.name, "id");
    assert_eq!(c.value_type, ValueType::Int);
    assert_eq!(t, 3);
    assert_eq!(f, 0x20);
    let (c, _, _) = ResultParser::parse_column_definition(&column_definition("x", 246, 0)).unwrap();
    assert_eq!(c.value_type, ValueType::Float);
    let (c, _, _) = ResultParser::parse_column_definition(&column_definition("x", 16, 0)).unwrap();
    assert_eq!(c.value_type, ValueType::Bool);
    let (c, _, _) = ResultParser::parse_column_definition(&column_definition("x", 252, 0)).unwrap();
    assert_eq!(c.value_type, ValueType::Bytes);
    let (c, _, _) = ResultParser::parse_column_definition(&column_definition("x", 12, 0)).unwrap();
    assert_eq!(c.value_type, ValueType::String);
    let e = ResultParser::parse_column_definition(&column_definition("x", 7, 0)).err().unwrap();
    assert_eq!(e.message, "Unsupported MySQL column type: 7");
    let mut short = column_definition("x", 3, 0);
    short.truncate(short.len() - 3);
    let e = ResultParser::parse_column_definition(&short).err().unwrap();
    assert_eq!(e.message, "Unexpected end of MySQL payload");
    let mut bad = column_definition("x", 3, 0);
    let at = bad.len() - 13;
    bad[at] = 0x0b;
    let e = ResultParser::parse_column_definition(&bad).err().unwrap();
    assert_eq!(e.message, "Invalid MySQL column definition");
}

fn col(name: &str, t: ValueType) -> Column {
    Column { name: name.to_string(), value_type: t }
}

#[test]
fn rows_decode_by_column_type() {
    let columns = vec![
        col("i", ValueType::Int),
        col("s", ValueType::String),
        col("f", ValueType::Float),
        col("b", ValueType::Bool),
        col("u", ValueType::Int),
        col("n", ValueType::String),
        col("y", ValueType::Bytes),
    ];
    let types = [3u8, 253, 246, 16, 8, 253, 252];
    let flags = [0u16, 0, 0, 0, 0x20, 0, 0];
    let mut p = Vec::new();
    p.extend(lenenc(b"-12"));
    p.extend(lenenc(b"abc"));
    p.extend(lenenc(b"3.5"));
    p.extend(lenenc(b"1"));
    p.extend(lenenc(b"18446744073709551615"));
    p.push(0xfb);
    p.extend(lenenc(&[0, 255]));
    let row = ResultParser::parse_row(&p, &columns, &types, &flags).unwrap();
    assert_eq!(row.size(), 7);
    let v = row.values();
    assert!(matches!(v[0], Value::Int(-12)));
    assert!(matches!(&v[1], Value::String(s) if s == "abc"));
    assert!(matches!(&v[2], Value::Float(FloatValue::Text(s)) if s == "3.5"));
    assert!(matches!(v[3], Value::Bool(true)));
    assert!(matches!(v[4], Value::UInt(u64::MAX)));
    assert!(matches!(v[5], Value::Null));
    assert!(matches!(&v[6], Value::Bytes(b) if b == &vec![0u8, 255]));
}

#[test]
fn row_errors() {
    let columns = vec![col("i", ValueType::Int)];
    let e = ResultParser::parse_row(&lenenc(b"x"), &columns, &[3], &[0]).err().unwrap();
    assert_eq!(e.message, "Invalid MySQL integer");
    let e = ResultParser::parse_row(&lenenc(b"1"), &columns, &[], &[0]).err().unwrap();
    assert_eq!(e.message, "Column types mismatch");
    let e = ResultParser::parse_row(&lenenc(b"1"), &columns, &[3], &[]).err().unwrap();
    assert_eq!(e.message, "Column flags mismatch");
    let e = ResultParser::parse_row(&[5, b'1'], &columns, &[3], &[0]).err().unwrap();
    assert_eq!(e.message, "Unexpected end of MySQL payload");
    let bools = vec![col("b", ValueType::Bool)];
    let e = ResultParser::parse_row(&lenenc(b"2"), &bools, &[16], &[0]).err().unwrap();
    assert_eq!(e.message, "Invalid MySQL boolean");
    let row = ResultParser::parse_row(&lenenc(b"000"), &bools, &[16], &[0]).unwrap();
    assert!(matches!(row.values()[0], Value::Bool(false)));
    let floats = vec![col("f", ValueType::Float)];
    let e = ResultParser::parse_row(&lenenc(b"1.2.3"), &floats, &[5], &[0]).err().unwrap();
    assert_eq!(e.message, "Invalid MySQL float");
    let unsigned = vec![col("u", ValueType::UInt)];
    let e = ResultParser::parse_row(&lenenc(b"-1"), &unsigned, &[8], &[0x20]).err().unwrap();
    assert_eq!(e.message, "Invalid MySQL unsigned integer");
    let strings = vec![col("s", ValueType::String)];
    let e = ResultParser::parse_row(&lenenc(&[0xff]), &strings, &[253], &[0]).err().unwrap();
    assert_eq!(e.message, "Invalid UTF-8 MySQL string");
}

#[test]
fn error_packets() {
    let mut p = vec![0x15, 0x04, b'#', b'2', b'8', b'0', b'0', b'0'];
    p.extend_from_slice(b"Access denied");
    assert_eq!(parse_error_packet(&p).message, "MySQL error 1045: Access denied");
    let mut q = vec![0x15, 0x04];
    q.extend_from_slice(b"oops");
    assert_eq!(parse_error_packet(&q).message, "MySQL error 1045: oops");
    assert_eq!(parse_error_packet(&[1]).message, "Invalid MySQL error packet");
    assert_eq!(parse_error_packet(&[0, 0, 0xff]).message, "MySQL error 0: \u{fffd}");
}

fn packet(sequence_id: u8, payload: Vec<u8>) -> Message {
    Message::from_packet(sequence_id, payload).unwrap()
}

#[test]
fn exec_collects_a_result_set() {
    let (mut exec, bytes) = MysqlExec::new(&Query::new("SELECT 1"));
    assert_eq!(bytes, b"\x09\x00\x00\x00\x03SELECT 1".to_vec());
    assert!(matches!(exec.step(packet(1, vec![1])), ExecAction::Receive));
    assert!(matches!(exec.step(packet(2, column_definition("1", 8, 0))), ExecAction::Receive));
    assert!(matches!(exec.step(packet(3, vec![0xfe, 0, 0, 2, 0])), ExecAction::Receive));
    assert!(matches!(exec.step(packet(4, lenenc(b"1"))), ExecAction::Receive));
    assert!(!exec.is_finished());
    match exec.step(packet(5, vec![0xfe, 0, 0, 2, 0])) {
        ExecAction::Finish(Ok(result)) => {
            assert_eq!(result.columns().len(), 1);
            assert_eq!(result.columns()[0].name, "1");
            assert_eq!(result.rows().len(), 1);
            assert!(matches!(result.rows()[0].values()[0], Value::Int(1)));
            assert!(result.dataframe().is_ok());
        }
        _ => panic!("expected a result"),
    }
    assert!(exec.is_finished());
}

#[test]
fn exec_without_result_set() {
    let (mut exec, _) = MysqlExec::new(&Query::new("DELETE FROM t"));
    match exec.step(packet(1, vec![0, 1, 0, 2, 0, 0, 0])) {
        ExecAction::Finish(Ok(result)) => {
            assert_eq!(result.rows().len(), 0);
            assert_eq!(result.columns().len(), 0);
        }
        _ => panic!("expected an empty result"),
    }
}

#[test]
fn exec_reports_server_errors() {
    let (mut exec, _) = MysqlExec::new(&Query::new("SELEC"));
    match exec.step(packet(1, vec![0xff, 0x28, 0x04, b'b', b'a', b'd'])) {
        ExecAction::Finish(Err(e)) => assert_eq!(e.message, "MySQL error 10495: \u{4}bad"),
        _ => panic!("expected an error"),
    }
    let (mut exec, _) = MysqlExec::new(&Query::new("SELECT 1"));
    assert!(matches!(exec.step(packet(1, vec![1])), ExecAction::Receive));
    assert!(matches!(exec.step(packet(2, column_definition("a", 3, 0))), ExecAction::Receive));
    match exec.step(packet(3, vec![0x00])) {
        ExecAction::Finish(Err(e)) => assert_eq!(e.message, "Expected EOF after column definitions"),
        _ => panic!("expected an error"),
    }
}

fn open_until_auth(password: &str) -> (MysqlOpen, Vec<u8>) {
    let mut open = MysqlOpen::new("root", password, "db");
    let mut payload = vec![0x0a];
    payload.extend(handshake_payload());
    match open.step(packet(0, payload)) {
        OpenAction::Send(bytes) => (open, bytes),
        _ => panic!("expected the handshake response"),
    }
}

#[test]
fn open_fast_authentication() {
    let (mut open, bytes) = open_until_auth("secret");
    let nonce: Vec<u8> = (1u8..=20).collect();
    let scramble = Handshake::scramble_password("secret", &nonce);
    let response =
        Message::handshake_response("root", &scramble, "db", 0x0008_8208, 255, "caching_sha2_password");
    assert_eq!(bytes, Message::encode(&response, 1));
    assert!(matches!(open.step(packet(2, vec![0x01, 0x03])), OpenAction::Receive));
    assert!(matches!(open.step(packet(3, vec![0x00, 0, 0])), OpenAction::Finish(Ok(()))));
    assert!(open.is_finished());
}

#[test]
fn open_ok_right_after_handshake() {
    let (mut open, _) = open_until_auth("");
    assert!(matches!(open.step(packet(2, vec![0x00, 0, 0])), OpenAction::Finish(Ok(()))));
}

#[test]
fn open_errors() {
    let mut open = MysqlOpen::new("root", "pw", "db");
    match open.step(packet(0, vec![0x00])) {
        OpenAction::Finish(Err(e)) => assert_eq!(e.message, "Expected MySQL handshake"),
        _ => panic!("expected an error"),
    }
    let mut open = MysqlOpen::new("root", "pw", "db");
    match open.step(packet(0, vec![0xff, 1, 2])) {
        OpenAction::Finish(Err(e)) => assert_eq!(e.message, "MySQL handshake error: [255, 1, 2]"),
        _ => panic!("expected an error"),
    }
    let (mut open, _) = open_until_auth("pw");
    match open.step(packet(2, vec![0x01, 0x07])) {
        OpenAction::Finish(Err(e)) => assert_eq!(e.message, "Unexpected MySQL AuthMoreData: [01, 07]"),
        _ => panic!("expected an error"),
    }
    let (mut open, _) = open_until_auth("pw");
    match open.step(packet(2, vec![0xff, 0x0a])) {
        OpenAction::Finish(Err(e)) => assert_eq!(e.message, "MySQL authentication error: [FF, 0A]"),
        _ => panic!("expected an error"),
    }
    let (mut open, _) = open_until_auth("pw");
    match open.step(packet(2, vec![0x01])) {
        OpenAction::Finish(Err(e)) => assert_eq!(e.message, "Invalid MySQL AuthMoreData"),
        _ => panic!("expected an error"),
    }
}

#[test]
fn open_full_authentication_with_rsa() {
    let (mut open, _) = open_until_auth("secret");
    match open.step(packet(2, vec![0x01, 0x04])) {
        OpenAction::Send(bytes) => assert_eq!(bytes, vec![1, 0, 0, 3, 2]),
        _ => panic!("expected the public key request"),
    }
    let private = RsaPrivateKey::new(&mut rsa::rand_core::OsRng, 512).unwrap();
    let public = RsaPublicKey::from(&private);
    let pem = public.to_public_key_pem(rsa::pkcs8::LineEnding::LF).unwrap();
    let sent = match open.step(packet(4, pem.as_bytes().to_vec())) {
        OpenAction::Send(bytes) => bytes,
        OpenAction::Finish(Err(e)) => panic!("unexpected error {}", e.message),
        _ => panic!("expected the encrypted password"),
    };
    assert_eq!(sent[3], 5);
    assert_eq!(sent.len(), 4 + 64);
    let plain = private.decrypt(Oaep::new::<sha1::Sha1>(), &sent[4..]).unwrap();
    let nonce: Vec<u8> = (1u8..=20).collect();
    assert_eq!(plain, Handshake::prepare_password("secret", &nonce));
    assert!(matches!(open.step(packet(6, vec![0x00])), OpenAction::Finish(Ok(()))));
}

#[test]
fn open_refuses_bad_public_key() {
    let (mut open, _) = open_until_auth("secret");
    assert!(matches!(open.step(packet(2, vec![0x01, 0x04])), OpenAction::Send(_)));
    match open.step(packet(4, b"not a key".to_vec())) {
        OpenAction::Finish(Err(_)) => {}
        _ => panic!("expected an error"),
    }
    let (mut open, _) = open_until_auth("secret");
    assert!(matches!(open.step(packet(2, vec![0x01, 0x04])), OpenAction::Send(_)));
    match open.step(packet(4, vec![0xff, 0xfe])) {
        OpenAction::Finish(Err(e)) => assert_eq!(e.message, "Invalid UTF-8 in MySQL RSA public key"),
        _ => panic!("expected an error"),
    }
}

#[test]
fn open_refuses_password_too_long_for_key() {
    let password = "p".repeat(22);
    let (mut open, _) = open_until_auth(&password);
    assert!(matches!(open.step(packet(2, vec![0x01, 0x04])), OpenAction::Send(_)));
    let private = RsaPrivateKey::new(&mut rsa::rand_core::OsRng, 512).unwrap();
    let pem = RsaPublicKey::from(&private).to_public_key_pem(rsa::pkcs8::LineEnding::LF).unwrap();
    match open.step(packet(4, pem.as_bytes().to_vec())) {
        OpenAction::Finish(Err(_)) => {}
        _ => panic!("expected an error"),
    }
    assert!(open.is_finished());
}

#[test]
fn open_sends_password_that_just_fits_key() {
    let password = "p".repeat(21);
    let (mut open, _) = open_until_auth(&password);
    assert!(matches!(open.step(packet(2, vec![0x01, 0x04])), OpenAction::Send(_)));
    let private = RsaPrivateKey::new(&mut rsa::rand_core::OsRng, 512).unwrap();
    let pem = RsaPublicKey::from(&private).to_public_key_pem(rsa::pkcs8::LineEnding::LF).unwrap();
    match open.step(packet(4, pem.as_bytes().to_vec())) {
        OpenAction::Send(bytes) => {
            assert_eq!(bytes.len(), 4 + 64);
            let plain = private.decrypt(Oaep::new::<sha1::Sha1>(), &bytes[4..]).unwrap();
            let nonce: Vec<u8> = (1u8..=20).collect();
            assert_eq!(plain, Handshake::prepare_password(&password, &nonce));
        }
        _ => panic!("expected the encrypted password"),
    }
}
