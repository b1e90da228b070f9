use rust_sql::backend::postgres::{payload_length, ExecAction, OpenAction, PostgresExec, PostgresOpen};
use rust_sql::postgres_protocol::result::ResultParser;
use rust_sql::protocol::authentication::AuthKind;
use rust_sql::protocol::message::{Message, ServerMessage};
use rust_sql::protocol::scram::ScramClient;
use rust_sql::table::FloatValue;
use rust_sql::{Column, Query, Value, ValueType};

const CLIENT_NONCE: &str = "rOprNGfwEbeRWgbNEkqO";
const SERVER_FIRST: &str =
    "r=rOprNGfwEbeRWgbNEkqO%hvYDpWUa2RaTCAfuxFIlj)hNlF$k0,s=W22ZaJ0SNY7soEsUEjb6gQ==,i=4096";
const CLIENT_FINAL: &str = "c=biws,r=rOprNGfwEbeRWgbNEkqO%hvYDpWUa2RaTCAfuxFIlj)hNlF$k0,p=dHzbZapWIk4jUhN+Ute9ytag9zjfMHgsqmmiz7AndVQ=";
const SERVER_FINAL: &str = "v=6rriTRBi23WpRR/wtup+mMhUZUn/dB5nLTJRsjl95G4=";

fn typed(t: u8, body: &[u8]) -> Vec<u8> {
    let mut v = vec![t];
    v.extend_from_slice(&((body.len() + 4) as u32).to_be_bytes());
    v.extend_from_slice(body);
    v
}

#[test]
fn startup_message_layout() {
    let m = Message::startup("bob", "db");
    let mut body = vec![0, 3, 0, 0];
    body.extend_from_slice(b"user\0bob\0database\0db\0\0");
    let mut expected = ((body.len() + 4) as u32).to_be_bytes().to_vec();
    expected.extend(body);
    assert_eq!(m, expected);
}

#[test]
fn sasl_and_query_messages() {
    let m = Message::sasl_initial_response("SCRAM-SHA-256", "n,,n=u,r=x");
    let mut body = b"SCRAM-SHA-256\0".to_vec();
    body.extend_from_slice(&10u32.to_be_bytes());
    body.extend_from_slice(b"n,,n=u,r=x");
    assert_eq!(m, typed(b'p', &body));
    assert_eq!(Message::sasl_response("c=biws"), typed(b'p', b"c=biws"));
    assert_eq!(Message::query("SELECT 1;"), typed(b'Q', b"SELECT 1;\0"));
}

#[test]
fn backend_messages_are_classified() {
    assert!(matches!(Message::new(b'R', vec![0; 4]).parse(), ServerMessage::Authentication(_)));
    assert!(matches!(Message::new(b'S', vec![]).parse(), ServerMessage::ParameterStatus(_)));
    assert!(matches!(Message::new(b'K', vec![]).parse(), ServerMessage::BackendKeyData(_)));
    assert!(matches!(Message::new(b'Z', vec![b'I']).parse(), ServerMessage::ReadyForQuery(_)));
    assert!(matches!(Message::new(b'E', vec![]).parse(), ServerMessage::ErrorResponse(_)));
    match Message::new(b'T', vec![1]).parse() {
        ServerMessage::Unknown(t, p) => {
            assert_eq!(t, b'T');
            assert_eq!(p, vec![1]);
        }
        _ => panic!("expected Unknown"),
    }
}

#[test]
fn message_length_field() {
    assert_eq!(payload_length(&[0, 0, 0, 9]).unwrap(), 5);
    assert_eq!(payload_length(&[0, 0, 0, 4]).unwrap(), 0);
    assert_eq!(payload_length(&[0, 0, 0, 3]).unwrap_err().message, "Invalid PostgreSQL message length");
}

fn auth(code: u32, rest: &[u8]) -> Vec<u8> {
    let mut v = code.to_be_bytes().to_vec();
    v.extend_from_slice(rest);
    v
}

#[test]
fn authentication_requests() {
    assert!(matches!(AuthKind::parse(&auth(0, &[])), Ok(AuthKind::AuthenticationOk)));
    assert!(matches!(AuthKind::parse(&auth(2, &[])), Ok(AuthKind::KerberosV5)));
    assert!(matches!(AuthKind::parse(&auth(3, &[])), Ok(AuthKind::ClearTextPassword)));
    assert!(matches!(AuthKind::parse(&auth(5, &[1, 2, 3, 4])), Ok(AuthKind::MD5Password([1, 2, 3, 4]))));
    assert!(matches!(AuthKind::parse(&auth(9, &[])), Ok(AuthKind::Unknown(9))));
    match AuthKind::parse(&auth(10, b"SCRAM-SHA-256-PLUS\0SCRAM-SHA-256\0\0")) {
        Ok(AuthKind::SASL(m)) => assert_eq!(m, vec!["SCRAM-SHA-256-PLUS", "SCRAM-SHA-256"]),
        _ => panic!("expected SASL"),
    }
    match AuthKind::parse(&auth(11, b"r=abc")) {
        Ok(AuthKind::SASLContinue(s)) => assert_eq!(s, "r=abc"),
        _ => panic!("expected SASLContinue"),
    }
    match AuthKind::parse(&auth(12, b"v=xyz")) {
        Ok(AuthKind::SASLFinal(s)) => assert_eq!(s, "v=xyz"),
        _ => panic!("expected SASLFinal"),
    }
}

fn auth_error(payload: &[u8]) -> String {
    match AuthKind::parse(payload) {
        Err(e) => e.message,
        Ok(_) => panic!("expected an error"),
    }
}

#[test]
fn authentication_request_errors() {
    assert_eq!(auth_error(&[0, 0]), "Invalid authentication message");
    assert_eq!(auth_error(&auth(5, &[1, 2])), "Invalid MD5 authentication payload");
    assert_eq!(auth_error(&auth(10, b"\0")), "No SASL mechanisms found");
    assert_eq!(auth_error(&auth(10, &[0xff, 0])), "Invalid UTF-8 in SASL mechanism");
    assert_eq!(auth_error(&auth(11, &[0xff])), "Invalid UTF-8 in SASL continue message");
    assert_eq!(auth_error(&auth(12, &[0xff])), "Invalid UTF-8 in SASL final message");
}

#[test]
fn scram_rfc7677_exchange() {
    let mut scram = ScramClient::with_nonce("user", "pencil", CLIENT_NONCE);
    assert_eq!(scram.client_nonce(), CLIENT_NONCE);
    assert_eq!(scram.first_message(), "n,,n=user,r=rOprNGfwEbeRWgbNEkqO");
    scram.handle_server_first(SERVER_FIRST).unwrap();
    assert_eq!(scram.final_message().unwrap(), CLIENT_FINAL);
    scram.handle_server_final(SERVER_FINAL).unwrap();
}

#[test]
fn scram_fresh_nonce() {
    let scram = ScramClient::new("user", "pencil");
    let nonce = scram.client_nonce().to_string();
    assert_eq!(nonce.len(), 32);
    assert!(nonce.bytes().all(|b| b.is_ascii_alphanumeric()));
    assert_eq!(scram.first_message(), format!("n,,n=user,r={}", nonce));
}

fn first_error(message: &str) -> String {
    let mut scram = ScramClient::with_nonce("user", "pencil", CLIENT_NONCE);
    scram.handle_server_first(message).unwrap_err().message
}

#[test]
fn scram_server_first_errors() {
    assert_eq!(first_error("r=other,s=QQ==,i=1"), "Server nonce does not contain client nonce");
    assert_eq!(first_error("s=QQ==,i=1"), "Missing server nonce");
    assert_eq!(first_error("r=rOprNGfwEbeRWgbNEkqOx,i=1"), "Missing SCRAM salt");
    assert_eq!(first_error("r=rOprNGfwEbeRWgbNEkqOx,s=QQ=="), "Missing SCRAM iterations");
    assert_eq!(first_error("r=rOprNGfwEbeRWgbNEkqOx,s=QQ==,i=x"), "Invalid SCRAM iteration count");
    assert_eq!(first_error("garbage"), "Invalid SCRAM server-first-message");
}

#[test]
fn scram_server_final_errors() {
    let mut scram = ScramClient::with_nonce("user", "pencil", CLIENT_NONCE);
    scram.handle_server_first(SERVER_FIRST).unwrap();
    assert_eq!(
        scram.handle_server_final("v=AAAA").unwrap_err().message,
        "SCRAM server signature mismatch"
    );
    assert_eq!(
        scram.handle_server_final("e=invalid-proof").unwrap_err().message,
        "SCRAM authentication failed: invalid-proof"
    );
    assert_eq!(
        scram.handle_server_final("v=!!").unwrap_err().message,
        "Invalid SCRAM server signature"
    );
    assert_eq!(
        scram.handle_server_final("x").unwrap_err().message,
        "Invalid SCRAM server-final-message"
    );
    let mut fresh = ScramClient::with_nonce("user", "pencil", CLIENT_NONCE);
    assert_eq!(fresh.final_message().unwrap_err().message, "Missing SCRAM salt");
}

fn field(name: &str, oid: u32, format: i16) -> Vec<u8> {
    let mut v = name.as_bytes().to_vec();
    v.push(0);
    v.extend_from_slice(&0u32.to_be_bytes());
    v.extend_from_slice(&0i16.to_be_bytes());
    v.extend_from_slice(&oid.to_be_bytes());
    v.extend_from_slice(&4i16.to_be_bytes());
    v.extend_from_slice(&(-1i32).to_be_bytes());
    v.extend_from_slice(&format.to_be_bytes());
    v
}

fn row_description(fields: &[Vec<u8>]) -> Vec<u8> {
    let mut v = (fields.len() as i16).to_be_bytes().to_vec();
    for f in fields {
        v.extend_from_slice(f);
    }
    v
}

fn data_row(values: &[Option<&[u8]>]) -> Vec<u8> {
    let mut v = (values.len() as i16).to_be_bytes().to_vec();
    for x in values {
        match x {
            Some(b) => {
                v.extend_from_slice(&(b.len() as i32).to_be_bytes());
                v.extend_from_slice(b);
            }
            None => v.extend_from_slice(&(-1i32).to_be_bytes()),
        }
    }
    v
}

#[test]
fn row_description_fields() {
    let p = row_description(&[field("id", 23, 0), field("ok", 16, 1), field("x", 1700, 0)]);
    let (columns, oids, formats) = ResultParser::parse_row_description(&p).unwrap();
    assert_eq!(columns.len(), 3);
    assert_eq!(columns[0].name, "id");
    assert_eq!(columns[0].value_type, ValueType::Int);
    assert_eq!(columns[1].value_type, ValueType::Bool);
    assert_eq!(columns[2].value_type, ValueType::Float);
    assert_eq!(oids, vec![23, 16, 1700]);
    assert_eq!(formats, vec![0, 1, 0]);
}

fn description_error(p: &[u8]) -> String {
    match ResultParser::parse_row_description(p) {
        Err(e) => e.message,
        Ok(_) => panic!("expected an error"),
    }
}

#[test]
fn row_description_errors() {
    assert_eq!(description_error(&[0]), "Invalid RowDescription payload");
    assert_eq!(description_error(&[0xff, 0xff]), "Invalid number of fields");
    assert_eq!(description_error(&row_description(&[field("a", 600, 0)])), "Unsupported PostgreSQL type OID: 600");
    assert_eq!(description_error(&[0, 1, b'a']), "Missing null terminator");
    assert_eq!(description_error(&[0, 1, b'a', 0, 1]), "Unexpected end of payload");
}

fn col(name: &str, t: ValueType) -> Column {
    Column { name: name.to_string(), value_type: t }
}

#[test]
fn data_rows_in_text_and_binary() {
    let columns = vec![
        col("i", ValueType::Int),
        col("s", ValueType::String),
        col("b", ValueType::Bool),
        col("f", ValueType::Float),
        col("n", ValueType::String),
        col("i4", ValueType::Int),
        col("f8", ValueType::Float),
        col("bb", ValueType::Bool),
    ];
    let oids = [23u32, 25, 16, 1700, 25, 23, 701, 16];
    let formats = [0i16, 0, 0, 0, 0, 1, 1, 1];
    let f8 = 2.5f64.to_bits().to_be_bytes();
    let p = data_row(&[
        Some(b"1"),
        Some(b"hello"),
        Some(b"t"),
        Some(b"3.14"),
        None,
        Some(&(-7i32).to_be_bytes()),
        Some(&f8),
        Some(&[1]),
    ]);
    let row = ResultParser::parse_data_row(&p, &columns, &oids, &formats).unwrap();
    let v = row.values();
    assert!(matches!(v[0], Value::Int(1)));
    assert!(matches!(&v[1], Value::String(s) if s == "hello"));
    assert!(matches!(v[2], Value::Bool(true)));
    assert!(matches!(&v[3], Value::Float(FloatValue::Text(s)) if s == "3.14"));
    assert!(matches!(v[4], Value::Null));
    assert!(matches!(v[5], Value::Int(-7)));
    match &v[6] {
        Value::Float(FloatValue::Double(bits)) => assert_eq!(f64::from_bits(*bits), 2.5),
        other => panic!("unexpected {:?}", other),
    }
    assert!(matches!(v[7], Value::Bool(true)));
}

fn row_error(p: &[u8], columns: &[Column], oids: &[u32], formats: &[i16]) -> String {
    match ResultParser::parse_data_row(p, columns, oids, formats) {
        Err(e) => e.message,
        Ok(_) => panic!("expected an error"),
    }
}

#[test]
fn data_row_errors() {
    let ints = vec![col("i", ValueType::Int)];
    assert_eq!(row_error(&[0], &ints, &[23], &[0]), "Invalid DataRow payload");
    assert_eq!(row_error(&data_row(&[]), &ints, &[23], &[0]), "DataRow columns mismatch");
    assert_eq!(row_error(&data_row(&[Some(b"x")]), &ints, &[23], &[0]), "Invalid PostgreSQL integer");
    assert_eq!(row_error(&data_row(&[Some(b"1")]), &ints, &[23], &[]), "Format codes mismatch");
    assert_eq!(row_error(&data_row(&[Some(b"1")]), &ints, &[], &[0]), "Type OIDs mismatch");
    assert_eq!(row_error(&data_row(&[Some(b"1")]), &ints, &[23], &[2]), "Unsupported PostgreSQL format code");
    assert_eq!(row_error(&data_row(&[Some(&[0, 1])]), &ints, &[23], &[1]), "Invalid int4 value");
    assert_eq!(row_error(&[0, 1, 0, 0, 0, 5, b'1'], &ints, &[23], &[0]), "Unexpected end of DataRow payload");
    let bools = vec![col("b", ValueType::Bool)];
    assert_eq!(row_error(&data_row(&[Some(b"x")]), &bools, &[16], &[0]), "Invalid PostgreSQL boolean");
}

fn step(open: &mut PostgresOpen, t: u8, payload: Vec<u8>) -> OpenAction {
    open.step(Message::new(t, payload))
}

#[test]
fn open_with_scram() {
    let (mut open, startup) = PostgresOpen::with_nonce("user", "pencil", "db", CLIENT_NONCE);
    assert_eq!(startup, Message::startup("user", "db"));
    match step(&mut open, b'R', auth(10, b"SCRAM-SHA-256\0\0")) {
        OpenAction::Send(bytes) => assert_eq!(
            bytes,
            Message::sasl_initial_response("SCRAM-SHA-256", "n,,n=user,r=rOprNGfwEbeRWgbNEkqO")
        ),
        _ => panic!("expected the client-first-message"),
    }
    match step(&mut open, b'R', auth(11, SERVER_FIRST.as_bytes())) {
        OpenAction::Send(bytes) => assert_eq!(bytes, Message::sasl_response(CLIENT_FINAL)),
        _ => panic!("expected the client-final-message"),
    }
    assert!(matches!(step(&mut open, b'R', auth(12, SERVER_FINAL.as_bytes())), OpenAction::Receive));
    assert!(matches!(step(&mut open, b'R', auth(0, &[])), OpenAction::Receive));
    assert!(matches!(step(&mut open, b'S', b"a\0b\0".to_vec()), OpenAction::Receive));
    assert!(!open.is_finished());
    assert!(matches!(step(&mut open, b'Z', vec![b'I']), OpenAction::Finish(Ok(()))));
    assert!(open.is_finished());
}

#[test]
fn open_outcomes() {
    let (mut open, _) = PostgresOpen::with_nonce("u", "p", "db", CLIENT_NONCE);
    assert!(matches!(step(&mut open, b'R', auth(0, &[])), OpenAction::Receive));
    assert!(matches!(step(&mut open, b'K', vec![0; 8]), OpenAction::Receive));
    assert!(matches!(step(&mut open, b'Z', vec![b'I']), OpenAction::Finish(Ok(()))));
    let (mut open, _) = PostgresOpen::with_nonce("u", "p", "db", CLIENT_NONCE);
    match step(&mut open, b'R', auth(10, b"OTHER\0\0")) {
        OpenAction::Finish(Err(e)) => assert_eq!(e.message, "SCRAM-SHA-256 is not supported by server"),
        _ => panic!("expected an error"),
    }
    let (mut open, _) = PostgresOpen::with_nonce("u", "p", "db", CLIENT_NONCE);
    match step(&mut open, b'E', vec![1, 2]) {
        OpenAction::Finish(Err(e)) => assert_eq!(e.message, "Error: [1, 2]"),
        _ => panic!("expected an error"),
    }
    assert!(open.is_finished());
    let (mut open, _) = PostgresOpen::with_nonce("user", "pencil", "db", CLIENT_NONCE);
    assert!(matches!(step(&mut open, b'R', auth(10, b"SCRAM-SHA-256\0\0")), OpenAction::Send(_)));
    match step(&mut open, b'R', auth(0, &[])) {
        OpenAction::Finish(Err(e)) => assert_eq!(e.message, "Expected SASL Continue message"),
        _ => panic!("expected an error"),
    }
}

#[test]
fn open_refuses_unknown_message_while_waiting() {
    let (mut open, _) = PostgresOpen::with_nonce("user", "pencil", "db", CLIENT_NONCE);
    assert!(matches!(step(&mut open, b'R', auth(10, b"SCRAM-SHA-256\0\0")), OpenAction::Send(_)));
    assert!(matches!(step(&mut open, b'R', auth(11, SERVER_FIRST.as_bytes())), OpenAction::Send(_)));
    assert!(matches!(step(&mut open, b'R', auth(12, SERVER_FINAL.as_bytes())), OpenAction::Receive));
    match step(&mut open, b'X', vec![]) {
        OpenAction::Finish(Err(e)) => assert_eq!(e.message, "Unknown message type: 88"),
        _ => panic!("expected an error"),
    }
}

#[test]
fn exec_collects_rows() {
    let (mut exec, bytes) = PostgresExec::new(&Query::new("SELECT 1, 'hello';"));
    assert_eq!(bytes, Message::query("SELECT 1, 'hello';"));
    let desc = row_description(&[field("a", 23, 0), field("b", 25, 0)]);
    assert!(matches!(exec.step(Message::new(b'T', desc)), ExecAction::Receive));
    let row = data_row(&[Some(b"1"), Some(b"hello")]);
    assert!(matches!(exec.step(Message::new(b'D', row)), ExecAction::Receive));
    assert!(matches!(exec.step(Message::new(b'C', b"SELECT 1\0".to_vec())), ExecAction::Receive));
    assert!(!exec.is_finished());
    match exec.step(Message::new(b'Z', vec![b'I'])) {
        ExecAction::Finish(Ok(result)) => {
            assert_eq!(result.columns().len(), 2);
            assert_eq!(result.rows().len(), 1);
            assert!(matches!(result.rows()[0].values()[0], Value::Int(1)));
            assert!(matches!(&result.rows()[0].values()[1], Value::String(s) if s == "hello"));
            assert!(result.dataframe().is_ok());
        }
        _ => panic!("expected a result"),
    }
    assert!(exec.is_finished());
}

#[test]
fn exec_reports_errors_at_ready() {
    let (mut exec, _) = PostgresExec::new(&Query::new("SELEC"));
    assert!(matches!(exec.step(Message::new(b'E', vec![83, 0])), ExecAction::Receive));
    match exec.step(Message::new(b'Z', vec![b'I'])) {
        ExecAction::Finish(Err(e)) => assert_eq!(e.message, "error: [83, 0]"),
        _ => panic!("expected an error"),
    }
    let (mut exec, _) = PostgresExec::new(&Query::new("SELECT x"));
    assert!(matches!(exec.step(Message::new(b'T', vec![0])), ExecAction::Receive));
    match exec.step(Message::new(b'Z', vec![b'I'])) {
        ExecAction::Finish(Err(e)) => assert_eq!(e.message, "Invalid RowDescription payload"),
        _ => panic!("expected an error"),
    }
}

#[test]
fn open_refuses_unsupported_requests() {
    for code in [2u32, 3, 9] {
        let (mut open, _) = PostgresOpen::with_nonce("u", "p", "db", CLIENT_NONCE);
        match step(&mut open, b'R', auth(code, &[])) {
            OpenAction::Finish(Err(e)) => assert_eq!(e.message, "Unsupported PostgreSQL authentication method"),
            _ => panic!("expected an error"),
        }
    }
    let (mut open, _) = PostgresOpen::with_nonce("u", "p", "db", CLIENT_NONCE);
    match step(&mut open, b'R', auth(5, &[1, 2, 3, 4])) {
        OpenAction::Finish(Err(e)) => assert_eq!(e.message, "Unsupported PostgreSQL authentication method"),
        _ => panic!("expected an error"),
    }
    let (mut open, _) = PostgresOpen::with_nonce("u", "p", "db", CLIENT_NONCE);
    match step(&mut open, b'S', b"a\0b\0".to_vec()) {
        OpenAction::Finish(Err(e)) => assert_eq!(e.message, "Expected Authentication message"),
        _ => panic!("expected an error"),
    }
}

#[test]
fn open_fails_on_error_after_authentication() {
    let (mut open, _) = PostgresOpen::with_nonce("u", "p", "nodb", CLIENT_NONCE);
    assert!(matches!(step(&mut open, b'R', auth(0, &[])), OpenAction::Receive));
    match step(&mut open, b'E', vec![83, 70, 0]) {
        OpenAction::Finish(Err(e)) => assert_eq!(e.message, "Error: [83, 70, 0]"),
        _ => panic!("expected an error"),
    }
    assert!(open.is_finished());
}
