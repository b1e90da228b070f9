//! The PostgreSQL conversation as state machines: start-up with
//! SCRAM-SHA-256 authentication, and simple-query execution. Each machine
//! takes the next backend message and says what to do next; the caller does
//! the reading and writing.
use vstd::prelude::*;
use vstd::utf8::*;

use crate::error::DbError;
use crate::postgres_protocol::result::{
    ResultParser,
    lemma_data_row_len,
    spec_data_row,
    spec_row_description,
};
use crate::protocol::authentication::{AuthKind, AuthKindView, spec_auth_kind};
use crate::protocol::message::{
    Message,
    ServerMessage,
    ServerMessageView,
    sasl_initial_body,
    spec_classify,
    spec_startup,
    typed_message,
};
use crate::protocol::scram::{
    ScramClient,
    ScramView,
    is_client_nonce,
    spec_final_message,
    spec_first_message,
    spec_server_final,
    spec_server_first,
};
use crate::query::{Query, QueryResult, QueryResultView};
use crate::table::{ValueView, columns_view, rows_fit, values_view};
use crate::text::{debug_bytes, decimal_chars, owned, push_debug_bytes, push_decimal};
use crate::wire::{be4, read_be_u32};

verus! {

/// The payload length announced by a message's length field, which counts
/// itself; a length below 4 is refused.
pub fn payload_length(header: &[u8]) -> (r: Result<usize, DbError>)
    requires
        header@.len() >= 4,
    ensures
        be4(header@, 0) < 4 ==> (r matches Err(e) && e.message@
            == "Invalid PostgreSQL message length"@),
        be4(header@, 0) >= 4 ==> r == Ok::<usize, DbError>((be4(header@, 0) - 4) as usize),
{
    let length = read_be_u32(header, 0);
    if length < 4 {
        return Err(DbError::new(owned("Invalid PostgreSQL message length")));
    }
    Ok((length - 4) as usize)
}

/// Where the start-up conversation stands.
#[derive(Clone, Copy, Debug, PartialEq, Eq, Structural)]
pub enum OpenPhase {
    AwaitAuthRequest,
    AwaitSaslContinue,
    AwaitSaslFinal,
    AwaitReady,
    Finished,
}

/// The start-up conversation.
pub struct PostgresOpen {
    phase: OpenPhase,
    scram: ScramClient,
}

#[verifier::ext_equal]
pub struct OpenView {
    pub phase: OpenPhase,
    pub scram: ScramView,
}

impl View for PostgresOpen {
    type V = OpenView;

    closed spec fn view(&self) -> OpenView {
        OpenView { phase: self.phase, scram: self.scram@ }
    }
}

/// What the caller does next during start-up.
pub enum OpenAction {
    /// Write these bytes, then read the next message.
    Send(Vec<u8>),
    /// Read the next message.
    Receive,
    /// Start-up is over with this outcome.
    Finish(Result<(), DbError>),
}

#[verifier::ext_equal]
pub enum OpenActionView {
    Send(Seq<u8>),
    Receive,
    Finish(Result<(), Seq<char>>),
}

impl View for OpenAction {
    type V = OpenActionView;

    open spec fn view(&self) -> OpenActionView {
        match self {
            OpenAction::Send(b) => OpenActionView::Send(b@),
            OpenAction::Receive => OpenActionView::Receive,
            OpenAction::Finish(Ok(())) => OpenActionView::Finish(Ok(())),
            OpenAction::Finish(Err(e)) => OpenActionView::Finish(Err(e.message@)),
        }
    }
}

pub open spec fn scram_mechanism() -> Seq<char> {
    "SCRAM-SHA-256"@
}

pub open spec fn open_fail(scram: ScramView, m: Seq<char>) -> (OpenView, OpenActionView) {
    (OpenView { phase: OpenPhase::Finished, scram }, OpenActionView::Finish(Err(m)))
}

pub open spec fn open_done(scram: ScramView) -> (OpenView, OpenActionView) {
    (OpenView { phase: OpenPhase::Finished, scram }, OpenActionView::Finish(Ok(())))
}

/// One step of start-up, from the current state and the type and payload of
/// the message just read.
///
/// Awaiting the authentication request: a SASL request that offers
/// SCRAM-SHA-256 is answered with the client-first-message, and
/// `AuthenticationOk` (no password asked) goes on to await `ReadyForQuery`;
/// any other authentication method is refused, an error response (such as
/// an unknown user or database) ends start-up with its text as the error,
/// and any other message is an error. Then the server-first-message is
/// answered with the client-final-message, the server-final-message is
/// checked, and messages are read until `ReadyForQuery`; an error response
/// or a message of an unknown type there is an error. An error response ends
/// start-up with an error in every phase, also while awaiting
/// `ReadyForQuery`, where a server that accepted the password still refuses
/// the connection (an unknown database) and then closes it: a connection is
/// reported open only once the server is ready for queries.
pub open spec fn spec_open_step(v: OpenView, t: u8, p: Seq<u8>) -> (OpenView, OpenActionView) {
    match v.phase {
        OpenPhase::AwaitAuthRequest => match spec_classify(t, p) {
            ServerMessageView::Authentication(q) => match spec_auth_kind(q) {
                Err(m) => open_fail(v.scram, m),
                Ok(AuthKindView::SASL(ms)) => if ms.contains(scram_mechanism()) {
                    (
                        OpenView { phase: OpenPhase::AwaitSaslContinue, scram: v.scram },
                        OpenActionView::Send(
                            typed_message(
                                112,
                                sasl_initial_body(scram_mechanism(), spec_first_message(v.scram)),
                            ),
                        ),
                    )
                } else {
                    open_fail(v.scram, "SCRAM-SHA-256 is not supported by server"@)
                },
                Ok(AuthKindView::AuthenticationOk) => (
                    OpenView { phase: OpenPhase::AwaitReady, scram: v.scram },
                    OpenActionView::Receive,
                ),
                Ok(_) => open_fail(v.scram, "Unsupported PostgreSQL authentication method"@),
            },
            ServerMessageView::ErrorResponse(q) => open_fail(v.scram, "Error: "@ + debug_bytes(q)),
            _ => open_fail(v.scram, "Expected Authentication message"@),
        },
        OpenPhase::AwaitSaslContinue => match spec_classify(t, p) {
            ServerMessageView::Authentication(q) => match spec_auth_kind(q) {
                Err(m) => open_fail(v.scram, m),
                Ok(AuthKindView::SASLContinue(s)) => match spec_server_first(v.scram, s) {
                    Err(m) => open_fail(v.scram, m),
                    Ok(w) => match spec_final_message(w) {
                        Err(m) => open_fail(w, m),
                        Ok(f) => (
                            OpenView { phase: OpenPhase::AwaitSaslFinal, scram: w },
                            OpenActionView::Send(typed_message(112, encode_utf8(f))),
                        ),
                    },
                },
                Ok(_) => open_fail(v.scram, "Expected SASL Continue message"@),
            },
            _ => open_fail(v.scram, "Expected Authentication message"@),
        },
        OpenPhase::AwaitSaslFinal => match spec_classify(t, p) {
            ServerMessageView::Authentication(q) => match spec_auth_kind(q) {
                Err(m) => open_fail(v.scram, m),
                Ok(AuthKindView::SASLFinal(s)) => match spec_server_final(v.scram, s) {
                    Err(m) => open_fail(v.scram, m),
                    Ok(()) => (
                        OpenView { phase: OpenPhase::AwaitReady, scram: v.scram },
                        OpenActionView::Receive,
                    ),
                },
                Ok(_) => open_fail(v.scram, "Expected SASL final message"@),
            },
            _ => open_fail(v.scram, "Expected Authentication message"@),
        },
        OpenPhase::AwaitReady => match spec_classify(t, p) {
            ServerMessageView::ReadyForQuery(_) => open_done(v.scram),
            ServerMessageView::ErrorResponse(q) => open_fail(v.scram, "Error: "@ + debug_bytes(q)),
            ServerMessageView::Unknown(u, _) => open_fail(
                v.scram,
                "Unknown message type: "@ + decimal_chars(u as nat),
            ),
            _ => (v, OpenActionView::Receive),
        },
        OpenPhase::Finished => open_done(v.scram),
    }
}

/// Whether a message carries an authentication request of the given kind.
pub open spec fn is_auth_request(t: u8, p: Seq<u8>, kind: AuthKindView) -> bool {
    spec_classify(t, p) matches ServerMessageView::Authentication(q) && spec_auth_kind(q) == Ok::<
        AuthKindView,
        Seq<char>,
    >(kind)
}

/// Whether a message is a SASL final message whose server signature checks.
pub open spec fn is_verified_sasl_final(v: OpenView, t: u8, p: Seq<u8>) -> bool {
    match spec_classify(t, p) {
        ServerMessageView::Authentication(q) => match spec_auth_kind(q) {
            Ok(AuthKindView::SASLFinal(s)) => spec_server_final(v.scram, s) is Ok,
            _ => false,
        },
        _ => false,
    }
}

/// Start-up reports success only once the server is ready for queries, and
/// it gets there only when the server accepted the client: with
/// `AuthenticationOk` in answer to the start-up message, or with a
/// server-final-message whose signature checks. An error response, at any
/// point of a running start-up, ends it with an error.
pub proof fn law_open_succeeds_only_when_ready(v: OpenView, t: u8, p: Seq<u8>)
    requires
        v.phase != OpenPhase::Finished,
    ensures
        spec_open_step(v, t, p).1 == OpenActionView::Finish(Ok(())) ==> v.phase
            == OpenPhase::AwaitReady && spec_classify(t, p) is ReadyForQuery,
        spec_open_step(v, t, p).0.phase == OpenPhase::AwaitReady && v.phase != OpenPhase::AwaitReady
            ==> (v.phase == OpenPhase::AwaitAuthRequest && is_auth_request(
            t,
            p,
            AuthKindView::AuthenticationOk,
        )) || (v.phase == OpenPhase::AwaitSaslFinal && is_verified_sasl_final(v, t, p)),
        spec_classify(t, p) is ErrorResponse ==> (spec_open_step(v, t, p).1 matches OpenActionView::Finish(
            Err(_),
        )),
{
}

fn fail(message: &str) -> (r: OpenAction)
    ensures
        r@ == OpenActionView::Finish(Err(message@)),
{
    OpenAction::Finish(Err(DbError::new(owned(message))))
}

fn error_response(payload: &[u8]) -> (r: OpenAction)
    ensures
        r@ == OpenActionView::Finish(Err("Error: "@ + debug_bytes(payload@))),
{
    let mut s = owned("Error: ");
    push_debug_bytes(&mut s, payload, false);
    assert(s@ =~= "Error: "@ + (seq!['['] + crate::text::debug_items(payload@, false) + seq![']']));
    OpenAction::Finish(Err(DbError::new(s)))
}

fn contains_mechanism(mechanisms: &Vec<String>) -> (r: bool)
    ensures
        r == crate::protocol::authentication::strings_view(mechanisms@).contains(
            scram_mechanism(),
        ),
{
    let wanted = owned("SCRAM-SHA-256");
    let ghost sv = crate::protocol::authentication::strings_view(mechanisms@);
    let mut i: usize = 0;
    while i < mechanisms.len()
        invariant
            i <= mechanisms@.len(),
            wanted@ == scram_mechanism(),
            sv == crate::protocol::authentication::strings_view(mechanisms@),
            forall|k: int| 0 <= k < i ==> sv[k] != scram_mechanism(),
        decreases mechanisms@.len() - i,
    {
        if mechanisms[i] == wanted {
            assert(sv[i as int] == scram_mechanism());
            return true;
        }
        i = i + 1;
    }
    assert(!sv.contains(scram_mechanism()));
    false
}

impl PostgresOpen {
    /// Starts the conversation: the machine and the start-up message to
    /// send. The SCRAM client nonce is freshly generated.
    pub fn new(username: &str, password: &str, db_name: &str) -> (r: (Self, Vec<u8>))
        ensures
            r.0@.phase == OpenPhase::AwaitAuthRequest,
            r.0@.scram.username == username@,
            r.0@.scram.password == password@,
            is_client_nonce(r.0@.scram.client_nonce),
            r.0@.scram.server_nonce is None,
            r.0@.scram.salt is None,
            r.0@.scram.iterations is None,
            r.0@.scram.server_first_message is None,
            r.1@ == spec_startup(username@, db_name@),
    {
        let scram = ScramClient::new(username, password);
        (Self { phase: OpenPhase::AwaitAuthRequest, scram }, Message::startup(username, db_name))
    }

    /// Starts the conversation with the given SCRAM client nonce.
    pub fn with_nonce(username: &str, password: &str, db_name: &str, client_nonce: &str) -> (r: (
        Self,
        Vec<u8>,
    ))
        ensures
            r.0@ == (OpenView {
                phase: OpenPhase::AwaitAuthRequest,
                scram: ScramView {
                    username: username@,
                    password: password@,
                    client_nonce: client_nonce@,
                    server_nonce: None,
                    salt: None,
                    iterations: None,
                    server_first_message: None,
                },
            }),
            r.1@ == spec_startup(username@, db_name@),
    {
        let scram = ScramClient::with_nonce(username, password, client_nonce);
        (Self { phase: OpenPhase::AwaitAuthRequest, scram }, Message::startup(username, db_name))
    }

    /// Whether start-up is over.
    pub fn is_finished(&self) -> (r: bool)
        ensures
            r == (self@.phase == OpenPhase::Finished),
    {
        self.phase == OpenPhase::Finished
    }

    /// Takes the next backend message.
    pub fn step(&mut self, message: Message) -> (r: OpenAction)
        ensures
            (final(self)@, r@) == spec_open_step(
                old(self)@,
                message@.message_type,
                message@.payload,
            ),
    {
        let ghost t = message@.message_type;
        let ghost p = message@.payload;
        match self.phase {
            OpenPhase::AwaitAuthRequest => {
                self.phase = OpenPhase::Finished;
                match message.parse() {
                    ServerMessage::Authentication(payload) => {
                        match AuthKind::parse(payload.as_slice()) {
                            Err(e) => OpenAction::Finish(Err(e)),
                            Ok(AuthKind::SASL(mechanisms)) => {
                                if contains_mechanism(&mechanisms) {
                                    let first_message = self.scram.first_message();
                                    let bytes = Message::sasl_initial_response(
                                        "SCRAM-SHA-256",
                                        first_message.as_str(),
                                    );
                                    self.phase = OpenPhase::AwaitSaslContinue;
                                    OpenAction::Send(bytes)
                                } else {
                                    fail("SCRAM-SHA-256 is not supported by server")
                                }
                            },
                            Ok(AuthKind::AuthenticationOk) => {
                                self.phase = OpenPhase::AwaitReady;
                                OpenAction::Receive
                            },
                            Ok(_) => fail("Unsupported PostgreSQL authentication method"),
                        }
                    },
                    ServerMessage::ErrorResponse(payload) => error_response(payload.as_slice()),
                    _ => fail("Expected Authentication message"),
                }
            },
            OpenPhase::AwaitSaslContinue => {
                self.phase = OpenPhase::Finished;
                match message.parse() {
                    ServerMessage::Authentication(payload) => {
                        match AuthKind::parse(payload.as_slice()) {
                            Err(e) => OpenAction::Finish(Err(e)),
                            Ok(AuthKind::SASLContinue(server_first)) => {
                                if let Err(e) = self.scram.handle_server_first(
                                    server_first.as_str(),
                                ) {
                                    return OpenAction::Finish(Err(e));
                                }
                                match self.scram.final_message() {
                                    Err(e) => OpenAction::Finish(Err(e)),
                                    Ok(final_message) => {
                                        self.phase = OpenPhase::AwaitSaslFinal;
                                        OpenAction::Send(
                                            Message::sasl_response(final_message.as_str()),
                                        )
                                    },
                                }
                            },
                            Ok(_) => fail("Expected SASL Continue message"),
                        }
                    },
                    _ => fail("Expected Authentication message"),
                }
            },
            OpenPhase::AwaitSaslFinal => {
                self.phase = OpenPhase::Finished;
                match message.parse() {
                    ServerMessage::Authentication(payload) => {
                        match AuthKind::parse(payload.as_slice()) {
                            Err(e) => OpenAction::Finish(Err(e)),
                            Ok(AuthKind::SASLFinal(server_final)) => {
                                match self.scram.handle_server_final(server_final.as_str()) {
                                    Err(e) => OpenAction::Finish(Err(e)),
                                    Ok(()) => {
                                        self.phase = OpenPhase::AwaitReady;
                                        OpenAction::Receive
                                    },
                                }
                            },
                            Ok(_) => fail("Expected SASL final message"),
                        }
                    },
                    _ => fail("Expected Authentication message"),
                }
            },
            OpenPhase::AwaitReady => {
                match message.parse() {
                    ServerMessage::ReadyForQuery(_) => {
                        self.phase = OpenPhase::Finished;
                        OpenAction::Finish(Ok(()))
                    },
                    ServerMessage::ErrorResponse(payload) => {
                        self.phase = OpenPhase::Finished;
                        error_response(payload.as_slice())
                    },
                    ServerMessage::Unknown(u, _) => {
                        self.phase = OpenPhase::Finished;
                        let mut s = owned("Unknown message type: ");
                        push_decimal(&mut s, u as u64);
                        OpenAction::Finish(Err(DbError::new(s)))
                    },
                    _ => OpenAction::Receive,
                }
            },
            OpenPhase::Finished => OpenAction::Finish(Ok(())),
        }
    }
}

/// The simple-query conversation.
pub struct PostgresExec {
    result: QueryResult,
    error: Option<DbError>,
    type_oids: Vec<u32>,
    format_codes: Vec<i16>,
    finished: bool,
}

#[verifier::ext_equal]
pub struct ExecView {
    pub result: QueryResultView,
    pub error: Option<Seq<char>>,
    pub type_oids: Seq<u32>,
    pub format_codes: Seq<i16>,
    pub finished: bool,
}

impl View for PostgresExec {
    type V = ExecView;

    closed spec fn view(&self) -> ExecView {
        ExecView {
            result: self.result@,
            error: match self.error {
                Some(e) => Some(e.message@),
                None => None,
            },
            type_oids: self.type_oids@,
            format_codes: self.format_codes@,
            finished: self.finished,
        }
    }
}

/// What the caller does next during query execution.
pub enum ExecAction {
    /// Read the next message.
    Receive,
    /// Execution is over with this outcome.
    Finish(Result<QueryResult, DbError>),
}

#[verifier::ext_equal]
pub enum ExecActionView {
    Receive,
    Finish(Result<QueryResultView, Seq<char>>),
}

impl View for ExecAction {
    type V = ExecActionView;

    open spec fn view(&self) -> ExecActionView {
        match self {
            ExecAction::Receive => ExecActionView::Receive,
            ExecAction::Finish(Ok(r)) => ExecActionView::Finish(Ok(r@)),
            ExecAction::Finish(Err(e)) => ExecActionView::Finish(Err(e.message@)),
        }
    }
}

/// One step of query execution. An error response is remembered (a later
/// one replaces it); a row description (`T`) sets the columns, type OIDs and
/// format codes; a data row (`D`) is decoded with them and appended; a
/// message that fails to decode is remembered as the error; other messages
/// are skipped. `ReadyForQuery` ends execution: with the remembered error if
/// any, else with the result, which the machine hands over.
pub open spec fn spec_exec_step(v: ExecView, t: u8, p: Seq<u8>) -> (ExecView, ExecActionView) {
    match spec_classify(t, p) {
        ServerMessageView::ErrorResponse(q) => (
            ExecView { error: Some("error: "@ + debug_bytes(q)), ..v },
            ExecActionView::Receive,
        ),
        ServerMessageView::ReadyForQuery(_) => (
            ExecView {
                finished: true,
                result: QueryResultView { columns: seq![], rows: seq![] },
                error: None,
                ..v
            },
            ExecActionView::Finish(
                match v.error {
                    Some(m) => Err(m),
                    None => Ok(v.result),
                },
            ),
        ),
        ServerMessageView::Unknown(84, q) => match spec_row_description(q) {
            Ok((cs, ts, fs)) => (
                ExecView {
                    result: QueryResultView { columns: cs, rows: v.result.rows },
                    type_oids: ts,
                    format_codes: fs,
                    ..v
                },
                ExecActionView::Receive,
            ),
            Err(m) => (ExecView { error: Some(m), ..v }, ExecActionView::Receive),
        },
        ServerMessageView::Unknown(68, q) => match spec_data_row(
            q,
            v.result.columns,
            v.type_oids,
            v.format_codes,
        ) {
            Ok(vs) => (
                ExecView {
                    result: QueryResultView {
                        columns: v.result.columns,
                        rows: v.result.rows.push(vs),
                    },
                    ..v
                },
                ExecActionView::Receive,
            ),
            Err(m) => (ExecView { error: Some(m), ..v }, ExecActionView::Receive),
        },
        _ => (v, ExecActionView::Receive),
    }
}

/// Whether a message is a row description, arriving after rows were
/// collected, with a column count other than the current one.
pub open spec fn redescribes_rows(v: ExecView, t: u8, p: Seq<u8>) -> bool {
    match spec_classify(t, p) {
        ServerMessageView::Unknown(84, q) => match spec_row_description(q) {
            Ok((cs, _, _)) => v.result.rows.len() > 0 && cs.len() != v.result.columns.len(),
            Err(_) => false,
        },
        _ => false,
    }
}

/// Every data row collected has one value per column of the row description
/// in force, and a result that execution hands out converts to a dataframe,
/// unless a second row description with another column count arrives after
/// rows were collected (a query string of several statements), which
/// replaces the columns and keeps the rows.
pub proof fn law_exec_rows_fit(v: ExecView, t: u8, p: Seq<u8>)
    requires
        rows_fit(v.result.columns.len(), v.result.rows),
        !redescribes_rows(v, t, p),
    ensures
        rows_fit(spec_exec_step(v, t, p).0.result.columns.len(), spec_exec_step(v, t, p).0.result.rows),
        spec_exec_step(v, t, p).1 matches ExecActionView::Finish(Ok(r)) ==> rows_fit(
            r.columns.len(),
            r.rows,
        ),
{
    let (w, a) = spec_exec_step(v, t, p);
    if let ServerMessageView::Unknown(68, q) = spec_classify(t, p) {
        lemma_data_row_len(q, v.result.columns, v.type_oids, v.format_codes);
        if let Ok(vs) = spec_data_row(q, v.result.columns, v.type_oids, v.format_codes) {
            assert forall|i: int| 0 <= i < w.result.rows.len() implies #[trigger] w.result.rows[i].len()
                == w.result.columns.len() by {
                if i < v.result.rows.len() {
                    assert(w.result.rows[i] == v.result.rows[i]);
                }
            }
        }
    }
}

/// Query execution over a sequence of backend messages: the state reached
/// and, once the machine finishes, its outcome (the messages after that are
/// not read).
pub open spec fn exec_run(v: ExecView, messages: Seq<crate::protocol::message::MessageView>) -> (
    ExecView,
    Option<Result<QueryResultView, Seq<char>>>,
)
    decreases messages.len(),
{
    if messages.len() == 0 {
        (v, None)
    } else {
        let (w, a) = spec_exec_step(v, messages[0].message_type, messages[0].payload);
        match a {
            ExecActionView::Finish(outcome) => (w, Some(outcome)),
            ExecActionView::Receive => exec_run(w, messages.drop_first()),
        }
    }
}

/// A `DataRow` (`D`) message whose payload decodes against the current row
/// description adds that row after the rows collected so far, and keeps
/// the columns, the type OIDs, the format codes and any remembered error.
pub proof fn law_data_row_appended(v: ExecView, p: Seq<u8>, vs: Seq<ValueView>)
    requires
        spec_data_row(p, v.result.columns, v.type_oids, v.format_codes) == Ok::<
            Seq<ValueView>,
            Seq<char>,
        >(vs),
    ensures
        spec_exec_step(v, 68, p).0.result.rows == v.result.rows.push(vs),
        spec_exec_step(v, 68, p).0.result.columns == v.result.columns,
        spec_exec_step(v, 68, p).0.type_oids == v.type_oids,
        spec_exec_step(v, 68, p).0.format_codes == v.format_codes,
        spec_exec_step(v, 68, p).0.error == v.error,
        spec_exec_step(v, 68, p).1 == ExecActionView::Receive,
{
}

/// Every data row counts: with no error remembered, `DataRow` messages that
/// decode followed by `ReadyForQuery` (`Z`) end execution successfully with
/// the rows collected so far followed by all those rows, in the order of the
/// messages, under the current columns.
pub proof fn law_data_rows_collected(
    v: ExecView,
    rows: Seq<crate::protocol::message::MessageView>,
    decoded: Seq<Seq<ValueView>>,
    ready: crate::protocol::message::MessageView,
)
    requires
        v.error is None,
        rows.len() == decoded.len(),
        forall|i: int|
            0 <= i < rows.len() ==> (#[trigger] rows[i]).message_type == 68 && spec_data_row(
                rows[i].payload,
                v.result.columns,
                v.type_oids,
                v.format_codes,
            ) == Ok::<Seq<ValueView>, Seq<char>>(decoded[i]),
        ready.message_type == 90,
    ensures
        exec_run(v, rows.push(ready)).1 == Some(
            Ok::<QueryResultView, Seq<char>>(
                QueryResultView { columns: v.result.columns, rows: v.result.rows + decoded },
            ),
        ),
    decreases rows.len(),
{
    if rows.len() == 0 {
        assert(rows.push(ready) =~= seq![ready]);
        assert(v.result.rows + decoded =~= v.result.rows);
    } else {
        law_data_row_appended(v, rows[0].payload, decoded[0]);
        let w = spec_exec_step(v, 68, rows[0].payload).0;
        assert(rows.push(ready)[0] == rows[0]);
        assert(rows.push(ready).drop_first() =~= rows.drop_first().push(ready));
        assert forall|i: int| 0 <= i < rows.drop_first().len() implies (
        #[trigger] rows.drop_first()[i]).message_type == 68 && spec_data_row(
            rows.drop_first()[i].payload,
            w.result.columns,
            w.type_oids,
            w.format_codes,
        ) == Ok::<Seq<ValueView>, Seq<char>>(decoded.drop_first()[i]) by {
            assert(rows.drop_first()[i] == rows[i + 1]);
        }
        law_data_rows_collected(w, rows.drop_first(), decoded.drop_first(), ready);
        assert(w.result.rows + decoded.drop_first() =~= v.result.rows + decoded);
    }
}

impl PostgresExec {
    /// Starts executing a query: the machine and the message to send.
    pub fn new(query: &Query) -> (r: (Self, Vec<u8>))
        ensures
            r.0@.result.columns.len() == 0,
            r.0@.result.rows.len() == 0,
            r.0@.error is None,
            r.0@.type_oids.len() == 0,
            r.0@.format_codes.len() == 0,
            !r.0@.finished,
            r.1@ == typed_message(81, encode_utf8(query@) + seq![0u8]),
    {
        let bytes = Message::query(query.sql());
        (
            Self {
                result: QueryResult::new(),
                error: None,
                type_oids: Vec::new(),
                format_codes: Vec::new(),
                finished: false,
            },
            bytes,
        )
    }

    /// Whether execution is over.
    pub fn is_finished(&self) -> (r: bool)
        ensures
            r == self@.finished,
    {
        self.finished
    }

    /// Takes the next backend message.
    pub fn step(&mut self, message: Message) -> (r: ExecAction)
        ensures
            (final(self)@, r@) == spec_exec_step(
                old(self)@,
                message@.message_type,
                message@.payload,
            ),
    {
        match message.parse() {
            ServerMessage::ErrorResponse(payload) => {
                let mut s = owned("error: ");
                push_debug_bytes(&mut s, payload.as_slice(), false);
                self.error = Some(DbError::new(s));
                ExecAction::Receive
            },
            ServerMessage::ReadyForQuery(_) => {
                self.finished = true;
                let mut result = QueryResult::new();
                std::mem::swap(&mut result, &mut self.result);
                let mut error: Option<DbError> = None;
                std::mem::swap(&mut error, &mut self.error);
                match error {
                    Some(e) => ExecAction::Finish(Err(e)),
                    None => ExecAction::Finish(Ok(result)),
                }
            },
            ServerMessage::Unknown(84, payload) => {
                match ResultParser::parse_row_description(payload.as_slice()) {
                    Ok((columns, type_oids, format_codes)) => {
                        self.result.set_columns(columns);
                        self.type_oids = type_oids;
                        self.format_codes = format_codes;
                    },
                    Err(e) => {
                        self.error = Some(DbError::from(e));
                    },
                }
                ExecAction::Receive
            },
            ServerMessage::Unknown(68, payload) => {
                match ResultParser::parse_data_row(
                    payload.as_slice(),
                    self.result.columns(),
                    self.type_oids.as_slice(),
                    self.format_codes.as_slice(),
                ) {
                    Ok(row) => {
                        self.result.add_row(row);
                    },
                    Err(e) => {
                        self.error = Some(DbError::from(e));
                    },
                }
                ExecAction::Receive
            },
            _ => ExecAction::Receive,
        }
    }
}

} // verus!
