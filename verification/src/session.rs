//! One acquisition, as a sequence of steps. The session decides what is
//! done next; a driver does it and reports what came of it. A session
//! starts from a configuration, talks to the one source that the
//! configuration names, runs the hooks where it has a reading, and ends
//! with that reading or with the error that stopped it.

use vstd::prelude::*;
use vstd::string::*;
use crate::codec::{build_request, decode_response, decoded, request_frame, FRAME_LEN};
use crate::config::{
    fault, resolved, ConfigRecord, ConfigRecordView, Configuration, ConfigurationView, BAUD_RATE,
    PORT_TIMEOUT_MS,
};
use crate::error::{AcquisitionError, NetworkError, PortError};
use crate::extract::{extract_reading, lookup_in, reading_of};
use crate::hooks::{
    begun, entry_views, hook_names, invocations, pending_hook, recorded, select_hooks, Dispatcher,
    DispatcherView, HookEntry, HookEntryView, HookExit, HookExitView, HookInvocation,
    HookInvocationView,
};
use crate::json::json_document;
use crate::text::texts;

verus! {

/// How long the sensor is given between the request and the read, in
/// milliseconds.
pub const SETTLE_MS: u64 = 100;

/// How long an HTTP request may take, in milliseconds.
pub const HTTP_TIMEOUT_MS: u64 = 10000;

/// The lowest status with which an HTTP request counts as answered.
pub const STATUS_OK_FIRST: u16 = 200;

/// The highest status with which an HTTP request counts as answered.
pub const STATUS_OK_LAST: u16 = 299;

/// What the driver is to do next.
#[derive(Debug, PartialEq, Eq)]
pub enum Action {
    /// Open the serial device.
    OpenPort { port: String, baud: u32, timeout_ms: u64 },
    /// Flush the open port.
    FlushPort,
    /// Write all of `bytes` to the open port.
    WritePort { bytes: Vec<u8> },
    /// Wait.
    Settle { millis: u64 },
    /// Read exactly `len` bytes from the open port.
    ReadPort { len: usize },
    /// Close the port.
    ClosePort,
    /// Send a GET request with `authorization` as its `Authorization`
    /// header and read the whole body of the response.
    HttpGet { url: String, authorization: String, timeout_ms: u64 },
    /// List the entries of the hook directory.
    ListHooks,
    /// Run a hook with one argument, wait for its end and capture its
    /// standard output.
    RunHook { name: String, argument: String },
    /// Nothing more: the acquisition has ended with this result.
    Finish { result: Result<u16, AcquisitionError> },
}

/// An [`Action`] with its texts and bytes as sequences.
#[verifier::ext_equal]
pub enum ActionView {
    OpenPort { port: Seq<char>, baud: u32, timeout_ms: u64 },
    FlushPort,
    WritePort { bytes: Seq<u8> },
    Settle { millis: u64 },
    ReadPort { len: usize },
    ClosePort,
    HttpGet { url: Seq<char>, authorization: Seq<char>, timeout_ms: u64 },
    ListHooks,
    RunHook { name: Seq<char>, argument: Seq<char> },
    Finish { result: Result<u16, AcquisitionError> },
}

impl View for Action {
    type V = ActionView;

    open spec fn view(&self) -> ActionView {
        match self {
            Action::OpenPort { port, baud, timeout_ms } => ActionView::OpenPort {
                port: port@,
                baud: *baud,
                timeout_ms: *timeout_ms,
            },
            Action::FlushPort => ActionView::FlushPort,
            Action::WritePort { bytes } => ActionView::WritePort { bytes: bytes@ },
            Action::Settle { millis } => ActionView::Settle { millis: *millis },
            Action::ReadPort { len } => ActionView::ReadPort { len: *len },
            Action::ClosePort => ActionView::ClosePort,
            Action::HttpGet { url, authorization, timeout_ms } => ActionView::HttpGet {
                url: url@,
                authorization: authorization@,
                timeout_ms: *timeout_ms,
            },
            Action::ListHooks => ActionView::ListHooks,
            Action::RunHook { name, argument } => ActionView::RunHook {
                name: name@,
                argument: argument@,
            },
            Action::Finish { result } => ActionView::Finish { result: *result },
        }
    }
}

/// What came of the action that the session asked for.
#[derive(Clone, Debug, PartialEq, Eq)]
pub enum Event {
    /// It was done and there is nothing to hand back.
    Done,
    /// It could not be done.
    Failed,
    /// The bytes that were read from the port.
    Bytes(Vec<u8>),
    /// The response to the HTTP request.
    Response { status: u16, body: String },
    /// The entries that were found in the hook directory.
    HookEntries(Vec<HookEntry>),
    /// How the hook ended.
    HookEnded(HookExit),
}

/// An [`Event`] with its texts and bytes as sequences.
#[verifier::ext_equal]
pub enum EventView {
    Done,
    Failed,
    Bytes(Seq<u8>),
    Response { status: u16, body: Seq<char> },
    HookEntries(Seq<HookEntryView>),
    HookEnded(HookExitView),
}

impl View for Event {
    type V = EventView;

    open spec fn view(&self) -> EventView {
        match self {
            Event::Done => EventView::Done,
            Event::Failed => EventView::Failed,
            Event::Bytes(bytes) => EventView::Bytes(bytes@),
            Event::Response { status, body } => EventView::Response { status: *status, body: body@ },
            Event::HookEntries(listing) => EventView::HookEntries(entry_views(listing@)),
            Event::HookEnded(exit) => EventView::HookEnded(exit@),
        }
    }
}

/// Where a session stands. Each state but the last waits for the event
/// that answers one action.
#[verifier::ext_equal]
pub enum SessionView {
    /// The port is being opened.
    Opening,
    /// The port is open and is being flushed.
    Flushing,
    /// The request frame is being written.
    Writing,
    /// The sensor is given its time.
    Settling,
    /// The response frame is being read.
    Reading,
    /// The port is being closed; `result` is what the exchange came to.
    Closing { result: Result<u16, AcquisitionError> },
    /// The HTTP request is under way; the reading is expected under `key`.
    Requesting { key: Seq<char> },
    /// There is a reading, and the hook directory is being listed.
    Listing { reading: u16 },
    /// A hook is running.
    Dispatching { dispatcher: DispatcherView },
    /// The acquisition has ended.
    Finished { result: Result<u16, AcquisitionError>, outcomes: Seq<HookInvocationView> },
}

/// A session that ends with an error before any hook has run.
pub open spec fn failed(error: AcquisitionError) -> (SessionView, ActionView) {
    (
        SessionView::Finished { result: Err(error), outcomes: Seq::empty() },
        ActionView::Finish { result: Err(error) },
    )
}

/// A session that has its reading and turns to the hooks.
pub open spec fn acquired(reading: u16) -> (SessionView, ActionView) {
    (SessionView::Listing { reading }, ActionView::ListHooks)
}

/// A dispatch goes on with its pending hook, or ends the session with the
/// reading where no hook is left.
pub open spec fn advanced(dispatcher: DispatcherView) -> (SessionView, ActionView) {
    match pending_hook(dispatcher) {
        Some((name, argument)) => (
            SessionView::Dispatching { dispatcher },
            ActionView::RunHook { name, argument },
        ),
        None => (
            SessionView::Finished {
                result: Ok(dispatcher.reading),
                outcomes: dispatcher.outcomes,
            },
            ActionView::Finish { result: Ok(dispatcher.reading) },
        ),
    }
}

/// The result of the serial exchange, from what the read step reported.
pub open spec fn serial_result(event: EventView) -> Result<u16, AcquisitionError> {
    match event {
        EventView::Bytes(bytes) => match decoded(bytes) {
            Ok(reading) => Ok(reading),
            Err(e) => Err(AcquisitionError::Framing(e)),
        },
        _ => Err(AcquisitionError::Port(PortError::Read)),
    }
}

/// The result of the HTTP exchange, from what the request step reported.
/// `document` is what the JSON reader makes of the body.
pub open spec fn http_result(
    status: u16,
    document: Option<Map<Seq<char>, Option<Seq<char>>>>,
    key: Seq<char>,
) -> Result<u16, AcquisitionError> {
    if STATUS_OK_FIRST <= status <= STATUS_OK_LAST {
        match reading_of(lookup_in(document, key)) {
            Ok(reading) => Ok(reading),
            Err(e) => Err(AcquisitionError::Parse(e)),
        }
    } else {
        Err(AcquisitionError::Network(NetworkError::Request))
    }
}

/// How a hook ended, from what the run step reported: an event of another
/// kind means that the hook did not start.
pub open spec fn exit_of(event: EventView) -> HookExitView {
    match event {
        EventView::HookEnded(exit) => exit,
        _ => HookExitView::NotStarted,
    }
}

/// The hooks that the listing step reported: the regular files of the
/// listing, and none where the directory could not be listed, as where it
/// does not exist.
pub open spec fn names_of(event: EventView) -> Seq<Seq<char>> {
    match event {
        EventView::HookEntries(listing) => hook_names(listing),
        _ => Seq::empty(),
    }
}

/// The first state of a session and its first action.
pub open spec fn start_view(config: ConfigurationView) -> (SessionView, ActionView) {
    match fault(config) {
        Some(e) => failed(AcquisitionError::Config(e)),
        None => match config {
            ConfigurationView::Serial { port } => (
                SessionView::Opening,
                ActionView::OpenPort { port, baud: BAUD_RATE, timeout_ms: PORT_TIMEOUT_MS },
            ),
            ConfigurationView::HttpGet { url, authorization, key } => (
                SessionView::Requesting { key },
                ActionView::HttpGet { url, authorization, timeout_ms: HTTP_TIMEOUT_MS },
            ),
        },
    }
}

/// The state that follows on an event, and the next action.
///
/// On the serial side every step after the opening leads to the closing
/// of the port, with the result that the exchange has at that point. An
/// event of a kind that the state does not wait for counts as the failure
/// of the step.
pub open spec fn step_view(session: SessionView, event: EventView) -> (SessionView, ActionView) {
    match session {
        SessionView::Opening => if event is Done {
            (SessionView::Flushing, ActionView::FlushPort)
        } else {
            failed(AcquisitionError::Port(PortError::Open))
        },
        SessionView::Flushing => if event is Done {
            (SessionView::Writing, ActionView::WritePort { bytes: request_frame() })
        } else {
            (
                SessionView::Closing { result: Err(AcquisitionError::Port(PortError::Flush)) },
                ActionView::ClosePort,
            )
        },
        SessionView::Writing => if event is Done {
            (SessionView::Settling, ActionView::Settle { millis: SETTLE_MS })
        } else {
            (
                SessionView::Closing { result: Err(AcquisitionError::Port(PortError::Write)) },
                ActionView::ClosePort,
            )
        },
        SessionView::Settling => (SessionView::Reading, ActionView::ReadPort { len: FRAME_LEN }),
        SessionView::Reading => (
            SessionView::Closing { result: serial_result(event) },
            ActionView::ClosePort,
        ),
        SessionView::Closing { result } => match result {
            Ok(reading) => acquired(reading),
            Err(e) => failed(e),
        },
        SessionView::Requesting { key } => match event {
            EventView::Response { status, body } => match http_result(
                status,
                json_document(body),
                key,
            ) {
                Ok(reading) => acquired(reading),
                Err(e) => failed(e),
            },
            _ => failed(AcquisitionError::Network(NetworkError::Request)),
        },
        SessionView::Listing { reading } => advanced(begun(reading, names_of(event))),
        SessionView::Dispatching { dispatcher } => advanced(recorded(dispatcher, exit_of(event))),
        SessionView::Finished { result, outcomes } => (session, ActionView::Finish { result }),
    }
}

/// The first state and action of a session that is to start from a
/// record: those of what the record resolves to, or the end with the
/// error for which it does not resolve.
pub open spec fn start_from_record_view(record: ConfigRecordView) -> (SessionView, ActionView) {
    match resolved(record) {
        Ok(config) => start_view(config),
        Err(e) => failed(AcquisitionError::Config(e)),
    }
}

/// The records of the hooks that have run in a session.
pub open spec fn outcomes_view(session: SessionView) -> Seq<HookInvocationView> {
    match session {
        SessionView::Dispatching { dispatcher } => dispatcher.outcomes,
        SessionView::Finished { outcomes, .. } => outcomes,
        _ => Seq::empty(),
    }
}

/// The reading of a serial exchange from the bytes that were read.
pub fn serial_reading(bytes: &[u8]) -> (r: Result<u16, AcquisitionError>)
    ensures
        r == serial_result(EventView::Bytes(bytes@)),
{
    match decode_response(bytes) {
        Ok(reading) => Ok(reading),
        Err(e) => Err(AcquisitionError::Framing(e)),
    }
}

/// The reading of an HTTP exchange from the status and the body of the
/// response. A status outside 200..=299 is an error of the request, and
/// the body is then not looked at.
pub fn http_reading(status: u16, body: &str, key: &str) -> (r: Result<u16, AcquisitionError>)
    ensures
        r == http_result(status, json_document(body@), key@),
        !(STATUS_OK_FIRST <= status <= STATUS_OK_LAST) ==> r == Err::<u16, AcquisitionError>(
            AcquisitionError::Network(NetworkError::Request),
        ),
{
    if STATUS_OK_FIRST <= status && status <= STATUS_OK_LAST {
        match extract_reading(body, key) {
            Ok(reading) => Ok(reading),
            Err(e) => Err(AcquisitionError::Parse(e)),
        }
    } else {
        Err(AcquisitionError::Network(NetworkError::Request))
    }
}

/// The request frame as the bytes of a write.
fn request_bytes() -> (bytes: Vec<u8>)
    ensures
        bytes@ == request_frame(),
{
    let frame = build_request();
    let mut bytes: Vec<u8> = Vec::new();
    let mut i: usize = 0;
    while i < FRAME_LEN
        invariant
            i <= FRAME_LEN,
            frame@ == request_frame(),
            bytes@ == request_frame().take(i as int),
        decreases FRAME_LEN - i,
    {
        bytes.push(frame[i]);
        assert(request_frame().take(i + 1) =~= request_frame().take(i as int).push(
            request_frame()[i as int],
        ));
        i = i + 1;
    }
    assert(request_frame().take(FRAME_LEN as int) =~= request_frame());
    bytes
}

enum Phase {
    Opening,
    Flushing,
    Writing,
    Settling,
    Reading,
    Closing { result: Result<u16, AcquisitionError> },
    Requesting { key: String },
    Listing { reading: u16 },
    Dispatching { dispatcher: Dispatcher },
    Finished { result: Result<u16, AcquisitionError>, outcomes: Vec<HookInvocation> },
}

/// One acquisition under way.
pub struct Session {
    phase: Phase,
}

impl View for Session {
    type V = SessionView;

    closed spec fn view(&self) -> SessionView {
        match self.phase {
            Phase::Opening => SessionView::Opening,
            Phase::Flushing => SessionView::Flushing,
            Phase::Writing => SessionView::Writing,
            Phase::Settling => SessionView::Settling,
            Phase::Reading => SessionView::Reading,
            Phase::Closing { result } => SessionView::Closing { result },
            Phase::Requesting { key } => SessionView::Requesting { key: key@ },
            Phase::Listing { reading } => SessionView::Listing { reading },
            Phase::Dispatching { dispatcher } => SessionView::Dispatching { dispatcher: dispatcher@ },
            Phase::Finished { result, outcomes } => SessionView::Finished {
                result,
                outcomes: invocations(outcomes@),
            },
        }
    }
}

fn fail(error: AcquisitionError) -> (r: (Session, Action))
    ensures
        (r.0@, r.1@) == failed(error),
{
    let outcomes: Vec<HookInvocation> = Vec::new();
    assert(invocations(outcomes@) =~= Seq::empty());
    (
        Session { phase: Phase::Finished { result: Err(error), outcomes } },
        Action::Finish { result: Err(error) },
    )
}

fn acquire(reading: u16) -> (r: (Session, Action))
    ensures
        (r.0@, r.1@) == acquired(reading),
{
    (Session { phase: Phase::Listing { reading } }, Action::ListHooks)
}

fn conclude(result: Result<u16, AcquisitionError>) -> (r: (Session, Action))
    ensures
        (r.0@, r.1@) == (match result {
            Ok(reading) => acquired(reading),
            Err(e) => failed(e),
        }),
{
    match result {
        Ok(reading) => acquire(reading),
        Err(e) => fail(e),
    }
}

fn close_with(result: Result<u16, AcquisitionError>) -> (r: (Session, Action))
    ensures
        (r.0@, r.1@) == (SessionView::Closing { result }, ActionView::ClosePort),
{
    (Session { phase: Phase::Closing { result } }, Action::ClosePort)
}

fn advance(dispatcher: Dispatcher) -> (r: (Session, Action))
    ensures
        (r.0@, r.1@) == advanced(dispatcher@),
{
    match dispatcher.pending() {
        Some((name, argument)) => (
            Session { phase: Phase::Dispatching { dispatcher } },
            Action::RunHook { name, argument },
        ),
        None => {
            let reading = dispatcher.reading();
            (
                Session {
                    phase: Phase::Finished {
                        result: Ok(reading),
                        outcomes: dispatcher.into_outcomes(),
                    },
                },
                Action::Finish { result: Ok(reading) },
            )
        },
    }
}

impl Session {
    /// Starts an acquisition from the source that the configuration names.
    /// A configuration that is not valid ends it at once.
    pub fn start(config: &Configuration) -> (r: (Session, Action))
        ensures
            (r.0@, r.1@) == start_view(config@),
    {
        match config.validate() {
            Err(e) => fail(AcquisitionError::Config(e)),
            Ok(_) => match config {
                Configuration::Serial { port } => (
                    Session { phase: Phase::Opening },
                    Action::OpenPort {
                        port: port.clone(),
                        baud: BAUD_RATE,
                        timeout_ms: PORT_TIMEOUT_MS,
                    },
                ),
                Configuration::HttpGet { url, authorization, key } => (
                    Session { phase: Phase::Requesting { key: key.clone() } },
                    Action::HttpGet {
                        url: url.clone(),
                        authorization: authorization.clone(),
                        timeout_ms: HTTP_TIMEOUT_MS,
                    },
                ),
            },
        }
    }

    /// Starts an acquisition from a record. A record that does not resolve
    /// ends it at once, with the error of the configuration.
    pub fn start_from_record(record: &ConfigRecord) -> (r: (Session, Action))
        ensures
            (r.0@, r.1@) == start_from_record_view(record@),
    {
        match record.resolve() {
            Ok(config) => Session::start(&config),
            Err(e) => fail(AcquisitionError::Config(e)),
        }
    }

    /// Takes the event that answers the last action and says what is to be
    /// done next.
    pub fn step(self, event: Event) -> (r: (Session, Action))
        ensures
            (r.0@, r.1@) == step_view(self@, event@),
    {
        match self.phase {
            Phase::Opening => match event {
                Event::Done => (Session { phase: Phase::Flushing }, Action::FlushPort),
                _ => fail(AcquisitionError::Port(PortError::Open)),
            },
            Phase::Flushing => match event {
                Event::Done => (
                    Session { phase: Phase::Writing },
                    Action::WritePort { bytes: request_bytes() },
                ),
                _ => close_with(Err(AcquisitionError::Port(PortError::Flush))),
            },
            Phase::Writing => match event {
                Event::Done => (
                    Session { phase: Phase::Settling },
                    Action::Settle { millis: SETTLE_MS },
                ),
                _ => close_with(Err(AcquisitionError::Port(PortError::Write))),
            },
            Phase::Settling => (Session { phase: Phase::Reading }, Action::ReadPort { len: FRAME_LEN }),
            Phase::Reading => match event {
                Event::Bytes(bytes) => close_with(serial_reading(bytes.as_slice())),
                _ => close_with(Err(AcquisitionError::Port(PortError::Read))),
            },
            Phase::Closing { result } => conclude(result),
            Phase::Requesting { key } => match event {
                Event::Response { status, body } => conclude(
                    http_reading(status, body.as_str(), key.as_str()),
                ),
                _ => fail(AcquisitionError::Network(NetworkError::Request)),
            },
            Phase::Listing { reading } => match event {
                Event::HookEntries(listing) => advance(
                    Dispatcher::begin(reading, &select_hooks(&listing)),
                ),
                _ => {
                    let names: Vec<String> = Vec::new();
                    assert(texts(names@) =~= Seq::empty());
                    advance(Dispatcher::begin(reading, &names))
                },
            },
            Phase::Dispatching { dispatcher } => {
                let mut dispatcher = dispatcher;
                match event {
                    Event::HookEnded(exit) => dispatcher.record(exit),
                    _ => dispatcher.record(HookExit::NotStarted),
                }
                advance(dispatcher)
            },
            Phase::Finished { result, outcomes } => (
                Session { phase: Phase::Finished { result, outcomes } },
                Action::Finish { result },
            ),
        }
    }

    /// Whether the acquisition has ended.
    pub fn is_finished(&self) -> (finished: bool)
        ensures
            finished == (self@ is Finished),
    {
        match &self.phase {
            Phase::Finished { .. } => true,
            _ => false,
        }
    }

    /// The result of the acquisition, once it has ended.
    pub fn result(&self) -> (r: Option<Result<u16, AcquisitionError>>)
        ensures
            match self@ {
                SessionView::Finished { result, .. } => r == Some(result),
                _ => r is None,
            },
    {
        match &self.phase {
            Phase::Finished { result, .. } => Some(*result),
            _ => None,
        }
    }

    /// Ends the session and hands out the records of the hooks that have
    /// run, in the order in which they ran.
    pub fn into_outcomes(self) -> (records: Vec<HookInvocation>)
        ensures
            invocations(records@) == outcomes_view(self@),
    {
        match self.phase {
            Phase::Dispatching { dispatcher } => dispatcher.into_outcomes(),
            Phase::Finished { outcomes, .. } => outcomes,
            _ => {
                let records: Vec<HookInvocation> = Vec::new();
                assert(invocations(records@) =~= Seq::empty());
                records
            },
        }
    }
}

} // verus!
