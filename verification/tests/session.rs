use co2_sensor::config::{ConfigRecord, Configuration};
use co2_sensor::error::{
    AcquisitionError, ConfigError, ConfigField, FramingError, HookError, NetworkError, ParseError,
    PortError,
};
use co2_sensor::hooks::{HookEntry, HookExit, HookOutcome};
use co2_sensor::session::{
    http_reading, serial_reading, Action, Event, Session, HTTP_TIMEOUT_MS, SETTLE_MS,
};

const FRAME: [u8; 7] = [0xFE, 0x44, 0x00, 0x08, 0x02, 0x9F, 0x25];

fn serial() -> Configuration {
    Configuration::Serial { port: "/dev/ttyUSB0".to_string() }
}

fn http() -> Configuration {
    Configuration::HttpGet {
        url: "http://sensor.local/co2".to_string(),
        authorization: "Bearer abc".to_string(),
        key: "co2".to_string(),
    }
}

fn response(status: u16, body: &str) -> Event {
    Event::Response { status, body: body.to_string() }
}

fn exited(success: bool, output: &str) -> Event {
    Event::HookEnded(HookExit::Exited { success, output: output.to_string() })
}

fn names(list: &[&str]) -> Event {
    Event::HookEntries(
        list.iter().map(|s| HookEntry { name: s.to_string(), regular_file: true }).collect(),
    )
}

fn run(config: &Configuration, events: Vec<Event>) -> (Session, Vec<Action>) {
    let (mut session, first) = Session::start(config);
    let mut actions = vec![first];
    for event in events {
        let (next, action) = session.step(event);
        session = next;
        actions.push(action);
    }
    (session, actions)
}

fn finish(result: Result<u16, AcquisitionError>) -> Action {
    Action::Finish { result }
}

fn hook(name: &str, argument: &str) -> Action {
    Action::RunHook { name: name.to_string(), argument: argument.to_string() }
}

fn opens_before_closes(actions: &[Action]) -> (usize, usize) {
    let opens = actions.iter().filter(|a| matches!(a, Action::OpenPort { .. })).count();
    let closes = actions.iter().filter(|a| matches!(a, Action::ClosePort)).count();
    (opens, closes)
}

#[test]
fn serial_exchange_step_by_step() {
    let reply = vec![0xFE, 0x44, 0x02, 0x01, 0x9F, 0x5B, 0x3C];
    let (session, actions) = run(
        &serial(),
        vec![
            Event::Done,
            Event::Done,
            Event::Done,
            Event::Done,
            Event::Bytes(reply),
            Event::Done,
            names(&[]),
        ],
    );
    assert_eq!(
        actions,
        vec![
            Action::OpenPort { port: "/dev/ttyUSB0".to_string(), baud: 9600, timeout_ms: 10 },
            Action::FlushPort,
            Action::WritePort { bytes: FRAME.to_vec() },
            Action::Settle { millis: 100 },
            Action::ReadPort { len: 7 },
            Action::ClosePort,
            Action::ListHooks,
            finish(Ok(415)),
        ]
    );
    assert!(session.is_finished());
    assert_eq!(session.result(), Some(Ok(415)));
    assert_eq!(SETTLE_MS, 100);
}

#[test]
fn the_request_frame_is_written_before_the_read() {
    let (_, actions) = run(
        &serial(),
        vec![Event::Done, Event::Done, Event::Done, Event::Done, Event::Failed, Event::Done],
    );
    let write = actions.iter().position(|a| matches!(a, Action::WritePort { .. })).unwrap();
    let read = actions.iter().position(|a| matches!(a, Action::ReadPort { .. })).unwrap();
    assert!(write < read);
    assert_eq!(actions[write], Action::WritePort { bytes: FRAME.to_vec() });
    assert_eq!(actions.iter().filter(|a| matches!(a, Action::WritePort { .. })).count(), 1);
}

#[test]
fn failure_to_open_ends_the_session_without_a_close() {
    let (session, actions) = run(&serial(), vec![Event::Failed]);
    assert_eq!(actions.len(), 2);
    assert_eq!(actions[1], finish(Err(AcquisitionError::Port(PortError::Open))));
    assert_eq!(opens_before_closes(&actions), (1, 0));
    assert_eq!(session.result(), Some(Err(AcquisitionError::Port(PortError::Open))));
}

#[test]
fn the_port_is_closed_on_every_path_after_the_opening() {
    let reply = vec![0, 0, 0, 1, 2, 0, 0];
    let paths: Vec<(Vec<Event>, Result<u16, AcquisitionError>)> = vec![
        (vec![Event::Done, Event::Failed, Event::Done], Err(AcquisitionError::Port(PortError::Flush))),
        (
            vec![Event::Done, Event::Done, Event::Failed, Event::Done],
            Err(AcquisitionError::Port(PortError::Write)),
        ),
        (
            vec![Event::Done, Event::Done, Event::Done, Event::Done, Event::Failed, Event::Done],
            Err(AcquisitionError::Port(PortError::Read)),
        ),
        (
            vec![
                Event::Done,
                Event::Done,
                Event::Done,
                Event::Done,
                Event::Bytes(vec![1, 2, 3]),
                Event::Failed,
            ],
            Err(AcquisitionError::Framing(FramingError::ShortResponse)),
        ),
        (
            vec![
                Event::Done,
                Event::Done,
                Event::Done,
                Event::Done,
                Event::Bytes(reply),
                Event::Done,
                Event::Failed,
            ],
            Ok(258),
        ),
    ];
    for (events, expected) in paths {
        let (session, actions) = run(&serial(), events);
        assert_eq!(session.result(), Some(expected));
        assert_eq!(actions.last(), Some(&finish(expected)));
        assert_eq!(opens_before_closes(&actions), (1, 1));
        let close = actions.iter().position(|a| matches!(a, Action::ClosePort)).unwrap();
        assert!(close < actions.len() - 1);
    }
}

#[test]
fn repeated_acquisitions_each_close_their_port() {
    for round in 0..5u8 {
        let (session, actions) = run(
            &serial(),
            vec![
                Event::Done,
                Event::Done,
                Event::Done,
                Event::Done,
                Event::Bytes(vec![0, 0, 0, 0, round, 0, 0]),
                Event::Done,
                names(&[]),
            ],
        );
        assert_eq!(session.result(), Some(Ok(round as u16)));
        assert_eq!(opens_before_closes(&actions), (1, 1));
    }
}

#[test]
fn serial_configuration_never_asks_for_the_network() {
    let scripts: Vec<Vec<Event>> = vec![
        vec![Event::Done; 10],
        vec![Event::Failed; 4],
        vec![response(200, "{\"co2\":\"415\"}"); 8],
        vec![Event::Done, Event::Done, Event::Done, Event::Done, Event::Bytes(vec![0; 7]), Event::Done, names(&["a"]), exited(true, "")],
    ];
    for events in scripts {
        let (_, actions) = run(&serial(), events);
        assert!(actions.iter().all(|a| !matches!(a, Action::HttpGet { .. })));
    }
}

#[test]
fn http_configuration_never_touches_the_port() {
    let scripts: Vec<Vec<Event>> = vec![
        vec![Event::Done; 6],
        vec![Event::Failed; 3],
        vec![Event::Bytes(vec![0; 7]); 4],
        vec![response(200, "{\"co2\":\"415\"}"), names(&["b", "a"]), exited(true, ""), exited(false, "")],
    ];
    for events in scripts {
        let (_, actions) = run(&http(), events);
        assert!(actions.iter().all(|a| !matches!(
            a,
            Action::OpenPort { .. }
                | Action::FlushPort
                | Action::WritePort { .. }
                | Action::Settle { .. }
                | Action::ReadPort { .. }
                | Action::ClosePort
        )));
    }
}

#[test]
fn http_exchange_step_by_step() {
    let (session, actions) = run(&http(), vec![response(200, "{\"co2\":\"415\"}"), names(&[])]);
    assert_eq!(
        actions,
        vec![
            Action::HttpGet {
                url: "http://sensor.local/co2".to_string(),
                authorization: "Bearer abc".to_string(),
                timeout_ms: HTTP_TIMEOUT_MS,
            },
            Action::ListHooks,
            finish(Ok(415)),
        ]
    );
    assert_eq!(session.result(), Some(Ok(415)));
}

#[test]
fn http_errors_end_the_session_before_any_hook() {
    let cases: Vec<(Event, AcquisitionError)> = vec![
        (Event::Failed, AcquisitionError::Network(NetworkError::Request)),
        (response(404, "{\"co2\":\"415\"}"), AcquisitionError::Network(NetworkError::Request)),
        (response(500, ""), AcquisitionError::Network(NetworkError::Request)),
        (response(199, "{\"co2\":\"415\"}"), AcquisitionError::Network(NetworkError::Request)),
        (response(300, "{\"co2\":\"415\"}"), AcquisitionError::Network(NetworkError::Request)),
        (response(200, "<html>"), AcquisitionError::Parse(ParseError::Json)),
        (response(200, "{\"ppm\":\"415\"}"), AcquisitionError::Parse(ParseError::MissingKey)),
        (response(200, "{\"co2\":415}"), AcquisitionError::Parse(ParseError::WrongType)),
        (response(200, "{\"co2\":\"abc\"}"), AcquisitionError::Parse(ParseError::Numeric)),
    ];
    for (event, error) in cases {
        let (session, actions) = run(&http(), vec![event]);
        assert_eq!(actions.len(), 2);
        assert_eq!(actions[1], finish(Err(error)));
        assert_eq!(session.result(), Some(Err(error)));
        assert!(session.into_outcomes().is_empty());
    }
}

#[test]
fn status_decides_before_the_body() {
    assert_eq!(http_reading(200, "{\"co2\":\"415\"}", "co2"), Ok(415));
    assert_eq!(http_reading(299, "{\"co2\":\"415\"}", "co2"), Ok(415));
    assert_eq!(http_reading(204, "", "co2"), Err(AcquisitionError::Parse(ParseError::Json)));
    assert_eq!(
        http_reading(401, "{\"co2\":\"415\"}", "co2"),
        Err(AcquisitionError::Network(NetworkError::Request))
    );
    assert_eq!(http_reading(200, "{\"co2\":\"415\"}", "ppm"), Err(AcquisitionError::Parse(ParseError::MissingKey)));
}

#[test]
fn serial_reading_is_the_decoded_frame() {
    assert_eq!(serial_reading(&[0xFE, 0x44, 0x02, 0x01, 0x9F, 0, 0]), Ok(415));
    assert_eq!(serial_reading(&[0xFE, 0x44]), Err(AcquisitionError::Framing(FramingError::ShortResponse)));
}

#[test]
fn all_hooks_run_once_in_order_whatever_their_exits() {
    let (session, actions) = run(
        &http(),
        vec![
            response(200, "{\"co2\":\"415\"}"),
            names(&["30-c", "10-a", "20-b"]),
            exited(false, "first failed"),
            Event::Failed,
            exited(true, "third ran"),
        ],
    );
    assert_eq!(
        &actions[2..],
        &[hook("10-a", "415"), hook("20-b", "415"), hook("30-c", "415"), finish(Ok(415))]
    );
    assert_eq!(session.result(), Some(Ok(415)));
    let records = session.into_outcomes();
    assert_eq!(records.len(), 3);
    assert_eq!(records[0].name, "10-a");
    assert_eq!(records[0].outcome, HookOutcome::Failure(HookError::NonZeroExit));
    assert_eq!(records[0].output, "first failed");
    assert_eq!(records[1].name, "20-b");
    assert_eq!(records[1].outcome, HookOutcome::Failure(HookError::Spawn));
    assert_eq!(records[1].output, "");
    assert_eq!(records[2].name, "30-c");
    assert_eq!(records[2].outcome, HookOutcome::Success);
    assert_eq!(records[2].argument, "415");
}

#[test]
fn a_missing_hook_directory_is_no_error() {
    let (session, actions) = run(&http(), vec![response(200, "{\"co2\":\"9\"}"), Event::Failed]);
    assert_eq!(actions.last(), Some(&finish(Ok(9))));
    assert_eq!(session.result(), Some(Ok(9)));
    assert!(session.into_outcomes().is_empty());
}

#[test]
fn records_can_be_taken_while_hooks_are_running() {
    let (session, _) = run(
        &http(),
        vec![response(200, "{\"co2\":\"1\"}"), names(&["a", "b"]), exited(true, "x")],
    );
    assert!(!session.is_finished());
    assert_eq!(session.result(), None);
    let records = session.into_outcomes();
    assert_eq!(records.len(), 1);
    assert_eq!(records[0].name, "a");
}

#[test]
fn a_finished_session_stays_finished() {
    let (session, _) = run(&http(), vec![Event::Failed]);
    let (session, action) = session.step(Event::Done);
    assert_eq!(action, finish(Err(AcquisitionError::Network(NetworkError::Request))));
    let (session, action) = session.step(response(200, "{\"co2\":\"415\"}"));
    assert_eq!(action, finish(Err(AcquisitionError::Network(NetworkError::Request))));
    assert!(session.is_finished());
}

#[test]
fn an_invalid_configuration_ends_the_session_at_once() {
    let (session, action) = Session::start(&Configuration::Serial { port: String::new() });
    let error = AcquisitionError::Config(ConfigError::EmptyField(ConfigField::Port));
    assert_eq!(action, finish(Err(error)));
    assert_eq!(session.result(), Some(Err(error)));
}

#[test]
fn an_unknown_kind_is_an_error_and_not_a_zero() {
    let record = ConfigRecord {
        kind: Some("modbus".to_string()),
        port: Some("COM1".to_string()),
        url: None,
        authorization: None,
        key: None,
    };
    let (session, action) = Session::start_from_record(&record);
    let error = AcquisitionError::Config(ConfigError::UnknownKind);
    assert_eq!(action, finish(Err(error)));
    assert_ne!(action, finish(Ok(0)));
    assert_eq!(session.result(), Some(Err(error)));
}

#[test]
fn a_record_starts_the_session_of_its_kind() {
    let record = ConfigRecord {
        kind: Some("serial".to_string()),
        port: Some("COM1".to_string()),
        url: None,
        authorization: None,
        key: None,
    };
    let (session, action) = Session::start_from_record(&record);
    assert_eq!(action, Action::OpenPort { port: "COM1".to_string(), baud: 9600, timeout_ms: 10 });
    assert!(!session.is_finished());
}

#[test]
fn only_regular_files_are_run_as_hooks() {
    let listing = vec![
        HookEntry { name: "z-last".to_string(), regular_file: true },
        HookEntry { name: "archive".to_string(), regular_file: false },
        HookEntry { name: "a-first".to_string(), regular_file: true },
        HookEntry { name: "b-link".to_string(), regular_file: false },
    ];
    let (session, actions) = run(
        &http(),
        vec![
            response(200, "{\"co2\":\"800\"}"),
            Event::HookEntries(listing),
            exited(true, ""),
            exited(true, ""),
        ],
    );
    assert_eq!(&actions[2..], &[hook("a-first", "800"), hook("z-last", "800"), finish(Ok(800))]);
    assert_eq!(session.into_outcomes().len(), 2);
}

#[test]
fn an_unfit_authorization_ends_the_session_before_any_request() {
    let config = Configuration::HttpGet {
        url: "http://sensor.local/co2".to_string(),
        authorization: "Bearer abc\n".to_string(),
        key: "co2".to_string(),
    };
    let (session, action) = Session::start(&config);
    let error = AcquisitionError::Config(ConfigError::InvalidField(ConfigField::Authorization));
    assert_eq!(action, finish(Err(error)));
    assert_eq!(session.result(), Some(Err(error)));
}
