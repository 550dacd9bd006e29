use co2_sensor::config::{ConfigRecord, Configuration, BAUD_RATE, PORT_TIMEOUT_MS};
use co2_sensor::error::{ConfigError, ConfigField, ParseError};

fn text(s: &str) -> Option<String> {
    Some(s.to_string())
}

fn record(kind: Option<&str>) -> ConfigRecord {
    ConfigRecord {
        kind: kind.map(|k| k.to_string()),
        port: text("/dev/ttyUSB0"),
        url: text("http://sensor.local/co2"),
        authorization: text("Bearer abc"),
        key: text("co2"),
    }
}

#[test]
fn line_settings_are_fixed() {
    assert_eq!(BAUD_RATE, 9600);
    assert_eq!(PORT_TIMEOUT_MS, 10);
}

#[test]
fn serial_kind_resolves_to_the_port() {
    assert_eq!(
        record(Some("serial")).resolve(),
        Ok(Configuration::Serial { port: "/dev/ttyUSB0".to_string() })
    );
}

#[test]
fn http_get_kind_resolves_to_its_three_fields() {
    assert_eq!(
        record(Some("http-get")).resolve(),
        Ok(Configuration::HttpGet {
            url: "http://sensor.local/co2".to_string(),
            authorization: "Bearer abc".to_string(),
            key: "co2".to_string(),
        })
    );
}

#[test]
fn unknown_kind_is_an_error_and_no_reading() {
    assert_eq!(record(Some("bluetooth")).resolve(), Err(ConfigError::UnknownKind));
    assert_eq!(record(Some("")).resolve(), Err(ConfigError::UnknownKind));
    assert_eq!(record(Some("Serial")).resolve(), Err(ConfigError::UnknownKind));
    assert_eq!(record(Some("http")).resolve(), Err(ConfigError::UnknownKind));
    assert_eq!(record(Some("serial ")).resolve(), Err(ConfigError::UnknownKind));
}

#[test]
fn absent_kind_is_a_missing_field() {
    assert_eq!(record(None).resolve(), Err(ConfigError::MissingField(ConfigField::Kind)));
}

#[test]
fn serial_needs_a_port() {
    let mut r = record(Some("serial"));
    r.port = None;
    assert_eq!(r.resolve(), Err(ConfigError::MissingField(ConfigField::Port)));
    r.port = text("");
    assert_eq!(r.resolve(), Err(ConfigError::EmptyField(ConfigField::Port)));
}

#[test]
fn serial_does_not_look_at_the_http_fields() {
    let mut r = record(Some("serial"));
    r.url = None;
    r.authorization = text("");
    r.key = None;
    assert_eq!(r.resolve(), Ok(Configuration::Serial { port: "/dev/ttyUSB0".to_string() }));
}

#[test]
fn http_get_needs_url_authorization_and_key() {
    let mut r = record(Some("http-get"));
    r.key = None;
    assert_eq!(r.resolve(), Err(ConfigError::MissingField(ConfigField::Key)));
    r.authorization = text("");
    assert_eq!(r.resolve(), Err(ConfigError::EmptyField(ConfigField::Authorization)));
    r.url = None;
    assert_eq!(r.resolve(), Err(ConfigError::MissingField(ConfigField::Url)));
    r.port = None;
    r.url = text("");
    assert_eq!(r.resolve(), Err(ConfigError::EmptyField(ConfigField::Url)));
}

#[test]
fn configurations_with_an_empty_field_are_not_valid() {
    assert_eq!(Configuration::Serial { port: "COM3".to_string() }.validate(), Ok(()));
    assert_eq!(
        Configuration::Serial { port: String::new() }.validate(),
        Err(ConfigError::EmptyField(ConfigField::Port))
    );
    let http = |url: &str, authorization: &str, key: &str| Configuration::HttpGet {
        url: url.to_string(),
        authorization: authorization.to_string(),
        key: key.to_string(),
    };
    assert_eq!(http("u", "a", "k").validate(), Ok(()));
    assert_eq!(http("", "", "").validate(), Err(ConfigError::EmptyField(ConfigField::Url)));
    assert_eq!(http("u", "", "").validate(), Err(ConfigError::EmptyField(ConfigField::Authorization)));
    assert_eq!(http("u", "a", "").validate(), Err(ConfigError::EmptyField(ConfigField::Key)));
}

#[test]
fn record_is_read_from_json() {
    let json = "{\"kind\":\"http-get\",\"url\":\"http://h/x\",\"authorization\":\"Bearer t\",\"key\":\"co2\"}";
    assert_eq!(
        ConfigRecord::from_json(json),
        Ok(ConfigRecord {
            kind: text("http-get"),
            port: None,
            url: text("http://h/x"),
            authorization: text("Bearer t"),
            key: text("co2"),
        })
    );
}

#[test]
fn members_that_are_no_strings_count_as_absent() {
    let json = "{\"kind\":\"serial\",\"port\":3,\"url\":null,\"extra\":\"x\"}";
    let read = ConfigRecord::from_json(json).unwrap();
    assert_eq!(
        read,
        ConfigRecord { kind: text("serial"), port: None, url: None, authorization: None, key: None }
    );
    assert_eq!(read.resolve(), Err(ConfigError::MissingField(ConfigField::Port)));
}

#[test]
fn text_that_is_no_json_gives_no_record() {
    assert_eq!(ConfigRecord::from_json("kind: serial"), Err(ParseError::Json));
    assert_eq!(ConfigRecord::from_json(""), Err(ParseError::Json));
}

#[test]
fn document_that_is_no_object_gives_an_empty_record() {
    let read = ConfigRecord::from_json("[]").unwrap();
    assert_eq!(read, ConfigRecord { kind: None, port: None, url: None, authorization: None, key: None });
    assert_eq!(read.resolve(), Err(ConfigError::MissingField(ConfigField::Kind)));
}

#[test]
fn authorization_must_be_fit_for_a_header() {
    let with = |authorization: &str| {
        let mut r = record(Some("http-get"));
        r.authorization = text(authorization);
        r.resolve()
    };
    let invalid = Err(ConfigError::InvalidField(ConfigField::Authorization));
    assert_eq!(with("Bearer abc\n"), invalid);
    assert_eq!(with("Bearer\rabc"), invalid);
    assert_eq!(with("\u{0}"), invalid);
    assert_eq!(with("Bearer \u{7f}"), invalid);
    assert_eq!(with("Bearer \u{1f}"), invalid);
    assert!(with("Bearer abc").is_ok());
    assert!(with("Bearer\tabc").is_ok());
    assert!(with(" ").is_ok());
    assert!(with("~").is_ok());
    assert!(with("Schlüssel \u{80} \u{10ffff}").is_ok());
}

#[test]
fn an_unfit_authorization_is_reported_before_a_missing_key() {
    let mut r = record(Some("http-get"));
    r.authorization = text("a\nb");
    r.key = None;
    assert_eq!(r.resolve(), Err(ConfigError::InvalidField(ConfigField::Authorization)));
    let config = Configuration::HttpGet {
        url: "http://h/".to_string(),
        authorization: "a\nb".to_string(),
        key: String::new(),
    };
    assert_eq!(config.validate(), Err(ConfigError::InvalidField(ConfigField::Authorization)));
}

#[test]
fn the_header_check_is_that_of_the_http_client() {
    let mut code: u32 = 0;
    while code < 0x300 {
        if let Some(c) = char::from_u32(code) {
            let value = format!("a{}b", c);
            let mut r = record(Some("http-get"));
            r.authorization = text(&value);
            let accepted = reqwest::header::HeaderValue::from_str(&value).is_ok();
            assert_eq!(r.resolve().is_ok(), accepted);
            assert_eq!(accepted, c == '\t' || (code >= 32 && code != 127));
        }
        code += 1;
    }
}

#[test]
fn serial_does_not_check_the_authorization() {
    let mut r = record(Some("serial"));
    r.authorization = text("a\nb");
    assert!(r.resolve().is_ok());
}
