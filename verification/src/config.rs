//! The configuration: a record of optional texts as it is written down,
//! and what it resolves to, one source with the fields that it needs.

use vstd::prelude::*;
use vstd::string::*;
use crate::error::{ConfigError, ConfigField, ParseError};
use crate::header::{header_text, is_header_text};
use crate::json::{json_document, json_members, member, parse_document, text_of};
use crate::text::same_text;

verus! {

/// Speed of the serial line, in bits per second.
pub const BAUD_RATE: u32 = 9600;

/// How long one operation on the serial port may take, in milliseconds.
pub const PORT_TIMEOUT_MS: u64 = 10;

/// The configuration as it is written: a kind and the fields that the kinds
/// use, each of which may be left out.
#[derive(Clone, Debug, PartialEq, Eq)]
pub struct ConfigRecord {
    pub kind: Option<String>,
    pub port: Option<String>,
    pub url: Option<String>,
    pub authorization: Option<String>,
    pub key: Option<String>,
}

/// A [`ConfigRecord`] with its texts as sequences of characters.
#[verifier::ext_equal]
pub struct ConfigRecordView {
    pub kind: Option<Seq<char>>,
    pub port: Option<Seq<char>>,
    pub url: Option<Seq<char>>,
    pub authorization: Option<Seq<char>>,
    pub key: Option<Seq<char>>,
}

/// The view of a field that may be absent.
pub open spec fn field_view(field: Option<String>) -> Option<Seq<char>> {
    match field {
        Some(text) => Some(text@),
        None => None,
    }
}

impl View for ConfigRecord {
    type V = ConfigRecordView;

    open spec fn view(&self) -> ConfigRecordView {
        ConfigRecordView {
            kind: field_view(self.kind),
            port: field_view(self.port),
            url: field_view(self.url),
            authorization: field_view(self.authorization),
            key: field_view(self.key),
        }
    }
}

/// The source of readings, with what it takes to reach it.
#[derive(Clone, Debug, PartialEq, Eq)]
pub enum Configuration {
    /// A sensor on the serial device `port`.
    Serial { port: String },
    /// An endpoint that answers a GET with a JSON document; the request
    /// carries `authorization` as its `Authorization` header, and the
    /// reading is the string under `key`.
    HttpGet { url: String, authorization: String, key: String },
}

/// A [`Configuration`] with its texts as sequences of characters.
#[verifier::ext_equal]
pub enum ConfigurationView {
    Serial { port: Seq<char> },
    HttpGet { url: Seq<char>, authorization: Seq<char>, key: Seq<char> },
}

impl View for Configuration {
    type V = ConfigurationView;

    open spec fn view(&self) -> ConfigurationView {
        match self {
            Configuration::Serial { port } => ConfigurationView::Serial { port: port@ },
            Configuration::HttpGet { url, authorization, key } => ConfigurationView::HttpGet {
                url: url@,
                authorization: authorization@,
                key: key@,
            },
        }
    }
}

/// The kind that selects the serial sensor.
pub open spec fn serial_kind() -> Seq<char> {
    "serial"@
}

/// The kind that selects the HTTP endpoint.
pub open spec fn http_get_kind() -> Seq<char> {
    "http-get"@
}

/// A field that a kind needs: it must be there and must not be empty.
pub open spec fn required_field(field: Option<Seq<char>>, which: ConfigField) -> Result<
    Seq<char>,
    ConfigError,
> {
    match field {
        None => Err(ConfigError::MissingField(which)),
        Some(text) => if text.len() == 0 {
            Err(ConfigError::EmptyField(which))
        } else {
            Ok(text)
        },
    }
}

/// What a record resolves to. The kind decides which fields are looked at;
/// the others may hold anything. A field that is looked at must be there
/// and must not be empty, and the authorization must be fit for an HTTP
/// header. Of several faults the first is reported, the fields taken in
/// the order url, authorization, key.
pub open spec fn resolved(record: ConfigRecordView) -> Result<ConfigurationView, ConfigError> {
    match record.kind {
        None => Err(ConfigError::MissingField(ConfigField::Kind)),
        Some(kind) => if kind == serial_kind() {
            match required_field(record.port, ConfigField::Port) {
                Err(e) => Err(e),
                Ok(port) => Ok(ConfigurationView::Serial { port }),
            }
        } else if kind == http_get_kind() {
            match required_field(record.url, ConfigField::Url) {
                Err(e) => Err(e),
                Ok(url) => match required_field(record.authorization, ConfigField::Authorization) {
                    Err(e) => Err(e),
                    Ok(authorization) => if !header_text(authorization) {
                        Err(ConfigError::InvalidField(ConfigField::Authorization))
                    } else {
                        match required_field(record.key, ConfigField::Key) {
                            Err(e) => Err(e),
                            Ok(key) => Ok(ConfigurationView::HttpGet { url, authorization, key }),
                        }
                    },
                },
            }
        } else {
            Err(ConfigError::UnknownKind)
        },
    }
}

/// Whether a configuration holds what its source needs: no empty field,
/// and an authorization that is fit for an HTTP header.
pub open spec fn valid(config: ConfigurationView) -> bool {
    match config {
        ConfigurationView::Serial { port } => port.len() > 0,
        ConfigurationView::HttpGet { url, authorization, key } => url.len() > 0
            && authorization.len() > 0 && header_text(authorization) && key.len() > 0,
    }
}

/// The fault of a configuration, the fields taken in the order url,
/// authorization, key; `None` for a valid one.
pub open spec fn fault(config: ConfigurationView) -> Option<ConfigError> {
    match config {
        ConfigurationView::Serial { port } => if port.len() == 0 {
            Some(ConfigError::EmptyField(ConfigField::Port))
        } else {
            None
        },
        ConfigurationView::HttpGet { url, authorization, key } => if url.len() == 0 {
            Some(ConfigError::EmptyField(ConfigField::Url))
        } else if authorization.len() == 0 {
            Some(ConfigError::EmptyField(ConfigField::Authorization))
        } else if !header_text(authorization) {
            Some(ConfigError::InvalidField(ConfigField::Authorization))
        } else if key.len() == 0 {
            Some(ConfigError::EmptyField(ConfigField::Key))
        } else {
            None
        },
    }
}

/// The text under a key of a JSON document; a member of another kind
/// counts as absent.
pub open spec fn text_member(
    members: Map<Seq<char>, Option<Seq<char>>>,
    key: Seq<char>,
) -> Option<Seq<char>> {
    if members.dom().contains(key) {
        members[key]
    } else {
        None
    }
}

/// The record that a JSON document spells: its members `kind`, `port`,
/// `url`, `authorization` and `key`, as far as they are there and are
/// strings.
pub open spec fn record_of(members: Map<Seq<char>, Option<Seq<char>>>) -> ConfigRecordView {
    ConfigRecordView {
        kind: text_member(members, "kind"@),
        port: text_member(members, "port"@),
        url: text_member(members, "url"@),
        authorization: text_member(members, "authorization"@),
        key: text_member(members, "key"@),
    }
}

fn text_field(document: &serde_json::Value, key: &str) -> (field: Option<String>)
    ensures
        field_view(field) == text_member(json_members(*document), key@),
{
    match member(document, key) {
        None => None,
        Some(found) => match text_of(found) {
            None => None,
            Some(text) => Some(String::from_str(text)),
        },
    }
}

fn required(field: &Option<String>, which: ConfigField) -> (r: Result<String, ConfigError>)
    ensures
        match r {
            Ok(text) => required_field(field_view(*field), which) == Ok::<Seq<char>, ConfigError>(
                text@,
            ),
            Err(e) => required_field(field_view(*field), which) == Err::<Seq<char>, ConfigError>(e),
        },
{
    match field {
        None => Err(ConfigError::MissingField(which)),
        Some(text) => if text.as_str().is_empty() {
            Err(ConfigError::EmptyField(which))
        } else {
            Ok(text.clone())
        },
    }
}

impl ConfigRecord {
    /// Reads a record from the text of a JSON document. Only a text that is
    /// no JSON is refused: what the record lacks shows when it is resolved.
    pub fn from_json(text: &str) -> (r: Result<ConfigRecord, ParseError>)
        ensures
            match r {
                Ok(record) => json_document(text@) matches Some(members) && record@ == record_of(
                    members,
                ),
                Err(e) => e == ParseError::Json && json_document(text@) is None,
            },
    {
        match parse_document(text) {
            Err(_) => Err(ParseError::Json),
            Ok(document) => Ok(
                ConfigRecord {
                    kind: text_field(&document, "kind"),
                    port: text_field(&document, "port"),
                    url: text_field(&document, "url"),
                    authorization: text_field(&document, "authorization"),
                    key: text_field(&document, "key"),
                },
            ),
        }
    }

    /// Resolves the record to the source that its kind names.
    pub fn resolve(&self) -> (r: Result<Configuration, ConfigError>)
        ensures
            match r {
                Ok(config) => resolved(self@) == Ok::<ConfigurationView, ConfigError>(config@)
                    && valid(config@),
                Err(e) => resolved(self@) == Err::<ConfigurationView, ConfigError>(e),
            },
    {
        let kind = match &self.kind {
            None => { return Err(ConfigError::MissingField(ConfigField::Kind)); },
            Some(kind) => kind,
        };
        if same_text(kind.as_str(), "serial") {
            match required(&self.port, ConfigField::Port) {
                Err(e) => Err(e),
                Ok(port) => Ok(Configuration::Serial { port }),
            }
        } else if same_text(kind.as_str(), "http-get") {
            let url = match required(&self.url, ConfigField::Url) {
                Err(e) => { return Err(e); },
                Ok(url) => url,
            };
            let authorization = match required(&self.authorization, ConfigField::Authorization) {
                Err(e) => { return Err(e); },
                Ok(authorization) => authorization,
            };
            if !is_header_text(authorization.as_str()) {
                return Err(ConfigError::InvalidField(ConfigField::Authorization));
            }
            match required(&self.key, ConfigField::Key) {
                Err(e) => Err(e),
                Ok(key) => Ok(Configuration::HttpGet { url, authorization, key }),
            }
        } else {
            Err(ConfigError::UnknownKind)
        }
    }
}

impl Configuration {
    /// Checks that no field is empty and that the authorization can be
    /// sent as a header value.
    pub fn validate(&self) -> (r: Result<(), ConfigError>)
        ensures
            match r {
                Ok(_) => valid(self@) && fault(self@) is None,
                Err(e) => !valid(self@) && fault(self@) == Some(e),
            },
    {
        match self {
            Configuration::Serial { port } => if port.as_str().is_empty() {
                Err(ConfigError::EmptyField(ConfigField::Port))
            } else {
                Ok(())
            },
            Configuration::HttpGet { url, authorization, key } => if url.as_str().is_empty() {
                Err(ConfigError::EmptyField(ConfigField::Url))
            } else if authorization.as_str().is_empty() {
                Err(ConfigError::EmptyField(ConfigField::Authorization))
            } else if !is_header_text(authorization.as_str()) {
                Err(ConfigError::InvalidField(ConfigField::Authorization))
            } else if key.as_str().is_empty() {
                Err(ConfigError::EmptyField(ConfigField::Key))
            } else {
                Ok(())
            },
        }
    }
}

/// A kind that is there and is neither of the two known ones is refused as
/// unknown, whatever the other fields hold.
pub proof fn lemma_unknown_kind(record: ConfigRecordView)
    requires
        record.kind matches Some(kind) && kind != serial_kind() && kind != http_get_kind(),
    ensures
        resolved(record) == Err::<ConfigurationView, ConfigError>(ConfigError::UnknownKind),
{
}

/// The two kinds are different texts, so a record resolves by one rule only.
pub proof fn lemma_kinds_differ()
    ensures
        serial_kind() != http_get_kind(),
{
    reveal_strlit("serial");
    reveal_strlit("http-get");
    assert(serial_kind().len() == 6);
    assert(http_get_kind().len() == 8);
}

/// What a record resolves to is valid and of the kind that the record
/// names.
pub proof fn lemma_resolved_is_valid(record: ConfigRecordView)
    ensures
        resolved(record) matches Ok(config) ==> valid(config) && fault(config) is None && (
        config is Serial <==> record.kind == Some(serial_kind())),
{
    lemma_kinds_differ();
}

} // verus!
