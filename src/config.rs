//! The configuration store: the settings the agent runs with, the document
//! they were read from, and validated updates of the reporting interval.
use vstd::prelude::*;
use crate::text::{decimal_text, Decimal};

verus! {

/// The settings the agent runs with.
#[derive(Clone, Debug, PartialEq, Eq)]
pub struct Configuration {
    /// Address the control surface listens on.
    pub endpoint: String,
    /// Command that prints the temperature.
    pub temp_command: String,
    /// Command that prints the CO2 concentration.
    pub ppa_command: String,
    /// Base URL of the coordinator and of the ingestion endpoint.
    pub node_endpoint: String,
    /// Dashboard URL that the status report shows.
    pub graphana_endpoint: String,
    /// Seconds between sampling cycles.
    pub reporting_interval: Decimal,
    /// Identifier of the monitored room.
    pub raum_id: i32,
}

/// Why the configuration could not be loaded or changed.
#[derive(Clone, Debug, PartialEq, Eq)]
pub enum ConfigManagerError {
    MutexPoisoned,
    CouldntSave,
    /// The file could not be read; the reason.
    CouldntreadConfigFile(String),
    /// The document is not valid TOML; the parser's message.
    InvalidConfigFile(String),
    /// A required field is missing or has the wrong type; the message.
    ConfigFileMissingFields(String),
    ReportingIntervalNegative,
}

impl ConfigManagerError {
    /// The caller asked for something invalid, as opposed to a failure of
    /// the agent itself.
    pub fn is_client_error(&self) -> (r: bool)
        ensures
            r == (*self is ReportingIntervalNegative),
    {
        match self {
            ConfigManagerError::ReportingIntervalNegative => true,
            _ => false,
        }
    }
}

/// Names what toml_edit reports on parsing `doc` as a document: `None` where
/// it parses, the error's message where it does not.
pub uninterp spec fn toml_error_of(doc: Seq<char>) -> Option<Seq<char>>;

/// Names what toml_edit gives for `doc` with `key` of its root table set to
/// the value `value` writes: the rendered document, or `None` where `doc` is
/// not a document or `value` is not a value.
pub uninterp spec fn toml_with_value(doc: Seq<char>, key: Seq<char>, value: Seq<char>) -> Option<Seq<char>>;

/// Relies on toml_edit's `Document::from_str`: the message of its error, if
/// `doc` does not parse.
#[verifier::external_body]
fn toml_parse_error(doc: &str) -> (r: Option<String>)
    ensures
        match r {
            None => toml_error_of(doc@) is None,
            Some(m) => toml_error_of(doc@) == Some(m@),
        },
{
    match doc.parse::<toml_edit::Document>() {
        Ok(_) => None,
        Err(e) => Some(e.to_string()),
    }
}

/// Relies on toml_edit: `Document::from_str` on `doc`, `Value::from_str` on
/// `value`, assignment through the document's `IndexMut<&str>` and its
/// `Display` for the result.
#[verifier::external_body]
fn toml_set_value(doc: &str, key: &str, value: &str) -> (r: Option<String>)
    ensures
        match r {
            None => toml_with_value(doc@, key@, value@) is None,
            Some(t) => toml_with_value(doc@, key@, value@) == Some(t@),
        },
{
    let mut d = doc.parse::<toml_edit::Document>().ok()?;
    d[key] = toml_edit::value(value.parse::<toml_edit::Value>().ok()?);
    Some(d.to_string())
}

/// The key of the reporting interval in the document.
pub open spec fn interval_key() -> Seq<char> {
    seq!['r', 'e', 'p', 'o', 'r', 't', 'i', 'n', 'g', '_', 'i', 'n', 't', 'e', 'r', 'v', 'a', 'l']
}

/// The live configuration, the document it is persisted as, and where that
/// document lives.
pub struct ConfigManager {
    path: String,
    doc: String,
    conf: Configuration,
}

impl ConfigManager {
    pub closed spec fn spec_path(&self) -> Seq<char> {
        self.path@
    }

    /// The text of the document as it is to be persisted.
    pub closed spec fn spec_document(&self) -> Seq<char> {
        self.doc@
    }

    pub closed spec fn spec_configuration(&self) -> Configuration {
        self.conf
    }

    /// A store for the document `document` read from `path`, with `fields`
    /// the settings read from it (or why they could not be). A document that
    /// does not parse is refused first, then missing fields.
    pub fn new(path: String, document: String, fields: Result<Configuration, String>) -> (r: Result<Self, ConfigManagerError>)
        ensures
            match toml_error_of(document@) {
                Some(m) => r matches Err(ConfigManagerError::InvalidConfigFile(e)) && e@ == m,
                None => match fields {
                    Err(m) => r matches Err(ConfigManagerError::ConfigFileMissingFields(e)) && e@ == m@,
                    Ok(c) => r matches Ok(s) && s.spec_path() == path@ && s.spec_document() == document@
                        && s.spec_configuration() == c,
                },
            },
    {
        if let Some(m) = toml_parse_error(document.as_str()) {
            return Err(ConfigManagerError::InvalidConfigFile(m));
        }
        match fields {
            Err(m) => Err(ConfigManagerError::ConfigFileMissingFields(m)),
            Ok(conf) => Ok(ConfigManager { path, doc: document, conf }),
        }
    }

    pub fn configuration(&self) -> (r: &Configuration)
        ensures
            *r == self.spec_configuration(),
    {
        &self.conf
    }

    pub fn path(&self) -> (r: &String)
        ensures
            r@ == self.spec_path(),
    {
        &self.path
    }

    pub fn document(&self) -> (r: &String)
        ensures
            r@ == self.spec_document(),
    {
        &self.doc
    }

    pub fn reporting_interval(&self) -> (r: Decimal)
        ensures
            r == self.spec_configuration().reporting_interval,
    {
        self.conf.reporting_interval
    }

    /// Sets the reporting interval to `seconds`, in memory and in the
    /// document. A negative interval is refused and nothing changes. The
    /// document that comes out is the one to persist.
    pub fn update_reporting_interval(&mut self, seconds: Decimal) -> (r: Result<(), ConfigManagerError>)
        requires
            seconds.scale < usize::MAX,
        ensures
            seconds.spec_is_negative() ==> r == Err::<(), ConfigManagerError>(
                ConfigManagerError::ReportingIntervalNegative,
            ) && *final(self) == *old(self),
            !seconds.spec_is_negative() ==> match toml_with_value(
                old(self).spec_document(),
                interval_key(),
                decimal_text(seconds),
            ) {
                None => r == Err::<(), ConfigManagerError>(ConfigManagerError::CouldntSave) && *final(self)
                    == *old(self),
                Some(t) => r is Ok && final(self).spec_document() == t && final(self).spec_path()
                    == old(self).spec_path() && final(self).spec_configuration() == (Configuration {
                    reporting_interval: seconds,
                    ..old(self).spec_configuration()
                }),
            },
    {
        if seconds.is_negative() {
            return Err(ConfigManagerError::ReportingIntervalNegative);
        }
        let text = seconds.to_text();
        let key = "reporting_interval";
        proof {
            reveal_strlit("reporting_interval");
            assert(key@ =~= interval_key());
        }
        match toml_set_value(self.doc.as_str(), key, text.as_str()) {
            None => Err(ConfigManagerError::CouldntSave),
            Some(t) => {
                self.doc = t;
                self.conf.reporting_interval = seconds;
                Ok(())
            },
        }
    }
}

} // verus!
