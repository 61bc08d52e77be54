//! Readings, the probe-output contract, and the last-known status of the
//! sampling pipeline.
use vstd::prelude::*;
use vstd::utf8::{decode_utf8, valid_utf8};
use crate::text::{decimal_of, parse_decimal, parse_u16, trim_line_end, trim_line_end_str, u16_of, Decimal};

verus! {

/// Why one sampling cycle failed.
#[derive(Clone, Debug, PartialEq, Eq)]
pub enum DataError {
    /// The probe exited with failure; what it wrote to stderr.
    CommandFailed(String),
    /// The probe could not be started.
    CouldntStartCommand,
    /// The probe's output was not text, or did not hold the expected value.
    ScriptInvalidOutput,
    /// The reading could not be delivered to the ingestion endpoint.
    SendDataFailed,
}

/// A value that a probe prints, and what its text means.
pub trait ProbeValue: Sized {
    /// The value that the text `s` writes, if any.
    spec fn spec_parse(s: Seq<char>) -> Option<Self>;

    fn parse_text(s: &str) -> (r: Option<Self>)
        ensures
            r == Self::spec_parse(s@),
    ;
}

impl ProbeValue for u16 {
    open spec fn spec_parse(s: Seq<char>) -> Option<u16> {
        u16_of(s)
    }

    fn parse_text(s: &str) -> (r: Option<u16>) {
        parse_u16(s)
    }
}

impl ProbeValue for Decimal {
    open spec fn spec_parse(s: Seq<char>) -> Option<Decimal> {
        decimal_of(s)
    }

    fn parse_text(s: &str) -> (r: Option<Decimal>) {
        parse_decimal(s)
    }
}

/// What `parse_string` makes of the probe output `s`.
pub open spec fn parsed_output<A: ProbeValue>(s: Seq<char>) -> Result<A, DataError> {
    match A::spec_parse(trim_line_end(s)) {
        Some(v) => Ok(v),
        None => Err(DataError::ScriptInvalidOutput),
    }
}

/// The value that a probe printed, its line ending taken off.
pub fn parse_string<A: ProbeValue>(output: String) -> (r: Result<A, DataError>)
    ensures
        r == parsed_output::<A>(output@),
{
    let trimmed = trim_line_end_str(output.as_str());
    match A::parse_text(trimmed) {
        Some(v) => Ok(v),
        None => Err(DataError::ScriptInvalidOutput),
    }
}

/// One composite sample: CO2 in ppm and temperature in degrees Celsius.
#[derive(Clone, Copy, Debug, PartialEq, Eq, Structural)]
pub struct Data {
    pub co2: u16,
    pub temperature: Decimal,
}

impl Data {
    pub fn new(co2: u16, temperature: Decimal) -> (r: Data)
        ensures
            r == (Data { co2, temperature }),
    {
        Data { co2, temperature }
    }
}

impl Default for Data {
    /// Zero ppm at zero degrees.
    fn default() -> (r: Data)
        ensures
            r == (Data { co2: 0, temperature: Decimal { negative: false, mantissa: 0, scale: 0 } }),
    {
        Data { co2: 0, temperature: Decimal { negative: false, mantissa: 0, scale: 0 } }
    }
}

/// The reading made of the two probes' outputs: the CO2 probe's error or
/// parse failure first, then the temperature probe's.
pub open spec fn reading_from(co2: Result<String, DataError>, temperature: Result<String, DataError>) -> Result<Data, DataError> {
    match co2 {
        Err(e) => Err(e),
        Ok(c) => match parsed_output::<u16>(c@) {
            Err(e) => Err(e),
            Ok(c) => match temperature {
                Err(e) => Err(e),
                Ok(t) => match parsed_output::<Decimal>(t@) {
                    Err(e) => Err(e),
                    Ok(t) => Ok(Data { co2: c, temperature: t }),
                },
            },
        },
    }
}

/// Combines what the CO2 probe and the temperature probe returned (after
/// their retries) into one reading: both values, or the first error.
pub fn collect(co2: Result<String, DataError>, temperature: Result<String, DataError>) -> (r: Result<Data, DataError>)
    ensures
        r == reading_from(co2, temperature),
{
    let c = match co2 {
        Err(e) => return Err(e),
        Ok(out) => parse_string::<u16>(out),
    };
    let c = match c {
        Err(e) => return Err(e),
        Ok(c) => c,
    };
    let t = match temperature {
        Err(e) => return Err(e),
        Ok(out) => parse_string::<Decimal>(out),
    };
    match t {
        Err(e) => Err(e),
        Ok(t) => Ok(Data { co2: c, temperature: t }),
    }
}

/// The reading that one line `co2,temperature` writes, its line ending taken
/// off; an invalid-output error where there is no comma or a value does not
/// parse.
pub open spec fn reading_of_line(s: Seq<char>) -> Result<Data, DataError> {
    let t = trim_line_end(s);
    if exists|p: int| 0 <= p < t.len() && t[p] == ',' {
        let p = choose|p: int| 0 <= p < t.len() && t[p] == ',' && forall|q: int| 0 <= q < p ==> t[q] != ',';
        match (u16_of(t.take(p)), decimal_of(t.skip(p + 1))) {
            (Some(c), Some(d)) => Ok(Data { co2: c, temperature: d }),
            _ => Err(DataError::ScriptInvalidOutput),
        }
    } else {
        Err(DataError::ScriptInvalidOutput)
    }
}

/// Reads a probe that prints both values on one line, split at the first comma.
pub fn parse_reading(output: &str) -> (r: Result<Data, DataError>)
    ensures
        r == reading_of_line(output@),
{
    let t = trim_line_end_str(output);
    let n = t.unicode_len();
    let mut p: usize = 0;
    while p < n && t.get_char(p) != ','
        invariant
            p <= n,
            n == t@.len(),
            forall|q: int| 0 <= q < p ==> t@[q] != ',',
        decreases n - p,
    {
        p = p + 1;
    }
    if p == n {
        return Err(DataError::ScriptInvalidOutput);
    }
    proof {
        let s = t@;
        assert(0 <= p < s.len() && s[p as int] == ',');
        let c = choose|c: int| 0 <= c < s.len() && s[c] == ',' && forall|q: int| 0 <= q < c ==> s[q] != ',';
        assert(c == p) by {
            if c < p {
                assert(s[c] != ',');
            } else if c > p {
                assert(s[p as int] != ',');
            }
        }
    }
    let co2 = parse_u16(t.substring_char(0, p));
    let temperature = parse_decimal(t.substring_char(p + 1, n));
    match (co2, temperature) {
        (Some(c), Some(d)) => Ok(Data { co2: c, temperature: d }),
        _ => Err(DataError::ScriptInvalidOutput),
    }
}

/// What a probe process left behind once it ended.
pub struct CommandOutput {
    pub success: bool,
    pub stdout: Vec<u8>,
    pub stderr: Vec<u8>,
}

/// Names `String::from_utf8_lossy`'s result: the text of `b`, with each
/// invalid sequence replaced.
pub uninterp spec fn lossy_text(b: Seq<u8>) -> Seq<char>;

/// Relies on `String::from_utf8`: the text that `b` encodes where `b` is valid
/// UTF-8, an error otherwise.
#[verifier::external_body]
fn utf8_text(b: Vec<u8>) -> (r: Option<String>)
    ensures
        r is Some <==> valid_utf8(b@),
        r is Some ==> r->0@ == decode_utf8(b@),
{
    String::from_utf8(b).ok()
}

/// Relies on `String::from_utf8_lossy`: the text of `b`, invalid sequences
/// replaced; valid UTF-8 comes back decoded as it is.
#[verifier::external_body]
fn utf8_text_lossy(b: &Vec<u8>) -> (r: String)
    ensures
        r@ == lossy_text(b@),
        valid_utf8(b@) ==> r@ == decode_utf8(b@),
{
    String::from_utf8_lossy(b.as_slice()).into_owned()
}

/// What one probe run yields: `None` stands for a probe that could not be
/// started. The output of a successful run is its stdout, line ending taken
/// off.
pub fn command_result(output: Option<CommandOutput>) -> (r: Result<String, DataError>)
    ensures
        match output {
            None => r == Err::<String, DataError>(DataError::CouldntStartCommand),
            Some(o) => if !o.success {
                r matches Err(DataError::CommandFailed(m)) && m@ == lossy_text(o.stderr@)
            } else if valid_utf8(o.stdout@) {
                r matches Ok(s) && s@ == trim_line_end(decode_utf8(o.stdout@))
            } else {
                r == Err::<String, DataError>(DataError::ScriptInvalidOutput)
            },
        },
{
    match output {
        None => Err(DataError::CouldntStartCommand),
        Some(o) => {
            if !o.success {
                return Err(DataError::CommandFailed(utf8_text_lossy(&o.stderr)));
            }
            match utf8_text(o.stdout) {
                Some(text) => Ok(trim_line_end_str(text.as_str()).to_owned()),
                None => Err(DataError::ScriptInvalidOutput),
            }
        },
    }
}

} // verus!
