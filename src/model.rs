//! Shared value types: statuses, error kinds, the normalized inbound message
//! and the framework-neutral webhook response.
use vstd::prelude::*;

use crate::encode::{
    datetime_json, datetime_json_of, instant_in_range, is_json_text, json_string, json_string_of,
    json_text_check, MAX_OFFSET_SECONDS, MAX_UNIX_SECONDS, MIN_UNIX_SECONDS,
};

verus! {

/// HTTP-like status codes that the dispatch pipeline can produce.
#[derive(Debug, Clone, Copy, PartialEq, Eq, Structural)]
pub enum HttpStatus {
    Success,
    BadRequest,
    Unauthorized,
    NotFound,
    InternalServerError,
}

impl HttpStatus {
    /// The numeric code of a status.
    pub open spec fn code(self) -> u16 {
        match self {
            HttpStatus::Success => 200,
            HttpStatus::BadRequest => 400,
            HttpStatus::Unauthorized => 401,
            HttpStatus::NotFound => 404,
            HttpStatus::InternalServerError => 500,
        }
    }

    pub fn as_u16(self) -> (r: u16)
        ensures
            r == self.code(),
    {
        match self {
            HttpStatus::Success => 200,
            HttpStatus::BadRequest => 400,
            HttpStatus::Unauthorized => 401,
            HttpStatus::NotFound => 404,
            HttpStatus::InternalServerError => 500,
        }
    }
}

/// Errors that can occur during SMS operations.
#[derive(Debug, Clone)]
pub enum SmsError {
    /// HTTP communication error
    Http(String),
    /// Authentication/authorization error
    Auth(String),
    /// Invalid request parameters
    Invalid(String),
    /// The SMS provider returned an error
    Provider(String),
    /// Anything else
    Unexpected(String),
}

impl SmsError {
    /// The human-readable description of an error: a fixed prefix per kind,
    /// then the carried message.
    pub open spec fn describe(self) -> Seq<char> {
        match self {
            SmsError::Http(m) => "http error: "@ + m@,
            SmsError::Auth(m) => "authentication error: "@ + m@,
            SmsError::Invalid(m) => "invalid request: "@ + m@,
            SmsError::Provider(m) => "provider error: "@ + m@,
            SmsError::Unexpected(m) => "unexpected: "@ + m@,
        }
    }

    pub fn to_string(&self) -> (r: String)
        ensures
            r@ == self.describe(),
    {
        match self {
            SmsError::Http(m) => String::from_str("http error: ").concat(m.as_str()),
            SmsError::Auth(m) => String::from_str("authentication error: ").concat(m.as_str()),
            SmsError::Invalid(m) => String::from_str("invalid request: ").concat(m.as_str()),
            SmsError::Provider(m) => String::from_str("provider error: ").concat(m.as_str()),
            SmsError::Unexpected(m) => String::from_str("unexpected: ").concat(m.as_str()),
        }
    }
}

/// Dispatch-level error kinds of webhook processing.
#[derive(Debug, Clone)]
pub enum WebhookError {
    ProviderNotFound(String),
    VerificationFailed(String),
    ParseError(String),
    SmsError(SmsError),
}

impl WebhookError {
    pub open spec fn describe(self) -> Seq<char> {
        match self {
            WebhookError::ProviderNotFound(m) => "provider not found: "@ + m@,
            WebhookError::VerificationFailed(m) => "signature verification failed: "@ + m@,
            WebhookError::ParseError(m) => "parsing failed: "@ + m@,
            WebhookError::SmsError(e) => "SMS processing error: "@ + e.describe(),
        }
    }

    pub fn to_string(&self) -> (r: String)
        ensures
            r@ == self.describe(),
    {
        match self {
            WebhookError::ProviderNotFound(m) => String::from_str("provider not found: ").concat(
                m.as_str(),
            ),
            WebhookError::VerificationFailed(m) => String::from_str(
                "signature verification failed: ",
            ).concat(m.as_str()),
            WebhookError::ParseError(m) => String::from_str("parsing failed: ").concat(m.as_str()),
            WebhookError::SmsError(e) => {
                let d = e.to_string();
                String::from_str("SMS processing error: ").concat(d.as_str())
            },
        }
    }
}

impl From<SmsError> for WebhookError {
    fn from(e: SmsError) -> (r: WebhookError)
        ensures
            r == WebhookError::SmsError(e),
    {
        WebhookError::SmsError(e)
    }
}

impl vstd::std_specs::convert::FromSpecImpl<SmsError> for WebhookError {
    open spec fn obeys_from_spec() -> bool {
        true
    }

    open spec fn from_spec(e: SmsError) -> WebhookError {
        WebhookError::SmsError(e)
    }
}

/// An outbound send request; all three parts are borrowed.
#[derive(Debug, Clone, Copy)]
pub struct SendRequest<'a> {
    pub to: &'a str,
    pub from: &'a str,
    pub text: &'a str,
}

/// An instant with its UTC offset, held as plain numbers: seconds since the
/// Unix epoch (UTC), the nanosecond within that second, and the offset from
/// UTC in seconds.
#[derive(Debug, Clone, Copy, PartialEq, Eq, Structural)]
pub struct Timestamp {
    pub unix_seconds: i64,
    pub nanosecond: u32,
    pub offset_seconds: i32,
}

impl Timestamp {
    /// The parts form a date and time: a nanosecond within its second, an
    /// offset of at most 25:59:59, and a local date (at the offset) between
    /// the years -9999 and 9999.
    pub open spec fn valid(self) -> bool {
        instant_in_range(self.unix_seconds as int, self.nanosecond as int, self.offset_seconds as int)
    }
}

/// Normalized inbound message (for example a reply).
///
/// `raw` holds the vendor payload as JSON text, kept for audit and never
/// interpreted here; text that is no JSON is carried as a JSON string.
#[derive(Debug, Clone)]
pub struct InboundMessage {
    pub id: Option<String>,
    pub from: String,
    pub to: String,
    pub text: String,
    pub timestamp: Option<Timestamp>,
    pub provider: String,
    pub raw: String,
}

/// Result of webhook processing: the message and the status it was answered with.
#[derive(Debug, Clone)]
pub struct WebhookResult {
    pub message: InboundMessage,
    pub status: u16,
}

/// Field-wise equality of two optional strings, by their characters.
pub open spec fn same_opt_string(a: Option<String>, b: Option<String>) -> bool {
    match (a, b) {
        (Some(x), Some(y)) => x@ == y@,
        (None, None) => true,
        _ => false,
    }
}

fn eq_opt_string(a: &Option<String>, b: &Option<String>) -> (r: bool)
    ensures
        r == same_opt_string(*a, *b),
{
    match (a, b) {
        (Some(x), Some(y)) => *x == *y,
        (None, None) => true,
        _ => false,
    }
}

impl InboundMessage {
    /// A timestamp, where there is one, is an instant.
    pub open spec fn valid(self) -> bool {
        match self.timestamp {
            Some(ts) => ts.valid(),
            None => true,
        }
    }

    /// Field-wise equality, strings compared by their characters.
    pub open spec fn same(self, o: InboundMessage) -> bool {
        &&& same_opt_string(self.id, o.id)
        &&& self.from@ == o.from@
        &&& self.to@ == o.to@
        &&& self.text@ == o.text@
        &&& self.timestamp == o.timestamp
        &&& self.provider@ == o.provider@
        &&& self.raw@ == o.raw@
    }
}

impl PartialEq for InboundMessage {
    fn eq(&self, o: &InboundMessage) -> (r: bool)
        ensures
            r == self.same(*o),
    {
        eq_opt_string(&self.id, &o.id) && self.from == o.from && self.to == o.to && self.text
            == o.text && self.timestamp == o.timestamp && self.provider == o.provider && self.raw
            == o.raw
    }
}

impl vstd::std_specs::cmp::PartialEqSpecImpl for InboundMessage {
    open spec fn obeys_eq_spec() -> bool {
        true
    }

    open spec fn eq_spec(&self, o: &InboundMessage) -> bool {
        self.same(*o)
    }
}

/// JSON text of an optional string: the encoded string, or `null`.
pub open spec fn json_opt_string(o: Option<String>) -> Seq<char> {
    match o {
        Some(s) => json_string_of(s@),
        None => "null"@,
    }
}

/// JSON text of an optional timestamp: the instant as serde_json writes a
/// `time::OffsetDateTime`, or `null`.
pub open spec fn json_timestamp(t: Option<Timestamp>) -> Seq<char> {
    match t {
        None => "null"@,
        Some(ts) => datetime_json_of(
            ts.unix_seconds as int,
            ts.nanosecond as int,
            ts.offset_seconds as int,
        ),
    }
}

/// The JSON that stands for the raw payload: the text itself where it is
/// JSON, else the text as a JSON string.
pub open spec fn json_raw(raw: Seq<char>) -> Seq<char> {
    if is_json_text(raw) {
        raw
    } else {
        json_string_of(raw)
    }
}

/// The JSON object that stands for a message, fields in declaration order.
pub open spec fn message_json(m: InboundMessage) -> Seq<char> {
    "{\"id\":"@ + json_opt_string(m.id) + ",\"from\":"@ + json_string_of(m.from@) + ",\"to\":"@
        + json_string_of(m.to@) + ",\"text\":"@ + json_string_of(m.text@) + ",\"timestamp\":"@
        + json_timestamp(m.timestamp) + ",\"provider\":"@ + json_string_of(m.provider@)
        + ",\"raw\":"@ + json_raw(m.raw@) + "}"@
}

/// One character of a message as it stands inside the error body.
pub open spec fn escaped_char(c: char) -> Seq<char> {
    if c == '"' {
        "\\\""@
    } else {
        seq![c]
    }
}

/// A message with every double quote preceded by a backslash.
pub open spec fn escape_quotes(s: Seq<char>) -> Seq<char>
    decreases s.len(),
{
    if s.len() == 0 {
        Seq::empty()
    } else {
        escape_quotes(s.drop_last()) + escaped_char(s.last())
    }
}

/// The body of an error response carrying `msg`.
pub open spec fn error_body(msg: Seq<char>) -> Seq<char> {
    "{\"error\": \""@ + escape_quotes(msg) + "\"}"@
}

/// Framework-neutral webhook response.
#[derive(Debug, Clone)]
pub struct WebhookResponse {
    pub status: HttpStatus,
    pub body: String,
    pub content_type: String,
}

impl WebhookResponse {
    /// The response is the error response with this status and message.
    pub open spec fn is_error(self, status: HttpStatus, msg: Seq<char>) -> bool {
        &&& self.status == status
        &&& self.body@ == error_body(msg)
        &&& self.content_type@ == "application/json"@
    }

    /// The response is the success response for message `m`: status 200 and
    /// the message as JSON; `{}` exactly when the message's timestamp is out
    /// of range.
    pub open spec fn is_success(self, m: InboundMessage) -> bool {
        &&& self.status == HttpStatus::Success
        &&& self.body@ == if m.valid() {
            message_json(m)
        } else {
            "{}"@
        }
        &&& self.content_type@ == "application/json"@
    }

    pub fn success(message: InboundMessage) -> (r: Self)
        ensures
            r.is_success(message),
    {
        let body = match message_json_text(&message) {
            Some(b) => b,
            None => String::from_str("{}"),
        };
        WebhookResponse {
            status: HttpStatus::Success,
            body,
            content_type: String::from_str("application/json"),
        }
    }

    pub fn error(status: HttpStatus, message: &str) -> (r: Self)
        ensures
            r.is_error(status, message@),
    {
        let n = message.unicode_len();
        let mut out = String::from_str("{\"error\": \"");
        let mut i: usize = 0;
        while i < n
            invariant
                n == message@.len(),
                i <= n,
                out@ == "{\"error\": \""@ + escape_quotes(message@.subrange(0, i as int)),
            decreases n - i,
        {
            let c = message.get_char(i);
            let ghost before = message@.subrange(0, i as int);
            if c == '"' {
                out.append("\\\"");
            } else {
                let one = message.substring_char(i, i + 1);
                assert(one@ =~= seq![c]);
                out.append(one);
            }
            i = i + 1;
            assert(message@.subrange(0, i as int).drop_last() =~= before);
        }
        assert(message@.subrange(0, n as int) =~= message@);
        out.append("\"}");
        WebhookResponse { status, body: out, content_type: String::from_str("application/json") }
    }
}

fn opt_string_json(o: &Option<String>) -> (r: String)
    ensures
        r@ == json_opt_string(*o),
{
    match o {
        Some(s) => json_string(s.as_str()),
        None => String::from_str("null"),
    }
}

impl Timestamp {
    /// Whether the parts form a date and time in range.
    pub fn is_valid(&self) -> (r: bool)
        ensures
            r == self.valid(),
    {
        let local: i128 = self.unix_seconds as i128 + self.offset_seconds as i128;
        self.nanosecond < 1_000_000_000 && -MAX_OFFSET_SECONDS <= self.offset_seconds
            && self.offset_seconds <= MAX_OFFSET_SECONDS && MIN_UNIX_SECONDS as i128 <= local
            && local <= MAX_UNIX_SECONDS as i128
    }
}

fn timestamp_json(t: &Option<Timestamp>) -> (r: Option<String>)
    ensures
        r is Some ==> r.unwrap()@ == json_timestamp(*t),
        r is Some <==> match *t {
            Some(ts) => ts.valid(),
            None => true,
        },
{
    match t {
        None => Some(String::from_str("null")),
        Some(ts) => {
            if ts.is_valid() {
                datetime_json(ts.unix_seconds, ts.nanosecond, ts.offset_seconds)
            } else {
                None
            }
        },
    }
}

fn message_json_text(m: &InboundMessage) -> (r: Option<String>)
    ensures
        r is Some ==> r.unwrap()@ == message_json(*m),
        r is Some <==> m.valid(),
{
    let ts = match timestamp_json(&m.timestamp) {
        Some(t) => t,
        None => {
            return None;
        },
    };
    let mut out = String::from_str("{\"id\":");
    out.append(opt_string_json(&m.id).as_str());
    out.append(",\"from\":");
    out.append(json_string(m.from.as_str()).as_str());
    out.append(",\"to\":");
    out.append(json_string(m.to.as_str()).as_str());
    out.append(",\"text\":");
    out.append(json_string(m.text.as_str()).as_str());
    out.append(",\"timestamp\":");
    out.append(ts.as_str());
    out.append(",\"provider\":");
    out.append(json_string(m.provider.as_str()).as_str());
    out.append(",\"raw\":");
    if json_text_check(m.raw.as_str()) {
        out.append(m.raw.as_str());
    } else {
        out.append(json_string(m.raw.as_str()).as_str());
    }
    out.append("}");
    Some(out)
}

} // verus!
