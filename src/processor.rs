//! The webhook dispatch pipeline: resolve the handler, verify, parse, and map
//! every outcome to one response.
use std::sync::Arc;
use vstd::prelude::*;

use crate::model::{
    escape_quotes, message_json, HttpStatus, InboundMessage, SmsError, WebhookError,
    WebhookResponse,
};
use crate::registry::{Headers, InboundRegistry, InboundWebhook};

verus! {

/// Status and message of the error response for each error kind.
pub open spec fn error_status(e: WebhookError) -> HttpStatus {
    match e {
        WebhookError::ProviderNotFound(_) => HttpStatus::NotFound,
        WebhookError::VerificationFailed(_) => HttpStatus::Unauthorized,
        WebhookError::ParseError(_) => HttpStatus::BadRequest,
        WebhookError::SmsError(_) => HttpStatus::InternalServerError,
    }
}

pub open spec fn error_message(e: WebhookError) -> Seq<char> {
    match e {
        WebhookError::ProviderNotFound(_) => "unknown provider"@,
        WebhookError::VerificationFailed(m) => "verification failed: "@ + m@,
        WebhookError::ParseError(m) => "parse error: "@ + m@,
        WebhookError::SmsError(s) => "SMS error: "@ + s.describe(),
    }
}

/// The response for a registered handler whose verification gave `verdict`
/// and whose parsing, where it ran, gave `parsed`.
pub open spec fn answers(
    r: WebhookResponse,
    verdict: Result<(), SmsError>,
    parsed: Result<InboundMessage, SmsError>,
) -> bool {
    match verdict {
        Err(e) => r.is_error(HttpStatus::Unauthorized, "verification failed: "@ + e.describe()),
        Ok(_) => match parsed {
            Err(e) => r.is_error(HttpStatus::BadRequest, "parse error: "@ + e.describe()),
            Ok(m) => r.is_success(m),
        },
    }
}

/// The response that stands for an outcome of the pipeline.
pub open spec fn outcome_response(
    r: WebhookResponse,
    outcome: Result<InboundMessage, WebhookError>,
) -> bool {
    match outcome {
        Ok(m) => r.is_success(m),
        Err(e) => r.is_error(error_status(e), error_message(e)),
    }
}

proof fn lemma_escape_plain(s: Seq<char>)
    requires
        forall|i: int| 0 <= i < s.len() ==> s[i] != '"',
    ensures
        escape_quotes(s) == s,
    decreases s.len(),
{
    if s.len() > 0 {
        lemma_escape_plain(s.drop_last());
        assert(s.drop_last() + seq![s.last()] =~= s);
    }
}

/// The answer that `process_webhook` gives for a provider key the registry
/// does not hold, whatever the headers and the body: status 404, and a body
/// that carries "unknown provider" as it is.
pub proof fn lemma_unknown_provider(r: WebhookResponse)
    requires
        r.is_error(HttpStatus::NotFound, "unknown provider"@),
    ensures
        r.status.code() == 404,
        r.body@ == "{\"error\": \""@ + "unknown provider"@ + "\"}"@,
        r.content_type@ == "application/json"@,
{
    reveal_strlit("unknown provider");
    lemma_escape_plain("unknown provider"@);
}

/// The answer for a registered provider whose handler verifies the request
/// and parses a message: status 200, and that message as JSON.
pub proof fn lemma_parsed_message_answered(m: InboundMessage, r: WebhookResponse)
    requires
        answers(r, Ok(()), Ok(m)),
        m.valid(),
    ensures
        r.status.code() == 200,
        r.body@ == message_json(m),
        r.content_type@ == "application/json"@,
{
}

/// Framework-agnostic webhook processor.
pub struct WebhookProcessor<H> {
    registry: InboundRegistry<H>,
}

impl<H> WebhookProcessor<H> {
    pub closed spec fn wf(&self) -> bool {
        self.registry.wf()
    }

    /// The registry snapshot that the processor dispatches against.
    pub closed spec fn view(&self) -> Map<Seq<char>, Arc<H>> {
        self.registry@
    }
}

impl<H> Clone for WebhookProcessor<H> {
    /// A processor over a snapshot copy of the same registry.
    fn clone(&self) -> (r: Self)
        ensures
            r@ == self@,
            self.wf() ==> r.wf(),
    {
        WebhookProcessor { registry: self.registry.clone() }
    }
}

impl<H: InboundWebhook> WebhookProcessor<H> {
    pub fn new(registry: InboundRegistry<H>) -> (r: Self)
        requires
            registry.wf(),
        ensures
            r.wf(),
            r@ == registry@,
    {
        WebhookProcessor { registry }
    }

    /// Process an incoming webhook request into a framework-agnostic response.
    pub fn process_webhook(&self, provider: &str, headers: Headers, body: &[u8]) -> (r:
        WebhookResponse)
        requires
            self.wf(),
        ensures
            !self@.contains_key(provider@) ==> r.is_error(
                HttpStatus::NotFound,
                "unknown provider"@,
            ),
            self@.contains_key(provider@) ==> exists|
                verdict: Result<(), SmsError>,
                parsed: Result<InboundMessage, SmsError>,
            |
                #![trigger answers(r, verdict, parsed)]
                answers(r, verdict, parsed),
    {
        let outcome = self.process_webhook_internal(provider, headers, body);
        let ghost o = outcome;
        let r = self.respond(outcome);
        proof {
            if self@.contains_key(provider@) {
                match o {
                    Ok(m) => {
                        assert(answers(r, Ok(()), Ok(m)));
                    },
                    Err(WebhookError::VerificationFailed(msg)) => {
                        let e = choose|e: SmsError| msg@ == e.describe();
                        assert(answers(r, Err(e), Err(e)));
                    },
                    Err(WebhookError::ParseError(msg)) => {
                        let e = choose|e: SmsError| msg@ == e.describe();
                        assert(answers(r, Ok(()), Err(e)));
                    },
                    _ => {},
                }
            }
        }
        r
    }

    /// The response for an outcome of the pipeline: the message as JSON, or
    /// the error response of its kind.
    pub fn respond(&self, outcome: Result<InboundMessage, WebhookError>) -> (r: WebhookResponse)
        ensures
            outcome_response(r, outcome),
    {
        match outcome {
            Ok(message) => WebhookResponse::success(message),
            Err(e) => self.error_to_response(e),
        }
    }

    fn process_webhook_internal(&self, provider: &str, headers: Headers, body: &[u8]) -> (r:
        Result<InboundMessage, WebhookError>)
        requires
            self.wf(),
        ensures
            !self@.contains_key(provider@) <==> r matches Err(WebhookError::ProviderNotFound(_)),
            match r {
                Err(WebhookError::VerificationFailed(m)) => exists|e: SmsError| m@ == e.describe(),
                Err(WebhookError::ParseError(m)) => exists|e: SmsError| m@ == e.describe(),
                Err(WebhookError::ProviderNotFound(p)) => p@ == provider@,
                Err(WebhookError::SmsError(_)) => false,
                _ => true,
            },
    {
        let hook = match self.registry.get(provider) {
            Some(h) => h,
            None => {
                return Err(WebhookError::ProviderNotFound(String::from_str(provider)));
            },
        };
        match hook.verify(&headers, body) {
            Ok(()) => {},
            Err(e) => {
                return Err(WebhookError::VerificationFailed(e.to_string()));
            },
        }
        match hook.parse_inbound(&headers, body) {
            Ok(m) => Ok(m),
            Err(e) => Err(WebhookError::ParseError(e.to_string())),
        }
    }

    /// The one response that stands for each error kind.
    pub fn error_to_response(&self, error: WebhookError) -> (r: WebhookResponse)
        ensures
            r.is_error(error_status(error), error_message(error)),
    {
        match error {
            WebhookError::ProviderNotFound(_) => WebhookResponse::error(
                HttpStatus::NotFound,
                "unknown provider",
            ),
            WebhookError::VerificationFailed(msg) => {
                let text = String::from_str("verification failed: ").concat(msg.as_str());
                WebhookResponse::error(HttpStatus::Unauthorized, text.as_str())
            },
            WebhookError::ParseError(msg) => {
                let text = String::from_str("parse error: ").concat(msg.as_str());
                WebhookResponse::error(HttpStatus::BadRequest, text.as_str())
            },
            WebhookError::SmsError(e) => {
                let d = e.to_string();
                let text = String::from_str("SMS error: ").concat(d.as_str());
                WebhookResponse::error(HttpStatus::InternalServerError, text.as_str())
            },
        }
    }
}

/// Helper trait for framework adapters to convert headers.
pub trait HeaderConverter {
    type HeaderType;

    fn to_generic_headers(headers: &Self::HeaderType) -> Headers;
}

/// Helper trait for framework adapters to convert responses.
pub trait ResponseConverter {
    type ResponseType;

    fn from_webhook_response(response: WebhookResponse) -> Self::ResponseType;
}

} // verus!
