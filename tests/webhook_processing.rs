use smskit::model::Timestamp;
use smskit::{
    Headers, HttpStatus, InboundMessage, InboundRegistry, InboundWebhook, SmsError, WebhookError,
    WebhookProcessor,
};
use std::sync::Arc;

/// A handler whose verification and parsing are fixed in advance.
struct FixedHook {
    key: &'static str,
    verdict: Result<(), SmsError>,
    parsed: Result<InboundMessage, SmsError>,
}

impl InboundWebhook for FixedHook {
    fn provider(&self) -> &'static str {
        self.key
    }

    fn parse_inbound(&self, _headers: &Headers, _body: &[u8]) -> Result<InboundMessage, SmsError> {
        self.parsed.clone()
    }

    fn verify(&self, _headers: &Headers, _body: &[u8]) -> Result<(), SmsError> {
        self.verdict.clone()
    }
}

fn sample_message() -> InboundMessage {
    InboundMessage {
        id: Some("uuid-1".to_string()),
        from: "+15550001111".to_string(),
        to: "+15550002222".to_string(),
        text: "Hello \"there\"\n".to_string(),
        timestamp: Some(Timestamp { unix_seconds: 1735562096, nanosecond: 0, offset_seconds: 0 }),
        provider: "fixed".to_string(),
        raw: "{\"foo\":\"bar\"}".to_string(),
    }
}

fn empty_processor() -> WebhookProcessor<FixedHook> {
    WebhookProcessor::new(InboundRegistry::new())
}

fn processor_with(hook: FixedHook) -> WebhookProcessor<FixedHook> {
    WebhookProcessor::new(InboundRegistry::new().with(Arc::new(hook)))
}

#[test]
fn processor_handles_unknown_provider() {
    let processor = empty_processor();
    let response = processor.process_webhook("unknown", vec![], b"test");
    assert_eq!(response.status.as_u16(), 404);
    assert!(response.body.contains("unknown provider"));
}

#[test]
fn test_webhook_processor_unknown_provider() {
    let processor = empty_processor();
    let headers: Headers = vec![];
    let response = processor.process_webhook("unknown-provider", headers, b"test payload");
    assert_eq!(response.status.as_u16(), 404);
    assert_eq!(response.content_type, "application/json");
    assert!(response.body.contains("unknown provider"));
}

#[test]
fn test_webhook_processor_empty_payload() {
    let processor = empty_processor();
    let headers: Headers = vec![("content-type".to_string(), "application/json".to_string())];
    let response = processor.process_webhook("test-provider", headers, b"");
    assert_eq!(response.status.as_u16(), 404);
    assert!(response.body.contains("unknown provider"));
}

#[test]
fn test_webhook_processor_large_payload() {
    let processor = empty_processor();
    let large_payload = "x".repeat(10000);
    let headers: Headers = vec![("content-type".to_string(), "application/json".to_string())];
    let response = processor.process_webhook("test-provider", headers, large_payload.as_bytes());
    assert_eq!(response.status.as_u16(), 404);
    assert!(response.body.contains("unknown provider"));
}

#[test]
fn test_webhook_processor_concurrent_requests() {
    let processor = empty_processor();
    let responses: Vec<_> = (0..10)
        .map(|i| {
            let payload = format!("test payload {}", i);
            let headers: Headers =
                vec![("content-type".to_string(), "application/json".to_string())];
            processor.process_webhook("test-provider", headers, payload.as_bytes())
        })
        .collect();
    assert_eq!(responses.len(), 10);
    for response in responses {
        assert_eq!(response.status.as_u16(), 404);
        assert!(response.body.contains("unknown provider"));
    }
}

#[test]
fn test_webhook_processor_with_headers() {
    let processor = empty_processor();
    let headers_with_auth: Headers = vec![
        ("content-type".to_string(), "application/json".to_string()),
        ("authorization".to_string(), "Bearer test-token".to_string()),
        ("x-custom-header".to_string(), "custom-value".to_string()),
    ];
    let response = processor.process_webhook("test", headers_with_auth, b"{}");
    assert_eq!(response.status.as_u16(), 404);
}

#[test]
fn test_webhook_processor_edge_cases() {
    let processor = empty_processor();

    let response1 = processor.process_webhook("", vec![], b"test");
    assert_eq!(response1.status.as_u16(), 404);

    let long_provider = "a".repeat(1000);
    let response2 = processor.process_webhook(&long_provider, vec![], b"test");
    assert_eq!(response2.status.as_u16(), 404);

    let null_payload = b"test\x00payload\x00with\x00nulls";
    let response3 = processor.process_webhook("test", vec![], null_payload);
    assert_eq!(response3.status.as_u16(), 404);

    let unicode_headers: Headers = vec![
        ("x-unicode-header".to_string(), "测试数据".to_string()),
        ("content-type".to_string(), "application/json; charset=utf-8".to_string()),
    ];
    let response4 = processor.process_webhook("test", unicode_headers, "测试".as_bytes());
    assert_eq!(response4.status.as_u16(), 404);
}

#[test]
fn test_high_throughput_webhook_processing() {
    let processor = empty_processor();
    let results: Vec<_> = (0..50)
        .map(|i| {
            let provider = if i % 3 == 0 {
                "plivo"
            } else if i % 3 == 1 {
                "twilio"
            } else {
                "test"
            };
            let payload = format!(r#"{{ "test": "payload", "index": {} }}"#, i);
            let headers: Headers = vec![
                ("content-type".to_string(), "application/json".to_string()),
                ("x-request-id".to_string(), format!("req-{}", i)),
            ];
            let start = std::time::Instant::now();
            let response = processor.process_webhook(provider, headers, payload.as_bytes());
            (response, start.elapsed())
        })
        .collect();
    assert_eq!(results.len(), 50);
    for (response, duration) in results {
        assert_eq!(response.status.as_u16(), 404);
        assert!(duration.as_millis() < 500, "Request took too long: {:?}", duration);
    }
}

#[test]
fn unknown_provider_body_is_exact() {
    let processor = empty_processor();
    let response = processor.process_webhook("nobody", vec![], b"\xff\xfe");
    assert_eq!(response.status, HttpStatus::NotFound);
    assert_eq!(response.body, r#"{"error": "unknown provider"}"#);
}

#[test]
fn registered_provider_round_trips_message() {
    let message = sample_message();
    let processor = processor_with(FixedHook {
        key: "fixed",
        verdict: Ok(()),
        parsed: Ok(message.clone()),
    });
    let response = processor.process_webhook("fixed", vec![], b"payload");
    assert_eq!(response.status.as_u16(), 200);
    assert_eq!(response.content_type, "application/json");
    let value: serde_json::Value = serde_json::from_str(&response.body).unwrap();
    assert_eq!(value["id"], "uuid-1");
    assert_eq!(value["from"], "+15550001111");
    assert_eq!(value["to"], "+15550002222");
    assert_eq!(value["text"], "Hello \"there\"\n");
    assert_eq!(value["timestamp"].to_string(), "[2024,365,12,34,56,0,0,0,0]");
    assert_eq!(value["provider"], "fixed");
    assert_eq!(value["raw"]["foo"], "bar");
    let back = InboundMessage {
        id: value["id"].as_str().map(|s| s.to_string()),
        from: value["from"].as_str().unwrap().to_string(),
        to: value["to"].as_str().unwrap().to_string(),
        text: value["text"].as_str().unwrap().to_string(),
        timestamp: serde_json::from_value::<time::OffsetDateTime>(value["timestamp"].clone())
            .ok()
            .map(|t| Timestamp {
                unix_seconds: t.unix_timestamp(),
                nanosecond: t.nanosecond(),
                offset_seconds: t.offset().whole_seconds(),
            }),
        provider: value["provider"].as_str().unwrap().to_string(),
        raw: value["raw"].to_string(),
    };
    assert!(back == message);
}

#[test]
fn message_without_id_or_timestamp_writes_nulls() {
    let mut message = sample_message();
    message.id = None;
    message.timestamp = None;
    let processor = processor_with(FixedHook {
        key: "fixed",
        verdict: Ok(()),
        parsed: Ok(message),
    });
    let response = processor.process_webhook("fixed", vec![], b"");
    assert_eq!(response.status.as_u16(), 200);
    let value: serde_json::Value = serde_json::from_str(&response.body).unwrap();
    assert!(value["id"].is_null());
    assert!(value["timestamp"].is_null());
}

#[test]
fn timestamp_with_offset_is_written_in_local_time() {
    let mut message = sample_message();
    message.timestamp =
        Some(Timestamp { unix_seconds: 1735562096, nanosecond: 500_000_000, offset_seconds: 3600 });
    let processor = processor_with(FixedHook {
        key: "fixed",
        verdict: Ok(()),
        parsed: Ok(message),
    });
    let response = processor.process_webhook("fixed", vec![], b"");
    let value: serde_json::Value = serde_json::from_str(&response.body).unwrap();
    assert_eq!(value["timestamp"].to_string(), "[2024,365,13,34,56,500000000,1,0,0]");
}

#[test]
fn any_instant_is_written_and_read_back() {
    // Year -400 at an offset with seconds: an instant RFC 3339 has no text for.
    let ts = Timestamp { unix_seconds: -74_790_086_400, nanosecond: 7, offset_seconds: 3661 };
    let mut message = sample_message();
    message.timestamp = Some(ts);
    let processor = processor_with(FixedHook {
        key: "fixed",
        verdict: Ok(()),
        parsed: Ok(message),
    });
    let response = processor.process_webhook("fixed", vec![], b"");
    assert_eq!(response.status.as_u16(), 200);
    let value: serde_json::Value = serde_json::from_str(&response.body).unwrap();
    let back: time::OffsetDateTime = serde_json::from_value(value["timestamp"].clone()).unwrap();
    assert_eq!(back.unix_timestamp(), ts.unix_seconds);
    assert_eq!(back.nanosecond(), ts.nanosecond);
    assert_eq!(back.offset().whole_seconds(), ts.offset_seconds);
}

#[test]
fn unwritable_timestamp_gives_empty_object() {
    let mut message = sample_message();
    message.timestamp =
        Some(Timestamp { unix_seconds: 0, nanosecond: 2_000_000_000, offset_seconds: 0 });
    let processor = processor_with(FixedHook {
        key: "fixed",
        verdict: Ok(()),
        parsed: Ok(message),
    });
    let response = processor.process_webhook("fixed", vec![], b"");
    assert_eq!(response.status.as_u16(), 200);
    assert_eq!(response.body, "{}");
}

#[test]
fn verification_failure_gives_401() {
    let processor = processor_with(FixedHook {
        key: "fixed",
        verdict: Err(SmsError::Auth("bad \"sig\"".to_string())),
        parsed: Ok(sample_message()),
    });
    let response = processor.process_webhook("fixed", vec![], b"");
    assert_eq!(response.status.as_u16(), 401);
    assert_eq!(
        response.body,
        r#"{"error": "verification failed: authentication error: bad \"sig\""}"#
    );
}

#[test]
fn parse_failure_gives_400() {
    let processor = processor_with(FixedHook {
        key: "fixed",
        verdict: Ok(()),
        parsed: Err(SmsError::Invalid("form decode: missing field".to_string())),
    });
    let response = processor.process_webhook("fixed", vec![], b"x=1");
    assert_eq!(response.status, HttpStatus::BadRequest);
    assert_eq!(
        response.body,
        r#"{"error": "parse error: invalid request: form decode: missing field"}"#
    );
}

#[test]
fn sms_error_gives_500() {
    let processor = empty_processor();
    let response =
        processor.error_to_response(WebhookError::SmsError(SmsError::Provider("down".to_string())));
    assert_eq!(response.status.as_u16(), 500);
    assert_eq!(response.body, r#"{"error": "SMS error: provider error: down"}"#);
    assert_eq!(response.content_type, "application/json");
}

#[test]
fn error_kinds_map_to_statuses() {
    let processor = empty_processor();
    let r = processor.error_to_response(WebhookError::ProviderNotFound("x".to_string()));
    assert_eq!(r.status.as_u16(), 404);
    assert_eq!(r.body, r#"{"error": "unknown provider"}"#);
    let r = processor.error_to_response(WebhookError::VerificationFailed("m".to_string()));
    assert_eq!(r.status.as_u16(), 401);
    assert_eq!(r.body, r#"{"error": "verification failed: m"}"#);
    let r = processor.error_to_response(WebhookError::ParseError("p".to_string()));
    assert_eq!(r.status.as_u16(), 400);
    assert_eq!(r.body, r#"{"error": "parse error: p"}"#);
}

#[test]
fn replacing_a_handler_resolves_to_the_latest() {
    let first = FixedHook { key: "plivo", verdict: Ok(()), parsed: Err(SmsError::Http("first".to_string())) };
    let second = FixedHook { key: "plivo", verdict: Ok(()), parsed: Err(SmsError::Http("second".to_string())) };
    let other = FixedHook { key: "twilio", verdict: Ok(()), parsed: Err(SmsError::Http("other".to_string())) };
    let registry = InboundRegistry::new().with(Arc::new(first)).with(Arc::new(other));
    let old_hook = registry.get("plivo").unwrap();
    let registry = registry.with(Arc::new(second));
    let latest = registry.get("plivo").unwrap();
    assert!(matches!(latest.parse_inbound(&vec![], b""), Err(SmsError::Http(m)) if m == "second"));
    assert!(matches!(old_hook.parse_inbound(&vec![], b""), Err(SmsError::Http(m)) if m == "first"));
    let untouched = registry.get("twilio").unwrap();
    assert!(matches!(untouched.parse_inbound(&vec![], b""), Err(SmsError::Http(m)) if m == "other"));
    assert!(registry.get("aws-sns").is_none());
}

#[test]
fn error_descriptions() {
    assert_eq!(SmsError::Http("a".to_string()).to_string(), "http error: a");
    assert_eq!(SmsError::Auth("b".to_string()).to_string(), "authentication error: b");
    assert_eq!(SmsError::Invalid("c".to_string()).to_string(), "invalid request: c");
    assert_eq!(SmsError::Provider("d".to_string()).to_string(), "provider error: d");
    assert_eq!(SmsError::Unexpected("e".to_string()).to_string(), "unexpected: e");
    assert_eq!(
        WebhookError::ProviderNotFound("x".to_string()).to_string(),
        "provider not found: x"
    );
    assert_eq!(
        WebhookError::VerificationFailed("y".to_string()).to_string(),
        "signature verification failed: y"
    );
    assert_eq!(WebhookError::ParseError("z".to_string()).to_string(), "parsing failed: z");
    let wrapped: WebhookError = SmsError::Unexpected("boom".to_string()).into();
    assert_eq!(wrapped.to_string(), "SMS processing error: unexpected: boom");
}

#[test]
fn status_codes() {
    assert_eq!(HttpStatus::Success.as_u16(), 200);
    assert_eq!(HttpStatus::BadRequest.as_u16(), 400);
    assert_eq!(HttpStatus::Unauthorized.as_u16(), 401);
    assert_eq!(HttpStatus::NotFound.as_u16(), 404);
    assert_eq!(HttpStatus::InternalServerError.as_u16(), 500);
}

#[test]
fn error_response_escapes_quotes_only() {
    let r = smskit::WebhookResponse::error(HttpStatus::BadRequest, "say \"hi\" \\ ok");
    assert_eq!(r.body, "{\"error\": \"say \\\"hi\\\" \\ ok\"}");
    assert_eq!(r.content_type, "application/json");
}

#[test]
fn with_key_registers_under_the_given_key() {
    let hook = FixedHook { key: "plivo", verdict: Ok(()), parsed: Err(SmsError::Http("x".to_string())) };
    let registry = InboundRegistry::new().with_key("alias", Arc::new(hook));
    assert!(registry.get("alias").is_some());
    assert!(registry.get("plivo").is_none());
    let processor = WebhookProcessor::new(registry);
    let response = processor.process_webhook("alias", vec![], b"");
    assert_eq!(response.status.as_u16(), 400);
    assert_eq!(response.body, r#"{"error": "parse error: http error: x"}"#);
}

#[test]
fn respond_maps_outcomes() {
    let processor = empty_processor();
    let ok = processor.respond(Ok(sample_message()));
    assert_eq!(ok.status.as_u16(), 200);
    let err = processor.respond(Err(WebhookError::ParseError("bad".to_string())));
    assert_eq!(err.status.as_u16(), 400);
    assert_eq!(err.body, r#"{"error": "parse error: bad"}"#);
}

#[test]
fn cloned_snapshot_keeps_the_old_handler() {
    let first = FixedHook { key: "plivo", verdict: Ok(()), parsed: Err(SmsError::Http("first".to_string())) };
    let second = FixedHook { key: "plivo", verdict: Ok(()), parsed: Err(SmsError::Http("second".to_string())) };
    let old = InboundRegistry::new().with(Arc::new(first));
    let new = old.clone().with(Arc::new(second));
    assert!(matches!(old.get("plivo").unwrap().parse_inbound(&vec![], b""), Err(SmsError::Http(m)) if m == "first"));
    assert!(matches!(new.get("plivo").unwrap().parse_inbound(&vec![], b""), Err(SmsError::Http(m)) if m == "second"));
    let processor = WebhookProcessor::new(new);
    let copy = processor.clone();
    assert_eq!(copy.process_webhook("plivo", vec![], b"").body, r#"{"error": "parse error: http error: second"}"#);
}

#[test]
fn control_characters_are_escaped_in_the_body() {
    let mut message = sample_message();
    message.text = "a\u{1}b\\c\td\u{8}".to_string();
    let processor = processor_with(FixedHook { key: "fixed", verdict: Ok(()), parsed: Ok(message) });
    let response = processor.process_webhook("fixed", vec![], b"");
    assert!(response.body.contains(r#""text":"a\u0001b\\c\td\b""#));
    let value: serde_json::Value = serde_json::from_str(&response.body).unwrap();
    assert_eq!(value["text"], "a\u{1}b\\c\td\u{8}");
}

#[test]
fn raw_text_that_is_no_json_is_carried_as_a_string() {
    let mut message = sample_message();
    message.raw = "From=%2B1&Text=hi".to_string();
    let processor = processor_with(FixedHook { key: "fixed", verdict: Ok(()), parsed: Ok(message) });
    let response = processor.process_webhook("fixed", vec![], b"");
    let value: serde_json::Value = serde_json::from_str(&response.body).unwrap();
    assert_eq!(value["raw"], "From=%2B1&Text=hi");
}
