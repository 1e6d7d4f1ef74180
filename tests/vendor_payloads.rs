use smskit::model::Timestamp;
use smskit::vendors::{
    sns_inbound_message, PlivoInbound, SmsDeliveryReport, SmsNotificationData,
    SnsDeliveryNotification,
};
use smskit::SmsError;

fn envelope(json: &str) -> (SnsDeliveryNotification, Option<SmsDeliveryReport>, String) {
    let v: serde_json::Value = serde_json::from_str(json).unwrap();
    let field = |name: &str| v[name].as_str().unwrap().to_string();
    let notification = SnsDeliveryNotification {
        notification_type: field("Type"),
        message_id: field("MessageId"),
        topic_arn: field("TopicArn"),
        message: field("Message"),
        timestamp: field("Timestamp"),
        signature_version: field("SignatureVersion"),
        signature: field("Signature"),
        signing_cert_url: field("SigningCertURL"),
    };
    let report = serde_json::from_str::<serde_json::Value>(&notification.message)
        .ok()
        .and_then(|r| {
            Some(SmsDeliveryReport {
                notification: SmsNotificationData {
                    message_id: r["notification"]["messageId"].as_str()?.to_string(),
                    timestamp: r["notification"]["timestamp"].as_str()?.to_string(),
                },
                status: r["status"].as_str()?.to_string(),
                message_id: r["messageId"].as_str()?.to_string(),
                destination_phone_number: r["destinationPhoneNumber"].as_str()?.to_string(),
            })
        });
    (notification, report, v.to_string())
}

#[test]
fn webhook_parsing_delivery_report() {
    let notification_json = r#"{
        "Type": "Notification",
        "MessageId": "test-message-id",
        "TopicArn": "arn:aws:sns:us-east-1:123456789012:test-topic",
        "Message": "{\"notification\":{\"messageId\":\"msg-123\",\"timestamp\":\"2023-01-01T00:00:00.000Z\"},\"delivery\":{\"destination\":\"+1234567890\",\"priceInUSD\":0.00645,\"smsType\":\"Transactional\"},\"status\":\"SUCCESS\",\"messageId\":\"msg-123\",\"destinationPhoneNumber\":\"+1234567890\"}",
        "Timestamp": "2023-01-01T00:00:00.000Z",
        "SignatureVersion": "1",
        "Signature": "test-signature",
        "SigningCertURL": "https://sns.us-east-1.amazonaws.com/test.pem"
    }"#;
    let (notification, report, raw) = envelope(notification_json);
    let result = sns_inbound_message(notification, report, raw);

    assert!(result.is_ok());
    let message = result.unwrap();
    assert_eq!(message.id, Some("msg-123".to_string()));
    assert_eq!(message.to, "+1234567890");
    assert_eq!(message.provider, "aws-sns");
    assert_eq!(message.from, "AWS-SNS");
    assert_eq!(message.text, "Delivery Status: SUCCESS");
    assert_eq!(
        message.timestamp,
        Some(Timestamp { unix_seconds: 1672531200, nanosecond: 0, offset_seconds: 0 })
    );
}

#[test]
fn webhook_parsing_subscription_confirmation() {
    let confirmation_json = r#"{
        "Type": "SubscriptionConfirmation",
        "MessageId": "subscription-message-id",
        "TopicArn": "arn:aws:sns:us-east-1:123456789012:test-topic",
        "Message": "You have chosen to subscribe to the topic...",
        "Timestamp": "2023-01-01T00:00:00.000Z",
        "SignatureVersion": "1",
        "Signature": "test-signature",
        "SigningCertURL": "https://sns.us-east-1.amazonaws.com/test.pem"
    }"#;
    let (notification, report, raw) = envelope(confirmation_json);
    assert!(report.is_none());
    let result = sns_inbound_message(notification, report, raw);

    assert!(result.is_ok());
    let message = result.unwrap();
    assert_eq!(message.id, Some("subscription-message-id".to_string()));
    assert_eq!(message.text, "Subscription confirmation required");
    assert_eq!(message.provider, "aws-sns");
    assert_eq!(message.to, "SYSTEM");
}

#[test]
fn unsupported_sns_kind_is_refused() {
    let (mut notification, _, raw) = envelope(
        r#"{"Type": "UnsubscribeConfirmation", "MessageId": "m", "TopicArn": "t", "Message": "x",
            "Timestamp": "not a time", "SignatureVersion": "1", "Signature": "s",
            "SigningCertURL": "u"}"#,
    );
    let result = sns_inbound_message(notification.clone(), None, raw.clone());
    match result {
        Err(SmsError::Provider(m)) => {
            assert_eq!(m, "Unsupported notification type: UnsubscribeConfirmation")
        }
        _ => panic!("expected a provider error"),
    }
    // A notification whose message is no delivery report is refused too.
    notification.notification_type = "Notification".to_string();
    assert!(matches!(sns_inbound_message(notification, None, raw), Err(SmsError::Provider(_))));
}

#[test]
fn inbound_conversion() {
    let inbound = PlivoInbound {
        from: "+15550001111".into(),
        to: "+15550002222".into(),
        text: "Hello".into(),
        message_type: Some("sms".into()),
        message_uuid: Some("uuid-1".into()),
        time: Some("2024-12-30T12:34:56Z".into()),
    };
    let mut extra = serde_json::Map::new();
    extra.insert("foo".to_string(), serde_json::Value::String("bar".to_string()));
    let raw = serde_json::Value::Object(extra).to_string();
    let msg = inbound.into_message(raw);
    assert_eq!(msg.from, "+15550001111");
    assert_eq!(msg.provider, "plivo");
    assert!(msg.timestamp.is_some());
    assert_eq!(
        msg.timestamp,
        Some(Timestamp { unix_seconds: 1735562096, nanosecond: 0, offset_seconds: 0 })
    );
    assert_eq!(msg.id, Some("uuid-1".to_string()));
}

#[test]
fn plivo_time_that_is_not_rfc3339_gives_no_timestamp() {
    let inbound = PlivoInbound {
        from: "a".into(),
        to: "b".into(),
        text: "c".into(),
        message_type: None,
        message_uuid: None,
        time: Some("2024-12-30 12:34:56".into()),
    };
    let msg = inbound.into_message("{}".to_string());
    assert!(msg.timestamp.is_none());
    assert!(msg.id.is_none());
    assert_eq!(msg.raw, "{}");
}

#[test]
fn parsed_time_beyond_the_utc_range_is_still_written() {
    // Local 9999-12-31T23:59:59 at -23:59 lies past year 9999 in UTC.
    let inbound = PlivoInbound {
        from: "a".into(),
        to: "b".into(),
        text: "c".into(),
        message_type: None,
        message_uuid: None,
        time: Some("9999-12-31T23:59:59-23:59".into()),
    };
    let msg = inbound.into_message("{}".to_string());
    let ts = msg.timestamp.unwrap();
    assert_eq!(ts.unix_seconds, 253_402_387_139);
    assert!(ts.is_valid());
    let response = smskit::WebhookResponse::success(msg);
    let value: serde_json::Value = serde_json::from_str(&response.body).unwrap();
    assert_eq!(value["timestamp"].to_string(), "[9999,365,23,59,59,0,-23,-59,0]");
}
