//! How the payloads of two vendors become normalized messages, once their
//! wire format (form fields, JSON) has been decoded.
use vstd::prelude::*;

use crate::encode::{parse_rfc3339, rfc3339_parsed_of};
use crate::model::{InboundMessage, SmsError, Timestamp};

verus! {

/// The instant an optional RFC 3339 text denotes, where it denotes one.
pub open spec fn parsed_time(text: Option<String>) -> Option<Timestamp> {
    match text {
        Some(t) => match rfc3339_parsed_of(t@) {
            Some(p) => Some(Timestamp { unix_seconds: p.0, nanosecond: p.1, offset_seconds: p.2 }),
            None => None,
        },
        None => None,
    }
}

/// An inbound Plivo message, as its webhook form fields carry it.
#[derive(Debug, Clone)]
pub struct PlivoInbound {
    pub from: String,
    pub to: String,
    pub text: String,
    pub message_type: Option<String>,
    pub message_uuid: Option<String>,
    pub time: Option<String>,
}

impl PlivoInbound {
    /// The normalized message; `raw` is the whole payload as JSON text. The
    /// time is read as RFC 3339 where it can be.
    pub fn into_message(self, raw: String) -> (r: InboundMessage)
        ensures
            r.id == self.message_uuid,
            r.from == self.from,
            r.to == self.to,
            r.text == self.text,
            r.timestamp == parsed_time(self.time),
            r.provider@ == "plivo"@,
            r.raw == raw,
    {
        let timestamp = match &self.time {
            Some(t) => parse_rfc3339(t.as_str()),
            None => None,
        };
        InboundMessage {
            id: self.message_uuid,
            from: self.from,
            to: self.to,
            text: self.text,
            timestamp,
            provider: String::from_str("plivo"),
            raw,
        }
    }
}

/// The envelope of an AWS SNS notification.
#[derive(Debug, Clone)]
pub struct SnsDeliveryNotification {
    pub notification_type: String,
    pub message_id: String,
    pub topic_arn: String,
    pub message: String,
    pub timestamp: String,
    pub signature_version: String,
    pub signature: String,
    pub signing_cert_url: String,
}

/// Identification of the message an SMS delivery report is about.
#[derive(Debug, Clone)]
pub struct SmsNotificationData {
    pub message_id: String,
    pub timestamp: String,
}

/// The parts of an SMS delivery report that a message carries.
#[derive(Debug, Clone)]
pub struct SmsDeliveryReport {
    pub notification: SmsNotificationData,
    pub status: String,
    pub message_id: String,
    pub destination_phone_number: String,
}

/// What an SNS envelope stands for, given the delivery report that its
/// `Message` holds where it holds one.
pub open spec fn sns_outcome(
    n: SnsDeliveryNotification,
    report: Option<SmsDeliveryReport>,
    raw: String,
    r: Result<InboundMessage, SmsError>,
) -> bool {
    if n.notification_type@ == "Notification"@ && report is Some {
        let d = report.unwrap();
        &&& r is Ok
        &&& r.unwrap().id == Some(d.message_id)
        &&& r.unwrap().from@ == "AWS-SNS"@
        &&& r.unwrap().to == d.destination_phone_number
        &&& r.unwrap().text@ == "Delivery Status: "@ + d.status@
        &&& r.unwrap().timestamp == parsed_time(Some(n.timestamp))
        &&& r.unwrap().provider@ == "aws-sns"@
        &&& r.unwrap().raw == raw
    } else if n.notification_type@ == "SubscriptionConfirmation"@ {
        &&& r is Ok
        &&& r.unwrap().id == Some(n.message_id)
        &&& r.unwrap().from@ == "AWS-SNS"@
        &&& r.unwrap().to@ == "SYSTEM"@
        &&& r.unwrap().text@ == "Subscription confirmation required"@
        &&& r.unwrap().timestamp == parsed_time(Some(n.timestamp))
        &&& r.unwrap().provider@ == "aws-sns"@
        &&& r.unwrap().raw == raw
    } else {
        r matches Err(SmsError::Provider(m)) && m@ == "Unsupported notification type: "@
            + n.notification_type@
    }
}

/// The normalized message for an SNS notification: a delivery report, or a
/// subscription confirmation; any other kind is refused.
pub fn sns_inbound_message(
    notification: SnsDeliveryNotification,
    report: Option<SmsDeliveryReport>,
    raw: String,
) -> (r: Result<InboundMessage, SmsError>)
    ensures
        sns_outcome(notification, report, raw, r),
{
    let timestamp = parse_rfc3339(notification.timestamp.as_str());
    if notification.notification_type == String::from_str("Notification") {
        match report {
            Some(d) => {
                return Ok(
                    InboundMessage {
                        id: Some(d.message_id),
                        from: String::from_str("AWS-SNS"),
                        to: d.destination_phone_number,
                        text: String::from_str("Delivery Status: ").concat(d.status.as_str()),
                        timestamp,
                        provider: String::from_str("aws-sns"),
                        raw,
                    },
                );
            },
            None => {},
        }
    }
    if notification.notification_type == String::from_str("SubscriptionConfirmation") {
        return Ok(
            InboundMessage {
                id: Some(notification.message_id),
                from: String::from_str("AWS-SNS"),
                to: String::from_str("SYSTEM"),
                text: String::from_str("Subscription confirmation required"),
                timestamp,
                provider: String::from_str("aws-sns"),
                raw,
            },
        );
    }
    Err(
        SmsError::Provider(
            String::from_str("Unsupported notification type: ").concat(
                notification.notification_type.as_str(),
            ),
        ),
    )
}

} // verus!
