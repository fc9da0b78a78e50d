//! The way of an incoming short message from the bus to the store and on to
//! whoever is notified.

use crate::clock::Timestamp;
use crate::text::option_string_view;
use vstd::prelude::*;

verus! {

/// Whether a message was received or sent.
#[derive(Debug, Clone, Copy, PartialEq, Eq, Structural)]
pub enum SmsDirection {
    Incoming,
    Outgoing,
}

impl SmsDirection {
    /// The word under which the store files the direction.
    pub open spec fn name(self) -> Seq<char> {
        match self {
            SmsDirection::Incoming => "incoming"@,
            SmsDirection::Outgoing => "outgoing"@,
        }
    }

    /// The word under which the store files the direction.
    pub fn as_str(&self) -> (word: &'static str)
        ensures
            word@ == self.name(),
    {
        match self {
            SmsDirection::Incoming => "incoming",
            SmsDirection::Outgoing => "outgoing",
        }
    }
}

/// A message on its way into the store.
#[derive(Debug, Clone, PartialEq, Eq)]
pub struct NewSms {
    pub direction: SmsDirection,
    pub phone_number: String,
    pub content: String,
    pub status: String,
    /// The PDU that the message came in, where it is known.
    pub pdu: Option<String>,
}

/// The mathematical content of a [`NewSms`].
pub struct NewSmsView {
    pub direction: SmsDirection,
    pub phone_number: Seq<char>,
    pub content: Seq<char>,
    pub status: Seq<char>,
    pub pdu: Option<Seq<char>>,
}

impl View for NewSms {
    type V = NewSmsView;

    open spec fn view(&self) -> NewSmsView {
        NewSmsView {
            direction: self.direction,
            phone_number: self.phone_number@,
            content: self.content@,
            status: self.status@,
            pdu: option_string_view(self.pdu),
        }
    }
}

/// A stored message.
#[derive(Debug, Clone, PartialEq, Eq)]
pub struct SmsMessage {
    /// The identifier that the store gave to the message.
    pub id: i64,
    pub direction: SmsDirection,
    pub phone_number: String,
    pub content: String,
    pub timestamp: Timestamp,
    pub status: String,
    pub pdu: Option<String>,
}

/// The mathematical content of an [`SmsMessage`].
pub struct SmsMessageView {
    pub id: i64,
    pub direction: SmsDirection,
    pub phone_number: Seq<char>,
    pub content: Seq<char>,
    pub timestamp: Timestamp,
    pub status: Seq<char>,
    pub pdu: Option<Seq<char>>,
}

impl View for SmsMessage {
    type V = SmsMessageView;

    open spec fn view(&self) -> SmsMessageView {
        SmsMessageView {
            id: self.id,
            direction: self.direction,
            phone_number: self.phone_number@,
            content: self.content@,
            timestamp: self.timestamp,
            status: self.status@,
            pdu: option_string_view(self.pdu),
        }
    }
}

/// What is stored of a message that the bus delivered: an incoming message with
/// the status `received` and without a PDU.
pub open spec fn incoming_sms(content: Seq<char>, sender: Seq<char>) -> NewSmsView {
    NewSmsView {
        direction: SmsDirection::Incoming,
        phone_number: sender,
        content,
        status: "received"@,
        pdu: None,
    }
}

/// What is stored of a message that was handed to the network: an outgoing
/// message with the status `sent` and without a PDU.
pub open spec fn outgoing_sms(content: Seq<char>, recipient: Seq<char>) -> NewSmsView {
    NewSmsView {
        direction: SmsDirection::Outgoing,
        phone_number: recipient,
        content,
        status: "sent"@,
        pdu: None,
    }
}

/// The message that was stored under `id` at the time `now`.
pub open spec fn stored_sms(sms: NewSmsView, id: i64, now: Timestamp) -> SmsMessageView {
    SmsMessageView {
        id,
        direction: sms.direction,
        phone_number: sms.phone_number,
        content: sms.content,
        timestamp: now,
        status: sms.status,
        pdu: sms.pdu,
    }
}

/// The message to pass on after the store was asked to take `sms`: the stored
/// message where the store gave an identifier, none where it refused.
pub open spec fn notification_spec(sms: NewSmsView, stored: Option<i64>, now: Timestamp) -> Option<
    SmsMessageView,
> {
    match stored {
        Some(id) => Some(stored_sms(sms, id, now)),
        None => None,
    }
}

/// The mathematical content of an optional message.
pub open spec fn option_sms_view(m: Option<SmsMessage>) -> Option<SmsMessageView> {
    match m {
        Some(m) => Some(m@),
        None => None,
    }
}

/// Decides what to store of a message that the bus delivered.
pub fn plan_incoming_sms(content: String, sender: String) -> (sms: NewSms)
    ensures
        sms@ == incoming_sms(content@, sender@),
{
    NewSms {
        direction: SmsDirection::Incoming,
        phone_number: sender,
        content,
        status: "received".to_string(),
        pdu: None,
    }
}

/// Decides what to store of a message that was handed to the network.
pub fn plan_outgoing_sms(content: String, recipient: String) -> (sms: NewSms)
    ensures
        sms@ == outgoing_sms(content@, recipient@),
{
    NewSms {
        direction: SmsDirection::Outgoing,
        phone_number: recipient,
        content,
        status: "sent".to_string(),
        pdu: None,
    }
}

/// Decides what to pass on once the store has answered. `stored` is the
/// identifier that the store gave, or `None` where it failed: the message is
/// then dropped, and nothing is tried again.
pub fn notification_for(sms: NewSms, stored: Option<i64>, now: Timestamp) -> (message: Option<
    SmsMessage,
>)
    ensures
        option_sms_view(message) == notification_spec(sms@, stored, now),
{
    match stored {
        Some(id) => Some(
            SmsMessage {
                id,
                direction: sms.direction,
                phone_number: sms.phone_number,
                content: sms.content,
                timestamp: now,
                status: sms.status,
                pdu: sms.pdu,
            },
        ),
        None => None,
    }
}

} // verus!
