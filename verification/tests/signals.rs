use udx710_backend::calls::CallEvent;
use udx710_backend::signals::{
    after_read, classify, text_property, BusRead, BusSignal, NextStep, Property, PropertyValue,
    SignalBody, TelephonyEvent,
};
use udx710_backend::sms::{
    notification_for, plan_incoming_sms, plan_outgoing_sms, NewSms, SmsDirection, SmsMessage,
};
use udx710_backend::clock::Timestamp;

fn text(name: &str, value: &str) -> Property {
    Property { name: name.to_string(), value: PropertyValue::Text(value.to_string()) }
}

fn other(name: &str) -> Property {
    Property { name: name.to_string(), value: PropertyValue::Other }
}

fn signal(member: &str, path: Option<&str>, body: SignalBody) -> BusSignal {
    BusSignal { member: Some(member.to_string()), path: path.map(|p| p.to_string()), body }
}

#[test]
fn text_property_finds_texts_only() {
    let props = vec![other("Local"), text("Sender", "+4912345"), text("State", "incoming")];
    assert_eq!(text_property(&props, "Sender"), Some("+4912345".to_string()));
    assert_eq!(text_property(&props, "State"), Some("incoming".to_string()));
    assert_eq!(text_property(&props, "Local"), None);
    assert_eq!(text_property(&props, "sender"), None);
    assert_eq!(text_property(&Vec::new(), "Sender"), None);
}

#[test]
fn incoming_message_with_sender() {
    let body = SignalBody::TextAndProperties {
        text: "hello".to_string(),
        properties: vec![text("SentTime", "2025"), text("Sender", "+4912345")],
    };
    assert_eq!(
        classify(signal("IncomingMessage", Some("/ril_0"), body)),
        TelephonyEvent::IncomingMessage {
            content: "hello".to_string(),
            sender: "+4912345".to_string()
        }
    );
}

#[test]
fn incoming_message_without_sender_is_unknown() {
    for properties in [vec![], vec![other("Sender")], vec![text("From", "1")]] {
        let body = SignalBody::TextAndProperties { text: "hello".to_string(), properties };
        assert_eq!(
            classify(signal("IncomingMessage", None, body)),
            TelephonyEvent::IncomingMessage {
                content: "hello".to_string(),
                sender: "Unknown".to_string()
            }
        );
    }
}

#[test]
fn call_added_reads_line_identification_and_state() {
    let body = SignalBody::PathAndProperties {
        path: "/ril_0/voicecall01".to_string(),
        properties: vec![text("State", "incoming"), text("LineIdentification", "123")],
    };
    assert_eq!(
        classify(signal("CallAdded", Some("/ril_0"), body)),
        TelephonyEvent::Call(CallEvent::Added {
            handle: "/ril_0/voicecall01".to_string(),
            line_identification: Some("123".to_string()),
            state: Some("incoming".to_string()),
        })
    );
    let bare = SignalBody::PathAndProperties {
        path: "/ril_0/voicecall01".to_string(),
        properties: vec![other("State")],
    };
    assert_eq!(
        classify(signal("CallAdded", None, bare)),
        TelephonyEvent::Call(CallEvent::Added {
            handle: "/ril_0/voicecall01".to_string(),
            line_identification: None,
            state: None,
        })
    );
}

#[test]
fn call_removed_takes_the_path_of_the_body() {
    let body = SignalBody::Path { path: "/ril_0/voicecall01".to_string() };
    assert_eq!(
        classify(signal("CallRemoved", Some("/ril_0"), body)),
        TelephonyEvent::Call(CallEvent::Removed { handle: "/ril_0/voicecall01".to_string() })
    );
}

#[test]
fn state_change_takes_the_path_of_the_sender() {
    let body = SignalBody::NameAndValue {
        name: "State".to_string(),
        value: PropertyValue::Text("active".to_string()),
    };
    assert_eq!(
        classify(signal("PropertyChanged", Some("/ril_0/voicecall01"), body.clone())),
        TelephonyEvent::Call(CallEvent::StateChanged {
            handle: "/ril_0/voicecall01".to_string(),
            new_state: "active".to_string()
        })
    );
    assert_eq!(classify(signal("PropertyChanged", None, body)), TelephonyEvent::Ignored);
}

#[test]
fn other_property_changes_are_ignored() {
    let name = SignalBody::NameAndValue {
        name: "Multiparty".to_string(),
        value: PropertyValue::Text("active".to_string()),
    };
    assert_eq!(classify(signal("PropertyChanged", Some("/c"), name)), TelephonyEvent::Ignored);
    let value =
        SignalBody::NameAndValue { name: "State".to_string(), value: PropertyValue::Other };
    assert_eq!(classify(signal("PropertyChanged", Some("/c"), value)), TelephonyEvent::Ignored);
}

#[test]
fn wrong_body_or_name_is_ignored() {
    let path = SignalBody::Path { path: "/c".to_string() };
    assert_eq!(classify(signal("IncomingMessage", None, path.clone())), TelephonyEvent::Ignored);
    assert_eq!(classify(signal("CallAdded", None, path.clone())), TelephonyEvent::Ignored);
    assert_eq!(classify(signal("PropertyChanged", Some("/c"), path.clone())), TelephonyEvent::Ignored);
    assert_eq!(classify(signal("callremoved", None, path.clone())), TelephonyEvent::Ignored);
    assert_eq!(classify(signal("NameOwnerChanged", None, SignalBody::Other)), TelephonyEvent::Ignored);
    assert_eq!(classify(signal("CallRemoved", None, SignalBody::Other)), TelephonyEvent::Ignored);
    let text_body = SignalBody::TextAndProperties { text: "/c".to_string(), properties: vec![] };
    assert_eq!(classify(signal("CallAdded", None, text_body)), TelephonyEvent::Ignored);
    let no_member = BusSignal { member: None, path: None, body: path };
    assert_eq!(classify(no_member), TelephonyEvent::Ignored);
}

#[test]
fn incoming_sms_is_stored_as_received() {
    let sms = plan_incoming_sms("hello".to_string(), "+4912345".to_string());
    assert_eq!(
        sms,
        NewSms {
            direction: SmsDirection::Incoming,
            phone_number: "+4912345".to_string(),
            content: "hello".to_string(),
            status: "received".to_string(),
            pdu: None,
        }
    );
}

#[test]
fn stored_sms_is_passed_on_with_its_identifier() {
    let sms = plan_incoming_sms("hello".to_string(), "Unknown".to_string());
    let now = Timestamp { secs: 1_700_000_000, nanos: 42 };
    assert_eq!(
        notification_for(sms, Some(17), now),
        Some(SmsMessage {
            id: 17,
            direction: SmsDirection::Incoming,
            phone_number: "Unknown".to_string(),
            content: "hello".to_string(),
            timestamp: now,
            status: "received".to_string(),
            pdu: None,
        })
    );
}

#[test]
fn refused_sms_is_dropped() {
    let sms = plan_incoming_sms("hello".to_string(), "1".to_string());
    assert_eq!(notification_for(sms, None, Timestamp { secs: 0, nanos: 0 }), None);
}

#[test]
fn direction_words() {
    assert_eq!(SmsDirection::Incoming.as_str(), "incoming");
    assert_eq!(SmsDirection::Outgoing.as_str(), "outgoing");
}

#[test]
fn outgoing_sms_is_stored_as_sent() {
    let sms = plan_outgoing_sms("hello".to_string(), "+4912345".to_string());
    assert_eq!(
        sms,
        NewSms {
            direction: SmsDirection::Outgoing,
            phone_number: "+4912345".to_string(),
            content: "hello".to_string(),
            status: "sent".to_string(),
            pdu: None,
        }
    );
}

#[test]
fn a_signal_is_handled() {
    let body = SignalBody::Path { path: "/ril_0/voicecall01".to_string() };
    assert_eq!(
        after_read(BusRead::Signal(signal("CallRemoved", None, body))),
        NextStep::Handle(TelephonyEvent::Call(CallEvent::Removed {
            handle: "/ril_0/voicecall01".to_string()
        }))
    );
    assert_eq!(
        after_read(BusRead::Signal(signal("NameOwnerChanged", None, SignalBody::Other))),
        NextStep::Handle(TelephonyEvent::Ignored)
    );
}

#[test]
fn a_failed_read_is_passed_over_and_a_closed_connection_stops() {
    assert_eq!(after_read(BusRead::Failed), NextStep::ReadAgain);
    assert_eq!(after_read(BusRead::Closed), NextStep::Stop);
}
