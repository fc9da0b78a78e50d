//! The signals of the telephony bus, read into typed events.
//!
//! A signal arrives with the name of its member, the path of the object that
//! sent it, and a body. Whoever receives signals hands each of them over as a
//! [`BusSignal`]; [`classify`] says which event it is, if any. What a read from
//! the bus means for the loop that reads is said by [`after_read`]: a signal is
//! handled, a failed read is passed over, and only a closed connection ends the
//! loop.

use crate::calls::{CallEvent, CallEventView};
use crate::text::{option_string_view, str_eq};
use vstd::prelude::*;

verus! {

/// The value of a property, as far as it is read: texts are, anything else is not.
#[derive(Debug, Clone, PartialEq, Eq)]
pub enum PropertyValue {
    Text(String),
    Other,
}

/// The mathematical content of a [`PropertyValue`].
pub enum PropertyValueView {
    Text(Seq<char>),
    Other,
}

impl View for PropertyValue {
    type V = PropertyValueView;

    open spec fn view(&self) -> PropertyValueView {
        match *self {
            PropertyValue::Text(t) => PropertyValueView::Text(t@),
            PropertyValue::Other => PropertyValueView::Other,
        }
    }
}

/// One entry of the property map that comes with a signal.
#[derive(Debug, Clone, PartialEq, Eq)]
pub struct Property {
    pub name: String,
    pub value: PropertyValue,
}

/// The mathematical content of a [`Property`].
pub struct PropertyView {
    pub name: Seq<char>,
    pub value: PropertyValueView,
}

impl View for Property {
    type V = PropertyView;

    open spec fn view(&self) -> PropertyView {
        PropertyView { name: self.name@, value: self.value@ }
    }
}

/// The body of a signal, by its shape.
#[derive(Debug, Clone, PartialEq, Eq)]
pub enum SignalBody {
    /// A text and a property map.
    TextAndProperties { text: String, properties: Vec<Property> },
    /// An object path and a property map.
    PathAndProperties { path: String, properties: Vec<Property> },
    /// An object path.
    Path { path: String },
    /// The name of a property and its value.
    NameAndValue { name: String, value: PropertyValue },
    /// Any other body.
    Other,
}

/// A signal as it came from the bus.
#[derive(Debug, Clone, PartialEq, Eq)]
pub struct BusSignal {
    /// The name of the signal.
    pub member: Option<String>,
    /// The path of the object that sent it.
    pub path: Option<String>,
    pub body: SignalBody,
}

/// The events that the bus brings.
#[derive(Debug, Clone, PartialEq, Eq)]
pub enum TelephonyEvent {
    /// A message came in, already put together from its parts.
    IncomingMessage { content: String, sender: String },
    /// Something happened to a voice call.
    Call(CallEvent),
    /// A signal that is none of these, or one whose body has not the shape that
    /// its name asks for.
    Ignored,
}

/// The mathematical content of a [`TelephonyEvent`].
pub enum TelephonyEventView {
    IncomingMessage { content: Seq<char>, sender: Seq<char> },
    Call(CallEventView),
    Ignored,
}

impl View for TelephonyEvent {
    type V = TelephonyEventView;

    open spec fn view(&self) -> TelephonyEventView {
        match *self {
            TelephonyEvent::IncomingMessage { content, sender } => {
                TelephonyEventView::IncomingMessage { content: content@, sender: sender@ }
            },
            TelephonyEvent::Call(e) => TelephonyEventView::Call(e@),
            TelephonyEvent::Ignored => TelephonyEventView::Ignored,
        }
    }
}

/// The views of the properties in `properties`.
pub open spec fn property_views(properties: Seq<Property>) -> Seq<PropertyView> {
    Seq::new(properties.len(), |i: int| properties[i]@)
}

/// The text of the first property called `name`; `None` where there is no such
/// property or its value is no text.
pub open spec fn text_property_spec(properties: Seq<PropertyView>, name: Seq<char>) -> Option<
    Seq<char>,
>
    decreases properties.len(),
{
    if properties.len() == 0 {
        None
    } else if properties.first().name == name {
        match properties.first().value {
            PropertyValueView::Text(t) => Some(t),
            PropertyValueView::Other => None,
        }
    } else {
        text_property_spec(properties.drop_first(), name)
    }
}

/// The text of the property called `name`.
pub fn text_property(properties: &Vec<Property>, name: &str) -> (text: Option<String>)
    ensures
        option_string_view(text) == text_property_spec(property_views(properties@), name@),
{
    let ghost all = property_views(properties@);
    let mut i: usize = 0;
    assert(all.skip(0) == all);
    while i < properties.len()
        invariant
            i <= properties.len(),
            all == property_views(properties@),
            text_property_spec(all, name@) == text_property_spec(all.skip(i as int), name@),
        decreases properties.len() - i,
    {
        assert(all.skip(i as int).first() == properties[i as int]@);
        assert(all.skip(i as int).drop_first() == all.skip(i as int + 1));
        if str_eq(properties[i].name.as_str(), name) {
            return match &properties[i].value {
                PropertyValue::Text(t) => Some(t.clone()),
                PropertyValue::Other => None,
            };
        }
        i += 1;
    }
    None
}

/// The mathematical content of a [`SignalBody`].
pub enum SignalBodyView {
    TextAndProperties { text: Seq<char>, properties: Seq<PropertyView> },
    PathAndProperties { path: Seq<char>, properties: Seq<PropertyView> },
    Path { path: Seq<char> },
    NameAndValue { name: Seq<char>, value: PropertyValueView },
    Other,
}

impl View for SignalBody {
    type V = SignalBodyView;

    open spec fn view(&self) -> SignalBodyView {
        match *self {
            SignalBody::TextAndProperties { text, properties } => {
                SignalBodyView::TextAndProperties {
                    text: text@,
                    properties: property_views(properties@),
                }
            },
            SignalBody::PathAndProperties { path, properties } => {
                SignalBodyView::PathAndProperties {
                    path: path@,
                    properties: property_views(properties@),
                }
            },
            SignalBody::Path { path } => SignalBodyView::Path { path: path@ },
            SignalBody::NameAndValue { name, value } => SignalBodyView::NameAndValue {
                name: name@,
                value: value@,
            },
            SignalBody::Other => SignalBodyView::Other,
        }
    }
}

/// The mathematical content of a [`BusSignal`].
pub struct BusSignalView {
    pub member: Option<Seq<char>>,
    pub path: Option<Seq<char>>,
    pub body: SignalBodyView,
}

impl View for BusSignal {
    type V = BusSignalView;

    open spec fn view(&self) -> BusSignalView {
        BusSignalView {
            member: option_string_view(self.member),
            path: option_string_view(self.path),
            body: self.body@,
        }
    }
}

/// The sender of a message whose property map names none.
pub open spec fn unknown_sender() -> Seq<char> {
    "Unknown"@
}

/// The event that a signal called `IncomingMessage` brings.
pub open spec fn incoming_message_event(body: SignalBodyView) -> TelephonyEventView {
    match body {
        SignalBodyView::TextAndProperties { text, properties } => {
            TelephonyEventView::IncomingMessage {
                content: text,
                sender: match text_property_spec(properties, "Sender"@) {
                    Some(s) => s,
                    None => unknown_sender(),
                },
            }
        },
        _ => TelephonyEventView::Ignored,
    }
}

/// The event that a signal called `CallAdded` brings.
pub open spec fn call_added_event(body: SignalBodyView) -> TelephonyEventView {
    match body {
        SignalBodyView::PathAndProperties { path, properties } => TelephonyEventView::Call(
            CallEventView::Added {
                handle: path,
                line_identification: text_property_spec(properties, "LineIdentification"@),
                state: text_property_spec(properties, "State"@),
            },
        ),
        _ => TelephonyEventView::Ignored,
    }
}

/// The event that a signal called `CallRemoved` brings.
pub open spec fn call_removed_event(body: SignalBodyView) -> TelephonyEventView {
    match body {
        SignalBodyView::Path { path } => TelephonyEventView::Call(
            CallEventView::Removed { handle: path },
        ),
        _ => TelephonyEventView::Ignored,
    }
}

/// The event that a signal called `PropertyChanged` brings: a change of state,
/// where the property is `State`, its value a text, and the sender known.
pub open spec fn property_changed_event(
    path: Option<Seq<char>>,
    body: SignalBodyView,
) -> TelephonyEventView {
    match body {
        SignalBodyView::NameAndValue { name, value } => match (value, path) {
            (PropertyValueView::Text(state), Some(handle)) => if name == "State"@ {
                TelephonyEventView::Call(CallEventView::StateChanged { handle, new_state: state })
            } else {
                TelephonyEventView::Ignored
            },
            _ => TelephonyEventView::Ignored,
        },
        _ => TelephonyEventView::Ignored,
    }
}

/// The event that `signal` brings, by the name of its member.
pub open spec fn classify_spec(signal: BusSignalView) -> TelephonyEventView {
    match signal.member {
        Some(member) => if member == "IncomingMessage"@ {
            incoming_message_event(signal.body)
        } else if member == "CallAdded"@ {
            call_added_event(signal.body)
        } else if member == "CallRemoved"@ {
            call_removed_event(signal.body)
        } else if member == "PropertyChanged"@ {
            property_changed_event(signal.path, signal.body)
        } else {
            TelephonyEventView::Ignored
        },
        None => TelephonyEventView::Ignored,
    }
}

/// Reads a signal into the event that it brings.
pub fn classify(signal: BusSignal) -> (event: TelephonyEvent)
    ensures
        event@ == classify_spec(signal@),
{
    let BusSignal { member, path, body } = signal;
    let member: String = match member {
        Some(m) => m,
        None => { return TelephonyEvent::Ignored; },
    };
    if str_eq(member.as_str(), "IncomingMessage") {
        match body {
            SignalBody::TextAndProperties { text, properties } => {
                let sender: String = match text_property(&properties, "Sender") {
                    Some(s) => s,
                    None => "Unknown".to_string(),
                };
                TelephonyEvent::IncomingMessage { content: text, sender }
            },
            _ => TelephonyEvent::Ignored,
        }
    } else if str_eq(member.as_str(), "CallAdded") {
        match body {
            SignalBody::PathAndProperties { path, properties } => {
                let line_identification = text_property(&properties, "LineIdentification");
                let state = text_property(&properties, "State");
                TelephonyEvent::Call(CallEvent::Added { handle: path, line_identification, state })
            },
            _ => TelephonyEvent::Ignored,
        }
    } else if str_eq(member.as_str(), "CallRemoved") {
        match body {
            SignalBody::Path { path } => TelephonyEvent::Call(CallEvent::Removed { handle: path }),
            _ => TelephonyEvent::Ignored,
        }
    } else if str_eq(member.as_str(), "PropertyChanged") {
        match body {
            SignalBody::NameAndValue { name, value } => match (value, path) {
                (PropertyValue::Text(state), Some(handle)) => {
                    if str_eq(name.as_str(), "State") {
                        TelephonyEvent::Call(CallEvent::StateChanged { handle, new_state: state })
                    } else {
                        TelephonyEvent::Ignored
                    }
                },
                _ => TelephonyEvent::Ignored,
            },
            _ => TelephonyEvent::Ignored,
        }
    } else {
        TelephonyEvent::Ignored
    }
}

/// What one read from the bus gave.
#[derive(Debug, Clone, PartialEq, Eq)]
pub enum BusRead {
    /// A signal arrived.
    Signal(BusSignal),
    /// The read failed; the connection stands.
    Failed,
    /// The connection is closed: nothing will arrive any more.
    Closed,
}

/// The mathematical content of a [`BusRead`].
pub enum BusReadView {
    Signal(BusSignalView),
    Failed,
    Closed,
}

impl View for BusRead {
    type V = BusReadView;

    open spec fn view(&self) -> BusReadView {
        match *self {
            BusRead::Signal(s) => BusReadView::Signal(s@),
            BusRead::Failed => BusReadView::Failed,
            BusRead::Closed => BusReadView::Closed,
        }
    }
}

/// What the loop that reads the bus does after a read.
#[derive(Debug, Clone, PartialEq, Eq)]
pub enum NextStep {
    /// Handle the event to its end, then read again.
    Handle(TelephonyEvent),
    /// Read again.
    ReadAgain,
    /// End the loop and report that the connection is lost.
    Stop,
}

/// The mathematical content of a [`NextStep`].
pub enum NextStepView {
    Handle(TelephonyEventView),
    ReadAgain,
    Stop,
}

impl View for NextStep {
    type V = NextStepView;

    open spec fn view(&self) -> NextStepView {
        match *self {
            NextStep::Handle(e) => NextStepView::Handle(e@),
            NextStep::ReadAgain => NextStepView::ReadAgain,
            NextStep::Stop => NextStepView::Stop,
        }
    }
}

/// What follows a read: the event of a signal is handled, a failed read is
/// passed over, and a closed connection ends the loop.
pub open spec fn after_read_spec(read: BusReadView) -> NextStepView {
    match read {
        BusReadView::Signal(signal) => NextStepView::Handle(classify_spec(signal)),
        BusReadView::Failed => NextStepView::ReadAgain,
        BusReadView::Closed => NextStepView::Stop,
    }
}

/// Decides what the loop that reads the bus does after a read.
pub fn after_read(read: BusRead) -> (step: NextStep)
    ensures
        step@ == after_read_spec(read@),
{
    match read {
        BusRead::Signal(signal) => NextStep::Handle(classify(signal)),
        BusRead::Failed => NextStep::ReadAgain,
        BusRead::Closed => NextStep::Stop,
    }
}

/// No signal and no failed read ends the loop: it ends when the connection is
/// closed, and only then.
pub proof fn lemma_only_a_closed_connection_stops(read: BusReadView)
    ensures
        after_read_spec(read) is Stop <==> read is Closed,
{
}

} // verus!
