//! The life of voice calls, from the signal that adds a call to the one that
//! removes it.
//!
//! The tracker holds one session for each call in progress, keyed by the handle
//! under which the bus announces the call. It decides; it does not store or
//! send anything itself. Each signal is handed to it as an event, and it answers
//! with the action that its owner has to perform.

use crate::clock::{elapsed_seconds, now, seconds_between, Timestamp};
use crate::text::{option_string_view, str_eq};
use vstd::prelude::*;

verus! {

/// The side that set a call up.
#[derive(Debug, Clone, Copy, PartialEq, Eq, Structural)]
pub enum CallDirection {
    Incoming,
    Outgoing,
}

/// How a finished call is filed.
#[derive(Debug, Clone, Copy, PartialEq, Eq, Structural)]
pub enum RecordDirection {
    Incoming,
    Outgoing,
    /// An incoming call that was never answered.
    Missed,
}

impl CallDirection {
    /// The word under which the store files the direction of a call in progress.
    pub open spec fn name(self) -> Seq<char> {
        match self {
            CallDirection::Incoming => "incoming"@,
            CallDirection::Outgoing => "outgoing"@,
        }
    }

    /// The word under which the store files the direction of a call in progress.
    pub fn as_str(&self) -> (word: &'static str)
        ensures
            word@ == self.name(),
    {
        match self {
            CallDirection::Incoming => "incoming",
            CallDirection::Outgoing => "outgoing",
        }
    }
}

impl RecordDirection {
    /// The word under which a finished call is filed.
    pub open spec fn name(self) -> Seq<char> {
        match self {
            RecordDirection::Incoming => "incoming"@,
            RecordDirection::Outgoing => "outgoing"@,
            RecordDirection::Missed => "missed"@,
        }
    }

    /// The word under which a finished call is filed.
    pub fn as_str(&self) -> (word: &'static str)
        ensures
            word@ == self.name(),
    {
        match self {
            RecordDirection::Incoming => "incoming",
            RecordDirection::Outgoing => "outgoing",
            RecordDirection::Missed => "missed",
        }
    }
}

/// What is stored of a call as soon as it is announced.
#[derive(Debug, Clone, PartialEq, Eq)]
pub struct NewCall {
    pub phone_number: String,
    pub direction: CallDirection,
    pub answered: bool,
}

/// The mathematical content of a [`NewCall`].
pub struct NewCallView {
    pub phone_number: Seq<char>,
    pub direction: CallDirection,
    pub answered: bool,
}

impl View for NewCall {
    type V = NewCallView;

    open spec fn view(&self) -> NewCallView {
        NewCallView {
            phone_number: self.phone_number@,
            direction: self.direction,
            answered: self.answered,
        }
    }
}

/// A call in progress.
#[derive(Debug, Clone, PartialEq, Eq)]
pub struct CallSession {
    /// The handle under which the bus announced the call.
    pub handle: String,
    /// The identifier that the store gave to the call.
    pub record_id: i64,
    pub phone_number: String,
    pub direction: CallDirection,
    pub started_at: Timestamp,
    pub answered: bool,
}

/// The mathematical content of a [`CallSession`].
pub struct SessionView {
    pub handle: Seq<char>,
    pub record_id: i64,
    pub phone_number: Seq<char>,
    pub direction: CallDirection,
    pub started_at: Timestamp,
    pub answered: bool,
}

impl View for CallSession {
    type V = SessionView;

    open spec fn view(&self) -> SessionView {
        SessionView {
            handle: self.handle@,
            record_id: self.record_id,
            phone_number: self.phone_number@,
            direction: self.direction,
            started_at: self.started_at,
            answered: self.answered,
        }
    }
}

/// The summary of a finished call.
#[derive(Debug, Clone, PartialEq, Eq)]
pub struct CallRecord {
    pub record_id: i64,
    pub direction: RecordDirection,
    pub phone_number: String,
    pub duration_seconds: i64,
    pub started_at: Timestamp,
    pub ended_at: Timestamp,
    pub answered: bool,
}

/// The mathematical content of a [`CallRecord`].
pub struct RecordView {
    pub record_id: i64,
    pub direction: RecordDirection,
    pub phone_number: Seq<char>,
    pub duration_seconds: i64,
    pub started_at: Timestamp,
    pub ended_at: Timestamp,
    pub answered: bool,
}

impl View for CallRecord {
    type V = RecordView;

    open spec fn view(&self) -> RecordView {
        RecordView {
            record_id: self.record_id,
            direction: self.direction,
            phone_number: self.phone_number@,
            duration_seconds: self.duration_seconds,
            started_at: self.started_at,
            ended_at: self.ended_at,
            answered: self.answered,
        }
    }
}

/// What the store is told when a call ends.
#[derive(Debug, Clone, Copy, PartialEq, Eq, Structural)]
pub enum CallUpdate {
    /// The stored call is marked as missed.
    MarkMissed { record_id: i64 },
    /// The stored call gets its duration and whether it was answered.
    End { record_id: i64, duration_seconds: i64, answered: bool },
}

/// Whether a call in this state is one that somebody else set up.
pub open spec fn is_ringing(state: Seq<char>) -> bool {
    state == "incoming"@ || state == "alerting"@
}

/// What is stored of a call announced with these properties. A missing line
/// identification reads `Unknown`, a missing state is the empty state.
pub open spec fn new_call(line_identification: Option<Seq<char>>, state: Option<Seq<char>>) -> NewCallView {
    let state: Seq<char> = match state {
        Some(s) => s,
        None => Seq::empty(),
    };
    NewCallView {
        phone_number: match line_identification {
            Some(n) => n,
            None => "Unknown"@,
        },
        direction: if is_ringing(state) {
            CallDirection::Incoming
        } else {
            CallDirection::Outgoing
        },
        answered: state == "active"@,
    }
}

/// The session of a call stored under `record_id` at the time `now`.
pub open spec fn session_of(
    handle: Seq<char>,
    call: NewCallView,
    record_id: i64,
    now: Timestamp,
) -> SessionView {
    SessionView {
        handle,
        record_id,
        phone_number: call.phone_number,
        direction: call.direction,
        started_at: now,
        answered: call.answered,
    }
}

/// Whether a session ends as a missed call: incoming and never answered.
pub open spec fn is_missed(session: SessionView) -> bool {
    session.direction == CallDirection::Incoming && !session.answered
}

/// The summary of the call of `session` when it ends at `now`.
pub open spec fn record_of(session: SessionView, now: Timestamp) -> RecordView {
    RecordView {
        record_id: session.record_id,
        direction: if is_missed(session) {
            RecordDirection::Missed
        } else {
            match session.direction {
                CallDirection::Incoming => RecordDirection::Incoming,
                CallDirection::Outgoing => RecordDirection::Outgoing,
            }
        },
        phone_number: session.phone_number,
        duration_seconds: elapsed_seconds(session.started_at, now) as i64,
        started_at: session.started_at,
        ended_at: now,
        answered: session.answered,
    }
}

/// What the store is told when the call of `session` ends at `now`.
pub open spec fn update_of(session: SessionView, now: Timestamp) -> CallUpdate {
    if is_missed(session) {
        CallUpdate::MarkMissed { record_id: session.record_id }
    } else {
        CallUpdate::End {
            record_id: session.record_id,
            duration_seconds: elapsed_seconds(session.started_at, now) as i64,
            answered: session.answered,
        }
    }
}

/// `session` once its call has become active.
pub open spec fn answered(session: SessionView) -> SessionView {
    SessionView { answered: true, ..session }
}

/// Decides what to store of a call announced with these properties.
pub fn plan_new_call(line_identification: Option<&str>, state: Option<&str>) -> (call: NewCall)
    ensures
        call@ == new_call(
            match line_identification {
                Some(n) => Some(n@),
                None => None,
            },
            match state {
                Some(s) => Some(s@),
                None => None,
            },
        ),
{
    let state: &str = match state {
        Some(s) => s,
        None => "",
    };
    proof {
        reveal_strlit("");
        assert(""@ == Seq::<char>::empty());
    }
    let phone_number: String = match line_identification {
        Some(n) => n.to_string(),
        None => "Unknown".to_string(),
    };
    let direction = if str_eq(state, "incoming") || str_eq(state, "alerting") {
        CallDirection::Incoming
    } else {
        CallDirection::Outgoing
    };
    NewCall { phone_number, direction, answered: str_eq(state, "active") }
}

/// What a finished call leaves behind: the update for the store and the summary
/// for whoever is notified.
#[derive(Debug, Clone, PartialEq, Eq)]
pub struct CallEnd {
    pub update: CallUpdate,
    pub record: CallRecord,
}

/// The table of calls in progress.
pub struct CallTracker {
    sessions: Vec<CallSession>,
}

/// Whether `sessions` holds a session under `handle`.
spec fn holds(sessions: Seq<CallSession>, handle: Seq<char>) -> bool {
    exists|i: int| 0 <= i < sessions.len() && #[trigger] sessions[i].handle@ == handle
}

/// A place at which `sessions` holds its session under `handle`.
spec fn place_of(sessions: Seq<CallSession>, handle: Seq<char>) -> int {
    choose|i: int| 0 <= i < sessions.len() && #[trigger] sessions[i].handle@ == handle
}

/// No two sessions share a handle.
spec fn distinct_handles(sessions: Seq<CallSession>) -> bool {
    forall|i: int, j: int|
        0 <= i < sessions.len() && 0 <= j < sessions.len() && i != j ==> #[trigger] sessions[i].handle@
            != #[trigger] sessions[j].handle@
}

/// The table that `sessions` stands for.
spec fn table_of(sessions: Seq<CallSession>) -> Map<Seq<char>, SessionView> {
    Map::new(|h: Seq<char>| holds(sessions, h), |h: Seq<char>| sessions[place_of(sessions, h)]@)
}

/// The session at place `i` is the one that the table holds under its handle.
proof fn lemma_table_at(sessions: Seq<CallSession>, i: int)
    requires
        distinct_handles(sessions),
        0 <= i < sessions.len(),
    ensures
        table_of(sessions).dom().contains(sessions[i].handle@),
        table_of(sessions)[sessions[i].handle@] == sessions[i]@,
{
    let h = sessions[i].handle@;
    assert(holds(sessions, h));
    let j = place_of(sessions, h);
    assert(j == i);
}

/// Putting another session with the same handle at place `i` puts it into the table.
proof fn lemma_table_update(before: Seq<CallSession>, i: int, session: CallSession)
    requires
        distinct_handles(before),
        0 <= i < before.len(),
        session.handle@ == before[i].handle@,
    ensures
        distinct_handles(before.update(i, session)),
        table_of(before.update(i, session)) == table_of(before).insert(session.handle@, session@),
{
    let after = before.update(i, session);
    let h = session.handle@;
    assert forall|a: int, b: int|
        0 <= a < after.len() && 0 <= b < after.len() && a != b implies after[a].handle@
        != after[b].handle@ by {
        assert(after[a].handle@ == before[a].handle@);
        assert(after[b].handle@ == before[b].handle@);
    }
    assert forall|k: Seq<char>| holds(after, k) == holds(before, k) by {
        if holds(after, k) {
            let j = place_of(after, k);
            assert(before[j].handle@ == k);
        }
        if holds(before, k) {
            let j = place_of(before, k);
            assert(after[j].handle@ == k);
        }
    }
    assert forall|k: Seq<char>| holds(after, k) implies table_of(after)[k] == table_of(
        before,
    ).insert(h, session@)[k] by {
        let j = place_of(after, k);
        lemma_table_at(after, j);
        if k != h {
            assert(before[j].handle@ == k);
            lemma_table_at(before, j);
        } else {
            lemma_table_at(after, i);
        }
    }
    lemma_table_at(before, i);
    assert(table_of(after) =~= table_of(before).insert(h, session@));
}

/// Appending a session under a new handle puts it into the table.
proof fn lemma_table_push(before: Seq<CallSession>, session: CallSession)
    requires
        distinct_handles(before),
        !holds(before, session.handle@),
    ensures
        distinct_handles(before.push(session)),
        table_of(before.push(session)) == table_of(before).insert(session.handle@, session@),
{
    let after = before.push(session);
    let h = session.handle@;
    assert forall|a: int, b: int|
        0 <= a < after.len() && 0 <= b < after.len() && a != b implies after[a].handle@
        != after[b].handle@ by {
        if a < before.len() {
            assert(before[a].handle@ == after[a].handle@);
        }
        if b < before.len() {
            assert(before[b].handle@ == after[b].handle@);
        }
    }
    assert forall|k: Seq<char>| holds(after, k) == (holds(before, k) || k == h) by {
        if holds(after, k) {
            let j = place_of(after, k);
            if j < before.len() {
                assert(before[j].handle@ == k);
            }
        }
        if holds(before, k) {
            let j = place_of(before, k);
            assert(after[j].handle@ == k);
        }
        if k == h {
            assert(after[before.len() as int].handle@ == k);
        }
    }
    assert forall|k: Seq<char>| holds(after, k) implies table_of(after)[k] == table_of(
        before,
    ).insert(h, session@)[k] by {
        let j = place_of(after, k);
        lemma_table_at(after, j);
        if k != h {
            assert(before[j].handle@ == k);
            lemma_table_at(before, j);
        } else {
            lemma_table_at(after, before.len() as int);
        }
    }
    assert(table_of(after) =~= table_of(before).insert(h, session@));
}

/// Taking the session at place `i` away takes it out of the table.
proof fn lemma_table_remove(before: Seq<CallSession>, i: int)
    requires
        distinct_handles(before),
        0 <= i < before.len(),
    ensures
        distinct_handles(before.remove(i)),
        table_of(before.remove(i)) == table_of(before).remove(before[i].handle@),
{
    let after = before.remove(i);
    let h = before[i].handle@;
    assert forall|a: int| 0 <= a < after.len() implies after[a] == before[if a < i {
        a
    } else {
        a + 1
    }] by {}
    assert forall|a: int, b: int|
        0 <= a < after.len() && 0 <= b < after.len() && a != b implies after[a].handle@
        != after[b].handle@ by {
        let a0: int = if a < i { a } else { a + 1 };
        let b0: int = if b < i { b } else { b + 1 };
        assert(after[a].handle@ == before[a0].handle@);
        assert(after[b].handle@ == before[b0].handle@);
    }
    assert forall|k: Seq<char>| holds(after, k) == (holds(before, k) && k != h) by {
        if holds(after, k) {
            let j = place_of(after, k);
            let j0: int = if j < i { j } else { j + 1 };
            assert(before[j0].handle@ == k);
        }
        if holds(before, k) && k != h {
            let j = place_of(before, k);
            let j1: int = if j < i { j } else { j - 1 };
            assert(after[j1].handle@ == k);
        }
    }
    assert forall|k: Seq<char>| holds(after, k) implies table_of(after)[k] == table_of(
        before,
    )[k] by {
        let j = place_of(after, k);
        let j0: int = if j < i { j } else { j + 1 };
        lemma_table_at(after, j);
        assert(before[j0].handle@ == k);
        lemma_table_at(before, j0);
    }
    assert(table_of(after) =~= table_of(before).remove(h));
}

/// Putting a session with the same handle back at the place from which one was
/// taken puts it into the table.
proof fn lemma_table_reinsert(before: Seq<CallSession>, i: int, session: CallSession)
    requires
        distinct_handles(before),
        0 <= i < before.len(),
        session.handle@ == before[i].handle@,
    ensures
        before.remove(i).insert(i, session) == before.update(i, session),
        distinct_handles(before.update(i, session)),
        table_of(before.update(i, session)) == table_of(before).insert(session.handle@, session@),
{
    assert(before.remove(i).insert(i, session) =~= before.update(i, session));
    lemma_table_update(before, i, session);
}

impl View for CallTracker {
    type V = Map<Seq<char>, SessionView>;

    /// The sessions by their handles.
    closed spec fn view(&self) -> Map<Seq<char>, SessionView> {
        table_of(self.sessions@)
    }
}

impl CallTracker {
    /// No handle is held twice.
    #[verifier::type_invariant]
    spec fn well_formed(&self) -> bool {
        distinct_handles(self.sessions@)
    }

    /// Every session is filed under its own handle.
    pub proof fn lemma_keys_are_handles(&self)
        ensures
            forall|h: Seq<char>| #[trigger] self@.dom().contains(h) ==> self@[h].handle == h,
    {
        assert forall|h: Seq<char>| #[trigger] self@.dom().contains(h) implies self@[h].handle
            == h by {
            let j = place_of(self.sessions@, h);
            assert(holds(self.sessions@, h));
        }
    }

    /// A tracker without calls.
    pub fn new() -> (tracker: CallTracker)
        ensures
            tracker@ == Map::<Seq<char>, SessionView>::empty(),
    {
        let tracker = CallTracker { sessions: Vec::new() };
        assert(tracker@ =~= Map::<Seq<char>, SessionView>::empty());
        tracker
    }

    /// The place of the session under `handle`, if there is one.
    fn find(&self, handle: &str) -> (r: Option<usize>)
        ensures
            match r {
                Some(i) => i < self.sessions.len() && self.sessions[i as int].handle@ == handle@,
                None => !holds(self.sessions@, handle@),
            },
    {
        let mut i: usize = 0;
        while i < self.sessions.len()
            invariant
                i <= self.sessions.len(),
                forall|k: int| 0 <= k < i ==> self.sessions[k].handle@ != handle@,
            decreases self.sessions.len() - i,
        {
            if str_eq(self.sessions[i].handle.as_str(), handle) {
                return Some(i);
            }
            i += 1;
        }
        None
    }

    /// Whether a call is in progress under `handle`.
    pub fn has_call(&self, handle: &str) -> (present: bool)
        ensures
            present == self@.dom().contains(handle@),
    {
        self.find(handle).is_some()
    }

    /// The session under `handle`, if a call is in progress there.
    pub fn session(&self, handle: &str) -> (r: Option<&CallSession>)
        ensures
            match r {
                Some(s) => self@.dom().contains(handle@) && s@ == self@[handle@],
                None => !self@.dom().contains(handle@),
            },
    {
        match self.find(handle) {
            Some(i) => {
                proof {
                    use_type_invariant(self);
                    lemma_table_at(self.sessions@, i as int);
                }
                Some(&self.sessions[i])
            },
            None => None,
        }
    }

    /// Files the call that the store has accepted under `record_id`. The call
    /// starts at `now`. A session that the table still holds under the same
    /// handle is replaced.
    pub fn track(&mut self, handle: String, call: NewCall, record_id: i64, now: Timestamp)
        ensures
            final(self)@ == old(self)@.insert(handle@, session_of(handle@, call@, record_id, now)),
    {
        let found = self.find(handle.as_str());
        let session = CallSession {
            handle,
            record_id,
            phone_number: call.phone_number,
            direction: call.direction,
            started_at: now,
            answered: call.answered,
        };
        let ghost before = self.sessions@;
        proof {
            use_type_invariant(&*self);
        }
        let mut sessions: Vec<CallSession> = Vec::new();
        core::mem::swap(&mut self.sessions, &mut sessions);
        match found {
            Some(i) => {
                proof {
                    lemma_table_update(before, i as int, session);
                }
                sessions.set(i, session);
            },
            None => {
                proof {
                    lemma_table_push(before, session);
                }
                sessions.push(session);
            },
        }
        self.sessions = sessions;
    }

    /// Notes that the call under `handle` has become active. Nothing happens
    /// where no call is in progress under that handle.
    pub fn mark_answered(&mut self, handle: &str)
        ensures
            final(self)@ == if old(self)@.dom().contains(handle@) {
                old(self)@.insert(handle@, answered(old(self)@[handle@]))
            } else {
                old(self)@
            },
    {
        let ghost before = self.sessions@;
        proof {
            use_type_invariant(&*self);
        }
        match self.find(handle) {
            Some(i) => {
                let mut sessions: Vec<CallSession> = Vec::new();
                core::mem::swap(&mut self.sessions, &mut sessions);
                let mut session = sessions.remove(i);
                session.answered = true;
                proof {
                    lemma_table_at(before, i as int);
                    lemma_table_reinsert(before, i as int, session);
                }
                sessions.insert(i, session);
                self.sessions = sessions;
            },
            None => {},
        }
    }

    /// Ends the call under `handle` at the time `now`: its session leaves the
    /// table, and what is left of it is handed back. `None` where no call is in
    /// progress under that handle; the table is then unchanged.
    pub fn finish(&mut self, handle: &str, now: Timestamp) -> (end: Option<CallEnd>)
        ensures
            match end {
                Some(e) => {
                    &&& old(self)@.dom().contains(handle@)
                    &&& final(self)@ == old(self)@.remove(handle@)
                    &&& e.update == update_of(old(self)@[handle@], now)
                    &&& e.record@ == record_of(old(self)@[handle@], now)
                },
                None => !old(self)@.dom().contains(handle@) && final(self)@ == old(self)@,
            },
    {
        let ghost before = self.sessions@;
        proof {
            use_type_invariant(&*self);
        }
        match self.find(handle) {
            Some(i) => {
                proof {
                    lemma_table_at(before, i as int);
                    lemma_table_remove(before, i as int);
                }
                let mut sessions: Vec<CallSession> = Vec::new();
                core::mem::swap(&mut self.sessions, &mut sessions);
                let session = sessions.remove(i);
                self.sessions = sessions;
                let duration_seconds: i64 = seconds_between(session.started_at, now);
                let missed: bool = matches!(session.direction, CallDirection::Incoming)
                    && !session.answered;
                let update = if missed {
                    CallUpdate::MarkMissed { record_id: session.record_id }
                } else {
                    CallUpdate::End {
                        record_id: session.record_id,
                        duration_seconds,
                        answered: session.answered,
                    }
                };
                let direction = if missed {
                    RecordDirection::Missed
                } else {
                    match session.direction {
                        CallDirection::Incoming => RecordDirection::Incoming,
                        CallDirection::Outgoing => RecordDirection::Outgoing,
                    }
                };
                let record = CallRecord {
                    record_id: session.record_id,
                    direction,
                    phone_number: session.phone_number,
                    duration_seconds,
                    started_at: session.started_at,
                    ended_at: now,
                    answered: session.answered,
                };
                Some(CallEnd { update, record })
            },
            None => None,
        }
    }
}

/// What the tracker is told.
#[derive(Debug, Clone, PartialEq, Eq)]
pub enum CallEvent {
    /// The bus announced a call under `handle`, with these two of its properties
    /// as far as they are there and are texts.
    Added { handle: String, line_identification: Option<String>, state: Option<String> },
    /// The store accepted the call announced under `handle` and gave it `record_id`.
    Stored { handle: String, call: NewCall, record_id: i64 },
    /// The bus reported the state of the call under `handle`.
    StateChanged { handle: String, new_state: String },
    /// The bus reported that the call under `handle` is gone.
    Removed { handle: String },
}

/// The mathematical content of a [`CallEvent`].
pub enum CallEventView {
    Added { handle: Seq<char>, line_identification: Option<Seq<char>>, state: Option<Seq<char>> },
    Stored { handle: Seq<char>, call: NewCallView, record_id: i64 },
    StateChanged { handle: Seq<char>, new_state: Seq<char> },
    Removed { handle: Seq<char> },
}

impl View for CallEvent {
    type V = CallEventView;

    open spec fn view(&self) -> CallEventView {
        match *self {
            CallEvent::Added { handle, line_identification, state } => CallEventView::Added {
                handle: handle@,
                line_identification: option_string_view(line_identification),
                state: option_string_view(state),
            },
            CallEvent::Stored { handle, call, record_id } => CallEventView::Stored {
                handle: handle@,
                call: call@,
                record_id,
            },
            CallEvent::StateChanged { handle, new_state } => CallEventView::StateChanged {
                handle: handle@,
                new_state: new_state@,
            },
            CallEvent::Removed { handle } => CallEventView::Removed { handle: handle@ },
        }
    }
}

/// What the owner of the tracker has to do after an event.
#[derive(Debug, Clone, PartialEq, Eq)]
pub enum CallAction {
    Nothing,
    /// Store the call; when the store has accepted it, report
    /// [`CallEvent::Stored`] with the identifier it gave. A call that the store
    /// refuses is not reported and stays out of the table.
    Insert { handle: String, call: NewCall },
    /// Tell the store how the call ended, then pass the record on to whoever is
    /// notified, without waiting for either.
    Finish { update: CallUpdate, record: CallRecord },
}

/// The mathematical content of a [`CallAction`].
pub enum CallActionView {
    Nothing,
    Insert { handle: Seq<char>, call: NewCallView },
    Finish { update: CallUpdate, record: RecordView },
}

impl View for CallAction {
    type V = CallActionView;

    open spec fn view(&self) -> CallActionView {
        match *self {
            CallAction::Nothing => CallActionView::Nothing,
            CallAction::Insert { handle, call } => CallActionView::Insert {
                handle: handle@,
                call: call@,
            },
            CallAction::Finish { update, record } => CallActionView::Finish {
                update,
                record: record@,
            },
        }
    }
}

/// The table after `event` at the time `now`, and the action that the event asks for.
///
/// A call that is added changes nothing yet: it enters the table when the store
/// has accepted it. A state other than `active`, and any event for a handle
/// that the table does not hold, is passed over.
pub open spec fn step_spec(
    table: Map<Seq<char>, SessionView>,
    event: CallEventView,
    now: Timestamp,
) -> (Map<Seq<char>, SessionView>, CallActionView) {
    match event {
        CallEventView::Added { handle, line_identification, state } => (
            table,
            CallActionView::Insert { handle, call: new_call(line_identification, state) },
        ),
        CallEventView::Stored { handle, call, record_id } => (
            table.insert(handle, session_of(handle, call, record_id, now)),
            CallActionView::Nothing,
        ),
        CallEventView::StateChanged { handle, new_state } => if new_state == "active"@
            && table.dom().contains(handle) {
            (table.insert(handle, answered(table[handle])), CallActionView::Nothing)
        } else {
            (table, CallActionView::Nothing)
        },
        CallEventView::Removed { handle } => if table.dom().contains(handle) {
            (
                table.remove(handle),
                CallActionView::Finish {
                    update: update_of(table[handle], now),
                    record: record_of(table[handle], now),
                },
            )
        } else {
            (table, CallActionView::Nothing)
        },
    }
}

impl CallTracker {
    /// Takes one event at the time `now`.
    pub fn step_at(&mut self, event: CallEvent, now: Timestamp) -> (action: CallAction)
        ensures
            (final(self)@, action@) == step_spec(old(self)@, event@, now),
    {
        match event {
            CallEvent::Added { handle, line_identification, state } => {
                let line: Option<&str> = match &line_identification {
                    Some(n) => Some(n.as_str()),
                    None => None,
                };
                let state: Option<&str> = match &state {
                    Some(s) => Some(s.as_str()),
                    None => None,
                };
                CallAction::Insert { handle, call: plan_new_call(line, state) }
            },
            CallEvent::Stored { handle, call, record_id } => {
                self.track(handle, call, record_id, now);
                CallAction::Nothing
            },
            CallEvent::StateChanged { handle, new_state } => {
                if str_eq(new_state.as_str(), "active") {
                    self.mark_answered(handle.as_str());
                }
                CallAction::Nothing
            },
            CallEvent::Removed { handle } => match self.finish(handle.as_str(), now) {
                Some(end) => CallAction::Finish { update: end.update, record: end.record },
                None => CallAction::Nothing,
            },
        }
    }

    /// Takes one event at the time that the wall clock shows.
    pub fn step(&mut self, event: CallEvent) -> (action: CallAction)
        ensures
            exists|now: Timestamp|
                now.well_formed() && (final(self)@, action@) == #[trigger] step_spec(
                    old(self)@,
                    event@,
                    now,
                ),
    {
        let now = now();
        self.step_at(event, now)
    }
}

/// The table and the action after a call was added under `handle` in `state`,
/// accepted by the store as `record_id`, and filed at the time `started`.
pub open spec fn after_added(
    table: Map<Seq<char>, SessionView>,
    handle: Seq<char>,
    line_identification: Option<Seq<char>>,
    state: Option<Seq<char>>,
    record_id: i64,
    started: Timestamp,
) -> Map<Seq<char>, SessionView> {
    let added = step_spec(
        table,
        CallEventView::Added { handle, line_identification, state },
        started,
    );
    step_spec(
        added.0,
        CallEventView::Stored { handle, call: added.1->Insert_call, record_id },
        started,
    ).0
}

/// An incoming call that is added and then removed, with no report in between
/// that it became active, ends as a missed call that was not answered: the store
/// is told to mark it as missed, and its session leaves the table.
pub proof fn lemma_unanswered_incoming_call_is_missed(
    table: Map<Seq<char>, SessionView>,
    handle: Seq<char>,
    line_identification: Option<Seq<char>>,
    record_id: i64,
    started: Timestamp,
    ended: Timestamp,
)
    ensures
        ({
            let during = after_added(
                table,
                handle,
                line_identification,
                Some("incoming"@),
                record_id,
                started,
            );
            let end = step_spec(during, CallEventView::Removed { handle }, ended);
            &&& end.0 == table.remove(handle)
            &&& end.1 is Finish
            &&& end.1->Finish_record.direction == RecordDirection::Missed
            &&& end.1->Finish_record.answered == false
            &&& end.1->Finish_record.record_id == record_id
            &&& end.1->Finish_update == CallUpdate::MarkMissed { record_id }
        }),
{
    reveal_strlit("incoming");
    reveal_strlit("active");
    assert("incoming"@.len() == 8);
    assert("active"@.len() == 6);
    let during = after_added(
        table,
        handle,
        line_identification,
        Some("incoming"@),
        record_id,
        started,
    );
    assert(during.remove(handle) =~= table.remove(handle));
}

/// An incoming call that is added, reported active and then removed ends as an
/// answered incoming call whose duration is not negative: the store is told
/// that duration, and the session leaves the table.
pub proof fn lemma_answered_incoming_call_is_incoming(
    table: Map<Seq<char>, SessionView>,
    handle: Seq<char>,
    line_identification: Option<Seq<char>>,
    record_id: i64,
    started: Timestamp,
    answered_at: Timestamp,
    ended: Timestamp,
)
    ensures
        ({
            let ringing = after_added(
                table,
                handle,
                line_identification,
                Some("incoming"@),
                record_id,
                started,
            );
            let talking = step_spec(
                ringing,
                CallEventView::StateChanged { handle, new_state: "active"@ },
                answered_at,
            );
            let end = step_spec(talking.0, CallEventView::Removed { handle }, ended);
            &&& talking.1 is Nothing
            &&& end.0 == table.remove(handle)
            &&& end.1 is Finish
            &&& end.1->Finish_record.direction == RecordDirection::Incoming
            &&& end.1->Finish_record.answered == true
            &&& end.1->Finish_record.duration_seconds >= 0
            &&& end.1->Finish_record.duration_seconds == elapsed_seconds(started, ended)
            &&& end.1->Finish_update == CallUpdate::End {
                record_id,
                duration_seconds: end.1->Finish_record.duration_seconds,
                answered: true,
            }
        }),
{
    reveal_strlit("incoming");
    reveal_strlit("active");
    assert("incoming"@.len() == 8);
    assert("active"@.len() == 6);
    let ringing = after_added(
        table,
        handle,
        line_identification,
        Some("incoming"@),
        record_id,
        started,
    );
    let talking = step_spec(
        ringing,
        CallEventView::StateChanged { handle, new_state: "active"@ },
        answered_at,
    );
    assert(talking.0.remove(handle) =~= table.remove(handle));
}

/// A removal or a change of state for a handle that the table does not hold
/// changes nothing and asks for nothing.
pub proof fn lemma_unknown_handle_is_passed_over(
    table: Map<Seq<char>, SessionView>,
    handle: Seq<char>,
    state: Seq<char>,
    now: Timestamp,
)
    requires
        !table.dom().contains(handle),
    ensures
        step_spec(table, CallEventView::Removed { handle }, now) == (
            table,
            CallActionView::Nothing,
        ),
        step_spec(table, CallEventView::StateChanged { handle, new_state: state }, now) == (
            table,
            CallActionView::Nothing,
        ),
{
}

/// Every finished call has a duration that is not negative, and is filed as
/// missed exactly when it was incoming and never answered.
pub proof fn lemma_record_is_sound(session: SessionView, now: Timestamp)
    ensures
        record_of(session, now).duration_seconds >= 0,
        record_of(session, now).direction == RecordDirection::Missed <==> session.direction
            == CallDirection::Incoming && !session.answered,
        record_of(session, now).answered == session.answered,
{
}

/// The table holds a call from the moment the store has accepted it until the
/// call is removed: only an accepted call adds a handle, and a removed call is gone.
pub proof fn lemma_table_follows_calls(
    table: Map<Seq<char>, SessionView>,
    event: CallEventView,
    now: Timestamp,
)
    ensures
        ({
            let after = step_spec(table, event, now).0;
            &&& event matches CallEventView::Stored { handle, .. } ==> after.dom() == table.dom().insert(
                handle,
            )
            &&& event matches CallEventView::Removed { handle } ==> after.dom() == table.dom().remove(
                handle,
            )
            &&& !(event is Stored) && !(event is Removed) ==> after.dom() == table.dom()
        }),
{
    let after = step_spec(table, event, now).0;
    match event {
        CallEventView::Stored { handle, .. } => {
            assert(after.dom() =~= table.dom().insert(handle));
        },
        CallEventView::Removed { handle } => {
            assert(after.dom() =~= table.dom().remove(handle));
        },
        _ => {
            assert(after.dom() =~= table.dom());
        },
    }
}

} // verus!
