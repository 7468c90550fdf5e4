//! The telemetry listener as a state machine: it is handed what the transport and
//! the store report, and says what is to be done next.

use crate::admission::{admits, should_log, LogSample};
use crate::register::ActivePieceRegister;
use crate::telemetry::{decoded_bpm, parse_bpm, DecodeError};
use crate::time::{chrono_now, Timestamp};
use vstd::prelude::*;

verus! {

/// The topic on which the device publishes its tempo.
pub const TEMPO_TOPIC: &'static str = "esp32/midi";

/// The name of the notification that carries a tempo to the user interface.
pub const TEMPO_NOTIFICATION: &'static str = "mqtt_bpm";

/// Where the listener stands.
#[derive(Clone, Copy, Debug, PartialEq, Eq, Structural)]
pub enum ListenerState {
    /// Not yet subscribed to the tempo topic.
    Disconnected,
    /// Subscribed and free to take the next message.
    Subscribed,
    /// A sample of the active piece waits for the store to tell the piece's latest entry.
    AwaitingLatest { piece_id: i64, bpm: i64 },
    /// An admitted sample was handed to the store, which has not answered yet.
    AwaitingAppend,
    /// The subscription failed or the connection ended; nothing more is done.
    Stopped,
}

/// What the transport or the store reports to the listener.
#[derive(Clone, Debug, PartialEq, Eq)]
pub enum ListenerEvent {
    /// The subscription to the tempo topic was granted.
    SubscribeSucceeded,
    /// The subscription to the tempo topic was refused.
    SubscribeFailed,
    /// A message arrived on the tempo topic.
    Publish { payload: Vec<u8> },
    /// The transport reported anything else.
    OtherNotification,
    /// The store told the latest entry of the piece asked for, and `now` is the time
    /// at which it did.
    LatestEntry { previous: Option<LogSample>, now: Timestamp },
    /// The store took the entry.
    Appended,
    /// The store failed to answer or to take the entry.
    StoreFailed,
    /// The transport's connection ended.
    ConnectionClosed,
}

/// What the listener asks for.
#[derive(Clone, Copy, Debug, PartialEq, Eq, Structural)]
pub enum ListenerAction {
    /// Nothing is to be done.
    Nothing,
    /// Give up: the subscription failed.
    Abort,
    /// End the loop: the connection is gone.
    Stop,
    /// The message is malformed and is dropped.
    Discard { reason: DecodeError },
    /// Forward the tempo to the user interface.
    Notify { bpm: i64 },
    /// Forward the tempo to the user interface, then ask the store for the latest
    /// entry of the piece.
    NotifyAndFetchLatest { bpm: i64, piece_id: i64 },
    /// Store a new log entry.
    Append { piece_id: i64, bpm: i64, timestamp: Timestamp },
    /// The store failed; the sample is dropped and the loop goes on.
    DropSample,
}

/// What a message on the tempo topic leads to, given the active piece.
pub open spec fn on_publish(payload: Seq<u8>, active: Option<i64>) -> (
    ListenerState,
    ListenerAction,
) {
    match decoded_bpm(payload) {
        Err(reason) => (ListenerState::Subscribed, ListenerAction::Discard { reason }),
        Ok(bpm) => match active {
            None => (ListenerState::Subscribed, ListenerAction::Notify { bpm }),
            Some(piece_id) => (
                ListenerState::AwaitingLatest { piece_id, bpm },
                ListenerAction::NotifyAndFetchLatest { bpm, piece_id },
            ),
        },
    }
}

/// The listener's transitions: the state and the action that follow from a state,
/// an event and the active piece. An event that the state does not wait for
/// changes nothing.
pub open spec fn transition(state: ListenerState, event: ListenerEvent, active: Option<i64>) -> (
    ListenerState,
    ListenerAction,
) {
    match (state, event) {
        (ListenerState::Stopped, _) => (ListenerState::Stopped, ListenerAction::Nothing),
        (_, ListenerEvent::ConnectionClosed) => (ListenerState::Stopped, ListenerAction::Stop),
        (ListenerState::Disconnected, ListenerEvent::SubscribeSucceeded) => (
            ListenerState::Subscribed,
            ListenerAction::Nothing,
        ),
        (ListenerState::Disconnected, ListenerEvent::SubscribeFailed) => (
            ListenerState::Stopped,
            ListenerAction::Abort,
        ),
        (ListenerState::Subscribed, ListenerEvent::Publish { payload }) => on_publish(
            payload@,
            active,
        ),
        (
            ListenerState::AwaitingLatest { piece_id, bpm },
            ListenerEvent::LatestEntry { previous, now },
        ) => if admits(bpm, now, previous) {
            (
                ListenerState::AwaitingAppend,
                ListenerAction::Append { piece_id, bpm, timestamp: now },
            )
        } else {
            (ListenerState::Subscribed, ListenerAction::Nothing)
        },
        (ListenerState::AwaitingLatest { .. }, ListenerEvent::StoreFailed) => (
            ListenerState::Subscribed,
            ListenerAction::DropSample,
        ),
        (ListenerState::AwaitingAppend, ListenerEvent::Appended) => (
            ListenerState::Subscribed,
            ListenerAction::Nothing,
        ),
        (ListenerState::AwaitingAppend, ListenerEvent::StoreFailed) => (
            ListenerState::Subscribed,
            ListenerAction::DropSample,
        ),
        _ => (state, ListenerAction::Nothing),
    }
}

impl ListenerEvent {
    /// The store's answer about the latest entry of a piece, stamped with the
    /// present time.
    pub fn latest_entry(previous: Option<LogSample>) -> (event: ListenerEvent)
        ensures
            event matches ListenerEvent::LatestEntry { previous: told, .. } && told == previous,
    {
        ListenerEvent::LatestEntry { previous, now: chrono_now() }
    }
}

impl ListenerState {
    /// The state in which a listener starts.
    pub fn new() -> (state: ListenerState)
        ensures
            state == ListenerState::Disconnected,
    {
        ListenerState::Disconnected
    }

    /// Takes one event and says what follows.
    pub fn step(self, event: ListenerEvent, register: &ActivePieceRegister) -> (next: (
        ListenerState,
        ListenerAction,
    ))
        ensures
            next == transition(self, event, register.active()),
    {
        match (self, event) {
            (ListenerState::Stopped, _) => (ListenerState::Stopped, ListenerAction::Nothing),
            (_, ListenerEvent::ConnectionClosed) => (ListenerState::Stopped, ListenerAction::Stop),
            (ListenerState::Disconnected, ListenerEvent::SubscribeSucceeded) => (
                ListenerState::Subscribed,
                ListenerAction::Nothing,
            ),
            (ListenerState::Disconnected, ListenerEvent::SubscribeFailed) => (
                ListenerState::Stopped,
                ListenerAction::Abort,
            ),
            (ListenerState::Subscribed, ListenerEvent::Publish { payload }) => {
                match parse_bpm(payload.as_slice()) {
                    Err(reason) => (ListenerState::Subscribed, ListenerAction::Discard { reason }),
                    Ok(bpm) => match register.get_active() {
                        None => (ListenerState::Subscribed, ListenerAction::Notify { bpm }),
                        Some(piece_id) => (
                            ListenerState::AwaitingLatest { piece_id, bpm },
                            ListenerAction::NotifyAndFetchLatest { bpm, piece_id },
                        ),
                    },
                }
            },
            (
                ListenerState::AwaitingLatest { piece_id, bpm },
                ListenerEvent::LatestEntry { previous, now },
            ) => {
                if should_log(bpm, now, previous) {
                    (
                        ListenerState::AwaitingAppend,
                        ListenerAction::Append { piece_id, bpm, timestamp: now },
                    )
                } else {
                    (ListenerState::Subscribed, ListenerAction::Nothing)
                }
            },
            (ListenerState::AwaitingLatest { .. }, ListenerEvent::StoreFailed) => (
                ListenerState::Subscribed,
                ListenerAction::DropSample,
            ),
            (ListenerState::AwaitingAppend, ListenerEvent::Appended) => (
                ListenerState::Subscribed,
                ListenerAction::Nothing,
            ),
            (ListenerState::AwaitingAppend, ListenerEvent::StoreFailed) => (
                ListenerState::Subscribed,
                ListenerAction::DropSample,
            ),
            (state, _) => (state, ListenerAction::Nothing),
        }
    }
}

/// A malformed payload is inert: the message is dropped and the listener stays
/// as it was. Nothing is forwarded, asked of the store or stored.
pub proof fn lemma_malformed_payload_is_inert(payload: Vec<u8>, active: Option<i64>)
    requires
        decoded_bpm(payload@) is Err,
    ensures
        transition(ListenerState::Subscribed, ListenerEvent::Publish { payload }, active) == (
            ListenerState::Subscribed,
            ListenerAction::Discard { reason: decoded_bpm(payload@)->Err_0 },
        ),
{
}

/// While no piece is active, a well-formed sample is forwarded to the user
/// interface and that is all: the store is not asked, so no entry follows.
pub proof fn lemma_no_active_piece_only_notifies(payload: Vec<u8>)
    requires
        decoded_bpm(payload@) is Ok,
    ensures
        transition(ListenerState::Subscribed, ListenerEvent::Publish { payload }, None) == (
            ListenerState::Subscribed,
            ListenerAction::Notify { bpm: decoded_bpm(payload@)->Ok_0 },
        ),
{
}

/// An entry is stored only for a sample that waited for the store's word on the
/// latest entry and that the admission policy keeps; it is stamped with the time
/// of that word.
pub proof fn lemma_append_only_when_admitted(
    state: ListenerState,
    event: ListenerEvent,
    active: Option<i64>,
)
    ensures
        transition(state, event, active).1 matches ListenerAction::Append {
            piece_id,
            bpm,
            timestamp,
        } ==> {
            &&& state == (ListenerState::AwaitingLatest { piece_id, bpm })
            &&& event matches ListenerEvent::LatestEntry { previous, now }
            &&& now == timestamp
            &&& admits(bpm, now, previous)
        },
{
}

/// A sample comes to wait for the store only where it arrived, well formed, while
/// its piece was the active one.
pub proof fn lemma_fetch_only_for_active_piece(
    state: ListenerState,
    event: ListenerEvent,
    active: Option<i64>,
)
    requires
        !(state is AwaitingLatest),
    ensures
        transition(state, event, active).0 matches ListenerState::AwaitingLatest {
            piece_id,
            bpm,
        } ==> {
            &&& state is Subscribed
            &&& active == Some(piece_id)
            &&& event matches ListenerEvent::Publish { payload }
            &&& decoded_bpm(payload@) == Ok::<i64, DecodeError>(bpm)
        },
{
}

/// The state that a new listener reaches through `events` while the register
/// holds `active` throughout.
pub open spec fn state_after(events: Seq<ListenerEvent>, active: Option<i64>) -> ListenerState
    decreases events.len(),
{
    if events.len() == 0 {
        ListenerState::Disconnected
    } else {
        transition(state_after(events.drop_last(), active), events.last(), active).0
    }
}

/// While the register stays empty, no log entry comes about, whatever is
/// reported to the listener: it never waits for the store, and it asks neither
/// for the latest entry of a piece nor for an entry to be stored.
pub proof fn lemma_empty_register_never_logs(events: Seq<ListenerEvent>, event: ListenerEvent)
    ensures
        !(state_after(events, None) is AwaitingLatest),
        !(state_after(events, None) is AwaitingAppend),
        !(transition(state_after(events, None), event, None).1 is NotifyAndFetchLatest),
        !(transition(state_after(events, None), event, None).1 is Append),
    decreases events.len(),
{
    if events.len() > 0 {
        lemma_empty_register_never_logs(events.drop_last(), events.last());
    }
}

} // verus!
