//! The background sound player's decisions: the sound it plays when it is
//! launched at logon, and what it does with the messages that announce the
//! end of the session. The caller owns the window, the settings file and the
//! playback.

use vstd::prelude::*;
use crate::domain::sound_event::EventType;

verus! {

pub const WM_DESTROY: u32 = 0x0002;
pub const WM_QUERYENDSESSION: u32 = 0x0011;
pub const WM_ENDSESSION: u32 = 0x0016;
/// Console control events that end the session: log off and shut down.
pub const CTRL_LOGOFF_EVENT: u32 = 5;
pub const CTRL_SHUTDOWN_EVENT: u32 = 6;

/// The sound played at launch: `Startup` when preferred at logon and present,
/// else `Logon` when present, else none.
pub open spec fn spec_launch_sound(prefer_startup: bool, startup_exists: bool, logon_exists: bool) -> Option<EventType> {
    if prefer_startup && startup_exists {
        Some(EventType::Startup)
    } else if logon_exists {
        Some(EventType::Logon)
    } else {
        None
    }
}

/// The sound to play when the player starts, given the setting
/// `prefer_startup_sound_on_logon` and which of the two files exist.
pub fn launch_sound(prefer_startup: bool, startup_exists: bool, logon_exists: bool) -> (r: Option<EventType>)
    ensures
        r == spec_launch_sound(prefer_startup, startup_exists, logon_exists),
{
    if prefer_startup && startup_exists {
        Some(EventType::Startup)
    } else if logon_exists {
        Some(EventType::Logon)
    } else {
        None
    }
}

/// The message kinds the player's window handles.
#[derive(PartialEq, Eq, Structural, Debug, Clone, Copy)]
pub enum MessageKind {
    QueryEndSession,
    EndSession,
    Destroy,
    Other,
}

/// The kind of the window message `msg`.
pub fn classify_message(msg: u32) -> (r: MessageKind)
    ensures
        r == (if msg == WM_QUERYENDSESSION {
            MessageKind::QueryEndSession
        } else if msg == WM_ENDSESSION {
            MessageKind::EndSession
        } else if msg == WM_DESTROY {
            MessageKind::Destroy
        } else {
            MessageKind::Other
        }),
{
    if msg == WM_QUERYENDSESSION {
        MessageKind::QueryEndSession
    } else if msg == WM_ENDSESSION {
        MessageKind::EndSession
    } else if msg == WM_DESTROY {
        MessageKind::Destroy
    } else {
        MessageKind::Other
    }
}

/// A message with what deciding on it needs: for `QueryEndSession`, the
/// setting `prefer_startup_sound_on_logon` read at that moment.
pub enum SessionEvent {
    QueryEndSession { prefer_startup: bool, wparam: usize },
    EndSession { wparam: usize },
    Destroy,
    Other,
}

/// What the player remembers between messages: whether the session end
/// plays the shutdown sound (else the logoff sound).
#[derive(Debug, Clone, Copy)]
pub struct PlayerState {
    pub play_shutdown: bool,
}

impl PlayerState {
    pub fn new() -> (r: Self)
        ensures
            !r.play_shutdown,
    {
        PlayerState { play_shutdown: false }
    }
}

/// What the window procedure does for a message.
#[derive(Debug, Clone, Copy)]
pub struct Reply {
    /// The value returned to the system.
    pub result: isize,
    /// Register a shutdown block reason ("Playing system sound").
    pub block_shutdown: bool,
    /// Play this event's sound synchronously when its file exists.
    pub play: Option<EventType>,
    /// Remove the shutdown block reason.
    pub unblock_shutdown: bool,
    /// Post the quit message.
    pub quit: bool,
    /// Hand the message to the default window procedure (its value is returned).
    pub default_proc: bool,
}

pub open spec fn reply(result: isize, block: bool, play: Option<EventType>, unblock: bool, quit: bool, default_proc: bool) -> Reply {
    Reply { result, block_shutdown: block, play, unblock_shutdown: unblock, quit, default_proc }
}

/// The decision for one message: the new state and the reply. A query
/// blocks the shutdown, remembers whether to play the shutdown sound (when
/// preferred, or when `wparam` is 1) and answers 1; an ending session plays
/// the remembered sound and unblocks (only when `wparam` is not 0), then
/// quits; a destroyed window quits; anything else goes to the default
/// procedure.
pub open spec fn spec_on_event(s: PlayerState, e: SessionEvent) -> (PlayerState, Reply) {
    match e {
        SessionEvent::QueryEndSession { prefer_startup, wparam } => (
            PlayerState { play_shutdown: prefer_startup || wparam == 1 },
            reply(1, true, None, false, false, false),
        ),
        SessionEvent::EndSession { wparam } => (
            s,
            if wparam != 0 {
                reply(0, false, Some(if s.play_shutdown { EventType::Shutdown } else { EventType::Logoff }), true, true, false)
            } else {
                reply(0, false, None, false, true, false)
            },
        ),
        SessionEvent::Destroy => (s, reply(0, false, None, false, true, false)),
        SessionEvent::Other => (s, reply(0, false, None, false, false, true)),
    }
}

/// Decides on a window message (see `spec_on_event`).
pub fn on_event(state: &mut PlayerState, e: SessionEvent) -> (r: Reply)
    ensures
        (*final(state), r) == spec_on_event(*old(state), e),
{
    match e {
        SessionEvent::QueryEndSession { prefer_startup, wparam } => {
            state.play_shutdown = prefer_startup || wparam == 1;
            Reply { result: 1, block_shutdown: true, play: None, unblock_shutdown: false, quit: false, default_proc: false }
        },
        SessionEvent::EndSession { wparam } => {
            if wparam != 0 {
                let ev = if state.play_shutdown { EventType::Shutdown } else { EventType::Logoff };
                Reply { result: 0, block_shutdown: false, play: Some(ev), unblock_shutdown: true, quit: true, default_proc: false }
            } else {
                Reply { result: 0, block_shutdown: false, play: None, unblock_shutdown: false, quit: true, default_proc: false }
            }
        },
        SessionEvent::Destroy => {
            Reply { result: 0, block_shutdown: false, play: None, unblock_shutdown: false, quit: true, default_proc: false }
        },
        SessionEvent::Other => {
            Reply { result: 0, block_shutdown: false, play: None, unblock_shutdown: false, quit: false, default_proc: true }
        },
    }
}

/// Whether a console control event ends the session (log off or shut down).
pub fn is_session_end_signal(ctrl: u32) -> (r: bool)
    ensures
        r == (ctrl == CTRL_LOGOFF_EVENT || ctrl == CTRL_SHUTDOWN_EVENT),
{
    ctrl == CTRL_LOGOFF_EVENT || ctrl == CTRL_SHUTDOWN_EVENT
}

/// The sound the console fallback plays when the session ends: `Shutdown`
/// when the startup sound is preferred at logon, else `Logoff`.
pub fn console_end_sound(prefer_startup: bool) -> (r: EventType)
    ensures
        r == (if prefer_startup { EventType::Shutdown } else { EventType::Logoff }),
{
    if prefer_startup {
        EventType::Shutdown
    } else {
        EventType::Logoff
    }
}

/// A session that ends after a query plays the shutdown sound exactly when
/// the query said so (the startup sound preferred, or `wparam` 1), else the
/// logoff sound, whatever the state before the query and whatever other
/// messages came between.
pub proof fn law_end_session_plays_queried_sound(
    s: PlayerState,
    prefer_startup: bool,
    query_wparam: usize,
    between: Seq<SessionEvent>,
    end_wparam: usize,
)
    requires
        forall|i: int| 0 <= i < between.len() ==> !(#[trigger] between[i] is QueryEndSession),
        end_wparam != 0,
    ensures
        ({
            let after_query = spec_on_event(s, SessionEvent::QueryEndSession { prefer_startup, wparam: query_wparam }).0;
            let before_end = run_events(after_query, between);
            spec_on_event(before_end, SessionEvent::EndSession { wparam: end_wparam }).1.play == Some(
                if prefer_startup || query_wparam == 1 { EventType::Shutdown } else { EventType::Logoff },
            )
        }),
{
    let after_query = spec_on_event(s, SessionEvent::QueryEndSession { prefer_startup, wparam: query_wparam }).0;
    lemma_run_keeps_flag(after_query, between);
}

/// The state after the events `es`, in order.
pub open spec fn run_events(s: PlayerState, es: Seq<SessionEvent>) -> PlayerState
    decreases es.len(),
{
    if es.len() == 0 {
        s
    } else {
        spec_on_event(run_events(s, es.drop_last()), es.last()).0
    }
}

proof fn lemma_run_keeps_flag(s: PlayerState, es: Seq<SessionEvent>)
    requires
        forall|i: int| 0 <= i < es.len() ==> !(#[trigger] es[i] is QueryEndSession),
    ensures
        run_events(s, es) == s,
    decreases es.len(),
{
    if es.len() > 0 {
        assert(!(es[es.len() - 1] is QueryEndSession));
        lemma_run_keeps_flag(s, es.drop_last());
    }
}

} // verus!
