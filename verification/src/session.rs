//! One session per connected client: a liveness clock driven by periodic
//! ticks, and the handling of inbound frames.
//!
//! The session is a state machine over plain values; the caller delivers
//! frames and clock ticks as events, performs the returned action (send a
//! frame, dispatch a command to the hardware channel, close), and reports
//! times from a monotonic clock in milliseconds. A session stays alive as
//! long as liveness probes keep arriving; a tick that finds the clock stale
//! beyond the timeout closes it.

use crate::channel::{send_error_description, SendError};
use crate::codec::{
    decode, decode_spec, error_response_bytes, protocol_error_description, success_response_bytes,
    CURequest, CUResponse,
};
use vstd::prelude::*;
use vstd::string::StringSliceAdditionalSpecFns;

verus! {

/// How often a liveness probe is sent, in milliseconds.
pub const HEARTBEAT_INTERVAL_MS: u64 = 5000;

/// How long without client activity before the session is closed.
pub const CLIENT_TIMEOUT_MS: u64 = 10000;

/// One client session: the time of the last sign of life, and whether the
/// session is still running.
#[derive(Clone, Copy, Debug)]
pub struct Session {
    pub last_seen_ms: u64,
    pub alive: bool,
}

/// An inbound frame, or the lack of one.
pub enum FrameEvent {
    /// A liveness probe from the client, with the payload to echo.
    Ping(Vec<u8>),
    /// The client's answer to our liveness probe.
    Pong,
    /// A text frame carrying a request.
    Text(Vec<u8>),
    /// A binary frame; the protocol has no use for one.
    Binary,
    /// The client closes the connection.
    Close,
    /// A frame with nothing to act on.
    Nop,
}

/// What the session asks its transport to do after a frame.
pub enum FrameAction {
    /// Echo the probe payload back.
    Pong(Vec<u8>),
    /// Send this text frame to the client.
    Reply(Vec<u8>),
    /// Hand this command to the hardware channel; its outcome is answered
    /// through [`response_for`].
    Dispatch(CURequest),
    /// Close the session.
    Stop,
    /// Nothing to do.
    Nothing,
}

/// What the session does on a heartbeat tick.
#[derive(Clone, Copy, PartialEq, Eq, Structural, Debug)]
pub enum TickAction {
    /// Send a liveness probe to the client.
    Ping,
    /// The client has been silent too long: close the session.
    Stop,
}

/// Whether a session's liveness window has run out at time `now_ms`.
pub open spec fn timed_out(s: Session, now_ms: u64) -> bool {
    now_ms > s.last_seen_ms + CLIENT_TIMEOUT_MS
}

impl Session {
    /// A fresh session for a client that connected at `now_ms`.
    pub fn new(now_ms: u64) -> (s: Session)
        ensures
            s == (Session { last_seen_ms: now_ms, alive: true }),
    {
        Session { last_seen_ms: now_ms, alive: true }
    }

    /// Handles one inbound frame at time `now_ms`.
    ///
    /// Liveness probes and their answers reset the liveness clock; nothing
    /// else touches it. A text frame either dispatches its decoded command
    /// or answers at once with the protocol failure; a binary frame is
    /// rejected; a close frame ends the session. No frame outcome other
    /// than a close changes whether the session runs.
    pub fn on_frame(&mut self, now_ms: u64, ev: FrameEvent) -> (a: FrameAction)
        requires
            old(self).alive,
        ensures
            ({
                let s = *old(self);
                match ev {
                    FrameEvent::Ping(payload) => *final(self) == (Session {
                        last_seen_ms: now_ms,
                        ..s
                    }) && a == FrameAction::Pong(payload),
                    FrameEvent::Pong => *final(self) == (Session { last_seen_ms: now_ms, ..s })
                        && a is Nothing,
                    FrameEvent::Text(text) => *final(self) == s && (match decode_spec(text@) {
                        Some(req) => a == FrameAction::Dispatch(req),
                        None => a matches FrameAction::Reply(r) && (exists|e:
                            crate::codec::ProtocolError|
                            r@ == error_response_bytes(#[trigger] protocol_error_description(e))),
                    }),
                    FrameEvent::Binary => *final(self) == s && (a matches FrameAction::Reply(r)
                        && r@ == error_response_bytes("unexpected binary data".spec_bytes())),
                    FrameEvent::Close => *final(self) == (Session { alive: false, ..s }) && a
                        is Stop,
                    FrameEvent::Nop => *final(self) == s && a is Nothing,
                }
            }),
    {
        match ev {
            FrameEvent::Ping(payload) => {
                self.last_seen_ms = now_ms;
                FrameAction::Pong(payload)
            },
            FrameEvent::Pong => {
                self.last_seen_ms = now_ms;
                FrameAction::Nothing
            },
            FrameEvent::Text(text) => {
                match decode(&text) {
                    Ok(req) => FrameAction::Dispatch(req),
                    Err(e) => {
                        let resp = CUResponse::error(e.describe());
                        FrameAction::Reply(resp.encode())
                    },
                }
            },
            FrameEvent::Binary => {
                proof {
                    reveal_strlit("unexpected binary data");
                    broadcast use vstd::string::is_ascii_spec_bytes;

                    assert(vstd::string::is_ascii("unexpected binary data"));
                }
                let resp = CUResponse::error(crate::codec::lit_vec("unexpected binary data"));
                FrameAction::Reply(resp.encode())
            },
            FrameEvent::Close => {
                self.alive = false;
                FrameAction::Stop
            },
            FrameEvent::Nop => FrameAction::Nothing,
        }
    }

    /// Handles one heartbeat tick at time `now_ms`.
    ///
    /// The session closes exactly when more than the timeout window has
    /// passed since the last sign of life; otherwise a probe goes out and
    /// nothing changes.
    pub fn on_tick(&mut self, now_ms: u64) -> (a: TickAction)
        requires
            old(self).alive,
        ensures
            timed_out(*old(self), now_ms) ==> a == TickAction::Stop && *final(self) == (Session {
                alive: false,
                ..*old(self)
            }),
            !timed_out(*old(self), now_ms) ==> a == TickAction::Ping && *final(self) == *old(self),
    {
        if now_ms >= self.last_seen_ms && now_ms - self.last_seen_ms > CLIENT_TIMEOUT_MS {
            self.alive = false;
            TickAction::Stop
        } else {
            TickAction::Ping
        }
    }
}

/// The text frame answering a finished command: `{"success":true}` when it
/// went through, else the failure's class and description.
pub fn response_for(result: &Result<(), SendError>) -> (r: Vec<u8>)
    ensures
        match result {
            Ok(_) => r@ == success_response_bytes(),
            Err(e) => r@ == error_response_bytes(send_error_description(*e)) && r@.len() > 0,
        },
{
    match result {
        Ok(_) => CUResponse::success().encode(),
        Err(e) => CUResponse::error(e.describe()).encode(),
    }
}

/// Any activity at time `t` holds the session open through every tick in
/// the whole timeout window that follows: the window resets, indefinitely.
pub proof fn lemma_activity_resets_window(s: Session, t: u64, t_tick: u64)
    requires
        s.last_seen_ms == t,
        t_tick <= t + CLIENT_TIMEOUT_MS,
    ensures
        !timed_out(s, t_tick),
{
}

/// A session whose client stays silent past the timeout window is closed by
/// the next tick.
pub proof fn lemma_silence_times_out(s: Session, t_tick: u64)
    requires
        t_tick > s.last_seen_ms + CLIENT_TIMEOUT_MS,
    ensures
        timed_out(s, t_tick),
{
}

} // verus!