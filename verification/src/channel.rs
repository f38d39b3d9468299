//! The shared hardware channel: owns the one serial device link, discovers
//! it lazily, forwards encoded commands, and forgets the link on I/O failure
//! so the next command re-runs discovery.
//!
//! The channel is a state machine over plain values. Opening, enumerating
//! and writing are outside work: the caller performs the action this module
//! asks for and hands the outcome back as the next event, holding the device
//! handle itself and serializing calls so at most one send is in flight. All
//! decisions — when to discover, which device to pick, which error class to
//! surface, when to drop the link — are made and proved here.

use crate::codec::{command_message, command_bytes, CURequest};
use vstd::prelude::*;
use vstd::string::StringSliceAdditionalSpecFns;

verus! {

/// The USB vendor id of the LED controller.
pub const CONTROLLER_VID: u16 = 0x0483;

/// The serial line speed the controller expects.
pub const BAUD_RATE: u32 = 115200;

/// Why a command did not reach the device.
#[derive(Clone, Debug)]
pub enum SendError {
    /// No matching device was found, or enumeration itself failed.
    Discovery(Vec<u8>),
    /// A device was found but could not be opened.
    Connection(Vec<u8>),
    /// Writing to the open device failed; the link is dropped.
    Io(Vec<u8>),
    /// The command could not be encoded; the link is kept. The channel
    /// itself never raises this: its encoder is total and proved so. The
    /// class stays so every failure a caller can meet has its place.
    Serialization(Vec<u8>),
}

/// How a failure reads in a response: its class, then the underlying text.
pub open spec fn send_error_description(e: SendError) -> Seq<u8> {
    match e {
        SendError::Discovery(m) => "discovery error: ".spec_bytes() + m@,
        SendError::Connection(m) => "connection error: ".spec_bytes() + m@,
        SendError::Io(m) => "i/o error: ".spec_bytes() + m@,
        SendError::Serialization(m) => "serialization error: ".spec_bytes() + m@,
    }
}

impl SendError {
    /// The human-readable description of this failure; never empty.
    pub fn describe(&self) -> (r: Vec<u8>)
        ensures
            r@ == send_error_description(*self),
            r@.len() > 0,
    {
        let mut out: Vec<u8> = Vec::new();
        match self {
            SendError::Discovery(m) => {
                proof {
                    reveal_strlit("discovery error: ");
                    broadcast use vstd::string::is_ascii_spec_bytes;

                    assert(vstd::string::is_ascii("discovery error: "));
                }
                crate::codec::push_lit(&mut out, "discovery error: ");
                crate::codec::push_bytes(&mut out, m);
            },
            SendError::Connection(m) => {
                proof {
                    reveal_strlit("connection error: ");
                    broadcast use vstd::string::is_ascii_spec_bytes;

                    assert(vstd::string::is_ascii("connection error: "));
                }
                crate::codec::push_lit(&mut out, "connection error: ");
                crate::codec::push_bytes(&mut out, m);
            },
            SendError::Io(m) => {
                proof {
                    reveal_strlit("i/o error: ");
                    broadcast use vstd::string::is_ascii_spec_bytes;

                    assert(vstd::string::is_ascii("i/o error: "));
                }
                crate::codec::push_lit(&mut out, "i/o error: ");
                crate::codec::push_bytes(&mut out, m);
            },
            SendError::Serialization(m) => {
                proof {
                    reveal_strlit("serialization error: ");
                    broadcast use vstd::string::is_ascii_spec_bytes;

                    assert(vstd::string::is_ascii("serialization error: "));
                }
                crate::codec::push_lit(&mut out, "serialization error: ");
                crate::codec::push_bytes(&mut out, m);
            },
        }
        out
    }
}

/// One enumerated serial device: its system name, and the USB vendor id
/// where the device is a USB port.
#[derive(Clone, Debug)]
pub struct PortCandidate {
    pub name: Vec<u8>,
    pub usb_vid: Option<u16>,
}

/// Whether an enumerated device is the controller this system drives.
pub open spec fn is_controller(p: PortCandidate) -> bool {
    p.usb_vid == Some(CONTROLLER_VID)
}

/// Whether some enumerated device is the controller.
pub open spec fn has_controller(ports: Seq<PortCandidate>) -> bool {
    exists|i: int| 0 <= i < ports.len() && is_controller(ports[i])
}

/// The first matching candidate, as discovery picks it.
fn select_port(ports: &Vec<PortCandidate>) -> (r: Option<usize>)
    ensures
        match r {
            Some(i) => i < ports@.len() && is_controller(ports@[i as int]) && (forall|m: int|
                0 <= m < i ==> !is_controller(ports@[m])),
            None => !has_controller(ports@),
        },
{
    let mut k: usize = 0;
    while k < ports.len()
        invariant
            k <= ports@.len(),
            forall|m: int| 0 <= m < k ==> !is_controller(ports@[m]),
        decreases ports@.len() - k,
    {
        let is_match = match ports[k].usb_vid {
            Some(vid) => vid == CONTROLLER_VID,
            None => false,
        };
        if is_match {
            return Some(k);
        }
        k = k + 1;
    }
    None
}

/// The channel's own state: whether a device link is held, and the command
/// whose send is in flight.
#[derive(Clone, Copy, Debug)]
pub struct Channel {
    pub has_handle: bool,
    pub pending: Option<CURequest>,
}

/// What the outside world reports to the channel.
pub enum ChannelEvent {
    /// A client command arrives.
    Submit(CURequest),
    /// Enumeration finished: the devices seen, or why it failed.
    Ports(Result<Vec<PortCandidate>, Vec<u8>>),
    /// Opening the selected device finished.
    Opened(Result<(), Vec<u8>>),
    /// Writing the command bytes finished.
    Wrote(Result<(), Vec<u8>>),
}

/// What the channel asks the outside world to do next.
pub enum ChannelAction {
    /// Enumerate the serial devices.
    Enumerate,
    /// Open the device of this name at [`BAUD_RATE`].
    Open(Vec<u8>),
    /// Write these bytes to the open device.
    Write(Vec<u8>),
    /// The send is over, with this outcome.
    Finish(Result<(), SendError>),
    /// The event does not belong to the running send; nothing to do.
    Nothing,
}

/// Which events belong to the channel's current state.
pub open spec fn expects(c: Channel, ev: ChannelEvent) -> bool {
    match ev {
        ChannelEvent::Submit(_) => c.pending is None,
        ChannelEvent::Ports(_) => c.pending is Some && !c.has_handle,
        ChannelEvent::Opened(_) => c.pending is Some && !c.has_handle,
        ChannelEvent::Wrote(_) => c.pending is Some && c.has_handle,
    }
}

/// The channel's next state: the whole transition relation of the machine.
/// An I/O failure is the one transition that drops the held link.
pub open spec fn step_state(c: Channel, ev: ChannelEvent) -> Channel {
    if !expects(c, ev) {
        c
    } else {
        match ev {
            ChannelEvent::Submit(cmd) => Channel { pending: Some(cmd), ..c },
            ChannelEvent::Ports(r) => match r {
                Ok(ports) => if has_controller(ports@) {
                    c
                } else {
                    Channel { pending: None, ..c }
                },
                Err(_) => Channel { pending: None, ..c },
            },
            ChannelEvent::Opened(r) => match r {
                Ok(_) => Channel { has_handle: true, ..c },
                Err(_) => Channel { pending: None, ..c },
            },
            ChannelEvent::Wrote(r) => match r {
                Ok(_) => Channel { pending: None, ..c },
                Err(_) => Channel { has_handle: false, pending: None },
            },
        }
    }
}

impl Channel {
    /// A fresh channel: no device link held, nothing in flight.
    pub fn new() -> (c: Channel)
        ensures
            c == (Channel { has_handle: false, pending: None }),
    {
        Channel { has_handle: false, pending: None }
    }

    /// Feeds one event to the machine and returns the next action.
    ///
    /// The state moves to `step_state(self, ev)`; the action is pinned for
    /// every case: a submitted command is written at once over a held link
    /// and otherwise starts discovery; enumeration failure or no matching
    /// device finish with a discovery error; open failure finishes with a
    /// connection error; write failure drops the link and finishes with an
    /// I/O error; a write that went through finishes successfully.
    pub fn step(&mut self, ev: ChannelEvent) -> (a: ChannelAction)
        ensures
            *final(self) == step_state(*old(self), ev),
            ({
                let c = *old(self);
                match ev {
                    ChannelEvent::Submit(cmd) => if c.pending is Some {
                        a is Nothing
                    } else if c.has_handle {
                        a matches ChannelAction::Write(bytes) && bytes@ == command_message(cmd)
                    } else {
                        a is Enumerate
                    },
                    ChannelEvent::Ports(r) => if !expects(c, ev) {
                        a is Nothing
                    } else {
                        match r {
                            Ok(ports) => if has_controller(ports@) {
                                a matches ChannelAction::Open(name) && (exists|i: int|
                                    0 <= i < ports@.len() && is_controller(ports@[i]) && (forall|
                                        m: int,
                                    | 0 <= m < i ==> !is_controller(ports@[m])) && name@
                                        == ports@[i].name@)
                            } else {
                                a matches ChannelAction::Finish(out) && out matches Err(e) && (
                                e matches SendError::Discovery(m) && m@
                                    == "no matching usb device found".spec_bytes())
                            },
                            Err(msg) => a == ChannelAction::Finish(
                                Err(SendError::Discovery(msg)),
                            ),
                        }
                    },
                    ChannelEvent::Opened(r) => if !expects(c, ev) {
                        a is Nothing
                    } else {
                        match r {
                            Ok(_) => a matches ChannelAction::Write(bytes) && bytes@
                                == command_message(c.pending->0),
                            Err(msg) => a == ChannelAction::Finish(
                                Err(SendError::Connection(msg)),
                            ),
                        }
                    },
                    ChannelEvent::Wrote(r) => if !expects(c, ev) {
                        a is Nothing
                    } else {
                        match r {
                            Ok(_) => a == ChannelAction::Finish(Ok(())),
                            Err(msg) => a == ChannelAction::Finish(Err(SendError::Io(msg))),
                        }
                    },
                }
            }),
    {
        match ev {
            ChannelEvent::Submit(cmd) => {
                if self.pending.is_some() {
                    ChannelAction::Nothing
                } else {
                    self.pending = Some(cmd);
                    if self.has_handle {
                        ChannelAction::Write(command_bytes(&cmd))
                    } else {
                        ChannelAction::Enumerate
                    }
                }
            },
            ChannelEvent::Ports(r) => {
                if !(self.pending.is_some() && !self.has_handle) {
                    return ChannelAction::Nothing;
                }
                match r {
                    Ok(ports) => match select_port(&ports) {
                        Some(i) => ChannelAction::Open(ports[i].name.clone()),
                        None => {
                            self.pending = None;
                            ChannelAction::Finish(
                                Err(
                                    SendError::Discovery(
                                        crate::codec::lit_vec("no matching usb device found"),
                                    ),
                                ),
                            )
                        },
                    },
                    Err(msg) => {
                        self.pending = None;
                        ChannelAction::Finish(Err(SendError::Discovery(msg)))
                    },
                }
            },
            ChannelEvent::Opened(r) => {
                if !(self.pending.is_some() && !self.has_handle) {
                    return ChannelAction::Nothing;
                }
                match r {
                    Ok(_) => {
                        self.has_handle = true;
                        let cmd = self.pending.unwrap();
                        ChannelAction::Write(command_bytes(&cmd))
                    },
                    Err(msg) => {
                        self.pending = None;
                        ChannelAction::Finish(Err(SendError::Connection(msg)))
                    },
                }
            },
            ChannelEvent::Wrote(r) => {
                if !(self.pending.is_some() && self.has_handle) {
                    return ChannelAction::Nothing;
                }
                match r {
                    Ok(_) => {
                        self.pending = None;
                        ChannelAction::Finish(Ok(()))
                    },
                    Err(msg) => {
                        self.pending = None;
                        self.has_handle = false;
                        ChannelAction::Finish(Err(SendError::Io(msg)))
                    },
                }
            },
        }
    }
}

/// After an I/O failure the link is dropped, and the next submitted command
/// starts with discovery again rather than writing over a stale link.
pub proof fn lemma_io_failure_forces_rediscovery(c: Channel, msg: Vec<u8>, cmd: CURequest)
    requires
        expects(c, ChannelEvent::Wrote(Err(msg))),
    ensures
        !step_state(c, ChannelEvent::Wrote(Err(msg))).has_handle,
        !step_state(
            step_state(c, ChannelEvent::Wrote(Err(msg))),
            ChannelEvent::Submit(cmd),
        ).has_handle,
{
}

/// Discovery and connection failures leave the link absent, so the retry on
/// the next command is idempotent: it starts from the same bare state.
pub proof fn lemma_failed_acquisition_leaves_no_link(c: Channel, msg: Vec<u8>)
    requires
        !c.has_handle,
    ensures
        !step_state(c, ChannelEvent::Ports(Err(msg))).has_handle,
        !step_state(c, ChannelEvent::Opened(Err(msg))).has_handle,
{
}

} // verus!