//! Decisions of the desktop shell's gateway connection: when to send the
//! `connect` request, which requests to refuse, and what each incoming frame
//! leads to. The connection itself (socket, channels, timers) is driven by
//! the host, which performs the actions and reports the events.

use vstd::prelude::*;
use vstd::string::StringExecFns;
use crate::labels::str_eq;

verus! {

/// A frame received from the gateway, as far as the decisions read it.
pub enum IncomingFrame {
    /// `{"type":"event","event":<name>,...}`
    Event { name: String, has_payload: bool },
    /// `{"type":"res","id":<id>,"ok":<ok>,...}`
    Response { id: String, ok: bool },
    /// Anything else, including a response without an id.
    Other,
}

/// What the host does for an incoming frame.
pub struct FrameActions {
    /// Send the `connect` request now (answering the gateway's challenge).
    pub send_connect: bool,
    /// Forward the frame as a gateway event.
    pub emit_event: bool,
    /// Forward its payload as a chat event.
    pub emit_chat: bool,
    /// Forward its payload as an agent event.
    pub emit_agent: bool,
    /// Settle the pending request with this id, with success or failure.
    pub settle: Option<(String, bool)>,
    /// The response answers the handshake: announce the hello and settle
    /// the handshake with success or failure.
    pub hello: Option<bool>,
}

/// What the host does for a request from the shell.
pub enum RequestDecision {
    Send,
    Refuse(String),
}

/// The handshake state of one gateway connection.
pub struct GatewaySession {
    pub connect_sent: bool,
    pub connect_request_id: Option<String>,
}

impl GatewaySession {
    pub fn new() -> (r: GatewaySession)
        ensures
            !r.connect_sent,
            r.connect_request_id is None,
    {
        GatewaySession { connect_sent: false, connect_request_id: None }
    }

    /// The connect timer fired: send `connect` unless it was sent.
    pub fn on_timer(&self) -> (r: bool)
        ensures
            r == !self.connect_sent,
    {
        !self.connect_sent
    }

    /// The `connect` request went out with id `id`.
    pub fn connect_sent_as(&mut self, id: String)
        ensures
            final(self).connect_sent,
            final(self).connect_request_id == Some(id),
    {
        self.connect_sent = true;
        self.connect_request_id = Some(id);
    }

    /// A request from the shell: a second `connect` is refused.
    pub fn on_request(&self, method: &str) -> (r: RequestDecision)
        ensures
            (method@ == "connect"@ && self.connect_sent) <==> r is Refuse,
            r is Refuse ==> r->Refuse_0@ == "gateway connect already in progress"@,
    {
        if str_eq(method, "connect") && self.connect_sent {
            RequestDecision::Refuse(String::from_str("gateway connect already in progress"))
        } else {
            RequestDecision::Send
        }
    }

    /// A request from the shell went out with id `id`: a first `connect`
    /// becomes the handshake.
    pub fn request_sent_as(&mut self, method: &str, id: String)
        ensures
            (old(self).connect_request_id is None && method@ == "connect"@) ==> (
                final(self).connect_sent && final(self).connect_request_id == Some(id)),
            !(old(self).connect_request_id is None && method@ == "connect"@) ==> *final(self) == *old(self),
    {
        if self.connect_request_id.is_none() && str_eq(method, "connect") {
            self.connect_sent = true;
            self.connect_request_id = Some(id);
        }
    }

    /// What an incoming frame leads to.
    pub fn on_frame(&self, frame: &IncomingFrame) -> (r: FrameActions)
        ensures
            match frame {
                IncomingFrame::Event { name, has_payload } => {
                    let challenge = name@ == "connect.challenge"@ && !self.connect_sent;
                    &&& r.send_connect == challenge
                    &&& r.emit_event == !challenge
                    &&& r.emit_chat == (!challenge && name@ == "chat"@ && *has_payload)
                    &&& r.emit_agent == (!challenge && name@ == "agent"@ && *has_payload)
                    &&& r.settle is None
                    &&& r.hello is None
                },
                IncomingFrame::Response { id, ok } => {
                    &&& !r.send_connect && !r.emit_event && !r.emit_chat && !r.emit_agent
                    &&& r.settle is Some && r.settle->Some_0.0@ == id@ && r.settle->Some_0.1 == *ok
                    &&& r.hello == (match self.connect_request_id {
                        Some(c) => if c@ == id@ { Some(*ok) } else { None::<bool> },
                        None => None::<bool>,
                    })
                },
                IncomingFrame::Other => {
                    &&& !r.send_connect && !r.emit_event && !r.emit_chat && !r.emit_agent
                    &&& r.settle is None && r.hello is None
                },
            },
    {
        match frame {
            IncomingFrame::Event { name, has_payload } => {
                let challenge = str_eq(name.as_str(), "connect.challenge") && !self.connect_sent;
                FrameActions {
                    send_connect: challenge,
                    emit_event: !challenge,
                    emit_chat: !challenge && str_eq(name.as_str(), "chat") && *has_payload,
                    emit_agent: !challenge && str_eq(name.as_str(), "agent") && *has_payload,
                    settle: None,
                    hello: None,
                }
            },
            IncomingFrame::Response { id, ok } => {
                let hello = match &self.connect_request_id {
                    Some(c) => if str_eq(c.as_str(), id.as_str()) { Some(*ok) } else { None },
                    None => None,
                };
                FrameActions {
                    send_connect: false,
                    emit_event: false,
                    emit_chat: false,
                    emit_agent: false,
                    settle: Some((id.clone(), *ok)),
                    hello,
                }
            },
            IncomingFrame::Other => FrameActions {
                send_connect: false,
                emit_event: false,
                emit_chat: false,
                emit_agent: false,
                settle: None,
                hello: None,
            },
        }
    }
}

} // verus!
