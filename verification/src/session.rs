//! A session with a gateway: how it begins, and when it ends.

use crate::crypto::{hex_text, schnorr_signature, sha256};
use crate::identity::Identity;
use crate::protocol::{ClientMessage, Message, ServerMessage};
use crate::state::{AppState, ConnectionStatus, Transport};
use vstd::prelude::*;
use vstd::string::*;

verus! {

/// How often pictures are asked for, in milliseconds.
pub const MEDIA_TICK: u64 = 3_000;

/// The URL that a handshake over a direct connection presents. It names this
/// machine, which is what the other end serves.
pub const QUIC_HANDSHAKE_URL: &'static str = "ws://127.0.0.1/gateway";

/// What comes in over the socket.
pub enum Inbound {
    /// Nothing more will come.
    Ended,
    /// The socket failed.
    Broken(String),
    /// The other end closed it, and perhaps said why.
    Closed(Option<String>),
    /// A message.
    Message(ServerMessage),
    /// A text that is no message, and why.
    Unreadable(String),
    /// Anything else.
    Other,
}

/// What the first frames come to.
#[derive(Debug)]
pub enum Greeting {
    Wait,
    Nonce(String),
    Refused(String),
}

/// Follows a frame before the greeting: the gateway speaks first, and a greeting is
/// all that is accepted. `shown` is the message as it is shown in the complaint.
pub fn greet(frame: Inbound, shown: &str) -> (r: Greeting)
    ensures
        match frame {
            Inbound::Ended => r matches Greeting::Refused(e) && e@ == "server closed before Hello"@,
            Inbound::Closed(_) => r matches Greeting::Refused(e) && e@
                == "server closed before Hello"@,
            Inbound::Broken(why) => r matches Greeting::Refused(e) && e@ == "recv: "@ + why@,
            Inbound::Unreadable(why) => r matches Greeting::Refused(e) && e@
                == "bad server frame before Hello: "@ + why@,
            Inbound::Other => r is Wait,
            Inbound::Message(m) => match m {
                ServerMessage::Hello { nonce } => r == Greeting::Nonce(nonce),
                _ => r matches Greeting::Refused(e) && e@ == "expected Hello, got "@ + shown@,
            },
        },
{
    match frame {
        Inbound::Ended => Greeting::Refused("server closed before Hello".to_owned()),
        Inbound::Closed(_) => Greeting::Refused("server closed before Hello".to_owned()),
        Inbound::Broken(why) => Greeting::Refused("recv: ".to_owned().concat(why.as_str())),
        Inbound::Unreadable(why) => Greeting::Refused(
            "bad server frame before Hello: ".to_owned().concat(why.as_str()),
        ),
        Inbound::Other => Greeting::Wait,
        Inbound::Message(m) => match m {
            ServerMessage::Hello { nonce } => Greeting::Nonce(nonce),
            _ => Greeting::Refused("expected Hello, got ".to_owned().concat(shown)),
        },
    }
}

/// Says who we are: the payload over the greeting is signed by our key.
pub fn identify(
    identity: &Identity,
    username: &str,
    payload: &[u8],
    origin: &str,
    client_version: &str,
) -> (r: ClientMessage)
    ensures
        r matches ClientMessage::Identify {
            username: u,
            pubkey,
            signature,
            origin: o,
            bot,
            client_version: v,
        } && u@ == username@ && pubkey@ == identity.pubkey@ && signature@ == hex_text(
            schnorr_signature(identity.key(), sha256(payload@)),
        ) && o@ == origin@ && !bot && v@ == client_version@,
{
    ClientMessage::Identify {
        username: username.to_owned(),
        pubkey: identity.pubkey.clone(),
        signature: identity.sign_hex(payload),
        origin: origin.to_owned(),
        bot: false,
        client_version: client_version.to_owned(),
    }
}

/// What is done about a frame in a session.
pub enum SessionStep {
    Apply(ServerMessage),
    Skip,
    End,
    Fail(String),
}

/// Follows a frame in a session. A gateway that stops on purpose says so, and that
/// is what is told.
pub fn on_inbound(frame: Inbound) -> (r: SessionStep)
    ensures
        match frame {
            Inbound::Ended => r is End,
            Inbound::Broken(why) => r matches SessionStep::Fail(e) && e@ == "recv: "@ + why@,
            Inbound::Closed(reason) => if reason is Some && reason->Some_0@.len() > 0 {
                r == SessionStep::Fail(reason->Some_0)
            } else {
                r is End
            },
            Inbound::Message(m) => r == SessionStep::Apply(m),
            Inbound::Unreadable(_) => r is Skip,
            Inbound::Other => r is Skip,
        },
{
    match frame {
        Inbound::Ended => SessionStep::End,
        Inbound::Broken(why) => SessionStep::Fail("recv: ".to_owned().concat(why.as_str())),
        Inbound::Closed(Some(reason)) => if reason.as_str().unicode_len() > 0 {
            SessionStep::Fail(reason)
        } else {
            SessionStep::End
        },
        Inbound::Closed(None) => SessionStep::End,
        Inbound::Message(m) => SessionStep::Apply(m),
        Inbound::Unreadable(_) => SessionStep::Skip,
        Inbound::Other => SessionStep::Skip,
    }
}

/// Ends a session: the gateway is gone, and why is told.
pub fn on_end(s: &mut AppState, outcome: Result<(), String>) -> (r: String)
    ensures
        *final(s) == (AppState { status: ConnectionStatus::Disconnected, ..*old(s) }),
        r@ == match outcome {
            Ok(_) => "connection closed"@,
            Err(e) => e@,
        },
{
    s.status = ConnectionStatus::Disconnected;
    match outcome {
        Ok(_) => "connection closed".to_owned(),
        Err(e) => e,
    }
}

/// How a direct connection is reached: through a relay, or not.
pub fn direct_transport(relayed: bool) -> (r: Transport)
    ensures
        r == if relayed {
            Transport::QuicRelayed
        } else {
            Transport::Quic
        },
{
    if relayed {
        Transport::QuicRelayed
    } else {
        Transport::Quic
    }
}

} // verus!
