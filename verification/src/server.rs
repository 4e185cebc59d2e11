//! The server's decisions about what arrives from the transport, and the traits that connect
//! a transport and a packet handler to it.
use vstd::prelude::*;
use vstd::string::StringExecFns;

verus! {

/// Turns a handler description (such as an application builder) into the handler that
/// serves packets, given the link's MTU when the transport knows it.
pub trait IntoHandler<Handler, Endpoint> {
    fn into_handler(self, mtu: Option<u32>) -> Handler;
}

/// A bound transport that carries framed packets to and from `Endpoint`s.
pub trait FramedBinding<Endpoint> {
    /// The link's MTU, when the link can tell it.
    fn mtu(&self) -> Option<u32>;
}

/// Error reported by an I/O layer that has nothing more specific to say.
#[derive(Debug, Copy, Clone, PartialEq, Eq, Structural)]
pub enum IoError {
    Undefined,
}

impl IoError {
    /// The error's description.
    pub fn describe(&self) -> (r: String)
        ensures
            r@ == "Undefined error!"@,
    {
        String::from_str("Undefined error!")
    }
}

/// Fatal error that stops the server: a fault of the server itself, or a transport error
/// not tied to any peer (of type `T`).
#[derive(Debug)]
pub enum FatalServerError<T> {
    InternalError(String),
    Transport(T),
}

/// What the server does with an event from the transport.
#[derive(Debug)]
pub enum RxAction<Item, E> {
    /// A packet arrived: handle it.
    Handle(Item),
    /// A read failed for one peer: the server carries on.
    Continue(E),
    /// A read failed with no peer to blame: the transport is unusable and the server stops.
    Fatal(E),
}

/// Decides what to do with a transport event: a packet is handled; an error tied to a peer is
/// only that peer's problem; an error tied to no peer is fatal.
pub fn classify_rx_event<Item, E, Endpoint>(event: Result<Item, (E, Option<Endpoint>)>) -> (r: RxAction<Item, E>)
    ensures
        match event {
            Ok(item) => r == RxAction::<Item, E>::Handle(item),
            Err((e, Some(_))) => r == RxAction::<Item, E>::Continue(e),
            Err((e, None)) => r == RxAction::<Item, E>::Fatal(e),
        },
{
    match event {
        Ok(item) => RxAction::Handle(item),
        Err((e, Some(_))) => RxAction::Continue(e),
        Err((e, None)) => RxAction::Fatal(e),
    }
}

/// The handler the server serves with, or the internal error "handler not set" when serving
/// has not begun.
pub fn require_handler<H, T>(handler: Option<&H>) -> (r: Result<&H, FatalServerError<T>>)
    ensures
        match handler {
            Some(h) => r == Ok::<&H, FatalServerError<T>>(h),
            None => r matches Err(FatalServerError::InternalError(m)) && m@ == "handler not set"@,
        },
{
    match handler {
        Some(h) => Ok(h),
        None => Err(FatalServerError::InternalError(String::from_str("handler not set"))),
    }
}

} // verus!
