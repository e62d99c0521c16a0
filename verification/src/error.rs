//! The transport's error taxonomy. Some variants are fatal to the
//! connection, some travel to one caller as an item of its stream.

use vstd::prelude::*;

use crate::chain::ChainId;

verus! {

/// A structured error the server embeds in an error frame body.
#[derive(Clone, Debug)]
pub struct ResponseError {
    pub code: String,
    pub message: String,
}

/// Everything that can go wrong between a caller and the socket.
#[derive(Clone, Debug)]
pub enum WsError {
    /// The worker task is gone; no further requests are possible.
    BackendShutDown,
    /// No inbound traffic for longer than the read-idle limit; fatal.
    PingTimeout,
    /// The peer closed the socket mid-stream; fatal.
    UnexpectedClose,
    /// A socket message type the protocol never uses; fatal.
    UnexpectedMessage,
    /// A malformed inbound frame; per item.
    UnexpectedMessageFormat,
    /// A structured server error; per item.
    ErrorResponse(ResponseError),
    /// A plain-text server error; per item.
    ErrorMsg(String),
    /// A Fuel query named a chain outside the Fuel family; synchronous.
    InvalidChainId(Vec<ChainId>),
    /// An underlying transport failure, carried as text; fatal.
    Transport(String),
    /// An internal invariant failed; fatal.
    Custom(String),
    /// An event tag outside the known set.
    UnknownEventType(i32),
    /// An order side outside the known set.
    UnknownSide(i32),
}

/// The short name of an error variant, as fanned out to live callers on a
/// fatal failure.
pub open spec fn error_name(e: WsError) -> Seq<char> {
    match e {
        WsError::BackendShutDown => "BackendShutDown"@,
        WsError::PingTimeout => "PingTimeout"@,
        WsError::UnexpectedClose => "UnexpectedClose"@,
        WsError::UnexpectedMessage => "UnexpectedMessage"@,
        WsError::UnexpectedMessageFormat => "UnexpectedMessageFormat"@,
        WsError::ErrorResponse(_) => "ErrorResponse"@,
        WsError::ErrorMsg(s) => s@,
        WsError::InvalidChainId(_) => "InvalidChainId"@,
        WsError::Transport(s) => s@,
        WsError::Custom(s) => s@,
        WsError::UnknownEventType(_) => "UnknownEventType"@,
        WsError::UnknownSide(_) => "UnknownSide"@,
    }
}

impl WsError {
    /// The text a fatal fan-out carries for this error.
    pub fn describe(&self) -> (r: String)
        ensures
            r@ == error_name(*self),
    {
        match self {
            WsError::BackendShutDown => String::from_str("BackendShutDown"),
            WsError::PingTimeout => String::from_str("PingTimeout"),
            WsError::UnexpectedClose => String::from_str("UnexpectedClose"),
            WsError::UnexpectedMessage => String::from_str("UnexpectedMessage"),
            WsError::UnexpectedMessageFormat => String::from_str("UnexpectedMessageFormat"),
            WsError::ErrorResponse(_) => String::from_str("ErrorResponse"),
            WsError::ErrorMsg(s) => s.clone(),
            WsError::InvalidChainId(_) => String::from_str("InvalidChainId"),
            WsError::Transport(s) => s.clone(),
            WsError::Custom(s) => s.clone(),
            WsError::UnknownEventType(_) => String::from_str("UnknownEventType"),
            WsError::UnknownSide(_) => String::from_str("UnknownSide"),
        }
    }
}

} // verus!
