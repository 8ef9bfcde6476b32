use vstd::prelude::*;

pub mod accessor;
pub mod checker;
pub mod config;
pub mod message;
pub mod scan;
pub mod sender;
pub mod wire;

pub use checker::{PieceCheckerState, PieceState};
pub use config::HandshakerConfig;
pub use message::{
    BitFieldMessage, CancelMessage, HaveMessage, MessageType, PieceMessage, RequestMessage,
};
pub use sender::{ISelectorMessage, PieceSelector, SelectorSender, SplitSender};
pub use wire::{
    IDiskMessage, InfoHash, ODiskMessage, OProtocolMessage, OProtocolMessageKind,
    OSelectorMessage, OSelectorMessageKind, PeerIdentifier, ProtocolError, ProtocolErrorKind,
    WireProtocol, WireState,
};

verus! {

} // verus!
