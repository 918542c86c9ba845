//! The values that travel over the connection, and their mathematical views.

use vstd::prelude::*;

verus! {

/// Why an operation on a session failed.
#[derive(Debug, Clone, Copy, PartialEq, Eq, Structural)]
pub enum SessionError {
    /// The transport could not be established; no session exists.
    Connection,
    /// A read or write on an established connection failed.
    Transport,
    /// An inbound text payload is not a server message.
    Parse,
    /// An outbound payload could not be encoded.
    Serialization,
    /// The operation is not valid in the session's current state.
    State,
}

/// The parameters a session is opened with.
#[derive(Debug, Clone, PartialEq, Eq)]
pub struct StartCfg {
    pub language: Option<String>,
    pub task: String,
    pub beam_size: u32,
}

/// A session configuration as mathematical data.
pub struct StartCfgView {
    pub language: Option<Seq<char>>,
    pub task: Seq<char>,
    pub beam_size: u32,
}

impl View for StartCfg {
    type V = StartCfgView;

    open spec fn view(&self) -> StartCfgView {
        StartCfgView {
            language: match self.language {
                Some(l) => Some(l@),
                None => None,
            },
            task: self.task@,
            beam_size: self.beam_size,
        }
    }
}

/// A transcript message sent by the service.
#[derive(Debug, Clone, PartialEq, Eq)]
pub enum ServerMsg {
    /// A tentative transcript of the audio received so far.
    Partial { text: String },
    /// A settled transcript segment.
    Final { text: String },
}

/// A server message as mathematical data.
pub enum ServerMsgView {
    Partial { text: Seq<char> },
    Final { text: Seq<char> },
}

impl View for ServerMsg {
    type V = ServerMsgView;

    open spec fn view(&self) -> ServerMsgView {
        match self {
            ServerMsg::Partial { text } => ServerMsgView::Partial { text: text@ },
            ServerMsg::Final { text } => ServerMsgView::Final { text: text@ },
        }
    }
}

/// One outbound protocol frame.
#[derive(Debug, Clone, PartialEq, Eq)]
pub enum Frame {
    /// A text frame holding a JSON document.
    Text(String),
    /// A binary frame holding raw audio bytes.
    Binary(Vec<u8>),
}

/// An outbound frame as mathematical data.
pub enum FrameView {
    Text(Seq<char>),
    Binary(Seq<u8>),
}

impl View for Frame {
    type V = FrameView;

    open spec fn view(&self) -> FrameView {
        match self {
            Frame::Text(t) => FrameView::Text(t@),
            Frame::Binary(b) => FrameView::Binary(b@),
        }
    }
}

} // verus!
