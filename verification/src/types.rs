//! The data model of the wire protocol: envelope kinds, envelopes, and the
//! nested chat-message payload, together with their mathematical views.

use vstd::prelude::*;

verus! {

/// The closed set of recognized envelope kinds. Unknown kinds on the wire are
/// rejected by the codec, never represented here.
#[derive(Clone, Copy, PartialEq, Eq, Structural, Debug)]
pub enum MsgTypes {
    Users,
    Register,
    Message,
}

/// The unit of wire exchange. `payload_list` carries the full roster for
/// `Users` envelopes; `payload_single` carries the registering username for
/// `Register` and a separately encoded chat-message body for `Message`. The
/// codec tolerates either payload being present or absent for every kind.
#[derive(Clone, PartialEq, Eq, Debug)]
pub struct Envelope {
    pub kind: MsgTypes,
    pub payload_list: Option<Vec<String>>,
    pub payload_single: Option<String>,
}

/// Mathematical model of an [`Envelope`].
#[verifier::ext_equal]
pub struct EnvelopeV {
    pub kind: MsgTypes,
    pub payload_list: Option<Seq<Seq<char>>>,
    pub payload_single: Option<Seq<char>>,
}

impl View for Envelope {
    type V = EnvelopeV;

    open spec fn view(&self) -> EnvelopeV {
        EnvelopeV {
            kind: self.kind,
            payload_list: match self.payload_list {
                Option::Some(l) => Option::Some(l.deep_view()),
                Option::None => Option::None,
            },
            payload_single: match self.payload_single {
                Option::Some(s) => Option::Some(s.view()),
                Option::None => Option::None,
            },
        }
    }
}

/// The nested payload of a `Message` envelope: who said what.
#[derive(Clone, PartialEq, Eq, Debug)]
pub struct ChatMessage {
    pub from: String,
    pub body: String,
}

/// Mathematical model of a [`ChatMessage`].
#[verifier::ext_equal]
pub struct ChatMessageV {
    pub from: Seq<char>,
    pub body: Seq<char>,
}

impl View for ChatMessage {
    type V = ChatMessageV;

    open spec fn view(&self) -> ChatMessageV {
        ChatMessageV { from: self.from@, body: self.body@ }
    }
}

/// A frame's text is not a well-formed envelope, or its kind is unrecognized.
#[derive(Clone, Copy, PartialEq, Eq, Structural, Debug)]
pub struct DecodingError;

/// The payload of a `Message` envelope is not a well-formed chat message.
#[derive(Clone, Copy, PartialEq, Eq, Structural, Debug)]
pub struct NestedDecodingError;

} // verus!
