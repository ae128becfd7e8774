//! The chat session engine: owns the roster and the transcript, consumes
//! decoded envelopes delivered by the external transport, and builds outgoing
//! envelopes for user actions.
//!
//! The engine is purely a state machine over plain values. The surrounding
//! application performs the actual sends: every outgoing frame is returned as
//! text, and every inbound frame arrives as text. No malformed frame ever
//! aborts a session; the engine drops it and reports the error so the caller
//! can log it.

use vstd::prelude::*;

use crate::classify::{classify, spec_classify, RenderCategory};
use crate::codec::{decode, decode_chat, encode};
use crate::store::{avatar_for, avatar_of, profile_of, RosterStore, TranscriptStore};
use crate::types::{ChatMessageV, Envelope, EnvelopeV, MsgTypes};
use crate::wire::{spec_decode_chat, spec_decode_envelope, spec_encode_envelope};

verus! {

/// An event the engine handles: an inbound frame's text, or the user
/// submitting a message body.
pub enum Msg {
    HandleMsg(String),
    SubmitMessage(String),
}

/// Why an inbound frame was dropped.
#[derive(Clone, Copy, PartialEq, Eq, Structural, Debug)]
pub enum FrameError {
    /// The outer envelope was malformed or of unrecognized kind.
    Malformed,
    /// The nested chat-message payload was absent or malformed.
    MalformedNested,
}

/// What one engine step did: whether the presentation layer must re-render,
/// the frame text to hand to the outbound channel, if any, and the error to
/// log, if any.
pub struct UpdateResult {
    pub rerender: bool,
    pub outbound: Option<String>,
    pub error: Option<FrameError>,
}

/// The session state: who is online and what has been said.
pub struct Chat {
    pub users: RosterStore,
    pub messages: TranscriptStore,
}

/// Mathematical model of a [`Chat`] session.
#[verifier::ext_equal]
pub struct ChatV {
    pub users: Seq<crate::store::UserProfileV>,
    pub messages: Seq<ChatMessageV>,
}

impl View for Chat {
    type V = ChatV;

    open spec fn view(&self) -> ChatV {
        ChatV { users: self.users@, messages: self.messages@ }
    }
}

/// The `Register` envelope announcing a username.
pub open spec fn register_envelope(name: Seq<char>) -> EnvelopeV {
    EnvelopeV {
        kind: MsgTypes::Register,
        payload_list: Option::None,
        payload_single: Option::Some(name),
    }
}

/// The `Message` envelope carrying a submitted body. The sender is filled in
/// by the server, so the client places the raw text alone.
pub open spec fn message_envelope(body: Seq<char>) -> EnvelopeV {
    EnvelopeV {
        kind: MsgTypes::Message,
        payload_list: Option::None,
        payload_single: Option::Some(body),
    }
}

/// The names a `Users` payload carries: its list, or no names when absent.
pub open spec fn names_of(pl: Option<Seq<Seq<char>>>) -> Seq<Seq<char>> {
    match pl {
        Option::Some(l) => l,
        Option::None => Seq::empty(),
    }
}

/// The roster holds exactly the profiles of `names`, in order.
pub open spec fn roster_is(users: Seq<crate::store::UserProfileV>, names: Seq<Seq<char>>) -> bool {
    &&& users.len() == names.len()
    &&& forall|i: int| 0 <= i < names.len() ==> users[i] == profile_of(names[i])
}

/// How one inbound frame changes the session. A malformed frame, a malformed
/// nested payload, and an inbound `Register` all leave the session unchanged;
/// a `Users` envelope replaces the roster; a well-formed `Message` envelope
/// appends its chat message to the transcript.
pub open spec fn frame_step(
    pre: ChatV,
    post: ChatV,
    dec: Option<EnvelopeV>,
    rerender: bool,
    error: Option<FrameError>,
) -> bool {
    match dec {
        Option::None => post == pre && !rerender && error == Option::Some(FrameError::Malformed),
        Option::Some(env) => match env.kind {
            MsgTypes::Users => {
                &&& post.messages == pre.messages
                &&& roster_is(post.users, names_of(env.payload_list))
                &&& rerender
                &&& error is None
            },
            MsgTypes::Register => post == pre && !rerender && error is None,
            MsgTypes::Message => match env.payload_single {
                Option::None => post == pre && !rerender && error == Option::Some(
                    FrameError::MalformedNested,
                ),
                Option::Some(p) => match spec_decode_chat(p) {
                    Option::None => post == pre && !rerender && error == Option::Some(
                        FrameError::MalformedNested,
                    ),
                    Option::Some(cm) => {
                        &&& post.users == pre.users
                        &&& post.messages == pre.messages.push(cm)
                        &&& rerender
                        &&& error is None
                    },
                },
            },
        },
    }
}

/// One transcript entry prepared for presentation: the sender, the body, the
/// avatar derived from the sender's name, whether the sender is currently on
/// the roster, and the rendering category of the body. A sender missing from
/// the roster still renders, with the derived avatar as the placeholder.
pub struct RenderedMessage {
    pub from: String,
    pub body: String,
    pub avatar: String,
    pub known_user: bool,
    pub category: RenderCategory,
}

impl Chat {
    /// Start a session for a user: empty roster, empty transcript, and the
    /// encoded `Register` frame to hand to the outbound channel.
    pub fn create(username: &str) -> (r: (Chat, String))
        ensures
            r.0@.users.len() == 0,
            r.0@.messages.len() == 0,
            r.1@ == spec_encode_envelope(register_envelope(username@)),
    {
        let env = Envelope {
            kind: MsgTypes::Register,
            payload_list: Option::None,
            payload_single: Option::Some(String::from_str(username)),
        };
        let frame = encode(&env);
        let chat = Chat { users: RosterStore::new(), messages: TranscriptStore::new() };
        (chat, frame)
    }

    /// Handle one inbound frame as [`frame_step`] prescribes. Never sends.
    pub fn handle_frame(&mut self, text: &str) -> (r: UpdateResult)
        ensures
            frame_step(old(self)@, final(self)@, spec_decode_envelope(text@), r.rerender, r.error),
            r.outbound is None,
    {
        match decode(text) {
            Result::Err(_) => UpdateResult {
                rerender: false,
                outbound: Option::None,
                error: Option::Some(FrameError::Malformed),
            },
            Result::Ok(env) => {
                match env.kind {
                    MsgTypes::Users => {
                        let names = match env.payload_list {
                            Option::Some(l) => l,
                            Option::None => Vec::new(),
                        };
                        self.users.replace(names);
                        UpdateResult {
                            rerender: true,
                            outbound: Option::None,
                            error: Option::None,
                        }
                    },
                    MsgTypes::Register => UpdateResult {
                        rerender: false,
                        outbound: Option::None,
                        error: Option::None,
                    },
                    MsgTypes::Message => {
                        match env.payload_single {
                            Option::None => UpdateResult {
                                rerender: false,
                                outbound: Option::None,
                                error: Option::Some(FrameError::MalformedNested),
                            },
                            Option::Some(p) => {
                                match decode_chat(p.as_str()) {
                                    Result::Err(_) => UpdateResult {
                                        rerender: false,
                                        outbound: Option::None,
                                        error: Option::Some(FrameError::MalformedNested),
                                    },
                                    Result::Ok(cm) => {
                                        self.messages.append(cm);
                                        UpdateResult {
                                            rerender: true,
                                            outbound: Option::None,
                                            error: Option::None,
                                        }
                                    },
                                }
                            },
                        }
                    },
                }
            },
        }
    }

    /// Build the outbound frame for a submitted message body. The session
    /// state does not change; the transcript grows only when the server echoes
    /// the message back.
    pub fn submit_message(&self, text: &str) -> (frame: String)
        ensures
            frame@ == spec_encode_envelope(message_envelope(text@)),
    {
        let env = Envelope {
            kind: MsgTypes::Message,
            payload_list: Option::None,
            payload_single: Option::Some(String::from_str(text)),
        };
        encode(&env)
    }

    /// Dispatch one event: an inbound frame mutates the stores as
    /// [`frame_step`] prescribes; a submission leaves them unchanged and
    /// yields the frame to send.
    pub fn update(&mut self, msg: Msg) -> (r: UpdateResult)
        ensures
            match msg {
                Msg::HandleMsg(s) => frame_step(
                    old(self)@,
                    final(self)@,
                    spec_decode_envelope(s@),
                    r.rerender,
                    r.error,
                ) && r.outbound is None,
                Msg::SubmitMessage(t) => final(self)@ == old(self)@ && !r.rerender && r.error
                    is None && (match r.outbound {
                    Option::Some(f) => f@ == spec_encode_envelope(message_envelope(t@)),
                    Option::None => false,
                }),
            },
    {
        match msg {
            Msg::HandleMsg(s) => self.handle_frame(s.as_str()),
            Msg::SubmitMessage(t) => {
                let frame = self.submit_message(t.as_str());
                UpdateResult {
                    rerender: false,
                    outbound: Option::Some(frame),
                    error: Option::None,
                }
            },
        }
    }

    /// Whether some roster entry carries this name.
    fn roster_has(&self, name: &String) -> (r: bool)
        ensures
            r == exists|i: int| 0 <= i < self@.users.len() && self@.users[i].name == name@,
    {
        let profiles = self.users.current();
        let n = profiles.len();
        let mut i: usize = 0;
        while i < n
            invariant
                n == profiles@.len(),
                n == self@.users.len(),
                i <= n,
                forall|k: int| 0 <= k < n ==> profiles@[k]@ == self@.users[k],
                forall|k: int| 0 <= k < i ==> self@.users[k].name != name@,
            decreases n - i,
        {
            if profiles[i].name.eq(name) {
                proof {
                    assert(self@.users[i as int].name == name@);
                }
                return true;
            }
            i += 1;
        }
        false
    }

    /// Prepare one transcript entry for presentation: look the sender up on
    /// the roster, derive the avatar from the sender's name, and classify the
    /// body. Total and deterministic; a sender who already left the roster
    /// yields `known_user == false` with the same derived avatar.
    pub fn render_entry(&self, idx: usize) -> (r: RenderedMessage)
        requires
            idx < self@.messages.len(),
        ensures
            r.from@ == self@.messages[idx as int].from,
            r.body@ == self@.messages[idx as int].body,
            r.avatar@ == avatar_of(self@.messages[idx as int].from),
            r.known_user == exists|i: int|
                0 <= i < self@.users.len() && self@.users[i].name == self@.messages[idx as int].from,
            r.category == spec_classify(self@.messages[idx as int].body),
    {
        let entries = self.messages.current();
        let m = &entries[idx];
        let known_user = self.roster_has(&m.from);
        let avatar = avatar_for(m.from.as_str());
        let category = classify(m.body.as_str());
        RenderedMessage {
            from: m.from.clone(),
            body: m.body.clone(),
            avatar,
            known_user,
            category,
        }
    }
}

} // verus!
