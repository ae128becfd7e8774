//! The two collections a session owns: the roster of online users, replaced
//! wholesale on every roster update, and the transcript of received chat
//! messages, append-only.

use vstd::prelude::*;

use crate::types::{ChatMessage, ChatMessageV};

verus! {

/// One online user, with the avatar reference derived from the name.
#[derive(Clone, PartialEq, Eq, Debug)]
pub struct UserProfile {
    pub name: String,
    pub avatar: String,
}

/// Mathematical model of a [`UserProfile`].
#[verifier::ext_equal]
pub struct UserProfileV {
    pub name: Seq<char>,
    pub avatar: Seq<char>,
}

impl View for UserProfile {
    type V = UserProfileV;

    open spec fn view(&self) -> UserProfileV {
        UserProfileV { name: self.name@, avatar: self.avatar@ }
    }
}

/// The avatar reference a name determines.
pub open spec fn avatar_of(name: Seq<char>) -> Seq<char> {
    ("https://avatars.dicebear.com/api/adventurer-neutral/")@ + name + (".svg")@
}

/// The profile a name determines: the name itself and its avatar reference.
pub open spec fn profile_of(name: Seq<char>) -> UserProfileV {
    UserProfileV { name: name, avatar: avatar_of(name) }
}

/// Build the avatar reference for a name.
pub fn avatar_for(name: &str) -> (r: String)
    ensures
        r@ == avatar_of(name@),
{
    String::from_str("https://avatars.dicebear.com/api/adventurer-neutral/").concat(name).concat(
        ".svg",
    )
}

/// Build the profile for a name.
pub fn make_profile(name: String) -> (p: UserProfile)
    ensures
        p@ == profile_of(name@),
{
    let avatar = avatar_for(name.as_str());
    UserProfile { name, avatar }
}

/// The current set of online users, in the order the server sent them.
pub struct RosterStore {
    profiles: Vec<UserProfile>,
}

impl View for RosterStore {
    type V = Seq<UserProfileV>;

    closed spec fn view(&self) -> Seq<UserProfileV> {
        Seq::new(self.profiles@.len(), |i: int| self.profiles@[i]@)
    }
}

impl RosterStore {
    /// An empty roster.
    pub fn new() -> (s: Self)
        ensures
            s@.len() == 0,
    {
        RosterStore { profiles: Vec::new() }
    }

    /// Replace the whole roster: one profile per name, in input order, each
    /// the profile its name determines. The outcome depends on the names
    /// alone, never on the roster replaced.
    pub fn replace(&mut self, names: Vec<String>)
        ensures
            final(self)@.len() == names@.len(),
            forall|i: int| 0 <= i < names@.len() ==> final(self)@[i] == profile_of(names@[i]@),
    {
        let mut profiles: Vec<UserProfile> = Vec::new();
        let n = names.len();
        let mut i: usize = 0;
        while i < n
            invariant
                n == names@.len(),
                i <= n,
                profiles@.len() == i,
                forall|k: int| 0 <= k < i ==> profiles@[k]@ == profile_of(names@[k]@),
            decreases n - i,
        {
            let p = make_profile(names[i].clone());
            profiles.push(p);
            i += 1;
        }
        self.profiles = profiles;
    }

    /// Read-only view of the current roster.
    pub fn current(&self) -> (v: &Vec<UserProfile>)
        ensures
            v@.len() == self@.len(),
            forall|i: int| 0 <= i < v@.len() ==> v@[i]@ == self@[i],
    {
        &self.profiles
    }
}

/// The ordered history of received chat messages: append-only, never
/// reordered, deduplicated, or truncated.
pub struct TranscriptStore {
    entries: Vec<ChatMessage>,
}

impl View for TranscriptStore {
    type V = Seq<ChatMessageV>;

    closed spec fn view(&self) -> Seq<ChatMessageV> {
        Seq::new(self.entries@.len(), |i: int| self.entries@[i]@)
    }
}

impl TranscriptStore {
    /// An empty transcript.
    pub fn new() -> (s: Self)
        ensures
            s@.len() == 0,
    {
        TranscriptStore { entries: Vec::new() }
    }

    /// Append one message: every prior entry is unchanged in place and the
    /// new entry stands last.
    pub fn append(&mut self, m: ChatMessage)
        ensures
            final(self)@ == old(self)@.push(m@),
    {
        let ghost pre = self@;
        self.entries.push(m);
        proof {
            assert(self@ =~= pre.push(m@));
        }
    }

    /// Read-only view of the transcript, in arrival order.
    pub fn current(&self) -> (v: &Vec<ChatMessage>)
        ensures
            v@.len() == self@.len(),
            forall|i: int| 0 <= i < v@.len() ==> v@[i]@ == self@[i],
    {
        &self.entries
    }
}

} // verus!
