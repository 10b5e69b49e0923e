use vstd::prelude::*;
use vstd::string::*;

use crate::codec::{decode, decode_chat_message, decode_chat_model, decode_model, encode_model};
use crate::outbound::{message_envelope, message_text, register_envelope, register_text};
use crate::protocol::{
    ChatError, ChatMessage, Envelope, EnvelopeModel, MessageModel, MsgTypes, ProfileModel,
    UserProfile,
};

verus! {

/// The avatar URL of a user: the name embedded verbatim in the avatar service's template.
pub open spec fn avatar_url(name: Seq<char>) -> Seq<char> {
    "https://avatars.dicebear.com/api/adventurer-neutral/"@ + name + ".svg"@
}

pub open spec fn profile_of(name: Seq<char>) -> ProfileModel {
    ProfileModel { name, avatar: avatar_url(name) }
}

/// The roster for a list of names, in the same order.
pub open spec fn roster_of(names: Seq<Seq<char>>) -> Seq<ProfileModel> {
    names.map_values(|n: Seq<char>| profile_of(n))
}

/// The session state: who is connected, and what has been said.
pub struct ChatState {
    pub users: Seq<ProfileModel>,
    pub messages: Seq<MessageModel>,
}

/// The effect of one received envelope: the next state and whether it changed,
/// or the reason it was not applied.
pub open spec fn apply_model(st: ChatState, e: EnvelopeModel) -> Result<(ChatState, bool), ChatError> {
    match e.message_type {
        MsgTypes::Users => {
            let names = match e.data_array {
                Some(l) => l,
                None => Seq::empty(),
            };
            Ok((ChatState { users: roster_of(names), messages: st.messages }, true))
        },
        MsgTypes::Message => match e.data {
            Some(d) => match decode_chat_model(d) {
                Some(m) => Ok((ChatState { users: st.users, messages: st.messages.push(m) }, true)),
                None => Err(ChatError::MalformedPayload),
            },
            None => Err(ChatError::MalformedPayload),
        },
        MsgTypes::Register => Ok((st, false)),
    }
}

/// The effect of one received wire text.
pub open spec fn handle_model(st: ChatState, text: Seq<char>) -> Result<(ChatState, bool), ChatError> {
    match decode_model(text) {
        Some(e) => apply_model(st, e),
        None => Err(ChatError::MalformedEnvelope),
    }
}

/// The state after one envelope: a rejected envelope leaves it as it was.
pub open spec fn step(st: ChatState, e: EnvelopeModel) -> ChatState {
    match apply_model(st, e) {
        Ok((next, _)) => next,
        Err(_) => st,
    }
}

/// The state after a stream of envelopes, applied in order.
pub open spec fn run(st: ChatState, es: Seq<EnvelopeModel>) -> ChatState
    decreases es.len(),
{
    if es.len() == 0 {
        st
    } else {
        run(step(st, es[0]), es.skip(1))
    }
}

/// The state after one wire text: a rejected text leaves it as it was.
pub open spec fn step_text(st: ChatState, text: Seq<char>) -> ChatState {
    match handle_model(st, text) {
        Ok((next, _)) => next,
        Err(_) => st,
    }
}

/// The state after a stream of wire texts, handled in order.
pub open spec fn run_texts(st: ChatState, ts: Seq<Seq<char>>) -> ChatState
    decreases ts.len(),
{
    if ts.len() == 0 {
        st
    } else {
        run_texts(step_text(st, ts[0]), ts.skip(1))
    }
}

/// The chat line that a valid `Message` envelope carries.
pub open spec fn carried_message(e: EnvelopeModel) -> MessageModel {
    decode_chat_model(e.data->0)->0
}

/// Roster replacement: after any non-empty stream of well-formed `Users` envelopes,
/// the roster is exactly the names of the last one, each with its avatar URL, and
/// nothing of earlier rosters remains. The history is untouched.
pub proof fn law_roster_is_latest(st: ChatState, es: Seq<EnvelopeModel>)
    requires
        es.len() > 0,
        forall|i: int| 0 <= i < es.len() ==> (#[trigger] es[i]).message_type == MsgTypes::Users && es[i].wf(),
    ensures
        run(st, es).users == roster_of(es[es.len() - 1].data_array->0),
        run(st, es).messages == st.messages,
    decreases es.len(),
{
    let next = step(st, es[0]);
    let rest = es.skip(1);
    assert(es[0].message_type == MsgTypes::Users && es[0].wf());
    assert(run(st, es) == run(next, rest));
    assert(next.users == roster_of(es[0].data_array->0));
    if es.len() > 1 {
        assert forall|i: int| 0 <= i < rest.len() implies (#[trigger] rest[i]).message_type
            == MsgTypes::Users && rest[i].wf() by {
            assert(rest[i] == es[i + 1]);
        }
        law_roster_is_latest(next, rest);
        assert(rest[rest.len() - 1] == es[es.len() - 1]);
    } else {
        assert(rest.len() == 0);
        assert(run(next, rest) == next);
    }
}

/// History append: after any stream of `Message` envelopes whose payloads are valid
/// chat lines, the history is the earlier history followed by those lines, one per
/// envelope, in receipt order. The roster is untouched.
pub proof fn law_history_appends(st: ChatState, es: Seq<EnvelopeModel>)
    requires
        forall|i: int|
            0 <= i < es.len() ==> (#[trigger] es[i]).message_type == MsgTypes::Message
                && es[i].data is Some && decode_chat_model(es[i].data->0) is Some,
    ensures
        run(st, es).messages == st.messages + es.map_values(|e: EnvelopeModel| carried_message(e)),
        run(st, es).messages.len() == st.messages.len() + es.len(),
        run(st, es).users == st.users,
    decreases es.len(),
{
    if es.len() == 0 {
        assert(st.messages + es.map_values(|e: EnvelopeModel| carried_message(e)) =~= st.messages);
    } else {
        let next = step(st, es[0]);
        let rest = es.skip(1);
        assert(es[0].message_type == MsgTypes::Message);
        assert(next.messages == st.messages.push(carried_message(es[0])));
        assert forall|i: int| 0 <= i < rest.len() implies (#[trigger] rest[i]).message_type
            == MsgTypes::Message && rest[i].data is Some && decode_chat_model(rest[i].data->0) is Some by {
            assert(rest[i] == es[i + 1]);
        }
        law_history_appends(next, rest);
        assert(st.messages + es.map_values(|e: EnvelopeModel| carried_message(e)) =~= next.messages
            + rest.map_values(|e: EnvelopeModel| carried_message(e)));
    }
}

/// Resilience: a text that is not an envelope is dropped without effect, so the
/// texts before and after it are handled exactly as if it had never arrived.
pub proof fn law_malformed_skipped(
    st: ChatState,
    before: Seq<Seq<char>>,
    bad: Seq<char>,
    after: Seq<Seq<char>>,
)
    requires
        decode_model(bad) is None,
    ensures
        run_texts(st, before + seq![bad] + after) == run_texts(st, before + after),
    decreases before.len(),
{
    if before.len() == 0 {
        assert(before + seq![bad] + after =~= seq![bad] + after);
        assert(before + after =~= after);
        assert((seq![bad] + after).skip(1) =~= after);
    } else {
        let next = step_text(st, before[0]);
        law_malformed_skipped(next, before.skip(1), bad, after);
        assert((before + seq![bad] + after).skip(1) =~= before.skip(1) + seq![bad] + after);
        assert((before + after).skip(1) =~= before.skip(1) + after);
    }
}

/// What the caller does after an update.
pub struct Outcome {
    /// The state changed, so views of it are stale.
    pub rerender: bool,
    /// Wire text to send over the connection; a failed send is not retried.
    pub send: Option<String>,
    /// Empty the input field.
    pub clear_input: bool,
    /// Why a received text was dropped.
    pub error: Option<ChatError>,
}

/// Events that drive a chat view.
pub enum Msg {
    /// A wire text received from the connection.
    HandleMsg(String),
    /// The local user submitted the text of the input field.
    SubmitMessage(String),
}

/// The roster and message history of a chat session.
pub struct Chat {
    users: Vec<UserProfile>,
    messages: Vec<ChatMessage>,
}

impl View for Chat {
    type V = ChatState;

    closed spec fn view(&self) -> ChatState {
        ChatState {
            users: self.users@.map_values(|u: UserProfile| u@),
            messages: self.messages@.map_values(|m: ChatMessage| m@),
        }
    }
}

/// Builds the avatar URL of a user.
pub fn avatar_for(name: &str) -> (r: String)
    ensures
        r@ == avatar_url(name@),
{
    let mut out = String::from_str("https://avatars.dicebear.com/api/adventurer-neutral/");
    out.append(name);
    out.append(".svg");
    out
}

/// A message that names a GIF is shown as that image rather than as text.
pub open spec fn names_gif(message: Seq<char>) -> bool {
    message.len() >= 4 && message.subrange(message.len() - 4, message.len() as int) == ".gif"@
}

/// Whether a message is shown as an image.
pub fn shows_as_image(message: &str) -> (r: bool)
    ensures
        r == names_gif(message@),
{
    proof {
        reveal_strlit(".gif");
    }
    let n = message.unicode_len();
    if n < 4 {
        return false;
    }
    let tail = message.substring_char(n - 4, n);
    crate::json::same_text(tail, ".gif")
}

/// Builds the roster for a list of names, in the same order.
pub fn roster_from(names: &Vec<String>) -> (r: Vec<UserProfile>)
    ensures
        r@.map_values(|u: UserProfile| u@) == roster_of(crate::protocol::strings_view(names@)),
{
    let mut out: Vec<UserProfile> = Vec::new();
    let mut k: usize = 0;
    while k < names.len()
        invariant
            k <= names@.len(),
            out@.len() == k,
            forall|t: int| 0 <= t < k ==> (#[trigger] out@[t])@ == profile_of(names@[t]@),
        decreases names@.len() - k,
    {
        let name = &names[k];
        let avatar = avatar_for(name.as_str());
        out.push(UserProfile { name: name.clone(), avatar });
        k = k + 1;
    }
    assert(out@.map_values(|u: UserProfile| u@) =~= roster_of(crate::protocol::strings_view(names@)));
    out
}

impl Chat {
    /// A session with nobody connected and nothing said.
    pub fn new() -> (r: Chat)
        ensures
            r@.users == Seq::<ProfileModel>::empty(),
            r@.messages == Seq::<MessageModel>::empty(),
    {
        let r = Chat { users: Vec::new(), messages: Vec::new() };
        assert(r@.users =~= Seq::<ProfileModel>::empty());
        assert(r@.messages =~= Seq::<MessageModel>::empty());
        r
    }

    /// Starts a session: empty state, and the wire text that registers the local
    /// user. Sending it is fire-and-forget: a failed send is not retried.
    pub fn create(username: &str) -> (r: (Chat, String))
        ensures
            r.0@.users == Seq::<ProfileModel>::empty(),
            r.0@.messages == Seq::<MessageModel>::empty(),
            r.1@ == encode_model(register_envelope(username@)),
    {
        (Chat::new(), register_text(username))
    }

    /// The connected users, in the order of the latest roster.
    pub fn users(&self) -> (r: &Vec<UserProfile>)
        ensures
            r@.map_values(|u: UserProfile| u@) == self@.users,
    {
        &self.users
    }

    /// The messages received so far, in order of receipt.
    pub fn messages(&self) -> (r: &Vec<ChatMessage>)
        ensures
            r@.map_values(|m: ChatMessage| m@) == self@.messages,
    {
        &self.messages
    }

    /// Applies a received envelope; one that is rejected leaves the state unchanged.
    /// `Ok(true)` when the state changed, `Ok(false)` for an envelope that carries
    /// nothing for this client.
    pub fn apply(&mut self, e: &Envelope) -> (r: Result<bool, ChatError>)
        ensures
            match apply_model(old(self)@, e@) {
                Ok((next, changed)) => r == Ok::<bool, ChatError>(changed) && final(self)@ == next,
                Err(x) => r == Err::<bool, ChatError>(x) && final(self)@ == old(self)@,
            },
    {
        match e.message_type {
            MsgTypes::Users => {
                let roster = match &e.data_array {
                    Some(l) => roster_from(l),
                    None => {
                        let v: Vec<UserProfile> = Vec::new();
                        assert(v@.map_values(|u: UserProfile| u@) =~= roster_of(Seq::empty()));
                        v
                    },
                };
                self.users = roster;
                Ok(true)
            },
            MsgTypes::Message => match &e.data {
                Some(d) => match decode_chat_message(d.as_str()) {
                    Ok(m) => {
                        let ghost before = self@;
                        self.messages.push(m);
                        assert(self@.messages =~= before.messages.push(m@));
                        Ok(true)
                    },
                    Err(x) => Err(x),
                },
                None => Err(ChatError::MalformedPayload),
            },
            MsgTypes::Register => Ok(false),
        }
    }

    /// Handles a received wire text; one that is rejected leaves the state unchanged,
    /// so the stream goes on with the next text.
    pub fn handle(&mut self, text: &str) -> (r: Result<bool, ChatError>)
        ensures
            match handle_model(old(self)@, text@) {
                Ok((next, changed)) => r == Ok::<bool, ChatError>(changed) && final(self)@ == next,
                Err(x) => r == Err::<bool, ChatError>(x) && final(self)@ == old(self)@,
            },
    {
        match decode(text) {
            Ok(e) => self.apply(&e),
            Err(x) => Err(x),
        }
    }

    /// Reacts to an event: a received text updates the state; a submitted text is
    /// composed into a `Message` envelope to send, and the input is cleared whatever
    /// becomes of the send.
    pub fn update(&mut self, msg: Msg) -> (r: Outcome)
        ensures
            match msg {
                Msg::HandleMsg(s) => match handle_model(old(self)@, s@) {
                    Ok((next, changed)) => final(self)@ == next && r.rerender == changed
                        && r.send is None && !r.clear_input && r.error is None,
                    Err(x) => final(self)@ == old(self)@ && !r.rerender && r.send is None
                        && !r.clear_input && r.error == Some(x),
                },
                Msg::SubmitMessage(t) => {
                    &&& final(self)@ == old(self)@
                    &&& !r.rerender
                    &&& r.clear_input
                    &&& r.error is None
                    &&& r.send matches Some(w) && w@ == encode_model(message_envelope(t@))
                },
            },
    {
        match msg {
            Msg::HandleMsg(s) => match self.handle(s.as_str()) {
                Ok(changed) => Outcome { rerender: changed, send: None, clear_input: false, error: None },
                Err(x) => Outcome { rerender: false, send: None, clear_input: false, error: Some(x) },
            },
            Msg::SubmitMessage(t) => {
                let w = message_text(t.as_str());
                Outcome { rerender: false, send: Some(w), clear_input: true, error: None }
            },
        }
    }

    /// The roster entry of a message's sender, if the sender is connected.
    pub fn sender_profile(&self, from: &str) -> (r: Option<&UserProfile>)
        ensures
            match r {
                Some(u) => u.name@ == from@ && self@.users.contains(u@),
                None => forall|t: int| 0 <= t < self@.users.len() ==> self@.users[t].name != from@,
            },
    {
        let mut k: usize = 0;
        while k < self.users.len()
            invariant
                k <= self.users@.len(),
                forall|t: int| 0 <= t < k ==> self@.users[t].name != from@,
            decreases self.users@.len() - k,
        {
            if crate::json::same_text(self.users[k].name.as_str(), from) {
                assert(self@.users[k as int] == self.users@[k as int]@);
                return Some(&self.users[k]);
            }
            k = k + 1;
        }
        None
    }
}

} // verus!
