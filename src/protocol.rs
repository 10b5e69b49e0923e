use vstd::prelude::*;

verus! {

/// The three kinds of envelope that travel over the connection.
#[derive(Clone, Copy, Debug, PartialEq, Eq, Structural)]
pub enum MsgTypes {
    Users,
    Register,
    Message,
}

/// The outer wire message: a kind tag and at most one meaningful companion field.
#[derive(Clone, Debug)]
pub struct Envelope {
    pub message_type: MsgTypes,
    pub data_array: Option<Vec<String>>,
    pub data: Option<String>,
}

/// Mathematical view of an envelope.
pub struct EnvelopeModel {
    pub message_type: MsgTypes,
    pub data_array: Option<Seq<Seq<char>>>,
    pub data: Option<Seq<char>>,
}

pub open spec fn strings_view(v: Seq<String>) -> Seq<Seq<char>> {
    v.map_values(|s: String| s@)
}

impl View for Envelope {
    type V = EnvelopeModel;

    open spec fn view(&self) -> EnvelopeModel {
        EnvelopeModel {
            message_type: self.message_type,
            data_array: match self.data_array {
                Some(v) => Some(strings_view(v@)),
                None => None,
            },
            data: match self.data {
                Some(d) => Some(d@),
                None => None,
            },
        }
    }
}

impl EnvelopeModel {
    /// `Users` carries a list of names; `Register` and `Message` carry a string.
    pub open spec fn wf(self) -> bool {
        match self.message_type {
            MsgTypes::Users => self.data_array is Some && self.data is None,
            _ => self.data is Some && self.data_array is None,
        }
    }
}

/// A chat line: who sent it and what it says.
#[derive(Clone, Debug)]
pub struct ChatMessage {
    pub from: String,
    pub message: String,
}

/// Mathematical view of a chat line.
pub struct MessageModel {
    pub from: Seq<char>,
    pub message: Seq<char>,
}

impl View for ChatMessage {
    type V = MessageModel;

    open spec fn view(&self) -> MessageModel {
        MessageModel { from: self.from@, message: self.message@ }
    }
}

/// A roster entry: a connected user's name and avatar URL.
#[derive(Clone, Debug)]
pub struct UserProfile {
    pub name: String,
    pub avatar: String,
}

/// Mathematical view of a roster entry.
pub struct ProfileModel {
    pub name: Seq<char>,
    pub avatar: Seq<char>,
}

impl View for UserProfile {
    type V = ProfileModel;

    open spec fn view(&self) -> ProfileModel {
        ProfileModel { name: self.name@, avatar: self.avatar@ }
    }
}

/// Why a received text was not applied.
#[derive(Clone, Copy, Debug, PartialEq, Eq, Structural)]
pub enum ChatError {
    /// The outer text is not an envelope.
    MalformedEnvelope,
    /// A `Message` envelope whose data is absent or not a chat message.
    MalformedPayload,
}

} // verus!
