use vstd::prelude::*;
use vstd::string::*;

use crate::codec::{encode, encode_model};
use crate::protocol::{Envelope, EnvelopeModel, MsgTypes};

verus! {

/// The envelope that carries a locally submitted chat text.
pub open spec fn message_envelope(text: Seq<char>) -> EnvelopeModel {
    EnvelopeModel { message_type: MsgTypes::Message, data_array: None, data: Some(text) }
}

/// The envelope that announces the local user when the client starts.
pub open spec fn register_envelope(username: Seq<char>) -> EnvelopeModel {
    EnvelopeModel { message_type: MsgTypes::Register, data_array: None, data: Some(username) }
}

/// Builds the envelope for a locally submitted chat text.
pub fn compose_message(text: &str) -> (r: Envelope)
    ensures
        r@ == message_envelope(text@),
        r@.wf(),
{
    Envelope { message_type: MsgTypes::Message, data_array: None, data: Some(String::from_str(text)) }
}

/// Builds the registration envelope for the local user.
pub fn compose_register(username: &str) -> (r: Envelope)
    ensures
        r@ == register_envelope(username@),
        r@.wf(),
{
    Envelope { message_type: MsgTypes::Register, data_array: None, data: Some(String::from_str(username)) }
}

/// The wire text that registers the local user, sent once at start-up.
pub fn register_text(username: &str) -> (r: String)
    ensures
        r@ == encode_model(register_envelope(username@)),
{
    let e = compose_register(username);
    encode(&e)
}

/// The wire text for a locally submitted chat text.
pub fn message_text(text: &str) -> (r: String)
    ensures
        r@ == encode_model(message_envelope(text@)),
{
    let e = compose_message(text);
    encode(&e)
}

} // verus!
