//! Client-to-client channels and messages, decoded map-style.

use vstd::prelude::*;

use crate::error::{Error, ErrorModel};
use crate::record::{req_text, spec_req_text};

verus! {

/// A named client-to-client message channel.
#[derive(Debug, Clone, PartialEq, Eq)]
pub struct Channel(pub String);

impl View for Channel {
    type V = Seq<char>;

    open spec fn view(&self) -> Seq<char> {
        self.0@
    }
}

/// Mathematical image of a [`Message`].
pub ghost struct MessageModel {
    pub channel: Seq<char>,
    pub message: Seq<char>,
}

/// One message received on a subscribed channel.
#[derive(Debug, Clone, PartialEq, Eq)]
pub struct Message {
    /// the channel it arrived on
    pub channel: Channel,
    /// the message text
    pub message: String,
}

impl View for Message {
    type V = MessageModel;

    open spec fn view(&self) -> MessageModel {
        MessageModel { channel: self.channel@, message: self.message@ }
    }
}

/// The decoded form of one message record: the required keys `channel`
/// and `message`, in that order.
pub open spec fn spec_message_from_map(pairs: Seq<(Seq<char>, Seq<char>)>) -> Result<
    MessageModel,
    ErrorModel,
> {
    match spec_req_text(pairs, "channel"@) {
        Err(e) => Err(e),
        Ok(channel) => match spec_req_text(pairs, "message"@) {
            Err(e) => Err(e),
            Ok(message) => Ok(MessageModel { channel, message }),
        },
    }
}

impl Message {
    /// Decodes one message record from its pairs, read as a key-to-value
    /// map.
    pub fn from_map(pairs: &Vec<(String, String)>) -> (r: Result<Message, Error>)
        ensures
            match r {
                Ok(m) => spec_message_from_map(pairs.deep_view()) == Ok::<
                    MessageModel,
                    ErrorModel,
                >(m@),
                Err(e) => spec_message_from_map(pairs.deep_view()) == Err::<
                    MessageModel,
                    ErrorModel,
                >(e@),
            },
    {
        let channel = match req_text(pairs, "channel") {
            Ok(v) => v,
            Err(e) => return Err(e),
        };
        let message = match req_text(pairs, "message") {
            Ok(v) => v,
            Err(e) => return Err(e),
        };
        Ok(Message { channel: Channel(channel), message })
    }
}

} // verus!
