//! The client's chat window state: received lines and the line being typed.
use vstd::prelude::*;

verus! {

/// Channel a chat line belongs to.
#[derive(Clone, Copy, Debug, PartialEq, Eq, Hash, Structural)]
pub enum ChatChannel {
    Echo,
    Server,
    Say,
    Global,
    Error,
}

impl ChatChannel {
    /// The channel's name as shown to the user.
    pub fn label(self) -> (r: &'static str)
        ensures
            r@ == match self {
                ChatChannel::Echo => "Echo"@,
                ChatChannel::Server => "Server"@,
                ChatChannel::Say => "Say"@,
                ChatChannel::Global => "Global"@,
                ChatChannel::Error => "Error"@,
            },
    {
        match self {
            ChatChannel::Echo => "Echo",
            ChatChannel::Server => "Server",
            ChatChannel::Say => "Say",
            ChatChannel::Global => "Global",
            ChatChannel::Error => "Error",
        }
    }
}

/// A chat line with its channel.
pub type ChatLine = (ChatChannel, String);

/// State of the chat window.
#[derive(Debug)]
pub struct ChatWindow {
    buffer: Vec<ChatLine>,
    channel: ChatChannel,
    message: String,
    send_message: Option<ChatLine>,
}

/// [`ChatWindow`] as mathematical values.
pub struct ChatWindowView {
    /// Received lines, oldest first.
    pub buffer: Seq<ChatLine>,
    /// Channel that the next line is sent on.
    pub channel: ChatChannel,
    /// The line being typed.
    pub message: Seq<char>,
    /// A line submitted and not yet taken.
    pub send_message: Option<ChatLine>,
}

impl View for ChatWindow {
    type V = ChatWindowView;

    closed spec fn view(&self) -> ChatWindowView {
        ChatWindowView {
            buffer: self.buffer@,
            channel: self.channel,
            message: self.message@,
            send_message: self.send_message,
        }
    }
}

impl ChatWindow {
    /// An empty window that sends on the `Say` channel.
    pub fn new() -> (r: ChatWindow)
        ensures
            r@.buffer.len() == 0,
            r@.channel == ChatChannel::Say,
            r@.message.len() == 0,
            r@.send_message is None,
    {
        ChatWindow {
            buffer: Vec::new(),
            channel: ChatChannel::Say,
            message: String::new(),
            send_message: None,
        }
    }

    /// Appends a received line.
    pub fn insert(&mut self, channel: ChatChannel, message: String)
        ensures
            final(self)@.buffer == old(self)@.buffer.push((channel, message)),
            final(self)@.channel == old(self)@.channel,
            final(self)@.message == old(self)@.message,
            final(self)@.send_message == old(self)@.send_message,
    {
        self.buffer.push((channel, message));
    }

    /// Takes the submitted line, if any, leaving none.
    pub fn message(&mut self) -> (r: Option<ChatLine>)
        ensures
            r == old(self)@.send_message,
            final(self)@.send_message is None,
            final(self)@.buffer == old(self)@.buffer,
            final(self)@.channel == old(self)@.channel,
            final(self)@.message == old(self)@.message,
    {
        self.send_message.take()
    }

    /// Received lines, oldest first.
    pub fn lines(&self) -> (r: &Vec<ChatLine>)
        ensures
            r@ == self@.buffer,
    {
        &self.buffer
    }

    /// Chooses the channel of the next line.
    pub fn set_channel(&mut self, channel: ChatChannel)
        ensures
            final(self)@ == (ChatWindowView { channel, ..old(self)@ }),
    {
        self.channel = channel;
    }

    /// Replaces the line being typed.
    pub fn set_text(&mut self, text: String)
        ensures
            final(self)@.message == text@,
            final(self)@.buffer == old(self)@.buffer,
            final(self)@.channel == old(self)@.channel,
            final(self)@.send_message == old(self)@.send_message,
    {
        self.message = text;
    }

    /// Submits the typed line on the current channel and clears the input.
    pub fn submit(&mut self)
        ensures
            final(self)@.send_message matches Some(l) && l.0 == old(self)@.channel && l.1@
                == old(self)@.message,
            final(self)@.message.len() == 0,
            final(self)@.buffer == old(self)@.buffer,
            final(self)@.channel == old(self)@.channel,
    {
        let text = self.message.clone();
        self.message = String::new();
        self.send_message = Some((self.channel, text));
    }
}

} // verus!
