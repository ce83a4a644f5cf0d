//! One connection to the chat service: its handshake, and what it does with
//! each inbound frame and each outbound text. The transport itself is driven
//! by the caller.

use vstd::prelude::*;
use vstd::string::*;
use crate::codec::{decode_spec, encode_spec, handle_websocket_message, encode_outbound, DecodedEvent};
use crate::debounce::{debounce_spec, SendDebouncer};

verus! {

/// What a connection is opened with.
pub struct ConnectOptions {
    pub channel: String,
    pub nick: Option<String>,
    pub oauth: Option<String>,
}

pub struct OptionsView {
    pub channel: Seq<char>,
    pub nick: Option<Seq<char>>,
    pub oauth: Option<Seq<char>>,
}

impl View for ConnectOptions {
    type V = OptionsView;

    open spec fn view(&self) -> OptionsView {
        OptionsView {
            channel: self.channel@,
            nick: match self.nick {
                Some(n) => Some(n@),
                None => None,
            },
            oauth: match self.oauth {
                Some(o) => Some(o@),
                None => None,
            },
        }
    }
}

impl Clone for ConnectOptions {
    fn clone(&self) -> (r: ConnectOptions)
        ensures
            r@ == self@,
    {
        ConnectOptions {
            channel: self.channel.clone(),
            nick: match &self.nick {
                Some(n) => Some(n.clone()),
                None => None,
            },
            oauth: match &self.oauth {
                Some(o) => Some(o.clone()),
                None => None,
            },
        }
    }
}

impl ConnectOptions {
    /// Options for `channel`, with no nick and no token.
    pub fn new(channel: &str) -> (r: ConnectOptions)
        ensures
            r@ == (OptionsView { channel: channel@, nick: None, oauth: None }),
    {
        ConnectOptions { channel: String::from_str(channel), nick: None, oauth: None }
    }
}

/// The token sent when none is set: the service then admits the reader anonymously.
pub open spec fn default_oauth() -> Seq<char> {
    "blah"@
}

/// The nick used when none is set: an anonymous reader's.
pub open spec fn default_nick() -> Seq<char> {
    "justinfan354678"@
}

/// The four handshake lines, in the order they are sent, each ended by `\r\n`.
pub open spec fn handshake_spec(o: OptionsView) -> Seq<Seq<char>> {
    seq![
        "PASS oauth:"@ + match o.oauth {
            Some(t) => t,
            None => default_oauth(),
        } + "\r\n"@,
        "NICK "@ + match o.nick {
            Some(n) => n,
            None => default_nick(),
        } + "\r\n"@,
        "JOIN #"@ + o.channel + "\r\n"@,
        "CAP REQ :twitch.tv/tags"@ + "\r\n"@,
    ]
}

/// The state of one live connection.
pub struct Connection {
    options: ConnectOptions,
    tags_enabled: bool,
    debouncer: SendDebouncer,
}

impl Connection {
    /// The options this connection was started with; they never change.
    pub closed spec fn options_view(&self) -> OptionsView {
        self.options@
    }

    /// Whether the service has acknowledged the tag capability.
    pub closed spec fn tags_on(&self) -> bool {
        self.tags_enabled
    }

    /// What this connection sent last.
    pub closed spec fn last_sent(&self) -> Option<Seq<char>> {
        self.debouncer.last()
    }

    /// A connection on a snapshot of `options`.
    pub fn new(options: &ConnectOptions) -> (r: Connection)
        ensures
            r.options_view() == options@,
            !r.tags_on(),
            r.last_sent() is None,
    {
        Connection { options: options.clone(), tags_enabled: false, debouncer: SendDebouncer::new() }
    }

    pub fn channel(&self) -> (r: &str)
        ensures
            r@ == self.options_view().channel,
    {
        self.options.channel.as_str()
    }

    pub fn tags_enabled(&self) -> (r: bool)
        ensures
            r == self.tags_on(),
    {
        self.tags_enabled
    }

    /// The handshake lines to send once the transport is open.
    pub fn handshake(&self) -> (r: Vec<String>)
        ensures
            r@.map_values(|l: String| l@) == handshake_spec(self.options_view()),
    {
        let mut pass = String::from_str("PASS oauth:");
        match &self.options.oauth {
            Some(t) => pass.append(t.as_str()),
            None => pass.append("blah"),
        }
        pass.append("\r\n");
        let mut nick = String::from_str("NICK ");
        match &self.options.nick {
            Some(n) => nick.append(n.as_str()),
            None => nick.append("justinfan354678"),
        }
        nick.append("\r\n");
        let mut join = String::from_str("JOIN #");
        join.append(self.options.channel.as_str());
        join.append("\r\n");
        let mut cap = String::from_str("CAP REQ :twitch.tv/tags");
        cap.append("\r\n");
        let r = vec![pass, nick, join, cap];
        assert(r@.map_values(|l: String| l@) =~= handshake_spec(self.options_view()));
        r
    }

    /// Handles one inbound frame: decodes it and latches tag parsing on an
    /// acknowledgement.
    pub fn on_frame(&mut self, raw: &str) -> (r: DecodedEvent)
        ensures
            r@ == decode_spec(raw@, old(self).tags_on()),
            final(self).tags_on() == (old(self).tags_on() || r is CapAck),
            final(self).options_view() == old(self).options_view(),
            final(self).last_sent() == old(self).last_sent(),
    {
        handle_websocket_message(raw, &mut self.tags_enabled)
    }

    /// The protocol line that sends the user's `text`, after debouncing.
    pub fn on_outbound(&mut self, text: &str) -> (r: String)
        ensures
            r@ == encode_spec(
                old(self).options_view().channel,
                debounce_spec(old(self).last_sent(), text@),
            ),
            final(self).last_sent() == Some(debounce_spec(old(self).last_sent(), text@)),
            final(self).tags_on() == old(self).tags_on(),
            final(self).options_view() == old(self).options_view(),
    {
        let sent = self.debouncer.debounce(text);
        encode_outbound(self.options.channel.as_str(), sent.as_str())
    }
}

} // verus!
