//! The wire codec: chat lines in, structured events out; chat text in,
//! protocol lines out.

use vstd::prelude::*;
use vstd::string::*;
use vstd::utf8::{decode_utf8, valid_utf8};
use crate::text::{
    char_str, chars_of, contains, contains_str, find, find_in, lacks, lemma_find_char_after,
    lemma_find_from_bounds, lemma_find_lacking, lemma_find_pair_join, lemma_lacks_concat,
    lemma_lacks_no_pair, lemma_no_pair_join, lemma_occurs_contains, lemma_occurs_middle,
    lemma_occurs_shift, split_once, split_once_at,
};

verus! {

/// One `key=value` pair of a tagged line.
pub struct Tag {
    pub key: String,
    pub value: String,
}

/// A chat message decoded from the wire.
pub struct ChatMessage {
    pub author: String,
    pub text: String,
    /// Six hex digits, without `#`, when the sender has a well-formed color.
    pub color: Option<String>,
}

pub struct ChatView {
    pub author: Seq<char>,
    pub text: Seq<char>,
    pub color: Option<Seq<char>>,
}

impl View for ChatMessage {
    type V = ChatView;

    open spec fn view(&self) -> ChatView {
        ChatView {
            author: self.author@,
            text: self.text@,
            color: match self.color {
                Some(c) => Some(c@),
                None => None,
            },
        }
    }
}

pub open spec fn tag_pairs_view(tags: Seq<Tag>) -> Seq<(Seq<char>, Seq<char>)> {
    tags.map_values(|t: Tag| (t.key@, t.value@))
}

/// Pieces of `s[start..]` split at each `c`, the current piece starting at `start`
/// and scanning from `i`.
pub open spec fn split_from(s: Seq<char>, c: char, start: int, i: int) -> Seq<Seq<char>>
    decreases s.len() - i,
{
    if i >= s.len() || i < start {
        seq![s.subrange(start, s.len() as int)]
    } else if s[i] == c {
        seq![s.subrange(start, i)] + split_from(s, c, i + 1, i + 1)
    } else {
        split_from(s, c, start, i + 1)
    }
}

/// `str::split(c)`: the pieces of `s` between occurrences of `c`.
pub open spec fn split_on(s: Seq<char>, c: char) -> Seq<Seq<char>> {
    split_from(s, c, 0, 0)
}

/// The `key=value` pairs among `pieces`, in order; a piece without `=` is dropped.
pub open spec fn pairs_of(pieces: Seq<Seq<char>>) -> Seq<(Seq<char>, Seq<char>)>
    decreases pieces.len(),
{
    if pieces.len() == 0 {
        seq![]
    } else {
        pairs_of(pieces.drop_last()) + match split_once(pieces.last(), "="@) {
            Some(kv) => seq![kv],
            None => seq![],
        }
    }
}

/// The tags of a line's tag section.
pub open spec fn tags_spec(s: Seq<char>) -> Seq<(Seq<char>, Seq<char>)> {
    pairs_of(split_on(s, ';'))
}

/// The value of `key`: the last pair with that key wins.
pub open spec fn lookup(tags: Seq<(Seq<char>, Seq<char>)>, key: Seq<char>) -> Option<Seq<char>>
    decreases tags.len(),
{
    if tags.len() == 0 {
        None
    } else if tags.last().0 == key {
        Some(tags.last().1)
    } else {
        lookup(tags.drop_last(), key)
    }
}

pub open spec fn is_hex_digit(c: char) -> bool {
    ('0' <= c && c <= '9') || ('a' <= c && c <= 'f') || ('A' <= c && c <= 'F')
}

/// Exactly six hex digits.
pub open spec fn is_hex6(d: Seq<char>) -> bool {
    d.len() == 6 && forall|i: int| 0 <= i < 6 ==> is_hex_digit(#[trigger] d[i])
}

/// `v` without one leading `#`.
pub open spec fn strip_hash(v: Seq<char>) -> Seq<char> {
    if v.len() > 0 && v[0] == '#' {
        v.drop_first()
    } else {
        v
    }
}

/// The sender color of a `color` tag value: its six hex digits, or none when malformed.
pub open spec fn color_spec(v: Option<Seq<char>>) -> Option<Seq<char>> {
    match v {
        Some(x) => if is_hex6(strip_hash(x)) {
            Some(strip_hash(x))
        } else {
            None
        },
        None => None,
    }
}

/// A tagged chat line (already cut at its terminator).
pub open spec fn tagged_line_spec(line: Seq<char>) -> Option<ChatView> {
    if !contains(line, "PRIVMSG"@) {
        None
    } else {
        match split_once(line, " :"@) {
            None => None,
            Some((tags, tail)) => match split_once(tail, " :"@) {
                None => None,
                Some((_sender, message)) => match lookup(tags_spec(tags), "display-name"@) {
                    None => None,
                    Some(author) => Some(
                        ChatView {
                            author,
                            text: message,
                            color: color_spec(lookup(tags_spec(tags), "color"@)),
                        },
                    ),
                },
            },
        }
    }
}

/// What follows the second `:` of `s`; with fewer colons, what follows the last one
/// (`splitn(3, ':').last()`).
pub open spec fn after_second_colon(s: Seq<char>) -> Seq<char> {
    match split_once(s, ":"@) {
        None => s,
        Some((_, r)) => match split_once(r, ":"@) {
            None => r,
            Some((_, m)) => m,
        },
    }
}

/// An untagged chat line (already cut at its terminator): `:nick!user PRIVMSG #ch :text`.
pub open spec fn untagged_line_spec(line: Seq<char>) -> Option<ChatView> {
    if !contains(line, "PRIVMSG"@) {
        None
    } else {
        match find(line, "!"@) {
            None => None,
            Some(i) => if i == 0 {
                None
            } else {
                Some(ChatView { author: line.subrange(1, i), text: after_second_colon(line), color: None })
            },
        }
    }
}

/// The first line of a frame, when it has a terminator.
pub open spec fn first_line(raw: Seq<char>) -> Option<Seq<char>> {
    match split_once(raw, "\r\n"@) {
        Some((line, _)) => Some(line),
        None => None,
    }
}

pub open spec fn untagged_spec(raw: Seq<char>) -> Option<ChatView> {
    match first_line(raw) {
        Some(line) => untagged_line_spec(line),
        None => None,
    }
}

pub open spec fn tagged_spec(raw: Seq<char>) -> Option<ChatView> {
    match first_line(raw) {
        Some(line) => tagged_line_spec(line),
        None => None,
    }
}

pub open spec fn opt_view(o: Option<String>) -> Option<Seq<char>> {
    match o {
        Some(s) => Some(s@),
        None => None,
    }
}

proof fn lemma_pairs_of_push(pieces: Seq<Seq<char>>, p: Seq<char>)
    ensures
        pairs_of(pieces.push(p)) == pairs_of(pieces) + match split_once(p, "="@) {
            Some(kv) => seq![kv],
            None => seq![],
        },
{
    assert(pieces.push(p).drop_last() =~= pieces);
}

/// Appends the pair of `s[start..end]` to `out`, when that piece holds a `=`.
fn push_pair(out: &mut Vec<Tag>, s: &str, start: usize, end: usize)
    requires
        start <= end <= s@.len(),
    ensures
        tag_pairs_view(final(out)@) == tag_pairs_view(old(out)@) + match split_once(
            s@.subrange(start as int, end as int),
            "="@,
        ) {
            Some(kv) => seq![kv],
            None => seq![],
        },
{
    let piece = s.substring_char(start, end);
    let pv = chars_of(piece);
    let eq = chars_of("=");
    let ghost before = out@;
    match find_in(&pv, &eq, 0) {
        Some(k) => {
            proof {
                lemma_find_from_bounds(pv@, eq@, 0);
            }
            let key = String::from_str(piece.substring_char(0, k));
            let value = String::from_str(piece.substring_char(k + eq.len(), pv.len()));
            out.push(Tag { key, value });
            assert(tag_pairs_view(out@) =~= tag_pairs_view(before) + seq![(key@, value@)]);
        },
        None => {
            assert(tag_pairs_view(out@) =~= tag_pairs_view(before) + seq![]);
        },
    }
}

/// Splits a tag section (`k1=v1;k2=v2;...`) into its pairs, in order; a piece
/// without `=` is dropped.
pub fn parse_tags(tags: &str) -> (r: Vec<Tag>)
    ensures
        tag_pairs_view(r@) == tags_spec(tags@),
{
    let v = chars_of(tags);
    let n = v.len();
    let mut out: Vec<Tag> = Vec::new();
    let mut start: usize = 0;
    let mut i: usize = 0;
    let ghost mut pieces: Seq<Seq<char>> = seq![];
    assert(tag_pairs_view(out@) =~= pairs_of(pieces));
    while i < n
        invariant
            v@ == tags@,
            n == v@.len(),
            start <= i <= n,
            split_on(v@, ';') == pieces + split_from(v@, ';', start as int, i as int),
            tag_pairs_view(out@) == pairs_of(pieces),
        decreases n - i,
    {
        if v[i] == ';' {
            let ghost piece = v@.subrange(start as int, i as int);
            assert(split_from(v@, ';', start as int, i as int) == seq![piece] + split_from(
                v@,
                ';',
                i + 1,
                i + 1,
            ));
            push_pair(&mut out, tags, start, i);
            proof {
                lemma_pairs_of_push(pieces, piece);
                assert(pieces + (seq![piece] + split_from(v@, ';', i + 1, i + 1)) =~= pieces.push(
                    piece,
                ) + split_from(v@, ';', i + 1, i + 1));
                pieces = pieces.push(piece);
            }
            start = i + 1;
        }
        i = i + 1;
    }
    let ghost piece = v@.subrange(start as int, n as int);
    assert(split_from(v@, ';', start as int, n as int) == seq![piece]);
    push_pair(&mut out, tags, start, n);
    proof {
        lemma_pairs_of_push(pieces, piece);
        assert(pieces + seq![piece] =~= pieces.push(piece));
    }
    out
}

/// The value of the last tag named `key`.
pub fn tag_value(tags: &Vec<Tag>, key: &str) -> (r: Option<String>)
    ensures
        opt_view(r) == lookup(tag_pairs_view(tags@), key@),
{
    let k = String::from_str(key);
    let mut i: usize = tags.len();
    assert(tag_pairs_view(tags@.subrange(0, i as int)) =~= tag_pairs_view(tags@));
    while i > 0
        invariant
            i <= tags@.len(),
            k@ == key@,
            lookup(tag_pairs_view(tags@), key@) == lookup(
                tag_pairs_view(tags@.subrange(0, i as int)),
                key@,
            ),
        decreases i,
    {
        let ghost prefix = tag_pairs_view(tags@.subrange(0, i as int));
        assert(prefix.drop_last() =~= tag_pairs_view(tags@.subrange(0, i - 1)));
        if tags[i - 1].key == k {
            return Some(tags[i - 1].value.clone());
        }
        i = i - 1;
    }
    None
}

pub open spec fn opt_chat_view(o: Option<ChatMessage>) -> Option<ChatView> {
    match o {
        Some(m) => Some(m@),
        None => None,
    }
}

/// Whether `d` is exactly six hex digits.
fn is_hex6_str(d: &str) -> (r: bool)
    ensures
        r == is_hex6(d@),
{
    let n = d.unicode_len();
    if n != 6 {
        return false;
    }
    let mut i: usize = 0;
    while i < 6
        invariant
            d@.len() == 6,
            i <= 6,
            forall|j: int| 0 <= j < i ==> is_hex_digit(#[trigger] d@[j]),
        decreases 6 - i,
    {
        let c = d.get_char(i);
        if !(('0' <= c && c <= '9') || ('a' <= c && c <= 'f') || ('A' <= c && c <= 'F')) {
            return false;
        }
        i = i + 1;
    }
    true
}

/// The sender color carried by a `color` tag value: its six hex digits, with an
/// optional leading `#` removed; none when absent or malformed.
pub fn color_of(v: Option<String>) -> (r: Option<String>)
    ensures
        opt_view(r) == color_spec(opt_view(v)),
{
    match v {
        None => None,
        Some(x) => {
            let xs = x.as_str();
            let n = xs.unicode_len();
            let d = if n > 0 && xs.get_char(0) == '#' {
                xs.substring_char(1, n)
            } else {
                xs.substring_char(0, n)
            };
            assert(d@ =~= strip_hash(x@));
            if is_hex6_str(d) {
                Some(String::from_str(d))
            } else {
                None
            }
        },
    }
}

/// What follows the second `:` of `s` (`s.splitn(3, ':').last()`).
fn after_second_colon_of<'a>(s: &'a str) -> (r: &'a str)
    ensures
        r@ == after_second_colon(s@),
{
    match split_once_at(s, ":") {
        None => s,
        Some((_, rest)) => match split_once_at(rest, ":") {
            None => rest,
            Some((_, m)) => m,
        },
    }
}

/// The first line of a frame, when it has a `\r\n` terminator.
pub fn first_line_of<'a>(raw: &'a str) -> (r: Option<&'a str>)
    ensures
        r matches Some(l) ==> first_line(raw@) == Some(l@),
        r is None ==> first_line(raw@) is None,
{
    match split_once_at(raw, "\r\n") {
        Some((line, _)) => Some(line),
        None => None,
    }
}

/// Decodes an untagged chat frame `:nick!user PRIVMSG #ch :text\r\n`.
pub fn format_user_message(raw: &str) -> (r: Option<ChatMessage>)
    ensures
        opt_chat_view(r) == untagged_spec(raw@),
{
    let line = match first_line_of(raw) {
        Some(l) => l,
        None => return None,
    };
    if !contains_str(line, "PRIVMSG") {
        return None;
    }
    match split_once_at(line, "!") {
        None => None,
        Some((before, _)) => {
            proof {
                lemma_find_from_bounds(line@, "!"@, 0);
            }
            let n = before.unicode_len();
            if n == 0 {
                None
            } else {
                let author = String::from_str(before.substring_char(1, n));
                let text = String::from_str(after_second_colon_of(line));
                assert(author@ =~= line@.subrange(1, n as int));
                Some(ChatMessage { author, text, color: None })
            }
        },
    }
}

/// Decodes a tagged chat frame `k=v;... :sender PRIVMSG #ch :text\r\n`; the author is
/// the `display-name` tag, the color the `color` tag when well formed.
pub fn format_user_message_with_tags(raw: &str) -> (r: Option<ChatMessage>)
    ensures
        opt_chat_view(r) == tagged_spec(raw@),
{
    let line = match first_line_of(raw) {
        Some(l) => l,
        None => return None,
    };
    if !contains_str(line, "PRIVMSG") {
        return None;
    }
    let (tag_section, tail) = match split_once_at(line, " :") {
        Some(parts) => parts,
        None => return None,
    };
    let message = match split_once_at(tail, " :") {
        Some((_, m)) => m,
        None => return None,
    };
    let tags = parse_tags(tag_section);
    match tag_value(&tags, "display-name") {
        None => None,
        Some(author) => {
            let color = color_of(tag_value(&tags, "color"));
            Some(ChatMessage { author, text: String::from_str(message), color })
        },
    }
}

/// What one inbound frame means to a connection.
pub enum DecodedEvent {
    /// The service acknowledged the tag capability.
    CapAck,
    Chat(ChatMessage),
    /// Anything else the service sent, for diagnostics.
    Other(String),
    /// A chat line that could not be split into its parts: protocol noise.
    Dropped,
}

pub enum EventView {
    CapAck,
    Chat(ChatView),
    Other(Seq<char>),
    Dropped,
}

impl View for DecodedEvent {
    type V = EventView;

    open spec fn view(&self) -> EventView {
        match self {
            DecodedEvent::CapAck => EventView::CapAck,
            DecodedEvent::Chat(m) => EventView::Chat(m@),
            DecodedEvent::Other(s) => EventView::Other(s@),
            DecodedEvent::Dropped => EventView::Dropped,
        }
    }
}

pub open spec fn cap_ack_marker() -> Seq<char> {
    "ACK :twitch.tv/tags"@
}

/// The meaning of frame `raw`, with tag parsing on or off.
pub open spec fn decode_spec(raw: Seq<char>, tags_enabled: bool) -> EventView {
    if contains(raw, cap_ack_marker()) {
        EventView::CapAck
    } else if !contains(raw, "PRIVMSG"@) || first_line(raw) is None {
        EventView::Other(raw)
    } else {
        match if tags_enabled {
            tagged_spec(raw)
        } else {
            untagged_spec(raw)
        } {
            Some(c) => EventView::Chat(c),
            None => EventView::Dropped,
        }
    }
}

/// Decodes one inbound frame.
pub fn decode(raw: &str, tags_enabled: bool) -> (r: DecodedEvent)
    ensures
        r@ == decode_spec(raw@, tags_enabled),
{
    if contains_str(raw, "ACK :twitch.tv/tags") {
        return DecodedEvent::CapAck;
    }
    if !contains_str(raw, "PRIVMSG") || first_line_of(raw).is_none() {
        return DecodedEvent::Other(String::from_str(raw));
    }
    let parsed = if tags_enabled {
        format_user_message_with_tags(raw)
    } else {
        format_user_message(raw)
    };
    match parsed {
        Some(m) => DecodedEvent::Chat(m),
        None => DecodedEvent::Dropped,
    }
}

/// Decodes one inbound frame for a connection whose tag latch is
/// `read_tags_allowed`; an acknowledgement of the tag capability sets the latch.
pub fn handle_websocket_message(msg: &str, read_tags_allowed: &mut bool) -> (r: DecodedEvent)
    ensures
        r@ == decode_spec(msg@, *old(read_tags_allowed)),
        *final(read_tags_allowed) == (*old(read_tags_allowed) || r is CapAck),
{
    let r = decode(msg, *read_tags_allowed);
    if let DecodedEvent::CapAck = r {
        *read_tags_allowed = true;
    }
    r
}

pub open spec fn encode_spec(channel: Seq<char>, text: Seq<char>) -> Seq<char> {
    "PRIVMSG #"@ + channel + " :"@ + text
}

/// The protocol line that sends `text` to `channel`: `PRIVMSG #<channel> :<text>`.
pub fn encode_outbound(channel: &str, text: &str) -> (r: String)
    ensures
        r@ == encode_spec(channel@, text@),
{
    let mut line = String::from_str("PRIVMSG #");
    line.append(channel);
    line.append(" :");
    line.append(text);
    line
}

/// Each byte taken as the character of the same number.
pub open spec fn latin1(b: Seq<u8>) -> Seq<char> {
    b.map_values(|x: u8| x as char)
}

/// The text of a frame payload: its UTF-8 decoding when valid, else one
/// character per byte.
pub open spec fn frame_text_spec(payload: Seq<u8>) -> Seq<char> {
    if valid_utf8(payload) {
        decode_utf8(payload)
    } else {
        latin1(payload)
    }
}

/// Relies on `std::str::from_utf8`: `Ok` exactly for valid UTF-8, holding the
/// decoded characters.
#[verifier::external_body]
fn utf8_text(payload: &[u8]) -> (r: Option<&str>)
    ensures
        r is Some <==> valid_utf8(payload@),
        r matches Some(s) ==> s@ == decode_utf8(payload@),
{
    std::str::from_utf8(payload).ok()
}

/// The text of a frame payload whose UTF-8 decoding is `decoded`.
pub fn frame_text_from(payload: &[u8], decoded: Option<&str>) -> (r: String)
    ensures
        decoded matches Some(s) ==> r@ == s@,
        decoded is None ==> r@ == latin1(payload@),
{
    match decoded {
        Some(s) => String::from_str(s),
        None => {
            let mut out = String::new();
            let mut i: usize = 0;
            while i < payload.len()
                invariant
                    i <= payload@.len(),
                    out@ == latin1(payload@.subrange(0, i as int)),
                decreases payload@.len() - i,
            {
                let c: char = payload[i] as char;
                let one = char_str(c);
                out.append(one.as_str());
                assert(latin1(payload@.subrange(0, i + 1)) =~= latin1(payload@.subrange(0, i as int))
                    + seq![c]);
                i = i + 1;
            }
            assert(payload@.subrange(0, payload@.len() as int) =~= payload@);
            out
        },
    }
}

/// The text of a frame payload.
pub fn frame_text(payload: &[u8]) -> (r: String)
    ensures
        r@ == frame_text_spec(payload@),
{
    frame_text_from(payload, utf8_text(payload))
}

/// The untagged chat line `:nick!user PRIVMSG #ch :text`.
pub open spec fn untagged_line(nick: Seq<char>, user: Seq<char>, ch: Seq<char>, text: Seq<char>) -> Seq<char> {
    ":"@ + nick + "!"@ + user + " PRIVMSG #"@ + ch + " :"@ + text
}

/// A string without a carriage return holds no `\r\n`.
proof fn lemma_no_crlf(s: Seq<char>)
    requires
        lacks(s, '\r'),
    ensures
        !contains(s, "\r\n"@),
{
    reveal_strlit("\r\n");
    assert("\r\n"@ =~= seq!['\r', '\n']);
    lemma_lacks_no_pair(s, '\r', '\n');
}

/// Two strings without `\r\n` joined without forming it at the seam.
proof fn lemma_crlf_join(a: Seq<char>, b: Seq<char>)
    requires
        !contains(a, "\r\n"@),
        !contains(b, "\r\n"@),
        a.len() == 0 || b.len() == 0 || a.last() != '\r' || b[0] != '\n',
    ensures
        !contains(a + b, "\r\n"@),
{
    reveal_strlit("\r\n");
    assert("\r\n"@ =~= seq!['\r', '\n']);
    lemma_no_pair_join(a, b, '\r', '\n');
}

/// Every terminated untagged chat line `:nick!user PRIVMSG #ch :text` decodes,
/// with tags off, to a chat message from `nick` whose text is `text`; the text
/// may hold any `:` or `!`.
pub proof fn lemma_untagged_chat_line(nick: Seq<char>, user: Seq<char>, ch: Seq<char>, text: Seq<char>)
    requires
        lacks(nick, '!'),
        lacks(nick, ':'),
        lacks(user, ':'),
        lacks(ch, ':'),
        !contains(nick, "\r\n"@),
        !contains(user, "\r\n"@),
        !contains(ch, "\r\n"@),
        !contains(text, "\r\n"@),
        !contains(untagged_line(nick, user, ch, text) + "\r\n"@, cap_ack_marker()),
    ensures
        decode_spec(untagged_line(nick, user, ch, text) + "\r\n"@, false) == EventView::Chat(
            ChatView { author: nick, text, color: None },
        ),
{
    reveal_strlit(":");
    reveal_strlit("!");
    reveal_strlit(" PRIVMSG #");
    reveal_strlit(" :");
    reveal_strlit("\r\n");
    reveal_strlit("PRIVMSG");
    let line = untagged_line(nick, user, ch, text);
    let raw = line + "\r\n"@;
    let privmsg = "PRIVMSG"@;
    // no line break before the end
    lemma_no_crlf(":"@);
    lemma_no_crlf("!"@);
    lemma_no_crlf(" PRIVMSG #"@);
    lemma_no_crlf(" :"@);
    let p1 = ":"@ + nick;
    lemma_crlf_join(":"@, nick);
    let p2 = p1 + "!"@;
    lemma_crlf_join(p1, "!"@);
    let p3 = p2 + user;
    lemma_crlf_join(p2, user);
    let p4 = p3 + " PRIVMSG #"@;
    lemma_crlf_join(p3, " PRIVMSG #"@);
    let p5 = p4 + ch;
    lemma_crlf_join(p4, ch);
    let p6 = p5 + " :"@;
    lemma_crlf_join(p5, " :"@);
    lemma_crlf_join(p6, text);
    lemma_first_line(line);
    // the line names the command
    let before = ":"@ + nick + "!"@ + user + " "@;
    reveal_strlit(" ");
    assert(line =~= before + privmsg + (" #"@ + ch + " :"@ + text)) by {
        reveal_strlit(" #");
    }
    lemma_occurs_middle(before, privmsg, " #"@ + ch + " :"@ + text);
    lemma_occurs_contains(line, privmsg, before.len() as int);
    assert(raw =~= before + privmsg + (" #"@ + ch + " :"@ + text + "\r\n"@)) by {
        reveal_strlit(" #");
    }
    lemma_occurs_middle(before, privmsg, " #"@ + ch + " :"@ + text + "\r\n"@);
    lemma_occurs_contains(raw, privmsg, before.len() as int);
    // the author ends at the first `!`
    let head = ":"@ + nick;
    lemma_lacks_concat(":"@, nick, '!');
    assert(line =~= head + ("!"@ + user + " PRIVMSG #"@ + ch + " :"@ + text));
    assert("!"@ =~= seq!['!']);
    lemma_find_char_after(head, "!"@ + user + " PRIVMSG #"@ + ch + " :"@ + text, '!');
    assert(line.subrange(1, head.len() as int) =~= nick);
    // the text follows the second `:`
    assert(":"@ =~= seq![':']);
    lemma_find_char_after(seq![], line, ':');
    assert(seq![] + line =~= line);
    let rest = line.subrange(1, line.len() as int);
    let upto = nick + "!"@ + user + " PRIVMSG #"@ + ch + " "@;
    lemma_lacks_concat(nick, "!"@, ':');
    lemma_lacks_concat(nick + "!"@, user, ':');
    lemma_lacks_concat(nick + "!"@ + user, " PRIVMSG #"@, ':');
    lemma_lacks_concat(nick + "!"@ + user + " PRIVMSG #"@, ch, ':');
    lemma_lacks_concat(nick + "!"@ + user + " PRIVMSG #"@ + ch, " "@, ':');
    assert(rest =~= upto + (":"@ + text));
    lemma_find_char_after(upto, ":"@ + text, ':');
    assert(rest.subrange((upto.len() + 1) as int, rest.len() as int) =~= text);
    assert(after_second_colon(line) == text);
}

proof fn lemma_split_from_rest(s: Seq<char>, c: char, start: int, i: int)
    requires
        0 <= start <= i <= s.len(),
        forall|j: int| i <= j < s.len() ==> s[j] != c,
    ensures
        split_from(s, c, start, i) == seq![s.subrange(start, s.len() as int)],
    decreases s.len() - i,
{
    if i < s.len() {
        lemma_split_from_rest(s, c, start, i + 1);
    }
}

proof fn lemma_split_from_sep(s: Seq<char>, c: char, start: int, i: int, k: int)
    requires
        0 <= start <= i <= k < s.len(),
        s[k] == c,
        forall|j: int| i <= j < k ==> s[j] != c,
    ensures
        split_from(s, c, start, i) == seq![s.subrange(start, k)] + split_from(s, c, k + 1, k + 1),
    decreases k - i,
{
    if i < k {
        lemma_split_from_sep(s, c, start, i + 1, k);
    }
}

/// With tags off, a terminated chat line without `!` gives no chat event.
pub proof fn lemma_untagged_without_bang(line: Seq<char>)
    requires
        !contains(line, "\r\n"@),
        lacks(line, '!'),
        contains(line, "PRIVMSG"@),
        !contains(line + "\r\n"@, cap_ack_marker()),
    ensures
        decode_spec(line + "\r\n"@, false) == EventView::Dropped,
{
    reveal_strlit("!");
    let raw = line + "\r\n"@;
    lemma_first_line(line);
    lemma_find_from_bounds(line, "PRIVMSG"@, 0);
    let k = find(line, "PRIVMSG"@)->0;
    assert(raw.subrange(k, k + "PRIVMSG"@.len()) =~= line.subrange(k, k + "PRIVMSG"@.len()));
    lemma_occurs_contains(raw, "PRIVMSG"@, k);
    assert("!"@ =~= seq!['!']);
    lemma_find_lacking(line, '!', 0);
}

/// The tagged chat line `<tags> :<info> :<text>`, where `info` is the sender
/// and the command (`nick!user@host PRIVMSG #ch`).
pub open spec fn tagged_line(tags: Seq<char>, info: Seq<char>, text: Seq<char>) -> Seq<char> {
    tags + " :"@ + info + " :"@ + text
}

proof fn lemma_first_line(line: Seq<char>)
    requires
        !contains(line, "\r\n"@),
    ensures
        first_line(line + "\r\n"@) == Some(line),
{
    reveal_strlit("\r\n");
    let raw = line + "\r\n"@;
    assert("\r\n"@ =~= seq!['\r', '\n']);
    lemma_find_pair_join(line, "\r\n"@, '\r', '\n');
    assert(raw.subrange(0, line.len() as int) =~= line);
}

/// The tag section `display-name=<name>;color=#<d>`.
pub open spec fn two_tags(name: Seq<char>, d: Seq<char>) -> Seq<char> {
    "display-name"@ + "="@ + name + ";"@ + "color"@ + "="@ + "#"@ + d
}

/// The tag section `display-name=<name>;color=#<d>` names `name` and color `#<d>`.
pub proof fn lemma_two_tags(name: Seq<char>, d: Seq<char>)
    requires
        is_hex6(d),
        lacks(name, ';'),
    ensures
        lookup(tags_spec(two_tags(name, d)), "display-name"@) == Some(name),
        lookup(tags_spec(two_tags(name, d)), "color"@) == Some("#"@ + d),
{
    reveal_strlit("display-name");
    reveal_strlit("=");
    reveal_strlit(";");
    reveal_strlit("color");
    reveal_strlit("#");
    let a_key = "display-name"@;
    let b_key = "color"@;
    let tags = two_tags(name, d);
    let first = a_key + "="@ + name;
    let second = b_key + "="@ + "#"@ + d;
    assert(tags =~= first + (";"@ + second));
    assert forall|j: int| 0 <= j < first.len() implies tags[j] != ';' by {
        assert(tags[j] == first[j]);
        if j >= a_key.len() + 1 {
            assert(first[j] == name[j - a_key.len() - 1]);
        }
    }
    lemma_split_from_sep(tags, ';', 0, 0, first.len() as int);
    assert(tags.subrange(0, first.len() as int) =~= first);
    assert forall|j: int| first.len() + 1 <= j < tags.len() implies tags[j] != ';' by {
        assert(tags[j] == second[j - first.len() - 1]);
        if j - first.len() - 1 >= b_key.len() + 2 {
            assert(second[j - first.len() - 1] == d[j - first.len() - 1 - b_key.len() - 2]);
            assert(is_hex_digit(d[j - first.len() - 1 - b_key.len() - 2]));
        }
    }
    lemma_split_from_rest(tags, ';', (first.len() + 1) as int, (first.len() + 1) as int);
    assert(tags.subrange((first.len() + 1) as int, tags.len() as int) =~= second);
    assert(split_on(tags, ';') =~= seq![first, second]);
    assert("="@ =~= seq!['=']);
    lemma_find_char_after(a_key, "="@ + name, '=');
    assert(a_key + ("="@ + name) =~= first);
    assert(first.subrange(0, a_key.len() as int) =~= a_key);
    assert(first.subrange((a_key.len() + 1) as int, first.len() as int) =~= name);
    lemma_find_char_after(b_key, "="@ + "#"@ + d, '=');
    assert(b_key + ("="@ + "#"@ + d) =~= second);
    assert(second.subrange(0, b_key.len() as int) =~= b_key);
    assert(second.subrange((b_key.len() + 1) as int, second.len() as int) =~= "#"@ + d);
    assert(split_once(first, "="@) == Some((a_key, name)));
    assert(split_once(second, "="@) == Some((b_key, "#"@ + d)));
    assert(seq![first, second].drop_last() =~= seq![first]);
    assert(seq![first].drop_last() =~= Seq::<Seq<char>>::empty());
    assert(pairs_of(Seq::<Seq<char>>::empty()) == Seq::<(Seq<char>, Seq<char>)>::empty());
    assert(pairs_of(seq![first]) =~= seq![(a_key, name)]);
    assert(pairs_of(seq![first, second]) =~= seq![(a_key, name), (b_key, "#"@ + d)]);
    assert(tags_spec(tags) =~= seq![(a_key, name), (b_key, "#"@ + d)]);
    assert(a_key != b_key) by {
        assert(a_key.len() != b_key.len());
    }
    let pairs = seq![(a_key, name), (b_key, "#"@ + d)];
    assert(pairs.drop_last() =~= seq![(a_key, name)]);
    assert(pairs.last().0 != a_key);
    assert(seq![(a_key, name)].last().0 == a_key);
    assert(lookup(seq![(a_key, name)], a_key) == Some(name));
    assert(lookup(pairs, a_key) == Some(name));
}

/// Every terminated tagged chat line `<tags> :<info> :<text>` whose tags name
/// `display-name` `name` decodes, with tags on, to a chat message from `name`
/// whose text is `text`, in the color the `color` tag gives.
pub proof fn lemma_tagged_chat_line(tags: Seq<char>, info: Seq<char>, text: Seq<char>, name: Seq<char>)
    requires
        lookup(tags_spec(tags), "display-name"@) == Some(name),
        contains(tagged_line(tags, info, text), "PRIVMSG"@),
        !contains(tags, " :"@),
        !contains(info, " :"@),
        !contains(tags, "\r\n"@),
        !contains(info, "\r\n"@),
        !contains(text, "\r\n"@),
        !contains(tagged_line(tags, info, text) + "\r\n"@, cap_ack_marker()),
    ensures
        decode_spec(tagged_line(tags, info, text) + "\r\n"@, true) == EventView::Chat(
            ChatView { author: name, text, color: color_spec(lookup(tags_spec(tags), "color"@)) },
        ),
{
    reveal_strlit(" :");
    reveal_strlit("\r\n");
    let line = tagged_line(tags, info, text);
    let raw = line + "\r\n"@;
    let sep = " :"@;
    assert(sep =~= seq![' ', ':']);
    // no line break before the end
    lemma_no_crlf(sep);
    lemma_crlf_join(tags, sep);
    lemma_crlf_join(tags + sep, info);
    lemma_crlf_join(tags + sep + info, sep);
    lemma_crlf_join(tags + sep + info + sep, text);
    lemma_first_line(line);
    // the command name
    lemma_find_from_bounds(line, "PRIVMSG"@, 0);
    let k = find(line, "PRIVMSG"@)->0;
    lemma_occurs_shift(seq![], line, "\r\n"@, "PRIVMSG"@, k);
    assert(seq![] + line + "\r\n"@ =~= raw);
    lemma_occurs_contains(raw, "PRIVMSG"@, k);
    // the first ` :` ends the tags, the second starts the text
    let tail = info + sep + text;
    assert(line =~= tags + (sep + tail));
    lemma_find_pair_join(tags, sep + tail, ' ', ':');
    assert(line.subrange(0, tags.len() as int) =~= tags);
    assert(line.subrange((tags.len() + 2) as int, line.len() as int) =~= tail);
    assert(tail =~= info + (sep + text));
    lemma_find_pair_join(info, sep + text, ' ', ':');
    assert(tail.subrange((info.len() + 2) as int, tail.len() as int) =~= text);
}

/// In particular, a line with tags `display-name=<name>;color=#<d>`, `d` six hex
/// digits, decodes to a chat message from `name` in color `d`.
pub proof fn lemma_two_tag_chat_line(name: Seq<char>, d: Seq<char>, info: Seq<char>, text: Seq<char>)
    requires
        is_hex6(d),
        lacks(name, ';'),
        lacks(name, ' '),
        lacks(name, '\r'),
        contains(info, "PRIVMSG"@),
        !contains(info, " :"@),
        !contains(info, "\r\n"@),
        !contains(text, "\r\n"@),
        !contains(tagged_line(two_tags(name, d), info, text) + "\r\n"@, cap_ack_marker()),
    ensures
        decode_spec(tagged_line(two_tags(name, d), info, text) + "\r\n"@, true) == EventView::Chat(
            ChatView { author: name, text, color: Some(d) },
        ),
{
    let tags = two_tags(name, d);
    lemma_two_tags(name, d);
    assert(lacks(tags, ' ') && lacks(tags, '\r')) by {
        reveal_strlit("display-name");
        reveal_strlit("=");
        reveal_strlit(";");
        reveal_strlit("color");
        reveal_strlit("#");
        assert forall|i: int| 0 <= i < tags.len() implies tags[i] != ' ' && tags[i] != '\r' by {
            let k = i - (tags.len() - 6);
            if k >= 0 {
                assert(tags[i] == d[k]);
                assert(is_hex_digit(d[k]));
            } else if i >= 13 && i < 13 + name.len() {
                assert(tags[i] == name[i - 13]);
            }
        }
    }
    reveal_strlit(" :");
    assert(" :"@ =~= seq![' ', ':']);
    lemma_lacks_no_pair(tags, ' ', ':');
    lemma_no_crlf(tags);
    lemma_find_from_bounds(info, "PRIVMSG"@, 0);
    let k = find(info, "PRIVMSG"@)->0;
    lemma_occurs_shift(tags + " :"@, info, " :"@ + text, "PRIVMSG"@, k);
    assert(tags + " :"@ + info + (" :"@ + text) =~= tagged_line(tags, info, text));
    lemma_occurs_contains(tagged_line(tags, info, text), "PRIVMSG"@, (tags + " :"@).len() + k);
    lemma_tagged_chat_line(tags, info, text, name);
    assert(strip_hash("#"@ + d) =~= d) by {
        reveal_strlit("#");
    }
}

/// The wire format is not symmetric: an outbound line carries no terminator, so
/// it is never read back as a chat message, but as a diagnostic line (or as the
/// acknowledgement, when the text holds its marker).
pub proof fn lemma_outbound_not_read_back(channel: Seq<char>, text: Seq<char>, tags_enabled: bool)
    requires
        !contains(channel, "\r\n"@),
        !contains(text, "\r\n"@),
    ensures
        decode_spec(encode_spec(channel, text), tags_enabled) == if contains(
            encode_spec(channel, text),
            cap_ack_marker(),
        ) {
            EventView::CapAck
        } else {
            EventView::Other(encode_spec(channel, text))
        },
{
    reveal_strlit("PRIVMSG #");
    reveal_strlit(" :");
    lemma_no_crlf("PRIVMSG #"@);
    lemma_no_crlf(" :"@);
    lemma_crlf_join("PRIVMSG #"@, channel);
    lemma_crlf_join("PRIVMSG #"@ + channel, " :"@);
    lemma_crlf_join("PRIVMSG #"@ + channel + " :"@, text);
}

} // verus!
