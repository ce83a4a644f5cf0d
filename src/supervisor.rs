//! The supervisor: the single owner of the connection options, the wanted
//! channel and the one live connection. It is a state machine; the caller runs
//! connections and feeds back the commands it receives and the connections
//! that end.

use vstd::prelude::*;
use vstd::string::*;
use crate::connection::{ConnectOptions, OptionsView};

verus! {

/// The kind of a supervisor command.
#[derive(PartialEq, Eq, Structural)]
pub enum WsCommand {
    /// Send the argument as chat text.
    Message,
    /// Join the argument's channel.
    Join,
    /// Leave the channel and stop keeping a connection to it.
    Leave,
    /// Set the nick used on the next connect.
    Nick,
}

/// A supervisor command and its argument.
pub struct Message(pub WsCommand, pub String);

impl Message {
    /// The command named `cmd` (`join`, `leave`, `m`, `nick`) with argument `arg`;
    /// `leave` takes no argument.
    pub fn try_from_parts(cmd: &str, arg: &str) -> (r: Result<Message, ()>)
        ensures
            cmd@ == "join"@ ==> (r matches Ok(m) && m.0 == WsCommand::Join && m.1@ == arg@),
            cmd@ == "leave"@ ==> (r matches Ok(m) && m.0 == WsCommand::Leave && m.1@.len() == 0),
            cmd@ == "m"@ ==> (r matches Ok(m) && m.0 == WsCommand::Message && m.1@ == arg@),
            cmd@ == "nick"@ ==> (r matches Ok(m) && m.0 == WsCommand::Nick && m.1@ == arg@),
            r is Err <==> (cmd@ != "join"@ && cmd@ != "leave"@ && cmd@ != "m"@ && cmd@ != "nick"@),
    {
        proof {
            reveal_strlit("join");
            reveal_strlit("leave");
            reveal_strlit("m");
            reveal_strlit("nick");
            assert("join"@.len() == 4 && "leave"@.len() == 5 && "m"@.len() == 1 && "nick"@.len()
                == 4);
            assert("join"@ != "nick"@) by {
                assert("join"@[0] != "nick"@[0]);
            }
        }
        let c = String::from_str(cmd);
        if c == String::from_str("join") {
            Ok(Message(WsCommand::Join, String::from_str(arg)))
        } else if c == String::from_str("leave") {
            Ok(Message(WsCommand::Leave, String::new()))
        } else if c == String::from_str("m") {
            Ok(Message(WsCommand::Message, String::from_str(arg)))
        } else if c == String::from_str("nick") {
            Ok(Message(WsCommand::Nick, String::from_str(arg)))
        } else {
            Err(())
        }
    }
}

/// What the supervisor reports to its user about a command.
#[derive(PartialEq, Eq, Structural)]
pub enum Notice {
    Quiet,
    /// The live connection was left.
    Left,
    /// `Leave` with no channel joined: nothing was done.
    NotInChannel,
    /// The nick was changed for the next connect.
    NickSet,
}

/// What the caller must do after one step, in this order: cancel a connection,
/// start one, hand text to one.
pub struct Step {
    pub cancel: Option<u64>,
    pub start: Option<(u64, ConnectOptions)>,
    pub forward: Option<(u64, String)>,
    pub notice: Notice,
}

pub struct StepView {
    pub cancel: Option<u64>,
    pub start: Option<(u64, OptionsView)>,
    pub forward: Option<(u64, Seq<char>)>,
    pub notice: Notice,
}

impl View for Step {
    type V = StepView;

    open spec fn view(&self) -> StepView {
        StepView {
            cancel: self.cancel,
            start: match self.start {
                Some((id, o)) => Some((id, o@)),
                None => None,
            },
            forward: match self.forward {
                Some((id, t)) => Some((id, t@)),
                None => None,
            },
            notice: self.notice,
        }
    }
}

/// The identifier handed to the connection after `id`.
pub open spec fn next_after(id: u64) -> u64 {
    if id == u64::MAX {
        0
    } else {
        (id + 1) as u64
    }
}

/// `o` with its channel set to `ch`.
pub open spec fn with_channel(o: OptionsView, ch: Seq<char>) -> OptionsView {
    OptionsView { channel: ch, ..o }
}

/// A step that asks for nothing.
pub open spec fn quiet_step() -> StepView {
    StepView { cancel: None, start: None, forward: None, notice: Notice::Quiet }
}

/// The supervisor's state as values.
pub struct SupervisorView {
    /// The options the next connection starts with.
    pub options: OptionsView,
    /// The channel the supervisor keeps a connection to.
    pub wanted: Option<Seq<char>>,
    /// The identifier of the live connection.
    pub live: Option<u64>,
    /// The identifier the next connection gets.
    pub next_id: u64,
}

impl SupervisorView {
    /// A connection is live exactly while a channel is wanted; it is for that
    /// channel, and its identifier is not the next one to be handed out.
    pub open spec fn wf(self) -> bool {
        &&& (self.live is Some) == (self.wanted is Some)
        &&& self.wanted matches Some(w) ==> self.options.channel == w
        &&& self.live matches Some(k) ==> k != self.next_id
    }
}

/// Cancel the live connection, if any, and start one for `ch`.
pub open spec fn join_spec(s: SupervisorView, ch: Seq<char>) -> (SupervisorView, StepView) {
    (
        SupervisorView {
            options: with_channel(s.options, ch),
            wanted: Some(ch),
            live: Some(s.next_id),
            next_id: next_after(s.next_id),
        },
        StepView {
            cancel: s.live,
            start: Some((s.next_id, with_channel(s.options, ch))),
            forward: None,
            notice: Notice::Quiet,
        },
    )
}

/// The state after command `kind` with argument `arg`, and what the caller must do.
pub open spec fn handle_spec(s: SupervisorView, kind: WsCommand, arg: Seq<char>) -> (
    SupervisorView,
    StepView,
) {
    match kind {
        WsCommand::Join => join_spec(s, arg),
        WsCommand::Leave => (
            SupervisorView { wanted: None, live: None, ..s },
            StepView {
                cancel: s.live,
                start: None,
                forward: None,
                notice: if s.live is Some {
                    Notice::Left
                } else {
                    Notice::NotInChannel
                },
            },
        ),
        WsCommand::Message => (
            s,
            StepView {
                cancel: None,
                start: None,
                forward: match s.live {
                    Some(id) => Some((id, arg)),
                    None => None,
                },
                notice: Notice::Quiet,
            },
        ),
        WsCommand::Nick => (
            SupervisorView { options: OptionsView { nick: Some(arg), ..s.options }, ..s },
            StepView { cancel: None, start: None, forward: None, notice: Notice::NickSet },
        ),
    }
}

/// The state after connection `id` ends: the live connection's end joins the
/// wanted channel again; any other end changes nothing.
pub open spec fn ended_spec(s: SupervisorView, id: u64) -> (SupervisorView, StepView) {
    if s.live == Some(id) && s.wanted is Some {
        join_spec(SupervisorView { live: None, ..s }, s.wanted->0)
    } else {
        (s, quiet_step())
    }
}

pub struct Supervisor {
    options: ConnectOptions,
    wanted_channel: Option<String>,
    live: Option<u64>,
    next_id: u64,
}

impl View for Supervisor {
    type V = SupervisorView;

    closed spec fn view(&self) -> SupervisorView {
        SupervisorView {
            options: self.options@,
            wanted: match self.wanted_channel {
                Some(w) => Some(w@),
                None => None,
            },
            live: self.live,
            next_id: self.next_id,
        }
    }
}

impl Supervisor {
    /// An idle supervisor with the given options.
    pub fn new(options: ConnectOptions) -> (r: Supervisor)
        ensures
            r@.wf(),
            r@.options == options@,
            r@.wanted is None,
            r@.live is None,
    {
        Supervisor { options, wanted_channel: None, live: None, next_id: 0 }
    }

    pub fn options_ref(&self) -> (r: &ConnectOptions)
        ensures
            r@ == self@.options,
    {
        &self.options
    }

    pub fn live_connection(&self) -> (r: Option<u64>)
        ensures
            r == self@.live,
    {
        self.live
    }

    pub fn wanted_channel(&self) -> (r: Option<&str>)
        ensures
            r matches Some(w) ==> self@.wanted == Some(w@),
            r is None ==> self@.wanted is None,
    {
        match &self.wanted_channel {
            Some(w) => Some(w.as_str()),
            None => None,
        }
    }

    fn join(&mut self, ch: String) -> (r: Step)
        ensures
            (final(self)@, r@) == join_spec(old(self)@, ch@),
    {
        let cancel = self.live;
        self.options.channel = ch.clone();
        self.wanted_channel = Some(ch);
        let id = self.next_id;
        self.next_id = if self.next_id == u64::MAX {
            0
        } else {
            self.next_id + 1
        };
        self.live = Some(id);
        let snapshot = self.options.clone();
        Step { cancel, start: Some((id, snapshot)), forward: None, notice: Notice::Quiet }
    }

    /// Sets the token used from the next connect on; the live connection keeps
    /// the one it started with.
    pub fn set_oauth(&mut self, token: String)
        requires
            old(self)@.wf(),
        ensures
            final(self)@.wf(),
            final(self)@ == (SupervisorView {
                options: OptionsView { oauth: Some(token@), ..old(self)@.options },
                ..old(self)@
            }),
    {
        self.options.oauth = Some(token);
    }

    /// Handles one command.
    pub fn handle(&mut self, msg: Message) -> (r: Step)
        requires
            old(self)@.wf(),
        ensures
            final(self)@.wf(),
            (final(self)@, r@) == handle_spec(old(self)@, msg.0, msg.1@),
    {
        let Message(kind, arg) = msg;
        match kind {
            WsCommand::Join => self.join(arg),
            WsCommand::Leave => {
                let cancel = self.live;
                let notice = if cancel.is_some() {
                    Notice::Left
                } else {
                    Notice::NotInChannel
                };
                self.live = None;
                self.wanted_channel = None;
                Step { cancel, start: None, forward: None, notice }
            },
            WsCommand::Message => {
                let forward = match self.live {
                    Some(id) => Some((id, arg)),
                    None => None,
                };
                Step { cancel: None, start: None, forward, notice: Notice::Quiet }
            },
            WsCommand::Nick => {
                self.options.nick = Some(arg);
                Step { cancel: None, start: None, forward: None, notice: Notice::NickSet }
            },
        }
    }

    /// The connection `id` has ended. If it was the live one, the wanted channel
    /// is joined again at once; the end of a connection that was already
    /// replaced or left changes nothing.
    pub fn connection_ended(&mut self, id: u64) -> (r: Step)
        requires
            old(self)@.wf(),
        ensures
            final(self)@.wf(),
            (final(self)@, r@) == ended_spec(old(self)@, id),
    {
        if self.live == Some(id) {
            let ch = match &self.wanted_channel {
                Some(w) => w.clone(),
                None => String::new(),
            };
            self.live = None;
            self.join(ch)
        } else {
            Step { cancel: None, start: None, forward: None, notice: Notice::Quiet }
        }
    }
}

/// Joining `b` while the connection for `a` is live cancels that connection and
/// leaves exactly one live connection, for `b`; when `a`'s connection then
/// ends, nothing happens: `a` is not joined again.
pub proof fn lemma_second_join_replaces_first(s: SupervisorView, a: Seq<char>, b: Seq<char>)
    requires
        s.wf(),
    ensures
        ({
            let (s1, st1) = handle_spec(s, WsCommand::Join, a);
            let (s2, st2) = handle_spec(s1, WsCommand::Join, b);
            let (first, _) = st1.start->0;
            let (second, opts) = st2.start->0;
            let (s3, st3) = ended_spec(s2, first);
            &&& st2.cancel == Some(first)
            &&& first != second
            &&& s2.live == Some(second)
            &&& s2.wanted == Some(b)
            &&& opts.channel == b
            &&& s3 == s2
            &&& st3 == quiet_step()
        }),
{
}

/// `Leave` with no channel joined touches no connection and changes nothing.
pub proof fn lemma_leave_when_idle(s: SupervisorView, arg: Seq<char>)
    requires
        s.wf(),
        s.wanted is None,
    ensures
        handle_spec(s, WsCommand::Leave, arg) == (s, StepView {
            notice: Notice::NotInChannel,
            ..quiet_step()
        }),
{
}

/// When the live connection for the wanted channel `x` ends, the supervisor
/// joins `x` once more: one new connection, for `x`, becomes the live one.
pub proof fn lemma_unexpected_end_rejoins(s: SupervisorView, x: Seq<char>, id: u64)
    requires
        s.wf(),
        s.wanted == Some(x),
        s.live == Some(id),
    ensures
        ({
            let (s1, st) = ended_spec(s, id);
            &&& st == (StepView {
                cancel: None,
                start: Some((s.next_id, s.options)),
                forward: None,
                notice: Notice::Quiet,
            })
            &&& s.options.channel == x
            &&& s1.live == Some(s.next_id)
            &&& s.next_id != id
            &&& s1.wanted == Some(x)
            &&& s1.wf()
        }),
{
    assert(with_channel(s.options, x) == s.options);
}

} // verus!
