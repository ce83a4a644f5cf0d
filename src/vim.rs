//! A small vim-style key sequence reader: an optional command key, a count
//! and a motion, shown back to the user as they are typed.

use vstd::prelude::*;
use vstd::string::*;
use std::collections::HashMap;
use crate::text::char_str;

verus! {

/// A key as the reader sees it.
pub enum Key {
    Esc,
    Char(char),
    Other,
}

pub open spec fn is_motion_key(c: char) -> bool {
    c == 'h' || c == 'j' || c == 'k' || c == 'l'
}

pub open spec fn is_command_key(c: char) -> bool {
    c == 'd'
}

pub open spec fn is_number_key(c: char) -> bool {
    '0' <= c && c <= '9'
}

/// The sequence typed so far, and the actions registered for motion and
/// command keys (keyed by the key's code point).
pub struct VimState<H> {
    command: String,
    count: String,
    motion: String,
    motion_handlers: HashMap<u32, H>,
    command_handlers: HashMap<u32, H>,
}

impl<H> VimState<H> {
    pub closed spec fn command_seq(&self) -> Seq<char> {
        self.command@
    }

    pub closed spec fn count_seq(&self) -> Seq<char> {
        self.count@
    }

    pub closed spec fn motion_seq(&self) -> Seq<char> {
        self.motion@
    }

    pub closed spec fn motions(&self) -> Map<u32, H> {
        self.motion_handlers@
    }

    pub closed spec fn commands(&self) -> Map<u32, H> {
        self.command_handlers@
    }

    /// Nothing typed and nothing registered.
    pub open spec fn is_empty(&self) -> bool {
        &&& self.command_seq().len() == 0
        &&& self.count_seq().len() == 0
        &&& self.motion_seq().len() == 0
        &&& self.motions() == Map::<u32, H>::empty()
        &&& self.commands() == Map::<u32, H>::empty()
    }

    pub fn new() -> (r: VimState<H>)
        ensures
            r.is_empty(),
    {
        VimState {
            command: String::new(),
            count: String::new(),
            motion: String::new(),
            motion_handlers: HashMap::new(),
            command_handlers: HashMap::new(),
        }
    }

    /// Registers the action for motion key `c`, replacing any earlier one.
    pub fn register_motion(&mut self, c: char, action: H)
        ensures
            final(self).motions() == old(self).motions().insert(c as u32, action),
            final(self).commands() == old(self).commands(),
            final(self).command_seq() == old(self).command_seq(),
            final(self).count_seq() == old(self).count_seq(),
            final(self).motion_seq() == old(self).motion_seq(),
    {
        self.motion_handlers.insert(c as u32, action);
    }

    /// Registers the action for command key `c`, replacing any earlier one.
    pub fn register_command(&mut self, c: char, action: H)
        ensures
            final(self).commands() == old(self).commands().insert(c as u32, action),
            final(self).motions() == old(self).motions(),
            final(self).command_seq() == old(self).command_seq(),
            final(self).count_seq() == old(self).count_seq(),
            final(self).motion_seq() == old(self).motion_seq(),
    {
        self.command_handlers.insert(c as u32, action);
    }

    /// The sequence as typed: command, count, motion.
    pub fn to_string(&self) -> (r: String)
        ensures
            r@ == self.command_seq() + self.count_seq() + self.motion_seq(),
    {
        let mut s = self.command.clone();
        s.append(self.count.as_str());
        s.append(self.motion.as_str());
        s
    }

    /// Takes one key; returns whether the reader should stop. Escape and a
    /// completed motion start over; a command key sets the command; a digit
    /// extends the count; `q` stops.
    pub fn push(&mut self, k: Key) -> (r: bool)
        ensures
            r == (k == Key::Char('q')),
            match k {
                Key::Esc => final(self).is_empty(),
                Key::Char(c) => if c == 'q' {
                    *final(self) == *old(self)
                } else if is_motion_key(c) {
                    final(self).is_empty()
                } else if is_command_key(c) {
                    final(self).command_seq() == seq![c] && final(self).count_seq() == old(
                        self,
                    ).count_seq() && final(self).motion_seq() == old(self).motion_seq()
                        && final(self).motions() == old(self).motions() && final(self).commands()
                        == old(self).commands()
                } else if is_number_key(c) {
                    final(self).count_seq() == old(self).count_seq().push(c)
                        && final(self).command_seq() == old(self).command_seq()
                        && final(self).motion_seq() == old(self).motion_seq()
                        && final(self).motions() == old(self).motions() && final(self).commands()
                        == old(self).commands()
                } else {
                    *final(self) == *old(self)
                },
                Key::Other => *final(self) == *old(self),
            },
    {
        let mut exit = false;
        match k {
            Key::Esc => self.reset(),
            Key::Char(c) => {
                if c == 'q' {
                    exit = true;
                } else if c == 'h' || c == 'j' || c == 'k' || c == 'l' {
                    self.do_motion(c);
                } else if c == 'd' {
                    self.set_command(c);
                } else if '0' <= c && c <= '9' {
                    self.add_count(c);
                }
            },
            Key::Other => {},
        }
        exit
    }

    fn reset(&mut self)
        ensures
            final(self).is_empty(),
    {
        *self = Self::new()
    }

    fn do_motion(&mut self, c: char)
        ensures
            final(self).is_empty(),
    {
        self.motion = char_str(c);
        self.end()
    }

    fn set_command(&mut self, c: char)
        ensures
            final(self).command_seq() == seq![c],
            final(self).count_seq() == old(self).count_seq(),
            final(self).motion_seq() == old(self).motion_seq(),
            final(self).motions() == old(self).motions(),
            final(self).commands() == old(self).commands(),
    {
        self.command = char_str(c);
    }

    fn add_count(&mut self, c: char)
        ensures
            final(self).count_seq() == old(self).count_seq().push(c),
            final(self).command_seq() == old(self).command_seq(),
            final(self).motion_seq() == old(self).motion_seq(),
            final(self).motions() == old(self).motions(),
            final(self).commands() == old(self).commands(),
    {
        let one = char_str(c);
        self.count.append(one.as_str());
        assert(self.count@ =~= old(self).count@.push(c));
    }

    /// A completed sequence: start over.
    fn end(&mut self)
        ensures
            final(self).is_empty(),
    {
        self.reset()
    }
}

} // verus!
