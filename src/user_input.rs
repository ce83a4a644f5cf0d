//! Chat text typed by the user, before it reaches the supervisor: an up-arrow
//! prefix recalls the last message, and lines that come too fast are held back.

use vstd::prelude::*;
use vstd::string::*;

verus! {

/// The escape sequence a terminal sends for the up arrow.
pub open spec fn up_arrow() -> Seq<char> {
    seq!['\u{1b}', '[', 'A']
}

/// `s` with leading and trailing spaces removed.
pub open spec fn strip_spaces(s: Seq<char>) -> Seq<char>
    decreases s.len(),
{
    if s.len() > 0 && s[0] == ' ' {
        strip_spaces(s.drop_first())
    } else if s.len() > 0 && s.last() == ' ' {
        strip_spaces(s.drop_last())
    } else {
        s
    }
}

/// Relies on `str::trim_matches(' ')`: `s` without its leading and trailing spaces.
#[verifier::external_body]
fn trim_spaces(s: &str) -> (r: &str)
    ensures
        r@ == strip_spaces(s@),
{
    s.trim_matches(' ')
}

/// `s` recalled onto `last`: an up-arrow prefix stands for the last message and a space.
pub open spec fn prepend_spec(s: Seq<char>, last: Seq<char>) -> Seq<char> {
    if s.len() >= 3 && s.subrange(0, 3) == up_arrow() {
        last + seq![' '] + s.subrange(3, s.len() as int)
    } else {
        s
    }
}

/// Replaces a leading up-arrow in `s` with the last message and a space.
pub fn prepend_last_message(s: String, last_msg: &String) -> (r: String)
    ensures
        r@ == prepend_spec(s@, last_msg@),
{
    let t = s.as_str();
    let n = t.unicode_len();
    if n >= 3 && t.get_char(0) == '\u{1b}' && t.get_char(1) == '[' && t.get_char(2) == 'A' {
        assert(t@.subrange(0, 3) =~= up_arrow());
        let mut out = last_msg.clone();
        proof {
            reveal_strlit(" ");
        }
        out.append(" ");
        out.append(t.substring_char(3, n));
        assert(out@ =~= last_msg@ + seq![' '] + t@.subrange(3, n as int));
        out
    } else {
        proof {
            if n >= 3 && t@.subrange(0, 3) == up_arrow() {
                assert(t@.subrange(0, 3)[0] == '\u{1b}');
                assert(t@.subrange(0, 3)[1] == '[');
                assert(t@.subrange(0, 3)[2] == 'A');
            }
        }
        s
    }
}

/// `s`, or `fallback` when `s` is empty; a non-empty `s` becomes the new fallback.
pub fn if_empty_do(s: &String, fallback: &mut String) -> (r: String)
    ensures
        s@.len() == 0 ==> r@ == old(fallback)@ && final(fallback)@ == old(fallback)@,
        s@.len() > 0 ==> r@ == s@ && final(fallback)@ == s@,
{
    if s.as_str().unicode_len() == 0 {
        fallback.clone()
    } else {
        *fallback = s.clone();
        s.clone()
    }
}

/// Holds back user text that arrives faster than the service accepts it.
pub struct SpamGate {
    last_message: String,
}

impl SpamGate {
    /// The last message, recalled by an up-arrow or by an empty line.
    pub closed spec fn last(&self) -> Seq<char> {
        self.last_message@
    }

    pub fn new() -> (r: SpamGate)
        ensures
            r.last() == Seq::<char>::empty(),
    {
        SpamGate { last_message: String::new() }
    }

    /// Handles one typed line. `ready` says whether the pause since the last
    /// send has passed: then the text (or, for an empty line, the last message)
    /// is released; otherwise a non-empty text is kept as the last message and
    /// nothing is released.
    pub fn on_line(&mut self, raw: &str, ready: bool) -> (r: Option<String>)
        ensures
            ({
                let msg = prepend_spec(strip_spaces(raw@), old(self).last());
                if ready {
                    r matches Some(out) && (if msg.len() == 0 {
                        out@ == old(self).last() && final(self).last() == old(self).last()
                    } else {
                        out@ == msg && final(self).last() == msg
                    })
                } else {
                    r is None && final(self).last() == (if msg.len() == 0 {
                        old(self).last()
                    } else {
                        msg
                    })
                }
            }),
    {
        let fmt = String::from_str(trim_spaces(raw));
        let msg = prepend_last_message(fmt, &self.last_message);
        if ready {
            Some(if_empty_do(&msg, &mut self.last_message))
        } else {
            if msg.as_str().unicode_len() > 0 {
                self.last_message = msg;
            }
            None
        }
    }
}

} // verus!
