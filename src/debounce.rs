//! Outbound text rewriting that gets identical consecutive messages past the
//! service's duplicate filter.

use vstd::prelude::*;
use vstd::string::*;

verus! {

/// The invisible suffix toggled on a repeated message: a space and U+E0000.
pub open spec fn marker() -> Seq<char> {
    seq![' ', '\u{E0000}']
}

/// `t` with the marker toggled: stripped when it ends `t`, appended otherwise.
pub open spec fn toggle_marker(t: Seq<char>) -> Seq<char> {
    if t.len() >= 2 && t.subrange(t.len() - 2, t.len() as int) == marker() {
        t.subrange(0, t.len() - 2)
    } else {
        t + marker()
    }
}

/// The text sent for `input` after `last` was sent: empty input repeats `last`,
/// and a text equal to `last` gets its marker toggled.
pub open spec fn debounce_spec(last: Option<Seq<char>>, input: Seq<char>) -> Seq<char> {
    let text = if input.len() == 0 && last is Some {
        last->0
    } else {
        input
    };
    if last == Some(text) {
        toggle_marker(text)
    } else {
        text
    }
}

pub struct SendDebouncer {
    last_sent: Option<String>,
}

impl SendDebouncer {
    /// What was sent last, if anything.
    pub closed spec fn last(&self) -> Option<Seq<char>> {
        match self.last_sent {
            Some(s) => Some(s@),
            None => None,
        }
    }

    pub fn new() -> (r: SendDebouncer)
        ensures
            r.last() is None,
    {
        SendDebouncer { last_sent: None }
    }

    /// The text to send for `input`; it becomes the last text sent.
    pub fn debounce(&mut self, input: &str) -> (r: String)
        ensures
            r@ == debounce_spec(old(self).last(), input@),
            final(self).last() == Some(r@),
    {
        let text: String = if input.unicode_len() == 0 && self.last_sent.is_some() {
            self.last_sent.clone().unwrap()
        } else {
            String::from_str(input)
        };
        let repeated = match &self.last_sent {
            Some(l) => *l == text,
            None => false,
        };
        let out = if repeated {
            toggled(text)
        } else {
            text
        };
        self.last_sent = Some(out.clone());
        out
    }
}

/// `t` with the marker toggled.
fn toggled(t: String) -> (r: String)
    ensures
        r@ == toggle_marker(t@),
{
    let s = t.as_str();
    let n = s.unicode_len();
    if n >= 2 && s.get_char(n - 2) == ' ' && s.get_char(n - 1) == '\u{E0000}' {
        assert(s@.subrange(n - 2, n as int) =~= marker());
        String::from_str(s.substring_char(0, n - 2))
    } else {
        proof {
            if n >= 2 && s@.subrange(n - 2, n as int) == marker() {
                assert(s@.subrange(n - 2, n as int)[0] == ' ');
                assert(s@.subrange(n - 2, n as int)[1] == '\u{E0000}');
            }
            reveal_strlit(" \u{E0000}");
        }
        let mut out = String::from_str(s);
        out.append(" \u{E0000}");
        assert(" \u{E0000}"@ =~= marker());
        out
    }
}

/// Sending one text three times in a row sends it as is, then with the marker,
/// then as is again; an empty text right after it repeats it, and counts as a
/// repeat, so the marker is toggled.
pub proof fn lemma_repeat_toggles(x: Seq<char>)
    requires
        x.len() > 0,
        !(x.len() >= 2 && x.subrange(x.len() - 2, x.len() as int) == marker()),
    ensures
        debounce_spec(None, x) == x,
        debounce_spec(Some(x), x) == x + marker(),
        debounce_spec(Some(x + marker()), x) == x,
        debounce_spec(Some(x), seq![]) == x + marker(),
{
    assert((x + marker()).len() != x.len());
}

} // verus!
