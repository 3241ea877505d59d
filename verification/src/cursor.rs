//! A cursor over decoded source text: peek at the next character without
//! consuming it, or consume it. The cursor never moves backwards.
use crate::text::decode;
use vstd::prelude::*;

verus! {

/// The first character of `s`, if there is one.
pub open spec fn head(s: Seq<char>) -> Option<char> {
    if s.len() > 0 {
        Some(s[0])
    } else {
        None
    }
}

/// What is left of `s` once its first character is consumed; an empty
/// input stays empty.
pub open spec fn tail(s: Seq<char>) -> Seq<char> {
    if s.len() > 0 {
        s.skip(1)
    } else {
        s
    }
}

/// A position in a source text. Its view is the text not yet consumed.
pub struct Cursor {
    chars: Vec<char>,
    pos: usize,
}

impl View for Cursor {
    type V = Seq<char>;

    closed spec fn view(&self) -> Seq<char> {
        self.chars@.skip(self.pos as int)
    }
}

impl Cursor {
    #[verifier::type_invariant]
    spec fn in_bounds(&self) -> bool {
        self.pos <= self.chars.len()
    }

    /// A cursor at the start of `text`.
    pub fn new(text: &str) -> (cursor: Cursor)
        ensures
            cursor@ == text@,
    {
        Cursor { chars: decode(text), pos: 0 }
    }

    /// The next character, left in place.
    pub fn peek(&self) -> (c: Option<char>)
        ensures
            c == head(self@),
    {
        proof {
            use_type_invariant(self);
        }
        if self.pos < self.chars.len() {
            Some(self.chars[self.pos])
        } else {
            None
        }
    }

    /// Consumes the next character and returns it; `None` at the end of the
    /// text, where the cursor stays.
    pub fn next(&mut self) -> (c: Option<char>)
        ensures
            c == head(old(self)@),
            final(self)@ == tail(old(self)@),
    {
        proof {
            use_type_invariant(&*self);
        }
        if self.pos < self.chars.len() {
            let c = self.chars[self.pos];
            self.pos = self.pos + 1;
            assert(self.chars@.skip(self.pos as int) =~= old(self)@.skip(1));
            Some(c)
        } else {
            None
        }
    }

    /// Whether every character has been consumed.
    pub fn is_at_end(&self) -> (b: bool)
        ensures
            b == (self@.len() == 0),
    {
        proof {
            use_type_invariant(self);
        }
        self.pos >= self.chars.len()
    }
}

} // verus!
