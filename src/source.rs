//! The text a song is read from, and diagnostics about it.
use vstd::prelude::*;
use crate::text::{chars_of, slice_chars, string_of};
use crate::tokenizer::TokenPosition;

verus! {

/// A named source text held in memory. Its characters are stored once and
/// tokens refer to them by index.
#[derive(Clone, Debug)]
pub struct StringSource {
    name: String,
    chars: Vec<char>,
}

impl View for StringSource {
    type V = Seq<char>;

    closed spec fn view(&self) -> Seq<char> {
        self.chars@
    }
}

impl StringSource {
    pub closed spec fn name_spec(&self) -> Seq<char> {
        self.name@
    }

    pub fn new(name: &str, text: &str) -> (r: Self)
        ensures
            r@ == text@,
            r.name_spec() == name@,
    {
        StringSource { name: String::from_str(name), chars: chars_of(text) }
    }

    pub fn get_name(&self) -> (r: &str)
        ensures
            r@ == self.name_spec(),
    {
        self.name.as_str()
    }

    pub fn len(&self) -> (r: usize)
        ensures
            r == self@.len(),
    {
        self.chars.len()
    }

    pub(crate) fn chars_ref(&self) -> (r: &Vec<char>)
        ensures
            r@ == self@,
    {
        &self.chars
    }

    pub fn char_at(&self, i: usize) -> (r: char)
        requires
            i < self@.len(),
        ensures
            r == self@[i as int],
    {
        self.chars[i]
    }

    /// The characters `start..end`, where that range lies in the text.
    pub fn get_chars(&self, start: usize, end: usize) -> (r: Option<Vec<char>>)
        ensures
            start <= end <= self@.len() ==> (r matches Some(v) && v@ == self@.subrange(
                start as int,
                end as int,
            )),
            !(start <= end <= self@.len()) ==> r is None,
    {
        if start <= end && end <= self.chars.len() {
            Some(slice_chars(&self.chars, start, end))
        } else {
            None
        }
    }

    /// The text `start..end`, where that range lies in the text.
    pub fn get_text(&self, start: usize, end: usize) -> (r: Option<String>)
        ensures
            start <= end <= self@.len() ==> (r matches Some(t) && t@ == self@.subrange(
                start as int,
                end as int,
            )),
            !(start <= end <= self@.len()) ==> r is None,
    {
        match self.get_chars(start, end) {
            Some(v) => Some(string_of(v)),
            None => None,
        }
    }
}

#[derive(Clone, Copy, Debug, PartialEq, Eq, PartialOrd, Ord, Hash, Structural)]
pub enum DiagnosticLevel {
    Info,
    Warning,
    Error,
    Abort,
}

/// A remark about the source that does not stop tokenizing.
#[derive(Clone, Debug)]
pub struct Diagnostic {
    position: TokenPosition,
    message: String,
    level: DiagnosticLevel,
}

impl Diagnostic {
    pub closed spec fn position_spec(&self) -> TokenPosition {
        self.position
    }

    pub closed spec fn message_spec(&self) -> Seq<char> {
        self.message@
    }

    pub closed spec fn level_spec(&self) -> DiagnosticLevel {
        self.level
    }

    pub fn new(position: TokenPosition, message: String, level: DiagnosticLevel) -> (r: Self)
        ensures
            r.position_spec() == position,
            r.message_spec() == message@,
            r.level_spec() == level,
    {
        Diagnostic { position, message, level }
    }

    pub fn position(&self) -> (r: &TokenPosition)
        ensures
            *r == self.position_spec(),
    {
        &self.position
    }

    pub fn message(&self) -> (r: &str)
        ensures
            r@ == self.message_spec(),
    {
        self.message.as_str()
    }

    pub fn level(&self) -> (r: &DiagnosticLevel)
        ensures
            *r == self.level_spec(),
    {
        &self.level
    }
}

} // verus!
