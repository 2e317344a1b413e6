//! The console's input side: the queue of typed characters and the editing
//! of a line.

use vstd::prelude::*;
use std::collections::VecDeque;

verus! {

/// `String::push` appends the character to the string.
pub assume_specification[ String::push ](s: &mut String, ch: char)
    ensures
        final(s)@ == old(s)@.push(ch),
;

/// `String::pop` takes the last character off the string and returns it;
/// an empty string stays empty and `None` is returned.
pub assume_specification[ String::pop ](s: &mut String) -> (r: Option<char>)
    ensures
        match r {
            Some(ch) => old(s)@.len() > 0 && ch == old(s)@.last() && final(s)@ == old(s)@.drop_last(),
            None => old(s)@.len() == 0 && final(s)@ == old(s)@,
        },
;

/// The delete character.
pub const DELETE: char = '\u{7f}';

/// What one typed character does to the line.
pub struct LineStep {
    /// The character to print in answer, if any.
    pub echo: Option<char>,
    /// Whether the line is complete.
    pub complete: bool,
}

/// Whether a character is taken into the line: the printable ASCII characters.
pub open spec fn is_printable(c: char) -> bool {
    ' ' <= c <= '\u{7e}'
}

/// Whether a character ends the line.
pub open spec fn ends_line(c: char) -> bool {
    c == '\n' || c == '\r'
}

/// The line after `c` was typed: a delete takes the last character off, a
/// printable character is appended, anything else leaves the line alone.
pub open spec fn line_after(line: Seq<char>, c: char) -> Seq<char> {
    if c == DELETE {
        if line.len() > 0 {
            line.drop_last()
        } else {
            line
        }
    } else if is_printable(c) {
        line.push(c)
    } else {
        line
    }
}

/// What is printed in answer to `c`: a delete is echoed if it took a
/// character off, a printable character is echoed, the end of the line is
/// echoed as a line feed, and nothing else is echoed.
pub open spec fn echo_of(line: Seq<char>, c: char) -> Option<char> {
    if c == DELETE {
        if line.len() > 0 {
            Some(DELETE)
        } else {
            None
        }
    } else if is_printable(c) {
        Some(c)
    } else if ends_line(c) {
        Some('\n')
    } else {
        None
    }
}

/// The line that is being typed.
pub struct LineBuffer {
    line: String,
}

impl LineBuffer {
    /// What was typed so far.
    pub closed spec fn view(&self) -> Seq<char> {
        self.line@
    }

    pub fn new() -> (buffer: Self)
        ensures
            buffer@ == Seq::<char>::empty(),
    {
        LineBuffer { line: String::new() }
    }

    /// Takes one typed character in.
    pub fn feed(&mut self, c: char) -> (step: LineStep)
        ensures
            final(self)@ == line_after(old(self)@, c),
            step.echo == echo_of(old(self)@, c),
            step.complete == ends_line(c),
    {
        if c == DELETE {
            if self.line.pop().is_some() {
                LineStep { echo: Some(DELETE), complete: false }
            } else {
                LineStep { echo: None, complete: false }
            }
        } else if ' ' <= c && c <= '\u{7e}' {
            self.line.push(c);
            LineStep { echo: Some(c), complete: false }
        } else if c == '\n' || c == '\r' {
            LineStep { echo: Some('\n'), complete: true }
        } else {
            LineStep { echo: None, complete: false }
        }
    }

    /// The line that was typed.
    pub fn into_line(self) -> (line: String)
        ensures
            line@ == self@,
    {
        self.line
    }
}

/// The characters that were typed and not yet read, the oldest first.
pub struct InputQueue {
    buf: VecDeque<char>,
}

impl Default for InputQueue {
    fn default() -> (queue: Self)
        ensures
            queue@ == Seq::<char>::empty(),
    {
        InputQueue::new()
    }
}

impl InputQueue {
    pub closed spec fn view(&self) -> Seq<char> {
        self.buf@
    }

    pub fn new() -> (queue: Self)
        ensures
            queue@ == Seq::<char>::empty(),
    {
        InputQueue { buf: VecDeque::new() }
    }

    /// Appends a typed character.
    pub fn push(&mut self, c: char)
        ensures
            final(self)@ == old(self)@.push(c),
    {
        self.buf.push_back(c);
    }

    /// Takes the oldest character out; `None` if there is none to read.
    pub fn pop(&mut self) -> (r: Option<char>)
        ensures
            match r {
                Some(c) => old(self)@.len() > 0 && c == old(self)@[0] && final(self)@ == old(
                    self,
                )@.drop_first(),
                None => old(self)@.len() == 0 && final(self)@ == old(self)@,
            },
    {
        let r = self.buf.pop_front();
        proof {
            if r is Some {
                assert(self@ =~= old(self)@.drop_first());
            }
        }
        r
    }
}

} // verus!
