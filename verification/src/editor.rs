//! The line editor of the client: what each key does to the line being
//! entered.

use crate::history::{Direction, History};
use vstd::prelude::*;
use vstd::string::*;

verus! {

/// A key pressed.
#[derive(Clone, Copy, Debug)]
pub enum Key {
    Char(char),
    Up,
    Down,
    Backspace,
    Ctrl(char),
    Other,
}

/// The line editor.
#[derive(Clone, Copy, Debug)]
pub struct Editor {
    pub should_quit: bool,
    pub newline: bool,
    pub interactive_mode: bool,
}

/// Calls `String::push`, which appends the character to the end of the
/// string.
#[verifier::external_body]
fn push_char(line: &mut String, c: char)
    ensures
        final(line)@ == old(line)@.push(c),
{
    line.push(c);
}

/// Removes the last character of the line, if there is one.
pub fn pop_char(line: &mut String)
    ensures
        final(line)@ == (if old(line)@.len() > 0 {
            old(line)@.drop_last()
        } else {
            old(line)@
        }),
{
    let n = line.as_str().unicode_len();
    if n > 0 {
        let shorter = String::from_str(line.as_str().substring_char(0, n - 1));
        assert(shorter@ =~= line@.drop_last());
        *line = shorter;
    }
}

/// The line after `key` was pressed, where `recalled` is what the history
/// gave for an arrow key.
pub open spec fn line_after(line: Seq<char>, key: Key, recalled: Option<Seq<char>>) -> Seq<char> {
    match key {
        Key::Char(c) => if c == '\n' {
            line
        } else {
            line.push(c)
        },
        Key::Up | Key::Down => if line.len() == 0 && recalled.is_some() {
            recalled.unwrap()
        } else {
            line
        },
        Key::Backspace => if line.len() > 0 {
            line.drop_last()
        } else {
            line
        },
        Key::Ctrl(c) => if c == 'c' {
            Seq::empty()
        } else {
            line
        },
        Key::Other => line,
    }
}

/// The way through the history that `key` takes on the line `line`: up to
/// the previous entry and down to the next, on an empty line only, and
/// only where the history can move that way.
pub open spec fn recall_direction(history: &History, line: Seq<char>, key: Key) -> Option<Direction> {
    match key {
        Key::Up => if line.len() == 0 && history.can_move(Direction::Previous) {
            Some(Direction::Previous)
        } else {
            None
        },
        Key::Down => if line.len() == 0 && history.can_move(Direction::Next) {
            Some(Direction::Next)
        } else {
            None
        },
        _ => None,
    }
}

/// The line that the history holds at the position that a move in
/// `direction` leads to, if it holds one there.
pub open spec fn recalled(history: &History, direction: Option<Direction>) -> Option<Seq<char>> {
    match direction {
        Some(d) => if 0 <= history.moved(d) < history.spec_lines().len() {
            Some(history.spec_lines()[history.moved(d)])
        } else {
            None
        },
        None => None,
    }
}

impl Editor {
    /// The editor before any key was pressed.
    pub fn default(interactive_mode: bool) -> (r: Editor)
        ensures
            r == (Editor { should_quit: false, newline: false, interactive_mode }),
    {
        Editor { should_quit: false, newline: false, interactive_mode }
    }

    /// Takes one key. A character joins the line, and a line feed ends it;
    /// on an empty line the arrows recall a line of the history; backspace
    /// removes the last character; control-D quits and control-C empties
    /// the line. Returns whether an empty line is to be shown, which is
    /// after control-C on an empty line.
    pub fn process_keypress(&mut self, line: &mut String, history: &mut History, key: Key) -> (blank:
        bool)
        ensures
            final(self).interactive_mode == old(self).interactive_mode,
            final(self).newline == (old(self).newline || key == Key::Char('\n')),
            final(self).should_quit == (old(self).should_quit || key == Key::Ctrl('d')),
            final(history).spec_lines() == old(history).spec_lines(),
            final(history).spec_pos() == (match recall_direction(old(history), old(line)@, key) {
                Some(d) => old(history).moved(d),
                None => old(history).spec_pos() as int,
            }),
            final(line)@ == line_after(
                old(line)@,
                key,
                recalled(old(history), recall_direction(old(history), old(line)@, key)),
            ),
            blank == (key == Key::Ctrl('c') && old(line)@.len() == 0),
    {
        let mut blank = false;
        match key {
            Key::Char(c) => {
                if c == '\n' {
                    self.newline = true;
                } else {
                    push_char(line, c);
                }
            },
            Key::Up => {
                if line.as_str().is_empty() && history.pos() < usize::MAX {
                    match history.get(&Direction::Previous) {
                        Some(cmd) => {
                            *line = cmd;
                        },
                        None => {},
                    }
                }
            },
            Key::Down => {
                if line.as_str().is_empty() && history.pos() > 0 {
                    match history.get(&Direction::Next) {
                        Some(cmd) => {
                            *line = cmd;
                        },
                        None => {},
                    }
                }
            },
            Key::Backspace => {
                pop_char(line);
            },
            Key::Ctrl(c) => {
                if c == 'd' {
                    self.should_quit = true;
                } else if c == 'c' {
                    if line.as_str().is_empty() {
                        blank = true;
                    }
                    *line = String::new();
                }
            },
            Key::Other => {},
        }
        blank
    }
}

} // verus!
