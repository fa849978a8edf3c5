//! The lines a client has entered, and the place in them that the arrow
//! keys have moved to.

use crate::text::views;
use std::collections::VecDeque;
use vstd::prelude::*;

verus! {

/// The lines entered, oldest first, and a position among them.
#[derive(Debug)]
pub struct History {
    queue: VecDeque<String>,
    pos: usize,
}

/// The way to move through the history.
#[derive(Clone, Copy, Debug, PartialEq, Eq, Structural)]
pub enum Direction {
    Next,
    Previous,
}

impl History {
    /// The lines entered, oldest first.
    pub closed spec fn spec_lines(&self) -> Seq<Seq<char>> {
        views(self.queue@)
    }

    /// The position that the last move led to.
    pub closed spec fn spec_pos(&self) -> usize {
        self.pos
    }

    /// Whether a move in `direction` stays within the positions that can be
    /// counted.
    pub open spec fn can_move(&self, direction: Direction) -> bool {
        match direction {
            Direction::Next => self.spec_pos() > 0,
            Direction::Previous => self.spec_pos() < usize::MAX,
        }
    }

    /// The position that a move in `direction` leads to.
    pub open spec fn moved(&self, direction: Direction) -> int {
        match direction {
            Direction::Next => self.spec_pos() - 1,
            Direction::Previous => self.spec_pos() + 1,
        }
    }

    pub fn new() -> (r: History)
        ensures
            r.spec_lines().len() == 0,
            r.spec_pos() == 0,
    {
        let r = History { queue: VecDeque::new(), pos: 0 };
        assert(r.spec_lines() =~= Seq::<Seq<char>>::empty());
        r
    }

    #[verifier::when_used_as_spec(spec_pos)]
    pub fn pos(&self) -> (r: usize)
        ensures
            r == self.spec_pos(),
    {
        self.pos
    }

    /// Adds a line after the others.
    pub fn push(&mut self, command: String)
        ensures
            final(self).spec_lines() == old(self).spec_lines().push(command@),
            final(self).spec_pos() == old(self).spec_pos(),
    {
        self.queue.push_back(command);
        assert(self.spec_lines() =~= old(self).spec_lines().push(command@));
    }

    /// Moves one step in `direction` and returns the line at the position
    /// reached, if there is one.
    pub fn get(&mut self, direction: &Direction) -> (r: Option<String>)
        requires
            old(self).can_move(*direction),
        ensures
            final(self).spec_lines() == old(self).spec_lines(),
            final(self).spec_pos() == old(self).moved(*direction),
            match r {
                Some(line) => final(self).spec_pos() < final(self).spec_lines().len()
                    && line@ == final(self).spec_lines()[final(self).spec_pos() as int],
                None => final(self).spec_pos() >= final(self).spec_lines().len(),
            },
    {
        match direction {
            Direction::Next => self.pos -= 1,
            Direction::Previous => self.pos += 1,
        };
        if self.pos < self.queue.len() {
            Some(self.queue[self.pos].clone())
        } else {
            None
        }
    }

    /// The lines entered, oldest first.
    pub fn lines(&self) -> (r: Vec<String>)
        ensures
            views(r@) == self.spec_lines(),
    {
        let mut out: Vec<String> = Vec::new();
        let mut i: usize = 0;
        while i < self.queue.len()
            invariant
                i <= self.queue.len(),
                out@.len() == i,
                forall|j: int| 0 <= j < i ==> out@[j]@ == self.queue@[j]@,
            decreases self.queue.len() - i,
        {
            out.push(self.queue[i].clone());
            i += 1;
        }
        assert(views(out@) =~= views(self.queue@));
        out
    }
}

} // verus!
