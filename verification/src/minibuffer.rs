//! The one-line minibuffer: a prompt state machine with typed modes and
//! messages that expire after a fixed number of ticks.

use vstd::prelude::*;

use crate::text::to_chars;

verus! {

/// What the minibuffer is currently used for.
#[derive(Clone, Copy, PartialEq, Eq, Structural, Debug)]
pub enum MiniBufferMode {
    Inactive,
    Command,
    FindFile,
    SaveBuffer,
    GotoLine,
    ISearchForward,
    ISearchBackward,
    Message { ttl: u32 },
}

pub struct MiniBuffer {
    /// The visible text: the prompt followed by what the user typed.
    pub text: Vec<char>,
    pub active: bool,
    pub mode: MiniBufferMode,
}

impl MiniBuffer {
    /// An inactive, empty minibuffer.
    pub fn new() -> (r: MiniBuffer)
        ensures
            r.text@ == Seq::<char>::empty(),
            !r.active,
            r.mode == MiniBufferMode::Inactive,
    {
        MiniBuffer { text: Vec::new(), active: false, mode: MiniBufferMode::Inactive }
    }

    /// Replace the text with `prompt`, mark active and set the mode.
    pub fn activate(&mut self, prompt: &str, mode: MiniBufferMode)
        ensures
            final(self).text@ == prompt@,
            final(self).active,
            final(self).mode == mode,
    {
        self.text = to_chars(prompt);
        self.active = true;
        self.mode = mode;
    }

    /// Clear the text and fall back to `Inactive`.
    pub fn deactivate(&mut self)
        ensures
            final(self).text@ == Seq::<char>::empty(),
            !final(self).active,
            final(self).mode == MiniBufferMode::Inactive,
    {
        self.text = Vec::new();
        self.active = false;
        self.mode = MiniBufferMode::Inactive;
    }

    /// Replace the text, leaving mode and activity alone.
    pub fn set_text(&mut self, text: &str)
        ensures
            final(self).text@ == text@,
            final(self).active == old(self).active,
            final(self).mode == old(self).mode,
    {
        self.text = to_chars(text);
    }

    /// Replace the text with an already converted character vector.
    pub fn set_chars(&mut self, text: Vec<char>)
        ensures
            final(self).text@ == text@,
            final(self).active == old(self).active,
            final(self).mode == old(self).mode,
    {
        self.text = text;
    }

    /// Append one character.
    pub fn push(&mut self, c: char)
        ensures
            final(self).text@ == old(self).text@.push(c),
            final(self).active == old(self).active,
            final(self).mode == old(self).mode,
    {
        self.text.push(c);
    }

    /// Drop the last character, if any.
    pub fn pop(&mut self)
        ensures
            old(self).text@.len() == 0 ==> final(self).text@ == old(self).text@,
            old(self).text@.len() > 0 ==> final(self).text@ == old(self).text@.drop_last(),
            final(self).active == old(self).active,
            final(self).mode == old(self).mode,
    {
        let _ = self.text.pop();
    }

    /// The visible text.
    pub fn get(&self) -> (r: &Vec<char>)
        ensures
            r@ == self.text@,
    {
        &self.text
    }

    pub fn mode(&self) -> (r: MiniBufferMode)
        ensures
            r == self.mode,
    {
        self.mode
    }

    pub fn is_active(&self) -> (r: bool)
        ensures
            r == self.active,
    {
        self.active
    }

    /// Show `text` as a message that expires after two ticks.
    pub fn message(&mut self, text: &str)
        ensures
            final(self).text@ == text@,
            final(self).active,
            final(self).mode == (MiniBufferMode::Message { ttl: 2 }),
    {
        self.activate(text, MiniBufferMode::Message { ttl: 2 });
    }

    /// Show an already converted message that expires after two ticks.
    pub fn message_chars(&mut self, text: Vec<char>)
        ensures
            final(self).text@ == text@,
            final(self).active,
            final(self).mode == (MiniBufferMode::Message { ttl: 2 }),
    {
        self.text = text;
        self.active = true;
        self.mode = MiniBufferMode::Message { ttl: 2 };
    }

    /// One editor tick: an expiring message counts down and disappears
    /// when its time is up; every other mode is left alone.
    pub fn tick(&mut self)
        ensures
            match old(self).mode {
                MiniBufferMode::Message { ttl } => {
                    if ttl <= 1 {
                        final(self).text@ == Seq::<char>::empty() && !final(self).active
                            && final(self).mode == MiniBufferMode::Inactive
                    } else {
                        final(self).text@ == old(self).text@ && final(self).active == old(
                            self,
                        ).active && final(self).mode == (MiniBufferMode::Message {
                            ttl: (ttl - 1) as u32,
                        })
                    }
                },
                _ => *final(self) == *old(self),
            },
    {
        match self.mode {
            MiniBufferMode::Message { ttl } => {
                if ttl <= 1 {
                    self.deactivate();
                } else {
                    self.mode = MiniBufferMode::Message { ttl: ttl - 1 };
                }
            },
            _ => {},
        }
    }
}

impl Default for MiniBuffer {
    /// Same as [`MiniBuffer::new`].
    fn default() -> (r: MiniBuffer)
        ensures
            r.text@ == Seq::<char>::empty(),
            !r.active,
            r.mode == MiniBufferMode::Inactive,
    {
        MiniBuffer::new()
    }
}

} // verus!
