use vstd::prelude::*;

use crate::event::{KeyCode, KeyEvent, CONTROL};
use crate::message::{Command, Message};
use crate::model::Model;
use crate::text::{chars_of, insert_char, inserted, push_char, remove_char, removed, string_of};

verus! {

/// What an input field shows: its text with a bar at the cursor.
pub open spec fn input_view(buffer: Seq<char>, pos: int) -> Seq<char> {
    buffer.take(pos).push('|') + buffer.skip(pos)
}

/// The state of a text field after a key press: Backspace deletes the
/// character before the cursor, a character key puts its character in at the
/// cursor, Left and Right move the cursor within the text; other keys change
/// nothing.
pub open spec fn after_key(buffer: Seq<char>, pos: int, code: KeyCode) -> (Seq<char>, int) {
    match code {
        KeyCode::Backspace => if pos > 0 {
            (removed(buffer, pos - 1), pos - 1)
        } else {
            (buffer, pos)
        },
        KeyCode::Char(c) => (inserted(buffer, pos, c), pos + 1),
        KeyCode::Left => if pos > 0 {
            (buffer, pos - 1)
        } else {
            (buffer, pos)
        },
        KeyCode::Right => if pos < buffer.len() {
            (buffer, pos + 1)
        } else {
            (buffer, pos)
        },
        _ => (buffer, pos),
    }
}

/// A bare text field: a buffer and a cursor, drawn however the caller likes.
pub struct Input {
    buffer: String,
    /// Position of the cursor, in characters.
    pos: usize,
}

impl Input {
    #[verifier::type_invariant]
    spec fn inv(&self) -> bool {
        self.pos <= self.buffer@.len()
    }

    pub closed spec fn spec_buffer(&self) -> Seq<char> {
        self.buffer@
    }

    pub closed spec fn spec_pos(&self) -> usize {
        self.pos
    }

    /// Return an empty field.
    pub fn new() -> (r: Self)
        ensures
            r.spec_buffer() == Seq::<char>::empty(),
            r.spec_pos() == 0,
    {
        Self { buffer: String::new(), pos: 0 }
    }

    /// Empty the field.
    pub fn clear(&mut self)
        ensures
            final(self).spec_buffer() == Seq::<char>::empty(),
            final(self).spec_pos() == 0,
    {
        self.pos = 0;
        self.buffer = String::new();
    }

    /// Return a copy of the text in the field.
    pub fn buffer(&self) -> (r: String)
        ensures
            r@ == self.spec_buffer(),
    {
        self.buffer.clone()
    }

    /// Replace the text, and put the cursor at its end.
    pub fn set_buffer(&mut self, buffer: String)
        ensures
            final(self).spec_buffer() == buffer@,
            final(self).spec_pos() == buffer@.len(),
    {
        let len = buffer.as_str().unicode_len();
        self.pos = 0;
        self.buffer = buffer;
        self.pos = len;
    }

    /// Return the position of the cursor, which lies within the text or at
    /// its end.
    pub fn pos(&self) -> (r: usize)
        ensures
            r == self.spec_pos(),
            r <= self.spec_buffer().len(),
    {
        proof {
            use_type_invariant(self);
        }
        self.pos
    }

    /// Put the cursor at `pos`, which must lie within the text or at its end.
    pub fn set_pos(&mut self, pos: usize)
        requires
            pos <= old(self).spec_buffer().len(),
        ensures
            final(self).spec_pos() == pos,
            final(self).spec_buffer() == old(self).spec_buffer(),
    {
        self.pos = pos;
    }

    /// Apply a key press to the text and the cursor.
    pub fn on_key_event(&mut self, key_event: KeyEvent)
        requires
            old(self).spec_buffer().len() < usize::MAX,
        ensures
            (final(self).spec_buffer(), final(self).spec_pos() as int) == after_key(
                old(self).spec_buffer(),
                old(self).spec_pos() as int,
                key_event.code,
            ),
    {
        proof {
            use_type_invariant(&*self);
        }
        match key_event.code {
            KeyCode::Backspace => {
                if self.pos > 0 {
                    let edited = remove_char(self.buffer.as_str(), self.pos - 1);
                    self.pos = self.pos - 1;
                    self.buffer = edited;
                }
            },
            KeyCode::Char(c) => {
                let edited = insert_char(self.buffer.as_str(), self.pos, c);
                self.buffer = edited;
                self.pos = self.pos + 1;
            },
            KeyCode::Left => {
                if self.pos > 0 {
                    self.pos = self.pos - 1;
                }
            },
            KeyCode::Right => {
                if self.pos < self.buffer.as_str().unicode_len() {
                    self.pos = self.pos + 1;
                }
            },
            _ => {},
        }
    }

    /// Return the text with a bar at the cursor.
    pub fn render(&self) -> (r: String)
        ensures
            r@ == input_view(self.spec_buffer(), self.spec_pos() as int),
    {
        proof {
            use_type_invariant(self);
        }
        let chars = chars_of(self.buffer.as_str());
        let mut r = string_of(&chars, 0, self.pos);
        push_char(&mut r, '|');
        let rest = string_of(&chars, self.pos, chars.len());
        r.append(rest.as_str());
        assert(r@ =~= input_view(self.buffer@, self.pos as int));
        r
    }
}

impl Default for Input {
    /// An empty field.
    fn default() -> (r: Self)
        ensures
            r.spec_buffer() == Seq::<char>::empty(),
            r.spec_pos() == 0,
    {
        Self::new()
    }
}

impl<A, T> Model<A, T> for Input {
    open spec fn spec_init(&self) -> Option<Command<T>> {
        None
    }

    /// Control with `c` asks to quit, and Control with any other key does
    /// nothing; Enter empties the field; any other key edits it as
    /// `on_key_event` does (unless the text holds `usize::MAX` characters).
    /// Anything else leaves the field as it is.
    open spec fn spec_update(
        &self,
        message: Message<A, T>,
        after: Self,
        command: Option<Command<T>>,
    ) -> bool {
        if message is Key {
            let key = message->Key_0;
            if key.modifiers == CONTROL {
                &&& command == if key.code == KeyCode::Char('c') {
                    Some(Command::<T>::Quit)
                } else {
                    None
                }
                &&& after.spec_buffer() == self.spec_buffer()
                &&& after.spec_pos() == self.spec_pos()
            } else if key.code == KeyCode::Enter {
                &&& command is None
                &&& after.spec_buffer() == Seq::<char>::empty()
                &&& after.spec_pos() == 0
            } else if self.spec_buffer().len() < usize::MAX {
                &&& command is None
                &&& (after.spec_buffer(), after.spec_pos() as int) == after_key(
                    self.spec_buffer(),
                    self.spec_pos() as int,
                    key.code,
                )
            } else {
                &&& command is None
                &&& after.spec_buffer() == self.spec_buffer()
                &&& after.spec_pos() == self.spec_pos()
            }
        } else {
            &&& command is None
            &&& after.spec_buffer() == self.spec_buffer()
            &&& after.spec_pos() == self.spec_pos()
        }
    }

    open spec fn spec_view(&self) -> Seq<char> {
        input_view(self.spec_buffer(), self.spec_pos() as int)
    }

    fn init(&self) -> (r: Option<Command<T>>) {
        None
    }

    fn update(&mut self, message: &Message<A, T>) -> (r: Option<Command<T>>) {
        if let Message::Key(key_event) = message {
            if key_event.is_control() {
                return match key_event.code {
                    KeyCode::Char('c') => Some(Command::Quit),
                    _ => None,
                };
            }
            match key_event.code {
                KeyCode::Enter => self.clear(),
                _ => {
                    if self.buffer.as_str().unicode_len() < usize::MAX {
                        self.on_key_event(*key_event);
                    }
                },
            }
        }
        None
    }

    fn view(&self) -> (r: String) {
        self.render()
    }
}

} // verus!
