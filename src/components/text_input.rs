use vstd::prelude::*;

use crate::event::KeyCode;
use crate::font::{color_param, fill_background, reset, sgr, MAROON, WHITE};
use crate::message::{Command, Message};
use crate::model::Model;
use crate::components::input::after_key;
use crate::text::{insert_char, inserted, remove_char, removed, string_of, chars_of};

verus! {

/// What a text field shows: the text with the character under the cursor
/// (a space past the end) drawn in the cursor's colors.
pub open spec fn text_field_view(buffer: Seq<char>, pos: int, fill: u8, background: u8) -> Seq<
    char,
> {
    let cursor = |c: Seq<char>|
        sgr(color_param('3', fill)) + sgr(color_param('4', background)) + c + reset();
    if buffer.len() == 0 {
        cursor(seq![' '])
    } else if pos < buffer.len() {
        buffer.take(pos) + cursor(seq![buffer[pos]]) + buffer.skip(pos + 1)
    } else {
        buffer.take(pos) + cursor(seq![' '])
    }
}

/// A single-line text field with a cursor drawn in color.
pub struct TextInput {
    /// The text in the field.
    buffer: String,
    /// Position of the cursor, in characters.
    position: usize,
    /// Text color of the character under the cursor.
    fill: u8,
    /// Background color of the cursor.
    background: u8,
}

impl TextInput {
    #[verifier::type_invariant]
    spec fn inv(&self) -> bool {
        self.position <= self.buffer@.len()
    }

    pub closed spec fn spec_buffer(&self) -> Seq<char> {
        self.buffer@
    }

    pub closed spec fn spec_position(&self) -> usize {
        self.position
    }

    pub closed spec fn spec_fill(&self) -> u8 {
        self.fill
    }

    pub closed spec fn spec_background(&self) -> u8 {
        self.background
    }

    /// Return an empty field whose cursor has these colors.
    pub fn new(fill: u8, background: u8) -> (r: Self)
        ensures
            r.spec_buffer() == Seq::<char>::empty(),
            r.spec_position() == 0,
            r.spec_fill() == fill,
            r.spec_background() == background,
    {
        Self { buffer: String::new(), position: 0, fill, background }
    }

    /// Empty the field.
    pub fn clear(&mut self)
        ensures
            final(self).spec_buffer() == Seq::<char>::empty(),
            final(self).spec_position() == 0,
            final(self).spec_fill() == old(self).spec_fill(),
            final(self).spec_background() == old(self).spec_background(),
    {
        self.position = 0;
        self.buffer = String::new();
    }

    /// Return the text in the field; the field keeps it.
    pub fn buffer(&self) -> (r: &str)
        ensures
            r@ == self.spec_buffer(),
    {
        self.buffer.as_str()
    }

    /// Replace the text, and put the cursor at its end.
    pub fn set_buffer(&mut self, buffer: String)
        ensures
            final(self).spec_buffer() == buffer@,
            final(self).spec_position() == buffer@.len(),
            final(self).spec_fill() == old(self).spec_fill(),
            final(self).spec_background() == old(self).spec_background(),
    {
        let len = buffer.as_str().unicode_len();
        self.position = 0;
        self.buffer = buffer;
        self.position = len;
    }

    /// Return the position of the cursor, which lies within the text or at
    /// its end.
    pub fn position(&self) -> (r: usize)
        ensures
            r == self.spec_position(),
            r <= self.spec_buffer().len(),
    {
        proof {
            use_type_invariant(self);
        }
        self.position
    }

    /// Put the cursor at `pos`, which must lie within the text or at its end.
    pub fn set_position(&mut self, pos: usize)
        requires
            pos <= old(self).spec_buffer().len(),
        ensures
            final(self).spec_position() == pos,
            final(self).spec_buffer() == old(self).spec_buffer(),
            final(self).spec_fill() == old(self).spec_fill(),
            final(self).spec_background() == old(self).spec_background(),
    {
        self.position = pos;
    }

    /// Delete the character before the cursor and move the cursor back;
    /// nothing happens at the start of the text.
    pub fn handle_backspace(&mut self)
        ensures
            old(self).spec_position() > 0 ==> final(self).spec_buffer() == removed(
                old(self).spec_buffer(),
                old(self).spec_position() - 1,
            ) && final(self).spec_position() == old(self).spec_position() - 1,
            old(self).spec_position() == 0 ==> final(self).spec_buffer() == old(
                self,
            ).spec_buffer() && final(self).spec_position() == 0,
            final(self).spec_fill() == old(self).spec_fill(),
            final(self).spec_background() == old(self).spec_background(),
    {
        proof {
            use_type_invariant(&*self);
        }
        if self.position > 0 {
            let edited = remove_char(self.buffer.as_str(), self.position - 1);
            self.position = self.position - 1;
            self.buffer = edited;
        }
    }

    /// Put `c` in at the cursor and move the cursor past it.
    pub fn handle_char(&mut self, c: char)
        requires
            old(self).spec_buffer().len() < usize::MAX,
        ensures
            final(self).spec_buffer() == inserted(
                old(self).spec_buffer(),
                old(self).spec_position() as int,
                c,
            ),
            final(self).spec_position() == old(self).spec_position() + 1,
            final(self).spec_fill() == old(self).spec_fill(),
            final(self).spec_background() == old(self).spec_background(),
    {
        proof {
            use_type_invariant(&*self);
        }
        let edited = insert_char(self.buffer.as_str(), self.position, c);
        self.buffer = edited;
        self.position = self.position + 1;
    }

    /// Move the cursor one character to the left, unless it is at the start.
    pub fn handle_left(&mut self)
        ensures
            final(self).spec_position() == if old(self).spec_position() > 0 {
                old(self).spec_position() - 1
            } else {
                0
            },
            final(self).spec_buffer() == old(self).spec_buffer(),
            final(self).spec_fill() == old(self).spec_fill(),
            final(self).spec_background() == old(self).spec_background(),
    {
        proof {
            use_type_invariant(&*self);
        }
        if self.position > 0 {
            self.position = self.position - 1;
        }
    }

    /// Move the cursor one character to the right, unless it is at the end.
    pub fn handle_right(&mut self)
        ensures
            final(self).spec_position() == if old(self).spec_position() < old(
                self,
            ).spec_buffer().len() {
                old(self).spec_position() + 1
            } else {
                old(self).spec_position() as int
            },
            final(self).spec_buffer() == old(self).spec_buffer(),
            final(self).spec_fill() == old(self).spec_fill(),
            final(self).spec_background() == old(self).spec_background(),
    {
        if self.position < self.buffer.as_str().unicode_len() {
            self.position = self.position + 1;
        }
    }

    /// Return what the field shows: the text, with the character under the
    /// cursor (or a space past the end) in the cursor's colors.
    pub fn render(&self) -> (r: String)
        ensures
            r@ == text_field_view(
                self.spec_buffer(),
                self.spec_position() as int,
                self.spec_fill(),
                self.spec_background(),
            ),
    {
        proof {
            use_type_invariant(self);
            reveal_strlit(" ");
        }
        let chars = chars_of(self.buffer.as_str());
        if chars.len() == 0 {
            let r = fill_background(" ", self.fill, self.background);
            assert(r@ =~= text_field_view(
                self.buffer@,
                self.position as int,
                self.fill,
                self.background,
            ));
            return r;
        }
        let mut r = string_of(&chars, 0, self.position);
        if self.position < chars.len() {
            let under = string_of(&chars, self.position, self.position + 1);
            let cursor = fill_background(under.as_str(), self.fill, self.background);
            r.append(cursor.as_str());
            let rest = string_of(&chars, self.position + 1, chars.len());
            r.append(rest.as_str());
            assert(under@ =~= seq![chars@[self.position as int]]);
            assert(chars@.subrange(self.position + 1, chars@.len() as int) =~= chars@.skip(
                self.position + 1,
            ));
        } else {
            let cursor = fill_background(" ", self.fill, self.background);
            r.append(cursor.as_str());
        }
        assert(chars@.subrange(0, self.position as int) =~= chars@.take(self.position as int));
        assert(r@ =~= text_field_view(
            self.buffer@,
            self.position as int,
            self.fill,
            self.background,
        ));
        r
    }
}

impl Default for TextInput {
    /// An empty field with a white cursor on maroon.
    fn default() -> (r: Self)
        ensures
            r.spec_buffer() == Seq::<char>::empty(),
            r.spec_position() == 0,
            r.spec_fill() == WHITE,
            r.spec_background() == MAROON,
    {
        Self::new(WHITE, MAROON)
    }
}

impl<A, T> Model<A, T> for TextInput {
    open spec fn spec_init(&self) -> Option<Command<T>> {
        None
    }

    /// Left, Right, Backspace and character keys edit the field as
    /// `handle_left`, `handle_right`, `handle_backspace` and `handle_char` do
    /// (a character is not put in a field that already holds `usize::MAX`
    /// characters); anything else leaves it as it is. No command is returned.
    open spec fn spec_update(
        &self,
        message: Message<A, T>,
        after: Self,
        command: Option<Command<T>>,
    ) -> bool {
        let edits = message is Key && match message->Key_0.code {
            KeyCode::Left | KeyCode::Right | KeyCode::Backspace => true,
            KeyCode::Char(_) => self.spec_buffer().len() < usize::MAX,
            _ => false,
        };
        &&& command is None
        &&& after.spec_fill() == self.spec_fill()
        &&& after.spec_background() == self.spec_background()
        &&& if edits {
            (after.spec_buffer(), after.spec_position() as int) == after_key(
                self.spec_buffer(),
                self.spec_position() as int,
                message->Key_0.code,
            )
        } else {
            after.spec_buffer() == self.spec_buffer() && after.spec_position()
                == self.spec_position()
        }
    }

    open spec fn spec_view(&self) -> Seq<char> {
        text_field_view(
            self.spec_buffer(),
            self.spec_position() as int,
            self.spec_fill(),
            self.spec_background(),
        )
    }

    fn init(&self) -> (r: Option<Command<T>>) {
        None
    }

    fn update(&mut self, message: &Message<A, T>) -> (r: Option<Command<T>>) {
        if let Message::Key(event) = message {
            match event.code {
                KeyCode::Left => self.handle_left(),
                KeyCode::Right => self.handle_right(),
                KeyCode::Backspace => self.handle_backspace(),
                KeyCode::Char(c) => {
                    if self.buffer.as_str().unicode_len() < usize::MAX {
                        self.handle_char(c);
                    }
                },
                _ => {},
            }
        }
        None
    }

    fn view(&self) -> (r: String) {
        self.render()
    }
}

} // verus!
