use vstd::prelude::*;

use crate::event::KeyCode;
use crate::font::{color_param, fill, reset, sgr};
use crate::message::{Command, Message};
use crate::model::Model;
use crate::pager::{last_page, lemma_pages_for_bounds, pages_for, Pager};
use crate::text::{chars_of, crlf, lines, lines_of, views};
use crate::viewport::blank_lines;

verus! {

/// Number of items on the pager's current page, for `len` items in all.
pub open spec fn on_page(pager: Pager, len: int) -> int {
    if len == 0 {
        0
    } else {
        pager.spec_end(len) - pager.spec_start()
    }
}

/// Index, within the current page, of the page's last item (0 on an empty
/// page).
pub open spec fn last_item(pager: Pager, len: int) -> int {
    if on_page(pager, len) > 0 {
        on_page(pager, len) - 1
    } else {
        0
    }
}

/// How item `i` is shown when the cursor is at `position` on a page that
/// starts at `start`: in color `fg` when it is under the cursor.
pub open spec fn shown_item(items: Seq<Seq<char>>, start: int, i: int, position: int, fg: u8) -> Seq<
    char,
> {
    if i - start == position {
        sgr(color_param('3', fg)) + items[i] + reset()
    } else {
        items[i]
    }
}

/// Items `start` to `end` (excluded) as shown, with `"\r\n"` between them.
pub open spec fn joined_items(
    items: Seq<Seq<char>>,
    start: int,
    end: int,
    position: int,
    fg: u8,
) -> Seq<char>
    decreases end - start,
{
    if end <= start {
        seq![]
    } else if end == start + 1 {
        shown_item(items, start, start, position, fg)
    } else {
        joined_items(items, start, end - 1, position, fg) + crlf() + shown_item(
            items,
            start,
            end - 1,
            position,
            fg,
        )
    }
}

/// What a list shows: the items of its page, padded with empty lines to
/// `height` lines when they take fewer.
pub open spec fn list_view(
    items: Seq<Seq<char>>,
    start: int,
    end: int,
    position: int,
    fg: u8,
    height: int,
) -> Seq<char> {
    let body = joined_items(items, start, end, position, fg);
    let n = lines_of(body).len();
    if n < height {
        body + blank_lines((height - n) as nat)
    } else {
        body
    }
}

/// Number of pages for `len` items, `per` to a page: none without items.
pub open spec fn total_pages(len: int, per: int) -> int {
    if len > 0 {
        pages_for(len, per)
    } else {
        0
    }
}

/// What `handle_up` does: the cursor moves up one item; from the first item
/// of a page it goes to the last item of the page before, if there is one.
pub open spec fn up_step(before: List, after: List) -> bool {
    &&& (before.spec_position() > 0 ==> after.spec_position() == before.spec_position() - 1 && after.spec_page() == before.spec_page())
    &&& (before.spec_position() == 0 && before.spec_page() == 0 ==> after.spec_position() == 0 && after.spec_page() == before.spec_page())
    &&& (before.spec_position() == 0 && before.spec_page() > 0 ==> after.spec_page() == before.spec_page() - 1 && after.spec_position() == after.spec_last_item())
    &&& (after.spec_per() == before.spec_per())
    &&& (after.spec_total() == before.spec_total())
    &&& (after.spec_items() == before.spec_items())
    &&& (after.spec_height() == before.spec_height())
    &&& (after.spec_foreground() == before.spec_foreground())
}

/// What `handle_down` does: the cursor moves down one item; from the last
/// item of a page it goes to the first item of the next page, if there is one.
pub open spec fn down_step(before: List, after: List) -> bool {
    &&& (before.spec_position() != before.spec_last_item() ==> after.spec_position() == before.spec_position() + 1 && after.spec_page() == before.spec_page())
    &&& (before.spec_position() == before.spec_last_item() && before.spec_page() == last_page(before.spec_total()) ==> after.spec_position() == before.spec_position() && after.spec_page() == before.spec_page())
    &&& (before.spec_position() == before.spec_last_item() && before.spec_page() != last_page(before.spec_total()) ==> after.spec_page() == before.spec_page() + 1 && after.spec_position() == 0)
    &&& (after.spec_per() == before.spec_per())
    &&& (after.spec_total() == before.spec_total())
    &&& (after.spec_items() == before.spec_items())
    &&& (after.spec_height() == before.spec_height())
    &&& (after.spec_foreground() == before.spec_foreground())
}

/// A list of items shown a page at a time, with a cursor over one item of
/// the page.
pub struct List {
    /// Number of lines the list has to show its items in.
    height: usize,
    /// Index of the cursor within the current page.
    position: usize,
    /// Text color of the item under the cursor.
    foreground: u8,
    items: Vec<String>,
    pager: Pager,
}

impl List {
    #[verifier::type_invariant]
    spec fn inv(&self) -> bool {
        &&& self.pager.spec_per() > 0
        &&& self.items@.len() + self.pager.spec_per() <= usize::MAX
        &&& self.pager.spec_total() == total_pages(self.items@.len() as int, self.pager.spec_per() as int)
        &&& self.pager.spec_current() <= last_page(self.pager.spec_total())
        &&& self.position <= last_item(self.pager, self.items@.len() as int)
    }

    pub closed spec fn spec_items(&self) -> Seq<Seq<char>> {
        views(self.items@)
    }

    pub closed spec fn spec_pager(&self) -> Pager {
        self.pager
    }

    pub closed spec fn spec_position(&self) -> usize {
        self.position
    }

    pub closed spec fn spec_height(&self) -> usize {
        self.height
    }

    pub closed spec fn spec_foreground(&self) -> u8 {
        self.foreground
    }

    pub open spec fn spec_page(&self) -> usize {
        self.spec_pager().spec_current()
    }

    pub open spec fn spec_per(&self) -> usize {
        self.spec_pager().spec_per()
    }

    pub open spec fn spec_total(&self) -> usize {
        self.spec_pager().spec_total()
    }

    /// Index, within the current page, of the page's last item.
    pub open spec fn spec_last_item(&self) -> int {
        last_item(self.spec_pager(), self.spec_items().len() as int)
    }

    /// The current page's bounds are within reach of `usize` and of the items.
    proof fn lemma_page_in_items(&self)
        requires
            self.inv(),
        ensures
            self.pager.spec_start() + self.pager.spec_per() <= usize::MAX,
            self.pager.spec_start() <= self.items@.len(),
    {
        let (c, p, t) = (
            self.pager.spec_current() as int,
            self.pager.spec_per() as int,
            self.pager.spec_total() as int,
        );
        let l = self.items@.len() as int;
        if t > 0 {
            lemma_pages_for_bounds(l, p);
            assert(c * p + p <= t * p) by (nonlinear_arith)
                requires
                    c <= t - 1,
                    p > 0,
            ;
            assert(c * p + p <= l + p) by (nonlinear_arith)
                requires
                    c <= t - 1,
                    p > 0,
                    (t - 1) * p < l,
            ;
        } else {
            assert(c * p == 0) by (nonlinear_arith)
                requires
                    c == 0,
            ;
        }
    }

    /// Return a list of `items`, `height` of them to a page, with the cursor
    /// on the first; the item under the cursor is shown in color
    /// `foreground`.
    pub fn new(items: Vec<String>, height: usize, foreground: u8) -> (r: Self)
        requires
            height > 0,
            items@.len() + height <= usize::MAX,
        ensures
            r.spec_items() == views(items@),
            r.spec_height() == height,
            r.spec_foreground() == foreground,
            r.spec_position() == 0,
            r.spec_page() == 0,
            r.spec_per() == height,
            r.spec_total() == total_pages(items@.len() as int, height as int),
    {
        let mut pager = Pager::new(0, height, 0);
        pager.set_total_by_len(items.len());
        Self { height, position: 0, foreground, items, pager }
    }

    /// Return the index of the cursor within the current page (not within
    /// all the items: see `get_overall_position`).
    pub fn get_position(&self) -> (r: usize)
        ensures
            r == self.spec_position(),
    {
        self.position
    }

    /// Set the number of lines the list has to show its items in.
    pub fn set_height(&mut self, height: usize)
        ensures
            final(self).spec_height() == height,
            final(self).spec_items() == old(self).spec_items(),
            final(self).spec_pager() == old(self).spec_pager(),
            final(self).spec_position() == old(self).spec_position(),
            final(self).spec_foreground() == old(self).spec_foreground(),
    {
        proof {
            use_type_invariant(&*self);
        }
        self.height = height;
    }

    /// Move the cursor up one item; from the first item of a page, go to the
    /// last item of the page before, if there is one.
    pub fn handle_up(&mut self)
        ensures
            up_step(*old(self), *final(self)),
    {
        proof {
            use_type_invariant(&*self);
        }
        if self.is_on_first_item() {
            self.previous();
        } else {
            self.position = self.position - 1;
        }
    }

    /// Move the cursor down one item; from the last item of a page, go to the
    /// first item of the next page, if there is one.
    pub fn handle_down(&mut self)
        ensures
            down_step(*old(self), *final(self)),
    {
        proof {
            use_type_invariant(&*self);
        }
        if self.is_on_last_item() {
            self.next();
        } else {
            self.position = self.position + 1;
        }
    }

    /// Return the current page number.
    pub fn get_page(&self) -> (r: usize)
        ensures
            r == self.spec_page(),
    {
        self.pager.get_page()
    }

    /// Return the number of pages.
    pub fn get_total(&self) -> (r: usize)
        ensures
            r == self.spec_total(),
    {
        self.pager.get_total()
    }

    /// Return the number of items on a page.
    pub fn get_per(&self) -> (r: usize)
        ensures
            r == self.spec_per(),
    {
        self.pager.get_per()
    }

    /// Go to the first item of the next page, unless this is the last page.
    pub fn next(&mut self)
        ensures
            old(self).spec_page() == last_page(old(self).spec_total()) ==> final(self).spec_page()
                == old(self).spec_page() && final(self).spec_position() == old(self).spec_position(),
            old(self).spec_page() != last_page(old(self).spec_total()) ==> final(self).spec_page()
                == old(self).spec_page() + 1 && final(self).spec_position() == 0,
            final(self).spec_per() == old(self).spec_per(),
            final(self).spec_total() == old(self).spec_total(),
            final(self).spec_items() == old(self).spec_items(),
            final(self).spec_height() == old(self).spec_height(),
            final(self).spec_foreground() == old(self).spec_foreground(),
    {
        proof {
            use_type_invariant(&*self);
        }
        if self.pager.is_on_last_page() {
            return;
        }
        self.position = 0;
        self.pager.next();
    }

    /// Go to the last item of the previous page, unless this is the first
    /// page.
    pub fn previous(&mut self)
        ensures
            old(self).spec_page() == 0 ==> final(self).spec_page() == 0 && final(self).spec_position() == old(self).spec_position(),
            old(self).spec_page() > 0 ==> final(self).spec_page() == old(self).spec_page() - 1
                && final(self).spec_position() == final(self).spec_last_item(),
            final(self).spec_per() == old(self).spec_per(),
            final(self).spec_total() == old(self).spec_total(),
            final(self).spec_items() == old(self).spec_items(),
            final(self).spec_height() == old(self).spec_height(),
            final(self).spec_foreground() == old(self).spec_foreground(),
    {
        proof {
            use_type_invariant(&*self);
        }
        if self.pager.is_on_first_page() {
            return;
        }
        self.position = 0;
        self.pager.previous();
        // The last item depends on the page: look it up after moving.
        self.position = self.get_index_last_item();
    }

    /// Return true if the cursor is on the last item of the page.
    pub fn is_on_last_item(&self) -> (r: bool)
        ensures
            r == (self.spec_position() == self.spec_last_item()),
    {
        self.position == self.get_index_last_item()
    }

    /// Return true if the cursor is on the first item of the page.
    pub fn is_on_first_item(&self) -> (r: bool)
        ensures
            r == (self.spec_position() == 0),
    {
        self.position == 0
    }

    /// Return the index, within the page, of the page's last item (0 on an
    /// empty page).
    pub fn get_index_last_item(&self) -> (r: usize)
        ensures
            r == self.spec_last_item(),
    {
        proof {
            use_type_invariant(self);
            self.lemma_page_in_items();
        }
        let n = self.pager.get_num_on_page(self.items.len());
        if n > 0 {
            n - 1
        } else {
            0
        }
    }

    /// Put the cursor on item `position` of the page, which must exist.
    pub fn set_position(&mut self, position: usize)
        requires
            position < on_page(old(self).spec_pager(), old(self).spec_items().len() as int),
        ensures
            final(self).spec_position() == position,
            final(self).spec_pager() == old(self).spec_pager(),
            final(self).spec_items() == old(self).spec_items(),
            final(self).spec_height() == old(self).spec_height(),
            final(self).spec_foreground() == old(self).spec_foreground(),
    {
        proof {
            use_type_invariant(&*self);
        }
        self.position = position;
    }

    /// Return the index of the item under the cursor among all the items.
    pub fn get_overall_position(&self) -> (r: usize)
        ensures
            r == self.spec_page() * self.spec_per() + self.spec_position(),
    {
        proof {
            use_type_invariant(self);
            self.lemma_page_in_items();
        }
        self.pager.get_page() * self.pager.get_per() + self.position
    }

    /// Return what the list shows: the items of the current page, one to a
    /// line, the one under the cursor in color, padded with empty lines to
    /// the list's height.
    pub fn render(&self) -> (r: String)
        ensures
            r@ == list_view(
                self.spec_items(),
                self.spec_pager().spec_start(),
                self.spec_pager().spec_end(self.spec_items().len() as int),
                self.spec_position() as int,
                self.spec_foreground(),
                self.spec_height() as int,
            ),
    {
        proof {
            use_type_invariant(self);
            self.lemma_page_in_items();
        }
        let ghost items = views(self.items@);
        let (start, end) = self.pager.get_bounds(self.items.len());
        let mut out = String::new();
        if start < end {
            out = self.shown(start, start);
            let mut i: usize = start + 1;
            while i < end
                invariant
                    start < i <= end <= self.items@.len(),
                    items == views(self.items@),
                    out@ == joined_items(
                        items,
                        start as int,
                        i as int,
                        self.position as int,
                        self.foreground,
                    ),
                decreases end - i,
            {
                out.append("\r\n");
                proof {
                    reveal_strlit("\r\n");
                }
                let item = self.shown(start, i);
                out.append(item.as_str());
                i += 1;
            }
        }
        let chars = chars_of(out.as_str());
        let n = lines(&chars).len();
        if n < self.height {
            let ghost body = out@;
            let mut pad: usize = 0;
            while pad < self.height - n
                invariant
                    n < self.height,
                    pad <= self.height - n,
                    out@ == body + blank_lines(pad as nat),
                decreases self.height - n - pad,
            {
                out.append("\r\n");
                proof {
                    reveal_strlit("\r\n");
                }
                pad += 1;
                assert(out@ =~= body + blank_lines(pad as nat));
            }
        }
        out
    }

    /// Item `i`, as shown on a page that starts at `start`.
    fn shown(&self, start: usize, i: usize) -> (r: String)
        requires
            start <= i < self.items@.len(),
        ensures
            r@ == shown_item(
                views(self.items@),
                start as int,
                i as int,
                self.position as int,
                self.foreground,
            ),
    {
        if i - start == self.position {
            fill(self.items[i].as_str(), self.foreground)
        } else {
            self.items[i].clone()
        }
    }
}

impl<A, T> Model<A, T> for List {
    open spec fn spec_init(&self) -> Option<Command<T>> {
        None
    }

    /// `Up` and `Down` keys move the cursor as `handle_up` and `handle_down`
    /// do; anything else leaves the list as it is. No command is returned:
    /// the owner of the list keeps its height in step with the terminal's
    /// size, through `set_height`.
    open spec fn spec_update(
        &self,
        message: Message<A, T>,
        after: Self,
        command: Option<Command<T>>,
    ) -> bool {
        &&& command is None
        &&& if message is Key && message->Key_0.code == KeyCode::Up {
            up_step(*self, after)
        } else if message is Key && message->Key_0.code == KeyCode::Down {
            down_step(*self, after)
        } else {
            after == *self
        }
    }

    open spec fn spec_view(&self) -> Seq<char> {
        list_view(
            self.spec_items(),
            self.spec_pager().spec_start(),
            self.spec_pager().spec_end(self.spec_items().len() as int),
            self.spec_position() as int,
            self.spec_foreground(),
            self.spec_height() as int,
        )
    }

    fn init(&self) -> (r: Option<Command<T>>) {
        None
    }

    fn update(&mut self, message: &Message<A, T>) -> (r: Option<Command<T>>) {
        if let Message::Key(event) = message {
            match event.code {
                KeyCode::Up => self.handle_up(),
                KeyCode::Down => self.handle_down(),
                _ => {},
            }
        }
        None
    }

    fn view(&self) -> (r: String) {
        self.render()
    }
}

} // verus!
