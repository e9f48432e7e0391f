use std::collections::HashMap;
use vstd::prelude::*;

use crate::text::{
    chars_of, crlf, lemma_split_crlf_nonempty, lemma_split_newlines_nonempty, lines, lines_of,
    push_char, split_crlf, split_newlines, strip_cr, views,
};

verus! {

broadcast use vstd::std_specs::hash::group_hash_axioms;

/// The inclusive range of item indices visible at one scroll offset.
#[derive(Debug)]
pub struct Bound {
    /// Index of the first visible item.
    pub upper: usize,
    /// Index of the last visible item; `None` when the range holds a single
    /// remaining item.
    pub lower: Option<usize>,
}

impl Bound {
    /// Return a new `Bound`.
    pub fn new(upper: usize, lower: Option<usize>) -> (r: Self)
        ensures
            r == (Bound { upper, lower }),
    {
        Self { upper, lower }
    }
}

/// Scroll offset -> the items visible at that offset.
pub type BoundMap = HashMap<usize, Bound>;

/// A fixed-height window over longer content, moved by a fixed step.
pub struct Viewport {
    /// Number of lines in the window.
    height: u16,
    /// Number of lines moved by one scroll action.
    scroll_by: u16,
    /// Scroll offset: the number of lines above the window.
    y: u16,
}

/// The offset that `down` moves to from `y`.
pub open spec fn down_y(y: int, height: int, step: int) -> int {
    if y < height {
        y + step
    } else {
        y
    }
}

/// The offset that `up` moves to from `y`.
pub open spec fn up_y(y: int, step: int) -> int {
    if y > 0 {
        y - step
    } else {
        y
    }
}

/// Whether a chunk of the bound map starts at `y`, for `len` items, a window
/// of `height` lines and a scroll step of `step` lines: chunk starts are the
/// multiples of the step below `len`, up to the first chunk that reaches the
/// end of the items.
pub open spec fn is_chunk_start(height: int, step: int, len: int, y: int) -> bool {
    &&& 0 <= y < len
    &&& y % step == 0
    &&& (y == 0 || y - step + height < len)
}

/// Number of chunks in the bound map when the step is at most the height.
pub open spec fn chunk_count(height: int, step: int, len: int) -> int {
    if len <= 0 {
        0
    } else if len <= height {
        1
    } else {
        (len - height + step - 1) / step + 1
    }
}

/// Index of the last item in the chunk that starts at `y`.
pub open spec fn chunk_end(height: int, len: int, y: int) -> int {
    if len - y > height {
        y + height - 1
    } else {
        len - 1
    }
}

/// The bound recorded for the chunk that starts at `y`.
pub open spec fn bound_at(height: int, len: int, y: usize) -> Bound {
    Bound {
        upper: y,
        lower: if len - y == 1 {
            None
        } else {
            Some(chunk_end(height, len, y as int) as usize)
        },
    }
}

/// The lines of `data` that a window of `height` lines at offset `y` shows.
pub open spec fn window(data: Seq<char>, y: int, height: int) -> Seq<Seq<char>> {
    let ls = lines_of(data);
    let a = if y < ls.len() {
        y
    } else {
        ls.len() as int
    };
    let b = if y + height < ls.len() {
        y + height
    } else {
        ls.len() as int
    };
    ls.subrange(a, b)
}

/// Each line of `w` followed by a line ending.
pub open spec fn terminated(w: Seq<Seq<char>>) -> Seq<char>
    decreases w.len(),
{
    if w.len() == 0 {
        seq![]
    } else {
        terminated(w.drop_last()) + w.last() + crlf()
    }
}

/// `n` empty lines.
pub open spec fn blank_lines(n: nat) -> Seq<char>
    decreases n,
{
    if n == 0 {
        seq![]
    } else {
        blank_lines((n - 1) as nat) + crlf()
    }
}

/// Whether `s` ends with a line feed.
pub open spec fn ends_with_newline(s: Seq<char>) -> bool {
    s.len() > 0 && s.last() == '\n'
}

/// Whether the last line that the window of `height` lines at offset `y`
/// shows is left without a line ending: when it shows any line and `data`
/// does not end with a line feed.
pub open spec fn shows_open_last_line(data: Seq<char>, y: int, height: int) -> bool {
    &&& !ends_with_newline(data)
    &&& window(data, y, height).len() > 0
}

/// What a window of `height` lines at offset `y` shows of `data`: the visible
/// lines, each ended by `"\r\n"` (the last one only if `data` ends with a
/// line feed), then one `"\r\n"` for each line of the window left empty.
pub open spec fn rendered(data: Seq<char>, y: int, height: int) -> Seq<char> {
    let w = window(data, y, height);
    body_of(data, y, height) + blank_lines((height - w.len()) as nat)
}

/// The visible lines of `data`, each ended by `"\r\n"`, the last one only if
/// `data` ends with a line feed.
pub open spec fn body_of(data: Seq<char>, y: int, height: int) -> Seq<char> {
    let w = window(data, y, height);
    if shows_open_last_line(data, y, height) {
        terminated(w.drop_last()) + w.last()
    } else {
        terminated(w)
    }
}

fn push_crlf(s: &mut String)
    ensures
        final(s)@ == old(s)@ + crlf(),
{
    push_char(s, '\r');
    push_char(s, '\n');
    assert(final(s)@ =~= old(s)@ + crlf());
}

/// Two multiples of `step` less than `step` apart are equal.
proof fn lemma_close_multiples(y: int, z: int, step: int)
    requires
        step > 0,
        y % step == 0,
        z % step == 0,
        y <= z < y + step,
    ensures
        z == y,
{
    vstd::arithmetic::div_mod::lemma_fundamental_div_mod(y, step);
    vstd::arithmetic::div_mod::lemma_fundamental_div_mod(z, step);
    let (a, b) = (y / step, z / step);
    assert(a == b) by (nonlinear_arith)
        requires
            step > 0,
            y == step * a,
            z == step * b,
            y <= z < y + step,
    ;
}

/// Moving a multiple of `step` by `k` steps gives a multiple of `step`.
proof fn lemma_shift_multiple(y: int, step: int, k: int)
    requires
        step > 0,
        y % step == 0,
    ensures
        (y + k * step) % step == 0,
{
    vstd::arithmetic::div_mod::lemma_fundamental_div_mod(y, step);
    let a = y / step;
    assert(y + k * step == (a + k) * step) by (nonlinear_arith)
        requires
            y == step * a,
    ;
    vstd::arithmetic::div_mod::lemma_mod_multiples_basic(a + k, step);
}

/// With a step at most the height, the chunk at `y` that reaches the end of
/// the items is chunk number `chunk_count - 1`.
proof fn lemma_last_chunk_number(height: int, step: int, len: int, y: int)
    requires
        0 < step <= height,
        0 <= y < len,
        y % step == 0,
        len - y <= height,
        y == 0 || y - step + height < len,
    ensures
        y / step + 1 == chunk_count(height, step, len),
{
    vstd::arithmetic::div_mod::lemma_fundamental_div_mod(y, step);
    let m = y / step;
    if len <= height {
        if y > 0 {
            lemma_positive_multiple(y, step);
        }
        assert(y == 0);
        assert(m == 0);
    } else {
        assert(y > 0);
        let d = len - height;
        assert((m - 1) * step < d <= m * step) by (nonlinear_arith)
            requires
                y == step * m,
                y - step + height < len,
                len - y <= height,
                d == len - height,
        ;
        let r = d + step - 1 - m * step;
        assert(0 <= r < step) by (nonlinear_arith)
            requires
                (m - 1) * step < d <= m * step,
                r == d + step - 1 - m * step,
                step > 0,
        ;
        assert(d + step - 1 == m * step + r);
        vstd::arithmetic::div_mod::lemma_fundamental_div_mod_converse_div(d + step - 1, step, m, r);
    }
}

/// A positive multiple of `step` is at least `step`.
proof fn lemma_positive_multiple(y: int, step: int)
    requires
        step > 0,
        y > 0,
        y % step == 0,
    ensures
        y >= step,
{
    vstd::arithmetic::div_mod::lemma_fundamental_div_mod(y, step);
    let a = y / step;
    assert(a >= 1) by (nonlinear_arith)
        requires
            step > 0,
            y > 0,
            y == step * a,
    ;
    assert(y >= step) by (nonlinear_arith)
        requires
            step > 0,
            a >= 1,
            y == step * a,
    ;
}

impl Viewport {
    #[verifier::type_invariant]
    spec fn inv(&self) -> bool {
        &&& self.scroll_by == 0 ==> self.y == 0
        &&& self.scroll_by > 0 ==> (self.y as int) % (self.scroll_by as int) == 0
    }

    pub closed spec fn spec_height(&self) -> u16 {
        self.height
    }

    pub closed spec fn spec_scroll_by(&self) -> u16 {
        self.scroll_by
    }

    pub closed spec fn spec_y(&self) -> u16 {
        self.y
    }

    /// Return a new `Viewport` of `height` lines that scrolls `scroll_by`
    /// lines at a time, at offset 0.
    pub fn new(height: u16, scroll_by: u16) -> (r: Self)
        ensures
            r.spec_height() == height,
            r.spec_scroll_by() == scroll_by,
            r.spec_y() == 0,
    {
        Self { height, scroll_by, y: 0 }
    }

    /// Return the part of `data` that the window shows: the lines from the
    /// offset on, at most `height` of them, each ended by `"\r\n"` (the last
    /// one only if `data` ends with a line feed), then one `"\r\n"` for each
    /// line of the window they leave empty.
    pub fn render(&self, data: &str) -> (r: String)
        ensures
            r@ == rendered(data@, self.spec_y() as int, self.spec_height() as int),
    {
        let chars = chars_of(data);
        let has_ending_nl = chars.len() > 0 && chars[chars.len() - 1] == '\n';
        let ls = lines(&chars);
        let ghost w = window(data@, self.y as int, self.height as int);
        let y = self.y as usize;
        let height = self.height as usize;
        let start: usize = if y < ls.len() {
            y
        } else {
            ls.len()
        };
        let end: usize = if ls.len() - start > height {
            start + height
        } else {
            ls.len()
        };
        assert(views(ls@).subrange(start as int, end as int) =~= w);
        let mut out = String::new();
        let mut j: usize = start;
        if start < end {
            while j < end - 1
                invariant
                    start <= j < end <= ls.len(),
                    w == views(ls@).subrange(start as int, end as int),
                    out@ == terminated(w.take(j - start)),
                decreases end - j,
            {
                out.append(ls[j].as_str());
                push_crlf(&mut out);
                assert(w.take(j + 1 - start).drop_last() =~= w.take(j - start));
                j += 1;
            }
            out.append(ls[j].as_str());
            assert(w.take(j - start) =~= w.drop_last());
            assert(out@ == terminated(w.drop_last()) + w.last());
            if has_ending_nl {
                push_crlf(&mut out);
            }
        }
        assert(body_of(data@, self.y as int, self.height as int) == out@);
        let k: usize = end - start;
        let mut pad: usize = 0;
        let ghost body = out@;
        assert(w.len() == end - start);
        while pad < height - k
            invariant
                k <= height,
                pad <= height - k,
                w.len() == k,
                w == window(data@, self.y as int, self.height as int),
                height == self.height,
                body == body_of(data@, self.y as int, self.height as int),
                out@ == body + blank_lines(pad as nat),
            decreases height - k - pad,
        {
            push_crlf(&mut out);
            pad += 1;
            assert(out@ =~= body + blank_lines(pad as nat));
        }
        out
    }

    /// Return the height of the window.
    pub fn height(&self) -> (r: u16)
        ensures
            r == self.spec_height(),
    {
        self.height
    }

    /// Set the height of the window.
    pub fn set_height(&mut self, height: u16)
        ensures
            final(self).spec_height() == height,
            final(self).spec_scroll_by() == old(self).spec_scroll_by(),
            final(self).spec_y() == old(self).spec_y(),
    {
        proof {
            use_type_invariant(&*self);
        }
        self.height = height;
    }

    /// Return the scroll offset.
    pub fn y(&self) -> (r: u16)
        ensures
            r == self.spec_y(),
    {
        self.y
    }

    /// Move the window up by one step, unless it is at the top; return the
    /// new offset.
    pub fn up(&mut self) -> (r: u16)
        ensures
            final(self).spec_y() == up_y(
                old(self).spec_y() as int,
                old(self).spec_scroll_by() as int,
            ),
            r == final(self).spec_y(),
            final(self).spec_height() == old(self).spec_height(),
            final(self).spec_scroll_by() == old(self).spec_scroll_by(),
    {
        proof {
            use_type_invariant(&*self);
        }
        if self.y > 0 {
            proof {
                lemma_positive_multiple(self.y as int, self.scroll_by as int);
                lemma_shift_multiple(self.y as int, self.scroll_by as int, -1);
            }
            self.y = self.y - self.scroll_by;
        }
        self.y
    }

    /// Move the window down by one step while the offset is less than the
    /// height; return the new offset.
    pub fn down(&mut self) -> (r: u16)
        requires
            old(self).spec_y() < old(self).spec_height() ==> old(self).spec_y() + old(
                self,
            ).spec_scroll_by() <= u16::MAX,
        ensures
            final(self).spec_y() == down_y(
                old(self).spec_y() as int,
                old(self).spec_height() as int,
                old(self).spec_scroll_by() as int,
            ),
            r == final(self).spec_y(),
            final(self).spec_height() == old(self).spec_height(),
            final(self).spec_scroll_by() == old(self).spec_scroll_by(),
    {
        proof {
            use_type_invariant(&*self);
        }
        if self.y < self.height {
            proof {
                if self.scroll_by > 0 {
                    lemma_shift_multiple(self.y as int, self.scroll_by as int, 1);
                }
            }
            self.y = self.y + self.scroll_by;
        }
        self.y
    }

    /// Return the bound map for `len` items: starting at index 0, each chunk
    /// holds up to `height` consecutive indices and is keyed by its first
    /// index, and the next chunk starts `scroll_by` further on, until a chunk
    /// reaches the last item.
    pub fn bounds(&self, len: usize) -> (r: BoundMap)
        requires
            self.spec_height() > 0,
            self.spec_scroll_by() > 0,
        ensures
            forall|y: usize|
                #![trigger r@.contains_key(y)]
                r@.contains_key(y) <==> is_chunk_start(
                    self.spec_height() as int,
                    self.spec_scroll_by() as int,
                    len as int,
                    y as int,
                ),
            forall|y: usize|
                #![trigger r@[y]]
                r@.contains_key(y) ==> r@[y] == bound_at(self.spec_height() as int, len as int, y),
            self.spec_scroll_by() <= self.spec_height() ==> r@.len() == chunk_count(
                self.spec_height() as int,
                self.spec_scroll_by() as int,
                len as int,
            ),
    {
        let ghost (h, s, n) = (self.height as int, self.scroll_by as int, len as int);
        let height = self.height as usize;
        let step = self.scroll_by as usize;
        let mut result = BoundMap::new();
        let mut y: usize = 0;
        loop
            invariant_except_break
                y <= n,
                (y as int) % s == 0,
                y == 0 || y - s + h < n,
                forall|z: usize|
                    #![trigger result@.contains_key(z)]
                    result@.contains_key(z) <==> (z < y && is_chunk_start(h, s, n, z as int)),
                result@.len() == (y as int) / s,
            invariant
                h == self.height,
                s == self.scroll_by,
                n == len,
                height == h,
                step == s,
                h > 0,
                s > 0,
                forall|z: usize|
                    #![trigger result@[z]]
                    result@.contains_key(z) ==> result@[z] == bound_at(h, n, z),
            ensures
                forall|z: usize|
                    #![trigger result@.contains_key(z)]
                    result@.contains_key(z) <==> is_chunk_start(h, s, n, z as int),
                s <= h ==> result@.len() == chunk_count(h, s, n),
            decreases n - y,
        {
            let remaining: usize = if y < len {
                len - y
            } else {
                0
            };
            if remaining == 0 {
                assert forall|z: usize| #[trigger]
                    result@.contains_key(z) <==> is_chunk_start(h, s, n, z as int) by {}
                proof {
                    if s <= h {
                        assert(y == 0);
                        assert(0int / s == 0);
                    }
                }
                break;
            }
            let ghost old_dom = result@.dom();
            proof {
                assert(!result@.contains_key(y));
                assert(result@.dom().finite());
            }
            if remaining == 1 {
                result.insert(y, Bound::new(y, None));
            } else if remaining > height {
                result.insert(y, Bound::new(y, Some(y + height - 1)));
            } else {
                result.insert(y, Bound::new(y, Some(y + remaining - 1)));
                proof {
                    assert(result@.dom() =~= old_dom.insert(y));
                    if s <= h {
                        lemma_last_chunk_number(h, s, n, y as int);
                    }
                }
                assert forall|z: usize| #[trigger]
                    result@.contains_key(z) <==> is_chunk_start(h, s, n, z as int) by {
                    if z > y && (z as int) % s == 0 {
                        if z < y + s {
                            lemma_close_multiples(y as int, z as int, s);
                        }
                    }
                }
                break;
            }
            assert forall|z: usize| #[trigger]
                result@.contains_key(z) <==> (z < y + s && is_chunk_start(h, s, n, z as int)) by {
                if y <= z < y + s && (z as int) % s == 0 {
                    lemma_close_multiples(y as int, z as int, s);
                }
            }
            proof {
                assert(result@.dom() =~= old_dom.insert(y));
            }
            if step >= remaining {
                // The next start would lie past the last item.
                proof {
                    if s <= h {
                        lemma_last_chunk_number(h, s, n, y as int);
                    }
                }
                assert forall|z: usize| #[trigger]
                    result@.contains_key(z) <==> is_chunk_start(h, s, n, z as int) by {}
                break;
            }
            proof {
                lemma_shift_multiple(y as int, s, 1);
                vstd::arithmetic::div_mod::lemma_fundamental_div_mod(y as int, s);
                let q = (y as int) / s;
                assert(y + s == (q + 1) * s + 0) by (nonlinear_arith)
                    requires
                        y == s * q + 0,
                ;
                vstd::arithmetic::div_mod::lemma_fundamental_div_mod_converse_div(
                    y + s,
                    s,
                    (y as int) / s + 1,
                    0,
                );
            }
            y = y + step;
        }
        result
    }
}

} // verus!

verus! {

/// The offset reached from `y` by `n` calls of `down`.
pub open spec fn downs(y: int, height: int, step: int, n: nat) -> int
    decreases n,
{
    if n == 0 {
        y
    } else {
        downs(down_y(y, height, step), height, step, (n - 1) as nat)
    }
}

/// The offset reached from `y` by `n` calls of `up`.
pub open spec fn ups(y: int, step: int, n: nat) -> int
    decreases n,
{
    if n == 0 {
        y
    } else {
        ups(up_y(y, step), step, (n - 1) as nat)
    }
}

/// The offset reached from `y` by a run of moves, `true` for `down` and
/// `false` for `up`.
pub open spec fn offset_after_moves(y: int, height: int, step: int, moves: Seq<bool>) -> int
    decreases moves.len(),
{
    if moves.len() == 0 {
        y
    } else {
        let before = offset_after_moves(y, height, step, moves.drop_last());
        if moves.last() {
            down_y(before, height, step)
        } else {
            up_y(before, step)
        }
    }
}

/// `n` calls of `down` that each move the window (the offset before the last
/// of them is still above the height), followed by `n` calls of `up`, bring
/// the window back to where it was.
pub proof fn lemma_down_up_round_trip(y: int, height: int, step: int, n: nat)
    requires
        y >= 0,
        step > 0,
        n > 0 ==> y + (n - 1) * step < height,
    ensures
        downs(y, height, step, n) == y + n * step,
        ups(y + n * step, step, n) == y,
    decreases n,
{
    if n > 0 {
        let m = (n - 1) as nat;
        assert(y + (n - 1) * step >= y) by (nonlinear_arith)
            requires
                step > 0,
                n > 0,
        ;
        assert(y + n * step == (y + step) + m * step) by (nonlinear_arith)
            requires
                m == n - 1,
        ;
        if m > 0 {
            assert((y + step) + (m - 1) * step == y + (n - 1) * step) by (nonlinear_arith)
                requires
                    m == n - 1,
            ;
        }
        lemma_down_up_round_trip(y + step, height, step, m);
    }
    lemma_ups_undo(y, step, n);
}

proof fn lemma_ups_undo(y: int, step: int, n: nat)
    requires
        y >= 0,
        step > 0,
    ensures
        ups(y + n * step, step, n) == y,
    decreases n,
{
    if n > 0 {
        let m = (n - 1) as nat;
        assert(y + n * step > 0 && y + n * step - step == y + m * step) by (nonlinear_arith)
            requires
                y >= 0,
                step > 0,
                n > 0,
                m == n - 1,
        ;
        assert(up_y(y + n * step, step) == y + m * step);
        assert(ups(y + n * step, step, n) == ups(y + m * step, step, m));
        lemma_ups_undo(y, step, m);
    } else {
        assert(n * step == 0) by (nonlinear_arith)
            requires
                n == 0,
        ;
    }
}

/// `n` calls of `down` followed by `n` calls of `up` bring the window back to
/// where it was, when it starts at the top (some of the downs may be blocked
/// by the height) or when every one of the downs moves it.
pub proof fn lemma_down_up_returns(y: int, height: int, step: int, n: nat)
    requires
        step > 0,
        y >= 0,
        y % step == 0,
        y == 0 || (n > 0 ==> y + (n - 1) * step < height),
    ensures
        ups(downs(y, height, step, n), step, n) == y,
{
    if y == 0 {
        lemma_downs_range(0, height, step, n);
        assert(0 + n * step == n * step);
        lemma_ups_to_top(downs(0, height, step, n), step, n);
    } else {
        lemma_down_up_round_trip(y, height, step, n);
    }
}

proof fn lemma_downs_range(y: int, height: int, step: int, n: nat)
    requires
        step > 0,
        y >= 0,
        y % step == 0,
    ensures
        downs(y, height, step, n) % step == 0,
        y <= downs(y, height, step, n) <= y + n * step,
    decreases n,
{
    if n == 0 {
        assert(n * step == 0) by (nonlinear_arith)
            requires
                n == 0,
        ;
    } else {
        let d = down_y(y, height, step);
        lemma_shift_multiple(y, step, 1);
        lemma_downs_range(d, height, step, (n - 1) as nat);
        assert(d + (n - 1) * step <= y + n * step) by (nonlinear_arith)
            requires
                d <= y + step,
                n >= 1,
        ;
    }
}

proof fn lemma_ups_to_top(z: int, step: int, n: nat)
    requires
        step > 0,
        0 <= z <= n * step,
        z % step == 0,
    ensures
        ups(z, step, n) == 0,
    decreases n,
{
    if n == 0 {
        assert(n * step == 0) by (nonlinear_arith)
            requires
                n == 0,
        ;
    } else {
        let m = (n - 1) as nat;
        assert(n * step == m * step + step) by (nonlinear_arith)
            requires
                m == n - 1,
        ;
        if z > 0 {
            lemma_positive_multiple(z, step);
            lemma_shift_multiple(z, step, -1);
        }
        assert(m * step >= 0) by (nonlinear_arith)
            requires
                step > 0,
        ;
        lemma_ups_to_top(up_y(z, step), step, m);
    }
}

/// Whatever run of `up` and `down` calls is made, an offset that starts as a
/// multiple of the step below `height + step` stays a multiple of the step,
/// never goes below 0, and stays below `height + step`.
pub proof fn lemma_moves_stay_in_bounds(y: int, height: int, step: int, moves: Seq<bool>)
    requires
        step > 0,
        0 <= y < height + step,
        y % step == 0,
    ensures
        0 <= offset_after_moves(y, height, step, moves) < height + step,
        offset_after_moves(y, height, step, moves) % step == 0,
    decreases moves.len(),
{
    if moves.len() > 0 {
        lemma_moves_stay_in_bounds(y, height, step, moves.drop_last());
        let before = offset_after_moves(y, height, step, moves.drop_last());
        if moves.last() {
            lemma_shift_multiple(before, step, 1);
        } else if before > 0 {
            lemma_positive_multiple(before, step);
            lemma_shift_multiple(before, step, -1);
        }
    }
}

/// Every chunk of the bound map lies within `[0, len)`; after a chunk from
/// which a full window of items still follows, the next chunk starts exactly
/// one step later, provided that start is still among the items (with a
/// step larger than the height it may not be); when the step is at most the
/// height, a key has a successor one step on exactly when items remain after
/// its full window; the chunk after a key is never nearer than one step; and
/// when the step is at least the height, the chunks do not overlap.
pub proof fn lemma_bounds_chunks(height: int, step: int, len: int, y: int, z: int)
    requires
        height > 0,
        step > 0,
        is_chunk_start(height, step, len, y),
    ensures
        y <= chunk_end(height, len, y) < len,
        y + height < len && y + step < len ==> is_chunk_start(height, step, len, y + step),
        step <= height ==> (is_chunk_start(height, step, len, y + step) <==> y + height < len),
        is_chunk_start(height, step, len, z) && y < z ==> z >= y + step,
        step >= height && is_chunk_start(height, step, len, z) && y < z ==> chunk_end(
            height,
            len,
            y,
        ) < z,
{
    lemma_shift_multiple(y, step, 1);
    if is_chunk_start(height, step, len, z) && y < z && z < y + step {
        lemma_close_multiples(y, z, step);
    }
}

/// The bound map of at least one item has a chunk at 0.
pub proof fn lemma_bounds_start_at_zero(height: int, step: int, len: int)
    requires
        height > 0,
        step > 0,
        len > 0,
    ensures
        is_chunk_start(height, step, len, 0),
{
    assert(0int % step == 0);
}

/// When the step is at most the height, the chunks of the bound map cover
/// every index in `[0, len)`: each index lies in the chunk of some key.
pub proof fn lemma_bounds_cover(height: int, step: int, len: int, i: int)
    requires
        height > 0,
        0 < step <= height,
        0 <= i < len,
    ensures
        exists|y: int|
            #![trigger is_chunk_start(height, step, len, y)]
            is_chunk_start(height, step, len, y) && y <= i <= chunk_end(height, len, y),
{
    assert(0int % step == 0);
    lemma_cover_from(height, step, len, i, 0);
}

proof fn lemma_cover_from(height: int, step: int, len: int, i: int, y: int)
    requires
        height > 0,
        0 < step <= height,
        is_chunk_start(height, step, len, y),
        y <= i < len,
    ensures
        exists|w: int|
            #![trigger is_chunk_start(height, step, len, w)]
            is_chunk_start(height, step, len, w) && w <= i <= chunk_end(height, len, w),
    decreases i - y,
{
    if i > chunk_end(height, len, y) {
        lemma_shift_multiple(y, step, 1);
        assert(is_chunk_start(height, step, len, y + step));
        lemma_cover_from(height, step, len, i, y + step);
    }
}

} // verus!

verus! {

/// No line of `v` holds a line feed.
pub open spec fn no_line_feeds(v: Seq<Seq<char>>) -> bool {
    forall|i: int, j: int| 0 <= i < v.len() && 0 <= j < v[i].len() ==> #[trigger] v[i][j] != '\n'
}

proof fn lemma_crlf_append(x: Seq<char>, y: Seq<char>)
    requires
        forall|j: int| 0 <= j < y.len() ==> y[j] != '\n',
    ensures
        split_crlf(x + y) == split_crlf(x).update(
            split_crlf(x).len() - 1,
            split_crlf(x).last() + y,
        ),
        split_crlf(x + y).len() == split_crlf(x).len(),
    decreases y.len(),
{
    lemma_split_crlf_nonempty(x);
    let p = split_crlf(x);
    if y.len() == 0 {
        assert(x + y =~= x);
        assert(p.last() + y =~= p.last());
        assert(p.update(p.len() - 1, p.last()) =~= p);
    } else {
        let y0 = y.drop_last();
        lemma_crlf_append(x, y0);
        assert((x + y).drop_last() =~= x + y0);
        assert((x + y).last() == y.last());
        let q = split_crlf(x + y0);
        assert(q.last() == p.last() + y0);
        assert(q.last().push(y.last()) =~= p.last() + y);
        assert(q.len() == p.len());
        assert(q.update(q.len() - 1, q.last().push(y.last())) =~= p.update(
            p.len() - 1,
            p.last() + y,
        ));
    }
}

proof fn lemma_crlf_split_terminated(v: Seq<Seq<char>>)
    requires
        no_line_feeds(v),
    ensures
        split_crlf(terminated(v)) == v.push(seq![]),
    decreases v.len(),
{
    if v.len() == 0 {
        assert(v.push(seq![]) =~= seq![Seq::<char>::empty()]);
    } else {
        let w = v.drop_last();
        let l = v.last();
        assert forall|i: int, j: int| 0 <= i < w.len() && 0 <= j < w[i].len() implies #[trigger] w[i][j]
            != '\n' by {
            assert(w[i] == v[i]);
        }
        lemma_crlf_split_terminated(w);
        lemma_crlf_open_last(v);
        let t = terminated(v);
        assert(t == terminated(w) + l + crlf());
        assert(t.take(t.len() - 2) =~= terminated(w) + l);
        assert(t[t.len() - 2] == '\r' && t.last() == '\n');
    }
}

/// The lines of `v` with line endings between them but none after the last:
/// cut at each `"\r\n"`, they give back `v`.
proof fn lemma_crlf_open_last(v: Seq<Seq<char>>)
    requires
        v.len() > 0,
        no_line_feeds(v),
    ensures
        split_crlf(terminated(v.drop_last()) + v.last()) == v,
    decreases v.len(),
{
    let w = v.drop_last();
    let l = v.last();
    assert forall|i: int, j: int| 0 <= i < w.len() && 0 <= j < w[i].len() implies #[trigger] w[i][j]
        != '\n' by {
        assert(w[i] == v[i]);
    }
    if w.len() > 0 {
        lemma_crlf_open_last(w);
    }
    let t = terminated(w);
    let p = split_crlf(t);
    if w.len() == 0 {
        assert(p == seq![Seq::<char>::empty()]);
    } else {
        let u = terminated(w.drop_last()) + w.last();
        assert(t == u + crlf());
        assert(t.take(t.len() - 2) =~= u);
        assert(t[t.len() - 2] == '\r' && t.last() == '\n');
        assert(p == w.push(seq![]));
    }
    assert forall|j: int| 0 <= j < l.len() implies l[j] != '\n' by {
        assert(l[j] == v[v.len() - 1][j]);
    }
    lemma_crlf_append(t, l);
    assert(p.last() + l =~= l);
    assert(p.update(p.len() - 1, l) =~= v);
}

proof fn lemma_split_no_line_feeds(s: Seq<char>)
    ensures
        no_line_feeds(split_newlines(s)),
    decreases s.len(),
{
    if s.len() > 0 {
        lemma_split_no_line_feeds(s.drop_last());
        lemma_split_newlines_nonempty(s.drop_last());
        let p = split_newlines(s.drop_last());
        if s.last() != '\n' {
            let q = p.update(p.len() - 1, p.last().push(s.last()));
            assert forall|i: int, j: int| 0 <= i < q.len() && 0 <= j < q[i].len() implies #[trigger] q[i][j]
                != '\n' by {
                if i == q.len() - 1 && j < p.last().len() {
                    assert(q[i][j] == p[p.len() - 1][j]);
                } else if i < q.len() - 1 {
                    assert(q[i] == p[i]);
                }
            }
        } else {
            let q = p.push(seq![]);
            assert forall|i: int, j: int| 0 <= i < q.len() && 0 <= j < q[i].len() implies #[trigger] q[i][j]
                != '\n' by {
                assert(q[i] == p[i]);
            }
        }
    }
}

proof fn lemma_lines_no_line_feeds(s: Seq<char>)
    ensures
        no_line_feeds(lines_of(s)),
{
    lemma_split_no_line_feeds(s);
    lemma_split_newlines_nonempty(s);
    let p = split_newlines(s);
    let ls = lines_of(s);
    assert forall|i: int, j: int| 0 <= i < ls.len() && 0 <= j < ls[i].len() implies #[trigger] ls[i][j]
        != '\n' by {
        if i < p.len() - 1 {
            assert(ls[i] == strip_cr(p[i]));
            assert(ls[i][j] == p[i][j]);
        } else {
            assert(ls[i] == p[i]);
        }
    }
}

proof fn lemma_terminated_concat(a: Seq<Seq<char>>, b: Seq<Seq<char>>)
    ensures
        terminated(a + b) == terminated(a) + terminated(b),
    decreases b.len(),
{
    if b.len() == 0 {
        assert(a + b =~= a);
        assert(terminated(a) + terminated(b) =~= terminated(a));
    } else {
        lemma_terminated_concat(a, b.drop_last());
        assert((a + b).drop_last() =~= a + b.drop_last());
        assert((a + b).last() == b.last());
        assert(terminated(a + b) =~= terminated(a) + terminated(b));
    }
}

proof fn lemma_blank_lines_terminated(n: nat)
    ensures
        blank_lines(n) == terminated(Seq::new(n, |i: int| Seq::<char>::empty())),
    decreases n,
{
    let e = Seq::new(n, |i: int| Seq::<char>::empty());
    if n > 0 {
        lemma_blank_lines_terminated((n - 1) as nat);
        assert(e.drop_last() =~= Seq::new((n - 1) as nat, |i: int| Seq::<char>::empty()));
        assert(e.last() + crlf() =~= crlf());
        assert(terminated(e) =~= blank_lines(n));
    } else {
        assert(terminated(e) =~= blank_lines(n));
    }
}

/// A rendered window always has exactly `height` line slots: cut at each
/// `"\r\n"`, its first `height` pieces are the visible lines followed by one
/// empty piece for each line of the window left over, and whatever follows
/// them (at most one piece) is empty.
pub proof fn lemma_render_height(data: Seq<char>, y: int, height: int)
    requires
        y >= 0,
        height >= 0,
    ensures
        ({
            let s = split_crlf(rendered(data, y, height));
            let w = window(data, y, height);
            &&& s.take(height) == w + Seq::new(
                (height - w.len()) as nat,
                |i: int| Seq::<char>::empty(),
            )
            &&& s.len() <= height + 1
            &&& forall|i: int| height <= i < s.len() ==> #[trigger] s[i].len() == 0
        }),
{
    let w = window(data, y, height);
    let k = w.len();
    let n = (height - k) as nat;
    let e = Seq::new(n, |i: int| Seq::<char>::empty());
    lemma_lines_no_line_feeds(data);
    let ls = lines_of(data);
    let a = if y < ls.len() {
        y
    } else {
        ls.len() as int
    };
    assert forall|i: int, j: int| 0 <= i < k && 0 <= j < w[i].len() implies #[trigger] w[i][j]
        != '\n' by {
        assert(w[i] == ls[a + i]);
    }
    assert forall|i: int, j: int|
        0 <= i < (w + e).len() && 0 <= j < (w + e)[i].len() implies #[trigger] (w + e)[i][j]
        != '\n' by {
        if i < k {
            assert((w + e)[i] == w[i]);
        }
    }
    lemma_blank_lines_terminated(n);
    let r = rendered(data, y, height);
    let s = split_crlf(r);
    if !shows_open_last_line(data, y, height) {
        lemma_terminated_concat(w, e);
        assert(r == terminated(w + e));
        lemma_crlf_split_terminated(w + e);
        assert(s.take(height) =~= w + e);
    } else if n == 0 {
        assert(e =~= Seq::<Seq<char>>::empty());
        assert(blank_lines(0) =~= Seq::<char>::empty());
        assert(r =~= terminated(w.drop_last()) + w.last());
        lemma_crlf_open_last(w);
        assert(s.take(height) =~= w + e);
    } else {
        let e1 = Seq::new((n - 1) as nat, |i: int| Seq::<char>::empty());
        assert(e =~= seq![Seq::<char>::empty()] + e1);
        lemma_terminated_concat(seq![Seq::<char>::empty()], e1);
        lemma_blank_lines_terminated((n - 1) as nat);
        assert(terminated(seq![Seq::<char>::empty()]) =~= crlf()) by {
            assert(seq![Seq::<char>::empty()].drop_last() =~= Seq::<Seq<char>>::empty());
        }
        assert(terminated(w) == terminated(w.drop_last()) + w.last() + crlf());
        assert(r =~= terminated(w) + terminated(e1));
        lemma_terminated_concat(w, e1);
        assert forall|i: int, j: int|
            0 <= i < (w + e1).len() && 0 <= j < (w + e1)[i].len() implies #[trigger] (w
            + e1)[i][j] != '\n' by {
            if i < k {
                assert((w + e1)[i] == w[i]);
            }
        }
        lemma_crlf_split_terminated(w + e1);
        assert((w + e1).push(seq![]) =~= w + e);
        assert(s.take(height) =~= w + e);
    }
}

} // verus!
