use vstd::prelude::*;

verus! {

/// Relies on `String::push`: appends one character.
#[verifier::external_body]
pub(crate) fn push_char(s: &mut String, c: char)
    ensures
        final(s)@ == old(s)@.push(c),
{
    s.push(c);
}

/// The characters of `s`, in order.
pub fn chars_of(s: &str) -> (r: Vec<char>)
    ensures
        r@ == s@,
{
    let mut r: Vec<char> = Vec::new();
    for c in it: s.chars()
        invariant
            r@ == it.seq().take(it.index() as int),
    {
        r.push(c);
    }
    r
}

} // verus!

verus! {

/// The two characters that end a line on a terminal in raw mode.
pub open spec fn crlf() -> Seq<char> {
    seq!['\r', '\n']
}

/// `s` cut at each `'\n'`, the `'\n'`s dropped: one more piece than there
/// are `'\n'`s in `s`.
pub open spec fn split_newlines(s: Seq<char>) -> Seq<Seq<char>>
    decreases s.len(),
{
    if s.len() == 0 {
        seq![seq![]]
    } else {
        let p = split_newlines(s.drop_last());
        if s.last() == '\n' {
            p.push(seq![])
        } else {
            p.update(p.len() - 1, p.last().push(s.last()))
        }
    }
}

/// A line with one trailing `'\r'` removed, if it has one.
pub open spec fn strip_cr(l: Seq<char>) -> Seq<char> {
    if l.len() > 0 && l.last() == '\r' {
        l.drop_last()
    } else {
        l
    }
}

/// The lines of `s`: split at `"\n"` or `"\r\n"`, without the line endings;
/// the last line ending is optional, and a bare `'\r'` at the very end is
/// kept.
pub open spec fn lines_of(s: Seq<char>) -> Seq<Seq<char>> {
    let p = split_newlines(s);
    let ended = p.drop_last().map_values(|l: Seq<char>| strip_cr(l));
    if p.last().len() == 0 {
        ended
    } else {
        ended.push(p.last())
    }
}

/// The character views of a sequence of strings.
pub open spec fn views(v: Seq<String>) -> Seq<Seq<char>> {
    v.map_values(|l: String| l@)
}

pub(crate) proof fn lemma_split_newlines_nonempty(s: Seq<char>)
    ensures
        split_newlines(s).len() >= 1,
    decreases s.len(),
{
    if s.len() > 0 {
        lemma_split_newlines_nonempty(s.drop_last());
    }
}

/// The string made of `chars[from..to]`.
pub fn string_of(chars: &Vec<char>, from: usize, to: usize) -> (r: String)
    requires
        from <= to <= chars.len(),
    ensures
        r@ == chars@.subrange(from as int, to as int),
{
    let mut r = String::new();
    let mut i: usize = from;
    while i < to
        invariant
            from <= i <= to <= chars.len(),
            r@ == chars@.subrange(from as int, i as int),
        decreases to - i,
    {
        push_char(&mut r, chars[i]);
        assert(chars@.subrange(from as int, i + 1) =~= chars@.subrange(from as int, i as int).push(
            chars@[i as int],
        ));
        i += 1;
    }
    r
}

/// The lines of a sequence of characters, as `str::lines` gives them.
pub fn lines(chars: &Vec<char>) -> (r: Vec<String>)
    ensures
        views(r@) == lines_of(chars@),
{
    let mut r: Vec<String> = Vec::new();
    let mut start: usize = 0;
    let mut i: usize = 0;
    while i < chars.len()
        invariant
            start <= i <= chars.len(),
            views(r@) == split_newlines(chars@.take(i as int)).drop_last().map_values(
                |l: Seq<char>| strip_cr(l),
            ),
            split_newlines(chars@.take(i as int)).last() == chars@.subrange(
                start as int,
                i as int,
            ),
        decreases chars.len() - i,
    {
        let ghost before = chars@.take(i as int);
        proof {
            lemma_split_newlines_nonempty(before);
            assert(chars@.take(i + 1).drop_last() =~= before);
        }
        if chars[i] == '\n' {
            let end: usize = if i > start && chars[i - 1] == '\r' {
                i - 1
            } else {
                i
            };
            let line = string_of(chars, start, end);
            let ghost old_r = r@;
            r.push(line);
            proof {
                let p = split_newlines(before);
                assert(views(r@) =~= views(old_r).push(line@));
                assert(p.map_values(|l: Seq<char>| strip_cr(l)) =~= p.drop_last().map_values(
                    |l: Seq<char>| strip_cr(l),
                ).push(strip_cr(p.last())));
                assert(split_newlines(chars@.take(i + 1)) == p.push(seq![]));
                assert(p.push(seq![]).drop_last() =~= p);
                assert(strip_cr(p.last()) =~= chars@.subrange(start as int, end as int));
                assert(views(r@) =~= p.map_values(|l: Seq<char>| strip_cr(l)));
            }
            start = i + 1;
        } else {
            proof {
                let p = split_newlines(before);
                let q = p.update(p.len() - 1, p.last().push(chars@[i as int]));
                assert(split_newlines(chars@.take(i + 1)) == q);
                assert(q.drop_last() =~= p.drop_last());
                assert(q.last() =~= chars@.subrange(start as int, i + 1));
            }
        }
        i += 1;
    }
    proof {
        assert(chars@.take(chars.len() as int) =~= chars@);
        lemma_split_newlines_nonempty(chars@);
    }
    if start < chars.len() {
        let line = string_of(chars, start, chars.len());
        let ghost old_r = r@;
        r.push(line);
        proof {
            assert(views(r@) =~= views(old_r).push(line@));
            assert(views(r@) =~= lines_of(chars@));
        }
    }
    r
}

} // verus!

verus! {

/// `s` with each `'\n'` replaced by `"\r\n"`.
pub open spec fn to_crlf(s: Seq<char>) -> Seq<char>
    decreases s.len(),
{
    if s.len() == 0 {
        seq![]
    } else if s.last() == '\n' {
        to_crlf(s.drop_last()) + crlf()
    } else {
        to_crlf(s.drop_last()).push(s.last())
    }
}

/// `s` ended by a line feed (one is added if it has none), with every line
/// feed turned into `"\r\n"`.
pub open spec fn normalized(s: Seq<char>) -> Seq<char> {
    if s.len() > 0 && s.last() == '\n' {
        to_crlf(s)
    } else {
        to_crlf(s.push('\n'))
    }
}

/// The number of times `"\r\n"` occurs in `s`.
pub open spec fn crlf_count(s: Seq<char>) -> nat
    decreases s.len(),
{
    if s.len() < 2 {
        0
    } else if s[s.len() - 2] == '\r' && s.last() == '\n' {
        crlf_count(s.take(s.len() - 2)) + 1
    } else {
        crlf_count(s.drop_last())
    }
}

/// Make `initial` end with a line feed and turn each `"\n"` into `"\r\n"`,
/// as a terminal in raw mode needs.
pub fn normalize_endings(initial: String) -> (r: String)
    ensures
        r@ == normalized(initial@),
{
    let chars = chars_of(initial.as_str());
    let mut r = String::new();
    let mut i: usize = 0;
    while i < chars.len()
        invariant
            i <= chars.len(),
            r@ == to_crlf(chars@.take(i as int)),
        decreases chars.len() - i,
    {
        let c = chars[i];
        assert(chars@.take(i + 1).drop_last() =~= chars@.take(i as int));
        if c == '\n' {
            push_char(&mut r, '\r');
            push_char(&mut r, '\n');
            assert(r@ =~= to_crlf(chars@.take(i as int)) + crlf());
        } else {
            push_char(&mut r, c);
        }
        i += 1;
    }
    assert(chars@.take(chars.len() as int) =~= chars@);
    if chars.len() == 0 || chars[chars.len() - 1] != '\n' {
        push_char(&mut r, '\r');
        push_char(&mut r, '\n');
        assert(chars@.push('\n').drop_last() =~= chars@);
        assert(r@ =~= to_crlf(chars@) + crlf());
    }
    r
}

/// Count the occurrences of `"\r\n"` in `s`.
pub fn count_crlf(s: &str) -> (r: usize)
    ensures
        r == crlf_count(s@),
{
    let chars = chars_of(s);
    let mut count: usize = 0;
    let mut i: usize = 0;
    while i < chars.len()
        invariant
            i <= chars.len(),
            count == crlf_count(chars@.take(i as int)),
            count <= i,
        decreases chars.len() - i,
    {
        let ghost t = chars@.take(i + 1);
        assert(t.drop_last() =~= chars@.take(i as int));
        assert(t.len() >= 2 ==> t[t.len() - 2] == chars@[i - 1] && t.last() == chars@[i as int]);
        if i > 0 && chars[i] == '\n' && chars[i - 1] == '\r' {
            proof {
                assert(t.take(t.len() - 2) =~= chars@.take(i - 1));
                let u = chars@.take(i as int);
                assert(u.drop_last() =~= chars@.take(i - 1));
                assert(u.last() == '\r');
                assert(crlf_count(u) == crlf_count(chars@.take(i - 1)));
                assert(crlf_count(t) == crlf_count(chars@.take(i - 1)) + 1);
            }
            count += 1;
        }
        i += 1;
    }
    assert(chars@.take(chars.len() as int) =~= chars@);
    count
}

} // verus!

verus! {

/// `s` with `c` put in at position `pos`.
pub open spec fn inserted(s: Seq<char>, pos: int, c: char) -> Seq<char> {
    s.take(pos).push(c) + s.skip(pos)
}

/// `s` without the character at position `pos`.
pub open spec fn removed(s: Seq<char>, pos: int) -> Seq<char> {
    s.take(pos) + s.skip(pos + 1)
}

/// Return `s` with `c` put in at character position `pos`.
pub fn insert_char(s: &str, pos: usize, c: char) -> (r: String)
    requires
        pos <= s@.len(),
    ensures
        r@ == inserted(s@, pos as int, c),
{
    let chars = chars_of(s);
    let mut r = string_of(&chars, 0, pos);
    push_char(&mut r, c);
    let rest = string_of(&chars, pos, chars.len());
    r.append(rest.as_str());
    assert(r@ =~= inserted(s@, pos as int, c));
    r
}

/// Return `s` without the character at character position `pos`.
pub fn remove_char(s: &str, pos: usize) -> (r: String)
    requires
        pos < s@.len(),
    ensures
        r@ == removed(s@, pos as int),
{
    let chars = chars_of(s);
    assert(pos < chars.len());
    let mut r = string_of(&chars, 0, pos);
    let rest = string_of(&chars, pos + 1, chars.len());
    r.append(rest.as_str());
    assert(r@ =~= removed(s@, pos as int));
    r
}

} // verus!

verus! {

/// `s` cut at each `"\r\n"`, the `"\r\n"`s dropped: one more piece than
/// there are `"\r\n"`s in `s`.
pub open spec fn split_crlf(s: Seq<char>) -> Seq<Seq<char>>
    decreases s.len(),
{
    if s.len() == 0 {
        seq![seq![]]
    } else if s.len() >= 2 && s[s.len() - 2] == '\r' && s.last() == '\n' {
        split_crlf(s.take(s.len() - 2)).push(seq![])
    } else {
        let p = split_crlf(s.drop_last());
        p.update(p.len() - 1, p.last().push(s.last()))
    }
}

pub(crate) proof fn lemma_split_crlf_nonempty(s: Seq<char>)
    ensures
        split_crlf(s).len() >= 1,
    decreases s.len(),
{
    if s.len() >= 2 && s[s.len() - 2] == '\r' && s.last() == '\n' {
        lemma_split_crlf_nonempty(s.take(s.len() - 2));
    } else if s.len() > 0 {
        lemma_split_crlf_nonempty(s.drop_last());
    }
}

} // verus!
