//! Small helpers on strings and lists of strings.

use vstd::prelude::*;

verus! {

/// The characters of each string of a list.
pub open spec fn texts(strings: Seq<String>) -> Seq<Seq<char>> {
    Seq::new(strings.len(), |i: int| strings[i]@)
}

/// Whether two string slices hold the same characters.
pub fn same_text(a: &str, b: &str) -> (same: bool)
    ensures
        same == (a@ == b@),
{
    let left = a.to_owned();
    let right = b.to_owned();
    left == right
}

/// Appends a copy of `text` to `list`.
pub fn push_text(list: &mut Vec<String>, text: &str)
    ensures
        final(list)@.len() == old(list)@.len() + 1,
        texts(final(list)@) == texts(old(list)@).push(text@),
{
    list.push(text.to_owned());
    assert(texts(list@) =~= texts(old(list)@).push(text@));
}

/// Whether a character is white space: the characters with the Unicode
/// property `White_Space`.
pub open spec fn is_whitespace(c: char) -> bool {
    let code = c as u32;
    ||| 0x09 <= code <= 0x0D
    ||| code == 0x20
    ||| code == 0x85
    ||| code == 0xA0
    ||| code == 0x1680
    ||| 0x2000 <= code <= 0x200A
    ||| code == 0x2028
    ||| code == 0x2029
    ||| code == 0x202F
    ||| code == 0x205F
    ||| code == 0x3000
}

/// `text` without the white space it starts with.
pub open spec fn trim_start(text: Seq<char>) -> Seq<char>
    decreases text.len(),
{
    if text.len() > 0 && is_whitespace(text.first()) {
        trim_start(text.drop_first())
    } else {
        text
    }
}

/// `text` without the white space it ends with.
pub open spec fn trim_end(text: Seq<char>) -> Seq<char>
    decreases text.len(),
{
    if text.len() > 0 && is_whitespace(text.last()) {
        trim_end(text.drop_last())
    } else {
        text
    }
}

/// `text` without the white space at either end.
pub open spec fn trim(text: Seq<char>) -> Seq<char> {
    trim_end(trim_start(text))
}

/// A text that neither starts nor ends with white space, and is not empty.
pub open spec fn is_trimmed(text: Seq<char>) -> bool {
    &&& text.len() > 0
    &&& !is_whitespace(text.first())
    &&& !is_whitespace(text.last())
}

/// The lines of a text: the pieces between its line feeds, in order. A text
/// with `n` line feeds has `n + 1` lines, some of which may be empty.
pub open spec fn lines(text: Seq<char>) -> Seq<Seq<char>>
    decreases text.len(),
{
    if text.len() == 0 {
        seq![Seq::empty()]
    } else {
        let before = lines(text.drop_last());
        if text.last() == '\n' {
            before.push(Seq::empty())
        } else {
            before.update(before.len() - 1, before.last().push(text.last()))
        }
    }
}

pub fn char_is_whitespace(c: char) -> (white: bool)
    ensures
        white == is_whitespace(c),
{
    let code: u32 = c as u32;
    (0x09 <= code && code <= 0x0D) || code == 0x20 || code == 0x85 || code == 0xA0 || code == 0x1680 || (0x2000
        <= code && code <= 0x200A) || code == 0x2028 || code == 0x2029 || code == 0x202F || code == 0x205F || code
        == 0x3000
}

/// The characters of a string, one by one.
pub fn chars_of(text: &str) -> (chars: Vec<char>)
    ensures
        chars@ == text@,
{
    let mut chars: Vec<char> = Vec::new();
    for c in it: text.chars()
        invariant
            chars@ == it.seq().take(it.index() as int),
    {
        chars.push(c);
    }
    chars
}

/// Finds the part of `chars[start..end]` that is left when the white space at
/// both ends is cut off.
pub fn trimmed_bounds(chars: &Vec<char>, start: usize, end: usize) -> (bounds: (usize, usize))
    requires
        start <= end <= chars.len(),
    ensures
        start <= bounds.0 <= bounds.1 <= end,
        chars@.subrange(bounds.0 as int, bounds.1 as int) == trim(chars@.subrange(start as int, end as int)),
{
    let ghost line = chars@.subrange(start as int, end as int);
    let mut first: usize = start;
    while first < end && char_is_whitespace(chars[first])
        invariant
            start <= first <= end <= chars.len(),
            trim_start(line) == trim_start(chars@.subrange(first as int, end as int)),
        decreases end - first,
    {
        assert(chars@.subrange(first as int, end as int).drop_first() =~= chars@.subrange(first + 1, end as int));
        first += 1;
    }
    assert(trim_start(line) == chars@.subrange(first as int, end as int));
    let mut last: usize = end;
    while last > first && char_is_whitespace(chars[last - 1])
        invariant
            first <= last <= end <= chars.len(),
            trim(line) == trim_end(chars@.subrange(first as int, last as int)),
        decreases last - first,
    {
        assert(chars@.subrange(first as int, last as int).drop_last() =~= chars@.subrange(first as int, last - 1));
        last -= 1;
    }
    (first, last)
}

/// A text made of white space only; the empty text is one.
pub open spec fn is_blank(text: Seq<char>) -> bool {
    forall|i: int| 0 <= i < text.len() ==> is_whitespace(#[trigger] text[i])
}

/// The lines of a text put together again, with a line feed between each two.
pub open spec fn joined(all: Seq<Seq<char>>) -> Seq<char>
    decreases all.len(),
{
    if all.len() == 0 {
        Seq::empty()
    } else if all.len() == 1 {
        all[0]
    } else {
        joined(all.drop_last()) + seq!['\n'] + all.last()
    }
}

/// What `trim_start` leaves is the end of the text, and does not start with
/// white space; what it cuts off is white space.
pub proof fn lemma_trim_start(text: Seq<char>)
    ensures
        trim_start(text).len() <= text.len(),
        trim_start(text) == text.skip(text.len() - trim_start(text).len()),
        is_blank(text.take(text.len() - trim_start(text).len())),
        trim_start(text).len() > 0 ==> !is_whitespace(trim_start(text).first()),
    decreases text.len(),
{
    if text.len() > 0 && is_whitespace(text.first()) {
        let rest = text.drop_first();
        lemma_trim_start(rest);
        let cut = rest.len() - trim_start(rest).len();
        assert(rest.skip(cut) =~= text.skip(cut + 1));
        assert forall|i: int| 0 <= i < cut + 1 implies is_whitespace(#[trigger] text.take(cut + 1)[i]) by {
            if i > 0 {
                assert(text.take(cut + 1)[i] == rest.take(cut)[i - 1]);
            }
        }
    } else {
        assert(text.skip(0) =~= text);
    }
}

/// What `trim_end` leaves is the start of the text, and does not end with
/// white space; what it cuts off is white space.
pub proof fn lemma_trim_end(text: Seq<char>)
    ensures
        trim_end(text).len() <= text.len(),
        trim_end(text) == text.take(trim_end(text).len() as int),
        is_blank(text.skip(trim_end(text).len() as int)),
        trim_end(text).len() > 0 ==> !is_whitespace(trim_end(text).last()),
    decreases text.len(),
{
    if text.len() > 0 && is_whitespace(text.last()) {
        let rest = text.drop_last();
        lemma_trim_end(rest);
        let kept = trim_end(rest).len() as int;
        assert(rest.take(kept) =~= text.take(kept));
        assert forall|i: int| 0 <= i < text.len() - kept implies is_whitespace(#[trigger] text.skip(kept)[i]) by {
            if i < rest.len() - kept {
                assert(text.skip(kept)[i] == rest.skip(kept)[i]);
            }
        }
    } else {
        assert(text.take(text.len() as int) =~= text);
    }
}

/// Trimming leaves nothing, or a text that neither starts nor ends with white
/// space; it leaves nothing exactly of a text that is white space only.
pub proof fn lemma_trim(text: Seq<char>)
    ensures
        trim(text).len() == 0 || is_trimmed(trim(text)),
        trim(text).len() == 0 <==> is_blank(text),
        is_trimmed(text) ==> trim(text) == text,
{
    let inner = trim_start(text);
    lemma_trim_start(text);
    lemma_trim_end(inner);
    let cut = text.len() - inner.len();
    let kept = trim(text).len() as int;
    if kept > 0 {
        assert(trim(text).first() == inner.first());
        assert(inner.first() == text[cut]);
        assert(!is_blank(text));
    } else {
        assert forall|i: int| 0 <= i < text.len() implies is_whitespace(#[trigger] text[i]) by {
            if i < cut {
                assert(text[i] == text.take(cut)[i]);
            } else {
                assert(text[i] == inner.skip(kept)[i - cut]);
            }
        }
    }
}

/// A text that neither starts nor ends with white space is not made of white
/// space only.
pub proof fn lemma_trimmed_not_blank(text: Seq<char>)
    requires
        is_trimmed(text),
    ensures
        text.len() > 0,
        !is_blank(text),
{
    assert(!is_whitespace(text[0]));
}

/// A text has at least one line, no line holds a line feed, and the lines put
/// together with line feeds give the text back.
pub proof fn lemma_lines(text: Seq<char>)
    ensures
        lines(text).len() >= 1,
        forall|i: int, j: int|
            0 <= i < lines(text).len() && 0 <= j < lines(text)[i].len() ==> (#[trigger] lines(text)[i][j]) != '\n',
        joined(lines(text)) == text,
    decreases text.len(),
{
    if text.len() == 0 {
        assert(joined(lines(text)) =~= text);
    } else {
        let before = lines(text.drop_last());
        lemma_lines(text.drop_last());
        if text.last() == '\n' {
            let all = before.push(Seq::empty());
            assert(all.drop_last() =~= before);
            assert(joined(all) =~= text);
        } else {
            let grown = before.last().push(text.last());
            let all = before.update(before.len() - 1, grown);
            if before.len() == 1 {
                assert(joined(all) =~= text);
            } else {
                assert(all.drop_last() =~= before.drop_last());
                assert(joined(all) =~= joined(before) + seq![text.last()]);
                assert(joined(all) =~= text);
            }
        }
    }
}

/// A text without a line feed is one line.
pub proof fn lemma_lines_single(text: Seq<char>)
    requires
        forall|i: int| 0 <= i < text.len() ==> text[i] != '\n',
    ensures
        lines(text) == seq![text],
    decreases text.len(),
{
    if text.len() == 0 {
        assert(text =~= Seq::<char>::empty());
    } else {
        lemma_lines_single(text.drop_last());
        let before = lines(text.drop_last());
        assert(text[text.len() - 1] != '\n');
        assert(before.last().push(text.last()) =~= text);
        assert(lines(text) =~= seq![text]);
    }
}

/// The lines of two texts with a line feed between them are the lines of the
/// first, and then those of the second.
pub proof fn lemma_lines_concat(first: Seq<char>, second: Seq<char>)
    ensures
        lines(first + seq!['\n'] + second) == lines(first) + lines(second),
    decreases second.len(),
{
    let whole = first + seq!['\n'] + second;
    lemma_lines(first);
    if second.len() == 0 {
        assert(whole.drop_last() =~= first);
        assert(lines(second) =~= seq![Seq::<char>::empty()]);
        assert(lines(whole) =~= lines(first) + lines(second));
    } else {
        let shorter = second.drop_last();
        lemma_lines_concat(first, shorter);
        lemma_lines(shorter);
        assert(whole.drop_last() =~= first + seq!['\n'] + shorter);
        assert(whole.last() == second.last());
        assert((lines(first) + lines(shorter)).last() == lines(shorter).last());
        assert(lines(whole) =~= lines(first) + lines(second));
    }
}

} // verus!
