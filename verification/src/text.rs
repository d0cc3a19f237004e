//! Characters and the normal form in which message text is searched.

use vstd::prelude::*;
use vstd::std_specs::iter::IteratorSpec;

verus! {

/// Whether `c` is whitespace as Unicode defines it (White_Space).
pub open spec fn is_whitespace(c: char) -> bool {
    let code = c as u32;
    ||| 0x09 <= code <= 0x0D
    ||| code == 0x20
    ||| code == 0x85
    ||| code == 0xA0
    ||| code == 0x1680
    ||| 0x2000 <= code <= 0x200A
    ||| code == 0x2028
    ||| code == 0x2029
    ||| code == 0x202F
    ||| code == 0x205F
    ||| code == 0x3000
}

/// The lower-case form of an ASCII capital letter; any other character
/// unchanged.
pub open spec fn fold_char(c: char) -> char {
    if 'A' <= c && c <= 'Z' {
        ((c as u32) + 0x20) as char
    } else {
        c
    }
}

/// `text` with every ASCII capital letter in lower case.
pub open spec fn fold(text: Seq<char>) -> Seq<char> {
    text.map_values(|c: char| fold_char(c))
}

/// `text` without its whitespace characters.
pub open spec fn strip_whitespace(text: Seq<char>) -> Seq<char> {
    text.filter(|c: char| !is_whitespace(c))
}

/// The form in which text is searched: without whitespace, and with ASCII
/// letters in lower case.
pub open spec fn normalized(text: Seq<char>) -> Seq<char> {
    fold(strip_whitespace(text))
}

/// `text` without the whitespace it begins with.
pub open spec fn trim_start(text: Seq<char>) -> Seq<char>
    decreases text.len(),
{
    if text.len() > 0 && is_whitespace(text.first()) {
        trim_start(text.drop_first())
    } else {
        text
    }
}

/// `text` without the whitespace it ends with.
pub open spec fn trim_end(text: Seq<char>) -> Seq<char>
    decreases text.len(),
{
    if text.len() > 0 && is_whitespace(text.last()) {
        trim_end(text.drop_last())
    } else {
        text
    }
}

/// `text` without the whitespace around it.
pub open spec fn trimmed(text: Seq<char>) -> Seq<char> {
    trim_end(trim_start(text))
}

/// The position of the first line feed of `text` at or after `from`; the
/// length of `text` where there is none.
pub open spec fn line_end(text: Seq<char>, from: int) -> int
    decreases text.len() - from,
{
    if from >= text.len() {
        text.len() as int
    } else if text[from] == '\n' {
        from
    } else {
        line_end(text, from + 1)
    }
}

/// `line` without the carriage return that it ends with, if it ends with
/// one.
pub open spec fn without_cr(line: Seq<char>) -> Seq<char> {
    if line.len() > 0 && line.last() == '\r' {
        line.drop_last()
    } else {
        line
    }
}

/// The lines of `text` from position `from` on.
pub open spec fn lines_from(text: Seq<char>, from: int) -> Seq<Seq<char>>
    decreases text.len() - from,
{
    if from < 0 || from >= text.len() {
        Seq::empty()
    } else {
        let end = line_end(text, from);
        if end >= text.len() {
            seq![text.subrange(from, text.len() as int)]
        } else {
            proof {
                lemma_line_end_bounds(text, from);
            }
            seq![without_cr(text.subrange(from, end))] + lines_from(text, end + 1)
        }
    }
}

/// The lines of `text`. A line ends with a line feed, or with a carriage
/// return and a line feed, neither of which belongs to the line. What
/// follows the last line feed is a line too, unless it is empty; a carriage
/// return at its end belongs to it.
pub open spec fn lines_of(text: Seq<char>) -> Seq<Seq<char>> {
    lines_from(text, 0)
}

/// The end of a line is not before its start and not beyond the text.
pub proof fn lemma_line_end_bounds(text: Seq<char>, from: int)
    requires
        0 <= from <= text.len(),
    ensures
        from <= line_end(text, from) <= text.len(),
        forall|i: int| from <= i < line_end(text, from) ==> text[i] != '\n',
        line_end(text, from) < text.len() ==> text[line_end(text, from)] == '\n',
    decreases text.len() - from,
{
    if from < text.len() && text[from] != '\n' {
        lemma_line_end_bounds(text, from + 1);
    }
}

/// The texts that `strings` hold, in order.
pub open spec fn texts_of(strings: Seq<String>) -> Seq<Seq<char>> {
    strings.map_values(|string: String| string@)
}

/// The texts that `lists` of characters hold, in order.
pub open spec fn texts_of_chars(lists: Seq<Vec<char>>) -> Seq<Seq<char>> {
    lists.map_values(|list: Vec<char>| list@)
}

/// Tests whether a character is whitespace as Unicode defines it.
pub fn char_is_whitespace(c: char) -> (white: bool)
    ensures
        white == is_whitespace(c),
{
    let code: u32 = c as u32;
    (0x09 <= code && code <= 0x0D) || code == 0x20 || code == 0x85 || code == 0xA0 || code
        == 0x1680 || (0x2000 <= code && code <= 0x200A) || code == 0x2028 || code == 0x2029
        || code == 0x202F || code == 0x205F || code == 0x3000
}

/// Turns an ASCII capital letter into lower case.
pub fn char_fold(c: char) -> (folded: char)
    ensures
        folded == fold_char(c),
{
    if 'A' <= c && c <= 'Z' {
        let code: u8 = c as u8;
        (code + 0x20) as char
    } else {
        c
    }
}

/// The characters of a string.
pub fn to_chars(text: &str) -> (chars: Vec<char>)
    ensures
        chars@ == text@,
{
    broadcast use vstd::string::group_string_axioms;

    let mut chars: Vec<char> = Vec::new();
    let mut rest = text.chars();
    loop
        invariant
            chars@ + rest.remaining() == text@,
            rest.decrease() is Some,
        ensures
            chars@ == text@,
        decreases rest.decrease()->0,
    {
        match rest.next() {
            Some(c) => {
                chars.push(c);
            },
            None => {
                break ;
            },
        }
    }
    chars
}

/// The searchable form of `text`: its characters without whitespace, ASCII
/// letters in lower case.
pub fn normalize(text: &str) -> (chars: Vec<char>)
    ensures
        chars@ == normalized(text@),
{
    let source = to_chars(text);
    let mut chars: Vec<char> = Vec::new();
    let mut i: usize = 0;
    while i < source.len()
        invariant
            i <= source.len(),
            chars@ == normalized(source@.take(i as int)),
        decreases source.len() - i,
    {
        let c = source[i];
        proof {
            source@.lemma_take_succ_push(i as int);
            lemma_normalized_push(source@.take(i as int), c);
        }
        if !char_is_whitespace(c) {
            chars.push(char_fold(c));
        }
        i += 1;
    }
    proof {
        source@.lemma_take_len();
    }
    chars
}

/// `source` with every ASCII capital letter in lower case.
pub fn fold_chars(source: &Vec<char>) -> (chars: Vec<char>)
    ensures
        chars@ == fold(source@),
{
    let mut chars: Vec<char> = Vec::new();
    let mut i: usize = 0;
    while i < source.len()
        invariant
            i <= source.len(),
            chars@ == fold(source@.take(i as int)),
        decreases source.len() - i,
    {
        proof {
            source@.lemma_take_succ_push(i as int);
            lemma_normalized_push(source@.take(i as int), source@[i as int]);
        }
        chars.push(char_fold(source[i]));
        i += 1;
    }
    proof {
        source@.lemma_take_len();
    }
    chars
}

/// `text` with every ASCII capital letter in lower case.
pub fn fold_text(text: &str) -> (chars: Vec<char>)
    ensures
        chars@ == fold(text@),
{
    let source = to_chars(text);
    fold_chars(&source)
}

/// Tests whether two lists hold the same characters.
pub fn same_chars(left: &Vec<char>, right: &Vec<char>) -> (same: bool)
    ensures
        same == (left@ == right@),
{
    if left.len() != right.len() {
        return false;
    }
    let mut i: usize = 0;
    while i < left.len()
        invariant
            i <= left.len(),
            left.len() == right.len(),
            forall|j: int| 0 <= j < i ==> left@[j] == right@[j],
        decreases left.len() - i,
    {
        if left[i] != right[i] {
            return false;
        }
        i += 1;
    }
    assert(left@ =~= right@);
    true
}

/// The characters of `source` from position `from` up to, not including,
/// position `to`.
fn copy_range(source: &Vec<char>, from: usize, to: usize) -> (chars: Vec<char>)
    requires
        from <= to <= source.len(),
    ensures
        chars@ == source@.subrange(from as int, to as int),
{
    let mut chars: Vec<char> = Vec::new();
    let mut i: usize = from;
    while i < to
        invariant
            from <= i <= to <= source.len(),
            chars@ == source@.subrange(from as int, i as int),
        decreases to - i,
    {
        chars.push(source[i]);
        assert(source@.subrange(from as int, i as int).push(source@[i as int])
            =~= source@.subrange(from as int, i + 1));
        i += 1;
    }
    chars
}

/// The characters of `text` without the whitespace around it.
pub fn trim(text: &str) -> (chars: Vec<char>)
    ensures
        chars@ == trimmed(text@),
{
    let source = to_chars(text);
    let mut start: usize = 0;
    assert(source@.skip(0) =~= source@);
    while start < source.len() && char_is_whitespace(source[start])
        invariant
            start <= source.len(),
            trim_start(source@) == trim_start(source@.skip(start as int)),
        decreases source.len() - start,
    {
        assert(source@.skip(start as int).drop_first() =~= source@.skip(start + 1));
        start += 1;
    }
    assert(trim_start(source@) == source@.skip(start as int));
    let mut end: usize = source.len();
    assert(source@.skip(start as int) =~= source@.subrange(start as int, end as int));
    while end > start && char_is_whitespace(source[end - 1])
        invariant
            start <= end <= source.len(),
            trimmed(source@) == trim_end(source@.subrange(start as int, end as int)),
        decreases end - start,
    {
        assert(source@.subrange(start as int, end as int).drop_last() =~= source@.subrange(
            start as int,
            end - 1,
        ));
        end -= 1;
    }
    assert(trimmed(source@) == source@.subrange(start as int, end as int));
    copy_range(&source, start, end)
}

/// The lines of `text`, as lists of characters.
pub fn split_lines(text: &str) -> (lines: Vec<Vec<char>>)
    ensures
        texts_of_chars(lines@) == lines_of(text@),
{
    let source = to_chars(text);
    let mut lines: Vec<Vec<char>> = Vec::new();
    let mut start: usize = 0;
    assert(texts_of_chars(lines@) + lines_from(source@, 0) =~= lines_of(source@));
    while start < source.len()
        invariant
            start <= source.len(),
            texts_of_chars(lines@) + lines_from(source@, start as int) == lines_of(source@),
        decreases source.len() - start,
    {
        let mut end: usize = start;
        while end < source.len() && source[end] != '\n'
            invariant
                start <= end <= source.len(),
                line_end(source@, start as int) == line_end(source@, end as int),
            decreases source.len() - end,
        {
            end += 1;
        }
        let terminated = end < source.len();
        let stop: usize = if terminated && end > start && source[end - 1] == '\r' {
            (end - 1) as usize
        } else {
            end
        };
        let line = copy_range(&source, start, stop);
        let next: usize = if terminated {
            (end + 1) as usize
        } else {
            end
        };
        proof {
            let whole = source@.subrange(start as int, end as int);
            if terminated {
                assert(whole.len() > 0 ==> whole.last() == source@[end - 1]);
                assert(whole.len() > 0 ==> whole.drop_last() =~= source@.subrange(
                    start as int,
                    end - 1,
                ));
                assert(line@ == without_cr(whole));
            }
            assert(lines_from(source@, start as int) =~= seq![line@] + lines_from(
                source@,
                next as int,
            ));
            assert(texts_of_chars(lines@.push(line)) =~= texts_of_chars(lines@).push(line@));
            assert(texts_of_chars(lines@).push(line@) + lines_from(source@, next as int)
                =~= texts_of_chars(lines@) + (seq![line@] + lines_from(source@, next as int)));
        }
        lines.push(line);
        start = next;
    }
    assert(texts_of_chars(lines@) + lines_from(source@, start as int) =~= texts_of_chars(lines@));
    lines
}

/// Stripping and folding a text that ends with `c`: `c` is dropped if it
/// is whitespace, and folded behind the rest if not.
pub proof fn lemma_normalized_push(text: Seq<char>, c: char)
    ensures
        strip_whitespace(text.push(c)) == if is_whitespace(c) {
            strip_whitespace(text)
        } else {
            strip_whitespace(text).push(c)
        },
        fold(text.push(c)) == fold(text).push(fold_char(c)),
        normalized(text.push(c)) == if is_whitespace(c) {
            normalized(text)
        } else {
            normalized(text).push(fold_char(c))
        },
        is_whitespace(fold_char(c)) == is_whitespace(c),
        fold_char(fold_char(c)) == fold_char(c),
{
    text.lemma_filter_push(c, |c: char| !is_whitespace(c));
    assert(fold(text.push(c)) =~= fold(text).push(fold_char(c)));
    assert(fold(strip_whitespace(text).push(c)) =~= fold(strip_whitespace(text)).push(
        fold_char(c),
    ));
}

/// The searchable form of a text is its own searchable form, and no
/// whitespace and no ASCII capital letter is left in it; it does not
/// matter whether the text is stripped or folded first, or beforehand.
pub proof fn lemma_normalized_is_normal(text: Seq<char>)
    ensures
        strip_whitespace(strip_whitespace(text)) == strip_whitespace(text),
        fold(fold(text)) == fold(text),
        strip_whitespace(fold(text)) == fold(strip_whitespace(text)),
        normalized(strip_whitespace(text)) == normalized(text),
        normalized(fold(text)) == normalized(text),
        normalized(normalized(text)) == normalized(text),
    decreases text.len(),
{
    if text.len() == 0 {
        assert(strip_whitespace(text) =~= text);
        assert(fold(text) =~= text);
    } else {
        let rest = text.drop_last();
        let c = text.last();
        assert(text =~= rest.push(c));
        lemma_normalized_is_normal(rest);
        lemma_normalized_push(rest, c);
        lemma_normalized_push(strip_whitespace(rest), c);
        lemma_normalized_push(fold(rest), fold_char(c));
        lemma_normalized_push(fold(strip_whitespace(rest)), fold_char(c));
        lemma_normalized_push(normalized(rest), fold_char(c));
    }
}

/// The searchable form of two texts, one behind the other, is the
/// searchable form of the first followed by that of the second.
pub proof fn lemma_normalized_joins(left: Seq<char>, right: Seq<char>)
    ensures
        normalized(left + right) == normalized(left) + normalized(right),
    decreases right.len(),
{
    if right.len() == 0 {
        assert(left + right =~= left);
        assert(normalized(right) =~= Seq::<char>::empty());
        assert(normalized(left) + normalized(right) =~= normalized(left));
    } else {
        let rest = right.drop_last();
        let c = right.last();
        assert(right =~= rest.push(c));
        assert(left + right =~= (left + rest).push(c));
        lemma_normalized_joins(left, rest);
        lemma_normalized_push(left + rest, c);
        lemma_normalized_push(rest, c);
        assert(normalized(left) + normalized(rest).push(fold_char(c)) =~= (normalized(left)
            + normalized(rest)).push(fold_char(c)));
    }
}

/// What is left after trimming at the start does not begin with whitespace.
pub proof fn lemma_trim_start_done(text: Seq<char>)
    ensures
        trim_start(text).len() <= text.len(),
        trim_start(text).len() > 0 ==> !is_whitespace(trim_start(text).first()),
        trim_start(trim_start(text)) == trim_start(text),
    decreases text.len(),
{
    if text.len() > 0 && is_whitespace(text.first()) {
        lemma_trim_start_done(text.drop_first());
    }
}

/// What is left after trimming at the end does not end with whitespace, and
/// begins as the text did unless nothing is left.
pub proof fn lemma_trim_end_done(text: Seq<char>)
    ensures
        trim_end(text).len() <= text.len(),
        trim_end(text).len() > 0 ==> !is_whitespace(trim_end(text).last()),
        trim_end(text).len() > 0 ==> trim_end(text).first() == text.first(),
        trim_end(trim_end(text)) == trim_end(text),
    decreases text.len(),
{
    if text.len() > 0 && is_whitespace(text.last()) {
        lemma_trim_end_done(text.drop_last());
    }
}

/// To trim a trimmed text changes nothing.
pub proof fn lemma_trimmed_idempotent(text: Seq<char>)
    ensures
        trimmed(trimmed(text)) == trimmed(text),
{
    lemma_trim_start_done(text);
    lemma_trim_end_done(trim_start(text));
    let once = trimmed(text);
    if once.len() > 0 {
        assert(!is_whitespace(once.first()));
        assert(trim_start(once) == once);
    } else {
        assert(trim_start(once) == once);
    }
}

} // verus!
