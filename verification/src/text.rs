//! Text as a sequence of characters: searching, splitting, trimming.

use vstd::prelude::*;
use vstd::slice::{slice_subrange, slice_to_vec};
#[allow(unused_imports)]
use vstd::utf8::{decode_utf8, encode_utf8, valid_utf8};

verus! {

/// `String::push` appends one character.
pub assume_specification[ String::push ](s: &mut String, c: char)
    ensures
        final(s)@ == old(s)@.push(c),
;

/// What stands for bytes that are not UTF-8: `String::from_utf8_lossy` of the standard
/// library puts a replacement character for each part that cannot be read.
pub uninterp spec fn repaired_utf8(bytes: Seq<u8>) -> Seq<char>;

/// The text of bytes: as they encode it in UTF-8, else repaired.
pub open spec fn lossy_text(bytes: Seq<u8>) -> Seq<char> {
    if valid_utf8(bytes) {
        decode_utf8(bytes)
    } else {
        repaired_utf8(bytes)
    }
}

/// The most bytes that a text takes which stands for pieces of bytes: a piece that is
/// UTF-8 takes its own, and of any other each byte takes at most the three of a
/// replacement character.
pub open spec fn longest_text(pieces: Seq<Seq<u8>>) -> nat
    decreases pieces.len(),
{
    if pieces.len() == 0 {
        0
    } else {
        (if valid_utf8(pieces[0]) {
            pieces[0].len()
        } else {
            3 * pieces[0].len()
        }) + longest_text(pieces.drop_first())
    }
}

/// A text in lower case: `str::to_lowercase` of the standard library, which follows
/// Unicode.
pub uninterp spec fn lowercase(s: Seq<char>) -> Seq<char>;

/// `String::from_utf8_lossy` of the standard library: bytes in UTF-8 give the text that
/// they encode, other bytes the text that stands for them. Only what is not UTF-8 is
/// replaced, by a character that takes three bytes: a part in front that is UTF-8 is kept
/// as it is, and what follows it gives what it gives alone; and however the bytes are cut
/// into pieces, the text takes no more bytes than the pieces that are UTF-8 have, and three
/// for each byte of the others.
#[verifier::external_body]
pub(crate) fn text_of_bytes(bytes: &[u8]) -> (text: String)
    ensures
        text@ == if valid_utf8(bytes@) {
            decode_utf8(bytes@)
        } else {
            repaired_utf8(bytes@)
        },
        forall|front: Seq<u8>, rest: Seq<u8>|
            bytes@ == #[trigger] (front + rest) && valid_utf8(front) ==> text@ == decode_utf8(front)
                + if valid_utf8(rest) {
                decode_utf8(rest)
            } else {
                repaired_utf8(rest)
            },
        forall|pieces: Seq<Seq<u8>>|
            bytes@ == #[trigger] pieces.flatten() ==> encode_utf8(text@).len() <= longest_text(
                pieces,
            ),
{
    String::from_utf8_lossy(bytes).into_owned()
}

/// `String::from_utf8` of the standard library: the text that bytes encode in UTF-8, and
/// nothing where they are not UTF-8.
#[verifier::external_body]
pub(crate) fn strict_text(bytes: Vec<u8>) -> (text: Option<String>)
    ensures
        text is Some <==> valid_utf8(bytes@),
        text matches Some(t) ==> t@ == decode_utf8(bytes@),
{
    String::from_utf8(bytes).ok()
}

/// `str::to_lowercase` of the standard library: the text in lower case.
#[verifier::external_body]
pub(crate) fn lower(s: &str) -> (r: String)
    ensures
        r@ == lowercase(s@),
{
    s.to_lowercase()
}

/// The characters of a string, in order.
pub fn chars_of(s: &str) -> (chars: Vec<char>)
    ensures
        chars@ == s@,
{
    let mut chars: Vec<char> = Vec::new();
    for c in it: s.chars()
        invariant
            it.seq() == s@,
            chars@ == s@.take(it.index() as int),
    {
        chars.push(c);
    }
    chars
}

/// The string that the characters spell.
pub fn string_of(chars: &[char]) -> (s: String)
    ensures
        s@ == chars@,
{
    let mut s = String::new();
    let mut i: usize = 0;
    while i < chars.len()
        invariant
            i <= chars.len(),
            s@ == chars@.take(i as int),
        decreases chars.len() - i,
    {
        s.push(chars[i]);
        i += 1;
    }
    s
}

/// The views of a list of character lists.
pub open spec fn views(lists: Seq<Vec<char>>) -> Seq<Seq<char>> {
    lists.map_values(|list: Vec<char>| list@)
}

/// Whether `s` begins with `prefix`.
pub open spec fn begins(s: Seq<char>, prefix: Seq<char>) -> bool {
    prefix.len() <= s.len() && s.take(prefix.len() as int) == prefix
}

/// Whether `part` occurs somewhere in `s` as a run of neighbouring characters.
pub open spec fn occurs(s: Seq<char>, part: Seq<char>) -> bool {
    exists|i: int| #[trigger] occurs_at(s, part, i)
}

/// Whether `part` stands in `s` from position `i` on.
pub open spec fn occurs_at(s: Seq<char>, part: Seq<char>, i: int) -> bool {
    0 <= i && i + part.len() <= s.len() && s.subrange(i, i + part.len()) == part
}

/// The position of the first `c` in `s`, or the length of `s` where there is none.
pub open spec fn first_of(s: Seq<char>, c: char) -> nat
    decreases s.len(),
{
    if s.len() == 0 || s[0] == c {
        0
    } else {
        1 + first_of(s.skip(1), c)
    }
}

/// The parts of `s` between the occurrences of `separator`; one more part than
/// there are separators.
pub open spec fn split(s: Seq<char>, separator: char) -> Seq<Seq<char>>
    decreases s.len(),
{
    let i = first_of(s, separator) as int;
    if i < s.len() {
        seq![s.take(i)] + split(s.skip(i + 1), separator)
    } else {
        seq![s]
    }
}

/// A line without the carriage return that its line feed followed.
pub open spec fn without_return(line: Seq<char>) -> Seq<char> {
    if line.len() > 0 && line.last() == '\r' {
        line.drop_last()
    } else {
        line
    }
}

/// The lines of a text. A line ends with a line feed, or with a carriage return and
/// a line feed; neither belongs to it. The last line may lack the ending.
pub open spec fn lines_of(s: Seq<char>) -> Seq<Seq<char>>
    decreases s.len(),
{
    let i = first_of(s, '\n') as int;
    if s.len() == 0 {
        seq![]
    } else if i < s.len() {
        seq![without_return(s.take(i))] + lines_of(s.skip(i + 1))
    } else {
        seq![s]
    }
}

/// Whether a character has the Unicode property White_Space.
pub open spec fn is_space(c: char) -> bool {
    ||| '\u{9}' <= c <= '\u{d}'
    ||| c == ' '
    ||| c == '\u{85}'
    ||| c == '\u{a0}'
    ||| c == '\u{1680}'
    ||| '\u{2000}' <= c <= '\u{200a}'
    ||| c == '\u{2028}'
    ||| c == '\u{2029}'
    ||| c == '\u{202f}'
    ||| c == '\u{205f}'
    ||| c == '\u{3000}'
}

/// How many characters at the front of `s` are not white space.
pub open spec fn word_len(s: Seq<char>) -> nat
    decreases s.len(),
{
    if s.len() == 0 || is_space(s[0]) {
        0
    } else {
        1 + word_len(s.skip(1))
    }
}

/// The words of a text: its longest runs without white space.
pub open spec fn words_of(s: Seq<char>) -> Seq<Seq<char>>
    decreases s.len(),
{
    if s.len() == 0 {
        seq![]
    } else if is_space(s[0]) {
        words_of(s.skip(1))
    } else {
        proof {
            lemma_word_len(s);
        }
        seq![s.take(word_len(s) as int)] + words_of(s.skip(word_len(s) as int))
    }
}

/// `s` without the white space in front.
pub open spec fn trimmed_front(s: Seq<char>) -> Seq<char>
    decreases s.len(),
{
    if s.len() > 0 && is_space(s[0]) {
        trimmed_front(s.skip(1))
    } else {
        s
    }
}

/// `s` without the white space behind.
pub open spec fn trimmed_back(s: Seq<char>) -> Seq<char>
    decreases s.len(),
{
    if s.len() > 0 && is_space(s.last()) {
        trimmed_back(s.drop_last())
    } else {
        s
    }
}

/// `s` without the white space at either end.
pub open spec fn trimmed(s: Seq<char>) -> Seq<char> {
    trimmed_back(trimmed_front(s))
}

/// What `first_of` promises: nothing before it is `c`, and it is `c` unless it is
/// the end.
pub proof fn lemma_first_of(s: Seq<char>, c: char)
    ensures
        first_of(s, c) <= s.len(),
        first_of(s, c) < s.len() ==> s[first_of(s, c) as int] == c,
        forall|j: int| 0 <= j < first_of(s, c) ==> s[j] != c,
    decreases s.len(),
{
    if s.len() != 0 && s[0] != c {
        lemma_first_of(s.skip(1), c);
        assert forall|j: int| 0 <= j < first_of(s, c) implies s[j] != c by {
            if j > 0 {
                assert(s.skip(1)[j - 1] == s[j]);
            }
        }
    }
}

/// The only position with the properties of `first_of` is `first_of`.
proof fn lemma_first_of_unique(s: Seq<char>, c: char, i: int)
    requires
        0 <= i <= s.len(),
        i < s.len() ==> s[i] == c,
        forall|j: int| 0 <= j < i ==> s[j] != c,
    ensures
        first_of(s, c) == i,
{
    lemma_first_of(s, c);
}

/// What `word_len` promises: it stops at the first white space or at the end.
pub proof fn lemma_word_len(s: Seq<char>)
    ensures
        word_len(s) <= s.len(),
        word_len(s) < s.len() ==> is_space(s[word_len(s) as int]),
        forall|j: int| 0 <= j < word_len(s) ==> !is_space(s[j]),
    decreases s.len(),
{
    if s.len() != 0 && !is_space(s[0]) {
        lemma_word_len(s.skip(1));
        assert forall|j: int| 0 <= j < word_len(s) implies !is_space(s[j]) by {
            if j > 0 {
                assert(s.skip(1)[j - 1] == s[j]);
            }
        }
    }
}

/// The characters from position `from` up to position `to`.
pub fn cut(chars: &[char], from: usize, to: usize) -> (part: Vec<char>)
    requires
        from <= to <= chars@.len(),
    ensures
        part@ == chars@.subrange(from as int, to as int),
{
    slice_to_vec(slice_subrange(chars, from, to))
}

/// Whether two character lists are the same.
pub fn same(a: &[char], b: &[char]) -> (r: bool)
    ensures
        r == (a@ == b@),
{
    if a.len() != b.len() {
        return false;
    }
    let mut i: usize = 0;
    while i < a.len()
        invariant
            i <= a.len(),
            a.len() == b.len(),
            a@.take(i as int) == b@.take(i as int),
        decreases a.len() - i,
    {
        if a[i] != b[i] {
            assert(a@ != b@);
            return false;
        }
        assert(a@.take(i + 1) == a@.take(i as int).push(a@[i as int]));
        assert(b@.take(i + 1) == b@.take(i as int).push(b@[i as int]));
        i += 1;
    }
    assert(a@.take(i as int) == a@);
    assert(b@.take(i as int) == b@);
    true
}

/// Whether a character list spells the given text.
pub fn spells(chars: &[char], text: &str) -> (r: bool)
    ensures
        r == (chars@ == text@),
{
    let other = chars_of(text);
    same(chars, &other)
}

/// Whether a character list begins with the given text.
pub fn begins_with(chars: &[char], text: &str) -> (r: bool)
    ensures
        r == begins(chars@, text@),
{
    let prefix = chars_of(text);
    if prefix.len() > chars.len() {
        return false;
    }
    assert(chars@.take(prefix@.len() as int) == chars@.subrange(0, prefix@.len() as int));
    same(slice_subrange(chars, 0, prefix.len()), &prefix)
}

/// Whether the given text occurs in a character list.
pub fn contains(chars: &[char], text: &str) -> (r: bool)
    ensures
        r == occurs(chars@, text@),
{
    let part = chars_of(text);
    if part.len() > chars.len() {
        return false;
    }
    let last: usize = chars.len() - part.len();
    let mut i: usize = 0;
    loop
        invariant
            i <= last,
            last + part.len() == chars.len(),
            part@ == text@,
            forall|j: int| 0 <= j < i ==> !occurs_at(chars@, text@, j),
        decreases last - i,
    {
        if same(slice_subrange(chars, i, i + part.len()), &part) {
            assert(occurs_at(chars@, text@, i as int));
            return true;
        }
        if i == last {
            return false;
        }
        i += 1;
    }
}

/// The position of the first `c`, or the length where there is none.
pub fn find_char(chars: &[char], c: char) -> (i: usize)
    ensures
        i == first_of(chars@, c),
{
    let mut i: usize = 0;
    while i < chars.len()
        invariant
            i <= chars.len(),
            forall|j: int| 0 <= j < i ==> chars@[j] != c,
        decreases chars.len() - i,
    {
        if chars[i] == c {
            proof {
                lemma_first_of_unique(chars@, c, i as int);
            }
            return i;
        }
        i += 1;
    }
    proof {
        lemma_first_of_unique(chars@, c, i as int);
    }
    i
}

/// The parts of a character list between the occurrences of a separator.
pub fn split_on(chars: &[char], separator: char) -> (parts: Vec<Vec<char>>)
    ensures
        views(parts@) == split(chars@, separator),
{
    let mut parts: Vec<Vec<char>> = Vec::new();
    let mut start: usize = 0;
    proof {
        assert(chars@.skip(0) == chars@);
    }
    loop
        invariant
            start <= chars@.len(),
            views(parts@) + split(chars@.skip(start as int), separator) == split(chars@, separator),
        decreases chars@.len() - start,
    {
        let rest = slice_subrange(chars, start, chars.len());
        assert(rest@ == chars@.skip(start as int));
        let i = find_char(rest, separator);
        proof {
            lemma_first_of(rest@, separator);
        }
        let ghost before = views(parts@);
        if i < rest.len() {
            parts.push(cut(rest, 0, i));
            proof {
                assert(rest@.take(i as int) == rest@.subrange(0, i as int));
                assert(rest@.skip(i + 1) == chars@.skip(start + i + 1));
                assert(views(parts@) == before.push(rest@.take(i as int)));
                assert(views(parts@) + split(chars@.skip(start + i + 1), separator) == before + (
                seq![rest@.take(i as int)] + split(rest@.skip(i + 1), separator)));
            }
            start = start + i + 1;
        } else {
            parts.push(slice_to_vec(rest));
            proof {
                assert(views(parts@) == before.push(rest@));
                assert(views(parts@) == before + seq![rest@]);
            }
            return parts;
        }
    }
}

/// The lines of a text.
pub fn lines(chars: &[char]) -> (found: Vec<Vec<char>>)
    ensures
        views(found@) == lines_of(chars@),
{
    let mut found: Vec<Vec<char>> = Vec::new();
    let mut start: usize = 0;
    proof {
        assert(chars@.skip(0) == chars@);
    }
    while start < chars.len()
        invariant
            start <= chars@.len(),
            views(found@) + lines_of(chars@.skip(start as int)) == lines_of(chars@),
        decreases chars@.len() - start,
    {
        let rest = slice_subrange(chars, start, chars.len());
        assert(rest@ == chars@.skip(start as int));
        let i = find_char(rest, '\n');
        proof {
            lemma_first_of(rest@, '\n');
        }
        let ghost before = views(found@);
        if i < rest.len() {
            let end: usize = if i > 0 && rest[i - 1] == '\r' {
                i - 1
            } else {
                i
            };
            found.push(cut(rest, 0, end));
            proof {
                assert(rest@.subrange(0, end as int) == without_return(rest@.take(i as int)));
                assert(rest@.skip(i + 1) == chars@.skip(start + i + 1));
                assert(views(found@) == before.push(without_return(rest@.take(i as int))));
                assert(views(found@) + lines_of(chars@.skip(start + i + 1)) == before + (
                seq![without_return(rest@.take(i as int))] + lines_of(rest@.skip(i + 1))));
            }
            start = start + i + 1;
        } else {
            found.push(slice_to_vec(rest));
            proof {
                assert(views(found@) == before.push(rest@));
                assert(views(found@) == before + seq![rest@]);
            }
            return found;
        }
    }
    assert(views(found@) + lines_of(chars@.skip(start as int)) == views(found@));
    found
}

/// Whether a character is white space.
pub fn is_white(c: char) -> (r: bool)
    ensures
        r == is_space(c),
{
    ('\u{9}' <= c && c <= '\u{d}') || c == ' ' || c == '\u{85}' || c == '\u{a0}' || c == '\u{1680}'
        || ('\u{2000}' <= c && c <= '\u{200a}') || c == '\u{2028}' || c == '\u{2029}' || c
        == '\u{202f}' || c == '\u{205f}' || c == '\u{3000}'
}

/// The words of a text.
pub fn words(chars: &[char]) -> (found: Vec<Vec<char>>)
    ensures
        views(found@) == words_of(chars@),
{
    let mut found: Vec<Vec<char>> = Vec::new();
    let mut start: usize = 0;
    proof {
        assert(chars@.skip(0) == chars@);
    }
    while start < chars.len()
        invariant
            start <= chars@.len(),
            views(found@) + words_of(chars@.skip(start as int)) == words_of(chars@),
        decreases chars@.len() - start,
    {
        let ghost rest = chars@.skip(start as int);
        let ghost before = views(found@);
        if is_white(chars[start]) {
            assert(rest.skip(1) == chars@.skip(start + 1));
            start += 1;
        } else {
            let mut end: usize = start;
            while end < chars.len() && !is_white(chars[end])
                invariant
                    start <= end <= chars@.len(),
                    rest == chars@.skip(start as int),
                    forall|j: int| start <= j < end ==> !is_space(chars@[j]),
                decreases chars@.len() - end,
            {
                end += 1;
            }
            proof {
                lemma_word_len(rest);
                let n = word_len(rest) as int;
                if n < end - start {
                    assert(is_space(rest[n]));
                    assert(rest[n] == chars@[start + n]);
                }
                if n > end - start {
                    assert(!is_space(rest[end - start]));
                    assert(rest[end - start] == chars@[end as int]);
                }
                assert(n == end - start);
                assert(rest[0] == chars@[start as int]);
                assert(rest.skip(n) == chars@.skip(end as int));
                assert(rest.take(n) == chars@.subrange(start as int, end as int));
            }
            found.push(cut(chars, start, end));
            proof {
                let n = word_len(rest) as int;
                assert(views(found@) == before.push(rest.take(n)));
                assert(views(found@) + words_of(chars@.skip(end as int)) == before + (
                seq![rest.take(n)] + words_of(rest.skip(n))));
            }
            start = end;
        }
    }
    assert(views(found@) + words_of(chars@.skip(start as int)) == views(found@));
    found
}

/// A character list without the white space at either end.
pub fn trim(chars: &[char]) -> (kept: Vec<char>)
    ensures
        kept@ == trimmed(chars@),
{
    let mut from: usize = 0;
    assert(chars@.skip(0) == chars@);
    while from < chars.len() && is_white(chars[from])
        invariant
            from <= chars@.len(),
            trimmed_front(chars@.skip(from as int)) == trimmed_front(chars@),
        decreases chars@.len() - from,
    {
        assert(chars@.skip(from as int).skip(1) == chars@.skip(from + 1));
        from += 1;
    }
    let mut to: usize = chars.len();
    assert(chars@.subrange(from as int, to as int) == chars@.skip(from as int));
    while to > from && is_white(chars[to - 1])
        invariant
            from <= to <= chars@.len(),
            trimmed_back(chars@.subrange(from as int, to as int)) == trimmed(chars@),
        decreases to,
    {
        assert(chars@.subrange(from as int, to as int).drop_last() == chars@.subrange(
            from as int,
            to - 1,
        ));
        to -= 1;
    }
    cut(chars, from, to)
}

/// A text before a separator, and the text behind it, are split each for itself.
pub proof fn law_split_at_separator(a: Seq<char>, separator: char, b: Seq<char>)
    ensures
        split(a + seq![separator] + b, separator) == split(a, separator) + split(b, separator),
    decreases a.len(),
{
    let s = a + seq![separator] + b;
    let i = first_of(a, separator) as int;
    lemma_first_of(a, separator);
    assert forall|j: int| 0 <= j < i implies s[j] != separator by {
        assert(s[j] == a[j]);
    }
    if i < a.len() {
        assert(s[i] == a[i]);
        lemma_first_of_unique(s, separator, i);
        law_split_at_separator(a.skip(i + 1), separator, b);
        assert(s.skip(i + 1) == a.skip(i + 1) + seq![separator] + b);
        assert(s.take(i) == a.take(i));
        assert(seq![a.take(i)] + (split(a.skip(i + 1), separator) + split(b, separator)) == split(
            a,
            separator,
        ) + split(b, separator));
    } else {
        assert(s[i] == separator);
        lemma_first_of_unique(s, separator, i);
        assert(s.skip(i + 1) == b);
        assert(s.take(i) == a);
    }
}

/// A text without the separator is one part.
pub proof fn law_split_whole(s: Seq<char>, separator: char)
    requires
        !s.contains(separator),
    ensures
        split(s, separator) == seq![s],
{
    assert forall|j: int| 0 <= j < s.len() implies s[j] != separator by {
        assert(s.contains(s[j]));
    }
    lemma_first_of_unique(s, separator, s.len() as int);
}

/// A line in front, and the text behind its ending, are taken apart each for itself,
/// whether the line ends with a line feed alone or with a carriage return before it.
pub proof fn law_first_line(line: Seq<char>, rest: Seq<char>)
    requires
        !line.contains('\n'),
    ensures
        lines_of(line + seq!['\r', '\n'] + rest) == seq![line] + lines_of(rest),
        !(line.len() > 0 && line.last() == '\r') ==> lines_of(line + seq!['\n'] + rest)
            == seq![line] + lines_of(rest),
        line.len() > 0 ==> lines_of(line) == seq![line],
        lines_of(Seq::empty()) == Seq::<Seq<char>>::empty(),
{
    let n = line.len() as int;
    assert forall|j: int| 0 <= j < n implies line[j] != '\n' by {
        assert(line.contains(line[j]));
    }
    let s = line + seq!['\r', '\n'] + rest;
    assert forall|j: int| 0 <= j < n + 1 implies s[j] != '\n' by {
        if j < n {
            assert(s[j] == line[j]);
        }
    }
    lemma_first_of_unique(s, '\n', n + 1);
    assert(s.skip(n + 2) == rest);
    assert(s.take(n + 1).last() == '\r');
    assert(s.take(n + 1).drop_last() == line);
    let t = line + seq!['\n'] + rest;
    assert forall|j: int| 0 <= j < n implies t[j] != '\n' by {
        assert(t[j] == line[j]);
    }
    lemma_first_of_unique(t, '\n', n);
    assert(t.skip(n + 1) == rest);
    assert(t.take(n) == line);
    lemma_first_of_unique(line, '\n', n);
}

/// What is trimmed away is white space, and none is left at either end.
pub proof fn law_trimmed(s: Seq<char>)
    ensures
        ({
            let kept = trimmed(s);
            &&& exists|i: int|
                {
                    &&& 0 <= i && i + kept.len() <= s.len()
                    &&& kept == #[trigger] s.subrange(i, i + kept.len())
                    &&& forall|j: int| 0 <= j < i ==> is_space(s[j])
                    &&& forall|j: int| i + kept.len() <= j < s.len() ==> is_space(s[j])
                }
            &&& kept.len() > 0 ==> !is_space(kept[0]) && !is_space(kept.last())
        }),
{
    let front = lemma_trimmed_front(s);
    let kept = trimmed(s);
    lemma_trimmed_back(trimmed_front(s));
    let rest = trimmed_front(s);
    assert(kept == s.subrange(front, front + kept.len()));
    assert forall|j: int| front + kept.len() <= j < s.len() implies is_space(s[j]) by {
        assert(rest[j - front] == s[j]);
    }
}

proof fn lemma_trimmed_front(s: Seq<char>) -> (i: int)
    ensures
        0 <= i <= s.len(),
        trimmed_front(s) == s.skip(i),
        forall|j: int| 0 <= j < i ==> is_space(s[j]),
        i < s.len() ==> !is_space(s[i]),
    decreases s.len(),
{
    if s.len() > 0 && is_space(s[0]) {
        let rest = s.skip(1);
        let k = lemma_trimmed_front(rest);
        assert(rest.skip(k) == s.skip(k + 1));
        assert forall|j: int| 0 <= j < k + 1 implies is_space(s[j]) by {
            if j > 0 {
                assert(rest[j - 1] == s[j]);
            }
        }
        if k < rest.len() {
            assert(rest[k] == s[k + 1]);
        }
        k + 1
    } else {
        assert(s.skip(0) == s);
        0
    }
}

proof fn lemma_trimmed_back(s: Seq<char>)
    ensures
        trimmed_back(s).len() <= s.len(),
        trimmed_back(s) == s.take(trimmed_back(s).len() as int),
        forall|j: int| trimmed_back(s).len() <= j < s.len() ==> is_space(s[j]),
        trimmed_back(s).len() > 0 ==> !is_space(trimmed_back(s).last()),
    decreases s.len(),
{
    if s.len() > 0 && is_space(s.last()) {
        let init = s.drop_last();
        lemma_trimmed_back(init);
        let n = trimmed_back(s).len() as int;
        assert(init.take(n) == s.take(n));
        assert forall|j: int| n <= j < s.len() implies is_space(s[j]) by {
            if j < s.len() - 1 {
                assert(init[j] == s[j]);
            }
        }
    } else {
        assert(s.take(s.len() as int) == s);
    }
}

/// A text begins with another just where it is that other with something behind it.
pub proof fn law_begins(prefix: Seq<char>, rest: Seq<char>, s: Seq<char>)
    ensures
        begins(prefix + rest, prefix),
        begins(s, prefix) ==> s == prefix + s.skip(prefix.len() as int),
{
    assert((prefix + rest).take(prefix.len() as int) == prefix);
    if begins(s, prefix) {
        let n = prefix.len() as int;
        assert forall|i: int| 0 <= i < s.len() implies s[i] == (prefix + s.skip(n))[i] by {
            if i < n {
                assert(s.take(n)[i] == s[i]);
            }
        }
        assert(s == prefix + s.skip(n));
    }
}

/// A text occurs in another just where that other is it with something around it.
pub proof fn law_occurs(before: Seq<char>, part: Seq<char>, behind: Seq<char>, s: Seq<char>)
    ensures
        occurs(before + part + behind, part),
        occurs(s, part) ==> exists|i: int|
            0 <= i && i + part.len() <= s.len() && s == #[trigger] s.take(i) + part + s.skip(
                i + part.len(),
            ),
{
    let full = before + part + behind;
    let at = before.len() as int;
    assert(full.subrange(at, at + part.len()) == part);
    assert(occurs_at(full, part, before.len() as int));
    if occurs(s, part) {
        let i = choose|i: int| occurs_at(s, part, i);
        let again = s.take(i) + part + s.skip(i + part.len());
        assert forall|j: int| 0 <= j < s.len() implies again[j] == s[j] by {
            if i <= j < i + part.len() {
                assert(s.subrange(i, i + part.len())[j - i] == part[j - i]);
            }
        }
        assert(s == again);
    }
}

/// Lists of characters are seen as what they hold.
pub proof fn law_views(lists: Seq<Vec<char>>, i: int)
    requires
        0 <= i < lists.len(),
    ensures
        views(lists).len() == lists.len(),
        views(lists)[i] == lists[i]@,
{
}

/// Bytes that encode a text give that text.
pub proof fn law_text_of_its_bytes(s: Seq<char>)
    ensures
        lossy_text(encode_utf8(s)) == s,
{
    vstd::utf8::encode_utf8_valid_utf8(s);
    vstd::utf8::encode_utf8_decode_utf8(s);
}

} // verus!
