//! Text primitives over `Seq<char>`.

use vstd::prelude::*;
use vstd::string::*;

verus! {

/// `String::push` appends one character.
pub assume_specification[ String::push ](text: &mut String, character: char)
    ensures
        final(text)@ == old(text)@.push(character),
;

/// The characters of `text`, in order.
pub fn chars_of(text: &str) -> (out: Vec<char>)
    ensures
        out@ == text@,
{
    let mut out: Vec<char> = Vec::new();
    for c in it: text.chars()
        invariant
            it.seq() == text@,
            out@ == text@.take(it.index() as int),
    {
        assert(text@.take(it.index() as int).push(c) == text@.take(it.index() as int + 1));
        out.push(c);
    }
    assert(text@.take(text@.len() as int) == text@);
    out
}

/// The text made of `chars`.
pub fn text_of(chars: &[char]) -> (out: String)
    ensures
        out@ == chars@,
{
    let mut out = String::new();
    let mut i: usize = 0;
    while i < chars.len()
        invariant
            i <= chars@.len(),
            out@ == chars@.take(i as int),
        decreases chars@.len() - i,
    {
        out.push(chars[i]);
        assert(chars@.take(i as int).push(chars@[i as int]) == chars@.take(i as int + 1));
        i += 1;
    }
    assert(chars@.take(chars@.len() as int) == chars@);
    out
}


/// Whether two texts are the same sequence of characters.
pub fn same_text(left: &str, right: &str) -> (same: bool)
    ensures
        same == (left@ == right@),
{
    left.to_owned() == right.to_owned()
}

/// `left` followed by `right`.
pub fn joined(left: &str, right: &str) -> (out: String)
    ensures
        out@ == left@ + right@,
{
    let mut out: String = left.to_owned();
    out.append(right);
    out
}

/// Whether `c` has the Unicode White_Space property.
pub open spec fn is_space(c: char) -> bool {
    ||| '\u{9}' <= c <= '\u{d}'
    ||| c == ' '
    ||| c == '\u{85}'
    ||| c == '\u{a0}'
    ||| c == '\u{1680}'
    ||| '\u{2000}' <= c <= '\u{200a}'
    ||| c == '\u{2028}'
    ||| c == '\u{2029}'
    ||| c == '\u{202f}'
    ||| c == '\u{205f}'
    ||| c == '\u{3000}'
}

/// Executable form of [`is_space`].
pub fn char_is_space(c: char) -> (space: bool)
    ensures
        space == is_space(c),
{
    ('\u{9}' <= c && c <= '\u{d}') || c == ' ' || c == '\u{85}' || c == '\u{a0}' || c == '\u{1680}'
        || ('\u{2000}' <= c && c <= '\u{200a}') || c == '\u{2028}' || c == '\u{2029}'
        || c == '\u{202f}' || c == '\u{205f}' || c == '\u{3000}'
}

/// `s` without its leading white space.
pub open spec fn trim_front(s: Seq<char>) -> Seq<char>
    decreases s.len(),
{
    if s.len() > 0 && is_space(s[0]) {
        trim_front(s.skip(1))
    } else {
        s
    }
}

/// `s` without its trailing white space.
pub open spec fn trim_back(s: Seq<char>) -> Seq<char>
    decreases s.len(),
{
    if s.len() > 0 && is_space(s.last()) {
        trim_back(s.drop_last())
    } else {
        s
    }
}

/// `s` without white space at either end.
pub open spec fn trimmed(s: Seq<char>) -> Seq<char> {
    trim_back(trim_front(s))
}

/// What [`trimmed`] leaves is a contiguous part of the text whose ends are not white space.
pub proof fn trimmed_ends_are_not_space(s: Seq<char>)
    ensures
        exists|i: int, j: int| 0 <= i <= j <= s.len() && trimmed(s) == #[trigger] s.subrange(i, j),
        trimmed(s).len() > 0 ==> !is_space(trimmed(s)[0]) && !is_space(trimmed(s).last()),
        trimmed(trimmed(s)) == trimmed(s),
{
    trim_front_is_suffix(s);
    trim_back_is_prefix(trim_front(s));
    let front = trim_front(s);
    let i = s.len() - front.len();
    let j = i + trimmed(s).len();
    assert(trimmed(s) =~= s.subrange(i, j));
    if trimmed(s).len() > 0 {
        assert(trimmed(s)[0] == front[0]);
    }
}

proof fn trim_front_is_suffix(s: Seq<char>)
    ensures
        trim_front(s).len() <= s.len(),
        trim_front(s) == s.skip(s.len() - trim_front(s).len()),
        trim_front(s).len() > 0 ==> !is_space(trim_front(s)[0]),
    decreases s.len(),
{
    if s.len() > 0 && is_space(s[0]) {
        trim_front_is_suffix(s.skip(1));
        let rest = trim_front(s.skip(1));
        assert(s.skip(1).skip(s.skip(1).len() - rest.len()) =~= s.skip(s.len() - rest.len()));
    } else {
        assert(s.skip(0) =~= s);
    }
}

proof fn trim_back_is_prefix(s: Seq<char>)
    ensures
        trim_back(s).len() <= s.len(),
        trim_back(s) == s.take(trim_back(s).len() as int),
        trim_back(s).len() > 0 ==> !is_space(trim_back(s).last()),
    decreases s.len(),
{
    if s.len() > 0 && is_space(s.last()) {
        trim_back_is_prefix(s.drop_last());
        let rest = trim_back(s.drop_last());
        assert(s.drop_last().take(rest.len() as int) =~= s.take(rest.len() as int));
    } else {
        assert(s.take(s.len() as int) =~= s);
    }
}

/// The characters of `chars` without white space at either end.
pub fn trim_chars(chars: &[char]) -> (out: Vec<char>)
    ensures
        out@ == trimmed(chars@),
{
    let mut start: usize = 0;
    assert(chars@.skip(0) =~= chars@);
    while start < chars.len() && char_is_space(chars[start])
        invariant
            start <= chars@.len(),
            trim_front(chars@) == trim_front(chars@.skip(start as int)),
        decreases chars@.len() - start,
    {
        assert(chars@.skip(start as int).skip(1) =~= chars@.skip(start as int + 1));
        start += 1;
    }
    let ghost front = chars@.skip(start as int);
    let mut end: usize = chars.len();
    assert(front =~= chars@.subrange(start as int, end as int));
    while start < end && char_is_space(chars[end - 1])
        invariant
            start <= end <= chars@.len(),
            trim_back(front) == trim_back(chars@.subrange(start as int, end as int)),
        decreases end - start,
    {
        let ghost part = chars@.subrange(start as int, end as int);
        assert(part.drop_last() =~= chars@.subrange(start as int, end as int - 1));
        end -= 1;
    }
    slice_copy(chars, start, end)
}

/// The characters of `chars` from `start` up to `end`.
pub fn slice_copy(chars: &[char], start: usize, end: usize) -> (out: Vec<char>)
    requires
        start <= end <= chars@.len(),
    ensures
        out@ == chars@.subrange(start as int, end as int),
{
    let mut out: Vec<char> = Vec::new();
    let mut i: usize = start;
    while i < end
        invariant
            start <= i <= end <= chars@.len(),
            out@ == chars@.subrange(start as int, i as int),
        decreases end - i,
    {
        out.push(chars[i]);
        assert(chars@.subrange(start as int, i as int).push(chars@[i as int]) =~= chars@.subrange(
            start as int,
            i as int + 1,
        ));
        i += 1;
    }
    out
}

/// `text` without white space at either end.
pub fn trim_text(text: &str) -> (out: String)
    ensures
        out@ == trimmed(text@),
{
    text_of(trim_chars(chars_of(text).as_slice()).as_slice())
}

/// Whether `text` holds nothing but white space.
pub fn is_blank(text: &str) -> (blank: bool)
    ensures
        blank == (trimmed(text@).len() == 0),
{
    trim_chars(chars_of(text).as_slice()).len() == 0
}


/// Whether `needle` stands in `s` at `at`.
pub open spec fn stands_at(s: Seq<char>, needle: Seq<char>, at: int) -> bool {
    &&& 0 <= at
    &&& at + needle.len() <= s.len()
    &&& s.subrange(at, at + needle.len()) == needle
}

/// Whether `needle` stands somewhere in `s`.
pub open spec fn holds_text(s: Seq<char>, needle: Seq<char>) -> bool {
    exists|at: int| stands_at(s, needle, at)
}

/// The first place of `needle` in `s`.
#[verifier::opaque]
pub open spec fn first_place(s: Seq<char>, needle: Seq<char>) -> Option<int> {
    if holds_text(s, needle) {
        Some(
            choose|at: int|
                stands_at(s, needle, at) && forall|k: int| 0 <= k < at ==> !stands_at(s, needle, k),
        )
    } else {
        None
    }
}

/// A place that no earlier place precedes is the first.
pub proof fn first_place_is(s: Seq<char>, needle: Seq<char>, at: int)
    requires
        stands_at(s, needle, at),
        forall|k: int| 0 <= k < at ==> !stands_at(s, needle, k),
    ensures
        first_place(s, needle) == Some(at),
{
    reveal(first_place);
    let other = first_place(s, needle)->0;
    assert(stands_at(s, needle, other) && forall|k: int|
        0 <= k < other ==> !stands_at(s, needle, k));
}

/// A text that stands somewhere has a first place, and stands there.
pub proof fn first_place_exists(s: Seq<char>, needle: Seq<char>)
    ensures
        match first_place(s, needle) {
            Some(at) => stands_at(s, needle, at) && forall|k: int|
                0 <= k < at ==> !stands_at(s, needle, k),
            None => !holds_text(s, needle),
        },
{
    reveal(first_place);
    if holds_text(s, needle) {
        let at = choose|at: int| stands_at(s, needle, at);
        least_place(s, needle, at);
    }
}

proof fn least_place(s: Seq<char>, needle: Seq<char>, at: int)
    requires
        stands_at(s, needle, at),
    ensures
        exists|first: int|
            stands_at(s, needle, first) && forall|k: int|
                0 <= k < first ==> !stands_at(s, needle, k),
    decreases at,
{
    if exists|k: int| 0 <= k < at && stands_at(s, needle, k) {
        let k = choose|k: int| 0 <= k < at && stands_at(s, needle, k);
        least_place(s, needle, k);
    }
}

/// Whether `needle` stands in `chars` at `at`.
fn matches_at(chars: &[char], needle: &[char], at: usize) -> (found: bool)
    requires
        at + needle@.len() <= chars@.len(),
    ensures
        found == stands_at(chars@, needle@, at as int),
{
    let total: usize = chars.len();
    let mut i: usize = 0;
    while i < needle.len()
        invariant
            i <= needle@.len(),
            total == chars@.len(),
            at + needle@.len() <= chars@.len(),
            chars@.subrange(at as int, at + i) == needle@.take(i as int),
        decreases needle@.len() - i,
    {
        if chars[at + i] != needle[i] {
            assert(chars@.subrange(at as int, at + needle@.len())[i as int] != needle@[i as int]);
            return false;
        }
        assert(chars@.subrange(at as int, at + i).push(chars@[at + i]) =~= chars@.subrange(
            at as int,
            at + i + 1,
        ));
        assert(needle@.take(i as int).push(needle@[i as int]) =~= needle@.take(i as int + 1));
        i += 1;
    }
    assert(needle@.take(needle@.len() as int) =~= needle@);
    true
}

/// The first place of `needle` in `chars`.
pub fn find_chars(chars: &[char], needle: &[char]) -> (place: Option<usize>)
    ensures
        match place {
            Some(at) => first_place(chars@, needle@) == Some(at as int) && stands_at(
                chars@,
                needle@,
                at as int,
            ),
            None => first_place(chars@, needle@) is None && !holds_text(chars@, needle@),
        },
{
    reveal(first_place);
    if needle.len() > chars.len() {
        return None;
    }
    let last: usize = chars.len() - needle.len();
    let mut at: usize = 0;
    loop
        invariant
            at <= last,
            last + needle@.len() == chars@.len(),
            forall|k: int| 0 <= k < at ==> !stands_at(chars@, needle@, k),
        decreases last - at,
    {
        if matches_at(chars, needle, at) {
            proof {
                first_place_is(chars@, needle@, at as int);
            }
            return Some(at);
        }
        if at == last {
            reveal(first_place);
            assert forall|k: int| !stands_at(chars@, needle@, k) by {
                if k > last {
                    assert(k + needle@.len() > chars@.len());
                }
            }
            return None;
        }
        at += 1;
    }
}

/// Whether `needle` stands somewhere in `text`.
pub fn contains_text(text: &str, needle: &str) -> (found: bool)
    ensures
        found == holds_text(text@, needle@),
{
    find_chars(chars_of(text).as_slice(), chars_of(needle).as_slice()).is_some()
}

/// Whether `text` begins with `prefix`.
pub fn starts_with(text: &str, prefix: &str) -> (yes: bool)
    ensures
        yes == prefix@.is_prefix_of(text@),
{
    let chars = chars_of(text);
    let head = chars_of(prefix);
    if head.len() > chars.len() {
        return false;
    }
    let found = matches_at(chars.as_slice(), head.as_slice(), 0);
    assert(found ==> prefix@ =~= text@.subrange(0, prefix@.len() as int));
    found
}

/// Whether `text` ends with `suffix`.
pub fn ends_with(text: &str, suffix: &str) -> (yes: bool)
    ensures
        yes == suffix@.is_suffix_of(text@),
{
    let chars = chars_of(text);
    let tail = chars_of(suffix);
    if tail.len() > chars.len() {
        return false;
    }
    let found = matches_at(chars.as_slice(), tail.as_slice(), chars.len() - tail.len());
    assert(found ==> suffix@ =~= text@.subrange(text@.len() - suffix@.len(), text@.len() as int));
    found
}

/// `s` parted at the first place of `needle`, which belongs to neither part.
pub open spec fn parted(s: Seq<char>, needle: Seq<char>) -> Option<(Seq<char>, Seq<char>)> {
    match first_place(s, needle) {
        Some(at) => Some((s.take(at), s.skip(at + needle.len()))),
        None => None,
    }
}

/// Parts `text` at the first place of `needle`.
pub fn part_text(text: &str, needle: &str) -> (parts: Option<(String, String)>)
    ensures
        match parts {
            Some((head, tail)) => parted(text@, needle@) == Some((head@, tail@)),
            None => parted(text@, needle@) is None,
        },
{
    let chars = chars_of(text);
    let mark = chars_of(needle);
    match find_chars(chars.as_slice(), mark.as_slice()) {
        Some(at) => {
            let head = slice_copy(chars.as_slice(), 0, at);
            let total: usize = chars.len();
            let tail = slice_copy(chars.as_slice(), at + mark.len(), total);
            assert(head@ =~= text@.take(at as int));
            assert(tail@ =~= text@.skip(at + needle@.len()));
            Some((text_of(head.as_slice()), text_of(tail.as_slice())))
        },
        None => None,
    }
}

/// The place of the first `mark` in `s`, or the length of `s`.
pub open spec fn index_or_len(s: Seq<char>, mark: char) -> int
    decreases s.len(),
{
    if s.len() == 0 || s[0] == mark {
        0
    } else {
        1 + index_or_len(s.skip(1), mark)
    }
}

/// What stands in `s` before the first `mark`.
pub open spec fn before(s: Seq<char>, mark: char) -> Seq<char> {
    s.take(index_or_len(s, mark))
}

/// The place where the first `mark` stands is within the text, and no earlier one holds it.
pub proof fn index_or_len_bounds(s: Seq<char>, mark: char)
    ensures
        0 <= index_or_len(s, mark) <= s.len(),
        index_or_len(s, mark) < s.len() ==> s[index_or_len(s, mark)] == mark,
        forall|k: int| 0 <= k < index_or_len(s, mark) ==> s[k] != mark,
    decreases s.len(),
{
    if s.len() != 0 && s[0] != mark {
        index_or_len_bounds(s.skip(1), mark);
        assert forall|k: int| 0 <= k < index_or_len(s, mark) implies s[k] != mark by {
            if k > 0 {
                assert(s.skip(1)[k - 1] == s[k]);
            }
        }
    }
}

/// A place that holds `mark` and that no earlier mark precedes is the first.
proof fn index_or_len_is(s: Seq<char>, mark: char, at: int)
    requires
        0 <= at <= s.len(),
        at < s.len() ==> s[at] == mark,
        forall|k: int| 0 <= k < at ==> s[k] != mark,
    ensures
        index_or_len(s, mark) == at,
{
    index_or_len_bounds(s, mark);
}

/// The place of the first `mark` at or after `from`, or the length of `chars`.
pub fn find_char(chars: &[char], mark: char, from: usize) -> (at: usize)
    requires
        from <= chars@.len(),
    ensures
        from <= at <= chars@.len(),
        at == from + index_or_len(chars@.skip(from as int), mark),
{
    let mut at: usize = from;
    while at < chars.len() && chars[at] != mark
        invariant
            from <= at <= chars@.len(),
            forall|k: int| from <= k < at ==> chars@[k] != mark,
        decreases chars@.len() - at,
    {
        at += 1;
    }
    proof {
        let rest = chars@.skip(from as int);
        assert forall|k: int| 0 <= k < at - from implies rest[k] != mark by {
            assert(rest[k] == chars@[from + k]);
        }
        index_or_len_is(rest, mark, at - from);
    }
    at
}

/// What stands in `text` before the first `mark`.
pub fn text_before(text: &str, mark: char) -> (out: String)
    ensures
        out@ == before(text@, mark),
{
    let chars = chars_of(text);
    let at = find_char(chars.as_slice(), mark, 0);
    assert(chars@.skip(0) =~= chars@);
    let head = slice_copy(chars.as_slice(), 0, at);
    assert(head@ =~= text@.take(at as int));
    text_of(head.as_slice())
}

/// The pieces of `s` between the occurrences of `mark`.
pub open spec fn pieces(s: Seq<char>, mark: char) -> Seq<Seq<char>>
    decreases s.len(),
{
    let at = index_or_len(s, mark);
    if 0 <= at < s.len() {
        seq![s.take(at)] + pieces(s.skip(at + 1), mark)
    } else {
        seq![s]
    }
}

/// The texts of a list, each by its view.
pub open spec fn views(list: Seq<String>) -> Seq<Seq<char>> {
    list.map_values(|text: String| text@)
}

/// Cuts `text` at each `mark`.
pub fn split_text(text: &str, mark: char) -> (out: Vec<String>)
    ensures
        views(out@) == pieces(text@, mark),
        out@.len() >= 1,
{
    let chars = chars_of(text);
    let mut out: Vec<String> = Vec::new();
    let mut from: usize = 0;
    assert(chars@.skip(0) =~= chars@);
    loop
        invariant
            from <= chars@.len(),
            chars@ == text@,
            views(out@) + pieces(chars@.skip(from as int), mark) == pieces(text@, mark),
        decreases chars@.len() - from,
    {
        let at = find_char(chars.as_slice(), mark, from);
        let ghost rest = chars@.skip(from as int);
        let piece = slice_copy(chars.as_slice(), from, at);
        assert(piece@ =~= rest.take(at - from));
        let ghost earlier = out@;
        out.push(text_of(piece.as_slice()));
        assert(views(out@) =~= views(earlier).push(piece@));
        if at >= chars.len() {
            assert(piece@ =~= rest);
            assert(views(out@) =~= views(earlier) + pieces(rest, mark));
            return out;
        }
        assert(rest.skip(at - from + 1) =~= chars@.skip(at as int + 1));
        assert(views(out@) + pieces(chars@.skip(at as int + 1), mark) =~= views(earlier) + pieces(
            rest,
            mark,
        ));
        from = at + 1;
    }
}


/// How many characters of `s` precede its first white space.
pub open spec fn word_len(s: Seq<char>) -> int
    decreases s.len(),
{
    if s.len() == 0 || is_space(s[0]) {
        0
    } else {
        1 + word_len(s.skip(1))
    }
}

/// The maximal runs of characters of `s` that are not white space.
pub open spec fn words(s: Seq<char>) -> Seq<Seq<char>>
    decreases s.len(),
{
    let rest = trim_front(s);
    let n = word_len(rest);
    if 0 < n <= rest.len() <= s.len() {
        seq![rest.take(n)] + words(rest.skip(n))
    } else {
        seq![]
    }
}

proof fn word_len_is(s: Seq<char>, n: int)
    requires
        0 <= n <= s.len(),
        n < s.len() ==> is_space(s[n]),
        forall|k: int| 0 <= k < n ==> !is_space(s[k]),
    ensures
        word_len(s) == n,
    decreases s.len(),
{
    if n > 0 {
        assert forall|k: int| 0 <= k < n - 1 implies !is_space(s.skip(1)[k]) by {
            assert(s.skip(1)[k] == s[k + 1]);
        }
        word_len_is(s.skip(1), n - 1);
    }
}

/// The words of `text`.
pub fn words_of(text: &str) -> (out: Vec<String>)
    ensures
        views(out@) == words(text@),
{
    let chars = chars_of(text);
    let mut out: Vec<String> = Vec::new();
    let mut from: usize = 0;
    assert(chars@.skip(0) =~= chars@);
    loop
        invariant
            from <= chars@.len(),
            chars@ == text@,
            views(out@) + words(chars@.skip(from as int)) == words(text@),
        decreases chars@.len() - from,
    {
        let ghost whole = chars@.skip(from as int);
        let mut start: usize = from;
        while start < chars.len() && char_is_space(chars[start])
            invariant
                from <= start <= chars@.len(),
                trim_front(chars@.skip(start as int)) == trim_front(chars@.skip(from as int)),
            decreases chars@.len() - start,
        {
            assert(chars@.skip(start as int).skip(1) =~= chars@.skip(start as int + 1));
            start += 1;
        }
        let ghost rest = chars@.skip(start as int);
        assert(trim_front(whole) == rest);
        let mut end: usize = start;
        while end < chars.len() && !char_is_space(chars[end])
            invariant
                start <= end <= chars@.len(),
                forall|k: int| start <= k < end ==> !is_space(chars@[k]),
            decreases chars@.len() - end,
        {
            end += 1;
        }
        proof {
            assert forall|k: int| 0 <= k < end - start implies !is_space(rest[k]) by {
                assert(rest[k] == chars@[start + k]);
            }
            word_len_is(rest, end - start);
        }
        if start == end {
            assert(words(whole) =~= seq![]);
            assert(views(out@) + words(whole) =~= views(out@));
            return out;
        }
        let piece = slice_copy(chars.as_slice(), start, end);
        assert(piece@ =~= rest.take(end - start));
        let ghost earlier = out@;
        out.push(text_of(piece.as_slice()));
        assert(views(out@) =~= views(earlier).push(piece@));
        assert(rest.skip(end - start) =~= chars@.skip(end as int));
        assert(views(out@) + words(chars@.skip(end as int)) =~= views(earlier) + words(whole));
        from = end;
    }
}

/// A line's characters without the carriage return of its line ending.
pub open spec fn without_return(s: Seq<char>) -> Seq<char> {
    if s.len() > 0 && s.last() == '\r' {
        s.drop_last()
    } else {
        s
    }
}

/// The lines of `s`: each ends at a line feed, or a carriage return and a line feed,
/// which are not part of it; the ending of the last line may be missing.
pub open spec fn lines(s: Seq<char>) -> Seq<Seq<char>>
    decreases s.len(),
{
    let at = index_or_len(s, '\n');
    if s.len() == 0 {
        seq![]
    } else if 0 <= at < s.len() {
        seq![without_return(s.take(at))] + lines(s.skip(at + 1))
    } else {
        seq![s]
    }
}

/// The lines of `text`.
pub fn lines_of(text: &str) -> (out: Vec<String>)
    ensures
        views(out@) == lines(text@),
{
    let chars = chars_of(text);
    let mut out: Vec<String> = Vec::new();
    let mut from: usize = 0;
    assert(chars@.skip(0) =~= chars@);
    while from < chars.len()
        invariant
            from <= chars@.len(),
            chars@ == text@,
            views(out@) + lines(chars@.skip(from as int)) == lines(text@),
        decreases chars@.len() - from,
    {
        let ghost rest = chars@.skip(from as int);
        let at = find_char(chars.as_slice(), '\n', from);
        let ended = at < chars.len();
        let mut end: usize = at;
        if ended && at > from && chars[at - 1] == '\r' {
            end = at - 1;
        }
        let line = slice_copy(chars.as_slice(), from, end);
        let ghost earlier = out@;
        out.push(text_of(line.as_slice()));
        assert(views(out@) =~= views(earlier).push(line@));
        proof {
            if ended {
                let whole = rest.take(at - from);
                if at > from {
                    assert(whole.last() == chars@[at - 1]);
                }
                assert(line@ =~= without_return(whole));
                assert(rest.skip(at - from + 1) =~= chars@.skip(at as int + 1));
                assert(views(out@) + lines(chars@.skip(at as int + 1)) =~= views(earlier) + lines(
                    rest,
                ));
            } else {
                assert(line@ =~= rest);
                assert(chars@.skip(chars@.len() as int) =~= seq![]);
                assert(views(out@) + lines(chars@.skip(chars@.len() as int)) =~= views(earlier)
                    + lines(rest));
            }
        }
        if ended {
            from = at + 1;
        } else {
            from = chars.len();
        }
    }
    assert(chars@.skip(from as int) =~= seq![]);
    assert(views(out@) + lines(chars@.skip(from as int)) =~= views(out@));
    out
}

/// The ASCII lower-case form of `c`.
pub open spec fn lower(c: char) -> char {
    if 'A' <= c <= 'Z' {
        ((c as u32 + 32) as u32) as char
    } else {
        c
    }
}

/// `s` with each ASCII letter in lower case.
pub open spec fn lowered(s: Seq<char>) -> Seq<char> {
    s.map_values(|c: char| lower(c))
}

/// The ASCII lower-case form of `c`.
fn lower_char(c: char) -> (out: char)
    ensures
        out == lower(c),
{
    if 'A' <= c && c <= 'Z' {
        ((c as u8) + 32) as char
    } else {
        c
    }
}

/// Whether two texts differ at most in the case of ASCII letters.
pub fn same_ignoring_case(left: &str, right: &str) -> (same: bool)
    ensures
        same == (lowered(left@) == lowered(right@)),
{
    let a = chars_of(left);
    let b = chars_of(right);
    assert(lowered(left@).len() == left@.len() && lowered(right@).len() == right@.len());
    if a.len() != b.len() {
        return false;
    }
    let mut i: usize = 0;
    while i < a.len()
        invariant
            a@ == left@,
            b@ == right@,
            a@.len() == b@.len(),
            i <= a@.len(),
            forall|k: int| 0 <= k < i ==> lower(a@[k]) == lower(b@[k]),
        decreases a@.len() - i,
    {
        if lower_char(a[i]) != lower_char(b[i]) {
            assert(lowered(left@)[i as int] != lowered(right@)[i as int]);
            return false;
        }
        i += 1;
    }
    assert(lowered(left@) =~= lowered(right@));
    true
}

/// The texts of `list`, with `mark` between neighbours.
pub open spec fn join_with(list: Seq<Seq<char>>, mark: Seq<char>) -> Seq<char>
    decreases list.len(),
{
    if list.len() == 0 {
        seq![]
    } else if list.len() == 1 {
        list[0]
    } else {
        join_with(list.drop_last(), mark) + mark + list.last()
    }
}

/// Joins the texts of `list`, with `mark` between neighbours.
pub fn join_texts(list: &[String], mark: &str) -> (out: String)
    ensures
        out@ == join_with(views(list@), mark@),
{
    let mut out = String::new();
    let mut i: usize = 0;
    while i < list.len()
        invariant
            i <= list@.len(),
            out@ == join_with(views(list@).take(i as int), mark@),
        decreases list@.len() - i,
    {
        let ghost next = views(list@).take(i as int + 1);
        assert(next.drop_last() =~= views(list@).take(i as int));
        if i > 0 {
            out.append(mark);
        }
        out.append(list[i].as_str());
        proof {
            if i == 0 {
                assert(out@ =~= list@[0]@);
            }
        }
        i += 1;
    }
    assert(views(list@).take(list@.len() as int) =~= views(list@));
    out
}

/// The number of bytes of `text` in UTF-8.
pub fn byte_len(text: &str) -> (n: usize)
    ensures
        n == vstd::utf8::encode_utf8(text@).len(),
{
    text.as_bytes().len()
}

/// `s` with each character replaced by what `entity` gives for it.
pub open spec fn expanded(s: Seq<char>, entity: spec_fn(char) -> Seq<char>) -> Seq<char>
    decreases s.len(),
{
    if s.len() == 0 {
        seq![]
    } else {
        expanded(s.drop_last(), entity) + entity(s.last())
    }
}

/// Whether `list` holds `item`.
pub fn list_holds(list: &[String], item: &str) -> (found: bool)
    ensures
        found == views(list@).contains(item@),
{
    let mut i: usize = 0;
    while i < list.len()
        invariant
            i <= list@.len(),
            forall|k: int| 0 <= k < i ==> views(list@)[k] != item@,
        decreases list@.len() - i,
    {
        assert(views(list@)[i as int] == list@[i as int]@);
        if same_text(list[i].as_str(), item) {
            return true;
        }
        i += 1;
    }
    false
}


/// The number of bytes of a character in UTF-8.
pub open spec fn width(c: char) -> nat {
    vstd::utf8::encode_scalar(c as u32).len()
}

/// The number of bytes of a character in UTF-8.
pub fn char_width(c: char) -> (n: usize)
    ensures
        n == width(c),
        1 <= n <= 4,
{
    if c <= '\u{7f}' {
        1
    } else if c <= '\u{7ff}' {
        2
    } else if c <= '\u{ffff}' {
        3
    } else {
        4
    }
}

/// The bytes of two texts in a row are the bytes of the one and the bytes of the other.
pub proof fn bytes_of_both(a: Seq<char>, b: Seq<char>)
    ensures
        vstd::utf8::encode_utf8(a + b) == vstd::utf8::encode_utf8(a) + vstd::utf8::encode_utf8(b),
    decreases a.len(),
{
    if a.len() == 0 {
        assert(a + b =~= b);
        assert(vstd::utf8::encode_utf8(a) + vstd::utf8::encode_utf8(b) =~= vstd::utf8::encode_utf8(
            b,
        ));
    } else {
        assert((a + b).drop_first() =~= a.drop_first() + b);
        bytes_of_both(a.drop_first(), b);
        let head = vstd::utf8::encode_scalar(a[0] as u32);
        assert(head + (vstd::utf8::encode_utf8(a.drop_first()) + vstd::utf8::encode_utf8(b)) =~= (
        head + vstd::utf8::encode_utf8(a.drop_first())) + vstd::utf8::encode_utf8(b));
    }
}

/// The longest start of `s` that has at most `budget` bytes.
pub open spec fn within(s: Seq<char>, budget: int) -> Seq<char>
    decreases s.len(),
{
    if s.len() == 0 || width(s[0]) > budget {
        seq![]
    } else {
        seq![s[0]] + within(s.skip(1), budget - width(s[0]))
    }
}

/// What [`within`] gives is a start of the text, within the budget, and where it is not the
/// whole text, one character more would be too much.
pub proof fn within_is_longest(s: Seq<char>, budget: int)
    requires
        0 <= budget,
    ensures
        within(s, budget).is_prefix_of(s),
        vstd::utf8::encode_utf8(within(s, budget)).len() <= budget,
        within(s, budget).len() < s.len() ==> vstd::utf8::encode_utf8(within(s, budget)).len()
            + width(s[within(s, budget).len() as int]) > budget,
    decreases s.len(),
{
    let taken = within(s, budget);
    if s.len() == 0 || width(s[0]) > budget {
        assert(taken =~= s.subrange(0, 0));
        assert(vstd::utf8::encode_utf8(taken).len() == 0);
    } else {
        let rest = within(s.skip(1), budget - width(s[0]));
        within_is_longest(s.skip(1), budget - width(s[0]));
        assert(taken =~= seq![s[0]] + rest);
        bytes_of_both(seq![s[0]], rest);
        assert(seq![s[0]].drop_first() =~= seq![]);
        assert(vstd::utf8::encode_utf8(seq![s[0]]).len() == width(s[0])) by {
            assert(vstd::utf8::encode_utf8(seq![s[0]].drop_first()).len() == 0);
        }
        assert(taken =~= s.subrange(0, taken.len() as int)) by {
            assert(rest =~= s.skip(1).subrange(0, rest.len() as int));
            assert forall|i: int| 0 <= i < taken.len() implies taken[i] == s[i] by {
                if i > 0 {
                    assert(rest[i - 1] == s.skip(1)[i - 1]);
                }
            }
        }
        if taken.len() < s.len() {
            assert(s.skip(1)[rest.len() as int] == s[taken.len() as int]);
        }
    }
}

/// The longest start of `text` that has at most `budget` bytes.
pub fn text_within(text: &str, budget: usize) -> (out: String)
    ensures
        out@ == within(text@, budget as int),
{
    let chars = chars_of(text);
    let mut out = String::new();
    let mut left: usize = budget;
    let mut i: usize = 0;
    assert(chars@.skip(0) =~= chars@);
    assert(out@ + within(text@, budget as int) =~= within(text@, budget as int));
    while i < chars.len() && char_width(chars[i]) <= left
        invariant
            i <= chars@.len(),
            chars@ == text@,
            out@ + within(chars@.skip(i as int), left as int) == within(text@, budget as int),
        decreases chars@.len() - i,
    {
        let ghost rest = chars@.skip(i as int);
        let ghost earlier = out@;
        assert(rest.skip(1) =~= chars@.skip(i as int + 1));
        out.push(chars[i]);
        assert(out@ + within(rest.skip(1), left - width(chars@[i as int])) =~= earlier + within(
            rest,
            left as int,
        ));
        left = left - char_width(chars[i]);
        i += 1;
    }
    assert(within(chars@.skip(i as int), left as int) =~= seq![]);
    assert(out@ + within(chars@.skip(i as int), left as int) =~= out@);
    out
}

/// White space, in ASCII, is the space and what lies from the tab to the carriage return;
/// beyond it, the next line, the no-break space, and the spaces and separators of Unicode.
pub proof fn spaces_are_few(c: char)
    ensures
        (c as int) < 128 ==> (is_space(c) <==> c as int == 32 || 9 <= c as int <= 13),
        c as int >= 128 ==> (is_space(c) <==> c as int == 0x85 || c as int == 0xa0 || c as int
            == 0x1680 || 0x2000 <= c as int <= 0x200a || c as int == 0x2028 || c as int == 0x2029
            || c as int == 0x202f || c as int == 0x205f || c as int == 0x3000),
{
}

proof fn leading_spaces_go(a: Seq<char>, t: Seq<char>)
    requires
        forall|i: int| 0 <= i < a.len() ==> is_space(#[trigger] a[i]),
    ensures
        trim_front(a + t) == trim_front(t),
    decreases a.len(),
{
    if a.len() == 0 {
        assert(a + t =~= t);
    } else {
        assert(is_space(a[0]));
        assert((a + t).skip(1) =~= a.skip(1) + t);
        assert forall|i: int| 0 <= i < a.skip(1).len() implies is_space(
            #[trigger] a.skip(1)[i],
        ) by {
            assert(is_space(a[i + 1]));
        }
        leading_spaces_go(a.skip(1), t);
    }
}

proof fn trailing_spaces_go(t: Seq<char>, b: Seq<char>)
    requires
        forall|i: int| 0 <= i < b.len() ==> is_space(#[trigger] b[i]),
    ensures
        trim_back(t + b) == trim_back(t),
    decreases b.len(),
{
    if b.len() == 0 {
        assert(t + b =~= t);
    } else {
        assert(is_space(b.last()));
        assert((t + b).drop_last() =~= t + b.drop_last());
        assert forall|i: int| 0 <= i < b.drop_last().len() implies is_space(
            #[trigger] b.drop_last()[i],
        ) by {
            assert(is_space(b[i]));
        }
        trailing_spaces_go(t, b.drop_last());
    }
}

/// Trimming takes the white space at both ends and nothing else: of a text between spaces the
/// text is left, and of spaces alone nothing.
pub proof fn trimming_takes_only_spaces(a: Seq<char>, t: Seq<char>, b: Seq<char>)
    requires
        forall|i: int| 0 <= i < a.len() ==> is_space(#[trigger] a[i]),
        forall|i: int| 0 <= i < b.len() ==> is_space(#[trigger] b[i]),
    ensures
        t.len() > 0 && !is_space(t[0]) && !is_space(t.last()) ==> trimmed(a + t + b) == t,
        trimmed(a).len() == 0,
{
    assert(a + t + b =~= a + (t + b));
    leading_spaces_go(a, t + b);
    if t.len() > 0 && !is_space(t[0]) && !is_space(t.last()) {
        assert((t + b)[0] == t[0]);
        trailing_spaces_go(t, b);
    }
    let none = Seq::<char>::empty();
    leading_spaces_go(a, none);
    assert(a + none =~= a);
}

/// A text stands in another if and only if that other is made of something, the text and
/// something more.
pub proof fn held_texts_stand_between(s: Seq<char>, needle: Seq<char>, a: Seq<char>, b: Seq<char>)
    ensures
        s == a + needle + b ==> holds_text(s, needle) && stands_at(s, needle, a.len() as int),
        holds_text(s, needle) ==> exists|x: Seq<char>, y: Seq<char>| s == #[trigger] (x + needle
            + y),
{
    if s == a + needle + b {
        assert(s.subrange(a.len() as int, (a.len() + needle.len()) as int) =~= needle);
        assert(stands_at(s, needle, a.len() as int));
    }
    if holds_text(s, needle) {
        let at = choose|at: int| stands_at(s, needle, at);
        let x = s.take(at);
        let y = s.skip(at + needle.len());
        assert(s =~= x + needle + y);
    }
}

/// Parting a text at a mark leaves what is before the first mark and all that is behind it:
/// put together again they are the text, and no mark begins in it any earlier.
pub proof fn parts_make_the_text(s: Seq<char>, mark: Seq<char>)
    ensures
        match parted(s, mark) {
            Some(parts) => s == parts.0 + mark + parts.1 && forall|x: Seq<char>, y: Seq<char>|
                s == #[trigger] (x + mark + y) ==> x.len() >= parts.0.len(),
            None => forall|x: Seq<char>, y: Seq<char>| s != #[trigger] (x + mark + y),
        },
{
    first_place_exists(s, mark);
    if let Some(parts) = parted(s, mark) {
        let at = first_place(s, mark)->0;
        assert(s =~= parts.0 + mark + parts.1);
        assert forall|x: Seq<char>, y: Seq<char>| s == #[trigger] (x + mark + y) implies x.len()
            >= parts.0.len() by {
            held_texts_stand_between(s, mark, x, y);
        }
    } else {
        assert forall|x: Seq<char>, y: Seq<char>| s != #[trigger] (x + mark + y) by {
            held_texts_stand_between(s, mark, x, y);
        }
    }
}

proof fn first_mark_is_found(a: Seq<char>, mark: char, b: Seq<char>)
    requires
        !a.contains(mark),
    ensures
        index_or_len(a, mark) == a.len(),
        index_or_len(a.push(mark) + b, mark) == a.len(),
{
    let s = a.push(mark) + b;
    assert forall|k: int| 0 <= k < a.len() implies s[k] != mark && a[k] != mark by {
        assert(a.contains(a[k]));
    }
    index_or_len_is(a, mark, a.len() as int);
    index_or_len_is(s, mark, a.len() as int);
}

/// What stands before a mark is what comes before the first one, or the whole text where
/// there is none.
pub proof fn texts_end_before_a_mark(a: Seq<char>, mark: char, b: Seq<char>)
    requires
        !a.contains(mark),
    ensures
        before(a, mark) == a,
        before(a.push(mark) + b, mark) == a,
{
    first_mark_is_found(a, mark, b);
    assert(before(a, mark) =~= a);
    assert(before(a.push(mark) + b, mark) =~= a);
}

/// The pieces of a text without a mark are the text alone, and those of two texts with a mark
/// between them are the pieces of the one and the pieces of the other.
pub proof fn marks_part_pieces(a: Seq<char>, mark: char, b: Seq<char>)
    ensures
        !a.contains(mark) ==> pieces(a, mark) == seq![a],
        pieces(a.push(mark) + b, mark) == pieces(a, mark) + pieces(b, mark),
    decreases a.len(),
{
    let s = a.push(mark) + b;
    index_or_len_bounds(a, mark);
    let at = index_or_len(a, mark);
    if !a.contains(mark) {
        first_mark_is_found(a, mark, b);
        assert(s.take(a.len() as int) =~= a);
        assert(s.skip(a.len() as int + 1) =~= b);
        assert(pieces(a, mark) =~= seq![a]);
    } else {
        if at == a.len() {
            let k = choose|k: int| 0 <= k < a.len() && a[k] == mark;
            assert(a[k] != mark);
        }
        assert forall|k: int| 0 <= k < at implies s[k] != mark by {
            assert(s[k] == a[k]);
        }
        assert(s[at] == a[at]);
        index_or_len_is(s, mark, at);
        let rest = a.skip(at + 1);
        marks_part_pieces(rest, mark, b);
        assert(s.take(at) =~= a.take(at));
        assert(s.skip(at + 1) =~= rest.push(mark) + b);
        assert(pieces(s, mark) =~= pieces(a, mark) + pieces(b, mark));
    }
}

/// No piece of a text holds the mark, there is at least one, and each stands in the text
/// between marks or its ends.
pub proof fn pieces_stand_between_marks(s: Seq<char>, mark: char, i: int) -> (around: (
    Seq<char>,
    Seq<char>,
))
    requires
        0 <= i < pieces(s, mark).len(),
    ensures
        !pieces(s, mark)[i].contains(mark),
        s == around.0 + pieces(s, mark)[i] + around.1,
        around.0.len() == 0 <==> i == 0,
        around.0.len() > 0 ==> around.0.last() == mark,
        around.1.len() > 0 ==> around.1[0] == mark,
    decreases s.len(),
{
    index_or_len_bounds(s, mark);
    let at = index_or_len(s, mark);
    let none = Seq::<char>::empty();
    if 0 <= at < s.len() {
        let rest = s.skip(at + 1);
        if i == 0 {
            let piece = pieces(s, mark)[0];
            assert(piece == s.take(at));
            assert forall|k: int| 0 <= k < piece.len() implies piece[k] != mark by {
                assert(piece[k] == s[k]);
            }
            assert(s =~= none + piece + s.skip(at));
            assert(s.skip(at)[0] == s[at]);
            (none, s.skip(at))
        } else {
            let inner = pieces_stand_between_marks(rest, mark, i - 1);
            let piece = pieces(s, mark)[i];
            assert(piece == pieces(rest, mark)[i - 1]);
            let front = s.take(at + 1) + inner.0;
            assert(s =~= s.take(at + 1) + rest);
            assert(s =~= front + piece + inner.1);
            if inner.0.len() == 0 {
                assert(front.last() == s[at]);
            } else {
                assert(front.last() == inner.0.last());
            }
            (front, inner.1)
        }
    } else {
        assert(pieces(s, mark) =~= seq![s]);
        assert(s =~= none + s + none);
        assert forall|k: int| 0 <= k < s.len() implies s[k] != mark by {}
        (none, none)
    }
}

/// The words of a text: where it begins with spaces, then a run of other characters that ends
/// at a space or at the end, that run is the first word, and what follows has the others. A
/// text of spaces has none.
pub proof fn words_stand_between_spaces(a: Seq<char>, word: Seq<char>, b: Seq<char>)
    requires
        forall|i: int| 0 <= i < a.len() ==> is_space(#[trigger] a[i]),
        forall|i: int| 0 <= i < word.len() ==> !is_space(#[trigger] word[i]),
        b.len() > 0 ==> is_space(b[0]),
    ensures
        words(a).len() == 0,
        word.len() > 0 ==> words(a + word + b) == seq![word] + words(b),
{
    let none = Seq::<char>::empty();
    leading_spaces_go(a, none);
    assert(a + none =~= a);
    assert(trim_front(a) =~= none);
    assert(words(a) =~= seq![]);
    if word.len() > 0 {
        let s = a + word + b;
        let rest = word + b;
        assert(s =~= a + rest);
        leading_spaces_go(a, rest);
        assert(!is_space(word[0]));
        assert(rest[0] == word[0]);
        assert(trim_front(s) == rest);
        assert forall|k: int| 0 <= k < word.len() implies !is_space(rest[k]) by {
            assert(!is_space(word[k]));
        }
        if b.len() > 0 {
            assert(rest[word.len() as int] == b[0]);
        }
        word_len_is(rest, word.len() as int);
        assert(rest.take(word.len() as int) =~= word);
        assert(rest.skip(word.len() as int) =~= b);
    }
}

/// The lines of a text: a line ends at a line feed, or at a carriage return before one, which
/// belong to no line; what follows the last of them, if anything, is a line too.
pub proof fn lines_end_at_line_feeds(line: Seq<char>, rest: Seq<char>)
    requires
        !line.contains('\n'),
    ensures
        lines(Seq::<char>::empty()).len() == 0,
        line.len() > 0 ==> lines(line) == seq![line],
        line.len() == 0 || line.last() != '\r' ==> lines(line.push('\n') + rest) == seq![line]
            + lines(rest),
        lines(line.push('\r').push('\n') + rest) == seq![line] + lines(rest),
{
    first_mark_is_found(line, '\n', rest);
    let s = line.push('\n') + rest;
    assert(s.take(line.len() as int) =~= line);
    assert(s.skip(line.len() as int + 1) =~= rest);
    let returned = line.push('\r');
    assert(!returned.contains('\n')) by {
        if returned.contains('\n') {
            let k = choose|k: int| 0 <= k < returned.len() && returned[k] == '\n';
            assert(line[k] == '\n');
        }
    }
    first_mark_is_found(returned, '\n', rest);
    let t = returned.push('\n') + rest;
    assert(t.take(returned.len() as int) =~= returned);
    assert(t.skip(returned.len() as int + 1) =~= rest);
    assert(returned.drop_last() =~= line);
}

/// In lower case the letters from `A` to `Z` become those from `a` to `z`, each its own, and
/// every other character stays.
pub proof fn letters_are_lowered(s: Seq<char>, i: int)
    requires
        0 <= i < s.len(),
    ensures
        lowered(s).len() == s.len(),
        65 <= s[i] as int <= 90 ==> lowered(s)[i] as int == s[i] as int + 32,
        !(65 <= s[i] as int <= 90) ==> lowered(s)[i] == s[i],
{
}

/// Joining texts puts the mark between neighbours and nowhere else.
pub proof fn marks_stand_between_texts(a: Seq<Seq<char>>, b: Seq<Seq<char>>, mark: Seq<char>)
    ensures
        join_with(Seq::empty(), mark).len() == 0,
        a.len() == 1 ==> join_with(a, mark) == a[0],
        a.len() > 0 && b.len() > 0 ==> join_with(a + b, mark) == join_with(a, mark) + mark
            + join_with(b, mark),
    decreases b.len(),
{
    if a.len() > 0 && b.len() > 0 {
        assert((a + b).drop_last() =~= a + b.drop_last());
        assert((a + b).last() == b.last());
        if b.len() == 1 {
            assert(a + b.drop_last() =~= a);
        } else {
            marks_stand_between_texts(a, b.drop_last(), mark);
            assert(join_with(a, mark) + mark + join_with(b.drop_last(), mark) + mark + b.last()
                =~= join_with(a, mark) + mark + (join_with(b.drop_last(), mark) + mark
                + b.last()));
        }
    }
}

/// Each character is replaced on its own, whatever stands around it.
pub proof fn characters_are_expanded_each(
    a: Seq<char>,
    c: char,
    b: Seq<char>,
    entity: spec_fn(char) -> Seq<char>,
)
    ensures
        expanded(Seq::empty(), entity).len() == 0,
        expanded(a.push(c) + b, entity) == expanded(a, entity) + entity(c) + expanded(b, entity),
    decreases b.len(),
{
    let s = a.push(c) + b;
    if b.len() == 0 {
        assert(s =~= a.push(c));
        assert(s.drop_last() =~= a);
        assert(expanded(a, entity) + entity(c) + expanded(b, entity) =~= expanded(a, entity)
            + entity(c));
    } else {
        assert(s.drop_last() =~= a.push(c) + b.drop_last());
        assert(s.last() == b.last());
        characters_are_expanded_each(a, c, b.drop_last(), entity);
        assert(expanded(a, entity) + entity(c) + expanded(b.drop_last(), entity) + entity(b.last())
            =~= expanded(a, entity) + entity(c) + (expanded(b.drop_last(), entity) + entity(
            b.last(),
        )));
    }
}

/// The texts of a list are its texts in their order, and two texts in a row are the one and
/// then the other.
pub proof fn lists_are_seen_in_order(list: Seq<String>, i: int)
    ensures
        views(list).len() == list.len(),
        0 <= i < list.len() ==> views(list)[i] == list[i]@,
{
}

/// A character has one byte in UTF-8 below 128, two below 2048, three below 65536 and four
/// beyond.
pub proof fn characters_have_one_to_four_bytes(c: char)
    ensures
        (c as u32) < 0x80 ==> width(c) == 1,
        0x80 <= (c as u32) < 0x800 ==> width(c) == 2,
        0x800 <= (c as u32) < 0x1_0000 ==> width(c) == 3,
        0x1_0000 <= (c as u32) ==> width(c) == 4,
{
}

} // verus!
