//! Identifiers: short names of plain characters.

use crate::text::chars_of;
use vstd::prelude::*;
use vstd::string::*;

verus! {

/// Whether a character may stand in an identifier.
pub open spec fn is_id_char(c: char) -> bool {
    ||| 'a' <= c <= 'z'
    ||| 'A' <= c <= 'Z'
    ||| '0' <= c <= '9'
    ||| c == '-'
    ||| c == '_'
    ||| c == '.'
}

/// Whether a text is an identifier: one to 128 letters, digits, dashes, underscores and dots.
pub open spec fn is_id(text: Seq<char>) -> bool {
    &&& 0 < text.len() <= 128
    &&& forall|i: int| 0 <= i < text.len() ==> is_id_char(#[trigger] text[i])
}

/// Whether a text is an identifier.
pub fn id_is_valid(text: &str) -> (valid: bool)
    ensures
        valid == is_id(text@),
{
    let chars = chars_of(text);
    if chars.len() == 0 || chars.len() > 128 {
        return false;
    }
    let mut i: usize = 0;
    while i < chars.len()
        invariant
            i <= chars@.len(),
            chars@ == text@,
            forall|k: int| 0 <= k < i ==> is_id_char(#[trigger] text@[k]),
        decreases chars@.len() - i,
    {
        let c = chars[i];
        let lower = 'a' <= c && c <= 'z';
        let upper = 'A' <= c && c <= 'Z';
        let digit = '0' <= c && c <= '9';
        if !(lower || upper || digit || c == '-' || c == '_' || c == '.') {
            assert(!is_id_char(text@[i as int]));
            return false;
        }
        i += 1;
    }
    true
}

/// Whether a character is a hexadecimal digit.
pub open spec fn is_hex_digit(c: char) -> bool {
    '0' <= c <= '9' || 'a' <= c <= 'f' || 'A' <= c <= 'F'
}

/// Whether a text is the full name of a commit: forty hexadecimal digits.
pub open spec fn is_commit(text: Seq<char>) -> bool {
    &&& text.len() == 40
    &&& forall|i: int| 0 <= i < text.len() ==> is_hex_digit(#[trigger] text[i])
}

/// Whether a text is the full name of a commit.
pub fn commit_is_valid(text: &str) -> (valid: bool)
    ensures
        valid == is_commit(text@),
{
    let chars = chars_of(text);
    if chars.len() != 40 {
        return false;
    }
    let mut i: usize = 0;
    while i < chars.len()
        invariant
            i <= chars@.len(),
            chars@ == text@,
            forall|k: int| 0 <= k < i ==> is_hex_digit(#[trigger] text@[k]),
        decreases chars@.len() - i,
    {
        let c = chars[i];
        let digit = '0' <= c && c <= '9';
        let lower = 'a' <= c && c <= 'f';
        let upper = 'A' <= c && c <= 'F';
        if !(digit || lower || upper) {
            assert(!is_hex_digit(text@[i as int]));
            return false;
        }
        i += 1;
    }
    true
}

/// An identifier is one to 128 characters long, each an ASCII letter, an ASCII digit, a dash,
/// an underscore or a dot.
pub proof fn identifiers_are_plain(text: Seq<char>)
    ensures
        is_id(text) <==> 1 <= text.len() && text.len() <= 128 && forall|i: int|
            0 <= i < text.len() ==> {
                let code = (#[trigger] text[i]) as int;
                97 <= code <= 122 || 65 <= code <= 90 || 48 <= code <= 57 || code == 45 || code
                    == 95 || code == 46
            },
{
    if is_id(text) {
        assert forall|i: int| 0 <= i < text.len() implies ({
            let code = (#[trigger] text[i]) as int;
            97 <= code <= 122 || 65 <= code <= 90 || 48 <= code <= 57 || code == 45 || code == 95
                || code == 46
        }) by {
            assert(is_id_char(text[i]));
        }
    } else if 1 <= text.len() <= 128 {
        let i = choose|i: int| 0 <= i < text.len() && !is_id_char(#[trigger] text[i]);
        assert(!is_id_char(text[i]));
    }
}

/// The full name of a commit is forty hexadecimal digits, in either case.
pub proof fn commits_are_forty_digits(text: Seq<char>)
    ensures
        is_commit(text) <==> text.len() == 40 && forall|i: int|
            0 <= i < text.len() ==> {
                let code = (#[trigger] text[i]) as int;
                48 <= code <= 57 || 97 <= code <= 102 || 65 <= code <= 70
            },
{
    if is_commit(text) {
        assert forall|i: int| 0 <= i < text.len() implies ({
            let code = (#[trigger] text[i]) as int;
            48 <= code <= 57 || 97 <= code <= 102 || 65 <= code <= 70
        }) by {
            assert(is_hex_digit(text[i]));
        }
    } else if text.len() == 40 {
        let i = choose|i: int| 0 <= i < text.len() && !is_hex_digit(#[trigger] text[i]);
        assert(!is_hex_digit(text[i]));
    }
}

} // verus!
