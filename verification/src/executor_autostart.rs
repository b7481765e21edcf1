//! The executor as a scheduled task: how it is registered, defined, installed and removed.

use crate::digest::{sha256, sha256_of};
use crate::fault::{caused, plain, Fault, FaultView};
use crate::numbers::{decimal, decimal_text, hex, hex_prefix};
use crate::paths::{inside_on, is_absolute_path, path_inside_on, path_is_absolute};
use crate::text::{
    chars_of, contains_text, expanded, holds_text, join_texts, join_with, joined, same_text,
    slice_copy, stands_at, text_of, views,
};
use vstd::prelude::*;
use vstd::string::*;
use vstd::utf8::encode_utf8;

verus! {

/// The version of what is recorded of a registration.
pub const SCHEMA_VERSION: u32 = 1;

/// What is recorded of an executor that starts by itself: paths, and no secret.
#[derive(Debug)]
pub struct Registration {
    pub schema_version: u32,
    pub task_name: String,
    pub coven_home: String,
    pub executable_path: String,
}

/// Where the registration of a home stands.
pub fn registration_path(coven_home: &str, windows: bool) -> (path: String)
    ensures
        path@ == inside_on(coven_home@, "executor-autostart.json"@, windows),
{
    path_inside_on(coven_home, "executor-autostart.json", windows)
}

/// The lower case of a text.
pub uninterp spec fn unicode_lower(text: Seq<char>) -> Seq<char>;

/// `str::to_lowercase` gives the lower case of a text, by the rules of Unicode.
#[verifier::external_body]
pub(crate) fn lowercase(text: &str) -> (lower: String)
    ensures
        lower@ == unicode_lower(text@),
{
    text.to_lowercase()
}

/// A text with each slash turned.
pub open spec fn backslashed(text: Seq<char>) -> Seq<char> {
    text.map_values(
        |c: char|
            if c == '/' {
                '\\'
            } else {
                c
            },
    )
}

/// A text without the backslashes at its end.
pub open spec fn without_trailing(text: Seq<char>) -> Seq<char>
    decreases text.len(),
{
    if text.len() > 0 && text.last() == '\\' {
        without_trailing(text.drop_last())
    } else {
        text
    }
}

/// A home as its task knows it: spelled with backslashes, without any at the end, and on
/// Windows in lower case.
pub open spec fn normalized_of(home: Seq<char>, windows: bool) -> Seq<char> {
    let turned = backslashed(home);
    without_trailing(
        if windows {
            unicode_lower(turned)
        } else {
            turned
        },
    )
}

/// A home as its task knows it.
pub fn normalized_home(home: &str, windows: bool) -> (normal: String)
    ensures
        normal@ == normalized_of(home@, windows),
{
    let chars = chars_of(home);
    let mut turned: Vec<char> = Vec::new();
    let mut i: usize = 0;
    while i < chars.len()
        invariant
            i <= chars@.len(),
            chars@ == home@,
            turned@ == backslashed(home@).take(i as int),
        decreases chars@.len() - i,
    {
        let c = chars[i];
        if c == '/' {
            turned.push('\\');
        } else {
            turned.push(c);
        }
        i += 1;
        assert(turned@ =~= backslashed(home@).take(i as int));
    }
    assert(turned@ =~= backslashed(home@));
    let text = text_of(turned.as_slice());
    let text = if windows {
        lowercase(text.as_str())
    } else {
        text
    };
    let kept = chars_of(text.as_str());
    let mut end: usize = kept.len();
    assert(kept@.take(end as int) =~= kept@);
    while end > 0 && kept[end - 1] == '\\'
        invariant
            end <= kept@.len(),
            without_trailing(kept@) == without_trailing(kept@.take(end as int)),
        decreases end,
    {
        assert(kept@.take(end as int).last() == kept@[end - 1]);
        assert(kept@.take(end as int).drop_last() =~= kept@.take(end - 1));
        end = end - 1;
    }
    proof {
        let rest = kept@.take(end as int);
        if end > 0 {
            assert(rest.last() == kept@[end - 1]);
        }
        assert(without_trailing(rest) == rest);
    }
    let out = slice_copy(kept.as_slice(), 0, end);
    assert(out@ =~= kept@.take(end as int));
    text_of(out.as_slice())
}

/// The name of the task that runs the executor of a home.
pub open spec fn task_name_of(home: Seq<char>, windows: bool) -> Seq<char> {
    "OpenCoven Fleet Executor "@ + hex(sha256(encode_utf8(normalized_of(home, windows))).take(6))
}

/// The name of the task that runs the executor of a home: the same for every spelling of it.
pub fn task_name(coven_home: &str, windows: bool) -> (name: String)
    ensures
        name@ == task_name_of(coven_home@, windows),
{
    let normal = normalized_home(coven_home, windows);
    let digest = sha256_of(normal.as_str().as_bytes());
    joined("OpenCoven Fleet Executor ", hex_prefix(digest.as_slice(), 6).as_str())
}

/// Two spellings of a home that differ in their slashes, or in those at the end, have one
/// task.
pub proof fn spellings_share_a_task(home: Seq<char>, windows: bool)
    ensures
        task_name_of(backslashed(home), windows) == task_name_of(home, windows),
        !windows ==> task_name_of(home.push('/'), windows) == task_name_of(home, windows),
{
    assert(backslashed(backslashed(home)) =~= backslashed(home));
    let longer = backslashed(home.push('/'));
    assert(longer =~= backslashed(home).push('\\'));
    assert(longer.drop_last() =~= backslashed(home));
}

/// Whether a registration is that of a home and a program.
pub open spec fn registers(
    registration: Registration,
    coven_home: Seq<char>,
    executable: Seq<char>,
    windows: bool,
) -> bool {
    &&& registration.schema_version == SCHEMA_VERSION
    &&& registration.task_name@ == task_name_of(coven_home, windows)
    &&& registration.coven_home@ == coven_home
    &&& registration.executable_path@ == executable
}

/// Whether the paths of a home and a program are both absolute.
pub open spec fn are_absolute(
    coven_home: Seq<char>,
    executable: Seq<char>,
    windows: bool,
) -> bool {
    is_absolute_path(coven_home, windows) && is_absolute_path(executable, windows)
}

/// The registration of a home and a program, whose paths must be absolute.
pub fn make_registration(coven_home: &str, executable: &str, windows: bool) -> (made: Result<
    Registration,
    Fault,
>)
    ensures
        match made {
            Ok(registration) => are_absolute(coven_home@, executable@, windows) && registers(
                registration,
                coven_home@,
                executable@,
                windows,
            ),
            Err(fault) => !are_absolute(coven_home@, executable@, windows) && fault@ == plain(
                "Coven home and executable paths must be absolute"@,
            ),
        },
{
    if !path_is_absolute(coven_home, windows) || !path_is_absolute(executable, windows) {
        return Err(Fault::plain("Coven home and executable paths must be absolute"));
    }
    Ok(
        Registration {
            schema_version: SCHEMA_VERSION,
            task_name: task_name(coven_home, windows),
            coven_home: coven_home.to_owned(),
            executable_path: executable.to_owned(),
        },
    )
}

/// A registration as it was found.
#[derive(Debug)]
pub enum RegistrationFile {
    Unreadable(String),
    Invalid(String),
    Found(Registration),
}

/// What is wrong with a registration as it was found.
pub open spec fn registration_fault(
    path: Seq<char>,
    file: RegistrationFile,
    windows: bool,
) -> Option<FaultView> {
    match file {
        RegistrationFile::Unreadable(error) => Some(
            caused("failed to read autostart registration "@ + path, error@),
        ),
        RegistrationFile::Invalid(error) => Some(
            caused("invalid autostart registration "@ + path, error@),
        ),
        RegistrationFile::Found(registration) => if registration.schema_version
            != SCHEMA_VERSION {
            Some(
                plain(
                    "unsupported autostart registration schema "@ + decimal(
                        registration.schema_version as nat,
                    ),
                ),
            )
        } else if registration.task_name@ != task_name_of(registration.coven_home@, windows) {
            Some(plain("autostart registration task name does not match its Coven home"@))
        } else {
            None
        },
    }
}

/// A registration as it was found, where nothing is wrong with it.
pub fn load_registration(path: &str, file: RegistrationFile, windows: bool) -> (loaded: Result<
    Registration,
    Fault,
>)
    ensures
        match loaded {
            Ok(registration) => registration_fault(path@, file, windows) is None && file
                == RegistrationFile::Found(registration),
            Err(fault) => registration_fault(path@, file, windows) == Some(fault@),
        },
{
    match file {
        RegistrationFile::Unreadable(error) => Err(
            Fault::caused(
                joined("failed to read autostart registration ", path).as_str(),
                error.as_str(),
            ),
        ),
        RegistrationFile::Invalid(error) => Err(
            Fault::caused(
                joined("invalid autostart registration ", path).as_str(),
                error.as_str(),
            ),
        ),
        RegistrationFile::Found(registration) => {
            if registration.schema_version != SCHEMA_VERSION {
                return Err(
                    Fault::plain(
                        joined(
                            "unsupported autostart registration schema ",
                            decimal_text(registration.schema_version as u64).as_str(),
                        ).as_str(),
                    ),
                );
            }
            let expected = task_name(registration.coven_home.as_str(), windows);
            if !same_text(registration.task_name.as_str(), expected.as_str()) {
                return Err(
                    Fault::plain(
                        "autostart registration task name does not match its Coven home",
                    ),
                );
            }
            Ok(registration)
        },
    }
}

/// The registration that is made for a home is one that is found to be in order.
pub proof fn made_registrations_load(
    path: Seq<char>,
    registration: Registration,
    coven_home: Seq<char>,
    executable: Seq<char>,
    windows: bool,
)
    requires
        registers(registration, coven_home, executable, windows),
    ensures
        registration_fault(path, RegistrationFile::Found(registration), windows) is None,
{
}

/// The home that a scheduled run serves: the one of its registration, and no other.
pub fn run_foreground(path: &str, file: RegistrationFile, windows: bool) -> (home: Result<
    String,
    Fault,
>)
    ensures
        match home {
            Ok(home) => registration_fault(path@, file, windows) is None && (file matches
                RegistrationFile::Found(registration) && home == registration.coven_home),
            Err(fault) => registration_fault(path@, file, windows) == Some(fault@),
        },
{
    match load_registration(path, file, windows) {
        Ok(registration) => Ok(registration.coven_home),
        Err(fault) => Err(fault),
    }
}

/// Whether a character ends or breaks an argument that is not quoted.
pub open spec fn breaks_argument(c: char) -> bool {
    c == ' ' || c == '\t' || c == '\n' || c == '\u{b}' || c == '"'
}

/// Whether an argument can stand without quotes.
pub open spec fn is_plain_argument(value: Seq<char>) -> bool {
    value.len() > 0 && forall|i: int|
        0 <= i < value.len() ==> !breaks_argument(#[trigger] value[i])
}

/// A number of backslashes.
pub open spec fn slashes(count: nat) -> Seq<char> {
    Seq::new(count, |i: int| '\\')
}

/// The inside of a quoted argument, after a number of backslashes that were not written yet:
/// those before a quote are doubled, the quote is escaped.
pub open spec fn quoted_inside(value: Seq<char>, pending: nat) -> Seq<char>
    decreases value.len(),
{
    if value.len() == 0 {
        slashes(pending * 2)
    } else if value[0] == '\\' {
        quoted_inside(value.skip(1), pending + 1)
    } else if value[0] == '"' {
        slashes(pending * 2 + 1) + seq!['"'] + quoted_inside(value.skip(1), 0)
    } else {
        slashes(pending) + seq![value[0]] + quoted_inside(value.skip(1), 0)
    }
}

/// An argument, quoted where it must be.
pub open spec fn quoted(value: Seq<char>) -> Seq<char> {
    if is_plain_argument(value) {
        value
    } else {
        seq!['"'] + quoted_inside(value, 0) + seq!['"']
    }
}

fn push_slashes(out: &mut Vec<char>, count: usize)
    ensures
        final(out)@ == old(out)@ + slashes(count as nat),
{
    let mut i: usize = 0;
    assert(out@ =~= old(out)@ + slashes(0));
    while i < count
        invariant
            i <= count,
            out@ == old(out)@ + slashes(i as nat),
        decreases count - i,
    {
        out.push('\\');
        i += 1;
        assert(out@ =~= old(out)@ + slashes(i as nat));
    }
}

/// An argument for a Windows command line, quoted so that the program gets it as it is.
pub fn quote_windows_arg(value: &str) -> (argument: String)
    ensures
        argument@ == quoted(value@),
{
    let chars = chars_of(value);
    let mut is_plain = chars.len() > 0;
    let mut at: usize = 0;
    while at < chars.len()
        invariant
            at <= chars@.len(),
            chars@ == value@,
            is_plain == (chars@.len() > 0 && forall|k: int|
                0 <= k < at ==> !breaks_argument(#[trigger] value@[k])),
        decreases chars@.len() - at,
    {
        let c = chars[at];
        if c == ' ' || c == '\t' || c == '\n' || c == '\u{b}' || c == '"' {
            assert(breaks_argument(value@[at as int]));
            is_plain = false;
        }
        at += 1;
    }
    if is_plain {
        return value.to_owned();
    }
    let mut out: Vec<char> = Vec::new();
    out.push('"');
    let mut pending: usize = 0;
    let mut i: usize = 0;
    let ghost whole = seq!['"'] + quoted_inside(value@, 0);
    assert(value@.skip(0) =~= value@);
    assert(out@ =~= seq!['"']);
    while i < chars.len()
        invariant
            i <= chars@.len(),
            chars@ == value@,
            pending <= i,
            out@ + quoted_inside(value@.skip(i as int), pending as nat) == whole,
        decreases chars@.len() - i,
    {
        let c = chars[i];
        let ghost rest = value@.skip(i as int);
        let ghost before = out@;
        assert(rest[0] == c);
        assert(rest.skip(1) =~= value@.skip(i as int + 1));
        if c == '\\' {
            pending += 1;
        } else if c == '"' {
            push_slashes(&mut out, pending);
            push_slashes(&mut out, pending);
            out.push('\\');
            out.push('"');
            assert(out@ + quoted_inside(rest.skip(1), 0) =~= before + quoted_inside(
                rest,
                pending as nat,
            ));
            pending = 0;
        } else {
            push_slashes(&mut out, pending);
            out.push(c);
            assert(out@ + quoted_inside(rest.skip(1), 0) =~= before + quoted_inside(
                rest,
                pending as nat,
            ));
            pending = 0;
        }
        i += 1;
    }
    assert(value@.skip(i as int).len() == 0);
    push_slashes(&mut out, pending);
    push_slashes(&mut out, pending);
    out.push('"');
    assert(out@ =~= whole + seq!['"']);
    text_of(out.as_slice())
}

/// The first argument of a command line, as Windows programs read it, from inside or outside
/// of quotes and after a number of backslashes. Before a quote, two backslashes stand for
/// one, and one that is left over makes the quote a part of the argument; elsewhere a
/// backslash stands for itself. A space or a tab outside of quotes ends the argument.
pub open spec fn read_argument(line: Seq<char>, inside_quotes: bool, pending: nat) -> Seq<char>
    decreases line.len(),
{
    if line.len() == 0 {
        slashes(pending)
    } else if line[0] == '\\' {
        read_argument(line.skip(1), inside_quotes, pending + 1)
    } else if line[0] == '"' {
        if pending % 2 == 0 {
            slashes(pending / 2) + read_argument(line.skip(1), !inside_quotes, 0)
        } else {
            slashes(pending / 2) + seq!['"'] + read_argument(line.skip(1), inside_quotes, 0)
        }
    } else if !inside_quotes && (line[0] == ' ' || line[0] == '\t') {
        slashes(pending)
    } else {
        slashes(pending) + seq![line[0]] + read_argument(line.skip(1), inside_quotes, 0)
    }
}

/// An argument that was quoted is read back as it was, whatever arguments follow it.
pub proof fn quoted_arguments_read_back(value: Seq<char>, following: Seq<char>)
    requires
        following.len() == 0 || following[0] == ' ',
    ensures
        read_argument(quoted(value) + following, false, 0) == value,
{
    if is_plain_argument(value) {
        plain_reads_back(value, following, 0);
        assert(slashes(0) + value =~= value);
    } else {
        let line = quoted(value) + following;
        let inner = quoted_inside(value, 0) + seq!['"'] + following;
        assert(line[0] == '"');
        assert(line.skip(1) =~= inner);
        inside_reads_back(value, following, 0);
        assert(slashes(0) + value =~= value);
        assert(slashes(0) + read_argument(inner, true, 0) =~= value);
    }
}

proof fn end_reads(following: Seq<char>)
    requires
        following.len() == 0 || following[0] == ' ',
    ensures
        read_argument(following, false, 0) == Seq::<char>::empty(),
{
    assert(slashes(0) =~= Seq::<char>::empty());
}

proof fn plain_reads_back(value: Seq<char>, following: Seq<char>, pending: nat)
    requires
        forall|i: int| 0 <= i < value.len() ==> !breaks_argument(#[trigger] value[i]),
        following.len() == 0 || following[0] == ' ',
    ensures
        read_argument(value + following, false, pending) == slashes(pending) + value,
    decreases value.len(),
{
    let line = value + following;
    if value.len() == 0 {
        assert(line =~= following);
        assert(slashes(pending) + value =~= slashes(pending));
    } else {
        let rest = value.skip(1);
        assert(line.skip(1) =~= rest + following);
        assert(line[0] == value[0]);
        assert(!breaks_argument(value[0]));
        assert forall|i: int| 0 <= i < rest.len() implies !breaks_argument(#[trigger] rest[i]) by {
            assert(rest[i] == value[i + 1]);
        }
        if value[0] == '\\' {
            plain_reads_back(rest, following, pending + 1);
            assert(slashes(pending + 1) + rest =~= slashes(pending) + value);
        } else {
            plain_reads_back(rest, following, 0);
            assert(slashes(pending) + seq![value[0]] + (slashes(0) + rest) =~= slashes(pending)
                + value);
        }
    }
}

proof fn slashes_read(count: nat, pending: nat, rest: Seq<char>, inside_quotes: bool)
    ensures
        read_argument(slashes(count) + rest, inside_quotes, pending) == read_argument(
            rest,
            inside_quotes,
            pending + count,
        ),
    decreases count,
{
    let line = slashes(count) + rest;
    if count == 0 {
        assert(line =~= rest);
    } else {
        assert(line[0] == '\\');
        assert(line.skip(1) =~= slashes((count - 1) as nat) + rest);
        slashes_read((count - 1) as nat, pending + 1, rest, inside_quotes);
    }
}

proof fn inside_reads_back(value: Seq<char>, following: Seq<char>, pending: nat)
    requires
        following.len() == 0 || following[0] == ' ',
    ensures
        read_argument(quoted_inside(value, pending) + seq!['"'] + following, true, 0) == slashes(
            pending,
        ) + value,
    decreases value.len(),
{
    let line = quoted_inside(value, pending) + seq!['"'] + following;
    if value.len() == 0 {
        let rest = seq!['"'] + following;
        assert(line =~= slashes(pending * 2) + rest);
        slashes_read(pending * 2, 0, rest, true);
        assert(rest[0] == '"');
        assert(rest.skip(1) =~= following);
        end_reads(following);
        assert((pending * 2) % 2 == 0 && (pending * 2) / 2 == pending);
        assert(slashes(pending) + Seq::<char>::empty() =~= slashes(pending) + value);
    } else {
        let after = value.skip(1);
        if value[0] == '\\' {
            inside_reads_back(after, following, pending + 1);
            assert(slashes(pending + 1) + after =~= slashes(pending) + value);
        } else if value[0] == '"' {
            let tail = quoted_inside(after, 0) + seq!['"'] + following;
            let rest = seq!['"'] + tail;
            assert(line =~= slashes(pending * 2 + 1) + rest);
            slashes_read(pending * 2 + 1, 0, rest, true);
            assert(rest[0] == '"');
            assert(rest.skip(1) =~= tail);
            inside_reads_back(after, following, 0);
            assert((pending * 2 + 1) % 2 == 1 && (pending * 2 + 1) / 2 == pending);
            assert(slashes(pending) + seq!['"'] + (slashes(0) + after) =~= slashes(pending)
                + value);
        } else {
            let tail = quoted_inside(after, 0) + seq!['"'] + following;
            let rest = seq![value[0]] + tail;
            assert(line =~= slashes(pending) + rest);
            slashes_read(pending, 0, rest, true);
            assert(rest[0] == value[0]);
            assert(rest.skip(1) =~= tail);
            inside_reads_back(after, following, 0);
            assert(slashes(pending) + seq![value[0]] + (slashes(0) + after) =~= slashes(pending)
                + value);
        }
    }
}

/// How a character stands in XML.
pub open spec fn xml_entity(c: char) -> Seq<char> {
    if c == '&' {
        "&amp;"@
    } else if c == '<' {
        "&lt;"@
    } else if c == '>' {
        "&gt;"@
    } else if c == '"' {
        "&quot;"@
    } else if c == '\'' {
        "&apos;"@
    } else {
        seq![c]
    }
}

/// A text as it stands in XML.
pub open spec fn xml_escaped(text: Seq<char>) -> Seq<char> {
    expanded(text, |c: char| xml_entity(c))
}

/// A text as it stands in XML.
pub fn xml_escape(text: &str) -> (escaped: String)
    ensures
        escaped@ == xml_escaped(text@),
{
    let chars = chars_of(text);
    let mut out: String = "".to_owned();
    let mut i: usize = 0;
    let ghost entity = |c: char| xml_entity(c);
    proof {
        reveal_strlit("");
        assert(out@ =~= expanded(chars@.take(0), entity));
    }
    while i < chars.len()
        invariant
            i <= chars@.len(),
            entity == (|c: char| xml_entity(c)),
            out@ == expanded(chars@.take(i as int), entity),
        decreases chars@.len() - i,
    {
        let c = chars[i];
        let ghost before = out@;
        assert(chars@.take(i as int + 1).drop_last() =~= chars@.take(i as int));
        if c == '&' {
            out = joined(out.as_str(), "&amp;");
        } else if c == '<' {
            out = joined(out.as_str(), "&lt;");
        } else if c == '>' {
            out = joined(out.as_str(), "&gt;");
        } else if c == '"' {
            out = joined(out.as_str(), "&quot;");
        } else if c == '\'' {
            out = joined(out.as_str(), "&apos;");
        } else {
            out.push(c);
        }
        assert(out@ =~= before + xml_entity(c));
        i += 1;
    }
    assert(chars@.take(i as int) =~= text@);
    out
}

/// What stands in XML holds no mark of its own.
pub proof fn escaped_text_has_no_marks(text: Seq<char>, at: int)
    requires
        0 <= at < xml_escaped(text).len(),
    ensures
        xml_escaped(text)[at] != '<',
        xml_escaped(text)[at] != '>',
        xml_escaped(text)[at] != '"',
        xml_escaped(text)[at] != '\'',
    decreases text.len(),
{
    reveal_strlit("&amp;");
    reveal_strlit("&lt;");
    reveal_strlit("&gt;");
    reveal_strlit("&quot;");
    reveal_strlit("&apos;");
    if text.len() > 0 {
        let earlier = xml_escaped(text.drop_last());
        if at < earlier.len() {
            escaped_text_has_no_marks(text.drop_last(), at);
        } else {
            assert(xml_escaped(text)[at] == xml_entity(text.last())[at - earlier.len()]);
        }
    }
}

/// What stands in XML for two texts in a row is what stands for the one and then for the
/// other.
pub proof fn escaping_goes_piece_by_piece(first: Seq<char>, second: Seq<char>)
    ensures
        xml_escaped(first + second) == xml_escaped(first) + xml_escaped(second),
    decreases second.len(),
{
    if second.len() == 0 {
        assert(first + second =~= first);
        assert(xml_escaped(first) + xml_escaped(second) =~= xml_escaped(first));
    } else {
        let whole = first + second;
        assert(whole.drop_last() =~= first + second.drop_last());
        escaping_goes_piece_by_piece(first, second.drop_last());
        assert(whole.last() == second.last());
        assert(xml_escaped(whole) =~= xml_escaped(first) + xml_escaped(second));
    }
}

/// The text that stands in XML in the form of another: each entity is read as the character
/// that it stands for, every other character as itself.
pub open spec fn xml_read(text: Seq<char>) -> Seq<char>
    decreases text.len(),
{
    proof {
        reveal_strlit("&amp;");
        reveal_strlit("&lt;");
        reveal_strlit("&gt;");
        reveal_strlit("&quot;");
        reveal_strlit("&apos;");
    }
    if text.len() == 0 {
        text
    } else if "&amp;"@.is_prefix_of(text) {
        seq!['&'] + xml_read(text.skip("&amp;"@.len() as int))
    } else if "&lt;"@.is_prefix_of(text) {
        seq!['<'] + xml_read(text.skip("&lt;"@.len() as int))
    } else if "&gt;"@.is_prefix_of(text) {
        seq!['>'] + xml_read(text.skip("&gt;"@.len() as int))
    } else if "&quot;"@.is_prefix_of(text) {
        seq!['"'] + xml_read(text.skip("&quot;"@.len() as int))
    } else if "&apos;"@.is_prefix_of(text) {
        seq!['\''] + xml_read(text.skip("&apos;"@.len() as int))
    } else {
        seq![text[0]] + xml_read(text.skip(1))
    }
}

proof fn entity_reads_back(c: char, rest: Seq<char>)
    ensures
        xml_read(xml_entity(c) + rest) == seq![c] + xml_read(rest),
{
    reveal_strlit("&amp;");
    reveal_strlit("&lt;");
    reveal_strlit("&gt;");
    reveal_strlit("&quot;");
    reveal_strlit("&apos;");
    let entity = xml_entity(c);
    let text = entity + rest;
    assert(text.skip(entity.len() as int) =~= rest);
    assert(text.subrange(0, entity.len() as int) =~= entity);
    assert(entity.is_prefix_of(text));
    assert forall|i: int| 0 <= i < entity.len() implies #[trigger] text[i] == entity[i] by {}
    if c == '&' || c == '<' || c == '>' || c == '"' || c == '\'' {
        assert(text[1] == entity[1]);
        assert(text[2] == entity[2]);
    } else {
        assert(text[0] == c);
    }
}

/// What was put into XML is read back as it was.
pub proof fn escaped_text_reads_back(text: Seq<char>)
    ensures
        xml_read(xml_escaped(text)) == text,
    decreases text.len(),
{
    if text.len() > 0 {
        let first = seq![text[0]];
        let rest = text.skip(1);
        assert(first + rest =~= text);
        escaping_goes_piece_by_piece(first, rest);
        reveal_with_fuel(expanded, 2);
        assert(first.drop_last() =~= seq![]);
        assert(first.last() == text[0]);
        assert(xml_escaped(first) =~= xml_entity(text[0]));
        escaped_text_reads_back(rest);
        entity_reads_back(text[0], xml_escaped(rest));
    }
}

/// The arguments of the task, as they are quoted on its command line.
pub open spec fn task_arguments(registration_file: Seq<char>) -> Seq<char> {
    join_with(
        seq![
            quoted("executor"@),
            quoted("autostart"@),
            quoted("run"@),
            quoted("--registration"@),
            quoted(registration_file),
        ],
        " "@,
    )
}

fn arguments_text(registration_file: &str) -> (arguments: String)
    ensures
        arguments@ == task_arguments(registration_file@),
{
    let mut list: Vec<String> = Vec::new();
    list.push(quote_windows_arg("executor"));
    list.push(quote_windows_arg("autostart"));
    list.push(quote_windows_arg("run"));
    list.push(quote_windows_arg("--registration"));
    list.push(quote_windows_arg(registration_file));
    assert(views(list@) =~= seq![
        quoted("executor"@),
        quoted("autostart"@),
        quoted("run"@),
        quoted("--registration"@),
        quoted(registration_file@),
    ]);
    join_texts(list.as_slice(), " ")
}

/// The definition of a task, up to the first name of its user.
pub const XML_TRIGGER: &'static str = "<?xml version=\"1.0\" encoding=\"UTF-16\"?>\n<Task version=\"1.4\" xmlns=\"http://schemas.microsoft.com/windows/2004/02/mit/task\">\n  <Triggers><LogonTrigger><Enabled>true</Enabled><UserId>";

/// The definition of a task, between the two names of its user.
pub const XML_PRINCIPAL: &'static str = "</UserId></LogonTrigger></Triggers>\n  <Principals><Principal id=\"Author\"><UserId>";

/// The definition of a task, behind the second name of its user.
pub const XML_PRINCIPAL_END: &'static str = "</UserId>";

/// The task runs in the session of its user.
pub const XML_LOGON: &'static str = "<LogonType>InteractiveToken</LogonType>";

/// The task runs with the least privilege.
pub const XML_PRIVILEGE: &'static str = "<RunLevel>LeastPrivilege</RunLevel>";

/// The definition of a task, from its user to its settings.
pub const XML_SETTINGS: &'static str = "</Principal></Principals>\n  <Settings>";

/// The task runs once at a time.
pub const XML_INSTANCES: &'static str = "<MultipleInstancesPolicy>IgnoreNew</MultipleInstancesPolicy>";

/// The task runs on batteries, and as soon as it can.
pub const XML_CONDITIONS: &'static str = "<DisallowStartIfOnBatteries>false</DisallowStartIfOnBatteries><StopIfGoingOnBatteries>false</StopIfGoingOnBatteries><StartWhenAvailable>true</StartWhenAvailable><AllowStartOnDemand>true</AllowStartOnDemand>";

/// The task runs without a limit of time.
pub const XML_LIMIT: &'static str = "<ExecutionTimeLimit>PT0S</ExecutionTimeLimit>";

/// The task runs again after a failure.
pub const XML_RESTART: &'static str = "<RestartOnFailure>";

/// How often and how soon the task runs again, up to its program.
pub const XML_ACTION: &'static str = "<Interval>PT10S</Interval><Count>999</Count></RestartOnFailure></Settings>\n  <Actions Context=\"Author\"><Exec>";

/// The end of the definition of a task.
pub const XML_END: &'static str = "</Exec></Actions>\n</Task>";

/// The program of a task.
pub open spec fn command_element(executable: Seq<char>) -> Seq<char> {
    "<Command>"@ + xml_escaped(executable) + "</Command>"@
}

/// The arguments of a task.
pub open spec fn arguments_element(registration_file: Seq<char>) -> Seq<char> {
    "<Arguments>"@ + xml_escaped(task_arguments(registration_file)) + "</Arguments>"@
}

fn command_xml(executable: &str) -> (element: String)
    ensures
        element@ == command_element(executable@),
{
    joined(joined("<Command>", xml_escape(executable).as_str()).as_str(), "</Command>")
}

fn arguments_xml(registration_file: &str) -> (element: String)
    ensures
        element@ == arguments_element(registration_file@),
{
    let escaped = xml_escape(arguments_text(registration_file).as_str());
    joined(joined("<Arguments>", escaped.as_str()).as_str(), "</Arguments>")
}

/// The definition of a task, up to its settings.
pub open spec fn principal_part(user_id: Seq<char>) -> Seq<char> {
    XML_TRIGGER@ + xml_escaped(user_id) + XML_PRINCIPAL@ + xml_escaped(user_id)
        + XML_PRINCIPAL_END@ + XML_LOGON@ + XML_PRIVILEGE@
}

/// The settings of a task.
pub open spec fn settings_part() -> Seq<char> {
    XML_SETTINGS@ + XML_INSTANCES@ + XML_CONDITIONS@ + XML_LIMIT@ + XML_RESTART@ + XML_ACTION@
}

/// The definition of the task that runs a registered executor for a user.
pub open spec fn task_definition(
    executable: Seq<char>,
    registration_file: Seq<char>,
    user_id: Seq<char>,
) -> Seq<char> {
    principal_part(user_id) + settings_part() + command_element(executable) + arguments_element(
        registration_file,
    ) + XML_END@
}

fn settings_text() -> (text: String)
    ensures
        text@ == settings_part(),
{
    let text = joined(XML_SETTINGS, XML_INSTANCES);
    let text = joined(text.as_str(), XML_CONDITIONS);
    let text = joined(text.as_str(), XML_LIMIT);
    let text = joined(text.as_str(), XML_RESTART);
    joined(text.as_str(), XML_ACTION)
}

/// The definition of the task that runs a registered executor for a user. It names the
/// program, the registration and the user, and nothing else of the home.
pub fn task_xml(registration: &Registration, registration_file: &str, user_id: &str) -> (xml: String)
    ensures
        xml@ == task_definition(registration.executable_path@, registration_file@, user_id@),
{
    let user = xml_escape(user_id);
    let xml = joined(XML_TRIGGER, user.as_str());
    let xml = joined(xml.as_str(), XML_PRINCIPAL);
    let xml = joined(xml.as_str(), user.as_str());
    let xml = joined(xml.as_str(), XML_PRINCIPAL_END);
    let xml = joined(xml.as_str(), XML_LOGON);
    let xml = joined(xml.as_str(), XML_PRIVILEGE);
    let xml = joined(xml.as_str(), settings_text().as_str());
    let xml = joined(xml.as_str(), command_xml(registration.executable_path.as_str()).as_str());
    let xml = joined(xml.as_str(), arguments_xml(registration_file).as_str());
    joined(xml.as_str(), XML_END)
}

/// Whether the definition of a task, in whatever form it is handed back, runs a registered
/// executor as it is meant to.
pub open spec fn defines(
    actual: Seq<char>,
    executable: Seq<char>,
    registration_file: Seq<char>,
) -> bool {
    &&& holds_text(actual, command_element(executable))
    &&& holds_text(actual, arguments_element(registration_file))
    &&& holds_text(actual, XML_LOGON@)
    &&& holds_text(actual, XML_PRIVILEGE@)
    &&& holds_text(actual, XML_INSTANCES@)
    &&& holds_text(actual, XML_LIMIT@)
    &&& holds_text(actual, XML_RESTART@)
}

proof fn part_is_held(whole: Seq<char>, front: Seq<char>, part: Seq<char>, back: Seq<char>)
    requires
        whole == front + part + back,
    ensures
        holds_text(whole, part),
{
    assert(whole.subrange(front.len() as int, (front.len() + part.len()) as int) =~= part);
    assert(stands_at(whole, part, front.len() as int));
}

/// The definition that is made for a registration is one that runs it as it is meant to, so
/// that installing it again leaves it as it is.
pub proof fn own_definition_is_kept(
    executable: Seq<char>,
    registration_file: Seq<char>,
    user_id: Seq<char>,
)
    ensures
        defines(
            task_definition(executable, registration_file, user_id),
            executable,
            registration_file,
        ),
{
    let whole = task_definition(executable, registration_file, user_id);
    let principal = principal_part(user_id);
    let user = XML_TRIGGER@ + xml_escaped(user_id) + XML_PRINCIPAL@ + xml_escaped(user_id)
        + XML_PRINCIPAL_END@;
    let settings = settings_part();
    let command = command_element(executable);
    let arguments = arguments_element(registration_file);
    let actions = command + arguments + XML_END@;
    assert(whole =~= (principal + settings) + command + (arguments + XML_END@));
    part_is_held(whole, principal + settings, command, arguments + XML_END@);
    assert(whole =~= (principal + settings + command) + arguments + XML_END@);
    part_is_held(whole, principal + settings + command, arguments, XML_END@);
    assert(whole =~= user + XML_LOGON@ + (XML_PRIVILEGE@ + settings + actions));
    part_is_held(whole, user, XML_LOGON@, XML_PRIVILEGE@ + settings + actions);
    assert(whole =~= (user + XML_LOGON@) + XML_PRIVILEGE@ + (settings + actions));
    part_is_held(whole, user + XML_LOGON@, XML_PRIVILEGE@, settings + actions);
    let after_instances = XML_CONDITIONS@ + XML_LIMIT@ + XML_RESTART@ + XML_ACTION@ + actions;
    assert(whole =~= (principal + XML_SETTINGS@) + XML_INSTANCES@ + after_instances);
    part_is_held(whole, principal + XML_SETTINGS@, XML_INSTANCES@, after_instances);
    let before_limit = principal + XML_SETTINGS@ + XML_INSTANCES@ + XML_CONDITIONS@;
    assert(whole =~= before_limit + XML_LIMIT@ + (XML_RESTART@ + XML_ACTION@ + actions));
    part_is_held(whole, before_limit, XML_LIMIT@, XML_RESTART@ + XML_ACTION@ + actions);
    assert(whole =~= (before_limit + XML_LIMIT@) + XML_RESTART@ + (XML_ACTION@ + actions));
    part_is_held(whole, before_limit + XML_LIMIT@, XML_RESTART@, XML_ACTION@ + actions);
}

/// Whether a place of a text is no beginning of the program or of the arguments of a task:
/// where an element begins there, it is another one, and goes on within the text.
pub open spec fn is_other_place(text: Seq<char>, at: int) -> bool {
    text[at] == '<' ==> at + 3 < text.len() && !(text[at + 1] == 'C' && text[at + 2] == 'o'
        && text[at + 3] == 'm') && !(text[at + 1] == 'A' && text[at + 2] == 'r')
}

/// Whether neither the program nor the arguments of a task begin in a text.
pub open spec fn holds_other(text: Seq<char>) -> bool {
    forall|at: int| 0 <= at < text.len() ==> #[trigger] is_other_place(text, at)
}

/// Whether neither begins in the first places of a text.
pub open spec fn other_up_to(text: Seq<char>, count: nat) -> bool
    decreases count,
{
    count == 0 || (is_other_place(text, count - 1) && other_up_to(text, (count - 1) as nat))
}

proof fn other_everywhere(text: Seq<char>, count: nat, at: int)
    requires
        other_up_to(text, count),
        0 <= at < count,
    ensures
        is_other_place(text, at),
    decreases count,
{
    if at < count - 1 {
        other_everywhere(text, (count - 1) as nat, at);
    }
}

proof fn other_in_all(text: Seq<char>)
    requires
        other_up_to(text, text.len()),
    ensures
        holds_other(text),
{
    assert forall|at: int| 0 <= at < text.len() implies #[trigger] is_other_place(text, at) by {
        other_everywhere(text, text.len(), at);
    }
}

proof fn other_in_both(first: Seq<char>, second: Seq<char>)
    requires
        holds_other(first),
        holds_other(second),
    ensures
        holds_other(first + second),
{
    let whole = first + second;
    assert forall|at: int| 0 <= at < whole.len() implies #[trigger] is_other_place(whole, at) by {
        if at < first.len() {
            assert(is_other_place(first, at));
        } else {
            assert(is_other_place(second, at - first.len()));
        }
    }
}

proof fn other_in_escaped(text: Seq<char>)
    ensures
        holds_other(xml_escaped(text)),
{
    let escaped = xml_escaped(text);
    assert forall|at: int| 0 <= at < escaped.len() implies #[trigger] is_other_place(escaped, at) by {
        escaped_text_has_no_marks(text, at);
    }
}

proof fn trigger_is_other()
    ensures
        holds_other(XML_TRIGGER@),
{
    reveal_strlit(
        "<?xml version=\"1.0\" encoding=\"UTF-16\"?>\n<Task version=\"1.4\" xmlns=\"http://schemas.microsoft.com/windows/2004/02/mit/task\">\n  <Triggers><LogonTrigger><Enabled>true</Enabled><UserId>",
    );
    assert(XML_TRIGGER@.len() == 180);
    assert(other_up_to(XML_TRIGGER@, 60)) by {
        reveal_with_fuel(other_up_to, 61);
    }
    assert(other_up_to(XML_TRIGGER@, 120)) by {
        reveal_with_fuel(other_up_to, 61);
    }
    assert(other_up_to(XML_TRIGGER@, 180)) by {
        reveal_with_fuel(other_up_to, 61);
    }
    other_in_all(XML_TRIGGER@);
}

proof fn principal_is_other()
    ensures
        holds_other(XML_PRINCIPAL@),
{
    reveal_strlit(
        "</UserId></LogonTrigger></Triggers>\n  <Principals><Principal id=\"Author\"><UserId>",
    );
    assert(XML_PRINCIPAL@.len() == 81);
    assert(other_up_to(XML_PRINCIPAL@, 81)) by {
        reveal_with_fuel(other_up_to, 82);
    }
    other_in_all(XML_PRINCIPAL@);
}

proof fn principal_end_is_other()
    ensures
        holds_other(XML_PRINCIPAL_END@),
{
    reveal_strlit(
        "</UserId>",
    );
    assert(XML_PRINCIPAL_END@.len() == 9);
    assert(other_up_to(XML_PRINCIPAL_END@, 9)) by {
        reveal_with_fuel(other_up_to, 10);
    }
    other_in_all(XML_PRINCIPAL_END@);
}

proof fn logon_is_other()
    ensures
        holds_other(XML_LOGON@),
{
    reveal_strlit(
        "<LogonType>InteractiveToken</LogonType>",
    );
    assert(XML_LOGON@.len() == 39);
    assert(other_up_to(XML_LOGON@, 39)) by {
        reveal_with_fuel(other_up_to, 40);
    }
    other_in_all(XML_LOGON@);
}

proof fn privilege_is_other()
    ensures
        holds_other(XML_PRIVILEGE@),
{
    reveal_strlit(
        "<RunLevel>LeastPrivilege</RunLevel>",
    );
    assert(XML_PRIVILEGE@.len() == 35);
    assert(other_up_to(XML_PRIVILEGE@, 35)) by {
        reveal_with_fuel(other_up_to, 36);
    }
    other_in_all(XML_PRIVILEGE@);
}

proof fn settings_is_other()
    ensures
        holds_other(XML_SETTINGS@),
{
    reveal_strlit(
        "</Principal></Principals>\n  <Settings>",
    );
    assert(XML_SETTINGS@.len() == 38);
    assert(other_up_to(XML_SETTINGS@, 38)) by {
        reveal_with_fuel(other_up_to, 39);
    }
    other_in_all(XML_SETTINGS@);
}

proof fn instances_is_other()
    ensures
        holds_other(XML_INSTANCES@),
{
    reveal_strlit(
        "<MultipleInstancesPolicy>IgnoreNew</MultipleInstancesPolicy>",
    );
    assert(XML_INSTANCES@.len() == 60);
    assert(other_up_to(XML_INSTANCES@, 60)) by {
        reveal_with_fuel(other_up_to, 61);
    }
    other_in_all(XML_INSTANCES@);
}

proof fn conditions_is_other()
    ensures
        holds_other(XML_CONDITIONS@),
{
    reveal_strlit(
        "<DisallowStartIfOnBatteries>false</DisallowStartIfOnBatteries><StopIfGoingOnBatteries>false</StopIfGoingOnBatteries><StartWhenAvailable>true</StartWhenAvailable><AllowStartOnDemand>true</AllowStartOnDemand>",
    );
    assert(XML_CONDITIONS@.len() == 206);
    assert(other_up_to(XML_CONDITIONS@, 60)) by {
        reveal_with_fuel(other_up_to, 61);
    }
    assert(other_up_to(XML_CONDITIONS@, 120)) by {
        reveal_with_fuel(other_up_to, 61);
    }
    assert(other_up_to(XML_CONDITIONS@, 180)) by {
        reveal_with_fuel(other_up_to, 61);
    }
    assert(other_up_to(XML_CONDITIONS@, 206)) by {
        reveal_with_fuel(other_up_to, 27);
    }
    other_in_all(XML_CONDITIONS@);
}

proof fn limit_is_other()
    ensures
        holds_other(XML_LIMIT@),
{
    reveal_strlit(
        "<ExecutionTimeLimit>PT0S</ExecutionTimeLimit>",
    );
    assert(XML_LIMIT@.len() == 45);
    assert(other_up_to(XML_LIMIT@, 45)) by {
        reveal_with_fuel(other_up_to, 46);
    }
    other_in_all(XML_LIMIT@);
}

proof fn restart_is_other()
    ensures
        holds_other(XML_RESTART@),
{
    reveal_strlit(
        "<RestartOnFailure>",
    );
    assert(XML_RESTART@.len() == 18);
    assert(other_up_to(XML_RESTART@, 18)) by {
        reveal_with_fuel(other_up_to, 19);
    }
    other_in_all(XML_RESTART@);
}

proof fn action_is_other()
    ensures
        holds_other(XML_ACTION@),
{
    reveal_strlit(
        "<Interval>PT10S</Interval><Count>999</Count></RestartOnFailure></Settings>\n  <Actions Context=\"Author\"><Exec>",
    );
    assert(XML_ACTION@.len() == 109);
    assert(other_up_to(XML_ACTION@, 60)) by {
        reveal_with_fuel(other_up_to, 61);
    }
    assert(other_up_to(XML_ACTION@, 109)) by {
        reveal_with_fuel(other_up_to, 50);
    }
    other_in_all(XML_ACTION@);
}

proof fn end_is_other()
    ensures
        holds_other(XML_END@),
{
    reveal_strlit(
        "</Exec></Actions>\n</Task>",
    );
    assert(XML_END@.len() == 25);
    assert(other_up_to(XML_END@, 25)) by {
        reveal_with_fuel(other_up_to, 26);
    }
    other_in_all(XML_END@);
}

proof fn front_is_other(user_id: Seq<char>)
    ensures
        holds_other(principal_part(user_id) + settings_part()),
{
    let user = xml_escaped(user_id);
    other_in_escaped(user_id);
    trigger_is_other();
    principal_is_other();
    principal_end_is_other();
    logon_is_other();
    privilege_is_other();
    other_in_both(XML_TRIGGER@, user);
    other_in_both(XML_TRIGGER@ + user, XML_PRINCIPAL@);
    other_in_both(XML_TRIGGER@ + user + XML_PRINCIPAL@, user);
    other_in_both(XML_TRIGGER@ + user + XML_PRINCIPAL@ + user, XML_PRINCIPAL_END@);
    let known = XML_TRIGGER@ + user + XML_PRINCIPAL@ + user + XML_PRINCIPAL_END@;
    other_in_both(known, XML_LOGON@);
    other_in_both(known + XML_LOGON@, XML_PRIVILEGE@);
    settings_is_other();
    instances_is_other();
    conditions_is_other();
    limit_is_other();
    restart_is_other();
    action_is_other();
    other_in_both(XML_SETTINGS@, XML_INSTANCES@);
    other_in_both(XML_SETTINGS@ + XML_INSTANCES@, XML_CONDITIONS@);
    let begun = XML_SETTINGS@ + XML_INSTANCES@ + XML_CONDITIONS@;
    other_in_both(begun, XML_LIMIT@);
    other_in_both(begun + XML_LIMIT@, XML_RESTART@);
    other_in_both(begun + XML_LIMIT@ + XML_RESTART@, XML_ACTION@);
    other_in_both(principal_part(user_id), settings_part());
}

/// An element of a task: its opening, its content and its end.
pub open spec fn element(opening: Seq<char>, content: Seq<char>, ending: Seq<char>) -> Seq<char> {
    opening + content + ending
}

/// Where two elements without marks in their content begin at one place of a text, their
/// contents are the same.
proof fn same_place_same_content(
    whole: Seq<char>,
    at: int,
    opening: Seq<char>,
    first: Seq<char>,
    second: Seq<char>,
    ending: Seq<char>,
)
    requires
        stands_at(whole, element(opening, first, ending), at),
        stands_at(whole, element(opening, second, ending), at),
        ending.len() > 0,
        ending[0] == '<',
        forall|i: int| 0 <= i < first.len() ==> #[trigger] first[i] != '<',
        forall|i: int| 0 <= i < second.len() ==> #[trigger] second[i] != '<',
    ensures
        first == second,
{
    let a = element(opening, first, ending);
    let b = element(opening, second, ending);
    let n = opening.len() as int;
    assert forall|i: int| 0 <= i < a.len() implies #[trigger] a[i] == whole[at + i] by {
        assert(whole.subrange(at, at + a.len())[i] == whole[at + i]);
    }
    assert forall|i: int| 0 <= i < b.len() implies #[trigger] b[i] == whole[at + i] by {
        assert(whole.subrange(at, at + b.len())[i] == whole[at + i]);
    }
    if first.len() < second.len() {
        let mark = n + first.len();
        assert(a[mark] == ending[0]);
        assert(b[mark] == second[first.len() as int]);
    }
    if second.len() < first.len() {
        let mark = n + second.len();
        assert(b[mark] == ending[0]);
        assert(a[mark] == first[second.len() as int]);
    }
    assert forall|i: int| 0 <= i < first.len() implies first[i] == second[i] by {
        assert(a[n + i] == first[i]);
        assert(b[n + i] == second[i]);
    }
    assert(first =~= second);
}

proof fn elements_have_marks(executable: Seq<char>, registration_file: Seq<char>)
    ensures
        ({
            let command = command_element(executable);
            let arguments = arguments_element(registration_file);
            &&& command.len() >= 4
            &&& command[0] == '<' && command[1] == 'C' && command[2] == 'o' && command[3] == 'm'
            &&& arguments.len() >= 4
            &&& arguments[0] == '<' && arguments[1] == 'A' && arguments[2] == 'r'
            &&& holds_other(command.skip(1))
            &&& holds_other(arguments.skip(1))
        }),
{
    reveal_strlit("<Command>");
    reveal_strlit("</Command>");
    reveal_strlit("<Arguments>");
    reveal_strlit("</Arguments>");
    let command = command_element(executable);
    let arguments = arguments_element(registration_file);
    let program = xml_escaped(executable);
    let options = xml_escaped(task_arguments(registration_file));
    other_in_escaped(executable);
    other_in_escaped(task_arguments(registration_file));
    assert(command.skip(1) =~= "<Command>"@.skip(1) + program + "</Command>"@);
    assert(holds_other("<Command>"@.skip(1)));
    assert(holds_other("</Command>"@));
    other_in_both("<Command>"@.skip(1), program);
    other_in_both("<Command>"@.skip(1) + program, "</Command>"@);
    assert(arguments.skip(1) =~= "<Arguments>"@.skip(1) + options + "</Arguments>"@);
    assert(holds_other("<Arguments>"@.skip(1)));
    assert(holds_other("</Arguments>"@));
    other_in_both("<Arguments>"@.skip(1), options);
    other_in_both("<Arguments>"@.skip(1) + options, "</Arguments>"@);
}

/// Where the program or the arguments of a task begin in a definition.
proof fn elements_have_one_place(
    executable: Seq<char>,
    registration_file: Seq<char>,
    user_id: Seq<char>,
    at: int,
)
    requires
        0 <= at < task_definition(executable, registration_file, user_id).len(),
        !is_other_place(task_definition(executable, registration_file, user_id), at),
    ensures
        ({
            let front = principal_part(user_id) + settings_part();
            at == front.len() || at == front.len() + command_element(executable).len()
        }),
{
    let whole = task_definition(executable, registration_file, user_id);
    let front = principal_part(user_id) + settings_part();
    let command = command_element(executable);
    let arguments = arguments_element(registration_file);
    front_is_other(user_id);
    elements_have_marks(executable, registration_file);
    end_is_other();
    let second = (front.len() + command.len()) as int;
    if at < front.len() {
        assert(is_other_place(front, at));
    } else if front.len() < at < second {
        let place = at - front.len() - 1;
        assert(is_other_place(command.skip(1), place));
        assert(command.skip(1)[place] == whole[at]);
    } else if at > second {
        let rest = arguments.skip(1) + XML_END@;
        other_in_both(arguments.skip(1), XML_END@);
        let place = at - second - 1;
        assert(whole.skip(second + 1) =~= rest);
        assert(is_other_place(rest, place));
    }
}

/// The definition that is made for a program and a registration runs these, and no others.
pub proof fn definitions_are_told_apart(
    executable: Seq<char>,
    registration_file: Seq<char>,
    user_id: Seq<char>,
    other_executable: Seq<char>,
    other_file: Seq<char>,
)
    ensures
        defines(
            task_definition(executable, registration_file, user_id),
            other_executable,
            other_file,
        ) <==> executable == other_executable && registration_file == other_file,
{
    own_definition_is_kept(executable, registration_file, user_id);
    let whole = task_definition(executable, registration_file, user_id);
    if defines(whole, other_executable, other_file) {
        let front = principal_part(user_id) + settings_part();
        let command = command_element(executable);
        let arguments = arguments_element(registration_file);
        let command_at = choose|at: int| stands_at(whole, command_element(other_executable), at);
        let arguments_at = choose|at: int| stands_at(whole, arguments_element(other_file), at);
        elements_have_marks(other_executable, other_file);
        elements_have_marks(executable, registration_file);
        let sought = command_element(other_executable);
        assert(forall|i: int|
            0 <= i < sought.len() ==> #[trigger] sought[i] == whole.subrange(
                command_at,
                command_at + sought.len(),
            )[i]);
        assert(whole[command_at] == sought[0]);
        assert(whole[command_at + 1] == sought[1]);
        assert(whole[command_at + 2] == sought[2]);
        assert(whole[command_at + 3] == sought[3]);
        assert(!is_other_place(whole, command_at));
        elements_have_one_place(executable, registration_file, user_id, command_at);
        let wanted = arguments_element(other_file);
        assert(forall|i: int|
            0 <= i < wanted.len() ==> #[trigger] wanted[i] == whole.subrange(
                arguments_at,
                arguments_at + wanted.len(),
            )[i]);
        assert(whole[arguments_at] == wanted[0]);
        assert(whole[arguments_at + 1] == wanted[1]);
        assert(whole[arguments_at + 2] == wanted[2]);
        assert(!is_other_place(whole, arguments_at));
        elements_have_one_place(executable, registration_file, user_id, arguments_at);
        let second = (front.len() + command.len()) as int;
        assert(whole[front.len() as int + 1] == command[1]);
        assert(whole[second + 1] == arguments[1]);
        assert(command_at == front.len());
        assert(arguments_at == second);
        assert(whole.subrange(command_at, command_at + command.len()) =~= command);
        assert(whole.subrange(arguments_at, arguments_at + arguments.len()) =~= arguments);
        escaped_has_no_openings(executable);
        escaped_has_no_openings(other_executable);
        escaped_has_no_openings(task_arguments(registration_file));
        escaped_has_no_openings(task_arguments(other_file));
        reveal_strlit("</Command>");
        reveal_strlit("</Arguments>");
        same_place_same_content(
            whole,
            command_at,
            "<Command>"@,
            xml_escaped(executable),
            xml_escaped(other_executable),
            "</Command>"@,
        );
        escaped_text_reads_back(executable);
        escaped_text_reads_back(other_executable);
        same_place_same_content(
            whole,
            arguments_at,
            "<Arguments>"@,
            xml_escaped(task_arguments(registration_file)),
            xml_escaped(task_arguments(other_file)),
            "</Arguments>"@,
        );
        escaped_text_reads_back(task_arguments(registration_file));
        escaped_text_reads_back(task_arguments(other_file));
        same_arguments_same_file(registration_file, other_file);
    }
}

proof fn escaped_has_no_openings(text: Seq<char>)
    ensures
        forall|i: int| 0 <= i < xml_escaped(text).len() ==> #[trigger] xml_escaped(text)[i] != '<',
{
    assert forall|i: int| 0 <= i < xml_escaped(text).len() implies #[trigger] xml_escaped(text)[i]
        != '<' by {
        escaped_text_has_no_marks(text, i);
    }
}

proof fn same_arguments_same_file(first: Seq<char>, second: Seq<char>)
    requires
        task_arguments(first) == task_arguments(second),
    ensures
        first == second,
{
    let words = seq![
        quoted("executor"@),
        quoted("autostart"@),
        quoted("run"@),
        quoted("--registration"@),
    ];
    let front = join_with(words, " "@) + " "@;
    assert(words.push(quoted(first)).drop_last() =~= words);
    assert(words.push(quoted(second)).drop_last() =~= words);
    assert(task_arguments(first) =~= front + quoted(first)) by {
        assert(words.push(quoted(first)) =~= seq![
            quoted("executor"@),
            quoted("autostart"@),
            quoted("run"@),
            quoted("--registration"@),
            quoted(first),
        ]);
    }
    assert(task_arguments(second) =~= front + quoted(second)) by {
        assert(words.push(quoted(second)) =~= seq![
            quoted("executor"@),
            quoted("autostart"@),
            quoted("run"@),
            quoted("--registration"@),
            quoted(second),
        ]);
    }
    let n = front.len() as int;
    assert((front + quoted(first)).skip(n) =~= quoted(first));
    assert((front + quoted(second)).skip(n) =~= quoted(second));
    quoted_arguments_read_back(first, seq![]);
    quoted_arguments_read_back(second, seq![]);
    assert(quoted(first) + seq![] =~= quoted(first));
    assert(quoted(second) + seq![] =~= quoted(second));
}

/// Whether the definition of a task runs a registered executor as it is meant to.
pub fn definition_matches(actual: &str, registration: &Registration, registration_file: &str) -> (matches:
    bool)
    ensures
        matches == defines(actual@, registration.executable_path@, registration_file@),
{
    let command = command_xml(registration.executable_path.as_str());
    let arguments = arguments_xml(registration_file);
    contains_text(actual, command.as_str()) && contains_text(actual, arguments.as_str())
        && contains_text(actual, XML_LOGON) && contains_text(actual, XML_PRIVILEGE)
        && contains_text(actual, XML_INSTANCES) && contains_text(actual, XML_LIMIT)
        && contains_text(actual, XML_RESTART)
}

proof fn only_backslashes_go(text: Seq<char>)
    ensures
        without_trailing(text).is_prefix_of(text),
        without_trailing(text).len() > 0 ==> without_trailing(text).last() != '\\',
        forall|i: int| without_trailing(text).len() <= i < text.len() ==> #[trigger] text[i] == '\\',
    decreases text.len(),
{
    if text.len() > 0 && text.last() == '\\' {
        only_backslashes_go(text.drop_last());
        let kept = without_trailing(text);
        assert(kept =~= text.subrange(0, kept.len() as int)) by {
            assert(kept =~= text.drop_last().subrange(0, kept.len() as int));
        }
        assert forall|i: int| kept.len() <= i < text.len() implies #[trigger] text[i] == '\\' by {
            if i < text.len() - 1 {
                assert(text.drop_last()[i] == '\\');
            }
        }
    } else {
        assert(text =~= text.subrange(0, text.len() as int));
    }
}

/// A home as its task knows it has a backslash for each slash and none at its end; nothing
/// else of it is lost, and on Windows its letters are in lower case.
pub proof fn homes_are_known_without_their_spelling(home: Seq<char>, windows: bool)
    ensures
        ({
            let turned = home.map_values(
                |c: char|
                    if c == '/' {
                        '\\'
                    } else {
                        c
                    },
            );
            let even = if windows {
                unicode_lower(turned)
            } else {
                turned
            };
            let known = normalized_of(home, windows);
            &&& known.len() <= even.len()
            &&& known == even.take(known.len() as int)
            &&& known.len() > 0 ==> known.last() != '\\'
            &&& forall|i: int| known.len() <= i < even.len() ==> #[trigger] even[i] == '\\'
        }),
{
    let turned = home.map_values(
        |c: char|
            if c == '/' {
                '\\'
            } else {
                c
            },
    );
    assert(turned =~= backslashed(home));
    let even = if windows {
        unicode_lower(turned)
    } else {
        turned
    };
    only_backslashes_go(even);
    let known = normalized_of(home, windows);
    assert(known =~= even.subrange(0, known.len() as int));
}

/// The task of a home is named by six bytes of the digest of the home as its task knows it,
/// and by nothing else: homes that are known as one share a task.
pub proof fn tasks_are_named_by_their_home(home: Seq<char>, other: Seq<char>, windows: bool)
    ensures
        task_name_of(home, windows) == "OpenCoven Fleet Executor "@ + hex(
            sha256(encode_utf8(normalized_of(home, windows))).take(6),
        ),
        normalized_of(home, windows) == normalized_of(other, windows) ==> task_name_of(
            home,
            windows,
        ) == task_name_of(other, windows),
{
}

/// A registration names the home, the program and the home's own task, in the first version.
pub proof fn registrations_name_home_and_program(
    registration: Registration,
    coven_home: Seq<char>,
    executable: Seq<char>,
    windows: bool,
)
    requires
        registers(registration, coven_home, executable, windows),
    ensures
        registration.schema_version == 1,
        registration.coven_home@ == coven_home,
        registration.executable_path@ == executable,
        registration.task_name@ == task_name_of(coven_home, windows),
{
}

/// A registration is made only for a home and a program of which both paths are absolute.
pub proof fn relative_paths_are_not_registered(
    coven_home: Seq<char>,
    executable: Seq<char>,
    windows: bool,
)
    ensures
        are_absolute(coven_home, executable, windows) <==> is_absolute_path(coven_home, windows)
            && is_absolute_path(executable, windows),
{
}

/// A registration is in order if and only if it was found, is of the first version, and names
/// the task of its home. What is wrong comes in this order.
pub proof fn registrations_are_checked(path: Seq<char>, file: RegistrationFile, windows: bool)
    ensures
        ({
            let fault = registration_fault(path, file, windows);
            &&& fault is None <==> (file matches RegistrationFile::Found(found)
                && found.schema_version == 1 && found.task_name@ == task_name_of(
                found.coven_home@,
                windows,
            ))
            &&& file matches RegistrationFile::Unreadable(error) ==> fault == Some(
                caused("failed to read autostart registration "@ + path, error@),
            )
            &&& file matches RegistrationFile::Invalid(error) ==> fault == Some(
                caused("invalid autostart registration "@ + path, error@),
            )
            &&& file matches RegistrationFile::Found(found) ==> {
                &&& found.schema_version != 1 ==> fault == Some(
                    plain(
                        "unsupported autostart registration schema "@ + decimal(
                            found.schema_version as nat,
                        ),
                    ),
                )
                &&& found.schema_version == 1 && fault is Some ==> fault == Some(
                    plain("autostart registration task name does not match its Coven home"@),
                )
            }
        }),
{
}

/// An argument without a space, a tab, a line feed, a vertical tab or a quote stands as it is
/// unless it is empty; any other begins and ends with a quote.
pub proof fn plain_arguments_stand_alone(value: Seq<char>)
    ensures
        value.len() > 0 && !value.contains(' ') && !value.contains('\t') && !value.contains('\n')
            && !value.contains('\u{b}') && !value.contains('"') ==> quoted(value) == value,
        value.len() == 0 || value.contains(' ') || value.contains('\t') || value.contains('\n')
            || value.contains('\u{b}') || value.contains('"') ==> quoted(value).len() >= 2
            && quoted(value)[0] == '"' && quoted(value).last() == '"',
{
    if value.len() > 0 && !value.contains(' ') && !value.contains('\t') && !value.contains('\n')
        && !value.contains('\u{b}') && !value.contains('"') {
        assert forall|i: int| 0 <= i < value.len() implies !breaks_argument(
            #[trigger] value[i],
        ) by {
            assert(value.contains(value[i]));
        }
    } else if value.len() > 0 {
        let bad = if value.contains(' ') {
            ' '
        } else if value.contains('\t') {
            '\t'
        } else if value.contains('\n') {
            '\n'
        } else if value.contains('\u{b}') {
            '\u{b}'
        } else {
            '"'
        };
        let i = choose|i: int| 0 <= i < value.len() && value[i] == bad;
        assert(breaks_argument(value[i]));
    }
}

/// In XML a mark stands as its entity, and any other character as itself.
pub proof fn marks_stand_as_entities(a: Seq<char>, c: char, b: Seq<char>)
    ensures
        xml_escaped(a.push(c) + b) == xml_escaped(a) + (if c == '&' {
            "&amp;"@
        } else if c == '<' {
            "&lt;"@
        } else if c == '>' {
            "&gt;"@
        } else if c == '"' {
            "&quot;"@
        } else if c == '\'' {
            "&apos;"@
        } else {
            seq![c]
        }) + xml_escaped(b),
        xml_escaped(Seq::<char>::empty()).len() == 0,
{
    let entity = |c: char| xml_entity(c);
    crate::text::characters_are_expanded_each(a, c, b, entity);
    assert(entity(c) == xml_entity(c));
}

proof fn word_stands_alone(word: Seq<char>)
    requires
        word.len() > 0,
        forall|i: int| 0 <= i < word.len() ==> 'a' <= #[trigger] word[i] <= 'z' || word[i] == '-',
    ensures
        quoted(word) == word,
{
    assert forall|i: int| 0 <= i < word.len() implies !breaks_argument(#[trigger] word[i]) by {
        assert('a' <= word[i] <= 'z' || word[i] == '-');
    }
}

/// The task runs the executor in the foreground for its registration.
pub proof fn tasks_run_their_registration(registration_file: Seq<char>)
    ensures
        task_arguments(registration_file) == "executor autostart run --registration "@ + quoted(
            registration_file,
        ),
{
    reveal_strlit("executor");
    reveal_strlit("autostart");
    reveal_strlit("run");
    reveal_strlit("--registration");
    reveal_strlit(" ");
    reveal_strlit("executor autostart run --registration ");
    word_stands_alone("executor"@);
    word_stands_alone("autostart"@);
    word_stands_alone("run"@);
    word_stands_alone("--registration"@);
    let file = quoted(registration_file);
    let all = seq![
        quoted("executor"@),
        quoted("autostart"@),
        quoted("run"@),
        quoted("--registration"@),
        file,
    ];
    reveal_with_fuel(join_with, 6);
    assert(all.drop_last() =~= seq!["executor"@, "autostart"@, "run"@, "--registration"@]);
    assert(all.drop_last().drop_last() =~= seq!["executor"@, "autostart"@, "run"@]);
    assert(all.drop_last().drop_last().drop_last() =~= seq!["executor"@, "autostart"@]);
    assert(all.drop_last().drop_last().drop_last().drop_last() =~= seq!["executor"@]);
    let spaced = "executor"@ + " "@ + "autostart"@ + " "@ + "run"@ + " "@ + "--registration"@;
    assert(join_with(all.drop_last(), " "@) =~= spaced);
    assert(spaced + " "@ =~= "executor autostart run --registration "@);
    assert(task_arguments(registration_file) =~= spaced + " "@ + file);
}

/// The definition of a task: at the logon of its user, for that user, in the user's session
/// and with the least privilege, once at a time, on batteries too, without a limit of time and
/// again ten seconds after a failure, it runs the program with its arguments.
pub proof fn definitions_are_spelled_out(
    executable: Seq<char>,
    registration_file: Seq<char>,
    user_id: Seq<char>,
)
    ensures
        task_definition(executable, registration_file, user_id)
            == "<?xml version=\"1.0\" encoding=\"UTF-16\"?>\n<Task version=\"1.4\" xmlns=\"http://schemas.microsoft.com/windows/2004/02/mit/task\">\n  <Triggers><LogonTrigger><Enabled>true</Enabled><UserId>"@
            + xml_escaped(user_id)
            + "</UserId></LogonTrigger></Triggers>\n  <Principals><Principal id=\"Author\"><UserId>"@
            + xml_escaped(user_id) + "</UserId>"@ + "<LogonType>InteractiveToken</LogonType>"@
            + "<RunLevel>LeastPrivilege</RunLevel>"@ + (
        "</Principal></Principals>\n  <Settings>"@
            + "<MultipleInstancesPolicy>IgnoreNew</MultipleInstancesPolicy>"@
            + "<DisallowStartIfOnBatteries>false</DisallowStartIfOnBatteries><StopIfGoingOnBatteries>false</StopIfGoingOnBatteries><StartWhenAvailable>true</StartWhenAvailable><AllowStartOnDemand>true</AllowStartOnDemand>"@
            + "<ExecutionTimeLimit>PT0S</ExecutionTimeLimit>"@ + "<RestartOnFailure>"@
            + "<Interval>PT10S</Interval><Count>999</Count></RestartOnFailure></Settings>\n  <Actions Context=\"Author\"><Exec>"@)
            + ("<Command>"@ + xml_escaped(executable) + "</Command>"@) + ("<Arguments>"@
            + xml_escaped(task_arguments(registration_file)) + "</Arguments>"@)
            + "</Exec></Actions>\n</Task>"@,
{
}

/// A definition is in order if and only if it holds the program and the arguments, and says
/// that the task runs in its user's session with the least privilege, once at a time, without
/// a limit of time, and again after a failure.
pub proof fn definitions_in_order_hold_all(
    actual: Seq<char>,
    executable: Seq<char>,
    registration_file: Seq<char>,
)
    ensures
        defines(actual, executable, registration_file) <==> holds_text(
            actual,
            "<Command>"@ + xml_escaped(executable) + "</Command>"@,
        ) && holds_text(
            actual,
            "<Arguments>"@ + xml_escaped(task_arguments(registration_file)) + "</Arguments>"@,
        ) && holds_text(actual, "<LogonType>InteractiveToken</LogonType>"@) && holds_text(
            actual,
            "<RunLevel>LeastPrivilege</RunLevel>"@,
        ) && holds_text(actual, "<MultipleInstancesPolicy>IgnoreNew</MultipleInstancesPolicy>"@)
            && holds_text(actual, "<ExecutionTimeLimit>PT0S</ExecutionTimeLimit>"@) && holds_text(
            actual,
            "<RestartOnFailure>"@,
        ),
{
}

/// The registration of a home stands in the home, under its own name.
pub proof fn registrations_stand_in_the_home(coven_home: &str, windows: bool, path: String)
    requires
        call_ensures(registration_path, (coven_home, windows), path),
    ensures
        path@ == inside_on(coven_home@, "executor-autostart.json"@, windows),
{
}

/// A scheduled run serves the home of its registration, where that is in order.
pub proof fn scheduled_runs_serve_their_home(
    path: &str,
    file: RegistrationFile,
    windows: bool,
    home: Result<String, Fault>,
    loaded: Result<Registration, Fault>,
)
    requires
        call_ensures(run_foreground, (path, file, windows), home),
        call_ensures(load_registration, (path, file, windows), loaded),
    ensures
        home is Ok <==> registration_fault(path@, file, windows) is None,
        loaded is Ok <==> registration_fault(path@, file, windows) is None,
        home matches Ok(served) ==> (loaded matches Ok(known) && served == known.coven_home
            && file == RegistrationFile::Found(known)),
        home matches Err(fault) ==> registration_fault(path@, file, windows) == Some(fault@),
{
}

} // verus!
