//! Familiars: what is shown of them, where they work, and the editing of their icons in the
//! file that declares them.

use crate::fault::optional_view;
use crate::json::Json;
use crate::order::{sort_by_key, sorted_by_key, Keyed, Named};
use crate::paths::{inside_on, join_path, joined_path, path_inside_on};
use crate::text::{
    chars_of, is_space, same_text, slice_copy, starts_with, text_of, trim_text, trimmed,
    trimmed_ends_are_not_space,
};
use toml_edit::DocumentMut;
use vstd::multiset::Multiset;
use vstd::prelude::*;
use vstd::string::*;

verus! {

/// A familiar as it is shown.
#[derive(Debug)]
pub struct FamiliarDto {
    pub id: String,
    pub name: String,
    pub display_name: String,
    pub emoji: String,
    /// A glyph that is preferred to the emoji: an emoji, or the name of an icon.
    pub icon: Option<String>,
    pub role: String,
    pub description: String,
    pub pronouns: Option<String>,
    pub status: String,
    pub active_channel: Option<String>,
    pub last_seen: String,
    pub active_sessions: u32,
    pub memory_freshness: String,
    /// The directory declared for it, where there is one.
    pub workspace: Option<String>,
}

/// A familiar as it is declared.
#[derive(Debug)]
pub struct FamiliarEntry {
    pub id: String,
    pub name: Option<String>,
    pub display_name: String,
    pub emoji: Option<String>,
    pub icon: Option<String>,
    pub role: String,
    pub description: String,
    pub pronouns: Option<String>,
    pub active_channel: Option<String>,
    pub workspace: Option<String>,
}

/// An icon without the space around it; none where nothing is left.
pub open spec fn icon_of(icon: Option<Seq<char>>) -> Option<Seq<char>> {
    match icon {
        Some(text) => if trimmed(text).len() == 0 {
            None
        } else {
            Some(trimmed(text))
        },
        None => None,
    }
}

/// An icon without the space around it; none where nothing is left.
pub fn normalized_icon(icon: Option<&str>) -> (normalized: Option<String>)
    ensures
        optional_view(normalized) == icon_of(
            match icon {
                Some(text) => Some(text@),
                None => None,
            },
        ),
{
    match icon {
        Some(text) => {
            let inner = trim_text(text);
            if chars_of(inner.as_str()).len() == 0 {
                None
            } else {
                Some(inner)
            }
        },
        None => None,
    }
}

/// A declared workspace with a leading tilde replaced by the user's home, where that is
/// known.
pub open spec fn workspace_of(
    declared: Seq<char>,
    user_home: Option<Seq<char>>,
    windows: bool,
) -> Seq<char> {
    match user_home {
        None => declared,
        Some(home) => if "~/"@.is_prefix_of(declared) {
            joined_path(home, declared.skip(2), windows)
        } else if declared == "~"@ {
            home
        } else {
            declared
        },
    }
}

/// A declared workspace with a leading tilde replaced by the user's home.
pub fn expand_workspace(declared: &str, user_home: Option<&str>, windows: bool) -> (path: String)
    ensures
        path@ == workspace_of(
            declared@,
            match user_home {
                Some(home) => Some(home@),
                None => None,
            },
            windows,
        ),
{
    match user_home {
        None => declared.to_owned(),
        Some(home) => {
            proof {
                reveal_strlit("~/");
            }
            if starts_with(declared, "~/") {
                let chars = chars_of(declared);
                let rest = slice_copy(chars.as_slice(), 2, chars.len());
                assert(rest@ =~= declared@.skip(2));
                join_path(home, text_of(rest.as_slice()).as_str(), windows)
            } else if same_text(declared, "~") {
                home.to_owned()
            } else {
                declared.to_owned()
            }
        },
    }
}

/// Whether a familiar is shown as it is declared, with its memories as fresh as said.
pub open spec fn presents(
    shown: FamiliarDto,
    entry: FamiliarEntry,
    freshness: Seq<char>,
    user_home: Option<Seq<char>>,
    windows: bool,
) -> bool {
    &&& shown.id@ == entry.id@
    &&& shown.name@ == match entry.name {
        Some(name) => name@,
        None => entry.id@,
    }
    &&& shown.display_name@ == entry.display_name@
    &&& shown.emoji@ == match entry.emoji {
        Some(emoji) => emoji@,
        None => ""@,
    }
    &&& optional_view(shown.icon) == icon_of(optional_view(entry.icon))
    &&& shown.role@ == entry.role@
    &&& shown.description@ == entry.description@
    &&& optional_view(shown.pronouns) == optional_view(entry.pronouns)
    &&& shown.status@ == "offline"@
    &&& optional_view(shown.active_channel) == optional_view(entry.active_channel)
    &&& shown.last_seen@ == "\u{2014}"@
    &&& shown.active_sessions == 0
    &&& shown.memory_freshness@ == freshness
    &&& optional_view(shown.workspace) == match entry.workspace {
        Some(declared) => Some(workspace_of(declared@, user_home, windows)),
        None => None,
    }
}

/// A familiar as it is shown.
fn show_familiar(
    entry: &FamiliarEntry,
    freshness: &str,
    user_home: Option<&str>,
    windows: bool,
) -> (shown: FamiliarDto)
    ensures
        presents(
            shown,
            *entry,
            freshness@,
            match user_home {
                Some(home) => Some(home@),
                None => None,
            },
            windows,
        ),
{
    let icon = match &entry.icon {
        Some(text) => normalized_icon(Some(text.as_str())),
        None => None,
    };
    let workspace = match &entry.workspace {
        Some(declared) => Some(expand_workspace(declared.as_str(), user_home, windows)),
        None => None,
    };
    FamiliarDto {
        id: entry.id.clone(),
        name: match &entry.name {
            Some(name) => name.clone(),
            None => entry.id.clone(),
        },
        display_name: entry.display_name.clone(),
        emoji: match &entry.emoji {
            Some(emoji) => emoji.clone(),
            None => "".to_owned(),
        },
        icon,
        role: entry.role.clone(),
        description: entry.description.clone(),
        pronouns: match &entry.pronouns {
            Some(text) => Some(text.clone()),
            None => None,
        },
        status: "offline".to_owned(),
        active_channel: match &entry.active_channel {
            Some(text) => Some(text.clone()),
            None => None,
        },
        last_seen: "\u{2014}".to_owned(),
        active_sessions: 0,
        memory_freshness: freshness.to_owned(),
        workspace,
    }
}

/// The familiars as they are shown, in the order of their declaration, given how fresh the
/// memories of each are.
pub fn read_familiars(
    entries: &Vec<FamiliarEntry>,
    freshness: &Vec<String>,
    user_home: Option<&str>,
    windows: bool,
) -> (shown: Vec<FamiliarDto>)
    requires
        freshness@.len() == entries@.len(),
    ensures
        shown@.len() == entries@.len(),
        forall|i: int|
            0 <= i < shown@.len() ==> presents(
                #[trigger] shown@[i],
                entries@[i],
                freshness@[i]@,
                match user_home {
                    Some(home) => Some(home@),
                    None => None,
                },
                windows,
            ),
{
    let mut shown: Vec<FamiliarDto> = Vec::new();
    let mut i: usize = 0;
    while i < entries.len()
        invariant
            i <= entries@.len(),
            freshness@.len() == entries@.len(),
            shown@.len() == i,
            forall|k: int|
                0 <= k < i ==> presents(
                    #[trigger] shown@[k],
                    entries@[k],
                    freshness@[k]@,
                    match user_home {
                        Some(home) => Some(home@),
                        None => None,
                    },
                    windows,
                ),
        decreases entries@.len() - i,
    {
        shown.push(show_familiar(&entries[i], freshness[i].as_str(), user_home, windows));
        i += 1;
    }
    shown
}

/// The directory in which a familiar works: the one that the first familiar of that name
/// declares, else the usual one in the home.
pub open spec fn familiar_home(
    coven_home: Seq<char>,
    familiars: Seq<FamiliarDto>,
    familiar_id: Seq<char>,
    windows: bool,
) -> Seq<char>
    decreases familiars.len(),
{
    let usual = joined_path(
        inside_on(coven_home, "familiars"@, windows),
        familiar_id,
        windows,
    );
    if familiars.len() == 0 {
        usual
    } else if familiars[0].id@ == familiar_id {
        match familiars[0].workspace {
            Some(path) => path@,
            None => usual,
        }
    } else {
        familiar_home(coven_home, familiars.skip(1), familiar_id, windows)
    }
}

/// The directory in which a familiar works.
pub fn familiar_workspace(
    coven_home: &str,
    familiars: &Vec<FamiliarDto>,
    familiar_id: &str,
    windows: bool,
) -> (path: String)
    ensures
        path@ == familiar_home(coven_home@, familiars@, familiar_id@, windows),
{
    let mut i: usize = 0;
    assert(familiars@.skip(0) =~= familiars@);
    while i < familiars.len()
        invariant
            i <= familiars@.len(),
            familiar_home(coven_home@, familiars@, familiar_id@, windows) == familiar_home(
                coven_home@,
                familiars@.skip(i as int),
                familiar_id@,
                windows,
            ),
        decreases familiars@.len() - i,
    {
        assert(familiars@.skip(i as int)[0] == familiars@[i as int]);
        assert(familiars@.skip(i as int).skip(1) =~= familiars@.skip(i as int + 1));
        if same_text(familiars[i].id.as_str(), familiar_id) {
            if let Some(path) = &familiars[i].workspace {
                return path.clone();
            }
            return usual_workspace(coven_home, familiar_id, windows);
        }
        i += 1;
    }
    usual_workspace(coven_home, familiar_id, windows)
}

fn usual_workspace(coven_home: &str, familiar_id: &str, windows: bool) -> (path: String)
    ensures
        path@ == joined_path(
            inside_on(coven_home@, "familiars"@, windows),
            familiar_id@,
            windows,
        ),
{
    join_path(
        path_inside_on(coven_home, "familiars", windows).as_str(),
        familiar_id,
        windows,
    )
}

/// The declaration of the document type of `toml_edit`.
#[verifier::external_type_specification]
#[verifier::external_body]
pub struct ExDocumentMut(toml_edit::DocumentMut);

/// The tables of the array `familiar` in a document, each as its `id` and its `icon`, where
/// they are texts. A document without such an array has none.
pub uninterp spec fn familiar_tables(document: DocumentMut) -> Seq<
    (Option<Seq<char>>, Option<Seq<char>>),
>;

/// What reading a text as TOML gives: the tables of its array `familiar`, or the complaint.
pub uninterp spec fn toml_parsed(text: Seq<char>) -> Result<
    Seq<(Option<Seq<char>>, Option<Seq<char>>)>,
    Seq<char>,
>;

/// Whether a text reads as TOML with these tables in its array `familiar`.
pub open spec fn reads_as(
    text: Seq<char>,
    tables: Seq<(Option<Seq<char>>, Option<Seq<char>>)>,
) -> bool {
    toml_parsed(text) == Ok::<_, Seq<char>>(tables)
}

/// What a document holds besides the `icon` of each table of its array `familiar`: its other
/// values, as a tree, and its comments but for those of the icons' own entries.
pub uninterp spec fn document_rest(document: DocumentMut) -> (Json, Multiset<Seq<char>>);

/// What a text that reads as TOML holds besides the `icon` of each table of its array
/// `familiar`: its other values, as a tree, and its comments but for those of the icons' own
/// entries.
pub uninterp spec fn toml_rest(text: Seq<char>) -> (Json, Multiset<Seq<char>>);

/// The text of a document.
pub uninterp spec fn document_text(document: DocumentMut) -> Seq<char>;

/// Whether a document was read from a text, with nothing done to it since but to set icons
/// that can be written or to take icons away.
pub uninterp spec fn read_from_text(document: DocumentMut) -> bool;

/// How many times a text ends in a character.
pub open spec fn run_at_end(text: Seq<char>, character: char) -> nat
    decreases text.len(),
{
    if text.len() == 0 || text.last() != character {
        0
    } else {
        1 + run_at_end(text.drop_last(), character)
    }
}

/// How many times in a row a text holds a character at most.
pub open spec fn longest_run(text: Seq<char>, character: char) -> nat
    decreases text.len(),
{
    if text.len() == 0 {
        0
    } else if run_at_end(text, character) > longest_run(text.drop_last(), character) {
        run_at_end(text, character)
    } else {
        longest_run(text.drop_last(), character)
    }
}

/// How many quotes of a kind an icon can hold in a row.
pub const QUOTES_IN_A_ROW: usize = 255;

/// Whether an icon can be written down: it holds no more quotes of a kind in a row than
/// `toml_edit` can count.
pub open spec fn can_be_written(icon: Seq<char>) -> bool {
    longest_run(icon, '\'') <= QUOTES_IN_A_ROW && longest_run(icon, '"') <= QUOTES_IN_A_ROW
}

/// Whether a text holds a character no more than [`QUOTES_IN_A_ROW`] times in a row.
fn runs_are_short(text: &str, character: char) -> (short: bool)
    ensures
        short == (longest_run(text@, character) <= QUOTES_IN_A_ROW),
{
    let chars = chars_of(text);
    let mut run: usize = 0;
    let mut longest: usize = 0;
    let mut i: usize = 0;
    assert(chars@.take(0).len() == 0);
    while i < chars.len()
        invariant
            i <= chars@.len(),
            run <= i,
            run == run_at_end(chars@.take(i as int), character),
            longest == longest_run(chars@.take(i as int), character),
        decreases chars@.len() - i,
    {
        let ghost next = chars@.take(i as int + 1);
        assert(next.drop_last() =~= chars@.take(i as int));
        assert(next.last() == chars@[i as int]);
        if chars[i] == character {
            run += 1;
        } else {
            run = 0;
        }
        if run > longest {
            longest = run;
        }
        i += 1;
    }
    assert(chars@.take(i as int) =~= text@);
    longest <= QUOTES_IN_A_ROW
}

/// Whether an icon can be written down.
pub fn icon_can_be_written(icon: &str) -> (yes: bool)
    ensures
        yes == can_be_written(icon@),
{
    runs_are_short(icon, '\'') && runs_are_short(icon, '"')
}

/// What is told of an icon that cannot be written down.
pub const ICON_REFUSED: &'static str = "icon holds too many quotes in a row";

/// `DocumentMut::from_str` reads a text as TOML, or says why it is none. What it finds
/// depends on the text alone.
#[verifier::external_body]
pub(crate) fn parse_document(text: &str) -> (parsed: Result<DocumentMut, String>)
    ensures
        match parsed {
            Ok(document) => toml_parsed(text@) == Ok::<_, Seq<char>>(familiar_tables(document))
                && toml_rest(text@) == document_rest(document) && read_from_text(document),
            Err(error) => toml_parsed(text@) == Err::<
                Seq<(Option<Seq<char>>, Option<Seq<char>>)>,
                Seq<char>,
            >(error@),
        },
{
    text.parse::<DocumentMut>().map_err(|error| error.to_string())
}

/// `ArrayOfTables::iter` walks the tables of the array `familiar`; `id` is taken from each,
/// where it is a text.
#[verifier::external_body]
pub(crate) fn familiar_ids(document: &DocumentMut) -> (ids: Vec<Option<String>>)
    ensures
        ids@.len() == familiar_tables(*document).len(),
        forall|i: int|
            0 <= i < ids@.len() ==> optional_view(#[trigger] ids@[i]) == familiar_tables(
                *document,
            )[i].0,
{
    match document.get("familiar").and_then(|item| item.as_array_of_tables()) {
        Some(array) => array
            .iter()
            .map(|table| table.get("id").and_then(|item| item.as_str()).map(|id| id.to_owned()))
            .collect(),
        None => Vec::new(),
    }
}

/// `Table::index_mut` gives a table of the array `familiar` an `icon`, in place of the one it
/// had; nothing else in the document changes.
#[verifier::external_body]
pub(crate) fn set_icon(document: &mut DocumentMut, index: usize, icon: &str)
    requires
        index < familiar_tables(*old(document)).len(),
        can_be_written(icon@),
    ensures
        familiar_tables(*final(document)) == familiar_tables(*old(document)).update(
            index as int,
            (familiar_tables(*old(document))[index as int].0, Some(icon@)),
        ),
        document_rest(*final(document)) == document_rest(*old(document)),
        read_from_text(*old(document)) ==> read_from_text(*final(document)),
{
    let array = document.get_mut("familiar").and_then(|item| item.as_array_of_tables_mut());
    if let Some(table) = array.and_then(|array| array.iter_mut().nth(index)) {
        table["icon"] = toml_edit::value(icon);
    }
}

/// `Table::remove` takes the `icon` out of a table of the array `familiar`; nothing else in
/// the document changes.
#[verifier::external_body]
pub(crate) fn remove_icon(document: &mut DocumentMut, index: usize)
    requires
        index < familiar_tables(*old(document)).len(),
    ensures
        familiar_tables(*final(document)) == familiar_tables(*old(document)).update(
            index as int,
            (familiar_tables(*old(document))[index as int].0, None),
        ),
        document_rest(*final(document)) == document_rest(*old(document)),
        read_from_text(*old(document)) ==> read_from_text(*final(document)),
{
    let array = document.get_mut("familiar").and_then(|item| item.as_array_of_tables_mut());
    if let Some(table) = array.and_then(|array| array.iter_mut().nth(index)) {
        table.remove("icon");
    }
}

/// `DocumentMut::to_string` writes a document out. What was read from a text keeps its
/// values, its comments and their form, and a new value is written so that it reads back: the
/// text holds what the document does. Keys with dots may change their order, and how the
/// text looks beyond that is left unsaid. It counts the quotes of a new value that stand in a
/// row in eight bits, so a value with more of them is kept out.
#[verifier::external_body]
pub(crate) fn document_to_text(document: &DocumentMut) -> (text: String)
    requires
        read_from_text(*document),
    ensures
        text@ == document_text(*document),
        reads_as(text@, familiar_tables(*document)),
        toml_rest(text@) == document_rest(*document),
{
    document.to_string()
}

/// What became of a request to write a familiar's icon.
#[derive(Debug, PartialEq, Eq, Clone, Copy, Structural)]
pub enum WriteFamiliarIconOutcome {
    /// The familiar has the icon now.
    Updated,
    /// The familiar has no icon now.
    Cleared,
    /// No familiar has that identifier.
    NotFound,
}

/// The first table with an identifier, as its place.
pub open spec fn place_of_id(
    tables: Seq<(Option<Seq<char>>, Option<Seq<char>>)>,
    id: Seq<char>,
) -> Option<int>
    decreases tables.len(),
{
    if tables.len() == 0 {
        None
    } else if tables[0].0 == Some(id) {
        Some(0)
    } else {
        match place_of_id(tables.skip(1), id) {
            Some(place) => Some(place + 1),
            None => None,
        }
    }
}

/// The tables after the icon of one familiar was written.
pub open spec fn with_icon(
    tables: Seq<(Option<Seq<char>>, Option<Seq<char>>)>,
    id: Seq<char>,
    icon: Option<Seq<char>>,
) -> Seq<(Option<Seq<char>>, Option<Seq<char>>)> {
    match place_of_id(tables, id) {
        Some(place) => tables.update(place, (tables[place].0, icon)),
        None => tables,
    }
}

/// Finds the first table with an identifier.
pub fn find_familiar(ids: &Vec<Option<String>>, familiar_id: &str) -> (place: Option<usize>)
    ensures
        match place {
            Some(at) => at < ids@.len() && optional_view(ids@[at as int]) == Some(familiar_id@)
                && forall|k: int|
                0 <= k < at ==> optional_view(#[trigger] ids@[k]) != Some(familiar_id@),
            None => forall|k: int|
                0 <= k < ids@.len() ==> optional_view(#[trigger] ids@[k]) != Some(familiar_id@),
        },
{
    let mut i: usize = 0;
    while i < ids.len()
        invariant
            i <= ids@.len(),
            forall|k: int| 0 <= k < i ==> optional_view(#[trigger] ids@[k]) != Some(familiar_id@),
        decreases ids@.len() - i,
    {
        if let Some(id) = &ids[i] {
            if same_text(id.as_str(), familiar_id) {
                return Some(i);
            }
        }
        i += 1;
    }
    None
}

proof fn place_is(
    tables: Seq<(Option<Seq<char>>, Option<Seq<char>>)>,
    id: Seq<char>,
    place: Option<int>,
)
    requires
        match place {
            Some(at) => 0 <= at < tables.len() && tables[at].0 == Some(id) && forall|k: int|
                0 <= k < at ==> (#[trigger] tables[k]).0 != Some(id),
            None => forall|k: int| 0 <= k < tables.len() ==> (#[trigger] tables[k]).0 != Some(id),
        },
    ensures
        place_of_id(tables, id) == place,
    decreases tables.len(),
{
    if tables.len() > 0 && tables[0].0 != Some(id) {
        let rest = tables.skip(1);
        assert forall|k: int| 0 <= k < rest.len() implies rest[k] == tables[k + 1] by {}
        match place {
            Some(at) => {
                assert(rest[at - 1].0 == Some(id));
                assert forall|k: int| 0 <= k < at - 1 implies (#[trigger] rest[k]).0 != Some(
                    id,
                ) by {
                    assert(rest[k] == tables[k + 1]);
                }
                place_is(rest, id, Some(at - 1));
            },
            None => {
                assert forall|k: int| 0 <= k < rest.len() implies (#[trigger] rest[k]).0 != Some(
                    id,
                ) by {
                    assert(rest[k] == tables[k + 1]);
                }
                place_is(rest, id, None);
            },
        }
    }
}

/// A request to write an icon, answered: what became of it, and the new text of the file
/// where something is to be written.
#[derive(Debug)]
pub struct IconEdit {
    pub outcome: WriteFamiliarIconOutcome,
    pub text: Option<String>,
}

/// Whether an edit gives the familiar with an identifier an icon, or takes it away, and keeps
/// all else that the text holds.
pub open spec fn edits_icon(
    edit: IconEdit,
    tables: Seq<(Option<Seq<char>>, Option<Seq<char>>)>,
    rest: (Json, Multiset<Seq<char>>),
    familiar_id: Seq<char>,
    icon: Option<Seq<char>>,
) -> bool {
    if place_of_id(tables, familiar_id) is None {
        edit.outcome == WriteFamiliarIconOutcome::NotFound && edit.text is None
    } else {
        &&& edit.outcome == if icon_of(icon) is Some {
            WriteFamiliarIconOutcome::Updated
        } else {
            WriteFamiliarIconOutcome::Cleared
        }
        &&& edit.text is Some
        &&& reads_as(edit.text->0@, with_icon(tables, familiar_id, icon_of(icon)))
        &&& toml_rest(edit.text->0@) == rest
    }
}

/// Whether an icon is refused: a familiar is to have it, and it cannot be written down.
pub open spec fn icon_is_refused(
    tables: Seq<(Option<Seq<char>>, Option<Seq<char>>)>,
    familiar_id: Seq<char>,
    icon: Option<Seq<char>>,
) -> bool {
    place_of_id(tables, familiar_id) is Some && (icon_of(icon) matches Some(glyph)
        && !can_be_written(glyph))
}

/// Gives the first familiar with an identifier an icon, or takes it away where there is
/// none to give. The new text reads back with that change and no other.
pub fn write_familiar_icon(text: &str, familiar_id: &str, icon: Option<&str>) -> (edit: Result<
    IconEdit,
    String,
>)
    ensures
        ({
            let asked = match icon {
                Some(glyph) => Some(glyph@),
                None => None,
            };
            match toml_parsed(text@) {
                Err(complaint) => edit matches Err(error) && error@ == complaint,
                Ok(tables) => match edit {
                    Ok(edit) => !icon_is_refused(tables, familiar_id@, asked) && edits_icon(
                        edit,
                        tables,
                        toml_rest(text@),
                        familiar_id@,
                        asked,
                    ),
                    Err(error) => icon_is_refused(tables, familiar_id@, asked) && error@
                        == ICON_REFUSED@,
                },
            }
        }),
{
    let document = match parse_document(text) {
        Ok(document) => document,
        Err(error) => {
            return Err(error);
        },
    };
    edit_icon(document, familiar_id, icon)
}

/// Gives the first familiar of a document an icon, or takes it away.
fn edit_icon(document: DocumentMut, familiar_id: &str, icon: Option<&str>) -> (edit: Result<
    IconEdit,
    String,
>)
    requires
        read_from_text(document),
    ensures
        ({
            let asked = match icon {
                Some(glyph) => Some(glyph@),
                None => None,
            };
            match edit {
                Ok(edit) => !icon_is_refused(familiar_tables(document), familiar_id@, asked)
                    && edits_icon(
                    edit,
                    familiar_tables(document),
                    document_rest(document),
                    familiar_id@,
                    asked,
                ),
                Err(error) => icon_is_refused(familiar_tables(document), familiar_id@, asked)
                    && error@ == ICON_REFUSED@,
            }
        }),
{
    let ghost tables = familiar_tables(document);
    let mut document = document;
    let normalized = normalized_icon(icon);
    let ids = familiar_ids(&document);
    let found = find_familiar(&ids, familiar_id);
    proof {
        assert forall|k: int| 0 <= k < tables.len() implies (#[trigger] tables[k]).0
            == optional_view(ids@[k]) by {}
        place_is(
            tables,
            familiar_id@,
            match found {
                Some(at) => Some(at as int),
                None => None,
            },
        );
    }
    match found {
        None => Ok(IconEdit { outcome: WriteFamiliarIconOutcome::NotFound, text: None }),
        Some(at) => {
            let outcome = match &normalized {
                Some(glyph) => {
                    if !icon_can_be_written(glyph.as_str()) {
                        return Err(ICON_REFUSED.to_owned());
                    }
                    set_icon(&mut document, at, glyph.as_str());
                    WriteFamiliarIconOutcome::Updated
                },
                None => {
                    remove_icon(&mut document, at);
                    WriteFamiliarIconOutcome::Cleared
                },
            };
            let text = document_to_text(&document);
            Ok(IconEdit { outcome, text: Some(text) })
        },
    }
}

/// Writing one familiar's icon leaves every other familiar as it was, and no identifier
/// changes.
pub proof fn other_familiars_keep_their_icons(
    tables: Seq<(Option<Seq<char>>, Option<Seq<char>>)>,
    id: Seq<char>,
    icon: Option<Seq<char>>,
    at: int,
)
    requires
        0 <= at < tables.len(),
    ensures
        with_icon(tables, id, icon).len() == tables.len(),
        with_icon(tables, id, icon)[at].0 == tables[at].0,
        place_of_id(tables, id) != Some(at) ==> with_icon(tables, id, icon)[at] == tables[at],
        place_of_id(tables, id) == Some(at) ==> with_icon(tables, id, icon)[at].1 == icon,
{
    place_in_range(tables, id);
}

/// An icon that is written is never blank, has no space around it, and is shown as it was
/// written.
pub proof fn icons_are_never_blank(icon: Option<Seq<char>>)
    ensures
        icon_of(icon) matches Some(glyph) ==> glyph.len() > 0 && !is_space(glyph[0]) && !is_space(
            glyph.last(),
        ),
        icon_of(icon_of(icon)) == icon_of(icon),
{
    if let Some(text) = icon {
        trimmed_ends_are_not_space(text);
    }
}

/// Writing an icon a second time changes nothing, and what is written last is what stays.
pub proof fn last_icon_stays(
    tables: Seq<(Option<Seq<char>>, Option<Seq<char>>)>,
    id: Seq<char>,
    first: Option<Seq<char>>,
    last: Option<Seq<char>>,
)
    ensures
        with_icon(with_icon(tables, id, first), id, last) == with_icon(tables, id, last),
{
    place_in_range(tables, id);
    same_ids_same_place(tables, with_icon(tables, id, first), id);
    assert(with_icon(with_icon(tables, id, first), id, last) =~= with_icon(tables, id, last));
}

proof fn same_ids_same_place(
    tables: Seq<(Option<Seq<char>>, Option<Seq<char>>)>,
    others: Seq<(Option<Seq<char>>, Option<Seq<char>>)>,
    id: Seq<char>,
)
    requires
        tables.len() == others.len(),
        forall|k: int| 0 <= k < tables.len() ==> (#[trigger] others[k]).0 == tables[k].0,
    ensures
        place_of_id(others, id) == place_of_id(tables, id),
    decreases tables.len(),
{
    if tables.len() > 0 {
        same_ids_same_place(tables.skip(1), others.skip(1), id);
    }
}

proof fn place_in_range(tables: Seq<(Option<Seq<char>>, Option<Seq<char>>)>, id: Seq<char>)
    ensures
        place_of_id(tables, id) matches Some(place) ==> 0 <= place < tables.len(),
    decreases tables.len(),
{
    if tables.len() > 0 {
        place_in_range(tables.skip(1), id);
    }
}

/// What is declared of a skill.
#[derive(Debug)]
pub struct SkillMetadata {
    pub name: String,
    pub description: String,
    pub version: Option<String>,
    pub author: Option<String>,
    pub tags: Vec<String>,
    pub category: Option<String>,
}

/// A skill, by the name of its directory and what is declared of it.
#[derive(Debug)]
pub struct Skill {
    pub id: String,
    pub name: String,
    pub owner: String,
    pub category: String,
    pub tags: Vec<String>,
    pub version: String,
    pub description: String,
}

impl Named for Skill {
    open spec fn key(&self) -> Seq<char> {
        self.id@
    }
}

impl Keyed for Skill {
    fn key_text(&self) -> (key: &str) {
        self.id.as_str()
    }
}

/// A declared text, or the usual one.
pub open spec fn declared_or(text: Option<String>, usual: Seq<char>) -> Seq<char> {
    match text {
        Some(declared) => declared@,
        None => usual,
    }
}

/// Whether a skill is what is declared of it, with the usual values for what is not.
pub open spec fn is_skill(skill: Skill, id: Seq<char>, metadata: SkillMetadata) -> bool {
    &&& skill.id@ == id
    &&& skill.name@ == metadata.name@
    &&& skill.owner@ == declared_or(metadata.author, "unknown"@)
    &&& skill.category@ == declared_or(metadata.category, "general"@)
    &&& skill.tags@ == metadata.tags@
    &&& skill.version@ == declared_or(metadata.version, "0.0.0"@)
    &&& skill.description@ == metadata.description@
}

/// A skill from what is declared of it.
pub fn skill_from(id: String, metadata: SkillMetadata) -> (skill: Skill)
    ensures
        is_skill(skill, id@, metadata),
{
    Skill {
        id,
        name: metadata.name,
        owner: match metadata.author {
            Some(author) => author,
            None => "unknown".to_owned(),
        },
        category: match metadata.category {
            Some(category) => category,
            None => "general".to_owned(),
        },
        tags: metadata.tags,
        version: match metadata.version {
            Some(version) => version,
            None => "0.0.0".to_owned(),
        },
        description: metadata.description,
    }
}

/// The skills in the order of their identifiers; those of one identifier keep their order.
pub fn scan_skills(found: Vec<Skill>) -> (skills: Vec<Skill>)
    ensures
        skills@ == sorted_by_key(found@),
{
    sort_by_key(found)
}

/// An icon is what stands between the spaces around it; where there is nothing else, there is
/// none.
pub proof fn icons_stand_between_spaces(a: Seq<char>, glyph: Seq<char>, b: Seq<char>)
    requires
        forall|i: int| 0 <= i < a.len() ==> is_space(#[trigger] a[i]),
        forall|i: int| 0 <= i < b.len() ==> is_space(#[trigger] b[i]),
    ensures
        icon_of(None) is None,
        icon_of(Some(a)) is None,
        glyph.len() > 0 && !is_space(glyph[0]) && !is_space(glyph.last()) ==> icon_of(
            Some(a + glyph + b),
        ) == Some(glyph),
{
    crate::text::trimming_takes_only_spaces(a, glyph, b);
}

/// A tilde stands for the user's home: alone, or before a slash and a path below it. Any other
/// workspace is as it was declared, and so is every one where the home is not known.
pub proof fn tildes_stand_for_the_home(declared: Seq<char>, home: Seq<char>, below: Seq<char>)
    ensures
        workspace_of(declared, None, false) == declared,
        workspace_of(declared, None, true) == declared,
        workspace_of(seq!['~'], Some(home), false) == home,
        workspace_of(seq!['~'], Some(home), true) == home,
        below.len() > 0 && below[0] != '/' && home.len() > 0 && home.last() != '/'
            ==> workspace_of(seq!['~', '/'] + below, Some(home), false) == home.push('/') + below,
        declared.len() == 0 || declared[0] != '~' || (declared.len() > 1 && declared[1] != '/')
            ==> workspace_of(declared, Some(home), false) == declared && workspace_of(
            declared,
            Some(home),
            true,
        ) == declared,
{
    reveal_strlit("~");
    reveal_strlit("~/");
    assert(seq!['~'] =~= "~"@);
    let path = seq!['~', '/'] + below;
    assert("~/"@ =~= path.subrange(0, 2));
    assert(path.skip(2) =~= below);
    if "~/"@.is_prefix_of(declared) {
        assert(declared.subrange(0, 2)[0] == declared[0]);
        assert(declared.subrange(0, 2)[1] == declared[1]);
    }
}

/// A familiar is shown under its declared names, its identifier standing for a name that is
/// not declared; it is offline, was never seen and has no session, and its memories are as
/// fresh as they are.
pub proof fn familiars_are_shown_as_declared(
    shown: FamiliarDto,
    entry: FamiliarEntry,
    freshness: Seq<char>,
    user_home: Option<Seq<char>>,
    windows: bool,
)
    requires
        presents(shown, entry, freshness, user_home, windows),
    ensures
        shown.id@ == entry.id@,
        entry.name matches Some(name) ==> shown.name@ == name@,
        entry.name is None ==> shown.name@ == entry.id@,
        shown.display_name@ == entry.display_name@,
        entry.emoji matches Some(emoji) ==> shown.emoji@ == emoji@,
        entry.emoji is None ==> shown.emoji@.len() == 0,
        shown.role@ == entry.role@,
        shown.description@ == entry.description@,
        entry.icon is None ==> shown.icon is None,
        shown.icon matches Some(icon) ==> icon@.len() > 0 && icon@ == trimmed(entry.icon->0@),
        entry.icon matches Some(icon) ==> (trimmed(icon@).len() > 0 ==> shown.icon is Some),
        shown.pronouns is Some <==> entry.pronouns is Some,
        shown.pronouns matches Some(text) ==> text@ == entry.pronouns->0@,
        shown.active_channel is Some <==> entry.active_channel is Some,
        shown.active_channel matches Some(text) ==> text@ == entry.active_channel->0@,
        shown.status@ == "offline"@,
        shown.last_seen@ == "\u{2014}"@,
        shown.active_sessions == 0,
        shown.memory_freshness@ == freshness,
        shown.workspace is Some <==> entry.workspace is Some,
        shown.workspace matches Some(path) ==> path@ == workspace_of(
            entry.workspace->0@,
            user_home,
            windows,
        ),
{
    reveal_strlit("");
}

/// A familiar works where the first familiar of its name declares, and where that one declares
/// nothing, or there is none of the name, in the directory of its name among the familiars of
/// the home.
pub proof fn familiars_work_at_home(
    coven_home: Seq<char>,
    familiars: Seq<FamiliarDto>,
    familiar_id: Seq<char>,
    at: int,
)
    requires
        coven_home.len() > 0,
        coven_home.last() != '/',
        familiar_id.len() > 0,
        familiar_id[0] != '/',
        0 <= at <= familiars.len(),
        forall|k: int| 0 <= k < at ==> (#[trigger] familiars[k]).id@ != familiar_id,
        at < familiars.len() ==> familiars[at].id@ == familiar_id,
    ensures
        at < familiars.len() ==> (familiars[at].workspace matches Some(path) ==> familiar_home(
            coven_home,
            familiars,
            familiar_id,
            false,
        ) == path@),
        at == familiars.len() || familiars[at].workspace is None ==> familiar_home(
            coven_home,
            familiars,
            familiar_id,
            false,
        ) == coven_home + "/familiars/"@ + familiar_id,
    decreases familiars.len(),
{
    reveal_strlit("/familiars/");
    reveal_strlit("familiars");
    let base = inside_on(coven_home, "familiars"@, false);
    assert(base =~= coven_home + seq!['/'] + "familiars"@);
    assert(base.last() == "familiars"@.last());
    assert(joined_path(base, familiar_id, false) =~= coven_home + "/familiars/"@ + familiar_id);
    if at > 0 {
        let rest = familiars.skip(1);
        assert(familiars[0].id@ != familiar_id);
        assert forall|k: int| 0 <= k < at - 1 implies (#[trigger] rest[k]).id@ != familiar_id by {
            assert(familiars[k + 1].id@ != familiar_id);
        }
        familiars_work_at_home(coven_home, rest, familiar_id, at - 1);
    }
}

proof fn ends_are_runs(text: Seq<char>, character: char)
    ensures
        run_at_end(text, character) <= text.len(),
        forall|i: int|
            text.len() - run_at_end(text, character) <= i < text.len() ==> #[trigger] text[i]
                == character,
    decreases text.len(),
{
    if text.len() > 0 && text.last() == character {
        ends_are_runs(text.drop_last(), character);
        assert forall|i: int|
            text.len() - run_at_end(text, character) <= i < text.len() implies #[trigger] text[i]
            == character by {
            if i < text.len() - 1 {
                assert(text.drop_last()[i] == character);
            }
        }
    }
}

proof fn runs_are_at_ends(text: Seq<char>, character: char, n: nat)
    requires
        n <= text.len(),
        forall|i: int| text.len() - n <= i < text.len() ==> #[trigger] text[i] == character,
    ensures
        run_at_end(text, character) >= n,
    decreases text.len(),
{
    if n > 0 {
        assert(text[text.len() - 1] == character);
        let rest = text.drop_last();
        assert forall|i: int| rest.len() - (n - 1) <= i < rest.len() implies #[trigger] rest[i]
            == character by {
            assert(text[i] == character);
        }
        runs_are_at_ends(rest, character, (n - 1) as nat);
    }
}

proof fn long_runs_are_found(text: Seq<char>, character: char, from: int, n: nat)
    requires
        0 <= from,
        from + n <= text.len(),
        forall|i: int| from <= i < from + n ==> #[trigger] text[i] == character,
    ensures
        longest_run(text, character) >= n,
    decreases text.len(),
{
    if n > 0 {
        if from + n == text.len() {
            runs_are_at_ends(text, character, n);
        } else {
            let rest = text.drop_last();
            assert forall|i: int| from <= i < from + n implies #[trigger] rest[i] == character by {
                assert(text[i] == character);
            }
            long_runs_are_found(rest, character, from, n);
        }
    }
}

proof fn longest_run_is_held(text: Seq<char>, character: char) -> (from: int)
    ensures
        0 <= from,
        from + longest_run(text, character) <= text.len(),
        forall|i: int|
            from <= i < from + longest_run(text, character) ==> #[trigger] text[i] == character,
    decreases text.len(),
{
    if text.len() == 0 {
        0
    } else if run_at_end(text, character) > longest_run(text.drop_last(), character) {
        ends_are_runs(text, character);
        text.len() - run_at_end(text, character)
    } else {
        let from = longest_run_is_held(text.drop_last(), character);
        assert forall|i: int| from <= i < from + longest_run(text, character) implies
            #[trigger] text[i] == character by {
            assert(text.drop_last()[i] == character);
        }
        from
    }
}

/// An icon cannot be written if and only if it holds one kind of quote 256 times in a row.
pub proof fn too_many_quotes_are_refused(icon: Seq<char>, from: int, quote: char)
    ensures
        (quote == '\'' || quote == '"') && 0 <= from && from + 256 <= icon.len() && (forall|i: int|
            from <= i < from + 256 ==> #[trigger] icon[i] == quote) ==> !can_be_written(icon),
        !can_be_written(icon) ==> exists|at: int, mark: char|
            (mark == '\'' || mark == '"') && 0 <= at && at + 256 <= icon.len()
                && #[trigger] holds_run(icon, at, mark),
{
    if (quote == '\'' || quote == '"') && 0 <= from && from + 256 <= icon.len() && (forall|i: int|
        from <= i < from + 256 ==> #[trigger] icon[i] == quote) {
        long_runs_are_found(icon, quote, from, 256);
    }
    if !can_be_written(icon) {
        let mark = if longest_run(icon, '\'') > 255 {
            '\''
        } else {
            '"'
        };
        let at = longest_run_is_held(icon, mark);
        assert(holds_run(icon, at, mark));
    }
}

/// Whether a text holds a character 256 times in a row from a place on.
pub open spec fn holds_run(text: Seq<char>, at: int, mark: char) -> bool {
    forall|i: int| at <= i < at + 256 ==> #[trigger] text[i] == mark
}

/// The familiar that is meant by an identifier is the first that has it.
pub proof fn the_first_familiar_is_meant(
    tables: Seq<(Option<Seq<char>>, Option<Seq<char>>)>,
    id: Seq<char>,
    at: int,
)
    ensures
        0 <= at < tables.len() && tables[at].0 == Some(id) && (forall|k: int|
            0 <= k < at ==> (#[trigger] tables[k]).0 != Some(id)) ==> place_of_id(tables, id)
            == Some(at),
        (forall|k: int| 0 <= k < tables.len() ==> (#[trigger] tables[k]).0 != Some(id))
            ==> place_of_id(tables, id) is None,
{
    if 0 <= at < tables.len() && tables[at].0 == Some(id) && (forall|k: int|
        0 <= k < at ==> (#[trigger] tables[k]).0 != Some(id)) {
        place_is(tables, id, Some(at));
    }
    if forall|k: int| 0 <= k < tables.len() ==> (#[trigger] tables[k]).0 != Some(id) {
        place_is(tables, id, None);
    }
}

/// What an edit comes to: nothing is written where no familiar has the identifier; else the
/// new text gives the first that has it the icon without the space around it, or none where
/// nothing is left, and holds all the rest as it was.
pub proof fn edits_give_or_take_an_icon(
    edit: IconEdit,
    tables: Seq<(Option<Seq<char>>, Option<Seq<char>>)>,
    rest: (Json, Multiset<Seq<char>>),
    id: Seq<char>,
    icon: Option<Seq<char>>,
    at: int,
)
    requires
        edits_icon(edit, tables, rest, id, icon),
    ensures
        (forall|k: int| 0 <= k < tables.len() ==> (#[trigger] tables[k]).0 != Some(id))
            ==> edit.outcome == WriteFamiliarIconOutcome::NotFound && edit.text is None,
        0 <= at < tables.len() && tables[at].0 == Some(id) && (forall|k: int|
            0 <= k < at ==> (#[trigger] tables[k]).0 != Some(id)) ==> {
            let kept = icon matches Some(glyph) && trimmed(glyph).len() > 0;
            let given = if kept {
                Some(trimmed(icon->0))
            } else {
                None
            };
            &&& edit.outcome == if kept {
                WriteFamiliarIconOutcome::Updated
            } else {
                WriteFamiliarIconOutcome::Cleared
            }
            &&& edit.text is Some
            &&& toml_parsed(edit.text->0@) == Ok::<_, Seq<char>>(
                tables.update(at, (Some(id), given)),
            )
            &&& toml_rest(edit.text->0@) == rest
        },
{
    the_first_familiar_is_meant(tables, id, at);
}

/// An icon is refused only where a familiar is to have it and it cannot be written.
pub proof fn icons_are_refused_for_quotes_alone(
    tables: Seq<(Option<Seq<char>>, Option<Seq<char>>)>,
    id: Seq<char>,
    icon: Option<Seq<char>>,
)
    ensures
        icon is None ==> !icon_is_refused(tables, id, icon),
        icon matches Some(glyph) ==> (icon_is_refused(tables, id, icon) <==> (exists|k: int|
            0 <= k < tables.len() && (#[trigger] tables[k]).0 == Some(id)) && trimmed(glyph).len()
            > 0 && !can_be_written(trimmed(glyph))),
        ICON_REFUSED@ == "icon holds too many quotes in a row"@,
{
    if place_of_id(tables, id) is None {
        no_place_no_table(tables, id);
    } else {
        let at = place_is_taken(tables, id);
        assert(tables[at].0 == Some(id));
    }
}

proof fn no_place_no_table(tables: Seq<(Option<Seq<char>>, Option<Seq<char>>)>, id: Seq<char>)
    requires
        place_of_id(tables, id) is None,
    ensures
        forall|k: int| 0 <= k < tables.len() ==> (#[trigger] tables[k]).0 != Some(id),
    decreases tables.len(),
{
    if tables.len() > 0 {
        no_place_no_table(tables.skip(1), id);
        assert forall|k: int| 0 <= k < tables.len() implies (#[trigger] tables[k]).0 != Some(
            id,
        ) by {
            if k > 0 {
                assert(tables.skip(1)[k - 1].0 != Some(id));
            }
        }
    }
}

proof fn place_is_taken(
    tables: Seq<(Option<Seq<char>>, Option<Seq<char>>)>,
    id: Seq<char>,
) -> (at: int)
    requires
        place_of_id(tables, id) is Some,
    ensures
        place_of_id(tables, id) == Some(at),
        0 <= at < tables.len(),
        tables[at].0 == Some(id),
    decreases tables.len(),
{
    if tables[0].0 == Some(id) {
        0
    } else {
        let at = place_is_taken(tables.skip(1), id);
        at + 1
    }
}

/// A skill is known by its directory and shows what is declared of it; without an author,
/// a category or a version it is of unknown owner, general, and of version `0.0.0`.
pub proof fn skills_are_shown_as_declared(skill: Skill, id: Seq<char>, metadata: SkillMetadata)
    requires
        is_skill(skill, id, metadata),
    ensures
        skill.id@ == id,
        skill.name@ == metadata.name@,
        skill.description@ == metadata.description@,
        skill.tags@ == metadata.tags@,
        metadata.author matches Some(author) ==> skill.owner@ == author@,
        metadata.author is None ==> skill.owner@ == "unknown"@,
        metadata.category matches Some(category) ==> skill.category@ == category@,
        metadata.category is None ==> skill.category@ == "general"@,
        metadata.version matches Some(version) ==> skill.version@ == version@,
        metadata.version is None ==> skill.version@ == "0.0.0"@,
{
}

/// Every familiar that is declared is shown, in the order of the declarations.
pub proof fn every_familiar_is_shown(
    entries: &Vec<FamiliarEntry>,
    freshness: &Vec<String>,
    user_home: Option<&str>,
    windows: bool,
    shown: Vec<FamiliarDto>,
    i: int,
)
    requires
        call_ensures(read_familiars, (entries, freshness, user_home, windows), shown),
        0 <= i < entries@.len(),
    ensures
        shown@.len() == entries@.len(),
        shown@[i].id@ == entries@[i].id@,
        shown@[i].display_name@ == entries@[i].display_name@,
        shown@[i].memory_freshness@ == freshness@[i]@,
        shown@[i].status@ == "offline"@,
{
    let home = match user_home {
        Some(home) => Some(home@),
        None => None,
    };
    assert(presents(shown@[i], entries@[i], freshness@[i]@, home, windows));
}

/// Writing an icon tells what is wrong with the text where it is none, refuses an icon that
/// cannot be written, and else gives an edit that keeps all the rest.
pub proof fn writing_an_icon_keeps_the_rest(
    text: &str,
    id: &str,
    icon: Option<&str>,
    edit: Result<IconEdit, String>,
)
    requires
        call_ensures(write_familiar_icon, (text, id, icon), edit),
    ensures
        ({
            let asked = match icon {
                Some(glyph) => Some(glyph@),
                None => None,
            };
            &&& toml_parsed(text@) matches Err(complaint) ==> (edit matches Err(error) && error@
                == complaint)
            &&& toml_parsed(text@) matches Ok(tables) ==> {
                &&& edit is Err <==> icon_is_refused(tables, id@, asked)
                &&& edit matches Err(error) ==> error@ == "icon holds too many quotes in a row"@
                &&& edit matches Ok(made) ==> edits_icon(
                    made,
                    tables,
                    toml_rest(text@),
                    id@,
                    asked,
                )
            }
        }),
{
}

/// Skills come in the order of their identifiers, each as often as it was found.
pub proof fn skills_come_in_order(found: Vec<Skill>, skills: Vec<Skill>, i: int, j: int)
    requires
        call_ensures(scan_skills, (found,), skills),
    ensures
        skills@.to_multiset() == found@.to_multiset(),
        0 <= i < j < skills@.len() ==> !crate::order::precedes(skills@[j].id@, skills@[i].id@),
{
    crate::order::sorted_by_key_is_sorted(found@);
    if 0 <= i < j < skills@.len() {
        assert(!crate::order::precedes(skills@[j].key(), skills@[i].key()));
    }
}

/// A familiar's directory and its icon are what is said of them.
pub proof fn workspaces_and_icons_are_told(
    coven_home: &str,
    familiars: &Vec<FamiliarDto>,
    id: &str,
    windows: bool,
    path: String,
    declared: &str,
    user_home: Option<&str>,
    workspace: String,
    icon: Option<&str>,
    normalized: Option<String>,
)
    requires
        call_ensures(familiar_workspace, (coven_home, familiars, id, windows), path),
        call_ensures(expand_workspace, (declared, user_home, windows), workspace),
        call_ensures(normalized_icon, (icon,), normalized),
    ensures
        path@ == familiar_home(coven_home@, familiars@, id@, windows),
        user_home is None ==> workspace@ == declared@,
        user_home matches Some(home) ==> workspace@ == workspace_of(declared@, Some(home@), windows),
        icon is None ==> normalized is None,
        normalized matches Some(glyph) ==> glyph@ == trimmed(icon->0@) && glyph@.len() > 0,
        icon matches Some(text) ==> (trimmed(text@).len() > 0 ==> normalized is Some),
{
}

} // verus!
