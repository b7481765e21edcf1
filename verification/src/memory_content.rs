//! The content of memories: reading it, cutting an excerpt out of it, and the views of a
//! memory and of all memories that are built from it.

use crate::digest::{in_calendar, is_uuid, rfc3339, rfc3339_of, uuid_is_valid};
use crate::http::text_from_utf8;
use crate::memory::{
    classify_opened_handle_error, classify_path_open_error, is_missing_or_unsafe, plain_dir,
    plain_file, EntryKind, MemoryCapabilitiesDto, MemoryContentError, MemoryDetailDto,
    MemoryFileDto, MemoryOverviewDto, MemoryOverviewTotalsDto, MemoryOverviewVerificationDto,
    MemoryPrivacyDto, MemoryRecord, MemorySupersessionDto, MemoryVerificationDto, OpenFailure,
    MEMORY_CONTENT_MAX_BYTES,
};
use crate::order::{precedes, precedes_is_total, precedes_is_transitive, text_precedes};
use crate::text::{
    byte_len, chars_of, joined, lines, lines_of, list_holds, same_text, slice_copy, text_of,
    trim_text, trimmed, views,
};
use vstd::prelude::*;
use vstd::string::*;
use vstd::utf8::{encode_utf8, valid_utf8};

verus! {

/// What stands in the way of reading a memory, given what opening its directory, looking at
/// it, opening the file, looking at it, asking whether it counts as restored elsewhere and
/// going back to its start came to.
pub open spec fn record_refusal(
    directory: Result<(), OpenFailure>,
    directory_kind: Result<EntryKind, OpenFailure>,
    file: Result<(), OpenFailure>,
    file_kind: Result<EntryKind, OpenFailure>,
    restored: bool,
    rewound: Result<(), OpenFailure>,
) -> Option<MemoryContentError> {
    match directory {
        Err(failure) => Some(path_failure(failure)),
        Ok(_) => match directory_kind {
            Err(failure) => Some(MemoryContentError::Unavailable(failure)),
            Ok(kind) => if !plain_dir(kind) {
                Some(MemoryContentError::MissingOrUnsafe)
            } else {
                match file {
                    Err(failure) => Some(path_failure(failure)),
                    Ok(_) => match file_kind {
                        Err(failure) => Some(MemoryContentError::Unavailable(failure)),
                        Ok(kind) => if !plain_file(kind) || restored {
                            Some(MemoryContentError::MissingOrUnsafe)
                        } else {
                            match rewound {
                                Err(failure) => Some(
                                    MemoryContentError::Unavailable(failure),
                                ),
                                Ok(_) => None,
                            }
                        },
                    },
                }
            },
        },
    }
}

/// What a failure to open a path means for the content behind it.
pub open spec fn path_failure(failure: OpenFailure) -> MemoryContentError {
    if is_missing_or_unsafe(failure) {
        MemoryContentError::MissingOrUnsafe
    } else {
        MemoryContentError::Unavailable(failure)
    }
}

/// Whether a memory can be read, given what the steps of opening it came to. A step that
/// was not taken, because an earlier one decided, does not matter.
pub fn open_record(
    directory: Result<(), OpenFailure>,
    directory_kind: Result<EntryKind, OpenFailure>,
    file: Result<(), OpenFailure>,
    file_kind: Result<EntryKind, OpenFailure>,
    restored: bool,
    rewound: Result<(), OpenFailure>,
) -> (opened: Result<(), MemoryContentError>)
    ensures
        match record_refusal(directory, directory_kind, file, file_kind, restored, rewound) {
            Some(error) => opened == Err::<(), MemoryContentError>(error),
            None => opened is Ok,
        },
{
    if let Err(failure) = directory {
        return Err(classify_path_open_error(failure));
    }
    match directory_kind {
        Err(failure) => {
            return Err(classify_opened_handle_error(failure));
        },
        Ok(kind) => {
            if !kind.is_dir || kind.is_reparse_point {
                return Err(MemoryContentError::MissingOrUnsafe);
            }
        },
    }
    if let Err(failure) = file {
        return Err(classify_path_open_error(failure));
    }
    match file_kind {
        Err(failure) => {
            return Err(classify_opened_handle_error(failure));
        },
        Ok(kind) => {
            if !kind.is_file || kind.is_reparse_point {
                return Err(MemoryContentError::MissingOrUnsafe);
            }
        },
    }
    if restored {
        return Err(MemoryContentError::MissingOrUnsafe);
    }
    if let Err(failure) = rewound {
        return Err(classify_opened_handle_error(failure));
    }
    Ok(())
}

/// The content of a memory, given the length that its file reports and the bytes read from
/// it: text of at most the limit.
pub fn read_memory_content(
    reported: Result<u64, OpenFailure>,
    read: Result<Vec<u8>, OpenFailure>,
) -> (content: Result<String, MemoryContentError>)
    ensures
        match content {
            Ok(text) => {
                &&& reported matches Ok(length) && length <= MEMORY_CONTENT_MAX_BYTES
                &&& read matches Ok(bytes) && bytes@.len() <= MEMORY_CONTENT_MAX_BYTES
                    && encode_utf8(text@) == bytes@
            },
            Err(MemoryContentError::TooLarge { max_bytes }) => {
                &&& max_bytes == MEMORY_CONTENT_MAX_BYTES
                &&& reported is Ok
                &&& {
                    ||| reported->Ok_0 > MEMORY_CONTENT_MAX_BYTES
                    ||| read matches Ok(bytes) && bytes@.len() > MEMORY_CONTENT_MAX_BYTES
                }
            },
            Err(MemoryContentError::Unavailable(error)) => {
                ||| reported matches Err(failure) && error == failure
                ||| reported matches Ok(length) && length <= MEMORY_CONTENT_MAX_BYTES && (read
                    matches Err(failure) && error == failure)
            },
            Err(MemoryContentError::InvalidUtf8) => {
                &&& reported matches Ok(length) && length <= MEMORY_CONTENT_MAX_BYTES
                &&& read matches Ok(bytes) && bytes@.len() <= MEMORY_CONTENT_MAX_BYTES
                    && !valid_utf8(bytes@)
            },
            Err(MemoryContentError::MissingOrUnsafe) => false,
        },
{
    match reported {
        Err(error) => {
            return Err(MemoryContentError::Unavailable(error));
        },
        Ok(length) => {
            if length > MEMORY_CONTENT_MAX_BYTES {
                return Err(MemoryContentError::TooLarge { max_bytes: MEMORY_CONTENT_MAX_BYTES });
            }
        },
    }
    match read {
        Err(error) => Err(MemoryContentError::Unavailable(error)),
        Ok(bytes) => {
            if bytes.len() as u64 > MEMORY_CONTENT_MAX_BYTES {
                return Err(MemoryContentError::TooLarge { max_bytes: MEMORY_CONTENT_MAX_BYTES });
            }
            match text_from_utf8(bytes) {
                Ok(text) => Ok(text),
                Err(_) => Err(MemoryContentError::InvalidUtf8),
            }
        },
    }
}

/// How far a reader has come with the block of settings, between two lines of dashes, that
/// may stand before the text of a memory.
#[derive(Debug, Clone, Copy, PartialEq, Eq, Structural)]
pub enum Frontmatter {
    Unseen,
    Inside,
    Passed,
}

/// The first paragraph of the lines that are left, after what was gathered so far.
///
/// A block of settings before the text and headings are passed over; an empty line ends the
/// paragraph once it has begun, and so does a length of `cap` bytes. Behind text, a line of
/// dashes is text.
pub open spec fn paragraph(
    rest: Seq<Seq<char>>,
    gathered: Seq<char>,
    front: Frontmatter,
    cap: nat,
) -> Seq<char>
    decreases rest.len(),
{
    if rest.len() == 0 {
        gathered
    } else {
        let line = trimmed(rest[0]);
        let after = rest.skip(1);
        if front == Frontmatter::Unseen && gathered.len() == 0 && line == "---"@ {
            paragraph(after, gathered, Frontmatter::Inside, cap)
        } else if front == Frontmatter::Inside {
            if line == "---"@ {
                paragraph(after, gathered, Frontmatter::Passed, cap)
            } else {
                paragraph(after, gathered, Frontmatter::Inside, cap)
            }
        } else if line.len() == 0 {
            if gathered.len() > 0 {
                gathered
            } else {
                paragraph(after, gathered, front, cap)
            }
        } else if line[0] == '#' {
            paragraph(after, gathered, front, cap)
        } else {
            let longer = with_line(gathered, line);
            if encode_utf8(longer).len() >= cap {
                longer
            } else {
                paragraph(after, longer, front, cap)
            }
        }
    }
}

/// What was gathered, with one more line behind a space.
pub open spec fn with_line(gathered: Seq<char>, line: Seq<char>) -> Seq<char> {
    if gathered.len() > 0 {
        gathered + " "@ + line
    } else {
        line
    }
}

/// A text, cut to `cap` characters with a mark where something was cut.
pub open spec fn ellipsis(text: Seq<char>, cap: nat) -> Seq<char> {
    if text.len() > cap {
        text.take(cap as int).push('\u{2026}')
    } else {
        text
    }
}

/// The excerpt of a memory: its first paragraph, cut to `cap` characters.
pub open spec fn excerpt_of(body: Seq<char>, cap: nat) -> Seq<char> {
    ellipsis(paragraph(lines(body), seq![], Frontmatter::Unseen, cap), cap)
}

/// The excerpt of a memory: its first paragraph, cut to `cap` characters.
pub fn first_paragraph(body: &str, cap: usize) -> (excerpt: String)
    ensures
        excerpt@ == excerpt_of(body@, cap as nat),
{
    let gathered = gather_paragraph(body, cap);
    let chars = chars_of(gathered.as_str());
    if chars.len() > cap {
        let mut cut = slice_copy(chars.as_slice(), 0, cap);
        assert(cut@ =~= gathered@.take(cap as int));
        cut.push('\u{2026}');
        text_of(cut.as_slice())
    } else {
        gathered
    }
}

fn gather_paragraph(body: &str, cap: usize) -> (gathered: String)
    ensures
        gathered@ == paragraph(lines(body@), seq![], Frontmatter::Unseen, cap as nat),
{
    let all = lines_of(body);
    let ghost whole = views(all@);
    let mut gathered: String = "".to_owned();
    let mut front = Frontmatter::Unseen;
    let mut i: usize = 0;
    proof {
        reveal_strlit("");
        assert(gathered@ =~= seq![]);
        assert(whole.skip(0) =~= whole);
    }
    while i < all.len()
        invariant
            i <= all@.len(),
            whole == views(all@),
            paragraph(whole, seq![], Frontmatter::Unseen, cap as nat) == paragraph(
                whole.skip(i as int),
                gathered@,
                front,
                cap as nat,
            ),
            whole == lines(body@),
        decreases all@.len() - i,
    {
        let ghost rest = whole.skip(i as int);
        let line = trim_text(all[i].as_str());
        assert(rest[0] == all@[i as int]@);
        assert(rest.skip(1) =~= whole.skip(i as int + 1));
        i += 1;
        let dashes = same_text(line.as_str(), "---");
        let begun = byte_len(gathered.as_str()) > 0;
        proof {
            no_bytes_no_chars(gathered@);
        }
        if front == Frontmatter::Unseen && !begun && dashes {
            front = Frontmatter::Inside;
        } else if front == Frontmatter::Inside {
            if dashes {
                front = Frontmatter::Passed;
            }
        } else {
            let chars = chars_of(line.as_str());
            if chars.len() == 0 {
                if begun {
                    return gathered;
                }
            } else if chars[0] != '#' {
                if begun {
                    gathered = joined(joined(gathered.as_str(), " ").as_str(), line.as_str());
                } else {
                    gathered = line;
                }
                if byte_len(gathered.as_str()) >= cap {
                    return gathered;
                }
            }
        }
    }
    assert(whole.skip(i as int).len() == 0);
    gathered
}

proof fn no_bytes_no_chars(text: Seq<char>)
    ensures
        encode_utf8(text).len() == 0 <==> text.len() == 0,
{
    reveal_with_fuel(encode_utf8, 2);
}

/// An excerpt has at most one character more than it was cut to.
pub proof fn excerpts_are_short(body: Seq<char>, cap: nat)
    ensures
        excerpt_of(body, cap).len() <= cap + 1,
{
}

/// A text that is short enough is its own excerpt, where it is one plain line.
pub proof fn short_lines_are_kept(line: Seq<char>, cap: nat)
    requires
        trimmed(line) == line,
        line.len() > 0,
        line[0] != '#',
        line != "---"@,
        line.len() <= cap,
    ensures
        ellipsis(paragraph(seq![line], seq![], Frontmatter::Unseen, cap), cap) == line,
{
    reveal_with_fuel(paragraph, 3);
}

/// Whether an entry shows a memory with a given excerpt.
pub open spec fn shows(entry: MemoryFileDto, record: MemoryRecord, excerpt: Seq<char>) -> bool {
    &&& entry.id@ == record.id@
    &&& entry.familiar_id@ == record.familiar_id@
    &&& entry.title@ == record.title@
    &&& entry.path@ == record.relative_path@
    &&& entry.updated_at@ == record.updated_at@
    &&& entry.updated_at_iso@ == record.updated_at_iso@
    &&& entry.excerpt@ == excerpt
    &&& entry.source.kind@ == record.source.kind@
    &&& entry.source.label@ == record.source.label@
    &&& entry.privacy_classification is None
    &&& entry.reveal_required is None
    &&& entry.verification_state@ == "unknown"@
}

/// The excerpt that is shown of what reading a memory came to: nothing where it could not
/// be read.
pub open spec fn shown_excerpt(content: Result<String, MemoryContentError>) -> Seq<char> {
    match content {
        Ok(body) => excerpt_of(body@, 200),
        Err(_) => ""@,
    }
}

/// The list of memories, in the order in which they were found, given what reading each of
/// them came to.
pub fn scan_memory(
    records: Vec<MemoryRecord>,
    contents: &Vec<Result<String, MemoryContentError>>,
) -> (entries: Vec<MemoryFileDto>)
    requires
        contents@.len() == records@.len(),
    ensures
        entries@.len() == records@.len(),
        forall|i: int|
            0 <= i < entries@.len() ==> shows(
                #[trigger] entries@[i],
                records@[i],
                shown_excerpt(contents@[i]),
            ),
{
    let mut entries: Vec<MemoryFileDto> = Vec::new();
    let mut i: usize = 0;
    while i < records.len()
        invariant
            i <= records@.len(),
            contents@.len() == records@.len(),
            entries@.len() == i,
            forall|k: int|
                0 <= k < i ==> shows(
                    #[trigger] entries@[k],
                    records@[k],
                    shown_excerpt(contents@[k]),
                ),
        decreases records@.len() - i,
    {
        let excerpt = match &contents[i] {
            Ok(body) => first_paragraph(body.as_str(), 200),
            Err(_) => "".to_owned(),
        };
        let record = &records[i];
        entries.push(
            MemoryFileDto {
                id: record.id.clone(),
                familiar_id: record.familiar_id.clone(),
                title: record.title.clone(),
                path: record.relative_path.clone(),
                updated_at: record.updated_at.clone(),
                updated_at_iso: record.updated_at_iso.clone(),
                excerpt,
                source: record.source.copy(),
                privacy_classification: None,
                reveal_required: None,
                verification_state: "unknown".to_owned(),
            },
        );
        i += 1;
    }
    entries
}

/// The memory that an identifier names: none where it is no identifier at all.
pub fn find_memory<'a>(id: &str, records: &'a Vec<MemoryRecord>) -> (found: Option<&'a MemoryRecord>)
    ensures
        match found {
            Some(record) => is_uuid(id@) && exists|i: int|
                0 <= i < records@.len() && *record == #[trigger] records@[i] && records@[i].id@
                    == id@ && forall|k: int| 0 <= k < i ==> (#[trigger] records@[k]).id@ != id@,
            None => !is_uuid(id@) || forall|k: int|
                0 <= k < records@.len() ==> (#[trigger] records@[k]).id@ != id@,
        },
{
    if !uuid_is_valid(id) {
        return None;
    }
    let mut i: usize = 0;
    while i < records.len()
        invariant
            i <= records@.len(),
            is_uuid(id@),
            forall|k: int| 0 <= k < i ==> (#[trigger] records@[k]).id@ != id@,
        decreases records@.len() - i,
    {
        if same_text(records[i].id.as_str(), id) {
            return Some(&records[i]);
        }
        i += 1;
    }
    None
}

/// A memory with its content, given what reading it came to.
pub fn read_memory_detail(record: &MemoryRecord, content: Result<String, MemoryContentError>) -> (detail:
    Result<MemoryDetailDto, MemoryContentError>)
    ensures
        match (detail, content) {
            (Ok(detail), Ok(body)) => {
                &&& detail.id@ == record.id@
                &&& detail.familiar_id@ == record.familiar_id@
                &&& detail.title@ == record.title@
                &&& detail.updated_at@ == record.updated_at_iso@
                &&& detail.source.kind@ == record.source.kind@
                &&& detail.source.label@ == record.source.label@
                &&& detail.content@ == body@
                &&& detail.content_format@ == "markdown"@
                &&& detail.privacy.classification is None
                &&& detail.privacy.reveal_required is None
                &&& detail.privacy.reason@ == "privacy taxonomy unavailable"@
                &&& detail.verification.state@ == "unknown"@
                &&& detail.verification.reason@ == "verification metadata unavailable"@
                &&& detail.attestation is None
                &&& detail.supersession.supersedes is None
                &&& detail.supersession.superseded_by is None
            },
            (Err(error), Err(cause)) => error == cause,
            _ => false,
        },
{
    match content {
        Err(error) => Err(error),
        Ok(body) => Ok(
            MemoryDetailDto {
                id: record.id.clone(),
                familiar_id: record.familiar_id.clone(),
                title: record.title.clone(),
                updated_at: record.updated_at_iso.clone(),
                source: record.source.copy(),
                content: body,
                content_format: "markdown".to_owned(),
                privacy: MemoryPrivacyDto {
                    classification: None,
                    reveal_required: None,
                    reason: "privacy taxonomy unavailable".to_owned(),
                },
                verification: MemoryVerificationDto {
                    state: "unknown".to_owned(),
                    reason: "verification metadata unavailable".to_owned(),
                },
                attestation: None,
                supersession: MemorySupersessionDto { supersedes: None, superseded_by: None },
            },
        ),
    }
}

/// The familiars that memories belong to.
pub open spec fn familiars_of(records: Seq<MemoryRecord>) -> Set<Seq<char>> {
    records.map_values(|record: MemoryRecord| record.familiar_id@).to_set()
}

/// Whether a text is the latest instant of change among memories.
pub open spec fn is_latest(text: Seq<char>, records: Seq<MemoryRecord>) -> bool {
    &&& exists|i: int| 0 <= i < records.len() && (#[trigger] records[i]).updated_at_iso@ == text
    &&& forall|i: int|
        0 <= i < records.len() ==> !precedes(text, (#[trigger] records[i]).updated_at_iso@)
}

/// The memories as a whole, at an instant.
pub fn memory_overview(records: &Vec<MemoryRecord>, now_seconds: i64) -> (overview:
    MemoryOverviewDto)
    requires
        in_calendar(now_seconds as int, 0),
    ensures
        overview.generated_at@ == rfc3339(now_seconds as int, 0, false),
        overview.totals.entries == records@.len(),
        overview.totals.familiars == familiars_of(records@).len(),
        overview.totals.verified == 0,
        overview.totals.needs_review == 0,
        overview.totals.unknown == records@.len(),
        match overview.last_updated_at {
            Some(text) => is_latest(text@, records@),
            None => records@.len() == 0,
        },
        overview.capabilities == (MemoryCapabilitiesDto {
            detail: true,
            verification: false,
            attestation_metadata: false,
            supersession_history: false,
            mutations: false,
        }),
        overview.verification.state@ == "unavailable"@,
        overview.verification.checked_at@ == overview.generated_at@,
        overview.verification.manifest is None,
        overview.verification.index is None,
        overview.verification.issues@.len() == 0,
{
    let familiars: usize = count_familiars(records);
    let last_updated_at = latest_change(records);
    let generated_at = rfc3339_of(now_seconds, 0, false);
    MemoryOverviewDto {
        generated_at: generated_at.clone(),
        totals: MemoryOverviewTotalsDto {
            entries: records.len(),
            familiars,
            verified: 0,
            needs_review: 0,
            unknown: records.len(),
        },
        last_updated_at,
        capabilities: MemoryCapabilitiesDto {
            detail: true,
            verification: false,
            attestation_metadata: false,
            supersession_history: false,
            mutations: false,
        },
        verification: MemoryOverviewVerificationDto {
            state: "unavailable".to_owned(),
            checked_at: generated_at,
            manifest: None,
            index: None,
            issues: Vec::new(),
        },
    }
}

fn count_familiars(records: &Vec<MemoryRecord>) -> (count: usize)
    ensures
        count == familiars_of(records@).len(),
{
    let mut seen: Vec<String> = Vec::new();
    let mut i: usize = 0;
    let ghost ids = records@.map_values(|record: MemoryRecord| record.familiar_id@);
    assert(views(seen@) =~= seq![]);
    assert(ids.take(0) =~= seq![]);
    while i < records.len()
        invariant
            i <= records@.len(),
            ids == records@.map_values(|record: MemoryRecord| record.familiar_id@),
            views(seen@).no_duplicates(),
            forall|id: Seq<char>| #[trigger]
                views(seen@).contains(id) <==> ids.take(i as int).contains(id),
        decreases records@.len() - i,
    {
        let id = &records[i].familiar_id;
        let ghost before = views(seen@);
        let ghost earlier = ids.take(i as int);
        let ghost now = ids.take(i as int + 1);
        assert(now =~= earlier.push(id@));
        assert(now[i as int] == id@);
        if !list_holds(seen.as_slice(), id.as_str()) {
            seen.push(id.clone());
            assert(views(seen@) =~= before.push(id@));
            proof {
                let grown = views(seen@);
                assert forall|text: Seq<char>| #[trigger] grown.contains(text) <==> now.contains(
                    text,
                ) by {
                    assert(before.contains(text) <==> earlier.contains(text));
                    push_contains(before, id@, text);
                    push_contains(earlier, id@, text);
                }
                assert(grown.no_duplicates()) by {
                    assert forall|a: int, b: int|
                        0 <= a < grown.len() && 0 <= b < grown.len() && a != b implies grown[a]
                        != grown[b] by {
                        if a == before.len() {
                            assert(before.contains(before[b]));
                        } else if b == before.len() {
                            assert(before.contains(before[a]));
                        }
                    }
                }
            }
        } else {
            proof {
                assert forall|text: Seq<char>| #[trigger] before.contains(text) <==> now.contains(
                    text,
                ) by {
                    push_contains(earlier, id@, text);
                }
            }
        }
        i += 1;
    }
    proof {
        assert(ids.take(i as int) =~= ids);
        views(seen@).unique_seq_to_set();
        assert(views(seen@).to_set() =~= familiars_of(records@));
    }
    seen.len()
}

proof fn push_contains(list: Seq<Seq<char>>, item: Seq<char>, text: Seq<char>)
    ensures
        list.push(item).contains(text) <==> list.contains(text) || text == item,
{
    let longer = list.push(item);
    if list.contains(text) {
        let i = choose|i: int| 0 <= i < list.len() && list[i] == text;
        assert(longer[i] == text);
    }
    if text == item {
        assert(longer[list.len() as int] == text);
    }
    if longer.contains(text) {
        let i = choose|i: int| 0 <= i < longer.len() && longer[i] == text;
        if i < list.len() {
            assert(list[i] == text);
        }
    }
}

fn latest_change(records: &Vec<MemoryRecord>) -> (latest: Option<String>)
    ensures
        match latest {
            Some(text) => is_latest(text@, records@),
            None => records@.len() == 0,
        },
{
    if records.len() == 0 {
        return None;
    }
    let mut best: usize = 0;
    let mut i: usize = 1;
    proof {
        precedes_is_total(records@[0].updated_at_iso@, records@[0].updated_at_iso@);
    }
    while i < records.len()
        invariant
            best < i <= records@.len(),
            forall|k: int|
                0 <= k < i ==> !precedes(
                    records@[best as int].updated_at_iso@,
                    (#[trigger] records@[k]).updated_at_iso@,
                ),
        decreases records@.len() - i,
    {
        let ghost old_best = records@[best as int].updated_at_iso@;
        let ghost candidate = records@[i as int].updated_at_iso@;
        if text_precedes(records[best].updated_at_iso.as_str(), records[i].updated_at_iso.as_str()) {
            proof {
                assert forall|k: int| 0 <= k < i + 1 implies !precedes(
                    candidate,
                    (#[trigger] records@[k]).updated_at_iso@,
                ) by {
                    let other = records@[k].updated_at_iso@;
                    precedes_is_total(candidate, candidate);
                    if k < i && precedes(candidate, other) {
                        precedes_is_transitive(old_best, candidate, other);
                    }
                }
            }
            best = i;
        }
        i += 1;
    }
    Some(records[best].updated_at_iso.clone())
}

/// A memory is read if and only if its directory could be opened and is plain, its file could
/// be opened, is plain and was not restored elsewhere, and could be read from its start. What
/// is refused as missing or unsafe never says more.
pub proof fn memories_are_read_where_they_are_safe(
    directory: Result<(), OpenFailure>,
    directory_kind: Result<EntryKind, OpenFailure>,
    file: Result<(), OpenFailure>,
    file_kind: Result<EntryKind, OpenFailure>,
    restored: bool,
    rewound: Result<(), OpenFailure>,
)
    ensures
        ({
            let refusal = record_refusal(
                directory,
                directory_kind,
                file,
                file_kind,
                restored,
                rewound,
            );
            let in_place = directory_kind matches Ok(kind) && kind.is_dir && !kind.is_reparse_point;
            let is_memory = file_kind matches Ok(kind) && kind.is_file && !kind.is_reparse_point;
            &&& refusal is None <==> directory is Ok && in_place && file is Ok && is_memory
                && !restored && rewound is Ok
            &&& directory matches Err(failure) ==> refusal == Some(path_failure(failure))
            &&& directory is Ok ==> {
                &&& directory_kind matches Err(failure) ==> refusal == Some(
                    MemoryContentError::Unavailable(failure),
                )
                &&& directory_kind is Ok && !in_place ==> refusal == Some(
                    MemoryContentError::MissingOrUnsafe,
                )
            }
            &&& directory is Ok && in_place ==> {
                &&& file matches Err(failure) ==> refusal == Some(path_failure(failure))
                &&& file is Ok ==> {
                    &&& file_kind matches Err(failure) ==> refusal == Some(
                        MemoryContentError::Unavailable(failure),
                    )
                    &&& file_kind is Ok && (!is_memory || restored) ==> refusal == Some(
                        MemoryContentError::MissingOrUnsafe,
                    )
                    &&& is_memory && !restored ==> (rewound matches Err(failure) ==> refusal
                        == Some(MemoryContentError::Unavailable(failure)))
                }
            }
        }),
{
}

/// A path that cannot be opened hides a memory that is missing or unsafe, or one that is
/// unavailable for the time being.
pub proof fn path_failures_are_sorted(failure: OpenFailure)
    ensures
        is_missing_or_unsafe(failure) ==> path_failure(failure)
            == MemoryContentError::MissingOrUnsafe,
        !is_missing_or_unsafe(failure) ==> path_failure(failure)
            == MemoryContentError::Unavailable(failure),
{
}

proof fn settings_are_inside(
    settings: Seq<Seq<char>>,
    end: Seq<char>,
    rest: Seq<Seq<char>>,
    cap: nat,
)
    requires
        forall|i: int| 0 <= i < settings.len() ==> trimmed(#[trigger] settings[i]) != "---"@,
        trimmed(end) == "---"@,
    ensures
        paragraph(settings.push(end) + rest, seq![], Frontmatter::Inside, cap) == paragraph(
            rest,
            seq![],
            Frontmatter::Passed,
            cap,
        ),
    decreases settings.len(),
{
    let all = settings.push(end) + rest;
    if settings.len() == 0 {
        assert(all[0] == end);
        assert(all.skip(1) =~= rest);
    } else {
        assert(all[0] == settings[0]);
        assert(trimmed(settings[0]) != "---"@);
        assert(all.skip(1) =~= settings.skip(1).push(end) + rest);
        assert forall|i: int| 0 <= i < settings.skip(1).len() implies trimmed(
            #[trigger] settings.skip(1)[i],
        ) != "---"@ by {
            assert(trimmed(settings[i + 1]) != "---"@);
        }
        settings_are_inside(settings.skip(1), end, rest, cap);
    }
}

/// A block of settings between two lines of dashes, before any text, is passed over whole,
/// whatever stands in it; behind it a line of dashes is text.
pub proof fn settings_are_passed_over(
    begin: Seq<char>,
    settings: Seq<Seq<char>>,
    end: Seq<char>,
    rest: Seq<Seq<char>>,
    cap: nat,
)
    requires
        trimmed(begin) == "---"@,
        forall|i: int| 0 <= i < settings.len() ==> trimmed(#[trigger] settings[i]) != "---"@,
        trimmed(end) == "---"@,
    ensures
        paragraph(seq![begin] + (settings.push(end) + rest), seq![], Frontmatter::Unseen, cap)
            == paragraph(rest, seq![], Frontmatter::Passed, cap),
{
    let all = seq![begin] + (settings.push(end) + rest);
    assert(all[0] == begin);
    assert(all.skip(1) =~= settings.push(end) + rest);
    settings_are_inside(settings, end, rest, cap);
}

/// A heading is passed over wherever it stands, and so is an empty line before the text; an
/// empty line behind text ends the paragraph.
pub proof fn headings_and_gaps_are_passed_over(
    line: Seq<char>,
    rest: Seq<Seq<char>>,
    gathered: Seq<char>,
    front: Frontmatter,
    cap: nat,
)
    requires
        front != Frontmatter::Inside,
    ensures
        paragraph(Seq::empty(), gathered, front, cap) == gathered,
        trimmed(line).len() > 0 && trimmed(line)[0] == '#' ==> paragraph(
            seq![line] + rest,
            gathered,
            front,
            cap,
        ) == paragraph(rest, gathered, front, cap),
        trimmed(line).len() == 0 && gathered.len() == 0 ==> paragraph(
            seq![line] + rest,
            gathered,
            front,
            cap,
        ) == paragraph(rest, gathered, front, cap),
        trimmed(line).len() == 0 && gathered.len() > 0 ==> paragraph(
            seq![line] + rest,
            gathered,
            front,
            cap,
        ) == gathered,
{
    let all = seq![line] + rest;
    assert(all[0] == line);
    assert(all.skip(1) =~= rest);
    reveal_strlit("---");
    assert("---"@.len() == 3 && "---"@[0] == '-');
}

/// A line of text joins the paragraph without the space around it, behind one space where
/// there was text before; once the paragraph has the bytes that are asked for, it ends.
pub proof fn text_joins_the_paragraph(
    line: Seq<char>,
    rest: Seq<Seq<char>>,
    gathered: Seq<char>,
    cap: nat,
)
    requires
        trimmed(line).len() > 0,
        trimmed(line)[0] != '#',
    ensures
        ({
            let longer = if gathered.len() == 0 {
                trimmed(line)
            } else {
                gathered.push(' ') + trimmed(line)
            };
            let passed = paragraph(seq![line] + rest, gathered, Frontmatter::Passed, cap);
            let unseen = paragraph(seq![line] + rest, gathered, Frontmatter::Unseen, cap);
            &&& encode_utf8(longer).len() >= cap ==> passed == longer
            &&& encode_utf8(longer).len() < cap ==> passed == paragraph(
                rest,
                longer,
                Frontmatter::Passed,
                cap,
            )
            &&& gathered.len() > 0 || trimmed(line) != "---"@ ==> {
                &&& encode_utf8(longer).len() >= cap ==> unseen == longer
                &&& encode_utf8(longer).len() < cap ==> unseen == paragraph(
                    rest,
                    longer,
                    Frontmatter::Unseen,
                    cap,
                )
            }
        }),
{
    let all = seq![line] + rest;
    assert(all[0] == line);
    assert(all.skip(1) =~= rest);
    reveal_strlit(" ");
    assert(gathered + " "@ =~= gathered.push(' '));
}

/// An excerpt is the first paragraph of the text: where that has more characters than asked
/// for, so many of them and an ellipsis, and else the whole of it.
pub proof fn excerpts_are_first_paragraphs(body: Seq<char>, cap: nat)
    ensures
        ({
            let whole = paragraph(lines(body), Seq::empty(), Frontmatter::Unseen, cap);
            &&& whole.len() <= cap ==> excerpt_of(body, cap) == whole
            &&& whole.len() > cap ==> excerpt_of(body, cap) == whole.take(cap as int) + seq![
                '\u{2026}',
            ]
        }),
{
    let whole = paragraph(lines(body), Seq::empty(), Frontmatter::Unseen, cap);
    if whole.len() > cap {
        assert(whole.take(cap as int) + seq!['\u{2026}'] =~= whole.take(cap as int).push(
            '\u{2026}',
        ));
    }
}

/// In the list of memories an excerpt of two hundred characters is shown, and nothing of what
/// could not be read.
pub proof fn unread_memories_show_nothing(content: Result<String, MemoryContentError>)
    ensures
        content matches Ok(body) ==> shown_excerpt(content) == excerpt_of(body@, 200),
        content is Err ==> shown_excerpt(content).len() == 0,
{
    reveal_strlit("");
}

/// An entry in the list of memories shows the memory's own names and times, its excerpt and
/// where it comes from; nothing is claimed of its privacy or its verification.
pub proof fn entries_show_their_memory(
    entry: MemoryFileDto,
    record: MemoryRecord,
    excerpt: Seq<char>,
)
    requires
        shows(entry, record, excerpt),
    ensures
        entry.id@ == record.id@,
        entry.familiar_id@ == record.familiar_id@,
        entry.title@ == record.title@,
        entry.path@ == record.relative_path@,
        entry.updated_at@ == record.updated_at@,
        entry.updated_at_iso@ == record.updated_at_iso@,
        entry.excerpt@ == excerpt,
        entry.source.kind@ == record.source.kind@,
        entry.source.label@ == record.source.label@,
        entry.privacy_classification is None,
        entry.reveal_required is None,
        entry.verification_state@ == "unknown"@,
{
}

/// The familiars of memories are those that some memory belongs to.
pub proof fn familiars_are_those_of_memories(records: Seq<MemoryRecord>, id: Seq<char>)
    ensures
        familiars_of(records).contains(id) <==> exists|i: int|
            0 <= i < records.len() && (#[trigger] records[i]).familiar_id@ == id,
{
    let ids = records.map_values(|record: MemoryRecord| record.familiar_id@);
    if familiars_of(records).contains(id) {
        assert(ids.contains(id));
        let i = choose|i: int| 0 <= i < ids.len() && ids[i] == id;
        assert(records[i].familiar_id@ == id);
    }
    if exists|i: int| 0 <= i < records.len() && (#[trigger] records[i]).familiar_id@ == id {
        let i = choose|i: int| 0 <= i < records.len() && (#[trigger] records[i]).familiar_id@ == id;
        assert(ids[i] == id);
        assert(ids.contains(id));
    }
}

/// The latest change among memories is that of one of them, and every other is it or comes
/// before it.
pub proof fn latest_changes_come_last(text: Seq<char>, records: Seq<MemoryRecord>, i: int)
    requires
        is_latest(text, records),
        0 <= i < records.len(),
    ensures
        records[i].updated_at_iso@ == text || precedes(records[i].updated_at_iso@, text),
        exists|k: int| 0 <= k < records.len() && (#[trigger] records[k]).updated_at_iso@ == text,
{
    precedes_is_total(text, records[i].updated_at_iso@);
}

/// Content is text of at most 4194304 bytes, whatever length its file reports and however much
/// was read; what is too large, no UTF-8, or could not be had is told apart.
pub proof fn contents_are_bounded_texts(
    reported: Result<u64, OpenFailure>,
    read: Result<Vec<u8>, OpenFailure>,
    content: Result<String, MemoryContentError>,
)
    requires
        call_ensures(read_memory_content, (reported, read), content),
    ensures
        content matches Ok(text) ==> (reported matches Ok(length) && length <= 4_194_304) && (
        read matches Ok(bytes) && bytes@.len() <= 4_194_304 && encode_utf8(text@) == bytes@),
        reported matches Ok(length) ==> (length > 4_194_304 ==> content == Err::<
            String,
            MemoryContentError,
        >(MemoryContentError::TooLarge { max_bytes: 4_194_304 })),
        reported matches Ok(length) ==> (length <= 4_194_304 ==> (read matches Ok(bytes) ==> (
        bytes@.len() > 4_194_304 ==> content == Err::<String, MemoryContentError>(
            MemoryContentError::TooLarge { max_bytes: 4_194_304 },
        )))),
        reported matches Err(failure) ==> content == Err::<String, MemoryContentError>(
            MemoryContentError::Unavailable(failure),
        ),
        reported matches Ok(length) ==> (length <= 4_194_304 ==> (read matches Err(failure)
            ==> content == Err::<String, MemoryContentError>(
            MemoryContentError::Unavailable(failure),
        ))),
{
}

/// A memory is found by its identifier alone, where that is one.
pub proof fn memories_are_found_by_identifier(
    id: &str,
    records: &Vec<MemoryRecord>,
    found: Option<&MemoryRecord>,
)
    requires
        call_ensures(find_memory, (id, records), found),
    ensures
        found matches Some(record) ==> record.id@ == id@ && records@.contains(*record) && is_uuid(
            id@,
        ),
        !is_uuid(id@) ==> found is None,
{
    if let Some(record) = found {
        let k = choose|k: int|
            0 <= k < records@.len() && *record == #[trigger] records@[k] && records@[k].id@
                == id@ && forall|l: int| 0 <= l < k ==> (#[trigger] records@[l]).id@ != id@;
        assert(records@[k] == *record);
    }
}

/// A memory is shown whole with its content, as Markdown and with the instant of its last
/// change; nothing is claimed of its privacy, its verification or what it replaces. Content
/// that could not be had is told as it was.
pub proof fn details_show_the_content(
    record: &MemoryRecord,
    content: Result<String, MemoryContentError>,
    detail: Result<MemoryDetailDto, MemoryContentError>,
)
    requires
        call_ensures(read_memory_detail, (record, content), detail),
    ensures
        detail is Ok <==> content is Ok,
        content matches Ok(body) ==> {
            let shown = detail->Ok_0;
            &&& shown.content@ == body@
            &&& shown.id@ == record.id@
            &&& shown.familiar_id@ == record.familiar_id@
            &&& shown.title@ == record.title@
            &&& shown.updated_at@ == record.updated_at_iso@
            &&& shown.source.kind@ == record.source.kind@
            &&& shown.content_format@ == "markdown"@
            &&& shown.privacy.classification is None
            &&& shown.privacy.reveal_required is None
            &&& shown.verification.state@ == "unknown"@
            &&& shown.attestation is None
            &&& shown.supersession.supersedes is None
            &&& shown.supersession.superseded_by is None
        },
        content matches Err(error) ==> detail == Err::<MemoryDetailDto, MemoryContentError>(error),
{
}

/// The overview counts every memory once, as unverified, and every familiar that has one; its
/// last change is the latest of all.
pub proof fn overviews_count_memories(
    records: &Vec<MemoryRecord>,
    now_seconds: i64,
    overview: MemoryOverviewDto,
)
    requires
        call_ensures(memory_overview, (records, now_seconds), overview),
    ensures
        overview.totals.entries == records@.len(),
        overview.totals.unknown == records@.len(),
        overview.totals.verified == 0,
        overview.totals.needs_review == 0,
        overview.totals.familiars == familiars_of(records@).len(),
        overview.last_updated_at is None <==> records@.len() == 0,
        overview.last_updated_at matches Some(text) ==> is_latest(text@, records@),
        overview.generated_at@ == rfc3339(now_seconds as int, 0, false),
        overview.capabilities.detail,
        !overview.capabilities.verification,
        !overview.capabilities.mutations,
        overview.verification.state@ == "unavailable"@,
{
    if let Some(text) = overview.last_updated_at {
        assert(is_latest(text@, records@));
    }
}

/// The list shows every memory in the order in which they were found.
pub proof fn lists_show_every_memory(
    records: Vec<MemoryRecord>,
    contents: &Vec<Result<String, MemoryContentError>>,
    entries: Vec<MemoryFileDto>,
    i: int,
)
    requires
        call_ensures(scan_memory, (records, contents), entries),
        0 <= i < records@.len(),
    ensures
        entries@.len() == records@.len(),
        shows(entries@[i], records@[i], shown_excerpt(contents@[i])),
        entries@[i].id@ == records@[i].id@,
{
    assert(shows(entries@[i], records@[i], shown_excerpt(contents@[i])));
}

/// The excerpt of a memory has at most one character more than was asked for, and a memory is
/// opened if and only if nothing stands in the way.
pub proof fn excerpts_and_openings(
    body: &str,
    cap: usize,
    excerpt: String,
    directory: Result<(), OpenFailure>,
    directory_kind: Result<EntryKind, OpenFailure>,
    file: Result<(), OpenFailure>,
    file_kind: Result<EntryKind, OpenFailure>,
    restored: bool,
    rewound: Result<(), OpenFailure>,
    opened: Result<(), MemoryContentError>,
)
    requires
        call_ensures(first_paragraph, (body, cap), excerpt),
        call_ensures(
            open_record,
            (directory, directory_kind, file, file_kind, restored, rewound),
            opened,
        ),
    ensures
        excerpt@ == excerpt_of(body@, cap as nat),
        excerpt@.len() <= cap + 1,
        opened is Ok <==> record_refusal(
            directory,
            directory_kind,
            file,
            file_kind,
            restored,
            rewound,
        ) is None,
        opened matches Err(error) ==> record_refusal(
            directory,
            directory_kind,
            file,
            file_kind,
            restored,
            rewound,
        ) == Some(error),
{
}

} // verus!
