//! The memories of familiars: which files count, what they are called, what is shown of
//! them.

use crate::digest::{in_calendar, rfc3339, rfc3339_of, uuid_v5, uuid_v5_of};
use crate::fault::{caused, plain, Fault, FaultView, Probe};
use crate::moment::{ago, relative_time, seconds_between, Moment};
use crate::numbers::{decimal, decimal_text};
use crate::order::{
    precedes, sort_by_key, sorted_by_key, sorting_passes_through_views, Keyed, Named,
};
use crate::serve::IoFaultKind;
use crate::text::{chars_of, ends_with, joined, list_holds, slice_copy, text_of, views};
use serde_json::Value;
use vstd::prelude::*;
use vstd::string::*;
use vstd::utf8::encode_utf8;

verus! {

/// The most bytes of a memory that are read.
pub const MEMORY_CONTENT_MAX_BYTES: u64 = 4_194_304;

/// The namespace in which memories are given their identifiers.
pub const MEMORY_ID_NAMESPACE: u128 = 0x88f4_153f_221e_4f51_9346_7f59_d9b2_8d57;

/// Where a memory comes from.
#[derive(Debug)]
pub struct MemorySourceDto {
    pub kind: String,
    pub label: String,
}

impl MemorySourceDto {
    /// The same source once more.
    pub fn copy(&self) -> (copy: MemorySourceDto)
        ensures
            copy == *self,
    {
        MemorySourceDto { kind: self.kind.clone(), label: self.label.clone() }
    }
}

/// A memory in the list of memories.
#[derive(Debug)]
pub struct MemoryFileDto {
    pub id: String,
    pub familiar_id: String,
    pub title: String,
    pub path: String,
    pub updated_at: String,
    pub updated_at_iso: String,
    pub excerpt: String,
    pub source: MemorySourceDto,
    pub privacy_classification: Option<String>,
    pub reveal_required: Option<bool>,
    pub verification_state: String,
}

/// A memory that was found.
#[derive(Debug)]
pub struct MemoryRecord {
    pub id: String,
    pub familiar_id: String,
    pub title: String,
    pub file_name: String,
    pub relative_path: String,
    pub updated_at: String,
    pub updated_at_iso: String,
    pub source: MemorySourceDto,
}

/// What is known of a memory's privacy.
#[derive(Debug)]
pub struct MemoryPrivacyDto {
    pub classification: Option<String>,
    pub reveal_required: Option<bool>,
    pub reason: String,
}

/// What is known of a memory's verification.
#[derive(Debug)]
pub struct MemoryVerificationDto {
    pub state: String,
    pub reason: String,
}

/// Which memories a memory replaces and is replaced by.
#[derive(Debug)]
pub struct MemorySupersessionDto {
    pub supersedes: Option<String>,
    pub superseded_by: Option<String>,
}

/// A memory with its content.
#[derive(Debug)]
pub struct MemoryDetailDto {
    pub id: String,
    pub familiar_id: String,
    pub title: String,
    pub updated_at: String,
    pub source: MemorySourceDto,
    pub content: String,
    pub content_format: String,
    pub privacy: MemoryPrivacyDto,
    pub verification: MemoryVerificationDto,
    pub attestation: Option<Value>,
    pub supersession: MemorySupersessionDto,
}

/// How many memories there are.
#[derive(Debug, Clone, Copy, PartialEq, Eq, Structural)]
pub struct MemoryOverviewTotalsDto {
    pub entries: usize,
    pub familiars: usize,
    pub verified: usize,
    pub needs_review: usize,
    pub unknown: usize,
}

/// What can be done with memories.
#[derive(Debug, Clone, Copy, PartialEq, Eq, Structural)]
pub struct MemoryCapabilitiesDto {
    pub detail: bool,
    pub verification: bool,
    pub attestation_metadata: bool,
    pub supersession_history: bool,
    pub mutations: bool,
}

/// What is known of the verification of memories.
#[derive(Debug)]
pub struct MemoryOverviewVerificationDto {
    pub state: String,
    pub checked_at: String,
    pub manifest: Option<String>,
    pub index: Option<String>,
    pub issues: Vec<String>,
}

/// The memories as a whole.
#[derive(Debug)]
pub struct MemoryOverviewDto {
    pub generated_at: String,
    pub totals: MemoryOverviewTotalsDto,
    pub last_updated_at: Option<String>,
    pub capabilities: MemoryCapabilitiesDto,
    pub verification: MemoryOverviewVerificationDto,
}

/// The identifier of a memory, given its path below the memory root.
pub open spec fn memory_id_of(relative_path: Seq<char>) -> Seq<char> {
    uuid_v5(MEMORY_ID_NAMESPACE, encode_utf8(relative_path))
}

/// The identifier of a memory, given its path below the memory root.
pub fn memory_id(relative_path: &str) -> (id: String)
    ensures
        id@ == memory_id_of(relative_path@),
{
    uuid_v5_of(MEMORY_ID_NAMESPACE, relative_path.as_bytes())
}

/// Why the content of a memory cannot be had.
#[derive(Debug)]
pub enum MemoryContentError {
    TooLarge { max_bytes: u64 },
    InvalidUtf8,
    MissingOrUnsafe,
    Unavailable(OpenFailure),
}

impl MemoryContentError {
    /// What is said of the failure.
    pub open spec fn text(self) -> Seq<char> {
        match self {
            MemoryContentError::TooLarge { max_bytes } => "memory content exceeds "@ + decimal(
                max_bytes as nat,
            ) + "-byte limit"@,
            MemoryContentError::InvalidUtf8 => "memory content is not valid UTF-8"@,
            MemoryContentError::MissingOrUnsafe => "memory content is missing or unsafe"@,
            MemoryContentError::Unavailable(_) => "memory content is unavailable"@,
        }
    }

    /// What is said of the failure.
    pub fn message(&self) -> (text: String)
        ensures
            text@ == self.text(),
    {
        match self {
            MemoryContentError::TooLarge { max_bytes } => joined(
                joined("memory content exceeds ", decimal_text(*max_bytes).as_str()).as_str(),
                "-byte limit",
            ),
            MemoryContentError::InvalidUtf8 => "memory content is not valid UTF-8".to_owned(),
            MemoryContentError::MissingOrUnsafe => {
                "memory content is missing or unsafe".to_owned()
            },
            MemoryContentError::Unavailable(_) => "memory content is unavailable".to_owned(),
        }
    }
}

/// A failure to open or to read something: its kind, whether it stopped at a link, and its
/// text.
#[derive(Debug)]
pub struct OpenFailure {
    pub kind: IoFaultKind,
    pub is_symlink_loop: bool,
    pub text: String,
}

/// Whether a failure to open a path says that what was to be opened is not there, or is not
/// what it was.
pub open spec fn is_missing_or_unsafe(failure: OpenFailure) -> bool {
    ||| failure.kind == IoFaultKind::NotFound
    ||| failure.kind == IoFaultKind::NotADirectory
    ||| failure.kind == IoFaultKind::InvalidData
    ||| failure.is_symlink_loop
}

/// What a failure to open a path means for the content behind it.
pub fn classify_path_open_error(failure: OpenFailure) -> (error: MemoryContentError)
    ensures
        error == if is_missing_or_unsafe(failure) {
            MemoryContentError::MissingOrUnsafe
        } else {
            MemoryContentError::Unavailable(failure)
        },
{
    if failure.kind == IoFaultKind::NotFound || failure.kind == IoFaultKind::NotADirectory
        || failure.kind == IoFaultKind::InvalidData || failure.is_symlink_loop {
        MemoryContentError::MissingOrUnsafe
    } else {
        MemoryContentError::Unavailable(failure)
    }
}

/// What a failure on something that was opened means for its content.
pub fn classify_opened_handle_error(failure: OpenFailure) -> (error: MemoryContentError)
    ensures
        error == MemoryContentError::Unavailable(failure),
{
    MemoryContentError::Unavailable(failure)
}

/// What kind of thing an entry is.
#[derive(Debug, Clone, Copy, PartialEq, Eq, Structural)]
pub struct EntryKind {
    pub is_dir: bool,
    pub is_file: bool,
    pub is_reparse_point: bool,
}

/// Whether an entry is a directory, and no other thing in its guise.
pub open spec fn plain_dir(kind: EntryKind) -> bool {
    kind.is_dir && !kind.is_reparse_point
}

/// Whether an entry is a file, and no other thing in its guise.
pub open spec fn plain_file(kind: EntryKind) -> bool {
    kind.is_file && !kind.is_reparse_point
}

/// Whether there is a memory root to read, given what opening the home, opening the root
/// below it and looking at the root came to.
pub fn open_memory_root(
    home: Result<(), String>,
    opened: Probe<()>,
    metadata: Result<EntryKind, String>,
) -> (root: Result<bool, Fault>)
    ensures
        match root {
            Ok(present) => home is Ok && match opened {
                Probe::Missing => !present,
                Probe::Failed(_) => false,
                Probe::Found(_) => present && (metadata matches Ok(kind) && plain_dir(kind)),
            },
            Err(fault) => match home {
                Err(error) => fault@ == caused("failed to open Coven home"@, error@),
                Ok(_) => match opened {
                    Probe::Missing => false,
                    Probe::Failed(error) => fault@ == caused(
                        "refusing to open memory root through a symlink or non-directory"@,
                        error@,
                    ),
                    Probe::Found(_) => match metadata {
                        Err(error) => fault@ == caused(
                            "failed to inspect opened memory root"@,
                            error@,
                        ),
                        Ok(kind) => !plain_dir(kind) && fault@ == plain(
                            "refusing to open memory root through a reparse point or non-directory"@,
                        ),
                    },
                },
            },
        },
{
    if let Err(error) = home {
        return Err(Fault::caused("failed to open Coven home", error.as_str()));
    }
    match opened {
        Probe::Missing => Ok(false),
        Probe::Failed(error) => Err(
            Fault::caused(
                "refusing to open memory root through a symlink or non-directory",
                error.as_str(),
            ),
        ),
        Probe::Found(()) => match metadata {
            Err(error) => Err(
                Fault::caused("failed to inspect opened memory root", error.as_str()),
            ),
            Ok(kind) => if !kind.is_dir || kind.is_reparse_point {
                Err(
                    Fault::plain(
                        "refusing to open memory root through a reparse point or non-directory",
                    ),
                )
            } else {
                Ok(true)
            },
        },
    }
}

/// Whether a familiar's directory is read, given what looking at it, opening it, looking at
/// it again where opening failed, and looking at what was opened came to.
pub open spec fn familiar_dir_verdict(
    before: Probe<EntryKind>,
    opened: Probe<()>,
    again: Probe<EntryKind>,
    handle: Probe<EntryKind>,
) -> Result<bool, FaultView> {
    match before {
        Probe::Missing => Ok(false),
        Probe::Failed(error) => Err(
            caused("failed to inspect a familiar memory directory"@, error@),
        ),
        Probe::Found(kind) => if !plain_dir(kind) {
            Ok(false)
        } else {
            match opened {
                Probe::Missing => Ok(false),
                Probe::Failed(open_error) => match again {
                    Probe::Missing => Ok(false),
                    Probe::Failed(error) => Err(
                        caused(
                            "failed to classify a familiar memory directory after an open failure"@,
                            error@,
                        ),
                    ),
                    Probe::Found(now) => if plain_dir(now) {
                        Err(
                            caused("failed to open a familiar memory directory"@, open_error@),
                        )
                    } else {
                        Ok(false)
                    },
                },
                Probe::Found(_) => match handle {
                    Probe::Missing => Ok(false),
                    Probe::Failed(error) => Err(
                        caused(
                            "failed to inspect an opened familiar memory directory"@,
                            error@,
                        ),
                    ),
                    Probe::Found(inside) => Ok(plain_dir(inside)),
                },
            }
        },
    }
}

/// Whether an outcome is the one that a verdict asks for.
pub open spec fn verdict_is(
    outcome: Result<bool, Fault>,
    verdict: Result<bool, FaultView>,
) -> bool {
    match outcome {
        Ok(read) => verdict == Ok::<bool, FaultView>(read),
        Err(fault) => verdict == Err::<bool, FaultView>(fault@),
    }
}

/// Whether a familiar's directory is read.
pub fn open_familiar_dir(
    before: Probe<EntryKind>,
    opened: Probe<()>,
    again: Probe<EntryKind>,
    handle: Probe<EntryKind>,
) -> (outcome: Result<bool, Fault>)
    ensures
        verdict_is(outcome, familiar_dir_verdict(before, opened, again, handle)),
{
    match before {
        Probe::Missing => Ok(false),
        Probe::Failed(error) => Err(
            Fault::caused("failed to inspect a familiar memory directory", error.as_str()),
        ),
        Probe::Found(kind) => if !kind.is_dir || kind.is_reparse_point {
            Ok(false)
        } else {
            match opened {
                Probe::Missing => Ok(false),
                Probe::Failed(open_error) => match again {
                    Probe::Missing => Ok(false),
                    Probe::Failed(error) => Err(
                        Fault::caused(
                            "failed to classify a familiar memory directory after an open failure",
                            error.as_str(),
                        ),
                    ),
                    Probe::Found(now) => if now.is_dir && !now.is_reparse_point {
                        Err(
                            Fault::caused(
                                "failed to open a familiar memory directory",
                                open_error.as_str(),
                            ),
                        )
                    } else {
                        Ok(false)
                    },
                },
                Probe::Found(()) => match handle {
                    Probe::Missing => Ok(false),
                    Probe::Failed(error) => Err(
                        Fault::caused(
                            "failed to inspect an opened familiar memory directory",
                            error.as_str(),
                        ),
                    ),
                    Probe::Found(inside) => Ok(inside.is_dir && !inside.is_reparse_point),
                },
            }
        },
    }
}

/// How long ago a file was changed, or a dash where that is not known.
pub open spec fn freshness(modified: Option<Moment>, now: Moment) -> Seq<char> {
    match modified {
        Some(then) => ago(seconds_between(then, now)),
        None => "\u{2014}"@,
    }
}

/// When a file was changed, as an instant; the epoch where that is not known.
pub open spec fn changed_at(modified: Option<Moment>) -> Seq<char> {
    match modified {
        Some(then) => rfc3339(then.seconds as int, then.nanos as int, false),
        None => rfc3339(0, 0, false),
    }
}

/// Whether a file's last change lies within the calendar.
pub open spec fn datable(modified: Option<Moment>) -> bool {
    modified matches Some(then) ==> then.valid() && in_calendar(
        then.seconds as int,
        then.nanos as int,
    )
}

/// Whether a file name is that of a memory: a stem and the extension of a Markdown file.
pub open spec fn is_markdown(name: Seq<char>) -> bool {
    ".md"@.is_suffix_of(name) && name.len() > 3
}

/// The stem of a memory's file name.
pub open spec fn stem_of(name: Seq<char>) -> Seq<char> {
    name.take(name.len() - 3)
}

/// The stem of a memory's file name, where it is one.
fn memory_title(name: &str) -> (title: Option<String>)
    ensures
        match title {
            Some(stem) => is_markdown(name@) && stem@ == stem_of(name@),
            None => !is_markdown(name@),
        },
{
    let chars = chars_of(name);
    if ends_with(name, ".md") && chars.len() > 3 {
        let stem = slice_copy(chars.as_slice(), 0, chars.len() - 3);
        assert(stem@ =~= stem_of(name@));
        Some(text_of(stem.as_slice()))
    } else {
        None
    }
}

/// What asking about one entry of a familiar's directory came to. An answer that was not
/// asked for, because an earlier one decided, does not matter.
#[derive(Debug)]
pub struct FileProbe {
    /// Its name, where it is UTF-8.
    pub name: Probe<Option<String>>,
    /// Whether it is listed as a regular file.
    pub is_regular: Probe<bool>,
    /// What kind of thing it is.
    pub metadata: Probe<EntryKind>,
    /// Whether what was opened counts as restored elsewhere.
    pub restored: Probe<bool>,
    /// When it was changed last.
    pub modified: Option<Moment>,
}

/// What is done about one entry of a familiar's directory.
pub enum FileVerdict {
    Skip,
    Fail(FaultView),
    Take(Seq<char>),
}

/// What is done about one entry of a familiar's directory. What is gone by the time it is
/// looked at is skipped.
pub open spec fn file_verdict(file: FileProbe) -> FileVerdict {
    match file.name {
        Probe::Missing => FileVerdict::Skip,
        Probe::Failed(error) => FileVerdict::Fail(
            caused("failed to enumerate a memory-file entry"@, error@),
        ),
        Probe::Found(None) => FileVerdict::Skip,
        Probe::Found(Some(name)) => if !is_markdown(name@) {
            FileVerdict::Skip
        } else {
            match file.is_regular {
                Probe::Missing => FileVerdict::Skip,
                Probe::Failed(error) => FileVerdict::Fail(
                    caused("failed to inspect a memory-file entry type"@, error@),
                ),
                Probe::Found(regular) => if !regular {
                    FileVerdict::Skip
                } else {
                    match file.metadata {
                        Probe::Missing => FileVerdict::Skip,
                        Probe::Failed(error) => FileVerdict::Fail(
                            caused("failed to inspect memory-file metadata"@, error@),
                        ),
                        Probe::Found(kind) => if !plain_file(kind) {
                            FileVerdict::Skip
                        } else {
                            match file.restored {
                                Probe::Missing => FileVerdict::Skip,
                                Probe::Failed(error) => FileVerdict::Fail(
                                    caused("failed to open memory-file entry"@, error@),
                                ),
                                Probe::Found(restored) => if restored {
                                    FileVerdict::Skip
                                } else {
                                    FileVerdict::Take(name@)
                                },
                            }
                        },
                    }
                },
            }
        },
    }
}

/// What a found memory holds.
pub struct RecordView {
    pub id: Seq<char>,
    pub familiar_id: Seq<char>,
    pub title: Seq<char>,
    pub file_name: Seq<char>,
    pub relative_path: Seq<char>,
    pub updated_at: Seq<char>,
    pub updated_at_iso: Seq<char>,
    pub source_kind: Seq<char>,
    pub source_label: Seq<char>,
}

impl View for MemoryRecord {
    type V = RecordView;

    open spec fn view(&self) -> RecordView {
        RecordView {
            id: self.id@,
            familiar_id: self.familiar_id@,
            title: self.title@,
            file_name: self.file_name@,
            relative_path: self.relative_path@,
            updated_at: self.updated_at@,
            updated_at_iso: self.updated_at_iso@,
            source_kind: self.source.kind@,
            source_label: self.source.label@,
        }
    }
}

impl Named for MemoryRecord {
    open spec fn key(&self) -> Seq<char> {
        self.relative_path@
    }
}

impl Keyed for MemoryRecord {
    fn key_text(&self) -> (key: &str) {
        self.relative_path.as_str()
    }
}

impl Named for RecordView {
    open spec fn key(&self) -> Seq<char> {
        self.relative_path
    }
}

/// What found memories hold.
pub open spec fn record_views(records: Seq<MemoryRecord>) -> Seq<RecordView> {
    records.map_values(|record: MemoryRecord| record@)
}

/// The path of a memory below the memory root.
pub open spec fn relative_path_of(familiar: Seq<char>, name: Seq<char>) -> Seq<char> {
    familiar + "/"@ + name
}

/// The memory that a file is.
pub open spec fn record_of(
    familiar: Seq<char>,
    name: Seq<char>,
    modified: Option<Moment>,
    now: Moment,
) -> RecordView {
    RecordView {
        id: memory_id_of(relative_path_of(familiar, name)),
        familiar_id: familiar,
        title: stem_of(name),
        file_name: name,
        relative_path: relative_path_of(familiar, name),
        updated_at: freshness(modified, now),
        updated_at_iso: changed_at(modified),
        source_kind: "coven-origin"@,
        source_label: "Coven origin"@,
    }
}

/// Whether a memory has an identifier.
pub open spec fn id_is_taken(records: Seq<RecordView>, id: Seq<char>) -> bool {
    exists|i: int| 0 <= i < records.len() && (#[trigger] records[i]).id == id
}

/// The memories after one more entry of a familiar's directory.
pub open spec fn with_file(
    records: Seq<RecordView>,
    familiar: Seq<char>,
    file: FileProbe,
    now: Moment,
) -> Result<Seq<RecordView>, FaultView> {
    match file_verdict(file) {
        FileVerdict::Skip => Ok(records),
        FileVerdict::Fail(fault) => Err(fault),
        FileVerdict::Take(name) => {
            let record = record_of(familiar, name, file.modified, now);
            if id_is_taken(records, record.id) {
                Err(plain("duplicate memory id generated"@))
            } else {
                Ok(records.push(record))
            }
        },
    }
}

/// The memories after the entries of a familiar's directory.
pub open spec fn with_files(
    records: Seq<RecordView>,
    familiar: Seq<char>,
    files: Seq<FileProbe>,
    now: Moment,
) -> Result<Seq<RecordView>, FaultView>
    decreases files.len(),
{
    if files.len() == 0 {
        Ok(records)
    } else {
        match with_file(records, familiar, files[0], now) {
            Ok(next) => with_files(next, familiar, files.skip(1), now),
            Err(fault) => Err(fault),
        }
    }
}

/// What asking about one entry of the memory root came to.
#[derive(Debug)]
pub struct FamiliarProbe {
    /// Its name, where it is UTF-8.
    pub name: Probe<Option<String>>,
    /// Whether it is listed as a directory.
    pub is_dir: Probe<bool>,
    /// Whether it is read, once it has been opened.
    pub opened: Result<bool, Fault>,
    /// Its entries.
    pub files: Probe<Vec<FileProbe>>,
}

/// The memories after one more entry of the memory root.
pub open spec fn with_familiar(
    records: Seq<RecordView>,
    familiar: FamiliarProbe,
    now: Moment,
) -> Result<Seq<RecordView>, FaultView> {
    match familiar.name {
        Probe::Missing => Ok(records),
        Probe::Failed(error) => Err(caused("failed to enumerate a memory-root entry"@, error@)),
        Probe::Found(None) => Ok(records),
        Probe::Found(Some(name)) => match familiar.is_dir {
            Probe::Missing => Ok(records),
            Probe::Failed(error) => Err(
                caused("failed to inspect a memory-root entry"@, error@),
            ),
            Probe::Found(is_dir) => if !is_dir {
                Ok(records)
            } else {
                match familiar.opened {
                    Err(fault) => Err(fault@),
                    Ok(read) => if !read {
                        Ok(records)
                    } else {
                        match familiar.files {
                            Probe::Missing => Ok(records),
                            Probe::Failed(error) => Err(
                                caused(
                                    "failed to enumerate a familiar memory directory"@,
                                    error@,
                                ),
                            ),
                            Probe::Found(files) => with_files(records, name@, files@, now),
                        }
                    },
                }
            },
        },
    }
}

/// The memories after the entries of the memory root.
pub open spec fn with_familiars(
    records: Seq<RecordView>,
    familiars: Seq<FamiliarProbe>,
    now: Moment,
) -> Result<Seq<RecordView>, FaultView>
    decreases familiars.len(),
{
    if familiars.len() == 0 {
        Ok(records)
    } else {
        match with_familiar(records, familiars[0], now) {
            Ok(next) => with_familiars(next, familiars.skip(1), now),
            Err(fault) => Err(fault),
        }
    }
}

/// Whether no two memories share an identifier.
pub open spec fn ids_differ(records: Seq<RecordView>) -> bool {
    forall|i: int, j: int|
        0 <= i < records.len() && 0 <= j < records.len() && i != j ==> (
        #[trigger] records[i]).id != (#[trigger] records[j]).id
}

/// The memories that a scan finds have identifiers of their own.
pub proof fn scanned_ids_differ(
    records: Seq<RecordView>,
    familiars: Seq<FamiliarProbe>,
    now: Moment,
)
    requires
        ids_differ(records),
    ensures
        with_familiars(records, familiars, now) matches Ok(found) ==> ids_differ(found),
    decreases familiars.len(),
{
    if familiars.len() > 0 {
        let first = familiars[0];
        match (first.name, first.files) {
            (Probe::Found(Some(name)), Probe::Found(files)) => {
                with_files_ids_differ(records, name@, files@, now);
            },
            _ => {},
        }
        if with_familiar(records, first, now) is Ok {
            scanned_ids_differ(
                with_familiar(records, first, now)->Ok_0,
                familiars.skip(1),
                now,
            );
        }
    }
}

proof fn with_files_ids_differ(
    records: Seq<RecordView>,
    familiar: Seq<char>,
    files: Seq<FileProbe>,
    now: Moment,
)
    requires
        ids_differ(records),
    ensures
        with_files(records, familiar, files, now) matches Ok(found) ==> ids_differ(found),
    decreases files.len(),
{
    if files.len() > 0 {
        if with_file(records, familiar, files[0], now) is Ok {
            let next = with_file(records, familiar, files[0], now)->Ok_0;
            assert(ids_differ(next));
            with_files_ids_differ(next, familiar, files.skip(1), now);
        }
    }
}

/// Refuses an identifier that is taken.
pub fn reserve_memory_id(seen: &mut Vec<String>, id: String) -> (reserved: Result<String, Fault>)
    ensures
        match reserved {
            Ok(given) => {
                &&& !views(old(seen)@).contains(id@)
                &&& given@ == id@
                &&& views(final(seen)@) == views(old(seen)@).push(id@)
            },
            Err(fault) => {
                &&& views(old(seen)@).contains(id@)
                &&& fault@ == plain("duplicate memory id generated"@)
                &&& final(seen)@ == old(seen)@
            },
        },
{
    if list_holds(seen.as_slice(), id.as_str()) {
        return Err(Fault::plain("duplicate memory id generated"));
    }
    let ghost before = views(seen@);
    seen.push(id.clone());
    assert(views(seen@) =~= before.push(id@));
    Ok(id)
}

/// The memory that a file is.
fn new_record(
    familiar: &str,
    name: &str,
    title: String,
    modified: Option<Moment>,
    now: Moment,
) -> (record: MemoryRecord)
    requires
        datable(modified),
        now.valid(),
        title@ == stem_of(name@),
    ensures
        record@ == record_of(familiar@, name@, modified, now),
{
    let relative_path = joined(joined(familiar, "/").as_str(), name);
    let id = memory_id(relative_path.as_str());
    let updated_at = match modified {
        Some(then) => relative_time(then, now),
        None => "\u{2014}".to_owned(),
    };
    let updated_at_iso = match modified {
        Some(then) => rfc3339_of(then.seconds, then.nanos, false),
        None => rfc3339_of(0, 0, false),
    };
    MemoryRecord {
        id,
        familiar_id: familiar.to_owned(),
        title,
        file_name: name.to_owned(),
        relative_path,
        updated_at,
        updated_at_iso,
        source: MemorySourceDto {
            kind: "coven-origin".to_owned(),
            label: "Coven origin".to_owned(),
        },
    }
}

/// A scan of the memories: those found so far, and their identifiers.
#[derive(Debug)]
pub struct MemoryScan {
    records: Vec<MemoryRecord>,
    seen: Vec<String>,
}

impl MemoryScan {
    /// The memories found so far.
    pub closed spec fn found(&self) -> Seq<RecordView> {
        record_views(self.records@)
    }

    /// Whether the identifiers are those of the memories.
    pub closed spec fn well_formed(&self) -> bool {
        &&& self.seen@.len() == self.records@.len()
        &&& forall|i: int|
            0 <= i < self.seen@.len() ==> (#[trigger] self.seen@[i])@ == self.records@[i].id@
    }

    /// A scan that has found nothing.
    pub fn new() -> (scan: MemoryScan)
        ensures
            scan.well_formed(),
            scan.found() == Seq::<RecordView>::empty(),
    {
        let scan = MemoryScan { records: Vec::new(), seen: Vec::new() };
        assert(scan.found() =~= Seq::<RecordView>::empty());
        scan
    }

    proof fn taken_ids(&self, id: Seq<char>)
        requires
            self.well_formed(),
        ensures
            views(self.seen@).contains(id) == id_is_taken(self.found(), id),
    {
        let seen = views(self.seen@);
        let found = self.found();
        if seen.contains(id) {
            let i = choose|i: int| 0 <= i < seen.len() && seen[i] == id;
            assert(self.seen@[i]@ == id);
            assert(found[i].id == id);
        }
        if id_is_taken(found, id) {
            let i = choose|i: int| 0 <= i < found.len() && (#[trigger] found[i]).id == id;
            assert(self.seen@[i]@ == self.records@[i].id@);
            assert(seen[i] == id);
        }
    }

    /// Takes up one entry of a familiar's directory.
    pub fn add_file(&mut self, familiar: &str, file: &FileProbe, now: Moment) -> (outcome: Result<
        (),
        Fault,
    >)
        requires
            old(self).well_formed(),
            now.valid(),
            datable(file.modified),
        ensures
            final(self).well_formed(),
            match outcome {
                Ok(()) => with_file(old(self).found(), familiar@, *file, now) == Ok::<
                    Seq<RecordView>,
                    FaultView,
                >(final(self).found()),
                Err(fault) => with_file(old(self).found(), familiar@, *file, now) == Err::<
                    Seq<RecordView>,
                    FaultView,
                >(fault@) && final(self).found() == old(self).found(),
            },
    {
        let name = match &file.name {
            Probe::Missing => {
                return Ok(());
            },
            Probe::Failed(error) => {
                return Err(
                    Fault::caused("failed to enumerate a memory-file entry", error.as_str()),
                );
            },
            Probe::Found(None) => {
                return Ok(());
            },
            Probe::Found(Some(name)) => name.clone(),
        };
        let title = match memory_title(name.as_str()) {
            Some(title) => title,
            None => {
                return Ok(());
            },
        };
        match &file.is_regular {
            Probe::Missing => {
                return Ok(());
            },
            Probe::Failed(error) => {
                return Err(
                    Fault::caused("failed to inspect a memory-file entry type", error.as_str()),
                );
            },
            Probe::Found(regular) => {
                if !*regular {
                    return Ok(());
                }
            },
        }
        match &file.metadata {
            Probe::Missing => {
                return Ok(());
            },
            Probe::Failed(error) => {
                return Err(
                    Fault::caused("failed to inspect memory-file metadata", error.as_str()),
                );
            },
            Probe::Found(kind) => {
                if !kind.is_file || kind.is_reparse_point {
                    return Ok(());
                }
            },
        }
        match &file.restored {
            Probe::Missing => {
                return Ok(());
            },
            Probe::Failed(error) => {
                return Err(Fault::caused("failed to open memory-file entry", error.as_str()));
            },
            Probe::Found(restored) => {
                if *restored {
                    return Ok(());
                }
            },
        }
        let record = new_record(familiar, name.as_str(), title, file.modified, now);
        let ghost before = self.found();
        proof {
            self.taken_ids(record.id@);
        }
        match reserve_memory_id(&mut self.seen, record.id.clone()) {
            Err(fault) => Err(fault),
            Ok(_) => {
                let ghost added = record;
                let ghost seen_before = old(self).seen@;
                self.records.push(record);
                proof {
                    assert(self.found() =~= before.push(added@));
                    assert(views(self.seen@).len() == self.seen@.len());
                    assert(views(seen_before).len() == seen_before.len());
                    assert forall|i: int| 0 <= i < self.seen@.len() implies (
                    #[trigger] self.seen@[i])@ == self.records@[i].id@ by {
                        assert(views(self.seen@)[i] == self.seen@[i]@);
                        if i < seen_before.len() {
                            assert(views(seen_before)[i] == seen_before[i]@);
                            assert(self.records@[i] == old(self).records@[i]);
                        } else {
                            assert(self.records@[i] == added);
                        }
                    }
                }
                Ok(())
            },
        }
    }

    /// Takes up the entries of a familiar's directory.
    fn add_files(&mut self, familiar: &str, files: &Vec<FileProbe>, now: Moment) -> (outcome: Result<
        (),
        Fault,
    >)
        requires
            now.valid(),
            old(self).well_formed(),
            forall|i: int| 0 <= i < files@.len() ==> datable((#[trigger] files@[i]).modified),
        ensures
            final(self).well_formed(),
            match outcome {
                Ok(()) => with_files(old(self).found(), familiar@, files@, now) == Ok::<
                    Seq<RecordView>,
                    FaultView,
                >(final(self).found()),
                Err(fault) => with_files(old(self).found(), familiar@, files@, now) == Err::<
                    Seq<RecordView>,
                    FaultView,
                >(fault@),
            },
    {
        let mut i: usize = 0;
        assert(files@.skip(0) =~= files@);
        while i < files.len()
            invariant
                i <= files@.len(),
                now.valid(),
                self.well_formed(),
                forall|k: int| 0 <= k < files@.len() ==> datable((#[trigger] files@[k]).modified),
                with_files(old(self).found(), familiar@, files@, now) == with_files(
                    self.found(),
                    familiar@,
                    files@.skip(i as int),
                    now,
                ),
            decreases files@.len() - i,
        {
            assert(files@.skip(i as int)[0] == files@[i as int]);
            assert(files@.skip(i as int).skip(1) =~= files@.skip(i as int + 1));
            match self.add_file(familiar, &files[i], now) {
                Ok(()) => {},
                Err(fault) => {
                    return Err(fault);
                },
            }
            i += 1;
        }
        assert(files@.skip(i as int).len() == 0);
        Ok(())
    }

    /// Takes up one entry of the memory root.
    pub fn add_familiar(&mut self, familiar: &FamiliarProbe, now: Moment) -> (outcome: Result<
        (),
        Fault,
    >)
        requires
            now.valid(),
            old(self).well_formed(),
            familiar.files matches Probe::Found(files) ==> forall|i: int|
                0 <= i < files@.len() ==> datable((#[trigger] files@[i]).modified),
        ensures
            final(self).well_formed(),
            match outcome {
                Ok(()) => with_familiar(old(self).found(), *familiar, now) == Ok::<
                    Seq<RecordView>,
                    FaultView,
                >(final(self).found()),
                Err(fault) => with_familiar(old(self).found(), *familiar, now) == Err::<
                    Seq<RecordView>,
                    FaultView,
                >(fault@),
            },
    {
        let name = match &familiar.name {
            Probe::Missing => {
                return Ok(());
            },
            Probe::Failed(error) => {
                return Err(
                    Fault::caused("failed to enumerate a memory-root entry", error.as_str()),
                );
            },
            Probe::Found(None) => {
                return Ok(());
            },
            Probe::Found(Some(name)) => name.clone(),
        };
        match &familiar.is_dir {
            Probe::Missing => {
                return Ok(());
            },
            Probe::Failed(error) => {
                return Err(
                    Fault::caused("failed to inspect a memory-root entry", error.as_str()),
                );
            },
            Probe::Found(is_dir) => {
                if !*is_dir {
                    return Ok(());
                }
            },
        }
        match &familiar.opened {
            Err(fault) => {
                return Err(copy_fault(fault));
            },
            Ok(read) => {
                if !*read {
                    return Ok(());
                }
            },
        }
        match &familiar.files {
            Probe::Missing => Ok(()),
            Probe::Failed(error) => Err(
                Fault::caused("failed to enumerate a familiar memory directory", error.as_str()),
            ),
            Probe::Found(files) => self.add_files(name.as_str(), files, now),
        }
    }

    /// The memories found, in the order of their paths.
    pub fn into_records(self) -> (records: Vec<MemoryRecord>)
        ensures
            record_views(records@) == sorted_by_key(self.found()),
    {
        proof {
            sorting_passes_through_views(self.records@, |record: MemoryRecord| record@);
        }
        sort_by_key(self.records)
    }
}

fn copy_fault(fault: &Fault) -> (copy: Fault)
    ensures
        copy@ == fault@,
{
    Fault {
        message: fault.message.clone(),
        cause: match &fault.cause {
            Some(cause) => Some(cause.clone()),
            None => None,
        },
    }
}

/// Finds the memories, given what asking about each entry of the memory root came to. The
/// first failure ends the scan; what is found is put in the order of its paths.
pub fn enumerate_metadata(familiars: &Vec<FamiliarProbe>, now: Moment) -> (records: Result<
    Vec<MemoryRecord>,
    Fault,
>)
    requires
        now.valid(),
        forall|k: int, i: int|
            #![trigger familiars@[k].files->Found_0@[i]]
            0 <= k < familiars@.len() && familiars@[k].files is Found && 0 <= i
                < familiars@[k].files->Found_0@.len() ==> datable(
                familiars@[k].files->Found_0@[i].modified,
            ),
    ensures
        match records {
            Ok(out) => with_familiars(seq![], familiars@, now) matches Ok(found)
                && record_views(out@) == sorted_by_key(found),
            Err(fault) => with_familiars(seq![], familiars@, now) == Err::<Seq<RecordView>, FaultView>(
                fault@,
            ),
        },
{
    let mut scan = MemoryScan::new();
    let mut k: usize = 0;
    assert(familiars@.skip(0) =~= familiars@);
    while k < familiars.len()
        invariant
            k <= familiars@.len(),
            now.valid(),
            scan.well_formed(),
            forall|k: int, i: int|
                #![trigger familiars@[k].files->Found_0@[i]]
                0 <= k < familiars@.len() && familiars@[k].files is Found && 0 <= i
                    < familiars@[k].files->Found_0@.len() ==> datable(
                    familiars@[k].files->Found_0@[i].modified,
                ),
            with_familiars(seq![], familiars@, now) == with_familiars(
                scan.found(),
                familiars@.skip(k as int),
                now,
            ),
        decreases familiars@.len() - k,
    {
        assert(familiars@.skip(k as int)[0] == familiars@[k as int]);
        assert(familiars@.skip(k as int).skip(1) =~= familiars@.skip(k as int + 1));
        match scan.add_familiar(&familiars[k], now) {
            Ok(()) => {},
            Err(fault) => {
                return Err(fault);
            },
        }
        k += 1;
    }
    assert(familiars@.skip(k as int).len() == 0);
    Ok(scan.into_records())
}

/// A memory is identified by the UUID of its path in the namespace of memories, and by nothing
/// else.
pub proof fn memories_are_identified_by_their_path(familiar: Seq<char>, name: Seq<char>)
    ensures
        memory_id_of(familiar + "/"@ + name) == uuid_v5(
            0x88f4_153f_221e_4f51_9346_7f59_d9b2_8d57,
            encode_utf8(familiar + "/"@ + name),
        ),
        relative_path_of(familiar, name) == familiar + "/"@ + name,
        MEMORY_CONTENT_MAX_BYTES == 4_194_304,
{
}

/// What is said of content that cannot be had names the limit only where it was exceeded, and
/// never what the system said.
pub proof fn content_failures_are_told_plainly(error: MemoryContentError)
    ensures
        error matches MemoryContentError::TooLarge { max_bytes } ==> error.text()
            == "memory content exceeds "@ + decimal(max_bytes as nat) + "-byte limit"@,
        error is InvalidUtf8 ==> error.text() == "memory content is not valid UTF-8"@,
        error is MissingOrUnsafe ==> error.text() == "memory content is missing or unsafe"@,
        error is Unavailable ==> error.text() == "memory content is unavailable"@,
{
}

/// What cannot be opened counts as missing or unsafe where it is not there, lies below no
/// directory, is not what it should be, or stands behind a link.
pub proof fn links_are_unsafe(failure: OpenFailure)
    ensures
        failure.is_symlink_loop ==> is_missing_or_unsafe(failure),
        !failure.is_symlink_loop ==> (is_missing_or_unsafe(failure) <==> failure.kind
            == IoFaultKind::NotFound || failure.kind == IoFaultKind::NotADirectory || failure.kind
            == IoFaultKind::InvalidData),
{
}

/// A reparse point is neither a directory nor a file.
pub proof fn reparse_points_are_nothing(kind: EntryKind)
    ensures
        kind.is_reparse_point ==> !plain_dir(kind) && !plain_file(kind),
        !kind.is_reparse_point ==> plain_dir(kind) == kind.is_dir && plain_file(kind)
            == kind.is_file,
{
}

/// A familiar's directory is read if and only if it was found as a plain directory, could be
/// opened, and what was opened is a plain directory too. What is gone, or is something else by
/// the time it is looked at, is passed over; any other failure is told.
pub proof fn directories_are_read_where_they_are_plain(
    before: Probe<EntryKind>,
    opened: Probe<()>,
    again: Probe<EntryKind>,
    handle: Probe<EntryKind>,
)
    ensures
        ({
            let verdict = familiar_dir_verdict(before, opened, again, handle);
            let plain_before = before matches Probe::Found(kind) && kind.is_dir
                && !kind.is_reparse_point;
            let plain_again = again matches Probe::Found(kind) && kind.is_dir
                && !kind.is_reparse_point;
            let plain_inside = handle matches Probe::Found(kind) && kind.is_dir
                && !kind.is_reparse_point;
            &&& verdict == Ok::<bool, FaultView>(true) <==> plain_before && opened is Found
                && plain_inside
            &&& before matches Probe::Failed(error) ==> verdict == Err::<bool, FaultView>(
                caused("failed to inspect a familiar memory directory"@, error@),
            )
            &&& before !is Failed && !plain_before ==> verdict == Ok::<bool, FaultView>(false)
            &&& plain_before && opened is Missing ==> verdict == Ok::<bool, FaultView>(false)
            &&& plain_before ==> (opened matches Probe::Failed(error) ==> {
                &&& again matches Probe::Failed(second) ==> verdict == Err::<bool, FaultView>(
                    caused(
                        "failed to classify a familiar memory directory after an open failure"@,
                        second@,
                    ),
                )
                &&& plain_again ==> verdict == Err::<bool, FaultView>(
                    caused("failed to open a familiar memory directory"@, error@),
                )
                &&& again !is Failed && !plain_again ==> verdict == Ok::<bool, FaultView>(false)
            })
            &&& plain_before && opened is Found ==> {
                &&& handle matches Probe::Failed(error) ==> verdict == Err::<bool, FaultView>(
                    caused("failed to inspect an opened familiar memory directory"@, error@),
                )
                &&& handle !is Failed && !plain_inside ==> verdict == Ok::<bool, FaultView>(
                    false,
                )
            }
        }),
{
}

/// A file's age is told from its last change; where that is not known, a dash stands for the
/// age, and the epoch for the change.
pub proof fn unknown_changes_have_a_dash(then: Moment, now: Moment)
    ensures
        freshness(Some(then), now) == ago(seconds_between(then, now)),
        freshness(None, now) == "\u{2014}"@,
        changed_at(Some(then)) == rfc3339(then.seconds as int, then.nanos as int, false),
        changed_at(None) == rfc3339(0, 0, false),
{
}

/// A file is a memory's if and only if its name is a stem that is not empty and `.md`; the
/// stem is the memory's title.
pub proof fn memories_are_markdown(stem: Seq<char>, name: Seq<char>)
    ensures
        stem.len() > 0 ==> is_markdown(stem + ".md"@) && stem_of(stem + ".md"@) == stem,
        is_markdown(name) ==> stem_of(name).len() > 0 && name == stem_of(name) + ".md"@,
{
    reveal_strlit(".md");
    let whole = stem + ".md"@;
    assert(whole.subrange(whole.len() - 3, whole.len() as int) =~= ".md"@);
    assert(".md"@.is_suffix_of(whole));
    assert(whole.take(whole.len() - 3) =~= stem);
    if is_markdown(name) {
        assert(name.subrange(name.len() - 3, name.len() as int) =~= ".md"@);
        assert(name =~= stem_of(name) + ".md"@);
    }
}

/// An entry of a familiar's directory is taken if and only if its name is that of a memory, it
/// is listed as a regular file and found as a plain one, and what was opened was not restored
/// elsewhere. What is gone is passed over; any other failure ends the scan.
pub proof fn files_are_taken_where_they_are_memories(file: FileProbe, name: String)
    requires
        file.name == Probe::Found(Some(name)),
    ensures
        ({
            let verdict = file_verdict(file);
            let plain_kind = file.metadata matches Probe::Found(kind) && kind.is_file
                && !kind.is_reparse_point;
            let regular = file.is_regular == Probe::Found(true);
            &&& verdict is Take <==> is_markdown(name@) && regular && plain_kind && file.restored
                == Probe::Found(false)
            &&& verdict is Take ==> verdict == FileVerdict::Take(name@)
            &&& !is_markdown(name@) ==> verdict is Skip
            &&& is_markdown(name@) ==> {
                &&& file.is_regular matches Probe::Failed(error) ==> verdict == FileVerdict::Fail(
                    caused("failed to inspect a memory-file entry type"@, error@),
                )
                &&& file.is_regular !is Failed && !regular ==> verdict is Skip
                &&& regular ==> {
                    &&& file.metadata matches Probe::Failed(error) ==> verdict
                        == FileVerdict::Fail(
                        caused("failed to inspect memory-file metadata"@, error@),
                    )
                    &&& file.metadata !is Failed && !plain_kind ==> verdict is Skip
                    &&& plain_kind ==> {
                        &&& file.restored matches Probe::Failed(error) ==> verdict
                            == FileVerdict::Fail(
                            caused("failed to open memory-file entry"@, error@),
                        )
                        &&& file.restored !is Failed ==> !(verdict is Fail)
                    }
                }
            }
        }),
{
}

/// An entry without a name that can be read is passed over, unless asking for it failed.
pub proof fn nameless_files_are_passed_over(file: FileProbe)
    ensures
        file.name is Missing || file.name == Probe::<Option<String>>::Found(None) ==> file_verdict(
            file,
        ) is Skip,
        file.name matches Probe::Failed(error) ==> file_verdict(file) == FileVerdict::Fail(
            caused("failed to enumerate a memory-file entry"@, error@),
        ),
{
}

/// A memory is known by the identifier of its path, belongs to the familiar of its directory,
/// is titled by its stem, and says when it was changed; it comes from the home itself.
pub proof fn memories_tell_of_their_file(
    familiar: Seq<char>,
    name: Seq<char>,
    modified: Option<Moment>,
    now: Moment,
)
    ensures
        ({
            let record = record_of(familiar, name, modified, now);
            let path = familiar + "/"@ + name;
            &&& record.relative_path == path
            &&& record.id == memory_id_of(path)
            &&& record.familiar_id == familiar
            &&& record.file_name == name
            &&& record.title == stem_of(name)
            &&& record.updated_at == freshness(modified, now)
            &&& record.updated_at_iso == changed_at(modified)
            &&& record.source_kind == "coven-origin"@
            &&& record.source_label == "Coven origin"@
        }),
{
}

/// Taking up an entry adds its memory behind those that were found, unless its identifier is
/// taken, which ends the scan; an entry that is passed over adds nothing.
pub proof fn memories_are_added_once(
    records: Seq<RecordView>,
    familiar: Seq<char>,
    file: FileProbe,
    now: Moment,
)
    ensures
        ({
            let after = with_file(records, familiar, file, now);
            match file_verdict(file) {
                FileVerdict::Skip => after == Ok::<Seq<RecordView>, FaultView>(records),
                FileVerdict::Fail(fault) => after == Err::<Seq<RecordView>, FaultView>(fault),
                FileVerdict::Take(name) => {
                    let record = record_of(familiar, name, file.modified, now);
                    if exists|i: int| 0 <= i < records.len() && (#[trigger] records[i]).id
                        == record.id {
                        after == Err::<Seq<RecordView>, FaultView>(
                            plain("duplicate memory id generated"@),
                        )
                    } else {
                        after == Ok::<Seq<RecordView>, FaultView>(records.push(record))
                    }
                },
            }
        }),
{
}

/// Entries are taken up one after another: those of two lists in a row as those of the one and
/// then those of the other, up to the first failure.
pub proof fn files_are_taken_in_order(
    records: Seq<RecordView>,
    familiar: Seq<char>,
    a: Seq<FileProbe>,
    b: Seq<FileProbe>,
    now: Moment,
)
    ensures
        a.len() == 0 ==> with_files(records, familiar, a, now) == Ok::<Seq<RecordView>, FaultView>(
            records,
        ),
        a.len() == 1 ==> with_files(records, familiar, a, now) == with_file(
            records,
            familiar,
            a[0],
            now,
        ),
        with_files(records, familiar, a + b, now) == match with_files(records, familiar, a, now) {
            Ok(next) => with_files(next, familiar, b, now),
            Err(fault) => Err(fault),
        },
    decreases a.len(),
{
    reveal_with_fuel(with_files, 2);
    if a.len() == 0 {
        assert(a + b =~= b);
    } else {
        assert((a + b).skip(1) =~= a.skip(1) + b);
        assert((a + b)[0] == a[0]);
        if let Ok(next) = with_file(records, familiar, a[0], now) {
            files_are_taken_in_order(next, familiar, a.skip(1), b, now);
        }
    }
}

/// A familiar's memories are taken up if and only if its name can be read, it is listed as a
/// directory, and it was opened to be read; what is gone is passed over, and any other failure
/// ends the scan.
pub proof fn familiars_are_scanned_where_they_can_be(
    records: Seq<RecordView>,
    familiar: FamiliarProbe,
    now: Moment,
)
    ensures
        ({
            let after = with_familiar(records, familiar, now);
            let named = familiar.name matches Probe::Found(found) && found is Some;
            let listed = familiar.is_dir == Probe::Found(true);
            let read = familiar.opened == Ok::<bool, Fault>(true);
            &&& familiar.name matches Probe::Failed(error) ==> after == Err::<
                Seq<RecordView>,
                FaultView,
            >(caused("failed to enumerate a memory-root entry"@, error@))
            &&& familiar.name !is Failed && !named ==> after == Ok::<Seq<RecordView>, FaultView>(
                records,
            )
            &&& named ==> {
                &&& familiar.is_dir matches Probe::Failed(error) ==> after == Err::<
                    Seq<RecordView>,
                    FaultView,
                >(caused("failed to inspect a memory-root entry"@, error@))
                &&& familiar.is_dir !is Failed && !listed ==> after == Ok::<
                    Seq<RecordView>,
                    FaultView,
                >(records)
            }
            &&& named && listed ==> {
                &&& familiar.opened matches Err(fault) ==> after == Err::<
                    Seq<RecordView>,
                    FaultView,
                >(fault@)
                &&& familiar.opened == Ok::<bool, Fault>(false) ==> after == Ok::<
                    Seq<RecordView>,
                    FaultView,
                >(records)
            }
            &&& named && listed && read ==> match familiar.files {
                Probe::Missing => after == Ok::<Seq<RecordView>, FaultView>(records),
                Probe::Failed(error) => after == Err::<Seq<RecordView>, FaultView>(
                    caused("failed to enumerate a familiar memory directory"@, error@),
                ),
                Probe::Found(files) => after == with_files(
                    records,
                    familiar.name->Found_0->0@,
                    files@,
                    now,
                ),
            }
        }),
{
}

/// Familiars are scanned one after another, up to the first failure.
pub proof fn familiars_are_scanned_in_order(
    records: Seq<RecordView>,
    a: Seq<FamiliarProbe>,
    b: Seq<FamiliarProbe>,
    now: Moment,
)
    ensures
        a.len() == 0 ==> with_familiars(records, a, now) == Ok::<Seq<RecordView>, FaultView>(
            records,
        ),
        a.len() == 1 ==> with_familiars(records, a, now) == with_familiar(records, a[0], now),
        with_familiars(records, a + b, now) == match with_familiars(records, a, now) {
            Ok(next) => with_familiars(next, b, now),
            Err(fault) => Err(fault),
        },
    decreases a.len(),
{
    reveal_with_fuel(with_familiars, 2);
    if a.len() == 0 {
        assert(a + b =~= b);
    } else {
        assert((a + b).skip(1) =~= a.skip(1) + b);
        assert((a + b)[0] == a[0]);
        if let Ok(next) = with_familiar(records, a[0], now) {
            familiars_are_scanned_in_order(next, a.skip(1), b, now);
        }
    }
}

/// A scan loses nothing: what was found before stays in front, and a failure is the only way
/// in which it ends without it.
pub proof fn scans_keep_what_was_found(
    records: Seq<RecordView>,
    familiar: Seq<char>,
    files: Seq<FileProbe>,
    now: Moment,
)
    ensures
        with_files(records, familiar, files, now) matches Ok(found) ==> records.is_prefix_of(found)
            && found.len() <= records.len() + files.len() && forall|i: int|
            records.len() <= i < found.len() ==> (#[trigger] found[i]).familiar_id == familiar,
    decreases files.len(),
{
    if files.len() == 0 {
        assert(records =~= records.subrange(0, records.len() as int));
    } else if let Ok(next) = with_file(records, familiar, files[0], now) {
        scans_keep_what_was_found(next, familiar, files.skip(1), now);
        if let Ok(found) = with_files(records, familiar, files, now) {
            assert(next =~= found.subrange(0, next.len() as int));
            assert(records =~= next.subrange(0, records.len() as int));
            assert(records =~= found.subrange(0, records.len() as int)) by {
                assert forall|i: int| 0 <= i < records.len() implies records[i] == found[i] by {
                    assert(next[i] == found.subrange(0, next.len() as int)[i]);
                }
            }
            assert forall|i: int| records.len() <= i < found.len() implies (
            #[trigger] found[i]).familiar_id == familiar by {
                if i < next.len() {
                    assert(next[i] == found.subrange(0, next.len() as int)[i]);
                }
            }
        }
    }
}

/// What cannot be opened is missing or unsafe, or unavailable; what was opened and then fails
/// is unavailable in any case.
pub proof fn open_failures_are_sorted(
    failure: OpenFailure,
    on_path: MemoryContentError,
    on_handle: MemoryContentError,
)
    requires
        call_ensures(classify_path_open_error, (failure,), on_path),
        call_ensures(classify_opened_handle_error, (failure,), on_handle),
    ensures
        failure.is_symlink_loop || failure.kind == IoFaultKind::NotFound || failure.kind
            == IoFaultKind::NotADirectory || failure.kind == IoFaultKind::InvalidData ==> on_path
            == MemoryContentError::MissingOrUnsafe,
        !failure.is_symlink_loop && failure.kind != IoFaultKind::NotFound && failure.kind
            != IoFaultKind::NotADirectory && failure.kind != IoFaultKind::InvalidData ==> on_path
            == MemoryContentError::Unavailable(failure),
        on_handle == MemoryContentError::Unavailable(failure),
{
}

/// The memory root is read if and only if the home could be opened and the root was found to
/// be a plain directory; a root that is not there holds nothing.
pub proof fn roots_are_plain_directories(
    home: Result<(), String>,
    opened: Probe<()>,
    metadata: Result<EntryKind, String>,
    root: Result<bool, Fault>,
)
    requires
        call_ensures(open_memory_root, (home, opened, metadata), root),
    ensures
        root == Ok::<bool, Fault>(true) <==> home is Ok && opened is Found && (metadata matches Ok(
            kind,
        ) && kind.is_dir && !kind.is_reparse_point),
        root == Ok::<bool, Fault>(false) <==> home is Ok && opened is Missing,
        home matches Err(error) ==> (root matches Err(fault) && fault@ == caused(
            "failed to open Coven home"@,
            error@,
        )),
        home is Ok ==> (opened matches Probe::Failed(error) ==> (root matches Err(fault) && fault@
            == caused(
            "refusing to open memory root through a symlink or non-directory"@,
            error@,
        ))),
{
}

/// An identifier is given out once.
pub proof fn identifiers_are_given_once(
    seen: &mut Vec<String>,
    id: String,
    reserved: Result<String, Fault>,
)
    requires
        call_ensures(reserve_memory_id, (seen, id), reserved),
    ensures
        reserved is Ok <==> !views(old(seen)@).contains(id@),
        reserved matches Ok(given) ==> given@ == id@ && views(final(seen)@) == views(
            old(seen)@,
        ).push(id@),
        reserved matches Err(fault) ==> fault@ == plain("duplicate memory id generated"@)
            && final(seen)@ == old(seen)@,
{
}

/// The memories of a home come in the order of their paths, each with an identifier of its
/// own, or the scan tells what failed.
pub proof fn memories_come_in_order(
    familiars: &Vec<FamiliarProbe>,
    now: Moment,
    records: Result<Vec<MemoryRecord>, Fault>,
    i: int,
    j: int,
)
    requires
        call_ensures(enumerate_metadata, (familiars, now), records),
    ensures
        records is Ok <==> with_familiars(Seq::empty(), familiars@, now) is Ok,
        records matches Ok(list) ==> (0 <= i < j < list@.len() ==> !precedes(
            list@[j].relative_path@,
            list@[i].relative_path@,
        )),
        records matches Ok(list) ==> list@.len() == with_familiars(
            Seq::empty(),
            familiars@,
            now,
        )->Ok_0.len(),
{
    if let Ok(list) = records {
        let found = with_familiars(Seq::empty(), familiars@, now)->Ok_0;
        let shown = record_views(list@);
        crate::order::sorted_by_key_is_sorted(found);
        assert(shown.len() == list@.len());
        if 0 <= i < j < list@.len() {
            assert(shown[i] == list@[i]@ && shown[j] == list@[j]@);
            assert(!precedes(shown[j].key(), shown[i].key()));
        }
    }
}

/// A memory shows each thing that it holds under its own name.
pub proof fn records_show_what_they_hold(record: MemoryRecord)
    ensures
        record@.id == record.id@,
        record@.familiar_id == record.familiar_id@,
        record@.title == record.title@,
        record@.file_name == record.file_name@,
        record@.relative_path == record.relative_path@,
        record@.updated_at == record.updated_at@,
        record@.updated_at_iso == record.updated_at_iso@,
        record@.source_kind == record.source.kind@,
        record@.source_label == record.source.label@,
{
}

} // verus!
