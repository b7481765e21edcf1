//! The sources behind the cockpit: familiars, skills, memories and research.

use coven_cli::familiars::{
    expand_workspace, familiar_workspace, find_familiar, normalized_icon, read_familiars, scan_skills,
    skill_from, write_familiar_icon, FamiliarDto, FamiliarEntry, Skill, SkillMetadata,
    WriteFamiliarIconOutcome,
};
use coven_cli::fault::{Fault, Probe};
use coven_cli::memory::{
    classify_opened_handle_error, classify_path_open_error, enumerate_metadata, memory_id,
    open_familiar_dir, open_memory_root, reserve_memory_id, EntryKind, FamiliarProbe, FileProbe,
    MemoryContentError, MemoryRecord, MemoryScan, OpenFailure, MEMORY_CONTENT_MAX_BYTES,
};
use coven_cli::memory_content::{
    find_memory, first_paragraph, memory_overview, open_record, read_memory_content,
    read_memory_detail, scan_memory,
};
use coven_cli::moment::{elapsed_since, latest_mtime, memory_freshness, relative_time, Moment};
use coven_cli::research::read_research;
use coven_cli::serve::IoFaultKind;

const FILE: EntryKind = EntryKind { is_dir: false, is_file: true, is_reparse_point: false };
const DIRECTORY: EntryKind = EntryKind { is_dir: true, is_file: false, is_reparse_point: false };
const NOW: Moment = Moment { seconds: 1_780_000_000, nanos: 0 };

fn failure(kind: IoFaultKind, text: &str) -> OpenFailure {
    OpenFailure { kind, is_symlink_loop: false, text: text.to_string() }
}

fn markdown(name: &str) -> FileProbe {
    FileProbe {
        name: Probe::Found(Some(name.to_string())),
        is_regular: Probe::Found(true),
        metadata: Probe::Found(FILE),
        restored: Probe::Found(false),
        modified: Some(Moment { seconds: 1_779_999_000, nanos: 0 }),
    }
}

fn familiar(name: &str, files: Vec<FileProbe>) -> FamiliarProbe {
    FamiliarProbe {
        name: Probe::Found(Some(name.to_string())),
        is_dir: Probe::Found(true),
        opened: Ok(true),
        files: Probe::Found(files),
    }
}

fn scanned(familiars: Vec<FamiliarProbe>) -> Vec<MemoryRecord> {
    enumerate_metadata(&familiars, NOW).expect("the scan succeeds")
}

fn entries_of(text: &str) -> Vec<FamiliarEntry> {
    let root: toml::Table = text.parse().expect("the configuration parses");
    let mut entries = Vec::new();
    for table in root["familiar"].as_array().expect("a list of familiars") {
        let optional = |key: &str| table.get(key).and_then(|v| v.as_str()).map(str::to_string);
        let required = |key: &str| optional(key).expect("a required field");
        entries.push(FamiliarEntry {
            id: required("id"),
            name: optional("name"),
            display_name: required("display_name"),
            emoji: optional("emoji"),
            icon: optional("icon"),
            role: required("role"),
            description: required("description"),
            pronouns: optional("pronouns"),
            active_channel: optional("active_channel"),
            workspace: optional("workspace"),
        });
    }
    entries
}

fn familiars_of(text: &str) -> Vec<FamiliarDto> {
    let entries = entries_of(text);
    let freshness = vec!["—".to_string(); entries.len()];
    read_familiars(&entries, &freshness, None, false)
}

const ONE_FAMILIAR: &str = r#"[[familiar]]
id = "cody"
display_name = "Cody"
role = "Code"
description = "..."
icon = "ph:lightning-fill"
"#;

#[test]
fn read_familiars_returns_empty_when_config_missing() {
    assert!(read_familiars(&Vec::new(), &Vec::new(), None, false).is_empty());
}

#[test]
fn read_familiars_parses_toml_entries() {
    let out = familiars_of(
        r#"
[[familiar]]
id = "sage"
display_name = "Sage"
emoji = "🌿"
role = "Research familiar"
description = "Reads, synthesizes."
pronouns = "they/them"
active_channel = "telegram"

[[familiar]]
id = "cody"
display_name = "Cody"
emoji = "⚡"
role = "Code"
description = "Builds and debugs."
"#,
    );
    assert_eq!(out.len(), 2);
    assert_eq!(out[0].id, "sage");
    assert_eq!(out[0].name, "sage");
    assert_eq!(out[0].display_name, "Sage");
    assert_eq!(out[0].emoji, "🌿");
    assert_eq!(out[0].pronouns.as_deref(), Some("they/them"));
    assert_eq!(out[0].active_channel.as_deref(), Some("telegram"));
    assert_eq!(out[0].status, "offline");
    assert_eq!(out[0].active_sessions, 0);
    assert_eq!(out[0].memory_freshness, "—");
    assert_eq!(out[1].id, "cody");
    assert!(out[1].pronouns.is_none());
    assert!(out[1].active_channel.is_none());
    assert!(out[0].icon.is_none());
    assert!(out[1].icon.is_none());
}

#[test]
fn read_familiars_carries_icon_field_for_both_shapes() {
    let out = familiars_of(
        r#"
[[familiar]]
id = "cody"
display_name = "Cody"
role = "Code"
description = "..."
icon = "ph:lightning-fill"

[[familiar]]
id = "kitten"
display_name = "Kitten"
role = "General"
description = "..."
icon = "🐈‍⬛"

[[familiar]]
id = "whitespace"
display_name = "Whitespace"
role = "Edge case"
description = "..."
icon = "   "

[[familiar]]
id = "no-icon"
display_name = "No icon"
role = "Edge case"
description = "..."
"#,
    );
    assert_eq!(out[0].icon.as_deref(), Some("ph:lightning-fill"));
    assert_eq!(out[1].icon.as_deref(), Some("🐈‍⬛"));
    assert!(out[2].icon.is_none(), "whitespace icon should normalize to None");
    assert!(out[3].icon.is_none());
}

#[test]
fn read_familiars_memory_freshness_reflects_recent_file() {
    let entries = entries_of(
        r#"
[[familiar]]
id = "sage"
display_name = "Sage"
role = "Research"
description = "..."
"#,
    );
    let freshness = vec![memory_freshness(&vec![NOW], NOW)];
    let out = read_familiars(&entries, &freshness, None, false);
    assert_ne!(out[0].memory_freshness, "—");
    assert_eq!(out[0].memory_freshness, "now");
}

#[test]
fn write_familiar_icon_inserts_when_absent_and_preserves_other_fields() {
    let edit = write_familiar_icon(
        r#"# top of file
[[familiar]]
id = "cody"
display_name = "Cody"
role = "Code"
description = "Builds and debugs."
# trailing comment
"#,
        "cody",
        Some("ph:lightning-fill"),
    )
    .expect("the file parses");
    assert_eq!(edit.outcome, WriteFamiliarIconOutcome::Updated);
    let raw = edit.text.expect("a new text");
    assert!(raw.contains("icon = \"ph:lightning-fill\""), "got {raw}");
    assert!(raw.contains("display_name = \"Cody\""));
    assert!(raw.contains("# top of file"));
    assert!(raw.contains("# trailing comment"));
    assert_eq!(familiars_of(&raw)[0].icon.as_deref(), Some("ph:lightning-fill"));
}

#[test]
fn write_familiar_icon_replaces_existing_value() {
    let edit = write_familiar_icon(ONE_FAMILIAR, "cody", Some("🐈")).expect("the file parses");
    assert_eq!(edit.outcome, WriteFamiliarIconOutcome::Updated);
    let raw = edit.text.expect("a new text");
    assert!(raw.contains("icon = \"🐈\""), "got {raw}");
    assert!(!raw.contains("ph:lightning-fill"), "old icon should be gone");
}

#[test]
fn write_familiar_icon_clears_field_when_value_is_none() {
    let edit = write_familiar_icon(ONE_FAMILIAR, "cody", None).expect("the file parses");
    assert_eq!(edit.outcome, WriteFamiliarIconOutcome::Cleared);
    let raw = edit.text.expect("a new text");
    assert!(!raw.contains("icon ="), "icon line must be removed: {raw}");
    assert!(familiars_of(&raw)[0].icon.is_none());
}

#[test]
fn write_familiar_icon_treats_whitespace_as_clear() {
    let edit = write_familiar_icon(ONE_FAMILIAR, "cody", Some("   ")).expect("the file parses");
    assert_eq!(edit.outcome, WriteFamiliarIconOutcome::Cleared);
    let raw = edit.text.expect("a new text");
    assert!(!raw.contains("icon ="), "icon line must be removed: {raw}");
}

#[test]
fn write_familiar_icon_returns_not_found_for_unknown_id() {
    let edit = write_familiar_icon(
        r#"[[familiar]]
id = "cody"
display_name = "Cody"
role = "Code"
description = "..."
"#,
        "ghost",
        Some("ph:ghost-fill"),
    )
    .expect("the file parses");
    assert_eq!(edit.outcome, WriteFamiliarIconOutcome::NotFound);
    assert!(edit.text.is_none());
}

#[test]
fn write_familiar_icon_fails_on_a_broken_file() {
    assert!(write_familiar_icon("[[familiar", "cody", Some("x")).is_err());
}

#[test]
fn an_icon_edit_leaves_the_other_familiars_alone() {
    let text = format!(
        "{ONE_FAMILIAR}\n[[familiar]]\nid = \"sage\"\ndisplay_name = \"Sage\"\nrole = \"R\"\ndescription = \"d\"\nicon = \"leaf\"\n"
    );
    let raw = write_familiar_icon(&text, "cody", None).expect("parses").text.expect("changed");
    let out = familiars_of(&raw);
    assert!(out[0].icon.is_none());
    assert_eq!(out[1].icon.as_deref(), Some("leaf"));
}

#[test]
fn a_written_icon_reads_back() {
    for icon in [
        "ph:lightning-fill",
        "🐈",
        "say \"hi\"",
        "it's",
        "both ' and \"\"",
        "''\"\"\"''",
        "back\\slash",
        "two\nlines",
        "# no comment",
        "bell\u{7}",
    ] {
        let raw = write_familiar_icon(ONE_FAMILIAR, "cody", Some(icon))
            .expect("the file parses")
            .text
            .expect("the file changes");
        assert_eq!(familiars_of(&raw)[0].icon.as_deref(), Some(icon));
    }
}

#[test]
fn an_icon_with_too_many_quotes_is_refused() {
    for quote in ["'", "\""] {
        let most = quote.repeat(255);
        let raw = write_familiar_icon(ONE_FAMILIAR, "cody", Some(&most))
            .expect("as many as can be counted")
            .text
            .expect("the file changes");
        assert_eq!(familiars_of(&raw)[0].icon.as_deref(), Some(most.as_str()));
        let more = quote.repeat(256);
        assert_eq!(
            write_familiar_icon(ONE_FAMILIAR, "cody", Some(&more)).err().as_deref(),
            Some("icon holds too many quotes in a row")
        );
        let broken = format!("{most} {most}");
        assert!(write_familiar_icon(ONE_FAMILIAR, "cody", Some(&broken)).is_ok());
        let missing = write_familiar_icon(ONE_FAMILIAR, "nobody", Some(&more)).expect("parses");
        assert_eq!(missing.outcome, WriteFamiliarIconOutcome::NotFound);
    }
}

#[test]
fn an_icon_edit_keeps_all_else() {
    let text = format!("limit = 3\n{ONE_FAMILIAR}\n[other]\nkeys.are = [1, 2] # both\n");
    for icon in [Some("new"), None] {
        let raw = write_familiar_icon(&text, "cody", icon).expect("parses").text.expect("changed");
        let mut before: toml::Table = text.parse().expect("TOML");
        let mut after: toml::Table = raw.parse().expect("TOML");
        for root in [&mut before, &mut after] {
            let table = root["familiar"][0].as_table_mut().expect("a table");
            table.remove("icon");
        }
        assert_eq!(before, after);
        assert!(raw.contains("# both"));
    }
}

#[test]
fn the_last_icon_written_stays() {
    let first = write_familiar_icon(ONE_FAMILIAR, "cody", Some("one")).expect("parses").text.expect("changed");
    let both = write_familiar_icon(&first, "cody", Some("two")).expect("parses").text.expect("changed");
    let direct = write_familiar_icon(ONE_FAMILIAR, "cody", Some("two")).expect("parses").text.expect("changed");
    assert_eq!(both, direct);
}

#[test]
fn comments_outlive_an_icon_edit() {
    let text = format!("# who lives here\n{ONE_FAMILIAR}# the end\n");
    let raw = write_familiar_icon(&text, "cody", Some("one")).expect("parses").text.expect("changed");
    assert!(raw.starts_with("# who lives here\n[[familiar]]\n"));
    assert!(raw.ends_with("# the end\n"));
}

#[test]
fn familiars_are_found_by_their_id() {
    let ids = vec![None, Some("a".to_string()), Some("b".to_string()), Some("b".to_string())];
    assert_eq!(find_familiar(&ids, "b"), Some(2));
    assert_eq!(find_familiar(&ids, "c"), None);
}

#[test]
fn icons_are_trimmed() {
    assert_eq!(normalized_icon(Some("  ph:cat ")).as_deref(), Some("ph:cat"));
    assert_eq!(normalized_icon(Some(" \t")), None);
    assert_eq!(normalized_icon(None), None);
}

#[test]
fn workspaces_expand_the_user_home() {
    assert_eq!(expand_workspace("~/work", Some("/home/u"), false), "/home/u/work");
    assert_eq!(expand_workspace("~/work", Some(r"C:\u"), true), r"C:\u\work");
    assert_eq!(expand_workspace("/srv/work", Some("/home/u"), false), "/srv/work");
    let entries = entries_of(
        "[[familiar]]\nid = \"s\"\ndisplay_name = \"S\"\nrole = \"r\"\ndescription = \"d\"\nworkspace = \"/srv/s\"\n",
    );
    let shown = read_familiars(&entries, &vec!["—".to_string()], Some("/home/u"), false);
    assert_eq!(familiar_workspace("/home/u/.coven", &shown, "s", false), "/srv/s");
    assert_eq!(
        familiar_workspace("/home/u/.coven", &shown, "t", false),
        "/home/u/.coven/familiars/t"
    );
}

#[test]
fn scan_skills_returns_empty_when_dir_missing() {
    assert!(scan_skills(Vec::new()).is_empty());
}

#[test]
fn scan_skills_parses_metadata_per_subdir_and_skips_subdirs_without_metadata() {
    let beta = skill_from(
        "beta".to_string(),
        SkillMetadata {
            name: "Beta".to_string(),
            description: "B".to_string(),
            version: None,
            author: None,
            tags: Vec::new(),
            category: None,
        },
    );
    let alpha = skill_from(
        "alpha".to_string(),
        SkillMetadata {
            name: "Alpha".to_string(),
            description: "A".to_string(),
            version: Some("1.0.0".to_string()),
            author: Some("sage".to_string()),
            tags: vec!["x".to_string()],
            category: Some("research".to_string()),
        },
    );
    let found: Vec<Skill> = vec![beta, alpha];
    let out = scan_skills(found);
    assert_eq!(out.len(), 2);
    assert_eq!(out[0].id, "alpha");
    assert_eq!(out[0].name, "Alpha");
    assert_eq!(out[0].owner, "sage");
    assert_eq!(out[0].version, "1.0.0");
    assert_eq!(out[0].tags, vec!["x"]);
    assert_eq!(out[0].category, "research");
    assert_eq!(out[1].id, "beta");
    assert_eq!(out[1].owner, "unknown");
    assert_eq!(out[1].version, "0.0.0");
    assert_eq!(out[1].category, "general");
}

#[test]
fn scan_memory_returns_empty_when_dir_missing() {
    let present = open_memory_root(Ok(()), Probe::Missing, Err("not asked".to_string()));
    assert!(matches!(present, Ok(false)));
    assert!(scan_memory(Vec::new(), &Vec::new()).is_empty());
}

#[test]
fn scan_memory_groups_md_files_by_familiar_with_excerpts() {
    let records = scanned(vec![
        familiar("sage", vec![markdown("notes.md"), markdown("ignored.txt")]),
        familiar("echo", vec![markdown("reflections.md")]),
    ]);
    let contents = vec![
        Ok("---\nfrontmatter: skipped\n---\n\nReflection excerpt body.".to_string()),
        Ok("# Title\n\nFirst paragraph about research synthesis.\n\nSecond paragraph ignored."
            .to_string()),
    ];
    let out = scan_memory(records, &contents);
    assert_eq!(out.len(), 2);
    assert_eq!(out[0].familiar_id, "echo");
    assert_eq!(out[0].path, "echo/reflections.md");
    assert_eq!(out[0].excerpt, "Reflection excerpt body.");
    assert_eq!(out[1].familiar_id, "sage");
    assert_eq!(out[1].path, "sage/notes.md");
    assert!(out[1].excerpt.starts_with("First paragraph"));
}

#[test]
fn opened_memory_record_rechecks_logical_restore_state() {
    let opened = open_record(Ok(()), Ok(DIRECTORY), Ok(()), Ok(FILE), true, Ok(()));
    assert!(matches!(opened, Err(MemoryContentError::MissingOrUnsafe)));
}

#[test]
fn scan_memory_returns_stable_opaque_ids() {
    let first = scanned(vec![familiar("sage", vec![markdown("notes.md")])]);
    let second = scanned(vec![familiar("sage", vec![markdown("notes.md")])]);
    assert_eq!(first.len(), 1);
    assert_eq!(first[0].id, second[0].id);
    assert!(uuid::Uuid::parse_str(&first[0].id).is_ok());
    assert!(!first[0].id.contains("sage"));
    assert!(!first[0].id.contains("notes"));
}

#[test]
fn memory_id_matches_pinned_vector_across_roots() {
    assert_eq!(memory_id("sage/notes.md"), "98ef2809-6bc3-5309-add6-0f39d676b52f");
    let first = scanned(vec![familiar("sage", vec![markdown("notes.md")])]);
    assert_eq!(first[0].id, "98ef2809-6bc3-5309-add6-0f39d676b52f");
}

#[test]
fn memory_overview_does_not_read_invalid_utf8_bodies() {
    let records = scanned(vec![familiar("sage", vec![markdown("valid.md"), markdown("corrupt.md")])]);
    let overview = memory_overview(&records, NOW.seconds);
    assert_eq!(overview.totals.entries, 2);
    assert_eq!(overview.totals.unknown, 2);
}

#[test]
fn memory_detail_reads_only_the_selected_entry() {
    let records = scanned(vec![familiar("sage", vec![markdown("valid.md"), markdown("corrupt.md")])]);
    let record = find_memory(&memory_id("sage/valid.md"), &records).expect("valid memory detail");
    let content = read_memory_content(Ok(13), Ok(b"Durable fact.".to_vec()));
    let detail = read_memory_detail(record, content).expect("valid memory detail");
    assert_eq!(detail.content, "Durable fact.");
}

#[test]
fn unknown_memory_detail_does_not_read_a_corrupt_neighbor() {
    let records = scanned(vec![familiar("sage", vec![markdown("corrupt.md")])]);
    assert!(find_memory("00000000-0000-0000-0000-000000000000", &records).is_none());
    assert!(find_memory("not an id", &records).is_none());
}

#[test]
fn open_record_error_classification_separates_missing_or_unsafe_from_unavailable() {
    for kind in [IoFaultKind::NotFound, IoFaultKind::NotADirectory, IoFaultKind::InvalidData] {
        assert!(
            matches!(
                classify_path_open_error(failure(kind, "test error")),
                MemoryContentError::MissingOrUnsafe
            ),
            "{kind:?} must be treated as missing or unsafe"
        );
    }
    for kind in [IoFaultKind::PermissionDenied, IoFaultKind::Other] {
        match classify_path_open_error(failure(kind, "test error")) {
            MemoryContentError::Unavailable(error) => assert_eq!(error.kind, kind),
            error => panic!("{kind:?} must remain unavailable, got {error:?}"),
        }
    }
}

#[test]
fn post_open_error_classification_keeps_not_found_and_invalid_data_unavailable() {
    for kind in [IoFaultKind::NotFound, IoFaultKind::InvalidData] {
        match classify_opened_handle_error(failure(kind, "post-open test error")) {
            MemoryContentError::Unavailable(error) => assert_eq!(error.kind, kind),
            error => panic!("{kind:?} after open must remain unavailable, got {error:?}"),
        }
    }
}

#[test]
fn open_record_error_classification_distinguishes_eloop_from_eio() {
    let eloop = std::io::Error::from_raw_os_error(libc::ELOOP);
    let stopped = OpenFailure {
        kind: IoFaultKind::Other,
        is_symlink_loop: eloop.raw_os_error() == Some(libc::ELOOP),
        text: eloop.to_string(),
    };
    assert!(matches!(classify_path_open_error(stopped), MemoryContentError::MissingOrUnsafe));

    let eio = std::io::Error::from_raw_os_error(libc::EIO);
    let broken = OpenFailure {
        kind: IoFaultKind::Other,
        is_symlink_loop: eio.raw_os_error() == Some(libc::ELOOP),
        text: eio.to_string(),
    };
    match classify_path_open_error(broken) {
        MemoryContentError::Unavailable(error) => assert_eq!(error.text, eio.to_string()),
        error => panic!("EIO must remain unavailable, got {error:?}"),
    }
}

#[test]
fn memory_scan_propagates_permission_denied_familiar_directory() {
    let opened = open_familiar_dir(
        Probe::Found(DIRECTORY),
        Probe::Failed("Permission denied (os error 13)".to_string()),
        Probe::Found(DIRECTORY),
        Probe::Missing,
    );
    let denied = FamiliarProbe {
        name: Probe::Found(Some("sage".to_string())),
        is_dir: Probe::Found(true),
        opened,
        files: Probe::Missing,
    };
    let error = match enumerate_metadata(&vec![denied], NOW) {
        Err(error) => error,
        Ok(_) => panic!("permission denial must fail the scan"),
    };
    assert!(error.chain().contains("Permission denied"), "{}", error.chain());
    assert_eq!(error.message, "failed to open a familiar memory directory");
}

#[test]
fn memory_list_keeps_a_corrupt_entry_without_losing_valid_neighbors() {
    let records = scanned(vec![familiar("sage", vec![markdown("valid.md"), markdown("corrupt.md")])]);
    let contents = vec![
        read_memory_content(Ok(2), Ok(vec![0xff, 0xfe])),
        read_memory_content(Ok(13), Ok(b"Durable fact.".to_vec())),
    ];
    assert!(matches!(contents[0], Err(MemoryContentError::InvalidUtf8)));
    let entries = scan_memory(records, &contents);
    assert_eq!(entries.len(), 2);
    assert_eq!(entries[0].path, "sage/corrupt.md");
    assert_eq!(entries[0].excerpt, "");
    assert_eq!(entries[1].path, "sage/valid.md");
    assert_eq!(entries[1].excerpt, "Durable fact.");
}

#[test]
fn memory_list_keeps_an_oversize_entry_without_losing_valid_neighbors() {
    let records = scanned(vec![familiar("sage", vec![markdown("valid.md"), markdown("large.md")])]);
    let large = vec![b'x'; MEMORY_CONTENT_MAX_BYTES as usize + 1];
    let contents = vec![
        read_memory_content(Ok(large.len() as u64), Ok(large)),
        read_memory_content(Ok(13), Ok(b"Durable fact.".to_vec())),
    ];
    let entries = scan_memory(records, &contents);
    assert_eq!(entries.len(), 2);
    assert_eq!(entries[0].path, "sage/large.md");
    assert_eq!(entries[0].excerpt, "");
    assert_eq!(entries[1].excerpt, "Durable fact.");
}

#[test]
fn memory_detail_rejects_entries_over_four_mibibytes() {
    let large = vec![b'x'; MEMORY_CONTENT_MAX_BYTES as usize + 1];
    let records = scanned(vec![familiar("sage", vec![markdown("large.md")])]);
    let record = find_memory(&memory_id("sage/large.md"), &records).expect("the record");
    for reported in [0, large.len() as u64] {
        let content = read_memory_content(Ok(reported), Ok(large.clone()));
        let error = read_memory_detail(record, content).expect_err("oversize detail must fail closed");
        assert!(matches!(error, MemoryContentError::TooLarge { max_bytes: 4_194_304 }));
        assert!(
            error.message().contains("memory content exceeds 4194304-byte limit"),
            "unexpected error: {}",
            error.message()
        );
    }
}

#[test]
fn open_record_rejects_a_non_regular_replacement() {
    let opened = open_record(Ok(()), Ok(DIRECTORY), Ok(()), Ok(DIRECTORY), false, Ok(()));
    assert!(matches!(opened, Err(MemoryContentError::MissingOrUnsafe)));
}

#[test]
fn open_record_rejects_an_external_symlink_replacement_after_enumeration() {
    let stopped = OpenFailure {
        kind: IoFaultKind::Other,
        is_symlink_loop: true,
        text: "Too many levels of symbolic links".to_string(),
    };
    let opened = open_record(Ok(()), Ok(DIRECTORY), Err(stopped), Ok(FILE), false, Ok(()));
    assert!(matches!(opened, Err(MemoryContentError::MissingOrUnsafe)));
}

#[test]
fn a_record_opens_where_every_step_does() {
    assert!(open_record(Ok(()), Ok(DIRECTORY), Ok(()), Ok(FILE), false, Ok(())).is_ok());
    let late = failure(IoFaultKind::NotFound, "gone");
    match open_record(Ok(()), Ok(DIRECTORY), Ok(()), Ok(FILE), false, Err(late)) {
        Err(MemoryContentError::Unavailable(error)) => assert_eq!(error.text, "gone"),
        other => panic!("got {other:?}"),
    }
    let linked = EntryKind { is_dir: true, is_file: false, is_reparse_point: true };
    let opened = open_record(Ok(()), Ok(linked), Ok(()), Ok(FILE), false, Ok(()));
    assert!(matches!(opened, Err(MemoryContentError::MissingOrUnsafe)));
}

#[test]
fn unreadable_content_is_unavailable() {
    let content = read_memory_content(Err(failure(IoFaultKind::Other, "stat failed")), Ok(Vec::new()));
    assert!(matches!(content, Err(MemoryContentError::Unavailable(error)) if error.text == "stat failed"));
    let content = read_memory_content(Ok(1), Err(failure(IoFaultKind::TimedOut, "slow")));
    match content {
        Err(MemoryContentError::Unavailable(error)) => {
            assert_eq!(error.kind, IoFaultKind::TimedOut);
        }
        other => panic!("got {other:?}"),
    }
    assert_eq!(MemoryContentError::InvalidUtf8.message(), "memory content is not valid UTF-8");
}

#[test]
fn duplicate_memory_ids_fail_closed() {
    let mut seen = Vec::new();
    assert!(reserve_memory_id(&mut seen, "duplicate".to_string()).is_ok());
    let error = reserve_memory_id(&mut seen, "duplicate".to_string())
        .expect_err("duplicate ids must fail closed");
    assert!(error.message.contains("duplicate memory id"));
}

#[test]
fn distinct_ids_are_both_reserved() {
    let mut seen = Vec::new();
    assert_eq!(reserve_memory_id(&mut seen, "a".to_string()).expect("free"), "a");
    assert_eq!(reserve_memory_id(&mut seen, "b".to_string()).expect("free"), "b");
    assert_eq!(seen, vec!["a", "b"]);
}

#[test]
fn scan_memory_skips_distinct_non_utf8_familiar_names_without_aliasing() {
    let unnamed = || FamiliarProbe {
        name: Probe::Found(None),
        is_dir: Probe::Found(true),
        opened: Ok(true),
        files: Probe::Found(vec![markdown("notes.md")]),
    };
    assert!(scanned(vec![unnamed(), unnamed()]).is_empty());
}

#[test]
fn scan_memory_skips_distinct_non_utf8_file_names_without_aliasing() {
    let unnamed = || FileProbe { name: Probe::Found(None), ..markdown("x.md") };
    assert!(scanned(vec![familiar("sage", vec![unnamed(), unnamed()])]).is_empty());
}

#[test]
fn scan_memory_exposes_machine_readable_unknown_metadata() {
    let records = scanned(vec![familiar("sage", vec![markdown("notes.md")])]);
    let mut entries = scan_memory(records, &vec![Ok("Durable fact.".to_string())]);
    let entry = entries.remove(0);
    assert!(entry.updated_at_iso.ends_with('Z'));
    let parsed = chrono::DateTime::parse_from_rfc3339(&entry.updated_at_iso).expect("a date");
    assert_eq!(parsed.timestamp(), 1_779_999_000);
    assert_eq!(entry.privacy_classification, None);
    assert_eq!(entry.reveal_required, None);
    assert_eq!(entry.verification_state, "unknown");
}

#[test]
fn scan_memory_skips_symlinked_markdown_files() {
    let link = FileProbe { is_regular: Probe::Found(false), ..markdown("leak.md") };
    let records = scanned(vec![familiar("sage", vec![link])]);
    assert!(records.is_empty());
    assert_eq!(memory_overview(&records, NOW.seconds).totals.entries, 0);
}

#[test]
fn scan_memory_rejects_a_symlinked_memory_root() {
    let error = open_memory_root(
        Ok(()),
        Probe::Failed("Too many levels of symbolic links".to_string()),
        Ok(DIRECTORY),
    )
    .expect_err("symlinked root must fail closed");
    assert!(error.chain().contains("symlink"));
    let error = open_memory_root(Ok(()), Probe::Found(()), Ok(FILE)).expect_err("not a directory");
    assert!(error.message.contains("reparse point or non-directory"));
    let error = open_memory_root(Err("denied".to_string()), Probe::Missing, Ok(DIRECTORY))
        .expect_err("no home");
    assert_eq!(error.chain(), "failed to open Coven home: denied");
    assert!(matches!(open_memory_root(Ok(()), Probe::Found(()), Ok(DIRECTORY)), Ok(true)));
}

#[test]
fn read_memory_detail_returns_content_without_a_filesystem_path() {
    let records = scanned(vec![familiar("sage", vec![markdown("notes.md")])]);
    let id = records[0].id.clone();
    let record = find_memory(&id, &records).expect("memory detail");
    let detail = read_memory_detail(record, Ok("# Notes\n\nDurable fact.".to_string()))
        .expect("memory detail");
    assert_eq!(detail.id, id);
    assert_eq!(detail.content, "# Notes\n\nDurable fact.");
    assert_eq!(detail.privacy.classification, None);
    assert_eq!(detail.privacy.reveal_required, None);
    assert_eq!(detail.verification.state, "unknown");
}

#[test]
fn memory_overview_reports_unsupported_capabilities_honestly() {
    let records = scanned(vec![familiar("sage", vec![markdown("one.md"), markdown("two.md")])]);
    let overview = memory_overview(&records, NOW.seconds);
    assert_eq!(overview.totals.entries, 2);
    assert_eq!(overview.totals.familiars, 1);
    assert_eq!(overview.totals.verified, 0);
    assert_eq!(overview.totals.needs_review, 0);
    assert_eq!(overview.totals.unknown, 2);
    assert!(overview.capabilities.detail);
    assert!(!overview.capabilities.verification);
    assert!(!overview.capabilities.attestation_metadata);
    assert!(!overview.capabilities.supersession_history);
    assert!(!overview.capabilities.mutations);
    assert_eq!(overview.verification.state, "unavailable");
    assert_eq!(overview.verification.manifest, None);
    assert_eq!(overview.verification.index, None);
    assert_eq!(overview.generated_at, "2026-05-28T20:26:40Z");
    assert_eq!(overview.last_updated_at.as_deref(), Some("2026-05-28T20:10:00Z"));
}

#[test]
fn scanned_memories_have_ids_of_their_own() {
    let records = scanned(vec![
        familiar("sage", vec![markdown("a.md"), markdown("b.md")]),
        familiar("echo", vec![markdown("a.md")]),
    ]);
    assert_eq!(records.len(), 3);
    assert_eq!(records[0].relative_path, "echo/a.md");
    assert_ne!(records[0].id, records[1].id);
    assert_ne!(records[0].id, records[2].id);
    assert_ne!(records[1].id, records[2].id);
    assert_eq!(records[1].title, "a");
    assert_eq!(records[1].updated_at, "16m ago");
}

#[test]
fn a_scan_grows_file_by_file() {
    let mut scan = MemoryScan::new();
    scan.add_file("sage", &markdown("b.md"), NOW).expect("fits");
    scan.add_familiar(&familiar("echo", vec![markdown("a.md")]), NOW).expect("fits");
    let twice = scan.add_file("sage", &markdown("b.md"), NOW);
    assert!(twice.expect_err("the same file twice").message.contains("duplicate memory id"));
    let records = scan.into_records();
    assert_eq!(records.len(), 2);
    assert_eq!(records[0].relative_path, "echo/a.md");
    assert_eq!(records[1].relative_path, "sage/b.md");
}

#[test]
fn a_scan_names_the_step_that_failed() {
    let broken = |name: Probe<Option<String>>| FileProbe { name, ..markdown("x.md") };
    let error: Fault = enumerate_metadata(
        &vec![familiar("sage", vec![broken(Probe::Failed("io".to_string()))])],
        NOW,
    )
    .expect_err("the listing failed");
    assert_eq!(error.chain(), "failed to enumerate a memory-file entry: io");
    let stale = FileProbe { metadata: Probe::Failed("io".to_string()), ..markdown("x.md") };
    let error = enumerate_metadata(&vec![familiar("sage", vec![stale])], NOW).expect_err("stat failed");
    assert_eq!(error.message, "failed to inspect memory-file metadata");
    let gone = FileProbe { metadata: Probe::Missing, ..markdown("x.md") };
    assert!(scanned(vec![familiar("sage", vec![gone])]).is_empty());
    let restored = FileProbe { restored: Probe::Found(true), ..markdown("x.md") };
    assert!(scanned(vec![familiar("sage", vec![restored])]).is_empty());
}

#[test]
fn read_research_returns_empty_when_file_missing() {
    assert!(read_research("").is_empty());
}

#[test]
fn read_research_parses_tsv_and_skips_header_and_blank_rows() {
    let out = read_research(
        "iteration\ttopic\tscore\tdelta\tdecision\tsource\n\
         1\tHarness landscape\t0.61\t0.00\taccepted\tweb research\n\
         \n\
         # comment line\n\
         2\tEval awareness\t0.68\t0.07\twatch\tpaper synthesis\n",
    );
    assert_eq!(out.len(), 2);
    assert_eq!(out[0].iteration, 1);
    assert_eq!(out[0].topic, "Harness landscape");
    assert_eq!(out[0].score.parse::<f64>().expect("a number"), 0.61);
    assert_eq!(out[0].decision, "accepted");
    assert_eq!(out[1].iteration, 2);
    assert_eq!(out[1].decision, "watch");
}

#[test]
fn first_paragraph_truncates_long_bodies_with_ellipsis() {
    let body = "x".repeat(500);
    let excerpt = first_paragraph(&body, 100);
    assert_eq!(excerpt.chars().count(), 101);
    assert!(excerpt.ends_with('…'));
}

#[test]
fn short_paragraphs_are_kept_whole() {
    assert_eq!(first_paragraph("one line", 100), "one line");
    assert_eq!(first_paragraph("# head\none\ntwo\n\nthree", 100), "one two");
    assert_eq!(first_paragraph("", 100), "");
    assert_eq!(first_paragraph("---\nkind: note\n---\nIntro", 100), "Intro");
    assert_eq!(first_paragraph("# head\n\n---\nkind: note\n---\nIntro", 100), "Intro");
    assert_eq!(first_paragraph("Intro\n---\nmore", 200), "Intro --- more");
}

#[test]
fn ages_are_told_in_the_largest_unit() {
    let at = |back: i64| Moment { seconds: NOW.seconds - back, nanos: 0 };
    assert_eq!(relative_time(at(-5), NOW), "future");
    assert_eq!(relative_time(at(59), NOW), "now");
    assert_eq!(relative_time(at(60), NOW), "1m ago");
    assert_eq!(relative_time(at(3_600), NOW), "1h ago");
    assert_eq!(relative_time(at(86_400), NOW), "1d ago");
    assert_eq!(relative_time(at(86_400 * 30), NOW), "1mo ago");
}

#[test]
fn the_latest_time_wins() {
    let early = Moment { seconds: 5, nanos: 2 };
    let late = Moment { seconds: 5, nanos: 3 };
    assert_eq!(latest_mtime(&vec![early, late, early]), Some(late));
    assert_eq!(latest_mtime(&Vec::new()), None);
    assert_eq!(memory_freshness(&Vec::new(), NOW), "—");
    assert!(late.after(&early));
    assert_eq!(elapsed_since(early, late), Some(0));
    assert_eq!(elapsed_since(late, early), None);
    assert_eq!(
        elapsed_since(Moment { seconds: -1, nanos: 999_999_999 }, Moment { seconds: 1, nanos: 0 }),
        Some(1)
    );
}
