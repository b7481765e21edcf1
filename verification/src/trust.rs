//! Marking a directory as trusted in the configuration of the interactive harness.

use crate::json::{
    bool_in, bool_value, empty, empty_object, field, field_of, is_object, json_encoding,
    json_model, json_parsed, json_text, object_with, parse_json, with_field, Json,
};
use serde_json::Value;
use vstd::prelude::*;

verus! {

/// Whether a configuration marks a directory as trusted.
pub open spec fn is_trusted(root: Json, directory: Seq<char>) -> bool {
    match field_of(root, "projects"@) {
        Some(projects) => match field_of(projects, directory) {
            Some(entry) => field_of(entry, "hasTrustDialogAccepted"@) == Some(Json::Bool(true)),
            None => false,
        },
        None => false,
    }
}

/// A field of an object, or the empty object where it has none.
pub open spec fn field_or_empty(value: Json, key: Seq<char>) -> Json {
    match field_of(value, key) {
        Some(inner) => inner,
        None => empty(),
    }
}

/// The configuration with a directory marked as trusted, where it is not yet and where the
/// configuration has a place for the mark.
pub open spec fn with_trust(root: Json, directory: Seq<char>) -> Option<Json> {
    let projects = field_or_empty(root, "projects"@);
    let entry = field_or_empty(projects, directory);
    if is_trusted(root, directory) || !(root is Object) || !(projects is Object) || !(
    entry is Object) {
        None
    } else {
        Some(
            object_with(
                root,
                "projects"@,
                object_with(
                    projects,
                    directory,
                    object_with(entry, "hasTrustDialogAccepted"@, Json::Bool(true)),
                ),
            ),
        )
    }
}

/// What a configuration text holds: nothing where there is none or it is not JSON.
pub open spec fn config_model(text: Option<Seq<char>>) -> Json {
    match text {
        Some(inner) => match json_parsed(inner) {
            Some(root) => root,
            None => empty(),
        },
        None => empty(),
    }
}

/// Copies a field of an object, or gives the empty object where it has none.
fn copy_field(value: &Value, key: &str) -> (copy: Value)
    ensures
        json_model(copy) == field_or_empty(json_model(*value), key@),
{
    match field(value, key) {
        Some(inner) => inner.clone(),
        None => empty_object(),
    }
}

/// Whether a configuration marks a directory as trusted.
fn marks_trusted(root: &Value, directory: &str) -> (trusted: bool)
    ensures
        trusted == is_trusted(json_model(*root), directory@),
{
    match field(root, "projects") {
        Some(projects) => match field(projects, directory) {
            Some(entry) => match field(entry, "hasTrustDialogAccepted") {
                Some(flag) => match bool_in(flag) {
                    Some(trusted) => trusted,
                    None => false,
                },
                None => false,
            },
            None => false,
        },
        None => false,
    }
}

/// The configuration text to write so that a directory is trusted, given the text there is.
/// Nothing is to be written where the directory is trusted already, or where the
/// configuration has no place for the mark.
pub fn ensure_dir_trusted_in_config(text: Option<String>, directory: &str) -> (written: Option<
    String,
>)
    ensures
        match with_trust(config_model(crate::fault::optional_view(text)), directory@) {
            Some(root) => written matches Some(out) && out@ == json_encoding(root),
            None => written is None,
        },
{
    let root = match text {
        Some(inner) => match parse_json(inner.as_str()) {
            Some(root) => root,
            None => empty_object(),
        },
        None => empty_object(),
    };
    if marks_trusted(&root, directory) {
        return None;
    }
    if !is_object(&root) {
        return None;
    }
    let projects = copy_field(&root, "projects");
    if !is_object(&projects) {
        return None;
    }
    let entry = copy_field(&projects, directory);
    if !is_object(&entry) {
        return None;
    }
    let entry = with_field(entry, "hasTrustDialogAccepted", bool_value(true));
    let projects = with_field(projects, directory, entry);
    let root = with_field(root, "projects", projects);
    Some(json_text(&root))
}

/// A configuration that has been given the mark has it, needs no other, and keeps every
/// other field, every other project and every other field of the project.
pub proof fn trust_is_added_and_nothing_lost(root: Json, directory: Seq<char>)
    requires
        with_trust(root, directory) is Some,
    ensures
        ({
            let after = with_trust(root, directory)->0;
            let projects = field_or_empty(root, "projects"@);
            let entry = field_or_empty(projects, directory);
            let new_projects = field_or_empty(after, "projects"@);
            let new_entry = field_or_empty(new_projects, directory);
            &&& is_trusted(after, directory)
            &&& with_trust(after, directory) is None
            &&& forall|key: Seq<char>|
                key != "projects"@ ==> #[trigger] field_of(after, key) == field_of(root, key)
            &&& forall|other: Seq<char>|
                other != directory ==> #[trigger] field_of(new_projects, other) == field_of(
                    projects,
                    other,
                )
            &&& forall|key: Seq<char>|
                key != "hasTrustDialogAccepted"@ ==> #[trigger] field_of(new_entry, key)
                    == field_of(entry, key)
        }),
{
}

/// A directory is trusted if and only if its entry among the projects of the configuration
/// says so with `true`.
pub proof fn trust_is_a_mark_of_the_project(root: Json, directory: Seq<char>)
    ensures
        is_trusted(root, directory) <==> (field_of(root, "projects"@) matches Some(projects) && (
        field_of(projects, directory) matches Some(entry) && field_of(
            entry,
            "hasTrustDialogAccepted"@,
        ) == Some(Json::Bool(true)))),
{
}

/// The mark is written if and only if it is not there, the configuration is an object, and so
/// are its projects and the directory's entry, where they are there.
pub proof fn marks_are_written_where_there_is_place(root: Json, directory: Seq<char>)
    ensures
        ({
            let projects = field_of(root, "projects"@);
            let entry = match projects {
                Some(inner) => field_of(inner, directory),
                None => None,
            };
            with_trust(root, directory) is Some <==> !is_trusted(root, directory) && root is Object
                && (projects matches Some(inner) ==> inner is Object) && (entry matches Some(inner)
                ==> inner is Object)
        }),
{
}

/// A configuration is what its text says; without a text, and with one that is no JSON, it is
/// empty.
pub proof fn unreadable_configurations_are_empty(text: Seq<char>)
    ensures
        config_model(None) == Json::Object(Map::empty()),
        json_parsed(text) matches Some(root) ==> config_model(Some(text)) == root,
        json_parsed(text) is None ==> config_model(Some(text)) == Json::Object(Map::empty()),
{
}

/// What is written marks the directory as trusted; nothing is written where it is marked or
/// there is no place for the mark.
pub proof fn writing_marks_the_directory(
    text: Option<String>,
    directory: &str,
    written: Option<String>,
)
    requires
        call_ensures(ensure_dir_trusted_in_config, (text, directory), written),
    ensures
        ({
            let root = config_model(crate::fault::optional_view(text));
            &&& is_trusted(root, directory@) ==> written is None
            &&& written is Some <==> with_trust(root, directory@) is Some
            &&& written matches Some(out) ==> exists|after: Json|
                out@ == #[trigger] json_encoding(after) && is_trusted(after, directory@)
        }),
{
    let root = config_model(crate::fault::optional_view(text));
    if with_trust(root, directory@) is Some {
        trust_is_added_and_nothing_lost(root, directory@);
        let after = with_trust(root, directory@)->0;
        assert(written->0@ == json_encoding(after));
    }
}

} // verus!
