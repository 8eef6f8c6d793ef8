//! Showing and editing one secret: the mount layout it is read with, the
//! table it is shown as, the JSON text handed to the editor, and what the
//! edited text must be for each layout.
use vstd::prelude::*;

use crate::errors::AppError;
use crate::version::{kv_version_of, parse_kv_version, KvVersion};

verus! {

#[verifier::external_type_specification]
#[verifier::external_body]
pub struct ExJsonValue(serde_json::Value);

#[verifier::external_type_specification]
#[verifier::external_body]
#[verifier::reject_recursive_types(K)]
#[verifier::reject_recursive_types(V)]
pub struct ExJsonMap<K, V>(serde_json::Map<K, V>);

/// Whether `serde_json` reads `text` as one JSON value.
pub uninterp spec fn json_text_is_value(text: Seq<char>) -> bool;

/// The JSON value `serde_json` reads from `text`, where it reads one.
pub uninterp spec fn json_value_of(text: Seq<char>) -> serde_json::Value;

/// The message of the error `serde_json` reports when it cannot read
/// `text` as one JSON value.
pub uninterp spec fn json_value_error_of(text: Seq<char>) -> Seq<char>;

/// Whether `serde_json` reads `text` as a JSON object.
pub uninterp spec fn json_text_is_object(text: Seq<char>) -> bool;

/// The JSON object `serde_json` reads from `text`, where it reads one.
pub uninterp spec fn json_object_of(text: Seq<char>) -> serde_json::Map<String, serde_json::Value>;

/// The message of the error `serde_json` reports when it cannot read
/// `text` as a JSON object.
pub uninterp spec fn json_object_error_of(text: Seq<char>) -> Seq<char>;

/// The pretty-printed JSON text `serde_json` writes for a value.
pub uninterp spec fn json_pretty_of(v: serde_json::Value) -> Seq<char>;

/// The table text `json_to_table` renders for a value.
pub uninterp spec fn json_table_of(v: serde_json::Value) -> Seq<char>;

/// Calls `serde_json::from_str::<serde_json::Value>`. Claimed: the parse
/// succeeds exactly when `json_text_is_value` holds of the text, and then
/// gives `json_value_of` of the text, else fails with the `Display` of
/// the error, `json_value_error_of` of the text; all depend on the text
/// alone.
#[verifier::external_body]
fn json_value_from_text(text: &str) -> (res: Result<serde_json::Value, String>)
    ensures
        res is Ok <==> json_text_is_value(text@),
        res matches Ok(v) ==> v == json_value_of(text@),
        res matches Err(d) ==> d@ == json_value_error_of(text@),
{
    match serde_json::from_str::<serde_json::Value>(text) {
        Ok(v) => Ok(v),
        Err(e) => Err(e.to_string()),
    }
}

/// Calls `serde_json::from_str::<serde_json::Map<String, serde_json::Value>>`.
/// Claimed: the parse succeeds exactly when `json_text_is_object` holds of
/// the text, and then gives `json_object_of` of the text, else fails with
/// the `Display` of the error, `json_object_error_of` of the text; all
/// depend on the text alone.
#[verifier::external_body]
fn json_object_from_text(text: &str) -> (res: Result<serde_json::Map<String, serde_json::Value>, String>)
    ensures
        res is Ok <==> json_text_is_object(text@),
        res matches Ok(m) ==> m == json_object_of(text@),
        res matches Err(d) ==> d@ == json_object_error_of(text@),
{
    match serde_json::from_str::<serde_json::Map<String, serde_json::Value>>(text) {
        Ok(m) => Ok(m),
        Err(e) => Err(e.to_string()),
    }
}

/// Calls `serde_json::to_string_pretty` on a JSON value. Claimed: it
/// succeeds, and gives `json_pretty_of` of the value, which depends on the
/// value alone. Writing a `Value` cannot fail: object keys are strings,
/// numbers that are not finite are written as `null`, and writing into a
/// `Vec` reports no error.
#[verifier::external_body]
fn json_pretty_text(secret: &serde_json::Value) -> (res: Result<String, String>)
    ensures
        res is Ok,
        res->Ok_0@ == json_pretty_of(*secret),
{
    match serde_json::to_string_pretty(secret) {
        Ok(t) => Ok(t),
        Err(e) => Err(e.to_string()),
    }
}

/// Calls `json_to_table::json_to_table` and renders the table with its
/// `Display`. Claimed: the text is `json_table_of` of the value, which
/// depends on the value alone (the rendering reads no terminal width or
/// other setting).
#[verifier::external_body]
fn json_table_text(secret: &serde_json::Value) -> (res: String)
    ensures
        res@ == json_table_of(*secret),
{
    json_to_table::json_to_table(secret).to_string()
}

/// The layout a secret is read and written with; an unknown spelling is
/// an error.
pub fn secret_version(kvv: &str) -> (res: Result<KvVersion, AppError>)
    ensures
        match kv_version_of(kvv@) {
            Some(v) => res == Ok::<KvVersion, AppError>(v),
            None => res == Err::<KvVersion, AppError>(AppError::UnknownKvVersion),
        },
{
    match parse_kv_version(kvv) {
        Some(v) => Ok(v),
        None => Err(AppError::UnknownKvVersion),
    }
}

/// The secret as the table that is shown to the user.
pub fn secret_table(secret: &serde_json::Value) -> (res: String)
    ensures
        res@ == json_table_of(*secret),
{
    json_table_text(secret)
}

/// The secret as the pretty-printed JSON text handed to the editor.
pub fn editable_secret(secret: &serde_json::Value) -> (res: Result<String, AppError>)
    ensures
        res matches Ok(t) && t@ == json_pretty_of(*secret),
{
    match json_pretty_text(secret) {
        Ok(t) => Ok(t),
        Err(d) => Err(AppError::JsonFailed(d)),
    }
}

/// An edited secret, ready to be written back.
pub enum EditedSecret {
    /// Any JSON value, for a layout-2 mount.
    Kv2(serde_json::Value),
    /// A JSON object, for a layout-1 mount.
    Kv1(serde_json::Map<String, serde_json::Value>),
}

/// Whether `text` is an acceptable edited secret for layout `version`: any
/// JSON value for layout 2, a JSON object for layout 1.
pub open spec fn edit_accepted(version: KvVersion, text: Seq<char>) -> bool {
    match version {
        KvVersion::V2 => json_text_is_value(text),
        KvVersion::V1 => json_text_is_object(text),
    }
}

/// Why `text` is not a secret of layout `version`, as `serde_json` says.
pub open spec fn edit_refusal(version: KvVersion, text: Seq<char>) -> Seq<char> {
    match version {
        KvVersion::V2 => json_value_error_of(text),
        KvVersion::V1 => json_object_error_of(text),
    }
}

/// Reads the text the editor returned as a secret of layout `version`.
pub fn parse_edited(version: KvVersion, text: &str) -> (res: Result<EditedSecret, AppError>)
    ensures
        res is Ok <==> edit_accepted(version, text@),
        res matches Ok(s) ==> (s is Kv2 <==> version == KvVersion::V2),
        res matches Ok(EditedSecret::Kv2(v)) ==> v == json_value_of(text@),
        res matches Ok(EditedSecret::Kv1(m)) ==> m == json_object_of(text@),
        res matches Err(e) ==> e is ParseFailed,
        res matches Err(AppError::ParseFailed(d)) ==> d@ == edit_refusal(version, text@),
{
    match version {
        KvVersion::V2 => match json_value_from_text(text) {
            Ok(v) => Ok(EditedSecret::Kv2(v)),
            Err(d) => Err(AppError::ParseFailed(d)),
        },
        KvVersion::V1 => match json_object_from_text(text) {
            Ok(m) => Ok(EditedSecret::Kv1(m)),
            Err(d) => Err(AppError::ParseFailed(d)),
        },
    }
}

/// What running the editor gave: the edited text, or the failure with the
/// editor's message.
pub fn editor_outcome(res: Result<String, String>) -> (out: Result<String, AppError>)
    ensures
        match res {
            Ok(t) => out == Ok::<String, AppError>(t),
            Err(d) => out == Err::<String, AppError>(AppError::EditorFailed(d)),
        },
{
    match res {
        Ok(t) => Ok(t),
        Err(d) => Err(AppError::EditorFailed(d)),
    }
}

/// What leaving the editor gave, read as a secret of layout `version`:
/// the editor's failure, or the parse of the text it returned.
pub fn edited_secret(version: KvVersion, edited: Result<String, String>) -> (res: Result<
    EditedSecret,
    AppError,
>)
    ensures
        match edited {
            Err(d) => res == Err::<EditedSecret, AppError>(AppError::EditorFailed(d)),
            Ok(t) => {
                &&& res is Ok <==> edit_accepted(version, t@)
                &&& res matches Ok(s) ==> (s is Kv2 <==> version == KvVersion::V2)
                &&& res matches Ok(EditedSecret::Kv2(v)) ==> v == json_value_of(t@)
                &&& res matches Ok(EditedSecret::Kv1(m)) ==> m == json_object_of(t@)
                &&& res matches Err(e) ==> e is ParseFailed
                &&& res matches Err(AppError::ParseFailed(d)) ==> d@ == edit_refusal(version, t@)
            },
        },
{
    match editor_outcome(edited) {
        Ok(t) => parse_edited(version, t.as_str()),
        Err(e) => Err(e),
    }
}

/// What writing the edited secret gave: nothing, or the failure with the
/// server's message.
pub fn update_outcome(res: Result<(), String>) -> (out: Result<(), AppError>)
    ensures
        match res {
            Ok(_) => out is Ok,
            Err(d) => out == Err::<(), AppError>(AppError::UpdateFailed(d)),
        },
{
    match res {
        Ok(_) => Ok(()),
        Err(d) => Err(AppError::UpdateFailed(d)),
    }
}

/// What reading the secret to show gave: its table, or the failure with
/// the reader's message.
pub fn shown_outcome(res: Result<String, String>) -> (out: Result<String, AppError>)
    ensures
        match res {
            Ok(t) => out == Ok::<String, AppError>(t),
            Err(d) => out == Err::<String, AppError>(AppError::ReadFailed(d)),
        },
{
    match res {
        Ok(t) => Ok(t),
        Err(d) => Err(AppError::ReadFailed(d)),
    }
}


/// Whether an edit is accepted depends on the JSON alone, whatever the
/// length or content of the text: a layout-2 mount takes every text
/// `serde_json` reads as a value, a layout-1 mount every text it reads as
/// an object; a refused edit is refused with `serde_json`'s own message.
pub proof fn lemma_edit_accepted_by_json_alone(text: Seq<char>)
    ensures
        edit_accepted(KvVersion::V2, text) == json_text_is_value(text),
        edit_accepted(KvVersion::V1, text) == json_text_is_object(text),
        edit_refusal(KvVersion::V2, text) == json_value_error_of(text),
        edit_refusal(KvVersion::V1, text) == json_object_error_of(text),
{
}

} // verus!
