//! The second JSON-family client's live file, `mcpServers` in its user
//! configuration.

use vstd::prelude::*;

use crate::app_config::AppType;
use crate::errors::AppError;
use crate::store::CanonicalStore;

use super::{
    all_payload_ok, enabled_views, export_text_spec, import_from_live_json, live_base_ok,
    live_server_entries, live_view, merge_fold, remove_server_from_live, remove_text_spec,
    render_live_export, store_map,
};

verus! {

/// Merge this client's live file into the canonical store. A missing
/// file is zero changes; the one hard error is a file that is not
/// valid JSON, and it leaves the store untouched.
pub fn import_from_gemini(store: &mut CanonicalStore, live: Option<&str>) -> (r: Result<
    usize,
    AppError,
>)
    requires
        old(store).wf(),
    ensures
        final(store).wf(),
        match r {
            Ok(n) => {
                &&& (live_view(live) is Some ==> crate::jsonio::json_doc_of(
                    live_view(live)->Some_0,
                ) is Some)
                &&& store_map(*final(store)) == merge_fold(
                    store_map(*old(store)),
                    live_server_entries(live_view(live)),
                    AppType::Gemini,
                ).0
                &&& n == merge_fold(
                    store_map(*old(store)),
                    live_server_entries(live_view(live)),
                    AppType::Gemini,
                ).1
            },
            Err(e) => {
                &&& e is Parse
                &&& live_view(live) is Some
                &&& crate::jsonio::json_doc_of(live_view(live)->Some_0) is None
                &&& *final(store) == *old(store)
            },
        },
{
    import_from_live_json(store, live, &AppType::Gemini)
}

/// Write the records enabled for this client into its live file text.
pub fn sync_enabled_to_gemini(store: &CanonicalStore, live: Option<&str>) -> (r: Result<
    String,
    AppError,
>)
    ensures
        r is Ok ==> r->Ok_0@ == export_text_spec(live_view(live), store.servers@, AppType::Gemini),
        r is Ok <==> live_base_ok(live_view(live)) && all_payload_ok(
            enabled_views(store.servers@, AppType::Gemini),
        ),
{
    render_live_export(store, &AppType::Gemini, live)
}

/// Drop one server from this client's live file text. This succeeds
/// on every readable input: a missing file yields a document holding
/// only an empty `mcpServers` object.
pub fn remove_server_from_gemini(live: Option<&str>, id: &str) -> (r: Result<String, AppError>)
    ensures
        match r {
            Ok(text) => {
                &&& live_base_ok(live_view(live))
                &&& all_payload_ok(
                    crate::model::vobj_remove(live_server_entries(live_view(live)), id@),
                )
                &&& text@ == remove_text_spec(live_view(live), id@, AppType::Gemini)
            },
            Err(e) => match e {
                AppError::Parse(_) => live_view(live) is Some && crate::jsonio::json_doc_of(
                    live_view(live)->Some_0,
                ) is None,
                AppError::Config(_) => !live_base_ok(live_view(live)),
                AppError::McpValidation(_) => !all_payload_ok(
                    crate::model::vobj_remove(live_server_entries(live_view(live)), id@),
                ),
                _ => false,
            },
        },
{
    remove_server_from_live(live, id, &AppType::Gemini)
}

} // verus!
