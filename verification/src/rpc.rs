//! What the daemon answers.
use vstd::prelude::*;
use crate::hooks;
use crate::hooks::take_member;
use crate::json::{Json, JsonView};

verus! {

/// Reads an answer of the daemon: what it gives where it says that all is well, else its error.
pub fn rpc(response: Json) -> (r: Result<Json, String>)
    ensures
        match r {
            Ok(result) => hooks::member(response@, "ok"@) == Some(JsonView::Bool(true)) && result@
                == match hooks::member(response@, "result"@) {
                Some(value) => value,
                None => JsonView::Null,
            },
            Err(message) => hooks::member(response@, "ok"@) != Some(JsonView::Bool(true)) && message@
                == match hooks::member(response@, "error"@) {
                Some(JsonView::Text(text)) => text,
                _ => "daemon request failed"@,
            },
        },
{
    proof {
        hooks::lemma_field_view(response, "ok"@);
        hooks::lemma_field_view(response, "error"@);
    }
    let ok = match response.get("ok") {
        Some(Json::Bool(value)) => *value,
        _ => false,
    };
    if !ok {
        return match response.text_at("error") {
            Some(text) => Err(text.to_owned()),
            None => Err("daemon request failed".to_owned()),
        };
    }
    let (_, result) = take_member(response, "result");
    match result {
        Some(value) => Ok(value),
        None => Ok(Json::Null),
    }
}

} // verus!
