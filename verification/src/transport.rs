//! The events of a stream.
use vstd::prelude::*;

use crate::error::Error;
#[allow(unused_imports)]
use crate::error::{outcome, ErrorView};
#[allow(unused_imports)]
use crate::images::is_silent;
use crate::json::Json;
#[allow(unused_imports)]
use crate::json::{read_json, JsonView};
use crate::text::{is_blank, same};

verus! {

/// The event that a part of a stream holds, where it holds one: the mark of its
/// end and blank parts hold none.
pub open spec fn event_in(data: Seq<char>) -> Result<Option<JsonView>, ErrorView> {
    if is_silent(data) {
        Ok(None)
    } else {
        match read_json(data) {
            Ok(event) => Ok(Some(event)),
            Err(error) => Err(error),
        }
    }
}

/// The event that a part of a stream holds, where it holds one.
pub fn stream_event(data: &str) -> (event: Result<Option<Json>, Error>)
    ensures
        outcome(event) == event_in(data@),
{
    if same(data, "[DONE]") || is_blank(data) {
        return Ok(None);
    }
    match Json::from_text(data) {
        Ok(event) => Ok(Some(event)),
        Err(error) => Err(error),
    }
}

} // verus!
