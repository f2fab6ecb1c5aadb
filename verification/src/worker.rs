//! The frames that end a worker.
use vstd::prelude::*;

use crate::json::{fields_read_back, Json, JsonV};

verus! {

/// The `error` frame of a worker.
pub open spec fn worker_error(cmd: Seq<char>, message: Seq<char>) -> JsonV {
    JsonV::obj().with("cmd"@, JsonV::Str(cmd)).with("message"@, JsonV::Str(message))
}

/// The `error` frame of a worker.
pub fn error_frame(cmd: &str, message: &str) -> (r: Json)
    ensures
        r@ == worker_error(cmd@, message@),
{
    Json::obj().with("cmd", Json::string(cmd)).with("message", Json::string(message))
}

/// The `done` frame of a worker on a backend.
pub open spec fn worker_done(cmd: Seq<char>, backend: Seq<char>) -> JsonV {
    JsonV::obj().with("cmd"@, JsonV::Str(cmd)).with("backend"@, JsonV::Str(backend))
}

/// The `done` frame of a worker on a backend.
pub fn done_frame(cmd: &str, backend: &str) -> (r: Json)
    ensures
        r@ == worker_done(cmd@, backend@),
{
    Json::obj().with("cmd", Json::string(cmd)).with("backend", Json::string(backend))
}

/// The frames that end a worker name its command, and the reason or the
/// backend as what it is.
pub proof fn an_end_is_told_by_name(cmd: Seq<char>, message: Seq<char>, backend: Seq<char>)
    ensures
        worker_error(cmd, message).field("cmd"@) == Some(JsonV::Str(cmd)),
        worker_error(cmd, message).field("message"@) == Some(JsonV::Str(message)),
        worker_done(cmd, backend).field("cmd"@) == Some(JsonV::Str(cmd)),
        worker_done(cmd, backend).field("backend"@) == Some(JsonV::Str(backend)),
{
    fields_read_back();
    reveal_strlit("cmd");
    reveal_strlit("message");
    reveal_strlit("backend");
    assert("cmd"@.len() == 3);
    assert("message"@.len() == 7);
    assert("backend"@.len() == 7);
    assert("message"@[0] != "backend"@[0]);
}

} // verus!
