//! How the hub application answers the requests it receives.

use vstd::prelude::*;

use crate::hub::{hub_json, repr_message, ReprMessage};
use crate::json::{json_quote, json_quoted};
use crate::text::same_text;

verus! {

/// What to do with one request.
#[derive(Debug, PartialEq, Eq)]
pub enum Dispatch {
    /// Upload a project; the text holds the upload parameters.
    Upload(String),
    /// Send this reply to the client.
    Reply(String),
}

/// The body of the reply to a finished transfer: `{"code":<ok_code>}` on
/// success, `{"code":"Failed","msg":<error>}` on failure.
pub open spec fn outcome_json(ok_code: Seq<char>, outcome: Result<(), Seq<char>>) -> Seq<char> {
    match outcome {
        Ok(()) => "{\"code\":"@ + json_quoted(ok_code) + "}"@,
        Err(e) => "{\"code\":\"Failed\",\"msg\":"@ + json_quoted(e) + "}"@,
    }
}

/// The view of a transfer outcome.
pub open spec fn outcome_view(outcome: &Result<(), String>) -> Result<(), Seq<char>> {
    match outcome {
        Ok(()) => Ok(()),
        Err(e) => Err(e@),
    }
}

fn outcome_text(ok_code: &str, outcome: &Result<(), String>) -> (r: String)
    ensures
        r@ == outcome_json(ok_code@, outcome_view(outcome)),
{
    let mut out = String::new();
    match outcome {
        Ok(()) => {
            out.append("{\"code\":");
            out.append(json_quote(ok_code).as_str());
            out.append("}");
        },
        Err(e) => {
            out.append("{\"code\":\"Failed\",\"msg\":");
            out.append(json_quote(e.as_str()).as_str());
            out.append("}");
        },
    }
    assert(out@ =~= outcome_json(ok_code@, outcome_view(outcome)));
    out
}

/// Decides what to do with a request: `parsed` is the request read as a hub
/// message, or the text of the reason it could not be read as one. Upload
/// requests go to the uploader; any other code is answered as unknown; an
/// unreadable request is answered with the reason.
pub fn route_request(parsed: &Result<ReprMessage, String>) -> (r: Dispatch)
    ensures
        parsed matches Ok(m) ==> (m.code@ == "UploadProject"@ ==> (r matches Dispatch::Upload(p)
            && p@ == m.msg@)),
        parsed matches Ok(m) ==> (m.code@ != "UploadProject"@ ==> (r matches Dispatch::Reply(t)
            && t@ == hub_json("InvalidCode"@, m.msgid@, "not find code handle"@))),
        parsed matches Err(e) ==> (r matches Dispatch::Reply(t) && t@ == hub_json(
            "InvalidCode"@,
            "nil"@,
            e@,
        )),
{
    match parsed {
        Ok(m) => {
            if same_text(m.code.as_str(), "UploadProject") {
                Dispatch::Upload(m.msg.clone())
            } else {
                Dispatch::Reply(
                    repr_message(m.msgid.as_str(), "InvalidCode", "not find code handle"),
                )
            }
        },
        Err(e) => Dispatch::Reply(repr_message("nil", "InvalidCode", e.as_str())),
    }
}

/// The reply to a finished project upload.
pub fn upload_reply(outcome: &Result<(), String>) -> (r: String)
    ensures
        r@ == hub_json("UploadProject"@, "nil"@, outcome_json("Ok"@, outcome_view(outcome))),
{
    let body = outcome_text("Ok", outcome);
    repr_message("nil", "UploadProject", body.as_str())
}

/// The reply to a finished project download requested as `msgid` with `code`.
pub fn download_reply(msgid: &str, code: &str, outcome: &Result<(), String>) -> (r: String)
    ensures
        r@ == hub_json(code@, msgid@, outcome_json("OK"@, outcome_view(outcome))),
{
    let body = outcome_text("OK", outcome);
    repr_message(msgid, code, body.as_str())
}

/// The reply to an upload request whose parameters cannot be read.
pub fn invalid_param_reply() -> (r: String)
    ensures
        r@ == hub_json("nil"@, "InvalidParam"@, "Instruction parameter error"@),
{
    repr_message("InvalidParam", "nil", "Instruction parameter error")
}

} // verus!
