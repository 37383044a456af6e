//! The replies that the task processor sends back.

use vstd::prelude::*;

use crate::code::{code_name, MessageCode};
use crate::structs::{message_json, repr_json, Message, ReprMessage, ReprMessageMsg};
use crate::json::reads_back;
use crate::text::{all_digits, decimal, digits_value, lemma_decimal_digits, write_decimal};

verus! {

/// The text of the reply to a task code that has no handler.
pub open spec fn no_handler_text(code: Seq<char>) -> Seq<char> {
    "faild: not find `"@ + code + "` processing task"@
}

/// The text of the reply to a frame that is not JSON.
pub open spec fn not_json_text(length: nat) -> Seq<char> {
    "failed to parse JSON from received data, length = "@ + decimal(length)
}

/// The text that ends a project clone, by how updating the project record went.
pub open spec fn clone_end_text(project_name: Seq<char>, updated: Result<(), Seq<char>>) -> Seq<
    char,
> {
    match updated {
        Ok(()) => "Sucessfully: clone project "@ + project_name,
        Err(e) => "faild: update project conf "@ + e,
    }
}

/// A reply to the request `id`, about `code`, with progress `process` and
/// text `msg`. Read back, the reply gives its fields again: each of its
/// strings is a JSON string literal that serde_json reads as the field it
/// was written from, and the progress is written in decimal digits whose
/// value is `process`.
pub fn repr_message(id: &str, code: MessageCode, msg: &str, process: u32) -> (r: String)
    ensures
        r@ == repr_json(MessageCode::ReprMessage, id@, code, process, msg@),
        reads_back(code_name(MessageCode::ReprMessage)),
        reads_back(id@),
        reads_back(code_name(code)),
        reads_back(msg@),
        all_digits(decimal(process as nat)),
        digits_value(decimal(process as nat)) == process,
{
    let reply = ReprMessage {
        code: MessageCode::ReprMessage,
        id: id.to_owned(),
        msg: ReprMessageMsg { code, process, body: msg.to_owned() },
    };
    proof {
        lemma_decimal_digits(process as nat);
    }
    reply.to_json()
}

/// The reply to a request whose code names no task this server runs.
pub fn faild_process(code: &str, id: &str) -> (r: String)
    ensures
        r@ == repr_json(
            MessageCode::ReprMessage,
            id@,
            MessageCode::InvalidCode,
            100,
            no_handler_text(code@),
        ),
{
    let mut text = String::new();
    text.append("faild: not find `");
    text.append(code);
    text.append("` processing task");
    assert(text@ =~= no_handler_text(code@));
    repr_message(id, MessageCode::InvalidCode, text.as_str(), 100)
}

/// The first message a client receives after connecting.
pub fn welcome_message() -> (r: String)
    ensures
        r@ == repr_json(
            MessageCode::ReprMessage,
            "nil"@,
            MessageCode::ConnectedOk,
            100,
            "Welcome to Karasync"@,
        ),
{
    repr_message("nil", MessageCode::ConnectedOk, "Welcome to Karasync", 100)
}

/// The reply to a received frame of `length` bytes that is not JSON.
pub fn not_json_reply(length: usize) -> (r: String)
    ensures
        r@ == message_json(not_json_text(length as nat), MessageCode::InvalidCode),
{
    let mut text = String::new();
    text.append("failed to parse JSON from received data, length = ");
    write_decimal(&mut text, length as u64);
    assert(text@ =~= not_json_text(length as nat));
    let message = Message { msg: text, code: MessageCode::InvalidCode };
    message.to_json()
}

/// The text sent back when a clone request does not hold a clone task.
pub fn clone_request_rejected(reason: &str) -> (r: String)
    ensures
        r@ == "Faile: json to AsyncTask<AsyncGitClone> "@ + reason@,
{
    let mut text = String::new();
    text.append("Faile: json to AsyncTask<AsyncGitClone> ");
    text.append(reason);
    text
}

/// The reply that ends the clone requested by `id`, by how updating the
/// project record went.
pub fn clone_finished(id: &str, code: MessageCode, project_name: &str, updated: &Result<(), String>) -> (r:
    String)
    ensures
        r@ == repr_json(
            MessageCode::ReprMessage,
            id@,
            code,
            100,
            clone_end_text(
                project_name@,
                match updated {
                    Ok(()) => Ok(()),
                    Err(e) => Err(e@),
                },
            ),
        ),
{
    let mut text = String::new();
    match updated {
        Ok(()) => {
            text.append("Sucessfully: clone project ");
            text.append(project_name);
        },
        Err(e) => {
            text.append("faild: update project conf ");
            text.append(e.as_str());
        },
    }
    repr_message(id, code, text.as_str(), 100)
}

/// Where the record of the cloned project `project_name` is kept.
pub fn project_record_path(data_dir: &str, root: &str, project_name: &str) -> (r: String)
    ensures
        r@ == data_dir@ + "/"@ + root@ + "/"@ + project_name@,
{
    let mut path = data_dir.to_owned();
    path.append("/");
    path.append(root);
    path.append("/");
    path.append(project_name);
    path
}

} // verus!
