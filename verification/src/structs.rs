//! The records that travel between the editor plugin and the server, and
//! the JSON text of the replies among them.

use vstd::prelude::*;

use crate::code::{code_name, MessageCode};
use crate::json::{json_quote, json_quoted, reads_back};
use crate::text::{decimal, write_decimal};

verus! {

/// Progress of an asynchronous task.
pub struct AsyncTaskMsg {
    pub percentage: i32,
    pub body: String,
}

/// A request for an asynchronous task, with its parameters in `msg`.
pub struct AsyncTask<Message> {
    pub code: MessageCode,
    pub msg: Message,
    pub id: String,
}

/// A bare message with a code.
pub struct Message {
    pub msg: String,
    pub code: MessageCode,
}

/// The parameters of a project clone.
pub struct AsyncGitClone {
    pub host: String,
    pub path: String,
    pub save_dir: String,
    pub user: String,
    pub password: String,
}

/// The body of a reply: what it answers, how far the task has come, and a text.
pub struct ReprMessageMsg {
    pub code: MessageCode,
    pub process: u32,
    pub body: String,
}

/// A reply to the request with id `id`.
pub struct ReprMessage {
    pub code: MessageCode,
    pub id: String,
    pub msg: ReprMessageMsg,
}

/// One entry of a directory listing.
pub struct DirInfo {
    pub filename: String,
    pub size: u64,
    pub is_dir: bool,
}

/// How to log in to a remote host over SSH.
#[derive(Debug, PartialEq, Eq)]
pub enum SSHLoginType {
    SSHKEY(String),
    SSHPASSWORD(String),
}

/// The stored configuration of a project.
#[derive(Debug, PartialEq, Eq)]
pub struct Project {
    pub user: String,
    pub remote: String,
    pub login: SSHLoginType,
}

/// The JSON text of a `Message`: its fields in declaration order.
pub open spec fn message_json(msg: Seq<char>, code: MessageCode) -> Seq<char> {
    "{\"msg\":"@ + json_quoted(msg) + ",\"code\":"@ + json_quoted(code_name(code)) + "}"@
}

/// The JSON text of a `ReprMessageMsg`.
pub open spec fn repr_body_json(code: MessageCode, process: u32, body: Seq<char>) -> Seq<char> {
    "{\"code\":"@ + json_quoted(code_name(code)) + ",\"process\":"@ + decimal(process as nat)
        + ",\"body\":"@ + json_quoted(body) + "}"@
}

/// The JSON text of a `ReprMessage`.
pub open spec fn repr_json(
    code: MessageCode,
    id: Seq<char>,
    inner: MessageCode,
    process: u32,
    body: Seq<char>,
) -> Seq<char> {
    "{\"code\":"@ + json_quoted(code_name(code)) + ",\"id\":"@ + json_quoted(id) + ",\"msg\":"@
        + repr_body_json(inner, process, body) + "}"@
}

impl Message {
    /// The JSON text of this message, as serde_json writes it.
    pub fn to_json(&self) -> (r: String)
        ensures
            r@ == message_json(self.msg@, self.code),
            reads_back(self.msg@),
            reads_back(code_name(self.code)),
    {
        let mut out = String::new();
        out.append("{\"msg\":");
        out.append(json_quote(self.msg.as_str()).as_str());
        out.append(",\"code\":");
        out.append(json_quote(self.code.name()).as_str());
        out.append("}");
        assert(out@ =~= message_json(self.msg@, self.code));
        out
    }
}

impl ReprMessageMsg {
    /// Appends the JSON text of this reply body to `out`.
    pub fn write_json(&self, out: &mut String)
        ensures
            final(out)@ == old(out)@ + repr_body_json(self.code, self.process, self.body@),
            reads_back(code_name(self.code)),
            reads_back(self.body@),
    {
        let ghost start = out@;
        out.append("{\"code\":");
        out.append(json_quote(self.code.name()).as_str());
        out.append(",\"process\":");
        write_decimal(out, self.process as u64);
        out.append(",\"body\":");
        out.append(json_quote(self.body.as_str()).as_str());
        out.append("}");
        assert(out@ =~= start + repr_body_json(self.code, self.process, self.body@));
    }
}

impl ReprMessage {
    /// The JSON text of this reply, as serde_json writes it.
    pub fn to_json(&self) -> (r: String)
        ensures
            r@ == repr_json(self.code, self.id@, self.msg.code, self.msg.process, self.msg.body@),
            reads_back(code_name(self.code)),
            reads_back(self.id@),
            reads_back(code_name(self.msg.code)),
            reads_back(self.msg.body@),
    {
        let mut out = String::new();
        out.append("{\"code\":");
        out.append(json_quote(self.code.name()).as_str());
        out.append(",\"id\":");
        out.append(json_quote(self.id.as_str()).as_str());
        out.append(",\"msg\":");
        self.msg.write_json(&mut out);
        out.append("}");
        assert(out@ =~= repr_json(
            self.code,
            self.id@,
            self.msg.code,
            self.msg.process,
            self.msg.body@,
        ));
        out
    }
}

} // verus!
