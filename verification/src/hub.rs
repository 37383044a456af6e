//! The message hub: frames read from a client connection, the replies it
//! writes, and the clients that have logged in.

use vstd::prelude::*;
use vstd::utf8::{decode_utf8, is_char_boundary, valid_utf8};

use crate::json::{is_json_document, json_document_ok, json_quote, json_quoted, reads_back};
use crate::text::utf8_text;

verus! {

/// The sending half of a tokio channel.
#[verifier::external_type_specification]
#[verifier::external_body]
#[verifier::reject_recursive_types(T)]
pub struct ExSender<T>(tokio::sync::mpsc::Sender<T>);

/// Why reading a frame from a client failed.
#[derive(Debug, Clone, Copy, PartialEq, Eq, Structural)]
pub enum RPCErrorKind {
    Disconnect,
    ReadZero,
    Parse,
}

/// A failed frame read, with a message for the log.
#[derive(Debug)]
pub struct RPCError {
    pub kind: RPCErrorKind,
    pub msg: &'static str,
}

impl RPCError {
    /// The text shown for this error: its message.
    pub fn text(&self) -> (r: &'static str)
        ensures
            r@ == self.msg@,
    {
        self.msg
    }
}

/// The first message a client sends: who it is and which project it serves.
#[derive(Debug)]
pub struct InitClient {
    pub id: String,
    pub path: String,
}

/// A request or reply on the hub: a code, the id of the message it belongs
/// to, and a text.
#[derive(Debug)]
pub struct ReprMessage {
    pub code: String,
    pub msgid: String,
    pub msg: String,
}

/// A logged-in client and the channel that writes to its connection.
#[derive(Debug)]
pub struct Client {
    pub id: String,
    pub path: String,
    pub sender: tokio::sync::mpsc::Sender<String>,
}

impl Client {
    /// Takes over the identity the client announced when it logged in.
    pub fn from_value(&mut self, conf: InitClient)
        ensures
            final(self).id@ == conf.id@,
            final(self).path@ == conf.path@,
            final(self).sender == old(self).sender,
    {
        self.id = conf.id;
        self.path = conf.path;
    }
}

/// The JSON text of a hub message.
pub open spec fn hub_json(code: Seq<char>, msgid: Seq<char>, msg: Seq<char>) -> Seq<char> {
    "{\"code\":"@ + json_quoted(code) + ",\"msgid\":"@ + json_quoted(msgid) + ",\"msg\":"@
        + json_quoted(msg) + "}"@
}

impl ReprMessage {
    /// The JSON text of this message, as serde_json writes it.
    pub fn to_json(&self) -> (r: String)
        ensures
            r@ == hub_json(self.code@, self.msgid@, self.msg@),
            reads_back(self.code@),
            reads_back(self.msgid@),
            reads_back(self.msg@),
    {
        let mut out = String::new();
        out.append("{\"code\":");
        out.append(json_quote(self.code.as_str()).as_str());
        out.append(",\"msgid\":");
        out.append(json_quote(self.msgid.as_str()).as_str());
        out.append(",\"msg\":");
        out.append(json_quote(self.msg.as_str()).as_str());
        out.append("}");
        assert(out@ =~= hub_json(self.code@, self.msgid@, self.msg@));
        out
    }
}

/// A hub message for the message `id`, with code `code` and text `msg`;
/// serde_json reads each of its string fields back as the field it was
/// written from.
pub fn repr_message(id: &str, code: &str, msg: &str) -> (r: String)
    ensures
        r@ == hub_json(code@, id@, msg@),
        reads_back(code@),
        reads_back(id@),
        reads_back(msg@),
{
    let m = ReprMessage { code: code.to_owned(), msgid: id.to_owned(), msg: msg.to_owned() };
    m.to_json()
}

/// The message a client receives as soon as it connects.
pub fn ok_message() -> (r: String)
    ensures
        r@ == hub_json("ConnectedOk"@, "nil"@, "Welcome to Karasync"@),
{
    repr_message("nil", "ConnectedOk", "Welcome to Karasync")
}

/// What reading one frame gives: the read's outcome (`None` when the read
/// failed, else the number of bytes received) and the buffer read into.
pub open spec fn frame_result(buf: Seq<u8>, received: Option<usize>) -> Result<
    Seq<char>,
    (RPCErrorKind, Seq<char>),
> {
    match received {
        None => Err((RPCErrorKind::Disconnect, "connection is Disconnect"@)),
        Some(n) => if n == 0 {
            Err((RPCErrorKind::ReadZero, "filad: Read socket fd is zero"@))
        } else if !valid_utf8(buf) {
            Err((RPCErrorKind::ReadZero, "faild: socket buffer is not parse"@))
        } else if !is_json_document(decode_utf8(buf.take(n as int))) {
            Err((RPCErrorKind::Parse, "message parse json"@))
        } else {
            Ok(decode_utf8(buf.take(n as int)))
        },
    }
}

/// Checks one frame read from a client: a failed read is a disconnection,
/// an empty read means the peer closed, the whole buffer must be UTF-8, and
/// the received part must be a JSON document, whose text is returned.
pub fn read_frame(buf: &[u8], received: Option<usize>) -> (r: Result<String, RPCError>)
    requires
        received matches Some(n) ==> n <= buf@.len() && (valid_utf8(buf@) ==> is_char_boundary(
            buf@,
            n as int,
        )),
    ensures
        r matches Ok(t) ==> frame_result(buf@, received) == Ok::<Seq<char>, (RPCErrorKind, Seq<char>)>(t@),
        r matches Err(e) ==> frame_result(buf@, received) == Err::<Seq<char>, (RPCErrorKind, Seq<char>)>((e.kind, e.msg@)),
{
    let n = match received {
        None => {
            return Err(RPCError { kind: RPCErrorKind::Disconnect, msg: "connection is Disconnect" });
        },
        Some(n) => n,
    };
    if n == 0 {
        return Err(RPCError { kind: RPCErrorKind::ReadZero, msg: "filad: Read socket fd is zero" });
    }
    if utf8_text(buf).is_none() {
        return Err(
            RPCError { kind: RPCErrorKind::ReadZero, msg: "faild: socket buffer is not parse" },
        );
    }
    proof {
        vstd::utf8::valid_utf8_split(buf@, n as int);
        assert(buf@.subrange(0, n as int) =~= buf@.take(n as int));
    }
    let head = vstd::slice::slice_subrange(buf, 0, n);
    let text = match utf8_text(head) {
        Some(t) => t,
        None => {
            return Err(
                RPCError { kind: RPCErrorKind::ReadZero, msg: "faild: socket buffer is not parse" },
            );
        },
    };
    if !json_document_ok(text.as_str()) {
        return Err(RPCError { kind: RPCErrorKind::Parse, msg: "message parse json" });
    }
    Ok(text)
}

/// How a frame read is judged, for every buffer and outcome: a failed read
/// is a disconnection; an empty read is a closed peer; a buffer that is not
/// UTF-8 cannot be read; a received text that is not a JSON document is a
/// parse error, whatever it starts with; and a JSON document is given back
/// as the received text.
pub proof fn law_frame_judgement(buf: Seq<u8>, n: usize)
    ensures
        frame_result(buf, None) == Err::<Seq<char>, (RPCErrorKind, Seq<char>)>(
            (RPCErrorKind::Disconnect, "connection is Disconnect"@),
        ),
        n == 0 ==> frame_result(buf, Some(n)) == Err::<Seq<char>, (RPCErrorKind, Seq<char>)>(
            (RPCErrorKind::ReadZero, "filad: Read socket fd is zero"@),
        ),
        n > 0 && !valid_utf8(buf) ==> frame_result(buf, Some(n)) == Err::<
            Seq<char>,
            (RPCErrorKind, Seq<char>),
        >((RPCErrorKind::ReadZero, "faild: socket buffer is not parse"@)),
        n > 0 && valid_utf8(buf) && !is_json_document(decode_utf8(buf.take(n as int)))
            ==> frame_result(buf, Some(n)) == Err::<Seq<char>, (RPCErrorKind, Seq<char>)>(
            (RPCErrorKind::Parse, "message parse json"@),
        ),
        n > 0 && valid_utf8(buf) && is_json_document(decode_utf8(buf.take(n as int)))
            ==> frame_result(buf, Some(n)) == Ok::<Seq<char>, (RPCErrorKind, Seq<char>)>(
            decode_utf8(buf.take(n as int)),
        ),
{
}

} // verus!
