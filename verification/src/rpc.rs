//! What the task server makes of each frame a client sends.

use vstd::prelude::*;
use vstd::utf8::{decode_utf8, is_char_boundary, valid_utf8};

use crate::code::MessageCode;
use crate::json::{is_json_document, json_document_ok};
use crate::processing::{not_json_reply, not_json_text};
use crate::structs::message_json;
use crate::text::utf8_text;

verus! {

/// Why a connection ends.
#[derive(Debug, Clone, Copy, PartialEq, Eq, Structural)]
pub enum RPCErrorKind {
    Disconnect,
}

/// The end of a connection, with a message for the log.
#[derive(Debug)]
pub struct RPCError {
    pub kind: RPCErrorKind,
    pub msg: String,
}

/// What to do with one frame.
#[derive(Debug)]
pub enum Inbound {
    /// A JSON request, to be handed to the task dispatcher.
    Task(String),
    /// A frame that is not UTF-8: it is dropped.
    Skip,
    /// A frame that is not JSON: this reply goes back to the client.
    Reply(String),
    /// The connection is over.
    Quit(RPCError),
}

/// Sorts one frame read from a client: `received` is `None` when the read
/// failed, else the number of bytes that arrived in `buf`.
pub fn classify_frame(buf: &[u8], received: Option<usize>) -> (r: Inbound)
    requires
        received matches Some(n) ==> n <= buf@.len() && (valid_utf8(buf@) ==> is_char_boundary(
            buf@,
            n as int,
        )),
    ensures
        received is None ==> (r matches Inbound::Quit(e) && e.kind == RPCErrorKind::Disconnect
            && e.msg@ == "failed to read from socket"@),
        received == Some(0usize) ==> (r matches Inbound::Quit(e) && e.kind
            == RPCErrorKind::Disconnect && e.msg@ == "client quit"@),
        received matches Some(n) ==> (n > 0 && !valid_utf8(buf@) ==> r is Skip),
        received matches Some(n) ==> (n > 0 && valid_utf8(buf@) && !is_json_document(
            decode_utf8(buf@.take(n as int)),
        ) ==> (r matches Inbound::Reply(t) && t@ == message_json(
            not_json_text(n as nat),
            MessageCode::InvalidCode,
        ))),
        received matches Some(n) ==> (n > 0 && valid_utf8(buf@) && is_json_document(
            decode_utf8(buf@.take(n as int)),
        ) ==> (r matches Inbound::Task(t) && t@ == decode_utf8(buf@.take(n as int)))),
{
    let n = match received {
        None => {
            return Inbound::Quit(
                RPCError {
                    kind: RPCErrorKind::Disconnect,
                    msg: "failed to read from socket".to_owned(),
                },
            );
        },
        Some(n) => n,
    };
    if n == 0 {
        return Inbound::Quit(
            RPCError { kind: RPCErrorKind::Disconnect, msg: "client quit".to_owned() },
        );
    }
    if utf8_text(buf).is_none() {
        return Inbound::Skip;
    }
    proof {
        vstd::utf8::valid_utf8_split(buf@, n as int);
        assert(buf@.subrange(0, n as int) =~= buf@.take(n as int));
    }
    let head = vstd::slice::slice_subrange(buf, 0, n);
    let text = match utf8_text(head) {
        Some(t) => t,
        None => {
            return Inbound::Skip;
        },
    };
    if !json_document_ok(text.as_str()) {
        return Inbound::Reply(not_json_reply(n));
    }
    Inbound::Task(text)
}

} // verus!
