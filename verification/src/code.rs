//! The codes that name what a message asks for or answers.

use vstd::prelude::*;

use crate::json::{is_plain, json_string_decoding, json_unquote, quote_mark};
use crate::text::{push_char, same_text};

verus! {

/// What a message is about.
#[derive(Clone, Copy, Debug, PartialEq, Eq, Structural)]
pub enum MessageCode {
    ConnectedOk,
    InvalidCode,
    PushProjected,
    CloneProjected,
    ReprMessage,
    ExitServer,
}

/// The name under which a code travels in JSON: the variant's own name.
pub open spec fn code_name(c: MessageCode) -> Seq<char> {
    match c {
        MessageCode::ConnectedOk => "ConnectedOk"@,
        MessageCode::InvalidCode => "InvalidCode"@,
        MessageCode::PushProjected => "PushProjected"@,
        MessageCode::CloneProjected => "CloneProjected"@,
        MessageCode::ReprMessage => "ReprMessage"@,
        MessageCode::ExitServer => "ExitServer"@,
    }
}

/// The code whose name is exactly `t`, if there is one.
pub open spec fn code_named(t: Seq<char>) -> Option<MessageCode> {
    if t == "ConnectedOk"@ {
        Some(MessageCode::ConnectedOk)
    } else if t == "InvalidCode"@ {
        Some(MessageCode::InvalidCode)
    } else if t == "PushProjected"@ {
        Some(MessageCode::PushProjected)
    } else if t == "CloneProjected"@ {
        Some(MessageCode::CloneProjected)
    } else if t == "ReprMessage"@ {
        Some(MessageCode::ReprMessage)
    } else if t == "ExitServer"@ {
        Some(MessageCode::ExitServer)
    } else {
        None
    }
}

/// The code for a decoded code text: the code of that name, or `InvalidCode`
/// when the text did not decode or names no code.
pub open spec fn code_of_decoded(decoded: Option<Seq<char>>) -> MessageCode {
    match decoded {
        Some(t) => match code_named(t) {
            Some(c) => c,
            None => MessageCode::InvalidCode,
        },
        None => MessageCode::InvalidCode,
    }
}

/// The code a request's `code` text selects: the text is put between double
/// quotes and read back as a JSON string, then looked up by name.
pub open spec fn route_of(code: Seq<char>) -> MessageCode {
    code_of_decoded(json_string_decoding(seq![quote_mark()] + code + seq![quote_mark()]))
}

impl MessageCode {
    /// The name of this code.
    pub fn name(&self) -> (r: &'static str)
        ensures
            r@ == code_name(*self),
    {
        match self {
            MessageCode::ConnectedOk => "ConnectedOk",
            MessageCode::InvalidCode => "InvalidCode",
            MessageCode::PushProjected => "PushProjected",
            MessageCode::CloneProjected => "CloneProjected",
            MessageCode::ReprMessage => "ReprMessage",
            MessageCode::ExitServer => "ExitServer",
        }
    }

    /// The code named exactly `t`.
    pub fn from_name(t: &str) -> (r: Option<MessageCode>)
        ensures
            r == code_named(t@),
    {
        if same_text(t, "ConnectedOk") {
            Some(MessageCode::ConnectedOk)
        } else if same_text(t, "InvalidCode") {
            Some(MessageCode::InvalidCode)
        } else if same_text(t, "PushProjected") {
            Some(MessageCode::PushProjected)
        } else if same_text(t, "CloneProjected") {
            Some(MessageCode::CloneProjected)
        } else if same_text(t, "ReprMessage") {
            Some(MessageCode::ReprMessage)
        } else if same_text(t, "ExitServer") {
            Some(MessageCode::ExitServer)
        } else {
            None
        }
    }
}

/// The code for the result of reading a code text as a JSON string.
pub fn code_from_decoded(decoded: Option<String>) -> (r: MessageCode)
    ensures
        r == code_of_decoded(match decoded {
            Some(t) => Some(t@),
            None => None,
        }),
{
    match decoded {
        Some(t) => match MessageCode::from_name(t.as_str()) {
            Some(c) => c,
            None => MessageCode::InvalidCode,
        },
        None => MessageCode::InvalidCode,
    }
}

/// The code that a request's `code` text selects (`InvalidCode` when none).
pub fn route(code: &str) -> (r: MessageCode)
    ensures
        r == route_of(code@),
        is_plain(code@) ==> r == code_of_decoded(Some(code@)),
{
    let mut text = String::new();
    push_char(&mut text, '\x22');
    text.append(code);
    push_char(&mut text, '\x22');
    assert(text@ =~= seq![quote_mark()] + code@ + seq![quote_mark()]);
    assert(text@.subrange(1, text@.len() - 1) =~= code@);
    let decoded = json_unquote(text.as_str());
    code_from_decoded(decoded)
}

/// Every code's name is a plain text that names that code and no other:
/// `code_named(code_name(c)) == Some(c)`.
pub proof fn law_code_name_round_trip(c: MessageCode)
    ensures
        is_plain(code_name(c)),
        code_named(code_name(c)) == Some(c),
        code_of_decoded(Some(code_name(c))) == c,
{
    reveal_strlit("ConnectedOk");
    reveal_strlit("InvalidCode");
    reveal_strlit("PushProjected");
    reveal_strlit("CloneProjected");
    reveal_strlit("ReprMessage");
    reveal_strlit("ExitServer");
    assert("ConnectedOk"@[0] == 'C' && "ConnectedOk"@.len() == 11);
    assert("InvalidCode"@[0] == 'I' && "InvalidCode"@.len() == 11);
    assert("PushProjected"@[0] == 'P' && "PushProjected"@.len() == 13);
    assert("CloneProjected"@[0] == 'C' && "CloneProjected"@.len() == 14);
    assert("ReprMessage"@[0] == 'R' && "ReprMessage"@.len() == 11);
    assert("ExitServer"@[0] == 'E' && "ExitServer"@.len() == 10);
}

/// Two codes with the same name are the same code.
pub proof fn law_code_name_injective(a: MessageCode, b: MessageCode)
    ensures
        code_name(a) == code_name(b) ==> a == b,
{
    law_code_name_round_trip(a);
    law_code_name_round_trip(b);
}

} // verus!
