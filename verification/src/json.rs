//! The JSON text that serde_json writes and reads for plain strings.

use vstd::prelude::*;

verus! {

/// The double quote that opens and closes a JSON string.
pub open spec fn quote_mark() -> char {
    '\x22'
}

/// Whether `text` is a double-quoted string whose body needs no escape.
pub open spec fn is_quoted_plain(text: Seq<char>) -> bool {
    &&& text.len() >= 2
    &&& text[0] == quote_mark()
    &&& text.last() == quote_mark()
    &&& is_plain(quoted_body(text))
}

/// The text between the first and the last character of `text`.
pub open spec fn quoted_body(text: Seq<char>) -> Seq<char> {
    text.subrange(1, text.len() - 1)
}

/// A lower-case hexadecimal digit, for `0 <= d < 16`.
pub open spec fn hex_digit(d: int) -> char {
    if d < 10 {
        (d + 48) as char
    } else {
        (d + 87) as char
    }
}

/// How serde_json writes the character `c` inside a JSON string: `"` and `\`
/// are escaped, the five control characters with short escapes get them,
/// other control characters below U+0020 are written `\u00XX`, and every
/// other character is written as it is.
pub open spec fn json_escape_char(c: char) -> Seq<char> {
    let v = c as int;
    if c == quote_mark() {
        seq!['\\', quote_mark()]
    } else if c == '\\' {
        seq!['\\', '\\']
    } else if v == 8 {
        seq!['\\', 'b']
    } else if v == 9 {
        seq!['\\', 't']
    } else if v == 10 {
        seq!['\\', 'n']
    } else if v == 12 {
        seq!['\\', 'f']
    } else if v == 13 {
        seq!['\\', 'r']
    } else if v < 32 {
        seq!['\\', 'u', '0', '0', hex_digit(v / 16), hex_digit(v % 16)]
    } else {
        seq![c]
    }
}

/// The escaped body of a JSON string holding `s`.
pub open spec fn json_escape(s: Seq<char>) -> Seq<char>
    decreases s.len(),
{
    if s.len() == 0 {
        Seq::empty()
    } else {
        json_escape(s.drop_last()) + json_escape_char(s.last())
    }
}

/// The JSON string literal that holds `s`.
pub open spec fn json_quoted(s: Seq<char>) -> Seq<char> {
    seq![quote_mark()] + json_escape(s) + seq![quote_mark()]
}

/// Whether `s` holds no character that a JSON string has to escape.
pub open spec fn is_plain(s: Seq<char>) -> bool {
    forall|i: int| 0 <= i < s.len() ==> #[trigger] s[i] != quote_mark() && s[i] != '\\' && (s[i] as int)
        >= 32
}

/// What `serde_json::from_str::<String>` gives for `text`.
pub uninterp spec fn json_string_decoding(text: Seq<char>) -> Option<Seq<char>>;

/// Whether `serde_json::from_str::<serde_json::Value>` accepts `text`.
pub uninterp spec fn is_json_document(text: Seq<char>) -> bool;

/// Whether serde_json reads the JSON string literal that holds `s` back as `s`.
pub open spec fn reads_back(s: Seq<char>) -> bool {
    json_string_decoding(json_quoted(s)) == Some(s)
}

/// Writes `s` as a JSON string literal with `serde_json::to_string`.
/// Contract: the result is `"` + the escaped text + `"`, escaped as
/// serde_json's `format_escaped_str` does; serialising a `str` cannot fail;
/// and `serde_json::from_str::<String>` reads the result back as `s`, since
/// its `parse_str` undoes each escape that `format_escaped_str` writes.
#[verifier::external_body]
pub(crate) fn json_quote(s: &str) -> (r: String)
    ensures
        r@ == json_quoted(s@),
        json_string_decoding(r@) == Some(s@),
{
    serde_json::to_string(s).unwrap()
}

/// Reads a JSON string literal with `serde_json::from_str::<String>`.
/// Contract: the result is the named decoding of `text`; in particular a
/// double-quoted text whose body needs no escape decodes to that body.
#[verifier::external_body]
pub(crate) fn json_unquote(text: &str) -> (r: Option<String>)
    ensures
        r matches Some(v) ==> json_string_decoding(text@) == Some(v@),
        r is None ==> json_string_decoding(text@) is None,
        is_quoted_plain(text@) ==> r is Some,
        r matches Some(v) ==> (is_quoted_plain(text@) ==> v@ == quoted_body(text@)),
{
    serde_json::from_str::<String>(text).ok()
}

/// Whether `serde_json::from_str::<serde_json::Value>` accepts `text`.
#[verifier::external_body]
pub(crate) fn json_document_ok(text: &str) -> (b: bool)
    ensures
        b == is_json_document(text@),
{
    serde_json::from_str::<serde_json::Value>(text).is_ok()
}

/// A plain text is written between quotes as it is.
pub proof fn lemma_plain_escape(s: Seq<char>)
    requires
        is_plain(s),
    ensures
        json_escape(s) == s,
        json_quoted(s) == seq![quote_mark()] + s + seq![quote_mark()],
    decreases s.len(),
{
    if s.len() > 0 {
        assert(is_plain(s.drop_last()));
        lemma_plain_escape(s.drop_last());
        assert(s[s.len() - 1] != quote_mark());
        assert(s.drop_last().push(s.last()) =~= s);
    }
}

} // verus!
