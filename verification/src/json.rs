//! JSON text for plain strings, written by serde_json.
use vstd::prelude::*;

verus! {

/// The lowercase hexadecimal digit for `n`, which is below 16.
pub open spec fn hex_digit(n: u32) -> u8 {
    if n < 10 {
        (0x30 + n) as u8
    } else {
        (0x61 + n - 10) as u8
    }
}

/// How serde_json writes `c` inside a JSON string: `"` and `\` get a
/// backslash, the five control characters with a short escape get it, the
/// other controls below U+0020 become `\u00XX` with lowercase hex, and every
/// other character is its own UTF-8 encoding.
pub open spec fn escaped_char(c: char) -> Seq<u8> {
    if c == '"' {
        seq![0x5cu8, 0x22u8]
    } else if c == '\\' {
        seq![0x5cu8, 0x5cu8]
    } else if c == '\x08' {
        seq![0x5cu8, 0x62u8]
    } else if c == '\t' {
        seq![0x5cu8, 0x74u8]
    } else if c == '\n' {
        seq![0x5cu8, 0x6eu8]
    } else if c == '\x0c' {
        seq![0x5cu8, 0x66u8]
    } else if c == '\r' {
        seq![0x5cu8, 0x72u8]
    } else if (c as u32) < 0x20 {
        seq![
            0x5cu8,
            0x75u8,
            0x30u8,
            0x30u8,
            hex_digit((c as u32) / 16),
            hex_digit((c as u32) % 16),
        ]
    } else {
        vstd::utf8::encode_scalar(c as u32)
    }
}

/// The escaped characters of `text`, one after another.
pub open spec fn escaped(text: Seq<char>) -> Seq<u8>
    decreases text.len(),
{
    if text.len() == 0 {
        seq![]
    } else {
        escaped_char(text[0]) + escaped(text.drop_first())
    }
}

/// The bytes serde_json writes for `text` as a JSON string: a quote, the
/// escaped text, a quote.
pub open spec fn json_string(text: Seq<char>) -> Seq<u8> {
    seq![0x22u8] + escaped(text) + seq![0x22u8]
}

/// Calls `serde_json::to_vec` on a `str`. serde_json writes the string with
/// its compact formatter: a quote, each run of bytes that need no escape
/// copied as they are, each byte its escape table marks written as its
/// escape, and a closing quote. Only ASCII bytes are ever escaped, so this is
/// [`json_string`] of the text. The result is always `Some`: the writer is a
/// `Vec`, whose writes never fail.
#[verifier::external_body]
pub fn encode_json_string(text: &str) -> (out: Option<Vec<u8>>)
    ensures
        match out {
            Some(bytes) => bytes@ == json_string(text@),
            None => false,
        },
{
    serde_json::to_vec(text).ok()
}

} // verus!
