//! A lookup at the transliteration service: the address to request, and the
//! answer turned into the line for the client.

use crate::candidates::{candidate_texts, candidates, format_candidates, line};
use crate::codec::{encode, euc_jp_decoded, euc_jp_encoded};
use crate::error::SearchError;
use crate::json::{document, parse_document, parser_safe, unexpected_shape};
use vstd::prelude::*;
use vstd::string::StringExecFns;

verus! {

/// The address of the service, up to the reading.
pub const GOOGLE_IME_URL: &'static str =
    "http://www.google.com/transliterate?langpair=ja-Hira%7Cja&text=";

/// Whether a byte stands for itself in a query: an ASCII letter or digit,
/// `-`, `.`, `_` or `~`.
pub open spec fn unreserved(byte: u8) -> bool {
    ||| 0x30 <= byte <= 0x39
    ||| 0x41 <= byte <= 0x5a
    ||| 0x61 <= byte <= 0x7a
    ||| byte == 0x2d
    ||| byte == 0x2e
    ||| byte == 0x5f
    ||| byte == 0x7e
}

/// The upper-case hexadecimal digit of a value below sixteen.
pub open spec fn hex_digit(value: u8) -> char {
    if value < 10 {
        (0x30 + value) as u8 as char
    } else {
        (0x37 + value) as u8 as char
    }
}

/// A byte as it stands in a query: itself, or `%` and its two hexadecimal
/// digits.
pub open spec fn escaped_byte(byte: u8) -> Seq<char> {
    if unreserved(byte) {
        seq![byte as char]
    } else {
        seq!['%', hex_digit(byte / 16), hex_digit(byte % 16)]
    }
}

/// Bytes as they stand in a query.
pub open spec fn escaped(bytes: Seq<u8>) -> Seq<char>
    decreases bytes.len(),
{
    if bytes.len() == 0 {
        Seq::empty()
    } else {
        escaped(bytes.drop_last()) + escaped_byte(bytes.last())
    }
}

/// The address that asks the service for the candidates of a reading: the
/// reading follows the fixed part as escaped UTF-8.
pub open spec fn url_of(kana: Seq<char>) -> Seq<char> {
    GOOGLE_IME_URL@ + escaped(vstd::utf8::encode_utf8(kana))
}

/// Appends a character with std's `String::push`, which adds it at the end
/// and leaves the rest of the string as it was.
#[verifier::external_body]
fn push_char(text: &mut String, c: char)
    ensures
        final(text)@ == old(text)@.push(c),
{
    text.push(c)
}

/// Whether a byte stands for itself in a query.
fn is_unreserved(byte: u8) -> (plain: bool)
    ensures
        plain == unreserved(byte),
{
    (0x30 <= byte && byte <= 0x39) || (0x41 <= byte && byte <= 0x5a) || (0x61 <= byte && byte
        <= 0x7a) || byte == 0x2d || byte == 0x2e || byte == 0x5f || byte == 0x7e
}

/// The hexadecimal digit of a value below sixteen.
fn hex_char(value: u8) -> (digit: char)
    requires
        value < 16,
    ensures
        digit == hex_digit(value),
{
    if value < 10 {
        (0x30 + value) as char
    } else {
        (0x37 + value) as char
    }
}

/// The address to request for a reading.
pub fn search_url(kana: &str) -> (url: String)
    ensures
        url@ == url_of(kana@),
{
    let bytes = kana.as_bytes();
    let mut url = String::from_str(GOOGLE_IME_URL);
    let mut i: usize = 0;
    proof {
        assert(url@ =~= GOOGLE_IME_URL@ + escaped(bytes@.take(0)));
    }
    while i < bytes.len()
        invariant
            i <= bytes@.len(),
            url@ == GOOGLE_IME_URL@ + escaped(bytes@.take(i as int)),
        decreases bytes@.len() - i,
    {
        let byte = bytes[i];
        proof {
            assert(bytes@.take(i + 1).drop_last() =~= bytes@.take(i as int));
            assert(bytes@.take(i + 1).last() == byte);
        }
        if is_unreserved(byte) {
            push_char(&mut url, byte as char);
        } else {
            push_char(&mut url, '%');
            push_char(&mut url, hex_char(byte / 16));
            push_char(&mut url, hex_char(byte % 16));
        }
        proof {
            assert(url@ =~= GOOGLE_IME_URL@ + escaped(bytes@.take(i + 1)));
        }
        i = i + 1;
    }
    proof {
        assert(bytes@.take(i as int) =~= bytes@);
    }
    url
}

/// The line that the service's answer gives for the client, in EUC-JP.
/// `None` where the answer is not JSON of the expected shape.
pub open spec fn reply_of(body: Seq<char>, delimiter: Seq<char>) -> Option<Seq<u8>> {
    match document(body) {
        Some(value) => match candidate_texts(value) {
            Some(list) => Some(euc_jp_encoded(line(list, delimiter))),
            None => None,
        },
        None => None,
    }
}

/// Whether the service's answer is refused as text that is not JSON,
/// rather than as JSON of an unexpected shape.
pub open spec fn not_json(body: Seq<char>) -> bool {
    document(body) is None && parser_safe(vstd::utf8::encode_utf8(body))
}

/// Turns the service's answer into the line for the client.
///
/// The candidates of the answer are written with `delimiter` between them
/// and encoded as EUC-JP.
pub fn search(body: &str, delimiter: &str) -> (found: Result<Vec<u8>, SearchError>)
    ensures
        match found {
            Ok(bytes) => reply_of(body@, delimiter@) == Some(bytes@),
            Err(error) => reply_of(body@, delimiter@) is None && if not_json(body@) {
                error is Json
            } else {
                unexpected_shape(error)
            },
        },
{
    let value = match parse_document(body) {
        Ok(value) => value,
        Err(error) => {
            return Err(error);
        },
    };
    let list = match candidates(&value) {
        Ok(list) => list,
        Err(error) => {
            return Err(error);
        },
    };
    let text = format_candidates(&list, delimiter);
    Ok(encode(text.as_str()))
}

/// The line that `search` gives holds `1`, each candidate of the answer
/// behind the delimiter, in the order of the answer, one more delimiter and
/// a line feed; and where the codec gives that text back unchanged, the
/// line decodes to it.
pub proof fn lemma_reply_decodes_to_the_line(
    body: Seq<char>,
    delimiter: Seq<char>,
    list: Seq<Seq<char>>,
)
    requires
        document(body) is Some,
        candidate_texts(document(body)->0) == Some(list),
        euc_jp_decoded(euc_jp_encoded(line(list, delimiter))) == line(list, delimiter),
    ensures
        reply_of(body, delimiter) == Some(euc_jp_encoded(line(list, delimiter))),
        euc_jp_decoded(reply_of(body, delimiter)->0) == line(list, delimiter),
{
}

} // verus!
