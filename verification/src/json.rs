//! Reading the transliteration service's answer as JSON.
//!
//! `rustc_serialize` parses the text. What the rest of the crate reads of a
//! document, its arrays and its strings, is held in [`JsonValue`].

use crate::error::SearchError;
use rustc_serialize::json::{Json, ParserError};
use vstd::prelude::*;

verus! {

/// The message of an answer that is JSON of an unexpected shape.
pub const JSON_ERROR_MSG: &'static str = "Cannot find expected json structure";

/// Whether an error says that an answer is JSON of an unexpected shape.
pub open spec fn unexpected_shape(error: SearchError) -> bool {
    error matches SearchError::Msg(message) && message@ == JSON_ERROR_MSG@
}

/// How deep arrays and objects may nest in an answer that is parsed.
pub const MAX_NESTING: usize = 128;

/// How many bytes an answer that is parsed may have.
pub const MAX_LENGTH: usize = 0xffff_ffff;

/// How many bytes an answer that holds an object may have to be parsed.
pub const MAX_LENGTH_WITH_OBJECTS: usize = 65_535;

/// How many digits the exponent of a number may have in an answer that is
/// parsed.
pub const MAX_EXPONENT_DIGITS: usize = 9;

/// A JSON value as `rustc_serialize` builds it.
#[verifier::external_type_specification]
#[verifier::external_body]
pub struct ExJson(rustc_serialize::json::Json);

/// The arrays and strings of a JSON document.
#[derive(Debug, PartialEq)]
pub enum JsonValue {
    /// An array and its items, in order.
    Array(Vec<JsonValue>),
    /// A string.
    Text(String),
    /// A number, a boolean, an object or null.
    Other,
}

/// A [`JsonValue`] as a plain value.
pub enum JsonTree {
    Array(Seq<JsonTree>),
    Text(Seq<char>),
    Other,
}

impl View for JsonValue {
    type V = JsonTree;

    open spec fn view(&self) -> JsonTree
        decreases self,
    {
        match self {
            JsonValue::Array(items) => JsonTree::Array(
                Seq::new(
                    items@.len(),
                    |i: int|
                        if 0 <= i < items@.len() {
                            items@[i]@
                        } else {
                            JsonTree::Other
                        },
                ),
            ),
            JsonValue::Text(text) => JsonTree::Text(text@),
            JsonValue::Other => JsonTree::Other,
        }
    }
}

/// An array as a plain value holds its items as plain values, in order.
pub proof fn lemma_array_view(items: Vec<JsonValue>)
    ensures
        JsonValue::Array(items)@ == JsonTree::Array(items@.map_values(|item: JsonValue| item@)),
{
    assert(JsonValue::Array(items)@->Array_0 =~= items@.map_values(|item: JsonValue| item@));
}

/// Where a scan over the bytes of a document stands.
pub struct Scan {
    /// Inside a string.
    pub in_text: bool,
    /// Inside a string, right after a backslash.
    pub escaped: bool,
    /// The arrays and objects that are open.
    pub depth: int,
    /// The largest `depth` so far.
    pub deepest: int,
    /// An object has been opened.
    pub has_object: bool,
    /// Right after an `e` or `E` outside of strings, where a sign may follow.
    pub sign_allowed: bool,
    /// After an `e` or `E` outside of strings, with nothing but a sign and
    /// digits since.
    pub in_exponent: bool,
    /// The digits since that `e` or `E`.
    pub digits: int,
    /// The largest `digits` so far.
    pub most_digits: int,
    /// After a comma outside of strings, with nothing but white space since.
    pub after_comma: bool,
    /// A closing brace has followed a comma with nothing but white space
    /// between them.
    pub comma_before_brace: bool,
}

/// The scan before the first byte.
pub open spec fn scan_start() -> Scan {
    Scan {
        in_text: false,
        escaped: false,
        depth: 0,
        deepest: 0,
        has_object: false,
        sign_allowed: false,
        in_exponent: false,
        digits: 0,
        most_digits: 0,
        after_comma: false,
        comma_before_brace: false,
    }
}

/// Whether a byte is white space between the signs of JSON: a space, a
/// tab, a line feed or a carriage return.
pub open spec fn white_space(byte: u8) -> bool {
    byte == 0x20 || byte == 0x09 || byte == 0x0a || byte == 0x0d
}

/// What a byte outside of strings does to the nesting: a bracket or brace
/// opens an array or object, a closing one closes it, and a closing one
/// without an opening one is passed over.
pub open spec fn scan_nesting(scan: Scan, byte: u8) -> Scan {
    if byte == 0x5b || byte == 0x7b {
        Scan {
            depth: scan.depth + 1,
            deepest: if scan.deepest <= scan.depth {
                scan.depth + 1
            } else {
                scan.deepest
            },
            has_object: scan.has_object || byte == 0x7b,
            ..scan
        }
    } else if (byte == 0x5d || byte == 0x7d) && scan.depth > 0 {
        Scan { depth: scan.depth - 1, ..scan }
    } else {
        scan
    }
}

/// What a byte outside of strings does to the count of exponent digits.
/// Every `e` or `E` is taken to begin an exponent: one sign may follow it,
/// and the digits behind that are counted.
pub open spec fn scan_exponent(scan: Scan, byte: u8) -> Scan {
    if byte == 0x45 || byte == 0x65 {
        Scan { sign_allowed: true, in_exponent: true, digits: 0, ..scan }
    } else if (byte == 0x2b || byte == 0x2d) && scan.sign_allowed {
        Scan { sign_allowed: false, ..scan }
    } else if 0x30 <= byte <= 0x39 && scan.in_exponent {
        Scan {
            sign_allowed: false,
            digits: scan.digits + 1,
            most_digits: if scan.most_digits <= scan.digits {
                scan.digits + 1
            } else {
                scan.most_digits
            },
            ..scan
        }
    } else {
        Scan { sign_allowed: false, in_exponent: false, digits: 0, ..scan }
    }
}

/// What a byte outside of strings does to the watch for a comma in front
/// of a closing brace.
pub open spec fn scan_comma(scan: Scan, byte: u8) -> Scan {
    if byte == 0x2c {
        Scan { after_comma: true, ..scan }
    } else if white_space(byte) {
        scan
    } else if byte == 0x7d && scan.after_comma {
        Scan { after_comma: false, comma_before_brace: true, ..scan }
    } else {
        Scan { after_comma: false, ..scan }
    }
}

/// The scan after one more byte.
///
/// Inside a string only its end is looked for: a quotation mark that no
/// backslash stands in front of. Outside of strings a quotation mark begins
/// one, and every byte counts for the nesting, the exponents and the
/// commas.
pub open spec fn scan_byte(scan: Scan, byte: u8) -> Scan {
    if scan.in_text {
        if scan.escaped {
            Scan { escaped: false, ..scan }
        } else if byte == 0x5c {
            Scan { escaped: true, ..scan }
        } else if byte == 0x22 {
            Scan { in_text: false, ..scan }
        } else {
            scan
        }
    } else {
        let outside = scan_comma(scan_exponent(scan_nesting(scan, byte), byte), byte);
        Scan { in_text: byte == 0x22, ..outside }
    }
}

/// The scan after all of `bytes`.
pub open spec fn scan_bytes(bytes: Seq<u8>) -> Scan
    decreases bytes.len(),
{
    if bytes.len() == 0 {
        scan_start()
    } else {
        scan_byte(scan_bytes(bytes.drop_last()), bytes.last())
    }
}

/// The deepest nesting of arrays and objects in a document given as UTF-8.
pub open spec fn nesting_depth(bytes: Seq<u8>) -> int {
    scan_bytes(bytes).deepest
}

/// The most digits that any exponent has in a document given as UTF-8.
pub open spec fn exponent_digits(bytes: Seq<u8>) -> int {
    scan_bytes(bytes).most_digits
}

/// Whether a document given as UTF-8 opens an object.
pub open spec fn holds_object(bytes: Seq<u8>) -> bool {
    scan_bytes(bytes).has_object
}

/// Whether in a document given as UTF-8 a comma stands in front of a
/// closing brace, with nothing but white space between them.
pub open spec fn comma_before_brace(bytes: Seq<u8>) -> bool {
    scan_bytes(bytes).comma_before_brace
}

/// Whether a document given as UTF-8 is within what the parser takes:
/// - at most [`MAX_LENGTH`] bytes, and at most [`MAX_LENGTH_WITH_OBJECTS`]
///   if it opens an object;
/// - nested at most [`MAX_NESTING`] deep;
/// - with at most [`MAX_EXPONENT_DIGITS`] digits in any exponent;
/// - without a comma in front of a closing brace.
pub open spec fn parser_safe(bytes: Seq<u8>) -> bool {
    &&& bytes.len() <= MAX_LENGTH
    &&& holds_object(bytes) ==> bytes.len() <= MAX_LENGTH_WITH_OBJECTS
    &&& nesting_depth(bytes) <= MAX_NESTING
    &&& exponent_digits(bytes) <= MAX_EXPONENT_DIGITS
    &&& !comma_before_brace(bytes)
}

/// What a scan has found in a document.
struct Found {
    deepest: usize,
    most_digits: usize,
    has_object: bool,
    comma_before_brace: bool,
}

/// Scans a document for what the parser's limits are about.
fn scan(bytes: &[u8]) -> (found: Found)
    ensures
        found.deepest == nesting_depth(bytes@),
        found.most_digits == exponent_digits(bytes@),
        found.has_object == holds_object(bytes@),
        found.comma_before_brace == comma_before_brace(bytes@),
{
    let mut in_text = false;
    let mut escaped = false;
    let mut depth: usize = 0;
    let mut deepest: usize = 0;
    let mut has_object = false;
    let mut sign_allowed = false;
    let mut in_exponent = false;
    let mut digits: usize = 0;
    let mut most_digits: usize = 0;
    let mut after_comma = false;
    let mut comma_before_brace = false;
    let mut i: usize = 0;
    while i < bytes.len()
        invariant
            i <= bytes.len(),
            0 <= depth <= deepest <= i,
            0 <= digits <= most_digits <= i,
            scan_bytes(bytes@.take(i as int)) == (Scan {
                in_text,
                escaped,
                depth: depth as int,
                deepest: deepest as int,
                has_object,
                sign_allowed,
                in_exponent,
                digits: digits as int,
                most_digits: most_digits as int,
                after_comma,
                comma_before_brace,
            }),
        decreases bytes.len() - i,
    {
        let byte = bytes[i];
        proof {
            let next = bytes@.take(i + 1);
            assert(next.drop_last() == bytes@.take(i as int));
            assert(next.last() == byte);
        }
        if in_text {
            if escaped {
                escaped = false;
            } else if byte == 0x5c {
                escaped = true;
            } else if byte == 0x22 {
                in_text = false;
            }
        } else {
            if byte == 0x5b || byte == 0x7b {
                depth = depth + 1;
                if deepest < depth {
                    deepest = depth;
                }
                if byte == 0x7b {
                    has_object = true;
                }
            } else if (byte == 0x5d || byte == 0x7d) && depth > 0 {
                depth = depth - 1;
            }
            if byte == 0x45 || byte == 0x65 {
                sign_allowed = true;
                in_exponent = true;
                digits = 0;
            } else if (byte == 0x2b || byte == 0x2d) && sign_allowed {
                sign_allowed = false;
            } else if 0x30 <= byte && byte <= 0x39 && in_exponent {
                sign_allowed = false;
                digits = digits + 1;
                if most_digits < digits {
                    most_digits = digits;
                }
            } else {
                sign_allowed = false;
                in_exponent = false;
                digits = 0;
            }
            if byte == 0x2c {
                after_comma = true;
            } else if byte == 0x20 || byte == 0x09 || byte == 0x0a || byte == 0x0d {
            } else {
                if byte == 0x7d && after_comma {
                    comma_before_brace = true;
                }
                after_comma = false;
            }
            if byte == 0x22 {
                in_text = true;
            }
        }
        i = i + 1;
    }
    assert(bytes@.take(i as int) == bytes@);
    Found { deepest, most_digits, has_object, comma_before_brace }
}

/// Whether arrays and objects nest at most `limit` deep in `text`.
pub fn nesting_within(text: &str, limit: usize) -> (within: bool)
    ensures
        within == (nesting_depth(vstd::utf8::encode_utf8(text@)) <= limit),
{
    let found = scan(text.as_bytes());
    found.deepest <= limit
}

/// Whether `text` is within what the parser takes.
pub fn within_parser_limits(text: &str) -> (within: bool)
    ensures
        within == parser_safe(vstd::utf8::encode_utf8(text@)),
{
    let bytes = text.as_bytes();
    if bytes.len() > MAX_LENGTH {
        return false;
    }
    let found = scan(bytes);
    if found.has_object && bytes.len() > MAX_LENGTH_WITH_OBJECTS {
        return false;
    }
    found.deepest <= MAX_NESTING && found.most_digits <= MAX_EXPONENT_DIGITS
        && !found.comma_before_brace
}

/// The value that `rustc_serialize` parses a text to, `None` for text that
/// is not one JSON document.
pub uninterp spec fn json_document(text: Seq<char>) -> Option<JsonTree>;

/// The arrays and strings that a parsed value holds.
pub uninterp spec fn json_tree(json: Json) -> JsonTree;

/// Parses a text with `rustc_serialize`'s `Json::from_str`.
///
/// The caller keeps the text within what the parser takes:
/// - It calls itself once for each array or object that is open, so the
///   nesting is bounded.
/// - It keeps the place and the length of the keys of the open objects in
///   sixteen bits each, which a text of at most
///   [`MAX_LENGTH_WITH_OBJECTS`] bytes cannot exceed; a text without an
///   object has no keys.
/// - It counts the items of an array in thirty-two bits, which a text of
///   at most [`MAX_LENGTH`] bytes cannot exceed.
/// - It adds up an exponent in a machine word without a test, which
///   [`MAX_EXPONENT_DIGITS`] digits cannot overflow.
/// - At a closing brace behind a comma it forgets the array or object
///   around the one that ends, and gives up at the next item there, so no
///   such brace is let through.
///
/// Not proved: that the call then returns, and that the value it builds
/// depends on the text alone.
#[verifier::external_body]
fn parse_json(text: &str) -> (parsed: Result<Json, ParserError>)
    requires
        parser_safe(vstd::utf8::encode_utf8(text@)),
    ensures
        parsed matches Ok(json) ==> json_document(text@) == Some(json_tree(json)),
        parsed is Err ==> json_document(text@) is None,
{
    Json::from_str(text)
}

/// Copies the arrays and strings out of a value of `rustc_serialize`, which
/// are `Json::Array` and `Json::String`; every other variant becomes
/// [`JsonValue::Other`].
#[verifier::external_body]
fn json_value(json: &Json) -> (value: JsonValue)
    ensures
        value@ == json_tree(*json),
{
    match json {
        Json::Array(items) => JsonValue::Array(items.iter().map(json_value).collect()),
        Json::String(text) => JsonValue::Text(text.clone()),
        _ => JsonValue::Other,
    }
}

/// The document that a text holds: what it parses to, if it is within what
/// the parser takes.
pub open spec fn document(text: Seq<char>) -> Option<JsonTree> {
    if parser_safe(vstd::utf8::encode_utf8(text)) {
        json_document(text)
    } else {
        None
    }
}

/// Parses the service's answer.
///
/// Text beyond what the parser takes is refused as of unexpected shape,
/// text that is not JSON with the parser's error.
pub fn parse_document(text: &str) -> (parsed: Result<JsonValue, SearchError>)
    ensures
        parsed matches Ok(value) ==> document(text@) == Some(value@),
        parsed matches Err(error) ==> document(text@) is None && if parser_safe(
            vstd::utf8::encode_utf8(text@),
        ) {
            error is Json
        } else {
            unexpected_shape(error)
        },
{
    if !within_parser_limits(text) {
        return Err(SearchError::Msg(JSON_ERROR_MSG));
    }
    match parse_json(text) {
        Ok(json) => Ok(json_value(&json)),
        Err(error) => Err(SearchError::Json(error)),
    }
}

} // verus!
