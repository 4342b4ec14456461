//! The EUC-JP text codec of the wire protocol.
//!
//! Readings arrive and candidates leave in EUC-JP; everything else in the
//! crate works on bytes or on text, never on both.

use encoding::all::EUC_JP;
use encoding::{DecoderTrap, EncoderTrap, Encoding};
use vstd::prelude::*;

verus! {

/// The text that EUC-JP bytes decode to when undecodable bytes are skipped.
pub uninterp spec fn euc_jp_decoded(bytes: Seq<u8>) -> Seq<char>;

/// The EUC-JP bytes of a text when characters outside EUC-JP are skipped.
pub uninterp spec fn euc_jp_encoded(text: Seq<char>) -> Seq<u8>;

/// Decodes EUC-JP bytes with `encoding`'s `EUC_JP.decode` and the `Ignore`
/// trap.
///
/// Not proved: that the call returns for every byte sequence, that with this
/// trap it never reports an error, and that its result depends on the bytes
/// alone.
#[verifier::external_body]
pub(crate) fn decode(bytes: &[u8]) -> (text: String)
    ensures
        text@ == euc_jp_decoded(bytes@),
{
    EUC_JP.decode(bytes, DecoderTrap::Ignore).unwrap()
}

/// Encodes a text as EUC-JP with `encoding`'s `EUC_JP.encode` and the
/// `Ignore` trap.
///
/// Not proved: that the call returns for every text, that with this trap it
/// never reports an error, and that its result depends on the text alone.
#[verifier::external_body]
pub(crate) fn encode(text: &str) -> (bytes: Vec<u8>)
    ensures
        bytes@ == euc_jp_encoded(text@),
{
    EUC_JP.encode(text, EncoderTrap::Ignore).unwrap()
}

} // verus!
