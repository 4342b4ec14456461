//! Request codes of the skkserv protocol.

use vstd::prelude::*;

verus! {

/// The kind of a request, taken from the first byte of a message.
#[derive(Clone, Copy, Debug, PartialEq, Eq, Structural)]
pub enum RequestCode {
    /// `'0'`: the client announces that it is leaving.
    Disconnect,
    /// `'1'`: convert the reading that follows.
    Convert,
    /// `'2'`: report the server's version.
    Version,
    /// `'3'`: report the address the server is bound to.
    Name,
    /// `'4'`: complete the reading that follows.
    Completion,
    /// Any other byte, kept as received.
    Invalid(u8),
}

/// The code that a first byte stands for.
pub open spec fn code_of(byte: u8) -> RequestCode {
    if byte == 0x30 {
        RequestCode::Disconnect
    } else if byte == 0x31 {
        RequestCode::Convert
    } else if byte == 0x32 {
        RequestCode::Version
    } else if byte == 0x33 {
        RequestCode::Name
    } else if byte == 0x34 {
        RequestCode::Completion
    } else {
        RequestCode::Invalid(byte)
    }
}

impl RequestCode {
    /// The first byte that yields this code.
    pub open spec fn byte(self) -> u8 {
        match self {
            RequestCode::Disconnect => 0x30,
            RequestCode::Convert => 0x31,
            RequestCode::Version => 0x32,
            RequestCode::Name => 0x33,
            RequestCode::Completion => 0x34,
            RequestCode::Invalid(byte) => byte,
        }
    }

    /// Whether a reading follows a code of this kind.
    pub open spec fn carries_reading(self) -> bool {
        self == RequestCode::Convert || self == RequestCode::Completion
    }
}

impl From<u8> for RequestCode {
    fn from(code: u8) -> (request: RequestCode)
        ensures
            request == code_of(code),
    {
        match code {
            0x30 => RequestCode::Disconnect,
            0x31 => RequestCode::Convert,
            0x32 => RequestCode::Version,
            0x33 => RequestCode::Name,
            0x34 => RequestCode::Completion,
            code => RequestCode::Invalid(code),
        }
    }
}

impl vstd::std_specs::convert::FromSpecImpl<u8> for RequestCode {
    open spec fn obeys_from_spec() -> bool {
        true
    }

    open spec fn from_spec(code: u8) -> RequestCode {
        code_of(code)
    }
}

/// Every byte stands for exactly one code: one of the five named kinds for
/// `'0'` to `'4'`, and `Invalid` with the byte itself for any other; the code
/// determines the byte it came from.
pub proof fn lemma_code_of_total(byte: u8)
    ensures
        code_of(byte).byte() == byte,
        code_of(byte) is Invalid <==> !(0x30 <= byte <= 0x34),
        code_of(byte) matches RequestCode::Invalid(other) ==> other == byte,
        0x30 <= byte <= 0x34 ==> (code_of(byte) == RequestCode::Disconnect || code_of(byte)
            == RequestCode::Convert || code_of(byte) == RequestCode::Version || code_of(byte)
            == RequestCode::Name || code_of(byte) == RequestCode::Completion),
{
}

} // verus!
