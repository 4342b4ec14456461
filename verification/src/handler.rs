//! What a connection does with each request.
//!
//! A connection reads a request, answers it from what is at hand or asks the
//! transliteration service, and writes the answer. The reading, the asking
//! and the writing are the caller's; this module decides what is written
//! and what is asked, and keeps the cache.

use crate::cache::Cache;
use crate::codec::{decode, euc_jp_decoded};
use crate::error::SearchError;
use crate::json::unexpected_shape;
use crate::request::{code_of, RequestCode};
use crate::search::{not_json, reply_of, search, search_url, url_of};
use vstd::prelude::*;
use vstd::slice::slice_to_vec;
use vstd::string::StringExecFns;

verus! {

/// What the server answers to a version request.
pub const SERVER_VERSION: &'static str = "Google IME SKK Server in Rust.0.1";

/// The number of bytes that one read takes at most.
pub const BUFFER_SIZE: usize = 512;

/// A lookup that waits for the service's answer.
#[derive(Debug, PartialEq)]
pub struct Pending {
    /// The reading as the client sent it, which is its key in the cache.
    pub key: Vec<u8>,
    /// What separates the candidates in the answer to the client.
    pub delimiter: String,
    /// The address to request from the service.
    pub url: String,
}

/// What follows a request.
#[derive(Debug, PartialEq)]
pub enum Step {
    /// These bytes are written to the client.
    Reply(Vec<u8>),
    /// The service has to be asked first.
    Search(Pending),
}

/// The answer to a lookup that has its answer from the service, or none.
#[derive(Debug)]
pub struct Outcome {
    /// The bytes that are written to the client.
    pub response: Vec<u8>,
    /// Why the client gets the failure byte, if it does.
    pub failure: Option<SearchError>,
}

/// A [`Pending`] as plain values.
pub struct PendingView {
    pub key: Seq<u8>,
    pub delimiter: Seq<char>,
    pub url: Seq<char>,
}

/// A [`Step`] as plain values.
pub enum StepView {
    Reply(Seq<u8>),
    Search(PendingView),
}

impl View for Pending {
    type V = PendingView;

    open spec fn view(&self) -> PendingView {
        PendingView { key: self.key@, delimiter: self.delimiter@, url: self.url@ }
    }
}

impl View for Step {
    type V = StepView;

    open spec fn view(&self) -> StepView {
        match self {
            Step::Reply(bytes) => StepView::Reply(bytes@),
            Step::Search(pending) => StepView::Search(pending@),
        }
    }
}

/// The byte `0`, which answers a request that yields nothing.
pub open spec fn failure() -> Seq<u8> {
    seq![0x30u8]
}

/// The reading of a request of `n` bytes: what stands between the code and
/// the last byte, which ends the line.
pub open spec fn reading(buf: Seq<u8>, n: int) -> Seq<u8> {
    if n >= 2 {
        buf.subrange(1, n - 1)
    } else {
        Seq::empty()
    }
}

/// What follows the lookup of a reading: its cached answer, or a request to
/// the service for the reading decoded from EUC-JP.
pub open spec fn lookup(
    key: Seq<u8>,
    cache: Map<Seq<u8>, Seq<u8>>,
    delimiter: Seq<char>,
) -> StepView {
    if cache.contains_key(key) {
        StepView::Reply(cache[key])
    } else {
        StepView::Search(PendingView { key, delimiter, url: url_of(euc_jp_decoded(key)) })
    }
}

/// What follows a request of `n` bytes.
pub open spec fn response(
    buf: Seq<u8>,
    n: int,
    cache: Map<Seq<u8>, Seq<u8>>,
    host_and_port: Seq<char>,
) -> StepView {
    match code_of(buf[0]) {
        RequestCode::Disconnect => StepView::Reply(failure()),
        RequestCode::Convert => lookup(reading(buf, n), cache, seq!['/']),
        RequestCode::Version => StepView::Reply(vstd::utf8::encode_utf8(SERVER_VERSION@)),
        RequestCode::Name => StepView::Reply(vstd::utf8::encode_utf8(host_and_port)),
        RequestCode::Completion => lookup(reading(buf, n), cache, seq![' ']),
        RequestCode::Invalid(_) => StepView::Reply(failure()),
    }
}

/// The bytes that answer a pending lookup once the service has answered
/// with `body`, or has not answered at all.
pub open spec fn completed_response(pending: PendingView, body: Option<Seq<char>>) -> Seq<u8> {
    match body {
        Some(text) => match reply_of(text, pending.delimiter) {
            Some(bytes) => bytes,
            None => failure(),
        },
        None => failure(),
    }
}

/// The cache after a pending lookup: a line of candidates is kept under the
/// reading, a failure leaves the cache as it was.
pub open spec fn completed_cache(
    cache: Map<Seq<u8>, Seq<u8>>,
    pending: PendingView,
    body: Option<Seq<char>>,
) -> Map<Seq<u8>, Seq<u8>> {
    match body {
        Some(text) => match reply_of(text, pending.delimiter) {
            Some(bytes) => cache.insert(pending.key, bytes),
            None => cache,
        },
        None => cache,
    }
}

/// The text that the service answered with, if the request succeeded.
pub open spec fn body_of(fetched: Result<String, SearchError>) -> Option<Seq<char>> {
    match fetched {
        Ok(body) => Some(body@),
        Err(_) => None,
    }
}

/// The address that the server binds, which is also its answer to a name
/// request: the host, a colon and the port.
pub fn bound_address(host: &str, port: &str) -> (address: String)
    ensures
        address@ == host@ + seq![':'] + port@,
{
    let mut address = String::from_str(host);
    address.append(":");
    address.append(port);
    proof {
        reveal_strlit(":");
        assert(address@ =~= host@ + seq![':'] + port@);
    }
    address
}

/// The failure byte as a response.
fn failure_bytes() -> (bytes: Vec<u8>)
    ensures
        bytes@ == failure(),
{
    let mut bytes: Vec<u8> = Vec::new();
    bytes.push(0x30);
    assert(bytes@ =~= failure());
    bytes
}

/// The reading of the request in the first `n` bytes of `buf`.
fn reading_of(buf: &[u8; 512], n: usize) -> (key: Vec<u8>)
    requires
        n <= BUFFER_SIZE,
    ensures
        key@ == reading(buf@, n as int),
{
    let mut key: Vec<u8> = Vec::new();
    if n < 2 {
        assert(key@ =~= reading(buf@, n as int));
        return key;
    }
    let mut i: usize = 1;
    while i < n - 1
        invariant
            2 <= n <= BUFFER_SIZE,
            1 <= i <= n - 1,
            key@ == buf@.subrange(1, i as int),
        decreases n - i,
    {
        key.push(buf[i]);
        assert(key@ =~= buf@.subrange(1, i + 1));
        i = i + 1;
    }
    key
}

/// Looks a reading up in the cache, and prepares the request to the service
/// where it is not cached.
pub fn load_from_cache_or_search(cache_key: Vec<u8>, cache: &Cache, delimiter: &str) -> (step:
    Step)
    ensures
        step@ == lookup(cache_key@, cache@, delimiter@),
{
    match cache.get(cache_key.as_slice()) {
        Some(bytes) => Step::Reply(slice_to_vec(bytes.as_slice())),
        None => {
            let kana = decode(cache_key.as_slice());
            let url = search_url(kana.as_str());
            Step::Search(Pending { key: cache_key, delimiter: String::from_str(delimiter), url })
        },
    }
}

/// Decides what follows the request in the first `n` bytes of `buf`.
///
/// The first byte is the request's code. A conversion or a completion is
/// answered from the cache, or becomes a request to the service; its
/// reading lies within the buffer. Every other code has a fixed answer,
/// whatever `n` is.
pub fn create_response(buf: &[u8; 512], n: usize, cache: &Cache, host_and_port: &str) -> (step:
    Step)
    requires
        code_of(buf@[0]).carries_reading() ==> n <= BUFFER_SIZE,
    ensures
        step@ == response(buf@, n as int, cache@, host_and_port@),
{
    proof {
        reveal_strlit("/");
        reveal_strlit(" ");
        assert("/"@ =~= seq!['/']);
        assert(" "@ =~= seq![' ']);
    }
    match RequestCode::from(buf[0]) {
        RequestCode::Disconnect => Step::Reply(failure_bytes()),
        RequestCode::Convert => load_from_cache_or_search(reading_of(buf, n), cache, "/"),
        RequestCode::Version => Step::Reply(slice_to_vec(SERVER_VERSION.as_bytes())),
        RequestCode::Name => Step::Reply(slice_to_vec(host_and_port.as_bytes())),
        RequestCode::Completion => load_from_cache_or_search(reading_of(buf, n), cache, " "),
        RequestCode::Invalid(_) => Step::Reply(failure_bytes()),
    }
}

/// Decides what follows a read on the connection.
///
/// `read` is the number of bytes that the read put into `buf`, or `None`
/// where it failed. A read of no bytes ends the connection: then nothing
/// follows. A failed read is answered with the failure byte.
pub fn handle_read(
    buf: &[u8; 512],
    read: Option<usize>,
    cache: &Cache,
    host_and_port: &str,
) -> (next: Option<Step>)
    requires
        read matches Some(n) ==> n <= BUFFER_SIZE,
    ensures
        match read {
            None => next matches Some(step) && step@ == StepView::Reply(failure()),
            Some(n) => if n == 0 {
                next is None
            } else {
                next matches Some(step) && step@ == response(
                    buf@,
                    n as int,
                    cache@,
                    host_and_port@,
                )
            },
        },
{
    match read {
        None => Some(Step::Reply(failure_bytes())),
        Some(n) => if n == 0 {
            None
        } else {
            Some(create_response(buf, n, cache, host_and_port))
        },
    }
}

/// Finishes a lookup with what came of the request to the service.
///
/// An answer that holds candidates becomes the line for the client, which
/// is cached under the reading. Anything else is answered with the failure
/// byte and changes nothing in the cache.
pub fn complete_search(
    cache: &mut Cache,
    pending: Pending,
    fetched: Result<String, SearchError>,
) -> (outcome: Outcome)
    ensures
        outcome.response@ == completed_response(pending@, body_of(fetched)),
        final(cache)@ == completed_cache(old(cache)@, pending@, body_of(fetched)),
        match fetched {
            Ok(body) => match reply_of(body@, pending.delimiter@) {
                Some(_) => outcome.failure is None,
                None => outcome.failure matches Some(error) && if not_json(body@) {
                    error is Json
                } else {
                    unexpected_shape(error)
                },
            },
            Err(error) => outcome.failure == Some(error),
        },
{
    let found = match fetched {
        Ok(body) => search(body.as_str(), pending.delimiter.as_str()),
        Err(error) => Err(error),
    };
    match found {
        Ok(bytes) => {
            let response = slice_to_vec(bytes.as_slice());
            cache.put(pending.key, bytes);
            Outcome { response, failure: None }
        },
        Err(error) => Outcome { response: failure_bytes(), failure: Some(error) },
    }
}

/// A version request is answered with the version, each character of it as
/// one byte, whatever the rest of the request, the cache and the address
/// hold: no lookup is asked for.
pub proof fn lemma_version_is_fixed(
    buf: Seq<u8>,
    n: int,
    cache: Map<Seq<u8>, Seq<u8>>,
    host_and_port: Seq<char>,
)
    requires
        buf.len() > 0,
        buf[0] == 0x32,
    ensures
        response(buf, n, cache, host_and_port) == StepView::Reply(
            vstd::utf8::encode_utf8(SERVER_VERSION@),
        ),
        vstd::utf8::encode_utf8(SERVER_VERSION@) == SERVER_VERSION@.map_values(
            |c: char| c as u8,
        ),
        SERVER_VERSION@ == "Google IME SKK Server in Rust.0.1"@,
{
    reveal_strlit("Google IME SKK Server in Rust.0.1");
    let version = SERVER_VERSION@;
    assert(vstd::utf8::is_ascii_chars(version));
    vstd::utf8::is_ascii_chars_encode_utf8(version);
    assert(vstd::utf8::encode_utf8(version) =~= version.map_values(|c: char| c as u8));
}

/// A name request is answered with the address as it was given, in UTF-8
/// and with nothing added, whatever the rest of the request and the cache
/// hold: no lookup is asked for.
pub proof fn lemma_name_is_the_address(
    buf: Seq<u8>,
    n: int,
    cache: Map<Seq<u8>, Seq<u8>>,
    host_and_port: Seq<char>,
)
    requires
        buf.len() > 0,
        buf[0] == 0x33,
    ensures
        response(buf, n, cache, host_and_port) == StepView::Reply(
            vstd::utf8::encode_utf8(host_and_port),
        ),
{
}

/// A request that is repeated after its lookup has succeeded is answered
/// from the cache, with the bytes that answered it the first time: the
/// service is not asked again.
pub proof fn lemma_repeated_request_hits_cache(
    buf: Seq<u8>,
    n: int,
    cache: Map<Seq<u8>, Seq<u8>>,
    host_and_port: Seq<char>,
    body: Seq<char>,
)
    requires
        response(buf, n, cache, host_and_port) is Search,
        reply_of(body, response(buf, n, cache, host_and_port)->Search_0.delimiter) is Some,
    ensures
        ({
            let pending = response(buf, n, cache, host_and_port)->Search_0;
            let first = completed_response(pending, Some(body));
            let kept = completed_cache(cache, pending, Some(body));
            response(buf, n, kept, host_and_port) == StepView::Reply(first)
        }),
{
}

/// A request that the cache answers is answered the same way however often
/// it is repeated, and whatever is cached for other readings meanwhile.
pub proof fn lemma_cached_answer_stays(
    buf: Seq<u8>,
    n: int,
    cache: Map<Seq<u8>, Seq<u8>>,
    host_and_port: Seq<char>,
    other: Seq<u8>,
    bytes: Seq<u8>,
)
    requires
        response(buf, n, cache, host_and_port) is Reply,
        other != reading(buf, n),
    ensures
        response(buf, n, cache.insert(other, bytes), host_and_port) == response(
            buf,
            n,
            cache,
            host_and_port,
        ),
{
}

/// Two connections that look the same reading up at the same time, and get
/// the same answer from the service, both send the client the same bytes,
/// and the cache ends as if only one of them had asked: the reading is
/// mapped to those bytes where the answer held candidates, and the cache
/// is unchanged where it did not.
pub proof fn lemma_racing_lookups_agree(
    cache: Map<Seq<u8>, Seq<u8>>,
    pending: PendingView,
    body: Option<Seq<char>>,
)
    ensures
        completed_cache(completed_cache(cache, pending, body), pending, body) == completed_cache(
            cache,
            pending,
            body,
        ),
        completed_response(pending, body) != failure() ==> completed_cache(
            cache,
            pending,
            body,
        ).contains_key(pending.key) && completed_cache(cache, pending, body)[pending.key]
            == completed_response(pending, body),
        body is Some && reply_of(body->0, pending.delimiter) is None ==> completed_cache(
            cache,
            pending,
            body,
        ) == cache,
        body is None ==> completed_cache(cache, pending, body) == cache,
{
    let once = completed_cache(cache, pending, body);
    assert(completed_cache(once, pending, body) =~= once);
}

} // verus!
