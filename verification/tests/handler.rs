use encoding::all::EUC_JP;
use encoding::{EncoderTrap, Encoding};
use gskkserv::cache::{new_cache, Cache};
use gskkserv::error::SearchError;
use gskkserv::handler::{
    bound_address, complete_search, create_response, handle_read, load_from_cache_or_search,
    Pending, Step, BUFFER_SIZE, SERVER_VERSION,
};
use gskkserv::json::JSON_ERROR_MSG;
use gskkserv::search::GOOGLE_IME_URL;

const ANSWER: &str = "[[\"ともえごぜん\",[\"巴御前\",\"ともえごぜん\",\"トモエゴゼン\"]]]";

const ESCAPED_READING: &str = "%E3%81%A8%E3%82%82%E3%81%88%E3%81%94%E3%81%9C%E3%82%93";

fn euc_jp(text: &str) -> Vec<u8> {
    EUC_JP.encode(text, EncoderTrap::Ignore).unwrap()
}

fn request(code: u8, reading: &[u8]) -> ([u8; 512], usize) {
    let mut buf = [0u8; 512];
    buf[0] = code;
    buf[1..1 + reading.len()].copy_from_slice(reading);
    buf[1 + reading.len()] = b'\n';
    (buf, reading.len() + 2)
}

fn pending_of(step: Step) -> Pending {
    match step {
        Step::Search(pending) => pending,
        Step::Reply(bytes) => panic!("answered without a lookup: {:?}", bytes),
    }
}

fn filled_cache() -> Cache {
    let mut cache = new_cache();
    cache.put(b"2".to_vec(), b"1/two/\n".to_vec());
    cache.put(b"".to_vec(), b"1/nothing/\n".to_vec());
    cache.put(euc_jp("ともえごぜん"), b"1/cached/\n".to_vec());
    cache
}

#[test]
fn test_create_response() {
    let cache = new_cache();
    assert_eq!(
        create_response(&[b'0'; 512], 1, &cache, "0.0.0.0:5555"),
        Step::Reply(b"0".to_vec())
    );
    assert_eq!(
        create_response(&[b'2'; 512], 1, &cache, "0.0.0.0:5555"),
        Step::Reply(SERVER_VERSION.as_bytes().to_vec())
    );
    assert_eq!(
        create_response(&[b'3'; 512], 1, &cache, "0.0.0.0:5555"),
        Step::Reply(b"0.0.0.0:5555".to_vec())
    );
}

#[test]
fn version_is_fixed_whatever_is_cached() {
    assert_eq!(SERVER_VERSION, "Google IME SKK Server in Rust.0.1");
    let (buf, n) = request(b'2', b"");
    for cache in [new_cache(), filled_cache()] {
        assert_eq!(
            create_response(&buf, n, &cache, "localhost:55100"),
            Step::Reply(b"Google IME SKK Server in Rust.0.1".to_vec())
        );
        assert_eq!(
            create_response(&[b'2'; 512], 1, &cache, "localhost:55100"),
            Step::Reply(b"Google IME SKK Server in Rust.0.1".to_vec())
        );
    }
}

#[test]
fn name_is_the_bound_address() {
    for cache in [new_cache(), filled_cache()] {
        assert_eq!(
            create_response(&[b'3'; 512], 1, &cache, "127.0.0.1:55100"),
            Step::Reply(b"127.0.0.1:55100".to_vec())
        );
        assert_eq!(
            create_response(&[b'3'; 512], 512, &cache, "[::1]:1"),
            Step::Reply(b"[::1]:1".to_vec())
        );
        assert_eq!(
            create_response(&[b'3'; 512], 1, &cache, ""),
            Step::Reply(Vec::new())
        );
    }
}

#[test]
fn disconnect_is_acknowledged() {
    let (buf, n) = request(b'0', b"");
    assert_eq!(
        create_response(&buf, n, &filled_cache(), "h:1"),
        Step::Reply(b"0".to_vec())
    );
}

#[test]
fn unknown_codes_get_the_failure_byte() {
    let cache = filled_cache();
    for code in [0u8, b' ', b'/', b'5', b'9', b'a', b'\n', 0x80, 0xff] {
        let (buf, n) = request(code, b"2");
        assert_eq!(
            create_response(&buf, n, &cache, "h:1"),
            Step::Reply(b"0".to_vec())
        );
    }
}

#[test]
fn convert_asks_the_service_for_an_unknown_reading() {
    let reading = euc_jp("ともえごぜん");
    let (buf, n) = request(b'1', &reading);
    let pending = pending_of(create_response(&buf, n, &new_cache(), "h:1"));
    assert_eq!(
        pending,
        Pending {
            key: reading,
            delimiter: "/".to_string(),
            url: format!("{}{}", GOOGLE_IME_URL, ESCAPED_READING),
        }
    );
}

#[test]
fn completion_asks_with_a_space_as_delimiter() {
    let reading = euc_jp("ともえごぜん");
    let (buf, n) = request(b'4', &reading);
    let pending = pending_of(create_response(&buf, n, &new_cache(), "h:1"));
    assert_eq!(
        pending,
        Pending {
            key: reading,
            delimiter: " ".to_string(),
            url: format!("{}{}", GOOGLE_IME_URL, ESCAPED_READING),
        }
    );
}

#[test]
fn convert_scenario_gives_the_encoded_line() {
    let (buf, n) = request(b'1', &euc_jp("ともえごぜん"));
    let mut cache = new_cache();
    let pending = pending_of(create_response(&buf, n, &cache, "h:1"));
    let outcome = complete_search(&mut cache, pending, Ok(ANSWER.to_string()));
    assert!(outcome.failure.is_none());
    assert_eq!(
        outcome.response,
        euc_jp("1/巴御前/ともえごぜん/トモエゴゼン/\n")
    );
}

#[test]
fn completion_scenario_gives_the_encoded_line() {
    let (buf, n) = request(b'4', &euc_jp("ともえごぜん"));
    let mut cache = new_cache();
    let pending = pending_of(create_response(&buf, n, &cache, "h:1"));
    let outcome = complete_search(&mut cache, pending, Ok(ANSWER.to_string()));
    assert!(outcome.failure.is_none());
    assert_eq!(
        outcome.response,
        euc_jp("1 巴御前 ともえごぜん トモエゴゼン \n")
    );
}

#[test]
fn repeated_request_is_answered_from_the_cache() {
    let (buf, n) = request(b'1', &euc_jp("ともえごぜん"));
    let mut cache = new_cache();
    let pending = pending_of(create_response(&buf, n, &cache, "h:1"));
    let first = complete_search(&mut cache, pending, Ok(ANSWER.to_string())).response;
    assert_eq!(cache.len(), 1);
    assert_eq!(cache.get(&euc_jp("ともえごぜん")), Some(&first));
    for _ in 0..3 {
        assert_eq!(
            create_response(&buf, n, &cache, "h:1"),
            Step::Reply(first.clone())
        );
    }
    assert_eq!(cache.len(), 1);
}

#[test]
fn cached_reading_is_not_looked_up() {
    let cache = filled_cache();
    let (buf, n) = request(b'1', &euc_jp("ともえごぜん"));
    assert_eq!(
        create_response(&buf, n, &cache, "h:1"),
        Step::Reply(b"1/cached/\n".to_vec())
    );
    let (buf, n) = request(b'4', b"2");
    assert_eq!(
        create_response(&buf, n, &cache, "h:1"),
        Step::Reply(b"1/two/\n".to_vec())
    );
    assert_eq!(
        load_from_cache_or_search(b"2".to_vec(), &cache, "/"),
        Step::Reply(b"1/two/\n".to_vec())
    );
}

#[test]
fn malformed_answer_gives_the_failure_byte_and_caches_nothing() {
    let (buf, n) = request(b'1', &euc_jp("ともえごぜん"));
    let mut cache = new_cache();
    let pending = pending_of(create_response(&buf, n, &cache, "h:1"));
    let outcome = complete_search(&mut cache, pending, Ok("{}".to_string()));
    assert_eq!(outcome.response, b"0".to_vec());
    assert!(matches!(outcome.failure, Some(SearchError::Msg(message)) if message == JSON_ERROR_MSG));
    assert_eq!(cache.len(), 0);
    assert!(!cache.contains_key(&euc_jp("ともえごぜん")));
    assert!(matches!(
        create_response(&buf, n, &cache, "h:1"),
        Step::Search(_)
    ));
}

#[test]
fn answer_that_is_not_json_gives_the_failure_byte() {
    let mut cache = filled_cache();
    let pending = pending_of(load_from_cache_or_search(b"k".to_vec(), &cache, "/"));
    let outcome = complete_search(&mut cache, pending, Ok("<html>".to_string()));
    assert_eq!(outcome.response, b"0".to_vec());
    assert!(matches!(outcome.failure, Some(SearchError::Json(_))));
    assert_eq!(cache.len(), 3);
    assert!(!cache.contains_key(b"k"));
}

#[test]
fn failed_request_gives_the_failure_byte() {
    let mut cache = new_cache();
    let pending = pending_of(load_from_cache_or_search(b"k".to_vec(), &cache, "/"));
    let fetched = Err(SearchError::Request("connection refused".to_string()));
    let outcome = complete_search(&mut cache, pending, fetched);
    assert_eq!(outcome.response, b"0".to_vec());
    assert!(matches!(outcome.failure, Some(SearchError::Request(reason)) if reason == "connection refused"));
    assert_eq!(cache.len(), 0);

    let pending = pending_of(load_from_cache_or_search(b"k".to_vec(), &cache, "/"));
    let fetched = Err(SearchError::Io("unexpected end of file".to_string()));
    let outcome = complete_search(&mut cache, pending, fetched);
    assert_eq!(outcome.response, b"0".to_vec());
    assert!(matches!(outcome.failure, Some(SearchError::Io(_))));
    assert_eq!(cache.len(), 0);
}

#[test]
fn racing_lookups_leave_one_entry() {
    let reading = euc_jp("ともえごぜん");
    let (buf, n) = request(b'1', &reading);
    let mut cache = new_cache();
    let first = pending_of(create_response(&buf, n, &cache, "h:1"));
    let second = pending_of(create_response(&buf, n, &cache, "h:1"));
    assert_eq!(first, second);
    let first = complete_search(&mut cache, first, Ok(ANSWER.to_string()));
    let second = complete_search(&mut cache, second, Ok(ANSWER.to_string()));
    let expected = euc_jp("1/巴御前/ともえごぜん/トモエゴゼン/\n");
    assert_eq!(first.response, expected);
    assert_eq!(second.response, expected);
    assert_eq!(cache.len(), 1);
    assert_eq!(cache.get(&reading), Some(&expected));
}

#[test]
fn racing_lookups_with_one_failure_keep_the_answer() {
    let reading = euc_jp("ともえごぜん");
    let (buf, n) = request(b'1', &reading);
    let mut cache = new_cache();
    let first = pending_of(create_response(&buf, n, &cache, "h:1"));
    let second = pending_of(create_response(&buf, n, &cache, "h:1"));
    let first = complete_search(&mut cache, first, Ok(ANSWER.to_string()));
    let second = complete_search(&mut cache, second, Ok("{}".to_string()));
    let expected = euc_jp("1/巴御前/ともえごぜん/トモエゴゼン/\n");
    assert_eq!(first.response, expected);
    assert_eq!(second.response, b"0".to_vec());
    assert_eq!(cache.len(), 1);
    assert_eq!(cache.get(&reading), Some(&expected));
}

#[test]
fn the_cache_key_is_the_reading_as_sent() {
    let mut cache = new_cache();
    let (buf, n) = request(b'1', b"ab");
    let pending = pending_of(create_response(&buf, n, &cache, "h:1"));
    assert_eq!(pending.key, b"ab".to_vec());
    complete_search(&mut cache, pending, Ok("[[\"ab\",[\"x\"]]]".to_string()));
    let (buf, n) = request(b'1', b"AB");
    assert!(matches!(create_response(&buf, n, &cache, "h:1"), Step::Search(_)));
    let (buf, n) = request(b'1', b"ab ");
    assert!(matches!(create_response(&buf, n, &cache, "h:1"), Step::Search(_)));
    let (buf, n) = request(b'4', b"ab");
    assert_eq!(
        create_response(&buf, n, &cache, "h:1"),
        Step::Reply(b"1/x/\n".to_vec())
    );
}

#[test]
fn the_reading_stands_between_code_and_last_byte() {
    let cache = new_cache();
    let mut buf = [b'x'; 512];
    buf[0] = b'1';
    assert_eq!(pending_of(create_response(&buf, 1, &cache, "h:1")).key, b"".to_vec());
    assert_eq!(pending_of(create_response(&buf, 2, &cache, "h:1")).key, b"".to_vec());
    assert_eq!(pending_of(create_response(&buf, 3, &cache, "h:1")).key, b"x".to_vec());
    assert_eq!(
        pending_of(create_response(&buf, 5, &cache, "h:1")).key,
        b"xxx".to_vec()
    );
    assert_eq!(
        pending_of(create_response(&buf, BUFFER_SIZE, &cache, "h:1")).key,
        vec![b'x'; 510]
    );
    let (buf, n) = request(b'1', b"a\nb");
    assert_eq!(
        pending_of(create_response(&buf, n, &cache, "h:1")).key,
        b"a\nb".to_vec()
    );
}

#[test]
fn undecodable_readings_are_looked_up_without_failing() {
    let cache = new_cache();
    for reading in [
        vec![0xff],
        vec![0x80, 0x81, 0xfe, 0xff],
        vec![0xa4],
        vec![0xa4, 0xc8, 0xa4],
        vec![0x8e],
        vec![0x8f, 0xa1],
        vec![0x00, 0x7f],
        vec![0xff; 510],
    ] {
        let (buf, n) = request(b'1', &reading);
        let pending = pending_of(create_response(&buf, n, &cache, "h:1"));
        assert_eq!(pending.key, reading);
        assert!(pending.url.starts_with(GOOGLE_IME_URL));
        assert!(pending.url.is_ascii());
    }
    let pending = pending_of(load_from_cache_or_search(vec![0xa4, 0xc8, 0xff], &cache, "/"));
    assert_eq!(pending.url, format!("{}%E3%81%A8", GOOGLE_IME_URL));
    let pending = pending_of(load_from_cache_or_search(vec![0xff], &cache, "/"));
    assert_eq!(pending.url, GOOGLE_IME_URL);
}

#[test]
fn a_read_of_no_bytes_ends_the_connection() {
    assert_eq!(handle_read(&[b'2'; 512], Some(0), &new_cache(), "h:1"), None);
    assert_eq!(handle_read(&[0; 512], Some(0), &filled_cache(), "h:1"), None);
}

#[test]
fn a_failed_read_is_answered_with_the_failure_byte() {
    assert_eq!(
        handle_read(&[b'2'; 512], None, &new_cache(), "h:1"),
        Some(Step::Reply(b"0".to_vec()))
    );
}

#[test]
fn a_read_with_bytes_is_dispatched() {
    let cache = filled_cache();
    assert_eq!(
        handle_read(&[b'2'; 512], Some(1), &cache, "h:1"),
        Some(Step::Reply(SERVER_VERSION.as_bytes().to_vec()))
    );
    assert_eq!(
        handle_read(&[b'3'; 512], Some(512), &cache, "h:1"),
        Some(Step::Reply(b"h:1".to_vec()))
    );
    let (buf, n) = request(b'1', b"2");
    assert_eq!(
        handle_read(&buf, Some(n), &cache, "h:1"),
        Some(Step::Reply(b"1/two/\n".to_vec()))
    );
    let (buf, n) = request(b'1', b"3");
    assert!(matches!(
        handle_read(&buf, Some(n), &cache, "h:1"),
        Some(Step::Search(_))
    ));
}

#[test]
fn every_short_reading_is_decoded_without_failing() {
    let cache = new_cache();
    for first in 0..=255u8 {
        let pending = pending_of(load_from_cache_or_search(vec![first], &cache, "/"));
        assert!(pending.url.starts_with(GOOGLE_IME_URL));
        for second in 0..=255u8 {
            let reading = vec![first, second];
            let pending = pending_of(load_from_cache_or_search(reading, &cache, "/"));
            assert!(pending.url.starts_with(GOOGLE_IME_URL));
        }
    }
    for first in [0x80u8, 0x8e, 0x8f, 0xa1, 0xfe, 0xff] {
        for second in 0..=255u8 {
            for third in 0..=255u8 {
                let reading = vec![first, second, third, 0xa4];
                let pending = pending_of(load_from_cache_or_search(reading, &cache, " "));
                assert!(pending.url.starts_with(GOOGLE_IME_URL));
            }
        }
    }
}

#[test]
fn ascii_readings_are_decoded_as_they_are() {
    let cache = new_cache();
    let pending = pending_of(load_from_cache_or_search(b"kana-09_AZ.~".to_vec(), &cache, "/"));
    assert_eq!(pending.url, format!("{}kana-09_AZ.~", GOOGLE_IME_URL));
    let pending = pending_of(load_from_cache_or_search(b"a b".to_vec(), &cache, "/"));
    assert_eq!(pending.url, format!("{}a%20b", GOOGLE_IME_URL));
}

#[test]
fn the_encoded_line_decodes_to_the_line() {
    let cache = new_cache();
    for delimiter in ["/", " "] {
        let list = vec![
            "巴御前".to_string(),
            "ともえごぜん".to_string(),
            "トモエゴゼン".to_string(),
        ];
        let line = gskkserv::candidates::format_candidates(&list, delimiter);
        let bytes = gskkserv::search::search(ANSWER, delimiter).unwrap();
        let pending = pending_of(load_from_cache_or_search(bytes, &cache, delimiter));
        assert_eq!(pending.url, gskkserv::search::search_url(&line));
    }
}

#[test]
fn the_bound_address_is_host_colon_port() {
    assert_eq!(bound_address("0.0.0.0", "55100"), "0.0.0.0:55100");
    assert_eq!(bound_address("localhost", "1"), "localhost:1");
    assert_eq!(bound_address("", ""), ":");
    let address = bound_address("0.0.0.0", "5555");
    assert_eq!(
        create_response(&[b'3'; 512], 1, &new_cache(), &address),
        Step::Reply(b"0.0.0.0:5555".to_vec())
    );
}

#[test]
fn answers_beyond_the_parser_limits_give_the_failure_byte() {
    let key = "k".repeat(40_000);
    let bodies = [
        format!("{{\"\u{3042}{}\":1}}", "a".repeat(65_534)),
        format!("{{\"{}\":{{\"{}\":1}}}}", key, key),
        "[[\"a\",[\"b\"]],1e12345678901234567890]".to_string(),
        "[".repeat(200),
    ];
    for body in bodies {
        let mut cache = new_cache();
        let pending = pending_of(load_from_cache_or_search(b"k".to_vec(), &cache, "/"));
        let outcome = complete_search(&mut cache, pending, Ok(body));
        assert_eq!(outcome.response, b"0".to_vec());
        assert!(matches!(outcome.failure, Some(SearchError::Msg(message)) if message == JSON_ERROR_MSG));
        assert_eq!(cache.len(), 0);
    }
}

#[test]
fn version_and_name_ignore_the_rest_of_the_request() {
    let mut cache = filled_cache();
    cache.put(b"".to_vec(), b"x".to_vec());
    let mut buf = [b'2'; 512];
    for n in [0usize, 1, 2, 3, 100, 511, 512, 513, 70_000, usize::MAX] {
        buf[0] = b'2';
        assert_eq!(
            create_response(&buf, n, &cache, "h:1"),
            Step::Reply(b"Google IME SKK Server in Rust.0.1".to_vec())
        );
        buf[0] = b'3';
        assert_eq!(
            create_response(&buf, n, &cache, "\u{65e5}\u{672c}:55100\n"),
            Step::Reply("\u{65e5}\u{672c}:55100\n".as_bytes().to_vec())
        );
    }
    assert_eq!(cache.len(), 3);
}

#[test]
fn codes_without_a_reading_are_answered_for_any_length() {
    let cache = filled_cache();
    for n in [0usize, 1, 512, 513, usize::MAX] {
        assert_eq!(
            create_response(&[b'0'; 512], n, &cache, "h:1"),
            Step::Reply(b"0".to_vec())
        );
        assert_eq!(
            create_response(&[b'9'; 512], n, &cache, "h:1"),
            Step::Reply(b"0".to_vec())
        );
    }
    assert_eq!(
        pending_of(create_response(&[b'1'; 512], 0, &new_cache(), "h:1")).key,
        b"".to_vec()
    );
}
