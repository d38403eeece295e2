use http::{HeaderMap, HeaderValue};
use stealth_http::address::WebUrl;
use stealth_http::body::{plan_body, plan_from, Stripped};
use stealth_http::client::{CertStore, Counters, Estimated, ProxyChoice, StealthHttpClient};
use stealth_http::cors::{cors_answer, validate_wreq_cors_response};
use stealth_http::error::ObscuraNetError;
use stealth_http::fetch::{Fetch, InterceptAction, Turn};
use stealth_http::fields::{
    cookies_to_store, first_header, header_size, response_headers, single_value_of, size_of_fields,
    wreq_response_header_value,
};
use stealth_http::identity::{
    Platform, Profile, STEALTH_NAVIGATOR_PLATFORM, STEALTH_UA_PLATFORM,
    STEALTH_UA_PLATFORM_VERSION, STEALTH_USER_AGENT,
};
use stealth_http::message::{status_redirects, Response};
use stealth_http::reader::{BodyReader, Charge, ReadBody};
use stealth_http::request::{build_hop_fields, build_single_fields, HopFacts, ResourceRequest};
use stealth_http::retry::{send_get_with_connection_reset_retry, SendOutcome, SendStep};
use stealth_http::single::{SingleStart, SINGLE_BODY_LIMIT};
use stealth_http::table::HeaderTable;
use stealth_http::text::{
    decimal_len, eq_ignore_ascii_case, field_value_text, parse_declared_length, same_text,
};

fn url(text: &str) -> WebUrl {
    WebUrl::parse(text).unwrap()
}

fn map(fields: &[(&'static str, &[u8])]) -> HeaderMap {
    let mut headers = HeaderMap::new();
    for (name, value) in fields {
        headers.append(*name, HeaderValue::from_bytes(value).unwrap());
    }
    headers
}

fn table(pairs: &[(&str, &str)]) -> HeaderTable {
    let pairs: Vec<(String, String)> =
        pairs.iter().map(|(n, v)| (n.to_string(), v.to_string())).collect();
    HeaderTable::collect(&pairs)
}

fn page() -> ResourceRequest {
    ResourceRequest {
        navigate: true,
        mode: "navigate".to_string(),
        accept: "text/html".to_string(),
        destination: "document".to_string(),
        resource_type: "Document".to_string(),
        max_response_bytes: 100,
    }
}

fn facts(cors: bool, credentials: bool) -> HopFacts {
    HopFacts {
        fetch_site: "none".to_string(),
        referrer: Some("https://from.test/".to_string()),
        origin: "https://page.test".to_string(),
        credentials,
        cookies: "a=1".to_string(),
        cors,
    }
}

fn client() -> StealthHttpClient {
    StealthHttpClient::new(CertStore::NotRequested)
}

fn text_of(e: ObscuraNetError) -> String {
    match e {
        ObscuraNetError::Cors(s) => format!("cors {s}"),
        ObscuraNetError::Network(s) => format!("network {s}"),
        ObscuraNetError::Blocked(s) => format!("blocked {s}"),
        ObscuraNetError::TooManyRedirects(s) => format!("redirects {s}"),
        ObscuraNetError::ResponseTooLarge { url, limit } => format!("large {url} {limit}"),
        ObscuraNetError::Policy(s) => format!("policy {s}"),
    }
}

fn failure(turn: Turn) -> String {
    assert!(turn.cookies.is_empty());
    assert_eq!(turn.charge, 0);
    match turn.state {
        Fetch::Done { outcome: Err(e), report: None } => text_of(e),
        _ => panic!("the fetch fails"),
    }
}

fn policy() -> Result<(), ObscuraNetError> {
    Err(ObscuraNetError::Policy("no".to_string()))
}

fn policy_text() -> Result<Option<String>, ObscuraNetError> {
    Err(ObscuraNetError::Policy("no".to_string()))
}

// A fetch of an address up to the point where its request goes out.
fn sending(client: &StealthHttpClient, address: &str, facts: HopFacts) -> stealth_http::fetch::Sending {
    let start = client.fetch_with_callbacks(&url(address), page(), true);
    let prepare = match start.enter(Ok(()), Ok(()), false, client).state {
        Fetch::Prepare(s) => s,
        _ => panic!("the request is prepared"),
    };
    match prepare.prepare(Ok(()), facts, client).state {
        Fetch::Announce(s) => match s.announced().state {
            Fetch::Send(s) => s,
            _ => panic!("the request goes out"),
        },
        _ => panic!("the request is announced"),
    }
}

// A body of which `wire` bytes, the header fields among them, were measured.
fn read(body: &[u8], wire: u64, limit: usize) -> ReadBody {
    let at = url("http://a.test/");
    let nothing = Stripped { encoding: None, length: None };
    let plan = plan_from(0, None, None, &nothing, None, limit, &at).unwrap();
    let mut reader = BodyReader::start(&plan, limit, &at, true);
    assert!(reader.chunk(wire, Ok(body)).1.is_ok());
    reader.finish(wire).1
}

const NONE: Estimated = Estimated { bytes: 0, transfers: 0 };

#[test]
fn header_text_is_visible_ascii() {
    assert_eq!(field_value_text(b"a b\tc~").as_deref(), Some("a b\tc~"));
    assert_eq!(field_value_text(b"").as_deref(), Some(""));
    assert_eq!(field_value_text(&[0x61, 0xe9]), None);
    assert_eq!(field_value_text(&[0x7f]), None);
    assert_eq!(field_value_text(&[0x1f]), None);
}

#[test]
fn declared_lengths_are_read_as_numbers() {
    assert_eq!(parse_declared_length(b"1000"), Some(1000));
    assert_eq!(parse_declared_length(b" \t42\t "), Some(42));
    assert_eq!(parse_declared_length(b"+7"), Some(7));
    assert_eq!(parse_declared_length(b"007"), Some(7));
    assert_eq!(parse_declared_length(b"18446744073709551615"), Some(u64::MAX));
    assert_eq!(parse_declared_length(b"18446744073709551616"), None);
    for bad in ["", " ", "+", "-0", "++1", "1 2", "1a", "0x10"] {
        assert_eq!(parse_declared_length(bad.as_bytes()), None, "{bad}");
        assert!(bad.trim().parse::<u64>().is_err());
    }
    assert_eq!(parse_declared_length(&[0x31, 0xff]), None);
}

#[test]
fn decimal_width_is_the_length_of_the_text() {
    for n in [0, 9, 10, 99, 100, 1000, 67, u64::MAX] {
        assert_eq!(decimal_len(n), n.to_string().len() as u64);
    }
}

#[test]
fn names_compare_in_any_case() {
    assert!(eq_ignore_ascii_case("OrIgIn", "origin"));
    assert!(!eq_ignore_ascii_case("origins", "origin"));
    assert!(!eq_ignore_ascii_case("[", "{"));
    assert!(!eq_ignore_ascii_case("\u{c9}", "\u{e9}"));
    assert!(same_text("file", "file"));
    assert!(!same_text("file", "File"));
}

#[test]
fn tables_keep_the_last_value_of_a_name() {
    let mut t = table(&[("a", "1"), ("b", "2"), ("a", "3")]);
    assert_eq!(t.len(), 2);
    assert_eq!(t.get("a"), Some("3"));
    assert_eq!(t.get("b"), Some("2"));
    assert_eq!(t.get("A"), None);
    t.extend(&table(&[("b", "4"), ("c", "5")]));
    assert_eq!(t.len(), 3);
    assert_eq!(t.get("b"), Some("4"));
    assert_eq!(t.get("c"), Some("5"));
    assert_eq!(t.clone().get("a"), Some("3"));
    assert_eq!(HeaderTable::new().len(), 0);
}

#[test]
fn addresses_are_parsed_and_joined() {
    let base = url("HTTPS://Example.NET/a/b.html");
    assert_eq!(base.href, "https://example.net/a/b.html");
    assert_eq!(base.scheme, "https");
    assert_eq!(base.host.as_deref(), Some("example.net"));
    assert_eq!(base.join("c.png").unwrap().href, "https://example.net/a/c.png");
    assert_eq!(base.join("//eve.com/b").unwrap().host.as_deref(), Some("eve.com"));
    assert_eq!(base.join("data:x").unwrap().host, None);
    assert!(base.join("http://[").is_err());
    assert!(WebUrl::parse("no address").is_err());
}

#[test]
fn repeated_and_unreadable_headers_are_refused() {
    let at = url("http://a.test/");
    let name = "access-control-allow-origin";
    let none = map(&[]);
    assert!(matches!(wreq_response_header_value(&none, name, &at), Ok(None)));
    let once = map(&[("access-control-allow-origin", b"*")]);
    assert_eq!(wreq_response_header_value(&once, name, &at).unwrap().as_deref(), Some("*"));
    let shouted = wreq_response_header_value(&once, "Access-Control-Allow-Origin", &at);
    assert_eq!(shouted.unwrap().as_deref(), Some("*"));
    let twice = map(&[
        ("access-control-allow-origin", b"*"),
        ("access-control-allow-origin", b"*"),
    ]);
    assert_eq!(
        text_of(wreq_response_header_value(&twice, name, &at).unwrap_err()),
        "cors http://a.test/ returned multiple access-control-allow-origin headers"
    );
    let odd = map(&[("access-control-allow-origin", &[0xff])]);
    assert_eq!(
        text_of(wreq_response_header_value(&odd, name, &at).unwrap_err()),
        "cors http://a.test/ returned an invalid access-control-allow-origin header"
    );
    let value = single_value_of(&[b"x".to_vec()], name, &at).unwrap();
    assert_eq!(value.as_deref(), Some("x"));
}

#[test]
fn names_that_are_no_tokens_are_not_found() {
    let at = url("http://a.test/");
    let mut headers = HeaderMap::new();
    let odd = http::HeaderName::from_lowercase(b"a\"b").unwrap();
    headers.append(odd, HeaderValue::from_static("x"));
    headers.append("x-plain", HeaderValue::from_static("y"));
    assert_eq!(response_headers(&headers).get("a\"b"), Some("x"));
    assert_eq!(first_header(&headers, "a\"b"), None);
    assert!(matches!(wreq_response_header_value(&headers, "a\"b", &at), Ok(None)));
    assert_eq!(first_header(&headers, ""), None);
    assert_eq!(first_header(&headers, "x plain"), None);
    assert_eq!(first_header(&headers, "X-Plain"), Some(b"y".to_vec()));
    let longest = "n".repeat(64);
    headers.append(
        http::HeaderName::from_bytes(longest.as_bytes()).unwrap(),
        HeaderValue::from_static("z"),
    );
    assert_eq!(first_header(&headers, &longest), Some(b"z".to_vec()));
    let longer = "n".repeat(65);
    assert_eq!(first_header(&headers, &longer), None);
    headers.append(
        http::HeaderName::from_bytes(longer.as_bytes()).unwrap(),
        HeaderValue::from_static("w"),
    );
    assert_eq!(first_header(&headers, &longer.to_uppercase()), Some(b"w".to_vec()));
    let value = wreq_response_header_value(&headers, &longer, &at).unwrap();
    assert_eq!(value.as_deref(), Some("w"));
    assert_eq!(first_header(&headers, &"n".repeat(65536)), None);
}

#[test]
fn sharing_is_checked_where_it_is_at_stake() {
    let at = url("http://a.test/");
    let twice = map(&[
        ("access-control-allow-credentials", b"true"),
        ("access-control-allow-credentials", b"true"),
    ]);
    assert!(matches!(validate_wreq_cors_response(false, &at, &twice), Ok(None)));
    assert_eq!(
        text_of(validate_wreq_cors_response(true, &at, &twice).err().unwrap()),
        "cors http://a.test/ returned multiple access-control-allow-credentials headers"
    );
    let both = map(&[
        ("access-control-allow-origin", b"https://page.test"),
        ("access-control-allow-credentials", b"true"),
    ]);
    let answer = validate_wreq_cors_response(true, &at, &both).unwrap().unwrap();
    assert_eq!(answer.allow_origin.as_deref(), Some("https://page.test"));
    assert_eq!(answer.allow_credentials.as_deref(), Some("true"));
    let refusal = || Err(ObscuraNetError::Cors("first".to_string()));
    assert_eq!(text_of(cors_answer(refusal(), policy_text()).err().unwrap()), "cors first");
    assert_eq!(text_of(cors_answer(Ok(None), policy_text()).err().unwrap()), "policy no");
    let mixed = cors_answer(Ok(Some("*".to_string())), Ok(None)).unwrap();
    assert_eq!(mixed.allow_origin.as_deref(), Some("*"));
    assert_eq!(mixed.allow_credentials, None);
    let silent = validate_wreq_cors_response(true, &at, &map(&[])).unwrap().unwrap();
    assert_eq!(silent.allow_origin, None);
    assert_eq!(silent.allow_credentials, None);
}

#[test]
fn response_headers_become_a_table() {
    let headers = map(&[
        ("etag", b"one"),
        ("x-raw", &[0xff, 0x61]),
        ("etag", b"two"),
        ("set-cookie", b"a=1"),
        ("set-cookie", &[0xff]),
        ("set-cookie", b"b=2"),
    ]);
    let t = response_headers(&headers);
    assert_eq!(t.len(), 3);
    assert_eq!(t.get("etag"), Some("two"));
    assert_eq!(t.get("x-raw"), Some(""));
    assert_eq!(t.get("set-cookie"), Some("b=2"));
    assert_eq!(cookies_to_store(&headers), vec!["a=1".to_string(), "b=2".to_string()]);
    assert_eq!(
        header_size(&headers),
        Some((4 + 3 + 4) + (5 + 2 + 4) + (4 + 3 + 4) + (10 + 3 + 4) + (10 + 1 + 4) + (10 + 3 + 4))
    );
    assert_eq!(header_size(&map(&[])), Some(0));
    assert_eq!(size_of_fields(&[("ab".to_string(), vec![1, 2, 3])]), Some(9));
}

#[test]
fn request_headers_come_in_order() {
    let extra = table(&[("Origin", "https://spoofed.test"), ("x-extra", "1")]);
    let list = build_hop_fields(&page(), &facts(true, true), &extra);
    let expected = [
        ("accept", "text/html"),
        ("sec-fetch-site", "none"),
        ("sec-fetch-mode", "navigate"),
        ("sec-fetch-dest", "document"),
        ("upgrade-insecure-requests", "1"),
        ("sec-fetch-user", "?1"),
        ("referer", "https://from.test/"),
        ("Cookie", "a=1"),
        ("x-extra", "1"),
        ("origin", "https://page.test"),
    ];
    let list: Vec<(&str, &str)> = list.iter().map(|(n, v)| (n.as_str(), v.as_str())).collect();
    assert_eq!(list, expected);

    let mut image = page();
    image.navigate = false;
    let mut plain = facts(false, false);
    plain.referrer = None;
    let list = build_hop_fields(&image, &plain, &extra);
    let names: Vec<&str> = list.iter().map(|(n, _)| n.as_str()).collect();
    assert_eq!(names, ["accept", "sec-fetch-site", "sec-fetch-mode", "sec-fetch-dest", "x-extra"]);
}

#[test]
fn requests_leave_the_identity_to_the_transport() {
    let extra = table(&[("x-extra", "1")]);
    let hop = build_hop_fields(&page(), &facts(true, true), &extra);
    let single = build_single_fields(true, "a=1", &extra, &table(&[("x-own", "2")]));
    for (name, _) in hop.iter().chain(single.iter()) {
        assert!(!eq_ignore_ascii_case(name, "user-agent"));
        assert!(!eq_ignore_ascii_case(name, "sec-ch-ua-platform"));
    }
}

#[test]
fn cookies_are_sent_with_credentials_only() {
    let none = HeaderTable::new();
    let with = build_hop_fields(&page(), &facts(false, true), &none);
    assert!(with.iter().any(|(n, v)| n == "Cookie" && v == "a=1"));
    let without = build_hop_fields(&page(), &facts(false, false), &none);
    assert!(!without.iter().any(|(n, _)| n == "Cookie"));
    let mut empty = facts(false, true);
    empty.cookies = String::new();
    let empty = build_hop_fields(&page(), &empty, &none);
    assert!(!empty.iter().any(|(n, _)| n == "Cookie"));
}

#[test]
fn single_request_headers_come_in_order() {
    let extra = table(&[("Origin", "https://extra.test")]);
    let own = table(&[("x-own", "2")]);
    let list = build_single_fields(true, "a=1", &extra, &own);
    let list: Vec<(&str, &str)> = list.iter().map(|(n, v)| (n.as_str(), v.as_str())).collect();
    assert_eq!(list, [("cookie", "a=1"), ("Origin", "https://extra.test"), ("x-own", "2")]);
    assert_eq!(build_single_fields(false, "a=1", &HeaderTable::new(), &own).len(), 1);
    assert_eq!(build_single_fields(true, "", &HeaderTable::new(), &own).len(), 1);
}

#[test]
fn gets_are_sent_twice_at_most() {
    let mut send = send_get_with_connection_reset_retry(true);
    assert_eq!(send.count(), 1);
    assert_eq!(send.after(SendOutcome::Reset), SendStep::Resend);
    assert_eq!(send.after(SendOutcome::Reset), SendStep::Return);
    assert_eq!(send.count(), 2);
    let mut single = send_get_with_connection_reset_retry(false);
    assert_eq!(single.after(SendOutcome::Reset), SendStep::Return);
    assert_eq!(single.count(), 1);
    let mut other = send_get_with_connection_reset_retry(true);
    assert_eq!(other.after(SendOutcome::Failed), SendStep::Return);
    assert_eq!(other.after(SendOutcome::Answered), SendStep::Return);
}

#[test]
fn bodies_are_planned_from_their_headers() {
    let at = url("http://a.test/");
    let nothing = Stripped { encoding: None, length: None };
    let headers = map(&[("content-length", b" 10 "), ("content-encoding", b"br")]);
    let size = (14 + 4 + 4) + (16 + 2 + 4);
    let plan = plan_body(&headers, &nothing, Some(10), 100, &at).unwrap().unwrap();
    assert_eq!(plan.header_bytes, size);
    assert_eq!(plan.content_length, Some(10));
    assert_eq!(plan.content_encoding.as_deref(), Some("br"));
    assert_eq!(plan.capacity, 10);

    let gzip = Stripped { encoding: Some(b"gzip"), length: Some(b"67") };
    let plan = plan_body(&map(&[]), &gzip, Some(1000), 100, &at).unwrap().unwrap();
    assert_eq!(plan.header_bytes, (16 + 4 + 4) + (14 + 2 + 4));
    assert_eq!(plan.content_length, Some(67));
    assert_eq!(plan.content_encoding, None);
    assert_eq!(plan.capacity, 100);

    // Without an encoding the stripped length is not charged, but it counts.
    let bare = Stripped { encoding: None, length: Some(b"67") };
    let plan = plan_from(5, Some(b"9"), None, &bare, None, 100, &at).unwrap();
    assert_eq!(plan.header_bytes, 5);
    assert_eq!(plan.content_length, Some(67));
    assert_eq!(plan.capacity, 0);

    let long = plan_from(0, Some(b"101"), None, &nothing, None, 100, &at);
    assert_eq!(text_of(long.err().unwrap()), "large http://a.test/ 100");
    assert!(plan_from(0, Some(b"100"), None, &nothing, None, 100, &at).is_ok());
    assert_eq!(plan_from(0, None, None, &nothing, None, 100, &at).unwrap().content_length, None);
}

#[test]
fn measured_bodies_are_charged_as_they_arrive() {
    let at = url("http://a.test/");
    let nothing = Stripped { encoding: None, length: None };
    let plan = plan_from(50, None, None, &nothing, None, 5, &at).unwrap();
    let mut reader = BodyReader::start(&plan, 5, &at, true);
    assert_eq!(reader.opening(), Charge::Bytes(50));
    let (charge, taken) = reader.chunk(2, Ok(b"abc"));
    assert_eq!(charge, Charge::Bytes(2));
    assert!(taken.is_ok());
    assert_eq!(reader.len(), 3);
    let (charge, taken) = reader.chunk(7, Ok(b"def"));
    assert_eq!(charge, Charge::Bytes(5));
    assert_eq!(text_of(taken.unwrap_err()), "large http://a.test/ 5");
    let (charge, taken) = reader.chunk(8, Err("reset"));
    assert_eq!(charge, Charge::Bytes(1));
    assert_eq!(text_of(taken.unwrap_err()), "network Failed to read body: reset");
    let (charge, read) = reader.finish(9);
    assert_eq!(charge, Charge::Bytes(1));
    assert_eq!(read.wire(), 59);
    assert_eq!(read.into_parts(), (b"abc".to_vec(), 59));
}

#[test]
fn unmeasured_bodies_are_estimated() {
    let at = url("http://a.test/");
    let nothing = Stripped { encoding: None, length: None };
    let plan = plan_from(50, Some(b"4"), None, &nothing, None, 5, &at).unwrap();
    let mut reader = BodyReader::start(&plan, 5, &at, false);
    assert_eq!(reader.opening(), Charge::EstimateStart);
    let (charge, taken) = reader.chunk(0, Ok(b"abcde"));
    assert_eq!(charge, Charge::EstimateChunk(5));
    assert!(taken.is_ok());
    let (charge, taken) = reader.chunk(0, Ok(b"f"));
    assert_eq!(charge, Charge::Nothing);
    assert!(taken.is_err());
    let (charge, taken) = reader.chunk(0, Err("reset"));
    assert_eq!(charge, Charge::Nothing);
    assert!(taken.is_err());
    let (charge, read) = reader.finish(0);
    assert_eq!(charge, Charge::EstimateComplete);
    assert_eq!(read.into_parts(), (b"abcde".to_vec(), 54));

    let plan = plan_from(50, None, None, &nothing, None, 5, &at).unwrap();
    let mut reader = BodyReader::start(&plan, 5, &at, false);
    assert!(reader.chunk(0, Ok(b"ab")).1.is_ok());
    assert_eq!(reader.finish(0).1.wire(), 52);
}

#[test]
fn clients_are_set_up_alike() {
    let c = client();
    assert_eq!(c.config().profile, Profile::Chrome145);
    assert_eq!(c.config().platform, Platform::Windows);
    assert_eq!(c.config().timeout_secs, 30);
    assert!(!c.config().follows_redirects);
    assert!(!c.config().custom_roots);
    assert_eq!(c.config().proxy, None);
    let proxy = |accepted: bool| Some(ProxyChoice { address: "http://p.test".to_string(), accepted });
    let built = StealthHttpClient::with_proxy(CertStore::Built, proxy(true));
    assert!(built.config().custom_roots);
    assert_eq!(built.config().proxy.as_deref(), Some("http://p.test"));
    let broken = StealthHttpClient::with_proxy(CertStore::Failed, proxy(false));
    assert!(!broken.config().custom_roots);
    assert_eq!(broken.config().proxy, None);
    assert!(STEALTH_USER_AGENT.contains("Windows NT 10.0"));
    assert!(STEALTH_USER_AGENT.contains("Chrome/145.0.0.0"));
    assert_eq!(STEALTH_NAVIGATOR_PLATFORM, "Win32");
    assert_eq!(STEALTH_UA_PLATFORM, "Windows");
    assert_eq!(STEALTH_UA_PLATFORM_VERSION, "15.0.0");
}

#[test]
fn counters_count_where_they_are_installed() {
    let mut c = client();
    let some = Estimated { bytes: 9, transfers: 2 };
    let none = c.counters();
    assert_eq!(none, Counters { bytes: None, estimate: None });
    c.charge(&none, Charge::Bytes(5), some);
    let estimates = c.add_counter(3);
    c.set_estimate_counter(estimates);
    let half = c.counters();
    c.charge(&half, Charge::EstimateStart, some);
    assert_eq!(c.bytes_counted(), None);
    assert_eq!(c.estimates_counted(), Some(3), "nothing is estimated without a byte counter");
    let bytes = c.add_counter(u64::MAX);
    c.set_bytes_counter(bytes);
    let both = c.counters();
    assert_eq!(both, Counters { bytes: Some(bytes), estimate: Some(estimates) });
    c.charge(&both, Charge::Bytes(5), some);
    assert_eq!(c.bytes_counted(), Some(4));
    c.charge(&both, Charge::Nothing, some);
    assert_eq!(c.bytes_counted(), Some(4));
    assert_eq!(c.estimates_counted(), Some(3));
    c.charge(&both, Charge::EstimateStart, some);
    assert_eq!(c.bytes_counted(), Some(13));
    assert_eq!(c.estimates_counted(), Some(5));
    c.charge(&both, Charge::EstimateChunk(7), Estimated { bytes: 7, transfers: 0 });
    assert_eq!(c.bytes_counted(), Some(20));
    c.charge(
        &both,
        Charge::EstimateComplete,
        Estimated { bytes: 1u64.wrapping_neg(), transfers: 2u64.wrapping_neg() },
    );
    assert_eq!(c.bytes_counted(), Some(19));
    assert_eq!(c.estimates_counted(), Some(3));
    c.charge(&both, Charge::Bytes(1), NONE);
    assert_eq!(c.bytes_counted(), Some(20));
    c.charge(&half, Charge::Bytes(1), NONE);
    assert_eq!(c.bytes_counted(), Some(20), "the call took no byte counter");
    c.charge(&Counters { bytes: Some(7), estimate: None }, Charge::Bytes(1), NONE);
    assert_eq!((c.counted_at(estimates), c.counted_at(bytes)), (3, 20));
    let same = Counters { bytes: Some(bytes), estimate: Some(bytes) };
    c.charge(&same, Charge::EstimateStart, some);
    assert_eq!(c.bytes_counted(), Some(31));
    assert!(!c.has_interceptor());
    c.set_interceptor();
    assert!(c.has_interceptor());
}

#[test]
fn fetches_charge_the_counters_they_took() {
    let mut c = client();
    let first = c.add_counter(0);
    c.set_bytes_counter(first);
    let to = redirecting(sending(&c, "http://a.test/x", facts(false, true)), "/y");
    let second = c.add_counter(100);
    c.set_bytes_counter(second);
    let turn = to.follow(Ok(()), Ok(()), false, 20);
    c.settle(true, &turn);
    assert_eq!(c.counted_at(first), 20, "the counter that the fetch took");
    assert_eq!(c.bytes_counted(), Some(100), "the counter that was installed since");
    let send = match turn.state {
        Fetch::Prepare(s) => match s.prepare(Ok(()), facts(false, true), &c).state {
            Fetch::Send(s) => s,
            _ => panic!("the request goes out"),
        },
        _ => panic!("the redirect is followed"),
    };
    match send.respond(200, &map(&[])).state {
        Fetch::Body(s) => {
            assert_eq!(s.counters(), Counters { bytes: Some(first), estimate: None });
            c.charge(&s.counters(), Charge::Bytes(30), NONE);
        }
        _ => panic!("the body is read"),
    }
    assert_eq!(c.counted_at(first), 50);
    assert_eq!(c.counted_at(second), 100);

    // A fetch that starts without a counter charges none.
    let mut c = client();
    let to = redirecting(sending(&c, "http://a.test/x", facts(false, true)), "/y");
    let late = c.add_counter(0);
    c.set_bytes_counter(late);
    let turn = to.follow(Ok(()), Ok(()), false, 20);
    c.settle(true, &turn);
    assert_eq!(c.bytes_counted(), Some(0));
}

#[test]
fn single_requests_charge_the_counters_at_their_answer() {
    let mut c = client();
    let at = url("http://a.test/");
    let start = c.send_single("GET", &at, &HeaderTable::new(), "", false, false, "", false);
    let first = c.add_counter(0);
    c.set_bytes_counter(first);
    let estimates = c.add_counter(0);
    c.set_estimate_counter(estimates);
    let answer = match start {
        SingleStart::Send(s) => s.respond(200, &map(&[("X-Name", b"1")]), &c),
        _ => panic!("the request goes out"),
    };
    let second = c.add_counter(0);
    c.set_bytes_counter(second);
    assert_eq!(
        answer.counters(),
        Counters { bytes: Some(first), estimate: Some(estimates) }
    );
    c.charge(&answer.counters(), Charge::Bytes(9), NONE);
    assert_eq!((c.counted_at(first), c.counted_at(second)), (9, 0));
    assert_eq!(answer.reply().headers.get("x-name"), Some("1"));
}

#[test]
fn requests_under_way_are_counted() {
    let mut c = client();
    assert!(c.is_network_idle());
    c.request_started();
    c.request_started();
    assert_eq!(c.active_requests(), 2);
    assert!(!c.is_network_idle());
    c.request_finished();
    c.request_finished();
    assert!(c.is_network_idle());
    c.count(false, true);
    c.count(true, true);
    assert_eq!(c.active_requests(), 1);
    c.count(true, false);
    c.count(false, false);
    assert_eq!(c.active_requests(), 0);
    c.request_finished();
    assert_eq!(c.active_requests(), u32::MAX, "the count goes modulo its width");
    c.request_started();
    assert!(c.is_network_idle());
}

#[test]
fn requests_are_counted_between_the_callbacks() {
    let mut c = client();
    c.set_interceptor();
    let bytes = c.add_counter(0);
    c.set_bytes_counter(bytes);
    c.count(false, true);
    let mut state = Fetch::Admit(c.fetch_with_callbacks(&url("http://a.test/x"), page(), true));
    let mut seen = Vec::new();
    let mut hops = 0;
    loop {
        let was = state.in_flight();
        seen.push((name(&state), c.active_requests()));
        let turn = match state {
            Fetch::Admit(s) => s.enter(Ok(()), Ok(()), false, &c),
            Fetch::Prepare(s) => s.prepare(Ok(()), facts(false, true), &c),
            Fetch::Intercept(s) => s.decide(InterceptAction::Continue, &mut c),
            Fetch::Announce(s) => {
                assert_eq!(s.info().url.href, "http://a.test/x");
                s.announced()
            }
            Fetch::Send(s) => {
                hops += 1;
                if hops == 1 {
                    s.respond(302, &map(&[("location", b"/y")]))
                } else {
                    s.respond(200, &map(&[]))
                }
            }
            Fetch::Resolve(s) => s.resolve(),
            Fetch::Redirect(s) => s.follow(Ok(()), Ok(()), false, 20),
            Fetch::Body(s) => s.complete(Ok(read(b"ok", 30, 100))),
            Fetch::Done { outcome, report } => {
                let response = outcome.unwrap();
                assert_eq!(response.transfer_bytes, 50);
                assert_eq!(response.url.href, "http://a.test/y");
                assert_eq!(report.unwrap().url.href, "http://a.test/y");
                break;
            }
            Fetch::File { .. } | Fetch::Cors(_) => panic!("neither a file nor shared"),
        };
        c.settle(was, &turn);
        state = turn.state;
    }
    assert_eq!(
        seen,
        [
            ("admit", 1),
            ("prepare", 1),
            ("intercept", 1),
            ("announce", 1),
            ("send", 2),
            ("resolve", 2),
            ("redirect", 2),
            ("prepare", 1),
            ("send", 2),
            ("body", 2),
            ("done", 1),
        ]
    );
    assert_eq!(c.bytes_counted(), Some(20), "the redirect is charged as it is followed");
}

fn name(state: &Fetch) -> &'static str {
    match state {
        Fetch::Admit(_) => "admit",
        Fetch::File { .. } => "file",
        Fetch::Prepare(_) => "prepare",
        Fetch::Intercept(_) => "intercept",
        Fetch::Announce(_) => "announce",
        Fetch::Send(_) => "send",
        Fetch::Cors(_) => "cors",
        Fetch::Resolve(_) => "resolve",
        Fetch::Redirect(_) => "redirect",
        Fetch::Body(_) => "body",
        Fetch::Done { .. } => "done",
    }
}

#[test]
fn failing_calls_leave_the_network_idle() {
    let mut c = client();
    let at = url("http://a.test/");
    let state = Fetch::Send(sending(&c, "http://a.test/", facts(false, true)));
    c.count(false, state.in_flight());
    let start = c.send_single("GET", &at, &HeaderTable::new(), "", false, false, "", false);
    c.count(false, start.in_flight());
    assert_eq!(c.active_requests(), 2);
    let refused = c.send_single("G T", &at, &HeaderTable::new(), "", false, false, "", false);
    c.count(false, refused.in_flight());
    assert_eq!(c.active_requests(), 2);
    let was = state.in_flight();
    let turn = match state {
        Fetch::Send(s) => s.fail("reset", "None"),
        _ => panic!("the request is sent"),
    };
    c.settle(was, &turn);
    assert_eq!(c.active_requests(), 1);
    let was = start.in_flight();
    match start {
        SingleStart::Send(s) => assert_eq!(text_of(s.fail("reset")), "network http://a.test/: reset"),
        _ => panic!("the request goes out"),
    }
    c.count(was, false);
    assert!(c.is_network_idle());
}

#[test]
fn extra_headers_are_replaced_and_extended() {
    let mut c = client();
    c.set_extra_headers(table(&[("a", "1"), ("b", "2")]));
    c.extend_extra_headers(&table(&[("b", "3")]));
    assert_eq!(c.extra_headers().get("a"), Some("1"));
    assert_eq!(c.extra_headers().get("b"), Some("3"));
    c.set_extra_headers(table(&[("c", "4")]));
    assert_eq!(c.extra_headers().len(), 1);
}

#[test]
fn refused_addresses_and_modes_end_the_fetch() {
    let c = client();
    let start = c.fetch(&url("http://a.test/"), page());
    assert_eq!(failure(start.enter(policy(), Ok(()), true, &c)), "policy no");
    let start = c.fetch(&url("http://a.test/"), page());
    assert_eq!(start.url().href, "http://a.test/");
    assert_eq!(failure(start.enter(Ok(()), policy(), true, &c)), "policy no");
    let start = c.fetch(&url("http://a.test/"), page());
    match start.enter(Ok(()), Ok(()), false, &c).state {
        Fetch::Prepare(s) => {
            assert!(!s.redirect_tainted());
            assert_eq!(failure(s.prepare(policy(), facts(false, true), &c)), "policy no");
        }
        _ => panic!("the request is prepared"),
    }
}

#[test]
fn files_are_read_and_blocked_hosts_answered() {
    let c = client();
    match c.fetch(&url("file:///etc/hosts"), page()).enter(Ok(()), Ok(()), true, &c).state {
        Fetch::File { url, limit } => {
            assert_eq!(url.href, "file:///etc/hosts");
            assert_eq!(limit, 100);
        }
        _ => panic!("the file is read"),
    }
    let turn = c.fetch(&url("http://tracker.test/x"), page()).enter(Ok(()), Ok(()), true, &c);
    assert!(!turn.state.in_flight());
    match turn.state {
        Fetch::Done { outcome: Ok(r), report: None } => {
            assert_eq!(r.status, 0);
            assert_eq!(r.url.href, "http://tracker.test/x");
            assert_eq!(r.headers.len(), 0);
            assert!(r.body.is_empty());
            assert!(r.redirected_from.is_empty());
            assert_eq!(r.transfer_bytes, 0);
        }
        _ => panic!("the host is blocked"),
    }
}

#[test]
fn interceptors_decide_on_first_requests() {
    let mut c = client();
    c.set_interceptor();
    c.set_extra_headers(table(&[("x-a", "1")]));
    let intercepting = |c: &StealthHttpClient| {
        let start = c.fetch_with_callbacks(&url("http://a.test/"), page(), true);
        let prepare = match start.enter(Ok(()), Ok(()), false, c).state {
            Fetch::Prepare(s) => s,
            _ => panic!("the request is prepared"),
        };
        match prepare.prepare(Ok(()), facts(false, true), c).state {
            Fetch::Intercept(s) => s,
            _ => panic!("the interceptor is asked"),
        }
    };
    let asked = intercepting(&c);
    assert_eq!(asked.info().method, "GET");
    assert_eq!(asked.info().url.href, "http://a.test/");
    assert_eq!(asked.info().headers.get("x-a"), Some("1"));
    assert_eq!(asked.info().resource_type, "Document");
    assert_eq!(failure(asked.decide(InterceptAction::Block, &mut c)), "blocked http://a.test/");

    let changed = intercepting(&c).decide(
        InterceptAction::ModifyHeaders(table(&[("x-a", "2"), ("x-b", "3")])),
        &mut c,
    );
    match changed.state {
        Fetch::Announce(s) => {
            assert_eq!(s.info().headers.get("x-a"), Some("1"));
            let s = match s.announced().state {
                Fetch::Send(s) => s,
                _ => panic!("the request goes out"),
            };
            assert!(s.fields().iter().any(|(n, v)| n == "x-a" && v == "1"));
            assert!(!s.fields().iter().any(|(n, _)| n == "x-b"));
        }
        _ => panic!("the request is announced"),
    }
    assert_eq!(c.extra_headers().get("x-a"), Some("2"));
    assert_eq!(c.extra_headers().get("x-b"), Some("3"));

    match intercepting(&c).decide(InterceptAction::Continue, &mut c).state {
        Fetch::Announce(s) => match s.announced().state {
            Fetch::Send(s) => assert!(s.fields().iter().any(|(n, v)| n == "x-a" && v == "2")),
            _ => panic!("the request goes out"),
        },
        _ => panic!("the request is announced"),
    }
}

#[test]
fn failed_sends_name_their_cause() {
    let c = client();
    let send = sending(&c, "http://a.test/", facts(false, true));
    assert_eq!(
        failure(send.fail("broken pipe", "Some(Pipe)")),
        "network http://a.test/: broken pipe (source: Some(Pipe))"
    );
}

#[test]
fn refused_sharing_stores_no_cookies() {
    let c = client();
    let headers = map(&[("set-cookie", b"a=1"), ("access-control-allow-origin", b"*")]);
    let turn = sending(&c, "http://a.test/", facts(true, true)).respond(200, &headers);
    assert!(turn.cookies.is_empty());
    match turn.state {
        Fetch::Cors(s) => {
            assert_eq!(s.url().href, "http://a.test/");
            assert_eq!(s.origin(), "https://page.test");
            assert_eq!(s.answer().allow_origin.as_deref(), Some("*"));
            assert_eq!(failure(s.judge(policy())), "policy no");
        }
        _ => panic!("the answer is judged"),
    }
    let turn = sending(&c, "http://a.test/", facts(true, true)).respond(200, &headers);
    match turn.state {
        Fetch::Cors(s) => {
            let turn = s.judge(Ok(()));
            assert_eq!(turn.cookies, vec!["a=1".to_string()]);
            assert!(matches!(turn.state, Fetch::Body(_)));
        }
        _ => panic!("the answer is judged"),
    }
    let twice = map(&[
        ("access-control-allow-origin", b"*"),
        ("access-control-allow-origin", b"*"),
    ]);
    assert_eq!(
        failure(sending(&c, "http://a.test/", facts(true, true)).respond(200, &twice)),
        "cors http://a.test/ returned multiple access-control-allow-origin headers"
    );
}

#[test]
fn cookies_are_stored_with_credentials_only() {
    let c = client();
    let headers = map(&[("set-cookie", b"a=1")]);
    let turn = sending(&c, "http://a.test/", facts(false, true)).respond(200, &headers);
    assert_eq!(turn.cookies, vec!["a=1".to_string()]);
    assert!(turn.state.in_flight());
    let turn = sending(&c, "http://a.test/", facts(false, false)).respond(200, &headers);
    assert!(turn.cookies.is_empty());
}

#[test]
fn unusable_redirects_fail() {
    let c = client();
    let odd = map(&[("location", &[0xff])]);
    assert_eq!(
        failure(sending(&c, "http://a.test/", facts(false, true)).respond(302, &odd)),
        "network Invalid redirect Location"
    );
    let broken = map(&[("location", b"http://[")]);
    match sending(&c, "http://a.test/", facts(false, true)).respond(302, &broken).state {
        Fetch::Resolve(s) => {
            assert_eq!(s.url().href, "http://a.test/");
            assert_eq!(s.reference(), "http://[");
            let text = failure(s.resolve());
            assert!(text.starts_with("network Invalid redirect URL: "));
            assert!(text.len() > "network Invalid redirect URL: ".len());
        }
        _ => panic!("the reference is resolved"),
    }
    match sending(&c, "http://a.test/", facts(false, true)).respond(302, &broken).state {
        Fetch::Resolve(s) => assert_eq!(
            failure(s.resolve_to(Err("no host".to_string()))),
            "network Invalid redirect URL: no host"
        ),
        _ => panic!("the reference is resolved"),
    }
    let bare = sending(&c, "http://a.test/", facts(false, true)).respond(302, &map(&[]));
    assert!(matches!(bare.state, Fetch::Body(_)));
    let answered = map(&[("location", b"/x")]);
    let plain = sending(&c, "http://a.test/", facts(false, true)).respond(200, &answered);
    assert!(matches!(plain.state, Fetch::Body(_)));
    assert!(status_redirects(300) && status_redirects(399));
    assert!(!status_redirects(299) && !status_redirects(400));
}

fn redirecting(send: stealth_http::fetch::Sending, to: &'static str) -> stealth_http::fetch::Redirecting {
    let mut headers = HeaderMap::new();
    headers.append("location", HeaderValue::from_static(to));
    match send.respond(302, &headers).state {
        Fetch::Resolve(s) => match s.resolve().state {
            Fetch::Redirect(s) => s,
            _ => panic!("the reference is an address"),
        },
        _ => panic!("the response redirects"),
    }
}

#[test]
fn redirect_targets_are_checked() {
    let c = client();
    let to = redirecting(sending(&c, "http://a.test/x", facts(false, true)), "/y");
    assert_eq!(to.from_url().href, "http://a.test/x");
    assert_eq!(to.to_url().href, "http://a.test/y");
    assert_eq!(to.headers().get("location"), Some("/y"));
    assert_eq!(to.transferred(), 0);
    assert_eq!(failure(to.follow(policy(), Ok(()), false, 9)), "policy no");
    let to = redirecting(sending(&c, "http://a.test/x", facts(false, true)), "/y");
    let full = match to.follow(Ok(()), Ok(()), false, u64::MAX).state {
        Fetch::Prepare(s) => match s.prepare(Ok(()), facts(false, true), &c).state {
            Fetch::Send(s) => redirecting(s, "/z"),
            _ => panic!("the request goes out"),
        },
        _ => panic!("the redirect is followed"),
    };
    assert_eq!(failure(full.follow(policy(), Ok(()), false, 9)), "policy no");
    let to = redirecting(sending(&c, "http://a.test/x", facts(false, true)), "/y");
    assert_eq!(failure(to.follow(Ok(()), policy(), false, 9)), "policy no");
}

#[test]
fn twentieth_redirect_is_not_followed() {
    let mut c = client();
    c.set_interceptor();
    let mut cors_free = sending(&client(), "http://a.test/0", facts(false, true));
    let mut sent = 1;
    let targets: [&'static str; 20] = [
        "/1", "/2", "/3", "/4", "/5", "/6", "/7", "/8", "/9", "/10", "/11", "/12", "/13", "/14",
        "/15", "/16", "/17", "/18", "/19", "/20",
    ];
    for (i, target) in targets.iter().enumerate() {
        let to = redirecting(cors_free, target);
        assert_eq!(to.transferred(), 10 * i as u64);
        let turn = to.follow(Ok(()), Ok(()), i == 3, 10);
        assert_eq!(turn.charge, 10);
        assert!(!turn.state.in_flight());
        match turn.state {
            Fetch::Prepare(s) => {
                assert_eq!(s.redirect_tainted(), i >= 3);
                match s.prepare(Ok(()), facts(false, true), &c).state {
                    Fetch::Send(s) => {
                        cors_free = s;
                        sent += 1;
                    }
                    _ => panic!("a redirect is neither intercepted nor announced"),
                }
            }
            Fetch::Done { outcome: Err(e), .. } => {
                assert_eq!(i, 19);
                assert_eq!(text_of(e), "redirects http://a.test/0");
                assert_eq!(sent, 20);
                sent = 0;
                break;
            }
            _ => panic!("the redirect is followed"),
        }
    }
    assert_eq!(sent, 0, "the chain has failed");
}

#[test]
fn complete_responses_are_reported() {
    let c = client();
    let headers = map(&[("etag", b"x")]);
    let send = sending(&c, "http://a.test/", facts(false, true));
    assert_eq!(send.url().href, "http://a.test/");
    match send.respond(404, &headers).state {
        Fetch::Body(s) => {
            assert_eq!(s.limit(), 100);
            assert_eq!(s.url().href, "http://a.test/");
            assert_eq!(s.transferred(), 0);
            match s.complete(Ok(read(b"gone", 30, 100))).state {
                Fetch::Done { outcome: Ok(r), report: Some(info) } => {
                    assert_eq!(r.status, 404);
                    assert_eq!(r.body, b"gone");
                    assert_eq!(r.headers.get("etag"), Some("x"));
                    assert_eq!(r.transfer_bytes, 30);
                    assert_eq!(info.url.href, "http://a.test/");
                }
                _ => panic!("the fetch is complete"),
            }
        }
        _ => panic!("the body is read"),
    }
    match sending(&c, "http://a.test/", facts(false, true)).respond(200, &headers).state {
        Fetch::Body(s) => assert_eq!(
            failure(s.complete(Err(ObscuraNetError::Network("cut".to_string())))),
            "network cut"
        ),
        _ => panic!("the body is read"),
    }
}

#[test]
fn single_requests_are_sent_once() {
    let mut c = client();
    c.set_extra_headers(table(&[("x-extra", "1")]));
    let none = HeaderTable::new();
    let at = url("http://a.test/api");
    let start = |method: &str, body: &str, blocked: bool| {
        c.send_single(method, &at, &none, body, true, true, "a=1", blocked)
    };
    match start("bad method", "", true) {
        SingleStart::Blocked(r) => assert_eq!(r.status, 0),
        _ => panic!("the host is blocked"),
    }
    match start("bad method", "", false) {
        SingleStart::Refused(e) => assert_eq!(
            text_of(e),
            "network invalid method 'bad method': invalid HTTP method"
        ),
        _ => panic!("the method is refused"),
    }
    assert!(matches!(start("", "", false), SingleStart::Refused(_)));
    assert!(matches!(start("PROPFIND-x!~", "", false), SingleStart::Send(_)));
    match start("PUT", "", false) {
        SingleStart::Send(s) => {
            assert_eq!(s.method(), "PUT");
            assert_eq!(s.body(), None);
            assert_eq!(s.url().href, "http://a.test/api");
            assert_eq!(s.fields().len(), 2);
            assert_eq!(text_of(s.fail("reset")), "network http://a.test/api: reset");
        }
        _ => panic!("the request goes out"),
    }
    match start("POST", "x", false) {
        SingleStart::Send(s) => {
            let headers = map(&[("set-cookie", b"b=2"), ("location", b"/elsewhere")]);
            let answer = s.respond(302, &headers, &c);
            assert_eq!(answer.reply().cookies, vec!["b=2".to_string()]);
            assert_eq!(answer.url().href, "http://a.test/api");
            let limit = answer.limit();
            assert_eq!(limit, SINGLE_BODY_LIMIT);
            let r: Response = answer.complete(Ok(read(b"moved", 77, limit))).unwrap();
            assert_eq!(r.status, 302);
            assert_eq!(r.url.href, "http://a.test/api");
            assert!(r.redirected_from.is_empty());
            assert_eq!(r.headers.get("location"), Some("/elsewhere"));
            assert_eq!(r.transfer_bytes, 77);
        }
        _ => panic!("the request goes out"),
    }
    assert_eq!(SINGLE_BODY_LIMIT, 64 * 1024 * 1024);
}

#[test]
fn single_bodies_beyond_the_limit_are_refused() {
    let c = client();
    let at = url("http://127.0.0.1:8080/big");
    let start = c.send_single("GET", &at, &HeaderTable::new(), "", false, false, "", false);
    let answer = match start {
        SingleStart::Send(s) => s.respond(200, &map(&[("content-length", b"67108865")]), &c),
        _ => panic!("the request goes out"),
    };
    let nothing = Stripped { encoding: None, length: None };
    let plan = |length: &'static [u8]| {
        plan_body(
            &map(&[("content-length", length)]),
            &nothing,
            None,
            answer.limit(),
            answer.url(),
        )
        .unwrap()
    };
    assert_eq!(
        text_of(plan(b"67108865").err().unwrap()),
        "large http://127.0.0.1:8080/big 67108864"
    );
    assert!(plan(b"67108864").is_ok());
}
