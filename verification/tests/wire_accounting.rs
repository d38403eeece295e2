use http::{HeaderMap, HeaderName, HeaderValue};
use stealth_http::address::WebUrl;
use stealth_http::body::{plan_body, Stripped};
use stealth_http::client::{CertStore, Counters, Estimated, StealthHttpClient};
use stealth_http::error::ObscuraNetError;
use stealth_http::fetch::{Fetch, InterceptAction};
use stealth_http::message::Response;
use stealth_http::reader::{BodyReader, Charge, ReadBody};
use stealth_http::request::{HopFacts, ResourceRequest};
use stealth_http::retry::{send_get_with_connection_reset_retry, SendOutcome, SendStep};
use stealth_http::single::SingleStart;
use stealth_http::table::HeaderTable;

const PLAIN_BODY: &str = "<!DOCTYPE html><html><body><p id=\"mark\">gzip ok</p></body></html>";

const GZIP_BODY: &[u8] = &[
    0x1f, 0x8b, 0x08, 0x00, 0x00, 0x00, 0x00, 0x00, 0x02, 0x03, 0xb3, 0x51, 0x74, 0xf1, 0x77, 0x0e,
    0x89, 0x0c, 0x70, 0x55, 0xc8, 0x28, 0xc9, 0xcd, 0xb1, 0xb3, 0x81, 0x90, 0x49, 0xf9, 0x29, 0x95,
    0x76, 0x36, 0x05, 0x0a, 0x99, 0x29, 0xb6, 0x4a, 0xb9, 0x89, 0x45, 0xd9, 0x4a, 0x76, 0xe9, 0x55,
    0x99, 0x05, 0x0a, 0xf9, 0xd9, 0x36, 0xfa, 0x05, 0x76, 0x36, 0xfa, 0x10, 0x69, 0x7d, 0xb0, 0x5a,
    0x00, 0x80, 0x3d, 0x1c, 0x5f, 0x41, 0x00, 0x00, 0x00,
];

fn head(status_line: &str, headers: &str) -> String {
    format!("{status_line}\r\n{headers}connection: close\r\n\r\n")
}

// The sum of name, value and four bytes per header.
fn header_sum(head: &str) -> u64 {
    head.lines()
        .filter(|line| line.contains(':'))
        .map(|line| {
            let (name, value) = line.split_once(':').unwrap();
            name.len() as u64 + value.trim().len() as u64 + 4
        })
        .sum()
}

fn fields(head: &str) -> Vec<(String, String)> {
    head.lines()
        .filter(|line| line.contains(':'))
        .map(|line| {
            let (name, value) = line.split_once(':').unwrap();
            (name.to_string(), value.trim().to_string())
        })
        .collect()
}

fn status(head: &str) -> u16 {
    head.split(' ').nth(1).unwrap().parse().unwrap()
}

// What the transport does with a response on the wire: it decodes gzip, and
// then keeps the two headers that describe the encoded body apart.
struct Served {
    head: String,
    chunks: Vec<(u64, Result<Vec<u8>, String>)>,
    received: u64,
}

fn plain(head: &str, body: &[u8]) -> Served {
    Served {
        head: head.to_string(),
        chunks: vec![(body.len() as u64, Ok(body.to_vec()))],
        received: body.len() as u64,
    }
}

fn gunzipped(head: &str, pieces: &[u64]) -> Served {
    let decoded = PLAIN_BODY.as_bytes();
    let mut chunks = Vec::new();
    let mut received = 0;
    for (i, piece) in pieces.iter().enumerate() {
        received += piece;
        let part = if i + 1 == pieces.len() { decoded.to_vec() } else { Vec::new() };
        chunks.push((received, Ok(part)));
    }
    Served { head: head.to_string(), chunks, received }
}

fn cut_short(head: &str, received: u64, decoded: &[u8]) -> Served {
    Served {
        head: head.to_string(),
        chunks: vec![
            (received, Ok(decoded.to_vec())),
            (received, Err("connection closed".to_string())),
        ],
        received,
    }
}

struct Transport {
    served: Vec<Served>,
    hits: usize,
}

fn navigation() -> ResourceRequest {
    ResourceRequest {
        navigate: true,
        mode: "navigate".to_string(),
        accept: "text/html".to_string(),
        destination: "document".to_string(),
        resource_type: "Document".to_string(),
        max_response_bytes: 64 * 1024 * 1024,
    }
}

fn font() -> ResourceRequest {
    ResourceRequest {
        navigate: false,
        mode: "cors".to_string(),
        accept: "*/*".to_string(),
        destination: "font".to_string(),
        resource_type: "Font".to_string(),
        max_response_bytes: 64 * 1024 * 1024,
    }
}

// An estimator that marks a transfer as estimated while it runs.
fn estimated(charge: Charge) -> Estimated {
    match charge {
        Charge::EstimateStart => Estimated { bytes: 40, transfers: 1 },
        Charge::EstimateChunk(n) => Estimated { bytes: n as u64, transfers: 0 },
        Charge::EstimateComplete => Estimated { bytes: 0, transfers: 1u64.wrapping_neg() },
        _ => Estimated { bytes: 1000, transfers: 1000 },
    }
}

fn charge(client: &mut StealthHttpClient, counters: &Counters, charge: Charge) {
    client.charge(counters, charge, estimated(charge));
}

fn read_body(
    client: &mut StealthHttpClient,
    counters: &Counters,
    served: &Served,
    headers: &HeaderMap,
    stripped: &Stripped,
    limit: usize,
    url: &WebUrl,
) -> Result<ReadBody, ObscuraNetError> {
    let plan = plan_body(headers, stripped, None, limit, url).unwrap()?;
    let mut reader = BodyReader::start(&plan, limit, url, true);
    charge(client, counters, reader.opening());
    for (received, chunk) in &served.chunks {
        let chunk = match chunk {
            Ok(bytes) => Ok(bytes.as_slice()),
            Err(e) => Err(e.as_str()),
        };
        let (due, taken) = reader.chunk(*received, chunk);
        charge(client, counters, due);
        taken?;
    }
    let (due, body) = reader.finish(served.received);
    charge(client, counters, due);
    Ok(body)
}

fn fetch(
    client: &mut StealthHttpClient,
    transport: &mut Transport,
    url: &str,
    request: ResourceRequest,
    cors: bool,
    fulfill: bool,
) -> Result<Response, ObscuraNetError> {
    let url = WebUrl::parse(url).unwrap();
    let mut state = Fetch::Admit(client.fetch_resource_with_callbacks(&url, request, false));
    let mut next: usize = 0;
    loop {
        let was = state.in_flight();
        let turn = match state {
            Fetch::Admit(s) => s.enter(Ok(()), Ok(()), false, client),
            Fetch::File { .. } => panic!("no file"),
            Fetch::Prepare(s) => {
                let facts = HopFacts {
                    fetch_site: "none".to_string(),
                    referrer: None,
                    origin: "http://127.0.0.1:1".to_string(),
                    credentials: !cors,
                    cookies: String::new(),
                    cors,
                };
                s.prepare(Ok(()), facts, client)
            }
            Fetch::Intercept(s) => {
                let action = if fulfill {
                    InterceptAction::Fulfill(Response {
                        url: s.info().url.clone(),
                        status: 200,
                        headers: HeaderTable::new(),
                        body: b"cached-body".to_vec(),
                        redirected_from: vec![],
                        transfer_bytes: 0,
                    })
                } else {
                    InterceptAction::Continue
                };
                s.decide(action, client)
            }
            Fetch::Announce(_) => panic!("no callbacks"),
            Fetch::Send(s) => {
                assert_eq!(client.active_requests(), 1);
                transport.hits += 1;
                let (code, headers, _) = wire_headers(&transport.served[next].head);
                s.respond(code, &headers)
            }
            Fetch::Cors(s) => {
                assert_eq!(s.answer().allow_origin.as_deref(), Some("*"));
                s.judge(Ok(()))
            }
            Fetch::Resolve(s) => s.resolve(),
            Fetch::Redirect(s) => {
                let mut hop: u64 = 0;
                for i in 0..s.headers().len() {
                    let (name, value) = s.headers().entry(i);
                    hop += name.len() as u64 + value.len() as u64 + 4;
                }
                next += 1;
                s.follow(Ok(()), Ok(()), false, hop)
            }
            Fetch::Body(s) => {
                let served = &transport.served[next];
                let (_, headers, removed) = wire_headers(&served.head);
                let stripped = Stripped {
                    encoding: removed.0.as_deref().map(str::as_bytes),
                    length: removed.1.as_deref().map(str::as_bytes),
                };
                let counters = s.counters();
                let body =
                    read_body(client, &counters, served, &headers, &stripped, s.limit(), s.url());
                s.complete(body)
            }
            Fetch::Done { outcome, .. } => {
                assert!(client.is_network_idle());
                return outcome;
            }
        };
        client.settle(was, &turn);
        state = turn.state;
    }
}

fn wire_headers(head: &str) -> (u16, HeaderMap, (Option<String>, Option<String>)) {
    let all = fields(head);
    let encoded = all.iter().any(|(name, _)| name == "content-encoding");
    let mut headers = HeaderMap::new();
    let mut encoding = None;
    let mut length = None;
    for (name, value) in all {
        if encoded && name == "content-encoding" {
            encoding = Some(value);
        } else if encoded && name == "content-length" {
            length = Some(value);
        } else {
            headers.append(
                HeaderName::from_bytes(name.as_bytes()).unwrap(),
                HeaderValue::from_str(&value).unwrap(),
            );
        }
    }
    (status(head), headers, (encoding, length))
}

fn client_with_counters() -> StealthHttpClient {
    let mut client = StealthHttpClient::new(CertStore::NotRequested);
    let bytes = client.add_counter(0);
    client.set_bytes_counter(bytes);
    let estimates = client.add_counter(0);
    client.set_estimate_counter(estimates);
    client
}

#[test]
fn uncompressed_complete_counts_exact_on_wire_bytes() {
    let body = "var x = 1;".repeat(50);
    let head = head(
        "HTTP/1.1 200 OK",
        &format!(
            "content-type: application/javascript\r\ncontent-length: {}\r\n",
            body.len()
        ),
    );
    let mut transport = Transport { served: vec![plain(&head, body.as_bytes())], hits: 0 };
    let mut client = client_with_counters();
    let resp = fetch(&mut client, &mut transport, "http://127.0.0.1:8080/app.js", navigation(), false, false).unwrap();
    assert_eq!(resp.body.len(), body.len());
    assert_eq!(client.bytes_counted(), Some(header_sum(&head) + body.len() as u64));
    assert_eq!(client.estimates_counted(), Some(0));
    assert_eq!(resp.transfer_bytes, header_sum(&head) + body.len() as u64);
}

#[test]
fn gzip_complete_charges_compressed_length_not_decoded() {
    let head = head(
        "HTTP/1.1 200 OK",
        &format!(
            "content-type: text/html\r\ncontent-encoding: gzip\r\ncontent-length: {}\r\n",
            GZIP_BODY.len()
        ),
    );
    let mut transport = Transport { served: vec![gunzipped(&head, &[GZIP_BODY.len() as u64])], hits: 0 };
    let mut client = client_with_counters();
    let resp = fetch(&mut client, &mut transport, "http://127.0.0.1:8080/", navigation(), false, false).unwrap();
    assert_eq!(resp.body, PLAIN_BODY.as_bytes(), "body is decoded for the parser");
    assert_eq!(
        client.bytes_counted(),
        Some(header_sum(&head) + GZIP_BODY.len() as u64),
        "compressed on-wire length charged, not the decoded length"
    );
    assert_eq!(client.estimates_counted(), Some(0));
}

#[test]
fn gzip_cut_short_counts_exact_partial_without_estimate() {
    let half = GZIP_BODY.len() / 2;
    let head = head(
        "HTTP/1.1 200 OK",
        &format!(
            "content-type: text/html\r\ncontent-encoding: gzip\r\ncontent-length: {}\r\n",
            GZIP_BODY.len()
        ),
    );
    let mut transport = Transport { served: vec![cut_short(&head, half as u64, b"<!DOCTYPE")], hits: 0 };
    let mut client = client_with_counters();
    let result = fetch(&mut client, &mut transport, "http://127.0.0.1:8080/", navigation(), false, false);
    assert!(result.is_err(), "truncated body must fail the fetch");
    assert_eq!(
        client.bytes_counted(),
        Some(header_sum(&head) + half as u64),
        "exact partial pre-decode count"
    );
    assert_eq!(client.estimates_counted(), Some(0));
}

#[test]
fn gzip_chunked_without_content_length_counts_exact_wire_bytes() {
    let head = head(
        "HTTP/1.1 200 OK",
        "content-type: text/html\r\ncontent-encoding: gzip\r\ntransfer-encoding: chunked\r\n",
    );
    let mut transport = Transport {
        served: vec![gunzipped(&head, &[20, GZIP_BODY.len() as u64 - 20])],
        hits: 0,
    };
    let mut client = client_with_counters();
    let resp = fetch(&mut client, &mut transport, "http://127.0.0.1:8080/", navigation(), false, false).unwrap();
    assert_eq!(resp.body, PLAIN_BODY.as_bytes());
    assert_eq!(
        client.bytes_counted(),
        Some(header_sum(&head) + GZIP_BODY.len() as u64),
        "exact compressed length even without Content-Length"
    );
    assert_eq!(client.estimates_counted(), Some(0));
}

#[test]
fn uncompressed_cut_short_counts_exact_partial() {
    let body = "x".repeat(1000);
    let head = head(
        "HTTP/1.1 200 OK",
        "content-type: text/plain\r\ncontent-length: 1000\r\n",
    );
    let mut transport = Transport { served: vec![cut_short(&head, 400, &body.as_bytes()[..400])], hits: 0 };
    let mut client = client_with_counters();
    let result = fetch(&mut client, &mut transport, "http://127.0.0.1:8080/", navigation(), false, false);
    assert!(result.is_err(), "truncated body must fail the fetch");
    assert_eq!(
        client.bytes_counted(),
        Some(header_sum(&head) + 400),
        "decoded == on-wire for uncompressed, so the partial is exact"
    );
    assert_eq!(client.estimates_counted(), Some(0));
}

#[test]
fn redirect_chain_charges_each_hop_once() {
    let redirect = head(
        "HTTP/1.1 302 Found",
        "location: /final.js\r\ncontent-length: 0\r\n",
    );
    let body = "var final = 1;";
    let final_head = head(
        "HTTP/1.1 200 OK",
        &format!(
            "content-type: application/javascript\r\ncontent-length: {}\r\n",
            body.len()
        ),
    );
    let mut transport = Transport {
        served: vec![plain(&redirect, b""), plain(&final_head, body.as_bytes())],
        hits: 0,
    };
    let mut client = client_with_counters();
    let resp = fetch(&mut client, &mut transport, "http://127.0.0.1:8080/app.js", navigation(), false, false).unwrap();
    assert_eq!(resp.body, body.as_bytes());
    assert_eq!(
        client.bytes_counted(),
        Some(header_sum(&redirect) + header_sum(&final_head) + body.len() as u64),
        "redirect hop headers + final hop headers and body"
    );
    assert_eq!(client.estimates_counted(), Some(0));
    assert_eq!(resp.url.href, "http://127.0.0.1:8080/final.js");
    assert_eq!(resp.redirected_from.len(), 1);
    assert_eq!(resp.redirected_from[0].href, "http://127.0.0.1:8080/app.js");
    assert_eq!(Some(resp.transfer_bytes), client.bytes_counted());
    assert_eq!(transport.hits, 2);
}

#[test]
fn fulfilled_from_cache_counts_zero_network_bytes() {
    let head = "HTTP/1.1 200 OK\r\ncontent-length: 2\r\nconnection: close\r\n\r\n";
    let mut transport = Transport { served: vec![plain(head, b"ok")], hits: 0 };
    let mut client = client_with_counters();
    client.set_interceptor();
    let resp = fetch(&mut client, &mut transport, "http://127.0.0.1:8080/app.js", navigation(), false, true).unwrap();
    assert_eq!(resp.body, b"cached-body");
    assert_eq!(client.bytes_counted(), Some(0));
    assert_eq!(client.estimates_counted(), Some(0));
    assert_eq!(transport.hits, 0, "origin must not be hit");
}

#[test]
fn cors_required_request_bypasses_url_keyed_cache() {
    let body = b"font-from-origin";
    let head = head(
        "HTTP/1.1 200 OK",
        &format!(
            "access-control-allow-origin: *\r\ncontent-type: font/woff2\r\ncontent-length: {}\r\n",
            body.len()
        ),
    );
    let mut transport = Transport { served: vec![plain(&head, body)], hits: 0 };
    let mut client = client_with_counters();
    client.set_interceptor();
    let resp = fetch(&mut client, &mut transport, "http://127.0.0.1:8080/font.woff2", font(), true, true).unwrap();
    assert_eq!(resp.body, body, "origin response, not the cache entry");
    assert_eq!(transport.hits, 1, "CORS request hit the network");
    assert_eq!(client.bytes_counted(), Some(header_sum(&head) + body.len() as u64));
}

#[test]
fn stealth_get_recovers_from_connection_reset() {
    let outcomes = [SendOutcome::Reset, SendOutcome::Answered];
    let mut send = send_get_with_connection_reset_retry(true);
    let mut attempt: usize = 0;
    while send.after(outcomes[attempt]) == SendStep::Resend {
        attempt += 1;
    }
    assert_eq!(outcomes[attempt], SendOutcome::Answered);
    assert_eq!(send.count(), 2);
}

#[test]
fn stealth_post_does_not_retry_connection_reset() {
    let client = client_with_counters();
    let url = WebUrl::parse("http://127.0.0.1:8080/").unwrap();
    let start = client.send_single(
        "POST",
        &url,
        &HeaderTable::new(),
        "payload",
        false,
        false,
        "",
        false,
    );
    let mut attempts = 0;
    let error = match start {
        SingleStart::Send(send) => {
            attempts += 1;
            assert_eq!(send.method(), "POST");
            assert_eq!(send.body(), Some("payload"));
            send.fail("connection reset")
        }
        _ => panic!("the request goes out"),
    };
    assert!(matches!(error, ObscuraNetError::Network(_)));
    assert_eq!(attempts, 1);
}
