//! A single request for a script: sent once, no redirect followed.

use vstd::prelude::*;
use vstd::string::*;
use http::HeaderMap;
use crate::address::{UrlModel, WebUrl};
use crate::chain::{reply_of, ReplyModel};
use crate::client::{knows, Counters, StealthHttpClient};
use crate::error::{ErrorModel, ObscuraNetError};
use crate::fetch::{body_model, read_reply, Reply};
use crate::fields::{header_fields, lower_case_names};
use crate::message::{blocked_model, blocked_response, outcome_model, Response, ResponseModel};
use crate::reader::ReadBody;
use crate::request::{build_single_fields, single_fields, FieldModel};
use crate::table::HeaderTable;
use crate::text::{is_token, opt_text, text_pairs};

verus! {

/// The longest body that a single request accepts.
pub const SINGLE_BODY_LIMIT: usize = 67108864;

/// Calls `<http::Method as FromStr>::from_str` and `as_str`: a method is one or
/// more token characters and keeps its text; anything else is an error with a
/// fixed text.
#[verifier::external_body]
fn method_from_str(text: &str) -> (method: Result<String, String>)
    ensures
        method is Ok <==> is_token(text@),
        method is Ok ==> method->Ok_0@ == text@,
        method is Err ==> method->Err_0@ == "invalid HTTP method"@,
{
    match text.parse::<http::Method>() {
        Ok(m) => Ok(m.as_str().to_owned()),
        Err(e) => Err(e.to_string()),
    }
}

/// A single request that is to be sent.
pub struct SingleSend {
    url: WebUrl,
    method: String,
    fields: Vec<(String, String)>,
    body: Option<String>,
    store_cookies: bool,
}

/// A single request by its texts.
pub struct SingleModel {
    pub url: UrlModel,
    pub method: Seq<char>,
    pub fields: Seq<FieldModel>,
    pub body: Option<Seq<char>>,
    pub store_cookies: bool,
}

impl View for SingleSend {
    type V = SingleModel;

    closed spec fn view(&self) -> SingleModel {
        SingleModel {
            url: self.url@,
            method: self.method@,
            fields: text_pairs(self.fields@),
            body: opt_text(self.body),
            store_cookies: self.store_cookies,
        }
    }
}

/// How a single request starts.
pub enum SingleStart {
    /// It is answered without the network, since the host is blocked.
    Blocked(Response),
    /// It fails, since its method is none.
    Refused(ObscuraNetError),
    /// It is to be sent.
    Send(SingleSend),
}

/// The start of a single request by its models.
pub enum StartModel {
    Blocked(ResponseModel),
    Refused(ErrorModel),
    Send(SingleModel),
}

impl View for SingleStart {
    type V = StartModel;

    open spec fn view(&self) -> StartModel {
        match *self {
            SingleStart::Blocked(r) => StartModel::Blocked(r@),
            SingleStart::Refused(e) => StartModel::Refused(e@),
            SingleStart::Send(s) => StartModel::Send(s@),
        }
    }
}

/// How a single request starts: a blocked host is answered before anything
/// else is looked at, and an empty body is none.
pub open spec fn start_model(
    method: Seq<char>,
    url: UrlModel,
    fields: Seq<FieldModel>,
    body: Seq<char>,
    store_cookies: bool,
    host_blocked: bool,
) -> StartModel {
    if url.host is Some && host_blocked {
        StartModel::Blocked(blocked_model(url))
    } else if !is_token(method) {
        StartModel::Refused(
            ErrorModel::Network(
                "invalid method '"@ + method + "': "@ + "invalid HTTP method"@,
            ),
        )
    } else {
        StartModel::Send(
            SingleModel {
                url,
                method,
                fields,
                body: if body.len() > 0 {
                    Some(body)
                } else {
                    None
                },
                store_cookies,
            },
        )
    }
}

/// The response to a single request: the address that was asked for, whatever
/// it answers.
pub open spec fn single_outcome(
    url: UrlModel,
    reply: ReplyModel,
    body: Result<(Seq<u8>, nat), ErrorModel>,
) -> Result<ResponseModel, ErrorModel> {
    match body {
        Err(e) => Err(e),
        Ok((bytes, wire)) => Ok(
            ResponseModel {
                url,
                status: reply.status,
                headers: reply.headers,
                body: bytes,
                redirected_from: Seq::empty(),
                transfer_bytes: wire,
            },
        ),
    }
}

impl SingleStart {
    /// Whether the request is under way: it is where it is to be sent.
    pub fn in_flight(&self) -> (under_way: bool)
        ensures
            under_way == (self@ is Send),
    {
        match self {
            SingleStart::Send(_) => true,
            _ => false,
        }
    }
}

impl StealthHttpClient {
    /// Starts a single request. `cookies` are those stored for the address,
    /// and `host_blocked` says that the block list names its host.
    pub fn send_single(
        &self,
        method: &str,
        url: &WebUrl,
        headers: &HeaderTable,
        body: &str,
        send_cookies: bool,
        store_cookies: bool,
        cookies: &str,
        host_blocked: bool,
    ) -> (start: SingleStart)
        ensures
            start@ == start_model(
                method@,
                url@,
                single_fields(send_cookies, cookies@, self@.extra_fields, headers.entries()),
                body@,
                store_cookies,
                host_blocked,
            ),
    {
        if url.host.is_some() && host_blocked {
            return SingleStart::Blocked(blocked_response(url.clone()));
        }
        let method = match method_from_str(method) {
            Ok(m) => m,
            Err(e) => {
                let mut text = "invalid method '".to_owned();
                text.append(method);
                text.append("': ");
                text.append(e.as_str());
                return SingleStart::Refused(ObscuraNetError::Network(text));
            },
        };
        let fields = build_single_fields(send_cookies, cookies, self.extra_headers(), headers);
        let body = if body.is_empty() {
            None
        } else {
            Some(body.to_owned())
        };
        SingleStart::Send(SingleSend { url: url.clone(), method, fields, body, store_cookies })
    }
}

impl SingleSend {
    /// The address of the request.
    pub fn url(&self) -> (url: &WebUrl)
        ensures
            url@ == self@.url,
    {
        &self.url
    }

    /// The method of the request.
    pub fn method(&self) -> (method: &str)
        ensures
            method@ == self@.method,
    {
        self.method.as_str()
    }

    /// The header fields of the request, in order.
    pub fn fields(&self) -> (fields: &Vec<(String, String)>)
        ensures
            text_pairs(fields@) == self@.fields,
    {
        &self.fields
    }

    /// The body of the request, if it has one.
    pub fn body(&self) -> (body: Option<&str>)
        ensures
            match body {
                Some(b) => self@.body == Some(b@),
                None => self@.body is None,
            },
    {
        match &self.body {
            Some(b) => Some(b.as_str()),
            None => None,
        }
    }

    /// The request could not be sent. It is not sent again.
    pub fn fail(self, error: &str) -> (e: ObscuraNetError)
        ensures
            e@ == ErrorModel::Network(self@.url.href + ": "@ + error@),
    {
        let mut text = self.url.href;
        text.append(": ");
        text.append(error);
        ObscuraNetError::Network(text)
    }

    /// The server has answered. The body is to be read and charged to the
    /// counters that are installed now, and the cookies of the reply are to be
    /// stored. The names of the header fields are kept in lower case.
    pub fn respond(
        self,
        status: u16,
        headers: &HeaderMap,
        client: &StealthHttpClient,
    ) -> (answer: SingleAnswer)
        ensures
            answer@ == (AnsweredModel {
                url: self@.url,
                reply: reply_of(self@.store_cookies, status, header_fields(*headers)),
                counters: client@.counters,
            }),
            lower_case_names(answer@.reply.headers),
            knows(client@, client@.counters),
    {
        let reply = read_reply(self.store_cookies, status, headers);
        self.respond_with(reply, client)
    }

    /// The response was read.
    pub fn respond_with(self, reply: Reply, client: &StealthHttpClient) -> (answer: SingleAnswer)
        ensures
            answer@ == (AnsweredModel {
                url: self@.url,
                reply: reply@,
                counters: client@.counters,
            }),
            knows(client@, client@.counters),
    {
        SingleAnswer { url: self.url, reply, counters: client.counters() }
    }
}

/// The answer to a single request, its body still to be read.
pub struct SingleAnswer {
    url: WebUrl,
    reply: Reply,
    counters: Counters,
}

/// The answer to a single request by its models.
pub struct AnsweredModel {
    pub url: UrlModel,
    pub reply: ReplyModel,
    /// The counters that the body is charged to.
    pub counters: Counters,
}

impl View for SingleAnswer {
    type V = AnsweredModel;

    closed spec fn view(&self) -> AnsweredModel {
        AnsweredModel { url: self.url@, reply: self.reply@, counters: self.counters }
    }
}

impl SingleAnswer {
    /// What was read of the response.
    pub fn reply(&self) -> (reply: &Reply)
        ensures
            reply@ == self@.reply,
    {
        &self.reply
    }

    /// The address that answered.
    pub fn url(&self) -> (url: &WebUrl)
        ensures
            url@ == self@.url,
    {
        &self.url
    }

    /// The counters that the body is charged to.
    pub fn counters(&self) -> (counters: Counters)
        ensures
            counters == self@.counters,
    {
        self.counters
    }

    /// The longest body that is accepted.
    pub fn limit(&self) -> (limit: usize)
        ensures
            limit == SINGLE_BODY_LIMIT,
    {
        SINGLE_BODY_LIMIT
    }

    /// The body was read, with what the response took on the wire.
    pub fn complete(self, body: Result<ReadBody, ObscuraNetError>) -> (outcome: Result<
        Response,
        ObscuraNetError,
    >)
        requires
            body is Ok ==> body->Ok_0@.limit == SINGLE_BODY_LIMIT,
        ensures
            outcome_model(outcome) == single_outcome(self@.url, self@.reply, body_model(body)),
            outcome is Ok ==> outcome->Ok_0.body@.len() <= SINGLE_BODY_LIMIT,
    {
        match body {
            Err(e) => Err(e),
            Ok(read) => {
                let (bytes, wire) = read.into_parts();
                let response = Response {
                    url: self.url,
                    status: self.reply.status,
                    headers: self.reply.headers,
                    body: bytes,
                    redirected_from: Vec::new(),
                    transfer_bytes: wire,
                };
                assert(response@.redirected_from =~= Seq::empty());
                Ok(response)
            },
        }
    }
}

/// A single request goes out if and only if its host is not blocked and its
/// method is a token, and it goes out as it was given: to its address, with its
/// method, its fields and its body, which is none if and only if it is empty. A
/// blocked host is answered without the network, whatever the method, and a
/// method that is no token is refused by its name.
pub proof fn law_single_requests_go_out_as_given(
    method: Seq<char>,
    url: UrlModel,
    fields: Seq<FieldModel>,
    body: Seq<char>,
    store_cookies: bool,
    host_blocked: bool,
)
    ensures
        ({
            let start = start_model(method, url, fields, body, store_cookies, host_blocked);
            let blocked = url.host is Some && host_blocked;
            &&& start is Send <==> !blocked && is_token(method)
            &&& start matches StartModel::Send(send) ==> {
                &&& send.url == url
                &&& send.method == method
                &&& send.fields == fields
                &&& send.store_cookies == store_cookies
                &&& body.len() == 0 ==> send.body is None
                &&& body.len() > 0 ==> send.body == Some(body)
            }
            &&& start is Blocked <==> blocked
            &&& start matches StartModel::Blocked(response) ==> response.url == url
                && response.status == 0 && response.body.len() == 0
            &&& start matches StartModel::Refused(e) ==> e == ErrorModel::Network(
                "invalid method '"@ + method + "': "@ + "invalid HTTP method"@,
            )
        }),
{
}

/// The method decides on nothing but itself: two requests that differ in their
/// methods alone, both of them tokens, go out with the same address, fields and
/// body, or are answered alike.
pub proof fn law_methods_change_nothing_else(
    a: Seq<char>,
    b: Seq<char>,
    url: UrlModel,
    fields: Seq<FieldModel>,
    body: Seq<char>,
    store_cookies: bool,
    host_blocked: bool,
)
    requires
        is_token(a),
        is_token(b),
    ensures
        match (
            start_model(a, url, fields, body, store_cookies, host_blocked),
            start_model(b, url, fields, body, store_cookies, host_blocked),
        ) {
            (StartModel::Send(one), StartModel::Send(two)) => two == (SingleModel {
                method: b,
                ..one
            }) && one.method == a,
            (one, two) => one == two && !(one is Send),
        },
{
}

/// The response to a single request is the server's answer: its status, its
/// header fields and its body, whatever the status is, from the address that was
/// asked for and no other. A body that could not be read fails the request with
/// its error.
pub proof fn law_single_responses_are_the_servers_answer(
    url: UrlModel,
    reply: ReplyModel,
    body: Result<(Seq<u8>, nat), ErrorModel>,
)
    ensures
        single_outcome(url, reply, body) is Ok <==> body is Ok,
        single_outcome(url, reply, body) matches Ok(response) ==> {
            &&& response.url == url
            &&& response.status == reply.status
            &&& response.headers == reply.headers
            &&& response.body == body->Ok_0.0
            &&& response.transfer_bytes == body->Ok_0.1
            &&& response.redirected_from.len() == 0
        },
        body is Err ==> single_outcome(url, reply, body) == Err::<ResponseModel, ErrorModel>(
            body->Err_0,
        ),
        SINGLE_BODY_LIMIT == 64 * 1024 * 1024,
{
}

} // verus!
