//! Requests and responses as the callers of the client see them.

use vstd::prelude::*;
use crate::address::{url_models, UrlModel, WebUrl};
use crate::error::{ErrorModel, ObscuraNetError};
use crate::table::HeaderTable;

verus! {

/// What an interceptor and the request callback are told of a request.
pub struct RequestInfo {
    pub url: WebUrl,
    pub method: String,
    pub headers: HeaderTable,
    pub resource_type: String,
}

/// A request by its texts.
pub struct InfoModel {
    pub url: UrlModel,
    pub method: Seq<char>,
    pub headers: Map<Seq<char>, Seq<char>>,
    pub resource_type: Seq<char>,
}

impl View for RequestInfo {
    type V = InfoModel;

    open spec fn view(&self) -> InfoModel {
        InfoModel {
            url: self.url@,
            method: self.method@,
            headers: self.headers@,
            resource_type: self.resource_type@,
        }
    }
}

impl Clone for RequestInfo {
    fn clone(&self) -> (copy: RequestInfo)
        ensures
            copy@ == self@,
    {
        RequestInfo {
            url: self.url.clone(),
            method: self.method.clone(),
            headers: self.headers.clone(),
            resource_type: self.resource_type.clone(),
        }
    }
}

/// A response.
pub struct Response {
    pub url: WebUrl,
    pub status: u16,
    pub headers: HeaderTable,
    pub body: Vec<u8>,
    /// The addresses that redirected here, in order.
    pub redirected_from: Vec<WebUrl>,
    /// Bytes received on the wire for the response and the redirects before it.
    pub transfer_bytes: u64,
}

/// A response by its texts and bytes.
pub struct ResponseModel {
    pub url: UrlModel,
    pub status: u16,
    pub headers: Map<Seq<char>, Seq<char>>,
    pub body: Seq<u8>,
    pub redirected_from: Seq<UrlModel>,
    pub transfer_bytes: nat,
}

impl View for Response {
    type V = ResponseModel;

    open spec fn view(&self) -> ResponseModel {
        ResponseModel {
            url: self.url@,
            status: self.status,
            headers: self.headers@,
            body: self.body@,
            redirected_from: url_models(self.redirected_from@),
            transfer_bytes: self.transfer_bytes as nat,
        }
    }
}

/// A response or an error, by their models.
pub open spec fn outcome_model(outcome: Result<Response, ObscuraNetError>) -> Result<
    ResponseModel,
    ErrorModel,
> {
    match outcome {
        Ok(r) => Ok(r@),
        Err(e) => Err(e@),
    }
}

/// The answer to a request for a blocked host: status 0 and nothing else.
pub open spec fn blocked_model(url: UrlModel) -> ResponseModel {
    ResponseModel {
        url,
        status: 0,
        headers: Map::empty(),
        body: Seq::empty(),
        redirected_from: Seq::empty(),
        transfer_bytes: 0,
    }
}

/// Answers a request for a blocked host.
pub fn blocked_response(url: WebUrl) -> (response: Response)
    ensures
        response@ == blocked_model(url@),
{
    let response = Response {
        url,
        status: 0,
        headers: HeaderTable::new(),
        body: Vec::new(),
        redirected_from: Vec::new(),
        transfer_bytes: 0,
    };
    assert(url_models(response.redirected_from@) =~= Seq::empty());
    response
}

/// The statuses that may redirect.
pub open spec fn is_redirection(status: u16) -> bool {
    300 <= status < 400
}

/// Whether a status may redirect.
pub fn status_redirects(status: u16) -> (redirects: bool)
    ensures
        redirects == is_redirection(status),
{
    300 <= status && status < 400
}

/// The answer for a blocked host is its address and nothing else: no status, no
/// header, no byte of a body, no redirect, nothing on the wire.
pub proof fn law_blocked_answers_are_empty(url: UrlModel, name: Seq<char>)
    ensures
        ({
            let response = blocked_model(url);
            &&& response.url == url
            &&& response.status == 0
            &&& !response.headers.contains_key(name)
            &&& response.body.len() == 0
            &&& response.redirected_from.len() == 0
            &&& response.transfer_bytes == 0
        }),
{
}

/// The statuses that may redirect are those whose first of three digits is a
/// three.
pub proof fn law_redirections_begin_with_three(status: u16)
    ensures
        is_redirection(status) <==> status / 100 == 3,
{
}

} // verus!
