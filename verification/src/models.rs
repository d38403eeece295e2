//! Models agree with the values that they stand for.

use vstd::prelude::*;
use crate::address::{url_models, url_result, WebUrl};
use crate::body::{opt_bytes, plan_result, BodyPlan};
use crate::chain::{DecisionModel, FetchModel};
use crate::client::ClientConfig;
use crate::cors::{answer_result, sharing_result, CorsAnswer};
use crate::error::{check_model, ErrorModel, ObscuraNetError};
use crate::fetch::{body_model, opt_info, Fetch, InterceptAction, Reply, Turn};
use crate::fields::{field_models, opt_text_result, opt_value, value_models};
use crate::message::{outcome_model, RequestInfo, Response};
use crate::reader::{chunk_model, ReadBody};
use crate::request::{HopFacts, ResourceRequest};
use crate::single::{SingleStart, StartModel};
use crate::text::{opt_text, text_pairs, texts};

verus! {

/// A text that may be missing is missing if and only if its string is, and else
/// it is the string's.
pub proof fn law_texts_are_their_strings(
    one: Option<String>,
    list: Seq<String>,
    pairs: Seq<(String, String)>,
    i: int,
)
    ensures
        one matches Some(s) ==> opt_text(one) == Some(s@),
        one is None ==> opt_text(one) is None,
        texts(list).len() == list.len(),
        0 <= i < list.len() ==> texts(list)[i] == list[i]@,
        text_pairs(pairs).len() == pairs.len(),
        0 <= i < pairs.len() ==> text_pairs(pairs)[i] == (pairs[i].0@, pairs[i].1@),
{
}

/// Values of header fields are modelled by their bytes.
pub proof fn law_values_are_their_bytes(
    one: Option<Vec<u8>>,
    slice: Option<&[u8]>,
    list: Seq<Vec<u8>>,
    fields: Seq<(String, Vec<u8>)>,
    i: int,
)
    ensures
        one matches Some(v) ==> opt_value(one) == Some(v@),
        one is None ==> opt_value(one) is None,
        slice matches Some(v) ==> opt_bytes(slice) == Some(v@),
        slice is None ==> opt_bytes(slice) is None,
        value_models(list).len() == list.len(),
        0 <= i < list.len() ==> value_models(list)[i] == list[i]@,
        field_models(fields).len() == fields.len(),
        0 <= i < fields.len() ==> field_models(fields)[i] == (fields[i].0@, fields[i].1@),
{
}

/// An address is modelled by its three texts.
pub proof fn law_addresses_are_their_texts(url: WebUrl, list: Seq<WebUrl>, i: int)
    ensures
        url@.href == url.href@,
        url@.scheme == url.scheme@,
        url.host matches Some(h) ==> url@.host == Some(h@),
        url.host is None ==> url@.host is None,
        url_models(list).len() == list.len(),
        0 <= i < list.len() ==> url_models(list)[i] == list[i]@,
{
}

/// An error is modelled by its kind and its text.
pub proof fn law_errors_are_their_texts(e: ObscuraNetError)
    ensures
        e matches ObscuraNetError::Cors(s) ==> e@ == ErrorModel::Cors(s@),
        e matches ObscuraNetError::Network(s) ==> e@ == ErrorModel::Network(s@),
        e matches ObscuraNetError::Blocked(s) ==> e@ == ErrorModel::Blocked(s@),
        e matches ObscuraNetError::TooManyRedirects(s) ==> e@ == ErrorModel::TooManyRedirects(s@),
        e matches ObscuraNetError::ResponseTooLarge { url, limit } ==> e@
            == (ErrorModel::ResponseTooLarge { url: url@, limit: limit as nat }),
        e matches ObscuraNetError::Policy(s) ==> e@ == ErrorModel::Policy(s@),
{
}

/// A result is modelled as a success or as its error, whichever it is.
pub proof fn law_results_are_what_they_are(
    check: Result<(), ObscuraNetError>,
    outcome: Result<Response, ObscuraNetError>,
    url: Result<WebUrl, String>,
    text: Result<Option<String>, ObscuraNetError>,
    answer: Result<CorsAnswer, ObscuraNetError>,
    left: Result<Option<CorsAnswer>, ObscuraNetError>,
    plan: Result<BodyPlan, ObscuraNetError>,
    body: Result<ReadBody, ObscuraNetError>,
    chunk: Result<&[u8], &str>,
)
    ensures
        check is Ok ==> check_model(check) is Ok,
        check matches Err(e) ==> (check_model(check) matches Err(m) && m == e@),
        outcome matches Ok(r) ==> (outcome_model(outcome) matches Ok(m) && m == r@),
        outcome matches Err(e) ==> (outcome_model(outcome) matches Err(m) && m == e@),
        url matches Ok(u) ==> (url_result(url) matches Ok(m) && m == u@),
        url matches Err(e) ==> (url_result(url) matches Err(m) && m == e@),
        text matches Ok(t) ==> (opt_text_result(text) matches Ok(m) && m == opt_text(t)),
        text matches Err(e) ==> (opt_text_result(text) matches Err(m) && m == e@),
        answer matches Ok(a) ==> (answer_result(answer) matches Ok(m) && m == a@),
        answer matches Err(e) ==> (answer_result(answer) matches Err(m) && m == e@),
        left matches Ok(Some(a)) ==> (sharing_result(left) matches Ok(m) && m == Some(a@)),
        left matches Ok(None) ==> (sharing_result(left) matches Ok(None)),
        left matches Err(e) ==> (sharing_result(left) matches Err(m) && m == e@),
        plan matches Ok(p) ==> (plan_result(plan) matches Ok(m) && m == p@),
        plan matches Err(e) ==> (plan_result(plan) matches Err(m) && m == e@),
        body matches Ok(b) ==> (body_model(body) matches Ok(m) && m == (b@.body, b@.wire)),
        body matches Err(e) ==> (body_model(body) matches Err(m) && m == e@),
        chunk matches Ok(b) ==> (chunk_model(chunk) matches Ok(m) && m == b@),
        chunk matches Err(e) ==> (chunk_model(chunk) matches Err(m) && m == e@),
{
}

/// What is asked for is modelled by its fields.
pub proof fn law_requests_are_their_fields(request: ResourceRequest, facts: HopFacts)
    ensures
        request@.navigate == request.navigate,
        request@.mode == request.mode@,
        request@.accept == request.accept@,
        request@.destination == request.destination@,
        request@.resource_type == request.resource_type@,
        request@.max_response_bytes == request.max_response_bytes,
        facts@.fetch_site == facts.fetch_site@,
        facts.referrer matches Some(r) ==> facts@.referrer == Some(r@),
        facts.referrer is None ==> facts@.referrer is None,
        facts@.origin == facts.origin@,
        facts@.credentials == facts.credentials,
        facts@.cookies == facts.cookies@,
        facts@.cors == facts.cors,
{
}

/// What is told and answered is modelled by its fields.
pub proof fn law_messages_are_their_fields(
    info: RequestInfo,
    response: Response,
    reply: Reply,
    answer: CorsAnswer,
    plan: BodyPlan,
    config: ClientConfig,
)
    ensures
        info@.url == info.url@,
        info@.method == info.method@,
        info@.headers == info.headers@,
        info@.resource_type == info.resource_type@,
        opt_info(Some(info)) == Some(info@),
        opt_info(None) is None,
        response@.url == response.url@,
        response@.status == response.status,
        response@.headers == response.headers@,
        response@.body == response.body@,
        response@.redirected_from == url_models(response.redirected_from@),
        response@.transfer_bytes == response.transfer_bytes,
        reply@.status == reply.status,
        reply@.cookies == texts(reply.cookies@),
        reply@.headers == reply.headers@,
        reply@.location == opt_value(reply.location),
        answer@.allow_origin == opt_text(answer.allow_origin),
        answer@.allow_credentials == opt_text(answer.allow_credentials),
        plan@.header_bytes == plan.header_bytes,
        plan@.content_length == plan.content_length,
        plan@.content_encoding == opt_text(plan.content_encoding),
        plan@.capacity == plan.capacity,
        config@.profile == config.profile,
        config@.platform == config.platform,
        config@.timeout_secs == config.timeout_secs,
        config@.follows_redirects == config.follows_redirects,
        config@.custom_roots == config.custom_roots,
        config@.proxy == opt_text(config.proxy),
{
}

/// What the interceptor decides is modelled as it decides it.
pub proof fn law_decisions_are_as_made(action: InterceptAction)
    ensures
        action is Continue ==> action@ is Continue,
        action is Block ==> action@ is Block,
        action matches InterceptAction::Fulfill(r) ==> action@ == DecisionModel::Fulfill(r@),
        action matches InterceptAction::ModifyHeaders(h) ==> action@ == DecisionModel::ModifyHeaders(
            h@,
        ),
{
}

/// A state, a step and a start are modelled as what they are.
pub proof fn law_states_are_as_they_are(state: Fetch, step: Turn, start: SingleStart)
    ensures
        state matches Fetch::Admit(s) ==> state@ == (FetchModel::Admit { chain: s@ }),
        state matches Fetch::File { url, limit } ==> state@ == (FetchModel::File {
            url: url@,
            limit: limit as nat,
        }),
        state matches Fetch::Prepare(s) ==> state@ == (FetchModel::Prepare { chain: s@ }),
        state matches Fetch::Intercept(s) ==> state@ == (FetchModel::Intercept {
            chain: s@.0,
            hop: s@.1,
        }),
        state matches Fetch::Announce(s) ==> state@ == (FetchModel::Announce {
            chain: s@.0,
            hop: s@.1,
        }),
        state matches Fetch::Send(s) ==> state@ == (FetchModel::Send { chain: s@.0, hop: s@.1 }),
        state matches Fetch::Cors(s) ==> state@ == (FetchModel::Cors {
            chain: s@.0,
            hop: s@.1,
            reply: s@.2,
            answer: s@.3,
        }),
        state matches Fetch::Resolve(s) ==> state@ == (FetchModel::Resolve {
            chain: s@.0,
            reply: s@.1,
            reference: s@.2,
        }),
        state matches Fetch::Redirect(s) ==> state@ == (FetchModel::Redirect {
            chain: s@.0,
            reply: s@.1,
            next: s@.2,
        }),
        state matches Fetch::Body(s) ==> state@ == (FetchModel::Body {
            chain: s@.0,
            hop: s@.1,
            reply: s@.2,
        }),
        state matches Fetch::Done { outcome, report } ==> state@ == (FetchModel::Done {
            outcome: outcome_model(outcome),
            report: opt_info(report),
        }),
        step@.cookies == texts(step.cookies@),
        step@.charge == step.charge,
        step@.counters == step.counters,
        step@.state == step.state@,
        start matches SingleStart::Blocked(r) ==> start@ == StartModel::Blocked(r@),
        start matches SingleStart::Refused(e) ==> start@ == StartModel::Refused(e@),
        start matches SingleStart::Send(s) ==> start@ == StartModel::Send(s@),
{
}

} // verus!
