//! A fetch: a chain of requests that follows redirects. Each state of a fetch
//! is a type of its own, with one method for each thing that can happen in it;
//! whoever drives the fetch does what the state asks for and calls the method.

use vstd::prelude::*;
use vstd::string::*;
use http::HeaderMap;
use crate::address::{joined_url, url_models, url_of_parts, url_result, UrlModel, WebUrl};
use crate::chain;
use crate::chain::{
    accepted, admitted, answered, completed, failed, hop_of, intercepted, is_in_flight, judged, new_chain,
    next_hop, prepared, quiet, redirected, reply_in, reply_of, resolved, responded, send_failure, sending,
    ChainModel, DecisionModel, FetchEvent, FetchModel, HopModel, ReplyModel, TurnModel, MAX_HOPS,
};
use crate::client::{
    added_at, counted, knows, lemma_nothing_added, ClientModel, Counters, Estimated, StealthHttpClient,
};
use crate::cors::{sharing_result, validate_wreq_cors_response, AnswerModel, CorsAnswer};
use crate::error::{check_model, ErrorModel, ObscuraNetError};
use crate::fields::{
    cookies_to_store, first_header, header_fields, lemma_known_names, lower_case_names, opt_value,
    response_headers,
};
use crate::message::{
    blocked_response, outcome_model, status_redirects, InfoModel, RequestInfo, Response,
};
use crate::reader::{Charge, ReadBody};
use crate::request::{build_hop_fields, HopFacts, ResourceRequest};
use crate::table::{collected, distinct_names, HeaderTable};
use crate::text::{field_value_text, same_text, text_pairs, texts};

verus! {

struct Chain {
    request: ResourceRequest,
    callbacks: bool,
    first: WebUrl,
    current: WebUrl,
    redirects: Vec<WebUrl>,
    transfer: u64,
    tainted: bool,
    announced: bool,
    begun: usize,
    counters: Counters,
}

impl View for Chain {
    type V = ChainModel;

    closed spec fn view(&self) -> ChainModel {
        ChainModel {
            request: self.request@,
            callbacks: self.callbacks,
            first: self.first@,
            current: self.current@,
            redirects: url_models(self.redirects@),
            transfer: self.transfer as nat,
            tainted: self.tainted,
            announced: self.announced,
            begun: self.begun as nat,
            counters: self.counters,
        }
    }
}

struct Hop {
    cors: bool,
    credentials: bool,
    origin: String,
    info: RequestInfo,
    fields: Vec<(String, String)>,
}

impl View for Hop {
    type V = HopModel;

    closed spec fn view(&self) -> HopModel {
        HopModel {
            cors: self.cors,
            credentials: self.credentials,
            origin: self.origin@,
            info: self.info@,
            fields: text_pairs(self.fields@),
        }
    }
}

/// What a fetch needs of a response.
pub struct Reply {
    pub status: u16,
    /// The cookies to store.
    pub cookies: Vec<String>,
    pub headers: HeaderTable,
    /// The value of `location`.
    pub location: Option<Vec<u8>>,
}

impl View for Reply {
    type V = ReplyModel;

    open spec fn view(&self) -> ReplyModel {
        ReplyModel {
            status: self.status,
            cookies: texts(self.cookies@),
            headers: self.headers@,
            location: opt_value(self.location),
        }
    }
}

/// The address, the request mode and the host are to be checked.
pub struct Admitting {
    chain: Chain,
}

/// The facts of the next request are to be gathered.
pub struct Preparing {
    chain: Chain,
}

/// The interceptor is to be asked.
pub struct Intercepting {
    chain: Chain,
    hop: Hop,
}

/// The request callback is to be called.
pub struct Announcing {
    chain: Chain,
    hop: Hop,
}

/// The request is to be sent.
pub struct Sending {
    chain: Chain,
    hop: Hop,
}

/// The server's answer on the sharing is to be judged.
pub struct JudgingCors {
    chain: Chain,
    hop: Hop,
    reply: Reply,
    answer: CorsAnswer,
}

/// The reference of a redirect is to be resolved.
pub struct Resolving {
    chain: Chain,
    reply: Reply,
    reference: String,
}

/// The address of a redirect is to be checked.
pub struct Redirecting {
    chain: Chain,
    reply: Reply,
    next: WebUrl,
}

/// The body is to be read.
pub struct ReadingBody {
    chain: Chain,
    hop: Hop,
    reply: Reply,
}

/// The state of a fetch.
pub enum Fetch {
    Admit(Admitting),
    /// The address is a file that is to be read, and the fetch is over.
    File { url: WebUrl, limit: usize },
    Prepare(Preparing),
    Intercept(Intercepting),
    Announce(Announcing),
    Send(Sending),
    Cors(JudgingCors),
    Resolve(Resolving),
    Redirect(Redirecting),
    Body(ReadingBody),
    /// The fetch is over; the response callback is told of `report`.
    Done { outcome: Result<Response, ObscuraNetError>, report: Option<RequestInfo> },
}

/// A step of a fetch: cookies to store, bytes to charge and to which counters,
/// and the next state.
pub struct Turn {
    pub cookies: Vec<String>,
    pub charge: u64,
    pub counters: Counters,
    pub state: Fetch,
}

/// What the interceptor decides.
pub enum InterceptAction {
    /// The request goes out.
    Continue,
    /// The request fails.
    Block,
    /// The request is answered without the network.
    Fulfill(Response),
    /// The request goes out, and the requests after it carry these headers.
    ModifyHeaders(HeaderTable),
}

impl View for InterceptAction {
    type V = DecisionModel;

    open spec fn view(&self) -> DecisionModel {
        match *self {
            InterceptAction::Continue => DecisionModel::Continue,
            InterceptAction::Block => DecisionModel::Block,
            InterceptAction::Fulfill(r) => DecisionModel::Fulfill(r@),
            InterceptAction::ModifyHeaders(h) => DecisionModel::ModifyHeaders(h@),
        }
    }
}

impl View for Admitting {
    type V = ChainModel;

    closed spec fn view(&self) -> ChainModel {
        self.chain@
    }
}

impl View for Preparing {
    type V = ChainModel;

    closed spec fn view(&self) -> ChainModel {
        self.chain@
    }
}

impl View for Intercepting {
    type V = (ChainModel, HopModel);

    closed spec fn view(&self) -> (ChainModel, HopModel) {
        (self.chain@, self.hop@)
    }
}

impl View for Announcing {
    type V = (ChainModel, HopModel);

    closed spec fn view(&self) -> (ChainModel, HopModel) {
        (self.chain@, self.hop@)
    }
}

impl View for Sending {
    type V = (ChainModel, HopModel);

    closed spec fn view(&self) -> (ChainModel, HopModel) {
        (self.chain@, self.hop@)
    }
}

impl View for JudgingCors {
    type V = (ChainModel, HopModel, ReplyModel, AnswerModel);

    closed spec fn view(&self) -> (ChainModel, HopModel, ReplyModel, AnswerModel) {
        (self.chain@, self.hop@, self.reply@, self.answer@)
    }
}

impl View for Resolving {
    type V = (ChainModel, ReplyModel, Seq<char>);

    closed spec fn view(&self) -> (ChainModel, ReplyModel, Seq<char>) {
        (self.chain@, self.reply@, self.reference@)
    }
}

impl View for Redirecting {
    type V = (ChainModel, ReplyModel, UrlModel);

    closed spec fn view(&self) -> (ChainModel, ReplyModel, UrlModel) {
        (self.chain@, self.reply@, self.next@)
    }
}

impl View for ReadingBody {
    type V = (ChainModel, HopModel, ReplyModel);

    closed spec fn view(&self) -> (ChainModel, HopModel, ReplyModel) {
        (self.chain@, self.hop@, self.reply@)
    }
}

/// The model of an optional request.
pub open spec fn opt_info(info: Option<RequestInfo>) -> Option<InfoModel> {
    match info {
        Some(i) => Some(i@),
        None => None,
    }
}

impl View for Fetch {
    type V = FetchModel;

    open spec fn view(&self) -> FetchModel {
        match *self {
            Fetch::Admit(s) => FetchModel::Admit { chain: s@ },
            Fetch::File { url, limit } => FetchModel::File { url: url@, limit: limit as nat },
            Fetch::Prepare(s) => FetchModel::Prepare { chain: s@ },
            Fetch::Intercept(s) => FetchModel::Intercept { chain: s@.0, hop: s@.1 },
            Fetch::Announce(s) => FetchModel::Announce { chain: s@.0, hop: s@.1 },
            Fetch::Send(s) => FetchModel::Send { chain: s@.0, hop: s@.1 },
            Fetch::Cors(s) => FetchModel::Cors {
                chain: s@.0,
                hop: s@.1,
                reply: s@.2,
                answer: s@.3,
            },
            Fetch::Resolve(s) => FetchModel::Resolve {
                chain: s@.0,
                reply: s@.1,
                reference: s@.2,
            },
            Fetch::Redirect(s) => FetchModel::Redirect { chain: s@.0, reply: s@.1, next: s@.2 },
            Fetch::Body(s) => FetchModel::Body { chain: s@.0, hop: s@.1, reply: s@.2 },
            Fetch::Done { outcome, report } => FetchModel::Done {
                outcome: outcome_model(outcome),
                report: opt_info(report),
            },
        }
    }
}

impl View for Turn {
    type V = TurnModel;

    open spec fn view(&self) -> TurnModel {
        TurnModel {
            cookies: texts(self.cookies@),
            charge: self.charge as nat,
            counters: self.counters,
            state: self.state@,
        }
    }
}

fn quiet_turn(state: Fetch) -> (turn: Turn)
    ensures
        turn@ == quiet(state@),
{
    let counters = Counters { bytes: None, estimate: None };
    let turn = Turn { cookies: Vec::new(), charge: 0, counters, state };
    assert(texts(turn.cookies@) =~= Seq::empty());
    turn
}

fn failed_state(e: ObscuraNetError) -> (state: Fetch)
    ensures
        state@ == failed(e@),
{
    Fetch::Done { outcome: Err(e), report: None }
}

fn next_state(chain: Chain) -> (state: Fetch)
    ensures
        state@ == next_hop(chain@),
{
    if chain.begun < MAX_HOPS {
        Fetch::Prepare(Preparing { chain })
    } else {
        failed_state(ObscuraNetError::TooManyRedirects(chain.first.href.clone()))
    }
}

fn sending_state(chain: Chain, hop: Hop) -> (state: Fetch)
    ensures
        state@ == sending(chain@, hop@),
{
    let announce = chain.callbacks && !chain.announced;
    let chain = Chain {
        request: chain.request,
        callbacks: chain.callbacks,
        first: chain.first,
        current: chain.current,
        redirects: chain.redirects,
        transfer: chain.transfer,
        tainted: chain.tainted,
        announced: true,
        begun: chain.begun,
        counters: chain.counters,
    };
    if announce {
        Fetch::Announce(Announcing { chain, hop })
    } else {
        Fetch::Send(Sending { chain, hop })
    }
}

fn accepted_turn(chain: Chain, hop: Hop, reply: Reply) -> (turn: Turn)
    ensures
        turn@ == accepted(chain@, hop@, reply@),
{
    let mut cookies: Vec<String> = Vec::new();
    let mut i: usize = 0;
    assert(texts(cookies@) =~= texts(reply.cookies@).take(0));
    while i < reply.cookies.len()
        invariant
            i <= reply.cookies@.len(),
            texts(cookies@) == texts(reply.cookies@).take(i as int),
        decreases reply.cookies@.len() - i,
    {
        let ghost before = texts(cookies@);
        cookies.push(reply.cookies[i].clone());
        assert(texts(cookies@) =~= before.push(texts(reply.cookies@)[i as int]));
        i = i + 1;
        assert(texts(cookies@) =~= texts(reply.cookies@).take(i as int));
    }
    assert(texts(reply.cookies@).take(i as int) =~= texts(reply.cookies@));
    let mut reference: Option<Option<String>> = None;
    if status_redirects(reply.status) {
        match &reply.location {
            Some(value) => {
                reference = Some(field_value_text(value.as_slice()));
            },
            None => {},
        }
    }
    let state = match reference {
        Some(Some(reference)) => Fetch::Resolve(Resolving { chain, reply, reference }),
        Some(None) => failed_state(
            ObscuraNetError::Network("Invalid redirect Location".to_owned()),
        ),
        None => Fetch::Body(ReadingBody { chain, hop, reply }),
    };
    Turn { cookies, charge: 0, counters: Counters { bytes: None, estimate: None }, state }
}

impl Admitting {
    /// The address that is asked for.
    pub fn url(&self) -> (url: &WebUrl)
        ensures
            url@ == self@.current,
    {
        &self.chain.current
    }

    /// The address and the mode were checked, and the host was looked up in
    /// the block list. A fetch that goes on takes the counters that are
    /// installed now, and charges no others.
    pub fn enter(
        self,
        url_check: Result<(), ObscuraNetError>,
        mode_check: Result<(), ObscuraNetError>,
        host_blocked: bool,
        client: &StealthHttpClient,
    ) -> (turn: Turn)
        ensures
            turn@ == quiet(
                admitted(
                    self@,
                    check_model(url_check),
                    check_model(mode_check),
                    host_blocked,
                    client@.counters,
                ),
            ),
            turn@ == chain::turn(
                FetchModel::Admit { chain: self@ },
                FetchEvent::Admitted {
                    url_check: check_model(url_check),
                    mode_check: check_model(mode_check),
                    host_blocked,
                    counters: client@.counters,
                },
            ),
            knows(client@, client@.counters),
    {
        let counters = client.counters();
        match url_check {
            Err(e) => {
                return quiet_turn(failed_state(e));
            },
            Ok(_) => {},
        }
        match mode_check {
            Err(e) => {
                return quiet_turn(failed_state(e));
            },
            Ok(_) => {},
        }
        if same_text(self.chain.current.scheme.as_str(), "file") {
            let limit: usize = self.chain.request.max_response_bytes;
            return quiet_turn(Fetch::File { url: self.chain.current, limit });
        }
        if self.chain.current.host.is_some() && host_blocked {
            let response = blocked_response(self.chain.current);
            return quiet_turn(Fetch::Done { outcome: Ok(response), report: None });
        }
        let chain = Chain {
            request: self.chain.request,
            callbacks: self.chain.callbacks,
            first: self.chain.first,
            current: self.chain.current,
            redirects: self.chain.redirects,
            transfer: self.chain.transfer,
            tainted: self.chain.tainted,
            announced: self.chain.announced,
            begun: self.chain.begun,
            counters,
        };
        quiet_turn(next_state(chain))
    }
}

impl Preparing {
    #[verifier::type_invariant]
    spec fn bounded(self) -> bool {
        self.chain.begun < MAX_HOPS
    }

    /// The address of the request.
    pub fn url(&self) -> (url: &WebUrl)
        ensures
            url@ == self@.current,
    {
        &self.chain.current
    }

    /// Whether a redirect has left the origin that the request is made for.
    pub fn redirect_tainted(&self) -> (tainted: bool)
        ensures
            tainted == self@.tainted,
    {
        self.chain.tainted
    }

    /// The mode was checked and the facts of the request were gathered.
    pub fn prepare(
        self,
        mode_check: Result<(), ObscuraNetError>,
        facts: HopFacts,
        client: &StealthHttpClient,
    ) -> (turn: Turn)
        ensures
            turn@ == quiet(
                prepared(
                    self@,
                    check_model(mode_check),
                    facts@,
                    client@.extra_fields,
                    client@.extra_headers,
                    client@.interceptor,
                ),
            ),
            turn@ == chain::turn(
                FetchModel::Prepare { chain: self@ },
                FetchEvent::Prepared {
                    mode_check: check_model(mode_check),
                    facts: facts@,
                    extra_fields: client@.extra_fields,
                    extra_headers: client@.extra_headers,
                    interceptor: client@.interceptor,
                },
            ),
    {
        proof {
            use_type_invariant(&self);
        }
        match mode_check {
            Err(e) => {
                return quiet_turn(failed_state(e));
            },
            Ok(_) => {},
        }
        let extra = client.extra_headers();
        let fields = build_hop_fields(&self.chain.request, &facts, extra);
        let info = RequestInfo {
            url: self.chain.current.clone(),
            method: "GET".to_owned(),
            headers: extra.clone(),
            resource_type: self.chain.request.resource_type.clone(),
        };
        let cors = facts.cors;
        let hop = Hop {
            cors,
            credentials: facts.credentials,
            origin: facts.origin,
            info,
            fields,
        };
        assert(hop@ == hop_of(self@, facts@, client@.extra_fields, client@.extra_headers));
        let first_request = self.chain.redirects.len() == 0;
        let chain = Chain {
            request: self.chain.request,
            callbacks: self.chain.callbacks,
            first: self.chain.first,
            current: self.chain.current,
            redirects: self.chain.redirects,
            transfer: self.chain.transfer,
            tainted: self.chain.tainted,
            announced: self.chain.announced,
            begun: self.chain.begun + 1,
            counters: self.chain.counters,
        };
        if first_request && !cors && client.has_interceptor() {
            quiet_turn(Fetch::Intercept(Intercepting { chain, hop }))
        } else {
            quiet_turn(sending_state(chain, hop))
        }
    }
}

impl Intercepting {
    /// What the interceptor is told of the request.
    pub fn info(&self) -> (info: &RequestInfo)
        ensures
            info@ == self@.1.info,
    {
        &self.hop.info
    }

    /// The interceptor has decided. Headers that it sets go to the client, and
    /// so to the requests after this one.
    pub fn decide(self, action: InterceptAction, client: &mut StealthHttpClient) -> (turn: Turn)
        ensures
            turn@ == quiet(intercepted(self@.0, self@.1, action@)),
            turn@ == chain::turn(
                FetchModel::Intercept { chain: self@.0, hop: self@.1 },
                FetchEvent::Intercepted { decision: action@ },
            ),
            final(client)@ == (match action {
                InterceptAction::ModifyHeaders(headers) => ClientModel {
                    extra_headers: old(client)@.extra_headers.union_prefer_right(headers@),
                    extra_fields: final(client)@.extra_fields,
                    ..old(client)@
                },
                _ => old(client)@,
            }),
            action is ModifyHeaders ==> collected(final(client)@.extra_fields)
                == final(client)@.extra_headers,
            action is ModifyHeaders ==> distinct_names(final(client)@.extra_fields),
            action matches InterceptAction::ModifyHeaders(headers) ==> forall|name: Seq<char>|
                #[trigger] final(client)@.extra_headers.contains_key(name) <==> (
                headers@.contains_key(name) || old(client)@.extra_headers.contains_key(name)),
            action matches InterceptAction::ModifyHeaders(headers) ==> forall|name: Seq<char>|
                headers@.contains_key(name) ==> #[trigger] final(client)@.extra_headers[name]
                    == headers@[name],
    {
        match action {
            InterceptAction::Continue => quiet_turn(sending_state(self.chain, self.hop)),
            InterceptAction::Block => quiet_turn(
                failed_state(ObscuraNetError::Blocked(self.chain.current.href)),
            ),
            InterceptAction::Fulfill(response) => quiet_turn(
                Fetch::Done { outcome: Ok(response), report: None },
            ),
            InterceptAction::ModifyHeaders(headers) => {
                client.extend_extra_headers(&headers);
                quiet_turn(sending_state(self.chain, self.hop))
            },
        }
    }
}

impl Announcing {
    /// What the request callback is told.
    pub fn info(&self) -> (info: &RequestInfo)
        ensures
            info@ == self@.1.info,
    {
        &self.hop.info
    }

    /// The request callback was called.
    pub fn announced(self) -> (turn: Turn)
        ensures
            turn@ == quiet(FetchModel::Send { chain: self@.0, hop: self@.1 }),
            turn@ == chain::turn(
                FetchModel::Announce { chain: self@.0, hop: self@.1 },
                FetchEvent::Announced,
            ),
    {
        quiet_turn(Fetch::Send(Sending { chain: self.chain, hop: self.hop }))
    }
}

impl Sending {
    /// The address of the request.
    pub fn url(&self) -> (url: &WebUrl)
        ensures
            url@ == self@.0.current,
    {
        &self.chain.current
    }

    /// The header fields of the request, in order.
    pub fn fields(&self) -> (fields: &Vec<(String, String)>)
        ensures
            text_pairs(fields@) == self@.1.fields,
    {
        &self.hop.fields
    }

    /// The request could not be sent.
    pub fn fail(self, error: &str, source: &str) -> (turn: Turn)
        ensures
            turn@ == quiet(failed(send_failure(self@.0.current.href, error@, source@))),
            turn@ == chain::turn(
                FetchModel::Send { chain: self@.0, hop: self@.1 },
                FetchEvent::SendFailed { error: error@, source: source@ },
            ),
    {
        let mut text = self.chain.current.href;
        text.append(": ");
        text.append(error);
        text.append(" (source: ");
        text.append(source);
        text.append(")");
        quiet_turn(failed_state(ObscuraNetError::Network(text)))
    }

    /// The server has answered. The names of its header fields are kept in
    /// lower case.
    pub fn respond(self, status: u16, headers: &HeaderMap) -> (turn: Turn)
        ensures
            turn@ == responded(self@.0, self@.1, status, header_fields(*headers)),
            turn@ == chain::turn(
                FetchModel::Send { chain: self@.0, hop: self@.1 },
                FetchEvent::Responded { status, fields: header_fields(*headers) },
            ),
            reply_in(turn@.state) matches Some(reply) ==> lower_case_names(reply.headers),
    {
        let reply = read_reply(self.hop.credentials, status, headers);
        let left = validate_wreq_cors_response(self.hop.cors, &self.chain.current, headers);
        self.respond_with(reply, left)
    }

    /// The response was read: `left` is what is left to check of it.
    pub fn respond_with(
        self,
        reply: Reply,
        left: Result<Option<CorsAnswer>, ObscuraNetError>,
    ) -> (turn: Turn)
        ensures
            turn@ == answered(self@.0, self@.1, reply@, sharing_result(left)),
    {
        match left {
            Err(e) => quiet_turn(failed_state(e)),
            Ok(Some(answer)) => quiet_turn(
                Fetch::Cors(JudgingCors { chain: self.chain, hop: self.hop, reply, answer }),
            ),
            Ok(None) => accepted_turn(self.chain, self.hop, reply),
        }
    }
}

/// Reads from a response what a fetch needs of it. The names of its header
/// fields are in lower case.
pub fn read_reply(credentials: bool, status: u16, headers: &HeaderMap) -> (reply: Reply)
    ensures
        reply@ == reply_of(credentials, status, header_fields(*headers)),
        lower_case_names(reply@.headers),
{
    let cookies = if credentials {
        cookies_to_store(headers)
    } else {
        let none: Vec<String> = Vec::new();
        assert(texts(none@) =~= Seq::empty());
        none
    };
    proof {
        lemma_known_names();
    }
    Reply {
        status,
        cookies,
        headers: response_headers(headers),
        location: first_header(headers, "location"),
    }
}

impl JudgingCors {
    /// The address that answered.
    pub fn url(&self) -> (url: &WebUrl)
        ensures
            url@ == self@.0.current,
    {
        &self.chain.current
    }

    /// The origin that the request was made for.
    pub fn origin(&self) -> (origin: &str)
        ensures
            origin@ == self@.1.origin,
    {
        self.hop.origin.as_str()
    }

    /// The server's answer.
    pub fn answer(&self) -> (answer: &CorsAnswer)
        ensures
            answer@ == self@.3,
    {
        &self.answer
    }

    /// The answer was judged.
    pub fn judge(self, verdict: Result<(), ObscuraNetError>) -> (turn: Turn)
        ensures
            turn@ == judged(self@.0, self@.1, self@.2, check_model(verdict)),
            turn@ == chain::turn(
                FetchModel::Cors { chain: self@.0, hop: self@.1, reply: self@.2, answer: self@.3 },
                FetchEvent::Judged { verdict: check_model(verdict) },
            ),
    {
        match verdict {
            Err(e) => quiet_turn(failed_state(e)),
            Ok(_) => accepted_turn(self.chain, self.hop, self.reply),
        }
    }
}

impl Resolving {
    /// The address that redirects.
    pub fn url(&self) -> (url: &WebUrl)
        ensures
            url@ == self@.0.current,
    {
        &self.chain.current
    }

    /// The reference that it redirects to.
    pub fn reference(&self) -> (reference: &str)
        ensures
            reference@ == self@.2,
    {
        self.reference.as_str()
    }

    /// Resolves the reference against the address that redirects.
    pub fn resolve(self) -> (turn: Turn)
        ensures
            turn@ == quiet(
                resolved(
                    self@.0,
                    self@.1,
                    url_of_parts(joined_url(self@.0.current.href, self@.2)),
                ),
            ),
            ({
                let state = FetchModel::Resolve {
                    chain: self@.0,
                    reply: self@.1,
                    reference: self@.2,
                };
                exists|event: FetchEvent| #[trigger]
                    chain::awaits(state, event) && event is Resolved && turn@ == chain::turn(
                        state,
                        event,
                    )
            }),
    {
        let joined = self.chain.current.join(self.reference.as_str());
        proof {
            let state = FetchModel::Resolve { chain: self@.0, reply: self@.1, reference: self@.2 };
            assert(chain::awaits(state, FetchEvent::Resolved { joined: url_result(joined) }));
        }
        self.resolve_to(joined)
    }

    /// Goes on with what the reference resolves to.
    pub fn resolve_to(self, joined: Result<WebUrl, String>) -> (turn: Turn)
        ensures
            turn@ == quiet(resolved(self@.0, self@.1, url_result(joined))),
            turn@ == chain::turn(
                FetchModel::Resolve { chain: self@.0, reply: self@.1, reference: self@.2 },
                FetchEvent::Resolved { joined: url_result(joined) },
            ),
    {
        match joined {
            Ok(next) => quiet_turn(
                Fetch::Redirect(Redirecting { chain: self.chain, reply: self.reply, next }),
            ),
            Err(e) => {
                let mut text = "Invalid redirect URL: ".to_owned();
                text.append(e.as_str());
                quiet_turn(failed_state(ObscuraNetError::Network(text)))
            },
        }
    }
}

impl Redirecting {
    /// The address that redirects.
    pub fn from_url(&self) -> (url: &WebUrl)
        ensures
            url@ == self@.0.current,
    {
        &self.chain.current
    }

    /// The address that it redirects to.
    pub fn to_url(&self) -> (url: &WebUrl)
        ensures
            url@ == self@.2,
    {
        &self.next
    }

    /// The header fields of the response that redirects.
    pub fn headers(&self) -> (headers: &HeaderTable)
        ensures
            headers@ == self@.1.headers,
    {
        &self.reply.headers
    }

    /// The bytes that the redirects before this one took on the wire.
    pub fn transferred(&self) -> (n: u64)
        ensures
            n == self@.0.transfer,
    {
        self.chain.transfer
    }

    /// The address was checked; the redirect took `hop_bytes` on the wire. A
    /// redirect that is refused adds nothing.
    pub fn follow(
        self,
        url_check: Result<(), ObscuraNetError>,
        mode_check: Result<(), ObscuraNetError>,
        taints: bool,
        hop_bytes: u64,
    ) -> (turn: Turn)
        requires
            url_check is Ok && mode_check is Ok ==> self@.0.transfer + hop_bytes <= u64::MAX,
        ensures
            turn@ == redirected(
                self@.0,
                self@.2,
                check_model(url_check),
                check_model(mode_check),
                taints,
                hop_bytes as nat,
            ),
            turn@ == chain::turn(
                FetchModel::Redirect { chain: self@.0, reply: self@.1, next: self@.2 },
                FetchEvent::Redirected {
                    url_check: check_model(url_check),
                    mode_check: check_model(mode_check),
                    taints,
                    hop_bytes: hop_bytes as nat,
                },
            ),
    {
        match url_check {
            Err(e) => {
                return quiet_turn(failed_state(e));
            },
            Ok(_) => {},
        }
        match mode_check {
            Err(e) => {
                return quiet_turn(failed_state(e));
            },
            Ok(_) => {},
        }
        let mut redirects = self.chain.redirects;
        let ghost before = url_models(redirects@);
        redirects.push(self.chain.current);
        assert(url_models(redirects@) =~= before.push(self@.0.current));
        let chain = Chain {
            request: self.chain.request,
            callbacks: self.chain.callbacks,
            first: self.chain.first,
            current: self.next,
            redirects,
            transfer: self.chain.transfer + hop_bytes,
            tainted: self.chain.tainted || taints,
            announced: self.chain.announced,
            begun: self.chain.begun,
            counters: self.chain.counters,
        };
        let counters = self.chain.counters;
        let cookies: Vec<String> = Vec::new();
        assert(texts(cookies@) =~= Seq::empty());
        Turn { cookies, charge: hop_bytes, counters, state: next_state(chain) }
    }
}

/// A body with what its response took on the wire, or an error.
pub open spec fn body_model(body: Result<ReadBody, ObscuraNetError>) -> Result<
    (Seq<u8>, nat),
    ErrorModel,
> {
    match body {
        Ok(read) => Ok((read@.body, read@.wire)),
        Err(e) => Err(e@),
    }
}

impl ReadingBody {
    /// The address that answered.
    pub fn url(&self) -> (url: &WebUrl)
        ensures
            url@ == self@.0.current,
    {
        &self.chain.current
    }

    /// The longest body that is accepted.
    pub fn limit(&self) -> (limit: usize)
        ensures
            limit == self@.0.request.max_response_bytes,
    {
        self.chain.request.max_response_bytes
    }

    /// The counters that the body is charged to.
    pub fn counters(&self) -> (counters: Counters)
        ensures
            counters == self@.0.counters,
    {
        self.chain.counters
    }

    /// The bytes that the redirects before the response took on the wire.
    pub fn transferred(&self) -> (n: u64)
        ensures
            n == self@.0.transfer,
    {
        self.chain.transfer
    }

    /// The body was read, with what its response took on the wire.
    pub fn complete(self, body: Result<ReadBody, ObscuraNetError>) -> (turn: Turn)
        requires
            body is Ok ==> body->Ok_0@.limit == self@.0.request.max_response_bytes,
            body is Ok ==> self@.0.transfer + body->Ok_0@.wire <= u64::MAX,
        ensures
            turn@ == quiet(completed(self@.0, self@.1, self@.2, body_model(body))),
            turn@ == chain::turn(
                FetchModel::Body { chain: self@.0, hop: self@.1, reply: self@.2 },
                FetchEvent::BodyRead { body: body_model(body) },
            ),
            chain::awaits(
                FetchModel::Body { chain: self@.0, hop: self@.1, reply: self@.2 },
                FetchEvent::BodyRead { body: body_model(body) },
            ),
            body is Ok ==> body->Ok_0@.body.len() <= self@.0.request.max_response_bytes,
    {
        match body {
            Err(e) => quiet_turn(failed_state(e)),
            Ok(read) => {
                let (bytes, wire) = read.into_parts();
                let response = Response {
                    url: self.chain.current,
                    status: self.reply.status,
                    headers: self.reply.headers,
                    body: bytes,
                    redirected_from: self.chain.redirects,
                    transfer_bytes: self.chain.transfer + wire,
                };
                let report = if self.chain.callbacks {
                    Some(self.hop.info)
                } else {
                    None
                };
                quiet_turn(Fetch::Done { outcome: Ok(response), report })
            },
        }
    }
}

impl Fetch {
    /// Whether a request of the fetch is under way.
    pub fn in_flight(&self) -> (under_way: bool)
        ensures
            under_way == is_in_flight(self@),
    {
        match self {
            Fetch::Send(_) => true,
            Fetch::Cors(_) => true,
            Fetch::Resolve(_) => true,
            Fetch::Redirect(_) => true,
            Fetch::Body(_) => true,
            _ => false,
        }
    }
}

/// The client behind a step of a fetch: the redirect is charged to the counters
/// of the fetch, and the request counted.
pub open spec fn settled(client: ClientModel, was: bool, turn: TurnModel) -> ClientModel {
    counted(
        ClientModel {
            counts: added_at(client.counts, turn.counters.bytes, turn.charge),
            ..client
        },
        was,
        is_in_flight(turn.state),
    )
}

impl StealthHttpClient {
    /// Charges and counts a step of a fetch whose request was under way before,
    /// or not. This comes before what the next state asks for is done.
    pub fn settle(&mut self, was: bool, turn: &Turn)
        ensures
            final(self)@ == settled(old(self)@, was, turn@),
    {
        let nothing = Estimated { bytes: 0, transfers: 0 };
        self.charge(&turn.counters, Charge::Bytes(turn.charge), nothing);
        proof {
            lemma_nothing_added(
                added_at(old(self)@.counts, turn@.counters.bytes, turn@.charge),
                turn@.counters.estimate,
            );
        }
        self.count(was, turn.state.in_flight());
    }

    /// Fetches a page.
    pub fn fetch(&self, url: &WebUrl, navigation: ResourceRequest) -> (state: Admitting)
        ensures
            state@ == new_chain(url@, navigation@, false),
            state@.first == url@ && state@.request == navigation@ && !state@.callbacks,
    {
        self.fetch_with_callbacks(url, navigation, false)
    }

    /// Fetches a page, with callbacks where there are any.
    pub fn fetch_with_callbacks(
        &self,
        url: &WebUrl,
        navigation: ResourceRequest,
        callbacks: bool,
    ) -> (state: Admitting)
        ensures
            state@ == new_chain(url@, navigation@, callbacks),
            state@.first == url@ && state@.request == navigation@ && state@.callbacks == callbacks,
    {
        self.fetch_with_profile(url, navigation, callbacks)
    }

    /// Fetches what a page asks for, with callbacks where there are any.
    pub fn fetch_resource_with_callbacks(
        &self,
        url: &WebUrl,
        request: ResourceRequest,
        callbacks: bool,
    ) -> (state: Admitting)
        ensures
            state@ == new_chain(url@, request@, callbacks),
            state@.first == url@ && state@.request == request@ && state@.callbacks == callbacks,
    {
        self.fetch_with_profile(url, request, callbacks)
    }

    fn fetch_with_profile(
        &self,
        url: &WebUrl,
        request: ResourceRequest,
        callbacks: bool,
    ) -> (state: Admitting)
        ensures
            state@ == new_chain(url@, request@, callbacks),
    {
        let chain = Chain {
            request,
            callbacks,
            first: url.clone(),
            current: url.clone(),
            redirects: Vec::new(),
            transfer: 0,
            tainted: false,
            announced: false,
            begun: 0,
            counters: Counters { bytes: None, estimate: None },
        };
        assert(url_models(chain.redirects@) =~= Seq::empty());
        Admitting { chain }
    }
}

} // verus!
