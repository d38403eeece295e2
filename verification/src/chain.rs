//! The model of a fetch: a chain of requests that follows redirects, as a
//! function from a state and what happens in it to the next state.

use vstd::prelude::*;
use crate::address::{joined_url, url_of_parts, UrlModel};
use crate::client::{no_counters, Counters};
use crate::cors::{sharing_model, AnswerModel};
use crate::error::ErrorModel;
use crate::fields::{first_value, text_fields, values_of, visible_texts};
use crate::message::{blocked_model, is_redirection, InfoModel, ResponseModel};
use crate::request::{hop_fields, FactsModel, FieldModel, RequestModel};
use crate::table::collected;
use crate::text::field_text;

verus! {

/// How many requests a fetch makes at most.
pub const MAX_HOPS: usize = 20;

/// What a fetch keeps from one request to the next.
pub struct ChainModel {
    pub request: RequestModel,
    /// There are callbacks to announce the request and the response to.
    pub callbacks: bool,
    /// The address that was asked for.
    pub first: UrlModel,
    /// The address of the request at hand.
    pub current: UrlModel,
    /// The addresses that redirected, in order.
    pub redirects: Seq<UrlModel>,
    /// The bytes that the redirects took on the wire.
    pub transfer: nat,
    /// A redirect has left the origin that the request is made for.
    pub tainted: bool,
    /// The request callback has had its turn.
    pub announced: bool,
    /// How many requests were begun.
    pub begun: nat,
    /// The counters that the fetch charges, taken before its first request.
    pub counters: Counters,
}

/// A request that is ready to go out.
pub struct HopModel {
    pub cors: bool,
    pub credentials: bool,
    pub origin: Seq<char>,
    pub info: InfoModel,
    pub fields: Seq<FieldModel>,
}

/// What a fetch needs of a response.
pub struct ReplyModel {
    pub status: u16,
    /// The cookies to store.
    pub cookies: Seq<Seq<char>>,
    pub headers: Map<Seq<char>, Seq<char>>,
    /// The value of `location`.
    pub location: Option<Seq<u8>>,
}

/// The state of a fetch: what it waits for, and what it has decided.
pub enum FetchModel {
    /// The address, the request mode and the host are to be checked.
    Admit { chain: ChainModel },
    /// The address is a file that is to be read, and the fetch is over.
    File { url: UrlModel, limit: nat },
    /// The facts of the next request are to be gathered.
    Prepare { chain: ChainModel },
    /// The interceptor is to be asked.
    Intercept { chain: ChainModel, hop: HopModel },
    /// The request callback is to be called.
    Announce { chain: ChainModel, hop: HopModel },
    /// The request is to be sent.
    Send { chain: ChainModel, hop: HopModel },
    /// The server's answer on the sharing is to be judged.
    Cors { chain: ChainModel, hop: HopModel, reply: ReplyModel, answer: AnswerModel },
    /// The reference of a redirect is to be resolved.
    Resolve { chain: ChainModel, reply: ReplyModel, reference: Seq<char> },
    /// The address of a redirect is to be checked.
    Redirect { chain: ChainModel, reply: ReplyModel, next: UrlModel },
    /// The body is to be read.
    Body { chain: ChainModel, hop: HopModel, reply: ReplyModel },
    /// The fetch is over; the response callback is told of `report`.
    Done { outcome: Result<ResponseModel, ErrorModel>, report: Option<InfoModel> },
}

/// A step of a fetch: cookies to store, bytes to charge and to which counters,
/// and the next state.
pub struct TurnModel {
    pub cookies: Seq<Seq<char>>,
    pub charge: nat,
    pub counters: Counters,
    pub state: FetchModel,
}

/// What the interceptor decides.
pub enum DecisionModel {
    Continue,
    Block,
    Fulfill(ResponseModel),
    ModifyHeaders(Map<Seq<char>, Seq<char>>),
}

/// A fetch that was just asked for.
pub open spec fn new_chain(url: UrlModel, request: RequestModel, callbacks: bool) -> ChainModel {
    ChainModel {
        request,
        callbacks,
        first: url,
        current: url,
        redirects: Seq::empty(),
        transfer: 0,
        tainted: false,
        announced: false,
        begun: 0,
        counters: no_counters(),
    }
}

/// A step that only changes the state.
pub open spec fn quiet(state: FetchModel) -> TurnModel {
    TurnModel { cookies: Seq::empty(), charge: 0, counters: no_counters(), state }
}

/// The fetch fails.
pub open spec fn failed(e: ErrorModel) -> FetchModel {
    FetchModel::Done { outcome: Err(e), report: None }
}

/// The next request is prepared, unless the chain is too long.
pub open spec fn next_hop(chain: ChainModel) -> FetchModel {
    if chain.begun < MAX_HOPS {
        FetchModel::Prepare { chain }
    } else {
        failed(ErrorModel::TooManyRedirects(chain.first.href))
    }
}

/// The address and the mode are checked; files are read, blocked hosts are
/// answered, and anything else is requested and charged to the counters that
/// are installed now.
pub open spec fn admitted(
    chain: ChainModel,
    url_check: Result<(), ErrorModel>,
    mode_check: Result<(), ErrorModel>,
    host_blocked: bool,
    counters: Counters,
) -> FetchModel {
    if url_check is Err {
        failed(url_check->Err_0)
    } else if mode_check is Err {
        failed(mode_check->Err_0)
    } else if chain.current.scheme == "file"@ {
        FetchModel::File { url: chain.current, limit: chain.request.max_response_bytes }
    } else if chain.current.host is Some && host_blocked {
        FetchModel::Done { outcome: Ok(blocked_model(chain.current)), report: None }
    } else {
        next_hop(ChainModel { counters, ..chain })
    }
}

/// The request for the current address.
pub open spec fn hop_of(
    chain: ChainModel,
    facts: FactsModel,
    extra_fields: Seq<FieldModel>,
    extra_headers: Map<Seq<char>, Seq<char>>,
) -> HopModel {
    HopModel {
        cors: facts.cors,
        credentials: facts.credentials,
        origin: facts.origin,
        info: InfoModel {
            url: chain.current,
            method: "GET"@,
            headers: extra_headers,
            resource_type: chain.request.resource_type,
        },
        fields: hop_fields(chain.request, facts, extra_fields),
    }
}

/// The request goes out, once the request callback has had its turn.
pub open spec fn sending(chain: ChainModel, hop: HopModel) -> FetchModel {
    let told = ChainModel { announced: true, ..chain };
    if chain.callbacks && !chain.announced {
        FetchModel::Announce { chain: told, hop }
    } else {
        FetchModel::Send { chain: told, hop }
    }
}

/// The request is built. The interceptor is asked only about the address that
/// was asked for, and only where no sharing is at stake.
pub open spec fn prepared(
    chain: ChainModel,
    mode_check: Result<(), ErrorModel>,
    facts: FactsModel,
    extra_fields: Seq<FieldModel>,
    extra_headers: Map<Seq<char>, Seq<char>>,
    interceptor: bool,
) -> FetchModel {
    let begun = ChainModel { begun: chain.begun + 1, ..chain };
    let hop = hop_of(chain, facts, extra_fields, extra_headers);
    if mode_check is Err {
        failed(mode_check->Err_0)
    } else if chain.redirects.len() == 0 && !facts.cors && interceptor {
        FetchModel::Intercept { chain: begun, hop }
    } else {
        sending(begun, hop)
    }
}

/// The interceptor has decided.
pub open spec fn intercepted(chain: ChainModel, hop: HopModel, decision: DecisionModel) -> FetchModel {
    match decision {
        DecisionModel::Continue => sending(chain, hop),
        DecisionModel::Block => failed(ErrorModel::Blocked(chain.current.href)),
        DecisionModel::Fulfill(response) => FetchModel::Done {
            outcome: Ok(response),
            report: None,
        },
        DecisionModel::ModifyHeaders(_) => sending(chain, hop),
    }
}

/// The message of a request that could not be sent.
pub open spec fn send_failure(url: Seq<char>, error: Seq<char>, source: Seq<char>) -> ErrorModel {
    ErrorModel::Network(url + ": "@ + error + " (source: "@ + source + ")"@)
}

/// What a fetch needs of a response. Cookies are stored only where credentials
/// were allowed.
pub open spec fn reply_of(
    credentials: bool,
    status: u16,
    fields: Seq<(Seq<char>, Seq<u8>)>,
) -> ReplyModel {
    ReplyModel {
        status,
        cookies: if credentials {
            visible_texts(values_of(fields, "set-cookie"@))
        } else {
            Seq::empty()
        },
        headers: collected(text_fields(fields)),
        location: first_value(fields, "location"@),
    }
}

/// The response may be used: it redirects, or its body is read.
pub open spec fn used(chain: ChainModel, hop: HopModel, reply: ReplyModel) -> FetchModel {
    if is_redirection(reply.status) && reply.location is Some {
        match field_text(reply.location->0) {
            Some(reference) => FetchModel::Resolve { chain, reply, reference },
            None => failed(ErrorModel::Network("Invalid redirect Location"@)),
        }
    } else {
        FetchModel::Body { chain, hop, reply }
    }
}

/// The response may be used, and its cookies are stored.
pub open spec fn accepted(chain: ChainModel, hop: HopModel, reply: ReplyModel) -> TurnModel {
    TurnModel {
        cookies: reply.cookies,
        charge: 0,
        counters: no_counters(),
        state: used(chain, hop, reply),
    }
}

/// The response was read: `left` is what is left to check of it.
pub open spec fn answered(
    chain: ChainModel,
    hop: HopModel,
    reply: ReplyModel,
    left: Result<Option<AnswerModel>, ErrorModel>,
) -> TurnModel {
    match left {
        Err(e) => quiet(failed(e)),
        Ok(Some(answer)) => quiet(FetchModel::Cors { chain, hop, reply, answer }),
        Ok(None) => accepted(chain, hop, reply),
    }
}

/// The server has answered.
pub open spec fn responded(
    chain: ChainModel,
    hop: HopModel,
    status: u16,
    fields: Seq<(Seq<char>, Seq<u8>)>,
) -> TurnModel {
    answered(
        chain,
        hop,
        reply_of(hop.credentials, status, fields),
        sharing_model(hop.cors, chain.current.href, fields),
    )
}

/// The server's answer on the sharing was judged.
pub open spec fn judged(
    chain: ChainModel,
    hop: HopModel,
    reply: ReplyModel,
    verdict: Result<(), ErrorModel>,
) -> TurnModel {
    match verdict {
        Err(e) => quiet(failed(e)),
        Ok(_) => accepted(chain, hop, reply),
    }
}

/// The reference of a redirect was resolved.
pub open spec fn resolved(
    chain: ChainModel,
    reply: ReplyModel,
    joined: Result<UrlModel, Seq<char>>,
) -> FetchModel {
    match joined {
        Ok(next) => FetchModel::Redirect { chain, reply, next },
        Err(e) => failed(ErrorModel::Network("Invalid redirect URL: "@ + e)),
    }
}

/// The chain behind a redirect.
pub open spec fn followed(chain: ChainModel, next: UrlModel, taints: bool, hop_bytes: nat) -> ChainModel {
    ChainModel {
        current: next,
        redirects: chain.redirects.push(chain.current),
        transfer: chain.transfer + hop_bytes,
        tainted: chain.tainted || taints,
        ..chain
    }
}

/// The address of a redirect was checked: it is followed, and charged.
pub open spec fn redirected(
    chain: ChainModel,
    next: UrlModel,
    url_check: Result<(), ErrorModel>,
    mode_check: Result<(), ErrorModel>,
    taints: bool,
    hop_bytes: nat,
) -> TurnModel {
    if url_check is Err {
        quiet(failed(url_check->Err_0))
    } else if mode_check is Err {
        quiet(failed(mode_check->Err_0))
    } else {
        TurnModel {
            cookies: Seq::empty(),
            charge: hop_bytes,
            counters: chain.counters,
            state: next_hop(followed(chain, next, taints, hop_bytes)),
        }
    }
}

/// The body was read: the response is complete.
pub open spec fn completed(
    chain: ChainModel,
    hop: HopModel,
    reply: ReplyModel,
    body: Result<(Seq<u8>, nat), ErrorModel>,
) -> FetchModel {
    match body {
        Err(e) => failed(e),
        Ok((bytes, wire)) => FetchModel::Done {
            outcome: Ok(
                ResponseModel {
                    url: chain.current,
                    status: reply.status,
                    headers: reply.headers,
                    body: bytes,
                    redirected_from: chain.redirects,
                    transfer_bytes: chain.transfer + wire,
                },
            ),
            report: if chain.callbacks {
                Some(hop.info)
            } else {
                None
            },
        },
    }
}

/// The response that a state holds.
pub open spec fn reply_in(state: FetchModel) -> Option<ReplyModel> {
    match state {
        FetchModel::Cors { reply, .. } => Some(reply),
        FetchModel::Resolve { reply, .. } => Some(reply),
        FetchModel::Redirect { reply, .. } => Some(reply),
        FetchModel::Body { reply, .. } => Some(reply),
        _ => None,
    }
}

/// The states in which a request is under way: from the moment it is to be
/// sent until it is redirected, refused or its body was read.
pub open spec fn is_in_flight(state: FetchModel) -> bool {
    state is Send || state is Cors || state is Resolve || state is Redirect || state is Body
}

/// What happens to a fetch.
pub enum FetchEvent {
    Admitted {
        url_check: Result<(), ErrorModel>,
        mode_check: Result<(), ErrorModel>,
        host_blocked: bool,
        counters: Counters,
    },
    Prepared {
        mode_check: Result<(), ErrorModel>,
        facts: FactsModel,
        extra_fields: Seq<FieldModel>,
        extra_headers: Map<Seq<char>, Seq<char>>,
        interceptor: bool,
    },
    Intercepted { decision: DecisionModel },
    Announced,
    SendFailed { error: Seq<char>, source: Seq<char> },
    Responded { status: u16, fields: Seq<(Seq<char>, Seq<u8>)> },
    Judged { verdict: Result<(), ErrorModel> },
    Resolved { joined: Result<UrlModel, Seq<char>> },
    Redirected {
        url_check: Result<(), ErrorModel>,
        mode_check: Result<(), ErrorModel>,
        taints: bool,
        hop_bytes: nat,
    },
    BodyRead { body: Result<(Seq<u8>, nat), ErrorModel> },
}

/// The event is one that the state waits for: a reference resolves to what it
/// resolves to, and a body is read within its limit.
pub open spec fn awaits(state: FetchModel, event: FetchEvent) -> bool {
    match event {
        FetchEvent::Admitted { .. } => state is Admit,
        FetchEvent::Prepared { .. } => state is Prepare,
        FetchEvent::Intercepted { .. } => state is Intercept,
        FetchEvent::Announced => state is Announce,
        FetchEvent::SendFailed { .. } => state is Send,
        FetchEvent::Responded { .. } => state is Send,
        FetchEvent::Judged { .. } => state is Cors,
        FetchEvent::Resolved { joined } => {
            state matches FetchModel::Resolve { chain, reference, .. } && joined == url_of_parts(
                joined_url(chain.current.href, reference),
            )
        },
        FetchEvent::Redirected { .. } => state is Redirect,
        FetchEvent::BodyRead { body } => {
            &&& state matches FetchModel::Body { chain, .. }
            &&& body is Ok ==> body->Ok_0.0.len() <= chain.request.max_response_bytes
        },
    }
}

/// The step that a fetch takes on an event.
pub open spec fn turn(state: FetchModel, event: FetchEvent) -> TurnModel {
    match (state, event) {
        (
            FetchModel::Admit { chain },
            FetchEvent::Admitted { url_check, mode_check, host_blocked, counters },
        ) => quiet(admitted(chain, url_check, mode_check, host_blocked, counters)),
        (
            FetchModel::Prepare { chain },
            FetchEvent::Prepared { mode_check, facts, extra_fields, extra_headers, interceptor },
        ) => quiet(prepared(chain, mode_check, facts, extra_fields, extra_headers, interceptor)),
        (FetchModel::Intercept { chain, hop }, FetchEvent::Intercepted { decision }) => quiet(
            intercepted(chain, hop, decision),
        ),
        (FetchModel::Announce { chain, hop }, FetchEvent::Announced) => quiet(
            FetchModel::Send { chain, hop },
        ),
        (FetchModel::Send { chain, hop }, FetchEvent::SendFailed { error, source }) =>
        quiet(failed(send_failure(chain.current.href, error, source))),
        (FetchModel::Send { chain, hop }, FetchEvent::Responded { status, fields }) =>
        responded(chain, hop, status, fields),
        (FetchModel::Cors { chain, hop, reply, answer }, FetchEvent::Judged { verdict }) => judged(
            chain,
            hop,
            reply,
            verdict,
        ),
        (FetchModel::Resolve { chain, reply, reference }, FetchEvent::Resolved { joined }) => quiet(
            resolved(chain, reply, joined),
        ),
        (
            FetchModel::Redirect { chain, reply, next },
            FetchEvent::Redirected { url_check, mode_check, taints, hop_bytes },
        ) => redirected(chain, next, url_check, mode_check, taints, hop_bytes),
        (FetchModel::Body { chain, hop, reply }, FetchEvent::BodyRead { body }) => quiet(
            completed(chain, hop, reply, body),
        ),
        _ => quiet(state),
    }
}

} // verus!
