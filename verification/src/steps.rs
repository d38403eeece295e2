//! What each step of a fetch owes: what comes next, and what of the fetch stays
//! as it is.

use vstd::prelude::*;
use crate::address::UrlModel;
use crate::chain::{
    is_in_flight, new_chain, reply_of, turn, ChainModel, DecisionModel, FetchEvent, FetchModel,
    HopModel, ReplyModel, TurnModel,
};
use crate::client::{ClientModel, Counters};
use crate::cors::{law_sharing_is_judged_by_the_servers_answer, AnswerModel};
use crate::error::ErrorModel;
use crate::fetch::settled;
use crate::fields::{
    first_value, is_read_as, is_readable, text_fields, unreadable, values_of, visible_texts,
};
use crate::message::ResponseModel;
use crate::request::{hop_fields, FactsModel, FieldModel, RequestModel};
use crate::table::collected;
use crate::text::{field_text, law_values_are_read_as_spelled, spells};

verus! {

/// The step does nothing but change the state: no cookie is stored and nothing
/// is charged.
pub open spec fn is_silent(step: TurnModel) -> bool {
    step.cookies.len() == 0 && step.charge == 0
}

/// The step ends the fetch with an error, and with nothing else.
pub open spec fn fails_with(step: TurnModel, e: ErrorModel) -> bool {
    &&& is_silent(step)
    &&& step.state == (FetchModel::Done { outcome: Err(e), report: None })
}

/// A fetch starts at the address that was asked for, with the request that was
/// made, and with nothing done.
pub proof fn law_fetches_start_afresh(url: UrlModel, request: RequestModel, callbacks: bool)
    ensures
        ({
            let chain = new_chain(url, request, callbacks);
            &&& chain.first == url
            &&& chain.current == url
            &&& chain.request == request
            &&& chain.callbacks == callbacks
            &&& chain.redirects.len() == 0
            &&& chain.transfer == 0
            &&& chain.begun == 0
            &&& !chain.tainted
            &&& !chain.announced
        }),
{
}

/// An address that passed its checks is requested if it is neither a file nor on
/// a blocked host, whatever is asked for there; the fetch changes in nothing but
/// the counters that it takes. A file is read within the limit of the request,
/// and a blocked host is answered with nothing. A check that failed is the error
/// of the fetch, that of the address before that of the mode.
pub proof fn law_checked_addresses_are_requested(
    chain: ChainModel,
    url_check: Result<(), ErrorModel>,
    mode_check: Result<(), ErrorModel>,
    host_blocked: bool,
    counters: Counters,
)
    requires
        chain.begun < 20,
    ensures
        ({
            let step = turn(
                FetchModel::Admit { chain },
                FetchEvent::Admitted { url_check, mode_check, host_blocked, counters },
            );
            let passed = url_check is Ok && mode_check is Ok;
            let file = chain.current.scheme == "file"@;
            let blocked = chain.current.host is Some && host_blocked;
            &&& is_silent(step)
            &&& passed && !file && !blocked ==> step.state == (FetchModel::Prepare {
                chain: ChainModel { counters, ..chain },
            })
            &&& passed && file ==> step.state == (FetchModel::File {
                url: chain.current,
                limit: chain.request.max_response_bytes,
            })
            &&& passed && !file && blocked ==> {
                &&& step.state matches FetchModel::Done { outcome: Ok(response), report: None }
                &&& response.url == chain.current
                &&& response.status == 0
                &&& response.headers == Map::<Seq<char>, Seq<char>>::empty()
                &&& response.body.len() == 0
                &&& response.redirected_from.len() == 0
                &&& response.transfer_bytes == 0
            }
            &&& url_check is Err ==> fails_with(step, url_check->Err_0)
            &&& url_check is Ok && mode_check is Err ==> fails_with(step, mode_check->Err_0)
        }),
{
}

/// The request of a hop is a GET for the address at hand, with the headers that
/// the client's user set, and with the facts that were gathered for it.
pub open spec fn is_request_for(
    hop: HopModel,
    chain: ChainModel,
    facts: FactsModel,
    extra_fields: Seq<FieldModel>,
    extra_headers: Map<Seq<char>, Seq<char>>,
) -> bool {
    &&& hop.cors == facts.cors
    &&& hop.credentials == facts.credentials
    &&& hop.origin == facts.origin
    &&& hop.fields == hop_fields(chain.request, facts, extra_fields)
    &&& hop.info.url == chain.current
    &&& hop.info.method == "GET"@
    &&& hop.info.headers == extra_headers
    &&& hop.info.resource_type == chain.request.resource_type
}

/// The request goes out, behind the request callback if there are callbacks and
/// the callback had no turn in this fetch yet.
pub open spec fn goes_out(step: TurnModel, chain: ChainModel, hop: HopModel) -> bool {
    let told = ChainModel { announced: true, ..chain };
    &&& is_silent(step)
    &&& chain.callbacks && !chain.announced ==> step.state == (FetchModel::Announce {
        chain: told,
        hop,
    })
    &&& !chain.callbacks || chain.announced ==> step.state == (FetchModel::Send { chain: told, hop })
}

/// A request whose mode is allowed is asked about if an interceptor is
/// installed, no redirect was followed and no sharing is at stake, whatever the
/// request is for; else it goes out. It counts as begun, and the fetch is
/// otherwise as it was. A mode that is not allowed is the error of the fetch.
pub proof fn law_interceptors_are_asked(
    chain: ChainModel,
    mode_check: Result<(), ErrorModel>,
    facts: FactsModel,
    extra_fields: Seq<FieldModel>,
    extra_headers: Map<Seq<char>, Seq<char>>,
    interceptor: bool,
)
    ensures
        ({
            let step = turn(
                FetchModel::Prepare { chain },
                FetchEvent::Prepared { mode_check, facts, extra_fields, extra_headers, interceptor },
            );
            let begun = ChainModel { begun: chain.begun + 1, ..chain };
            let asked = interceptor && chain.redirects.len() == 0 && !facts.cors;
            &&& mode_check is Err ==> fails_with(step, mode_check->Err_0)
            &&& mode_check is Ok && asked ==> {
                &&& is_silent(step)
                &&& step.state matches FetchModel::Intercept { chain: next, hop }
                &&& next == begun
                &&& is_request_for(hop, chain, facts, extra_fields, extra_headers)
            }
            &&& mode_check is Ok && !asked ==> exists|hop: HopModel| #[trigger]
                goes_out(step, begun, hop) && is_request_for(
                    hop,
                    chain,
                    facts,
                    extra_fields,
                    extra_headers,
                )
        }),
{
    let step = turn(
        FetchModel::Prepare { chain },
        FetchEvent::Prepared { mode_check, facts, extra_fields, extra_headers, interceptor },
    );
    let begun = ChainModel { begun: chain.begun + 1, ..chain };
    if mode_check is Ok && !(interceptor && chain.redirects.len() == 0 && !facts.cors) {
        let hop = match step.state {
            FetchModel::Announce { hop, .. } => hop,
            FetchModel::Send { hop, .. } => hop,
            _ => arbitrary(),
        };
        assert(goes_out(step, begun, hop));
    }
}

/// The interceptor's word holds for every request that it is asked about: one
/// that it lets pass goes out as it is, whether or not it sets headers for the
/// requests to come; one that it blocks fails by its address; one that it
/// fulfils is answered with what it supplies.
pub proof fn law_interceptors_are_heard(
    chain: ChainModel,
    hop: HopModel,
    headers: Map<Seq<char>, Seq<char>>,
    response: ResponseModel,
)
    ensures
        ({
            let state = FetchModel::Intercept { chain, hop };
            let pass = turn(state, FetchEvent::Intercepted { decision: DecisionModel::Continue });
            let set = turn(
                state,
                FetchEvent::Intercepted { decision: DecisionModel::ModifyHeaders(headers) },
            );
            let block = turn(state, FetchEvent::Intercepted { decision: DecisionModel::Block });
            let fulfil = turn(
                state,
                FetchEvent::Intercepted { decision: DecisionModel::Fulfill(response) },
            );
            &&& goes_out(pass, chain, hop)
            &&& goes_out(set, chain, hop)
            &&& fails_with(block, ErrorModel::Blocked(chain.current.href))
            &&& is_silent(fulfil)
            &&& fulfil.state == (FetchModel::Done { outcome: Ok(response), report: None })
        }),
{
}

/// A request that was announced goes out as it was announced.
pub proof fn law_announced_requests_go_out(chain: ChainModel, hop: HopModel)
    ensures
        ({
            let step = turn(FetchModel::Announce { chain, hop }, FetchEvent::Announced);
            is_silent(step) && step.state == (FetchModel::Send { chain, hop })
        }),
{
}

/// A request that could not be sent fails the fetch with its address, the error
/// and the cause.
pub proof fn law_unsent_requests_fail(
    chain: ChainModel,
    hop: HopModel,
    error: Seq<char>,
    source: Seq<char>,
)
    ensures
        fails_with(
            turn(FetchModel::Send { chain, hop }, FetchEvent::SendFailed { error, source }),
            ErrorModel::Network(chain.current.href + ": "@ + error + " (source: "@ + source + ")"@),
        ),
{
}

/// What a fetch keeps of an answer: its status, its header fields, the first
/// value of `location`, and the cookies that it sets, if and only if credentials
/// were allowed.
pub open spec fn is_kept_of(
    reply: ReplyModel,
    credentials: bool,
    status: u16,
    fields: Seq<(Seq<char>, Seq<u8>)>,
) -> bool {
    &&& reply.status == status
    &&& reply.headers == collected(text_fields(fields))
    &&& reply.location == first_value(fields, "location"@)
    &&& credentials ==> reply.cookies == visible_texts(values_of(fields, "set-cookie"@))
    &&& !credentials ==> reply.cookies.len() == 0
}

/// The answer is used. Its cookies are stored. If its status is in the three
/// hundreds and it has a `location`, the fetch goes on to the reference that the
/// value spells, or fails where it spells none; else the body is read.
pub open spec fn is_used(step: TurnModel, chain: ChainModel, hop: HopModel, reply: ReplyModel) -> bool {
    let redirects = 300 <= reply.status <= 399 && reply.location is Some;
    &&& step.charge == 0
    &&& !redirects ==> step.cookies == reply.cookies && step.state == (FetchModel::Body {
        chain,
        hop,
        reply,
    })
    &&& redirects ==> step.cookies == reply.cookies && match step.state {
        FetchModel::Resolve { chain: c, reply: r, reference } => c == chain && r == reply && spells(
            reference,
            reply.location->0,
        ),
        FetchModel::Done { outcome, report } => {
            &&& outcome == Err::<ResponseModel, ErrorModel>(
                ErrorModel::Network("Invalid redirect Location"@),
            )
            &&& report is None
            &&& forall|text: Seq<char>| !(#[trigger] spells(text, reply.location->0))
        },
        _ => false,
    }
}

proof fn lemma_location_is_read(value: Seq<u8>)
    ensures
        match field_text(value) {
            Some(text) => spells(text, value),
            None => forall|text: Seq<char>| !(#[trigger] spells(text, value)),
        },
{
    match field_text(value) {
        Some(text) => law_values_are_read_as_spelled(value, text),
        None => {
            assert forall|text: Seq<char>| !(#[trigger] spells(text, value)) by {
                law_values_are_read_as_spelled(value, text);
            }
        },
    }
}

/// What is read of an answer is what the answer says.
pub proof fn law_answers_are_kept(
    credentials: bool,
    status: u16,
    fields: Seq<(Seq<char>, Seq<u8>)>,
)
    ensures
        is_kept_of(reply_of(credentials, status, fields), credentials, status, fields),
{
}

/// The answer to a request whose response needs no permission to be shared is
/// used at once, for every status and all fields.
pub proof fn law_unshared_answers_are_used(
    chain: ChainModel,
    hop: HopModel,
    status: u16,
    fields: Seq<(Seq<char>, Seq<u8>)>,
)
    requires
        !hop.cors,
    ensures
        exists|reply: ReplyModel| #[trigger]
            is_kept_of(reply, hop.credentials, status, fields) && is_used(
                turn(FetchModel::Send { chain, hop }, FetchEvent::Responded { status, fields }),
                chain,
                hop,
                reply,
            ),
{
    let reply = reply_of(hop.credentials, status, fields);
    assert(is_kept_of(reply, hop.credentials, status, fields));
    law_sharing_is_judged_by_the_servers_answer(false, chain.current.href, fields);
    if reply.location is Some {
        lemma_location_is_read(reply.location->0);
    }
}

/// The answer to a request whose response needs the server's permission is held
/// until the permission is judged, whatever the credentials of the request are:
/// no cookie of it is stored, no redirect followed and no body read. The judge
/// is told what the server says in its two fields. Where those cannot be read
/// the fetch fails with the first that cannot.
pub proof fn law_shared_answers_are_held(
    chain: ChainModel,
    hop: HopModel,
    status: u16,
    fields: Seq<(Seq<char>, Seq<u8>)>,
)
    requires
        hop.cors,
    ensures
        ({
            let step = turn(
                FetchModel::Send { chain, hop },
                FetchEvent::Responded { status, fields },
            );
            let origins = values_of(fields, "access-control-allow-origin"@);
            let credentials = values_of(fields, "access-control-allow-credentials"@);
            &&& is_silent(step)
            &&& is_readable(origins) && is_readable(credentials) ==> {
                &&& step.state matches FetchModel::Cors { chain: c, hop: h, reply, answer }
                &&& c == chain
                &&& h == hop
                &&& is_kept_of(reply, hop.credentials, status, fields)
                &&& is_read_as(origins, answer.allow_origin)
                &&& is_read_as(credentials, answer.allow_credentials)
            }
            &&& !is_readable(origins) ==> fails_with(
                step,
                unreadable(origins, "access-control-allow-origin"@, chain.current.href),
            )
            &&& is_readable(origins) && !is_readable(credentials) ==> fails_with(
                step,
                unreadable(credentials, "access-control-allow-credentials"@, chain.current.href),
            )
        }),
{
    law_sharing_is_judged_by_the_servers_answer(true, chain.current.href, fields);
}

/// An answer whose sharing is allowed is used; one whose sharing is refused
/// fails the fetch with the refusal, and nothing of it is kept.
pub proof fn law_verdicts_decide(
    chain: ChainModel,
    hop: HopModel,
    reply: ReplyModel,
    answer: AnswerModel,
    e: ErrorModel,
)
    ensures
        ({
            let state = FetchModel::Cors { chain, hop, reply, answer };
            &&& is_used(turn(state, FetchEvent::Judged { verdict: Ok(()) }), chain, hop, reply)
            &&& fails_with(turn(state, FetchEvent::Judged { verdict: Err(e) }), e)
        }),
{
    if reply.location is Some {
        lemma_location_is_read(reply.location->0);
    }
}

/// A reference that resolves is checked as the next address; one that does not
/// fails the fetch with the reason.
pub proof fn law_references_are_checked_next(
    chain: ChainModel,
    reply: ReplyModel,
    reference: Seq<char>,
    next: UrlModel,
    e: Seq<char>,
)
    ensures
        ({
            let state = FetchModel::Resolve { chain, reply, reference };
            let step = turn(state, FetchEvent::Resolved { joined: Ok(next) });
            &&& is_silent(step)
            &&& step.state == (FetchModel::Redirect { chain, reply, next })
            &&& fails_with(
                turn(state, FetchEvent::Resolved { joined: Err(e) }),
                ErrorModel::Network("Invalid redirect URL: "@ + e),
            )
        }),
{
}

/// A redirect to an address that passed its checks is followed, for every
/// address and every answer, until twenty requests were begun; then the fetch
/// fails with the address that was asked for. Either way what the redirect took
/// on the wire is charged to the counters of the fetch. The fetch moves to the
/// new address and remembers the old one, what was charged, and whether a
/// redirect has left the origin. A redirect whose address did not pass fails the
/// fetch and is not charged.
pub proof fn law_checked_redirects_are_followed(
    chain: ChainModel,
    reply: ReplyModel,
    next: UrlModel,
    url_check: Result<(), ErrorModel>,
    mode_check: Result<(), ErrorModel>,
    taints: bool,
    hop_bytes: nat,
)
    ensures
        ({
            let step = turn(
                FetchModel::Redirect { chain, reply, next },
                FetchEvent::Redirected { url_check, mode_check, taints, hop_bytes },
            );
            let passed = url_check is Ok && mode_check is Ok;
            &&& passed ==> {
                &&& step.cookies.len() == 0
                &&& step.charge == hop_bytes
                &&& step.counters == chain.counters
                &&& chain.begun < 20 ==> {
                    &&& step.state matches FetchModel::Prepare { chain: after }
                    &&& after.current == next
                    &&& after.redirects == chain.redirects.push(chain.current)
                    &&& after.transfer == chain.transfer + hop_bytes
                    &&& after.tainted == (chain.tainted || taints)
                    &&& after.first == chain.first
                    &&& after.request == chain.request
                    &&& after.callbacks == chain.callbacks
                    &&& after.announced == chain.announced
                    &&& after.begun == chain.begun
                    &&& after.counters == chain.counters
                }
                &&& chain.begun >= 20 ==> step.state == (FetchModel::Done {
                    outcome: Err(ErrorModel::TooManyRedirects(chain.first.href)),
                    report: None,
                })
            }
            &&& url_check is Err ==> fails_with(step, url_check->Err_0)
            &&& url_check is Ok && mode_check is Err ==> fails_with(step, mode_check->Err_0)
        }),
{
}

/// A body that was read completes the response: the address at hand, the status
/// and the header fields of the answer, the body as it was read, the addresses
/// that redirected, and what all of them took on the wire. It is reported with
/// its request if and only if there are callbacks. A body that could not be read
/// fails the fetch with its error.
pub proof fn law_bodies_complete_responses(
    chain: ChainModel,
    hop: HopModel,
    reply: ReplyModel,
    body: Result<(Seq<u8>, nat), ErrorModel>,
)
    ensures
        ({
            let step = turn(FetchModel::Body { chain, hop, reply }, FetchEvent::BodyRead { body });
            &&& body is Ok ==> {
                &&& is_silent(step)
                &&& step.state matches FetchModel::Done { outcome: Ok(response), report }
                &&& response.url == chain.current
                &&& response.status == reply.status
                &&& response.headers == reply.headers
                &&& response.body == body->Ok_0.0
                &&& response.redirected_from == chain.redirects
                &&& response.transfer_bytes == chain.transfer + body->Ok_0.1
                &&& chain.callbacks ==> report == Some(hop.info)
                &&& !chain.callbacks ==> report is None
            }
            &&& body is Err ==> fails_with(step, body->Err_0)
        }),
{
}

/// A request is under way from the moment it is to be sent until its answer has
/// redirected, was refused or was read to its end, and at no other moment.
pub proof fn law_requests_are_under_way_from_end_to_end(
    chain: ChainModel,
    hop: HopModel,
    reply: ReplyModel,
    state: FetchModel,
)
    ensures
        is_in_flight(FetchModel::Send { chain, hop }),
        state is Cors || state is Resolve || state is Redirect || state is Body ==> is_in_flight(
            state,
        ),
        state is Admit || state is File || state is Prepare || state is Intercept || state
            is Announce || state is Done ==> !is_in_flight(state),
{
}

/// A step is settled by adding what it charges to the byte counter that it
/// names, modulo the width of a counter, and by counting its request; nothing
/// else of the client changes.
pub proof fn law_steps_are_settled(client: ClientModel, was: bool, step: TurnModel, place: usize)
    requires
        place < client.counts.len(),
    ensures
        ({
            let next = settled(client, was, step);
            let now = is_in_flight(step.state);
            &&& step.counters.bytes == Some(place) ==> next.counts[place as int] as int == (
            client.counts[place as int] + step.charge) % 0x1_0000_0000_0000_0000
            &&& step.counters.bytes != Some(place) ==> next.counts[place as int]
                == client.counts[place as int]
            &&& next.counts.len() == client.counts.len()
            &&& was == now ==> next.in_flight == client.in_flight
            &&& !was && now && client.in_flight < u32::MAX ==> next.in_flight == client.in_flight + 1
            &&& was && !now && client.in_flight > 0 ==> next.in_flight == client.in_flight - 1
            &&& next.config == client.config
            &&& next.extra_headers == client.extra_headers
            &&& next.extra_fields == client.extra_fields
            &&& next.interceptor == client.interceptor
            &&& next.counters == client.counters
        }),
{
}

} // verus!
