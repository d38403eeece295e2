//! What holds of every fetch, whatever happens in it.

use vstd::prelude::*;
use crate::address::{joined_url, url_of_parts, UrlModel};
use crate::chain::{
    awaits, failed, is_in_flight, new_chain, quiet, reply_in, turn, ChainModel, DecisionModel,
    FetchEvent, FetchModel, HopModel, ReplyModel, TurnModel, MAX_HOPS,
};
use crate::client::{
    added_at, charged_all, count_after, is_estimate, law_measured_charges_estimate_nothing,
    lemma_nothing_added, no_counters, total_bytes, ClientModel, Counters, Estimated,
};
use crate::cors::law_sharing_is_judged_by_the_servers_answer;
use crate::error::ErrorModel;
use crate::fields::{
    first_value, is_field_name, law_first_fields_win, lemma_collected_names, lower_case_names,
    text_fields,
};
use crate::message::{blocked_model, is_redirection, ResponseModel};
use crate::reader::{
    after_all, body_charges, charged_for, charges_for, counts_on, counts_up, fresh,
    law_complete_transfers_are_charged_once, law_measured_transfers_are_not_estimated, wire_total,
    Arrival, Charge, ReaderModel,
};
use crate::steps::law_shared_answers_are_held;
use crate::table::collected;
use crate::text::{field_text, same_ignoring_case};

verus! {

/// The last step of a fetch that is at `start` and then lives through `events`.
pub open spec fn run(start: ChainModel, events: Seq<FetchEvent>) -> TurnModel
    decreases events.len(),
{
    if events.len() == 0 {
        quiet(FetchModel::Admit { chain: start })
    } else {
        turn(run(start, events.drop_last()).state, events.last())
    }
}

/// Every event comes when the fetch waits for it.
pub open spec fn is_run(start: ChainModel, events: Seq<FetchEvent>) -> bool
    decreases events.len(),
{
    events.len() > 0 ==> is_run(start, events.drop_last()) && awaits(
        run(start, events.drop_last()).state,
        events.last(),
    )
}

/// The bytes that a fetch charges for its redirects.
pub open spec fn hop_charges(start: ChainModel, events: Seq<FetchEvent>) -> nat
    decreases events.len(),
{
    if events.len() == 0 {
        0
    } else {
        hop_charges(start, events.drop_last()) + run(start, events).charge
    }
}

/// How many requests a fetch sends.
pub open spec fn sends(start: ChainModel, events: Seq<FetchEvent>) -> nat
    decreases events.len(),
{
    if events.len() == 0 {
        0
    } else if run(start, events).state is Send {
        sends(start, events.drop_last()) + 1
    } else {
        sends(start, events.drop_last())
    }
}

/// How often a fetch asks the interceptor.
pub open spec fn interceptions(start: ChainModel, events: Seq<FetchEvent>) -> nat
    decreases events.len(),
{
    if events.len() == 0 {
        0
    } else if run(start, events).state is Intercept {
        interceptions(start, events.drop_last()) + 1
    } else {
        interceptions(start, events.drop_last())
    }
}

/// How often a fetch calls the request callback.
pub open spec fn announcements(start: ChainModel, events: Seq<FetchEvent>) -> nat
    decreases events.len(),
{
    if events.len() == 0 {
        0
    } else {
        announcements(start, events.drop_last()) + once(run(start, events).state is Announce)
    }
}

/// The cookies that a fetch stores, in order.
pub open spec fn stored_cookies(start: ChainModel, events: Seq<FetchEvent>) -> Seq<Seq<char>>
    decreases events.len(),
{
    if events.len() == 0 {
        Seq::empty()
    } else {
        stored_cookies(start, events.drop_last()) + run(start, events).cookies
    }
}

/// The addresses that a fetch sends requests to, in order.
pub open spec fn visited(start: ChainModel, events: Seq<FetchEvent>) -> Seq<UrlModel>
    decreases events.len(),
{
    if events.len() == 0 {
        Seq::empty()
    } else {
        match run(start, events).state {
            FetchModel::Send { chain, .. } => visited(start, events.drop_last()).push(chain.current),
            _ => visited(start, events.drop_last()),
        }
    }
}

/// A redirect was found to leave the origin that the request is made for.
pub open spec fn taint_found(start: ChainModel, events: Seq<FetchEvent>) -> bool
    decreases events.len(),
{
    events.len() > 0 && (taint_found(start, events.drop_last()) || (events.last() matches
        FetchEvent::Redirected { taints, .. } && taints))
}

/// A fetch that was just asked for.
pub open spec fn is_new(start: ChainModel) -> bool {
    start == new_chain(start.first, start.request, start.callbacks)
}

/// One for what holds, zero for what does not.
pub open spec fn once(b: bool) -> nat {
    if b {
        1
    } else {
        0
    }
}

/// The counters that a fetch takes before its first request.
pub open spec fn taken(events: Seq<FetchEvent>) -> Counters {
    if events.len() > 0 {
        match events[0] {
            FetchEvent::Admitted { counters, .. } => counters,
            _ => no_counters(),
        }
    } else {
        no_counters()
    }
}

/// What a chain keeps of the fetch it belongs to.
spec fn belongs(chain: ChainModel, start: ChainModel, events: Seq<FetchEvent>) -> bool {
    let charges = hop_charges(start, events);
    &&& chain.tainted == taint_found(start, events)
    &&& chain.first == start.first
    &&& chain.request == start.request
    &&& chain.callbacks == start.callbacks
    &&& chain.transfer == charges
    &&& chain.counters == taken(events)
    &&& chain.redirects.len() == 0 ==> chain.current == start.first && charges == 0
    &&& chain.redirects.len() > 0 ==> chain.redirects[0] == start.first
    &&& chain.redirects.len() <= chain.begun <= MAX_HOPS
}

/// A request of the chain is under way.
spec fn under_way(chain: ChainModel, start: ChainModel, events: Seq<FetchEvent>) -> bool {
    &&& belongs(chain, start, events)
    &&& chain.redirects.len() + 1 == chain.begun
    &&& sends(start, events) == chain.begun
    &&& visited(start, events) =~= chain.redirects.push(chain.current)
    &&& chain.announced
    &&& announcements(start, events) == once(start.callbacks)
}

/// The request is for the address at hand.
spec fn about(hop: HopModel, chain: ChainModel) -> bool {
    hop.info.url == chain.current && hop.info.method == "GET"@
}

spec fn invariant_of(start: ChainModel, events: Seq<FetchEvent>) -> bool {
    match run(start, events).state {
        FetchModel::Admit { chain } => {
            &&& chain == start
            &&& events.len() == 0
        },
        FetchModel::File { url, limit } => {
            &&& hop_charges(start, events) == 0
            &&& sends(start, events) == 0
            &&& announcements(start, events) == 0
            &&& interceptions(start, events) == 0
        },
        FetchModel::Prepare { chain } => {
            &&& belongs(chain, start, events)
            &&& chain.redirects.len() == chain.begun < MAX_HOPS
            &&& visited(start, events) =~= chain.redirects
            &&& sends(start, events) == chain.begun
            &&& chain.announced == (chain.begun > 0)
            &&& announcements(start, events) == once(start.callbacks && chain.begun > 0)
            &&& chain.begun == 0 ==> interceptions(start, events) == 0 && stored_cookies(start, events)
                =~= Seq::empty()
            &&& interceptions(start, events) <= 1
        },
        FetchModel::Intercept { chain, hop } => {
            &&& belongs(chain, start, events)
            &&& chain.redirects.len() == 0
            &&& chain.begun == 1
            &&& !hop.cors
            &&& !chain.announced
            &&& sends(start, events) == 0
            &&& visited(start, events) =~= Seq::empty()
            &&& about(hop, chain)
            &&& announcements(start, events) == 0
            &&& interceptions(start, events) == 1
            &&& stored_cookies(start, events) =~= Seq::empty()
        },
        FetchModel::Announce { chain, hop } => {
            &&& belongs(chain, start, events)
            &&& start.callbacks
            &&& chain.announced
            &&& chain.redirects.len() == 0
            &&& chain.begun == 1
            &&& about(hop, chain)
            &&& sends(start, events) == 0
            &&& visited(start, events) =~= Seq::empty()
            &&& announcements(start, events) == 1
            &&& interceptions(start, events) <= 1
            &&& stored_cookies(start, events) =~= Seq::empty()
        },
        FetchModel::Send { chain, hop } => under_way(chain, start, events) && about(hop, chain)
            && interceptions(start, events) <= 1,
        FetchModel::Cors { chain, hop, reply, answer } => under_way(chain, start, events) && about(hop, chain)
            && interceptions(start, events) <= 1,
        FetchModel::Resolve { chain, reply, reference } => under_way(chain, start, events)
            && interceptions(start, events) <= 1,
        FetchModel::Redirect { chain, reply, next } => under_way(chain, start, events)
            && interceptions(start, events) <= 1,
        FetchModel::Body { chain, hop, reply } => under_way(chain, start, events) && about(hop, chain)
            && interceptions(start, events) <= 1,
        FetchModel::Done { outcome, report } => {
            &&& sends(start, events) <= MAX_HOPS
            &&& announcements(start, events) == once(start.callbacks && sends(start, events) > 0)
            &&& interceptions(start, events) <= 1
        },
    }
}

#[verifier::spinoff_prover]
#[verifier::rlimit(40)]
proof fn lemma_invariant(start: ChainModel, events: Seq<FetchEvent>)
    requires
        is_new(start),
        is_run(start, events),
    ensures
        invariant_of(start, events),
    decreases events.len(),
{
    if events.len() > 0 {
        let front = events.drop_last();
        lemma_invariant(start, front);
        if front.len() == 0 {
            assert(sends(start, front) == 0 && announcements(start, front) == 0);
            assert(interceptions(start, front) == 0 && hop_charges(start, front) == 0);
            assert(stored_cookies(start, front) =~= Seq::empty());
            assert(visited(start, front) =~= Seq::empty());
            assert(!taint_found(start, front));
        }
    }
}

/// A fetch sends at most twenty requests.
pub proof fn law_requests_are_bounded(start: ChainModel, events: Seq<FetchEvent>)
    requires
        is_new(start),
        is_run(start, events),
    ensures
        sends(start, events) <= 20,
{
    lemma_invariant(start, events);
}

/// The redirect that the twentieth request is answered with is not followed:
/// the fetch fails, and names the address that was asked for. Any redirect
/// before it is followed.
pub proof fn law_long_chains_fail(start: ChainModel, events: Seq<FetchEvent>)
    requires
        is_new(start),
        is_run(start, events),
        events.len() > 0,
        events.last() matches FetchEvent::Redirected { url_check, mode_check, .. } && url_check is Ok
            && mode_check is Ok,
    ensures
        sends(start, events) == 20 ==> run(start, events).state == (FetchModel::Done {
            outcome: Err(ErrorModel::TooManyRedirects(start.first.href)),
            report: None,
        }),
        sends(start, events) < 20 ==> run(start, events).state is Prepare,
{
    lemma_invariant(start, events.drop_last());
    lemma_invariant(start, events);
}

/// The interceptor is asked at most once in a fetch: about the address that was
/// asked for, before anything is sent or charged, and only where no sharing is
/// at stake.
pub proof fn law_interception_comes_first(start: ChainModel, events: Seq<FetchEvent>)
    requires
        is_new(start),
        is_run(start, events),
    ensures
        interceptions(start, events) <= 1,
        run(start, events).state matches FetchModel::Intercept { chain, hop } ==> {
            &&& !hop.cors
            &&& chain.current == start.first
            &&& sends(start, events) == 0
            &&& hop_charges(start, events) == 0
            &&& announcements(start, events) == 0
        },
{
    lemma_invariant(start, events);
}

/// A response that the interceptor supplies is handed on as it is: nothing was
/// sent, nothing is charged, no cookie is stored and no callback is called.
pub proof fn law_fulfilled_responses_cost_nothing(
    start: ChainModel,
    events: Seq<FetchEvent>,
    response: ResponseModel,
)
    requires
        is_new(start),
        is_run(start, events),
        events.len() > 0,
        events.last() == (FetchEvent::Intercepted { decision: DecisionModel::Fulfill(response) }),
    ensures
        run(start, events).state == (FetchModel::Done { outcome: Ok(response), report: None }),
        sends(start, events) == 0,
        hop_charges(start, events) == 0,
        announcements(start, events) == 0,
        stored_cookies(start, events) == Seq::<Seq<char>>::empty(),
{
    lemma_invariant(start, events.drop_last());
}

/// The request callback is called once in a fetch that sends anything, if
/// there are callbacks, before the first request goes out, however often the
/// fetch is redirected.
pub proof fn law_requests_are_announced_once(start: ChainModel, events: Seq<FetchEvent>)
    requires
        is_new(start),
        is_run(start, events),
    ensures
        announcements(start, events) <= 1,
        start.callbacks && sends(start, events) > 0 ==> announcements(start, events) == 1,
        !start.callbacks ==> announcements(start, events) == 0,
        run(start, events).state matches FetchModel::Announce { hop, .. } ==> {
            &&& sends(start, events) == 0
            &&& hop.info.url == start.first
        },
{
    lemma_invariant(start, events);
}

/// A complete response reports what it took on the wire, and what each redirect
/// before it was charged with, once. Its body is within the limit of the
/// request.
pub proof fn law_each_hop_is_charged_once(
    start: ChainModel,
    events: Seq<FetchEvent>,
    body: Seq<u8>,
    wire: nat,
)
    requires
        is_new(start),
        is_run(start, events),
        events.len() > 0,
        events.last() == (FetchEvent::BodyRead { body: Ok((body, wire)) }),
    ensures
        run(start, events).state matches FetchModel::Done { outcome: Ok(response), .. } && {
            &&& response.body == body
            &&& body.len() <= start.request.max_response_bytes
            &&& response.transfer_bytes == hop_charges(start, events) + wire
        },
{
    lemma_invariant(start, events.drop_last());
}

/// A complete response names every address that was requested, in order, from
/// the one that was asked for to its own. It is reported, where there are
/// callbacks, as the answer to the GET request for its own address.
pub proof fn law_responses_name_their_way(
    start: ChainModel,
    events: Seq<FetchEvent>,
    body: Seq<u8>,
    wire: nat,
)
    requires
        is_new(start),
        is_run(start, events),
        events.len() > 0,
        events.last() == (FetchEvent::BodyRead { body: Ok((body, wire)) }),
    ensures
        run(start, events).state matches FetchModel::Done { outcome: Ok(response), report } && {
            &&& response.redirected_from.push(response.url) == visited(start, events)
            &&& visited(start, events)[0] == start.first
            &&& visited(start, events).len() == sends(start, events)
            &&& report is Some <==> start.callbacks
            &&& report is Some ==> report->0.url == response.url && report->0.method == "GET"@
        },
{
    lemma_invariant(start, events.drop_last());
}

/// Once a redirect has left the origin that the request is made for, every
/// request after it is prepared as one that has.
pub proof fn law_taint_stays(start: ChainModel, events: Seq<FetchEvent>)
    requires
        is_new(start),
        is_run(start, events),
    ensures
        run(start, events).state matches FetchModel::Prepare { chain } ==> chain.tainted
            == taint_found(start, events),
{
    lemma_invariant(start, events);
}

/// Headers that the interceptor sets do not change the request that it was
/// asked about.
pub proof fn law_modified_headers_come_later(state: FetchModel, headers: Map<Seq<char>, Seq<char>>)
    requires
        state is Intercept,
    ensures
        turn(
            state,
            FetchEvent::Intercepted { decision: DecisionModel::ModifyHeaders(headers) },
        ) == turn(state, FetchEvent::Intercepted { decision: DecisionModel::Continue }),
{
}

/// A blocked host is answered with status 0, without a request, a charge or a
/// callback.
pub proof fn law_blocked_hosts_are_not_contacted(
    start: ChainModel,
    events: Seq<FetchEvent>,
    counters: Counters,
)
    requires
        is_new(start),
        start.first.scheme != "file"@,
        start.first.host is Some,
        events == seq![
            FetchEvent::Admitted {
                url_check: Ok(()),
                mode_check: Ok(()),
                host_blocked: true,
                counters,
            },
        ],
    ensures
        is_run(start, events),
        run(start, events).state == (FetchModel::Done {
            outcome: Ok(blocked_model(start.first)),
            report: None,
        }),
        blocked_model(start.first).status == 0,
        sends(start, events) == 0,
        hop_charges(start, events) == 0,
        announcements(start, events) == 0,
{
    assert(events.drop_last() =~= Seq::empty());
    reveal_with_fuel(is_run, 2);
    reveal_with_fuel(run, 2);
    reveal_with_fuel(sends, 2);
    reveal_with_fuel(hop_charges, 2);
    reveal_with_fuel(announcements, 2);
}

/// What each step of a fetch charges, in order.
pub open spec fn step_charges(start: ChainModel, events: Seq<FetchEvent>) -> Seq<Charge>
    decreases events.len(),
{
    if events.len() == 0 {
        Seq::empty()
    } else {
        step_charges(start, events.drop_last()).push(
            Charge::Bytes(run(start, events).charge as u64),
        )
    }
}

/// Charges, each with what the estimator would have added, which is asked only
/// about estimates.
pub open spec fn posted(charges: Seq<Charge>, estimated: Estimated) -> Seq<(Charge, Estimated)> {
    charges.map_values(|c: Charge| (c, estimated))
}

/// What a fetch charges in all, in order: its steps, and the body before the
/// last of them.
pub open spec fn all_charges(
    start: ChainModel,
    events: Seq<FetchEvent>,
    reader: ReaderModel,
    arrivals: Seq<Arrival>,
    received: u64,
) -> Seq<Charge> {
    step_charges(start, events.drop_last()) + body_charges(reader, arrivals, received) + seq![
        Charge::Bytes(run(start, events).charge as u64),
    ]
}

proof fn lemma_total_of_sum(a: Seq<(Charge, Estimated)>, b: Seq<(Charge, Estimated)>)
    ensures
        total_bytes(a + b) == total_bytes(a) + total_bytes(b),
    decreases b.len(),
{
    if b.len() == 0 {
        assert(a + b =~= a);
    } else {
        assert((a + b).drop_last() =~= a + b.drop_last());
        lemma_total_of_sum(a, b.drop_last());
    }
}

proof fn lemma_step_charges(start: ChainModel, events: Seq<FetchEvent>, estimated: Estimated)
    requires
        hop_charges(start, events) <= u64::MAX,
    ensures
        total_bytes(posted(step_charges(start, events), estimated)) == hop_charges(start, events),
        forall|i: int|
            0 <= i < step_charges(start, events).len() ==> (#[trigger] step_charges(
                start,
                events,
            )[i]) is Bytes,
    decreases events.len(),
{
    if events.len() > 0 {
        lemma_step_charges(start, events.drop_last(), estimated);
        assert(posted(step_charges(start, events), estimated).drop_last() =~= posted(
            step_charges(start, events.drop_last()),
            estimated,
        ));
    }
}

proof fn lemma_body_charges(reader: ReaderModel, arrivals: Seq<Arrival>, estimated: Estimated)
    requires
        reader.measured,
    ensures
        total_bytes(posted(charges_for(reader, arrivals), estimated)) == charged_for(
            reader,
            arrivals,
        ),
        forall|i: int|
            0 <= i < charges_for(reader, arrivals).len() ==> (#[trigger] charges_for(
                reader,
                arrivals,
            )[i]) is Bytes,
    decreases arrivals.len(),
{
    law_measured_transfers_are_not_estimated(reader, arrivals, 0);
    let all = posted(charges_for(reader, arrivals), estimated);
    if arrivals.len() > 0 {
        lemma_body_charges(reader, arrivals.drop_last(), estimated);
        assert(all.drop_last() =~= posted(
            charges_for(reader, arrivals.drop_last()),
            estimated,
        ));
    } else {
        assert(all.drop_last() =~= Seq::empty());
        assert(total_bytes(Seq::<(Charge, Estimated)>::empty()) == 0);
    }
}

/// A fetch charges its redirects and its body to the counters that it took
/// before its first request, whichever are installed by then: a step adds to the
/// counts what it would add if it charged the byte counter among those.
pub proof fn law_fetches_keep_their_counters(
    start: ChainModel,
    events: Seq<FetchEvent>,
    counts: Seq<u64>,
)
    requires
        is_new(start),
        is_run(start, events),
    ensures
        run(start, events).charge > 0 ==> run(start, events).counters == taken(events),
        added_at(counts, run(start, events).counters.bytes, run(start, events).charge) == added_at(
            counts,
            taken(events).bytes,
            run(start, events).charge,
        ),
        run(start, events).state matches FetchModel::Body { chain, .. } ==> chain.counters == taken(
            events,
        ),
{
    lemma_invariant(start, events);
    if events.len() > 0 {
        lemma_invariant(start, events.drop_last());
    }
    if run(start, events).charge == 0 {
        lemma_nothing_added(counts, run(start, events).counters.bytes);
        lemma_nothing_added(counts, taken(events).bytes);
    }
}

/// Over a whole fetch whose body the transport counts, the byte counter that
/// the fetch took grows by what the response reports to have taken on the wire,
/// modulo its width: each redirect and the body are charged once. Every other
/// counter stays as it was, and so does everything else of the client.
pub proof fn law_counter_grows_by_the_transfer(
    client: ClientModel,
    start: ChainModel,
    events: Seq<FetchEvent>,
    reader: ReaderModel,
    arrivals: Seq<Arrival>,
    received: u64,
    estimated: Estimated,
)
    requires
        is_new(start),
        is_run(start, events),
        events.len() > 0,
        fresh(reader),
        reader.measured,
        counts_up(reader, arrivals),
        counts_on(after_all(reader, arrivals), received),
        hop_charges(start, events) <= u64::MAX,
        events.last() == (FetchEvent::BodyRead {
            body: Ok(
                (
                    after_all(reader, arrivals).body,
                    wire_total(after_all(reader, arrivals), received),
                ),
            ),
        }),
    ensures
        run(start, events).state matches FetchModel::Done { outcome: Ok(response), .. } && {
            let charges = posted(
                all_charges(start, events, reader, arrivals, received),
                estimated,
            );
            &&& response.transfer_bytes == total_bytes(charges)
            &&& charged_all(client, taken(events), charges) == (ClientModel {
                counts: added_at(client.counts, taken(events).bytes, response.transfer_bytes),
                ..client
            })
        },
{
    let front = events.drop_last();
    let body = after_all(reader, arrivals).body;
    let wire = wire_total(after_all(reader, arrivals), received);
    law_each_hop_is_charged_once(start, events, body, wire);
    law_complete_transfers_are_charged_once(reader, arrivals, received);
    lemma_step_charges(start, front, estimated);
    lemma_body_charges(reader, arrivals, estimated);
    law_measured_transfers_are_not_estimated(reader, arrivals, received);
    let steps = posted(step_charges(start, front), estimated);
    let inner = posted(body_charges(reader, arrivals, received), estimated);
    let last = seq![(Charge::Bytes(run(start, events).charge as u64), estimated)];
    let charges = posted(all_charges(start, events, reader, arrivals, received), estimated);
    assert(inner.drop_last() =~= posted(charges_for(reader, arrivals), estimated));
    assert(last.drop_last() =~= Seq::empty());
    assert(total_bytes(Seq::<(Charge, Estimated)>::empty()) == 0);
    assert(charges =~= steps + inner + last);
    lemma_total_of_sum(steps + inner, last);
    lemma_total_of_sum(steps, inner);
    assert(run(start, events).charge == 0);
    assert forall|i: int| 0 <= i < charges.len() implies !is_estimate((#[trigger] charges[i]).0) by {
        if i < steps.len() {
            assert(charges[i].0 == step_charges(start, front)[i]);
        } else if i < steps.len() + inner.len() - 1 {
            assert(charges[i].0 == charges_for(reader, arrivals)[i - steps.len()]);
        }
    }
    law_measured_charges_estimate_nothing(client, taken(events), charges);
}

/// The header fields of the responses that a fetch followed a redirect of, in
/// order.
pub open spec fn hop_headers(start: ChainModel, events: Seq<FetchEvent>) -> Seq<
    Map<Seq<char>, Seq<char>>,
>
    decreases events.len(),
{
    if events.len() == 0 {
        Seq::empty()
    } else {
        let before = hop_headers(start, events.drop_last());
        match (run(start, events.drop_last()).state, events.last()) {
            (
                FetchModel::Redirect { reply, .. },
                FetchEvent::Redirected { url_check: Ok(_), mode_check: Ok(_), .. },
            ) => before.push(reply.headers),
            _ => before,
        }
    }
}

/// Every redirect is charged with `size` of the header fields of its response.
pub open spec fn hops_are_sized(
    start: ChainModel,
    events: Seq<FetchEvent>,
    size: spec_fn(Map<Seq<char>, Seq<char>>) -> nat,
) -> bool
    decreases events.len(),
{
    events.len() > 0 ==> {
        &&& hops_are_sized(start, events.drop_last(), size)
        &&& match (run(start, events.drop_last()).state, events.last()) {
            (FetchModel::Redirect { reply, .. }, FetchEvent::Redirected { hop_bytes, .. }) =>
            hop_bytes == size(reply.headers),
            _ => true,
        }
    }
}

/// The sizes of header fields, added up.
pub open spec fn sum_of_sizes(
    hops: Seq<Map<Seq<char>, Seq<char>>>,
    size: spec_fn(Map<Seq<char>, Seq<char>>) -> nat,
) -> nat
    decreases hops.len(),
{
    if hops.len() == 0 {
        0
    } else {
        sum_of_sizes(hops.drop_last(), size) + size(hops.last())
    }
}

/// A redirect is charged for the header fields of its response and for nothing
/// else.
pub proof fn law_redirects_are_charged_for_their_headers(
    start: ChainModel,
    events: Seq<FetchEvent>,
    size: spec_fn(Map<Seq<char>, Seq<char>>) -> nat,
)
    requires
        is_run(start, events),
        hops_are_sized(start, events, size),
    ensures
        hop_charges(start, events) == sum_of_sizes(hop_headers(start, events), size),
    decreases events.len(),
{
    if events.len() > 0 {
        let front = events.drop_last();
        law_redirects_are_charged_for_their_headers(start, front, size);
        let hops = hop_headers(start, events);
        if hops != hop_headers(start, front) {
            assert(hops.drop_last() =~= hop_headers(start, front));
        }
    }
}

/// The checks of a run report what `url_ok` and `mode_ok` say of the addresses
/// that are checked.
pub open spec fn checks_report(
    start: ChainModel,
    events: Seq<FetchEvent>,
    url_ok: spec_fn(UrlModel) -> bool,
    mode_ok: spec_fn(UrlModel) -> bool,
) -> bool
    decreases events.len(),
{
    events.len() > 0 ==> {
        &&& checks_report(start, events.drop_last(), url_ok, mode_ok)
        &&& match (run(start, events.drop_last()).state, events.last()) {
            (
                FetchModel::Admit { chain },
                FetchEvent::Admitted { url_check, mode_check, .. },
            ) => {
                &&& url_check is Ok <==> url_ok(chain.current)
                &&& mode_check is Ok <==> mode_ok(chain.current)
            },
            (FetchModel::Prepare { chain }, FetchEvent::Prepared { mode_check, .. }) => {
                mode_check is Ok <==> mode_ok(chain.current)
            },
            (
                FetchModel::Redirect { next, .. },
                FetchEvent::Redirected { url_check, mode_check, .. },
            ) => {
                &&& url_check is Ok <==> url_ok(next)
                &&& mode_check is Ok <==> mode_ok(next)
            },
            _ => true,
        }
    }
}

/// The chain that a state belongs to.
spec fn chain_of(state: FetchModel) -> Option<ChainModel> {
    match state {
        FetchModel::Admit { chain } => None,
        FetchModel::File { .. } => None,
        FetchModel::Prepare { chain } => Some(chain),
        FetchModel::Intercept { chain, .. } => Some(chain),
        FetchModel::Announce { chain, .. } => Some(chain),
        FetchModel::Send { chain, .. } => Some(chain),
        FetchModel::Cors { chain, .. } => Some(chain),
        FetchModel::Resolve { chain, .. } => Some(chain),
        FetchModel::Redirect { chain, .. } => Some(chain),
        FetchModel::Body { chain, .. } => Some(chain),
        FetchModel::Done { .. } => None,
    }
}

#[verifier::spinoff_prover]
#[verifier::rlimit(40)]
proof fn lemma_access(
    start: ChainModel,
    events: Seq<FetchEvent>,
    url_ok: spec_fn(UrlModel) -> bool,
    mode_ok: spec_fn(UrlModel) -> bool,
)
    requires
        is_run(start, events),
        checks_report(start, events, url_ok, mode_ok),
    ensures
        chain_of(run(start, events).state) matches Some(chain) ==> url_ok(chain.current) && mode_ok(
            chain.current,
        ),
        forall|i: int|
            0 <= i < visited(start, events).len() ==> url_ok(
                #[trigger] visited(start, events)[i],
            ) && mode_ok(visited(start, events)[i]),
    decreases events.len(),
{
    if events.len() > 0 {
        let before = visited(start, events.drop_last());
        let after = visited(start, events);
        lemma_access(start, events.drop_last(), url_ok, mode_ok);
        assert forall|i: int| 0 <= i < after.len() implies url_ok(#[trigger] after[i]) && mode_ok(
            after[i],
        ) by {
            if i < before.len() {
                assert(after[i] == before[i]);
            }
        }
    }
}

/// Every address that a request goes to, the one that was asked for and those
/// that redirects lead to, has passed the check of the address and the check of
/// the mode.
pub proof fn law_requests_go_to_checked_addresses(
    start: ChainModel,
    events: Seq<FetchEvent>,
    url_ok: spec_fn(UrlModel) -> bool,
    mode_ok: spec_fn(UrlModel) -> bool,
    i: int,
)
    requires
        is_run(start, events),
        checks_report(start, events, url_ok, mode_ok),
        0 <= i < visited(start, events).len(),
    ensures
        url_ok(visited(start, events)[i]),
        mode_ok(visited(start, events)[i]),
{
    lemma_access(start, events, url_ok, mode_ok);
}

/// A failed check ends the fetch with its error, the check of the address
/// before that of the mode, and nothing more is sent.
pub proof fn law_failed_checks_end_the_fetch(start: ChainModel, events: Seq<FetchEvent>)
    requires
        is_run(start, events),
        events.len() > 0,
    ensures
        events.last() matches FetchEvent::Admitted { url_check, mode_check, .. } ==> {
            &&& url_check is Err ==> run(start, events) == quiet(failed(url_check->Err_0))
            &&& url_check is Ok && mode_check is Err ==> run(start, events) == quiet(
                failed(mode_check->Err_0),
            )
        },
        events.last() matches FetchEvent::Prepared { mode_check, .. } ==> {
            mode_check is Err ==> run(start, events) == quiet(failed(mode_check->Err_0))
        },
        events.last() matches FetchEvent::Redirected { url_check, mode_check, .. } ==> {
            &&& url_check is Err ==> run(start, events) == quiet(failed(url_check->Err_0))
            &&& url_check is Ok && mode_check is Err ==> run(start, events) == quiet(
                failed(mode_check->Err_0),
            )
        },
        run(start, events).state is Done ==> visited(start, events) == visited(
            start,
            events.drop_last(),
        ) && sends(start, events) == sends(start, events.drop_last()),
{
}

/// What the servers answered, in order: the status, and the value of
/// `location`.
pub open spec fn answers(start: ChainModel, events: Seq<FetchEvent>) -> Seq<
    (u16, Option<Seq<u8>>),
>
    decreases events.len(),
{
    if events.len() == 0 {
        Seq::empty()
    } else {
        match events.last() {
            FetchEvent::Responded { status, fields } => answers(start, events.drop_last()).push(
                (status, first_value(fields, "location"@)),
            ),
            _ => answers(start, events.drop_last()),
        }
    }
}

/// The answer redirects from one address to the other.
pub open spec fn leads(from: UrlModel, answer: (u16, Option<Seq<u8>>), to: UrlModel) -> bool {
    &&& is_redirection(answer.0)
    &&& answer.1 is Some
    &&& field_text(answer.1->0) is Some
    &&& url_of_parts(joined_url(from.href, field_text(answer.1->0)->0)) == Ok::<
        UrlModel,
        Seq<char>,
    >(to)
}

/// The request is answered, and the answer is the last one.
spec fn is_answered(reply: ReplyModel, start: ChainModel, events: Seq<FetchEvent>) -> bool {
    &&& answers(start, events).len() == visited(start, events).len() > 0
    &&& answers(start, events).last() == (reply.status, reply.location)
}

#[verifier::spinoff_prover]
#[verifier::rlimit(40)]
proof fn lemma_way(start: ChainModel, events: Seq<FetchEvent>)
    requires
        is_new(start),
        is_run(start, events),
    ensures
        forall|i: int|
            0 <= i < visited(start, events).len() - 1 ==> leads(
                visited(start, events)[i],
                #[trigger] answers(start, events)[i],
                visited(start, events)[i + 1],
            ),
        answers(start, events).len() <= visited(start, events).len() <= answers(
            start,
            events,
        ).len() + 1,
        match run(start, events).state {
            FetchModel::Admit { .. } => visited(start, events).len() == 0,
            FetchModel::File { .. } => true,
            FetchModel::Prepare { chain } => {
                &&& answers(start, events).len() == visited(start, events).len()
                &&& visited(start, events).len() > 0 ==> leads(
                    visited(start, events).last(),
                    answers(start, events).last(),
                    chain.current,
                )
            },
            FetchModel::Intercept { .. } => visited(start, events).len() == 0,
            FetchModel::Announce { .. } => visited(start, events).len() == 0,
            FetchModel::Send { chain, .. } => answers(start, events).len() + 1 == visited(
                start,
                events,
            ).len(),
            FetchModel::Cors { reply, .. } => is_answered(reply, start, events),
            FetchModel::Resolve { reply, reference, .. } => {
                &&& is_answered(reply, start, events)
                &&& is_redirection(reply.status)
                &&& reply.location is Some
                &&& field_text(reply.location->0) == Some(reference)
            },
            FetchModel::Redirect { chain, reply, next } => {
                &&& is_answered(reply, start, events)
                &&& leads(chain.current, answers(start, events).last(), next)
            },
            FetchModel::Body { reply, .. } => is_answered(reply, start, events),
            FetchModel::Done { .. } => true,
        },
    decreases events.len(),
{
    lemma_invariant(start, events);
    if events.len() > 0 {
        let front = events.drop_last();
        lemma_way(start, front);
        lemma_invariant(start, front);
        let before = visited(start, front);
        let after = visited(start, events);
        assert forall|i: int| 0 <= i < after.len() - 1 implies leads(
            after[i],
            #[trigger] answers(start, events)[i],
            after[i + 1],
        ) by {
            if i < before.len() - 1 {
                assert(leads(before[i], answers(start, front)[i], before[i + 1]));
            } else {
                assert(run(start, events).state is Send);
                assert(after.len() == before.len() + 1);
                assert(answers(start, front) == answers(start, events));
                assert(i == before.len() - 1);
            }
        }
    }
}

/// A fetch goes where the servers send it: each address that it requests after
/// the first is the reference that the answer before redirected to, resolved
/// against the address that answered.
pub proof fn law_redirects_lead_the_way(start: ChainModel, events: Seq<FetchEvent>, i: int)
    requires
        is_new(start),
        is_run(start, events),
        0 <= i < visited(start, events).len() - 1,
    ensures
        leads(
            visited(start, events)[i],
            answers(start, events)[i],
            visited(start, events)[i + 1],
        ),
{
    lemma_way(start, events);
    assert(leads(
        visited(start, events)[i],
        answers(start, events)[i],
        visited(start, events)[i + 1],
    ));
}

/// How many requests are under way on a client, `n` of them not of this fetch,
/// when each step was counted.
pub open spec fn flights(n: u32, start: ChainModel, events: Seq<FetchEvent>) -> u32
    decreases events.len(),
{
    if events.len() == 0 {
        n
    } else {
        count_after(
            flights(n, start, events.drop_last()),
            is_in_flight(run(start, events.drop_last()).state),
            is_in_flight(run(start, events).state),
        )
    }
}

/// How often a fetch counts a request in.
pub open spec fn counted_in(start: ChainModel, events: Seq<FetchEvent>) -> nat
    decreases events.len(),
{
    if events.len() == 0 {
        0
    } else {
        counted_in(start, events.drop_last()) + once(
            !is_in_flight(run(start, events.drop_last()).state) && is_in_flight(
                run(start, events).state,
            ),
        )
    }
}

/// How often a fetch counts a request out.
pub open spec fn counted_out(start: ChainModel, events: Seq<FetchEvent>) -> nat
    decreases events.len(),
{
    if events.len() == 0 {
        0
    } else {
        counted_out(start, events.drop_last()) + once(
            is_in_flight(run(start, events.drop_last()).state) && !is_in_flight(
                run(start, events).state,
            ),
        )
    }
}

/// While the interceptor or a callback runs, and when the fetch has ended, no
/// request of the fetch is counted; while a request is to be answered or a body
/// to be read, one is, modulo the width of the count.
pub proof fn law_requests_are_counted_while_pending(
    n: u32,
    start: ChainModel,
    events: Seq<FetchEvent>,
)
    ensures
        flights(n, start, events) == (n + once(is_in_flight(run(start, events).state)))
            % 0x1_0000_0000,
        run(start, events).state is Intercept ==> flights(n, start, events) == n,
        run(start, events).state is Announce ==> flights(n, start, events) == n,
        run(start, events).state is Done ==> flights(n, start, events) == n,
        run(start, events).state is Send && n < u32::MAX ==> flights(n, start, events) == n + 1,
        run(start, events).state is Body && n < u32::MAX ==> flights(n, start, events) == n + 1,
    decreases events.len(),
{
    if events.len() > 0 {
        law_requests_are_counted_while_pending(n, start, events.drop_last());
    }
}

/// Every request that a fetch sends is counted in once, and counted out once by
/// the time the fetch has ended, however it ends.
pub proof fn law_requests_are_counted_out_once(start: ChainModel, events: Seq<FetchEvent>)
    requires
        is_run(start, events),
    ensures
        counted_in(start, events) == sends(start, events),
        counted_out(start, events) + once(is_in_flight(run(start, events).state)) == counted_in(
            start,
            events,
        ),
        run(start, events).state is Done ==> counted_out(start, events) == sends(start, events),
    decreases events.len(),
{
    if events.len() > 0 {
        law_requests_are_counted_out_once(start, events.drop_last());
    }
}

/// A fetch that has ended has no request under way, and nothing more happens
/// to it.
pub proof fn law_ended_fetches_rest(state: FetchModel, event: FetchEvent)
    requires
        state is Done || state is File,
    ensures
        !is_in_flight(state),
        !awaits(state, event),
{
}

/// The servers' header fields have names in lower case.
pub open spec fn fields_are_named(events: Seq<FetchEvent>) -> bool {
    forall|i: int, j: int|
        0 <= i < events.len() && (#[trigger] events[i]) is Responded && 0 <= j
            < events[i]->fields.len() ==> is_field_name((#[trigger] events[i]->fields[j]).0)
}

#[verifier::spinoff_prover]
#[verifier::rlimit(40)]
proof fn lemma_names(start: ChainModel, events: Seq<FetchEvent>)
    requires
        fields_are_named(events),
    ensures
        reply_in(run(start, events).state) matches Some(reply) ==> lower_case_names(reply.headers),
    decreases events.len(),
{
    if events.len() > 0 {
        let front = events.drop_last();
        assert forall|i: int, j: int|
            0 <= i < front.len() && (#[trigger] front[i]) is Responded && 0 <= j
                < front[i]->fields.len() implies is_field_name(
            (#[trigger] front[i]->fields[j]).0,
        ) by {
            assert(events[i] == front[i]);
            assert(is_field_name(events[i]->fields[j].0));
        }
        lemma_names(start, front);
        let last = events[events.len() - 1];
        if last is Responded {
            let pairs = text_fields(last->fields);
            assert forall|j: int| 0 <= j < pairs.len() implies is_field_name(
                (#[trigger] pairs[j]).0,
            ) by {
                assert(is_field_name(last->fields[j].0));
            }
            lemma_collected_names(pairs);
        }
    }
}

/// The names of the header fields of a complete response are in lower case, as
/// those of every answer of a server are.
pub proof fn law_response_names_are_in_lower_case(
    start: ChainModel,
    events: Seq<FetchEvent>,
    body: Seq<u8>,
    wire: nat,
)
    requires
        is_run(start, events),
        fields_are_named(events),
        events.len() > 0,
        events.last() == (FetchEvent::BodyRead { body: Ok((body, wire)) }),
    ensures
        run(start, events).state matches FetchModel::Done { outcome: Ok(response), .. }
            && lower_case_names(response.headers),
{
    let front = events.drop_last();
    assert forall|i: int, j: int|
        0 <= i < front.len() && (#[trigger] front[i]) is Responded && 0 <= j
            < front[i]->fields.len() implies is_field_name((#[trigger] front[i]->fields[j]).0) by {
        assert(events[i] == front[i]);
        assert(is_field_name(events[i]->fields[j].0));
    }
    lemma_names(start, front);
}

/// A response whose sharing is refused is not used: its cookies are not
/// stored, and the fetch fails with the refusal.
pub proof fn law_refused_sharing_leaves_nothing(state: FetchModel, e: ErrorModel)
    requires
        state is Cors,
    ensures
        turn(state, FetchEvent::Judged { verdict: Err(e) }) == quiet(failed(e)),
        quiet(failed(e)).cookies == Seq::<Seq<char>>::empty(),
        quiet(failed(e)).charge == 0,
{
}

/// A request that was sent without credentials stores no cookies, whatever the
/// server answers.
pub proof fn law_cookies_are_stored_with_credentials(
    state: FetchModel,
    status: u16,
    fields: Seq<(Seq<char>, Seq<u8>)>,
    verdict: Result<(), ErrorModel>,
)
    requires
        state matches FetchModel::Send { hop, .. } && !hop.credentials,
    ensures
        ({
            let answer = turn(state, FetchEvent::Responded { status, fields });
            &&& answer.cookies == Seq::<Seq<char>>::empty()
            &&& answer.state is Cors ==> turn(
                answer.state,
                FetchEvent::Judged { verdict },
            ).cookies == Seq::<Seq<char>>::empty()
        }),
{
}

/// The last answer of a server: its status and its header fields.
pub open spec fn last_answer(events: Seq<FetchEvent>) -> Option<(u16, Seq<(Seq<char>, Seq<u8>)>)>
    decreases events.len(),
{
    if events.len() == 0 {
        None
    } else {
        match events.last() {
            FetchEvent::Responded { status, fields } => Some((status, fields)),
            _ => last_answer(events.drop_last()),
        }
    }
}

/// The response of a server was read from its last answer.
spec fn is_last_answer(reply: ReplyModel, events: Seq<FetchEvent>) -> bool {
    match last_answer(events) {
        Some((status, fields)) => {
            &&& reply.status == status
            &&& reply.headers == collected(text_fields(fields))
            &&& reply.location == first_value(fields, "location"@)
        },
        None => false,
    }
}

#[verifier::spinoff_prover]
#[verifier::rlimit(40)]
proof fn lemma_last_answer(start: ChainModel, events: Seq<FetchEvent>)
    requires
        is_run(start, events),
    ensures
        reply_in(run(start, events).state) matches Some(reply) ==> is_last_answer(reply, events),
        run(start, events).state matches FetchModel::Body { reply, .. } ==> !(300 <= reply.status
            <= 399 && reply.location is Some),
    decreases events.len(),
{
    if events.len() > 0 {
        lemma_last_answer(start, events.drop_last());
    }
}

/// A response that a fetch returns from the network is the last answer of a
/// server, with its status and its header fields, and that answer does not
/// redirect: a status in the three hundreds and a `location` field never come
/// together in it. So every redirect is followed, or fails the fetch.
pub proof fn law_redirects_are_not_returned(
    start: ChainModel,
    events: Seq<FetchEvent>,
    body: Seq<u8>,
    wire: nat,
)
    requires
        is_run(start, events),
        events.len() > 0,
        events.last() == (FetchEvent::BodyRead { body: Ok((body, wire)) }),
    ensures
        run(start, events).state matches FetchModel::Done { outcome: Ok(response), .. } && {
            &&& last_answer(events) matches Some((status, fields))
            &&& response.status == status
            &&& response.headers == collected(text_fields(fields))
            &&& response.body == body
            &&& 300 <= status <= 399 ==> forall|i: int|
                0 <= i < fields.len() ==> !same_ignoring_case(
                    (#[trigger] fields[i]).0,
                    "location"@,
                )
        },
{
    lemma_last_answer(start, events.drop_last());
    match last_answer(events.drop_last()) {
        Some((status, fields)) => law_first_fields_win(fields, "location"@),
        None => {},
    }
}

/// The last request that a fetch sent.
pub open spec fn last_request(start: ChainModel, events: Seq<FetchEvent>) -> Option<HopModel>
    decreases events.len(),
{
    if events.len() == 0 {
        None
    } else {
        match run(start, events).state {
            FetchModel::Send { hop, .. } => Some(hop),
            _ => last_request(start, events.drop_last()),
        }
    }
}

/// The sharing of the last answer was allowed.
pub open spec fn permitted(events: Seq<FetchEvent>) -> bool
    decreases events.len(),
{
    events.len() > 0 && match events.last() {
        FetchEvent::Judged { verdict } => verdict is Ok,
        FetchEvent::Responded { .. } => false,
        _ => permitted(events.drop_last()),
    }
}

/// The last request may be answered: its response needs no permission, or has
/// it.
spec fn may_be_used(start: ChainModel, events: Seq<FetchEvent>) -> bool {
    &&& last_request(start, events) is Some
    &&& last_request(start, events)->0.cors ==> permitted(events)
}

#[verifier::spinoff_prover]
#[verifier::rlimit(40)]
proof fn lemma_permission(start: ChainModel, events: Seq<FetchEvent>)
    requires
        is_run(start, events),
    ensures
        match run(start, events).state {
            FetchModel::Send { hop, .. } => last_request(start, events) == Some(hop),
            FetchModel::Cors { hop, .. } => last_request(start, events) == Some(hop) && hop.cors,
            FetchModel::Resolve { .. } => may_be_used(start, events),
            FetchModel::Redirect { .. } => may_be_used(start, events),
            FetchModel::Body { hop, .. } => may_be_used(start, events) && last_request(start, events)
                == Some(hop),
            _ => true,
        },
        run(start, events).cookies.len() > 0 || run(start, events).charge > 0 ==> may_be_used(
            start,
            events,
        ),
    decreases events.len(),
{
    if events.len() > 0 {
        lemma_permission(start, events.drop_last());
        match (run(start, events.drop_last()).state, events.last()) {
            (FetchModel::Send { chain, hop }, FetchEvent::Responded { status, fields }) => {
                if hop.cors {
                    law_shared_answers_are_held(chain, hop, status, fields);
                } else {
                    law_sharing_is_judged_by_the_servers_answer(false, chain.current.href, fields);
                }
            },
            _ => {},
        }
    }
}

/// Nothing of an answer that needs the server's permission is used before the
/// permission was given for that very answer, whatever the credentials of the
/// request are: no cookie is stored, no redirect followed or charged, no body
/// read and no response returned.
pub proof fn law_sharing_needs_permission(start: ChainModel, events: Seq<FetchEvent>, hop: HopModel)
    requires
        is_run(start, events),
        events.len() > 0,
        last_request(start, events) == Some(hop),
        hop.cors,
        !permitted(events),
    ensures
        ({
            let step = run(start, events);
            &&& !(step.state is Resolve)
            &&& !(step.state is Redirect)
            &&& !(step.state is Body)
            &&& step.cookies.len() == 0
            &&& step.charge == 0
            &&& !(events.last() is BodyRead)
        }),
{
    lemma_permission(start, events);
    lemma_permission(start, events.drop_last());
}

/// The interceptor was asked as often as it has to be: once if it was installed
/// when the first request was prepared and no sharing was at stake, and else
/// never.
pub open spec fn is_asked_in_time(start: ChainModel, events: Seq<FetchEvent>) -> bool {
    &&& events.len() >= 2
    &&& events[1] matches FetchEvent::Prepared { facts, interceptor, .. }
    &&& interceptions(start, events) == once(interceptor && !facts.cors)
}

#[verifier::spinoff_prover]
#[verifier::rlimit(40)]
proof fn lemma_asked_in_time(start: ChainModel, events: Seq<FetchEvent>)
    requires
        is_new(start),
        is_run(start, events),
    ensures
        match run(start, events).state {
            FetchModel::Admit { .. } => events.len() == 0 && sends(start, events) == 0,
            FetchModel::File { .. } => sends(start, events) == 0,
            FetchModel::Prepare { chain } => {
                &&& chain.begun == 0 ==> events.len() == 1 && interceptions(start, events) == 0
                    && sends(start, events) == 0
                &&& chain.begun > 0 ==> is_asked_in_time(start, events) && chain.redirects.len() > 0
            },
            FetchModel::Done { .. } => sends(start, events) > 0 ==> is_asked_in_time(start, events),
            _ => is_asked_in_time(start, events),
        },
    decreases events.len(),
{
    lemma_invariant(start, events);
    if events.len() > 0 {
        let front = events.drop_last();
        lemma_asked_in_time(start, front);
        lemma_invariant(start, front);
        if front.len() >= 2 {
            assert(front[1] == events[1]);
        }
        if front.len() == 0 {
            assert(interceptions(start, front) == 0 && sends(start, front) == 0);
        }
        if front.len() == 1 {
            assert(events[1] == events.last());
        }
    }
}

/// In every fetch that sends anything, whatever it is for, the interceptor was
/// asked exactly once if it was installed and the first request needed no
/// permission to be shared, and else not at all. It was asked before the first
/// request went out.
pub proof fn law_first_requests_are_asked_about(start: ChainModel, events: Seq<FetchEvent>)
    requires
        is_new(start),
        is_run(start, events),
        sends(start, events) > 0,
    ensures
        events.len() >= 2,
        events[1] matches FetchEvent::Prepared { facts, interceptor, .. } && interceptions(
            start,
            events,
        ) == once(interceptor && !facts.cors),
        !(run(start, events).state is Intercept),
{
    lemma_asked_in_time(start, events);
    lemma_invariant(start, events);
}

} // verus!
