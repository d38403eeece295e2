//! The client: its settings, and what all of its requests share.

use vstd::prelude::*;
use crate::identity::{Platform, Profile};
use crate::reader::{charged_bytes, Charge};
use crate::table::{collected, distinct_names, HeaderTable};
use crate::text::opt_text;

verus! {

/// What became of a certificate store of the user's own.
#[derive(Clone, Copy, Debug, PartialEq, Eq, Structural)]
pub enum CertStore {
    /// None was asked for.
    NotRequested,
    /// One was asked for and built.
    Built,
    /// One was asked for and could not be built.
    Failed,
}

/// How the transport is set up.
pub struct ClientConfig {
    pub profile: Profile,
    pub platform: Platform,
    pub timeout_secs: u64,
    /// The transport follows redirects itself.
    pub follows_redirects: bool,
    /// The user's certificates replace the built-in roots.
    pub custom_roots: bool,
    /// The proxy that every request goes through.
    pub proxy: Option<String>,
}

/// A set-up by its texts.
pub struct ConfigModel {
    pub profile: Profile,
    pub platform: Platform,
    pub timeout_secs: u64,
    pub follows_redirects: bool,
    pub custom_roots: bool,
    pub proxy: Option<Seq<char>>,
}

impl View for ClientConfig {
    type V = ConfigModel;

    open spec fn view(&self) -> ConfigModel {
        ConfigModel {
            profile: self.profile,
            platform: self.platform,
            timeout_secs: self.timeout_secs,
            follows_redirects: self.follows_redirects,
            custom_roots: self.custom_roots,
            proxy: opt_text(self.proxy),
        }
    }
}

/// A proxy that was asked for, and whether the transport accepts its address.
pub struct ProxyChoice {
    pub address: String,
    pub accepted: bool,
}

/// The set-up of a client: a browser on its platform, half a minute for a
/// request, redirects left to the client. The user's certificates are used
/// where they were asked for and could be built, the proxy where the transport
/// accepts its address.
pub open spec fn config_model(store: CertStore, proxy: Option<ProxyChoice>) -> ConfigModel {
    ConfigModel {
        profile: Profile::Chrome145,
        platform: Platform::Windows,
        timeout_secs: 30,
        follows_redirects: false,
        custom_roots: store is Built,
        proxy: match proxy {
            Some(choice) => if choice.accepted {
                Some(choice.address@)
            } else {
                None
            },
            None => None,
        },
    }
}

/// Counters, by their places among those of a client: one of received bytes and
/// one of estimated transfers, where there is one.
#[derive(Clone, Copy, Debug, PartialEq, Eq)]
pub struct Counters {
    pub bytes: Option<usize>,
    pub estimate: Option<usize>,
}

/// No counters.
pub open spec fn no_counters() -> Counters {
    Counters { bytes: None, estimate: None }
}

/// The client.
pub struct StealthHttpClient {
    config: ClientConfig,
    extra_headers: HeaderTable,
    in_flight: u32,
    interceptor: bool,
    counts: Vec<u64>,
    counters: Counters,
}

/// The client by its texts and numbers.
pub struct ClientModel {
    pub config: ConfigModel,
    /// Headers that every request carries.
    pub extra_headers: Map<Seq<char>, Seq<char>>,
    /// The same, in the order in which they are walked.
    pub extra_fields: Seq<(Seq<char>, Seq<char>)>,
    /// Requests under way.
    pub in_flight: u32,
    /// An interceptor is installed.
    pub interceptor: bool,
    /// What the counters stand at that were ever added to the client.
    pub counts: Seq<u64>,
    /// Those of them that are installed.
    pub counters: Counters,
}

impl View for StealthHttpClient {
    type V = ClientModel;

    closed spec fn view(&self) -> ClientModel {
        ClientModel {
            config: self.config@,
            extra_headers: self.extra_headers@,
            extra_fields: self.extra_headers.entries(),
            in_flight: self.in_flight,
            interceptor: self.interceptor,
            counts: self.counts@,
            counters: self.counters,
        }
    }
}

/// A client that has made no request.
pub open spec fn idle_client(config: ConfigModel) -> ClientModel {
    ClientModel {
        config,
        extra_headers: Map::empty(),
        extra_fields: Seq::empty(),
        in_flight: 0,
        interceptor: false,
        counts: Seq::empty(),
        counters: no_counters(),
    }
}

/// The counters are counters of the client.
pub open spec fn knows(client: ClientModel, counters: Counters) -> bool {
    &&& counters.bytes matches Some(place) ==> place < client.counts.len()
    &&& counters.estimate matches Some(place) ==> place < client.counts.len()
}

/// What a counter stands at, if there is one.
pub open spec fn count_at(client: ClientModel, place: Option<usize>) -> Option<u64> {
    match place {
        Some(place) => Some(client.counts[place as int]),
        None => None,
    }
}

/// What the estimator of the network stack added to the two counters when it
/// was told of an estimated transfer, modulo their width.
#[derive(Clone, Copy, Debug, PartialEq, Eq, Structural)]
pub struct Estimated {
    /// Added to the counter of received bytes.
    pub bytes: u64,
    /// Added to the counter of estimated transfers.
    pub transfers: u64,
}

/// A charge that the estimator is told of.
pub open spec fn is_estimate(charge: Charge) -> bool {
    charge is EstimateStart || charge is EstimateChunk || charge is EstimateComplete
}

/// The bytes that a charge adds: those measured, or those that the estimator
/// added.
pub open spec fn posted_bytes(charge: Charge, estimated: Estimated) -> nat {
    if is_estimate(charge) {
        estimated.bytes as nat
    } else {
        charged_bytes(charge)
    }
}

/// The estimated transfers that a charge adds.
pub open spec fn posted_transfers(charge: Charge, estimated: Estimated) -> nat {
    if is_estimate(charge) {
        estimated.transfers as nat
    } else {
        0
    }
}

/// A count behind an addition: it counts modulo its width.
pub open spec fn added(count: u64, n: nat) -> u64 {
    ((count + n) % 0x1_0000_0000_0000_0000) as u64
}

/// The counts behind an addition to one of them. At no place, and at one where
/// there is no count, nothing is added.
pub open spec fn added_at(counts: Seq<u64>, place: Option<usize>, n: nat) -> Seq<u64> {
    match place {
        Some(place) => if place < counts.len() {
            counts.update(place as int, added(counts[place as int], n))
        } else {
            counts
        },
        None => counts,
    }
}

/// The client behind a charge to the counters of a call, whichever counters are
/// installed by then. Without a byte counter nothing is counted, and nothing
/// estimated.
pub open spec fn charged(
    client: ClientModel,
    counters: Counters,
    charge: Charge,
    estimated: Estimated,
) -> ClientModel {
    if counters.bytes is Some {
        ClientModel {
            counts: added_at(
                added_at(client.counts, counters.bytes, posted_bytes(charge, estimated)),
                counters.estimate,
                posted_transfers(charge, estimated),
            ),
            ..client
        }
    } else {
        client
    }
}

/// How many requests are under way when one that was under way, or not, now is,
/// or is not. The count goes modulo its width.
pub open spec fn count_after(n: u32, was: bool, now: bool) -> u32 {
    if now && !was {
        ((n + 1) % 0x1_0000_0000) as u32
    } else if was && !now {
        ((n - 1) % 0x1_0000_0000) as u32
    } else {
        n
    }
}

/// The client when a request that was under way, or not, now is, or is not.
pub open spec fn counted(client: ClientModel, was: bool, now: bool) -> ClientModel {
    ClientModel { in_flight: count_after(client.in_flight, was, now), ..client }
}

/// The client when a request goes out.
pub open spec fn started(client: ClientModel) -> ClientModel {
    counted(client, false, true)
}

/// The client when a request has ended.
pub open spec fn finished(client: ClientModel) -> ClientModel {
    counted(client, true, false)
}

impl StealthHttpClient {
    #[verifier::type_invariant]
    spec fn installs_its_own(self) -> bool {
        knows(self@, self.counters)
    }

    /// A client without a proxy.
    pub fn new(store: CertStore) -> (client: StealthHttpClient)
        ensures
            client@ == idle_client(config_model(store, None)),
    {
        StealthHttpClient::with_proxy(store, None)
    }

    /// A client that goes through a proxy where one is given.
    pub fn with_proxy(store: CertStore, proxy: Option<ProxyChoice>) -> (client: StealthHttpClient)
        ensures
            client@ == idle_client(config_model(store, proxy)),
    {
        let proxy_address = match proxy {
            Some(choice) => if choice.accepted {
                Some(choice.address)
            } else {
                None
            },
            None => None,
        };
        let config = ClientConfig {
            profile: Profile::Chrome145,
            platform: Platform::Windows,
            timeout_secs: 30,
            follows_redirects: false,
            custom_roots: store == CertStore::Built,
            proxy: proxy_address,
        };
        StealthHttpClient {
            config,
            extra_headers: HeaderTable::new(),
            in_flight: 0,
            interceptor: false,
            counts: Vec::new(),
            counters: Counters { bytes: None, estimate: None },
        }
    }

    /// How the transport is set up.
    pub fn config(&self) -> (config: &ClientConfig)
        ensures
            config@ == self@.config,
    {
        &self.config
    }

    /// Installs an interceptor.
    pub fn set_interceptor(&mut self)
        ensures
            final(self)@ == (ClientModel { interceptor: true, ..old(self)@ }),
    {
        proof {
            use_type_invariant(&*self);
        }
        self.interceptor = true;
    }

    /// Whether an interceptor is installed.
    pub fn has_interceptor(&self) -> (installed: bool)
        ensures
            installed == self@.interceptor,
    {
        self.interceptor
    }

    /// Adds a counter that stands at `count`, and returns its place.
    pub fn add_counter(&mut self, count: u64) -> (place: usize)
        ensures
            final(self)@ == (ClientModel { counts: old(self)@.counts.push(count), ..old(self)@ }),
            place == old(self)@.counts.len(),
    {
        proof {
            use_type_invariant(&*self);
        }
        let place: usize = self.counts.len();
        let counters = self.counters;
        let mut counts: Vec<u64> = Vec::new();
        self.counters = Counters { bytes: None, estimate: None };
        std::mem::swap(&mut counts, &mut self.counts);
        counts.push(count);
        self.counts = counts;
        self.counters = counters;
        place
    }

    /// Installs a counter of received bytes, for the calls that start from now
    /// on.
    pub fn set_bytes_counter(&mut self, place: usize)
        requires
            place < old(self)@.counts.len(),
        ensures
            final(self)@ == (ClientModel {
                counters: Counters { bytes: Some(place), ..old(self)@.counters },
                ..old(self)@
            }),
    {
        proof {
            use_type_invariant(&*self);
        }
        self.counters = Counters { bytes: Some(place), estimate: self.counters.estimate };
    }

    /// Installs a counter of estimated transfers, for the calls that start from
    /// now on.
    pub fn set_estimate_counter(&mut self, place: usize)
        requires
            place < old(self)@.counts.len(),
        ensures
            final(self)@ == (ClientModel {
                counters: Counters { estimate: Some(place), ..old(self)@.counters },
                ..old(self)@
            }),
    {
        proof {
            use_type_invariant(&*self);
        }
        self.counters = Counters { bytes: self.counters.bytes, estimate: Some(place) };
    }

    /// The counters that are installed.
    pub fn counters(&self) -> (counters: Counters)
        ensures
            counters == self@.counters,
            knows(self@, counters),
    {
        proof {
            use_type_invariant(self);
        }
        self.counters
    }

    /// What a counter stands at.
    pub fn counted_at(&self, place: usize) -> (count: u64)
        requires
            place < self@.counts.len(),
        ensures
            count == self@.counts[place as int],
    {
        self.counts[place]
    }

    /// The bytes counted so far, if a counter is installed.
    pub fn bytes_counted(&self) -> (count: Option<u64>)
        ensures
            count == count_at(self@, self@.counters.bytes),
    {
        proof {
            use_type_invariant(self);
        }
        match self.counters.bytes {
            Some(place) => Some(self.counts[place]),
            None => None,
        }
    }

    /// What the counter of estimated transfers stands at, if one is installed.
    pub fn estimates_counted(&self) -> (count: Option<u64>)
        ensures
            count == count_at(self@, self@.counters.estimate),
    {
        proof {
            use_type_invariant(self);
        }
        match self.counters.estimate {
            Some(place) => Some(self.counts[place]),
            None => None,
        }
    }

    fn add_to(&mut self, place: usize, n: u64)
        ensures
            final(self)@ == (ClientModel {
                counts: added_at(old(self)@.counts, Some(place), n as nat),
                ..old(self)@
            }),
    {
        proof {
            use_type_invariant(&*self);
        }
        if place < self.counts.len() {
            let count: u64 = self.counts[place].wrapping_add(n);
            self.counts[place] = count;
        }
    }

    /// Charges the counters that a call took when it started: with measured
    /// bytes, or with what the estimator added when it was told of the charge.
    pub fn charge(&mut self, counters: &Counters, charge: Charge, estimated: Estimated)
        ensures
            final(self)@ == charged(old(self)@, *counters, charge, estimated),
    {
        let posted: (u64, u64) = match charge {
            Charge::Nothing => (0, 0),
            Charge::Bytes(n) => (n, 0),
            _ => (estimated.bytes, estimated.transfers),
        };
        match counters.bytes {
            Some(place) => {
                self.add_to(place, posted.0);
                match counters.estimate {
                    Some(place) => self.add_to(place, posted.1),
                    None => {},
                }
            },
            None => {},
        }
    }

    /// Replaces the headers that every request carries.
    pub fn set_extra_headers(&mut self, headers: HeaderTable)
        ensures
            final(self)@ == (ClientModel {
                extra_headers: headers@,
                extra_fields: headers.entries(),
                ..old(self)@
            }),
    {
        proof {
            use_type_invariant(&*self);
        }
        self.extra_headers = headers;
    }

    /// Adds to the headers that every request carries, in place of those of the
    /// same name.
    pub fn extend_extra_headers(&mut self, headers: &HeaderTable)
        ensures
            final(self)@ == (ClientModel {
                extra_headers: old(self)@.extra_headers.union_prefer_right(headers@),
                extra_fields: final(self)@.extra_fields,
                ..old(self)@
            }),
            collected(final(self)@.extra_fields) == final(self)@.extra_headers,
            distinct_names(final(self)@.extra_fields),
    {
        proof {
            use_type_invariant(&*self);
        }
        let mut table = HeaderTable::new();
        std::mem::swap(&mut table, &mut self.extra_headers);
        table.extend(headers);
        self.extra_headers = table;
    }

    /// The headers that every request carries.
    pub fn extra_headers(&self) -> (headers: &HeaderTable)
        ensures
            headers@ == self@.extra_headers,
            headers.entries() == self@.extra_fields,
    {
        &self.extra_headers
    }

    /// A request goes out.
    pub fn request_started(&mut self)
        ensures
            final(self)@ == started(old(self)@),
    {
        proof {
            use_type_invariant(&*self);
        }
        self.in_flight = self.in_flight.wrapping_add(1);
    }

    /// A request has ended.
    pub fn request_finished(&mut self)
        ensures
            final(self)@ == finished(old(self)@),
    {
        proof {
            use_type_invariant(&*self);
        }
        self.in_flight = self.in_flight.wrapping_sub(1);
    }

    /// Counts a request that was under way, or not, and now is, or is not.
    pub fn count(&mut self, was: bool, now: bool)
        ensures
            final(self)@ == counted(old(self)@, was, now),
    {
        if now && !was {
            self.request_started();
        } else if was && !now {
            self.request_finished();
        }
    }

    /// How many requests are under way.
    pub fn active_requests(&self) -> (n: u32)
        ensures
            n == self@.in_flight,
    {
        self.in_flight
    }

    /// Whether no request is under way.
    pub fn is_network_idle(&self) -> (idle: bool)
        ensures
            idle == (self@.in_flight == 0),
    {
        self.active_requests() == 0
    }
}

/// With no certificates of the user's own asked for, and with ones that cannot
/// be built, the client keeps the built-in roots.
pub proof fn law_built_in_roots_by_default(store: CertStore, proxy: Option<ProxyChoice>)
    ensures
        config_model(store, proxy).custom_roots <==> store is Built,
        config_model(CertStore::NotRequested, proxy) == config_model(CertStore::Failed, proxy),
{
}

/// A request that ends leaves the client as it was before the request went
/// out; while it is under way the client is not idle, as long as the count can
/// hold it.
pub proof fn law_requests_balance(client: ClientModel)
    ensures
        finished(started(client)) == client,
        client.in_flight < u32::MAX ==> started(client).in_flight == client.in_flight + 1,
{
}

/// The client behind a list of charges to the same counters, each with what the
/// estimator added.
pub open spec fn charged_all(
    client: ClientModel,
    counters: Counters,
    charges: Seq<(Charge, Estimated)>,
) -> ClientModel
    decreases charges.len(),
{
    if charges.len() == 0 {
        client
    } else {
        charged(
            charged_all(client, counters, charges.drop_last()),
            counters,
            charges.last().0,
            charges.last().1,
        )
    }
}

/// The bytes that a list of charges adds.
pub open spec fn total_bytes(charges: Seq<(Charge, Estimated)>) -> nat
    decreases charges.len(),
{
    if charges.len() == 0 {
        0
    } else {
        total_bytes(charges.drop_last()) + posted_bytes(charges.last().0, charges.last().1)
    }
}

/// The estimated transfers that a list of charges adds.
pub open spec fn total_transfers(charges: Seq<(Charge, Estimated)>) -> nat
    decreases charges.len(),
{
    if charges.len() == 0 {
        0
    } else {
        total_transfers(charges.drop_last()) + posted_transfers(
            charges.last().0,
            charges.last().1,
        )
    }
}

/// Additions to a count add up, and an addition of nothing changes nothing.
proof fn lemma_additions_add_up(count: u64, a: nat, b: nat)
    ensures
        added(added(count, a), b) == added(count, a + b),
        added(count, 0) == count,
{
}

/// An addition of nothing changes no count.
pub proof fn lemma_nothing_added(counts: Seq<u64>, place: Option<usize>)
    ensures
        added_at(counts, place, 0) == counts,
{
    match place {
        Some(place) => {
            if place < counts.len() {
                lemma_additions_add_up(counts[place as int], 0, 0);
            }
        },
        None => {},
    }
    assert(added_at(counts, place, 0) =~= counts);
}

/// Additions to two counters, or to the same one, add up.
proof fn lemma_additions_commute(
    counts: Seq<u64>,
    p: Option<usize>,
    q: Option<usize>,
    a: (nat, nat),
    b: (nat, nat),
)
    ensures
        added_at(added_at(added_at(added_at(counts, p, a.0), q, a.1), p, b.0), q, b.1) == added_at(
            added_at(counts, p, a.0 + b.0),
            q,
            a.1 + b.1,
        ),
{
    let left = added_at(added_at(added_at(added_at(counts, p, a.0), q, a.1), p, b.0), q, b.1);
    let right = added_at(added_at(counts, p, a.0 + b.0), q, a.1 + b.1);
    assert forall|i: int| 0 <= i < counts.len() implies left[i] == right[i] by {
        let c = counts[i];
        lemma_additions_add_up(c, a.0, b.0);
        lemma_additions_add_up(c, a.1, b.1);
        lemma_additions_add_up(c, a.0, a.1);
        lemma_additions_add_up(c, a.0 + a.1, b.0);
        lemma_additions_add_up(c, a.0 + a.1 + b.0, b.1);
        lemma_additions_add_up(c, a.0 + b.0, a.1 + b.1);
    }
    assert(left =~= right);
}

/// The counters of a call stand at what they stood at before and all that was
/// charged since, modulo their width; nothing else of the client changes, and
/// without a byte counter nothing at all.
pub proof fn law_counters_add_up(
    client: ClientModel,
    counters: Counters,
    charges: Seq<(Charge, Estimated)>,
)
    ensures
        counters.bytes is None ==> charged_all(client, counters, charges) == client,
        counters.bytes is Some ==> charged_all(client, counters, charges) == (ClientModel {
            counts: added_at(
                added_at(client.counts, counters.bytes, total_bytes(charges)),
                counters.estimate,
                total_transfers(charges),
            ),
            ..client
        }),
    decreases charges.len(),
{
    if charges.len() == 0 {
        lemma_nothing_added(client.counts, counters.bytes);
        lemma_nothing_added(client.counts, counters.estimate);
    } else {
        let front = charges.drop_last();
        let (charge, estimated) = charges.last();
        law_counters_add_up(client, counters, front);
        lemma_additions_commute(
            client.counts,
            counters.bytes,
            counters.estimate,
            (total_bytes(front), total_transfers(front)),
            (posted_bytes(charge, estimated), posted_transfers(charge, estimated)),
        );
    }
}

/// Charges of which none is an estimate add to the byte counter of the call
/// alone.
pub proof fn law_measured_charges_estimate_nothing(
    client: ClientModel,
    counters: Counters,
    charges: Seq<(Charge, Estimated)>,
)
    requires
        forall|i: int| 0 <= i < charges.len() ==> !is_estimate((#[trigger] charges[i]).0),
    ensures
        charged_all(client, counters, charges) == (ClientModel {
            counts: added_at(client.counts, counters.bytes, total_bytes(charges)),
            ..client
        }),
        total_transfers(charges) == 0,
    decreases charges.len(),
{
    if charges.len() > 0 {
        let front = charges.drop_last();
        assert forall|i: int| 0 <= i < front.len() implies !is_estimate((#[trigger] front[i]).0) by {
            assert(front[i] == charges[i]);
        }
        law_measured_charges_estimate_nothing(client, counters, front);
        assert(!is_estimate(charges[charges.len() - 1].0));
    }
    law_counters_add_up(client, counters, charges);
    lemma_nothing_added(
        added_at(client.counts, counters.bytes, total_bytes(charges)),
        counters.estimate,
    );
}

/// A call charges the counters that it took and no others: one that is added or
/// installed while the call is under way is not charged, and the one that it
/// replaces still is.
pub proof fn law_calls_charge_what_they_took(
    client: ClientModel,
    counters: Counters,
    charges: Seq<(Charge, Estimated)>,
    later: Counters,
    count: u64,
    place: usize,
)
    requires
        knows(client, counters),
    ensures
        counters.bytes != Some(place) && counters.estimate != Some(place) && place
            < client.counts.len() ==> charged_all(client, counters, charges).counts[place as int]
            == client.counts[place as int],
        charged_all(ClientModel { counters: later, ..client }, counters, charges) == (ClientModel {
            counters: later,
            ..charged_all(client, counters, charges)
        }),
        charged_all(
            ClientModel { counts: client.counts.push(count), ..client },
            counters,
            charges,
        ) == (ClientModel {
            counts: charged_all(client, counters, charges).counts.push(count),
            ..charged_all(client, counters, charges)
        }),
{
    let grown = ClientModel { counts: client.counts.push(count), ..client };
    law_counters_add_up(client, counters, charges);
    law_counters_add_up(ClientModel { counters: later, ..client }, counters, charges);
    law_counters_add_up(grown, counters, charges);
    assert(charged_all(grown, counters, charges).counts =~= charged_all(
        client,
        counters,
        charges,
    ).counts.push(count));
}

/// Every client passes for the same browser on the same platform: whatever the
/// proxy and the certificates, two set-ups differ in these two alone.
pub proof fn law_every_client_passes_for_the_same_browser(
    a: (CertStore, Option<ProxyChoice>),
    b: (CertStore, Option<ProxyChoice>),
)
    ensures
        config_model(a.0, a.1) == (ConfigModel {
            custom_roots: config_model(a.0, a.1).custom_roots,
            proxy: config_model(a.0, a.1).proxy,
            ..config_model(b.0, b.1)
        }),
        config_model(a.0, a.1).profile == Profile::Chrome145,
        config_model(a.0, a.1).platform == Platform::Windows,
{
}

/// Every client waits half a minute for a request and leaves redirects to the
/// library. It goes through the proxy that was asked for if and only if the
/// transport accepts its address.
pub proof fn law_clients_use_the_proxy_they_can(store: CertStore, proxy: Option<ProxyChoice>)
    ensures
        ({
            let config = config_model(store, proxy);
            &&& config.timeout_secs == 30
            &&& !config.follows_redirects
            &&& config.proxy is Some <==> proxy is Some && proxy->0.accepted
            &&& config.proxy is Some ==> config.proxy->0 == proxy->0.address@
        }),
{
}

/// A new client carries no header, counts nothing, asks nobody and is idle.
pub proof fn law_new_clients_are_blank(config: ConfigModel, name: Seq<char>)
    ensures
        ({
            let client = idle_client(config);
            &&& client.config == config
            &&& !client.extra_headers.contains_key(name)
            &&& client.extra_fields.len() == 0
            &&& client.in_flight == 0
            &&& !client.interceptor
            &&& client.counts.len() == 0
            &&& client.counters.bytes is None
            &&& client.counters.estimate is None
        }),
{
}

/// What one charge adds to the counter at a place: bytes that were measured go
/// to the byte counter, and of an estimate the bytes go to the byte counter and
/// the transfers to the other, modulo the width of a counter. Without a byte
/// counter, and where nothing is due, nothing is added.
pub proof fn law_charges_are_added(
    client: ClientModel,
    counters: Counters,
    charge: Charge,
    estimated: Estimated,
    place: usize,
)
    requires
        place < client.counts.len(),
    ensures
        ({
            let next = charged(client, counters, charge, estimated);
            let first = counters.bytes == Some(place);
            let second = counters.bytes is Some && counters.estimate == Some(place);
            let grown = match charge {
                Charge::Nothing => 0,
                Charge::Bytes(n) => if first {
                    n as int
                } else {
                    0
                },
                Charge::EstimateStart | Charge::EstimateChunk(_) | Charge::EstimateComplete => (
                if first {
                    estimated.bytes as int
                } else {
                    0
                }) + (if second {
                    estimated.transfers as int
                } else {
                    0
                }),
            };
            &&& next.counts[place as int] as int == (client.counts[place as int] + grown)
                % 0x1_0000_0000_0000_0000
            &&& next.counts.len() == client.counts.len()
            &&& next.config == client.config
            &&& next.extra_headers == client.extra_headers
            &&& next.extra_fields == client.extra_fields
            &&& next.in_flight == client.in_flight
            &&& next.interceptor == client.interceptor
            &&& next.counters == client.counters
        }),
{
    let count = client.counts[place as int];
    lemma_additions_add_up(
        count,
        posted_bytes(charge, estimated),
        posted_transfers(charge, estimated),
    );
    lemma_additions_add_up(count, posted_transfers(charge, estimated), 0);
}

/// A request that goes out makes the count one larger and one that ends makes
/// it one smaller, as far as the count can hold it; any other step leaves it.
pub proof fn law_requests_are_counted_by_one(n: u32, was: bool, now: bool)
    ensures
        was == now ==> count_after(n, was, now) == n,
        !was && now && n < u32::MAX ==> count_after(n, was, now) == n + 1,
        !was && now && n == u32::MAX ==> count_after(n, was, now) == 0,
        was && !now && n > 0 ==> count_after(n, was, now) == n - 1,
        was && !now && n == 0 ==> count_after(n, was, now) == u32::MAX,
{
}

/// A counter is read as what it stands at, and no counter as nothing; the
/// counters of a client are those that were added to it.
pub proof fn law_counters_are_read(client: ClientModel, counters: Counters, place: usize)
    ensures
        place < client.counts.len() ==> count_at(client, Some(place)) == Some(
            client.counts[place as int],
        ),
        count_at(client, None) is None,
        knows(client, counters) <==> (counters.bytes is None || counters.bytes->0
            < client.counts.len()) && (counters.estimate is None || counters.estimate->0
            < client.counts.len()),
{
}

} // verus!
