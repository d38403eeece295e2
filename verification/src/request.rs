//! The header fields that a request is sent with.

use vstd::prelude::*;
use crate::table::HeaderTable;
use crate::text::{eq_ignore_ascii_case, opt_text, same_ignoring_case, text_pairs};

verus! {

/// What a page asks for: how the request is announced to the server, and how
/// much of an answer it accepts.
pub struct ResourceRequest {
    /// The request opens a page.
    pub navigate: bool,
    /// The value of `sec-fetch-mode`.
    pub mode: String,
    /// The value of `accept`.
    pub accept: String,
    /// The value of `sec-fetch-dest`.
    pub destination: String,
    /// What the request loads, as interceptors and callbacks are told.
    pub resource_type: String,
    /// The longest body that is accepted.
    pub max_response_bytes: usize,
}

/// A request by its texts.
pub struct RequestModel {
    pub navigate: bool,
    pub mode: Seq<char>,
    pub accept: Seq<char>,
    pub destination: Seq<char>,
    pub resource_type: Seq<char>,
    pub max_response_bytes: nat,
}

impl View for ResourceRequest {
    type V = RequestModel;

    open spec fn view(&self) -> RequestModel {
        RequestModel {
            navigate: self.navigate,
            mode: self.mode@,
            accept: self.accept@,
            destination: self.destination@,
            resource_type: self.resource_type@,
            max_response_bytes: self.max_response_bytes as nat,
        }
    }
}

/// What the surrounding network stack knows of one request of a chain.
pub struct HopFacts {
    /// The value of `sec-fetch-site`.
    pub fetch_site: String,
    /// The value of `referer`, if one is sent.
    pub referrer: Option<String>,
    /// The origin that the request is made for, serialized.
    pub origin: String,
    /// Cookies may be sent to the address and stored from it.
    pub credentials: bool,
    /// The cookies stored for the address.
    pub cookies: String,
    /// The server has to allow the response to be shared with the page.
    pub cors: bool,
}

/// The facts of a request by their texts.
pub struct FactsModel {
    pub fetch_site: Seq<char>,
    pub referrer: Option<Seq<char>>,
    pub origin: Seq<char>,
    pub credentials: bool,
    pub cookies: Seq<char>,
    pub cors: bool,
}

impl View for HopFacts {
    type V = FactsModel;

    open spec fn view(&self) -> FactsModel {
        FactsModel {
            fetch_site: self.fetch_site@,
            referrer: opt_text(self.referrer),
            origin: self.origin@,
            credentials: self.credentials,
            cookies: self.cookies@,
            cors: self.cors,
        }
    }
}

/// The name and value of a header field.
pub type FieldModel = (Seq<char>, Seq<char>);

/// Names other than `origin`, in whatever case.
pub open spec fn not_origin() -> spec_fn(FieldModel) -> bool {
    |field: FieldModel| !same_ignoring_case(field.0, "origin"@)
}

/// The fields that describe the request.
pub open spec fn described(request: RequestModel, facts: FactsModel) -> Seq<FieldModel> {
    seq![
        ("accept"@, request.accept),
        ("sec-fetch-site"@, facts.fetch_site),
        ("sec-fetch-mode"@, request.mode),
        ("sec-fetch-dest"@, request.destination),
    ]
}

/// The fields that only the opening of a page carries.
pub open spec fn navigational(request: RequestModel) -> Seq<FieldModel> {
    if request.navigate {
        seq![("upgrade-insecure-requests"@, "1"@), ("sec-fetch-user"@, "?1"@)]
    } else {
        Seq::empty()
    }
}

/// The referrer, if one is sent.
pub open spec fn referring(facts: FactsModel) -> Seq<FieldModel> {
    match facts.referrer {
        Some(referrer) => seq![("referer"@, referrer)],
        None => Seq::empty(),
    }
}

/// The stored cookies, where there are any and they may be sent.
pub open spec fn cookie_field(
    name: Seq<char>,
    allowed: bool,
    cookies: Seq<char>,
) -> Seq<FieldModel> {
    if allowed && cookies.len() > 0 {
        seq![(name, cookies)]
    } else {
        Seq::empty()
    }
}

/// The origin, where the server has to allow the sharing.
pub open spec fn originating(facts: FactsModel) -> Seq<FieldModel> {
    if facts.cors {
        seq![("origin"@, facts.origin)]
    } else {
        Seq::empty()
    }
}

/// The header fields of one request of a chain, in the order in which they are
/// set.
pub open spec fn hop_fields(
    request: RequestModel,
    facts: FactsModel,
    extra: Seq<FieldModel>,
) -> Seq<FieldModel> {
    described(request, facts) + navigational(request) + referring(facts) + cookie_field(
        "Cookie"@,
        facts.credentials,
        facts.cookies,
    ) + extra.filter(not_origin()) + originating(facts)
}

/// The header fields of a single request, in the order in which they are set.
pub open spec fn single_fields(
    send_cookies: bool,
    cookies: Seq<char>,
    extra: Seq<FieldModel>,
    headers: Seq<FieldModel>,
) -> Seq<FieldModel> {
    cookie_field("cookie"@, send_cookies, cookies) + extra + headers
}

fn add_field(list: &mut Vec<(String, String)>, name: &str, value: &str)
    ensures
        text_pairs(final(list)@) == text_pairs(old(list)@).push((name@, value@)),
{
    list.push((name.to_owned(), value.to_owned()));
    assert(text_pairs(list@) =~= text_pairs(old(list)@).push((name@, value@)));
}

fn add_table(list: &mut Vec<(String, String)>, table: &HeaderTable, skip_origin: bool)
    ensures
        skip_origin ==> text_pairs(final(list)@) == text_pairs(old(list)@) + table.entries().filter(
            not_origin(),
        ),
        !skip_origin ==> text_pairs(final(list)@) == text_pairs(old(list)@) + table.entries(),
{
    let n: usize = table.len();
    let mut i: usize = 0;
    let ghost all = table.entries();
    proof {
        reveal(Seq::filter);
        assert(all.take(0).filter(not_origin()) =~= Seq::empty());
        assert(text_pairs(list@) =~= text_pairs(old(list)@) + all.take(0));
    }
    while i < n
        invariant
            i <= n,
            n == all.len(),
            all == table.entries(),
            skip_origin ==> text_pairs(list@) == text_pairs(old(list)@) + all.take(i as int).filter(
                not_origin(),
            ),
            !skip_origin ==> text_pairs(list@) == text_pairs(old(list)@) + all.take(i as int),
        decreases n - i,
    {
        let (name, value) = table.entry(i);
        let ghost before = text_pairs(list@);
        proof {
            reveal(Seq::filter);
            assert(all.take(i + 1).drop_last() =~= all.take(i as int));
            assert(all.take(i + 1).last() == all[i as int]);
        }
        if !(skip_origin && eq_ignore_ascii_case(name, "origin")) {
            add_field(list, name, value);
        }
        proof {
            if !skip_origin {
                assert(text_pairs(list@) =~= text_pairs(old(list)@) + all.take(i + 1));
            } else {
                assert(text_pairs(list@) =~= text_pairs(old(list)@) + all.take(i + 1).filter(
                    not_origin(),
                ));
            }
        }
        i = i + 1;
    }
    assert(all.take(i as int) =~= all);
}

/// Builds the header fields of one request of a chain.
pub fn build_hop_fields(request: &ResourceRequest, facts: &HopFacts, extra: &HeaderTable) -> (list:
    Vec<(String, String)>)
    ensures
        text_pairs(list@) == hop_fields(request@, facts@, extra.entries()),
{
    let mut list: Vec<(String, String)> = Vec::new();
    add_field(&mut list, "accept", request.accept.as_str());
    add_field(&mut list, "sec-fetch-site", facts.fetch_site.as_str());
    add_field(&mut list, "sec-fetch-mode", request.mode.as_str());
    add_field(&mut list, "sec-fetch-dest", request.destination.as_str());
    assert(text_pairs(list@) =~= described(request@, facts@));
    if request.navigate {
        add_field(&mut list, "upgrade-insecure-requests", "1");
        add_field(&mut list, "sec-fetch-user", "?1");
    }
    assert(text_pairs(list@) =~= described(request@, facts@) + navigational(request@));
    match &facts.referrer {
        Some(referrer) => add_field(&mut list, "referer", referrer.as_str()),
        None => {},
    }
    assert(text_pairs(list@) =~= described(request@, facts@) + navigational(request@) + referring(
        facts@,
    ));
    if facts.credentials && !facts.cookies.as_str().is_empty() {
        add_field(&mut list, "Cookie", facts.cookies.as_str());
    }
    assert(text_pairs(list@) =~= described(request@, facts@) + navigational(request@) + referring(
        facts@,
    ) + cookie_field("Cookie"@, facts.credentials, facts.cookies@));
    add_table(&mut list, extra, true);
    if facts.cors {
        add_field(&mut list, "origin", facts.origin.as_str());
    }
    assert(text_pairs(list@) =~= hop_fields(request@, facts@, extra.entries()));
    list
}

/// Builds the header fields of a single request.
pub fn build_single_fields(
    send_cookies: bool,
    cookies: &str,
    extra: &HeaderTable,
    headers: &HeaderTable,
) -> (list: Vec<(String, String)>)
    ensures
        text_pairs(list@) == single_fields(
            send_cookies,
            cookies@,
            extra.entries(),
            headers.entries(),
        ),
{
    let mut list: Vec<(String, String)> = Vec::new();
    assert(text_pairs(list@) =~= Seq::empty());
    if send_cookies && !cookies.is_empty() {
        add_field(&mut list, "cookie", cookies);
    }
    assert(text_pairs(list@) =~= cookie_field("cookie"@, send_cookies, cookies@));
    add_table(&mut list, extra, false);
    add_table(&mut list, headers, false);
    list
}

/// The `origin` of a request is the page's, and only where the server has to
/// allow the sharing: no extra header can set it, in whatever case it is
/// written, and it is set once.
pub proof fn law_origin_is_the_pages(
    request: RequestModel,
    facts: FactsModel,
    extra: Seq<FieldModel>,
    i: int,
)
    requires
        0 <= i < hop_fields(request, facts, extra).len(),
    ensures
        same_ignoring_case(hop_fields(request, facts, extra)[i].0, "origin"@) <==> (facts.cors && i
            == hop_fields(request, facts, extra).len() - 1),
        facts.cors ==> hop_fields(request, facts, extra).last() == ("origin"@, facts.origin),
{
    reveal_strlit("origin");
    reveal_strlit("accept");
    reveal_strlit("sec-fetch-site");
    reveal_strlit("sec-fetch-mode");
    reveal_strlit("sec-fetch-dest");
    reveal_strlit("upgrade-insecure-requests");
    reveal_strlit("sec-fetch-user");
    reveal_strlit("referer");
    reveal_strlit("Cookie");
    let fields = hop_fields(request, facts, extra);
    let head = described(request, facts) + navigational(request) + referring(facts) + cookie_field(
        "Cookie"@,
        facts.credentials,
        facts.cookies,
    );
    let kept = extra.filter(not_origin());
    assert(forall|j: int| 0 <= j < head.len() ==> folded_first_differs((#[trigger] head[j]).0));
    if i < head.len() {
        assert(fields[i] == head[i]);
        assert(folded_first_differs(head[i].0));
    } else if i < head.len() + kept.len() {
        assert(fields[i] == kept[i - head.len()]);
        extra.lemma_filter_pred(not_origin(), i - head.len());
        assert(not_origin()(fields[i]));
    } else {
        assert(fields[i] == originating(facts)[0]);
    }
}

spec fn folded_first_differs(name: Seq<char>) -> bool {
    name.len() > 0 && name[0] != 'o' && name[0] != 'O'
}

/// A request carries stored cookies only where they may be sent to the
/// address.
pub proof fn law_cookies_need_credentials(
    request: RequestModel,
    facts: FactsModel,
    other: Seq<char>,
    extra: Seq<FieldModel>,
)
    requires
        !facts.credentials,
    ensures
        hop_fields(request, facts, extra) == hop_fields(
            request,
            FactsModel { cookies: other, ..facts },
            extra,
        ),
{
    let changed = FactsModel { cookies: other, ..facts };
    assert(described(request, facts) =~= described(request, changed));
}

/// Names that tell a server what the client passes for.
pub open spec fn is_identity_name(name: Seq<char>) -> bool {
    same_ignoring_case(name, "user-agent"@) || same_ignoring_case(name, "sec-ch-ua-platform"@)
}

/// What a client passes for is the transport's: no request sets the user agent
/// or the platform, unless the headers that its user gave do.
pub proof fn law_identity_is_the_transports(
    request: RequestModel,
    facts: FactsModel,
    extra: Seq<FieldModel>,
    send_cookies: bool,
    cookies: Seq<char>,
    headers: Seq<FieldModel>,
)
    requires
        forall|i: int| 0 <= i < extra.len() ==> !is_identity_name((#[trigger] extra[i]).0),
        forall|i: int| 0 <= i < headers.len() ==> !is_identity_name((#[trigger] headers[i]).0),
    ensures
        forall|i: int|
            0 <= i < hop_fields(request, facts, extra).len() ==> !is_identity_name(
                (#[trigger] hop_fields(request, facts, extra)[i]).0,
            ),
        forall|i: int|
            0 <= i < single_fields(send_cookies, cookies, extra, headers).len()
                ==> !is_identity_name(
                (#[trigger] single_fields(send_cookies, cookies, extra, headers)[i]).0,
            ),
{
    reveal_strlit("user-agent");
    reveal_strlit("sec-ch-ua-platform");
    reveal_strlit("accept");
    reveal_strlit("sec-fetch-site");
    reveal_strlit("sec-fetch-mode");
    reveal_strlit("sec-fetch-dest");
    reveal_strlit("upgrade-insecure-requests");
    reveal_strlit("sec-fetch-user");
    reveal_strlit("referer");
    reveal_strlit("Cookie");
    reveal_strlit("cookie");
    reveal_strlit("origin");
    let fields = hop_fields(request, facts, extra);
    let head = described(request, facts) + navigational(request) + referring(facts) + cookie_field(
        "Cookie"@,
        facts.credentials,
        facts.cookies,
    );
    let kept = extra.filter(not_origin());
    assert(forall|j: int|
        0 <= j < head.len() ==> (#[trigger] head[j]).0.len() != 10 && head[j].0.len() != 18);
    assert forall|i: int| 0 <= i < fields.len() implies !is_identity_name((#[trigger] fields[i]).0) by {
        if i < head.len() {
            assert(fields[i] == head[i]);
        } else if i < head.len() + kept.len() {
            assert(fields[i] == kept[i - head.len()]);
            extra.lemma_filter_contains_rev(not_origin(), kept[i - head.len()]);
            let j = choose|j: int| 0 <= j < extra.len() && extra[j] == kept[i - head.len()];
            assert(!is_identity_name(extra[j].0));
        } else {
            assert(fields[i] == originating(facts)[0]);
        }
    }
    let list = single_fields(send_cookies, cookies, extra, headers);
    let first = cookie_field("cookie"@, send_cookies, cookies);
    assert forall|i: int| 0 <= i < list.len() implies !is_identity_name((#[trigger] list[i]).0) by {
        if i < first.len() {
            assert(list[i] == first[i]);
        } else if i < first.len() + extra.len() {
            assert(list[i] == extra[i - first.len()]);
        } else {
            assert(list[i] == headers[i - first.len() - extra.len()]);
        }
    }
}

/// Every request describes itself in four fields that come first: what it
/// accepts, and the site, the mode and the destination that it is made for. A
/// request with nothing else to say says nothing else.
pub proof fn law_requests_describe_themselves(
    request: RequestModel,
    facts: FactsModel,
    extra: Seq<FieldModel>,
)
    ensures
        ({
            let fields = hop_fields(request, facts, extra);
            &&& fields.len() >= 4
            &&& fields[0] == ("accept"@, request.accept)
            &&& fields[1] == ("sec-fetch-site"@, facts.fetch_site)
            &&& fields[2] == ("sec-fetch-mode"@, request.mode)
            &&& fields[3] == ("sec-fetch-dest"@, request.destination)
            &&& !request.navigate && facts.referrer is None && !facts.credentials && !facts.cors
                && extra.len() == 0 ==> fields.len() == 4
        }),
{
    reveal(Seq::filter);
}

/// A request that opens a page differs from the same request that does not in
/// two fields, which come behind the four that describe it.
pub proof fn law_navigations_ask_for_security(
    request: RequestModel,
    facts: FactsModel,
    extra: Seq<FieldModel>,
)
    ensures
        ({
            let other = hop_fields(RequestModel { navigate: false, ..request }, facts, extra);
            let opening = hop_fields(RequestModel { navigate: true, ..request }, facts, extra);
            opening == other.take(4) + seq![
                ("upgrade-insecure-requests"@, "1"@),
                ("sec-fetch-user"@, "?1"@),
            ] + other.skip(4)
        }),
{
    let other = hop_fields(RequestModel { navigate: false, ..request }, facts, extra);
    let opening = hop_fields(RequestModel { navigate: true, ..request }, facts, extra);
    assert(opening =~= other.take(4) + seq![
        ("upgrade-insecure-requests"@, "1"@),
        ("sec-fetch-user"@, "?1"@),
    ] + other.skip(4));
}

/// A request with a referrer differs from the same request without one in the
/// one field that holds it, whatever the request is for.
pub proof fn law_referrers_are_sent(
    request: RequestModel,
    facts: FactsModel,
    extra: Seq<FieldModel>,
    referrer: Seq<char>,
)
    ensures
        ({
            let none = hop_fields(request, FactsModel { referrer: None, ..facts }, extra);
            let some = hop_fields(request, FactsModel { referrer: Some(referrer), ..facts }, extra);
            let at: int = if request.navigate {
                6
            } else {
                4
            };
            some == none.take(at) + seq![("referer"@, referrer)] + none.skip(at)
        }),
{
    let none = hop_fields(request, FactsModel { referrer: None, ..facts }, extra);
    let some = hop_fields(request, FactsModel { referrer: Some(referrer), ..facts }, extra);
    let at: int = if request.navigate {
        6
    } else {
        4
    };
    assert(some =~= none.take(at) + seq![("referer"@, referrer)] + none.skip(at));
}

/// Where cookies may be sent to the address and some are stored for it, the
/// request carries them in one field, for every request, and differs in nothing
/// else from the same request without credentials; where none are stored it
/// does not differ at all.
pub proof fn law_stored_cookies_are_sent(
    request: RequestModel,
    facts: FactsModel,
    extra: Seq<FieldModel>,
)
    requires
        facts.credentials,
    ensures
        ({
            let bare = hop_fields(request, FactsModel { credentials: false, ..facts }, extra);
            let fields = hop_fields(request, facts, extra);
            &&& facts.cookies.len() == 0 ==> fields == bare
            &&& facts.cookies.len() > 0 ==> {
                let at: int = 4 + (if request.navigate {
                    2int
                } else {
                    0
                }) + (if facts.referrer is Some {
                    1int
                } else {
                    0
                });
                &&& fields == bare.take(at) + seq![("Cookie"@, facts.cookies)] + bare.skip(at)
                &&& fields.contains(("Cookie"@, facts.cookies))
                &&& same_ignoring_case("Cookie"@, "cookie"@)
            }
        }),
{
    reveal_strlit("Cookie");
    reveal_strlit("cookie");
    let bare = hop_fields(request, FactsModel { credentials: false, ..facts }, extra);
    let fields = hop_fields(request, facts, extra);
    if facts.cookies.len() > 0 {
        let at: int = 4 + (if request.navigate {
            2int
        } else {
            0
        }) + (if facts.referrer is Some {
            1int
        } else {
            0
        });
        assert(fields =~= bare.take(at) + seq![("Cookie"@, facts.cookies)] + bare.skip(at));
        assert(fields[at] == ("Cookie"@, facts.cookies));
    } else {
        assert(fields =~= bare);
    }
}

/// Each header that the client's user set goes out with every request, behind
/// those before it and as it was set, unless its name is `origin` in whatever
/// case: such a header changes nothing.
pub proof fn law_extra_headers_are_sent(
    request: RequestModel,
    facts: FactsModel,
    extra: Seq<FieldModel>,
    field: FieldModel,
)
    requires
        !facts.cors,
    ensures
        same_ignoring_case(field.0, "origin"@) ==> hop_fields(request, facts, extra.push(field))
            == hop_fields(request, facts, extra),
        !same_ignoring_case(field.0, "origin"@) ==> hop_fields(request, facts, extra.push(field))
            == hop_fields(request, facts, extra).push(field),
{
    reveal(Seq::filter);
    assert(extra.push(field).drop_last() =~= extra);
    assert(not_origin()(field) == !same_ignoring_case(field.0, "origin"@));
    let more = hop_fields(request, facts, extra.push(field));
    if same_ignoring_case(field.0, "origin"@) {
        assert(more =~= hop_fields(request, facts, extra));
    } else {
        assert(more =~= hop_fields(request, facts, extra).push(field));
    }
}

/// A request whose response the server has to share differs from the same
/// request whose response it has not in one field, the last: the origin that
/// the request is made for.
pub proof fn law_shared_requests_name_their_origin(
    request: RequestModel,
    facts: FactsModel,
    extra: Seq<FieldModel>,
)
    ensures
        hop_fields(request, FactsModel { cors: true, ..facts }, extra) == hop_fields(
            request,
            FactsModel { cors: false, ..facts },
            extra,
        ).push(("origin"@, facts.origin)),
{
    assert(hop_fields(request, FactsModel { cors: true, ..facts }, extra) =~= hop_fields(
        request,
        FactsModel { cors: false, ..facts },
        extra,
    ).push(("origin"@, facts.origin)));
}

/// A single request carries the stored cookies first, where it sends cookies and
/// some are stored, then the headers that the client's user set, then its own,
/// all of them as they were set and whatever their names are.
pub proof fn law_single_requests_carry_what_they_are_given(
    send_cookies: bool,
    cookies: Seq<char>,
    extra: Seq<FieldModel>,
    headers: Seq<FieldModel>,
    field: FieldModel,
)
    ensures
        single_fields(send_cookies, cookies, extra, headers.push(field)) == single_fields(
            send_cookies,
            cookies,
            extra,
            headers,
        ).push(field),
        single_fields(send_cookies, cookies, extra.push(field), Seq::empty()) == single_fields(
            send_cookies,
            cookies,
            extra,
            Seq::empty(),
        ).push(field),
        send_cookies && cookies.len() > 0 ==> single_fields(
            send_cookies,
            cookies,
            Seq::empty(),
            Seq::empty(),
        ) == seq![("cookie"@, cookies)],
        !send_cookies || cookies.len() == 0 ==> single_fields(
            send_cookies,
            cookies,
            Seq::empty(),
            Seq::empty(),
        ).len() == 0,
{
    assert(single_fields(send_cookies, cookies, extra, headers.push(field)) =~= single_fields(
        send_cookies,
        cookies,
        extra,
        headers,
    ).push(field));
    assert(single_fields(send_cookies, cookies, extra.push(field), Seq::empty()) =~= single_fields(
        send_cookies,
        cookies,
        extra,
        Seq::empty(),
    ).push(field));
    if send_cookies && cookies.len() > 0 {
        assert(single_fields(send_cookies, cookies, Seq::empty(), Seq::empty()) =~= seq![
            ("cookie"@, cookies),
        ]);
    }
}

} // verus!
