//! The browser that the client passes for. The transport sends this user agent
//! and platform on the wire, so what a page sees of the client has to agree
//! with them.

use vstd::prelude::*;
use crate::client::{config_model, CertStore, ProxyChoice};
use crate::request::{
    hop_fields, is_identity_name, law_identity_is_the_transports, single_fields, FactsModel,
    FieldModel, RequestModel,
};
use crate::text::same_ignoring_case;

verus! {

/// The user agent on the wire.
pub const STEALTH_USER_AGENT: &'static str =
    "Mozilla/5.0 (Windows NT 10.0; Win64; x64) AppleWebKit/537.36 (KHTML, like Gecko) Chrome/145.0.0.0 Safari/537.36";

/// `navigator.platform`.
pub const STEALTH_NAVIGATOR_PLATFORM: &'static str = "Win32";

/// The platform of the client hints.
pub const STEALTH_UA_PLATFORM: &'static str = "Windows";

/// The platform version of the client hints.
pub const STEALTH_UA_PLATFORM_VERSION: &'static str = "15.0.0";

/// Browsers whose handshake the transport can imitate.
#[derive(Clone, Copy, Debug, PartialEq, Eq, Structural)]
pub enum Profile {
    Chrome145,
}

/// Platforms that the imitated browser can run on.
#[derive(Clone, Copy, Debug, PartialEq, Eq, Structural)]
pub enum Platform {
    Windows,
}

/// The values of a name, in whatever case it is written, in order.
pub open spec fn named(fields: Seq<FieldModel>, name: Seq<char>) -> Seq<Seq<char>>
    decreases fields.len(),
{
    if fields.len() == 0 {
        Seq::empty()
    } else if same_ignoring_case(fields.last().0, name) {
        named(fields.drop_last(), name).push(fields.last().1)
    } else {
        named(fields.drop_last(), name)
    }
}

/// What goes on the wire under a name: what the request sets, or else what the
/// transport presets.
pub open spec fn on_wire(preset: Seq<FieldModel>, fields: Seq<FieldModel>, name: Seq<char>) -> Seq<
    Seq<char>,
> {
    if named(fields, name).len() > 0 {
        named(fields, name)
    } else {
        named(preset, name)
    }
}

/// On the wire a request shows the user agent and, in quotes, the platform that
/// pages see.
pub open spec fn shows_identity(preset: Seq<FieldModel>, fields: Seq<FieldModel>) -> bool {
    &&& on_wire(preset, fields, "user-agent"@) == seq![STEALTH_USER_AGENT@]
    &&& on_wire(preset, fields, "sec-ch-ua-platform"@) == seq![
        "\""@ + STEALTH_UA_PLATFORM@ + "\""@,
    ]
}

proof fn lemma_unnamed(fields: Seq<FieldModel>)
    requires
        forall|i: int| 0 <= i < fields.len() ==> !is_identity_name((#[trigger] fields[i]).0),
    ensures
        named(fields, "user-agent"@).len() == 0,
        named(fields, "sec-ch-ua-platform"@).len() == 0,
    decreases fields.len(),
{
    if fields.len() > 0 {
        let front = fields.drop_last();
        assert forall|i: int| 0 <= i < front.len() implies !is_identity_name(
            (#[trigger] front[i]).0,
        ) by {
            assert(front[i] == fields[i]);
        }
        lemma_unnamed(front);
        assert(!is_identity_name(fields[fields.len() - 1].0));
    }
}

/// Every request of every client, whatever the proxy and the certificates,
/// shows on the wire the user agent and the platform that pages see, unless the
/// headers that its user gave set another. This holds with every transport that
/// presets them for the imitated browser on its platform; `presets` says what a
/// transport presets.
pub proof fn law_requests_show_what_pages_see(
    presets: spec_fn(Profile, Platform) -> Seq<FieldModel>,
    store: CertStore,
    proxy: Option<ProxyChoice>,
    request: RequestModel,
    facts: FactsModel,
    extra: Seq<FieldModel>,
    send_cookies: bool,
    cookies: Seq<char>,
    headers: Seq<FieldModel>,
)
    requires
        named(presets(Profile::Chrome145, Platform::Windows), "user-agent"@) == seq![
            "Mozilla/5.0 (Windows NT 10.0; Win64; x64) AppleWebKit/537.36 (KHTML, like Gecko) Chrome/145.0.0.0 Safari/537.36"@,
        ],
        named(presets(Profile::Chrome145, Platform::Windows), "sec-ch-ua-platform"@) == seq![
            "\"Windows\""@,
        ],
        forall|i: int| 0 <= i < extra.len() ==> !is_identity_name((#[trigger] extra[i]).0),
        forall|i: int| 0 <= i < headers.len() ==> !is_identity_name((#[trigger] headers[i]).0),
    ensures
        ({
            let config = config_model(store, proxy);
            let preset = presets(config.profile, config.platform);
            &&& shows_identity(preset, hop_fields(request, facts, extra))
            &&& shows_identity(preset, single_fields(send_cookies, cookies, extra, headers))
        }),
{
    law_identity_is_the_transports(request, facts, extra, send_cookies, cookies, headers);
    lemma_unnamed(hop_fields(request, facts, extra));
    lemma_unnamed(single_fields(send_cookies, cookies, extra, headers));
    reveal_strlit("\"Windows\"");
    reveal_strlit("Windows");
    reveal_strlit("\"");
    assert("\"Windows\""@ =~= "\""@ + STEALTH_UA_PLATFORM@ + "\""@);
}

proof fn lemma_named_split(a: Seq<FieldModel>, b: Seq<FieldModel>, name: Seq<char>)
    ensures
        named(a + b, name) == named(a, name) + named(b, name),
    decreases b.len(),
{
    if b.len() == 0 {
        assert(a + b =~= a);
        assert(named(a, name) + named(b, name) =~= named(a, name));
    } else {
        assert((a + b).drop_last() =~= a + b.drop_last());
        lemma_named_split(a, b.drop_last(), name);
        assert(named(a + b, name) =~= named(a, name) + named(b, name));
    }
}

/// The values of a name follow the fields, and a single field gives its value to
/// its own name, in whatever case, and to no other.
pub proof fn law_named_values_follow_their_fields(
    a: Seq<FieldModel>,
    b: Seq<FieldModel>,
    field: FieldModel,
    name: Seq<char>,
)
    ensures
        named(a + b, name) == named(a, name) + named(b, name),
        same_ignoring_case(field.0, name) ==> named(seq![field], name) == seq![field.1],
        !same_ignoring_case(field.0, name) ==> named(seq![field], name).len() == 0,
{
    lemma_named_split(a, b, name);
    assert(seq![field].drop_last() =~= Seq::empty());
    assert(named(Seq::empty(), name) =~= Seq::empty());
    if same_ignoring_case(field.0, name) {
        assert(named(seq![field], name) =~= seq![field.1]);
    }
}

} // verus!
