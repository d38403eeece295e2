//! The header fields of a response.

use vstd::prelude::*;
use vstd::string::*;
use vstd::utf8::*;
use http::HeaderMap;
use http::HeaderValue;
use crate::address::WebUrl;
use crate::error::{ErrorModel, ObscuraNetError};
use crate::table::{collected, law_last_pairs_win, HeaderTable};
use crate::text::{
    field_text, field_value_text, is_token, law_values_are_read_as_spelled, opt_text,
    same_ignoring_case, spells, texts,
};

verus! {

/// `http::header::HeaderMap`, the header fields of a message.
#[verifier::external_type_specification]
#[verifier::external_body]
#[verifier::reject_recursive_types(T)]
pub struct ExHeaderMap<T>(HeaderMap<T>);

/// `http::header::HeaderValue`, the value of one header field.
#[verifier::external_type_specification]
#[verifier::external_body]
pub struct ExHeaderValue(HeaderValue);

/// The fields that a header map holds, name and value, in the order in which
/// `HeaderMap::iter` visits them.
pub uninterp spec fn header_fields(headers: HeaderMap) -> Seq<(Seq<char>, Seq<u8>)>;

/// A name as header maps hold it: ASCII without upper-case letters.
pub open spec fn is_field_name(name: Seq<char>) -> bool {
    &&& is_ascii_chars(name)
    &&& forall|i: int| 0 <= i < name.len() ==> !('A' <= #[trigger] name[i] <= 'Z')
}

/// The names of a table are in lower case.
pub open spec fn lower_case_names(headers: Map<Seq<char>, Seq<char>>) -> bool {
    forall|name: Seq<char>| #[trigger] headers.contains_key(name) ==> is_field_name(name)
}

/// The values of the fields of a name, in whatever case it is written, in
/// order.
pub open spec fn values_of(fields: Seq<(Seq<char>, Seq<u8>)>, name: Seq<char>) -> Seq<Seq<u8>>
    decreases fields.len(),
{
    if fields.len() == 0 {
        Seq::empty()
    } else if same_ignoring_case(fields.last().0, name) {
        values_of(fields.drop_last(), name).push(fields.last().1)
    } else {
        values_of(fields.drop_last(), name)
    }
}

/// The first value of a name.
pub open spec fn first_value(fields: Seq<(Seq<char>, Seq<u8>)>, name: Seq<char>) -> Option<Seq<u8>> {
    let values = values_of(fields, name);
    if values.len() > 0 {
        Some(values[0])
    } else {
        None
    }
}

/// A name that a look-up finds: a token that fits the buffer in which header
/// maps bring names to lower case.
pub open spec fn is_lookup_name(name: Seq<char>) -> bool {
    is_token(name) && name.len() <= 64
}

/// A name of which a look-up finds nothing: one that fits that buffer and is no
/// token, or one that is longer than any name that a header map holds.
pub open spec fn is_refused_name(name: Seq<char>) -> bool {
    ||| !is_token(name) && encode_utf8(name).len() <= 64
    ||| encode_utf8(name).len() > 65535
}

/// Every value of the list is a value of the name.
pub open spec fn are_values_of(
    values: Seq<Seq<u8>>,
    fields: Seq<(Seq<char>, Seq<u8>)>,
    name: Seq<char>,
) -> bool {
    forall|i: int| 0 <= i < values.len() ==> values_of(fields, name).contains(#[trigger] values[i])
}

/// The names under which the library looks fields up can be found.
pub proof fn lemma_known_names()
    ensures
        is_lookup_name("access-control-allow-origin"@),
        is_lookup_name("access-control-allow-credentials"@),
        is_lookup_name("set-cookie"@),
        is_lookup_name("location"@),
        is_lookup_name("content-length"@),
        is_lookup_name("content-encoding"@),
{
    reveal_strlit("access-control-allow-origin");
    reveal_strlit("access-control-allow-credentials");
    reveal_strlit("set-cookie");
    reveal_strlit("location");
    reveal_strlit("content-length");
    reveal_strlit("content-encoding");
}

/// The fields of a list, by their texts and bytes.
pub open spec fn field_models(fields: Seq<(String, Vec<u8>)>) -> Seq<(Seq<char>, Seq<u8>)> {
    fields.map_values(|f: (String, Vec<u8>)| (f.0@, f.1@))
}

/// The bytes of a list of values.
pub open spec fn value_models(values: Seq<Vec<u8>>) -> Seq<Seq<u8>> {
    values.map_values(|v: Vec<u8>| v@)
}

/// Calls `http::header::HeaderMap::iter` and copies out what it visits. The
/// map holds its names in lower-case ASCII.
#[verifier::external_body]
fn map_iter(headers: &HeaderMap) -> (fields: Vec<(String, Vec<u8>)>)
    ensures
        field_models(fields@) == header_fields(*headers),
        forall|i: int| 0 <= i < fields@.len() ==> is_field_name((#[trigger] fields@[i]).0@),
{
    headers.iter().map(|(k, v)| (k.as_str().to_owned(), v.as_bytes().to_vec())).collect()
}

/// Calls `http::header::HeaderMap::get_all` and copies out the values, which
/// come in the order in which `iter` visits them. A token of at most 64 bytes
/// matches in any case; anything else of at most 64 bytes finds nothing, not
/// even a field that holds it as its name, and neither does a name of more than
/// 65535 bytes. Of a longer token only this is claimed, that what is found are
/// values of the name: the map hashes such a name byte by byte where it hashes
/// a name that it holds at once, which comes to the same with its own hasher,
/// but need not with the hasher of `std` that it turns to under many
/// collisions, so that it may miss the name. Nothing is claimed of other
/// longer names, whose bytes the map does not check.
#[verifier::external_body]
fn map_get_all(headers: &HeaderMap, name: &str) -> (values: Vec<Vec<u8>>)
    ensures
        is_lookup_name(name@) ==> value_models(values@) == values_of(header_fields(*headers), name@),
        is_refused_name(name@) ==> values@.len() == 0,
        is_token(name@) ==> are_values_of(
            value_models(values@),
            header_fields(*headers),
            name@,
        ),
{
    headers.get_all(name).iter().map(|v| v.as_bytes().to_vec()).collect()
}

/// The bytes of an optional value.
pub open spec fn opt_value(value: Option<Vec<u8>>) -> Option<Seq<u8>> {
    match value {
        Some(v) => Some(v@),
        None => None,
    }
}

/// Calls `http::header::HeaderMap::get` and copies out the value: the first of
/// the name, in whatever case, for a token of at most 64 bytes; nothing for
/// anything else of at most 64 bytes and for a name of more than 65535. What is
/// found of a longer token is a value of the name; it may be missed, as by
/// `get_all`. Nothing is claimed of other longer names.
#[verifier::external_body]
fn map_get(headers: &HeaderMap, name: &str) -> (value: Option<Vec<u8>>)
    ensures
        is_lookup_name(name@) ==> opt_value(value) == first_value(header_fields(*headers), name@),
        is_refused_name(name@) ==> value is None,
        is_token(name@) && value is Some ==> values_of(header_fields(*headers), name@).contains(
            value->0@,
        ),
{
    headers.get(name).map(|v| v.as_bytes().to_vec())
}

/// The value of a name that a response may give once: `None` if it is absent,
/// an error if it is repeated or is no visible ASCII text.
pub open spec fn single_value(values: Seq<Seq<u8>>, name: Seq<char>, url: Seq<char>) -> Result<
    Option<Seq<char>>,
    ErrorModel,
> {
    if values.len() == 0 {
        Ok(None)
    } else if values.len() > 1 {
        Err(ErrorModel::Cors(url + " returned multiple "@ + name + " headers"@))
    } else {
        match field_text(values[0]) {
            Some(text) => Ok(Some(text)),
            None => Err(ErrorModel::Cors(url + " returned an invalid "@ + name + " header"@)),
        }
    }
}

/// An optional text or an error, by their texts.
pub open spec fn opt_text_result(r: Result<Option<String>, ObscuraNetError>) -> Result<
    Option<Seq<char>>,
    ErrorModel,
> {
    match r {
        Ok(t) => Ok(opt_text(t)),
        Err(e) => Err(e@),
    }
}

fn cors_message(url: &WebUrl, middle: &str, name: &str, end: &str) -> (e: ObscuraNetError)
    ensures
        e@ == ErrorModel::Cors(url@.href + middle@ + name@ + end@),
{
    let mut text = url.href.clone();
    text.append(middle);
    text.append(name);
    text.append(end);
    ObscuraNetError::Cors(text)
}

/// Decides on the values that a response gives for a name.
pub fn single_value_of(values: &[Vec<u8>], name: &str, url: &WebUrl) -> (value: Result<
    Option<String>,
    ObscuraNetError,
>)
    ensures
        opt_text_result(value) == single_value(value_models(values@), name@, url@.href),
{
    if values.len() == 0 {
        return Ok(None);
    }
    if values.len() > 1 {
        return Err(cors_message(url, " returned multiple ", name, " headers"));
    }
    match field_value_text(values[0].as_slice()) {
        Some(text) => Ok(Some(text)),
        None => Err(cors_message(url, " returned an invalid ", name, " header")),
    }
}

/// The value of a name that a response may give once. A name of up to 64 bytes
/// that is no token is absent, and so is one of more than 65535 bytes. Of any
/// other name of more than 64 bytes only this is claimed: the result is the
/// decision on some list of values, which for a token are values of the name.
pub fn wreq_response_header_value(headers: &HeaderMap, name: &str, url: &WebUrl) -> (value: Result<
    Option<String>,
    ObscuraNetError,
>)
    ensures
        is_lookup_name(name@) ==> opt_text_result(value) == single_value(
            values_of(header_fields(*headers), name@),
            name@,
            url@.href,
        ),
        is_refused_name(name@) ==> opt_text_result(value) == Ok::<Option<Seq<char>>, ErrorModel>(
            None,
        ),
        exists|values: Seq<Seq<u8>>|
            opt_text_result(value) == #[trigger] single_value(values, name@, url@.href) && (is_token(
                name@,
            ) ==> are_values_of(values, header_fields(*headers), name@)),
{
    let values = map_get_all(headers, name);
    single_value_of(values.as_slice(), name, url)
}

/// The fields as names and texts, the text empty where the value is no visible
/// ASCII.
pub open spec fn text_fields(fields: Seq<(Seq<char>, Seq<u8>)>) -> Seq<(Seq<char>, Seq<char>)> {
    fields.map_values(
        |f: (Seq<char>, Seq<u8>)|
            (
                f.0,
                match field_text(f.1) {
                    Some(t) => t,
                    None => Seq::empty(),
                },
            ),
    )
}

/// The table of the given fields.
pub fn table_of_fields(fields: &[(String, Vec<u8>)]) -> (table: HeaderTable)
    ensures
        table@ == collected(text_fields(field_models(fields@))),
{
    let ghost pairs = text_fields(field_models(fields@));
    let mut table = HeaderTable::new();
    let mut i: usize = 0;
    assert(pairs.take(0) =~= Seq::empty());
    while i < fields.len()
        invariant
            i <= fields@.len(),
            pairs == text_fields(field_models(fields@)),
            table@ == collected(pairs.take(i as int)),
        decreases fields@.len() - i,
    {
        assert(pairs.take(i + 1).drop_last() =~= pairs.take(i as int));
        let text = match field_value_text(fields[i].1.as_slice()) {
            Some(t) => t,
            None => String::new(),
        };
        assert(pairs[i as int] == (fields@[i as int].0@, text@));
        table.insert(fields[i].0.clone(), text);
        i = i + 1;
    }
    assert(pairs.take(i as int) =~= pairs);
    table
}

/// A table of fields whose names are in lower case has such names.
pub proof fn lemma_collected_names(pairs: Seq<(Seq<char>, Seq<char>)>)
    requires
        forall|i: int| 0 <= i < pairs.len() ==> is_field_name((#[trigger] pairs[i]).0),
    ensures
        lower_case_names(collected(pairs)),
    decreases pairs.len(),
{
    if pairs.len() > 0 {
        let front = pairs.drop_last();
        assert forall|i: int| 0 <= i < front.len() implies is_field_name((#[trigger] front[i]).0) by {
            assert(front[i] == pairs[i]);
        }
        lemma_collected_names(front);
        assert(is_field_name(pairs[pairs.len() - 1].0));
        assert forall|name: Seq<char>| #[trigger] collected(pairs).contains_key(name) implies is_field_name(
            name,
        ) by {
            assert(name == pairs.last().0 || collected(front).contains_key(name));
        }
    }
}

/// The table of a response's fields; its names are in lower case.
pub fn response_headers(headers: &HeaderMap) -> (table: HeaderTable)
    ensures
        table@ == collected(text_fields(header_fields(*headers))),
        lower_case_names(table@),
{
    let fields = map_iter(headers);
    proof {
        let pairs = text_fields(field_models(fields@));
        assert forall|i: int| 0 <= i < pairs.len() implies is_field_name((#[trigger] pairs[i]).0) by {
            assert(is_field_name(fields@[i].0@));
        }
        lemma_collected_names(pairs);
    }
    table_of_fields(fields.as_slice())
}

/// The values that are visible ASCII, as texts in order.
pub open spec fn visible_texts(values: Seq<Seq<u8>>) -> Seq<Seq<char>>
    decreases values.len(),
{
    if values.len() == 0 {
        Seq::empty()
    } else {
        match field_text(values.last()) {
            Some(t) => visible_texts(values.drop_last()).push(t),
            None => visible_texts(values.drop_last()),
        }
    }
}

/// Picks the values that are visible ASCII.
pub fn visible_values(values: &[Vec<u8>]) -> (list: Vec<String>)
    ensures
        texts(list@) == visible_texts(value_models(values@)),
{
    let ghost all = value_models(values@);
    let mut list: Vec<String> = Vec::new();
    let mut i: usize = 0;
    assert(texts(list@) =~= visible_texts(all.take(0)));
    while i < values.len()
        invariant
            i <= values@.len(),
            all == value_models(values@),
            texts(list@) == visible_texts(all.take(i as int)),
        decreases values@.len() - i,
    {
        assert(all.take(i + 1).drop_last() =~= all.take(i as int));
        assert(all.take(i + 1).last() == values@[i as int]@);
        let ghost before = texts(list@);
        match field_value_text(values[i].as_slice()) {
            Some(t) => {
                list.push(t);
                assert(texts(list@) =~= before.push(t@));
            },
            None => {},
        }
        i = i + 1;
    }
    assert(all.take(i as int) =~= all);
    list
}

/// The cookies that a response asks to store.
pub fn cookies_to_store(headers: &HeaderMap) -> (list: Vec<String>)
    ensures
        texts(list@) == visible_texts(values_of(header_fields(*headers), "set-cookie"@)),
{
    proof {
        lemma_known_names();
    }
    let values = map_get_all(headers, "set-cookie");
    visible_values(values.as_slice())
}

/// The first value of a name, as bytes. A name of up to 64 bytes that is no
/// token has none, and neither has one of more than 65535 bytes. Of any other
/// name of more than 64 bytes only this is claimed: what is found of a token is
/// a value of the name.
pub fn first_header(headers: &HeaderMap, name: &str) -> (value: Option<Vec<u8>>)
    ensures
        is_lookup_name(name@) ==> opt_value(value) == first_value(header_fields(*headers), name@),
        is_refused_name(name@) ==> value is None,
        is_token(name@) && value is Some ==> values_of(header_fields(*headers), name@).contains(
            value->0@,
        ),
{
    map_get(headers, name)
}

/// What the fields take on the wire: each its name, its value and four bytes
/// for the separator and the line end.
pub open spec fn fields_size(fields: Seq<(Seq<char>, Seq<u8>)>) -> nat
    decreases fields.len(),
{
    if fields.len() == 0 {
        0
    } else {
        fields_size(fields.drop_last()) + fields.last().0.len() + fields.last().1.len() + 4
    }
}

proof fn lemma_fields_size_grows(fields: Seq<(Seq<char>, Seq<u8>)>, n: int)
    requires
        0 <= n <= fields.len(),
    ensures
        fields_size(fields.take(n)) <= fields_size(fields),
    decreases fields.len() - n,
{
    if n < fields.len() {
        assert(fields.take(n + 1).drop_last() =~= fields.take(n));
        lemma_fields_size_grows(fields, n + 1);
    } else {
        assert(fields.take(n) =~= fields);
    }
}

/// A count, if it fits in 64 bits.
pub open spec fn fitting(n: nat) -> Option<u64> {
    if n <= u64::MAX {
        Some(n as u64)
    } else {
        None
    }
}

/// Counts what fields take on the wire: `None` if 64 bits cannot hold it.
pub fn size_of_fields(fields: &[(String, Vec<u8>)]) -> (size: Option<u64>)
    requires
        forall|i: int| 0 <= i < fields@.len() ==> is_ascii_chars((#[trigger] fields@[i]).0@),
    ensures
        size == fitting(fields_size(field_models(fields@))),
{
    let ghost all = field_models(fields@);
    let mut size: u64 = 0;
    let mut i: usize = 0;
    assert(all.take(0) =~= Seq::empty());
    while i < fields.len()
        invariant
            i <= fields@.len(),
            all == field_models(fields@),
            size == fields_size(all.take(i as int)),
            forall|j: int| 0 <= j < fields@.len() ==> is_ascii_chars((#[trigger] fields@[j]).0@),
        decreases fields@.len() - i,
    {
        assert(all.take(i + 1).drop_last() =~= all.take(i as int));
        let name = fields[i].0.as_str();
        proof {
            assert(is_ascii_chars(fields@[i as int].0@));
            is_ascii_chars_encode_utf8(name@);
            lemma_fields_size_grows(all, i + 1);
        }
        let name_len: usize = name.as_bytes().len();
        let value_len: usize = fields[i].1.len();
        let a: Option<u64> = size.checked_add(name_len as u64);
        let b: Option<u64> = match a {
            Some(n) => n.checked_add(value_len as u64),
            None => None,
        };
        let c: Option<u64> = match b {
            Some(n) => n.checked_add(4),
            None => None,
        };
        match c {
            Some(n) => {
                size = n;
            },
            None => {
                return None;
            },
        }
        i = i + 1;
    }
    assert(all.take(i as int) =~= all);
    Some(size)
}

/// Counts what the fields of a response take on the wire: `None` if 64 bits
/// cannot hold it.
pub fn header_size(headers: &HeaderMap) -> (size: Option<u64>)
    ensures
        size == fitting(fields_size(header_fields(*headers))),
{
    let fields = map_iter(headers);
    assert forall|i: int| 0 <= i < fields@.len() implies is_ascii_chars((#[trigger] fields@[i]).0@) by {
        assert(is_field_name(fields@[i].0@));
    }
    size_of_fields(fields.as_slice())
}

proof fn lemma_values_split(
    a: Seq<(Seq<char>, Seq<u8>)>,
    b: Seq<(Seq<char>, Seq<u8>)>,
    name: Seq<char>,
)
    ensures
        values_of(a + b, name) == values_of(a, name) + values_of(b, name),
    decreases b.len(),
{
    if b.len() == 0 {
        assert(a + b =~= a);
        assert(values_of(a, name) + values_of(b, name) =~= values_of(a, name));
    } else {
        assert((a + b).drop_last() =~= a + b.drop_last());
        lemma_values_split(a, b.drop_last(), name);
        assert(values_of(a + b, name) =~= values_of(a, name) + values_of(b, name));
    }
}

/// The values of a name are those of its fields, in order: fields that follow
/// give the values that follow, and a single field gives its value to its own
/// name, in whatever case, and to no other.
pub proof fn law_values_follow_their_fields(
    a: Seq<(Seq<char>, Seq<u8>)>,
    b: Seq<(Seq<char>, Seq<u8>)>,
    field: (Seq<char>, Seq<u8>),
    name: Seq<char>,
)
    ensures
        values_of(a + b, name) == values_of(a, name) + values_of(b, name),
        same_ignoring_case(field.0, name) ==> values_of(seq![field], name) == seq![field.1],
        !same_ignoring_case(field.0, name) ==> values_of(seq![field], name).len() == 0,
{
    lemma_values_split(a, b, name);
    assert(seq![field].drop_last() =~= Seq::empty());
    assert(values_of(Seq::empty(), name) =~= Seq::empty());
    if same_ignoring_case(field.0, name) {
        assert(values_of(seq![field], name) =~= seq![field.1]);
    }
}

/// The field at `i` is the first of its name.
pub open spec fn is_first(fields: Seq<(Seq<char>, Seq<u8>)>, name: Seq<char>, i: int) -> bool {
    &&& 0 <= i < fields.len()
    &&& same_ignoring_case(fields[i].0, name)
    &&& forall|j: int| 0 <= j < i ==> !same_ignoring_case((#[trigger] fields[j]).0, name)
}

/// The first value of a name is that of the first field of the name; there is
/// none if and only if there is no such field.
pub proof fn law_first_fields_win(fields: Seq<(Seq<char>, Seq<u8>)>, name: Seq<char>)
    ensures
        forall|i: int| #[trigger]
            is_first(fields, name, i) ==> first_value(fields, name) == Some(fields[i].1),
        first_value(fields, name) is None <==> forall|i: int|
            0 <= i < fields.len() ==> !same_ignoring_case((#[trigger] fields[i]).0, name),
    decreases fields.len(),
{
    if fields.len() > 0 {
        let front = fields.drop_last();
        law_first_fields_win(front, name);
        assert forall|i: int| #[trigger] is_first(fields, name, i) implies first_value(fields, name)
            == Some(fields[i].1) by {
            if i < front.len() {
                assert forall|j: int| 0 <= j < i implies !same_ignoring_case(
                    (#[trigger] front[j]).0,
                    name,
                ) by {
                    assert(front[j] == fields[j]);
                }
                assert(is_first(front, name, i));
            } else {
                assert forall|j: int| 0 <= j < front.len() implies !same_ignoring_case(
                    (#[trigger] front[j]).0,
                    name,
                ) by {
                    assert(front[j] == fields[j]);
                }
            }
        }
        if first_value(fields, name) is None {
            assert forall|i: int| 0 <= i < fields.len() implies !same_ignoring_case(
                (#[trigger] fields[i]).0,
                name,
            ) by {
                if i < front.len() {
                    assert(front[i] == fields[i]);
                }
            }
        }
        if forall|i: int| 0 <= i < fields.len() ==> !same_ignoring_case((#[trigger] fields[i]).0, name) {
            assert forall|i: int| 0 <= i < front.len() implies !same_ignoring_case(
                (#[trigger] front[i]).0,
                name,
            ) by {
                assert(front[i] == fields[i]);
            }
            assert(!same_ignoring_case(fields[fields.len() - 1].0, name));
        }
    }
}

/// At most one value is given, and it can be read.
pub open spec fn is_readable(values: Seq<Seq<u8>>) -> bool {
    values.len() == 0 || (values.len() == 1 && exists|text: Seq<char>| #[trigger]
        spells(text, values[0]))
}

/// What was read is the one value, or the absence of any.
pub open spec fn is_read_as(values: Seq<Seq<u8>>, read: Option<Seq<char>>) -> bool {
    match read {
        Some(text) => values.len() == 1 && spells(text, values[0]),
        None => values.len() == 0,
    }
}

/// Why the values of a name cannot be read.
pub open spec fn unreadable(values: Seq<Seq<u8>>, name: Seq<char>, url: Seq<char>) -> ErrorModel {
    if values.len() > 1 {
        ErrorModel::Cors(url + " returned multiple "@ + name + " headers"@)
    } else {
        ErrorModel::Cors(url + " returned an invalid "@ + name + " header"@)
    }
}

/// The values of a name that a response may give once are read if and only if
/// there is at most one and a text spells it, and they are read as that text.
/// Anything else is an error that names the address and the header.
pub proof fn law_single_values_are_read(values: Seq<Seq<u8>>, name: Seq<char>, url: Seq<char>)
    ensures
        single_value(values, name, url) is Ok <==> is_readable(values),
        single_value(values, name, url) matches Ok(read) ==> is_read_as(values, read),
        single_value(values, name, url) matches Err(e) ==> e == unreadable(values, name, url),
{
    if values.len() == 1 {
        let value = values[0];
        match field_text(value) {
            Some(text) => law_values_are_read_as_spelled(value, text),
            None => {
                assert forall|text: Seq<char>| #[trigger] spells(text, value) implies false by {
                    law_values_are_read_as_spelled(value, text);
                }
            },
        }
    }
}

/// The table of a response has the names of its fields and no others. The value
/// under a name is the text of the last field of the name, and empty where no
/// text spells that field.
pub proof fn law_tables_hold_the_last_fields(
    fields: Seq<(Seq<char>, Seq<u8>)>,
    i: int,
    text: Seq<char>,
)
    requires
        0 <= i < fields.len(),
        forall|j: int| i < j < fields.len() ==> (#[trigger] fields[j]).0 != fields[i].0,
    ensures
        collected(text_fields(fields)).contains_key(fields[i].0),
        spells(text, fields[i].1) ==> collected(text_fields(fields))[fields[i].0] == text,
        (forall|t: Seq<char>| !(#[trigger] spells(t, fields[i].1))) ==> collected(
            text_fields(fields),
        )[fields[i].0].len() == 0,
        forall|name: Seq<char>| #[trigger]
            collected(text_fields(fields)).contains_key(name) ==> exists|j: int|
                0 <= j < fields.len() && (#[trigger] fields[j]).0 == name,
{
    let pairs = text_fields(fields);
    let name = fields[i].0;
    law_last_pairs_win(pairs, name);
    assert(pairs[i].0 == name);
    assert forall|j: int| i < j < pairs.len() implies (#[trigger] pairs[j]).0 != name by {
        assert(fields[j].0 != name);
    }
    assert(collected(pairs)[name] == pairs[i].1);
    law_values_are_read_as_spelled(fields[i].1, text);
    match field_text(fields[i].1) {
        Some(t) => law_values_are_read_as_spelled(fields[i].1, t),
        None => {},
    }
    assert forall|other: Seq<char>| #[trigger] collected(pairs).contains_key(other) implies exists|
        j: int,
    | 0 <= j < fields.len() && (#[trigger] fields[j]).0 == other by {
        law_last_pairs_win(pairs, other);
        let j = choose|j: int| 0 <= j < pairs.len() && (#[trigger] pairs[j]).0 == other;
        assert(fields[j].0 == other);
    }
}

proof fn lemma_visible_split(a: Seq<Seq<u8>>, b: Seq<Seq<u8>>)
    ensures
        visible_texts(a + b) == visible_texts(a) + visible_texts(b),
    decreases b.len(),
{
    if b.len() == 0 {
        assert(a + b =~= a);
        assert(visible_texts(a) + visible_texts(b) =~= visible_texts(a));
    } else {
        assert((a + b).drop_last() =~= a + b.drop_last());
        lemma_visible_split(a, b.drop_last());
        assert(visible_texts(a + b) =~= visible_texts(a) + visible_texts(b));
    }
}

/// Of a list of values those are picked that a text spells, as that text and in
/// order: values that follow give the texts that follow, a single value gives
/// the text that spells it, and nothing where there is none.
pub proof fn law_spelled_values_are_picked(
    a: Seq<Seq<u8>>,
    b: Seq<Seq<u8>>,
    value: Seq<u8>,
    text: Seq<char>,
)
    ensures
        visible_texts(a + b) == visible_texts(a) + visible_texts(b),
        spells(text, value) ==> visible_texts(seq![value]) == seq![text],
        (forall|t: Seq<char>| !(#[trigger] spells(t, value))) ==> visible_texts(seq![value]).len()
            == 0,
{
    lemma_visible_split(a, b);
    assert(seq![value].drop_last() =~= Seq::empty());
    assert(visible_texts(Seq::empty()) =~= Seq::empty());
    law_values_are_read_as_spelled(value, text);
    match field_text(value) {
        Some(t) => {
            law_values_are_read_as_spelled(value, t);
            assert(visible_texts(seq![value]) =~= seq![t]);
        },
        None => {},
    }
}

proof fn lemma_size_split(a: Seq<(Seq<char>, Seq<u8>)>, b: Seq<(Seq<char>, Seq<u8>)>)
    ensures
        fields_size(a + b) == fields_size(a) + fields_size(b),
    decreases b.len(),
{
    if b.len() == 0 {
        assert(a + b =~= a);
    } else {
        assert((a + b).drop_last() =~= a + b.drop_last());
        lemma_size_split(a, b.drop_last());
    }
}

/// What fields take on the wire adds up: each takes its name, its value and four
/// bytes more.
pub proof fn law_sizes_add_up(
    a: Seq<(Seq<char>, Seq<u8>)>,
    b: Seq<(Seq<char>, Seq<u8>)>,
    field: (Seq<char>, Seq<u8>),
)
    ensures
        fields_size(a + b) == fields_size(a) + fields_size(b),
        fields_size(seq![field]) == field.0.len() + field.1.len() + 4,
        fitting(fields_size(a)) is Some <==> fields_size(a) < 0x1_0000_0000_0000_0000,
        fitting(fields_size(a)) matches Some(n) ==> n == fields_size(a),
{
    lemma_size_split(a, b);
    assert(seq![field].drop_last() =~= Seq::empty());
    assert(fields_size(Seq::<(Seq<char>, Seq<u8>)>::empty()) == 0);
}

/// A name is in lower case if and only if all of it is ASCII and none of it is a
/// letter in upper case.
pub proof fn law_lower_case_names_hold_no_capitals(name: Seq<char>)
    ensures
        is_field_name(name) <==> forall|i: int|
            0 <= i < name.len() ==> '\0' <= (#[trigger] name[i]) <= '\u{7f}' && (name[i] < '\u{41}'
                || name[i] > '\u{5a}'),
{
    if is_field_name(name) {
        assert forall|i: int| 0 <= i < name.len() implies '\0' <= (#[trigger] name[i]) <= '\u{7f}' && (
        name[i] < '\u{41}' || name[i] > '\u{5a}') by {
            assert(!('A' <= name[i] <= 'Z'));
        }
    }
}

} // verus!
