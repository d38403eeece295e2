//! Reading a response body within a limit, and counting what crossed the wire.

use vstd::prelude::*;
use http::HeaderMap;
use crate::address::WebUrl;
use crate::error::{ErrorModel, ObscuraNetError};
use crate::fields::{
    fields_size, first_header, first_value, header_fields, header_size, lemma_known_names,
    opt_value,
};
use crate::text::{
    decimal_len, decimal_width, declared_length, field_text, field_value_text,
    law_values_are_read_as_spelled, opt_text, parse_declared_length, spells,
};

verus! {

/// The bytes of an optional slice.
pub open spec fn opt_bytes(value: Option<&[u8]>) -> Option<Seq<u8>> {
    match value {
        Some(v) => Some(v@),
        None => None,
    }
}

/// The text of an optional header value.
pub open spec fn opt_field_text(value: Option<Seq<u8>>) -> Option<Seq<char>> {
    match value {
        Some(v) => field_text(v),
        None => None,
    }
}

/// The length that an optional header value declares.
pub open spec fn opt_length(value: Option<Seq<u8>>) -> Option<u64> {
    match value {
        Some(v) => declared_length(v),
        None => None,
    }
}

/// What the fields took on the wire that decoding has stripped from the
/// response: `content-encoding` and, with it, `content-length`.
pub open spec fn stripped_size(encoding: Option<Seq<u8>>, length: Option<Seq<u8>>) -> nat {
    match opt_field_text(encoding) {
        Some(text) => {
            "content-encoding"@.len() + text.len() + 4 + match opt_length(length) {
                Some(n) => "content-length"@.len() + decimal_width(n as nat) + 4,
                None => 0,
            }
        },
        None => 0,
    }
}

/// The length of the body on the wire, if it is known: what the stripped field
/// declares, else what the response declares.
pub open spec fn wire_length(stripped: Option<Seq<u8>>, present: Option<Seq<u8>>) -> Option<u64> {
    match opt_length(stripped) {
        Some(n) => Some(n),
        None => opt_length(present),
    }
}

/// The room to set aside for a body of a declared length.
pub open spec fn body_capacity(declared: Option<u64>, limit: nat) -> nat {
    match declared {
        Some(n) => if n > usize::MAX {
            0
        } else if n < limit {
            n as nat
        } else {
            limit
        },
        None => 0,
    }
}

/// What is known of a body before it is read.
pub struct BodyPlan {
    /// What the header fields took on the wire.
    pub header_bytes: u64,
    /// The length of the body on the wire, if it is known.
    pub content_length: Option<u64>,
    /// The encoding that the response declares.
    pub content_encoding: Option<String>,
    /// The room to set aside.
    pub capacity: usize,
}

/// A plan by its texts.
pub struct PlanModel {
    pub header_bytes: nat,
    pub content_length: Option<u64>,
    pub content_encoding: Option<Seq<char>>,
    pub capacity: nat,
}

impl View for BodyPlan {
    type V = PlanModel;

    open spec fn view(&self) -> PlanModel {
        PlanModel {
            header_bytes: self.header_bytes as nat,
            content_length: self.content_length,
            content_encoding: opt_text(self.content_encoding),
            capacity: self.capacity as nat,
        }
    }
}

/// The header values that decoding has stripped from a response, where the
/// transport kept them.
pub struct Stripped<'a> {
    pub encoding: Option<&'a [u8]>,
    pub length: Option<&'a [u8]>,
}

/// The plan for a body, or the refusal of one that is declared too long.
pub open spec fn plan_model(
    field_size: nat,
    length: Option<Seq<u8>>,
    encoding: Option<Seq<u8>>,
    stripped: Stripped,
    declared: Option<u64>,
    limit: nat,
    url: Seq<char>,
) -> Result<PlanModel, ErrorModel> {
    let content_length = wire_length(opt_bytes(stripped.length), length);
    if content_length is Some && content_length->0 > limit {
        Err(ErrorModel::ResponseTooLarge { url, limit })
    } else {
        Ok(
            PlanModel {
                header_bytes: field_size + stripped_size(
                    opt_bytes(stripped.encoding),
                    opt_bytes(stripped.length),
                ),
                content_length,
                content_encoding: opt_field_text(encoding),
                capacity: body_capacity(declared, limit),
            },
        )
    }
}

/// A plan or an error, by their models.
pub open spec fn plan_result(r: Result<BodyPlan, ObscuraNetError>) -> Result<PlanModel, ErrorModel> {
    match r {
        Ok(p) => Ok(p@),
        Err(e) => Err(e@),
    }
}

fn text_of(value: Option<&[u8]>) -> (text: Option<String>)
    ensures
        opt_text(text) == opt_field_text(opt_bytes(value)),
{
    match value {
        Some(v) => field_value_text(v),
        None => None,
    }
}

fn length_of(value: Option<&[u8]>) -> (n: Option<u64>)
    ensures
        n == opt_length(opt_bytes(value)),
{
    match value {
        Some(v) => parse_declared_length(v),
        None => None,
    }
}

fn slice_of(value: &Option<Vec<u8>>) -> (slice: Option<&[u8]>)
    ensures
        opt_bytes(slice) == opt_value(*value),
{
    match value {
        Some(v) => Some(v.as_slice()),
        None => None,
    }
}

/// Counts what the stripped fields took on the wire: `None` if 64 bits cannot
/// hold it.
fn size_of_stripped(stripped: &Stripped) -> (size: Option<u64>)
    ensures
        size is Some <==> stripped_size(opt_bytes(stripped.encoding), opt_bytes(stripped.length))
            <= u64::MAX,
        size is Some ==> size->0 == stripped_size(
            opt_bytes(stripped.encoding),
            opt_bytes(stripped.length),
        ),
{
    proof {
        reveal_strlit("content-encoding");
        reveal_strlit("content-length");
    }
    match stripped.encoding {
        Some(value) => match field_value_text(value) {
            Some(_) => {
                let room: usize = value.len();
                let size: Option<u64> = (room as u64).checked_add(20);
                match length_of(stripped.length) {
                    Some(n) => match size {
                        Some(s) => match s.checked_add(18) {
                            Some(t) => t.checked_add(decimal_len(n)),
                            None => None,
                        },
                        None => None,
                    },
                    None => size,
                }
            },
            None => Some(0),
        },
        None => Some(0),
    }
}

/// Plans the reading of a body from what its header fields take and the values
/// of `content-length` and `content-encoding`.
pub fn plan_from(
    field_size: u64,
    length: Option<&[u8]>,
    encoding: Option<&[u8]>,
    stripped: &Stripped,
    declared: Option<u64>,
    limit: usize,
    url: &WebUrl,
) -> (plan: Result<BodyPlan, ObscuraNetError>)
    requires
        field_size + stripped_size(opt_bytes(stripped.encoding), opt_bytes(stripped.length))
            <= u64::MAX,
    ensures
        plan_result(plan) == plan_model(
            field_size as nat,
            opt_bytes(length),
            opt_bytes(encoding),
            *stripped,
            declared,
            limit as nat,
            url@.href,
        ),
{
    let header_bytes: u64 = match size_of_stripped(stripped) {
        Some(size) => field_size + size,
        None => field_size,
    };
    let content_length: Option<u64> = match length_of(stripped.length) {
        Some(n) => Some(n),
        None => length_of(length),
    };
    match content_length {
        Some(n) => {
            if n > limit as u64 {
                return Err(ObscuraNetError::ResponseTooLarge { url: url.href.clone(), limit });
            }
        },
        None => {},
    }
    let capacity: usize = match declared {
        Some(n) => if n > usize::MAX as u64 {
            0
        } else if (n as usize) < limit {
            n as usize
        } else {
            limit
        },
        None => 0,
    };
    Ok(BodyPlan { header_bytes, content_length, content_encoding: text_of(encoding), capacity })
}

/// Plans the reading of a body: `None` if 64 bits cannot hold what its header
/// fields took on the wire.
pub fn plan_body(
    headers: &HeaderMap,
    stripped: &Stripped,
    declared: Option<u64>,
    limit: usize,
    url: &WebUrl,
) -> (plan: Option<Result<BodyPlan, ObscuraNetError>>)
    ensures
        plan is Some <==> fields_size(header_fields(*headers)) + stripped_size(
            opt_bytes(stripped.encoding),
            opt_bytes(stripped.length),
        ) <= u64::MAX,
        plan is Some ==> plan_result(plan->0) == plan_model(
            fields_size(header_fields(*headers)),
            first_value(header_fields(*headers), "content-length"@),
            first_value(header_fields(*headers), "content-encoding"@),
            *stripped,
            declared,
            limit as nat,
            url@.href,
        ),
{
    let field_size: u64 = match header_size(headers) {
        Some(n) => n,
        None => {
            return None;
        },
    };
    match size_of_stripped(stripped) {
        Some(n) => {
            if field_size.checked_add(n).is_none() {
                return None;
            }
        },
        None => {
            return None;
        },
    }
    proof {
        lemma_known_names();
    }
    let length = first_header(headers, "content-length");
    let encoding = first_header(headers, "content-encoding");
    Some(
        plan_from(
            field_size,
            slice_of(&length),
            slice_of(&encoding),
            stripped,
            declared,
            limit,
            url,
        ),
    )
}

/// The length of a body is known where a header value declares it: the value
/// that decoding has stripped, or else the value that is left.
pub open spec fn is_known_length(
    stripped: Option<&[u8]>,
    present: Option<Seq<u8>>,
    length: Option<u64>,
) -> bool {
    if stripped is Some && declared_length(stripped->0@) is Some {
        length == declared_length(stripped->0@)
    } else if present is Some {
        length == declared_length(present->0)
    } else {
        length is None
    }
}

/// A body is refused if and only if its length is known and beyond the limit,
/// with the address and the limit. Else it is read, its length is what is known
/// of it, its encoding is the one that the response declares, and the room set
/// aside for it is what the transport announces, within the limit.
pub proof fn law_bodies_known_to_be_too_long_are_refused(
    field_size: nat,
    length: Option<Seq<u8>>,
    encoding: Option<Seq<u8>>,
    stripped: Stripped,
    declared: Option<u64>,
    limit: nat,
    url: Seq<char>,
)
    ensures
        ({
            let plan = plan_model(field_size, length, encoding, stripped, declared, limit, url);
            &&& plan is Err ==> plan->Err_0 == ErrorModel::ResponseTooLarge { url, limit }
            &&& plan is Err ==> exists|n: u64|
                n > limit && #[trigger] is_known_length(stripped.length, length, Some(n))
            &&& plan matches Ok(p) ==> {
                &&& is_known_length(stripped.length, length, p.content_length)
                &&& p.content_length is Some ==> p.content_length->0 <= limit
                &&& encoding is None ==> p.content_encoding is None
                &&& encoding is Some && p.content_encoding is Some ==> spells(
                    p.content_encoding->0,
                    encoding->0,
                )
                &&& encoding is Some && p.content_encoding is None ==> forall|t: Seq<char>|
                    !(#[trigger] spells(t, encoding->0))
                &&& declared is None ==> p.capacity == 0
                &&& declared is Some && declared->0 <= usize::MAX && declared->0 <= limit
                    ==> p.capacity == declared->0
                &&& declared is Some && declared->0 <= usize::MAX && declared->0 > limit
                    ==> p.capacity == limit
                &&& declared is Some && declared->0 > usize::MAX ==> p.capacity == 0
            }
        }),
{
    let plan = plan_model(field_size, length, encoding, stripped, declared, limit, url);
    if plan is Err {
        let n = wire_length(opt_bytes(stripped.length), length)->0;
        assert(is_known_length(stripped.length, length, Some(n)));
    }
    if encoding is Some {
        match field_text(encoding->0) {
            Some(t) => law_values_are_read_as_spelled(encoding->0, t),
            None => {
                assert forall|t: Seq<char>| #[trigger] spells(t, encoding->0) implies false by {
                    law_values_are_read_as_spelled(encoding->0, t);
                }
            },
        }
    }
}

/// What decoding has stripped crossed the wire too: a stripped
/// `content-encoding` that a text spells is charged with its name, its value and
/// four bytes, and with it a stripped `content-length` that declares a length
/// with its name, the digits of that length and four bytes. Without such an
/// encoding only the fields that are left are charged.
pub proof fn law_stripped_fields_are_charged(
    field_size: nat,
    length: Option<Seq<u8>>,
    encoding: Option<Seq<u8>>,
    stripped: Stripped,
    declared: Option<u64>,
    limit: nat,
    url: Seq<char>,
    text: Seq<char>,
)
    ensures
        ({
            let plan = plan_model(field_size, length, encoding, stripped, declared, limit, url);
            plan matches Ok(p) ==> {
                &&& stripped.encoding is None ==> p.header_bytes == field_size
                &&& stripped.encoding is Some && (forall|t: Seq<char>|
                    !(#[trigger] spells(t, stripped.encoding->0@))) ==> p.header_bytes == field_size
                &&& stripped.encoding is Some && spells(text, stripped.encoding->0@) ==> {
                    let both = field_size + 16 + text.len() + 4;
                    &&& stripped.length is None ==> p.header_bytes == both
                    &&& stripped.length is Some && declared_length(stripped.length->0@) is None
                        ==> p.header_bytes == both
                    &&& stripped.length is Some && declared_length(stripped.length->0@) is Some
                        ==> p.header_bytes == both + 14 + decimal_width(
                        declared_length(stripped.length->0@)->0 as nat,
                    ) + 4
                }
            }
        }),
{
    reveal_strlit("content-encoding");
    reveal_strlit("content-length");
    if stripped.encoding is Some {
        let value = stripped.encoding->0@;
        law_values_are_read_as_spelled(value, text);
        match field_text(value) {
            Some(t) => law_values_are_read_as_spelled(value, t),
            None => {},
        }
    }
}

} // verus!
