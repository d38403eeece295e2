//! Sharing a response across origins.

use vstd::prelude::*;
use http::HeaderMap;
use crate::address::WebUrl;
use crate::error::{ErrorModel, ObscuraNetError};
use crate::fields::{
    header_fields, is_read_as, is_readable, law_single_values_are_read, lemma_known_names,
    opt_text_result, single_value, unreadable, values_of, wreq_response_header_value,
};
use crate::text::opt_text;

verus! {

/// What a server says about the sharing of its response.
pub struct CorsAnswer {
    pub allow_origin: Option<String>,
    pub allow_credentials: Option<String>,
}

/// A server's answer by its texts.
pub struct AnswerModel {
    pub allow_origin: Option<Seq<char>>,
    pub allow_credentials: Option<Seq<char>>,
}

impl View for CorsAnswer {
    type V = AnswerModel;

    open spec fn view(&self) -> AnswerModel {
        AnswerModel {
            allow_origin: opt_text(self.allow_origin),
            allow_credentials: opt_text(self.allow_credentials),
        }
    }
}

/// The answer that the values of the two fields give; the first that cannot be
/// read is the error.
pub open spec fn answer_model(
    allow_origin: Result<Option<Seq<char>>, ErrorModel>,
    allow_credentials: Result<Option<Seq<char>>, ErrorModel>,
) -> Result<AnswerModel, ErrorModel> {
    match allow_origin {
        Err(e) => Err(e),
        Ok(origin) => match allow_credentials {
            Err(e) => Err(e),
            Ok(credentials) => Ok(
                AnswerModel { allow_origin: origin, allow_credentials: credentials },
            ),
        },
    }
}

/// What is left to check of a response: nothing where no sharing is at stake,
/// else the server's answer, or why there is none.
pub open spec fn sharing_model(
    required: bool,
    target: Seq<char>,
    fields: Seq<(Seq<char>, Seq<u8>)>,
) -> Result<Option<AnswerModel>, ErrorModel> {
    if !required {
        Ok(None)
    } else {
        match answer_model(
            single_value(
                values_of(fields, "access-control-allow-origin"@),
                "access-control-allow-origin"@,
                target,
            ),
            single_value(
                values_of(fields, "access-control-allow-credentials"@),
                "access-control-allow-credentials"@,
                target,
            ),
        ) {
            Err(e) => Err(e),
            Ok(answer) => Ok(Some(answer)),
        }
    }
}

/// An answer or an error, by their models.
pub open spec fn answer_result(r: Result<CorsAnswer, ObscuraNetError>) -> Result<
    AnswerModel,
    ErrorModel,
> {
    match r {
        Ok(a) => Ok(a@),
        Err(e) => Err(e@),
    }
}

/// What is left to check, by its model.
pub open spec fn sharing_result(r: Result<Option<CorsAnswer>, ObscuraNetError>) -> Result<
    Option<AnswerModel>,
    ErrorModel,
> {
    match r {
        Ok(Some(a)) => Ok(Some(a@)),
        Ok(None) => Ok(None),
        Err(e) => Err(e@),
    }
}

/// Puts a server's answer together from the values of the two fields.
pub fn cors_answer(
    allow_origin: Result<Option<String>, ObscuraNetError>,
    allow_credentials: Result<Option<String>, ObscuraNetError>,
) -> (answer: Result<CorsAnswer, ObscuraNetError>)
    ensures
        answer_result(answer) == answer_model(
            opt_text_result(allow_origin),
            opt_text_result(allow_credentials),
        ),
{
    match allow_origin {
        Err(e) => Err(e),
        Ok(origin) => match allow_credentials {
            Err(e) => Err(e),
            Ok(credentials) => Ok(
                CorsAnswer { allow_origin: origin, allow_credentials: credentials },
            ),
        },
    }
}

/// Finds what is left to check before a response may be shared: `None` where
/// no sharing is at stake, else the server's answer.
pub fn validate_wreq_cors_response(required: bool, target: &WebUrl, headers: &HeaderMap) -> (left:
    Result<Option<CorsAnswer>, ObscuraNetError>)
    ensures
        sharing_result(left) == sharing_model(required, target@.href, header_fields(*headers)),
{
    if !required {
        return Ok(None);
    }
    proof {
        lemma_known_names();
    }
    let allow_origin = wreq_response_header_value(headers, "access-control-allow-origin", target);
    let allow_credentials = wreq_response_header_value(
        headers,
        "access-control-allow-credentials",
        target,
    );
    match cors_answer(allow_origin, allow_credentials) {
        Ok(answer) => Ok(Some(answer)),
        Err(e) => Err(e),
    }
}

/// Sharing is left to be judged if and only if it is at stake. What the judge is
/// told is what the server says, each of its two fields given once or not at
/// all. Where one of them cannot be read, the first that cannot is the error,
/// and nothing is left to be judged.
pub proof fn law_sharing_is_judged_by_the_servers_answer(
    required: bool,
    target: Seq<char>,
    fields: Seq<(Seq<char>, Seq<u8>)>,
)
    ensures
        ({
            let left = sharing_model(required, target, fields);
            let origins = values_of(fields, "access-control-allow-origin"@);
            let credentials = values_of(fields, "access-control-allow-credentials"@);
            &&& !required ==> left == Ok::<Option<AnswerModel>, ErrorModel>(None)
            &&& required ==> (left is Ok <==> is_readable(origins) && is_readable(credentials))
            &&& required && left is Ok ==> left->Ok_0 is Some && is_read_as(
                origins,
                left->Ok_0->0.allow_origin,
            ) && is_read_as(credentials, left->Ok_0->0.allow_credentials)
            &&& required && !is_readable(origins) ==> left == Err::<Option<AnswerModel>, ErrorModel>(
                unreadable(origins, "access-control-allow-origin"@, target),
            )
            &&& required && is_readable(origins) && !is_readable(credentials) ==> left == Err::<
                Option<AnswerModel>,
                ErrorModel,
            >(unreadable(credentials, "access-control-allow-credentials"@, target))
        }),
{
    law_single_values_are_read(
        values_of(fields, "access-control-allow-origin"@),
        "access-control-allow-origin"@,
        target,
    );
    law_single_values_are_read(
        values_of(fields, "access-control-allow-credentials"@),
        "access-control-allow-credentials"@,
        target,
    );
}

/// An answer is put together if and only if both values could be read, and of
/// those two; else the first of the two errors is handed on.
pub proof fn law_answers_are_put_together(
    allow_origin: Result<Option<Seq<char>>, ErrorModel>,
    allow_credentials: Result<Option<Seq<char>>, ErrorModel>,
)
    ensures
        ({
            let answer = answer_model(allow_origin, allow_credentials);
            &&& answer is Ok <==> allow_origin is Ok && allow_credentials is Ok
            &&& answer is Ok ==> Ok::<Option<Seq<char>>, ErrorModel>(answer->Ok_0.allow_origin)
                == allow_origin && Ok::<Option<Seq<char>>, ErrorModel>(
                answer->Ok_0.allow_credentials,
            ) == allow_credentials
            &&& answer is Err ==> answer->Err_0 == (if allow_origin is Err {
                allow_origin->Err_0
            } else {
                allow_credentials->Err_0
            })
        }),
{
}

} // verus!
