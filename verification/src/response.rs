//! The response to a GET request.
use vstd::prelude::*;

use crate::dict::entries;
use crate::headers::{
    header_dict, header_fields, lemma_header_dict, tell_the_texts, text_headers,
};
use crate::text::{decimal, push_signed_decimal, signed_decimal};

verus! {

/// An HTTP response: status, headers, body and URL.
#[derive(Debug, PartialEq, Eq)]
pub struct Response {
    pub status_code: i32,
    pub text: String,
    /// The headers that are text, each name once.
    pub headers: Vec<(String, String)>,
    pub url: String,
    /// Whether the request was answered with success.
    pub ok: bool,
}

/// Whether a status says that the request was answered with success (2xx).
pub open spec fn is_success(status: int) -> bool {
    200 <= status < 300
}

/// Whether a status is a bad one: an error of the client (4xx) or of the server (5xx).
pub open spec fn is_bad(status: int) -> bool {
    400 <= status < 600
}

impl Response {
    /// Whether `ok` says what the status says.
    pub open spec fn wf(&self) -> bool {
        self.ok == is_success(self.status_code as int)
    }

    /// The response with that status, those headers and that body, from `url`.
    pub fn new(
        status: u16,
        headers: &ureq::http::HeaderMap,
        text: String,
        url: String,
    ) -> (response: Response)
        ensures
            response.wf(),
            response.status_code == status,
            response.text == text,
            entries(response.headers@) == header_dict(header_fields(*headers)),
            response.url == url,
            response.ok == is_success(status as int),
    {
        let status_code: i32 = status as i32;
        Response {
            status_code,
            text,
            headers: text_headers(headers),
            url,
            ok: status_code >= 200 && status_code < 300,
        }
    }

    /// Fails for a bad status (4xx or 5xx), with the status and the body as the message.
    pub fn raise_for_status(&self) -> (result: Result<(), String>)
        ensures
            match result {
                Ok(_) => !is_bad(self.status_code as int),
                Err(message) => is_bad(self.status_code as int) && message@ == signed_decimal(
                    self.status_code as int,
                ) + " "@ + self.text@,
            },
    {
        if self.status_code >= 400 && self.status_code < 600 {
            let mut message: String = String::new();
            push_signed_decimal(&mut message, self.status_code);
            message.append(" ");
            message.append(self.text.as_str());
            assert(message@ =~= signed_decimal(self.status_code as int) + " "@ + self.text@);
            return Err(message);
        }
        Ok(())
    }
}

/// A response whose `ok` is set raises nothing, and one that raises has it unset.
pub proof fn law_ok_raises_nothing(response: Response)
    requires
        response.wf(),
    ensures
        response.ok ==> !is_bad(response.status_code as int),
{
}

/// A response is made of what was received: its status, its body and its URL are those that
/// came, `ok` is set from 200 to 299 and for no other status, and its headers say what the
/// received ones hold.
pub proof fn law_response_is_what_was_received(
    status: u16,
    headers: &ureq::http::HeaderMap,
    text: String,
    url: String,
    response: Response,
)
    requires
        call_ensures(Response::new, (status, headers, text, url), response),
    ensures
        response.status_code == status,
        response.text@ == text@,
        response.url@ == url@,
        response.ok <==> 200 <= status <= 299,
        tell_the_texts(response.headers@, header_fields(*headers)),
{
    lemma_header_dict(response.headers@, header_fields(*headers));
}

/// A response raises from 400 to 599 and for no other status. The message is the status in
/// decimal, a space, and the whole body.
pub proof fn law_bad_status_is_raised(response: Response, result: Result<(), String>)
    requires
        call_ensures(Response::raise_for_status, (&response,), result),
    ensures
        result is Err <==> 400 <= response.status_code <= 599,
        result matches Err(message) ==> message@ == decimal(response.status_code as nat) + seq![' ']
            + response.text@,
{
    reveal_strlit(" ");
    assert(" "@ =~= seq![' ']);
}

} // verus!
