//! What can go wrong with a request, and how callers tell the failures apart.

use vstd::prelude::*;

use crate::text::{
    ascii_lowercase, ascii_text, contains_text, decimal, has_prefix, lowercase, lowercase_text, occurs_at, text_contains,
};

verus! {

/// The status of an answer: a number from 100 to 999.
#[derive(Clone, Copy, PartialEq, Eq, Debug)]
pub struct StatusCode {
    code: u16,
}

impl View for StatusCode {
    type V = u16;

    closed spec fn view(&self) -> u16 {
        self.code
    }
}

/// A number that can be a status.
pub open spec fn is_status(code: u16) -> bool {
    100 <= code <= 999
}

impl StatusCode {
    #[verifier::type_invariant]
    spec fn in_range(self) -> bool {
        is_status(self.code)
    }

    /// The status with a number, where it can be one.
    pub fn from_u16(code: u16) -> (status: Option<StatusCode>)
        ensures
            status is Some <==> is_status(code),
            status matches Some(status) ==> status@ == code,
    {
        if 100 <= code && code <= 999 {
            Some(StatusCode { code })
        } else {
            None
        }
    }

    /// 429 Too Many Requests.
    pub fn too_many_requests() -> (status: StatusCode)
        ensures
            status@ == 429,
    {
        StatusCode { code: 429 }
    }

    /// The number of the status.
    pub fn as_u16(&self) -> (code: u16)
        ensures
            code == self@,
            is_status(code),
    {
        proof {
            use_type_invariant(self);
        }
        self.code
    }

    /// The status says that the request succeeded.
    pub fn is_success(&self) -> (success: bool)
        ensures
            success == (200 <= self@ < 300),
    {
        200 <= self.code && self.code < 300
    }
}

/// `Display` of `reqwest::StatusCode`: the number of a status and its words.
pub uninterp spec fn status_words(code: u16) -> Seq<char>;

/// `Display` of `reqwest::StatusCode`, on the status that `from_u16` makes of the number: a function
/// of the number alone. It begins with the number in decimal digits and a space; the words of the
/// three statuses that the library tells apart are spelled out.
#[verifier::external_body]
fn status_text(code: u16) -> (text: String)
    requires
        is_status(code),
    ensures
        text@ == status_words(code),
        has_prefix(text@, decimal(code as nat).push(' ')),
        code == 401 ==> text@ == "401 Unauthorized"@,
        code == 403 ==> text@ == "403 Forbidden"@,
        code == 429 ==> text@ == "429 Too Many Requests"@,
{
    match reqwest::StatusCode::from_u16(code) {
        Ok(status) => status.to_string(),
        Err(error) => error.to_string(),
    }
}

/// An answer that is no success. The status is kept, so that a caller can tell a refused token
/// from a request that merely failed.
#[derive(Debug)]
pub struct SpotifyApiError {
    pub status: StatusCode,
    pub body: String,
    pub detail: Option<String>,
}

/// What a [`SpotifyApiError`] stands for.
pub struct ApiErrorView {
    pub status: u16,
    pub body: Seq<char>,
    pub detail: Option<Seq<char>>,
}

impl View for SpotifyApiError {
    type V = ApiErrorView;

    open spec fn view(&self) -> ApiErrorView {
        ApiErrorView {
            status: self.status@,
            body: self.body@,
            detail: self.detail.deep_view(),
        }
    }
}

/// The text of an answer that is no success, from the words of its status.
pub open spec fn failure_text(
    words: Seq<char>,
    body: Seq<char>,
    detail: Option<Seq<char>>,
) -> Seq<char> {
    let head = "Spotify API "@ + words + " failed: "@ + body;
    match detail {
        Some(detail) => head + " ("@ + detail + ")"@,
        None => head,
    }
}

/// The text of an answer that is no success, from the words of its status.
pub fn describe_failure(words: &str, body: &str, detail: &Option<String>) -> (text: String)
    ensures
        text@ == failure_text(words@, body@, detail.deep_view()),
{
    let mut text = "Spotify API ".to_owned();
    text.append(words);
    text.append(" failed: ");
    text.append(body);
    match detail {
        Some(detail) => {
            text.append(" (");
            text.append(detail.as_str());
            text.append(")");
        },
        None => {},
    }
    text
}

/// The text of an answer that is no success.
pub open spec fn api_error_text(error: ApiErrorView) -> Seq<char> {
    failure_text(status_words(error.status), error.body, error.detail)
}

impl SpotifyApiError {
    /// The text of the error.
    pub fn text(&self) -> (text: String)
        ensures
            text@ == api_error_text(self@),
            self@.status == 401 ==> text@ == failure_text(
                "401 Unauthorized"@,
                self@.body,
                self@.detail,
            ),
            self@.status == 403 ==> text@ == failure_text(
                "403 Forbidden"@,
                self@.body,
                self@.detail,
            ),
            self@.status == 429 ==> text@ == failure_text(
                "429 Too Many Requests"@,
                self@.body,
                self@.detail,
            ),
            self@.status == 429 ==> contains_text(text@, "429"@),
            self@.status == 401 ==> contains_text(text@, "401"@),
    {
        let words = status_text(self.status.as_u16());
        let text = describe_failure(words.as_str(), self.body.as_str(), &self.detail);
        proof {
            reveal_strlit("Spotify API ");
            reveal_strlit("429");
            reveal_strlit("401");
            reveal_strlit("429 Too Many Requests");
            reveal_strlit("401 Unauthorized");
            if self@.status == 429 {
                assert(text@.subrange(12, 15) =~= "429"@);
                assert(occurs_at(text@, "429"@, 12));
            }
            if self@.status == 401 {
                assert(text@.subrange(12, 15) =~= "401"@);
                assert(occurs_at(text@, "401"@, 12));
            }
        }
        text
    }
}

/// Why a request came to nothing.
#[derive(Debug)]
pub enum RequestError {
    /// The service answered, and not with success.
    Api(SpotifyApiError),
    /// Anything else, with what is to be said of it.
    Other(String),
}

/// What a [`RequestError`] stands for.
pub enum RequestErrorView {
    Api(ApiErrorView),
    Other(Seq<char>),
}

impl View for RequestError {
    type V = RequestErrorView;

    open spec fn view(&self) -> RequestErrorView {
        match self {
            RequestError::Api(error) => RequestErrorView::Api(error@),
            RequestError::Other(text) => RequestErrorView::Other(text@),
        }
    }
}

/// The text of an error.
pub open spec fn error_text(error: RequestErrorView) -> Seq<char> {
    match error {
        RequestErrorView::Api(error) => api_error_text(error),
        RequestErrorView::Other(text) => text,
    }
}

impl RequestError {
    /// The text of the error.
    pub fn text(&self) -> (text: String)
        ensures
            text@ == error_text(self@),
            self@ matches RequestErrorView::Api(error) ==> {
                &&& error.status == 401 ==> text@ == failure_text(
                    "401 Unauthorized"@,
                    error.body,
                    error.detail,
                )
                &&& error.status == 403 ==> text@ == failure_text(
                    "403 Forbidden"@,
                    error.body,
                    error.detail,
                )
                &&& error.status == 429 ==> text@ == failure_text(
                    "429 Too Many Requests"@,
                    error.body,
                    error.detail,
                )
            },
            self@ matches RequestErrorView::Api(error) && error.status == 429 ==> contains_text(
                text@,
                "429"@,
            ),
            self@ matches RequestErrorView::Api(error) && error.status == 401 ==> contains_text(
                text@,
                "401"@,
            ),
    {
        match self {
            RequestError::Api(error) => error.text(),
            RequestError::Other(text) => text.clone(),
        }
    }
}

/// The text speaks of too many requests.
pub open spec fn speaks_of_rate_limit(text: Seq<char>) -> bool {
    ||| contains_text(text, "429"@)
    ||| contains_text(text, "Too Many Requests"@)
    ||| contains_text(text, "Too many requests"@)
}

/// Whether a text speaks of too many requests.
pub fn text_speaks_of_rate_limit(text: &str) -> (limited: bool)
    ensures
        limited == speaks_of_rate_limit(text@),
{
    text_contains(text, "429") || text_contains(text, "Too Many Requests") || text_contains(
        text,
        "Too many requests",
    )
}

/// Whether an error says that there were too many requests.
pub fn is_rate_limited_error(e: &RequestError) -> (limited: bool)
    ensures
        limited == speaks_of_rate_limit(error_text(e@)),
        e@ matches RequestErrorView::Api(error) && error.status == 429 ==> limited,
{
    let text = e.text();
    text_speaks_of_rate_limit(text.as_str())
}

/// The error is an answer with the status 403.
pub open spec fn forbidden(error: RequestErrorView) -> bool {
    error matches RequestErrorView::Api(error) && error.status == 403
}

/// Whether an error is an answer with the status 403. The text of the error plays no part.
pub fn is_forbidden_error(e: &RequestError) -> (result: bool)
    ensures
        result == forbidden(e@),
{
    match e {
        RequestError::Api(error) => error.status.as_u16() == 403,
        RequestError::Other(_) => false,
    }
}

/// The text, in small letters, speaks of a failing network.
pub open spec fn speaks_of_network(text: Seq<char>) -> bool {
    ||| contains_text(text, "error sending request for url"@)
    ||| contains_text(text, "connection reset"@)
    ||| contains_text(text, "connection refused"@)
    ||| contains_text(text, "timed out"@)
    ||| contains_text(text, "temporary failure"@)
    ||| contains_text(text, "dns"@)
}

/// Whether a text in small letters speaks of a failing network.
pub fn lowercase_text_speaks_of_network(text: &str) -> (network: bool)
    ensures
        network == speaks_of_network(text@),
{
    text_contains(text, "error sending request for url") || text_contains(text, "connection reset")
        || text_contains(text, "connection refused") || text_contains(text, "timed out")
        || text_contains(text, "temporary failure") || text_contains(text, "dns")
}

/// Whether an error says that the network failed for the moment, in whatever case it is written.
pub fn is_transient_network_error(e: &RequestError) -> (transient: bool)
    ensures
        transient == speaks_of_network(lowercase(error_text(e@))),
        ascii_text(error_text(e@)) ==> transient == speaks_of_network(
            ascii_lowercase(error_text(e@)),
        ),
{
    let text = e.text();
    let lower = lowercase_text(text.as_str());
    lowercase_text_speaks_of_network(lower.as_str())
}

/// The text of a failed answer names its status, then says what it holds, and last, in brackets, why
/// nothing could be done about it.
pub proof fn lemma_failure_is_described(
    words: Seq<char>,
    body: Seq<char>,
    detail: Seq<char>,
)
    ensures
        has_prefix(failure_text(words, body, None), "Spotify API "@ + words),
        failure_text(words, body, None).skip(
            failure_text(words, body, None).len() - body.len(),
        ) == body,
        failure_text(words, body, Some(detail)) == failure_text(words, body, None) + " ("@ + detail
            + ")"@,
        failure_text(words, body, None).len() == "Spotify API "@.len() + words.len()
            + " failed: "@.len() + body.len(),
        contains_text(failure_text(words, body, None), " failed: "@),
{
    let text = failure_text(words, body, None);
    let head = "Spotify API "@ + words;
    assert(text.subrange(0, head.len() as int) =~= head);
    assert(text.skip(text.len() - body.len()) =~= body);
    let at = head.len() as int;
    assert(text.subrange(at, at + " failed: "@.len()) =~= " failed: "@);
    assert(occurs_at(text, " failed: "@, at));
}

proof fn lemma_named_is_contained(before: Seq<char>, name: Seq<char>, after: Seq<char>)
    ensures
        contains_text(before + name + after, name),
{
    assert((before + name + after).subrange(
        before.len() as int,
        before.len() as int + name.len(),
    ) =~= name);
    assert(occurs_at(before + name + after, name, before.len() as int));
}

/// A text that names the status or its words, wherever it does, speaks of too many requests; one that
/// has neither the number nor the word `requests` does not.
pub proof fn lemma_rate_limit_is_known(before: Seq<char>, after: Seq<char>, text: Seq<char>)
    ensures
        speaks_of_rate_limit(before + "429"@ + after),
        speaks_of_rate_limit(before + "Too Many Requests"@ + after),
        speaks_of_rate_limit(before + "Too many requests"@ + after),
        !contains_text(text, "429"@) && !contains_text(text, "equests"@) ==> !speaks_of_rate_limit(
            text,
        ),
{
    lemma_named_is_contained(before, "429"@, after);
    lemma_named_is_contained(before, "Too Many Requests"@, after);
    lemma_named_is_contained(before, "Too many requests"@, after);
    reveal_strlit("equests");
    reveal_strlit("Too Many Requests");
    reveal_strlit("Too many requests");
    if contains_text(text, "Too Many Requests"@) {
        let at = choose|at: int| occurs_at(text, "Too Many Requests"@, at);
        assert(text.subrange(at, at + 17).skip(10) =~= text.subrange(at + 10, at + 17));
        assert("Too Many Requests"@.skip(10) =~= "equests"@);
        assert(occurs_at(text, "equests"@, at + 10));
    }
    if contains_text(text, "Too many requests"@) {
        let at = choose|at: int| occurs_at(text, "Too many requests"@, at);
        assert(text.subrange(at, at + 17).skip(10) =~= text.subrange(at + 10, at + 17));
        assert("Too many requests"@.skip(10) =~= "equests"@);
        assert(occurs_at(text, "equests"@, at + 10));
    }
}

/// A text that names one of the failures of a network, wherever it does, speaks of one; a text that
/// names none of them does not.
pub proof fn lemma_network_failure_is_known(before: Seq<char>, after: Seq<char>, text: Seq<char>)
    ensures
        speaks_of_network(before + "error sending request for url"@ + after),
        speaks_of_network(before + "connection reset"@ + after),
        speaks_of_network(before + "connection refused"@ + after),
        speaks_of_network(before + "timed out"@ + after),
        speaks_of_network(before + "temporary failure"@ + after),
        speaks_of_network(before + "dns"@ + after),
        !contains_text(text, "error sending"@) && !contains_text(text, "connection re"@)
            && !contains_text(text, "timed out"@) && !contains_text(text, "temporary failure"@)
            && !contains_text(text, "dns"@) ==> !speaks_of_network(text),
{
    lemma_named_is_contained(before, "error sending request for url"@, after);
    lemma_named_is_contained(before, "connection reset"@, after);
    lemma_named_is_contained(before, "connection refused"@, after);
    lemma_named_is_contained(before, "timed out"@, after);
    lemma_named_is_contained(before, "temporary failure"@, after);
    lemma_named_is_contained(before, "dns"@, after);
    reveal_strlit("error sending");
    reveal_strlit("error sending request for url");
    reveal_strlit("connection re");
    reveal_strlit("connection reset");
    reveal_strlit("connection refused");
    if contains_text(text, "error sending request for url"@) {
        let at = choose|at: int| occurs_at(text, "error sending request for url"@, at);
        assert(text.subrange(at, at + 29).take(13) =~= text.subrange(at, at + 13));
        assert("error sending request for url"@.take(13) =~= "error sending"@);
        assert(occurs_at(text, "error sending"@, at));
    }
    if contains_text(text, "connection reset"@) {
        let at = choose|at: int| occurs_at(text, "connection reset"@, at);
        assert(text.subrange(at, at + 16).take(13) =~= text.subrange(at, at + 13));
        assert("connection reset"@.take(13) =~= "connection re"@);
        assert(occurs_at(text, "connection re"@, at));
    }
    if contains_text(text, "connection refused"@) {
        let at = choose|at: int| occurs_at(text, "connection refused"@, at);
        assert(text.subrange(at, at + 18).take(13) =~= text.subrange(at, at + 13));
        assert("connection refused"@.take(13) =~= "connection re"@);
        assert(occurs_at(text, "connection re"@, at));
    }
}

/// Only an answer is a refusal of what was asked for, by its status; what an error says plays no part.
pub proof fn lemma_only_status_forbids(one: ApiErrorView, other: ApiErrorView, text: Seq<char>)
    requires
        one.status == other.status,
    ensures
        forbidden(RequestErrorView::Api(one)) == forbidden(RequestErrorView::Api(other)),
        forbidden(RequestErrorView::Api(one)) <==> one.status == 403,
        !forbidden(RequestErrorView::Other(text)),
        error_text(RequestErrorView::Other(text)) == text,
        error_text(RequestErrorView::Api(one)) == failure_text(
            status_words(one.status),
            one.body,
            one.detail,
        ),
{
}

/// The numbers that can be a status are those of three digits.
pub proof fn lemma_statuses_have_three_digits(code: u16)
    ensures
        is_status(code) <==> decimal(code as nat).len() == 3,
{
    reveal_with_fuel(decimal, 6);
}

} // verus!
