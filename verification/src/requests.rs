//! One call of the Web API: what is sent, and how answers, retries and token refreshes decide what
//! becomes of it. The calls themselves are made by the caller, who reports what came of each.

use vstd::prelude::*;
use vstd::utf8::encode_utf8;

use crate::errors::{ApiErrorView, RequestError, RequestErrorView, SpotifyApiError, StatusCode};
use crate::gate::{ForcedRefreshGate, MAX_RETRY_AFTER_SECONDS, NANOS_PER_SECOND};
use crate::ids::is_ascii_alphanumeric;
use crate::json::{parse_json, parsed_json, Json, JsonView};
use crate::text::{
    all_digits, ascii_lowercase, ascii_lowercase_text, blank, chars_of, contains_text, decimal,
    decimal_text, is_digit, lemma_contained_in_sum, lemma_decimal_read, lemma_lowercase_sum,
    lemma_trimmed, number_in, occurs_at, parse_number, text_contains, text_of, trim_text, trimmed,
};

verus! {

/// Where the paths of the Web API start.
pub const SPOTIFY_API_BASE_URL: &'static str = "https://api.spotify.com/v1/";

/// How many characters of a body are shown in the log.
pub const MAX_LOGGED_BODY_CHARS: usize = 512;

/// A body as it is shown in the log.
pub open spec fn logged_body(body: Seq<char>) -> Seq<char> {
    let inner = trimmed(body);
    if inner.len() <= MAX_LOGGED_BODY_CHARS {
        inner
    } else {
        inner.take(MAX_LOGGED_BODY_CHARS as int) + "… (truncated)"@
    }
}

/// A body as it is shown in the log: without white space around it, and cut short where it is long.
pub fn truncate_for_log(body: &str) -> (shown: String)
    ensures
        shown@ == logged_body(body@),
{
    let inner = trim_text(body);
    let chars = chars_of(inner.as_str());
    if chars.len() <= MAX_LOGGED_BODY_CHARS {
        return inner;
    }
    let mut head = text_of(
        vstd::slice::slice_subrange(chars.as_slice(), 0, MAX_LOGGED_BODY_CHARS),
    );
    head.append("… (truncated)");
    head
}

/// The content type of an answer says that it is JSON.
pub open spec fn json_content_type(content_type: Option<Seq<char>>) -> bool {
    match content_type {
        Some(value) => {
            let value = ascii_lowercase(value);
            contains_text(value, "/json"@) || contains_text(value, "+json"@)
        },
        None => false,
    }
}

/// Whether the content type of an answer says that it is JSON.
pub fn response_is_json(content_type: &Option<String>) -> (json: bool)
    ensures
        json == json_content_type(content_type.deep_view()),
{
    match content_type {
        Some(value) => {
            let value = ascii_lowercase_text(value.as_str());
            text_contains(value.as_str(), "/json") || text_contains(value.as_str(), "+json")
        },
        None => false,
    }
}

/// How a request acts on what it names.
#[derive(Clone, Copy, PartialEq, Eq, Structural, Debug)]
pub enum Method {
    Get,
    Head,
    Options,
    Post,
    Put,
    Delete,
    Patch,
    Connect,
    Trace,
}

/// What one call sends.
pub struct SpotifyApiRequest {
    pub base_url: String,
    pub method: Method,
    pub path: String,
    pub query: Vec<(String, String)>,
    pub body: Option<Json>,
}

/// What a list of query pairs stands for.
pub open spec fn query_view(query: Seq<(String, String)>) -> Seq<(Seq<char>, Seq<char>)> {
    Seq::new(query.len(), |i: int| (query[i].0@, query[i].1@))
}

/// What travels as the body of a request.
#[derive(Clone, Copy, PartialEq, Eq, Structural, Debug)]
pub enum BodyPlan {
    /// The JSON value of the request.
    Payload,
    /// An empty body, with its length of zero declared.
    DeclaredEmpty,
    /// No body at all.
    Absent,
}

/// A request that changes something.
pub open spec fn is_mutation(method: Method) -> bool {
    method is Post || method is Put || method is Delete || method is Patch
}

impl SpotifyApiRequest {
    /// What travels as the body. A request that changes something declares an empty body, because
    /// the service refuses some of them otherwise.
    pub fn body_plan(&self) -> (plan: BodyPlan)
        ensures
            plan == (if self.body is Some {
                BodyPlan::Payload
            } else if is_mutation(self.method) {
                BodyPlan::DeclaredEmpty
            } else {
                BodyPlan::Absent
            }),
    {
        if self.body.is_some() {
            return BodyPlan::Payload;
        }
        match self.method {
            Method::Post | Method::Put | Method::Delete | Method::Patch => BodyPlan::DeclaredEmpty,
            _ => BodyPlan::Absent,
        }
    }
}

/// A URL as `reqwest` keeps it.
#[verifier::external_type_specification]
#[verifier::external_body]
pub struct ExUrl(reqwest::Url);

/// `Url::parse`: the URL that a text writes out, or the text of the error.
pub uninterp spec fn parsed_url(text: Seq<char>) -> Result<reqwest::Url, Seq<char>>;

/// `Url::join`: the URL that a reference names, seen from another URL, or the text of the error.
pub uninterp spec fn joined_url(base: reqwest::Url, reference: Seq<char>) -> Result<
    reqwest::Url,
    Seq<char>,
>;

/// `Url::query_pairs_mut` and `append_pair`: the URL with one more pair in its query.
pub uninterp spec fn url_with_pair(
    url: reqwest::Url,
    key: Seq<char>,
    value: Seq<char>,
) -> reqwest::Url;

/// `Url::as_str`: the text of a URL.
pub uninterp spec fn url_text(url: reqwest::Url) -> Seq<char>;

/// `Url::parse` of `reqwest`: a function of the text alone.
#[verifier::external_body]
fn parse_url(text: &str) -> (parsed: Result<reqwest::Url, String>)
    ensures
        match parsed {
            Ok(url) => parsed_url(text@) == Ok::<reqwest::Url, Seq<char>>(url),
            Err(message) => parsed_url(text@) == Err::<reqwest::Url, Seq<char>>(message@),
        },
{
    reqwest::Url::parse(text).map_err(|error| error.to_string())
}

/// `Url::join` of `reqwest`: a function of the URL and of the reference alone.
#[verifier::external_body]
fn join_url(base: &reqwest::Url, reference: &str) -> (joined: Result<reqwest::Url, String>)
    ensures
        match joined {
            Ok(url) => joined_url(*base, reference@) == Ok::<reqwest::Url, Seq<char>>(url),
            Err(message) => joined_url(*base, reference@) == Err::<reqwest::Url, Seq<char>>(
                message@,
            ),
        },
{
    base.join(reference).map_err(|error| error.to_string())
}

/// `Url::as_str` of `reqwest`, as a string of its own: a function of the URL alone.
#[verifier::external_body]
fn text_of_url(url: &reqwest::Url) -> (text: String)
    ensures
        text@ == url_text(*url),
{
    url.as_str().to_string()
}

/// The byte stands for itself in a query, or for a space.
pub open spec fn stands_in_query(byte: u8) -> bool {
    ||| 0x30 <= byte <= 0x39
    ||| 0x41 <= byte <= 0x5A
    ||| 0x61 <= byte <= 0x7A
    ||| byte == 0x20
    ||| byte == 0x2A
    ||| byte == 0x2D
    ||| byte == 0x2E
    ||| byte == 0x5F
}

/// How many places bytes take in a query: one each, or three where a byte is written in digits.
pub open spec fn places_in_query(bytes: Seq<u8>) -> nat
    decreases bytes.len(),
{
    if bytes.len() == 0 {
        0
    } else {
        places_in_query(bytes.drop_last()) + if stands_in_query(bytes.last()) {
            1nat
        } else {
            3nat
        }
    }
}

/// How many places a text takes in a query.
pub fn query_places(text: &str) -> (places: u128)
    ensures
        places == places_in_query(encode_utf8(text@)),
{
    let bytes = text.as_bytes();
    let mut places: u128 = 0;
    let mut i: usize = 0;
    while i < bytes.len()
        invariant
            i <= bytes@.len(),
            places == places_in_query(bytes@.take(i as int)),
            places <= 3 * i,
        decreases bytes@.len() - i,
    {
        let byte: u8 = bytes[i];
        let stands = 0x30 <= byte && byte <= 0x39 || 0x41 <= byte && byte <= 0x5A || 0x61 <= byte
            && byte <= 0x7A || byte == 0x20 || byte == 0x2A || byte == 0x2D || byte == 0x2E || byte
            == 0x5F;
        assert(bytes@.take(i + 1).drop_last() =~= bytes@.take(i as int));
        places = places + if stands {
            1
        } else {
            3
        };
        i += 1;
    }
    assert(bytes@.take(i as int) =~= bytes@);
    places
}

/// The URL keeps a length that `append_pair` can count, with one more pair and the two signs before
/// and in it.
pub open spec fn pair_fits(url: reqwest::Url, key: Seq<char>, value: Seq<char>) -> bool {
    url_text(url).len() + places_in_query(encode_utf8(key)) + places_in_query(encode_utf8(value))
        + 2 <= u32::MAX
}

/// `Url::query_pairs_mut` of `reqwest`, with one `append_pair` on what it gives: a function of the
/// URL and of the pair alone. The two count positions in 32 bits and panic past that.
#[verifier::external_body]
fn append_query_pair(url: &mut reqwest::Url, key: &str, value: &str)
    requires
        pair_fits(*old(url), key@, value@),
    ensures
        *final(url) == url_with_pair(*old(url), key@, value@),
{
    url.query_pairs_mut().append_pair(key, value);
}

/// The URL with pairs added to its query, in order; nothing, where it would become too long.
pub open spec fn url_with_pairs(url: reqwest::Url, pairs: Seq<(Seq<char>, Seq<char>)>) -> Option<
    reqwest::Url,
>
    decreases pairs.len(),
{
    if pairs.len() == 0 {
        Some(url)
    } else {
        match url_with_pairs(url, pairs.drop_last()) {
            Some(url) => if pair_fits(url, pairs.last().0, pairs.last().1) {
                Some(url_with_pair(url, pairs.last().0, pairs.last().1))
            } else {
                None
            },
            None => None,
        }
    }
}

proof fn lemma_pairs_stop(url: reqwest::Url, pairs: Seq<(Seq<char>, Seq<char>)>, from: int)
    requires
        0 <= from <= pairs.len(),
        url_with_pairs(url, pairs.take(from)) is None,
    ensures
        url_with_pairs(url, pairs) is None,
    decreases pairs.len() - from,
{
    if from < pairs.len() {
        assert(pairs.take(from + 1).drop_last() =~= pairs.take(from));
        lemma_pairs_stop(url, pairs, from + 1);
    } else {
        assert(pairs.take(from) =~= pairs);
    }
}

/// Adds pairs to the query of a URL. Gives nothing back where the URL would become too long.
pub fn with_query(url: reqwest::Url, query: &Vec<(String, String)>) -> (extended: Option<
    reqwest::Url,
>)
    ensures
        extended == url_with_pairs(url, query_view(query@)),
{
    let ghost pairs = query_view(query@);
    let mut longer = url;
    let mut i: usize = 0;
    assert(pairs.take(0) =~= seq![]);
    while i < query.len()
        invariant
            i <= query@.len(),
            pairs == query_view(query@),
            url_with_pairs(url, pairs.take(i as int)) == Some(longer),
        decreases query@.len() - i,
    {
        let key = &query[i].0;
        let value = &query[i].1;
        let text = text_of_url(&longer);
        let length: u128 = chars_of(text.as_str()).len() as u128;
        let key_places = query_places(key.as_str());
        let value_places = query_places(value.as_str());
        assert(pairs.take(i + 1).drop_last() =~= pairs.take(i as int));
        if length > u32::MAX as u128 || key_places > u32::MAX as u128 || value_places
            > u32::MAX as u128 || length + key_places + value_places + 2 > u32::MAX as u128 {
            proof {
                lemma_pairs_stop(url, pairs, i + 1);
            }
            return None;
        }
        append_query_pair(&mut longer, key.as_str(), value.as_str());
        i += 1;
    }
    assert(pairs.take(i as int) =~= pairs);
    Some(longer)
}

/// The URL of a request: its path, seen from the base URL, with its query; or what is wrong with it.
pub open spec fn request_url(
    base_url: Seq<char>,
    path: Seq<char>,
    query: Seq<(Seq<char>, Seq<char>)>,
) -> Result<reqwest::Url, Seq<char>> {
    match parsed_url(base_url) {
        Ok(base) => match joined_url(base, path) {
            Ok(url) => match url_with_pairs(url, query) {
                Some(url) => Ok(url),
                None => Err("URL too long"@),
            },
            Err(message) => Err(message),
        },
        Err(message) => Err(message),
    }
}

impl SpotifyApiRequest {
    /// The URL of the request.
    pub open spec fn spec_url(self) -> Result<reqwest::Url, Seq<char>> {
        request_url(self.base_url@, self.path@, query_view(self.query@))
    }

    /// The URL of the request, or what is wrong with it.
    pub fn url(&self) -> (url: Result<reqwest::Url, RequestError>)
        ensures
            match url {
                Ok(url) => self.spec_url() == Ok::<reqwest::Url, Seq<char>>(url),
                Err(error) => self.spec_url() matches Err(message) && error@
                    == RequestErrorView::Other(message),
            },
    {
        let base = match parse_url(self.base_url.as_str()) {
            Ok(base) => base,
            Err(message) => {
                return Err(RequestError::Other(message));
            },
        };
        let url = match join_url(&base, self.path.as_str()) {
            Ok(url) => url,
            Err(message) => {
                return Err(RequestError::Other(message));
            },
        };
        match with_query(url, &self.query) {
            Some(url) => Ok(url),
            None => Err(RequestError::Other("URL too long".to_owned())),
        }
    }
}

/// What is told of a wait that the service asked for.
pub open spec fn retry_notice(seconds: nat) -> Seq<char> {
    "rate limited by Spotify, retry in "@ + decimal(seconds) + "s"@
}

/// The error of a call that the service held off for a while.
pub open spec fn rate_limited(seconds: nat) -> RequestErrorView {
    RequestErrorView::Api(
        ApiErrorView { status: 429, body: retry_notice(seconds), detail: None },
    )
}

/// The error of a call that the service held off for a while.
pub fn rate_limited_error(seconds: u128) -> (error: RequestError)
    ensures
        error@ == rate_limited(seconds as nat),
{
    let mut body = "rate limited by Spotify, retry in ".to_owned();
    let number = decimal_text(seconds);
    body.append(number.as_str());
    body.append("s");
    RequestError::Api(
        SpotifyApiError { status: StatusCode::too_many_requests(), body, detail: None },
    )
}

/// The whole seconds of a wait, at least one.
pub open spec fn wait_seconds(left: u128) -> nat {
    if left / NANOS_PER_SECOND < 1 {
        1
    } else {
        (left / NANOS_PER_SECOND) as nat
    }
}

/// The error of a call inside a window without requests.
pub open spec fn held_back(gate: ForcedRefreshGate, now: u128) -> Option<RequestErrorView> {
    match gate.window_left(now) {
        Some(left) => Some(rate_limited(wait_seconds(left))),
        None => None,
    }
}

/// Inside a window without requests a call fails at once, with the wait that is left.
pub fn fail_if_held_back(gate: &ForcedRefreshGate, now: u128) -> (error: Option<RequestError>)
    ensures
        match error {
            Some(error) => held_back(*gate, now) == Some(error@),
            None => held_back(*gate, now) is None,
        },
{
    match gate.rate_limit_remaining(now) {
        Some(left) => {
            let seconds: u128 = left / NANOS_PER_SECOND;
            Some(
                rate_limited_error(
                    if seconds < 1 {
                        1
                    } else {
                        seconds
                    },
                ),
            )
        },
        None => None,
    }
}

/// The seconds that an answer asks to wait: what its header says, at least one and at most the
/// longest window; one, where the header says nothing.
pub open spec fn asked_seconds(retry_after: Option<Seq<char>>) -> u64 {
    let asked = match retry_after {
        Some(text) => match number_in(text) {
            Some(seconds) => if seconds <= u64::MAX {
                seconds
            } else {
                1
            },
            None => 1,
        },
        None => 1,
    };
    if asked < 1 {
        1
    } else if asked > MAX_RETRY_AFTER_SECONDS {
        MAX_RETRY_AFTER_SECONDS
    } else {
        asked as u64
    }
}

/// The seconds that an answer asks to wait.
pub fn retry_after_seconds(retry_after: &Option<String>) -> (seconds: u64)
    ensures
        seconds == asked_seconds(retry_after.deep_view()),
        1 <= seconds <= MAX_RETRY_AFTER_SECONDS,
{
    let asked: u64 = match retry_after {
        Some(text) => match parse_number(text.as_str()) {
            Some(seconds) => seconds,
            None => 1,
        },
        None => 1,
    };
    if asked < 1 {
        1
    } else if asked > MAX_RETRY_AFTER_SECONDS {
        MAX_RETRY_AFTER_SECONDS
    } else {
        asked
    }
}

/// The body of a successful answer is read as JSON: it is not blank, and said to be JSON.
pub open spec fn reads_json(content_type: Option<Seq<char>>, body: Seq<char>) -> bool {
    trimmed(body).len() > 0 && json_content_type(content_type)
}

/// Whether the body of a successful answer is read as JSON.
pub fn body_is_read(content_type: &Option<String>, body: &str) -> (read: bool)
    ensures
        read == reads_json(content_type.deep_view(), body@),
{
    let inner = trim_text(body);
    let blank = chars_of(inner.as_str()).len() == 0;
    !blank && response_is_json(content_type)
}

/// The value of a successful answer.
pub open spec fn success_value(content_type: Option<Seq<char>>, body: Seq<char>) -> Result<
    JsonView,
    RequestErrorView,
> {
    if reads_json(content_type, body) {
        match parsed_json(body) {
            Ok(value) => Ok(value),
            Err(message) => Err(RequestErrorView::Other(message)),
        }
    } else {
        Ok(JsonView::Null)
    }
}

/// What a result of a call stands for.
pub open spec fn outcome_view(outcome: Result<Json, RequestError>) -> Result<
    JsonView,
    RequestErrorView,
> {
    match outcome {
        Ok(value) => Ok(value.deep_view()),
        Err(error) => Err(error@),
    }
}

/// The value of a successful answer: what its body holds, where it is said to be JSON; `null`,
/// where the body is blank or something else.
pub fn value_of_success(content_type: &Option<String>, body: &str) -> (outcome: Result<
    Json,
    RequestError,
>)
    ensures
        outcome_view(outcome) == success_value(content_type.deep_view(), body@),
{
    if body_is_read(content_type, body) {
        match parse_json(body) {
            Ok(value) => Ok(value),
            Err(message) => Err(RequestError::Other(message)),
        }
    } else {
        Ok(Json::Null)
    }
}

/// A body is read as JSON where it has something that is no white space and its content type names a
/// type or a suffix of JSON, in whatever case.
pub proof fn lemma_json_is_read(before: Seq<char>, name: Seq<char>, after: Seq<char>, body: Seq<char>)
    requires
        ascii_lowercase(name) == "/json"@ || ascii_lowercase(name) == "+json"@,
    ensures
        reads_json(Some(before + name + after), body) <==> !blank(body),
        success_value(Some(before + name + after), body) == (if blank(body) {
            Ok(JsonView::Null)
        } else {
            match parsed_json(body) {
                Ok(value) => Ok(value),
                Err(message) => Err(RequestErrorView::Other(message)),
            }
        }),
{
    let value = before + name + after;
    let lower = ascii_lowercase(value);
    lemma_lowercase_sum(before + name, after);
    lemma_lowercase_sum(before, name);
    let low = ascii_lowercase(name);
    assert(occurs_at(low, low, 0)) by {
        assert(low.subrange(0, low.len() as int) =~= low);
    }
    lemma_contained_in_sum(ascii_lowercase(before), low, ascii_lowercase(after), low);
    lemma_trimmed(body);
}

/// A body without a content type, or with one that has no `json` in it, is not read: its value is
/// `null`, whatever it holds.
pub proof fn lemma_other_content_is_not_read(content_type: Option<Seq<char>>, body: Seq<char>)
    requires
        content_type matches Some(value) ==> !contains_text(ascii_lowercase(value), "json"@),
    ensures
        !reads_json(content_type, body),
        success_value(content_type, body) == Ok::<JsonView, RequestErrorView>(JsonView::Null),
{
    if let Some(value) = content_type {
        let lower = ascii_lowercase(value);
        reveal_strlit("json");
        reveal_strlit("/json");
        reveal_strlit("+json");
        if contains_text(lower, "/json"@) {
            let at = choose|at: int| occurs_at(lower, "/json"@, at);
            assert(lower.subrange(at, at + 5).skip(1) =~= lower.subrange(at + 1, at + 5));
            assert("/json"@.skip(1) =~= "json"@);
            assert(occurs_at(lower, "json"@, at + 1));
        }
        if contains_text(lower, "+json"@) {
            let at = choose|at: int| occurs_at(lower, "+json"@, at);
            assert(lower.subrange(at, at + 5).skip(1) =~= lower.subrange(at + 1, at + 5));
            assert("+json"@.skip(1) =~= "json"@);
            assert(occurs_at(lower, "json"@, at + 1));
        }
    }
}

/// The seconds to wait are those that the header writes out, but at least one and at most ten
/// minutes. A number that does not fit is not read, and the wait is one second.
pub proof fn lemma_header_is_obeyed(seconds: nat)
    ensures
        1 <= seconds <= 600 ==> asked_seconds(Some(decimal(seconds))) == seconds,
        seconds == 0 ==> asked_seconds(Some(decimal(seconds))) == 1,
        600 < seconds <= u64::MAX ==> asked_seconds(Some(decimal(seconds))) == 600,
        seconds > u64::MAX ==> asked_seconds(Some(decimal(seconds))) == 1,
{
    lemma_decimal_read(seconds);
}

/// Without a header, or with one that is not a number, the wait is one second.
pub proof fn lemma_no_header_waits_a_second(header: Seq<char>, at: int)
    requires
        0 <= at < header.len(),
        !('0' <= header[at] <= '9'),
        at > 0 || header[at] != '+',
    ensures
        asked_seconds(None) == 1,
        asked_seconds(Some(header)) == 1,
        asked_seconds(Some(seq![])) == 1,
{
    let digits = if header[0] == '+' {
        header.skip(1)
    } else {
        header
    };
    if header[0] == '+' {
        assert(digits[at - 1] == header[at]);
        assert(!is_digit(digits[at - 1]));
    } else {
        assert(!is_digit(digits[at]));
    }
    assert(!all_digits(digits));
}

/// A call that was held off is told the wait in seconds, in digits that are read back as the wait.
pub proof fn lemma_wait_is_told(seconds: nat)
    ensures
        rate_limited(seconds) matches RequestErrorView::Api(error) && error.status == 429
            && error.detail is None && error.body == "rate limited by Spotify, retry in "@ + decimal(
            seconds,
        ) + "s"@,
        number_in(decimal(seconds)) == Some(seconds),
{
    lemma_decimal_read(seconds);
}

/// While a window is open a call is held back, and told the whole seconds that are left of it, one
/// at least; once it is over, or where there is none, no call is.
pub proof fn lemma_held_back_in_window(gate: ForcedRefreshGate, now: u128, seconds: nat, nanos: nat)
    requires
        nanos < 1_000_000_000,
    ensures
        gate.rate_limited_until is None ==> held_back(gate, now) is None,
        gate.rate_limited_until matches Some(until) ==> {
            &&& until < now ==> held_back(gate, now) is None
            &&& until == now + seconds * 1_000_000_000 + nanos ==> held_back(gate, now) == Some(
                rate_limited(
                    if seconds == 0 {
                        1
                    } else {
                        seconds
                    },
                ),
            )
        },
{
    if let Some(until) = gate.rate_limited_until {
        if until == now + seconds * 1_000_000_000 + nanos {
            let left = (until - now) as u128;
            assert(left / 1_000_000_000 == seconds) by (nonlinear_arith)
                requires
                    left == seconds * 1_000_000_000 + nanos,
                    nanos < 1_000_000_000,
            ;
        }
    }
}

/// A body that is not too long is logged whole, without white space around it; of a longer one the
/// first 512 characters are, and that it was cut is said.
pub proof fn lemma_logged_body(body: Seq<char>)
    ensures
        trimmed(body).len() <= 512 ==> logged_body(body) == trimmed(body),
        trimmed(body).len() > 512 ==> {
            &&& logged_body(body).len() > 512
            &&& logged_body(body).take(512) == trimmed(body).take(512)
            &&& logged_body(body).skip(512) == "… (truncated)"@
        },
{
    reveal_strlit("… (truncated)");
    if trimmed(body).len() > 512 {
        assert(logged_body(body).take(512) =~= trimmed(body).take(512));
        assert(logged_body(body).skip(512) =~= "… (truncated)"@);
    }
}

/// The pairs of a query are added one after the other: adding some and then others is adding all.
pub proof fn lemma_pairs_added_in_order(
    url: reqwest::Url,
    first: Seq<(Seq<char>, Seq<char>)>,
    others: Seq<(Seq<char>, Seq<char>)>,
)
    ensures
        url_with_pairs(url, seq![]) == Some(url),
        url_with_pairs(url, first + others) == (match url_with_pairs(url, first) {
            Some(longer) => url_with_pairs(longer, others),
            None => None,
        }),
        forall|key: Seq<char>, value: Seq<char>|
            pair_fits(url, key, value) ==> #[trigger] url_with_pairs(url, seq![(key, value)])
                == Some(url_with_pair(url, key, value)),
    decreases others.len(),
{
    assert forall|key: Seq<char>, value: Seq<char>| pair_fits(url, key, value) implies
        #[trigger] url_with_pairs(url, seq![(key, value)]) == Some(
        url_with_pair(url, key, value),
    ) by {
        assert(seq![(key, value)].drop_last() =~= seq![]);
        assert(url_with_pairs(url, seq![]) == Some(url));
    }
    if others.len() == 0 {
        assert(first + others =~= first);
    } else {
        lemma_pairs_added_in_order(url, first, others.drop_last());
        assert((first + others).drop_last() =~= first + others.drop_last());
    }
}

/// A request goes to its path, seen from its base URL, and each pair of its query is added behind the
/// others. What is wrong with the base URL or with the path is what is wrong with the request.
pub proof fn lemma_request_goes_to_its_path(
    base_url: Seq<char>,
    path: Seq<char>,
    query: Seq<(Seq<char>, Seq<char>)>,
    key: Seq<char>,
    value: Seq<char>,
)
    ensures
        parsed_url(base_url) matches Err(message) ==> request_url(base_url, path, query) == Err::<
            reqwest::Url,
            Seq<char>,
        >(message),
        parsed_url(base_url) matches Ok(base) ==> {
            &&& joined_url(base, path) matches Err(message) ==> request_url(base_url, path, query)
                == Err::<reqwest::Url, Seq<char>>(message)
            &&& joined_url(base, path) matches Ok(url) ==> request_url(base_url, path, seq![])
                == Ok::<reqwest::Url, Seq<char>>(url)
        },
        request_url(base_url, path, query) matches Ok(url) ==> {
            &&& pair_fits(url, key, value) ==> request_url(base_url, path, query.push((key, value)))
                == Ok::<reqwest::Url, Seq<char>>(url_with_pair(url, key, value))
            &&& !pair_fits(url, key, value) ==> request_url(
                base_url,
                path,
                query.push((key, value)),
            ) == Err::<reqwest::Url, Seq<char>>("URL too long"@)
        },
{
    assert(query.push((key, value)).drop_last() =~= query);
}

/// The places of a text in a query are those of its parts: one for a letter, a digit, a space and the
/// signs `*`, `-`, `.` and `_`, three for every other byte.
pub proof fn lemma_places_of_parts(left: Seq<u8>, right: Seq<u8>, byte: u8)
    ensures
        places_in_query(left + right) == places_in_query(left) + places_in_query(right),
        left.len() <= places_in_query(left) <= 3 * left.len(),
        is_ascii_alphanumeric(byte as char) || seq![' ', '*', '-', '.', '_'].contains(byte as char)
            ==> places_in_query(seq![byte]) == 1,
        !is_ascii_alphanumeric(byte as char) && !seq![' ', '*', '-', '.', '_'].contains(
            byte as char,
        ) ==> places_in_query(seq![byte]) == 3,
    decreases left.len() + right.len(),
{
    assert(seq![byte].drop_last() =~= seq![]);
    assert(places_in_query(seq![byte].drop_last()) == 0);
    let signs = seq![' ', '*', '-', '.', '_'];
    assert(signs[0] == ' ' && signs[1] == '*' && signs[2] == '-' && signs[3] == '.' && signs[4]
        == '_');
    if left.len() > 0 {
        lemma_places_of_parts(left.drop_last(), seq![], byte);
    }
    if right.len() == 0 {
        assert(left + right =~= left);
    } else {
        lemma_places_of_parts(left, right.drop_last(), byte);
        assert((left + right).drop_last() =~= left + right.drop_last());
    }
}

/// A request that makes, replaces, changes or deletes something is one that changes something; one
/// that only asks is not.
pub proof fn lemma_requests_that_change(method: Method)
    ensures
        is_mutation(method) <==> !(method == Method::Get || method == Method::Head || method
            == Method::Options || method == Method::Connect || method == Method::Trace),
{
}

} // verus!
