use spotatui::errors::{
    describe_failure, is_forbidden_error, is_rate_limited_error, is_transient_network_error, RequestError,
    SpotifyApiError, StatusCode,
};
use spotatui::exchange::{
    send_failure_is_retryable, Action, Answer, Event, Exchange, Refresh, UNAUTHORIZED_RETRY_SECONDS,
};
use spotatui::gate::{
    pace_spotify_api_call, reset_forced_refresh_cooldown, token_age, ForcedRefreshGate, Pacing,
    MAX_RETRY_AFTER, NANOS_PER_SECOND,
};
use spotatui::json::{parse_json, Json};
use spotatui::requests::{
    query_places, response_is_json, retry_after_seconds, truncate_for_log, BodyPlan, Method,
    SpotifyApiRequest, SPOTIFY_API_BASE_URL,
};

const START: u128 = 1_000 * NANOS_PER_SECOND;

fn request(method: Method, path: &str) -> SpotifyApiRequest {
    SpotifyApiRequest {
        base_url: "http://127.0.0.1:8080/v1/".to_string(),
        method,
        path: path.to_string(),
        query: vec![],
        body: None,
    }
}

fn answer(status: u16, body: &str) -> Answer {
    Answer {
        status: StatusCode::from_u16(status).unwrap(),
        content_type: Some("application/json".to_string()),
        retry_after: None,
        body: Ok(body.to_string()),
    }
}

/// What a call did: how often the token was looked at, how often a new one was forced, the token of
/// each request, and the seconds waited.
struct Course {
    refreshes: usize,
    forced: usize,
    sent: Vec<String>,
    waited: u64,
    outcome: Result<Json, RequestError>,
}

/// Plays a call against scripted answers. A forced refresh puts a new token in the place of the old
/// one.
fn play(
    request: SpotifyApiRequest,
    token: &mut String,
    gate: &mut ForcedRefreshGate,
    now: u128,
    answers: Vec<Answer>,
) -> Course {
    let mut exchange = Exchange::new(request);
    let mut answers = answers.into_iter();
    let mut course =
        Course { refreshes: 0, forced: 0, sent: vec![], waited: 0, outcome: Ok(Json::Null) };
    let mut action = exchange.first_action();
    loop {
        let event = match action {
            Action::Refresh { force } => {
                course.refreshes += 1;
                if force {
                    course.forced += 1;
                    *token = "new_access".to_string();
                }
                Event::Refreshed(Refresh::Fresh)
            }
            Action::Send { after_seconds } => {
                course.waited += after_seconds;
                course.sent.push(token.clone());
                Event::Answered(answers.next().unwrap())
            }
            Action::Finish(outcome) => {
                course.outcome = outcome;
                return course;
            }
        };
        action = exchange.step(event, gate, now);
    }
}

fn ok_true() -> Json {
    Json::Object(vec![("ok".to_string(), Json::Bool(true))])
}

#[test]
fn forbidden_error_classification_uses_status_not_body_text() {
    let error = RequestError::Api(SpotifyApiError {
        status: StatusCode::from_u16(403).unwrap(),
        body: "playlist contents unavailable".to_string(),
        detail: None,
    });
    assert!(is_forbidden_error(&error));
    assert!(!is_rate_limited_error(&error));
    assert!(!is_forbidden_error(&RequestError::Other("Spotify API 403 Forbidden".to_string())));
}

#[test]
fn retries_once_with_refreshed_token_after_401() {
    let mut token = "old_access".to_string();
    let mut gate = ForcedRefreshGate::default();
    let course = play(
        request(Method::Get, "me"),
        &mut token,
        &mut gate,
        START,
        vec![answer(401, r#"{"error":"expired"}"#), answer(200, r#"{"ok":true}"#)],
    );
    assert_eq!(course.outcome.unwrap(), ok_true());
    assert_eq!(course.refreshes, 2);
    assert_eq!(course.sent, vec!["old_access".to_string(), "new_access".to_string()]);
    assert!(course.waited >= UNAUTHORIZED_RETRY_SECONDS);
}

#[test]
fn second_unauthorized_within_cooldown_retries_without_forcing_refresh() {
    let mut token = "old_access".to_string();
    let mut gate = ForcedRefreshGate::default();
    let body = r#"{ "error" : { "status" : 401, "message" : "Access token missing" }}"#;
    let mut forced = 0;
    let mut sent = vec![];
    for call in 0..2u128 {
        let course = play(
            request(Method::Get, "me/player"),
            &mut token,
            &mut gate,
            START + call * NANOS_PER_SECOND,
            vec![answer(401, body), answer(200, r#"{"ok":true}"#)],
        );
        assert_eq!(course.outcome.unwrap(), ok_true());
        forced += course.forced;
        sent.extend(course.sent);
    }
    assert_eq!(forced, 1, "the second 401 must not mint another token family");
    assert_eq!(
        sent,
        vec![
            "old_access".to_string(),
            "new_access".to_string(),
            "new_access".to_string(),
            "new_access".to_string(),
        ]
    );
}

#[test]
fn unauthorized_forces_refresh_again_once_cooldown_expires() {
    let mut token = "access_token".to_string();
    let mut gate = ForcedRefreshGate::new(0);
    let mut forced = 0;
    for _ in 0..2 {
        let course = play(
            request(Method::Get, "me/player"),
            &mut token,
            &mut gate,
            START,
            vec![answer(401, r#"{"error":"expired"}"#), answer(200, r#"{"ok":true}"#)],
        );
        assert!(course.outcome.is_ok());
        forced += course.forced;
    }
    assert_eq!(forced, 2);
}

#[test]
fn repeated_unauthorized_in_one_call_gives_up_after_one_recovery() {
    let mut token = "access_token".to_string();
    let mut gate = ForcedRefreshGate::default();
    let body = r#"{ "error" : { "status" : 401, "message" : "Access token missing" }}"#;
    let course = play(
        request(Method::Get, "me/player"),
        &mut token,
        &mut gate,
        START,
        vec![answer(401, body), answer(401, body)],
    );
    assert_eq!(course.sent.len(), 2);
    let error = course.outcome.unwrap_err();
    assert!(error.text().contains("401"));
}

#[test]
fn sends_content_length_zero_for_empty_mutation_requests() {
    let mut put = request(Method::Put, "me/player/shuffle");
    put.query = vec![("state".to_string(), "true".to_string())];
    assert_eq!(put.body_plan(), BodyPlan::DeclaredEmpty);
    let url = put.url().unwrap();
    assert!(url.as_str().ends_with("/v1/me/player/shuffle?state=true"));
    let mut token = "access_token".to_string();
    let mut gate = ForcedRefreshGate::default();
    let answers = vec![answer(200, r#"{"ok":true}"#)];
    let course = play(put, &mut token, &mut gate, START, answers);
    assert_eq!(course.outcome.unwrap(), ok_true());
}

#[test]
fn ignores_non_json_success_body_for_mutation_requests() {
    let mut plain = answer(200, "OK");
    plain.content_type = Some("text/plain".to_string());
    let mut token = "access_token".to_string();
    let mut gate = ForcedRefreshGate::default();
    let put = request(Method::Put, "me/player/play");
    let course = play(put, &mut token, &mut gate, START, vec![plain]);
    assert_eq!(course.outcome.unwrap(), Json::Null);
}

#[test]
fn a_429_fails_at_once_and_blocks_the_next_call_locally() {
    let mut limited = answer(429, r#"{"error":{"status":429}}"#);
    limited.retry_after = Some("30".to_string());
    let mut token = "access".to_string();
    let mut gate = ForcedRefreshGate::default();
    let first = play(
        request(Method::Get, "me/player"),
        &mut token,
        &mut gate,
        START,
        vec![limited],
    );
    let second = play(
        request(Method::Get, "me/player"),
        &mut token,
        &mut gate,
        START + NANOS_PER_SECOND,
        vec![],
    );
    assert_eq!(first.waited + second.waited, 0, "a 429 must not sleep");
    assert!(second.sent.is_empty());
    assert!(is_rate_limited_error(&first.outcome.unwrap_err()));
    let second = second.outcome.unwrap_err();
    assert!(is_rate_limited_error(&second));
    assert!(second.text().contains("retry in"));
    assert_eq!(
        second.text(),
        "Spotify API 429 Too Many Requests failed: rate limited by Spotify, retry in 29s"
    );
    let later = play(
        request(Method::Get, "me/player"),
        &mut token,
        &mut gate,
        START + 31 * NANOS_PER_SECOND,
        vec![answer(200, r#"{"ok":true}"#)],
    );
    assert!(later.outcome.is_ok());
}

#[test]
fn a_shorter_window_never_cuts_a_longer_one_short() {
    let mut gate = ForcedRefreshGate::default();
    gate.rate_limit_for(30 * NANOS_PER_SECOND, START);
    gate.rate_limit_for(NANOS_PER_SECOND, START);

    let left = gate.rate_limit_remaining(START).unwrap();
    assert!(left > 20 * NANOS_PER_SECOND);
}

#[test]
fn an_extreme_retry_after_is_bounded_and_does_not_panic() {
    let mut limited = answer(429, "");
    limited.retry_after = Some(u64::MAX.to_string());
    let mut token = "access".to_string();
    let mut gate = ForcedRefreshGate::default();
    let course = play(
        request(Method::Get, "me/player"),
        &mut token,
        &mut gate,
        START,
        vec![limited],
    );
    assert!(is_rate_limited_error(&course.outcome.unwrap_err()));
    let left = gate.rate_limit_remaining(START).unwrap();
    assert!(left <= MAX_RETRY_AFTER);
    assert_eq!(left, 600 * NANOS_PER_SECOND);
}

#[test]
fn a_failing_network_is_tried_four_times() {
    let mut exchange = Exchange::new(request(Method::Get, "me"));
    let mut gate = ForcedRefreshGate::default();
    let mut event = Event::Refreshed(Refresh::Fresh);
    let mut waits = vec![];
    let error = loop {
        match exchange.step(event, &mut gate, START) {
            Action::Send { after_seconds } => waits.push(after_seconds),
            Action::Finish(outcome) => break outcome.unwrap_err(),
            Action::Refresh { .. } => unreachable!(),
        }
        let retryable = send_failure_is_retryable(true, false, false);
        event = Event::SendFailed { retryable, message: "connection reset".to_string() };
    };
    assert_eq!(waits, vec![0, 1, 2, 3]);
    assert_eq!(error.text(), "Spotify API request failed: connection reset");
    assert!(is_transient_network_error(&error));
}

#[test]
fn a_hopeless_failure_is_not_tried_again() {
    let mut exchange = Exchange::new(request(Method::Get, "me"));
    let mut gate = ForcedRefreshGate::default();
    exchange.step(Event::Refreshed(Refresh::Unavailable), &mut gate, START);
    assert!(send_failure_is_retryable(false, true, false));
    assert!(send_failure_is_retryable(false, false, true));
    let retryable = send_failure_is_retryable(false, false, false);
    let event = Event::SendFailed { retryable, message: "builder error".to_string() };
    match exchange.step(event, &mut gate, START) {
        Action::Finish(Err(error)) => {
            assert_eq!(error.text(), "Spotify API request failed: builder error");
            assert!(!is_transient_network_error(&error));
        }
        _ => panic!("the call goes on"),
    }
}

#[test]
fn a_refused_token_without_another_one_is_explained() {
    for (refresh, expected) in [
        (
            Refresh::Unavailable,
            "Spotify API 401 Unauthorized failed: no (token refresh unavailable for this request)",
        ),
        (
            Refresh::Failed(RequestError::Other("offline".to_string())),
            "Spotify API 401 Unauthorized failed: no (token refresh failed: offline)",
        ),
    ] {
        let mut exchange = Exchange::new(request(Method::Get, "me"));
        let mut gate = ForcedRefreshGate::default();
        exchange.step(Event::Refreshed(Refresh::Fresh), &mut gate, START);
        exchange.step(Event::Answered(answer(401, "no")), &mut gate, START);
        match exchange.step(Event::Refreshed(refresh), &mut gate, START) {
            Action::Finish(Err(error)) => assert_eq!(error.text(), expected),
            _ => panic!("the call goes on"),
        }
    }
}

#[test]
fn a_call_begins_with_an_unforced_look_at_the_token() {
    let exchange = Exchange::new(request(Method::Get, "me"));
    assert!(matches!(exchange.first_action(), Action::Refresh { force: false }));
}

#[test]
fn calls_fail_early_without_token_or_url() {
    let mut gate = ForcedRefreshGate::default();
    let failed = Refresh::Failed(RequestError::Other("expired".to_string()));
    let mut exchange = Exchange::new(request(Method::Get, "me"));
    match exchange.step(Event::Refreshed(failed), &mut gate, START) {
        Action::Finish(Err(error)) => assert_eq!(error.text(), "expired"),
        _ => panic!("the call goes on"),
    }
    let mut exchange = Exchange::new(request(Method::Get, "me"));
    exchange.step(Event::Refreshed(Refresh::Fresh), &mut gate, START);
    match exchange.step(Event::NoToken, &mut gate, START) {
        Action::Finish(Err(error)) => assert_eq!(error.text(), "No access token available"),
        _ => panic!("the call goes on"),
    }
    let mut bad = request(Method::Get, "me");
    bad.base_url = "no url".to_string();
    let mut exchange = Exchange::new(bad);
    match exchange.step(Event::Refreshed(Refresh::Fresh), &mut gate, START) {
        Action::Finish(Err(error)) => {
            assert_eq!(error.text(), "relative URL without a base");
        }
        _ => panic!("the call goes on"),
    }
}

#[test]
fn other_failures_carry_status_and_body() {
    let mut token = "access".to_string();
    let mut gate = ForcedRefreshGate::default();
    let put = request(Method::Get, "me");
    let course = play(put, &mut token, &mut gate, START, vec![answer(404, "gone")]);
    let error = course.outcome.unwrap_err();
    assert_eq!(error.text(), "Spotify API 404 Not Found failed: gone");
    let get = request(Method::Get, "me");
    let course = play(get, &mut token, &mut gate, START, vec![answer(403, "closed")]);
    assert_eq!(course.outcome.unwrap_err().text(), "Spotify API 403 Forbidden failed: closed");
    assert!(!is_rate_limited_error(&error));
    let mut unreadable = answer(500, "");
    unreadable.body = Err("cut off".to_string());
    let get = request(Method::Get, "me");
    let course = play(get, &mut token, &mut gate, START, vec![unreadable]);
    let error = course.outcome.unwrap_err();
    assert_eq!(error.text(), "Spotify API 500 Internal Server Error failed: ");
}

#[test]
fn successful_answers_are_read_or_not() {
    let mut gate = ForcedRefreshGate::default();
    let mut token = "access".to_string();
    let mut play_one = |answer: Answer| {
        play(request(Method::Get, "me"), &mut token, &mut gate, START, vec![answer]).outcome
    };
    assert_eq!(play_one(answer(204, " \r\n\u{a0}")).unwrap(), Json::Null);
    assert_eq!(play_one(answer(200, r#" {"ok":true} "#)).unwrap(), ok_true());
    assert!(play_one(answer(200, "{")).is_err());
    let mut untyped = answer(200, r#"{"ok":true}"#);
    untyped.content_type = None;
    assert_eq!(play_one(untyped).unwrap(), Json::Null);
    let mut cut_off = answer(200, "");
    cut_off.body = Err("cut off".to_string());
    assert_eq!(play_one(cut_off).unwrap_err().text(), "cut off");
}

#[test]
fn the_places_of_a_pair_are_counted_as_they_are_written() {
    assert_eq!(query_places(""), 0);
    assert_eq!(query_places("azAZ09*-._ "), 11);
    assert_eq!(query_places("~"), 3);
    assert_eq!(query_places("é"), 6);
    assert_eq!(query_places("😀"), 12);
    for text in ["plain", "a b*c", "100% (é)", "日本😀~", "+&=#?/:,"] {
        let mut get = request(Method::Get, "search");
        let bare = get.url().unwrap().as_str().len() as u128;
        get.query = vec![(text.to_string(), text.to_string())];
        let full = get.url().unwrap().as_str().len() as u128;
        assert_eq!(full, bare + 2 * query_places(text) + 2);
    }
}

#[test]
fn urls_are_joined_and_encoded() {
    let mut get = request(Method::Get, "playlists/abc/items");
    get.base_url = SPOTIFY_API_BASE_URL.to_string();
    assert_eq!(get.url().unwrap().as_str(), "https://api.spotify.com/v1/playlists/abc/items");
    get.query = vec![
        ("limit".to_string(), "50".to_string()),
        ("uris".to_string(), "a b,ü".to_string()),
    ];
    assert_eq!(
        get.url().unwrap().as_str(),
        "https://api.spotify.com/v1/playlists/abc/items?limit=50&uris=a+b%2C%C3%BC"
    );
    assert_eq!(get.body_plan(), BodyPlan::Absent);
    get.body = Some(Json::Null);
    assert_eq!(get.body_plan(), BodyPlan::Payload);
    for method in [Method::Head, Method::Options, Method::Connect, Method::Trace] {
        assert_eq!(request(method, "me").body_plan(), BodyPlan::Absent);
    }
    for method in [Method::Post, Method::Delete, Method::Patch] {
        assert_eq!(request(method, "me").body_plan(), BodyPlan::DeclaredEmpty);
    }
}

#[test]
fn headers_are_understood() {
    assert!(response_is_json(&Some("Application/JSON; charset=utf-8".to_string())));
    assert!(response_is_json(&Some("application/problem+json".to_string())));
    assert!(!response_is_json(&Some("text/plain".to_string())));
    assert!(!response_is_json(&None));
    assert_eq!(retry_after_seconds(&Some("30".to_string())), 30);
    assert_eq!(retry_after_seconds(&Some("0".to_string())), 1);
    assert_eq!(retry_after_seconds(&Some("+7".to_string())), 7);
    assert_eq!(retry_after_seconds(&Some(" 7".to_string())), 1);
    assert_eq!(retry_after_seconds(&Some("99999999999999999999".to_string())), 1);
    assert_eq!(retry_after_seconds(&None), 1);
}

#[test]
fn long_bodies_are_cut_short_in_the_log() {
    assert_eq!(truncate_for_log("  short \n"), "short");
    let exact = "ä".repeat(512);
    assert_eq!(truncate_for_log(&exact), exact);
    let long = "ä".repeat(513);
    assert_eq!(truncate_for_log(&long), format!("{exact}… (truncated)"));
}

#[test]
fn transient_errors_are_found_in_any_case() {
    let error = |text: &str| RequestError::Other(text.to_string());
    assert!(is_transient_network_error(&error("Connection Reset by peer")));
    assert!(is_transient_network_error(&error("DNS lookup failed")));
    assert!(is_transient_network_error(&error("operation TIMED OUT")));
    assert!(!is_transient_network_error(&error("bad request")));
    assert!(is_rate_limited_error(&error("Too many requests")));
}

#[test]
fn failures_are_described() {
    assert_eq!(describe_failure("404 Not Found", "gone", &None), "Spotify API 404 Not Found failed: gone");
    assert_eq!(
        describe_failure("401 Unauthorized", "", &Some("why".to_string())),
        "Spotify API 401 Unauthorized failed:  (why)"
    );
}

#[test]
fn only_numbers_of_statuses_are_statuses() {
    assert!(StatusCode::from_u16(99).is_none());
    assert!(StatusCode::from_u16(1000).is_none());
    assert_eq!(StatusCode::from_u16(100).unwrap().as_u16(), 100);
    assert!(StatusCode::from_u16(299).unwrap().is_success());
    assert!(!StatusCode::from_u16(300).unwrap().is_success());
}

#[test]
fn refreshes_are_forced_once_in_a_cooldown() {
    let mut gate = ForcedRefreshGate::default();
    assert!(gate.try_begin(START));
    assert!(!gate.try_begin(START + 29 * NANOS_PER_SECOND));
    assert!(gate.try_begin(START + 30 * NANOS_PER_SECOND));
    assert!(!gate.try_begin(START));
    reset_forced_refresh_cooldown(&mut gate);
    assert!(gate.try_begin(START));
}

#[test]
fn windows_end() {
    let mut gate = ForcedRefreshGate::default();
    assert_eq!(gate.rate_limit_remaining(START), None);
    gate.rate_limit_for(5, START);
    assert_eq!(gate.rate_limit_remaining(START + 5), Some(0));
    assert_eq!(gate.rate_limit_remaining(START + 6), None);
}

#[test]
fn five_requests_start_at_once_then_four_a_second() {
    let mut pacing = Pacing::new();
    let starts: Vec<u128> = (0..8)
        .map(|_| (pace_spotify_api_call(&mut pacing, START) - START) / 1_000_000)
        .collect();
    assert_eq!(starts, vec![0, 0, 0, 0, 0, 250, 500, 750]);
    let much_later = START + 3600 * NANOS_PER_SECOND;
    let starts: Vec<u128> = (0..6)
        .map(|_| (pace_spotify_api_call(&mut pacing, much_later) - much_later) / 1_000_000)
        .collect();
    assert_eq!(starts, vec![0, 0, 0, 0, 0, 250]);
    let mut early = Pacing::new();
    assert_eq!(pace_spotify_api_call(&mut early, 3), 3);
}

#[test]
fn token_age_counts_from_issue() {
    assert_eq!(token_age(Some(3700), 3600, 150), Some(50));
    assert_eq!(token_age(Some(3700), 3600, 100), Some(0));
    assert_eq!(token_age(Some(3700), 3600, 99), None);
    assert_eq!(token_age(None, 3600, 150), None);
}

#[test]
fn json_texts_are_read() {
    assert_eq!(
        parse_json(r#"[null, true, "x", {"a": [1]}]"#).unwrap(),
        Json::Array(vec![
            Json::Null,
            Json::Bool(true),
            Json::Text("x".to_string()),
            Json::Object(vec![(
                "a".to_string(),
                Json::Array(vec![spotatui::json::number_json(1)]),
            )]),
        ])
    );
    assert!(parse_json("nonsense").is_err());
    let twice = parse_json(r#"{"items": 1, "items": [2]}"#).unwrap();
    assert_eq!(
        twice,
        Json::Object(vec![(
            "items".to_string(),
            Json::Array(vec![spotatui::json::number_json(2)]),
        )])
    );
    assert_eq!(
        parse_json(r#"{"id":"x"}"#).unwrap().text_member("id"),
        Some(&"x".to_string())
    );
}
