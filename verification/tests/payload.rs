use spotatui::json::{number_json, parse_json, Json};
use spotatui::payload::normalize_spotify_payload;

fn normalized(text: &str) -> Json {
    let mut value = parse_json(text).unwrap();
    normalize_spotify_payload(&mut value);
    value
}

fn get<'a>(value: &'a Json, key: &str) -> Option<&'a Json> {
    match value {
        Json::Object(entries) => entries.iter().find(|entry| entry.0 == key).map(|entry| &entry.1),
        _ => None,
    }
}

fn len(value: &Json) -> usize {
    match value {
        Json::Array(items) => items.len(),
        Json::Object(entries) => entries.len(),
        _ => 0,
    }
}

#[test]
fn arrays_lose_their_nulls_at_every_depth() {
    let value = normalized(r#"{"a": [null, [1, null], {"b": [null]}], "c": null}"#);
    let a = get(&value, "a").unwrap();
    assert_eq!(len(a), 2);
    match a {
        Json::Array(items) => {
            assert_eq!(items[0], Json::Array(vec![number_json(1)]));
            assert_eq!(get(&items[1], "b"), Some(&Json::Array(vec![])));
        }
        _ => panic!("no array"),
    }
    assert_eq!(get(&value, "c"), Some(&Json::Null));
}

#[test]
fn playlists_get_their_tracks() {
    let value = normalized(r#"{"snapshot_id": "s", "owner": {}, "id": "i"}"#);
    let tracks = get(&value, "tracks").unwrap();
    assert_eq!(get(tracks, "href"), Some(&Json::Text(String::new())));
    assert_eq!(get(tracks, "total"), Some(&number_json(0)));
    let text = r#"{"snapshot_id": "s", "owner": {}, "id": "i", "items": [null, {"added_at": 1, "item": 2}]}"#;
    let value = normalized(text);
    let tracks = get(&value, "tracks").unwrap();
    assert_eq!(Some(tracks), get(&value, "items"));
    assert_eq!(len(tracks), 1);
    match tracks {
        Json::Array(items) => assert_eq!(get(&items[0], "track"), Some(&number_json(2))),
        _ => panic!("no array"),
    }
    let value = normalized(r#"{"snapshot_id": "s", "owner": {}, "id": "i", "tracks": 5}"#);
    assert_eq!(get(&value, "tracks"), Some(&number_json(5)));
}

#[test]
fn tracks_shows_and_albums_get_their_fields() {
    let value = normalized(r#"{"album": {}, "artists": [], "track_number": 1, "duration_ms": 2}"#);
    assert_eq!(get(&value, "available_markets"), Some(&Json::Array(vec![])));
    assert_eq!(get(&value, "external_ids"), Some(&Json::Object(vec![])));
    assert_eq!(get(&value, "linked_from"), Some(&Json::Null));
    assert_eq!(get(&value, "popularity"), Some(&number_json(0)));

    let value = normalized(r#"{"media_type": 1, "languages": 2, "description": 3, "name": 4}"#);
    assert_eq!(get(&value, "available_markets"), Some(&Json::Array(vec![])));
    assert_eq!(get(&value, "publisher"), Some(&Json::Text(String::new())));

    let value = normalized(r#"{"album_type": 1, "artists": [], "images": [], "name": 4}"#);
    assert_eq!(get(&value, "available_markets"), Some(&Json::Array(vec![])));
    assert_eq!(get(&value, "label"), None);
    let text = r#"{"album_type": 1, "artists": [], "images": [], "name": 4, "tracks": []}"#;
    let value = normalized(text);
    assert_eq!(get(&value, "available_markets"), Some(&Json::Null));
    assert_eq!(get(&value, "external_ids"), Some(&Json::Object(vec![])));
    assert_eq!(get(&value, "popularity"), Some(&number_json(0)));
    assert_eq!(get(&value, "label"), Some(&Json::Null));
}

#[test]
fn artists_are_known_by_type_or_by_fields() {
    for text in [
        r#"{"type": "artist"}"#,
        r#"{"external_urls": {}, "name": 1, "id": 2, "genres": []}"#,
        r#"{"external_urls": {}, "name": 1, "id": 2, "images": []}"#,
    ] {
        let value = normalized(text);
        assert_eq!(get(&value, "href"), Some(&Json::Text(String::new())));
        assert_eq!(get(&value, "genres"), Some(&Json::Array(vec![])));
        assert_eq!(get(&value, "images"), Some(&Json::Array(vec![])));
        let followers = get(&value, "followers").unwrap();
        assert_eq!(get(followers, "href"), Some(&Json::Null));
        assert_eq!(get(followers, "total"), Some(&number_json(0)));
        assert_eq!(get(&value, "popularity"), Some(&number_json(0)));
    }
    let value = normalized(r#"{"external_urls": {}, "name": 1, "id": 2}"#);
    assert_eq!(len(&value), 3);
    assert_eq!(len(&normalized(r#"{"type": "track"}"#)), 1);
}

#[test]
fn what_is_there_is_kept() {
    let value = normalized(r#"{"type": "artist", "popularity": 7, "genres": ["x"]}"#);
    assert_eq!(get(&value, "popularity"), Some(&number_json(7)));
    assert_eq!(get(&value, "genres"), Some(&Json::Array(vec![Json::Text("x".to_string())])));
    assert_eq!(normalized("3"), number_json(3));
}

#[test]
fn normalizing_again_changes_nothing_where_albums_have_images() {
    let texts = [
        r#"{"a": [null, [1, null], {"b": [null]}], "c": null}"#,
        r#"{"snapshot_id": "s", "owner": {}, "id": "i", "items": [null, {"added_at": 1, "item": 2}]}"#,
        r#"{"album": {"album_type": 1, "artists": [], "images": [], "name": 1},
            "artists": [{"type": "artist"}], "track_number": 1, "duration_ms": 2}"#,
        r#"{"album_type": 1, "artists": [], "images": [], "name": 1, "id": 1, "external_urls": {},
            "snapshot_id": "s", "owner": {}}"#,
        r#"{"media_type": 1, "languages": [], "description": 1, "name": 1}"#,
    ];
    for text in texts {
        let once = normalized(text);
        let mut twice = once.clone();
        normalize_spotify_payload(&mut twice);
        assert_eq!(twice, once);
    }
    let once = normalized(r#"{"type": "artist", "album_type": 1, "artists": [], "name": 1}"#);
    assert_eq!(get(&once, "available_markets"), None);
    let mut twice = once.clone();
    normalize_spotify_payload(&mut twice);
    assert_eq!(get(&twice, "available_markets"), Some(&Json::Array(vec![])));
}
