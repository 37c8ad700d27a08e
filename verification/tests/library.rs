use spotatui::access::{
    access_from_metadata, classify_playlist_after_forbidden, fetch_playlist_tracks_page,
    native_answered, page_answered, page_classified, page_query, playlist_access,
    playlist_items_path, Classification, PageStep, PlaylistAccess, PlaylistAccessMetadata,
    PlaylistPageError, PlaylistTracksPage, EXTERNAL_PLAYLIST_UNAVAILABLE_STATUS,
};
use spotatui::app::{App, IoEvent, RouteId, Source, TrackTableContext, UserInfo};
use spotatui::domain::{
    ArtistRef, CollectionInfo, EpisodeInfo, FullTrack, Paged, PlayableInfo, PlaylistInfo,
    PlaylistPage, TrackInfo,
};
use spotatui::editing::{creation_body, removal_request};
use spotatui::errors::{RequestError, SpotifyApiError, StatusCode};
use spotatui::ids::PlaylistId;
use spotatui::json::{number_json, parse_json, Json};
use spotatui::liked::{
    batch_body, batch_query, change_requests, contains_queries, join_answers, toggle_method,
    uri_batches, uri_of, uris_of, UriKind, WorkerStep,
};
use spotatui::native::{
    librespot_episode_info, librespot_track_info, native_page, native_playlist_id,
    select_native_items, NativeEpisode, NativeItem, NativeKind, NativePlaylist, NativeTrack,
};
use spotatui::refresh::{maybe_prompt_community_pin, RefreshAction};
use spotatui::requests::Method;
use spotatui::saved::{next_saved_tracks_offset, populate_liked_song_ids_from_saved_tracks};
use spotatui::search::{
    playlist_track_info_matches_terms, playlist_track_matches_terms, playlist_track_search_haystack,
    playlist_track_search_terms, without_empty_texts,
};
use spotatui::sorting::{SortField, SortOrder, SortState};
use vstd::hash_set::StringHashSet;

fn playlist_info(id: &str, name: &str, owner: &str, collaborative: bool) -> PlaylistInfo {
    PlaylistInfo {
        id: Some(id.to_string()),
        name: name.to_string(),
        owner_id: Some(owner.to_string()),
        collaborative,
        public: None,
    }
}

fn full_track(id: &str) -> FullTrack {
    FullTrack {
        id: Some(id.to_string()),
        name: format!("Track {id}"),
        artists: vec![ArtistRef { id: None, name: "Artist".to_string() }],
        album_id: None,
        album_name: "Album".to_string(),
        album_image_url: None,
        duration_ms: 180_000,
        explicit: false,
        is_local: false,
        is_playable: Some(true),
        track_number: 1,
    }
}

fn track(id: &str) -> TrackInfo {
    TrackInfo::from_full_track(&full_track(id))
}

fn saved_tracks_page(offset: u32, limit: u32, has_next: bool) -> Paged<TrackInfo> {
    let ids = match offset {
        0 => vec!["0000000000000000000001", "0000000000000000000002"],
        20 => vec!["0000000000000000000003", "0000000000000000000004"],
        40 => vec!["0000000000000000000005", "0000000000000000000006"],
        _ => vec!["0000000000000000000007", "0000000000000000000008"],
    };
    Paged {
        items: ids.into_iter().map(track).collect(),
        limit,
        next: has_next.then(|| "https://example.com/me/tracks?next".to_string()),
        offset,
        previous: None,
        total: 60,
    }
}

fn playlist_page(offset: u32, names: &[&str], limit: u32, has_next: bool) -> PlaylistPage {
    let mut items = vec![];
    for (index, name) in names.iter().enumerate() {
        let mut track = track(&format!("id{offset}x{index}"));
        track.name = name.to_string();
        items.push((offset + index as u32, PlayableInfo::Track(track)));
    }
    let next = has_next.then(|| "more".to_string());
    Paged { items, limit, next, offset, previous: None, total: 9 }
}

fn episode() -> EpisodeInfo {
    EpisodeInfo {
        id: None,
        uri: None,
        name: "Episode".to_string(),
        duration_ms: 1,
        show_name: "Show".to_string(),
        description: String::new(),
        release_date: String::new(),
        is_playable: true,
        resume_position_ms: None,
        image_url: None,
    }
}

fn id(text: &str) -> PlaylistId {
    PlaylistId::from_id(text).unwrap()
}

fn app_showing(playlist: &str) -> App {
    let mut app = App::default();
    app.track_table.context = Some(TrackTableContext::MyPlaylists);
    app.playlist_track_table_id = Some(id(playlist));
    app
}

fn other(text: &str) -> RequestError {
    RequestError::Other(text.to_string())
}

fn refused(status: u16) -> RequestError {
    RequestError::Api(SpotifyApiError {
        status: StatusCode::from_u16(status).unwrap(),
        body: "no".to_string(),
        detail: None,
    })
}

fn status(app: &App) -> (String, u64) {
    let message = app.status_message.as_ref().unwrap();
    (message.text.clone(), message.seconds)
}

fn names(tracks: &[TrackInfo]) -> Vec<&str> {
    tracks.iter().map(|track| track.name.as_str()).collect()
}

#[test]
fn playlist_access_keeps_external_403_distinct_from_owned_and_collaborative() {
    let mut app = App::default();
    app.user = Some(UserInfo { id: "me".to_string() });
    let mut external = playlist_info("external", "External", "other", false);
    external.public = Some(true);
    app.all_playlists = vec![
        playlist_info("owned", "Owned", "me", false),
        playlist_info("collab", "Collaborative", "other", true),
    ];
    app.search_results.playlists = Some(Paged::single(vec![external], 0));

    assert_eq!(playlist_access(&app, "owned"), PlaylistAccess::Owned);
    assert_eq!(playlist_access(&app, "collab"), PlaylistAccess::Collaborative);
    assert_eq!(playlist_access(&app, "external"), PlaylistAccess::External);
    assert_eq!(playlist_access(&app, "missing"), PlaylistAccess::Unknown);
}

#[test]
fn community_pin_prompt_marks_shown_at_push_time() {
    let mut app = App::default();
    app.community_playlist_id = "community".to_string();
    assert!(app.active_source == Source::Spotify);
    assert!(app.user_config.behavior.pin_community_playlist);
    assert!(!app.follows_community_playlist());
    assert!(!app.runtime_state.community_pin_prompt_shown);

    maybe_prompt_community_pin(&mut app);

    assert!(app.runtime_state.community_pin_prompt_shown);
    assert_eq!(app.get_current_route().id, RouteId::CommunityPinPrompt);
}

#[test]
fn next_saved_tracks_offset_uses_page_limit() {
    let page = saved_tracks_page(20, 20, true);
    assert_eq!(next_saved_tracks_offset(&page), Some(40));
}

#[test]
fn next_saved_tracks_offset_returns_none_without_next_link() {
    let page = saved_tracks_page(20, 20, false);
    assert_eq!(next_saved_tracks_offset(&page), None);
}

#[test]
fn uri_batches_split_large_contains_requests() {
    let uris = (0..120)
        .map(|index| format!("spotify:track:{index:022}"))
        .collect::<Vec<_>>();
    let batches = uri_batches(&uris).iter().map(|batch| batch.len()).collect::<Vec<_>>();

    assert_eq!(batches, vec![40, 40, 40]);
}

#[test]
fn populate_liked_song_ids_from_saved_tracks_uses_raw_track_ids() {
    let page = saved_tracks_page(0, 20, false);
    let mut liked_song_ids_set = StringHashSet::new();

    populate_liked_song_ids_from_saved_tracks(&mut liked_song_ids_set, &page);

    assert!(liked_song_ids_set.contains("0000000000000000000001"));
    assert!(liked_song_ids_set.contains("0000000000000000000002"));
    assert!(!liked_song_ids_set.contains("spotify:track:0000000000000000000001"));
}

#[test]
fn playlist_track_filter_matches_title_artist_album_case_insensitively() {
    let mut track = full_track("0000000000000000000001");
    track.name = "Midnight City".to_string();
    track.artists[0].name = "M83".to_string();
    track.album_name = "Hurry Up".to_string();

    assert!(playlist_track_matches_terms(&track, &playlist_track_search_terms("midnight")));
    assert!(playlist_track_matches_terms(&track, &playlist_track_search_terms("m83")));
    assert!(playlist_track_matches_terms(&track, &playlist_track_search_terms("hurry")));
    assert!(playlist_track_matches_terms(&track, &playlist_track_search_terms("MIDNIGHT m83")));
}

#[test]
fn playlist_track_filter_requires_every_query_term() {
    let mut track = full_track("0000000000000000000001");
    track.name = "Midnight City".to_string();
    track.artists[0].name = "M83".to_string();
    track.album_name = "Hurry Up".to_string();

    assert!(playlist_track_matches_terms(&track, &playlist_track_search_terms("city hurry")));
    assert!(!playlist_track_matches_terms(&track, &playlist_track_search_terms("city missing")));
}

#[test]
fn search_terms_and_haystacks_are_in_small_letters() {
    assert_eq!(playlist_track_search_terms(" Ärger\tIM\u{2003}Büro "), vec!["ärger", "im", "büro"]);
    assert!(playlist_track_search_terms(" \n ").is_empty());
    let kept = without_empty_texts(&vec![String::new(), "a".to_string(), String::new()]);
    assert_eq!(kept, vec!["a".to_string()]);
    let mut full = full_track("1");
    full.name = "ÉTÉ".to_string();
    full.artists.push(ArtistRef { id: None, name: "Zoë".to_string() });
    assert_eq!(playlist_track_search_haystack(&full), "été album artist zoë");
    let info = TrackInfo::from_full_track(&full);
    assert!(playlist_track_info_matches_terms(&info, &vec!["artist zoë".to_string()]));
    assert!(!playlist_track_info_matches_terms(&info, &vec!["ÉTÉ".to_string()]));
    assert!(playlist_track_info_matches_terms(&info, &vec![]));
}

#[test]
fn refused_playlists_are_classified() {
    let mut app = App::default();
    app.user = Some(UserInfo { id: "me".to_string() });
    app.all_playlists = vec![playlist_info("known", "Known", "other", false)];
    match classify_playlist_after_forbidden(&app, &id("known")) {
        Classification::Known(access) => assert_eq!(access, PlaylistAccess::External),
        Classification::Ask(_) => panic!("known"),
    }
    match classify_playlist_after_forbidden(&app, &id("pasted")) {
        Classification::Ask(path) => assert_eq!(path, "playlists/pasted"),
        Classification::Known(_) => panic!("unknown"),
    }
    let described = |collaborative, owner: Option<&str>| {
        let owner_id = owner.map(|owner| owner.to_string());
        Some(PlaylistAccessMetadata { collaborative, owner_id })
    };
    assert_eq!(access_from_metadata(&app, &None), PlaylistAccess::Unknown);
    assert_eq!(access_from_metadata(&app, &described(false, Some("me"))), PlaylistAccess::Owned);
    assert_eq!(access_from_metadata(&app, &described(false, Some("x"))), PlaylistAccess::External);
    assert_eq!(access_from_metadata(&app, &described(false, None)), PlaylistAccess::Unknown);
    let collaborative = described(true, None);
    assert_eq!(access_from_metadata(&app, &collaborative), PlaylistAccess::Collaborative);
}

#[test]
fn only_a_403_of_an_external_playlist_is_served_natively() {
    let page = || playlist_page(0, &["a"], 50, false);
    match page_answered(Ok(page())) {
        PageStep::Done(Ok(PlaylistTracksPage::Api(page))) => assert_eq!(page.items.len(), 1),
        _ => panic!("answered"),
    }
    assert!(matches!(page_answered(Err(refused(403))), PageStep::Classify(_)));
    assert!(matches!(
        page_answered(Err(refused(404))),
        PageStep::Done(Err(PlaylistPageError::Request(_)))
    ));
    assert!(matches!(
        page_classified(refused(403), PlaylistAccess::External),
        PageStep::TryNative
    ));
    for access in
        [PlaylistAccess::Owned, PlaylistAccess::Collaborative, PlaylistAccess::Unknown]
    {
        assert!(matches!(
            page_classified(refused(403), access),
            PageStep::Done(Err(PlaylistPageError::Request(_)))
        ));
    }
    assert!(matches!(native_answered(None), Err(PlaylistPageError::UnsupportedExternal)));
    let outcome = fetch_playlist_tracks_page(
        Err(refused(403)),
        PlaylistAccess::External,
        Some(page()),
    );
    match outcome {
        Ok(found) => assert_eq!(found.into_domain().items.len(), 1),
        Err(_) => panic!("served"),
    }
    let outcome =
        fetch_playlist_tracks_page(Err(refused(500)), PlaylistAccess::External, Some(page()));
    assert!(matches!(outcome, Err(PlaylistPageError::Request(_))));
}

#[test]
fn paths_and_queries_are_written_out() {
    assert_eq!(playlist_items_path(&id("abc")), "playlists/abc/items");
    assert_eq!(
        page_query(50, Some(100)),
        vec![
            ("limit".to_string(), "50".to_string()),
            ("offset".to_string(), "100".to_string()),
        ]
    );
    assert_eq!(page_query(0, None), vec![("limit".to_string(), "0".to_string())]);
}

#[test]
fn ids_are_letters_and_digits() {
    assert_eq!(id("37i9dQZF1DXcBWIGoYBM5M").id(), "37i9dQZF1DXcBWIGoYBM5M");
    assert_eq!(PlaylistId::from_id("a:b").unwrap_err(), "InvalidId");
    assert_eq!(PlaylistId::from_id("ü").unwrap_err(), "InvalidId");
    assert_eq!(native_playlist_id(&id("0000000000000000000010")).unwrap(), 62);
    assert_eq!(native_playlist_id(&id("00000000000000000000Za")).unwrap(), 61 * 62 + 10);
    let short = native_playlist_id(&id("1")).unwrap_err().text();
    let refused = "invalid playlist id for librespot: \
        Client specified an invalid argument { ID cannot be parsed }";
    assert_eq!(short, refused);
    let large = native_playlist_id(&id("ZZZZZZZZZZZZZZZZZZZZZZ")).unwrap_err().text();
    assert_eq!(large, refused);
}

fn native_playlist(truncated: bool) -> NativePlaylist {
    let item = |kind, uri: &str| NativeItem { kind, uri: uri.to_string() };
    NativePlaylist {
        length: 6,
        position: 1,
        is_truncated: truncated,
        items: vec![
            item(NativeKind::Track, "t1"),
            item(NativeKind::Other, "o2"),
            item(NativeKind::Episode, "e3"),
            item(NativeKind::Track, "t4"),
        ],
    }
}

#[test]
fn native_pages_are_cut_out_of_the_list() {
    let chosen = |offset, limit| {
        let items = select_native_items(&native_playlist(false), offset, limit).unwrap();
        items.into_iter().map(|(place, item)| (place, item.uri)).collect::<Vec<_>>()
    };
    assert_eq!(chosen(0, 3), vec![(1, "t1".to_string()), (2, "o2".to_string())]);
    assert_eq!(chosen(3, 0), vec![(3, "e3".to_string())]);
    assert_eq!(chosen(4, 50), vec![(4, "t4".to_string())]);
    assert!(chosen(9, 50).is_empty());
    assert_eq!(
        select_native_items(&native_playlist(true), 0, 3).unwrap_err().text(),
        "librespot returned truncated playlist contents"
    );
    let page = native_page(
        6,
        0,
        3,
        vec![(1, Some(PlayableInfo::Track(track("t1")))), (2, None)],
    );
    assert_eq!(page.items.len(), 1);
    assert_eq!(page.items[0].0, 1);
    assert_eq!(page.next.as_deref(), Some("librespot:playlist:next"));
    assert_eq!((page.offset, page.limit, page.total), (0, 3, 6));
    let last = native_page(-1, 5, 0, vec![]);
    assert_eq!((last.limit, last.total, last.next), (1, 0, None));
}

#[test]
fn native_descriptions_become_tracks_and_episodes() {
    let mut native = NativeTrack {
        id: Some("i".to_string()),
        uri: Some("u".to_string()),
        name: "Name".to_string(),
        album_id: Some("a".to_string()),
        album_name: "Album".to_string(),
        artists: vec![ArtistRef { id: Some("r".to_string()), name: "Artist".to_string() }],
        duration: -5,
        number: 3,
        is_explicit: true,
        has_restrictions: true,
    };
    let info = librespot_track_info(&native).unwrap();
    assert_eq!(info.artists, vec!["Artist".to_string()]);
    assert_eq!((info.duration_ms, info.track_number), (0, 3));
    assert!(!info.is_playable && info.explicit && !info.is_local);
    native.id = None;
    assert!(librespot_track_info(&native).is_none());
    let native = NativeEpisode {
        id: None,
        uri: None,
        name: "Name".to_string(),
        show_name: "Show".to_string(),
        description: "About".to_string(),
        duration: 9,
        has_restrictions: false,
    };
    let info = librespot_episode_info(&native).unwrap();
    assert_eq!((info.duration_ms, info.is_playable), (9, true));
    assert_eq!(info.release_date, "");
}

#[test]
fn pages_of_an_opened_playlist_fill_the_table() {
    let mut app = app_showing("abc");
    app.pending_playlist_open = Some("abc".to_string());
    app.playlist_tracks_prefetch_in_flight.insert(0);
    let next = app.playlist_page_arrived(&id("abc"), 0, 0, Ok(playlist_page(0, &["a", "b"], 2, true)));
    assert_eq!(next, Some(2));
    assert_eq!(names(&app.track_table.tracks), vec!["a", "b"]);
    assert!(app.pending_playlist_open.is_none());
    assert!(app.playlist_tracks_prefetch_in_flight.is_empty());

    assert!(app.begin_playlist_prefetch(&id("abc"), 2, 0));
    assert!(!app.begin_playlist_prefetch(&id("abc"), 2, 0));
    assert!(!app.begin_playlist_prefetch(&id("abc"), 0, 0));
    assert!(!app.begin_playlist_prefetch(&id("abc"), 4, 1));
    assert!(!app.begin_playlist_prefetch(&id("xyz"), 4, 0));
    let page = playlist_page(2, &["c"], 2, true);
    assert_eq!(app.playlist_prefetch_arrived(&id("abc"), 2, 0, Ok(page)), Some(4));
    assert_eq!(names(&app.track_table.tracks), vec!["a", "b", "c"]);
    let page = playlist_page(4, &[], 2, true);
    assert_eq!(app.playlist_prefetch_arrived(&id("abc"), 4, 0, Ok(page)), None);
    assert_eq!(app.playlist_track_pages.pages.len(), 2);
}

#[test]
fn late_pages_are_dropped() {
    let mut app = app_showing("abc");
    app.playlist_tracks_prefetch_generation = 7;
    let page = playlist_page(0, &["a"], 2, true);
    assert_eq!(app.playlist_page_arrived(&id("abc"), 0, 6, Ok(page)), None);
    let page = playlist_page(0, &["a"], 2, true);
    assert_eq!(app.playlist_prefetch_arrived(&id("xyz"), 0, 7, Ok(page)), None);
    assert!(app.playlist_track_pages.pages.is_empty());
    assert!(app.track_table.tracks.is_empty());
}

#[test]
fn failing_pages_are_explained() {
    let mut app = app_showing("abc");
    app.pending_playlist_open = Some("abc".to_string());
    let error = PlaylistPageError::UnsupportedExternal;
    assert_eq!(app.playlist_page_arrived(&id("abc"), 0, 0, Err(error)), None);
    assert_eq!(status(&app), (EXTERNAL_PLAYLIST_UNAVAILABLE_STATUS.to_string(), 8));
    assert!(app.pending_playlist_open.is_none());
    let error = PlaylistPageError::Request(other("boom"));
    assert_eq!(app.playlist_prefetch_arrived(&id("abc"), 0, 0, Err(error)), None);
    assert_eq!(app.api_error, "boom");
    assert_eq!(app.get_current_route().id, RouteId::Error);
}

#[test]
fn a_search_walks_all_pages() {
    let mut app = app_showing("abc");
    app.pending_playlist_track_search = Some("LO".to_string());
    let mut search = app.begin_playlist_search(id("abc"), "LO".to_string()).unwrap();
    assert!(search.page_fetched(playlist_page(0, &["Hello", "x"], 2, true)));
    assert_eq!(search.offset, 2);
    let mut page = playlist_page(2, &["low"], 2, false);
    page.items.push((3, PlayableInfo::Episode(episode())));
    assert!(!search.page_fetched(page));
    app.finish_playlist_search(search);
    assert_eq!(names(&app.track_table.tracks), vec!["Hello", "low"]);
    assert_eq!(app.playlist_track_positions, Some(vec![0, 2]));
    assert_eq!(status(&app), ("2 playlist tracks match \"LO\"".to_string(), 3));
    assert_eq!(app.active_playlist_track_filter, Some("LO".to_string()));

    let search = app.begin_playlist_search(id("abc"), "q".to_string()).unwrap();
    app.track_table.context = Some(TrackTableContext::SavedTracks);
    app.pending_playlist_track_search = Some("q".to_string());
    app.finish_playlist_search(search);
    assert!(app.pending_playlist_track_search.is_none());
    assert_eq!(app.active_playlist_track_filter, Some("LO".to_string()));

    assert!(app.begin_playlist_search(id("abc"), "  ".to_string()).is_none());
    assert!(app.active_playlist_track_filter.is_none());
}

#[test]
fn a_failing_search_is_explained() {
    let mut app = app_showing("abc");
    app.pending_playlist_track_search = Some("q".to_string());
    app.playlist_search_failed(PlaylistPageError::Request(other("boom")));
    assert_eq!(app.api_error, "boom");
    assert!(app.pending_playlist_track_search.is_some());
    app.playlist_search_failed(PlaylistPageError::UnsupportedExternal);
    assert!(app.pending_playlist_track_search.is_none());
    assert_eq!(status(&app).1, 8);
}

#[test]
fn a_whole_playlist_is_fetched_once_and_sorted() {
    let mut app = app_showing("abc");
    app.playlist_sort = SortState { field: SortField::Name, order: SortOrder::Descending };
    let mut fetch = app.begin_sort_fetch(id("abc")).unwrap();
    assert!(app.begin_sort_fetch(id("abc")).is_none());
    assert!(app.sort_fetch_wanted(&id("abc")));
    assert!(fetch.page_fetched(playlist_page(0, &["b", "a"], 2, true)));
    assert_eq!(fetch.offset, 2);
    assert!(!fetch.page_fetched(playlist_page(2, &["c"], 2, false)));
    app.finish_sort_fetch(fetch);
    assert_eq!(names(&app.track_table.tracks), vec!["c", "b", "a"]);
    assert!(app.begin_sort_fetch(id("abc")).is_some());
    app.track_table.context = None;
    assert!(!app.sort_fetch_wanted(&id("abc")));
    assert!(app.begin_sort_fetch(id("abc")).is_some());
    app.sort_fetch_failed(&id("abc"), PlaylistPageError::UnsupportedExternal);
    assert!(app.begin_sort_fetch(id("abc")).is_some());
}

#[test]
fn saved_tracks_arrive_page_by_page() {
    let mut app = App::default();
    app.saved_tracks_prefetch_in_flight.insert(0);
    let next = app.saved_tracks_arrived(0, 0, Ok(saved_tracks_page(0, 20, true)));
    assert_eq!(next, Some(20));
    assert_eq!(app.track_table.tracks.len(), 2);
    assert!(app.liked_song_ids_set.contains("0000000000000000000002"));
    assert_eq!(app.plugin_data_generations.saved_tracks, 1);
    assert!(app.begin_saved_prefetch(20, 0));
    assert!(!app.begin_saved_prefetch(20, 0));
    let next = app.saved_prefetch_arrived(20, 0, Some(saved_tracks_page(20, 20, true)));
    assert_eq!(next, Some(40));
    assert_eq!(app.track_table.tracks.len(), 4);
    assert_eq!(app.plugin_data_generations.saved_tracks, 1);
    assert_eq!(app.saved_prefetch_arrived(40, 1, Some(saved_tracks_page(40, 20, false))), None);
    assert_eq!(app.library.saved_tracks.pages.len(), 2);
    assert_eq!(app.saved_prefetch_arrived(40, 0, None), None);
    assert_eq!(app.saved_tracks_arrived(40, 0, Err(other("boom"))), None);
    assert_eq!(app.api_error, "boom");
}

#[test]
fn saved_albums_and_shows_are_told_to_plugins() {
    let page = |items| Paged {
        items,
        limit: 20,
        next: None,
        offset: 0,
        previous: None,
        total: 1,
    };
    let mut app = App::default();
    app.saved_albums_arrived(Ok(page(vec![])));
    assert_eq!(app.plugin_data_generations.saved_albums, 1);
    assert!(app.library.saved_albums.pages.is_empty());
    let album = CollectionInfo { id: None, name: "A".to_string() };
    app.saved_albums_arrived(Ok(page(vec![album])));
    assert_eq!(app.library.saved_albums.pages.len(), 1);
    app.saved_shows_arrived(Ok(page(vec![])));
    assert_eq!(app.plugin_data_generations.saved_shows, 1);
    app.saved_shows_arrived(Err(other("boom")));
    assert_eq!(app.plugin_data_generations.saved_shows, 1);
    assert_eq!(app.api_error, "boom");
}

#[test]
fn answers_on_saved_things_are_taken_over() {
    let mut app = App::default();
    app.saved_album_ids_set.insert("b".to_string());
    app.saved_album_ids_set.insert("c".to_string());
    let ids: Vec<String> = ["a", "b", "c"].iter().map(|id| id.to_string()).collect();
    app.saved_albums_checked(&ids, Ok(vec![true, false]));
    assert!(app.saved_album_ids_set.contains("a"));
    assert!(!app.saved_album_ids_set.contains("b"));
    assert!(app.saved_album_ids_set.contains("c"));
    app.saved_shows_checked(&ids, Ok(vec![true, true, true]));
    assert_eq!(app.saved_show_ids_set.len(), 3);
    app.album_change_settled("c", false, None);
    app.show_change_settled("d", true, None);
    assert!(!app.saved_album_ids_set.contains("c"));
    assert!(app.saved_show_ids_set.contains("d"));
    app.show_change_settled("d", false, Some(other("boom")));
    assert!(app.saved_show_ids_set.contains("d"));
    assert_eq!(app.api_error, "boom");
}

#[test]
fn batches_are_named_in_queries_and_bodies() {
    let uris: Vec<String> = (0..41).map(|i| i.to_string()).collect();
    let batches = uri_batches(&uris);
    assert_eq!(batches.concat(), uris);
    assert_eq!(batches[1], vec!["40".to_string()]);
    assert!(uri_batches(&vec![]).is_empty());
    let pair = vec!["a".to_string(), "b".to_string()];
    assert_eq!(batch_query(&pair), vec![("uris".to_string(), "a,b".to_string())]);
    assert_eq!(batch_body(&pair), parse_json(r#"{"uris":["a","b"]}"#).unwrap());
    assert_eq!(contains_queries(&uris).len(), 2);
    let answers = vec![vec![false; 40], vec![true]];
    let flags = join_answers(&answers);
    assert_eq!(flags.len(), uris.len());
    assert!(flags[40] && !flags[39]);
    assert!(join_answers(&vec![]).is_empty());
    let requests = change_requests(&pair);
    assert_eq!(requests.len(), 1);
    assert_eq!(requests[0].0[0].1, "a,b");
    assert_eq!(uri_of(UriKind::Show, "x"), "spotify:show:x");
    assert_eq!(uris_of(UriKind::Album, &pair), vec!["spotify:album:a", "spotify:album:b"]);
}

#[test]
fn liked_tracks_are_looked_up_in_batches() {
    let mut app = App::default();
    let ids: Vec<String> = (0..50).map(|i| format!("t{i}")).collect();
    assert!(!app.enqueue_liked_lookup(&vec![]));
    assert!(app.enqueue_liked_lookup(&ids));
    assert!(!app.enqueue_liked_lookup(&ids));
    let mut failures = 0;
    let batch = app.take_liked_batch().unwrap();
    assert_eq!(batch.ids.len(), 40);
    let step = app.settle_liked_batch(batch, Ok(vec![true; 40]), &mut failures);
    assert_eq!(step, WorkerStep::Continue);
    assert_eq!(app.liked_song_ids_set.len(), 40);

    let batch = app.take_liked_batch().unwrap();
    assert_eq!(batch.ids.len(), 10);
    let step = app.settle_liked_batch(batch, Err(other("x")), &mut failures);
    assert_eq!(step, WorkerStep::Wait { seconds: 2 });
    let batch = app.take_liked_batch().unwrap();
    let step = app.settle_liked_batch(batch, Err(other("x")), &mut failures);
    assert_eq!(step, WorkerStep::Wait { seconds: 4 });
    let batch = app.take_liked_batch().unwrap();
    let step = app.settle_liked_batch(batch, Err(other("x")), &mut failures);
    assert_eq!(step, WorkerStep::Stop);
    assert!(!app.liked_lookup_worker_running);
    assert_eq!(status(&app), ("Could not check liked track state: x".to_string(), 5));
    assert!(app.liked_lookup_pending.contains("t49"));
    assert!(app.enqueue_liked_lookup(&vec![]));
}

#[test]
fn a_change_outdates_answers_on_the_way() {
    let mut app = App::default();
    app.enqueue_liked_lookup(&vec!["t".to_string()]);
    let batch = app.take_liked_batch().unwrap();
    assert_eq!(app.toggle_request(UriKind::Track, "t"), (false, "spotify:track:t".to_string()));
    assert_eq!(toggle_method(false), Method::Put);
    assert_eq!(toggle_method(true), Method::Delete);
    app.toggle_settled("t", false, None);
    assert!(app.liked_song_ids_set.contains("t"));
    let mut failures = 2;
    let step = app.settle_liked_batch(batch, Ok(vec![false]), &mut failures);
    assert_eq!((step, failures), (WorkerStep::Continue, 0));
    assert!(app.liked_song_ids_set.contains("t"));
    assert!(app.liked_lookup_pending.contains("t"));
    let (liked, uri) = app.toggle_request(UriKind::Episode, "t");
    assert!(liked);
    assert_eq!(uri, "spotify:episode:t");
    app.toggle_settled("t", liked, None);
    assert!(!app.liked_song_ids_set.contains("t"));
    app.toggle_settled("t", false, Some(other("boom")));
    assert!(!app.liked_song_ids_set.contains("t"));
    app.resolve_liked_state_now(&vec!["t".to_string()], &vec![true]);
    assert!(app.liked_song_ids_set.contains("t"));
    let batch = app.take_liked_batch().unwrap();
    assert_eq!(batch.epoch, 2);
    assert!(app.take_liked_batch().is_none());
    assert!(!app.liked_lookup_worker_running);
}

#[test]
fn changed_playlists_are_told_of() {
    let mut app = app_showing("abc");
    app.all_playlists = vec![playlist_info("abc", "Mix", "me", false)];
    app.track_addition_settled(&id("abc"), None);
    assert_eq!(status(&app), ("Added to Mix".to_string(), 3));
    assert!(app.events.is_empty());
    app.navigation_stack.clear();
    app.push_navigation_stack(RouteId::TrackTable, spotatui::app::ActiveBlock::TrackTable);
    app.track_addition_settled(&id("abc"), None);
    assert_eq!(app.events, vec![IoEvent::GetPlaylistItems("abc".to_string(), 0)]);
    app.track_addition_settled(&id("other"), None);
    assert_eq!(status(&app).0, "Added to playlist");
    app.track_removal_settled(None);
    assert_eq!(status(&app), ("Removed from playlist".to_string(), 3));
    app.track_removal_settled(Some(other("boom")));
    assert_eq!(app.api_error, "boom");
    let (path, body) = removal_request(&id("abc"), "t", 7);
    assert_eq!(path, "playlists/abc/items");
    assert_eq!(
        body,
        Json::Object(vec![(
            "items".to_string(),
            Json::Array(vec![Json::Object(vec![
                ("uri".to_string(), Json::Text("spotify:track:t".to_string())),
                ("positions".to_string(), Json::Array(vec![number_json(7)])),
            ])]),
        )])
    );
}

#[test]
fn made_playlists_are_told_of() {
    let mut app = App::default();
    match creation_body("Mix") {
        Json::Object(entries) => {
            assert_eq!(entries.len(), 4);
            assert_eq!(entries[0].1, Json::Text("Mix".to_string()));
            assert_eq!(entries[1], ("public".to_string(), Json::Bool(false)));
        }
        _ => panic!("no object"),
    }
    let made = |text: &str| Ok(parse_json(text).unwrap());
    let found = app.playlist_creation_answered(made(r#"{"id":"abc"}"#)).unwrap();
    assert_eq!(found.id(), "abc");
    assert!(app.playlist_creation_answered(made(r#"{"id":3}"#)).is_none());
    assert_eq!(status(&app), ("Playlist created but could not get its ID".to_string(), 4));
    assert!(app.playlist_creation_answered(made(r#"{"id":"a b"}"#)).is_none());
    assert_eq!(app.api_error, "InvalidId");
    assert!(app.playlist_creation_answered(Err(other("boom"))).is_none());
    assert_eq!(app.api_error, "boom");
    app.playlist_creation_settled("Mix", Some(other("full")));
    assert_eq!(app.api_error, "full");
    app.playlist_creation_settled("Mix", None);
    assert_eq!(app.events, vec![IoEvent::GetPlaylists]);
    assert_eq!(status(&app), ("Playlist \"Mix\" created!".to_string(), 4));
}

#[test]
fn a_refresh_shows_the_first_page_and_then_the_rest() {
    let infos = |from: usize, count: usize| {
        (from..from + count)
            .map(|i| playlist_info(&format!("p{i}"), "P", "me", false))
            .collect::<Vec<_>>()
    };
    let page = |items, has_next: bool| Paged {
        items,
        limit: 50,
        next: has_next.then(|| "more".to_string()),
        offset: 0,
        previous: None,
        total: 3,
    };
    let mut app = App::default();
    app.user_config.behavior.pin_community_playlist = false;
    let original = app.playlist_selection();
    let mut refresh = app.publish_first_playlists(original, page(infos(0, 2), true));
    assert_eq!(app.all_playlists.len(), 2);
    assert_eq!(app.playlist_refresh_generation, 1);
    assert_eq!(app.plugin_data_generations.playlists, 1);
    assert_eq!(refresh.next_action(&app), RefreshAction::FetchPage { offset: 50 });
    assert_eq!(refresh.page_failed(), Some(250));
    assert_eq!(refresh.page_failed(), Some(500));
    assert_eq!(refresh.page_failed(), None);
    refresh.page_fetched(page(infos(2, 1), true));
    assert_eq!(refresh.next_action(&app), RefreshAction::FetchPage { offset: 100 });
    assert_eq!(refresh.page_failed(), Some(250));
    refresh.page_fetched(page(vec![], true));
    assert_eq!(refresh.next_action(&app), RefreshAction::FetchFolders);
    app.view.selected_playlist_index = Some(2);
    app.publish_playlists(refresh, None);
    assert_eq!(app.all_playlists.len(), 3);
    assert_eq!(app.view.selected_playlist_index, Some(2));
    assert_eq!(app.get_selected_playlist_id(), Some("p1".to_string()));

    let original = app.playlist_selection();
    let refresh = app.publish_first_playlists(original, page(infos(0, 1), true));
    assert_eq!(app.all_playlists.len(), 3, "what is selected is not on the page");
    let newer = app.playlist_selection();
    let newer = app.publish_first_playlists(newer, page(infos(1, 1), true));
    assert_eq!(refresh.next_action(&app), RefreshAction::Abandon);
    assert_eq!(app.all_playlists.len(), 1);
    app.publish_playlists(refresh, None);
    assert_eq!(app.all_playlists.len(), 1);
    app.give_up_playlist_refresh(newer);
    assert_eq!(app.all_playlists.len(), 1, "the page that was published stays");
    assert_eq!(app.playlist_folder_items.len(), 1);
    assert_eq!(app.get_selected_playlist_id(), Some("p1".to_string()));
    assert_eq!(app.get_current_route().id, RouteId::Home);
    let incomplete = "Playlist refresh incomplete; kept the previous list.";
    assert_eq!(status(&app), (incomplete.to_string(), 8));
    let original = app.playlist_selection();
    let refresh = app.publish_first_playlists(original, page(infos(7, 1), true));
    app.status_message = None;
    app.give_up_playlist_refresh(refresh);
    assert_eq!(app.all_playlists.len(), 1);
    assert_eq!(app.get_selected_playlist_id(), Some("p1".to_string()));
    assert_eq!(status(&app), (incomplete.to_string(), 8));
    app.pending_playlist_track_search = Some("q".to_string());
    app.playlists_fetch_failed(other("boom"));
    assert_eq!(app.api_error, "boom");
    assert!(app.pending_playlist_track_search.is_none());
}

#[test]
fn the_pin_prompt_needs_a_reason() {
    let mut app = App::default();
    app.community_playlist_id = "c".to_string();
    app.all_playlists = vec![playlist_info("c", "Community", "x", false)];
    maybe_prompt_community_pin(&mut app);
    assert_eq!(app.get_current_route().id, RouteId::Home);
    app.all_playlists.clear();
    app.active_source = Source::Local;
    maybe_prompt_community_pin(&mut app);
    assert_eq!(app.get_current_route().id, RouteId::Home);
    app.active_source = Source::Spotify;
    maybe_prompt_community_pin(&mut app);
    let length = app.navigation_stack.len();
    maybe_prompt_community_pin(&mut app);
    assert_eq!(app.navigation_stack.len(), length);
}
