use spotatui::app::{
    ActiveBlock, App, InputContext, IoEvent, PendingTrackSelection, RouteId, SearchResultBlock,
    TrackTableContext,
};
use spotatui::domain::{ArtistRef, FullTrack, Paged, PlayableInfo, PlaylistPage, TrackInfo};
use spotatui::ids::PlaylistId;
use spotatui::sorting::{SortField, SortOrder, SortState};

fn full_track(id: &str, name: &str) -> FullTrack {
    FullTrack {
        id: Some(id.to_string()),
        name: name.to_string(),
        artists: vec![ArtistRef { id: None, name: "Artist".to_string() }],
        album_id: None,
        album_name: "Album".to_string(),
        album_image_url: None,
        duration_ms: 180_000,
        explicit: false,
        is_local: false,
        is_playable: Some(true),
        track_number: 1,
    }
}

fn empty_playlist_page(offset: u32, total: u32, limit: u32, has_next: bool) -> PlaylistPage {
    Paged {
        items: vec![],
        limit,
        next: has_next.then(|| "https://example.com/playlists/test/items?next".to_string()),
        offset,
        previous: None,
        total,
    }
}

fn playlist_page(offset: u32, total: u32, ids: &[&str], has_next: bool) -> PlaylistPage {
    Paged {
        items: ids
            .iter()
            .enumerate()
            .map(|(index, id)| {
                let position = offset + index as u32;
                let track = PlayableInfo::Track(TrackInfo::from_full_track(&full_track(
                    id,
                    &format!("Track {offset}-{index}"),
                )));
                (position, track)
            })
            .collect(),
        limit: ids.len() as u32,
        next: has_next.then(|| "https://example.com/playlists/test/items?next".to_string()),
        offset,
        previous: None,
        total,
    }
}

fn playlist_id(id: &str) -> PlaylistId {
    PlaylistId::from_id(id).unwrap()
}

fn tracks(names: &[&str]) -> Vec<TrackInfo> {
    names.iter().map(|name| TrackInfo::from_full_track(&full_track("1", name))).collect()
}

#[test]
fn reset_playlist_tracks_view_clears_cached_pages_and_bumps_generation() {
    let mut app = App::default();
    let playlist_id = playlist_id("37i9dQZF1DXcBWIGoYBM5M");
    app.playlist_tracks_prefetch_generation = 4;
    app.playlist_track_table_id = Some(playlist_id.clone());
    app.playlist_track_pages.upsert_page_by_offset(empty_playlist_page(0, 40, 20, true));
    app.playlist_tracks = Some(empty_playlist_page(0, 40, 20, true));
    app.playlist_offset = 20;
    app.view.track_table_index = 1;
    app.track_table.tracks = vec![
        TrackInfo::from_full_track(&full_track("0000000000000000000001", "Track 1")),
        TrackInfo::from_full_track(&full_track("0000000000000000000002", "Track 2")),
    ];

    app.reset_playlist_tracks_view(playlist_id.clone(), TrackTableContext::MyPlaylists);

    assert_eq!(app.playlist_tracks_prefetch_generation, 5);
    assert_eq!(app.playlist_track_table_id, Some(playlist_id));
    assert!(app.playlist_track_pages.pages.is_empty());
    assert!(app.playlist_tracks.is_none());
    assert_eq!(app.playlist_offset, 0);
    assert!(app.track_table.tracks.is_empty());
    assert_eq!(app.view.track_table_index, 0);
    assert_eq!(app.track_table.context, Some(TrackTableContext::MyPlaylists));
}

#[test]
fn playlist_next_requests_adjacent_offset_when_cache_is_sparse() {
    let mut app = App::default();
    let playlist_id = playlist_id("37i9dQZF1DXcBWIGoYBM5M");
    let first_page = empty_playlist_page(0, 100, 20, true);
    let last_page = empty_playlist_page(80, 100, 20, false);

    app.track_table.context = Some(TrackTableContext::MyPlaylists);
    app.playlist_track_table_id = Some(playlist_id.clone());
    app.playlist_track_pages.upsert_page_by_offset(empty_playlist_page(0, 100, 20, true));
    app.playlist_track_pages.upsert_page_by_offset(last_page);
    app.playlist_tracks = Some(first_page);
    app.playlist_offset = 0;

    app.get_playlist_tracks_next();

    match &app.events[0] {
        IoEvent::GetPlaylistItems(id, offset) => {
            assert_eq!(id, playlist_id.id());
            assert_eq!(*offset, 20);
        }
        _ => panic!("unexpected event"),
    }
}

#[test]
fn playlist_next_uses_cached_adjacent_page_before_fetching() {
    let mut app = App::default();
    let playlist_id = playlist_id("37i9dQZF1DX4WYpdgoIcn6");
    let first_page = empty_playlist_page(0, 60, 20, true);
    let second_page = empty_playlist_page(20, 60, 20, true);

    app.track_table.context = Some(TrackTableContext::MyPlaylists);
    app.playlist_track_table_id = Some(playlist_id.clone());
    app.playlist_track_pages.upsert_page_by_offset(empty_playlist_page(0, 60, 20, true));
    app.playlist_track_pages.upsert_page_by_offset(second_page);
    app.playlist_tracks = Some(first_page);
    app.playlist_offset = 0;

    app.get_playlist_tracks_next();

    assert_eq!(app.playlist_offset, 0);
    assert_eq!(app.playlist_tracks.as_ref().map(|page| page.offset), Some(20));
    match &app.events[0] {
        IoEvent::CurrentUserSavedTracksContains(track_ids) => {
            assert!(track_ids.is_empty());
        }
        _ => panic!("unexpected event"),
    }
    assert_eq!(app.events.len(), 1);
}

#[test]
fn playlist_continuous_table_stops_at_sparse_cache_gap() {
    let mut app = App::default();
    let playlist_id = playlist_id("37i9dQZF1DX4WYpdgoIcn6");
    let first_page = playlist_page(
        0,
        6,
        &["0000000000000000000001", "0000000000000000000002"],
        true,
    );
    let sparse_page = playlist_page(
        4,
        6,
        &["0000000000000000000005", "0000000000000000000006"],
        false,
    );

    app.track_table.context = Some(TrackTableContext::MyPlaylists);
    app.playlist_track_table_id = Some(playlist_id);
    app.playlist_track_pages.upsert_page_by_offset(first_page);
    app.playlist_track_pages.upsert_page_by_offset(sparse_page);

    app.set_playlist_tracks_to_table_continuous();

    assert_eq!(app.track_table.tracks.len(), 2);
    assert_eq!(app.playlist_track_positions, Some(vec![0, 1]));
    match &app.events[0] {
        IoEvent::CurrentUserSavedTracksContains(track_ids) => {
            assert_eq!(track_ids.len(), 2);
        }
        _ => panic!("unexpected event"),
    }
}

#[test]
fn playlist_next_cached_page_applies_pending_continuous_index() {
    let mut app = App::default();
    let playlist_id = playlist_id("37i9dQZF1DX4WYpdgoIcn6");
    let ids = ["0000000000000000000001", "0000000000000000000002"];
    let first_page = playlist_page(0, 4, &ids, true);
    let second_page = playlist_page(
        2,
        4,
        &["0000000000000000000003", "0000000000000000000004"],
        false,
    );

    app.track_table.context = Some(TrackTableContext::MyPlaylists);
    app.playlist_track_table_id = Some(playlist_id);
    app.playlist_track_pages.upsert_page_by_offset(playlist_page(0, 4, &ids, true));
    app.playlist_track_pages.upsert_page_by_offset(second_page);
    app.playlist_tracks = Some(first_page);
    app.track_table.tracks = vec![
        TrackInfo::from_full_track(&full_track("0000000000000000000001", "Track 1")),
        TrackInfo::from_full_track(&full_track("0000000000000000000002", "Track 2")),
    ];
    app.view.track_table_index = 1;
    app.pending_track_table_selection = Some(PendingTrackSelection::Index(2));

    app.get_playlist_tracks_next();

    assert_eq!(app.track_table.tracks.len(), 4);
    assert_eq!(app.view.track_table_index, 2);
    assert_eq!(app.playlist_track_positions, Some(vec![0, 1, 2, 3]));
}

#[test]
fn playlist_search_results_preserve_source_positions_and_handle_no_matches() {
    let mut app = App::default();
    let playlist_id = playlist_id("37i9dQZF1DX4WYpdgoIcn6");

    app.track_table.context = Some(TrackTableContext::MyPlaylists);
    app.playlist_track_table_id = Some(playlist_id.clone());
    app.pending_playlist_track_search = Some("track".to_string());

    assert!(app.apply_playlist_track_search_results(
        &playlist_id,
        "track".to_string(),
        vec![
            (full_track("0000000000000000000002", "Second"), 8),
            (full_track("0000000000000000000004", "Fourth"), 11),
        ],
    ));

    assert_eq!(app.active_playlist_track_filter, Some("track".to_string()));
    assert!(app.pending_playlist_track_search.is_none());
    assert_eq!(app.track_table.tracks.len(), 2);
    assert_eq!(app.playlist_track_positions, Some(vec![8, 11]));
    match &app.events[0] {
        IoEvent::CurrentUserSavedTracksContains(track_ids) => {
            assert_eq!(track_ids.len(), 2);
        }
        _ => panic!("unexpected event"),
    }

    assert!(app.apply_playlist_track_search_results(&playlist_id, "none".to_string(), vec![]));
    assert!(app.track_table.tracks.is_empty());
    assert_eq!(app.playlist_track_positions, Some(vec![]));
}

#[test]
fn clearing_playlist_search_restores_cached_continuous_view() {
    let mut app = App::default();
    let playlist_id = playlist_id("37i9dQZF1DX4WYpdgoIcn6");
    let page = playlist_page(
        0,
        2,
        &["0000000000000000000001", "0000000000000000000002"],
        false,
    );

    app.track_table.context = Some(TrackTableContext::MyPlaylists);
    app.playlist_track_table_id = Some(playlist_id);
    app.playlist_track_pages.upsert_page_by_offset(page);
    app.active_playlist_track_filter = Some("second".to_string());
    app.track_table.tracks =
        vec![TrackInfo::from_full_track(&full_track("0000000000000000000002", "Second"))];
    app.playlist_track_positions = Some(vec![1]);

    app.clear_playlist_track_filter();

    assert!(app.active_playlist_track_filter.is_none());
    assert_eq!(app.track_table.tracks.len(), 2);
    assert_eq!(app.playlist_track_positions, Some(vec![0, 1]));
}

#[test]
fn apply_sorted_playlist_tracks_if_current_requires_matching_playlist_identity_and_context() {
    let mut app = App::default();
    let sidebar_playlist_id = playlist_id("37i9dQZF1DXcBWIGoYBM5M");
    let active_playlist_id = playlist_id("37i9dQZF1DX4WYpdgoIcn6");
    let original_track = full_track("0000000000000000000001", "Original");

    app.track_table.tracks = vec![TrackInfo::from_full_track(&original_track)];
    app.track_table.context = Some(TrackTableContext::PlaylistSearch);
    app.playlist_track_table_id = Some(active_playlist_id.clone());

    assert!(!app.apply_sorted_playlist_tracks_if_current(
        &sidebar_playlist_id,
        vec![full_track("0000000000000000000002", "Wrong Playlist")],
    ));
    assert_eq!(app.track_table.tracks[0].id, original_track.id);

    app.track_table.context = Some(TrackTableContext::SavedTracks);
    assert!(!app.apply_sorted_playlist_tracks_if_current(
        &active_playlist_id,
        vec![full_track("0000000000000000000003", "Wrong Context")],
    ));
    assert_eq!(app.track_table.tracks[0].id, original_track.id);
}

#[test]
fn current_route_playlist_track_table_requires_track_table_route() {
    let mut app = App::default();
    let playlist_id = playlist_id("37i9dQZF1DXcBWIGoYBM5M");

    app.track_table.context = Some(TrackTableContext::MyPlaylists);
    app.playlist_track_table_id = Some(playlist_id.clone());
    app.push_navigation_stack(RouteId::Search, ActiveBlock::SearchResultBlock);

    assert!(app.is_playlist_track_table_active_for(&playlist_id));
    assert!(!app.is_current_route_playlist_track_table_for(&playlist_id));

    app.push_navigation_stack(RouteId::TrackTable, ActiveBlock::TrackTable);
    assert!(app.is_current_route_playlist_track_table_for(&playlist_id));
}

#[test]
fn opening_a_playlist_twice_fetches_it_once() {
    let mut app = App::default();
    let id = playlist_id("abc");
    app.open_playlist_tracks(id.clone(), TrackTableContext::MyPlaylists);
    assert_eq!(app.get_current_route().id, RouteId::TrackTable);
    assert_eq!(app.pending_playlist_open, Some("abc".to_string()));
    assert_eq!(app.status_message.as_ref().unwrap().text, "Loading playlist…");
    assert_eq!(app.status_message.as_ref().unwrap().seconds, 3);
    app.push_navigation_stack(RouteId::Search, ActiveBlock::SearchResultBlock);
    app.open_playlist_tracks(id, TrackTableContext::MyPlaylists);
    assert_eq!(app.get_current_route().id, RouteId::TrackTable);
    assert_eq!(app.events, vec![IoEvent::GetPlaylistItems("abc".to_string(), 0)]);
}

#[test]
fn source_playlists_are_routed_by_scheme() {
    let cases = [
        ("file:/music", TrackTableContext::LocalPlaylist),
        ("subsonic:1", TrackTableContext::SubsonicPlaylist),
        ("youtube:playlist:x", TrackTableContext::YouTubePlaylist),
        ("qobuz:7", TrackTableContext::QobuzPlaylist),
    ];
    for (uri, context) in cases {
        let mut app = App::default();
        app.open_source_playlist_tracks(uri.to_string());
        assert_eq!(app.track_table.context, Some(context));
        assert_eq!(app.events.len(), 1);
        assert_eq!(app.get_current_route().id, RouteId::TrackTable);
    }
    let mut app = App::default();
    app.open_source_playlist_tracks("gopher:1".to_string());
    assert!(app.events.is_empty());
    assert_eq!(app.track_table.context, None);
    assert_eq!(app.get_current_route().id, RouteId::Home);
}

#[test]
fn source_playlists_leave_fetched_pages_alone() {
    let mut app = App::default();
    app.playlist_track_pages.upsert_page_by_offset(empty_playlist_page(0, 40, 20, true));
    app.open_source_playlist_tracks("file:/music".to_string());
    assert_eq!(app.playlist_track_pages.pages.len(), 1);
}

#[test]
fn source_search_shows_songs_only() {
    let mut app = App::default();
    app.show_source_search_tracks(tracks(&["a", "b", "c"]));
    assert_eq!(app.search_results.tracks.as_ref().unwrap().total, 3);
    assert_eq!(app.search_results.tracks.as_ref().unwrap().items.len(), 3);
    assert!(app.search_results.albums.is_none());
    assert_eq!(app.view.search_selected_tracks_index, Some(0));
    assert_eq!(app.view.search_hovered_block, SearchResultBlock::SongSearch);
    assert_eq!(app.view.search_selected_block, SearchResultBlock::Empty);
}

#[test]
fn clearing_a_filter_without_pages_empties_the_table() {
    let mut app = App::default();
    app.active_playlist_track_filter = Some("x".to_string());
    app.track_table.tracks = tracks(&["a"]);
    app.view.track_table_index = 4;
    app.view.input_context = InputContext::PlaylistTrackSearch;
    app.clear_playlist_track_filter();
    assert!(app.track_table.tracks.is_empty());
    assert_eq!(app.view.track_table_index, 0);
    assert_eq!(app.view.input_context, InputContext::GlobalSearch);
    assert!(!app.is_playlist_track_filter_active());
    assert!(app.events.is_empty());
}

#[test]
fn next_page_is_fetched_once_and_never_when_filtered() {
    let mut app = App::default();
    app.track_table.context = Some(TrackTableContext::MyPlaylists);
    app.playlist_track_table_id = Some(playlist_id("abc"));
    app.playlist_track_pages.upsert_page_by_offset(empty_playlist_page(0, 40, 20, true));
    app.playlist_tracks = Some(empty_playlist_page(0, 40, 20, true));
    app.get_playlist_tracks_next();
    app.get_playlist_tracks_next();
    assert_eq!(app.events, vec![IoEvent::GetPlaylistItems("abc".to_string(), 20)]);
    assert!(app.playlist_tracks_prefetch_in_flight.contains(&20));
    assert!(app.current_playlist_has_more_tracks());
    assert_eq!(app.current_playlist_track_total(), Some(40));
    assert_eq!(app.next_missing_playlist_tracks_offset(0), Some(20));
    assert_eq!(app.next_missing_playlist_tracks_offset(1), None);
    assert_eq!(app.next_missing_playlist_tracks_offset_continuous(), Some(20));
    app.active_playlist_track_filter = Some("x".to_string());
    assert!(!app.current_playlist_has_more_tracks());
    app.playlist_tracks_prefetch_in_flight.clear();
    app.get_playlist_tracks_next();
    assert_eq!(app.events.len(), 1);
}

#[test]
fn selected_position_follows_the_selected_row() {
    let mut app = App::default();
    assert_eq!(app.selected_playlist_track_position(), None);
    app.playlist_track_positions = Some(vec![7, 9]);
    app.view.track_table_index = 1;
    assert_eq!(app.selected_playlist_track_position(), Some(9));
    app.view.track_table_index = 2;
    assert_eq!(app.selected_playlist_track_position(), None);
}

#[test]
fn matches_are_sorted_stably() {
    let id = playlist_id("abc");
    let cases = [
        (SortField::Name, SortOrder::Ascending, vec![3, 0, 2, 1]),
        (SortField::Name, SortOrder::Descending, vec![1, 0, 2, 3]),
        (SortField::DateAdded, SortOrder::Descending, vec![3, 2, 1, 0]),
        (SortField::Default, SortOrder::Descending, vec![0, 1, 2, 3]),
        (SortField::Album, SortOrder::Descending, vec![0, 1, 2, 3]),
    ];
    for (field, order, expected) in cases {
        let mut app = App::default();
        app.track_table.context = Some(TrackTableContext::MyPlaylists);
        app.playlist_track_table_id = Some(id.clone());
        app.playlist_sort = SortState { field, order };
        let matches = tracks(&["b", "c", "b", "a"]).into_iter().enumerate();
        let matches = matches.map(|(place, track)| (track, place)).collect();
        assert!(app.apply_playlist_track_search_info_results(&id, "q".to_string(), matches));
        assert_eq!(app.playlist_track_positions, Some(expected));
    }
}

#[test]
fn artists_and_durations_sort_too() {
    let id = playlist_id("abc");
    let mut app = App::default();
    app.track_table.context = Some(TrackTableContext::MyPlaylists);
    app.playlist_track_table_id = Some(id.clone());
    let mut list = tracks(&["x", "y", "z"]);
    list[0].artists = vec!["Zed".to_string()];
    list[1].artists = vec![];
    list[2].artists = vec!["Ann".to_string()];
    list[0].duration_ms = 5;
    list[1].duration_ms = 9;
    list[2].duration_ms = 7;
    let matches = |list: &Vec<TrackInfo>| {
        list.iter().cloned().enumerate().map(|(place, track)| (track, place)).collect::<Vec<_>>()
    };
    app.playlist_sort = SortState { field: SortField::Artist, order: SortOrder::Ascending };
    app.apply_playlist_track_search_info_results(&id, "q".to_string(), matches(&list));
    assert_eq!(app.playlist_track_positions, Some(vec![1, 2, 0]));
    app.playlist_sort = SortState { field: SortField::Duration, order: SortOrder::Descending };
    app.apply_playlist_track_search_info_results(&id, "q".to_string(), matches(&list));
    assert_eq!(app.playlist_track_positions, Some(vec![1, 2, 0]));
}

#[test]
fn sorted_tracks_reach_the_table_that_shows_their_playlist() {
    let id = playlist_id("abc");
    let mut app = App::default();
    app.track_table.context = Some(TrackTableContext::PlaylistSearch);
    app.playlist_track_table_id = Some(id.clone());
    app.view.track_table_index = 3;
    assert!(app.apply_sorted_playlist_track_infos_if_current(&id, tracks(&["a", "b"])));
    assert_eq!(app.track_table.tracks.len(), 2);
    assert_eq!(app.view.track_table_index, 0);
}

#[test]
fn pages_keep_their_order_and_replace_each_other() {
    let mut app = App::default();
    let pages = &mut app.playlist_track_pages;
    assert_eq!(pages.upsert_page_by_offset(empty_playlist_page(40, 60, 20, false)), 0);
    assert_eq!(pages.upsert_page_by_offset(empty_playlist_page(0, 60, 20, true)), 0);
    assert_eq!(pages.upsert_page_by_offset(empty_playlist_page(20, 60, 20, true)), 1);
    assert_eq!(pages.upsert_page_by_offset(empty_playlist_page(20, 61, 20, true)), 1);
    let offsets: Vec<u32> = pages.pages.iter().map(|page| page.offset).collect();
    assert_eq!(offsets, vec![0, 20, 40]);
    assert_eq!(pages.pages[1].total, 61);
    assert_eq!(pages.page_index_for_offset(40), Some(2));
    assert_eq!(pages.page_index_for_offset(60), None);
}
