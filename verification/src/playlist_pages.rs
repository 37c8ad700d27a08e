//! The table of a playlist's tracks: opening it, filling it from the pages that were fetched,
//! filtering and sorting it.

use vstd::prelude::*;

use crate::app::{
    bump_count, bumped, current_route, dispatched, navigated, selected_row, with_source_tracks,
    with_status, with_table_tracks, ActiveBlock, App, AppView, InputContext, IoEvent, IoEventView, RouteId,
    SearchResultBlock, TrackTableContext, ViewState,
};
use crate::domain::{
    clone_playlist_page, ids_of_tracks, next_offset, offsets_in_range, only_places, only_tracks,
    track_from_full, track_ids, tracks_in, FullTrack, FullTrackView, Paged, PagedView, PlayableInfo,
    PlaylistPage, PlaylistPageView, TrackInfo, TrackView,
};
use crate::ids::PlaylistId;
use crate::pages::{
    count_run, has_page_at, last_page, last_place, lemma_run_without_gap, shown_pages, without_gap,
    PagesView,
};
use crate::sorting::{is_sorted_from, sort_playlist_track_matches, TrackMatch};
use crate::text::{
    has_prefix, lemma_prefix_taken_off, optional_text_is, text_is, text_starts_with,
};

verus! {

/// How the URIs of YouTube playlists begin.
pub const YOUTUBE_PLAYLIST_PREFIX: &'static str = "youtube:playlist:";

/// The tracks of pages, each with its place.
pub open spec fn tracks_of_pages(pages: Seq<PlaylistPageView>) -> Seq<(u32, TrackView)>
    decreases pages.len(),
{
    if pages.len() == 0 {
        seq![]
    } else {
        tracks_of_pages(pages.drop_last()) + tracks_in(pages.last().items)
    }
}

/// The state, with the table showing the pages that follow each other from the start on.
pub open spec fn shown_continuously(app: AppView) -> AppView {
    let shown = shown_pages(app.playlist_track_pages.pages);
    let tracks = tracks_of_pages(shown);
    let paged = AppView {
        playlist_track_pages: PagesView { index: last_place(shown), ..app.playlist_track_pages },
        playlist_tracks: last_page(shown),
        playlist_offset: 0,
        ..app
    };
    dispatched(
        AppView {
            playlist_track_positions: Some(only_places(tracks)),
            ..with_table_tracks(paged, only_tracks(tracks))
        },
        IoEventView::CurrentUserSavedTracksContains(track_ids(only_tracks(tracks))),
    )
}

/// The state, with the table cleared for a playlist.
pub open spec fn table_reset(
    app: AppView,
    playlist_id: Seq<char>,
    context: TrackTableContext,
) -> AppView {
    AppView {
        playlist_tracks_prefetch_generation: bumped(app.playlist_tracks_prefetch_generation),
        playlist_tracks_prefetch_in_flight: Set::empty(),
        playlist_track_table_id: Some(playlist_id),
        active_playlist_track_filter: None,
        pending_playlist_track_search: None,
        playlist_track_pages: PagesView { index: 0, pages: seq![] },
        playlist_tracks: None,
        playlist_offset: 0,
        pending_track_table_selection: None,
        table_tracks: seq![],
        table_context: Some(context),
        playlist_track_positions: None,
        view: ViewState { track_table_index: 0, ..app.view },
        ..app
    }
}

/// The state, with a playlist opened: its table is shown at once, empty, and its first page is to be
/// fetched. While that is on its way, opening it again only shows the table.
pub open spec fn playlist_opened(
    app: AppView,
    playlist_id: Seq<char>,
    context: TrackTableContext,
) -> AppView {
    if app.pending_playlist_open == Some(playlist_id) {
        if current_route(app).id != RouteId::TrackTable {
            navigated(app, RouteId::TrackTable, ActiveBlock::TrackTable)
        } else {
            app
        }
    } else {
        let reset = table_reset(
            AppView { pending_playlist_open: Some(playlist_id), ..app },
            playlist_id,
            context,
        );
        dispatched(
            with_status(
                navigated(reset, RouteId::TrackTable, ActiveBlock::TrackTable),
                "Loading playlist…"@,
                3,
            ),
            IoEventView::GetPlaylistItems(playlist_id, 0),
        )
    }
}

/// What is fetched for a URI of another source, and how the table then is headed.
pub open spec fn source_event(uri: Seq<char>) -> Option<(TrackTableContext, IoEventView)> {
    if has_prefix(uri, "file:"@) {
        Some((TrackTableContext::LocalPlaylist, IoEventView::GetLocalTracks(uri)))
    } else if has_prefix(uri, "subsonic:"@) {
        Some((TrackTableContext::SubsonicPlaylist, IoEventView::GetSubsonicTracks(uri)))
    } else if has_prefix(uri, YOUTUBE_PLAYLIST_PREFIX@) {
        Some((TrackTableContext::YouTubePlaylist, IoEventView::GetYouTubeTracks(uri)))
    } else if has_prefix(uri, "qobuz:"@) {
        Some((TrackTableContext::QobuzPlaylist, IoEventView::GetQobuzTracks(uri)))
    } else {
        None
    }
}

/// The state, with a playlist of another source opened; the same, where no source knows the URI.
pub open spec fn source_playlist_opened(app: AppView, uri: Seq<char>) -> AppView {
    match source_event(uri) {
        Some((context, event)) => with_source_tracks(dispatched(app, event), seq![], context),
        None => app,
    }
}

/// The state, with the tracks that a source found shown as the only results.
pub open spec fn source_tracks_found(app: AppView, tracks: Seq<TrackView>) -> AppView {
    AppView {
        found_tracks: Some(
            PagedView {
                items: tracks,
                limit: 0,
                next: None,
                offset: 0,
                previous: None,
                total: tracks.len() as u32,
            },
        ),
        found_albums: None,
        found_artists: None,
        found_playlists: None,
        found_shows: None,
        view: ViewState {
            search_selected_tracks_index: Some(0),
            search_hovered_block: SearchResultBlock::SongSearch,
            search_selected_block: SearchResultBlock::Empty,
            ..app.view
        },
        ..app
    }
}

/// The state, with the filter of the table taken away: the pages that were fetched are shown again.
pub open spec fn filter_cleared(app: AppView) -> AppView {
    let cleared = AppView {
        active_playlist_track_filter: None,
        pending_playlist_track_search: None,
        view: ViewState { input_context: InputContext::GlobalSearch, ..app.view },
        ..app
    };
    if app.playlist_track_pages.pages.len() == 0 {
        AppView {
            table_tracks: seq![],
            playlist_track_positions: None,
            view: ViewState { track_table_index: 0, ..cleared.view },
            ..cleared
        }
    } else {
        shown_continuously(cleared)
    }
}

/// The tracks of matches.
pub open spec fn match_tracks(matches: Seq<(TrackView, usize)>) -> Seq<TrackView> {
    Seq::new(matches.len(), |i: int| matches[i].0)
}

/// The places of matches.
pub open spec fn match_places(matches: Seq<(TrackView, usize)>) -> Seq<usize> {
    Seq::new(matches.len(), |i: int| matches[i].1)
}

/// The state, with the table showing the tracks that match a filter.
pub open spec fn filtered(
    app: AppView,
    query: Seq<char>,
    matches: Seq<(TrackView, usize)>,
) -> AppView {
    dispatched(
        AppView {
            active_playlist_track_filter: Some(query),
            pending_playlist_track_search: None,
            view: ViewState { track_table_index: 0, ..app.view },
            table_tracks: match_tracks(matches),
            playlist_track_positions: Some(match_places(matches)),
            ..app
        },
        IoEventView::CurrentUserSavedTracksContains(track_ids(match_tracks(matches))),
    )
}

/// The table shows a playlist.
pub open spec fn table_shows_playlist(app: AppView) -> bool {
    app.table_context == Some(TrackTableContext::MyPlaylists) || app.table_context == Some(
        TrackTableContext::PlaylistSearch,
    )
}

/// The playlist that the table shows.
pub open spec fn shown_playlist(app: AppView) -> Option<Seq<char>> {
    if table_shows_playlist(app) {
        app.playlist_track_table_id
    } else {
        None
    }
}

/// How many tracks the shown playlist has, as far as it is known.
pub open spec fn shown_total(app: AppView) -> Option<u32> {
    if shown_playlist(app) is None {
        None
    } else {
        match app.playlist_tracks {
            Some(page) => Some(page.total),
            None => if app.playlist_track_pages.pages.len() > 0 {
                Some(app.playlist_track_pages.pages[0].total)
            } else {
                None
            },
        }
    }
}

/// The page at a place, where it is there and names a next one.
pub open spec fn page_with_next(app: AppView, place: int) -> Option<PlaylistPageView> {
    if 0 <= place < app.playlist_track_pages.pages.len()
        && app.playlist_track_pages.pages[place].next is Some {
        Some(app.playlist_track_pages.pages[place])
    } else {
        None
    }
}

/// Where the page behind a page starts, unless that page was fetched.
pub open spec fn next_missing_offset(app: AppView, place: int) -> Option<u32> {
    match page_with_next(app, place) {
        Some(page) => if has_page_at(
            app.playlist_track_pages.pages,
            next_offset(page) as u32,
        ) {
            None
        } else {
            Some(next_offset(page) as u32)
        },
        None => None,
    }
}

/// Where the page behind the current one starts.
pub open spec fn offset_behind_current(app: AppView) -> Option<u32> {
    match page_with_next(app, app.playlist_track_pages.index as int) {
        Some(page) => Some(next_offset(page) as u32),
        None => None,
    }
}

/// More tracks can be had for the table.
pub open spec fn has_more_tracks(app: AppView) -> bool {
    app.active_playlist_track_filter is None && (app.playlist_tracks matches Some(page)
        && page.next is Some)
}

/// The state, with the tracks behind the shown ones asked for: shown, where they were fetched; else
/// to be fetched, once.
pub open spec fn next_asked(app: AppView) -> AppView {
    match (shown_playlist(app), offset_behind_current(app)) {
        (Some(id), Some(offset)) => if !has_more_tracks(app) {
            app
        } else if has_page_at(app.playlist_track_pages.pages, offset) {
            shown_continuously(app)
        } else if app.playlist_tracks_prefetch_in_flight.contains(offset) {
            app
        } else {
            dispatched(
                AppView {
                    playlist_tracks_prefetch_in_flight:
                        app.playlist_tracks_prefetch_in_flight.insert(offset),
                    ..app
                },
                IoEventView::GetPlaylistItems(id, offset),
            )
        },
        _ => app,
    }
}

/// The state, with sorted tracks in the table and its first row selected.
pub open spec fn sorted_shown(app: AppView, tracks: Seq<TrackView>) -> AppView {
    let shown = with_table_tracks(app, tracks);
    AppView { view: ViewState { track_table_index: 0, ..shown.view }, ..shown }
}

/// A list of tracks of the Web API as tracks of the library.
pub open spec fn tracks_from_full(tracks: Seq<FullTrackView>) -> Seq<TrackView> {
    Seq::new(tracks.len(), |i: int| track_from_full(tracks[i]))
}

/// A list of matches of the Web API as matches of the library.
pub open spec fn matches_from_full(matches: Seq<(FullTrackView, usize)>) -> Seq<
    (TrackView, usize),
> {
    Seq::new(matches.len(), |i: int| (track_from_full(matches[i].0), matches[i].1))
}

/// The tracks of one page, added to those before it.
fn add_page_tracks(
    page: &PlaylistPage,
    tracks: &mut Vec<TrackInfo>,
    places: &mut Vec<usize>,
    Ghost(so_far): Ghost<Seq<(u32, TrackView)>>,
)
    requires
        old(tracks).deep_view() == only_tracks(so_far),
        old(places)@ == only_places(so_far),
    ensures
        final(tracks).deep_view() == only_tracks(so_far + tracks_in(page.deep_view().items)),
        final(places)@ == only_places(so_far + tracks_in(page.deep_view().items)),
{
    let ghost items = page.items.deep_view();
    let mut i: usize = 0;
    assert(items.take(0) =~= seq![]);
    assert(so_far + tracks_in(items.take(0)) =~= so_far);
    while i < page.items.len()
        invariant
            i <= page.items@.len(),
            items == page.items.deep_view(),
            tracks.deep_view() == only_tracks(so_far + tracks_in(items.take(i as int))),
            places@ == only_places(so_far + tracks_in(items.take(i as int))),
        decreases page.items@.len() - i,
    {
        let ghost before = so_far + tracks_in(items.take(i as int));
        assert(items.take(i + 1).drop_last() =~= items.take(i as int));
        assert(items.take(i + 1).last() == page.items@[i as int].deep_view());
        let ghost track_views = tracks.deep_view();
        match &page.items[i].1 {
            PlayableInfo::Track(track) => {
                tracks.push(track.clone());
                places.push(page.items[i].0 as usize);
                let ghost added = (page.items@[i as int].0, track.deep_view());
                assert(so_far + tracks_in(items.take(i + 1)) =~= before.push(added));
                assert(tracks.deep_view() =~= track_views.push(track.deep_view()));
                assert(tracks.deep_view() =~= only_tracks(before.push(added)));
                assert(places@ =~= only_places(before.push(added)));
            },
            PlayableInfo::Episode(_) => {},
        }
        i += 1;
    }
    assert(items.take(i as int) =~= items);
}

impl App {
    /// Fills the table with the pages that follow each other from the start on, and asks which of
    /// their tracks are liked.
    pub fn set_playlist_tracks_to_table_continuous(&mut self)
        ensures
            final(self)@ == shown_continuously(old(self)@),
    {
        let ghost pages = self.playlist_track_pages.pages.deep_view();
        let ghost shown = shown_pages(pages);
        let mut tracks: Vec<TrackInfo> = Vec::new();
        let mut places: Vec<usize> = Vec::new();
        let count = count_run(&self.playlist_track_pages.pages);
        let mut i: usize = 0;
        assert(shown.take(0) =~= seq![]);
        assert(tracks.deep_view() =~= only_tracks(tracks_of_pages(shown.take(0))));
        assert(places@ =~= only_places(tracks_of_pages(shown.take(0))));
        while i < count
            invariant
                i <= count,
                count <= self.playlist_track_pages.pages@.len(),
                pages == self.playlist_track_pages.pages.deep_view(),
                shown == pages.take(count as int),
                tracks.deep_view() == only_tracks(tracks_of_pages(shown.take(i as int))),
                places@ == only_places(tracks_of_pages(shown.take(i as int))),
            decreases count - i,
        {
            assert(shown.take(i + 1).drop_last() =~= shown.take(i as int));
            assert(shown.take(i + 1).last()
                == self.playlist_track_pages.pages@[i as int].deep_view());
            add_page_tracks(
                &self.playlist_track_pages.pages[i],
                &mut tracks,
                &mut places,
                Ghost(tracks_of_pages(shown.take(i as int))),
            );
            i += 1;
        }
        assert(shown.take(i as int) =~= shown);
        let ids = ids_of_tracks(&tracks);
        let current = if count > 0 {
            assert(shown.last() == self.playlist_track_pages.pages@[count - 1].deep_view());
            Some(clone_playlist_page(&self.playlist_track_pages.pages[count - 1]))
        } else {
            None
        };
        self.playlist_track_pages.index = if count > 0 {
            count - 1
        } else {
            0
        };
        self.playlist_tracks = current;
        self.playlist_offset = 0;
        self.replace_track_table_tracks(tracks);
        self.playlist_track_positions = Some(places);
        assert(places.deep_view() =~= places@);
        self.dispatch(IoEvent::CurrentUserSavedTracksContains(ids));
    }

    /// Opens a playlist: shows its table at once and asks for its first page. While that is on its
    /// way, opening it again only shows the table.
    pub fn open_playlist_tracks(&mut self, playlist_id: PlaylistId, context: TrackTableContext)
        ensures
            final(self)@ == playlist_opened(old(self)@, playlist_id@, context),
    {
        if optional_text_is(&self.pending_playlist_open, playlist_id.id()) {
            if self.get_current_route().id != RouteId::TrackTable {
                self.push_navigation_stack(RouteId::TrackTable, ActiveBlock::TrackTable);
            }
            return;
        }
        let id = playlist_id.id().to_owned();
        let ghost before = self@;
        self.pending_playlist_open = Some(id.clone());
        assert(self@ == AppView { pending_playlist_open: Some(playlist_id@), ..before });
        self.reset_playlist_tracks_view(playlist_id, context);
        let offset = self.playlist_offset;
        assert(offset == 0);
        self.push_navigation_stack(RouteId::TrackTable, ActiveBlock::TrackTable);
        self.set_status_message("Loading playlist…".to_owned(), 3);
        self.dispatch(IoEvent::GetPlaylistItems(id, offset));
    }

    /// Opens a playlist or a folder of another source, which the URI names. The pages of the
    /// playlist that were fetched stay. A URI that no source knows changes nothing.
    pub fn open_source_playlist_tracks(&mut self, uri: String)
        ensures
            final(self)@ == source_playlist_opened(old(self)@, uri@),
    {
        let (context, event) = if text_starts_with(uri.as_str(), "file:") {
            (TrackTableContext::LocalPlaylist, IoEvent::GetLocalTracks(uri))
        } else if text_starts_with(uri.as_str(), "subsonic:") {
            (TrackTableContext::SubsonicPlaylist, IoEvent::GetSubsonicTracks(uri))
        } else if text_starts_with(uri.as_str(), YOUTUBE_PLAYLIST_PREFIX) {
            (TrackTableContext::YouTubePlaylist, IoEvent::GetYouTubeTracks(uri))
        } else if text_starts_with(uri.as_str(), "qobuz:") {
            (TrackTableContext::QobuzPlaylist, IoEvent::GetQobuzTracks(uri))
        } else {
            return;
        };
        self.dispatch(event);
        let tracks: Vec<TrackInfo> = Vec::new();
        assert(tracks.deep_view() =~= seq![]);
        self.show_tracks_in_table(tracks, context);
    }

    /// Shows the tracks that a source found as the only results, with the songs in focus.
    pub fn show_source_search_tracks(&mut self, tracks: Vec<TrackInfo>)
        ensures
            final(self)@ == source_tracks_found(old(self)@, tracks.deep_view()),
    {
        let total: u32 = #[verifier::truncate] (tracks.len() as u32);
        self.search_results.tracks = Some(Paged::single(tracks, total));
        self.search_results.albums = None;
        self.search_results.artists = None;
        self.search_results.playlists = None;
        self.search_results.shows = None;
        self.view.search_selected_tracks_index = Some(0);
        self.view.search_hovered_block = SearchResultBlock::SongSearch;
        self.view.search_selected_block = SearchResultBlock::Empty;
    }

    /// Clears the table for a playlist. What is still on its way for the table before is no longer
    /// wanted.
    pub fn reset_playlist_tracks_view(
        &mut self,
        playlist_id: PlaylistId,
        context: TrackTableContext,
    )
        ensures
            final(self)@ == table_reset(old(self)@, playlist_id@, context),
    {
        self.playlist_tracks_prefetch_generation = bump_count(
            self.playlist_tracks_prefetch_generation,
        );
        self.playlist_tracks_prefetch_in_flight.clear();
        self.playlist_track_table_id = Some(playlist_id);
        self.active_playlist_track_filter = None;
        self.pending_playlist_track_search = None;
        self.playlist_track_pages.clear();
        self.playlist_tracks = None;
        self.playlist_offset = 0;
        self.pending_track_table_selection = None;
        self.view.track_table_index = 0;
        self.track_table.tracks.clear();
        self.track_table.context = Some(context);
        self.playlist_track_positions = None;
        assert(self.track_table.tracks.deep_view() =~= seq![]);
    }

    /// Whether the table is filtered.
    pub fn is_playlist_track_filter_active(&self) -> (active: bool)
        ensures
            active == (self@.active_playlist_track_filter is Some),
    {
        self.active_playlist_track_filter.is_some()
    }

    /// Takes the filter of the table away.
    pub fn clear_playlist_track_filter(&mut self)
        ensures
            final(self)@ == filter_cleared(old(self)@),
    {
        self.active_playlist_track_filter = None;
        self.pending_playlist_track_search = None;
        self.view.input_context = InputContext::GlobalSearch;
        if self.playlist_track_pages.pages.len() == 0 {
            self.track_table.tracks.clear();
            self.view.track_table_index = 0;
            self.playlist_track_positions = None;
            assert(self.track_table.tracks.deep_view() =~= seq![]);
            return;
        }
        self.set_playlist_tracks_to_table_continuous();
    }

    /// Shows the tracks of the Web API that match a filter, where the table shows the playlist that
    /// they are from.
    pub fn apply_playlist_track_search_results(
        &mut self,
        playlist_id: &PlaylistId,
        query: String,
        matches: Vec<(FullTrack, usize)>,
    ) -> (applied: bool)
        ensures
            applied == (shown_playlist(old(self)@) == Some(playlist_id@)),
            !applied ==> final(self)@ == old(self)@,
            applied ==> exists|sorted: Seq<(TrackView, usize)>|
                is_sorted_from(
                    matches_from_full(matches.deep_view()),
                    sorted,
                    old(self).playlist_sort,
                ) && final(self)@ == #[trigger] filtered(old(self)@, query@, sorted),
    {
        let mut infos: Vec<TrackMatch> = Vec::new();
        let mut i: usize = 0;
        while i < matches.len()
            invariant
                i <= matches@.len(),
                infos.deep_view() == matches_from_full(matches.deep_view()).take(i as int),
            decreases matches@.len() - i,
        {
            let ghost before = infos.deep_view();
            infos.push((TrackInfo::from_full_track(&matches[i].0), matches[i].1));
            assert(infos.deep_view() =~= before.push(
                matches_from_full(matches.deep_view())[i as int],
            ));
            i += 1;
        }
        assert(infos.deep_view() =~= matches_from_full(matches.deep_view()));
        self.apply_playlist_track_search_info_results(playlist_id, query, infos)
    }

    /// Shows the tracks that match a filter, sorted as the table is, where the table shows the
    /// playlist that they are from. Else nothing changes.
    pub fn apply_playlist_track_search_info_results(
        &mut self,
        playlist_id: &PlaylistId,
        query: String,
        matches: Vec<TrackMatch>,
    ) -> (applied: bool)
        ensures
            applied == (shown_playlist(old(self)@) == Some(playlist_id@)),
            !applied ==> final(self)@ == old(self)@,
            applied ==> exists|sorted: Seq<(TrackView, usize)>|
                is_sorted_from(matches.deep_view(), sorted, old(self).playlist_sort)
                    && final(self)@ == #[trigger] filtered(old(self)@, query@, sorted),
    {
        if !self.is_playlist_track_table_active_for(playlist_id) {
            return false;
        }
        let mut matches = matches;
        sort_playlist_track_matches(&mut matches, self.playlist_sort);
        let ghost sorted = matches.deep_view();
        let mut tracks: Vec<TrackInfo> = Vec::new();
        let mut places: Vec<usize> = Vec::new();
        let mut i: usize = 0;
        while i < matches.len()
            invariant
                i <= matches@.len(),
                sorted == matches.deep_view(),
                tracks.deep_view() == match_tracks(sorted).take(i as int),
                places@ == match_places(sorted).take(i as int),
            decreases matches@.len() - i,
        {
            let ghost before = tracks.deep_view();
            tracks.push(matches[i].0.clone());
            places.push(matches[i].1);
            assert(tracks.deep_view() =~= before.push(match_tracks(sorted)[i as int]));
            assert(places@ =~= match_places(sorted).take(i + 1));
            i += 1;
        }
        assert(tracks.deep_view() =~= match_tracks(sorted));
        assert(places.deep_view() =~= match_places(sorted));
        let ids = ids_of_tracks(&tracks);
        self.active_playlist_track_filter = Some(query);
        self.pending_playlist_track_search = None;
        self.view.track_table_index = 0;
        self.track_table.tracks = tracks;
        self.playlist_track_positions = Some(places);
        self.dispatch(IoEvent::CurrentUserSavedTracksContains(ids));
        assert(self@ == filtered(old(self)@, query@, sorted));
        true
    }

    /// Whether the table shows a playlist.
    pub fn is_playlist_track_table_context(&self) -> (shows: bool)
        ensures
            shows == table_shows_playlist(self@),
    {
        match self.track_table.context {
            Some(TrackTableContext::MyPlaylists) => true,
            Some(TrackTableContext::PlaylistSearch) => true,
            _ => false,
        }
    }

    /// The playlist that the table shows.
    pub fn current_playlist_track_table_id(&self) -> (id: Option<PlaylistId>)
        ensures
            id.deep_view() == shown_playlist(self@),
    {
        if self.is_playlist_track_table_context() {
            match &self.playlist_track_table_id {
                Some(id) => Some(id.clone()),
                None => None,
            }
        } else {
            None
        }
    }

    /// How many tracks the shown playlist has, as far as it is known.
    pub fn current_playlist_track_total(&self) -> (total: Option<u32>)
        ensures
            total == shown_total(self@),
    {
        if self.current_playlist_track_table_id().is_none() {
            return None;
        }
        match &self.playlist_tracks {
            Some(page) => Some(page.total),
            None => {
                if self.playlist_track_pages.pages.len() > 0 {
                    assert(self@.playlist_track_pages.pages[0]
                        == self.playlist_track_pages.pages@[0].deep_view());
                    Some(self.playlist_track_pages.pages[0].total)
                } else {
                    None
                }
            },
        }
    }

    /// Whether the table shows a certain playlist.
    pub fn is_playlist_track_table_active_for(&self, playlist_id: &PlaylistId) -> (shows: bool)
        ensures
            shows == (shown_playlist(self@) == Some(playlist_id@)),
    {
        match self.current_playlist_track_table_id() {
            Some(id) => text_is(id.id(), playlist_id.id()),
            None => false,
        }
    }

    /// Whether the table is on the screen and shows a certain playlist.
    pub fn is_current_route_playlist_track_table_for(&self, playlist_id: &PlaylistId) -> (shows:
        bool)
        ensures
            shows == (current_route(self@).id == RouteId::TrackTable && shown_playlist(self@)
                == Some(playlist_id@)),
    {
        self.get_current_route().id == RouteId::TrackTable
            && self.is_playlist_track_table_active_for(playlist_id)
    }

    /// Where the page behind a page starts, unless that page was fetched.
    pub fn next_missing_playlist_tracks_offset(&self, page_index: usize) -> (offset: Option<u32>)
        requires
            page_with_next(self@, page_index as int) matches Some(page) ==> offsets_in_range(page),
        ensures
            offset == next_missing_offset(self@, page_index as int),
    {
        match self.playlist_track_pages.get_results(page_index) {
            Some(page) => {
                if page.next.is_none() {
                    return None;
                }
                let next: u32 = page.offset + page.limit;
                match self.playlist_track_pages.page_index_for_offset(next) {
                    Some(_) => None,
                    None => Some(next),
                }
            },
            None => None,
        }
    }

    /// Where the page behind the current one starts.
    pub fn next_missing_playlist_tracks_offset_continuous(&self) -> (offset: Option<u32>)
        requires
            page_with_next(self@, self@.playlist_track_pages.index as int) matches Some(page)
                ==> offsets_in_range(page),
        ensures
            offset == offset_behind_current(self@),
    {
        match self.playlist_track_pages.get_results(self.playlist_track_pages.index) {
            Some(page) => {
                if page.next.is_none() {
                    return None;
                }
                Some(page.offset + page.limit)
            },
            None => None,
        }
    }

    /// Whether more tracks can be had for the table. A filtered table is complete.
    pub fn current_playlist_has_more_tracks(&self) -> (more: bool)
        ensures
            more == has_more_tracks(self@),
    {
        if self.is_playlist_track_filter_active() {
            return false;
        }
        match &self.playlist_tracks {
            Some(page) => page.next.is_some(),
            None => false,
        }
    }

    /// The place in the playlist of the selected track.
    pub fn selected_playlist_track_position(&self) -> (place: Option<usize>)
        ensures
            place == (match self@.playlist_track_positions {
                Some(places) => if self.view.track_table_index < places.len() {
                    Some(places[self.view.track_table_index as int])
                } else {
                    None
                },
                None => None,
            }),
    {
        match &self.playlist_track_positions {
            Some(places) => {
                assert(places.deep_view() =~= places@);
                if self.view.track_table_index < places.len() {
                    Some(places[self.view.track_table_index])
                } else {
                    None
                }
            },
            None => None,
        }
    }

    /// Asks for the tracks behind the shown ones: shows them, where they were fetched; else has them
    /// fetched, unless they are on their way.
    pub fn get_playlist_tracks_next(&mut self)
        requires
            has_more_tracks(old(self)@) && shown_playlist(old(self)@) is Some ==> (page_with_next(
                old(self)@,
                old(self)@.playlist_track_pages.index as int,
            ) matches Some(page) ==> offsets_in_range(page)),
        ensures
            final(self)@ == next_asked(old(self)@),
    {
        broadcast use vstd::std_specs::hash::group_hash_axioms;

        if self.is_playlist_track_filter_active() {
            return;
        }
        let playlist_id = match self.current_playlist_track_table_id() {
            Some(id) => id,
            None => {
                return;
            },
        };
        if !self.current_playlist_has_more_tracks() {
            return;
        }
        if let Some(next_offset) = self.next_missing_playlist_tracks_offset_continuous() {
            if self.playlist_track_pages.page_index_for_offset(next_offset).is_some() {
                self.set_playlist_tracks_to_table_continuous();
            } else if !self.playlist_tracks_prefetch_in_flight.contains(&next_offset) {
                self.playlist_tracks_prefetch_in_flight.insert(next_offset);
                self.dispatch(
                    IoEvent::GetPlaylistItems(playlist_id.id().to_owned(), next_offset),
                );
            }
        }
    }

    /// Shows sorted tracks of the Web API, where the table shows the playlist that they are from.
    pub fn apply_sorted_playlist_tracks_if_current(
        &mut self,
        playlist_id: &PlaylistId,
        tracks: Vec<FullTrack>,
    ) -> (applied: bool)
        ensures
            applied == (shown_playlist(old(self)@) == Some(playlist_id@)),
            final(self)@ == (if applied {
                sorted_shown(old(self)@, tracks_from_full(tracks.deep_view()))
            } else {
                old(self)@
            }),
    {
        let mut infos: Vec<TrackInfo> = Vec::new();
        let mut i: usize = 0;
        while i < tracks.len()
            invariant
                i <= tracks@.len(),
                infos.deep_view() == tracks_from_full(tracks.deep_view()).take(i as int),
            decreases tracks@.len() - i,
        {
            let ghost before = infos.deep_view();
            infos.push(TrackInfo::from_full_track(&tracks[i]));
            assert(infos.deep_view() =~= before.push(
                tracks_from_full(tracks.deep_view())[i as int],
            ));
            i += 1;
        }
        assert(infos.deep_view() =~= tracks_from_full(tracks.deep_view()));
        self.apply_sorted_playlist_track_infos_if_current(playlist_id, infos)
    }

    /// Shows sorted tracks, where the table shows the playlist that they are from. Else nothing
    /// changes.
    pub fn apply_sorted_playlist_track_infos_if_current(
        &mut self,
        playlist_id: &PlaylistId,
        tracks: Vec<TrackInfo>,
    ) -> (applied: bool)
        ensures
            applied == (shown_playlist(old(self)@) == Some(playlist_id@)),
            final(self)@ == (if applied {
                sorted_shown(old(self)@, tracks.deep_view())
            } else {
                old(self)@
            }),
    {
        if !self.is_playlist_track_table_active_for(playlist_id) {
            return false;
        }
        self.replace_track_table_tracks(tracks);
        self.view.track_table_index = 0;
        true
    }
}

/// The table stops at a gap: the pages it shows start at the beginning of the playlist, and each
/// starts where the one before it ends.
pub proof fn lemma_table_stops_at_gap(app: AppView)
    ensures
        without_gap(shown_pages(app.playlist_track_pages.pages), 0),
        shown_continuously(app).table_tracks == only_tracks(
            tracks_of_pages(shown_pages(app.playlist_track_pages.pages)),
        ),
{
    lemma_run_without_gap(app.playlist_track_pages.pages, 0, Set::empty());
}

/// Opening a playlist of another source leaves the pages of the playlist that were fetched alone.
pub proof fn lemma_source_playlist_leaves_pages(app: AppView, uri: Seq<char>)
    ensures
        source_playlist_opened(app, uri).playlist_track_pages == app.playlist_track_pages,
        source_playlist_opened(app, uri).playlist_tracks == app.playlist_tracks,
        source_playlist_opened(app, uri).playlist_track_table_id == app.playlist_track_table_id,
{
}

/// Every row of the table has its place in the playlist, whether the table is filtered or not.
pub proof fn lemma_rows_have_places(
    app: AppView,
    query: Seq<char>,
    matches: Seq<(TrackView, usize)>,
)
    ensures
        shown_continuously(app).playlist_track_positions matches Some(places) && places.len()
            == shown_continuously(app).table_tracks.len(),
        filtered(app, query, matches).playlist_track_positions matches Some(places)
            && places.len() == filtered(app, query, matches).table_tracks.len(),
{
}

/// The selected row is one of the table, however many tracks the table gets.
pub proof fn lemma_selected_row_in_table(app: AppView, tracks: Seq<TrackView>)
    requires
        tracks.len() <= usize::MAX,
    ensures
        with_table_tracks(app, tracks).view.track_table_index < tracks.len() || (tracks.len() == 0
            && with_table_tracks(app, tracks).view.track_table_index == 0),
        sorted_shown(app, tracks).view.track_table_index == 0,
{
}

/// However a table was filtered, without the filter it shows the pages that were fetched, as if it
/// had never been filtered.
pub proof fn lemma_clearing_restores_table(
    app: AppView,
    query: Seq<char>,
    matches: Seq<(TrackView, usize)>,
)
    ensures
        filter_cleared(filtered(app, query, matches)).table_tracks == filter_cleared(
            app,
        ).table_tracks,
        filter_cleared(filtered(app, query, matches)).playlist_track_positions == filter_cleared(
            app,
        ).playlist_track_positions,
        filter_cleared(filtered(app, query, matches)).playlist_track_pages == filter_cleared(
            app,
        ).playlist_track_pages,
        filter_cleared(filtered(app, query, matches)).active_playlist_track_filter is None,
{
}

/// Opening a playlist that is being opened asks for nothing more.
pub proof fn lemma_opening_twice_fetches_once(
    app: AppView,
    playlist_id: Seq<char>,
    context: TrackTableContext,
    again: TrackTableContext,
)
    ensures
        playlist_opened(playlist_opened(app, playlist_id, context), playlist_id, again)
            == playlist_opened(app, playlist_id, context),
{
}

/// The tracks behind the shown ones are fetched once: while they are on their way, asking for them
/// again changes nothing.
pub proof fn lemma_next_page_fetched_once(app: AppView)
    requires
        offset_behind_current(app) matches Some(offset) && !has_page_at(
            app.playlist_track_pages.pages,
            offset,
        ),
    ensures
        next_asked(next_asked(app)) == next_asked(app),
{
}

/// Clearing the table outdates every fetch that was started for the table before.
pub proof fn lemma_reset_outdates_fetches(
    app: AppView,
    playlist_id: Seq<char>,
    context: TrackTableContext,
)
    ensures
        table_reset(app, playlist_id, context).playlist_tracks_prefetch_generation
            != app.playlist_tracks_prefetch_generation,
{
}

/// The tracks of two runs of pages, one behind the other, are the tracks of the whole, and those of
/// one page are the tracks that it lists.
pub proof fn lemma_tracks_of_runs(
    left: Seq<PlaylistPageView>,
    right: Seq<PlaylistPageView>,
    page: PlaylistPageView,
)
    ensures
        tracks_of_pages(left + right) == tracks_of_pages(left) + tracks_of_pages(right),
        tracks_of_pages(seq![page]) == tracks_in(page.items),
        tracks_of_pages(seq![]).len() == 0,
    decreases right.len(),
{
    let one = seq![page];
    assert(one.drop_last() =~= seq![]);
    assert(tracks_of_pages(one.drop_last()) =~= seq![]);
    assert(tracks_of_pages(one) =~= tracks_in(page.items));
    if right.len() == 0 {
        assert(left + right =~= left);
        assert(tracks_of_pages(left) + tracks_of_pages(right) =~= tracks_of_pages(left));
    } else {
        lemma_tracks_of_runs(left, right.drop_last(), page);
        assert((left + right).drop_last() =~= left + right.drop_last());
        assert(tracks_of_pages(left + right) =~= tracks_of_pages(left) + tracks_of_pages(right));
    }
}

/// Each row of the table shows the next track of the pages without a gap, with its place in the
/// playlist; the service is asked which of these tracks are liked. The page that is current is the
/// last one of them.
pub proof fn lemma_table_shows_pages(app: AppView, row: int)
    requires
        0 <= row < tracks_of_pages(shown_pages(app.playlist_track_pages.pages)).len(),
    ensures
        ({
            let tracks = tracks_of_pages(shown_pages(app.playlist_track_pages.pages));
            let after = shown_continuously(app);
            &&& after.table_tracks.len() == tracks.len()
            &&& after.table_tracks[row] == tracks[row].1
            &&& after.playlist_track_positions matches Some(places)
            &&& places[row] == tracks[row].0
            &&& after.events == app.events.push(
                IoEventView::CurrentUserSavedTracksContains(track_ids(after.table_tracks)),
            )
            &&& after.playlist_tracks == last_page(shown_pages(app.playlist_track_pages.pages))
            &&& after.playlist_track_pages.pages == app.playlist_track_pages.pages
            &&& after.playlist_offset == 0
            &&& after.active_playlist_track_filter == app.active_playlist_track_filter
            &&& after.status == app.status
        }),
{
}

/// A table that is cleared for a playlist is empty and unfiltered, belongs to that playlist, and has
/// nothing selected, fetched or on its way.
pub proof fn lemma_cleared_table(
    app: AppView,
    playlist_id: Seq<char>,
    context: TrackTableContext,
)
    ensures
        ({
            let after = table_reset(app, playlist_id, context);
            &&& after.table_tracks.len() == 0
            &&& after.table_context == Some(context)
            &&& after.playlist_track_table_id == Some(playlist_id)
            &&& after.playlist_track_pages.pages.len() == 0
            &&& after.playlist_track_pages.index == 0
            &&& after.playlist_tracks is None
            &&& after.playlist_track_positions is None
            &&& after.playlist_offset == 0
            &&& after.active_playlist_track_filter is None
            &&& after.pending_playlist_track_search is None
            &&& after.pending_track_table_selection is None
            &&& after.view.track_table_index == 0
            &&& forall|offset: u32|
                !(#[trigger] after.playlist_tracks_prefetch_in_flight.contains(offset))
            &&& after.playlist_tracks_prefetch_generation
                != app.playlist_tracks_prefetch_generation
            &&& after.events == app.events
        }),
{
}

/// A playlist that is opened is shown at once, and its first page is asked for, and nothing else. One
/// that is being opened already is only shown.
pub proof fn lemma_playlist_is_opened(
    app: AppView,
    playlist_id: Seq<char>,
    context: TrackTableContext,
)
    ensures
        ({
            let after = playlist_opened(app, playlist_id, context);
            let busy = app.pending_playlist_open == Some(playlist_id);
            &&& current_route(after).id == RouteId::TrackTable
            &&& after.pending_playlist_open == Some(playlist_id)
            &&& !busy ==> {
                &&& after.events == app.events.push(IoEventView::GetPlaylistItems(playlist_id, 0))
                &&& after.status == Some(("Loading playlist…"@, 3u64))
                &&& after.table_tracks.len() == 0
                &&& after.playlist_track_table_id == Some(playlist_id)
                &&& after.table_context == Some(context)
                &&& after.playlist_tracks_prefetch_generation
                    != app.playlist_tracks_prefetch_generation
            }
            &&& busy ==> {
                &&& after.events == app.events
                &&& after.status == app.status
                &&& after.table_tracks == app.table_tracks
                &&& after.table_context == app.table_context
                &&& after.playlist_track_pages == app.playlist_track_pages
                &&& after.playlist_tracks_prefetch_generation
                    == app.playlist_tracks_prefetch_generation
            }
        }),
{
}

/// Which source a URI is fetched from is said by how it begins, whatever follows.
pub proof fn lemma_source_of_uri(rest: Seq<char>, uri: Seq<char>)
    ensures
        source_event("file:"@ + rest) == Some(
            (TrackTableContext::LocalPlaylist, IoEventView::GetLocalTracks("file:"@ + rest)),
        ),
        source_event("subsonic:"@ + rest) == Some(
            (
                TrackTableContext::SubsonicPlaylist,
                IoEventView::GetSubsonicTracks("subsonic:"@ + rest),
            ),
        ),
        source_event("youtube:playlist:"@ + rest) == Some(
            (
                TrackTableContext::YouTubePlaylist,
                IoEventView::GetYouTubeTracks("youtube:playlist:"@ + rest),
            ),
        ),
        source_event("qobuz:"@ + rest) == Some(
            (TrackTableContext::QobuzPlaylist, IoEventView::GetQobuzTracks("qobuz:"@ + rest)),
        ),
        uri.len() > 0 && uri[0] != 'f' && uri[0] != 's' && uri[0] != 'y' && uri[0] != 'q'
            ==> source_event(uri) is None,
{
    reveal_strlit("file:");
    reveal_strlit("subsonic:");
    reveal_strlit("youtube:playlist:");
    reveal_strlit("qobuz:");
    assert("file:"@[0] == 'f' && "subsonic:"@[0] == 's');
    assert("youtube:playlist:"@[0] == 'y' && "qobuz:"@[0] == 'q');
    lemma_prefix_taken_off("file:"@, rest);
    lemma_prefix_taken_off("subsonic:"@, rest);
    lemma_prefix_taken_off("youtube:playlist:"@, rest);
    lemma_prefix_taken_off("qobuz:"@, rest);
    lemma_first_char(uri, "file:"@);
    lemma_first_char(uri, "subsonic:"@);
    lemma_first_char(uri, "youtube:playlist:"@);
    lemma_first_char(uri, "qobuz:"@);
    lemma_first_char("subsonic:"@ + rest, "file:"@);
    lemma_first_char("youtube:playlist:"@ + rest, "file:"@);
    lemma_first_char("youtube:playlist:"@ + rest, "subsonic:"@);
    lemma_first_char("qobuz:"@ + rest, "file:"@);
    lemma_first_char("qobuz:"@ + rest, "subsonic:"@);
    lemma_first_char("qobuz:"@ + rest, "youtube:playlist:"@);
}

proof fn lemma_first_char(text: Seq<char>, prefix: Seq<char>)
    requires
        prefix.len() > 0,
    ensures
        has_prefix(text, prefix) ==> text.len() > 0 && text[0] == prefix[0],
{
    if has_prefix(text, prefix) {
        assert(text.subrange(0, prefix.len() as int)[0] == text[0]);
    }
}

/// A playlist of another source is opened by an empty table under the heading of the source, and one
/// thing is asked for. A URI that no source knows changes nothing.
pub proof fn lemma_source_playlist_is_opened(app: AppView, uri: Seq<char>)
    ensures
        ({
            let after = source_playlist_opened(app, uri);
            &&& source_event(uri) matches Some((context, event)) ==> {
                &&& after.events == app.events.push(event)
                &&& after.table_tracks.len() == 0
                &&& after.table_context == Some(context)
                &&& after.playlist_track_positions is None
                &&& current_route(after).id == RouteId::TrackTable
            }
            &&& source_event(uri) is None ==> after == app
        }),
{
}

/// What a source found takes the place of all results: the tracks are the only ones, all on one page,
/// and the first of them is selected.
pub proof fn lemma_found_tracks_are_shown(app: AppView, tracks: Seq<TrackView>)
    requires
        tracks.len() <= u32::MAX,
    ensures
        ({
            let after = source_tracks_found(app, tracks);
            &&& after.found_tracks matches Some(page)
            &&& page.items == tracks
            &&& page.total == tracks.len()
            &&& page.next is None
            &&& page.previous is None
            &&& page.offset == 0
            &&& page.limit == 0
            &&& after.found_albums is None
            &&& after.found_artists is None
            &&& after.found_playlists is None
            &&& after.found_shows is None
            &&& after.view.search_selected_tracks_index == Some(0usize)
            &&& after.view.search_hovered_block == SearchResultBlock::SongSearch
            &&& after.view.search_selected_block == SearchResultBlock::Empty
            &&& after.events == app.events
            &&& after.table_tracks == app.table_tracks
        }),
{
}

/// A filtered table shows the matches in order, each with its place in the playlist, from the first
/// row on; the service is asked which of them are liked. The pages that were fetched stay.
pub proof fn lemma_filtered_table(
    app: AppView,
    query: Seq<char>,
    matches: Seq<(TrackView, usize)>,
    row: int,
)
    requires
        0 <= row < matches.len(),
    ensures
        ({
            let after = filtered(app, query, matches);
            &&& after.table_tracks.len() == matches.len()
            &&& after.table_tracks[row] == matches[row].0
            &&& after.playlist_track_positions matches Some(places)
            &&& places[row] == matches[row].1
            &&& after.active_playlist_track_filter == Some(query)
            &&& after.pending_playlist_track_search is None
            &&& after.view.track_table_index == 0
            &&& after.events == app.events.push(
                IoEventView::CurrentUserSavedTracksContains(track_ids(after.table_tracks)),
            )
            &&& after.playlist_track_pages == app.playlist_track_pages
            &&& after.playlist_tracks == app.playlist_tracks
        }),
{
}

/// Without a filter the table shows what it showed before it was filtered: the pages that were
/// fetched, or nothing where there are none. Typed text is no longer for the filter.
pub proof fn lemma_filter_is_cleared(app: AppView)
    ensures
        ({
            let after = filter_cleared(app);
            &&& after.active_playlist_track_filter is None
            &&& after.pending_playlist_track_search is None
            &&& after.view.input_context == InputContext::GlobalSearch
            &&& app.playlist_track_pages.pages.len() == 0 ==> {
                &&& after.table_tracks.len() == 0
                &&& after.playlist_track_positions is None
                &&& after.view.track_table_index == 0
                &&& after.events == app.events
            }
            &&& app.playlist_track_pages.pages.len() > 0 ==> after.table_tracks
                == shown_continuously(app).table_tracks && after.playlist_track_positions
                == shown_continuously(app).playlist_track_positions
        }),
{
}

/// The table shows a playlist where it is headed as one of the user's or as one that a search found;
/// under any other heading it shows none, whichever it showed before.
pub proof fn lemma_heading_tells_playlist(app: AppView)
    ensures
        app.table_context == Some(TrackTableContext::MyPlaylists) || app.table_context == Some(
            TrackTableContext::PlaylistSearch,
        ) ==> shown_playlist(app) == app.playlist_track_table_id,
        app.table_context != Some(TrackTableContext::MyPlaylists) && app.table_context != Some(
            TrackTableContext::PlaylistSearch,
        ) ==> shown_playlist(app) is None,
{
}

/// How many tracks the shown playlist has is what its current page says, or else its first one.
pub proof fn lemma_total_of_shown_playlist(app: AppView)
    ensures
        shown_playlist(app) is None ==> shown_total(app) is None,
        shown_playlist(app) is Some ==> {
            &&& app.playlist_tracks matches Some(page) ==> shown_total(app) == Some(page.total)
            &&& app.playlist_tracks is None && app.playlist_track_pages.pages.len() > 0
                ==> shown_total(app) == Some(app.playlist_track_pages.pages[0].total)
            &&& app.playlist_tracks is None && app.playlist_track_pages.pages.len() == 0
                ==> shown_total(app) is None
        },
{
}

/// The page behind a page starts where its limit ends. It is missing where the page names a next one
/// and none was fetched that starts there.
pub proof fn lemma_missing_page(app: AppView, place: int)
    requires
        0 <= place < app.playlist_track_pages.pages.len(),
        app.playlist_track_pages.pages[place].offset + app.playlist_track_pages.pages[place].limit
            <= u32::MAX,
    ensures
        ({
            let page = app.playlist_track_pages.pages[place];
            let behind = (page.offset + page.limit) as u32;
            let fetched = exists|i: int|
                0 <= i < app.playlist_track_pages.pages.len() && (
                #[trigger] app.playlist_track_pages.pages[i]).offset == behind;
            &&& page.next is None ==> next_missing_offset(app, place) is None
            &&& page.next is Some && fetched ==> next_missing_offset(app, place) is None
            &&& page.next is Some && !fetched ==> next_missing_offset(app, place) == Some(behind)
            &&& place == app.playlist_track_pages.index ==> offset_behind_current(app) == (
            if page.next is Some {
                Some(behind)
            } else {
                None
            })
        }),
{
}

/// More tracks can be had where the current page names a next one and the table is not filtered.
pub proof fn lemma_more_tracks(app: AppView, page: PlaylistPageView)
    requires
        app.playlist_tracks == Some(page),
    ensures
        app.active_playlist_track_filter is Some ==> !has_more_tracks(app),
        app.active_playlist_track_filter is None ==> has_more_tracks(app) == page.next is Some,
        !has_more_tracks(AppView { playlist_tracks: None, ..app }),
{
}

/// The tracks behind the shown ones are shown where they were fetched; else they are asked for once,
/// for the shown playlist and from where they start. A table that is filtered, or that has no more
/// tracks, asks for nothing.
pub proof fn lemma_next_tracks_are_asked_for(
    app: AppView,
    playlist_id: Seq<char>,
    page: PlaylistPageView,
)
    requires
        shown_playlist(app) == Some(playlist_id),
        app.playlist_track_pages.index < app.playlist_track_pages.pages.len(),
        app.playlist_track_pages.pages[app.playlist_track_pages.index as int] == page,
        page.next is Some,
        page.offset + page.limit <= u32::MAX,
    ensures
        ({
            let behind = (page.offset + page.limit) as u32;
            let after = next_asked(app);
            let more = app.active_playlist_track_filter is None && app.playlist_tracks is Some
                && app.playlist_tracks->0.next is Some;
            let fetched = exists|i: int|
                0 <= i < app.playlist_track_pages.pages.len() && (
                #[trigger] app.playlist_track_pages.pages[i]).offset == behind;
            let coming = app.playlist_tracks_prefetch_in_flight.contains(behind);
            &&& !more ==> after == app
            &&& more && fetched ==> after == shown_continuously(app)
            &&& more && !fetched && coming ==> after == app
            &&& more && !fetched && !coming ==> {
                &&& after.events == app.events.push(
                    IoEventView::GetPlaylistItems(playlist_id, behind),
                )
                &&& after.playlist_tracks_prefetch_in_flight.contains(behind)
                &&& after.table_tracks == app.table_tracks
                &&& after.playlist_track_pages == app.playlist_track_pages
            }
        }),
{
}

/// Sorted tracks are shown as they stand, from the first row on.
pub proof fn lemma_sorted_tracks_are_shown(app: AppView, tracks: Seq<TrackView>)
    ensures
        sorted_shown(app, tracks).table_tracks == tracks,
        sorted_shown(app, tracks).view.track_table_index == 0,
        sorted_shown(app, tracks).events == app.events,
        sorted_shown(app, tracks).playlist_track_pages == app.playlist_track_pages,
{
}

/// Lists of the Web API are taken over thing by thing, each with its place.
pub proof fn lemma_lists_are_taken_over(
    tracks: Seq<FullTrackView>,
    matches: Seq<(FullTrackView, usize)>,
    i: int,
)
    ensures
        tracks_from_full(tracks).len() == tracks.len(),
        matches_from_full(matches).len() == matches.len(),
        0 <= i < tracks.len() ==> tracks_from_full(tracks)[i] == track_from_full(tracks[i]),
        0 <= i < matches.len() ==> matches_from_full(matches)[i].0 == track_from_full(matches[i].0)
            && matches_from_full(matches)[i].1 == matches[i].1,
{
}

/// Showing the pages that were fetched changes the table, its places and its selected row, and which
/// page is the current one; it asks for the likes, and changes nothing else.
pub proof fn lemma_only_shown_pages_change(app: AppView)
    requires
        shown_pages(app.playlist_track_pages.pages).len() <= usize::MAX,
    ensures
        ({
            let after = shown_continuously(app);
            let shown = shown_pages(app.playlist_track_pages.pages);
            &&& shown.len() > 0 ==> after.playlist_track_pages.index == shown.len() - 1
            &&& shown.len() == 0 ==> after.playlist_track_pages.index == 0
            &&& after.view == (ViewState {
                track_table_index: selected_row(
                    app.pending_track_table_selection,
                    app.view.track_table_index,
                    after.table_tracks.len(),
                ),
                ..app.view
            })
            &&& after == (AppView {
                playlist_track_pages: PagesView {
                    index: after.playlist_track_pages.index,
                    ..app.playlist_track_pages
                },
                playlist_tracks: after.playlist_tracks,
                playlist_offset: 0,
                table_tracks: after.table_tracks,
                playlist_track_positions: after.playlist_track_positions,
                pending_track_table_selection: None,
                view: after.view,
                events: after.events,
                ..app
            })
        }),
{
}

/// Clearing the table for a playlist, and opening a playlist, change what belongs to the table, and
/// nothing else: not what is listed, saved or liked.
pub proof fn lemma_only_table_is_cleared(
    app: AppView,
    playlist_id: Seq<char>,
    context: TrackTableContext,
)
    ensures
        ({
            let cleared = table_reset(app, playlist_id, context);
            let opened = playlist_opened(app, playlist_id, context);
            &&& cleared == (AppView {
                playlist_tracks_prefetch_generation: cleared.playlist_tracks_prefetch_generation,
                playlist_tracks_prefetch_in_flight: cleared.playlist_tracks_prefetch_in_flight,
                playlist_track_table_id: cleared.playlist_track_table_id,
                active_playlist_track_filter: None,
                pending_playlist_track_search: None,
                playlist_track_pages: cleared.playlist_track_pages,
                playlist_tracks: None,
                playlist_offset: 0,
                pending_track_table_selection: None,
                table_tracks: cleared.table_tracks,
                table_context: cleared.table_context,
                playlist_track_positions: None,
                view: ViewState { track_table_index: 0, ..app.view },
                ..app
            })
            &&& app.pending_playlist_open != Some(playlist_id) ==> opened == (AppView {
                pending_playlist_open: Some(playlist_id),
                navigation_stack: opened.navigation_stack,
                status: opened.status,
                events: opened.events,
                ..cleared
            })
            &&& app.pending_playlist_open == Some(playlist_id) ==> opened == (AppView {
                navigation_stack: opened.navigation_stack,
                ..app
            })
        }),
{
}

/// A filter, and taking it away, change what the table shows, and nothing else.
pub proof fn lemma_only_filter_changes(
    app: AppView,
    query: Seq<char>,
    matches: Seq<(TrackView, usize)>,
)
    ensures
        ({
            let after = filtered(app, query, matches);
            let cleared = filter_cleared(app);
            &&& after == (AppView {
                active_playlist_track_filter: Some(query),
                pending_playlist_track_search: None,
                view: ViewState { track_table_index: 0, ..app.view },
                table_tracks: after.table_tracks,
                playlist_track_positions: after.playlist_track_positions,
                events: after.events,
                ..app
            })
            &&& app.playlist_track_pages.pages.len() == 0 ==> cleared == (AppView {
                active_playlist_track_filter: None,
                pending_playlist_track_search: None,
                table_tracks: cleared.table_tracks,
                playlist_track_positions: None,
                view: ViewState {
                    input_context: InputContext::GlobalSearch,
                    track_table_index: 0,
                    ..app.view
                },
                ..app
            })
            &&& app.playlist_track_pages.pages.len() > 0 ==> {
                let shown = shown_continuously(app);
                &&& cleared == (AppView {
                    active_playlist_track_filter: None,
                    pending_playlist_track_search: None,
                    view: ViewState { input_context: InputContext::GlobalSearch, ..shown.view },
                    ..shown
                })
            }
        }),
{
}

/// What a source found changes the results of a search and what is selected in them; a playlist of a
/// source, what the table shows; sorted tracks, the table. Nothing else changes.
pub proof fn lemma_only_results_change(app: AppView, tracks: Seq<TrackView>, uri: Seq<char>)
    ensures
        ({
            let found = source_tracks_found(app, tracks);
            let opened = source_playlist_opened(app, uri);
            let sorted = sorted_shown(app, tracks);
            &&& found == (AppView {
                found_tracks: found.found_tracks,
                found_albums: None,
                found_artists: None,
                found_playlists: None,
                found_shows: None,
                view: ViewState {
                    search_selected_tracks_index: Some(0),
                    search_hovered_block: SearchResultBlock::SongSearch,
                    search_selected_block: SearchResultBlock::Empty,
                    ..app.view
                },
                ..app
            })
            &&& source_event(uri) is Some ==> opened == (AppView {
                table_tracks: opened.table_tracks,
                table_context: opened.table_context,
                playlist_track_positions: None,
                view: ViewState { track_table_index: 0, ..app.view },
                navigation_stack: opened.navigation_stack,
                events: opened.events,
                ..app
            })
            &&& sorted == (AppView {
                table_tracks: tracks,
                pending_track_table_selection: None,
                view: ViewState { track_table_index: 0, ..app.view },
                ..app
            })
        }),
{
}

/// Asking for the tracks behind the shown ones notes what is on its way and asks for it, and changes
/// nothing else, where they were not fetched.
pub proof fn lemma_only_request_is_noted(app: AppView, offset: u32)
    requires
        offset_behind_current(app) == Some(offset),
        !has_page_at(app.playlist_track_pages.pages, offset),
    ensures
        ({
            let after = next_asked(app);
            &&& after == (AppView {
                playlist_tracks_prefetch_in_flight: after.playlist_tracks_prefetch_in_flight,
                events: after.events,
                ..app
            })
            &&& forall|other: u32|
                other != offset ==> #[trigger] after.playlist_tracks_prefetch_in_flight.contains(
                    other,
                ) == app.playlist_tracks_prefetch_in_flight.contains(other)
            &&& shown_playlist(app) is None ==> after == app
        }),
{
}

} // verus!
