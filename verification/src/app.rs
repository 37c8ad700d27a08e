//! The state of the client, as far as playlists and the library are concerned, and the few things
//! that every part of it does: navigate, show a message, ask for something to be fetched.

use std::collections::HashSet;

use vstd::hash_set::StringHashSet;
use vstd::prelude::*;

use crate::domain::{
    ArtistRef, ArtistRefView, CollectionInfo, Paged, PagedView, PlaylistInfo, PlaylistPage,
    PlaylistPageView, PlaylistView, PlayableInfo, PlayableView, TrackInfo, TrackView,
};
use crate::errors::{error_text, RequestError, RequestErrorView};
use crate::folders::{FolderItemView, NodeView, PlaylistFolderItem, PlaylistFolderNode};
use crate::ids::{PendingIds, PlaylistId};
use crate::pages::{PagesView, ScrollableResultPages};
use crate::sorting::{SortField, SortOrder, SortState};
use crate::text::optional_text_is;

verus! {

/// What the screen shows.
#[derive(Clone, Copy, PartialEq, Eq, Structural, Debug)]
pub enum RouteId {
    Home,
    Search,
    TrackTable,
    CommunityPinPrompt,
    Error,
}

/// Which part of the screen keys go to.
#[derive(Clone, Copy, PartialEq, Eq, Structural, Debug)]
pub enum ActiveBlock {
    Empty,
    Library,
    SearchResultBlock,
    TrackTable,
    CommunityPinPrompt,
    Error,
}

/// A screen that was opened.
#[derive(Clone, Copy, PartialEq, Eq, Structural, Debug)]
pub struct Route {
    pub id: RouteId,
    pub active_block: ActiveBlock,
    pub hovered_block: ActiveBlock,
}

/// The screen that is shown where none was opened.
pub open spec fn home() -> Route {
    Route {
        id: RouteId::Home,
        active_block: ActiveBlock::Empty,
        hovered_block: ActiveBlock::Library,
    }
}

/// Where the tracks in the table come from.
#[derive(Clone, Copy, PartialEq, Eq, Structural, Debug)]
pub enum TrackTableContext {
    MyPlaylists,
    PlaylistSearch,
    AlbumSearch,
    SavedTracks,
    LocalPlaylist,
    SubsonicPlaylist,
    YouTubePlaylist,
    QobuzPlaylist,
}

/// Which list of search results has the focus.
#[derive(Clone, Copy, PartialEq, Eq, Structural, Debug)]
pub enum SearchResultBlock {
    Empty,
    SongSearch,
    AlbumSearch,
    ArtistSearch,
    PlaylistSearch,
    ShowSearch,
}

/// What typed text is for.
#[derive(Clone, Copy, PartialEq, Eq, Structural, Debug)]
pub enum InputContext {
    GlobalSearch,
    PlaylistTrackSearch,
}

/// The row that is to be selected once the tracks it is among are there.
#[derive(Clone, Copy, PartialEq, Eq, Structural, Debug)]
pub enum PendingTrackSelection {
    First,
    Last,
    Index(usize),
}

/// Where music comes from.
#[derive(Clone, Copy, PartialEq, Eq, Structural, Debug)]
pub enum Source {
    Spotify,
    Local,
    Subsonic,
    YouTube,
    Qobuz,
    Radio,
}

/// The lists that plugins are told of.
#[derive(Clone, Copy, PartialEq, Eq, Structural, Debug)]
pub enum PluginDataKind {
    Playlists,
    SavedTracks,
    SavedAlbums,
    SavedShows,
}

/// How often each list that plugins are told of has changed.
#[derive(Clone, Copy, PartialEq, Eq, Structural, Debug)]
pub struct PluginDataGenerations {
    pub playlists: u64,
    pub saved_tracks: u64,
    pub saved_albums: u64,
    pub saved_shows: u64,
}

/// A counter after one more change; past its end it starts again.
pub open spec fn bumped(count: u64) -> u64 {
    if count == u64::MAX {
        0
    } else {
        (count + 1) as u64
    }
}

/// A counter after one more change.
pub fn bump_count(count: u64) -> (next: u64)
    ensures
        next == bumped(count),
{
    count.wrapping_add(1)
}

impl PluginDataGenerations {
    /// The counts after one more change of a list.
    pub open spec fn after_change(self, kind: PluginDataKind) -> Self {
        match kind {
            PluginDataKind::Playlists => PluginDataGenerations {
                playlists: bumped(self.playlists),
                ..self
            },
            PluginDataKind::SavedTracks => PluginDataGenerations {
                saved_tracks: bumped(self.saved_tracks),
                ..self
            },
            PluginDataKind::SavedAlbums => PluginDataGenerations {
                saved_albums: bumped(self.saved_albums),
                ..self
            },
            PluginDataKind::SavedShows => PluginDataGenerations {
                saved_shows: bumped(self.saved_shows),
                ..self
            },
        }
    }

    /// Counts one more change of a list.
    pub fn bump(&mut self, kind: PluginDataKind)
        ensures
            *final(self) == old(self).after_change(kind),
    {
        match kind {
            PluginDataKind::Playlists => {
                self.playlists = bump_count(self.playlists);
            },
            PluginDataKind::SavedTracks => {
                self.saved_tracks = bump_count(self.saved_tracks);
            },
            PluginDataKind::SavedAlbums => {
                self.saved_albums = bump_count(self.saved_albums);
            },
            PluginDataKind::SavedShows => {
                self.saved_shows = bump_count(self.saved_shows);
            },
        }
    }
}

/// Something that is to be fetched.
#[derive(Debug, PartialEq, Eq)]
pub enum IoEvent {
    GetPlaylists,
    GetPlaylistItems(String, u32),
    CurrentUserSavedTracksContains(Vec<String>),
    GetLocalTracks(String),
    GetSubsonicTracks(String),
    GetYouTubeTracks(String),
    GetQobuzTracks(String),
}

/// What an [`IoEvent`] stands for.
pub enum IoEventView {
    GetPlaylists,
    GetPlaylistItems(Seq<char>, u32),
    CurrentUserSavedTracksContains(Seq<Seq<char>>),
    GetLocalTracks(Seq<char>),
    GetSubsonicTracks(Seq<char>),
    GetYouTubeTracks(Seq<char>),
    GetQobuzTracks(Seq<char>),
}

impl DeepView for IoEvent {
    type V = IoEventView;

    open spec fn deep_view(&self) -> IoEventView {
        match self {
            IoEvent::GetPlaylists => IoEventView::GetPlaylists,
            IoEvent::GetPlaylistItems(id, offset) => IoEventView::GetPlaylistItems(id@, *offset),
            IoEvent::CurrentUserSavedTracksContains(
                ids,
            ) => IoEventView::CurrentUserSavedTracksContains(ids.deep_view()),
            IoEvent::GetLocalTracks(uri) => IoEventView::GetLocalTracks(uri@),
            IoEvent::GetSubsonicTracks(uri) => IoEventView::GetSubsonicTracks(uri@),
            IoEvent::GetYouTubeTracks(uri) => IoEventView::GetYouTubeTracks(uri@),
            IoEvent::GetQobuzTracks(uri) => IoEventView::GetQobuzTracks(uri@),
        }
    }
}

/// A message at the edge of the screen, and for how many seconds it is shown.
#[derive(Debug, PartialEq, Eq)]
pub struct StatusMessage {
    pub text: String,
    pub seconds: u64,
}

/// The table of tracks.
pub struct TrackTable {
    pub tracks: Vec<TrackInfo>,
    pub context: Option<TrackTableContext>,
}

/// What was found by a search.
pub struct SearchResults {
    pub tracks: Option<Paged<TrackInfo>>,
    pub albums: Option<Paged<CollectionInfo>>,
    pub artists: Option<Paged<ArtistRef>>,
    pub playlists: Option<Paged<PlaylistInfo>>,
    pub shows: Option<Paged<CollectionInfo>>,
}

/// What is selected on the screen.
pub struct ViewState {
    pub track_table_index: usize,
    pub input_context: InputContext,
    pub search_selected_tracks_index: Option<usize>,
    pub search_hovered_block: SearchResultBlock,
    pub search_selected_block: SearchResultBlock,
    pub selected_playlist_index: Option<usize>,
}

/// The lists that the user has saved.
pub struct Library {
    pub saved_tracks: ScrollableResultPages<TrackInfo>,
    pub saved_albums: ScrollableResultPages<CollectionInfo>,
    pub saved_shows: ScrollableResultPages<CollectionInfo>,
}

/// The user.
#[derive(Debug, PartialEq, Eq)]
pub struct UserInfo {
    pub id: String,
}

/// How the client behaves.
#[derive(Clone, Copy, PartialEq, Eq, Structural, Debug)]
pub struct BehaviorConfig {
    pub pin_community_playlist: bool,
    pub group_folders_first: bool,
}

/// What the user has set.
#[derive(Clone, Copy, PartialEq, Eq, Structural, Debug)]
pub struct UserConfig {
    pub behavior: BehaviorConfig,
}

/// What the client remembers from one start to the next.
#[derive(Clone, Copy, PartialEq, Eq, Structural, Debug)]
pub struct RuntimeState {
    pub community_pin_prompt_shown: bool,
}

/// The state of the client.
pub struct App {
    pub playlist_track_pages: ScrollableResultPages<(u32, PlayableInfo)>,
    pub playlist_tracks: Option<PlaylistPage>,
    pub playlist_offset: u32,
    pub playlist_track_positions: Option<Vec<usize>>,
    pub playlist_track_table_id: Option<PlaylistId>,
    pub playlist_tracks_prefetch_generation: u64,
    pub playlist_tracks_prefetch_in_flight: HashSet<u32>,
    pub playlist_sort: SortState,
    pub playlist_sort_fetch_in_flight: StringHashSet,
    pub active_playlist_track_filter: Option<String>,
    pub pending_playlist_track_search: Option<String>,
    pub pending_playlist_open: Option<String>,
    pub pending_track_table_selection: Option<PendingTrackSelection>,
    pub track_table: TrackTable,
    pub view: ViewState,
    pub search_results: SearchResults,
    pub navigation_stack: Vec<Route>,
    pub status_message: Option<StatusMessage>,
    pub api_error: String,
    /// What is to be fetched, in the order in which it was asked for.
    pub events: Vec<IoEvent>,
    pub all_playlists: Vec<PlaylistInfo>,
    pub playlists: Option<Paged<PlaylistInfo>>,
    pub playlist_folder_nodes: Option<Vec<PlaylistFolderNode>>,
    pub playlist_folder_items: Vec<PlaylistFolderItem>,
    pub current_playlist_folder_id: usize,
    pub playlist_refresh_generation: u64,
    pub plugin_data_generations: PluginDataGenerations,
    pub library: Library,
    pub saved_tracks_prefetch_generation: u64,
    pub saved_tracks_prefetch_in_flight: HashSet<u32>,
    pub liked_song_ids_set: StringHashSet,
    pub saved_album_ids_set: StringHashSet,
    pub saved_show_ids_set: StringHashSet,
    pub liked_lookup_pending: PendingIds,
    pub liked_lookup_worker_running: bool,
    pub liked_state_epoch: u64,
    pub user: Option<UserInfo>,
    pub active_source: Source,
    pub runtime_state: RuntimeState,
    pub user_config: UserConfig,
    pub community_playlist_id: String,
    pub is_loading: bool,
    pub auth_refresh_in_progress: bool,
    /// When the access token expires, in seconds since the epoch.
    pub spotify_token_expiry: Option<u64>,
}

/// What an [`App`] stands for.
pub struct AppView {
    pub playlist_track_pages: PagesView<(u32, PlayableView)>,
    pub playlist_tracks: Option<PlaylistPageView>,
    pub playlist_offset: u32,
    pub playlist_track_positions: Option<Seq<usize>>,
    pub playlist_track_table_id: Option<Seq<char>>,
    pub playlist_tracks_prefetch_generation: u64,
    pub playlist_tracks_prefetch_in_flight: Set<u32>,
    pub playlist_sort: SortState,
    pub playlist_sort_fetch_in_flight: Set<Seq<char>>,
    pub active_playlist_track_filter: Option<Seq<char>>,
    pub pending_playlist_track_search: Option<Seq<char>>,
    pub pending_playlist_open: Option<Seq<char>>,
    pub pending_track_table_selection: Option<PendingTrackSelection>,
    pub table_tracks: Seq<TrackView>,
    pub table_context: Option<TrackTableContext>,
    pub view: ViewState,
    pub found_tracks: Option<PagedView<TrackView>>,
    pub found_albums: Option<PagedView<ArtistRefView>>,
    pub found_artists: Option<PagedView<ArtistRefView>>,
    pub found_playlists: Option<PagedView<PlaylistView>>,
    pub found_shows: Option<PagedView<ArtistRefView>>,
    pub navigation_stack: Seq<Route>,
    pub status: Option<(Seq<char>, u64)>,
    pub api_error: Seq<char>,
    pub events: Seq<IoEventView>,
    pub all_playlists: Seq<PlaylistView>,
    pub playlists: Option<PagedView<PlaylistView>>,
    pub playlist_folder_nodes: Option<Seq<NodeView>>,
    pub playlist_folder_items: Seq<FolderItemView>,
    pub current_playlist_folder_id: usize,
    pub playlist_refresh_generation: u64,
    pub plugin_data_generations: PluginDataGenerations,
    pub saved_tracks: PagesView<TrackView>,
    pub saved_albums: PagesView<ArtistRefView>,
    pub saved_shows: PagesView<ArtistRefView>,
    pub saved_tracks_prefetch_generation: u64,
    pub saved_tracks_prefetch_in_flight: Set<u32>,
    pub liked_song_ids: Set<Seq<char>>,
    pub saved_album_ids: Set<Seq<char>>,
    pub saved_show_ids: Set<Seq<char>>,
    pub liked_lookup_pending: Seq<Seq<char>>,
    pub liked_lookup_worker_running: bool,
    pub liked_state_epoch: u64,
    pub user_id: Option<Seq<char>>,
    pub active_source: Source,
    pub runtime_state: RuntimeState,
    pub user_config: UserConfig,
    pub community_playlist_id: Seq<char>,
    pub is_loading: bool,
    pub auth_refresh_in_progress: bool,
    pub spotify_token_expiry: Option<u64>,
}

impl View for App {
    type V = AppView;

    open spec fn view(&self) -> AppView {
        AppView {
            playlist_track_pages: self.playlist_track_pages.deep_view(),
            playlist_tracks: self.playlist_tracks.deep_view(),
            playlist_offset: self.playlist_offset,
            playlist_track_positions: self.playlist_track_positions.deep_view(),
            playlist_track_table_id: self.playlist_track_table_id.deep_view(),
            playlist_tracks_prefetch_generation: self.playlist_tracks_prefetch_generation,
            playlist_tracks_prefetch_in_flight: self.playlist_tracks_prefetch_in_flight@,
            playlist_sort: self.playlist_sort,
            playlist_sort_fetch_in_flight: self.playlist_sort_fetch_in_flight@,
            active_playlist_track_filter: self.active_playlist_track_filter.deep_view(),
            pending_playlist_track_search: self.pending_playlist_track_search.deep_view(),
            pending_playlist_open: self.pending_playlist_open.deep_view(),
            pending_track_table_selection: self.pending_track_table_selection,
            table_tracks: self.track_table.tracks.deep_view(),
            table_context: self.track_table.context,
            view: self.view,
            found_tracks: self.search_results.tracks.deep_view(),
            found_albums: self.search_results.albums.deep_view(),
            found_artists: self.search_results.artists.deep_view(),
            found_playlists: self.search_results.playlists.deep_view(),
            found_shows: self.search_results.shows.deep_view(),
            navigation_stack: self.navigation_stack@,
            status: match self.status_message {
                Some(message) => Some((message.text@, message.seconds)),
                None => None,
            },
            api_error: self.api_error@,
            events: self.events.deep_view(),
            all_playlists: self.all_playlists.deep_view(),
            playlists: self.playlists.deep_view(),
            playlist_folder_nodes: self.playlist_folder_nodes.deep_view(),
            playlist_folder_items: self.playlist_folder_items.deep_view(),
            current_playlist_folder_id: self.current_playlist_folder_id,
            playlist_refresh_generation: self.playlist_refresh_generation,
            plugin_data_generations: self.plugin_data_generations,
            saved_tracks: self.library.saved_tracks.deep_view(),
            saved_albums: self.library.saved_albums.deep_view(),
            saved_shows: self.library.saved_shows.deep_view(),
            saved_tracks_prefetch_generation: self.saved_tracks_prefetch_generation,
            saved_tracks_prefetch_in_flight: self.saved_tracks_prefetch_in_flight@,
            liked_song_ids: self.liked_song_ids_set@,
            saved_album_ids: self.saved_album_ids_set@,
            saved_show_ids: self.saved_show_ids_set@,
            liked_lookup_pending: self.liked_lookup_pending@,
            liked_lookup_worker_running: self.liked_lookup_worker_running,
            liked_state_epoch: self.liked_state_epoch,
            user_id: match self.user {
                Some(user) => Some(user.id@),
                None => None,
            },
            active_source: self.active_source,
            runtime_state: self.runtime_state,
            user_config: self.user_config,
            community_playlist_id: self.community_playlist_id@,
            is_loading: self.is_loading,
            auth_refresh_in_progress: self.auth_refresh_in_progress,
            spotify_token_expiry: self.spotify_token_expiry,
        }
    }
}

/// The state, with something more to be fetched.
pub open spec fn dispatched(app: AppView, event: IoEventView) -> AppView {
    AppView { events: app.events.push(event), ..app }
}

/// The screen that is shown.
pub open spec fn current_route(app: AppView) -> Route {
    if app.navigation_stack.len() > 0 {
        app.navigation_stack.last()
    } else {
        home()
    }
}

/// The state, with a screen opened. A screen that is opened already is not opened again.
pub open spec fn navigated(app: AppView, id: RouteId, block: ActiveBlock) -> AppView {
    if app.navigation_stack.len() > 0 && app.navigation_stack.last().id == id {
        app
    } else {
        AppView {
            navigation_stack: app.navigation_stack.push(
                Route { id, active_block: block, hovered_block: block },
            ),
            ..app
        }
    }
}

/// The state, with a message shown.
pub open spec fn with_status(app: AppView, text: Seq<char>, seconds: u64) -> AppView {
    AppView { status: Some((text, seconds)), ..app }
}

/// The state, with an error shown.
pub open spec fn with_error(app: AppView, error: RequestErrorView) -> AppView {
    AppView {
        api_error: error_text(error),
        ..navigated(app, RouteId::Error, ActiveBlock::Error)
    }
}

/// The last row of a table with so many tracks; the first one, where it has none.
pub open spec fn last_row(count: nat) -> usize {
    if count == 0 {
        0
    } else {
        (count - 1) as usize
    }
}

/// The row that is selected in a table with so many tracks.
pub open spec fn selected_row(
    pending: Option<PendingTrackSelection>,
    current: usize,
    count: nat,
) -> usize {
    let wanted = match pending {
        Some(PendingTrackSelection::First) => 0,
        Some(PendingTrackSelection::Last) => last_row(count),
        Some(PendingTrackSelection::Index(index)) => index,
        None => current,
    };
    if wanted < last_row(count) {
        wanted
    } else {
        last_row(count)
    }
}

/// The state, with other tracks in the table. The row that was to be selected is; else the selected
/// row stays, as far as there is one.
pub open spec fn with_table_tracks(app: AppView, tracks: Seq<TrackView>) -> AppView {
    AppView {
        table_tracks: tracks,
        pending_track_table_selection: None,
        view: ViewState {
            track_table_index: selected_row(
                app.pending_track_table_selection,
                app.view.track_table_index,
                tracks.len(),
            ),
            ..app.view
        },
        ..app
    }
}

/// The state, with tracks of another source shown in the table.
pub open spec fn with_source_tracks(
    app: AppView,
    tracks: Seq<TrackView>,
    context: TrackTableContext,
) -> AppView {
    navigated(
        AppView {
            table_tracks: tracks,
            table_context: Some(context),
            playlist_track_positions: None,
            view: ViewState { track_table_index: 0, ..app.view },
            ..app
        },
        RouteId::TrackTable,
        ActiveBlock::TrackTable,
    )
}

/// The user follows the community playlist.
pub open spec fn follows_community(app: AppView) -> bool {
    exists|i: int|
        0 <= i < app.all_playlists.len() && (#[trigger] app.all_playlists[i]).id == Some(
            app.community_playlist_id,
        )
}

/// The state of a client that has just started.
pub open spec fn fresh_app() -> AppView {
    AppView {
        playlist_track_pages: PagesView { index: 0, pages: seq![] },
        playlist_tracks: None,
        playlist_offset: 0,
        playlist_track_positions: None,
        playlist_track_table_id: None,
        playlist_tracks_prefetch_generation: 0,
        playlist_tracks_prefetch_in_flight: Set::empty(),
        playlist_sort: SortState { field: SortField::Default, order: SortOrder::Ascending },
        playlist_sort_fetch_in_flight: Set::empty(),
        active_playlist_track_filter: None,
        pending_playlist_track_search: None,
        pending_playlist_open: None,
        pending_track_table_selection: None,
        table_tracks: seq![],
        table_context: None,
        view: ViewState {
            track_table_index: 0,
            input_context: InputContext::GlobalSearch,
            search_selected_tracks_index: None,
            search_hovered_block: SearchResultBlock::SongSearch,
            search_selected_block: SearchResultBlock::Empty,
            selected_playlist_index: None,
        },
        found_tracks: None,
        found_albums: None,
        found_artists: None,
        found_playlists: None,
        found_shows: None,
        navigation_stack: seq![home()],
        status: None,
        api_error: seq![],
        events: seq![],
        all_playlists: seq![],
        playlists: None,
        playlist_folder_nodes: None,
        playlist_folder_items: seq![],
        current_playlist_folder_id: 0,
        playlist_refresh_generation: 0,
        plugin_data_generations: PluginDataGenerations {
            playlists: 0,
            saved_tracks: 0,
            saved_albums: 0,
            saved_shows: 0,
        },
        saved_tracks: PagesView { index: 0, pages: seq![] },
        saved_albums: PagesView { index: 0, pages: seq![] },
        saved_shows: PagesView { index: 0, pages: seq![] },
        saved_tracks_prefetch_generation: 0,
        saved_tracks_prefetch_in_flight: Set::empty(),
        liked_song_ids: Set::empty(),
        saved_album_ids: Set::empty(),
        saved_show_ids: Set::empty(),
        liked_lookup_pending: seq![],
        liked_lookup_worker_running: false,
        liked_state_epoch: 0,
        user_id: None,
        active_source: Source::Spotify,
        runtime_state: RuntimeState { community_pin_prompt_shown: false },
        user_config: UserConfig {
            behavior: BehaviorConfig { pin_community_playlist: true, group_folders_first: false },
        },
        community_playlist_id: seq![],
        is_loading: false,
        auth_refresh_in_progress: false,
        spotify_token_expiry: None,
    }
}

impl Default for App {
    fn default() -> (app: Self)
        ensures
            app@ == fresh_app(),
    {
        let mut navigation_stack: Vec<Route> = Vec::new();
        navigation_stack.push(
            Route {
                id: RouteId::Home,
                active_block: ActiveBlock::Empty,
                hovered_block: ActiveBlock::Library,
            },
        );
        let app = App {
            playlist_track_pages: ScrollableResultPages::new(),
            playlist_tracks: None,
            playlist_offset: 0,
            playlist_track_positions: None,
            playlist_track_table_id: None,
            playlist_tracks_prefetch_generation: 0,
            playlist_tracks_prefetch_in_flight: HashSet::new(),
            playlist_sort: SortState { field: SortField::Default, order: SortOrder::Ascending },
            playlist_sort_fetch_in_flight: StringHashSet::new(),
            active_playlist_track_filter: None,
            pending_playlist_track_search: None,
            pending_playlist_open: None,
            pending_track_table_selection: None,
            track_table: TrackTable { tracks: Vec::new(), context: None },
            view: ViewState {
                track_table_index: 0,
                input_context: InputContext::GlobalSearch,
                search_selected_tracks_index: None,
                search_hovered_block: SearchResultBlock::SongSearch,
                search_selected_block: SearchResultBlock::Empty,
                selected_playlist_index: None,
            },
            search_results: SearchResults {
                tracks: None,
                albums: None,
                artists: None,
                playlists: None,
                shows: None,
            },
            navigation_stack,
            status_message: None,
            api_error: String::new(),
            events: Vec::new(),
            all_playlists: Vec::new(),
            playlists: None,
            playlist_folder_nodes: None,
            playlist_folder_items: Vec::new(),
            current_playlist_folder_id: 0,
            playlist_refresh_generation: 0,
            plugin_data_generations: PluginDataGenerations {
                playlists: 0,
                saved_tracks: 0,
                saved_albums: 0,
                saved_shows: 0,
            },
            library: Library {
                saved_tracks: ScrollableResultPages::new(),
                saved_albums: ScrollableResultPages::new(),
                saved_shows: ScrollableResultPages::new(),
            },
            saved_tracks_prefetch_generation: 0,
            saved_tracks_prefetch_in_flight: HashSet::new(),
            liked_song_ids_set: StringHashSet::new(),
            saved_album_ids_set: StringHashSet::new(),
            saved_show_ids_set: StringHashSet::new(),
            liked_lookup_pending: PendingIds::new(),
            liked_lookup_worker_running: false,
            liked_state_epoch: 0,
            user: None,
            active_source: Source::Spotify,
            runtime_state: RuntimeState { community_pin_prompt_shown: false },
            user_config: UserConfig {
                behavior: BehaviorConfig {
                    pin_community_playlist: true,
                    group_folders_first: false,
                },
            },
            community_playlist_id: String::new(),
            is_loading: false,
            auth_refresh_in_progress: false,
            spotify_token_expiry: None,
        };
        assert(app@.table_tracks =~= seq![]);
        assert(app@.navigation_stack =~= seq![home()]);
        assert(app@.api_error =~= seq![]);
        assert(app@.events =~= seq![]);
        assert(app@.all_playlists =~= seq![]);
        assert(app@.playlist_folder_items =~= seq![]);
        assert(app@.community_playlist_id =~= seq![]);
        app
    }
}

impl App {
    /// Asks for something to be fetched.
    pub fn dispatch(&mut self, event: IoEvent)
        ensures
            final(self)@ == dispatched(old(self)@, event.deep_view()),
    {
        let ghost before = self.events.deep_view();
        self.events.push(event);
        assert(self.events.deep_view() =~= before.push(event.deep_view()));
    }

    /// The screen that is shown.
    pub fn get_current_route(&self) -> (route: Route)
        ensures
            route == current_route(self@),
    {
        if self.navigation_stack.len() > 0 {
            self.navigation_stack[self.navigation_stack.len() - 1]
        } else {
            Route {
                id: RouteId::Home,
                active_block: ActiveBlock::Empty,
                hovered_block: ActiveBlock::Library,
            }
        }
    }

    /// Opens a screen, unless it is the one that is shown.
    pub fn push_navigation_stack(&mut self, id: RouteId, block: ActiveBlock)
        ensures
            final(self)@ == navigated(old(self)@, id, block),
    {
        let shown = self.navigation_stack.len() > 0
            && self.navigation_stack[self.navigation_stack.len() - 1].id == id;
        if !shown {
            self.navigation_stack.push(Route { id, active_block: block, hovered_block: block });
        }
    }

    /// Shows a message for some seconds.
    pub fn set_status_message(&mut self, text: String, seconds: u64)
        ensures
            final(self)@ == with_status(old(self)@, text@, seconds),
    {
        self.status_message = Some(StatusMessage { text, seconds });
    }

    /// Shows an error.
    pub fn handle_error(&mut self, error: RequestError)
        ensures
            final(self)@ == with_error(old(self)@, error@),
    {
        self.push_navigation_stack(RouteId::Error, ActiveBlock::Error);
        self.api_error = error.text();
    }

    /// Puts other tracks in the table.
    pub fn replace_track_table_tracks(&mut self, tracks: Vec<TrackInfo>)
        ensures
            final(self)@ == with_table_tracks(old(self)@, tracks.deep_view()),
    {
        let last: usize = if tracks.len() == 0 {
            0
        } else {
            tracks.len() - 1
        };
        let wanted: usize = match self.pending_track_table_selection {
            Some(PendingTrackSelection::First) => 0,
            Some(PendingTrackSelection::Last) => last,
            Some(PendingTrackSelection::Index(index)) => index,
            None => self.view.track_table_index,
        };
        self.pending_track_table_selection = None;
        self.track_table.tracks = tracks;
        self.view.track_table_index = if wanted < last {
            wanted
        } else {
            last
        };
    }

    /// Shows tracks of another source in the table.
    pub fn show_tracks_in_table(&mut self, tracks: Vec<TrackInfo>, context: TrackTableContext)
        ensures
            final(self)@ == with_source_tracks(old(self)@, tracks.deep_view(), context),
    {
        self.track_table.tracks = tracks;
        self.track_table.context = Some(context);
        self.playlist_track_positions = None;
        self.view.track_table_index = 0;
        self.push_navigation_stack(RouteId::TrackTable, ActiveBlock::TrackTable);
    }

    /// Whether the user follows the community playlist.
    pub fn follows_community_playlist(&self) -> (follows: bool)
        ensures
            follows == follows_community(self@),
    {
        let mut i: usize = 0;
        while i < self.all_playlists.len()
            invariant
                i <= self.all_playlists@.len(),
                forall|k: int|
                    0 <= k < i ==> (#[trigger] self@.all_playlists[k]).id != Some(
                        self.community_playlist_id@,
                    ),
            decreases self.all_playlists@.len() - i,
        {
            assert(self@.all_playlists[i as int] == self.all_playlists@[i as int].deep_view());
            if optional_text_is(&self.all_playlists[i].id, self.community_playlist_id.as_str()) {
                return true;
            }
            i += 1;
        }
        false
    }

    /// Remembers that the prompt on the community playlist was shown.
    pub fn mark_community_pin_prompt_shown(&mut self)
        ensures
            final(self)@ == (AppView {
                runtime_state: RuntimeState { community_pin_prompt_shown: true },
                ..old(self)@
            }),
    {
        self.runtime_state.community_pin_prompt_shown = true;
    }

    /// Takes notice of a token that was looked at for a call: when it expires.
    pub fn note_token_expiry(&mut self, expiry: u64)
        ensures
            final(self)@ == (AppView {
                spotify_token_expiry: Some(expiry),
                auth_refresh_in_progress: false,
                ..old(self)@
            }),
    {
        self.spotify_token_expiry = Some(expiry);
        self.auth_refresh_in_progress = false;
    }

    /// Takes notice of a token that could not be had for a call.
    pub fn note_refresh_failure(&mut self)
        ensures
            final(self)@ == (AppView {
                auth_refresh_in_progress: false,
                is_loading: false,
                ..old(self)@
            }),
    {
        self.auth_refresh_in_progress = false;
        self.is_loading = false;
    }
}

/// A counter moves on with every change, so that what was noted before it is outdated.
pub proof fn lemma_counters_move_on(count: u64)
    ensures
        bumped(count) != count,
        count < u64::MAX ==> bumped(count) == count + 1,
{
}

/// A change of one list that plugins are told of moves its counter on, and no other.
pub proof fn lemma_one_counter_moves(counts: PluginDataGenerations, kind: PluginDataKind)
    ensures
        ({
            let after = counts.after_change(kind);
            &&& (after.playlists != counts.playlists) == (kind == PluginDataKind::Playlists)
            &&& (after.saved_tracks != counts.saved_tracks) == (kind == PluginDataKind::SavedTracks)
            &&& (after.saved_albums != counts.saved_albums) == (kind == PluginDataKind::SavedAlbums)
            &&& (after.saved_shows != counts.saved_shows) == (kind == PluginDataKind::SavedShows)
        }),
{
}

/// The screen that is opened is shown, with the keys going to its block; those below it stay. Opening
/// it again changes nothing.
pub proof fn lemma_screen_is_shown(app: AppView, id: RouteId, block: ActiveBlock)
    ensures
        ({
            let after = navigated(app, id, block);
            &&& current_route(after).id == id
            &&& app.navigation_stack.len() == 0 || app.navigation_stack.last().id != id ==> {
                &&& after.navigation_stack.drop_last() == app.navigation_stack
                &&& after.navigation_stack.len() == app.navigation_stack.len() + 1
                &&& current_route(after).active_block == block
                &&& current_route(after).hovered_block == block
            }
            &&& app.navigation_stack.len() > 0 && app.navigation_stack.last().id == id
                ==> after.navigation_stack == app.navigation_stack
            &&& after == (AppView { navigation_stack: after.navigation_stack, ..app })
            &&& navigated(after, id, block) == after
        }),
{
    let after = navigated(app, id, block);
    if app.navigation_stack.len() == 0 || app.navigation_stack.last().id != id {
        assert(after.navigation_stack.drop_last() =~= app.navigation_stack);
    }
}

/// An error is shown by its text on a screen of its own; nothing else changes.
pub proof fn lemma_error_is_shown(app: AppView, error: RequestErrorView)
    ensures
        ({
            let after = with_error(app, error);
            &&& after.api_error == error_text(error)
            &&& current_route(after).id == RouteId::Error
            &&& after == (AppView {
                api_error: after.api_error,
                navigation_stack: after.navigation_stack,
                ..app
            })
        }),
{
}

/// What is asked for is asked for last, and what was asked for before it stays.
pub proof fn lemma_asked_for_last(app: AppView, event: IoEventView)
    ensures
        dispatched(app, event).events.len() == app.events.len() + 1,
        dispatched(app, event).events.last() == event,
        dispatched(app, event).events.drop_last() == app.events,
        dispatched(app, event) == (AppView { events: dispatched(app, event).events, ..app }),
{
    assert(dispatched(app, event).events.drop_last() =~= app.events);
}

/// Of a table with tracks, the row that was to be selected is selected: the first one, the last one,
/// or the one with a number. Where none was, the selected row stays. A row that the table does not
/// have gives way to the last one.
pub proof fn lemma_wanted_row_is_selected(current: usize, index: usize, count: nat)
    requires
        0 < count <= usize::MAX,
    ensures
        selected_row(Some(PendingTrackSelection::First), current, count) == 0,
        selected_row(Some(PendingTrackSelection::Last), current, count) == count - 1,
        index < count ==> selected_row(
            Some(PendingTrackSelection::Index(index)),
            current,
            count,
        ) == index,
        index >= count ==> selected_row(
            Some(PendingTrackSelection::Index(index)),
            current,
            count,
        ) == count - 1,
        current < count ==> selected_row(None, current, count) == current,
        current >= count ==> selected_row(None, current, count) == count - 1,
{
}

/// A table with other tracks shows these; the row that was to be selected is not to be selected again.
pub proof fn lemma_table_shows_tracks(app: AppView, tracks: Seq<TrackView>)
    ensures
        with_table_tracks(app, tracks).table_tracks == tracks,
        with_table_tracks(app, tracks).pending_track_table_selection is None,
        with_table_tracks(app, tracks).events == app.events,
        with_table_tracks(app, tracks).table_context == app.table_context,
        with_table_tracks(app, tracks).playlist_track_positions == app.playlist_track_positions,
{
}

/// Tracks of another source are shown in the table from the first row on, under a heading of their
/// own. They have no places in a playlist.
pub proof fn lemma_source_tracks_are_shown(
    app: AppView,
    tracks: Seq<TrackView>,
    context: TrackTableContext,
)
    ensures
        ({
            let after = with_source_tracks(app, tracks, context);
            &&& after.table_tracks == tracks
            &&& after.table_context == Some(context)
            &&& after.playlist_track_positions is None
            &&& after.view.track_table_index == 0
            &&& current_route(after).id == RouteId::TrackTable
            &&& after.events == app.events
        }),
{
}

/// Other tracks in the table change the table and the row that is selected in it, and nothing else.
pub proof fn lemma_only_table_changes(
    app: AppView,
    tracks: Seq<TrackView>,
    context: TrackTableContext,
)
    ensures
        ({
            let after = with_table_tracks(app, tracks);
            let other = with_source_tracks(app, tracks, context);
            &&& after.view == (ViewState {
                track_table_index: selected_row(
                    app.pending_track_table_selection,
                    app.view.track_table_index,
                    tracks.len(),
                ),
                ..app.view
            })
            &&& after == (AppView {
                table_tracks: tracks,
                pending_track_table_selection: None,
                view: after.view,
                ..app
            })
            &&& other == (AppView {
                table_tracks: tracks,
                table_context: Some(context),
                playlist_track_positions: None,
                view: ViewState { track_table_index: 0, ..app.view },
                navigation_stack: other.navigation_stack,
                ..app
            })
        }),
{
}

/// A message changes nothing else, and neither does it stay behind another one.
pub proof fn lemma_message_is_shown(
    app: AppView,
    text: Seq<char>,
    seconds: u64,
    earlier: Seq<char>,
    longer: u64,
)
    ensures
        with_status(app, text, seconds).status == Some((text, seconds)),
        with_status(with_status(app, earlier, longer), text, seconds) == with_status(
            app,
            text,
            seconds,
        ),
        with_status(app, text, seconds) == (AppView { status: Some((text, seconds)), ..app }),
{
}

/// The screen that is shown is the one that was opened last; where none was, it is the first one.
pub proof fn lemma_last_screen_is_shown(app: AppView, below: Seq<Route>, route: Route)
    ensures
        app.navigation_stack == below.push(route) ==> current_route(app) == route,
        app.navigation_stack.len() == 0 ==> current_route(app).id == RouteId::Home
            && current_route(app).active_block == ActiveBlock::Empty
            && current_route(app).hovered_block == ActiveBlock::Library,
{
}

/// The user follows the community playlist where it is one of theirs.
pub proof fn lemma_following_the_community(app: AppView, i: int)
    ensures
        0 <= i < app.all_playlists.len() && app.all_playlists[i].id == Some(
            app.community_playlist_id,
        ) ==> follows_community(app),
        (forall|k: int|
            0 <= k < app.all_playlists.len() ==> (#[trigger] app.all_playlists[k]).id != Some(
                app.community_playlist_id,
            )) ==> !follows_community(app),
{
}

/// A client that has just started shows its first screen and lists nothing; it has nothing fetched,
/// nothing on its way and nothing to be asked for.
pub proof fn lemma_fresh_start()
    ensures
        ({
            let app = fresh_app();
            &&& current_route(app).id == RouteId::Home
            &&& app.table_tracks.len() == 0
            &&& app.all_playlists.len() == 0
            &&& app.playlist_folder_items.len() == 0
            &&& app.playlist_track_pages.pages.len() == 0
            &&& app.saved_tracks.pages.len() == 0
            &&& app.events.len() == 0
            &&& app.status is None
            &&& app.playlist_sort.field == SortField::Default
            &&& !app.liked_lookup_worker_running
            &&& app.pending_playlist_open is None
            &&& app.active_playlist_track_filter is None
            &&& app.active_source == Source::Spotify
            &&& app.user_config.behavior.pin_community_playlist
            &&& !app.user_config.behavior.group_folders_first
            &&& !app.runtime_state.community_pin_prompt_shown
        }),
{
}

} // verus!
