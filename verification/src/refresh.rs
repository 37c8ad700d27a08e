//! A refresh of the user's playlists. The first page is shown at once; the others, and the folders,
//! follow in the background and replace the list when it is complete.

use vstd::prelude::*;

use crate::app::{
    bump_count, bumped, current_route, follows_community, navigated, with_error, with_status,
    ActiveBlock, App, AppView, PluginDataKind, RouteId, RuntimeState, Source, ViewState,
};
use crate::domain::{clone_playlists, Paged, PagedView, PlaylistInfo, PlaylistView};
use crate::errors::RequestError;
use crate::folders::{
    build_flat_playlist_items, flat_rows, lemma_every_playlist_has_a_row, root_row, shows_playlist,
    structured_rows, structurize_playlist_folders, FolderItemView, NodeView, PlaylistFolderNode,
};
use crate::sidebar::{
    display_rows, folder_rows, has_row, lemma_only_selection_changes, lemma_playlist_stays_selected,
    reconcile_playlist_selection, reconciled, row_has_id, selected_playlist, selection, shows_pin,
    Selection, SelectionView,
};
use crate::text::optional_text_is;

verus! {

/// How many playlists a page has.
pub const PLAYLIST_PAGE_LIMIT: u32 = 50;

/// How often a page is asked for again.
pub const PAGE_RETRIES: u8 = 2;

/// A refresh under way.
pub struct PlaylistRefresh {
    pub playlists: Vec<PlaylistInfo>,
    pub has_more: bool,
    pub offset: u32,
    pub attempts: u8,
    pub generation: u64,
    pub original: Selection,
    pub page_one: Selection,
}

/// What a [`PlaylistRefresh`] stands for.
pub struct RefreshState {
    pub playlists: Seq<PlaylistView>,
    pub has_more: bool,
    pub offset: u32,
    pub attempts: u8,
    pub generation: u64,
    pub original: SelectionView,
    pub page_one: SelectionView,
}

impl View for PlaylistRefresh {
    type V = RefreshState;

    open spec fn view(&self) -> RefreshState {
        RefreshState {
            playlists: self.playlists.deep_view(),
            has_more: self.has_more,
            offset: self.offset,
            attempts: self.attempts,
            generation: self.generation,
            original: self.original@,
            page_one: self.page_one@,
        }
    }
}

/// One of the playlists has the id.
pub open spec fn lists_id(playlists: Seq<PlaylistView>, id: Seq<char>) -> bool {
    exists|i: int| 0 <= i < playlists.len() && (#[trigger] playlists[i]).id == Some(id)
}

/// Whether one of the playlists has the id.
fn playlists_have(playlists: &Vec<PlaylistInfo>, id: &str) -> (found: bool)
    ensures
        found == lists_id(playlists.deep_view(), id@),
{
    let mut i: usize = 0;
    while i < playlists.len()
        invariant
            i <= playlists@.len(),
            forall|k: int|
                0 <= k < i ==> (#[trigger] playlists.deep_view()[k]).id != Some(id@),
        decreases playlists@.len() - i,
    {
        assert(playlists.deep_view()[i as int] == playlists@[i as int].deep_view());
        if optional_text_is(&playlists[i].id, id) {
            return true;
        }
        i += 1;
    }
    false
}

/// A page that is not the last one: it names a next one and is not empty.
pub open spec fn has_more_behind(page: PagedView<PlaylistView>) -> bool {
    page.next is Some && page.items.len() > 0
}

/// The first page replaces the list that is shown: there is none, nothing in it is selected, or what
/// is selected is on the page. Else the list stays, so that the selection does.
pub open spec fn first_page_is_shown(
    app: AppView,
    original: SelectionView,
    page: PagedView<PlaylistView>,
) -> bool {
    app.all_playlists.len() == 0 || (match original.playlist_id {
        Some(id) => lists_id(page.items, id),
        None => true,
    })
}

/// The state, with playlists listed without folders and the selection restored.
pub open spec fn listed_flat(
    app: AppView,
    playlists: Seq<PlaylistView>,
    preferred: SelectionView,
) -> AppView {
    reconciled(
        AppView {
            all_playlists: playlists,
            plugin_data_generations: app.plugin_data_generations.after_change(
                PluginDataKind::Playlists,
            ),
            playlist_folder_items: flat_rows(playlists.len()),
            ..app
        },
        preferred.playlist_id,
        preferred.folder_id,
        preferred.row,
    )
}

/// The state, with the first page of a refresh published.
pub open spec fn first_published(
    app: AppView,
    original: SelectionView,
    page: PagedView<PlaylistView>,
) -> AppView {
    let begun = AppView {
        playlist_refresh_generation: bumped(app.playlist_refresh_generation),
        playlists: Some(page),
        ..app
    };
    if first_page_is_shown(app, original, page) {
        listed_flat(begun, page.items, original)
    } else {
        begun
    }
}

impl App {
    /// Publishes the first page of a refresh, and begins to fetch the rest. `original` is what was
    /// selected before the page was asked for.
    pub fn publish_first_playlists(&mut self, original: Selection, page: Paged<PlaylistInfo>) -> (
    refresh: PlaylistRefresh)
        ensures
            final(self)@ == first_published(old(self)@, original@, page.deep_view()),
            refresh@ == (RefreshState {
                playlists: page.deep_view().items,
                has_more: has_more_behind(page.deep_view()),
                offset: PLAYLIST_PAGE_LIMIT,
                attempts: 0,
                generation: final(self)@.playlist_refresh_generation,
                original: original@,
                page_one: selection(final(self)@),
            }),
            refresh@.offset == 50,
    {
        let has_more = page.next.is_some() && page.items.len() > 0;
        let had_previous = self.all_playlists.len() > 0;
        let first_items = clone_playlists(&page.items);
        let on_page = match &original.playlist_id {
            Some(id) => playlists_have(&first_items, id.as_str()),
            None => true,
        };
        self.playlist_refresh_generation = bump_count(self.playlist_refresh_generation);
        self.playlists = Some(page);
        if !had_previous || on_page {
            let rows = build_flat_playlist_items(&first_items);
            self.all_playlists = clone_playlists(&first_items);
            self.plugin_data_generations.bump(PluginDataKind::Playlists);
            self.playlist_folder_items = rows;
            reconcile_playlist_selection(
                self,
                &original.playlist_id,
                original.folder_id,
                original.row,
            );
        }
        let page_one = self.playlist_selection();
        PlaylistRefresh {
            playlists: first_items,
            has_more,
            offset: PLAYLIST_PAGE_LIMIT,
            attempts: 0,
            generation: self.playlist_refresh_generation,
            original,
            page_one,
        }
    }

    /// Shows why the first page of a refresh could not be had.
    pub fn playlists_fetch_failed(&mut self, error: RequestError)
        ensures
            final(self)@ == with_error(
                AppView { pending_playlist_track_search: None, ..old(self)@ },
                error@,
            ),
    {
        self.pending_playlist_track_search = None;
        self.handle_error(error);
    }
}

/// What a refresh does next.
#[derive(Clone, Copy, PartialEq, Eq, Structural, Debug)]
pub enum RefreshAction {
    /// Fetch the page at an offset.
    FetchPage { offset: u32 },
    /// Fetch the folders and publish the list.
    FetchFolders,
    /// Nothing: a newer refresh has begun.
    Abandon,
}

impl PlaylistRefresh {
    /// What the refresh does next.
    pub fn next_action(&self, app: &App) -> (action: RefreshAction)
        ensures
            action == (if !self@.has_more {
                RefreshAction::FetchFolders
            } else if app@.playlist_refresh_generation != self@.generation {
                RefreshAction::Abandon
            } else {
                RefreshAction::FetchPage { offset: self@.offset }
            }),
    {
        if !self.has_more {
            RefreshAction::FetchFolders
        } else if app.playlist_refresh_generation != self.generation {
            RefreshAction::Abandon
        } else {
            RefreshAction::FetchPage { offset: self.offset }
        }
    }

    /// Takes a page in. An empty page, and one without a next one, is the last.
    pub fn page_fetched(&mut self, page: Paged<PlaylistInfo>)
        requires
            has_more_behind(page.deep_view()) ==> old(self)@.offset + PLAYLIST_PAGE_LIMIT
                <= u32::MAX,
        ensures
            final(self)@ == (if has_more_behind(page.deep_view()) {
                RefreshState {
                    playlists: old(self)@.playlists + page.deep_view().items,
                    has_more: true,
                    offset: (old(self)@.offset + PLAYLIST_PAGE_LIMIT) as u32,
                    attempts: 0,
                    ..old(self)@
                }
            } else {
                RefreshState {
                    playlists: old(self)@.playlists + page.deep_view().items,
                    has_more: false,
                    attempts: 0,
                    ..old(self)@
                }
            }),
            has_more_behind(page.deep_view()) ==> final(self)@.offset == old(self)@.offset + 50,
    {
        let more = page.next.is_some() && page.items.len() > 0;
        let ghost before = self.playlists.deep_view();
        let mut items = page.items;
        let ghost added = items.deep_view();
        self.playlists.append(&mut items);
        assert(self.playlists.deep_view() =~= before + added);
        self.attempts = 0;
        if more {
            self.offset = self.offset + PLAYLIST_PAGE_LIMIT;
        }
        self.has_more = more;
    }

    /// Takes the failure of a page in: the milliseconds after which it is asked for again, or nothing
    /// where it was asked for often enough.
    pub fn page_failed(&mut self) -> (wait: Option<u64>)
        ensures
            final(self)@ == (if old(self)@.attempts < PAGE_RETRIES {
                RefreshState { attempts: (old(self)@.attempts + 1) as u8, ..old(self)@ }
            } else {
                old(self)@
            }),
            wait == (if old(self)@.attempts < PAGE_RETRIES {
                Some((250 * (old(self)@.attempts + 1)) as u64)
            } else {
                None
            }),
            old(self)@.attempts == 0 ==> wait == Some(250u64),
            old(self)@.attempts == 1 ==> wait == Some(500u64),
            old(self)@.attempts >= 2 ==> wait is None,
    {
        if self.attempts < PAGE_RETRIES {
            self.attempts = self.attempts + 1;
            Some(250 * self.attempts as u64)
        } else {
            None
        }
    }
}

/// The state, with word that a page of a refresh did not come. The list stays as the first page left
/// it, with its folders, its rows and what is selected. Nothing of a newer refresh is touched.
pub open spec fn refresh_given_up(app: AppView, refresh: RefreshState) -> AppView {
    if app.playlist_refresh_generation != refresh.generation {
        app
    } else {
        with_status(app, "Playlist refresh incomplete; kept the previous list."@, 8)
    }
}

/// What is to be selected when a refresh is complete: what was selected before it, unless the user
/// has since selected something else.
pub open spec fn preferred_selection(app: AppView, refresh: RefreshState) -> SelectionView {
    if selection(app) == refresh.page_one {
        refresh.original
    } else {
        selection(app)
    }
}

/// The rows of the sidebar for playlists, with the folders that are known.
pub open spec fn rows_for(nodes: Option<Seq<NodeView>>, playlists: Seq<PlaylistView>) -> Seq<
    FolderItemView,
> {
    match nodes {
        Some(nodes) => structured_rows(nodes, playlists),
        None => flat_rows(playlists.len()),
    }
}

/// The state, with the complete list of a refresh and its rows in place.
pub open spec fn refresh_listed(
    app: AppView,
    refresh: RefreshState,
    nodes: Option<Seq<NodeView>>,
) -> AppView {
    AppView {
        all_playlists: refresh.playlists,
        plugin_data_generations: app.plugin_data_generations.after_change(
            PluginDataKind::Playlists,
        ),
        playlist_folder_nodes: nodes,
        playlist_folder_items: rows_for(nodes, refresh.playlists),
        ..app
    }
}

/// The state, with the complete list of a refresh published. Nothing of a newer refresh is touched.
pub open spec fn refresh_published(
    app: AppView,
    refresh: RefreshState,
    nodes: Option<Seq<NodeView>>,
) -> AppView {
    if app.playlist_refresh_generation != refresh.generation {
        app
    } else {
        let preferred = preferred_selection(app, refresh);
        pin_prompted(
            reconciled(
                refresh_listed(app, refresh, nodes),
                preferred.playlist_id,
                preferred.folder_id,
                preferred.row,
            ),
        )
    }
}

/// The prompt on the pinned community playlist is due.
pub open spec fn pin_prompt_due(app: AppView) -> bool {
    &&& app.active_source == Source::Spotify
    &&& !app.runtime_state.community_pin_prompt_shown
    &&& app.user_config.behavior.pin_community_playlist
    &&& !follows_community(app)
    &&& current_route(app).id != RouteId::CommunityPinPrompt
}

/// The state, with the prompt on the pinned community playlist shown where it is due.
pub open spec fn pin_prompted(app: AppView) -> AppView {
    if pin_prompt_due(app) {
        navigated(
            AppView {
                runtime_state: RuntimeState { community_pin_prompt_shown: true },
                ..app
            },
            RouteId::CommunityPinPrompt,
            ActiveBlock::CommunityPinPrompt,
        )
    } else {
        app
    }
}

/// Shows the prompt on the pinned community playlist where it is due. It counts as shown from then
/// on, however it is closed.
pub fn maybe_prompt_community_pin(app: &mut App)
    ensures
        final(app)@ == pin_prompted(old(app)@),
{
    if app.active_source == Source::Spotify && !app.runtime_state.community_pin_prompt_shown
        && app.user_config.behavior.pin_community_playlist && !app.follows_community_playlist()
        && app.get_current_route().id != RouteId::CommunityPinPrompt {
        app.mark_community_pin_prompt_shown();
        app.push_navigation_stack(RouteId::CommunityPinPrompt, ActiveBlock::CommunityPinPrompt);
    }
}

impl App {
    /// Ends a refresh of which a page did not come: the list that is shown stays.
    pub fn give_up_playlist_refresh(&mut self, refresh: PlaylistRefresh)
        ensures
            final(self)@ == refresh_given_up(old(self)@, refresh@),
    {
        if self.playlist_refresh_generation == refresh.generation {
            self.set_status_message(
                "Playlist refresh incomplete; kept the previous list.".to_owned(),
                8,
            );
        }
    }

    /// Publishes the complete list of a refresh, with the folders that are known.
    pub fn publish_playlists(
        &mut self,
        refresh: PlaylistRefresh,
        nodes: Option<Vec<PlaylistFolderNode>>,
    )
        ensures
            final(self)@ == refresh_published(old(self)@, refresh@, nodes.deep_view()),
    {
        let rows = match &nodes {
            Some(nodes) => structurize_playlist_folders(nodes, &refresh.playlists),
            None => build_flat_playlist_items(&refresh.playlists),
        };
        if self.playlist_refresh_generation != refresh.generation {
            return;
        }
        let current = self.playlist_selection();
        let preferred = if current.same_as(&refresh.page_one) {
            refresh.original
        } else {
            current
        };
        self.all_playlists = refresh.playlists;
        self.plugin_data_generations.bump(PluginDataKind::Playlists);
        self.playlist_folder_nodes = nodes;
        self.playlist_folder_items = rows;
        reconcile_playlist_selection(
            self,
            &preferred.playlist_id,
            preferred.folder_id,
            preferred.row,
        );
        maybe_prompt_community_pin(self);
    }
}

/// The prompt on the pinned community playlist is shown at most once.
pub proof fn lemma_pin_prompt_shown_once(app: AppView)
    ensures
        pin_prompted(pin_prompted(app)) == pin_prompted(app),
        app.runtime_state.community_pin_prompt_shown ==> pin_prompted(app) == app,
        pin_prompt_due(app) ==> pin_prompted(app).runtime_state.community_pin_prompt_shown
            && current_route(pin_prompted(app)).id == RouteId::CommunityPinPrompt,
{
}

/// A refresh that was overtaken by a newer one leaves everything as it is.
pub proof fn lemma_overtaken_refresh_is_void(
    app: AppView,
    refresh: RefreshState,
    nodes: Option<Seq<NodeView>>,
    original: SelectionView,
    page: PagedView<PlaylistView>,
)
    requires
        app.playlist_refresh_generation == refresh.generation,
    ensures
        ({
            let newer = first_published(app, original, page);
            &&& refresh_published(newer, refresh, nodes) == newer
            &&& refresh_given_up(newer, refresh) == newer
        }),
{
    lemma_reconcile_keeps_lists(
        AppView {
            playlist_refresh_generation: bumped(app.playlist_refresh_generation),
            playlists: Some(page),
            all_playlists: page.items,
            plugin_data_generations: app.plugin_data_generations.after_change(
                PluginDataKind::Playlists,
            ),
            playlist_folder_items: flat_rows(page.items.len()),
            ..app
        },
        original,
    );
}

#[verifier::rlimit(30)]
proof fn lemma_reconcile_keeps_lists(app: AppView, preferred: SelectionView)
    ensures
        ({
            let after = reconciled(
                app,
                preferred.playlist_id,
                preferred.folder_id,
                preferred.row,
            );
            &&& after.all_playlists == app.all_playlists
            &&& after.playlist_folder_items == app.playlist_folder_items
            &&& after.playlist_folder_nodes == app.playlist_folder_nodes
            &&& after.playlist_refresh_generation == app.playlist_refresh_generation
            &&& after.navigation_stack == app.navigation_stack
            &&& after.api_error == app.api_error
        }),
{
}

proof fn lemma_given_up_keeps_list(app: AppView, refresh: RefreshState)
    ensures
        ({
            let after = refresh_given_up(app, refresh);
            &&& after.all_playlists == app.all_playlists
            &&& after.playlist_folder_nodes == app.playlist_folder_nodes
            &&& after.playlist_folder_items == app.playlist_folder_items
            &&& after.navigation_stack == app.navigation_stack
            &&& after.api_error == app.api_error
            &&& selection(after) == selection(app)
        }),
{
    let after = refresh_given_up(app, refresh);
    assert(after.view == app.view);
    assert(folder_rows(after) == folder_rows(app));
    assert(shows_pin(after) == shows_pin(app));
    assert(display_rows(after) == display_rows(app));
    assert(selected_playlist(after) == selected_playlist(app));
}

/// A refresh that fails on the way keeps what it has published: the list, the folders, the rows and
/// what is selected stay as the first page left them, and no error is shown in their place. The list
/// is the first page, or the one before it where the first page was not shown.
pub proof fn lemma_failed_refresh_keeps_list(
    app: AppView,
    original: SelectionView,
    page: PagedView<PlaylistView>,
    refresh: RefreshState,
)
    ensures
        ({
            let shown = first_published(app, original, page);
            let after = refresh_given_up(shown, refresh);
            &&& after.all_playlists == shown.all_playlists
            &&& after.all_playlists == (if first_page_is_shown(app, original, page) {
                page.items
            } else {
                app.all_playlists
            })
            &&& after.playlist_folder_nodes == shown.playlist_folder_nodes
            &&& after.playlist_folder_items == shown.playlist_folder_items
            &&& selection(after) == selection(shown)
            &&& after.navigation_stack == app.navigation_stack
            &&& after.api_error == app.api_error
        }),
{
    lemma_given_up_keeps_list(first_published(app, original, page), refresh);
    lemma_reconcile_keeps_lists(
        AppView {
            playlist_refresh_generation: bumped(app.playlist_refresh_generation),
            playlists: Some(page),
            all_playlists: page.items,
            plugin_data_generations: app.plugin_data_generations.after_change(
                PluginDataKind::Playlists,
            ),
            playlist_folder_items: flat_rows(page.items.len()),
            ..app
        },
        original,
    );
}

proof fn lemma_listed_playlist_has_row(
    app: AppView,
    nodes: Option<Seq<NodeView>>,
    id: Seq<char>,
)
    requires
        app.playlist_folder_items == rows_for(nodes, app.all_playlists),
        lists_id(app.all_playlists, id),
        app.all_playlists.len() <= usize::MAX,
    ensures
        has_row(app, id),
{
    let playlists = app.all_playlists;
    let rows = app.playlist_folder_items;
    let index = choose|i: int| 0 <= i < playlists.len() && (#[trigger] playlists[i]).id == Some(id);
    match nodes {
        Some(nodes) => {
            lemma_every_playlist_has_a_row(nodes, playlists, index);
        },
        None => {
            assert(rows[index] == root_row(index));
        },
    }
    assert(shows_playlist(rows, index));
    let place = choose|i: int|
        0 <= i < rows.len() && (#[trigger] rows[i] matches FolderItemView::Playlist {
            index: shown,
            ..
        } && shown == index);
    assert(row_has_id(rows[place], playlists, id));
}

proof fn lemma_prompt_keeps_selection(app: AppView)
    ensures
        selected_playlist(pin_prompted(app)) == selected_playlist(app),
{
    let shown = pin_prompted(app);
    assert(shown.all_playlists == app.all_playlists);
    assert(folder_rows(shown) == folder_rows(app));
    assert(shows_pin(shown) == shows_pin(app));
    assert(display_rows(shown) == display_rows(app));
}

/// A refresh keeps the selection: the playlist that was selected before it is selected after it,
/// where it is still listed and the user has selected nothing else meanwhile.
pub proof fn lemma_refresh_keeps_selection(
    app: AppView,
    refresh: RefreshState,
    nodes: Option<Seq<NodeView>>,
    id: Seq<char>,
)
    requires
        app.playlist_refresh_generation == refresh.generation,
        selection(app) == refresh.page_one,
        refresh.original.playlist_id == Some(id),
        lists_id(refresh.playlists, id),
        refresh.playlists.len() <= usize::MAX,
        rows_for(nodes, refresh.playlists).len() + 1 < usize::MAX,
    ensures
        selected_playlist(refresh_published(app, refresh, nodes)) == Some(id),
{
    let listed = refresh_listed(app, refresh, nodes);
    lemma_listed_playlist_has_row(listed, nodes, id);
    let original = refresh.original;
    lemma_playlist_stays_selected(listed, id, original.folder_id, original.row);
    lemma_prompt_keeps_selection(
        reconciled(listed, Some(id), original.folder_id, original.row),
    );
}

/// What the user selects while a refresh is under way wins: it is selected when the refresh is
/// complete, where it is listed.
pub proof fn lemma_newer_selection_wins(
    app: AppView,
    refresh: RefreshState,
    nodes: Option<Seq<NodeView>>,
    id: Seq<char>,
)
    requires
        app.playlist_refresh_generation == refresh.generation,
        selection(app) != refresh.page_one,
        selected_playlist(app) == Some(id),
        lists_id(refresh.playlists, id),
        refresh.playlists.len() <= usize::MAX,
        rows_for(nodes, refresh.playlists).len() + 1 < usize::MAX,
    ensures
        selected_playlist(refresh_published(app, refresh, nodes)) == Some(id),
{
    let untouched = RefreshState { page_one: selection(app), original: selection(app), ..refresh };
    lemma_refresh_keeps_selection(app, untouched, nodes, id);
}

/// A page is followed by another one where it names one and is not empty.
pub proof fn lemma_page_goes_on(page: PagedView<PlaylistView>)
    ensures
        page.next is None ==> !has_more_behind(page),
        page.items.len() == 0 ==> !has_more_behind(page),
        page.next is Some && page.items.len() > 0 ==> has_more_behind(page),
{
}

/// The first page of a refresh is shown where nothing is listed yet, where no playlist was selected,
/// and where the selected one is on it: the list is that page, every playlist at the root, and plugins
/// are told. Else the list stays as it is. Either way an earlier refresh is overtaken.
#[verifier::rlimit(30)]
pub proof fn lemma_first_page_is_published(
    app: AppView,
    original: SelectionView,
    page: PagedView<PlaylistView>,
    k: int,
)
    requires
        0 <= k < page.items.len() <= usize::MAX,
    ensures
        ({
            let after = first_published(app, original, page);
            let on_page = exists|i: int|
                0 <= i < page.items.len() && (#[trigger] page.items[i]).id is Some
                    && page.items[i].id == original.playlist_id;
            let shown = app.all_playlists.len() == 0 || original.playlist_id is None || on_page;
            &&& after.playlists == Some(page)
            &&& after.playlist_refresh_generation != app.playlist_refresh_generation
            &&& after.playlist_folder_nodes == app.playlist_folder_nodes
            &&& shown ==> {
                &&& after.all_playlists == page.items
                &&& after.playlist_folder_items.len() == page.items.len()
                &&& after.playlist_folder_items[k] == (FolderItemView::Playlist {
                    index: k as usize,
                    current_id: 0,
                })
                &&& after.plugin_data_generations.playlists
                    != app.plugin_data_generations.playlists
            }
            &&& !shown ==> {
                &&& after.all_playlists == app.all_playlists
                &&& after.playlist_folder_items == app.playlist_folder_items
                &&& after.plugin_data_generations == app.plugin_data_generations
                &&& after.view == app.view
                &&& after.current_playlist_folder_id == app.current_playlist_folder_id
            }
        }),
{
    let on_page = exists|i: int|
        0 <= i < page.items.len() && (#[trigger] page.items[i]).id is Some && page.items[i].id
            == original.playlist_id;
    if let Some(id) = original.playlist_id {
        if lists_id(page.items, id) {
            let i = choose|i: int|
                0 <= i < page.items.len() && (#[trigger] page.items[i]).id == Some(id);
            assert(page.items[i].id is Some && page.items[i].id == original.playlist_id);
        }
        if on_page {
            let i = choose|i: int|
                0 <= i < page.items.len() && (#[trigger] page.items[i]).id is Some
                    && page.items[i].id == original.playlist_id;
            assert(page.items[i].id == Some(id));
        }
    }
    lemma_only_selection_changes(
        AppView {
            playlist_refresh_generation: bumped(app.playlist_refresh_generation),
            playlists: Some(page),
            all_playlists: page.items,
            plugin_data_generations: app.plugin_data_generations.after_change(
                PluginDataKind::Playlists,
            ),
            playlist_folder_items: flat_rows(page.items.len()),
            ..app
        },
        original.playlist_id,
        original.folder_id,
        original.row,
    );
}

/// A refresh that is complete lists all playlists that it fetched, in the folders that are known, or
/// all at the root; plugins are told.
#[verifier::rlimit(30)]
pub proof fn lemma_complete_list_is_published(
    app: AppView,
    refresh: RefreshState,
    nodes: Option<Seq<NodeView>>,
)
    requires
        app.playlist_refresh_generation == refresh.generation,
    ensures
        ({
            let after = refresh_published(app, refresh, nodes);
            &&& after.all_playlists == refresh.playlists
            &&& after.playlist_folder_nodes == nodes
            &&& nodes matches Some(nodes) ==> after.playlist_folder_items == structured_rows(
                nodes,
                refresh.playlists,
            )
            &&& nodes is None ==> after.playlist_folder_items == flat_rows(refresh.playlists.len())
            &&& after.plugin_data_generations.playlists != app.plugin_data_generations.playlists
            &&& after.playlist_refresh_generation == app.playlist_refresh_generation
            &&& after.status == app.status
            &&& after.events == app.events
        }),
{
    let preferred = preferred_selection(app, refresh);
    let listed = refresh_listed(app, refresh, nodes);
    lemma_only_selection_changes(
        listed,
        preferred.playlist_id,
        preferred.folder_id,
        preferred.row,
    );
}

/// What was selected before a refresh is to be selected after it, unless the user has selected
/// something else since its first page.
pub proof fn lemma_preferred_selection(app: AppView, refresh: RefreshState)
    ensures
        selection(app) == refresh.page_one ==> preferred_selection(app, refresh)
            == refresh.original,
        selection(app) != refresh.page_one ==> preferred_selection(app, refresh) == selection(app),
{
}

/// The prompt on the pinned community playlist is shown to a user of Spotify who has the pin turned
/// on, does not follow the playlist and has not seen the prompt; to no other, and not twice at a time.
pub proof fn lemma_prompt_is_shown(app: AppView)
    ensures
        ({
            let after = pin_prompted(app);
            let follows = exists|i: int|
                0 <= i < app.all_playlists.len() && (#[trigger] app.all_playlists[i]).id == Some(
                    app.community_playlist_id,
                );
            let on_screen = app.navigation_stack.len() > 0 && app.navigation_stack.last().id
                == RouteId::CommunityPinPrompt;
            let due = app.active_source == Source::Spotify
                && app.user_config.behavior.pin_community_playlist && !follows
                && !app.runtime_state.community_pin_prompt_shown && !on_screen;
            &&& due ==> {
                &&& current_route(after).id == RouteId::CommunityPinPrompt
                &&& after.runtime_state.community_pin_prompt_shown
                &&& after.navigation_stack.drop_last() == app.navigation_stack
            }
            &&& !due ==> after == app
        }),
{
    if pin_prompt_due(app) {
        assert(pin_prompted(app).navigation_stack.drop_last() =~= app.navigation_stack);
    }
}

/// The first page of a refresh changes what is listed and selected in the sidebar and what plugins are
/// told, and nothing else.
#[verifier::rlimit(30)]
pub proof fn lemma_only_list_changes(
    app: AppView,
    original: SelectionView,
    page: PagedView<PlaylistView>,
)
    ensures
        ({
            let first = first_published(app, original, page);
            first == (AppView {
                playlists: first.playlists,
                playlist_refresh_generation: first.playlist_refresh_generation,
                all_playlists: first.all_playlists,
                playlist_folder_items: first.playlist_folder_items,
                plugin_data_generations: first.plugin_data_generations,
                current_playlist_folder_id: first.current_playlist_folder_id,
                view: ViewState {
                    selected_playlist_index: first.view.selected_playlist_index,
                    ..app.view
                },
                ..app
            })
        }),
{
    lemma_only_selection_changes(
        AppView {
            playlist_refresh_generation: bumped(app.playlist_refresh_generation),
            playlists: Some(page),
            all_playlists: page.items,
            plugin_data_generations: app.plugin_data_generations.after_change(
                PluginDataKind::Playlists,
            ),
            playlist_folder_items: flat_rows(page.items.len()),
            ..app
        },
        original.playlist_id,
        original.folder_id,
        original.row,
    );
}

/// The complete list of a refresh changes what is listed and selected in the sidebar, the folders and
/// what plugins are told, and nothing else, but that the prompt may be shown.
#[verifier::rlimit(30)]
pub proof fn lemma_only_lists_change(
    app: AppView,
    refresh: RefreshState,
    nodes: Option<Seq<NodeView>>,
)
    ensures
        ({
            let complete = refresh_published(app, refresh, nodes);
            complete == (AppView {
                all_playlists: complete.all_playlists,
                playlist_folder_nodes: complete.playlist_folder_nodes,
                playlist_folder_items: complete.playlist_folder_items,
                plugin_data_generations: complete.plugin_data_generations,
                current_playlist_folder_id: complete.current_playlist_folder_id,
                view: ViewState {
                    selected_playlist_index: complete.view.selected_playlist_index,
                    ..app.view
                },
                navigation_stack: complete.navigation_stack,
                runtime_state: complete.runtime_state,
                ..app
            })
        }),
{
    let preferred = preferred_selection(app, refresh);
    lemma_only_selection_changes(
        refresh_listed(app, refresh, nodes),
        preferred.playlist_id,
        preferred.folder_id,
        preferred.row,
    );
}

/// A refresh that is given up is told of for eight seconds, and changes nothing else.
pub proof fn lemma_given_up_refresh_is_told_of(app: AppView, refresh: RefreshState)
    requires
        app.playlist_refresh_generation == refresh.generation,
    ensures
        refresh_given_up(app, refresh) == (AppView {
            status: Some(("Playlist refresh incomplete; kept the previous list."@, 8u64)),
            ..app
        }),
{
}

} // verus!
