//! What becomes of the pages of a playlist as they arrive: they fill the table, bring further pages
//! on their way, are searched, or are sorted.

use vstd::prelude::*;

use crate::access::{
    PageErrorView, PlaylistPageError, EXTERNAL_PLAYLIST_UNAVAILABLE_STATUS,
};
use crate::app::{
    current_route, lemma_error_is_shown, with_error, with_status, App, AppView, RouteId, ViewState,
};
use crate::domain::{
    lemma_tracks_of_parts, next_offset, offsets_in_range, only_tracks, tracks_in, EpisodeView,
    PlayableInfo, PlayableView, PlaylistPage, PlaylistPageView, TrackInfo, TrackView,
};
use crate::errors::{error_text, RequestErrorView};
use crate::ids::PlaylistId;
use crate::pages::{
    has_page_at, in_order, lemma_upsert_keeps_order, lemma_upsert_keeps_others, saturated,
    shown_pages, upsert_index, upserted, PagesView,
};
use crate::playlist_pages::{
    filter_cleared, filtered, match_tracks, shown_continuously, shown_playlist, sorted_shown,
    tracks_of_pages,
};
use crate::refresh::PLAYLIST_PAGE_LIMIT;
use crate::search::{
    playlist_track_info_matches_terms, playlist_track_search_terms, search_terms, track_matches,
};
use crate::sorting::{is_sorted_from, sort_playlist_track_matches, TrackMatch};
use crate::text::{
    decimal, decimal_text, lemma_decimal_read, lemma_prefix_taken_off, number_in, optional_text_is,
    without_prefix,
};

verus! {

/// The state, with a fetch at an offset no longer on its way.
pub open spec fn landed(app: AppView, offset: u32) -> AppView {
    AppView {
        playlist_tracks_prefetch_in_flight: app.playlist_tracks_prefetch_in_flight.remove(offset),
        ..app
    }
}

/// The state, with a fetch for an opened playlist answered: the playlist is not being opened any
/// more.
pub open spec fn open_answered(app: AppView, playlist_id: Seq<char>, offset: u32) -> AppView {
    let answered = landed(app, offset);
    if app.pending_playlist_open == Some(playlist_id) {
        AppView { pending_playlist_open: None, ..answered }
    } else {
        answered
    }
}

/// A fetch that was begun for the table is still wanted: the table was not cleared since, and shows
/// the playlist.
pub open spec fn still_wanted(app: AppView, playlist_id: Seq<char>, generation: u64) -> bool {
    app.playlist_tracks_prefetch_generation == generation && shown_playlist(app) == Some(
        playlist_id,
    )
}

/// The state, with a page put among those that were fetched and the table filled again.
pub open spec fn page_shown(app: AppView, page: PlaylistPageView) -> AppView {
    shown_continuously(
        AppView {
            playlist_track_pages: PagesView {
                pages: upserted(app.playlist_track_pages.pages, page),
                ..app.playlist_track_pages
            },
            ..app
        },
    )
}

/// The state, with the reason shown why a page of a playlist cannot be had.
pub open spec fn page_refused(app: AppView, error: PageErrorView) -> AppView {
    match error {
        PageErrorView::UnsupportedExternal => with_status(
            app,
            EXTERNAL_PLAYLIST_UNAVAILABLE_STATUS@,
            8,
        ),
        PageErrorView::Request(error) => with_error(app, error),
    }
}

/// What a page, or the reason why there is none, stands for.
pub open spec fn page_outcome_view(outcome: Result<PlaylistPage, PlaylistPageError>) -> Result<
    PlaylistPageView,
    PageErrorView,
> {
    match outcome {
        Ok(page) => Ok(page.deep_view()),
        Err(error) => Err(error@),
    }
}

/// The state after a page of an opened playlist was answered.
pub open spec fn opened_page_settled(
    app: AppView,
    playlist_id: Seq<char>,
    offset: u32,
    generation: u64,
    outcome: Result<PlaylistPageView, PageErrorView>,
) -> AppView {
    let answered = open_answered(app, playlist_id, offset);
    match outcome {
        Ok(page) => if still_wanted(app, playlist_id, generation) {
            page_shown(answered, page)
        } else {
            answered
        },
        Err(error) => page_refused(answered, error),
    }
}

/// Where the next page is to be fetched ahead, after a page of an opened playlist was answered.
pub open spec fn offset_to_prefetch(
    app: AppView,
    playlist_id: Seq<char>,
    generation: u64,
    outcome: Result<PlaylistPageView, PageErrorView>,
) -> Option<u32> {
    match outcome {
        Ok(page) => if still_wanted(app, playlist_id, generation) {
            let pages = upserted(app.playlist_track_pages.pages, page);
            if page.next is Some && !has_page_at(pages, next_offset(page) as u32) {
                Some(next_offset(page) as u32)
            } else {
                None
            }
        } else {
            None
        },
        Err(_) => None,
    }
}

/// A page is to be fetched ahead: it is wanted, was not fetched and is not on its way.
pub open spec fn prefetch_wanted(
    app: AppView,
    playlist_id: Seq<char>,
    offset: u32,
    generation: u64,
) -> bool {
    &&& still_wanted(app, playlist_id, generation)
    &&& !has_page_at(app.playlist_track_pages.pages, offset)
    &&& !app.playlist_tracks_prefetch_in_flight.contains(offset)
}

/// The state after a page that was fetched ahead was answered.
pub open spec fn prefetched_page_settled(
    app: AppView,
    playlist_id: Seq<char>,
    offset: u32,
    generation: u64,
    outcome: Result<PlaylistPageView, PageErrorView>,
) -> AppView {
    let answered = landed(app, offset);
    match outcome {
        Ok(page) => if page.items.len() > 0 && still_wanted(app, playlist_id, generation) {
            page_shown(answered, page)
        } else {
            answered
        },
        Err(error) => page_refused(answered, error),
    }
}

/// Where fetching ahead goes on, after a page that was fetched ahead was answered: at the next page,
/// unless it was fetched or is on its way.
pub open spec fn offset_to_go_on(
    app: AppView,
    playlist_id: Seq<char>,
    offset: u32,
    generation: u64,
    outcome: Result<PlaylistPageView, PageErrorView>,
) -> Option<u32> {
    match outcome {
        Ok(page) => if page.items.len() > 0 && still_wanted(app, playlist_id, generation)
            && page.next is Some {
            let next = next_offset(page) as u32;
            let pages = upserted(app.playlist_track_pages.pages, page);
            if !has_page_at(pages, next) && !landed(
                app,
                offset,
            ).playlist_tracks_prefetch_in_flight.contains(next) {
                Some(next)
            } else {
                None
            }
        } else {
            None
        },
        Err(_) => None,
    }
}

impl App {
    /// Notes that a fetch at an offset is no longer on its way.
    fn playlist_fetch_landed(&mut self, offset: u32)
        ensures
            final(self)@ == landed(old(self)@, offset),
    {
        broadcast use vstd::std_specs::hash::group_hash_axioms;

        self.playlist_tracks_prefetch_in_flight.remove(&offset);
    }

    /// Notes that a fetch for an opened playlist was answered.
    fn playlist_open_answered(&mut self, playlist_id: &PlaylistId, offset: u32)
        ensures
            final(self)@ == open_answered(old(self)@, playlist_id@, offset),
    {
        self.playlist_fetch_landed(offset);
        if optional_text_is(&self.pending_playlist_open, playlist_id.id()) {
            self.pending_playlist_open = None;
        }
    }

    /// Whether a fetch that was begun for the table is still wanted.
    fn playlist_fetch_wanted(&self, playlist_id: &PlaylistId, generation: u64) -> (wanted: bool)
        ensures
            wanted == still_wanted(self@, playlist_id@, generation),
    {
        self.playlist_tracks_prefetch_generation == generation
            && self.is_playlist_track_table_active_for(playlist_id)
    }

    /// Puts a page among those that were fetched, fills the table again and says where the page is.
    fn show_playlist_page(&mut self, page: PlaylistPage) -> (place: usize)
        ensures
            final(self)@ == page_shown(old(self)@, page.deep_view()),
            place < final(self)@.playlist_track_pages.pages.len(),
            final(self)@.playlist_track_pages.pages[place as int] == page.deep_view(),
    {
        let place = self.playlist_track_pages.upsert_page_by_offset(page);
        self.set_playlist_tracks_to_table_continuous();
        place
    }

    /// Shows why a page of a playlist cannot be had.
    fn show_page_error(&mut self, error: PlaylistPageError)
        ensures
            final(self)@ == page_refused(old(self)@, error@),
    {
        match error {
            PlaylistPageError::UnsupportedExternal => {
                self.set_status_message(EXTERNAL_PLAYLIST_UNAVAILABLE_STATUS.to_owned(), 8);
            },
            PlaylistPageError::Request(error) => {
                self.handle_error(error);
            },
        }
    }

    /// A page of an opened playlist was answered. `generation` is the one under which it was asked
    /// for. Says where the next page is to be fetched ahead.
    pub fn playlist_page_arrived(
        &mut self,
        playlist_id: &PlaylistId,
        playlist_offset: u32,
        generation: u64,
        outcome: Result<PlaylistPage, PlaylistPageError>,
    ) -> (next: Option<u32>)
        requires
            still_wanted(old(self)@, playlist_id@, generation) ==> (outcome matches Ok(page)
                ==> offsets_in_range(page.deep_view())),
        ensures
            final(self)@ == opened_page_settled(
                old(self)@,
                playlist_id@,
                playlist_offset,
                generation,
                page_outcome_view(outcome),
            ),
            next == offset_to_prefetch(
                old(self)@,
                playlist_id@,
                generation,
                page_outcome_view(outcome),
            ),
    {
        self.playlist_open_answered(playlist_id, playlist_offset);
        match outcome {
            Ok(page) => {
                if !self.playlist_fetch_wanted(playlist_id, generation) {
                    return None;
                }
                let place = self.show_playlist_page(page);
                self.next_missing_playlist_tracks_offset(place)
            },
            Err(error) => {
                self.show_page_error(error);
                None
            },
        }
    }

    /// Begins to fetch a page ahead, where it is wanted and not on its way.
    pub fn begin_playlist_prefetch(
        &mut self,
        playlist_id: &PlaylistId,
        offset: u32,
        generation: u64,
    ) -> (begun: bool)
        ensures
            begun == prefetch_wanted(old(self)@, playlist_id@, offset, generation),
            final(self)@ == (if begun {
                AppView {
                    playlist_tracks_prefetch_in_flight: old(self)@.playlist_tracks_prefetch_in_flight.insert(offset),
                    ..old(self)@
                }
            } else {
                old(self)@
            }),
    {
        broadcast use vstd::std_specs::hash::group_hash_axioms;

        if !self.playlist_fetch_wanted(playlist_id, generation) {
            return false;
        }
        if self.playlist_track_pages.page_index_for_offset(offset).is_some() {
            return false;
        }
        if self.playlist_tracks_prefetch_in_flight.contains(&offset) {
            return false;
        }
        self.playlist_tracks_prefetch_in_flight.insert(offset);
        true
    }

    /// A page that was fetched ahead was answered. Says where fetching ahead goes on.
    pub fn playlist_prefetch_arrived(
        &mut self,
        playlist_id: &PlaylistId,
        offset: u32,
        generation: u64,
        outcome: Result<PlaylistPage, PlaylistPageError>,
    ) -> (next: Option<u32>)
        requires
            outcome matches Ok(page) ==> page.items@.len() > 0 ==> offsets_in_range(
                page.deep_view(),
            ),
        ensures
            final(self)@ == prefetched_page_settled(
                old(self)@,
                playlist_id@,
                offset,
                generation,
                page_outcome_view(outcome),
            ),
            next == offset_to_go_on(
                old(self)@,
                playlist_id@,
                offset,
                generation,
                page_outcome_view(outcome),
            ),
    {
        broadcast use vstd::std_specs::hash::group_hash_axioms;

        self.playlist_fetch_landed(offset);
        let page = match outcome {
            Ok(page) => page,
            Err(error) => {
                self.show_page_error(error);
                return None;
            },
        };
        if page.items.len() == 0 {
            return None;
        }
        let next: Option<u32> = if page.next.is_some() {
            Some(page.offset + page.limit)
        } else {
            None
        };
        if !self.playlist_fetch_wanted(playlist_id, generation) {
            return None;
        }
        self.show_playlist_page(page);
        match next {
            Some(next) => {
                if self.playlist_track_pages.page_index_for_offset(next).is_none()
                    && !self.playlist_tracks_prefetch_in_flight.contains(&next) {
                    Some(next)
                } else {
                    None
                }
            },
            None => None,
        }
    }
}

/// A page that arrives late changes nothing that is shown: once the table was cleared or shows
/// something else, only the note that the page is on its way goes.
pub proof fn lemma_late_page_changes_nothing_shown(
    app: AppView,
    playlist_id: Seq<char>,
    offset: u32,
    generation: u64,
    page: PlaylistPageView,
)
    requires
        !still_wanted(app, playlist_id, generation),
    ensures
        opened_page_settled(app, playlist_id, offset, generation, Ok(page)) == open_answered(
            app,
            playlist_id,
            offset,
        ),
        prefetched_page_settled(app, playlist_id, offset, generation, Ok(page)) == landed(
            app,
            offset,
        ),
        offset_to_prefetch(app, playlist_id, generation, Ok(page)) is None,
        offset_to_go_on(app, playlist_id, offset, generation, Ok(page)) is None,
{
}

/// The pages of a playlist stay in order, no offset twice, whatever page arrives.
pub proof fn lemma_pages_stay_in_order(
    app: AppView,
    playlist_id: Seq<char>,
    offset: u32,
    generation: u64,
    outcome: Result<PlaylistPageView, PageErrorView>,
)
    requires
        in_order(app.playlist_track_pages.pages),
    ensures
        in_order(
            opened_page_settled(
                app,
                playlist_id,
                offset,
                generation,
                outcome,
            ).playlist_track_pages.pages,
        ),
        in_order(
            prefetched_page_settled(
                app,
                playlist_id,
                offset,
                generation,
                outcome,
            ).playlist_track_pages.pages,
        ),
{
    match outcome {
        Ok(page) => {
            lemma_upsert_keeps_order(app.playlist_track_pages.pages, page);
        },
        Err(_) => {},
    }
}

/// No page is fetched ahead twice at the same time.
pub proof fn lemma_prefetch_begins_once(
    app: AppView,
    playlist_id: Seq<char>,
    offset: u32,
    generation: u64,
)
    requires
        prefetch_wanted(app, playlist_id, offset, generation),
    ensures
        !prefetch_wanted(
            AppView {
                playlist_tracks_prefetch_in_flight: app.playlist_tracks_prefetch_in_flight.insert(
                    offset,
                ),
                ..app
            },
            playlist_id,
            offset,
            generation,
        ),
{
}

/// The matches on a page: its tracks that match the terms, each with its place.
pub open spec fn matches_on_page(
    items: Seq<(u32, PlayableView)>,
    terms: Seq<Seq<char>>,
) -> Seq<(TrackView, usize)>
    decreases items.len(),
{
    if items.len() == 0 {
        seq![]
    } else {
        let before = matches_on_page(items.drop_last(), terms);
        match items.last().1 {
            PlayableView::Track(track) => if track_matches(track, terms) {
                before.push((track, items.last().0 as usize))
            } else {
                before
            },
            PlayableView::Episode(_) => before,
        }
    }
}

/// A search through a playlist under way.
pub struct PlaylistSearch {
    pub playlist_id: PlaylistId,
    pub query: String,
    pub terms: Vec<String>,
    pub matches: Vec<TrackMatch>,
    pub offset: u32,
}

/// What a [`PlaylistSearch`] stands for.
pub struct SearchState {
    pub playlist_id: Seq<char>,
    pub query: Seq<char>,
    pub terms: Seq<Seq<char>>,
    pub matches: Seq<(TrackView, usize)>,
    pub offset: u32,
}

impl View for PlaylistSearch {
    type V = SearchState;

    open spec fn view(&self) -> SearchState {
        SearchState {
            playlist_id: self.playlist_id@,
            query: self.query@,
            terms: self.terms.deep_view(),
            matches: self.matches.deep_view(),
            offset: self.offset,
        }
    }
}

/// The page ends a walk through a playlist: it is empty, or names no next one.
pub open spec fn ends_walk(page: PlaylistPageView) -> bool {
    page.items.len() == 0 || page.next is None
}

/// A search with one more page searched.
pub open spec fn searched(search: SearchState, page: PlaylistPageView) -> SearchState {
    SearchState {
        matches: search.matches + matches_on_page(page.items, search.terms),
        offset: if ends_walk(page) {
            search.offset
        } else {
            saturated(page.offset, page.limit)
        },
        ..search
    }
}

impl PlaylistSearch {
    /// Searches a page. Says whether the search goes on, at the offset behind it.
    pub fn page_fetched(&mut self, page: PlaylistPage) -> (more: bool)
        ensures
            more == !ends_walk(page.deep_view()),
            final(self)@ == searched(old(self)@, page.deep_view()),
    {
        let ghost items = page.items.deep_view();
        let ghost before = self.matches.deep_view();
        let ghost terms = self.terms.deep_view();
        let mut matches: Vec<TrackMatch> = Vec::new();
        core::mem::swap(&mut self.matches, &mut matches);
        let mut i: usize = 0;
        assert(items.take(0) =~= seq![]);
        assert(before + matches_on_page(items.take(0), terms) =~= before);
        while i < page.items.len()
            invariant
                i <= page.items@.len(),
                items == page.items.deep_view(),
                terms == self.terms.deep_view(),
                matches.deep_view() == before + matches_on_page(items.take(i as int), terms),
            decreases page.items@.len() - i,
        {
            assert(items.take(i + 1).drop_last() =~= items.take(i as int));
            assert(items.take(i + 1).last() == page.items@[i as int].deep_view());
            let ghost so_far = matches.deep_view();
            match &page.items[i].1 {
                PlayableInfo::Track(track) => {
                    if playlist_track_info_matches_terms(track, &self.terms) {
                        matches.push((track.clone(), page.items[i].0 as usize));
                        let ghost found = (track.deep_view(), page.items@[i as int].0 as usize);
                        assert(matches.deep_view() =~= so_far.push(found));
                        assert(matches.deep_view() =~= before + matches_on_page(
                            items.take(i + 1),
                            terms,
                        ));
                    }
                },
                PlayableInfo::Episode(_) => {},
            }
            i += 1;
        }
        assert(items.take(i as int) =~= items);
        self.matches = matches;
        if page.items.len() == 0 || page.next.is_none() {
            return false;
        }
        self.offset = page.offset.saturating_add(page.limit);
        true
    }
}

/// What is told of the matches of a query.
pub open spec fn match_notice(count: nat, query: Seq<char>) -> Seq<char> {
    decimal(count) + " playlist tracks match \""@ + query + "\""@
}

/// The state, with the matches of a search shown, which are sorted.
pub open spec fn search_shown(
    app: AppView,
    search: SearchState,
    sorted: Seq<(TrackView, usize)>,
) -> AppView {
    with_status(
        filtered(app, search.query, sorted),
        match_notice(search.matches.len(), search.query),
        3,
    )
}

impl App {
    /// Begins a search through a playlist. A query without words takes the filter away instead.
    pub fn begin_playlist_search(&mut self, playlist_id: PlaylistId, query: String) -> (search:
        Option<PlaylistSearch>)
        ensures
            search is Some <==> search_terms(query@).len() > 0,
            final(self)@ == (if search_terms(query@).len() > 0 {
                old(self)@
            } else {
                filter_cleared(old(self)@)
            }),
            search matches Some(search) ==> search@ == (SearchState {
                playlist_id: playlist_id@,
                query: query@,
                terms: search_terms(query@),
                matches: seq![],
                offset: 0,
            }),
    {
        let terms = playlist_track_search_terms(query.as_str());
        assert(terms.deep_view().len() == terms@.len());
        if terms.len() == 0 {
            self.clear_playlist_track_filter();
            return None;
        }
        let matches: Vec<TrackMatch> = Vec::new();
        assert(matches.deep_view() =~= seq![]);
        Some(PlaylistSearch { playlist_id, query, terms, matches, offset: 0 })
    }

    /// A page of a search cannot be had.
    pub fn playlist_search_failed(&mut self, error: PlaylistPageError)
        ensures
            final(self)@ == page_refused(
                match error@ {
                    PageErrorView::UnsupportedExternal => AppView {
                        pending_playlist_track_search: None,
                        ..old(self)@
                    },
                    PageErrorView::Request(_) => old(self)@,
                },
                error@,
            ),
    {
        match &error {
            PlaylistPageError::UnsupportedExternal => {
                self.pending_playlist_track_search = None;
            },
            PlaylistPageError::Request(_) => {},
        }
        self.show_page_error(error);
    }

    /// Shows what a search found, where the table shows the playlist that was searched.
    pub fn finish_playlist_search(&mut self, search: PlaylistSearch)
        ensures
            shown_playlist(old(self)@) == Some(search@.playlist_id) ==> exists|
                sorted: Seq<(TrackView, usize)>,
            |
                is_sorted_from(search@.matches, sorted, old(self).playlist_sort) && final(self)@
                    == #[trigger] search_shown(old(self)@, search@, sorted),
            shown_playlist(old(self)@) != Some(search@.playlist_id) ==> final(self)@ == (AppView {
                pending_playlist_track_search: None,
                ..old(self)@
            }),
    {
        let count: usize = search.matches.len();
        let query = search.query.clone();
        let ghost all = search.matches.deep_view();
        assert(all.len() == count);
        if self.apply_playlist_track_search_info_results(
            &search.playlist_id,
            search.query,
            search.matches,
        ) {
            let mut text = decimal_text(count as u128);
            text.append(" playlist tracks match \"");
            text.append(query.as_str());
            text.append("\"");
            let ghost sorted = choose|sorted: Seq<(TrackView, usize)>|
                is_sorted_from(all, sorted, old(self).playlist_sort) && self@
                    == #[trigger] filtered(old(self)@, search.query@, sorted);
            self.set_status_message(text, 3);
            assert(self@ == search_shown(old(self)@, search@, sorted));
        } else {
            self.pending_playlist_track_search = None;
        }
    }
}

/// A fetch of a whole playlist under way, to sort it.
pub struct SortFetch {
    pub playlist_id: PlaylistId,
    pub tracks: Vec<TrackInfo>,
    pub offset: u32,
}

/// What a [`SortFetch`] stands for.
pub struct SortFetchState {
    pub playlist_id: Seq<char>,
    pub tracks: Seq<TrackView>,
    pub offset: u32,
}

impl View for SortFetch {
    type V = SortFetchState;

    open spec fn view(&self) -> SortFetchState {
        SortFetchState {
            playlist_id: self.playlist_id@,
            tracks: self.tracks.deep_view(),
            offset: self.offset,
        }
    }
}

/// How many tracks a page has when a whole playlist is fetched.
pub const SORT_FETCH_LIMIT: u32 = 50;

/// A fetch of a whole playlist with the tracks of one more page.
pub open spec fn collected(fetch: SortFetchState, page: PlaylistPageView) -> SortFetchState {
    SortFetchState {
        tracks: fetch.tracks + only_tracks(tracks_in(page.items)),
        offset: if ends_walk(page) {
            fetch.offset
        } else {
            saturated(page.offset, page.limit)
        },
        ..fetch
    }
}

impl SortFetch {
    /// Takes the tracks of a page in. Says whether the fetch goes on, at the offset behind it.
    pub fn page_fetched(&mut self, page: PlaylistPage) -> (more: bool)
        ensures
            more == !ends_walk(page.deep_view()),
            final(self)@ == collected(old(self)@, page.deep_view()),
    {
        let ghost items = page.items.deep_view();
        let ghost before = self.tracks.deep_view();
        let mut tracks: Vec<TrackInfo> = Vec::new();
        core::mem::swap(&mut self.tracks, &mut tracks);
        let mut i: usize = 0;
        assert(items.take(0) =~= seq![]);
        assert(before + only_tracks(tracks_in(items.take(0))) =~= before);
        while i < page.items.len()
            invariant
                i <= page.items@.len(),
                items == page.items.deep_view(),
                tracks.deep_view() == before + only_tracks(tracks_in(items.take(i as int))),
            decreases page.items@.len() - i,
        {
            assert(items.take(i + 1).drop_last() =~= items.take(i as int));
            assert(items.take(i + 1).last() == page.items@[i as int].deep_view());
            let ghost so_far = tracks.deep_view();
            match &page.items[i].1 {
                PlayableInfo::Track(track) => {
                    tracks.push(track.clone());
                    assert(tracks.deep_view() =~= so_far.push(track.deep_view()));
                    assert(tracks.deep_view() =~= before + only_tracks(
                        tracks_in(items.take(i + 1)),
                    ));
                },
                PlayableInfo::Episode(_) => {},
            }
            i += 1;
        }
        assert(items.take(i as int) =~= items);
        self.tracks = tracks;
        if page.items.len() == 0 || page.next.is_none() {
            return false;
        }
        self.offset = page.offset.saturating_add(page.limit);
        true
    }
}

/// The state, with no fetch of a whole playlist on its way.
pub open spec fn sort_fetch_ended(app: AppView, playlist_id: Seq<char>) -> AppView {
    AppView {
        playlist_sort_fetch_in_flight: app.playlist_sort_fetch_in_flight.remove(playlist_id),
        ..app
    }
}

/// Tracks, numbered from the first one on.
pub open spec fn numbered_tracks(tracks: Seq<TrackView>) -> Seq<(TrackView, usize)> {
    Seq::new(tracks.len(), |i: int| (tracks[i], i as usize))
}

/// The state after a whole playlist was fetched, with its tracks sorted.
pub open spec fn sort_fetch_shown(
    app: AppView,
    playlist_id: Seq<char>,
    sorted: Seq<(TrackView, usize)>,
) -> AppView {
    let ended = sort_fetch_ended(app, playlist_id);
    if shown_playlist(app) == Some(playlist_id) {
        sorted_shown(ended, match_tracks(sorted))
    } else {
        ended
    }
}

impl App {
    /// Begins to fetch a whole playlist, unless that is under way.
    pub fn begin_sort_fetch(&mut self, playlist_id: PlaylistId) -> (fetch: Option<SortFetch>)
        ensures
            fetch is Some <==> !old(self)@.playlist_sort_fetch_in_flight.contains(playlist_id@),
            final(self)@ == (AppView {
                playlist_sort_fetch_in_flight: old(self)@.playlist_sort_fetch_in_flight.insert(
                    playlist_id@,
                ),
                ..old(self)@
            }),
            fetch matches Some(fetch) ==> fetch@ == (SortFetchState {
                playlist_id: playlist_id@,
                tracks: seq![],
                offset: 0,
            }),
    {
        let id = playlist_id.id().to_owned();
        if !self.playlist_sort_fetch_in_flight.insert(id) {
            return None;
        }
        let tracks: Vec<TrackInfo> = Vec::new();
        assert(tracks.deep_view() =~= seq![]);
        Some(SortFetch { playlist_id, tracks, offset: 0 })
    }

    /// Whether the fetch of a whole playlist is still wanted. One that is not, because the table
    /// shows something else, is ended.
    pub fn sort_fetch_wanted(&mut self, playlist_id: &PlaylistId) -> (wanted: bool)
        ensures
            wanted == (shown_playlist(old(self)@) == Some(playlist_id@)),
            final(self)@ == (if wanted {
                old(self)@
            } else {
                sort_fetch_ended(old(self)@, playlist_id@)
            }),
    {
        if self.is_playlist_track_table_active_for(playlist_id) {
            true
        } else {
            self.playlist_sort_fetch_in_flight.remove(playlist_id.id());
            false
        }
    }

    /// A page of a whole playlist cannot be had.
    pub fn sort_fetch_failed(&mut self, playlist_id: &PlaylistId, error: PlaylistPageError)
        ensures
            final(self)@ == page_refused(sort_fetch_ended(old(self)@, playlist_id@), error@),
    {
        self.playlist_sort_fetch_in_flight.remove(playlist_id.id());
        self.show_page_error(error);
    }

    /// Sorts the tracks of a whole playlist as the table is sorted, and shows them where the table
    /// shows the playlist.
    pub fn finish_sort_fetch(&mut self, fetch: SortFetch)
        ensures
            exists|sorted: Seq<(TrackView, usize)>|
                is_sorted_from(numbered_tracks(fetch@.tracks), sorted, old(self).playlist_sort)
                    && final(self)@ == #[trigger] sort_fetch_shown(
                    old(self)@,
                    fetch@.playlist_id,
                    sorted,
                ),
    {
        self.playlist_sort_fetch_in_flight.remove(fetch.playlist_id.id());
        let ghost all = numbered_tracks(fetch.tracks.deep_view());
        let mut matches: Vec<TrackMatch> = Vec::new();
        let mut i: usize = 0;
        while i < fetch.tracks.len()
            invariant
                i <= fetch.tracks@.len(),
                all == numbered_tracks(fetch.tracks.deep_view()),
                matches.deep_view() == all.take(i as int),
            decreases fetch.tracks@.len() - i,
        {
            let ghost before = matches.deep_view();
            matches.push((fetch.tracks[i].clone(), i));
            assert(matches.deep_view() =~= before.push(all[i as int]));
            i += 1;
        }
        assert(matches.deep_view() =~= all);
        sort_playlist_track_matches(&mut matches, self.playlist_sort);
        let ghost sorted = matches.deep_view();
        let mut tracks: Vec<TrackInfo> = Vec::new();
        let mut k: usize = 0;
        while k < matches.len()
            invariant
                k <= matches@.len(),
                sorted == matches.deep_view(),
                tracks.deep_view() == match_tracks(sorted).take(k as int),
            decreases matches@.len() - k,
        {
            let ghost before = tracks.deep_view();
            tracks.push(matches[k].0.clone());
            assert(tracks.deep_view() =~= before.push(match_tracks(sorted)[k as int]));
            k += 1;
        }
        assert(tracks.deep_view() =~= match_tracks(sorted));
        self.apply_sorted_playlist_track_infos_if_current(&fetch.playlist_id, tracks);
        assert(self@ == sort_fetch_shown(old(self)@, fetch@.playlist_id, sorted));
    }
}

/// A page that is wanted is kept at its offset, and the pages at other offsets stay. The table shows
/// the pages without a gap. The page is no longer on its way, and its playlist no longer being opened.
#[verifier::rlimit(30)]
pub proof fn lemma_page_is_taken_in(
    app: AppView,
    playlist_id: Seq<char>,
    offset: u32,
    page: PlaylistPageView,
)
    requires
        in_order(app.playlist_track_pages.pages),
        shown_playlist(app) == Some(playlist_id),
    ensures
        ({
            let generation = app.playlist_tracks_prefetch_generation;
            let after = opened_page_settled(app, playlist_id, offset, generation, Ok(page));
            let ahead = prefetched_page_settled(app, playlist_id, offset, generation, Ok(page));
            let pages = after.playlist_track_pages.pages;
            &&& pages.contains(page)
            &&& forall|other: PlaylistPageView|
                other.offset != page.offset ==> (#[trigger] pages.contains(other)
                    <==> app.playlist_track_pages.pages.contains(other))
            &&& after.table_tracks == only_tracks(tracks_of_pages(shown_pages(pages)))
            &&& !after.playlist_tracks_prefetch_in_flight.contains(offset)
            &&& after.pending_playlist_open != Some(playlist_id)
            &&& page.items.len() > 0 ==> ahead.playlist_track_pages == after.playlist_track_pages
                && ahead.table_tracks == after.table_tracks
            &&& page.items.len() == 0 ==> ahead.playlist_track_pages == app.playlist_track_pages
                && ahead.table_tracks == app.table_tracks
            &&& !ahead.playlist_tracks_prefetch_in_flight.contains(offset)
        }),
{
    let pages = app.playlist_track_pages.pages;
    lemma_upsert_keeps_order(pages, page);
    assert(upserted(pages, page)[upsert_index(pages, page)] == page);
    assert forall|other: PlaylistPageView| other.offset != page.offset implies (
    #[trigger] upserted(pages, page).contains(other) <==> pages.contains(other)) by {
        lemma_upsert_keeps_others(pages, page, other);
    }
}

/// A fetch is wanted while the table shows its playlist and was not cleared since it was begun.
pub proof fn lemma_fetch_is_wanted(app: AppView, playlist_id: Seq<char>, generation: u64)
    ensures
        still_wanted(app, playlist_id, generation) ==> app.playlist_track_table_id == Some(
            playlist_id,
        ) && generation == app.playlist_tracks_prefetch_generation,
        shown_playlist(app) == Some(playlist_id) ==> still_wanted(
            app,
            playlist_id,
            app.playlist_tracks_prefetch_generation,
        ),
        shown_playlist(app) != Some(playlist_id) ==> !still_wanted(app, playlist_id, generation),
{
}

/// A page of another user's playlist that cannot be had is explained for eight seconds, and what is
/// shown stays; any other failure is an error.
#[verifier::rlimit(30)]
pub proof fn lemma_page_is_refused(
    app: AppView,
    playlist_id: Seq<char>,
    offset: u32,
    generation: u64,
    error: RequestErrorView,
)
    ensures
        ({
            let blocked = opened_page_settled(
                app,
                playlist_id,
                offset,
                generation,
                Err(PageErrorView::UnsupportedExternal),
            );
            let failed = opened_page_settled(
                app,
                playlist_id,
                offset,
                generation,
                Err(PageErrorView::Request(error)),
            );
            let ahead = prefetched_page_settled(
                app,
                playlist_id,
                offset,
                generation,
                Err(PageErrorView::UnsupportedExternal),
            );
            let failed_ahead = prefetched_page_settled(
                app,
                playlist_id,
                offset,
                generation,
                Err(PageErrorView::Request(error)),
            );
            let reason = "Spotify Development Mode blocks playlist contents owned by another user. Only playlists you own or collaborate on are available."@;
            &&& blocked.status == Some((reason, 8u64))
            &&& blocked.navigation_stack == app.navigation_stack
            &&& blocked.table_tracks == app.table_tracks
            &&& blocked.playlist_track_pages == app.playlist_track_pages
            &&& ahead.status == Some((reason, 8u64))
            &&& ahead.navigation_stack == app.navigation_stack
            &&& failed.api_error == error_text(error)
            &&& current_route(failed).id == RouteId::Error
            &&& failed.playlist_track_pages == app.playlist_track_pages
            &&& failed_ahead.api_error == error_text(error)
            &&& current_route(failed_ahead).id == RouteId::Error
            &&& blocked.pending_playlist_open != Some(playlist_id)
            &&& failed.pending_playlist_open != Some(playlist_id)
            &&& !blocked.playlist_tracks_prefetch_in_flight.contains(offset)
            &&& !failed.playlist_tracks_prefetch_in_flight.contains(offset)
            &&& !ahead.playlist_tracks_prefetch_in_flight.contains(offset)
            &&& !failed_ahead.playlist_tracks_prefetch_in_flight.contains(offset)
        }),
{
    lemma_error_is_shown(open_answered(app, playlist_id, offset), error);
    lemma_error_is_shown(landed(app, offset), error);
}

/// Behind a page that is wanted the next one is fetched ahead, where the page names one and it was not
/// fetched: it starts where the limit of the page ends. Fetching ahead goes on in the same way behind
/// a page that is not empty, unless the next one is on its way.
pub proof fn lemma_next_page_is_fetched_ahead(
    app: AppView,
    playlist_id: Seq<char>,
    offset: u32,
    page: PlaylistPageView,
)
    requires
        in_order(app.playlist_track_pages.pages),
        shown_playlist(app) == Some(playlist_id),
        page.offset + page.limit <= u32::MAX,
        page.limit > 0,
        offset == page.offset,
    ensures
        ({
            let generation = app.playlist_tracks_prefetch_generation;
            let behind = (page.offset + page.limit) as u32;
            let next = offset_to_prefetch(app, playlist_id, generation, Ok(page));
            let further = offset_to_go_on(app, playlist_id, offset, generation, Ok(page));
            let fetched = has_page_at(app.playlist_track_pages.pages, behind);
            &&& next is Some <==> page.next is Some && !fetched
            &&& next matches Some(found) ==> found == behind
            &&& further is Some <==> {
                &&& page.next is Some
                &&& page.items.len() > 0
                &&& !fetched
                &&& !app.playlist_tracks_prefetch_in_flight.contains(behind)
            }
            &&& further matches Some(found) ==> found == behind
        }),
{
    lemma_upsert_keeps_order(app.playlist_track_pages.pages, page);
}

/// A page is fetched ahead where it is wanted, unless it was fetched or is on its way.
pub proof fn lemma_prefetch_begins(app: AppView, playlist_id: Seq<char>, offset: u32)
    requires
        shown_playlist(app) == Some(playlist_id),
    ensures
        prefetch_wanted(app, playlist_id, offset, app.playlist_tracks_prefetch_generation) <==> {
            &&& !app.playlist_tracks_prefetch_in_flight.contains(offset)
            &&& forall|i: int|
                0 <= i < app.playlist_track_pages.pages.len() ==> (
                #[trigger] app.playlist_track_pages.pages[i]).offset != offset
        },
{
}

/// The matches on a page are its tracks that match the terms, in order and each with its place;
/// episodes are not searched.
pub proof fn lemma_matches_of_parts(
    left: Seq<(u32, PlayableView)>,
    right: Seq<(u32, PlayableView)>,
    terms: Seq<Seq<char>>,
    place: u32,
    track: TrackView,
    episode: EpisodeView,
)
    ensures
        matches_on_page(left + right, terms) == matches_on_page(left, terms) + matches_on_page(
            right,
            terms,
        ),
        track_matches(track, terms) ==> matches_on_page(
            seq![(place, PlayableView::Track(track))],
            terms,
        ) == seq![(track, place as usize)],
        !track_matches(track, terms) ==> matches_on_page(
            seq![(place, PlayableView::Track(track))],
            terms,
        ).len() == 0,
        matches_on_page(seq![(place, PlayableView::Episode(episode))], terms).len() == 0,
        matches_on_page(seq![], terms).len() == 0,
    decreases right.len(),
{
    let one = seq![(place, PlayableView::Track(track))];
    let other = seq![(place, PlayableView::Episode(episode))];
    assert(one.drop_last() =~= seq![]);
    assert(other.drop_last() =~= seq![]);
    assert(matches_on_page(one.drop_last(), terms) =~= seq![]);
    assert(matches_on_page(other.drop_last(), terms) =~= seq![]);
    if track_matches(track, terms) {
        assert(matches_on_page(one, terms) =~= seq![(track, place as usize)]);
    }
    if right.len() == 0 {
        assert(left + right =~= left);
        assert(matches_on_page(left, terms) + matches_on_page(right, terms) =~= matches_on_page(
            left,
            terms,
        ));
    } else {
        lemma_matches_of_parts(left, right.drop_last(), terms, place, track, episode);
        assert((left + right).drop_last() =~= left + right.drop_last());
        assert(matches_on_page(left + right, terms) =~= matches_on_page(left, terms)
            + matches_on_page(right, terms));
    }
}

/// What a search found is shown as a filtered table, sorted as the table is, and told of by the number
/// of matches.
pub proof fn lemma_search_is_shown(
    app: AppView,
    search: SearchState,
    sorted: Seq<(TrackView, usize)>,
)
    ensures
        ({
            let after = search_shown(app, search, sorted);
            &&& after.active_playlist_track_filter == Some(search.query)
            &&& after.table_tracks.len() == sorted.len()
            &&& forall|i: int|
                0 <= i < sorted.len() ==> #[trigger] after.table_tracks[i] == sorted[i].0
            &&& after.status matches Some(status)
            &&& status.1 == 3
            &&& without_prefix(status.0, decimal(search.matches.len())) == Some(
                " playlist tracks match \""@ + search.query + "\""@,
            )
            &&& number_in(decimal(search.matches.len())) == Some(search.matches.len())
        }),
{
    let digits = decimal(search.matches.len());
    let rest = " playlist tracks match \""@ + search.query + "\""@;
    assert(match_notice(search.matches.len(), search.query) =~= digits + rest);
    lemma_prefix_taken_off(digits, rest);
    lemma_decimal_read(search.matches.len());
}

/// A walk through a playlist ends at a page that names no next one, and at an empty one.
pub proof fn lemma_walk_ends(page: PlaylistPageView)
    ensures
        page.next is None ==> ends_walk(page),
        page.items.len() == 0 ==> ends_walk(page),
        page.next is Some && page.items.len() > 0 ==> !ends_walk(page),
{
}

/// The whole playlist, sorted, is shown where the table shows it, from the first row on; else nothing
/// is. Either way it is no longer being fetched, and the fetches of other playlists go on.
pub proof fn lemma_sorted_playlist_is_shown(
    app: AppView,
    playlist_id: Seq<char>,
    sorted: Seq<(TrackView, usize)>,
    other: Seq<char>,
)
    ensures
        ({
            let after = sort_fetch_shown(app, playlist_id, sorted);
            &&& !after.playlist_sort_fetch_in_flight.contains(playlist_id)
            &&& other != playlist_id ==> after.playlist_sort_fetch_in_flight.contains(other)
                == app.playlist_sort_fetch_in_flight.contains(other)
            &&& shown_playlist(app) == Some(playlist_id) ==> {
                &&& after.table_tracks.len() == sorted.len()
                &&& forall|i: int|
                    0 <= i < sorted.len() ==> #[trigger] after.table_tracks[i] == sorted[i].0
                &&& after.view.track_table_index == 0
            }
            &&& shown_playlist(app) != Some(playlist_id) ==> after.table_tracks == app.table_tracks
                && after.view == app.view
        }),
{
}

/// Tracks are numbered as they stand.
pub proof fn lemma_tracks_are_numbered(tracks: Seq<TrackView>, i: int)
    requires
        0 <= i < tracks.len() <= usize::MAX,
    ensures
        numbered_tracks(tracks).len() == tracks.len(),
        numbered_tracks(tracks)[i].0 == tracks[i],
        numbered_tracks(tracks)[i].1 == i,
{
}

/// A page that is answered is no longer on its way; others still are. Its playlist is no longer being
/// opened; another one still is. Nothing else changes by the answer alone.
pub proof fn lemma_answer_is_noted(
    app: AppView,
    playlist_id: Seq<char>,
    offset: u32,
    other: u32,
)
    ensures
        ({
            let after = open_answered(app, playlist_id, offset);
            &&& other != offset ==> after.playlist_tracks_prefetch_in_flight.contains(other)
                == app.playlist_tracks_prefetch_in_flight.contains(other)
            &&& !after.playlist_tracks_prefetch_in_flight.contains(offset)
            &&& app.pending_playlist_open != Some(playlist_id) ==> after.pending_playlist_open
                == app.pending_playlist_open
            &&& after.pending_playlist_open != Some(playlist_id)
            &&& after == (AppView {
                playlist_tracks_prefetch_in_flight: after.playlist_tracks_prefetch_in_flight,
                pending_playlist_open: after.pending_playlist_open,
                ..app
            })
            &&& landed(app, offset) == (AppView {
                playlist_tracks_prefetch_in_flight: after.playlist_tracks_prefetch_in_flight,
                ..app
            })
        }),
{
}

/// A page that arrives changes the pages and the table that shows them, and nothing else: not the
/// filter, not the screen, and no message.
#[verifier::rlimit(30)]
pub proof fn lemma_only_pages_change(
    app: AppView,
    playlist_id: Seq<char>,
    offset: u32,
    generation: u64,
    page: PlaylistPageView,
)
    ensures
        ({
            let after = opened_page_settled(app, playlist_id, offset, generation, Ok(page));
            let ahead = prefetched_page_settled(app, playlist_id, offset, generation, Ok(page));
            let answered = open_answered(app, playlist_id, offset);
            &&& after == (AppView {
                playlist_track_pages: after.playlist_track_pages,
                playlist_tracks: after.playlist_tracks,
                playlist_offset: after.playlist_offset,
                table_tracks: after.table_tracks,
                playlist_track_positions: after.playlist_track_positions,
                pending_track_table_selection: after.pending_track_table_selection,
                view: ViewState { track_table_index: after.view.track_table_index, ..app.view },
                events: after.events,
                ..answered
            })
            &&& ahead == (AppView {
                playlist_track_pages: ahead.playlist_track_pages,
                playlist_tracks: ahead.playlist_tracks,
                playlist_offset: ahead.playlist_offset,
                table_tracks: ahead.table_tracks,
                playlist_track_positions: ahead.playlist_track_positions,
                pending_track_table_selection: ahead.pending_track_table_selection,
                view: ViewState { track_table_index: ahead.view.track_table_index, ..app.view },
                events: ahead.events,
                playlist_tracks_prefetch_in_flight: answered.playlist_tracks_prefetch_in_flight,
                ..app
            })
        }),
{
}

/// What a search found changes the table and its filter and what is told, and nothing else; a sorted
/// playlist changes the table alone.
pub proof fn lemma_only_search_changes(
    app: AppView,
    search: SearchState,
    sorted: Seq<(TrackView, usize)>,
    playlist_id: Seq<char>,
)
    ensures
        ({
            let found = search_shown(app, search, sorted);
            let shown = sort_fetch_shown(app, playlist_id, sorted);
            &&& found == (AppView {
                status: found.status,
                ..filtered(app, search.query, sorted)
            })
            &&& shown == (AppView {
                playlist_sort_fetch_in_flight: shown.playlist_sort_fetch_in_flight,
                table_tracks: shown.table_tracks,
                pending_track_table_selection: shown.pending_track_table_selection,
                view: ViewState { track_table_index: shown.view.track_table_index, ..app.view },
                ..app
            })
        }),
{
}

/// A whole playlist is fetched in pages of fifty, as the list of playlists is.
pub proof fn lemma_pages_of_fifty()
    ensures
        SORT_FETCH_LIMIT == 50,
        SORT_FETCH_LIMIT == PLAYLIST_PAGE_LIMIT,
{
}

/// A playlist that is searched page by page is searched as a whole: the matches on two pages are those
/// of both lists, one behind the other. The search goes on where the limit of a page ends, and never
/// changes what it looks for or where.
pub proof fn lemma_search_page_by_page(
    search: SearchState,
    first: PlaylistPageView,
    second: PlaylistPageView,
)
    ensures
        ({
            let once = searched(search, first);
            let twice = searched(once, second);
            &&& twice.matches == search.matches + matches_on_page(
                first.items + second.items,
                search.terms,
            )
            &&& twice.terms == search.terms
            &&& twice.query == search.query
            &&& twice.playlist_id == search.playlist_id
            &&& first.next is Some && first.items.len() > 0 && first.offset + first.limit
                <= u32::MAX ==> once.offset == first.offset + first.limit
        }),
{
    lemma_matches_of_parts(first.items, second.items, search.terms, 0, arbitrary(), arbitrary());
    let once = searched(search, first);
    assert(searched(once, second).matches =~= search.matches + matches_on_page(
        first.items + second.items,
        search.terms,
    ));
}

/// A whole playlist is collected page by page: the tracks of two pages are those of both lists, one
/// behind the other, without the episodes. The fetch goes on where the limit of a page ends.
pub proof fn lemma_playlist_collected_page_by_page(
    fetch: SortFetchState,
    first: PlaylistPageView,
    second: PlaylistPageView,
)
    ensures
        ({
            let once = collected(fetch, first);
            let twice = collected(once, second);
            &&& twice.tracks == fetch.tracks + only_tracks(tracks_in(first.items + second.items))
            &&& twice.playlist_id == fetch.playlist_id
            &&& first.next is Some && first.items.len() > 0 && first.offset + first.limit
                <= u32::MAX ==> once.offset == first.offset + first.limit
        }),
{
    lemma_tracks_of_parts(first.items, second.items, 0, arbitrary(), arbitrary());
    let once = collected(fetch, first);
    assert(collected(once, second).tracks =~= fetch.tracks + only_tracks(
        tracks_in(first.items + second.items),
    ));
}

} // verus!
