//! The tracks, albums and shows that the user has saved: the pages of them as they arrive, and which
//! of them are saved at all.

use vstd::hash_set::StringHashSet;
use vstd::prelude::*;

use crate::app::{
    current_route, lemma_counters_move_on, lemma_error_is_shown, lemma_one_counter_moves,
    selected_row, with_error, with_table_tracks, App, AppView, PluginDataKind, RouteId, ViewState,
};
use crate::domain::{
    ids_of_tracks, lemma_ids_are_of_tracks, next_offset, offsets_in_range, track_ids,
    ArtistRefView, CollectionInfo, Paged, PagedView, TrackInfo, TrackView,
};
use crate::errors::{error_text, RequestError, RequestErrorView};
use crate::pages::{
    count_run, has_page_at, in_order, last_place, lemma_upsert_keeps_order,
    lemma_upsert_keeps_others, shown_pages, upsert_index, upserted, PagesView,
};

verus! {

/// A set with the texts of a list.
pub open spec fn with_texts(set: Set<Seq<char>>, texts: Seq<Seq<char>>) -> Set<Seq<char>>
    decreases texts.len(),
{
    if texts.len() == 0 {
        set
    } else {
        with_texts(set, texts.drop_last()).insert(texts.last())
    }
}

/// A set with the texts of a list has what it had and what the list has, and nothing else.
pub proof fn lemma_with_texts(set: Set<Seq<char>>, texts: Seq<Seq<char>>, text: Seq<char>)
    ensures
        with_texts(set, texts).contains(text) <==> set.contains(text) || texts.contains(text),
    decreases texts.len(),
{
    if texts.len() > 0 {
        lemma_with_texts(set, texts.drop_last(), text);
        if texts.contains(text) {
            let i = choose|i: int| 0 <= i < texts.len() && texts[i] == text;
            if i < texts.len() - 1 {
                assert(texts.drop_last()[i] == text);
            }
        }
        if texts.drop_last().contains(text) {
            let i = choose|i: int| 0 <= i < texts.len() - 1 && texts.drop_last()[i] == text;
            assert(texts[i] == text);
        }
        assert(texts[texts.len() - 1] == texts.last());
    }
}

/// Adds the ids of saved tracks to the liked ones. Tracks without an id are passed over.
pub fn populate_liked_song_ids_from_saved_tracks(
    liked_song_ids_set: &mut StringHashSet,
    page: &Paged<TrackInfo>,
)
    ensures
        final(liked_song_ids_set)@ == with_texts(
            old(liked_song_ids_set)@,
            track_ids(page.deep_view().items),
        ),
{
    let ids = ids_of_tracks(&page.items);
    let ghost all = ids.deep_view();
    let ghost before = liked_song_ids_set@;
    let mut i: usize = 0;
    assert(all.take(0) =~= seq![]);
    while i < ids.len()
        invariant
            i <= ids@.len(),
            all == ids.deep_view(),
            liked_song_ids_set@ == with_texts(before, all.take(i as int)),
        decreases ids@.len() - i,
    {
        assert(all.take(i + 1).drop_last() =~= all.take(i as int));
        assert(all.take(i + 1).last() == ids@[i as int]@);
        liked_song_ids_set.insert(ids[i].clone());
        i += 1;
    }
    assert(all.take(i as int) =~= all);
}

/// Where the page of saved tracks behind a page starts, where it names a next one.
pub fn next_saved_tracks_offset(page: &Paged<TrackInfo>) -> (offset: Option<u32>)
    requires
        offsets_in_range(page.deep_view()),
    ensures
        offset == (if page.deep_view().next is Some {
            Some(next_offset(page.deep_view()) as u32)
        } else {
            None
        }),
{
    if page.next.is_some() {
        Some(page.offset + page.limit)
    } else {
        None
    }
}

/// The tracks of pages.
pub open spec fn items_of_pages(pages: Seq<PagedView<TrackView>>) -> Seq<TrackView>
    decreases pages.len(),
{
    if pages.len() == 0 {
        seq![]
    } else {
        items_of_pages(pages.drop_last()) + pages.last().items
    }
}

/// The state, with the table showing the pages of saved tracks that follow each other from the start
/// on.
pub open spec fn saved_shown(app: AppView) -> AppView {
    let shown = shown_pages(app.saved_tracks.pages);
    with_table_tracks(
        AppView {
            saved_tracks: PagesView { index: last_place(shown), ..app.saved_tracks },
            ..app
        },
        items_of_pages(shown),
    )
}

/// The state, with a fetch of saved tracks at an offset no longer on its way.
pub open spec fn saved_landed(app: AppView, offset: u32) -> AppView {
    AppView {
        saved_tracks_prefetch_in_flight: app.saved_tracks_prefetch_in_flight.remove(offset),
        ..app
    }
}

/// The state, with a page of saved tracks put among those that were fetched: its tracks are liked,
/// and the table is filled again.
pub open spec fn saved_page_shown(app: AppView, page: PagedView<TrackView>) -> AppView {
    saved_shown(
        AppView {
            liked_song_ids: with_texts(app.liked_song_ids, track_ids(page.items)),
            saved_tracks: PagesView {
                pages: upserted(app.saved_tracks.pages, page),
                ..app.saved_tracks
            },
            ..app
        },
    )
}

/// The state, with plugins told of a change.
pub open spec fn plugins_told(app: AppView, kind: PluginDataKind) -> AppView {
    AppView {
        plugin_data_generations: app.plugin_data_generations.after_change(kind),
        ..app
    }
}

/// What a page, or the reason why there is none, stands for.
pub open spec fn paged_outcome<T: DeepView>(outcome: Result<Paged<T>, RequestError>) -> Result<
    PagedView<T::V>,
    RequestErrorView,
> {
    match outcome {
        Ok(page) => Ok(page.deep_view()),
        Err(error) => Err(error@),
    }
}

/// The state after a page of saved tracks was answered.
pub open spec fn saved_page_settled(
    app: AppView,
    offset: u32,
    generation: u64,
    outcome: Result<PagedView<TrackView>, RequestErrorView>,
) -> AppView {
    let answered = saved_landed(app, offset);
    match outcome {
        Ok(page) => if app.saved_tracks_prefetch_generation == generation {
            plugins_told(saved_page_shown(answered, page), PluginDataKind::SavedTracks)
        } else {
            answered
        },
        Err(error) => with_error(answered, error),
    }
}

/// Where the next page of saved tracks is to be fetched ahead.
pub open spec fn saved_offset_to_prefetch(
    app: AppView,
    generation: u64,
    outcome: Result<PagedView<TrackView>, RequestErrorView>,
) -> Option<u32> {
    match outcome {
        Ok(page) => if app.saved_tracks_prefetch_generation == generation && page.next is Some
            && !has_page_at(upserted(app.saved_tracks.pages, page), next_offset(page) as u32) {
            Some(next_offset(page) as u32)
        } else {
            None
        },
        Err(_) => None,
    }
}

/// A page of saved tracks is to be fetched ahead: it is wanted, was not fetched and is not on its
/// way.
pub open spec fn saved_prefetch_wanted(app: AppView, offset: u32, generation: u64) -> bool {
    &&& app.saved_tracks_prefetch_generation == generation
    &&& !has_page_at(app.saved_tracks.pages, offset)
    &&& !app.saved_tracks_prefetch_in_flight.contains(offset)
}

/// The state after a page of saved tracks that was fetched ahead was answered. A failure is passed
/// over: the page is fetched when it is needed.
pub open spec fn saved_prefetch_settled(
    app: AppView,
    offset: u32,
    generation: u64,
    page: Option<PagedView<TrackView>>,
) -> AppView {
    let answered = saved_landed(app, offset);
    match page {
        Some(page) => if page.items.len() > 0 && app.saved_tracks_prefetch_generation
            == generation {
            saved_page_shown(answered, page)
        } else {
            answered
        },
        None => answered,
    }
}

/// Where fetching saved tracks ahead goes on.
pub open spec fn saved_offset_to_go_on(
    app: AppView,
    offset: u32,
    generation: u64,
    page: Option<PagedView<TrackView>>,
) -> Option<u32> {
    match page {
        Some(page) => if page.items.len() > 0 && app.saved_tracks_prefetch_generation == generation
            && page.next is Some && !has_page_at(
            upserted(app.saved_tracks.pages, page),
            next_offset(page) as u32,
        ) && !saved_landed(app, offset).saved_tracks_prefetch_in_flight.contains(
            next_offset(page) as u32,
        ) {
            Some(next_offset(page) as u32)
        } else {
            None
        },
        None => None,
    }
}

impl App {
    /// Fills the table with the pages of saved tracks that follow each other from the start on.
    pub fn set_saved_tracks_to_table_continuous(&mut self)
        ensures
            final(self)@ == saved_shown(old(self)@),
    {
        let ghost pages = self.library.saved_tracks.pages.deep_view();
        let ghost shown = shown_pages(pages);
        let count = count_run(&self.library.saved_tracks.pages);
        let mut tracks: Vec<TrackInfo> = Vec::new();
        let mut i: usize = 0;
        assert(shown.take(0) =~= seq![]);
        assert(tracks.deep_view() =~= items_of_pages(shown.take(0)));
        while i < count
            invariant
                i <= count,
                count <= self.library.saved_tracks.pages@.len(),
                pages == self.library.saved_tracks.pages.deep_view(),
                shown == pages.take(count as int),
                tracks.deep_view() == items_of_pages(shown.take(i as int)),
            decreases count - i,
        {
            assert(shown.take(i + 1).drop_last() =~= shown.take(i as int));
            assert(shown.take(i + 1).last()
                == self.library.saved_tracks.pages@[i as int].deep_view());
            let ghost before = tracks.deep_view();
            let mut more = self.library.saved_tracks.pages[i].items.clone();
            let ghost added = more.deep_view();
            assert(added =~= self.library.saved_tracks.pages@[i as int].items.deep_view());
            tracks.append(&mut more);
            assert(tracks.deep_view() =~= before + added);
            i += 1;
        }
        assert(shown.take(i as int) =~= shown);
        self.library.saved_tracks.index = if count > 0 {
            count - 1
        } else {
            0
        };
        self.replace_track_table_tracks(tracks);
    }

    /// Notes that a fetch of saved tracks at an offset is no longer on its way.
    fn saved_fetch_landed(&mut self, offset: u32)
        ensures
            final(self)@ == saved_landed(old(self)@, offset),
    {
        broadcast use vstd::std_specs::hash::group_hash_axioms;

        self.saved_tracks_prefetch_in_flight.remove(&offset);
    }

    /// Puts a page of saved tracks among those that were fetched.
    fn show_saved_page(&mut self, page: Paged<TrackInfo>)
        ensures
            final(self)@ == saved_page_shown(old(self)@, page.deep_view()),
    {
        populate_liked_song_ids_from_saved_tracks(&mut self.liked_song_ids_set, &page);
        self.library.saved_tracks.upsert_page_by_offset(page);
        self.set_saved_tracks_to_table_continuous();
    }

    /// A page of saved tracks was answered. `generation` is the one under which it was asked for.
    /// Says where the next page is to be fetched ahead.
    pub fn saved_tracks_arrived(
        &mut self,
        requested_offset: u32,
        generation: u64,
        outcome: Result<Paged<TrackInfo>, RequestError>,
    ) -> (next: Option<u32>)
        requires
            old(self)@.saved_tracks_prefetch_generation == generation ==> (outcome matches Ok(page)
                ==> offsets_in_range(page.deep_view())),
        ensures
            final(self)@ == saved_page_settled(
                old(self)@,
                requested_offset,
                generation,
                paged_outcome(outcome),
            ),
            next == saved_offset_to_prefetch(old(self)@, generation, paged_outcome(outcome)),
    {
        self.saved_fetch_landed(requested_offset);
        match outcome {
            Ok(page) => {
                if self.saved_tracks_prefetch_generation != generation {
                    return None;
                }
                let next = next_saved_tracks_offset(&page);
                self.show_saved_page(page);
                self.plugin_data_generations.bump(PluginDataKind::SavedTracks);
                match next {
                    Some(next) => {
                        if self.library.saved_tracks.page_index_for_offset(next).is_none() {
                            Some(next)
                        } else {
                            None
                        }
                    },
                    None => None,
                }
            },
            Err(error) => {
                self.handle_error(error);
                None
            },
        }
    }

    /// Begins to fetch a page of saved tracks ahead, where it is wanted and not on its way.
    pub fn begin_saved_prefetch(&mut self, offset: u32, generation: u64) -> (begun: bool)
        ensures
            begun == saved_prefetch_wanted(old(self)@, offset, generation),
            final(self)@ == (if begun {
                AppView {
                    saved_tracks_prefetch_in_flight: old(self)@.saved_tracks_prefetch_in_flight.insert(offset),
                    ..old(self)@
                }
            } else {
                old(self)@
            }),
    {
        broadcast use vstd::std_specs::hash::group_hash_axioms;

        if self.saved_tracks_prefetch_generation != generation {
            return false;
        }
        if self.library.saved_tracks.page_index_for_offset(offset).is_some() {
            return false;
        }
        if self.saved_tracks_prefetch_in_flight.contains(&offset) {
            return false;
        }
        self.saved_tracks_prefetch_in_flight.insert(offset);
        true
    }

    /// A page of saved tracks that was fetched ahead was answered, or could not be had. Says where
    /// fetching ahead goes on.
    pub fn saved_prefetch_arrived(
        &mut self,
        offset: u32,
        generation: u64,
        page: Option<Paged<TrackInfo>>,
    ) -> (next: Option<u32>)
        requires
            page matches Some(page) ==> page.items@.len() > 0 ==> offsets_in_range(
                page.deep_view(),
            ),
        ensures
            final(self)@ == saved_prefetch_settled(
                old(self)@,
                offset,
                generation,
                page.deep_view(),
            ),
            next == saved_offset_to_go_on(old(self)@, offset, generation, page.deep_view()),
    {
        broadcast use vstd::std_specs::hash::group_hash_axioms;

        self.saved_fetch_landed(offset);
        let page = match page {
            Some(page) => page,
            None => {
                return None;
            },
        };
        if page.items.len() == 0 {
            return None;
        }
        let next = next_saved_tracks_offset(&page);
        if self.saved_tracks_prefetch_generation != generation {
            return None;
        }
        self.show_saved_page(page);
        match next {
            Some(next) => {
                if self.library.saved_tracks.page_index_for_offset(next).is_none()
                    && !self.saved_tracks_prefetch_in_flight.contains(&next) {
                    Some(next)
                } else {
                    None
                }
            },
            None => None,
        }
    }

    /// A page of saved albums was answered. Plugins are told even of an empty page: they wait for
    /// the answer.
    pub fn saved_albums_arrived(&mut self, outcome: Result<Paged<CollectionInfo>, RequestError>)
        ensures
            final(self)@ == albums_settled(old(self)@, paged_outcome(outcome)),
    {
        match outcome {
            Ok(page) => {
                if page.items.len() > 0 {
                    self.library.saved_albums.add_pages(page);
                }
                self.plugin_data_generations.bump(PluginDataKind::SavedAlbums);
            },
            Err(error) => {
                self.handle_error(error);
            },
        }
    }

    /// A page of saved shows was answered. Plugins are told even of an empty page.
    pub fn saved_shows_arrived(&mut self, outcome: Result<Paged<CollectionInfo>, RequestError>)
        ensures
            final(self)@ == shows_settled(old(self)@, paged_outcome(outcome)),
    {
        match outcome {
            Ok(page) => {
                if page.items.len() > 0 {
                    self.library.saved_shows.add_pages(page);
                }
                self.plugin_data_generations.bump(PluginDataKind::SavedShows);
            },
            Err(error) => {
                self.handle_error(error);
            },
        }
    }
}

/// The state after a page of saved albums was answered.
pub open spec fn albums_settled(
    app: AppView,
    outcome: Result<PagedView<ArtistRefView>, RequestErrorView>,
) -> AppView {
    match outcome {
        Ok(page) => plugins_told(
            if page.items.len() > 0 {
                AppView { saved_albums: pages_with(app.saved_albums, page), ..app }
            } else {
                app
            },
            PluginDataKind::SavedAlbums,
        ),
        Err(error) => with_error(app, error),
    }
}

/// The state after a page of saved shows was answered.
pub open spec fn shows_settled(
    app: AppView,
    outcome: Result<PagedView<ArtistRefView>, RequestErrorView>,
) -> AppView {
    match outcome {
        Ok(page) => plugins_told(
            if page.items.len() > 0 {
                AppView { saved_shows: pages_with(app.saved_shows, page), ..app }
            } else {
                app
            },
            PluginDataKind::SavedShows,
        ),
        Err(error) => with_error(app, error),
    }
}

/// The state, with an answer taken over on which albums are saved.
pub open spec fn albums_flagged(app: AppView, ids: Seq<Seq<char>>, flags: Seq<bool>) -> AppView {
    AppView { saved_album_ids: with_flags(app.saved_album_ids, ids, flags), ..app }
}

/// The state, with an answer taken over on which shows are saved.
pub open spec fn shows_flagged(app: AppView, ids: Seq<Seq<char>>, flags: Seq<bool>) -> AppView {
    AppView { saved_show_ids: with_flags(app.saved_show_ids, ids, flags), ..app }
}

/// The state, with an album saved or taken out of the library.
pub open spec fn album_changed(app: AppView, id: Seq<char>, saved: bool) -> AppView {
    AppView {
        saved_album_ids: if saved {
            app.saved_album_ids.insert(id)
        } else {
            app.saved_album_ids.remove(id)
        },
        ..app
    }
}

/// The state, with a show saved or taken out of the library.
pub open spec fn show_changed(app: AppView, id: Seq<char>, saved: bool) -> AppView {
    AppView {
        saved_show_ids: if saved {
            app.saved_show_ids.insert(id)
        } else {
            app.saved_show_ids.remove(id)
        },
        ..app
    }
}

/// The pages, with one behind the others, which is the current one.
pub open spec fn pages_with(
    pages: PagesView<ArtistRefView>,
    page: PagedView<ArtistRefView>,
) -> PagesView<ArtistRefView> {
    PagesView { index: pages.pages.len() as usize, pages: pages.pages.push(page) }
}

/// A set, with what an answer says of the texts of a list: those that are said to be in it are, and
/// those that are said not to be in it are not. A text that the answer says nothing of stays.
pub open spec fn with_flags(
    set: Set<Seq<char>>,
    texts: Seq<Seq<char>>,
    flags: Seq<bool>,
) -> Set<Seq<char>>
    decreases texts.len(),
{
    if texts.len() == 0 {
        set
    } else {
        let before = with_flags(set, texts.drop_last(), flags);
        if texts.len() - 1 < flags.len() {
            if flags[texts.len() - 1] {
                before.insert(texts.last())
            } else {
                before.remove(texts.last())
            }
        } else {
            before
        }
    }
}

/// Takes over what an answer says of ids.
pub fn apply_saved_flags(set: &mut StringHashSet, ids: &Vec<String>, is_saved: &Vec<bool>)
    ensures
        final(set)@ == with_flags(old(set)@, ids.deep_view(), is_saved@),
{
    let ghost all = ids.deep_view();
    let ghost before = set@;
    let mut i: usize = 0;
    assert(all.take(0) =~= seq![]);
    while i < ids.len()
        invariant
            i <= ids@.len(),
            all == ids.deep_view(),
            set@ == with_flags(before, all.take(i as int), is_saved@),
        decreases ids@.len() - i,
    {
        assert(all.take(i + 1).drop_last() =~= all.take(i as int));
        assert(all.take(i + 1).last() == ids@[i as int]@);
        if i < is_saved.len() {
            if is_saved[i] {
                set.insert(ids[i].clone());
            } else {
                set.remove(ids[i].as_str());
            }
        }
        i += 1;
    }
    assert(all.take(i as int) =~= all);
}

/// What an answer says of an id is what holds afterwards, unless the id is asked for again further
/// on; an id that was not asked for stays as it was.
pub proof fn lemma_flags_hold(
    set: Set<Seq<char>>,
    texts: Seq<Seq<char>>,
    flags: Seq<bool>,
    text: Seq<char>,
)
    ensures
        !texts.contains(text) ==> (with_flags(set, texts, flags).contains(text) <==> set.contains(
            text,
        )),
        forall|i: int|
            0 <= i < texts.len() && i < flags.len() && #[trigger] texts[i] == text && (forall|k: int|
                i < k < texts.len() ==> #[trigger] texts[k] != text) ==> with_flags(
                set,
                texts,
                flags,
            ).contains(text) == flags[i],
    decreases texts.len(),
{
    if texts.len() > 0 {
        let fewer = texts.drop_last();
        lemma_flags_hold(set, fewer, flags, text);
        if !texts.contains(text) {
            if fewer.contains(text) {
                let i = choose|i: int| 0 <= i < fewer.len() && fewer[i] == text;
                assert(texts[i] == text);
            }
            assert(texts[texts.len() - 1] == texts.last());
        }
        assert forall|i: int|
            0 <= i < texts.len() && i < flags.len() && #[trigger] texts[i] == text && (forall|k: int|
                i < k < texts.len() ==> #[trigger] texts[k] != text) implies with_flags(
            set,
            texts,
            flags,
        ).contains(text) == flags[i] by {
            if i < texts.len() - 1 {
                assert(fewer[i] == text);
                assert(texts[texts.len() - 1] != text);
                assert forall|k: int| i < k < fewer.len() implies #[trigger] fewer[k] != text by {
                    assert(texts[k] == fewer[k]);
                }
            }
        }
    }
}

impl App {
    /// Takes over which albums are saved.
    pub fn saved_albums_checked(
        &mut self,
        ids: &Vec<String>,
        outcome: Result<Vec<bool>, RequestError>,
    )
        ensures
            final(self)@ == (match outcome {
                Ok(is_saved) => albums_flagged(old(self)@, ids.deep_view(), is_saved@),
                Err(error) => with_error(old(self)@, error@),
            }),
    {
        match outcome {
            Ok(is_saved) => {
                apply_saved_flags(&mut self.saved_album_ids_set, ids, &is_saved);
            },
            Err(error) => {
                self.handle_error(error);
            },
        }
    }

    /// Takes over which shows are saved.
    pub fn saved_shows_checked(
        &mut self,
        ids: &Vec<String>,
        outcome: Result<Vec<bool>, RequestError>,
    )
        ensures
            final(self)@ == (match outcome {
                Ok(is_saved) => shows_flagged(old(self)@, ids.deep_view(), is_saved@),
                Err(error) => with_error(old(self)@, error@),
            }),
    {
        match outcome {
            Ok(is_saved) => {
                apply_saved_flags(&mut self.saved_show_ids_set, ids, &is_saved);
            },
            Err(error) => {
                self.handle_error(error);
            },
        }
    }

    /// An album was saved or taken out of the library, or that failed.
    pub fn album_change_settled(&mut self, id: &str, saved: bool, failure: Option<RequestError>)
        ensures
            final(self)@ == (match failure {
                Some(error) => with_error(old(self)@, error@),
                None => album_changed(old(self)@, id@, saved),
            }),
    {
        match failure {
            Some(error) => {
                self.handle_error(error);
            },
            None => {
                if saved {
                    self.saved_album_ids_set.insert(id.to_owned());
                } else {
                    self.saved_album_ids_set.remove(id);
                }
            },
        }
    }

    /// A show was saved or taken out of the library, or that failed.
    pub fn show_change_settled(&mut self, id: &str, saved: bool, failure: Option<RequestError>)
        ensures
            final(self)@ == (match failure {
                Some(error) => with_error(old(self)@, error@),
                None => show_changed(old(self)@, id@, saved),
            }),
    {
        match failure {
            Some(error) => {
                self.handle_error(error);
            },
            None => {
                if saved {
                    self.saved_show_ids_set.insert(id.to_owned());
                } else {
                    self.saved_show_ids_set.remove(id);
                }
            },
        }
    }
}

/// The tracks of two runs of pages, one behind the other, are the tracks of the whole, and those of
/// one page are its items.
pub proof fn lemma_items_of_runs(
    left: Seq<PagedView<TrackView>>,
    right: Seq<PagedView<TrackView>>,
    page: PagedView<TrackView>,
)
    ensures
        items_of_pages(left + right) == items_of_pages(left) + items_of_pages(right),
        items_of_pages(seq![page]) == page.items,
        items_of_pages(seq![]).len() == 0,
    decreases right.len(),
{
    let one = seq![page];
    assert(one.drop_last() =~= seq![]);
    assert(items_of_pages(one.drop_last()) =~= seq![]);
    assert(items_of_pages(one) =~= page.items);
    if right.len() == 0 {
        assert(left + right =~= left);
        assert(items_of_pages(left) + items_of_pages(right) =~= items_of_pages(left));
    } else {
        lemma_items_of_runs(left, right.drop_last(), page);
        assert((left + right).drop_last() =~= left + right.drop_last());
        assert(items_of_pages(left + right) =~= items_of_pages(left) + items_of_pages(right));
    }
}

/// A page of saved tracks that is wanted is kept at its offset, its tracks are liked, the table shows
/// the pages without a gap, plugins are told, and the page is no longer on its way.
#[verifier::rlimit(30)]
pub proof fn lemma_saved_page_is_taken_in(
    app: AppView,
    offset: u32,
    page: PagedView<TrackView>,
    id: Seq<char>,
)
    requires
        in_order(app.saved_tracks.pages),
    ensures
        ({
            let after = saved_page_settled(
                app,
                offset,
                app.saved_tracks_prefetch_generation,
                Ok(page),
            );
            &&& after.saved_tracks.pages.contains(page)
            &&& forall|other: PagedView<TrackView>|
                other.offset != page.offset ==> (#[trigger] after.saved_tracks.pages.contains(other)
                    <==> app.saved_tracks.pages.contains(other))
            &&& after.liked_song_ids.contains(id) <==> app.liked_song_ids.contains(id) || exists|
                i: int,
            |
                0 <= i < page.items.len() && (#[trigger] page.items[i]).id == Some(id)
            &&& after.table_tracks == items_of_pages(shown_pages(after.saved_tracks.pages))
            &&& !after.saved_tracks_prefetch_in_flight.contains(offset)
            &&& after.plugin_data_generations.saved_tracks
                != app.plugin_data_generations.saved_tracks
            &&& after.navigation_stack == app.navigation_stack
            &&& after.api_error == app.api_error
        }),
{
    lemma_with_texts(app.liked_song_ids, track_ids(page.items), id);
    lemma_ids_are_of_tracks(page.items, id);
    lemma_counters_move_on(app.plugin_data_generations.saved_tracks);
    let pages = app.saved_tracks.pages;
    lemma_upsert_keeps_order(pages, page);
    assert(upserted(pages, page)[upsert_index(pages, page)] == page);
    assert forall|other: PagedView<TrackView>| other.offset != page.offset implies (
    #[trigger] upserted(pages, page).contains(other) <==> pages.contains(other)) by {
        lemma_upsert_keeps_others(pages, page, other);
    }
}

/// A page of saved tracks that is no longer wanted changes nothing but the note that it is on its way.
/// A page that could not be had is told of as an error.
pub proof fn lemma_saved_page_is_passed_over(
    app: AppView,
    offset: u32,
    generation: u64,
    page: PagedView<TrackView>,
    error: RequestErrorView,
)
    requires
        app.saved_tracks_prefetch_generation != generation,
    ensures
        ({
            let late = saved_page_settled(app, offset, generation, Ok(page));
            let failed = saved_page_settled(app, offset, generation, Err(error));
            &&& late == (AppView {
                saved_tracks_prefetch_in_flight: late.saved_tracks_prefetch_in_flight,
                ..app
            })
            &&& !late.saved_tracks_prefetch_in_flight.contains(offset)
            &&& failed.api_error == error_text(error)
            &&& current_route(failed).id == RouteId::Error
            &&& failed.saved_tracks == app.saved_tracks
            &&& !failed.saved_tracks_prefetch_in_flight.contains(offset)
        }),
{
    lemma_error_is_shown(saved_landed(app, offset), error);
}

/// Behind a page of saved tracks the next one is fetched ahead, where the page names one and it was
/// not fetched: it starts where the limit of the page ends.
pub proof fn lemma_next_saved_page_is_fetched_ahead(app: AppView, page: PagedView<TrackView>)
    requires
        in_order(app.saved_tracks.pages),
        page.offset + page.limit <= u32::MAX,
        page.limit > 0,
    ensures
        ({
            let behind = (page.offset + page.limit) as u32;
            let next = saved_offset_to_prefetch(
                app,
                app.saved_tracks_prefetch_generation,
                Ok(page),
            );
            &&& page.next is None ==> next is None
            &&& page.next is Some && has_page_at(app.saved_tracks.pages, behind) ==> next is None
            &&& page.next is Some && !has_page_at(app.saved_tracks.pages, behind) ==> next == Some(
                behind,
            )
        }),
{
    lemma_upsert_keeps_order(app.saved_tracks.pages, page);
}

/// Fetching ahead goes on behind a page in the same way, unless the next page is on its way. It ends
/// with a page that is empty, that is not wanted or that could not be had; a failure is not told of.
#[verifier::rlimit(30)]
pub proof fn lemma_saved_prefetch_goes_on(
    app: AppView,
    offset: u32,
    generation: u64,
    page: PagedView<TrackView>,
)
    requires
        in_order(app.saved_tracks.pages),
        page.offset + page.limit <= u32::MAX,
        page.limit > 0,
        offset == page.offset,
    ensures
        ({
            let behind = (page.offset + page.limit) as u32;
            let next = saved_offset_to_go_on(app, offset, generation, Some(page));
            let after = saved_prefetch_settled(app, offset, generation, Some(page));
            let failed = saved_prefetch_settled(app, offset, generation, None);
            let wanted = app.saved_tracks_prefetch_generation == generation && page.items.len() > 0;
            &&& next is Some <==> {
                &&& wanted
                &&& page.next is Some
                &&& !has_page_at(app.saved_tracks.pages, behind)
                &&& !app.saved_tracks_prefetch_in_flight.contains(behind)
            }
            &&& next matches Some(found) ==> found == behind
            &&& saved_offset_to_go_on(app, offset, generation, None) is None
            &&& wanted ==> after.saved_tracks.pages.contains(page)
            &&& !wanted ==> after.saved_tracks == app.saved_tracks
            &&& failed.saved_tracks == app.saved_tracks
            &&& failed.navigation_stack == app.navigation_stack
            &&& failed.api_error == app.api_error
            &&& failed.status == app.status
            &&& !after.saved_tracks_prefetch_in_flight.contains(offset)
            &&& !failed.saved_tracks_prefetch_in_flight.contains(offset)
        }),
{
    lemma_upsert_keeps_order(app.saved_tracks.pages, page);
    let pages = app.saved_tracks.pages;
    assert(upserted(pages, page)[upsert_index(pages, page)] == page);
}

/// A page of saved tracks is fetched ahead where it is wanted, unless it was fetched or is on its way.
pub proof fn lemma_saved_prefetch_begins(app: AppView, offset: u32)
    ensures
        saved_prefetch_wanted(app, offset, app.saved_tracks_prefetch_generation) <==> {
            &&& !app.saved_tracks_prefetch_in_flight.contains(offset)
            &&& forall|i: int|
                0 <= i < app.saved_tracks.pages.len() ==> (
                #[trigger] app.saved_tracks.pages[i]).offset != offset
        },
        forall|generation: u64|
            generation != app.saved_tracks_prefetch_generation ==> !(
            #[trigger] saved_prefetch_wanted(app, offset, generation)),
{
}

/// A page that comes is the last one, and the current one.
pub proof fn lemma_page_is_added(pages: PagesView<ArtistRefView>, page: PagedView<ArtistRefView>)
    requires
        pages.pages.len() < usize::MAX,
    ensures
        pages_with(pages, page).pages.len() == pages.pages.len() + 1,
        pages_with(pages, page).pages.drop_last() == pages.pages,
        pages_with(pages, page).pages[pages_with(pages, page).index as int] == page,
{
    assert(pages_with(pages, page).pages.drop_last() =~= pages.pages);
}

/// Telling plugins of a change of a list changes nothing but its counter.
pub proof fn lemma_plugins_are_told(app: AppView, kind: PluginDataKind)
    ensures
        plugins_told(app, kind) == (AppView {
            plugin_data_generations: plugins_told(app, kind).plugin_data_generations,
            ..app
        }),
        plugins_told(app, kind).plugin_data_generations != app.plugin_data_generations,
{
    lemma_one_counter_moves(app.plugin_data_generations, kind);
}

/// A page of saved tracks that arrives changes the pages, the likes and the table that shows them, and
/// what plugins are told, and nothing else. The fetches of other pages go on.
pub proof fn lemma_only_saved_pages_change(
    app: AppView,
    offset: u32,
    generation: u64,
    page: PagedView<TrackView>,
    other: u32,
)
    ensures
        ({
            let after = saved_page_settled(app, offset, generation, Ok(page));
            let ahead = saved_prefetch_settled(app, offset, generation, Some(page));
            &&& after == (AppView {
                saved_tracks: after.saved_tracks,
                liked_song_ids: after.liked_song_ids,
                table_tracks: after.table_tracks,
                pending_track_table_selection: after.pending_track_table_selection,
                view: ViewState { track_table_index: after.view.track_table_index, ..app.view },
                saved_tracks_prefetch_in_flight: after.saved_tracks_prefetch_in_flight,
                plugin_data_generations: after.plugin_data_generations,
                ..app
            })
            &&& ahead == (AppView {
                saved_tracks: ahead.saved_tracks,
                liked_song_ids: ahead.liked_song_ids,
                table_tracks: ahead.table_tracks,
                pending_track_table_selection: ahead.pending_track_table_selection,
                view: ViewState { track_table_index: ahead.view.track_table_index, ..app.view },
                saved_tracks_prefetch_in_flight: ahead.saved_tracks_prefetch_in_flight,
                ..app
            })
            &&& other != offset ==> after.saved_tracks_prefetch_in_flight.contains(other)
                == app.saved_tracks_prefetch_in_flight.contains(other)
            &&& other != offset ==> ahead.saved_tracks_prefetch_in_flight.contains(other)
                == app.saved_tracks_prefetch_in_flight.contains(other)
        }),
{
}

/// A page of saved tracks that was fetched ahead is taken in as one that was asked for: the same pages,
/// the same likes and the same table.
pub proof fn lemma_prefetched_saved_page_is_taken_in(
    app: AppView,
    offset: u32,
    page: PagedView<TrackView>,
)
    requires
        page.items.len() > 0,
    ensures
        ({
            let generation = app.saved_tracks_prefetch_generation;
            let after = saved_page_settled(app, offset, generation, Ok(page));
            let ahead = saved_prefetch_settled(app, offset, generation, Some(page));
            &&& ahead.saved_tracks == after.saved_tracks
            &&& ahead.liked_song_ids == after.liked_song_ids
            &&& ahead.table_tracks == after.table_tracks
            &&& ahead.view == after.view
        }),
{
}

/// The table of saved tracks has its selected row as any table has, and the page that is current is
/// the last one that is shown.
pub proof fn lemma_saved_table_is_shown(app: AppView)
    requires
        shown_pages(app.saved_tracks.pages).len() <= usize::MAX,
    ensures
        ({
            let after = saved_shown(app);
            let shown = shown_pages(app.saved_tracks.pages);
            &&& after.table_tracks == items_of_pages(shown)
            &&& shown.len() > 0 ==> after.saved_tracks.index == shown.len() - 1
            &&& shown.len() == 0 ==> after.saved_tracks.index == 0
            &&& after.saved_tracks.pages == app.saved_tracks.pages
            &&& after.view.track_table_index == selected_row(
                app.pending_track_table_selection,
                app.view.track_table_index,
                after.table_tracks.len(),
            )
        }),
{
}

/// A page of saved albums is added to the albums, and one of saved shows to the shows, unless it is
/// empty; plugins are told of the list that was asked for even then. What could not be had is an error.
pub proof fn lemma_albums_and_shows_arrive(
    app: AppView,
    page: PagedView<ArtistRefView>,
    error: RequestErrorView,
)
    ensures
        ({
            let albums = albums_settled(app, Ok(page));
            let shows = shows_settled(app, Ok(page));
            let counts = app.plugin_data_generations;
            &&& page.items.len() > 0 ==> {
                &&& albums.saved_albums.pages == app.saved_albums.pages.push(page)
                &&& shows.saved_shows.pages == app.saved_shows.pages.push(page)
            }
            &&& page.items.len() == 0 ==> {
                &&& albums.saved_albums == app.saved_albums
                &&& shows.saved_shows == app.saved_shows
            }
            &&& albums.plugin_data_generations.saved_albums != counts.saved_albums
            &&& albums.plugin_data_generations.saved_shows == counts.saved_shows
            &&& shows.plugin_data_generations.saved_shows != counts.saved_shows
            &&& shows.plugin_data_generations.saved_albums == counts.saved_albums
            &&& albums == (AppView {
                saved_albums: albums.saved_albums,
                plugin_data_generations: albums.plugin_data_generations,
                ..app
            })
            &&& shows == (AppView {
                saved_shows: shows.saved_shows,
                plugin_data_generations: shows.plugin_data_generations,
                ..app
            })
            &&& albums_settled(app, Err(error)).api_error == error_text(error)
            &&& current_route(albums_settled(app, Err(error))).id == RouteId::Error
            &&& shows_settled(app, Err(error)).api_error == error_text(error)
            &&& current_route(shows_settled(app, Err(error))).id == RouteId::Error
        }),
{
    lemma_one_counter_moves(app.plugin_data_generations, PluginDataKind::SavedAlbums);
    lemma_one_counter_moves(app.plugin_data_generations, PluginDataKind::SavedShows);
    lemma_error_is_shown(app, error);
}

/// An album that is saved is saved and one that is taken out is not, and so with a show; no other album
/// or show changes. What was saved and is taken out again is as if it had never been.
pub proof fn lemma_albums_and_shows_are_saved(
    app: AppView,
    id: Seq<char>,
    saved: bool,
    other: Seq<char>,
)
    ensures
        ({
            let album = album_changed(app, id, saved);
            let show = show_changed(app, id, saved);
            &&& album.saved_album_ids.contains(id) == saved
            &&& show.saved_show_ids.contains(id) == saved
            &&& other != id ==> album.saved_album_ids.contains(other)
                == app.saved_album_ids.contains(other)
            &&& other != id ==> show.saved_show_ids.contains(other)
                == app.saved_show_ids.contains(other)
            &&& album == (AppView { saved_album_ids: album.saved_album_ids, ..app })
            &&& show == (AppView { saved_show_ids: show.saved_show_ids, ..app })
            &&& !app.saved_album_ids.contains(id) ==> album_changed(
                album_changed(app, id, true),
                id,
                false,
            ) == app
            &&& !app.saved_show_ids.contains(id) ==> show_changed(
                show_changed(app, id, true),
                id,
                false,
            ) == app
        }),
{
    assert(!app.saved_album_ids.contains(id) ==> app.saved_album_ids.insert(id).remove(id)
        =~= app.saved_album_ids);
    assert(!app.saved_show_ids.contains(id) ==> app.saved_show_ids.insert(id).remove(id)
        =~= app.saved_show_ids);
}

/// What an answer says of an album or of a show that was asked for once is what holds afterwards. An
/// answer on albums changes no show, and one on shows no album.
pub proof fn lemma_albums_and_shows_are_checked(
    app: AppView,
    ids: Seq<Seq<char>>,
    flags: Seq<bool>,
    i: int,
)
    requires
        0 <= i < ids.len(),
        ids.len() == flags.len(),
        forall|k: int| i < k < ids.len() ==> #[trigger] ids[k] != ids[i],
    ensures
        ({
            let albums = albums_flagged(app, ids, flags);
            let shows = shows_flagged(app, ids, flags);
            &&& albums.saved_album_ids.contains(ids[i]) == flags[i]
            &&& shows.saved_show_ids.contains(ids[i]) == flags[i]
            &&& albums == (AppView { saved_album_ids: albums.saved_album_ids, ..app })
            &&& shows == (AppView { saved_show_ids: shows.saved_show_ids, ..app })
        }),
{
    lemma_flags_hold(app.saved_album_ids, ids, flags, ids[i]);
    lemma_flags_hold(app.saved_show_ids, ids, flags, ids[i]);
}

} // verus!
