//! What the library is about: tracks, episodes, playlists, and the pages in which they come.

use vstd::prelude::*;

verus! {

/// An artist as a track names it.
#[derive(Debug, PartialEq, Eq)]
pub struct ArtistRef {
    pub id: Option<String>,
    pub name: String,
}

/// What an [`ArtistRef`] stands for.
pub struct ArtistRefView {
    pub id: Option<Seq<char>>,
    pub name: Seq<char>,
}

impl DeepView for ArtistRef {
    type V = ArtistRefView;

    open spec fn deep_view(&self) -> ArtistRefView {
        ArtistRefView { id: self.id.deep_view(), name: self.name@ }
    }
}

impl Clone for ArtistRef {
    fn clone(&self) -> (copy: Self)
        ensures
            copy.deep_view() == self.deep_view(),
    {
        ArtistRef { id: self.id.clone(), name: self.name.clone() }
    }
}

/// A track, from whatever source.
#[derive(Debug, PartialEq, Eq)]
pub struct TrackInfo {
    pub uri: Option<String>,
    pub name: String,
    pub artists: Vec<String>,
    pub album: String,
    pub duration_ms: u64,
    pub id: Option<String>,
    pub album_id: Option<String>,
    pub artist_refs: Vec<ArtistRef>,
    pub is_playable: bool,
    pub is_local: bool,
    pub track_number: u32,
    pub explicit: bool,
    pub image_url: Option<String>,
}

/// What a [`TrackInfo`] stands for.
pub struct TrackView {
    pub uri: Option<Seq<char>>,
    pub name: Seq<char>,
    pub artists: Seq<Seq<char>>,
    pub album: Seq<char>,
    pub duration_ms: u64,
    pub id: Option<Seq<char>>,
    pub album_id: Option<Seq<char>>,
    pub artist_refs: Seq<ArtistRefView>,
    pub is_playable: bool,
    pub is_local: bool,
    pub track_number: u32,
    pub explicit: bool,
    pub image_url: Option<Seq<char>>,
}

impl DeepView for TrackInfo {
    type V = TrackView;

    open spec fn deep_view(&self) -> TrackView {
        TrackView {
            uri: self.uri.deep_view(),
            name: self.name@,
            artists: self.artists.deep_view(),
            album: self.album@,
            duration_ms: self.duration_ms,
            id: self.id.deep_view(),
            album_id: self.album_id.deep_view(),
            artist_refs: self.artist_refs.deep_view(),
            is_playable: self.is_playable,
            is_local: self.is_local,
            track_number: self.track_number,
            explicit: self.explicit,
            image_url: self.image_url.deep_view(),
        }
    }
}

impl Clone for TrackInfo {
    fn clone(&self) -> (copy: Self)
        ensures
            copy.deep_view() == self.deep_view(),
    {
        let artists = self.artists.clone();
        assert(artists.deep_view() =~= self.artists.deep_view());
        let artist_refs = self.artist_refs.clone();
        assert(artist_refs.deep_view() =~= self.artist_refs.deep_view());
        TrackInfo {
            uri: self.uri.clone(),
            name: self.name.clone(),
            artists,
            album: self.album.clone(),
            duration_ms: self.duration_ms,
            id: self.id.clone(),
            album_id: self.album_id.clone(),
            artist_refs,
            is_playable: self.is_playable,
            is_local: self.is_local,
            track_number: self.track_number,
            explicit: self.explicit,
            image_url: self.image_url.clone(),
        }
    }
}

/// An episode of a show.
#[derive(Debug, PartialEq, Eq)]
pub struct EpisodeInfo {
    pub id: Option<String>,
    pub uri: Option<String>,
    pub name: String,
    pub duration_ms: u64,
    pub show_name: String,
    pub description: String,
    pub release_date: String,
    pub is_playable: bool,
    pub resume_position_ms: Option<u64>,
    pub image_url: Option<String>,
}

/// What an [`EpisodeInfo`] stands for.
pub struct EpisodeView {
    pub id: Option<Seq<char>>,
    pub uri: Option<Seq<char>>,
    pub name: Seq<char>,
    pub duration_ms: u64,
    pub show_name: Seq<char>,
    pub description: Seq<char>,
    pub release_date: Seq<char>,
    pub is_playable: bool,
    pub resume_position_ms: Option<u64>,
    pub image_url: Option<Seq<char>>,
}

impl DeepView for EpisodeInfo {
    type V = EpisodeView;

    open spec fn deep_view(&self) -> EpisodeView {
        EpisodeView {
            id: self.id.deep_view(),
            uri: self.uri.deep_view(),
            name: self.name@,
            duration_ms: self.duration_ms,
            show_name: self.show_name@,
            description: self.description@,
            release_date: self.release_date@,
            is_playable: self.is_playable,
            resume_position_ms: self.resume_position_ms,
            image_url: self.image_url.deep_view(),
        }
    }
}

impl Clone for EpisodeInfo {
    fn clone(&self) -> (copy: Self)
        ensures
            copy.deep_view() == self.deep_view(),
    {
        EpisodeInfo {
            id: self.id.clone(),
            uri: self.uri.clone(),
            name: self.name.clone(),
            duration_ms: self.duration_ms,
            show_name: self.show_name.clone(),
            description: self.description.clone(),
            release_date: self.release_date.clone(),
            is_playable: self.is_playable,
            resume_position_ms: self.resume_position_ms,
            image_url: self.image_url.clone(),
        }
    }
}

/// What a playlist lists.
#[derive(Debug, PartialEq, Eq)]
pub enum PlayableInfo {
    Track(TrackInfo),
    Episode(EpisodeInfo),
}

/// What a [`PlayableInfo`] stands for.
pub enum PlayableView {
    Track(TrackView),
    Episode(EpisodeView),
}

impl DeepView for PlayableInfo {
    type V = PlayableView;

    open spec fn deep_view(&self) -> PlayableView {
        match self {
            PlayableInfo::Track(track) => PlayableView::Track(track.deep_view()),
            PlayableInfo::Episode(episode) => PlayableView::Episode(episode.deep_view()),
        }
    }
}

impl Clone for PlayableInfo {
    fn clone(&self) -> (copy: Self)
        ensures
            copy.deep_view() == self.deep_view(),
    {
        match self {
            PlayableInfo::Track(track) => PlayableInfo::Track(track.clone()),
            PlayableInfo::Episode(episode) => PlayableInfo::Episode(episode.clone()),
        }
    }
}

/// A playlist, without what it lists.
#[derive(Debug, PartialEq, Eq)]
pub struct PlaylistInfo {
    pub id: Option<String>,
    pub name: String,
    pub owner_id: Option<String>,
    pub collaborative: bool,
    pub public: Option<bool>,
}

/// What a [`PlaylistInfo`] stands for.
pub struct PlaylistView {
    pub id: Option<Seq<char>>,
    pub name: Seq<char>,
    pub owner_id: Option<Seq<char>>,
    pub collaborative: bool,
    pub public: Option<bool>,
}

impl DeepView for PlaylistInfo {
    type V = PlaylistView;

    open spec fn deep_view(&self) -> PlaylistView {
        PlaylistView {
            id: self.id.deep_view(),
            name: self.name@,
            owner_id: self.owner_id.deep_view(),
            collaborative: self.collaborative,
            public: self.public,
        }
    }
}

impl Clone for PlaylistInfo {
    fn clone(&self) -> (copy: Self)
        ensures
            copy.deep_view() == self.deep_view(),
    {
        PlaylistInfo {
            id: self.id.clone(),
            name: self.name.clone(),
            owner_id: self.owner_id.clone(),
            collaborative: self.collaborative,
            public: self.public,
        }
    }
}

/// An album or a show, as far as a list of them says.
#[derive(Debug, PartialEq, Eq)]
pub struct CollectionInfo {
    pub id: Option<String>,
    pub name: String,
}

impl DeepView for CollectionInfo {
    type V = ArtistRefView;

    open spec fn deep_view(&self) -> ArtistRefView {
        ArtistRefView { id: self.id.deep_view(), name: self.name@ }
    }
}

/// One page of a longer list.
#[derive(Debug, PartialEq, Eq)]
pub struct Paged<T> {
    pub items: Vec<T>,
    pub limit: u32,
    pub next: Option<String>,
    pub offset: u32,
    pub previous: Option<String>,
    pub total: u32,
}

/// What a [`Paged`] stands for.
pub struct PagedView<V> {
    pub items: Seq<V>,
    pub limit: u32,
    pub next: Option<Seq<char>>,
    pub offset: u32,
    pub previous: Option<Seq<char>>,
    pub total: u32,
}

impl<T: DeepView> DeepView for Paged<T> {
    type V = PagedView<T::V>;

    open spec fn deep_view(&self) -> PagedView<T::V> {
        PagedView {
            items: self.items.deep_view(),
            limit: self.limit,
            next: self.next.deep_view(),
            offset: self.offset,
            previous: self.previous.deep_view(),
            total: self.total,
        }
    }
}

/// One page of what a playlist lists, each thing with its place in the playlist.
pub type PlaylistPage = Paged<(u32, PlayableInfo)>;

/// What a [`PlaylistPage`] stands for.
pub type PlaylistPageView = PagedView<(u32, PlayableView)>;

impl<T> Paged<T> {
    /// A page that starts a list and ends it.
    pub fn single(items: Vec<T>, total: u32) -> (page: Self)
        ensures
            page.items == items,
            page.total == total,
            page.limit == 0,
            page.offset == 0,
            page.next is None,
            page.previous is None,
    {
        Paged { items, limit: 0, next: None, offset: 0, previous: None, total }
    }
}

/// A page of a playlist, once more.
pub fn clone_playlist_page(page: &PlaylistPage) -> (copy: PlaylistPage)
    ensures
        copy.deep_view() == page.deep_view(),
{
    let mut items: Vec<(u32, PlayableInfo)> = Vec::new();
    let mut i: usize = 0;
    while i < page.items.len()
        invariant
            i <= page.items@.len(),
            items.deep_view() == page.items.deep_view().take(i as int),
        decreases page.items@.len() - i,
    {
        let ghost before = items.deep_view();
        items.push((page.items[i].0, page.items[i].1.clone()));
        assert(items.deep_view() =~= before.push(page.items.deep_view()[i as int]));
        i += 1;
    }
    assert(items.deep_view() =~= page.items.deep_view());
    Paged {
        items,
        limit: page.limit,
        next: page.next.clone(),
        offset: page.offset,
        previous: page.previous.clone(),
        total: page.total,
    }
}

/// A list of playlists, once more.
pub fn clone_playlists(playlists: &Vec<PlaylistInfo>) -> (copy: Vec<PlaylistInfo>)
    ensures
        copy.deep_view() == playlists.deep_view(),
{
    let copy = playlists.clone();
    assert(copy.deep_view() =~= playlists.deep_view());
    copy
}

/// Where the page behind a page starts.
pub open spec fn next_offset<V>(page: PagedView<V>) -> int {
    page.offset + page.limit
}

/// A page that names a next one says where that starts, within the range of offsets.
pub open spec fn offsets_in_range<V>(page: PagedView<V>) -> bool {
    page.next is Some ==> next_offset(page) <= u32::MAX
}

/// A track as the Web API describes it.
pub struct FullTrack {
    pub id: Option<String>,
    pub name: String,
    pub artists: Vec<ArtistRef>,
    pub album_id: Option<String>,
    pub album_name: String,
    pub album_image_url: Option<String>,
    pub duration_ms: u64,
    pub explicit: bool,
    pub is_local: bool,
    pub is_playable: Option<bool>,
    pub track_number: u32,
}

/// What a [`FullTrack`] stands for.
pub struct FullTrackView {
    pub id: Option<Seq<char>>,
    pub name: Seq<char>,
    pub artists: Seq<ArtistRefView>,
    pub album_id: Option<Seq<char>>,
    pub album_name: Seq<char>,
    pub album_image_url: Option<Seq<char>>,
    pub duration_ms: u64,
    pub explicit: bool,
    pub is_local: bool,
    pub is_playable: Option<bool>,
    pub track_number: u32,
}

impl DeepView for FullTrack {
    type V = FullTrackView;

    open spec fn deep_view(&self) -> FullTrackView {
        FullTrackView {
            id: self.id.deep_view(),
            name: self.name@,
            artists: self.artists.deep_view(),
            album_id: self.album_id.deep_view(),
            album_name: self.album_name@,
            album_image_url: self.album_image_url.deep_view(),
            duration_ms: self.duration_ms,
            explicit: self.explicit,
            is_local: self.is_local,
            is_playable: self.is_playable,
            track_number: self.track_number,
        }
    }
}

/// The names of artists.
pub open spec fn artist_names(artists: Seq<ArtistRefView>) -> Seq<Seq<char>> {
    Seq::new(artists.len(), |i: int| artists[i].name)
}

/// The names of artists.
pub fn names_of_artists(artists: &Vec<ArtistRef>) -> (names: Vec<String>)
    ensures
        names.deep_view() == artist_names(artists.deep_view()),
{
    let mut names: Vec<String> = Vec::new();
    let mut i: usize = 0;
    while i < artists.len()
        invariant
            i <= artists@.len(),
            names.deep_view() == artist_names(artists.deep_view()).take(i as int),
        decreases artists@.len() - i,
    {
        let ghost before = names.deep_view();
        names.push(artists[i].name.clone());
        assert(names.deep_view() =~= before.push(artist_names(artists.deep_view())[i as int]));
        i += 1;
    }
    assert(names.deep_view() =~= artist_names(artists.deep_view()));
    names
}

/// A track of the Web API as a track of the library. One that is not said to be unplayable is
/// playable.
pub open spec fn track_from_full(track: FullTrackView) -> TrackView {
    TrackView {
        uri: match track.id {
            Some(id) => Some("spotify:track:"@ + id),
            None => None,
        },
        name: track.name,
        artists: artist_names(track.artists),
        album: track.album_name,
        duration_ms: track.duration_ms,
        id: track.id,
        album_id: track.album_id,
        artist_refs: track.artists,
        is_playable: track.is_playable != Some(false),
        is_local: track.is_local,
        track_number: track.track_number,
        explicit: track.explicit,
        image_url: track.album_image_url,
    }
}

impl TrackInfo {
    /// A track of the Web API as a track of the library.
    pub fn from_full_track(track: &FullTrack) -> (info: TrackInfo)
        ensures
            info.deep_view() == track_from_full(track.deep_view()),
    {
        let artist_refs = track.artists.clone();
        assert(artist_refs.deep_view() =~= track.artists.deep_view());
        TrackInfo {
            uri: match &track.id {
                Some(id) => {
                    let mut uri = "spotify:track:".to_owned();
                    uri.append(id.as_str());
                    Some(uri)
                },
                None => None,
            },
            name: track.name.clone(),
            artists: names_of_artists(&track.artists),
            album: track.album_name.clone(),
            duration_ms: track.duration_ms,
            id: track.id.clone(),
            album_id: track.album_id.clone(),
            artist_refs,
            is_playable: match track.is_playable {
                Some(playable) => playable,
                None => true,
            },
            is_local: track.is_local,
            track_number: track.track_number,
            explicit: track.explicit,
            image_url: track.album_image_url.clone(),
        }
    }
}

/// The tracks among what a page lists, each with its place.
pub open spec fn tracks_in(items: Seq<(u32, PlayableView)>) -> Seq<(u32, TrackView)>
    decreases items.len(),
{
    if items.len() == 0 {
        seq![]
    } else {
        let before = tracks_in(items.drop_last());
        match items.last().1 {
            PlayableView::Track(track) => before.push((items.last().0, track)),
            PlayableView::Episode(_) => before,
        }
    }
}

/// The tracks without their places.
pub open spec fn only_tracks(tracks: Seq<(u32, TrackView)>) -> Seq<TrackView> {
    Seq::new(tracks.len(), |i: int| tracks[i].1)
}

/// The places without the tracks.
pub open spec fn only_places(tracks: Seq<(u32, TrackView)>) -> Seq<usize> {
    Seq::new(tracks.len(), |i: int| tracks[i].0 as usize)
}

/// The ids of those tracks that have one.
pub open spec fn track_ids(tracks: Seq<TrackView>) -> Seq<Seq<char>>
    decreases tracks.len(),
{
    if tracks.len() == 0 {
        seq![]
    } else {
        match tracks.last().id {
            Some(id) => track_ids(tracks.drop_last()).push(id),
            None => track_ids(tracks.drop_last()),
        }
    }
}

/// The ids of those tracks that have one.
pub fn ids_of_tracks(tracks: &Vec<TrackInfo>) -> (ids: Vec<String>)
    ensures
        ids.deep_view() == track_ids(tracks.deep_view()),
{
    let mut ids: Vec<String> = Vec::new();
    let ghost views = tracks.deep_view();
    let mut i: usize = 0;
    assert(views.take(0) =~= seq![]);
    assert(ids.deep_view() =~= seq![]);
    while i < tracks.len()
        invariant
            i <= tracks@.len(),
            views == tracks.deep_view(),
            ids.deep_view() == track_ids(views.take(i as int)),
        decreases tracks@.len() - i,
    {
        assert(views.take(i + 1).drop_last() =~= views.take(i as int));
        assert(views.take(i + 1).last() == tracks@[i as int].deep_view());
        let ghost before = ids.deep_view();
        if let Some(id) = &tracks[i].id {
            ids.push(id.clone());
            assert(ids.deep_view() =~= before.push(id@));
        }
        i += 1;
    }
    assert(views.take(i as int) =~= views);
    ids
}

/// The tracks of two lists, one behind the other, are the tracks of the whole. A track counts with its
/// place, an episode does not.
pub proof fn lemma_tracks_of_parts(
    left: Seq<(u32, PlayableView)>,
    right: Seq<(u32, PlayableView)>,
    place: u32,
    track: TrackView,
    episode: EpisodeView,
)
    ensures
        tracks_in(left + right) == tracks_in(left) + tracks_in(right),
        tracks_in(seq![(place, PlayableView::Track(track))]) == seq![(place, track)],
        tracks_in(seq![(place, PlayableView::Episode(episode))]).len() == 0,
        tracks_in(seq![]).len() == 0,
    decreases right.len(),
{
    let one = seq![(place, PlayableView::Track(track))];
    let other = seq![(place, PlayableView::Episode(episode))];
    assert(one.drop_last() =~= seq![]);
    assert(other.drop_last() =~= seq![]);
    assert(tracks_in(one.drop_last()) =~= seq![]);
    assert(tracks_in(one) =~= seq![(place, track)]);
    assert(tracks_in(other.drop_last()) =~= seq![]);
    if right.len() == 0 {
        assert(left + right =~= left);
        assert(tracks_in(left) + tracks_in(right) =~= tracks_in(left));
    } else {
        lemma_tracks_of_parts(left, right.drop_last(), place, track, episode);
        assert((left + right).drop_last() =~= left + right.drop_last());
        assert(tracks_in(left + right) =~= tracks_in(left) + tracks_in(right));
    }
}

/// The ids of two lists of tracks, one behind the other, are the ids of the whole. A track without an
/// id is passed over.
pub proof fn lemma_ids_of_parts(left: Seq<TrackView>, right: Seq<TrackView>, track: TrackView)
    ensures
        track_ids(left + right) == track_ids(left) + track_ids(right),
        track.id matches Some(id) ==> track_ids(seq![track]) == seq![id],
        track.id is None ==> track_ids(seq![track]).len() == 0,
        track_ids(seq![]).len() == 0,
    decreases right.len(),
{
    let one = seq![track];
    assert(one.drop_last() =~= seq![]);
    assert(track_ids(one.drop_last()) =~= seq![]);
    if let Some(id) = track.id {
        assert(track_ids(one) =~= seq![id]);
    }
    if right.len() == 0 {
        assert(left + right =~= left);
        assert(track_ids(left) + track_ids(right) =~= track_ids(left));
    } else {
        lemma_ids_of_parts(left, right.drop_last(), track);
        assert((left + right).drop_last() =~= left + right.drop_last());
        assert(track_ids(left + right) =~= track_ids(left) + track_ids(right));
    }
}

/// The id of every track that has one is among the ids, and no other is.
pub proof fn lemma_ids_are_of_tracks(tracks: Seq<TrackView>, id: Seq<char>)
    ensures
        track_ids(tracks).contains(id) <==> exists|i: int|
            0 <= i < tracks.len() && (#[trigger] tracks[i]).id == Some(id),
    decreases tracks.len(),
{
    if tracks.len() > 0 {
        let before = tracks.drop_last();
        lemma_ids_are_of_tracks(before, id);
        let ids = track_ids(tracks);
        let fewer = track_ids(before);
        if ids.contains(id) {
            let k = choose|k: int| 0 <= k < ids.len() && ids[k] == id;
            if k < fewer.len() {
                assert(fewer[k] == id);
                let i = choose|i: int| 0 <= i < before.len() && (#[trigger] before[i]).id == Some(id);
                assert(tracks[i].id == Some(id));
            } else {
                assert(tracks[tracks.len() - 1].id == Some(id));
            }
        }
        if exists|i: int| 0 <= i < tracks.len() && (#[trigger] tracks[i]).id == Some(id) {
            let i = choose|i: int| 0 <= i < tracks.len() && (#[trigger] tracks[i]).id == Some(id);
            if i < before.len() {
                assert(before[i].id == Some(id));
                let k = choose|k: int| 0 <= k < fewer.len() && fewer[k] == id;
                assert(ids[k] == id);
            } else {
                assert(ids[ids.len() - 1] == id);
            }
        }
    }
}

/// Tracks and places are taken apart as they stand: each track keeps its place.
pub proof fn lemma_tracks_keep_places(tracks: Seq<(u32, TrackView)>, i: int)
    requires
        0 <= i < tracks.len(),
    ensures
        only_tracks(tracks).len() == tracks.len(),
        only_places(tracks).len() == tracks.len(),
        only_tracks(tracks)[i] == tracks[i].1,
        only_places(tracks)[i] == tracks[i].0,
{
}

/// A track of the Web API keeps its title, its album, its length, its place and its ids. Its artists
/// are named in order, its URI is made of its id, and it is playable unless it is said not to be.
pub proof fn lemma_track_is_taken_over(track: FullTrackView)
    ensures
        ({
            let info = track_from_full(track);
            &&& info.name == track.name
            &&& info.album == track.album_name
            &&& info.id == track.id
            &&& info.album_id == track.album_id
            &&& info.duration_ms == track.duration_ms
            &&& info.track_number == track.track_number
            &&& info.explicit == track.explicit
            &&& info.is_local == track.is_local
            &&& info.image_url == track.album_image_url
            &&& info.artist_refs == track.artists
            &&& info.artists.len() == track.artists.len()
            &&& forall|i: int|
                0 <= i < track.artists.len() ==> #[trigger] info.artists[i] == track.artists[i].name
            &&& track.id matches Some(id) ==> info.uri == Some("spotify:track:"@ + id)
            &&& track.id is None ==> info.uri is None
            &&& track.is_playable == Some(false) ==> !info.is_playable
            &&& track.is_playable != Some(false) ==> info.is_playable
        }),
{
}

/// The page behind a page starts where its limit ends.
pub proof fn lemma_next_page_starts_behind<V>(page: PagedView<V>)
    ensures
        next_offset(page) - page.limit == page.offset,
        offsets_in_range(page) <==> page.next is None || page.offset + page.limit <= u32::MAX,
{
}

} // verus!
