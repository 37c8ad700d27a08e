//! Pages of a playlist from the native session, which lists what a playlist has and describes each
//! thing on its own.

use vstd::prelude::*;

use crate::domain::{
    artist_names, names_of_artists, ArtistRef, EpisodeInfo, EpisodeView, Paged, PagedView,
    PlayableInfo, PlayableView, PlaylistPage, PlaylistPageView, TrackInfo, TrackView,
};
use crate::errors::{RequestError, RequestErrorView};
use crate::ids::{is_ascii_alphanumeric, is_playlist_id, PlaylistId};
use crate::pages::saturated;

verus! {

/// The value of a digit to the base 62: digits, then small letters, then capital letters.
pub open spec fn base62_digit(c: char) -> nat {
    if '0' <= c <= '9' {
        (c as int - 48) as nat
    } else if 'a' <= c <= 'z' {
        (c as int - 87) as nat
    } else {
        (c as int - 29) as nat
    }
}

/// The number that digits to the base 62 write out.
pub open spec fn base62_value(digits: Seq<char>) -> nat
    decreases digits.len(),
{
    if digits.len() == 0 {
        0
    } else {
        base62_value(digits.drop_last()) * 62 + base62_digit(digits.last())
    }
}

/// The text is an id of the native session: 22 digits to the base 62, of a number of 128 bits.
pub open spec fn is_base62_id(text: Seq<char>) -> bool {
    text.len() == 22 && is_playlist_id(text) && base62_value(text) <= u128::MAX
}

/// `SpotifyId::from_base62` of `librespot_core`: the number that the text writes out, where it is an
/// id; else the text of its error, which is the same whatever is wrong with the text.
#[verifier::external_body]
fn parse_base62(text: &str) -> (id: Result<u128, String>)
    ensures
        match id {
            Ok(id) => is_base62_id(text@) && id == base62_value(text@),
            Err(message) => !is_base62_id(text@) && message@
                == "Client specified an invalid argument { ID cannot be parsed }"@,
        },
{
    match librespot_core::SpotifyId::from_base62(text) {
        Ok(id) => Ok(id.id),
        Err(error) => Err(error.to_string()),
    }
}

/// The id of a playlist for the native session.
pub fn native_playlist_id(playlist_id: &PlaylistId) -> (id: Result<u128, RequestError>)
    ensures
        match id {
            Ok(id) => is_base62_id(playlist_id@) && id == base62_value(playlist_id@),
            Err(error) => !is_base62_id(playlist_id@) && error@ == RequestErrorView::Other(
                "invalid playlist id for librespot: "@
                    + "Client specified an invalid argument { ID cannot be parsed }"@,
            ),
        },
{
    match parse_base62(playlist_id.id()) {
        Ok(id) => Ok(id),
        Err(message) => {
            let mut text = "invalid playlist id for librespot: ".to_owned();
            text.append(message.as_str());
            Err(RequestError::Other(text))
        },
    }
}

/// What a URI of the native session names.
#[derive(Clone, Copy, PartialEq, Eq, Structural, Debug)]
pub enum NativeKind {
    Track,
    Episode,
    Other,
}

/// A thing that a playlist of the native session lists.
#[derive(Debug, PartialEq, Eq)]
pub struct NativeItem {
    pub kind: NativeKind,
    pub uri: String,
}

impl DeepView for NativeItem {
    type V = (NativeKind, Seq<char>);

    open spec fn deep_view(&self) -> (NativeKind, Seq<char>) {
        (self.kind, self.uri@)
    }
}

/// A playlist as the native session lists it: how long it is, where the list starts, whether it was
/// cut short, and what it has.
pub struct NativePlaylist {
    pub length: i32,
    pub position: i32,
    pub is_truncated: bool,
    pub items: Vec<NativeItem>,
}

/// A number, or zero where it is negative.
pub open spec fn at_least_zero(number: i32) -> int {
    if number < 0 {
        0
    } else {
        number as int
    }
}

/// Things with their places, from a place on.
pub open spec fn numbered(items: Seq<(NativeKind, Seq<char>)>, from: int) -> Seq<
    (int, (NativeKind, Seq<char>)),
> {
    Seq::new(items.len(), |i: int| (from + i, items[i]))
}

/// How many things a page has at most: at least one.
pub open spec fn page_limit(limit: u32) -> u32 {
    if limit < 1 {
        1
    } else {
        limit
    }
}

/// The place is on the page.
pub open spec fn is_on_page(offset: u32, limit: u32) -> spec_fn(
    (int, (NativeKind, Seq<char>)),
) -> bool {
    |item: (int, (NativeKind, Seq<char>))|
        offset <= item.0 < saturated(offset, page_limit(limit))
}

/// What a list of things with their places stands for.
pub open spec fn placed_view(items: Seq<(u32, NativeItem)>) -> Seq<(int, (NativeKind, Seq<char>))> {
    Seq::new(items.len(), |i: int| (items[i].0 as int, items[i].1.deep_view()))
}

/// What a page of a playlist has, with the places. A list that was cut short is refused.
pub fn select_native_items(playlist: &NativePlaylist, offset: u32, limit: u32) -> (selected: Result<
    Vec<(u32, NativeItem)>,
    RequestError,
>)
    requires
        at_least_zero(playlist.position) + playlist.items@.len() <= u32::MAX + 1,
    ensures
        match selected {
            Ok(selected) => !playlist.is_truncated && placed_view(selected@) == numbered(
                playlist.items.deep_view(),
                at_least_zero(playlist.position),
            ).filter(is_on_page(offset, limit)),
            Err(error) => playlist.is_truncated && error@ == RequestErrorView::Other(
                "librespot returned truncated playlist contents"@,
            ),
        },
{
    if playlist.is_truncated {
        return Err(
            RequestError::Other("librespot returned truncated playlist contents".to_owned()),
        );
    }
    let limit: u32 = if limit < 1 {
        1
    } else {
        limit
    };
    let end: u32 = offset.saturating_add(limit);
    let start: u32 = if playlist.position < 0 {
        0
    } else {
        playlist.position as u32
    };
    let ghost all = numbered(playlist.items.deep_view(), start as int);
    let ghost wanted = is_on_page(offset, limit);
    let mut selected: Vec<(u32, NativeItem)> = Vec::new();
    let mut i: usize = 0;
    assert(placed_view(selected@) =~= all.take(0).filter(wanted)) by {
        reveal(Seq::filter);
    }
    while i < playlist.items.len()
        invariant
            i <= playlist.items@.len(),
            start + playlist.items@.len() <= u32::MAX + 1,
            all == numbered(playlist.items.deep_view(), start as int),
            limit >= 1,
            end == saturated(offset, limit),
            wanted == is_on_page(offset, limit),
            placed_view(selected@) == all.take(i as int).filter(wanted),
        decreases playlist.items@.len() - i,
    {
        let position: u32 = start + i as u32;
        assert(all.take(i + 1).drop_last() =~= all.take(i as int));
        assert(all.take(i + 1).last() == (position as int, playlist.items@[i as int].deep_view()));
        let ghost before = placed_view(selected@);
        proof {
            reveal(Seq::filter);
        }
        if position >= offset && position < end {
            let item = NativeItem {
                kind: playlist.items[i].kind,
                uri: playlist.items[i].uri.clone(),
            };
            selected.push((position, item));
            assert(placed_view(selected@) =~= before.push((position as int, item.deep_view())));
        }
        i += 1;
    }
    assert(all.take(i as int) =~= all);
    Ok(selected)
}

/// What of the things on a page could be described, with the places.
pub open spec fn described(items: Seq<(u32, Option<PlayableView>)>) -> Seq<(u32, PlayableView)>
    decreases items.len(),
{
    if items.len() == 0 {
        seq![]
    } else {
        let before = described(items.drop_last());
        match items.last().1 {
            Some(item) => before.push((items.last().0, item)),
            None => before,
        }
    }
}

/// A page of the native session.
pub open spec fn native_page_view(
    length: i32,
    offset: u32,
    limit: u32,
    items: Seq<(u32, Option<PlayableView>)>,
) -> PlaylistPageView {
    PagedView {
        items: described(items),
        limit: page_limit(limit),
        next: if saturated(offset, page_limit(limit)) < at_least_zero(length) {
            Some("librespot:playlist:next"@)
        } else {
            None
        },
        offset,
        previous: None,
        total: at_least_zero(length) as u32,
    }
}

/// Makes a page of the native session of what could be described of the things on it.
pub fn native_page(
    length: i32,
    offset: u32,
    limit: u32,
    resolved: Vec<(u32, Option<PlayableInfo>)>,
) -> (page: PlaylistPage)
    ensures
        page.deep_view() == native_page_view(length, offset, limit, resolved.deep_view()),
{
    let limit: u32 = if limit < 1 {
        1
    } else {
        limit
    };
    let total: u32 = if length < 0 {
        0
    } else {
        length as u32
    };
    let end: u32 = offset.saturating_add(limit);
    let ghost all = resolved.deep_view();
    let mut items: Vec<(u32, PlayableInfo)> = Vec::new();
    let mut i: usize = 0;
    assert(all.take(0) =~= seq![]);
    assert(items.deep_view() =~= seq![]);
    while i < resolved.len()
        invariant
            i <= resolved@.len(),
            all == resolved.deep_view(),
            items.deep_view() == described(all.take(i as int)),
        decreases resolved@.len() - i,
    {
        assert(all.take(i + 1).drop_last() =~= all.take(i as int));
        assert(all.take(i + 1).last() == resolved@[i as int].deep_view());
        let ghost before = items.deep_view();
        match &resolved[i].1 {
            Some(item) => {
                items.push((resolved[i].0, item.clone()));
                assert(items.deep_view() =~= before.push((resolved@[i as int].0, item.deep_view())));
            },
            None => {},
        }
        i += 1;
    }
    assert(all.take(i as int) =~= all);
    Paged {
        items,
        limit,
        next: if end < total {
            Some("librespot:playlist:next".to_owned())
        } else {
            None
        },
        offset,
        previous: None,
        total,
    }
}

/// A track as the native session describes it.
pub struct NativeTrack {
    pub id: Option<String>,
    pub uri: Option<String>,
    pub name: String,
    pub album_id: Option<String>,
    pub album_name: String,
    pub artists: Vec<ArtistRef>,
    pub duration: i32,
    pub number: i32,
    pub is_explicit: bool,
    pub has_restrictions: bool,
}

/// A track of the native session as a track of the library.
pub open spec fn native_track_view(track: NativeTrack, id: Seq<char>) -> TrackView {
    TrackView {
        uri: track.uri.deep_view(),
        name: track.name@,
        artists: artist_names(track.artists.deep_view()),
        album: track.album_name@,
        duration_ms: at_least_zero(track.duration) as u64,
        id: Some(id),
        album_id: track.album_id.deep_view(),
        artist_refs: track.artists.deep_view(),
        is_playable: !track.has_restrictions,
        is_local: false,
        track_number: at_least_zero(track.number) as u32,
        explicit: track.is_explicit,
        image_url: None,
    }
}

/// A track of the native session as a track of the library; nothing, where it has no id.
pub fn librespot_track_info(track: &NativeTrack) -> (info: Option<TrackInfo>)
    ensures
        info.deep_view() == (match track.id.deep_view() {
            Some(id) => Some(native_track_view(*track, id)),
            None => None,
        }),
{
    match &track.id {
        Some(id) => {
            let artist_refs = track.artists.clone();
            assert(artist_refs.deep_view() =~= track.artists.deep_view());
            Some(
                TrackInfo {
                    uri: track.uri.clone(),
                    name: track.name.clone(),
                    artists: names_of_artists(&track.artists),
                    album: track.album_name.clone(),
                    duration_ms: if track.duration < 0 {
                        0
                    } else {
                        track.duration as u64
                    },
                    id: Some(id.clone()),
                    album_id: track.album_id.clone(),
                    artist_refs,
                    is_playable: !track.has_restrictions,
                    is_local: false,
                    track_number: if track.number < 0 {
                        0
                    } else {
                        track.number as u32
                    },
                    explicit: track.is_explicit,
                    image_url: None,
                },
            )
        },
        None => None,
    }
}

/// An episode as the native session describes it.
pub struct NativeEpisode {
    pub id: Option<String>,
    pub uri: Option<String>,
    pub name: String,
    pub show_name: String,
    pub description: String,
    pub duration: i32,
    pub has_restrictions: bool,
}

/// An episode of the native session as an episode of the library.
pub fn librespot_episode_info(episode: &NativeEpisode) -> (info: Option<EpisodeInfo>)
    ensures
        info.deep_view() == Some(
            EpisodeView {
                id: episode.id.deep_view(),
                uri: episode.uri.deep_view(),
                name: episode.name@,
                duration_ms: at_least_zero(episode.duration) as u64,
                show_name: episode.show_name@,
                description: episode.description@,
                release_date: seq![],
                is_playable: !episode.has_restrictions,
                resume_position_ms: None,
                image_url: None,
            },
        ),
{
    let release_date = String::new();
    assert(release_date@ =~= seq![]);
    Some(
        EpisodeInfo {
            id: episode.id.clone(),
            uri: episode.uri.clone(),
            name: episode.name.clone(),
            duration_ms: if episode.duration < 0 {
                0
            } else {
                episode.duration as u64
            },
            show_name: episode.show_name.clone(),
            description: episode.description.clone(),
            release_date,
            is_playable: !episode.has_restrictions,
            resume_position_ms: None,
            image_url: None,
        },
    )
}

/// The pages of a native playlist cover it: a page that names no next one reaches its end, and the
/// next one starts where it ends.
pub proof fn lemma_native_pages_cover_playlist(
    length: i32,
    offset: u32,
    limit: u32,
    items: Seq<(u32, Option<PlayableView>)>,
)
    ensures
        ({
            let page = native_page_view(length, offset, limit, items);
            &&& page.next is None <==> saturated(offset, page.limit) >= page.total
            &&& page.next is Some ==> page.offset + page.limit < page.total
            &&& page.limit >= 1
        }),
{
}

/// The digits to the base 62 are the ten digits, then the small letters, then the capital ones, each
/// with the next value.
pub proof fn lemma_base62_digits(c: char)
    requires
        is_ascii_alphanumeric(c),
    ensures
        base62_digit(c) < 62,
        '0' <= c <= '9' ==> c as int == '0' as int + base62_digit(c),
        'a' <= c <= 'z' ==> c as int == 'a' as int + base62_digit(c) - 10,
        'A' <= c <= 'Z' ==> c as int == 'A' as int + base62_digit(c) - 36,
{
}

/// A page has the things at its places and no others, each with its place: those from the offset on,
/// as many as the limit says, but at least one.
pub proof fn lemma_page_has_its_places(
    items: Seq<(NativeKind, Seq<char>)>,
    from: int,
    offset: u32,
    limit: u32,
    i: int,
)
    requires
        0 <= i < items.len(),
        offset + limit < u32::MAX,
    ensures
        numbered(items, from).len() == items.len(),
        numbered(items, from).filter(is_on_page(offset, limit)).contains((from + i, items[i])) <==> {
            &&& offset <= from + i
            &&& from + i < offset + limit || (limit == 0 && from + i == offset)
        },
{
    let all = numbered(items, from);
    let kept = all.filter(is_on_page(offset, limit));
    assert(all[i] == (from + i, items[i]));
    if is_on_page(offset, limit)(all[i]) {
        all.lemma_filter_contains(is_on_page(offset, limit), i);
    }
    if kept.contains(all[i]) {
        all.lemma_filter_contains_rev(is_on_page(offset, limit), all[i]);
    }
}

/// What could be described of two lists, one behind the other, is what could be of the whole. A thing
/// that could be described counts with its place, another one does not.
pub proof fn lemma_described_parts(
    left: Seq<(u32, Option<PlayableView>)>,
    right: Seq<(u32, Option<PlayableView>)>,
    place: u32,
    item: PlayableView,
)
    ensures
        described(left + right) == described(left) + described(right),
        described(seq![(place, Some(item))]) == seq![(place, item)],
        described(seq![(place, None)]).len() == 0,
        described(seq![]).len() == 0,
    decreases right.len(),
{
    let one = seq![(place, Some(item))];
    let none = seq![(place, None::<PlayableView>)];
    assert(one.drop_last() =~= seq![]);
    assert(none.drop_last() =~= seq![]);
    assert(described(one.drop_last()) =~= seq![]);
    assert(described(none.drop_last()) =~= seq![]);
    assert(described(one) =~= seq![(place, item)]);
    if right.len() == 0 {
        assert(left + right =~= left);
        assert(described(left) + described(right) =~= described(left));
    } else {
        lemma_described_parts(left, right.drop_last(), place, item);
        assert((left + right).drop_last() =~= left + right.drop_last());
        assert(described(left + right) =~= described(left) + described(right));
    }
}

/// A page of the native session says where it starts, how many things the playlist has, and that
/// another one follows where the playlist goes on behind it.
pub proof fn lemma_native_page(
    length: i32,
    offset: u32,
    limit: u32,
    items: Seq<(u32, Option<PlayableView>)>,
)
    ensures
        ({
            let page = native_page_view(length, offset, limit, items);
            &&& page.items == described(items)
            &&& page.offset == offset
            &&& limit > 0 ==> page.limit == limit
            &&& limit == 0 ==> page.limit == 1
            &&& length >= 0 ==> page.total == length
            &&& length < 0 ==> page.total == 0
            &&& page.previous is None
            &&& 0 < limit && offset + limit < length ==> page.next == Some(
                "librespot:playlist:next"@,
            )
            &&& 0 < limit && offset + limit >= length ==> page.next is None
        }),
{
}

/// A track of the native session keeps its title, its album, its artists and its ids; it is playable
/// unless it is restricted. A length or a number that is negative counts as none.
pub proof fn lemma_native_track_is_taken_over(track: NativeTrack, id: Seq<char>)
    ensures
        ({
            let info = native_track_view(track, id);
            &&& info.id == Some(id)
            &&& info.uri == track.uri.deep_view()
            &&& info.name == track.name@
            &&& info.album == track.album_name@
            &&& info.album_id == track.album_id.deep_view()
            &&& info.artists.len() == track.artists@.len()
            &&& forall|i: int|
                0 <= i < track.artists@.len() ==> #[trigger] info.artists[i]
                    == track.artists@[i].name@
            &&& track.duration >= 0 ==> info.duration_ms == track.duration
            &&& track.duration < 0 ==> info.duration_ms == 0
            &&& track.number >= 0 ==> info.track_number == track.number
            &&& track.number < 0 ==> info.track_number == 0
            &&& info.is_playable == !track.has_restrictions
            &&& info.explicit == track.is_explicit
            &&& !info.is_local
        }),
{
}

} // verus!
