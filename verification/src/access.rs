//! What the user may read of a playlist, and what becomes of a page of it that the Web API refuses.

use vstd::prelude::*;

use crate::app::{App, AppView};
use crate::domain::{PlaylistInfo, PlaylistPage, PlaylistView};
use crate::errors::{forbidden, is_forbidden_error, RequestError, RequestErrorView};
use crate::ids::PlaylistId;
use crate::text::{
    decimal, decimal_text, lemma_decimal_read, lemma_prefix_taken_off, number_in, optional_text_is,
    text_is, without_prefix,
};

verus! {

/// What is shown of a playlist of another user whose contents cannot be had.
pub const EXTERNAL_PLAYLIST_UNAVAILABLE_STATUS: &'static str =
    "Spotify Development Mode blocks playlist contents owned by another user. Only playlists you own or collaborate on are available.";

/// How the user is related to a playlist.
#[derive(Clone, Copy, PartialEq, Eq, Structural, Debug)]
pub enum PlaylistAccess {
    Owned,
    Collaborative,
    External,
    Unknown,
}

/// How a user is related to a playlist: by who owns it, and whether others may change it.
pub open spec fn access_from_owner(
    user_id: Option<Seq<char>>,
    owner_id: Option<Seq<char>>,
    collaborative: bool,
) -> PlaylistAccess {
    if collaborative {
        PlaylistAccess::Collaborative
    } else if user_id is None || owner_id is None {
        PlaylistAccess::Unknown
    } else if user_id == owner_id {
        PlaylistAccess::Owned
    } else {
        PlaylistAccess::External
    }
}

/// How a user is related to a playlist.
pub fn playlist_access_from_owner(
    user_id: &Option<String>,
    owner_id: &Option<String>,
    collaborative: bool,
) -> (access: PlaylistAccess)
    ensures
        access == access_from_owner(user_id.deep_view(), owner_id.deep_view(), collaborative),
{
    if collaborative {
        return PlaylistAccess::Collaborative;
    }
    match (user_id, owner_id) {
        (Some(user), Some(owner)) => {
            if text_is(user.as_str(), owner.as_str()) {
                PlaylistAccess::Owned
            } else {
                PlaylistAccess::External
            }
        },
        _ => PlaylistAccess::Unknown,
    }
}

/// The first playlist with an id.
pub open spec fn first_with_id(playlists: Seq<PlaylistView>, id: Seq<char>) -> Option<PlaylistView>
    decreases playlists.len(),
{
    if playlists.len() == 0 {
        None
    } else if playlists[0].id == Some(id) {
        Some(playlists[0])
    } else {
        first_with_id(playlists.skip(1), id)
    }
}

/// What is known of a playlist: from the user's own ones, or from what a search found.
pub open spec fn known_playlist(app: AppView, id: Seq<char>) -> Option<PlaylistView> {
    match first_with_id(app.all_playlists, id) {
        Some(playlist) => Some(playlist),
        None => match app.found_playlists {
            Some(page) => first_with_id(page.items, id),
            None => None,
        },
    }
}

/// The first playlist with an id.
pub fn find_first_playlist<'a>(playlists: &'a Vec<PlaylistInfo>, id: &str) -> (found: Option<
    &'a PlaylistInfo,
>)
    ensures
        found.deep_view() == first_with_id(playlists.deep_view(), id@),
{
    let ghost views = playlists.deep_view();
    let mut i: usize = 0;
    assert(views.skip(0) =~= views);
    while i < playlists.len()
        invariant
            i <= playlists@.len(),
            views == playlists.deep_view(),
            first_with_id(views, id@) == first_with_id(views.skip(i as int), id@),
        decreases playlists@.len() - i,
    {
        assert(views.skip(i as int)[0] == playlists@[i as int].deep_view());
        if optional_text_is(&playlists[i].id, id) {
            return Some(&playlists[i]);
        }
        assert(views.skip(i as int).skip(1) =~= views.skip(i + 1));
        i += 1;
    }
    None
}

/// What is known of a playlist.
pub fn known_playlist_info<'a>(app: &'a App, playlist_id: &str) -> (found: Option<&'a PlaylistInfo>)
    ensures
        found.deep_view() == known_playlist(app@, playlist_id@),
{
    match find_first_playlist(&app.all_playlists, playlist_id) {
        Some(playlist) => Some(playlist),
        None => match &app.search_results.playlists {
            Some(page) => find_first_playlist(&page.items, playlist_id),
            None => None,
        },
    }
}

/// How the user is related to a playlist, as far as it is known.
pub open spec fn known_access(app: AppView, id: Seq<char>) -> PlaylistAccess {
    match known_playlist(app, id) {
        Some(playlist) => access_from_owner(app.user_id, playlist.owner_id, playlist.collaborative),
        None => PlaylistAccess::Unknown,
    }
}

/// The id of the user.
fn user_id_of(app: &App) -> (id: Option<String>)
    ensures
        id.deep_view() == app@.user_id,
{
    match &app.user {
        Some(user) => Some(user.id.clone()),
        None => None,
    }
}

/// How the user is related to a playlist, as far as it is known.
pub fn playlist_access(app: &App, playlist_id: &str) -> (access: PlaylistAccess)
    ensures
        access == known_access(app@, playlist_id@),
{
    match known_playlist_info(app, playlist_id) {
        Some(playlist) => playlist_access_from_owner(
            &user_id_of(app),
            &playlist.owner_id,
            playlist.collaborative,
        ),
        None => PlaylistAccess::Unknown,
    }
}

/// What the service says of a playlist without its contents.
pub struct PlaylistAccessMetadata {
    pub collaborative: bool,
    pub owner_id: Option<String>,
}

/// The path at which the service describes a playlist.
pub open spec fn playlist_path(id: Seq<char>) -> Seq<char> {
    "playlists/"@ + id
}

/// The path at which the service lists the contents of a playlist.
pub open spec fn items_path(id: Seq<char>) -> Seq<char> {
    "playlists/"@ + id + "/items"@
}

/// How a refused playlist is classified.
pub enum Classification {
    /// The relation is known.
    Known(PlaylistAccess),
    /// The service is to be asked, at a path.
    Ask(String),
}

/// Classifies a playlist whose contents were refused: by what is known of it, or else by asking the
/// service for its description.
pub fn classify_playlist_after_forbidden(app: &App, playlist_id: &PlaylistId) -> (classification:
    Classification)
    ensures
        match classification {
            Classification::Known(access) => access == known_access(app@, playlist_id@) && access
                != PlaylistAccess::Unknown,
            Classification::Ask(path) => known_access(app@, playlist_id@)
                == PlaylistAccess::Unknown && path@ == playlist_path(playlist_id@),
        },
{
    let access = playlist_access(app, playlist_id.id());
    if access != PlaylistAccess::Unknown {
        return Classification::Known(access);
    }
    let mut path = "playlists/".to_owned();
    path.append(playlist_id.id());
    Classification::Ask(path)
}

/// How the user is related to a playlist by its description; unknown, where that could not be had.
pub fn access_from_metadata(app: &App, metadata: &Option<PlaylistAccessMetadata>) -> (access:
    PlaylistAccess)
    ensures
        access == (match *metadata {
            Some(metadata) => access_from_owner(
                app@.user_id,
                metadata.owner_id.deep_view(),
                metadata.collaborative,
            ),
            None => PlaylistAccess::Unknown,
        }),
{
    match metadata {
        Some(metadata) => playlist_access_from_owner(
            &user_id_of(app),
            &metadata.owner_id,
            metadata.collaborative,
        ),
        None => PlaylistAccess::Unknown,
    }
}

/// The pairs of a query for a page of a list: how many things it has, and where it starts.
pub open spec fn page_query_view(limit: u32, offset: Option<u32>) -> Seq<(Seq<char>, Seq<char>)> {
    let limited = seq![("limit"@, decimal(limit as nat))];
    match offset {
        Some(offset) => limited.push(("offset"@, decimal(offset as nat))),
        None => limited,
    }
}

/// The query for a page of a list: how many things it has, and where it starts.
pub fn page_query(limit: u32, offset: Option<u32>) -> (query: Vec<(String, String)>)
    ensures
        crate::requests::query_view(query@) == page_query_view(limit, offset),
{
    let mut query: Vec<(String, String)> = Vec::new();
    query.push(("limit".to_owned(), decimal_text(limit as u128)));
    if let Some(offset) = offset {
        query.push(("offset".to_owned(), decimal_text(offset as u128)));
    }
    assert(crate::requests::query_view(query@) =~= page_query_view(limit, offset));
    query
}

/// The path at which the service lists the contents of a playlist.
pub fn playlist_items_path(playlist_id: &PlaylistId) -> (path: String)
    ensures
        path@ == items_path(playlist_id@),
{
    let mut path = "playlists/".to_owned();
    path.append(playlist_id.id());
    path.append("/items");
    path
}

/// A page of a playlist, by where it is from.
pub enum PlaylistTracksPage {
    Api(PlaylistPage),
    Librespot(PlaylistPage),
}

impl PlaylistTracksPage {
    /// The page itself.
    pub open spec fn page(self) -> PlaylistPage {
        match self {
            PlaylistTracksPage::Api(page) => page,
            PlaylistTracksPage::Librespot(page) => page,
        }
    }

    /// The page itself.
    pub fn into_domain(self) -> (page: PlaylistPage)
        ensures
            page == self.page(),
    {
        match self {
            PlaylistTracksPage::Api(page) => page,
            PlaylistTracksPage::Librespot(page) => page,
        }
    }
}

/// Why a page of a playlist cannot be had.
pub enum PlaylistPageError {
    /// The playlist is another user's, and neither the Web API nor the native session gives its
    /// contents.
    UnsupportedExternal,
    /// The request failed.
    Request(RequestError),
}

/// What a [`PlaylistPageError`] stands for.
pub enum PageErrorView {
    UnsupportedExternal,
    Request(RequestErrorView),
}

impl View for PlaylistPageError {
    type V = PageErrorView;

    open spec fn view(&self) -> PageErrorView {
        match self {
            PlaylistPageError::UnsupportedExternal => PageErrorView::UnsupportedExternal,
            PlaylistPageError::Request(error) => PageErrorView::Request(error@),
        }
    }
}

/// What is to be done to get a page of a playlist.
pub enum PageStep {
    /// Nothing more.
    Done(Result<PlaylistTracksPage, PlaylistPageError>),
    /// Find out how the user is related to the playlist, whose contents were refused.
    Classify(RequestError),
    /// Ask the native session for the page.
    TryNative,
}

/// The Web API answered a request for a page. A refusal calls for a closer look; any other error is
/// the error of the page.
pub fn page_answered(answer: Result<PlaylistPage, RequestError>) -> (step: PageStep)
    ensures
        match answer {
            Ok(page) => step == PageStep::Done(Ok(PlaylistTracksPage::Api(page))),
            Err(error) => if forbidden(error@) {
                step == PageStep::Classify(error)
            } else {
                step == PageStep::Done(Err(PlaylistPageError::Request(error)))
            },
        },
{
    match answer {
        Ok(page) => PageStep::Done(Ok(PlaylistTracksPage::Api(page))),
        Err(error) => {
            if is_forbidden_error(&error) {
                PageStep::Classify(error)
            } else {
                PageStep::Done(Err(PlaylistPageError::Request(error)))
            }
        },
    }
}

/// The refused playlist is classified. Only one that is known to be another user's is asked for in
/// another way; for any other the refusal is the error of the page.
pub fn page_classified(error: RequestError, access: PlaylistAccess) -> (step: PageStep)
    ensures
        step == (if access == PlaylistAccess::External {
            PageStep::TryNative
        } else {
            PageStep::Done(Err(PlaylistPageError::Request(error)))
        }),
{
    if access == PlaylistAccess::External {
        PageStep::TryNative
    } else {
        PageStep::Done(Err(PlaylistPageError::Request(error)))
    }
}

/// The native session answered, or there is none.
pub fn native_answered(page: Option<PlaylistPage>) -> (outcome: Result<
    PlaylistTracksPage,
    PlaylistPageError,
>)
    ensures
        match page {
            Some(page) => outcome == Ok::<PlaylistTracksPage, PlaylistPageError>(
                PlaylistTracksPage::Librespot(page),
            ),
            None => outcome == Err::<PlaylistTracksPage, PlaylistPageError>(
                PlaylistPageError::UnsupportedExternal,
            ),
        },
{
    match page {
        Some(page) => Ok(PlaylistTracksPage::Librespot(page)),
        None => Err(PlaylistPageError::UnsupportedExternal),
    }
}

/// The whole way to a page of a playlist: what the Web API answers, how the user is related to the
/// playlist, and what the native session has.
pub fn fetch_playlist_tracks_page(
    answer: Result<PlaylistPage, RequestError>,
    access: PlaylistAccess,
    native: Option<PlaylistPage>,
) -> (outcome: Result<PlaylistTracksPage, PlaylistPageError>)
    ensures
        match answer {
            Ok(page) => outcome == Ok::<PlaylistTracksPage, PlaylistPageError>(
                PlaylistTracksPage::Api(page),
            ),
            Err(error) => if forbidden(error@) && access == PlaylistAccess::External {
                match native {
                    Some(page) => outcome == Ok::<PlaylistTracksPage, PlaylistPageError>(
                        PlaylistTracksPage::Librespot(page),
                    ),
                    None => outcome == Err::<PlaylistTracksPage, PlaylistPageError>(
                        PlaylistPageError::UnsupportedExternal,
                    ),
                }
            } else {
                outcome == Err::<PlaylistTracksPage, PlaylistPageError>(
                    PlaylistPageError::Request(error),
                )
            },
        },
{
    match page_answered(answer) {
        PageStep::Done(outcome) => outcome,
        PageStep::Classify(error) => match page_classified(error, access) {
            PageStep::Done(outcome) => outcome,
            PageStep::TryNative => native_answered(native),
            PageStep::Classify(error) => Err(PlaylistPageError::Request(error)),
        },
        PageStep::TryNative => native_answered(native),
    }
}

/// The user's own playlists, and those that the user may change, are never taken for another user's,
/// whoever lists them.
pub proof fn lemma_own_playlists_are_not_external(
    user_id: Option<Seq<char>>,
    owner_id: Option<Seq<char>>,
    collaborative: bool,
)
    ensures
        access_from_owner(user_id, owner_id, collaborative) == PlaylistAccess::External <==> {
            &&& !collaborative
            &&& user_id is Some
            &&& owner_id is Some
            &&& user_id != owner_id
        },
{
}

/// A playlist that others may change is a collaborative one, whoever owns it. Of any other, the user
/// is the owner where both are known and the same; where one of them is not known, nothing is.
pub proof fn lemma_access_by_owner(
    user: Seq<char>,
    owner: Seq<char>,
    user_id: Option<Seq<char>>,
    owner_id: Option<Seq<char>>,
)
    ensures
        access_from_owner(user_id, owner_id, true) == PlaylistAccess::Collaborative,
        access_from_owner(Some(user), Some(user), false) == PlaylistAccess::Owned,
        user != owner ==> access_from_owner(Some(user), Some(owner), false)
            == PlaylistAccess::External,
        access_from_owner(None, owner_id, false) == PlaylistAccess::Unknown,
        access_from_owner(user_id, None, false) == PlaylistAccess::Unknown,
{
}

/// The first playlist with an id has it, and none before it does; there is none only where no playlist
/// has it.
pub proof fn lemma_first_with_id(playlists: Seq<PlaylistView>, id: Seq<char>)
    ensures
        first_with_id(playlists, id) matches Some(found) ==> exists|i: int|
            {
                &&& 0 <= i < playlists.len()
                &&& #[trigger] playlists[i] == found
                &&& found.id == Some(id)
                &&& forall|k: int| 0 <= k < i ==> (#[trigger] playlists[k]).id != Some(id)
            },
        first_with_id(playlists, id) is None ==> forall|i: int|
            0 <= i < playlists.len() ==> (#[trigger] playlists[i]).id != Some(id),
    decreases playlists.len(),
{
    if playlists.len() > 0 && playlists[0].id != Some(id) {
        let rest = playlists.skip(1);
        lemma_first_with_id(rest, id);
        if let Some(found) = first_with_id(rest, id) {
            let i = choose|i: int|
                {
                    &&& 0 <= i < rest.len()
                    &&& #[trigger] rest[i] == found
                    &&& found.id == Some(id)
                    &&& forall|k: int| 0 <= k < i ==> (#[trigger] rest[k]).id != Some(id)
                };
            assert(playlists[i + 1] == found);
            assert forall|k: int| 0 <= k < i + 1 implies (#[trigger] playlists[k]).id != Some(id) by {
                if k > 0 {
                    assert(rest[k - 1] == playlists[k]);
                }
            }
        } else {
            assert forall|i: int| 0 <= i < playlists.len() implies (#[trigger] playlists[i]).id
                != Some(id) by {
                if i > 0 {
                    assert(rest[i - 1] == playlists[i]);
                }
            }
        }
    } else if playlists.len() > 0 {
        assert(playlists[0] == playlists[0]);
    }
}

/// What is known of a playlist comes from the user's own list, and only for one that is not there from
/// what a search found. How the user is related to it follows from its owner; of one that is nowhere
/// nothing is known.
pub proof fn lemma_own_list_is_asked_first(app: AppView, id: Seq<char>, i: int)
    requires
        0 <= i < app.all_playlists.len(),
        app.all_playlists[i].id == Some(id),
        forall|k: int| 0 <= k < i ==> (#[trigger] app.all_playlists[k]).id != Some(id),
    ensures
        known_playlist(app, id) == Some(app.all_playlists[i]),
        app.all_playlists[i].collaborative ==> known_access(app, id)
            == PlaylistAccess::Collaborative,
        !app.all_playlists[i].collaborative && app.user_id is Some && app.all_playlists[i].owner_id
            is Some ==> known_access(app, id) == (if app.user_id == app.all_playlists[i].owner_id {
            PlaylistAccess::Owned
        } else {
            PlaylistAccess::External
        }),
{
    lemma_first_with_id(app.all_playlists, id);
    if let Some(found) = first_with_id(app.all_playlists, id) {
        let j = choose|j: int|
            {
                &&& 0 <= j < app.all_playlists.len()
                &&& #[trigger] app.all_playlists[j] == found
                &&& found.id == Some(id)
                &&& forall|k: int| 0 <= k < j ==> (#[trigger] app.all_playlists[k]).id != Some(id)
            };
        if j < i {
            assert(app.all_playlists[j].id != Some(id));
        }
        if i < j {
            assert(app.all_playlists[i].id != Some(id));
        }
    }
}

/// A playlist that the user's own list does not have is looked for among what a search found; where it
/// is not there either, nothing is known of it.
pub proof fn lemma_found_playlists_are_asked_next(app: AppView, id: Seq<char>)
    requires
        forall|k: int|
            0 <= k < app.all_playlists.len() ==> (#[trigger] app.all_playlists[k]).id != Some(id),
    ensures
        app.found_playlists is None ==> known_playlist(app, id) is None,
        app.found_playlists matches Some(page) ==> known_playlist(app, id) == first_with_id(
            page.items,
            id,
        ),
        known_playlist(app, id) is None ==> known_access(app, id) == PlaylistAccess::Unknown,
        known_playlist(app, id) matches Some(found) ==> {
            &&& found.collaborative ==> known_access(app, id) == PlaylistAccess::Collaborative
            &&& !found.collaborative && (app.user_id is None || found.owner_id is None)
                ==> known_access(app, id) == PlaylistAccess::Unknown
            &&& !found.collaborative && app.user_id is Some && app.user_id == found.owner_id
                ==> known_access(app, id) == PlaylistAccess::Owned
            &&& !found.collaborative && app.user_id is Some && found.owner_id is Some && app.user_id
                != found.owner_id ==> known_access(app, id) == PlaylistAccess::External
        },
{
    lemma_first_with_id(app.all_playlists, id);
    if let Some(found) = first_with_id(app.all_playlists, id) {
        let j = choose|j: int|
            0 <= j < app.all_playlists.len() && #[trigger] app.all_playlists[j] == found && found.id
                == Some(id);
        assert(app.all_playlists[j].id != Some(id));
    }
}

/// The contents of a playlist are listed below its own path, which ends in its id.
pub proof fn lemma_paths_name_playlist(id: Seq<char>)
    ensures
        items_path(id) == playlist_path(id) + "/items"@,
        without_prefix(playlist_path(id), "playlists/"@) == Some(id),
{
    lemma_prefix_taken_off("playlists/"@, id);
}

/// The query for a page says how many things it has, and then where it starts, unless that is left
/// out; both numbers are read back as they were given.
pub proof fn lemma_page_is_asked_for(limit: u32, offset: Option<u32>)
    ensures
        ({
            let query = page_query_view(limit, offset);
            &&& query.len() == if offset is Some {
                2
            } else {
                1int
            }
            &&& query[0].0 == "limit"@
            &&& number_in(query[0].1) == Some(limit as nat)
            &&& offset matches Some(offset) ==> query[1].0 == "offset"@ && number_in(query[1].1)
                == Some(offset as nat)
        }),
{
    lemma_decimal_read(limit as nat);
    if let Some(offset) = offset {
        lemma_decimal_read(offset as nat);
    }
}

} // verus!
