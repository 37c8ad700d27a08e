//! Changes that the user makes to playlists: what is sent for them, and what is shown when they are
//! done.

use vstd::prelude::*;

use crate::access::{find_first_playlist, first_with_id, items_path, playlist_items_path};
use crate::app::{
    current_route, dispatched, with_error, with_status, App, AppView, IoEvent, IoEventView, RouteId,
};
use crate::errors::{RequestError, RequestErrorView};
use crate::ids::{is_playlist_id, PlaylistId};
use crate::json::{
    array_json, entry_views, item_views, lemma_members, member, no_key_twice, number_json,
    number_of, object_json, text_json, text_member, Json, JsonView,
};
use crate::liked::{uri_of, uri_prefix, UriKind};
use crate::playlist_pages::shown_playlist;
use crate::text::{lemma_prefix_taken_off, without_prefix};

verus! {

/// What is told of a track that was added to a playlist.
pub open spec fn added_notice(app: AppView, playlist_id: Seq<char>) -> Seq<char> {
    match first_with_id(app.all_playlists, playlist_id) {
        Some(playlist) => "Added to "@ + playlist.name,
        None => "Added to playlist"@,
    }
}

/// The state after a track was added to a playlist: where its table is on the screen, its first page
/// is fetched again.
pub open spec fn track_added(app: AppView, playlist_id: Seq<char>) -> AppView {
    let notice = added_notice(app, playlist_id);
    let asked = if current_route(app).id == RouteId::TrackTable && shown_playlist(app) == Some(
        playlist_id,
    ) {
        dispatched(app, IoEventView::GetPlaylistItems(playlist_id, app.playlist_offset))
    } else {
        app
    };
    with_status(asked, notice, 3)
}

/// The JSON object that describes the removal of a track from a place of a playlist.
pub open spec fn removal_body_view(track_id: Seq<char>, position: u64) -> JsonView {
    JsonView::Object(
        seq![
            (
                "items"@,
                JsonView::Array(
                    seq![
                        JsonView::Object(
                            seq![
                                ("uri"@, JsonView::Text(uri_prefix(UriKind::Track) + track_id)),
                                (
                                    "positions"@,
                                    JsonView::Array(seq![JsonView::Number(number_of(position))]),
                                ),
                            ],
                        ),
                    ],
                ),
            ),
        ],
    )
}

/// The path and the body of the request that removes a track from a place of a playlist.
pub fn removal_request(playlist_id: &PlaylistId, track_id: &str, position: usize) -> (request: (
    String,
    Json,
))
    ensures
        request.0@ == items_path(playlist_id@),
        request.1.deep_view() == removal_body_view(track_id@, position as u64),
{
    let mut places: Vec<Json> = Vec::new();
    let place = number_json(position as u64);
    places.push(place);
    assert(item_views(places@) =~= seq![place.deep_view()]);
    let mut item: Vec<(String, Json)> = Vec::new();
    let uri = uri_of(UriKind::Track, track_id);
    let uri_value = text_json(uri.as_str());
    let places_value = array_json(places);
    item.push(("uri".to_owned(), uri_value));
    item.push(("positions".to_owned(), places_value));
    assert(entry_views(item@) =~= seq![
        ("uri"@, uri_value.deep_view()),
        ("positions"@, places_value.deep_view()),
    ]);
    let mut items: Vec<Json> = Vec::new();
    let item_value = object_json(item);
    items.push(item_value);
    assert(item_views(items@) =~= seq![item_value.deep_view()]);
    let mut body: Vec<(String, Json)> = Vec::new();
    let items_value = array_json(items);
    body.push(("items".to_owned(), items_value));
    assert(entry_views(body@) =~= seq![("items"@, items_value.deep_view())]);
    (playlist_items_path(playlist_id), object_json(body))
}

/// The JSON object that describes a new playlist: a private one that only its owner may change.
pub open spec fn creation_body_view(name: Seq<char>) -> JsonView {
    JsonView::Object(
        seq![
            ("name"@, JsonView::Text(name)),
            ("public"@, JsonView::Bool(false)),
            ("collaborative"@, JsonView::Bool(false)),
            ("description"@, JsonView::Text("Created with spotatui"@)),
        ],
    )
}

/// The body of the request that makes a new playlist.
pub fn creation_body(name: &str) -> (body: Json)
    ensures
        body.deep_view() == creation_body_view(name@),
{
    let mut entries: Vec<(String, Json)> = Vec::new();
    let name_value = text_json(name);
    let description = text_json("Created with spotatui");
    entries.push(("name".to_owned(), name_value));
    entries.push(("public".to_owned(), Json::Bool(false)));
    entries.push(("collaborative".to_owned(), Json::Bool(false)));
    entries.push(("description".to_owned(), description));
    assert(entry_views(entries@) =~= seq![
        ("name"@, name_value.deep_view()),
        ("public"@, JsonView::Bool(false)),
        ("collaborative"@, JsonView::Bool(false)),
        ("description"@, description.deep_view()),
    ]);
    object_json(entries)
}

/// What is told of a playlist that was made.
pub open spec fn created_notice(name: Seq<char>) -> Seq<char> {
    "Playlist \""@ + name + "\" created!"@
}

impl App {
    /// A track was added to a playlist, or that failed.
    #[verifier::rlimit(30)]
    pub fn track_addition_settled(
        &mut self,
        playlist_id: &PlaylistId,
        failure: Option<RequestError>,
    )
        ensures
            final(self)@ == (match failure {
                Some(error) => with_error(old(self)@, error@),
                None => track_added(old(self)@, playlist_id@),
            }),
    {
        match failure {
            Some(error) => {
                self.handle_error(error);
            },
            None => {
                let notice = match find_first_playlist(&self.all_playlists, playlist_id.id()) {
                    Some(playlist) => {
                        let mut notice = "Added to ".to_owned();
                        notice.append(playlist.name.as_str());
                        notice
                    },
                    None => "Added to playlist".to_owned(),
                };
                if self.is_current_route_playlist_track_table_for(playlist_id) {
                    let offset = self.playlist_offset;
                    self.dispatch(IoEvent::GetPlaylistItems(playlist_id.id().to_owned(), offset));
                }
                self.set_status_message(notice, 3);
            },
        }
    }

    /// A track was removed from a playlist, or that failed.
    pub fn track_removal_settled(&mut self, failure: Option<RequestError>)
        ensures
            final(self)@ == (match failure {
                Some(error) => with_error(old(self)@, error@),
                None => with_status(old(self)@, "Removed from playlist"@, 3),
            }),
    {
        match failure {
            Some(error) => {
                self.handle_error(error);
            },
            None => {
                self.set_status_message("Removed from playlist".to_owned(), 3);
            },
        }
    }

    /// A playlist was made, or that failed: the id under which it can be filled. Without a good id
    /// in the answer that is told, and there is none.
    pub fn playlist_creation_answered(&mut self, answer: Result<Json, RequestError>) -> (id: Option<
        PlaylistId,
    >)
        ensures
            match answer {
                Ok(value) => match text_member(value.deep_view(), "id"@) {
                    Some(text) => if is_playlist_id(text) {
                        final(self)@ == old(self)@ && id.deep_view() == Some(text)
                    } else {
                        final(self)@ == with_error(
                            old(self)@,
                            RequestErrorView::Other("InvalidId"@),
                        ) && id is None
                    },
                    None => final(self)@ == with_status(
                        old(self)@,
                        "Playlist created but could not get its ID"@,
                        4,
                    ) && id is None,
                },
                Err(error) => final(self)@ == with_error(old(self)@, error@) && id is None,
            },
    {
        match answer {
            Ok(value) => match value.text_member("id") {
                Some(text) => match PlaylistId::from_id(text.as_str()) {
                    Ok(id) => Some(id),
                    Err(message) => {
                        self.handle_error(RequestError::Other(message));
                        None
                    },
                },
                None => {
                    self.set_status_message(
                        "Playlist created but could not get its ID".to_owned(),
                        4,
                    );
                    None
                },
            },
            Err(error) => {
                self.handle_error(error);
                None
            },
        }
    }

    /// A playlist that was made is filled, or that failed. The list of playlists is to be fetched
    /// again.
    pub fn playlist_creation_settled(&mut self, name: &str, failure: Option<RequestError>)
        ensures
            final(self)@ == (match failure {
                Some(error) => with_error(old(self)@, error@),
                None => with_status(
                    dispatched(old(self)@, IoEventView::GetPlaylists),
                    created_notice(name@),
                    4,
                ),
            }),
    {
        match failure {
            Some(error) => {
                self.handle_error(error);
            },
            None => {
                self.dispatch(IoEvent::GetPlaylists);
                let mut notice = "Playlist \"".to_owned();
                notice.append(name);
                notice.append("\" created!");
                self.set_status_message(notice, 4);
            },
        }
    }
}

/// After a track was added to a playlist, the table of that playlist is fetched again where it is on
/// the screen, from where it starts, and no other is. What is told names the playlist where it is one
/// of the user's.
pub proof fn lemma_added_track_is_shown(app: AppView, playlist_id: Seq<char>)
    ensures
        ({
            let after = track_added(app, playlist_id);
            let on_screen = app.navigation_stack.len() > 0 && app.navigation_stack.last().id
                == RouteId::TrackTable && shown_playlist(app) == Some(playlist_id);
            &&& on_screen ==> after.events == app.events.push(
                IoEventView::GetPlaylistItems(playlist_id, app.playlist_offset),
            )
            &&& !on_screen ==> after.events == app.events
            &&& after.status matches Some(status)
            &&& status.1 == 3
            &&& first_with_id(app.all_playlists, playlist_id) matches Some(playlist) ==> status.0
                == "Added to "@ + playlist.name
            &&& first_with_id(app.all_playlists, playlist_id) is None ==> status.0
                == "Added to playlist"@
            &&& after == (AppView { events: after.events, status: after.status, ..app })
        }),
{
}

/// The request that removes a track lists one thing: the URI of the track, at the one place from which
/// it is taken.
pub proof fn lemma_removal_names_track_and_place(track_id: Seq<char>, position: u64)
    ensures
        member(removal_body_view(track_id, position), "items"@) matches Some(
            JsonView::Array(items),
        ) && items.len() == 1 && text_member(items[0], "uri"@) == Some("spotify:track:"@ + track_id)
            && member(items[0], "positions"@) == Some(
            JsonView::Array(seq![JsonView::Number(number_of(position))]),
        ),
{
    let body = removal_body_view(track_id, position);
    let entries = body->Object_0;
    assert(entries[0].0 == "items"@);
    lemma_members(body, "items"@);
    let items = entries[0].1->Array_0;
    let item = items[0];
    reveal_strlit("uri");
    reveal_strlit("positions");
    assert("uri"@.len() != "positions"@.len());
    assert(no_key_twice(item->Object_0));
    assert(item->Object_0[0].0 == "uri"@);
    assert(item->Object_0[1].0 == "positions"@);
    lemma_members(item, "uri"@);
    lemma_members(item, "positions"@);
}

/// A new playlist has its name, is not public and no other user may change it.
pub proof fn lemma_new_playlist_is_private(name: Seq<char>)
    ensures
        text_member(creation_body_view(name), "name"@) == Some(name),
        member(creation_body_view(name), "public"@) == Some(JsonView::Bool(false)),
        member(creation_body_view(name), "collaborative"@) == Some(JsonView::Bool(false)),
        text_member(creation_body_view(name), "description"@) == Some("Created with spotatui"@),
{
    let body = creation_body_view(name);
    let entries = body->Object_0;
    reveal_strlit("name");
    reveal_strlit("public");
    reveal_strlit("collaborative");
    reveal_strlit("description");
    assert("name"@.len() == 4 && "public"@.len() == 6);
    assert("collaborative"@.len() == 13 && "description"@.len() == 11);
    assert(no_key_twice(entries));
    assert(entries[0].0 == "name"@ && entries[1].0 == "public"@);
    assert(entries[2].0 == "collaborative"@ && entries[3].0 == "description"@);
    lemma_members(body, "name"@);
    lemma_members(body, "public"@);
    lemma_members(body, "collaborative"@);
    lemma_members(body, "description"@);
}

/// What is told of a new playlist names it, between quotation marks.
pub proof fn lemma_new_playlist_is_named(name: Seq<char>)
    ensures
        without_prefix(created_notice(name), "Playlist \""@) == Some(name + "\" created!"@),
{
    assert(created_notice(name) =~= "Playlist \""@ + (name + "\" created!"@));
    lemma_prefix_taken_off("Playlist \""@, name + "\" created!"@);
}

} // verus!
