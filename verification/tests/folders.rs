use protobuf::Message;
use spotatui::app::App;
use spotatui::domain::PlaylistInfo;
use spotatui::folders::{
    build_flat_playlist_items, parse_rootlist_items, rootlist_folders,
    structurize_playlist_folders, PlaylistFolder, PlaylistFolderItem, PlaylistFolderNode,
    PlaylistFolderNodeType,
};
use spotatui::sidebar::reconcile_playlist_selection;

fn playlist_info(id: &str, name: &str, owner: &str, collaborative: bool) -> PlaylistInfo {
    PlaylistInfo {
        id: Some(id.to_string()),
        name: name.to_string(),
        owner_id: Some(owner.to_string()),
        collaborative,
        public: None,
    }
}

fn texts(parts: &[&str]) -> Vec<String> {
    parts.iter().map(|part| part.to_string()).collect()
}

fn playlist(uri: &str) -> PlaylistFolderNode {
    PlaylistFolderNode {
        name: None,
        node_type: PlaylistFolderNodeType::Playlist,
        uri: uri.to_string(),
        children: vec![],
    }
}

fn folder(name: &str, id: &str, children: Vec<PlaylistFolderNode>) -> PlaylistFolderNode {
    PlaylistFolderNode {
        name: Some(name.to_string()),
        node_type: PlaylistFolderNodeType::Folder,
        uri: format!("spotify:folder:{id}"),
        children,
    }
}

fn row(index: usize, current_id: usize) -> PlaylistFolderItem {
    PlaylistFolderItem::Playlist { index, current_id }
}

fn way(name: &str, current_id: usize, target_id: usize) -> PlaylistFolderItem {
    PlaylistFolderItem::Folder(PlaylistFolder { name: name.to_string(), current_id, target_id })
}

#[test]
fn reconcile_restores_selection_against_folders_first_order() {
    let mut app = App::default();
    app.user_config.behavior.pin_community_playlist = false;
    app.all_playlists = vec![
        playlist_info("00000000000000000000p0", "P0", "me", false),
        playlist_info("00000000000000000000p1", "P1", "me", false),
    ];
    app.playlist_folder_items = vec![row(0, 0), way("A", 0, 1), row(1, 0), way("B", 0, 2)];
    app.user_config.behavior.group_folders_first = true;

    reconcile_playlist_selection(&mut app, &Some("00000000000000000000p1".to_string()), 0, None);

    let idx = app.view.selected_playlist_index.expect("selection restored");
    assert_eq!(idx, 4);
    assert!(matches!(
        app.get_playlist_display_item_at(idx - 1),
        Some(PlaylistFolderItem::Playlist { index: 1, .. })
    ));
}

#[test]
fn rootlists_are_read_as_trees() {
    let nodes = parse_rootlist_items(&texts(&[
        "spotify:end-group:stray",
        "spotify:playlist:a",
        "spotify:start-group:g1:My:Folder",
        "spotify:playlist:b",
        "spotify:start-group:g2",
        "spotify:playlist:c",
        "spotify:end-group:g2",
        "spotify:end-group:g1",
        "spotify:start-group:g3:Open",
        "spotify:playlist:d",
    ]));
    assert_eq!(
        nodes,
        vec![
            playlist("spotify:playlist:a"),
            folder(
                "My:Folder",
                "g1",
                vec![
                    playlist("spotify:playlist:b"),
                    folder("", "g2", vec![playlist("spotify:playlist:c")]),
                ],
            ),
            folder("Open", "g3", vec![playlist("spotify:playlist:d")]),
        ]
    );
    assert!(parse_rootlist_items(&vec![]).is_empty());
}

#[test]
fn rootlist_messages_are_read() {
    let mut contents = librespot_protocol::playlist4_external::ListItems::new();
    contents.set_pos(0);
    contents.set_truncated(false);
    for uri in ["spotify:start-group:g:F", "spotify:playlist:a"] {
        let mut item = librespot_protocol::playlist4_external::Item::new();
        item.set_uri(uri.to_string());
        contents.items.push(item);
    }
    let mut message = librespot_protocol::playlist4_external::SelectedListContent::new();
    let without_contents = message.write_to_bytes().unwrap();
    message.contents = protobuf::MessageField::some(contents);
    let bytes = message.write_to_bytes().unwrap();
    assert_eq!(
        rootlist_folders(&Some(bytes)),
        Some(vec![folder("F", "g", vec![playlist("spotify:playlist:a")])])
    );
    assert_eq!(rootlist_folders(&Some(without_contents)), None);
    assert_eq!(rootlist_folders(&Some(vec![255, 255])), None);
    assert_eq!(rootlist_folders(&None), None);
}

#[test]
fn trees_become_rows_with_ways_back() {
    let playlists = vec![
        playlist_info("a", "A", "me", false),
        playlist_info("b", "B", "me", false),
        playlist_info("c", "C", "me", false),
        playlist_info("a", "A again", "me", false),
    ];
    let mut unnamed = folder("", "g2", vec![playlist("spotify:playlist:unknown"), playlist("c")]);
    unnamed.name = None;
    let nodes = vec![
        folder("One", "g1", vec![playlist("spotify:playlist:a"), unnamed]),
    ];
    assert_eq!(
        structurize_playlist_folders(&nodes, &playlists),
        vec![
            way("One", 0, 1),
            way("\u{2190} One", 1, 0),
            row(3, 1),
            way("Unnamed Folder", 1, 2),
            way("\u{2190} Unnamed Folder", 2, 1),
            row(2, 2),
            row(0, 0),
            row(1, 0),
        ]
    );
    assert_eq!(
        structurize_playlist_folders(&vec![], &playlists),
        build_flat_playlist_items(&playlists)
    );
}

fn app_with_folder() -> App {
    let mut app = App::default();
    app.user_config.behavior.pin_community_playlist = false;
    app.all_playlists =
        vec![playlist_info("a", "A", "me", false), playlist_info("b", "B", "me", false)];
    app.playlist_folder_items =
        vec![way("F", 0, 1), way("\u{2190} F", 1, 0), row(0, 1), row(1, 0)];
    app
}

#[test]
fn a_selected_playlist_is_found_in_its_folder() {
    let mut app = app_with_folder();
    reconcile_playlist_selection(&mut app, &Some("a".to_string()), 0, None);
    assert_eq!(app.current_playlist_folder_id, 1);
    assert_eq!(app.view.selected_playlist_index, Some(2));
    assert_eq!(app.get_selected_playlist_id(), Some("a".to_string()));
    reconcile_playlist_selection(&mut app, &Some("b".to_string()), 9, None);
    assert_eq!(app.current_playlist_folder_id, 0);
    assert_eq!(app.get_selected_playlist_id(), Some("b".to_string()));
}

#[test]
fn without_the_playlist_the_row_is_kept() {
    let mut app = app_with_folder();
    reconcile_playlist_selection(&mut app, &Some("gone".to_string()), 0, Some(7));
    assert_eq!(app.view.selected_playlist_index, Some(2));
    reconcile_playlist_selection(&mut app, &None, 1, Some(1));
    assert_eq!(app.current_playlist_folder_id, 1);
    assert_eq!(app.view.selected_playlist_index, Some(1));
    reconcile_playlist_selection(&mut app, &None, 0, None);
    assert_eq!(app.view.selected_playlist_index, Some(0));
    assert_eq!(app.get_selected_playlist_id(), None);
    app.playlist_folder_items.clear();
    reconcile_playlist_selection(&mut app, &Some("a".to_string()), 1, Some(1));
    assert_eq!(app.view.selected_playlist_index, None);
    assert_eq!(app.current_playlist_folder_id, 0);
}

#[test]
fn a_folder_that_shows_nothing_gives_way_to_the_root() {
    let mut app = app_with_folder();
    app.playlist_folder_items = vec![row(0, 3)];
    reconcile_playlist_selection(&mut app, &None, 0, Some(5));
    assert_eq!(app.view.selected_playlist_index, None);
}

#[test]
fn the_community_pin_stands_first_at_the_root() {
    let mut app = app_with_folder();
    app.user_config.behavior.pin_community_playlist = true;
    app.community_playlist_id = "community".to_string();
    assert_eq!(app.get_playlist_display_count(), 3);
    assert!(matches!(
        app.get_playlist_display_item_at(0),
        Some(PlaylistFolderItem::CommunityPin)
    ));
    app.current_playlist_folder_id = 1;
    assert_eq!(app.get_playlist_display_count(), 2);
    app.current_playlist_folder_id = 0;
    app.all_playlists[0].id = Some("community".to_string());
    assert_eq!(app.get_playlist_display_count(), 2);
}
