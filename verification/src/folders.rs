//! Folders of playlists: the tree that the rootlist of an account writes down as a flat list of
//! URIs, and the rows of the sidebar that are made of it.

use vstd::prelude::*;

use crate::domain::{PlaylistInfo, PlaylistView};
use crate::text::{
    chars_of, has_prefix, lacks, lemma_prefix_taken_off, optional_text_is, strip_text_prefix,
    text_of, text_starts_with, without_prefix,
};

verus! {

/// What a node of the tree is.
#[derive(Clone, Copy, PartialEq, Eq, Structural, Debug)]
pub enum PlaylistFolderNodeType {
    Folder,
    Playlist,
}

/// A folder with what is in it, or a playlist.
#[derive(Debug, PartialEq, Eq)]
pub struct PlaylistFolderNode {
    pub name: Option<String>,
    pub node_type: PlaylistFolderNodeType,
    pub uri: String,
    pub children: Vec<PlaylistFolderNode>,
}

/// What a [`PlaylistFolderNode`] stands for.
pub struct NodeView {
    pub name: Option<Seq<char>>,
    pub node_type: PlaylistFolderNodeType,
    pub uri: Seq<char>,
    pub children: Seq<NodeView>,
}

/// What a node stands for, all the way down.
pub open spec fn node_view(node: PlaylistFolderNode) -> NodeView
    decreases node,
{
    NodeView {
        name: node.name.deep_view(),
        node_type: node.node_type,
        uri: node.uri@,
        children: Seq::new(
            node.children@.len(),
            |i: int|
                if 0 <= i < node.children@.len() {
                    node_view(node.children@[i])
                } else {
                    arbitrary()
                },
        ),
    }
}

impl DeepView for PlaylistFolderNode {
    type V = NodeView;

    open spec fn deep_view(&self) -> NodeView {
        node_view(*self)
    }
}

pub proof fn lemma_node_view(node: PlaylistFolderNode)
    ensures
        node.deep_view() == (NodeView {
            name: node.name.deep_view(),
            node_type: node.node_type,
            uri: node.uri@,
            children: node.children.deep_view(),
        }),
{
    assert(node.deep_view().children =~= node.children.deep_view());
}

/// The URI opens a folder.
pub open spec fn opens_folder(uri: Seq<char>) -> bool {
    has_prefix(uri, "spotify:start-group:"@)
}

/// The URI closes a folder.
pub open spec fn closes_folder(uri: Seq<char>) -> bool {
    !opens_folder(uri) && has_prefix(uri, "spotify:end-group:"@)
}

/// Where the first colon of a text stands; its length, where there is none.
pub open spec fn first_colon(text: Seq<char>) -> int
    decreases text.len(),
{
    if text.len() == 0 || text[0] == ':' {
        0
    } else {
        1 + first_colon(text.skip(1))
    }
}

/// A folder that is open: its id, its name, and what stood before it.
pub struct OpenFolder {
    pub group_id: Seq<char>,
    pub name: Seq<char>,
    pub before: Seq<NodeView>,
}

/// How far a rootlist is read: the nodes of the innermost open folder, and the open folders.
pub struct RootlistState {
    pub root: Seq<NodeView>,
    pub open: Seq<OpenFolder>,
}

/// The id of the folder that a URI opens: what stands before the first colon.
pub open spec fn group_id(rest: Seq<char>) -> Seq<char> {
    rest.take(first_colon(rest))
}

/// The name of the folder that a URI opens: what stands behind the first colon.
pub open spec fn group_name(rest: Seq<char>) -> Seq<char> {
    if first_colon(rest) < rest.len() {
        rest.skip(first_colon(rest) + 1)
    } else {
        seq![]
    }
}

/// A folder as a node.
pub open spec fn folder_node(
    group_id: Seq<char>,
    name: Seq<char>,
    children: Seq<NodeView>,
) -> NodeView {
    NodeView {
        name: Some(name),
        node_type: PlaylistFolderNodeType::Folder,
        uri: "spotify:folder:"@ + group_id,
        children,
    }
}

/// A playlist as a node.
pub open spec fn playlist_node(uri: Seq<char>) -> NodeView {
    NodeView { name: None, node_type: PlaylistFolderNodeType::Playlist, uri, children: seq![] }
}

/// The innermost open folder, closed.
pub open spec fn folder_closed(state: RootlistState) -> RootlistState {
    let folder = state.open.last();
    RootlistState {
        root: folder.before.push(folder_node(folder.group_id, folder.name, state.root)),
        open: state.open.drop_last(),
    }
}

/// One more URI of a rootlist, read. An end without a beginning is passed over.
pub open spec fn uri_read(state: RootlistState, uri: Seq<char>) -> RootlistState {
    match without_prefix(uri, "spotify:start-group:"@) {
        Some(rest) => RootlistState {
            root: seq![],
            open: state.open.push(
                OpenFolder {
                    group_id: group_id(rest),
                    name: group_name(rest),
                    before: state.root,
                },
            ),
        },
        None => if closes_folder(uri) {
            if state.open.len() > 0 {
                folder_closed(state)
            } else {
                state
            }
        } else {
            RootlistState { root: state.root.push(playlist_node(uri)), ..state }
        },
    }
}

/// The URIs of a rootlist, read.
pub open spec fn uris_read(uris: Seq<Seq<char>>) -> RootlistState
    decreases uris.len(),
{
    if uris.len() == 0 {
        RootlistState { root: seq![], open: seq![] }
    } else {
        uri_read(uris_read(uris.drop_last()), uris.last())
    }
}

/// The nodes, with every folder that is still open closed.
pub open spec fn all_closed(state: RootlistState) -> Seq<NodeView>
    decreases state.open.len(),
{
    if state.open.len() == 0 {
        state.root
    } else {
        all_closed(folder_closed(state))
    }
}

/// The tree that a rootlist writes down.
pub open spec fn rootlist_nodes(uris: Seq<Seq<char>>) -> Seq<NodeView> {
    all_closed(uris_read(uris))
}

struct OpenGroup {
    group_id: String,
    name: String,
    before: Vec<PlaylistFolderNode>,
}

spec fn open_groups(groups: Seq<OpenGroup>) -> Seq<OpenFolder> {
    Seq::new(
        groups.len(),
        |i: int|
            OpenFolder {
                group_id: groups[i].group_id@,
                name: groups[i].name@,
                before: groups[i].before.deep_view(),
            },
    )
}

proof fn lemma_first_colon(text: Seq<char>)
    ensures
        0 <= first_colon(text) <= text.len(),
    decreases text.len(),
{
    if text.len() > 0 && text[0] != ':' {
        lemma_first_colon(text.skip(1));
    }
}

/// The id and the name of the folder that a URI opens.
fn split_group(rest: &str) -> (parts: (String, String))
    ensures
        parts.0@ == group_id(rest@),
        parts.1@ == group_name(rest@),
{
    let chars = chars_of(rest);
    let mut at: usize = 0;
    assert(chars@.skip(0) =~= chars@);
    while at < chars.len() && chars[at] != ':'
        invariant
            at <= chars@.len(),
            first_colon(chars@) == at + first_colon(chars@.skip(at as int)),
        decreases chars@.len() - at,
    {
        assert(chars@.skip(at as int).skip(1) =~= chars@.skip(at + 1));
        at += 1;
    }
    let id = text_of(vstd::slice::slice_subrange(chars.as_slice(), 0, at));
    let name = if at < chars.len() {
        text_of(vstd::slice::slice_subrange(chars.as_slice(), at + 1, chars.len()))
    } else {
        String::new()
    };
    assert(chars@.subrange(0, at as int) =~= chars@.take(at as int));
    (id, name)
}

/// Closes the innermost open folder.
fn close_group(root: Vec<PlaylistFolderNode>, group: OpenGroup) -> (nodes: Vec<PlaylistFolderNode>)
    ensures
        nodes.deep_view() == group.before.deep_view().push(
            folder_node(group.group_id@, group.name@, root.deep_view()),
        ),
{
    let mut uri = "spotify:folder:".to_owned();
    uri.append(group.group_id.as_str());
    let node = PlaylistFolderNode {
        name: Some(group.name),
        node_type: PlaylistFolderNodeType::Folder,
        uri,
        children: root,
    };
    proof {
        lemma_node_view(node);
    }
    let mut nodes = group.before;
    let ghost before = nodes.deep_view();
    nodes.push(node);
    assert(nodes.deep_view() =~= before.push(node.deep_view()));
    nodes
}

/// Reads the tree that a rootlist writes down.
pub fn parse_rootlist_items(uris: &Vec<String>) -> (nodes: Vec<PlaylistFolderNode>)
    ensures
        nodes.deep_view() == rootlist_nodes(uris.deep_view()),
        folder_count(nodes.deep_view()) <= uris@.len(),
{
    proof {
        lemma_rootlist_folder_count(uris.deep_view());
    }
    let mut root: Vec<PlaylistFolderNode> = Vec::new();
    let mut open: Vec<OpenGroup> = Vec::new();
    let mut i: usize = 0;
    let ghost all = uris.deep_view();
    assert(root.deep_view() =~= seq![]);
    assert(open_groups(open@) =~= seq![]);
    assert(all.take(0) =~= seq![]);
    while i < uris.len()
        invariant
            i <= uris@.len(),
            all == uris.deep_view(),
            (RootlistState { root: root.deep_view(), open: open_groups(open@) }) == uris_read(
                all.take(i as int),
            ),
        decreases uris@.len() - i,
    {
        let uri = &uris[i];
        let ghost state = uris_read(all.take(i as int));
        assert(all.take(i + 1).drop_last() =~= all.take(i as int));
        assert(all.take(i + 1).last() == uri@);
        match strip_text_prefix(uri.as_str(), "spotify:start-group:") {
            Some(rest) => {
                let (group_id, name) = split_group(rest.as_str());
                let ghost groups = open_groups(open@);
                let mut before: Vec<PlaylistFolderNode> = Vec::new();
                assert(before.deep_view() =~= seq![]);
                core::mem::swap(&mut root, &mut before);
                let group = OpenGroup { group_id, name, before };
                open.push(group);
                assert(open_groups(open@) =~= uri_read(state, uri@).open);
            },
            None => {
                if text_starts_with(uri.as_str(), "spotify:end-group:") {
                    match open.pop() {
                        Some(group) => {
                            assert(open_groups(open@) =~= state.open.drop_last());
                            root = close_group(root, group);
                        },
                        None => {},
                    }
                } else {
                    let node = PlaylistFolderNode {
                        name: None,
                        node_type: PlaylistFolderNodeType::Playlist,
                        uri: uri.clone(),
                        children: Vec::new(),
                    };
                    proof {
                        lemma_node_view(node);
                    }
                    assert(node.deep_view().children =~= seq![]);
                    let ghost before = root.deep_view();
                    root.push(node);
                    assert(root.deep_view() =~= before.push(playlist_node(uri@)));
                }
            },
        }
        i += 1;
    }
    assert(all.take(i as int) =~= all);
    loop
        invariant
            all_closed(RootlistState { root: root.deep_view(), open: open_groups(open@) })
                == rootlist_nodes(all),
        ensures
            root.deep_view() == rootlist_nodes(all),
        decreases open@.len(),
    {
        let ghost state = RootlistState { root: root.deep_view(), open: open_groups(open@) };
        match open.pop() {
            Some(group) => {
                assert(open_groups(open@) =~= state.open.drop_last());
                root = close_group(root, group);
            },
            None => {
                break;
            },
        }
    }
    root
}

/// `SelectedListContent::parse_from_bytes` of `librespot_protocol`: the URIs that the message lists,
/// where the bytes are one and it has contents.
pub uninterp spec fn rootlist_uris(bytes: Seq<u8>) -> Option<Seq<Seq<char>>>;

/// `Message::parse_from_bytes` of `protobuf`, into the `SelectedListContent` of
/// `librespot_protocol`: the URI of each item of its contents, in order. What comes back is a
/// function of the bytes alone; nothing comes back where the bytes are no such message or it has no
/// contents.
#[verifier::external_body]
fn parse_rootlist_message(bytes: &Vec<u8>) -> (uris: Option<Vec<String>>)
    ensures
        uris.deep_view() == rootlist_uris(bytes@),
{
    let message: librespot_protocol::playlist4_external::SelectedListContent =
        protobuf::Message::parse_from_bytes(bytes).ok()?;
    let contents = message.contents.as_ref()?;
    Some(contents.items.iter().map(|item| item.uri().to_string()).collect())
}

/// The tree of an account's rootlist, from the answer of the service.
pub fn rootlist_folders(answer: &Option<Vec<u8>>) -> (nodes: Option<Vec<PlaylistFolderNode>>)
    ensures
        nodes.deep_view() == (match *answer {
            Some(bytes) => match rootlist_uris(bytes@) {
                Some(uris) => Some(rootlist_nodes(uris)),
                None => None,
            },
            None => None,
        }),
        nodes.deep_view() matches Some(tree) ==> folder_count(tree) <= rootlist_uris(
            answer->0@,
        )->0.len(),
{
    match answer {
        Some(bytes) => match parse_rootlist_message(bytes) {
            Some(uris) => Some(parse_rootlist_items(&uris)),
            None => None,
        },
        None => None,
    }
}

/// The URIs of the playlists in a tree, in order.
pub open spec fn playlist_uris(nodes: Seq<NodeView>) -> Seq<Seq<char>>
    decreases nodes,
{
    if nodes.len() == 0 {
        seq![]
    } else {
        playlist_uris(nodes.drop_last()) + uris_of_node(nodes[nodes.len() - 1])
    }
}

/// The URIs of the playlists in a node, in order.
pub open spec fn uris_of_node(node: NodeView) -> Seq<Seq<char>>
    decreases node,
{
    match node.node_type {
        PlaylistFolderNodeType::Folder => playlist_uris(node.children),
        PlaylistFolderNodeType::Playlist => seq![node.uri],
    }
}

/// The URI neither opens nor closes a folder.
pub open spec fn names_playlist() -> spec_fn(Seq<char>) -> bool {
    |uri: Seq<char>| !opens_folder(uri) && !closes_folder(uri)
}

/// The URIs of the playlists that were read so far.
spec fn uris_so_far(state: RootlistState) -> Seq<Seq<char>>
    decreases state.open.len(),
{
    if state.open.len() == 0 {
        playlist_uris(state.root)
    } else {
        uris_so_far(
            RootlistState { root: state.open.last().before, open: state.open.drop_last() },
        ) + playlist_uris(state.root)
    }
}

proof fn lemma_close_keeps_uris(state: RootlistState)
    requires
        state.open.len() > 0,
    ensures
        uris_so_far(folder_closed(state)) == uris_so_far(state),
{
    let folder = state.open.last();
    let node = folder_node(folder.group_id, folder.name, state.root);
    let root = folder.before.push(node);
    assert(root.drop_last() =~= folder.before);
    assert(uris_of_node(node) == playlist_uris(state.root));
    assert(playlist_uris(root) == playlist_uris(folder.before) + playlist_uris(state.root));
    let outer = RootlistState { root: folder.before, open: state.open.drop_last() };
    let closed = folder_closed(state);
    if closed.open.len() > 0 {
        let rest = RootlistState {
            root: closed.open.last().before,
            open: closed.open.drop_last(),
        };
        assert(uris_so_far(closed) == uris_so_far(rest) + playlist_uris(root));
        assert(uris_so_far(outer) == uris_so_far(rest) + playlist_uris(folder.before));
    } else {
        assert(uris_so_far(outer) == playlist_uris(folder.before));
    }
    assert(uris_so_far(state) == uris_so_far(outer) + playlist_uris(state.root));
    assert(uris_so_far(closed) =~= uris_so_far(state));
}

proof fn lemma_read_adds_uri(state: RootlistState, uri: Seq<char>)
    ensures
        uris_so_far(uri_read(state, uri)) == (if names_playlist()(uri) {
            uris_so_far(state).push(uri)
        } else {
            uris_so_far(state)
        }),
{
    let next = uri_read(state, uri);
    if opens_folder(uri) {
        assert(next.open.drop_last() =~= state.open);
        assert(playlist_uris(next.root) =~= seq![]);
        assert(uris_so_far(next) =~= uris_so_far(state));
    } else if closes_folder(uri) {
        if state.open.len() > 0 {
            lemma_close_keeps_uris(state);
        }
    } else {
        assert(next.root.drop_last() =~= state.root);
        assert(uris_of_node(playlist_node(uri)) == seq![uri]);
        assert(playlist_uris(next.root) =~= playlist_uris(state.root).push(uri));
        assert(uris_so_far(next) =~= uris_so_far(state).push(uri));
    }
}

proof fn lemma_read_uris(uris: Seq<Seq<char>>)
    ensures
        uris_so_far(uris_read(uris)) == uris.filter(names_playlist()),
    decreases uris.len(),
{
    reveal(Seq::filter);
    if uris.len() > 0 {
        lemma_read_uris(uris.drop_last());
        lemma_read_adds_uri(uris_read(uris.drop_last()), uris.last());
    }
}

proof fn lemma_all_closed_uris(state: RootlistState)
    ensures
        playlist_uris(all_closed(state)) == uris_so_far(state),
    decreases state.open.len(),
{
    if state.open.len() > 0 {
        lemma_close_keeps_uris(state);
        lemma_all_closed_uris(folder_closed(state));
    }
}

/// Reading a rootlist loses no playlist and turns no two around, however its folders open and
/// close: the playlists of the tree are those of the list, in the same order.
pub proof fn lemma_rootlist_keeps_playlists(uris: Seq<Seq<char>>)
    ensures
        playlist_uris(rootlist_nodes(uris)) == uris.filter(names_playlist()),
{
    lemma_read_uris(uris);
    lemma_all_closed_uris(uris_read(uris));
}

/// How many folders a tree has.
pub open spec fn folder_count(nodes: Seq<NodeView>) -> nat
    decreases nodes,
{
    if nodes.len() == 0 {
        0
    } else {
        folder_count(nodes.drop_last()) + folders_of_node(nodes[nodes.len() - 1])
    }
}

/// How many folders a node is and has.
pub open spec fn folders_of_node(node: NodeView) -> nat
    decreases node,
{
    match node.node_type {
        PlaylistFolderNodeType::Folder => 1 + folder_count(node.children),
        PlaylistFolderNodeType::Playlist => 0,
    }
}

spec fn folders_so_far(state: RootlistState) -> nat
    decreases state.open.len(),
{
    if state.open.len() == 0 {
        folder_count(state.root)
    } else {
        1 + folder_count(state.root) + folders_so_far(
            RootlistState { root: state.open.last().before, open: state.open.drop_last() },
        )
    }
}

proof fn lemma_close_keeps_folders(state: RootlistState)
    requires
        state.open.len() > 0,
    ensures
        folders_so_far(folder_closed(state)) == folders_so_far(state),
{
    let folder = state.open.last();
    let node = folder_node(folder.group_id, folder.name, state.root);
    let root = folder.before.push(node);
    assert(root.drop_last() =~= folder.before);
    assert(folders_of_node(node) == 1 + folder_count(state.root));
    assert(folder_count(root) == folder_count(folder.before) + 1 + folder_count(state.root));
    let outer = RootlistState { root: folder.before, open: state.open.drop_last() };
    let closed = folder_closed(state);
    if closed.open.len() > 0 {
        let rest = RootlistState {
            root: closed.open.last().before,
            open: closed.open.drop_last(),
        };
        assert(folders_so_far(closed) == 1 + folder_count(root) + folders_so_far(rest));
        assert(folders_so_far(outer) == 1 + folder_count(folder.before) + folders_so_far(rest));
    } else {
        assert(folders_so_far(outer) == folder_count(folder.before));
    }
    assert(folders_so_far(state) == 1 + folder_count(state.root) + folders_so_far(outer));
}

proof fn lemma_read_folders(uris: Seq<Seq<char>>)
    ensures
        folders_so_far(uris_read(uris)) <= uris.len(),
    decreases uris.len(),
{
    if uris.len() > 0 {
        let before = uris_read(uris.drop_last());
        let uri = uris.last();
        let next = uri_read(before, uri);
        lemma_read_folders(uris.drop_last());
        if opens_folder(uri) {
            assert(next.open.drop_last() =~= before.open);
        } else if closes_folder(uri) {
            if before.open.len() > 0 {
                lemma_close_keeps_folders(before);
            }
        } else {
            assert(next.root.drop_last() =~= before.root);
            assert(folders_of_node(playlist_node(uri)) == 0);
            assert(folder_count(next.root) == folder_count(before.root));
        }
    }
}

proof fn lemma_all_closed_folders(state: RootlistState)
    ensures
        folder_count(all_closed(state)) == folders_so_far(state),
    decreases state.open.len(),
{
    if state.open.len() > 0 {
        lemma_close_keeps_folders(state);
        lemma_all_closed_folders(folder_closed(state));
    }
}

/// The tree of a rootlist has at most as many folders as the list has URIs.
pub proof fn lemma_rootlist_folder_count(uris: Seq<Seq<char>>)
    ensures
        folder_count(rootlist_nodes(uris)) <= uris.len(),
{
    lemma_read_folders(uris);
    lemma_all_closed_folders(uris_read(uris));
}

/// A row of the sidebar that leads into a folder or out of it.
#[derive(Debug, PartialEq, Eq)]
pub struct PlaylistFolder {
    pub name: String,
    pub current_id: usize,
    pub target_id: usize,
}

/// A row of the sidebar: it is shown in the folder `current_id`; the folder at the root is 0.
#[derive(Debug, PartialEq, Eq)]
pub enum PlaylistFolderItem {
    Folder(PlaylistFolder),
    Playlist { index: usize, current_id: usize },
    CommunityPin,
}

/// What a [`PlaylistFolderItem`] stands for.
pub enum FolderItemView {
    Folder { name: Seq<char>, current_id: usize, target_id: usize },
    Playlist { index: usize, current_id: usize },
    CommunityPin,
}

impl DeepView for PlaylistFolderItem {
    type V = FolderItemView;

    open spec fn deep_view(&self) -> FolderItemView {
        match self {
            PlaylistFolderItem::Folder(folder) => FolderItemView::Folder {
                name: folder.name@,
                current_id: folder.current_id,
                target_id: folder.target_id,
            },
            PlaylistFolderItem::Playlist { index, current_id } => FolderItemView::Playlist {
                index: *index,
                current_id: *current_id,
            },
            PlaylistFolderItem::CommunityPin => FolderItemView::CommunityPin,
        }
    }
}

impl Clone for PlaylistFolderItem {
    fn clone(&self) -> (copy: Self)
        ensures
            copy.deep_view() == self.deep_view(),
    {
        match self {
            PlaylistFolderItem::Folder(folder) => PlaylistFolderItem::Folder(
                PlaylistFolder {
                    name: folder.name.clone(),
                    current_id: folder.current_id,
                    target_id: folder.target_id,
                },
            ),
            PlaylistFolderItem::Playlist { index, current_id } => PlaylistFolderItem::Playlist {
                index: *index,
                current_id: *current_id,
            },
            PlaylistFolderItem::CommunityPin => PlaylistFolderItem::CommunityPin,
        }
    }
}

/// A playlist at the root of the sidebar.
pub open spec fn root_row(index: int) -> FolderItemView {
    FolderItemView::Playlist { index: index as usize, current_id: 0 }
}

/// The rows of a sidebar without folders: every playlist, in order.
pub open spec fn flat_rows(count: nat) -> Seq<FolderItemView> {
    Seq::new(count, |i: int| root_row(i))
}

/// The rows of a sidebar without folders.
pub fn build_flat_playlist_items(playlists: &Vec<PlaylistInfo>) -> (rows: Vec<PlaylistFolderItem>)
    ensures
        rows.deep_view() == flat_rows(playlists@.len()),
{
    let mut rows: Vec<PlaylistFolderItem> = Vec::new();
    let mut i: usize = 0;
    while i < playlists.len()
        invariant
            i <= playlists@.len(),
            rows.deep_view() == flat_rows(i as nat),
        decreases playlists@.len() - i,
    {
        let ghost before = rows.deep_view();
        rows.push(PlaylistFolderItem::Playlist { index: i, current_id: 0 });
        assert(rows.deep_view() =~= before.push(root_row(i as int)));
        assert(rows.deep_view() =~= flat_rows((i + 1) as nat));
        i += 1;
    }
    rows
}

/// The place of the last playlist with an id among playlists; none, where there is none.
pub open spec fn playlist_place(playlists: Seq<PlaylistView>, id: Seq<char>) -> Option<int>
    decreases playlists.len(),
{
    if playlists.len() == 0 {
        None
    } else if playlists.last().id == Some(id) {
        Some(playlists.len() - 1)
    } else {
        playlist_place(playlists.drop_last(), id)
    }
}

/// The place of the last playlist with an id.
fn find_playlist(playlists: &Vec<PlaylistInfo>, id: &str) -> (place: Option<usize>)
    ensures
        match place {
            Some(i) => playlist_place(playlists.deep_view(), id@) == Some(i as int) && i
                < playlists@.len(),
            None => playlist_place(playlists.deep_view(), id@) is None,
        },
{
    let ghost views = playlists.deep_view();
    let mut i: usize = playlists.len();
    assert(views.take(i as int) =~= views);
    while i > 0
        invariant
            i <= playlists@.len(),
            views == playlists.deep_view(),
            playlist_place(views, id@) == playlist_place(views.take(i as int), id@),
        decreases i,
    {
        assert(views.take(i as int).last() == playlists@[i - 1].deep_view());
        if optional_text_is(&playlists[i - 1].id, id) {
            return Some(i - 1);
        }
        assert(views.take(i as int).drop_last() =~= views.take(i - 1));
        i -= 1;
    }
    None
}

/// The id of the playlist that a URI names.
pub open spec fn id_in_uri(uri: Seq<char>) -> Seq<char> {
    match without_prefix(uri, "spotify:playlist:"@) {
        Some(id) => id,
        None => uri,
    }
}

/// Rows of the sidebar, and the number of the next folder.
pub struct Rows {
    pub rows: Seq<FolderItemView>,
    pub next_id: int,
}

/// The name of a folder.
pub open spec fn folder_name(name: Option<Seq<char>>) -> Seq<char> {
    match name {
        Some(name) => name,
        None => "Unnamed Folder"@,
    }
}

/// The row that leads into a folder.
pub open spec fn row_into(name: Seq<char>, current_id: int, target_id: int) -> FolderItemView {
    FolderItemView::Folder {
        name,
        current_id: current_id as usize,
        target_id: target_id as usize,
    }
}

/// The row that leads out of a folder.
pub open spec fn row_out(name: Seq<char>, current_id: int, target_id: int) -> FolderItemView {
    FolderItemView::Folder {
        name: "\u{2190} "@ + name,
        current_id: target_id as usize,
        target_id: current_id as usize,
    }
}

/// The rows with those of one node added: for a folder the row into it, the row out of it and what
/// is in it; for a playlist that is known its row.
pub open spec fn with_node(
    node: NodeView,
    current_id: int,
    playlists: Seq<PlaylistView>,
    so_far: Rows,
) -> Rows
    decreases node,
{
    match node.node_type {
        PlaylistFolderNodeType::Folder => {
            let name = folder_name(node.name);
            with_nodes(
                node.children,
                so_far.next_id,
                playlists,
                Rows {
                    rows: so_far.rows.push(row_into(name, current_id, so_far.next_id)).push(
                        row_out(name, current_id, so_far.next_id),
                    ),
                    next_id: so_far.next_id + 1,
                },
            )
        },
        PlaylistFolderNodeType::Playlist => match playlist_place(playlists, id_in_uri(node.uri)) {
            Some(index) => Rows {
                rows: so_far.rows.push(
                    FolderItemView::Playlist {
                        index: index as usize,
                        current_id: current_id as usize,
                    },
                ),
                next_id: so_far.next_id,
            },
            None => so_far,
        },
    }
}

/// The rows with those of nodes added, in order.
pub open spec fn with_nodes(
    nodes: Seq<NodeView>,
    current_id: int,
    playlists: Seq<PlaylistView>,
    so_far: Rows,
) -> Rows
    decreases nodes,
{
    if nodes.len() == 0 {
        so_far
    } else {
        with_node(
            nodes[nodes.len() - 1],
            current_id,
            playlists,
            with_nodes(nodes.drop_last(), current_id, playlists, so_far),
        )
    }
}

/// A row shows the playlist.
pub open spec fn shows_playlist(rows: Seq<FolderItemView>, index: int) -> bool {
    exists|i: int|
        0 <= i < rows.len() && (#[trigger] rows[i] matches FolderItemView::Playlist {
            index: shown,
            ..
        } && shown == index)
}

/// The rows, with one at the root added for each of the first playlists that `placed` does not show.
pub open spec fn with_unplaced(
    rows: Seq<FolderItemView>,
    placed: Seq<FolderItemView>,
    count: nat,
) -> Seq<FolderItemView>
    decreases count,
{
    if count == 0 {
        rows
    } else {
        let before = with_unplaced(rows, placed, (count - 1) as nat);
        if shows_playlist(placed, count - 1) {
            before
        } else {
            before.push(root_row(count - 1))
        }
    }
}

/// The rows of the sidebar for a tree: those of the tree, then the playlists that are not in it.
pub open spec fn structured_rows(
    nodes: Seq<NodeView>,
    playlists: Seq<PlaylistView>,
) -> Seq<FolderItemView> {
    let placed = with_nodes(nodes, 0, playlists, Rows { rows: seq![], next_id: 1 }).rows;
    with_unplaced(placed, placed, playlists.len())
}

/// Adds the rows of nodes.
fn walk(
    nodes: &Vec<PlaylistFolderNode>,
    current_id: usize,
    rows: &mut Vec<PlaylistFolderItem>,
    next_id: &mut usize,
    playlists: &Vec<PlaylistInfo>,
)
    requires
        2 * (*old(next_id) - 1) <= old(rows)@.len(),
    ensures
        (Rows { rows: final(rows).deep_view(), next_id: *final(next_id) as int }) == with_nodes(
            nodes.deep_view(),
            current_id as int,
            playlists.deep_view(),
            Rows { rows: old(rows).deep_view(), next_id: *old(next_id) as int },
        ),
        *final(next_id) == *old(next_id) + folder_count(nodes.deep_view()),
        2 * (*final(next_id) - 1) <= final(rows)@.len(),
    decreases nodes,
{
    let ghost views = nodes.deep_view();
    let ghost start = Rows { rows: rows.deep_view(), next_id: *next_id as int };
    let mut i: usize = 0;
    assert(views.take(0) =~= seq![]);
    while i < nodes.len()
        invariant
            i <= nodes@.len(),
            views == nodes.deep_view(),
            (Rows { rows: rows.deep_view(), next_id: *next_id as int }) == with_nodes(
                views.take(i as int),
                current_id as int,
                playlists.deep_view(),
                start,
            ),
            *next_id == start.next_id + folder_count(views.take(i as int)),
            2 * (*next_id - 1) <= rows@.len(),
        decreases nodes@.len() - i,
    {
        let node = &nodes[i];
        let ghost here = views.take(i + 1);
        proof {
            assert(here.drop_last() =~= views.take(i as int));
            assert(here[here.len() - 1] == node.deep_view());
            lemma_node_view(*node);
            assert(folder_count(here) == folder_count(views.take(i as int)) + folders_of_node(
                node.deep_view(),
            ));
        }
        let ghost before = rows.deep_view();
        match node.node_type {
            PlaylistFolderNodeType::Folder => {
                let folder_id: usize = *next_id;
                assert(rows.len() <= usize::MAX);
                *next_id = folder_id + 1;
                let name = match &node.name {
                    Some(name) => name.clone(),
                    None => "Unnamed Folder".to_owned(),
                };
                let mut back = "\u{2190} ".to_owned();
                back.append(name.as_str());
                rows.push(
                    PlaylistFolderItem::Folder(
                        PlaylistFolder { name, current_id, target_id: folder_id },
                    ),
                );
                rows.push(
                    PlaylistFolderItem::Folder(
                        PlaylistFolder { name: back, current_id: folder_id, target_id: current_id },
                    ),
                );
                let ghost name = folder_name(node.deep_view().name);
                assert(rows.deep_view() =~= before.push(
                    row_into(name, current_id as int, folder_id as int),
                ).push(row_out(name, current_id as int, folder_id as int)));
                assert(decreases_to!(nodes => nodes@));
                assert(decreases_to!(nodes@ => nodes@[i as int]));
                assert(decreases_to!(nodes@[i as int] => nodes@[i as int].children));
                walk(&node.children, folder_id, rows, next_id, playlists);
                assert(Rows { rows: rows.deep_view(), next_id: *next_id as int } == with_node(
                    node.deep_view(),
                    current_id as int,
                    playlists.deep_view(),
                    Rows { rows: before, next_id: folder_id as int },
                ));
            },
            PlaylistFolderNodeType::Playlist => {
                let id = match strip_text_prefix(node.uri.as_str(), "spotify:playlist:") {
                    Some(id) => id,
                    None => node.uri.clone(),
                };
                if let Some(index) = find_playlist(playlists, id.as_str()) {
                    rows.push(PlaylistFolderItem::Playlist { index, current_id });
                    assert(rows.deep_view() =~= before.push(
                        FolderItemView::Playlist { index, current_id },
                    ));
                }
            },
        }
        assert(Rows { rows: rows.deep_view(), next_id: *next_id as int } == with_node(
            node.deep_view(),
            current_id as int,
            playlists.deep_view(),
            with_nodes(views.take(i as int), current_id as int, playlists.deep_view(), start),
        ));
        i += 1;
    }
    assert(views.take(i as int) =~= views);
}

/// Whether a row shows the playlist.
fn is_shown(rows: &Vec<PlaylistFolderItem>, index: usize) -> (shown: bool)
    ensures
        shown == shows_playlist(rows.deep_view(), index as int),
{
    let mut i: usize = 0;
    while i < rows.len()
        invariant
            i <= rows@.len(),
            forall|k: int|
                0 <= k < i ==> !(#[trigger] rows.deep_view()[k] matches FolderItemView::Playlist {
                    index: shown,
                    ..
                } && shown == index),
        decreases rows@.len() - i,
    {
        assert(rows.deep_view()[i as int] == rows@[i as int].deep_view());
        match &rows[i] {
            PlaylistFolderItem::Playlist { index: shown, .. } => {
                if *shown == index {
                    return true;
                }
            },
            _ => {},
        }
        i += 1;
    }
    false
}

/// The rows of the sidebar for a tree: those of the tree, then the playlists that are not in it.
pub fn structurize_playlist_folders(
    nodes: &Vec<PlaylistFolderNode>,
    playlists: &Vec<PlaylistInfo>,
) -> (rows: Vec<PlaylistFolderItem>)
    ensures
        rows.deep_view() == structured_rows(nodes.deep_view(), playlists.deep_view()),
        well_linked(rows.deep_view()),
{
    let mut placed: Vec<PlaylistFolderItem> = Vec::new();
    let mut next_id: usize = 1;
    assert(placed.deep_view() =~= seq![]);
    walk(nodes, 0, &mut placed, &mut next_id, playlists);
    proof {
        assert(placed.len() <= usize::MAX);
        lemma_folders_lead_back(nodes.deep_view(), playlists.deep_view());
    }
    let mut rest: Vec<PlaylistFolderItem> = Vec::new();
    let mut i: usize = 0;
    assert(placed.deep_view() + rest.deep_view() =~= placed.deep_view());
    while i < playlists.len()
        invariant
            i <= playlists@.len(),
            placed.deep_view() + rest.deep_view() == with_unplaced(
                placed.deep_view(),
                placed.deep_view(),
                i as nat,
            ),
        decreases playlists@.len() - i,
    {
        let ghost before = rest.deep_view();
        if !is_shown(&placed, i) {
            rest.push(PlaylistFolderItem::Playlist { index: i, current_id: 0 });
            assert(rest.deep_view() =~= before.push(root_row(i as int)));
            assert(placed.deep_view() + rest.deep_view() =~= (placed.deep_view() + before).push(
                root_row(i as int),
            ));
        }
        i += 1;
    }
    let ghost shown = placed.deep_view();
    let ghost others = rest.deep_view();
    placed.append(&mut rest);
    assert(placed.deep_view() =~= shown + others);
    placed
}

proof fn lemma_unplaced_shown(
    rows: Seq<FolderItemView>,
    placed: Seq<FolderItemView>,
    count: nat,
    index: int,
)
    requires
        0 <= index < count <= usize::MAX,
        rows == placed,
    ensures
        shows_playlist(with_unplaced(rows, placed, count), index),
    decreases count,
{
    let before = with_unplaced(rows, placed, (count - 1) as nat);
    let all = with_unplaced(rows, placed, count);
    if index < count - 1 {
        lemma_unplaced_shown(rows, placed, (count - 1) as nat, index);
        let i = choose|i: int|
            0 <= i < before.len() && (#[trigger] before[i] matches FolderItemView::Playlist {
                index: shown,
                ..
            } && shown == index);
        assert(all[i] == before[i]);
    } else if shows_playlist(placed, index) {
        lemma_unplaced_extends(rows, placed, count);
        let i = choose|i: int|
            0 <= i < placed.len() && (#[trigger] placed[i] matches FolderItemView::Playlist {
                index: shown,
                ..
            } && shown == index);
        assert(all[i] == placed[i]);
    } else {
        assert(all[all.len() - 1] == root_row(index));
    }
}

proof fn lemma_unplaced_extends(
    rows: Seq<FolderItemView>,
    placed: Seq<FolderItemView>,
    count: nat,
)
    ensures
        rows.len() <= with_unplaced(rows, placed, count).len(),
        forall|i: int|
            0 <= i < rows.len() ==> #[trigger] with_unplaced(rows, placed, count)[i] == rows[i],
        forall|i: int|
            rows.len() <= i < with_unplaced(rows, placed, count).len() ==> #[trigger] with_unplaced(
                rows,
                placed,
                count,
            )[i] is Playlist,
    decreases count,
{
    if count > 0 {
        lemma_unplaced_extends(rows, placed, (count - 1) as nat);
    }
}

/// Whatever the tree says, every playlist has a row in the sidebar.
pub proof fn lemma_every_playlist_has_a_row(
    nodes: Seq<NodeView>,
    playlists: Seq<PlaylistView>,
    index: int,
)
    requires
        0 <= index < playlists.len() <= usize::MAX,
    ensures
        shows_playlist(structured_rows(nodes, playlists), index),
{
    let placed = with_nodes(nodes, 0, playlists, Rows { rows: seq![], next_id: 1 }).rows;
    lemma_unplaced_shown(placed, placed, playlists.len(), index);
}

/// The row leads into a folder. Folders are numbered as they come, so a folder has a higher number
/// than the one it is in.
pub open spec fn leads_in(row: FolderItemView) -> bool {
    row matches FolderItemView::Folder { current_id, target_id, .. } && current_id < target_id
}

/// The row is the way back of another row.
pub open spec fn is_way_back(row: FolderItemView, back: FolderItemView) -> bool {
    &&& row is Folder
    &&& back is Folder
    &&& back->Folder_current_id == row->Folder_target_id
    &&& back->Folder_target_id == row->Folder_current_id
}

/// Every row into a folder is followed by the row back, and no two rows lead into the same folder.
pub open spec fn well_linked(rows: Seq<FolderItemView>) -> bool {
    &&& forall|i: int|
        0 <= i < rows.len() && leads_in(#[trigger] rows[i]) ==> i + 1 < rows.len() && is_way_back(
            rows[i],
            rows[i + 1],
        )
    &&& forall|i: int, j: int|
        0 <= i < j < rows.len() && leads_in(#[trigger] rows[i]) && leads_in(#[trigger] rows[j])
            ==> rows[i]->Folder_target_id != rows[j]->Folder_target_id
}

/// The rows speak of folders below a number only.
spec fn ids_below(rows: Seq<FolderItemView>, next_id: int) -> bool {
    forall|i: int|
        0 <= i < rows.len() && (#[trigger] rows[i]) is Folder ==> rows[i]->Folder_current_id < next_id
            && rows[i]->Folder_target_id < next_id
}

proof fn lemma_node_linked(
    node: NodeView,
    current_id: int,
    playlists: Seq<PlaylistView>,
    so_far: Rows,
)
    requires
        0 <= current_id < so_far.next_id,
        so_far.next_id + folders_of_node(node) <= usize::MAX,
        well_linked(so_far.rows),
        ids_below(so_far.rows, so_far.next_id),
    ensures
        well_linked(with_node(node, current_id, playlists, so_far).rows),
        ids_below(
            with_node(node, current_id, playlists, so_far).rows,
            with_node(node, current_id, playlists, so_far).next_id,
        ),
        with_node(node, current_id, playlists, so_far).next_id == so_far.next_id + folders_of_node(
            node,
        ),
    decreases node,
{
    match node.node_type {
        PlaylistFolderNodeType::Folder => {
            let name = folder_name(node.name);
            let into = row_into(name, current_id, so_far.next_id);
            let out = row_out(name, current_id, so_far.next_id);
            let entered = Rows {
                rows: so_far.rows.push(into).push(out),
                next_id: so_far.next_id + 1,
            };
            assert(folders_of_node(node) == 1 + folder_count(node.children));
            assert forall|i: int|
                0 <= i < entered.rows.len() && leads_in(#[trigger] entered.rows[i]) implies i + 1
                < entered.rows.len() && is_way_back(entered.rows[i], entered.rows[i + 1]) by {
                if i < so_far.rows.len() {
                    assert(entered.rows[i] == so_far.rows[i]);
                    assert(entered.rows[i + 1] == so_far.rows[i + 1]);
                }
            }
            assert forall|i: int, j: int|
                0 <= i < j < entered.rows.len() && leads_in(#[trigger] entered.rows[i]) && leads_in(
                    #[trigger] entered.rows[j],
                ) implies entered.rows[i]->Folder_target_id != entered.rows[j]->Folder_target_id by {
                assert(entered.rows[i] == so_far.rows[i]);
                if j < so_far.rows.len() {
                    assert(entered.rows[j] == so_far.rows[j]);
                }
            }
            lemma_nodes_linked(node.children, so_far.next_id, playlists, entered);
        },
        PlaylistFolderNodeType::Playlist => {
            assert(folders_of_node(node) == 0);
            let after = with_node(node, current_id, playlists, so_far);
            if after.rows.len() > so_far.rows.len() {
                lemma_playlist_row_linked(so_far.rows, after.rows.last());
                assert(after.rows =~= so_far.rows.push(after.rows.last()));
            }
        },
    }
}

proof fn lemma_playlist_row_linked(rows: Seq<FolderItemView>, row: FolderItemView)
    requires
        well_linked(rows),
        row is Playlist,
    ensures
        well_linked(rows.push(row)),
{
    let all = rows.push(row);
    assert forall|i: int| 0 <= i < all.len() && leads_in(#[trigger] all[i]) implies i + 1
        < all.len() && is_way_back(all[i], all[i + 1]) by {
        assert(all[i] == rows[i]);
        assert(all[i + 1] == rows[i + 1]);
    }
    assert forall|i: int, j: int|
        0 <= i < j < all.len() && leads_in(#[trigger] all[i]) && leads_in(
            #[trigger] all[j],
        ) implies all[i]->Folder_target_id != all[j]->Folder_target_id by {
        assert(all[i] == rows[i] && all[j] == rows[j]);
    }
}

proof fn lemma_nodes_linked(
    nodes: Seq<NodeView>,
    current_id: int,
    playlists: Seq<PlaylistView>,
    so_far: Rows,
)
    requires
        0 <= current_id < so_far.next_id,
        so_far.next_id + folder_count(nodes) <= usize::MAX,
        well_linked(so_far.rows),
        ids_below(so_far.rows, so_far.next_id),
    ensures
        well_linked(with_nodes(nodes, current_id, playlists, so_far).rows),
        ids_below(
            with_nodes(nodes, current_id, playlists, so_far).rows,
            with_nodes(nodes, current_id, playlists, so_far).next_id,
        ),
        with_nodes(nodes, current_id, playlists, so_far).next_id == so_far.next_id + folder_count(
            nodes,
        ),
    decreases nodes,
{
    if nodes.len() > 0 {
        let last = nodes[nodes.len() - 1];
        assert(folder_count(nodes) == folder_count(nodes.drop_last()) + folders_of_node(last));
        lemma_nodes_linked(nodes.drop_last(), current_id, playlists, so_far);
        let before = with_nodes(nodes.drop_last(), current_id, playlists, so_far);
        lemma_node_linked(last, current_id, playlists, before);
    }
}

proof fn lemma_unplaced_linked(
    rows: Seq<FolderItemView>,
    placed: Seq<FolderItemView>,
    count: nat,
)
    requires
        well_linked(rows),
    ensures
        well_linked(with_unplaced(rows, placed, count)),
    decreases count,
{
    if count > 0 {
        lemma_unplaced_linked(rows, placed, (count - 1) as nat);
        lemma_playlist_row_linked(
            with_unplaced(rows, placed, (count - 1) as nat),
            root_row(count - 1),
        );
    }
}

/// In the sidebar of a tree every folder can be left again: the row into it is followed by the row
/// back to where it came from. Every folder has a number of its own.
pub proof fn lemma_folders_lead_back(nodes: Seq<NodeView>, playlists: Seq<PlaylistView>)
    requires
        folder_count(nodes) < usize::MAX,
    ensures
        well_linked(structured_rows(nodes, playlists)),
{
    let start = Rows { rows: seq![], next_id: 1 };
    lemma_nodes_linked(nodes, 0, playlists, start);
    let placed = with_nodes(nodes, 0, playlists, start).rows;
    lemma_unplaced_linked(placed, placed, playlists.len());
}

/// Without folders the sidebar shows the playlists as they come.
pub proof fn lemma_no_folders_flat_rows(playlists: Seq<PlaylistView>)
    ensures
        structured_rows(seq![], playlists) == flat_rows(playlists.len()),
{
    lemma_unplaced_flat(playlists.len());
}

proof fn lemma_unplaced_flat(count: nat)
    ensures
        with_unplaced(seq![], seq![], count) == flat_rows(count),
    decreases count,
{
    if count > 0 {
        lemma_unplaced_flat((count - 1) as nat);
    }
    assert(with_unplaced(seq![], seq![], count) =~= flat_rows(count));
}

/// The URIs with which a rootlist writes nodes down.
pub open spec fn written(nodes: Seq<NodeView>) -> Seq<Seq<char>>
    decreases nodes,
{
    if nodes.len() == 0 {
        seq![]
    } else {
        written(nodes.drop_last()) + written_node(nodes[nodes.len() - 1])
    }
}

/// The URIs with which a rootlist writes a node down: a playlist by its own, a folder by one that
/// opens it with its id and its name, those of what is in it, and one that closes it.
pub open spec fn written_node(node: NodeView) -> Seq<Seq<char>>
    decreases node,
{
    match node.node_type {
        PlaylistFolderNodeType::Folder => {
            let id = node.uri.skip("spotify:folder:"@.len() as int);
            seq!["spotify:start-group:"@ + id + ":"@ + node.name->0] + written(node.children) + seq![
                "spotify:end-group:"@ + id,
            ]
        },
        PlaylistFolderNodeType::Playlist => seq![node.uri],
    }
}

/// A rootlist can write the nodes down: a folder has a name and an id without a colon, and a playlist
/// has neither a name nor anything in it, nor a URI that opens or closes a folder.
pub open spec fn can_be_written(nodes: Seq<NodeView>) -> bool
    decreases nodes,
{
    if nodes.len() == 0 {
        true
    } else {
        can_be_written(nodes.drop_last()) && node_can_be_written(nodes[nodes.len() - 1])
    }
}

/// A rootlist can write the node down.
pub open spec fn node_can_be_written(node: NodeView) -> bool
    decreases node,
{
    match node.node_type {
        PlaylistFolderNodeType::Folder => {
            &&& node.name is Some
            &&& has_prefix(node.uri, "spotify:folder:"@)
            &&& lacks(node.uri.skip("spotify:folder:"@.len() as int), ':')
            &&& can_be_written(node.children)
        },
        PlaylistFolderNodeType::Playlist => {
            &&& node.name is None
            &&& node.children.len() == 0
            &&& !has_prefix(node.uri, "spotify:start-group:"@)
            &&& !has_prefix(node.uri, "spotify:end-group:"@)
        },
    }
}

proof fn lemma_first_colon_at(id: Seq<char>, rest: Seq<char>)
    requires
        lacks(id, ':'),
        rest.len() > 0 ==> rest[0] == ':',
    ensures
        first_colon(id + rest) == id.len(),
    decreases id.len(),
{
    if id.len() > 0 {
        assert((id + rest).skip(1) =~= id.skip(1) + rest);
        assert((id + rest)[0] == id[0]);
        assert forall|i: int| 0 <= i < id.skip(1).len() implies #[trigger] id.skip(1)[i] != ':' by {
            assert(id.skip(1)[i] == id[i + 1]);
        }
        lemma_first_colon_at(id.skip(1), rest);
    } else {
        assert(id + rest =~= rest);
    }
}

/// What a URI that opens a folder says: the id up to the first colon, and the name behind it.
proof fn lemma_group_parts(id: Seq<char>, name: Seq<char>)
    requires
        lacks(id, ':'),
    ensures
        group_id(id + ":"@ + name) == id,
        group_name(id + ":"@ + name) == name,
        group_id(id) == id,
        group_name(id) == Seq::<char>::empty(),
{
    reveal_strlit(":");
    let rest = id + ":"@ + name;
    assert(rest =~= id + (":"@ + name));
    lemma_first_colon_at(id, ":"@ + name);
    assert(group_id(rest) =~= id);
    assert(group_name(rest) =~= name);
    lemma_first_colon_at(id, seq![]);
    assert(id + seq![] =~= id);
    assert(group_id(id) =~= id);
}

proof fn lemma_end_is_no_start(id: Seq<char>)
    ensures
        !opens_folder("spotify:end-group:"@ + id),
        closes_folder("spotify:end-group:"@ + id),
{
    reveal_strlit("spotify:start-group:");
    reveal_strlit("spotify:end-group:");
    let uri = "spotify:end-group:"@ + id;
    lemma_prefix_taken_off("spotify:end-group:"@, id);
    assert(uri[8] == 'e');
    assert("spotify:start-group:"@[8] == 's');
    if has_prefix(uri, "spotify:start-group:"@) {
        assert(uri.subrange(0, "spotify:start-group:"@.len() as int)[8] == uri[8]);
    }
}

proof fn lemma_read_more(uris: Seq<Seq<char>>, uri: Seq<char>)
    ensures
        uris_read(uris.push(uri)) == uri_read(uris_read(uris), uri),
{
    assert(uris.push(uri).drop_last() =~= uris);
}

#[verifier::rlimit(30)]
proof fn lemma_node_read(uris: Seq<Seq<char>>, node: NodeView)
    requires
        node_can_be_written(node),
    ensures
        uris_read(uris + written_node(node)) == (RootlistState {
            root: uris_read(uris).root.push(node),
            open: uris_read(uris).open,
        }),
    decreases node,
{
    let state = uris_read(uris);
    match node.node_type {
        PlaylistFolderNodeType::Folder => {
            let id = node.uri.skip("spotify:folder:"@.len() as int);
            let name = node.name->0;
            let start = "spotify:start-group:"@ + id + ":"@ + name;
            let rest = id + ":"@ + name;
            assert(start =~= "spotify:start-group:"@ + rest);
            lemma_prefix_taken_off("spotify:start-group:"@, rest);
            lemma_group_parts(id, name);
            lemma_read_more(uris, start);
            let opened = uris_read(uris.push(start));
            lemma_nodes_read(uris.push(start), node.children);
            let inner = uris.push(start) + written(node.children);
            let end = "spotify:end-group:"@ + id;
            lemma_end_is_no_start(id);
            lemma_read_more(inner, end);
            assert(uris + written_node(node) =~= inner.push(end));
            let full = uris_read(inner);
            assert(full.root =~= node.children);
            assert(full.open.drop_last() =~= state.open);
            assert("spotify:folder:"@ + id =~= node.uri) by {
                let prefix = "spotify:folder:"@;
                assert(node.uri.subrange(0, prefix.len() as int) == prefix);
            }
            assert(folder_node(id, name, node.children) == node);
        },
        PlaylistFolderNodeType::Playlist => {
            lemma_read_more(uris, node.uri);
            assert(uris + written_node(node) =~= uris.push(node.uri));
            assert(node.children =~= seq![]);
            assert(playlist_node(node.uri) == node);
        },
    }
}

#[verifier::rlimit(30)]
proof fn lemma_nodes_read(uris: Seq<Seq<char>>, nodes: Seq<NodeView>)
    requires
        can_be_written(nodes),
    ensures
        uris_read(uris + written(nodes)) == (RootlistState {
            root: uris_read(uris).root + nodes,
            open: uris_read(uris).open,
        }),
    decreases nodes,
{
    let state = uris_read(uris);
    if nodes.len() == 0 {
        assert(uris + written(nodes) =~= uris);
        assert(state.root + nodes =~= state.root);
    } else {
        let last = nodes[nodes.len() - 1];
        let before = uris + written(nodes.drop_last());
        lemma_nodes_read(uris, nodes.drop_last());
        lemma_node_read(before, last);
        assert(uris + written(nodes) =~= before + written_node(last));
        assert((state.root + nodes.drop_last()).push(last) =~= state.root + nodes);
    }
}

/// Reading a rootlist gives back the tree that it writes down: every folder with its name, its id and
/// what is in it, every playlist in its folder, all in order.
pub proof fn lemma_rootlist_read_back(nodes: Seq<NodeView>)
    requires
        can_be_written(nodes),
    ensures
        rootlist_nodes(written(nodes)) == nodes,
{
    lemma_nodes_read(seq![], nodes);
    assert(Seq::<Seq<char>>::empty() + written(nodes) =~= written(nodes));
    assert(Seq::<NodeView>::empty() + nodes =~= nodes);
}

proof fn lemma_read_on(one: Seq<Seq<char>>, other: Seq<Seq<char>>, uris: Seq<Seq<char>>)
    requires
        uris_read(one) == uris_read(other),
    ensures
        uris_read(one + uris) == uris_read(other + uris),
    decreases uris.len(),
{
    if uris.len() == 0 {
        assert(one + uris =~= one);
        assert(other + uris =~= other);
    } else {
        lemma_read_on(one, other, uris.drop_last());
        assert((one + uris).drop_last() =~= one + uris.drop_last());
        assert((other + uris).drop_last() =~= other + uris.drop_last());
    }
}

/// A folder that is not closed ends with the list: whether its end is written or not makes no
/// difference. An end where no folder is open is passed over.
pub proof fn lemma_rootlist_ends(
    uris: Seq<Seq<char>>,
    nodes: Seq<NodeView>,
    id: Seq<char>,
)
    requires
        can_be_written(nodes),
    ensures
        rootlist_nodes(uris.push("spotify:end-group:"@ + id)) == rootlist_nodes(uris),
        rootlist_nodes(written(nodes).push("spotify:end-group:"@ + id) + uris) == rootlist_nodes(
            written(nodes) + uris,
        ),
{
    let end = "spotify:end-group:"@ + id;
    lemma_end_is_no_start(id);
    lemma_read_more(uris, end);
    lemma_nodes_read(seq![], nodes);
    assert(Seq::<Seq<char>>::empty() + written(nodes) =~= written(nodes));
    lemma_read_more(written(nodes), end);
    lemma_read_on(written(nodes).push(end), written(nodes), uris);
}

/// A folder that is opened without a name has an empty one.
pub proof fn lemma_folder_without_name(id: Seq<char>, nodes: Seq<NodeView>)
    requires
        lacks(id, ':'),
        can_be_written(nodes),
    ensures
        rootlist_nodes(seq!["spotify:start-group:"@ + id] + written(nodes)) == seq![
            NodeView {
                name: Some(seq![]),
                node_type: PlaylistFolderNodeType::Folder,
                uri: "spotify:folder:"@ + id,
                children: nodes,
            },
        ],
{
    let start = "spotify:start-group:"@ + id;
    reveal_strlit("spotify:start-group:");
    lemma_prefix_taken_off("spotify:start-group:"@, id);
    lemma_group_parts(id, seq![]);
    let none = Seq::<Seq<char>>::empty();
    lemma_read_more(none, start);
    assert(none.push(start) =~= seq![start]);
    let opened = uris_read(seq![start]);
    lemma_nodes_read(seq![start], nodes);
    assert(opened.root + nodes =~= nodes);
    let full = uris_read(seq![start] + written(nodes));
    assert(full.open.drop_last() =~= seq![]);
    let closed = folder_closed(full);
    assert(closed.open.len() == 0);
    assert(all_closed(full) == all_closed(closed));
    assert(all_closed(closed) == closed.root);
    assert(closed.root =~= seq![folder_node(id, seq![], nodes)]);
}

/// The place of a playlist by an id is that of the last one that has it; there is none only where no
/// playlist has it.
pub proof fn lemma_playlist_place(playlists: Seq<PlaylistView>, id: Seq<char>)
    ensures
        playlist_place(playlists, id) matches Some(place) ==> {
            &&& 0 <= place < playlists.len()
            &&& playlists[place].id == Some(id)
            &&& forall|i: int| place < i < playlists.len() ==> (#[trigger] playlists[i]).id != Some(id)
        },
        playlist_place(playlists, id) is None ==> forall|i: int|
            0 <= i < playlists.len() ==> (#[trigger] playlists[i]).id != Some(id),
    decreases playlists.len(),
{
    if playlists.len() > 0 && playlists.last().id != Some(id) {
        let before = playlists.drop_last();
        lemma_playlist_place(before, id);
        assert forall|i: int| 0 <= i < before.len() implies #[trigger] playlists[i]
            == before[i] by {}
    }
}

/// The URI of a playlist names the id behind its prefix.
pub proof fn lemma_id_in_uri(id: Seq<char>)
    ensures
        id_in_uri("spotify:playlist:"@ + id) == id,
        !has_prefix(id, "spotify:playlist:"@) ==> id_in_uri(id) == id,
{
    lemma_prefix_taken_off("spotify:playlist:"@, id);
}

/// A node of the tree names a playlist that is known.
pub open spec fn is_known(node: NodeView, playlists: Seq<PlaylistView>) -> bool {
    exists|i: int|
        0 <= i < playlists.len() && (#[trigger] playlists[i]).id == Some(id_in_uri(node.uri))
}

/// How many rows nodes have in the sidebar.
pub open spec fn rows_for_nodes(nodes: Seq<NodeView>, playlists: Seq<PlaylistView>) -> nat
    decreases nodes,
{
    if nodes.len() == 0 {
        0
    } else {
        rows_for_nodes(nodes.drop_last(), playlists) + rows_for_node(
            nodes[nodes.len() - 1],
            playlists,
        )
    }
}

/// How many rows a node has in the sidebar: a folder has one that leads in and one that leads out
/// besides those of what is in it, a playlist that is known has one.
pub open spec fn rows_for_node(node: NodeView, playlists: Seq<PlaylistView>) -> nat
    decreases node,
{
    match node.node_type {
        PlaylistFolderNodeType::Folder => 2 + rows_for_nodes(node.children, playlists),
        PlaylistFolderNodeType::Playlist => if is_known(node, playlists) {
            1
        } else {
            0
        },
    }
}

/// Rows are added behind those that are there, and do not depend on them.
#[verifier::rlimit(30)]
proof fn lemma_node_rows_behind(
    node: NodeView,
    current_id: int,
    playlists: Seq<PlaylistView>,
    so_far: Rows,
)
    ensures
        with_node(node, current_id, playlists, so_far).rows == so_far.rows + with_node(
            node,
            current_id,
            playlists,
            Rows { rows: seq![], next_id: so_far.next_id },
        ).rows,
        with_node(node, current_id, playlists, so_far).rows.len() == so_far.rows.len()
            + rows_for_node(node, playlists),
        with_node(node, current_id, playlists, so_far).next_id == so_far.next_id + folders_of_node(
            node,
        ),
    decreases node,
{
    let fresh = Rows { rows: seq![], next_id: so_far.next_id };
    match node.node_type {
        PlaylistFolderNodeType::Folder => {
            let name = folder_name(node.name);
            let into = row_into(name, current_id, so_far.next_id);
            let out = row_out(name, current_id, so_far.next_id);
            let next = so_far.next_id + 1;
            let entered = Rows { rows: so_far.rows.push(into).push(out), next_id: next };
            let fresh_entered = Rows { rows: fresh.rows.push(into).push(out), next_id: next };
            lemma_nodes_rows_behind(node.children, so_far.next_id, playlists, entered);
            lemma_nodes_rows_behind(node.children, so_far.next_id, playlists, fresh_entered);
            assert(with_node(node, current_id, playlists, so_far).rows =~= so_far.rows + with_node(
                node,
                current_id,
                playlists,
                fresh,
            ).rows);
        },
        PlaylistFolderNodeType::Playlist => {
            lemma_playlist_place(playlists, id_in_uri(node.uri));
            assert(with_node(node, current_id, playlists, so_far).rows =~= so_far.rows + with_node(
                node,
                current_id,
                playlists,
                fresh,
            ).rows);
        },
    }
}

#[verifier::rlimit(30)]
proof fn lemma_nodes_rows_behind(
    nodes: Seq<NodeView>,
    current_id: int,
    playlists: Seq<PlaylistView>,
    so_far: Rows,
)
    ensures
        with_nodes(nodes, current_id, playlists, so_far).rows == so_far.rows + with_nodes(
            nodes,
            current_id,
            playlists,
            Rows { rows: seq![], next_id: so_far.next_id },
        ).rows,
        with_nodes(nodes, current_id, playlists, so_far).rows.len() == so_far.rows.len()
            + rows_for_nodes(nodes, playlists),
        with_nodes(nodes, current_id, playlists, so_far).next_id == so_far.next_id + folder_count(
            nodes,
        ),
    decreases nodes,
{
    let fresh = Rows { rows: seq![], next_id: so_far.next_id };
    if nodes.len() == 0 {
        assert(so_far.rows + fresh.rows =~= so_far.rows);
    } else {
        let last = nodes[nodes.len() - 1];
        let before = with_nodes(nodes.drop_last(), current_id, playlists, so_far);
        let fresh_before = with_nodes(nodes.drop_last(), current_id, playlists, fresh);
        lemma_nodes_rows_behind(nodes.drop_last(), current_id, playlists, so_far);
        lemma_nodes_rows_behind(nodes.drop_last(), current_id, playlists, fresh);
        lemma_node_rows_behind(last, current_id, playlists, before);
        lemma_node_rows_behind(last, current_id, playlists, fresh_before);
        assert(with_nodes(nodes, current_id, playlists, so_far).rows =~= so_far.rows + with_nodes(
            nodes,
            current_id,
            playlists,
            fresh,
        ).rows);
    }
}

/// Each node is shown where it stands, in the folder whose nodes these are, wherever it stands among
/// them. A playlist that is known has one row in that folder. A folder has the next number, a row in
/// that folder that leads in and one in itself that leads back, and then the rows of what is in it.
#[verifier::rlimit(30)]
pub proof fn lemma_node_is_shown_in_its_folder(
    nodes: Seq<NodeView>,
    current_id: int,
    playlists: Seq<PlaylistView>,
    so_far: Rows,
    k: int,
)
    requires
        0 <= k < nodes.len(),
    ensures
        ({
            let rows = with_nodes(nodes, current_id, playlists, so_far).rows;
            let at = so_far.rows.len() + rows_for_nodes(nodes.take(k), playlists);
            let number = so_far.next_id + folder_count(nodes.take(k));
            &&& rows.len() == so_far.rows.len() + rows_for_nodes(nodes, playlists)
            &&& nodes[k].node_type is Playlist && is_known(nodes[k], playlists) ==> {
                &&& at < rows.len()
                &&& rows[at as int] matches FolderItemView::Playlist { index, current_id: folder }
                &&& folder == current_id as usize
                &&& playlist_place(playlists, id_in_uri(nodes[k].uri)) matches Some(place)
                &&& index == place as usize
            }
            &&& nodes[k].node_type is Folder ==> {
                let name = match nodes[k].name {
                    Some(name) => name,
                    None => "Unnamed Folder"@,
                };
                let inside = rows_for_nodes(nodes[k].children, playlists);
                &&& at + 2 + inside <= rows.len()
                &&& rows[at as int] == (FolderItemView::Folder {
                    name,
                    current_id: current_id as usize,
                    target_id: number as usize,
                })
                &&& rows[at as int + 1] == (FolderItemView::Folder {
                    name: "\u{2190} "@ + name,
                    current_id: number as usize,
                    target_id: current_id as usize,
                })
                &&& rows.subrange(at as int + 2, at as int + 2 + inside) == with_nodes(
                    nodes[k].children,
                    number,
                    playlists,
                    Rows { rows: seq![], next_id: number + 1 },
                ).rows
            }
        }),
    decreases nodes.len(),
{
    let all = with_nodes(nodes, current_id, playlists, so_far);
    let last = nodes[nodes.len() - 1];
    let front = nodes.drop_last();
    let before = with_nodes(front, current_id, playlists, so_far);
    lemma_nodes_rows_behind(nodes, current_id, playlists, so_far);
    lemma_nodes_rows_behind(front, current_id, playlists, so_far);
    lemma_node_rows_behind(last, current_id, playlists, before);
    if k < nodes.len() - 1 {
        lemma_node_is_shown_in_its_folder(front, current_id, playlists, so_far, k);
        assert(front.take(k) =~= nodes.take(k));
        assert(front[k] == nodes[k]);
        assert forall|i: int| 0 <= i < before.rows.len() implies #[trigger] all.rows[i]
            == before.rows[i] by {}
        if nodes[k].node_type is Folder {
            let at = so_far.rows.len() + rows_for_nodes(nodes.take(k), playlists);
            let inside = rows_for_nodes(nodes[k].children, playlists);
            assert(all.rows.subrange(at as int + 2, at as int + 2 + inside)
                =~= before.rows.subrange(at as int + 2, at as int + 2 + inside));
        }
    } else {
        assert(nodes.take(k) =~= front);
        match last.node_type {
            PlaylistFolderNodeType::Folder => {
                let name = folder_name(last.name);
                let into = row_into(name, current_id, before.next_id);
                let out = row_out(name, current_id, before.next_id);
                let entered = Rows {
                    rows: before.rows.push(into).push(out),
                    next_id: before.next_id + 1,
                };
                lemma_nodes_rows_behind(last.children, before.next_id, playlists, entered);
                let inner = with_nodes(
                    last.children,
                    before.next_id,
                    playlists,
                    Rows { rows: seq![], next_id: before.next_id + 1 },
                ).rows;
                lemma_nodes_rows_behind(
                    last.children,
                    before.next_id,
                    playlists,
                    Rows { rows: seq![], next_id: before.next_id + 1 },
                );
                let at = before.rows.len() as int;
                assert(all.rows == entered.rows + inner);
                assert(all.rows[at] == into);
                assert(all.rows[at + 1] == out);
                assert(all.rows.subrange(at + 2, at + 2 + inner.len()) =~= inner);
            },
            PlaylistFolderNodeType::Playlist => {
                lemma_playlist_place(playlists, id_in_uri(last.uri));
            },
        }
    }
}

/// The sidebar begins with the rows of the tree, numbered from the root, which is 0. Behind them
/// stand the playlists that the tree does not show, each once, at the root and in order.
#[verifier::rlimit(30)]
pub proof fn lemma_sidebar_rows(nodes: Seq<NodeView>, playlists: Seq<PlaylistView>)
    requires
        playlists.len() <= usize::MAX,
    ensures
        ({
            let rows = structured_rows(nodes, playlists);
            let shown = with_nodes(nodes, 0, playlists, Rows { rows: seq![], next_id: 1 }).rows;
            &&& shown.len() == rows_for_nodes(nodes, playlists)
            &&& shown.len() <= rows.len()
            &&& rows.take(shown.len() as int) == shown
            &&& forall|i: int|
                shown.len() <= i < rows.len() ==> {
                    &&& #[trigger] rows[i] matches FolderItemView::Playlist { index, current_id }
                    &&& current_id == 0
                    &&& index < playlists.len()
                    &&& !shows_playlist(shown, index as int)
                }
            &&& forall|i: int, j: int|
                shown.len() <= i < j < rows.len() ==> (#[trigger] rows[i])->Playlist_index < (
                #[trigger] rows[j])->Playlist_index
        }),
{
    let shown = with_nodes(nodes, 0, playlists, Rows { rows: seq![], next_id: 1 }).rows;
    lemma_nodes_rows_behind(nodes, 0, playlists, Rows { rows: seq![], next_id: 1 });
    lemma_unplaced_rows(shown, playlists.len());
    assert(structured_rows(nodes, playlists).take(shown.len() as int) =~= shown);
}

proof fn lemma_unplaced_rows(placed: Seq<FolderItemView>, count: nat)
    requires
        count <= usize::MAX,
    ensures
        ({
            let rows = with_unplaced(placed, placed, count);
            &&& placed.len() <= rows.len()
            &&& forall|i: int| 0 <= i < placed.len() ==> #[trigger] rows[i] == placed[i]
            &&& forall|i: int|
                placed.len() <= i < rows.len() ==> {
                    &&& #[trigger] rows[i] matches FolderItemView::Playlist { index, current_id }
                    &&& current_id == 0
                    &&& index < count
                    &&& !shows_playlist(placed, index as int)
                }
            &&& forall|i: int, j: int|
                placed.len() <= i < j < rows.len() ==> (#[trigger] rows[i])->Playlist_index < (
                #[trigger] rows[j])->Playlist_index
        }),
    decreases count,
{
    if count > 0 {
        lemma_unplaced_rows(placed, (count - 1) as nat);
    }
}

/// Without folders every playlist has one row, at the root and in its place.
pub proof fn lemma_flat_rows(count: nat, i: int)
    requires
        0 <= i < count <= usize::MAX,
    ensures
        flat_rows(count).len() == count,
        flat_rows(count)[i] == (FolderItemView::Playlist { index: i as usize, current_id: 0 }),
{
}

/// A known playlist that stands directly in a folder has the number of that folder, to which the row
/// into the folder leads, whatever stands before it in the folder or before the folder.
pub proof fn lemma_child_is_shown_in_its_folder(
    nodes: Seq<NodeView>,
    current_id: int,
    playlists: Seq<PlaylistView>,
    so_far: Rows,
    k: int,
    j: int,
)
    requires
        0 <= k < nodes.len(),
        nodes[k].node_type is Folder,
        0 <= j < nodes[k].children.len(),
        nodes[k].children[j].node_type is Playlist,
        is_known(nodes[k].children[j], playlists),
    ensures
        ({
            let rows = with_nodes(nodes, current_id, playlists, so_far).rows;
            let into = so_far.rows.len() + rows_for_nodes(nodes.take(k), playlists);
            let at = into + 2 + rows_for_nodes(nodes[k].children.take(j), playlists);
            &&& at < rows.len()
            &&& rows[into as int] is Folder
            &&& rows[at as int] is Playlist
            &&& rows[at as int]->Playlist_current_id == rows[into as int]->Folder_target_id
            &&& rows[into as int]->Folder_current_id == current_id as usize
        }),
{
    let rows = with_nodes(nodes, current_id, playlists, so_far).rows;
    let into = so_far.rows.len() + rows_for_nodes(nodes.take(k), playlists);
    let number = so_far.next_id + folder_count(nodes.take(k));
    let children = nodes[k].children;
    let inside = rows_for_nodes(children, playlists);
    let fresh = Rows { rows: seq![], next_id: number + 1 };
    lemma_node_is_shown_in_its_folder(nodes, current_id, playlists, so_far, k);
    lemma_node_is_shown_in_its_folder(children, number, playlists, fresh, j);
    let inner = with_nodes(children, number, playlists, fresh).rows;
    let below = rows_for_nodes(children.take(j), playlists) as int;
    assert(rows.subrange(into as int + 2, into as int + 2 + inside)[below] == inner[below]);
}

/// The end of a folder closes the innermost open one, whichever id it names.
pub proof fn lemma_any_end_closes(
    before: Seq<Seq<char>>,
    after: Seq<Seq<char>>,
    id: Seq<char>,
    other: Seq<char>,
)
    ensures
        rootlist_nodes(before.push("spotify:end-group:"@ + id) + after) == rootlist_nodes(
            before.push("spotify:end-group:"@ + other) + after,
        ),
{
    let one = "spotify:end-group:"@ + id;
    let two = "spotify:end-group:"@ + other;
    lemma_end_is_no_start(id);
    lemma_end_is_no_start(other);
    lemma_read_more(before, one);
    lemma_read_more(before, two);
    lemma_read_on(before.push(one), before.push(two), after);
}

} // verus!
