//! The sidebar of playlists: which rows it shows, and which of them is selected.

use vstd::prelude::*;

use crate::app::{follows_community, App, AppView, Source, ViewState};
use crate::domain::{PlaylistInfo, PlaylistView};
use crate::folders::{FolderItemView, PlaylistFolderItem};
use crate::text::{optional_text_is, text_is};

verus! {

/// A row is shown in a folder.
pub open spec fn is_in_folder(row: FolderItemView, folder_id: usize) -> bool {
    match row {
        FolderItemView::Folder { current_id, .. } => current_id == folder_id,
        FolderItemView::Playlist { current_id, .. } => current_id == folder_id,
        FolderItemView::CommunityPin => false,
    }
}

/// The rows of a folder.
pub open spec fn in_folder(folder_id: usize) -> spec_fn(FolderItemView) -> bool {
    |row: FolderItemView| is_in_folder(row, folder_id)
}

/// The rows that lead to folders.
pub open spec fn is_folder_row() -> spec_fn(FolderItemView) -> bool {
    |row: FolderItemView| row is Folder
}

/// The rows that lead to no folder.
pub open spec fn is_other_row() -> spec_fn(FolderItemView) -> bool {
    |row: FolderItemView| !(row is Folder)
}

/// The community playlist is pinned above the other rows: at the root, for a user who does not
/// follow it and has not turned the pin off.
pub open spec fn shows_pin(app: AppView) -> bool {
    &&& app.active_source == Source::Spotify
    &&& app.user_config.behavior.pin_community_playlist
    &&& app.current_playlist_folder_id == 0
    &&& !follows_community(app)
}

/// The rows of the current folder, in the order in which they are shown.
pub open spec fn folder_rows(app: AppView) -> Seq<FolderItemView> {
    let rows = app.playlist_folder_items.filter(in_folder(app.current_playlist_folder_id));
    if app.user_config.behavior.group_folders_first {
        rows.filter(is_folder_row()) + rows.filter(is_other_row())
    } else {
        rows
    }
}

/// The rows of the sidebar.
pub open spec fn display_rows(app: AppView) -> Seq<FolderItemView> {
    if shows_pin(app) {
        seq![FolderItemView::CommunityPin] + folder_rows(app)
    } else {
        folder_rows(app)
    }
}

/// A row shows the playlist with an id.
pub open spec fn row_has_id(
    row: FolderItemView,
    playlists: Seq<PlaylistView>,
    id: Seq<char>,
) -> bool {
    row matches FolderItemView::Playlist { index, .. } && index < playlists.len()
        && playlists[index as int].id == Some(id)
}

/// The first row that shows the playlist with an id; the number of rows, where none does.
pub open spec fn row_with_id(
    rows: Seq<FolderItemView>,
    playlists: Seq<PlaylistView>,
    id: Seq<char>,
) -> int
    decreases rows.len(),
{
    if rows.len() == 0 || row_has_id(rows[0], playlists, id) {
        0
    } else {
        1 + row_with_id(rows.skip(1), playlists, id)
    }
}

/// The place among the shown rows of the playlist with an id.
pub open spec fn display_place(app: AppView, id: Seq<char>) -> Option<int> {
    let rows = display_rows(app);
    let place = row_with_id(rows, app.all_playlists, id);
    if place < rows.len() {
        Some(place)
    } else {
        None
    }
}

/// The folder in which the playlist with an id has its first row.
pub open spec fn folder_with_id(app: AppView, id: Seq<char>) -> Option<usize> {
    let place = row_with_id(app.playlist_folder_items, app.all_playlists, id);
    if place < app.playlist_folder_items.len() {
        Some(app.playlist_folder_items[place]->Playlist_current_id)
    } else {
        None
    }
}

/// The folder has a row.
pub open spec fn folder_has_rows(rows: Seq<FolderItemView>, folder_id: usize) -> bool {
    exists|i: int| 0 <= i < rows.len() && is_in_folder(#[trigger] rows[i], folder_id)
}

/// The state, with a row of the sidebar selected. Row 0 is the one that adds a playlist.
pub open spec fn row_selected(app: AppView, row: Option<usize>) -> AppView {
    AppView { view: ViewState { selected_playlist_index: row, ..app.view }, ..app }
}

/// The state, with a folder of the sidebar opened.
pub open spec fn folder_opened(app: AppView, folder_id: usize) -> AppView {
    AppView { current_playlist_folder_id: folder_id, ..app }
}

/// A row, or the last one where there are not so many.
pub open spec fn clamped_row(row: Option<usize>, count: nat) -> usize {
    let wanted = match row {
        Some(row) => row,
        None => 0,
    };
    if wanted < count {
        wanted
    } else {
        count as usize
    }
}

/// The state, with a row selected by its number: in the current folder, or at the root where that
/// folder shows nothing.
pub open spec fn row_number_selected(app: AppView, row: Option<usize>) -> AppView {
    if display_rows(app).len() == 0 {
        let root = folder_opened(app, 0);
        if display_rows(root).len() == 0 {
            row_selected(root, None)
        } else {
            row_selected(root, Some(clamped_row(row, display_rows(root).len())))
        }
    } else {
        row_selected(app, Some(clamped_row(row, display_rows(app).len())))
    }
}

/// The state, with the row of a playlist selected, where the current folder shows it.
pub open spec fn playlist_selected_here(app: AppView, id: Seq<char>) -> Option<AppView> {
    match display_place(app, id) {
        Some(place) => Some(row_selected(app, Some((place + 1) as usize))),
        None => None,
    }
}

/// The state, with the folder of a playlist opened; the same, where the playlist has no row.
pub open spec fn folder_of_playlist_opened(app: AppView, id: Seq<char>) -> AppView {
    match folder_with_id(app, id) {
        Some(folder) => folder_opened(app, folder),
        None => app,
    }
}

/// The state, with the preferred folder opened, or the root where that folder has no row.
pub open spec fn preferred_folder_opened(app: AppView, folder_id: usize) -> AppView {
    folder_opened(
        app,
        if folder_has_rows(app.playlist_folder_items, folder_id) {
            folder_id
        } else {
            0
        },
    )
}

/// The state, with the selection of the sidebar restored: the preferred playlist, in the preferred
/// folder or else where it is; without it the preferred row, as far as there is one.
pub open spec fn reconciled(
    app: AppView,
    playlist_id: Option<Seq<char>>,
    folder_id: usize,
    row: Option<usize>,
) -> AppView {
    if app.playlist_folder_items.len() == 0 {
        row_selected(folder_opened(app, 0), None)
    } else {
        let here = preferred_folder_opened(app, folder_id);
        match playlist_id {
            Some(id) => match playlist_selected_here(here, id) {
                Some(selected) => selected,
                None => {
                    let there = folder_of_playlist_opened(here, id);
                    match playlist_selected_here(there, id) {
                        Some(selected) => selected,
                        None => row_number_selected(there, row),
                    }
                },
            },
            None => row_number_selected(here, row),
        }
    }
}

proof fn lemma_row_with_id(
    rows: Seq<FolderItemView>,
    playlists: Seq<PlaylistView>,
    id: Seq<char>,
)
    ensures
        0 <= row_with_id(rows, playlists, id) <= rows.len(),
        row_with_id(rows, playlists, id) < rows.len() ==> row_has_id(
            rows[row_with_id(rows, playlists, id)],
            playlists,
            id,
        ),
        forall|i: int|
            0 <= i < row_with_id(rows, playlists, id) ==> !row_has_id(
                #[trigger] rows[i],
                playlists,
                id,
            ),
    decreases rows.len(),
{
    if rows.len() > 0 && !row_has_id(rows[0], playlists, id) {
        let rest = rows.skip(1);
        lemma_row_with_id(rest, playlists, id);
        assert forall|i: int| 0 <= i < row_with_id(rows, playlists, id) implies !row_has_id(
            #[trigger] rows[i],
            playlists,
            id,
        ) by {
            if i > 0 {
                assert(rows[i] == rest[i - 1]);
            }
        }
    }
}

/// Whether a row is shown in a folder.
fn row_is_in_folder(row: &PlaylistFolderItem, folder_id: usize) -> (shown: bool)
    ensures
        shown == is_in_folder(row.deep_view(), folder_id),
{
    match row {
        PlaylistFolderItem::Folder(folder) => folder.current_id == folder_id,
        PlaylistFolderItem::Playlist { current_id, .. } => *current_id == folder_id,
        PlaylistFolderItem::CommunityPin => false,
    }
}

/// The rows of a folder.
fn rows_in_folder(rows: &Vec<PlaylistFolderItem>, folder_id: usize) -> (shown: Vec<
    PlaylistFolderItem,
>)
    ensures
        shown.deep_view() == rows.deep_view().filter(in_folder(folder_id)),
{
    let ghost views = rows.deep_view();
    let mut shown: Vec<PlaylistFolderItem> = Vec::new();
    let mut i: usize = 0;
    assert(shown.deep_view() =~= views.take(0).filter(in_folder(folder_id))) by {
        reveal(Seq::filter);
    }
    while i < rows.len()
        invariant
            i <= rows@.len(),
            views == rows.deep_view(),
            shown.deep_view() == views.take(i as int).filter(in_folder(folder_id)),
        decreases rows@.len() - i,
    {
        assert(views.take(i + 1).drop_last() =~= views.take(i as int));
        assert(views.take(i + 1).last() == rows@[i as int].deep_view());
        let ghost before = shown.deep_view();
        proof {
            reveal(Seq::filter);
        }
        if row_is_in_folder(&rows[i], folder_id) {
            shown.push(rows[i].clone());
            assert(shown.deep_view() =~= before.push(rows@[i as int].deep_view()));
        }
        i += 1;
    }
    assert(views.take(i as int) =~= views);
    shown
}

/// The rows that lead to folders, or the others.
fn rows_by_kind(rows: &Vec<PlaylistFolderItem>, folders: bool) -> (chosen: Vec<PlaylistFolderItem>)
    ensures
        chosen.deep_view() == rows.deep_view().filter(
            if folders {
                is_folder_row()
            } else {
                is_other_row()
            },
        ),
{
    let ghost views = rows.deep_view();
    let ghost wanted = if folders {
        is_folder_row()
    } else {
        is_other_row()
    };
    let mut chosen: Vec<PlaylistFolderItem> = Vec::new();
    let mut i: usize = 0;
    assert(chosen.deep_view() =~= views.take(0).filter(wanted)) by {
        reveal(Seq::filter);
    }
    while i < rows.len()
        invariant
            i <= rows@.len(),
            views == rows.deep_view(),
            wanted == (if folders {
                is_folder_row()
            } else {
                is_other_row()
            }),
            chosen.deep_view() == views.take(i as int).filter(wanted),
        decreases rows@.len() - i,
    {
        assert(views.take(i + 1).drop_last() =~= views.take(i as int));
        assert(views.take(i + 1).last() == rows@[i as int].deep_view());
        let ghost before = chosen.deep_view();
        proof {
            reveal(Seq::filter);
        }
        let folder = match &rows[i] {
            PlaylistFolderItem::Folder(_) => true,
            _ => false,
        };
        if folder == folders {
            chosen.push(rows[i].clone());
            assert(chosen.deep_view() =~= before.push(rows@[i as int].deep_view()));
        }
        i += 1;
    }
    assert(views.take(i as int) =~= views);
    chosen
}

/// The first row that shows the playlist with an id.
fn find_row_with_id(
    rows: &Vec<PlaylistFolderItem>,
    playlists: &Vec<PlaylistInfo>,
    id: &str,
) -> (place: Option<usize>)
    ensures
        match place {
            Some(i) => i < rows@.len() && i == row_with_id(
                rows.deep_view(),
                playlists.deep_view(),
                id@,
            ),
            None => row_with_id(rows.deep_view(), playlists.deep_view(), id@) == rows@.len(),
        },
{
    let ghost views = rows.deep_view();
    let ghost known = playlists.deep_view();
    let mut i: usize = 0;
    assert(views.skip(0) =~= views);
    while i < rows.len()
        invariant
            i <= rows@.len(),
            views == rows.deep_view(),
            known == playlists.deep_view(),
            row_with_id(views, known, id@) == i + row_with_id(views.skip(i as int), known, id@),
        decreases rows@.len() - i,
    {
        assert(views.skip(i as int)[0] == rows@[i as int].deep_view());
        match &rows[i] {
            PlaylistFolderItem::Playlist { index, .. } => {
                if *index < playlists.len() {
                    assert(known[*index as int] == playlists@[*index as int].deep_view());
                    if optional_text_is(&playlists[*index].id, id) {
                        return Some(i);
                    }
                }
            },
            _ => {},
        }
        assert(views.skip(i as int).skip(1) =~= views.skip(i + 1));
        i += 1;
    }
    None
}

/// What is selected in the sidebar: the playlist, the folder and the row.
pub struct Selection {
    pub playlist_id: Option<String>,
    pub folder_id: usize,
    pub row: Option<usize>,
}

/// What a [`Selection`] stands for.
pub struct SelectionView {
    pub playlist_id: Option<Seq<char>>,
    pub folder_id: usize,
    pub row: Option<usize>,
}

impl View for Selection {
    type V = SelectionView;

    open spec fn view(&self) -> SelectionView {
        SelectionView {
            playlist_id: self.playlist_id.deep_view(),
            folder_id: self.folder_id,
            row: self.row,
        }
    }
}

/// The playlist in the selected row.
pub open spec fn selected_playlist(app: AppView) -> Option<Seq<char>> {
    match app.view.selected_playlist_index {
        Some(row) => if 1 <= row <= display_rows(app).len() {
            match display_rows(app)[row - 1] {
                FolderItemView::Playlist { index, .. } => if index < app.all_playlists.len() {
                    app.all_playlists[index as int].id
                } else {
                    None
                },
                _ => None,
            }
        } else {
            None
        },
        None => None,
    }
}

/// What is selected in the sidebar.
pub open spec fn selection(app: AppView) -> SelectionView {
    SelectionView {
        playlist_id: selected_playlist(app),
        folder_id: app.current_playlist_folder_id,
        row: app.view.selected_playlist_index,
    }
}

impl Selection {
    /// Whether two selections are the same.
    pub fn same_as(&self, other: &Selection) -> (same: bool)
        ensures
            same == (self@ == other@),
    {
        let ids = match (&self.playlist_id, &other.playlist_id) {
            (Some(a), Some(b)) => text_is(a.as_str(), b.as_str()),
            (None, None) => true,
            _ => false,
        };
        let rows = match (self.row, other.row) {
            (Some(a), Some(b)) => a == b,
            (None, None) => true,
            _ => false,
        };
        ids && rows && self.folder_id == other.folder_id
    }
}

impl App {
    /// The rows of the sidebar.
    pub fn get_playlist_display_items(&self) -> (rows: Vec<PlaylistFolderItem>)
        ensures
            rows.deep_view() == display_rows(self@),
    {
        let mut rows = rows_in_folder(
            &self.playlist_folder_items,
            self.current_playlist_folder_id,
        );
        if self.user_config.behavior.group_folders_first {
            let mut grouped = rows_by_kind(&rows, true);
            let mut others = rows_by_kind(&rows, false);
            let ghost first = grouped.deep_view();
            let ghost second = others.deep_view();
            grouped.append(&mut others);
            assert(grouped.deep_view() =~= first + second);
            rows = grouped;
        }
        if self.active_source == Source::Spotify && self.user_config.behavior.pin_community_playlist
            && self.current_playlist_folder_id == 0 && !self.follows_community_playlist() {
            let ghost before = rows.deep_view();
            rows.insert(0, PlaylistFolderItem::CommunityPin);
            assert(rows.deep_view() =~= seq![FolderItemView::CommunityPin] + before);
        }
        rows
    }

    /// How many rows the sidebar has.
    pub fn get_playlist_display_count(&self) -> (count: usize)
        ensures
            count == display_rows(self@).len(),
    {
        self.get_playlist_display_items().len()
    }

    /// A row of the sidebar.
    pub fn get_playlist_display_item_at(&self, place: usize) -> (row: Option<PlaylistFolderItem>)
        ensures
            row.deep_view() == (if place < display_rows(self@).len() {
                Some(display_rows(self@)[place as int])
            } else {
                None
            }),
    {
        let rows = self.get_playlist_display_items();
        if place < rows.len() {
            assert(rows.deep_view()[place as int] == rows@[place as int].deep_view());
            Some(rows[place].clone())
        } else {
            None
        }
    }

    /// The playlist in the selected row.
    pub fn get_selected_playlist_id(&self) -> (id: Option<String>)
        ensures
            id.deep_view() == selected_playlist(self@),
    {
        match self.view.selected_playlist_index {
            Some(row) => {
                let rows = self.get_playlist_display_items();
                if row < 1 || row > rows.len() {
                    return None;
                }
                assert(rows.deep_view()[row - 1] == rows@[row - 1].deep_view());
                match &rows[row - 1] {
                    PlaylistFolderItem::Playlist { index, .. } => {
                        if *index < self.all_playlists.len() {
                            assert(self@.all_playlists[*index as int]
                                == self.all_playlists@[*index as int].deep_view());
                            self.all_playlists[*index].id.clone()
                        } else {
                            None
                        }
                    },
                    _ => None,
                }
            },
            None => None,
        }
    }

    /// What is selected in the sidebar.
    pub fn playlist_selection(&self) -> (selected: Selection)
        ensures
            selected@ == selection(self@),
    {
        Selection {
            playlist_id: self.get_selected_playlist_id(),
            folder_id: self.current_playlist_folder_id,
            row: self.view.selected_playlist_index,
        }
    }

    /// The place among the shown rows of the playlist with an id.
    fn display_place_of(&self, id: &str) -> (place: Option<usize>)
        ensures
            match place {
                Some(place) => display_place(self@, id@) == Some(place as int) && place
                    < usize::MAX,
                None => display_place(self@, id@) is None,
            },
    {
        let rows = self.get_playlist_display_items();
        let count: usize = rows.len();
        assert(rows@.len() == count);
        find_row_with_id(&rows, &self.all_playlists, id)
    }

    /// Selects a row by its number.
    fn select_row_number(&mut self, row: Option<usize>)
        ensures
            final(self)@ == row_number_selected(old(self)@, row),
    {
        let wanted: usize = match row {
            Some(row) => row,
            None => 0,
        };
        let mut count = self.get_playlist_display_count();
        if count == 0 {
            self.current_playlist_folder_id = 0;
            assert(self@ == folder_opened(old(self)@, 0));
            count = self.get_playlist_display_count();
            if count == 0 {
                self.view.selected_playlist_index = None;
                return;
            }
        }
        self.view.selected_playlist_index = Some(
            if wanted < count {
                wanted
            } else {
                count
            },
        );
    }
}

/// Whether a folder has a row.
fn has_rows(rows: &Vec<PlaylistFolderItem>, folder_id: usize) -> (found: bool)
    ensures
        found == folder_has_rows(rows.deep_view(), folder_id),
{
    let mut i: usize = 0;
    while i < rows.len()
        invariant
            i <= rows@.len(),
            forall|k: int|
                0 <= k < i ==> !is_in_folder(#[trigger] rows.deep_view()[k], folder_id),
        decreases rows@.len() - i,
    {
        assert(rows.deep_view()[i as int] == rows@[i as int].deep_view());
        if row_is_in_folder(&rows[i], folder_id) {
            return true;
        }
        i += 1;
    }
    false
}

impl App {
    /// Selects the row of a playlist, where the current folder shows it.
    fn select_playlist_here(&mut self, id: &str) -> (found: bool)
        ensures
            match playlist_selected_here(old(self)@, id@) {
                Some(selected) => found && final(self)@ == selected,
                None => !found && final(self)@ == old(self)@,
            },
    {
        match self.display_place_of(id) {
            Some(place) => {
                self.view.selected_playlist_index = Some(place + 1);
                true
            },
            None => false,
        }
    }

    /// Opens the folder of a playlist.
    fn open_folder_of_playlist(&mut self, id: &str)
        ensures
            final(self)@ == folder_of_playlist_opened(old(self)@, id@),
    {
        proof {
            lemma_row_with_id(self@.playlist_folder_items, self@.all_playlists, id@);
        }
        if let Some(place) = find_row_with_id(
            &self.playlist_folder_items,
            &self.all_playlists,
            id,
        ) {
            assert(self@.playlist_folder_items[place as int]
                == self.playlist_folder_items@[place as int].deep_view());
            let folder: usize = match &self.playlist_folder_items[place] {
                PlaylistFolderItem::Playlist { current_id, .. } => *current_id,
                _ => 0,
            };
            self.current_playlist_folder_id = folder;
        }
    }
}

/// Restores the selection of the sidebar after its rows have changed.
pub fn reconcile_playlist_selection(
    app: &mut App,
    preferred_playlist_id: &Option<String>,
    preferred_folder_id: usize,
    preferred_selected_index: Option<usize>,
)
    ensures
        final(app)@ == reconciled(
            old(app)@,
            preferred_playlist_id.deep_view(),
            preferred_folder_id,
            preferred_selected_index,
        ),
{
    if app.playlist_folder_items.len() == 0 {
        app.current_playlist_folder_id = 0;
        app.view.selected_playlist_index = None;
        return;
    }
    app.current_playlist_folder_id =
    if has_rows(&app.playlist_folder_items, preferred_folder_id) {
        preferred_folder_id
    } else {
        0
    };
    assert(app@ == preferred_folder_opened(old(app)@, preferred_folder_id));
    if let Some(id) = preferred_playlist_id {
        if app.select_playlist_here(id.as_str()) {
            return;
        }
        app.open_folder_of_playlist(id.as_str());
        if app.select_playlist_here(id.as_str()) {
            return;
        }
    }
    app.select_row_number(preferred_selected_index);
}

/// A playlist has a row in the sidebar.
pub open spec fn has_row(app: AppView, id: Seq<char>) -> bool {
    exists|i: int|
        0 <= i < app.playlist_folder_items.len() && row_has_id(
            #[trigger] app.playlist_folder_items[i],
            app.all_playlists,
            id,
        )
}

proof fn lemma_row_is_displayed(app: AppView, id: Seq<char>)
    requires
        folder_with_id(app, id) == Some(app.current_playlist_folder_id),
    ensures
        display_place(app, id) is Some,
{
    let items = app.playlist_folder_items;
    lemma_row_with_id(items, app.all_playlists, id);
    let place = row_with_id(items, app.all_playlists, id);
    let row = items[place];
    let folder = app.current_playlist_folder_id;
    items.lemma_filter_contains(in_folder(folder), place);
    let rows = items.filter(in_folder(folder));
    let k = choose|k: int| 0 <= k < rows.len() && rows[k] == row;
    rows.lemma_filter_contains(is_other_row(), k);
    let first = rows.filter(is_folder_row());
    let second = rows.filter(is_other_row());
    let shown = folder_rows(app);
    assert(shown.contains(row)) by {
        if app.user_config.behavior.group_folders_first {
            let l = choose|l: int| 0 <= l < second.len() && second[l] == row;
            assert(shown[first.len() + l] == row);
        }
    }
    let at = choose|at: int| 0 <= at < shown.len() && shown[at] == row;
    let all = display_rows(app);
    let here = if shows_pin(app) {
        at + 1
    } else {
        at
    };
    assert(all[here] == row);
    lemma_row_with_id(all, app.all_playlists, id);
}

proof fn lemma_rows_split(rows: Seq<FolderItemView>)
    ensures
        rows.filter(is_folder_row()).len() + rows.filter(is_other_row()).len() == rows.len(),
    decreases rows.len(),
{
    reveal(Seq::filter);
    if rows.len() > 0 {
        lemma_rows_split(rows.drop_last());
    }
}

proof fn lemma_display_length(app: AppView)
    ensures
        display_rows(app).len() <= app.playlist_folder_items.len() + 1,
{
    let wanted = in_folder(app.current_playlist_folder_id);
    app.playlist_folder_items.lemma_filter_len(wanted);
    lemma_rows_split(app.playlist_folder_items.filter(wanted));
}

/// A playlist that has a row stays selected: whatever folder was open and whichever row it had, the
/// row that is selected afterwards shows it.
pub proof fn lemma_playlist_stays_selected(
    app: AppView,
    id: Seq<char>,
    folder_id: usize,
    row: Option<usize>,
)
    requires
        has_row(app, id),
        app.playlist_folder_items.len() + 1 < usize::MAX,
    ensures
        selected_playlist(reconciled(app, Some(id), folder_id, row)) == Some(id),
{
    let here = preferred_folder_opened(app, folder_id);
    let items = app.playlist_folder_items;
    lemma_row_with_id(items, app.all_playlists, id);
    let there = folder_of_playlist_opened(here, id);
    lemma_display_length(here);
    lemma_display_length(there);
    match playlist_selected_here(here, id) {
        Some(selected) => {
            lemma_row_with_id(display_rows(here), app.all_playlists, id);
            assert(display_rows(selected) == display_rows(here));
        },
        None => {
            lemma_row_is_displayed(there, id);
            lemma_row_with_id(display_rows(there), app.all_playlists, id);
            let selected = playlist_selected_here(there, id)->0;
            assert(display_rows(selected) == display_rows(there));
        },
    }
}

/// The selected row is one that the sidebar has: the one that adds a playlist, or one below it.
pub proof fn lemma_selected_row_exists(
    app: AppView,
    playlist_id: Option<Seq<char>>,
    folder_id: usize,
    row: Option<usize>,
)
    requires
        app.playlist_folder_items.len() + 1 < usize::MAX,
    ensures
        ({
            let after = reconciled(app, playlist_id, folder_id, row);
            after.view.selected_playlist_index matches Some(selected) ==> selected <= display_rows(
                after,
            ).len()
        }),
{
    let after = reconciled(app, playlist_id, folder_id, row);
    if app.playlist_folder_items.len() > 0 {
        let here = preferred_folder_opened(app, folder_id);
        lemma_display_length(here);
        match playlist_id {
            Some(id) => {
                let there = folder_of_playlist_opened(here, id);
                lemma_display_length(there);
                lemma_row_with_id(display_rows(here), app.all_playlists, id);
                lemma_row_with_id(display_rows(there), app.all_playlists, id);
                if playlist_selected_here(here, id) is Some {
                    assert(display_rows(after) == display_rows(here));
                } else if playlist_selected_here(there, id) is Some {
                    assert(display_rows(after) == display_rows(there));
                } else {
                    lemma_row_number_exists(there, row);
                }
            },
            None => {
                lemma_row_number_exists(here, row);
            },
        }
    }
}

proof fn lemma_row_number_exists(app: AppView, row: Option<usize>)
    requires
        app.playlist_folder_items.len() + 1 < usize::MAX,
    ensures
        ({
            let after = row_number_selected(app, row);
            after.view.selected_playlist_index matches Some(selected) ==> selected <= display_rows(
                after,
            ).len()
        }),
{
    let after = row_number_selected(app, row);
    let root = folder_opened(app, 0);
    lemma_display_length(app);
    lemma_display_length(root);
    if display_rows(app).len() == 0 {
        assert(display_rows(after) == display_rows(root));
    } else {
        assert(display_rows(after) == display_rows(app));
    }
}

/// The community playlist is pinned in the first row for a user of Spotify who wants it, sees the root
/// and does not follow it; for any other it is not shown.
pub proof fn lemma_pin_is_first(app: AppView)
    ensures
        ({
            let follows = exists|i: int|
                0 <= i < app.all_playlists.len() && (#[trigger] app.all_playlists[i]).id == Some(
                    app.community_playlist_id,
                );
            let pinned = app.active_source == Source::Spotify
                && app.user_config.behavior.pin_community_playlist
                && app.current_playlist_folder_id == 0 && !follows;
            let rows = display_rows(app);
            &&& pinned ==> rows.len() > 0 && rows[0] is CommunityPin && rows.skip(1) == folder_rows(
                app,
            )
            &&& !pinned ==> rows == folder_rows(app)
        }),
{
    if shows_pin(app) {
        assert(display_rows(app).skip(1) =~= folder_rows(app));
    }
}

/// The current folder shows the rows that stand in it, all of them and no others.
pub proof fn lemma_folder_shows_its_rows(app: AppView, row: FolderItemView)
    ensures
        folder_rows(app).contains(row) <==> app.playlist_folder_items.contains(row) && (match row {
            FolderItemView::Folder { current_id, .. } => current_id
                == app.current_playlist_folder_id,
            FolderItemView::Playlist { current_id, .. } => current_id
                == app.current_playlist_folder_id,
            FolderItemView::CommunityPin => false,
        }),
{
    let all = app.playlist_folder_items;
    let inside = in_folder(app.current_playlist_folder_id);
    let rows = all.filter(inside);
    let folders = rows.filter(is_folder_row());
    let others = rows.filter(is_other_row());
    if all.contains(row) && inside(row) {
        let i = choose|i: int| 0 <= i < all.len() && all[i] == row;
        all.lemma_filter_contains(inside, i);
        let k = choose|k: int| 0 <= k < rows.len() && rows[k] == row;
        if row is Folder {
            rows.lemma_filter_contains(is_folder_row(), k);
            let n = choose|n: int| 0 <= n < folders.len() && folders[n] == row;
            assert((folders + others)[n] == row);
        } else {
            rows.lemma_filter_contains(is_other_row(), k);
            let n = choose|n: int| 0 <= n < others.len() && others[n] == row;
            assert((folders + others)[folders.len() + n] == row);
        }
    }
    if folder_rows(app).contains(row) {
        let n = choose|n: int| 0 <= n < folder_rows(app).len() && folder_rows(app)[n] == row;
        if app.user_config.behavior.group_folders_first {
            if n < folders.len() {
                assert(folders[n] == row);
                rows.lemma_filter_contains_rev(is_folder_row(), row);
            } else {
                assert(others[n - folders.len()] == row);
                rows.lemma_filter_contains_rev(is_other_row(), row);
            }
        }
        assert(rows.contains(row));
        all.lemma_filter_contains_rev(inside, row);
    }
}

proof fn lemma_rows_of_halves(
    left: Seq<FolderItemView>,
    right: Seq<FolderItemView>,
    kept: spec_fn(FolderItemView) -> bool,
)
    ensures
        (left + right).filter(kept) == left.filter(kept) + right.filter(kept),
    decreases right.len(),
{
    reveal(Seq::filter);
    if right.len() == 0 {
        assert(left + right =~= left);
        assert(left.filter(kept) + right.filter(kept) =~= left.filter(kept));
    } else {
        lemma_rows_of_halves(left, right.drop_last(), kept);
        assert((left + right).drop_last() =~= left + right.drop_last());
        assert((left + right).filter(kept) =~= left.filter(kept) + right.filter(kept));
    }
}

/// The rows of a folder stand in the order in which they come. Where folders are to come first, no row
/// that leads to a folder stands behind another one.
pub proof fn lemma_rows_keep_their_order(
    app: AppView,
    left: Seq<FolderItemView>,
    right: Seq<FolderItemView>,
    i: int,
    j: int,
)
    requires
        app.playlist_folder_items == left + right,
    ensures
        !app.user_config.behavior.group_folders_first ==> folder_rows(app) == folder_rows(
            AppView { playlist_folder_items: left, ..app },
        ) + folder_rows(AppView { playlist_folder_items: right, ..app }),
        app.user_config.behavior.group_folders_first && 0 <= i < j < folder_rows(app).len() ==> (
        folder_rows(app)[j] is Folder ==> folder_rows(app)[i] is Folder),
{
    let inside = in_folder(app.current_playlist_folder_id);
    lemma_rows_of_halves(left, right, inside);
    let rows = app.playlist_folder_items.filter(inside);
    let folders = rows.filter(is_folder_row());
    let others = rows.filter(is_other_row());
    if app.user_config.behavior.group_folders_first && 0 <= i < j < folder_rows(app).len() {
        if i < folders.len() {
            assert(folder_rows(app)[i] == folders[i]);
            rows.lemma_filter_contains_rev(is_folder_row(), folders[i]);
        } else {
            assert(folder_rows(app)[j] == others[j - folders.len()]);
            rows.lemma_filter_contains_rev(is_other_row(), others[j - folders.len()]);
        }
    }
}

/// The playlist that is selected is the one that the selected row shows. The first row is the one that
/// adds a playlist; it shows none, and neither does a row that leads to a folder.
pub proof fn lemma_selected_row_shows_playlist(app: AppView, row: usize, place: usize)
    requires
        1 <= row <= display_rows(app).len(),
        place < app.all_playlists.len(),
    ensures
        ({
            let selected = row_selected(app, Some(row));
            &&& display_rows(app)[row - 1] is Playlist && display_rows(app)[row - 1]->Playlist_index
                == place ==> selected_playlist(selected) == app.all_playlists[place as int].id
            &&& !(display_rows(app)[row - 1] is Playlist) ==> selected_playlist(selected) is None
            &&& selected_playlist(row_selected(app, Some(0))) is None
            &&& selected_playlist(row_selected(app, None)) is None
        }),
{
    let selected = row_selected(app, Some(row));
    assert(folder_rows(selected) == folder_rows(app));
    assert(shows_pin(selected) == shows_pin(app));
    assert(display_rows(selected) == display_rows(app));
}

/// Restoring the selection changes the folder that is open and the row that is selected, and nothing
/// else. Without any row the root is open and nothing is selected.
#[verifier::rlimit(30)]
pub proof fn lemma_only_selection_changes(
    app: AppView,
    playlist_id: Option<Seq<char>>,
    folder_id: usize,
    row: Option<usize>,
)
    ensures
        ({
            let after = reconciled(app, playlist_id, folder_id, row);
            &&& after.view == (ViewState {
                selected_playlist_index: after.view.selected_playlist_index,
                ..app.view
            })
            &&& after == (AppView {
                current_playlist_folder_id: after.current_playlist_folder_id,
                view: after.view,
                ..app
            })
            &&& app.playlist_folder_items.len() == 0 ==> after.current_playlist_folder_id == 0
                && after.view.selected_playlist_index is None
        }),
{
}

/// Where no playlist is preferred, the preferred folder is open, as far as it has rows, or else the
/// root; and the preferred row is selected, or the last one where there are not so many.
#[verifier::rlimit(30)]
pub proof fn lemma_preferred_row_is_selected(app: AppView, folder_id: usize, row: usize)
    requires
        app.playlist_folder_items.len() + 1 < usize::MAX,
        exists|i: int|
            0 <= i < app.playlist_folder_items.len() && is_in_folder(
                #[trigger] app.playlist_folder_items[i],
                folder_id,
            ),
    ensures
        ({
            let after = reconciled(app, None, folder_id, Some(row));
            let count = display_rows(after).len();
            &&& after.current_playlist_folder_id == folder_id
            &&& row <= count ==> after.view.selected_playlist_index == Some(row)
            &&& row > count ==> after.view.selected_playlist_index == Some(count as usize)
        }),
{
    let i = choose|i: int|
        0 <= i < app.playlist_folder_items.len() && is_in_folder(
            #[trigger] app.playlist_folder_items[i],
            folder_id,
        );
    let here = folder_opened(app, folder_id);
    let found = app.playlist_folder_items[i];
    assert(folder_has_rows(app.playlist_folder_items, folder_id));
    assert(preferred_folder_opened(app, folder_id) == here);
    assert(app.playlist_folder_items.contains(found));
    lemma_folder_shows_its_rows(here, found);
    assert(folder_rows(here).contains(found));
    assert(display_rows(here).len() > 0);
    lemma_display_length(here);
    let after = reconciled(app, None, folder_id, Some(row));
    assert(folder_rows(after) == folder_rows(here));
    assert(shows_pin(after) == shows_pin(here));
    assert(display_rows(after) == display_rows(here));
}

/// A folder without rows is not opened: the selection goes to the root instead, to the preferred row
/// or the last one where there are not so many. Where the root shows nothing, nothing is selected.
#[verifier::rlimit(30)]
pub proof fn lemma_empty_folder_is_left(app: AppView, folder_id: usize, row: usize)
    requires
        0 < app.playlist_folder_items.len(),
        app.playlist_folder_items.len() + 1 < usize::MAX,
        forall|i: int|
            0 <= i < app.playlist_folder_items.len() ==> !is_in_folder(
                #[trigger] app.playlist_folder_items[i],
                folder_id,
            ),
    ensures
        ({
            let after = reconciled(app, None, folder_id, Some(row));
            let count = display_rows(after).len();
            &&& after.current_playlist_folder_id == 0
            &&& count == 0 ==> after.view.selected_playlist_index is None
            &&& 0 < count && row <= count ==> after.view.selected_playlist_index == Some(row)
            &&& 0 < count < row ==> after.view.selected_playlist_index == Some(count as usize)
        }),
{
    let root = folder_opened(app, 0);
    assert(preferred_folder_opened(app, folder_id) == root);
    assert(folder_opened(root, 0) == root);
    lemma_display_length(root);
    let after = reconciled(app, None, folder_id, Some(row));
    assert(folder_rows(after) == folder_rows(root));
    assert(shows_pin(after) == shows_pin(root));
    assert(display_rows(after) == display_rows(root));
}

/// A playlist that the preferred folder shows is selected there, wherever else it stands.
#[verifier::rlimit(30)]
pub proof fn lemma_preferred_folder_stays_open(
    app: AppView,
    id: Seq<char>,
    folder_id: usize,
    row: Option<usize>,
    shown: FolderItemView,
)
    requires
        app.playlist_folder_items.contains(shown),
        is_in_folder(shown, folder_id),
        row_has_id(shown, app.all_playlists, id),
    ensures
        reconciled(app, Some(id), folder_id, row).current_playlist_folder_id == folder_id,
{
    let i = choose|i: int|
        0 <= i < app.playlist_folder_items.len() && app.playlist_folder_items[i] == shown;
    assert(is_in_folder(app.playlist_folder_items[i], folder_id));
    let here = folder_opened(app, folder_id);
    assert(folder_has_rows(app.playlist_folder_items, folder_id));
    lemma_folder_shows_its_rows(here, shown);
    let k = choose|k: int| 0 <= k < folder_rows(here).len() && folder_rows(here)[k] == shown;
    let rows = display_rows(here);
    if shows_pin(here) {
        assert(rows[k + 1] == shown);
    } else {
        assert(rows[k] == shown);
    }
    lemma_row_with_id(rows, app.all_playlists, id);
    assert(display_place(here, id) is Some);
}

/// A row is in the folder that its number says, and shows the playlist at its place in the list.
pub proof fn lemma_rows_say_where_they_are(
    name: Seq<char>,
    index: usize,
    current_id: usize,
    target_id: usize,
    playlists: Seq<PlaylistView>,
    id: Seq<char>,
    folder_id: usize,
)
    ensures
        is_in_folder(FolderItemView::Playlist { index, current_id }, folder_id) <==> current_id
            == folder_id,
        is_in_folder(FolderItemView::Folder { name, current_id, target_id }, folder_id)
            <==> current_id == folder_id,
        !is_in_folder(FolderItemView::CommunityPin, folder_id),
        row_has_id(FolderItemView::Playlist { index, current_id }, playlists, id) <==> index
            < playlists.len() && playlists[index as int].id == Some(id),
        !row_has_id(FolderItemView::Folder { name, current_id, target_id }, playlists, id),
        !row_has_id(FolderItemView::CommunityPin, playlists, id),
{
}

/// A playlist that has no row anywhere is not missed: the selection is restored as if none had been
/// preferred. Where no row is preferred either, the first one is selected.
#[verifier::rlimit(30)]
pub proof fn lemma_lost_playlist_is_not_missed(
    app: AppView,
    id: Seq<char>,
    folder_id: usize,
    row: Option<usize>,
)
    requires
        !has_row(app, id),
        app.playlist_folder_items.len() > 0,
    ensures
        reconciled(app, Some(id), folder_id, row) == reconciled(app, None, folder_id, row),
        reconciled(app, None, folder_id, None) == reconciled(app, None, folder_id, Some(0)),
{
    let here = preferred_folder_opened(app, folder_id);
    let rows = display_rows(here);
    lemma_row_with_id(rows, app.all_playlists, id);
    let place = row_with_id(rows, app.all_playlists, id);
    if place < rows.len() {
        let shown = rows[place];
        if shows_pin(here) {
            assert(folder_rows(here)[place - 1] == shown);
        }
        assert(folder_rows(here).contains(shown));
        lemma_folder_shows_its_rows(here, shown);
        let i = choose|i: int|
            0 <= i < app.playlist_folder_items.len() && app.playlist_folder_items[i] == shown;
        assert(row_has_id(app.playlist_folder_items[i], app.all_playlists, id));
    }
    lemma_row_with_id(app.playlist_folder_items, app.all_playlists, id);
    let first = row_with_id(app.playlist_folder_items, app.all_playlists, id);
    if first < app.playlist_folder_items.len() {
        assert(row_has_id(app.playlist_folder_items[first], app.all_playlists, id));
    }
    assert(folder_of_playlist_opened(here, id) == here);
}

} // verus!
