//! Ids of playlists, and of tracks that wait for something.

use vstd::prelude::*;

use crate::text::text_is;

verus! {

/// The character is an ASCII letter or digit.
pub open spec fn is_ascii_alphanumeric(c: char) -> bool {
    ('0' <= c <= '9') || ('A' <= c <= 'Z') || ('a' <= c <= 'z')
}

/// The text can be the id of a playlist: it has ASCII letters and digits only.
pub open spec fn is_playlist_id(text: Seq<char>) -> bool {
    forall|i: int| 0 <= i < text.len() ==> is_ascii_alphanumeric(#[trigger] text[i])
}

/// `PlaylistId::from_id` of `rspotify`, then `id` of what it made: the text itself, where every
/// character of it is an ASCII letter or digit; else the text of `IdError::InvalidId`, which is the
/// name of the variant.
#[verifier::external_body]
fn checked_playlist_id(text: &str) -> (id: Result<String, String>)
    ensures
        match id {
            Ok(id) => is_playlist_id(text@) && id@ == text@,
            Err(message) => !is_playlist_id(text@) && message@ == "InvalidId"@,
        },
{
    match rspotify::model::PlaylistId::from_id(text) {
        Ok(id) => Ok(rspotify::prelude::Id::id(&id).to_string()),
        Err(error) => Err(error.to_string()),
    }
}

/// The id of a playlist.
#[derive(Debug, PartialEq, Eq)]
pub struct PlaylistId {
    id: String,
}

impl View for PlaylistId {
    type V = Seq<char>;

    closed spec fn view(&self) -> Seq<char> {
        self.id@
    }
}

impl DeepView for PlaylistId {
    type V = Seq<char>;

    open spec fn deep_view(&self) -> Seq<char> {
        self@
    }
}

impl PlaylistId {
    #[verifier::type_invariant]
    spec fn well_formed(self) -> bool {
        is_playlist_id(self.id@)
    }

    /// The id that a text is, where it can be one.
    pub fn from_id(text: &str) -> (id: Result<PlaylistId, String>)
        ensures
            match id {
                Ok(id) => is_playlist_id(text@) && id@ == text@,
                Err(message) => !is_playlist_id(text@) && message@ == "InvalidId"@,
            },
    {
        match checked_playlist_id(text) {
            Ok(id) => Ok(PlaylistId { id }),
            Err(message) => Err(message),
        }
    }

    /// The text of the id.
    pub fn id(&self) -> (id: &str)
        ensures
            id@ == self@,
            is_playlist_id(id@),
    {
        proof {
            use_type_invariant(self);
        }
        self.id.as_str()
    }
}

impl Clone for PlaylistId {
    fn clone(&self) -> (copy: Self)
        ensures
            copy@ == self@,
    {
        proof {
            use_type_invariant(self);
        }
        PlaylistId { id: self.id.clone() }
    }
}

/// No text stands in the list twice.
pub open spec fn no_text_twice(ids: Seq<Seq<char>>) -> bool {
    forall|i: int, j: int| 0 <= i < j < ids.len() ==> #[trigger] ids[i] != #[trigger] ids[j]
}

/// Ids that wait, none of them twice, in the order in which they came.
pub struct PendingIds {
    ids: Vec<String>,
}

impl View for PendingIds {
    type V = Seq<Seq<char>>;

    closed spec fn view(&self) -> Seq<Seq<char>> {
        self.ids.deep_view()
    }
}

/// The ids with one more; the same, where it waits already.
pub open spec fn with_id(ids: Seq<Seq<char>>, id: Seq<char>) -> Seq<Seq<char>> {
    if ids.contains(id) {
        ids
    } else {
        ids.push(id)
    }
}

/// The ids with more of them, in order.
pub open spec fn with_ids(ids: Seq<Seq<char>>, more: Seq<Seq<char>>) -> Seq<Seq<char>>
    decreases more.len(),
{
    if more.len() == 0 {
        ids
    } else {
        with_id(with_ids(ids, more.drop_last()), more.last())
    }
}

/// The ids with more of them hold both, and nothing else.
pub proof fn lemma_with_ids(ids: Seq<Seq<char>>, more: Seq<Seq<char>>)
    ensures
        forall|id: Seq<char>|
            #[trigger] with_ids(ids, more).contains(id) <==> ids.contains(id) || more.contains(id),
        no_text_twice(ids) ==> no_text_twice(with_ids(ids, more)),
    decreases more.len(),
{
    if more.len() > 0 {
        let fewer = more.drop_last();
        let before = with_ids(ids, fewer);
        lemma_with_ids(ids, fewer);
        let after = with_id(before, more.last());
        assert forall|id: Seq<char>| #[trigger] after.contains(id) <==> ids.contains(id)
            || more.contains(id) by {
            if more.contains(id) {
                let k = choose|k: int| 0 <= k < more.len() && more[k] == id;
                if k < fewer.len() {
                    assert(fewer[k] == id);
                }
            }
            if fewer.contains(id) {
                let k = choose|k: int| 0 <= k < fewer.len() && fewer[k] == id;
                assert(more[k] == id);
            }
            assert(more[more.len() - 1] == more.last());
            if !before.contains(more.last()) {
                if before.contains(id) {
                    let k = choose|k: int| 0 <= k < before.len() && before[k] == id;
                    assert(after[k] == id);
                }
                assert(after[after.len() - 1] == more.last());
                if after.contains(id) {
                    let k = choose|k: int| 0 <= k < after.len() && after[k] == id;
                    if k < before.len() {
                        assert(before[k] == id);
                    }
                }
            }
        }
    }
}

impl PendingIds {
    #[verifier::type_invariant]
    spec fn well_formed(self) -> bool {
        no_text_twice(self.ids.deep_view())
    }

    /// No ids.
    pub fn new() -> (pending: Self)
        ensures
            pending@ == Seq::<Seq<char>>::empty(),
    {
        let ids: Vec<String> = Vec::new();
        assert(ids.deep_view() =~= seq![]);
        PendingIds { ids }
    }

    /// Whether no id waits.
    pub fn is_empty(&self) -> (empty: bool)
        ensures
            empty == (self@.len() == 0),
    {
        self.ids.len() == 0
    }

    /// Whether an id waits.
    pub fn contains(&self, id: &str) -> (found: bool)
        ensures
            found == self@.contains(id@),
    {
        let mut i: usize = 0;
        while i < self.ids.len()
            invariant
                i <= self.ids@.len(),
                forall|k: int| 0 <= k < i ==> #[trigger] self@[k] != id@,
            decreases self.ids@.len() - i,
        {
            if text_is(self.ids[i].as_str(), id) {
                assert(self@[i as int] == id@);
                return true;
            }
            i += 1;
        }
        false
    }

    /// Adds an id that does not wait yet.
    pub fn insert(&mut self, id: String)
        ensures
            final(self)@ == with_id(old(self)@, id@),
    {
        proof {
            use_type_invariant(&*self);
        }
        if !self.contains(id.as_str()) {
            let ghost before = self.ids.deep_view();
            let mut ids: Vec<String> = Vec::new();
            core::mem::swap(&mut self.ids, &mut ids);
            ids.push(id);
            assert(ids.deep_view() =~= before.push(id@));
            self.ids = ids;
        }
    }

    /// Takes the ids that came first, up to a number of them.
    pub fn take_first(&mut self, limit: usize) -> (batch: Vec<String>)
        ensures
            batch.deep_view() + final(self)@ == old(self)@,
            batch@.len() == (if old(self)@.len() < limit {
                old(self)@.len()
            } else {
                limit as nat
            }),
            no_text_twice(old(self)@),
    {
        proof {
            use_type_invariant(&*self);
        }
        let ghost before = self.ids.deep_view();
        let mut ids: Vec<String> = Vec::new();
        assert(ids.deep_view() =~= seq![]);
        core::mem::swap(&mut self.ids, &mut ids);
        let count: usize = if ids.len() < limit {
            ids.len()
        } else {
            limit
        };
        let rest = ids.split_off(count);
        assert(ids.deep_view() + rest.deep_view() =~= before);
        assert forall|i: int, j: int| 0 <= i < j < rest.deep_view().len() implies #[trigger] rest.deep_view()[i]
            != #[trigger] rest.deep_view()[j] by {
            assert(before[i + count] == rest.deep_view()[i]);
            assert(before[j + count] == rest.deep_view()[j]);
        }
        self.ids = rest;
        ids
    }
}

/// The ids that wait keep their order, and those that come wait behind them, in theirs.
pub proof fn lemma_ids_wait_in_order(ids: Seq<Seq<char>>, more: Seq<Seq<char>>)
    ensures
        ids.len() <= with_ids(ids, more).len() <= ids.len() + more.len(),
        with_ids(ids, more).take(ids.len() as int) == ids,
        no_text_twice(ids + more) ==> with_ids(ids, more) == ids + more,
    decreases more.len(),
{
    if more.len() == 0 {
        assert(ids.take(ids.len() as int) =~= ids);
        assert(ids + more =~= ids);
    } else {
        let fewer = more.drop_last();
        let before = with_ids(ids, fewer);
        lemma_ids_wait_in_order(ids, fewer);
        assert(with_ids(ids, more).take(ids.len() as int) =~= ids);
        if no_text_twice(ids + more) {
            let all = ids + more;
            let some = ids + fewer;
            assert forall|i: int, j: int| 0 <= i < j < some.len() implies #[trigger] some[i]
                != #[trigger] some[j] by {
                assert(some[i] == all[i] && some[j] == all[j]);
            }
            if before.contains(more.last()) {
                let i = choose|i: int| 0 <= i < before.len() && before[i] == more.last();
                assert(all[i] == some[i]);
                assert(all[all.len() - 1] == more.last());
            }
            assert(with_ids(ids, more) =~= all);
        }
    }
}

} // verus!
