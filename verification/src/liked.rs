//! Which tracks are liked: the batches in which the service is asked, the ids that wait to be asked
//! for, and the changes that the user makes meanwhile.

use vstd::prelude::*;

use crate::app::{bump_count, bumped, with_error, with_status, App, AppView};
use crate::errors::{error_text, RequestError};
use crate::ids::{lemma_with_ids, with_ids};
use crate::json::{
    array_json, entry_views, item_views, object_json, text_json, Json, JsonView,
};
use crate::requests::{query_view, Method};
use crate::saved::{apply_saved_flags, lemma_flags_hold, with_flags};
use crate::text::{join_texts, joined, texts};

verus! {

/// How many URIs the service takes in one request.
pub const LIBRARY_CONTAINS_MAX_URIS: usize = 40;

/// After how many failures in a row the lookup of liked tracks stops.
pub const MAX_CONSECUTIVE_FAILURES: u32 = 3;

/// How a like is changed: one that is set is deleted, another one is put.
pub fn toggle_method(was_liked: bool) -> (method: Method)
    ensures
        method == (if was_liked {
            Method::Delete
        } else {
            Method::Put
        }),
{
    if was_liked {
        Method::Delete
    } else {
        Method::Put
    }
}

/// How many batches a number of URIs takes.
pub open spec fn batch_count(count: nat) -> nat {
    (count + LIBRARY_CONTAINS_MAX_URIS - 1) as nat / LIBRARY_CONTAINS_MAX_URIS as nat
}

/// Where a batch ends.
pub open spec fn batch_end(batch: int, count: nat) -> int {
    if (batch + 1) * LIBRARY_CONTAINS_MAX_URIS < count {
        (batch + 1) * LIBRARY_CONTAINS_MAX_URIS
    } else {
        count as int
    }
}

/// A list, cut into batches: each is full but for the last.
pub open spec fn batches_of(uris: Seq<Seq<char>>) -> Seq<Seq<Seq<char>>> {
    Seq::new(
        batch_count(uris.len()),
        |i: int| uris.subrange(i * LIBRARY_CONTAINS_MAX_URIS, batch_end(i, uris.len())),
    )
}

/// What batches stand for.
pub open spec fn batch_views(batches: Seq<Vec<String>>) -> Seq<Seq<Seq<char>>> {
    Seq::new(batches.len(), |i: int| batches[i].deep_view())
}

/// A stretch of a list, once more.
fn copy_stretch(uris: &Vec<String>, from: usize, to: usize) -> (copy: Vec<String>)
    requires
        from <= to <= uris@.len(),
    ensures
        copy.deep_view() == uris.deep_view().subrange(from as int, to as int),
{
    let ghost wanted = uris.deep_view().subrange(from as int, to as int);
    let mut copy: Vec<String> = Vec::new();
    let mut i: usize = from;
    assert(copy.deep_view() =~= wanted.take(0));
    while i < to
        invariant
            from <= i <= to <= uris@.len(),
            wanted == uris.deep_view().subrange(from as int, to as int),
            copy.deep_view() == wanted.take(i - from),
        decreases to - i,
    {
        let ghost before = copy.deep_view();
        copy.push(uris[i].clone());
        assert(copy.deep_view() =~= before.push(wanted[i - from]));
        assert(copy.deep_view() =~= wanted.take(i + 1 - from));
        i += 1;
    }
    assert(copy.deep_view() =~= wanted);
    copy
}

/// Cuts a list into batches that the service takes.
pub fn uri_batches(uris: &Vec<String>) -> (batches: Vec<Vec<String>>)
    ensures
        batch_views(batches@) == batches_of(uris.deep_view()),
{
    let ghost all = uris.deep_view();
    let count: usize = uris.len();
    let mut batches: Vec<Vec<String>> = Vec::new();
    let mut from: usize = 0;
    assert(batch_views(batches@) =~= batches_of(all).take(0));
    while from < count
        invariant
            count == uris@.len(),
            all == uris.deep_view(),
            from <= count,
            batches@.len() <= batch_count(all.len()),
            batch_views(batches@) == batches_of(all).take(batches@.len() as int),
            from < count ==> from == batches@.len() * LIBRARY_CONTAINS_MAX_URIS,
            from == count ==> batches@.len() == batch_count(all.len()),
        decreases count - from,
    {
        let to: usize = if count - from <= LIBRARY_CONTAINS_MAX_URIS {
            count
        } else {
            from + LIBRARY_CONTAINS_MAX_URIS
        };
        let ghost done = batches@.len() as int;
        let ghost before = batch_views(batches@);
        assert(to == batch_end(done, all.len()));
        batches.push(copy_stretch(uris, from, to));
        assert(batch_views(batches@) =~= before.push(batches_of(all)[done]));
        assert(batch_views(batches@) =~= batches_of(all).take(done + 1));
        from = to;
    }
    assert(batch_views(batches@) =~= batches_of(all));
    batches
}

/// Batches, one behind the other.
pub open spec fn concatenated(batches: Seq<Seq<Seq<char>>>) -> Seq<Seq<char>>
    decreases batches.len(),
{
    if batches.len() == 0 {
        seq![]
    } else {
        concatenated(batches.drop_last()) + batches.last()
    }
}

proof fn lemma_first_batches(uris: Seq<Seq<char>>, count: nat)
    requires
        count <= batch_count(uris.len()),
    ensures
        concatenated(batches_of(uris).take(count as int)) == uris.take(
            if count == 0 {
                0
            } else {
                batch_end(count - 1, uris.len())
            },
        ),
    decreases count,
{
    let batches = batches_of(uris);
    if count == 0 {
        assert(batches.take(0) =~= seq![]);
        assert(uris.take(0) =~= seq![]);
    } else {
        lemma_first_batches(uris, (count - 1) as nat);
        assert(batches.take(count as int).drop_last() =~= batches.take(count - 1));
        let end = batch_end(count - 1, uris.len());
        assert(uris.take((count - 1) * LIBRARY_CONTAINS_MAX_URIS) + batches[count - 1]
            =~= uris.take(end));
    }
}

/// The batches hold every URI once, in order; none is empty, and the service takes each.
pub proof fn lemma_batches_cover(uris: Seq<Seq<char>>)
    ensures
        concatenated(batches_of(uris)) == uris,
        forall|i: int|
            0 <= i < batches_of(uris).len() ==> 0 < (#[trigger] batches_of(uris)[i]).len()
                <= LIBRARY_CONTAINS_MAX_URIS,
{
    lemma_first_batches(uris, batch_count(uris.len()));
    assert(batches_of(uris).take(batches_of(uris).len() as int) =~= batches_of(uris));
    assert(uris.take(uris.len() as int) =~= uris);
}

/// The query that names a batch of URIs.
pub fn batch_query(batch: &Vec<String>) -> (query: Vec<(String, String)>)
    ensures
        query_view(query@) == seq![("uris"@, joined(batch.deep_view(), ","@))],
{
    let mut query: Vec<(String, String)> = Vec::new();
    query.push(("uris".to_owned(), join_texts(batch.as_slice(), ",")));
    assert(texts(batch@) =~= batch.deep_view());
    assert(query_view(query@) =~= seq![("uris"@, joined(batch.deep_view(), ","@))]);
    query
}

/// Texts as JSON values.
pub open spec fn text_values(parts: Seq<Seq<char>>) -> Seq<JsonView> {
    Seq::new(parts.len(), |i: int| JsonView::Text(parts[i]))
}

/// The body that names a batch of URIs.
pub fn batch_body(batch: &Vec<String>) -> (body: Json)
    ensures
        body.deep_view() == JsonView::Object(
            seq![("uris"@, JsonView::Array(text_values(batch.deep_view())))],
        ),
{
    let mut values: Vec<Json> = Vec::new();
    let mut i: usize = 0;
    while i < batch.len()
        invariant
            i <= batch@.len(),
            item_views(values@) == text_values(batch.deep_view()).take(i as int),
        decreases batch@.len() - i,
    {
        let ghost before = item_views(values@);
        values.push(text_json(batch[i].as_str()));
        assert(item_views(values@) =~= before.push(text_values(batch.deep_view())[i as int]));
        i += 1;
    }
    assert(item_views(values@) =~= text_values(batch.deep_view()));
    let mut entries: Vec<(String, Json)> = Vec::new();
    let list = array_json(values);
    entries.push(("uris".to_owned(), list));
    assert(entry_views(entries@) =~= seq![("uris"@, list.deep_view())]);
    object_json(entries)
}

/// The queries with which the service is asked for URIs, one for each batch.
pub fn contains_queries(uris: &Vec<String>) -> (queries: Vec<Vec<(String, String)>>)
    ensures
        queries@.len() == batches_of(uris.deep_view()).len(),
        forall|i: int|
            0 <= i < queries@.len() ==> query_view((#[trigger] queries@[i])@) == seq![
                ("uris"@, joined(batches_of(uris.deep_view())[i], ","@)),
            ],
{
    let batches = uri_batches(uris);
    let mut queries: Vec<Vec<(String, String)>> = Vec::new();
    let mut i: usize = 0;
    while i < batches.len()
        invariant
            i <= batches@.len(),
            batch_views(batches@) == batches_of(uris.deep_view()),
            queries@.len() == i,
            forall|k: int|
                0 <= k < i ==> query_view((#[trigger] queries@[k])@) == seq![
                    ("uris"@, joined(batches_of(uris.deep_view())[k], ","@)),
                ],
        decreases batches@.len() - i,
    {
        assert(batch_views(batches@)[i as int] == batches@[i as int].deep_view());
        queries.push(batch_query(&batches[i]));
        i += 1;
    }
    assert(batch_views(batches@).len() == batches@.len());
    queries
}

/// The flags of all answers, in order.
pub fn join_answers(answers: &Vec<Vec<bool>>) -> (flags: Vec<bool>)
    ensures
        flags@ == answers.deep_view().flatten(),
{
    let ghost all = answers.deep_view();
    let mut flags: Vec<bool> = Vec::new();
    let mut i: usize = 0;
    assert(flags@ =~= all.take(0).flatten());
    while i < answers.len()
        invariant
            i <= answers@.len(),
            all == answers.deep_view(),
            flags@ == all.take(i as int).flatten(),
        decreases answers@.len() - i,
    {
        let mut answer = answers[i].clone();
        proof {
            assert(all[i as int] =~= answers@[i as int]@);
            assert(answer@ =~= all[i as int]);
            assert(all.take(i + 1) =~= all.take(i as int).push(all[i as int]));
            all.take(i as int).lemma_flatten_push(all[i as int]);
        }
        flags.append(&mut answer);
        i += 1;
    }
    assert(all.take(i as int) =~= all);
    flags
}

proof fn lemma_answers_so_far(answers: Seq<Seq<bool>>, count: nat, done: int)
    requires
        answers.len() == batch_count(count),
        forall|i: int|
            0 <= i < answers.len() ==> (#[trigger] answers[i]).len() == batch_end(i, count) - i
                * LIBRARY_CONTAINS_MAX_URIS,
        0 <= done <= answers.len(),
    ensures
        answers.take(done).flatten().len() == (if done == 0 {
            0
        } else {
            batch_end(done - 1, count)
        }),
        forall|k: int|
            0 <= k < answers.take(done).flatten().len() ==> #[trigger] answers.take(
                done,
            ).flatten()[k] == answers[k / LIBRARY_CONTAINS_MAX_URIS as int][k
                % LIBRARY_CONTAINS_MAX_URIS as int],
    decreases done,
{
    let flags = answers.take(done).flatten();
    if done == 0 {
        assert(flags =~= seq![]);
    } else {
        let before = answers.take(done - 1);
        lemma_answers_so_far(answers, count, done - 1);
        assert(answers.take(done) =~= before.push(answers[done - 1]));
        before.lemma_flatten_push(answers[done - 1]);
        assert(before.flatten().len() == (done - 1) * LIBRARY_CONTAINS_MAX_URIS);
        assert forall|k: int| 0 <= k < flags.len() implies #[trigger] flags[k] == answers[k
            / LIBRARY_CONTAINS_MAX_URIS as int][k % LIBRARY_CONTAINS_MAX_URIS as int] by {
            if k < before.flatten().len() {
                assert(flags[k] == before.flatten()[k]);
            } else {
                assert(k / 40 == done - 1);
                assert(k % 40 == k - (done - 1) * 40);
            }
        }
    }
}

/// Where every answer has a flag for each URI of its batch, the joined answers have a flag for each
/// URI of the list, in its place.
pub proof fn lemma_answers_line_up(uris: Seq<Seq<char>>, answers: Seq<Seq<bool>>)
    requires
        answers.len() == batches_of(uris).len(),
        forall|i: int|
            0 <= i < answers.len() ==> (#[trigger] answers[i]).len() == batches_of(uris)[i].len(),
    ensures
        answers.flatten().len() == uris.len(),
        forall|k: int|
            0 <= k < uris.len() ==> {
                let batch = k / LIBRARY_CONTAINS_MAX_URIS as int;
                let place = k % LIBRARY_CONTAINS_MAX_URIS as int;
                &&& 0 <= batch < answers.len()
                &&& 0 <= place < answers[batch].len()
                &&& batches_of(uris)[batch][place] == uris[k]
                &&& #[trigger] answers.flatten()[k] == answers[batch][place]
            },
{
    let count = uris.len();
    assert forall|i: int| 0 <= i < answers.len() implies (#[trigger] answers[i]).len() == batch_end(
        i,
        count,
    ) - i * LIBRARY_CONTAINS_MAX_URIS by {
        assert(batches_of(uris)[i].len() == batch_end(i, count) - i * LIBRARY_CONTAINS_MAX_URIS);
    }
    lemma_answers_so_far(answers, count, answers.len() as int);
    assert(answers.take(answers.len() as int) =~= answers);
}

/// The queries and bodies with which URIs are saved or taken out of the library, one pair for each
/// batch.
pub fn change_requests(uris: &Vec<String>) -> (requests: Vec<(Vec<(String, String)>, Json)>)
    ensures
        requests@.len() == batches_of(uris.deep_view()).len(),
        forall|i: int|
            0 <= i < requests@.len() ==> {
                &&& query_view((#[trigger] requests@[i]).0@) == seq![
                    ("uris"@, joined(batches_of(uris.deep_view())[i], ","@)),
                ]
                &&& requests@[i].1.deep_view() == JsonView::Object(
                    seq![
                        ("uris"@, JsonView::Array(text_values(batches_of(uris.deep_view())[i]))),
                    ],
                )
            },
{
    let batches = uri_batches(uris);
    let mut requests: Vec<(Vec<(String, String)>, Json)> = Vec::new();
    let mut i: usize = 0;
    while i < batches.len()
        invariant
            i <= batches@.len(),
            batch_views(batches@) == batches_of(uris.deep_view()),
            requests@.len() == i,
            forall|k: int|
                0 <= k < i ==> {
                    &&& query_view((#[trigger] requests@[k]).0@) == seq![
                        ("uris"@, joined(batches_of(uris.deep_view())[k], ","@)),
                    ]
                    &&& requests@[k].1.deep_view() == JsonView::Object(
                        seq![
                            (
                                "uris"@,
                                JsonView::Array(text_values(batches_of(uris.deep_view())[k])),
                            ),
                        ],
                    )
                },
        decreases batches@.len() - i,
    {
        assert(batch_views(batches@)[i as int] == batches@[i as int].deep_view());
        requests.push((batch_query(&batches[i]), batch_body(&batches[i])));
        i += 1;
    }
    assert(batch_views(batches@).len() == batches@.len());
    requests
}

/// What a URI names.
#[derive(Clone, Copy, PartialEq, Eq, Structural, Debug)]
pub enum UriKind {
    Track,
    Episode,
    Album,
    Show,
}

/// How the URIs of a kind begin.
pub open spec fn uri_prefix(kind: UriKind) -> Seq<char> {
    match kind {
        UriKind::Track => "spotify:track:"@,
        UriKind::Episode => "spotify:episode:"@,
        UriKind::Album => "spotify:album:"@,
        UriKind::Show => "spotify:show:"@,
    }
}

/// The URI of a thing.
pub fn uri_of(kind: UriKind, id: &str) -> (uri: String)
    ensures
        uri@ == uri_prefix(kind) + id@,
{
    let mut uri = match kind {
        UriKind::Track => "spotify:track:".to_owned(),
        UriKind::Episode => "spotify:episode:".to_owned(),
        UriKind::Album => "spotify:album:".to_owned(),
        UriKind::Show => "spotify:show:".to_owned(),
    };
    uri.append(id);
    uri
}

/// The URIs of things.
pub open spec fn uris_of_ids(kind: UriKind, ids: Seq<Seq<char>>) -> Seq<Seq<char>> {
    Seq::new(ids.len(), |i: int| uri_prefix(kind) + ids[i])
}

/// The URIs of things.
pub fn uris_of(kind: UriKind, ids: &Vec<String>) -> (uris: Vec<String>)
    ensures
        uris.deep_view() == uris_of_ids(kind, ids.deep_view()),
{
    let mut uris: Vec<String> = Vec::new();
    let mut i: usize = 0;
    while i < ids.len()
        invariant
            i <= ids@.len(),
            uris.deep_view() == uris_of_ids(kind, ids.deep_view()).take(i as int),
        decreases ids@.len() - i,
    {
        let ghost before = uris.deep_view();
        uris.push(uri_of(kind, ids[i].as_str()));
        assert(uris.deep_view() =~= before.push(uris_of_ids(kind, ids.deep_view())[i as int]));
        i += 1;
    }
    assert(uris.deep_view() =~= uris_of_ids(kind, ids.deep_view()));
    uris
}

/// Ids that the service is asked for, and the state of the likes when they were taken.
pub struct LikedBatch {
    pub ids: Vec<String>,
    pub epoch: u64,
}

/// What the lookup of liked tracks does next.
#[derive(Clone, Copy, PartialEq, Eq, Structural, Debug)]
pub enum WorkerStep {
    /// Take the next batch.
    Continue,
    /// Wait for some seconds, then take the next batch.
    Wait { seconds: u64 },
    /// Nothing: there is nothing to look up, or the service fails.
    Stop,
}

/// The state, with ids waiting to be looked up.
pub open spec fn waiting(app: AppView, ids: Seq<Seq<char>>) -> AppView {
    AppView { liked_lookup_pending: with_ids(app.liked_lookup_pending, ids), ..app }
}

/// What comes of an answer on a batch: the state, the number of failures in a row, and the next
/// step. An answer that a change of the user has overtaken is not believed but asked for again.
pub open spec fn batch_settled(
    app: AppView,
    ids: Seq<Seq<char>>,
    epoch: u64,
    failures: u32,
    result: Result<Seq<bool>, Seq<char>>,
) -> (AppView, u32, WorkerStep) {
    match result {
        Ok(is_saved) => if app.liked_state_epoch != epoch {
            (waiting(app, ids), 0, WorkerStep::Continue)
        } else {
            (
                AppView {
                    liked_song_ids: with_flags(app.liked_song_ids, ids, is_saved),
                    ..app
                },
                0,
                WorkerStep::Continue,
            )
        },
        Err(reason) => if failures + 1 < MAX_CONSECUTIVE_FAILURES {
            (
                waiting(app, ids),
                (failures + 1) as u32,
                WorkerStep::Wait { seconds: (2 * (failures + 1)) as u64 },
            )
        } else {
            (
                with_status(
                    AppView { liked_lookup_worker_running: false, ..waiting(app, ids) },
                    "Could not check liked track state: "@ + reason,
                    5,
                ),
                failures,
                WorkerStep::Stop,
            )
        },
    }
}

/// What an answer on a batch stands for.
pub open spec fn lookup_view(result: Result<Vec<bool>, RequestError>) -> Result<
    Seq<bool>,
    Seq<char>,
> {
    match result {
        Ok(is_saved) => Ok(is_saved@),
        Err(error) => Err(error_text(error@)),
    }
}

impl App {
    fn add_pending(&mut self, ids: &Vec<String>)
        ensures
            final(self)@ == waiting(old(self)@, ids.deep_view()),
    {
        let ghost all = ids.deep_view();
        let ghost start = self@;
        let mut i: usize = 0;
        assert(all.take(0) =~= seq![]);
        while i < ids.len()
            invariant
                i <= ids@.len(),
                all == ids.deep_view(),
                self@ == waiting(start, all.take(i as int)),
            decreases ids@.len() - i,
        {
            assert(all.take(i + 1).drop_last() =~= all.take(i as int));
            assert(all.take(i + 1).last() == ids@[i as int]@);
            self.liked_lookup_pending.insert(ids[i].clone());
            i += 1;
        }
        assert(all.take(i as int) =~= all);
    }

    /// Has ids looked up. Says whether a lookup is to be begun: there is something to look up, and
    /// none is under way.
    pub fn enqueue_liked_lookup(&mut self, ids: &Vec<String>) -> (begin: bool)
        ensures
            begin == (with_ids(old(self)@.liked_lookup_pending, ids.deep_view()).len() > 0
                && !old(self)@.liked_lookup_worker_running),
            final(self)@ == (AppView {
                liked_lookup_worker_running: old(self)@.liked_lookup_worker_running || begin,
                ..waiting(old(self)@, ids.deep_view())
            }),
    {
        self.add_pending(ids);
        if self.liked_lookup_pending.is_empty() || self.liked_lookup_worker_running {
            false
        } else {
            self.liked_lookup_worker_running = true;
            true
        }
    }

    /// Takes the next batch to look up. Where nothing waits, the lookup is over.
    pub fn take_liked_batch(&mut self) -> (batch: Option<LikedBatch>)
        ensures
            batch is Some <==> old(self)@.liked_lookup_pending.len() > 0,
            batch is None ==> final(self)@ == (AppView {
                liked_lookup_worker_running: false,
                ..old(self)@
            }),
            batch matches Some(batch) ==> {
                &&& batch.epoch == old(self)@.liked_state_epoch
                &&& 0 < batch.ids@.len() <= LIBRARY_CONTAINS_MAX_URIS
                &&& batch.ids.deep_view() + final(self)@.liked_lookup_pending == old(self)@.liked_lookup_pending
                &&& batch.ids@.len() < LIBRARY_CONTAINS_MAX_URIS ==> final(self)@.liked_lookup_pending.len() == 0
                &&& final(self)@ == (AppView {
                    liked_lookup_pending: final(self)@.liked_lookup_pending,
                    ..old(self)@
                })
            },
    {
        if self.liked_lookup_pending.is_empty() {
            self.liked_lookup_worker_running = false;
            return None;
        }
        let ids = self.liked_lookup_pending.take_first(LIBRARY_CONTAINS_MAX_URIS);
        assert(ids.deep_view().len() == ids@.len());
        Some(LikedBatch { ids, epoch: self.liked_state_epoch })
    }

    /// Takes over the answer on a batch.
    pub fn settle_liked_batch(
        &mut self,
        batch: LikedBatch,
        result: Result<Vec<bool>, RequestError>,
        failures: &mut u32,
    ) -> (step: WorkerStep)
        requires
            *old(failures) < MAX_CONSECUTIVE_FAILURES,
        ensures
            (final(self)@, *final(failures), step) == batch_settled(
                old(self)@,
                batch.ids.deep_view(),
                batch.epoch,
                *old(failures),
                lookup_view(result),
            ),
            *final(failures) < MAX_CONSECUTIVE_FAILURES,
    {
        match result {
            Ok(is_saved) => {
                *failures = 0;
                if self.liked_state_epoch != batch.epoch {
                    self.add_pending(&batch.ids);
                } else {
                    apply_saved_flags(&mut self.liked_song_ids_set, &batch.ids, &is_saved);
                }
                WorkerStep::Continue
            },
            Err(error) => {
                self.add_pending(&batch.ids);
                if *failures + 1 < MAX_CONSECUTIVE_FAILURES {
                    *failures = *failures + 1;
                    WorkerStep::Wait { seconds: 2 * *failures as u64 }
                } else {
                    self.liked_lookup_worker_running = false;
                    let mut text = "Could not check liked track state: ".to_owned();
                    let reason = error.text();
                    text.append(reason.as_str());
                    self.set_status_message(text, 5);
                    WorkerStep::Stop
                }
            },
        }
    }

    /// Takes over which tracks are liked, for one who waits for the answer.
    pub fn resolve_liked_state_now(&mut self, ids: &Vec<String>, is_saved: &Vec<bool>)
        ensures
            final(self)@ == (AppView {
                liked_song_ids: with_flags(
                    old(self)@.liked_song_ids,
                    ids.deep_view(),
                    is_saved@,
                ),
                ..old(self)@
            }),
    {
        apply_saved_flags(&mut self.liked_song_ids_set, ids, is_saved);
    }

    /// Whether the track or episode with an id is liked, so that liking it again takes the like
    /// away; and its URI.
    pub fn toggle_request(&self, kind: UriKind, id: &str) -> (request: (bool, String))
        ensures
            request.0 == self@.liked_song_ids.contains(id@),
            request.1@ == uri_prefix(kind) + id@,
    {
        (self.liked_song_ids_set.contains(id), uri_of(kind, id))
    }

    /// A like was set or taken away, or that failed. Answers that were asked for before a change
    /// are outdated by it.
    pub fn toggle_settled(&mut self, id: &str, was_liked: bool, failure: Option<RequestError>)
        ensures
            final(self)@ == (match failure {
                Some(error) => with_error(old(self)@, error@),
                None => like_changed(old(self)@, id@, was_liked),
            }),
    {
        match failure {
            Some(error) => {
                self.handle_error(error);
            },
            None => {
                if was_liked {
                    self.liked_song_ids_set.remove(id);
                } else {
                    self.liked_song_ids_set.insert(id.to_owned());
                }
                self.liked_state_epoch = bump_count(self.liked_state_epoch);
            },
        }
    }
}

/// The state, with a like set, or taken away where there was one.
pub open spec fn like_changed(app: AppView, id: Seq<char>, was_liked: bool) -> AppView {
    AppView {
        liked_song_ids: if was_liked {
            app.liked_song_ids.remove(id)
        } else {
            app.liked_song_ids.insert(id)
        },
        liked_state_epoch: bumped(app.liked_state_epoch),
        ..app
    }
}

/// No id gets lost: when the service fails, or the user has changed a like meanwhile, every id of
/// the batch waits again, and those that waited still do. And only a lookup that goes on may leave
/// the note that one is under way.
pub proof fn lemma_lookup_loses_no_id(
    app: AppView,
    ids: Seq<Seq<char>>,
    epoch: u64,
    failures: u32,
    result: Result<Seq<bool>, Seq<char>>,
    id: Seq<char>,
)
    requires
        failures < MAX_CONSECUTIVE_FAILURES,
    ensures
        ({
            let (after, _, step) = batch_settled(app, ids, epoch, failures, result);
            &&& app.liked_lookup_pending.contains(id) ==> after.liked_lookup_pending.contains(id)
            &&& ids.contains(id) && (result is Err || app.liked_state_epoch != epoch)
                ==> after.liked_lookup_pending.contains(id)
            &&& step == WorkerStep::Stop ==> !after.liked_lookup_worker_running
            &&& step != WorkerStep::Stop ==> after.liked_lookup_worker_running
                == app.liked_lookup_worker_running
        }),
{
    lemma_with_ids(app.liked_lookup_pending, ids);
}

/// An answer that was asked for before the user changed a like never undoes the change.
pub proof fn lemma_change_survives_lookup(
    app: AppView,
    id: Seq<char>,
    was_liked: bool,
    ids: Seq<Seq<char>>,
    failures: u32,
    result: Result<Seq<bool>, Seq<char>>,
)
    ensures
        batch_settled(
            like_changed(app, id, was_liked),
            ids,
            app.liked_state_epoch,
            failures,
            result,
        ).0.liked_song_ids == like_changed(app, id, was_liked).liked_song_ids,
{
}

/// A like that is set and taken away again leaves the likes as they were.
pub proof fn lemma_toggle_twice(app: AppView, id: Seq<char>)
    ensures
        ({
            let once = like_changed(app, id, app.liked_song_ids.contains(id));
            let twice = like_changed(once, id, once.liked_song_ids.contains(id));
            &&& twice.liked_song_ids == app.liked_song_ids
            &&& once.liked_song_ids.contains(id) != app.liked_song_ids.contains(id)
            &&& once.liked_state_epoch != app.liked_state_epoch
        }),
{
    let once = like_changed(app, id, app.liked_song_ids.contains(id));
    let twice = like_changed(once, id, once.liked_song_ids.contains(id));
    assert(twice.liked_song_ids =~= app.liked_song_ids);
}

/// Every batch but the last has forty URIs, and the URI at a place of the list stands in the batch and
/// at the place that its number says.
pub proof fn lemma_batches_are_full(uris: Seq<Seq<char>>, k: int)
    requires
        0 <= k < uris.len(),
    ensures
        ({
            let batches = batches_of(uris);
            &&& 40 * (batches.len() - 1) < uris.len() <= 40 * batches.len()
            &&& forall|i: int| 0 <= i < batches.len() - 1 ==> (#[trigger] batches[i]).len() == 40
            &&& k / 40 < batches.len()
            &&& k % 40 < batches[k / 40].len()
            &&& batches[k / 40][k % 40] == uris[k]
        }),
{
}

/// The URI of a thing names its kind and then its id.
pub proof fn lemma_uris_name_kind_and_id(ids: Seq<Seq<char>>, i: int)
    requires
        0 <= i < ids.len(),
    ensures
        uris_of_ids(UriKind::Track, ids)[i] == "spotify:track:"@ + ids[i],
        uris_of_ids(UriKind::Episode, ids)[i] == "spotify:episode:"@ + ids[i],
        uris_of_ids(UriKind::Album, ids)[i] == "spotify:album:"@ + ids[i],
        uris_of_ids(UriKind::Show, ids)[i] == "spotify:show:"@ + ids[i],
        forall|kind: UriKind| #[trigger] uris_of_ids(kind, ids).len() == ids.len(),
{
}

/// An answer that is believed says of each id of its batch whether it is liked, the last time that the
/// id stands in it; it changes no other like, and no id waits again on its account.
pub proof fn lemma_answer_is_believed(
    app: AppView,
    ids: Seq<Seq<char>>,
    failures: u32,
    is_saved: Seq<bool>,
    id: Seq<char>,
    i: int,
)
    requires
        is_saved.len() == ids.len(),
        0 <= i < ids.len(),
        ids[i] == id,
        forall|k: int| i < k < ids.len() ==> #[trigger] ids[k] != id,
    ensures
        ({
            let (after, fails, step) = batch_settled(
                app,
                ids,
                app.liked_state_epoch,
                failures,
                Ok(is_saved),
            );
            &&& after.liked_song_ids.contains(id) == is_saved[i]
            &&& forall|other: Seq<char>|
                !ids.contains(other) ==> (#[trigger] after.liked_song_ids.contains(other)
                    <==> app.liked_song_ids.contains(other))
            &&& after == (AppView { liked_song_ids: after.liked_song_ids, ..app })
            &&& fails == 0
            &&& step == WorkerStep::Continue
        }),
{
    lemma_flags_hold(app.liked_song_ids, ids, is_saved, id);
    let after = batch_settled(app, ids, app.liked_state_epoch, failures, Ok(is_saved)).0;
    assert forall|other: Seq<char>| !ids.contains(other) implies (
    #[trigger] after.liked_song_ids.contains(other) <==> app.liked_song_ids.contains(other)) by {
        lemma_flags_hold(app.liked_song_ids, ids, is_saved, other);
    }
}

/// An answer that a change has overtaken changes no like: its ids wait again, and the lookup goes on.
pub proof fn lemma_overtaken_answer_is_asked_again(
    app: AppView,
    ids: Seq<Seq<char>>,
    epoch: u64,
    failures: u32,
    is_saved: Seq<bool>,
)
    requires
        app.liked_state_epoch != epoch,
    ensures
        ({
            let (after, fails, step) = batch_settled(app, ids, epoch, failures, Ok(is_saved));
            &&& after.liked_song_ids == app.liked_song_ids
            &&& forall|id: Seq<char>|
                #[trigger] after.liked_lookup_pending.contains(id)
                    <==> app.liked_lookup_pending.contains(id) || ids.contains(id)
            &&& after == (AppView { liked_lookup_pending: after.liked_lookup_pending, ..app })
            &&& fails == 0
            &&& step == WorkerStep::Continue
        }),
{
    lemma_with_ids(app.liked_lookup_pending, ids);
}

/// After a first failure the lookup waits for two seconds, after a second one in a row for four, and
/// after a third one it stops and says why. No like changes.
pub proof fn lemma_failures_wait_and_stop(
    app: AppView,
    ids: Seq<Seq<char>>,
    epoch: u64,
    reason: Seq<char>,
)
    ensures
        ({
            let (first, one, wait) = batch_settled(app, ids, epoch, 0, Err(reason));
            let (second, two, longer) = batch_settled(app, ids, epoch, 1, Err(reason));
            let (third, three, stop) = batch_settled(app, ids, epoch, 2, Err(reason));
            &&& wait == (WorkerStep::Wait { seconds: 2 }) && one == 1
            &&& longer == (WorkerStep::Wait { seconds: 4 }) && two == 2
            &&& stop == WorkerStep::Stop
            &&& first.status == app.status && second.status == app.status
            &&& third.status == Some(("Could not check liked track state: "@ + reason, 5u64))
            &&& first.liked_song_ids == app.liked_song_ids
            &&& second.liked_song_ids == app.liked_song_ids
            &&& third.liked_song_ids == app.liked_song_ids
            &&& third.navigation_stack == app.navigation_stack
        }),
{
}

/// A change of a like changes that like alone, and outdates what was asked for before it.
pub proof fn lemma_one_like_changes(app: AppView, id: Seq<char>, was_liked: bool, other: Seq<char>)
    ensures
        ({
            let after = like_changed(app, id, was_liked);
            &&& after.liked_song_ids.contains(id) == !was_liked
            &&& other != id ==> after.liked_song_ids.contains(other)
                == app.liked_song_ids.contains(other)
            &&& after.liked_state_epoch != app.liked_state_epoch
            &&& after == (AppView {
                liked_song_ids: after.liked_song_ids,
                liked_state_epoch: after.liked_state_epoch,
                ..app
            })
        }),
{
}

/// Texts as JSON values are the texts, in order.
pub proof fn lemma_texts_as_values(parts: Seq<Seq<char>>, i: int)
    requires
        0 <= i < parts.len(),
    ensures
        text_values(parts).len() == parts.len(),
        text_values(parts)[i] == JsonView::Text(parts[i]),
{
}

/// A failed lookup changes what waits, and at the end that it is under way and what is told, and
/// nothing else.
pub proof fn lemma_only_lookup_changes(
    app: AppView,
    ids: Seq<Seq<char>>,
    epoch: u64,
    failures: u32,
    reason: Seq<char>,
)
    requires
        failures < 3,
    ensures
        ({
            let (after, fails, step) = batch_settled(app, ids, epoch, failures, Err(reason));
            &&& failures < 2 ==> after == (AppView {
                liked_lookup_pending: after.liked_lookup_pending,
                ..app
            })
            &&& failures == 2 ==> after == (AppView {
                liked_lookup_pending: after.liked_lookup_pending,
                liked_lookup_worker_running: false,
                status: after.status,
                ..app
            })
            &&& forall|id: Seq<char>|
                #[trigger] after.liked_lookup_pending.contains(id)
                    <==> app.liked_lookup_pending.contains(id) || ids.contains(id)
        }),
{
    lemma_with_ids(app.liked_lookup_pending, ids);
}

} // verus!
