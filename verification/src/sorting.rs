//! The orders in which the tracks of a playlist can be shown.

use vstd::prelude::*;

use crate::domain::{TrackInfo, TrackView};
use crate::text::{lemma_text_order_decides, order_texts, precedes, text_order, Order};

verus! {

/// What tracks are sorted by. By default they stay as the playlist has them.
#[derive(Clone, Copy, PartialEq, Eq, Structural, Debug)]
pub enum SortField {
    Default,
    Name,
    DateAdded,
    Duration,
    Artist,
    Album,
}

/// Which end comes first.
#[derive(Clone, Copy, PartialEq, Eq, Structural, Debug)]
pub enum SortOrder {
    Ascending,
    Descending,
}

/// How tracks are sorted.
#[derive(Clone, Copy, PartialEq, Eq, Structural, Debug)]
pub struct SortState {
    pub field: SortField,
    pub order: SortOrder,
}

/// An order seen from the other side.
pub open spec fn flipped(order: Order) -> Order {
    match order {
        Order::Before => Order::After,
        Order::Same => Order::Same,
        Order::After => Order::Before,
    }
}

fn flip(order: Order) -> (result: Order)
    ensures
        result == flipped(order),
{
    match order {
        Order::Before => Order::After,
        Order::Same => Order::Same,
        Order::After => Order::Before,
    }
}

/// The order of two numbers.
pub open spec fn number_order(left: int, right: int) -> Order {
    if left < right {
        Order::Before
    } else if left == right {
        Order::Same
    } else {
        Order::After
    }
}

fn order_numbers(left: u64, right: u64) -> (order: Order)
    ensures
        order == number_order(left as int, right as int),
{
    if left < right {
        Order::Before
    } else if left == right {
        Order::Same
    } else {
        Order::After
    }
}

/// The order of two lists of artists: that of the first artists. No artist comes before any.
pub open spec fn first_artist_order(left: Seq<Seq<char>>, right: Seq<Seq<char>>) -> Order {
    if left.len() == 0 && right.len() == 0 {
        Order::Same
    } else if left.len() == 0 {
        Order::Before
    } else if right.len() == 0 {
        Order::After
    } else {
        text_order(left[0], right[0])
    }
}

/// A track, and its place in the playlist.
pub type TrackMatch = (TrackInfo, usize);

/// The order of two tracks by what they are sorted by.
pub open spec fn field_order(
    left: (TrackView, usize),
    right: (TrackView, usize),
    field: SortField,
) -> Order {
    match field {
        SortField::Name => text_order(left.0.name, right.0.name),
        SortField::Duration => number_order(left.0.duration_ms as int, right.0.duration_ms as int),
        SortField::Artist => first_artist_order(left.0.artists, right.0.artists),
        SortField::Album => text_order(left.0.album, right.0.album),
        SortField::DateAdded => number_order(left.1 as int, right.1 as int),
        SortField::Default => Order::Same,
    }
}

/// The order of two tracks.
pub open spec fn match_order(
    left: (TrackView, usize),
    right: (TrackView, usize),
    state: SortState,
) -> Order {
    match state.order {
        SortOrder::Ascending => field_order(left, right, state.field),
        SortOrder::Descending => flipped(field_order(left, right, state.field)),
    }
}

/// The numbers below a length, each once, in some order.
pub open spec fn is_permutation(places: Seq<int>, length: nat) -> bool {
    &&& places.len() == length
    &&& forall|i: int| 0 <= i < places.len() ==> 0 <= #[trigger] places[i] < length
    &&& forall|i: int, j: int|
        0 <= i < j < places.len() ==> #[trigger] places[i] != #[trigger] places[j]
}

/// Of two tracks of a list, the first one comes first: by their order, and by their place in the
/// list where that does not decide.
pub open spec fn comes_first(
    all: Seq<(TrackView, usize)>,
    first: int,
    second: int,
    state: SortState,
) -> bool {
    let order = match_order(all[first], all[second], state);
    order == Order::Before || (order == Order::Same && first < second)
}

/// The places bring the list in order, and keep apart tracks that the order does not tell apart in
/// the order in which they stood.
pub open spec fn sorts(all: Seq<(TrackView, usize)>, places: Seq<int>, state: SortState) -> bool {
    &&& is_permutation(places, all.len())
    &&& forall|i: int, j: int|
        0 <= i < j < places.len() ==> comes_first(
            all,
            #[trigger] places[i],
            #[trigger] places[j],
            state,
        )
}

/// The list, with the tracks at the given places.
pub open spec fn taken_from(all: Seq<(TrackView, usize)>, places: Seq<int>) -> Seq<
    (TrackView, usize),
> {
    Seq::new(places.len(), |i: int| all[places[i]])
}

/// The second list is the first one, sorted: a stable sort.
pub open spec fn is_sorted_from(
    before: Seq<(TrackView, usize)>,
    after: Seq<(TrackView, usize)>,
    state: SortState,
) -> bool {
    exists|places: Seq<int>|
        #[trigger] sorts(before, places, state) && after == taken_from(before, places)
}

proof fn lemma_text_order_flip(left: Seq<char>, right: Seq<char>)
    ensures
        text_order(right, left) == flipped(text_order(left, right)),
    decreases left.len(),
{
    if left.len() > 0 && right.len() > 0 && left[0] == right[0] {
        lemma_text_order_flip(left.skip(1), right.skip(1));
    }
}

proof fn lemma_text_order_trans(a: Seq<char>, b: Seq<char>, c: Seq<char>)
    requires
        text_order(a, b) != Order::After,
        text_order(b, c) != Order::After,
    ensures
        text_order(a, c) != Order::After,
        text_order(a, c) == Order::Same ==> text_order(a, b) == Order::Same && text_order(b, c)
            == Order::Same,
        text_order(a, b) == Order::Same && text_order(b, c) == Order::Same ==> text_order(a, c)
            == Order::Same,
    decreases a.len(),
{
    if a.len() > 0 && b.len() > 0 && c.len() > 0 && a[0] == b[0] && b[0] == c[0] {
        lemma_text_order_trans(a.skip(1), b.skip(1), c.skip(1));
    }
}

proof fn lemma_field_order_flip(
    left: (TrackView, usize),
    right: (TrackView, usize),
    field: SortField,
)
    ensures
        field_order(right, left, field) == flipped(field_order(left, right, field)),
{
    lemma_text_order_flip(left.0.name, right.0.name);
    lemma_text_order_flip(left.0.album, right.0.album);
    if left.0.artists.len() > 0 && right.0.artists.len() > 0 {
        lemma_text_order_flip(left.0.artists[0], right.0.artists[0]);
    }
}

proof fn lemma_field_order_trans(
    a: (TrackView, usize),
    b: (TrackView, usize),
    c: (TrackView, usize),
    field: SortField,
)
    requires
        field_order(a, b, field) != Order::After,
        field_order(b, c, field) != Order::After,
    ensures
        field_order(a, c, field) != Order::After,
        field_order(a, c, field) == Order::Same ==> field_order(a, b, field) == Order::Same
            && field_order(b, c, field) == Order::Same,
        field_order(a, b, field) == Order::Same && field_order(b, c, field) == Order::Same
            ==> field_order(a, c, field) == Order::Same,
{
    match field {
        SortField::Name => lemma_text_order_trans(a.0.name, b.0.name, c.0.name),
        SortField::Album => lemma_text_order_trans(a.0.album, b.0.album, c.0.album),
        SortField::Artist => {
            if a.0.artists.len() > 0 && b.0.artists.len() > 0 && c.0.artists.len() > 0 {
                lemma_text_order_trans(a.0.artists[0], b.0.artists[0], c.0.artists[0]);
            }
        },
        _ => {},
    }
}

/// Of two different places of a list, exactly one comes first.
proof fn lemma_comes_first_total(
    all: Seq<(TrackView, usize)>,
    i: int,
    j: int,
    state: SortState,
)
    requires
        i != j,
    ensures
        comes_first(all, i, j, state) <==> !comes_first(all, j, i, state),
{
    lemma_field_order_flip(all[i], all[j], state.field);
}

proof fn lemma_comes_first_trans(
    all: Seq<(TrackView, usize)>,
    i: int,
    j: int,
    k: int,
    state: SortState,
)
    requires
        comes_first(all, i, j, state),
        comes_first(all, j, k, state),
    ensures
        comes_first(all, i, k, state),
{
    match state.order {
        SortOrder::Ascending => {
            lemma_field_order_trans(all[i], all[j], all[k], state.field);
        },
        SortOrder::Descending => {
            lemma_field_order_flip(all[i], all[j], state.field);
            lemma_field_order_flip(all[j], all[k], state.field);
            lemma_field_order_flip(all[i], all[k], state.field);
            lemma_field_order_trans(all[k], all[j], all[i], state.field);
        },
    }
}

/// The order of two tracks of a list.
fn order_matches(left: &TrackMatch, right: &TrackMatch, state: SortState) -> (order: Order)
    ensures
        order == match_order(left.deep_view(), right.deep_view(), state),
{
    let order = match state.field {
        SortField::Name => order_texts(left.0.name.as_str(), right.0.name.as_str()),
        SortField::Duration => order_numbers(left.0.duration_ms, right.0.duration_ms),
        SortField::Artist => {
            if left.0.artists.len() == 0 && right.0.artists.len() == 0 {
                Order::Same
            } else if left.0.artists.len() == 0 {
                Order::Before
            } else if right.0.artists.len() == 0 {
                Order::After
            } else {
                order_texts(left.0.artists[0].as_str(), right.0.artists[0].as_str())
            }
        },
        SortField::Album => order_texts(left.0.album.as_str(), right.0.album.as_str()),
        SortField::DateAdded => order_numbers(left.1 as u64, right.1 as u64),
        SortField::Default => Order::Same,
    };
    match state.order {
        SortOrder::Ascending => order,
        SortOrder::Descending => flip(order),
    }
}

/// The places are from a stretch of a list, and each comes before those behind it.
spec fn ordered_run(
    all: Seq<(TrackView, usize)>,
    run: Seq<usize>,
    from: int,
    to: int,
    state: SortState,
) -> bool {
    &&& forall|i: int| 0 <= i < run.len() ==> from <= #[trigger] run[i] < to
    &&& forall|i: int, j: int|
        0 <= i < j < run.len() ==> comes_first(
            all,
            #[trigger] run[i] as int,
            #[trigger] run[j] as int,
            state,
        )
}

/// Two ordered runs as one.
fn merge(
    matches: &Vec<TrackMatch>,
    left: &Vec<usize>,
    right: &Vec<usize>,
    state: SortState,
    Ghost(from): Ghost<int>,
    Ghost(middle): Ghost<int>,
    Ghost(to): Ghost<int>,
) -> (run: Vec<usize>)
    requires
        0 <= from <= middle <= to <= matches@.len(),
        ordered_run(matches.deep_view(), left@, from, middle, state),
        ordered_run(matches.deep_view(), right@, middle, to, state),
    ensures
        ordered_run(matches.deep_view(), run@, from, to, state),
        run@.len() == left@.len() + right@.len(),
{
    let ghost all = matches.deep_view();
    let mut run: Vec<usize> = Vec::new();
    let mut i: usize = 0;
    let mut j: usize = 0;
    while i < left.len() || j < right.len()
        invariant
            0 <= from <= middle <= to <= matches@.len(),
            all == matches.deep_view(),
            ordered_run(all, left@, from, middle, state),
            ordered_run(all, right@, middle, to, state),
            i <= left@.len(),
            j <= right@.len(),
            run@.len() == i + j,
            ordered_run(all, run@, from, to, state),
            forall|k: int, l: int|
                0 <= k < run@.len() && i <= l < left@.len() ==> comes_first(
                    all,
                    #[trigger] run@[k] as int,
                    #[trigger] left@[l] as int,
                    state,
                ),
            forall|k: int, l: int|
                0 <= k < run@.len() && j <= l < right@.len() ==> comes_first(
                    all,
                    #[trigger] run@[k] as int,
                    #[trigger] right@[l] as int,
                    state,
                ),
        decreases left@.len() + right@.len() - i - j,
    {
        let take_left = if i == left.len() {
            false
        } else if j == right.len() {
            true
        } else {
            assert(all[left@[i as int] as int] == matches@[left@[i as int] as int].deep_view());
            assert(all[right@[j as int] as int] == matches@[right@[j as int] as int].deep_view());
            proof {
                lemma_comes_first_total(all, left@[i as int] as int, right@[j as int] as int, state);
            }
            match order_matches(&matches[left[i]], &matches[right[j]], state) {
                Order::After => false,
                _ => true,
            }
        };
        let ghost before = run@;
        if take_left {
            let place = left[i];
            proof {
                assert forall|l: int| j <= l < right@.len() implies comes_first(
                    all,
                    place as int,
                    #[trigger] right@[l] as int,
                    state,
                ) by {
                    if l > j {
                        lemma_comes_first_trans(
                            all,
                            place as int,
                            right@[j as int] as int,
                            right@[l] as int,
                            state,
                        );
                    }
                }
            }
            run.push(place);
            i += 1;
        } else {
            let place = right[j];
            proof {
                assert forall|l: int| i <= l < left@.len() implies comes_first(
                    all,
                    place as int,
                    #[trigger] left@[l] as int,
                    state,
                ) by {
                    if l > i {
                        lemma_comes_first_trans(
                            all,
                            place as int,
                            left@[i as int] as int,
                            left@[l] as int,
                            state,
                        );
                    }
                }
            }
            run.push(place);
            j += 1;
        }
    }
    run
}

/// The places of a stretch of a list, in order.
fn sorted_places(matches: &Vec<TrackMatch>, from: usize, to: usize, state: SortState) -> (run: Vec<
    usize,
>)
    requires
        from <= to <= matches@.len(),
    ensures
        ordered_run(matches.deep_view(), run@, from as int, to as int, state),
        run@.len() == to - from,
    decreases to - from,
{
    if to - from == 0 {
        return Vec::new();
    }
    if to - from == 1 {
        let mut run: Vec<usize> = Vec::new();
        run.push(from);
        return run;
    }
    let middle: usize = from + (to - from) / 2;
    let left = sorted_places(matches, from, middle, state);
    let right = sorted_places(matches, middle, to, state);
    merge(
        matches,
        &left,
        &right,
        state,
        Ghost(from as int),
        Ghost(middle as int),
        Ghost(to as int),
    )
}

/// Sorts tracks. Those that the order does not tell apart stay in the order in which they stood.
pub fn sort_playlist_track_matches(matches: &mut Vec<TrackMatch>, sort_state: SortState)
    ensures
        is_sorted_from(old(matches).deep_view(), final(matches).deep_view(), sort_state),
        sort_state.field == SortField::Default ==> final(matches).deep_view() == old(matches).deep_view(),
{
    let ghost all = matches.deep_view();
    if sort_state.field == SortField::Default {
        proof {
            let places = Seq::new(all.len(), |i: int| i);
            assert(sorts(all, places, sort_state));
            assert(taken_from(all, places) =~= all);
        }
        return;
    }
    let run = sorted_places(matches, 0, matches.len(), sort_state);
    let ghost places = Seq::new(run@.len(), |i: int| run@[i] as int);
    let mut sorted: Vec<TrackMatch> = Vec::new();
    let mut i: usize = 0;
    while i < run.len()
        invariant
            i <= run@.len(),
            all == matches.deep_view(),
            places == Seq::new(run@.len(), |i: int| run@[i] as int),
            forall|k: int| 0 <= k < run@.len() ==> 0 <= #[trigger] run@[k] < matches@.len(),
            sorted.deep_view() == taken_from(all, places).take(i as int),
        decreases run@.len() - i,
    {
        let ghost before = sorted.deep_view();
        let found = &matches[run[i]];
        sorted.push((found.0.clone(), found.1));
        assert(sorted.deep_view() =~= before.push(taken_from(all, places)[i as int]));
        i += 1;
    }
    assert(sorted.deep_view() =~= taken_from(all, places));
    proof {
        assert forall|i: int, j: int| 0 <= i < j < places.len() implies #[trigger] places[i]
            != #[trigger] places[j] by {
            assert(comes_first(all, run@[i] as int, run@[j] as int, sort_state));
            lemma_field_order_flip(all[places[i]], all[places[i]], sort_state.field);
        }
        assert(sorts(all, places, sort_state));
    }
    *matches = sorted;
}

proof fn lemma_permutation_covers(places: Seq<int>, length: nat, place: int)
    requires
        is_permutation(places, length),
        0 <= place < length,
    ensures
        places.contains(place),
{
    assert(places.no_duplicates());
    places.unique_seq_to_set();
    let all = vstd::set_lib::set_int_range(0, length as int);
    vstd::set_lib::lemma_int_range(0, length as int);
    assert(places.to_set().subset_of(all)) by {
        assert forall|p: int| places.to_set().contains(p) implies all.contains(p) by {
            let i = choose|i: int| 0 <= i < places.len() && places[i] == p;
        }
    }
    vstd::set_lib::lemma_subset_equality(places.to_set(), all);
    assert(all.contains(place));
}

proof fn lemma_sorting_places_agree(
    all: Seq<(TrackView, usize)>,
    p: Seq<int>,
    q: Seq<int>,
    state: SortState,
    upto: int,
)
    requires
        sorts(all, p, state),
        sorts(all, q, state),
        0 <= upto <= p.len(),
    ensures
        forall|i: int| 0 <= i < upto ==> #[trigger] p[i] == q[i],
    decreases upto,
{
    if upto > 0 {
        let i = upto - 1;
        lemma_sorting_places_agree(all, p, q, state, i);
        if p[i] != q[i] {
            lemma_permutation_covers(q, all.len(), p[i]);
            lemma_permutation_covers(p, all.len(), q[i]);
            let j = choose|j: int| 0 <= j < q.len() && q[j] == p[i];
            let k = choose|k: int| 0 <= k < p.len() && p[k] == q[i];
            if j < i {
                assert(p[j] == q[j]);
                assert(p[j] != p[i]);
            }
            if k < i {
                assert(p[k] == q[k]);
                assert(q[k] != q[i]);
            }
            assert(comes_first(all, q[i], q[j], state));
            assert(comes_first(all, p[i], p[k], state));
            lemma_comes_first_total(all, p[i], q[i], state);
        }
    }
}

/// There is one way to sort a list: two lists that are sorted from it are the same.
pub proof fn lemma_sorting_is_determined(
    before: Seq<(TrackView, usize)>,
    one: Seq<(TrackView, usize)>,
    other: Seq<(TrackView, usize)>,
    state: SortState,
)
    requires
        is_sorted_from(before, one, state),
        is_sorted_from(before, other, state),
    ensures
        one == other,
{
    let p = choose|places: Seq<int>|
        #[trigger] sorts(before, places, state) && one == taken_from(before, places);
    let q = choose|places: Seq<int>|
        #[trigger] sorts(before, places, state) && other == taken_from(before, places);
    lemma_sorting_places_agree(before, p, q, state, p.len() as int);
    assert(p =~= q);
}

/// Sorting loses no track and adds none.
pub proof fn lemma_sorting_keeps_tracks(
    before: Seq<(TrackView, usize)>,
    after: Seq<(TrackView, usize)>,
    state: SortState,
    found: (TrackView, usize),
)
    requires
        is_sorted_from(before, after, state),
    ensures
        after.len() == before.len(),
        after.contains(found) <==> before.contains(found),
{
    let places = choose|places: Seq<int>|
        #[trigger] sorts(before, places, state) && after == taken_from(before, places);
    if before.contains(found) {
        let i = choose|i: int| 0 <= i < before.len() && before[i] == found;
        lemma_permutation_covers(places, before.len(), i);
        let k = choose|k: int| 0 <= k < places.len() && places[k] == i;
        assert(after[k] == found);
    }
    if after.contains(found) {
        let k = choose|k: int| 0 <= k < after.len() && after[k] == found;
        assert(before[places[k]] == found);
    }
}

/// The track at a place of a sorted list is in order with each one behind it.
proof fn lemma_in_order(
    before: Seq<(TrackView, usize)>,
    after: Seq<(TrackView, usize)>,
    state: SortState,
    i: int,
    j: int,
)
    requires
        is_sorted_from(before, after, state),
        0 <= i < j < after.len(),
    ensures
        match_order(after[i], after[j], state) != Order::After,
{
    let places = choose|places: Seq<int>|
        #[trigger] sorts(before, places, state) && after == taken_from(before, places);
    assert(comes_first(before, places[i], places[j], state));
}

/// In a list sorted by title no title stands before that of an earlier track; in a descending one,
/// none before that of a later track.
pub proof fn lemma_sorted_by_name(
    before: Seq<(TrackView, usize)>,
    after: Seq<(TrackView, usize)>,
    order: SortOrder,
    i: int,
    j: int,
)
    requires
        is_sorted_from(before, after, SortState { field: SortField::Name, order }),
        0 <= i < j < after.len(),
    ensures
        order == SortOrder::Ascending ==> !precedes(after[j].0.name, after[i].0.name),
        order == SortOrder::Descending ==> !precedes(after[i].0.name, after[j].0.name),
{
    lemma_in_order(before, after, SortState { field: SortField::Name, order }, i, j);
    lemma_text_order_decides(after[i].0.name, after[j].0.name);
}

/// In a list sorted by album no album stands before that of an earlier track; in a descending one,
/// none before that of a later track.
pub proof fn lemma_sorted_by_album(
    before: Seq<(TrackView, usize)>,
    after: Seq<(TrackView, usize)>,
    order: SortOrder,
    i: int,
    j: int,
)
    requires
        is_sorted_from(before, after, SortState { field: SortField::Album, order }),
        0 <= i < j < after.len(),
    ensures
        order == SortOrder::Ascending ==> !precedes(after[j].0.album, after[i].0.album),
        order == SortOrder::Descending ==> !precedes(after[i].0.album, after[j].0.album),
{
    lemma_in_order(before, after, SortState { field: SortField::Album, order }, i, j);
    lemma_text_order_decides(after[i].0.album, after[j].0.album);
}

/// In a list sorted by artist the tracks without one come first, then no first artist stands before
/// that of an earlier track; a descending one is the other way round.
pub proof fn lemma_sorted_by_artist(
    before: Seq<(TrackView, usize)>,
    after: Seq<(TrackView, usize)>,
    order: SortOrder,
    i: int,
    j: int,
)
    requires
        is_sorted_from(before, after, SortState { field: SortField::Artist, order }),
        0 <= i < j < after.len(),
    ensures
        order == SortOrder::Ascending ==> {
            &&& after[j].0.artists.len() == 0 ==> after[i].0.artists.len() == 0
            &&& after[i].0.artists.len() > 0 ==> !precedes(
                after[j].0.artists[0],
                after[i].0.artists[0],
            )
        },
        order == SortOrder::Descending ==> {
            &&& after[i].0.artists.len() == 0 ==> after[j].0.artists.len() == 0
            &&& after[j].0.artists.len() > 0 ==> !precedes(
                after[i].0.artists[0],
                after[j].0.artists[0],
            )
        },
{
    lemma_in_order(before, after, SortState { field: SortField::Artist, order }, i, j);
    lemma_text_order_decides(after[i].0.artists[0], after[j].0.artists[0]);
}

/// In a list sorted by duration no track is shorter than an earlier one; in a descending one, none is
/// longer.
pub proof fn lemma_sorted_by_duration(
    before: Seq<(TrackView, usize)>,
    after: Seq<(TrackView, usize)>,
    order: SortOrder,
    i: int,
    j: int,
)
    requires
        is_sorted_from(before, after, SortState { field: SortField::Duration, order }),
        0 <= i < j < after.len(),
    ensures
        order == SortOrder::Ascending ==> after[i].0.duration_ms <= after[j].0.duration_ms,
        order == SortOrder::Descending ==> after[i].0.duration_ms >= after[j].0.duration_ms,
{
    lemma_in_order(before, after, SortState { field: SortField::Duration, order }, i, j);
}

/// In a list sorted by the date at which tracks were added, they stand as the playlist has them; in a
/// descending one, from its end.
pub proof fn lemma_sorted_by_date_added(
    before: Seq<(TrackView, usize)>,
    after: Seq<(TrackView, usize)>,
    order: SortOrder,
    i: int,
    j: int,
)
    requires
        is_sorted_from(before, after, SortState { field: SortField::DateAdded, order }),
        0 <= i < j < after.len(),
    ensures
        order == SortOrder::Ascending ==> after[i].1 <= after[j].1,
        order == SortOrder::Descending ==> after[i].1 >= after[j].1,
{
    lemma_in_order(before, after, SortState { field: SortField::DateAdded, order }, i, j);
}

/// Without a field to sort by, a list stays as it is.
pub proof fn lemma_default_order_changes_nothing(
    before: Seq<(TrackView, usize)>,
    after: Seq<(TrackView, usize)>,
    order: SortOrder,
)
    requires
        is_sorted_from(before, after, SortState { field: SortField::Default, order }),
    ensures
        after == before,
{
    let state = SortState { field: SortField::Default, order };
    let places = Seq::new(before.len(), |i: int| i);
    assert(sorts(before, places, state));
    assert(taken_from(before, places) =~= before);
    lemma_sorting_is_determined(before, after, before, state);
}

/// Two tracks have the same value in a field.
pub open spec fn tied(a: TrackView, b: TrackView, field: SortField) -> bool {
    match field {
        SortField::Name => a.name == b.name,
        SortField::Album => a.album == b.album,
        SortField::Duration => a.duration_ms == b.duration_ms,
        SortField::Artist => a.artists.len() > 0 && b.artists.len() > 0 && a.artists[0]
            == b.artists[0],
        _ => false,
    }
}

/// Tracks that the field does not tell apart stay in the order in which they stood, whether the list
/// is sorted up or down: every track of the sorted list is from a place of its own, and of two that
/// are tied the earlier one is from the earlier place.
pub proof fn lemma_ties_stay_in_order(
    before: Seq<(TrackView, usize)>,
    after: Seq<(TrackView, usize)>,
    state: SortState,
)
    requires
        is_sorted_from(before, after, state),
    ensures
        after.len() == before.len(),
        exists|from: Seq<int>|
            {
                &&& #[trigger] from.len() == after.len()
                &&& from.no_duplicates()
                &&& forall|i: int|
                    0 <= i < after.len() ==> 0 <= #[trigger] from[i] < before.len() && after[i]
                        == before[from[i]]
                &&& forall|i: int, j: int|
                    0 <= i < j < after.len() && tied(after[i].0, after[j].0, state.field)
                        ==> #[trigger] from[i] < #[trigger] from[j]
            },
{
    let from = choose|places: Seq<int>|
        #[trigger] sorts(before, places, state) && after == taken_from(before, places);
    assert forall|i: int, j: int|
        0 <= i < j < after.len() && tied(after[i].0, after[j].0, state.field) implies #[trigger] from[i]
        < #[trigger] from[j] by {
        assert(comes_first(before, from[i], from[j], state));
        assert(after[i] == before[from[i]] && after[j] == before[from[j]]);
        lemma_text_order_decides(after[i].0.name, after[j].0.name);
        lemma_text_order_decides(after[i].0.album, after[j].0.album);
        lemma_text_order_decides(after[i].0.artists[0], after[j].0.artists[0]);
    }
    assert(from.len() == after.len());
    assert(from.no_duplicates());
    assert forall|i: int| 0 <= i < after.len() implies 0 <= #[trigger] from[i] < before.len()
        && after[i] == before[from[i]] by {}
}

} // verus!
