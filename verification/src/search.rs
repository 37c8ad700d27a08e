//! Which tracks of a playlist match a typed query: those in whose title, album or artists every
//! word of it occurs, whatever the case.

use vstd::prelude::*;

use crate::domain::{artist_names, FullTrack, FullTrackView, TrackInfo, TrackView};
use crate::text::{
    ascii_lowercase, ascii_text, blank, chars_of, contains_text, join_texts, joined, lacks,
    lemma_contained_in_joined, lemma_contained_on_a_side, lemma_lowercase_sum, lemma_trim_start_len,
    lemma_trimmed, lemma_word_len, lemma_words_have_no_space, lemma_words_of_sides, lowercase,
    lowercase_text, split_words, text_contains, texts, trim_start, white_space, word_len, words,
};

verus! {

/// The text is not empty.
pub open spec fn not_empty() -> spec_fn(Seq<char>) -> bool {
    |text: Seq<char>| text.len() > 0
}

/// Texts in small letters.
pub open spec fn all_lowercase(parts: Seq<Seq<char>>) -> Seq<Seq<char>> {
    Seq::new(parts.len(), |i: int| lowercase(parts[i]))
}

/// The terms of a query: its words, in small letters.
pub open spec fn search_terms(query: Seq<char>) -> Seq<Seq<char>> {
    all_lowercase(words(query)).filter(not_empty())
}

/// Texts, with their ASCII capital letters turned into small ones.
pub open spec fn all_ascii_lowercase(parts: Seq<Seq<char>>) -> Seq<Seq<char>> {
    Seq::new(parts.len(), |i: int| ascii_lowercase(parts[i]))
}

/// The terms of a query in ASCII characters.
pub open spec fn ascii_search_terms(query: Seq<char>) -> Seq<Seq<char>> {
    all_ascii_lowercase(words(query)).filter(not_empty())
}

proof fn lemma_trim_start_within(text: Seq<char>)
    ensures
        trim_start(text).len() <= text.len(),
        trim_start(text) == text.skip(text.len() - trim_start(text).len()),
    decreases text.len(),
{
    if text.len() > 0 && white_space(text[0]) {
        lemma_trim_start_within(text.skip(1));
        let k = text.len() - trim_start(text).len();
        assert(text.skip(1).skip(k - 1) =~= text.skip(k));
    } else {
        assert(text.skip(0) =~= text);
    }
}

/// The words of a text in ASCII characters are in ASCII characters.
proof fn lemma_ascii_words(text: Seq<char>)
    requires
        ascii_text(text),
    ensures
        forall|i: int| 0 <= i < words(text).len() ==> ascii_text(#[trigger] words(text)[i]),
    decreases text.len(),
{
    let rest = trim_start(text);
    if rest.len() > 0 {
        lemma_trim_start_within(text);
        lemma_trim_start_len(text);
        lemma_word_len(rest);
        lemma_word_len(rest.skip(1));
        let end = word_len(rest) as int;
        let skipped = text.len() - rest.len();
        assert forall|i: int| 0 <= i < rest.len() implies #[trigger] rest[i] <= '\u{7f}' by {
            assert(rest[i] == text[skipped + i]);
        }
        lemma_ascii_words(rest.skip(end));
        let first = rest.take(end);
        let others = words(rest.skip(end));
        assert(words(text) == seq![first] + others);
        assert forall|i: int| 0 <= i < words(text).len() implies ascii_text(
            #[trigger] words(text)[i],
        ) by {
            if i > 0 {
                assert(words(text)[i] == others[i - 1]);
            }
        }
    }
}

proof fn lemma_trim_start_lowercase(text: Seq<char>)
    ensures
        trim_start(ascii_lowercase(text)) == ascii_lowercase(trim_start(text)),
    decreases text.len(),
{
    let lower = ascii_lowercase(text);
    if text.len() > 0 && white_space(text[0]) {
        assert(lower.skip(1) =~= ascii_lowercase(text.skip(1)));
        lemma_trim_start_lowercase(text.skip(1));
    }
}

proof fn lemma_word_len_lowercase(text: Seq<char>)
    ensures
        word_len(ascii_lowercase(text)) == word_len(text),
    decreases text.len(),
{
    let lower = ascii_lowercase(text);
    if text.len() > 0 && !white_space(text[0]) {
        assert(lower.skip(1) =~= ascii_lowercase(text.skip(1)));
        lemma_word_len_lowercase(text.skip(1));
    }
}

/// Turning a text into small letters and taking its words can be done in either order.
proof fn lemma_words_lowercase(text: Seq<char>)
    ensures
        words(ascii_lowercase(text)) == all_ascii_lowercase(words(text)),
    decreases text.len(),
{
    let lower = ascii_lowercase(text);
    let rest = trim_start(text);
    lemma_trim_start_lowercase(text);
    if rest.len() > 0 {
        lemma_trim_start_len(text);
        lemma_word_len(rest);
        lemma_word_len(rest.skip(1));
        lemma_word_len_lowercase(rest);
        let end = word_len(rest) as int;
        let lower_rest = ascii_lowercase(rest);
        assert(lower_rest.take(end) =~= ascii_lowercase(rest.take(end)));
        assert(lower_rest.skip(end) =~= ascii_lowercase(rest.skip(end)));
        lemma_words_lowercase(rest.skip(end));
        let first = rest.take(end);
        let others = words(rest.skip(end));
        assert(words(text) == seq![first] + others);
        assert(words(lower) == seq![lower_rest.take(end)] + words(lower_rest.skip(end)));
        assert(all_ascii_lowercase(words(text)) =~= seq![ascii_lowercase(first)]
            + all_ascii_lowercase(others));
    } else {
        assert(all_ascii_lowercase(words(text)) =~= seq![]);
    }
}

/// The case in which a query is typed makes no difference: two queries in ASCII characters that
/// differ in case only have the same terms.
pub proof fn lemma_case_makes_no_difference(one: Seq<char>, other: Seq<char>)
    requires
        ascii_lowercase(one) == ascii_lowercase(other),
    ensures
        ascii_search_terms(one) == ascii_search_terms(other),
{
    lemma_words_lowercase(one);
    lemma_words_lowercase(other);
}

/// The texts that are not empty.
pub fn without_empty_texts(parts: &Vec<String>) -> (kept: Vec<String>)
    ensures
        kept.deep_view() == parts.deep_view().filter(not_empty()),
{
    let ghost all = parts.deep_view();
    let mut kept: Vec<String> = Vec::new();
    let mut i: usize = 0;
    assert(kept.deep_view() =~= all.take(0).filter(not_empty())) by {
        reveal(Seq::filter);
    }
    while i < parts.len()
        invariant
            i <= parts@.len(),
            all == parts.deep_view(),
            kept.deep_view() == all.take(i as int).filter(not_empty()),
        decreases parts@.len() - i,
    {
        assert(all.take(i + 1).drop_last() =~= all.take(i as int));
        assert(all.take(i + 1).last() == parts@[i as int]@);
        let ghost before = kept.deep_view();
        proof {
            reveal(Seq::filter);
        }
        if chars_of(parts[i].as_str()).len() > 0 {
            kept.push(parts[i].clone());
            assert(kept.deep_view() =~= before.push(parts@[i as int]@));
        }
        i += 1;
    }
    assert(all.take(i as int) =~= all);
    kept
}

/// The terms of a query.
pub fn playlist_track_search_terms(query: &str) -> (terms: Vec<String>)
    ensures
        terms.deep_view() == search_terms(query@),
        ascii_text(query@) ==> terms.deep_view() == ascii_search_terms(query@),
{
    let parts = split_words(query);
    let ghost all = all_lowercase(words(query@));
    let mut lowered: Vec<String> = Vec::new();
    let mut i: usize = 0;
    assert(lowered.deep_view() =~= all.take(0));
    proof {
        if ascii_text(query@) {
            lemma_ascii_words(query@);
        }
    }
    while i < parts.len()
        invariant
            i <= parts@.len(),
            parts.deep_view() == words(query@),
            all == all_lowercase(words(query@)),
            lowered.deep_view() == all.take(i as int),
            ascii_text(query@) ==> forall|k: int|
                0 <= k < words(query@).len() ==> ascii_text(#[trigger] words(query@)[k]),
            ascii_text(query@) ==> forall|k: int|
                0 <= k < i ==> #[trigger] all[k] == ascii_lowercase(words(query@)[k]),
        decreases parts@.len() - i,
    {
        let ghost before = lowered.deep_view();
        assert(parts.deep_view()[i as int] == parts@[i as int]@);
        lowered.push(lowercase_text(parts[i].as_str()));
        assert(lowered.deep_view() =~= before.push(all[i as int]));
        i += 1;
    }
    assert(lowered.deep_view() =~= all);
    assert(ascii_text(query@) ==> all =~= all_ascii_lowercase(words(query@)));
    without_empty_texts(&lowered)
}

/// Every term occurs in a text.
pub open spec fn has_all_terms(text: Seq<char>, terms: Seq<Seq<char>>) -> bool {
    forall|i: int| 0 <= i < terms.len() ==> contains_text(text, #[trigger] terms[i])
}

/// Whether every term occurs in a text.
pub fn text_has_all_terms(text: &str, terms: &Vec<String>) -> (matches: bool)
    ensures
        matches == has_all_terms(text@, terms.deep_view()),
{
    let mut i: usize = 0;
    while i < terms.len()
        invariant
            i <= terms@.len(),
            forall|k: int| 0 <= k < i ==> contains_text(text@, #[trigger] terms.deep_view()[k]),
        decreases terms@.len() - i,
    {
        assert(terms.deep_view()[i as int] == terms@[i as int]@);
        if !text_contains(text, terms[i].as_str()) {
            return false;
        }
        i += 1;
    }
    true
}

/// Texts, each behind a space.
pub open spec fn each_behind_space(parts: Seq<Seq<char>>) -> Seq<char>
    decreases parts.len(),
{
    if parts.len() == 0 {
        seq![]
    } else {
        each_behind_space(parts.drop_last()) + " "@ + parts.last()
    }
}

/// What of a track of the Web API is searched: its title, its album and its artists.
pub open spec fn full_track_text(track: FullTrackView) -> Seq<char> {
    track.name + " "@ + track.album_name + each_behind_space(artist_names(track.artists))
}

/// What of a track of the Web API is searched, in small letters.
pub fn playlist_track_search_haystack(track: &FullTrack) -> (haystack: String)
    ensures
        haystack@ == lowercase(full_track_text(track.deep_view())),
        ascii_text(full_track_text(track.deep_view())) ==> haystack@ == ascii_lowercase(
            full_track_text(track.deep_view()),
        ),
{
    let ghost names = artist_names(track.artists.deep_view());
    let mut text = track.name.clone();
    text.append(" ");
    text.append(track.album_name.as_str());
    let ghost head = text@;
    let mut i: usize = 0;
    assert(names.take(0) =~= seq![]);
    assert(head + each_behind_space(names.take(0)) =~= head);
    while i < track.artists.len()
        invariant
            i <= track.artists@.len(),
            names == artist_names(track.artists.deep_view()),
            text@ == head + each_behind_space(names.take(i as int)),
        decreases track.artists@.len() - i,
    {
        assert(names.take(i + 1).drop_last() =~= names.take(i as int));
        assert(names.take(i + 1).last() == track.artists@[i as int].name@);
        text.append(" ");
        text.append(track.artists[i].name.as_str());
        assert(text@ =~= head + each_behind_space(names.take(i + 1)));
        i += 1;
    }
    assert(names.take(i as int) =~= names);
    lowercase_text(text.as_str())
}

/// Whether a track of the Web API matches the terms of a query.
pub fn playlist_track_matches_terms(track: &FullTrack, terms: &Vec<String>) -> (matches: bool)
    ensures
        matches == has_all_terms(
            lowercase(full_track_text(track.deep_view())),
            terms.deep_view(),
        ),
        ascii_text(full_track_text(track.deep_view())) ==> matches == has_all_terms(
            ascii_lowercase(full_track_text(track.deep_view())),
            terms.deep_view(),
        ),
{
    let haystack = playlist_track_search_haystack(track);
    text_has_all_terms(haystack.as_str(), terms)
}

/// What of a track is searched: its title, its album and its artists.
pub open spec fn track_text(track: TrackView) -> Seq<char> {
    track.name + " "@ + track.album + " "@ + joined(track.artists, " "@)
}

/// A track matches the terms of a query.
pub open spec fn track_matches(track: TrackView, terms: Seq<Seq<char>>) -> bool {
    has_all_terms(lowercase(track_text(track)), terms)
}

/// Whether a track matches the terms of a query.
pub fn playlist_track_info_matches_terms(track: &TrackInfo, terms: &Vec<String>) -> (matches: bool)
    ensures
        matches == track_matches(track.deep_view(), terms.deep_view()),
        ascii_text(track_text(track.deep_view())) ==> matches == has_all_terms(
            ascii_lowercase(track_text(track.deep_view())),
            terms.deep_view(),
        ),
        ascii_track(track.deep_view()) && (forall|i: int|
            0 <= i < terms@.len() ==> is_term(#[trigger] terms.deep_view()[i])) ==> matches == (
        forall|i: int|
            0 <= i < terms@.len() ==> found_in_track(
                track.deep_view(),
                #[trigger] terms.deep_view()[i],
            )),
{
    proof {
        if ascii_track(track.deep_view()) {
            lemma_track_text_ascii(track.deep_view());
        }
        assert forall|i: int|
            0 <= i < terms@.len() && is_term(#[trigger] terms.deep_view()[i]) implies (contains_text(
            ascii_lowercase(track_text(track.deep_view())),
            terms.deep_view()[i],
        ) <==> found_in_track(track.deep_view(), terms.deep_view()[i])) by {
            lemma_search_covers_track_in_any_case(track.deep_view(), terms.deep_view()[i]);
        }
    }
    let mut text = track.name.clone();
    text.append(" ");
    text.append(track.album.as_str());
    text.append(" ");
    let artists = join_texts(track.artists.as_slice(), " ");
    assert(texts(track.artists@) =~= track.artists.deep_view());
    text.append(artists.as_str());
    let haystack = lowercase_text(text.as_str());
    text_has_all_terms(haystack.as_str(), terms)
}

/// A longer query never matches more tracks.
pub proof fn lemma_more_terms_match_less(
    track: TrackView,
    terms: Seq<Seq<char>>,
    more: Seq<Seq<char>>,
)
    requires
        track_matches(track, terms + more),
    ensures
        track_matches(track, terms),
        track_matches(track, more),
{
    let all = terms + more;
    let text = lowercase(track_text(track));
    assert forall|i: int| 0 <= i < terms.len() implies contains_text(text, #[trigger] terms[i]) by {
        assert(all[i] == terms[i]);
    }
    assert forall|i: int| 0 <= i < more.len() implies contains_text(text, #[trigger] more[i]) by {
        assert(all[terms.len() + i] == more[i]);
    }
}

/// A term that can be looked for: it is not empty and has no space.
pub open spec fn is_term(term: Seq<char>) -> bool {
    term.len() > 0 && lacks(term, ' ')
}

/// A term stands in the title of a track, in its album or in the name of one of its artists.
pub open spec fn stands_in_track(track: TrackView, term: Seq<char>) -> bool {
    ||| contains_text(track.name, term)
    ||| contains_text(track.album, term)
    ||| exists|i: int|
        0 <= i < track.artists.len() && contains_text(#[trigger] track.artists[i], term)
}

/// A term stands, in whatever case, in the title of a track, in its album or in the name of one of
/// its artists.
pub open spec fn found_in_track(track: TrackView, term: Seq<char>) -> bool {
    ||| contains_text(ascii_lowercase(track.name), term)
    ||| contains_text(ascii_lowercase(track.album), term)
    ||| exists|i: int|
        0 <= i < track.artists.len() && contains_text(
            ascii_lowercase(#[trigger] track.artists[i]),
            term,
        )
}

/// The title, the album and the artists of a track are in ASCII characters.
pub open spec fn ascii_track(track: TrackView) -> bool {
    &&& ascii_text(track.name)
    &&& ascii_text(track.album)
    &&& forall|i: int| 0 <= i < track.artists.len() ==> ascii_text(#[trigger] track.artists[i])
}

proof fn lemma_joined_lowercase(parts: Seq<Seq<char>>, separator: Seq<char>)
    ensures
        ascii_lowercase(joined(parts, separator)) == joined(
            all_ascii_lowercase(parts),
            ascii_lowercase(separator),
        ),
    decreases parts.len(),
{
    let lower = all_ascii_lowercase(parts);
    if parts.len() == 0 {
        assert(ascii_lowercase(joined(parts, separator)) =~= seq![]);
    } else if parts.len() > 1 {
        let before = parts.drop_last();
        lemma_joined_lowercase(before, separator);
        assert(all_ascii_lowercase(before) =~= lower.drop_last());
        assert(lower.last() == ascii_lowercase(parts.last()));
        lemma_lowercase_sum(joined(before, separator) + separator, parts.last());
        lemma_lowercase_sum(joined(before, separator), separator);
    }
}

proof fn lemma_joined_ascii(parts: Seq<Seq<char>>, separator: Seq<char>)
    requires
        ascii_text(separator),
        forall|i: int| 0 <= i < parts.len() ==> ascii_text(#[trigger] parts[i]),
    ensures
        ascii_text(joined(parts, separator)),
    decreases parts.len(),
{
    if parts.len() > 1 {
        let before = parts.drop_last();
        assert forall|i: int| 0 <= i < before.len() implies ascii_text(#[trigger] before[i]) by {
            assert(before[i] == parts[i]);
        }
        lemma_joined_ascii(before, separator);
        assert(ascii_text(parts[parts.len() - 1]));
    }
}

proof fn lemma_track_text_ascii(track: TrackView)
    requires
        ascii_track(track),
    ensures
        ascii_text(track_text(track)),
{
    reveal_strlit(" ");
    assert(" "@[0] == ' ');
    lemma_joined_ascii(track.artists, " "@);
}

/// What is searched of a track is its title, its album and its artists, all of them and nothing
/// else: a term stands in it where it stands in one of them.
pub proof fn lemma_search_covers_track(track: TrackView, term: Seq<char>)
    requires
        is_term(term),
    ensures
        contains_text(track_text(track), term) <==> stands_in_track(track, term),
{
    reveal_strlit(" ");
    assert(" "@ =~= seq![' ']);
    lemma_contained_on_a_side(track.name, ' ', track.album, term);
    lemma_contained_on_a_side(
        track.name + seq![' '] + track.album,
        ' ',
        joined(track.artists, seq![' ']),
        term,
    );
    lemma_contained_in_joined(track.artists, ' ', term);
}

/// The same, whatever the case.
pub proof fn lemma_search_covers_track_in_any_case(track: TrackView, term: Seq<char>)
    requires
        is_term(term),
    ensures
        contains_text(ascii_lowercase(track_text(track)), term) <==> found_in_track(track, term),
{
    let lower = TrackView {
        name: ascii_lowercase(track.name),
        album: ascii_lowercase(track.album),
        artists: all_ascii_lowercase(track.artists),
        ..track
    };
    reveal_strlit(" ");
    assert(" "@ =~= seq![' ']);
    assert(ascii_lowercase(" "@) =~= " "@);
    lemma_joined_lowercase(track.artists, " "@);
    lemma_lowercase_sum(track.name + " "@ + track.album + " "@, joined(track.artists, " "@));
    lemma_lowercase_sum(track.name + " "@ + track.album, " "@);
    lemma_lowercase_sum(track.name + " "@, track.album);
    lemma_lowercase_sum(track.name, " "@);
    assert(ascii_lowercase(track_text(track)) == track_text(lower));
    lemma_search_covers_track(lower, term);
    if exists|i: int|
        0 <= i < lower.artists.len() && contains_text(#[trigger] lower.artists[i], term) {
        let i = choose|i: int|
            0 <= i < lower.artists.len() && contains_text(#[trigger] lower.artists[i], term);
        assert(contains_text(ascii_lowercase(track.artists[i]), term));
    }
    if exists|i: int|
        0 <= i < track.artists.len() && contains_text(
            ascii_lowercase(#[trigger] track.artists[i]),
            term,
        ) {
        let i = choose|i: int|
            0 <= i < track.artists.len() && contains_text(
                ascii_lowercase(#[trigger] track.artists[i]),
                term,
            );
        assert(contains_text(lower.artists[i], term));
    }
}

/// A term stands in the title of a track of the Web API, in its album or in the name of one of its
/// artists.
pub open spec fn stands_in_full_track(track: FullTrackView, term: Seq<char>) -> bool {
    ||| contains_text(track.name, term)
    ||| contains_text(track.album_name, term)
    ||| exists|i: int|
        0 <= i < track.artists.len() && contains_text((#[trigger] track.artists[i]).name, term)
}

proof fn lemma_contained_behind_space(parts: Seq<Seq<char>>, head: Seq<char>, term: Seq<char>)
    requires
        is_term(term),
    ensures
        contains_text(head + each_behind_space(parts), term) <==> contains_text(head, term) || exists|
            i: int,
        |
            0 <= i < parts.len() && contains_text(#[trigger] parts[i], term),
    decreases parts.len(),
{
    reveal_strlit(" ");
    assert(" "@ =~= seq![' ']);
    if parts.len() == 0 {
        assert(head + each_behind_space(parts) =~= head);
    } else {
        let before = parts.drop_last();
        lemma_contained_behind_space(before, head, term);
        let left = head + each_behind_space(before);
        lemma_contained_on_a_side(left, ' ', parts.last(), term);
        assert(head + each_behind_space(parts) =~= left + seq![' '] + parts.last());
        if exists|i: int| 0 <= i < parts.len() && contains_text(#[trigger] parts[i], term) {
            let i = choose|i: int| 0 <= i < parts.len() && contains_text(#[trigger] parts[i], term);
            if i < before.len() {
                assert(contains_text(before[i], term));
            }
        }
        if exists|i: int| 0 <= i < before.len() && contains_text(#[trigger] before[i], term) {
            let i = choose|i: int|
                0 <= i < before.len() && contains_text(#[trigger] before[i], term);
            assert(contains_text(parts[i], term));
        }
        if contains_text(parts.last(), term) {
            assert(contains_text(parts[parts.len() - 1], term));
        }
    }
}

/// What is searched of a track of the Web API is its title, its album and its artists, all of them
/// and nothing else.
pub proof fn lemma_search_covers_full_track(track: FullTrackView, term: Seq<char>)
    requires
        is_term(term),
    ensures
        contains_text(full_track_text(track), term) <==> stands_in_full_track(track, term),
{
    reveal_strlit(" ");
    assert(" "@ =~= seq![' ']);
    let names = artist_names(track.artists);
    lemma_contained_behind_space(names, track.name + " "@ + track.album_name, term);
    lemma_contained_on_a_side(track.name, ' ', track.album_name, term);
    if exists|i: int| 0 <= i < names.len() && contains_text(#[trigger] names[i], term) {
        let i = choose|i: int| 0 <= i < names.len() && contains_text(#[trigger] names[i], term);
        assert(contains_text(track.artists[i].name, term));
    }
    if exists|i: int|
        0 <= i < track.artists.len() && contains_text((#[trigger] track.artists[i]).name, term) {
        let i = choose|i: int|
            0 <= i < track.artists.len() && contains_text((#[trigger] track.artists[i]).name, term);
        assert(contains_text(names[i], term));
    }
}

proof fn lemma_filter_keeps_all(parts: Seq<Seq<char>>)
    requires
        forall|i: int| 0 <= i < parts.len() ==> (#[trigger] parts[i]).len() > 0,
    ensures
        parts.filter(not_empty()) == parts,
    decreases parts.len(),
{
    reveal(Seq::filter);
    if parts.len() > 0 {
        assert(parts[parts.len() - 1].len() > 0);
        lemma_filter_keeps_all(parts.drop_last());
        assert(parts.drop_last().push(parts.last()) =~= parts);
    }
}

/// The terms of a query are its words, one term for each in its place, in small letters.
pub proof fn lemma_terms_are_words(query: Seq<char>)
    ensures
        ascii_search_terms(query).len() == words(query).len(),
        forall|i: int|
            0 <= i < words(query).len() ==> #[trigger] ascii_search_terms(query)[i]
                == ascii_lowercase(words(query)[i]) && is_term(ascii_search_terms(query)[i]),
{
    let lower = all_ascii_lowercase(words(query));
    assert forall|i: int| 0 <= i < lower.len() implies (#[trigger] lower[i]).len() > 0 && is_term(
        lower[i],
    ) by {
        lemma_words_have_no_space(query, i);
        let word = words(query)[i];
        assert forall|k: int| 0 <= k < lower[i].len() implies #[trigger] lower[i][k] != ' ' by {
            assert(!white_space(word[k]));
        }
    }
    lemma_filter_keeps_all(lower);
}

/// A track is found by a query where every word of it stands, in whatever case, in the title, in the
/// album or in the name of an artist.
pub proof fn lemma_query_finds_track(track: TrackView, query: Seq<char>)
    ensures
        has_all_terms(ascii_lowercase(track_text(track)), ascii_search_terms(query)) <==> forall|
            i: int,
        |
            0 <= i < words(query).len() ==> found_in_track(
                track,
                ascii_lowercase(#[trigger] words(query)[i]),
            ),
{
    let terms = ascii_search_terms(query);
    let text = ascii_lowercase(track_text(track));
    lemma_terms_are_words(query);
    assert forall|i: int| 0 <= i < terms.len() implies (contains_text(text, #[trigger] terms[i])
        <==> found_in_track(track, ascii_lowercase(words(query)[i]))) by {
        assert(terms[i] == ascii_lowercase(words(query)[i]));
        lemma_search_covers_track_in_any_case(track, terms[i]);
    }
    if has_all_terms(text, terms) {
        assert forall|i: int| 0 <= i < words(query).len() implies found_in_track(
            track,
            ascii_lowercase(#[trigger] words(query)[i]),
        ) by {
            assert(contains_text(text, terms[i]));
        }
    }
    if forall|i: int|
        0 <= i < words(query).len() ==> found_in_track(
            track,
            ascii_lowercase(#[trigger] words(query)[i]),
        ) {
        assert forall|i: int| 0 <= i < terms.len() implies contains_text(
            text,
            #[trigger] terms[i],
        ) by {
            assert(found_in_track(track, ascii_lowercase(words(query)[i])));
        }
    }
}

/// A query without words finds every track.
pub proof fn lemma_no_terms_find_all(track: TrackView, query: Seq<char>)
    requires
        blank(query),
    ensures
        search_terms(query).len() == 0,
        track_matches(track, search_terms(query)),
{
    lemma_trimmed(query);
    lemma_trim_start_len(query);
    if trim_start(query).len() > 0 {
        lemma_trim_start_within(query);
        assert(trim_start(query)[0] == query[query.len() - trim_start(query).len()]);
    }
    assert(words(query).len() == 0);
    assert(all_lowercase(words(query)) =~= seq![]);
    reveal(Seq::filter);
}

/// The terms of a query are the words of it, each in small letters, and nothing else; those on both
/// sides of a white space are the terms of the whole.
pub proof fn lemma_terms_of_sides(
    left: Seq<char>,
    c: char,
    right: Seq<char>,
    term: Seq<char>,
)
    requires
        white_space(c),
    ensures
        search_terms(left + seq![c] + right) == search_terms(left) + search_terms(right),
        search_terms(left).contains(term) <==> term.len() > 0 && exists|i: int|
            0 <= i < words(left).len() && lowercase(#[trigger] words(left)[i]) == term,
{
    lemma_words_of_sides(left, c, right);
    let a = all_lowercase(words(left));
    let b = all_lowercase(words(right));
    assert(all_lowercase(words(left) + words(right)) =~= a + b);
    lemma_not_empty_halves(a, b);
    if a.filter(not_empty()).contains(term) {
        a.lemma_filter_contains_rev(not_empty(), term);
        let i = choose|i: int| 0 <= i < a.len() && a[i] == term;
        assert(lowercase(words(left)[i]) == term);
    }
    if term.len() > 0 && exists|i: int|
        0 <= i < words(left).len() && lowercase(#[trigger] words(left)[i]) == term {
        let i = choose|i: int|
            0 <= i < words(left).len() && lowercase(#[trigger] words(left)[i]) == term;
        assert(a[i] == term);
        a.lemma_filter_contains(not_empty(), i);
    }
}

proof fn lemma_not_empty_halves(left: Seq<Seq<char>>, right: Seq<Seq<char>>)
    ensures
        (left + right).filter(not_empty()) == left.filter(not_empty()) + right.filter(not_empty()),
    decreases right.len(),
{
    reveal(Seq::filter);
    if right.len() == 0 {
        assert(left + right =~= left);
        assert(left.filter(not_empty()) + right.filter(not_empty()) =~= left.filter(not_empty()));
    } else {
        lemma_not_empty_halves(left, right.drop_last());
        assert((left + right).drop_last() =~= left + right.drop_last());
        assert((left + right).filter(not_empty()) =~= left.filter(not_empty()) + right.filter(
            not_empty(),
        ));
    }
}

/// A track matches terms where it matches each of them, and it matches one where the term stands in
/// what is searched of it, in small letters.
pub proof fn lemma_terms_match_together(
    track: TrackView,
    terms: Seq<Seq<char>>,
    more: Seq<Seq<char>>,
    term: Seq<char>,
)
    ensures
        track_matches(track, terms + more) <==> track_matches(track, terms) && track_matches(
            track,
            more,
        ),
        track_matches(track, seq![term]) <==> contains_text(lowercase(track_text(track)), term),
        track_matches(track, seq![]),
{
    let all = terms + more;
    if track_matches(track, all) {
        lemma_more_terms_match_less(track, terms, more);
    }
    if track_matches(track, terms) && track_matches(track, more) {
        let text = lowercase(track_text(track));
        assert forall|i: int| 0 <= i < all.len() implies contains_text(text, #[trigger] all[i]) by {
            if i < terms.len() {
                assert(all[i] == terms[i]);
            } else {
                assert(all[i] == more[i - terms.len()]);
            }
        }
    }
    assert(seq![term][0] == term);
}

/// What is searched of a track of the Web API is searched whatever the case: a term stands in it where
/// it stands, in small letters, in its title, its album or the name of an artist.
pub proof fn lemma_search_covers_full_track_in_any_case(track: FullTrackView, term: Seq<char>)
    requires
        is_term(term),
    ensures
        contains_text(ascii_lowercase(full_track_text(track)), term) <==> {
            ||| contains_text(ascii_lowercase(track.name), term)
            ||| contains_text(ascii_lowercase(track.album_name), term)
            ||| exists|i: int|
                0 <= i < track.artists.len() && contains_text(
                    ascii_lowercase((#[trigger] track.artists[i]).name),
                    term,
                )
        },
{
    reveal_strlit(" ");
    assert(" "@ =~= seq![' ']);
    assert(ascii_lowercase(" "@) =~= " "@);
    let names = artist_names(track.artists);
    let lower = all_ascii_lowercase(names);
    let head = track.name + " "@ + track.album_name;
    lemma_behind_space_lowercase(names);
    lemma_lowercase_sum(head, each_behind_space(names));
    lemma_lowercase_sum(track.name + " "@, track.album_name);
    lemma_lowercase_sum(track.name, " "@);
    let low_head = ascii_lowercase(track.name) + " "@ + ascii_lowercase(track.album_name);
    assert(ascii_lowercase(full_track_text(track)) == low_head + each_behind_space(lower));
    lemma_contained_behind_space(lower, low_head, term);
    lemma_contained_on_a_side(
        ascii_lowercase(track.name),
        ' ',
        ascii_lowercase(track.album_name),
        term,
    );
    if exists|i: int| 0 <= i < lower.len() && contains_text(#[trigger] lower[i], term) {
        let i = choose|i: int| 0 <= i < lower.len() && contains_text(#[trigger] lower[i], term);
        assert(contains_text(ascii_lowercase(track.artists[i].name), term));
    }
    if exists|i: int|
        0 <= i < track.artists.len() && contains_text(
            ascii_lowercase((#[trigger] track.artists[i]).name),
            term,
        ) {
        let i = choose|i: int|
            0 <= i < track.artists.len() && contains_text(
                ascii_lowercase((#[trigger] track.artists[i]).name),
                term,
            );
        assert(contains_text(lower[i], term));
    }
}

proof fn lemma_behind_space_lowercase(parts: Seq<Seq<char>>)
    ensures
        ascii_lowercase(each_behind_space(parts)) == each_behind_space(all_ascii_lowercase(parts)),
    decreases parts.len(),
{
    reveal_strlit(" ");
    assert(ascii_lowercase(" "@) =~= " "@);
    let lower = all_ascii_lowercase(parts);
    if parts.len() == 0 {
        assert(ascii_lowercase(each_behind_space(parts)) =~= each_behind_space(lower));
    } else {
        let before = parts.drop_last();
        lemma_behind_space_lowercase(before);
        assert(all_ascii_lowercase(before) =~= lower.drop_last());
        lemma_lowercase_sum(each_behind_space(before) + " "@, parts.last());
        lemma_lowercase_sum(each_behind_space(before), " "@);
    }
}

} // verus!
