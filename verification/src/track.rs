//! Tracks, their order by name, and the choice of a playlist.

use crate::text::{append_chars, chars_of, same_chars, string_of};
use std::cmp::Ordering;
use vstd::prelude::*;
use vstd::std_specs::cmp::{PartialEqSpecImpl, PartialOrdSpecImpl};

verus! {

/// A playable unit: its name, by which nodes refer to it on the wire, and
/// its length in milliseconds.
#[derive(Debug)]
pub struct Track {
    pub name: String,
    pub duration: u64,
}

/// What a track is to the contracts: the characters of its name and its
/// length.
pub struct TrackView {
    pub name: Seq<char>,
    pub duration: u64,
}

impl View for Track {
    type V = TrackView;

    open spec fn view(&self) -> TrackView {
        TrackView { name: self.name@, duration: self.duration }
    }
}

/// The views of a sequence of tracks.
pub open spec fn track_views(tracks: Seq<Track>) -> Seq<TrackView> {
    Seq::new(tracks.len(), |i: int| tracks[i]@)
}

/// The views of a sequence of names.
pub open spec fn name_views(names: Seq<String>) -> Seq<Seq<char>> {
    Seq::new(names.len(), |i: int| names[i]@)
}

impl Clone for Track {
    fn clone(&self) -> (copy: Self)
        ensures
            copy == *self,
    {
        Track { name: self.name.clone(), duration: self.duration }
    }
}

impl PartialEq for Track {
    fn eq(&self, other: &Self) -> (equal: bool) {
        self.name == other.name && self.duration == other.duration
    }
}

impl PartialEqSpecImpl for Track {
    open spec fn obeys_eq_spec() -> bool {
        true
    }

    open spec fn eq_spec(&self, other: &Self) -> bool {
        self.name@ == other.name@ && self.duration == other.duration
    }
}

impl Eq for Track {

}

/// Whether `a` comes strictly before `b` in lexicographic order, character
/// by character, a proper prefix before what it is a prefix of.
pub open spec fn precedes(a: Seq<char>, b: Seq<char>) -> bool
    decreases a.len(),
{
    if b.len() == 0 {
        false
    } else if a.len() == 0 {
        true
    } else if a.first() != b.first() {
        (a.first() as u32) < (b.first() as u32)
    } else {
        precedes(a.drop_first(), b.drop_first())
    }
}

/// No name comes before itself.
pub proof fn lemma_precedes_irreflexive(a: Seq<char>)
    ensures
        !precedes(a, a),
    decreases a.len(),
{
    if a.len() > 0 {
        lemma_precedes_irreflexive(a.drop_first());
    }
}

/// Of two different names one comes before the other, and never both.
pub proof fn lemma_precedes_total(a: Seq<char>, b: Seq<char>)
    ensures
        a != b ==> (precedes(a, b) || precedes(b, a)),
        !(precedes(a, b) && precedes(b, a)),
    decreases a.len(),
{
    if a.len() == 0 || b.len() == 0 {
        if a.len() == 0 && b.len() == 0 {
            assert(a =~= b);
        }
    } else if a.first() != b.first() {
        vstd::utf8::char_u32_cast(a.first(), a.first() as u32);
        vstd::utf8::char_u32_cast(b.first(), b.first() as u32);
    } else {
        lemma_precedes_total(a.drop_first(), b.drop_first());
        if a.drop_first() == b.drop_first() {
            assert(a =~= seq![a.first()] + a.drop_first());
            assert(b =~= seq![b.first()] + b.drop_first());
        }
    }
}

/// The order of names is transitive.
pub proof fn lemma_precedes_transitive(a: Seq<char>, b: Seq<char>, c: Seq<char>)
    requires
        precedes(a, b),
        precedes(b, c),
    ensures
        precedes(a, c),
    decreases a.len(),
{
    if a.len() > 0 && a.first() == b.first() && b.first() == c.first() {
        lemma_precedes_transitive(a.drop_first(), b.drop_first(), c.drop_first());
    }
}

/// Whether the name `a` comes strictly before the name `b`.
pub fn name_precedes(a: &String, b: &String) -> (before: bool)
    ensures
        before == precedes(a@, b@),
{
    let x = chars_of(a.as_str());
    let y = chars_of(b.as_str());
    let mut i: usize = 0;
    assert(x@.skip(0) == x@ && y@.skip(0) == y@);
    while i < x.len() && i < y.len() && x[i] == y[i]
        invariant
            i <= x.len(),
            i <= y.len(),
            precedes(x@, y@) == precedes(x@.skip(i as int), y@.skip(i as int)),
        decreases x.len() - i,
    {
        assert(x@.skip(i as int).drop_first() == x@.skip(i as int + 1));
        assert(y@.skip(i as int).drop_first() == y@.skip(i as int + 1));
        i += 1;
    }
    if i == y.len() {
        false
    } else if i == x.len() {
        true
    } else {
        (x[i] as u32) < (y[i] as u32)
    }
}

impl PartialOrd for Track {
    fn partial_cmp(&self, other: &Self) -> (order: Option<Ordering>) {
        if name_precedes(&self.name, &other.name) {
            Some(Ordering::Less)
        } else if name_precedes(&other.name, &self.name) {
            Some(Ordering::Greater)
        } else {
            Some(Ordering::Equal)
        }
    }
}

impl PartialOrdSpecImpl for Track {
    open spec fn obeys_partial_cmp_spec() -> bool {
        true
    }

    open spec fn partial_cmp_spec(&self, other: &Self) -> Option<Ordering> {
        if precedes(self.name@, other.name@) {
            Some(Ordering::Less)
        } else if precedes(other.name@, self.name@) {
            Some(Ordering::Greater)
        } else {
            Some(Ordering::Equal)
        }
    }
}

/// Whether a file with the given extension holds a track: the extension has
/// to be `mp3`, in lower case.
pub fn is_audio_extension(extension: &str) -> (audio: bool)
    ensures
        audio == (extension@ == "mp3"@),
{
    same_chars(&chars_of(extension), &chars_of("mp3"))
}

/// The path of the file that holds the track of the given name: the media
/// directory, a `/`, the name, and the extension `.mp3`.
pub fn track_path(media_dir: &str, name: &str) -> (path: String)
    ensures
        path@ == media_dir@ + "/"@ + name@ + ".mp3"@,
{
    let mut out = chars_of(media_dir);
    append_chars(&mut out, &chars_of("/"));
    append_chars(&mut out, &chars_of(name));
    append_chars(&mut out, &chars_of(".mp3"));
    string_of(&out)
}

/// Whether the names never step down from one track to the next.
pub open spec fn ordered_by_name(tracks: Seq<TrackView>) -> bool {
    forall|i: int, j: int| 0 <= i < j < tracks.len() ==> !precedes(tracks[j].name, tracks[i].name)
}

/// `sorted` with `track` put in behind the tracks whose names come before
/// its own and in front of all others.
pub open spec fn insert_by_name(sorted: Seq<TrackView>, track: TrackView) -> Seq<TrackView>
    decreases sorted.len(),
{
    if sorted.len() > 0 && precedes(sorted.first().name, track.name) {
        seq![sorted.first()] + insert_by_name(sorted.drop_first(), track)
    } else {
        seq![track] + sorted
    }
}

/// The tracks in the order of their names; tracks of one name keep the
/// order they came in.
pub open spec fn sorted_by_name(tracks: Seq<TrackView>) -> Seq<TrackView>
    decreases tracks.len(),
{
    if tracks.len() == 0 {
        tracks
    } else {
        insert_by_name(sorted_by_name(tracks.drop_first()), tracks.first())
    }
}

/// `insert_by_name` puts the track at the first position whose track does
/// not come before it by name.
pub proof fn lemma_insert_position(sorted: Seq<TrackView>, track: TrackView, p: int)
    requires
        0 <= p <= sorted.len(),
        forall|j: int| 0 <= j < p ==> precedes(#[trigger] sorted[j].name, track.name),
        p < sorted.len() ==> !precedes(sorted[p].name, track.name),
    ensures
        insert_by_name(sorted, track) == sorted.insert(p, track),
    decreases sorted.len(),
{
    if p == 0 {
        assert(seq![track] + sorted =~= sorted.insert(0, track));
    } else {
        let rest = sorted.drop_first();
        assert(precedes(sorted[0].name, track.name));
        assert forall|j: int| 0 <= j < p - 1 implies precedes(
            #[trigger] rest[j].name,
            track.name,
        ) by {
            assert(rest[j] == sorted[j + 1]);
        }
        lemma_insert_position(rest, track, p - 1);
        assert(seq![sorted.first()] + rest.insert(p - 1, track) =~= sorted.insert(p, track));
    }
}

/// Putting a track into ordered tracks leaves them ordered, one longer, and
/// holding what they held and the new track.
pub proof fn lemma_insert_by_name(sorted: Seq<TrackView>, track: TrackView)
    requires
        ordered_by_name(sorted),
    ensures
        ordered_by_name(insert_by_name(sorted, track)),
        insert_by_name(sorted, track).len() == sorted.len() + 1,
        insert_by_name(sorted, track).to_multiset() == sorted.to_multiset().insert(track),
    decreases sorted.len(),
{
    broadcast use vstd::seq_lib::group_to_multiset_ensures;

    let out = insert_by_name(sorted, track);
    if sorted.len() > 0 && precedes(sorted.first().name, track.name) {
        let head = sorted.first();
        let rest = sorted.drop_first();
        assert forall|i: int, j: int| 0 <= i < j < rest.len() implies !precedes(
            rest[j].name,
            rest[i].name,
        ) by {
            assert(rest[i] == sorted[i + 1] && rest[j] == sorted[j + 1]);
        }
        lemma_insert_by_name(rest, track);
        let tail = insert_by_name(rest, track);
        assert(out == seq![head] + tail);
        assert forall|i: int, j: int| 0 <= i < j < out.len() implies !precedes(
            out[j].name,
            out[i].name,
        ) by {
            if i == 0 {
                // every track of `tail` is `track` or a track of `rest`
                assert(tail.to_multiset().count(tail[j - 1]) > 0);
                if tail[j - 1] == track {
                    lemma_precedes_total(head.name, track.name);
                } else {
                    assert(rest.to_multiset().count(tail[j - 1]) > 0);
                    let k = choose|k: int| 0 <= k < rest.len() && rest[k] == tail[j - 1];
                    assert(rest[k] == sorted[k + 1]);
                }
            } else {
                assert(out[i] == tail[i - 1] && out[j] == tail[j - 1]);
            }
        }
        assert(sorted =~= seq![head] + rest);
        vstd::seq_lib::lemma_multiset_commutative(seq![head], tail);
        vstd::seq_lib::lemma_multiset_commutative(seq![head], rest);
    } else {
        assert(out == seq![track] + sorted);
        assert forall|i: int, j: int| 0 <= i < j < out.len() implies !precedes(
            out[j].name,
            out[i].name,
        ) by {
            if i == 0 {
                assert(out[j] == sorted[j - 1]);
                if j - 1 > 0 {
                    // sorted[0] does not come before `track`, and sorted[j - 1]
                    // does not come before sorted[0]
                    if precedes(sorted[j - 1].name, track.name) {
                        lemma_precedes_total(sorted[0].name, sorted[j - 1].name);
                        if sorted[0].name != sorted[j - 1].name {
                            lemma_precedes_transitive(
                                sorted[0].name,
                                sorted[j - 1].name,
                                track.name,
                            );
                        }
                    }
                }
            } else {
                assert(out[i] == sorted[i - 1] && out[j] == sorted[j - 1]);
            }
        }
        vstd::seq_lib::lemma_multiset_commutative(seq![track], sorted);
    }
}

/// Sorting by name gives the same tracks, each as often as before, in an
/// order in which no name steps down.
pub proof fn lemma_sorted_by_name(tracks: Seq<TrackView>)
    ensures
        ordered_by_name(sorted_by_name(tracks)),
        sorted_by_name(tracks).len() == tracks.len(),
        sorted_by_name(tracks).to_multiset() == tracks.to_multiset(),
    decreases tracks.len(),
{
    broadcast use vstd::seq_lib::group_to_multiset_ensures;

    if tracks.len() > 0 {
        let rest = tracks.drop_first();
        lemma_sorted_by_name(rest);
        lemma_insert_by_name(sorted_by_name(rest), tracks.first());
        assert(tracks =~= seq![tracks.first()] + rest);
        vstd::seq_lib::lemma_multiset_commutative(seq![tracks.first()], rest);
    }
}

/// Tracks that are in order stay as they are when sorted.
pub proof fn lemma_sorted_stays(tracks: Seq<TrackView>)
    requires
        ordered_by_name(tracks),
    ensures
        sorted_by_name(tracks) == tracks,
    decreases tracks.len(),
{
    if tracks.len() > 0 {
        let rest = tracks.drop_first();
        assert forall|i: int, j: int| 0 <= i < j < rest.len() implies !precedes(
            rest[j].name,
            rest[i].name,
        ) by {
            assert(rest[i] == tracks[i + 1] && rest[j] == tracks[j + 1]);
        }
        lemma_sorted_stays(rest);
        if rest.len() > 0 {
            assert(rest.first() == tracks[1]);
        }
        assert(seq![tracks.first()] + rest =~= tracks);
    }
}

/// Puts the tracks in the order of their names, lexicographic by character.
/// Tracks of one name keep the order they came in.
pub fn sort_tracks(tracks: &mut Vec<Track>)
    ensures
        track_views(final(tracks)@) == sorted_by_name(track_views(old(tracks)@)),
        ordered_by_name(track_views(final(tracks)@)),
        final(tracks)@.len() == old(tracks)@.len(),
        track_views(final(tracks)@).to_multiset() == track_views(old(tracks)@).to_multiset(),
{
    let ghost all = track_views(tracks@);
    let mut sorted: Vec<Track> = Vec::new();
    assert(all.skip(all.len() as int) == Seq::<TrackView>::empty());
    assert(track_views(sorted@) == Seq::<TrackView>::empty());
    assert(all.take(all.len() as int) == all);
    while tracks.len() > 0
        invariant
            tracks@.len() <= all.len(),
            track_views(tracks@) == all.take(tracks@.len() as int),
            track_views(sorted@) == sorted_by_name(all.skip(tracks@.len() as int)),
        decreases tracks.len(),
    {
        let ghost before = tracks@;
        let track = tracks.pop().unwrap();
        let ghost rest = all.skip(tracks@.len() as int);
        proof {
            assert(track@ == track_views(before)[before.len() - 1]);
            assert(rest.first() == track@);
            assert(rest.drop_first() == all.skip(before.len() as int));
            assert(track_views(tracks@) == all.take(tracks@.len() as int));
        }
        let mut p: usize = 0;
        while p < sorted.len() && name_precedes(&sorted[p].name, &track.name)
            invariant
                p <= sorted.len(),
                forall|j: int|
                    0 <= j < p ==> precedes(#[trigger] track_views(sorted@)[j].name, track@.name),
            decreases sorted.len() - p,
        {
            p += 1;
        }
        proof {
            let views = track_views(sorted@);
            assert(p < sorted.len() ==> views[p as int].name == sorted@[p as int].name@);
            lemma_insert_position(views, track@, p as int);
        }
        let ghost views = track_views(sorted@);
        sorted.insert(p, track);
        assert(track_views(sorted@) == views.insert(p as int, track@));
    }
    proof {
        assert(all.skip(0) == all);
        lemma_sorted_by_name(all);
    }
    *tracks = sorted;
}

/// The tracks whose names are among `names`, in the order of the tracks.
pub open spec fn selected_views(tracks: Seq<TrackView>, names: Seq<Seq<char>>) -> Seq<TrackView> {
    tracks.filter(|track: TrackView| names.contains(track.name))
}

/// A choice from ordered tracks is ordered.
pub proof fn lemma_selection_keeps_order(tracks: Seq<TrackView>, names: Seq<Seq<char>>)
    requires
        ordered_by_name(tracks),
    ensures
        ordered_by_name(selected_views(tracks, names)),
    decreases tracks.len(),
{
    reveal(Seq::filter);
    let chosen = |track: TrackView| names.contains(track.name);
    let out = tracks.filter(chosen);
    if tracks.len() > 0 {
        let front = tracks.drop_last();
        let kept = front.filter(chosen);
        lemma_selection_keeps_order(front, names);
        assert forall|i: int, j: int| 0 <= i < j < out.len() implies !precedes(
            out[j].name,
            out[i].name,
        ) by {
            if j == kept.len() {
                front.lemma_filter_contains_rev(chosen, kept[i]);
                let k = choose|k: int| 0 <= k < front.len() && front[k] == kept[i];
                assert(tracks[k] == out[i] && tracks[tracks.len() - 1] == out[j]);
            }
        }
    }
}

/// Whether `name` is one of `names`.
pub fn names_contain(names: &Vec<String>, name: &String) -> (found: bool)
    ensures
        found == name_views(names@).contains(name@),
{
    let mut i: usize = 0;
    while i < names.len()
        invariant
            i <= names.len(),
            forall|j: int| 0 <= j < i ==> name_views(names@)[j] != name@,
        decreases names.len() - i,
    {
        if names[i] == *name {
            assert(name_views(names@)[i as int] == name@);
            return true;
        }
        i += 1;
    }
    false
}

/// The playlist: the tracks whose names were chosen, in the order in which
/// the tracks stand.
pub fn select_tracks(tracks: &Vec<Track>, names: &Vec<String>) -> (selected: Vec<Track>)
    ensures
        track_views(selected@) == selected_views(track_views(tracks@), name_views(names@)),
{
    let ghost all = track_views(tracks@);
    let ghost chosen = |track: TrackView| name_views(names@).contains(track.name);
    let mut selected: Vec<Track> = Vec::new();
    let mut i: usize = 0;
    assert(all.take(0) == Seq::<TrackView>::empty());
    assert(track_views(selected@) == Seq::<TrackView>::empty());
    while i < tracks.len()
        invariant
            i <= tracks.len(),
            all == track_views(tracks@),
            chosen == |track: TrackView| name_views(names@).contains(track.name),
            track_views(selected@) == all.take(i as int).filter(chosen),
        decreases tracks.len() - i,
    {
        let ghost before = track_views(selected@);
        proof {
            assert(all.take(i as int + 1) == all.take(i as int).push(all[i as int]));
            all.take(i as int).lemma_filter_push(all[i as int], chosen);
        }
        if names_contain(names, &tracks[i].name) {
            selected.push(tracks[i].clone());
            assert(track_views(selected@) == before.push(all[i as int]));
        }
        i += 1;
    }
    assert(all.take(i as int) == all);
    selected
}

/// The names of the tracks, in the order of the tracks.
pub fn track_names(tracks: &Vec<Track>) -> (names: Vec<String>)
    ensures
        names@.len() == tracks@.len(),
        forall|i: int| 0 <= i < tracks@.len() ==> #[trigger] names@[i]@ == tracks@[i].name@,
{
    let mut names: Vec<String> = Vec::new();
    let mut i: usize = 0;
    while i < tracks.len()
        invariant
            i <= tracks.len(),
            names@.len() == i,
            forall|j: int| 0 <= j < i ==> #[trigger] names@[j]@ == tracks@[j].name@,
        decreases tracks.len() - i,
    {
        names.push(tracks[i].name.clone());
        i += 1;
    }
    names
}

} // verus!
