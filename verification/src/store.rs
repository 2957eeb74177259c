//! The catalog store: every operation is one whole load-mutate-save
//! cycle on the persisted document, taken and returned as a plain string
//! so that the caller only touches the file system.

use crate::codec::{enc_catalog, p_catalog_doc};
use crate::parse::parse_catalog_doc;
use crate::song::{catalog_view, ids_unique, Song, SongView};
use crate::wire::encode_catalog;
use vstd::prelude::*;

verus! {

/// Why a store operation failed.  `Malformed` is a persisted document
/// that does not parse; `IdSpaceExhausted` reports a catalog whose next
/// id would not fit in a `usize`, where wrapping would break id
/// uniqueness.
#[derive(Clone, Copy, Debug, PartialEq, Eq, Structural)]
pub enum PersistenceError {
    Malformed,
    IdSpaceExhausted,
}

// ---------------------------------------------------------------------
// The model of each operation
// ---------------------------------------------------------------------

/// The largest id in a non-empty catalog.
pub open spec fn max_id(c: Seq<SongView>) -> int
    decreases c.len(),
{
    if c.len() <= 1 {
        c[0].id
    } else if c[0].id >= max_id(c.drop_first()) {
        c[0].id
    } else {
        max_id(c.drop_first())
    }
}

/// The id a newly created song gets: one past the largest, or 0 in an
/// empty catalog.
pub open spec fn next_id_spec(c: Seq<SongView>) -> int {
    if c.len() == 0 {
        0
    } else {
        max_id(c) + 1
    }
}

/// The index of the first song with this id, or -1.
pub open spec fn find_id(c: Seq<SongView>, id: int) -> int
    decreases c.len(),
{
    if c.len() == 0 {
        -1
    } else if c[0].id == id {
        0
    } else if find_id(c.drop_first(), id) == -1 {
        -1
    } else {
        1 + find_id(c.drop_first(), id)
    }
}

/// The catalog with the first song of this id removed; unchanged when no
/// song has it.
pub open spec fn remove_id(c: Seq<SongView>, id: int) -> Seq<SongView> {
    if find_id(c, id) == -1 {
        c
    } else {
        c.remove(find_id(c, id))
    }
}

/// One song with its visibility set.
pub open spec fn with_public(s: SongView, public: bool) -> SongView {
    SongView {
        id: s.id,
        title: s.title,
        artist: s.artist,
        lyrics: s.lyrics,
        explicit: s.explicit,
        public,
    }
}

/// The catalog with the visibility flag set on every song with this id;
/// unchanged when no song has it.
pub open spec fn set_vis(c: Seq<SongView>, id: int, public: bool) -> Seq<SongView> {
    c.map_values(
        |s: SongView|
            if s.id == id {
                with_public(s, public)
            } else {
                s
            },
    )
}

/// Only the public songs, in catalog order.
pub open spec fn filter_public(c: Seq<SongView>) -> Seq<SongView>
    decreases c.len(),
{
    if c.len() == 0 {
        Seq::<SongView>::empty()
    } else if c[0].public {
        seq![c[0]] + filter_public(c.drop_first())
    } else {
        filter_public(c.drop_first())
    }
}

/// Filtering distributes over concatenation.
pub proof fn lemma_filter_public_concat(a: Seq<SongView>, b: Seq<SongView>)
    ensures
        filter_public(a + b) == filter_public(a) + filter_public(b),
    decreases a.len(),
{
    if a.len() == 0 {
        assert(a + b =~= b);
        assert(filter_public(a) + filter_public(b) =~= filter_public(b));
    } else {
        assert((a + b).drop_first() =~= a.drop_first() + b);
        lemma_filter_public_concat(a.drop_first(), b);
        assert(filter_public(a + b) =~= filter_public(a) + filter_public(b));
    }
}

/// No song of a non-empty catalog has an id above `max_id`.
pub proof fn lemma_max_id_ge(c: Seq<SongView>, i: int)
    requires
        0 <= i < c.len(),
    ensures
        c[i].id <= max_id(c),
    decreases c.len(),
{
    if i > 0 {
        lemma_max_id_ge(c.drop_first(), i - 1);
        assert(c.drop_first()[i - 1] == c[i]);
    }
}

// ---------------------------------------------------------------------
// In-memory operations
// ---------------------------------------------------------------------

/// The id the next created song will get.
pub fn next_id(songs: &Vec<Song>) -> (r: usize)
    requires
        next_id_spec(catalog_view(songs@)) <= usize::MAX,
    ensures
        r == next_id_spec(catalog_view(songs@)),
{
    let ghost views = catalog_view(songs@);
    if songs.len() == 0 {
        return 0;
    }
    let mut m: usize = songs[0].id;
    let mut i: usize = 1;
    proof {
        assert(views.take(1).drop_first() =~= Seq::<SongView>::empty());
        assert(max_id(views.take(1)) == views[0].id);
        lemma_max_prefix_le(views, 1);
    }
    while i < songs.len()
        invariant
            1 <= i <= songs@.len(),
            views == catalog_view(songs@),
            next_id_spec(views) <= usize::MAX,
            m == max_id(views.take(i as int)),
            m <= usize::MAX - 1,
        decreases songs@.len() - i,
    {
        proof {
            lemma_max_take_step(views, i as int);
            lemma_max_prefix_le(views, i as int + 1);
        }
        if songs[i].id > m {
            m = songs[i].id;
        }
        i = i + 1;
    }
    proof {
        assert(views.take(views.len() as int) =~= views);
    }
    m + 1
}

/// The maximum over a non-empty prefix never exceeds the maximum over
/// the whole catalog.
proof fn lemma_max_prefix_le(c: Seq<SongView>, i: int)
    requires
        1 <= i <= c.len(),
    ensures
        max_id(c.take(i)) <= max_id(c),
    decreases c.len() - i,
{
    if i == c.len() {
        assert(c.take(i) =~= c);
    } else {
        lemma_max_take_step(c, i);
        lemma_max_prefix_le(c, i + 1);
    }
}

/// Extending a non-empty prefix by one element takes the larger of the
/// old maximum and the new id.
proof fn lemma_max_take_step(c: Seq<SongView>, i: int)
    requires
        1 <= i < c.len(),
    ensures
        max_id(c.take(i + 1)) == if c[i].id > max_id(c.take(i)) {
            c[i].id
        } else {
            max_id(c.take(i))
        },
    decreases i,
{
    let a = c.take(i + 1);
    if i == 1 {
        assert(a.drop_first() =~= seq![c[1]]);
        assert(max_id(a.drop_first()) == c[1].id);
        assert(c.take(1).drop_first() =~= Seq::<SongView>::empty());
        assert(max_id(c.take(1)) == c[0].id);
        assert(a[0] == c[0]);
    } else {
        assert(a.drop_first() =~= c.drop_first().take(i));
        assert(c.take(i).drop_first() =~= c.drop_first().take(i - 1));
        lemma_max_take_step(c.drop_first(), i - 1);
        assert(c.drop_first()[i - 1] == c[i]);
        assert(c.take(i).len() > 0);
        assert(a[0] == c[0] && c.take(i)[0] == c[0]);
    }
}

/// Appends a newly created song: next id, given fields, private.
pub fn create_song(
    songs: &mut Vec<Song>,
    title: String,
    artist: String,
    lyrics: String,
    explicit: String,
) -> (r: Song)
    requires
        next_id_spec(catalog_view(old(songs)@)) <= usize::MAX,
    ensures
        r@ == (SongView {
            id: next_id_spec(catalog_view(old(songs)@)),
            title: title@,
            artist: artist@,
            lyrics: lyrics@,
            explicit: explicit@,
            public: false,
        }),
        catalog_view(final(songs)@) == catalog_view(old(songs)@).push(r@),
        forall|k: int|
            0 <= k < old(songs)@.len() ==> (#[trigger] catalog_view(old(songs)@)[k]).id < r@.id,
{
    let id = next_id(songs);
    let song = Song {
        id,
        title: title.clone(),
        artist: artist.clone(),
        lyrics: lyrics.clone(),
        explicit: explicit.clone(),
        public: false,
    };
    let r = song.clone_song();
    songs.push(song);
    proof {
        assert(catalog_view(songs@) =~= catalog_view(old(songs)@).push(r@));
        assert forall|k: int| 0 <= k < old(songs)@.len() implies (#[trigger] catalog_view(
            old(songs)@,
        )[k]).id < r@.id by {
            lemma_max_id_ge(catalog_view(old(songs)@), k);
        }
    }
    r
}

/// Removes the first song with this id; does nothing when none has it.
pub fn delete_song(songs: &mut Vec<Song>, id: usize) -> (found: bool)
    ensures
        catalog_view(final(songs)@) == remove_id(catalog_view(old(songs)@), id as int),
        found == (find_id(catalog_view(old(songs)@), id as int) >= 0),
{
    let ghost views = catalog_view(old(songs)@);
    let mut i: usize = 0;
    while i < songs.len()
        invariant
            i <= songs@.len(),
            songs@ == old(songs)@,
            views == catalog_view(songs@),
            forall|k: int| 0 <= k < i ==> (#[trigger] views[k]).id != id as int,
        decreases songs@.len() - i,
    {
        if songs[i].id == id {
            songs.remove(i);
            proof {
                lemma_find_id_first(views, id as int, i as int);
                assert(catalog_view(songs@) =~= views.remove(i as int));
            }
            return true;
        }
        i = i + 1;
    }
    proof {
        lemma_find_id_none(views, id as int);
    }
    false
}

/// When no song up to the first match has the id, `find_id` is that
/// match.
proof fn lemma_find_id_first(c: Seq<SongView>, id: int, i: int)
    requires
        0 <= i < c.len(),
        c[i].id == id,
        forall|k: int| 0 <= k < i ==> (#[trigger] c[k]).id != id,
    ensures
        find_id(c, id) == i,
    decreases i,
{
    if i > 0 {
        lemma_find_id_first(c.drop_first(), id, i - 1);
    }
}

/// When no song has the id, `find_id` reports none.
proof fn lemma_find_id_none(c: Seq<SongView>, id: int)
    requires
        forall|k: int| 0 <= k < c.len() ==> (#[trigger] c[k]).id != id,
    ensures
        find_id(c, id) == -1,
    decreases c.len(),
{
    if c.len() > 0 {
        lemma_find_id_none(c.drop_first(), id);
    }
}

/// `find_id` finds an actual occurrence, and -1 only when there is none.
pub proof fn lemma_find_id_spec(c: Seq<SongView>, id: int)
    ensures
        find_id(c, id) == -1 ==> forall|k: int| 0 <= k < c.len() ==> (#[trigger] c[k]).id != id,
        find_id(c, id) != -1 ==> {
            &&& 0 <= find_id(c, id) < c.len()
            &&& c[find_id(c, id)].id == id
            &&& forall|k: int| 0 <= k < find_id(c, id) ==> (#[trigger] c[k]).id != id
        },
    decreases c.len(),
{
    if c.len() > 0 && c[0].id != id {
        lemma_find_id_spec(c.drop_first(), id);
        let f = find_id(c.drop_first(), id);
        if f != -1 {
            assert(c.drop_first()[f] == c[f + 1]);
            assert forall|k: int| 0 <= k < f + 1 implies (#[trigger] c[k]).id != id by {
                if k > 0 {
                    assert(c.drop_first()[k - 1] == c[k]);
                }
            }
        } else {
            assert forall|k: int| 0 <= k < c.len() implies (#[trigger] c[k]).id != id by {
                if k > 0 {
                    assert(c.drop_first()[k - 1] == c[k]);
                }
            }
        }
    }
}

/// Sets the visibility flag on every song with this id; does nothing
/// when none has it.
pub fn set_visibility_song(songs: &mut Vec<Song>, id: usize, public: bool)
    ensures
        catalog_view(final(songs)@) == set_vis(catalog_view(old(songs)@), id as int, public),
{
    let ghost views = catalog_view(old(songs)@);
    let ghost target = set_vis(views, id as int, public);
    let mut i: usize = 0;
    while i < songs.len()
        invariant
            i <= songs@.len(),
            songs@.len() == old(songs)@.len(),
            views == catalog_view(old(songs)@),
            target == set_vis(views, id as int, public),
            target.len() == views.len(),
            forall|k: int| i <= k < songs@.len() ==> songs@[k] == old(songs)@[k],
            forall|k: int| 0 <= k < i ==> (#[trigger] catalog_view(songs@)[k]) == target[k],
        decreases songs@.len() - i,
    {
        let ghost pre = songs@;
        if songs[i].id == id {
            let mut s = songs[i].clone_song();
            s.public = public;
            songs.set(i, s);
        }
        proof {
            assert(target[i as int] == (if views[i as int].id == id as int {
                with_public(views[i as int], public)
            } else {
                views[i as int]
            }));
            assert forall|k: int| 0 <= k < i + 1 implies (#[trigger] catalog_view(songs@)[k])
                == target[k] by {
                if k < i {
                    assert(songs@[k] == pre[k]);
                    assert(catalog_view(pre)[k] == pre[k]@);
                } else {
                    assert(songs@[k]@ == target[k]);
                }
            }
        }
        i = i + 1;
    }
    proof {
        assert(catalog_view(songs@) =~= target);
    }
}

/// The public songs only, in order: what may leave the node.
pub fn public_snapshot_songs(songs: &Vec<Song>) -> (r: Vec<Song>)
    ensures
        catalog_view(r@) == filter_public(catalog_view(songs@)),
        forall|k: int| 0 <= k < r@.len() ==> (#[trigger] r@[k]).public,
{
    let ghost views = catalog_view(songs@);
    let mut r: Vec<Song> = Vec::new();
    let mut i: usize = 0;
    proof {
        assert(views.take(0) =~= Seq::<SongView>::empty());
        assert(catalog_view(r@) =~= filter_public(views.take(0)));
    }
    while i < songs.len()
        invariant
            i <= songs@.len(),
            views == catalog_view(songs@),
            catalog_view(r@) == filter_public(views.take(i as int)),
            forall|k: int| 0 <= k < r@.len() ==> (#[trigger] r@[k]).public,
        decreases songs@.len() - i,
    {
        proof {
            let a = views.take(i as int);
            let b = seq![views[i as int]];
            lemma_filter_public_concat(a, b);
            assert(b.drop_first() =~= Seq::<SongView>::empty());
            assert(filter_public(Seq::<SongView>::empty()) == Seq::<SongView>::empty());
            assert(filter_public(b) =~= if b[0].public {
                seq![b[0]]
            } else {
                Seq::<SongView>::empty()
            });
            assert(views.take(i as int + 1) =~= a + b);
        }
        if songs[i].public {
            let ghost r0 = r@;
            r.push(songs[i].clone_song());
            proof {
                assert(catalog_view(r@) =~= catalog_view(r0).push(views[i as int]));
                assert(filter_public(seq![views[i as int]]) =~= seq![views[i as int]]);
                assert(catalog_view(r@) =~= filter_public(views.take(i as int + 1)));
            }
        } else {
            proof {
                assert(filter_public(seq![views[i as int]]) =~= Seq::<SongView>::empty());
                assert(catalog_view(r@) =~= filter_public(views.take(i as int + 1)));
            }
        }
        i = i + 1;
    }
    proof {
        assert(views.take(views.len() as int) =~= views);
    }
    r
}

// ---------------------------------------------------------------------
// Document-level operations: one load-mutate-save cycle each
// ---------------------------------------------------------------------

/// Reads the persisted document into a catalog.
pub fn load(doc: &str) -> (r: Result<Vec<Song>, PersistenceError>)
    ensures
        match r {
            Ok(songs) => p_catalog_doc(doc@) == Some(catalog_view(songs@)),
            Err(e) => p_catalog_doc(doc@) is None && e == PersistenceError::Malformed,
        },
{
    match parse_catalog_doc(doc) {
        Some(songs) => Ok(songs),
        None => Err(PersistenceError::Malformed),
    }
}

/// Writes a catalog as its one canonical document.
pub fn save(songs: &Vec<Song>) -> (r: String)
    ensures
        r@ == enc_catalog(catalog_view(songs@)),
{
    encode_catalog(songs)
}

/// Creates a song: loads the document, assigns the next id, appends the
/// new private song, and returns the new document with the new song.
pub fn create(
    doc: &str,
    title: String,
    artist: String,
    lyrics: String,
    explicit: String,
) -> (r: Result<(String, Song), PersistenceError>)
    ensures
        match r {
            Ok((doc2, song)) => {
                &&& p_catalog_doc(doc@) is Some
                &&& {
                    let c = p_catalog_doc(doc@)->Some_0;
                    &&& next_id_spec(c) <= usize::MAX
                    &&& song@ == (SongView {
                        id: next_id_spec(c),
                        title: title@,
                        artist: artist@,
                        lyrics: lyrics@,
                        explicit: explicit@,
                        public: false,
                    })
                    &&& doc2@ == enc_catalog(c.push(song@))
                    &&& forall|k: int| 0 <= k < c.len() ==> (#[trigger] c[k]).id < song@.id
                }
            },
            Err(PersistenceError::Malformed) => p_catalog_doc(doc@) is None,
            Err(PersistenceError::IdSpaceExhausted) => {
                &&& p_catalog_doc(doc@) is Some
                &&& next_id_spec(p_catalog_doc(doc@)->Some_0) > usize::MAX
            },
        },
{
    let mut songs = match load(doc) {
        Ok(songs) => songs,
        Err(e) => {
            return Err(e);
        },
    };
    if songs.len() > 0 {
        let ghost c = catalog_view(songs@);
        let mut m: usize = songs[0].id;
        let mut i: usize = 1;
        proof {
            assert(c.take(1).drop_first() =~= Seq::<SongView>::empty());
            assert(max_id(c.take(1)) == c[0].id);
        }
        while i < songs.len()
            invariant
                1 <= i <= songs@.len(),
                c == catalog_view(songs@),
                m == max_id(c.take(i as int)),
            decreases songs@.len() - i,
        {
            proof {
                lemma_max_take_step(c, i as int);
            }
            if songs[i].id > m {
                m = songs[i].id;
            }
            i = i + 1;
        }
        proof {
            assert(c.take(c.len() as int) =~= c);
        }
        if m == usize::MAX {
            return Err(PersistenceError::IdSpaceExhausted);
        }
    }
    let song = create_song(&mut songs, title, artist, lyrics, explicit);
    let doc2 = save(&songs);
    Ok((doc2, song))
}

/// Deletes the song with this id: loads, removes it if present, and
/// returns the new document and whether the id was found.
pub fn delete(doc: &str, id: usize) -> (r: Result<(String, bool), PersistenceError>)
    ensures
        match r {
            Ok((doc2, found)) => {
                &&& p_catalog_doc(doc@) is Some
                &&& {
                    let c = p_catalog_doc(doc@)->Some_0;
                    &&& doc2@ == enc_catalog(remove_id(c, id as int))
                    &&& found == (find_id(c, id as int) >= 0)
                }
            },
            Err(e) => p_catalog_doc(doc@) is None && e == PersistenceError::Malformed,
        },
{
    let mut songs = match load(doc) {
        Ok(songs) => songs,
        Err(e) => {
            return Err(e);
        },
    };
    let found = delete_song(&mut songs, id);
    let doc2 = save(&songs);
    Ok((doc2, found))
}

/// Sets the visibility of the song with this id: loads, flips the flag
/// if present, and returns the new document.
pub fn set_visibility(doc: &str, id: usize, public: bool) -> (r: Result<
    String,
    PersistenceError,
>)
    ensures
        match r {
            Ok(doc2) => {
                &&& p_catalog_doc(doc@) is Some
                &&& doc2@ == enc_catalog(set_vis(p_catalog_doc(doc@)->Some_0, id as int, public))
            },
            Err(e) => p_catalog_doc(doc@) is None && e == PersistenceError::Malformed,
        },
{
    let mut songs = match load(doc) {
        Ok(songs) => songs,
        Err(e) => {
            return Err(e);
        },
    };
    set_visibility_song(&mut songs, id, public);
    let doc2 = save(&songs);
    Ok(doc2)
}

/// The public part of the persisted catalog: what responses may carry.
pub fn public_snapshot(doc: &str) -> (r: Result<Vec<Song>, PersistenceError>)
    ensures
        match r {
            Ok(songs) => {
                &&& p_catalog_doc(doc@) is Some
                &&& catalog_view(songs@) == filter_public(p_catalog_doc(doc@)->Some_0)
                &&& forall|k: int| 0 <= k < songs@.len() ==> (#[trigger] songs@[k]).public
            },
            Err(e) => p_catalog_doc(doc@) is None && e == PersistenceError::Malformed,
        },
{
    let songs = match load(doc) {
        Ok(songs) => songs,
        Err(e) => {
            return Err(e);
        },
    };
    Ok(public_snapshot_songs(&songs))
}

} // verus!
