//! The song record and the mathematical model of a catalog.

use vstd::prelude::*;

verus! {

/// One catalog entry.  `explicit` is free text; it is rendered as an
/// explicit-content marker when it matches one of a fixed set of truthy
/// tokens.  `public` controls whether the record may leave the node.
#[derive(Debug)]
pub struct Song {
    pub id: usize,
    pub title: String,
    pub artist: String,
    pub lyrics: String,
    pub explicit: String,
    pub public: bool,
}

/// The mathematical value of a `Song`: the same fields over `int`,
/// `Seq<char>` and `bool`.
pub ghost struct SongView {
    pub id: int,
    pub title: Seq<char>,
    pub artist: Seq<char>,
    pub lyrics: Seq<char>,
    pub explicit: Seq<char>,
    pub public: bool,
}

impl View for Song {
    type V = SongView;

    open spec fn view(&self) -> SongView {
        SongView {
            id: self.id as int,
            title: self.title@,
            artist: self.artist@,
            lyrics: self.lyrics@,
            explicit: self.explicit@,
            public: self.public,
        }
    }
}

impl Song {
    pub fn clone_song(&self) -> (r: Song)
        ensures
            r@ == self@,
    {
        Song {
            id: self.id,
            title: self.title.clone(),
            artist: self.artist.clone(),
            lyrics: self.lyrics.clone(),
            explicit: self.explicit.clone(),
            public: self.public,
        }
    }
}

/// The model of a catalog: the songs' values, in catalog order.
pub open spec fn catalog_view(songs: Seq<Song>) -> Seq<SongView> {
    songs.map_values(|s: Song| s@)
}

/// Every id occurs at most once: the catalog invariant.
pub open spec fn ids_unique(c: Seq<SongView>) -> bool {
    forall|i: int, j: int| 0 <= i < c.len() && 0 <= j < c.len() && i != j ==> c[i].id != c[j].id
}

} // verus!
