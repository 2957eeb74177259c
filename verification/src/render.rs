//! Fixed-width rendering of catalog rows for the operator's console.

use crate::codec::enc_nat;
use crate::song::{catalog_view, Song, SongView};
use crate::text::{chars_to_string, str_chars, trim_front};
use vstd::prelude::*;

verus! {

/// `n` spaces.
pub open spec fn spaces(n: int) -> Seq<char>
    decreases n,
{
    if n <= 0 {
        Seq::<char>::empty()
    } else {
        spaces(n - 1).push(' ')
    }
}

/// `s` padded with spaces on the right up to width `w`.
pub open spec fn pad_to(s: Seq<char>, w: int) -> Seq<char> {
    if s.len() >= w {
        s
    } else {
        s + spaces(w - s.len())
    }
}

/// A cell of width `max_len`: over-long text is cut and marked with an
/// ellipsis, shorter text is padded with spaces.
pub open spec fn truncate_spec(s: Seq<char>, max_len: int) -> Seq<char> {
    if s.len() > max_len {
        s.take(max_len - 3) + seq!['.', '.', '.']
    } else {
        pad_to(s, max_len)
    }
}

/// An ASCII upper-case letter folded to lower case; any other character
/// unchanged.
pub open spec fn lower_char(c: char) -> char {
    if 65 <= c as int && c as int <= 90 {
        ((c as int + 32) as u8) as char
    } else {
        c
    }
}

/// The text with every ASCII letter folded to lower case.
pub open spec fn lower(s: Seq<char>) -> Seq<char> {
    s.map_values(|c: char| lower_char(c))
}

/// The explicit field is truthy — the song carries the explicit marker —
/// when it case-insensitively matches one of a fixed small set of truthy
/// tokens.
pub open spec fn is_truthy(s: Seq<char>) -> bool {
    ||| lower(s) == "true"@
    ||| lower(s) == "t"@
    ||| lower(s) == "1"@
    ||| lower(s) == "yes"@
    ||| lower(s) == "y"@
}

/// The title as shown: leading whitespace dropped, and the explicit
/// marker appended when the explicit field is truthy.
pub open spec fn decorated_title(v: SongView) -> Seq<char> {
    if is_truthy(v.explicit) {
        trim_front(v.title) + seq![' ', '\u{1F174}']
    } else {
        trim_front(v.title)
    }
}

/// One console row: the bracketed id, then title, artist and lyrics
/// cells, space separated.
pub open spec fn song_row_spec(v: SongView) -> Seq<char> {
    pad_to(seq!['['] + enc_nat(v.id) + seq![']'], 7) + seq![' '] + pad_to(
        truncate_spec(decorated_title(v), 20),
        22,
    ) + seq![' '] + pad_to(truncate_spec(v.artist, 16), 20) + seq![' '] + truncate_spec(
        v.lyrics,
        24,
    )
}

fn lower_char_exec(c: char) -> (r: char)
    ensures
        r == lower_char(c),
{
    let u: u32 = c as u32;
    if 65 <= u && u <= 90 {
        ((u + 32) as u8) as char
    } else {
        c
    }
}

/// The characters of `s` with every ASCII letter folded to lower case.
fn lower_chars(s: &Vec<char>) -> (r: Vec<char>)
    ensures
        r@ == lower(s@),
{
    let mut r: Vec<char> = Vec::new();
    let mut i: usize = 0;
    proof {
        assert(r@ =~= lower(s@.take(0)));
    }
    while i < s.len()
        invariant
            i <= s@.len(),
            r@ == lower(s@.take(i as int)),
        decreases s@.len() - i,
    {
        r.push(lower_char_exec(s[i]));
        i = i + 1;
        proof {
            assert(lower(s@.take(i as int)) =~= lower(s@.take(i - 1)).push(
                lower_char(s@[i - 1]),
            ));
        }
    }
    proof {
        assert(s@.take(s@.len() as int) =~= s@);
    }
    r
}

/// Whether this song is rendered with the explicit marker.
pub fn explicit_is_truthy(s: &str) -> (r: bool)
    ensures
        r == is_truthy(s@),
{
    let cs = str_chars(s);
    let lo = lower_chars(&cs);
    proof {
        reveal_strlit("true");
        reveal_strlit("t");
        reveal_strlit("1");
        reveal_strlit("yes");
        reveal_strlit("y");
    }
    crate::text::chars_eq(&lo, &str_chars("true")) || crate::text::chars_eq(
        &lo,
        &str_chars("t"),
    ) || crate::text::chars_eq(&lo, &str_chars("1")) || crate::text::chars_eq(
        &lo,
        &str_chars("yes"),
    ) || crate::text::chars_eq(&lo, &str_chars("y"))
}

/// Appends the characters of `add`.
fn append_chars(out: &mut Vec<char>, add: &Vec<char>)
    ensures
        final(out)@ == old(out)@ + add@,
{
    let mut i: usize = 0;
    while i < add.len()
        invariant
            i <= add@.len(),
            out@ == old(out)@ + add@.take(i as int),
        decreases add@.len() - i,
    {
        out.push(add[i]);
        i = i + 1;
        proof {
            assert(old(out)@ + add@.take(i as int) =~= (old(out)@ + add@.take(i - 1)).push(
                add@[i - 1],
            ));
        }
    }
    proof {
        assert(out@ =~= old(out)@ + add@);
    }
}

/// Pads a cell with spaces on the right up to width `w`.
#[verifier::loop_isolation(false)]
fn pad_cell(cell: &mut Vec<char>, w: usize)
    ensures
        final(cell)@ == pad_to(old(cell)@, w as int),
{
    while cell.len() < w
        invariant
            cell@ == old(cell)@ + spaces(cell@.len() - old(cell)@.len()),
            cell@.len() >= old(cell)@.len(),
            old(cell)@.len() >= w ==> cell@.len() == old(cell)@.len(),
            old(cell)@.len() < w ==> cell@.len() <= w,
        decreases w - cell@.len(),
    {
        cell.push(' ');
        proof {
            assert(cell@ =~= old(cell)@ + spaces(cell@.len() - old(cell)@.len()));
        }
    }
    proof {
        if old(cell)@.len() >= w {
            assert(cell@.len() == old(cell)@.len());
            assert(spaces(0) == Seq::<char>::empty());
            assert(cell@ =~= old(cell)@);
        }
    }
}

/// Builds the cell `truncate_spec(s, max_len)`.  Widths below 3 are
/// fine as long as the text fits: only the truncating branch needs room
/// for the ellipsis.
#[verifier::loop_isolation(false)]
fn truncate_cell(s: &Vec<char>, max_len: usize) -> (r: Vec<char>)
    requires
        s@.len() > max_len ==> max_len >= 3,
    ensures
        r@ == truncate_spec(s@, max_len as int),
{
    let mut out: Vec<char> = Vec::new();
    if s.len() > max_len {
        let mut i: usize = 0;
        while i < max_len - 3
            invariant
                i <= max_len - 3,
                out@ == s@.take(i as int),
            decreases max_len - 3 - i,
        {
            out.push(s[i]);
            i = i + 1;
            proof {
                assert(s@.take(i as int) =~= s@.take(i - 1).push(s@[i - 1]));
            }
        }
        out.push('.');
        out.push('.');
        out.push('.');
        proof {
            assert(out@ =~= s@.take(max_len - 3) + seq!['.', '.', '.']);
        }
    } else {
        let mut i: usize = 0;
        while i < s.len()
            invariant
                i <= s@.len(),
                out@ == s@.take(i as int),
            decreases s@.len() - i,
        {
            out.push(s[i]);
            i = i + 1;
            proof {
                assert(s@.take(i as int) =~= s@.take(i - 1).push(s@[i - 1]));
            }
        }
        proof {
            assert(out@ =~= s@);
        }
        pad_cell(&mut out, max_len);
    }
    out
}

/// The characters of a song's console row.
#[verifier::rlimit(100)]
fn song_row_chars(song: &Song) -> (r: Vec<char>)
    ensures
        r@ == song_row_spec(song@),
{
    let mut id_cell: Vec<char> = Vec::new();
    id_cell.push('[');
    crate::wire::push_nat(&mut id_cell, song.id);
    id_cell.push(']');
    proof {
        assert(id_cell@ =~= seq!['['] + enc_nat(song.id as int) + seq![']']);
    }
    pad_cell(&mut id_cell, 7);

    let tc = str_chars(song.title.as_str());
    let mut title = crate::text::trim_chars_front(&tc);
    if explicit_is_truthy(song.explicit.as_str()) {
        title.push(' ');
        title.push('\u{1F174}');
        proof {
            assert(title@ =~= trim_front(song.title@) + seq![' ', '\u{1F174}']);
        }
    }
    let mut title_cell = truncate_cell(&title, 20);
    pad_cell(&mut title_cell, 22);

    let ac = str_chars(song.artist.as_str());
    let mut artist_cell = truncate_cell(&ac, 16);
    pad_cell(&mut artist_cell, 20);

    let lc = str_chars(song.lyrics.as_str());
    let lyrics_cell = truncate_cell(&lc, 24);

    let mut out: Vec<char> = Vec::new();
    append_chars(&mut out, &id_cell);
    out.push(' ');
    append_chars(&mut out, &title_cell);
    out.push(' ');
    append_chars(&mut out, &artist_cell);
    out.push(' ');
    append_chars(&mut out, &lyrics_cell);
    proof {
        assert(out@ =~= song_row_spec(song@));
    }
    out
}

/// A song's console row, as printed by the catalog listing.
pub fn song_row(song: &Song) -> (r: String)
    ensures
        r@ == song_row_spec(song@),
{
    let cs = song_row_chars(song);
    chars_to_string(&cs)
}

/// The console rows of a whole catalog, in order.
pub fn catalog_rows(songs: &Vec<Song>) -> (r: Vec<String>)
    ensures
        r@.len() == songs@.len(),
        forall|k: int|
            0 <= k < songs@.len() ==> (#[trigger] r@[k])@ == song_row_spec(
                catalog_view(songs@)[k],
            ),
{
    let mut r: Vec<String> = Vec::new();
    let mut i: usize = 0;
    while i < songs.len()
        invariant
            i <= songs@.len(),
            r@.len() == i,
            forall|k: int|
                0 <= k < i ==> (#[trigger] r@[k])@ == song_row_spec(catalog_view(songs@)[k]),
        decreases songs@.len() - i,
    {
        r.push(song_row(&songs[i]));
        i = i + 1;
    }
    r
}

/// A truncated, space-padded cell of width `max_len`, as the console
/// listing shows each column.  A width below 3 leaves no room for the
/// ellipsis, so it is allowed only when the text already fits.
pub fn truncate_string(s: &str, max_len: usize) -> (r: String)
    requires
        s@.len() > max_len ==> max_len >= 3,
    ensures
        r@ == truncate_spec(s@, max_len as int),
{
    let cs = str_chars(s);
    let cell = truncate_cell(&cs, max_len);
    chars_to_string(&cell)
}

} // verus!
